//! The DWIN touch panel: frames written to it, and touches found in what it sends.
use vstd::prelude::*;

verus! {

/// Where the panel shows the voltage.
pub const VOLTAGE_ADDR: u16 = 0x5000;

/// Where the panel shows the current.
pub const CURRENT_ADDR: u16 = 0x5002;

/// Where the panel shows the potential.
pub const POTENTIAL_ADDR: u16 = 0x5004;

/// How long to wait between two rounds of readings for the panel.
pub const REFRESH_MS: u64 = 300;

/// The frame that sets the variable at `addr` to the 32-bit pattern `bits`: a header, the length
/// of what follows, the write command, and address and pattern with the high byte first.
pub open spec fn float_frame(addr: u16, bits: u32) -> Seq<u8> {
    seq![
        0x5Au8,
        0xA5,
        0x07,
        0x82,
        (addr / 0x100) as u8,
        (addr % 0x100) as u8,
        (bits / 0x100_0000) as u8,
        (bits / 0x1_0000 % 0x100) as u8,
        (bits / 0x100 % 0x100) as u8,
        (bits % 0x100) as u8,
    ]
}

/// The frame that sets the variable at `addr` to the number whose bit pattern is `bits`.
pub fn write_float_frame(addr: u16, bits: u32) -> (r: [u8; 10])
    ensures
        r@ == float_frame(addr, bits),
        r@[0] == 0x5A && r@[1] == 0xA5 && r@[2] == 7 && r@[3] == 0x82,
        r@[4] * 0x100 + r@[5] == addr,
        r@[6] * 0x100_0000 + r@[7] * 0x1_0000 + r@[8] * 0x100 + r@[9] == bits,
{
    proof {
        frame_holds_address_and_pattern(addr, bits);
        assert((addr >> 8) as u8 == (addr / 0x100) as u8) by (bit_vector);
        assert((addr & 0xFF) as u8 == (addr % 0x100) as u8) by (bit_vector);
        assert((bits >> 24) as u8 == (bits / 0x100_0000) as u8) by (bit_vector);
        assert((bits >> 16) as u8 == (bits / 0x1_0000 % 0x100) as u8) by (bit_vector);
        assert((bits >> 8) as u8 == (bits / 0x100 % 0x100) as u8) by (bit_vector);
        assert((bits & 0xFF) as u8 == (bits % 0x100) as u8) by (bit_vector);
    }
    let r: [u8; 10] = [
        0x5A,
        0xA5,
        0x07,
        0x82,
        #[verifier::truncate]
        ((addr >> 8) as u8),
        #[verifier::truncate]
        ((addr & 0xFF) as u8),
        #[verifier::truncate]
        ((bits >> 24) as u8),
        #[verifier::truncate]
        ((bits >> 16) as u8),
        #[verifier::truncate]
        ((bits >> 8) as u8),
        #[verifier::truncate]
        ((bits & 0xFF) as u8),
    ];
    assert(r@ =~= float_frame(addr, bits));
    r
}

/// The frames of one round of readings, each given by the bit pattern of its number.
pub fn reading_frames(voltage: u32, current: u32, potential: u32) -> (r: Vec<[u8; 10]>)
    ensures
        r@.len() == 3,
        r@[0]@ == float_frame(VOLTAGE_ADDR, voltage),
        r@[1]@ == float_frame(CURRENT_ADDR, current),
        r@[2]@ == float_frame(POTENTIAL_ADDR, potential),
        r@[0]@ == float_frame(0x5000, voltage),
        r@[1]@ == float_frame(0x5002, current),
        r@[2]@ == float_frame(0x5004, potential),
{
    let mut frames: Vec<[u8; 10]> = Vec::new();
    frames.push(write_float_frame(VOLTAGE_ADDR, voltage));
    frames.push(write_float_frame(CURRENT_ADDR, current));
    frames.push(write_float_frame(POTENTIAL_ADDR, potential));
    frames
}

/// What the operator did on the panel.
#[derive(Clone, Copy, Debug, PartialEq, Eq, Structural)]
pub enum Touch {
    /// The pulse width was set.
    Pwm(u16),
    /// The battery switch was set.
    Battery(u16),
    /// The switch of the GSM module was set.
    Sim800(u16),
}

/// The number with the high byte `hi` and the low byte `lo`.
pub open spec fn word(hi: u8, lo: u8) -> u16 {
    (hi * 0x100 + lo) as u16
}

/// Whether a whole frame stands at the start of `b`.
pub open spec fn frame_starts(b: Seq<u8>) -> bool {
    b.len() >= 3 && b[0] == 0x5A && b[1] == 0xA5 && frame_len(b) <= b.len()
}

/// The length of the frame at the start of `b`: the header, the length byte, and as many bytes
/// as that says.
pub open spec fn frame_len(b: Seq<u8>) -> int {
    3 + b[2]
}

/// What a touch of the variable at `addr` with the value `data` means, if anything.
pub open spec fn touch(addr: u16, data: u16) -> Option<Touch> {
    if addr == 0x5012 {
        Some(Touch::Pwm(data))
    } else if addr == 0x5017 {
        Some(Touch::Battery(data))
    } else if addr == 0x5030 {
        Some(Touch::Sim800(data))
    } else {
        None
    }
}

/// The touch that the frame at the start of `b` reports: one of at least six bytes with the
/// report command, an address, a count that is passed over, and a value.
pub open spec fn frame_touch(b: Seq<u8>) -> Option<Touch> {
    if b[2] >= 6 && b[3] == 0x83 {
        touch(word(b[4], b[5]), word(b[7], b[8]))
    } else {
        None
    }
}

/// What is there, as a sequence of at most one.
pub open spec fn at_most_one(t: Option<Touch>) -> Seq<Touch> {
    match t {
        Some(t) => seq![t],
        None => Seq::empty(),
    }
}

/// The touches reported in `b`, in order: frames are taken whole, and a byte at which no whole
/// frame starts is passed over.
pub open spec fn touches(b: Seq<u8>) -> Seq<Touch>
    decreases b.len(),
{
    if b.len() == 0 {
        Seq::empty()
    } else if frame_starts(b) {
        at_most_one(frame_touch(b)) + touches(b.skip(frame_len(b)))
    } else {
        touches(b.skip(1))
    }
}

fn join_bytes(hi: u8, lo: u8) -> (r: u16)
    ensures
        r == word(hi, lo),
{
    assert((((hi as u16) << 8) | (lo as u16)) == hi * 0x100 + lo) by (bit_vector);
    ((hi as u16) << 8) | (lo as u16)
}

/// Finds the touches in the bytes received from the panel.
pub fn find_touches(buf: &[u8]) -> (r: Vec<Touch>)
    ensures
        r@ == touches(buf@),
{
    let mut found: Vec<Touch> = Vec::new();
    let mut i: usize = 0;
    assert(buf@.skip(0) =~= buf@);
    assert(found@ + touches(buf@) =~= touches(buf@));
    while i < buf.len()
        invariant
            i <= buf@.len(),
            found@ + touches(buf@.skip(i as int)) == touches(buf@),
        decreases buf@.len() - i,
    {
        let ghost rest = buf@.skip(i as int);
        if i + 1 < buf.len() && buf[i] == 0x5A && buf[i + 1] == 0xA5 {
            if i + 2 < buf.len() {
                let pkt_len: usize = buf[i + 2] as usize;
                let full_pkt_len: usize = 3 + pkt_len;
                if full_pkt_len <= buf.len() - i {
                    let ghost earlier = found@;
                    if pkt_len >= 6 && buf[i + 3] == 0x83 {
                        let addr: u16 = join_bytes(buf[i + 4], buf[i + 5]);
                        let data: u16 = join_bytes(buf[i + 7], buf[i + 8]);
                        match addr {
                            0x5012 => found.push(Touch::Pwm(data)),
                            0x5017 => found.push(Touch::Battery(data)),
                            0x5030 => found.push(Touch::Sim800(data)),
                            _ => {},
                        }
                    }
                    assert(found@ =~= earlier + at_most_one(frame_touch(rest)));
                    assert(rest.skip(frame_len(rest)) =~= buf@.skip(i + full_pkt_len));
                    assert(earlier + (at_most_one(frame_touch(rest)) + touches(
                        rest.skip(frame_len(rest)),
                    )) =~= found@ + touches(buf@.skip(i + full_pkt_len)));
                    i = i + full_pkt_len;
                    continue;
                }
            }
        }
        assert(rest.skip(1) =~= buf@.skip(i + 1));
        i = i + 1;
    }
    assert(buf@.skip(i as int) =~= Seq::<u8>::empty());
    assert(found@ + touches(buf@.skip(i as int)) =~= found@);
    found
}

/// A frame is read by itself: what it reports comes first, and what follows it is read as if it
/// stood alone.
pub proof fn frames_are_read_one_by_one(frame: Seq<u8>, rest: Seq<u8>)
    requires
        frame_starts(frame),
        frame_len(frame) == frame.len(),
    ensures
        touches(frame + rest) == at_most_one(frame_touch(frame)) + touches(rest),
{
    let b = frame + rest;
    assert(b[0] == frame[0] && b[1] == frame[1] && b[2] == frame[2]);
    assert(b.skip(frame_len(b)) =~= rest);
    if frame[2] >= 6 {
        assert(b[3] == frame[3] && b[4] == frame[4] && b[5] == frame[5] && b[7] == frame[7] && b[8]
            == frame[8]);
    }
}

/// Bytes in which no frame can start hide nothing: what follows them is read as if they were not
/// there.
pub proof fn noise_is_passed_over(noise: Seq<u8>, rest: Seq<u8>)
    requires
        forall|i: int| 0 <= i < noise.len() ==> noise[i] != 0x5A,
    ensures
        touches(noise + rest) == touches(rest),
    decreases noise.len(),
{
    if noise.len() == 0 {
        assert(noise + rest =~= rest);
    } else {
        noise_is_passed_over(noise.drop_first(), rest);
        assert((noise + rest)[0] == noise[0]);
        assert((noise + rest).skip(1) =~= noise.drop_first() + rest);
    }
}

/// The frame by which the panel reports that the variable at `addr` was set to `data`.
pub open spec fn report_frame(addr: u16, data: u16) -> Seq<u8> {
    seq![
        0x5Au8,
        0xA5,
        0x06,
        0x83,
        (addr / 0x100) as u8,
        (addr % 0x100) as u8,
        0x01,
        (data / 0x100) as u8,
        (data % 0x100) as u8,
    ]
}

/// A report is read back as the touch it reports, whatever follows it.
pub proof fn report_is_read_back(addr: u16, data: u16, rest: Seq<u8>)
    ensures
        touches(report_frame(addr, data) + rest) == at_most_one(touch(addr, data)) + touches(rest),
{
    frames_are_read_one_by_one(report_frame(addr, data), rest);
}

/// Frames that set a variable are told apart by what they set and to what, and when the panel
/// echoes one it is not taken for a touch.
pub proof fn float_frames_are_distinct(
    addr: u16,
    bits: u32,
    addr2: u16,
    bits2: u32,
    rest: Seq<u8>,
)
    ensures
        float_frame(addr, bits) == float_frame(addr2, bits2) ==> addr == addr2 && bits == bits2,
        touches(float_frame(addr, bits) + rest) == touches(rest),
{
    let f = float_frame(addr, bits);
    let f2 = float_frame(addr2, bits2);
    if f == f2 {
        assert(f[4] == f2[4] && f[5] == f2[5] && f[6] == f2[6] && f[7] == f2[7] && f[8] == f2[8]
            && f[9] == f2[9]);
    }
    frames_are_read_one_by_one(f, rest);
    assert(Seq::<Touch>::empty() + touches(rest) =~= touches(rest));
}

/// A frame that sets a variable announces the seven bytes behind its length, is a write command,
/// and holds the address and the pattern, which can be put together again from its bytes with
/// the high byte first.
pub proof fn frame_holds_address_and_pattern(addr: u16, bits: u32)
    ensures
        float_frame(addr, bits).len() == 10,
        float_frame(addr, bits)[0] == 0x5A,
        float_frame(addr, bits)[1] == 0xA5,
        float_frame(addr, bits)[2] == float_frame(addr, bits).len() - 3,
        float_frame(addr, bits)[3] == 0x82,
        float_frame(addr, bits)[4] * 0x100 + float_frame(addr, bits)[5] == addr,
        float_frame(addr, bits)[6] * 0x100_0000 + float_frame(addr, bits)[7] * 0x1_0000
            + float_frame(addr, bits)[8] * 0x100 + float_frame(addr, bits)[9] == bits,
{
}

/// A report carries its value: the touch found is the one of the variable that was set, with just
/// the number whose bytes the panel sent, whatever it counts, and whatever is read after it. A
/// variable that is none of the three gives no touch.
pub proof fn report_carries_its_value(
    addr: u16,
    hi: u8,
    lo: u8,
    count: u8,
    rest: Seq<u8>,
)
    ensures
        ({
            let data = (hi * 0x100 + lo) as u16;
            let report = seq![
                0x5Au8,
                0xA5,
                0x06,
                0x83,
                (addr / 0x100) as u8,
                (addr % 0x100) as u8,
                count,
                hi,
                lo,
            ];
            &&& data == hi * 0x100 + lo
            &&& addr == 0x5012 ==> touches(report + rest) == seq![Touch::Pwm(data)] + touches(rest)
            &&& addr == 0x5017 ==> touches(report + rest) == seq![Touch::Battery(data)] + touches(
                rest,
            )
            &&& addr == 0x5030 ==> touches(report + rest) == seq![Touch::Sim800(data)] + touches(
                rest,
            )
            &&& addr != 0x5012 && addr != 0x5017 && addr != 0x5030 ==> touches(report + rest)
                == touches(rest)
        }),
{
    let report = seq![
        0x5Au8,
        0xA5,
        0x06,
        0x83,
        (addr / 0x100) as u8,
        (addr % 0x100) as u8,
        count,
        hi,
        lo,
    ];
    frames_are_read_one_by_one(report, rest);
    assert(word(report[4], report[5]) == addr);
    assert(Seq::<Touch>::empty() + touches(rest) =~= touches(rest));
}

/// A value that is reported alone is found alone, and unchanged.
pub proof fn reported_value_is_found(data: u16)
    ensures
        touches(report_frame(0x5012, data)) == seq![Touch::Pwm(data)],
        touches(report_frame(0x5017, data)) == seq![Touch::Battery(data)],
        touches(report_frame(0x5030, data)) == seq![Touch::Sim800(data)],
        forall|addr: u16|
            addr != 0x5012 && addr != 0x5017 && addr != 0x5030 ==> touches(
                #[trigger] report_frame(addr, data),
            ) == Seq::<Touch>::empty(),
{
    let hi: u8 = (data / 0x100) as u8;
    let lo: u8 = (data % 0x100) as u8;
    let none = Seq::<u8>::empty();
    assert(touches(none) =~= Seq::<Touch>::empty());
    assert forall|addr: u16| true implies #[trigger] report_frame(addr, data) + none
        == report_frame(addr, data) by {
        assert(report_frame(addr, data) + none =~= report_frame(addr, data));
    }
    report_carries_its_value(0x5012, hi, lo, 1, none);
    report_carries_its_value(0x5017, hi, lo, 1, none);
    report_carries_its_value(0x5030, hi, lo, 1, none);
    assert(report_frame(0x5012, data) + none == report_frame(0x5012, data));
    assert(report_frame(0x5017, data) + none == report_frame(0x5017, data));
    assert(report_frame(0x5030, data) + none == report_frame(0x5030, data));
    assert(seq![Touch::Pwm(data)] + touches(none) =~= seq![Touch::Pwm(data)]);
    assert(seq![Touch::Battery(data)] + touches(none) =~= seq![Touch::Battery(data)]);
    assert(seq![Touch::Sim800(data)] + touches(none) =~= seq![Touch::Sim800(data)]);
    assert forall|addr: u16|
        addr != 0x5012 && addr != 0x5017 && addr != 0x5030 implies touches(
        #[trigger] report_frame(addr, data),
    ) == Seq::<Touch>::empty() by {
        report_carries_its_value(addr, hi, lo, 1, none);
        assert(report_frame(addr, data) + none == report_frame(addr, data));
    }
}

/// A frame of any other command, one too short for a report, and what follows the value in a
/// longer report say nothing, and do not disturb what is read after them.
pub proof fn other_frames_say_nothing(payload: Seq<u8>, rest: Seq<u8>)
    requires
        payload.len() <= 255,
    ensures
        ({
            let frame = seq![0x5Au8, 0xA5, payload.len() as u8] + payload;
            &&& payload.len() < 6 || payload[0] != 0x83 ==> touches(frame + rest) == touches(rest)
            &&& payload.len() >= 6 && payload[0] == 0x83 ==> touches(frame + rest) == touches(
                report_frame(
                    (payload[1] * 0x100 + payload[2]) as u16,
                    (payload[4] * 0x100 + payload[5]) as u16,
                ),
            ) + touches(rest)
        }),
{
    let frame = seq![0x5Au8, 0xA5, payload.len() as u8] + payload;
    assert(forall|k: int| 0 <= k < payload.len() ==> frame[k + 3] == #[trigger] payload[k]);
    frames_are_read_one_by_one(frame, rest);
    assert(Seq::<Touch>::empty() + touches(rest) =~= touches(rest));
    if payload.len() >= 6 && payload[0] == 0x83 {
        assert(frame[3] == payload[0] && frame[4] == payload[1] && frame[5] == payload[2]
            && frame[7] == payload[4] && frame[8] == payload[5]);
        let addr = (payload[1] * 0x100 + payload[2]) as u16;
        let data = (payload[4] * 0x100 + payload[5]) as u16;
        let none = Seq::<u8>::empty();
        report_is_read_back(addr, data, none);
        assert(report_frame(addr, data) + none =~= report_frame(addr, data));
        assert(touches(none) =~= Seq::<Touch>::empty());
        assert(at_most_one(touch(addr, data)) + touches(none) =~= at_most_one(touch(addr, data)));
    }
}

/// Where no whole frame begins, one byte is passed over and reading goes on behind it: a frame
/// that is cut off hides nothing that comes later.
pub proof fn a_byte_that_begins_no_frame_is_passed_over(b: Seq<u8>)
    requires
        b.len() > 0,
        b.len() < 3 || b[0] != 0x5A || b[1] != 0xA5 || 3 + b[2] > b.len(),
    ensures
        touches(b) == touches(b.skip(1)),
        touches(Seq::<u8>::empty()) == Seq::<Touch>::empty(),
{
}

/// The panel is refreshed three times a second, and somewhat more.
pub proof fn panel_is_refreshed_often()
    ensures
        3 * REFRESH_MS < 1000 < 4 * REFRESH_MS,
        REFRESH_MS == 300,
{
}

} // verus!
