//! The telemetry packet and the command that announces it.
use vstd::prelude::*;
use vstd::string::*;
use vstd::utf8::*;

use crate::decimal;
use crate::fixed;
use crate::gsm::crc;

verus! {

/// The packet up to its checksum: the station's number, the current and the voltage in tenths,
/// the potential in hundredths, and eleven fields that never change. `u`, `i` and `p` are the
/// voltage, the current and the potential in thousandths.
pub open spec fn packet_body(u: int, i: int, p: int) -> Seq<char> {
    "10000600|"@
        + decimal::signed_decimal(decimal::quotient(i, 100))
        + "|"@
        + decimal::signed_decimal(decimal::quotient(u, 100))
        + "|"@
        + decimal::signed_decimal(decimal::quotient(p, 10))
        + "|0|24|0|0|0|0|0|0|0|0|0|"@
}

/// The whole packet: the body, its checksum in decimal, and a semicolon.
pub open spec fn packet(u: int, i: int, p: int) -> Seq<char> {
    packet_body(u, i, p)
        + decimal::decimal(crc::crc(encode_utf8(packet_body(u, i, p))) as nat)
        + ";"@
}

/// The command that announces a packet of `len` bytes.
pub open spec fn announcement(len: nat) -> Seq<char> {
    "AT+CIPSEND=0,"@ + decimal::decimal(len) + "\r\n"@
}

proof fn lemma_literals()
    ensures
        is_ascii_chars("10000600|"@) && "10000600|"@.len() == 9,
        is_ascii_chars("|"@) && "|"@ == seq!['|'],
        is_ascii_chars("|0|24|0|0|0|0|0|0|0|0|0|"@) && "|0|24|0|0|0|0|0|0|0|0|0|"@.len() == 24,
        "|0|24|0|0|0|0|0|0|0|0|0|"@[0] == '|',
        is_ascii_chars(";"@) && ";"@ == seq![';'],
        is_ascii_chars("AT+CIPSEND=0,"@) && "AT+CIPSEND=0,"@.len() == 13,
        is_ascii_chars("\r\n"@) && "\r\n"@.len() == 2,
{
    reveal_strlit("10000600|");
    reveal_strlit("|");
    reveal_strlit("|0|24|0|0|0|0|0|0|0|0|0|");
    reveal_strlit(";");
    reveal_strlit("AT+CIPSEND=0,");
    reveal_strlit("\r\n");
    assert("|"@ =~= seq!['|']);
    assert(";"@ =~= seq![';']);
}

proof fn lemma_field(n: int)
    requires
        i64::MIN <= n <= i64::MAX,
    ensures
        is_ascii_chars(decimal::signed_decimal(n)),
        decimal::signed_decimal(n).len() <= 21,
{
    decimal::decimal_is_ascii(n);
    decimal::decimal_is_short(if n < 0 { (-n) as nat } else { n as nat });
}

/// Every packet is ASCII and fits the packet string with room to spare.
pub proof fn packet_fits(u: i64, i: i64, p: i64)
    ensures
        is_ascii_chars(packet_body(u as int, i as int, p as int)),
        is_ascii_chars(packet(u as int, i as int, p as int)),
        fixed::byte_len(packet(u as int, i as int, p as int)) <= 102,
{
    let body = packet_body(u as int, i as int, p as int);
    lemma_literals();
    lemma_field(decimal::quotient(i as int, 100));
    lemma_field(decimal::quotient(u as int, 100));
    lemma_field(decimal::quotient(p as int, 10));
    let sum = crc::crc(encode_utf8(body));
    decimal::decimal_is_ascii(sum as int);
    decimal::decimal_is_short(sum as nat);
    fixed::byte_len_of_ascii(packet(u as int, i as int, p as int));
}

proof fn lemma_first_field(a: Seq<char>, x: Seq<char>, b: Seq<char>, y: Seq<char>)
    requires
        a + x == b + y,
        x.len() > 0,
        y.len() > 0,
        x[0] == '|',
        y[0] == '|',
        forall|k: int| 0 <= k < a.len() ==> a[k] != '|',
        forall|k: int| 0 <= k < b.len() ==> b[k] != '|',
    ensures
        a == b,
        x == y,
{
    if a.len() < b.len() {
        assert((a + x)[a.len() as int] == '|');
        assert((b + y)[a.len() as int] == b[a.len() as int]);
    }
    if b.len() < a.len() {
        assert((b + y)[b.len() as int] == '|');
        assert((a + x)[b.len() as int] == a[b.len() as int]);
    }
    assert(a =~= (a + x).take(a.len() as int));
    assert(b =~= (b + y).take(b.len() as int));
    assert(x =~= (a + x).skip(a.len() as int));
    assert(y =~= (b + y).skip(b.len() as int));
}

proof fn lemma_no_bar(n: int)
    ensures
        forall|k: int|
            0 <= k < decimal::signed_decimal(n).len() ==> decimal::signed_decimal(n)[k] != '|',
{
    let m: nat = if n < 0 { (-n) as nat } else { n as nat };
    decimal::decimal_reads_back(m);
    assert forall|k: int| 0 <= k < decimal::signed_decimal(n).len() implies decimal::signed_decimal(
        n,
    )[k] != '|' by {
        if n < 0 && k > 0 {
            assert(decimal::is_digit(decimal::decimal(m)[k - 1]));
        } else if n >= 0 {
            assert(decimal::is_digit(decimal::decimal(m)[k]));
        }
    }
}

proof fn lemma_same_head(h: Seq<char>, x: Seq<char>, y: Seq<char>)
    requires
        h + x == h + y,
    ensures
        x == y,
{
    assert(x =~= (h + x).skip(h.len() as int));
    assert(y =~= (h + y).skip(h.len() as int));
}

proof fn lemma_regroup(
    h: Seq<char>,
    a: Seq<char>,
    bar: Seq<char>,
    b: Seq<char>,
    c: Seq<char>,
    e: Seq<char>,
    s: Seq<char>,
    t: Seq<char>,
)
    ensures
        h + a + bar + b + bar + c + e + s + t == h + (a + (bar + (b + (bar + (c + (e + s + t)))))),
{
    assert(h + a + bar + b + bar + c + e + s + t =~= h + (a + (bar + (b + (bar + (c + (e + s
        + t)))))));
}

proof fn lemma_packet_by_fields(u: int, i: int, p: int)
    ensures
        packet(u, i, p) == "10000600|"@ + (decimal::signed_decimal(decimal::quotient(i, 100)) + (
        "|"@ + (decimal::signed_decimal(decimal::quotient(u, 100)) + ("|"@ + (
        decimal::signed_decimal(decimal::quotient(p, 10)) + ("|0|24|0|0|0|0|0|0|0|0|0|"@
            + decimal::decimal(crc::crc(encode_utf8(packet_body(u, i, p))) as nat) + ";"@)))))),
{
    lemma_regroup(
        "10000600|"@,
        decimal::signed_decimal(decimal::quotient(i, 100)),
        "|"@,
        decimal::signed_decimal(decimal::quotient(u, 100)),
        decimal::signed_decimal(decimal::quotient(p, 10)),
        "|0|24|0|0|0|0|0|0|0|0|0|"@,
        decimal::decimal(crc::crc(encode_utf8(packet_body(u, i, p))) as nat),
        ";"@,
    );
}

/// A packet tells the readings it was made from, as far as they are sent at all: two packets
/// alike carry the same tenths of current and voltage and the same hundredths of potential.
pub proof fn packet_tells_the_readings(u: int, i: int, p: int, u2: int, i2: int, p2: int)
    requires
        packet(u, i, p) == packet(u2, i2, p2),
    ensures
        decimal::quotient(u, 100) == decimal::quotient(u2, 100),
        decimal::quotient(i, 100) == decimal::quotient(i2, 100),
        decimal::quotient(p, 10) == decimal::quotient(p2, 10),
{
    lemma_literals();
    let di = decimal::signed_decimal(decimal::quotient(i, 100));
    let du = decimal::signed_decimal(decimal::quotient(u, 100));
    let dp = decimal::signed_decimal(decimal::quotient(p, 10));
    let di2 = decimal::signed_decimal(decimal::quotient(i2, 100));
    let du2 = decimal::signed_decimal(decimal::quotient(u2, 100));
    let dp2 = decimal::signed_decimal(decimal::quotient(p2, 10));
    lemma_no_bar(decimal::quotient(i, 100));
    lemma_no_bar(decimal::quotient(u, 100));
    lemma_no_bar(decimal::quotient(p, 10));
    lemma_no_bar(decimal::quotient(i2, 100));
    lemma_no_bar(decimal::quotient(u2, 100));
    lemma_no_bar(decimal::quotient(p2, 10));
    let end = "|0|24|0|0|0|0|0|0|0|0|0|"@
        + decimal::decimal(crc::crc(encode_utf8(packet_body(u, i, p))) as nat) + ";"@;
    let end2 = "|0|24|0|0|0|0|0|0|0|0|0|"@
        + decimal::decimal(crc::crc(encode_utf8(packet_body(u2, i2, p2))) as nat) + ";"@;
    let x1 = "|"@ + (dp + end);
    let y1 = "|"@ + (dp2 + end2);
    let x2 = "|"@ + (du + x1);
    let y2 = "|"@ + (du2 + y1);
    lemma_packet_by_fields(u, i, p);
    lemma_packet_by_fields(u2, i2, p2);
    lemma_same_head("10000600|"@, di + x2, di2 + y2);
    lemma_first_field(di, x2, di2, y2);
    lemma_same_head("|"@, du + x1, du2 + y1);
    lemma_first_field(du, x1, du2, y1);
    lemma_same_head("|"@, dp + end, dp2 + end2);
    lemma_first_field(dp, end, dp2, end2);
    decimal::signed_decimal_is_injective(decimal::quotient(i, 100), decimal::quotient(i2, 100));
    decimal::signed_decimal_is_injective(decimal::quotient(u, 100), decimal::quotient(u2, 100));
    decimal::signed_decimal_is_injective(decimal::quotient(p, 10), decimal::quotient(p2, 10));
}

/// Damage to one byte of a packet's body shows: the damaged body has another checksum than the
/// one that the packet carries.
pub proof fn damage_to_one_byte_shows(u: int, i: int, p: int, damaged: Seq<u8>, at: int)
    requires
        damaged.len() == encode_utf8(packet_body(u, i, p)).len(),
        0 <= at < damaged.len(),
        damaged[at] != encode_utf8(packet_body(u, i, p))[at],
        forall|k: int|
            0 <= k < damaged.len() && k != at ==> damaged[k] == encode_utf8(
                packet_body(u, i, p),
            )[k],
    ensures
        decimal::decimal(crc::crc(damaged) as nat) != decimal::decimal(
            crc::crc(encode_utf8(packet_body(u, i, p))) as nat,
        ),
{
    let intact = encode_utf8(packet_body(u, i, p));
    crc::crc_sees_one_changed_byte(damaged, intact, at);
    decimal::decimal_reads_back(crc::crc(damaged) as nat);
    decimal::decimal_reads_back(crc::crc(intact) as nat);
}

fn put(s: &mut heapless::String<256>, piece: &str)
    requires
        is_ascii_chars(fixed::text256(*old(s))),
        is_ascii_chars(piece@),
        fixed::text256(*old(s)).len() + piece@.len() <= 256,
    ensures
        fixed::text256(*final(s)) == fixed::text256(*old(s)) + piece@,
        is_ascii_chars(fixed::text256(*final(s))),
{
    proof {
        fixed::byte_len_of_ascii(fixed::text256(*s));
        fixed::byte_len_of_ascii(piece@);
    }
    let _ = fixed::push256(s, piece);
}

/// The telemetry packet for a voltage, a current and a potential in thousandths, with its
/// checksum. The readings are 64 bits wide so that signed and unsigned samples of 32 bits both
/// fit.
pub fn telemetry_packet(u1_mv: i64, i1_mv: i64, p1_mv: i64) -> (r: heapless::String<256>)
    ensures
        fixed::text256(r) == packet(u1_mv as int, i1_mv as int, p1_mv as int),
{
    let current: i64 = i1_mv / 100;
    let voltage: i64 = u1_mv / 100;
    let potential: i64 = p1_mv / 10;
    proof {
        lemma_literals();
        lemma_field(current as int);
        lemma_field(voltage as int);
        lemma_field(potential as int);
    }
    let mut payload: heapless::String<256> = fixed::new256();
    put(&mut payload, "10000600|");
    put(&mut payload, decimal::format_signed(current).as_str());
    put(&mut payload, "|");
    put(&mut payload, decimal::format_signed(voltage).as_str());
    put(&mut payload, "|");
    put(&mut payload, decimal::format_signed(potential).as_str());
    put(&mut payload, "|0|24|0|0|0|0|0|0|0|0|0|");
    let ghost body = packet_body(u1_mv as int, i1_mv as int, p1_mv as int);
    assert(fixed::text256(payload) =~= body);
    let sum: u8 = crc::crc_8(fixed::str256(&payload).as_bytes());
    proof {
        decimal::decimal_is_ascii(sum as int);
        decimal::decimal_is_short(sum as nat);
    }
    put(&mut payload, decimal::format_unsigned(sum as u64).as_str());
    put(&mut payload, ";");
    payload
}

/// The command that announces `payload` to the modem: it names the packet's exact length.
pub fn send_command(payload: &heapless::String<256>) -> (r: heapless::String<32>)
    ensures
        fixed::text32(r) == announcement(fixed::byte_len(fixed::text256(*payload))),
{
    let len: usize = fixed::str256(payload).len();
    let digits: String = decimal::format_unsigned(len as u64);
    proof {
        lemma_literals();
        decimal::decimal_is_ascii(len as int);
        decimal::decimal_is_short(len as nat);
        fixed::byte_len_of_ascii(Seq::<char>::empty());
        fixed::byte_len_of_ascii("AT+CIPSEND=0,"@);
        fixed::byte_len_of_ascii(digits@);
        fixed::byte_len_of_ascii("AT+CIPSEND=0,"@ + digits@);
        fixed::byte_len_of_ascii("\r\n"@);
    }
    let mut cmd: heapless::String<32> = fixed::new32();
    let _ = fixed::push32(&mut cmd, "AT+CIPSEND=0,");
    assert(fixed::text32(cmd) =~= "AT+CIPSEND=0,"@);
    let _ = fixed::push32(&mut cmd, digits.as_str());
    let _ = fixed::push32(&mut cmd, "\r\n");
    cmd
}

/// What a packet says: the station's number, then the current and the voltage in whole tenths
/// and the potential in whole hundredths, none of them rounded away from zero, then the fields
/// that never change, the checksum of all that, and a semicolon.
pub proof fn packet_says_the_readings(
    u: int,
    i: int,
    p: int,
    tenths_u: int,
    tenths_i: int,
    hundredths_p: int,
)
    requires
        u >= 0 ==> 0 <= u - 100 * tenths_u < 100,
        u < 0 ==> -100 < u - 100 * tenths_u <= 0,
        i >= 0 ==> 0 <= i - 100 * tenths_i < 100,
        i < 0 ==> -100 < i - 100 * tenths_i <= 0,
        p >= 0 ==> 0 <= p - 10 * hundredths_p < 10,
        p < 0 ==> -10 < p - 10 * hundredths_p <= 0,
    ensures
        ({
            let body = "10000600|"@ + decimal::signed_decimal(tenths_i) + "|"@
                + decimal::signed_decimal(tenths_u) + "|"@ + decimal::signed_decimal(hundredths_p)
                + "|0|24|0|0|0|0|0|0|0|0|0|"@;
            packet(u, i, p) == body + decimal::decimal(crc::crc(encode_utf8(body)) as nat) + ";"@
        }),
{
    decimal::quotient_rounds_towards_zero(u, 100, tenths_u);
    decimal::quotient_rounds_towards_zero(i, 100, tenths_i);
    decimal::quotient_rounds_towards_zero(p, 10, hundredths_p);
}

/// An announcement is the command to send, and the number in it is the length announced.
pub proof fn announcement_tells_the_length(len: nat)
    ensures
        announcement(len).take(13) == "AT+CIPSEND=0,"@,
        announcement(len).skip(announcement(len).len() - 2) == "\r\n"@,
        decimal::digits_value(announcement(len).subrange(13, announcement(len).len() - 2)) == len,
{
    lemma_literals();
    decimal::decimal_reads_back(len);
    let text = announcement(len);
    assert(text.take(13) =~= "AT+CIPSEND=0,"@);
    assert(text.skip(text.len() - 2) =~= "\r\n"@);
    assert(text.subrange(13, text.len() - 2) =~= decimal::decimal(len));
}

} // verus!
