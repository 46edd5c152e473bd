//! The measuring round: what is decided about the samples before and after they are scaled.
use vstd::prelude::*;
use vstd::string::*;

use crate::display::{Reading, Telemetry};
use crate::fixed;
use crate::fixed::TextOverflow;

verus! {

/// The highest value of a sample.
pub const FULL_SCALE: u16 = 4095;

/// How long to wait between two rounds.
pub const ROUND_MS: u64 = 200;

/// The signal strength shown while the modem is not asked for it.
pub const SIGNAL_PERCENT: u8 = 85;

/// A ratio of two samples.
#[derive(Clone, Copy, Debug, PartialEq, Eq, Structural)]
pub struct Ratio {
    pub over: u16,
    pub under: u16,
}

/// The resistance of a thermistor relative to that of the resistor above it, from the sample
/// taken between the two. There is none where the input is shorted to ground or to the supply.
pub fn thermistor_ratio(raw_adc: u16) -> (r: Option<Ratio>)
    ensures
        r is Some <==> 0 < raw_adc < FULL_SCALE,
        r matches Some(ratio) ==> ratio.over == raw_adc && ratio.under == FULL_SCALE - raw_adc,
{
    if raw_adc == 0 || raw_adc >= FULL_SCALE {
        None
    } else {
        Some(Ratio { over: raw_adc, under: FULL_SCALE - raw_adc })
    }
}

/// A ratio that is handed out can be divided, since its lower part is positive, and it is the
/// greater for the greater sample.
pub proof fn ratio_can_be_divided(raw: int, other: int)
    requires
        0 < raw < FULL_SCALE,
        0 < other < FULL_SCALE,
    ensures
        FULL_SCALE - raw > 0,
        raw < other <==> raw * (FULL_SCALE - other) < other * (FULL_SCALE - raw),
{
    assert(raw < other <==> raw * (4095 - other) < other * (4095 - raw)) by (nonlinear_arith)
        requires
            0 < raw < 4095,
            0 < other < 4095,
    ;
}

/// The diagnostic message with the battery's voltage and the temperature, both already written
/// out in digits.
pub open spec fn diagnosis(volts: Seq<char>, degrees: Seq<char>) -> Seq<char> {
    "BAT: "@ + volts + "V T1:"@ + degrees + "C"@
}

/// Writes the diagnostic message.
pub fn diag_line(volts: &str, degrees: &str) -> (r: Result<heapless::String<32>, TextOverflow>)
    ensures
        r is Ok <==> fixed::byte_len(diagnosis(volts@, degrees@)) <= 32,
        r matches Ok(line) ==> fixed::text32(line) == diagnosis(volts@, degrees@),
        r matches Ok(line) ==> fixed::text32(line) == "BAT: "@ + volts@ + "V T1:"@ + degrees@
            + "C"@,
{
    let mut line: heapless::String<32> = fixed::new32();
    proof {
        fixed::byte_len_of_ascii(Seq::<char>::empty());
        fixed::utf8_of_concatenation("BAT: "@, volts@);
        fixed::utf8_of_concatenation("BAT: "@ + volts@, "V T1:"@);
        fixed::utf8_of_concatenation("BAT: "@ + volts@ + "V T1:"@, degrees@);
        fixed::utf8_of_concatenation("BAT: "@ + volts@ + "V T1:"@ + degrees@, "C"@);
    }
    if fixed::push32(&mut line, "BAT: ").is_err() {
        return Err(TextOverflow);
    }
    assert(fixed::text32(line) =~= "BAT: "@);
    if fixed::push32(&mut line, volts).is_err() {
        return Err(TextOverflow);
    }
    if fixed::push32(&mut line, "V T1:").is_err() {
        return Err(TextOverflow);
    }
    if fixed::push32(&mut line, degrees).is_err() {
        return Err(TextOverflow);
    }
    if fixed::push32(&mut line, "C").is_err() {
        return Err(TextOverflow);
    }
    Ok(line)
}

/// The state of the station from one round: voltage and current of both modules, the potential,
/// the level of the door contact, which is low while the door is open, and the diagnostic
/// message.
pub fn station_state(
    mod1_v: Reading,
    mod1_i: Reading,
    mod2_v: Reading,
    mod2_i: Reading,
    p: Reading,
    door_low: bool,
    diag_msg: heapless::String<32>,
) -> (r: Telemetry)
    ensures
        r == (Telemetry {
            mod1_v,
            mod1_i,
            mod2_v,
            mod2_i,
            p,
            is_door_open: door_low,
            gsm_signal_percent: SIGNAL_PERCENT,
            diag_msg,
        }),
        r.gsm_signal_percent == 85,
{
    Telemetry {
        mod1_v,
        mod1_i,
        mod2_v,
        mod2_i,
        p,
        is_door_open: door_low,
        gsm_signal_percent: SIGNAL_PERCENT,
        diag_msg,
    }
}

/// The message names the battery's voltage and the temperature, just as they were written out,
/// and in this order.
pub proof fn message_names_voltage_and_temperature(volts: Seq<char>, degrees: Seq<char>)
    ensures
        ({
            let text = diagnosis(volts, degrees);
            let v = 5 + volts.len() as int;
            let d = v + 5 + degrees.len() as int;
            &&& text.take(5) == "BAT: "@
            &&& text.subrange(5, v) == volts
            &&& text.subrange(v, v + 5) == "V T1:"@
            &&& text.subrange(v + 5, d) == degrees
            &&& text.skip(d) == "C"@
        }),
{
    reveal_strlit("BAT: ");
    reveal_strlit("V T1:");
    reveal_strlit("C");
    let text = diagnosis(volts, degrees);
    let v = 5 + volts.len() as int;
    let d = v + 5 + degrees.len() as int;
    assert(text.take(5) =~= "BAT: "@);
    assert(text.subrange(5, v) =~= volts);
    assert(text.subrange(v, v + 5) =~= "V T1:"@);
    assert(text.subrange(v + 5, d) =~= degrees);
    assert(text.skip(d) =~= "C"@);
}

/// Five rounds are measured in a second.
pub proof fn rounds_are_measured_often()
    ensures
        5 * ROUND_MS == 1000,
{
}

} // verus!
