//! The Bluetooth line: whatever is received is acknowledged.
use vstd::prelude::*;
use vstd::utf8::*;

use crate::scan;

verus! {

/// The acknowledgement.
pub const REPLY: &'static str = "AAA\r\n";

/// What was received: text, or bytes that are not text.
pub enum Received<'a> {
    Text(&'a str),
    Raw(&'a [u8]),
}

/// What is to be done with what was received.
pub struct Turn<'a> {
    pub received: Received<'a>,
    /// How many bytes to take off the line.
    pub consume: usize,
    /// What to write back.
    pub reply: &'static str,
}

/// Decides what is to be done with the bytes that the line holds: where there are any, all of
/// them are taken off and acknowledged.
pub fn answer(buf: &[u8]) -> (r: Option<Turn>)
    ensures
        r is None <==> buf@.len() == 0,
        r matches Some(turn) ==> {
            &&& turn.consume == buf@.len()
            &&& turn.reply@ == REPLY@
            &&& turn.received matches Received::Text(text) ==> valid_utf8(buf@) && text@
                == decode_utf8(buf@)
            &&& turn.received matches Received::Raw(bytes) ==> !valid_utf8(buf@) && bytes@ == buf@
        },
{
    let n: usize = buf.len();
    if n == 0 {
        return None;
    }
    let received: Received = match scan::utf8_text(buf) {
        Some(text) => Received::Text(text),
        None => Received::Raw(buf),
    };
    Some(Turn { received, consume: n, reply: REPLY })
}

} // verus!
