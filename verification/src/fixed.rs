//! Strings of fixed capacity: `heapless::String` in the three sizes that the station uses.
use vstd::prelude::*;
use vstd::string::*;
use vstd::utf8::*;

verus! {

/// `heapless::String<N>`: a string held in place, of at most `N` bytes.
#[verifier::external_type_specification]
#[verifier::external_body]
pub struct ExHeaplessString<const N: usize>(heapless::String<N>);

/// A text did not fit into its string.
#[derive(Clone, Copy, Debug, PartialEq, Eq, Structural)]
pub struct TextOverflow;

/// The number of bytes that `s` takes in UTF-8.
pub open spec fn byte_len(s: Seq<char>) -> nat {
    encode_utf8(s).len()
}

/// The characters that a string of 32 bytes holds.
pub uninterp spec fn text32(s: heapless::String<32>) -> Seq<char>;

/// The characters that a string of 64 bytes holds.
pub uninterp spec fn text64(s: heapless::String<64>) -> Seq<char>;

/// The characters that a string of 256 bytes holds.
pub uninterp spec fn text256(s: heapless::String<256>) -> Seq<char>;

/// `heapless::String::<32>::new` gives a string that holds nothing.
#[verifier::external_body]
pub(crate) fn new32() -> (s: heapless::String<32>)
    ensures
        text32(s) == Seq::<char>::empty(),
{
    heapless::String::new()
}

/// `heapless::String::<32>::push_str` appends the whole piece where its bytes still fit, and
/// otherwise fails and leaves the string as it was.
#[verifier::external_body]
pub(crate) fn push32(s: &mut heapless::String<32>, piece: &str) -> (r: Result<(), ()>)
    ensures
        r is Ok <==> byte_len(text32(*old(s))) + byte_len(piece@) <= 32,
        r is Ok ==> text32(*final(s)) == text32(*old(s)) + piece@,
        r is Err ==> text32(*final(s)) == text32(*old(s)),
{
    s.push_str(piece)
}

/// `heapless::String::<32>::as_str` lends what the string holds.
#[verifier::external_body]
pub(crate) fn str32(s: &heapless::String<32>) -> (r: &str)
    ensures
        r@ == text32(*s),
{
    s.as_str()
}

/// The `Clone` of `heapless::String<32>` gives a string that holds the same.
#[verifier::external_body]
pub(crate) fn clone32(s: &heapless::String<32>) -> (r: heapless::String<32>)
    ensures
        text32(r) == text32(*s),
{
    s.clone()
}

/// `heapless::String::<64>::new` gives a string that holds nothing.
#[verifier::external_body]
pub(crate) fn new64() -> (s: heapless::String<64>)
    ensures
        text64(s) == Seq::<char>::empty(),
{
    heapless::String::new()
}

/// `heapless::String::<64>::push_str` appends the whole piece where its bytes still fit, and
/// otherwise fails and leaves the string as it was.
#[verifier::external_body]
pub(crate) fn push64(s: &mut heapless::String<64>, piece: &str) -> (r: Result<(), ()>)
    ensures
        r is Ok <==> byte_len(text64(*old(s))) + byte_len(piece@) <= 64,
        r is Ok ==> text64(*final(s)) == text64(*old(s)) + piece@,
        r is Err ==> text64(*final(s)) == text64(*old(s)),
{
    s.push_str(piece)
}

/// `heapless::String::<256>::new` gives a string that holds nothing.
#[verifier::external_body]
pub(crate) fn new256() -> (s: heapless::String<256>)
    ensures
        text256(s) == Seq::<char>::empty(),
{
    heapless::String::new()
}

/// `heapless::String::<256>::push_str` appends the whole piece where its bytes still fit, and
/// otherwise fails and leaves the string as it was.
#[verifier::external_body]
pub(crate) fn push256(s: &mut heapless::String<256>, piece: &str) -> (r: Result<(), ()>)
    ensures
        r is Ok <==> byte_len(text256(*old(s))) + byte_len(piece@) <= 256,
        r is Ok ==> text256(*final(s)) == text256(*old(s)) + piece@,
        r is Err ==> text256(*final(s)) == text256(*old(s)),
{
    s.push_str(piece)
}

/// `heapless::String::<256>::as_str` lends what the string holds, which is never more than 256
/// bytes.
#[verifier::external_body]
pub(crate) fn str256(s: &heapless::String<256>) -> (r: &str)
    ensures
        r@ == text256(*s),
        byte_len(r@) <= 256,
{
    s.as_str()
}

/// The bytes of two texts in a row are those of the first and then those of the second.
pub proof fn utf8_of_concatenation(a: Seq<char>, b: Seq<char>)
    ensures
        encode_utf8(a + b) == encode_utf8(a) + encode_utf8(b),
        byte_len(a + b) == byte_len(a) + byte_len(b),
    decreases a.len(),
{
    if a.len() == 0 {
        assert(a + b =~= b);
        assert(encode_utf8(a) =~= Seq::<u8>::empty());
        assert(encode_utf8(a) + encode_utf8(b) =~= encode_utf8(b));
    } else {
        utf8_of_concatenation(a.drop_first(), b);
        assert((a + b).drop_first() =~= a.drop_first() + b);
        assert((a + b)[0] == a[0]);
        assert(encode_utf8(a + b) =~= encode_utf8(a) + encode_utf8(b));
    }
}

/// ASCII text takes one byte for each character.
pub proof fn byte_len_of_ascii(s: Seq<char>)
    requires
        is_ascii_chars(s),
    ensures
        byte_len(s) == s.len(),
{
    is_ascii_chars_encode_utf8(s);
}

/// `text` as a string of 32 bytes: the form of log lines and diagnostic messages.
pub fn short_line(text: &str) -> (r: Result<heapless::String<32>, TextOverflow>)
    ensures
        r is Ok <==> byte_len(text@) <= 32,
        r matches Ok(line) ==> text32(line) == text@,
{
    let mut line: heapless::String<32> = new32();
    proof {
        byte_len_of_ascii(Seq::<char>::empty());
    }
    match push32(&mut line, text) {
        Ok(_) => {
            assert(text32(line) =~= text@);
            Ok(line)
        },
        Err(_) => Err(TextOverflow),
    }
}

} // verus!
