//! Text in received bytes: decoding, trimming and searching.
use vstd::prelude::*;
use vstd::string::*;
use vstd::utf8::*;

verus! {

/// `core::str::from_utf8` decodes the bytes where they are UTF-8, and fails where they are not.
#[verifier::external_body]
pub(crate) fn utf8_text(bytes: &[u8]) -> (r: Option<&str>)
    ensures
        r is Some <==> valid_utf8(bytes@),
        r matches Some(s) ==> s@ == decode_utf8(bytes@),
{
    core::str::from_utf8(bytes).ok()
}

/// Whether `c` has the Unicode property White_Space.
pub open spec fn white_space(c: char) -> bool {
    let u = c as int;
    9 <= u <= 0xD || u == 0x20 || u == 0x85 || u == 0xA0 || u == 0x1680 || 0x2000 <= u <= 0x200A
        || u == 0x2028 || u == 0x2029 || u == 0x202F || u == 0x205F || u == 0x3000
}

/// Whether `c` is white space, by the Unicode property.
pub fn is_white_space(c: char) -> (r: bool)
    ensures
        r == white_space(c),
{
    let u: u32 = c as u32;
    (9 <= u && u <= 0xD) || u == 0x20 || u == 0x85 || u == 0xA0 || u == 0x1680 || (0x2000 <= u && u
        <= 0x200A) || u == 0x2028 || u == 0x2029 || u == 0x202F || u == 0x205F || u == 0x3000
}

/// `s` without the white space at its start.
pub open spec fn trimmed_start(s: Seq<char>) -> Seq<char>
    decreases s.len(),
{
    if s.len() > 0 && white_space(s[0]) {
        trimmed_start(s.drop_first())
    } else {
        s
    }
}

/// `s` without the white space at its end.
pub open spec fn trimmed_end(s: Seq<char>) -> Seq<char>
    decreases s.len(),
{
    if s.len() > 0 && white_space(s.last()) {
        trimmed_end(s.drop_last())
    } else {
        s
    }
}

/// `s` without the white space at either end.
pub open spec fn trimmed(s: Seq<char>) -> Seq<char> {
    trimmed_end(trimmed_start(s))
}

/// Whether `needle` stands in `hay` at position `at`.
pub open spec fn found_at(hay: Seq<char>, needle: Seq<char>, at: int) -> bool {
    0 <= at && at + needle.len() <= hay.len() && hay.subrange(at, at + needle.len()) == needle
}

/// Whether `needle` stands anywhere in `hay`.
pub open spec fn holds(hay: Seq<char>, needle: Seq<char>) -> bool {
    exists|at: int| found_at(hay, needle, at)
}

/// The characters of `s`.
pub fn chars_of(s: &str) -> (v: Vec<char>)
    ensures
        v@ == s@,
{
    let mut v: Vec<char> = Vec::new();
    for c in iter: s.chars()
        invariant
            v@ == iter.seq().take(iter.index() as int),
            iter.seq() == s@,
    {
        v.push(c);
    }
    v
}

/// `s` without the white space at either end.
pub fn trim(s: &str) -> (r: &str)
    ensures
        r@ == trimmed(s@),
{
    let text: Vec<char> = chars_of(s);
    let mut from: usize = 0;
    assert(text@.skip(0) =~= text@);
    while from < text.len() && is_white_space(text[from])
        invariant
            from <= text@.len(),
            trimmed_start(text@) == trimmed_start(text@.skip(from as int)),
        ensures
            from <= text@.len(),
            trimmed_start(text@) == text@.skip(from as int),
        decreases text@.len() - from,
    {
        assert(text@.skip(from as int).drop_first() =~= text@.skip(from + 1));
        from = from + 1;
    }
    let mut to: usize = text.len();
    assert(text@.subrange(from as int, to as int) =~= text@.skip(from as int));
    while to > from && is_white_space(text[to - 1])
        invariant
            from <= to <= text@.len(),
            trimmed(text@) == trimmed_end(text@.subrange(from as int, to as int)),
        ensures
            from <= to <= text@.len(),
            trimmed(text@) == text@.subrange(from as int, to as int),
        decreases to - from,
    {
        assert(text@.subrange(from as int, to as int).drop_last() =~= text@.subrange(
            from as int,
            to - 1,
        ));
        to = to - 1;
    }
    s.substring_char(from, to)
}

/// Whether `needle` stands at position `at` of `hay`.
fn matches_at(hay: &Vec<char>, needle: &Vec<char>, at: usize) -> (r: bool)
    requires
        at + needle@.len() <= hay@.len(),
    ensures
        r == found_at(hay@, needle@, at as int),
{
    let total: usize = hay.len();
    let mut i: usize = 0;
    while i < needle.len()
        invariant
            total == hay@.len(),
            at + needle@.len() <= hay@.len(),
            i <= needle@.len(),
            forall|k: int| 0 <= k < i ==> hay@[at + k] == needle@[k],
        decreases needle@.len() - i,
    {
        if hay[at + i] != needle[i] {
            assert(hay@.subrange(at as int, at + needle@.len())[i as int] != needle@[i as int]);
            return false;
        }
        i = i + 1;
    }
    assert(hay@.subrange(at as int, at + needle@.len()) =~= needle@);
    true
}

/// Whether `needle` stands anywhere in `hay`.
pub fn contains(hay: &str, needle: &str) -> (r: bool)
    ensures
        r == holds(hay@, needle@),
{
    let text: Vec<char> = chars_of(hay);
    let wanted: Vec<char> = chars_of(needle);
    if wanted.len() > text.len() {
        return false;
    }
    let last: usize = text.len() - wanted.len();
    let mut at: usize = 0;
    while at <= last
        invariant
            text@ == hay@,
            wanted@ == needle@,
            last + wanted@.len() == text@.len(),
            at <= last + 1,
            forall|k: int| 0 <= k < at ==> !found_at(hay@, needle@, k),
        decreases last + 1 - at,
    {
        if matches_at(&text, &wanted, at) {
            return true;
        }
        if at == last {
            return false;
        }
        at = at + 1;
    }
    false
}

/// Whether `s` is white space alone from position `from` on.
pub open spec fn blank_from(s: Seq<char>, from: int) -> bool {
    forall|k: int| from <= k < s.len() ==> white_space(#[trigger] s[k])
}

proof fn lemma_trimmed_start(s: Seq<char>) -> (a: int)
    ensures
        0 <= a <= s.len(),
        trimmed_start(s) == s.skip(a),
        forall|k: int| 0 <= k < a ==> white_space(#[trigger] s[k]),
        a < s.len() ==> !white_space(s[a]),
    decreases s.len(),
{
    if s.len() > 0 && white_space(s[0]) {
        let b = lemma_trimmed_start(s.drop_first());
        assert(s.drop_first().skip(b) =~= s.skip(b + 1));
        assert forall|k: int| 0 <= k < b + 1 implies white_space(#[trigger] s[k]) by {
            if k > 0 {
                assert(s.drop_first()[k - 1] == s[k]);
            }
        }
        b + 1
    } else {
        assert(s.skip(0) =~= s);
        0
    }
}

proof fn lemma_trimmed_end(s: Seq<char>) -> (b: int)
    ensures
        0 <= b <= s.len(),
        trimmed_end(s) == s.take(b),
        forall|k: int| b <= k < s.len() ==> white_space(#[trigger] s[k]),
        b > 0 ==> !white_space(s[b - 1]),
    decreases s.len(),
{
    if s.len() > 0 && white_space(s.last()) {
        let b = lemma_trimmed_end(s.drop_last());
        assert(s.drop_last().take(b) =~= s.take(b));
        assert forall|k: int| b <= k < s.len() implies white_space(#[trigger] s[k]) by {
            if k < s.len() - 1 {
                assert(s.drop_last()[k] == s[k]);
            }
        }
        b
    } else {
        assert(s.take(s.len() as int) =~= s);
        s.len() as int
    }
}

/// Trimming takes white space off both ends and nothing else: what is left is a part of the
/// text with only white space before and after it, and neither starts nor ends in white space.
pub proof fn trimmed_is_the_middle(s: Seq<char>) -> (bounds: (int, int))
    ensures
        0 <= bounds.0 <= bounds.1 <= s.len(),
        trimmed(s) == s.subrange(bounds.0, bounds.1),
        forall|k: int| 0 <= k < bounds.0 ==> white_space(#[trigger] s[k]),
        blank_from(s, bounds.1),
        bounds.0 < bounds.1 ==> !white_space(s[bounds.0]) && !white_space(s[bounds.1 - 1]),
{
    let a = lemma_trimmed_start(s);
    let rest = s.skip(a);
    let n = lemma_trimmed_end(rest);
    assert(rest.take(n) =~= s.subrange(a, a + n));
    assert forall|k: int| a + n <= k < s.len() implies white_space(#[trigger] s[k]) by {
        assert(rest[k - a] == s[k]);
    }
    if n > 0 {
        assert(rest[n - 1] == s[a + n - 1]);
    }
    (a, a + n)
}

/// A text that starts with no white space but ends in some is found in a trimmed text exactly
/// where more than white space follows it.
pub proof fn line_end_survives_only_before_text(s: Seq<char>, needle: Seq<char>)
    requires
        needle.len() > 0,
        !white_space(needle[0]),
        white_space(needle.last()),
    ensures
        holds(trimmed(s), needle) <==> exists|at: int|
            found_at(s, needle, at) && !blank_from(s, at + needle.len()),
{
    let (a, b) = trimmed_is_the_middle(s);
    let t = trimmed(s);
    let n = needle.len() as int;
    if holds(t, needle) {
        let i = choose|i: int| found_at(t, needle, i);
        let at = a + i;
        assert(s.subrange(at, at + n) =~= t.subrange(i, i + n));
        assert(found_at(s, needle, at));
        assert(t.subrange(i, i + n)[n - 1] == s[at + n - 1]);
        assert(at + n < b);
        assert(!white_space(s[b - 1]));
        assert(!blank_from(s, at + n));
    }
    if exists|at: int| found_at(s, needle, at) && !blank_from(s, at + needle.len()) {
        let at = choose|at: int| found_at(s, needle, at) && !blank_from(s, at + needle.len());
        assert(s.subrange(at, at + n)[0] == s[at]);
        assert(at >= a);
        let k = choose|k: int| at + n <= k < s.len() && !white_space(#[trigger] s[k]);
        assert(k < b);
        assert(t.subrange(at - a, at - a + n) =~= s.subrange(at, at + n));
        assert(found_at(t, needle, at - a));
    }
}

/// One text is found in another exactly where the other is made up of something before it, the
/// text itself, and something after it.
pub proof fn found_means_a_part(hay: Seq<char>, needle: Seq<char>)
    ensures
        holds(hay, needle) <==> exists|before: Seq<char>, after: Seq<char>|
            hay == #[trigger] (before + needle + after),
{
    if holds(hay, needle) {
        let at = choose|at: int| found_at(hay, needle, at);
        let n = at + needle.len();
        assert(hay =~= hay.take(at) + hay.subrange(at, n) + hay.skip(n));
    }
    if exists|before: Seq<char>, after: Seq<char>| hay == #[trigger] (before + needle + after) {
        let (before, after) = choose|before: Seq<char>, after: Seq<char>|
            hay == #[trigger] (before + needle + after);
        let at = before.len() as int;
        assert(hay.subrange(at, at + needle.len()) =~= needle);
        assert(found_at(hay, needle, at));
    }
}

/// A text stands at a place exactly where it agrees with what is there, letter by letter.
pub proof fn found_means_letter_by_letter(hay: Seq<char>, needle: Seq<char>, at: int)
    ensures
        found_at(hay, needle, at) <==> 0 <= at <= hay.len() - needle.len() && forall|k: int|
            0 <= k < needle.len() ==> hay[at + k] == #[trigger] needle[k],
{
    if 0 <= at <= hay.len() - needle.len() {
        let part = hay.subrange(at, at + needle.len());
        assert(forall|k: int| 0 <= k < needle.len() ==> #[trigger] part[k] == hay[at + k]);
        if part == needle {
            assert forall|k: int| 0 <= k < needle.len() implies hay[at + k]
                == #[trigger] needle[k] by {
                assert(part[k] == needle[k]);
            }
        }
        if forall|k: int| 0 <= k < needle.len() ==> hay[at + k] == #[trigger] needle[k] {
            assert(part =~= needle);
        }
    }
}

/// What is put around a text hides nothing that is found in it.
pub proof fn what_is_found_stays_found(
    before: Seq<char>,
    hay: Seq<char>,
    after: Seq<char>,
    needle: Seq<char>,
)
    requires
        holds(hay, needle),
    ensures
        holds(before + hay + after, needle),
{
    let at = choose|at: int| found_at(hay, needle, at);
    let whole = before + hay + after;
    let n = needle.len();
    assert(whole.subrange(before.len() + at, before.len() + at + n) =~= hay.subrange(at, at + n));
    assert(found_at(whole, needle, before.len() + at));
}

/// White space is the five control characters from tab to carriage return, the space, and the
/// nineteen others that Unicode counts to it.
pub proof fn white_space_has_twenty_five_characters(c: char)
    ensures
        white_space(c) <==> seq![
            0x9int,
            0xA,
            0xB,
            0xC,
            0xD,
            0x20,
            0x85,
            0xA0,
            0x1680,
            0x2000,
            0x2001,
            0x2002,
            0x2003,
            0x2004,
            0x2005,
            0x2006,
            0x2007,
            0x2008,
            0x2009,
            0x200A,
            0x2028,
            0x2029,
            0x202F,
            0x205F,
            0x3000,
        ].contains(c as int),
{
    let all = seq![
        0x9int,
        0xA,
        0xB,
        0xC,
        0xD,
        0x20,
        0x85,
        0xA0,
        0x1680,
        0x2000,
        0x2001,
        0x2002,
        0x2003,
        0x2004,
        0x2005,
        0x2006,
        0x2007,
        0x2008,
        0x2009,
        0x200A,
        0x2028,
        0x2029,
        0x202F,
        0x205F,
        0x3000,
    ];
    let u = c as int;
    if white_space(c) {
        let i: int = if u <= 0xD {
            u - 9
        } else if u == 0x20 {
            5
        } else if u == 0x85 {
            6
        } else if u == 0xA0 {
            7
        } else if u == 0x1680 {
            8
        } else if u <= 0x200A {
            u - 0x2000 + 9
        } else if u == 0x2028 {
            20
        } else if u == 0x2029 {
            21
        } else if u == 0x202F {
            22
        } else if u == 0x205F {
            23
        } else {
            24
        };
        assert(all[i] == u);
    }
}

} // verus!
