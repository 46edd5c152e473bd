//! The RS-485 line: a request is looked for in what is received, and answered.
use vstd::prelude::*;

verus! {

/// The reply to a request.
pub const REPLY: &'static str = "$20|11|2|0|0|10|0|1|0|;\r\n";

/// How long the receiver is given between the two copies of the reply.
pub const REPLY_PAUSE_MS: u64 = 500;

/// The request, `$?;`.
pub open spec fn request() -> Seq<u8> {
    seq![0x24u8, 0x3F, 0x3B]
}

/// Whether a request ends in `stream` after its first `end` bytes.
pub open spec fn request_ends_at(stream: Seq<u8>, end: int) -> bool {
    3 <= end <= stream.len() && stream.subrange(end - 3, end) == request()
}

/// Whether there is a request in `stream`.
pub open spec fn has_request(stream: Seq<u8>) -> bool {
    exists|end: int| request_ends_at(stream, end)
}

/// Whether a request ends in the stream behind the first `from` bytes of it.
pub open spec fn completed_after(stream: Seq<u8>, from: int) -> bool {
    exists|end: int| from < end && request_ends_at(stream, end)
}

/// Whether the last `n` bytes of `stream` are the first `n` of a request.
pub open spec fn ends_in_prefix(stream: Seq<u8>, n: int) -> bool {
    0 <= n <= stream.len() && n < 3 && stream.skip(stream.len() - n) == request().take(n)
}

/// How many bytes of an unfinished request `stream` ends in: the most that fit.
pub open spec fn begun(stream: Seq<u8>) -> int {
    if ends_in_prefix(stream, 2) {
        2
    } else if ends_in_prefix(stream, 1) {
        1
    } else {
        0
    }
}

/// Finds requests in a stream of bytes that comes in pieces.
pub struct RequestMatcher {
    matched: usize,
}

impl View for RequestMatcher {
    type V = int;

    /// How many bytes of an unfinished request came last.
    closed spec fn view(&self) -> int {
        self.matched as int
    }
}

proof fn lemma_tails(stream: Seq<u8>)
    ensures
        ends_in_prefix(stream, 0),
        ends_in_prefix(stream, 1) <==> stream.len() >= 1 && stream.last() == 0x24,
        ends_in_prefix(stream, 2) <==> stream.len() >= 2 && stream.last() == 0x3F && stream[stream.len()
            - 2] == 0x24,
        request_ends_at(stream, stream.len() as int) <==> stream.len() >= 3 && stream.last() == 0x3B
            && stream[stream.len() - 2] == 0x3F && stream[stream.len() - 3] == 0x24,
{
    let n = stream.len();
    assert(stream.skip(n as int) =~= request().take(0));
    if n >= 1 {
        let tail = stream.skip(n - 1);
        assert(tail[0] == stream.last());
        assert(request().take(1)[0] == 0x24);
        if stream.last() == 0x24 {
            assert(tail =~= request().take(1));
        }
    }
    if n >= 2 {
        let tail = stream.skip(n - 2);
        assert(tail[0] == stream[n - 2]);
        assert(tail[1] == stream.last());
        assert(request().take(2)[0] == 0x24);
        assert(request().take(2)[1] == 0x3F);
        if stream.last() == 0x3F && stream[n - 2] == 0x24 {
            assert(tail =~= request().take(2));
        }
    }
    if n >= 3 {
        let tail = stream.subrange(n - 3, n as int);
        assert(tail[0] == stream[n - 3]);
        assert(tail[1] == stream[n - 2]);
        assert(tail[2] == stream.last());
        if stream.last() == 0x3B && stream[n - 2] == 0x3F && stream[n - 3] == 0x24 {
            assert(tail =~= request());
        }
    }
}

/// One more byte: a request is complete where two of its bytes came before the third, and what
/// is begun follows from the byte and what was begun before.
proof fn lemma_push(stream: Seq<u8>, byte: u8)
    ensures
        has_request(stream.push(byte)) <==> has_request(stream) || (begun(stream) == 2 && byte
            == 0x3B),
        forall|from: int|
            0 <= from <= stream.len() ==> (#[trigger] completed_after(stream.push(byte), from)
                <==> completed_after(stream, from) || (begun(stream) == 2 && byte == 0x3B)),
        begun(stream.push(byte)) == (if begun(stream) == 1 && byte == 0x3F {
            2int
        } else if byte == 0x24 {
            1int
        } else {
            0int
        }),
{
    let longer = stream.push(byte);
    lemma_tails(stream);
    lemma_tails(longer);
    assert(longer.last() == byte);
    if stream.len() >= 1 {
        assert(longer[longer.len() - 2] == stream.last());
    }
    if stream.len() >= 2 {
        assert(longer[longer.len() - 3] == stream[stream.len() - 2]);
    }
    assert forall|end: int| end <= stream.len() implies (#[trigger] request_ends_at(longer, end)
        <==> request_ends_at(stream, end)) by {
        if 3 <= end {
            assert(longer.subrange(end - 3, end) =~= stream.subrange(end - 3, end));
        }
    }
    if has_request(stream) {
        let end = choose|end: int| request_ends_at(stream, end);
        assert(request_ends_at(longer, end));
    }
    if has_request(longer) && !request_ends_at(longer, longer.len() as int) {
        let end = choose|end: int| request_ends_at(longer, end);
        assert(request_ends_at(stream, end));
    }
    assert forall|from: int| 0 <= from <= stream.len() implies (#[trigger] completed_after(
        longer,
        from,
    ) <==> completed_after(stream, from) || (begun(stream) == 2 && byte == 0x3B)) by {
        if completed_after(stream, from) {
            let end = choose|end: int| from < end && request_ends_at(stream, end);
            assert(request_ends_at(longer, end));
        }
        if completed_after(longer, from) && !request_ends_at(longer, longer.len() as int) {
            let end = choose|end: int| from < end && request_ends_at(longer, end);
            assert(request_ends_at(stream, end));
        }
    }
}

/// The unfinished request at the end of `stream` is all that matters for what follows: after
/// `more`, the same is begun as with only the unfinished one put in front of it, and a request
/// is completed in `more` exactly where one is complete with only the unfinished one in front.
pub proof fn only_the_unfinished_request_matters(stream: Seq<u8>, more: Seq<u8>)
    ensures
        begun(stream + more) == begun(request().take(begun(stream)) + more),
        completed_after(stream + more, stream.len() as int) <==> has_request(
            request().take(begun(stream)) + more,
        ),
        has_request(stream + more) <==> has_request(stream) || has_request(
            request().take(begun(stream)) + more,
        ),
    decreases more.len(),
{
    let short = request().take(begun(stream));
    lemma_tails(stream);
    lemma_tails(short);
    if more.len() == 0 {
        assert(stream + more =~= stream);
        assert(short + more =~= short);
        assert(short.len() < 3);
    } else {
        only_the_unfinished_request_matters(stream, more.drop_last());
        assert(stream + more =~= (stream + more.drop_last()).push(more.last()));
        assert(short + more =~= (short + more.drop_last()).push(more.last()));
        lemma_push(stream + more.drop_last(), more.last());
        lemma_push(short + more.drop_last(), more.last());
    }
}

/// What is to be done on the line.
pub enum LineStep {
    /// Switch the transceiver to sending, or back to receiving.
    Transmit(bool),
    /// Write the text.
    Write(&'static str),
    /// Wait until everything written has left.
    Flush,
    /// Let so many milliseconds pass.
    Sleep(u64),
}

/// What is to be done with the bytes that the line holds.
pub struct LineTurn {
    /// How many bytes to take off the line.
    pub consume: usize,
    /// Whether a request was completed in them.
    pub reply: bool,
    /// What to do then, before the line is listened to again.
    pub steps: Vec<LineStep>,
}

/// How a request is answered: the reply goes out twice, with a pause between.
pub open spec fn answer() -> Seq<LineStep> {
    seq![
        LineStep::Transmit(true),
        LineStep::Write(REPLY),
        LineStep::Flush,
        LineStep::Sleep(REPLY_PAUSE_MS),
        LineStep::Write(REPLY),
        LineStep::Flush,
        LineStep::Transmit(false),
    ]
}

/// What is done when `piece` is received while `begun` bytes of a request are remembered: a
/// request is answered where one is completed, and nothing is done where none is.
pub open spec fn steps_for(begun: int, piece: Seq<u8>) -> Seq<LineStep> {
    if has_request(request().take(begun) + piece) {
        answer()
    } else {
        Seq::empty()
    }
}

/// How the line begins: the transceiver receives.
pub fn start_step() -> (r: LineStep)
    ensures
        r == LineStep::Transmit(false),
{
    LineStep::Transmit(false)
}

/// The steps that answer a request.
pub fn reply_steps() -> (r: Vec<LineStep>)
    ensures
        r@ == answer(),
{
    let mut steps: Vec<LineStep> = Vec::new();
    steps.push(LineStep::Transmit(true));
    steps.push(LineStep::Write(REPLY));
    steps.push(LineStep::Flush);
    steps.push(LineStep::Sleep(REPLY_PAUSE_MS));
    steps.push(LineStep::Write(REPLY));
    steps.push(LineStep::Flush);
    steps.push(LineStep::Transmit(false));
    steps
}

impl RequestMatcher {
    /// Fewer bytes are remembered than a request has.
    pub open spec fn wf(&self) -> bool {
        0 <= self@ < 3
    }

    /// A matcher that has seen nothing.
    pub fn new() -> (r: RequestMatcher)
        ensures
            r.wf(),
            r@ == 0,
    {
        RequestMatcher { matched: 0 }
    }

    /// Takes in the bytes received, and says whether a request was completed in them.
    pub fn feed(&mut self, buf: &[u8]) -> (should_reply: bool)
        requires
            old(self).wf(),
        ensures
            final(self).wf(),
            final(self)@ == begun(request().take(old(self)@) + buf@),
            should_reply == has_request(request().take(old(self)@) + buf@),
    {
        let mut should_reply: bool = false;
        let ghost start = request().take(self.matched as int);
        proof {
            lemma_tails(start);
            assert(start + buf@.take(0) =~= start);
        }
        let mut i: usize = 0;
        while i < buf.len()
            invariant
                i <= buf@.len(),
                self.matched < 3,
                self.matched == begun(start + buf@.take(i as int)),
                should_reply == has_request(start + buf@.take(i as int)),
            decreases buf@.len() - i,
        {
            let byte: u8 = buf[i];
            proof {
                assert(start + buf@.take(i + 1) =~= (start + buf@.take(i as int)).push(byte));
                lemma_push(start + buf@.take(i as int), byte);
            }
            let wanted: u8 = match self.matched {
                0 => 0x24,
                1 => 0x3F,
                _ => 0x3B,
            };
            if byte == wanted {
                self.matched = self.matched + 1;
                if self.matched == 3 {
                    self.matched = 0;
                    should_reply = true;
                }
            } else if byte == 0x24 {
                self.matched = 1;
            } else {
                self.matched = 0;
            }
            i = i + 1;
        }
        assert(buf@.take(i as int) =~= buf@);
        should_reply
    }

    /// Decides what is to be done with the bytes that the line holds: all of them are taken off
    /// it, and a request that was completed in them is answered.
    pub fn turn(&mut self, buf: &[u8]) -> (r: LineTurn)
        requires
            old(self).wf(),
        ensures
            final(self).wf(),
            final(self)@ == begun(request().take(old(self)@) + buf@),
            r.consume == buf@.len(),
            r.reply == has_request(request().take(old(self)@) + buf@),
            r.steps@ == steps_for(old(self)@, buf@),
    {
        let consume: usize = buf.len();
        let reply: bool = self.feed(buf);
        let steps: Vec<LineStep> = if reply {
            reply_steps()
        } else {
            Vec::new()
        };
        LineTurn { consume, reply, steps }
    }
}

/// The matcher's state after a whole stream.
pub open spec fn state_after(stream: Seq<u8>) -> int {
    begun(request().take(0) + stream)
}

/// However a stream is cut into pieces, the matcher ends in the same state, a request is found
/// in each piece exactly where one ends in it, and so in one of the pieces exactly where there is
/// one in the stream.
pub proof fn cuts_do_not_matter(first: Seq<u8>, second: Seq<u8>)
    ensures
        begun(request().take(state_after(first)) + second) == state_after(first + second),
        has_request(request().take(0) + first) <==> has_request(first),
        has_request(request().take(state_after(first)) + second) <==> completed_after(
            first + second,
            first.len() as int,
        ),
        has_request(first + second) <==> has_request(request().take(0) + first) || has_request(
            request().take(state_after(first)) + second,
        ),
{
    assert(request().take(0) + first =~= first);
    assert(request().take(0) + (first + second) =~= first + second);
    only_the_unfinished_request_matters(first, second);
}

/// What has come over the line once all of `pieces` were taken off it.
pub open spec fn joined(pieces: Seq<Seq<u8>>) -> Seq<u8>
    decreases pieces.len(),
{
    if pieces.len() == 0 {
        Seq::empty()
    } else {
        joined(pieces.drop_last()) + pieces.last()
    }
}

/// What the matcher remembers after one turn for each of `pieces`.
pub open spec fn begun_after(pieces: Seq<Seq<u8>>) -> int
    decreases pieces.len(),
{
    if pieces.len() == 0 {
        0
    } else {
        begun(request().take(begun_after(pieces.drop_last())) + pieces.last())
    }
}

/// Everything done on the line from its start to the end of the last turn, with one turn for
/// each of `pieces`.
pub open spec fn line_run(pieces: Seq<Seq<u8>>) -> Seq<LineStep>
    decreases pieces.len(),
{
    if pieces.len() == 0 {
        seq![LineStep::Transmit(false)]
    } else {
        line_run(pieces.drop_last()) + steps_for(
            begun_after(pieces.drop_last()),
            pieces.last(),
        )
    }
}

/// Whether the transceiver sends after `steps`, of which the last that switches it counts.
pub open spec fn sending(steps: Seq<LineStep>) -> bool
    decreases steps.len(),
{
    if steps.len() == 0 {
        false
    } else {
        match steps.last() {
            LineStep::Transmit(on) => on,
            _ => sending(steps.drop_last()),
        }
    }
}

/// Whether the transceiver is switched, one way or the other, at some point of `steps`.
pub open spec fn is_switched(steps: Seq<LineStep>) -> bool {
    exists|i: int| 0 <= i < steps.len() && #[trigger] steps[i] is Transmit
}

proof fn lemma_sending_in_answer(before: Seq<LineStep>, n: int)
    requires
        0 <= n <= answer().len(),
    ensures
        sending(before + answer().take(n)) == (if n == 0 {
            sending(before)
        } else {
            n < answer().len()
        }),
    decreases n,
{
    let steps = before + answer().take(n);
    if n == 0 {
        assert(steps =~= before);
    } else {
        lemma_sending_in_answer(before, n - 1);
        assert(steps.drop_last() =~= before + answer().take(n - 1));
        assert(steps.last() == answer()[n - 1]);
    }
}

/// Whenever bytes are awaited, at the start and after any turns, the transceiver has been
/// switched and receives; and whatever was written until then was written while it sent, and
/// has left before it received again.
pub proof fn line_is_listened_to_between_turns(pieces: Seq<Seq<u8>>)
    ensures
        is_switched(line_run(pieces)),
        !sending(line_run(pieces)),
        forall|i: int|
            0 <= i < line_run(pieces).len() && #[trigger] line_run(pieces)[i] is Write ==> sending(
                line_run(pieces).take(i),
            ) && i + 1 < line_run(pieces).len() && line_run(pieces)[i + 1] is Flush,
    decreases pieces.len(),
{
    let steps = line_run(pieces);
    if pieces.len() == 0 {
        assert(steps[0] is Transmit);
    } else {
        let before = line_run(pieces.drop_last());
        line_is_listened_to_between_turns(pieces.drop_last());
        let k = choose|k: int| 0 <= k < before.len() && #[trigger] before[k] is Transmit;
        assert(steps[k] is Transmit);
        if has_request(request().take(begun_after(pieces.drop_last())) + pieces.last()) {
            lemma_sending_in_answer(before, answer().len() as int);
            assert(answer().take(answer().len() as int) =~= answer());
            assert forall|i: int| 0 <= i < steps.len() && #[trigger] steps[i] is Write implies
                sending(steps.take(i)) && i + 1 < steps.len() && steps[i + 1] is Flush by {
                if i < before.len() {
                    assert(before[i] is Write);
                    assert(steps.take(i) =~= before.take(i));
                    assert(steps[i + 1] == before[i + 1]);
                } else {
                    let n = i - before.len();
                    assert(steps[i] == answer()[n]);
                    lemma_sending_in_answer(before, n);
                    assert(steps.take(i) =~= before + answer().take(n));
                    assert(steps[i + 1] == answer()[n + 1]);
                }
            }
        } else {
            assert(steps =~= before);
        }
    }
}

/// Every byte that comes over the line counts exactly once, in whatever pieces: after turns for
/// all of `pieces` the matcher remembers what the whole stream ends in, and a turn for one more
/// piece answers a request exactly where one ends in that piece of the stream, and otherwise
/// does nothing.
pub proof fn every_byte_counts_once(pieces: Seq<Seq<u8>>, piece: Seq<u8>)
    ensures
        begun_after(pieces) == begun(joined(pieces)),
        line_run(pieces.push(piece)) == line_run(pieces) + (if completed_after(
            joined(pieces) + piece,
            joined(pieces).len() as int,
        ) {
            answer()
        } else {
            Seq::empty()
        }),
    decreases pieces.len(),
{
    if pieces.len() == 0 {
        lemma_tails(joined(pieces));
    } else {
        every_byte_counts_once(pieces.drop_last(), piece);
        only_the_unfinished_request_matters(joined(pieces.drop_last()), pieces.last());
    }
    assert(pieces.push(piece).drop_last() =~= pieces);
    only_the_unfinished_request_matters(joined(pieces), piece);
}

/// There is a request in a stream exactly where its three characters, `$`, `?` and `;`, stand in
/// it one behind the other.
pub proof fn request_is_three_characters(stream: Seq<u8>)
    ensures
        has_request(stream) <==> exists|i: int|
            0 <= i < stream.len() - 2 && #[trigger] stream[i] == 0x24 && stream[i + 1] == 0x3F
                && stream[i + 2] == 0x3B,
{
    if has_request(stream) {
        let end = choose|end: int| request_ends_at(stream, end);
        let part = stream.subrange(end - 3, end);
        assert(part[0] == stream[end - 3]);
        assert(part[1] == stream[end - 2]);
        assert(part[2] == stream[end - 1]);
    }
    if exists|i: int|
        0 <= i < stream.len() - 2 && #[trigger] stream[i] == 0x24 && stream[i + 1] == 0x3F
            && stream[i + 2] == 0x3B {
        let i = choose|i: int|
            0 <= i < stream.len() - 2 && #[trigger] stream[i] == 0x24 && stream[i + 1] == 0x3F
                && stream[i + 2] == 0x3B;
        assert(stream.subrange(i, i + 3) =~= request());
        assert(request_ends_at(stream, i + 3));
    }
}

/// Whatever has come before, in whatever pieces, a piece that ends in a request is answered, and
/// one that holds no `;` is not.
pub proof fn request_at_the_end_is_answered(pieces: Seq<Seq<u8>>, piece: Seq<u8>)
    ensures
        line_run(pieces.push(piece + seq![0x24u8, 0x3F, 0x3B])) == line_run(pieces) + answer(),
        (forall|i: int| 0 <= i < piece.len() ==> piece[i] != 0x3B) ==> line_run(pieces.push(piece))
            == line_run(pieces),
{
    let longer = piece + seq![0x24u8, 0x3F, 0x3B];
    let start = joined(pieces);
    every_byte_counts_once(pieces, longer);
    every_byte_counts_once(pieces, piece);
    let whole = start + longer;
    let n = whole.len() as int;
    assert(whole.subrange(n - 3, n) =~= request());
    assert(request_ends_at(whole, n));
    if forall|i: int| 0 <= i < piece.len() ==> piece[i] != 0x3B {
        if completed_after(start + piece, start.len() as int) {
            let end = choose|end: int|
                (start.len() as int) < end && request_ends_at(start + piece, end);
            assert((start + piece).subrange(end - 3, end)[2] == (start + piece)[end - 1]);
            assert((start + piece)[end - 1] == piece[end - 1 - start.len()]);
        }
        assert(line_run(pieces) + Seq::<LineStep>::empty() =~= line_run(pieces));
    }
}

/// An answer is the same text twice, half a second apart, each time sent off whole before
/// anything else is done.
pub proof fn answer_is_sent_twice()
    ensures
        answer().len() == 7,
        answer()[1] == LineStep::Write("$20|11|2|0|0|10|0|1|0|;\r\n"),
        answer()[4] == answer()[1],
        answer()[2] is Flush,
        answer()[5] is Flush,
        answer()[3] == LineStep::Sleep(500),
        answer()[0] == LineStep::Transmit(true),
        answer()[6] == LineStep::Transmit(false),
{
}

} // verus!
