//! One exchange with the modem, and what its replies mean.
use vstd::prelude::*;
use vstd::string::*;
use vstd::utf8::*;

use crate::scan;

verus! {

/// How long the line must be silent before a command is written.
pub const QUIET_MS: u64 = 50;

/// How long a reply is awaited when the clock has just run past the end of the exchange.
pub const LAST_READ_MS: u64 = 10;

/// What a reply says of the command it answers.
#[derive(Clone, Copy, Debug, PartialEq, Eq, Structural)]
pub enum Verdict {
    Accepted,
    Rejected,
    Undecided,
}

/// A reply accepts when it holds the text expected, rejects when it holds `ERROR` instead, and
/// decides nothing otherwise, nor when it is not UTF-8.
pub open spec fn verdict(reply: Seq<u8>, expected: Seq<char>) -> Verdict {
    if !valid_utf8(reply) {
        Verdict::Undecided
    } else if scan::holds(decode_utf8(reply), expected) {
        Verdict::Accepted
    } else if scan::holds(decode_utf8(reply), "ERROR"@) {
        Verdict::Rejected
    } else {
        Verdict::Undecided
    }
}

/// Judges a reply to a command whose success shows as `expected`.
pub fn judge_reply(reply: &[u8], expected: &str) -> (r: Verdict)
    ensures
        r == verdict(reply@, expected@),
        r == Verdict::Accepted <==> valid_utf8(reply@) && exists|before: Seq<char>, after: Seq<char>|
            decode_utf8(reply@) == #[trigger] (before + expected@ + after),
        r == Verdict::Rejected <==> r != Verdict::Accepted && valid_utf8(reply@) && exists|
            before: Seq<char>,
            after: Seq<char>,
        |
            decode_utf8(reply@) == #[trigger] (before + "ERROR"@ + after),
{
    proof {
        reply_is_judged_by_what_it_holds(reply@, expected@);
    }
    match scan::utf8_text(reply) {
        Some(resp) => {
            if scan::contains(resp, expected) {
                Verdict::Accepted
            } else if scan::contains(resp, "ERROR") {
                Verdict::Rejected
            } else {
                Verdict::Undecided
            }
        },
        None => Verdict::Undecided,
    }
}

/// The text of a reply without the white space around it; none where it is not UTF-8.
pub open spec fn reply_text(reply: Seq<u8>) -> Option<Seq<char>> {
    if valid_utf8(reply) {
        Some(scan::trimmed(decode_utf8(reply)))
    } else {
        None
    }
}

/// Whether a reply to `AT+CEREG?` reports registration, at home or roaming, and with the
/// unsolicited reports off or on.
pub open spec fn reports_eps(reply: Seq<u8>) -> bool {
    reply_text(reply) matches Some(text) && (scan::holds(text, "+CEREG: 0,1\r"@) || scan::holds(
        text,
        "+CEREG: 0,5\r"@,
    ) || scan::holds(text, "+CEREG: 1,1\r"@) || scan::holds(text, "+CEREG: 1,5\r"@))
}

/// Whether a reply to `AT+CREG?` reports registration, at home or roaming.
pub open spec fn reports_cs(reply: Seq<u8>) -> bool {
    reply_text(reply) matches Some(text) && (scan::holds(text, "+CREG: 0,1\r"@) || scan::holds(
        text,
        "+CREG: 0,5\r"@,
    ))
}

/// Decides whether a reply to `AT+CEREG?` reports registration.
pub fn eps_registered(reply: &[u8]) -> (r: bool)
    ensures
        r == reports_eps(reply@),
{
    match scan::utf8_text(reply) {
        Some(resp) => {
            let text: &str = scan::trim(resp);
            scan::contains(text, "+CEREG: 0,1\r") || scan::contains(text, "+CEREG: 0,5\r")
                || scan::contains(text, "+CEREG: 1,1\r") || scan::contains(text, "+CEREG: 1,5\r")
        },
        None => false,
    }
}

/// Decides whether a reply to `AT+CREG?` reports registration.
pub fn cs_registered(reply: &[u8]) -> (r: bool)
    ensures
        r == reports_cs(reply@),
{
    match scan::utf8_text(reply) {
        Some(resp) => {
            let text: &str = scan::trim(resp);
            scan::contains(text, "+CREG: 0,1\r") || scan::contains(text, "+CREG: 0,5\r")
        },
        None => false,
    }
}

/// What the server said in the bytes received: their text without the white space around it,
/// where they are UTF-8 and anything is left.
pub fn server_message(reply: &[u8]) -> (r: Option<&str>)
    ensures
        r is Some <==> (reply_text(reply@) matches Some(text) && text.len() > 0),
        r matches Some(message) ==> reply_text(reply@) == Some(message@),
{
    match scan::utf8_text(reply) {
        Some(resp) => {
            let text: &str = scan::trim(resp);
            if text.is_empty() {
                None
            } else {
                Some(text)
            }
        },
        None => None,
    }
}

/// A reply reports registration exactly where its status line is followed by more than white
/// space, as it is by the `OK` that closes a complete reply: one cut off behind the status line
/// does not count.
pub proof fn registration_takes_a_complete_reply(reply: Seq<u8>)
    requires
        valid_utf8(reply),
    ensures
        reports_cs(reply) <==> exists|at: int|
            (scan::found_at(decode_utf8(reply), "+CREG: 0,1\r"@, at) || scan::found_at(
                decode_utf8(reply),
                "+CREG: 0,5\r"@,
                at,
            )) && !scan::blank_from(decode_utf8(reply), at + 11),
        reports_eps(reply) <==> exists|at: int|
            (scan::found_at(decode_utf8(reply), "+CEREG: 0,1\r"@, at) || scan::found_at(
                decode_utf8(reply),
                "+CEREG: 0,5\r"@,
                at,
            ) || scan::found_at(decode_utf8(reply), "+CEREG: 1,1\r"@, at) || scan::found_at(
                decode_utf8(reply),
                "+CEREG: 1,5\r"@,
                at,
            )) && !scan::blank_from(decode_utf8(reply), at + 12),
{
    let text = decode_utf8(reply);
    reveal_strlit("+CREG: 0,1\r");
    reveal_strlit("+CREG: 0,5\r");
    reveal_strlit("+CEREG: 0,1\r");
    reveal_strlit("+CEREG: 0,5\r");
    reveal_strlit("+CEREG: 1,1\r");
    reveal_strlit("+CEREG: 1,5\r");
    scan::line_end_survives_only_before_text(text, "+CREG: 0,1\r"@);
    scan::line_end_survives_only_before_text(text, "+CREG: 0,5\r"@);
    scan::line_end_survives_only_before_text(text, "+CEREG: 0,1\r"@);
    scan::line_end_survives_only_before_text(text, "+CEREG: 0,5\r"@);
    scan::line_end_survives_only_before_text(text, "+CEREG: 1,1\r"@);
    scan::line_end_survives_only_before_text(text, "+CEREG: 1,5\r"@);
}

/// Where an exchange stands.
#[derive(Clone, Copy, Debug, PartialEq, Eq, Structural)]
pub enum AtStage {
    /// Old bytes are read away until the line is silent.
    Draining,
    /// The command is written.
    Writing,
    /// The clock of the exchange is started.
    Starting,
    /// The clock is read to see whether time is left.
    Checking,
    /// The clock is read again to see how much.
    Timing,
    /// A reply is awaited for at most this long.
    Awaiting(u64),
    /// The exchange is over: the command was accepted or not.
    Done(bool),
}

/// What an exchange asks to be done next.
pub enum AtAction<'a> {
    /// Read what comes, for at most so many milliseconds.
    Read(u64),
    /// Write the command.
    Write(&'a str),
    /// Start the clock.
    StartClock,
    /// Say how many milliseconds have passed since the clock was started.
    ReadClock,
    /// Nothing: the exchange is over, with this outcome.
    Finish(bool),
}

/// What came of an action.
pub enum AtEvent<'a> {
    /// Bytes were read.
    Received(&'a [u8]),
    /// The line reported an error while reading.
    ReadFailed,
    /// Nothing was read in time.
    TimedOut,
    /// The command was written, or could not be.
    Written(bool),
    /// The clock was started.
    ClockStarted,
    /// So many milliseconds have passed.
    Elapsed(u64),
}

/// One command to the modem, awaiting a reply that holds `expected`.
pub struct AtExchange<'a> {
    pub command: &'a str,
    pub expected: &'a str,
    pub wait_ms: u64,
    pub stage: AtStage,
}

/// The stage after `event`. An event that does not answer the action asked for changes nothing.
pub open spec fn stage_after(
    stage: AtStage,
    event: AtEvent,
    expected: Seq<char>,
    wait_ms: u64,
) -> AtStage {
    match (stage, event) {
        // Whatever is read, even an error, means that the line is not silent yet.
        (AtStage::Draining, AtEvent::TimedOut) => AtStage::Writing,
        (AtStage::Writing, AtEvent::Written(ok)) => if ok {
            AtStage::Starting
        } else {
            AtStage::Done(false)
        },
        (AtStage::Starting, AtEvent::ClockStarted) => AtStage::Checking,
        (AtStage::Checking, AtEvent::Elapsed(ms)) => if ms < wait_ms {
            AtStage::Timing
        } else {
            AtStage::Done(false)
        },
        (AtStage::Timing, AtEvent::Elapsed(ms)) => AtStage::Awaiting(
            if ms < wait_ms {
                (wait_ms - ms) as u64
            } else {
                LAST_READ_MS
            },
        ),
        (AtStage::Awaiting(_), AtEvent::Received(bytes)) => match verdict(bytes@, expected) {
            Verdict::Accepted => AtStage::Done(true),
            Verdict::Rejected => AtStage::Done(false),
            Verdict::Undecided => AtStage::Checking,
        },
        (AtStage::Awaiting(_), AtEvent::ReadFailed) => AtStage::Checking,
        (AtStage::Awaiting(_), AtEvent::TimedOut) => AtStage::Checking,
        _ => stage,
    }
}

impl<'a> AtExchange<'a> {
    /// An exchange that has not begun.
    pub fn new(command: &'a str, expected: &'a str, wait_ms: u64) -> (r: Self)
        ensures
            r.command@ == command@,
            r.expected@ == expected@,
            r.wait_ms == wait_ms,
            r.stage == AtStage::Draining,
    {
        AtExchange { command, expected, wait_ms, stage: AtStage::Draining }
    }

    /// What is to be done now.
    pub fn action(&self) -> (r: AtAction<'a>)
        ensures
            match self.stage {
                AtStage::Draining => r == AtAction::Read(QUIET_MS),
                AtStage::Writing => r matches AtAction::Write(text) && text@ == self.command@,
                AtStage::Starting => r == AtAction::StartClock,
                AtStage::Checking => r == AtAction::ReadClock,
                AtStage::Timing => r == AtAction::ReadClock,
                AtStage::Awaiting(ms) => r == AtAction::Read(ms),
                AtStage::Done(ok) => r == AtAction::Finish(ok),
            },
    {
        match self.stage {
            AtStage::Draining => AtAction::Read(QUIET_MS),
            AtStage::Writing => AtAction::Write(self.command),
            AtStage::Starting => AtAction::StartClock,
            AtStage::Checking => AtAction::ReadClock,
            AtStage::Timing => AtAction::ReadClock,
            AtStage::Awaiting(ms) => AtAction::Read(ms),
            AtStage::Done(ok) => AtAction::Finish(ok),
        }
    }

    /// Takes in what came of the action.
    pub fn step(&mut self, event: AtEvent)
        ensures
            final(self).stage == stage_after(
                old(self).stage,
                event,
                old(self).expected@,
                old(self).wait_ms,
            ),
            final(self).command@ == old(self).command@,
            final(self).expected@ == old(self).expected@,
            final(self).wait_ms == old(self).wait_ms,
    {
        let next: AtStage = match (self.stage, event) {
            (AtStage::Draining, AtEvent::TimedOut) => AtStage::Writing,
            (AtStage::Writing, AtEvent::Written(ok)) => if ok {
                AtStage::Starting
            } else {
                AtStage::Done(false)
            },
            (AtStage::Starting, AtEvent::ClockStarted) => AtStage::Checking,
            (AtStage::Checking, AtEvent::Elapsed(ms)) => if ms < self.wait_ms {
                AtStage::Timing
            } else {
                AtStage::Done(false)
            },
            (AtStage::Timing, AtEvent::Elapsed(ms)) => {
                if self.wait_ms > ms {
                    AtStage::Awaiting(self.wait_ms - ms)
                } else {
                    AtStage::Awaiting(LAST_READ_MS)
                }
            },
            (AtStage::Awaiting(_), AtEvent::Received(bytes)) => {
                match judge_reply(bytes, self.expected) {
                    Verdict::Accepted => AtStage::Done(true),
                    Verdict::Rejected => AtStage::Done(false),
                    Verdict::Undecided => AtStage::Checking,
                }
            },
            (AtStage::Awaiting(_), AtEvent::ReadFailed) => AtStage::Checking,
            (AtStage::Awaiting(_), AtEvent::TimedOut) => AtStage::Checking,
            (stage, _) => stage,
        };
        self.stage = next;
    }
}

/// The stage that a new exchange has reached after `events`.
pub open spec fn stage_run(events: Seq<AtEvent>, expected: Seq<char>, wait_ms: u64) -> AtStage
    decreases events.len(),
{
    if events.len() == 0 {
        AtStage::Draining
    } else {
        stage_after(
            stage_run(events.drop_last(), expected, wait_ms),
            events.last(),
            expected,
            wait_ms,
        )
    }
}

/// How far an exchange has come.
pub open spec fn stage_rank(stage: AtStage) -> int {
    match stage {
        AtStage::Draining => 0,
        AtStage::Writing => 1,
        AtStage::Starting => 2,
        AtStage::Checking => 3,
        AtStage::Timing => 3,
        AtStage::Awaiting(_) => 3,
        AtStage::Done(_) => 4,
    }
}

/// An exchange never goes back: the command is written at most once, only after the line was
/// silent, and an outcome once reached stays.
pub proof fn exchange_never_goes_back(
    stage: AtStage,
    event: AtEvent,
    expected: Seq<char>,
    wait_ms: u64,
)
    ensures
        stage_rank(stage_after(stage, event, expected, wait_ms)) >= stage_rank(stage),
        stage == AtStage::Draining && stage_after(stage, event, expected, wait_ms) != stage
            ==> event == AtEvent::TimedOut,
        stage is Writing && event is Written ==> stage_rank(
            stage_after(stage, event, expected, wait_ms),
        ) > stage_rank(stage),
        stage is Done ==> stage_after(stage, event, expected, wait_ms) == stage,
{
}

/// Whether the line was silent at some point of `events`.
pub open spec fn fell_silent(events: Seq<AtEvent>) -> bool {
    exists|i: int| 0 <= i < events.len() && #[trigger] events[i] is TimedOut
}

/// Whether the command was written at some point of `events`, after the line was silent.
pub open spec fn was_sent(events: Seq<AtEvent>) -> bool {
    exists|j: int|
        0 <= j < events.len() && #[trigger] events[j] == AtEvent::Written(true) && fell_silent(
            events.take(j),
        )
}

/// Whether a reply that accepts the command came at some point of `events`, while the exchange
/// was waiting for one after the command was written.
pub open spec fn was_accepted(events: Seq<AtEvent>, expected: Seq<char>, wait_ms: u64) -> bool {
    exists|k: int|
        0 <= k < events.len() && was_sent(events.take(k)) && stage_run(
            events.take(k),
            expected,
            wait_ms,
        ) is Awaiting && (#[trigger] events[k] matches AtEvent::Received(bytes) && verdict(
            bytes@,
            expected,
        ) == Verdict::Accepted)
}

/// Whether `event` ends an exchange at `stage` without success: the command could not be
/// written, its time has run out when the clock is read, or a reply that was waited for rejects
/// it.
pub open spec fn loses(
    stage: AtStage,
    event: AtEvent,
    expected: Seq<char>,
    wait_ms: u64,
) -> bool {
    match event {
        AtEvent::Written(ok) => stage is Writing && !ok,
        AtEvent::Elapsed(ms) => stage is Checking && ms >= wait_ms,
        AtEvent::Received(bytes) => stage is Awaiting && verdict(bytes@, expected)
            == Verdict::Rejected,
        _ => false,
    }
}

/// Whether something happened in `events` that ended the exchange without success.
pub open spec fn was_lost(events: Seq<AtEvent>, expected: Seq<char>, wait_ms: u64) -> bool {
    exists|k: int|
        0 <= k < events.len() && loses(
            stage_run(events.take(k), expected, wait_ms),
            #[trigger] events[k],
            expected,
            wait_ms,
        )
}

proof fn lemma_longer_history(events: Seq<AtEvent>, expected: Seq<char>, wait_ms: u64)
    requires
        events.len() > 0,
    ensures
        fell_silent(events.drop_last()) ==> fell_silent(events),
        was_sent(events.drop_last()) ==> was_sent(events),
        was_accepted(events.drop_last(), expected, wait_ms) ==> was_accepted(
            events,
            expected,
            wait_ms,
        ),
        was_lost(events.drop_last(), expected, wait_ms) ==> was_lost(events, expected, wait_ms),
        events.last() is TimedOut ==> fell_silent(events),
        events.last() == AtEvent::Written(true) && fell_silent(events.drop_last()) ==> was_sent(
            events,
        ),
{
    let shorter = events.drop_last();
    let end = events.len() - 1;
    assert(events[end] == events.last());
    assert(events.take(end) =~= shorter);
    if fell_silent(shorter) {
        let i = choose|i: int| 0 <= i < shorter.len() && #[trigger] shorter[i] is TimedOut;
        assert(events[i] is TimedOut);
    }
    if was_sent(shorter) {
        let j = choose|j: int|
            0 <= j < shorter.len() && #[trigger] shorter[j] == AtEvent::Written(true)
                && fell_silent(shorter.take(j));
        assert(shorter.take(j) =~= events.take(j));
        assert(events[j] == AtEvent::Written(true));
    }
    if was_accepted(shorter, expected, wait_ms) {
        let k = choose|k: int|
            0 <= k < shorter.len() && was_sent(shorter.take(k)) && stage_run(
                shorter.take(k),
                expected,
                wait_ms,
            ) is Awaiting && (#[trigger] shorter[k] matches AtEvent::Received(bytes) && verdict(
                bytes@,
                expected,
            ) == Verdict::Accepted);
        assert(shorter.take(k) =~= events.take(k));
        assert(events[k] == shorter[k]);
    }
    if was_lost(shorter, expected, wait_ms) {
        let k = choose|k: int|
            0 <= k < shorter.len() && loses(
                stage_run(shorter.take(k), expected, wait_ms),
                #[trigger] shorter[k],
                expected,
                wait_ms,
            );
        assert(shorter.take(k) =~= events.take(k));
        assert(events[k] == shorter[k]);
    }
}

proof fn lemma_history(events: Seq<AtEvent>, expected: Seq<char>, wait_ms: u64)
    ensures
        match stage_run(events, expected, wait_ms) {
            AtStage::Draining => true,
            AtStage::Writing => fell_silent(events),
            AtStage::Done(ok) => if ok {
                was_accepted(events, expected, wait_ms)
            } else {
                was_lost(events, expected, wait_ms)
            },
            _ => was_sent(events),
        },
    decreases events.len(),
{
    if events.len() > 0 {
        let end = events.len() - 1;
        lemma_history(events.drop_last(), expected, wait_ms);
        lemma_longer_history(events, expected, wait_ms);
        assert(events.take(end) =~= events.drop_last());
        assert(events[end] == events.last());
    }
}

/// Once an exchange is done, nothing that happens later changes how it ended.
pub proof fn the_end_is_kept(
    events: Seq<AtEvent>,
    k: int,
    expected: Seq<char>,
    wait_ms: u64,
)
    requires
        0 <= k <= events.len(),
        stage_run(events.take(k), expected, wait_ms) is Done,
    ensures
        stage_run(events, expected, wait_ms) == stage_run(events.take(k), expected, wait_ms),
    decreases events.len() - k,
{
    if k == events.len() {
        assert(events.take(k) =~= events);
    } else {
        assert(events.drop_last().take(k) =~= events.take(k));
        the_end_is_kept(events.drop_last(), k, expected, wait_ms);
    }
}

proof fn lemma_step(events: Seq<AtEvent>, k: int, expected: Seq<char>, wait_ms: u64)
    requires
        0 <= k < events.len(),
    ensures
        stage_run(events.take(k + 1), expected, wait_ms) == stage_after(
            stage_run(events.take(k), expected, wait_ms),
            events[k],
            expected,
            wait_ms,
        ),
{
    assert(events.take(k + 1).drop_last() =~= events.take(k));
    assert(events.take(k + 1).last() == events[k]);
}

/// The first reply that is waited for and decides anything decides the exchange, whatever comes
/// after it: with success where it accepts the command, without where it rejects it.
pub proof fn first_decisive_reply_decides(
    events: Seq<AtEvent>,
    k: int,
    expected: Seq<char>,
    wait_ms: u64,
)
    requires
        0 <= k < events.len(),
        stage_run(events.take(k), expected, wait_ms) is Awaiting,
        events[k] is Received,
        verdict(events[k]->Received_0@, expected) != Verdict::Undecided,
    ensures
        stage_run(events, expected, wait_ms) == AtStage::Done(
            verdict(events[k]->Received_0@, expected) == Verdict::Accepted,
        ),
{
    lemma_step(events, k, expected, wait_ms);
    the_end_is_kept(events, k + 1, expected, wait_ms);
}

/// An exchange succeeds exactly where the line fell silent, the command was then written, and a
/// reply that holds the expected text came while one was still waited for.
pub proof fn success_is_earned(events: Seq<AtEvent>, expected: Seq<char>, wait_ms: u64)
    ensures
        stage_run(events, expected, wait_ms) == AtStage::Done(true) <==> was_accepted(
            events,
            expected,
            wait_ms,
        ),
{
    lemma_history(events, expected, wait_ms);
    if was_accepted(events, expected, wait_ms) {
        let k = choose|k: int|
            0 <= k < events.len() && was_sent(events.take(k)) && stage_run(
                events.take(k),
                expected,
                wait_ms,
            ) is Awaiting && (#[trigger] events[k] matches AtEvent::Received(bytes) && verdict(
                bytes@,
                expected,
            ) == Verdict::Accepted);
        first_decisive_reply_decides(events, k, expected, wait_ms);
    }
}

/// An exchange fails exactly where the command could not be written, its time ran out, or a
/// reply that was waited for rejected it.
pub proof fn failure_has_a_cause(events: Seq<AtEvent>, expected: Seq<char>, wait_ms: u64)
    ensures
        stage_run(events, expected, wait_ms) == AtStage::Done(false) <==> was_lost(
            events,
            expected,
            wait_ms,
        ),
{
    lemma_history(events, expected, wait_ms);
    if was_lost(events, expected, wait_ms) {
        let k = choose|k: int|
            0 <= k < events.len() && loses(
                stage_run(events.take(k), expected, wait_ms),
                #[trigger] events[k],
                expected,
                wait_ms,
            );
        lemma_step(events, k, expected, wait_ms);
        the_end_is_kept(events, k + 1, expected, wait_ms);
    }
}

/// A reply accepts exactly where the expected text stands somewhere in it, whatever stands before
/// and after, and rejects exactly where that does not but `ERROR` does. What is not UTF-8 decides
/// nothing.
pub proof fn reply_is_judged_by_what_it_holds(reply: Seq<u8>, expected: Seq<char>)
    ensures
        verdict(reply, expected) == Verdict::Accepted <==> valid_utf8(reply) && exists|
            before: Seq<char>,
            after: Seq<char>,
        |
            decode_utf8(reply) == #[trigger] (before + expected + after),
        verdict(reply, expected) == Verdict::Rejected <==> verdict(reply, expected)
            != Verdict::Accepted && valid_utf8(reply) && exists|
            before: Seq<char>,
            after: Seq<char>,
        |
            decode_utf8(reply) == #[trigger] (before + "ERROR"@ + after),
        !valid_utf8(reply) ==> verdict(reply, expected) == Verdict::Undecided,
{
    scan::found_means_a_part(decode_utf8(reply), expected);
    scan::found_means_a_part(decode_utf8(reply), "ERROR"@);
}

/// Text before or after a reply that accepts leaves it accepting, and where such text does not
/// bring the expected one, it leaves a reply that rejects rejecting.
pub proof fn text_around_a_reply_does_not_matter(
    before: Seq<char>,
    reply: Seq<char>,
    after: Seq<char>,
    expected: Seq<char>,
)
    ensures
        verdict(encode_utf8(reply), expected) == Verdict::Accepted ==> verdict(
            encode_utf8(before + reply + after),
            expected,
        ) == Verdict::Accepted,
        verdict(encode_utf8(reply), expected) == Verdict::Rejected ==> verdict(
            encode_utf8(before + reply + after),
            expected,
        ) != Verdict::Undecided,
        verdict(encode_utf8(before + expected + after), expected) == Verdict::Accepted,
{
    let whole = before + reply + after;
    let exact = before + expected + after;
    encode_utf8_valid_utf8(reply);
    encode_utf8_decode_utf8(reply);
    encode_utf8_valid_utf8(whole);
    encode_utf8_decode_utf8(whole);
    encode_utf8_valid_utf8(exact);
    encode_utf8_decode_utf8(exact);
    scan::found_means_a_part(exact, expected);
    if scan::holds(reply, expected) {
        scan::what_is_found_stays_found(before, reply, after, expected);
    }
    if scan::holds(reply, "ERROR"@) {
        scan::what_is_found_stays_found(before, reply, after, "ERROR"@);
    }
}

/// Whether `text` is made up of something, the line `line`, and something that is not white space
/// alone.
pub open spec fn has_line_and_more(text: Seq<char>, line: Seq<char>) -> bool {
    exists|before: Seq<char>, after: Seq<char>|
        text == #[trigger] (before + line + after) && exists|k: int|
            0 <= k < after.len() && !scan::white_space(#[trigger] after[k])
}

proof fn lemma_line_and_more(text: Seq<char>, line: Seq<char>)
    requires
        line.len() > 0,
        !scan::white_space(line[0]),
        scan::white_space(line.last()),
    ensures
        scan::holds(scan::trimmed(text), line) <==> has_line_and_more(text, line),
{
    scan::line_end_survives_only_before_text(text, line);
    let n = line.len() as int;
    if exists|at: int| scan::found_at(text, line, at) && !scan::blank_from(text, at + line.len()) {
        let at = choose|at: int|
            scan::found_at(text, line, at) && !scan::blank_from(text, at + line.len());
        let before = text.take(at);
        let after = text.skip(at + n);
        assert(text =~= before + text.subrange(at, at + n) + after);
        let k = choose|k: int| at + n <= k < text.len() && !scan::white_space(#[trigger] text[k]);
        assert(!scan::white_space(after[k - at - n]));
    }
    if has_line_and_more(text, line) {
        let (before, after) = choose|before: Seq<char>, after: Seq<char>|
            text == #[trigger] (before + line + after) && exists|k: int|
                0 <= k < after.len() && !scan::white_space(#[trigger] after[k]);
        let k = choose|k: int| 0 <= k < after.len() && !scan::white_space(#[trigger] after[k]);
        let at = before.len() as int;
        assert(text.subrange(at, at + n) =~= line);
        assert(scan::found_at(text, line, at));
        assert(!scan::white_space(text[at + n + k]));
        assert(!scan::blank_from(text, at + line.len()));
    }
}

/// The modem is registered exactly where its answer is text that has one of the lines by which it
/// says so, at home (`1`) or roaming (`5`), and more than white space after it.
pub proof fn registration_is_read_from_the_answer(reply: Seq<u8>)
    ensures
        reports_cs(reply) <==> valid_utf8(reply) && (has_line_and_more(
            decode_utf8(reply),
            "+CREG: 0,1\r"@,
        ) || has_line_and_more(decode_utf8(reply), "+CREG: 0,5\r"@)),
        reports_eps(reply) <==> valid_utf8(reply) && (has_line_and_more(
            decode_utf8(reply),
            "+CEREG: 0,1\r"@,
        ) || has_line_and_more(decode_utf8(reply), "+CEREG: 0,5\r"@) || has_line_and_more(
            decode_utf8(reply),
            "+CEREG: 1,1\r"@,
        ) || has_line_and_more(decode_utf8(reply), "+CEREG: 1,5\r"@)),
{
    let text = decode_utf8(reply);
    reveal_strlit("+CREG: 0,1\r");
    reveal_strlit("+CREG: 0,5\r");
    reveal_strlit("+CEREG: 0,1\r");
    reveal_strlit("+CEREG: 0,5\r");
    reveal_strlit("+CEREG: 1,1\r");
    reveal_strlit("+CEREG: 1,5\r");
    lemma_line_and_more(text, "+CREG: 0,1\r"@);
    lemma_line_and_more(text, "+CREG: 0,5\r"@);
    lemma_line_and_more(text, "+CEREG: 0,1\r"@);
    lemma_line_and_more(text, "+CEREG: 0,5\r"@);
    lemma_line_and_more(text, "+CEREG: 1,1\r"@);
    lemma_line_and_more(text, "+CEREG: 1,5\r"@);
}

/// What the server says is what it sent without the white space around it: something white
/// before, the message, something white after, and the message itself neither begins nor ends
/// white.
pub proof fn message_is_what_stands_between_white_space(reply: Seq<u8>) -> (bounds: (int, int))
    ensures
        reply_text(reply) is Some <==> valid_utf8(reply),
        0 <= bounds.0 <= bounds.1 <= decode_utf8(reply).len(),
        reply_text(reply) matches Some(text) ==> text == decode_utf8(reply).subrange(
            bounds.0,
            bounds.1,
        ),
        forall|k: int|
            0 <= k < bounds.0 || bounds.1 <= k < decode_utf8(reply).len() ==> scan::white_space(
                #[trigger] decode_utf8(reply)[k],
            ),
        bounds.0 < bounds.1 ==> !scan::white_space(decode_utf8(reply)[bounds.0])
            && !scan::white_space(decode_utf8(reply)[bounds.1 - 1]),
{
    scan::trimmed_is_the_middle(decode_utf8(reply))
}

/// The command waits for silence: while old bytes come, or errors, the line is read on, and only a
/// time in which nothing came lets the command be written. Where it cannot be written the
/// exchange fails; otherwise its clock is started and then read.
pub proof fn command_waits_for_silence(bytes: &[u8], expected: Seq<char>, wait_ms: u64)
    ensures
        stage_after(AtStage::Draining, AtEvent::TimedOut, expected, wait_ms) is Writing,
        stage_after(AtStage::Draining, AtEvent::Received(bytes), expected, wait_ms) is Draining,
        stage_after(AtStage::Draining, AtEvent::ReadFailed, expected, wait_ms) is Draining,
        stage_after(AtStage::Writing, AtEvent::Written(true), expected, wait_ms) is Starting,
        stage_after(AtStage::Writing, AtEvent::Written(false), expected, wait_ms) == AtStage::Done(
            false,
        ),
        stage_after(AtStage::Starting, AtEvent::ClockStarted, expected, wait_ms) is Checking,
{
}

/// An exchange goes on while its time has not run out, and no longer: a reply is awaited for just
/// the time that is left, or for ten milliseconds where the clock has meanwhile run past the end.
pub proof fn reply_is_awaited_for_the_time_left(ms: u64, expected: Seq<char>, wait_ms: u64)
    ensures
        ms < wait_ms ==> stage_after(
            AtStage::Checking,
            AtEvent::Elapsed(ms),
            expected,
            wait_ms,
        ) is Timing,
        ms >= wait_ms ==> stage_after(AtStage::Checking, AtEvent::Elapsed(ms), expected, wait_ms)
            == AtStage::Done(false),
        stage_after(
            AtStage::Timing,
            AtEvent::Elapsed(ms),
            expected,
            wait_ms,
        ) matches AtStage::Awaiting(left) && (ms < wait_ms ==> ms + left == wait_ms) && (ms
            >= wait_ms ==> left == 10),
{
}

/// A reply that is awaited ends the exchange with success where the expected text stands in it,
/// and without where that does not but `ERROR` does. Any other reply, an error on the line and
/// silence leave it to the clock whether the exchange goes on.
pub proof fn awaited_reply_decides(left: u64, bytes: &[u8], expected: Seq<char>, wait_ms: u64)
    ensures
        ({
            let after = stage_after(
                AtStage::Awaiting(left),
                AtEvent::Received(bytes),
                expected,
                wait_ms,
            );
            let accepts = valid_utf8(bytes@) && exists|x: Seq<char>, y: Seq<char>|
                decode_utf8(bytes@) == #[trigger] (x + expected + y);
            let complains = valid_utf8(bytes@) && exists|x: Seq<char>, y: Seq<char>|
                decode_utf8(bytes@) == #[trigger] (x + "ERROR"@ + y);
            &&& after == AtStage::Done(true) <==> accepts
            &&& after == AtStage::Done(false) <==> !accepts && complains
            &&& after is Checking <==> !accepts && !complains
        }),
        stage_after(
            AtStage::Awaiting(left),
            AtEvent::ReadFailed,
            expected,
            wait_ms,
        ) is Checking,
        stage_after(AtStage::Awaiting(left), AtEvent::TimedOut, expected, wait_ms) is Checking,
{
    reply_is_judged_by_what_it_holds(bytes@, expected);
}

/// An exchange moves on with every answer to what it asks for, but for bytes and errors on a line
/// that is to fall silent, and with nothing else.
pub proof fn only_an_answer_moves_the_exchange(
    stage: AtStage,
    event: AtEvent,
    expected: Seq<char>,
    wait_ms: u64,
)
    ensures
        stage_after(stage, event, expected, wait_ms) != stage <==> match stage {
            AtStage::Draining => event is TimedOut,
            AtStage::Writing => event is Written,
            AtStage::Starting => event is ClockStarted,
            AtStage::Checking => event is Elapsed,
            AtStage::Timing => event is Elapsed,
            AtStage::Awaiting(_) => event is Received || event is ReadFailed || event is TimedOut,
            AtStage::Done(_) => false,
        },
{
}

/// An exchange on a quiet line that is answered in time succeeds: after silence, the command
/// written, the clock started and read twice, the first reply with the expected text ends it.
pub proof fn answered_command_succeeds(
    first: u64,
    second: u64,
    before: Seq<char>,
    after: Seq<char>,
    reply: &[u8],
    expected: Seq<char>,
    wait_ms: u64,
)
    requires
        first < wait_ms,
        reply@ == encode_utf8(before + expected + after),
    ensures
        stage_run(
            seq![
                AtEvent::TimedOut,
                AtEvent::Written(true),
                AtEvent::ClockStarted,
                AtEvent::Elapsed(first),
                AtEvent::Elapsed(second),
                AtEvent::Received(reply),
            ],
            expected,
            wait_ms,
        ) == AtStage::Done(true),
{
    let e0 = Seq::<AtEvent>::empty();
    let e1 = e0.push(AtEvent::TimedOut);
    let e2 = e1.push(AtEvent::Written(true));
    let e3 = e2.push(AtEvent::ClockStarted);
    let e4 = e3.push(AtEvent::Elapsed(first));
    let e5 = e4.push(AtEvent::Elapsed(second));
    let e6 = e5.push(AtEvent::Received(reply));
    assert(e1.drop_last() =~= e0);
    assert(e2.drop_last() =~= e1);
    assert(e3.drop_last() =~= e2);
    assert(e4.drop_last() =~= e3);
    assert(e5.drop_last() =~= e4);
    assert(e6.drop_last() =~= e5);
    assert(stage_run(e0, expected, wait_ms) is Draining);
    assert(stage_run(e1, expected, wait_ms) is Writing);
    assert(stage_run(e2, expected, wait_ms) is Starting);
    assert(stage_run(e3, expected, wait_ms) is Checking);
    assert(stage_run(e4, expected, wait_ms) is Timing);
    assert(stage_run(e5, expected, wait_ms) is Awaiting);
    text_around_a_reply_does_not_matter(before, expected, after, expected);
    assert(stage_run(e6, expected, wait_ms) == AtStage::Done(true));
    assert(e6 =~= seq![
        AtEvent::TimedOut,
        AtEvent::Written(true),
        AtEvent::ClockStarted,
        AtEvent::Elapsed(first),
        AtEvent::Elapsed(second),
        AtEvent::Received(reply),
    ]);
}

} // verus!
