//! The rotary knob: turned faster, it moves the duty cycle in larger steps.
use vstd::prelude::*;

verus! {

/// How often the knob is looked at.
pub const POLL_MS: u64 = 20;

/// What a knob is about.
pub struct Knob {
    /// The counter when it was last looked at.
    pub last_count: u16,
    /// The position in quarter steps.
    pub raw: int,
    /// The duty cycle set last.
    pub duty: int,
    /// The highest position in quarter steps.
    pub limit: int,
    /// Whether the button was down when last looked at.
    pub pressed: bool,
}

/// How far a 16-bit counter has moved from `last` to `count`, going the shorter way round.
pub open spec fn moved(last: u16, count: u16) -> int {
    let ahead = (count - last) % 0x1_0000;
    if ahead < 0x8000 {
        ahead
    } else {
        ahead - 0x1_0000
    }
}

/// `d` without its sign.
pub open spec fn magnitude(d: int) -> int {
    if d < 0 {
        -d
    } else {
        d
    }
}

/// The whole clicks in a movement of `d` ticks, four to a click, but never none.
pub open spec fn clicks(d: int) -> int {
    if magnitude(d) / 4 < 1 {
        1
    } else {
        magnitude(d) / 4
    }
}

/// How many quarter steps each tick counts for: ten for every click of the movement.
pub open spec fn multiplier(d: int) -> int {
    10 * clicks(d)
}

/// The movement in quarter steps.
pub open spec fn accelerated(d: int) -> int {
    d * multiplier(d)
}

/// `x` brought between zero and `limit`.
pub open spec fn clamped(x: int, limit: int) -> int {
    if x < 0 {
        0
    } else if x > limit {
        limit
    } else {
        x
    }
}

/// Whether the arithmetic of a movement to `count` stays within its integers: there is a range
/// to move in, and neither the movement nor the position it leads to needs more than 32 bits.
pub open spec fn in_range(k: Knob, count: u16) -> bool {
    let d = moved(k.last_count, count);
    count == k.last_count || (k.limit >= 0 && d != -0x8000 && i32::MIN <= accelerated(d) <= i32::MAX
        && i32::MIN <= k.raw + accelerated(d) <= i32::MAX)
}

/// The knob after its counter was read as `count`.
pub open spec fn turned(k: Knob, count: u16) -> Knob {
    if count == k.last_count {
        k
    } else {
        let raw = clamped(k.raw + accelerated(moved(k.last_count, count)), k.limit);
        Knob { last_count: count, raw, duty: raw / 4, ..k }
    }
}

/// What every knob keeps: it stands within its range, and the duty cycle is its position in
/// whole steps. A knob without a range stands at zero.
pub open spec fn sound(k: Knob) -> bool {
    &&& i32::MIN <= k.limit <= i32::MAX
    &&& 0 <= k.raw <= i32::MAX
    &&& k.limit >= 0 ==> k.raw <= k.limit
    &&& k.limit < 0 ==> k.raw == 0
    &&& k.duty == k.raw / 4
}

/// A new duty cycle, with the clicks and the multiplier that led to it.
#[derive(Clone, Copy, Debug, PartialEq, Eq, Structural)]
pub struct DutyChange {
    pub duty: u32,
    pub speed_clicks: i32,
    pub step_multiplier: i32,
}

/// The knob as it is kept between two looks.
pub struct Encoder {
    last_count: u16,
    absolute_raw: i32,
    last_ui_position: u32,
    limit_max: i32,
    btn_was_pressed: bool,
}

impl View for Encoder {
    type V = Knob;

    closed spec fn view(&self) -> Knob {
        Knob {
            last_count: self.last_count,
            raw: self.absolute_raw as int,
            duty: self.last_ui_position as int,
            limit: self.limit_max as int,
            pressed: self.btn_was_pressed,
        }
    }
}

fn signed_difference(last: u16, count: u16) -> (d: i16)
    ensures
        d == moved(last, count),
{
    let ahead: u16 = count.wrapping_sub(last);
    proof {
        assert(ahead < 0x8000 ==> ahead as i16 == ahead) by (bit_vector);
        assert(ahead >= 0x8000 ==> ahead as i16 == ahead - 0x1_0000) by (bit_vector);
    }
    #[verifier::truncate]
    (ahead as i16)
}

proof fn lemma_accelerated_bound(d: int)
    requires
        -0x8000 <= d < 0x8000,
    ensures
        10 <= multiplier(d) <= 0x8000 * 10,
        -0x8000 * 0x8000 * 10 <= accelerated(d) <= 0x8000 * 0x8000 * 10,
{
    let m = multiplier(d);
    assert(-0x8000 * (0x8000 * 10) <= d * m <= 0x8000 * (0x8000 * 10)) by (nonlinear_arith)
        requires
            -0x8000 <= d <= 0x8000,
            0 <= m <= 0x8000 * 10,
    ;
}

impl Encoder {
    /// A knob at rest at zero, whose counter stands at `count`, for duty cycles up to `max_duty`.
    /// Where four times `max_duty` does not fit a signed number of 32 bits it has no range.
    pub fn new(count: u16, max_duty: u32) -> (r: Encoder)
        requires
            max_duty * 4 <= u32::MAX,
        ensures
            sound(r@),
            r@ == (Knob {
                last_count: count,
                raw: 0,
                duty: 0,
                limit: if max_duty * 4 <= i32::MAX {
                    max_duty * 4
                } else {
                    max_duty * 4 - 0x1_0000_0000
                },
                pressed: false,
            }),
    {
        let limit: u32 = max_duty * 4;
        proof {
            assert(limit <= 0x7FFF_FFFF ==> limit as i32 == limit) by (bit_vector);
            assert(limit > 0x7FFF_FFFF ==> limit as i32 == limit - 0x1_0000_0000) by (bit_vector);
        }
        Encoder {
            last_count: count,
            absolute_raw: 0,
            last_ui_position: 0,
            limit_max: #[verifier::truncate]
            (limit as i32),
            btn_was_pressed: false,
        }
    }

    /// Whether a movement to `count` can be taken in.
    pub fn can_turn(&self, count: u16) -> (r: bool)
        requires
            sound(self@),
        ensures
            r == in_range(self@, count),
    {
        if count == self.last_count {
            return true;
        }
        let delta: i64 = signed_difference(self.last_count, count) as i64;
        if self.limit_max < 0 || delta == -0x8000 {
            return false;
        }
        let size: i64 = if delta < 0 { -delta } else { delta };
        let speed: i64 = if size / 4 < 1 { 1 } else { size / 4 };
        proof {
            lemma_accelerated_bound(delta as int);
        }
        let step: i64 = 10 * speed;
        let movement: i64 = delta * step;
        let target: i64 = self.absolute_raw as i64 + movement;
        -0x8000_0000 <= movement && movement <= 0x7FFF_FFFF && -0x8000_0000 <= target && target
            <= 0x7FFF_FFFF
    }

    /// Takes in the counter. The duty cycle is reported where it has changed.
    pub fn turn(&mut self, count: u16) -> (r: Option<DutyChange>)
        requires
            sound(old(self)@),
            in_range(old(self)@, count),
        ensures
            final(self)@ == turned(old(self)@, count),
            sound(final(self)@),
            r is Some <==> final(self)@.duty != old(self)@.duty,
            r matches Some(change) ==> {
                let d = moved(old(self)@.last_count, count);
                &&& change.duty == final(self)@.duty
                &&& change.speed_clicks == clicks(d)
                &&& change.step_multiplier == multiplier(d)
                &&& change.speed_clicks >= 1
                &&& change.step_multiplier == 10 * change.speed_clicks
                &&& -4 < d < 4 ==> change.speed_clicks == 1
                &&& d >= 4 ==> 4 * change.speed_clicks <= d < 4 * change.speed_clicks + 4
                &&& d <= -4 ==> 4 * change.speed_clicks <= -d < 4 * change.speed_clicks + 4
            },
    {
        if count == self.last_count {
            return None;
        }
        let delta: i16 = signed_difference(self.last_count, count);
        proof {
            lemma_accelerated_bound(delta as int);
        }
        self.last_count = count;
        let size: i16 = if delta < 0 { -delta } else { delta };
        let speed_clicks: i32 = if size / 4 < 1 { 1 } else { (size / 4) as i32 };
        let step_multiplier: i32 = 10 * speed_clicks;
        let accelerated_delta: i32 = (delta as i32) * step_multiplier;
        let target: i32 = self.absolute_raw + accelerated_delta;
        self.absolute_raw = if target < 0 {
            0
        } else if target > self.limit_max {
            self.limit_max
        } else {
            target
        };
        let ui_position: u32 = (self.absolute_raw / 4) as u32;
        if ui_position != self.last_ui_position {
            self.last_ui_position = ui_position;
            Some(DutyChange { duty: ui_position, speed_clicks, step_multiplier })
        } else {
            None
        }
    }

    /// Takes in whether the button is down, and says whether it has just been pressed.
    pub fn press(&mut self, is_pressed: bool) -> (r: bool)
        ensures
            r == (is_pressed && !old(self)@.pressed),
            final(self)@ == (Knob { pressed: is_pressed, ..old(self)@ }),
    {
        let fresh: bool = is_pressed && !self.btn_was_pressed;
        self.btn_was_pressed = is_pressed;
        fresh
    }
}

/// The duty cycle never leaves its range, whatever the counter does.
pub proof fn duty_stays_in_range(k: Knob, count: u16, max_duty: int)
    requires
        sound(k),
        k.limit == max_duty * 4,
        max_duty >= 0,
    ensures
        0 <= k.duty <= max_duty,
        0 <= turned(k, count).duty <= max_duty,
        sound(turned(k, count)),
        turned(k, count).limit == k.limit,
{
}

/// Only how far the counter has moved matters, not where it stands: the same movement from
/// another place, over the counter's end or not, counts the same.
pub proof fn counter_may_wrap(last: u16, count: u16, by: u16)
    ensures
        moved(
            ((last + by) % 0x1_0000) as u16,
            ((count + by) % 0x1_0000) as u16,
        ) == moved(last, count),
        moved(last, count) == 0 <==> count == last,
{
}

/// Turning the other way by as much moves as far back.
pub proof fn acceleration_is_symmetric(d: int)
    ensures
        accelerated(-d) == -accelerated(d),
        d > 0 ==> accelerated(d) >= 10 * d,
{
    let m = multiplier(d);
    assert(magnitude(-d) == magnitude(d));
    assert((-d) * m == -(d * m)) by (nonlinear_arith);
    if d > 0 {
        assert(d * m >= 10 * d) by (nonlinear_arith)
            requires
                d > 0,
                m >= 10,
        ;
    }
}

/// Turning the knob forward never lowers the position, and turning it back never raises it.
pub proof fn knob_follows_the_hand(k: Knob, count: u16)
    requires
        sound(k),
        k.limit >= 0,
    ensures
        moved(k.last_count, count) > 0 ==> turned(k, count).raw >= k.raw,
        moved(k.last_count, count) < 0 ==> turned(k, count).raw <= k.raw,
{
    let d = moved(k.last_count, count);
    acceleration_is_symmetric(d);
    acceleration_is_symmetric(-d);
}

/// A movement that met neither end of the range is undone by turning back to where the counter
/// stood.
pub proof fn turning_back_undoes(k: Knob, count: u16)
    requires
        sound(k),
        moved(k.last_count, count) != -0x8000,
        0 <= k.raw + accelerated(moved(k.last_count, count)) <= k.limit,
    ensures
        turned(turned(k, count), k.last_count) == k,
{
    let d = moved(k.last_count, count);
    acceleration_is_symmetric(d);
    assert(moved(count, k.last_count) == -d);
}

/// How far the counter has moved is the one number of 16 signed bits that leads from where it
/// stood to where it stands, round its end if need be.
pub proof fn movement_leads_to_the_count(last: u16, count: u16, d: int)
    requires
        -0x8000 <= d < 0x8000,
    ensures
        -0x8000 <= moved(last, count) < 0x8000,
        moved(last, count) == d <==> (last + d) % 0x1_0000 == count,
{
}

/// A turn counts by its clicks: with `c` whole clicks of four ticks in it, or one where it is
/// less than a click, every tick moves the position by ten times `c` quarter steps, as far as the
/// range goes, and the duty cycle is the position in whole steps of four.
pub proof fn turn_counts_by_its_clicks(k: Knob, count: u16, d: int, c: int)
    requires
        sound(k),
        k.limit >= 0,
        -0x8000 <= d < 0x8000,
        (k.last_count + d) % 0x1_0000 == count,
        c >= 1,
        c == 1 || 4 * c <= d || 4 * c <= -d,
        -4 * (c + 1) < d < 4 * (c + 1),
    ensures
        accelerated(d) == d * (10 * c),
        0 <= k.raw + d * (10 * c) <= k.limit ==> turned(k, count).raw == k.raw + d * (10 * c),
        k.raw + d * (10 * c) < 0 ==> turned(k, count).raw == 0,
        k.raw + d * (10 * c) > k.limit ==> turned(k, count).raw == k.limit,
        turned(k, count).last_count == count,
        turned(k, count).limit == k.limit,
        turned(k, count).pressed == k.pressed,
        4 * turned(k, count).duty <= turned(k, count).raw < 4 * turned(k, count).duty + 4,
{
    movement_leads_to_the_count(k.last_count, count, d);
    assert(clicks(d) == c);
    if d == 0 {
        assert(0 * (10 * c) == 0);
    }
}

/// A movement can be taken in exactly where it is none, or there is a range, the movement is not
/// the one without a counterpart on the other side, and neither it nor the position it leads to
/// needs more than 32 bits.
pub proof fn turn_needs_room(k: Knob, count: u16, d: int, c: int)
    requires
        -0x8000 <= d < 0x8000,
        (k.last_count + d) % 0x1_0000 == count,
        c >= 1,
        c == 1 || 4 * c <= d || 4 * c <= -d,
        -4 * (c + 1) < d < 4 * (c + 1),
    ensures
        in_range(k, count) <==> d == 0 || (k.limit >= 0 && d > -0x8000 && -0x8000_0000 <= d * (10
            * c) <= 0x7FFF_FFFF && -0x8000_0000 <= k.raw + d * (10 * c) <= 0x7FFF_FFFF),
{
    movement_leads_to_the_count(k.last_count, count, d);
    movement_leads_to_the_count(k.last_count, count, 0);
    assert(clicks(d) == c);
}

/// Two clicks at once move four times as far as one, three nine times: the distance grows with
/// the square of the clicks in a turn.
pub proof fn faster_turns_move_farther(c: int)
    requires
        c >= 1,
    ensures
        accelerated(4 * c) == 40 * (c * c),
        accelerated(-4 * c) == -40 * (c * c),
{
    assert(clicks(4 * c) == c);
    assert(clicks(-4 * c) == c);
    assert((4 * c) * (10 * c) == 40 * (c * c)) by (nonlinear_arith);
    assert((-4 * c) * (10 * c) == -40 * (c * c)) by (nonlinear_arith);
}

/// The knob is looked at fifty times a second.
pub proof fn knob_is_looked_at_often()
    ensures
        50 * POLL_MS == 1000,
{
}

} // verus!
