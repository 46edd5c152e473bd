//! The station's screen: what is shown, and where.
use vstd::prelude::*;
use vstd::string::*;

use crate::decimal;
use crate::fixed;
use crate::fixed::TextOverflow;

verus! {

/// The width of the screen in pixels.
pub const WIDTH: i32 = 128;

/// The height of the screen in pixels.
pub const HEIGHT: i32 = 64;

/// The height of a line of text in pixels.
pub const LINE_HEIGHT: i32 = 10;

/// A measured value, given by the pattern of a single-precision number.
#[derive(Clone, Copy, Debug, PartialEq, Eq, Structural)]
pub struct Reading {
    pub bits: u32,
}

/// The state of the station as the screen shows it.
pub struct Telemetry {
    pub mod1_v: Reading,
    pub mod1_i: Reading,
    pub mod2_v: Reading,
    pub mod2_i: Reading,
    pub p: Reading,
    pub is_door_open: bool,
    pub gsm_signal_percent: u8,
    /// The message at the bottom of the screen.
    pub diag_msg: heapless::String<32>,
}

impl Clone for Telemetry {
    fn clone(&self) -> (r: Telemetry)
        ensures
            r.mod1_v == self.mod1_v,
            r.mod1_i == self.mod1_i,
            r.mod2_v == self.mod2_v,
            r.mod2_i == self.mod2_i,
            r.p == self.p,
            r.is_door_open == self.is_door_open,
            r.gsm_signal_percent == self.gsm_signal_percent,
            fixed::text32(r.diag_msg) == fixed::text32(self.diag_msg),
    {
        Telemetry {
            mod1_v: self.mod1_v,
            mod1_i: self.mod1_i,
            mod2_v: self.mod2_v,
            mod2_i: self.mod2_i,
            p: self.p,
            is_door_open: self.is_door_open,
            gsm_signal_percent: self.gsm_signal_percent,
            diag_msg: fixed::clone32(&self.diag_msg),
        }
    }
}

impl Default for Telemetry {
    /// Every reading zero, the door closed, no signal and no message.
    fn default() -> (r: Telemetry)
        ensures
            r.mod1_v.bits == 0,
            r.mod1_i.bits == 0,
            r.mod2_v.bits == 0,
            r.mod2_i.bits == 0,
            r.p.bits == 0,
            !r.is_door_open,
            r.gsm_signal_percent == 0,
            fixed::text32(r.diag_msg) == Seq::<char>::empty(),
    {
        let zero: Reading = Reading { bits: 0 };
        Telemetry {
            mod1_v: zero,
            mod1_i: zero,
            mod2_v: zero,
            mod2_i: zero,
            p: zero,
            is_door_open: false,
            gsm_signal_percent: 0,
            diag_msg: fixed::new32(),
        }
    }
}

/// What the screen is asked to show.
pub enum DisplayCmd {
    Update(Telemetry),
    Log(heapless::String<32>),
}

/// A place on the screen, counted from the upper left corner.
#[derive(Clone, Copy, Debug, PartialEq, Eq, Structural)]
pub struct Point {
    pub x: i32,
    pub y: i32,
}

/// Which part of a line of text stands at the place given.
#[derive(Clone, Copy, Debug, PartialEq, Eq, Structural)]
pub enum Anchor {
    /// Its upper edge.
    Top,
    /// The line on which the letters stand.
    Baseline,
}

/// Something to be drawn.
pub enum Shape {
    /// A line one pixel wide.
    Line { from: Point, to: Point },
    /// A rectangle, filled or as an outline one pixel wide.
    Rect { corner: Point, width: u32, height: u32, filled: bool },
    /// A message.
    Message { message: heapless::String<32>, at: Point, anchor: Anchor },
    /// A line of text with its upper edge at `at`.
    Caption { text: heapless::String<64>, at: Point },
    /// A reading with so many decimals between a label and a unit, its upper edge at `at`.
    Value { label: &'static str, reading: Reading, decimals: u8, unit: &'static str, at: Point },
}

/// What a shape looks like.
pub enum Drawn {
    Line { from: Point, to: Point },
    Rect { corner: Point, width: u32, height: u32, filled: bool },
    Text { text: Seq<char>, at: Point, anchor: Anchor },
    Value { label: Seq<char>, reading: Reading, decimals: u8, unit: Seq<char>, at: Point },
}

impl View for Shape {
    type V = Drawn;

    open spec fn view(&self) -> Drawn {
        match *self {
            Shape::Line { from, to } => Drawn::Line { from, to },
            Shape::Rect { corner, width, height, filled } => Drawn::Rect {
                corner,
                width,
                height,
                filled,
            },
            Shape::Message { message, at, anchor } => Drawn::Text {
                text: fixed::text32(message),
                at,
                anchor,
            },
            Shape::Caption { text, at } => Drawn::Text {
                text: fixed::text64(text),
                at,
                anchor: Anchor::Top,
            },
            Shape::Value { label, reading, decimals, unit, at } => Drawn::Value {
                label: label@,
                reading,
                decimals,
                unit: unit@,
                at,
            },
        }
    }
}

/// What a list of shapes looks like, in the order of drawing.
pub open spec fn drawn(shapes: Seq<Shape>) -> Seq<Drawn> {
    Seq::new(shapes.len(), |i: int| shapes[i]@)
}

/// The place at `x`, `y`.
pub open spec fn pt(x: int, y: int) -> Point {
    Point { x: x as i32, y: y as i32 }
}

/// A reading at the left edge, with its upper edge at `y`.
pub open spec fn value(
    label: Seq<char>,
    reading: Reading,
    decimals: u8,
    unit: Seq<char>,
    y: int,
) -> Drawn {
    Drawn::Value { label, reading, decimals, unit, at: pt(0, y) }
}

/// A line between two places.
pub open spec fn line(x1: int, y1: int, x2: int, y2: int) -> Drawn {
    Drawn::Line { from: pt(x1, y1), to: pt(x2, y2) }
}

/// A rectangle with its upper left corner at `x`, `y`.
pub open spec fn rect(x: int, y: int, width: u32, height: u32, filled: bool) -> Drawn {
    Drawn::Rect { corner: pt(x, y), width, height, filled }
}

/// The left column: both modules and the potential, voltages of modules with one decimal and
/// the rest with two, and a rule below each module.
pub open spec fn readings_column(t: Telemetry) -> Seq<Drawn> {
    seq![
        value("U= "@, t.mod1_v, 1, "V"@, 0),
        value("I= "@, t.mod1_i, 2, "A"@, 10),
        line(0, 20, 50, 20),
        value("U= "@, t.mod2_v, 1, "V"@, 22),
        value("I= "@, t.mod2_i, 2, "A"@, 32),
        line(0, 42, 50, 42),
        value("P= "@, t.p, 2, "V"@, 44),
    ]
}

/// How many of the four bars of the antenna a signal fills.
pub open spec fn bars(percent: int) -> int {
    if percent <= 20 {
        1
    } else if percent <= 50 {
        2
    } else if percent <= 80 {
        3
    } else {
        4
    }
}

/// The antenna: four bars on a common foot, each three pixels higher than the one before it, the
/// first ones filled.
pub open spec fn antenna(percent: int) -> Seq<Drawn> {
    Seq::new(
        4,
        |i: int| rect(112 + 4 * i, 12 - 3 * (i + 1), 3, (3 * (i + 1)) as u32, i < bars(percent)),
    )
}

/// The door: its frame with the handle on it, or the frame with the leaf swung out and the
/// handle on that.
pub open spec fn door(open: bool) -> Seq<Drawn> {
    if open {
        seq![
            rect(120, 22, 8, 12, false),
            line(120, 22, 114, 19),
            line(120, 34, 114, 36),
            line(114, 19, 114, 36),
            rect(115, 27, 2, 2, true),
        ]
    } else {
        seq![rect(116, 22, 8, 12, false), rect(121, 27, 2, 2, true)]
    }
}

/// The whole picture for a command.
pub open spec fn picture(cmd: DisplayCmd) -> Seq<Drawn> {
    match cmd {
        DisplayCmd::Log(msg) => seq![
            Drawn::Text { text: fixed::text32(msg), at: pt(0, 8), anchor: Anchor::Baseline },
        ],
        DisplayCmd::Update(t) => readings_column(t) + antenna(t.gsm_signal_percent as int) + seq![
            Drawn::Text {
                text: decimal::decimal(t.gsm_signal_percent as nat),
                at: pt(98, 2),
                anchor: Anchor::Top,
            },
        ] + door(t.is_door_open) + seq![
            Drawn::Text { text: fixed::text32(t.diag_msg), at: pt(0, 54), anchor: Anchor::Top },
        ],
    }
}

fn value_at(
    label: &'static str,
    reading: Reading,
    decimals: u8,
    unit: &'static str,
    y: i32,
) -> (r: Shape)
    ensures
        r@ == value(label@, reading, decimals, unit@, y as int),
{
    Shape::Value { label, reading, decimals, unit, at: Point { x: 0, y } }
}

fn line_between(x1: i32, y1: i32, x2: i32, y2: i32) -> (r: Shape)
    ensures
        r@ == line(x1 as int, y1 as int, x2 as int, y2 as int),
{
    Shape::Line { from: Point { x: x1, y: y1 }, to: Point { x: x2, y: y2 } }
}

fn rect_at(x: i32, y: i32, width: u32, height: u32, filled: bool) -> (r: Shape)
    ensures
        r@ == rect(x as int, y as int, width, height, filled),
{
    Shape::Rect { corner: Point { x, y }, width, height, filled }
}

fn draw_readings(shapes: &mut Vec<Shape>, t: &Telemetry)
    ensures
        drawn(final(shapes)@) == drawn(old(shapes)@) + readings_column(*t),
{
    shapes.push(value_at("U= ", t.mod1_v, 1, "V", 0));
    shapes.push(value_at("I= ", t.mod1_i, 2, "A", 10));
    shapes.push(line_between(0, 20, 50, 20));
    shapes.push(value_at("U= ", t.mod2_v, 1, "V", 22));
    shapes.push(value_at("I= ", t.mod2_i, 2, "A", 32));
    shapes.push(line_between(0, 42, 50, 42));
    shapes.push(value_at("P= ", t.p, 2, "V", 44));
    assert(drawn(shapes@) =~= drawn(old(shapes)@) + readings_column(*t));
}

/// How many of the four bars of the antenna a signal of `percent` fills.
pub fn signal_bars(percent: u8) -> (r: i32)
    ensures
        r == bars(percent as int),
{
    match percent {
        0..=20 => 1,
        21..=50 => 2,
        51..=80 => 3,
        _ => 4,
    }
}

fn draw_antenna(shapes: &mut Vec<Shape>, percent: u8)
    ensures
        drawn(final(shapes)@) == drawn(old(shapes)@) + antenna(percent as int),
{
    let full: i32 = signal_bars(percent);
    let mut i: i32 = 0;
    while i < 4
        invariant
            0 <= i <= 4,
            full == bars(percent as int),
            drawn(shapes@) == drawn(old(shapes)@) + antenna(percent as int).take(i as int),
        decreases 4 - i,
    {
        let ghost before = shapes@;
        let h: i32 = (i + 1) * 3;
        shapes.push(rect_at(112 + i * 4, 12 - h, 3, h as u32, i < full));
        assert(antenna(percent as int)[i as int] == shapes@.last()@);
        assert(drawn(shapes@) =~= drawn(before).push(shapes@.last()@));
        assert(drawn(shapes@) =~= drawn(old(shapes)@) + antenna(percent as int).take(i + 1));
        i = i + 1;
    }
    assert(antenna(percent as int).take(4) =~= antenna(percent as int));
}

fn draw_door(shapes: &mut Vec<Shape>, open: bool)
    ensures
        drawn(final(shapes)@) == drawn(old(shapes)@) + door(open),
{
    if open {
        shapes.push(rect_at(120, 22, 8, 12, false));
        shapes.push(line_between(120, 22, 114, 19));
        shapes.push(line_between(120, 34, 114, 36));
        shapes.push(line_between(114, 19, 114, 36));
        shapes.push(rect_at(115, 27, 2, 2, true));
    } else {
        shapes.push(rect_at(116, 22, 8, 12, false));
        shapes.push(rect_at(121, 27, 2, 2, true));
    }
    assert(drawn(shapes@) =~= drawn(old(shapes)@) + door(open));
}

/// The signal in percent as a line of text.
pub fn signal_caption(percent: u8) -> (r: heapless::String<64>)
    ensures
        fixed::text64(r) == decimal::decimal(percent as nat),
{
    let digits: String = decimal::format_unsigned(percent as u64);
    let mut buf: heapless::String<64> = fixed::new64();
    proof {
        decimal::decimal_is_ascii(percent as int);
        decimal::decimal_is_short(percent as nat);
        fixed::byte_len_of_ascii(digits@);
        fixed::byte_len_of_ascii(Seq::<char>::empty());
    }
    let _ = fixed::push64(&mut buf, digits.as_str());
    assert(fixed::text64(buf) =~= digits@);
    buf
}

/// The shapes that show a command, in the order of drawing.
pub fn layout(cmd: DisplayCmd) -> (r: Vec<Shape>)
    ensures
        drawn(r@) == picture(cmd),
{
    let mut shapes: Vec<Shape> = Vec::new();
    match cmd {
        DisplayCmd::Log(msg) => {
            shapes.push(
                Shape::Message { message: msg, at: Point { x: 0, y: 8 }, anchor: Anchor::Baseline },
            );
            assert(drawn(shapes@) =~= picture(cmd));
        },
        DisplayCmd::Update(data) => {
            draw_readings(&mut shapes, &data);
            draw_antenna(&mut shapes, data.gsm_signal_percent);
            let ghost before = shapes@;
            shapes.push(
                Shape::Caption {
                    text: signal_caption(data.gsm_signal_percent),
                    at: Point { x: 98, y: 2 },
                },
            );
            assert(drawn(shapes@) =~= drawn(before).push(shapes@.last()@));
            draw_door(&mut shapes, data.is_door_open);
            let ghost before = shapes@;
            shapes.push(
                Shape::Message {
                    message: data.diag_msg,
                    at: Point { x: 0, y: 54 },
                    anchor: Anchor::Top,
                },
            );
            assert(drawn(shapes@) =~= drawn(before).push(shapes@.last()@));
            assert(drawn(shapes@) =~= picture(cmd));
        },
    }
    shapes
}

/// The line of text that shows a reading: `digits` between its label and its unit.
pub fn value_line(label: &str, digits: &str, unit: &str) -> (r: Result<
    heapless::String<64>,
    TextOverflow,
>)
    ensures
        r is Ok <==> fixed::byte_len(label@ + digits@ + unit@) <= 64,
        r matches Ok(buf) ==> fixed::text64(buf) == label@ + digits@ + unit@,
{
    let mut buf: heapless::String<64> = fixed::new64();
    proof {
        fixed::byte_len_of_ascii(Seq::<char>::empty());
        fixed::utf8_of_concatenation(label@, digits@);
        fixed::utf8_of_concatenation(label@ + digits@, unit@);
    }
    if fixed::push64(&mut buf, label).is_err() {
        return Err(TextOverflow);
    }
    assert(fixed::text64(buf) =~= label@);
    if fixed::push64(&mut buf, digits).is_err() {
        return Err(TextOverflow);
    }
    if fixed::push64(&mut buf, unit).is_err() {
        return Err(TextOverflow);
    }
    Ok(buf)
}

/// What is to be done on the screen.
pub enum ScreenStep {
    /// Blank the picture that is made up.
    Clear,
    /// Draw the shape into it.
    Draw(Shape),
    /// Show the picture.
    Flush,
}

/// The steps that show a command on the screen: nothing is left of the picture before, and the
/// new one is shown when all of it is drawn.
pub fn frame(cmd: DisplayCmd) -> (r: Vec<ScreenStep>)
    ensures
        r@.len() == picture(cmd).len() + 2,
        r@[0] is Clear,
        forall|i: int|
            1 <= i <= picture(cmd).len() ==> (#[trigger] r@[i] matches ScreenStep::Draw(shape)
                && shape@ == picture(cmd)[i - 1]),
        r@.last() is Flush,
{
    let mut shapes: Vec<Shape> = layout(cmd);
    let ghost all = shapes@;
    let mut steps: Vec<ScreenStep> = Vec::new();
    steps.push(ScreenStep::Clear);
    while shapes.len() > 0
        invariant
            shapes@.len() <= all.len(),
            shapes@ == all.skip(all.len() - shapes@.len()),
            steps@.len() == all.len() - shapes@.len() + 1,
            steps@[0] is Clear,
            forall|i: int|
                1 <= i < steps@.len() ==> #[trigger] steps@[i] == ScreenStep::Draw(all[i - 1]),
        decreases shapes@.len(),
    {
        steps.push(ScreenStep::Draw(shapes.remove(0)));
    }
    steps.push(ScreenStep::Flush);
    proof {
        assert forall|i: int| 1 <= i <= picture(cmd).len() implies (
        #[trigger] steps@[i] matches ScreenStep::Draw(shape) && shape@ == picture(cmd)[i - 1]) by {
            assert(drawn(all)[i - 1] == all[i - 1]@);
        }
    }
    steps
}

/// Whether a shape begins and, but for the ends of texts, stays on the screen.
pub open spec fn on_screen(d: Drawn) -> bool {
    match d {
        Drawn::Line { from, to } => on_screen_point(from) && on_screen_point(to),
        Drawn::Rect { corner, width, height, .. } => on_screen_point(corner) && corner.x + width
            <= WIDTH && corner.y + height <= HEIGHT,
        Drawn::Text { at, anchor, .. } => on_screen_point(at) && (anchor == Anchor::Top ==> at.y
            + LINE_HEIGHT <= HEIGHT),
        Drawn::Value { at, .. } => on_screen_point(at) && at.y + LINE_HEIGHT <= HEIGHT,
    }
}

/// Whether a place is on the screen.
pub open spec fn on_screen_point(p: Point) -> bool {
    0 <= p.x < WIDTH && 0 <= p.y < HEIGHT
}

/// Whatever is shown, everything that is drawn begins on the screen, lines and boxes lie wholly
/// on it, and what is written from its top down has the height of a line left. How far a text
/// reaches to the right is not said.
pub proof fn picture_stays_on_screen(cmd: DisplayCmd)
    ensures
        forall|i: int| 0 <= i < picture(cmd).len() ==> on_screen(#[trigger] picture(cmd)[i]),
{
    if let DisplayCmd::Update(t) = cmd {
        let a = readings_column(t);
        let b = antenna(t.gsm_signal_percent as int);
        let c = door(t.is_door_open);
        assert(forall|i: int| 0 <= i < a.len() ==> on_screen(#[trigger] a[i]));
        assert(forall|i: int| 0 <= i < b.len() ==> on_screen(#[trigger] b[i]));
        assert(forall|i: int| 0 <= i < c.len() ==> on_screen(#[trigger] c[i]));
    }
}

/// Lines of the left column do not run into each other, nor into the message below them.
pub proof fn left_column_lines_keep_apart(t: Telemetry, i: int, j: int, y1: int, y2: int)
    requires
        0 <= i < j < 7,
        readings_column(t)[i] matches Drawn::Value { at, .. } && at.y == y1,
        readings_column(t)[j] matches Drawn::Value { at, .. } && at.y == y2,
    ensures
        y1 + LINE_HEIGHT <= y2,
        y2 + LINE_HEIGHT <= 54,
{
}

/// The antenna always has one bar filled at least, filled bars come first, a stronger signal
/// never fills fewer, and the bars stand side by side on one foot without touching.
pub proof fn antenna_shows_the_signal(percent: int, stronger: int)
    requires
        percent <= stronger,
    ensures
        1 <= bars(percent) <= bars(stronger) <= 4,
        antenna(percent).len() == 4,
        forall|i: int| 0 <= i < 4 ==> (#[trigger] antenna(percent)[i]) is Rect,
        forall|i: int|
            0 <= i < 4 ==> ((#[trigger] antenna(percent)[i])->filled <==> i < bars(percent)),
        forall|i: int|
            0 <= i < 4 ==> (#[trigger] antenna(percent)[i])->corner.y + antenna(percent)[i]->height
                == 12,
        forall|i: int, j: int|
            0 <= i < j < 4 ==> (#[trigger] antenna(percent)[i])->corner.x
                + antenna(percent)[i]->width < (#[trigger] antenna(percent)[j])->corner.x,
{
}

/// The left column of every picture of the station: each reading under its own label, with its
/// unit, its number of decimals and in its place.
pub proof fn readings_stand_in_their_places(t: Telemetry)
    ensures
        picture(DisplayCmd::Update(t)).len() == (if t.is_door_open { 18int } else { 15int }),
        picture(DisplayCmd::Update(t))[0] == (Drawn::Value {
            label: "U= "@,
            reading: t.mod1_v,
            decimals: 1,
            unit: "V"@,
            at: Point { x: 0, y: 0 },
        }),
        picture(DisplayCmd::Update(t))[1] == (Drawn::Value {
            label: "I= "@,
            reading: t.mod1_i,
            decimals: 2,
            unit: "A"@,
            at: Point { x: 0, y: 10 },
        }),
        picture(DisplayCmd::Update(t))[2] == (Drawn::Line {
            from: Point { x: 0, y: 20 },
            to: Point { x: 50, y: 20 },
        }),
        picture(DisplayCmd::Update(t))[3] == (Drawn::Value {
            label: "U= "@,
            reading: t.mod2_v,
            decimals: 1,
            unit: "V"@,
            at: Point { x: 0, y: 22 },
        }),
        picture(DisplayCmd::Update(t))[4] == (Drawn::Value {
            label: "I= "@,
            reading: t.mod2_i,
            decimals: 2,
            unit: "A"@,
            at: Point { x: 0, y: 32 },
        }),
        picture(DisplayCmd::Update(t))[5] == (Drawn::Line {
            from: Point { x: 0, y: 42 },
            to: Point { x: 50, y: 42 },
        }),
        picture(DisplayCmd::Update(t))[6] == (Drawn::Value {
            label: "P= "@,
            reading: t.p,
            decimals: 2,
            unit: "V"@,
            at: Point { x: 0, y: 44 },
        }),
{
}

/// Beside the readings every picture of the station has the four bars of the antenna, the signal in
/// percent, and, at the end, the message in the line at the bottom.
pub proof fn signal_and_message_stand_in_their_places(t: Telemetry, i: int)
    requires
        0 <= i < 4,
    ensures
        ({
            let percent = t.gsm_signal_percent;
            let full: int = if percent > 80 {
                4
            } else if percent > 50 {
                3
            } else if percent > 20 {
                2
            } else {
                1
            };
            picture(DisplayCmd::Update(t))[7 + i] == (Drawn::Rect {
                corner: Point { x: (112 + 4 * i) as i32, y: (9 - 3 * i) as i32 },
                width: 3,
                height: (3 + 3 * i) as u32,
                filled: i < full,
            })
        }),
        picture(DisplayCmd::Update(t))[11] matches Drawn::Text { text, at, anchor } && at == (
        Point { x: 98, y: 2 }) && anchor == Anchor::Top && decimal::digits_value(text)
            == t.gsm_signal_percent && text == decimal::decimal(t.gsm_signal_percent as nat),
        picture(DisplayCmd::Update(t)).last() == (Drawn::Text {
            text: fixed::text32(t.diag_msg),
            at: Point { x: 0, y: 54 },
            anchor: Anchor::Top,
        }),
{
    decimal::decimal_reads_back(t.gsm_signal_percent as nat);
}

/// The door is drawn with its frame and its handle; only the leaf of an open one is seen from the
/// side, swung out of the frame to the left, with the handle on it.
pub proof fn door_is_drawn_as_it_stands(t: Telemetry)
    ensures
        ({
            let shown = picture(DisplayCmd::Update(t)).subrange(
                12,
                picture(DisplayCmd::Update(t)).len() - 1,
            );
            &&& !t.is_door_open ==> shown == seq![
                Drawn::Rect {
                    corner: Point { x: 116, y: 22 },
                    width: 8,
                    height: 12,
                    filled: false,
                },
                Drawn::Rect { corner: Point { x: 121, y: 27 }, width: 2, height: 2, filled: true },
            ]
            &&& t.is_door_open ==> shown == seq![
                Drawn::Rect {
                    corner: Point { x: 120, y: 22 },
                    width: 8,
                    height: 12,
                    filled: false,
                },
                Drawn::Line { from: Point { x: 120, y: 22 }, to: Point { x: 114, y: 19 } },
                Drawn::Line { from: Point { x: 120, y: 34 }, to: Point { x: 114, y: 36 } },
                Drawn::Line { from: Point { x: 114, y: 19 }, to: Point { x: 114, y: 36 } },
                Drawn::Rect { corner: Point { x: 115, y: 27 }, width: 2, height: 2, filled: true },
            ]
        }),
{
    let shown = picture(DisplayCmd::Update(t)).subrange(
        12,
        picture(DisplayCmd::Update(t)).len() - 1,
    );
    assert(shown =~= door(t.is_door_open));
}

/// A log line is shown alone, on the first line of the screen, and unchanged.
pub proof fn log_line_is_shown_alone(msg: heapless::String<32>)
    ensures
        picture(DisplayCmd::Log(msg)).len() == 1,
        picture(DisplayCmd::Log(msg))[0] == (Drawn::Text {
            text: fixed::text32(msg),
            at: Point { x: 0, y: 8 },
            anchor: Anchor::Baseline,
        }),
{
}

/// A signal fills one bar up to a fifth, two up to a half, three up to four fifths, and four
/// above.
pub proof fn bars_grow_with_the_signal(percent: int)
    ensures
        bars(percent) >= 2 <==> percent > 20,
        bars(percent) >= 3 <==> percent > 50,
        bars(percent) >= 4 <==> percent > 80,
        1 <= bars(percent) <= 4,
{
}

} // verus!
