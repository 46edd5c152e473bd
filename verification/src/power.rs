//! The power supply: where the power comes from, how the battery charges, and the lights that
//! show both.
use vstd::prelude::*;

verus! {

/// How long a level must have settled before it is read.
pub const DEBOUNCE_MS: u64 = 50;

/// The longest time between two edges of a charger that blinks.
pub const BLINK_MS: u64 = 600;

/// Where the power comes from.
#[derive(Clone, Copy, Debug, PartialEq, Eq, Structural)]
pub enum PowerSource {
    External,
    Battery,
}

/// The source that the power-good line shows: it is low while external power is there.
pub open spec fn shown_source(pg_low: bool) -> PowerSource {
    if pg_low {
        PowerSource::External
    } else {
        PowerSource::Battery
    }
}

/// Where watching the power-good line stands.
#[derive(Clone, Copy, Debug, PartialEq, Eq, Structural)]
pub enum PowerStage {
    /// The line is read.
    Reading,
    /// An edge is awaited.
    Waiting,
    /// The level settles.
    Settling,
}

/// What watching the power-good line asks to be done next.
#[derive(Clone, Copy, Debug, PartialEq, Eq, Structural)]
pub enum PowerAction {
    ReadLine,
    AwaitEdge,
    Sleep(u64),
}

/// What came of an action.
#[derive(Clone, Copy, Debug, PartialEq, Eq, Structural)]
pub enum PowerEvent {
    /// The line was low, or high.
    Low(bool),
    Edge,
    Slept,
}

/// Watches the power-good line.
#[derive(Clone, Copy, Debug, PartialEq, Eq, Structural)]
pub struct PowerMonitor {
    pub stage: PowerStage,
    /// The source found last. Before the line was read for the first time it is external.
    pub source: PowerSource,
}

/// The monitor after `event`. An event that does not answer the action changes nothing.
pub open spec fn power_after(m: PowerMonitor, event: PowerEvent) -> PowerMonitor {
    match (m.stage, event) {
        (PowerStage::Reading, PowerEvent::Low(low)) => PowerMonitor {
            stage: PowerStage::Waiting,
            source: shown_source(low),
        },
        (PowerStage::Waiting, PowerEvent::Edge) => PowerMonitor {
            stage: PowerStage::Settling,
            ..m
        },
        (PowerStage::Settling, PowerEvent::Slept) => PowerMonitor {
            stage: PowerStage::Reading,
            ..m
        },
        _ => m,
    }
}

impl PowerMonitor {
    /// A monitor that has not read the line yet.
    pub fn new() -> (r: PowerMonitor)
        ensures
            r == (PowerMonitor { stage: PowerStage::Reading, source: PowerSource::External }),
    {
        PowerMonitor { stage: PowerStage::Reading, source: PowerSource::External }
    }

    /// What is to be done now.
    pub fn action(&self) -> (r: PowerAction)
        ensures
            r == (match self.stage {
                PowerStage::Reading => PowerAction::ReadLine,
                PowerStage::Waiting => PowerAction::AwaitEdge,
                PowerStage::Settling => PowerAction::Sleep(DEBOUNCE_MS),
            }),
    {
        match self.stage {
            PowerStage::Reading => PowerAction::ReadLine,
            PowerStage::Waiting => PowerAction::AwaitEdge,
            PowerStage::Settling => PowerAction::Sleep(DEBOUNCE_MS),
        }
    }

    /// Takes in what came of the action.
    pub fn step(&mut self, event: PowerEvent)
        ensures
            *final(self) == power_after(*old(self), event),
    {
        match event {
            PowerEvent::Low(low) => {
                if self.stage == PowerStage::Reading {
                    self.source = if low { PowerSource::External } else { PowerSource::Battery };
                    self.stage = PowerStage::Waiting;
                }
            },
            PowerEvent::Edge => {
                if self.stage == PowerStage::Waiting {
                    self.stage = PowerStage::Settling;
                }
            },
            PowerEvent::Slept => {
                if self.stage == PowerStage::Settling {
                    self.stage = PowerStage::Reading;
                }
            },
        }
    }
}

/// The source changes only by a reading of the line, and then is what the line shows; after the
/// first reading, each follows an edge and the time it takes to settle.
pub proof fn source_is_read_from_a_settled_line(m: PowerMonitor, event: PowerEvent)
    ensures
        power_after(m, event).source != m.source ==> m.stage is Reading && event is Low,
        m.stage is Reading ==> forall|low: bool|
            (#[trigger] power_after(m, PowerEvent::Low(low))).source == shown_source(low),
        m.stage !is Reading && power_after(m, event).stage is Reading ==> m.stage is Settling
            && event is Slept,
        m.stage !is Settling && power_after(m, event).stage is Settling ==> m.stage is Waiting
            && event is Edge,
{
}

/// What is seen of the charger's status line.
#[derive(Clone, Copy, Debug, PartialEq, Eq, Structural)]
pub enum StatEvent {
    /// The line changed.
    Edge,
    /// The line did not change for as long as it was watched.
    Quiet,
}

/// What watching the charger's status line asks to be done next.
#[derive(Clone, Copy, Debug, PartialEq, Eq, Structural)]
pub enum StatAction {
    /// Await an edge, however long it takes.
    AwaitEdge,
    /// Await an edge for at most so many milliseconds.
    AwaitEdgeFor(u64),
}

/// What a step of watching the charger's status line has to tell.
#[derive(Clone, Copy, Debug, PartialEq, Eq, Structural)]
pub enum StatReport {
    Nothing,
    /// The charger has begun to blink: it reports a fault.
    FaultBegan,
    /// The line has settled: its level tells whether the battery charges.
    Settled,
}

/// Watches the charger's status line, on which edges in quick succession mean a fault.
#[derive(Clone, Copy, Debug, PartialEq, Eq, Structural)]
pub struct ChargeMonitor {
    /// Whether an edge has been seen and the next one is awaited for a limited time.
    pub watching: bool,
    /// Whether the charger reports a fault.
    pub batt_error: bool,
}

/// The monitor after `event`. Without an edge before it, silence changes nothing.
pub open spec fn charge_after(m: ChargeMonitor, event: StatEvent) -> ChargeMonitor {
    match event {
        StatEvent::Edge => ChargeMonitor { watching: true, batt_error: m.batt_error || m.watching },
        StatEvent::Quiet => if m.watching {
            ChargeMonitor { watching: false, batt_error: false }
        } else {
            m
        },
    }
}

impl ChargeMonitor {
    /// A monitor that has seen no edge.
    pub fn new() -> (r: ChargeMonitor)
        ensures
            r == (ChargeMonitor { watching: false, batt_error: false }),
    {
        ChargeMonitor { watching: false, batt_error: false }
    }

    /// What is to be done now.
    pub fn action(&self) -> (r: StatAction)
        ensures
            r == (if self.watching {
                StatAction::AwaitEdgeFor(BLINK_MS)
            } else {
                StatAction::AwaitEdge
            }),
    {
        if self.watching {
            StatAction::AwaitEdgeFor(BLINK_MS)
        } else {
            StatAction::AwaitEdge
        }
    }

    /// Takes in what was seen.
    pub fn step(&mut self, event: StatEvent) -> (r: StatReport)
        ensures
            *final(self) == charge_after(*old(self), event),
            r == (if final(self).batt_error && !old(self).batt_error {
                StatReport::FaultBegan
            } else if old(self).watching && event == StatEvent::Quiet {
                StatReport::Settled
            } else {
                StatReport::Nothing
            }),
    {
        match event {
            StatEvent::Edge => {
                if !self.watching {
                    self.watching = true;
                    StatReport::Nothing
                } else if !self.batt_error {
                    self.batt_error = true;
                    StatReport::FaultBegan
                } else {
                    StatReport::Nothing
                }
            },
            StatEvent::Quiet => {
                if self.watching {
                    self.watching = false;
                    self.batt_error = false;
                    StatReport::Settled
                } else {
                    StatReport::Nothing
                }
            },
        }
    }
}

/// A new monitor after `events`.
pub open spec fn charge_run(events: Seq<StatEvent>) -> ChargeMonitor
    decreases events.len(),
{
    if events.len() == 0 {
        ChargeMonitor { watching: false, batt_error: false }
    } else {
        charge_after(charge_run(events.drop_last()), events.last())
    }
}

/// How many edges `events` ends in, one after the other.
pub open spec fn edges_in_a_row(events: Seq<StatEvent>) -> nat
    decreases events.len(),
{
    if events.len() == 0 || events.last() != StatEvent::Edge {
        0
    } else {
        edges_in_a_row(events.drop_last()) + 1
    }
}

/// A fault is reported exactly while at least two edges in a row are the last that was seen; one
/// edge alone is a change of level, and silence ends the fault.
pub proof fn fault_means_edges_in_a_row(events: Seq<StatEvent>)
    ensures
        charge_run(events).watching <==> edges_in_a_row(events) >= 1,
        charge_run(events).batt_error <==> edges_in_a_row(events) >= 2,
    decreases events.len(),
{
    if events.len() > 0 {
        fault_means_edges_in_a_row(events.drop_last());
    }
}

/// How long the lights stay as they are while nothing blinks.
pub const STEADY_MS: u64 = 100;

/// How long a blinking light stays as it is.
pub const BLINK_HALF_MS: u64 = 500;

/// How the two power lights are to be set, and for how long.
#[derive(Clone, Copy, Debug, PartialEq, Eq, Structural)]
pub struct Lights {
    /// The light that shows external power.
    pub external: bool,
    /// The light that shows the battery.
    pub battery: bool,
    pub hold_ms: u64,
}

/// Sets the two power lights.
#[derive(Clone, Copy, Debug, PartialEq, Eq, Structural)]
pub struct LedManager {
    /// Whether a blinking light is to be lit next.
    pub blink_state: bool,
}

/// The lights: on external power its light is lit, and the battery's blinks on a fault of the
/// charger and is dark otherwise; on battery power the battery's alone is lit.
pub open spec fn shown_lights(source: PowerSource, batt_error: bool, blink_state: bool) -> Lights {
    match source {
        PowerSource::External => if batt_error {
            Lights { external: true, battery: blink_state, hold_ms: BLINK_HALF_MS }
        } else {
            Lights { external: true, battery: false, hold_ms: STEADY_MS }
        },
        PowerSource::Battery => Lights { external: false, battery: true, hold_ms: STEADY_MS },
    }
}

impl LedManager {
    /// A manager whose blinking light starts dark.
    pub fn new() -> (r: LedManager)
        ensures
            r == (LedManager { blink_state: false }),
    {
        LedManager { blink_state: false }
    }

    /// The lights for the power source and the charger's state.
    pub fn lights(&mut self, source: PowerSource, batt_error: bool) -> (r: Lights)
        ensures
            r == shown_lights(source, batt_error, old(self).blink_state),
            final(self).blink_state == (if source == PowerSource::External && batt_error {
                !old(self).blink_state
            } else {
                old(self).blink_state
            }),
    {
        if source == PowerSource::External {
            if batt_error {
                let lit: bool = self.blink_state;
                self.blink_state = !lit;
                Lights { external: true, battery: lit, hold_ms: BLINK_HALF_MS }
            } else {
                Lights { external: true, battery: false, hold_ms: STEADY_MS }
            }
        } else {
            Lights { external: false, battery: true, hold_ms: STEADY_MS }
        }
    }
}

/// The lights tell the states apart: the external light is lit exactly on external power, at
/// least one light is always lit, and only a fault on external power blinks, from one time to
/// the next.
pub proof fn lights_tell_the_state(source: PowerSource, batt_error: bool, blink_state: bool)
    ensures
        shown_lights(source, batt_error, blink_state).external <==> source
            == PowerSource::External,
        shown_lights(source, batt_error, blink_state).external || shown_lights(
            source,
            batt_error,
            blink_state,
        ).battery,
        shown_lights(source, batt_error, blink_state).battery != shown_lights(
            source,
            batt_error,
            !blink_state,
        ).battery <==> source == PowerSource::External && batt_error,
{
}

/// How long the heartbeat light stays lit, and how long dark.
pub const HEARTBEAT_MS: u64 = 500;

/// The light that shows that the station runs.
#[derive(Clone, Copy, Debug, PartialEq, Eq, Structural)]
pub struct Heartbeat {
    /// Whether the light is lit.
    pub lit: bool,
}

impl Heartbeat {
    /// A light that is dark.
    pub fn new() -> (r: Heartbeat)
        ensures
            r == (Heartbeat { lit: false }),
    {
        Heartbeat { lit: false }
    }

    /// Switches the light over, and says whether it is lit now.
    pub fn beat(&mut self) -> (r: bool)
        ensures
            r == !old(self).lit,
            final(self).lit == r,
    {
        self.lit = !self.lit;
        self.lit
    }
}

/// The line is watched in rounds of a reading, an edge and a time to settle: each answer to what
/// is asked for takes the monitor on, and nothing else does. A low line means external power, a
/// high one the battery.
pub proof fn line_is_watched_in_rounds(m: PowerMonitor, event: PowerEvent, low: bool)
    ensures
        m.stage is Reading ==> power_after(m, PowerEvent::Low(low)).stage is Waiting,
        m.stage is Reading && low ==> power_after(m, PowerEvent::Low(low)).source
            == PowerSource::External,
        m.stage is Reading && !low ==> power_after(m, PowerEvent::Low(low)).source
            == PowerSource::Battery,
        m.stage is Waiting ==> power_after(m, PowerEvent::Edge).stage is Settling,
        m.stage is Settling ==> power_after(m, PowerEvent::Slept).stage is Reading,
        power_after(m, event) != m ==> (m.stage is Reading && event is Low) || (m.stage is Waiting
            && event is Edge) || (m.stage is Settling && event is Slept),
        !(event is Low) ==> power_after(m, event).source == m.source,
        DEBOUNCE_MS == 50,
{
}

/// An edge never ends a fault and silence never begins one: two edges in a row begin it, however
/// things stood, and silence after an edge ends it. Only edges within six tenths of a second are
/// in a row.
pub proof fn two_edges_begin_a_fault_and_silence_ends_it(m: ChargeMonitor)
    ensures
        charge_after(charge_after(m, StatEvent::Edge), StatEvent::Edge).batt_error,
        !charge_after(charge_after(m, StatEvent::Edge), StatEvent::Quiet).batt_error,
        m.batt_error ==> charge_after(m, StatEvent::Edge).batt_error,
        !m.batt_error ==> !charge_after(m, StatEvent::Quiet).batt_error,
        charge_after(m, StatEvent::Edge).watching,
        !charge_after(m, StatEvent::Quiet).watching,
        BLINK_MS == 600,
{
}

/// What each light shows: external power lights its own and darkens the battery's, unless the
/// charger reports a fault: then the battery's is lit every second half second. On the battery
/// its own light alone is lit, fault or not.
pub proof fn each_light_has_its_meaning(batt_error: bool, blink_state: bool)
    ensures
        shown_lights(PowerSource::External, false, blink_state) == (Lights {
            external: true,
            battery: false,
            hold_ms: 100,
        }),
        shown_lights(PowerSource::External, true, true) == (Lights {
            external: true,
            battery: true,
            hold_ms: 500,
        }),
        shown_lights(PowerSource::External, true, false) == (Lights {
            external: true,
            battery: false,
            hold_ms: 500,
        }),
        shown_lights(PowerSource::Battery, batt_error, blink_state) == (Lights {
            external: false,
            battery: true,
            hold_ms: 100,
        }),
{
}

/// The heartbeat takes a second, half of it lit.
pub proof fn heartbeat_takes_a_second()
    ensures
        2 * HEARTBEAT_MS == 1000,
{
}

} // verus!
