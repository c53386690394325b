//! RC claimant adapter: parsed CRSF frames in, typed events out.
//!
//! Holds nothing but the two switch readings needed for edge detection: no
//! I/O, no clock. This is where a transmitter switch position turns into a
//! claimant verb and a stick position turns into a setpoint.
//!
//! - Kill maps to a disarm. `KillEngaged` is the edge the caller reacts to.
//! - Takeover maps to a conn request on `TakeoverEngaged` and a release on
//!   `TakeoverReleased`.
//! - `Effort` is emitted every frame while takeover is engaged and kill is
//!   not, standing in for a heartbeat.
//!
//! A stick is read as an exact ratio; the host multiplies it out, and the
//! adapter holds the product to the configured maximum.

use vstd::prelude::*;

use crate::contract::{BoundedList, ForceDemand};
use crate::crsf::{channel_to_us, Frame, RcChannelsFrame};
use crate::scalar::Scalar;

verus! {

/// Every `process` call emits at most one kill edge, one takeover edge, and
/// one `Effort`.
pub const MAX_EVENTS_PER_FRAME: usize = 3;

/// Events `process` can hand back. Edges fire once per transition; `Effort`
/// is emitted every frame while takeover is engaged and kill is not.
#[derive(Copy, Clone, Debug, PartialEq)]
pub enum Event {
    KillEngaged,
    KillReleased,
    TakeoverEngaged,
    TakeoverReleased,
    Effort(ForceDemand),
}

/// Filler for fixed-capacity storage; the value carries no meaning.
impl Default for Event {
    fn default() -> (e: Event)
        ensures
            e is KillEngaged,
    {
        Event::KillEngaged
    }
}

/// Channel indices index into `RcChannelsFrame::channels`.
#[derive(Copy, Clone, Debug, PartialEq)]
pub struct Config {
    pub kill_channel: usize,
    pub takeover_channel: usize,
    pub surge_channel: usize,
    pub yaw_channel: usize,
    /// A switch reads high once its microsecond value climbs strictly above
    /// this, shared by the kill and takeover channels.
    pub switch_high_us: u16,
    /// A switch reads low once its microsecond value drops strictly below
    /// this. Between the two thresholds (inclusive of both ends) the previous
    /// reading holds, so a value dithering on one edge cannot chatter.
    pub switch_low_us: u16,
    /// Stick deadband, in microseconds either side of the 1500us center.
    pub stick_deadband_us: u16,
    /// Surge force at full stick deflection, newtons.
    pub max_surge_n: Scalar,
    /// Yaw moment at full stick deflection, newton-meters.
    pub max_yaw_nm: Scalar,
}

impl Config {
    /// Both switch indices name one of the 16 channels.
    pub open spec fn switches_in_range(self) -> bool {
        self.kill_channel < 16 && self.takeover_channel < 16
    }

    /// Both stick indices name one of the 16 channels.
    pub open spec fn sticks_in_range(self) -> bool {
        self.surge_channel < 16 && self.yaw_channel < 16
    }
}

/// Center of the stick range, and the distance to either nominal end, in
/// microseconds.
pub const STICK_CENTER_US: i32 = 1500;

pub const STICK_REACH_US: i32 = 512;

/// A stick reading beyond its deadband, as the exact ratio `beyond / span` of
/// full deflection: `beyond` is how far past the deadband edge the stick
/// stands, negative astern, and `span` the distance from that edge to the
/// nominal end. A span of zero or less means that the deadband reaches the
/// nominal end, so that any stick beyond it stands at or past that end.
#[derive(Copy, Clone, Debug, PartialEq, Eq, Structural)]
pub enum Stick {
    Centered,
    Ahead { beyond: i32, span: i32 },
    Astern { beyond: i32, span: i32 },
}

/// The two stick readings of a frame.
#[derive(Copy, Clone, Debug, PartialEq, Eq, Structural)]
pub struct Sticks {
    pub surge: Stick,
    pub yaw: Stick,
}

/// A code point on the microsecond scale.
pub open spec fn us_of(raw: u16) -> int {
    (raw * 5 + 880 * 8 + 4) / 8
}

/// Hysteretic switch read: high once strictly above the high threshold, low
/// once strictly below the low one, else the previous reading.
pub open spec fn switch_reading(previous: bool, us: int, low_us: u16, high_us: u16) -> bool {
    if us > high_us {
        true
    } else if us < low_us {
        false
    } else {
        previous
    }
}

pub open spec fn stick_reading(us: int, deadband_us: u16) -> Stick {
    let offset = us - 1500;
    if offset > deadband_us {
        Stick::Ahead { beyond: (offset - deadband_us) as i32, span: (512 - deadband_us) as i32 }
    } else if offset < -deadband_us {
        Stick::Astern { beyond: (offset + deadband_us) as i32, span: (512 - deadband_us) as i32 }
    } else {
        Stick::Centered
    }
}

/// A deflected stick's product, held to the size of the configured maximum
/// either way rather than extrapolated past it; the maximum itself for a stick
/// whose deadband leaves it no travel; zero for a centered stick.
pub open spec fn limited_effort(stick: Stick, product: Scalar, max: Scalar) -> Scalar {
    match stick {
        Stick::Centered => Scalar { bits: 0 },
        Stick::Ahead { span, .. } => if span <= 0 {
            max
        } else {
            crate::scalar::greater(crate::scalar::lesser(product, max), lowest_effort(max))
        },
        Stick::Astern { span, .. } => if span <= 0 {
            crate::scalar::negated(max)
        } else {
            crate::scalar::lesser(
                crate::scalar::greater(product, crate::scalar::negated(max)),
                highest_effort(max),
            )
        },
    }
}

/// The size of a maximum, as a demand astern.
pub open spec fn lowest_effort(max: Scalar) -> Scalar {
    crate::scalar::lesser(max, crate::scalar::negated(max))
}

/// The size of a maximum, as a demand ahead.
pub open spec fn highest_effort(max: Scalar) -> Scalar {
    crate::scalar::greater(max, crate::scalar::negated(max))
}

fn switch_engaged(previous: bool, us: u16, low_us: u16, high_us: u16) -> (b: bool)
    ensures
        b == switch_reading(previous, us as int, low_us, high_us),
{
    if us > high_us {
        true
    } else if us < low_us {
        false
    } else {
        previous
    }
}

fn read_stick(us: u16, deadband_us: u16) -> (s: Stick)
    ensures
        s == stick_reading(us as int, deadband_us),
{
    let offset: i32 = us as i32 - STICK_CENTER_US;
    let deadband: i32 = deadband_us as i32;
    if offset > deadband {
        Stick::Ahead { beyond: offset - deadband, span: STICK_REACH_US - deadband }
    } else if offset < -deadband {
        Stick::Astern { beyond: offset + deadband, span: STICK_REACH_US - deadband }
    } else {
        Stick::Centered
    }
}

/// Holds a stick's product to the configured maximum. The product is not read
/// for a stick that is centered or has no travel.
pub fn limit_effort(stick: Stick, product: Scalar, max: Scalar) -> (e: Scalar)
    ensures
        e == limited_effort(stick, product, max),
{
    match stick {
        Stick::Centered => Scalar::zero(),
        Stick::Ahead { span, .. } => if span <= 0 {
            max
        } else {
            product.min(max).max(max.min(max.neg()))
        },
        Stick::Astern { span, .. } => if span <= 0 {
            max.neg()
        } else {
            product.max(max.neg()).min(max.max(max.neg()))
        },
    }
}

/// What the adapter remembers between frames.
pub ghost struct Switches {
    pub kill: bool,
    pub takeover: bool,
}

/// The switch readings after a frame.
pub open spec fn switches_after(c: Config, s: Switches, channels: Seq<u16>) -> Switches {
    Switches {
        kill: switch_reading(
            s.kill,
            us_of(channels[c.kill_channel as int]),
            c.switch_low_us,
            c.switch_high_us,
        ),
        takeover: switch_reading(
            s.takeover,
            us_of(channels[c.takeover_channel as int]),
            c.switch_low_us,
            c.switch_high_us,
        ),
    }
}

/// Effort is due while takeover is engaged and kill is not.
pub open spec fn effort_due(s: Switches) -> bool {
    s.takeover && !s.kill
}

/// The event of a switch that changed, if it did.
pub open spec fn edge(was: bool, is: bool, engaged: Event, released: Event) -> Seq<Event> {
    if was == is {
        Seq::empty()
    } else if is {
        seq![engaged]
    } else {
        seq![released]
    }
}

/// The edges of a frame, kill first.
pub open spec fn edges(was: Switches, is: Switches) -> Seq<Event> {
    edge(was.kill, is.kill, Event::KillEngaged, Event::KillReleased) + edge(
        was.takeover,
        is.takeover,
        Event::TakeoverEngaged,
        Event::TakeoverReleased,
    )
}

pub open spec fn sticks_of(c: Config, channels: Seq<u16>) -> Sticks {
    Sticks {
        surge: stick_reading(us_of(channels[c.surge_channel as int]), c.stick_deadband_us),
        yaw: stick_reading(us_of(channels[c.yaw_channel as int]), c.stick_deadband_us),
    }
}

/// The events of a channel frame: its edges, and behind them the effort where
/// one is due.
pub open spec fn events_of(
    c: Config,
    s: Switches,
    channels: Seq<u16>,
    surge_product: Scalar,
    yaw_product: Scalar,
) -> Seq<Event> {
    let now = switches_after(c, s, channels);
    let sticks = sticks_of(c, channels);
    if effort_due(now) {
        edges(s, now).push(
            Event::Effort(
                ForceDemand {
                    surge_n: limited_effort(sticks.surge, surge_product, c.max_surge_n),
                    sway_n: Scalar { bits: 0 },
                    yaw_nm: limited_effort(sticks.yaw, yaw_product, c.max_yaw_nm),
                },
            ),
        )
    } else {
        edges(s, now)
    }
}

/// Frame-in, events-out adapter.
pub struct RcAdapter {
    config: Config,
    kill_engaged: bool,
    takeover_engaged: bool,
}

impl View for RcAdapter {
    type V = Switches;

    closed spec fn view(&self) -> Switches {
        Switches { kill: self.kill_engaged, takeover: self.takeover_engaged }
    }
}

impl RcAdapter {
    pub closed spec fn config(self) -> Config {
        self.config
    }

    /// Both switches start not-engaged: the safe default before the first
    /// frame arrives.
    pub fn new(config: Config) -> (a: RcAdapter)
        ensures
            a.config() == config,
            !a@.kill,
            !a@.takeover,
    {
        RcAdapter { config, kill_engaged: false, takeover_engaged: false }
    }

    /// The stick readings of a frame, for the host to multiply out; `None` for
    /// a frame without channels.
    pub fn sticks(&self, frame: &Frame) -> (r: Option<Sticks>)
        requires
            *frame is RcChannels ==> self.config().sticks_in_range(),
        ensures
            match *frame {
                Frame::RcChannels(rc) => r == Some(sticks_of(self.config(), rc.channels@)),
                Frame::LinkStatistics(_) => r is None,
            },
    {
        match frame {
            Frame::RcChannels(rc) => Some(self.read_sticks(rc)),
            Frame::LinkStatistics(_) => None,
        }
    }

    fn read_switches(&self, rc: &RcChannelsFrame) -> (now: (bool, bool))
        requires
            self.config().switches_in_range(),
        ensures
            (Switches { kill: now.0, takeover: now.1 }) == switches_after(
                self.config(),
                self@,
                rc.channels@,
            ),
    {
        let low_us: u16 = self.config.switch_low_us;
        let high_us: u16 = self.config.switch_high_us;
        let kill_us: u16 = channel_to_us(rc.channels[self.config.kill_channel]);
        let takeover_us: u16 = channel_to_us(rc.channels[self.config.takeover_channel]);
        (
            switch_engaged(self.kill_engaged, kill_us, low_us, high_us),
            switch_engaged(self.takeover_engaged, takeover_us, low_us, high_us),
        )
    }

    /// Whether an effort is due once this frame's switches are read, so that
    /// processing it will read the sticks.
    pub fn reads_sticks(&self, frame: &Frame) -> (b: bool)
        requires
            *frame is RcChannels ==> self.config().switches_in_range(),
        ensures
            b == match *frame {
                Frame::RcChannels(rc) => effort_due(
                    switches_after(self.config(), self@, rc.channels@),
                ),
                Frame::LinkStatistics(_) => false,
            },
    {
        match frame {
            Frame::RcChannels(rc) => {
                let (kill, takeover) = self.read_switches(rc);
                takeover && !kill
            },
            Frame::LinkStatistics(_) => false,
        }
    }

    fn read_sticks(&self, rc: &RcChannelsFrame) -> (s: Sticks)
        requires
            self.config().sticks_in_range(),
        ensures
            s == sticks_of(self.config(), rc.channels@),
    {
        let deadband: u16 = self.config.stick_deadband_us;
        let surge_us: u16 = channel_to_us(rc.channels[self.config.surge_channel]);
        let yaw_us: u16 = channel_to_us(rc.channels[self.config.yaw_channel]);
        Sticks { surge: read_stick(surge_us, deadband), yaw: read_stick(yaw_us, deadband) }
    }

    /// Processes one parsed frame, returning the events it produced.
    /// `surge_product` and `yaw_product` are the frame's stick ratios
    /// multiplied by their configured maxima. Link statistics carry no channel
    /// data and produce nothing. The sticks are read only when an effort is
    /// due.
    pub fn process(&mut self, frame: Frame, surge_product: Scalar, yaw_product: Scalar) -> (events:
        BoundedList<Event, 3>)
        requires
            frame matches Frame::RcChannels(rc) ==> {
                let c = old(self).config();
                &&& c.switches_in_range()
                &&& effort_due(switches_after(c, old(self)@, rc.channels@)) ==> c.sticks_in_range()
            },
        ensures
            final(self).config() == old(self).config(),
            match frame {
                Frame::LinkStatistics(_) => events@ == Seq::<Event>::empty() && final(self)@
                    == old(self)@,
                Frame::RcChannels(rc) => {
                    let c = old(self).config();
                    let now = switches_after(c, old(self)@, rc.channels@);
                    let changed = edges(old(self)@, now);
                    &&& events@ == events_of(
                        c,
                        old(self)@,
                        rc.channels@,
                        surge_product,
                        yaw_product,
                    )
                    &&& final(self)@ == now
                    &&& if effort_due(now) {
                        &&& events@.len() == changed.len() + 1
                        &&& events@.take(changed.len() as int) == changed
                        &&& events@.last() matches Event::Effort(demand)
                        &&& demand.sway_n.bits == 0
                        &&& demand.surge_n == limited_effort(
                            sticks_of(c, rc.channels@).surge,
                            surge_product,
                            c.max_surge_n,
                        )
                        &&& demand.yaw_nm == limited_effort(
                            sticks_of(c, rc.channels@).yaw,
                            yaw_product,
                            c.max_yaw_nm,
                        )
                    } else {
                        events@ == changed
                    }
                },
            },
    {
        let mut events: BoundedList<Event, 3> = BoundedList::new();
        let rc: RcChannelsFrame = match frame {
            Frame::RcChannels(rc) => rc,
            Frame::LinkStatistics(_) => {
                return events;
            },
        };
        let (kill_now, takeover_now) = self.read_switches(&rc);
        if kill_now != self.kill_engaged {
            let event = if kill_now {
                Event::KillEngaged
            } else {
                Event::KillReleased
            };
            let _ = events.push(event);
        }
        if takeover_now != self.takeover_engaged {
            let event = if takeover_now {
                Event::TakeoverEngaged
            } else {
                Event::TakeoverReleased
            };
            let _ = events.push(event);
        }
        let ghost changed = edges(
            old(self)@,
            Switches { kill: kill_now, takeover: takeover_now },
        );
        proof {
            assert(events@ == changed);
        }
        self.kill_engaged = kill_now;
        self.takeover_engaged = takeover_now;
        // Kill dominates: Effort is withheld while the kill switch reads
        // engaged, regardless of takeover state, and takeover state is
        // preserved underneath.
        if takeover_now && !kill_now {
            let sticks = self.read_sticks(&rc);
            let demand = ForceDemand {
                surge_n: limit_effort(sticks.surge, surge_product, self.config.max_surge_n),
                sway_n: Scalar::zero(),
                yaw_nm: limit_effort(sticks.yaw, yaw_product, self.config.max_yaw_nm),
            };
            let _ = events.push(Event::Effort(demand));
            proof {
                assert(events@.take(changed.len() as int) == changed);
            }
        }
        proof {
            assert(events@ == events_of(
                self.config(),
                old(self)@,
                rc.channels@,
                surge_product,
                yaw_product,
            ));
        }
        events
    }
}

/// Whatever the stick and the host's product, a demand stays within the
/// configured maximum in both directions; it is nothing when the stick is
/// centered, and all of the maximum when its deadband leaves it no travel.
pub proof fn effort_never_exceeds_the_maximum(stick: Stick, product: Scalar, max: Scalar)
    requires
        !max.nan(),
    ensures
        max.units() >= 0 ==> crate::scalar::negated(max).at_most(
            limited_effort(stick, product, max),
        ) && limited_effort(stick, product, max).at_most(max),
        max.units() < 0 ==> max.at_most(limited_effort(stick, product, max)) && limited_effort(
            stick,
            product,
            max,
        ).at_most(crate::scalar::negated(max)),
        stick is Centered ==> limited_effort(stick, product, max).units() == 0,
        stick matches Stick::Ahead { span, .. } && span <= 0 ==> limited_effort(
            stick,
            product,
            max,
        ) == max,
        stick matches Stick::Astern { span, .. } && span <= 0 ==> limited_effort(
            stick,
            product,
            max,
        ) == crate::scalar::negated(max),
{
    crate::scalar::negation_is_exact(max);
}

/// A stick at or inside its deadband is centered; at a nominal end it stands
/// at full deflection, ratio one; the ratio grows with the reading.
pub proof fn stick_ratio_is_linear(us: int, higher: int, deadband_us: u16)
    requires
        0 <= us <= higher <= u16::MAX,
        deadband_us < 512,
    ensures
        -deadband_us <= us - 1500 <= deadband_us <==> stick_reading(us, deadband_us) is Centered,
        stick_reading(2012, deadband_us) == (Stick::Ahead {
            beyond: (512 - deadband_us) as i32,
            span: (512 - deadband_us) as i32,
        }),
        stick_reading(988, deadband_us) == (Stick::Astern {
            beyond: (deadband_us - 512) as i32,
            span: (512 - deadband_us) as i32,
        }),
        stick_reading(us, deadband_us) matches Stick::Ahead { beyond, .. } ==> stick_reading(
            higher,
            deadband_us,
        ) matches Stick::Ahead { beyond: further, .. } && beyond <= further,
{
}

/// Between its thresholds, both included, a switch keeps its reading.
pub proof fn switch_holds_between_thresholds(previous: bool, us: int, low_us: u16, high_us: u16)
    requires
        low_us <= us <= high_us,
    ensures
        switch_reading(previous, us, low_us, high_us) == previous,
{
}

/// A frame seen twice in a row produces no edge the second time, so an edge
/// fires once per transition.
pub proof fn repeated_frame_has_no_edge(c: Config, s: Switches, channels: Seq<u16>)
    ensures
        ({
            let once = switches_after(c, s, channels);
            edges(once, switches_after(c, once, channels)) == Seq::<Event>::empty()
        }),
{
    let once = switches_after(c, s, channels);
    assert(edges(once, switches_after(c, once, channels)) == Seq::<Event>::empty());
}

/// The takeover reading does not depend on the kill switch: engaging and
/// releasing kill leaves takeover as it was, without a takeover edge.
pub proof fn kill_preserves_takeover(c: Config, s: Switches, channels: Seq<u16>, kill: bool)
    ensures
        switches_after(c, s, channels).takeover == switches_after(
            c,
            (Switches { kill, ..s }),
            channels,
        ).takeover,
        edges(s, switches_after(c, s, channels)).len() <= 2,
{
}

/// A stick inside its deadband, both edges included, is centered. Beyond it,
/// on either side, each microsecond is worth one step: the stick stands as far
/// beyond the deadband edge as the reading does, out of the distance from that
/// edge to the nominal end, 512 microseconds from the center.
pub proof fn stick_stands_by_its_distance_from_the_deadband(us: int, deadband_us: u16)
    requires
        0 <= us <= u16::MAX,
    ensures
        us > 1500 + deadband_us ==> {
            &&& stick_reading(us, deadband_us) matches Stick::Ahead { beyond, span }
            &&& beyond == us - 1500 - deadband_us
            &&& span == 512 - deadband_us
        },
        us < 1500 - deadband_us ==> {
            &&& stick_reading(us, deadband_us) matches Stick::Astern { beyond, span }
            &&& beyond == us - 1500 + deadband_us
            &&& span == 512 - deadband_us
        },
        1500 - deadband_us <= us <= 1500 + deadband_us ==> stick_reading(us, deadband_us)
            == Stick::Centered,
{
}

/// Astern mirrors ahead: the same deflection to either side of the center
/// stands equally far beyond the deadband, in opposite directions, out of the
/// same span; and a microsecond more of deflection is one step more.
pub proof fn astern_mirrors_ahead(deflection: int, deadband_us: u16)
    requires
        deadband_us < deflection < 1500,
    ensures
        ({
            let ahead = stick_reading(1500 + deflection, deadband_us);
            let astern = stick_reading(1500 - deflection, deadband_us);
            let further = stick_reading(1500 + deflection + 1, deadband_us);
            let further_astern = stick_reading(1500 - deflection - 1, deadband_us);
            &&& ahead is Ahead && astern is Astern && further is Ahead && further_astern is Astern
            &&& astern->Astern_beyond == -ahead->Ahead_beyond
            &&& astern->Astern_span == ahead->Ahead_span
            &&& further->Ahead_beyond == ahead->Ahead_beyond + 1
            &&& further_astern->Astern_beyond == astern->Astern_beyond - 1
            &&& deflection == deadband_us + 1 ==> ahead->Ahead_beyond == 1
        }),
{
}

/// A demand that fits the maximum is the product itself; one that does not is
/// cut to the bound it passed, with the sign of that bound; a product that is
/// no number demands all of the maximum in the direction of the stick.
pub proof fn effort_is_the_product_cut_to_the_maximum(
    beyond: i32,
    span: i32,
    product: Scalar,
    max: Scalar,
)
    requires
        span > 0,
        !max.nan(),
        max.units() >= 0,
    ensures
        ({
            let ahead = limited_effort(Stick::Ahead { beyond, span }, product, max);
            let astern = limited_effort(Stick::Astern { beyond, span }, product, max);
            &&& !product.nan() && -max.units() <= product.units() <= max.units() ==> ahead
                == product && astern == product
            &&& !product.nan() && product.units() > max.units() ==> ahead.units() == max.units()
                && astern.units() == max.units()
            &&& !product.nan() && product.units() < -max.units() ==> ahead.units() == -max.units()
                && astern.units() == -max.units()
            &&& product.nan() ==> ahead.units() == max.units() && astern.units() == -max.units()
        }),
{
    crate::scalar::negation_is_exact(max);
}

/// A code point on the microsecond scale is the whole number nearest to five
/// eighths of it plus 880, upward from exactly half.
pub proof fn scale_is_five_eighths_plus_880(raw: u16)
    ensures
        -4 < 8 * us_of(raw) - (5 * raw + 7040) <= 4,
        us_of(992) == 1500,
{
}

/// A switch reads engaged above the high threshold, released below the low one
/// and else as before; the kill switch is read from its own channel and the
/// takeover switch from its own, each against its own previous reading.
pub proof fn switches_read_their_own_channels(c: Config, s: Switches, channels: Seq<u16>)
    requires
        channels.len() == 16,
        c.kill_channel < 16,
        c.takeover_channel < 16,
    ensures
        ({
            let now = switches_after(c, s, channels);
            let kill_us = us_of(channels[c.kill_channel as int]);
            let takeover_us = us_of(channels[c.takeover_channel as int]);
            &&& kill_us > c.switch_high_us ==> now.kill
            &&& kill_us <= c.switch_high_us && kill_us < c.switch_low_us ==> !now.kill
            &&& c.switch_low_us <= kill_us <= c.switch_high_us ==> now.kill == s.kill
            &&& takeover_us > c.switch_high_us ==> now.takeover
            &&& takeover_us <= c.switch_high_us && takeover_us < c.switch_low_us ==> !now.takeover
            &&& c.switch_low_us <= takeover_us <= c.switch_high_us ==> now.takeover == s.takeover
        }),
{
}

/// The surge stick is read from the surge channel and the yaw stick from the
/// yaw channel; an effort is due exactly while takeover is engaged and kill is
/// not.
pub proof fn sticks_read_their_own_channels(c: Config, channels: Seq<u16>, s: Switches)
    ensures
        sticks_of(c, channels).surge == stick_reading(
            us_of(channels[c.surge_channel as int]),
            c.stick_deadband_us,
        ),
        sticks_of(c, channels).yaw == stick_reading(
            us_of(channels[c.yaw_channel as int]),
            c.stick_deadband_us,
        ),
        effort_due(s) <==> s.takeover && !s.kill,
{
}

/// An edge is reported for exactly the switches that changed, named for what
/// they changed to, kill before takeover.
pub proof fn edges_name_what_changed(was: Switches, is: Switches)
    ensures
        ({
            let kill_changed = was.kill != is.kill;
            let takeover_changed = was.takeover != is.takeover;
            let e = edges(was, is);
            &&& e.len() == (if kill_changed {
                1int
            } else {
                0
            }) + (if takeover_changed {
                1int
            } else {
                0
            })
            &&& kill_changed ==> e[0] == (if is.kill {
                Event::KillEngaged
            } else {
                Event::KillReleased
            })
            &&& takeover_changed ==> e[e.len() - 1] == (if is.takeover {
                Event::TakeoverEngaged
            } else {
                Event::TakeoverReleased
            })
        }),
{
}

/// A channel frame ends in an effort exactly when it leaves takeover engaged
/// and kill not, and holds none elsewhere. Its surge is the surge product cut
/// to the surge maximum and its yaw the yaw product cut to the yaw maximum,
/// for products that fit and sticks with travel simply those products; a
/// centered stick demands nothing, and nothing ever demands sway.
pub proof fn effort_follows_the_sticks(
    c: Config,
    s: Switches,
    channels: Seq<u16>,
    surge_product: Scalar,
    yaw_product: Scalar,
)
    requires
        channels.len() == 16,
        c.surge_channel < 16 && c.yaw_channel < 16,
        c.stick_deadband_us < 512,
        !c.max_surge_n.nan() && c.max_surge_n.units() >= 0,
        !c.max_yaw_nm.nan() && c.max_yaw_nm.units() >= 0,
        !surge_product.nan() && -c.max_surge_n.units() <= surge_product.units()
            <= c.max_surge_n.units(),
        !yaw_product.nan() && -c.max_yaw_nm.units() <= yaw_product.units() <= c.max_yaw_nm.units(),
    ensures
        ({
            let now = switches_after(c, s, channels);
            let events = events_of(c, s, channels, surge_product, yaw_product);
            let surge_us = us_of(channels[c.surge_channel as int]);
            let yaw_us = us_of(channels[c.yaw_channel as int]);
            let band = c.stick_deadband_us;
            &&& now.takeover && !now.kill ==> {
                &&& events.len() > 0
                &&& events[events.len() - 1] matches Event::Effort(d)
                &&& d.sway_n.bits == 0
                &&& 1500 - band <= surge_us <= 1500 + band ==> d.surge_n.units() == 0
                &&& 1500 - band <= yaw_us <= 1500 + band ==> d.yaw_nm.units() == 0
                &&& !(1500 - band <= surge_us <= 1500 + band) ==> d.surge_n == surge_product
                &&& !(1500 - band <= yaw_us <= 1500 + band) ==> d.yaw_nm == yaw_product
            }
            &&& forall|i: int|
                0 <= i < events.len() && (#[trigger] events[i]) is Effort ==> now.takeover
                    && !now.kill && i == events.len() - 1
        }),
{
    let surge_us = us_of(channels[c.surge_channel as int]);
    let yaw_us = us_of(channels[c.yaw_channel as int]);
    stick_stands_by_its_distance_from_the_deadband(surge_us, c.stick_deadband_us);
    stick_stands_by_its_distance_from_the_deadband(yaw_us, c.stick_deadband_us);
    effort_is_the_product_cut_to_the_maximum(0, 1, surge_product, c.max_surge_n);
    crate::scalar::negation_is_exact(c.max_surge_n);
    crate::scalar::negation_is_exact(c.max_yaw_nm);
    crate::scalar::pattern_classes(Scalar { bits: 0 });
    edges_name_what_changed(s, switches_after(c, s, channels));
}

} // verus!
