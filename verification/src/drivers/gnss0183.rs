//! GNSS-over-0183 driver: GGA -> position, HDT -> heading, RMC -> SOG/COG,
//! VTG discarded.
//!
//! The host tokenizes the byte stream and converts units; a parsed sentence
//! arrives here in radians and meters per second. This is where it is
//! filtered, gated and turned into measurements. A sentence is stamped with
//! the `acquired_at` of its *terminating* byte.
//!
//! GGA is the only position source: it carries HDOP, so a per-fix std is
//! derivable. RMC is the only speed and course source.

use vstd::prelude::*;

use super::Driver;
use crate::contract::{BoundedList, GeoPoint, Measurement, MeasurementKind, SensorId, Timestamp};
use crate::scalar::Scalar;

verus! {

/// A 0183 talker, the first two characters of an address.
pub type TalkerId = [u8; 2];

/// Placeholder 1-sigma SOG std, 0.2 m/s.
pub const SOG_STD_MPS_BITS: u64 = 0x3fc9_9999_9999_999a;

/// Speed floor below which a course reading is direction-over-noise, 0.5 m/s:
/// judged on the sentence's own reported speed.
pub const COG_MIN_SPEED_MPS_BITS: u64 = 0x3fe0_0000_0000_0000;

/// Which sentence types the accept filter can name.
#[derive(Copy, Clone, Debug, PartialEq, Eq, Structural)]
pub enum SentenceKind {
    Gga,
    Rmc,
    Hdt,
    Vtg,
}

impl Default for SentenceKind {
    fn default() -> (k: SentenceKind)
        ensures
            k == SentenceKind::Gga,
    {
        SentenceKind::Gga
    }
}

/// Talker/sentence accept filter. An empty list accepts everything for that
/// axis.
#[derive(Copy, Clone, Debug)]
pub struct AcceptFilter {
    pub talkers: BoundedList<TalkerId, 4>,
    pub sentences: BoundedList<SentenceKind, 8>,
}

/// Accepts everything.
impl Default for AcceptFilter {
    fn default() -> (f: AcceptFilter)
        ensures
            f.talkers@.len() == 0,
            f.sentences@.len() == 0,
    {
        AcceptFilter { talkers: BoundedList::new(), sentences: BoundedList::new() }
    }
}

/// Whether two talkers are spelled alike.
pub open spec fn same_talker(a: TalkerId, b: TalkerId) -> bool {
    a@[0] == b@[0] && a@[1] == b@[1]
}

/// Whether a filter lets a sentence through.
pub open spec fn passes(f: AcceptFilter, talker: TalkerId, kind: SentenceKind) -> bool {
    &&& f.talkers@.len() == 0 || exists|i: int|
        0 <= i < f.talkers@.len() && same_talker(#[trigger] f.talkers@[i], talker)
    &&& f.sentences@.len() == 0 || f.sentences@.contains(kind)
}

impl AcceptFilter {
    pub fn accepts(&self, talker: TalkerId, kind: SentenceKind) -> (b: bool)
        ensures
            b == passes(*self, talker, kind),
    {
        let talkers = self.talkers.as_slice();
        let mut talker_ok = talkers.len() == 0;
        let mut i: usize = 0;
        while i < talkers.len()
            invariant
                talkers@ == self.talkers@,
                i <= talkers@.len(),
                talker_ok == (talkers@.len() == 0 || exists|k: int|
                    0 <= k < i && same_talker(#[trigger] self.talkers@[k], talker)),
            decreases talkers.len() - i,
        {
            let listed: TalkerId = talkers[i];
            if listed[0] == talker[0] && listed[1] == talker[1] {
                talker_ok = true;
                proof {
                    assert(same_talker(self.talkers@[i as int], talker));
                }
            }
            i = i + 1;
        }
        let sentences = self.sentences.as_slice();
        let mut sentence_ok = sentences.len() == 0;
        let mut j: usize = 0;
        while j < sentences.len()
            invariant
                sentences@ == self.sentences@,
                j <= sentences@.len(),
                sentence_ok == (sentences@.len() == 0 || exists|k: int|
                    0 <= k < j && #[trigger] self.sentences@[k] == kind),
            decreases sentences.len() - j,
        {
            if sentences[j] == kind {
                sentence_ok = true;
                proof {
                    assert(self.sentences@[j as int] == kind);
                }
            }
            j = j + 1;
        }
        talker_ok && sentence_ok
    }
}

/// FAA mode indicator of an RMC sentence.
#[derive(Copy, Clone, Debug, PartialEq, Eq, Structural)]
pub enum FaaMode {
    Autonomous,
    Differential,
    Estimated,
    FloatRtk,
    FixedRtk,
    Manual,
    Simulator,
    NotValid,
}

#[derive(Copy, Clone, Debug, PartialEq, Eq, Structural)]
pub enum RmcStatus {
    Valid,
    Warning,
}

/// A parsed GGA. `scaled_hdop_m` is the sentence's HDOP times the configured
/// UERE, where the sentence carries an HDOP.
#[derive(Copy, Clone, Debug)]
pub struct GgaSentence {
    pub talker: TalkerId,
    pub fix_quality: u8,
    pub lat_rad: Option<Scalar>,
    pub lon_rad: Option<Scalar>,
    pub scaled_hdop_m: Option<Scalar>,
}

/// A parsed RMC. `cog_std_rad` is the SOG std over the speed, floored.
#[derive(Copy, Clone, Debug)]
pub struct RmcSentence {
    pub talker: TalkerId,
    pub status: RmcStatus,
    pub mode: Option<FaaMode>,
    pub sog_mps: Option<Scalar>,
    pub cog_rad: Option<Scalar>,
    pub cog_std_rad: Scalar,
}

/// A parsed HDT.
#[derive(Copy, Clone, Debug)]
pub struct HdtSentence {
    pub talker: TalkerId,
    pub heading_rad: Scalar,
}

/// A parsed VTG; nothing in it is read.
#[derive(Copy, Clone, Debug)]
pub struct VtgSentence {
    pub talker: TalkerId,
}

#[derive(Copy, Clone, Debug)]
pub enum Sentence {
    Gga(GgaSentence),
    Rmc(RmcSentence),
    Hdt(HdtSentence),
    Vtg(VtgSentence),
}

/// Why a captured sentence did not parse, as the tokenizer reports it.
#[derive(Copy, Clone, Debug, PartialEq, Eq, Structural)]
pub enum SentenceError {
    ChecksumMismatch,
    UnsupportedSentence,
    Malformed,
}

#[derive(Copy, Clone, Debug)]
pub struct Config {
    /// Sensor id GGA fixes and RMC velocities are attributed to.
    pub position_sensor: SensorId,
    /// Sensor id HDT headings are attributed to.
    pub heading_sensor: SensorId,
    /// UERE in meters, scaling HDOP into a 1-sigma position std.
    pub uere_m: Scalar,
    /// Position std used when GGA carries no HDOP field.
    pub fallback_std_m: Scalar,
    /// 1-sigma std attributed to every HDT heading.
    pub heading_std_rad: Scalar,
    /// Talker/sentence accept filter.
    pub filter: AcceptFilter,
}

/// GGA fix qualities a position may be taken from: 1 (GPS), 2 (DGPS), 4 (RTK
/// fixed), 5 (RTK float). A gate, not a scale.
pub open spec fn trusted_fix(fix_quality: u8) -> bool {
    fix_quality == 1 || fix_quality == 2 || fix_quality == 4 || fix_quality == 5
}

/// RMC modes speed and course may be taken from. No mode at all is an older
/// sentence, trusted on its status alone.
pub open spec fn trusted_mode(mode: Option<FaaMode>) -> bool {
    match mode {
        None => true,
        Some(m) => m == FaaMode::Autonomous || m == FaaMode::Differential || m
            == FaaMode::FloatRtk || m == FaaMode::FixedRtk,
    }
}

fn gga_fix_is_trusted(fix_quality: u8) -> (b: bool)
    ensures
        b == trusted_fix(fix_quality),
{
    fix_quality == 1 || fix_quality == 2 || fix_quality == 4 || fix_quality == 5
}

fn rmc_mode_is_trusted(mode: Option<FaaMode>) -> (b: bool)
    ensures
        b == trusted_mode(mode),
{
    match mode {
        None => true,
        Some(FaaMode::Autonomous) => true,
        Some(FaaMode::Differential) => true,
        Some(FaaMode::FloatRtk) => true,
        Some(FaaMode::FixedRtk) => true,
        Some(_) => false,
    }
}

/// Errors the driver can surface. Parse failures are countable; gating and
/// filtering are not errors.
#[derive(Copy, Clone, Debug, PartialEq, Eq, Structural)]
pub enum GnssError {
    /// A sentence's bytes were captured but did not parse.
    Parse(SentenceError),
    /// `self_test` found a nonsensical config.
    InvalidConfig,
    /// A blocking read was asked of this byte-fed driver.
    NoByteSource,
}

/// One or two measurements from one completed sentence.
#[derive(Copy, Clone, Debug, PartialEq)]
pub struct MeasurementBatch {
    pub first: Measurement,
    pub second: Option<Measurement>,
}

impl View for MeasurementBatch {
    type V = Seq<Measurement>;

    /// The measurements, in emission order.
    open spec fn view(&self) -> Seq<Measurement> {
        match self.second {
            None => seq![self.first],
            Some(second) => seq![self.first, second],
        }
    }
}

impl MeasurementBatch {
    /// The 1 or 2 measurements, in emission order.
    pub fn iter(&self) -> (v: Vec<Measurement>)
        ensures
            v@ == self@,
    {
        let mut v: Vec<Measurement> = Vec::new();
        v.push(self.first);
        if let Some(second) = self.second {
            v.push(second);
        }
        proof {
            assert(v@ == self@);
        }
        v
    }
}

pub open spec fn talker_of(s: Sentence) -> TalkerId {
    match s {
        Sentence::Gga(g) => g.talker,
        Sentence::Rmc(r) => r.talker,
        Sentence::Hdt(h) => h.talker,
        Sentence::Vtg(v) => v.talker,
    }
}

pub open spec fn kind_of(s: Sentence) -> SentenceKind {
    match s {
        Sentence::Gga(_) => SentenceKind::Gga,
        Sentence::Rmc(_) => SentenceKind::Rmc,
        Sentence::Hdt(_) => SentenceKind::Hdt,
        Sentence::Vtg(_) => SentenceKind::Vtg,
    }
}

/// The position of a GGA: where the fix is trusted and carries coordinates.
pub open spec fn gga_position(c: Config, g: GgaSentence, t: Timestamp) -> Option<Measurement> {
    if trusted_fix(g.fix_quality) && g.lat_rad is Some && g.lon_rad is Some {
        Some(
            Measurement {
                sensor: c.position_sensor,
                t,
                kind: MeasurementKind::GnssPosition {
                    position: GeoPoint { lat_rad: g.lat_rad->0, lon_rad: g.lon_rad->0 },
                    std_m: match g.scaled_hdop_m {
                        Some(std_m) => std_m,
                        None => c.fallback_std_m,
                    },
                },
            },
        )
    } else {
        None
    }
}

pub open spec fn hdt_heading(c: Config, h: HdtSentence, t: Timestamp) -> Measurement {
    Measurement {
        sensor: c.heading_sensor,
        t,
        kind: MeasurementKind::Heading { heading_rad: h.heading_rad, std_rad: c.heading_std_rad },
    }
}

/// Whether an RMC's speed and course may be used at all.
pub open spec fn rmc_usable(r: RmcSentence) -> bool {
    r.status == RmcStatus::Valid && trusted_mode(r.mode) && r.sog_mps is Some
}

pub open spec fn rmc_speed(c: Config, r: RmcSentence, t: Timestamp) -> Measurement {
    Measurement {
        sensor: c.position_sensor,
        t,
        kind: MeasurementKind::SpeedOverGround {
            sog_mps: r.sog_mps->0,
            std_mps: Scalar { bits: SOG_STD_MPS_BITS },
        },
    }
}

/// The course of an RMC: only where the sentence's own speed reaches the
/// floor and it carries a course.
pub open spec fn rmc_course(c: Config, r: RmcSentence, t: Timestamp) -> Option<Measurement> {
    if r.sog_mps->0.less(Scalar { bits: COG_MIN_SPEED_MPS_BITS }) || r.cog_rad is None {
        None
    } else {
        Some(
            Measurement {
                sensor: c.position_sensor,
                t,
                kind: MeasurementKind::CourseOverGround {
                    cog_rad: r.cog_rad->0,
                    std_rad: r.cog_std_rad,
                },
            },
        )
    }
}

/// The measurements of a sentence; none when it is filtered, gated or of a
/// type that is not turned into measurements.
pub open spec fn measured(c: Config, s: Sentence, t: Timestamp) -> Option<MeasurementBatch> {
    if !passes(c.filter, talker_of(s), kind_of(s)) {
        None
    } else {
        match s {
            Sentence::Gga(g) => match gga_position(c, g, t) {
                Some(first) => Some(MeasurementBatch { first, second: None }),
                None => None,
            },
            Sentence::Hdt(h) => Some(
                MeasurementBatch { first: hdt_heading(c, h, t), second: None },
            ),
            Sentence::Rmc(r) => if rmc_usable(r) {
                Some(
                    MeasurementBatch { first: rmc_speed(c, r, t), second: rmc_course(c, r, t) },
                )
            } else {
                None
            },
            Sentence::Vtg(_) => None,
        }
    }
}

/// Sentence-to-measurement driver: no UART, no clock.
#[derive(Copy, Clone, Debug)]
pub struct Gnss0183Driver {
    pub config: Config,
}

impl Gnss0183Driver {
    pub fn new(config: Config) -> (d: Gnss0183Driver)
        ensures
            d.config == config,
    {
        Gnss0183Driver { config }
    }

    /// What one more byte comes to, given what the tokenizer made of it:
    /// `None` while a sentence is still accumulating, else the sentence it
    /// completed or the reason it did not parse. The sentence is stamped with
    /// the byte's `acquired_at`.
    pub fn push(&self, framed: Option<Result<Sentence, SentenceError>>, acquired_at: Timestamp)
        -> (r: Option<Result<MeasurementBatch, GnssError>>)
        ensures
            r == match framed {
                None => None::<Result<MeasurementBatch, GnssError>>,
                Some(Err(e)) => Some(Err(GnssError::Parse(e))),
                Some(Ok(s)) => match measured(self.config, s, acquired_at) {
                    None => None,
                    Some(batch) => Some(Ok(batch)),
                },
            },
    {
        match framed {
            None => None,
            Some(Err(e)) => Some(Err(GnssError::Parse(e))),
            Some(Ok(sentence)) => match self.to_measurement(&sentence, acquired_at) {
                None => None,
                Some(batch) => Some(Ok(batch)),
            },
        }
    }

    /// Maps one parsed sentence onto a batch of measurements, applying the
    /// accept filter and the per-sentence gating rules.
    pub fn to_measurement(&self, sentence: &Sentence, acquired_at: Timestamp) -> (r: Option<
        MeasurementBatch,
    >)
        ensures
            r == measured(self.config, *sentence, acquired_at),
    {
        let (talker, kind) = match sentence {
            Sentence::Gga(s) => (s.talker, SentenceKind::Gga),
            Sentence::Rmc(s) => (s.talker, SentenceKind::Rmc),
            Sentence::Hdt(s) => (s.talker, SentenceKind::Hdt),
            Sentence::Vtg(s) => (s.talker, SentenceKind::Vtg),
        };
        if !self.config.filter.accepts(talker, kind) {
            return None;
        }
        match sentence {
            Sentence::Gga(gga) => match self.gga_to_position(gga, acquired_at) {
                Some(first) => Some(MeasurementBatch { first, second: None }),
                None => None,
            },
            Sentence::Hdt(hdt) => Some(
                MeasurementBatch { first: self.hdt_to_heading(hdt, acquired_at), second: None },
            ),
            Sentence::Rmc(rmc) => self.rmc_to_measurements(rmc, acquired_at),
            // VTG duplicates RMC's speed and course; emitting from both would
            // double-count.
            Sentence::Vtg(_) => None,
        }
    }

    fn rmc_to_measurements(&self, rmc: &RmcSentence, acquired_at: Timestamp) -> (r: Option<
        MeasurementBatch,
    >)
        ensures
            r == if rmc_usable(*rmc) {
                Some(
                    MeasurementBatch {
                        first: rmc_speed(self.config, *rmc, acquired_at),
                        second: rmc_course(self.config, *rmc, acquired_at),
                    },
                )
            } else {
                None
            },
    {
        if rmc.status != RmcStatus::Valid || !rmc_mode_is_trusted(rmc.mode) {
            return None;
        }
        let sog_mps = match rmc.sog_mps {
            Some(sog) => sog,
            None => {
                return None;
            },
        };
        let first = Measurement {
            sensor: self.config.position_sensor,
            t: acquired_at,
            kind: MeasurementKind::SpeedOverGround {
                sog_mps,
                std_mps: Scalar { bits: SOG_STD_MPS_BITS },
            },
        };
        if sog_mps.lt(Scalar { bits: COG_MIN_SPEED_MPS_BITS }) {
            return Some(MeasurementBatch { first, second: None });
        }
        let second = match rmc.cog_rad {
            None => None,
            Some(cog_rad) => Some(
                Measurement {
                    sensor: self.config.position_sensor,
                    t: acquired_at,
                    kind: MeasurementKind::CourseOverGround { cog_rad, std_rad: rmc.cog_std_rad },
                },
            ),
        };
        Some(MeasurementBatch { first, second })
    }

    fn gga_to_position(&self, gga: &GgaSentence, acquired_at: Timestamp) -> (r: Option<Measurement>)
        ensures
            r == gga_position(self.config, *gga, acquired_at),
    {
        if !gga_fix_is_trusted(gga.fix_quality) {
            return None;
        }
        match (gga.lat_rad, gga.lon_rad) {
            (Some(lat_rad), Some(lon_rad)) => {
                let std_m = match gga.scaled_hdop_m {
                    Some(std_m) => std_m,
                    None => self.config.fallback_std_m,
                };
                Some(
                    Measurement {
                        sensor: self.config.position_sensor,
                        t: acquired_at,
                        kind: MeasurementKind::GnssPosition {
                            position: GeoPoint { lat_rad, lon_rad },
                            std_m,
                        },
                    },
                )
            },
            _ => None,
        }
    }

    fn hdt_to_heading(&self, hdt: &HdtSentence, acquired_at: Timestamp) -> (m: Measurement)
        ensures
            m == hdt_heading(self.config, *hdt, acquired_at),
    {
        Measurement {
            sensor: self.config.heading_sensor,
            t: acquired_at,
            kind: MeasurementKind::Heading {
                heading_rad: hdt.heading_rad,
                std_rad: self.config.heading_std_rad,
            },
        }
    }
}

/// Every configured std and scale is strictly positive.
pub open spec fn sane(c: Config) -> bool {
    let zero = Scalar { bits: 0 };
    zero.less(c.uere_m) && zero.less(c.fallback_std_m) && zero.less(c.heading_std_rad)
}

impl Driver for Gnss0183Driver {
    type Reading = Measurement;

    type Error = GnssError;

    open spec fn stamp_of(reading: Measurement) -> Timestamp {
        reading.t
    }

    /// There is no bus to bring up and no sentence held here.
    fn init(&mut self) -> (r: Result<(), GnssError>)
        ensures
            r is Ok,
            *final(self) == *old(self),
    {
        Ok(())
    }

    /// No hardware to probe, so the only honest check available is the
    /// config's own internal sanity.
    fn self_test(&mut self) -> (r: Result<(), GnssError>)
        ensures
            r is Ok <==> sane(old(self).config),
            r matches Err(e) ==> e == GnssError::InvalidConfig,
            *final(self) == *old(self),
    {
        let zero = Scalar::zero();
        if self.config.uere_m.gt(zero) && self.config.fallback_std_m.gt(zero)
            && self.config.heading_std_rad.gt(zero) {
            Ok(())
        } else {
            Err(GnssError::InvalidConfig)
        }
    }

    /// A measurement only exists once a full sentence has accumulated, so a
    /// blocking read errors rather than fabricating one.
    fn read_with_timestamp(&mut self, acquired_at: Timestamp) -> (r: Result<Measurement, GnssError>)
        ensures
            r == Err::<Measurement, GnssError>(GnssError::NoByteSource),
            *final(self) == *old(self),
    {
        Err(GnssError::NoByteSource)
    }
}

/// Every measurement carries exactly the acquisition time it was given, and is
/// attributed to the sensor configured for what it measures.
pub proof fn measurements_are_stamped_and_attributed(c: Config, s: Sentence, t: Timestamp, i: int)
    requires
        measured(c, s, t) is Some,
        0 <= i < measured(c, s, t)->0@.len(),
    ensures
        measured(c, s, t)->0@.len() <= 2,
        measured(c, s, t)->0@[i].t == t,
        measured(c, s, t)->0@[i].sensor == (if measured(c, s, t)->0@[i].kind is Heading {
            c.heading_sensor
        } else {
            c.position_sensor
        }),
{
}

/// A course is emitted only behind a speed of the same sentence that is not
/// below the floor; a position only from a trusted fix; nothing from VTG.
pub proof fn gates_hold(c: Config, s: Sentence, t: Timestamp, i: int)
    requires
        measured(c, s, t) is Some,
        0 <= i < measured(c, s, t)->0@.len(),
    ensures
        measured(c, s, t)->0@[i].kind is CourseOverGround ==> {
            &&& i == 1
            &&& measured(c, s, t)->0@[0].kind is SpeedOverGround
            &&& !measured(c, s, t)->0@[0].kind->sog_mps.less(
                Scalar { bits: COG_MIN_SPEED_MPS_BITS },
            )
        },
        measured(c, s, t)->0@[i].kind is GnssPosition ==> (s matches Sentence::Gga(g)
            && trusted_fix(g.fix_quality)),
        !(s is Vtg),
{
}

/// A filter with nothing in it lets everything through.
pub proof fn empty_filter_accepts_everything(f: AcceptFilter, talker: TalkerId, kind: SentenceKind)
    requires
        f.talkers@.len() == 0,
        f.sentences@.len() == 0,
    ensures
        passes(f, talker, kind),
{
}

/// The speed floor is 0.5 m/s, and the speed std 0.2 m/s to sixteen digits.
pub proof fn speeds_in_meters_per_second()
    ensures
        ({
            let one = vstd::arithmetic::power2::pow2(1074) as int;
            let floor = (Scalar { bits: COG_MIN_SPEED_MPS_BITS }).units();
            let std = (Scalar { bits: SOG_STD_MPS_BITS }).units();
            &&& one > 0
            &&& 2 * floor == one
            &&& one <= 5 * std
            &&& 10_000_000_000_000_000 * (5 * std - one) < one
        }),
{
    vstd::arithmetic::power2::lemma2_to64_rest();
    crate::scalar::pattern_value(
        COG_MIN_SPEED_MPS_BITS,
        53,
        0x10_0000_0000_0000,
        0x20_0000_0000_0000,
    );
    crate::scalar::pattern_value(
        SOG_STD_MPS_BITS,
        55,
        0x19_9999_9999_999a,
        0x80_0000_0000_0000,
    );
}

/// A GGA that the filter lets through gives a position exactly when its fix
/// quality is 1, 2, 4 or 5 and it carries both coordinates: latitude as
/// latitude, longitude as longitude, attributed to the position sensor at the
/// time it was acquired, with the scaled HDOP as std, or the fallback where it
/// carries none. Nothing comes with it.
pub proof fn gga_gives_its_own_position(c: Config, g: GgaSentence, t: Timestamp)
    requires
        passes(c.filter, g.talker, SentenceKind::Gga),
    ensures
        ({
            let usable = (g.fix_quality == 1 || g.fix_quality == 2 || g.fix_quality == 4
                || g.fix_quality == 5) && g.lat_rad is Some && g.lon_rad is Some;
            let r = measured(c, Sentence::Gga(g), t);
            &&& r is Some <==> usable
            &&& usable ==> {
                &&& r->0.second is None
                &&& r->0.first.sensor == c.position_sensor
                &&& r->0.first.t == t
                &&& r->0.first.kind matches MeasurementKind::GnssPosition { position, std_m }
                &&& position.lat_rad == g.lat_rad->0
                &&& position.lon_rad == g.lon_rad->0
                &&& g.scaled_hdop_m is Some ==> std_m == g.scaled_hdop_m->0
                &&& g.scaled_hdop_m is None ==> std_m == c.fallback_std_m
            }
        }),
{
}

/// An HDT that the filter lets through gives its own heading with the
/// configured std, attributed to the heading sensor at the time it was
/// acquired.
pub proof fn hdt_gives_its_own_heading(c: Config, h: HdtSentence, t: Timestamp)
    requires
        passes(c.filter, h.talker, SentenceKind::Hdt),
    ensures
        ({
            let r = measured(c, Sentence::Hdt(h), t);
            &&& r is Some
            &&& r->0.second is None
            &&& r->0.first.sensor == c.heading_sensor
            &&& r->0.first.t == t
            &&& r->0.first.kind matches MeasurementKind::Heading { heading_rad, std_rad }
            &&& heading_rad == h.heading_rad
            &&& std_rad == c.heading_std_rad
        }),
{
}

/// An RMC that the filter lets through gives its own speed exactly when it is
/// valid, carries a speed, and its mode is missing, autonomous, differential
/// or one of the RTK modes; with it comes its own course, exactly when it
/// carries one and the speed is not below 0.5 m/s. Both are attributed to the
/// position sensor at the time the sentence was acquired.
pub proof fn rmc_gives_its_own_speed_and_course(c: Config, r: RmcSentence, t: Timestamp)
    requires
        passes(c.filter, r.talker, SentenceKind::Rmc),
    ensures
        ({
            let one = vstd::arithmetic::power2::pow2(1074) as int;
            let mode_ok = r.mode is None || r.mode == Some(FaaMode::Autonomous) || r.mode == Some(
                FaaMode::Differential,
            ) || r.mode == Some(FaaMode::FloatRtk) || r.mode == Some(FaaMode::FixedRtk);
            let usable = r.status == RmcStatus::Valid && mode_ok && r.sog_mps is Some;
            let course = r.cog_rad is Some && (r.sog_mps->0.nan() || 2 * r.sog_mps->0.units()
                >= one);
            let b = measured(c, Sentence::Rmc(r), t);
            &&& b is Some <==> usable
            &&& usable ==> {
                &&& b->0.first.sensor == c.position_sensor
                &&& b->0.first.t == t
                &&& b->0.first.kind matches MeasurementKind::SpeedOverGround { sog_mps, std_mps }
                &&& sog_mps == r.sog_mps->0
                &&& std_mps.bits == SOG_STD_MPS_BITS
            }
            &&& usable ==> (b->0.second is Some <==> course)
            &&& usable && course ==> {
                &&& b->0.second->0.sensor == c.position_sensor
                &&& b->0.second->0.t == t
                &&& b->0.second->0.kind matches MeasurementKind::CourseOverGround {
                    cog_rad,
                    std_rad,
                }
                &&& cog_rad == r.cog_rad->0
                &&& std_rad == r.cog_std_rad
            }
        }),
{
    speeds_in_meters_per_second();
}

/// A sentence gives nothing when its type is not listed while types are, or
/// its own talker is not listed while talkers are, and VTG never does; the
/// filter lets through exactly what both lists, where they are not empty,
/// name.
pub proof fn filter_names_talkers_and_types(c: Config, s: Sentence, t: Timestamp)
    ensures
        ({
            let talker = match s {
                Sentence::Gga(g) => g.talker,
                Sentence::Rmc(r) => r.talker,
                Sentence::Hdt(h) => h.talker,
                Sentence::Vtg(v) => v.talker,
            };
            let kind = match s {
                Sentence::Gga(_) => SentenceKind::Gga,
                Sentence::Rmc(_) => SentenceKind::Rmc,
                Sentence::Hdt(_) => SentenceKind::Hdt,
                Sentence::Vtg(_) => SentenceKind::Vtg,
            };
            let f = c.filter;
            let talker_listed = exists|i: int|
                0 <= i < f.talkers@.len() && (#[trigger] f.talkers@[i])@[0] == talker@[0]
                    && f.talkers@[i]@[1] == talker@[1];
            &&& passes(f, talker, kind) <==> (f.talkers@.len() == 0 || talker_listed) && (
            f.sentences@.len() == 0 || f.sentences@.contains(kind))
            &&& !passes(f, talker, kind) ==> measured(c, s, t) is None
            &&& s is Vtg ==> measured(c, s, t) is None
        }),
{
    let talker = match s {
        Sentence::Gga(g) => g.talker,
        Sentence::Rmc(r) => r.talker,
        Sentence::Hdt(h) => h.talker,
        Sentence::Vtg(v) => v.talker,
    };
    let f = c.filter;
    if exists|i: int| 0 <= i < f.talkers@.len() && same_talker(#[trigger] f.talkers@[i], talker) {
        let i = choose|i: int|
            0 <= i < f.talkers@.len() && same_talker(#[trigger] f.talkers@[i], talker);
        assert(f.talkers@[i]@[0] == talker@[0]);
    }
    if exists|i: int|
        0 <= i < f.talkers@.len() && (#[trigger] f.talkers@[i])@[0] == talker@[0]
            && f.talkers@[i]@[1] == talker@[1] {
        let i = choose|i: int|
            0 <= i < f.talkers@.len() && (#[trigger] f.talkers@[i])@[0] == talker@[0]
                && f.talkers@[i]@[1] == talker@[1];
        assert(same_talker(f.talkers@[i], talker));
    }
}

/// A configuration is sane exactly when its UERE, its fallback std and its
/// heading std are all above zero.
pub proof fn sane_is_all_positive(c: Config)
    ensures
        sane(c) <==> !c.uere_m.nan() && c.uere_m.units() > 0 && !c.fallback_std_m.nan()
            && c.fallback_std_m.units() > 0 && !c.heading_std_rad.nan()
            && c.heading_std_rad.units() > 0,
{
    crate::scalar::pattern_classes(Scalar { bits: 0 });
}

/// A byte that completes nothing gives nothing, a sentence that does not parse
/// its own reason, and one that does exactly its measurements, or nothing
/// where it has none.
pub proof fn push_hands_on_what_was_framed(
    d: Gnss0183Driver,
    framed: Option<Result<Sentence, SentenceError>>,
    t: Timestamp,
    r: Option<Result<MeasurementBatch, GnssError>>,
)
    requires
        call_ensures(Gnss0183Driver::push, (&d, framed, t), r),
    ensures
        framed is None ==> r is None,
        framed matches Some(Err(e)) ==> r == Some(
            Err::<MeasurementBatch, GnssError>(GnssError::Parse(e)),
        ),
        framed matches Some(Ok(s)) ==> {
            &&& measured(d.config, s, t) is None <==> r is None
            &&& measured(d.config, s, t) matches Some(batch) ==> r == Some(
                Ok::<MeasurementBatch, GnssError>(batch),
            )
        },
{
}

} // verus!
