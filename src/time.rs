//! The timestamp normaliser: native instants (seconds and nanoseconds since
//! the Unix epoch), their civil renderings at a time-zone offset, and the
//! sanity checks made on a file's creation, modification and status-change
//! times.
use chrono::TimeZone;
use std::time::SystemTime;
use vstd::prelude::*;

verus! {

/// Nanoseconds in one second.
pub const NANOS_PER_SEC: u32 = 1_000_000_000;

#[verifier::external_type_specification]
#[verifier::external_body]
pub struct ExSystemTime(SystemTime);

/// A point in time as whole seconds since the Unix epoch (negative before
/// it) and the nanoseconds past that second.
#[derive(Clone, Copy, Debug, PartialEq, Eq, Structural)]
pub struct NativeInstant {
    pub secs: i64,
    pub nanos: u32,
}

impl NativeInstant {
    pub open spec fn wf(&self) -> bool {
        self.nanos < NANOS_PER_SEC
    }

    /// Nanoseconds since the epoch.
    pub open spec fn total_nanos(&self) -> int {
        self.secs * NANOS_PER_SEC as int + self.nanos
    }

    /// The instant of `secs` seconds and `nanos` nanoseconds, where `nanos`
    /// is a valid sub-second part.
    pub fn from_parts(secs: i64, nanos: i64) -> (r: Option<NativeInstant>)
        ensures
            r is Some <==> 0 <= nanos < NANOS_PER_SEC,
            r matches Some(n) ==> n.wf() && n.secs == secs && n.nanos == nanos,
    {
        if 0 <= nanos && nanos < NANOS_PER_SEC as i64 {
            Some(NativeInstant { secs, nanos: nanos as u32 })
        } else {
            None
        }
    }
}

/// The signed distance from the epoch of a duration of `secs` seconds and
/// `nanos` nanoseconds, taken before the epoch when `before_epoch` holds.
pub open spec fn signed_nanos(before_epoch: bool, secs: u64, nanos: u32) -> int {
    let t = secs * NANOS_PER_SEC as int + nanos;
    if before_epoch {
        -t
    } else {
        t
    }
}

/// Normalises a signed distance from the epoch into whole seconds, rounded
/// down, and a non-negative sub-second part. `None` when the seconds do not
/// fit an `i64`.
pub fn native_from_signed(before_epoch: bool, secs: u64, nanos: u32) -> (r: Option<NativeInstant>)
    requires
        nanos < NANOS_PER_SEC,
    ensures
        r is Some <==> i64::MIN * NANOS_PER_SEC as int <= signed_nanos(before_epoch, secs, nanos)
            < (i64::MAX + 1) * NANOS_PER_SEC as int,
        r matches Some(n) ==> n.wf() && n.total_nanos() == signed_nanos(
            before_epoch,
            secs,
            nanos,
        ),
{
    if !before_epoch {
        if secs > i64::MAX as u64 {
            None
        } else {
            Some(NativeInstant { secs: secs as i64, nanos })
        }
    } else if nanos == 0 {
        if secs > i64::MAX as u64 + 1 {
            None
        } else {
            Some(NativeInstant { secs: (0i128 - secs as i128) as i64, nanos: 0 })
        }
    } else {
        if secs > i64::MAX as u64 {
            None
        } else {
            Some(NativeInstant { secs: -(secs as i64) - 1, nanos: NANOS_PER_SEC - nanos })
        }
    }
}

/// The distance of `t` from the epoch as `SystemTime::duration_since` gives
/// it: whether `t` lies before the epoch, whole seconds, and nanoseconds.
pub uninterp spec fn epoch_distance_of(t: SystemTime) -> (bool, u64, u32);

/// Relies on `SystemTime::duration_since(UNIX_EPOCH)`: the distance of `t`
/// from the epoch, and whether `t` lies before it (the `Err` case), as whole
/// seconds and a sub-second part, which `Duration` keeps under one second.
#[verifier::external_body]
fn epoch_distance(t: &SystemTime) -> (r: (bool, u64, u32))
    ensures
        r == epoch_distance_of(*t),
        r.2 < NANOS_PER_SEC,
{
    match t.duration_since(SystemTime::UNIX_EPOCH) {
        Ok(d) => (false, d.as_secs(), d.subsec_nanos()),
        Err(e) => (true, e.duration().as_secs(), e.duration().subsec_nanos()),
    }
}

/// The native instant of a system time, also before the epoch. `None` when
/// its seconds do not fit an `i64`.
pub fn native_of_system_time(t: &SystemTime) -> (r: Option<NativeInstant>)
    ensures
        ({
            let d = epoch_distance_of(*t);
            &&& r is Some <==> i64::MIN * NANOS_PER_SEC as int <= signed_nanos(d.0, d.1, d.2) < (
            i64::MAX + 1) * NANOS_PER_SEC as int
            &&& r matches Some(n) ==> n.wf() && n.total_nanos() == signed_nanos(d.0, d.1, d.2)
        }),
{
    let (before_epoch, secs, nanos) = epoch_distance(t);
    native_from_signed(before_epoch, secs, nanos)
}

/// Whether `a` is strictly earlier than `b`.
pub fn is_before(a: NativeInstant, b: NativeInstant) -> (r: bool)
    requires
        a.wf(),
        b.wf(),
    ensures
        r == (a.total_nanos() < b.total_nanos()),
{
    proof {
        lemma_total_order(a, b);
    }
    a.secs < b.secs || (a.secs == b.secs && a.nanos < b.nanos)
}

proof fn lemma_total_order(a: NativeInstant, b: NativeInstant)
    requires
        a.wf(),
        b.wf(),
    ensures
        a.secs < b.secs ==> a.total_nanos() < b.total_nanos(),
        b.secs < a.secs ==> b.total_nanos() < a.total_nanos(),
{
    let n = NANOS_PER_SEC as int;
    assert(a.secs < b.secs ==> a.secs * n + n <= b.secs * n) by (nonlinear_arith)
        requires
            n == 1_000_000_000,
    ;
    assert(b.secs < a.secs ==> b.secs * n + n <= a.secs * n) by (nonlinear_arith)
        requires
            n == 1_000_000_000,
    ;
}

/// A non-negative span of time: whole seconds and the nanoseconds past them.
#[derive(Clone, Copy, Debug, PartialEq, Eq, Structural)]
pub struct Elapsed {
    pub secs: u64,
    pub nanos: u32,
}

impl Elapsed {
    pub open spec fn total_nanos(&self) -> int {
        self.secs * NANOS_PER_SEC as int + self.nanos
    }
}

/// The time from `t` to `now`; `None` when `now` is earlier than `t`.
pub fn elapsed_since(now: NativeInstant, t: NativeInstant) -> (r: Option<Elapsed>)
    requires
        now.wf(),
        t.wf(),
    ensures
        r is Some <==> t.total_nanos() <= now.total_nanos(),
        r matches Some(e) ==> e.nanos < NANOS_PER_SEC && e.total_nanos() == now.total_nanos()
            - t.total_nanos(),
{
    proof {
        lemma_total_order(t, now);
    }
    if is_before(now, t) {
        return None;
    }
    let d: i128 = now.secs as i128 - t.secs as i128;
    if now.nanos >= t.nanos {
        Some(Elapsed { secs: d as u64, nanos: now.nanos - t.nanos })
    } else {
        Some(Elapsed { secs: (d - 1) as u64, nanos: NANOS_PER_SEC - t.nanos + now.nanos })
    }
}

/// The RFC 3339 rendering of the instant `secs`, `nanos` at the fixed offset
/// of `offset` seconds east of UTC; `None` where chrono cannot represent it.
pub uninterp spec fn rfc3339_of(secs: int, nanos: int, offset: int) -> Option<Seq<char>>;

/// Relies on chrono's `FixedOffset::east_opt`, `TimeZone::timestamp_opt` and
/// `DateTime::to_rfc3339`: the civil rendering of an instant at a fixed
/// offset, which depends on those three values alone.
#[verifier::external_body]
fn rfc3339_at(secs: i64, nanos: u32, offset: i32) -> (r: Option<String>)
    ensures
        r matches Some(s) ==> rfc3339_of(secs as int, nanos as int, offset as int) == Some(s@),
        r is None ==> rfc3339_of(secs as int, nanos as int, offset as int) is None,
{
    match chrono::FixedOffset::east_opt(offset) {
        Some(tz) => match tz.timestamp_opt(secs, nanos).single() {
            Some(dt) => Some(dt.to_rfc3339()),
            None => None,
        },
        None => None,
    }
}

/// Relies on chrono's `Local` time zone (`TimeZone::timestamp_opt` and
/// `FixedOffset::local_minus_utc`): the local offset from UTC at an instant,
/// in seconds. It depends on the machine's time-zone settings; chrono keeps
/// every such offset strictly within one day.
#[verifier::external_body]
fn local_offset_at(secs: i64, nanos: u32) -> (r: Option<i32>)
    ensures
        r matches Some(o) ==> -86_400 < o < 86_400,
{
    match chrono::Local.timestamp_opt(secs, nanos).single() {
        Some(dt) => Some(dt.offset().local_minus_utc()),
        None => None,
    }
}

/// A civil timestamp: an instant, the offset east of UTC it is shown at, and
/// its RFC 3339 rendering there.
#[derive(Debug)]
pub struct CivilTime {
    pub instant: NativeInstant,
    pub offset_secs: i32,
    pub text: String,
}

/// `c` is the civil form of the instant `n`, at the offset that `c` records.
pub open spec fn is_civil_of(n: NativeInstant, c: &CivilTime) -> bool {
    &&& c.instant == n
    &&& -86_400 < c.offset_secs < 86_400
    &&& rfc3339_of(n.secs as int, n.nanos as int, c.offset_secs as int) == Some(c.text@)
}

/// The civil form of `n` at `offset_secs` seconds east of UTC; `None` where
/// it cannot be represented.
pub fn civil_at(n: NativeInstant, offset_secs: i32) -> (r: Option<CivilTime>)
    requires
        n.wf(),
        -86_400 < offset_secs < 86_400,
    ensures
        r is Some <==> rfc3339_of(n.secs as int, n.nanos as int, offset_secs as int) is Some,
        r matches Some(c) ==> is_civil_of(n, &c) && c.offset_secs == offset_secs,
{
    match rfc3339_at(n.secs, n.nanos, offset_secs) {
        Some(text) => Some(CivilTime { instant: n, offset_secs, text }),
        None => None,
    }
}

/// The civil form of a civil timestamp is a function of its instant and its
/// offset: deriving it again from the same two values gives the same value.
pub proof fn lemma_civil_rederives(n: NativeInstant, c1: &CivilTime, c2: &CivilTime)
    requires
        is_civil_of(n, c1),
        is_civil_of(c1.instant, c2),
        c2.offset_secs == c1.offset_secs,
    ensures
        c2.instant == c1.instant,
        c2.offset_secs == c1.offset_secs,
        c2.text@ == c1.text@,
{
}

/// The civil form of `n` in the machine's local time zone. `None` where the
/// zone gives no offset or the rendering is not representable.
pub fn local_civil(n: NativeInstant) -> (r: Option<CivilTime>)
    requires
        n.wf(),
    ensures
        r matches Some(c) ==> is_civil_of(n, &c),
{
    match local_offset_at(n.secs, n.nanos) {
        Some(o) => civil_at(n, o),
        None => None,
    }
}

/// Why a file's timestamps could not be normalised.
#[derive(Clone, Copy, Debug, PartialEq, Eq, Structural)]
pub enum TimeError {
    /// The file system reports no creation or no modification time.
    MetadataUnavailable,
    /// The clock reads earlier than the creation or modification time.
    ClockSkew,
    /// The file was not created strictly before it was modified.
    OrderingViolation,
    /// The two sources of the modification time disagree.
    InconsistentModified,
    /// An instant has no civil form in the local time zone.
    Unrepresentable,
}

/// The times read from one file's metadata: creation and modification time
/// from the portable metadata (absent where the platform lacks them), and
/// status-change and modification time from the platform-specific metadata.
#[derive(Clone, Copy, Debug)]
pub struct RawTimes {
    pub created: Option<NativeInstant>,
    pub modified: Option<NativeInstant>,
    pub status_changed: NativeInstant,
    pub modified_ext: NativeInstant,
}

impl RawTimes {
    pub open spec fn wf(&self) -> bool {
        &&& self.created matches Some(c) ==> c.wf()
        &&& self.modified matches Some(m) ==> m.wf()
        &&& self.status_changed.wf()
        &&& self.modified_ext.wf()
    }
}

/// The local offsets, in seconds east of UTC, at which each time is shown.
#[derive(Clone, Copy, Debug)]
pub struct LocalOffsets {
    pub created: i32,
    pub modified: i32,
    pub status_changed: i32,
}

impl LocalOffsets {
    pub open spec fn wf(&self) -> bool {
        &&& -86_400 < self.created < 86_400
        &&& -86_400 < self.modified < 86_400
        &&& -86_400 < self.status_changed < 86_400
    }
}

/// One time of a file in civil form, with the time elapsed since it.
#[derive(Debug)]
pub struct Stamp {
    pub civil: CivilTime,
    pub elapsed: Elapsed,
}

/// A file's creation, modification and status-change times, normalised.
#[derive(Debug)]
pub struct TimestampTriple {
    pub created: Stamp,
    pub modified: Stamp,
    pub status_changed: CivilTime,
}

/// The first sanity check that the raw times fail, in the order: both
/// portable times present, neither later than `now`, creation strictly before
/// modification, the two modification times the same instant.
pub open spec fn first_failed_check(raw: RawTimes, now: NativeInstant) -> Option<TimeError> {
    if raw.created is None || raw.modified is None {
        Some(TimeError::MetadataUnavailable)
    } else {
        let c = raw.created->0;
        let m = raw.modified->0;
        if now.total_nanos() < c.total_nanos() || now.total_nanos() < m.total_nanos() {
            Some(TimeError::ClockSkew)
        } else if !(c.total_nanos() < m.total_nanos()) {
            Some(TimeError::OrderingViolation)
        } else if m != raw.modified_ext {
            Some(TimeError::InconsistentModified)
        } else {
            None
        }
    }
}

/// `s` shows the instant `n` in civil form, with the time from `n` to `now`.
pub open spec fn is_stamp_of(n: NativeInstant, now: NativeInstant, s: &Stamp) -> bool {
    &&& is_civil_of(n, &s.civil)
    &&& s.elapsed.nanos < NANOS_PER_SEC
    &&& s.elapsed.total_nanos() == now.total_nanos() - n.total_nanos()
}

/// `t` is a normalisation of `raw` at the time `now`.
pub open spec fn is_triple_of(raw: RawTimes, now: NativeInstant, t: &TimestampTriple) -> bool {
    &&& is_stamp_of(raw.created->0, now, &t.created)
    &&& is_stamp_of(raw.modified->0, now, &t.modified)
    &&& is_civil_of(raw.status_changed, &t.status_changed)
}

/// Every time of `raw` has a civil form at its offset in `offs`.
pub open spec fn renderable(raw: RawTimes, offs: LocalOffsets) -> bool {
    &&& rfc3339_of(raw.created->0.secs as int, raw.created->0.nanos as int, offs.created as int) is Some
    &&& rfc3339_of(raw.modified->0.secs as int, raw.modified->0.nanos as int, offs.modified as int) is Some
    &&& rfc3339_of(raw.status_changed.secs as int, raw.status_changed.nanos as int, offs.status_changed as int) is Some
}

/// `r` is the outcome owed for normalising `raw` at the time `now`, with each
/// time shown at its offset in `offs`.
pub open spec fn normalized_at(
    raw: RawTimes,
    now: NativeInstant,
    offs: LocalOffsets,
    r: &Result<TimestampTriple, TimeError>,
) -> bool {
    match first_failed_check(raw, now) {
        Some(e) => *r == Err::<TimestampTriple, TimeError>(e),
        None => if renderable(raw, offs) {
            &&& r matches Ok(t)
            &&& is_triple_of(raw, now, &t)
            &&& t.created.civil.offset_secs == offs.created
            &&& t.modified.civil.offset_secs == offs.modified
            &&& t.status_changed.offset_secs == offs.status_changed
        } else {
            *r == Err::<TimestampTriple, TimeError>(TimeError::Unrepresentable)
        },
    }
}

/// Runs the sanity checks on a file's raw times.
pub fn check_times(raw: &RawTimes, now: NativeInstant) -> (r: Option<TimeError>)
    requires
        raw.wf(),
        now.wf(),
    ensures
        r == first_failed_check(*raw, now),
{
    let (c, m) = match (raw.created, raw.modified) {
        (Some(c), Some(m)) => (c, m),
        _ => {
            return Some(TimeError::MetadataUnavailable);
        },
    };
    if is_before(now, c) || is_before(now, m) {
        return Some(TimeError::ClockSkew);
    }
    if !is_before(c, m) {
        return Some(TimeError::OrderingViolation);
    }
    if m != raw.modified_ext {
        return Some(TimeError::InconsistentModified);
    }
    None
}

/// Normalises a file's raw times at the time `now`, showing each at the
/// given local offset.
pub fn normalize_at(raw: &RawTimes, now: NativeInstant, offs: LocalOffsets) -> (r: Result<
    TimestampTriple,
    TimeError,
>)
    requires
        raw.wf(),
        now.wf(),
        offs.wf(),
    ensures
        normalized_at(*raw, now, offs, &r),
{
    if let Some(e) = check_times(raw, now) {
        return Err(e);
    }
    let c = raw.created.unwrap();
    let m = raw.modified.unwrap();
    let c_elapsed = elapsed_since(now, c).unwrap();
    let m_elapsed = elapsed_since(now, m).unwrap();
    let c_civil = match civil_at(c, offs.created) {
        Some(x) => x,
        None => {
            return Err(TimeError::Unrepresentable);
        },
    };
    let m_civil = match civil_at(m, offs.modified) {
        Some(x) => x,
        None => {
            return Err(TimeError::Unrepresentable);
        },
    };
    let s_civil = match civil_at(raw.status_changed, offs.status_changed) {
        Some(x) => x,
        None => {
            return Err(TimeError::Unrepresentable);
        },
    };
    Ok(
        TimestampTriple {
            created: Stamp { civil: c_civil, elapsed: c_elapsed },
            modified: Stamp { civil: m_civil, elapsed: m_elapsed },
            status_changed: s_civil,
        },
    )
}

/// Normalises a file's raw times at the time `now`, each shown in the
/// machine's local time zone. A failed sanity check is reported as such;
/// past them, only a time without a local civil form fails.
pub fn normalize(raw: &RawTimes, now: NativeInstant) -> (r: Result<TimestampTriple, TimeError>)
    requires
        raw.wf(),
        now.wf(),
    ensures
        first_failed_check(*raw, now) matches Some(e) ==> r == Err::<TimestampTriple, TimeError>(e),
        first_failed_check(*raw, now) is None ==> r is Ok || r == Err::<TimestampTriple, TimeError>(
            TimeError::Unrepresentable,
        ),
        r matches Ok(t) ==> is_triple_of(*raw, now, &t),
{
    if let Some(e) = check_times(raw, now) {
        return Err(e);
    }
    let c = raw.created.unwrap();
    let m = raw.modified.unwrap();
    let oc = local_offset_at(c.secs, c.nanos);
    let om = local_offset_at(m.secs, m.nanos);
    let os = local_offset_at(raw.status_changed.secs, raw.status_changed.nanos);
    match (oc, om, os) {
        (Some(created), Some(modified), Some(status_changed)) => {
            normalize_at(raw, now, LocalOffsets { created, modified, status_changed })
        },
        _ => Err(TimeError::Unrepresentable),
    }
}

/// A file created at `b` and modified one second later, whose two modification
/// times agree, is normalised at any later time `now` where its times have
/// civil forms: creation comes before modification, and the three civil
/// texts are the RFC 3339 renderings of the creation, modification and
/// status-change times at their offsets.
pub proof fn lemma_created_then_modified(
    raw: RawTimes,
    now: NativeInstant,
    offs: LocalOffsets,
    r: &Result<TimestampTriple, TimeError>,
)
    requires
        raw.wf(),
        now.wf(),
        normalized_at(raw, now, offs, r),
        raw.created is Some,
        raw.modified == Some(raw.modified_ext),
        raw.modified_ext.total_nanos() == raw.created->0.total_nanos() + NANOS_PER_SEC,
        raw.modified_ext.total_nanos() <= now.total_nanos(),
        renderable(raw, offs),
    ensures
        r matches Ok(t) && {
            let b = raw.created->0;
            let m = raw.modified_ext;
            let s = raw.status_changed;
            &&& t.created.civil.instant.total_nanos() < t.modified.civil.instant.total_nanos()
            &&& Some(t.created.civil.text@) == rfc3339_of(b.secs as int, b.nanos as int, offs.created as int)
            &&& Some(t.modified.civil.text@) == rfc3339_of(m.secs as int, m.nanos as int, offs.modified as int)
            &&& Some(t.status_changed.text@) == rfc3339_of(s.secs as int, s.nanos as int, offs.status_changed as int)
        },
{
}

} // verus!
