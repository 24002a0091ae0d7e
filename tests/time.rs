use dirwalk::time::{
    civil_at, elapsed_since, is_before, native_from_signed, native_of_system_time, normalize,
    normalize_at, check_times, Elapsed, LocalOffsets, NativeInstant, RawTimes, TimeError,
};
use std::time::{Duration, SystemTime};

fn ni(secs: i64, nanos: u32) -> NativeInstant {
    NativeInstant { secs, nanos }
}

fn raw(c: Option<NativeInstant>, m: Option<NativeInstant>, s: NativeInstant, mx: NativeInstant) -> RawTimes {
    RawTimes { created: c, modified: m, status_changed: s, modified_ext: mx }
}

const UTC: LocalOffsets = LocalOffsets { created: 0, modified: 0, status_changed: 0 };

#[test]
fn signed_after_epoch() {
    assert_eq!(native_from_signed(false, 5, 7), Some(ni(5, 7)));
    assert_eq!(native_from_signed(false, i64::MAX as u64, 0), Some(ni(i64::MAX, 0)));
    assert_eq!(native_from_signed(false, i64::MAX as u64 + 1, 0), None);
}

#[test]
fn signed_before_epoch() {
    assert_eq!(native_from_signed(true, 3, 0), Some(ni(-3, 0)));
    assert_eq!(native_from_signed(true, 1, 250_000_000), Some(ni(-2, 750_000_000)));
    assert_eq!(native_from_signed(true, 1u64 << 63, 0), Some(ni(i64::MIN, 0)));
    assert_eq!(native_from_signed(true, 1u64 << 63, 1), None);
}

#[test]
fn from_parts_checks_nanos() {
    assert_eq!(NativeInstant::from_parts(10, 999_999_999), Some(ni(10, 999_999_999)));
    assert_eq!(NativeInstant::from_parts(10, 1_000_000_000), None);
    assert_eq!(NativeInstant::from_parts(10, -1), None);
}

#[test]
fn system_time_converts() {
    let t = SystemTime::UNIX_EPOCH + Duration::new(1_600_000_000, 42);
    assert_eq!(native_of_system_time(&t), Some(ni(1_600_000_000, 42)));
    let t = SystemTime::UNIX_EPOCH - Duration::new(1, 250_000_000);
    assert_eq!(native_of_system_time(&t), Some(ni(-2, 750_000_000)));
}

#[test]
fn ordering_of_instants() {
    assert!(is_before(ni(1, 5), ni(1, 6)));
    assert!(is_before(ni(-1, 999_999_999), ni(0, 0)));
    assert!(!is_before(ni(2, 0), ni(1, 999_999_999)));
    assert!(!is_before(ni(1, 5), ni(1, 5)));
}

#[test]
fn elapsed_values() {
    assert_eq!(elapsed_since(ni(10, 500), ni(7, 200)), Some(Elapsed { secs: 3, nanos: 300 }));
    assert_eq!(elapsed_since(ni(10, 100), ni(7, 200)), Some(Elapsed { secs: 2, nanos: 999_999_900 }));
    assert_eq!(elapsed_since(ni(7, 200), ni(7, 200)), Some(Elapsed { secs: 0, nanos: 0 }));
    assert_eq!(elapsed_since(ni(7, 199), ni(7, 200)), None);
    assert_eq!(
        elapsed_since(ni(i64::MAX, 0), ni(i64::MIN, 0)),
        Some(Elapsed { secs: u64::MAX, nanos: 0 })
    );
}

#[test]
fn civil_rendering_at_offsets() {
    let c = civil_at(ni(0, 0), 0).unwrap();
    assert_eq!(c.text, "1970-01-01T00:00:00+00:00");
    let c = civil_at(ni(0, 0), 3600).unwrap();
    assert_eq!(c.text, "1970-01-01T01:00:00+01:00");
    assert_eq!(c.offset_secs, 3600);
    assert_eq!(c.instant, ni(0, 0));
    let c = civil_at(ni(1_700_000_000, 500_000_000), -18_000).unwrap();
    assert_eq!(c.text, "2023-11-14T17:13:20.500-05:00");
    assert!(civil_at(ni(i64::MAX, 0), 0).is_none());
}

#[test]
fn civil_rederivation_is_identical() {
    let a = civil_at(ni(1_234_567_890, 123), 7200).unwrap();
    let b = civil_at(a.instant, a.offset_secs).unwrap();
    assert_eq!(a.text, b.text);
    assert_eq!(a.instant, b.instant);
}

#[test]
fn check_reports_each_error() {
    let now = ni(100, 0);
    let s = ni(50, 0);
    assert_eq!(check_times(&raw(None, Some(ni(20, 0)), s, ni(20, 0)), now), Some(TimeError::MetadataUnavailable));
    assert_eq!(check_times(&raw(Some(ni(10, 0)), None, s, ni(20, 0)), now), Some(TimeError::MetadataUnavailable));
    assert_eq!(check_times(&raw(Some(ni(10, 0)), Some(ni(101, 0)), s, ni(101, 0)), now), Some(TimeError::ClockSkew));
    assert_eq!(check_times(&raw(Some(ni(20, 0)), Some(ni(20, 0)), s, ni(20, 0)), now), Some(TimeError::OrderingViolation));
    assert_eq!(check_times(&raw(Some(ni(30, 0)), Some(ni(20, 0)), s, ni(20, 0)), now), Some(TimeError::OrderingViolation));
    assert_eq!(check_times(&raw(Some(ni(10, 0)), Some(ni(20, 0)), s, ni(20, 1)), now), Some(TimeError::InconsistentModified));
    assert_eq!(check_times(&raw(Some(ni(10, 0)), Some(ni(20, 0)), s, ni(20, 0)), now), None);
}

#[test]
fn normalize_created_then_modified_one_second_later() {
    let r = raw(Some(ni(1_000, 0)), Some(ni(1_001, 0)), ni(1_001, 0), ni(1_001, 0));
    let t = normalize_at(&r, ni(1_010, 250), UTC).unwrap();
    assert_eq!(t.created.civil.text, "1970-01-01T00:16:40+00:00");
    assert_eq!(t.modified.civil.text, "1970-01-01T00:16:41+00:00");
    assert_eq!(t.status_changed.text, "1970-01-01T00:16:41+00:00");
    assert_eq!(t.created.elapsed, Elapsed { secs: 10, nanos: 250 });
    assert_eq!(t.modified.elapsed, Elapsed { secs: 9, nanos: 250 });
    assert!(is_before(t.created.civil.instant, t.modified.civil.instant));
}

#[test]
fn normalize_at_uses_each_offset() {
    let r = raw(Some(ni(0, 0)), Some(ni(60, 0)), ni(120, 0), ni(60, 0));
    let offs = LocalOffsets { created: 3600, modified: -3600, status_changed: 1800 };
    let t = normalize_at(&r, ni(200, 0), offs).unwrap();
    assert_eq!(t.created.civil.text, "1970-01-01T01:00:00+01:00");
    assert_eq!(t.modified.civil.text, "1969-12-31T23:01:00-01:00");
    assert_eq!(t.status_changed.text, "1970-01-01T00:32:00+00:30");
}

#[test]
fn normalize_at_reports_failed_checks_first() {
    let r = raw(Some(ni(20, 0)), Some(ni(10, 0)), ni(i64::MAX, 0), ni(10, 0));
    assert_eq!(normalize_at(&r, ni(100, 0), UTC).unwrap_err(), TimeError::OrderingViolation);
    let r = raw(Some(ni(20, 0)), Some(ni(30, 0)), ni(i64::MAX, 0), ni(30, 0));
    assert_eq!(normalize_at(&r, ni(100, 0), UTC).unwrap_err(), TimeError::Unrepresentable);
}

#[test]
fn normalize_local_passes_checks_through() {
    let r = raw(None, Some(ni(10, 0)), ni(10, 0), ni(10, 0));
    assert_eq!(normalize(&r, ni(100, 0)).unwrap_err(), TimeError::MetadataUnavailable);
    let r = raw(Some(ni(10, 0)), Some(ni(20, 0)), ni(20, 0), ni(20, 0));
    let t = normalize(&r, ni(100, 0)).unwrap();
    assert_eq!(t.created.civil.instant, ni(10, 0));
    assert_eq!(t.modified.elapsed, Elapsed { secs: 80, nanos: 0 });
}
