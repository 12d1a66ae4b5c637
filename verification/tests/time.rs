use foxglove::time::{normalize, normalize_nsec, Duration, Timestamp};
use foxglove::RangeError;

#[test]
fn test_normalize() {
    assert_eq!(normalize(0, 0), (0, 0));
    assert_eq!(normalize(0, 999_999_999), (0, 999_999_999));
    assert_eq!(normalize(0, 1_000_000_000), (1, 0));
    assert_eq!(normalize(0, 2_999_999_999), (2, 999_999_999));
    assert_eq!(normalize(-1, 1_111_111_111), (0, 111_111_111));
    assert_eq!(
        normalize(i32::MIN as i64, 1_000_000_001),
        (i32::MIN as i64 + 1, 1)
    );
    assert_eq!(
        normalize(i32::MAX as i64, 1_000_000_001),
        (i32::MAX as i64 + 1, 1)
    );
    assert_eq!(
        normalize(u32::MAX as i64, 1_000_000_001),
        (u32::MAX as i64 + 1, 1)
    );
    assert_eq!(
        normalize(u32::MAX as i64, u32::MAX),
        (u32::MAX as i64 + 4, 294_967_295)
    );
}

#[test]
fn test_normalize_nsec() {
    assert_eq!(normalize_nsec(0), (0, 0));
    assert_eq!(normalize_nsec(999_999_999), (0, 999_999_999));
    assert_eq!(normalize_nsec(1_000_000_000), (1, 0));
    assert_eq!(normalize_nsec(u32::MAX), (4, 294_967_295));
}

#[test]
fn test_timestamp_new() {
    let t = Timestamp::new(1, 500).unwrap();
    assert_eq!((t.sec, t.nsec), (1, 500));
    let t = Timestamp::new(1, 1_000_000_000).unwrap();
    assert_eq!((t.sec, t.nsec), (2, 0));
    let t = Timestamp::new(u32::MAX, 999_999_999).unwrap();
    assert_eq!((t.sec, t.nsec), (u32::MAX, 999_999_999));
    assert_eq!(
        Timestamp::new(u32::MAX, 1_000_000_000),
        Err(RangeError::UpperBound)
    );
}

#[test]
fn test_timestamp_from_epoch() {
    let t = Timestamp::try_from_epoch(12, 34).unwrap();
    assert_eq!((t.sec, t.nsec), (12, 34));
    assert_eq!(
        Timestamp::try_from_epoch(u32::MAX as u64 + 1, 0),
        Err(RangeError::UpperBound)
    );
    let t = Timestamp::saturating_from_epoch(u32::MAX as u64 + 1, 0);
    assert_eq!((t.sec, t.nsec), (u32::MAX, u32::MAX));
    let t = Timestamp::saturating_from_epoch(7, 8);
    assert_eq!((t.sec, t.nsec), (7, 8));
}

#[test]
fn test_timestamp_from_timedelta_parts() {
    let t = Timestamp::from_timedelta_parts(1, 2, 3).unwrap();
    assert_eq!((t.sec, t.nsec), (86402, 3000));
    assert_eq!(
        Timestamp::from_timedelta_parts(-1, 0, 0),
        Err(RangeError::LowerBound)
    );
    assert_eq!(
        Timestamp::from_timedelta_parts(i32::MAX, 86399, 0),
        Err(RangeError::UpperBound)
    );
}

#[test]
fn test_duration_new() {
    let d = Duration::new(-4, 858_407_346).unwrap();
    assert_eq!((d.sec, d.nsec), (-4, 858_407_346));
    let d = Duration::new(2, 1_718_281_828).unwrap();
    assert_eq!((d.sec, d.nsec), (3, 718_281_828));
    assert_eq!(
        Duration::new(i32::MAX, 1_000_000_000),
        Err(RangeError::UpperBound)
    );
}

#[test]
fn test_duration_from_std_parts() {
    let d = Duration::try_from_std_parts(1, 234_000_000).unwrap();
    assert_eq!((d.sec, d.nsec), (1, 234_000_000));
    let d = Duration::try_from_std_parts(i32::MAX as u64, 999_999_999).unwrap();
    assert_eq!((d.sec, d.nsec), (i32::MAX, 999_999_999));
    assert_eq!(
        Duration::try_from_std_parts(i32::MAX as u64 + 1, 0),
        Err(RangeError::UpperBound)
    );
    let d = Duration::saturating_from_std_parts(i32::MAX as u64 + 1, 0);
    assert_eq!((d.sec, d.nsec), (i32::MAX, u32::MAX));
}

#[test]
fn test_duration_from_secs_and_subsec_nanos() {
    let d = Duration::from_secs_and_subsec_nanos(0, -100_000_000).unwrap();
    assert_eq!((d.sec, d.nsec), (-1, 900_000_000));
    let d = Duration::from_secs_and_subsec_nanos(-1, -618_033_989).unwrap();
    assert_eq!((d.sec, d.nsec), (-2, 381_966_011));
    let d = Duration::from_secs_and_subsec_nanos(5, 5).unwrap();
    assert_eq!((d.sec, d.nsec), (5, 5));
    assert_eq!(
        Duration::from_secs_and_subsec_nanos(i32::MIN as i64, -1),
        Err(RangeError::LowerBound)
    );
    assert_eq!(
        Duration::from_secs_and_subsec_nanos(i32::MAX as i64 + 1, 0),
        Err(RangeError::UpperBound)
    );
}

#[test]
fn test_duration_default_canonical() {
    let d = Duration::default();
    assert_eq!((d.sec, d.nsec), (0, 0));
    let t = Timestamp::default();
    assert_eq!((t.sec, t.nsec), (0, 0));
}
