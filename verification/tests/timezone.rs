use embedded_utils::time::{DateTime, TimeZone};

#[test]
fn utc_has_no_offset() {
    assert_eq!(TimeZone::UTC.get_offset(), 0);
}

#[test]
fn shanghai_is_eight_hours_ahead() {
    assert_eq!(TimeZone::AsiaShanghai.get_offset(), 28_800);
    assert_eq!(TimeZone::AsiaShanghai.get_offset(), 8 * 3600);
}

#[test]
fn default_zone_is_utc() {
    assert_eq!(TimeZone::default(), TimeZone::UTC);
    assert_eq!(TimeZone::default().get_offset(), 0);
}

#[test]
fn offset_depends_on_the_variant_alone() {
    for &zone in [TimeZone::UTC, TimeZone::AsiaShanghai].iter() {
        let first = zone.get_offset();
        // Conversions in between leave the offset as it was.
        let early = DateTime::from_unix_millis(0, zone);
        let late = DateTime::from_unix_millis(1_704_067_199_998, zone);
        assert_eq!(zone.get_offset(), first);
        assert_eq!(early.timezone.get_offset(), first);
        assert_eq!(late.timezone.get_offset(), first);
        let copy = zone;
        assert_eq!(copy.get_offset(), first);
    }
}

#[test]
fn offsets_are_whole_hours_within_a_day() {
    for &zone in [TimeZone::UTC, TimeZone::AsiaShanghai].iter() {
        let offset = zone.get_offset();
        assert!(0 <= offset && offset < 86_400);
        assert_eq!(offset % 3600, 0);
    }
}

#[test]
fn zones_compare_and_print() {
    assert_eq!(TimeZone::UTC, TimeZone::UTC);
    assert_ne!(TimeZone::UTC, TimeZone::AsiaShanghai);
    assert_eq!(format!("{:?}", TimeZone::UTC), "UTC");
    assert_eq!(format!("{:?}", TimeZone::AsiaShanghai), "AsiaShanghai");
}
