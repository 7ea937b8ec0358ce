use hammond::labels::{
    date_label, duration_label, episode_size_format, size_text, total_size_label,
    total_size_step, SizeError,
};

const SEP_13_2017: i32 = 1505296800;
const AUG_9_2017: i32 = 1502272800;
const NOV_6_2017: i64 = 1510000000;
const JAN_1_2020: i64 = 1577836800;

#[test]
fn date_label_hides_the_current_year() {
    assert_eq!(date_label(SEP_13_2017, NOV_6_2017).as_deref(), Some("13 Sep"));
    assert_eq!(date_label(AUG_9_2017, NOV_6_2017).as_deref(), Some("9 Aug"));
}

#[test]
fn date_label_shows_another_year() {
    assert_eq!(date_label(SEP_13_2017, JAN_1_2020).as_deref(), Some("13 Sep 2017"));
    assert_eq!(date_label(0, JAN_1_2020).as_deref(), Some("1 Jan 1970"));
}

#[test]
fn duration_label_counts_whole_minutes() {
    assert_eq!(duration_label(Some(3600)).as_deref(), Some("60 min"));
    assert_eq!(duration_label(Some(119)).as_deref(), Some("1 min"));
    assert_eq!(duration_label(Some(59)), None);
    assert_eq!(duration_label(Some(-59)), None);
    assert_eq!(duration_label(Some(-120)).as_deref(), Some("-2 min"));
    assert_eq!(duration_label(None), None);
    assert_eq!(duration_label(Some(i32::MAX)).as_deref(), Some("35791394 min"));
    assert_eq!(duration_label(Some(i32::MIN)).as_deref(), Some("-35791394 min"));
}

#[test]
fn size_text_uses_binary_divider_and_decimal_units() {
    assert_eq!(size_text(1000), "1000 B");
    assert_eq!(size_text(1024), "1 KB");
    assert_eq!(size_text(66738886), "64 MB");
    let f = episode_size_format();
    assert!(f.binary_divider && !f.binary_units && f.space);
    assert_eq!(f.decimal_places, 0);
}

#[test]
fn total_size_label_cases() {
    assert_eq!(total_size_label(None), Err(SizeError::Missing));
    assert_eq!(total_size_label(Some(0)), Err(SizeError::Zero));
    assert_eq!(total_size_label(Some(-5)), Err(SizeError::Negative));
    assert_eq!(total_size_label(Some(66738886)), Ok("64 MB".to_string()));
    assert_eq!(total_size_label(Some(2048)), Ok("2 KB".to_string()));
}

#[test]
fn total_size_step_waits_for_a_size() {
    assert_eq!(total_size_step(0), None);
    assert_eq!(total_size_step(2048).as_deref(), Some("2 KB"));
}
