use gateway_client::commands::{
    conversation_id_from, format_reset_time, generate_conversation_id, reset_time_label,
    RESET_TIME_PATTERN,
};

#[test]
fn conversation_id_is_local_and_the_clock() {
    assert_eq!(conversation_id_from(0), "local_0");
    assert_eq!(conversation_id_from(1700000000123456789), "local_1700000000123456789");
    assert_eq!(conversation_id_from(-5), "local_-5");
}

#[test]
fn generated_conversation_id_has_the_prefix() {
    let id = generate_conversation_id();
    let number = id.strip_prefix("local_").unwrap();
    assert!(number.parse::<i64>().is_ok());
    assert_eq!(conversation_id_from(number.parse::<i64>().unwrap()), id);
}

#[test]
fn label_prefers_the_local_rendering() {
    assert_eq!(reset_time_label("raw".to_string(), Some("01-02 03:04".to_string())), "01-02 03:04");
    assert_eq!(reset_time_label("raw".to_string(), None), "raw");
}

#[test]
fn text_that_is_no_time_is_shown_unchanged() {
    assert_eq!(format_reset_time("soon".to_string()), "soon");
    assert_eq!(format_reset_time(String::new()), "");
    assert_eq!(format_reset_time("2024-13-40T00:00:00Z".to_string()), "2024-13-40T00:00:00Z");
}

#[test]
fn rfc3339_time_is_shown_as_month_day_hour_minute() {
    assert_eq!(RESET_TIME_PATTERN, "%m-%d %H:%M");
    let label = format_reset_time("2024-06-15T12:30:45+00:00".to_string());
    let shape: Vec<bool> = label.chars().map(|c| c.is_ascii_digit()).collect();
    assert_eq!(label.len(), 11);
    assert_eq!(
        shape,
        vec![true, true, false, true, true, false, true, true, false, true, true]
    );
    assert_eq!(&label[2..3], "-");
    assert_eq!(&label[5..6], " ");
    assert_eq!(&label[8..9], ":");
    assert_ne!(label, "2024-06-15T12:30:45+00:00");
}

#[test]
fn shown_reset_time_has_fields_in_range() {
    for iso in [
        "2024-06-15T12:30:45+00:00",
        "2024-12-31T23:59:59Z",
        "2024-01-01T00:00:00-11:00",
        "2024-02-29T06:07:08.123+05:45",
    ] {
        let label = format_reset_time(iso.to_string());
        assert_eq!(label.len(), 11, "{:?}", label);
        let month: u32 = label[0..2].parse().unwrap();
        let day: u32 = label[3..5].parse().unwrap();
        let hour: u32 = label[6..8].parse().unwrap();
        let minute: u32 = label[9..11].parse().unwrap();
        assert!((1..=12).contains(&month));
        assert!((1..=31).contains(&day));
        assert!(hour <= 23);
        assert!(minute <= 59);
        assert_eq!(&label[2..3], "-");
        assert_eq!(&label[5..6], " ");
        assert_eq!(&label[8..9], ":");
    }
}
