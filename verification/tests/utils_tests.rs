use oxyde::utils::{
    current_timestamp_ms, format_id, generate_id, millis_from_nanos, nanos_from_reading,
    truncate_string,
};

#[test]
fn test_generate_id() {
    // the process's identifier counter starts at 0
    let mut counter: u64 = 0;
    let id1 = generate_id(&mut counter);
    let id2 = generate_id(&mut counter);

    assert!(id1.starts_with("oxid-"));
    assert_ne!(id1, id2, "Generated IDs should be unique");
}

#[test]
fn test_truncate_string() {
    let orig = "This is a very long string that needs to be truncated";
    let truncated = truncate_string(orig, 20);

    assert_eq!(truncated.len(), 20);
    assert!(truncated.ends_with("..."));
}

#[test]
fn truncate_keeps_short_strings() {
    assert_eq!(truncate_string("short", 5), "short");
    assert_eq!(truncate_string("", 0), "");
}

#[test]
fn truncate_cuts_on_char_boundary() {
    // "héllo wörld" has two-byte characters; 5 - 3 = 2 bytes would split the e with accent
    let t = truncate_string("héllo wörld", 5);
    assert_eq!(t, "h...");
    let t = truncate_string("abcdefgh", 7);
    assert_eq!(t, "abcd...");
}

#[test]
fn format_id_is_decimal() {
    assert_eq!(format_id(0, 0), "oxid-0-0");
    assert_eq!(format_id(1700000000123, 42), "oxid-1700000000123-42");
    assert_eq!(format_id(10, 100), "oxid-10-100");
}

#[test]
fn timestamp_is_recent() {
    let ms = current_timestamp_ms();
    // after 2020-01-01
    assert!(ms > 1_577_836_800_000);
}

#[test]
fn millis_are_whole_milliseconds_of_the_reading() {
    assert_eq!(millis_from_nanos(0), 0);
    assert_eq!(millis_from_nanos(999_999), 0);
    assert_eq!(millis_from_nanos(1_700_000_000_123_456_789), 1_700_000_000_123);
    assert_eq!(nanos_from_reading(Some(1_234)), 1_234);
    assert_eq!(nanos_from_reading(None), 0);
}

#[test]
fn truncated_multibyte_fits_and_ends_with_dots() {
    let t = truncate_string("ééééé", 6);
    assert_eq!(t, "é...");
    assert!(t.len() <= 6);
    assert!(t.ends_with("..."));
}

#[test]
fn generate_id_ends_with_counter_and_advances_it() {
    let mut counter: u64 = 41;
    let id = generate_id(&mut counter);
    assert!(id.starts_with("oxid-"));
    assert!(id.ends_with("-41"));
    assert_eq!(counter, 42);
    let mut last: u64 = u64::MAX;
    let id = generate_id(&mut last);
    assert!(id.ends_with(&format!("-{}", u64::MAX)));
    assert_eq!(last, 0);
}
