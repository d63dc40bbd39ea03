use comm::clock::{activity_timestamp_at, choose_timezone, TimezoneChoice, DEFAULT_TIMEZONE_NAME};

#[test]
fn timezone_defaults_to_london() {
    assert_eq!(DEFAULT_TIMEZONE_NAME, "Europe/London");
    assert!(matches!(choose_timezone(None), TimezoneChoice::Default));
    assert!(matches!(choose_timezone(Some("   ")), TimezoneChoice::Default));
}

#[test]
fn configured_timezone_is_trimmed_and_checked() {
    match choose_timezone(Some(" Europe/Paris ")) {
        TimezoneChoice::Configured(name) => assert_eq!(name, "Europe/Paris"),
        other => panic!("unexpected {other:?}"),
    }
    match choose_timezone(Some("Mars/Olympus_Mons")) {
        TimezoneChoice::Rejected(name) => assert_eq!(name, "Mars/Olympus_Mons"),
        other => panic!("unexpected {other:?}"),
    }
}

#[test]
fn activity_timestamps_use_the_chosen_zone() {
    let utc = choose_timezone(Some("UTC"));
    assert_eq!(activity_timestamp_at(0, &utc).as_deref(), Some("1970-01-01 00:00:00"));
    // 2023-11-14 22:13:20 UTC is winter time in London and an hour later in Paris.
    assert_eq!(
        activity_timestamp_at(1_700_000_000, &TimezoneChoice::Default).as_deref(),
        Some("2023-11-14 22:13:20")
    );
    let paris = choose_timezone(Some("Europe/Paris"));
    assert_eq!(
        activity_timestamp_at(1_700_000_000, &paris).as_deref(),
        Some("2023-11-14 23:13:20")
    );
    // Summer time in London.
    assert_eq!(
        activity_timestamp_at(1_688_212_800, &TimezoneChoice::Default).as_deref(),
        Some("2023-07-01 13:00:00")
    );
    // A rejected setting falls back to London.
    let rejected = choose_timezone(Some("Nowhere/Here"));
    assert_eq!(
        activity_timestamp_at(1_700_000_000, &rejected).as_deref(),
        Some("2023-11-14 22:13:20")
    );
    assert!(activity_timestamp_at(i64::MAX, &utc).is_none());
}
