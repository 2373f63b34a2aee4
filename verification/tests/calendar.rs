use codex_toolkit::calendar::{civil_from_days, format_utc_timestamp};

#[test]
fn marketplace_add_utc_timestamp_formats_unix_epoch_as_rfc3339_utc() {
    assert_eq!(format_utc_timestamp(0), "1970-01-01T00:00:00Z");
    assert_eq!(format_utc_timestamp(1_775_779_200), "2026-04-10T00:00:00Z");
}

#[test]
fn marketplace_cmd_utc_timestamp_formats_unix_epoch_as_rfc3339_utc() {
    assert_eq!(format_utc_timestamp(0), "1970-01-01T00:00:00Z");
    assert_eq!(format_utc_timestamp(1_775_779_200), "2026-04-10T00:00:00Z");
}

#[test]
fn a_day_before_the_epoch_is_new_years_eve() {
    assert_eq!(format_utc_timestamp(-1), "1969-12-31T23:59:59Z");
    assert_eq!(format_utc_timestamp(-86_400), "1969-12-31T00:00:00Z");
    assert_eq!(civil_from_days(-1), (1969, 12, 31));
}

#[test]
fn leap_days_fall_in_leap_years() {
    assert_eq!(civil_from_days(11_016), (2000, 2, 29));
    assert_eq!(civil_from_days(11_017), (2000, 3, 1));
    assert_eq!(civil_from_days(-25_509), (1900, 2, 28));
    assert_eq!(civil_from_days(-25_508), (1900, 3, 1));
    assert_eq!(format_utc_timestamp(951_782_399), "2000-02-28T23:59:59Z");
    assert_eq!(format_utc_timestamp(951_782_400), "2000-02-29T00:00:00Z");
}

#[test]
fn years_beyond_four_digits_are_not_cut() {
    assert_eq!(format_utc_timestamp(253_402_300_799), "9999-12-31T23:59:59Z");
    assert_eq!(format_utc_timestamp(253_402_300_800), "10000-01-01T00:00:00Z");
}

#[test]
fn years_before_the_common_era_carry_a_sign() {
    assert_eq!(civil_from_days(-719_528), (0, 1, 1));
    assert_eq!(civil_from_days(-719_529), (-1, 12, 31));
    assert_eq!(format_utc_timestamp(-719_528 * 86_400), "0000-01-01T00:00:00Z");
    assert_eq!(format_utc_timestamp(-719_529 * 86_400), "-001-12-31T00:00:00Z");
}

#[test]
fn dates_follow_each_other_without_a_gap() {
    let mut last = civil_from_days(-800_000);
    for day in -799_999..=800_000 {
        let date = civil_from_days(day);
        let next_day = date.0 == last.0 && date.1 == last.1 && date.2 == last.2 + 1;
        let next_month = date.0 == last.0 && date.1 == last.1 + 1 && date.2 == 1;
        let next_year = date.0 == last.0 + 1 && date.1 == 1 && date.2 == 1 && last.1 == 12;
        assert!(next_day || next_month || next_year, "{last:?} {date:?}");
        last = date;
    }
}

#[test]
fn timestamps_have_twenty_characters_up_to_the_year_9999() {
    for seconds in [-62_167_219_200, -1, 0, 1, 1_775_779_200, 253_402_300_799] {
        let text = format_utc_timestamp(seconds);
        assert_eq!(text.len(), 20, "{text}");
        for (i, c) in text.chars().enumerate() {
            match i {
                4 | 7 => assert_eq!(c, '-'),
                10 => assert_eq!(c, 'T'),
                13 | 16 => assert_eq!(c, ':'),
                19 => assert_eq!(c, 'Z'),
                _ => assert!(c.is_ascii_digit()),
            }
        }
    }
}

#[test]
fn later_times_have_later_timestamps() {
    let times = [
        0, 1, 59, 60, 3_599, 3_600, 86_399, 86_400, 951_782_399, 951_782_400, 1_775_779_200,
        253_402_300_798, 253_402_300_799,
    ];
    for pair in times.windows(2) {
        assert!(format_utc_timestamp(pair[0]) < format_utc_timestamp(pair[1]), "{pair:?}");
    }
}
