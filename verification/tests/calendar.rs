use wallpaper_archive::date::{
    leap_year, month_length, month_start, normalize, offset, parse_compact, parse_day_key,
    year_start, Date, MAX_DAY_NUMBER,
};
use wallpaper_archive::error::ArchiveError;

#[test]
fn normalize_renders_the_day_key() {
    assert_eq!(normalize("20240101"), Ok(String::from("2024-01-01")));
    assert_eq!(normalize("19991231"), Ok(String::from("1999-12-31")));
    assert_eq!(normalize("00010101"), Ok(String::from("0001-01-01")));
    assert_eq!(normalize("20240229"), Ok(String::from("2024-02-29")));
}

#[test]
fn normalize_rejects_what_is_not_eight_digits() {
    assert_eq!(normalize(""), Err(ArchiveError::DateParse));
    assert_eq!(normalize("2024010"), Err(ArchiveError::DateParse));
    assert_eq!(normalize("202401011"), Err(ArchiveError::DateParse));
    assert_eq!(normalize("2024-01-01"), Err(ArchiveError::DateParse));
    assert_eq!(normalize("2024010a"), Err(ArchiveError::DateParse));
    assert_eq!(normalize("２０２４０１０１"), Err(ArchiveError::DateParse));
}

#[test]
fn normalize_rejects_days_off_the_calendar() {
    assert_eq!(normalize("20241301"), Err(ArchiveError::DateParse));
    assert_eq!(normalize("20240001"), Err(ArchiveError::DateParse));
    assert_eq!(normalize("20240100"), Err(ArchiveError::DateParse));
    assert_eq!(normalize("20230229"), Err(ArchiveError::DateParse));
    assert_eq!(normalize("20240431"), Err(ArchiveError::DateParse));
    assert_eq!(normalize("00000101"), Err(ArchiveError::DateParse));
}

#[test]
fn parse_compact_gives_the_fields() {
    assert_eq!(parse_compact("20240105"), Ok(Date { year: 2024, month: 1, day: 5 }));
    assert_eq!(parse_compact("x0240105"), Err(ArchiveError::DateParse));
}

#[test]
fn parse_day_key_reads_what_to_day_key_writes() {
    let day = Date { year: 2024, month: 2, day: 29 };
    assert_eq!(day.to_day_key(), "2024-02-29");
    assert_eq!(parse_day_key("2024-02-29"), Some(day));
    assert_eq!(parse_day_key("2024/02/29"), None);
    assert_eq!(parse_day_key("20240229"), None);
    assert_eq!(parse_day_key("2023-02-29"), None);
    assert_eq!(parse_day_key("2024-2-29"), None);
}

#[test]
fn offset_walks_whole_days() {
    assert_eq!(offset("2024-01-10", -5), Some(String::from("2024-01-05")));
    assert_eq!(offset("2024-01-01", -1), Some(String::from("2023-12-31")));
    assert_eq!(offset("2024-02-28", 1), Some(String::from("2024-02-29")));
    assert_eq!(offset("2023-02-28", 1), Some(String::from("2023-03-01")));
    assert_eq!(offset("2024-12-31", 1), Some(String::from("2025-01-01")));
    assert_eq!(offset("2024-01-01", 0), Some(String::from("2024-01-01")));
    assert_eq!(offset("2024-01-01", 366), Some(String::from("2025-01-01")));
    assert_eq!(offset("2000-03-01", -1), Some(String::from("2000-02-29")));
    assert_eq!(offset("1900-03-01", -1), Some(String::from("1900-02-28")));
}

#[test]
fn offset_has_no_answer_off_the_calendar() {
    assert_eq!(offset("0001-01-01", -1), None);
    assert_eq!(offset("9999-12-31", 1), None);
    assert_eq!(offset("9999-12-31", i64::MAX), None);
    assert_eq!(offset("0001-01-01", i64::MIN), None);
    assert_eq!(offset("not a day", 1), None);
    assert_eq!(offset("0001-01-01", 3652058), Some(String::from("9999-12-31")));
}

#[test]
fn ordinal_counts_from_the_first_day() {
    assert_eq!(Date { year: 1, month: 1, day: 1 }.ordinal(), 0);
    assert_eq!(Date { year: 2024, month: 1, day: 1 }.ordinal(), 738885);
    assert_eq!(Date { year: 9999, month: 12, day: 31 }.ordinal(), MAX_DAY_NUMBER);
    assert_eq!(Date::from_ordinal(738885), Date { year: 2024, month: 1, day: 1 });
    assert_eq!(Date::from_ordinal(0), Date { year: 1, month: 1, day: 1 });
    assert_eq!(Date::from_ordinal(MAX_DAY_NUMBER), Date { year: 9999, month: 12, day: 31 });
}

#[test]
fn ordinal_and_from_ordinal_are_inverse() {
    let mut n: u32 = 0;
    while n <= MAX_DAY_NUMBER {
        let day = Date::from_ordinal(n);
        assert_eq!(day.ordinal(), n);
        n += 997;
    }
}

#[test]
fn date_offset_moves_by_the_day_number() {
    let day = Date { year: 2024, month: 3, day: 1 };
    assert_eq!(day.offset(-1), Some(Date { year: 2024, month: 2, day: 29 }));
    assert_eq!(day.offset(365), Some(Date { year: 2025, month: 3, day: 1 }));
    assert_eq!(Date { year: 1, month: 1, day: 1 }.offset(-1), None);
}

#[test]
fn new_accepts_calendar_days_only() {
    assert_eq!(Date::new(2024, 2, 29), Some(Date { year: 2024, month: 2, day: 29 }));
    assert_eq!(Date::new(2023, 2, 29), None);
    assert_eq!(Date::new(0, 1, 1), None);
    assert_eq!(Date::new(10000, 1, 1), None);
    assert_eq!(Date::new(2024, 13, 1), None);
    assert_eq!(Date::new(2024, 6, 31), None);
}

#[test]
fn leap_years_follow_the_gregorian_rule() {
    assert!(leap_year(2024));
    assert!(leap_year(2000));
    assert!(!leap_year(1900));
    assert!(!leap_year(2023));
    assert_eq!(month_length(2024, 2), 29);
    assert_eq!(month_length(1900, 2), 28);
    assert_eq!(month_length(2024, 4), 30);
    assert_eq!(month_length(2024, 12), 31);
    assert_eq!(month_start(2024, 3), 60);
    assert_eq!(month_start(2023, 12), 334);
    assert_eq!(year_start(1), 0);
    assert_eq!(year_start(10000), 3652059);
}
