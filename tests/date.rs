use time::component::Period;
use time::{Date, Duration, Month, Weekday};

fn date(year: i32, month: u8, day: u8) -> Date {
    Date::from_calendar_date(year, Month::from_number(month).unwrap(), day).unwrap()
}

#[test]
fn calendar_date_rejects_february_29_in_common_year() {
    let e = Date::from_calendar_date(2019, Month::February, 29).unwrap_err();
    assert_eq!(e.name(), "day");
    assert_eq!(e.minimum, 1);
    assert_eq!(e.maximum, 28);
    assert_eq!(e.value, 29);
    assert!(e.is_conditional());
}

#[test]
fn calendar_date_accepts_edges() {
    assert!(Date::from_calendar_date(2019, Month::January, 1).is_ok());
    assert!(Date::from_calendar_date(2019, Month::December, 31).is_ok());
    assert!(Date::from_calendar_date(2020, Month::February, 29).is_ok());
    assert!(Date::from_calendar_date(2019, Month::April, 31).is_err());
    assert!(Date::from_calendar_date(2019, Month::January, 0).is_err());
    assert_eq!(Date::from_calendar_date(10_000, Month::January, 1).unwrap_err().name(), "year");
    assert_eq!(Date::from_calendar_date(-10_000, Month::January, 1).unwrap_err().name(), "year");
}

#[test]
fn calendar_round_trip() {
    for &(y, m, d) in &[(2019, 1, 1), (2020, 2, 29), (2020, 3, 1), (-4713, 11, 24), (9999, 12, 31), (-9999, 1, 1), (1, 1, 1), (0, 12, 31)] {
        let value = date(y, m, d);
        let (year, month, day) = value.to_calendar_date();
        assert_eq!((year, month.number(), day), (y, m, d));
        assert_eq!(value.year(), y);
        assert_eq!(value.month().number(), m);
        assert_eq!(value.day(), d);
    }
}

#[test]
fn every_day_of_two_years_round_trips() {
    for &year in &[2019, 2020] {
        let mut ordinal: u16 = 1;
        let length = if year == 2020 { 366 } else { 365 };
        while ordinal <= length {
            let d = Date::from_ordinal_date(year, ordinal).unwrap();
            let (y, m, day) = d.to_calendar_date();
            assert_eq!(Date::from_calendar_date(y, m, day).unwrap(), d);
            assert_eq!(d.to_ordinal_date(), (year, ordinal));
            let (iy, w, wd) = d.to_iso_week_date();
            assert_eq!(Date::from_iso_week_date(iy, w, wd).unwrap(), d);
            assert_eq!(Date::from_julian_day(d.to_julian_day()).unwrap(), d);
            ordinal += 1;
        }
    }
}

#[test]
fn ordinal_date() {
    assert!(Date::from_ordinal_date(2019, 1).is_ok());
    assert!(Date::from_ordinal_date(2019, 365).is_ok());
    let e = Date::from_ordinal_date(2019, 366).unwrap_err();
    assert_eq!(e.name(), "ordinal");
    assert_eq!(e.maximum, 365);
    assert!(Date::from_ordinal_date(2020, 366).is_ok());
    assert!(Date::from_ordinal_date(2019, 0).is_err());
    assert_eq!(date(2019, 1, 1).to_ordinal_date(), (2019, 1));
    assert_eq!(date(2019, 12, 31).ordinal(), 365);
}

#[test]
fn leap_day_ordinal_follows_leap_rule() {
    for &(year, leap) in &[(2000, true), (1900, false), (2004, true), (2019, false), (2100, false), (2400, true), (-4, true), (-100, false), (0, true)] {
        assert_eq!(Date::from_ordinal_date(year, 366).is_ok(), leap);
    }
}

#[test]
fn iso_week_date() {
    assert!(Date::from_iso_week_date(2019, 1, Weekday::Monday).is_ok());
    assert!(Date::from_iso_week_date(2019, 1, Weekday::Tuesday).is_ok());
    assert!(Date::from_iso_week_date(2020, 53, Weekday::Friday).is_ok());
    let e = Date::from_iso_week_date(2019, 53, Weekday::Monday).unwrap_err();
    assert_eq!(e.name(), "week");
    assert_eq!(e.maximum, 52);
    assert!(Date::from_iso_week_date(2019, 0, Weekday::Monday).is_err());
    assert_eq!(Date::from_iso_week_date(2019, 1, Weekday::Monday).unwrap(), date(2018, 12, 31));
    assert_eq!(Date::from_iso_week_date(2020, 53, Weekday::Friday).unwrap(), date(2021, 1, 1));
    assert_eq!(Date::from_iso_week_date(9999, 52, Weekday::Sunday).unwrap_err().name(), "year");
    assert_eq!(Date::from_iso_week_date(9999, 52, Weekday::Friday).unwrap(), date(9999, 12, 31));
}

#[test]
fn iso_week_53_only_in_long_years() {
    for &(year, long) in &[(2015, true), (2019, false), (2020, true), (2021, false), (2026, true), (2004, true), (1999, false)] {
        assert_eq!(Date::from_iso_week_date(year, 53, Weekday::Monday).is_ok(), long);
    }
}

#[test]
fn to_iso_week_date_examples() {
    assert_eq!(date(2019, 1, 1).to_iso_week_date(), (2019, 1, Weekday::Tuesday));
    assert_eq!(date(2019, 10, 4).to_iso_week_date(), (2019, 40, Weekday::Friday));
    assert_eq!(date(2020, 1, 1).to_iso_week_date(), (2020, 1, Weekday::Wednesday));
    assert_eq!(date(2020, 12, 31).to_iso_week_date(), (2020, 53, Weekday::Thursday));
    assert_eq!(date(2021, 1, 1).to_iso_week_date(), (2020, 53, Weekday::Friday));
    assert_eq!(date(2019, 10, 4).iso_week(), 40);
    assert_eq!(date(2021, 1, 1).iso_week(), 53);
}

#[test]
fn week_numbers() {
    assert_eq!(date(2019, 1, 1).sunday_based_week(), 0);
    assert_eq!(date(2020, 1, 1).sunday_based_week(), 0);
    assert_eq!(date(2020, 12, 31).sunday_based_week(), 52);
    assert_eq!(date(2021, 1, 1).sunday_based_week(), 0);
    assert_eq!(date(2019, 1, 1).monday_based_week(), 0);
    assert_eq!(date(2020, 12, 31).monday_based_week(), 52);
}

#[test]
fn weekday_of_reference_dates() {
    assert_eq!(date(1970, 1, 1).weekday(), Weekday::Thursday);
    assert_eq!(date(2019, 1, 1).weekday(), Weekday::Tuesday);
    assert_eq!(date(2000, 1, 1).weekday(), Weekday::Saturday);
    assert_eq!(date(2019, 2, 1).weekday(), Weekday::Friday);
    assert_eq!(date(2019, 4, 1).weekday(), Weekday::Monday);
    assert_eq!(date(2019, 6, 1).weekday(), Weekday::Saturday);
    assert_eq!(date(2019, 9, 1).weekday(), Weekday::Sunday);
    assert_eq!(date(-4713, 11, 24).weekday(), Weekday::Monday);
    assert_eq!(date(-9999, 1, 1).weekday(), Weekday::Monday);
}

#[test]
fn julian_day_examples() {
    assert_eq!(Date::from_julian_day(0).unwrap(), date(-4713, 11, 24));
    assert_eq!(Date::from_julian_day(2_451_545).unwrap(), date(2000, 1, 1));
    assert_eq!(Date::from_julian_day(2_458_485).unwrap(), date(2019, 1, 1));
    assert_eq!(Date::from_julian_day(2_458_849).unwrap(), date(2019, 12, 31));
    assert_eq!(date(-4713, 11, 24).to_julian_day(), 0);
    assert_eq!(date(2000, 1, 1).to_julian_day(), 2_451_545);
    assert_eq!(Date::min_value().to_julian_day(), -1_930_999);
    assert_eq!(Date::max_value().to_julian_day(), 5_373_484);
    let e = Date::from_julian_day(5_373_485).unwrap_err();
    assert_eq!(e.name(), "julian_day");
    assert!(Date::from_julian_day(-1_931_000).is_err());
}

#[test]
fn next_and_previous_day() {
    assert_eq!(date(2019, 1, 1).next_day(), Some(date(2019, 1, 2)));
    assert_eq!(date(2019, 1, 31).next_day(), Some(date(2019, 2, 1)));
    assert_eq!(date(2019, 12, 31).next_day(), Some(date(2020, 1, 1)));
    assert_eq!(date(2020, 12, 31).next_day(), Some(date(2021, 1, 1)));
    assert_eq!(Date::max_value().next_day(), None);
    assert_eq!(date(2019, 1, 2).previous_day(), Some(date(2019, 1, 1)));
    assert_eq!(date(2019, 2, 1).previous_day(), Some(date(2019, 1, 31)));
    assert_eq!(date(2020, 1, 1).previous_day(), Some(date(2019, 12, 31)));
    assert_eq!(date(2021, 1, 1).previous_day(), Some(date(2020, 12, 31)));
    assert_eq!(Date::min_value().previous_day(), None);
}

#[test]
fn previous_then_next_gives_the_date_back() {
    for &d in &[date(2019, 1, 1), date(2020, 3, 1), date(9999, 12, 31), date(-9999, 1, 2)] {
        assert_eq!(d.previous_day().unwrap().next_day(), Some(d));
    }
    assert_eq!(date(-9999, 1, 1).next_day().unwrap().previous_day(), Some(date(-9999, 1, 1)));
}

#[test]
fn occurrences() {
    assert_eq!(date(2023, 6, 28).next_occurrence(Weekday::Monday), date(2023, 7, 3));
    assert_eq!(date(2023, 6, 19).next_occurrence(Weekday::Monday), date(2023, 6, 26));
    assert_eq!(date(2023, 6, 28).prev_occurrence(Weekday::Monday), date(2023, 6, 26));
    assert_eq!(date(2023, 6, 19).prev_occurrence(Weekday::Monday), date(2023, 6, 12));
    assert_eq!(date(2023, 6, 25).nth_next_occurrence(Weekday::Monday, 5), date(2023, 7, 24));
    assert_eq!(date(2023, 6, 26).nth_next_occurrence(Weekday::Monday, 5), date(2023, 7, 31));
    assert_eq!(date(2023, 6, 27).nth_prev_occurrence(Weekday::Monday, 3), date(2023, 6, 12));
    assert_eq!(date(2023, 6, 26).nth_prev_occurrence(Weekday::Monday, 3), date(2023, 6, 5));
    assert_eq!(date(2023, 6, 26).checked_nth_next_occurrence(Weekday::Monday, 0), None);
    assert_eq!(Date::max_value().checked_next_occurrence(Weekday::Monday), None);
    assert_eq!(Date::min_value().checked_prev_occurrence(Weekday::Sunday), None);
}

#[test]
fn checked_and_saturating_arithmetic() {
    assert_eq!(Date::max_value().checked_add(Duration::days(1)), None);
    assert_eq!(Date::min_value().checked_add(Duration::days(-2)), None);
    assert_eq!(date(2020, 12, 31).checked_add(Duration::days(2)), Some(date(2021, 1, 2)));
    assert_eq!(Date::max_value().checked_add(Duration::hours(23)), Some(Date::max_value()));
    assert_eq!(Date::min_value().checked_add(Duration::hours(-23)), Some(Date::min_value()));
    assert_eq!(date(2020, 12, 31).checked_add(Duration::hours(47)), Some(date(2021, 1, 1)));
    assert_eq!(Date::max_value().checked_sub(Duration::days(-2)), None);
    assert_eq!(Date::min_value().checked_sub(Duration::days(1)), None);
    assert_eq!(date(2020, 12, 31).checked_sub(Duration::days(2)), Some(date(2020, 12, 29)));
    assert_eq!(date(2020, 12, 31).checked_sub(Duration::hours(47)), Some(date(2020, 12, 30)));
    assert_eq!(Date::max_value().saturating_add(Duration::days(1)), Date::max_value());
    assert_eq!(Date::min_value().saturating_add(Duration::days(-2)), Date::min_value());
    assert_eq!(date(2020, 12, 31).saturating_add(Duration::days(2)), date(2021, 1, 2));
    assert_eq!(Date::max_value().saturating_sub(Duration::days(-2)), Date::max_value());
    assert_eq!(Date::min_value().saturating_sub(Duration::days(1)), Date::min_value());
    assert_eq!(date(2020, 12, 31).saturating_sub(Duration::hours(47)), date(2020, 12, 30));
}

#[test]
fn standard_duration_arithmetic() {
    let two_days = std::time::Duration::from_secs(2 * 86_400);
    let almost_a_day = std::time::Duration::from_secs(23 * 3_600);
    assert_eq!(date(2020, 12, 31).checked_add_std(two_days), Some(date(2021, 1, 2)));
    assert_eq!(date(2020, 12, 31).checked_add_std(almost_a_day), Some(date(2020, 12, 31)));
    assert_eq!(Date::max_value().checked_add_std(two_days), None);
    assert_eq!(date(2020, 12, 31).checked_sub_std(two_days), Some(date(2020, 12, 29)));
    assert_eq!(Date::min_value().checked_sub_std(two_days), None);
}

#[test]
fn replace_components() {
    assert_eq!(date(2022, 2, 18).replace_year(2019), Ok(date(2019, 2, 18)));
    assert!(date(2022, 2, 18).replace_year(-1_000_000_000).is_err());
    assert!(date(2022, 2, 18).replace_year(1_000_000_000).is_err());
    assert_eq!(date(2020, 2, 29).replace_year(2019).unwrap_err().name(), "day");
    assert_eq!(date(2020, 3, 1).replace_year(2019), Ok(date(2019, 3, 1)));
    assert_eq!(date(2019, 3, 1).replace_year(2020), Ok(date(2020, 3, 1)));
    assert_eq!(date(2022, 2, 18).replace_month(Month::January), Ok(date(2022, 1, 18)));
    assert!(date(2022, 1, 30).replace_month(Month::February).is_err());
    assert_eq!(date(2022, 2, 18).replace_day(1), Ok(date(2022, 2, 1)));
    assert!(date(2022, 2, 18).replace_day(0).is_err());
    assert!(date(2022, 2, 18).replace_day(30).is_err());
    assert_eq!(date(2022, 2, 18).replace_ordinal(1), Ok(date(2022, 1, 1)));
    assert!(date(2022, 2, 18).replace_ordinal(0).is_err());
    assert!(date(2022, 2, 18).replace_ordinal(366).is_err());
}

#[test]
fn ordering_is_chronological() {
    assert!(date(2019, 1, 1) < date(2019, 1, 2));
    assert!(date(2019, 12, 31) < date(2020, 1, 1));
    assert!(date(-1, 12, 31) < date(0, 1, 1));
    assert!(Date::min_value() < Date::max_value());
}

#[test]
fn display_text() {
    assert_eq!(date(2019, 1, 2).to_display_string(), "2019-01-02");
    assert_eq!(date(5, 11, 30).to_display_string(), "0005-11-30");
    assert_eq!(date(-4713, 11, 24).to_display_string(), "-4713-11-24");
    assert_eq!(date(-1, 1, 1).to_display_string(), "-0001-01-01");
    let m = date(-4713, 11, 24).metadata();
    assert_eq!(m.year_width, 5);
    assert!(m.display_sign);
    assert_eq!(date(2019, 1, 2).metadata().year_width, 4);
}

#[test]
fn month_and_weekday_numbers() {
    assert_eq!(Month::from_number(13).unwrap_err().name(), "month");
    assert_eq!(Month::February.length(2020), 29);
    assert_eq!(Month::February.length(1900), 28);
    assert_eq!(Weekday::Sunday.number_days_from_sunday(), 0);
    assert_eq!(Weekday::Sunday.number_from_monday(), 7);
    assert_eq!(Weekday::Monday.number_from_sunday(), 2);
    assert_eq!(Period::Am, Period::Am);
}

#[test]
fn range_errors_carry_their_range() {
    let e = Date::from_ordinal_date(2019, 366).unwrap_err();
    assert_eq!((e.minimum, e.maximum, e.value, e.is_conditional), (1, 365, 366, true));
    let e = Date::from_iso_week_date(2019, 53, Weekday::Monday).unwrap_err();
    assert_eq!((e.name(), e.minimum, e.maximum, e.value, e.is_conditional), ("week", 1, 52, 53, true));
    let e = Date::from_calendar_date(10_000, Month::January, 1).unwrap_err();
    assert_eq!((e.minimum, e.maximum, e.value, e.is_conditional), (-9999, 9999, 10_000, false));
    let e = date(2020, 2, 29).replace_year(2019).unwrap_err();
    assert_eq!((e.name(), e.minimum, e.maximum, e.value, e.is_conditional), ("day", 1, 28, 29, true));
    let e = date(2022, 2, 18).replace_day(30).unwrap_err();
    assert_eq!((e.minimum, e.maximum, e.value, e.is_conditional), (1, 28, 30, true));
    let e = date(2020, 2, 18).replace_ordinal(367).unwrap_err();
    assert_eq!((e.name(), e.minimum, e.maximum, e.value), ("ordinal", 1, 366, 367));
    let e = date(2022, 1, 30).replace_month(Month::February).unwrap_err();
    assert_eq!((e.name(), e.maximum, e.value), ("day", 28, 30));
    let e = Date::from_julian_day(i32::MAX).unwrap_err();
    assert_eq!((e.minimum, e.maximum), (-1_930_999, 5_373_484));
}

#[test]
fn order_follows_the_calendar() {
    let days = [date(-9999, 1, 1), date(-1, 12, 31), date(0, 1, 1), date(2019, 2, 28), date(2019, 3, 1), date(2020, 2, 29), date(9999, 12, 31)];
    for i in 0..days.len() {
        for j in 0..days.len() {
            assert_eq!(days[i] < days[j], i < j);
            assert_eq!(days[i].partial_cmp(&days[j]), i.partial_cmp(&j));
            assert_eq!(days[i].cmp(&days[j]), i.cmp(&j));
            assert_eq!(days[i].to_julian_day() < days[j].to_julian_day(), i < j);
        }
    }
}

#[test]
fn metadata_width_is_text_length() {
    for &d in &[date(2019, 1, 2), date(-4713, 11, 24), date(5, 6, 7)] {
        assert_eq!(d.metadata().formatted_width(), d.to_display_string().len());
    }
}

#[test]
fn iso_week_after_the_last_year_names_that_year() {
    let e = Date::from_iso_week_date(9999, 52, Weekday::Sunday).unwrap_err();
    assert_eq!((e.name(), e.minimum, e.maximum, e.value), ("year", -9999, 9999, 10_000));
}

#[test]
fn duration_new_normalises() {
    let d = Duration::new(1, -500_000_000);
    assert_eq!((d.whole_seconds(), d.subsec_nanoseconds()), (0, 500_000_000));
    let d = Duration::new(-1, 1_500_000_000);
    assert_eq!((d.whole_seconds(), d.subsec_nanoseconds()), (0, 500_000_000));
    let d = Duration::new(2, 2_000_000_000);
    assert_eq!((d.whole_seconds(), d.subsec_nanoseconds()), (4, 0));
    let d = Duration::new(-2, -1_500_000_000);
    assert_eq!((d.whole_seconds(), d.subsec_nanoseconds()), (-3, -500_000_000));
    let d = Duration::new(0, -1);
    assert_eq!((d.whole_seconds(), d.subsec_nanoseconds()), (0, -1));
}
