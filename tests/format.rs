use time::component::{
    parse_day, parse_end, parse_ignore, parse_month, parse_offset_hour, parse_period,
    parse_subsecond, parse_unix_timestamp, parse_weekday, parse_year, Period,
};
use time::format_description::{parse, parse_borrowed, parse_owned};
use time::modifier::{self, Padding};
use time::parsing::ParseError;
use time::{
    parse_strftime_owned, BorrowedFormatItem, Component, Date, InvalidFormatDescription, Month, OwnedFormatItem, Weekday,
};

fn date(year: i32, month: u8, day: u8) -> Date {
    Date::from_calendar_date(year, Month::from_number(month).unwrap(), day).unwrap()
}

fn year_modifier() -> modifier::Year {
    modifier::Year {
        padding: Padding::Zero,
        repr: modifier::YearRepr::Full,
        range: modifier::YearRange::Extended,
        iso_week_based: false,
        sign_is_mandatory: false,
    }
}

#[test]
fn parse_year_month_day_description() {
    let items = parse("[year]-[month]-[day]").unwrap();
    assert_eq!(items.len(), 5);
    assert_eq!(items[0], BorrowedFormatItem::Component(Component::Year(year_modifier())));
    assert_eq!(items[1], BorrowedFormatItem::Literal(b"-"));
    assert_eq!(
        items[2],
        BorrowedFormatItem::Component(Component::Month(modifier::Month {
            padding: Padding::Zero,
            repr: modifier::MonthRepr::Numerical,
            case_sensitive: true,
        }))
    );
    assert_eq!(items[4], BorrowedFormatItem::Component(Component::Day(modifier::Day { padding: Padding::Zero })));
}

#[test]
fn parse_date_with_description() {
    let format = parse_owned::<2>("[year]-[month]-[day]").unwrap();
    assert_eq!(Date::parse("2020-01-02", &format), Ok(date(2020, 1, 2)));
    assert_eq!(Date::parse("2020-01-02x", &format), Err(ParseError::UnexpectedTrailingCharacters));
    let month = Component::Month(modifier::Month {
        padding: Padding::Zero,
        repr: modifier::MonthRepr::Numerical,
        case_sensitive: true,
    });
    assert_eq!(Date::parse("2020-1-02", &format), Err(ParseError::InvalidInput { index: 5, component: Some(month) }));
    assert_eq!(Date::parse("2020/01-02", &format), Err(ParseError::InvalidInput { index: 4, component: None }));
    let first = parse_owned::<2>("[first [[day]] [x]]").unwrap();
    assert_eq!(Date::parse("y", &first), Err(ParseError::InvalidInput { index: 0, component: None }));
    assert!(matches!(Date::parse("2019-02-29", &format), Err(ParseError::ComponentRange(_))));
}

#[test]
fn format_and_parse_round_trip() {
    let format = parse_owned::<2>("[weekday], [day] [month repr:long] [year]").unwrap();
    for &d in &[date(2020, 1, 2), date(1999, 12, 31), date(2, 3, 4), date(-44, 3, 15)] {
        let text = d.format(&format).unwrap();
        assert_eq!(Date::parse(&text, &format), Ok(d));
    }
    assert_eq!(date(2020, 1, 2).format(&format).unwrap(), "Thursday, 02 January 2020");
}

#[test]
fn format_date_text() {
    let format = parse_owned::<1>("[year]-[month]-[day]").unwrap();
    assert_eq!(date(2020, 1, 2).format(&format).unwrap(), "2020-01-02");
    let mut out = Vec::new();
    assert_eq!(date(2020, 1, 2).format_into(&mut out, &format), Ok(10));
    assert_eq!(out, b"2020-01-02".to_vec());
    let ordinal = parse_owned::<1>("[year repr:last_two]/[ordinal padding:space] [weekday repr:short] [week_number]").unwrap();
    assert_eq!(date(2021, 1, 5).format(&ordinal).unwrap(), "21/  5 Tue 01");
    let negative = parse_owned::<1>("[year sign:mandatory] [month repr:short]").unwrap();
    assert_eq!(date(-12, 7, 1).format(&negative).unwrap(), "-0012 Jul");
    assert_eq!(date(12, 7, 1).format(&negative).unwrap(), "+0012 Jul");
    let time = parse_owned::<1>("[hour]").unwrap();
    assert!(date(2020, 1, 2).format(&time).is_err());
}

#[test]
fn parse_other_date_forms() {
    let ordinal = parse_owned::<1>("[year]-[ordinal]").unwrap();
    assert_eq!(Date::parse("2020-366", &ordinal), Ok(date(2020, 12, 31)));
    let iso = parse_owned::<1>("[year base:iso_week]-W[week_number]-[weekday repr:monday]").unwrap();
    assert_eq!(Date::parse("2020-W53-5", &iso), Ok(date(2021, 1, 1)));
    let month_only = parse_owned::<1>("[month]").unwrap();
    assert_eq!(Date::parse("01", &month_only), Err(ParseError::InsufficientInformation));
}

#[test]
fn version_one_escapes_brackets() {
    let items = parse("a[[b").unwrap();
    assert_eq!(items, vec![BorrowedFormatItem::Literal(b"a"), BorrowedFormatItem::Literal(b"["), BorrowedFormatItem::Literal(b"b")]);
    let items = parse("x]y").unwrap();
    assert_eq!(items, vec![BorrowedFormatItem::Literal(b"x]y")]);
    assert_eq!(parse("").unwrap(), vec![]);
}

#[test]
fn version_two_escapes_and_nesting() {
    let items = parse_borrowed::<2>(r"\[\\").unwrap();
    assert_eq!(items, vec![BorrowedFormatItem::Literal(b"["), BorrowedFormatItem::Literal(b"\\")]);
    assert_eq!(parse_borrowed::<2>(r"\a"), Err(InvalidFormatDescription::InvalidEscape { index: 0 }));
    let owned = parse_owned::<2>("[optional [[day]]]").unwrap();
    let expected = OwnedFormatItem::Compound(vec![OwnedFormatItem::Optional(Box::new(
        OwnedFormatItem::Compound(vec![OwnedFormatItem::Component(Component::Day(modifier::Day { padding: Padding::Zero }))]),
    ))]);
    assert_eq!(owned, expected);
    assert_eq!(parse_borrowed::<2>("[optional [[day]]]"), Err(InvalidFormatDescription::NotSupported { index: 0 }));
    let first = parse_owned::<2>("[first [a] [b]]").unwrap();
    let expected = OwnedFormatItem::Compound(vec![OwnedFormatItem::First(vec![
        OwnedFormatItem::Compound(vec![OwnedFormatItem::Literal(b"a".to_vec())]),
        OwnedFormatItem::Compound(vec![OwnedFormatItem::Literal(b"b".to_vec())]),
    ])]);
    assert_eq!(first, expected);
}

#[test]
fn optional_and_first_when_parsing() {
    let format = parse_owned::<2>("[year][optional [-[month]-[day]]][optional [-[ordinal]]]").unwrap();
    assert_eq!(Date::parse("2020-03-04", &format), Ok(date(2020, 3, 4)));
    assert_eq!(Date::parse("2020-064", &format), Ok(date(2020, 3, 4)));
    let format = parse_owned::<2>("[first [[year]-[month]-[day]] [[day].[month].[year]]]").unwrap();
    assert_eq!(Date::parse("04.03.2020", &format), Ok(date(2020, 3, 4)));
    assert_eq!(Date::parse("2020-03-04", &format), Ok(date(2020, 3, 4)));
}

#[test]
fn description_errors() {
    assert_eq!(parse("[year"), Err(InvalidFormatDescription::UnclosedOpeningBracket { index: 0 }));
    assert_eq!(parse("ab[foo]"), Err(InvalidFormatDescription::InvalidComponentName { index: 3 }));
    assert_eq!(parse("[year foo:bar]"), Err(InvalidFormatDescription::InvalidModifier { index: 6 }));
    assert_eq!(parse("[year repr]"), Err(InvalidFormatDescription::InvalidModifier { index: 6 }));
    assert_eq!(parse("[ ]"), Err(InvalidFormatDescription::MissingComponentName { index: 0 }));
    assert_eq!(parse("[ignore]"), Err(InvalidFormatDescription::MissingRequiredModifier { index: 0 }));
    assert_eq!(parse("[ignore count:0]"), Err(InvalidFormatDescription::InvalidModifier { index: 8 }));
    assert_eq!(parse_owned::<2>("[optional x]"), Err(InvalidFormatDescription::ExpectedOpeningBracket { index: 10 }));
    assert_eq!(parse("[optional [day]]"), Err(InvalidFormatDescription::InvalidComponentName { index: 1 }));
    assert!(parse("[ignore count:3]").is_ok());
}

#[test]
fn component_year() {
    assert_eq!(parse_year(b"2020-", year_modifier()).map(|p| (p.0, p.1)), Some((&b"-"[..], (2020, false))));
    assert_eq!(parse_year(b"-0044", year_modifier()).map(|p| p.1), Some((-44, true)));
    assert_eq!(parse_year(b"+0044", year_modifier()).map(|p| p.1), Some((44, false)));
    assert!(parse_year(b"204", year_modifier()).is_none());
    let mandatory = modifier::Year { sign_is_mandatory: true, ..year_modifier() };
    assert!(parse_year(b"2020", mandatory).is_none());
    let century = modifier::Year { repr: modifier::YearRepr::Century, ..year_modifier() };
    assert_eq!(parse_year(b"7x", century).map(|p| p.1), Some((7, false)));
    let last_two = modifier::Year { repr: modifier::YearRepr::LastTwo, ..year_modifier() };
    assert_eq!(parse_year(b"99", last_two).map(|p| p.1), Some((99, false)));
    let spaced = modifier::Year { padding: Padding::Space, ..year_modifier() };
    assert_eq!(parse_year(b"  12", spaced).map(|p| p.1), Some((12, false)));
    let unpadded = modifier::Year { padding: Padding::Unpadded, ..year_modifier() };
    assert_eq!(parse_year(b"12/", unpadded).map(|p| p.1), Some((12, false)));
}

#[test]
fn component_month_and_weekday() {
    let long = modifier::Month { padding: Padding::Zero, repr: modifier::MonthRepr::Long, case_sensitive: false };
    assert_eq!(parse_month(b"mArCh!", long).map(|p| (p.0, p.1)), Some((&b"!"[..], Month::March)));
    let short = modifier::Month { repr: modifier::MonthRepr::Short, case_sensitive: true, ..long };
    assert!(parse_month(b"jan", short).is_none());
    assert_eq!(parse_month(b"Jan", short).map(|p| p.1), Some(Month::January));
    let numerical = modifier::Month { repr: modifier::MonthRepr::Numerical, ..short };
    assert!(parse_month(b"13", numerical).is_none());
    assert!(parse_month(b"00", numerical).is_none());
    let weekday = modifier::Weekday { repr: modifier::WeekdayRepr::Sunday, one_indexed: false, case_sensitive: true };
    assert_eq!(parse_weekday(b"0", weekday).map(|p| p.1), Some(Weekday::Sunday));
    let weekday = modifier::Weekday { repr: modifier::WeekdayRepr::Monday, one_indexed: true, case_sensitive: true };
    assert_eq!(parse_weekday(b"7", weekday).map(|p| p.1), Some(Weekday::Sunday));
    let weekday = modifier::Weekday { repr: modifier::WeekdayRepr::Long, one_indexed: true, case_sensitive: false };
    assert_eq!(parse_weekday(b"wednesday", weekday).map(|p| p.1), Some(Weekday::Wednesday));
}

#[test]
fn component_numbers() {
    assert!(parse_day(b"00", modifier::Day { padding: Padding::Zero }).is_none());
    assert_eq!(parse_day(b"31", modifier::Day { padding: Padding::Zero }).map(|p| p.1), Some(31));
    assert_eq!(parse_day(b" 7", modifier::Day { padding: Padding::Space }).map(|p| p.1), Some(7));
    let period = modifier::Period { is_uppercase: true, case_sensitive: false };
    assert_eq!(parse_period(b"pm", period).map(|p| p.1), Some(Period::Pm));
    let sub = |d| modifier::Subsecond { digits: d };
    assert_eq!(parse_subsecond(b"5", sub(modifier::SubsecondDigits::One)).map(|p| p.1), Some(500_000_000));
    assert_eq!(parse_subsecond(b"123", sub(modifier::SubsecondDigits::Three)).map(|p| p.1), Some(123_000_000));
    assert_eq!(parse_subsecond(b"123456789123x", sub(modifier::SubsecondDigits::OneOrMore)).map(|p| (p.0, p.1)), Some((&b"x"[..], 123_456_789)));
    assert_eq!(parse_subsecond(b"12", sub(modifier::SubsecondDigits::OneOrMore)).map(|p| p.1), Some(120_000_000));
    let hour = modifier::OffsetHour { sign_is_mandatory: false, padding: Padding::Zero };
    assert_eq!(parse_offset_hour(b"-00", hour).map(|p| p.1), Some((0, true)));
    assert_eq!(parse_offset_hour(b"+05", hour).map(|p| p.1), Some((5, false)));
    assert!(parse_offset_hour(b"05", modifier::OffsetHour { sign_is_mandatory: true, ..hour }).is_none());
    let stamp = modifier::UnixTimestamp { precision: modifier::UnixTimestampPrecision::Millisecond, sign_is_mandatory: false };
    assert_eq!(parse_unix_timestamp(b"-1500", stamp).map(|p| p.1), Some(-1_500_000_000));
    assert_eq!(parse_ignore(b"abc", modifier::Ignore { count: 2 }).map(|p| p.0), Some(&b"c"[..]));
    assert!(parse_ignore(b"a", modifier::Ignore { count: 2 }).is_none());
    assert!(parse_end(b"", modifier::End {}).is_some());
    assert!(parse_end(b"x", modifier::End {}).is_none());
}

#[test]
fn strftime_descriptions() {

    let format = parse_strftime_owned("%Y-%m-%d").unwrap();
    assert_eq!(date(2020, 1, 2).format(&format).unwrap(), "2020-01-02");
    assert_eq!(Date::parse("2020-01-02", &format), Ok(date(2020, 1, 2)));
    let format = parse_strftime_owned("%D|%-d|%e|%%|%a %B|%j|%_m").unwrap();
    assert_eq!(date(2020, 1, 2).format(&format).unwrap(), "01/02/20|2| 2|%|Thu January|002| 1");
    let format = parse_strftime_owned("%F").unwrap();
    assert_eq!(Date::parse("2021-12-31", &format), Ok(date(2021, 12, 31)));
    assert_eq!(parse_strftime_owned("%"), Err(InvalidFormatDescription::MissingComponentName { index: 0 }));
    assert_eq!(parse_strftime_owned("ab%-"), Err(InvalidFormatDescription::MissingComponentName { index: 2 }));
    assert_eq!(parse_strftime_owned("%Q"), Err(InvalidFormatDescription::InvalidComponentName { index: 1 }));
    assert_eq!(parse_strftime_owned("").unwrap(), OwnedFormatItem::Compound(vec![]));
}

#[test]
fn nested_borrowed_error_points_at_the_item() {
    assert_eq!(parse_borrowed::<2>("ab[day] [optional [x]]"), Err(InvalidFormatDescription::NotSupported { index: 8 }));
    assert_eq!(parse_borrowed::<2>("[first [a]]"), Err(InvalidFormatDescription::NotSupported { index: 0 }));
    assert_eq!(parse("[year]-[month]"), parse_borrowed::<1>("[year]-[month]"));
}

#[test]
fn fixed_width_format_parses_back() {
    let format = parse_owned::<2>("[day].[month].[year] ([ordinal])").unwrap();
    for &d in &[date(2020, 2, 29), date(-4713, 11, 24), date(9999, 12, 31), date(-9999, 1, 1), date(0, 1, 1)] {
        let bytes = d.format_bytes(&format).unwrap();
        assert_eq!(Date::parse_bytes(&bytes, &format), Ok(d));
        let text = d.format(&format).unwrap();
        assert_eq!(Date::parse(&text, &format), Ok(d));
    }
}

#[test]
fn repeated_modifier_key_is_refused() {
    assert_eq!(parse("[day padding:zero padding:zero]"), Err(InvalidFormatDescription::DuplicateModifier { index: 18 }));
    assert_eq!(parse_owned::<2>("[year repr:full sign:mandatory repr:last_two]"), Err(InvalidFormatDescription::DuplicateModifier { index: 31 }));
    assert!(parse("[year repr:full sign:mandatory]").is_ok());
}
