use time::format_item::DifferentVariant;
use time::modifier::{self, Padding};
use time::offset::Offset;
use time::{BorrowedFormatItem, Component, Date, Month, OwnedFormatItem, PrimitiveDateTime, Time};

fn day() -> Component {
    Component::Day(modifier::Day { padding: Padding::Zero })
}

#[test]
fn owned_item_conversions() {
    assert_eq!(OwnedFormatItem::from(day()), OwnedFormatItem::Component(day()));
    let compound = OwnedFormatItem::from(vec![OwnedFormatItem::Literal(b"-".to_vec())]);
    assert_eq!(compound, OwnedFormatItem::Compound(vec![OwnedFormatItem::Literal(b"-".to_vec())]));
    assert_eq!(OwnedFormatItem::from(day()).try_into_component(), Ok(day()));
    assert_eq!(OwnedFormatItem::Literal(vec![1]).try_into_component(), Err(DifferentVariant));
    assert_eq!(compound.try_into_items().map(|v| v.len()), Ok(1));
    assert!(OwnedFormatItem::from(day()).is_component(&day()));
    assert!(!OwnedFormatItem::Literal(vec![]).is_component(&day()));
    assert_eq!(BorrowedFormatItem::Literal(b"ab").to_owned_item(), OwnedFormatItem::Literal(b"ab".to_vec()));
    assert_eq!(BorrowedFormatItem::Component(day()).to_owned_item(), OwnedFormatItem::Component(day()));
}

#[test]
fn offset_from_parts() {
    assert_eq!(Offset::utc(), Offset { hours: 0, minutes: 0, seconds: 0 });
    assert_eq!(Offset::from_parts(true, 5, 30, 0), Ok(Offset { hours: -5, minutes: -30, seconds: 0 }));
    assert_eq!(Offset::from_parts(false, 25, 59, 59), Ok(Offset { hours: 25, minutes: 59, seconds: 59 }));
    assert_eq!(Offset::from_parts(false, 26, 0, 0).unwrap_err().name(), "hour");
    assert_eq!(Offset::from_parts(false, 1, 60, 0).unwrap_err().name(), "minute");
    assert_eq!(Offset::from_parts(false, 1, 0, 60).unwrap_err().name(), "second");
}

#[test]
fn date_with_time_of_day() {
    let d = Date::from_calendar_date(1970, Month::January, 1).unwrap();
    assert_eq!(d.midnight(), PrimitiveDateTime { date: d, time: Time::midnight() });
    let t = Time::from_hms(1, 2, 3).unwrap();
    assert_eq!(d.with_time(t).time, t);
    assert!(d.with_hms(0, 0, 0).is_ok());
    assert_eq!(d.with_hms(24, 0, 0).unwrap_err().name(), "hour");
    assert!(d.with_hms_milli(0, 0, 0, 0).is_ok());
    assert_eq!(d.with_hms_milli(23, 59, 59, 1_000).unwrap_err().name(), "millisecond");
    assert_eq!(d.with_hms_milli(24, 0, 0, 1_000).unwrap_err().name(), "hour");
    assert_eq!(d.with_hms_micro(1, 2, 3, 4).unwrap().time.nanosecond, 4_000);
    assert!(d.with_hms_micro(24, 0, 0, 0).is_err());
    assert_eq!(d.with_hms_nano(1, 2, 3, 999_999_999).unwrap().time.nanosecond, 999_999_999);
    assert_eq!(d.with_hms_nano(0, 60, 0, 0).unwrap_err().name(), "minute");
    assert_eq!(d.with_hms_nano(0, 0, 0, 1_000_000_000).unwrap_err().name(), "nanosecond");
}

#[test]
fn borrowed_items_with_nesting_become_owned() {
    let inner = vec![BorrowedFormatItem::Literal(b"x"), BorrowedFormatItem::Component(day())];
    let optional_inner = BorrowedFormatItem::Literal(b"?");
    let items = [
        BorrowedFormatItem::Compound(&inner),
        BorrowedFormatItem::Optional(&optional_inner),
        BorrowedFormatItem::First(&inner),
    ];
    let owned = OwnedFormatItem::from_borrowed_items(&items);
    let inner_owned = || vec![OwnedFormatItem::Literal(b"x".to_vec()), OwnedFormatItem::Component(day())];
    assert_eq!(
        owned,
        OwnedFormatItem::Compound(vec![
            OwnedFormatItem::Compound(inner_owned()),
            OwnedFormatItem::Optional(Box::new(OwnedFormatItem::Literal(b"?".to_vec()))),
            OwnedFormatItem::First(inner_owned()),
        ])
    );
}
