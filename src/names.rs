//! The fixed tables of names that months, weekdays and periods are written
//! with.
use vstd::prelude::*;

verus! {

/// The views of a table of byte strings.
pub open spec fn view_names(v: Seq<Vec<u8>>) -> Seq<Seq<u8>> {
    v.map_values(|x: Vec<u8>| x@)
}

/// English month names, January first.
pub open spec fn month_long_names() -> Seq<Seq<u8>> {
    seq![
        seq![0x4Au8, 0x61u8, 0x6Eu8, 0x75u8, 0x61u8, 0x72u8, 0x79u8],
        seq![0x46u8, 0x65u8, 0x62u8, 0x72u8, 0x75u8, 0x61u8, 0x72u8, 0x79u8],
        seq![0x4Du8, 0x61u8, 0x72u8, 0x63u8, 0x68u8],
        seq![0x41u8, 0x70u8, 0x72u8, 0x69u8, 0x6Cu8],
        seq![0x4Du8, 0x61u8, 0x79u8],
        seq![0x4Au8, 0x75u8, 0x6Eu8, 0x65u8],
        seq![0x4Au8, 0x75u8, 0x6Cu8, 0x79u8],
        seq![0x41u8, 0x75u8, 0x67u8, 0x75u8, 0x73u8, 0x74u8],
        seq![0x53u8, 0x65u8, 0x70u8, 0x74u8, 0x65u8, 0x6Du8, 0x62u8, 0x65u8, 0x72u8],
        seq![0x4Fu8, 0x63u8, 0x74u8, 0x6Fu8, 0x62u8, 0x65u8, 0x72u8],
        seq![0x4Eu8, 0x6Fu8, 0x76u8, 0x65u8, 0x6Du8, 0x62u8, 0x65u8, 0x72u8],
        seq![0x44u8, 0x65u8, 0x63u8, 0x65u8, 0x6Du8, 0x62u8, 0x65u8, 0x72u8],
    ]
}

/// English month names, January first.
pub fn month_long_table() -> (r: Vec<Vec<u8>>)
    ensures
        view_names(r@) == month_long_names(),
{
    let r = vec![
        vec![0x4Au8, 0x61u8, 0x6Eu8, 0x75u8, 0x61u8, 0x72u8, 0x79u8],
        vec![0x46u8, 0x65u8, 0x62u8, 0x72u8, 0x75u8, 0x61u8, 0x72u8, 0x79u8],
        vec![0x4Du8, 0x61u8, 0x72u8, 0x63u8, 0x68u8],
        vec![0x41u8, 0x70u8, 0x72u8, 0x69u8, 0x6Cu8],
        vec![0x4Du8, 0x61u8, 0x79u8],
        vec![0x4Au8, 0x75u8, 0x6Eu8, 0x65u8],
        vec![0x4Au8, 0x75u8, 0x6Cu8, 0x79u8],
        vec![0x41u8, 0x75u8, 0x67u8, 0x75u8, 0x73u8, 0x74u8],
        vec![0x53u8, 0x65u8, 0x70u8, 0x74u8, 0x65u8, 0x6Du8, 0x62u8, 0x65u8, 0x72u8],
        vec![0x4Fu8, 0x63u8, 0x74u8, 0x6Fu8, 0x62u8, 0x65u8, 0x72u8],
        vec![0x4Eu8, 0x6Fu8, 0x76u8, 0x65u8, 0x6Du8, 0x62u8, 0x65u8, 0x72u8],
        vec![0x44u8, 0x65u8, 0x63u8, 0x65u8, 0x6Du8, 0x62u8, 0x65u8, 0x72u8],
    ];
    assert(view_names(r@) =~~= month_long_names());
    r
}

/// Three-letter English month names, January first.
pub open spec fn month_short_names() -> Seq<Seq<u8>> {
    seq![
        seq![0x4Au8, 0x61u8, 0x6Eu8],
        seq![0x46u8, 0x65u8, 0x62u8],
        seq![0x4Du8, 0x61u8, 0x72u8],
        seq![0x41u8, 0x70u8, 0x72u8],
        seq![0x4Du8, 0x61u8, 0x79u8],
        seq![0x4Au8, 0x75u8, 0x6Eu8],
        seq![0x4Au8, 0x75u8, 0x6Cu8],
        seq![0x41u8, 0x75u8, 0x67u8],
        seq![0x53u8, 0x65u8, 0x70u8],
        seq![0x4Fu8, 0x63u8, 0x74u8],
        seq![0x4Eu8, 0x6Fu8, 0x76u8],
        seq![0x44u8, 0x65u8, 0x63u8],
    ]
}

/// Three-letter English month names, January first.
pub fn month_short_table() -> (r: Vec<Vec<u8>>)
    ensures
        view_names(r@) == month_short_names(),
{
    let r = vec![
        vec![0x4Au8, 0x61u8, 0x6Eu8],
        vec![0x46u8, 0x65u8, 0x62u8],
        vec![0x4Du8, 0x61u8, 0x72u8],
        vec![0x41u8, 0x70u8, 0x72u8],
        vec![0x4Du8, 0x61u8, 0x79u8],
        vec![0x4Au8, 0x75u8, 0x6Eu8],
        vec![0x4Au8, 0x75u8, 0x6Cu8],
        vec![0x41u8, 0x75u8, 0x67u8],
        vec![0x53u8, 0x65u8, 0x70u8],
        vec![0x4Fu8, 0x63u8, 0x74u8],
        vec![0x4Eu8, 0x6Fu8, 0x76u8],
        vec![0x44u8, 0x65u8, 0x63u8],
    ];
    assert(view_names(r@) =~~= month_short_names());
    r
}

/// English weekday names, Monday first.
pub open spec fn weekday_long_names() -> Seq<Seq<u8>> {
    seq![
        seq![0x4Du8, 0x6Fu8, 0x6Eu8, 0x64u8, 0x61u8, 0x79u8],
        seq![0x54u8, 0x75u8, 0x65u8, 0x73u8, 0x64u8, 0x61u8, 0x79u8],
        seq![0x57u8, 0x65u8, 0x64u8, 0x6Eu8, 0x65u8, 0x73u8, 0x64u8, 0x61u8, 0x79u8],
        seq![0x54u8, 0x68u8, 0x75u8, 0x72u8, 0x73u8, 0x64u8, 0x61u8, 0x79u8],
        seq![0x46u8, 0x72u8, 0x69u8, 0x64u8, 0x61u8, 0x79u8],
        seq![0x53u8, 0x61u8, 0x74u8, 0x75u8, 0x72u8, 0x64u8, 0x61u8, 0x79u8],
        seq![0x53u8, 0x75u8, 0x6Eu8, 0x64u8, 0x61u8, 0x79u8],
    ]
}

/// English weekday names, Monday first.
pub fn weekday_long_table() -> (r: Vec<Vec<u8>>)
    ensures
        view_names(r@) == weekday_long_names(),
{
    let r = vec![
        vec![0x4Du8, 0x6Fu8, 0x6Eu8, 0x64u8, 0x61u8, 0x79u8],
        vec![0x54u8, 0x75u8, 0x65u8, 0x73u8, 0x64u8, 0x61u8, 0x79u8],
        vec![0x57u8, 0x65u8, 0x64u8, 0x6Eu8, 0x65u8, 0x73u8, 0x64u8, 0x61u8, 0x79u8],
        vec![0x54u8, 0x68u8, 0x75u8, 0x72u8, 0x73u8, 0x64u8, 0x61u8, 0x79u8],
        vec![0x46u8, 0x72u8, 0x69u8, 0x64u8, 0x61u8, 0x79u8],
        vec![0x53u8, 0x61u8, 0x74u8, 0x75u8, 0x72u8, 0x64u8, 0x61u8, 0x79u8],
        vec![0x53u8, 0x75u8, 0x6Eu8, 0x64u8, 0x61u8, 0x79u8],
    ];
    assert(view_names(r@) =~~= weekday_long_names());
    r
}

/// Three-letter English weekday names, Monday first.
pub open spec fn weekday_short_names() -> Seq<Seq<u8>> {
    seq![
        seq![0x4Du8, 0x6Fu8, 0x6Eu8],
        seq![0x54u8, 0x75u8, 0x65u8],
        seq![0x57u8, 0x65u8, 0x64u8],
        seq![0x54u8, 0x68u8, 0x75u8],
        seq![0x46u8, 0x72u8, 0x69u8],
        seq![0x53u8, 0x61u8, 0x74u8],
        seq![0x53u8, 0x75u8, 0x6Eu8],
    ]
}

/// Three-letter English weekday names, Monday first.
pub fn weekday_short_table() -> (r: Vec<Vec<u8>>)
    ensures
        view_names(r@) == weekday_short_names(),
{
    let r = vec![
        vec![0x4Du8, 0x6Fu8, 0x6Eu8],
        vec![0x54u8, 0x75u8, 0x65u8],
        vec![0x57u8, 0x65u8, 0x64u8],
        vec![0x54u8, 0x68u8, 0x75u8],
        vec![0x46u8, 0x72u8, 0x69u8],
        vec![0x53u8, 0x61u8, 0x74u8],
        vec![0x53u8, 0x75u8, 0x6Eu8],
    ];
    assert(view_names(r@) =~~= weekday_short_names());
    r
}

/// Weekday numbers counted from Sunday = 0, Monday first.
pub open spec fn weekday_sunday_zero_names() -> Seq<Seq<u8>> {
    seq![
        seq![0x31u8],
        seq![0x32u8],
        seq![0x33u8],
        seq![0x34u8],
        seq![0x35u8],
        seq![0x36u8],
        seq![0x30u8],
    ]
}

/// Weekday numbers counted from Sunday = 0, Monday first.
pub fn weekday_sunday_zero_table() -> (r: Vec<Vec<u8>>)
    ensures
        view_names(r@) == weekday_sunday_zero_names(),
{
    let r = vec![
        vec![0x31u8],
        vec![0x32u8],
        vec![0x33u8],
        vec![0x34u8],
        vec![0x35u8],
        vec![0x36u8],
        vec![0x30u8],
    ];
    assert(view_names(r@) =~~= weekday_sunday_zero_names());
    r
}

/// Weekday numbers counted from Sunday = 1, Monday first.
pub open spec fn weekday_sunday_one_names() -> Seq<Seq<u8>> {
    seq![
        seq![0x32u8],
        seq![0x33u8],
        seq![0x34u8],
        seq![0x35u8],
        seq![0x36u8],
        seq![0x37u8],
        seq![0x31u8],
    ]
}

/// Weekday numbers counted from Sunday = 1, Monday first.
pub fn weekday_sunday_one_table() -> (r: Vec<Vec<u8>>)
    ensures
        view_names(r@) == weekday_sunday_one_names(),
{
    let r = vec![
        vec![0x32u8],
        vec![0x33u8],
        vec![0x34u8],
        vec![0x35u8],
        vec![0x36u8],
        vec![0x37u8],
        vec![0x31u8],
    ];
    assert(view_names(r@) =~~= weekday_sunday_one_names());
    r
}

/// Weekday numbers counted from Monday = 0, Monday first.
pub open spec fn weekday_monday_zero_names() -> Seq<Seq<u8>> {
    seq![
        seq![0x30u8],
        seq![0x31u8],
        seq![0x32u8],
        seq![0x33u8],
        seq![0x34u8],
        seq![0x35u8],
        seq![0x36u8],
    ]
}

/// Weekday numbers counted from Monday = 0, Monday first.
pub fn weekday_monday_zero_table() -> (r: Vec<Vec<u8>>)
    ensures
        view_names(r@) == weekday_monday_zero_names(),
{
    let r = vec![
        vec![0x30u8],
        vec![0x31u8],
        vec![0x32u8],
        vec![0x33u8],
        vec![0x34u8],
        vec![0x35u8],
        vec![0x36u8],
    ];
    assert(view_names(r@) =~~= weekday_monday_zero_names());
    r
}

/// Weekday numbers counted from Monday = 1, Monday first.
pub open spec fn weekday_monday_one_names() -> Seq<Seq<u8>> {
    seq![
        seq![0x31u8],
        seq![0x32u8],
        seq![0x33u8],
        seq![0x34u8],
        seq![0x35u8],
        seq![0x36u8],
        seq![0x37u8],
    ]
}

/// Weekday numbers counted from Monday = 1, Monday first.
pub fn weekday_monday_one_table() -> (r: Vec<Vec<u8>>)
    ensures
        view_names(r@) == weekday_monday_one_names(),
{
    let r = vec![
        vec![0x31u8],
        vec![0x32u8],
        vec![0x33u8],
        vec![0x34u8],
        vec![0x35u8],
        vec![0x36u8],
        vec![0x37u8],
    ];
    assert(view_names(r@) =~~= weekday_monday_one_names());
    r
}

/// Upper-case period names, AM first.
pub open spec fn period_upper_names() -> Seq<Seq<u8>> {
    seq![
        seq![0x41u8, 0x4Du8],
        seq![0x50u8, 0x4Du8],
    ]
}

/// Upper-case period names, AM first.
pub fn period_upper_table() -> (r: Vec<Vec<u8>>)
    ensures
        view_names(r@) == period_upper_names(),
{
    let r = vec![
        vec![0x41u8, 0x4Du8],
        vec![0x50u8, 0x4Du8],
    ];
    assert(view_names(r@) =~~= period_upper_names());
    r
}

/// Lower-case period names, AM first.
pub open spec fn period_lower_names() -> Seq<Seq<u8>> {
    seq![
        seq![0x61u8, 0x6Du8],
        seq![0x70u8, 0x6Du8],
    ]
}

/// Lower-case period names, AM first.
pub fn period_lower_table() -> (r: Vec<Vec<u8>>)
    ensures
        view_names(r@) == period_lower_names(),
{
    let r = vec![
        vec![0x61u8, 0x6Du8],
        vec![0x70u8, 0x6Du8],
    ];
    assert(view_names(r@) =~~= period_lower_names());
    r
}

} // verus!
