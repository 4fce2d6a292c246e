//! The words of the format-description language: component names, modifier
//! keys and modifier values.
use vstd::prelude::*;

verus! {

/// The bytes of `day`.
pub open spec fn word_day() -> Seq<u8> {
    seq![0x64u8, 0x61u8, 0x79u8]
}

/// Whether `s` is `day`.
pub fn is_day(s: &[u8]) -> (r: bool)
    ensures
        r == (s@ == word_day()),
{
    let r = s.len() == 3 && s[0] == 0x64 && s[1] == 0x61 && s[2] == 0x79;
    assert(r ==> s@ =~= word_day());
    r
}

/// The bytes of `month`.
pub open spec fn word_month() -> Seq<u8> {
    seq![0x6Du8, 0x6Fu8, 0x6Eu8, 0x74u8, 0x68u8]
}

/// Whether `s` is `month`.
pub fn is_month(s: &[u8]) -> (r: bool)
    ensures
        r == (s@ == word_month()),
{
    let r = s.len() == 5 && s[0] == 0x6D && s[1] == 0x6F && s[2] == 0x6E && s[3] == 0x74 && s[4] == 0x68;
    assert(r ==> s@ =~= word_month());
    r
}

/// The bytes of `ordinal`.
pub open spec fn word_ordinal() -> Seq<u8> {
    seq![0x6Fu8, 0x72u8, 0x64u8, 0x69u8, 0x6Eu8, 0x61u8, 0x6Cu8]
}

/// Whether `s` is `ordinal`.
pub fn is_ordinal(s: &[u8]) -> (r: bool)
    ensures
        r == (s@ == word_ordinal()),
{
    let r = s.len() == 7 && s[0] == 0x6F && s[1] == 0x72 && s[2] == 0x64 && s[3] == 0x69 && s[4] == 0x6E && s[5] == 0x61 && s[6] == 0x6C;
    assert(r ==> s@ =~= word_ordinal());
    r
}

/// The bytes of `weekday`.
pub open spec fn word_weekday() -> Seq<u8> {
    seq![0x77u8, 0x65u8, 0x65u8, 0x6Bu8, 0x64u8, 0x61u8, 0x79u8]
}

/// Whether `s` is `weekday`.
pub fn is_weekday(s: &[u8]) -> (r: bool)
    ensures
        r == (s@ == word_weekday()),
{
    let r = s.len() == 7 && s[0] == 0x77 && s[1] == 0x65 && s[2] == 0x65 && s[3] == 0x6B && s[4] == 0x64 && s[5] == 0x61 && s[6] == 0x79;
    assert(r ==> s@ =~= word_weekday());
    r
}

/// The bytes of `week_number`.
pub open spec fn word_week_number() -> Seq<u8> {
    seq![0x77u8, 0x65u8, 0x65u8, 0x6Bu8, 0x5Fu8, 0x6Eu8, 0x75u8, 0x6Du8, 0x62u8, 0x65u8, 0x72u8]
}

/// Whether `s` is `week_number`.
pub fn is_week_number(s: &[u8]) -> (r: bool)
    ensures
        r == (s@ == word_week_number()),
{
    let r = s.len() == 11 && s[0] == 0x77 && s[1] == 0x65 && s[2] == 0x65 && s[3] == 0x6B && s[4] == 0x5F && s[5] == 0x6E && s[6] == 0x75 && s[7] == 0x6D && s[8] == 0x62 && s[9] == 0x65 && s[10] == 0x72;
    assert(r ==> s@ =~= word_week_number());
    r
}

/// The bytes of `year`.
pub open spec fn word_year() -> Seq<u8> {
    seq![0x79u8, 0x65u8, 0x61u8, 0x72u8]
}

/// Whether `s` is `year`.
pub fn is_year(s: &[u8]) -> (r: bool)
    ensures
        r == (s@ == word_year()),
{
    let r = s.len() == 4 && s[0] == 0x79 && s[1] == 0x65 && s[2] == 0x61 && s[3] == 0x72;
    assert(r ==> s@ =~= word_year());
    r
}

/// The bytes of `hour`.
pub open spec fn word_hour() -> Seq<u8> {
    seq![0x68u8, 0x6Fu8, 0x75u8, 0x72u8]
}

/// Whether `s` is `hour`.
pub fn is_hour(s: &[u8]) -> (r: bool)
    ensures
        r == (s@ == word_hour()),
{
    let r = s.len() == 4 && s[0] == 0x68 && s[1] == 0x6F && s[2] == 0x75 && s[3] == 0x72;
    assert(r ==> s@ =~= word_hour());
    r
}

/// The bytes of `minute`.
pub open spec fn word_minute() -> Seq<u8> {
    seq![0x6Du8, 0x69u8, 0x6Eu8, 0x75u8, 0x74u8, 0x65u8]
}

/// Whether `s` is `minute`.
pub fn is_minute(s: &[u8]) -> (r: bool)
    ensures
        r == (s@ == word_minute()),
{
    let r = s.len() == 6 && s[0] == 0x6D && s[1] == 0x69 && s[2] == 0x6E && s[3] == 0x75 && s[4] == 0x74 && s[5] == 0x65;
    assert(r ==> s@ =~= word_minute());
    r
}

/// The bytes of `period`.
pub open spec fn word_period() -> Seq<u8> {
    seq![0x70u8, 0x65u8, 0x72u8, 0x69u8, 0x6Fu8, 0x64u8]
}

/// Whether `s` is `period`.
pub fn is_period(s: &[u8]) -> (r: bool)
    ensures
        r == (s@ == word_period()),
{
    let r = s.len() == 6 && s[0] == 0x70 && s[1] == 0x65 && s[2] == 0x72 && s[3] == 0x69 && s[4] == 0x6F && s[5] == 0x64;
    assert(r ==> s@ =~= word_period());
    r
}

/// The bytes of `second`.
pub open spec fn word_second() -> Seq<u8> {
    seq![0x73u8, 0x65u8, 0x63u8, 0x6Fu8, 0x6Eu8, 0x64u8]
}

/// Whether `s` is `second`.
pub fn is_second(s: &[u8]) -> (r: bool)
    ensures
        r == (s@ == word_second()),
{
    let r = s.len() == 6 && s[0] == 0x73 && s[1] == 0x65 && s[2] == 0x63 && s[3] == 0x6F && s[4] == 0x6E && s[5] == 0x64;
    assert(r ==> s@ =~= word_second());
    r
}

/// The bytes of `subsecond`.
pub open spec fn word_subsecond() -> Seq<u8> {
    seq![0x73u8, 0x75u8, 0x62u8, 0x73u8, 0x65u8, 0x63u8, 0x6Fu8, 0x6Eu8, 0x64u8]
}

/// Whether `s` is `subsecond`.
pub fn is_subsecond(s: &[u8]) -> (r: bool)
    ensures
        r == (s@ == word_subsecond()),
{
    let r = s.len() == 9 && s[0] == 0x73 && s[1] == 0x75 && s[2] == 0x62 && s[3] == 0x73 && s[4] == 0x65 && s[5] == 0x63 && s[6] == 0x6F && s[7] == 0x6E && s[8] == 0x64;
    assert(r ==> s@ =~= word_subsecond());
    r
}

/// The bytes of `offset_hour`.
pub open spec fn word_offset_hour() -> Seq<u8> {
    seq![0x6Fu8, 0x66u8, 0x66u8, 0x73u8, 0x65u8, 0x74u8, 0x5Fu8, 0x68u8, 0x6Fu8, 0x75u8, 0x72u8]
}

/// Whether `s` is `offset_hour`.
pub fn is_offset_hour(s: &[u8]) -> (r: bool)
    ensures
        r == (s@ == word_offset_hour()),
{
    let r = s.len() == 11 && s[0] == 0x6F && s[1] == 0x66 && s[2] == 0x66 && s[3] == 0x73 && s[4] == 0x65 && s[5] == 0x74 && s[6] == 0x5F && s[7] == 0x68 && s[8] == 0x6F && s[9] == 0x75 && s[10] == 0x72;
    assert(r ==> s@ =~= word_offset_hour());
    r
}

/// The bytes of `offset_minute`.
pub open spec fn word_offset_minute() -> Seq<u8> {
    seq![0x6Fu8, 0x66u8, 0x66u8, 0x73u8, 0x65u8, 0x74u8, 0x5Fu8, 0x6Du8, 0x69u8, 0x6Eu8, 0x75u8, 0x74u8, 0x65u8]
}

/// Whether `s` is `offset_minute`.
pub fn is_offset_minute(s: &[u8]) -> (r: bool)
    ensures
        r == (s@ == word_offset_minute()),
{
    let r = s.len() == 13 && s[0] == 0x6F && s[1] == 0x66 && s[2] == 0x66 && s[3] == 0x73 && s[4] == 0x65 && s[5] == 0x74 && s[6] == 0x5F && s[7] == 0x6D && s[8] == 0x69 && s[9] == 0x6E && s[10] == 0x75 && s[11] == 0x74 && s[12] == 0x65;
    assert(r ==> s@ =~= word_offset_minute());
    r
}

/// The bytes of `offset_second`.
pub open spec fn word_offset_second() -> Seq<u8> {
    seq![0x6Fu8, 0x66u8, 0x66u8, 0x73u8, 0x65u8, 0x74u8, 0x5Fu8, 0x73u8, 0x65u8, 0x63u8, 0x6Fu8, 0x6Eu8, 0x64u8]
}

/// Whether `s` is `offset_second`.
pub fn is_offset_second(s: &[u8]) -> (r: bool)
    ensures
        r == (s@ == word_offset_second()),
{
    let r = s.len() == 13 && s[0] == 0x6F && s[1] == 0x66 && s[2] == 0x66 && s[3] == 0x73 && s[4] == 0x65 && s[5] == 0x74 && s[6] == 0x5F && s[7] == 0x73 && s[8] == 0x65 && s[9] == 0x63 && s[10] == 0x6F && s[11] == 0x6E && s[12] == 0x64;
    assert(r ==> s@ =~= word_offset_second());
    r
}

/// The bytes of `ignore`.
pub open spec fn word_ignore() -> Seq<u8> {
    seq![0x69u8, 0x67u8, 0x6Eu8, 0x6Fu8, 0x72u8, 0x65u8]
}

/// Whether `s` is `ignore`.
pub fn is_ignore(s: &[u8]) -> (r: bool)
    ensures
        r == (s@ == word_ignore()),
{
    let r = s.len() == 6 && s[0] == 0x69 && s[1] == 0x67 && s[2] == 0x6E && s[3] == 0x6F && s[4] == 0x72 && s[5] == 0x65;
    assert(r ==> s@ =~= word_ignore());
    r
}

/// The bytes of `unix_timestamp`.
pub open spec fn word_unix_timestamp() -> Seq<u8> {
    seq![0x75u8, 0x6Eu8, 0x69u8, 0x78u8, 0x5Fu8, 0x74u8, 0x69u8, 0x6Du8, 0x65u8, 0x73u8, 0x74u8, 0x61u8, 0x6Du8, 0x70u8]
}

/// Whether `s` is `unix_timestamp`.
pub fn is_unix_timestamp(s: &[u8]) -> (r: bool)
    ensures
        r == (s@ == word_unix_timestamp()),
{
    let r = s.len() == 14 && s[0] == 0x75 && s[1] == 0x6E && s[2] == 0x69 && s[3] == 0x78 && s[4] == 0x5F && s[5] == 0x74 && s[6] == 0x69 && s[7] == 0x6D && s[8] == 0x65 && s[9] == 0x73 && s[10] == 0x74 && s[11] == 0x61 && s[12] == 0x6D && s[13] == 0x70;
    assert(r ==> s@ =~= word_unix_timestamp());
    r
}

/// The bytes of `end`.
pub open spec fn word_end() -> Seq<u8> {
    seq![0x65u8, 0x6Eu8, 0x64u8]
}

/// Whether `s` is `end`.
pub fn is_end(s: &[u8]) -> (r: bool)
    ensures
        r == (s@ == word_end()),
{
    let r = s.len() == 3 && s[0] == 0x65 && s[1] == 0x6E && s[2] == 0x64;
    assert(r ==> s@ =~= word_end());
    r
}

/// The bytes of `optional`.
pub open spec fn word_optional() -> Seq<u8> {
    seq![0x6Fu8, 0x70u8, 0x74u8, 0x69u8, 0x6Fu8, 0x6Eu8, 0x61u8, 0x6Cu8]
}

/// Whether `s` is `optional`.
pub fn is_optional(s: &[u8]) -> (r: bool)
    ensures
        r == (s@ == word_optional()),
{
    let r = s.len() == 8 && s[0] == 0x6F && s[1] == 0x70 && s[2] == 0x74 && s[3] == 0x69 && s[4] == 0x6F && s[5] == 0x6E && s[6] == 0x61 && s[7] == 0x6C;
    assert(r ==> s@ =~= word_optional());
    r
}

/// The bytes of `first`.
pub open spec fn word_first() -> Seq<u8> {
    seq![0x66u8, 0x69u8, 0x72u8, 0x73u8, 0x74u8]
}

/// Whether `s` is `first`.
pub fn is_first(s: &[u8]) -> (r: bool)
    ensures
        r == (s@ == word_first()),
{
    let r = s.len() == 5 && s[0] == 0x66 && s[1] == 0x69 && s[2] == 0x72 && s[3] == 0x73 && s[4] == 0x74;
    assert(r ==> s@ =~= word_first());
    r
}

/// The bytes of `padding`.
pub open spec fn word_padding() -> Seq<u8> {
    seq![0x70u8, 0x61u8, 0x64u8, 0x64u8, 0x69u8, 0x6Eu8, 0x67u8]
}

/// Whether `s` is `padding`.
pub fn is_padding(s: &[u8]) -> (r: bool)
    ensures
        r == (s@ == word_padding()),
{
    let r = s.len() == 7 && s[0] == 0x70 && s[1] == 0x61 && s[2] == 0x64 && s[3] == 0x64 && s[4] == 0x69 && s[5] == 0x6E && s[6] == 0x67;
    assert(r ==> s@ =~= word_padding());
    r
}

/// The bytes of `repr`.
pub open spec fn word_repr() -> Seq<u8> {
    seq![0x72u8, 0x65u8, 0x70u8, 0x72u8]
}

/// Whether `s` is `repr`.
pub fn is_repr(s: &[u8]) -> (r: bool)
    ensures
        r == (s@ == word_repr()),
{
    let r = s.len() == 4 && s[0] == 0x72 && s[1] == 0x65 && s[2] == 0x70 && s[3] == 0x72;
    assert(r ==> s@ =~= word_repr());
    r
}

/// The bytes of `case_sensitive`.
pub open spec fn word_case_sensitive() -> Seq<u8> {
    seq![0x63u8, 0x61u8, 0x73u8, 0x65u8, 0x5Fu8, 0x73u8, 0x65u8, 0x6Eu8, 0x73u8, 0x69u8, 0x74u8, 0x69u8, 0x76u8, 0x65u8]
}

/// Whether `s` is `case_sensitive`.
pub fn is_case_sensitive(s: &[u8]) -> (r: bool)
    ensures
        r == (s@ == word_case_sensitive()),
{
    let r = s.len() == 14 && s[0] == 0x63 && s[1] == 0x61 && s[2] == 0x73 && s[3] == 0x65 && s[4] == 0x5F && s[5] == 0x73 && s[6] == 0x65 && s[7] == 0x6E && s[8] == 0x73 && s[9] == 0x69 && s[10] == 0x74 && s[11] == 0x69 && s[12] == 0x76 && s[13] == 0x65;
    assert(r ==> s@ =~= word_case_sensitive());
    r
}

/// The bytes of `one_indexed`.
pub open spec fn word_one_indexed() -> Seq<u8> {
    seq![0x6Fu8, 0x6Eu8, 0x65u8, 0x5Fu8, 0x69u8, 0x6Eu8, 0x64u8, 0x65u8, 0x78u8, 0x65u8, 0x64u8]
}

/// Whether `s` is `one_indexed`.
pub fn is_one_indexed(s: &[u8]) -> (r: bool)
    ensures
        r == (s@ == word_one_indexed()),
{
    let r = s.len() == 11 && s[0] == 0x6F && s[1] == 0x6E && s[2] == 0x65 && s[3] == 0x5F && s[4] == 0x69 && s[5] == 0x6E && s[6] == 0x64 && s[7] == 0x65 && s[8] == 0x78 && s[9] == 0x65 && s[10] == 0x64;
    assert(r ==> s@ =~= word_one_indexed());
    r
}

/// The bytes of `range`.
pub open spec fn word_range() -> Seq<u8> {
    seq![0x72u8, 0x61u8, 0x6Eu8, 0x67u8, 0x65u8]
}

/// Whether `s` is `range`.
pub fn is_range(s: &[u8]) -> (r: bool)
    ensures
        r == (s@ == word_range()),
{
    let r = s.len() == 5 && s[0] == 0x72 && s[1] == 0x61 && s[2] == 0x6E && s[3] == 0x67 && s[4] == 0x65;
    assert(r ==> s@ =~= word_range());
    r
}

/// The bytes of `base`.
pub open spec fn word_base() -> Seq<u8> {
    seq![0x62u8, 0x61u8, 0x73u8, 0x65u8]
}

/// Whether `s` is `base`.
pub fn is_base(s: &[u8]) -> (r: bool)
    ensures
        r == (s@ == word_base()),
{
    let r = s.len() == 4 && s[0] == 0x62 && s[1] == 0x61 && s[2] == 0x73 && s[3] == 0x65;
    assert(r ==> s@ =~= word_base());
    r
}

/// The bytes of `sign`.
pub open spec fn word_sign() -> Seq<u8> {
    seq![0x73u8, 0x69u8, 0x67u8, 0x6Eu8]
}

/// Whether `s` is `sign`.
pub fn is_sign(s: &[u8]) -> (r: bool)
    ensures
        r == (s@ == word_sign()),
{
    let r = s.len() == 4 && s[0] == 0x73 && s[1] == 0x69 && s[2] == 0x67 && s[3] == 0x6E;
    assert(r ==> s@ =~= word_sign());
    r
}

/// The bytes of `case`.
pub open spec fn word_case() -> Seq<u8> {
    seq![0x63u8, 0x61u8, 0x73u8, 0x65u8]
}

/// Whether `s` is `case`.
pub fn is_case(s: &[u8]) -> (r: bool)
    ensures
        r == (s@ == word_case()),
{
    let r = s.len() == 4 && s[0] == 0x63 && s[1] == 0x61 && s[2] == 0x73 && s[3] == 0x65;
    assert(r ==> s@ =~= word_case());
    r
}

/// The bytes of `digits`.
pub open spec fn word_digits() -> Seq<u8> {
    seq![0x64u8, 0x69u8, 0x67u8, 0x69u8, 0x74u8, 0x73u8]
}

/// Whether `s` is `digits`.
pub fn is_digits(s: &[u8]) -> (r: bool)
    ensures
        r == (s@ == word_digits()),
{
    let r = s.len() == 6 && s[0] == 0x64 && s[1] == 0x69 && s[2] == 0x67 && s[3] == 0x69 && s[4] == 0x74 && s[5] == 0x73;
    assert(r ==> s@ =~= word_digits());
    r
}

/// The bytes of `count`.
pub open spec fn word_count() -> Seq<u8> {
    seq![0x63u8, 0x6Fu8, 0x75u8, 0x6Eu8, 0x74u8]
}

/// Whether `s` is `count`.
pub fn is_count(s: &[u8]) -> (r: bool)
    ensures
        r == (s@ == word_count()),
{
    let r = s.len() == 5 && s[0] == 0x63 && s[1] == 0x6F && s[2] == 0x75 && s[3] == 0x6E && s[4] == 0x74;
    assert(r ==> s@ =~= word_count());
    r
}

/// The bytes of `precision`.
pub open spec fn word_precision() -> Seq<u8> {
    seq![0x70u8, 0x72u8, 0x65u8, 0x63u8, 0x69u8, 0x73u8, 0x69u8, 0x6Fu8, 0x6Eu8]
}

/// Whether `s` is `precision`.
pub fn is_precision(s: &[u8]) -> (r: bool)
    ensures
        r == (s@ == word_precision()),
{
    let r = s.len() == 9 && s[0] == 0x70 && s[1] == 0x72 && s[2] == 0x65 && s[3] == 0x63 && s[4] == 0x69 && s[5] == 0x73 && s[6] == 0x69 && s[7] == 0x6F && s[8] == 0x6E;
    assert(r ==> s@ =~= word_precision());
    r
}

/// The bytes of `space`.
pub open spec fn word_space() -> Seq<u8> {
    seq![0x73u8, 0x70u8, 0x61u8, 0x63u8, 0x65u8]
}

/// Whether `s` is `space`.
pub fn is_space(s: &[u8]) -> (r: bool)
    ensures
        r == (s@ == word_space()),
{
    let r = s.len() == 5 && s[0] == 0x73 && s[1] == 0x70 && s[2] == 0x61 && s[3] == 0x63 && s[4] == 0x65;
    assert(r ==> s@ =~= word_space());
    r
}

/// The bytes of `zero`.
pub open spec fn word_zero() -> Seq<u8> {
    seq![0x7Au8, 0x65u8, 0x72u8, 0x6Fu8]
}

/// Whether `s` is `zero`.
pub fn is_zero(s: &[u8]) -> (r: bool)
    ensures
        r == (s@ == word_zero()),
{
    let r = s.len() == 4 && s[0] == 0x7A && s[1] == 0x65 && s[2] == 0x72 && s[3] == 0x6F;
    assert(r ==> s@ =~= word_zero());
    r
}

/// The bytes of `none`.
pub open spec fn word_none() -> Seq<u8> {
    seq![0x6Eu8, 0x6Fu8, 0x6Eu8, 0x65u8]
}

/// Whether `s` is `none`.
pub fn is_none(s: &[u8]) -> (r: bool)
    ensures
        r == (s@ == word_none()),
{
    let r = s.len() == 4 && s[0] == 0x6E && s[1] == 0x6F && s[2] == 0x6E && s[3] == 0x65;
    assert(r ==> s@ =~= word_none());
    r
}

/// The bytes of `numerical`.
pub open spec fn word_numerical() -> Seq<u8> {
    seq![0x6Eu8, 0x75u8, 0x6Du8, 0x65u8, 0x72u8, 0x69u8, 0x63u8, 0x61u8, 0x6Cu8]
}

/// Whether `s` is `numerical`.
pub fn is_numerical(s: &[u8]) -> (r: bool)
    ensures
        r == (s@ == word_numerical()),
{
    let r = s.len() == 9 && s[0] == 0x6E && s[1] == 0x75 && s[2] == 0x6D && s[3] == 0x65 && s[4] == 0x72 && s[5] == 0x69 && s[6] == 0x63 && s[7] == 0x61 && s[8] == 0x6C;
    assert(r ==> s@ =~= word_numerical());
    r
}

/// The bytes of `long`.
pub open spec fn word_long() -> Seq<u8> {
    seq![0x6Cu8, 0x6Fu8, 0x6Eu8, 0x67u8]
}

/// Whether `s` is `long`.
pub fn is_long(s: &[u8]) -> (r: bool)
    ensures
        r == (s@ == word_long()),
{
    let r = s.len() == 4 && s[0] == 0x6C && s[1] == 0x6F && s[2] == 0x6E && s[3] == 0x67;
    assert(r ==> s@ =~= word_long());
    r
}

/// The bytes of `short`.
pub open spec fn word_short() -> Seq<u8> {
    seq![0x73u8, 0x68u8, 0x6Fu8, 0x72u8, 0x74u8]
}

/// Whether `s` is `short`.
pub fn is_short(s: &[u8]) -> (r: bool)
    ensures
        r == (s@ == word_short()),
{
    let r = s.len() == 5 && s[0] == 0x73 && s[1] == 0x68 && s[2] == 0x6F && s[3] == 0x72 && s[4] == 0x74;
    assert(r ==> s@ =~= word_short());
    r
}

/// The bytes of `true`.
pub open spec fn word_true() -> Seq<u8> {
    seq![0x74u8, 0x72u8, 0x75u8, 0x65u8]
}

/// Whether `s` is `true`.
pub fn is_true(s: &[u8]) -> (r: bool)
    ensures
        r == (s@ == word_true()),
{
    let r = s.len() == 4 && s[0] == 0x74 && s[1] == 0x72 && s[2] == 0x75 && s[3] == 0x65;
    assert(r ==> s@ =~= word_true());
    r
}

/// The bytes of `false`.
pub open spec fn word_false() -> Seq<u8> {
    seq![0x66u8, 0x61u8, 0x6Cu8, 0x73u8, 0x65u8]
}

/// Whether `s` is `false`.
pub fn is_false(s: &[u8]) -> (r: bool)
    ensures
        r == (s@ == word_false()),
{
    let r = s.len() == 5 && s[0] == 0x66 && s[1] == 0x61 && s[2] == 0x6C && s[3] == 0x73 && s[4] == 0x65;
    assert(r ==> s@ =~= word_false());
    r
}

/// The bytes of `sunday`.
pub open spec fn word_sunday() -> Seq<u8> {
    seq![0x73u8, 0x75u8, 0x6Eu8, 0x64u8, 0x61u8, 0x79u8]
}

/// Whether `s` is `sunday`.
pub fn is_sunday(s: &[u8]) -> (r: bool)
    ensures
        r == (s@ == word_sunday()),
{
    let r = s.len() == 6 && s[0] == 0x73 && s[1] == 0x75 && s[2] == 0x6E && s[3] == 0x64 && s[4] == 0x61 && s[5] == 0x79;
    assert(r ==> s@ =~= word_sunday());
    r
}

/// The bytes of `monday`.
pub open spec fn word_monday() -> Seq<u8> {
    seq![0x6Du8, 0x6Fu8, 0x6Eu8, 0x64u8, 0x61u8, 0x79u8]
}

/// Whether `s` is `monday`.
pub fn is_monday(s: &[u8]) -> (r: bool)
    ensures
        r == (s@ == word_monday()),
{
    let r = s.len() == 6 && s[0] == 0x6D && s[1] == 0x6F && s[2] == 0x6E && s[3] == 0x64 && s[4] == 0x61 && s[5] == 0x79;
    assert(r ==> s@ =~= word_monday());
    r
}

/// The bytes of `iso`.
pub open spec fn word_iso() -> Seq<u8> {
    seq![0x69u8, 0x73u8, 0x6Fu8]
}

/// Whether `s` is `iso`.
pub fn is_iso(s: &[u8]) -> (r: bool)
    ensures
        r == (s@ == word_iso()),
{
    let r = s.len() == 3 && s[0] == 0x69 && s[1] == 0x73 && s[2] == 0x6F;
    assert(r ==> s@ =~= word_iso());
    r
}

/// The bytes of `full`.
pub open spec fn word_full() -> Seq<u8> {
    seq![0x66u8, 0x75u8, 0x6Cu8, 0x6Cu8]
}

/// Whether `s` is `full`.
pub fn is_full(s: &[u8]) -> (r: bool)
    ensures
        r == (s@ == word_full()),
{
    let r = s.len() == 4 && s[0] == 0x66 && s[1] == 0x75 && s[2] == 0x6C && s[3] == 0x6C;
    assert(r ==> s@ =~= word_full());
    r
}

/// The bytes of `century`.
pub open spec fn word_century() -> Seq<u8> {
    seq![0x63u8, 0x65u8, 0x6Eu8, 0x74u8, 0x75u8, 0x72u8, 0x79u8]
}

/// Whether `s` is `century`.
pub fn is_century(s: &[u8]) -> (r: bool)
    ensures
        r == (s@ == word_century()),
{
    let r = s.len() == 7 && s[0] == 0x63 && s[1] == 0x65 && s[2] == 0x6E && s[3] == 0x74 && s[4] == 0x75 && s[5] == 0x72 && s[6] == 0x79;
    assert(r ==> s@ =~= word_century());
    r
}

/// The bytes of `last_two`.
pub open spec fn word_last_two() -> Seq<u8> {
    seq![0x6Cu8, 0x61u8, 0x73u8, 0x74u8, 0x5Fu8, 0x74u8, 0x77u8, 0x6Fu8]
}

/// Whether `s` is `last_two`.
pub fn is_last_two(s: &[u8]) -> (r: bool)
    ensures
        r == (s@ == word_last_two()),
{
    let r = s.len() == 8 && s[0] == 0x6C && s[1] == 0x61 && s[2] == 0x73 && s[3] == 0x74 && s[4] == 0x5F && s[5] == 0x74 && s[6] == 0x77 && s[7] == 0x6F;
    assert(r ==> s@ =~= word_last_two());
    r
}

/// The bytes of `standard`.
pub open spec fn word_standard() -> Seq<u8> {
    seq![0x73u8, 0x74u8, 0x61u8, 0x6Eu8, 0x64u8, 0x61u8, 0x72u8, 0x64u8]
}

/// Whether `s` is `standard`.
pub fn is_standard(s: &[u8]) -> (r: bool)
    ensures
        r == (s@ == word_standard()),
{
    let r = s.len() == 8 && s[0] == 0x73 && s[1] == 0x74 && s[2] == 0x61 && s[3] == 0x6E && s[4] == 0x64 && s[5] == 0x61 && s[6] == 0x72 && s[7] == 0x64;
    assert(r ==> s@ =~= word_standard());
    r
}

/// The bytes of `extended`.
pub open spec fn word_extended() -> Seq<u8> {
    seq![0x65u8, 0x78u8, 0x74u8, 0x65u8, 0x6Eu8, 0x64u8, 0x65u8, 0x64u8]
}

/// Whether `s` is `extended`.
pub fn is_extended(s: &[u8]) -> (r: bool)
    ensures
        r == (s@ == word_extended()),
{
    let r = s.len() == 8 && s[0] == 0x65 && s[1] == 0x78 && s[2] == 0x74 && s[3] == 0x65 && s[4] == 0x6E && s[5] == 0x64 && s[6] == 0x65 && s[7] == 0x64;
    assert(r ==> s@ =~= word_extended());
    r
}

/// The bytes of `calendar`.
pub open spec fn word_calendar() -> Seq<u8> {
    seq![0x63u8, 0x61u8, 0x6Cu8, 0x65u8, 0x6Eu8, 0x64u8, 0x61u8, 0x72u8]
}

/// Whether `s` is `calendar`.
pub fn is_calendar(s: &[u8]) -> (r: bool)
    ensures
        r == (s@ == word_calendar()),
{
    let r = s.len() == 8 && s[0] == 0x63 && s[1] == 0x61 && s[2] == 0x6C && s[3] == 0x65 && s[4] == 0x6E && s[5] == 0x64 && s[6] == 0x61 && s[7] == 0x72;
    assert(r ==> s@ =~= word_calendar());
    r
}

/// The bytes of `iso_week`.
pub open spec fn word_iso_week() -> Seq<u8> {
    seq![0x69u8, 0x73u8, 0x6Fu8, 0x5Fu8, 0x77u8, 0x65u8, 0x65u8, 0x6Bu8]
}

/// Whether `s` is `iso_week`.
pub fn is_iso_week(s: &[u8]) -> (r: bool)
    ensures
        r == (s@ == word_iso_week()),
{
    let r = s.len() == 8 && s[0] == 0x69 && s[1] == 0x73 && s[2] == 0x6F && s[3] == 0x5F && s[4] == 0x77 && s[5] == 0x65 && s[6] == 0x65 && s[7] == 0x6B;
    assert(r ==> s@ =~= word_iso_week());
    r
}

/// The bytes of `automatic`.
pub open spec fn word_automatic() -> Seq<u8> {
    seq![0x61u8, 0x75u8, 0x74u8, 0x6Fu8, 0x6Du8, 0x61u8, 0x74u8, 0x69u8, 0x63u8]
}

/// Whether `s` is `automatic`.
pub fn is_automatic(s: &[u8]) -> (r: bool)
    ensures
        r == (s@ == word_automatic()),
{
    let r = s.len() == 9 && s[0] == 0x61 && s[1] == 0x75 && s[2] == 0x74 && s[3] == 0x6F && s[4] == 0x6D && s[5] == 0x61 && s[6] == 0x74 && s[7] == 0x69 && s[8] == 0x63;
    assert(r ==> s@ =~= word_automatic());
    r
}

/// The bytes of `mandatory`.
pub open spec fn word_mandatory() -> Seq<u8> {
    seq![0x6Du8, 0x61u8, 0x6Eu8, 0x64u8, 0x61u8, 0x74u8, 0x6Fu8, 0x72u8, 0x79u8]
}

/// Whether `s` is `mandatory`.
pub fn is_mandatory(s: &[u8]) -> (r: bool)
    ensures
        r == (s@ == word_mandatory()),
{
    let r = s.len() == 9 && s[0] == 0x6D && s[1] == 0x61 && s[2] == 0x6E && s[3] == 0x64 && s[4] == 0x61 && s[5] == 0x74 && s[6] == 0x6F && s[7] == 0x72 && s[8] == 0x79;
    assert(r ==> s@ =~= word_mandatory());
    r
}

/// The bytes of `24`.
pub open spec fn word_twenty_four() -> Seq<u8> {
    seq![0x32u8, 0x34u8]
}

/// Whether `s` is `24`.
pub fn is_twenty_four(s: &[u8]) -> (r: bool)
    ensures
        r == (s@ == word_twenty_four()),
{
    let r = s.len() == 2 && s[0] == 0x32 && s[1] == 0x34;
    assert(r ==> s@ =~= word_twenty_four());
    r
}

/// The bytes of `12`.
pub open spec fn word_twelve() -> Seq<u8> {
    seq![0x31u8, 0x32u8]
}

/// Whether `s` is `12`.
pub fn is_twelve(s: &[u8]) -> (r: bool)
    ensures
        r == (s@ == word_twelve()),
{
    let r = s.len() == 2 && s[0] == 0x31 && s[1] == 0x32;
    assert(r ==> s@ =~= word_twelve());
    r
}

/// The bytes of `upper`.
pub open spec fn word_upper() -> Seq<u8> {
    seq![0x75u8, 0x70u8, 0x70u8, 0x65u8, 0x72u8]
}

/// Whether `s` is `upper`.
pub fn is_upper(s: &[u8]) -> (r: bool)
    ensures
        r == (s@ == word_upper()),
{
    let r = s.len() == 5 && s[0] == 0x75 && s[1] == 0x70 && s[2] == 0x70 && s[3] == 0x65 && s[4] == 0x72;
    assert(r ==> s@ =~= word_upper());
    r
}

/// The bytes of `lower`.
pub open spec fn word_lower() -> Seq<u8> {
    seq![0x6Cu8, 0x6Fu8, 0x77u8, 0x65u8, 0x72u8]
}

/// Whether `s` is `lower`.
pub fn is_lower(s: &[u8]) -> (r: bool)
    ensures
        r == (s@ == word_lower()),
{
    let r = s.len() == 5 && s[0] == 0x6C && s[1] == 0x6F && s[2] == 0x77 && s[3] == 0x65 && s[4] == 0x72;
    assert(r ==> s@ =~= word_lower());
    r
}

/// The bytes of `1`.
pub open spec fn word_one() -> Seq<u8> {
    seq![0x31u8]
}

/// Whether `s` is `1`.
pub fn is_one(s: &[u8]) -> (r: bool)
    ensures
        r == (s@ == word_one()),
{
    let r = s.len() == 1 && s[0] == 0x31;
    assert(r ==> s@ =~= word_one());
    r
}

/// The bytes of `2`.
pub open spec fn word_two() -> Seq<u8> {
    seq![0x32u8]
}

/// Whether `s` is `2`.
pub fn is_two(s: &[u8]) -> (r: bool)
    ensures
        r == (s@ == word_two()),
{
    let r = s.len() == 1 && s[0] == 0x32;
    assert(r ==> s@ =~= word_two());
    r
}

/// The bytes of `3`.
pub open spec fn word_three() -> Seq<u8> {
    seq![0x33u8]
}

/// Whether `s` is `3`.
pub fn is_three(s: &[u8]) -> (r: bool)
    ensures
        r == (s@ == word_three()),
{
    let r = s.len() == 1 && s[0] == 0x33;
    assert(r ==> s@ =~= word_three());
    r
}

/// The bytes of `4`.
pub open spec fn word_four() -> Seq<u8> {
    seq![0x34u8]
}

/// Whether `s` is `4`.
pub fn is_four(s: &[u8]) -> (r: bool)
    ensures
        r == (s@ == word_four()),
{
    let r = s.len() == 1 && s[0] == 0x34;
    assert(r ==> s@ =~= word_four());
    r
}

/// The bytes of `5`.
pub open spec fn word_five() -> Seq<u8> {
    seq![0x35u8]
}

/// Whether `s` is `5`.
pub fn is_five(s: &[u8]) -> (r: bool)
    ensures
        r == (s@ == word_five()),
{
    let r = s.len() == 1 && s[0] == 0x35;
    assert(r ==> s@ =~= word_five());
    r
}

/// The bytes of `6`.
pub open spec fn word_six() -> Seq<u8> {
    seq![0x36u8]
}

/// Whether `s` is `6`.
pub fn is_six(s: &[u8]) -> (r: bool)
    ensures
        r == (s@ == word_six()),
{
    let r = s.len() == 1 && s[0] == 0x36;
    assert(r ==> s@ =~= word_six());
    r
}

/// The bytes of `7`.
pub open spec fn word_seven() -> Seq<u8> {
    seq![0x37u8]
}

/// Whether `s` is `7`.
pub fn is_seven(s: &[u8]) -> (r: bool)
    ensures
        r == (s@ == word_seven()),
{
    let r = s.len() == 1 && s[0] == 0x37;
    assert(r ==> s@ =~= word_seven());
    r
}

/// The bytes of `8`.
pub open spec fn word_eight() -> Seq<u8> {
    seq![0x38u8]
}

/// Whether `s` is `8`.
pub fn is_eight(s: &[u8]) -> (r: bool)
    ensures
        r == (s@ == word_eight()),
{
    let r = s.len() == 1 && s[0] == 0x38;
    assert(r ==> s@ =~= word_eight());
    r
}

/// The bytes of `9`.
pub open spec fn word_nine() -> Seq<u8> {
    seq![0x39u8]
}

/// Whether `s` is `9`.
pub fn is_nine(s: &[u8]) -> (r: bool)
    ensures
        r == (s@ == word_nine()),
{
    let r = s.len() == 1 && s[0] == 0x39;
    assert(r ==> s@ =~= word_nine());
    r
}

/// The bytes of `1+`.
pub open spec fn word_one_or_more() -> Seq<u8> {
    seq![0x31u8, 0x2Bu8]
}

/// Whether `s` is `1+`.
pub fn is_one_or_more(s: &[u8]) -> (r: bool)
    ensures
        r == (s@ == word_one_or_more()),
{
    let r = s.len() == 2 && s[0] == 0x31 && s[1] == 0x2B;
    assert(r ==> s@ =~= word_one_or_more());
    r
}

/// The bytes of `millisecond`.
pub open spec fn word_millisecond() -> Seq<u8> {
    seq![0x6Du8, 0x69u8, 0x6Cu8, 0x6Cu8, 0x69u8, 0x73u8, 0x65u8, 0x63u8, 0x6Fu8, 0x6Eu8, 0x64u8]
}

/// Whether `s` is `millisecond`.
pub fn is_millisecond(s: &[u8]) -> (r: bool)
    ensures
        r == (s@ == word_millisecond()),
{
    let r = s.len() == 11 && s[0] == 0x6D && s[1] == 0x69 && s[2] == 0x6C && s[3] == 0x6C && s[4] == 0x69 && s[5] == 0x73 && s[6] == 0x65 && s[7] == 0x63 && s[8] == 0x6F && s[9] == 0x6E && s[10] == 0x64;
    assert(r ==> s@ =~= word_millisecond());
    r
}

/// The bytes of `microsecond`.
pub open spec fn word_microsecond() -> Seq<u8> {
    seq![0x6Du8, 0x69u8, 0x63u8, 0x72u8, 0x6Fu8, 0x73u8, 0x65u8, 0x63u8, 0x6Fu8, 0x6Eu8, 0x64u8]
}

/// Whether `s` is `microsecond`.
pub fn is_microsecond(s: &[u8]) -> (r: bool)
    ensures
        r == (s@ == word_microsecond()),
{
    let r = s.len() == 11 && s[0] == 0x6D && s[1] == 0x69 && s[2] == 0x63 && s[3] == 0x72 && s[4] == 0x6F && s[5] == 0x73 && s[6] == 0x65 && s[7] == 0x63 && s[8] == 0x6F && s[9] == 0x6E && s[10] == 0x64;
    assert(r ==> s@ =~= word_microsecond());
    r
}

/// The bytes of `nanosecond`.
pub open spec fn word_nanosecond() -> Seq<u8> {
    seq![0x6Eu8, 0x61u8, 0x6Eu8, 0x6Fu8, 0x73u8, 0x65u8, 0x63u8, 0x6Fu8, 0x6Eu8, 0x64u8]
}

/// Whether `s` is `nanosecond`.
pub fn is_nanosecond(s: &[u8]) -> (r: bool)
    ensures
        r == (s@ == word_nanosecond()),
{
    let r = s.len() == 10 && s[0] == 0x6E && s[1] == 0x61 && s[2] == 0x6E && s[3] == 0x6F && s[4] == 0x73 && s[5] == 0x65 && s[6] == 0x63 && s[7] == 0x6F && s[8] == 0x6E && s[9] == 0x64;
    assert(r ==> s@ =~= word_nanosecond());
    r
}

} // verus!
