//! The built-in leaf binders: booleans, integers and text.

use vstd::prelude::*;
use vstd::utf8::{decode_utf8, encode_utf8, valid_utf8};
use crate::capped::{kept, read_capped, Capped, N};
use crate::error::{bare, ConversionCause, ErrorKind, ErrorView, Errors, KindView};
use crate::field::{DataField, ValueField};
use crate::from_form_field::{
    conversion, conversion_spec, outcome_view, unexpected, unexpected_spec, FromFormField,
};
use crate::text::{eq_ignore_case, same_text_ignore_case};

verus! {

/// Whether `c` is an ASCII decimal digit.
pub open spec fn is_digit(c: char) -> bool {
    '0' <= c && c <= '9'
}

pub open spec fn digit_of(c: char) -> int {
    (c as u32) as int - 48
}

/// Whether every character of `d` is a decimal digit.
pub open spec fn all_digits(d: Seq<char>) -> bool {
    forall|i: int| 0 <= i < d.len() ==> is_digit(#[trigger] d[i])
}

/// The number that the digits `d` spell, most significant first.
pub open spec fn digits_value(d: Seq<char>) -> int
    decreases d.len(),
{
    if d.len() == 0 {
        0
    } else {
        10 * digits_value(d.drop_last()) + digit_of(d.last())
    }
}

/// The number that `d` spells if it is one or more digits.
pub open spec fn unsigned_value(d: Seq<char>) -> Option<int> {
    if d.len() > 0 && all_digits(d) {
        Some(digits_value(d))
    } else {
        None
    }
}

/// The integer that `s` spells in decimal: an optional `+` (or, where
/// `signed`, `-`) and then one or more digits.
pub open spec fn decimal_value(s: Seq<char>, signed: bool) -> Option<int> {
    if s.len() > 0 && s[0] == '+' {
        unsigned_value(s.skip(1))
    } else if signed && s.len() > 0 && s[0] == '-' {
        match unsigned_value(s.skip(1)) {
            Some(v) => Some(-v),
            None => None,
        }
    } else {
        unsigned_value(s)
    }
}

/// The integer that `s` spells, if it lies in `min..=max`.
pub open spec fn integer_in(s: Seq<char>, signed: bool, min: int, max: int) -> Option<int> {
    match decimal_value(s, signed) {
        Some(v) => if min <= v && v <= max {
            Some(v)
        } else {
            None
        },
        None => None,
    }
}

/// `u` negated where `negative`.
pub open spec fn with_sign(u: Option<int>, negative: bool) -> Option<int> {
    match u {
        Some(v) => Some(if negative { -v } else { v }),
        None => None,
    }
}

/// Beyond this magnitude no integer type here has a value.
pub const MAGNITUDE_CAP: u128 = 18446744073709551616;

proof fn lemma_digits_prefix(d: Seq<char>, k: int)
    requires
        all_digits(d),
        0 <= k <= d.len(),
    ensures
        0 <= digits_value(d.take(k)) <= digits_value(d),
    decreases d.len(),
{
    if k < d.len() {
        let rest = d.drop_last();
        assert(rest.take(k) =~= d.take(k));
        assert(all_digits(rest)) by {
            assert forall|i: int| 0 <= i < rest.len() implies is_digit(#[trigger] rest[i]) by {
                assert(rest[i] == d[i]);
            }
        }
        lemma_digits_prefix(rest, k);
        assert(is_digit(d[d.len() - 1]));
    } else {
        assert(d.take(k) =~= d);
        lemma_digits_nonneg(d);
    }
}

proof fn lemma_digits_nonneg(d: Seq<char>)
    requires
        all_digits(d),
    ensures
        0 <= digits_value(d),
    decreases d.len(),
{
    if d.len() > 0 {
        let rest = d.drop_last();
        assert(all_digits(rest)) by {
            assert forall|i: int| 0 <= i < rest.len() implies is_digit(#[trigger] rest[i]) by {
                assert(rest[i] == d[i]);
            }
        }
        lemma_digits_nonneg(rest);
        assert(is_digit(d[d.len() - 1]));
    }
}

/// Parses `s` as a decimal integer within `min..=max`.
pub fn parse_integer(s: &str, signed: bool, min: i128, max: i128) -> (r: Option<i128>)
    requires
        -(MAGNITUDE_CAP as int) <= min,
        max as int <= MAGNITUDE_CAP as int,
    ensures
        match r {
            Some(x) => integer_in(s@, signed, min as int, max as int) == Some(x as int),
            None => integer_in(s@, signed, min as int, max as int) is None,
        },
{
    let n = s.unicode_len();
    let mut start: usize = 0;
    let mut negative = false;
    if n > 0 {
        let c = s.get_char(0);
        if c == '+' {
            start = 1;
        } else if signed && c == '-' {
            start = 1;
            negative = true;
        }
    }
    let ghost digits = s@.subrange(start as int, n as int);
    proof {
        if start == 1 {
            assert(s@.skip(1) =~= digits);
        } else {
            assert(s@ =~= digits);
        }
        assert(decimal_value(s@, signed) == with_sign(unsigned_value(digits), negative));
    }
    if start >= n {
        return None;
    }
    let mut acc: u128 = 0;
    let mut i: usize = start;
    while i < n
        invariant
            start < n,
            start <= i <= n,
            n == s@.len(),
            digits == s@.subrange(start as int, n as int),
            acc as int == digits_value(digits.take(i - start)),
            all_digits(digits.take(i - start)),
            acc <= MAGNITUDE_CAP,
            decimal_value(s@, signed) == with_sign(unsigned_value(digits), negative),
            -(MAGNITUDE_CAP as int) <= min,
            max as int <= MAGNITUDE_CAP as int,
        decreases n - i,
    {
        let c = s.get_char(i);
        if !('0' <= c && c <= '9') {
            proof {
                assert(digits[i - start] == c);
                assert(!all_digits(digits));
                assert(unsigned_value(digits) is None);
                assert(decimal_value(s@, signed) is None);
            }
            return None;
        }
        let d = (c as u32 - 48) as u128;
        acc = acc * 10 + d;
        proof {
            let before = digits.take(i - start);
            let after = digits.take(i - start + 1);
            assert(after.drop_last() =~= before);
            assert(after.last() == c);
            assert(digits_value(after) == 10 * digits_value(before) + digit_of(c));
            assert(acc as int == digits_value(after));
            assert(all_digits(after)) by {
                assert forall|j: int| 0 <= j < after.len() implies is_digit(#[trigger] after[j]) by {
                    if j < before.len() {
                        assert(after[j] == before[j]);
                    }
                }
            }
        }
        i = i + 1;
        if acc > MAGNITUDE_CAP {
            proof {
                if all_digits(digits) {
                    lemma_digits_prefix(digits, i - start);
                    assert(digits_value(digits) > MAGNITUDE_CAP);
                    assert(unsigned_value(digits) == Some(digits_value(digits)));
                    let v = if negative { -digits_value(digits) } else { digits_value(digits) };
                    assert(decimal_value(s@, signed) == Some(v));
                    assert(!(min as int <= v && v <= max as int));
                } else {
                    assert(unsigned_value(digits) is None);
                }
            }
            return None;
        }
    }
    proof {
        assert(digits.take(n - start) =~= digits);
    }
    let v: i128 = if negative {
        -(acc as i128)
    } else {
        acc as i128
    };
    if min <= v && v <= max {
        Some(v)
    } else {
        None
    }
}

/// What a boolean binds to: `on`, `yes` and `true` are true, `off`, `no`
/// and `false` are false, in any ASCII letter case; other text does not
/// convert.
pub open spec fn bool_spec(v: Seq<char>) -> Result<bool, Seq<ErrorView>> {
    if eq_ignore_case(v, "on"@) || eq_ignore_case(v, "yes"@) || eq_ignore_case(v, "true"@) {
        Ok(true)
    } else if eq_ignore_case(v, "off"@) || eq_ignore_case(v, "no"@) || eq_ignore_case(v, "false"@) {
        Ok(false)
    } else {
        conversion_spec(ConversionCause::Boolean)
    }
}

impl FromFormField for bool {
    open spec fn from_value_spec(field: ValueField) -> Result<bool, Seq<ErrorView>> {
        bool_spec(field.value@)
    }

    open spec fn from_data_spec(field: DataField, r: Result<bool, Seq<ErrorView>>) -> bool {
        r == unexpected_spec::<bool>()
    }

    /// An absent checkbox is unchecked.
    open spec fn default_spec() -> Option<bool> {
        Some(false)
    }

    fn from_value(field: &ValueField) -> (r: Result<bool, Errors>) {
        let v = field.value.as_str();
        if same_text_ignore_case(v, "on") || same_text_ignore_case(v, "yes")
            || same_text_ignore_case(v, "true") {
            Ok(true)
        } else if same_text_ignore_case(v, "off") || same_text_ignore_case(v, "no")
            || same_text_ignore_case(v, "false") {
            Ok(false)
        } else {
            conversion(ConversionCause::Boolean)
        }
    }

    fn from_data(field: &DataField) -> (r: Result<bool, Errors>) {
        unexpected()
    }

    fn default() -> (r: Option<bool>) {
        Some(false)
    }
}

impl FromFormField for u8 {
    open spec fn from_value_spec(field: ValueField) -> Result<u8, Seq<ErrorView>> {
        match integer_in(field.value@, false, u8::MIN as int, u8::MAX as int) {
            Some(v) => Ok(v as u8),
            None => conversion_spec(ConversionCause::Integer),
        }
    }

    open spec fn from_data_spec(field: DataField, r: Result<u8, Seq<ErrorView>>) -> bool {
        r == unexpected_spec::<u8>()
    }

    open spec fn default_spec() -> Option<u8> {
        None
    }

    fn from_value(field: &ValueField) -> (r: Result<u8, Errors>) {
        match parse_integer(field.value.as_str(), false, u8::MIN as i128, u8::MAX as i128) {
            Some(v) => Ok(v as u8),
            None => conversion(ConversionCause::Integer),
        }
    }

    fn from_data(field: &DataField) -> (r: Result<u8, Errors>) {
        unexpected()
    }

    fn default() -> (r: Option<u8>) {
        None
    }
}

impl FromFormField for u16 {
    open spec fn from_value_spec(field: ValueField) -> Result<u16, Seq<ErrorView>> {
        match integer_in(field.value@, false, u16::MIN as int, u16::MAX as int) {
            Some(v) => Ok(v as u16),
            None => conversion_spec(ConversionCause::Integer),
        }
    }

    open spec fn from_data_spec(field: DataField, r: Result<u16, Seq<ErrorView>>) -> bool {
        r == unexpected_spec::<u16>()
    }

    open spec fn default_spec() -> Option<u16> {
        None
    }

    fn from_value(field: &ValueField) -> (r: Result<u16, Errors>) {
        match parse_integer(field.value.as_str(), false, u16::MIN as i128, u16::MAX as i128) {
            Some(v) => Ok(v as u16),
            None => conversion(ConversionCause::Integer),
        }
    }

    fn from_data(field: &DataField) -> (r: Result<u16, Errors>) {
        unexpected()
    }

    fn default() -> (r: Option<u16>) {
        None
    }
}

impl FromFormField for u32 {
    open spec fn from_value_spec(field: ValueField) -> Result<u32, Seq<ErrorView>> {
        match integer_in(field.value@, false, u32::MIN as int, u32::MAX as int) {
            Some(v) => Ok(v as u32),
            None => conversion_spec(ConversionCause::Integer),
        }
    }

    open spec fn from_data_spec(field: DataField, r: Result<u32, Seq<ErrorView>>) -> bool {
        r == unexpected_spec::<u32>()
    }

    open spec fn default_spec() -> Option<u32> {
        None
    }

    fn from_value(field: &ValueField) -> (r: Result<u32, Errors>) {
        match parse_integer(field.value.as_str(), false, u32::MIN as i128, u32::MAX as i128) {
            Some(v) => Ok(v as u32),
            None => conversion(ConversionCause::Integer),
        }
    }

    fn from_data(field: &DataField) -> (r: Result<u32, Errors>) {
        unexpected()
    }

    fn default() -> (r: Option<u32>) {
        None
    }
}

impl FromFormField for u64 {
    open spec fn from_value_spec(field: ValueField) -> Result<u64, Seq<ErrorView>> {
        match integer_in(field.value@, false, u64::MIN as int, u64::MAX as int) {
            Some(v) => Ok(v as u64),
            None => conversion_spec(ConversionCause::Integer),
        }
    }

    open spec fn from_data_spec(field: DataField, r: Result<u64, Seq<ErrorView>>) -> bool {
        r == unexpected_spec::<u64>()
    }

    open spec fn default_spec() -> Option<u64> {
        None
    }

    fn from_value(field: &ValueField) -> (r: Result<u64, Errors>) {
        match parse_integer(field.value.as_str(), false, u64::MIN as i128, u64::MAX as i128) {
            Some(v) => Ok(v as u64),
            None => conversion(ConversionCause::Integer),
        }
    }

    fn from_data(field: &DataField) -> (r: Result<u64, Errors>) {
        unexpected()
    }

    fn default() -> (r: Option<u64>) {
        None
    }
}

impl FromFormField for i32 {
    open spec fn from_value_spec(field: ValueField) -> Result<i32, Seq<ErrorView>> {
        match integer_in(field.value@, true, i32::MIN as int, i32::MAX as int) {
            Some(v) => Ok(v as i32),
            None => conversion_spec(ConversionCause::Integer),
        }
    }

    open spec fn from_data_spec(field: DataField, r: Result<i32, Seq<ErrorView>>) -> bool {
        r == unexpected_spec::<i32>()
    }

    open spec fn default_spec() -> Option<i32> {
        None
    }

    fn from_value(field: &ValueField) -> (r: Result<i32, Errors>) {
        match parse_integer(field.value.as_str(), true, i32::MIN as i128, i32::MAX as i128) {
            Some(v) => Ok(v as i32),
            None => conversion(ConversionCause::Integer),
        }
    }

    fn from_data(field: &DataField) -> (r: Result<i32, Errors>) {
        unexpected()
    }

    fn default() -> (r: Option<i32>) {
        None
    }
}

impl FromFormField for i64 {
    open spec fn from_value_spec(field: ValueField) -> Result<i64, Seq<ErrorView>> {
        match integer_in(field.value@, true, i64::MIN as int, i64::MAX as int) {
            Some(v) => Ok(v as i64),
            None => conversion_spec(ConversionCause::Integer),
        }
    }

    open spec fn from_data_spec(field: DataField, r: Result<i64, Seq<ErrorView>>) -> bool {
        r == unexpected_spec::<i64>()
    }

    open spec fn default_spec() -> Option<i64> {
        None
    }

    fn from_value(field: &ValueField) -> (r: Result<i64, Errors>) {
        match parse_integer(field.value.as_str(), true, i64::MIN as i128, i64::MAX as i128) {
            Some(v) => Ok(v as i64),
            None => conversion(ConversionCause::Integer),
        }
    }

    fn from_data(field: &DataField) -> (r: Result<i64, Errors>) {
        unexpected()
    }

    fn default() -> (r: Option<i64>) {
        None
    }
}

impl FromFormField for i8 {
    open spec fn from_value_spec(field: ValueField) -> Result<i8, Seq<ErrorView>> {
        match integer_in(field.value@, true, i8::MIN as int, i8::MAX as int) {
            Some(v) => Ok(v as i8),
            None => conversion_spec(ConversionCause::Integer),
        }
    }

    open spec fn from_data_spec(field: DataField, r: Result<i8, Seq<ErrorView>>) -> bool {
        r == unexpected_spec::<i8>()
    }

    open spec fn default_spec() -> Option<i8> {
        None
    }

    fn from_value(field: &ValueField) -> (r: Result<i8, Errors>) {
        match parse_integer(field.value.as_str(), true, i8::MIN as i128, i8::MAX as i128) {
            Some(v) => Ok(v as i8),
            None => conversion(ConversionCause::Integer),
        }
    }

    fn from_data(field: &DataField) -> (r: Result<i8, Errors>) {
        unexpected()
    }

    fn default() -> (r: Option<i8>) {
        None
    }
}

impl FromFormField for i16 {
    open spec fn from_value_spec(field: ValueField) -> Result<i16, Seq<ErrorView>> {
        match integer_in(field.value@, true, i16::MIN as int, i16::MAX as int) {
            Some(v) => Ok(v as i16),
            None => conversion_spec(ConversionCause::Integer),
        }
    }

    open spec fn from_data_spec(field: DataField, r: Result<i16, Seq<ErrorView>>) -> bool {
        r == unexpected_spec::<i16>()
    }

    open spec fn default_spec() -> Option<i16> {
        None
    }

    fn from_value(field: &ValueField) -> (r: Result<i16, Errors>) {
        match parse_integer(field.value.as_str(), true, i16::MIN as i128, i16::MAX as i128) {
            Some(v) => Ok(v as i16),
            None => conversion(ConversionCause::Integer),
        }
    }

    fn from_data(field: &DataField) -> (r: Result<i16, Errors>) {
        unexpected()
    }

    fn default() -> (r: Option<i16>) {
        None
    }
}

impl FromFormField for usize {
    open spec fn from_value_spec(field: ValueField) -> Result<usize, Seq<ErrorView>> {
        match integer_in(field.value@, false, usize::MIN as int, usize::MAX as int) {
            Some(v) => Ok(v as usize),
            None => conversion_spec(ConversionCause::Integer),
        }
    }

    open spec fn from_data_spec(field: DataField, r: Result<usize, Seq<ErrorView>>) -> bool {
        r == unexpected_spec::<usize>()
    }

    open spec fn default_spec() -> Option<usize> {
        None
    }

    fn from_value(field: &ValueField) -> (r: Result<usize, Errors>) {
        match parse_integer(field.value.as_str(), false, usize::MIN as i128, usize::MAX as i128) {
            Some(v) => Ok(v as usize),
            None => conversion(ConversionCause::Integer),
        }
    }

    fn from_data(field: &DataField) -> (r: Result<usize, Errors>) {
        unexpected()
    }

    fn default() -> (r: Option<usize>) {
        None
    }
}

impl FromFormField for isize {
    open spec fn from_value_spec(field: ValueField) -> Result<isize, Seq<ErrorView>> {
        match integer_in(field.value@, true, isize::MIN as int, isize::MAX as int) {
            Some(v) => Ok(v as isize),
            None => conversion_spec(ConversionCause::Integer),
        }
    }

    open spec fn from_data_spec(field: DataField, r: Result<isize, Seq<ErrorView>>) -> bool {
        r == unexpected_spec::<isize>()
    }

    open spec fn default_spec() -> Option<isize> {
        None
    }

    fn from_value(field: &ValueField) -> (r: Result<isize, Errors>) {
        match parse_integer(field.value.as_str(), true, isize::MIN as i128, isize::MAX as i128) {
            Some(v) => Ok(v as isize),
            None => conversion(ConversionCause::Integer),
        }
    }

    fn from_data(field: &DataField) -> (r: Result<isize, Errors>) {
        unexpected()
    }

    fn default() -> (r: Option<isize>) {
        None
    }
}

/// The number of bytes that the text `v` takes in UTF-8.
pub open spec fn byte_len(v: Seq<char>) -> u64 {
    (encode_utf8(v).len() as usize) as u64
}

/// Relies on `String::from_utf8`: it accepts exactly the byte strings that
/// are valid UTF-8, and the text it returns is what they encode.
#[verifier::external_body]
fn utf8_text(bytes: Vec<u8>) -> (r: Option<String>)
    ensures
        r is Some <==> valid_utf8(bytes@),
        r matches Some(s) ==> s@ == decode_utf8(bytes@),
{
    String::from_utf8(bytes).ok()
}

/// The bytes of a data field that are kept as text.
pub open spec fn text_bytes(field: DataField) -> Seq<u8> {
    field.data@.take(kept(field.data@.len(), field.limits.string_limit_spec()) as int)
}

/// The length of the longest prefix of `b` that is valid UTF-8 and drops
/// at most three bytes more than `drop`: a cut in the middle of a character
/// loses that character.
pub open spec fn whole_chars(b: Seq<u8>, drop: int) -> Option<int>
    decreases 4 - drop,
{
    if drop < 0 || drop > 3 || drop > b.len() {
        None
    } else if valid_utf8(b.take(b.len() - drop)) {
        Some(b.len() - drop)
    } else {
        whole_chars(b, drop + 1)
    }
}

/// How many of the kept bytes of a data field are taken as text: all of
/// them if the data fitted and is UTF-8; up to the last whole character if
/// the data was cut off.
pub open spec fn text_len(field: DataField) -> Option<int> {
    let b = text_bytes(field);
    if field.data@.len() <= field.limits.string_limit_spec() {
        if valid_utf8(b) {
            Some(b.len() as int)
        } else {
            None
        }
    } else {
        whole_chars(b, 0)
    }
}

/// Whether `r` is what reading the data field `field` as text yields: its
/// bytes up to the `string` limit, back to the last whole character where
/// the data was cut off, decoded as UTF-8, marked incomplete when the data
/// ran past the limit.
pub open spec fn capped_text_spec(field: DataField, r: Result<Capped<String>, Seq<ErrorView>>) -> bool {
    match text_len(field) {
        Some(j) => {
            &&& r is Ok
            &&& r->Ok_0.value@ == decode_utf8(text_bytes(field).take(j))
            &&& r->Ok_0.n == N {
                written: j as u64,
                complete: field.data@.len() <= field.limits.string_limit_spec(),
            }
        },
        None => r == conversion_spec::<Capped<String>>(ConversionCause::Utf8),
    }
}

fn prefix(bytes: &Vec<u8>, k: usize) -> (r: Vec<u8>)
    requires
        k <= bytes@.len(),
    ensures
        r@ == bytes@.take(k as int),
{
    let mut r: Vec<u8> = Vec::new();
    let mut i: usize = 0;
    while i < k
        invariant
            k <= bytes@.len(),
            i <= k,
            r@ == bytes@.take(i as int),
        decreases k - i,
    {
        r.push(bytes[i]);
        i = i + 1;
        assert(r@ =~= bytes@.take(i as int));
    }
    r
}

impl FromFormField for Capped<String> {
    open spec fn from_value_spec(field: ValueField) -> Result<Capped<String>, Seq<ErrorView>> {
        Ok(Capped { value: field.value, n: N { written: byte_len(field.value@), complete: true } })
    }

    open spec fn from_data_spec(field: DataField, r: Result<Capped<String>, Seq<ErrorView>>) -> bool {
        capped_text_spec(field, r)
    }

    open spec fn default_spec() -> Option<Capped<String>> {
        None
    }

    fn from_value(field: &ValueField) -> (r: Result<Capped<String>, Errors>) {
        let written = field.value.as_str().len() as u64;
        Ok(Capped::new(field.value.clone(), N { written, complete: true }))
    }

    fn from_data(field: &DataField) -> (r: Result<Capped<String>, Errors>) {
        let limit = field.limits.string_limit();
        let capped = read_capped(&field.data, limit);
        let n = capped.n;
        let bytes = capped.value;
        let ghost b = bytes@;
        assert(b =~= text_bytes(*field));
        if n.complete {
            assert(b.take(b.len() as int) =~= b);
            return match utf8_text(bytes) {
                Some(text) => {
                    let r: Result<Capped<String>, Errors> = Ok(Capped::new(text, n));
                    assert(<Capped<String> as FromFormField>::from_data_spec(*field, outcome_view(r)));
                    r
                },
                None => conversion(ConversionCause::Utf8),
            };
        }
        let len = bytes.len();
        let mut drop: usize = 0;
        while drop <= 3 && drop <= len
            invariant
                bytes@ == b,
                b == text_bytes(*field),
                len == b.len(),
                field.data@.len() > field.limits.string_limit_spec(),
                whole_chars(b, 0) == whole_chars(b, drop as int),
            decreases 4 - drop,
        {
            let part = prefix(&bytes, len - drop);
            match utf8_text(part) {
                Some(text) => {
                    let written = (len - drop) as u64;
                    let r: Result<Capped<String>, Errors> = Ok(Capped::new(text, N { written, complete: false }));
                    assert(<Capped<String> as FromFormField>::from_data_spec(*field, outcome_view(r)));
                    return r;
                },
                None => {},
            }
            drop = drop + 1;
        }
        conversion(ConversionCause::Utf8)
    }

    fn default() -> (r: Option<Capped<String>>) {
        None
    }
}

impl FromFormField for String {
    open spec fn from_value_spec(field: ValueField) -> Result<String, Seq<ErrorView>> {
        Ok(field.value)
    }

    /// Text read from data must fit its limit: data that ran past it is
    /// `Truncated` at the limit.
    open spec fn from_data_spec(field: DataField, r: Result<String, Seq<ErrorView>>) -> bool {
        let limit = field.limits.string_limit_spec();
        if field.data@.len() > limit {
            r == Err::<String, Seq<ErrorView>>(seq![bare(KindView::Truncated(limit))])
        } else if valid_utf8(field.data@) {
            r is Ok && r->Ok_0@ == decode_utf8(field.data@)
        } else {
            r == conversion_spec::<String>(ConversionCause::Utf8)
        }
    }

    open spec fn default_spec() -> Option<String> {
        None
    }

    fn from_value(field: &ValueField) -> (r: Result<String, Errors>) {
        Ok(field.value.clone())
    }

    fn from_data(field: &DataField) -> (r: Result<String, Errors>) {
        let limit = field.limits.string_limit();
        if field.data.len() as u64 > limit {
            return Err(Errors::from_kind(ErrorKind::Truncated(limit)));
        }
        let whole = prefix(&field.data, field.data.len());
        assert(whole@ =~= field.data@);
        match utf8_text(whole) {
            Some(text) => Ok(text),
            None => conversion(ConversionCause::Utf8),
        }
    }

    fn default() -> (r: Option<String>) {
        None
    }
}

/// Text streamed past its limit binds, cut off at exactly the limit and
/// marked incomplete, rather than fail, wherever the bytes kept are UTF-8.
pub proof fn lemma_text_truncation_is_not_failure(field: DataField, r: Result<Capped<String>, Seq<ErrorView>>)
    requires
        capped_text_spec(field, r),
        field.data@.len() > field.limits.string_limit_spec(),
        valid_utf8(field.data@.take(field.limits.string_limit_spec() as int)),
    ensures
        r is Ok,
        r->Ok_0.n == (N { written: field.limits.string_limit_spec(), complete: false }),
        r->Ok_0.value@ == decode_utf8(field.data@.take(field.limits.string_limit_spec() as int)),
{
    let b = text_bytes(field);
    assert(b.take(b.len() as int) =~= b);
    assert(b =~= field.data@.take(field.limits.string_limit_spec() as int));
}

} // verus!
