use rocket_form::capped::Capped;
use rocket_form::datetime::{Date, DateTime, Time};
use rocket_form::error::{ConversionCause, ErrorKind, Errors};
use rocket_form::field::{ContentType, DataField, Limits, Options, ValueField};
use rocket_form::form::{check_schema, FieldDecl, FormCheck, FormContext, Validator};
use rocket_form::from_form_field::{FromFieldContext, FromFormField};
use rocket_form::name::NameView;
use rocket_form::value::{FieldKind, FormValue};

fn value(name: &str, text: &str) -> ValueField {
    ValueField { name: NameView::new(name.to_string()), value: text.to_string() }
}

fn data(name: &str, bytes: &[u8], limits: Limits) -> DataField {
    DataField {
        name: NameView::new(name.to_string()),
        content_type: ContentType { media_type: "text/plain".to_string(), extension: Some("txt".to_string()) },
        file_name: Some("notes".to_string()),
        data: bytes.to_vec(),
        limits,
    }
}

fn leaf_value(name: &str, text: &str) -> ValueField {
    ValueField { name: NameView::new(name.to_string()).shift(), value: text.to_string() }
}

fn leaf_data(name: &str, bytes: &[u8], limits: Limits) -> DataField {
    let mut d = data(name, bytes, limits);
    d.name = d.name.shift();
    d
}

fn decl(name: &str, kind: FieldKind) -> FieldDecl {
    FieldDecl { name: name.to_string(), kind, validator: None }
}

fn person() -> Vec<FieldDecl> {
    vec![decl("name", FieldKind::Text), decl("age", FieldKind::U16)]
}

fn strict() -> Options {
    Options { strict: true }
}

fn lenient() -> Options {
    Options { strict: false }
}

fn bind(schema: &Vec<FieldDecl>, opts: Options, events: &[(&str, &str)]) -> Result<Vec<FormValue>, Errors> {
    let mut ctx = FormContext::init(schema, opts);
    for (n, v) in events {
        ctx.push_value(schema, value(n, v));
    }
    ctx.finalize(schema, &vec![])
}

fn bind_one<T: FromFormField>(opts: Options, text: &str) -> Result<T, Errors> {
    let mut ctx = FromFieldContext::<T>::init(opts);
    ctx.push_value(&leaf_value("f", text));
    ctx.finalize()
}

#[test]
fn composite_binds_every_field() {
    let r = bind(&person(), strict(), &[("name", "Max"), ("age", "3")]).unwrap();
    assert_eq!(r.len(), 2);
    assert!(matches!(&r[0], FormValue::Text(s) if s == "Max"));
    assert!(matches!(&r[1], FormValue::U16(3)));
}

#[test]
fn composite_reports_conversion_and_missing() {
    let e = bind(&person(), strict(), &[("age", "three")]).unwrap_err();
    assert_eq!(e.list.len(), 2);
    let conv = e.list.iter().find(|x| matches!(x.kind, ErrorKind::Conversion(_))).unwrap();
    assert!(matches!(conv.kind, ErrorKind::Conversion(ConversionCause::Integer)));
    assert_eq!(conv.name.as_deref(), Some("age"));
    assert_eq!(conv.value.as_deref(), Some("three"));
    let missing = e.list.iter().find(|x| matches!(x.kind, ErrorKind::Missing)).unwrap();
    assert_eq!(missing.name.as_deref(), Some("name"));
}

#[test]
fn bool_tokens_bind_in_any_case() {
    assert_eq!(bind_one::<bool>(strict(), "YES").unwrap(), true);
    assert_eq!(bind_one::<bool>(strict(), "On").unwrap(), true);
    assert_eq!(bind_one::<bool>(strict(), "false").unwrap(), false);
    assert_eq!(bind_one::<bool>(strict(), "oFF").unwrap(), false);
    let e = bind_one::<bool>(strict(), "nope").unwrap_err();
    assert_eq!(e.list.len(), 1);
    assert!(matches!(e.list[0].kind, ErrorKind::Conversion(ConversionCause::Boolean)));
    assert_eq!(e.list[0].value.as_deref(), Some("nope"));
}

#[test]
fn absent_bool_defaults_to_false() {
    let ctx = FromFieldContext::<bool>::init(strict());
    assert_eq!(ctx.finalize().unwrap(), false);
    let r = bind(&vec![decl("agree", FieldKind::Bool)], strict(), &[]).unwrap();
    assert!(matches!(r[0], FormValue::Bool(false)));
}

#[test]
fn absent_required_field_is_missing() {
    let ctx = FromFieldContext::<u16>::init(strict());
    let e = ctx.finalize().unwrap_err();
    assert_eq!(e.list.len(), 1);
    assert!(matches!(e.list[0].kind, ErrorKind::Missing));
    assert!(e.list[0].name.is_none());
}

#[test]
fn strict_duplicate_is_reported() {
    let mut ctx = FromFieldContext::<u16>::init(strict());
    ctx.push_value(&leaf_value("n", "1"));
    ctx.push_value(&leaf_value("n", "2"));
    assert_eq!(ctx.pushes, 2);
    let e = ctx.finalize().unwrap_err();
    assert_eq!(e.list.len(), 1);
    assert!(matches!(e.list[0].kind, ErrorKind::Duplicate));
    assert_eq!(e.list[0].name.as_deref(), Some("n"));
    assert_eq!(e.list[0].value.as_deref(), Some("1"));
}

#[test]
fn lenient_duplicate_keeps_first() {
    let mut ctx = FromFieldContext::<u16>::init(lenient());
    ctx.push_value(&leaf_value("n", "1"));
    ctx.push_value(&leaf_value("n", "2"));
    assert_eq!(ctx.finalize().unwrap(), 1);
}

#[test]
fn lenient_drops_unexpected_then_takes_next() {
    let mut ctx = FromFieldContext::<u16>::init(lenient());
    ctx.push_data(&leaf_data("n", b"12", Limits::new()));
    assert!(ctx.value.is_none());
    ctx.push_value(&leaf_value("n", "12"));
    assert_eq!(ctx.finalize().unwrap(), 12);
}

#[test]
fn strict_keeps_unexpected() {
    let mut ctx = FromFieldContext::<u16>::init(strict());
    ctx.push_data(&leaf_data("n", b"12", Limits::new()));
    let e = ctx.finalize().unwrap_err();
    assert!(matches!(e.list[0].kind, ErrorKind::Unexpected));
}

#[test]
fn can_push_counts_every_attempt() {
    let mut ctx = FromFieldContext::<bool>::init(strict());
    assert!(ctx.can_push());
    assert_eq!(ctx.pushes, 1);
    ctx.push(NameView::new("b".to_string()), Ok(true));
    assert!(!ctx.can_push());
    assert_eq!(ctx.pushes, 2);
}

#[test]
fn push_records_first_outcome_by_policy() {
    let mut ctx = FromFieldContext::<bool>::init(lenient());
    ctx.push(NameView::new("b".to_string()), Err(Errors::from_kind(ErrorKind::Unexpected)));
    assert!(ctx.value.is_none());
    ctx.push(NameView::new("b".to_string()), Ok(true));
    assert!(matches!(ctx.value, Some(Ok(true))));
}

#[test]
fn lenient_ignores_unknown_field() {
    let r = bind(&person(), lenient(), &[("name", "Max"), ("colour", "red"), ("age", "3")]).unwrap();
    assert_eq!(r.len(), 2);
    assert!(matches!(&r[0], FormValue::Text(s) if s == "Max"));
    assert!(matches!(&r[1], FormValue::U16(3)));
}

#[test]
fn strict_rejects_unknown_field() {
    let e = bind(&person(), strict(), &[("name", "Max"), ("colour", "red"), ("age", "3")]).unwrap_err();
    assert_eq!(e.list.len(), 1);
    assert!(matches!(e.list[0].kind, ErrorKind::Unknown));
    assert_eq!(e.list[0].name.as_deref(), Some("colour"));
    assert_eq!(e.list[0].value.as_deref(), Some("red"));
}

#[test]
fn method_override_is_always_accepted() {
    let r = bind(&person(), strict(), &[("_method", "PUT"), ("name", "Max"), ("age", "3")]).unwrap();
    assert_eq!(r.len(), 2);
}

#[test]
fn nested_conversion_error_carries_full_path() {
    let schema = vec![decl("user.address.zip", FieldKind::U32), decl("user.name", FieldKind::Text)];
    let e = bind(&schema, strict(), &[("user.name", "Ann"), ("user.address.zip", "12a")]).unwrap_err();
    assert_eq!(e.list.len(), 1);
    assert!(matches!(e.list[0].kind, ErrorKind::Conversion(ConversionCause::Integer)));
    assert_eq!(e.list[0].name.as_deref(), Some("user.address.zip"));
    assert_eq!(e.list[0].value.as_deref(), Some("12a"));
}

#[test]
fn indexed_paths_match_declared_keys() {
    let schema = vec![decl("tags[0].value", FieldKind::Text)];
    let r = bind(&schema, strict(), &[("tags.0.value", "a")]).unwrap();
    assert!(matches!(&r[0], FormValue::Text(s) if s == "a"));
    let r = bind(&schema, strict(), &[("tags[0].value", "b")]).unwrap();
    assert!(matches!(&r[0], FormValue::Text(s) if s == "b"));
}

#[test]
fn nested_missing_field_is_located() {
    let schema = vec![decl("user.name", FieldKind::Text)];
    let e = bind(&schema, strict(), &[]).unwrap_err();
    assert!(matches!(e.list[0].kind, ErrorKind::Missing));
    assert_eq!(e.list[0].name.as_deref(), Some("user.name"));
}

#[test]
fn validators_run_after_binding() {
    let schema = vec![
        FieldDecl { name: "name".to_string(), kind: FieldKind::Text, validator: Some(Validator::Len { min: 2, max: 4 }) },
        FieldDecl { name: "age".to_string(), kind: FieldKind::U16, validator: Some(Validator::Range { low: 18, high: 130 }) },
    ];
    let e = bind(&schema, strict(), &[("name", "Maximilian"), ("age", "3")]).unwrap_err();
    assert_eq!(e.list.len(), 2);
    assert!(matches!(&e.list[0].kind, ErrorKind::Validation(m) if m == "length is out of range"));
    assert_eq!(e.list[0].name.as_deref(), Some("name"));
    assert!(matches!(&e.list[1].kind, ErrorKind::Validation(m) if m == "value is out of range"));
    assert_eq!(e.list[1].name.as_deref(), Some("age"));
    assert!(bind(&schema, strict(), &[("name", "Max"), ("age", "30")]).is_ok());
}

#[test]
fn validators_skip_failed_fields() {
    let schema = vec![FieldDecl {
        name: "age".to_string(),
        kind: FieldKind::U16,
        validator: Some(Validator::Range { low: 18, high: 130 }),
    }];
    let e = bind(&schema, strict(), &[("age", "x")]).unwrap_err();
    assert_eq!(e.list.len(), 1);
    assert!(matches!(e.list[0].kind, ErrorKind::Conversion(_)));
}

#[test]
fn integers_parse_in_range() {
    assert_eq!(bind_one::<u8>(strict(), "255").unwrap(), 255);
    assert!(bind_one::<u8>(strict(), "256").is_err());
    assert_eq!(bind_one::<u16>(strict(), "+42").unwrap(), 42);
    assert!(bind_one::<u16>(strict(), "-0").is_err());
    assert!(bind_one::<u16>(strict(), "").is_err());
    assert!(bind_one::<u16>(strict(), "+").is_err());
    assert_eq!(bind_one::<u32>(strict(), "0004294967295").unwrap(), 4294967295);
    assert_eq!(bind_one::<u64>(strict(), "18446744073709551615").unwrap(), u64::MAX);
    assert!(bind_one::<u64>(strict(), "18446744073709551616").is_err());
    assert!(bind_one::<u64>(strict(), "99999999999999999999999999").is_err());
    assert_eq!(bind_one::<i32>(strict(), "-2147483648").unwrap(), i32::MIN);
    assert!(bind_one::<i32>(strict(), "2147483648").is_err());
    assert_eq!(bind_one::<i64>(strict(), "-9223372036854775808").unwrap(), i64::MIN);
    assert!(bind_one::<i64>(strict(), "1 ").is_err());
    assert_eq!(bind_one::<i8>(strict(), "-128").unwrap(), -128);
    assert!(bind_one::<i8>(strict(), "128").is_err());
    assert_eq!(bind_one::<i16>(strict(), "-300").unwrap(), -300);
    assert_eq!(bind_one::<usize>(strict(), "7").unwrap(), 7);
    assert!(bind_one::<usize>(strict(), "-7").is_err());
    assert_eq!(bind_one::<isize>(strict(), "-7").unwrap(), -7);
}

#[test]
fn dates_and_times_parse_pinned_formats() {
    assert_eq!(bind_one::<Date>(strict(), "2020-01-02").unwrap(), Date { year: 2020, month: 1, day: 2 });
    assert!(bind_one::<Date>(strict(), "2020-02-30").is_err());
    assert!(bind_one::<Date>(strict(), "02/01/2020").is_err());
    assert_eq!(bind_one::<Time>(strict(), "12:30").unwrap(), Time { hour: 12, minute: 30, second: 0 });
    assert_eq!(bind_one::<Time>(strict(), "12:30:45").unwrap(), Time { hour: 12, minute: 30, second: 45 });
    assert!(matches!(
        bind_one::<Time>(strict(), "25:00").unwrap_err().list[0].kind,
        ErrorKind::Conversion(ConversionCause::Time)
    ));
    let dt = bind_one::<DateTime>(strict(), "2021-03-04T05:06").unwrap();
    assert_eq!(dt.date, Date { year: 2021, month: 3, day: 4 });
    assert_eq!(dt.time, Time { hour: 5, minute: 6, second: 0 });
    let dt = bind_one::<DateTime>(strict(), "2021-03-04T05:06:07").unwrap();
    assert_eq!(dt.time.second, 7);
    assert!(bind_one::<DateTime>(strict(), "2021-03-04 05:06").is_err());
}

#[test]
fn text_from_data_is_capped_not_failed() {
    let limits = Limits::new().limit("string", 4);
    let mut ctx = FromFieldContext::<Capped<String>>::init(strict());
    ctx.push_data(&leaf_data("t", b"abcdefgh", limits));
    let c = ctx.finalize().unwrap();
    assert_eq!(c.value, "abcd");
    assert_eq!(c.n.written, 4);
    assert!(!c.n.complete);
}

#[test]
fn text_from_data_within_limit_is_complete() {
    let limits = Limits::new().limit("string", 8);
    let mut ctx = FromFieldContext::<Capped<String>>::init(strict());
    ctx.push_data(&leaf_data("t", b"abcdefgh", limits));
    let c = ctx.finalize().unwrap();
    assert_eq!(c.value, "abcdefgh");
    assert!(c.n.complete);
}

#[test]
fn plain_text_from_overlong_data_is_truncated_error() {
    let limits = Limits::new().limit("string", 4);
    let mut ctx = FromFieldContext::<String>::init(strict());
    ctx.push_data(&leaf_data("t", b"abcdefgh", limits));
    let e = ctx.finalize().unwrap_err();
    assert!(matches!(e.list[0].kind, ErrorKind::Truncated(4)));
    assert_eq!(e.list[0].name.as_deref(), Some("t"));
}

#[test]
fn text_from_invalid_utf8_fails() {
    let mut ctx = FromFieldContext::<String>::init(strict());
    ctx.push_data(&leaf_data("t", &[0xff, 0xfe], Limits::new()));
    let e = ctx.finalize().unwrap_err();
    assert!(matches!(e.list[0].kind, ErrorKind::Conversion(ConversionCause::Utf8)));
}

#[test]
fn text_from_value_is_complete_byte_count() {
    let c = bind_one::<Capped<String>>(strict(), "héllo").unwrap();
    assert_eq!(c.value, "héllo");
    assert_eq!(c.n.written, 6);
    assert!(c.n.complete);
}

#[test]
fn errors_keep_deepest_location() {
    let mut e = Errors::from_kind(ErrorKind::Missing);
    e.set_name(&"a.b".to_string());
    e.set_name(&"a".to_string());
    e.set_value(&"x".to_string());
    e.set_value(&"y".to_string());
    assert_eq!(e.list[0].name.as_deref(), Some("a.b"));
    assert_eq!(e.list[0].value.as_deref(), Some("x"));
    let mut all = Errors::new();
    all.extend(e);
    all.extend(Errors::from_kind(ErrorKind::Unknown));
    assert_eq!(all.len(), 2);
    assert!(all.last_is_unexpected() == false);
}

#[test]
fn schemas_need_fields_with_distinct_paths() {
    assert!(check_schema(&person()));
    assert!(!check_schema(&vec![]));
    assert!(!check_schema(&vec![decl("a.b", FieldKind::Text), decl("c", FieldKind::Bool), decl("a.b", FieldKind::U8)]));
}

#[test]
fn strict_unknown_data_field_is_reported() {
    let schema = person();
    let mut ctx = FormContext::init(&schema, strict());
    ctx.push_data(&schema, data("photo", b"xyz", Limits::new()));
    ctx.push_value(&schema, value("name", "Max"));
    ctx.push_value(&schema, value("age", "3"));
    let e = ctx.finalize(&schema, &vec![]).unwrap_err();
    assert_eq!(e.list.len(), 1);
    assert!(matches!(e.list[0].kind, ErrorKind::Unknown));
    assert_eq!(e.list[0].name.as_deref(), Some("photo"));
    assert!(e.list[0].value.is_none());
}

#[test]
fn data_routes_to_declared_text_field() {
    let schema = vec![decl("bio", FieldKind::CappedText), decl("name", FieldKind::Text)];
    let mut ctx = FormContext::init(&schema, strict());
    ctx.push_data(&schema, data("bio", b"hello world", Limits::new().limit("string", 5)));
    ctx.push_data(&schema, data("name", b"Ann", Limits::new()));
    let r = ctx.finalize(&schema, &vec![]).unwrap();
    assert!(matches!(&r[0], FormValue::CappedText(c) if c.value == "hello" && !c.n.complete));
    assert!(matches!(&r[1], FormValue::Text(s) if s == "Ann"));
}

#[test]
fn strict_duplicate_after_failed_first_push() {
    let mut ctx = FromFieldContext::<u16>::init(strict());
    ctx.push_value(&leaf_value("n", "x"));
    ctx.push_value(&leaf_value("n", "2"));
    let e = ctx.finalize().unwrap_err();
    assert_eq!(e.list.len(), 1);
    assert!(matches!(e.list[0].kind, ErrorKind::Duplicate));
}

#[test]
fn leaf_rejects_nested_path() {
    let e = bind(&person(), strict(), &[("name", "Max"), ("age.x", "3")]).unwrap_err();
    assert_eq!(e.list.len(), 1);
    assert!(matches!(e.list[0].kind, ErrorKind::Unexpected));
    assert_eq!(e.list[0].name.as_deref(), Some("age.x"));
    let e = bind(&person(), lenient(), &[("name", "Max"), ("age.x", "3")]).unwrap_err();
    assert_eq!(e.list.len(), 1);
    assert!(matches!(e.list[0].kind, ErrorKind::Missing));
    assert_eq!(e.list[0].name.as_deref(), Some("age.x"));
}

#[test]
fn validators_wait_for_every_field() {
    let schema = vec![
        FieldDecl { name: "name".to_string(), kind: FieldKind::Text, validator: Some(Validator::Len { min: 2, max: 4 }) },
        decl("age", FieldKind::U16),
    ];
    let e = bind(&schema, strict(), &[("name", "Maximilian"), ("age", "x")]).unwrap_err();
    assert_eq!(e.list.len(), 1);
    assert!(matches!(e.list[0].kind, ErrorKind::Conversion(_)));
}

#[test]
fn form_checks_run_on_whole_value() {
    let schema = vec![
        decl("password", FieldKind::Text),
        decl("confirm", FieldKind::Text),
        decl("min", FieldKind::I64),
        decl("max", FieldKind::I64),
    ];
    let checks = vec![FormCheck::Same { field: 1, other: 0 }, FormCheck::Less { field: 2, other: 3 }];
    let run = |events: &[(&str, &str)]| {
        let mut ctx = FormContext::init(&schema, strict());
        for (n, v) in events {
            ctx.push_value(&schema, value(n, v));
        }
        ctx.finalize(&schema, &checks)
    };
    assert!(run(&[("password", "pw"), ("confirm", "pw"), ("min", "1"), ("max", "5")]).is_ok());
    let e = run(&[("password", "pw"), ("confirm", "px"), ("min", "9"), ("max", "5")]).unwrap_err();
    assert_eq!(e.list.len(), 2);
    assert!(matches!(&e.list[0].kind, ErrorKind::Validation(m) if m == "does not match"));
    assert_eq!(e.list[0].name.as_deref(), Some("confirm"));
    assert!(matches!(&e.list[1].kind, ErrorKind::Validation(m) if m == "is not less"));
    assert_eq!(e.list[1].name.as_deref(), Some("min"));
    let e = run(&[("password", "pw")]).unwrap_err();
    assert!(e.list.iter().all(|x| matches!(x.kind, ErrorKind::Missing)));
}

#[test]
fn cut_text_keeps_whole_characters() {
    let limits = Limits::new().limit("string", 2);
    let mut ctx = FromFieldContext::<Capped<String>>::init(strict());
    ctx.push_data(&leaf_data("t", "aé".as_bytes(), limits));
    let c = ctx.finalize().unwrap();
    assert_eq!(c.value, "a");
    assert_eq!(c.n.written, 1);
    assert!(!c.n.complete);
}
