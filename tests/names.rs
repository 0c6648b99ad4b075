use rocket_form::field::Limits;
use rocket_form::name::NameView;

fn keys(name: &str) -> Vec<String> {
    let mut v = NameView::new(name.to_string());
    let mut out = Vec::new();
    while !v.is_exhausted() {
        out.push(v.key_lossy());
        v = v.shift();
    }
    out
}

#[test]
fn names_split_into_keys() {
    assert_eq!(keys("a.b[0].c"), vec!["a", "b", "0", "c"]);
    assert_eq!(keys("tags[]"), vec!["tags", ""]);
    assert_eq!(keys("plain"), vec!["plain"]);
    assert_eq!(keys("[unclosed"), vec!["unclosed"]);
    assert!(keys("").is_empty());
}

#[test]
fn views_report_walked_path() {
    let v = NameView::new("a.b[0].c".to_string());
    assert_eq!(v.as_name(), "a");
    assert_eq!(v.parent(), None);
    let v = v.shift().shift();
    assert_eq!(v.key(), Some("0".to_string()));
    assert_eq!(v.as_name(), "a.b[0]");
    assert_eq!(v.parent(), Some("a.b".to_string()));
    let end = v.shift().shift();
    assert_eq!(end.key(), None);
    assert_eq!(end.key_lossy(), "");
    assert_eq!(end.as_name(), "a.b[0].c");
}

#[test]
fn limits_resolve_specific_then_generic_then_default() {
    let limits = Limits::new().limit("file", 100).limit("file/pdf", 10);
    assert_eq!(limits.file_limit(Some(&"pdf".to_string())), 10);
    assert_eq!(limits.file_limit(Some(&"png".to_string())), 100);
    assert_eq!(limits.file_limit(None), 100);
    assert_eq!(Limits::new().file_limit(Some(&"pdf".to_string())), 1048576);
    assert_eq!(Limits::new().string_limit(), 8192);
    let replaced = Limits::new().limit("string", 5).limit("string", 7);
    assert_eq!(replaced.get("string"), Some(7));
    assert_eq!(replaced.get("file"), None);
    assert_eq!(Limits::new().read_bound(), 1048577);
    assert_eq!(Limits::new().limit("string", 10).read_bound(), 1048577);
    assert_eq!(Limits::new().limit("file", u64::MAX).read_bound(), u64::MAX);
    assert_eq!(Limits::new().limit("file", 5_000_000).read_bound(), 5_000_001);
}
