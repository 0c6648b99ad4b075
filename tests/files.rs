use rocket_form::capped::Capped;
use rocket_form::field::{ContentType, DataField, Limits, Options, ValueField};
use rocket_form::from_form_field::FromFieldContext;
use rocket_form::name::NameView;
use rocket_form::temp_file::{FileLocation, PersistStep, TempFile};

fn upload(bytes: &[u8], limits: Limits) -> DataField {
    DataField {
        name: NameView::new("upload".to_string()).shift(),
        content_type: ContentType { media_type: "application/pdf".to_string(), extension: Some("pdf".to_string()) },
        file_name: Some("report".to_string()),
        data: bytes.to_vec(),
        limits,
    }
}

fn staged() -> TempFile {
    let temp = tempfile::NamedTempFile::new().unwrap().into_temp_path();
    TempFile { file_name: None, content_type: None, len: 3, location: FileLocation::Buffered(b"abc".to_vec()) }
        .into_staged(temp)
}

#[test]
fn file_from_data_is_capped_at_limit() {
    let limits = Limits::new().limit("file/pdf", 5);
    let mut ctx = FromFieldContext::<Capped<TempFile>>::init(Options { strict: true });
    ctx.push_data(&upload(b"0123456789", limits));
    let c = ctx.finalize().unwrap();
    assert!(!c.is_complete());
    assert_eq!(c.n.written, 5);
    assert_eq!(c.value.len(), 5);
    assert_eq!(c.value.buffered().unwrap(), &b"01234".to_vec());
    assert_eq!(c.value.file_name().map(|s| s.as_str()), Some("report"));
    assert_eq!(c.value.content_type().unwrap().media_type, "application/pdf");
    assert!(c.value.path().is_none());
}

#[test]
fn strict_file_from_overlong_data_fails() {
    let limits = Limits::new().limit("file", 5);
    let mut ctx = FromFieldContext::<TempFile>::init(Options { strict: true });
    ctx.push_data(&upload(b"0123456789", limits));
    assert!(ctx.finalize().is_err());
}

#[test]
fn file_from_value_is_inline() {
    let mut ctx = FromFieldContext::<TempFile>::init(Options { strict: true });
    ctx.push_value(&ValueField { name: NameView::new("f".to_string()).shift(), value: "hi".to_string() });
    let f = ctx.finalize().unwrap();
    assert_eq!(f.len(), 2);
    assert_eq!(f.inline().map(|s| s.as_str()), Some("hi"));
}

#[test]
fn second_persist_moves_from_first_destination() {
    let mut file = staged();
    assert!(file.path().is_some());
    let step = file.begin_persist("/srv/one".to_string());
    assert!(matches!(&step, PersistStep::RenameTemp { to, .. } if to == "/srv/one"));
    assert_eq!(file.path(), Some("/srv/one".to_string()));
    let step = file.begin_persist("/srv/two".to_string());
    match step {
        PersistStep::Rename { from, to } => {
            assert_eq!(from, "/srv/one");
            assert_eq!(to, "/srv/two");
        }
        _ => panic!("expected a rename from the first destination"),
    }
    assert_eq!(file.path(), Some("/srv/two".to_string()));
}

#[test]
fn failed_persist_rolls_back() {
    let mut file = staged();
    let step = file.begin_persist("/srv/one".to_string());
    let _ = file.begin_persist("/srv/two".to_string());
    file.persist_failed(FileLocation::Kept("/srv/one".to_string()));
    assert_eq!(file.path(), Some("/srv/one".to_string()));
    if let PersistStep::RenameTemp { temp, .. } = step {
        file.persist_failed(FileLocation::Temp(temp));
        assert!(file.path().is_some());
        assert!(!file.path().unwrap().starts_with("/srv"));
    } else {
        panic!("expected a rename of the staged file");
    }
}

#[test]
fn buffered_persist_writes_then_records() {
    let mut file = TempFile { file_name: None, content_type: None, len: 2, location: FileLocation::Inline("hi".to_string()) };
    let step = file.begin_persist("/srv/x".to_string());
    assert!(matches!(&step, PersistStep::Write { to } if to == "/srv/x"));
    assert!(file.path().is_none());
    file.written_to("/srv/x".to_string());
    assert_eq!(file.path(), Some("/srv/x".to_string()));
}

#[test]
fn cross_device_rename_becomes_copy() {
    let mut file = staged();
    let step = file.begin_persist("/mnt/other/one".to_string());
    let temp = match step {
        PersistStep::RenameTemp { temp, .. } => temp,
        _ => panic!("expected a rename of the staged file"),
    };
    let next = file.rename_failed(FileLocation::Temp(temp), "/mnt/other/one".to_string(), true);
    assert!(matches!(&next, Some(PersistStep::Copy { source: FileLocation::Temp(_), to }) if to == "/mnt/other/one"));
    assert_eq!(file.path(), Some("/mnt/other/one".to_string()));
    let mut other = staged();
    let step = other.begin_persist("/srv/x".to_string());
    if let PersistStep::RenameTemp { temp, to } = step {
        assert!(other.rename_failed(FileLocation::Temp(temp), to, false).is_none());
        assert!(!other.path().unwrap().starts_with("/srv"));
    }
}
