//! A field streamed into storage: held in memory until it is staged in a
//! temporary file, and moved to a lasting place by an explicit, retryable
//! persist step.

use vstd::prelude::*;
use tempfile::TempPath;
use crate::capped::{kept, read_capped, Capped, N};
use crate::error::{bare, ErrorKind, ErrorView, Errors, KindView};
use crate::field::{copy_text, ContentType, DataField, ValueField};
use crate::from_form_field::FromFormField;
use crate::leaf::byte_len;

verus! {

#[verifier::external_type_specification]
#[verifier::external_body]
pub struct ExTempPath(TempPath);

/// Where the content of a [`TempFile`] is.
#[derive(Debug)]
pub enum FileLocation {
    /// The text of a value field, held as it is.
    Inline(String),
    /// Bytes read from a data field, in memory until they are staged.
    Buffered(Vec<u8>),
    /// In a staged temporary file, removed when dropped unless persisted.
    Temp(TempPath),
    /// In a file at a path of the caller's choosing.
    Kept(String),
}

/// A file received in a form field.
#[derive(Debug)]
pub struct TempFile {
    pub file_name: Option<String>,
    pub content_type: Option<ContentType>,
    pub len: u64,
    pub location: FileLocation,
}

/// What has to be done on storage to persist a [`TempFile`].
#[derive(Debug)]
pub enum PersistStep {
    /// Move the staged temporary file to `to`.
    RenameTemp { temp: TempPath, to: String },
    /// Move the file at `from` to `to`.
    Rename { from: String, to: String },
    /// Write the buffered content to a new file at `to`.
    Write { to: String },
    /// Copy the file at `source` to `to`, then let the source go; taken
    /// where a rename cannot cross from one storage device to another.
    Copy { source: FileLocation, to: String },
}

/// Where the content is once a persist to `to` has begun: the destination
/// is recorded at once for a file, so that a retried or concurrent persist
/// starts from it; buffered content stays put until it has been written.
pub open spec fn location_after_begin(loc: FileLocation, to: String) -> FileLocation {
    match loc {
        FileLocation::Inline(t) => FileLocation::Inline(t),
        FileLocation::Buffered(c) => FileLocation::Buffered(c),
        _ => FileLocation::Kept(to),
    }
}

/// The storage step that persists content at `loc` to `to`.
pub open spec fn persist_step(loc: FileLocation, to: String) -> PersistStep {
    match loc {
        FileLocation::Inline(_) => PersistStep::Write { to },
        FileLocation::Buffered(_) => PersistStep::Write { to },
        FileLocation::Temp(p) => PersistStep::RenameTemp { temp: p, to },
        FileLocation::Kept(p) => PersistStep::Rename { from: p, to },
    }
}

/// Relies on `TempPath`'s `Deref` to `Path` and `Path::to_string_lossy`:
/// the path of the staged file as text.
#[verifier::external_body]
fn temp_path_text(p: &TempPath) -> (r: String) {
    p.to_string_lossy().into_owned()
}

impl TempFile {
    /// The size of the content in bytes.
    pub fn len(&self) -> (r: u64)
        ensures
            r == self.len,
    {
        self.len
    }

    /// Where the content is stored, once it is in a file.
    pub fn path(&self) -> (r: Option<String>)
        ensures
            r is Some <==> (self.location is Temp || self.location is Kept),
            self.location matches FileLocation::Kept(p) ==> r == Some(p),
    {
        match &self.location {
            FileLocation::Inline(_) => None,
            FileLocation::Buffered(_) => None,
            FileLocation::Temp(p) => Some(temp_path_text(p)),
            FileLocation::Kept(p) => Some(p.clone()),
        }
    }

    /// The file name that the form gave, if any.
    pub fn file_name(&self) -> (r: Option<&String>)
        ensures
            r == match self.file_name {
                Some(n) => Some(&n),
                None => None::<&String>,
            },
    {
        match &self.file_name {
            Some(n) => Some(n),
            None => None,
        }
    }

    /// The content type that the form gave, if any.
    pub fn content_type(&self) -> (r: Option<&ContentType>)
        ensures
            r == match self.content_type {
                Some(c) => Some(&c),
                None => None::<&ContentType>,
            },
    {
        match &self.content_type {
            Some(c) => Some(c),
            None => None,
        }
    }

    /// The buffered content, while there is some.
    pub fn buffered(&self) -> (r: Option<&Vec<u8>>)
        ensures
            r is Some <==> self.location is Buffered,
            self.location matches FileLocation::Buffered(c) ==> r == Some(&c),
    {
        match &self.location {
            FileLocation::Buffered(c) => Some(c),
            _ => None,
        }
    }

    /// The inline text, while the content is that.
    pub fn inline(&self) -> (r: Option<&String>)
        ensures
            r is Some <==> self.location is Inline,
            self.location matches FileLocation::Inline(t) ==> r == Some(&t),
    {
        match &self.location {
            FileLocation::Inline(t) => Some(t),
            _ => None,
        }
    }

    /// This file, now that its buffered content has been written to the
    /// temporary file `staged`.
    pub fn into_staged(self, staged: TempPath) -> (r: TempFile)
        requires
            self.location is Buffered || self.location is Inline,
        ensures
            r.location == FileLocation::Temp(staged),
            r.file_name == self.file_name,
            r.content_type == self.content_type,
            r.len == self.len,
    {
        TempFile {
            file_name: self.file_name,
            content_type: self.content_type,
            len: self.len,
            location: FileLocation::Temp(staged),
        }
    }

    /// Begins persisting to `to`, and says what has to be done on storage.
    /// A file records its new place at once; if the step fails, the caller
    /// puts back the location it had with [`TempFile::persist_failed`].
    pub fn begin_persist(&mut self, to: String) -> (step: PersistStep)
        ensures
            step == persist_step(old(self).location, to),
            final(self).location == location_after_begin(old(self).location, to),
            final(self).file_name == old(self).file_name,
            final(self).content_type == old(self).content_type,
            final(self).len == old(self).len,
    {
        let mut previous = FileLocation::Kept(to.clone());
        std::mem::swap(&mut self.location, &mut previous);
        match previous {
            FileLocation::Inline(t) => {
                self.location = FileLocation::Inline(t);
                PersistStep::Write { to }
            },
            FileLocation::Buffered(c) => {
                self.location = FileLocation::Buffered(c);
                PersistStep::Write { to }
            },
            FileLocation::Temp(p) => PersistStep::RenameTemp { temp: p, to },
            FileLocation::Kept(p) => PersistStep::Rename { from: p, to },
        }
    }

    /// Rolls back a persist step that failed: the content is where it was.
    pub fn persist_failed(&mut self, previous: FileLocation)
        ensures
            final(self).location == previous,
            final(self).file_name == old(self).file_name,
            final(self).content_type == old(self).content_type,
            final(self).len == old(self).len,
    {
        self.location = previous;
    }

    /// Handles a failed rename of the content at `source` to `to`. Where the
    /// rename failed because it crosses storage devices, the destination
    /// stays recorded and the step to take is a copy; otherwise the content
    /// is where it was and there is nothing more to do.
    pub fn rename_failed(&mut self, source: FileLocation, to: String, cross_device: bool) -> (r: Option<
        PersistStep,
    >)
        ensures
            cross_device ==> r == Some(PersistStep::Copy { source, to }) && final(self).location
                == FileLocation::Kept(to),
            !cross_device ==> r is None && final(self).location == source,
            final(self).file_name == old(self).file_name,
            final(self).content_type == old(self).content_type,
            final(self).len == old(self).len,
    {
        if cross_device {
            self.location = FileLocation::Kept(to.clone());
            Some(PersistStep::Copy { source, to })
        } else {
            self.location = source;
            None
        }
    }

    /// Records that the content held in memory was written to `to`.
    pub fn written_to(&mut self, to: String)
        ensures
            final(self).location == FileLocation::Kept(to),
            final(self).file_name == old(self).file_name,
            final(self).content_type == old(self).content_type,
            final(self).len == old(self).len,
    {
        self.location = FileLocation::Kept(to);
    }
}

/// Persisting a file twice, to `first` and then to `second`, moves it from
/// `first` the second time: never again from the temporary place it was
/// staged in.
pub proof fn lemma_second_persist_moves_from_first(loc: FileLocation, first: String, second: String)
    requires
        loc is Temp || loc is Kept,
    ensures
        location_after_begin(loc, first) == FileLocation::Kept(first),
        persist_step(location_after_begin(loc, first), second) == (PersistStep::Rename {
            from: first,
            to: second,
        }),
        location_after_begin(location_after_begin(loc, first), second) == FileLocation::Kept(second),
{
}

/// Whether `r` is what reading the data field `field` into a file yields:
/// its bytes up to the file limit for its content type, buffered, marked
/// incomplete when the data ran past the limit.
pub open spec fn capped_file_spec(field: DataField, r: Result<Capped<TempFile>, Seq<ErrorView>>) -> bool {
    let limit = field.limits.file_limit_spec(
        match field.content_type.extension {
            Some(e) => Some(e@),
            None => None,
        },
    );
    let k = kept(field.data@.len(), limit);
    &&& r is Ok
    &&& r->Ok_0.n == N { written: k as u64, complete: field.data@.len() <= limit }
    &&& r->Ok_0.value.len == k as u64
    &&& r->Ok_0.value.file_name == field.file_name
    &&& r->Ok_0.value.content_type == Some(field.content_type)
    &&& r->Ok_0.value.location matches FileLocation::Buffered(c) && c@ == field.data@.take(k as int)
}

fn read_file(field: &DataField) -> (r: Capped<TempFile>)
    ensures
        capped_file_spec(*field, Ok(r)),
{
    let limit = field.limits.file_limit(field.content_type.extension.as_ref());
    let capped = read_capped(&field.data, limit);
    let n = capped.n;
    let file = TempFile {
        file_name: copy_text(&field.file_name),
        content_type: Some(field.content_type.duplicate()),
        len: n.written,
        location: FileLocation::Buffered(capped.value),
    };
    Capped::new(file, n)
}

impl FromFormField for Capped<TempFile> {
    /// Inline text is held as it is, complete.
    open spec fn from_value_spec(field: ValueField) -> Result<Capped<TempFile>, Seq<ErrorView>> {
        Ok(
            Capped {
                value: TempFile {
                    file_name: None,
                    content_type: None,
                    len: byte_len(field.value@),
                    location: FileLocation::Inline(field.value),
                },
                n: N { written: byte_len(field.value@), complete: true },
            },
        )
    }

    open spec fn from_data_spec(field: DataField, r: Result<Capped<TempFile>, Seq<ErrorView>>) -> bool {
        capped_file_spec(field, r)
    }

    open spec fn default_spec() -> Option<Capped<TempFile>> {
        None
    }

    fn from_value(field: &ValueField) -> (r: Result<Capped<TempFile>, Errors>) {
        let len = field.value.as_str().len() as u64;
        let file = TempFile {
            file_name: None,
            content_type: None,
            len,
            location: FileLocation::Inline(field.value.clone()),
        };
        Ok(Capped::new(file, N { written: len, complete: true }))
    }

    fn from_data(field: &DataField) -> (r: Result<Capped<TempFile>, Errors>) {
        Ok(read_file(field))
    }

    fn default() -> (r: Option<Capped<TempFile>>) {
        None
    }
}

impl FromFormField for TempFile {
    open spec fn from_value_spec(field: ValueField) -> Result<TempFile, Seq<ErrorView>> {
        match <Capped<TempFile> as FromFormField>::from_value_spec(field) {
            Ok(c) => Ok(c.value),
            Err(e) => Err(e),
        }
    }

    /// A file read from data must fit its limit: data that ran past it is
    /// `Truncated` at the limit.
    open spec fn from_data_spec(field: DataField, r: Result<TempFile, Seq<ErrorView>>) -> bool {
        exists|c: Result<Capped<TempFile>, Seq<ErrorView>>|
            #[trigger] capped_file_spec(field, c) && r == (if c->Ok_0.n.complete {
                Ok(c->Ok_0.value)
            } else {
                Err(seq![bare(KindView::Truncated(c->Ok_0.n.written))])
            })
    }

    open spec fn default_spec() -> Option<TempFile> {
        None
    }

    fn from_value(field: &ValueField) -> (r: Result<TempFile, Errors>) {
        match <Capped<TempFile> as FromFormField>::from_value(field) {
            Ok(c) => Ok(c.into_inner()),
            Err(e) => Err(e),
        }
    }

    fn from_data(field: &DataField) -> (r: Result<TempFile, Errors>) {
        let c = read_file(field);
        let ghost whole: Result<Capped<TempFile>, Seq<ErrorView>> = Ok(c);
        assert(capped_file_spec(*field, whole));
        if c.is_complete() {
            Ok(c.into_inner())
        } else {
            Err(Errors::from_kind(ErrorKind::Truncated(c.n.written)))
        }
    }

    fn default() -> (r: Option<TempFile>) {
        None
    }
}

/// A file streamed past its limit binds, cut off at exactly the limit and
/// marked incomplete, rather than fail.
pub proof fn lemma_file_truncation_is_not_failure(field: DataField, r: Result<Capped<TempFile>, Seq<ErrorView>>)
    requires
        capped_file_spec(field, r),
        field.data@.len() > field.limits.file_limit_spec(
            match field.content_type.extension {
                Some(e) => Some(e@),
                None => None,
            },
        ),
    ensures
        r is Ok,
        r->Ok_0.n.complete == false,
        r->Ok_0.n.written == field.limits.file_limit_spec(
            match field.content_type.extension {
                Some(e) => Some(e@),
                None => None,
            },
        ),
        r->Ok_0.value.len == r->Ok_0.n.written,
{
}

} // verus!
