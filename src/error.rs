//! What can go wrong while binding a form, and the collection that gathers
//! every such failure together with where it happened.

use vstd::prelude::*;

verus! {

/// The kind of value that text or data failed to convert into.
#[derive(Clone, Copy, Debug, PartialEq, Eq, Structural)]
pub enum ConversionCause {
    Integer,
    Boolean,
    Date,
    Time,
    DateTime,
    Utf8,
}

/// What went wrong with one field.
#[derive(Debug)]
pub enum ErrorKind {
    /// A required field was never bound.
    Missing,
    /// A field was bound more than once under strict parsing.
    Duplicate,
    /// No declared field matches the event's name.
    Unknown,
    /// The binder cannot take an event of this shape.
    Unexpected,
    /// The text or data did not convert into the field's type.
    Conversion(ConversionCause),
    /// A validator rejected the bound value.
    Validation(String),
    /// The data exceeded this many bytes.
    Truncated(u64),
    /// Reading or storing the data failed.
    Io(String),
}

/// The mathematical form of an [`ErrorKind`].
pub enum KindView {
    Missing,
    Duplicate,
    Unknown,
    Unexpected,
    Conversion(ConversionCause),
    Validation(Seq<char>),
    Truncated(u64),
    Io(Seq<char>),
}

impl View for ErrorKind {
    type V = KindView;

    open spec fn view(&self) -> KindView {
        match self {
            ErrorKind::Missing => KindView::Missing,
            ErrorKind::Duplicate => KindView::Duplicate,
            ErrorKind::Unknown => KindView::Unknown,
            ErrorKind::Unexpected => KindView::Unexpected,
            ErrorKind::Conversion(c) => KindView::Conversion(*c),
            ErrorKind::Validation(m) => KindView::Validation(m@),
            ErrorKind::Truncated(n) => KindView::Truncated(*n),
            ErrorKind::Io(m) => KindView::Io(m@),
        }
    }
}

/// One failure, with the field path and the raw value that produced it
/// where those are known.
#[derive(Debug)]
pub struct FormError {
    pub name: Option<String>,
    pub value: Option<String>,
    pub kind: ErrorKind,
}

/// The mathematical form of a [`FormError`].
pub struct ErrorView {
    pub name: Option<Seq<char>>,
    pub value: Option<Seq<char>>,
    pub kind: KindView,
}

pub open spec fn opt_view(s: Option<String>) -> Option<Seq<char>> {
    match s {
        Some(t) => Some(t@),
        None => None,
    }
}

impl View for FormError {
    type V = ErrorView;

    open spec fn view(&self) -> ErrorView {
        ErrorView { name: opt_view(self.name), value: opt_view(self.value), kind: self.kind@ }
    }
}

/// An error of `kind`, with no location.
pub open spec fn bare(kind: KindView) -> ErrorView {
    ErrorView { name: None, value: None, kind }
}

/// `e` located at `name`, unless it is located already.
pub open spec fn named(e: ErrorView, name: Seq<char>) -> ErrorView {
    match e.name {
        Some(_) => e,
        None => ErrorView { name: Some(name), ..e },
    }
}

/// `e` with the raw value `value`, unless it has one already.
pub open spec fn valued(e: ErrorView, value: Seq<char>) -> ErrorView {
    match e.value {
        Some(_) => e,
        None => ErrorView { value: Some(value), ..e },
    }
}

/// Every error of `es` located at `name` where it had no location.
pub open spec fn all_named(es: Seq<ErrorView>, name: Seq<char>) -> Seq<ErrorView> {
    es.map_values(|e: ErrorView| named(e, name))
}

/// Every error of `es` given the raw value `value` where it had none.
pub open spec fn all_valued(es: Seq<ErrorView>, value: Seq<char>) -> Seq<ErrorView> {
    es.map_values(|e: ErrorView| valued(e, value))
}

impl FormError {
    /// An error of `kind`, with no location.
    pub fn new(kind: ErrorKind) -> (r: FormError)
        ensures
            r@ == bare(kind@),
    {
        FormError { name: None, value: None, kind }
    }

    /// Whether this error says that the binder could not take the event.
    pub fn is_unexpected(&self) -> (r: bool)
        ensures
            r == (self.kind@ == KindView::Unexpected),
    {
        match self.kind {
            ErrorKind::Unexpected => true,
            _ => false,
        }
    }
}

/// The failures of one binding, in the order they were found. Binding
/// succeeded exactly when there are none.
#[derive(Debug)]
pub struct Errors {
    pub list: Vec<FormError>,
}

impl View for Errors {
    type V = Seq<ErrorView>;

    open spec fn view(&self) -> Seq<ErrorView> {
        self.list@.map_values(|e: FormError| e@)
    }
}

impl Errors {
    /// No errors.
    pub fn new() -> (r: Errors)
        ensures
            r@ == Seq::<ErrorView>::empty(),
    {
        Errors { list: Vec::new() }
    }

    /// One error of `kind`, with no location.
    pub fn from_kind(kind: ErrorKind) -> (r: Errors)
        ensures
            r@ == seq![bare(kind@)],
    {
        let mut list = Vec::new();
        list.push(FormError::new(kind));
        let r = Errors { list };
        assert(r@ =~= seq![bare(kind@)]);
        r
    }

    pub fn len(&self) -> (r: usize)
        ensures
            r == self@.len(),
    {
        self.list.len()
    }

    pub fn is_empty(&self) -> (r: bool)
        ensures
            r == (self@.len() == 0),
    {
        self.list.len() == 0
    }

    /// Whether the last error says that the binder could not take the event.
    pub fn last_is_unexpected(&self) -> (r: bool)
        ensures
            r == (self@.len() > 0 && self@.last().kind == KindView::Unexpected),
    {
        let n = self.list.len();
        if n == 0 {
            false
        } else {
            self.list[n - 1].is_unexpected()
        }
    }

    /// Adds `e` after the others.
    pub fn push(&mut self, e: FormError)
        ensures
            final(self)@ == old(self)@.push(e@),
    {
        self.list.push(e);
        assert(self@ =~= old(self)@.push(e@));
    }

    /// Adds every error of `other`, in order, after the others.
    pub fn extend(&mut self, other: Errors)
        ensures
            final(self)@ == old(self)@ + other@,
    {
        let ghost added = other@;
        let mut rest = other;
        self.list.append(&mut rest.list);
        assert(self@ =~= old(self)@ + added);
    }

    /// Locates at `name` every error that has no location yet; an error that
    /// has one keeps it, so the deepest location wins.
    pub fn set_name(&mut self, name: &String)
        ensures
            final(self)@ == all_named(old(self)@, name@),
    {
        let n = self.list.len();
        let mut i: usize = 0;
        while i < n
            invariant
                n == self.list@.len() == old(self).list@.len(),
                i <= n,
                forall|j: int| 0 <= j < i ==> #[trigger] self.list@[j]@ == named(old(self).list@[j]@, name@),
                forall|j: int| i <= j < n ==> #[trigger] self.list@[j] == old(self).list@[j],
            decreases n - i,
        {
            if self.list[i].name.is_none() {
                let e = self.list.remove(i);
                let located = FormError { name: Some(name.clone()), value: e.value, kind: e.kind };
                self.list.insert(i, located);
            }
            i = i + 1;
        }
        assert(self@ =~= all_named(old(self)@, name@));
    }

    /// Gives the raw value `value` to every error that has none yet.
    pub fn set_value(&mut self, value: &String)
        ensures
            final(self)@ == all_valued(old(self)@, value@),
    {
        let n = self.list.len();
        let mut i: usize = 0;
        while i < n
            invariant
                n == self.list@.len() == old(self).list@.len(),
                i <= n,
                forall|j: int| 0 <= j < i ==> #[trigger] self.list@[j]@ == valued(old(self).list@[j]@, value@),
                forall|j: int| i <= j < n ==> #[trigger] self.list@[j] == old(self).list@[j],
            decreases n - i,
        {
            if self.list[i].value.is_none() {
                let e = self.list.remove(i);
                let valued_e = FormError { name: e.name, value: Some(value.clone()), kind: e.kind };
                self.list.insert(i, valued_e);
            }
            i = i + 1;
        }
        assert(self@ =~= all_valued(old(self)@, value@));
    }

    /// These errors, located at `name` where they had no location.
    pub fn with_name(self, name: &String) -> (r: Errors)
        ensures
            r@ == all_named(self@, name@),
    {
        let mut r = self;
        r.set_name(name);
        r
    }
}

} // verus!
