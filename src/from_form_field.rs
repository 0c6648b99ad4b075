//! Binding of a single field: the conversion that each leaf type provides,
//! and the context that records the outcome of the first push into a field.

use vstd::prelude::*;
use crate::error::{
    all_named, all_valued, bare, ConversionCause, ErrorKind, ErrorView, Errors, KindView, opt_view,
};
use crate::field::{DataField, Options, ValueField};
use crate::name::NameView;

verus! {

/// The mathematical form of a binding outcome.
pub open spec fn outcome_view<T>(r: Result<T, Errors>) -> Result<T, Seq<ErrorView>> {
    match r {
        Ok(v) => Ok(v),
        Err(e) => Err(e@),
    }
}

/// The outcome of an event of a shape that the binder cannot take.
pub open spec fn unexpected_spec<T>() -> Result<T, Seq<ErrorView>> {
    Err(seq![bare(KindView::Unexpected)])
}

/// The outcome of text or data that does not convert.
pub open spec fn conversion_spec<T>(cause: ConversionCause) -> Result<T, Seq<ErrorView>> {
    Err(seq![bare(KindView::Conversion(cause))])
}

/// The error for an event of a shape that the binder cannot take.
pub fn unexpected<T>() -> (r: Result<T, Errors>)
    ensures
        outcome_view(r) == unexpected_spec::<T>(),
{
    Err(Errors::from_kind(ErrorKind::Unexpected))
}

/// The error for text or data that does not convert.
pub fn conversion<T>(cause: ConversionCause) -> (r: Result<T, Errors>)
    ensures
        outcome_view(r) == conversion_spec::<T>(cause),
{
    Err(Errors::from_kind(ErrorKind::Conversion(cause)))
}

/// A type that one form field binds to, from inline text, from streamed
/// data, or both.
pub trait FromFormField: Sized {
    /// What binding the value field `field` yields.
    spec fn from_value_spec(field: ValueField) -> Result<Self, Seq<ErrorView>>;

    /// Whether `r` is what binding the data field `field` yields.
    spec fn from_data_spec(field: DataField, r: Result<Self, Seq<ErrorView>>) -> bool;

    /// The value of a field that was never supplied; `None` makes the field
    /// required.
    spec fn default_spec() -> Option<Self>;

    fn from_value(field: &ValueField) -> (r: Result<Self, Errors>)
        ensures
            outcome_view(r) == Self::from_value_spec(*field),
    ;

    fn from_data(field: &DataField) -> (r: Result<Self, Errors>)
        ensures
            Self::from_data_spec(*field, outcome_view(r)),
    ;

    fn default() -> (r: Option<Self>)
        ensures
            r == Self::default_spec(),
    ;
}

/// Whether the view still has keys: a leaf binds only an event whose name
/// ends with the path that led to it.
pub open spec fn nested(v: NameView) -> bool {
    v.start < v.name@.len()
}

/// What a leaf of type `T` makes of the value field `f`.
pub open spec fn value_result<T: FromFormField>(f: ValueField) -> Result<T, Seq<ErrorView>> {
    if nested(f.name) {
        unexpected_spec::<T>()
    } else {
        T::from_value_spec(f)
    }
}

/// Whether `r` is what a leaf of type `T` makes of the data field `f`.
pub open spec fn data_result<T: FromFormField>(f: DataField, r: Result<T, Seq<ErrorView>>) -> bool {
    if nested(f.name) {
        r == unexpected_spec::<T>()
    } else {
        T::from_data_spec(f, r)
    }
}

/// `n` plus one, held at the largest `usize`.
pub open spec fn bump(n: nat) -> nat {
    if n < usize::MAX {
        n + 1
    } else {
        n
    }
}

/// Whether a lenient context drops the outcome `r` rather than record it:
/// it does so for an event that the binder could not take.
pub open spec fn swallowed<T>(strict: bool, r: Result<T, Seq<ErrorView>>) -> bool {
    &&& !strict
    &&& r is Err
    &&& r->Err_0.len() > 0
    &&& r->Err_0.last().kind == KindView::Unexpected
}

/// `es` located at `name` and given the raw value `raw`, where those are
/// known and the errors have none yet.
pub open spec fn annotated(
    es: Seq<ErrorView>,
    name: Option<Seq<char>>,
    raw: Option<Seq<char>>,
) -> Seq<ErrorView> {
    let located = match name {
        Some(n) => all_named(es, n),
        None => es,
    };
    match raw {
        Some(v) => all_valued(located, v),
        None => located,
    }
}

/// The mathematical form of a [`FromFieldContext`].
pub struct FieldState<T> {
    /// The path of the field, from the last push that was considered.
    pub name: Option<Seq<char>>,
    /// The text of the last value field that was considered.
    pub raw: Option<Seq<char>>,
    pub strict: bool,
    /// The recorded outcome: the first one that was not dropped.
    pub outcome: Option<Result<T, Seq<ErrorView>>>,
    /// How many pushes were attempted.
    pub pushes: nat,
}

impl<T> FieldState<T> {
    /// The state of a context that has seen no push.
    pub open spec fn fresh(strict: bool) -> FieldState<T> {
        FieldState { name: None, raw: None, strict, outcome: None, pushes: 0 }
    }

    /// The state after one more attempt, with nothing else changed.
    pub open spec fn counted(self) -> FieldState<T> {
        FieldState { pushes: bump(self.pushes), ..self }
    }

    /// The state after a push of outcome `r` for the field at `name`; only
    /// the count changes once an outcome is recorded.
    pub open spec fn pushed(
        self,
        name: Seq<char>,
        raw: Option<Seq<char>>,
        r: Result<T, Seq<ErrorView>>,
    ) -> FieldState<T> {
        if self.outcome is Some {
            self.counted()
        } else {
            FieldState {
                name: Some(name),
                raw: match raw {
                    Some(v) => Some(v),
                    None => self.raw,
                },
                strict: self.strict,
                outcome: if swallowed(self.strict, r) {
                    None
                } else {
                    Some(r)
                },
                pushes: bump(self.pushes),
            }
        }
    }
}

impl<T: FromFormField> FieldState<T> {
    /// What finalizing yields: `Duplicate` for a field pushed more than once
    /// under strict parsing, whatever its pushes gave; otherwise the recorded
    /// value or errors; the default, or `Missing`, for a field never bound.
    /// Errors are located at the field's path and carry its raw text.
    pub open spec fn finalize_spec(self) -> Result<T, Seq<ErrorView>> {
        match self.outcome {
            Some(_) if self.strict && self.pushes > 1 => Err(
                annotated(seq![bare(KindView::Duplicate)], self.name, self.raw),
            ),
            Some(Ok(v)) => Ok(v),
            Some(Err(e)) => Err(annotated(e, self.name, self.raw)),
            None => match T::default_spec() {
                Some(d) => Ok(d),
                None => Err(annotated(seq![bare(KindView::Missing)], self.name, self.raw)),
            },
        }
    }
}

/// The context of a single field: the outcome of the first push that was
/// not dropped, where it came from, and how many pushes were attempted.
pub struct FromFieldContext<T> {
    pub field_name: Option<NameView>,
    pub field_value: Option<String>,
    pub opts: Options,
    pub value: Option<Result<T, Errors>>,
    pub pushes: usize,
}

impl<T> View for FromFieldContext<T> {
    type V = FieldState<T>;

    open spec fn view(&self) -> FieldState<T> {
        FieldState {
            name: match self.field_name {
                Some(v) => Some(v.as_name_spec()),
                None => None,
            },
            raw: opt_view(self.field_value),
            strict: self.opts.strict,
            outcome: match self.value {
                Some(r) => Some(outcome_view(r)),
                None => None,
            },
            pushes: self.pushes as nat,
        }
    }
}

impl<T: FromFormField> FromFieldContext<T> {
    /// The recorded name is a well-formed view.
    pub open spec fn wf(&self) -> bool {
        self.field_name matches Some(v) ==> v.wf()
    }

    pub fn init(opts: Options) -> (r: FromFieldContext<T>)
        ensures
            r.wf(),
            r@ == FieldState::<T>::fresh(opts.strict),
            r.opts == opts,
    {
        FromFieldContext { field_name: None, field_value: None, opts, value: None, pushes: 0 }
    }

    /// Counts an attempt, and says whether it may still record an outcome.
    pub fn can_push(&mut self) -> (r: bool)
        ensures
            r == (old(self).value is None),
            final(self)@ == old(self)@.counted(),
            final(self).field_name == old(self).field_name,
            final(self).opts == old(self).opts,
    {
        if self.pushes < usize::MAX {
            self.pushes = self.pushes + 1;
        }
        self.value.is_none()
    }

    /// Records `result` as the outcome for the field at `name`, unless the
    /// parse is lenient and the binder could not take the event.
    pub fn push(&mut self, name: NameView, result: Result<T, Errors>)
        requires
            name.wf(),
        ensures
            final(self).field_name == Some(name),
            final(self).field_value == old(self).field_value,
            final(self).opts == old(self).opts,
            final(self).pushes == old(self).pushes,
            final(self)@.outcome == (if swallowed(old(self).opts.strict, outcome_view(result)) {
                old(self)@.outcome
            } else {
                Some(outcome_view(result))
            }),
    {
        let swallow = match &result {
            Err(e) => !self.opts.strict && e.last_is_unexpected(),
            Ok(_) => false,
        };
        self.field_name = Some(name);
        if !swallow {
            self.value = Some(result);
        }
    }

    /// Binds the value field `field`, if no outcome is recorded yet; a name
    /// with keys left over is an event of a shape the leaf cannot take.
    pub fn push_value(&mut self, field: &ValueField)
        requires
            old(self).wf(),
            field.name.wf(),
        ensures
            final(self).wf(),
            final(self).opts == old(self).opts,
            final(self)@ == old(self)@.pushed(
                field.name.as_name_spec(),
                Some(field.value@),
                value_result::<T>(*field),
            ),
    {
        if self.can_push() {
            self.field_value = Some(field.value.clone());
            let result = if field.name.is_exhausted() {
                T::from_value(field)
            } else {
                unexpected()
            };
            self.push(field.name.duplicate(), result);
        }
    }

    /// Binds the data field `field`, if no outcome is recorded yet.
    pub fn push_data(&mut self, field: &DataField)
        requires
            old(self).wf(),
            field.name.wf(),
        ensures
            final(self).wf(),
            final(self).opts == old(self).opts,
            old(self).value is Some ==> final(self)@ == old(self)@.counted(),
            old(self).value is None ==> exists|r: Result<T, Seq<ErrorView>>|
                #[trigger] data_result::<T>(*field, r) && final(self)@ == old(self)@.pushed(
                    field.name.as_name_spec(),
                    None,
                    r,
                ),
    {
        if self.can_push() {
            let result = if field.name.is_exhausted() {
                T::from_data(field)
            } else {
                unexpected()
            };
            let ghost r = outcome_view(result);
            self.push(field.name.duplicate(), result);
            assert(data_result::<T>(*field, r));
        }
    }

    /// The bound value, or every error located at the field.
    pub fn finalize(self) -> (r: Result<T, Errors>)
        requires
            self.wf(),
        ensures
            outcome_view(r) == self@.finalize_spec(),
    {
        let FromFieldContext { field_name, field_value, opts, value, pushes } = self;
        let mut errors = match value {
            Some(_) if opts.strict && pushes > 1 => Errors::from_kind(ErrorKind::Duplicate),
            Some(Ok(v)) => {
                return Ok(v);
            },
            Some(Err(e)) => e,
            None => match <T as FromFormField>::default() {
                Some(d) => {
                    return Ok(d);
                },
                None => Errors::from_kind(ErrorKind::Missing),
            },
        };
        if let Some(name) = field_name {
            let path = name.as_name();
            errors.set_name(&path);
        }
        if let Some(raw) = field_value {
            errors.set_value(&raw);
        }
        Err(errors)
    }
}

/// A field whose type has a default, finalized without any push, yields
/// that default, never `Missing`.
pub proof fn lemma_unpushed_field_defaults<T: FromFormField>(strict: bool)
    requires
        T::default_spec() is Some,
    ensures
        FieldState::<T>::fresh(strict).finalize_spec() == Ok::<T, Seq<ErrorView>>(T::default_spec()->0),
{
}

/// Under strict parsing, a field pushed two values finalizes to one
/// `Duplicate` error, located where the first push was and carrying its
/// text: never to either value, even where both convert, and never to the
/// first push's own failure.
pub proof fn lemma_strict_duplicate<T: FromFormField>(
    name1: Seq<char>,
    raw1: Seq<char>,
    r1: Result<T, Seq<ErrorView>>,
    name2: Seq<char>,
    raw2: Seq<char>,
    r2: Result<T, Seq<ErrorView>>,
)
    ensures
        FieldState::<T>::fresh(true).pushed(name1, Some(raw1), r1).pushed(name2, Some(raw2), r2).finalize_spec()
            == Err::<T, Seq<ErrorView>>(
            seq![ErrorView { name: Some(name1), value: Some(raw1), kind: KindView::Duplicate }],
        ),
{
    let e = ErrorView { name: Some(name1), value: Some(raw1), kind: KindView::Duplicate };
    assert(annotated(seq![bare(KindView::Duplicate)], Some(name1), Some(raw1)) =~= seq![e]);
}

} // verus!
