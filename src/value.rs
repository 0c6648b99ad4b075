//! The kinds of field that a form declares, the values they bind to, and a
//! field context for each kind.

use vstd::prelude::*;
use crate::capped::Capped;
use crate::datetime::{Date, DateTime, Time};
use crate::error::{ErrorView, Errors};
use crate::field::{DataField, Options, ValueField};
use crate::error::KindView;
use crate::from_form_field::{annotated, data_result, nested, outcome_view, value_result, FieldState, FromFieldContext, FromFormField};
use crate::leaf::byte_len;
use crate::temp_file::TempFile;

verus! {

/// The type that a declared field binds to.
#[derive(Clone, Copy, Debug, PartialEq, Eq, Structural)]
pub enum FieldKind {
    Bool,
    U8,
    U16,
    U32,
    U64,
    I32,
    I64,
    Text,
    CappedText,
    Date,
    Time,
    DateTime,
    File,
    CappedFile,
}

/// A bound field value.
#[derive(Debug)]
pub enum FormValue {
    Bool(bool),
    U8(u8),
    U16(u16),
    U32(u32),
    U64(u64),
    I32(i32),
    I64(i64),
    Text(String),
    CappedText(Capped<String>),
    Date(Date),
    Time(Time),
    DateTime(DateTime),
    File(TempFile),
    CappedFile(Capped<TempFile>),
}

/// The context of one declared field, by kind.
pub enum LeafContext {
    Bool(FromFieldContext<bool>),
    U8(FromFieldContext<u8>),
    U16(FromFieldContext<u16>),
    U32(FromFieldContext<u32>),
    U64(FromFieldContext<u64>),
    I32(FromFieldContext<i32>),
    I64(FromFieldContext<i64>),
    Text(FromFieldContext<String>),
    CappedText(FromFieldContext<Capped<String>>),
    Date(FromFieldContext<Date>),
    Time(FromFieldContext<Time>),
    DateTime(FromFieldContext<DateTime>),
    File(FromFieldContext<TempFile>),
    CappedFile(FromFieldContext<Capped<TempFile>>),
}

/// The mathematical form of a [`LeafContext`].
pub enum LeafState {
    Bool(FieldState<bool>),
    U8(FieldState<u8>),
    U16(FieldState<u16>),
    U32(FieldState<u32>),
    U64(FieldState<u64>),
    I32(FieldState<i32>),
    I64(FieldState<i64>),
    Text(FieldState<String>),
    CappedText(FieldState<Capped<String>>),
    Date(FieldState<Date>),
    Time(FieldState<Time>),
    DateTime(FieldState<DateTime>),
    File(FieldState<TempFile>),
    CappedFile(FieldState<Capped<TempFile>>),
}

impl View for LeafContext {
    type V = LeafState;

    open spec fn view(&self) -> LeafState {
        match self {
            LeafContext::Bool(c) => LeafState::Bool(c@),
            LeafContext::U8(c) => LeafState::U8(c@),
            LeafContext::U16(c) => LeafState::U16(c@),
            LeafContext::U32(c) => LeafState::U32(c@),
            LeafContext::U64(c) => LeafState::U64(c@),
            LeafContext::I32(c) => LeafState::I32(c@),
            LeafContext::I64(c) => LeafState::I64(c@),
            LeafContext::Text(c) => LeafState::Text(c@),
            LeafContext::CappedText(c) => LeafState::CappedText(c@),
            LeafContext::Date(c) => LeafState::Date(c@),
            LeafContext::Time(c) => LeafState::Time(c@),
            LeafContext::DateTime(c) => LeafState::DateTime(c@),
            LeafContext::File(c) => LeafState::File(c@),
            LeafContext::CappedFile(c) => LeafState::CappedFile(c@),
        }
    }
}

/// The kind of field that a state belongs to.
pub open spec fn state_kind(s: LeafState) -> FieldKind {
    match s {
        LeafState::Bool(_) => FieldKind::Bool,
        LeafState::U8(_) => FieldKind::U8,
        LeafState::U16(_) => FieldKind::U16,
        LeafState::U32(_) => FieldKind::U32,
        LeafState::U64(_) => FieldKind::U64,
        LeafState::I32(_) => FieldKind::I32,
        LeafState::I64(_) => FieldKind::I64,
        LeafState::Text(_) => FieldKind::Text,
        LeafState::CappedText(_) => FieldKind::CappedText,
        LeafState::Date(_) => FieldKind::Date,
        LeafState::Time(_) => FieldKind::Time,
        LeafState::DateTime(_) => FieldKind::DateTime,
        LeafState::File(_) => FieldKind::File,
        LeafState::CappedFile(_) => FieldKind::CappedFile,
    }
}

/// The state of a field of `kind` that has seen no push.
pub open spec fn fresh_state(kind: FieldKind, strict: bool) -> LeafState {
    match kind {
        FieldKind::Bool => LeafState::Bool(FieldState::<bool>::fresh(strict)),
        FieldKind::U8 => LeafState::U8(FieldState::<u8>::fresh(strict)),
        FieldKind::U16 => LeafState::U16(FieldState::<u16>::fresh(strict)),
        FieldKind::U32 => LeafState::U32(FieldState::<u32>::fresh(strict)),
        FieldKind::U64 => LeafState::U64(FieldState::<u64>::fresh(strict)),
        FieldKind::I32 => LeafState::I32(FieldState::<i32>::fresh(strict)),
        FieldKind::I64 => LeafState::I64(FieldState::<i64>::fresh(strict)),
        FieldKind::Text => LeafState::Text(FieldState::<String>::fresh(strict)),
        FieldKind::CappedText => LeafState::CappedText(FieldState::<Capped<String>>::fresh(strict)),
        FieldKind::Date => LeafState::Date(FieldState::<Date>::fresh(strict)),
        FieldKind::Time => LeafState::Time(FieldState::<Time>::fresh(strict)),
        FieldKind::DateTime => LeafState::DateTime(FieldState::<DateTime>::fresh(strict)),
        FieldKind::File => LeafState::File(FieldState::<TempFile>::fresh(strict)),
        FieldKind::CappedFile => LeafState::CappedFile(FieldState::<Capped<TempFile>>::fresh(strict)),
    }
}

/// The state after the value field `f` is pushed into a field in state `s`.
pub open spec fn leaf_pushed_value(s: LeafState, f: ValueField) -> LeafState {
    match s {
        LeafState::Bool(c) => LeafState::Bool(
            c.pushed(f.name.as_name_spec(), Some(f.value@), value_result::<bool>(f)),
        ),
        LeafState::U8(c) => LeafState::U8(
            c.pushed(f.name.as_name_spec(), Some(f.value@), value_result::<u8>(f)),
        ),
        LeafState::U16(c) => LeafState::U16(
            c.pushed(f.name.as_name_spec(), Some(f.value@), value_result::<u16>(f)),
        ),
        LeafState::U32(c) => LeafState::U32(
            c.pushed(f.name.as_name_spec(), Some(f.value@), value_result::<u32>(f)),
        ),
        LeafState::U64(c) => LeafState::U64(
            c.pushed(f.name.as_name_spec(), Some(f.value@), value_result::<u64>(f)),
        ),
        LeafState::I32(c) => LeafState::I32(
            c.pushed(f.name.as_name_spec(), Some(f.value@), value_result::<i32>(f)),
        ),
        LeafState::I64(c) => LeafState::I64(
            c.pushed(f.name.as_name_spec(), Some(f.value@), value_result::<i64>(f)),
        ),
        LeafState::Text(c) => LeafState::Text(
            c.pushed(f.name.as_name_spec(), Some(f.value@), value_result::<String>(f)),
        ),
        LeafState::CappedText(c) => LeafState::CappedText(
            c.pushed(f.name.as_name_spec(), Some(f.value@), value_result::<Capped<String>>(f)),
        ),
        LeafState::Date(c) => LeafState::Date(
            c.pushed(f.name.as_name_spec(), Some(f.value@), value_result::<Date>(f)),
        ),
        LeafState::Time(c) => LeafState::Time(
            c.pushed(f.name.as_name_spec(), Some(f.value@), value_result::<Time>(f)),
        ),
        LeafState::DateTime(c) => LeafState::DateTime(
            c.pushed(f.name.as_name_spec(), Some(f.value@), value_result::<DateTime>(f)),
        ),
        LeafState::File(c) => LeafState::File(
            c.pushed(f.name.as_name_spec(), Some(f.value@), value_result::<TempFile>(f)),
        ),
        LeafState::CappedFile(c) => LeafState::CappedFile(
            c.pushed(f.name.as_name_spec(), Some(f.value@), value_result::<Capped<TempFile>>(f)),
        ),
    }
}

/// Whether `n` is a state that pushing the data field `f` into a field in
/// state `s` may leave.
pub open spec fn leaf_pushed_data(s: LeafState, f: DataField, n: LeafState) -> bool {
    match s {
        LeafState::Bool(c) => n is Bool && (if c.outcome is Some {
            n->Bool_0 == c.counted()
        } else {
            exists|r: Result<bool, Seq<ErrorView>>|
                #[trigger] data_result::<bool>(f, r) && n->Bool_0 == c.pushed(
                    f.name.as_name_spec(),
                    None,
                    r,
                )
        }),
        LeafState::U8(c) => n is U8 && (if c.outcome is Some {
            n->U8_0 == c.counted()
        } else {
            exists|r: Result<u8, Seq<ErrorView>>|
                #[trigger] data_result::<u8>(f, r) && n->U8_0 == c.pushed(
                    f.name.as_name_spec(),
                    None,
                    r,
                )
        }),
        LeafState::U16(c) => n is U16 && (if c.outcome is Some {
            n->U16_0 == c.counted()
        } else {
            exists|r: Result<u16, Seq<ErrorView>>|
                #[trigger] data_result::<u16>(f, r) && n->U16_0 == c.pushed(
                    f.name.as_name_spec(),
                    None,
                    r,
                )
        }),
        LeafState::U32(c) => n is U32 && (if c.outcome is Some {
            n->U32_0 == c.counted()
        } else {
            exists|r: Result<u32, Seq<ErrorView>>|
                #[trigger] data_result::<u32>(f, r) && n->U32_0 == c.pushed(
                    f.name.as_name_spec(),
                    None,
                    r,
                )
        }),
        LeafState::U64(c) => n is U64 && (if c.outcome is Some {
            n->U64_0 == c.counted()
        } else {
            exists|r: Result<u64, Seq<ErrorView>>|
                #[trigger] data_result::<u64>(f, r) && n->U64_0 == c.pushed(
                    f.name.as_name_spec(),
                    None,
                    r,
                )
        }),
        LeafState::I32(c) => n is I32 && (if c.outcome is Some {
            n->I32_0 == c.counted()
        } else {
            exists|r: Result<i32, Seq<ErrorView>>|
                #[trigger] data_result::<i32>(f, r) && n->I32_0 == c.pushed(
                    f.name.as_name_spec(),
                    None,
                    r,
                )
        }),
        LeafState::I64(c) => n is I64 && (if c.outcome is Some {
            n->I64_0 == c.counted()
        } else {
            exists|r: Result<i64, Seq<ErrorView>>|
                #[trigger] data_result::<i64>(f, r) && n->I64_0 == c.pushed(
                    f.name.as_name_spec(),
                    None,
                    r,
                )
        }),
        LeafState::Text(c) => n is Text && (if c.outcome is Some {
            n->Text_0 == c.counted()
        } else {
            exists|r: Result<String, Seq<ErrorView>>|
                #[trigger] data_result::<String>(f, r) && n->Text_0 == c.pushed(
                    f.name.as_name_spec(),
                    None,
                    r,
                )
        }),
        LeafState::CappedText(c) => n is CappedText && (if c.outcome is Some {
            n->CappedText_0 == c.counted()
        } else {
            exists|r: Result<Capped<String>, Seq<ErrorView>>|
                #[trigger] data_result::<Capped<String>>(f, r) && n->CappedText_0 == c.pushed(
                    f.name.as_name_spec(),
                    None,
                    r,
                )
        }),
        LeafState::Date(c) => n is Date && (if c.outcome is Some {
            n->Date_0 == c.counted()
        } else {
            exists|r: Result<Date, Seq<ErrorView>>|
                #[trigger] data_result::<Date>(f, r) && n->Date_0 == c.pushed(
                    f.name.as_name_spec(),
                    None,
                    r,
                )
        }),
        LeafState::Time(c) => n is Time && (if c.outcome is Some {
            n->Time_0 == c.counted()
        } else {
            exists|r: Result<Time, Seq<ErrorView>>|
                #[trigger] data_result::<Time>(f, r) && n->Time_0 == c.pushed(
                    f.name.as_name_spec(),
                    None,
                    r,
                )
        }),
        LeafState::DateTime(c) => n is DateTime && (if c.outcome is Some {
            n->DateTime_0 == c.counted()
        } else {
            exists|r: Result<DateTime, Seq<ErrorView>>|
                #[trigger] data_result::<DateTime>(f, r) && n->DateTime_0 == c.pushed(
                    f.name.as_name_spec(),
                    None,
                    r,
                )
        }),
        LeafState::File(c) => n is File && (if c.outcome is Some {
            n->File_0 == c.counted()
        } else {
            exists|r: Result<TempFile, Seq<ErrorView>>|
                #[trigger] data_result::<TempFile>(f, r) && n->File_0 == c.pushed(
                    f.name.as_name_spec(),
                    None,
                    r,
                )
        }),
        LeafState::CappedFile(c) => n is CappedFile && (if c.outcome is Some {
            n->CappedFile_0 == c.counted()
        } else {
            exists|r: Result<Capped<TempFile>, Seq<ErrorView>>|
                #[trigger] data_result::<Capped<TempFile>>(f, r) && n->CappedFile_0 == c.pushed(
                    f.name.as_name_spec(),
                    None,
                    r,
                )
        }),
    }
}

/// What finalizing a field in state `s` yields.
pub open spec fn leaf_outcome(s: LeafState) -> Result<FormValue, Seq<ErrorView>> {
    match s {
        LeafState::Bool(c) => match c.finalize_spec() {
            Ok(x) => Ok(FormValue::Bool(x)),
            Err(e) => Err(e),
        },
        LeafState::U8(c) => match c.finalize_spec() {
            Ok(x) => Ok(FormValue::U8(x)),
            Err(e) => Err(e),
        },
        LeafState::U16(c) => match c.finalize_spec() {
            Ok(x) => Ok(FormValue::U16(x)),
            Err(e) => Err(e),
        },
        LeafState::U32(c) => match c.finalize_spec() {
            Ok(x) => Ok(FormValue::U32(x)),
            Err(e) => Err(e),
        },
        LeafState::U64(c) => match c.finalize_spec() {
            Ok(x) => Ok(FormValue::U64(x)),
            Err(e) => Err(e),
        },
        LeafState::I32(c) => match c.finalize_spec() {
            Ok(x) => Ok(FormValue::I32(x)),
            Err(e) => Err(e),
        },
        LeafState::I64(c) => match c.finalize_spec() {
            Ok(x) => Ok(FormValue::I64(x)),
            Err(e) => Err(e),
        },
        LeafState::Text(c) => match c.finalize_spec() {
            Ok(x) => Ok(FormValue::Text(x)),
            Err(e) => Err(e),
        },
        LeafState::CappedText(c) => match c.finalize_spec() {
            Ok(x) => Ok(FormValue::CappedText(x)),
            Err(e) => Err(e),
        },
        LeafState::Date(c) => match c.finalize_spec() {
            Ok(x) => Ok(FormValue::Date(x)),
            Err(e) => Err(e),
        },
        LeafState::Time(c) => match c.finalize_spec() {
            Ok(x) => Ok(FormValue::Time(x)),
            Err(e) => Err(e),
        },
        LeafState::DateTime(c) => match c.finalize_spec() {
            Ok(x) => Ok(FormValue::DateTime(x)),
            Err(e) => Err(e),
        },
        LeafState::File(c) => match c.finalize_spec() {
            Ok(x) => Ok(FormValue::File(x)),
            Err(e) => Err(e),
        },
        LeafState::CappedFile(c) => match c.finalize_spec() {
            Ok(x) => Ok(FormValue::CappedFile(x)),
            Err(e) => Err(e),
        },
    }
}

/// The length in bytes of a text or file value.
pub open spec fn value_len(v: FormValue) -> Option<int> {
    match v {
        FormValue::Text(s) => Some(byte_len(s@) as int),
        FormValue::CappedText(c) => Some(byte_len(c.value@) as int),
        FormValue::File(f) => Some(f.len as int),
        FormValue::CappedFile(c) => Some(c.value.len as int),
        _ => None,
    }
}

/// The number that an integer value holds.
pub open spec fn value_int(v: FormValue) -> Option<int> {
    match v {
        FormValue::U8(x) => Some(x as int),
        FormValue::U16(x) => Some(x as int),
        FormValue::U32(x) => Some(x as int),
        FormValue::U64(x) => Some(x as int),
        FormValue::I32(x) => Some(x as int),
        FormValue::I64(x) => Some(x as int),
        _ => None,
    }
}

impl FormValue {
    /// The length in bytes of a text or file value.
    pub fn len_of(&self) -> (r: Option<u64>)
        ensures
            match r {
                Some(l) => value_len(*self) == Some(l as int),
                None => value_len(*self) is None,
            },
    {
        match self {
            FormValue::Text(s) => Some(s.as_str().len() as u64),
            FormValue::CappedText(c) => Some(c.value.as_str().len() as u64),
            FormValue::File(f) => Some(f.len),
            FormValue::CappedFile(c) => Some(c.value.len),
            _ => None,
        }
    }

    /// The number that an integer value holds.
    pub fn int_of(&self) -> (r: Option<i128>)
        ensures
            match r {
                Some(x) => value_int(*self) == Some(x as int),
                None => value_int(*self) is None,
            },
    {
        match self {
            FormValue::U8(x) => Some(*x as i128),
            FormValue::U16(x) => Some(*x as i128),
            FormValue::U32(x) => Some(*x as i128),
            FormValue::U64(x) => Some(*x as i128),
            FormValue::I32(x) => Some(*x as i128),
            FormValue::I64(x) => Some(*x as i128),
            _ => None,
        }
    }
}

impl LeafContext {
    pub open spec fn wf(&self) -> bool {
        match self {
            LeafContext::Bool(c) => c.wf(),
            LeafContext::U8(c) => c.wf(),
            LeafContext::U16(c) => c.wf(),
            LeafContext::U32(c) => c.wf(),
            LeafContext::U64(c) => c.wf(),
            LeafContext::I32(c) => c.wf(),
            LeafContext::I64(c) => c.wf(),
            LeafContext::Text(c) => c.wf(),
            LeafContext::CappedText(c) => c.wf(),
            LeafContext::Date(c) => c.wf(),
            LeafContext::Time(c) => c.wf(),
            LeafContext::DateTime(c) => c.wf(),
            LeafContext::File(c) => c.wf(),
            LeafContext::CappedFile(c) => c.wf(),
        }
    }

    /// The context of a field of `kind` that has seen no push.
    pub fn init(kind: FieldKind, opts: Options) -> (r: LeafContext)
        ensures
            r.wf(),
            r@ == fresh_state(kind, opts.strict),
    {
        match kind {
            FieldKind::Bool => LeafContext::Bool(FromFieldContext::<bool>::init(opts)),
            FieldKind::U8 => LeafContext::U8(FromFieldContext::<u8>::init(opts)),
            FieldKind::U16 => LeafContext::U16(FromFieldContext::<u16>::init(opts)),
            FieldKind::U32 => LeafContext::U32(FromFieldContext::<u32>::init(opts)),
            FieldKind::U64 => LeafContext::U64(FromFieldContext::<u64>::init(opts)),
            FieldKind::I32 => LeafContext::I32(FromFieldContext::<i32>::init(opts)),
            FieldKind::I64 => LeafContext::I64(FromFieldContext::<i64>::init(opts)),
            FieldKind::Text => LeafContext::Text(FromFieldContext::<String>::init(opts)),
            FieldKind::CappedText => LeafContext::CappedText(FromFieldContext::<Capped<String>>::init(opts)),
            FieldKind::Date => LeafContext::Date(FromFieldContext::<Date>::init(opts)),
            FieldKind::Time => LeafContext::Time(FromFieldContext::<Time>::init(opts)),
            FieldKind::DateTime => LeafContext::DateTime(FromFieldContext::<DateTime>::init(opts)),
            FieldKind::File => LeafContext::File(FromFieldContext::<TempFile>::init(opts)),
            FieldKind::CappedFile => LeafContext::CappedFile(FromFieldContext::<Capped<TempFile>>::init(opts)),
        }
    }

    pub fn push_value(&mut self, field: &ValueField)
        requires
            old(self).wf(),
            field.name.wf(),
        ensures
            final(self).wf(),
            final(self)@ == leaf_pushed_value(old(self)@, *field),
    {
        match self {
            LeafContext::Bool(c) => c.push_value(field),
            LeafContext::U8(c) => c.push_value(field),
            LeafContext::U16(c) => c.push_value(field),
            LeafContext::U32(c) => c.push_value(field),
            LeafContext::U64(c) => c.push_value(field),
            LeafContext::I32(c) => c.push_value(field),
            LeafContext::I64(c) => c.push_value(field),
            LeafContext::Text(c) => c.push_value(field),
            LeafContext::CappedText(c) => c.push_value(field),
            LeafContext::Date(c) => c.push_value(field),
            LeafContext::Time(c) => c.push_value(field),
            LeafContext::DateTime(c) => c.push_value(field),
            LeafContext::File(c) => c.push_value(field),
            LeafContext::CappedFile(c) => c.push_value(field),
        }
    }

    pub fn push_data(&mut self, field: &DataField)
        requires
            old(self).wf(),
            field.name.wf(),
        ensures
            final(self).wf(),
            leaf_pushed_data(old(self)@, *field, final(self)@),
    {
        match self {
            LeafContext::Bool(c) => c.push_data(field),
            LeafContext::U8(c) => c.push_data(field),
            LeafContext::U16(c) => c.push_data(field),
            LeafContext::U32(c) => c.push_data(field),
            LeafContext::U64(c) => c.push_data(field),
            LeafContext::I32(c) => c.push_data(field),
            LeafContext::I64(c) => c.push_data(field),
            LeafContext::Text(c) => c.push_data(field),
            LeafContext::CappedText(c) => c.push_data(field),
            LeafContext::Date(c) => c.push_data(field),
            LeafContext::Time(c) => c.push_data(field),
            LeafContext::DateTime(c) => c.push_data(field),
            LeafContext::File(c) => c.push_data(field),
            LeafContext::CappedFile(c) => c.push_data(field),
        }
    }

    pub fn finalize(self) -> (r: Result<FormValue, Errors>)
        requires
            self.wf(),
        ensures
            outcome_view(r) == leaf_outcome(self@),
    {
        match self {
            LeafContext::Bool(c) => match c.finalize() {
                Ok(x) => Ok(FormValue::Bool(x)),
                Err(e) => Err(e),
            },
            LeafContext::U8(c) => match c.finalize() {
                Ok(x) => Ok(FormValue::U8(x)),
                Err(e) => Err(e),
            },
            LeafContext::U16(c) => match c.finalize() {
                Ok(x) => Ok(FormValue::U16(x)),
                Err(e) => Err(e),
            },
            LeafContext::U32(c) => match c.finalize() {
                Ok(x) => Ok(FormValue::U32(x)),
                Err(e) => Err(e),
            },
            LeafContext::U64(c) => match c.finalize() {
                Ok(x) => Ok(FormValue::U64(x)),
                Err(e) => Err(e),
            },
            LeafContext::I32(c) => match c.finalize() {
                Ok(x) => Ok(FormValue::I32(x)),
                Err(e) => Err(e),
            },
            LeafContext::I64(c) => match c.finalize() {
                Ok(x) => Ok(FormValue::I64(x)),
                Err(e) => Err(e),
            },
            LeafContext::Text(c) => match c.finalize() {
                Ok(x) => Ok(FormValue::Text(x)),
                Err(e) => Err(e),
            },
            LeafContext::CappedText(c) => match c.finalize() {
                Ok(x) => Ok(FormValue::CappedText(x)),
                Err(e) => Err(e),
            },
            LeafContext::Date(c) => match c.finalize() {
                Ok(x) => Ok(FormValue::Date(x)),
                Err(e) => Err(e),
            },
            LeafContext::Time(c) => match c.finalize() {
                Ok(x) => Ok(FormValue::Time(x)),
                Err(e) => Err(e),
            },
            LeafContext::DateTime(c) => match c.finalize() {
                Ok(x) => Ok(FormValue::DateTime(x)),
                Err(e) => Err(e),
            },
            LeafContext::File(c) => match c.finalize() {
                Ok(x) => Ok(FormValue::File(x)),
                Err(e) => Err(e),
            },
            LeafContext::CappedFile(c) => match c.finalize() {
                Ok(x) => Ok(FormValue::CappedFile(x)),
                Err(e) => Err(e),
            },
        }
    }
}


/// What binding the value field `f` to a field of `kind` yields.
pub open spec fn value_outcome(kind: FieldKind, f: ValueField) -> Result<FormValue, Seq<ErrorView>> {
    match kind {
        FieldKind::Bool => match <bool as FromFormField>::from_value_spec(f) {
            Ok(x) => Ok(FormValue::Bool(x)),
            Err(e) => Err(e),
        },
        FieldKind::U8 => match <u8 as FromFormField>::from_value_spec(f) {
            Ok(x) => Ok(FormValue::U8(x)),
            Err(e) => Err(e),
        },
        FieldKind::U16 => match <u16 as FromFormField>::from_value_spec(f) {
            Ok(x) => Ok(FormValue::U16(x)),
            Err(e) => Err(e),
        },
        FieldKind::U32 => match <u32 as FromFormField>::from_value_spec(f) {
            Ok(x) => Ok(FormValue::U32(x)),
            Err(e) => Err(e),
        },
        FieldKind::U64 => match <u64 as FromFormField>::from_value_spec(f) {
            Ok(x) => Ok(FormValue::U64(x)),
            Err(e) => Err(e),
        },
        FieldKind::I32 => match <i32 as FromFormField>::from_value_spec(f) {
            Ok(x) => Ok(FormValue::I32(x)),
            Err(e) => Err(e),
        },
        FieldKind::I64 => match <i64 as FromFormField>::from_value_spec(f) {
            Ok(x) => Ok(FormValue::I64(x)),
            Err(e) => Err(e),
        },
        FieldKind::Text => match <String as FromFormField>::from_value_spec(f) {
            Ok(x) => Ok(FormValue::Text(x)),
            Err(e) => Err(e),
        },
        FieldKind::CappedText => match <Capped<String> as FromFormField>::from_value_spec(f) {
            Ok(x) => Ok(FormValue::CappedText(x)),
            Err(e) => Err(e),
        },
        FieldKind::Date => match <Date as FromFormField>::from_value_spec(f) {
            Ok(x) => Ok(FormValue::Date(x)),
            Err(e) => Err(e),
        },
        FieldKind::Time => match <Time as FromFormField>::from_value_spec(f) {
            Ok(x) => Ok(FormValue::Time(x)),
            Err(e) => Err(e),
        },
        FieldKind::DateTime => match <DateTime as FromFormField>::from_value_spec(f) {
            Ok(x) => Ok(FormValue::DateTime(x)),
            Err(e) => Err(e),
        },
        FieldKind::File => match <TempFile as FromFormField>::from_value_spec(f) {
            Ok(x) => Ok(FormValue::File(x)),
            Err(e) => Err(e),
        },
        FieldKind::CappedFile => match <Capped<TempFile> as FromFormField>::from_value_spec(f) {
            Ok(x) => Ok(FormValue::CappedFile(x)),
            Err(e) => Err(e),
        },
    }
}

/// Whether a field in state `s` has recorded an outcome.
pub open spec fn has_outcome(s: LeafState) -> bool {
    match s {
        LeafState::Bool(c) => c.outcome is Some,
        LeafState::U8(c) => c.outcome is Some,
        LeafState::U16(c) => c.outcome is Some,
        LeafState::U32(c) => c.outcome is Some,
        LeafState::U64(c) => c.outcome is Some,
        LeafState::I32(c) => c.outcome is Some,
        LeafState::I64(c) => c.outcome is Some,
        LeafState::Text(c) => c.outcome is Some,
        LeafState::CappedText(c) => c.outcome is Some,
        LeafState::Date(c) => c.outcome is Some,
        LeafState::Time(c) => c.outcome is Some,
        LeafState::DateTime(c) => c.outcome is Some,
        LeafState::File(c) => c.outcome is Some,
        LeafState::CappedFile(c) => c.outcome is Some,
    }
}

/// Whether a field in state `s` has seen no push, or parses leniently.
pub open spec fn unrepeated(s: LeafState) -> bool {
    match s {
        LeafState::Bool(c) => !c.strict || c.pushes == 0,
        LeafState::U8(c) => !c.strict || c.pushes == 0,
        LeafState::U16(c) => !c.strict || c.pushes == 0,
        LeafState::U32(c) => !c.strict || c.pushes == 0,
        LeafState::U64(c) => !c.strict || c.pushes == 0,
        LeafState::I32(c) => !c.strict || c.pushes == 0,
        LeafState::I64(c) => !c.strict || c.pushes == 0,
        LeafState::Text(c) => !c.strict || c.pushes == 0,
        LeafState::CappedText(c) => !c.strict || c.pushes == 0,
        LeafState::Date(c) => !c.strict || c.pushes == 0,
        LeafState::Time(c) => !c.strict || c.pushes == 0,
        LeafState::DateTime(c) => !c.strict || c.pushes == 0,
        LeafState::File(c) => !c.strict || c.pushes == 0,
        LeafState::CappedFile(c) => !c.strict || c.pushes == 0,
    }
}

/// A field that had recorded nothing, pushed a value that fails with `e`,
/// finalizes to `e` located at the path it was pushed under and carrying
/// the value's text.
pub proof fn lemma_pushed_failure(s: LeafState, f: ValueField, e: Seq<ErrorView>)
    requires
        !has_outcome(s),
        unrepeated(s),
        !nested(f.name),
        value_outcome(state_kind(s), f) == Err::<FormValue, Seq<ErrorView>>(e),
        e.len() > 0,
        e.last().kind != KindView::Unexpected,
    ensures
        leaf_outcome(leaf_pushed_value(s, f)) == Err::<FormValue, Seq<ErrorView>>(
            annotated(e, Some(f.name.as_name_spec()), Some(f.value@)),
        ),
{
}

} // verus!
