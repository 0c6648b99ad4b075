//! The composite binder: a form declares its fields by path and kind, routes
//! each event to the field whose path the event's name begins with, and
//! gathers every field's outcome into the form's value or into all of its
//! errors.

use vstd::prelude::*;
use crate::error::{
    all_named, ConversionCause, bare, named, opt_view, ErrorKind, ErrorView, Errors, FormError, KindView,
};
use crate::field::{DataField, Options, ValueField};
use crate::from_form_field::{annotated, outcome_view};
use crate::name::{key_of, lemma_segment_end_bounds, segment_end, NameView};
use crate::text::same_text;
use crate::value::{
    fresh_state, has_outcome, leaf_outcome, leaf_pushed_data, leaf_pushed_value,
    lemma_pushed_failure, state_kind, unrepeated, value_int, value_outcome,
    value_len, FieldKind, FormValue, LeafContext, LeafState,
};

verus! {

/// A check on a bound value.
#[derive(Clone, Copy, Debug, PartialEq, Eq, Structural)]
pub enum Validator {
    /// The text or file is `min..=max` bytes long.
    Len { min: u64, max: u64 },
    /// The integer lies in `low..=high`.
    Range { low: i128, high: i128 },
}

/// A declared field: its path (such as `address.city`), the kind it binds
/// to, and the check its value must pass once the form has bound.
#[derive(Debug)]
pub struct FieldDecl {
    pub name: String,
    pub kind: FieldKind,
    pub validator: Option<Validator>,
}

/// Whether a form declaration is usable: it declares at least one field,
/// and no two fields under the same path.
pub open spec fn schema_ok(schema: Seq<FieldDecl>) -> bool {
    &&& schema.len() > 0
    &&& forall|i: int, j: int|
        0 <= i < j < schema.len() ==> #[trigger] schema[i].name@ != #[trigger] schema[j].name@
}

/// Says whether a form declaration is usable.
pub fn check_schema(schema: &Vec<FieldDecl>) -> (r: bool)
    ensures
        r == schema_ok(schema@),
{
    let n = schema.len();
    if n == 0 {
        return false;
    }
    let mut j: usize = 1;
    while j < n
        invariant
            n == schema@.len(),
            1 <= j <= n,
            forall|a: int, b: int| 0 <= a < b < j ==> #[trigger] schema@[a].name@ != #[trigger] schema@[b].name@,
        decreases n - j,
    {
        let mut i: usize = 0;
        while i < j
            invariant
                n == schema@.len(),
                i <= j < n,
                forall|a: int, b: int| 0 <= a < b < j ==> #[trigger] schema@[a].name@ != #[trigger] schema@[b].name@,
                forall|a: int| 0 <= a < i ==> #[trigger] schema@[a].name@ != schema@[j as int].name@,
            decreases j - i,
        {
            if same_text(schema[i].name.as_str(), schema[j].name.as_str()) {
                return false;
            }
            i = i + 1;
        }
        j = j + 1;
    }
    true
}

/// Why `v` fails `val`, if it does.
pub open spec fn check_spec(val: Validator, v: FormValue) -> Option<Seq<char>> {
    match val {
        Validator::Len { min, max } => match value_len(v) {
            Some(l) => if min <= l && l <= max {
                None
            } else {
                Some("length is out of range"@)
            },
            None => Some("value has no length"@),
        },
        Validator::Range { low, high } => match value_int(v) {
            Some(x) => if low <= x && x <= high {
                None
            } else {
                Some("value is out of range"@)
            },
            None => Some("value is not an integer"@),
        },
    }
}

/// Says why `v` fails `val`, if it does.
pub fn check(val: &Validator, v: &FormValue) -> (r: Option<String>)
    ensures
        opt_view(r) == check_spec(*val, *v),
{
    match val {
        Validator::Len { min, max } => match v.len_of() {
            Some(l) => if *min <= l && l <= *max {
                None
            } else {
                Some(String::from_str("length is out of range"))
            },
            None => Some(String::from_str("value has no length")),
        },
        Validator::Range { low, high } => match v.int_of() {
            Some(x) => if *low <= x && x <= *high {
                None
            } else {
                Some(String::from_str("value is out of range"))
            },
            None => Some(String::from_str("value is not an integer")),
        },
    }
}

/// A check on the values of two declared fields, by index, once the whole
/// form has bound; a failure is located at the first field.
#[derive(Clone, Copy, Debug, PartialEq, Eq, Structural)]
pub enum FormCheck {
    /// The two fields hold the same text, or the same integer.
    Same { field: usize, other: usize },
    /// The first field holds a smaller integer than the second.
    Less { field: usize, other: usize },
}

/// The text of a text value.
pub open spec fn value_text(v: FormValue) -> Option<Seq<char>> {
    match v {
        FormValue::Text(s) => Some(s@),
        FormValue::CappedText(c) => Some(c.value@),
        _ => None,
    }
}

fn text_of(v: &FormValue) -> (r: Option<&String>)
    ensures
        match r {
            Some(s) => value_text(*v) == Some(s@),
            None => value_text(*v) is None,
        },
{
    match v {
        FormValue::Text(s) => Some(s),
        FormValue::CappedText(c) => Some(&c.value),
        _ => None,
    }
}

/// Whether `a` and `b` are the same text or the same integer.
pub open spec fn same_value(a: FormValue, b: FormValue) -> bool {
    (value_text(a) is Some && value_text(a) == value_text(b)) || (value_int(a) is Some && value_int(a)
        == value_int(b))
}

/// The failure of the check `c` on the values `vals` of the fields of
/// `schema`, if it fails.
pub open spec fn form_check_spec(schema: Seq<FieldDecl>, vals: Seq<FormValue>, c: FormCheck) -> Option<ErrorView> {
    match c {
        FormCheck::Same { field, other } => if field >= vals.len() || other >= vals.len() || field
            >= schema.len() {
            Some(bare(KindView::Validation("refers to no declared field"@)))
        } else if same_value(vals[field as int], vals[other as int]) {
            None
        } else {
            Some(named(bare(KindView::Validation("does not match"@)), schema[field as int].name@))
        },
        FormCheck::Less { field, other } => if field >= vals.len() || other >= vals.len() || field
            >= schema.len() {
            Some(bare(KindView::Validation("refers to no declared field"@)))
        } else if value_int(vals[field as int]) is Some && value_int(vals[other as int]) is Some
            && value_int(vals[field as int])->0 < value_int(vals[other as int])->0 {
            None
        } else {
            Some(named(bare(KindView::Validation("is not less"@)), schema[field as int].name@))
        },
    }
}

fn same_value_exec(a: &FormValue, b: &FormValue) -> (r: bool)
    ensures
        r == same_value(*a, *b),
{
    let texts = match (text_of(a), text_of(b)) {
        (Some(x), Some(y)) => same_text(x.as_str(), y.as_str()),
        _ => false,
    };
    if texts {
        return true;
    }
    match (a.int_of(), b.int_of()) {
        (Some(x), Some(y)) => x == y,
        _ => false,
    }
}

/// Runs the check `c` on the values `vals` of the fields of `schema`.
pub fn run_form_check(schema: &Vec<FieldDecl>, vals: &Vec<FormValue>, c: &FormCheck) -> (r: Option<FormError>)
    ensures
        match r {
            Some(e) => form_check_spec(schema@, vals@, *c) == Some(e@),
            None => form_check_spec(schema@, vals@, *c) is None,
        },
{
    let (field, other, same) = match c {
        FormCheck::Same { field, other } => (*field, *other, true),
        FormCheck::Less { field, other } => (*field, *other, false),
    };
    if field >= vals.len() || other >= vals.len() || field >= schema.len() {
        return Some(FormError::new(ErrorKind::Validation(String::from_str("refers to no declared field"))));
    }
    let ok = if same {
        same_value_exec(&vals[field], &vals[other])
    } else {
        match (vals[field].int_of(), vals[other].int_of()) {
            (Some(x), Some(y)) => x < y,
            _ => false,
        }
    };
    if ok {
        None
    } else {
        let message = if same {
            String::from_str("does not match")
        } else {
            String::from_str("is not less")
        };
        Some(FormError { name: Some(schema[field].name.clone()), value: None, kind: ErrorKind::Validation(message) })
    }
}

/// Where no field failed, every field bound a value.
proof fn lemma_values_complete(schema: Seq<FieldDecl>, st: FormState, k: int)
    requires
        0 <= k,
        errors_upto(schema, st, k).len() == 0,
    ensures
        values_upto(schema, st, k).len() == k,
    decreases k,
{
    if k > 0 {
        let e = match field_outcome(schema[k - 1], st.children[k - 1], st.strict) {
            Ok(_) => Seq::<ErrorView>::empty(),
            Err(e) => e,
        };
        assert(errors_upto(schema, st, k) == errors_upto(schema, st, k - 1) + e);
        assert(all_named(Seq::<ErrorView>::empty(), schema[k - 1].name@).len() == 0);
        lemma_values_complete(schema, st, k - 1);
    }
}

/// Walks the event view `ev` along the keys of the declared path `d` from
/// position `ds`: the view that follows the path's last key, if the event's
/// keys begin with the path's.
pub open spec fn walk(d: Seq<char>, ds: int, ev: NameView) -> Option<NameView>
    decreases d.len() - ds,
{
    if ds < 0 || ds >= d.len() {
        Some(ev)
    } else {
        let de = segment_end(d, ds);
        if de <= ds || de > d.len() {
            None
        } else if key_of(d.subrange(ds, de)) == ev.key_spec() {
            walk(d, de, ev.shifted())
        } else {
            None
        }
    }
}

/// The first declared field from `i` on whose path the event's name begins
/// with, and the view that its binder receives.
pub open spec fn first_match(schema: Seq<FieldDecl>, ev: NameView, i: int) -> Option<(int, NameView)>
    decreases schema.len() - i,
{
    if i < 0 || i >= schema.len() {
        None
    } else {
        match walk(schema[i].name@, 0, ev) {
            Some(v) => Some((i, v)),
            None => first_match(schema, ev, i + 1),
        }
    }
}

proof fn lemma_first_match_bounds(schema: Seq<FieldDecl>, ev: NameView, i: int)
    ensures
        first_match(schema, ev, i) matches Some((j, v)) ==> i <= j < schema.len()
            && walk(schema[j].name@, 0, ev) == Some(v),
    decreases schema.len() - i,
{
    if 0 <= i < schema.len() && walk(schema[i].name@, 0, ev) is None {
        lemma_first_match_bounds(schema, ev, i + 1);
    }
}

fn walk_exec(d: &String, ev: &NameView) -> (r: Option<NameView>)
    requires
        ev.wf(),
    ensures
        r == walk(d@, 0, *ev),
        r matches Some(v) ==> v.wf() && v.name == ev.name,
{
    let mut dv = NameView::new(d.clone());
    let mut cur = ev.duplicate();
    while !dv.is_exhausted()
        invariant
            dv.wf(),
            dv.name@ == d@,
            cur.wf(),
            cur.name == ev.name,
            walk(d@, 0, *ev) == walk(d@, dv.start as int, cur),
        decreases d@.len() - dv.start,
    {
        proof {
            lemma_segment_end_bounds(d@, dv.start as int);
        }
        let dk = dv.key_lossy();
        let ek = cur.key_lossy();
        if dk != ek {
            return None;
        }
        dv = dv.shift();
        cur = cur.shift();
    }
    Some(cur)
}

fn first_match_exec(schema: &Vec<FieldDecl>, ev: &NameView) -> (r: Option<(usize, NameView)>)
    requires
        ev.wf(),
    ensures
        match r {
            Some((i, v)) => first_match(schema@, *ev, 0) == Some((i as int, v)) && i < schema@.len()
                && v.wf() && v.name == ev.name,
            None => first_match(schema@, *ev, 0) is None,
        },
{
    let n = schema.len();
    let mut i: usize = 0;
    while i < n
        invariant
            n == schema@.len(),
            i <= n,
            ev.wf(),
            first_match(schema@, *ev, 0) == first_match(schema@, *ev, i as int),
        decreases n - i,
    {
        match walk_exec(&schema[i].name, ev) {
            Some(v) => {
                proof {
                    lemma_first_match_bounds(schema@, *ev, 0);
                }
                return Some((i, v));
            },
            None => {},
        }
        i = i + 1;
    }
    None
}

pub open spec fn opt_state(c: Option<LeafContext>) -> Option<LeafState> {
    match c {
        Some(l) => Some(l@),
        None => None,
    }
}

/// The state of a field: what was pushed into it, or nothing yet.
pub open spec fn child_or_fresh(c: Option<LeafState>, kind: FieldKind, strict: bool) -> LeafState {
    match c {
        Some(s) => s,
        None => fresh_state(kind, strict),
    }
}

/// The mathematical form of a [`FormContext`].
pub struct FormState {
    pub strict: bool,
    /// Errors found while routing events, before any field is finalized.
    pub errors: Seq<ErrorView>,
    /// The state of each declared field, if an event reached it.
    pub children: Seq<Option<LeafState>>,
}

/// The key that a method-override field carries; such a field is accepted
/// and ignored whatever the strictness.
pub open spec fn method_key() -> Seq<char> {
    "_method"@
}

/// What routing an event named `ev`, with raw text `raw`, that matches no
/// declared field leaves: nothing changes for a method override or under
/// lenient parsing; under strict parsing it is an `Unknown` error.
pub open spec fn unmatched(st: FormState, ev: NameView, raw: Option<Seq<char>>) -> FormState {
    if ev.key_spec() == method_key() || !st.strict {
        st
    } else {
        FormState {
            errors: st.errors.push(ErrorView { name: Some(ev.name@), value: raw, kind: KindView::Unknown }),
            ..st
        }
    }
}

/// What pushing the value field `f` into a form in state `st` leaves.
pub open spec fn push_value_spec(schema: Seq<FieldDecl>, st: FormState, f: ValueField) -> FormState {
    match first_match(schema, f.name, 0) {
        Some((i, v)) => FormState {
            children: st.children.update(
                i,
                Some(
                    leaf_pushed_value(
                        child_or_fresh(st.children[i], schema[i].kind, st.strict),
                        ValueField { name: v, value: f.value },
                    ),
                ),
            ),
            ..st
        },
        None => unmatched(st, f.name, Some(f.value@)),
    }
}

/// Whether `n` is a state that pushing the data field `f` into a form in
/// state `st` may leave.
pub open spec fn push_data_spec(schema: Seq<FieldDecl>, st: FormState, f: DataField, n: FormState) -> bool {
    match first_match(schema, f.name, 0) {
        Some((i, v)) => exists|c: LeafState|
            #[trigger] leaf_pushed_data(
                child_or_fresh(st.children[i], schema[i].kind, st.strict),
                DataField { name: v, ..f },
                c,
            ) && n == FormState { children: st.children.update(i, Some(c)), ..st },
        None => n == unmatched(st, f.name, None),
    }
}

/// The outcome of one declared field: its binder's, with every error
/// located at the field's path unless it has a deeper location. A binder
/// that fails without saying why is reported as `Unknown`.
pub open spec fn field_outcome(decl: FieldDecl, c: Option<LeafState>, strict: bool) -> Result<FormValue, Seq<ErrorView>> {
    match leaf_outcome(child_or_fresh(c, decl.kind, strict)) {
        Ok(v) => Ok(v),
        Err(e) => if e.len() == 0 {
            Err(seq![named(bare(KindView::Unknown), decl.name@)])
        } else {
            Err(all_named(e, decl.name@))
        },
    }
}

/// The errors of the first `k` declared fields, in declaration order.
pub open spec fn errors_upto(schema: Seq<FieldDecl>, st: FormState, k: int) -> Seq<ErrorView>
    decreases k,
{
    if k <= 0 {
        Seq::empty()
    } else {
        errors_upto(schema, st, k - 1) + match field_outcome(schema[k - 1], st.children[k - 1], st.strict) {
            Ok(_) => Seq::empty(),
            Err(e) => e,
        }
    }
}

/// The values of the first `k` declared fields that bound one.
pub open spec fn values_upto(schema: Seq<FieldDecl>, st: FormState, k: int) -> Seq<FormValue>
    decreases k,
{
    if k <= 0 {
        Seq::empty()
    } else {
        values_upto(schema, st, k - 1) + match field_outcome(schema[k - 1], st.children[k - 1], st.strict) {
            Ok(v) => seq![v],
            Err(_) => Seq::empty(),
        }
    }
}

/// The failures of the field checks of the first `k` declared fields,
/// given the form's values.
pub open spec fn field_checks_upto(schema: Seq<FieldDecl>, vals: Seq<FormValue>, k: int) -> Seq<ErrorView>
    decreases k,
{
    if k <= 0 {
        Seq::empty()
    } else {
        field_checks_upto(schema, vals, k - 1) + match schema[k - 1].validator {
            Some(val) => match check_spec(val, vals[k - 1]) {
                Some(m) => seq![named(bare(KindView::Validation(m)), schema[k - 1].name@)],
                None => Seq::empty(),
            },
            None => Seq::empty(),
        }
    }
}

/// The failures of the first `k` form checks, given the form's values.
pub open spec fn form_checks_upto(
    schema: Seq<FieldDecl>,
    checks: Seq<FormCheck>,
    vals: Seq<FormValue>,
    k: int,
) -> Seq<ErrorView>
    decreases k,
{
    if k <= 0 {
        Seq::empty()
    } else {
        form_checks_upto(schema, checks, vals, k - 1) + match form_check_spec(schema, vals, checks[k - 1]) {
            Some(e) => seq![e],
            None => Seq::empty(),
        }
    }
}

/// What finalizing a form in state `st` yields. If routing or any field
/// failed: all those errors, those of routing first and then those of each
/// field in declaration order. Otherwise, with every field bound, the checks
/// run on the form's values: the failures of the field checks in declaration
/// order, then those of the form checks in order; with none, the values.
pub open spec fn finalize_spec(
    schema: Seq<FieldDecl>,
    checks: Seq<FormCheck>,
    st: FormState,
) -> Result<Seq<FormValue>, Seq<ErrorView>> {
    let es = st.errors + errors_upto(schema, st, schema.len() as int);
    if es.len() > 0 {
        Err(es)
    } else {
        let vals = values_upto(schema, st, schema.len() as int);
        let vs = field_checks_upto(schema, vals, schema.len() as int) + form_checks_upto(
            schema,
            checks,
            vals,
            checks.len() as int,
        );
        if vs.len() > 0 {
            Err(vs)
        } else {
            Ok(vals)
        }
    }
}

/// The context of a form: the errors found while routing, and the context
/// of each declared field that an event reached.
pub struct FormContext {
    pub opts: Options,
    pub errors: Errors,
    pub children: Vec<Option<LeafContext>>,
}

impl View for FormContext {
    type V = FormState;

    open spec fn view(&self) -> FormState {
        FormState {
            strict: self.opts.strict,
            errors: self.errors@,
            children: self.children@.map_values(|c: Option<LeafContext>| opt_state(c)),
        }
    }
}

fn finalize_field(decl: &FieldDecl, c: Option<LeafContext>, opts: Options) -> (r: Result<FormValue, Errors>)
    requires
        c matches Some(l) ==> l.wf(),
    ensures
        outcome_view(r) == field_outcome(*decl, opt_state(c), opts.strict),
{
    let leaf = match c {
        Some(l) => l,
        None => LeafContext::init(decl.kind, opts),
    };
    match leaf.finalize() {
        Ok(v) => Ok(v),
        Err(e) => {
            if e.is_empty() {
                let r = Errors::from_kind(ErrorKind::Unknown).with_name(&decl.name);
                assert(r@ =~= seq![named(bare(KindView::Unknown), decl.name@)]);
                Err(r)
            } else {
                Err(e.with_name(&decl.name))
            }
        },
    }
}

impl FormContext {
    /// Every present field context is well formed and of its declared kind.
    pub open spec fn wf(&self, schema: Seq<FieldDecl>) -> bool {
        &&& self.children@.len() == schema.len()
        &&& forall|i: int|
            0 <= i < schema.len() ==> (#[trigger] self.children@[i] matches Some(c) ==> c.wf()
                && state_kind(c@) == schema[i].kind)
    }

    /// The context of a form that has seen no event.
    pub fn init(schema: &Vec<FieldDecl>, opts: Options) -> (r: FormContext)
        ensures
            r.wf(schema@),
            r@.strict == opts.strict,
            r@.errors == Seq::<ErrorView>::empty(),
            r@.children == Seq::new(schema@.len(), |i: int| None::<LeafState>),
    {
        let n = schema.len();
        let mut children: Vec<Option<LeafContext>> = Vec::new();
        let mut i: usize = 0;
        while i < n
            invariant
                n == schema@.len(),
                i <= n,
                children@.len() == i,
                forall|j: int| 0 <= j < i ==> #[trigger] children@[j] is None,
            decreases n - i,
        {
            children.push(None);
            i = i + 1;
        }
        let r = FormContext { opts, errors: Errors::new(), children };
        assert(r@.children =~= Seq::new(schema@.len(), |i: int| None::<LeafState>));
        r
    }

    /// Routes the value field `field` to the declared field it names.
    pub fn push_value(&mut self, schema: &Vec<FieldDecl>, field: ValueField)
        requires
            old(self).wf(schema@),
            field.name.wf(),
        ensures
            final(self).wf(schema@),
            final(self)@ == push_value_spec(schema@, old(self)@, field),
    {
        let key = field.name.key_lossy();
        match first_match_exec(schema, &field.name) {
            Some((i, v)) => {
                let c = self.children.remove(i);
                let mut child = match c {
                    Some(c) => c,
                    None => LeafContext::init(schema[i].kind, self.opts),
                };
                let sub = ValueField { name: v, value: field.value };
                child.push_value(&sub);
                self.children.insert(i, Some(child));
                proof {
                    assert(self@.children =~= old(self)@.children.update(
                        i as int,
                        Some(child@),
                    ));
                    assert forall|j: int| 0 <= j < schema@.len() implies (#[trigger] self.children@[j] matches Some(c) ==> c.wf()
                        && state_kind(c@) == schema@[j].kind) by {
                        if j != i {
                            assert(self.children@[j] == old(self).children@[j]);
                        }
                    }
                }
            },
            None => {
                if same_text(key.as_str(), "_method") || !self.opts.strict {
                } else {
                    self.errors.push(FormError {
                        name: Some(field.name.name),
                        value: Some(field.value),
                        kind: ErrorKind::Unknown,
                    });
                }
            },
        }
    }

    /// Routes the data field `field` to the declared field it names.
    pub fn push_data(&mut self, schema: &Vec<FieldDecl>, field: DataField)
        requires
            old(self).wf(schema@),
            field.name.wf(),
        ensures
            final(self).wf(schema@),
            push_data_spec(schema@, old(self)@, field, final(self)@),
    {
        let key = field.name.key_lossy();
        match first_match_exec(schema, &field.name) {
            Some((i, v)) => {
                let c = self.children.remove(i);
                let mut child = match c {
                    Some(c) => c,
                    None => LeafContext::init(schema[i].kind, self.opts),
                };
                let ghost before = child@;
                let sub = DataField { name: v, ..field };
                child.push_data(&sub);
                self.children.insert(i, Some(child));
                proof {
                    assert(self@.children =~= old(self)@.children.update(
                        i as int,
                        Some(child@),
                    ));
                    assert(leaf_pushed_data(before, sub, child@));
                    assert forall|j: int| 0 <= j < schema@.len() implies (#[trigger] self.children@[j] matches Some(c) ==> c.wf()
                        && state_kind(c@) == schema@[j].kind) by {
                        if j != i {
                            assert(self.children@[j] == old(self).children@[j]);
                        }
                    }
                }
            },
            None => {
                if same_text(key.as_str(), "_method") || !self.opts.strict {
                } else {
                    self.errors.push(FormError {
                        name: Some(field.name.name),
                        value: None,
                        kind: ErrorKind::Unknown,
                    });
                }
            },
        }
    }

    /// Every field's value in declaration order, or every error; the
    /// checks run only once every field has bound.
    pub fn finalize(self, schema: &Vec<FieldDecl>, checks: &Vec<FormCheck>) -> (r: Result<Vec<FormValue>, Errors>)
        requires
            self.wf(schema@),
        ensures
            match r {
                Ok(vs) => finalize_spec(schema@, checks@, self@) == Ok::<Seq<FormValue>, Seq<ErrorView>>(vs@),
                Err(e) => finalize_spec(schema@, checks@, self@) == Err::<Seq<FormValue>, Seq<ErrorView>>(e@),
            },
    {
        let ghost st = self@;
        let FormContext { opts, errors, children } = self;
        let mut errors = errors;
        let mut values: Vec<FormValue> = Vec::new();
        let mut rest = children;
        let n = schema.len();
        let mut i: usize = 0;
        while i < n
            invariant
                n == schema@.len(),
                i <= n,
                rest@.len() == n - i,
                st.children.len() == n,
                opts.strict == st.strict,
                forall|j: int|
                    0 <= j < n - i ==> opt_state(#[trigger] rest@[j]) == st.children[i + j] && (
                    rest@[j] matches Some(c) ==> c.wf()),
                errors@ == st.errors + errors_upto(schema@, st, i as int),
                values@ == values_upto(schema@, st, i as int),
            decreases n - i,
        {
            proof {
                assert(opt_state(rest@[0]) == st.children[i as int]);
            }
            let ghost rest_before = rest@;
            let c = rest.remove(0);
            let r = finalize_field(&schema[i], c, opts);
            match r {
                Ok(v) => {
                    values.push(v);
                },
                Err(e) => {
                    errors.extend(e);
                },
            }
            proof {
                assert(errors@ =~= st.errors + errors_upto(schema@, st, i + 1));
                assert(values@ =~= values_upto(schema@, st, i + 1));
                assert forall|j: int| 0 <= j < n - (i + 1) implies opt_state(#[trigger] rest@[j]) == st.children[(i + 1) + j] && (
                    rest@[j] matches Some(c) ==> c.wf()) by {
                    assert(rest@[j] == rest_before[j + 1]);
                }
            }
            i = i + 1;
        }
        if !errors.is_empty() {
            return Err(errors);
        }
        proof {
            lemma_values_complete(schema@, st, n as int);
        }
        let ghost vals = values@;
        let mut failures = Errors::new();
        let mut i: usize = 0;
        while i < n
            invariant
                n == schema@.len(),
                i <= n,
                values@ == vals,
                vals.len() == n,
                failures@ == field_checks_upto(schema@, vals, i as int),
            decreases n - i,
        {
            match &schema[i].validator {
                Some(val) => match check(val, &values[i]) {
                    Some(m) => {
                        failures.push(FormError { name: Some(schema[i].name.clone()), value: None, kind: ErrorKind::Validation(m) });
                    },
                    None => {},
                },
                None => {},
            }
            proof {
                assert(failures@ =~= field_checks_upto(schema@, vals, i + 1));
            }
            i = i + 1;
        }
        let ghost field_failures = failures@;
        let m = checks.len();
        let mut k: usize = 0;
        while k < m
            invariant
                m == checks@.len(),
                n == schema@.len(),
                k <= m,
                values@ == vals,
                vals.len() == n,
                failures@ == field_failures + form_checks_upto(schema@, checks@, vals, k as int),
            decreases m - k,
        {
            match run_form_check(schema, &values, &checks[k]) {
                Some(e) => {
                    failures.push(e);
                },
                None => {},
            }
            proof {
                assert(failures@ =~= field_failures + form_checks_upto(schema@, checks@, vals, k + 1));
            }
            k = k + 1;
        }
        if failures.is_empty() {
            Ok(values)
        } else {
            Err(failures)
        }
    }
}

/// Under lenient parsing, an event whose name matches no declared field
/// leaves the form as it was, so finalizing gives what it gives without the
/// event: the event's data is in no field.
pub proof fn lemma_lenient_ignores_unknown_value(
    schema: Seq<FieldDecl>,
    checks: Seq<FormCheck>,
    st: FormState,
    f: ValueField,
)
    requires
        !st.strict,
        first_match(schema, f.name, 0) is None,
    ensures
        push_value_spec(schema, st, f) == st,
        finalize_spec(schema, checks, push_value_spec(schema, st, f)) == finalize_spec(schema, checks, st),
{
}

/// The same for a data event.
pub proof fn lemma_lenient_ignores_unknown_data(
    schema: Seq<FieldDecl>,
    checks: Seq<FormCheck>,
    st: FormState,
    f: DataField,
    n: FormState,
)
    requires
        !st.strict,
        first_match(schema, f.name, 0) is None,
        push_data_spec(schema, st, f, n),
    ensures
        n == st,
        finalize_spec(schema, checks, n) == finalize_spec(schema, checks, st),
{
}

proof fn lemma_walk_same_name(d: Seq<char>, ev: NameView)
    requires
        ev.wf(),
        ev.name@ == d,
    ensures
        walk(d, ev.start as int, ev) matches Some(v) && v.wf() && v.name == ev.name && v.start == d.len()
            && v.end == d.len(),
    decreases d.len() - ev.start,
{
    lemma_segment_end_bounds(d, ev.start as int);
    if ev.start < d.len() {
        lemma_segment_end_bounds(d, ev.end as int);
        lemma_walk_same_name(d, ev.shifted());
    }
}

proof fn lemma_first_match_at(schema: Seq<FieldDecl>, ev: NameView, i: int, k: int)
    requires
        0 <= k <= i < schema.len(),
        walk(schema[i].name@, 0, ev) is Some,
        forall|j: int| 0 <= j < i ==> #[trigger] walk(schema[j].name@, 0, ev) is None,
    ensures
        first_match(schema, ev, k) == Some((i, walk(schema[i].name@, 0, ev)->0)),
    decreases i - k,
{
    if k < i {
        lemma_first_match_at(schema, ev, i, k + 1);
    }
}

proof fn lemma_errors_prefix(schema: Seq<FieldDecl>, st: FormState, i: int, k: int)
    requires
        0 <= i <= k,
    ensures
        errors_upto(schema, st, i).len() <= errors_upto(schema, st, k).len(),
        forall|j: int| 0 <= j < errors_upto(schema, st, i).len() ==>
            #[trigger] errors_upto(schema, st, k)[j] == errors_upto(schema, st, i)[j],
    decreases k - i,
{
    if i < k {
        lemma_errors_prefix(schema, st, i, k - 1);
    }
}

/// A value that does not convert is reported at the full path of the field
/// it was sent to, with its text, however many keys that path has: an event
/// named exactly as a declared field, which no earlier declaration takes,
/// whose text fails to convert for that field's kind, makes finalizing fail
/// with that error among the others.
pub proof fn lemma_conversion_error_located(
    schema: Seq<FieldDecl>,
    checks: Seq<FormCheck>,
    st: FormState,
    f: ValueField,
    i: int,
    cause: ConversionCause,
)
    requires
        0 <= i < schema.len(),
        st.children.len() == schema.len(),
        f.name.wf(),
        f.name.start == 0,
        f.name.name@ == schema[i].name@,
        forall|j: int| 0 <= j < i ==> #[trigger] walk(schema[j].name@, 0, f.name) is None,
        st.children[i] matches Some(c) ==> state_kind(c) == schema[i].kind && !has_outcome(c)
            && unrepeated(c),
        forall|v: NameView|
            #[trigger] value_outcome(schema[i].kind, ValueField { name: v, value: f.value })
                == Err::<FormValue, Seq<ErrorView>>(seq![bare(KindView::Conversion(cause))]),
    ensures
        finalize_spec(schema, checks, push_value_spec(schema, st, f)) is Err,
        finalize_spec(schema, checks, push_value_spec(schema, st, f))->Err_0.contains(
            ErrorView { name: Some(f.name.name@), value: Some(f.value@), kind: KindView::Conversion(cause) },
        ),
{
    let d = schema[i].name@;
    lemma_walk_same_name(d, f.name);
    let v = walk(d, 0, f.name)->0;
    lemma_first_match_at(schema, f.name, i, 0);
    let sub = ValueField { name: v, value: f.value };
    let s0 = child_or_fresh(st.children[i], schema[i].kind, st.strict);
    let e = seq![bare(KindView::Conversion(cause))];
    assert(value_outcome(schema[i].kind, sub) == Err::<FormValue, Seq<ErrorView>>(e));
    assert(state_kind(s0) == schema[i].kind && !has_outcome(s0) && unrepeated(s0)) by {
        if st.children[i] is None {
            assert(state_kind(fresh_state(schema[i].kind, st.strict)) == schema[i].kind);
        }
    }
    lemma_pushed_failure(s0, sub, e);
    assert(v.as_name_spec() =~= f.name.name@);
    let located = ErrorView { name: Some(f.name.name@), value: Some(f.value@), kind: KindView::Conversion(cause) };
    assert(annotated(e, Some(v.as_name_spec()), Some(f.value@)) =~= seq![located]);
    let st2 = push_value_spec(schema, st, f);
    assert(st2.children[i] == Some(leaf_pushed_value(s0, sub)));
    assert(all_named(seq![located], d) =~= seq![located]);
    assert(field_outcome(schema[i], st2.children[i], st2.strict) == Err::<FormValue, Seq<ErrorView>>(seq![located]));
    let before = errors_upto(schema, st2, i);
    assert(errors_upto(schema, st2, i + 1) == before + seq![located]);
    lemma_errors_prefix(schema, st2, i + 1, schema.len() as int);
    let all = errors_upto(schema, st2, schema.len() as int);
    assert(all[before.len() as int] == located);
    let es = st2.errors + all;
    let k = (st2.errors.len() + before.len()) as int;
    assert(0 <= k < es.len() && es[k] == located);
    assert(finalize_spec(schema, checks, st2) == Err::<Seq<FormValue>, Seq<ErrorView>>(es));
    assert(es.contains(located));
}

/// A declared checkbox that no event reached binds its default, unchecked,
/// and is never `Missing`.
pub proof fn lemma_untouched_checkbox_is_unchecked(decl: FieldDecl, strict: bool)
    requires
        decl.kind == FieldKind::Bool,
    ensures
        field_outcome(decl, None, strict) == Ok::<FormValue, Seq<ErrorView>>(FormValue::Bool(false)),
{
}

} // verus!
