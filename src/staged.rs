//! What a generated builder does at run time, as a state machine over a
//! builder plan: one slot per field, setters that fill slots, and `build`.

use vstd::prelude::*;
use crate::builder::{BuilderPlan, Storage};

verus! {

/// A builder's slot for one field.
#[derive(Clone, Debug, PartialEq, Eq)]
pub enum Slot {
    /// An optional or required field: unset or set.
    Single(Option<String>),
    /// A repeated field: the values appended so far.
    Many(Vec<String>),
}

#[derive(Clone, Debug, PartialEq, Eq)]
pub struct BuilderState {
    pub slots: Vec<Slot>,
}

/// A field of the built record.
#[derive(Clone, Debug, PartialEq, Eq)]
pub enum FieldValue {
    /// A required field's value.
    Plain(String),
    /// An optional field's value.
    Maybe(Option<String>),
    /// A repeated field's values.
    Many(Vec<String>),
}

/// `build` found a required field unset; it carries the field's name.
#[derive(Clone, Debug, PartialEq, Eq)]
pub enum BuildError {
    RequiredFieldUnset(String),
}

pub enum SlotView {
    Single(Option<Seq<char>>),
    Many(Seq<Seq<char>>),
}

pub enum ValueView {
    Plain(Seq<char>),
    Maybe(Option<Seq<char>>),
    Many(Seq<Seq<char>>),
}

/// A call on a builder: a whole-value setter of a single-valued field, the
/// whole-value setter of a repeated field, or an accumulator.
pub enum Call {
    Assign(int, Seq<char>),
    AssignAll(int, Seq<Seq<char>>),
    Push(int, Seq<char>),
}

pub open spec fn strings_view(v: Seq<String>) -> Seq<Seq<char>> {
    v.map_values(|s: String| s@)
}

pub open spec fn opt_view(o: Option<String>) -> Option<Seq<char>> {
    match o {
        Some(s) => Some(s@),
        None => None,
    }
}

pub open spec fn slot_view(s: Slot) -> SlotView {
    match s {
        Slot::Single(o) => SlotView::Single(opt_view(o)),
        Slot::Many(v) => SlotView::Many(strings_view(v@)),
    }
}

pub open spec fn value_view(v: FieldValue) -> ValueView {
    match v {
        FieldValue::Plain(s) => ValueView::Plain(s@),
        FieldValue::Maybe(o) => ValueView::Maybe(opt_view(o)),
        FieldValue::Many(v) => ValueView::Many(strings_view(v@)),
    }
}

pub open spec fn slots_view(v: Seq<Slot>) -> Seq<SlotView> {
    v.map_values(|s: Slot| slot_view(s))
}

pub open spec fn values_view(v: Seq<FieldValue>) -> Seq<ValueView> {
    v.map_values(|f: FieldValue| value_view(f))
}

impl View for BuilderState {
    type V = Seq<SlotView>;

    open spec fn view(&self) -> Seq<SlotView> {
        slots_view(self.slots@)
    }
}

pub open spec fn storage_of(p: BuilderPlan, k: int) -> Storage {
    p.fields@[k].storage
}

/// A fresh builder: every single-valued field unset, every repeated field
/// empty.
pub open spec fn initial(p: BuilderPlan) -> Seq<SlotView> {
    Seq::new(
        p.fields@.len(),
        |k: int|
            if storage_of(p, k) == Storage::Repeated {
                SlotView::Many(Seq::empty())
            } else {
                SlotView::Single(None)
            },
    )
}

/// The slots match the plan: one per field, a sequence exactly for the
/// repeated fields.
pub open spec fn fits(p: BuilderPlan, s: Seq<SlotView>) -> bool {
    &&& s.len() == p.fields@.len()
    &&& forall|k: int| 0 <= k < s.len() ==> ((#[trigger] s[k] is Many) <==> storage_of(p, k) == Storage::Repeated)
}

/// The call exists on the builder of the plan.
pub open spec fn call_ok(p: BuilderPlan, c: Call) -> bool {
    match c {
        Call::Assign(k, _) => 0 <= k < p.fields@.len() && storage_of(p, k) != Storage::Repeated,
        Call::AssignAll(k, _) => 0 <= k < p.fields@.len() && storage_of(p, k) == Storage::Repeated,
        Call::Push(k, _) => 0 <= k < p.fields@.len() && storage_of(p, k) == Storage::Repeated,
    }
}

pub open spec fn step(s: Seq<SlotView>, c: Call) -> Seq<SlotView> {
    match c {
        Call::Assign(k, v) => s.update(k, SlotView::Single(Some(v))),
        Call::AssignAll(k, vs) => s.update(k, SlotView::Many(vs)),
        Call::Push(k, v) => match s[k] {
            SlotView::Many(vs) => s.update(k, SlotView::Many(vs.push(v))),
            SlotView::Single(_) => s,
        },
    }
}

/// The slots after the calls, in order.
pub open spec fn run(s: Seq<SlotView>, calls: Seq<Call>) -> Seq<SlotView>
    decreases calls.len(),
{
    if calls.len() == 0 {
        s
    } else {
        step(run(s, calls.drop_last()), calls.last())
    }
}

pub open spec fn unset_required(p: BuilderPlan, s: Seq<SlotView>, k: int) -> bool {
    storage_of(p, k) == Storage::Required && s[k] == SlotView::Single(None)
}

/// The first unset required field among the first `n`.
pub open spec fn first_unset(p: BuilderPlan, s: Seq<SlotView>, n: int) -> Option<int>
    decreases n,
{
    if n <= 0 {
        None
    } else {
        match first_unset(p, s, n - 1) {
            Some(k) => Some(k),
            None => if unset_required(p, s, n - 1) {
                Some(n - 1)
            } else {
                None
            },
        }
    }
}

/// The built value of a field from its slot.
pub open spec fn value_of(p: BuilderPlan, s: Seq<SlotView>, k: int) -> ValueView {
    match s[k] {
        SlotView::Single(o) => if storage_of(p, k) == Storage::Required {
            ValueView::Plain(o.unwrap())
        } else {
            ValueView::Maybe(o)
        },
        SlotView::Many(vs) => ValueView::Many(vs),
    }
}

/// What `build` gives: the name of the first unset required field, or every
/// field's value.
pub open spec fn build_spec(p: BuilderPlan, s: Seq<SlotView>) -> Result<Seq<ValueView>, Seq<char>> {
    match first_unset(p, s, s.len() as int) {
        Some(k) => Err(p.fields@[k].name@),
        None => Ok(Seq::new(s.len(), |k: int| value_of(p, s, k))),
    }
}

pub open spec fn built_view(r: Result<Vec<FieldValue>, BuildError>) -> Result<Seq<ValueView>, Seq<char>> {
    match r {
        Ok(v) => Ok(values_view(v@)),
        Err(BuildError::RequiredFieldUnset(n)) => Err(n@),
    }
}

fn copy_strings(v: &Vec<String>) -> (r: Vec<String>)
    ensures
        r@ == v@,
{
    let mut out: Vec<String> = Vec::new();
    let mut i: usize = 0;
    while i < v.len()
        invariant
            i <= v@.len(),
            out@ == v@.subrange(0, i as int),
        decreases v@.len() - i,
    {
        out.push(v[i].clone());
        i = i + 1;
    }
    assert(v@.subrange(0, v@.len() as int) == v@);
    out
}

pub(crate) proof fn lemma_first_unset_none(p: BuilderPlan, s: Seq<SlotView>, n: int)
    requires
        forall|k: int| 0 <= k < n ==> !unset_required(p, s, k),
    ensures
        first_unset(p, s, n) is None,
    decreases n,
{
    if n > 0 {
        lemma_first_unset_none(p, s, n - 1);
    }
}

/// Field `k` has a whole-value setter named `m` that takes one value.
pub open spec fn setter_named(p: BuilderPlan, m: Seq<char>, k: int) -> bool {
    &&& storage_of(p, k) != Storage::Repeated
    &&& p.fields@[k].setter matches Some(s) && s.name@ == m
}

/// Field `k` has an accumulator named `m`.
pub open spec fn accumulator_named(p: BuilderPlan, m: Seq<char>, k: int) -> bool {
    &&& storage_of(p, k) == Storage::Repeated
    &&& p.fields@[k].accumulator matches Some(s) && s.name@ == m
}

/// The first of the first `n` fields with a one-value setter named `m`.
pub open spec fn first_setter(p: BuilderPlan, m: Seq<char>, n: int) -> Option<int>
    decreases n,
{
    if n <= 0 {
        None
    } else {
        match first_setter(p, m, n - 1) {
            Some(k) => Some(k),
            None => if setter_named(p, m, n - 1) {
                Some(n - 1)
            } else {
                None
            },
        }
    }
}

/// The first of the first `n` fields with an accumulator named `m`.
pub open spec fn first_accumulator(p: BuilderPlan, m: Seq<char>, n: int) -> Option<int>
    decreases n,
{
    if n <= 0 {
        None
    } else {
        match first_accumulator(p, m, n - 1) {
            Some(k) => Some(k),
            None => if accumulator_named(p, m, n - 1) {
                Some(n - 1)
            } else {
                None
            },
        }
    }
}

/// The call that the one-value method named `m` makes: setters come before
/// accumulators, as they are declared on the builder.
pub open spec fn named_call(p: BuilderPlan, m: Seq<char>, v: Seq<char>) -> Option<Call> {
    match first_setter(p, m, p.fields@.len() as int) {
        Some(k) => Some(Call::Assign(k, v)),
        None => match first_accumulator(p, m, p.fields@.len() as int) {
            Some(k) => Some(Call::Push(k, v)),
            None => None,
        },
    }
}

pub(crate) proof fn lemma_first_setter_in(p: BuilderPlan, m: Seq<char>, n: int)
    requires
        first_setter(p, m, n) is Some,
    ensures
        first_setter(p, m, n) matches Some(k) && 0 <= k < n && setter_named(p, m, k),
    decreases n,
{
    if n > 0 && first_setter(p, m, n - 1) is Some {
        lemma_first_setter_in(p, m, n - 1);
    }
}

pub(crate) proof fn lemma_first_accumulator_in(p: BuilderPlan, m: Seq<char>, n: int)
    requires
        first_accumulator(p, m, n) is Some,
    ensures
        first_accumulator(p, m, n) matches Some(k) && 0 <= k < n && accumulator_named(p, m, k),
    decreases n,
{
    if n > 0 && first_accumulator(p, m, n - 1) is Some {
        lemma_first_accumulator_in(p, m, n - 1);
    }
}

fn find_setter(p: &BuilderPlan, m: &String) -> (r: Option<usize>)
    ensures
        match r {
            Some(k) => first_setter(*p, m@, p.fields@.len() as int) == Some(k as int),
            None => first_setter(*p, m@, p.fields@.len() as int) is None,
        },
{
    let mut i: usize = 0;
    while i < p.fields.len()
        invariant
            i <= p.fields@.len(),
            first_setter(*p, m@, i as int) is None,
        decreases p.fields@.len() - i,
    {
        let f = &p.fields[i];
        let hit = match (&f.storage, &f.setter) {
            (Storage::Repeated, _) => false,
            (_, Some(s)) => s.name == *m,
            (_, None) => false,
        };
        if hit {
            assert(first_setter(*p, m@, i + 1) == Some(i as int));
            proof {
                lemma_first_setter_fixed(*p, m@, i + 1, p.fields@.len() as int);
            }
            return Some(i);
        }
        i = i + 1;
    }
    None
}

fn find_accumulator(p: &BuilderPlan, m: &String) -> (r: Option<usize>)
    ensures
        match r {
            Some(k) => first_accumulator(*p, m@, p.fields@.len() as int) == Some(k as int),
            None => first_accumulator(*p, m@, p.fields@.len() as int) is None,
        },
{
    let mut i: usize = 0;
    while i < p.fields.len()
        invariant
            i <= p.fields@.len(),
            first_accumulator(*p, m@, i as int) is None,
        decreases p.fields@.len() - i,
    {
        let f = &p.fields[i];
        let hit = match (&f.storage, &f.accumulator) {
            (Storage::Repeated, Some(s)) => s.name == *m,
            _ => false,
        };
        if hit {
            assert(first_accumulator(*p, m@, i + 1) == Some(i as int));
            proof {
                lemma_first_accumulator_fixed(*p, m@, i + 1, p.fields@.len() as int);
            }
            return Some(i);
        }
        i = i + 1;
    }
    None
}

proof fn lemma_first_setter_fixed(p: BuilderPlan, m: Seq<char>, a: int, n: int)
    requires
        first_setter(p, m, a) is Some,
        a <= n,
    ensures
        first_setter(p, m, n) == first_setter(p, m, a),
    decreases n - a,
{
    if a < n {
        lemma_first_setter_fixed(p, m, a, n - 1);
    }
}

proof fn lemma_first_accumulator_fixed(p: BuilderPlan, m: Seq<char>, a: int, n: int)
    requires
        first_accumulator(p, m, a) is Some,
        a <= n,
    ensures
        first_accumulator(p, m, n) == first_accumulator(p, m, a),
    decreases n - a,
{
    if a < n {
        lemma_first_accumulator_fixed(p, m, a, n - 1);
    }
}

impl BuilderPlan {
    /// Calls the builder's one-value method named `m` with `v`: a field's
    /// whole-value setter or an accumulator. Returns whether the builder has
    /// such a method; without one the builder is unchanged.
    pub fn call(&self, st: &mut BuilderState, m: &String, v: String) -> (r: bool)
        requires
            fits(*self, old(st)@),
        ensures
            r == named_call(*self, m@, v@) is Some,
            final(st)@ == match named_call(*self, m@, v@) {
                Some(c) => step(old(st)@, c),
                None => old(st)@,
            },
            fits(*self, final(st)@),
    {
        match find_setter(self, m) {
            Some(k) => {
                proof {
                    lemma_first_setter_in(*self, m@, self.fields@.len() as int);
                }
                self.set(st, k, v);
                true
            },
            None => match find_accumulator(self, m) {
                Some(k) => {
                    proof {
                        lemma_first_accumulator_in(*self, m@, self.fields@.len() as int);
                    }
                    self.push(st, k, v);
                    true
                },
                None => false,
            },
        }
    }

    /// A fresh builder.
    pub fn start(&self) -> (r: BuilderState)
        ensures
            r@ == initial(*self),
    {
        let mut slots: Vec<Slot> = Vec::new();
        let mut i: usize = 0;
        while i < self.fields.len()
            invariant
                i <= self.fields@.len(),
                slots@.len() == i,
                slots_view(slots@) == initial(*self).subrange(0, i as int),
            decreases self.fields@.len() - i,
        {
            let slot = match self.fields[i].storage {
                Storage::Repeated => {
                    let empty: Vec<String> = Vec::new();
                    assert(strings_view(empty@) =~= Seq::<Seq<char>>::empty());
                    Slot::Many(empty)
                },
                _ => Slot::Single(None),
            };
            assert(slot_view(slot) == initial(*self)[i as int]);
            let ghost prev = slots@;
            slots.push(slot);
            proof {
                assert(slots@ == prev.push(slot));
                assert forall|j: int| 0 <= j < i implies slots_view(slots@)[j] == initial(*self)[j] by {
                    assert(slots_view(prev)[j] == initial(*self).subrange(0, i as int)[j]);
                    assert(slots@[j] == prev[j]);
                }
                assert(slots_view(slots@) =~= initial(*self).subrange(0, i + 1));
            }
            i = i + 1;
        }
        assert(initial(*self).subrange(0, self.fields@.len() as int) == initial(*self));
        BuilderState { slots }
    }

    /// The whole-value setter of a single-valued field `k`.
    pub fn set(&self, st: &mut BuilderState, k: usize, v: String)
        requires
            fits(*self, old(st)@),
            call_ok(*self, Call::Assign(k as int, v@)),
        ensures
            final(st)@ == step(old(st)@, Call::Assign(k as int, v@)),
            fits(*self, final(st)@),
    {
        st.slots.set(k, Slot::Single(Some(v)));
        proof {
            assert(st@ =~= step(old(st)@, Call::Assign(k as int, v@)));
        }
    }

    /// The whole-value setter of a repeated field `k`: replaces its values.
    pub fn set_all(&self, st: &mut BuilderState, k: usize, vs: Vec<String>)
        requires
            fits(*self, old(st)@),
            call_ok(*self, Call::AssignAll(k as int, strings_view(vs@))),
        ensures
            final(st)@ == step(old(st)@, Call::AssignAll(k as int, strings_view(vs@))),
            fits(*self, final(st)@),
    {
        st.slots.set(k, Slot::Many(vs));
        proof {
            assert(st@ =~= step(old(st)@, Call::AssignAll(k as int, strings_view(vs@))));
        }
    }

    /// The accumulator of a repeated field `k`: appends one value.
    pub fn push(&self, st: &mut BuilderState, k: usize, v: String)
        requires
            fits(*self, old(st)@),
            call_ok(*self, Call::Push(k as int, v@)),
        ensures
            final(st)@ == step(old(st)@, Call::Push(k as int, v@)),
            fits(*self, final(st)@),
    {
        let ghost before = st@;
        assert(before[k as int] is Many);
        let mut vs = match &st.slots[k] {
            Slot::Many(vs) => copy_strings(vs),
            Slot::Single(_) => Vec::new(),
        };
        let ghost old_vs = vs@;
        vs.push(v);
        assert(strings_view(vs@) =~= strings_view(old_vs).push(v@));
        st.slots.set(k, Slot::Many(vs));
        proof {
            assert(st@ =~= step(before, Call::Push(k as int, v@)));
        }
    }

    /// Builds the record: every field's value, or the first required field,
    /// in declaration order, that was left unset. The builder is unchanged.
    pub fn build(&self, st: &BuilderState) -> (r: Result<Vec<FieldValue>, BuildError>)
        requires
            fits(*self, st@),
        ensures
            built_view(r) == build_spec(*self, st@),
    {
        let n = st.slots.len();
        let mut out: Vec<FieldValue> = Vec::new();
        let mut i: usize = 0;
        while i < n
            invariant
                n == st@.len(),
                fits(*self, st@),
                i <= n,
                forall|k: int| 0 <= k < i ==> !unset_required(*self, st@, k),
                out@.len() == i,
                forall|k: int| 0 <= k < i ==> value_view(#[trigger] out@[k]) == value_of(*self, st@, k),
            decreases n - i,
        {
            let v = match &st.slots[i] {
                Slot::Many(vs) => FieldValue::Many(copy_strings(vs)),
                Slot::Single(o) => {
                    match self.fields[i].storage {
                        Storage::Required => match o {
                            Some(x) => FieldValue::Plain(x.clone()),
                            None => {
                                proof {
                                    lemma_first_unset_none(*self, st@, i as int);
                                    assert(first_unset(*self, st@, i + 1) == Some(i as int));
                                    lemma_first_unset_fixed(*self, st@, i + 1, n as int);
                                }
                                return Err(BuildError::RequiredFieldUnset(self.fields[i].name.clone()));
                            },
                        },
                        _ => match o {
                            Some(x) => FieldValue::Maybe(Some(x.clone())),
                            None => FieldValue::Maybe(None),
                        },
                    }
                },
            };
            out.push(v);
            i = i + 1;
        }
        proof {
            lemma_first_unset_none(*self, st@, n as int);
            assert(values_view(out@) =~= Seq::new(
                n as nat,
                |k: int| value_of(*self, st@, k),
            ));
        }
        Ok(out)
    }
}

/// Once found among the first `m` fields, the first unset field stays the
/// first among more.
pub(crate) proof fn lemma_first_unset_fixed(p: BuilderPlan, s: Seq<SlotView>, m: int, n: int)
    requires
        first_unset(p, s, m) is Some,
        m <= n,
    ensures
        first_unset(p, s, n) == first_unset(p, s, m),
    decreases n - m,
{
    if m < n {
        lemma_first_unset_fixed(p, s, m, n - 1);
    }
}

} // verus!
