//! Laws of the generated builder, stated over the run-time model.

use vstd::prelude::*;
use crate::builder::{BuilderPlan, Storage};
use crate::staged::{
    build_spec, first_unset, fits, initial, lemma_first_unset_fixed, lemma_first_unset_none,
    run, step, storage_of, unset_required, value_of, Call, SlotView, ValueView,
};

verus! {

/// A record value of the plan's type: a plain value for each required field,
/// a possibly unset value for each optional one, a sequence for each repeated
/// one.
pub open spec fn record_fits(p: BuilderPlan, rec: Seq<ValueView>) -> bool {
    &&& rec.len() == p.fields@.len()
    &&& forall|k: int|
        0 <= k < rec.len() ==> match (storage_of(p, k), #[trigger] rec[k]) {
            (Storage::Required, ValueView::Plain(_)) => true,
            (Storage::Optional, ValueView::Maybe(_)) => true,
            (Storage::Repeated, ValueView::Many(_)) => true,
            _ => false,
        }
}

/// Accumulator calls on field `k`, one per value, in order.
pub open spec fn pushes(k: int, vs: Seq<Seq<char>>) -> Seq<Call> {
    Seq::new(vs.len(), |i: int| Call::Push(k, vs[i]))
}

/// The calls that give field `k` the value `v`: one setter call, nothing for
/// an unset optional value, one accumulator call per element of a sequence.
pub open spec fn field_calls(k: int, v: ValueView) -> Seq<Call> {
    match v {
        ValueView::Plain(x) => seq![Call::Assign(k, x)],
        ValueView::Maybe(Some(x)) => seq![Call::Assign(k, x)],
        ValueView::Maybe(None) => Seq::empty(),
        ValueView::Many(vs) => pushes(k, vs),
    }
}

/// The calls for every field of a record, in declaration order.
pub open spec fn record_calls(rec: Seq<ValueView>) -> Seq<Call>
    decreases rec.len(),
{
    if rec.len() == 0 {
        Seq::empty()
    } else {
        record_calls(rec.drop_last()) + field_calls(rec.len() - 1, rec.last())
    }
}

pub open spec fn slot_of(v: ValueView) -> SlotView {
    match v {
        ValueView::Plain(x) => SlotView::Single(Some(x)),
        ValueView::Maybe(o) => SlotView::Single(o),
        ValueView::Many(vs) => SlotView::Many(vs),
    }
}

proof fn lemma_run_concat(s: Seq<SlotView>, a: Seq<Call>, b: Seq<Call>)
    ensures
        run(s, a + b) == run(run(s, a), b),
    decreases b.len(),
{
    if b.len() == 0 {
        assert(a + b == a);
    } else {
        assert((a + b).drop_last() == a + b.drop_last());
        assert((a + b).last() == b.last());
        lemma_run_concat(s, a, b.drop_last());
    }
}

proof fn lemma_run_one(s: Seq<SlotView>, c: Call)
    ensures
        run(s, seq![c]) == step(s, c),
{
    assert(seq![c].drop_last() == Seq::<Call>::empty());
    assert(run(s, Seq::<Call>::empty()) == s);
}

proof fn lemma_run_pushes(s: Seq<SlotView>, k: int, start: Seq<Seq<char>>, vs: Seq<Seq<char>>)
    requires
        0 <= k < s.len(),
        s[k] == SlotView::Many(start),
    ensures
        run(s, pushes(k, vs)) == s.update(k, SlotView::Many(start + vs)),
    decreases vs.len(),
{
    if vs.len() == 0 {
        assert(start + vs == start);
        assert(s.update(k, SlotView::Many(start)) == s);
    } else {
        assert(pushes(k, vs).drop_last() == pushes(k, vs.drop_last()));
        lemma_run_pushes(s, k, start, vs.drop_last());
        assert((start + vs.drop_last()).push(vs.last()) == start + vs);
        assert(s.update(k, SlotView::Many(start + vs.drop_last())).update(
            k,
            SlotView::Many(start + vs),
        ) == s.update(k, SlotView::Many(start + vs)));
    }
}

/// The slots after the calls for the first `n` fields of a record.
pub open spec fn partly_set(p: BuilderPlan, rec: Seq<ValueView>, n: int) -> Seq<SlotView> {
    Seq::new(
        p.fields@.len(),
        |k: int|
            if k < n {
                slot_of(rec[k])
            } else {
                initial(p)[k]
            },
    )
}

proof fn lemma_record_calls(p: BuilderPlan, rec: Seq<ValueView>)
    requires
        record_fits(p, rec),
    ensures
        run(initial(p), record_calls(rec)) == partly_set(p, rec, rec.len() as int),
{
    lemma_record_calls_prefix(p, rec, rec.len() as int);
    assert(rec.subrange(0, rec.len() as int) == rec);
}

proof fn lemma_record_calls_prefix(p: BuilderPlan, rec: Seq<ValueView>, n: int)
    requires
        record_fits(p, rec),
        0 <= n <= rec.len(),
    ensures
        run(initial(p), record_calls(rec.subrange(0, n))) == partly_set(p, rec, n),
    decreases n,
{
    let sub = rec.subrange(0, n);
    if n == 0 {
        assert(partly_set(p, rec, 0) == initial(p));
    } else {
        let k = n - 1;
        assert(sub.drop_last() == rec.subrange(0, k));
        assert(sub.last() == rec[k]);
        lemma_record_calls_prefix(p, rec, k);
        let before = partly_set(p, rec, k);
        lemma_run_concat(initial(p), record_calls(rec.subrange(0, k)), field_calls(k, rec[k]));
        let v = rec[k];
        match v {
            ValueView::Plain(x) => {
                lemma_run_one(before, Call::Assign(k, x));
                assert(before.update(k, slot_of(v)) == partly_set(p, rec, n));
            },
            ValueView::Maybe(Some(x)) => {
                lemma_run_one(before, Call::Assign(k, x));
                assert(before.update(k, slot_of(v)) == partly_set(p, rec, n));
            },
            ValueView::Maybe(None) => {
                assert(before == partly_set(p, rec, n));
            },
            ValueView::Many(vs) => {
                lemma_run_pushes(before, k, Seq::empty(), vs);
                assert(Seq::<Seq<char>>::empty() + vs == vs);
                assert(before.update(k, slot_of(v)) == partly_set(p, rec, n));
            },
        }
    }
}

/// Round trip: calling the setters for every field of a record value (each
/// setter once, an accumulator once per element) and then building yields
/// exactly that record.
pub proof fn law_round_trip(p: BuilderPlan, rec: Seq<ValueView>)
    requires
        record_fits(p, rec),
    ensures
        build_spec(p, run(initial(p), record_calls(rec))) == Ok::<Seq<ValueView>, Seq<char>>(rec),
{
    lemma_record_calls(p, rec);
    let s = partly_set(p, rec, rec.len() as int);
    assert forall|k: int| 0 <= k < s.len() implies !unset_required(p, s, k) by {
        assert(rec[k] == rec[k]);
    }
    lemma_first_unset_none(p, s, s.len() as int);
    assert forall|k: int| 0 <= k < s.len() implies value_of(p, s, k) == rec[k] by {
        assert(rec[k] == rec[k]);
    }
    assert(Seq::new(s.len(), |k: int| value_of(p, s, k)) == rec);
}

/// A required field left unset fails the build, naming that field; once it
/// is set, the build succeeds.
pub proof fn law_required_field_unset(p: BuilderPlan, s: Seq<SlotView>, k: int, v: Seq<char>)
    requires
        fits(p, s),
        0 <= k < s.len(),
        storage_of(p, k) == Storage::Required,
        s[k] == SlotView::Single(None),
        forall|j: int| 0 <= j < s.len() && j != k ==> !unset_required(p, s, j),
    ensures
        build_spec(p, s) == Err::<Seq<ValueView>, Seq<char>>(p.fields@[k].name@),
        build_spec(p, step(s, Call::Assign(k, v))) is Ok,
{
    lemma_first_unset_none(p, s, k);
    assert(first_unset(p, s, k + 1) == Some(k));
    lemma_first_unset_fixed(p, s, k + 1, s.len() as int);
    let t = step(s, Call::Assign(k, v));
    assert forall|j: int| 0 <= j < t.len() implies !unset_required(p, t, j) by {
        if j != k {
            assert(t[j] == s[j]);
            assert(!unset_required(p, s, j));
        } else {
            assert(t[j] == SlotView::Single(Some(v)));
        }
    }
    lemma_first_unset_none(p, t, t.len() as int);
}

proof fn lemma_first_unset_same(p: BuilderPlan, s: Seq<SlotView>, t: Seq<SlotView>, n: int)
    requires
        forall|j: int| 0 <= j < n ==> (unset_required(p, s, j) <==> unset_required(p, t, j)),
    ensures
        first_unset(p, s, n) == first_unset(p, t, n),
    decreases n,
{
    if n > 0 {
        lemma_first_unset_same(p, s, t, n - 1);
    }
}

/// Accumulator calls on a fresh repeated field leave exactly the values
/// passed, in call order, and change nothing else; with no call the field
/// builds as the empty sequence, and it never fails the build.
pub proof fn law_accumulator_order(p: BuilderPlan, s: Seq<SlotView>, k: int, vs: Seq<Seq<char>>)
    requires
        fits(p, s),
        0 <= k < s.len(),
        storage_of(p, k) == Storage::Repeated,
        s[k] == SlotView::Many(Seq::empty()),
    ensures
        run(s, pushes(k, vs)) == s.update(k, SlotView::Many(vs)),
        build_spec(p, run(s, pushes(k, vs))) == match build_spec(p, s) {
            Ok(r) => Ok(r.update(k, ValueView::Many(vs))),
            Err(e) => Err::<Seq<ValueView>, Seq<char>>(e),
        },
        build_spec(p, s) matches Ok(r) ==> r[k] == ValueView::Many(Seq::empty()),
{
    lemma_run_pushes(s, k, Seq::empty(), vs);
    assert(Seq::<Seq<char>>::empty() + vs == vs);
    let t = s.update(k, SlotView::Many(vs));
    assert forall|j: int| 0 <= j < s.len() implies (unset_required(p, s, j) <==> unset_required(p, t, j)) by {
        if j != k {
            assert(t[j] == s[j]);
        }
    }
    lemma_first_unset_same(p, s, t, s.len() as int);
    if build_spec(p, s) is Ok {
        assert(Seq::new(t.len(), |j: int| value_of(p, t, j)) == Seq::new(
            s.len(),
            |j: int| value_of(p, s, j),
        ).update(k, ValueView::Many(vs)));
    }
}

/// An optional field may be left out: no call is made for it, and the record
/// still builds, with that field unset.
pub proof fn law_optional_omitted(p: BuilderPlan, rec: Seq<ValueView>, k: int)
    requires
        record_fits(p, rec),
        0 <= k < rec.len(),
        storage_of(p, k) == Storage::Optional,
        rec[k] == ValueView::Maybe(None),
    ensures
        field_calls(k, rec[k]).len() == 0,
        build_spec(p, run(initial(p), record_calls(rec))) matches Ok(r) && r[k] == ValueView::Maybe(None),
{
    law_round_trip(p, rec);
}

} // verus!
