use crate::api::{
    CheckView, FieldInit, SetterKind, SetterView, check_of, check_views, init_of, missing_message_of,
    optional_setter, required_setter, setter_views, setters_of,
};
use crate::classify::{
    ClassifiedView, KindView, classification, classified_at, kind_of, optional_part, required_part,
};
use crate::generate::{Artifact, generated_for};
use crate::runtime::{FieldValue, apply_setter, fresh_slots, last_write, run_setters, settled, stored, build_outcome, finalize_fits, first_failing, init_value};
use crate::schema::{FieldView, StructView};
use vstd::prelude::*;

verus! {

/// Entries sit at their own positions.
pub open spec fn positioned(cs: Seq<ClassifiedView>) -> bool {
    forall|i: int| 0 <= i < cs.len() ==> #[trigger] cs[i].position == i
}

/// `part` lists, in increasing position, exactly the entries of `cs` whose
/// kind satisfies `pick`.
pub open spec fn lists_in_order(
    part: Seq<ClassifiedView>,
    cs: Seq<ClassifiedView>,
    pick: spec_fn(KindView) -> bool,
) -> bool {
    &&& forall|k: int|
        0 <= k < part.len() ==> 0 <= #[trigger] part[k].position < cs.len() && part[k]
            == cs[part[k].position] && pick(part[k].kind)
    &&& forall|k1: int, k2: int|
        0 <= k1 < k2 < part.len() ==> #[trigger] part[k1].position < #[trigger] part[k2].position
    &&& forall|i: int|
        0 <= i < cs.len() && pick(#[trigger] cs[i].kind) ==> exists|k: int|
            0 <= k < part.len() && #[trigger] part[k].position == i
}

pub open spec fn is_required_kind(k: KindView) -> bool {
    k is Required
}

pub open spec fn is_optional_kind(k: KindView) -> bool {
    k is Optional
}

proof fn lemma_classification_positioned(fields: Seq<FieldView>)
    ensures
        positioned(classification(fields)),
        classification(fields).len() == fields.len(),
        forall|i: int|
            0 <= i < fields.len() ==> #[trigger] classification(fields)[i] == classified_at(
                i,
                fields[i],
            ),
{
}

proof fn lemma_required_part(cs: Seq<ClassifiedView>)
    requires
        positioned(cs),
    ensures
        lists_in_order(required_part(cs), cs, |k: KindView| is_required_kind(k)),
    decreases cs.len(),
{
    if cs.len() > 0 {
        let prev = cs.drop_last();
        lemma_required_part(prev);
        let rp = required_part(prev);
        let r = required_part(cs);
        assert forall|i: int|
            0 <= i < cs.len() && is_required_kind(#[trigger] cs[i].kind) implies exists|k: int|
                0 <= k < r.len() && #[trigger] r[k].position == i by {
            if i < cs.len() - 1 {
                assert(prev[i] == cs[i]);
                let k = choose|k: int| 0 <= k < rp.len() && #[trigger] rp[k].position == i;
                assert(r[k] == rp[k]);
                assert(0 <= k < r.len() && r[k].position == i);
            } else {
                assert(r[r.len() - 1] == cs.last());
                assert(r[r.len() - 1].position == i);
            }
        }
        assert forall|k: int| 0 <= k < r.len() implies 0 <= #[trigger] r[k].position < cs.len()
            && r[k] == cs[r[k].position] && is_required_kind(r[k].kind) by {
            if k < rp.len() {
                assert(r[k] == rp[k]);
                assert(prev[rp[k].position] == cs[rp[k].position]);
            }
        }
    }
}

proof fn lemma_optional_part(cs: Seq<ClassifiedView>)
    requires
        positioned(cs),
    ensures
        lists_in_order(optional_part(cs), cs, |k: KindView| is_optional_kind(k)),
    decreases cs.len(),
{
    if cs.len() > 0 {
        let prev = cs.drop_last();
        lemma_optional_part(prev);
        let rp = optional_part(prev);
        let r = optional_part(cs);
        assert forall|i: int|
            0 <= i < cs.len() && is_optional_kind(#[trigger] cs[i].kind) implies exists|k: int|
                0 <= k < r.len() && #[trigger] r[k].position == i by {
            if i < cs.len() - 1 {
                assert(prev[i] == cs[i]);
                let k = choose|k: int| 0 <= k < rp.len() && #[trigger] rp[k].position == i;
                assert(r[k] == rp[k]);
                assert(0 <= k < r.len() && r[k].position == i);
            } else {
                assert(r[r.len() - 1] == cs.last());
                assert(r[r.len() - 1].position == i);
            }
        }
        assert forall|k: int| 0 <= k < r.len() implies 0 <= #[trigger] r[k].position < cs.len()
            && r[k] == cs[r[k].position] && is_optional_kind(r[k].kind) by {
            if k < rp.len() {
                assert(r[k] == rp[k]);
                assert(prev[rp[k].position] == cs[rp[k].position]);
            }
        }
    }
}


proof fn lemma_first_failing<V>(checks: Seq<CheckView>, slots: Seq<Option<FieldValue<V>>>, m: int)
    requires
        0 <= m <= checks.len(),
    ensures
        match first_failing(checks, slots, m) {
            Some(k0) => m <= k0 < checks.len() && slots[checks[k0].slot] is None && forall|l: int|
                m <= l < k0 ==> slots[#[trigger] checks[l].slot] is Some,
            None => forall|l: int| m <= l < checks.len() ==> slots[#[trigger] checks[l].slot] is Some,
        },
    decreases checks.len() - m,
{
    if m < checks.len() {
        lemma_first_failing(checks, slots, m + 1);
    }
}

/// Facts about the parts of the classification of `s` that the laws share.
proof fn lemma_parts_of(s: StructView)
    ensures
        positioned(classification(s.fields)),
        lists_in_order(
            required_part(classification(s.fields)),
            classification(s.fields),
            |k: KindView| is_required_kind(k),
        ),
        lists_in_order(
            optional_part(classification(s.fields)),
            classification(s.fields),
            |k: KindView| is_optional_kind(k),
        ),
{
    lemma_classification_positioned(s.fields);
    lemma_required_part(classification(s.fields));
    lemma_optional_part(classification(s.fields));
}

/// A generated builder is consistent: every setter and every presence check
/// names an existing slot, there is one initializer per slot, and every slot
/// that `build` unwraps is checked first. So `BuilderState::build` and
/// `BuilderState::set` can always be called on it.
pub proof fn lemma_generated_is_consistent(s: StructView, a: Artifact)
    requires
        generated_for(a, s),
    ensures
        finalize_fits(a.api.finalize, s.fields.len() as int),
        forall|k: int|
            0 <= k < a.api.setters@.len() ==> #[trigger] a.api.setters@[k].slot < s.fields.len(),
{
    lemma_parts_of(s);
    let cs = classification(s.fields);
    let r = required_part(cs);
    let o = optional_part(cs);
    let checks = check_views(a.api.finalize.checks@);
    assert(checks.len() == r.len());
    assert forall|k: int| 0 <= k < checks.len() implies 0 <= #[trigger] checks[k].slot
        < s.fields.len() by {
        assert(checks[k] == check_of(r[k]));
    }
    assert forall|i: int|
        0 <= i < s.fields.len() && a.api.finalize.inits@[i] == FieldInit::Unwrap implies exists|
            k: int,
        | 0 <= k < checks.len() && #[trigger] checks[k].slot == i by {
        assert(a.api.finalize.inits@[i] == init_of(cs[i]));
        assert(is_required_kind(cs[i].kind));
        let k = choose|k: int| 0 <= k < r.len() && #[trigger] r[k].position == i;
        assert(checks[k] == check_of(r[k]));
        assert(0 <= k < checks.len() && checks[k].slot == i);
    }
    let sv = setter_views(a.api.setters@);
    assert(sv.len() == a.api.setters@.len());
    assert(setters_of(cs).len() == r.len() + o.len());
    assert forall|k: int| 0 <= k < a.api.setters@.len() implies #[trigger] a.api.setters@[k].slot
        < s.fields.len() by {
        assert(sv[k] == a.api.setters@[k]@);
        if k < r.len() {
            assert(sv[k] == required_setter(r[k]));
        } else {
            assert(sv[k] == optional_setter(o[k - r.len()]));
        }
    }
}

/// `build` on a builder where some required field is unset fails, and its
/// message names exactly one field: the first required field, in declaration
/// order, that is unset.
pub proof fn law_missing_required_field_reported<V>(
    s: StructView,
    a: Artifact,
    slots: Seq<Option<FieldValue<V>>>,
    i: int,
)
    requires
        generated_for(a, s),
        slots.len() == s.fields.len(),
        0 <= i < s.fields.len(),
        kind_of(s.fields[i].ty) is Required,
        slots[i] is None,
    ensures
        exists|j: int|
            0 <= j <= i && kind_of(s.fields[j].ty) is Required && slots[j] is None && (forall|l: int|
                0 <= l < j && kind_of(#[trigger] s.fields[l].ty) is Required ==> slots[l] is Some)
                && build_outcome(check_views(a.api.finalize.checks@), a.api.finalize.inits@, slots)
                == Err::<Seq<FieldValue<V>>, Seq<char>>(missing_message_of(s.fields[j].name)),
{
    lemma_parts_of(s);
    let cs = classification(s.fields);
    let r = required_part(cs);
    let checks = check_views(a.api.finalize.checks@);
    assert(checks.len() == r.len());
    assert(is_required_kind(cs[i].kind));
    let k = choose|k: int| 0 <= k < r.len() && #[trigger] r[k].position == i;
    assert(checks[k] == check_of(r[k]));
    lemma_first_failing(checks, slots, 0);
    let k0 = first_failing(checks, slots, 0)->Some_0;
    assert(checks[k0] == check_of(r[k0]));
    let j = r[k0].position;
    assert(cs[j] == classified_at(j, s.fields[j]));
    assert(j <= i) by {
        if k0 > k {
            assert(slots[checks[k].slot] is Some);
        }
        if k0 < k {
            assert(r[k0].position < r[k].position);
        }
    }
    assert forall|l: int| 0 <= l < j && kind_of(#[trigger] s.fields[l].ty) is Required implies slots[l] is Some by {
        assert(cs[l] == classified_at(l, s.fields[l]));
        assert(is_required_kind(cs[l].kind));
        let kl = choose|kl: int| 0 <= kl < r.len() && #[trigger] r[kl].position == l;
        assert(kl < k0) by {
            if kl > k0 {
                assert(r[k0].position < r[kl].position);
            }
        }
        assert(checks[kl] == check_of(r[kl]));
        assert(slots[checks[kl].slot] is Some);
    }
}


proof fn lemma_run_required_setters<V>(s: StructView, a: Artifact, vals: Seq<V>, m: int)
    requires
        generated_for(a, s),
        vals.len() == required_part(classification(s.fields)).len(),
        0 <= m <= vals.len(),
    ensures
        ({
            let r = required_part(classification(s.fields));
            let req = setter_views(a.api.setters@).take(r.len() as int);
            let slots = run_setters(fresh_slots::<V>(s.fields.len()), req.take(m), vals.take(m));
            &&& slots.len() == s.fields.len()
            &&& forall|k: int| 0 <= k < m ==> slots[#[trigger] r[k].position] == Some(FieldValue::Plain(vals[k]))
            &&& forall|i: int|
                0 <= i < s.fields.len() && (forall|k: int| 0 <= k < m ==> #[trigger] r[k].position != i)
                    ==> slots[i] is None
        }),
    decreases m,
{
    lemma_parts_of(s);
    let cs = classification(s.fields);
    let r = required_part(cs);
    let sv = setter_views(a.api.setters@);
    let req = sv.take(r.len() as int);
    assert(sv.len() == a.api.setters@.len());
    assert(setters_of(cs).len() == r.len() + optional_part(cs).len());
    if m > 0 {
        lemma_run_required_setters(s, a, vals, m - 1);
        assert(req.take(m).drop_last() =~= req.take(m - 1));
        assert(vals.take(m).drop_last() =~= vals.take(m - 1));
        assert(req.take(m).last() == required_setter(r[m - 1]));
        let prev = run_setters(fresh_slots::<V>(s.fields.len()), req.take(m - 1), vals.take(m - 1));
        let slots = run_setters(fresh_slots::<V>(s.fields.len()), req.take(m), vals.take(m));
        assert(slots == prev.update(r[m - 1].position, Some(FieldValue::Plain(vals[m - 1]))));
        assert forall|k: int| 0 <= k < m implies slots[#[trigger] r[k].position] == Some(
            FieldValue::Plain(vals[k]),
        ) by {
            if k < m - 1 {
                assert(r[k].position < r[m - 1].position);
            }
        }
        assert forall|i: int|
            0 <= i < s.fields.len() && (forall|k: int| 0 <= k < m ==> #[trigger] r[k].position != i)
                implies slots[i] is None by {
            assert(r[m - 1].position != i);
            assert forall|k: int| 0 <= k < m - 1 implies #[trigger] r[k].position != i by {
                assert(r[k].position != i);
            }
        }
    }
}

/// Calling the setter of every required field, then `build`, succeeds: each
/// required field holds exactly the value passed to its setter, and each
/// optional field left unset is `None`.
pub proof fn law_required_setters_suffice<V>(s: StructView, a: Artifact, vals: Seq<V>)
    requires
        generated_for(a, s),
        vals.len() == required_part(classification(s.fields)).len(),
    ensures
        ({
            let r = required_part(classification(s.fields));
            let req = setter_views(a.api.setters@).take(r.len() as int);
            let slots = run_setters(fresh_slots::<V>(s.fields.len()), req, vals);
            let out = build_outcome(check_views(a.api.finalize.checks@), a.api.finalize.inits@, slots);
            &&& out is Ok
            &&& out->Ok_0.len() == s.fields.len()
            &&& forall|k: int| 0 <= k < r.len() ==> req[k].slot == r[k].position
                && out->Ok_0[#[trigger] r[k].position] == FieldValue::Plain(vals[k])
            &&& forall|i: int|
                0 <= i < s.fields.len() && kind_of(#[trigger] s.fields[i].ty) is Optional
                    ==> out->Ok_0[i] == FieldValue::Maybe(None::<V>)
        }),
{
    lemma_parts_of(s);
    lemma_generated_is_consistent(s, a);
    let cs = classification(s.fields);
    let r = required_part(cs);
    let sv = setter_views(a.api.setters@);
    let req = sv.take(r.len() as int);
    let n = r.len() as int;
    assert(sv.len() == a.api.setters@.len());
    assert(setters_of(cs).len() == r.len() + optional_part(cs).len());
    lemma_run_required_setters(s, a, vals, n);
    assert(req.take(n) =~= req);
    assert(vals.take(n) =~= vals);
    let slots = run_setters(fresh_slots::<V>(s.fields.len()), req, vals);
    let checks = check_views(a.api.finalize.checks@);
    assert(checks.len() == r.len());
    lemma_first_failing(checks, slots, 0);
    if first_failing(checks, slots, 0) is Some {
        let k0 = first_failing(checks, slots, 0)->Some_0;
        assert(checks[k0] == check_of(r[k0]));
        assert(false);
    }
    let out = build_outcome(checks, a.api.finalize.inits@, slots);
    assert forall|k: int| 0 <= k < r.len() implies req[k].slot == r[k].position
        && out->Ok_0[#[trigger] r[k].position] == FieldValue::Plain(vals[k]) by {
        assert(req[k] == sv[k]);
        assert(sv[k] == required_setter(r[k]));
        assert(a.api.finalize.inits@[r[k].position] == init_of(cs[r[k].position]));
    }
    assert forall|i: int|
        0 <= i < s.fields.len() && kind_of(#[trigger] s.fields[i].ty) is Optional implies out->Ok_0[i]
        == FieldValue::Maybe(None::<V>) by {
        assert(cs[i] == classified_at(i, s.fields[i]));
        assert forall|k: int| 0 <= k < n implies #[trigger] r[k].position != i by {
            if r[k].position == i {
                assert(r[k] == cs[i]);
            }
        }
        assert(a.api.finalize.inits@[i] == init_of(cs[i]));
    }
}


/// The kind of setter that the field `f` gets.
pub open spec fn kind_setter(f: FieldView) -> SetterKind {
    if kind_of(f.ty) is Required {
        SetterKind::Store
    } else {
        SetterKind::StoreWrapped
    }
}

/// The setters of distinct indices of a generated builder write distinct
/// slots, and each writes the slot of the field it is named after.
proof fn lemma_setter_slots(s: StructView, a: Artifact)
    requires
        generated_for(a, s),
    ensures
        forall|k: int|
            0 <= k < a.api.setters@.len() ==> #[trigger] setter_views(a.api.setters@)[k].slot
                < s.fields.len() && s.fields[setter_views(a.api.setters@)[k].slot].name
                == setter_views(a.api.setters@)[k].name && setter_views(a.api.setters@)[k].kind
                == kind_setter(s.fields[setter_views(a.api.setters@)[k].slot]),
        forall|k1: int, k2: int|
            0 <= k1 < a.api.setters@.len() && 0 <= k2 < a.api.setters@.len() && k1 != k2
                ==> #[trigger] setter_views(a.api.setters@)[k1].slot != #[trigger] setter_views(
                a.api.setters@,
            )[k2].slot,
{
    lemma_parts_of(s);
    let cs = classification(s.fields);
    let r = required_part(cs);
    let o = optional_part(cs);
    let sv = setter_views(a.api.setters@);
    assert(sv.len() == a.api.setters@.len());
    assert(setters_of(cs).len() == r.len() + o.len());
    assert forall|k: int| 0 <= k < sv.len() implies #[trigger] sv[k].slot < s.fields.len()
        && s.fields[sv[k].slot].name == sv[k].name && sv[k].kind == kind_setter(
        s.fields[sv[k].slot],
    ) by {
        if k < r.len() {
            assert(sv[k] == required_setter(r[k]));
            assert(cs[r[k].position] == classified_at(r[k].position, s.fields[r[k].position]));
        } else {
            let c = o[k - r.len()];
            assert(sv[k] == optional_setter(c));
            assert(cs[c.position] == classified_at(c.position, s.fields[c.position]));
        }
    }
    assert forall|k1: int, k2: int| 0 <= k1 < sv.len() && 0 <= k2 < sv.len() && k1 != k2 implies
        #[trigger] sv[k1].slot != #[trigger] sv[k2].slot by {
        let c1 = if k1 < r.len() { r[k1] } else { o[k1 - r.len()] };
        let c2 = if k2 < r.len() { r[k2] } else { o[k2 - r.len()] };
        if k1 < r.len() {
            assert(sv[k1] == required_setter(c1));
        } else {
            assert(sv[k1] == optional_setter(c1));
        }
        if k2 < r.len() {
            assert(sv[k2] == required_setter(c2));
        } else {
            assert(sv[k2] == optional_setter(c2));
        }
        if k1 < r.len() && k2 < r.len() {
            if k1 < k2 {
                assert(r[k1].position < r[k2].position);
            } else {
                assert(r[k2].position < r[k1].position);
            }
        } else if k1 >= r.len() && k2 >= r.len() {
            if k1 < k2 {
                assert(o[k1 - r.len()].position < o[k2 - r.len()].position);
            } else {
                assert(o[k2 - r.len()].position < o[k1 - r.len()].position);
            }
        } else {
            assert(c1 == cs[c1.position]);
            assert(c2 == cs[c2.position]);
        }
    }
}

/// For an optional field whose declared type is `Option<T>`, the setter
/// takes a `T`; once it was called with `v` (and the required fields are
/// set), `build` gives the field exactly `Some(v)`.
pub proof fn law_optional_setter_wraps_once<V>(
    s: StructView,
    a: Artifact,
    slots: Seq<Option<FieldValue<V>>>,
    k: int,
    v: V,
)
    requires
        generated_for(a, s),
        slots.len() == s.fields.len(),
        required_part(classification(s.fields)).len() <= k < a.api.setters@.len(),
        forall|i: int|
            0 <= i < s.fields.len() && kind_of(#[trigger] s.fields[i].ty) is Required
                ==> slots[i] is Some,
    ensures
        ({
            let st = setter_views(a.api.setters@)[k];
            let out = build_outcome(
                check_views(a.api.finalize.checks@),
                a.api.finalize.inits@,
                apply_setter(slots, st, v),
            );
            &&& 0 <= st.slot < s.fields.len()
            &&& kind_of(s.fields[st.slot].ty) == KindView::Optional(st.param)
            &&& out is Ok
            &&& out->Ok_0[st.slot] == FieldValue::Maybe(Some(v))
        }),
{
    lemma_parts_of(s);
    lemma_generated_is_consistent(s, a);
    let cs = classification(s.fields);
    let r = required_part(cs);
    let o = optional_part(cs);
    let sv = setter_views(a.api.setters@);
    assert(sv.len() == a.api.setters@.len());
    assert(setters_of(cs).len() == r.len() + o.len());
    let c = o[k - r.len()];
    let st = sv[k];
    assert(st == optional_setter(c));
    let p = c.position;
    assert(cs[p] == classified_at(p, s.fields[p]));
    let after = apply_setter(slots, st, v);
    let checks = check_views(a.api.finalize.checks@);
    assert(checks.len() == r.len());
    lemma_first_failing(checks, after, 0);
    if first_failing(checks, after, 0) is Some {
        let k0 = first_failing(checks, after, 0)->Some_0;
        assert(checks[k0] == check_of(r[k0]));
        let q = r[k0].position;
        assert(cs[q] == classified_at(q, s.fields[q]));
        assert(false);
    }
    assert(a.api.finalize.inits@[p] == init_of(cs[p]));
}

/// The order of setter calls does not matter: each setter writes the slot of
/// the field it is named after, two different setters write different slots,
/// so running them in either order leaves the same builder. `build` then
/// gives field `i` of the declaration the value held by slot `i`.
pub proof fn law_setter_order_irrelevant<V>(
    s: StructView,
    a: Artifact,
    slots: Seq<Option<FieldValue<V>>>,
    k1: int,
    k2: int,
    v1: V,
    v2: V,
)
    requires
        generated_for(a, s),
        slots.len() == s.fields.len(),
        0 <= k1 < a.api.setters@.len(),
        0 <= k2 < a.api.setters@.len(),
        k1 != k2,
    ensures
        ({
            let sv = setter_views(a.api.setters@);
            let one = apply_setter(apply_setter(slots, sv[k1], v1), sv[k2], v2);
            let other = apply_setter(apply_setter(slots, sv[k2], v2), sv[k1], v1);
            let out = build_outcome(check_views(a.api.finalize.checks@), a.api.finalize.inits@, one);
            &&& s.fields[sv[k1].slot].name == sv[k1].name
            &&& s.fields[sv[k2].slot].name == sv[k2].name
            &&& one == other
            &&& out is Ok ==> out->Ok_0.len() == s.fields.len() && forall|i: int|
                0 <= i < s.fields.len() ==> #[trigger] out->Ok_0[i] == init_value(
                    init_of(classified_at(i, s.fields[i])),
                    one[i],
                )
        }),
{
    lemma_setter_slots(s, a);
    lemma_generated_is_consistent(s, a);
    let sv = setter_views(a.api.setters@);
    let one = apply_setter(apply_setter(slots, sv[k1], v1), sv[k2], v2);
    let other = apply_setter(apply_setter(slots, sv[k2], v2), sv[k1], v1);
    assert(one =~= other);
    let cs = classification(s.fields);
    assert forall|i: int| 0 <= i < s.fields.len() implies a.api.finalize.inits@[i] == init_of(
        classified_at(i, s.fields[i]),
    ) by {
        assert(a.api.finalize.inits@[i] == init_of(cs[i]));
    }
}

pub open spec fn positions(cs: Seq<ClassifiedView>) -> Seq<int> {
    cs.map_values(|c: ClassifiedView| c.position)
}

proof fn lemma_parts_follow_kinds(cs1: Seq<ClassifiedView>, cs2: Seq<ClassifiedView>)
    requires
        cs1.len() == cs2.len(),
        forall|i: int|
            #![trigger cs1[i]]
            0 <= i < cs1.len() ==> (cs1[i].position == cs2[i].position && cs1[i].kind
                == cs2[i].kind),
    ensures
        positions(required_part(cs1)) == positions(required_part(cs2)),
        positions(optional_part(cs1)) == positions(optional_part(cs2)),
    decreases cs1.len(),
{
    if cs1.len() > 0 {
        let p1 = cs1.drop_last();
        let p2 = cs2.drop_last();
        assert forall|i: int| #![trigger p1[i]] 0 <= i < p1.len() implies (p1[i].position == p2[i].position
            && p1[i].kind == p2[i].kind) by {
            assert(p1[i] == cs1[i]);
            assert(p2[i] == cs2[i]);
        }
        lemma_parts_follow_kinds(p1, p2);
        let l1 = cs1.last();
        let l2 = cs2.last();
        assert(cs1[cs1.len() - 1] == l1);
        assert(l1.position == l2.position && l1.kind == l2.kind);
        let r1 = required_part(p1);
        let r2 = required_part(p2);
        let o1 = optional_part(p1);
        let o2 = optional_part(p2);
        assert(positions(r1.push(l1)) =~= positions(r1).push(l1.position));
        assert(positions(r2.push(l2)) =~= positions(r2).push(l2.position));
        assert(positions(o1.push(l1)) =~= positions(o1).push(l1.position));
        assert(positions(o2.push(l2)) =~= positions(o2).push(l2.position));
        assert(cs1.drop_last() == p1);
    }
}

/// Classification looks at declared types alone: two field lists with the
/// same declared types, position by position, get the same kinds and the
/// same required and optional positions. In particular classifying one
/// record twice gives the same partition.
pub proof fn law_classification_by_types(f1: Seq<FieldView>, f2: Seq<FieldView>)
    requires
        f1.len() == f2.len(),
        forall|i: int| 0 <= i < f1.len() ==> #[trigger] f1[i].ty == f2[i].ty,
    ensures
        forall|i: int|
            0 <= i < f1.len() ==> #[trigger] classification(f1)[i].kind == classification(f2)[i].kind,
        positions(required_part(classification(f1))) == positions(
            required_part(classification(f2)),
        ),
        positions(optional_part(classification(f1))) == positions(
            optional_part(classification(f2)),
        ),
{
    lemma_parts_follow_kinds(classification(f1), classification(f2));
}


/// `build` succeeds exactly when every required field's slot is filled; what
/// the optional slots hold never decides it. On success, field `i` of the
/// declaration gets the content of slot `i`, and an unset optional field gets
/// `None`.
pub proof fn law_build_succeeds_iff_required_set<V>(
    s: StructView,
    a: Artifact,
    slots: Seq<Option<FieldValue<V>>>,
)
    requires
        generated_for(a, s),
        slots.len() == s.fields.len(),
    ensures
        ({
            let out = build_outcome(check_views(a.api.finalize.checks@), a.api.finalize.inits@, slots);
            &&& out is Ok <==> forall|i: int|
                0 <= i < s.fields.len() && kind_of(#[trigger] s.fields[i].ty) is Required
                    ==> slots[i] is Some
            &&& out is Ok ==> out->Ok_0.len() == s.fields.len() && forall|i: int|
                0 <= i < s.fields.len() ==> #[trigger] out->Ok_0[i] == settled(slots[i])
        }),
{
    lemma_parts_of(s);
    lemma_generated_is_consistent(s, a);
    let cs = classification(s.fields);
    let r = required_part(cs);
    let checks = check_views(a.api.finalize.checks@);
    let inits = a.api.finalize.inits@;
    assert(checks.len() == r.len());
    lemma_first_failing(checks, slots, 0);
    let all_set = forall|i: int|
        0 <= i < s.fields.len() && kind_of(#[trigger] s.fields[i].ty) is Required
            ==> slots[i] is Some;
    if all_set {
        if first_failing(checks, slots, 0) is Some {
            let k0 = first_failing(checks, slots, 0)->Some_0;
            assert(checks[k0] == check_of(r[k0]));
            let q = r[k0].position;
            assert(cs[q] == classified_at(q, s.fields[q]));
            assert(false);
        }
        let out = build_outcome(checks, inits, slots);
        assert forall|i: int| 0 <= i < s.fields.len() implies #[trigger] out->Ok_0[i] == settled(
            slots[i],
        ) by {
            assert(cs[i] == classified_at(i, s.fields[i]));
            assert(inits[i] == init_of(cs[i]));
        }
    }
    if first_failing(checks, slots, 0) is None {
        assert forall|i: int|
            0 <= i < s.fields.len() && kind_of(#[trigger] s.fields[i].ty) is Required implies slots[i] is Some by {
            assert(cs[i] == classified_at(i, s.fields[i]));
            assert(is_required_kind(cs[i].kind));
            let k = choose|k: int| 0 <= k < r.len() && #[trigger] r[k].position == i;
            assert(checks[k] == check_of(r[k]));
            assert(checks[k].slot == i);
            assert(slots[checks[k].slot] is Some);
        }
    }
}

proof fn lemma_run_setters_last<V>(
    slots0: Seq<Option<FieldValue<V>>>,
    ss: Seq<SetterView>,
    vals: Seq<V>,
)
    requires
        ss.len() == vals.len(),
        forall|j: int| 0 <= j < ss.len() ==> 0 <= #[trigger] ss[j].slot < slots0.len(),
    ensures
        run_setters(slots0, ss, vals).len() == slots0.len(),
        forall|i: int|
            0 <= i < slots0.len() ==> #[trigger] run_setters(slots0, ss, vals)[i] == match last_write(
                ss,
                i,
            ) {
                Some(j) => Some(stored(ss[j].kind, vals[j])),
                None => slots0[i],
            },
        forall|i: int|
            #![trigger last_write(ss, i)]
            match last_write(ss, i) {
                Some(j) => 0 <= j < ss.len() && ss[j].slot == i,
                None => true,
            },
    decreases ss.len(),
{
    if ss.len() > 0 {
        let ps = ss.drop_last();
        let pv = vals.drop_last();
        assert forall|j: int| 0 <= j < ps.len() implies 0 <= #[trigger] ps[j].slot < slots0.len() by {
            assert(ps[j] == ss[j]);
        }
        lemma_run_setters_last(slots0, ps, pv);
        assert forall|i: int| #![trigger last_write(ss, i)]
            match last_write(ss, i) {
                Some(j) => 0 <= j < ss.len() && ss[j].slot == i,
                None => true,
            } by {
            if ss.last().slot != i {
                assert(last_write(ss, i) == last_write(ps, i));
                if last_write(ps, i) is Some {
                    let j = last_write(ps, i)->Some_0;
                    assert(ps[j] == ss[j]);
                }
            }
        }
        assert forall|i: int| 0 <= i < slots0.len() implies #[trigger] run_setters(slots0, ss, vals)[i]
            == match last_write(ss, i) {
            Some(j) => Some(stored(ss[j].kind, vals[j])),
            None => slots0[i],
        } by {
            if ss.last().slot != i {
                assert(last_write(ss, i) == last_write(ps, i));
                assert(run_setters(slots0, ps, pv)[i] == run_setters(slots0, ss, vals)[i]);
                if last_write(ps, i) is Some {
                    let j = last_write(ps, i)->Some_0;
                    assert(ps[j] == ss[j]);
                    assert(pv[j] == vals[j]);
                }
            }
        }
    }
}

/// A whole sequence of setter calls, in any order and with repeats: setter
/// `calls[j]` is called with `vals[j]`, and for each field the last call
/// counts. `build` then succeeds exactly when every required field was set,
/// and gives each field, in declaration order, the value of its last call:
/// as passed for a required field, wrapped once in `Some` for an optional
/// one, and `None` for an optional field never set. The outcome depends on
/// nothing else, so the order of calls to different fields does not matter.
pub proof fn law_setter_calls_in_any_order<V>(s: StructView, a: Artifact, calls: Seq<int>, vals: Seq<V>)
    requires
        generated_for(a, s),
        calls.len() == vals.len(),
        forall|j: int| 0 <= j < calls.len() ==> 0 <= #[trigger] calls[j] < a.api.setters@.len(),
    ensures
        ({
            let sv = setter_views(a.api.setters@);
            let ss = called_setters(a, calls);
            let slots = run_setters(fresh_slots::<V>(s.fields.len()), ss, vals);
            let out = build_outcome(check_views(a.api.finalize.checks@), a.api.finalize.inits@, slots);
            &&& forall|j: int| 0 <= j < calls.len() ==> s.fields[#[trigger] ss[j].slot].name == ss[j].name
            &&& out is Ok <==> forall|i: int|
                0 <= i < s.fields.len() && kind_of(#[trigger] s.fields[i].ty) is Required
                    ==> last_write(ss, i) is Some
            &&& out is Ok ==> out->Ok_0.len() == s.fields.len() && forall|i: int|
                0 <= i < s.fields.len() ==> #[trigger] out->Ok_0[i] == match last_write(ss, i) {
                    Some(j) => if kind_of(s.fields[i].ty) is Required {
                        FieldValue::Plain(vals[j])
                    } else {
                        FieldValue::Maybe(Some(vals[j]))
                    },
                    None => FieldValue::Maybe(None),
                }
        }),
{
    lemma_setter_slots(s, a);
    let sv = setter_views(a.api.setters@);
    let ss = called_setters(a, calls);
    let fresh = fresh_slots::<V>(s.fields.len());
    assert forall|j: int| 0 <= j < ss.len() implies 0 <= #[trigger] ss[j].slot < fresh.len() by {
        assert(ss[j] == sv[calls[j]]);
    }
    lemma_run_setters_last(fresh, ss, vals);
    let slots = run_setters(fresh, ss, vals);
    law_build_succeeds_iff_required_set(s, a, slots);
    assert forall|j: int| 0 <= j < calls.len() implies s.fields[#[trigger] ss[j].slot].name == ss[j].name by {
        assert(ss[j] == sv[calls[j]]);
    }
    assert forall|i: int| 0 <= i < s.fields.len() implies (slots[i] is Some <==> last_write(ss, i) is Some)
        && #[trigger] settled(slots[i]) == match last_write(ss, i) {
        Some(j) => if kind_of(s.fields[i].ty) is Required {
            FieldValue::Plain(vals[j])
        } else {
            FieldValue::Maybe(Some(vals[j]))
        },
        None => FieldValue::Maybe(None),
    } by {
        assert(slots[i] == match last_write(ss, i) {
            Some(j) => Some(stored(ss[j].kind, vals[j])),
            None => fresh[i],
        });
        if last_write(ss, i) is Some {
            let j = last_write(ss, i)->Some_0;
            assert(ss[j] == sv[calls[j]]);
        }
    }
}


/// The calls `calls[j]` with `vals[j]`, as setter views of `a`.
pub open spec fn called_setters(a: Artifact, calls: Seq<int>) -> Seq<SetterView> {
    Seq::new(calls.len(), |j: int| setter_views(a.api.setters@)[calls[j]])
}

/// Two sequences of setter calls that leave every field with the same last
/// value (or both leave it unset), whatever their order, give builders with
/// the same slots, hence the same outcome of `build`.
pub proof fn law_same_last_values_same_build<V>(
    s: StructView,
    a: Artifact,
    calls1: Seq<int>,
    vals1: Seq<V>,
    calls2: Seq<int>,
    vals2: Seq<V>,
)
    requires
        generated_for(a, s),
        calls1.len() == vals1.len(),
        calls2.len() == vals2.len(),
        forall|j: int| 0 <= j < calls1.len() ==> 0 <= #[trigger] calls1[j] < a.api.setters@.len(),
        forall|j: int| 0 <= j < calls2.len() ==> 0 <= #[trigger] calls2[j] < a.api.setters@.len(),
        forall|i: int|
            0 <= i < s.fields.len() ==> match (
                #[trigger] last_write(called_setters(a, calls1), i),
                last_write(called_setters(a, calls2), i),
            ) {
                (Some(j1), Some(j2)) => vals1[j1] == vals2[j2],
                (None, None) => true,
                _ => false,
            },
    ensures
        run_setters(fresh_slots::<V>(s.fields.len()), called_setters(a, calls1), vals1)
            == run_setters(fresh_slots::<V>(s.fields.len()), called_setters(a, calls2), vals2),
{
    lemma_setter_slots(s, a);
    let sv = setter_views(a.api.setters@);
    let ss1 = called_setters(a, calls1);
    let ss2 = called_setters(a, calls2);
    let fresh = fresh_slots::<V>(s.fields.len());
    assert forall|j: int| 0 <= j < ss1.len() implies 0 <= #[trigger] ss1[j].slot < fresh.len() by {
        assert(ss1[j] == sv[calls1[j]]);
    }
    assert forall|j: int| 0 <= j < ss2.len() implies 0 <= #[trigger] ss2[j].slot < fresh.len() by {
        assert(ss2[j] == sv[calls2[j]]);
    }
    lemma_run_setters_last(fresh, ss1, vals1);
    lemma_run_setters_last(fresh, ss2, vals2);
    let r1 = run_setters(fresh, ss1, vals1);
    let r2 = run_setters(fresh, ss2, vals2);
    assert forall|i: int| 0 <= i < r1.len() implies r1[i] == r2[i] by {
        if last_write(ss1, i) is Some {
            let j1 = last_write(ss1, i)->Some_0;
            let j2 = last_write(ss2, i)->Some_0;
            assert(ss1[j1] == sv[calls1[j1]]);
            assert(ss2[j2] == sv[calls2[j2]]);
        }
    }
    assert(r1 =~= r2);
}

} // verus!
