use crate::api::{CheckView, FieldInit, Finalize, Setter, SetterKind, SetterView, check_views};
use crate::layout::BuilderLayout;
use vstd::prelude::*;

verus! {

/// The value of one field of the built record: a plain value for a required
/// field, an `Option` for an optional one.
#[derive(PartialEq, Eq, Debug)]
pub enum FieldValue<V> {
    Plain(V),
    Maybe(Option<V>),
}

/// A live builder: one slot per field, each absent (`None`) or holding a value.
pub struct BuilderState<V> {
    pub slots: Vec<Option<FieldValue<V>>>,
}

/// What a setter of kind `kind` stores for `v`.
pub open spec fn stored<V>(kind: SetterKind, v: V) -> FieldValue<V> {
    match kind {
        SetterKind::Store => FieldValue::Plain(v),
        SetterKind::StoreWrapped => FieldValue::Maybe(Some(v)),
    }
}

/// The slots after running `setter` with `v`.
pub open spec fn apply_setter<V>(slots: Seq<Option<FieldValue<V>>>, setter: SetterView, v: V) -> Seq<
    Option<FieldValue<V>>,
> {
    slots.update(setter.slot, Some(stored(setter.kind, v)))
}

/// The slots after running `setters[k]` with `vals[k]`, for each `k` in order.
pub open spec fn run_setters<V>(
    slots: Seq<Option<FieldValue<V>>>,
    setters: Seq<SetterView>,
    vals: Seq<V>,
) -> Seq<Option<FieldValue<V>>>
    decreases setters.len(),
{
    if setters.len() == 0 || vals.len() == 0 {
        slots
    } else {
        apply_setter(run_setters(slots, setters.drop_last(), vals.drop_last()), setters.last(), vals.last())
    }
}

/// The index of the last of `setters` that writes slot `i`, if any does.
pub open spec fn last_write(setters: Seq<SetterView>, i: int) -> Option<int>
    decreases setters.len(),
{
    if setters.len() == 0 {
        None
    } else if setters.last().slot == i {
        Some(setters.len() - 1)
    } else {
        last_write(setters.drop_last(), i)
    }
}

/// The value a field takes from its slot once the presence checks passed.
pub open spec fn settled<V>(slot: Option<FieldValue<V>>) -> FieldValue<V> {
    match slot {
        Some(x) => x,
        None => FieldValue::Maybe(None),
    }
}

/// The slots of a fresh builder of `n` fields.
pub open spec fn fresh_slots<V>(n: nat) -> Seq<Option<FieldValue<V>>> {
    Seq::new(n, |i: int| None::<FieldValue<V>>)
}

/// The index of the first check, from `k` on, whose slot is absent.
pub open spec fn first_failing<V>(
    checks: Seq<CheckView>,
    slots: Seq<Option<FieldValue<V>>>,
    k: int,
) -> Option<int>
    decreases checks.len() - k,
{
    if k < 0 || k >= checks.len() {
        None
    } else if slots[checks[k].slot] is None {
        Some(k)
    } else {
        first_failing(checks, slots, k + 1)
    }
}

/// The value an initializer takes from its slot.
pub open spec fn init_value<V>(init: FieldInit, slot: Option<FieldValue<V>>) -> FieldValue<V> {
    match slot {
        Some(x) => x,
        None => match init {
            FieldInit::UnwrapOrAbsent => FieldValue::Maybe(None),
            FieldInit::Unwrap => arbitrary(),
        },
    }
}

/// What `build` returns on `slots`: the message of the first failing check,
/// or the field values in declaration order.
pub open spec fn build_outcome<V>(
    checks: Seq<CheckView>,
    inits: Seq<FieldInit>,
    slots: Seq<Option<FieldValue<V>>>,
) -> Result<Seq<FieldValue<V>>, Seq<char>> {
    match first_failing(checks, slots, 0) {
        Some(k) => Err(checks[k].message),
        None => Ok(Seq::new(inits.len(), |i: int| init_value(inits[i], slots[i]))),
    }
}

/// `fin` fits a builder of `n` slots: one initializer per slot, checks on
/// existing slots, and a check on every slot that is unwrapped.
pub open spec fn finalize_fits(fin: Finalize, n: int) -> bool {
    let checks = check_views(fin.checks@);
    &&& fin.inits@.len() == n
    &&& forall|k: int| 0 <= k < checks.len() ==> 0 <= #[trigger] checks[k].slot < n
    &&& forall|i: int|
        0 <= i < n && fin.inits@[i] == FieldInit::Unwrap ==> exists|k: int|
            0 <= k < checks.len() && #[trigger] checks[k].slot == i
}

pub open spec fn value_view<V>(v: FieldValue<&V>) -> FieldValue<V> {
    match v {
        FieldValue::Plain(x) => FieldValue::Plain(*x),
        FieldValue::Maybe(Some(x)) => FieldValue::Maybe(Some(*x)),
        FieldValue::Maybe(None) => FieldValue::Maybe(None),
    }
}

pub open spec fn values_view<V>(v: Seq<FieldValue<&V>>) -> Seq<FieldValue<V>> {
    v.map_values(|x: FieldValue<&V>| value_view(x))
}

proof fn lemma_no_failure_from<V>(checks: Seq<CheckView>, slots: Seq<Option<FieldValue<V>>>, k: int)
    requires
        0 <= k <= checks.len(),
        first_failing(checks, slots, k) is None,
    ensures
        forall|j: int| k <= j < checks.len() ==> slots[#[trigger] checks[j].slot] is Some,
    decreases checks.len() - k,
{
    if k < checks.len() {
        lemma_no_failure_from(checks, slots, k + 1);
    }
}

impl<V> BuilderState<V> {
    /// A fresh builder: every slot absent.
    pub fn new(layout: &BuilderLayout) -> (r: Self)
        ensures
            r.slots@ == fresh_slots::<V>(layout.slots@.len()),
    {
        let mut slots: Vec<Option<FieldValue<V>>> = Vec::new();
        let mut i: usize = 0;
        while i < layout.slots.len()
            invariant
                i <= layout.slots.len(),
                slots@ == Seq::new(i as nat, |j: int| None::<FieldValue<V>>),
            decreases layout.slots.len() - i,
        {
            slots.push(None);
            i += 1;
            assert(slots@ =~= Seq::new(i as nat, |j: int| None::<FieldValue<V>>));
        }
        BuilderState { slots }
    }

    /// Runs `setter` with `value`.
    pub fn set(&mut self, setter: &Setter, value: V)
        requires
            setter.slot < old(self).slots.len(),
        ensures
            final(self).slots@ == apply_setter(old(self).slots@, setter@, value),
    {
        let stored = match setter.kind {
            SetterKind::Store => FieldValue::Plain(value),
            SetterKind::StoreWrapped => FieldValue::Maybe(Some(value)),
        };
        self.slots.set(setter.slot, Some(stored));
    }

    /// Runs the presence checks in order and fails with the message of the
    /// first one whose slot is absent; otherwise returns the field values in
    /// declaration order. The slots are only read.
    pub fn build<'a>(&'a self, fin: &Finalize) -> (r: Result<Vec<FieldValue<&'a V>>, String>)
        requires
            finalize_fits(*fin, self.slots@.len() as int),
        ensures
            match r {
                Ok(vals) => build_outcome(check_views(fin.checks@), fin.inits@, self.slots@) == Ok::<
                    Seq<FieldValue<V>>,
                    Seq<char>,
                >(values_view(vals@)),
                Err(m) => build_outcome(check_views(fin.checks@), fin.inits@, self.slots@) == Err::<
                    Seq<FieldValue<V>>,
                    Seq<char>,
                >(m@),
            },
    {
        let ghost checks = check_views(fin.checks@);
        let mut k: usize = 0;
        while k < fin.checks.len()
            invariant
                checks == check_views(fin.checks@),
                finalize_fits(*fin, self.slots@.len() as int),
                k <= fin.checks.len(),
                first_failing(checks, self.slots@, 0) == first_failing(checks, self.slots@, k as int),
            decreases fin.checks.len() - k,
        {
            assert(checks[k as int] == fin.checks@[k as int]@);
            let slot = fin.checks[k].slot;
            if self.slots[slot].is_none() {
                return Err(fin.checks[k].message.clone());
            }
            k += 1;
        }
        proof {
            lemma_no_failure_from(checks, self.slots@, 0);
        }
        let mut vals: Vec<FieldValue<&'a V>> = Vec::new();
        let mut i: usize = 0;
        while i < self.slots.len()
            invariant
                checks == check_views(fin.checks@),
                finalize_fits(*fin, self.slots@.len() as int),
                first_failing(checks, self.slots@, 0) is None,
                forall|j: int| 0 <= j < checks.len() ==> self.slots@[#[trigger] checks[j].slot] is Some,
                i <= self.slots.len(),
                values_view(vals@) == Seq::new(
                    i as nat,
                    |j: int| init_value(fin.inits@[j], self.slots@[j]),
                ),
            decreases self.slots.len() - i,
        {
            let ghost before = vals@;
            let v: FieldValue<&'a V> = match &self.slots[i] {
                Some(FieldValue::Plain(x)) => FieldValue::Plain(x),
                Some(FieldValue::Maybe(Some(x))) => FieldValue::Maybe(Some(x)),
                Some(FieldValue::Maybe(None)) => FieldValue::Maybe(None),
                None => FieldValue::Maybe(None),
            };
            proof {
                if fin.inits@[i as int] == FieldInit::Unwrap {
                    let k = choose|k: int| 0 <= k < checks.len() && #[trigger] checks[k].slot == i;
                    assert(self.slots@[checks[k].slot] is Some);
                }
            }
            vals.push(v);
            i += 1;
            assert(values_view(vals@) =~= values_view(before).push(value_view(v)));
            assert(values_view(vals@) =~= Seq::new(
                i as nat,
                |j: int| init_value(fin.inits@[j], self.slots@[j]),
            ));
        }
        Ok(vals)
    }
}

} // verus!
