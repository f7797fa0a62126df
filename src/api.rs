use crate::classify::{
    ClassifiedField, ClassifiedView, FieldKind, KindView, classified_views, optional_part, partition,
    required_part,
};
use crate::schema::{TypeExpr, TypeView};
use vstd::prelude::*;
use vstd::string::*;

verus! {

/// What a setter stores in its slot.
#[derive(PartialEq, Eq, Structural, Debug, Clone, Copy)]
pub enum SetterKind {
    /// `Some(value)`: the parameter has the field's declared type.
    Store,
    /// `Some(Some(value))`: the parameter has the inner type of an optional field.
    StoreWrapped,
}

/// A setter `name(value: param)` of the builder, writing slot `slot` and
/// returning the builder for chained calls.
#[derive(Debug, PartialEq, Eq)]
pub struct Setter {
    pub name: String,
    pub slot: usize,
    pub param: TypeExpr,
    pub kind: SetterKind,
}

/// The mathematical value of a setter.
pub struct SetterView {
    pub name: Seq<char>,
    pub slot: int,
    pub param: TypeView,
    pub kind: SetterKind,
}

impl View for Setter {
    type V = SetterView;

    open spec fn view(&self) -> SetterView {
        SetterView { name: self.name@, slot: self.slot as int, param: self.param@, kind: self.kind }
    }
}

/// A test in `build` that fails with `message` when slot `slot` is absent.
#[derive(Debug, PartialEq, Eq)]
pub struct PresenceCheck {
    pub slot: usize,
    pub message: String,
}

/// The mathematical value of a presence check.
pub struct CheckView {
    pub slot: int,
    pub message: Seq<char>,
}

impl View for PresenceCheck {
    type V = CheckView;

    open spec fn view(&self) -> CheckView {
        CheckView { slot: self.slot as int, message: self.message@ }
    }
}

/// How `build` obtains a field's value from its slot.
#[derive(PartialEq, Eq, Structural, Debug, Clone, Copy)]
pub enum FieldInit {
    /// The slot's content; the presence checks guarantee there is one.
    Unwrap,
    /// The slot's content, or `None` when the slot is absent.
    UnwrapOrAbsent,
}

/// The `build` operation: the presence checks, run in order, then one
/// initializer per field in declaration order.
#[derive(Debug, PartialEq, Eq)]
pub struct Finalize {
    pub target: String,
    pub checks: Vec<PresenceCheck>,
    pub inits: Vec<FieldInit>,
}

/// The operations of a builder beyond its factory.
#[derive(Debug, PartialEq, Eq)]
pub struct BuilderApi {
    pub setters: Vec<Setter>,
    pub finalize: Finalize,
}

pub open spec fn setter_views(v: Seq<Setter>) -> Seq<SetterView> {
    v.map_values(|s: Setter| s@)
}

pub open spec fn check_views(v: Seq<PresenceCheck>) -> Seq<CheckView> {
    v.map_values(|c: PresenceCheck| c@)
}

/// The error text for a required field that was never set.
pub open spec fn missing_message_of(name: Seq<char>) -> Seq<char> {
    "Field "@ + name + " was never set"@
}

pub open spec fn required_setter(c: ClassifiedView) -> SetterView {
    SetterView { name: c.field.name, slot: c.position, param: c.field.ty, kind: SetterKind::Store }
}

pub open spec fn inner_or_declared(c: ClassifiedView) -> TypeView {
    match c.kind {
        KindView::Optional(t) => t,
        KindView::Required => c.field.ty,
    }
}

pub open spec fn optional_setter(c: ClassifiedView) -> SetterView {
    SetterView {
        name: c.field.name,
        slot: c.position,
        param: inner_or_declared(c),
        kind: SetterKind::StoreWrapped,
    }
}

pub open spec fn check_of(c: ClassifiedView) -> CheckView {
    CheckView { slot: c.position, message: missing_message_of(c.field.name) }
}

pub open spec fn init_of(c: ClassifiedView) -> FieldInit {
    if c.kind is Required {
        FieldInit::Unwrap
    } else {
        FieldInit::UnwrapOrAbsent
    }
}

/// All setters of a builder: those of the required fields, then those of the
/// optional fields, each group in declaration order.
pub open spec fn setters_of(cs: Seq<ClassifiedView>) -> Seq<SetterView> {
    required_part(cs).map_values(|c: ClassifiedView| required_setter(c)) + optional_part(
        cs,
    ).map_values(|c: ClassifiedView| optional_setter(c))
}

/// The error message for the field `name`.
pub fn missing_message(name: &String) -> (r: String)
    ensures
        r@ == missing_message_of(name@),
{
    String::from_str("Field ").concat(name.as_str()).concat(" was never set")
}

/// A setter and a presence check for each required field.
fn required_setters(req: &Vec<ClassifiedField>) -> (r: (Vec<Setter>, Vec<PresenceCheck>))
    ensures
        setter_views(r.0@) == classified_views(req@).map_values(
            |c: ClassifiedView| required_setter(c),
        ),
        check_views(r.1@) == classified_views(req@).map_values(|c: ClassifiedView| check_of(c)),
{
    let ghost cs = classified_views(req@);
    let mut setters: Vec<Setter> = Vec::new();
    let mut checks: Vec<PresenceCheck> = Vec::new();
    let mut i: usize = 0;
    while i < req.len()
        invariant
            i <= req.len(),
            cs == classified_views(req@),
            setter_views(setters@) == cs.take(i as int).map_values(
                |c: ClassifiedView| required_setter(c),
            ),
            check_views(checks@) == cs.take(i as int).map_values(|c: ClassifiedView| check_of(c)),
        decreases req.len() - i,
    {
        let c = &req[i];
        assert(cs[i as int] == c@);
        let s = Setter {
            name: c.descriptor.name.clone(),
            slot: c.position,
            param: c.descriptor.ty.duplicate(),
            kind: SetterKind::Store,
        };
        let k = PresenceCheck { slot: c.position, message: missing_message(&c.descriptor.name) };
        let ghost s0 = setters@;
        let ghost k0 = checks@;
        setters.push(s);
        checks.push(k);
        assert(setter_views(setters@) =~= setter_views(s0).push(s@));
        assert(check_views(checks@) =~= check_views(k0).push(k@));
        i += 1;
        assert(setter_views(setters@) =~= cs.take(i as int).map_values(
            |c: ClassifiedView| required_setter(c),
        ));
        assert(check_views(checks@) =~= cs.take(i as int).map_values(|c: ClassifiedView| check_of(c)));
    }
    assert(cs.take(i as int) =~= cs);
    (setters, checks)
}

/// A wrapping setter for each optional field.
fn optional_setters(opt: &Vec<ClassifiedField>) -> (r: Vec<Setter>)
    ensures
        setter_views(r@) == classified_views(opt@).map_values(
            |c: ClassifiedView| optional_setter(c),
        ),
{
    let ghost cs = classified_views(opt@);
    let mut setters: Vec<Setter> = Vec::new();
    let mut i: usize = 0;
    while i < opt.len()
        invariant
            i <= opt.len(),
            cs == classified_views(opt@),
            setter_views(setters@) == cs.take(i as int).map_values(
                |c: ClassifiedView| optional_setter(c),
            ),
        decreases opt.len() - i,
    {
        let c = &opt[i];
        assert(cs[i as int] == c@);
        let param = match &c.kind {
            FieldKind::Optional(t) => t.duplicate(),
            FieldKind::Required => c.descriptor.ty.duplicate(),
        };
        let s = Setter {
            name: c.descriptor.name.clone(),
            slot: c.position,
            param,
            kind: SetterKind::StoreWrapped,
        };
        let ghost s0 = setters@;
        setters.push(s);
        assert(setter_views(setters@) =~= setter_views(s0).push(s@));
        i += 1;
        assert(setter_views(setters@) =~= cs.take(i as int).map_values(
            |c: ClassifiedView| optional_setter(c),
        ));
    }
    assert(cs.take(i as int) =~= cs);
    setters
}

/// One initializer per field, in declaration order.
fn field_inits(cs: &Vec<ClassifiedField>) -> (r: Vec<FieldInit>)
    ensures
        r@ == classified_views(cs@).map_values(|c: ClassifiedView| init_of(c)),
{
    let ghost all = classified_views(cs@);
    let mut inits: Vec<FieldInit> = Vec::new();
    let mut i: usize = 0;
    while i < cs.len()
        invariant
            i <= cs.len(),
            all == classified_views(cs@),
            inits@ == all.take(i as int).map_values(|c: ClassifiedView| init_of(c)),
        decreases cs.len() - i,
    {
        assert(all[i as int] == cs@[i as int]@);
        if cs[i].kind.is_required() {
            inits.push(FieldInit::Unwrap);
        } else {
            inits.push(FieldInit::UnwrapOrAbsent);
        }
        i += 1;
        assert(inits@ =~= all.take(i as int).map_values(|c: ClassifiedView| init_of(c)));
    }
    assert(all.take(i as int) =~= all);
    inits
}

/// The setters and the `build` operation of the builder of `target`, from
/// its fields classified in declaration order.
pub fn builder_api(target: &String, classified: &Vec<ClassifiedField>) -> (r: BuilderApi)
    ensures
        setter_views(r.setters@) == setters_of(classified_views(classified@)),
        r.finalize.target@ == target@,
        check_views(r.finalize.checks@) == required_part(classified_views(classified@)).map_values(
            |c: ClassifiedView| check_of(c),
        ),
        r.finalize.inits@ == classified_views(classified@).map_values(
            |c: ClassifiedView| init_of(c),
        ),
{
    let (req, opt) = partition(classified);
    let (mut setters, checks) = required_setters(&req);
    let mut wrapped = optional_setters(&opt);
    let ghost s0 = setters@;
    let ghost w0 = wrapped@;
    setters.append(&mut wrapped);
    assert(setter_views(setters@) =~= setter_views(s0) + setter_views(w0));
    let inits = field_inits(classified);
    BuilderApi { setters, finalize: Finalize { target: target.clone(), checks, inits } }
}

} // verus!
