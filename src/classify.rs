use crate::schema::{
    FieldDescriptor, FieldView, GenericArg, StructDescriptor, TypeExpr, TypeView, arg_views,
    segment_views,
};
use vstd::prelude::*;
use vstd::string::*;

verus! {

/// Whether a field must be set before the builder can finish.
#[derive(Debug, PartialEq, Eq)]
pub enum FieldKind {
    Required,
    /// The declared type is `Option<inner>`.
    Optional(TypeExpr),
}

/// The mathematical value of a `FieldKind`.
pub enum KindView {
    Required,
    Optional(TypeView),
}

impl View for FieldKind {
    type V = KindView;

    open spec fn view(&self) -> KindView {
        match self {
            FieldKind::Required => KindView::Required,
            FieldKind::Optional(t) => KindView::Optional(t@),
        }
    }
}

/// The classification of a declared type. Only `Option<T>` written as one
/// path segment, neither qualified nor led by `::`, with exactly one
/// argument, a type, is optional; that argument is taken as written, without
/// looking into it again. Any other path to a type named `Option`
/// (`std::option::Option<T>`) is left unresolved, hence required.
pub open spec fn kind_of(t: TypeView) -> KindView {
    match t {
        TypeView::Path { qself, global, segments, .. } => if !qself && !global && segments.len()
            == 1 && segments[0].name == "Option"@ && segments[0].args.len() == 1
            && segments[0].args[0] is Type {
            KindView::Optional(TypeView::Other { text: segments[0].args[0]->Type_0 })
        } else {
            KindView::Required
        },
        TypeView::Other { .. } => KindView::Required,
    }
}

/// The wrapped type when `ty` is the optional wrapper, `None` otherwise.
pub fn optional_inner(ty: &TypeExpr) -> (r: Option<TypeExpr>)
    ensures
        match kind_of(ty@) {
            KindView::Required => r is None,
            KindView::Optional(inner) => r is Some && r->0@ == inner,
        },
{
    match ty {
        TypeExpr::Path { qself, global, segments, .. } => {
            if *qself || *global || segments.len() != 1 {
                return None;
            }
            let seg = &segments[0];
            proof {
                assert(segment_views(segments@)[0] == seg@);
            }
            if seg.name != String::from_str("Option") || seg.args.len() != 1 {
                return None;
            }
            proof {
                assert(arg_views(seg.args@)[0] == seg.args@[0]@);
            }
            match &seg.args[0] {
                GenericArg::Type(t) => Some(TypeExpr::Other { text: t.clone() }),
                GenericArg::Other(_) => None,
            }
        },
        TypeExpr::Other { .. } => None,
    }
}

/// A field with its position in the declaration and its kind.
#[derive(Debug, PartialEq, Eq)]
pub struct ClassifiedField {
    pub position: usize,
    pub descriptor: FieldDescriptor,
    pub kind: FieldKind,
}

/// The mathematical value of a classified field.
pub struct ClassifiedView {
    pub position: int,
    pub field: FieldView,
    pub kind: KindView,
}

impl View for ClassifiedField {
    type V = ClassifiedView;

    open spec fn view(&self) -> ClassifiedView {
        ClassifiedView { position: self.position as int, field: self.descriptor@, kind: self.kind@ }
    }
}

pub open spec fn classified_views(v: Seq<ClassifiedField>) -> Seq<ClassifiedView> {
    v.map_values(|c: ClassifiedField| c@)
}

/// The classification of the field at `position`.
pub open spec fn classified_at(position: int, f: FieldView) -> ClassifiedView {
    ClassifiedView { position, field: f, kind: kind_of(f.ty) }
}

/// Every field classified, in declaration order.
pub open spec fn classification(fields: Seq<FieldView>) -> Seq<ClassifiedView> {
    Seq::new(fields.len(), |i: int| classified_at(i, fields[i]))
}

/// The required entries of `cs`, in their relative order.
pub open spec fn required_part(cs: Seq<ClassifiedView>) -> Seq<ClassifiedView>
    decreases cs.len(),
{
    if cs.len() == 0 {
        Seq::empty()
    } else if cs.last().kind is Required {
        required_part(cs.drop_last()).push(cs.last())
    } else {
        required_part(cs.drop_last())
    }
}

/// The optional entries of `cs`, in their relative order.
pub open spec fn optional_part(cs: Seq<ClassifiedView>) -> Seq<ClassifiedView>
    decreases cs.len(),
{
    if cs.len() == 0 {
        Seq::empty()
    } else if cs.last().kind is Optional {
        optional_part(cs.drop_last()).push(cs.last())
    } else {
        optional_part(cs.drop_last())
    }
}

/// Classifies one field.
pub fn classify_field(position: usize, f: &FieldDescriptor) -> (r: ClassifiedField)
    ensures
        r@ == classified_at(position as int, f@),
{
    let kind = match optional_inner(&f.ty) {
        Some(inner) => FieldKind::Optional(inner),
        None => FieldKind::Required,
    };
    ClassifiedField { position, descriptor: f.duplicate(), kind }
}

/// Classifies every field of the record, in declaration order.
pub fn classify_fields(s: &StructDescriptor) -> (r: Vec<ClassifiedField>)
    ensures
        classified_views(r@) == classification(s@.fields),
{
    let mut out: Vec<ClassifiedField> = Vec::new();
    let mut i: usize = 0;
    while i < s.fields.len()
        invariant
            i <= s.fields.len(),
            classified_views(out@) == classification(s@.fields).take(i as int),
        decreases s.fields.len() - i,
    {
        let c = classify_field(i, &s.fields[i]);
        assert(s@.fields[i as int] == s.fields@[i as int]@);
        let ghost before = out@;
        out.push(c);
        assert(out@ == before.push(c));
        assert(classified_views(out@) =~= classified_views(before).push(c@));
        i += 1;
        assert(classified_views(out@) =~= classification(s@.fields).take(i as int));
    }
    assert(classification(s@.fields).take(i as int) =~= classification(s@.fields));
    out
}

fn duplicate_classified(c: &ClassifiedField) -> (r: ClassifiedField)
    ensures
        r@ == c@,
{
    let kind = match &c.kind {
        FieldKind::Required => FieldKind::Required,
        FieldKind::Optional(t) => FieldKind::Optional(t.duplicate()),
    };
    ClassifiedField { position: c.position, descriptor: c.descriptor.duplicate(), kind }
}

/// Splits classified fields into the required ones and the optional ones,
/// each keeping the relative order of `cs`.
pub fn partition(cs: &Vec<ClassifiedField>) -> (r: (Vec<ClassifiedField>, Vec<ClassifiedField>))
    ensures
        classified_views(r.0@) == required_part(classified_views(cs@)),
        classified_views(r.1@) == optional_part(classified_views(cs@)),
{
    let ghost all = classified_views(cs@);
    let mut required: Vec<ClassifiedField> = Vec::new();
    let mut optional: Vec<ClassifiedField> = Vec::new();
    let mut i: usize = 0;
    while i < cs.len()
        invariant
            i <= cs.len(),
            all == classified_views(cs@),
            classified_views(required@) == required_part(all.take(i as int)),
            classified_views(optional@) == optional_part(all.take(i as int)),
        decreases cs.len() - i,
    {
        assert(all.take(i + 1).drop_last() =~= all.take(i as int));
        let c = duplicate_classified(&cs[i]);
        if c.kind.is_required() {
            required.push(c);
        } else {
            optional.push(c);
        }
        i += 1;
        assert(classified_views(required@) =~= required_part(all.take(i as int)));
        assert(classified_views(optional@) =~= optional_part(all.take(i as int)));
    }
    assert(all.take(i as int) =~= all);
    (required, optional)
}

impl FieldKind {
    pub fn is_required(&self) -> (r: bool)
        ensures
            r == (self@ is Required),
    {
        match self {
            FieldKind::Required => true,
            FieldKind::Optional(_) => false,
        }
    }
}

} // verus!
