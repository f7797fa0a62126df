use crate::schema::{FieldView, StructDescriptor, TypeExpr, texts};
use vstd::prelude::*;
use vstd::string::*;

verus! {

/// One storage slot of the builder: it holds an `Option` of the field's
/// declared type, whatever the field's kind.
#[derive(Debug, PartialEq, Eq)]
pub struct Slot {
    pub name: String,
    pub ty: TypeExpr,
}

impl View for Slot {
    type V = FieldView;

    open spec fn view(&self) -> FieldView {
        FieldView { name: self.name@, ty: self.ty@ }
    }
}

pub open spec fn slot_views(v: Seq<Slot>) -> Seq<FieldView> {
    v.map_values(|s: Slot| s@)
}

/// The storage of a builder: its type name and one slot per field, in
/// declaration order.
#[derive(Debug, PartialEq, Eq)]
pub struct BuilderLayout {
    pub name: String,
    pub slots: Vec<Slot>,
}

/// The factory `Target::builder()`: a fresh builder whose slots are all absent.
#[derive(Debug, PartialEq, Eq)]
pub struct Factory {
    pub target: String,
    pub builder: String,
    pub absent: Vec<String>,
}

/// The name of the builder type of `target`.
pub open spec fn builder_name_of(target: Seq<char>) -> Seq<char> {
    target + "Builder"@
}

pub open spec fn field_names(fields: Seq<FieldView>) -> Seq<Seq<char>> {
    fields.map_values(|f: FieldView| f.name)
}

/// Names the builder type after its target.
pub fn builder_name(target: &String) -> (r: String)
    ensures
        r@ == builder_name_of(target@),
{
    target.clone().concat("Builder")
}

/// The storage layout of the builder of `s`.
pub fn builder_layout(s: &StructDescriptor) -> (r: BuilderLayout)
    ensures
        r.name@ == builder_name_of(s@.name),
        slot_views(r.slots@) == s@.fields,
{
    let mut slots: Vec<Slot> = Vec::new();
    let mut i: usize = 0;
    while i < s.fields.len()
        invariant
            i <= s.fields.len(),
            slot_views(slots@) == s@.fields.take(i as int),
        decreases s.fields.len() - i,
    {
        let f = s.fields[i].duplicate();
        assert(s@.fields[i as int] == s.fields@[i as int]@);
        let ghost before = slots@;
        let slot = Slot { name: f.name, ty: f.ty };
        slots.push(slot);
        assert(slot_views(slots@) =~= slot_views(before).push(slot@));
        i += 1;
        assert(slot_views(slots@) =~= s@.fields.take(i as int));
    }
    assert(s@.fields.take(i as int) =~= s@.fields);
    BuilderLayout { name: builder_name(&s.name), slots }
}

/// The factory of the builder of `s`: every field starts absent.
pub fn factory(s: &StructDescriptor) -> (r: Factory)
    ensures
        r.target@ == s@.name,
        r.builder@ == builder_name_of(s@.name),
        texts(r.absent@) == field_names(s@.fields),
{
    let mut absent: Vec<String> = Vec::new();
    let mut i: usize = 0;
    while i < s.fields.len()
        invariant
            i <= s.fields.len(),
            texts(absent@) == field_names(s@.fields).take(i as int),
        decreases s.fields.len() - i,
    {
        assert(s@.fields[i as int] == s.fields@[i as int]@);
        let ghost before = absent@;
        let name = s.fields[i].name.clone();
        absent.push(name);
        assert(texts(absent@) =~= texts(before).push(name@));
        i += 1;
        assert(texts(absent@) =~= field_names(s@.fields).take(i as int));
    }
    assert(field_names(s@.fields).take(i as int) =~= field_names(s@.fields));
    Factory { target: s.name.clone(), builder: builder_name(&s.name), absent }
}

} // verus!
