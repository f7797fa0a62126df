use crate::api::{
    BuilderApi, check_of, check_views, init_of, setter_views, setters_of,
    builder_api,
};
use crate::classify::{ClassifiedView, classification, classify_fields, required_part};
use crate::layout::{
    BuilderLayout, Factory, builder_layout, builder_name_of, factory, field_names, slot_views,
};
use crate::schema::{
    Declaration, SchemaError, StructDescriptor, StructView, descriptor_of, schema_error_of, texts,
    validate,
};
use vstd::prelude::*;

verus! {

/// Everything generated for one record: the builder's storage, the factory
/// on the record type, the setters and `build`.
#[derive(Debug, PartialEq, Eq)]
pub struct Artifact {
    pub target: String,
    pub layout: BuilderLayout,
    pub factory: Factory,
    pub api: BuilderApi,
}

/// `a` is the builder generated for the record `s`.
pub open spec fn generated_for(a: Artifact, s: StructView) -> bool {
    let cs = classification(s.fields);
    &&& a.target@ == s.name
    &&& a.layout.name@ == builder_name_of(s.name)
    &&& slot_views(a.layout.slots@) == s.fields
    &&& a.factory.target@ == s.name
    &&& a.factory.builder@ == builder_name_of(s.name)
    &&& texts(a.factory.absent@) == field_names(s.fields)
    &&& setter_views(a.api.setters@) == setters_of(cs)
    &&& a.api.finalize.target@ == s.name
    &&& check_views(a.api.finalize.checks@) == required_part(cs).map_values(
        |c: ClassifiedView| check_of(c),
    )
    &&& a.api.finalize.inits@ == cs.map_values(|c: ClassifiedView| init_of(c))
}

/// Synthesizes the builder of a validated record.
pub fn generate(s: &StructDescriptor) -> (r: Artifact)
    ensures
        generated_for(r, s@),
{
    let layout = builder_layout(s);
    let made = factory(s);
    let classified = classify_fields(s);
    let api = builder_api(&s.name, &classified);
    Artifact { target: s.name.clone(), layout, factory: made, api }
}

/// Checks that `decl` is a struct with named fields and no generic
/// parameter, then synthesizes its builder. Nothing is generated for any
/// other declaration.
pub fn derive(decl: Declaration) -> (r: Result<Artifact, SchemaError>)
    ensures
        schema_error_of(decl) is Some ==> r == Err::<Artifact, SchemaError>(
            schema_error_of(decl)->Some_0,
        ),
        schema_error_of(decl) is None ==> r is Ok && generated_for(r->Ok_0, descriptor_of(decl)@),
{
    match validate(decl) {
        Ok(s) => Ok(generate(&s)),
        Err(e) => Err(e),
    }
}

} // verus!
