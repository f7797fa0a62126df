use vstd::prelude::*;
use vstd::string::*;

verus! {

/// A generic argument of a path segment, as written.
#[derive(Debug, PartialEq, Eq)]
pub enum GenericArg {
    /// A type argument.
    Type(String),
    /// Any other argument: a lifetime, a constant, an associated binding.
    Other(String),
}

/// The mathematical value of a `GenericArg`.
pub enum ArgView {
    Type(Seq<char>),
    Other(Seq<char>),
}

impl View for GenericArg {
    type V = ArgView;

    open spec fn view(&self) -> ArgView {
        match self {
            GenericArg::Type(t) => ArgView::Type(t@),
            GenericArg::Other(t) => ArgView::Other(t@),
        }
    }
}

pub open spec fn arg_views(v: Seq<GenericArg>) -> Seq<ArgView> {
    v.map_values(|a: GenericArg| a@)
}

/// One segment of a path: `name<args>`.
#[derive(Debug, PartialEq, Eq)]
pub struct Segment {
    pub name: String,
    pub args: Vec<GenericArg>,
}

/// The mathematical value of a `Segment`.
pub struct SegmentView {
    pub name: Seq<char>,
    pub args: Seq<ArgView>,
}

impl View for Segment {
    type V = SegmentView;

    open spec fn view(&self) -> SegmentView {
        SegmentView { name: self.name@, args: arg_views(self.args@) }
    }
}

pub open spec fn segment_views(v: Seq<Segment>) -> Seq<SegmentView> {
    v.map_values(|g: Segment| g@)
}

/// A type expression, as far as the generator looks into it.
#[derive(Debug, PartialEq, Eq)]
pub enum TypeExpr {
    /// A path type `a::b<..>::c<..>`. `qself` is set for a qualified path
    /// (`<T as Trait>::Name`), `global` for a leading `::`; `text` is the
    /// whole type as written.
    Path { qself: bool, global: bool, segments: Vec<Segment>, text: String },
    /// Any other shape (a reference, a tuple, an array, ...), as written.
    Other { text: String },
}

/// The mathematical value of a `TypeExpr`.
pub enum TypeView {
    Path { qself: bool, global: bool, segments: Seq<SegmentView>, text: Seq<char> },
    Other { text: Seq<char> },
}

pub open spec fn texts(v: Seq<String>) -> Seq<Seq<char>> {
    v.map_values(|s: String| s@)
}

impl View for TypeExpr {
    type V = TypeView;

    open spec fn view(&self) -> TypeView {
        match self {
            TypeExpr::Path { qself, global, segments, text } => TypeView::Path {
                qself: *qself,
                global: *global,
                segments: segment_views(segments@),
                text: text@,
            },
            TypeExpr::Other { text } => TypeView::Other { text: text@ },
        }
    }
}

pub(crate) fn copy_strings(v: &Vec<String>) -> (r: Vec<String>)
    ensures
        r@ == v@,
{
    let mut out: Vec<String> = Vec::new();
    let mut i: usize = 0;
    while i < v.len()
        invariant
            i <= v.len(),
            out@ == v@.take(i as int),
        decreases v.len() - i,
    {
        out.push(v[i].clone());
        i += 1;
        assert(out@ =~= v@.take(i as int));
    }
    assert(v@.take(v@.len() as int) =~= v@);
    out
}

fn copy_args(v: &Vec<GenericArg>) -> (r: Vec<GenericArg>)
    ensures
        arg_views(r@) == arg_views(v@),
{
    let mut out: Vec<GenericArg> = Vec::new();
    let mut i: usize = 0;
    while i < v.len()
        invariant
            i <= v.len(),
            arg_views(out@) == arg_views(v@).take(i as int),
        decreases v.len() - i,
    {
        let a = match &v[i] {
            GenericArg::Type(t) => GenericArg::Type(t.clone()),
            GenericArg::Other(t) => GenericArg::Other(t.clone()),
        };
        let ghost before = out@;
        out.push(a);
        assert(arg_views(out@) =~= arg_views(before).push(a@));
        i += 1;
        assert(arg_views(out@) =~= arg_views(v@).take(i as int));
    }
    assert(arg_views(v@).take(v@.len() as int) =~= arg_views(v@));
    out
}

fn copy_segments(v: &Vec<Segment>) -> (r: Vec<Segment>)
    ensures
        segment_views(r@) == segment_views(v@),
{
    let mut out: Vec<Segment> = Vec::new();
    let mut i: usize = 0;
    while i < v.len()
        invariant
            i <= v.len(),
            segment_views(out@) == segment_views(v@).take(i as int),
        decreases v.len() - i,
    {
        let g = Segment { name: v[i].name.clone(), args: copy_args(&v[i].args) };
        let ghost before = out@;
        out.push(g);
        assert(segment_views(out@) =~= segment_views(before).push(g@));
        i += 1;
        assert(segment_views(out@) =~= segment_views(v@).take(i as int));
    }
    assert(segment_views(v@).take(v@.len() as int) =~= segment_views(v@));
    out
}

impl TypeExpr {
    /// A copy of the type expression.
    pub fn duplicate(&self) -> (r: TypeExpr)
        ensures
            r@ == self@,
    {
        match self {
            TypeExpr::Path { qself, global, segments, text } => TypeExpr::Path {
                qself: *qself,
                global: *global,
                segments: copy_segments(segments),
                text: text.clone(),
            },
            TypeExpr::Other { text } => TypeExpr::Other { text: text.clone() },
        }
    }
}

/// One field of a record: its name and its declared type.
#[derive(Debug, PartialEq, Eq)]
pub struct FieldDescriptor {
    pub name: String,
    pub ty: TypeExpr,
}

/// The mathematical value of a field descriptor.
pub struct FieldView {
    pub name: Seq<char>,
    pub ty: TypeView,
}

impl View for FieldDescriptor {
    type V = FieldView;

    open spec fn view(&self) -> FieldView {
        FieldView { name: self.name@, ty: self.ty@ }
    }
}

impl FieldDescriptor {
    /// A copy of the field descriptor.
    pub fn duplicate(&self) -> (r: FieldDescriptor)
        ensures
            r@ == self@,
    {
        FieldDescriptor { name: self.name.clone(), ty: self.ty.duplicate() }
    }
}

/// A record type with named fields, in declaration order.
#[derive(Debug, PartialEq, Eq)]
pub struct StructDescriptor {
    pub name: String,
    pub fields: Vec<FieldDescriptor>,
}

/// The mathematical value of a record descriptor.
pub struct StructView {
    pub name: Seq<char>,
    pub fields: Seq<FieldView>,
}

pub open spec fn field_views(v: Seq<FieldDescriptor>) -> Seq<FieldView> {
    v.map_values(|f: FieldDescriptor| f@)
}

impl View for StructDescriptor {
    type V = StructView;

    open spec fn view(&self) -> StructView {
        StructView { name: self.name@, fields: field_views(self.fields@) }
    }
}

/// The fields of a struct declaration, in the shapes a declaration can have.
#[derive(Debug, PartialEq, Eq)]
pub enum FieldList {
    Named(Vec<FieldDescriptor>),
    Unnamed(Vec<TypeExpr>),
    Unit,
}

/// A type declaration handed to the generator. `params` holds the
/// declaration's generic parameters (types, lifetimes, constants) as written.
#[derive(Debug, PartialEq, Eq)]
pub enum Declaration {
    Struct { name: String, params: Vec<String>, fields: FieldList },
    Enum { name: String },
    Union { name: String },
}

/// Why a declaration cannot have a builder.
#[derive(PartialEq, Eq, Structural, Debug, Clone, Copy)]
pub enum SchemaError {
    NotAStruct,
    NoNamedFields,
    Generic,
}

impl SchemaError {
    /// The fixed text that reports the violated constraint.
    pub fn message(&self) -> (r: String)
        ensures
            r@ == match self {
                SchemaError::NotAStruct => "Builder macro only works on structs"@,
                SchemaError::NoNamedFields => "Builder macro only works on structs with named fields"@,
                SchemaError::Generic => "Builder macro only works on structs without generic parameters"@,
            },
    {
        match self {
            SchemaError::NotAStruct => String::from_str("Builder macro only works on structs"),
            SchemaError::NoNamedFields => String::from_str(
                "Builder macro only works on structs with named fields",
            ),
            SchemaError::Generic => String::from_str(
                "Builder macro only works on structs without generic parameters",
            ),
        }
    }
}

/// Why `decl` cannot have a builder, if it cannot: it is not a struct; or it
/// has no named field (positional fields, a unit struct, or `{}`); or it has
/// generic parameters. The checks are made in that order.
pub open spec fn schema_error_of(decl: Declaration) -> Option<SchemaError> {
    match decl {
        Declaration::Struct { params, fields: FieldList::Named(fs), .. } => if fs@.len() == 0 {
            Some(SchemaError::NoNamedFields)
        } else if params@.len() > 0 {
            Some(SchemaError::Generic)
        } else {
            None
        },
        Declaration::Struct { .. } => Some(SchemaError::NoNamedFields),
        _ => Some(SchemaError::NotAStruct),
    }
}

/// The name and the named fields of a struct declaration.
pub open spec fn descriptor_of(decl: Declaration) -> StructDescriptor {
    match decl {
        Declaration::Struct { name, fields: FieldList::Named(fs), .. } => StructDescriptor {
            name,
            fields: fs,
        },
        _ => arbitrary(),
    }
}

/// Accepts a struct with at least one named field and no generic parameter,
/// and returns its descriptor; anything else is refused.
pub fn validate(decl: Declaration) -> (r: Result<StructDescriptor, SchemaError>)
    ensures
        schema_error_of(decl) is Some ==> r == Err::<StructDescriptor, SchemaError>(
            schema_error_of(decl)->Some_0,
        ),
        schema_error_of(decl) is None ==> r == Ok::<StructDescriptor, SchemaError>(
            descriptor_of(decl),
        ),
{
    match decl {
        Declaration::Struct { name, params, fields } => match fields {
            FieldList::Named(fs) => {
                if fs.len() == 0 {
                    Err(SchemaError::NoNamedFields)
                } else if params.len() > 0 {
                    Err(SchemaError::Generic)
                } else {
                    Ok(StructDescriptor { name, fields: fs })
                }
            },
            _ => Err(SchemaError::NoNamedFields),
        },
        _ => Err(SchemaError::NotAStruct),
    }
}

} // verus!
