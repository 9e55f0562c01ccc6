//! Declared shapes, the analysis that accepts or rejects them, and the
//! values of accepted shapes.

use vstd::prelude::*;
use crate::value::{Field, Value};

verus! {

/// A place in the source of a declaration.
#[derive(Debug, Clone, Copy, PartialEq, Eq)]
pub struct Loc {
    pub line: usize,
    pub column: usize,
}

/// The fields of a struct or of an enum variant.
#[derive(Debug, Clone, PartialEq, Eq)]
pub enum Fields {
    /// Named fields, in declaration order.
    Named(Vec<String>),
    /// That many unnamed (positional) fields.
    Unnamed(usize),
    /// No field list at all.
    Unit,
}

/// A variant of a declared enum.
#[derive(Debug, Clone, PartialEq, Eq)]
pub struct VariantDecl {
    pub name: String,
    pub fields: Fields,
    pub loc: Loc,
}

/// The kind of a generic parameter.
#[derive(Debug, Clone, Copy, PartialEq, Eq)]
pub enum GenericKind {
    Lifetime,
    Type,
    Const,
}

/// A generic parameter of a declaration.
#[derive(Debug, Clone, PartialEq, Eq)]
pub struct GenericParam {
    pub name: String,
    pub kind: GenericKind,
    pub loc: Loc,
}

/// A struct's fields or an enum's variants.
#[derive(Debug, Clone, PartialEq, Eq)]
pub enum Body {
    Struct(Fields),
    Enum(Vec<VariantDecl>),
}

/// A type declaration handed to the analysis.
#[derive(Debug, Clone, PartialEq, Eq)]
pub struct Decl {
    pub name: String,
    pub generics: Vec<GenericParam>,
    pub body: Body,
    pub loc: Loc,
}

/// Why a declaration cannot be rendered.
#[derive(Debug, Clone, Copy, PartialEq, Eq)]
pub enum DiagnosticKind {
    /// A field list with no field in it.
    NoFields,
    /// A unit struct or a variant without fields.
    NullaryVariant,
    /// More than one unnamed field.
    TooManyUnnamedFields,
    /// A const generic parameter.
    UnsupportedGenericKind,
}

/// A rejection of a declaration, at the place that causes it.
#[derive(Debug, Clone, Copy, PartialEq, Eq)]
pub struct Diagnostic {
    pub kind: DiagnosticKind,
    pub loc: Loc,
}

/// A remark on a declaration that is accepted all the same.
#[derive(Debug, Clone, Copy, PartialEq, Eq)]
pub enum Warning {
    /// An enum without variants: no value of it can be rendered.
    EmptyVariantSet(Loc),
}

/// How the value of an accepted struct or variant is rendered.
#[derive(Debug, Clone, PartialEq, Eq)]
pub enum Layout {
    /// Each field under its name.
    Named(Vec<String>),
    /// The one unnamed field, as itself.
    Wrapper,
}

/// An accepted variant.
#[derive(Debug, Clone, PartialEq, Eq)]
pub struct Arm {
    pub name: String,
    pub layout: Layout,
}

/// An accepted declaration's shape.
#[derive(Debug, Clone, PartialEq, Eq)]
pub enum Shape {
    Struct(Layout),
    Enum(Vec<Arm>),
}

/// The result of accepting a declaration.
#[derive(Debug, Clone, PartialEq, Eq)]
pub struct Analysis {
    /// The declared type's name.
    pub name: String,
    /// The type parameters, in order, each of which must itself be renderable.
    pub bounded: Vec<String>,
    pub shape: Shape,
    pub warning: Option<Warning>,
}

/// Why a field list cannot be rendered, if it cannot.
pub open spec fn fields_error(fields: Fields) -> Option<DiagnosticKind> {
    match fields {
        Fields::Named(names) => if names.len() == 0 {
            Some(DiagnosticKind::NoFields)
        } else {
            None
        },
        Fields::Unnamed(n) => if n == 0 {
            Some(DiagnosticKind::NoFields)
        } else if n > 1 {
            Some(DiagnosticKind::TooManyUnnamedFields)
        } else {
            None
        },
        Fields::Unit => Some(DiagnosticKind::NullaryVariant),
    }
}

/// The number of fields in a field list.
pub open spec fn field_count(fields: Fields) -> nat {
    match fields {
        Fields::Named(names) => names@.len(),
        Fields::Unnamed(n) => n as nat,
        Fields::Unit => 0,
    }
}

/// `layout` is how the accepted field list `fields` renders.
pub open spec fn layout_of(layout: Layout, fields: Fields) -> bool {
    match fields {
        Fields::Named(names) => layout matches Layout::Named(kept) && kept@ == names@,
        Fields::Unnamed(_) => layout is Wrapper,
        Fields::Unit => false,
    }
}

/// The place of the first const generic parameter, if there is one.
pub open spec fn generics_error(gs: Seq<GenericParam>) -> Option<Loc>
    decreases gs.len(),
{
    if gs.len() == 0 {
        None
    } else if gs[0].kind is Const {
        Some(gs[0].loc)
    } else {
        generics_error(gs.drop_first())
    }
}

/// The names of the type parameters, in order.
pub open spec fn type_params(gs: Seq<GenericParam>) -> Seq<String>
    decreases gs.len(),
{
    if gs.len() == 0 {
        Seq::empty()
    } else if gs.last().kind is Type {
        type_params(gs.drop_last()).push(gs.last().name)
    } else {
        type_params(gs.drop_last())
    }
}

/// The rejection of the first variant that cannot be rendered, if any.
pub open spec fn variants_error(vs: Seq<VariantDecl>) -> Option<Diagnostic>
    decreases vs.len(),
{
    if vs.len() == 0 {
        None
    } else {
        match fields_error(vs[0].fields) {
            Some(kind) => Some(Diagnostic { kind, loc: vs[0].loc }),
            None => variants_error(vs.drop_first()),
        }
    }
}

/// The rejection of a declaration, if it is rejected: const generics
/// first, then the struct's fields or the first bad variant.
pub open spec fn decl_error(d: Decl) -> Option<Diagnostic> {
    match generics_error(d.generics@) {
        Some(loc) => Some(Diagnostic { kind: DiagnosticKind::UnsupportedGenericKind, loc }),
        None => match d.body {
            Body::Struct(fields) => match fields_error(fields) {
                Some(kind) => Some(Diagnostic { kind, loc: d.loc }),
                None => None,
            },
            Body::Enum(vs) => variants_error(vs@),
        },
    }
}

/// `shape` is how the accepted body `body` renders.
pub open spec fn shape_of(shape: Shape, body: Body) -> bool {
    match body {
        Body::Struct(fields) => shape matches Shape::Struct(l) && layout_of(l, fields),
        Body::Enum(vs) => shape matches Shape::Enum(arms) && arms.len() == vs.len() && forall|i: int|
            0 <= i < vs.len() ==> #[trigger] arms@[i].name == vs@[i].name && layout_of(
                arms@[i].layout,
                vs@[i].fields,
            ),
    }
}

/// The human-readable text of a diagnostic.
pub open spec fn message_of(kind: DiagnosticKind) -> Seq<char> {
    match kind {
        DiagnosticKind::NoFields => "no fields to render"@,
        DiagnosticKind::NullaryVariant => "nothing to render: unit structs and variants have no value"@,
        DiagnosticKind::TooManyUnnamedFields => "ambiguous positional rendering: exactly one unnamed field is required"@,
        DiagnosticKind::UnsupportedGenericKind => "const generic parameters cannot be bounded by the rendering capability"@,
    }
}

impl DiagnosticKind {
    /// The human-readable text of the diagnostic.
    pub fn message(&self) -> (r: &'static str)
        ensures
            r@ == message_of(*self),
    {
        match self {
            DiagnosticKind::NoFields => "no fields to render",
            DiagnosticKind::NullaryVariant => "nothing to render: unit structs and variants have no value",
            DiagnosticKind::TooManyUnnamedFields => "ambiguous positional rendering: exactly one unnamed field is required",
            DiagnosticKind::UnsupportedGenericKind => "const generic parameters cannot be bounded by the rendering capability",
        }
    }
}

impl Fields {
    /// The number of fields.
    pub fn len(&self) -> (r: usize)
        ensures
            r == field_count(*self),
    {
        match self {
            Fields::Named(names) => names.len(),
            Fields::Unnamed(n) => *n,
            Fields::Unit => 0,
        }
    }

    /// Whether there is no field.
    pub fn is_empty(&self) -> (r: bool)
        ensures
            r == (field_count(*self) == 0),
    {
        self.len() == 0
    }
}

/// A copy of a list of names.
fn copy_names(names: &Vec<String>) -> (r: Vec<String>)
    ensures
        r@ == names@,
{
    let mut r: Vec<String> = Vec::new();
    let mut i: usize = 0;
    while i < names.len()
        invariant
            i <= names.len(),
            r@ == names@.take(i as int),
        decreases names.len() - i,
    {
        r.push(names[i].clone());
        assert(r@ =~= names@.take(i + 1));
        i = i + 1;
    }
    assert(names@.take(i as int) =~= names@);
    r
}

/// The layout of a field list, or why it has none.
fn layout(fields: &Fields) -> (r: Result<Layout, DiagnosticKind>)
    ensures
        r is Err <==> fields_error(*fields) is Some,
        r matches Err(kind) ==> fields_error(*fields) == Some(kind),
        r matches Ok(l) ==> layout_of(l, *fields),
{
    match fields {
        Fields::Named(names) => if names.len() == 0 {
            Err(DiagnosticKind::NoFields)
        } else {
            Ok(Layout::Named(copy_names(names)))
        },
        Fields::Unnamed(n) => if *n == 0 {
            Err(DiagnosticKind::NoFields)
        } else if *n > 1 {
            Err(DiagnosticKind::TooManyUnnamedFields)
        } else {
            Ok(Layout::Wrapper)
        },
        Fields::Unit => Err(DiagnosticKind::NullaryVariant),
    }
}

/// Checks the generic parameters: the names of the type parameters, or
/// the place of the first const parameter.
fn check_generics(gs: &Vec<GenericParam>) -> (r: Result<Vec<String>, Loc>)
    ensures
        r is Err <==> generics_error(gs@) is Some,
        r matches Err(loc) ==> generics_error(gs@) == Some(loc),
        r matches Ok(names) ==> names@ == type_params(gs@),
{
    let mut names: Vec<String> = Vec::new();
    let mut i: usize = 0;
    assert(gs@.subrange(0, gs@.len() as int) =~= gs@);
    while i < gs.len()
        invariant
            i <= gs.len(),
            generics_error(gs@) == generics_error(gs@.subrange(i as int, gs@.len() as int)),
            names@ == type_params(gs@.take(i as int)),
        decreases gs.len() - i,
    {
        let g = &gs[i];
        assert(gs@.subrange(i as int, gs@.len() as int).drop_first() =~= gs@.subrange(i + 1, gs@.len() as int));
        assert(gs@.take(i + 1).drop_last() =~= gs@.take(i as int));
        match g.kind {
            GenericKind::Const => {
                return Err(g.loc);
            },
            GenericKind::Type => {
                names.push(g.name.clone());
            },
            GenericKind::Lifetime => {},
        }
        i = i + 1;
    }
    assert(gs@.take(i as int) =~= gs@);
    Ok(names)
}

/// Checks the variants: the arms, or the rejection of the first bad variant.
fn check_variants(vs: &Vec<VariantDecl>) -> (r: Result<Vec<Arm>, Diagnostic>)
    ensures
        r is Err <==> variants_error(vs@) is Some,
        r matches Err(d) ==> variants_error(vs@) == Some(d),
        r matches Ok(arms) ==> shape_of(Shape::Enum(arms), Body::Enum(*vs)),
{
    let mut arms: Vec<Arm> = Vec::new();
    let mut i: usize = 0;
    assert(vs@.subrange(0, vs@.len() as int) =~= vs@);
    while i < vs.len()
        invariant
            i <= vs.len(),
            variants_error(vs@) == variants_error(vs@.subrange(i as int, vs@.len() as int)),
            arms.len() == i,
            forall|j: int|
                0 <= j < i ==> #[trigger] arms@[j].name == vs@[j].name && layout_of(
                    arms@[j].layout,
                    vs@[j].fields,
                ),
        decreases vs.len() - i,
    {
        let v = &vs[i];
        assert(vs@.subrange(i as int, vs@.len() as int).drop_first() =~= vs@.subrange(i + 1, vs@.len() as int));
        match layout(&v.fields) {
            Err(kind) => {
                return Err(Diagnostic { kind, loc: v.loc });
            },
            Ok(l) => {
                arms.push(Arm { name: v.name.clone(), layout: l });
            },
        }
        i = i + 1;
    }
    Ok(arms)
}

/// Accepts a declaration, with how its values render, or rejects it with
/// the diagnostic of its first fault.
pub fn analyze(decl: &Decl) -> (r: Result<Analysis, Diagnostic>)
    ensures
        r is Err <==> decl_error(*decl) is Some,
        r matches Err(d) ==> decl_error(*decl) == Some(d),
        r matches Ok(a) ==> {
            &&& a.name == decl.name
            &&& a.bounded@ == type_params(decl.generics@)
            &&& shape_of(a.shape, decl.body)
            &&& a.warning == (if decl.body matches Body::Enum(vs) && vs.len() == 0 {
                Some(Warning::EmptyVariantSet(decl.loc))
            } else {
                None
            })
        },
{
    let bounded = match check_generics(&decl.generics) {
        Ok(names) => names,
        Err(loc) => {
            return Err(Diagnostic { kind: DiagnosticKind::UnsupportedGenericKind, loc });
        },
    };
    let name = decl.name.clone();
    match &decl.body {
        Body::Struct(fields) => match layout(fields) {
            Ok(l) => Ok(Analysis { name, bounded, shape: Shape::Struct(l), warning: None }),
            Err(kind) => Err(Diagnostic { kind, loc: decl.loc }),
        },
        Body::Enum(vs) => match check_variants(vs) {
            Ok(arms) => {
                let warning = if vs.len() == 0 {
                    Some(Warning::EmptyVariantSet(decl.loc))
                } else {
                    None
                };
                Ok(Analysis { name, bounded, shape: Shape::Enum(arms), warning })
            },
            Err(d) => Err(d),
        },
    }
}

/// The layout of the arm `arm` of `shape`: a struct has the one arm `0`.
pub open spec fn arm_layout(shape: Shape, arm: int) -> Option<Layout> {
    match shape {
        Shape::Struct(l) => if arm == 0 {
            Some(l)
        } else {
            None
        },
        Shape::Enum(arms) => if 0 <= arm < arms.len() {
            Some(arms@[arm].layout)
        } else {
            None
        },
    }
}

/// How many field values a layout takes.
pub open spec fn arity(layout: Layout) -> nat {
    match layout {
        Layout::Named(names) => names@.len(),
        Layout::Wrapper => 1,
    }
}

/// `v` is the value that `layout` makes of the field values `fields`.
pub open spec fn laid_out(layout: Layout, fields: Seq<Value>, v: Value) -> bool {
    match layout {
        Layout::Named(names) => {
            &&& fields.len() == names.len()
            &&& v matches Value::Record(fs)
            &&& fs.len() == names.len()
            &&& forall|i: int|
                0 <= i < fs.len() ==> #[trigger] fs@[i] == (Field { name: names@[i], value: fields[i] })
        },
        Layout::Wrapper => {
            &&& fields.len() == 1
            &&& v matches Value::Wrapper(inner)
            &&& *inner == fields[0]
        },
    }
}

/// The value that `layout` makes of `fields`, if their count fits.
fn lay_out(layout: &Layout, fields: Vec<Value>) -> (r: Option<Value>)
    ensures
        r is Some <==> arity(*layout) == fields.len(),
        r matches Some(v) ==> laid_out(*layout, fields@, v),
{
    let mut fields = fields;
    let ghost given = fields@;
    match layout {
        Layout::Named(names) => {
            if names.len() != fields.len() {
                return None;
            }
            let mut record: Vec<Field> = Vec::new();
            let mut i: usize = 0;
            while i < names.len()
                invariant
                    i <= names.len(),
                    given.len() == names.len(),
                    fields@ == given.subrange(i as int, given.len() as int),
                    record.len() == i,
                    forall|j: int|
                        0 <= j < i ==> #[trigger] record@[j] == (Field { name: names@[j], value: given[j] }),
                decreases names.len() - i,
            {
                let value = fields.remove(0);
                assert(fields@ =~= given.subrange(i + 1, given.len() as int));
                record.push(Field { name: names[i].clone(), value });
                i = i + 1;
            }
            Some(Value::Record(record))
        },
        Layout::Wrapper => {
            if fields.len() != 1 {
                return None;
            }
            Some(Value::Wrapper(Box::new(fields.remove(0))))
        },
    }
}

impl Shape {
    /// The value of the declared type whose active arm is `arm` (`0` for a
    /// struct), with the field values `fields` in declaration order; `None`
    /// when there is no such arm or the count of values does not fit it.
    pub fn value_of(&self, arm: usize, fields: Vec<Value>) -> (r: Option<Value>)
        ensures
            r is Some <==> (arm_layout(*self, arm as int) is Some && arity(arm_layout(*self, arm as int).unwrap()) == fields.len()),
            r matches Some(v) ==> laid_out(arm_layout(*self, arm as int).unwrap(), fields@, v),
    {
        match self {
            Shape::Struct(l) => if arm == 0 {
                lay_out(l, fields)
            } else {
                None
            },
            Shape::Enum(arms) => if arm < arms.len() {
                lay_out(&arms[arm].layout, fields)
            } else {
                None
            },
        }
    }
}

} // verus!
