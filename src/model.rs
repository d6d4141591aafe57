use vstd::prelude::*;

verus! {

/// Errors that abort the generation for a whole declaration.
#[derive(Debug, Clone, Copy, PartialEq, Eq, Structural)]
pub enum GenError {
    /// The declaration is not an enumerated type.
    NotAnEnum,
    /// A variant selected for a conversion has several or named fields.
    UnsupportedVariantShape,
    /// A payload type was asked of a variant that has no fields.
    MissingPayloadType,
}

/// The form of one argument inside an attribute's parentheses.
#[derive(Debug, Clone)]
pub enum ArgForm {
    /// A path such as `OtherType` or `a::B`, with its text.
    Path(String),
    /// A nested list such as `x(..)`.
    List,
    /// A `name = value` pair.
    NameValue,
    /// A literal such as `"x"` or `1`.
    Lit,
}

/// The syntactic form of one attribute, as far as the generator reads it.
#[derive(Debug, Clone)]
pub enum AttrForm {
    /// `#[name]`: a bare path.
    Path,
    /// `#[name(...)]`: every argument, in order.
    List(Vec<ArgForm>),
    /// Any other form (`#[name = ..]`, or an attribute that does not parse).
    Other,
}

/// One attribute: its name when that name is a single identifier, and its form.
#[derive(Debug, Clone)]
pub struct RawAttr {
    pub ident: Option<String>,
    pub form: AttrForm,
}

/// The fields of a variant as written: none, unnamed (their type texts), or named.
#[derive(Debug, Clone)]
pub enum FieldsForm {
    Unit,
    Unnamed(Vec<String>),
    Named,
}

/// One variant as declared.
#[derive(Debug, Clone)]
pub struct RawVariant {
    pub name: String,
    pub attrs: Vec<RawAttr>,
    pub fields: FieldsForm,
}

/// The body of a declaration: an enumerated type with its variants, or anything else.
#[derive(Debug, Clone)]
pub enum DeclBody {
    Enum(Vec<RawVariant>),
    NotEnum,
}

/// A type declaration handed to the generator.
#[derive(Debug, Clone)]
pub struct Declaration {
    pub name: String,
    pub attrs: Vec<RawAttr>,
    pub body: DeclBody,
}

/// A recognised per-variant annotation.
#[derive(Debug, Clone)]
pub enum Marker {
    /// The marker without arguments: convert from the variant's own payload type.
    Bare,
    /// The marker naming an explicit source type.
    Override(String),
    /// An attribute of another name or form; it is ignored.
    Unrecognized,
}

pub enum MarkerModel {
    Bare,
    Override(Seq<char>),
    Unrecognized,
}

impl View for Marker {
    type V = MarkerModel;

    open spec fn view(&self) -> MarkerModel {
        match self {
            Marker::Bare => MarkerModel::Bare,
            Marker::Override(t) => MarkerModel::Override(t@),
            Marker::Unrecognized => MarkerModel::Unrecognized,
        }
    }
}

/// How many values a variant wraps. A unit variant has no payload; a tuple variant
/// with exactly one field has that field's type as payload; a tuple variant with no
/// field or several, and a variant with named fields, are unsupported, since neither
/// "the" payload type nor a unit constructor exists for them.
#[derive(Debug, Clone)]
pub enum Shape {
    NoPayload,
    SinglePayload(String),
    Unsupported,
}

pub enum ShapeModel {
    NoPayload,
    SinglePayload(Seq<char>),
    Unsupported,
}

impl View for Shape {
    type V = ShapeModel;

    open spec fn view(&self) -> ShapeModel {
        match self {
            Shape::NoPayload => ShapeModel::NoPayload,
            Shape::SinglePayload(t) => ShapeModel::SinglePayload(t@),
            Shape::Unsupported => ShapeModel::Unsupported,
        }
    }
}

/// One case of the target type, with its shape and its markers in declaration order.
#[derive(Debug, Clone)]
pub struct EnumVariant {
    pub name: String,
    pub shape: Shape,
    pub markers: Vec<Marker>,
}

pub struct VariantModel {
    pub name: Seq<char>,
    pub shape: ShapeModel,
    pub markers: Seq<MarkerModel>,
}

pub open spec fn markers_model(ms: Seq<Marker>) -> Seq<MarkerModel> {
    ms.map_values(|m: Marker| m@)
}

impl View for EnumVariant {
    type V = VariantModel;

    open spec fn view(&self) -> VariantModel {
        VariantModel { name: self.name@, shape: self.shape@, markers: markers_model(self.markers@) }
    }
}

/// The enumerated type being processed.
#[derive(Debug, Clone)]
pub struct TargetType {
    pub name: String,
    pub impl_all: bool,
    pub variants: Vec<EnumVariant>,
}

pub struct TargetModel {
    pub name: Seq<char>,
    pub impl_all: bool,
    pub variants: Seq<VariantModel>,
}

pub open spec fn variants_model(vs: Seq<EnumVariant>) -> Seq<VariantModel> {
    vs.map_values(|v: EnumVariant| v@)
}

impl View for TargetType {
    type V = TargetModel;

    open spec fn view(&self) -> TargetModel {
        TargetModel { name: self.name@, impl_all: self.impl_all, variants: variants_model(self.variants@) }
    }
}

/// One conversion to emit: from `foreign` into `target`, through the variant `variant`,
/// which wraps the value when `wraps` holds and discards it otherwise.
#[derive(Debug, Clone)]
pub struct Fragment {
    pub target: String,
    pub variant: String,
    pub foreign: String,
    pub wraps: bool,
}

pub struct FragmentModel {
    pub target: Seq<char>,
    pub variant: Seq<char>,
    pub foreign: Seq<char>,
    pub wraps: bool,
}

impl View for Fragment {
    type V = FragmentModel;

    open spec fn view(&self) -> FragmentModel {
        FragmentModel {
            target: self.target@,
            variant: self.variant@,
            foreign: self.foreign@,
            wraps: self.wraps,
        }
    }
}

pub open spec fn fragments_model(fs: Seq<Fragment>) -> Seq<FragmentModel> {
    fs.map_values(|f: Fragment| f@)
}

} // verus!
