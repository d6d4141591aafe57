use vstd::prelude::*;
use vstd::string::StringExecFns;
use crate::model::{
    ArgForm, AttrForm, DeclBody, Declaration, FieldsForm, GenError, Marker, MarkerModel, RawAttr,
    RawVariant, Shape, ShapeModel, TargetModel, TargetType, EnumVariant, VariantModel,
    markers_model, variants_model,
};

verus! {

/// The one attribute name the generator recognises.
pub open spec fn marker_name() -> Seq<char> {
    "impl_from"@
}

/// The attribute's name is a single identifier equal to the recognised name.
pub open spec fn names_marker(a: RawAttr) -> bool {
    a.ident matches Some(id) && id@ == marker_name()
}

/// The marker an attribute stands for.
pub open spec fn marker_of(a: RawAttr) -> MarkerModel {
    if !names_marker(a) {
        MarkerModel::Unrecognized
    } else {
        match a.form {
            AttrForm::Path => MarkerModel::Bare,
            AttrForm::List(args) => if args@.len() > 0 && args@[0] is Path {
                MarkerModel::Override(args@[0]->Path_0@)
            } else {
                MarkerModel::Unrecognized
            },
            AttrForm::Other => MarkerModel::Unrecognized,
        }
    }
}

/// A type-level attribute that turns on blanket mode: the bare recognised marker.
pub open spec fn is_blanket(a: RawAttr) -> bool {
    names_marker(a) && a.form is Path
}

pub open spec fn shape_from(f: FieldsForm) -> ShapeModel {
    match f {
        FieldsForm::Unit => ShapeModel::NoPayload,
        FieldsForm::Unnamed(ts) => if ts@.len() == 1 {
            ShapeModel::SinglePayload(ts@[0]@)
        } else {
            ShapeModel::Unsupported
        },
        FieldsForm::Named => ShapeModel::Unsupported,
    }
}

pub open spec fn variant_from(rv: RawVariant) -> VariantModel {
    VariantModel {
        name: rv.name@,
        shape: shape_from(rv.fields),
        markers: rv.attrs@.map_values(|a: RawAttr| marker_of(a)),
    }
}

/// The target type a declaration describes, or `NotAnEnum`.
pub open spec fn target_from(d: Declaration) -> Result<TargetModel, GenError> {
    match d.body {
        DeclBody::Enum(vs) => Ok(
            TargetModel {
                name: d.name@,
                impl_all: exists|i: int| 0 <= i < d.attrs@.len() && is_blanket(#[trigger] d.attrs@[i]),
                variants: vs@.map_values(|rv: RawVariant| variant_from(rv)),
            },
        ),
        DeclBody::NotEnum => Err(GenError::NotAnEnum),
    }
}

fn is_marker_ident(ident: &Option<String>) -> (r: bool)
    ensures
        r == (ident matches Some(id) && id@ == marker_name()),
{
    match ident {
        Some(id) => {
            let name = String::from_str("impl_from");
            *id == name
        },
        None => false,
    }
}

/// Reads one attribute as a marker: the recognised name alone is a bare marker, and
/// with arguments whose first is a path, an override naming that path.
pub fn classify_attr(a: &RawAttr) -> (r: Marker)
    ensures
        r@ == marker_of(*a),
{
    if !is_marker_ident(&a.ident) {
        return Marker::Unrecognized;
    }
    match &a.form {
        AttrForm::Path => Marker::Bare,
        AttrForm::List(args) => if args.len() > 0 {
            match &args[0] {
                ArgForm::Path(t) => Marker::Override(t.clone()),
                _ => Marker::Unrecognized,
            }
        } else {
            Marker::Unrecognized
        },
        AttrForm::Other => Marker::Unrecognized,
    }
}

/// Whether the type-level attributes turn on blanket mode.
pub fn has_blanket(attrs: &Vec<RawAttr>) -> (r: bool)
    ensures
        r == exists|i: int| 0 <= i < attrs@.len() && is_blanket(#[trigger] attrs@[i]),
{
    let mut i: usize = 0;
    while i < attrs.len()
        invariant
            0 <= i <= attrs@.len(),
            forall|k: int| 0 <= k < i ==> !is_blanket(#[trigger] attrs@[k]),
        decreases attrs@.len() - i,
    {
        let a = &attrs[i];
        if is_marker_ident(&a.ident) {
            if let AttrForm::Path = a.form {
                return true;
            }
        }
        i = i + 1;
    }
    false
}

/// Classifies the fields of a variant: none, exactly one unnamed, or anything else.
pub fn shape_of(f: &FieldsForm) -> (r: Shape)
    ensures
        r@ == shape_from(*f),
{
    match f {
        FieldsForm::Unit => Shape::NoPayload,
        FieldsForm::Unnamed(ts) => if ts.len() == 1 {
            Shape::SinglePayload(ts[0].clone())
        } else {
            Shape::Unsupported
        },
        FieldsForm::Named => Shape::Unsupported,
    }
}

fn variant_of(rv: &RawVariant) -> (r: EnumVariant)
    ensures
        r@ == variant_from(*rv),
{
    let mut markers: Vec<Marker> = Vec::new();
    let mut i: usize = 0;
    while i < rv.attrs.len()
        invariant
            0 <= i <= rv.attrs@.len(),
            markers@.len() == i,
            forall|k: int| 0 <= k < i ==> (#[trigger] markers@[k])@ == marker_of(rv.attrs@[k]),
        decreases rv.attrs@.len() - i,
    {
        let m = classify_attr(&rv.attrs[i]);
        markers.push(m);
        i = i + 1;
    }
    let r = EnumVariant { name: rv.name.clone(), shape: shape_of(&rv.fields), markers };
    assert(markers_model(r.markers@) =~= rv.attrs@.map_values(|a: RawAttr| marker_of(a)));
    r
}

/// Builds the target type of a declaration; fails with `NotAnEnum` on anything but an enum.
pub fn build_target(d: &Declaration) -> (r: Result<TargetType, GenError>)
    ensures
        r matches Ok(t) ==> target_from(*d) == Ok::<TargetModel, GenError>(t@),
        r matches Err(e) ==> target_from(*d) == Err::<TargetModel, GenError>(e),
{
    match &d.body {
        DeclBody::NotEnum => Err(GenError::NotAnEnum),
        DeclBody::Enum(vs) => {
            let mut variants: Vec<EnumVariant> = Vec::new();
            let mut i: usize = 0;
            while i < vs.len()
                invariant
                    0 <= i <= vs@.len(),
                    variants@.len() == i,
                    forall|k: int| 0 <= k < i ==> (#[trigger] variants@[k])@ == variant_from(vs@[k]),
                decreases vs@.len() - i,
            {
                let v = variant_of(&vs[i]);
                variants.push(v);
                i = i + 1;
            }
            let t = TargetType { name: d.name.clone(), impl_all: has_blanket(&d.attrs), variants };
            assert(variants_model(t.variants@) =~= vs@.map_values(|rv: RawVariant| variant_from(rv)));
            Ok(t)
        },
    }
}

} // verus!
