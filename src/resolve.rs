use vstd::prelude::*;
use crate::model::{
    Fragment, FragmentModel, GenError, Marker, MarkerModel, Shape, ShapeModel, TargetModel,
    TargetType, EnumVariant, VariantModel, fragments_model, markers_model,
};

verus! {

/// The first recognised marker of a sequence, if any.
pub open spec fn first_recognized(ms: Seq<MarkerModel>) -> Option<MarkerModel>
    decreases ms.len(),
{
    if ms.len() == 0 {
        None
    } else if ms[0] is Unrecognized {
        first_recognized(ms.skip(1))
    } else {
        Some(ms[0])
    }
}

/// The variant's own payload type, extracted structurally.
pub open spec fn payload_of(s: ShapeModel) -> Result<Seq<char>, GenError> {
    match s {
        ShapeModel::SinglePayload(t) => Ok(t),
        ShapeModel::NoPayload => Err(GenError::MissingPayloadType),
        ShapeModel::Unsupported => Err(GenError::UnsupportedVariantShape),
    }
}

/// Self-type resolution: the payload type, no conversion for a variant without one.
pub open spec fn self_type(s: ShapeModel) -> Result<Option<Seq<char>>, GenError> {
    match s {
        ShapeModel::NoPayload => Ok(None),
        _ => match payload_of(s) {
            Ok(t) => Ok(Some(t)),
            Err(e) => Err(e),
        },
    }
}

/// The foreign type a variant converts from, `None` where it gets no conversion.
/// An explicit override wins over a bare marker, which wins over blanket mode.
pub open spec fn resolve(impl_all: bool, v: VariantModel) -> Result<Option<Seq<char>>, GenError> {
    match first_recognized(v.markers) {
        Some(MarkerModel::Override(t)) => if v.shape is Unsupported {
            Err(GenError::UnsupportedVariantShape)
        } else {
            Ok(Some(t))
        },
        Some(_) => self_type(v.shape),
        None => if impl_all {
            self_type(v.shape)
        } else {
            Ok(None)
        },
    }
}

pub open spec fn fragment_of(target: Seq<char>, v: VariantModel, foreign: Seq<char>) -> FragmentModel {
    FragmentModel {
        target,
        variant: v.name,
        foreign,
        wraps: !(v.shape is NoPayload),
    }
}

/// The fragments of the first `n` variants, or the first error among them.
pub open spec fn generate_upto(t: TargetModel, n: nat) -> Result<Seq<FragmentModel>, GenError>
    decreases n,
{
    if n == 0 {
        Ok(Seq::empty())
    } else {
        match generate_upto(t, (n - 1) as nat) {
            Err(e) => Err(e),
            Ok(fs) => match resolve(t.impl_all, t.variants[n - 1]) {
                Err(e) => Err(e),
                Ok(None) => Ok(fs),
                Ok(Some(ty)) => Ok(fs.push(fragment_of(t.name, t.variants[n - 1], ty))),
            },
        }
    }
}

/// The fragments of the whole target type, in variant order.
pub open spec fn generate_spec(t: TargetModel) -> Result<Seq<FragmentModel>, GenError> {
    generate_upto(t, t.variants.len())
}

pub proof fn lemma_first_recognized_skip(ms: Seq<MarkerModel>, i: int)
    requires
        0 <= i <= ms.len(),
        forall|k: int| 0 <= k < i ==> #[trigger] ms[k] is Unrecognized,
    ensures
        first_recognized(ms) == first_recognized(ms.skip(i)),
    decreases i,
{
    if i > 0 {
        assert(ms[0] is Unrecognized);
        let rest = ms.skip(1);
        assert forall|k: int| 0 <= k < i - 1 implies #[trigger] rest[k] is Unrecognized by {
            assert(rest[k] == ms[k + 1]);
        }
        lemma_first_recognized_skip(rest, i - 1);
        assert(rest.skip(i - 1) =~= ms.skip(i));
    } else {
        assert(ms.skip(0) =~= ms);
    }
}

/// Once the generation of a prefix has failed, every longer prefix fails alike.
pub proof fn lemma_error_persists(t: TargetModel, m: nat, n: nat)
    requires
        m <= n,
        generate_upto(t, m) is Err,
    ensures
        generate_upto(t, n) == generate_upto(t, m),
    decreases n - m,
{
    if m < n {
        lemma_error_persists(t, m, (n - 1) as nat);
    }
}

/// The payload type of a variant with exactly one unnamed field.
pub fn payload_type(s: &Shape) -> (r: Result<String, GenError>)
    ensures
        r matches Ok(t) ==> payload_of(s@) == Ok::<Seq<char>, GenError>(t@),
        r matches Err(e) ==> payload_of(s@) == Err::<Seq<char>, GenError>(e),
{
    match s {
        Shape::SinglePayload(t) => Ok(t.clone()),
        Shape::NoPayload => Err(GenError::MissingPayloadType),
        Shape::Unsupported => Err(GenError::UnsupportedVariantShape),
    }
}

fn self_type_of(s: &Shape) -> (r: Result<Option<String>, GenError>)
    ensures
        r matches Ok(Some(t)) ==> self_type(s@) == Ok::<Option<Seq<char>>, GenError>(Some(t@)),
        r matches Ok(None) ==> self_type(s@) == Ok::<Option<Seq<char>>, GenError>(None),
        r matches Err(e) ==> self_type(s@) == Err::<Option<Seq<char>>, GenError>(e),
{
    if let Shape::NoPayload = s {
        return Ok(None);
    }
    match payload_type(s) {
        Ok(t) => Ok(Some(t)),
        Err(e) => Err(e),
    }
}

/// Resolves the foreign type of one variant: the first recognised marker decides,
/// and blanket mode applies only where the variant has none.
pub fn resolve_variant(impl_all: bool, v: &EnumVariant) -> (r: Result<Option<String>, GenError>)
    ensures
        r matches Ok(Some(t)) ==> resolve(impl_all, v@) == Ok::<Option<Seq<char>>, GenError>(Some(t@)),
        r matches Ok(None) ==> resolve(impl_all, v@) == Ok::<Option<Seq<char>>, GenError>(None),
        r matches Err(e) ==> resolve(impl_all, v@) == Err::<Option<Seq<char>>, GenError>(e),
{
    let ghost ms = markers_model(v.markers@);
    let mut i: usize = 0;
    while i < v.markers.len()
        invariant
            0 <= i <= v.markers@.len(),
            ms == markers_model(v.markers@),
            forall|k: int| 0 <= k < i ==> #[trigger] ms[k] is Unrecognized,
        decreases v.markers@.len() - i,
    {
        let m = &v.markers[i];
        match m {
            Marker::Unrecognized => {
                assert(ms[i as int] == v.markers@[i as int]@);
            },
            Marker::Override(t) => {
                proof {
                    lemma_first_recognized_skip(ms, i as int);
                    assert(ms.skip(i as int)[0] == ms[i as int]);
                }
                if let Shape::Unsupported = v.shape {
                    return Err(GenError::UnsupportedVariantShape);
                }
                return Ok(Some(t.clone()));
            },
            Marker::Bare => {
                proof {
                    lemma_first_recognized_skip(ms, i as int);
                    assert(ms.skip(i as int)[0] == ms[i as int]);
                }
                return self_type_of(&v.shape);
            },
        }
        i = i + 1;
    }
    proof {
        lemma_first_recognized_skip(ms, i as int);
        assert(ms.skip(i as int).len() == 0);
    }
    if impl_all {
        self_type_of(&v.shape)
    } else {
        Ok(None)
    }
}

/// Emits the conversion fragments of a target type, one per resolved variant, in
/// declaration order; the first fatal variant aborts the whole generation.
pub fn generate(t: &TargetType) -> (r: Result<Vec<Fragment>, GenError>)
    ensures
        r matches Ok(fs) ==> generate_spec(t@) == Ok::<Seq<FragmentModel>, GenError>(
            fragments_model(fs@),
        ),
        r matches Err(e) ==> generate_spec(t@) == Err::<Seq<FragmentModel>, GenError>(e),
{
    let ghost tm = t@;
    let mut out: Vec<Fragment> = Vec::new();
    assert(fragments_model(out@) =~= Seq::<FragmentModel>::empty());
    let mut i: usize = 0;
    while i < t.variants.len()
        invariant
            0 <= i <= t.variants@.len(),
            tm == t@,
            tm.variants.len() == t.variants@.len(),
            generate_upto(tm, i as nat) == Ok::<Seq<FragmentModel>, GenError>(
                fragments_model(out@),
            ),
        decreases t.variants@.len() - i,
    {
        let v = &t.variants[i];
        assert(tm.variants[i as int] == v@);
        match resolve_variant(t.impl_all, v) {
            Err(e) => {
                proof {
                    lemma_error_persists(tm, (i + 1) as nat, tm.variants.len());
                }
                return Err(e);
            },
            Ok(None) => {},
            Ok(Some(ty)) => {
                let wraps = match v.shape {
                    Shape::NoPayload => false,
                    _ => true,
                };
                let f = Fragment { target: t.name.clone(), variant: v.name.clone(), foreign: ty, wraps };
                let ghost before = out@;
                out.push(f);
                assert(fragments_model(out@) =~= fragments_model(before).push(f@));
            },
        }
        i = i + 1;
    }
    assert(i as nat == tm.variants.len());
    Ok(out)
}

} // verus!
