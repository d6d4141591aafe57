use vstd::prelude::*;
use crate::emit::expand_spec;
use crate::model::{Declaration, FragmentModel, GenError, MarkerModel, ShapeModel, TargetModel, VariantModel};
use crate::resolve::{
    first_recognized, fragment_of, generate_spec, generate_upto, lemma_error_persists,
    lemma_first_recognized_skip, resolve,
};

verus! {

/// The indices of the variants among the first `n` that receive a conversion.
pub open spec fn origins(t: TargetModel, n: nat) -> Seq<int>
    decreases n,
{
    if n == 0 {
        Seq::empty()
    } else if resolve(t.impl_all, t.variants[n - 1]) matches Ok(Some(_)) {
        origins(t, (n - 1) as nat).push(n - 1)
    } else {
        origins(t, (n - 1) as nat)
    }
}

proof fn lemma_first_recognized_at(ms: Seq<MarkerModel>, i: int)
    requires
        0 <= i < ms.len(),
        !(ms[i] is Unrecognized),
        forall|k: int| 0 <= k < i ==> #[trigger] ms[k] is Unrecognized,
    ensures
        first_recognized(ms) == Some(ms[i]),
{
    lemma_first_recognized_skip(ms, i);
    assert(ms.skip(i)[0] == ms[i]);
}

proof fn lemma_none_recognized(ms: Seq<MarkerModel>)
    requires
        forall|k: int| 0 <= k < ms.len() ==> #[trigger] ms[k] is Unrecognized,
    ensures
        first_recognized(ms) is None,
{
    lemma_first_recognized_skip(ms, ms.len() as int);
    assert(ms.skip(ms.len() as int).len() == 0);
}

proof fn lemma_some_recognized(ms: Seq<MarkerModel>, j: int)
    requires
        0 <= j < ms.len(),
        !(ms[j] is Unrecognized),
    ensures
        first_recognized(ms) is Some,
    decreases ms.len(),
{
    if !(ms[0] is Unrecognized) {
    } else {
        assert(ms.skip(1)[j - 1] == ms[j]);
        lemma_some_recognized(ms.skip(1), j - 1);
    }
}

proof fn lemma_resolve_error(impl_all: bool, v: VariantModel)
    ensures
        resolve(impl_all, v) is Err ==> resolve(impl_all, v) == Err::<Option<Seq<char>>, GenError>(
            GenError::UnsupportedVariantShape,
        ),
{
}

proof fn lemma_generate_error(t: TargetModel, n: nat)
    requires
        n <= t.variants.len(),
    ensures
        generate_upto(t, n) is Err ==> generate_upto(t, n) == Err::<Seq<FragmentModel>, GenError>(
            GenError::UnsupportedVariantShape,
        ),
    decreases n,
{
    if n > 0 {
        lemma_generate_error(t, (n - 1) as nat);
        lemma_resolve_error(t.impl_all, t.variants[n - 1]);
    }
}

proof fn lemma_origins(t: TargetModel, n: nat, fs: Seq<FragmentModel>)
    requires
        n <= t.variants.len(),
        generate_upto(t, n) == Ok::<Seq<FragmentModel>, GenError>(fs),
    ensures
        origins(t, n).len() == fs.len(),
        forall|m: int| 0 <= m < fs.len() ==> 0 <= #[trigger] origins(t, n)[m] < n,
        forall|a: int, b: int|
            0 <= a < b < fs.len() ==> #[trigger] origins(t, n)[a] < #[trigger] origins(t, n)[b],
        forall|m: int|
            0 <= m < fs.len() ==> resolve(t.impl_all, t.variants[#[trigger] origins(t, n)[m]])
                == Ok::<Option<Seq<char>>, GenError>(Some(fs[m].foreign)) && fs[m] == fragment_of(
                t.name,
                t.variants[origins(t, n)[m]],
                fs[m].foreign,
            ),
        forall|k: int|
            0 <= k < n && (#[trigger] resolve(t.impl_all, t.variants[k]) matches Ok(Some(_)))
                ==> exists|m: int| 0 <= m < fs.len() && origins(t, n)[m] == k,
    decreases n,
{
    if n > 0 {
        let p = (n - 1) as nat;
        let prev = generate_upto(t, p);
        if prev is Err {
            assert(false);
        }
        let pfs = prev->Ok_0;
        lemma_origins(t, p, pfs);
        let o = origins(t, n);
        let po = origins(t, p);
        match resolve(t.impl_all, t.variants[n - 1]) {
            Ok(Some(ty)) => {
                assert(fs == pfs.push(fragment_of(t.name, t.variants[n - 1], ty)));
                assert(o == po.push(n - 1));
                assert forall|k: int|
                    0 <= k < n && (#[trigger] resolve(t.impl_all, t.variants[k]) matches Ok(Some(_)))
                    implies exists|m: int| 0 <= m < fs.len() && o[m] == k by {
                    if k == n - 1 {
                        assert(o[fs.len() - 1] == k);
                    } else {
                        let m = choose|m: int| 0 <= m < pfs.len() && po[m] == k;
                        assert(o[m] == k);
                    }
                }
            },
            _ => {
                assert(o == po);
            },
        }
    }
}

/// Expansion is a function of the declaration: the same declaration always expands
/// to the same fragments, in the same order, or to the same error.
pub proof fn lemma_deterministic(a: Declaration, b: Declaration)
    requires
        a == b,
    ensures
        expand_spec(a) == expand_spec(b),
{
}

/// A variant whose first recognised marker is an override converts from the
/// override's type, even when a bare marker follows, provided its shape has at most
/// one unnamed field.
pub proof fn lemma_override_wins(impl_all: bool, v: VariantModel, i: int, j: int, t: Seq<char>)
    requires
        0 <= i < j < v.markers.len(),
        v.markers[i] == MarkerModel::Override(t),
        v.markers[j] is Bare,
        forall|k: int| 0 <= k < i ==> #[trigger] v.markers[k] is Unrecognized,
        !(v.shape is Unsupported),
    ensures
        resolve(impl_all, v) == Ok::<Option<Seq<char>>, GenError>(Some(t)),
{
    lemma_first_recognized_at(v.markers, i);
}

/// In blanket mode a variant without a payload and without an override gets no conversion.
pub proof fn lemma_blanket_skips_unit(v: VariantModel)
    requires
        v.shape is NoPayload,
        forall|k: int| 0 <= k < v.markers.len() ==> !(#[trigger] v.markers[k] is Override),
    ensures
        resolve(true, v) == Ok::<Option<Seq<char>>, GenError>(None),
{
    if first_recognized(v.markers) is Some {
        lemma_first_recognized_member(v.markers);
    }
}

proof fn lemma_first_recognized_member(ms: Seq<MarkerModel>)
    requires
        first_recognized(ms) is Some,
    ensures
        exists|k: int| 0 <= k < ms.len() && ms[k] == first_recognized(ms)->Some_0,
    decreases ms.len(),
{
    if ms[0] is Unrecognized {
        lemma_first_recognized_member(ms.skip(1));
        let k = choose|k: int| 0 <= k < ms.skip(1).len() && ms.skip(1)[k] == first_recognized(ms.skip(1))->Some_0;
        assert(ms[k + 1] == ms.skip(1)[k]);
    } else {
        assert(ms[0] == first_recognized(ms)->Some_0);
    }
}

/// In blanket mode a variant with one payload and no recognised marker converts
/// from its own payload type.
pub proof fn lemma_blanket_uses_payload(v: VariantModel, ty: Seq<char>)
    requires
        v.shape == ShapeModel::SinglePayload(ty),
        forall|k: int| 0 <= k < v.markers.len() ==> #[trigger] v.markers[k] is Unrecognized,
    ensures
        resolve(true, v) == Ok::<Option<Seq<char>>, GenError>(Some(ty)),
{
    lemma_none_recognized(v.markers);
}

/// Without blanket mode, a variant with no recognised marker gets no conversion.
pub proof fn lemma_opt_out(v: VariantModel)
    requires
        forall|k: int| 0 <= k < v.markers.len() ==> #[trigger] v.markers[k] is Unrecognized,
    ensures
        resolve(false, v) == Ok::<Option<Seq<char>>, GenError>(None),
{
    lemma_none_recognized(v.markers);
}

/// Fragments come out in the order of the variants they belong to: the `m`-th
/// fragment belongs to the variant at `origins(t, n)[m]`, these indices increase,
/// and every variant that resolves to a type has its fragment among them.
pub proof fn lemma_order_preserved(t: TargetModel, fs: Seq<FragmentModel>)
    requires
        generate_spec(t) == Ok::<Seq<FragmentModel>, GenError>(fs),
    ensures
        origins(t, t.variants.len()).len() == fs.len(),
        forall|a: int, b: int|
            0 <= a < b < fs.len() ==> #[trigger] origins(t, t.variants.len())[a] < #[trigger] origins(
                t,
                t.variants.len(),
            )[b],
        forall|m: int|
            0 <= m < fs.len() ==> 0 <= #[trigger] origins(t, t.variants.len())[m] < t.variants.len()
                && fs[m] == fragment_of(
                t.name,
                t.variants[origins(t, t.variants.len())[m]],
                fs[m].foreign,
            ) && resolve(t.impl_all, t.variants[origins(t, t.variants.len())[m]]) == Ok::<
                Option<Seq<char>>,
                GenError,
            >(Some(fs[m].foreign)),
        forall|k: int|
            0 <= k < t.variants.len() && (#[trigger] resolve(t.impl_all, t.variants[k]) matches Ok(
                Some(_),
            )) ==> exists|m: int| 0 <= m < fs.len() && origins(t, t.variants.len())[m] == k,
{
    lemma_origins(t, t.variants.len(), fs);
}

/// A variant with more than one field, or with named fields, that is selected for a
/// conversion (by a recognised marker or by blanket mode) aborts the whole generation.
pub proof fn lemma_unsupported_fatal(t: TargetModel, i: int)
    requires
        0 <= i < t.variants.len(),
        t.variants[i].shape is Unsupported,
        t.impl_all || exists|k: int|
            0 <= k < t.variants[i].markers.len() && !(#[trigger] t.variants[i].markers[k] is Unrecognized),
    ensures
        generate_spec(t) == Err::<Seq<FragmentModel>, GenError>(GenError::UnsupportedVariantShape),
{
    let v = t.variants[i];
    if exists|k: int| 0 <= k < v.markers.len() && !(#[trigger] v.markers[k] is Unrecognized) {
        let k = choose|k: int| 0 <= k < v.markers.len() && !(#[trigger] v.markers[k] is Unrecognized);
        lemma_some_recognized(v.markers, k);
    }
    assert(resolve(t.impl_all, v) is Err);
    assert(generate_upto(t, (i + 1) as nat) is Err);
    lemma_error_persists(t, (i + 1) as nat, t.variants.len());
    lemma_generate_error(t, t.variants.len());
}

} // verus!
