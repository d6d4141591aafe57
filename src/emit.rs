use vstd::prelude::*;
use vstd::string::StringExecFns;
use crate::markers::{build_target, target_from};
use crate::model::{Declaration, Fragment, FragmentModel, GenError};
use crate::resolve::{generate, generate_spec};

verus! {

/// The source text of one conversion fragment: an `impl From<foreign> for target`
/// that wraps the value in the variant, or builds the unit variant and drops it.
pub open spec fn fragment_text(f: FragmentModel) -> Seq<char> {
    "impl From<"@ + f.foreign + "> for "@ + f.target + if f.wraps {
        " { fn from(v: "@ + f.foreign + ") -> Self { Self::"@ + f.variant + "(v) } }"@
    } else {
        " { fn from(_: "@ + f.foreign + ") -> Self { Self::"@ + f.variant + " } }"@
    }
}

/// Everything a declaration expands to: one text per fragment, in variant order.
pub open spec fn expand_spec(d: Declaration) -> Result<Seq<Seq<char>>, GenError> {
    match target_from(d) {
        Err(e) => Err(e),
        Ok(t) => match generate_spec(t) {
            Err(e) => Err(e),
            Ok(fs) => Ok(fs.map_values(|f: FragmentModel| fragment_text(f))),
        },
    }
}

/// Writes out the source text of one fragment.
pub fn render(f: &Fragment) -> (r: String)
    ensures
        r@ == fragment_text(f@),
{
    let mut s = String::from_str("impl From<");
    s.append(f.foreign.as_str());
    s.append("> for ");
    s.append(f.target.as_str());
    if f.wraps {
        s.append(" { fn from(v: ");
        s.append(f.foreign.as_str());
        s.append(") -> Self { Self::");
        s.append(f.variant.as_str());
        s.append("(v) } }");
    } else {
        s.append(" { fn from(_: ");
        s.append(f.foreign.as_str());
        s.append(") -> Self { Self::");
        s.append(f.variant.as_str());
        s.append(" } }");
    }
    s
}

/// Expands an annotated declaration into its conversion fragments, in variant order;
/// any fatal condition aborts the whole expansion and no fragment is returned.
pub fn create_enum_from_impls(d: &Declaration) -> (r: Result<Vec<String>, GenError>)
    ensures
        r matches Ok(v) ==> expand_spec(*d) == Ok::<Seq<Seq<char>>, GenError>(
            v@.map_values(|s: String| s@),
        ),
        r matches Err(e) ==> expand_spec(*d) == Err::<Seq<Seq<char>>, GenError>(e),
{
    let t = match build_target(d) {
        Ok(t) => t,
        Err(e) => {
            return Err(e);
        },
    };
    let fs = match generate(&t) {
        Ok(fs) => fs,
        Err(e) => {
            return Err(e);
        },
    };
    let ghost fm = fs@.map_values(|f: Fragment| f@);
    let mut out: Vec<String> = Vec::new();
    let mut i: usize = 0;
    while i < fs.len()
        invariant
            0 <= i <= fs@.len(),
            fm == fs@.map_values(|f: Fragment| f@),
            out@.len() == i,
            forall|k: int| 0 <= k < i ==> (#[trigger] out@[k])@ == fragment_text(fm[k]),
        decreases fs@.len() - i,
    {
        let s = render(&fs[i]);
        out.push(s);
        i = i + 1;
    }
    assert(out@.map_values(|s: String| s@) =~= fm.map_values(|f: FragmentModel| fragment_text(f)));
    Ok(out)
}

} // verus!
