//! Splitting an input file name into stem and extension, and building the
//! output names of the variants.

use vstd::prelude::*;
use vstd::string::StrSliceExecFns;
use crate::errors::PipelineError;

verus! {

/// Whether the name carries a `.` separator at all.
pub open spec fn has_dot(name: Seq<char>) -> bool {
    exists|i: int| 0 <= i < name.len() && name[i] == '.'
}

/// `stem` and `ext` split `name` at its last dot: the name is
/// `{stem}.{ext}`, and `ext` itself holds no further dot.
pub open spec fn splits_name(name: Seq<char>, stem: Seq<char>, ext: Seq<char>) -> bool {
    &&& name == stem + seq!['.'] + ext
    &&& forall|i: int| 0 <= i < ext.len() ==> ext[i] != '.'
}

/// The index of the last dot of the name, and `-1` when it has none.
pub open spec fn last_dot(name: Seq<char>) -> int
    decreases name.len(),
{
    if name.len() == 0 {
        -1
    } else if name.last() == '.' {
        name.len() - 1
    } else {
        last_dot(name.drop_last())
    }
}

/// The part of the name before its last dot.
pub open spec fn stem_of(name: Seq<char>) -> Seq<char>
    recommends
        has_dot(name),
{
    name.take(last_dot(name))
}

/// The part of the name after its last dot.
pub open spec fn ext_of(name: Seq<char>) -> Seq<char>
    recommends
        has_dot(name),
{
    name.skip(last_dot(name) + 1)
}

/// A dot at `i` with none after it is the last dot.
proof fn lemma_last_dot_at(name: Seq<char>, i: int)
    requires
        0 <= i < name.len(),
        name[i] == '.',
        forall|j: int| i < j < name.len() ==> name[j] != '.',
    ensures
        last_dot(name) == i,
    decreases name.len(),
{
    if i < name.len() - 1 {
        let shorter = name.drop_last();
        assert(forall|j: int| i < j < shorter.len() ==> shorter[j] == name[j]);
        lemma_last_dot_at(shorter, i);
    }
}

/// Splits a file name at its last `.` into stem and extension. A name
/// without any dot is rejected: there is nothing to derive output names
/// from.
pub fn split_name(name: &str) -> (r: Result<(String, String), PipelineError>)
    ensures
        r matches Ok((stem, ext)) ==> splits_name(name@, stem@, ext@) && stem@ == stem_of(name@)
            && ext@ == ext_of(name@),
        r is Err <==> !has_dot(name@),
        r matches Err(e) ==> e == PipelineError::MissingExtensionError,
{
    let n = name.unicode_len();
    let mut i: usize = n;
    while i > 0
        invariant
            i <= n,
            n == name@.len(),
            forall|j: int| i <= j < n ==> name@[j] != '.',
        decreases i,
    {
        i -= 1;
        if name.get_char(i) == '.' {
            let stem = name.substring_char(0, i).to_owned();
            let ext = name.substring_char(i + 1, n).to_owned();
            proof {
                assert(name@ =~= stem@ + seq!['.'] + ext@);
                lemma_last_dot_at(name@, i as int);
                assert(stem@ =~= stem_of(name@));
                assert(ext@ =~= ext_of(name@));
            }
            return Ok((stem, ext));
        }
    }
    proof {
        assert(!has_dot(name@));
    }
    Err(PipelineError::MissingExtensionError)
}

/// The output name of one variant: `{stem}_{label}.{ext}`.
pub open spec fn variant_name(stem: Seq<char>, label: Seq<char>, ext: Seq<char>) -> Seq<char> {
    stem + "_"@ + label + "."@ + ext
}

/// Builds `{stem}_{label}.{ext}`.
pub fn build_variant_name(stem: &str, label: &str, ext: &str) -> (r: String)
    ensures
        r@ == variant_name(stem@, label@, ext@),
{
    let mut r = stem.to_owned();
    r.append("_");
    r.append(label);
    r.append(".");
    r.append(ext);
    proof {
        assert(r@ =~= variant_name(stem@, label@, ext@));
    }
    r
}

} // verus!
