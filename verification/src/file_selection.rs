use vstd::prelude::*;

use crate::keywords::spec_lower_bytes;

verus! {

/// The index just after the last `.` of `p`, or -1 when `p` holds none.
pub open spec fn spec_after_last_dot(p: Seq<u8>) -> int
    decreases p.len(),
{
    if p.len() == 0 {
        -1
    } else if p.last() == 46 {
        p.len() as int
    } else {
        spec_after_last_dot(p.drop_last())
    }
}

/// Whether the path's extension (what follows its last dot) equals `ext`,
/// compared case-insensitively; a path without a dot has no extension.
pub open spec fn spec_has_extension(p: Seq<u8>, ext: Seq<u8>) -> bool {
    spec_after_last_dot(p) >= 0 && spec_lower_bytes(p.skip(spec_after_last_dot(p))) == ext
}

proof fn lemma_after_last_dot_bounds(p: Seq<u8>)
    ensures
        spec_after_last_dot(p) <= p.len(),
        spec_after_last_dot(p) == -1 || spec_after_last_dot(p) >= 1,
    decreases p.len(),
{
    if p.len() > 0 && p.last() != 46 {
        lemma_after_last_dot_bounds(p.drop_last());
    }
}

fn after_last_dot(p: &[u8]) -> (r: Option<usize>)
    ensures
        r matches Some(d) ==> d as int == spec_after_last_dot(p@) && d <= p@.len(),
        r is None ==> spec_after_last_dot(p@) == -1,
{
    proof {
        lemma_after_last_dot_bounds(p@);
        assert(p@.take(p@.len() as int) =~= p@);
    }
    let mut j: usize = p.len();
    loop
        invariant
            j <= p@.len(),
            spec_after_last_dot(p@) == spec_after_last_dot(p@.take(j as int)),
        decreases j,
    {
        if j == 0 {
            return None;
        }
        proof {
            assert(p@.take(j as int).last() == p@[j - 1]);
            assert(p@.take(j as int).drop_last() =~= p@.take(j - 1));
        }
        if p[j - 1] == 46 {
            proof {
                lemma_after_last_dot_bounds(p@);
            }
            return Some(j);
        }
        j = j - 1;
    }
}

/// Whether `path`'s extension is `ext`, compared ASCII-case-insensitively;
/// `ext` is given in lower case.
pub fn has_extension(path: &[u8], ext: &[u8]) -> (r: bool)
    ensures
        r == spec_has_extension(path@, ext@),
{
    match after_last_dot(path) {
        None => false,
        Some(d) => {
            let tail = vstd::slice::slice_subrange(path, d, path.len());
            let lowered = crate::keywords::lower_bytes(tail);
            crate::toggler::bytes_eq(ext, &lowered)
        },
    }
}

/// Whether a directory walk should take the file: only the `pas`, `dpr` and
/// `dpk` extensions are included.
pub fn formattable_file_path(path: &[u8]) -> (r: bool)
    ensures
        r == (spec_has_extension(path@, seq![112u8, 97u8, 115u8]) || spec_has_extension(
            path@,
            seq![100u8, 112u8, 114u8],
        ) || spec_has_extension(path@, seq![100u8, 112u8, 107u8])),
{
    let pas: Vec<u8> = vec![112u8, 97u8, 115u8];
    let dpr: Vec<u8> = vec![100u8, 112u8, 114u8];
    let dpk: Vec<u8> = vec![100u8, 112u8, 107u8];
    proof {
        assert(pas@ =~= seq![112u8, 97u8, 115u8]);
        assert(dpr@ =~= seq![100u8, 112u8, 114u8]);
        assert(dpk@ =~= seq![100u8, 112u8, 107u8]);
    }
    has_extension(path, pas.as_slice()) || has_extension(path, dpr.as_slice()) || has_extension(
        path,
        dpk.as_slice(),
    )
}

} // verus!
