//! Selecting post files from a directory listing by filename extension.

use vstd::prelude::*;

use crate::strutil::{ends_with_spec, str_ends_with};

verus! {

/// Whether a path ends with any of the given extensions.
pub open spec fn matches_any_ext(path: Seq<char>, exts: Seq<Seq<char>>) -> bool {
    exists|i: int| 0 <= i < exts.len() && ends_with_spec(path, exts[i])
}

/// Of `paths`, those that end with any extension in `exts`, in their given
/// order.
pub open spec fn with_any_ext_spec(paths: Seq<Seq<char>>, exts: Seq<Seq<char>>) -> Seq<Seq<char>>
    decreases paths.len(),
{
    if paths.len() == 0 {
        Seq::empty()
    } else {
        with_any_ext_spec(paths.drop_last(), exts) + (if matches_any_ext(paths.last(), exts) {
            seq![paths.last()]
        } else {
            Seq::empty()
        })
    }
}

fn matches_any(path: &str, exts: &Vec<String>) -> (r: bool)
    ensures
        r == matches_any_ext(path@, exts@.map_values(|e: String| e@)),
{
    let ghost evs = exts@.map_values(|e: String| e@);
    let mut i: usize = 0;
    while i < exts.len()
        invariant
            0 <= i <= exts@.len(),
            evs == exts@.map_values(|e: String| e@),
            forall|j: int| 0 <= j < i ==> !ends_with_spec(path@, #[trigger] evs[j]),
        decreases exts@.len() - i,
    {
        if str_ends_with(path, exts[i].as_str()) {
            proof {
                assert(ends_with_spec(path@, evs[i as int]));
            }
            return true;
        }
        i = i + 1;
    }
    false
}

/// Given files `paths`, return all the ones that have any extension in
/// `exts`, in their given order.
pub fn paths_with_any_extension(paths: &Vec<String>, exts: &Vec<String>) -> (r: Vec<String>)
    ensures
        r@.map_values(|p: String| p@) == with_any_ext_spec(
            paths@.map_values(|p: String| p@),
            exts@.map_values(|e: String| e@),
        ),
{
    let ghost evs = exts@.map_values(|e: String| e@);
    let mut r: Vec<String> = Vec::new();
    let mut i: usize = 0;
    proof {
        assert(paths@.take(0).map_values(|p: String| p@) =~= Seq::<Seq<char>>::empty());
    }
    while i < paths.len()
        invariant
            0 <= i <= paths@.len(),
            evs == exts@.map_values(|e: String| e@),
            r@.map_values(|p: String| p@) == with_any_ext_spec(
                paths@.take(i as int).map_values(|p: String| p@),
                evs,
            ),
        decreases paths@.len() - i,
    {
        let ghost kept = r@.map_values(|p: String| p@);
        let ghost before = paths@.take(i as int).map_values(|p: String| p@);
        let ghost after = paths@.take(i as int + 1).map_values(|p: String| p@);
        proof {
            assert(after.drop_last() =~= before);
            assert(after.last() == paths@[i as int]@);
        }
        if matches_any(paths[i].as_str(), exts) {
            r.push(paths[i].clone());
            proof {
                assert(r@.map_values(|p: String| p@) =~= kept + seq![paths@[i as int]@]);
            }
        } else {
            proof {
                assert(kept + Seq::<Seq<char>>::empty() =~= kept);
            }
        }
        i = i + 1;
    }
    proof {
        assert(paths@.take(paths@.len() as int) =~= paths@);
    }
    r
}

/// Given files `paths`, return all that have the extension `ext`, in their
/// given order.
pub fn paths_with_extension(paths: &Vec<String>, ext: &str) -> (r: Vec<String>)
    ensures
        r@.map_values(|p: String| p@) == with_any_ext_spec(
            paths@.map_values(|p: String| p@),
            seq![ext@],
        ),
{
    let mut exts: Vec<String> = Vec::new();
    exts.push(String::from_str(ext));
    proof {
        assert(exts@.map_values(|e: String| e@) =~= seq![ext@]);
    }
    paths_with_any_extension(paths, &exts)
}

} // verus!
