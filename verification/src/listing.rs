//! Selecting the `.json` entries of a directory listing.
//!
//! The filesystem hands the caller the entry names of a resolved directory;
//! this module picks out the names with a `.json` suffix and reports them
//! as they are — relative to the listed directory — in the order the names
//! were given.

use vstd::prelude::*;

use crate::paths::views_of;

verus! {

/// The byte string `.json`.
pub open spec fn json_suffix() -> Seq<u8> {
    seq![46u8, 106u8, 115u8, 111u8, 110u8]
}

/// Whether a name ends in `.json` with a nonempty stem before it; a name
/// that is nothing but `.json` has no extension, only a hidden-file stem.
pub open spec fn has_json_suffix(n: Seq<u8>) -> bool {
    n.len() > json_suffix().len() && n.skip(n.len() - json_suffix().len()) == json_suffix()
}

/// The `.json` entries among `names`, in order.
pub open spec fn json_entries_spec(names: Seq<Seq<u8>>) -> Seq<Seq<u8>>
    decreases names.len(),
{
    if names.len() == 0 {
        Seq::empty()
    } else {
        let prev = json_entries_spec(names.drop_last());
        if has_json_suffix(names.last()) {
            prev.push(names.last())
        } else {
            prev
        }
    }
}

/// Whether the name ends in `.json` with a nonempty stem before it.
fn name_has_json_suffix(n: &Vec<u8>) -> (r: bool)
    ensures
        r == has_json_suffix(n@),
{
    if n.len() <= 5 {
        return false;
    }
    let k: usize = n.len() - 5;
    let r = n[k] == 46 && n[k + 1] == 106 && n[k + 2] == 115 && n[k + 3] == 111 && n[k + 4]
        == 110;
    proof {
        if r {
            assert(n@.skip(k as int) =~= json_suffix());
        } else {
            assert(n@.skip(k as int) != json_suffix()) by {
                if n@.skip(k as int) == json_suffix() {
                    assert(n@[k as int] == json_suffix()[0]);
                    assert(n@[k + 1] == json_suffix()[1]);
                    assert(n@[k + 2] == json_suffix()[2]);
                    assert(n@[k + 3] == json_suffix()[3]);
                    assert(n@[k + 4] == json_suffix()[4]);
                }
            }
        }
    }
    r
}

/// Picks the entry names with a `.json` suffix out of a directory listing,
/// keeping the listing's order; every other name is left out.
pub fn list_json_entries(names: &Vec<Vec<u8>>) -> (r: Vec<Vec<u8>>)
    ensures
        views_of(r@) == json_entries_spec(views_of(names@)),
{
    let mut out: Vec<Vec<u8>> = Vec::new();
    let n: usize = names.len();
    for i in 0..n
        invariant
            n == names@.len(),
            views_of(out@) == json_entries_spec(views_of(names@).take(i as int)),
    {
        proof {
            assert(views_of(names@).take(i + 1).drop_last() =~= views_of(names@).take(i as int));
            assert(views_of(names@).take(i + 1).last() == names@[i as int]@);
        }
        if name_has_json_suffix(&names[i]) {
            out.push(crate::paths::copy_bytes(&names[i]));
            proof {
                assert(views_of(out@) =~= json_entries_spec(views_of(names@).take(i + 1)));
            }
        }
    }
    proof {
        assert(views_of(names@).take(n as int) =~= views_of(names@));
    }
    out
}

/// Every `.json` name of the listing appears in the result, and everything
/// in the result is such a name: one without the `.json` suffix is never
/// reported.
pub proof fn lemma_json_entries_characterized(names: Seq<Seq<u8>>)
    ensures
        forall|i: int|
            0 <= i < names.len() && has_json_suffix(#[trigger] names[i]) ==> json_entries_spec(
                names,
            ).contains(names[i]),
        forall|e: Seq<u8>| #[trigger]
            json_entries_spec(names).contains(e) ==> has_json_suffix(e) && names.contains(e),
    decreases names.len(),
{
    if names.len() > 0 {
        lemma_json_entries_characterized(names.drop_last());
        let prev = json_entries_spec(names.drop_last());
        let whole = json_entries_spec(names);
        assert forall|i: int|
            0 <= i < names.len() && has_json_suffix(names[i]) implies whole.contains(
            names[i],
        ) by {
            if i < names.len() - 1 {
                assert(names.drop_last()[i] == names[i]);
                let j = choose|j: int| 0 <= j < prev.len() && prev[j] == names[i];
                assert(whole[j] == names[i]);
            } else {
                assert(whole[whole.len() - 1] == names.last());
            }
        }
        assert forall|e: Seq<u8>| whole.contains(e) implies has_json_suffix(e) && names.contains(
            e,
        ) by {
            let j = choose|j: int| 0 <= j < whole.len() && whole[j] == e;
            if j < prev.len() {
                assert(prev[j] == e);
                assert(prev.contains(e));
                assert(names.drop_last().contains(e));
                let i = choose|i: int| 0 <= i < names.drop_last().len() && names.drop_last()[i] == e;
                assert(names.drop_last()[i] == names[i]);
                assert(names.contains(e));
            } else {
                assert(e == names.last());
                assert(names[names.len() - 1] == names.last());
            }
        }
    }
}

} // verus!
