//! Byte-level path model.
//!
//! A path is a sequence of bytes; `/` separates components. The model keeps
//! the pieces every security check needs: the component list (maximal runs of
//! non-separator bytes), whether the path is absolute, whether any component
//! is the parent-directory marker `..`, and component-wise containment.

use vstd::prelude::*;

verus! {

/// Byte value of the path separator `/`.
pub const SEPARATOR: u8 = 47;

/// Byte value of `.`.
pub const DOT: u8 = 46;

/// The parent-directory component `..`.
pub open spec fn parent_marker() -> Seq<u8> {
    seq![DOT, DOT]
}

/// The views of a sequence of byte vectors.
pub open spec fn views_of(v: Seq<Vec<u8>>) -> Seq<Seq<u8>> {
    v.map_values(|c: Vec<u8>| c@)
}

/// State of a left-to-right component scan over `s`: the components finished
/// so far, and the bytes of the component currently being read. Empty runs
/// (leading, trailing or doubled separators) produce no component.
pub open spec fn scan_state(s: Seq<u8>) -> (Seq<Seq<u8>>, Seq<u8>)
    decreases s.len(),
{
    if s.len() == 0 {
        (seq![], seq![])
    } else {
        let prev = scan_state(s.drop_last());
        let c: u8 = s.last();
        if c == SEPARATOR {
            if prev.1.len() == 0 {
                (prev.0, Seq::empty())
            } else {
                (prev.0.push(prev.1), Seq::empty())
            }
        } else {
            (prev.0, prev.1.push(c))
        }
    }
}

/// The components of a path: the maximal runs of non-separator bytes, in
/// order.
pub open spec fn components(s: Seq<u8>) -> Seq<Seq<u8>> {
    let st = scan_state(s);
    if st.1.len() == 0 {
        st.0
    } else {
        st.0.push(st.1)
    }
}

/// A path is absolute when it starts with the separator.
pub open spec fn is_absolute(s: Seq<u8>) -> bool {
    s.len() > 0 && s[0] == SEPARATOR
}

/// Whether some component of the path is the parent-directory marker `..`.
pub open spec fn has_parent_component(s: Seq<u8>) -> bool {
    exists|i: int| 0 <= i < components(s).len() && components(s)[i] == parent_marker()
}

/// Component-wise containment: `target` equals `base` or lies below it.
/// Both must agree on absoluteness, and every component of `base` must
/// appear, in order, at the front of `target`'s components; `/a/bb` is
/// therefore not contained in `/a/b`.
pub open spec fn contained_in(target: Seq<u8>, base: Seq<u8>) -> bool {
    &&& is_absolute(target) == is_absolute(base)
    &&& components(base).is_prefix_of(components(target))
}

/// The syntactic join of a base directory and a path below it: a single
/// separator is placed between them unless the base already ends with one.
pub open spec fn join_spec(base: Seq<u8>, rel: Seq<u8>) -> Seq<u8> {
    if base.len() == 0 {
        rel
    } else if base.last() == SEPARATOR {
        base + rel
    } else {
        base + seq![SEPARATOR] + rel
    }
}

/// The index of the last separator in the path, if any.
pub open spec fn last_sep_index(s: Seq<u8>) -> Option<int>
    decreases s.len(),
{
    if s.len() == 0 {
        None
    } else if s.last() == SEPARATOR {
        Some(s.len() - 1)
    } else {
        last_sep_index(s.drop_last())
    }
}

/// Splits a path at its last separator into the enclosing directory and the
/// final component. A path without a separator has no enclosing directory
/// here; when the last separator is the leading one, the enclosing directory
/// is the root.
pub open spec fn spec_split_last(s: Seq<u8>) -> Option<(Seq<u8>, Seq<u8>)> {
    match last_sep_index(s) {
        None => None,
        Some(i) => Some(
            (
                if i == 0 {
                    seq![SEPARATOR]
                } else {
                    s.take(i)
                },
                s.skip(i + 1),
            ),
        ),
    }
}

/// Splits a path into its components.
pub fn split_path(s: &Vec<u8>) -> (r: Vec<Vec<u8>>)
    ensures
        views_of(r@) == components(s@),
{
    let mut comps: Vec<Vec<u8>> = Vec::new();
    let mut cur: Vec<u8> = Vec::new();
    let n: usize = s.len();
    for i in 0..n
        invariant
            n == s@.len(),
            views_of(comps@) == scan_state(s@.take(i as int)).0,
            cur@ == scan_state(s@.take(i as int)).1,
    {
        proof {
            assert(s@.take(i + 1).drop_last() =~= s@.take(i as int));
            assert(s@.take(i + 1).last() == s@[i as int]);
        }
        if s[i] == SEPARATOR {
            if cur.len() > 0 {
                let finished = cur;
                cur = Vec::new();
                comps.push(finished);
                proof {
                    assert(views_of(comps@) =~= scan_state(s@.take(i + 1)).0);
                }
            }
        } else {
            cur.push(s[i]);
        }
    }
    proof {
        assert(s@.take(n as int) =~= s@);
    }
    if cur.len() > 0 {
        comps.push(cur);
        proof {
            assert(views_of(comps@) =~= components(s@));
        }
    }
    comps
}

/// Whether the path is absolute.
pub fn is_absolute_path(s: &Vec<u8>) -> (r: bool)
    ensures
        r == is_absolute(s@),
{
    s.len() > 0 && s[0] == SEPARATOR
}

/// Whether two byte vectors hold the same bytes.
pub(crate) fn bytes_equal(a: &Vec<u8>, b: &Vec<u8>) -> (r: bool)
    ensures
        r == (a@ == b@),
{
    if a.len() != b.len() {
        return false;
    }
    let n: usize = a.len();
    for i in 0..n
        invariant
            n == a@.len() == b@.len(),
            forall|k: int| 0 <= k < i ==> a@[k] == b@[k],
    {
        if a[i] != b[i] {
            return false;
        }
    }
    proof {
        assert(a@ =~= b@);
    }
    true
}

/// Whether some component of the path is the parent-directory marker `..`.
pub fn contains_parent_component(s: &Vec<u8>) -> (r: bool)
    ensures
        r == has_parent_component(s@),
{
    let comps = split_path(s);
    let n: usize = comps.len();
    for i in 0..n
        invariant
            n == comps@.len(),
            views_of(comps@) == components(s@),
            forall|k: int| 0 <= k < i ==> views_of(comps@)[k] != parent_marker(),
    {
        let c = &comps[i];
        if c.len() == 2 && c[0] == DOT && c[1] == DOT {
            proof {
                assert(c@ =~= parent_marker());
                assert(components(s@)[i as int] == parent_marker());
            }
            return true;
        }
        proof {
            assert(views_of(comps@)[i as int] == c@);
            assert(c@ != parent_marker());
        }
    }
    false
}

/// Component-wise containment of `target` under `base`.
pub fn path_contained_in(target: &Vec<u8>, base: &Vec<u8>) -> (r: bool)
    ensures
        r == contained_in(target@, base@),
{
    if is_absolute_path(target) != is_absolute_path(base) {
        return false;
    }
    let base_comps = split_path(base);
    let target_comps = split_path(target);
    if base_comps.len() > target_comps.len() {
        proof {
            assert(!components(base@).is_prefix_of(components(target@)));
        }
        return false;
    }
    let n: usize = base_comps.len();
    for i in 0..n
        invariant
            n == base_comps@.len() <= target_comps@.len(),
            views_of(base_comps@) == components(base@),
            views_of(target_comps@) == components(target@),
            forall|k: int| 0 <= k < i ==> components(base@)[k] == components(target@)[k],
    {
        if !bytes_equal(&base_comps[i], &target_comps[i]) {
            proof {
                assert(components(base@)[i as int] != components(target@)[i as int]);
                assert(!components(base@).is_prefix_of(components(target@)));
            }
            return false;
        }
    }
    proof {
        assert(components(base@) =~= components(target@).take(components(base@).len() as int));
    }
    true
}

/// Joins a base directory and a path below it, inserting a single separator
/// unless the base already ends with one.
pub fn join_under(base: &Vec<u8>, rel: &Vec<u8>) -> (r: Vec<u8>)
    ensures
        r@ == join_spec(base@, rel@),
{
    let mut out: Vec<u8> = Vec::new();
    let nb: usize = base.len();
    for i in 0..nb
        invariant
            nb == base@.len(),
            out@ == base@.take(i as int),
    {
        out.push(base[i]);
    }
    proof {
        assert(base@.take(nb as int) =~= base@);
    }
    if base.len() > 0 && base[base.len() - 1] != SEPARATOR {
        out.push(SEPARATOR);
    }
    let ghost prefix: Seq<u8> = out@;
    let nr: usize = rel.len();
    for i in 0..nr
        invariant
            nr == rel@.len(),
            out@ == prefix + rel@.take(i as int),
    {
        out.push(rel[i]);
        proof {
            assert(prefix + rel@.take(i + 1) =~= (prefix + rel@.take(i as int)).push(rel@[i as int]));
        }
    }
    proof {
        assert(rel@.take(nr as int) =~= rel@);
        assert(out@ =~= join_spec(base@, rel@));
    }
    out
}

/// Copies the bytes of `v` between `from` (inclusive) and `to` (exclusive).
pub(crate) fn copy_range(v: &Vec<u8>, from: usize, to: usize) -> (r: Vec<u8>)
    requires
        from <= to <= v@.len(),
    ensures
        r@ == v@.subrange(from as int, to as int),
{
    let mut out: Vec<u8> = Vec::new();
    for i in from..to
        invariant
            from <= i <= to <= v@.len(),
            out@ == v@.subrange(from as int, i as int),
    {
        out.push(v[i]);
        proof {
            assert(v@.subrange(from as int, i + 1) =~= v@.subrange(from as int, i as int).push(
                v@[i as int],
            ));
        }
    }
    out
}

/// Copies a byte vector.
pub(crate) fn copy_bytes(v: &Vec<u8>) -> (r: Vec<u8>)
    ensures
        r@ == v@,
{
    let r = copy_range(v, 0, v.len());
    proof {
        assert(v@.subrange(0, v@.len() as int) =~= v@);
    }
    r
}

/// The last separator index is a separator position inside the path.
proof fn lemma_last_sep_bounds(s: Seq<u8>)
    ensures
        last_sep_index(s) matches Some(i) ==> 0 <= i < s.len() && s[i] == SEPARATOR,
    decreases s.len(),
{
    if s.len() > 0 && s.last() != SEPARATOR {
        lemma_last_sep_bounds(s.drop_last());
    }
}

/// The index of the last separator, if any.
fn rfind_separator(path: &Vec<u8>) -> (r: Option<usize>)
    ensures
        match r {
            None => last_sep_index(path@) is None,
            Some(i) => last_sep_index(path@) == Some(i as int),
        },
{
    let mut j: usize = path.len();
    proof {
        assert(path@.take(path@.len() as int) =~= path@);
    }
    while j > 0
        invariant
            j <= path@.len(),
            last_sep_index(path@) == last_sep_index(path@.take(j as int)),
        decreases j,
    {
        proof {
            assert(path@.take(j as int).last() == path@[j - 1]);
        }
        if path[j - 1] == SEPARATOR {
            return Some(j - 1);
        }
        proof {
            assert(path@.take(j as int).drop_last() =~= path@.take(j - 1));
        }
        j = j - 1;
    }
    None
}

/// Splits a path at its last separator into the enclosing directory and the
/// final component, as `spec_split_last` describes.
pub fn split_last_component(path: &Vec<u8>) -> (r: Option<(Vec<u8>, Vec<u8>)>)
    ensures
        match r {
            None => spec_split_last(path@) is None,
            Some(pair) => spec_split_last(path@) matches Some(sp) && pair.0@ == sp.0 && pair.1@
                == sp.1,
        },
{
    match rfind_separator(path) {
        None => None,
        Some(i) => {
            proof {
                lemma_last_sep_bounds(path@);
                assert(i < path@.len());
            }
            let parent: Vec<u8> = if i == 0 {
                let mut root: Vec<u8> = Vec::new();
                root.push(SEPARATOR);
                proof {
                    assert(root@ =~= seq![SEPARATOR]);
                }
                root
            } else {
                let p = copy_range(path, 0, i);
                proof {
                    assert(path@.subrange(0, i as int) =~= path@.take(i as int));
                }
                p
            };
            let n: usize = path.len();
            let name = copy_range(path, i + 1, n);
            proof {
                assert(path@.subrange(i + 1, path@.len() as int) =~= path@.skip(i + 1));
            }
            Some((parent, name))
        },
    }
}

/// Scanning a path of the form `s`, separator, `t` finishes the components
/// of `s` and then behaves exactly as a scan of `t` alone.
proof fn lemma_scan_append(s: Seq<u8>, t: Seq<u8>)
    ensures
        scan_state(s + seq![SEPARATOR] + t).0 == components(s) + scan_state(t).0,
        scan_state(s + seq![SEPARATOR] + t).1 == scan_state(t).1,
    decreases t.len(),
{
    let u = s + seq![SEPARATOR] + t;
    if t.len() == 0 {
        assert(u =~= s + seq![SEPARATOR]);
        assert((s + seq![SEPARATOR]).drop_last() =~= s);
        assert((s + seq![SEPARATOR]).last() == SEPARATOR);
        assert(scan_state(u).0 =~= components(s) + scan_state(t).0);
    } else {
        lemma_scan_append(s, t.drop_last());
        assert(u.drop_last() =~= s + seq![SEPARATOR] + t.drop_last());
        assert(u.last() == t.last());
        let prev = scan_state(s + seq![SEPARATOR] + t.drop_last());
        let tprev = scan_state(t.drop_last());
        if t.last() == SEPARATOR {
            if tprev.1.len() == 0 {
            } else {
                assert(prev.0.push(prev.1) =~= components(s) + tprev.0.push(tprev.1));
            }
        }
    }
}

/// The components of a join are the components of the base followed by the
/// components of the relative path.
pub proof fn lemma_join_components(base: Seq<u8>, rel: Seq<u8>)
    ensures
        components(join_spec(base, rel)) == components(base) + components(rel),
{
    if base.len() == 0 {
        assert(components(base) =~= Seq::<Seq<u8>>::empty());
        assert(components(join_spec(base, rel)) =~= components(base) + components(rel));
    } else if base.last() == SEPARATOR {
        let b = base.drop_last();
        lemma_scan_append(b, rel);
        assert(base + rel =~= b + seq![SEPARATOR] + rel);
        assert(base.drop_last() =~= b);
        assert(base.last() == SEPARATOR);
        let sr = scan_state(rel);
        if sr.1.len() == 0 {
        } else {
            assert((components(b) + sr.0).push(sr.1) =~= components(b) + sr.0.push(sr.1));
        }
        assert(components(base) =~= components(b));
        assert(components(join_spec(base, rel)) =~= components(base) + components(rel));
    } else {
        lemma_scan_append(base, rel);
        let sr = scan_state(rel);
        if sr.1.len() == 0 {
        } else {
            assert((components(base) + sr.0).push(sr.1) =~= components(base) + sr.0.push(sr.1));
        }
        assert(components(join_spec(base, rel)) =~= components(base) + components(rel));
    }
}

/// Joining onto a nonempty base keeps the base's absoluteness; joining onto
/// an empty base yields the relative path itself.
pub proof fn lemma_join_absolute(base: Seq<u8>, rel: Seq<u8>)
    ensures
        base.len() > 0 ==> is_absolute(join_spec(base, rel)) == is_absolute(base),
        base.len() == 0 ==> join_spec(base, rel) == rel,
{
    if base.len() > 0 {
        if base.last() == SEPARATOR {
            assert((base + rel)[0] == base[0]);
        } else {
            assert((base + seq![SEPARATOR] + rel)[0] == base[0]);
        }
    }
}

/// The syntactic join of a base and a relative path lies below the base,
/// provided the relative path is itself relative.
pub proof fn lemma_join_contained(base: Seq<u8>, rel: Seq<u8>)
    requires
        !is_absolute(rel),
    ensures
        contained_in(join_spec(base, rel), base),
{
    lemma_join_components(base, rel);
    lemma_join_absolute(base, rel);
    let joined = components(base) + components(rel);
    assert(components(base).is_prefix_of(joined)) by {
        assert(joined.subrange(0, components(base).len() as int) =~= components(base));
    }
}

} // verus!
