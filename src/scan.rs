use vstd::prelude::*;
use crate::text::{chars_of, parse_u64_at, parse_u64_spec};

verus! {

/// The namespace that mirror keys live under.
pub open spec fn key_prefix() -> Seq<char> {
    "xmirror:mirror:"@
}

/// The mirror id a store key names: the key starts with the namespace
/// prefix, and what follows it is an unsigned decimal.
pub open spec fn id_of_key(k: Seq<char>) -> Option<u64> {
    let p = key_prefix();
    if p.len() <= k.len() && k.subrange(0, p.len() as int) == p {
        parse_u64_spec(k.subrange(p.len() as int, k.len() as int))
    } else {
        None
    }
}

pub open spec fn strictly_increasing(s: Seq<u64>) -> bool {
    forall|i: int, j: int| 0 <= i < j < s.len() ==> s[i] < s[j]
}

/// Whether one of `keys` names mirror `id`.
pub open spec fn names_id(keys: Seq<String>, id: u64) -> bool {
    exists|i: int| 0 <= i < keys.len() && id_of_key(keys[i]@) == Some(id)
}

/// Whether `p` stands in `v` at position `i`.
fn has_at(v: &Vec<char>, i: usize, p: &str) -> (r: bool)
    requires
        i <= v@.len(),
    ensures
        r == (i + p@.len() <= v@.len() && v@.subrange(i as int, i + p@.len()) == p@),
{
    let n = p.unicode_len();
    if n > v.len() - i {
        return false;
    }
    let vl = v.len();
    let mut j: usize = 0;
    while j < n
        invariant
            n == p@.len(),
            vl == v@.len(),
            i + n <= vl,
            j <= n,
            forall|k: int| 0 <= k < j ==> v@[i + k] == p@[k],
        decreases n - j,
    {
        if v[i + j] != p.get_char(j) {
            assert(v@.subrange(i as int, i + n)[j as int] != p@[j as int]);
            return false;
        }
        j += 1;
    }
    assert(v@.subrange(i as int, i + n) =~= p@);
    true
}

/// The mirror id that a store key names, if it starts with the namespace
/// prefix and the rest is an unsigned decimal.
pub fn mirror_id(key: &str) -> (r: Option<u64>)
    ensures
        r == id_of_key(key@),
{
    let v = chars_of(key);
    let prefix = "xmirror:mirror:";
    if has_at(&v, 0, prefix) {
        parse_u64_at(&v, prefix.unicode_len())
    } else {
        None
    }
}

/// Adds `x` to a strictly increasing list, keeping it so.
fn insert_sorted(v: &mut Vec<u64>, x: u64)
    requires
        strictly_increasing(old(v)@),
    ensures
        strictly_increasing(final(v)@),
        forall|y: u64| final(v)@.contains(y) <==> (old(v)@.contains(y) || y == x),
{
    let mut j: usize = 0;
    while j < v.len() && v[j] < x
        invariant
            j <= v@.len(),
            forall|k: int| 0 <= k < j ==> v@[k] < x,
        decreases v@.len() - j,
    {
        j += 1;
    }
    if j < v.len() && v[j] == x {
        assert(v@.contains(x));
        return;
    }
    let ghost before = v@;
    v.insert(j, x);
    proof {
        before.insert_ensures(j as int, x);
        assert(forall|k: int| j <= k < before.len() ==> x < #[trigger] before[k]) by {
            assert forall|k: int| j <= k < before.len() implies x < #[trigger] before[k] by {
                if k > j {
                    assert(before[j as int] < before[k]);
                }
            }
        }
        assert forall|y: u64| v@.contains(y) <==> (before.contains(y) || y == x) by {
            if v@.contains(y) {
                let k = choose|k: int| 0 <= k < v@.len() && v@[k] == y;
                if k < j {
                    assert(before[k] == y);
                } else if k > j {
                    assert(before[k - 1] == y);
                }
            }
            if before.contains(y) {
                let k = choose|k: int| 0 <= k < before.len() && before[k] == y;
                if k < j {
                    assert(v@[k] == y);
                } else {
                    assert(v@[k + 1] == y);
                }
            }
            if y == x {
                assert(v@[j as int] == x);
            }
        }
    }
}

/// The ids that the keys name, ascending and without repeats; keys whose
/// suffix is not an unsigned decimal are skipped.
pub fn sorted_ids(keys: &Vec<String>) -> (r: Vec<u64>)
    ensures
        strictly_increasing(r@),
        forall|id: u64| r@.contains(id) <==> names_id(keys@, id),
{
    let mut ids: Vec<u64> = Vec::new();
    let mut i: usize = 0;
    while i < keys.len()
        invariant
            i <= keys@.len(),
            strictly_increasing(ids@),
            forall|id: u64|
                ids@.contains(id) <==> names_id(keys@.subrange(0, i as int), id),
        decreases keys@.len() - i,
    {
        let ghost pre = keys@.subrange(0, i as int);
        let ghost post = keys@.subrange(0, i + 1);
        let m = mirror_id(keys[i].as_str());
        proof {
            assert forall|id: u64| names_id(post, id) <==> (names_id(pre, id) || m == Some(id)) by {
                if names_id(post, id) {
                    let k = choose|k: int| 0 <= k < post.len() && id_of_key(post[k]@) == Some(id);
                    if k < i {
                        assert(pre[k] == post[k]);
                    }
                }
                if names_id(pre, id) {
                    let k = choose|k: int| 0 <= k < pre.len() && id_of_key(pre[k]@) == Some(id);
                    assert(post[k] == pre[k]);
                }
                if m == Some(id) {
                    assert(post[i as int] == keys@[i as int]);
                }
            }
        }
        match m {
            Some(id) => insert_sorted(&mut ids, id),
            None => {},
        }
        i += 1;
    }
    assert(keys@.subrange(0, keys@.len() as int) =~= keys@);
    ids
}

} // verus!
