//! Content-addressed media references and the ordered reference sets a
//! project manifest yields.

use vstd::prelude::*;

verus! {

/// A 32-byte content hash naming one immutable media blob.
#[derive(Clone, Copy, PartialEq, Eq, PartialOrd, Ord, Hash, Debug)]
pub struct MediaRef {
    pub bytes: [u8; 32],
}

/// `a` and `b` agree before index `k` and `a` is smaller at `k`.
pub open spec fn less_at(a: Seq<u8>, b: Seq<u8>, k: int) -> bool {
    &&& 0 <= k < a.len()
    &&& k < b.len()
    &&& a.take(k) == b.take(k)
    &&& a[k] < b[k]
}

/// Lexicographic order on byte strings of one length.
pub open spec fn bytes_lt(a: Seq<u8>, b: Seq<u8>) -> bool {
    exists|k: int| #[trigger] less_at(a, b, k)
}

/// The order of media references: lexicographic on their bytes.
pub open spec fn ref_lt(x: MediaRef, y: MediaRef) -> bool {
    bytes_lt(x.bytes@, y.bytes@)
}

/// Strictly increasing, so free of duplicates: the shape of an ordered set.
pub open spec fn sorted_refs(s: Seq<MediaRef>) -> bool {
    forall|i: int, j: int| 0 <= i < j < s.len() ==> ref_lt(#[trigger] s[i], #[trigger] s[j])
}

/// References order by their bytes, lexicographically: `x` is below `y`
/// exactly when, at the first byte where they differ, `x`'s byte is the
/// smaller; a smaller first byte puts a reference first.
pub proof fn lemma_ref_lt_lexicographic(x: MediaRef, y: MediaRef)
    ensures
        ref_lt(x, y) <==> exists|k: int|
            0 <= k < 32 && (forall|j: int| 0 <= j < k ==> x.bytes@[j] == y.bytes@[j])
                && #[trigger] x.bytes@[k] < y.bytes@[k],
        x.bytes@[0] < y.bytes@[0] ==> ref_lt(x, y),
{
    if ref_lt(x, y) {
        let k = choose|k: int| #[trigger] less_at(x.bytes@, y.bytes@, k);
        assert forall|j: int| 0 <= j < k implies x.bytes@[j] == y.bytes@[j] by {
            assert(x.bytes@[j] == x.bytes@.take(k)[j]);
            assert(y.bytes@[j] == y.bytes@.take(k)[j]);
        }
    }
    if exists|k: int|
        0 <= k < 32 && (forall|j: int| 0 <= j < k ==> x.bytes@[j] == y.bytes@[j])
            && #[trigger] x.bytes@[k] < y.bytes@[k] {
        let k = choose|k: int|
            0 <= k < 32 && (forall|j: int| 0 <= j < k ==> x.bytes@[j] == y.bytes@[j])
                && #[trigger] x.bytes@[k] < y.bytes@[k];
        assert(x.bytes@.take(k) =~= y.bytes@.take(k));
        assert(less_at(x.bytes@, y.bytes@, k));
    }
    if x.bytes@[0] < y.bytes@[0] {
        assert(x.bytes@.take(0) =~= y.bytes@.take(0));
        assert(less_at(x.bytes@, y.bytes@, 0));
    }
}

/// No reference is below itself.
pub proof fn lemma_ref_lt_irreflexive(x: MediaRef)
    ensures
        !ref_lt(x, x),
{
}

/// The reference order is transitive.
pub proof fn lemma_ref_lt_transitive(x: MediaRef, y: MediaRef, z: MediaRef)
    requires
        ref_lt(x, y),
        ref_lt(y, z),
    ensures
        ref_lt(x, z),
{
    let a = x.bytes@;
    let b = y.bytes@;
    let c = z.bytes@;
    let k1 = choose|k: int| #[trigger] less_at(a, b, k);
    let k2 = choose|k: int| #[trigger] less_at(b, c, k);
    if k1 < k2 {
        assert(b.take(k1) == b.take(k2).take(k1));
        assert(c.take(k1) == c.take(k2).take(k1));
        assert(b[k1] == b.take(k2)[k1]);
        assert(c[k1] == c.take(k2)[k1]);
        assert(less_at(a, c, k1));
    } else if k2 < k1 {
        assert(a.take(k2) == a.take(k1).take(k2));
        assert(b.take(k2) == b.take(k1).take(k2));
        assert(a[k2] == a.take(k1)[k2]);
        assert(b[k2] == b.take(k1)[k2]);
        assert(less_at(a, c, k2));
    } else {
        assert(less_at(a, c, k1));
    }
}

/// No two references are each below the other.
pub proof fn lemma_ref_lt_asymmetric(x: MediaRef, y: MediaRef)
    requires
        ref_lt(x, y),
    ensures
        !ref_lt(y, x),
{
    if ref_lt(y, x) {
        lemma_ref_lt_transitive(x, y, x);
    }
}

/// Byte strings of one length that agree before `i` are equal or ordered.
proof fn lemma_bytes_trichotomy_from(a: Seq<u8>, b: Seq<u8>, i: int)
    requires
        a.len() == b.len(),
        0 <= i <= a.len(),
        a.take(i) == b.take(i),
    ensures
        a == b || bytes_lt(a, b) || bytes_lt(b, a),
    decreases a.len() - i,
{
    if i == a.len() {
        assert(a == a.take(i));
        assert(b == b.take(i));
    } else if a[i] < b[i] {
        assert(less_at(a, b, i));
    } else if b[i] < a[i] {
        assert(less_at(b, a, i));
    } else {
        assert(a.take(i + 1) =~= a.take(i).push(a[i]));
        assert(b.take(i + 1) =~= b.take(i).push(b[i]));
        lemma_bytes_trichotomy_from(a, b, i + 1);
    }
}

/// Any two references are equal or ordered one way.
pub proof fn lemma_ref_trichotomy(x: MediaRef, y: MediaRef)
    ensures
        x == y || ref_lt(x, y) || ref_lt(y, x),
{
    assert(x.bytes@.take(0) =~= y.bytes@.take(0));
    lemma_bytes_trichotomy_from(x.bytes@, y.bytes@, 0);
    if x.bytes@ == y.bytes@ {
        assert(x.bytes == y.bytes);
    }
}

/// Whether `a` orders before `b`.
pub fn ref_less(a: &MediaRef, b: &MediaRef) -> (r: bool)
    ensures
        r == ref_lt(*a, *b),
{
    let mut i: usize = 0;
    while i < 32
        invariant
            i <= 32,
            a.bytes@.len() == 32,
            b.bytes@.len() == 32,
            a.bytes@.take(i as int) == b.bytes@.take(i as int),
        decreases 32 - i,
    {
        let x = a.bytes[i];
        let y = b.bytes[i];
        if x < y {
            assert(less_at(a.bytes@, b.bytes@, i as int));
            return true;
        }
        if y < x {
            proof {
                assert(less_at(b.bytes@, a.bytes@, i as int));
                lemma_ref_lt_asymmetric(*b, *a);
            }
            return false;
        }
        assert(a.bytes@.take(i + 1) =~= a.bytes@.take(i as int).push(x));
        assert(b.bytes@.take(i + 1) =~= b.bytes@.take(i as int).push(y));
        i = i + 1;
    }
    proof {
        assert(a.bytes@ == a.bytes@.take(32));
        assert(b.bytes@ == b.bytes@.take(32));
        assert(a.bytes == b.bytes);
        lemma_ref_lt_irreflexive(*a);
    }
    false
}

/// Whether `a` and `b` name the same blob.
pub fn ref_equal(a: &MediaRef, b: &MediaRef) -> (r: bool)
    ensures
        r == (*a == *b),
{
    let lt = ref_less(a, b);
    let gt = ref_less(b, a);
    proof {
        lemma_ref_trichotomy(*a, *b);
        if *a == *b {
            lemma_ref_lt_irreflexive(*a);
        }
    }
    !lt && !gt
}

/// In a sorted sequence, every element below `s[i]` sits before index `i`.
proof fn lemma_sorted_position(s: Seq<MediaRef>, r: MediaRef, p: int)
    requires
        sorted_refs(s),
        0 <= p <= s.len(),
        forall|j: int| 0 <= j < p ==> ref_lt(#[trigger] s[j], r),
        p < s.len() ==> !ref_lt(s[p], r),
    ensures
        forall|j: int| p <= j < s.len() ==> !ref_lt(#[trigger] s[j], r),
{
    assert forall|j: int| p <= j < s.len() implies !ref_lt(#[trigger] s[j], r) by {
        if j > p && ref_lt(s[j], r) {
            assert(ref_lt(s[p], s[j]));
            lemma_ref_lt_transitive(s[p], s[j], r);
        }
    }
}

/// Adds `r` to an ordered reference set, keeping it ordered.
pub fn insert_sorted(v: &mut Vec<MediaRef>, r: MediaRef)
    requires
        sorted_refs(old(v)@),
    ensures
        sorted_refs(final(v)@),
        final(v)@.to_set() == old(v)@.to_set().insert(r),
{
    let mut p: usize = 0;
    let n = v.len();
    while p < n && ref_less(&v[p], &r)
        invariant
            n == v.len(),
            v@ == old(v)@,
            sorted_refs(v@),
            p <= n,
            forall|j: int| 0 <= j < p ==> ref_lt(#[trigger] v@[j], r),
        decreases n - p,
    {
        p = p + 1;
    }
    proof {
        lemma_sorted_position(v@, r, p as int);
    }
    if p < n && ref_equal(&v[p], &r) {
        assert(v@.to_set() =~= old(v)@.to_set().insert(r)) by {
            assert(v@.contains(r) ==> v@.to_set().contains(r));
            assert(v@[p as int] == r);
        }
        return;
    }
    let ghost before = v@;
    v.insert(p, r);
    proof {
        assert forall|i: int, j: int| 0 <= i < j < v@.len() implies ref_lt(
            #[trigger] v@[i],
            #[trigger] v@[j],
        ) by {
            if j < p {
                assert(v@[i] == before[i] && v@[j] == before[j]);
            } else if j == p {
                assert(v@[i] == before[i]);
            } else if i < p {
                assert(v@[i] == before[i] && v@[j] == before[j - 1]);
                assert(ref_lt(before[i], r));
                lemma_ref_trichotomy(before[j - 1], r);
                if p < before.len() {
                    lemma_ref_trichotomy(before[p as int], r);
                }
                if before[j - 1] != r {
                    assert(!ref_lt(before[j - 1], r));
                    assert(ref_lt(r, before[j - 1]));
                    lemma_ref_lt_transitive(before[i], r, before[j - 1]);
                } else {
                    assert(j - 1 >= p);
                    if j - 1 > p {
                        assert(ref_lt(before[p as int], before[j - 1]));
                        assert(!ref_lt(before[p as int], r));
                    }
                }
            } else if i == p {
                assert(v@[j] == before[j - 1]);
                lemma_ref_trichotomy(before[j - 1], r);
                if before[j - 1] == r {
                    if j - 1 > p {
                        assert(ref_lt(before[p as int], before[j - 1]));
                        assert(!ref_lt(before[p as int], r));
                        lemma_ref_trichotomy(before[p as int], r);
                    }
                }
            } else {
                assert(v@[i] == before[i - 1] && v@[j] == before[j - 1]);
            }
        }
        assert forall|x: MediaRef| v@.to_set().contains(x) <==> #[trigger] before.to_set().insert(
            r,
        ).contains(x) by {
            if v@.to_set().contains(x) {
                let i = choose|i: int| 0 <= i < v@.len() && v@[i] == x;
                if i < p {
                    assert(before[i] == x);
                } else if i > p {
                    assert(before[i - 1] == x);
                }
            }
            if before.to_set().contains(x) {
                let i = choose|i: int| 0 <= i < before.len() && before[i] == x;
                if i < p {
                    assert(v@[i] == x);
                } else {
                    assert(v@[i + 1] == x);
                }
            }
            if x == r {
                assert(v@[p as int] == r);
            }
        }
        assert(v@.to_set() =~= before.to_set().insert(r));
    }
}

/// The ordered set of references that `phrase_media` names: each reference
/// once, in ascending order, however often and in whatever order the
/// phrases name it.
pub fn referenced_media(phrase_media: &Vec<MediaRef>) -> (r: Vec<MediaRef>)
    ensures
        sorted_refs(r@),
        r@.to_set() == phrase_media@.to_set(),
        forall|i: int, j: int| 0 <= i < j < r@.len() ==> ref_lt(#[trigger] r@[i], #[trigger] r@[j]),
        r@.no_duplicates(),
        forall|i: int| 0 <= i < r@.len() ==> phrase_media@.contains(#[trigger] r@[i]),
        forall|i: int| 0 <= i < phrase_media@.len() ==> r@.contains(#[trigger] phrase_media@[i]),
{
    let mut out: Vec<MediaRef> = Vec::new();
    let mut i: usize = 0;
    assert(out@.to_set() =~= phrase_media@.take(0).to_set());
    while i < phrase_media.len()
        invariant
            i <= phrase_media@.len(),
            sorted_refs(out@),
            out@.to_set() == phrase_media@.take(i as int).to_set(),
        decreases phrase_media@.len() - i,
    {
        insert_sorted(&mut out, phrase_media[i]);
        assert(phrase_media@.take(i + 1) =~= phrase_media@.take(i as int).push(phrase_media@[i as int]));
        proof {
            let pre = phrase_media@.take(i as int);
            let x = phrase_media@[i as int];
            assert forall|y: MediaRef| #[trigger] pre.push(x).contains(y) <==> pre.contains(y) || y
                == x by {
                if pre.push(x).contains(y) {
                    let k = choose|k: int| 0 <= k < pre.push(x).len() && pre.push(x)[k] == y;
                    if k < pre.len() {
                        assert(pre[k] == y);
                    }
                }
                if pre.contains(y) {
                    let k = choose|k: int| 0 <= k < pre.len() && pre[k] == y;
                    assert(pre.push(x)[k] == y);
                }
                if y == x {
                    assert(pre.push(x)[pre.len() as int] == x);
                }
            }
            assert(pre.push(x).to_set() =~= pre.to_set().insert(x));
        }
        i = i + 1;
    }
    assert(phrase_media@.take(i as int) =~= phrase_media@);
    proof {
        lemma_sorted_no_duplicates(out@);
        assert forall|i: int| 0 <= i < out@.len() implies phrase_media@.contains(
            #[trigger] out@[i],
        ) by {
            assert(out@.to_set().contains(out@[i]));
        }
        assert forall|i: int| 0 <= i < phrase_media@.len() implies out@.contains(
            #[trigger] phrase_media@[i],
        ) by {
            assert(phrase_media@.to_set().contains(phrase_media@[i]));
        }
    }
    out
}

/// A sorted reference sequence holds no duplicates.
pub proof fn lemma_sorted_no_duplicates(s: Seq<MediaRef>)
    requires
        sorted_refs(s),
    ensures
        s.no_duplicates(),
{
    assert forall|i: int, j: int| 0 <= i < s.len() && 0 <= j < s.len() && i != j implies s[i]
        != s[j] by {
        if i < j {
            assert(ref_lt(s[i], s[j]));
        } else {
            assert(ref_lt(s[j], s[i]));
        }
        lemma_ref_lt_irreflexive(s[i]);
    }
}

} // verus!
