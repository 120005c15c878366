use vstd::prelude::*;

verus! {

/// A total preorder on `T` with an executable test.
pub trait KeyOrder<T> {
    /// `a` may come before `b`.
    spec fn le(&self, a: T, b: T) -> bool;

    proof fn lemma_total(&self, a: T, b: T)
        ensures
            self.le(a, b) || self.le(b, a),
    ;

    proof fn lemma_trans(&self, a: T, b: T, c: T)
        requires
            self.le(a, b),
            self.le(b, c),
        ensures
            self.le(a, c),
    ;

    fn le_exec(&self, a: &T, b: &T) -> (r: bool)
        ensures
            r == self.le(*a, *b),
    ;
}

/// `output` is the stable sort of `input` under `o`: a rearrangement by a
/// permutation `perm` (output position k holds input position perm[k]) that
/// puts the elements in order and keeps equivalent elements in input order.
pub open spec fn stable_sort_witness<T, O: KeyOrder<T>>(
    o: O,
    input: Seq<T>,
    output: Seq<T>,
    perm: Seq<int>,
) -> bool {
    &&& perm.len() == input.len()
    &&& output.len() == input.len()
    &&& forall|k: int| 0 <= k < perm.len() ==> 0 <= #[trigger] perm[k] < input.len()
    &&& forall|k: int, l: int|
        0 <= k < l < perm.len() ==> #[trigger] perm[k] != #[trigger] perm[l]
    &&& forall|k: int| 0 <= k < output.len() ==> #[trigger] output[k] == input[perm[k]]
    &&& forall|k: int, l: int|
        0 <= k < l < output.len() ==> o.le(#[trigger] output[k], #[trigger] output[l]) && (o.le(
            output[l],
            output[k],
        ) ==> perm[k] < perm[l])
}

pub open spec fn is_stable_sort<T, O: KeyOrder<T>>(o: O, input: Seq<T>, output: Seq<T>) -> bool {
    exists|perm: Seq<int>| stable_sort_witness(o, input, output, perm)
}

/// Order on elements tagged with their input position: by `o`, then by position.
pub open spec fn tag_lt<T, O: KeyOrder<T>>(o: O, x: (usize, T), y: (usize, T)) -> bool {
    o.le(x.1, y.1) && (!o.le(y.1, x.1) || x.0 < y.0)
}

pub open spec fn sorted_tags<T, O: KeyOrder<T>>(o: O, s: Seq<(usize, T)>) -> bool {
    forall|i: int, j: int| 0 <= i < j < s.len() ==> tag_lt(o, #[trigger] s[i], #[trigger] s[j])
}

/// Every tag lies in [lo, hi) and carries the input element at its position.
pub open spec fn tags_valid<T>(src: Seq<T>, s: Seq<(usize, T)>, lo: int, hi: int) -> bool {
    forall|k: int|
        0 <= k < s.len() ==> lo <= (#[trigger] s[k]).0 < hi && s[k].0 < src.len() && s[k].1
            == src[s[k].0 as int]
}

proof fn lemma_tag_lt_trans<T, O: KeyOrder<T>>(o: O, x: (usize, T), y: (usize, T), z: (usize, T))
    requires
        tag_lt(o, x, y),
        tag_lt(o, y, z),
    ensures
        tag_lt(o, x, z),
{
    o.lemma_trans(x.1, y.1, z.1);
    if o.le(z.1, x.1) {
        o.lemma_trans(z.1, x.1, y.1);
        o.lemma_trans(y.1, z.1, x.1);
    }
}

proof fn lemma_tag_lt_cross<T, O: KeyOrder<T>>(o: O, x: (usize, T), y: (usize, T))
    requires
        x.0 < y.0,
    ensures
        tag_lt(o, x, y) == o.le(x.1, y.1),
        !o.le(x.1, y.1) ==> tag_lt(o, y, x),
{
    o.lemma_total(x.1, y.1);
}

proof fn lemma_tag_lt_irrefl<T, O: KeyOrder<T>>(o: O, x: (usize, T))
    ensures
        !tag_lt(o, x, x),
{
    o.lemma_total(x.1, x.1);
}

/// Merges two sorted runs whose positions lie in [lo, mid) and [mid, hi).
fn merge_runs<T, O: KeyOrder<T>>(
    o: &O,
    a: Vec<(usize, T)>,
    b: Vec<(usize, T)>,
    Ghost(src): Ghost<Seq<T>>,
    Ghost(lo): Ghost<int>,
    Ghost(mid): Ghost<int>,
    Ghost(hi): Ghost<int>,
) -> (r: Vec<(usize, T)>)
    requires
        lo <= mid <= hi,
        sorted_tags(*o, a@),
        sorted_tags(*o, b@),
        tags_valid(src, a@, lo, mid),
        tags_valid(src, b@, mid, hi),
    ensures
        sorted_tags(*o, r@),
        tags_valid(src, r@, lo, hi),
        r.len() == a.len() + b.len(),
{
    let ghost a0 = a@;
    let ghost b0 = b@;
    let mut a = a;
    let mut b = b;
    let mut rev: Vec<(usize, T)> = Vec::new();
    while a.len() > 0 || b.len() > 0
        invariant
            a@ == a0.take(a@.len() as int),
            b@ == b0.take(b@.len() as int),
            a@.len() <= a0.len(),
            b@.len() <= b0.len(),
            lo <= mid <= hi,
            sorted_tags(*o, a0),
            sorted_tags(*o, b0),
            tags_valid(src, a0, lo, mid),
            tags_valid(src, b0, mid, hi),
            tags_valid(src, rev@, lo, hi),
            rev.len() + a.len() + b.len() == a0.len() + b0.len(),
            forall|i: int, j: int|
                0 <= i < j < rev@.len() ==> tag_lt(*o, #[trigger] rev@[j], #[trigger] rev@[i]),
            forall|i: int, j: int|
                0 <= i < a@.len() && 0 <= j < rev@.len() ==> tag_lt(
                    *o,
                    #[trigger] a@[i],
                    #[trigger] rev@[j],
                ),
            forall|i: int, j: int|
                0 <= i < b@.len() && 0 <= j < rev@.len() ==> tag_lt(
                    *o,
                    #[trigger] b@[i],
                    #[trigger] rev@[j],
                ),
        decreases a.len() + b.len(),
    {
        let ghost old_a = a@;
        let ghost old_b = b@;
        let ghost old_rev = rev@;
        let take_a = if a.len() == 0 {
            false
        } else if b.len() == 0 {
            true
        } else {
            let la = a.len() - 1;
            let lb = b.len() - 1;
            !o.le_exec(&a[la].1, &b[lb].1)
        };
        if take_a {
            let z = a.pop().unwrap();
            proof {
                let na = old_a.len();
                assert(z == old_a[na - 1]);
                assert(a@ =~= a0.take(na - 1));
                // z is above what remains of both runs
                assert forall|i: int| 0 <= i < a@.len() implies tag_lt(*o, #[trigger] a@[i], z) by {
                    assert(a@[i] == a0[i]);
                    assert(z == a0[na - 1]);
                }
                if old_b.len() > 0 {
                    let bl = old_b[old_b.len() - 1];
                    lemma_tag_lt_cross(*o, z, bl);
                    assert(tag_lt(*o, bl, z));
                    assert forall|i: int| 0 <= i < b@.len() implies tag_lt(
                        *o,
                        #[trigger] b@[i],
                        z,
                    ) by {
                        if i < old_b.len() - 1 {
                            assert(b@[i] == b0[i] && bl == b0[old_b.len() - 1]);
                            lemma_tag_lt_trans(*o, b@[i], bl, z);
                        }
                    }
                }
            }
            rev.push(z);
            proof {
                assert forall|i: int, j: int| 0 <= i < j < rev@.len() implies tag_lt(
                    *o,
                    #[trigger] rev@[j],
                    #[trigger] rev@[i],
                ) by {
                    if j == rev@.len() - 1 {
                        assert(rev@[j] == z);
                        assert(rev@[i] == old_rev[i]);
                        assert(old_a[old_a.len() - 1] == z);
                    } else {
                        assert(rev@[j] == old_rev[j] && rev@[i] == old_rev[i]);
                    }
                }
                assert forall|i: int, j: int| 0 <= i < a@.len() && 0 <= j < rev@.len() implies tag_lt(
                    *o,
                    #[trigger] a@[i],
                    #[trigger] rev@[j],
                ) by {
                    assert(a@[i] == old_a[i]);
                    if j < old_rev.len() {
                        assert(rev@[j] == old_rev[j]);
                    }
                }
                assert forall|i: int, j: int| 0 <= i < b@.len() && 0 <= j < rev@.len() implies tag_lt(
                    *o,
                    #[trigger] b@[i],
                    #[trigger] rev@[j],
                ) by {
                    if j < old_rev.len() {
                        assert(rev@[j] == old_rev[j]);
                    }
                }
            }
        } else {
            let z = b.pop().unwrap();
            proof {
                let nb = old_b.len();
                assert(z == old_b[nb - 1]);
                assert(b@ =~= b0.take(nb - 1));
                assert forall|i: int| 0 <= i < b@.len() implies tag_lt(*o, #[trigger] b@[i], z) by {
                    assert(b@[i] == b0[i]);
                    assert(z == b0[nb - 1]);
                }
                if old_a.len() > 0 {
                    let al = old_a[old_a.len() - 1];
                    lemma_tag_lt_cross(*o, al, z);
                    assert(tag_lt(*o, al, z));
                    assert forall|i: int| 0 <= i < a@.len() implies tag_lt(
                        *o,
                        #[trigger] a@[i],
                        z,
                    ) by {
                        if i < old_a.len() - 1 {
                            assert(a@[i] == a0[i] && al == a0[old_a.len() - 1]);
                            lemma_tag_lt_trans(*o, a@[i], al, z);
                        }
                    }
                }
            }
            rev.push(z);
            proof {
                assert forall|i: int, j: int| 0 <= i < j < rev@.len() implies tag_lt(
                    *o,
                    #[trigger] rev@[j],
                    #[trigger] rev@[i],
                ) by {
                    if j == rev@.len() - 1 {
                        assert(rev@[j] == z);
                        assert(rev@[i] == old_rev[i]);
                        assert(old_b[old_b.len() - 1] == z);
                    } else {
                        assert(rev@[j] == old_rev[j] && rev@[i] == old_rev[i]);
                    }
                }
                assert forall|i: int, j: int| 0 <= i < a@.len() && 0 <= j < rev@.len() implies tag_lt(
                    *o,
                    #[trigger] a@[i],
                    #[trigger] rev@[j],
                ) by {
                    if j < old_rev.len() {
                        assert(rev@[j] == old_rev[j]);
                    }
                }
                assert forall|i: int, j: int| 0 <= i < b@.len() && 0 <= j < rev@.len() implies tag_lt(
                    *o,
                    #[trigger] b@[i],
                    #[trigger] rev@[j],
                ) by {
                    assert(b@[i] == old_b[i]);
                    if j < old_rev.len() {
                        assert(rev@[j] == old_rev[j]);
                    }
                }
            }
        }
    }
    reverse_run(o, rev, Ghost(src), Ghost(lo), Ghost(hi))
}

/// Turns a strictly decreasing run into the increasing one.
fn reverse_run<T, O: KeyOrder<T>>(
    o: &O,
    rev: Vec<(usize, T)>,
    Ghost(src): Ghost<Seq<T>>,
    Ghost(lo): Ghost<int>,
    Ghost(hi): Ghost<int>,
) -> (r: Vec<(usize, T)>)
    requires
        tags_valid(src, rev@, lo, hi),
        forall|i: int, j: int|
            0 <= i < j < rev@.len() ==> tag_lt(*o, #[trigger] rev@[j], #[trigger] rev@[i]),
    ensures
        sorted_tags(*o, r@),
        tags_valid(src, r@, lo, hi),
        r.len() == rev.len(),
{
    let ghost r0 = rev@;
    let ghost n = r0.len();
    let mut rev = rev;
    let mut out: Vec<(usize, T)> = Vec::new();
    while rev.len() > 0
        invariant
            rev@ == r0.take(rev@.len() as int),
            rev@.len() <= n,
            n == r0.len(),
            out.len() + rev.len() == n,
            forall|i: int| 0 <= i < out@.len() ==> #[trigger] out@[i] == r0[n - 1 - i],
        decreases rev.len(),
    {
        let ghost m = rev@.len();
        let z = rev.pop().unwrap();
        proof {
            assert(z == r0[m - 1]);
            assert(rev@ =~= r0.take(m - 1));
        }
        out.push(z);
    }
    proof {
        assert forall|i: int, j: int| 0 <= i < j < out@.len() implies tag_lt(
            *o,
            #[trigger] out@[i],
            #[trigger] out@[j],
        ) by {
            assert(out@[i] == r0[n - 1 - i]);
            assert(out@[j] == r0[n - 1 - j]);
        }
        assert forall|k: int| 0 <= k < out@.len() implies lo <= (#[trigger] out@[k]).0 < hi
            && out@[k].0 < src.len() && out@[k].1 == src[out@[k].0 as int] by {
            assert(out@[k] == r0[n - 1 - k]);
        }
    }
    out
}

/// Sorts a run of tagged elements whose positions lie in [lo, lo + len).
fn sort_tagged<T, O: KeyOrder<T>>(
    o: &O,
    v: Vec<(usize, T)>,
    Ghost(src): Ghost<Seq<T>>,
    Ghost(lo): Ghost<int>,
) -> (r: Vec<(usize, T)>)
    requires
        lo + v@.len() <= src.len(),
        0 <= lo,
        forall|k: int|
            0 <= k < v@.len() ==> (#[trigger] v@[k]).0 == lo + k && v@[k].1 == src[lo + k],
    ensures
        sorted_tags(*o, r@),
        tags_valid(src, r@, lo, lo + v@.len()),
        r.len() == v.len(),
    decreases v.len(),
{
    let n = v.len();
    if n <= 1 {
        proof {
            assert forall|k: int| 0 <= k < v@.len() implies lo <= (#[trigger] v@[k]).0 < lo
                + v@.len() && v@[k].0 < src.len() && v@[k].1 == src[v@[k].0 as int] by {
                assert(v@[k].0 == lo + k);
            }
            assert(sorted_tags(*o, v@));
        }
        return v;
    }
    let mid = n / 2;
    let mut left = v;
    let right = left.split_off(mid);
    let ghost lv = left@;
    let ghost rv = right@;
    proof {
        assert forall|k: int| 0 <= k < lv.len() implies (#[trigger] lv[k]).0 == lo + k
            && lv[k].1 == src[lo + k] by {
            assert(lv[k] == v@[k]);
        }
        assert forall|k: int| 0 <= k < rv.len() implies (#[trigger] rv[k]).0 == (lo + mid) + k
            && rv[k].1 == src[(lo + mid) + k] by {
            assert(rv[k] == v@[mid + k]);
        }
    }
    let sl = sort_tagged(o, left, Ghost(src), Ghost(lo));
    let sr = sort_tagged(o, right, Ghost(src), Ghost(lo + mid));
    merge_runs(o, sl, sr, Ghost(src), Ghost(lo), Ghost(lo + mid), Ghost(lo + n))
}

/// Sorts `v` stably by `o` (equivalent elements keep their input order).
pub fn stable_sort<T, O: KeyOrder<T>>(o: &O, v: Vec<T>) -> (r: Vec<T>)
    ensures
        is_stable_sort(*o, v@, r@),
{
    let ghost src = v@;
    let total = v.len();
    let mut tagged: Vec<(usize, T)> = Vec::new();
    let mut i: usize = 0;
    for x in it: v.into_iter()
        invariant
            it.seq() == src,
            src.len() == total,
            i == it.index(),
            tagged.len() == i,
            forall|k: int| 0 <= k < tagged@.len() ==> #[trigger] tagged@[k] == (k as usize, src[k]),
    {
        proof {
            assert(i < src.len());
        }
        tagged.push((i, x));
        i = i + 1;
    }
    let ghost n = src.len();
    proof {
        assert forall|k: int| 0 <= k < tagged@.len() implies (#[trigger] tagged@[k]).0 == 0 + k
            && tagged@[k].1 == src[0 + k] by {
            assert(tagged@[k] == (k as usize, src[k]));
        }
    }
    let sorted = sort_tagged(o, tagged, Ghost(src), Ghost(0));
    let ghost sv = sorted@;
    let mut out: Vec<T> = Vec::new();
    let ghost mut perm: Seq<int> = seq![];
    for p in it: sorted.into_iter()
        invariant
            it.seq() == sv,
            out.len() == it.index(),
            perm.len() == it.index(),
            forall|k: int| 0 <= k < out@.len() ==> #[trigger] out@[k] == sv[k].1,
            forall|k: int| 0 <= k < perm.len() ==> #[trigger] perm[k] == sv[k].0 as int,
    {
        let (idx, x) = p;
        proof {
            perm = perm.push(idx as int);
        }
        out.push(x);
    }
    proof {
        assert(sv.len() == n);
        assert forall|k: int| 0 <= k < perm.len() implies 0 <= #[trigger] perm[k] < src.len() by {
            assert(perm[k] == sv[k].0 as int);
        }
        assert forall|k: int, l: int| 0 <= k < l < perm.len() implies #[trigger] perm[k]
            != #[trigger] perm[l] by {
            assert(tag_lt(*o, sv[k], sv[l]));
            if perm[k] == perm[l] {
                assert(sv[k] == sv[l]);
                lemma_tag_lt_irrefl(*o, sv[k]);
            }
        }
        assert forall|k: int| 0 <= k < out@.len() implies #[trigger] out@[k] == src[perm[k]] by {
            assert(out@[k] == sv[k].1);
        }
        assert forall|k: int, l: int| 0 <= k < l < out@.len() implies o.le(
            #[trigger] out@[k],
            #[trigger] out@[l],
        ) && (o.le(out@[l], out@[k]) ==> perm[k] < perm[l]) by {
            assert(tag_lt(*o, sv[k], sv[l]));
            assert(out@[k] == sv[k].1 && out@[l] == sv[l].1);
        }
        assert(stable_sort_witness(*o, src, out@, perm));
    }
    out
}

} // verus!
