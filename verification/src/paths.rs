use vstd::prelude::*;

use crate::text::chars_of;

verus! {

// Paths are held as text. Their components follow the Unix rules of std's
// `Path::components`: a leading `/` is the root; repeated separators and `.`
// pieces are dropped, except a `.` that begins a relative path; `..` is a
// parent component; a trailing slash adds nothing. Each component is keyed by
// a sequence of numbers that orders components as std does (root < `.` <
// `..` < names, names by their characters).
/// Key of the root component.
pub open spec fn root_key() -> Seq<u32> {
    seq![1u32]
}

/// Key of a leading `.` component.
pub open spec fn cur_dir_key() -> Seq<u32> {
    seq![2u32]
}

/// Key of a `..` component.
pub open spec fn parent_dir_key() -> Seq<u32> {
    seq![3u32]
}

pub open spec fn codes(s: Seq<char>) -> Seq<u32> {
    Seq::new(s.len(), |i: int| s[i] as u32)
}

/// Key of a name component.
pub open spec fn normal_key(piece: Seq<char>) -> Seq<u32> {
    seq![4u32] + codes(piece)
}

pub open spec fn is_dot(piece: Seq<char>) -> bool {
    piece == seq!['.']
}

pub open spec fn is_dot_dot(piece: Seq<char>) -> bool {
    piece == seq!['.', '.']
}

/// Adds the component of a finished piece; `first` holds when no separator
/// came before it.
pub open spec fn finish_piece(comps: Seq<Seq<u32>>, piece: Seq<char>, first: bool) -> Seq<
    Seq<u32>,
> {
    if piece.len() == 0 {
        comps
    } else if is_dot(piece) {
        if first {
            comps.push(cur_dir_key())
        } else {
            comps
        }
    } else if is_dot_dot(piece) {
        comps.push(parent_dir_key())
    } else {
        comps.push(normal_key(piece))
    }
}

/// Components finished so far, the piece being read, and whether a separator
/// has been seen, after reading `p` from the left.
pub open spec fn scan_state(p: Seq<char>) -> (Seq<Seq<u32>>, Seq<char>, bool)
    decreases p.len(),
{
    if p.len() == 0 {
        (seq![], seq![], false)
    } else {
        let st = scan_state(p.drop_last());
        let ch = p.last();
        if ch == '/' {
            if p.len() == 1 {
                (seq![root_key()], seq![], true)
            } else {
                (finish_piece(st.0, st.1, !st.2), seq![], true)
            }
        } else {
            (st.0, st.1.push(ch), st.2)
        }
    }
}

/// The component keys of a path, in order.
pub open spec fn path_key(p: Seq<char>) -> Seq<Seq<u32>> {
    let st = scan_state(p);
    finish_piece(st.0, st.1, !st.2)
}

/// Number of components of a path.
pub open spec fn component_count(p: Seq<char>) -> nat {
    path_key(p).len()
}

/// Depth below the first component: the component count less one, at least
/// zero, capped at `u32::MAX`.
pub open spec fn path_depth_spec(p: Seq<char>) -> u32 {
    let n = component_count(p);
    if n == 0 {
        0
    } else if n - 1 > u32::MAX {
        u32::MAX
    } else {
        (n - 1) as u32
    }
}

pub open spec fn within_depth_spec(p: Seq<char>, max_depth: Option<u32>) -> bool {
    match max_depth {
        None => true,
        Some(d) => path_depth_spec(p) <= d,
    }
}

/// Lexicographic order on number sequences (a proper prefix comes first).
pub open spec fn lex_lt(a: Seq<u32>, b: Seq<u32>) -> bool
    decreases a.len(),
{
    if a.len() == 0 {
        b.len() > 0
    } else if b.len() == 0 {
        false
    } else if a[0] < b[0] {
        true
    } else if a[0] > b[0] {
        false
    } else {
        lex_lt(a.drop_first(), b.drop_first())
    }
}

/// Lexicographic order on component sequences.
pub open spec fn keys_lt(a: Seq<Seq<u32>>, b: Seq<Seq<u32>>) -> bool
    decreases a.len(),
{
    if a.len() == 0 {
        b.len() > 0
    } else if b.len() == 0 {
        false
    } else if lex_lt(a[0], b[0]) {
        true
    } else if lex_lt(b[0], a[0]) {
        false
    } else {
        keys_lt(a.drop_first(), b.drop_first())
    }
}

/// std's `Path` order: `a` sorts before `b`.
pub open spec fn path_lt(a: Seq<char>, b: Seq<char>) -> bool {
    keys_lt(path_key(a), path_key(b))
}

/// `a` and `b` have the same components.
pub open spec fn path_equiv(a: Seq<char>, b: Seq<char>) -> bool {
    path_key(a) == path_key(b)
}

pub proof fn lemma_lex_irrefl(a: Seq<u32>)
    ensures
        !lex_lt(a, a),
    decreases a.len(),
{
    if a.len() > 0 {
        lemma_lex_irrefl(a.drop_first());
    }
}

pub proof fn lemma_lex_trans(a: Seq<u32>, b: Seq<u32>, c: Seq<u32>)
    requires
        lex_lt(a, b),
        lex_lt(b, c),
    ensures
        lex_lt(a, c),
    decreases a.len(),
{
    if a.len() > 0 && b.len() > 0 && c.len() > 0 {
        if a[0] == b[0] && b[0] == c[0] {
            lemma_lex_trans(a.drop_first(), b.drop_first(), c.drop_first());
        }
    }
}

pub proof fn lemma_lex_total(a: Seq<u32>, b: Seq<u32>)
    ensures
        lex_lt(a, b) || lex_lt(b, a) || a == b,
    decreases a.len(),
{
    if a.len() > 0 && b.len() > 0 && a[0] == b[0] {
        lemma_lex_total(a.drop_first(), b.drop_first());
        if a.drop_first() == b.drop_first() {
            assert(a =~= seq![a[0]] + a.drop_first());
            assert(b =~= seq![b[0]] + b.drop_first());
        }
    } else if a.len() == 0 && b.len() == 0 {
        assert(a =~= b);
    }
}

pub proof fn lemma_lex_asym(a: Seq<u32>, b: Seq<u32>)
    requires
        lex_lt(a, b),
    ensures
        !lex_lt(b, a),
{
    if lex_lt(b, a) {
        lemma_lex_trans(a, b, a);
        lemma_lex_irrefl(a);
    }
}

pub proof fn lemma_keys_irrefl(a: Seq<Seq<u32>>)
    ensures
        !keys_lt(a, a),
    decreases a.len(),
{
    if a.len() > 0 {
        lemma_lex_irrefl(a[0]);
        lemma_keys_irrefl(a.drop_first());
    }
}

pub proof fn lemma_keys_trans(a: Seq<Seq<u32>>, b: Seq<Seq<u32>>, c: Seq<Seq<u32>>)
    requires
        keys_lt(a, b),
        keys_lt(b, c),
    ensures
        keys_lt(a, c),
    decreases a.len(),
{
    if a.len() > 0 && b.len() > 0 && c.len() > 0 {
        lemma_lex_total(a[0], b[0]);
        lemma_lex_total(b[0], c[0]);
        lemma_lex_total(a[0], c[0]);
        if lex_lt(a[0], b[0]) {
            lemma_lex_asym(a[0], b[0]);
            if lex_lt(b[0], c[0]) {
                lemma_lex_trans(a[0], b[0], c[0]);
            }
            if lex_lt(c[0], a[0]) {
                lemma_lex_trans(c[0], a[0], b[0]);
                lemma_lex_asym(c[0], b[0]);
            }
        } else if lex_lt(b[0], a[0]) {
        } else {
            assert(a[0] == b[0]);
            if lex_lt(b[0], c[0]) {
            } else if lex_lt(c[0], b[0]) {
            } else {
                assert(b[0] == c[0]);
                lemma_keys_trans(a.drop_first(), b.drop_first(), c.drop_first());
            }
        }
    }
}

pub proof fn lemma_keys_total(a: Seq<Seq<u32>>, b: Seq<Seq<u32>>)
    ensures
        keys_lt(a, b) || keys_lt(b, a) || a == b,
    decreases a.len(),
{
    if a.len() > 0 && b.len() > 0 {
        lemma_lex_total(a[0], b[0]);
        if a[0] == b[0] {
            lemma_lex_irrefl(a[0]);
            lemma_keys_total(a.drop_first(), b.drop_first());
            if a.drop_first() == b.drop_first() {
                assert(a =~= seq![a[0]] + a.drop_first());
                assert(b =~= seq![b[0]] + b.drop_first());
            }
        }
    } else if a.len() == 0 && b.len() == 0 {
        assert(a =~= b);
    }
}

pub proof fn lemma_keys_asym(a: Seq<Seq<u32>>, b: Seq<Seq<u32>>)
    requires
        keys_lt(a, b),
    ensures
        !keys_lt(b, a),
{
    if keys_lt(b, a) {
        lemma_keys_trans(a, b, a);
        lemma_keys_irrefl(a);
    }
}

/// Path order is a strict weak order whose equivalence is "same components":
/// for any two paths exactly one of `a < b`, `b < a`, "same components" holds,
/// and `<` is transitive.
pub proof fn lemma_path_order(a: Seq<char>, b: Seq<char>, c: Seq<char>)
    ensures
        path_lt(a, b) || path_lt(b, a) || path_equiv(a, b),
        !(path_lt(a, b) && path_lt(b, a)),
        path_equiv(a, b) ==> !path_lt(a, b),
        path_lt(a, b) && path_lt(b, c) ==> path_lt(a, c),
{
    lemma_keys_total(path_key(a), path_key(b));
    lemma_keys_irrefl(path_key(a));
    if path_lt(a, b) {
        lemma_keys_asym(path_key(a), path_key(b));
        if path_lt(b, c) {
            lemma_keys_trans(path_key(a), path_key(b), path_key(c));
        }
    }
}

/// Three-way result of a comparison.
#[derive(Debug, Clone, Copy, PartialEq, Eq, Structural)]
pub enum Comparison {
    Less,
    Equal,
    Greater,
}

fn piece_is_dot(piece: &Vec<char>) -> (r: bool)
    ensures
        r == is_dot(piece@),
{
    let r = piece.len() == 1 && piece[0] == '.';
    proof {
        if r {
            assert(piece@ =~= seq!['.']);
        }
    }
    r
}

fn piece_is_dot_dot(piece: &Vec<char>) -> (r: bool)
    ensures
        r == is_dot_dot(piece@),
{
    let r = piece.len() == 2 && piece[0] == '.' && piece[1] == '.';
    proof {
        if r {
            assert(piece@ =~= seq!['.', '.']);
        }
    }
    r
}

fn one_code(k: u32) -> (r: Vec<u32>)
    ensures
        r@ == seq![k],
{
    let mut v: Vec<u32> = Vec::new();
    v.push(k);
    v
}

fn finish_piece_exec(comps: &mut Vec<Vec<u32>>, piece: &Vec<char>, first: bool)
    ensures
        keys_view(final(comps)@) == finish_piece(keys_view(old(comps)@), piece@, first),
{
    let ghost before = keys_view(comps@);
    if piece.len() == 0 {
    } else if piece_is_dot(piece) {
        if first {
            comps.push(one_code(2));
            assert(keys_view(comps@) =~= before.push(cur_dir_key()));
        }
    } else if piece_is_dot_dot(piece) {
        comps.push(one_code(3));
        assert(keys_view(comps@) =~= before.push(parent_dir_key()));
    } else {
        let mut key: Vec<u32> = Vec::new();
        key.push(4);
        let mut i: usize = 0;
        while i < piece.len()
            invariant
                i <= piece.len(),
                key@ == seq![4u32] + codes(piece@.take(i as int)),
            decreases piece.len() - i,
        {
            key.push(piece[i] as u32);
            proof {
                assert(codes(piece@.take(i + 1)) =~= codes(piece@.take(i as int)).push(
                    piece@[i as int] as u32,
                ));
            }
            i += 1;
        }
        assert(piece@.take(piece.len() as int) =~= piece@);
        comps.push(key);
        assert(keys_view(comps@) =~= before.push(normal_key(piece@)));
    }
}

/// The keys held by a vector of component keys.
pub open spec fn keys_view(v: Seq<Vec<u32>>) -> Seq<Seq<u32>> {
    Seq::new(v.len(), |i: int| v[i]@)
}

/// Component keys of a path.
pub fn path_components_key(path: &str) -> (r: Vec<Vec<u32>>)
    ensures
        keys_view(r@) == path_key(path@),
{
    let chars = chars_of(path);
    let ghost p = path@;
    let mut comps: Vec<Vec<u32>> = Vec::new();
    let mut piece: Vec<char> = Vec::new();
    let mut seen = false;
    let mut i: usize = 0;
    while i < chars.len()
        invariant
            chars@ == p,
            i <= chars.len(),
            (keys_view(comps@), piece@, seen) == scan_state(p.take(i as int)),
        decreases chars.len() - i,
    {
        let ch = chars[i];
        proof {
            assert(p.take(i + 1).drop_last() =~= p.take(i as int));
            assert(p.take(i + 1).last() == ch);
        }
        if ch == '/' {
            if i == 0 {
                comps.push(one_code(1));
                assert(keys_view(comps@) =~= seq![root_key()]);
            } else {
                finish_piece_exec(&mut comps, &piece, !seen);
            }
            piece = Vec::new();
            seen = true;
        } else {
            piece.push(ch);
        }
        i += 1;
    }
    assert(p.take(chars.len() as int) =~= p);
    finish_piece_exec(&mut comps, &piece, !seen);
    comps
}

fn lex_compare(a: &Vec<u32>, b: &Vec<u32>) -> (r: Comparison)
    ensures
        (r == Comparison::Less) == lex_lt(a@, b@),
        (r == Comparison::Greater) == lex_lt(b@, a@),
        (r == Comparison::Equal) == (a@ == b@),
{
    let mut i: usize = 0;
    assert(a@.skip(0) =~= a@);
    assert(b@.skip(0) =~= b@);
    assert(a@.take(0) =~= b@.take(0));
    while i < a.len() && i < b.len()
        invariant
            i <= a.len(),
            i <= b.len(),
            a@.take(i as int) == b@.take(i as int),
            lex_lt(a@, b@) == lex_lt(a@.skip(i as int), b@.skip(i as int)),
            lex_lt(b@, a@) == lex_lt(b@.skip(i as int), a@.skip(i as int)),
        decreases a.len() - i,
    {
        proof {
            assert(a@.skip(i as int).drop_first() =~= a@.skip(i + 1));
            assert(b@.skip(i as int).drop_first() =~= b@.skip(i + 1));
        }
        if a[i] < b[i] {
            proof {
                lemma_lex_total(a@, b@);
                lemma_lex_asym(a@, b@);
                if a@ == b@ {
                    lemma_lex_irrefl(a@);
                }
            }
            return Comparison::Less;
        }
        if a[i] > b[i] {
            proof {
                lemma_lex_asym(b@, a@);
                if a@ == b@ {
                    lemma_lex_irrefl(a@);
                }
            }
            return Comparison::Greater;
        }
        proof {
            assert(a@.take(i + 1) =~= a@.take(i as int).push(a@[i as int]));
            assert(b@.take(i + 1) =~= b@.take(i as int).push(b@[i as int]));
        }
        i += 1;
    }
    proof {
        lemma_lex_irrefl(a@);
    }
    if a.len() < b.len() {
        proof {
            lemma_lex_asym(a@, b@);
            assert(a@ != b@);
        }
        Comparison::Less
    } else if a.len() > b.len() {
        proof {
            lemma_lex_asym(b@, a@);
            assert(a@ != b@);
        }
        Comparison::Greater
    } else {
        assert(a@ =~= a@.take(i as int));
        assert(b@ =~= b@.take(i as int));
        Comparison::Equal
    }
}

fn keys_compare(a: &Vec<Vec<u32>>, b: &Vec<Vec<u32>>) -> (r: Comparison)
    ensures
        (r == Comparison::Less) == keys_lt(keys_view(a@), keys_view(b@)),
        (r == Comparison::Greater) == keys_lt(keys_view(b@), keys_view(a@)),
        (r == Comparison::Equal) == (keys_view(a@) == keys_view(b@)),
{
    let ghost av = keys_view(a@);
    let ghost bv = keys_view(b@);
    let mut i: usize = 0;
    assert(av.skip(0) =~= av);
    assert(bv.skip(0) =~= bv);
    assert(av.take(0) =~= bv.take(0));
    while i < a.len() && i < b.len()
        invariant
            i <= a.len(),
            i <= b.len(),
            av == keys_view(a@),
            bv == keys_view(b@),
            av.take(i as int) == bv.take(i as int),
            keys_lt(av, bv) == keys_lt(av.skip(i as int), bv.skip(i as int)),
            keys_lt(bv, av) == keys_lt(bv.skip(i as int), av.skip(i as int)),
        decreases a.len() - i,
    {
        proof {
            assert(av.skip(i as int).drop_first() =~= av.skip(i + 1));
            assert(bv.skip(i as int).drop_first() =~= bv.skip(i + 1));
            assert(av.skip(i as int)[0] == a@[i as int]@);
            assert(bv.skip(i as int)[0] == b@[i as int]@);
        }
        let c = lex_compare(&a[i], &b[i]);
        match c {
            Comparison::Less => {
                proof {
                    lemma_keys_asym(av, bv);
                    lemma_keys_irrefl(av);
                }
                return Comparison::Less;
            },
            Comparison::Greater => {
                proof {
                    lemma_keys_asym(bv, av);
                    lemma_keys_irrefl(av);
                }
                return Comparison::Greater;
            },
            Comparison::Equal => {},
        }
        proof {
            assert(av.take(i + 1) =~= av.take(i as int).push(av[i as int]));
            assert(bv.take(i + 1) =~= bv.take(i as int).push(bv[i as int]));
        }
        i += 1;
    }
    proof {
        lemma_keys_irrefl(av);
    }
    if a.len() < b.len() {
        proof {
            lemma_keys_asym(av, bv);
        }
        Comparison::Less
    } else if a.len() > b.len() {
        proof {
            lemma_keys_asym(bv, av);
        }
        Comparison::Greater
    } else {
        assert(av =~= av.take(i as int));
        assert(bv =~= bv.take(i as int));
        Comparison::Equal
    }
}

/// Compares two paths as std's `Path` does (component by component).
pub fn path_compare(a: &str, b: &str) -> (r: Comparison)
    ensures
        (r == Comparison::Less) == path_lt(a@, b@),
        (r == Comparison::Greater) == path_lt(b@, a@),
        (r == Comparison::Equal) == path_equiv(a@, b@),
{
    let ka = path_components_key(a);
    let kb = path_components_key(b);
    keys_compare(&ka, &kb)
}

/// Number of components below the first: `/` is 0, `/etc` is 1, `/etc/passwd` is 2.
pub fn path_depth(path: &str) -> (r: u32)
    ensures
        r == path_depth_spec(path@),
{
    let comps = path_components_key(path);
    let n = comps.len();
    let below = if n == 0 {
        0
    } else {
        n - 1
    };
    if below > u32::MAX as usize {
        u32::MAX
    } else {
        below as u32
    }
}

/// Whether a path is no deeper than `max_depth` (always, when there is no limit).
pub fn path_within_depth(path: &str, max_depth: Option<u32>) -> (r: bool)
    ensures
        r == within_depth_spec(path@, max_depth),
{
    match max_depth {
        None => true,
        Some(depth) => path_depth(path) <= depth,
    }
}

/// How far below `root` a path lies: its component count less the root's
/// (0 for the root itself, and for a path with no more components).
pub open spec fn relative_depth_spec(path: Seq<char>, root: Seq<char>) -> nat {
    if component_count(path) > component_count(root) {
        (component_count(path) - component_count(root)) as nat
    } else {
        0
    }
}

/// A path found under `root` is within the depth limit counted from `root`
/// (the root is at depth 0).
pub open spec fn within_depth_from_spec(path: Seq<char>, root: Seq<char>, max_depth: Option<u32>) -> bool {
    match max_depth {
        None => true,
        Some(d) => relative_depth_spec(path, root) <= d,
    }
}

/// The scan root passes every depth limit, `0` included.
pub proof fn lemma_root_within_any_depth(root: Seq<char>, max_depth: Option<u32>)
    ensures
        within_depth_from_spec(root, root, max_depth),
{
}

/// Whether a path under `root` is no deeper below it than `max_depth`
/// (always, when there is no limit).
pub fn path_within_depth_from(path: &str, root: &str, max_depth: Option<u32>) -> (r: bool)
    ensures
        r == within_depth_from_spec(path@, root@, max_depth),
{
    match max_depth {
        None => true,
        Some(depth) => {
            let p = path_components_key(path).len();
            let q = path_components_key(root).len();
            let below: usize = if p > q {
                p - q
            } else {
                0
            };
            below as u64 <= depth as u64
        },
    }
}

} // verus!
