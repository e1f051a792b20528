//! Paths as strings: joining, mirroring a relative path under a new root,
//! and file-name extensions.
use vstd::prelude::*;

verus! {

/// The views of a sequence of strings.
pub open spec fn strs(v: Seq<String>) -> Seq<Seq<char>> {
    v.map_values(|s: String| s@)
}

/// `rel` appended to `base` with one separator between them.
pub open spec fn path_join(base: Seq<char>, rel: Seq<char>) -> Seq<char> {
    if base.len() == 0 || base.last() == '/' {
        base + rel
    } else {
        base + seq!['/'] + rel
    }
}

/// The components of `rel` joined one after the other onto `root`.
pub open spec fn mirrored(root: Seq<char>, rel: Seq<Seq<char>>) -> Seq<char>
    decreases rel.len(),
{
    if rel.len() == 0 {
        root
    } else {
        path_join(mirrored(root, rel.drop_last()), rel.last())
    }
}

/// `c` is one path component: nonempty, without a separator.
pub open spec fn is_component(c: Seq<char>) -> bool {
    c.len() > 0 && forall|i: int| 0 <= i < c.len() ==> c[i] != '/'
}

/// A root to mirror under: nonempty, not ending in a separator.
pub open spec fn is_root(root: Seq<char>) -> bool {
    root.len() > 0 && root.last() != '/'
}

proof fn lemma_mirrored_shape(root: Seq<char>, rel: Seq<Seq<char>>)
    requires
        is_root(root),
        forall|k: int| 0 <= k < rel.len() ==> is_component(#[trigger] rel[k]),
    ensures
        is_root(mirrored(root, rel)),
        mirrored(root, rel).len() >= root.len() + 2 * rel.len(),
        rel.len() > 0 ==> mirrored(root, rel) == mirrored(root, rel.drop_last()) + seq!['/']
            + rel.last(),
    decreases rel.len(),
{
    if rel.len() > 0 {
        lemma_mirrored_shape(root, rel.drop_last());
        assert(is_component(rel[rel.len() - 1]));
        let m = mirrored(root, rel);
        assert(m.last() == rel.last().last());
    }
}

proof fn lemma_split_last(x: Seq<char>, c: Seq<char>, y: Seq<char>, d: Seq<char>)
    requires
        is_component(c),
        is_component(d),
        x + seq!['/'] + c == y + seq!['/'] + d,
    ensures
        c == d,
        x == y,
{
    let l = x + seq!['/'] + c;
    let r = y + seq!['/'] + d;
    assert(l.len() == r.len());
    if c.len() < d.len() {
        let i = l.len() - c.len() - 1;
        assert(l[i] == '/');
        assert(r[i] == d[d.len() - c.len() - 1]);
    } else if d.len() < c.len() {
        let i = r.len() - d.len() - 1;
        assert(r[i] == '/');
        assert(l[i] == c[c.len() - d.len() - 1]);
    }
    assert(c =~= l.subrange(l.len() - c.len(), l.len() as int));
    assert(d =~= r.subrange(r.len() - d.len(), r.len() as int));
    assert(x =~= l.subrange(0, x.len() as int));
    assert(y =~= r.subrange(0, y.len() as int));
}

/// Mirroring is one to one: under a root, relative paths made of proper
/// components that mirror to the same path are the same.
pub proof fn lemma_mirrored_injective(root: Seq<char>, a: Seq<Seq<char>>, b: Seq<Seq<char>>)
    requires
        is_root(root),
        forall|k: int| 0 <= k < a.len() ==> is_component(#[trigger] a[k]),
        forall|k: int| 0 <= k < b.len() ==> is_component(#[trigger] b[k]),
        mirrored(root, a) == mirrored(root, b),
    ensures
        a == b,
    decreases a.len(),
{
    lemma_mirrored_shape(root, a);
    lemma_mirrored_shape(root, b);
    if a.len() == 0 && b.len() == 0 {
        assert(a =~= b);
    } else if a.len() > 0 && b.len() > 0 {
        lemma_mirrored_shape(root, a.drop_last());
        lemma_mirrored_shape(root, b.drop_last());
        assert(is_component(a[a.len() - 1]));
        assert(is_component(b[b.len() - 1]));
        lemma_split_last(
            mirrored(root, a.drop_last()),
            a.last(),
            mirrored(root, b.drop_last()),
            b.last(),
        );
        lemma_mirrored_injective(root, a.drop_last(), b.drop_last());
        assert(a =~= a.drop_last().push(a.last()));
        assert(b =~= b.drop_last().push(b.last()));
    } else if a.len() == 0 {
        lemma_mirrored_shape(root, b.drop_last());
    } else {
        lemma_mirrored_shape(root, a.drop_last());
    }
}

/// Index of the last dot in the final component of `p`, or -1 when it has none.
pub open spec fn last_dot(p: Seq<char>) -> int
    decreases p.len(),
{
    if p.len() == 0 || p.last() == '/' {
        -1
    } else if p.last() == '.' {
        p.len() - 1
    } else {
        last_dot(p.drop_last())
    }
}

/// Index of the dot that starts the extension of `p`'s file name, or -1.
/// A dot that opens the file name (`.profile`) starts no extension.
pub open spec fn extension_dot(p: Seq<char>) -> int {
    let d = last_dot(p);
    if d > 0 && p[d - 1] != '/' {
        d
    } else {
        -1
    }
}

/// The extension of `p`'s file name, without its dot.
pub open spec fn extension_of(p: Seq<char>) -> Option<Seq<char>> {
    let d = extension_dot(p);
    if d >= 0 {
        Some(p.subrange(d + 1, p.len() as int))
    } else {
        None
    }
}

/// `p` with the extension of its file name replaced by (or, lacking one, given) `ext`.
pub open spec fn path_with_extension(p: Seq<char>, ext: Seq<char>) -> Seq<char> {
    let d = extension_dot(p);
    let stem = if d >= 0 {
        p.subrange(0, d)
    } else {
        p
    };
    stem + seq!['.'] + ext
}

/// `c` is the letter `lower`, in either case (ASCII only).
pub open spec fn same_letter(c: char, lower: char) -> bool {
    c == lower || ('a' <= lower && lower <= 'z' && c as u32 + 32 == lower as u32)
}

/// `s` spells `lower` ignoring ASCII case.
pub open spec fn spells(s: Seq<char>, lower: Seq<char>) -> bool {
    s.len() == lower.len() && forall|i: int| 0 <= i < s.len() ==> same_letter(s[i], lower[i])
}

/// What `str::trim` leaves of `s`.
pub uninterp spec fn trimmed(s: Seq<char>) -> Seq<char>;

/// Relies on `str::trim`: `s` without leading and trailing whitespace.
#[verifier::external_body]
pub(crate) fn trim(s: &str) -> (r: String)
    ensures
        r@ == trimmed(s@),
{
    s.trim().to_string()
}

proof fn lemma_last_dot_step(p: Seq<char>, i: int)
    requires
        0 < i <= p.len(),
        p[i - 1] != '/',
        p[i - 1] != '.',
    ensures
        last_dot(p.subrange(0, i)) == last_dot(p.subrange(0, i - 1)),
{
    assert(p.subrange(0, i).drop_last() =~= p.subrange(0, i - 1));
}

/// Index of the dot that starts the extension of `p`'s file name.
pub fn extension_start(p: &str) -> (r: Option<usize>)
    ensures
        match r {
            Some(d) => extension_dot(p@) == d as int && d < p@.len(),
            None => extension_dot(p@) == -1,
        },
{
    let n = p.unicode_len();
    let mut i: usize = n;
    assert(p@.subrange(0, n as int) =~= p@);
    while i > 0
        invariant
            i <= n,
            n == p@.len(),
            last_dot(p@) == last_dot(p@.subrange(0, i as int)),
        decreases i,
    {
        let c = p.get_char(i - 1);
        if c == '/' {
            return None;
        }
        if c == '.' {
            if i - 1 > 0 && p.get_char(i - 2) != '/' {
                return Some(i - 1);
            }
            return None;
        }
        proof {
            lemma_last_dot_step(p@, i as int);
        }
        i = i - 1;
    }
    None
}

/// `base` and `rel` joined with one separator.
pub fn join(base: &str, rel: &str) -> (r: String)
    ensures
        r@ == path_join(base@, rel@),
{
    let n = base.unicode_len();
    let mut r = base.to_owned();
    if n > 0 && base.get_char(n - 1) != '/' {
        proof {
            reveal_strlit("/");
        }
        r.append("/");
    }
    r.append(rel);
    r
}

/// `root` with the components of `rel` joined onto it in order.
pub fn mirror(root: &String, rel: &Vec<String>) -> (r: String)
    ensures
        r@ == mirrored(root@, strs(rel@)),
{
    let mut r = root.clone();
    let mut i: usize = 0;
    assert(strs(rel@).subrange(0, 0) =~= Seq::<Seq<char>>::empty());
    while i < rel.len()
        invariant
            i <= rel.len(),
            r@ == mirrored(root@, strs(rel@).subrange(0, i as int)),
        decreases rel.len() - i,
    {
        assert(strs(rel@).subrange(0, i + 1).drop_last() =~= strs(rel@).subrange(0, i as int));
        r = join(r.as_str(), rel[i].as_str());
        i = i + 1;
    }
    assert(strs(rel@).subrange(0, rel.len() as int) =~= strs(rel@));
    r
}

/// A copy of `v`, string for string.
pub fn copy_strings(v: &Vec<String>) -> (r: Vec<String>)
    ensures
        strs(r@) == strs(v@),
{
    let mut r: Vec<String> = Vec::new();
    let mut i: usize = 0;
    while i < v.len()
        invariant
            i <= v.len(),
            strs(r@) == strs(v@).subrange(0, i as int),
        decreases v.len() - i,
    {
        let ghost prev = r@;
        r.push(v[i].clone());
        assert(strs(r@) =~= strs(prev).push(v@[i as int]@));
        assert(strs(v@).subrange(0, i + 1) =~= strs(v@).subrange(0, i as int).push(v@[i as int]@));
        i = i + 1;
    }
    assert(strs(v@).subrange(0, v.len() as int) =~= strs(v@));
    r
}

/// `p` with the extension of its file name replaced by `ext`.
pub fn with_extension(p: &str, ext: &str) -> (r: String)
    ensures
        r@ == path_with_extension(p@, ext@),
{
    let mut r = match extension_start(p) {
        Some(d) => p.substring_char(0, d).to_owned(),
        None => p.to_owned(),
    };
    proof {
        reveal_strlit(".");
    }
    r.append(".");
    r.append(ext);
    r
}

/// Whether `s` spells `lower` ignoring ASCII case.
pub fn eq_ignore_case(s: &str, lower: &str) -> (r: bool)
    ensures
        r == spells(s@, lower@),
{
    let n = s.unicode_len();
    if n != lower.unicode_len() {
        return false;
    }
    let mut i: usize = 0;
    while i < n
        invariant
            i <= n,
            n == s@.len(),
            n == lower@.len(),
            forall|j: int| 0 <= j < i ==> same_letter(s@[j], lower@[j]),
        decreases n - i,
    {
        let c = s.get_char(i);
        let l = lower.get_char(i);
        let same = c == l || ('a' <= l && l <= 'z' && (c as u32) + 32 == l as u32);
        if !same {
            return false;
        }
        i = i + 1;
    }
    true
}

} // verus!
