//! Byte-level path handling.
//!
//! Paths are kept as byte strings, exactly as they are read out of the traced
//! process. A mount prefix matches a path per path segment, not per raw byte:
//! `/data` is a prefix of `/data` and `/data/x` but not of `/datax`.

use vstd::prelude::*;

verus! {

/// The byte `'/'`.
pub const SEP: u8 = 47;

/// The byte `':'`, separating a directory from a socket path on the command line.
pub const PAIR_SEP: u8 = 58;

/// An absolute path: nonempty and starting with `/`.
pub open spec fn is_abs(p: Seq<u8>) -> bool {
    p.len() > 0 && p[0] == SEP
}

/// A mount prefix in normal form: absolute, and without a trailing slash
/// unless it is the root itself.
pub open spec fn is_normal_prefix(p: Seq<u8>) -> bool {
    is_abs(p) && (p.len() == 1 || p[p.len() - 1] != SEP)
}

/// `prefix` covers `path` as a whole number of leading path segments.
pub open spec fn is_seg_prefix(prefix: Seq<u8>, path: Seq<u8>) -> bool {
    &&& prefix.len() <= path.len()
    &&& path.subrange(0, prefix.len() as int) == prefix
    &&& (prefix.len() == path.len() || prefix.len() == 1 || path[prefix.len() as int] == SEP)
}

/// What joining a relative path onto an absolute base yields; an absolute
/// path stands on its own.
pub open spec fn join_spec(base: Seq<u8>, p: Seq<u8>) -> Seq<u8> {
    if is_abs(p) {
        p
    } else if base.len() > 0 && base[base.len() - 1] == SEP {
        base + p
    } else {
        base + seq![SEP] + p
    }
}

/// The path sent to a backend: the part of `path` below `prefix`, rooted at `/`.
pub open spec fn relativize_spec(prefix: Seq<u8>, path: Seq<u8>) -> Seq<u8> {
    if path.len() == prefix.len() {
        seq![SEP]
    } else if prefix.len() == 1 {
        path
    } else {
        path.skip(prefix.len() as int)
    }
}

/// Append all bytes of `src` to `dst`.
pub fn push_all(dst: &mut Vec<u8>, src: &Vec<u8>)
    ensures
        final(dst)@ == old(dst)@ + src@,
{
    let n = src.len();
    let mut i: usize = 0;
    while i < n
        invariant
            n == src@.len(),
            i <= n,
            dst@ == old(dst)@ + src@.subrange(0, i as int),
        decreases n - i,
    {
        dst.push(src[i]);
        i = i + 1;
        proof {
            assert(src@.subrange(0, i as int)
                =~= src@.subrange(0, i - 1) + seq![src@[i - 1]]);
        }
    }
    proof {
        assert(src@.subrange(0, n as int) =~= src@);
    }
}

/// Copy a byte string.
pub fn copy_bytes(src: &Vec<u8>) -> (r: Vec<u8>)
    ensures
        r@ == src@,
{
    let mut out: Vec<u8> = Vec::new();
    push_all(&mut out, src);
    out
}

/// Whether two byte strings hold the same bytes.
pub fn bytes_eq(a: &Vec<u8>, b: &Vec<u8>) -> (r: bool)
    ensures
        r == (a@ == b@),
{
    let n = a.len();
    if n != b.len() {
        proof {
            assert(a@ != b@);
        }
        return false;
    }
    let mut i: usize = 0;
    while i < n
        invariant
            n == a@.len() && n == b@.len(),
            i <= n,
            forall|j: int| 0 <= j < i ==> a@[j] == b@[j],
        decreases n - i,
    {
        if a[i] != b[i] {
            return false;
        }
        i = i + 1;
    }
    proof {
        assert(a@ =~= b@);
    }
    true
}

/// Strict lexicographic order on byte strings.
pub open spec fn lex_lt(a: Seq<u8>, b: Seq<u8>) -> bool
    decreases a.len(),
{
    if b.len() == 0 {
        false
    } else if a.len() == 0 {
        true
    } else if a[0] < b[0] {
        true
    } else if a[0] > b[0] {
        false
    } else {
        lex_lt(a.skip(1), b.skip(1))
    }
}

proof fn lemma_lex_lt_step(a: Seq<u8>, b: Seq<u8>, i: int)
    requires
        0 <= i,
        i < a.len(),
        i < b.len(),
        a[i] == b[i],
    ensures
        lex_lt(a.skip(i), b.skip(i)) == lex_lt(a.skip(i + 1), b.skip(i + 1)),
{
    assert(a.skip(i).len() > 0 && b.skip(i).len() > 0);
    assert(a.skip(i)[0] == a[i] && b.skip(i)[0] == b[i]);
    assert(a.skip(i).skip(1) =~= a.skip(i + 1));
    assert(b.skip(i).skip(1) =~= b.skip(i + 1));
}

pub proof fn lemma_lex_lt_trans(a: Seq<u8>, b: Seq<u8>, c: Seq<u8>)
    requires
        lex_lt(a, b),
        lex_lt(b, c),
    ensures
        lex_lt(a, c),
    decreases a.len(),
{
    if a.len() == 0 {
    } else {
        if a[0] < b[0] {
            if b[0] < c[0] {
            } else {
                assert(b[0] == c[0]);
            }
        } else {
            assert(a[0] == b[0]);
            if b[0] < c[0] {
            } else {
                assert(b[0] == c[0]);
                lemma_lex_lt_trans(a.skip(1), b.skip(1), c.skip(1));
            }
        }
    }
}

pub proof fn lemma_lex_lt_total(a: Seq<u8>, b: Seq<u8>)
    ensures
        lex_lt(a, b) || lex_lt(b, a) || a == b,
    decreases a.len(),
{
    if a.len() == 0 {
        if b.len() == 0 {
            assert(a =~= b);
        }
    } else if b.len() == 0 {
    } else if a[0] < b[0] {
    } else if a[0] > b[0] {
    } else {
        lemma_lex_lt_total(a.skip(1), b.skip(1));
        if !lex_lt(a, b) && !lex_lt(b, a) {
            assert(a.skip(1) == b.skip(1));
            assert(a.skip(1).len() == b.skip(1).len());
            assert forall|i: int| 0 <= i < a.len() implies a[i] == b[i] by {
                if i > 0 {
                    assert(a[i] == a.skip(1)[i - 1]);
                    assert(b[i] == b.skip(1)[i - 1]);
                }
            }
            assert(a =~= b);
        }
    }
}

/// Whether `a` comes strictly before `b` in lexicographic byte order.
pub fn bytes_lt(a: &Vec<u8>, b: &Vec<u8>) -> (r: bool)
    ensures
        r == lex_lt(a@, b@),
{
    let an = a.len();
    let bn = b.len();
    let mut i: usize = 0;
    proof {
        assert(a@.skip(0) =~= a@);
        assert(b@.skip(0) =~= b@);
    }
    loop
        invariant
            an == a@.len() && bn == b@.len(),
            i <= an && i <= bn,
            lex_lt(a@, b@) == lex_lt(a@.skip(i as int), b@.skip(i as int)),
        decreases an - i,
    {
        if i == bn {
            proof {
                assert(b@.skip(i as int).len() == 0);
            }
            return false;
        }
        if i == an {
            proof {
                assert(a@.skip(i as int).len() == 0 && b@.skip(i as int).len() > 0);
            }
            return true;
        }
        let x = a[i];
        let y = b[i];
        if x < y {
            proof {
                assert(a@.skip(i as int)[0] == a@[i as int]);
                assert(b@.skip(i as int)[0] == b@[i as int]);
            }
            return true;
        }
        if x > y {
            proof {
                assert(a@.skip(i as int)[0] == a@[i as int]);
                assert(b@.skip(i as int)[0] == b@[i as int]);
            }
            return false;
        }
        proof {
            lemma_lex_lt_step(a@, b@, i as int);
        }
        i = i + 1;
    }
}

/// Whether `prefix` covers `path` as whole leading path segments.
pub fn is_segment_prefix(prefix: &Vec<u8>, path: &Vec<u8>) -> (r: bool)
    ensures
        r == is_seg_prefix(prefix@, path@),
{
    let pn = prefix.len();
    if pn > path.len() {
        return false;
    }
    let mut i: usize = 0;
    while i < pn
        invariant
            pn == prefix@.len(),
            pn <= path@.len(),
            i <= pn,
            forall|j: int| 0 <= j < i ==> prefix@[j] == path@[j],
        decreases pn - i,
    {
        if prefix[i] != path[i] {
            proof {
                assert(path@.subrange(0, pn as int)[i as int] != prefix@[i as int]);
            }
            return false;
        }
        i = i + 1;
    }
    proof {
        assert(path@.subrange(0, pn as int) =~= prefix@);
    }
    if pn == path.len() || pn == 1 {
        true
    } else {
        path[pn] == SEP
    }
}

/// Join a path read from the traced process onto an absolute base.
pub fn join(base: &Vec<u8>, p: &Vec<u8>) -> (r: Vec<u8>)
    ensures
        r@ == join_spec(base@, p@),
{
    if p.len() > 0 && p[0] == SEP {
        copy_bytes(p)
    } else {
        let mut out = copy_bytes(base);
        if !(base.len() > 0 && base[base.len() - 1] == SEP) {
            out.push(SEP);
        }
        push_all(&mut out, p);
        out
    }
}

/// The path handed to the backend for a path under a mount prefix.
pub fn relativize(prefix: &Vec<u8>, path: &Vec<u8>) -> (r: Vec<u8>)
    requires
        is_normal_prefix(prefix@),
        is_seg_prefix(prefix@, path@),
    ensures
        r@ == relativize_spec(prefix@, path@),
        is_abs(r@),
        r@.len() <= path@.len(),
{
    let pn = prefix.len();
    if path.len() == pn {
        let mut out: Vec<u8> = Vec::new();
        out.push(SEP);
        proof {
            assert(out@ =~= seq![SEP]);
        }
        out
    } else if pn == 1 {
        let r = copy_bytes(path);
        proof {
            assert(path@.subrange(0, 1)[0] == path@[0]);
        }
        r
    } else {
        let n = path.len();
        let mut out: Vec<u8> = Vec::new();
        let mut i: usize = pn;
        while i < n
            invariant
                pn < n && n == path@.len(),
                pn <= i <= n,
                out@ == path@.subrange(pn as int, i as int),
            decreases n - i,
        {
            out.push(path[i]);
            i = i + 1;
            proof {
                assert(path@.subrange(pn as int, i as int)
                    =~= path@.subrange(pn as int, i - 1) + seq![path@[i - 1]]);
            }
        }
        proof {
            assert(out@ =~= path@.skip(pn as int));
            assert(out@[0] == path@[pn as int]);
        }
        out
    }
}

/// Every path handed to a backend is rooted at `/`; below a mount prefix
/// other than the root, the prefix itself is gone from it: prefix and
/// relative path together reassemble the original path exactly.
pub proof fn lemma_relativize_rooted(prefix: Seq<u8>, path: Seq<u8>)
    requires
        is_normal_prefix(prefix),
        is_seg_prefix(prefix, path),
    ensures
        is_abs(relativize_spec(prefix, path)),
        path.len() == prefix.len() ==> relativize_spec(prefix, path) == seq![SEP],
        prefix.len() > 1 && path.len() > prefix.len()
            ==> prefix + relativize_spec(prefix, path) == path,
{
    if path.len() == prefix.len() {
    } else if prefix.len() == 1 {
        assert(path.subrange(0, 1)[0] == path[0]);
    } else {
        assert(relativize_spec(prefix, path)[0] == path[prefix.len() as int]);
        assert(prefix + relativize_spec(prefix, path) =~= path);
    }
}

/// Split a `DIR:SOCKET` command-line argument at its first `:`.
pub fn multipath_parser(value: &Vec<u8>) -> (r: Option<(Vec<u8>, Vec<u8>)>)
    ensures
        match r {
            Some(pair) => {
                &&& value@ == pair.0@ + seq![PAIR_SEP] + pair.1@
                &&& !pair.0@.contains(PAIR_SEP)
            },
            None => !value@.contains(PAIR_SEP),
        },
{
    let n = value.len();
    let mut i: usize = 0;
    while i < n
        invariant
            n == value@.len(),
            i <= n,
            forall|j: int| 0 <= j < i ==> value@[j] != PAIR_SEP,
        decreases n - i,
    {
        if value[i] == PAIR_SEP {
            let mut first: Vec<u8> = Vec::new();
            let mut j: usize = 0;
            while j < i
                invariant
                    i < n && n == value@.len(),
                    j <= i,
                    first@ == value@.subrange(0, j as int),
                decreases i - j,
            {
                first.push(value[j]);
                j = j + 1;
                proof {
                    assert(value@.subrange(0, j as int)
                        =~= value@.subrange(0, j - 1) + seq![value@[j - 1]]);
                }
            }
            let mut second: Vec<u8> = Vec::new();
            let mut k: usize = i + 1;
            while k < n
                invariant
                    i < n && n == value@.len(),
                    i + 1 <= k <= n,
                    second@ == value@.subrange(i + 1, k as int),
                decreases n - k,
            {
                second.push(value[k]);
                k = k + 1;
                proof {
                    assert(value@.subrange(i + 1, k as int)
                        =~= value@.subrange(i + 1, k - 1) + seq![value@[k - 1]]);
                }
            }
            proof {
                assert(value@ =~= value@.subrange(0, i as int) + seq![value@[i as int]]
                    + value@.subrange(i + 1, n as int));
                assert(forall|j: int| 0 <= j < first@.len() ==> first@[j] == value@[j]);
            }
            return Some((first, second));
        }
        i = i + 1;
    }
    proof {
        assert(forall|j: int| 0 <= j < value@.len() ==> value@[j] != PAIR_SEP);
    }
    None
}

} // verus!
