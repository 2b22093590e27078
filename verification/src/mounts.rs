//! The mount registry: an ordered set of absolute path prefixes, each bound
//! to one backend channel. Lookup scans the prefixes in lexicographic order
//! and takes the first that covers the path segment-wise.

use vstd::prelude::*;
use crate::path::{
    bytes_eq, bytes_lt, is_normal_prefix, is_seg_prefix, is_segment_prefix,
    lemma_lex_lt_total, lemma_lex_lt_trans, lex_lt, SEP,
};

verus! {

/// One mount: a path prefix bound to one backend channel. The channel
/// belongs solely to its mount.
pub struct Mount<S> {
    pub path: Vec<u8>,
    pub socket: S,
}

/// The registry of mounts, sorted by prefix.
pub struct Mounts<S> {
    mounts: Vec<Mount<S>>,
}

/// The prefixes of a list of prefix/channel pairs.
pub open spec fn prefixes_of<S>(list: Seq<(Vec<u8>, S)>) -> Seq<Seq<u8>> {
    list.map_values(|p: (Vec<u8>, S)| p.0@)
}

/// Prefixes that a registry can be built from: each absolute and in normal
/// form, no two textually identical.
pub open spec fn prefixes_ok(ps: Seq<Seq<u8>>) -> bool {
    &&& forall|i: int| 0 <= i < ps.len() ==> is_normal_prefix(#[trigger] ps[i])
    &&& forall|i: int, j: int| 0 <= i < j < ps.len() ==> ps[i] != ps[j]
}

proof fn lemma_lex_irrefl(a: Seq<u8>)
    ensures
        !lex_lt(a, a),
    decreases a.len(),
{
    if a.len() > 0 {
        lemma_lex_irrefl(a.skip(1));
    }
}

impl<S> Mounts<S> {
    /// The registered prefixes, in the registry's own order.
    pub closed spec fn prefixes(&self) -> Seq<Seq<u8>> {
        self.mounts@.map_values(|m: Mount<S>| m.path@)
    }

    pub closed spec fn mounts_seq(&self) -> Seq<Mount<S>> {
        self.mounts@
    }

    /// Internal consistency: prefixes normal and strictly sorted.
    pub closed spec fn wf(&self) -> bool {
        &&& forall|i: int| 0 <= i < self.prefixes().len()
            ==> is_normal_prefix(#[trigger] self.prefixes()[i])
        &&& forall|i: int, j: int| 0 <= i < j < self.prefixes().len()
            ==> lex_lt(self.prefixes()[i], self.prefixes()[j])
    }

    /// Whether some registered prefix is exactly `p`.
    pub open spec fn has_exact(&self, p: Seq<u8>) -> bool {
        exists|i: int| 0 <= i < self.prefixes().len() && self.prefixes()[i] == p
    }

    /// Whether some registered prefix covers `path`.
    pub open spec fn covers(&self, path: Seq<u8>) -> bool {
        exists|i: int| 0 <= i < self.prefixes().len()
            && is_seg_prefix(#[trigger] self.prefixes()[i], path)
    }

    /// Build the registry from prefix/channel pairs. Construction fails if
    /// and only if a prefix is not absolute and normal, or two prefixes are
    /// textually identical.
    pub fn new(list: Vec<(Vec<u8>, S)>) -> (r: Option<Mounts<S>>)
        ensures
            match r {
                Some(m) => {
                    &&& m.wf()
                    &&& prefixes_ok(prefixes_of(list@))
                    &&& forall|p: Seq<u8>| m.has_exact(p)
                        == exists|i: int| 0 <= i < list@.len() && #[trigger] list@[i].0@ == p
                },
                None => !prefixes_ok(prefixes_of(list@)),
            },
    {
        let mut rest = list;
        Self::build(&mut rest)
    }

    fn build(rest: &mut Vec<(Vec<u8>, S)>) -> (r: Option<Mounts<S>>)
        ensures
            match r {
                Some(m) => {
                    &&& m.wf()
                    &&& prefixes_ok(prefixes_of(old(rest)@))
                    &&& forall|p: Seq<u8>| m.has_exact(p)
                        == exists|i: int| 0 <= i < old(rest)@.len()
                            && #[trigger] old(rest)@[i].0@ == p
                },
                None => !prefixes_ok(prefixes_of(old(rest)@)),
            },
    {
        let mut out = Mounts { mounts: Vec::new() };
        proof {
            assert forall|i: int| 0 <= i < prefixes_of(old(rest)@).len()
                implies #[trigger] prefixes_of(old(rest)@)[i] == old(rest)@[i].0@ by {}
        }
        while rest.len() > 0
            invariant
                rest@.len() <= old(rest)@.len(),
                forall|i: int| 0 <= i < rest@.len() ==> #[trigger] rest@[i] == old(rest)@[i],
                out.wf(),
                forall|p: Seq<u8>| out.has_exact(p)
                    == exists|i: int| rest@.len() <= i < old(rest)@.len()
                        && #[trigger] old(rest)@[i].0@ == p,
                forall|i: int| rest@.len() <= i < old(rest)@.len()
                    ==> is_normal_prefix(#[trigger] old(rest)@[i].0@),
                forall|i: int, j: int| rest@.len() <= i < j < old(rest)@.len()
                    ==> old(rest)@[i].0@ != old(rest)@[j].0@,
            decreases rest@.len(),
        {
            let ghost k = rest@.len() - 1;
            let (prefix, socket) = match rest.pop() {
                Some(pair) => pair,
                None => {
                    proof {
                        assert(false);
                    }
                    return None;
                },
            };
            proof {
                assert(old(rest)@[k].0@ == prefix@ && old(rest)@[k].1 == socket);
            }
            if !(prefix.len() > 0 && prefix[0] == SEP
                && (prefix.len() == 1 || prefix[prefix.len() - 1] != SEP)) {
                proof {
                    assert(prefixes_of(old(rest)@)[k] == old(rest)@[k].0@);
                    assert(!is_normal_prefix(prefixes_of(old(rest)@)[k]));
                    assert(!prefixes_ok(prefixes_of(old(rest)@)));
                }
                return None;
            }
            let ghost pre = prefix@;
            match out.insert_sorted(prefix, socket) {
                Ok(()) => {
                    proof {
                        assert forall|i: int, j: int|
                            rest@.len() <= i < j < old(rest)@.len() implies old(rest)@[i].0@
                            != old(rest)@[j].0@ by {
                            if i == k && old(rest)@[i].0@ == old(rest)@[j].0@ {
                                assert(old(rest)@[j].0@ == pre);
                            }
                        }
                    }
                },
                Err(()) => {
                    proof {
                        let j = choose|j: int| k + 1 <= j < old(rest)@.len()
                            && #[trigger] old(rest)@[j].0@ == pre;
                        assert(prefixes_of(old(rest)@)[j] == old(rest)@[j].0@);
                        assert(prefixes_of(old(rest)@)[k] == old(rest)@[k].0@);
                        assert(prefixes_of(old(rest)@)[j] == prefixes_of(old(rest)@)[k]);
                        assert(!prefixes_ok(prefixes_of(old(rest)@)));
                    }
                    return None;
                },
            }
        }
        proof {
            assert forall|i: int| 0 <= i < prefixes_of(old(rest)@).len()
                implies is_normal_prefix(#[trigger] prefixes_of(old(rest)@)[i]) by {
                assert(prefixes_of(old(rest)@)[i] == old(rest)@[i].0@);
            }
            assert forall|i: int, j: int| 0 <= i < j < prefixes_of(old(rest)@).len()
                implies prefixes_of(old(rest)@)[i] != prefixes_of(old(rest)@)[j] by {
                assert(prefixes_of(old(rest)@)[i] == old(rest)@[i].0@);
                assert(prefixes_of(old(rest)@)[j] == old(rest)@[j].0@);
            }
        }
        Some(out)
    }

    /// Put one mount in its sorted place; `Err` when the prefix is already
    /// present.
    fn insert_sorted(&mut self, prefix: Vec<u8>, socket: S) -> (r: Result<(), ()>)
        requires
            old(self).wf(),
            is_normal_prefix(prefix@),
        ensures
            final(self).wf(),
            match r {
                Ok(()) => {
                    &&& !old(self).has_exact(prefix@)
                    &&& forall|p: Seq<u8>| final(self).has_exact(p)
                        == (old(self).has_exact(p) || p == prefix@)
                },
                Err(()) => {
                    &&& old(self).has_exact(prefix@)
                    &&& *final(self) == *old(self)
                },
            },
    {
        let n = self.mounts.len();
        let mut idx: usize = 0;
        while idx < n && bytes_lt(&self.mounts[idx].path, &prefix)
            invariant
                self == old(self),
                self.wf(),
                n == self.mounts@.len(),
                idx <= n,
                forall|j: int| 0 <= j < idx ==> lex_lt(#[trigger] self.prefixes()[j], prefix@),
            decreases n - idx,
        {
            proof {
                assert(self.prefixes()[idx as int] == self.mounts@[idx as int].path@);
            }
            idx = idx + 1;
        }
        proof {
            if idx < n {
                assert(self.prefixes()[idx as int] == self.mounts@[idx as int].path@);
            }
        }
        if idx < n && bytes_eq(&self.mounts[idx].path, &prefix) {
            proof {
                assert(self.prefixes()[idx as int] == prefix@);
            }
            return Err(());
        }
        proof {
            if idx < n {
                assert(!lex_lt(self.prefixes()[idx as int], prefix@));
                assert(self.prefixes()[idx as int] != prefix@);
                lemma_lex_lt_total(self.prefixes()[idx as int], prefix@);
                assert(lex_lt(prefix@, self.prefixes()[idx as int]));
            }
            // the new prefix is nowhere in the registry
            assert forall|j: int| 0 <= j < n implies self.prefixes()[j] != prefix@ by {
                if j < idx {
                    lemma_lex_irrefl(prefix@);
                } else if j > idx {
                    lemma_lex_lt_trans(
                        prefix@,
                        self.prefixes()[idx as int],
                        self.prefixes()[j],
                    );
                    lemma_lex_irrefl(prefix@);
                }
            }
        }
        let ghost olds = self.mounts@;
        self.mounts.insert(idx, Mount { path: prefix, socket });
        proof {
            let news = self.mounts@;
            assert(news.len() == olds.len() + 1);
            assert(forall|j: int| 0 <= j < idx ==> news[j] == olds[j]);
            assert(forall|j: int| idx < j < news.len() ==> news[j] == olds[j - 1]);
            assert(news[idx as int].path@ == prefix@);
            assert forall|i: int, j: int| 0 <= i < j < news.len() implies lex_lt(
                self.prefixes()[i],
                self.prefixes()[j],
            ) by {
                assert(self.prefixes()[i] == news[i].path@);
                assert(self.prefixes()[j] == news[j].path@);
                if i == idx {
                    assert(news[j].path@ == old(self).prefixes()[j - 1]);
                    if j - 1 > idx {
                        lemma_lex_lt_trans(
                            prefix@,
                            old(self).prefixes()[idx as int],
                            old(self).prefixes()[j - 1],
                        );
                    }
                } else if j == idx {
                    assert(news[i].path@ == old(self).prefixes()[i]);
                } else if i < idx && j > idx {
                    assert(news[i].path@ == old(self).prefixes()[i]);
                    assert(news[j].path@ == old(self).prefixes()[j - 1]);
                    if i == j - 1 {
                        lemma_lex_lt_trans(
                            old(self).prefixes()[i],
                            prefix@,
                            old(self).prefixes()[idx as int],
                        );
                    }
                } else if j < idx {
                    assert(news[i].path@ == old(self).prefixes()[i]);
                    assert(news[j].path@ == old(self).prefixes()[j]);
                } else {
                    assert(news[i].path@ == old(self).prefixes()[i - 1]);
                    assert(news[j].path@ == old(self).prefixes()[j - 1]);
                }
            }
            assert forall|i: int| 0 <= i < self.prefixes().len() implies is_normal_prefix(
                #[trigger] self.prefixes()[i],
            ) by {
                assert(self.prefixes()[i] == news[i].path@);
                if i < idx {
                    assert(old(self).prefixes()[i] == olds[i].path@);
                } else if i > idx {
                    assert(old(self).prefixes()[i - 1] == olds[i - 1].path@);
                }
            }
            assert forall|p: Seq<u8>| final(self).has_exact(p)
                == (old(self).has_exact(p) || p == prefix@) by {
                if final(self).has_exact(p) {
                    let w = choose|w: int| 0 <= w < news.len() && final(self).prefixes()[w] == p;
                    assert(final(self).prefixes()[w] == news[w].path@);
                    if w < idx {
                        assert(old(self).prefixes()[w] == p);
                    } else if w > idx {
                        assert(old(self).prefixes()[w - 1] == p);
                    }
                } else {
                    if old(self).has_exact(p) {
                        let w = choose|w: int| 0 <= w < olds.len()
                            && old(self).prefixes()[w] == p;
                        if w < idx {
                            assert(final(self).prefixes()[w] == news[w].path@);
                            assert(final(self).prefixes()[w] == p);
                        } else {
                            assert(final(self).prefixes()[w + 1] == news[w + 1].path@);
                            assert(final(self).prefixes()[w + 1] == p);
                        }
                        assert(false);
                    }
                    if p == prefix@ {
                        assert(final(self).prefixes()[idx as int] == news[idx as int].path@);
                        assert(false);
                    }
                }
            }
        }
        Ok(())
    }

    /// Look the first registered prefix up that covers the path, in sorted
    /// order; nothing covering the path means the path is not ours.
    pub fn get_mount_of_path(&self, path: &Vec<u8>) -> (r: Option<&Mount<S>>)
        requires
            self.wf(),
        ensures
            match r {
                Some(m) => {
                    &&& exists|i: int| {
                        &&& 0 <= i < self.mounts_seq().len()
                        &&& *m == self.mounts_seq()[i]
                        &&& is_seg_prefix(#[trigger] self.prefixes()[i], path@)
                        &&& forall|j: int| 0 <= j < i
                            ==> !is_seg_prefix(#[trigger] self.prefixes()[j], path@)
                    }
                    &&& is_normal_prefix(m.path@)
                    &&& is_seg_prefix(m.path@, path@)
                    &&& self.has_exact(m.path@)
                },
                None => !self.covers(path@),
            },
    {
        let n = self.mounts.len();
        let mut i: usize = 0;
        while i < n
            invariant
                self.wf(),
                n == self.mounts@.len(),
                i <= n,
                forall|j: int| 0 <= j < i
                    ==> !is_seg_prefix(#[trigger] self.prefixes()[j], path@),
            decreases n - i,
        {
            if is_segment_prefix(&self.mounts[i].path, path) {
                proof {
                    assert(self.prefixes()[i as int] == self.mounts@[i as int].path@);
                }
                return Some(&self.mounts[i]);
            }
            proof {
                assert(self.prefixes()[i as int] == self.mounts@[i as int].path@);
            }
            i = i + 1;
        }
        None
    }

    /// Whether the registry holds a mount under exactly this prefix.
    pub fn has_mount(&self, path: &Vec<u8>) -> (r: bool)
        ensures
            r == self.has_exact(path@),
    {
        let n = self.mounts.len();
        let mut i: usize = 0;
        while i < n
            invariant
                n == self.mounts@.len(),
                i <= n,
                forall|j: int| 0 <= j < i ==> self.prefixes()[j] != path@,
            decreases n - i,
        {
            if bytes_eq(&self.mounts[i].path, path) {
                proof {
                    assert(self.prefixes()[i as int] == self.mounts@[i as int].path@);
                }
                return true;
            }
            proof {
                assert(self.prefixes()[i as int] == self.mounts@[i as int].path@);
            }
            i = i + 1;
        }
        false
    }

    /// The position of an exactly matching prefix.
    pub closed spec fn index_of_exact(&self, p: Seq<u8>) -> int {
        choose|i: int| 0 <= i < self.prefixes().len() && self.prefixes()[i] == p
    }

    /// Borrow the mount registered under exactly this prefix, to speak with
    /// its channel.
    pub fn get_mount_mut(&mut self, path: &Vec<u8>) -> (m: &mut Mount<S>)
        requires
            old(self).wf(),
            old(self).has_exact(path@),
        ensures
            ({
                let i = old(self).index_of_exact(path@);
                &&& 0 <= i < old(self).mounts_seq().len()
                &&& *m == old(self).mounts_seq()[i]
                &&& m.path@ == path@
                &&& final(self).mounts_seq() =~= old(self).mounts_seq().update(i, *final(m))
            }),
    {
        let ghost gi = old(self).index_of_exact(path@);
        proof {
            let w = choose|w: int| 0 <= w < old(self).prefixes().len()
                && old(self).prefixes()[w] == path@;
            assert(old(self).prefixes()[gi] == path@);
        }
        let n = self.mounts.len();
        let mut i: usize = 0;
        while i < n
            invariant
                self == old(self),
                self.wf(),
                n == self.mounts@.len(),
                0 <= gi < n,
                self.prefixes()[gi] == path@,
                gi == old(self).index_of_exact(path@),
                i <= n,
                forall|j: int| 0 <= j < i ==> self.prefixes()[j] != path@,
            decreases n - i,
        {
            if bytes_eq(&self.mounts[i].path, path) {
                proof {
                    assert(self.prefixes()[i as int] == self.mounts@[i as int].path@);
                    assert(i == gi) by {
                        if (i as int) < gi {
                            assert(lex_lt(self.prefixes()[i as int], self.prefixes()[gi]));
                            lemma_lex_irrefl(path@);
                        } else if gi < i {
                            assert(lex_lt(self.prefixes()[gi], self.prefixes()[i as int]));
                            lemma_lex_irrefl(path@);
                        }
                    }
                    assert(self.mounts@[gi].path@ == path@);
                }
                return &mut self.mounts[i];
            }
            proof {
                assert(self.prefixes()[i as int] == self.mounts@[i as int].path@);
            }
            i = i + 1;
        }
        proof {
            assert(false);
        }
        vstd::pervasive::unreached()
    }
}

/// Replacing one mount by another with the same prefix neither disturbs the
/// registry's order nor its prefixes.
pub proof fn lemma_update_same_path<S>(a: &Mounts<S>, b: &Mounts<S>, i: int, m: Mount<S>)
    requires
        a.wf(),
        0 <= i < a.mounts_seq().len(),
        b.mounts_seq() == a.mounts_seq().update(i, m),
        m.path@ == a.mounts_seq()[i].path@,
    ensures
        b.wf(),
        b.prefixes() =~= a.prefixes(),
{
    assert forall|w: int| 0 <= w < b.prefixes().len() implies #[trigger] b.prefixes()[w]
        == a.prefixes()[w] by {
        assert(b.prefixes()[w] == b.mounts_seq()[w].path@);
        assert(a.prefixes()[w] == a.mounts_seq()[w].path@);
    }
    assert(b.prefixes() =~= a.prefixes());
}

} // verus!
