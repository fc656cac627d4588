//! Mark-and-sweep collection over the heap model.
//!
//! Reachability is specified as a least fixpoint: a block is *reachable*
//! when it belongs to every set of blocks that covers the root table and is
//! closed under following scanned fields. [`Heap::collect`] frees exactly
//! the live blocks that are not reachable, keeps every reachable block
//! intact, and surrenders the native identifiers of the finalized blocks it
//! freed so their owned native values can be released — each at most once,
//! since a freed block stays dead.

use vstd::prelude::*;

use crate::heap::Heap;
use crate::tag::tag_is_scanned;
use crate::value::Value;

verus! {

/// Block `i` is live, scanned, and one of its payload words references
/// block `j`.
pub open spec fn points_to(h: Heap, i: int, j: int) -> bool {
    &&& 0 <= i < h.blocks@.len()
    &&& h.blocks@[i].live
    &&& tag_is_scanned(h.blocks@[i].tag)
    &&& exists|k: int|
        0 <= k < h.blocks@[i].words@.len() && (#[trigger] h.blocks@[i].words@[k]) % 2 == 0
            && (h.blocks@[i].words@[k] as int) / 4 == j
}

/// Block `i` is referenced directly from the global root table.
pub open spec fn rooted_block(h: Heap, i: int) -> bool {
    exists|k: int|
        0 <= k < h.roots@.len() && (#[trigger] h.roots@[k]).spec_is_block()
            && h.roots@[k].spec_block_index() == i
}

/// `s` follows every reference out of its members.
pub open spec fn closed_set(h: Heap, s: Set<int>) -> bool {
    forall|i: int, j: int|
        #![trigger s.contains(i), points_to(h, i, j)]
        s.contains(i) && points_to(h, i, j) ==> s.contains(j)
}

/// `s` contains every block the root table references.
pub open spec fn covers_roots(h: Heap, s: Set<int>) -> bool {
    forall|r: int| #[trigger] rooted_block(h, r) ==> s.contains(r)
}

/// Least-fixpoint reachability: `i` belongs to every closed set covering
/// the roots.
pub open spec fn reachable(h: Heap, i: int) -> bool {
    forall|s: Set<int>| closed_set(h, s) && covers_roots(h, s) ==> #[trigger] s.contains(i)
}

/// Every block the root table references is reachable.
pub proof fn lemma_rooted_reachable(h: Heap, i: int)
    requires
        rooted_block(h, i),
    ensures
        reachable(h, i),
{
    assert forall|s: Set<int>| closed_set(h, s) && covers_roots(h, s) implies #[trigger] s.contains(
        i,
    ) by {
        assert(rooted_block(h, i));
    }
}

/// Reachability follows references: a block referenced by a reachable block
/// is reachable.
pub proof fn lemma_reachable_step(h: Heap, i: int, j: int)
    requires
        reachable(h, i),
        points_to(h, i, j),
    ensures
        reachable(h, j),
{
    assert forall|s: Set<int>| closed_set(h, s) && covers_roots(h, s) implies #[trigger] s.contains(
        j,
    ) by {
        assert(s.contains(i));
    }
}

/// A live block that no closed rooted set must contain: collection frees it.
pub open spec fn is_victim(h: Heap, i: int) -> bool {
    &&& 0 <= i < h.blocks@.len()
    &&& h.blocks@[i].live
    &&& !reachable(h, i)
}

/// A victim that owns a native value: freeing it surrenders the identifier.
pub open spec fn finalized_victim(h: Heap, i: int) -> bool {
    is_victim(h, i) && h.blocks@[i].finalized
}

/// The native identifiers surrendered by a collection on `h`, taken from
/// the finalized victims among the first `n` blocks, in ascending block
/// order.
pub open spec fn victim_ids(h: Heap, n: int) -> Seq<u64>
    decreases n,
{
    if n <= 0 {
        Seq::empty()
    } else if finalized_victim(h, n - 1) {
        victim_ids(h, n - 1).push(h.blocks@[n - 1].native_id)
    } else {
        victim_ids(h, n - 1)
    }
}

/// What one collection guarantees, relating the heap before (`pre`) to the
/// heap after (`post`) and the surrendered identifiers (`freed`).
pub open spec fn collect_post(pre: Heap, post: Heap, freed: Seq<u64>) -> bool {
    &&& post.blocks@.len() == pre.blocks@.len()
    &&& post.roots@ == pre.roots@
    &&& forall|i: int|
        0 <= i < pre.blocks@.len() ==> ((#[trigger] post.blocks@[i]).live <==> (
        pre.blocks@[i].live && reachable(pre, i)))
    &&& forall|i: int|
        0 <= i < pre.blocks@.len() && post.blocks@[i].live ==> #[trigger] post.blocks@[i]
            == pre.blocks@[i]
    &&& forall|i: int|
        0 <= i < pre.blocks@.len() && !post.blocks@[i].live ==> {
            &&& (#[trigger] post.blocks@[i]).tag == pre.blocks@[i].tag
            &&& post.blocks@[i].finalized == pre.blocks@[i].finalized
            &&& post.blocks@[i].native_id == pre.blocks@[i].native_id
            &&& post.blocks@[i].words@ == pre.blocks@[i].words@
        }
    &&& freed == victim_ids(pre, pre.blocks@.len() as int)
}

/// Root correctness: a block referenced from the root table survives a
/// collection, unmoved and with its contents intact.
pub proof fn lemma_root_survives(pre: Heap, post: Heap, freed: Seq<u64>, i: int)
    requires
        pre.wf(),
        collect_post(pre, post, freed),
        rooted_block(pre, i),
    ensures
        0 <= i < post.blocks@.len(),
        post.blocks@[i].live,
        post.blocks@[i] == pre.blocks@[i],
{
    let k = choose|k: int|
        0 <= k < pre.roots@.len() && (#[trigger] pre.roots@[k]).spec_is_block()
            && pre.roots@[k].spec_block_index() == i;
    assert(pre.valid_value(pre.roots@[k]));
    lemma_rooted_reachable(pre, i);
}

/// Anything reachable before a collection survives it intact.
pub proof fn lemma_reachable_survives(pre: Heap, post: Heap, freed: Seq<u64>, i: int)
    requires
        collect_post(pre, post, freed),
        0 <= i < pre.blocks@.len(),
        pre.blocks@[i].live,
        reachable(pre, i),
    ensures
        post.blocks@[i].live,
        post.blocks@[i] == pre.blocks@[i],
{
}

/// Finalization happens at most once: a finalized block freed by one
/// collection is dead in the next heap, so no later collection counts it as
/// a victim again.
pub proof fn lemma_finalize_once(h0: Heap, h1: Heap, f1: Seq<u64>, i: int)
    requires
        collect_post(h0, h1, f1),
        finalized_victim(h0, i),
    ensures
        !h1.blocks@[i].live,
        !finalized_victim(h1, i),
{
}

/// Number of set entries in a boolean sequence.
pub open spec fn num_true(s: Seq<bool>) -> nat
    decreases s.len(),
{
    if s.len() == 0 {
        0
    } else {
        num_true(s.drop_last()) + (if s.last() {
            1nat
        } else {
            0nat
        })
    }
}

proof fn lemma_num_true_le(s: Seq<bool>)
    ensures
        num_true(s) <= s.len(),
    decreases s.len(),
{
    if s.len() > 0 {
        lemma_num_true_le(s.drop_last());
    }
}

proof fn lemma_num_true_update(s: Seq<bool>, i: int)
    requires
        0 <= i < s.len(),
        !s[i],
    ensures
        num_true(s.update(i, true)) == num_true(s) + 1,
    decreases s.len(),
{
    let t = s.update(i, true);
    if i == s.len() - 1 {
        assert(t.drop_last() =~= s.drop_last());
    } else {
        assert(t.drop_last() =~= s.drop_last().update(i, true));
        lemma_num_true_update(s.drop_last(), i);
    }
}

/// `i` occurs in the worklist.
pub open spec fn in_work(w: Seq<usize>, i: int) -> bool {
    exists|t: int| 0 <= t < w.len() && (#[trigger] w[t]) == i
}

proof fn lemma_in_work_push(w: Seq<usize>, x: usize, a: int)
    ensures
        in_work(w.push(x), a) <==> (in_work(w, a) || a == x),
{
    if in_work(w, a) {
        let t = choose|t: int| 0 <= t < w.len() && (#[trigger] w[t]) == a;
        assert(w.push(x)[t] == a);
    }
    if a == x {
        assert(w.push(x)[w.len() as int] == a);
    }
    if in_work(w.push(x), a) {
        let t = choose|t: int| 0 <= t < w.push(x).len() && (#[trigger] w.push(x)[t]) == a;
        if t < w.len() {
            assert(w[t] == a);
        }
    }
}

proof fn lemma_in_work_drop_last(w: Seq<usize>, a: int)
    requires
        w.len() > 0,
    ensures
        in_work(w, a) <==> (in_work(w.drop_last(), a) || a == w.last()),
{
    if in_work(w.drop_last(), a) {
        let t = choose|t: int| 0 <= t < w.drop_last().len() && (#[trigger] w.drop_last()[t]) == a;
        assert(w[t] == a);
    }
    if a == w.last() {
        assert(w[w.len() - 1] == a);
    }
    if in_work(w, a) {
        let t = choose|t: int| 0 <= t < w.len() && (#[trigger] w[t]) == a;
        if t < w.len() - 1 {
            assert(w.drop_last()[t] == a);
        }
    }
}

impl Heap {
    /// A full collection cycle: marks everything reachable from the root
    /// table, frees the rest, and returns the native identifiers owned by
    /// the freed finalized blocks (ascending block order, each exactly the
    /// one its block carried). Freed blocks stay in place, dead; live
    /// blocks are untouched, so no value is relocated.
    pub fn collect(&mut self) -> (freed: Vec<u64>)
        requires
            old(self).wf(),
        ensures
            final(self).wf(),
            collect_post(*old(self), *final(self), freed@),
    {
        let ghost h = *old(self);
        let n = self.blocks.len();

        // --- mark phase: seed the worklist from the root table ---
        let mut marked: Vec<bool> = vec![false; n];
        let mut work: Vec<usize> = Vec::new();
        let nroots = self.roots.len();
        let mut k: usize = 0;
        while k < nroots
            invariant
                *self == h,
                h.wf(),
                n == h.blocks@.len(),
                nroots == h.roots@.len(),
                k <= nroots,
                marked@.len() == n,
                forall|i: int| 0 <= i < n && marked@[i] ==> reachable(h, i),
                forall|i: int| 0 <= i < n && marked@[i] ==> h.blocks@[i].live,
                forall|i: int| 0 <= i < n && #[trigger] marked@[i] ==> in_work(work@, i),
                forall|t: int|
                    0 <= t < work@.len() ==> ((#[trigger] work@[t]) < n && marked@[work@[t] as int]),
                forall|j: int|
                    0 <= j < k && (#[trigger] h.roots@[j]).spec_is_block()
                        ==> marked@[h.roots@[j].spec_block_index()],
            decreases nroots - k,
        {
            let v = self.roots[k];
            if v.is_block() {
                proof {
                    assert(h.valid_value(v));
                }
                let i = v.block_index();
                if !marked[i] {
                    let ghost w1 = work@;
                    let ghost m1 = marked@;
                    marked[i] = true;
                    work.push(i);
                    proof {
                        assert(rooted_block(h, i as int));
                        lemma_rooted_reachable(h, i as int);
                        assert forall|x: int| 0 <= x < n && #[trigger] marked@[x] implies in_work(
                            work@,
                            x,
                        ) by {
                            lemma_in_work_push(w1, i, x);
                            if x != i {
                                assert(m1[x]);
                            }
                        }
                    }
                }
            }
            k += 1;
        }

        // --- mark phase: saturate ---
        proof {
            lemma_num_true_le(marked@);
        }
        while work.len() > 0
            invariant
                *self == h,
                h.wf(),
                n == h.blocks@.len(),
                marked@.len() == n,
                num_true(marked@) <= n,
                forall|i: int| 0 <= i < n && marked@[i] ==> reachable(h, i),
                forall|i: int| 0 <= i < n && marked@[i] ==> h.blocks@[i].live,
                forall|t: int|
                    0 <= t < work@.len() ==> ((#[trigger] work@[t]) < n && marked@[work@[t] as int]),
                forall|r: int| #[trigger] rooted_block(h, r) ==> 0 <= r < n && marked@[r],
                forall|a: int, b: int|
                    #![trigger points_to(h, a, b), marked@[a]]
                    0 <= a < n && marked@[a] && !in_work(work@, a) && points_to(h, a, b) ==> (0 <= b
                        < n && marked@[b]),
            decreases n - num_true(marked@), work@.len(),
        {
            let ghost work0 = work@;
            let ghost nt0 = num_true(marked@);
            let i = match work.pop() {
                Some(x) => x,
                None => {
                    proof {
                        assert(false);
                    }
                    0
                },
            };
            proof {
                assert(work0[work0.len() - 1] == i);
                assert(work@ =~= work0.drop_last());
                assert forall|a: int, b: int|
                    #![trigger points_to(h, a, b), marked@[a]]
                    0 <= a < n && marked@[a] && a != i && !in_work(work@, a) && points_to(h, a, b)
                        implies (0 <= b < n && marked@[b]) by {
                    lemma_in_work_drop_last(work0, a);
                }
            }
            let t = self.blocks[i].tag;
            if crate::tag::is_scanned_tag(t) {
                let m = self.blocks[i].words.len();
                let mut j: usize = 0;
                while j < m
                    invariant
                        *self == h,
                        h.wf(),
                        n == h.blocks@.len(),
                        marked@.len() == n,
                        num_true(marked@) <= n,
                        i < n,
                        marked@[i as int],
                        h.blocks@[i as int].live,
                        tag_is_scanned(h.blocks@[i as int].tag),
                        m == h.blocks@[i as int].words@.len(),
                        j <= m,
                        num_true(marked@) >= nt0,
                        work@.len() + nt0 == work0.len() - 1 + num_true(marked@),
                        forall|x: int| 0 <= x < n && marked@[x] ==> reachable(h, x),
                        forall|x: int| 0 <= x < n && marked@[x] ==> h.blocks@[x].live,
                        forall|t2: int|
                            0 <= t2 < work@.len() ==> ((#[trigger] work@[t2]) < n
                                && marked@[work@[t2] as int]),
                        forall|r: int| #[trigger] rooted_block(h, r) ==> 0 <= r < n && marked@[r],
                        forall|jj: int|
                            0 <= jj < j && (#[trigger] h.blocks@[i as int].words@[jj]) % 2 == 0
                                ==> (0 <= (h.blocks@[i as int].words@[jj] as int) / 4 < n
                                && marked@[(h.blocks@[i as int].words@[jj] as int) / 4]),
                        forall|a: int, b: int|
                            #![trigger points_to(h, a, b), marked@[a]]
                            0 <= a < n && marked@[a] && a != i && !in_work(work@, a)
                                && points_to(h, a, b) ==> (0 <= b < n && marked@[b]),
                    decreases m - j,
                {
                    let w = self.blocks[i].words[j];
                    if w % 2 == 0 {
                        proof {
                            assert(h.block_wf(i as int));
                            assert(h.valid_word(h.blocks@[i as int].words@[j as int]));
                        }
                        let tgt = (w / 4) as usize;
                        if !marked[tgt] {
                            proof {
                                lemma_num_true_update(marked@, tgt as int);
                                lemma_num_true_le(marked@.update(tgt as int, true));
                                assert(points_to(h, i as int, tgt as int));
                                lemma_reachable_step(h, i as int, tgt as int);
                            }
                            let ghost w1 = work@;
                            let ghost m1 = marked@;
                            marked[tgt] = true;
                            work.push(tgt);
                            proof {
                                assert forall|a: int, b: int|
                                    #![trigger points_to(h, a, b), marked@[a]]
                                    0 <= a < n && marked@[a] && a != i && !in_work(work@, a)
                                        && points_to(h, a, b) implies (0 <= b < n
                                    && marked@[b]) by {
                                    lemma_in_work_push(w1, tgt, a);
                                    assert(a != tgt);
                                    assert(m1[a]);
                                }
                            }
                        }
                    }
                    j += 1;
                }
                proof {
                    assert forall|a: int, b: int|
                        #![trigger points_to(h, a, b), marked@[a]]
                        0 <= a < n && marked@[a] && !in_work(work@, a) && points_to(h, a, b) implies (
                    0 <= b < n && marked@[b]) by {
                        if a == i {
                            let kk = choose|kk: int|
                                0 <= kk < h.blocks@[a].words@.len()
                                    && (#[trigger] h.blocks@[a].words@[kk]) % 2 == 0
                                    && (h.blocks@[a].words@[kk] as int) / 4 == b;
                            assert((h.blocks@[i as int].words@[kk]) % 2 == 0);
                        }
                    }
                }
            }
        }

        // At saturation the marked set is closed and covers the roots, so
        // it contains everything reachable; soundness gives the converse.
        proof {
            let mset = Set::new(|i: int| 0 <= i < n && marked@[i]);
            assert(closed_set(h, mset)) by {
                assert forall|a: int, b: int|
                    #![trigger mset.contains(a), points_to(h, a, b)]
                    mset.contains(a) && points_to(h, a, b) implies mset.contains(b) by {
                    assert(marked@[a]);
                    assert(!in_work(work@, a));
                }
            }
            assert(covers_roots(h, mset));
            assert forall|i: int| 0 <= i < n implies (marked@[i] <==> (h.blocks@[i].live
                && reachable(h, i))) by {
                if h.blocks@[i].live && reachable(h, i) {
                    assert(mset.contains(i));
                }
            }
        }

        // --- sweep phase ---
        let mut freed: Vec<u64> = Vec::new();
        let mut c: usize = 0;
        while c < n
            invariant
                n == self.blocks@.len(),
                n == h.blocks@.len(),
                self.roots@ == h.roots@,
                h.wf(),
                marked@.len() == n,
                c <= n,
                forall|i: int|
                    0 <= i < n ==> (marked@[i] <==> (h.blocks@[i].live && reachable(h, i))),
                forall|i: int| c <= i < n ==> #[trigger] self.blocks@[i] == h.blocks@[i],
                forall|i: int|
                    0 <= i < c ==> ((#[trigger] self.blocks@[i]).live <==> (h.blocks@[i].live
                        && reachable(h, i))),
                forall|i: int|
                    0 <= i < c && self.blocks@[i].live ==> #[trigger] self.blocks@[i] == h.blocks@[i],
                forall|i: int|
                    0 <= i < c && !self.blocks@[i].live ==> {
                        &&& (#[trigger] self.blocks@[i]).tag == h.blocks@[i].tag
                        &&& self.blocks@[i].finalized == h.blocks@[i].finalized
                        &&& self.blocks@[i].native_id == h.blocks@[i].native_id
                        &&& self.blocks@[i].words@ == h.blocks@[i].words@
                    },
                freed@ == victim_ids(h, c as int),
            decreases n - c,
        {
            if self.blocks[c].live && !marked[c] {
                if self.blocks[c].finalized {
                    freed.push(self.blocks[c].native_id);
                }
                self.blocks[c].live = false;
            }
            proof {
                assert(freed@ == victim_ids(h, c + 1));
            }
            c += 1;
        }

        // The surviving heap is well formed: survivors are exactly the
        // reachable blocks, and reachability is closed under references.
        proof {
            assert forall|i: int| 0 <= i < self.blocks@.len() implies self.block_wf(i) by {
                if self.blocks@[i].live && tag_is_scanned(self.blocks@[i].tag) {
                    assert(self.blocks@[i] == h.blocks@[i]);
                    assert(h.block_wf(i));
                    assert forall|j: int| 0 <= j < self.blocks@[i].words@.len() implies self.valid_word(
                        self.blocks@[i].words@[j],
                    ) by {
                        let w = h.blocks@[i].words@[j];
                        assert(h.valid_word(w));
                        if w % 2 == 0 {
                            let b = (w as int) / 4;
                            assert(points_to(h, i, b));
                            lemma_reachable_step(h, i, b);
                            assert(self.blocks@[b].live);
                        }
                    }
                }
            }
            assert forall|k2: int| 0 <= k2 < self.roots@.len() implies self.valid_value(
                #[trigger] self.roots@[k2],
            ) by {
                let v = h.roots@[k2];
                assert(h.valid_value(v));
                if v.word % 2 == 0 {
                    assert(rooted_block(h, (v.word as int) / 4));
                    lemma_rooted_reachable(h, (v.word as int) / 4);
                }
            }
        }
        freed
    }
}

} // verus!
