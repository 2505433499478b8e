//! Bounded undo/redo: snapshot stacks with capacity 200 and oldest-first
//! eviction, and the abstract transition system they implement, with proofs
//! that k undos followed by k redos restore the starting line sequence and
//! that pushing past capacity keeps exactly the most recent snapshots.

use vstd::prelude::*;
use crate::buffer::Buffer;

verus! {

/// A buffer's line sequence, abstractly.
pub type LinesView = Seq<Seq<char>>;

/// Capacity of each snapshot stack.
pub open spec fn undo_cap() -> nat {
    200
}

/// An immutable snapshot of a buffer's lines.
pub struct Snap {
    pub lines: Vec<String>,
}

impl View for Snap {
    type V = LinesView;

    open spec fn view(&self) -> LinesView {
        self.lines.deep_view()
    }
}

/// Push onto a bounded stack, evicting the oldest entry at capacity.
pub open spec fn spec_stack_push(st: Seq<LinesView>, x: LinesView) -> Seq<LinesView> {
    if st.len() < undo_cap() {
        st.push(x)
    } else {
        st.drop_first().push(x)
    }
}

/// A bounded stack of snapshots; the bottom (index 0) is the oldest.
pub struct Stack {
    pub st: Vec<Snap>,
}

impl View for Stack {
    type V = Seq<LinesView>;

    open spec fn view(&self) -> Seq<LinesView> {
        self.st@.map_values(|s: Snap| s@)
    }
}

impl Stack {
    pub open spec fn wf(&self) -> bool {
        self@.len() <= undo_cap()
    }

    pub fn new() -> (r: Stack)
        ensures
            r@ == Seq::<LinesView>::empty(),
            r.wf(),
    {
        let r = Stack { st: Vec::new() };
        proof {
            assert(r@ =~= Seq::<LinesView>::empty());
        }
        r
    }

    /// Snapshot `buf`'s lines; at capacity the oldest snapshot is evicted.
    pub fn push(&mut self, buf: &Buffer)
        requires
            old(self).wf(),
        ensures
            final(self)@ == spec_stack_push(old(self)@, buf@.lines),
            final(self).wf(),
    {
        if self.st.len() == 200 {
            let ghost pre = self.st@;
            self.st.remove(0);
            proof {
                assert(self.st@ =~= pre.drop_first());
                assert(self@ =~= old(self)@.drop_first());
            }
        }
        let ghost mid = self@;
        self.st.push(Snap { lines: crate::text::clone_lines(&buf.lines) });
        proof {
            assert(self.st@.drop_last() =~= self.st@.subrange(0, self.st@.len() - 1));
            assert(self@ =~= mid.push(buf@.lines));
        }
    }

    /// Remove and return the most recent snapshot, if any.
    pub fn pop(&mut self) -> (r: Option<Snap>)
        ensures
            old(self)@.len() == 0 ==> r.is_none() && final(self)@ == old(self)@,
            old(self)@.len() > 0 ==> r.is_some() && r.unwrap()@ == old(self)@.last()
                && final(self)@ == old(self)@.drop_last(),
            old(self).wf() ==> final(self).wf(),
            final(self)@.len() <= old(self)@.len(),
    {
        let r = self.st.pop();
        proof {
            if old(self)@.len() > 0 {
                assert(r.unwrap() == old(self).st@[old(self).st@.len() - 1]);
                assert(old(self)@.last() == old(self).st@[old(self).st@.len() - 1]@);
                assert(self@ =~= old(self)@.drop_last());
            } else {
                assert(self@ =~= old(self)@);
            }
        }
        r
    }

    /// Discard every snapshot.
    pub fn clear(&mut self)
        ensures
            final(self)@ == Seq::<LinesView>::empty(),
            final(self).wf(),
    {
        self.st.clear();
        proof {
            assert(self@ =~= Seq::<LinesView>::empty());
        }
    }

    /// Number of snapshots held.
    pub fn depth(&self) -> (r: usize)
        ensures
            r == self@.len(),
    {
        self.st.len()
    }
}

/// Iterated bounded push: `xs` pushed in order onto `st`.
pub open spec fn spec_push_all(st: Seq<LinesView>, xs: Seq<LinesView>) -> Seq<LinesView>
    decreases xs.len(),
{
    if xs.len() == 0 {
        st
    } else {
        spec_push_all(spec_stack_push(st, xs[0]), xs.drop_first())
    }
}

/// Pushing a sequence of snapshots keeps the tail of `st + xs` that fits:
/// everything while within capacity, and exactly the most recent entries
/// once capacity is exceeded, oldest evicted first.
pub proof fn lemma_push_all(st: Seq<LinesView>, xs: Seq<LinesView>)
    requires
        st.len() <= undo_cap(),
    ensures
        spec_push_all(st, xs) == if st.len() + xs.len() <= undo_cap() {
            st + xs
        } else {
            (st + xs).skip(st.len() + xs.len() - undo_cap())
        },
    decreases xs.len(),
{
    if xs.len() == 0 {
        assert(st + xs =~= st);
    } else {
        let x0 = xs[0];
        let rest = xs.drop_first();
        let st1 = spec_stack_push(st, x0);
        lemma_push_all(st1, rest);
        if st.len() < undo_cap() {
            assert(st1 + rest =~= st + xs);
        } else {
            assert(st1 + rest =~= (st + xs).skip(1));
            if st1.len() + rest.len() <= undo_cap() {
                assert(spec_push_all(st, xs) == (st + xs).skip(1));
                assert(st.len() + xs.len() - undo_cap() == 1);
            } else {
                assert(((st + xs).skip(1)).skip(st1.len() + rest.len() - undo_cap()) =~= (st
                    + xs).skip(st.len() + xs.len() - undo_cap()));
            }
        }
    }
}

/// Pushing at least a full capacity of snapshots retains exactly the most
/// recent `undo_cap()` of them; every older entry has been evicted.
pub proof fn lemma_push_all_evicts_oldest(st: Seq<LinesView>, xs: Seq<LinesView>)
    requires
        st.len() <= undo_cap(),
        xs.len() >= undo_cap(),
    ensures
        spec_push_all(st, xs) == xs.skip(xs.len() - undo_cap()),
{
    lemma_push_all(st, xs);
    if st.len() + xs.len() > undo_cap() {
        assert((st + xs).skip(st.len() + xs.len() - undo_cap()) =~= xs.skip(xs.len()
            - undo_cap()));
    } else {
        assert(st.len() == 0 && xs.len() == undo_cap());
        assert(st + xs =~= xs.skip(xs.len() - undo_cap()));
    }
}

/// The undo/redo-relevant part of an editor: current lines and both stacks.
#[verifier::ext_equal]
pub struct HistState {
    pub lines: LinesView,
    pub undo: Seq<LinesView>,
    pub redo: Seq<LinesView>,
}

pub open spec fn hist_wf(h: HistState) -> bool {
    h.undo.len() <= undo_cap() && h.redo.len() <= undo_cap()
}

/// Undo: restore the latest snapshot, saving the current lines for redo.
/// With nothing to undo, the state is unchanged.
pub open spec fn spec_undo(h: HistState) -> HistState {
    if h.undo.len() == 0 {
        h
    } else {
        HistState {
            lines: h.undo.last(),
            undo: h.undo.drop_last(),
            redo: spec_stack_push(h.redo, h.lines),
        }
    }
}

/// Redo: the mirror of undo.
pub open spec fn spec_redo(h: HistState) -> HistState {
    if h.redo.len() == 0 {
        h
    } else {
        HistState {
            lines: h.redo.last(),
            redo: h.redo.drop_last(),
            undo: spec_stack_push(h.undo, h.lines),
        }
    }
}

/// A buffer mutation: snapshot the old lines for undo and clear redo.
pub open spec fn spec_edit(h: HistState, newlines: LinesView) -> HistState {
    HistState {
        lines: newlines,
        undo: spec_stack_push(h.undo, h.lines),
        redo: Seq::<LinesView>::empty(),
    }
}

pub open spec fn undo_n(h: HistState, k: nat) -> HistState
    decreases k,
{
    if k == 0 {
        h
    } else {
        spec_undo(undo_n(h, (k - 1) as nat))
    }
}

pub open spec fn redo_n(h: HistState, k: nat) -> HistState
    decreases k,
{
    if k == 0 {
        h
    } else {
        spec_redo(redo_n(h, (k - 1) as nat))
    }
}

proof fn lemma_undo_n_swap(h: HistState, k: nat)
    ensures
        undo_n(spec_undo(h), k) == spec_undo(undo_n(h, k)),
    decreases k,
{
    if k > 0 {
        lemma_undo_n_swap(h, (k - 1) as nat);
    }
}

/// One redo exactly cancels one undo when there is something to undo and
/// room to record it.
proof fn lemma_redo_undo(h: HistState)
    requires
        h.undo.len() > 0,
        h.undo.len() <= undo_cap(),
        h.redo.len() < undo_cap(),
    ensures
        spec_redo(spec_undo(h)) == h,
{
    let z = spec_undo(h);
    assert(z.redo == h.redo.push(h.lines));
    assert(z.redo.len() > 0);
    let w = spec_redo(z);
    assert(w.lines == h.lines);
    assert(w.redo =~= h.redo);
    assert(w.undo =~= h.undo);
    assert(w =~~= h);
}

/// Exactly `k` undos then `k` redos is the identity while `k` stays within
/// the undo stack and the redo stack has room for every snapshot recorded.
proof fn lemma_round_trip_exact(h: HistState, k: nat)
    requires
        k <= h.undo.len(),
        h.redo.len() + h.undo.len() <= undo_cap(),
    ensures
        redo_n(undo_n(h, k), k) == h,
    decreases k,
{
    if k > 0 {
        let z = spec_undo(h);
        assert(z.undo.len() == h.undo.len() - 1);
        assert(z.redo.len() == h.redo.len() + 1);
        lemma_round_trip_exact(z, (k - 1) as nat);
        lemma_undo_n_swap(h, (k - 1) as nat);
        assert(undo_n(h, k) == undo_n(z, (k - 1) as nat));
        assert(redo_n(undo_n(h, k), k) == spec_redo(redo_n(undo_n(z, (k - 1) as nat), (k
            - 1) as nat)));
        lemma_redo_undo(h);
    }
}

proof fn lemma_undo_n_len(h: HistState, k: nat)
    requires
        k <= h.undo.len(),
    ensures
        undo_n(h, k).undo.len() == h.undo.len() - k,
        undo_n(h, k).redo.len() <= h.redo.len() + k,
    decreases k,
{
    if k > 0 {
        lemma_undo_n_len(h, (k - 1) as nat);
        lemma_undo_n_swap(h, (k - 1) as nat);
        let z = spec_undo(h);
        assert(undo_n(h, k) == undo_n(z, (k - 1) as nat));
        if h.undo.len() > 0 {
            lemma_undo_n_len(z, (k - 1) as nat);
        }
    }
}

proof fn lemma_undo_n_stable(h: HistState, k: nat, s: nat)
    requires
        s <= k,
        undo_n(h, s).undo.len() == 0,
    ensures
        undo_n(h, k) == undo_n(h, s),
    decreases k,
{
    if k > s {
        lemma_undo_n_stable(h, (k - 1) as nat, s);
        assert(undo_n(h, k) == spec_undo(undo_n(h, (k - 1) as nat)));
    }
}

proof fn lemma_redo_n_stable(x: HistState, h: HistState, k: nat, s: nat)
    requires
        s <= k,
        redo_n(x, s) == h,
        h.redo.len() == 0,
    ensures
        redo_n(x, k) == h,
    decreases k,
{
    if k > s {
        lemma_redo_n_stable(x, h, (k - 1) as nat, s);
        assert(redo_n(x, k) == spec_redo(redo_n(x, (k - 1) as nat)));
    }
}

/// After any run of mutations (each of which leaves the redo stack empty),
/// performing `k` undos and then `k` redos with no mutation in between
/// restores exactly the line sequence that was current before the undos —
/// also when `k` exceeds the number of recorded snapshots, in which case the
/// extra undos and redos are no-ops.
pub proof fn lemma_undo_redo_round_trip(h: HistState, k: nat)
    requires
        hist_wf(h),
        h.redo.len() == 0,
    ensures
        redo_n(undo_n(h, k), k).lines == h.lines,
{
    let s = h.undo.len();
    if k <= s {
        lemma_round_trip_exact(h, k);
    } else {
        lemma_round_trip_exact(h, s);
        lemma_undo_n_len(h, s);
        lemma_undo_n_stable(h, k, s);
        let x = undo_n(h, s);
        lemma_redo_n_stable(x, h, k, s);
    }
}

} // verus!
