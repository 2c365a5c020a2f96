//! Fixed-capacity single-producer/single-consumer ring buffer.
//!
//! `N` slots hold up to `N` unread items. When the buffer is full, a push
//! silently overwrites the oldest unread item instead of failing: callers
//! must keep the drain rate at or above the fill rate if no item may be
//! lost.

use vstd::prelude::*;

verus! {

/// A fixed-capacity first-in first-out queue over `N` slots.
///
/// `ri` is the read index and `wi` the write index, both always in
/// `[0, N)`. The two indices coincide both when the buffer is empty and
/// when all `N` slots hold unread items; the `full` flag tells the two
/// states apart, so the usable capacity is `N`, not `N - 1`.
pub struct CircularBuff<T, const N: usize> {
    buf: Vec<T>,
    ri: usize,
    wi: usize,
    full: bool,
}

/// Physical slot that logical position `i` occupies when reading starts at
/// slot `ri` of `n` slots (for `0 <= ri < n` and `0 <= i < n`).
spec fn slot_at(ri: int, i: int, n: int) -> int {
    if ri + i < n {
        ri + i
    } else {
        ri + i - n
    }
}

/// Abstract effect of one push on the queue's contents: the new item goes
/// to the back, and if the queue already held `cap` items the oldest one
/// is dropped.
pub open spec fn queue_push<T>(s: Seq<T>, item: T, cap: nat) -> Seq<T> {
    if s.len() < cap {
        s.push(item)
    } else {
        s.push(item).drop_first()
    }
}

impl<T, const N: usize> View for CircularBuff<T, N> {
    type V = Seq<T>;

    /// The unread items, oldest first.
    closed spec fn view(&self) -> Seq<T> {
        Seq::new(
            self.len_spec(),
            |i: int| self.buf@[slot_at(self.ri as int, i, N as int)],
        )
    }
}

impl<T, const N: usize> CircularBuff<T, N> {
    /// Number of unread items.
    pub closed spec fn len_spec(&self) -> nat {
        if self.full {
            N as nat
        } else if self.wi >= self.ri {
            (self.wi - self.ri) as nat
        } else {
            (N - self.ri + self.wi) as nat
        }
    }

    /// Structural invariant: the storage has exactly `N` slots, both
    /// indices stay inside it, and `full` is only raised when the indices
    /// coincide.
    pub closed spec fn wf(&self) -> bool {
        &&& N > 0
        &&& self.buf@.len() == N
        &&& self.ri < N
        &&& self.wi < N
        &&& (self.full ==> self.wi == self.ri)
    }
}

impl<T: Copy, const N: usize> CircularBuff<T, N> {
    /// An empty buffer with every slot holding `fill`.
    pub fn new(fill: T) -> (r: Self)
        requires
            N > 0,
        ensures
            r.wf(),
            r@ == Seq::<T>::empty(),
    {
        let mut buf: Vec<T> = Vec::new();
        let mut i: usize = 0;
        while i < N
            invariant
                i <= N,
                buf@.len() == i,
            decreases N - i,
        {
            buf.push(fill);
            i += 1;
        }
        let r = CircularBuff { buf, ri: 0, wi: 0, full: false };
        proof {
            assert(r@ =~= Seq::<T>::empty());
        }
        r
    }

    /// Writes `data` at the write index and advances it; on a full buffer
    /// this overwrites the oldest unread item. Never fails, never blocks.
    pub fn put_data(&mut self, data: T)
        requires
            old(self).wf(),
        ensures
            final(self).wf(),
            final(self)@ == queue_push(old(self)@, data, N as nat),
    {
        let wi = self.wi;
        self.buf.set(wi, data);
        let new_wi = if wi == N - 1 {
            0
        } else {
            wi + 1
        };
        self.wi = new_wi;
        if self.full {
            self.ri = new_wi;
        } else {
            self.full = new_wi == self.ri;
        }
        proof {
            let pre = *old(self);
            let n = N as int;
            let l = pre.len_spec() as int;
            if pre.full {
                assert forall|i: int| 0 <= i < l - 1 implies #[trigger] self@[i] == pre@[i + 1] by {
                    assert(slot_at(self.ri as int, i, n) == slot_at(pre.ri as int, i + 1, n));
                    assert(slot_at(pre.ri as int, i + 1, n) != pre.wi as int);
                }
                assert(slot_at(self.ri as int, l - 1, n) == pre.wi as int);
            } else {
                assert(slot_at(pre.ri as int, l, n) == pre.wi as int);
                assert forall|i: int| 0 <= i < l implies #[trigger] self@[i] == pre@[i] by {
                    assert(slot_at(pre.ri as int, i, n) != pre.wi as int);
                }
                assert(slot_at(self.ri as int, l, n) == pre.wi as int);
            }
            assert(self@ =~= queue_push(pre@, data, N as nat));
        }
    }

    /// Pushes every item of `data`, in order, front to back.
    pub fn put_all_data(&mut self, data: &[T])
        requires
            old(self).wf(),
        ensures
            final(self).wf(),
            final(self)@ == queue_push_all(old(self)@, data@, N as nat),
    {
        let mut i: usize = 0;
        while i < data.len()
            invariant
                old(self).wf(),
                self.wf(),
                i <= data@.len(),
                self@ == queue_push_all(old(self)@, data@.take(i as int), N as nat),
            decreases data@.len() - i,
        {
            self.put_data(data[i]);
            proof {
                assert(data@.take(i + 1).drop_last() =~= data@.take(i as int));
                assert(data@.take(i + 1).last() == data@[i as int]);
            }
            i += 1;
        }
        proof {
            assert(data@.take(data@.len() as int) =~= data@);
        }
    }

    /// Pops the oldest unread item; returns `None`, and leaves the buffer
    /// untouched, exactly when the buffer is empty.
    pub fn get_data(&mut self) -> (data: Option<T>)
        requires
            old(self).wf(),
        ensures
            final(self).wf(),
            old(self)@.len() == 0 ==> data is None && *final(self) == *old(self),
            old(self)@.len() > 0 ==> data == Some(old(self)@[0])
                && final(self)@ == old(self)@.drop_first(),
    {
        let mut data = None;
        if self.wi != self.ri || self.full {
            data = Some(self.buf[self.ri]);
            let ri = self.ri;
            self.ri = if ri == N - 1 {
                0
            } else {
                ri + 1
            };
            self.full = false;
            proof {
                let pre = *old(self);
                let n = N as int;
                let l = pre.len_spec() as int;
                assert forall|i: int| 0 <= i < l - 1 implies #[trigger] self@[i] == pre@[i + 1] by {
                    assert(slot_at(self.ri as int, i, n) == slot_at(pre.ri as int, i + 1, n));
                }
                assert(self@ =~= pre@.drop_first());
            }
        }
        data
    }

    /// Same pop as [`Self::get_data`]; call it in a loop until it returns
    /// `None` to take every unread item in first-in first-out order.
    pub fn get_all_data(&mut self) -> (data: Option<T>)
        requires
            old(self).wf(),
        ensures
            final(self).wf(),
            old(self)@.len() == 0 ==> data is None && *final(self) == *old(self),
            old(self)@.len() > 0 ==> data == Some(old(self)@[0])
                && final(self)@ == old(self)@.drop_first(),
    {
        self.get_data()
    }

    /// Pops until the buffer is empty, appending each item to `sink` in
    /// first-in first-out order. Finite and restartable.
    pub fn drain_all(&mut self, sink: &mut Vec<T>)
        requires
            old(self).wf(),
        ensures
            final(self).wf(),
            final(sink)@ == old(sink)@ + old(self)@,
            final(self)@ == Seq::<T>::empty(),
    {
        loop
            invariant
                self.wf(),
                sink@ + self@ == old(sink)@ + old(self)@,
            ensures
                self.wf(),
                self@.len() == 0,
                sink@ + self@ == old(sink)@ + old(self)@,
            decreases self@.len(),
        {
            match self.get_data() {
                Some(d) => {
                    sink.push(d);
                    proof {
                        assert(sink@ + self@ =~= old(sink)@ + old(self)@);
                    }
                },
                None => {
                    break;
                },
            }
        }
        proof {
            assert(final(sink)@ =~= old(sink)@ + old(self)@);
            assert(self@ =~= Seq::<T>::empty());
        }
    }
}

/// Abstract effect of pushing a whole sequence, front to back.
pub open spec fn queue_push_all<T>(s: Seq<T>, items: Seq<T>, cap: nat) -> Seq<T>
    decreases items.len(),
{
    if items.len() == 0 {
        s
    } else {
        queue_push(queue_push_all(s, items.drop_last(), cap), items.last(), cap)
    }
}

/// Pushing a sequence keeps the last `cap` items of "old contents followed
/// by the pushed items": nothing is reordered, and only the oldest items
/// are lost, exactly when the total exceeds the capacity.
pub proof fn lemma_push_all_keeps_last<T>(s: Seq<T>, items: Seq<T>, cap: nat)
    requires
        s.len() <= cap,
    ensures
        queue_push_all(s, items, cap) == if s.len() + items.len() <= cap {
            s + items
        } else {
            (s + items).skip(s.len() + items.len() - cap)
        },
    decreases items.len(),
{
    if items.len() == 0 {
        assert(s + items =~= s);
    } else {
        let front = items.drop_last();
        lemma_push_all_keeps_last(s, front, cap);
        let t = queue_push_all(s, front, cap);
        if s.len() + front.len() <= cap {
            assert(t =~= s + front);
            if t.len() < cap {
                assert(t.push(items.last()) =~= s + items);
            } else {
                assert(t.push(items.last()).drop_first() =~= (s + items).skip(1));
            }
        } else {
            let d = s.len() + front.len() - cap;
            assert(t == (s + front).skip(d as int));
            assert(t.len() == cap);
            assert forall|i: int| 0 <= i < cap implies
                #[trigger] t.push(items.last()).drop_first()[i]
                    == (s + items).skip(d + 1)[i] by {
                if i < cap - 1 {
                    assert(t.push(items.last()).drop_first()[i] == (s + front)[d + 1 + i]);
                    assert((s + items).skip(d + 1)[i] == (s + items)[d + 1 + i]);
                }
            }
            assert(t.push(items.last()).drop_first() =~= (s + items).skip(d + 1));
        }
    }
}

/// Overwrite law: pushing `cap + 1` items into an empty buffer, then
/// draining, yields exactly the last `cap` pushed items, in order, starting
/// from the second one — the first pushed item is the one overwritten.
pub proof fn lemma_overwrite_drops_oldest<T>(items: Seq<T>, cap: nat)
    requires
        items.len() == cap + 1,
    ensures
        queue_push_all(Seq::<T>::empty(), items, cap) == items.skip(1),
{
    lemma_push_all_keeps_last(Seq::<T>::empty(), items, cap);
    assert(Seq::<T>::empty() + items =~= items);
    assert((Seq::<T>::empty() + items).skip(1) =~= items.skip(1));
}

/// One operation on a buffer: push one item, or pop one.
pub enum BufOp<T> {
    Push(T),
    Pop,
}

/// Contents of the buffer after running `ops`, front to back, starting
/// from `init`: a push behaves as [`queue_push`], a pop on a non-empty
/// buffer removes the oldest item, and a pop on an empty buffer does
/// nothing.
pub open spec fn run_contents<T>(init: Seq<T>, ops: Seq<BufOp<T>>, cap: nat) -> Seq<T>
    decreases ops.len(),
{
    if ops.len() == 0 {
        init
    } else {
        let before = run_contents(init, ops.drop_last(), cap);
        match ops.last() {
            BufOp::Push(x) => queue_push(before, x, cap),
            BufOp::Pop => if before.len() > 0 {
                before.drop_first()
            } else {
                before
            },
        }
    }
}

/// The items the pops of `ops` return, in the order they are returned;
/// a pop on an empty buffer returns nothing.
pub open spec fn run_pops<T>(init: Seq<T>, ops: Seq<BufOp<T>>, cap: nat) -> Seq<T>
    decreases ops.len(),
{
    if ops.len() == 0 {
        Seq::<T>::empty()
    } else {
        let before = run_contents(init, ops.drop_last(), cap);
        let popped = run_pops(init, ops.drop_last(), cap);
        match ops.last() {
            BufOp::Push(x) => popped,
            BufOp::Pop => if before.len() > 0 {
                popped.push(before.first())
            } else {
                popped
            },
        }
    }
}

/// The items the pushes of `ops` carry, in order.
pub open spec fn pushes_of<T>(ops: Seq<BufOp<T>>) -> Seq<T>
    decreases ops.len(),
{
    if ops.len() == 0 {
        Seq::<T>::empty()
    } else {
        match ops.last() {
            BufOp::Push(x) => pushes_of(ops.drop_last()).push(x),
            BufOp::Pop => pushes_of(ops.drop_last()),
        }
    }
}

/// Every push of `ops` happens while the buffer holds fewer than `cap`
/// items, so no push ever overwrites.
pub open spec fn no_overwrite<T>(init: Seq<T>, ops: Seq<BufOp<T>>, cap: nat) -> bool
    decreases ops.len(),
{
    if ops.len() == 0 {
        true
    } else {
        no_overwrite(init, ops.drop_last(), cap)
            && (ops.last() is Push ==> run_contents(init, ops.drop_last(), cap).len() < cap)
    }
}

/// Conservation behind the FIFO law: as long as no push overwrites, the
/// popped items followed by the remaining contents are exactly the initial
/// contents followed by the pushed items.
pub proof fn lemma_fifo_conservation<T>(init: Seq<T>, ops: Seq<BufOp<T>>, cap: nat)
    requires
        no_overwrite(init, ops, cap),
    ensures
        run_pops(init, ops, cap) + run_contents(init, ops, cap) == init + pushes_of(ops),
    decreases ops.len(),
{
    if ops.len() == 0 {
        assert(run_pops(init, ops, cap) + init =~= init + pushes_of(ops));
    } else {
        let front = ops.drop_last();
        lemma_fifo_conservation(init, front, cap);
        let before = run_contents(init, front, cap);
        let popped = run_pops(init, front, cap);
        match ops.last() {
            BufOp::Push(x) => {
                assert(popped + before.push(x) =~= (popped + before).push(x));
                assert((init + pushes_of(front)).push(x) =~= init + pushes_of(ops));
            },
            BufOp::Pop => {
                if before.len() > 0 {
                    assert(popped.push(before.first()) + before.drop_first()
                        =~= popped + before);
                }
            },
        }
    }
}

/// First-in first-out law: for any interleaving of pushes and pops,
/// starting from an empty buffer and never exceeding the capacity, the
/// items the pops return are exactly a prefix of the pushed items, in the
/// order they were pushed.
pub proof fn lemma_fifo_order<T>(ops: Seq<BufOp<T>>, cap: nat)
    requires
        no_overwrite(Seq::<T>::empty(), ops, cap),
    ensures
        run_pops(Seq::<T>::empty(), ops, cap) == pushes_of(ops).take(
            run_pops(Seq::<T>::empty(), ops, cap).len() as int,
        ),
{
    let init = Seq::<T>::empty();
    let popped = run_pops(init, ops, cap);
    lemma_fifo_conservation(init, ops, cap);
    assert(init + pushes_of(ops) =~= pushes_of(ops));
    assert forall|i: int| 0 <= i < popped.len() implies
        #[trigger] popped[i] == pushes_of(ops)[i] by {
        assert((popped + run_contents(init, ops, cap))[i] == popped[i]);
    }
    assert(popped =~= pushes_of(ops).take(popped.len() as int));
}

} // verus!
