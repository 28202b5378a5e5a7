//! Bounded ring buffer that overwrites its oldest entry when full.

use vstd::prelude::*;

verus! {

/// Contents of a ring after one push: while the buffer is below capacity
/// the item is appended; once it is full, the slot under the write cursor
/// (which then holds the oldest item) is overwritten.
pub open spec fn pushed_contents<T>(content: Seq<T>, cursor: int, cap: int, item: T) -> Seq<T> {
    if content.len() < cap {
        content.push(item)
    } else {
        content.update(cursor, item)
    }
}

/// Write cursor after one push: it advances by one and wraps modulo the
/// capacity.
pub open spec fn pushed_cursor(cursor: int, cap: int) -> int {
    (cursor + 1) % cap
}

/// Contents and cursor after pushing a whole sequence of items, oldest
/// first.
pub open spec fn pushed_all<T>(content: Seq<T>, cursor: int, cap: int, items: Seq<T>) -> (Seq<T>, int)
    decreases items.len(),
{
    if items.len() == 0 {
        (content, cursor)
    } else {
        pushed_all(
            pushed_contents(content, cursor, cap, items[0]),
            pushed_cursor(cursor, cap),
            cap,
            items.drop_first(),
        )
    }
}

/// A bounded buffer of at most `capacity` items.  Items are appended until
/// the capacity is reached; after that every push overwrites the oldest
/// item and the write cursor wraps around.  The view is the backing
/// sequence in storage order, not in chronological order.
pub struct CircularBuffer<T> {
    buffer: Vec<T>,
    capacity: usize,
    index: usize,
}

impl<T> View for CircularBuffer<T> {
    type V = Seq<T>;

    closed spec fn view(&self) -> Seq<T> {
        self.buffer@
    }
}

impl<T> CircularBuffer<T> {
    /// Fixed capacity chosen at construction.
    pub closed spec fn spec_capacity(&self) -> int {
        self.capacity as int
    }

    /// Position of the next write.  When the buffer is full this is the
    /// position of the oldest item.
    pub closed spec fn spec_cursor(&self) -> int {
        self.index as int
    }

    /// Structural invariant: the buffer never exceeds its capacity, the
    /// cursor stays inside the storage, and while the buffer is filling
    /// up the cursor equals the length (items are appended in order).
    pub open spec fn wf(&self) -> bool {
        &&& 1 <= self.spec_capacity()
        &&& self@.len() <= self.spec_capacity()
        &&& 0 <= self.spec_cursor() < self.spec_capacity()
        &&& self@.len() < self.spec_capacity() ==> self.spec_cursor() == self@.len()
    }

    pub fn new(capacity: usize) -> (r: Self)
        requires
            1 <= capacity,
        ensures
            r.wf(),
            r@ == Seq::<T>::empty(),
            r.spec_capacity() == capacity,
            r.spec_cursor() == 0,
    {
        CircularBuffer { buffer: Vec::new(), capacity, index: 0 }
    }

    pub fn push(&mut self, item: T)
        requires
            old(self).wf(),
        ensures
            final(self).wf(),
            final(self).spec_capacity() == old(self).spec_capacity(),
            final(self)@ == pushed_contents(old(self)@, old(self).spec_cursor(), old(self).spec_capacity(), item),
            final(self).spec_cursor() == pushed_cursor(old(self).spec_cursor(), old(self).spec_capacity()),
    {
        if self.buffer.len() < self.capacity {
            self.buffer.push(item);
        } else {
            let i = self.index;
            self.buffer[i] = item;
        }
        self.index = (self.index + 1) % self.capacity;
        proof {
            vstd::arithmetic::div_mod::lemma_mod_division_less_than_divisor(
                old(self).spec_cursor() + 1,
                self.spec_capacity(),
            );
            if old(self).spec_cursor() + 1 < self.spec_capacity() {
                vstd::arithmetic::div_mod::lemma_small_mod(
                    (old(self).spec_cursor() + 1) as nat,
                    self.spec_capacity() as nat,
                );
            } else {
                vstd::arithmetic::div_mod::lemma_mod_self_0(self.spec_capacity());
            }
        }
    }

    /// Read-only view of the backing storage, in storage order.
    pub fn items(&self) -> (r: &[T])
        ensures
            r@ == self@,
    {
        self.buffer.as_slice()
    }

    pub fn capacity(&self) -> (r: usize)
        ensures
            r == self.spec_capacity(),
    {
        self.capacity
    }

    pub fn len(&self) -> (r: usize)
        ensures
            r == self@.len(),
    {
        self.buffer.len()
    }

    pub fn is_empty(&self) -> (r: bool)
        ensures
            r == (self@.len() == 0),
    {
        self.buffer.is_empty()
    }

    pub fn is_full(&self) -> (r: bool)
        ensures
            r == (self@.len() == self.spec_capacity()),
    {
        self.buffer.len() == self.capacity
    }

    /// Current write cursor.
    pub fn cursor(&self) -> (r: usize)
        ensures
            r == self.spec_cursor(),
    {
        self.index
    }

    /// Moves all stored items out, in storage order, leaving an empty
    /// buffer with the cursor back at the start.
    pub fn drain_into(&mut self) -> (r: Vec<T>)
        requires
            old(self).wf(),
        ensures
            final(self).wf(),
            final(self)@ == Seq::<T>::empty(),
            final(self).spec_cursor() == 0,
            final(self).spec_capacity() == old(self).spec_capacity(),
            r@ == old(self)@,
    {
        let mut out: Vec<T> = Vec::new();
        core::mem::swap(&mut out, &mut self.buffer);
        self.index = 0;
        assert(self@ =~= Seq::<T>::empty());
        out
    }
}

/// Ordinal, within a history of `n` pushes, of the push that last wrote
/// slot `i` of a ring of capacity `cap`.  While the ring is filling up the
/// slot was written by push `i`; once pushes wrap, it is the most recent
/// push whose ordinal is congruent to `i` modulo the capacity.
pub open spec fn last_write(n: int, cap: int, i: int) -> int {
    if n < cap {
        i
    } else {
        n - 1 - ((n - 1 - i) % cap)
    }
}

/// The ring state that a history of pushes into a fresh ring produces:
/// the length is the smaller of the history length and the capacity, the
/// cursor is the history length modulo the capacity, and every slot holds
/// the item of the push that last wrote it.
pub open spec fn ring_models<T>(content: Seq<T>, cursor: int, cap: int, hist: Seq<T>) -> bool {
    &&& content.len() == vstd::math::min(hist.len() as int, cap)
    &&& cursor == (hist.len() as int) % cap
    &&& forall|i: int|
        0 <= i < content.len() ==> content[i] == hist[last_write(hist.len() as int, cap, i)]
}

proof fn lemma_ring_models_step<T>(content: Seq<T>, cursor: int, cap: int, hist: Seq<T>, item: T)
    requires
        1 <= cap,
        ring_models(content, cursor, cap, hist),
    ensures
        ring_models(
            pushed_contents(content, cursor, cap, item),
            pushed_cursor(cursor, cap),
            cap,
            hist.push(item),
        ),
{
    let n = hist.len() as int;
    let content2 = pushed_contents(content, cursor, cap, item);
    let cursor2 = pushed_cursor(cursor, cap);
    let hist2 = hist.push(item);
    if n < cap {
        vstd::arithmetic::div_mod::lemma_small_mod(n as nat, cap as nat);
        assert(cursor == n);
        if n + 1 < cap {
            vstd::arithmetic::div_mod::lemma_small_mod((n + 1) as nat, cap as nat);
        } else {
            vstd::arithmetic::div_mod::lemma_mod_self_0(cap);
        }
        assert forall|i: int| 0 <= i < content2.len() implies content2[i] == hist2[last_write(
            n + 1,
            cap,
            i,
        )] by {
            if n + 1 == cap {
                vstd::arithmetic::div_mod::lemma_small_mod((cap - 1 - i) as nat, cap as nat);
            }
        }
    } else {
        assert(content.len() == cap);
        // The cursor advances with the history length, modulo the capacity.
        vstd::arithmetic::div_mod::lemma_mod_bound(n, cap);
        vstd::arithmetic::div_mod::lemma_add_mod_noop(n, 1, cap);
        if cap == 1 {
            vstd::arithmetic::div_mod::lemma_mod_self_0(cap);
        } else {
            vstd::arithmetic::div_mod::lemma_small_mod(1nat, cap as nat);
        }
        assert(cursor2 == (n + 1) % cap);
        assert forall|i: int| 0 <= i < content2.len() implies content2[i] == hist2[last_write(
            n + 1,
            cap,
            i,
        )] by {
            vstd::arithmetic::div_mod::lemma_small_mod(i as nat, cap as nat);
            if i == cursor {
                // This push wrote slot `cursor`; its ordinal is `n`.
                vstd::arithmetic::div_mod::lemma_fundamental_div_mod(n, cap);
                vstd::arithmetic::div_mod::lemma_mod_multiples_basic(n / cap, cap);
                assert(n == cap * (n / cap) + i);
                assert(n - i == cap * (n / cap));
                assert(cap * (n / cap) == (n / cap) * cap) by (nonlinear_arith);
                assert((n - i) % cap == 0);
                assert(last_write(n + 1, cap, i) == n);
            } else {
                // Any other slot keeps the item of its previous last write.
                vstd::arithmetic::div_mod::lemma_mod_equivalence(n, i, cap);
                assert((n - i) % cap != 0);
                let a = n - 1 - i;
                let q = a / cap;
                let r = a % cap;
                vstd::arithmetic::div_mod::lemma_fundamental_div_mod(a, cap);
                vstd::arithmetic::div_mod::lemma_mod_bound(a, cap);
                if r + 1 < cap {
                    vstd::arithmetic::div_mod::lemma_fundamental_div_mod_converse_mod(
                        a + 1,
                        cap,
                        q,
                        r + 1,
                    );
                    assert((n - i) % cap == r + 1);
                } else {
                    // r == cap - 1 would put this slot under the cursor.
                    assert((q + 1) * cap == q * cap + cap) by (nonlinear_arith);
                    assert(a + 1 == (q + 1) * cap + 0);
                    vstd::arithmetic::div_mod::lemma_fundamental_div_mod_converse_mod(
                        a + 1,
                        cap,
                        q + 1,
                        0,
                    );
                    assert((n - i) % cap == 0);
                }
                assert(last_write(n + 1, cap, i) == last_write(n, cap, i));
            }
        }
    }
}

proof fn lemma_ring_models_all<T>(content: Seq<T>, cursor: int, cap: int, hist: Seq<T>, items: Seq<T>)
    requires
        1 <= cap,
        ring_models(content, cursor, cap, hist),
    ensures
        ring_models(
            pushed_all(content, cursor, cap, items).0,
            pushed_all(content, cursor, cap, items).1,
            cap,
            hist + items,
        ),
    decreases items.len(),
{
    if items.len() == 0 {
        assert(hist + items =~= hist);
    } else {
        lemma_ring_models_step(content, cursor, cap, hist, items[0]);
        lemma_ring_models_all(
            pushed_contents(content, cursor, cap, items[0]),
            pushed_cursor(cursor, cap),
            cap,
            hist.push(items[0]),
            items.drop_first(),
        );
        assert(hist.push(items[0]) + items.drop_first() =~= hist + items);
    }
}

/// For any sequence of pushes into a fresh ring, the resulting length is
/// the minimum of the number of pushes and the capacity; in particular
/// the ring is full exactly when that minimum reaches the capacity.
pub proof fn lemma_len_is_min_of_pushes<T>(cap: int, items: Seq<T>)
    requires
        1 <= cap,
    ensures
        pushed_all(Seq::<T>::empty(), 0, cap, items).0.len() == vstd::math::min(
            items.len() as int,
            cap,
        ),
{
    vstd::arithmetic::div_mod::lemma_small_mod(0nat, cap as nat);
    lemma_ring_models_all(Seq::<T>::empty(), 0, cap, Seq::<T>::empty(), items);
    assert(Seq::<T>::empty() + items =~= items);
}

/// After more pushes than the capacity, the backing sequence holds
/// exactly the last `capacity` pushes, rotated around the write cursor:
/// slot `i` holds the most recent push whose ordinal is congruent to `i`
/// modulo the capacity, and the cursor sits at `k % capacity` after
/// `capacity + k` pushes.
pub proof fn lemma_wraparound_contents<T>(cap: int, k: int, items: Seq<T>)
    requires
        1 <= cap,
        1 <= k,
        items.len() == cap + k,
    ensures
        pushed_all(Seq::<T>::empty(), 0, cap, items).0 =~= Seq::new(
            cap as nat,
            |i: int| items[items.len() - 1 - ((items.len() - 1 - i) % cap)],
        ),
        pushed_all(Seq::<T>::empty(), 0, cap, items).1 == k % cap,
{
    vstd::arithmetic::div_mod::lemma_small_mod(0nat, cap as nat);
    lemma_ring_models_all(Seq::<T>::empty(), 0, cap, Seq::<T>::empty(), items);
    assert(Seq::<T>::empty() + items =~= items);
    vstd::arithmetic::div_mod::lemma_mod_add_multiples_vanish(k, cap);
}

} // verus!
