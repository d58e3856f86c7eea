//! A stage that records the most recent output bytes in a ring buffer.
use std::collections::VecDeque;
use vstd::prelude::*;
use vstd::slice::slice_to_vec;

use crate::middleware::{chunk_view, MiddlewareTrait};
use crate::text::{decode_lossy, lossy_text};

verus! {

/// The last `cap` bytes of `s`, or all of `s` when it is shorter.
pub open spec fn retained(s: Seq<u8>, cap: nat) -> Seq<u8> {
    if s.len() <= cap {
        s
    } else {
        s.subrange(s.len() - cap, s.len() as int)
    }
}

/// Keeping the last `cap` bytes of `s` and then of that plus `b` is keeping the
/// last `cap` bytes of `s + b`.
pub proof fn lemma_retained_append(s: Seq<u8>, b: Seq<u8>, cap: nat)
    ensures
        retained(retained(s, cap) + b, cap) =~= retained(s + b, cap),
{
    let r = retained(s, cap);
    if s.len() > cap {
        let n = (s + b).len();
        if (r + b).len() > cap {
            assert forall|k: int| 0 <= k < cap implies retained(r + b, cap)[k] == retained(s
                + b, cap)[k] by {
                let i = (r + b).len() - cap + k;
                if i < r.len() {
                    assert((r + b)[i] == s[s.len() - cap + i]);
                } else {
                    assert((r + b)[i] == b[i - r.len()]);
                }
            }
        }
    }
}

/// All the chunks of `pushes`, one after another.
pub open spec fn joined(pushes: Seq<Seq<u8>>) -> Seq<u8>
    decreases pushes.len(),
{
    if pushes.len() == 0 {
        Seq::empty()
    } else {
        joined(pushes.drop_last()) + pushes.last()
    }
}

/// What a buffer of capacity `cap` that held `start` holds after observing
/// each chunk of `pushes` in turn on the output path.
pub open spec fn after_pushes(start: Seq<u8>, cap: nat, pushes: Seq<Seq<u8>>) -> Seq<u8>
    decreases pushes.len(),
{
    if pushes.len() == 0 {
        start
    } else {
        retained(after_pushes(start, cap, pushes.drop_last()) + pushes.last(), cap)
    }
}

/// A buffer that starts empty holds the last `cap` bytes of all it was given;
/// once more than `cap` bytes have gone through, it holds exactly `cap` bytes,
/// the last ones pushed, in order.
pub proof fn law_ring_bound(cap: nat, pushes: Seq<Seq<u8>>)
    ensures
        after_pushes(Seq::empty(), cap, pushes) == retained(joined(pushes), cap),
        joined(pushes).len() > cap ==> {
            let all = joined(pushes);
            &&& after_pushes(Seq::empty(), cap, pushes).len() == cap
            &&& after_pushes(Seq::empty(), cap, pushes) == all.subrange(
                all.len() - cap,
                all.len() as int,
            )
        },
    decreases pushes.len(),
{
    if pushes.len() > 0 {
        law_ring_bound(cap, pushes.drop_last());
        lemma_retained_append(joined(pushes.drop_last()), pushes.last(), cap);
    } else {
        assert(retained(Seq::<u8>::empty(), cap) =~= Seq::<u8>::empty());
    }
}

/// Records a trailing window of the output stream, of at most `capacity`
/// bytes, and forwards both directions unchanged.
pub struct ContextBuffer {
    buffer: VecDeque<u8>,
    capacity: usize,
}

impl View for ContextBuffer {
    type V = Seq<u8>;

    /// The retained bytes, oldest first.
    closed spec fn view(&self) -> Seq<u8> {
        self.buffer@
    }
}

impl ContextBuffer {
    /// The most bytes the buffer keeps.
    pub closed spec fn capacity_spec(&self) -> nat {
        self.capacity as nat
    }

    pub closed spec fn inv(&self) -> bool {
        self.buffer@.len() <= self.capacity
    }

    pub fn new(capacity: usize) -> (r: Self)
        ensures
            r.inv(),
            r.capacity_spec() == capacity,
            r@ == Seq::<u8>::empty(),
    {
        ContextBuffer { buffer: VecDeque::with_capacity(capacity), capacity }
    }

    pub fn capacity(&self) -> (r: usize)
        ensures
            r == self.capacity_spec(),
    {
        self.capacity
    }

    /// The retained bytes, decoded permissively.
    pub fn get_context(&self) -> (r: String)
        ensures
            r@ == lossy_text(self@),
    {
        let mut bytes: Vec<u8> = Vec::new();
        let n = self.buffer.len();
        let mut i: usize = 0;
        while i < n
            invariant
                n == self.buffer@.len(),
                i <= n,
                bytes@ =~= self.buffer@.take(i as int),
            decreases n - i,
        {
            bytes.push(self.buffer[i]);
            i = i + 1;
        }
        assert(bytes@ =~= self@);
        decode_lossy(bytes.as_slice())
    }

    /// Appends `data`, dropping the oldest bytes beyond the capacity.
    fn push_data(&mut self, data: &[u8])
        requires
            old(self).inv(),
        ensures
            final(self).inv(),
            final(self).capacity == old(self).capacity,
            final(self)@ == retained(old(self)@ + data@, old(self).capacity as nat),
    {
        let ghost start = self.buffer@;
        let cap = self.capacity;
        if cap == 0 {
            assert(retained(start + data@, 0) =~= Seq::<u8>::empty());
            return;
        }
        let mut j: usize = 0;
        while j < data.len()
            invariant
                self.capacity == cap,
                cap > 0,
                j <= data@.len(),
                self.buffer@.len() <= cap,
                self.buffer@ == retained(start + data@.take(j as int), cap as nat),
            decreases data@.len() - j,
        {
            let ghost before = self.buffer@;
            if self.buffer.len() >= cap {
                self.buffer.pop_front();
            }
            self.buffer.push_back(data[j]);
            proof {
                let b = seq![data@[j as int]];
                assert(self.buffer@ =~= retained(before + b, cap as nat));
                lemma_retained_append(start + data@.take(j as int), b, cap as nat);
                assert(start + data@.take(j as int) + b =~= start + data@.take(j + 1));
            }
            j = j + 1;
        }
        assert(data@.take(j as int) =~= data@);
    }
}

impl MiddlewareTrait for ContextBuffer {
    open spec fn wf(&self) -> bool {
        self.inv()
    }

    open spec fn output_result(&self, data: Seq<u8>) -> Option<Seq<u8>> {
        Some(data)
    }

    open spec fn output_next(&self, data: Seq<u8>, next: Self) -> bool {
        &&& next.capacity_spec() == self.capacity_spec()
        &&& next@ == retained(self@ + data, self.capacity_spec())
    }

    open spec fn input_result(&self, data: Seq<u8>) -> Option<Seq<u8>> {
        Some(data)
    }

    open spec fn input_next(&self, data: Seq<u8>, next: Self) -> bool {
        &&& next.capacity_spec() == self.capacity_spec()
        &&& next@ == self@
    }

    fn on_process_output(&mut self, data: &[u8]) -> (r: Option<Vec<u8>>) {
        self.push_data(data);
        Some(slice_to_vec(data))
    }

    fn on_user_input(&mut self, data: &[u8]) -> (r: Option<Vec<u8>>) {
        Some(slice_to_vec(data))
    }
}

/// The `k`-th buffer of a run of output callbacks that starts empty holds what
/// the first `k` chunks leave.
proof fn lemma_buffers_follow_pushes(bufs: Seq<ContextBuffer>, pushes: Seq<Seq<u8>>, k: int)
    requires
        bufs.len() == pushes.len() + 1,
        bufs[0]@ == Seq::<u8>::empty(),
        forall|i: int|
            0 <= i < pushes.len() ==> bufs[i].output_next(#[trigger] pushes[i], bufs[i + 1]),
        0 <= k <= pushes.len(),
    ensures
        bufs[k].capacity_spec() == bufs[0].capacity_spec(),
        bufs[k]@ == after_pushes(Seq::empty(), bufs[0].capacity_spec(), pushes.take(k)),
    decreases k,
{
    if k == 0 {
        assert(pushes.take(0) =~= Seq::<Seq<u8>>::empty());
    } else {
        lemma_buffers_follow_pushes(bufs, pushes, k - 1);
        assert(pushes.take(k).drop_last() =~= pushes.take(k - 1));
        assert(bufs[k - 1].output_next(pushes[k - 1], bufs[k]));
    }
}

/// A buffer that starts empty and observes the chunks of `pushes` in turn on
/// the output path (`bufs[i + 1]` being what `bufs[i]` became on chunk `i`)
/// keeps its capacity and ends holding the last `capacity` bytes of all that
/// was pushed; once more than `capacity` bytes have gone through, it holds
/// exactly `capacity` bytes, the last ones pushed, in order.
pub proof fn law_ring_bound_on_buffers(bufs: Seq<ContextBuffer>, pushes: Seq<Seq<u8>>)
    requires
        bufs.len() == pushes.len() + 1,
        bufs[0]@ == Seq::<u8>::empty(),
        forall|i: int|
            0 <= i < pushes.len() ==> bufs[i].output_next(#[trigger] pushes[i], bufs[i + 1]),
    ensures
        ({
            let cap = bufs[0].capacity_spec();
            let all = joined(pushes);
            let last = bufs[pushes.len() as int];
            &&& last.capacity_spec() == cap
            &&& last@ == retained(all, cap)
            &&& all.len() > cap ==> last@.len() == cap && last@ == all.subrange(
                all.len() - cap,
                all.len() as int,
            )
        }),
{
    lemma_buffers_follow_pushes(bufs, pushes, pushes.len() as int);
    assert(pushes.take(pushes.len() as int) =~= pushes);
    law_ring_bound(bufs[0].capacity_spec(), pushes);
}

} // verus!
