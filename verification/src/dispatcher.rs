//! The dispatcher's bookkeeping: the pool of packet buffers, the registry of
//! workers, and the round-robin choice of the worker that carries the next
//! datagram.

use vstd::prelude::*;

verus! {

/// How many datagrams wait for the local socket at most.
pub const RETURN_CH_BUF: usize = 512;

/// How many consecutive datagrams go to the same worker.
pub const CHUNK_SIZE: usize = 12;

/// The largest packet buffer the pool keeps.
pub const PKT_BUF_SIZE: usize = 2048;

/// How many buffers the pool keeps at most.
pub const PKT_POOL_MAX: usize = 100;

/// `Vec::capacity`: how many bytes the buffer holds without reallocating,
/// never fewer than it holds. The value depends on the allocator, so
/// nothing more is stated.
#[verifier::external_body]
fn vec_capacity(v: &Vec<u8>) -> (r: usize)
    ensures
        r >= v@.len(),
{
    v.capacity()
}

/// A pool of empty packet buffers, at most `PKT_POOL_MAX` of them.
pub struct PktPool {
    bufs: Vec<Vec<u8>>,
}

impl PktPool {
    /// The pool keeps at most `PKT_POOL_MAX` buffers, all empty.
    #[verifier::type_invariant]
    spec fn inv(&self) -> bool {
        &&& self.bufs@.len() <= PKT_POOL_MAX
        &&& forall|i: int| 0 <= i < self.bufs@.len() ==> #[trigger] self.bufs@[i]@.len() == 0
    }

    /// How many buffers the pool holds.
    pub closed spec fn size(&self) -> nat {
        self.bufs@.len()
    }

    /// An empty pool.
    pub fn new() -> (p: PktPool)
        ensures
            p.size() == 0,
    {
        PktPool { bufs: Vec::new() }
    }

    /// How many buffers the pool holds; never more than `PKT_POOL_MAX`.
    pub fn len(&self) -> (r: usize)
        ensures
            r == self.size(),
            r <= PKT_POOL_MAX,
    {
        proof {
            use_type_invariant(self);
        }
        self.bufs.len()
    }
}

/// `size` zero bytes.
pub open spec fn zeros(size: nat) -> Seq<u8> {
    Seq::new(size, |i: int| 0u8)
}

/// A buffer of `size` zero bytes, reusing a pooled buffer when the size is
/// at most `PKT_BUF_SIZE` and the pool has one.
pub fn getPktBuf(pool: &mut PktPool, size: usize) -> (r: Vec<u8>)
    ensures
        r@ == zeros(size as nat),
        size <= PKT_BUF_SIZE && old(pool).size() > 0 ==> final(pool).size() == old(pool).size() - 1,
        !(size <= PKT_BUF_SIZE && old(pool).size() > 0) ==> final(pool).size() == old(pool).size(),
{
    proof {
        use_type_invariant(&*pool);
    }
    if size <= PKT_BUF_SIZE {
        let mut bufs: Vec<Vec<u8>> = Vec::new();
        std::mem::swap(&mut bufs, &mut pool.bufs);
        let taken = bufs.pop();
        pool.bufs = bufs;
        match taken {
            Some(buf) => {
                let mut buf = buf;
                assert(buf@.len() == 0);
                buf.resize(size, 0u8);
                assert(buf@ =~= zeros(size as nat));
                return buf;
            },
            None => {},
        }
    }
    let r = vec![0u8; size];
    assert(r@ =~= zeros(size as nat));
    r
}

/// Returns a buffer whose capacity is `capacity` to the pool: it is kept,
/// emptied, when the capacity is at most `PKT_BUF_SIZE` and the pool has
/// room; otherwise it is dropped.
pub fn putPktBufWithCapacity(pool: &mut PktPool, buf: Vec<u8>, capacity: usize)
    ensures
        capacity <= PKT_BUF_SIZE && old(pool).size() < PKT_POOL_MAX ==> final(pool).size() == old(pool).size() + 1,
        !(capacity <= PKT_BUF_SIZE && old(pool).size() < PKT_POOL_MAX) ==> final(pool).size() == old(pool).size(),
{
    proof {
        use_type_invariant(&*pool);
    }
    if capacity <= PKT_BUF_SIZE {
        if pool.bufs.len() < PKT_POOL_MAX {
            let mut buf = buf;
            buf.clear();
            let mut bufs: Vec<Vec<u8>> = Vec::new();
            std::mem::swap(&mut bufs, &mut pool.bufs);
            bufs.push(buf);
            pool.bufs = bufs;
        }
    }
}

/// Returns a buffer to the pool: it is kept, emptied, when its capacity is
/// at most `PKT_BUF_SIZE` and the pool has room; the pool never holds more
/// than `PKT_POOL_MAX` buffers.
pub fn putPktBuf(pool: &mut PktPool, buf: Vec<u8>)
    ensures
        final(pool).size() == old(pool).size() || (old(pool).size() < PKT_POOL_MAX && final(pool).size()
            == old(pool).size() + 1),
        final(pool).size() <= PKT_POOL_MAX,
{
    let capacity = vec_capacity(&buf);
    putPktBufWithCapacity(pool, buf, capacity);
    proof {
        use_type_invariant(&*pool);
    }
}

/// A worker as the dispatcher knows it: its id and where its datagrams go.
pub struct WorkerSlot<S> {
    pub ID: i32,
    pub SendCh: S,
}

/// The workers in `s` whose id is not `id`, in order.
pub open spec fn without_id<S>(s: Seq<WorkerSlot<S>>, id: i32) -> Seq<WorkerSlot<S>>
    decreases s.len(),
{
    if s.len() == 0 {
        Seq::empty()
    } else {
        (if s[0].ID != id {
            seq![s[0]]
        } else {
            Seq::empty()
        }) + without_id(s.drop_first(), id)
    }
}

/// Removing the workers with an id leaves none with it and keeps every other.
pub proof fn lemma_without_id<S>(s: Seq<WorkerSlot<S>>, id: i32)
    ensures
        forall|k: int| 0 <= k < without_id(s, id).len() ==> (#[trigger] without_id(s, id)[k]).ID != id,
        forall|k: int| 0 <= k < s.len() && (#[trigger] s[k]).ID != id ==> without_id(s, id).contains(s[k]),
        without_id(s, id).len() <= s.len(),
    decreases s.len(),
{
    if s.len() > 0 {
        let rest = s.drop_first();
        lemma_without_id(rest, id);
        let head: Seq<WorkerSlot<S>> = if s[0].ID != id { seq![s[0]] } else { Seq::empty() };
        let w = without_id(s, id);
        assert(w == head + without_id(rest, id));
        assert forall|k: int| 0 <= k < w.len() implies (#[trigger] w[k]).ID != id by {
            if k >= head.len() {
                assert(w[k] == without_id(rest, id)[k - head.len()]);
            }
        }
        assert forall|k: int| 0 <= k < s.len() && (#[trigger] s[k]).ID != id implies w.contains(s[k]) by {
            if k == 0 {
                assert(w[0] == s[0]);
            } else {
                assert(s[k] == rest[k - 1]);
                let j = choose|j: int| 0 <= j < without_id(rest, id).len() && without_id(rest, id)[j] == rest[k - 1];
                assert(w[head.len() + j] == s[k]);
            }
        }
    }
}

/// The registered workers, in registration order.
pub struct WorkerRegistry<S> {
    pub workers: Vec<WorkerSlot<S>>,
}

impl<S> WorkerRegistry<S> {
    /// No worker registered.
    pub fn new() -> (r: WorkerRegistry<S>)
        ensures
            r.workers@.len() == 0,
    {
        WorkerRegistry { workers: Vec::new() }
    }

    /// Registers a worker after the others.
    pub fn Register(&mut self, w: WorkerSlot<S>)
        ensures
            final(self).workers@ == old(self).workers@.push(w),
    {
        self.workers.push(w);
    }

    /// Removes every worker with the given id, keeping the others in order.
    pub fn Unregister(&mut self, id: i32)
        ensures
            final(self).workers@ == without_id(old(self).workers@, id),
            forall|k: int| 0 <= k < final(self).workers@.len() ==> (#[trigger] final(self).workers@[k]).ID != id,
            forall|k: int|
                0 <= k < old(self).workers@.len() && (#[trigger] old(self).workers@[k]).ID != id
                    ==> final(self).workers@.contains(old(self).workers@[k]),
    {
        proof {
            lemma_without_id(self.workers@, id);
        }
        let ghost orig = self.workers@;
        let mut rest: Vec<WorkerSlot<S>> = Vec::new();
        std::mem::swap(&mut rest, &mut self.workers);
        let mut kept: Vec<WorkerSlot<S>> = Vec::new();
        while rest.len() > 0
            invariant
                kept@ + without_id(rest@, id) == without_id(orig, id),
            decreases rest@.len(),
        {
            let ghost before = rest@;
            let w = rest.remove(0);
            assert(rest@ =~= before.drop_first());
            if w.ID != id {
                kept.push(w);
                assert(kept@ + without_id(rest@, id) =~= without_id(orig, id));
            } else {
                assert(kept@ + without_id(rest@, id) =~= without_id(orig, id));
            }
        }
        assert(without_id(rest@, id) =~= Seq::<WorkerSlot<S>>::empty());
        assert(kept@ =~= without_id(orig, id));
        self.workers = kept;
    }

    /// How many workers are registered.
    pub fn len(&self) -> (r: usize)
        ensures
            r == self.workers@.len(),
    {
        self.workers.len()
    }
}

/// The worker that carries the datagram with sequence number `counter`:
/// each run of `CHUNK_SIZE` datagrams goes to one worker, the workers taken
/// in turn.
pub fn rrWorkerIndex(counter: usize, workers: usize) -> (r: usize)
    requires
        workers > 0,
    ensures
        r == counter / CHUNK_SIZE % workers,
        r < workers,
{
    counter / CHUNK_SIZE % workers
}

/// Each run of `CHUNK_SIZE` (12) consecutive datagrams, counted from a
/// multiple of 12, goes to one worker, and the worker of a datagram comes
/// round again `12 * workers` datagrams later.
pub proof fn lemma_rr_chunks(counter: int, workers: int)
    requires
        0 <= counter,
        0 < workers,
    ensures
        counter % 12 + 1 < 12 ==> (counter + 1) / 12 % workers == counter / 12 % workers,
        (counter + 12 * workers) / 12 % workers == counter / 12 % workers,
{
    assert(CHUNK_SIZE == 12);
    vstd::arithmetic::div_mod::lemma_fundamental_div_mod(counter, 12);
    if counter % 12 + 1 < 12 {
        vstd::arithmetic::div_mod::lemma_fundamental_div_mod_converse(counter + 1, 12, counter / 12, counter % 12 + 1);
    }
    vstd::arithmetic::div_mod::lemma_fundamental_div_mod_converse(
        counter + 12 * workers,
        12,
        counter / 12 + workers,
        counter % 12,
    );
    vstd::arithmetic::div_mod::lemma_mod_add_multiples_vanish(counter / 12, workers);
}

/// The order in which workers are tried for a datagram that goes first to
/// worker `first` of `workers`: that one, then the next ones around the
/// ring.
pub open spec fn dispatch_order(first: int, workers: int) -> Seq<usize> {
    Seq::new(workers as nat, |i: int| ((first + i) % workers) as usize)
}

/// A position on the ring of `workers`, reduced once.
proof fn lemma_ring_mod(x: int, workers: int)
    requires
        0 <= x < 2 * workers,
    ensures
        x % workers == if x < workers { x } else { x - workers },
{
    if x < workers {
        vstd::arithmetic::div_mod::lemma_small_mod(x as nat, workers as nat);
    } else {
        vstd::arithmetic::div_mod::lemma_small_mod((x - workers) as nat, workers as nat);
        vstd::arithmetic::div_mod::lemma_mod_sub_multiples_vanish(x, workers);
    }
}

/// A datagram is offered to every worker, and to none twice.
pub proof fn lemma_dispatch_order_each_once(first: int, workers: int)
    requires
        0 <= first < workers <= usize::MAX,
    ensures
        dispatch_order(first, workers).len() == workers,
        forall|k: int| 0 <= k < workers ==> #[trigger] dispatch_order(first, workers).contains(k as usize),
        forall|i: int, j: int|
            0 <= i < j < workers ==> #[trigger] dispatch_order(first, workers)[i] != #[trigger] dispatch_order(
                first,
                workers,
            )[j],
{
    let o = dispatch_order(first, workers);
    assert forall|k: int| 0 <= k < workers implies #[trigger] o.contains(k as usize) by {
        let i = if k >= first { k - first } else { k - first + workers };
        lemma_ring_mod(first + i, workers);
        assert(o[i] == k as usize);
    }
    assert forall|i: int, j: int| 0 <= i < j < workers implies #[trigger] o[i] != #[trigger] o[j] by {
        lemma_ring_mod(first + i, workers);
        lemma_ring_mod(first + j, workers);
    }
}

/// The order in which workers are tried for a datagram: the chosen one,
/// then the next ones around the ring.
pub fn dispatchOrder(first: usize, workers: usize) -> (r: Vec<usize>)
    requires
        first < workers,
    ensures
        r@ == dispatch_order(first as int, workers as int),
{
    let mut v: Vec<usize> = Vec::new();
    let mut i: usize = 0;
    while i < workers
        invariant
            first < workers,
            i <= workers,
            v@ == Seq::new(i as nat, |j: int| ((first + j) % (workers as int)) as usize),
        decreases workers - i,
    {
        let next = if i < workers - first { first + i } else { i - (workers - first) };
        proof {
            if i < workers - first {
                vstd::arithmetic::div_mod::lemma_small_mod((first + i) as nat, workers as nat);
            } else {
                vstd::arithmetic::div_mod::lemma_small_mod((first + i - workers) as nat, workers as nat);
                vstd::arithmetic::div_mod::lemma_mod_sub_multiples_vanish((first + i) as int, workers as int);
            }
        }
        v.push(next);
        assert(v@ =~= Seq::new((i + 1) as nat, |j: int| ((first + j) % (workers as int)) as usize));
        i = i + 1;
    }
    v
}

} // verus!
