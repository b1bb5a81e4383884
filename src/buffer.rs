//! Bounded FIFO of encoded audio chunks, capped both in chunk count and in bytes.
use std::collections::VecDeque;
use vstd::prelude::*;

verus! {

/// Number of bytes held by a sequence of chunks.
pub open spec fn total_len(chunks: Seq<Seq<u8>>) -> nat
    decreases chunks.len(),
{
    if chunks.len() == 0 {
        0
    } else {
        chunks[0].len() + total_len(chunks.drop_first())
    }
}

/// The bytes of a sequence of chunks, one after the other.
pub open spec fn concat(chunks: Seq<Seq<u8>>) -> Seq<u8>
    decreases chunks.len(),
{
    if chunks.len() == 0 {
        Seq::empty()
    } else {
        chunks[0] + concat(chunks.drop_first())
    }
}

/// Whether a sequence of chunks respects both caps of a buffer.
pub open spec fn within_caps(chunks: Seq<Seq<u8>>, max_chunks: nat, max_bytes: nat) -> bool {
    chunks.len() <= max_chunks && total_len(chunks) <= max_bytes
}

/// The last `k` chunks of `s`.
pub open spec fn last_n(s: Seq<Seq<u8>>, k: int) -> Seq<Seq<u8>> {
    s.subrange(s.len() - k, s.len() as int)
}

/// What a push of `chunk` leaves: the longest suffix of the old contents followed by
/// `chunk` that respects both caps; an oversized chunk leaves the contents as they were.
pub open spec fn push_outcome(
    old_chunks: Seq<Seq<u8>>,
    new_chunks: Seq<Seq<u8>>,
    chunk: Seq<u8>,
    max_chunks: nat,
    max_bytes: nat,
) -> bool {
    if chunk.len() > max_bytes {
        new_chunks == old_chunks
    } else {
        let all = old_chunks.push(chunk);
        &&& new_chunks.len() <= all.len()
        &&& new_chunks == last_n(all, new_chunks.len() as int)
        &&& within_caps(new_chunks, max_chunks, max_bytes)
        &&& new_chunks.len() < all.len() ==> !within_caps(
            last_n(all, new_chunks.len() + 1 as int),
            max_chunks,
            max_bytes,
        )
    }
}

pub proof fn lemma_total_len_push(s: Seq<Seq<u8>>, c: Seq<u8>)
    ensures
        total_len(s.push(c)) == total_len(s) + c.len(),
    decreases s.len(),
{
    reveal_with_fuel(total_len, 2);
    if s.len() == 0 {
        assert(s.push(c)[0] == c);
        assert(s.push(c).drop_first() =~= Seq::<Seq<u8>>::empty());
    } else {
        assert(s.push(c)[0] == s[0]);
        assert(s.push(c).drop_first() =~= s.drop_first().push(c));
        lemma_total_len_push(s.drop_first(), c);
    }
}

pub proof fn lemma_concat_push(s: Seq<Seq<u8>>, c: Seq<u8>)
    ensures
        concat(s.push(c)) == concat(s) + c,
    decreases s.len(),
{
    reveal_with_fuel(concat, 2);
    if s.len() == 0 {
        assert(s.push(c)[0] == c);
        assert(s.push(c).drop_first() =~= Seq::<Seq<u8>>::empty());
        assert(concat(s.push(c)) =~= concat(s) + c);
    } else {
        assert(s.push(c)[0] == s[0]);
        assert(s.push(c).drop_first() =~= s.drop_first().push(c));
        lemma_concat_push(s.drop_first(), c);
        assert(concat(s.push(c)) =~= concat(s) + c);
    }
}

/// Splitting the contents anywhere splits their bytes at the same place: what a read
/// takes from the front, followed by what stays, is what was held.
pub proof fn lemma_concat_split(s: Seq<Seq<u8>>, k: int)
    requires
        0 <= k <= s.len(),
    ensures
        concat(s) == concat(s.subrange(0, k)) + concat(s.subrange(k, s.len() as int)),
    decreases s.len(),
{
    if k == 0 {
        assert(s.subrange(0, 0) =~= Seq::<Seq<u8>>::empty());
        assert(s.subrange(0, s.len() as int) =~= s);
        assert(concat(s) =~= concat(s.subrange(0, k)) + concat(s.subrange(k, s.len() as int)));
    } else {
        lemma_concat_split(s.drop_first(), k - 1);
        assert(s.drop_first().subrange(0, k - 1) =~= s.subrange(0, k).drop_first());
        assert(s.drop_first().subrange(k - 1, s.len() - 1) =~= s.subrange(k, s.len() as int));
        assert(concat(s) =~= concat(s.subrange(0, k)) + concat(s.subrange(k, s.len() as int)));
    }
}

proof fn lemma_total_len_suffix(s: Seq<Seq<u8>>, k: int)
    requires
        0 <= k <= s.len(),
    ensures
        total_len(last_n(s, k)) <= total_len(s),
    decreases s.len(),
{
    if k < s.len() {
        assert(last_n(s.drop_first(), k) =~= last_n(s, k));
        lemma_total_len_suffix(s.drop_first(), k);
    } else {
        assert(last_n(s, k) =~= s);
    }
}

/// A push that fits within both caps evicts nothing: the chunk lands after the old
/// contents, so the bytes held are the old bytes followed by the chunk's. With reads taking
/// bytes from the front (`lemma_concat_split`), bytes leave in the order they came in.
pub proof fn lemma_push_within_caps_appends(
    old_chunks: Seq<Seq<u8>>,
    new_chunks: Seq<Seq<u8>>,
    chunk: Seq<u8>,
    max_chunks: nat,
    max_bytes: nat,
)
    requires
        push_outcome(old_chunks, new_chunks, chunk, max_chunks, max_bytes),
        within_caps(old_chunks.push(chunk), max_chunks, max_bytes),
    ensures
        new_chunks == old_chunks.push(chunk),
        concat(new_chunks) == concat(old_chunks) + chunk,
{
    let all = old_chunks.push(chunk);
    lemma_total_len_push(old_chunks, chunk);
    if new_chunks.len() < all.len() {
        let k = new_chunks.len() + 1 as int;
        lemma_total_len_suffix(all, k);
        assert(!within_caps(last_n(all, k), max_chunks, max_bytes));
    }
    assert(last_n(all, all.len() as int) =~= all);
    lemma_concat_push(old_chunks, chunk);
}

/// A chunk of exactly the byte cap, pushed into a buffer of non-empty chunks that has room
/// for at least one chunk, is all that the buffer holds afterwards.
pub proof fn lemma_full_chunk_stands_alone(
    old_chunks: Seq<Seq<u8>>,
    new_chunks: Seq<Seq<u8>>,
    chunk: Seq<u8>,
    max_chunks: nat,
    max_bytes: nat,
)
    requires
        push_outcome(old_chunks, new_chunks, chunk, max_chunks, max_bytes),
        chunk.len() == max_bytes,
        max_chunks >= 1,
        forall|i: int| 0 <= i < old_chunks.len() ==> (#[trigger] old_chunks[i]).len() > 0,
    ensures
        new_chunks == seq![chunk],
{
    reveal_with_fuel(total_len, 3);
    let all = old_chunks.push(chunk);
    let n = all.len() as int;
    let l = new_chunks.len() as int;
    assert(last_n(all, 1) =~= seq![chunk]);
    assert(seq![chunk].drop_first() =~= Seq::<Seq<u8>>::empty());
    assert(total_len(seq![chunk]) == chunk.len());
    if l == 0 {
        assert(within_caps(last_n(all, 1), max_chunks, max_bytes));
    } else if l >= 2 {
        let two = last_n(all, 2);
        assert(last_n(new_chunks, 2) =~= two);
        lemma_total_len_suffix(new_chunks, 2);
        assert(two[0] == old_chunks[n - 2]);
        assert(two[1] == chunk);
        assert(two.drop_first() =~= seq![chunk]);
        assert(total_len(two) == two[0].len() + chunk.len());
    } else {
        assert(new_chunks =~= seq![chunk]);
    }
}

pub struct CircularBuffer {
    buffer: VecDeque<Vec<u8>>,
    max_size: usize,
    total_bytes: usize,
    max_bytes: usize,
}

impl CircularBuffer {
    /// The chunks held, oldest first.
    pub closed spec fn chunks(&self) -> Seq<Seq<u8>> {
        self.buffer@.map_values(|c: Vec<u8>| c@)
    }

    pub closed spec fn max_chunks(&self) -> nat {
        self.max_size as nat
    }

    pub closed spec fn max_total_bytes(&self) -> nat {
        self.max_bytes as nat
    }

    /// The byte counter matches the chunks, and both caps hold.
    pub closed spec fn wf(&self) -> bool {
        &&& self.total_bytes as nat == total_len(self.chunks())
        &&& within_caps(self.chunks(), self.max_size as nat, self.max_bytes as nat)
    }

    pub fn new(max_size: usize, max_bytes: usize) -> (r: Self)
        ensures
            r.wf(),
            r.chunks() == Seq::<Seq<u8>>::empty(),
            r.max_chunks() == max_size,
            r.max_total_bytes() == max_bytes,
    {
        let r = CircularBuffer { buffer: VecDeque::new(), max_size, total_bytes: 0, max_bytes };
        assert(r.chunks() =~= Seq::<Seq<u8>>::empty());
        r
    }

    /// Appends a chunk, evicting the oldest chunks as the caps require. A chunk larger
    /// than the byte cap is dropped and the buffer stays as it was.
    pub fn push(&mut self, data: Vec<u8>)
        requires
            old(self).wf(),
        ensures
            final(self).wf(),
            final(self).max_chunks() == old(self).max_chunks(),
            final(self).max_total_bytes() == old(self).max_total_bytes(),
            push_outcome(
                old(self).chunks(),
                final(self).chunks(),
                data@,
                old(self).max_chunks(),
                old(self).max_total_bytes(),
            ),
    {
        if data.len() > self.max_bytes {
            return ;
        }
        let ghost all = self.chunks().push(data@);
        let ghost n = all.len() as int;
        let ghost mut start: int = 0;
        let ghost mut evicted_for_bytes = false;
        while self.buffer.len() > 0 && data.len() > self.max_bytes - self.total_bytes
            invariant
                self.total_bytes as nat == total_len(self.chunks()),
                self.total_bytes <= self.max_bytes,
                data.len() <= self.max_bytes,
                0 <= start < n,
                all == old(self).chunks().push(data@),
                n == all.len(),
                self.chunks() == all.subrange(start, n - 1),
                self.max_size == old(self).max_size,
                self.max_bytes == old(self).max_bytes,
                evicted_for_bytes ==> total_len(all.subrange(start - 1, n)) > self.max_bytes,
                !evicted_for_bytes ==> start == 0,
            decreases self.buffer.len(),
        {
            let ghost before = self.chunks();
            let removed = self.buffer.pop_front();
            match removed {
                Some(r) => {
                    assert(before.drop_first() =~= self.chunks());
                    proof {
                        lemma_total_len_push(before, data@);
                        assert(before.push(data@) =~= all.subrange(start, n));
                    }
                    self.total_bytes = self.total_bytes - r.len();
                    proof {
                        start = start + 1;
                        evicted_for_bytes = true;
                    }
                    assert(self.chunks() =~= all.subrange(start, n - 1));
                },
                None => {},
            }
        }
        let ghost before_push = self.chunks();
        let len = data.len();
        self.buffer.push_back(data);
        self.total_bytes = self.total_bytes + len;
        proof {
            lemma_total_len_push(before_push, all[n - 1]);
            assert(self.chunks() =~= before_push.push(all[n - 1]));
            assert(self.chunks() =~= all.subrange(start, n));
        }
        let ghost mut evicted_for_count = false;
        while self.buffer.len() > self.max_size
            invariant
                self.total_bytes as nat == total_len(self.chunks()),
                self.total_bytes <= self.max_bytes,
                0 <= start <= n,
                all == old(self).chunks().push(data@),
                n == all.len(),
                self.chunks() == all.subrange(start, n),
                self.max_size == old(self).max_size,
                self.max_bytes == old(self).max_bytes,
                evicted_for_count ==> all.subrange(start - 1, n).len() > self.max_size,
                !evicted_for_count && evicted_for_bytes ==> total_len(all.subrange(start - 1, n))
                    > self.max_bytes,
                !evicted_for_count && !evicted_for_bytes ==> start == 0,
            decreases self.buffer.len(),
        {
            let ghost before = self.chunks();
            let removed = self.buffer.pop_front();
            match removed {
                Some(r) => {
                    assert(before.drop_first() =~= self.chunks());
                    self.total_bytes = self.total_bytes - r.len();
                    proof {
                        start = start + 1;
                        evicted_for_count = true;
                    }
                    assert(self.chunks() =~= all.subrange(start, n));
                },
                None => {},
            }
        }
        proof {
            assert(last_n(all, n - start) =~= all.subrange(start, n));
            if start > 0 {
                assert(last_n(all, n - start + 1) =~= all.subrange(start - 1, n));
            }
        }
    }

    /// Removes and returns the oldest chunk.
    pub fn pop(&mut self) -> (r: Option<Vec<u8>>)
        requires
            old(self).wf(),
        ensures
            final(self).wf(),
            final(self).max_chunks() == old(self).max_chunks(),
            final(self).max_total_bytes() == old(self).max_total_bytes(),
            old(self).chunks().len() == 0 ==> r is None && final(self).chunks() == old(
                self,
            ).chunks(),
            old(self).chunks().len() > 0 ==> r is Some && r->0@ == old(self).chunks()[0]
                && final(self).chunks() == old(self).chunks().drop_first(),
    {
        let ghost before = self.chunks();
        match self.buffer.pop_front() {
            Some(data) => {
                assert(before.drop_first() =~= self.chunks());
                self.total_bytes = self.total_bytes - data.len();
                Some(data)
            },
            None => None,
        }
    }

    /// Takes chunks from the front until at least `max_size` bytes are gathered or the
    /// buffer runs out, and returns their bytes as one chunk; `None` when it is empty.
    pub fn read_chunk(&mut self, max_size: usize) -> (r: Option<Vec<u8>>)
        requires
            old(self).wf(),
        ensures
            final(self).wf(),
            final(self).max_chunks() == old(self).max_chunks(),
            final(self).max_total_bytes() == old(self).max_total_bytes(),
            old(self).chunks().len() == 0 <==> r is None,
            old(self).chunks().len() == 0 ==> final(self).chunks() == old(self).chunks(),
            r is Some ==> ({
                let old_chunks = old(self).chunks();
                let k = old_chunks.len() - final(self).chunks().len();
                &&& 1 <= k <= old_chunks.len()
                &&& final(self).chunks() == old_chunks.subrange(k, old_chunks.len() as int)
                &&& r->0@ == concat(old_chunks.subrange(0, k))
                &&& k >= 2 ==> total_len(old_chunks.subrange(0, k - 1)) < max_size
                &&& (k == old_chunks.len() || total_len(old_chunks.subrange(0, k)) >= max_size)
            }),
    {
        if self.buffer.len() == 0 {
            return None;
        }
        let ghost old_chunks = self.chunks();
        let ghost n = old_chunks.len() as int;
        let initial_len = self.buffer.len();
        let mut combined: Vec<u8> = Vec::new();
        let mut total_size: usize = 0;
        let mut count: usize = 0;
        let mut done = false;
        proof {
            assert(old_chunks.subrange(0, 0) =~= Seq::<Seq<u8>>::empty());
            assert(old_chunks.subrange(0, n) =~= old_chunks);
        }
        while !done && self.buffer.len() > 0
            invariant
                self.wf(),
                self.max_size == old(self).max_size,
                self.max_bytes == old(self).max_bytes,
                old_chunks == old(self).chunks(),
                n == old_chunks.len(),
                0 <= count <= n,
                self.chunks() == old_chunks.subrange(count as int, n),
                combined@ == concat(old_chunks.subrange(0, count as int)),
                total_size as nat == total_len(old_chunks.subrange(0, count as int)),
                total_size + self.total_bytes == total_len(old_chunks),
                total_len(old_chunks) <= usize::MAX,
                done ==> count >= 1 && total_size >= max_size,
                !done && count >= 1 ==> total_size < max_size,
                count >= 2 ==> total_len(old_chunks.subrange(0, count - 1)) < max_size,
                n == initial_len,
            decreases self.buffer.len(),
        {
            let ghost before = self.chunks();
            match self.buffer.pop_front() {
                Some(chunk) => {
                    proof {
                        assert(before.drop_first() =~= self.chunks());
                        let taken = old_chunks.subrange(0, count as int);
                        assert(old_chunks.subrange(0, count + 1) =~= taken.push(chunk@));
                        lemma_total_len_push(taken, chunk@);
                        lemma_concat_push(taken, chunk@);
                        assert(self.chunks() =~= old_chunks.subrange(count + 1, n));
                    }
                    let mut chunk = chunk;
                    let len = chunk.len();
                    self.total_bytes = self.total_bytes - len;
                    total_size = total_size + len;
                    combined.append(&mut chunk);
                    count = count + 1;
                    if total_size >= max_size {
                        done = true;
                    }
                },
                None => {},
            }
        }
        Some(combined)
    }

    pub fn len(&self) -> (r: usize)
        requires
            self.wf(),
        ensures
            r == self.chunks().len(),
    {
        self.buffer.len()
    }

    pub fn total_bytes(&self) -> (r: usize)
        requires
            self.wf(),
        ensures
            r == total_len(self.chunks()),
    {
        self.total_bytes
    }

    pub fn is_empty(&self) -> (r: bool)
        requires
            self.wf(),
        ensures
            r == (self.chunks().len() == 0),
    {
        self.buffer.len() == 0
    }

    /// Chunk count and total bytes, in that order.
    pub fn info(&self) -> (r: (usize, usize))
        requires
            self.wf(),
        ensures
            r.0 == self.chunks().len(),
            r.1 == total_len(self.chunks()),
    {
        (self.buffer.len(), self.total_bytes)
    }
}

} // verus!
