//! How work is spread over worker threads.
use vstd::prelude::*;

use crate::llm::error::Error;

verus! {

/// The length of a chunk: `len / n`, rounded up.
pub open spec fn chunk_size(len: nat, n: nat) -> nat {
    if len % n == 0 {
        len / n
    } else {
        len / n + 1
    }
}

/// The elements in chunks of `size`: each element goes to the last chunk until that is full.
pub open spec fn chunked<T>(s: Seq<T>, size: nat) -> Seq<Seq<T>>
    decreases s.len(),
{
    if s.len() == 0 {
        Seq::empty()
    } else {
        let before = chunked(s.drop_last(), size);
        if before.len() > 0 && before.last().len() < size {
            before.drop_last().push(before.last().push(s.last()))
        } else {
            before.push(seq![s.last()])
        }
    }
}

/// What the chunks hold.
pub open spec fn chunk_views<T>(v: Seq<Vec<T>>) -> Seq<Seq<T>> {
    Seq::new(v.len(), |i: int| v[i]@)
}

/// The chunks into which a list is split for `n_chunks` workers.
pub open spec fn split<T>(items: Seq<T>, n_chunks: nat) -> Seq<Seq<T>> {
    if n_chunks == 0 || items.len() == 0 {
        Seq::empty()
    } else {
        let n = if n_chunks < items.len() {
            n_chunks
        } else {
            items.len()
        };
        chunked(items, chunk_size(items.len(), n))
    }
}

/// Splits a list into at most `n_chunks` chunks of the same length; the last one may be shorter.
pub fn split_into_chunks<T: Clone>(items: Vec<T>, n_chunks: usize) -> (out: Vec<Vec<T>>)
    ensures
        chunk_views(out@) == split(items@, n_chunks as nat),
{
    let mut out: Vec<Vec<T>> = Vec::new();
    let len: usize = items.len();
    if n_chunks == 0 || len == 0 {
        assert(chunk_views(out@) =~= Seq::empty());
        return out;
    }
    let n: usize = if n_chunks < len {
        n_chunks
    } else {
        len
    };
    assert(len / n >= 1) by (nonlinear_arith)
        requires
            0 < n <= len,
    ;
    assert(len % n != 0 ==> n >= 2) by (nonlinear_arith)
        requires
            0 < n,
    ;
    assert(n >= 2 ==> len / n < len) by (nonlinear_arith)
        requires
            0 < n <= len,
    ;
    let size: usize = if len % n == 0 {
        len / n
    } else {
        len / n + 1
    };
    let ghost all = items@;
    let mut current: Vec<T> = Vec::new();
    assert(all.take(0) =~= Seq::empty());
    for x in it: items
        invariant
            it.seq() == all,
            size >= 1,
            current@.len() < size,
            current@.len() == 0 ==> chunk_views(out@) =~= chunked(
                all.take(it.index()),
                size as nat,
            ) && (out@.len() > 0 ==> out@.last()@.len() == size),
            current@.len() > 0 ==> chunk_views(out@).push(current@) =~= chunked(
                all.take(it.index()),
                size as nat,
            ),
    {
        let ghost k = it.index();
        assert(all.take(k + 1).drop_last() =~= all.take(k));
        let ghost before = chunked(all.take(k), size as nat);
        let ghost c0 = current@;
        current.push(x);
        proof {
            if c0.len() > 0 {
                assert(before.last() == c0);
                assert(before.drop_last() =~= chunk_views(out@));
            } else {
                assert(before.len() > 0 ==> before.last() == out@.last()@);
                assert(current@ =~= seq![x]);
            }
            assert(chunked(all.take(k + 1), size as nat) =~= chunk_views(out@).push(current@));
        }
        if current.len() == size {
            let ghost o0 = out@;
            let ghost c1 = current@;
            out.push(current);
            current = Vec::new();
            assert(chunk_views(out@) =~= chunk_views(o0).push(c1));
        }
    }
    assert(all.take(all.len() as int) =~= all);
    if current.len() > 0 {
        let ghost o0 = out@;
        let ghost c1 = current@;
        out.push(current);
        assert(chunk_views(out@) =~= chunk_views(o0).push(c1));
    }
    out
}

/// The length of a context, which is at least one. Context lengths fit in thirty-two bits.
pub fn non_zero_ctx(n: usize) -> (r: u32)
    requires
        n <= u32::MAX,
    ensures
        r == if n == 0 {
            1
        } else {
            n as int
        },
        r > 0,
{
    if n == 0 {
        1
    } else {
        n as u32
    }
}

/// How many tokens a batch has room for: as many as there are, and at least sixty-four.
pub fn batch_capacity(tokens: usize) -> (n: usize)
    ensures
        n == if tokens > 64 {
            tokens
        } else {
            64
        },
{
    if tokens > 64 {
        tokens
    } else {
        64
    }
}

/// Refuses a text that has no tokens.
pub fn check_tokens(tokens: usize) -> (r: Result<(), Error>)
    ensures
        r is Ok <==> tokens > 0,
        r is Err ==> r->Err_0 is Tokenize && r->Err_0->Tokenize_0@ == "empty token sequence"@,
{
    if tokens == 0 {
        Err(Error::Tokenize("empty token sequence".to_owned()))
    } else {
        Ok(())
    }
}

/// The score of a document: the first number that the reranker gives.
pub fn first_score(pooled: &[u32]) -> (r: Result<u32, Error>)
    ensures
        match r {
            Ok(bits) => pooled@.len() > 0 && bits == pooled@[0],
            Err(e) => pooled@.len() == 0 && e is Llama && e->Llama_0@
                == "rerank pooled output is empty"@,
        },
{
    if pooled.len() == 0 {
        Err(Error::Llama("rerank pooled output is empty".to_owned()))
    } else {
        Ok(pooled[0])
    }
}

/// Whether a worker came up, by what it reported; without a report its thread is gone.
pub fn spawn_outcome(report: Option<Result<(), Error>>) -> (r: Result<(), Error>)
    ensures
        r == (match report {
            Some(outcome) => outcome,
            None => Err(Error::WorkerClosed),
        }),
{
    match report {
        Some(outcome) => outcome,
        None => Err(Error::WorkerClosed),
    }
}

/// The slots of a batch: what came for each input, or nothing where it failed.
pub open spec fn kept<E>(results: Seq<Result<E, Error>>) -> Seq<Option<E>> {
    Seq::new(
        results.len(),
        |i: int|
            match results[i] {
                Ok(e) => Some(e),
                Err(_) => None,
            },
    )
}

/// The slots of a batch: what came for each input, or nothing where it failed.
pub fn batch_slots<E>(results: Vec<Result<E, Error>>) -> (out: Vec<Option<E>>)
    ensures
        out@ == kept(results@),
{
    let ghost all = results@;
    let mut out: Vec<Option<E>> = Vec::new();
    for r in it: results
        invariant
            it.seq() == all,
            out@ =~= kept(all.take(it.index())),
    {
        assert(all.take(it.index() + 1).drop_last() =~= all.take(it.index()));
        match r {
            Ok(e) => out.push(Some(e)),
            Err(_) => out.push(None),
        }
    }
    assert(all.take(all.len() as int) =~= all);
    out
}

/// The worker that a batch goes to: the batches go round.
pub open spec fn worker_for(batch: int, workers: nat) -> int {
    batch % workers as int
}

fn assign(batches: usize, workers: usize) -> (r: Vec<usize>)
    requires
        workers > 0,
    ensures
        r@.len() == batches,
        forall|i: int|
            0 <= i < batches ==> #[trigger] r@[i] == worker_for(i, workers as nat) && r@[i]
                < workers,
{
    let mut r: Vec<usize> = Vec::new();
    for i in 0..batches
        invariant
            workers > 0,
            r@.len() == i,
            forall|k: int|
                0 <= k < i ==> #[trigger] r@[k] == worker_for(k, workers as nat) && r@[k] < workers,
    {
        r.push(i % workers);
    }
    r
}

/// A pool of embedding workers.
#[derive(Debug)]
pub struct EmbedPool<W> {
    workers: Vec<W>,
    next: usize,
}

impl<W> EmbedPool<W> {
    /// The workers of the pool.
    pub closed spec fn view(&self) -> Seq<W> {
        self.workers@
    }

    /// How many single batches were handed out.
    pub closed spec fn handed_out(&self) -> usize {
        self.next
    }

    /// A pool of the workers.
    pub fn new(workers: Vec<W>) -> (p: Self)
        ensures
            p@ == workers@,
            p.handed_out() == 0,
    {
        EmbedPool { workers, next: 0 }
    }

    /// How many workers there are.
    pub fn worker_count(&self) -> (n: usize)
        ensures
            n == self@.len(),
    {
        self.workers.len()
    }

    /// The worker at a position.
    pub fn worker(&self, i: usize) -> (w: &W)
        requires
            i < self@.len(),
        ensures
            *w == self@[i as int],
    {
        &self.workers[i]
    }

    /// The workers of the pool.
    pub fn into_workers(self) -> (w: Vec<W>)
        ensures
            w@ == self@,
    {
        self.workers
    }

    /// The workers that batches go to, one after the other. A pool without workers takes none.
    pub fn scatter(&self, batches: usize) -> (r: Result<Vec<usize>, Error>)
        ensures
            match r {
                Ok(v) => self@.len() > 0 && v@.len() == batches && forall|i: int|
                    0 <= i < batches ==> #[trigger] v@[i] == worker_for(i, self@.len()) && v@[i]
                        < self@.len(),
                Err(e) => self@.len() == 0 && e is Llama && e->Llama_0@ == "embed pool is empty"@,
            },
    {
        if self.workers.len() == 0 {
            Err(Error::Llama("embed pool is empty".to_owned()))
        } else {
            Ok(assign(batches, self.workers.len()))
        }
    }

    /// The worker that the next single batch goes to. They take turns.
    pub fn submit_to_next(&mut self) -> (r: Result<usize, Error>)
        ensures
            final(self)@ == old(self)@,
            match r {
                Ok(i) => old(self)@.len() > 0 && i == worker_for(
                    old(self).handed_out() as int,
                    old(self)@.len(),
                ) && i < old(self)@.len() && final(self).handed_out() == (if old(self).handed_out()
                    == usize::MAX {
                    0
                } else {
                    old(self).handed_out() + 1
                }),
                Err(e) => old(self)@.len() == 0 && e is Llama && e->Llama_0@
                    == "embed pool is empty"@ && final(self).handed_out() == old(
                    self,
                ).handed_out(),
            },
    {
        let n: usize = self.workers.len();
        if n == 0 {
            return Err(Error::Llama("embed pool is empty".to_owned()));
        }
        let i: usize = self.next % n;
        self.next = if self.next == usize::MAX {
            0
        } else {
            self.next + 1
        };
        Ok(i)
    }
}

/// A pool of reranking workers.
#[derive(Debug)]
pub struct RerankPool<W> {
    workers: Vec<W>,
}

impl<W> RerankPool<W> {
    /// The workers of the pool.
    pub closed spec fn view(&self) -> Seq<W> {
        self.workers@
    }

    /// A pool of the workers.
    pub fn new(workers: Vec<W>) -> (p: Self)
        ensures
            p@ == workers@,
    {
        RerankPool { workers }
    }

    /// How many workers there are.
    pub fn worker_count(&self) -> (n: usize)
        ensures
            n == self@.len(),
    {
        self.workers.len()
    }

    /// The worker at a position.
    pub fn worker(&self, i: usize) -> (w: &W)
        requires
            i < self@.len(),
        ensures
            *w == self@[i as int],
    {
        &self.workers[i]
    }

    /// The workers of the pool.
    pub fn into_workers(self) -> (w: Vec<W>)
        ensures
            w@ == self@,
    {
        self.workers
    }

    /// The workers that batches go to, one after the other. A pool without workers takes none.
    pub fn scatter(&self, batches: usize) -> (r: Result<Vec<usize>, Error>)
        ensures
            match r {
                Ok(v) => self@.len() > 0 && v@.len() == batches && forall|i: int|
                    0 <= i < batches ==> #[trigger] v@[i] == worker_for(i, self@.len()) && v@[i]
                        < self@.len(),
                Err(e) => self@.len() == 0 && e is Llama && e->Llama_0@ == "rerank pool is empty"@,
            },
    {
        if self.workers.len() == 0 {
            Err(Error::Llama("rerank pool is empty".to_owned()))
        } else {
            Ok(assign(batches, self.workers.len()))
        }
    }
}

// Laws.

/// The chunks one after the other.
pub open spec fn flat<T>(chunks: Seq<Seq<T>>) -> Seq<T>
    decreases chunks.len(),
{
    if chunks.len() == 0 {
        Seq::empty()
    } else {
        flat(chunks.drop_last()) + chunks.last()
    }
}

proof fn lemma_chunked<T>(s: Seq<T>, size: nat)
    requires
        size >= 1,
    ensures
        flat(chunked(s, size)) == s,
        s.len() > 0 ==> chunked(s, size).len() > 0,
        forall|i: int|
            0 <= i < chunked(s, size).len() ==> 1 <= (#[trigger] chunked(s, size)[i]).len() <= size,
        forall|i: int|
            0 <= i < chunked(s, size).len() - 1 ==> (#[trigger] chunked(s, size)[i]).len() == size,
        chunked(s, size).len() > 0 ==> s.len() == (chunked(s, size).len() - 1) * size + chunked(
            s,
            size,
        ).last().len(),
    decreases s.len(),
{
    if s.len() > 0 {
        let b = s.drop_last();
        lemma_chunked(b, size);
        let before = chunked(b, size);
        let after = chunked(s, size);
        assert(s =~= b.push(s.last()));
        if before.len() > 0 && before.last().len() < size {
            assert(after.drop_last() =~= before.drop_last());
            assert(after.last() == before.last().push(s.last()));
            assert(flat(after) =~= flat(before).push(s.last()));
            assert forall|i: int| 0 <= i < after.len() - 1 implies (#[trigger] after[i]).len()
                == size by {
                assert(after[i] == before[i]);
            }
            assert forall|i: int| 0 <= i < after.len() implies 1 <= (#[trigger] after[i]).len()
                <= size by {
                if i < after.len() - 1 {
                    assert(after[i] == before[i]);
                }
            }
        } else {
            assert(after.drop_last() =~= before);
            assert(flat(after) =~= flat(before).push(s.last()));
            assert forall|i: int| 0 <= i < after.len() - 1 implies (#[trigger] after[i]).len()
                == size by {
                assert(after[i] == before[i]);
                if i == before.len() - 1 {
                    assert(before[i] == before.last());
                }
            }
            assert forall|i: int| 0 <= i < after.len() implies 1 <= (#[trigger] after[i]).len()
                <= size by {
                if i < after.len() - 1 {
                    assert(after[i] == before[i]);
                }
            }
            if before.len() > 0 {
                assert(before.last() == before[before.len() - 1]);
                assert(before.last().len() == size);
                assert((before.len() - 1) * size + size == before.len() * size)
                    by (nonlinear_arith);
            } else {
                assert(b.len() == 0) by {
                    if b.len() > 0 {
                        assert(before.len() > 0);
                    }
                }
            }
        }
    }
}

/// Splitting loses nothing and keeps the order: the chunks one after the other are the list.
/// There are no more chunks than were asked for, none is empty, and all but the last have the
/// same length, which none exceeds.
pub proof fn law_split_keeps_everything<T>(items: Seq<T>, n_chunks: nat)
    requires
        n_chunks > 0,
    ensures
        flat(split(items, n_chunks)) == items,
        split(items, n_chunks).len() <= n_chunks,
        forall|i: int|
            0 <= i < split(items, n_chunks).len() ==> (#[trigger] split(items, n_chunks)[i]).len()
                > 0,
        forall|i: int, j: int|
            0 <= i < split(items, n_chunks).len() - 1 && 0 <= j < split(items, n_chunks).len()
                ==> (#[trigger] split(items, n_chunks)[j]).len() <= (#[trigger] split(
                items,
                n_chunks,
            )[i]).len(),
{
    if items.len() > 0 {
        let n = if n_chunks < items.len() {
            n_chunks
        } else {
            items.len()
        };
        let len = items.len();
        let size = chunk_size(len, n);
        assert(len / n >= 1) by (nonlinear_arith)
            requires
                0 < n <= len,
        ;
        lemma_chunked(items, size);
        let k = chunked(items, size).len();
        let last = chunked(items, size).last();
        assert(chunked(items, size)[k - 1] == last);
        assert(n * size >= len) by (nonlinear_arith)
            requires
                n > 0,
                size == if len % n == 0 {
                    len / n
                } else {
                    len / n + 1
                },
        ;
        if k > n {
            assert((k - 1) * size >= n * size) by (nonlinear_arith)
                requires
                    k - 1 >= n,
                    size >= 0,
            ;
            assert(last.len() >= 1);
            assert(false);
        }
    }
}

/// Single batches go to the workers in turn.
pub proof fn law_workers_take_turns(handed_out: int, workers: nat)
    requires
        workers > 0,
        handed_out >= 0,
    ensures
        0 <= worker_for(handed_out, workers) < workers,
        worker_for(handed_out + 1, workers) == worker_for(
            worker_for(handed_out, workers) + 1,
            workers,
        ),
{
    vstd::arithmetic::div_mod::lemma_add_mod_noop(handed_out, 1, workers as int);
    vstd::arithmetic::div_mod::lemma_add_mod_noop(handed_out % workers as int, 1, workers as int);
    vstd::arithmetic::div_mod::lemma_mod_twice(handed_out, workers as int);
}

/// No chunk is longer than the number of chunks makes it: one item fewer, and there would be
/// chunks enough.
pub proof fn law_chunks_are_no_longer_than_needed<T>(items: Seq<T>, n_chunks: nat, i: int)
    requires
        n_chunks > 0,
        0 <= i < split(items, n_chunks).len(),
    ensures
        (split(items, n_chunks)[i].len() - 1) * n_chunks < items.len() || split(
            items,
            n_chunks,
        )[i].len() == 1,
{
    let n = if n_chunks < items.len() {
        n_chunks
    } else {
        items.len()
    };
    let len = items.len();
    let size = chunk_size(len, n);
    assert(len / n >= 1) by (nonlinear_arith)
        requires
            0 < n <= len,
    ;
    lemma_chunked(items, size);
    let c = split(items, n_chunks)[i].len();
    assert((size - 1) * n < len) by (nonlinear_arith)
        requires
            0 < n <= len,
            size == if len % n == 0 {
                len / n
            } else {
                len / n + 1
            },
    ;
    if n_chunks < len {
        assert((c - 1) * n_chunks <= (size - 1) * n) by (nonlinear_arith)
            requires
                1 <= c <= size,
                n == n_chunks,
        ;
    } else {
        assert(len % len == 0 && len / len == 1) by (nonlinear_arith)
            requires
                len > 0,
        ;
        assert(size == 1);
    }
}

/// The first batches go to the workers one by one, and then it is the first worker's turn again.
pub proof fn law_turns_begin_with_the_first_worker(batch: int, workers: nat)
    requires
        workers > 0,
        batch >= 0,
    ensures
        batch < workers ==> worker_for(batch, workers) == batch,
        worker_for(batch + workers, workers) == worker_for(batch, workers),
{
    if batch < workers {
        vstd::arithmetic::div_mod::lemma_small_mod(batch as nat, workers);
    }
    vstd::arithmetic::div_mod::lemma_mod_add_multiples_vanish(batch, workers as int);
}

/// Each input has its slot: what came for it, and nothing exactly where it failed.
pub proof fn law_each_input_has_its_slot<E>(results: Seq<Result<E, Error>>, i: int)
    requires
        0 <= i < results.len(),
    ensures
        kept(results).len() == results.len(),
        results[i] matches Ok(e) ==> kept(results)[i] == Some(e),
        results[i] is Err ==> kept(results)[i] is None,
{
}

} // verus!
