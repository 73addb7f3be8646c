use vstd::prelude::*;

use std::collections::VecDeque;
use vstd::string::StringExecFns;

use crate::chunking::TextChunker;

verus! {

/// A unit of embedding work: the datasource it belongs to and its text.
#[derive(Debug, Clone)]
pub struct EmbeddingQueueItem {
    pub datasource_id: String,
    pub payload: String,
}

/// Abstract item: datasource id and payload as character sequences.
pub type ItemView = (Seq<char>, Seq<char>);

pub open spec fn item_view(i: EmbeddingQueueItem) -> ItemView {
    (i.datasource_id@, i.payload@)
}

pub open spec fn items_view(s: Seq<EmbeddingQueueItem>) -> Seq<ItemView> {
    s.map_values(|i: EmbeddingQueueItem| item_view(i))
}

/// First-in first-out buffer of embedding work, without a capacity bound:
/// enqueueing never waits, and the consumers set the pace of draining.
pub struct EmbeddingQueue {
    items: VecDeque<EmbeddingQueueItem>,
}

impl View for EmbeddingQueue {
    type V = Seq<ItemView>;

    closed spec fn view(&self) -> Seq<ItemView> {
        items_view(self.items@)
    }
}

impl EmbeddingQueue {
    pub fn new() -> (r: EmbeddingQueue)
        ensures
            r@ == Seq::<ItemView>::empty(),
    {
        EmbeddingQueue { items: VecDeque::new() }
    }

    pub fn len(&self) -> (r: usize)
        ensures
            r == self@.len(),
    {
        self.items.len()
    }

    pub fn is_empty(&self) -> (r: bool)
        ensures
            r == (self@.len() == 0),
    {
        self.items.len() == 0
    }

    /// Adds an item at the back.
    pub fn enqueue(&mut self, item: EmbeddingQueueItem)
        ensures
            final(self)@ == old(self)@.push(item_view(item)),
    {
        self.items.push_back(item);
        assert(self@ =~= old(self)@.push(item_view(item)));
    }

    /// Takes the item at the front.
    pub fn dequeue(&mut self) -> (r: Option<EmbeddingQueueItem>)
        ensures
            old(self)@.len() == 0 ==> r is None && final(self)@ == old(self)@,
            old(self)@.len() > 0 ==> (r matches Some(i) && item_view(i) == old(self)@[0]
                && final(self)@ == old(self)@.drop_first()),
    {
        let r = self.items.pop_front();
        proof {
            if old(self)@.len() > 0 {
                assert(self@ =~= old(self)@.drop_first());
            }
        }
        r
    }

    /// Takes every item, front first.
    pub fn drain(&mut self) -> (r: Vec<EmbeddingQueueItem>)
        ensures
            items_view(r@) == old(self)@,
            final(self)@ == Seq::<ItemView>::empty(),
    {
        let mut out: Vec<EmbeddingQueueItem> = Vec::new();
        while self.items.len() > 0
            invariant
                items_view(out@) + self@ == old(self)@,
            decreases self@.len(),
        {
            let ghost before = self@;
            let ghost out_before = out@;
            match self.dequeue() {
                Some(i) => {
                    out.push(i);
                    assert(items_view(out@) =~= items_view(out_before).push(item_view(i)));
                    assert(items_view(out@) + self@ =~= items_view(out_before) + before);
                },
                None => {},
            }
        }
        assert(self@ =~= Seq::<ItemView>::empty());
        assert(items_view(out@) + self@ =~= items_view(out@));
        out
    }
}

/// The queue after enqueueing `items` in order.
pub open spec fn queue_after(q: Seq<ItemView>, items: Seq<ItemView>) -> Seq<ItemView>
    decreases items.len(),
{
    if items.len() == 0 {
        q
    } else {
        queue_after(q, items.drop_last()).push(items.last())
    }
}

/// How many of the tagged pushes came from producer `p`.
pub open spec fn count_tag(s: Seq<(nat, ItemView)>, p: nat) -> nat
    decreases s.len(),
{
    if s.len() == 0 {
        0
    } else {
        count_tag(s.drop_last(), p) + if s.last().0 == p { 1nat } else { 0nat }
    }
}

/// Sum of the counts of producers `0 .. n`.
pub open spec fn sum_counts(s: Seq<(nat, ItemView)>, n: nat) -> nat
    decreases n,
{
    if n == 0 {
        0
    } else {
        sum_counts(s, (n - 1) as nat) + count_tag(s, (n - 1) as nat)
    }
}

proof fn lemma_queue_after(q: Seq<ItemView>, items: Seq<ItemView>)
    ensures
        queue_after(q, items) == q + items,
    decreases items.len(),
{
    if items.len() > 0 {
        lemma_queue_after(q, items.drop_last());
        assert(q + items.drop_last().push(items.last()) =~= q + items);
        assert(items.drop_last().push(items.last()) =~= items);
    } else {
        assert(q + items =~= q);
    }
}

proof fn lemma_sum_counts_step(s: Seq<(nat, ItemView)>, n: nat)
    requires
        s.len() > 0,
    ensures
        sum_counts(s, n) == sum_counts(s.drop_last(), n) + if s.last().0 < n { 1nat } else { 0nat },
    decreases n,
{
    if n > 0 {
        lemma_sum_counts_step(s, (n - 1) as nat);
    }
}

proof fn lemma_sum_counts_len(s: Seq<(nat, ItemView)>, n: nat)
    requires
        forall|i: int| 0 <= i < s.len() ==> (#[trigger] s[i]).0 < n,
    ensures
        sum_counts(s, n) == s.len(),
    decreases s.len(),
{
    if s.len() > 0 {
        let d = s.drop_last();
        assert forall|i: int| 0 <= i < d.len() implies (#[trigger] d[i]).0 < n by {
            assert(d[i] == s[i]);
        }
        lemma_sum_counts_len(d, n);
        lemma_sum_counts_step(s, n);
        assert(s.last() == s[s.len() - 1]);
    } else {
        lemma_sum_counts_zero(s, n);
    }
}

proof fn lemma_sum_counts_zero(s: Seq<(nat, ItemView)>, n: nat)
    requires
        s.len() == 0,
    ensures
        sum_counts(s, n) == 0,
    decreases n,
{
    if n > 0 {
        lemma_sum_counts_zero(s, (n - 1) as nat);
    }
}

proof fn lemma_sum_counts_uniform(s: Seq<(nat, ItemView)>, n: nat, k: nat)
    requires
        forall|p: nat| p < n ==> #[trigger] count_tag(s, p) == k,
    ensures
        sum_counts(s, n) == n * k,
    decreases n,
{
    if n > 0 {
        lemma_sum_counts_uniform(s, (n - 1) as nat, k);
        assert(count_tag(s, (n - 1) as nat) == k);
        let m = (n - 1) as nat;
        assert(m * k + k == n * k) by (nonlinear_arith)
            requires
                m + 1 == n,
        ;
        assert(sum_counts(s, n) == sum_counts(s, m) + count_tag(s, m));
    } else {
        assert(n * k == 0) by (nonlinear_arith)
            requires
                n == 0,
        ;
    }
}

/// The items of tagged pushes, in order.
pub open spec fn pushed_items(pushes: Seq<(nat, ItemView)>) -> Seq<ItemView> {
    pushes.map_values(|e: (nat, ItemView)| e.1)
}

/// Producers sharing the queue: when `n` producers each enqueue `k` items, in
/// any interleaving (`pushes` tags each item with its producer), the queue
/// then holds exactly those `n * k` items, each once and in the order of
/// enqueueing, so a drain hands each producer's items out in its own order.
pub proof fn lemma_producers_drain(pushes: Seq<(nat, ItemView)>, n: nat, k: nat)
    requires
        forall|i: int| 0 <= i < pushes.len() ==> (#[trigger] pushes[i]).0 < n,
        forall|p: nat| p < n ==> #[trigger] count_tag(pushes, p) == k,
    ensures
        queue_after(Seq::empty(), pushed_items(pushes)).len() == n * k,
        forall|i: int|
            0 <= i < pushes.len() ==> #[trigger] queue_after(
                Seq::empty(),
                pushed_items(pushes),
            )[i] == pushes[i].1,
{
    let items = pushed_items(pushes);
    lemma_queue_after(Seq::empty(), items);
    assert(Seq::<ItemView>::empty() + items =~= items);
    lemma_sum_counts_len(pushes, n);
    lemma_sum_counts_uniform(pushes, n, k);
}

/// A row joined as its fields separated by `", "`.
pub open spec fn joined_fields(f: Seq<String>, n: int) -> Seq<char>
    decreases n,
{
    if n <= 0 {
        Seq::empty()
    } else if n == 1 {
        f[0]@
    } else {
        joined_fields(f, n - 1) + ", "@ + f[n - 1]@
    }
}

/// The items that a tabular source yields: one per row that decoded, in
/// order; rows that failed to decode are skipped.
pub open spec fn row_items(rows: Seq<Result<Vec<String>, String>>, ds: Seq<char>) -> Seq<ItemView>
    decreases rows.len(),
{
    if rows.len() == 0 {
        Seq::empty()
    } else {
        row_items(rows.drop_last(), ds) + match rows.last() {
            Ok(f) => seq![(ds, joined_fields(f@, f@.len() as int))],
            Err(_) => Seq::empty(),
        }
    }
}

fn join_fields(f: &Vec<String>) -> (r: String)
    ensures
        r@ == joined_fields(f@, f@.len() as int),
{
    let mut s = String::new();
    let mut i: usize = 0;
    while i < f.len()
        invariant
            i <= f@.len(),
            s@ == joined_fields(f@, i as int),
        decreases f@.len() - i,
    {
        if i > 0 {
            s.append(", ");
        }
        s.append(f[i].as_str());
        i = i + 1;
    }
    s
}

impl TextChunker {
    /// Fans a tabular source out onto the queue: each row that decoded becomes
    /// one item of `datasource_id`, its fields joined by `", "`; rows that
    /// failed are skipped.
    pub fn extract_text_from_csv(
        &self,
        rows: Vec<Result<Vec<String>, String>>,
        datasource_id: &String,
        queue: &mut EmbeddingQueue,
    )
        ensures
            final(queue)@ == old(queue)@ + row_items(rows@, datasource_id@),
    {
        let mut i: usize = 0;
        while i < rows.len()
            invariant
                i <= rows@.len(),
                queue@ == old(queue)@ + row_items(rows@.subrange(0, i as int), datasource_id@),
            decreases rows@.len() - i,
        {
            let ghost before = queue@;
            assert(rows@.subrange(0, i + 1).drop_last() =~= rows@.subrange(0, i as int));
            match &rows[i] {
                Ok(fields) => {
                    let text = join_fields(fields);
                    queue.enqueue(EmbeddingQueueItem { datasource_id: datasource_id.clone(), payload: text });
                },
                Err(_) => {},
            }
            assert(queue@ =~= old(queue)@ + row_items(rows@.subrange(0, i + 1), datasource_id@));
            i = i + 1;
        }
        assert(rows@.subrange(0, i as int) =~= rows@);
    }
}

} // verus!
