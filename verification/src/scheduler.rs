//! Spaced repetition scheduling with the Leitner box method.
//!
//! Items are identified by zero-based ids. Every item sits in exactly one of
//! a fixed number of ordered queues ("boxes"); a correct answer promotes an
//! item one box toward mastery, an incorrect answer sends it back to box 0,
//! and the next item to review is taken from the front of the lowest-numbered
//! non-empty box.

use vstd::prelude::*;
use vstd::multiset::Multiset;
use std::collections::VecDeque;

verus! {

/// Leitner box system for spaced repetition.
///
/// Items start in box 0. When answered correctly, they move to the next box.
/// When answered incorrectly, they move back to box 0.
/// Items in lower boxes are reviewed more frequently.
pub struct LeitnerBox {
    /// Number of boxes in the system
    num_boxes: usize,
    /// Each box contains indices of items, front of the queue first
    boxes: Vec<VecDeque<usize>>,
    /// Track which box each item is in
    item_locations: Vec<usize>,
}

/// The box an item moves to after a correct answer: the next box up,
/// capped at the last box.
pub open spec fn promote_target(cur: int, num_boxes: int) -> int {
    if cur + 1 < num_boxes {
        cur + 1
    } else {
        num_boxes - 1
    }
}

/// The given sequence with every occurrence of `x` removed, order kept.
pub open spec fn without(s: Seq<usize>, x: usize) -> Seq<usize> {
    s.filter(|y: usize| y != x)
}

/// How the boxes change when `item_id` leaves box `cur` and is enqueued at
/// the back of box `tgt`: `cur` loses the item, `tgt` gains it at the back,
/// and every other box is untouched.
pub open spec fn moved_between(
    bs: Seq<Seq<usize>>,
    bs2: Seq<Seq<usize>>,
    item_id: usize,
    cur: int,
    tgt: int,
) -> bool {
    &&& bs2.len() == bs.len()
    &&& if cur == tgt {
        bs2[cur] == without(bs[cur], item_id).push(item_id)
    } else {
        bs2[cur] == without(bs[cur], item_id) && bs2[tgt] == bs[tgt].push(item_id)
    }
    &&& forall|b: int| 0 <= b < bs.len() && b != cur && b != tgt ==> #[trigger] bs2[b] == bs[b]
}

/// The total number of item ids held across the given boxes.
pub open spec fn sum_lens(bs: Seq<Seq<usize>>) -> int
    decreases bs.len(),
{
    if bs.len() == 0 {
        0
    } else {
        bs[0].len() + sum_lens(bs.drop_first())
    }
}

/// The item at the front of the first non-empty box, scanning boxes from the
/// lowest upward; `None` when every box is empty.
pub open spec fn spec_next_item(bs: Seq<Seq<usize>>) -> Option<usize>
    decreases bs.len(),
{
    if bs.len() == 0 {
        None
    } else if bs[0].len() > 0 {
        Some(bs[0][0])
    } else {
        spec_next_item(bs.drop_first())
    }
}

/// Everything the boxes hold, as one multiset of item ids.
pub open spec fn contents_ms(bs: Seq<Seq<usize>>) -> Multiset<usize>
    decreases bs.len(),
{
    if bs.len() == 0 {
        Multiset::empty()
    } else {
        bs[0].to_multiset().add(contents_ms(bs.drop_first()))
    }
}

/// How many of the boxes contain the id `x`.
pub open spec fn holders(bs: Seq<Seq<usize>>, x: usize) -> int
    decreases bs.len(),
{
    if bs.len() == 0 {
        0
    } else {
        (if bs[0].contains(x) {
            1int
        } else {
            0int
        }) + holders(bs.drop_first(), x)
    }
}

proof fn lemma_sum_lens_nonneg(bs: Seq<Seq<usize>>)
    ensures
        sum_lens(bs) >= 0,
    decreases bs.len(),
{
    if bs.len() > 0 {
        lemma_sum_lens_nonneg(bs.drop_first());
    }
}

proof fn lemma_sum_lens_le(bs: Seq<Seq<usize>>, b: int)
    requires
        0 <= b < bs.len(),
    ensures
        bs[b].len() <= sum_lens(bs),
    decreases bs.len(),
{
    if b == 0 {
        lemma_sum_lens_nonneg(bs.drop_first());
    } else {
        lemma_sum_lens_le(bs.drop_first(), b - 1);
    }
}

proof fn lemma_sum_lens_pair(bs: Seq<Seq<usize>>, i: int, j: int)
    requires
        0 <= i < j < bs.len(),
    ensures
        bs[i].len() + bs[j].len() <= sum_lens(bs),
    decreases bs.len(),
{
    if i == 0 {
        lemma_sum_lens_le(bs.drop_first(), j - 1);
    } else {
        lemma_sum_lens_pair(bs.drop_first(), i - 1, j - 1);
    }
}

proof fn lemma_sum_lens_single(bs: Seq<Seq<usize>>, k: int)
    requires
        0 <= k < bs.len(),
        forall|c: int| 0 <= c < bs.len() && c != k ==> (#[trigger] bs[c]).len() == 0,
    ensures
        sum_lens(bs) == bs[k].len(),
    decreases bs.len(),
{
    let tail = bs.drop_first();
    if k == 0 {
        assert forall|c: int| 0 <= c < tail.len() implies (#[trigger] tail[c]).len() == 0 by {
            assert(tail[c] == bs[c + 1]);
        }
        lemma_sum_lens_zero(tail);
    } else {
        assert forall|c: int| 0 <= c < tail.len() && c != k - 1 implies (#[trigger] tail[c]).len()
            == 0 by {
            assert(tail[c] == bs[c + 1]);
        }
        lemma_sum_lens_single(tail, k - 1);
        assert(bs[0].len() == 0);
    }
}

proof fn lemma_sum_lens_zero(bs: Seq<Seq<usize>>)
    requires
        forall|c: int| 0 <= c < bs.len() ==> (#[trigger] bs[c]).len() == 0,
    ensures
        sum_lens(bs) == 0,
    decreases bs.len(),
{
    if bs.len() > 0 {
        let tail = bs.drop_first();
        assert forall|c: int| 0 <= c < tail.len() implies (#[trigger] tail[c]).len() == 0 by {
            assert(tail[c] == bs[c + 1]);
        }
        lemma_sum_lens_zero(tail);
    }
}

proof fn lemma_sum_lens_split(bs: Seq<Seq<usize>>, k: int)
    requires
        0 <= k <= bs.len(),
    ensures
        sum_lens(bs) == sum_lens(bs.take(k)) + sum_lens(bs.skip(k)),
    decreases k,
{
    if k == 0 {
        assert(bs.take(0).len() == 0);
        assert(bs.skip(0) =~= bs);
    } else {
        let tail = bs.drop_first();
        assert(bs.take(k)[0] == bs[0]);
        assert(bs.take(k).drop_first() =~= tail.take(k - 1));
        assert(bs.skip(k) =~= tail.skip(k - 1));
        lemma_sum_lens_split(tail, k - 1);
    }
}

proof fn lemma_contents_ms_count(bs: Seq<Seq<usize>>, x: usize)
    requires
        forall|b: int| 0 <= b < bs.len() ==> (#[trigger] bs[b]).no_duplicates(),
    ensures
        contents_ms(bs).count(x) == holders(bs, x),
    decreases bs.len(),
{
    broadcast use vstd::seq_lib::group_to_multiset_ensures;

    if bs.len() > 0 {
        let head = bs[0];
        let tail = bs.drop_first();
        assert forall|b: int| 0 <= b < tail.len() implies (#[trigger] tail[b]).no_duplicates() by {
            assert(tail[b] == bs[b + 1]);
        }
        lemma_contents_ms_count(tail, x);
        if head.contains(x) {
            head.lemma_multiset_has_no_duplicates();
            assert(head.to_multiset().count(x) == 1);
        } else {
            assert(head.to_multiset().count(x) == 0);
        }
    }
}

proof fn lemma_holders_single(bs: Seq<Seq<usize>>, x: usize, h: int)
    requires
        0 <= h < bs.len(),
        bs[h].contains(x),
        forall|c: int| 0 <= c < bs.len() && c != h ==> !(#[trigger] bs[c]).contains(x),
    ensures
        holders(bs, x) == 1,
    decreases bs.len(),
{
    let tail = bs.drop_first();
    if h == 0 {
        assert forall|c: int| 0 <= c < tail.len() implies !(#[trigger] tail[c]).contains(x) by {
            assert(tail[c] == bs[c + 1]);
        }
        lemma_holders_none(tail, x);
    } else {
        assert forall|c: int| 0 <= c < tail.len() && c != h - 1 implies !(#[trigger] tail[c]).contains(
            x,
        ) by {
            assert(tail[c] == bs[c + 1]);
        }
        assert(tail[h - 1] == bs[h]);
        lemma_holders_single(tail, x, h - 1);
        assert(!bs[0].contains(x));
    }
}

proof fn lemma_holders_none(bs: Seq<Seq<usize>>, x: usize)
    requires
        forall|c: int| 0 <= c < bs.len() ==> !(#[trigger] bs[c]).contains(x),
    ensures
        holders(bs, x) == 0,
    decreases bs.len(),
{
    if bs.len() > 0 {
        let tail = bs.drop_first();
        assert forall|c: int| 0 <= c < tail.len() implies !(#[trigger] tail[c]).contains(x) by {
            assert(tail[c] == bs[c + 1]);
        }
        lemma_holders_none(tail, x);
    }
}

proof fn lemma_contents_ms_len(bs: Seq<Seq<usize>>)
    ensures
        contents_ms(bs).len() == sum_lens(bs),
    decreases bs.len(),
{
    broadcast use vstd::seq_lib::group_to_multiset_ensures;

    if bs.len() > 0 {
        lemma_contents_ms_len(bs.drop_first());
        lemma_sum_lens_nonneg(bs.drop_first());
    }
}

/// Total conservation: in a well-formed scheduler the boxes together hold
/// each item id exactly once, so the box lengths always sum to the number
/// of items. No sequence of transitions can lose or duplicate an item.
pub proof fn lemma_total_conservation(s: LeitnerBox)
    requires
        s.wf(),
    ensures
        sum_lens(s.box_contents()) == s.spec_num_items(),
{
    broadcast use vstd::seq_lib::group_to_multiset_ensures;

    let bs = s.box_contents();
    let n = s.spec_num_items();
    assert(vstd::std_specs::vec::spec_vec_len(&s.item_locations) == s.item_locations@.len());
    assert(n <= usize::MAX);
    let ids = Seq::new(n as nat, |i: int| i as usize);
    assert(ids.no_duplicates());
    assert forall|x: usize| contents_ms(bs).count(x) == ids.to_multiset().count(x) by {
        lemma_contents_ms_count(bs, x);
        if (x as int) < n {
            assert(bs[s.spec_loc(x as int)].contains(x));
            assert forall|c: int|
                0 <= c < bs.len() && c != s.spec_loc(x as int) implies !(#[trigger] bs[c]).contains(
                x,
            ) by {
                if bs[c].contains(x) {
                    let j = choose|j: int| 0 <= j < bs[c].len() && bs[c][j] == x;
                    assert(s.spec_loc(bs[c][j] as int) == c);
                }
            }
            lemma_holders_single(bs, x, s.spec_loc(x as int));
            assert(ids[x as int] == x);
            assert(ids.contains(x));
            ids.lemma_multiset_has_no_duplicates();
        } else {
            assert forall|c: int| 0 <= c < bs.len() implies !(#[trigger] bs[c]).contains(x) by {
                if bs[c].contains(x) {
                    let j = choose|j: int| 0 <= j < bs[c].len() && bs[c][j] == x;
                    assert(bs[c][j] < s.spec_num_items());
                }
            }
            lemma_holders_none(bs, x);
            if ids.contains(x) {
                let j = choose|j: int| 0 <= j < ids.len() && ids[j] == x;
                assert(false);
            }
            assert(ids.to_multiset().count(x) == 0);
        }
    }
    assert(contents_ms(bs) =~= ids.to_multiset());
    lemma_contents_ms_len(bs);
    assert(ids.to_multiset().len() == ids.len());
}

/// Removing one value keeps a sequence duplicate-free, keeps every other
/// value, and never grows the sequence.
proof fn lemma_without_properties(s: Seq<usize>, x: usize)
    requires
        s.no_duplicates(),
    ensures
        without(s, x).no_duplicates(),
        forall|y: usize| #[trigger] without(s, x).contains(y) <==> (s.contains(y) && y != x),
        without(s, x).len() <= s.len(),
    decreases s.len(),
{
    broadcast use Seq::lemma_filter_push, Seq::lemma_filter_len, vstd::seq_lib::lemma_seq_contains_after_push;

    let pred = |y: usize| y != x;
    if s.len() == 0 {
        assert(without(s, x) =~= Seq::<usize>::empty());
        assert forall|y: usize| #[trigger] without(s, x).contains(y) implies (s.contains(y) && y
            != x) by {}
    } else {
        let t = s.drop_last();
        let l = s.last();
        assert(t.push(l) =~= s);
        assert(t.no_duplicates());
        lemma_without_properties(t, x);
        assert(s.filter(pred) == t.push(l).filter(pred));
        if l != x {
            let w = without(t, x);
            assert(without(s, x) == w.push(l));
            assert(!t.contains(l));
            assert(!w.contains(l));
            assert forall|i: int, j: int| 0 <= i < j < w.push(l).len() implies w.push(l)[i] != w.push(
                l,
            )[j] by {
                if j == w.push(l).len() - 1 {
                    assert(w[i] == w.push(l)[i]);
                    assert(w.contains(w[i]));
                }
            }
            assert forall|y: usize| #[trigger] without(s, x).contains(y) <==> (s.contains(y) && y
                != x) by {
                assert(without(s, x).contains(y) <==> (l == y || w.contains(y)));
                assert(s.contains(y) <==> (l == y || t.contains(y)));
            }
        } else {
            assert(without(s, x) == without(t, x));
            assert forall|y: usize| #[trigger] without(s, x).contains(y) <==> (s.contains(y) && y
                != x) by {
                assert(s.contains(y) <==> (l == y || t.contains(y)));
            }
        }
    }
}

/// Remove every occurrence of `x` from the queue, keeping the order of the
/// remaining items.
fn deque_remove_value(q: &mut VecDeque<usize>, x: usize)
    ensures
        final(q)@ == without(old(q)@, x),
{
    let len = q.len();
    let mut i: usize = 0;
    while i < len
        invariant
            i <= len,
            len == old(q)@.len(),
            q@ == old(q)@.subrange(i as int, len as int) + without(
                old(q)@.subrange(0, i as int),
                x,
            ),
        decreases len - i,
    {
        proof {
            assert(q@.len() > 0) by {
                assert(old(q)@.subrange(i as int, len as int).len() == len - i);
            }
            assert(q@[0] == old(q)@[i as int]);
        }
        let v = q.pop_front().unwrap();
        if v != x {
            q.push_back(v);
        }
        i += 1;
        proof {
            broadcast use Seq::lemma_filter_push;

            let s = old(q)@;
            let prev = s.subrange(0, i - 1);
            assert(s.subrange(0, i as int) =~= prev.push(s[i - 1]));
            assert(without(s.subrange(0, i as int), x) == if s[i - 1] != x {
                without(prev, x).push(s[i - 1])
            } else {
                without(prev, x)
            });
            assert(q@ =~= s.subrange(i as int, len as int) + without(
                s.subrange(0, i as int),
                x,
            ));
        }
    }
    proof {
        assert(old(q)@.subrange(0, len as int) =~= old(q)@);
        assert(final(q)@ =~= without(old(q)@, x));
    }
}

impl LeitnerBox {
    /// Number of boxes.
    pub closed spec fn spec_num_boxes(self) -> int {
        self.num_boxes as int
    }

    /// Number of items managed by the scheduler.
    pub closed spec fn spec_num_items(self) -> int {
        self.item_locations@.len() as int
    }

    /// The contents of each box: item ids in queue order, front first.
    pub closed spec fn box_contents(self) -> Seq<Seq<usize>> {
        self.boxes@.map_values(|q: VecDeque<usize>| q@)
    }

    /// The box the given item currently sits in.
    pub closed spec fn spec_loc(self, id: int) -> int {
        self.item_locations@[id] as int
    }

    /// Structural well-formedness: the reverse index and the boxes agree,
    /// every item id sits in exactly one box, and no box holds duplicates.
    pub closed spec fn wf(self) -> bool {
        &&& self.boxes@.len() == self.num_boxes
        &&& self.num_boxes >= 1
        &&& forall|id: int|
            0 <= id < self.spec_num_items() ==> 0 <= #[trigger] self.spec_loc(id)
                < self.spec_num_boxes()
        &&& forall|b: int, j: int|
            0 <= b < self.spec_num_boxes() && 0 <= j < self.box_contents()[b].len() ==> {
                &&& (#[trigger] self.box_contents()[b][j]) < self.spec_num_items()
                &&& self.spec_loc(self.box_contents()[b][j] as int) == b
            }
        &&& forall|b: int|
            0 <= b < self.spec_num_boxes() ==> (#[trigger] self.box_contents()[b]).no_duplicates()
        &&& forall|id: int|
            0 <= id < self.spec_num_items()
                ==> (#[trigger] self.box_contents()[self.spec_loc(id)]).contains(id as usize)
    }

    /// Create a new Leitner box system with the given number of boxes,
    /// placing every item id in box 0 in ascending order.
    pub fn new(num_boxes: usize, num_items: usize) -> (r: Self)
        requires
            num_boxes >= 1,
        ensures
            r.wf(),
            r.spec_num_boxes() == num_boxes,
            r.spec_num_items() == num_items,
            forall|id: int| 0 <= id < num_items ==> #[trigger] r.spec_loc(id) == 0,
            r.box_contents()[0] == Seq::new(num_items as nat, |i: int| i as usize),
            forall|b: int| 1 <= b < num_boxes ==> #[trigger] r.box_contents()[b] =~= Seq::<
                usize,
            >::empty(),
    {
        let mut boxes: Vec<VecDeque<usize>> = Vec::new();
        let mut b: usize = 0;
        while b < num_boxes
            invariant
                b <= num_boxes,
                boxes@.len() == b,
                forall|k: int| 0 <= k < b ==> (#[trigger] boxes@[k])@ =~= Seq::<usize>::empty(),
            decreases num_boxes - b,
        {
            boxes.push(VecDeque::new());
            b += 1;
        }
        let mut first: VecDeque<usize> = VecDeque::new();
        let mut i: usize = 0;
        while i < num_items
            invariant
                i <= num_items,
                first@ =~= Seq::new(i as nat, |k: int| k as usize),
            decreases num_items - i,
        {
            first.push_back(i);
            i += 1;
            proof {
                assert(first@ =~= Seq::new(i as nat, |k: int| k as usize));
            }
        }
        boxes.set(0, first);
        let item_locations: Vec<usize> = vec![0usize; num_items];
        let r = LeitnerBox { num_boxes, boxes, item_locations };
        proof {
            let ids = Seq::new(num_items as nat, |k: int| k as usize);
            assert(r.box_contents()[0] =~= ids);
            assert forall|id: int| 0 <= id < num_items implies (#[trigger] r.box_contents()[r.spec_loc(id)]).contains(id as usize) by {
                assert(r.spec_loc(id) == 0);
                assert(ids[id] == id as usize);
            }
        }
        r
    }

    /// Record a correct answer for an item: it moves to the back of the next
    /// box up (or is re-enqueued at the back of the last box when already
    /// mastered). Out-of-range ids are ignored.
    pub fn answer_correct(&mut self, item_id: usize)
        requires
            old(self).wf(),
        ensures
            final(self).wf(),
            final(self).spec_num_boxes() == old(self).spec_num_boxes(),
            final(self).spec_num_items() == old(self).spec_num_items(),
            item_id >= old(self).spec_num_items() ==> *final(self) == *old(self),
            item_id < old(self).spec_num_items() ==> {
                let cur = old(self).spec_loc(item_id as int);
                let tgt = promote_target(cur, old(self).spec_num_boxes());
                &&& final(self).spec_loc(item_id as int) == tgt
                &&& forall|id: int|
                    0 <= id < old(self).spec_num_items() && id != item_id
                        ==> #[trigger] final(self).spec_loc(id) == old(self).spec_loc(id)
                &&& moved_between(
                    old(self).box_contents(),
                    final(self).box_contents(),
                    item_id,
                    cur,
                    tgt,
                )
            },
    {
        if item_id >= self.item_locations.len() {
            return ;
        }
        proof {
            assert(0 <= old(self).spec_loc(item_id as int) < old(self).spec_num_boxes());
        }
        let cur = self.item_locations[item_id];
        let next_box = if cur + 1 < self.num_boxes {
            cur + 1
        } else {
            self.num_boxes - 1
        };
        self.relocate(item_id, next_box);
    }

    /// Record an incorrect answer for an item: it moves to the back of box 0,
    /// whatever box it was in. Out-of-range ids are ignored.
    pub fn answer_incorrect(&mut self, item_id: usize)
        requires
            old(self).wf(),
        ensures
            final(self).wf(),
            final(self).spec_num_boxes() == old(self).spec_num_boxes(),
            final(self).spec_num_items() == old(self).spec_num_items(),
            item_id >= old(self).spec_num_items() ==> *final(self) == *old(self),
            item_id < old(self).spec_num_items() ==> {
                let cur = old(self).spec_loc(item_id as int);
                &&& final(self).spec_loc(item_id as int) == 0
                &&& forall|id: int|
                    0 <= id < old(self).spec_num_items() && id != item_id
                        ==> #[trigger] final(self).spec_loc(id) == old(self).spec_loc(id)
                &&& moved_between(
                    old(self).box_contents(),
                    final(self).box_contents(),
                    item_id,
                    cur,
                    0,
                )
            },
    {
        if item_id >= self.item_locations.len() {
            return ;
        }
        self.relocate(item_id, 0);
    }

    /// Move an item from its current box to the back of the target box.
    fn relocate(&mut self, item_id: usize, target: usize)
        requires
            old(self).wf(),
            item_id < old(self).spec_num_items(),
            target < old(self).spec_num_boxes(),
        ensures
            final(self).wf(),
            final(self).spec_num_boxes() == old(self).spec_num_boxes(),
            final(self).spec_num_items() == old(self).spec_num_items(),
            final(self).spec_loc(item_id as int) == target,
            forall|id: int|
                0 <= id < old(self).spec_num_items() && id != item_id
                    ==> #[trigger] final(self).spec_loc(id) == old(self).spec_loc(id),
            moved_between(
                old(self).box_contents(),
                final(self).box_contents(),
                item_id,
                old(self).spec_loc(item_id as int),
                target as int,
            ),
    {
        let _num_items: usize = self.item_locations.len();
        proof {
            assert(0 <= old(self).spec_loc(item_id as int) < old(self).spec_num_boxes());
            assert(forall|id: int|
                0 <= id < old(self).spec_num_items() ==> id == (#[trigger] (id as usize)) as int);
        }
        let cur = self.item_locations[item_id];
        let ghost bs0 = self.box_contents();
        let q = &mut self.boxes[cur];
        deque_remove_value(q, item_id);
        let ghost bs1 = self.box_contents();
        proof {
            assert(bs1 =~= bs0.update(cur as int, without(bs0[cur as int], item_id)));
        }
        let q2 = &mut self.boxes[target];
        q2.push_back(item_id);
        self.item_locations.set(item_id, target);
        proof {
            let bs2 = self.box_contents();
            assert(bs2 =~= bs1.update(target as int, bs1[target as int].push(item_id)));
            lemma_without_properties(bs0[cur as int], item_id);
            assert forall|id: int| 0 <= id < self.spec_num_items() implies 0 <= #[trigger] self.spec_loc(
                id,
            ) < self.spec_num_boxes() by {
                if id != item_id {
                    assert(self.spec_loc(id) == old(self).spec_loc(id));
                }
            }
            assert forall|b: int, j: int|
                0 <= b < self.spec_num_boxes() && 0 <= j < self.box_contents()[b].len() implies {
                &&& (#[trigger] self.box_contents()[b][j]) < self.spec_num_items()
                &&& self.spec_loc(self.box_contents()[b][j] as int) == b
            } by {
                let y = self.box_contents()[b][j];
                if b == target as int && j == self.box_contents()[b].len() - 1 {
                    assert(y == item_id);
                } else if b == cur as int && b != target as int {
                    assert(without(bs0[b], item_id).contains(y));
                    assert(old(self).box_contents()[b].contains(y) && y != item_id);
                    let k = choose|k: int|
                        0 <= k < bs0[b].len() && old(self).box_contents()[b][k] == y;
                    assert(old(self).spec_loc(y as int) == b);
                } else if b == cur as int && b == target as int {
                    assert(without(bs0[b], item_id).contains(y));
                    assert(old(self).box_contents()[b].contains(y) && y != item_id);
                    assert(old(self).spec_loc(y as int) == b);
                } else if b == target as int {
                    assert(old(self).box_contents()[b][j] == y);
                    assert(old(self).spec_loc(y as int) == b);
                } else {
                    assert(old(self).box_contents()[b][j] == y);
                    assert(old(self).spec_loc(y as int) == b);
                }
            }
            assert forall|b: int| 0 <= b < self.spec_num_boxes() implies (
            #[trigger] self.box_contents()[b]).no_duplicates() by {
                broadcast use vstd::seq_lib::lemma_seq_contains_after_push;

                if b == target as int {
                    let before = bs1[b];
                    assert(before.no_duplicates()) by {
                        if b != cur as int {
                            assert(before == old(self).box_contents()[b]);
                        }
                    }
                    assert(!before.contains(item_id)) by {
                        if b == cur as int {
                            assert(!without(bs0[b], item_id).contains(item_id));
                        } else {
                            if old(self).box_contents()[b].contains(item_id) {
                                let k = choose|k: int|
                                    0 <= k < bs0[b].len() && bs0[b][k] == item_id;
                                assert(old(self).spec_loc(item_id as int) == b);
                                assert(false);
                            }
                        }
                    }
                    let after = before.push(item_id);
                    assert(self.box_contents()[b] == after);
                    assert forall|i: int, j: int| 0 <= i < j < after.len() implies after[i]
                        != after[j] by {
                        if j == after.len() - 1 {
                            assert(before[i] == after[i]);
                            assert(before.contains(before[i]));
                        }
                    }
                } else if b == cur as int {
                    assert(self.box_contents()[b] == without(bs0[b], item_id));
                } else {
                    assert(self.box_contents()[b] == old(self).box_contents()[b]);
                }
            }
            assert forall|id: int| 0 <= id < self.spec_num_items() implies (
            #[trigger] self.box_contents()[self.spec_loc(id)]).contains(id as usize) by {
                broadcast use vstd::seq_lib::lemma_seq_contains_after_push;

                let l = self.spec_loc(id);
                if id == item_id {
                    assert(l == target as int);
                    assert(self.box_contents()[l].contains(item_id));
                } else {
                    assert(l == old(self).spec_loc(id));
                    let ob = old(self).box_contents()[l];
                    assert(ob.contains(id as usize));
                    if l == cur as int {
                        assert(without(bs0[l], item_id).contains(id as usize));
                        if l == target as int {
                            assert(self.box_contents()[l] == without(bs0[l], item_id).push(
                                item_id,
                            ));
                        } else {
                            assert(self.box_contents()[l] == without(bs0[l], item_id));
                        }
                    } else if l == target as int {
                        assert(self.box_contents()[l] == ob.push(item_id));
                    } else {
                        assert(self.box_contents()[l] == ob);
                    }
                }
            }
        }
    }

    /// The next item to review: the front of the first non-empty box,
    /// scanning boxes from the lowest upward. `None` only when every box
    /// is empty.
    pub fn get_next_item(&self) -> (r: Option<usize>)
        ensures
            r == spec_next_item(self.box_contents()),
    {
        let nb = self.boxes.len();
        let mut b: usize = 0;
        proof {
            assert(self.box_contents().skip(0) =~= self.box_contents());
        }
        while b < nb
            invariant
                b <= nb,
                nb == self.boxes@.len(),
                spec_next_item(self.box_contents()) == spec_next_item(
                    self.box_contents().skip(b as int),
                ),
            decreases nb - b,
        {
            if self.boxes[b].len() > 0 {
                proof {
                    let tail = self.box_contents().skip(b as int);
                    assert(tail[0] == self.box_contents()[b as int]);
                }
                return Some(self.boxes[b][0]);
            }
            b += 1;
            proof {
                let t1 = self.box_contents().skip(b - 1);
                assert(t1[0] == self.box_contents()[b - 1]);
                assert(t1[0].len() == 0);
                assert(t1.drop_first() =~= self.box_contents().skip(b as int));
            }
        }
        proof {
            assert(self.box_contents().skip(nb as int).len() == 0);
        }
        None
    }

    /// The number of items currently in each box, in box order.
    pub fn get_box_counts(&self) -> (r: Vec<usize>)
        ensures
            r@.len() == self.box_contents().len(),
            forall|b: int| 0 <= b < r@.len() ==> #[trigger] r@[b] == self.box_contents()[b].len(),
    {
        let nb = self.boxes.len();
        let mut counts: Vec<usize> = Vec::new();
        let mut b: usize = 0;
        while b < nb
            invariant
                b <= nb,
                nb == self.boxes@.len(),
                counts@.len() == b,
                forall|k: int| 0 <= k < b ==> #[trigger] counts@[k] == self.box_contents()[k].len(),
            decreases nb - b,
        {
            counts.push(self.boxes[b].len());
            b += 1;
        }
        counts
    }

    /// Total number of items across all boxes; by conservation this always
    /// equals the number of items the scheduler was built with.
    pub fn remaining_items(&self) -> (r: usize)
        requires
            self.wf(),
        ensures
            r == self.spec_num_items(),
    {
        proof {
            lemma_total_conservation(*self);
            assert(vstd::std_specs::vec::spec_vec_len(&self.item_locations)
                == self.item_locations@.len());
        }
        let nb = self.boxes.len();
        let mut total: usize = 0;
        let mut b: usize = 0;
        while b < nb
            invariant
                b <= nb,
                nb == self.boxes@.len(),
                self.wf(),
                sum_lens(self.box_contents()) == self.spec_num_items(),
                total == sum_lens(self.box_contents().take(b as int)),
            decreases nb - b,
        {
            proof {
                assert(vstd::std_specs::vec::spec_vec_len(&self.item_locations)
                    == self.item_locations@.len());
                let bs = self.box_contents();
                lemma_sum_lens_split(bs.take(b + 1), b as int);
                assert(bs.take(b + 1).take(b as int) =~= bs.take(b as int));
                assert(bs.take(b + 1).skip(b as int) =~= seq![bs[b as int]]);
                assert(seq![bs[b as int]].drop_first() =~= Seq::<Seq<usize>>::empty());
                assert(sum_lens(Seq::<Seq<usize>>::empty()) == 0);
                assert(sum_lens(seq![bs[b as int]]) == bs[b as int].len());
                lemma_sum_lens_split(bs, b + 1);
                lemma_sum_lens_nonneg(bs.skip(b + 1));
            }
            total = total + self.boxes[b].len();
            b += 1;
        }
        proof {
            assert(self.box_contents().take(nb as int) =~= self.box_contents());
        }
        total
    }

    /// Whether every item has been mastered, that is, sits in the last box.
    pub fn all_mastered(&self) -> (r: bool)
        requires
            self.wf(),
        ensures
            r == (self.box_contents()[self.spec_num_boxes() - 1].len() == self.spec_num_items()),
    {
        self.boxes[self.num_boxes - 1].len() == self.item_locations.len()
    }

    /// Clear every box and put every item back into box 0, in ascending id
    /// order, as at construction.
    pub fn reset(&mut self)
        requires
            old(self).wf(),
        ensures
            final(self).wf(),
            final(self).spec_num_boxes() == old(self).spec_num_boxes(),
            final(self).spec_num_items() == old(self).spec_num_items(),
            forall|id: int|
                0 <= id < old(self).spec_num_items() ==> #[trigger] final(self).spec_loc(id) == 0,
            final(self).box_contents()[0] == Seq::new(
                old(self).spec_num_items() as nat,
                |i: int| i as usize,
            ),
            forall|b: int|
                1 <= b < old(self).spec_num_boxes() ==> #[trigger] final(self).box_contents()[b]
                    =~= Seq::<usize>::empty(),
    {
        let n = self.item_locations.len();
        let nb = self.num_boxes;
        *self = LeitnerBox::new(nb, n);
    }

    /// A snapshot of the current state: the total item count, how many items
    /// sit in the last box, how many do not, and the per-box counts.
    pub fn summary(&self) -> (r: LeitnerSummary)
        requires
            self.wf(),
        ensures
            r.total_items == self.spec_num_items(),
            r.mastered_items == self.box_contents()[self.spec_num_boxes() - 1].len(),
            r.in_progress_items == self.spec_num_items() - r.mastered_items,
            r.box_counts@.len() == self.spec_num_boxes(),
            forall|b: int|
                0 <= b < r.box_counts@.len() ==> #[trigger] r.box_counts@[b]
                    == self.box_contents()[b].len(),
    {
        let counts = self.get_box_counts();
        let total = self.item_locations.len();
        let mastered = counts[self.num_boxes - 1];
        proof {
            lemma_total_conservation(*self);
            lemma_sum_lens_le(self.box_contents(), self.spec_num_boxes() - 1);
        }
        let in_progress = total - mastered;
        LeitnerSummary { total_items: total, mastered_items: mastered, in_progress_items: in_progress, box_counts: counts }
    }

    /// The box number a specific item is in, or `None` for an out-of-range id.
    pub fn get_item_box(&self, item_id: usize) -> (r: Option<usize>)
        ensures
            r == if item_id < self.spec_num_items() {
                Some(self.spec_loc(item_id as int) as usize)
            } else {
                None::<usize>
            },
    {
        if item_id < self.item_locations.len() {
            Some(self.item_locations[item_id])
        } else {
            None
        }
    }
}

/// Summary of the Leitner box state.
#[derive(Debug, Clone)]
pub struct LeitnerSummary {
    pub total_items: usize,
    pub mastered_items: usize,
    pub in_progress_items: usize,
    pub box_counts: Vec<usize>,
}

impl LeitnerSummary {
    /// Mastered items as a whole-number percentage of all items, rounded
    /// down; defined as 0 when there are no items at all.
    pub fn mastery_percentage(&self) -> (r: u32)
        requires
            self.mastered_items <= self.total_items,
        ensures
            r == if self.total_items == 0 {
                0int
            } else {
                100 * self.mastered_items / self.total_items as int
            },
    {
        if self.total_items == 0 {
            return 0;
        }
        let pct: u128 = (self.mastered_items as u128) * 100 / (self.total_items as u128);
        proof {
            let m = self.mastered_items as int;
            let t = self.total_items as int;
            assert(m * 100 <= t * 100) by (nonlinear_arith)
                requires
                    m <= t,
            ;
            assert(m * 100 / t <= t * 100 / t) by (nonlinear_arith)
                requires
                    0 < t,
                    m * 100 <= t * 100,
            ;
            assert(t * 100 / t == 100) by (nonlinear_arith)
                requires
                    0 < t,
            ;
            assert(pct <= 100);
        }
        pct as u32
    }
}

/// Idempotent mastery: a correct answer for an item that already sits in the
/// last box leaves it in the last box. Together with the `ensures` of
/// `answer_correct` this means repeated correct answers can never move a
/// mastered item anywhere else.
pub proof fn lemma_mastery_idempotent(cur: int, num_boxes: int)
    requires
        num_boxes >= 1,
        cur == num_boxes - 1,
    ensures
        promote_target(cur, num_boxes) == num_boxes - 1,
{
}

/// The next item to review always comes from the lowest-numbered non-empty
/// box: if every box below `b` is empty and box `b` is not, the scheduler
/// hands out the front of box `b`.
pub proof fn lemma_next_item_from_lowest_box(bs: Seq<Seq<usize>>, b: int)
    requires
        0 <= b < bs.len(),
        bs[b].len() > 0,
        forall|c: int| 0 <= c < b ==> (#[trigger] bs[c]).len() == 0,
    ensures
        spec_next_item(bs) == Some(bs[b][0]),
    decreases b,
{
    if b > 0 {
        let tail = bs.drop_first();
        assert forall|c: int| 0 <= c < b - 1 implies (#[trigger] tail[c]).len() == 0 by {
            assert(tail[c] == bs[c + 1]);
        }
        assert(tail[b - 1] == bs[b]);
        lemma_next_item_from_lowest_box(tail, b - 1);
    }
}

proof fn lemma_next_item_some_when_nonempty(bs: Seq<Seq<usize>>, b: int)
    requires
        0 <= b < bs.len(),
        bs[b].len() > 0,
    ensures
        spec_next_item(bs) is Some,
    decreases b,
{
    if bs[0].len() == 0 {
        let tail = bs.drop_first();
        assert(tail[b - 1] == bs[b]);
        lemma_next_item_some_when_nonempty(tail, b - 1);
    }
}

/// There is always a next item to review while any items are tracked:
/// `get_next_item` answers `None` only for a scheduler over zero items.
pub proof fn lemma_next_item_exists(s: LeitnerBox)
    requires
        s.wf(),
        s.spec_num_items() > 0,
    ensures
        spec_next_item(s.box_contents()) is Some,
{
    let bs = s.box_contents();
    let b = s.spec_loc(0);
    assert(bs[b].contains(0usize));
    let j = choose|j: int| 0 <= j < bs[b].len() && bs[b][j] == 0usize;
    lemma_next_item_some_when_nonempty(bs, b);
}

/// Full mastery characterized two ways: the last box holds as many items as
/// there are in total exactly when every single item is located in the last
/// box.
pub proof fn lemma_all_mastered_characterization(s: LeitnerBox)
    requires
        s.wf(),
    ensures
        (s.box_contents()[s.spec_num_boxes() - 1].len() == s.spec_num_items()) <==> (forall|
            id: int,
        |
            0 <= id < s.spec_num_items() ==> #[trigger] s.spec_loc(id) == s.spec_num_boxes() - 1),
{
    let bs = s.box_contents();
    let n = s.spec_num_items();
    let last = s.spec_num_boxes() - 1;
    assert(vstd::std_specs::vec::spec_vec_len(&s.item_locations) == s.item_locations@.len());
    lemma_total_conservation(s);
    if bs[last].len() == n {
        assert forall|id: int| 0 <= id < n implies #[trigger] s.spec_loc(id) == last by {
            let c = s.spec_loc(id);
            if c != last {
                assert(bs[c].contains(id as usize));
                let j = choose|j: int| 0 <= j < bs[c].len() && bs[c][j] == id as usize;
                assert(bs[c].len() >= 1);
                if c < last {
                    lemma_sum_lens_pair(bs, c, last);
                } else {
                    lemma_sum_lens_pair(bs, last, c);
                }
                assert(false);
            }
        }
    }
    if forall|id: int| 0 <= id < n ==> #[trigger] s.spec_loc(id) == last {
        assert forall|c: int| 0 <= c < bs.len() && c != last implies (#[trigger] bs[c]).len()
            == 0 by {
            if bs[c].len() > 0 {
                let y = bs[c][0];
                assert(bs[c].contains(y));
                assert(y < n && s.spec_loc(y as int) == c);
                assert(false);
            }
        }
        lemma_sum_lens_single(bs, last);
    }
}

} // verus!
