//! The rules of the reading pipeline: how the input is cut into lines, which
//! slot of a decoding round a line is given, and how the results of a round
//! are put back into the order of the lines.

use super::deserialize::{decode_line, deserialize_element, lemma_decode_keeps_form};
use super::interner::{well_formed, Interner};
use super::types::{outcome_view, Element, ElementView, ProtocolError, ProtocolErrorView};
use vstd::prelude::*;
use vstd::slice::{slice_subrange, slice_to_vec};

verus! {

/// The slot of the line that follows the line in `slot`, in a pipeline that
/// decodes `worker_count` lines in a round: slots go round from 0 to
/// `worker_count - 1`.
pub fn next_slot(slot: u64, worker_count: u64) -> (next: u64)
    requires
        worker_count > 0,
    ensures
        next == (slot + 1) % (worker_count as int),
{
    if slot == u64::MAX {
        proof {
            vstd::arithmetic::div_mod::lemma_add_mod_noop(slot as int, 1, worker_count as int);
            vstd::arithmetic::div_mod::lemma_mod_twice(slot as int, worker_count as int);
            vstd::arithmetic::div_mod::lemma_add_mod_noop(
                slot as int % worker_count as int,
                1,
                worker_count as int,
            );
        }
        (slot % worker_count + 1) % worker_count
    } else {
        (slot + 1) % worker_count
    }
}

/// The slot of line `n` of the input, counted from 0, where the first line is
/// in slot 0 and each line is in the slot that follows that of the line
/// before it.
pub open spec fn slot_of(n: nat, worker_count: nat) -> nat {
    n % worker_count
}

/// The slots of the lines go round: each is below the number of workers, and
/// the line after one in `slot` is in the slot that `next_slot` gives.
pub proof fn lemma_slots_go_round(n: nat, worker_count: nat)
    requires
        worker_count > 0,
    ensures
        slot_of(n, worker_count) < worker_count,
        slot_of(n + 1, worker_count) == (slot_of(n, worker_count) as int + 1) % (
        worker_count as int),
        slot_of(0, worker_count) == 0,
{
    vstd::arithmetic::div_mod::lemma_add_mod_noop(n as int, 1, worker_count as int);
    vstd::arithmetic::div_mod::lemma_mod_twice(n as int, worker_count as int);
    vstd::arithmetic::div_mod::lemma_add_mod_noop(
        n as int % worker_count as int,
        1,
        worker_count as int,
    );
}

/// The reorder buffer of one decoding round. The results of a round arrive in
/// any order, each with the slot of its line; when all have arrived they
/// leave in the order of the slots.
pub struct Sequencer<T> {
    slots: Vec<Option<T>>,
    capacity: usize,
}

impl<T> View for Sequencer<T> {
    type V = Seq<Option<T>>;

    /// The slots of the round under way, each with what has arrived for it.
    /// The most slots that a round can have is no part of the view: it is
    /// `capacity()`.
    closed spec fn view(&self) -> Seq<Option<T>> {
        self.slots@
    }
}

/// Every slot holds a result.
pub open spec fn all_arrived<T>(slots: Seq<Option<T>>) -> bool {
    forall|i: int| 0 <= i < slots.len() ==> (#[trigger] slots[i]) is Some
}

impl<T> Sequencer<T> {
    /// The most slots that a round can have.
    pub closed spec fn capacity(&self) -> usize {
        self.capacity
    }

    /// A sequencer for rounds of at most `capacity` lines, with no round
    /// under way.
    pub fn new(capacity: usize) -> (r: Self)
        ensures
            r@ == Seq::<Option<T>>::empty(),
            r.capacity() == capacity,
    {
        Sequencer { slots: Vec::new(), capacity }
    }

    /// Starts a round of `count` lines, all of whose slots are vacant; what
    /// was left of a round before it is dropped. A round of more lines than
    /// the sequencer has room for is refused, and nothing changes.
    pub fn start_round(&mut self, count: usize) -> (started: bool)
        ensures
            started == (count <= old(self).capacity()),
            final(self).capacity() == old(self).capacity(),
            started ==> final(self)@ == vacant::<T>(count as nat),
            !started ==> final(self)@ == old(self)@,
    {
        if count > self.capacity {
            return false;
        }
        let mut slots: Vec<Option<T>> = Vec::new();
        let mut i: usize = 0;
        while i < count
            invariant
                0 <= i <= count,
                slots@ == Seq::new(i as nat, |i: int| None::<T>),
            decreases count - i,
        {
            slots.push(None);
            assert(slots@ =~= Seq::new((i + 1) as nat, |i: int| None::<T>));
            i = i + 1;
        }
        self.slots = slots;
        true
    }

    /// Puts the result of the line in `slot` into its place. A result for a
    /// slot that the round does not have, or that is taken, is handed back,
    /// and nothing changes.
    pub fn place(&mut self, slot: u64, item: T) -> (r: Result<(), T>)
        ensures
            final(self).capacity() == old(self).capacity(),
            slot < old(self)@.len() && old(self)@[slot as int] is None ==> r is Ok && final(self)@
                == old(self)@.update(slot as int, Some(item)),
            !(slot < old(self)@.len() && old(self)@[slot as int] is None) ==> r == Err::<(), T>(
                item,
            ) && final(self)@ == old(self)@,
            final(self)@ == arrive(old(self)@, seq![(slot, item)]),
    {
        proof {
            let one = seq![(slot, item)];
            assert(one.drop_last() =~= Seq::<(u64, T)>::empty());
            assert(arrive(old(self)@, one.drop_last()) == old(self)@);
            assert(one.last() == (slot, item));
        }
        if slot >= self.slots.len() as u64 {
            return Err(item);
        }
        let at: usize = slot as usize;
        if self.slots[at].is_some() {
            return Err(item);
        }
        self.slots[at] = Some(item);
        Ok(())
    }

    /// Whether every result of the round has arrived.
    pub fn is_complete(&self) -> (r: bool)
        ensures
            r == all_arrived(self@),
    {
        let mut i: usize = 0;
        while i < self.slots.len()
            invariant
                0 <= i <= self.slots@.len(),
                forall|j: int| 0 <= j < i ==> (#[trigger] self.slots@[j]) is Some,
            decreases self.slots@.len() - i,
        {
            if self.slots[i].is_none() {
                return false;
            }
            i = i + 1;
        }
        true
    }

    /// Ends the round: once every result has arrived, hands them out in the
    /// order of their slots and leaves no round under way. Before that it
    /// hands out nothing, and nothing changes.
    pub fn drain(&mut self) -> (r: Option<Vec<T>>)
        ensures
            final(self).capacity() == old(self).capacity(),
            all_arrived(old(self)@) ==> r is Some && final(self)@ == Seq::<Option<T>>::empty()
                && r->Some_0@.len() == old(self)@.len() && forall|i: int|
                0 <= i < old(self)@.len() ==> old(self)@[i] == Some(#[trigger] r->Some_0@[i]),
            !all_arrived(old(self)@) ==> r is None && final(self)@ == old(self)@,
    {
        if !self.is_complete() {
            return None;
        }
        let mut out: Vec<T> = Vec::new();
        let mut i: usize = 0;
        while i < self.slots.len()
            invariant
                0 <= i <= self.slots@.len(),
                self.slots@.len() == old(self)@.len(),
                self.capacity == old(self).capacity,
                out@.len() == i,
                forall|j: int| 0 <= j < i ==> old(self)@[j] == Some(#[trigger] out@[j]),
                forall|j: int| i <= j < self.slots@.len() ==> self.slots@[j] == old(self)@[j],
                all_arrived(old(self)@),
            decreases self.slots@.len() - i,
        {
            assert(self.slots@[i as int] == old(self)@[i as int]);
            assert(old(self)@[i as int] is Some);
            let taken = self.slots[i].take();
            match taken {
                Some(item) => {
                    out.push(item);
                },
                None => {
                    assert(false);
                },
            }
            i = i + 1;
        }
        self.slots = Vec::new();
        Some(out)
    }
}

/// The slots of a round of `count` lines before any result has arrived.
pub open spec fn vacant<T>(count: nat) -> Seq<Option<T>> {
    Seq::new(count, |i: int| None::<T>)
}

/// The slots after the given results have arrived, each with its slot, in the
/// given order. A result for a slot that the round does not have, or that is
/// taken, changes nothing.
pub open spec fn arrive<T>(slots: Seq<Option<T>>, arrivals: Seq<(u64, T)>) -> Seq<Option<T>>
    decreases arrivals.len(),
{
    if arrivals.len() == 0 {
        slots
    } else {
        let before = arrive(slots, arrivals.drop_last());
        let (slot, item) = arrivals.last();
        if slot < before.len() && before[slot as int] is None {
            before.update(slot as int, Some(item))
        } else {
            before
        }
    }
}

/// Each of the `count` slots of a round is the slot of exactly one arrival.
pub open spec fn one_per_slot<T>(count: nat, arrivals: Seq<(u64, T)>) -> bool {
    &&& arrivals.len() == count
    &&& forall|k: int| 0 <= k < arrivals.len() ==> (#[trigger] arrivals[k]).0 < count
    &&& forall|j: int, k: int|
        0 <= j < k < arrivals.len() ==> (#[trigger] arrivals[j]).0 != (#[trigger] arrivals[k]).0
}

proof fn lemma_arrive_prefix<T>(count: nat, arrivals: Seq<(u64, T)>, m: int)
    requires
        one_per_slot(count, arrivals),
        0 <= m <= arrivals.len(),
    ensures
        ({
            let slots = arrive(vacant::<T>(count), arrivals.take(m));
            &&& slots.len() == count
            &&& forall|k: int|
                0 <= k < m ==> slots[(#[trigger] arrivals[k]).0 as int] == Some(arrivals[k].1)
            &&& forall|i: int|
                0 <= i < count && (forall|k: int| 0 <= k < m ==> (#[trigger] arrivals[k]).0 != i)
                    ==> (#[trigger] slots[i]) is None
        }),
    decreases m,
{
    if m > 0 {
        lemma_arrive_prefix(count, arrivals, m - 1);
        assert(arrivals.take(m).drop_last() =~= arrivals.take(m - 1));
        assert(arrivals.take(m).last() == arrivals[m - 1]);
        let before = arrive(vacant::<T>(count), arrivals.take(m - 1));
        let slot = arrivals[m - 1].0;
        assert(before[slot as int] is None);
    }
}

/// Whatever the order in which the results of a round arrive, each with the
/// slot of its line and one for each slot, the round is then complete and
/// every slot holds the result of its line: the order of the lines is
/// restored.
pub proof fn lemma_order_restored<T>(count: nat, arrivals: Seq<(u64, T)>)
    requires
        one_per_slot(count, arrivals),
    ensures
        all_arrived(arrive(vacant::<T>(count), arrivals)),
        arrive(vacant::<T>(count), arrivals).len() == count,
        forall|k: int|
            0 <= k < arrivals.len() ==> arrive(vacant::<T>(count), arrivals)[(
            #[trigger] arrivals[k]).0 as int] == Some(arrivals[k].1),
{
    lemma_arrive_prefix(count, arrivals, arrivals.len() as int);
    assert(arrivals.take(arrivals.len() as int) =~= arrivals);
    let slots = arrive(vacant::<T>(count), arrivals);
    let tags = Seq::new(count, |k: int| arrivals[k].0 as int);
    assert(tags.no_duplicates());
    tags.unique_seq_to_set();
    vstd::set_lib::lemma_int_range(0, count as int);
    let all = vstd::set_lib::set_int_range(0, count as int);
    assert(tags.to_set().subset_of(all)) by {
        assert forall|i: int| tags.to_set().contains(i) implies all.contains(i) by {
            let k = choose|k: int| 0 <= k < tags.len() && tags[k] == i;
            assert(arrivals[k].0 < count);
        }
    }
    vstd::set_lib::lemma_len_subset(tags.to_set(), all);
    vstd::set_lib::lemma_subset_equality(tags.to_set(), all);
    assert forall|i: int| 0 <= i < slots.len() implies (#[trigger] slots[i]) is Some by {
        assert(all.contains(i));
        assert(tags.to_set().contains(i));
        let k = choose|k: int| 0 <= k < tags.len() && tags[k] == i;
        assert(slots[arrivals[k].0 as int] == Some(arrivals[k].1));
    }
}

/// Where the line that begins at `from` ends: behind its newline, or at the
/// end of the input where no newline follows.
pub open spec fn line_end(input: Seq<u8>, from: int) -> int
    decreases input.len() - from,
{
    if from >= input.len() {
        input.len() as int
    } else if input[from] == 0x0a {
        from + 1
    } else {
        line_end(input, from + 1)
    }
}

/// The lines of the input from `from` on. Each line keeps its newline; the
/// last line is the one that may have none.
pub open spec fn lines_from(input: Seq<u8>, from: int) -> Seq<Seq<u8>>
    decreases input.len() - from,
    via lines_from_decreases
{
    if from < 0 || from >= input.len() {
        Seq::empty()
    } else {
        seq![input.subrange(from, line_end(input, from))] + lines_from(
            input,
            line_end(input, from),
        )
    }
}

#[via_fn]
proof fn lines_from_decreases(input: Seq<u8>, from: int) {
    if 0 <= from < input.len() {
        lemma_line_end_bounds(input, from);
    }
}

/// The lines of the input, in order. Empty input has no lines.
pub open spec fn split_lines(input: Seq<u8>) -> Seq<Seq<u8>> {
    lines_from(input, 0)
}

/// What each of some byte vectors holds.
pub open spec fn lines_view(lines: Seq<Vec<u8>>) -> Seq<Seq<u8>> {
    lines.map_values(|line: Vec<u8>| line@)
}

proof fn lemma_line_end_bounds(input: Seq<u8>, from: int)
    requires
        0 <= from < input.len(),
    ensures
        from < line_end(input, from) <= input.len(),
    decreases input.len() - from,
{
    if input[from] != 0x0a {
        if from + 1 < input.len() {
            lemma_line_end_bounds(input, from + 1);
        } else {
            assert(line_end(input, from + 1) == input.len());
        }
    }
}

/// Finds the end of the line that begins at `from`; behind the input there is
/// no line, and the end is that of the input.
pub fn find_line_end(input: &[u8], from: usize) -> (end: usize)
    ensures
        end == line_end(input@, from as int),
        end <= input@.len(),
        from <= input@.len() ==> from <= end,
{
    if from >= input.len() {
        return input.len();
    }
    let mut i: usize = from;
    while i < input.len()
        invariant
            from <= i <= input@.len(),
            line_end(input@, from as int) == line_end(input@, i as int),
        decreases input@.len() - i,
    {
        if input[i] == 0x0a {
            return i + 1;
        }
        i = i + 1;
    }
    i
}

/// Cuts the input into its lines.
pub fn cut_lines(input: &[u8]) -> (lines: Vec<Vec<u8>>)
    ensures
        lines_view(lines@) == split_lines(input@),
{
    let mut lines: Vec<Vec<u8>> = Vec::new();
    let mut from: usize = 0;
    assert(lines_view(lines@) =~= Seq::<Seq<u8>>::empty());
    while from < input.len()
        invariant
            from <= input@.len(),
            split_lines(input@) == lines_view(lines@) + lines_from(input@, from as int),
        decreases input@.len() - from,
    {
        let end = find_line_end(input, from);
        proof {
            lemma_line_end_bounds(input@, from as int);
        }
        let line = slice_to_vec(slice_subrange(input, from, end));
        let ghost before = lines@;
        lines.push(line);
        assert(lines_view(lines@) =~= lines_view(before) + seq![line@]);
        assert(split_lines(input@) =~= lines_view(lines@) + lines_from(input@, end as int));
        from = end;
    }
    assert(lines_from(input@, from as int) =~= Seq::<Seq<u8>>::empty());
    assert(split_lines(input@) =~= lines_view(lines@));
    lines
}

/// The interned texts after the given lines have been decoded one after the
/// other, from the first to the last.
#[verifier::opaque]
pub open spec fn ids_after(ids: Map<Seq<char>, u64>, lines: Seq<Seq<u8>>) -> Map<Seq<char>, u64>
    decreases lines.len(),
{
    if lines.len() == 0 {
        ids
    } else {
        decode_line(ids_after(ids, lines.drop_last()), lines.last()).ids
    }
}

/// What line `i` decodes to when the lines are decoded one after the other,
/// from the first to the last.
pub open spec fn decoded_at(ids: Map<Seq<char>, u64>, lines: Seq<Seq<u8>>, i: int) -> Result<
    ElementView,
    ProtocolErrorView,
> {
    decode_line(ids_after(ids, lines.take(i)), lines[i]).out
}

/// Decoding one more line starts from what the lines before it left.
proof fn lemma_ids_after_next(ids: Map<Seq<char>, u64>, lines: Seq<Seq<u8>>, n: int)
    requires
        0 <= n < lines.len(),
    ensures
        ids_after(ids, lines.take(n + 1)) == decode_line(
            ids_after(ids, lines.take(n)),
            lines[n],
        ).ids,
        ids_after(ids, lines.take(0)) == ids,
{
    reveal(ids_after);
    assert(lines.take(n + 1).drop_last() =~= lines.take(n));
    assert(lines.take(n + 1).last() == lines[n]);
}

/// Decoding lines leaves the interned texts well formed.
pub proof fn lemma_ids_after_keeps_form(ids: Map<Seq<char>, u64>, lines: Seq<Seq<u8>>)
    requires
        well_formed(ids),
    ensures
        well_formed(ids_after(ids, lines)),
    decreases lines.len(),
{
    reveal(ids_after);
    if lines.len() > 0 {
        lemma_ids_after_keeps_form(ids, lines.drop_last());
        lemma_decode_keeps_form(ids_after(ids, lines.drop_last()), lines.last());
    }
}

/// Reads a whole input on one thread. This is the reference for a reader
/// that decodes on several: it goes by the same rules, in rounds of at most
/// `worker_count` lines, each line in the slot that follows that of the line
/// before it, the results of every round leaving the sequencer in the order
/// of the slots; but it decodes the lines of a round one after the other, in
/// the order of the lines.
///
/// There is one result for each line, in the order of the lines, and each is
/// what its line decodes to after the lines before it. A line that cannot be
/// decoded gives an error in its place and holds back nothing.
///
/// A reader whose workers share the interner and decode the lines of a round
/// side by side gives the same results in the same order, but for one thing:
/// a text that is first seen in a round is given its identifier by the worker
/// that reaches the interner first, so the identifiers of the texts first
/// seen in one round may be handed out in another order than here.
pub fn read_lines(interner: &mut Interner, input: &[u8], worker_count: usize) -> (results: Vec<
    Result<Element, ProtocolError>,
>)
    requires
        worker_count > 0,
    ensures
        results@.len() == split_lines(input@).len(),
        forall|i: int|
            0 <= i < results@.len() ==> outcome_view(#[trigger] results@[i]) == decoded_at(
                old(interner)@,
                split_lines(input@),
                i,
            ),
        final(interner)@ == ids_after(old(interner)@, split_lines(input@)),
        well_formed(final(interner)@),
{
    proof {
        use_type_invariant(&*interner);
        lemma_ids_after_keeps_form(interner@, split_lines(input@));
    }
    let lines = cut_lines(input);
    let ghost texts = split_lines(input@);
    let ghost start = interner@;
    let mut results: Vec<Result<Element, ProtocolError>> = Vec::new();
    let mut sequencer: Sequencer<Result<Element, ProtocolError>> = Sequencer::new(worker_count);
    let mut done: usize = 0;
    assert(ids_after(start, texts.take(0)) == start) by {
        reveal(ids_after);
    }
    while done < lines.len()
        invariant
            worker_count > 0,
            done <= lines@.len(),
            texts == lines_view(lines@),
            results@.len() == done,
            forall|i: int|
                0 <= i < done ==> outcome_view(#[trigger] results@[i]) == decoded_at(
                    start,
                    texts,
                    i,
                ),
            interner@ == ids_after(start, texts.take(done as int)),
            sequencer.capacity() == worker_count,
        decreases lines@.len() - done,
    {
        let left: usize = lines.len() - done;
        let count: usize = if left < worker_count {
            left
        } else {
            worker_count
        };
        sequencer.start_round(count);
        let mut slot: u64 = 0;
        let mut k: usize = 0;
        while k < count
            invariant
                worker_count > 0,
                k <= count <= worker_count,
                done + count <= lines.len(),
                texts == lines_view(lines@),
                k < count ==> slot == k,
                sequencer@.len() == count,
                sequencer.capacity() == worker_count,
                forall|j: int|
                    0 <= j < k ==> (#[trigger] sequencer@[j]) is Some && outcome_view(
                        sequencer@[j]->Some_0,
                    ) == decoded_at(start, texts, done + j),
                forall|j: int| k <= j < count ==> (#[trigger] sequencer@[j]) is None,
                interner@ == ids_after(start, texts.take(done + k)),
            decreases count - k,
        {
            proof {
                lemma_ids_after_next(start, texts, done + k);
                assert(texts[done + k] == lines@[done + k]@);
            }
            let result = deserialize_element(interner, lines[done + k].as_slice());
            let ghost arrived = sequencer@;
            let _ = sequencer.place(slot, result);
            assert(sequencer@ == arrived.update(k as int, Some(result)));
            slot = next_slot(slot, worker_count as u64);
            k = k + 1;
            proof {
                if k < count {
                    vstd::arithmetic::div_mod::lemma_small_mod(k as nat, worker_count as nat);
                }
            }
        }
        assert(all_arrived(sequencer@));
        if let Some(mut batch) = sequencer.drain() {
            results.append(&mut batch);
        }
        done = done + count;
    }
    assert(texts.take(done as int) =~= texts);
    results
}

} // verus!
