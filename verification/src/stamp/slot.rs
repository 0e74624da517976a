//! The search for the version slot of an artifact: the marker, immediately followed by the build
//! name field.
//!
//! An artifact is read piece by piece through a buffer. [`SlotSearch`] keeps what the search has
//! learned between two reads, so that a slot split between them is found, and found once.

use vstd::prelude::*;

use crate::stamp::StampError;
use crate::version::{STAMP_BUILD_CAPACITY, STAMP_MARKER, STAMP_MARKER_LEN};

verus! {

/// Whether the marker stands in `artifact` at `offset`.
pub open spec fn slot_at(artifact: Seq<u8>, offset: int) -> bool {
    &&& 0 <= offset
    &&& offset + STAMP_MARKER_LEN <= artifact.len()
    &&& artifact.subrange(offset, offset + STAMP_MARKER_LEN) == STAMP_MARKER@
}

/// The offsets below `limit` at which the marker stands in `artifact`.
pub open spec fn slots_below(artifact: Seq<u8>, limit: int) -> Set<int> {
    Set::new(|offset: int| offset < limit && slot_at(artifact, offset))
}

/// Every offset at which the marker stands in `artifact`.
pub open spec fn slot_offsets(artifact: Seq<u8>) -> Set<int> {
    slots_below(artifact, artifact.len() as int)
}

/// Whether `located` is what a search of `artifact` has to report: the offset of the build name
/// field of its one slot, or the reason why there is none to report.
pub open spec fn is_located(artifact: Seq<u8>, located: Result<u64, StampError>) -> bool {
    let slots = slot_offsets(artifact);
    match located {
        Ok(field) => {
            &&& slots == set![field - STAMP_MARKER_LEN]
            &&& field + STAMP_BUILD_CAPACITY <= artifact.len()
        },
        Err(StampError::NoSlot) => slots == Set::<int>::empty(),
        Err(StampError::SeveralSlots(count)) => count == slots.len() && count > 1,
        Err(StampError::TruncatedSlot) => exists|slot: int|
            slots == set![slot] && artifact.len() < #[trigger] (slot + STAMP_MARKER_LEN)
                + STAMP_BUILD_CAPACITY,
        Err(_) => false,
    }
}

/// What a search reports depends on the artifact alone, not on how it was read.
pub proof fn a_search_has_one_outcome(
    artifact: Seq<u8>,
    first: Result<u64, StampError>,
    second: Result<u64, StampError>,
)
    requires
        is_located(artifact, first),
        is_located(artifact, second),
    ensures
        first == second,
{
    let slots = slot_offsets(artifact);
    assert forall|i: int, j: int| slots == set![i] && slots == set![j] implies i == j by {
        assert(set![i].contains(j));
    }
    assert forall|i: int| slots == set![i] implies slots != Set::<int>::empty() && slots.len()
        == 1 by {
        assert(set![i].contains(i));
    }
    assert(Set::<int>::empty().len() == 0);
}

proof fn lemma_slots_below_step(artifact: Seq<u8>, limit: int)
    ensures
        slot_at(artifact, limit) ==> slots_below(artifact, limit + 1) == slots_below(
            artifact,
            limit,
        ).insert(limit),
        !slot_at(artifact, limit) ==> slots_below(artifact, limit + 1) == slots_below(
            artifact,
            limit,
        ),
{
    if slot_at(artifact, limit) {
        assert(slots_below(artifact, limit + 1) =~= slots_below(artifact, limit).insert(limit));
    } else {
        assert(slots_below(artifact, limit + 1) =~= slots_below(artifact, limit));
    }
}

proof fn lemma_slots_below_finite(artifact: Seq<u8>, limit: int)
    ensures
        slots_below(artifact, limit).finite(),
        limit >= 0 ==> slots_below(artifact, limit).len() <= limit,
    decreases limit,
{
    if limit <= 0 {
        assert(slots_below(artifact, limit) =~= Set::empty());
    } else {
        lemma_slots_below_finite(artifact, limit - 1);
        lemma_slots_below_step(artifact, limit - 1);
    }
}

/// Counting up to a higher limit counts no fewer slots.
proof fn lemma_slots_below_grow(artifact: Seq<u8>, low: int, high: int)
    requires
        low <= high,
    ensures
        slots_below(artifact, low).len() <= slots_below(artifact, high).len(),
    decreases high - low,
{
    if low < high {
        lemma_slots_below_grow(artifact, low, high - 1);
        lemma_slots_below_finite(artifact, high - 1);
        lemma_slots_below_step(artifact, high - 1);
    }
}

/// Bytes that follow an artifact's own complete no marker that starts more than a marker before
/// them.
proof fn lemma_slots_below_extend(artifact: Seq<u8>, more: Seq<u8>, limit: int)
    requires
        limit <= 0 || limit + STAMP_MARKER_LEN <= artifact.len() + 1,
    ensures
        slots_below(artifact + more, limit) == slots_below(artifact, limit),
{
    let whole = artifact + more;
    assert forall|offset: int| offset < limit implies slot_at(whole, offset) == slot_at(
        artifact,
        offset,
    ) by {
        if 0 <= offset {
            assert(whole.subrange(offset, offset + STAMP_MARKER_LEN) =~= artifact.subrange(
                offset,
                offset + STAMP_MARKER_LEN,
            ));
        }
    }
    assert(slots_below(whole, limit) =~= slots_below(artifact, limit));
}

/// No marker starts so late that it would not end within the artifact.
proof fn lemma_no_late_slot(artifact: Seq<u8>, limit: int)
    requires
        artifact.len() < limit + STAMP_MARKER_LEN,
    ensures
        slots_below(artifact, limit) == slot_offsets(artifact),
{
    assert(slots_below(artifact, limit) =~= slot_offsets(artifact));
}

/// Whether the marker stands in `buffer` at `index`.
fn marker_at(buffer: &[u8], index: usize) -> (found: bool)
    requires
        index + STAMP_MARKER_LEN <= buffer@.len(),
    ensures
        found == slot_at(buffer@, index as int),
{
    let length: usize = buffer.len();
    let mut i: usize = 0;
    while i < STAMP_MARKER_LEN
        invariant
            i <= STAMP_MARKER_LEN,
            index + STAMP_MARKER_LEN <= length == buffer@.len(),
            forall|j: int| 0 <= j < i ==> buffer@[index + j] == STAMP_MARKER@[j],
        decreases STAMP_MARKER_LEN - i,
    {
        if buffer[index + i] != STAMP_MARKER[i] {
            proof {
                assert(buffer@.subrange(index as int, index + STAMP_MARKER_LEN)[i as int]
                    != STAMP_MARKER@[i as int]);
            }
            return false;
        }
        i = i + 1;
    }
    proof {
        assert(buffer@.subrange(index as int, index + STAMP_MARKER_LEN) =~= STAMP_MARKER@);
    }
    true
}

/// Moves the last `kept` of the first `filled` bytes of `buffer` to its front.
fn carry_over(buffer: &mut [u8], filled: usize, kept: usize)
    requires
        kept <= filled <= old(buffer)@.len(),
    ensures
        final(buffer)@.len() == old(buffer)@.len(),
        final(buffer)@.take(kept as int) == old(buffer)@.subrange(filled - kept, filled as int),
{
    let ghost bytes = buffer@;
    let shift: usize = filled - kept;
    let mut i: usize = 0;
    while i < kept
        invariant
            i <= kept,
            shift + kept == filled,
            filled <= bytes.len(),
            buffer@.len() == bytes.len(),
            forall|j: int| 0 <= j < i ==> buffer@[j] == bytes[shift + j],
            forall|j: int| i <= j < bytes.len() ==> buffer@[j] == bytes[j],
        decreases kept - i,
    {
        let byte: u8 = buffer[shift + i];
        buffer[i] = byte;
        i = i + 1;
    }
    proof {
        assert(buffer@.take(kept as int) =~= bytes.subrange(shift as int, filled as int));
    }
}

/// What came of a read.
pub enum ReadOutcome {
    /// So many bytes were read, none at the end of the artifact.
    Bytes(usize),
    /// Nothing was read, because the read was interrupted.
    Interrupted,
    /// Nothing was read, for the reason that is given.
    Failed(String),
}

/// What a read gave.
pub enum Reading {
    Bytes(Seq<u8>),
    Interrupted,
    Failed(Seq<char>),
}

/// The bytes that reads gave, one after the other.
pub open spec fn bytes_of(readings: Seq<Reading>) -> Seq<u8>
    decreases readings.len(),
{
    if readings.len() == 0 {
        Seq::empty()
    } else {
        match readings.last() {
            Reading::Bytes(bytes) => bytes_of(readings.drop_last()) + bytes,
            _ => bytes_of(readings.drop_last()),
        }
    }
}

/// Whether a read ends a search: it gave nothing because the artifact is read, or it failed.
pub open spec fn ends(reading: Reading) -> bool {
    match reading {
        Reading::Bytes(bytes) => bytes.len() == 0,
        Reading::Interrupted => false,
        Reading::Failed(_) => true,
    }
}

/// Whether `located` is what a search has to report after reads the last of which ends it.
pub open spec fn is_reported(readings: Seq<Reading>, located: Result<u64, StampError>) -> bool {
    match readings.last() {
        Reading::Failed(text) => located matches Err(StampError::Io(error)) && error@ == text,
        _ => is_located(bytes_of(readings), located),
    }
}

/// What a search reports depends on the bytes that were read alone: not on where the reads split them,
/// and not on reads that were interrupted. A read that fails ends the search with its failure.
pub proof fn a_search_depends_on_the_bytes_alone(
    readings: Seq<Reading>,
    located: Result<u64, StampError>,
    others: Seq<Reading>,
    other: Result<u64, StampError>,
)
    requires
        readings.len() > 0 && ends(readings.last()) && is_reported(readings, located),
        others.len() > 0 && ends(others.last()) && is_reported(others, other),
    ensures
        !(readings.last() is Failed) && !(others.last() is Failed) && bytes_of(readings) == bytes_of(
            others,
        ) ==> located == other,
        readings.last() matches Reading::Failed(text) ==> (located matches Err(
            StampError::Io(error),
        ) && error@ == text),
{
    if !(readings.last() is Failed) && !(others.last() is Failed) && bytes_of(readings)
        == bytes_of(others) {
        a_search_has_one_outcome(bytes_of(readings), located, other);
    }
}

/// What a search has learned of the bytes it was handed so far.
///
/// The final bytes of each read, one fewer than the marker is long, are carried into the next.
pub struct SlotSearch {
    /// Where in the artifact the bytes at the front of the buffer stand.
    buffer_offset: u64,
    /// How many bytes at the front of the buffer are carried over from the reads before.
    kept: usize,
    /// Where the first slot found so far stands.
    first_slot: Option<u64>,
    /// How many slots were found so far.
    slots: usize,
    /// The bytes of the artifact read so far.
    seen: Ghost<Seq<u8>>,
    /// What the reads gave so far.
    readings: Ghost<Seq<Reading>>,
}

impl SlotSearch {
    /// The bytes of the artifact read so far.
    pub closed spec fn seen(&self) -> Seq<u8> {
        self.seen@
    }

    /// What the reads gave so far.
    pub closed spec fn readings(&self) -> Seq<Reading> {
        self.readings@
    }

    /// The bytes that the front of the buffer has to hold when the next read is handed over.
    pub open spec fn carried(&self) -> Seq<u8> {
        self.seen().skip(self.seen().len() - self.spec_kept())
    }

    /// How many bytes at the front of the buffer are carried over.
    pub open spec fn spec_kept(&self) -> int {
        if self.seen().len() < STAMP_MARKER_LEN - 1 {
            self.seen().len() as int
        } else {
            STAMP_MARKER_LEN - 1
        }
    }

    /// The search has seen what the reads gave, has counted the slots in it, and knows the first of
    /// them.
    pub closed spec fn valid(&self) -> bool {
        self.seen() == bytes_of(self.readings()) && self.counted()
    }

    /// The search has counted the slots of what it has seen, and knows the first of them.
    spec fn counted(&self) -> bool {
        &&& self.kept == self.spec_kept()
        &&& self.buffer_offset + self.kept == self.seen().len() <= u64::MAX
        &&& self.slots == slot_offsets(self.seen()).len()
        &&& match self.first_slot {
            None => slot_offsets(self.seen()) == Set::<int>::empty(),
            Some(first) => slot_offsets(self.seen()).contains(first as int),
        }
    }

    /// A search that has seen nothing.
    pub fn new() -> (search: Self)
        ensures
            search.valid(),
            search.seen() == Seq::<u8>::empty(),
            search.readings() == Seq::<Reading>::empty(),
    {
        proof {
            assert(slot_offsets(Seq::<u8>::empty()) =~= Set::<int>::empty());
        }
        SlotSearch {
            buffer_offset: 0,
            kept: 0,
            first_slot: None,
            slots: 0,
            seen: Ghost(Seq::empty()),
            readings: Ghost(Seq::empty()),
        }
    }

    /// How many bytes at the front of the buffer the next read has to leave alone.
    pub fn kept(&self) -> (kept: usize)
        requires
            self.valid(),
        ensures
            kept == self.spec_kept(),
    {
        self.kept
    }

    /// Takes in the `read` bytes that were read into `buffer` behind the carried ones, and moves the
    /// bytes to carry over to the front of `buffer`.
    pub fn absorb(&mut self, buffer: &mut [u8], read: usize)
        requires
            old(self).valid(),
            old(self).spec_kept() + read <= old(buffer)@.len(),
            old(buffer)@.take(old(self).spec_kept()) == old(self).carried(),
            old(self).seen().len() + read <= u64::MAX,
            slot_offsets(
                old(self).seen() + old(buffer)@.subrange(
                    old(self).spec_kept(),
                    old(self).spec_kept() + read,
                ),
            ).len() <= usize::MAX,
        ensures
            final(self).valid(),
            final(self).seen() == old(self).seen() + old(buffer)@.subrange(
                old(self).spec_kept(),
                old(self).spec_kept() + read,
            ),
            final(self).readings() == old(self).readings().push(
                Reading::Bytes(
                    old(buffer)@.subrange(
                        old(self).spec_kept(),
                        old(self).spec_kept() + read,
                    ),
                ),
            ),
            final(buffer)@.len() == old(buffer)@.len(),
            final(buffer)@.take(final(self).spec_kept()) == final(self).carried(),
    {
        let ghost more = buffer@.subrange(self.kept as int, self.kept + read);
        self.count(buffer, read);
        self.readings = Ghost(self.readings@.push(Reading::Bytes(more)));
        proof {
            assert(self.readings@.drop_last() =~= old(self).readings@);
        }
    }

    /// Counts the slots that the `read` bytes behind the carried ones in `buffer` complete, and moves
    /// the bytes to carry over to the front of `buffer`.
    fn count(&mut self, buffer: &mut [u8], read: usize)
        requires
            old(self).counted(),
            old(self).spec_kept() + read <= old(buffer)@.len(),
            old(buffer)@.take(old(self).spec_kept()) == old(self).carried(),
            old(self).seen().len() + read <= u64::MAX,
            slot_offsets(
                old(self).seen() + old(buffer)@.subrange(
                    old(self).spec_kept(),
                    old(self).spec_kept() + read,
                ),
            ).len() <= usize::MAX,
        ensures
            final(self).counted(),
            final(self).readings() == old(self).readings(),
            final(self).seen() == old(self).seen() + old(buffer)@.subrange(
                old(self).spec_kept(),
                old(self).spec_kept() + read,
            ),
            final(buffer)@.len() == old(buffer)@.len(),
            final(buffer)@.take(final(self).spec_kept()) == final(self).carried(),
    {
        let ghost before = self.seen@;
        let ghost more = buffer@.subrange(self.kept as int, self.kept + read);
        let ghost whole = before + more;
        let ghost start = self.buffer_offset as int;
        let length: usize = buffer.len();
        let filled: usize = self.kept + read;
        let ghost bytes = buffer@;
        proof {
            assert(before.skip(start) == bytes.take(self.kept as int));
            assert(bytes.take(filled as int) =~= whole.skip(start));
            lemma_slots_below_extend(before, more, start);
            lemma_no_late_slot(before, start);
        }

        let mut index: usize = 0;
        while filled - index >= STAMP_MARKER_LEN
            invariant
                filled <= bytes.len(),
                buffer@ == bytes,
                bytes.take(filled as int) == whole.skip(start),
                start == self.buffer_offset,
                0 <= start <= whole.len() <= u64::MAX,
                filled == whole.len() - start,
                start + index <= whole.len(),
                index <= filled,
                self.slots == slots_below(whole, start + index).len(),
                slot_offsets(whole).len() <= usize::MAX,
                match self.first_slot {
                    None => slots_below(whole, start + index) == Set::<int>::empty(),
                    Some(first) => slots_below(whole, start + index).contains(first as int),
                },
                self.buffer_offset == old(self).buffer_offset,
                self.kept == old(self).kept,
                self.seen == old(self).seen,
                self.readings == old(self).readings,
            decreases filled - index,
        {
            let found: bool = marker_at(buffer, index);
            proof {
                assert(bytes.subrange(index as int, index + STAMP_MARKER_LEN) =~= bytes.take(
                    filled as int,
                ).subrange(index as int, index + STAMP_MARKER_LEN));
                assert(whole.subrange(start + index, start + index + STAMP_MARKER_LEN)
                    =~= whole.skip(start).subrange(index as int, index + STAMP_MARKER_LEN));
                assert(found == slot_at(whole, start + index));
                lemma_slots_below_step(whole, start + index);
                lemma_slots_below_finite(whole, start + index);
                lemma_slots_below_grow(whole, start + index + 1, whole.len() as int);
            }
            if found {
                self.slots = self.slots + 1;
                if self.first_slot.is_none() {
                    self.first_slot = Some(self.buffer_offset + index as u64);
                }
            }
            index = index + 1;
        }
        proof {
            lemma_no_late_slot(whole, start + index);
        }

        let carry: usize = STAMP_MARKER_LEN - 1;
        let kept: usize = if filled < carry {
            filled
        } else {
            carry
        };
        let shift: usize = filled - kept;
        carry_over(buffer, filled, kept);
        self.kept = kept;
        self.buffer_offset = self.buffer_offset + shift as u64;
        self.seen = Ghost(whole);
        proof {
            assert(bytes.subrange(shift as int, filled as int) =~= bytes.take(
                filled as int,
            ).skip(shift as int));
            assert(whole.skip(start).skip(shift as int) =~= whole.skip(whole.len() - kept));
        }
    }

    /// The reading that a read which came out as `outcome` gave into `buffer`.
    pub open spec fn reading(&self, buffer: Seq<u8>, outcome: ReadOutcome) -> Reading {
        match outcome {
            ReadOutcome::Bytes(read) => Reading::Bytes(
                buffer.subrange(self.spec_kept(), self.spec_kept() + read),
            ),
            ReadOutcome::Interrupted => Reading::Interrupted,
            ReadOutcome::Failed(error) => Reading::Failed(error@),
        }
    }

    /// Takes what came of reading on behind the carried bytes of `buffer`. What the search reports
    /// comes back once a read ends it.
    pub fn take(&mut self, buffer: &mut [u8], outcome: ReadOutcome) -> (located: Option<
        Result<u64, StampError>,
    >)
        requires
            old(self).valid(),
            old(buffer)@.len() >= STAMP_MARKER_LEN,
            old(buffer)@.take(old(self).spec_kept()) == old(self).carried(),
            outcome matches ReadOutcome::Bytes(read) ==> {
                &&& old(self).spec_kept() + read <= old(buffer)@.len()
                &&& old(self).seen().len() + read <= u64::MAX
                &&& slot_offsets(
                    old(self).seen() + old(buffer)@.subrange(
                        old(self).spec_kept(),
                        old(self).spec_kept() + read,
                    ),
                ).len() <= usize::MAX
            },
        ensures
            final(self).valid(),
            final(self).readings() == old(self).readings().push(
                old(self).reading(old(buffer)@, outcome),
            ),
            final(self).seen() == bytes_of(final(self).readings()),
            final(buffer)@.len() == old(buffer)@.len(),
            final(buffer)@.take(final(self).spec_kept()) == final(self).carried(),
            match located {
                Some(located) => ends(final(self).readings().last()) && is_reported(
                    final(self).readings(),
                    located,
                ),
                None => !ends(final(self).readings().last()),
            },
    {
        match outcome {
            ReadOutcome::Bytes(read) => {
                self.absorb(buffer, read);
                if read == 0 {
                    Some(self.finish())
                } else {
                    None
                }
            },
            ReadOutcome::Interrupted => {
                self.readings = Ghost(self.readings@.push(Reading::Interrupted));
                proof {
                    assert(self.readings@.drop_last() =~= old(self).readings@);
                }
                None
            },
            ReadOutcome::Failed(error) => {
                self.readings = Ghost(self.readings@.push(Reading::Failed(error@)));
                proof {
                    assert(self.readings@.drop_last() =~= old(self).readings@);
                }
                Some(Err(StampError::Io(error)))
            },
        }
    }

    /// What the search has to report once the artifact is read to its end.
    pub fn finish(&self) -> (located: Result<u64, StampError>)
        requires
            self.valid(),
        ensures
            is_located(self.seen(), located),
    {
        let ghost slots = slot_offsets(self.seen@);
        proof {
            lemma_slots_below_finite(self.seen@, self.seen@.len() as int);
        }
        let slot: u64 = match self.first_slot {
            None => {
                return Err(StampError::NoSlot);
            },
            Some(first) => first,
        };
        proof {
            assert(slots.contains(slot as int));
            assert(slots.len() == slots.remove(slot as int).len() + 1);
        }
        if self.slots != 1 {
            return Err(StampError::SeveralSlots(self.slots));
        }
        proof {
            assert(slots.remove(slot as int) =~= Set::<int>::empty());
            assert(slots =~= set![slot as int]);
        }
        let field: u64 = slot + STAMP_MARKER_LEN as u64;
        let length: u64 = self.buffer_offset + self.kept as u64;
        if length - field < STAMP_BUILD_CAPACITY as u64 {
            proof {
                assert(slot as int + STAMP_MARKER_LEN == field);
            }
            return Err(StampError::TruncatedSlot);
        }
        Ok(field)
    }
}

/// The offset of the build name field in the one version slot `artifact` holds.
///
/// `artifact` is read through `buffer`, which must be at least as long as the marker, as much of it
/// at a time as the buffer has room for.
pub fn locate_build_field(artifact: &[u8], buffer: &mut [u8]) -> (located: Result<u64, StampError>)
    requires
        old(buffer)@.len() >= STAMP_MARKER_LEN,
    ensures
        is_located(artifact@, located),
        final(buffer)@.len() == old(buffer)@.len(),
{
    let total: usize = artifact.len();
    let capacity: usize = buffer.len();
    let mut search = SlotSearch::new();
    let mut consumed: usize = 0;
    proof {
        assert(artifact@.take(0) =~= Seq::<u8>::empty());
        assert(buffer@.take(0) =~= search.carried());
    }
    while consumed < total
        invariant
            search.valid(),
            consumed <= total == artifact@.len(),
            capacity == buffer@.len() == old(buffer)@.len(),
            capacity >= STAMP_MARKER_LEN,
            search.seen() == artifact@.take(consumed as int),
            buffer@.take(search.spec_kept()) == search.carried(),
        decreases total - consumed,
    {
        let kept: usize = search.kept();
        let room: usize = capacity - kept;
        let left: usize = total - consumed;
        let read: usize = if left < room {
            left
        } else {
            room
        };
        let ghost front = buffer@.take(kept as int);
        let mut i: usize = 0;
        while i < read
            invariant
                i <= read,
                kept + read <= capacity == buffer@.len(),
                consumed + read <= total == artifact@.len(),
                buffer@.take(kept as int) == front,
                buffer@.subrange(kept as int, kept + i) == artifact@.subrange(
                    consumed as int,
                    consumed + i,
                ),
            decreases read - i,
        {
            let ghost copied = buffer@.subrange(kept as int, kept + i);
            buffer[kept + i] = artifact[consumed + i];
            proof {
                assert(buffer@.take(kept as int) =~= front);
                assert(buffer@.subrange(kept as int, kept + i + 1) =~= copied.push(
                    artifact@[consumed + i],
                ));
                assert(artifact@.subrange(consumed as int, consumed + i + 1) =~= copied.push(
                    artifact@[consumed + i],
                ));
            }
            i = i + 1;
        }
        proof {
            assert(artifact@.take(consumed as int) + artifact@.subrange(
                consumed as int,
                consumed + read,
            ) =~= artifact@.take(consumed + read));
            lemma_slots_below_finite(artifact@.take(consumed + read), consumed + read);
        }
        search.absorb(buffer, read);
        consumed = consumed + read;
    }
    proof {
        assert(artifact@.take(total as int) =~= artifact@);
    }
    search.finish()
}

} // verus!
