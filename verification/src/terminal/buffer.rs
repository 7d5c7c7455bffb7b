//! A buffer of fixed size that keeps the bytes written last.
use vstd::prelude::*;
use crate::text::scan::{lemma_tail_append, tail};

verus! {

/// Keeps at most `max_size` bytes; once it is full, a new byte takes the place of the oldest.
pub struct CircularBuffer {
    pub data: Vec<u8>,
    position: usize,
    max_size: usize,
}

/// The stored bytes read from `start` on to their end, and then from their beginning up to `start`.
pub open spec fn rotated(stored: Seq<u8>, start: nat) -> Seq<u8> {
    stored.skip(start as int) + stored.take(start as int)
}

/// Where one more byte goes: behind the others while there is room, then over the oldest one, which
/// stands at `start`.
pub open spec fn placed(stored: Seq<u8>, start: nat, max_size: nat, byte: u8) -> (Seq<u8>, nat) {
    if stored.len() < max_size {
        (stored.push(byte), start)
    } else {
        (stored.update(start as int, byte), (start + 1) % max_size)
    }
}

/// Where several bytes go, one after the other.
pub open spec fn all_placed(stored: Seq<u8>, start: nat, max_size: nat, bytes: Seq<u8>) -> (
    Seq<u8>,
    nat,
)
    decreases bytes.len(),
{
    if bytes.len() == 0 {
        (stored, start)
    } else {
        let (before, at) = all_placed(stored, start, max_size, bytes.drop_last());
        placed(before, at, max_size, bytes.last())
    }
}

/// How many bytes are stored after `more` bytes were written.
pub open spec fn stored_len(before: nat, more: nat, max_size: nat) -> nat {
    if before + more < max_size {
        before + more
    } else {
        max_size
    }
}

impl View for CircularBuffer {
    type V = Seq<u8>;

    /// The bytes held, the oldest first.
    open spec fn view(&self) -> Seq<u8> {
        rotated(self.stored(), self.start())
    }
}

impl CircularBuffer {
    /// The bytes of `data`, as they are stored.
    pub closed spec fn stored(&self) -> Seq<u8> {
        self.data@
    }

    /// Where the oldest byte is stored.
    pub closed spec fn start(&self) -> nat {
        self.position as nat
    }

    /// How many bytes are kept at most.
    pub closed spec fn max_size(&self) -> nat {
        self.max_size as nat
    }

    /// The store never exceeds its size, and only a full store has wrapped around.
    pub open spec fn wf(&self) -> bool {
        &&& self.stored().len() <= self.max_size()
        &&& self.start() == 0 || self.start() < self.max_size()
        &&& self.stored().len() < self.max_size() ==> self.start() == 0
    }

    /// An empty buffer that keeps at most `max_size` bytes.
    pub fn new(max_size: usize) -> (buffer: Self)
        requires
            max_size <= isize::MAX,
        ensures
            buffer.wf(),
            buffer.max_size() == max_size,
            buffer.stored() == Seq::<u8>::empty(),
            buffer.start() == 0,
            buffer@ == Seq::<u8>::empty(),
    {
        let buffer = CircularBuffer {
            data: Vec::with_capacity(max_size),
            position: 0,
            max_size,
        };
        assert(buffer@ =~= Seq::<u8>::empty());
        buffer
    }

    /// Writes one byte after the others.
    fn write_byte(&mut self, byte: u8)
        requires
            old(self).wf(),
            old(self).max_size() > 0,
        ensures
            final(self).wf(),
            final(self).max_size() == old(self).max_size(),
            (final(self).stored(), final(self).start()) == placed(
                old(self).stored(),
                old(self).start(),
                old(self).max_size(),
                byte,
            ),
            final(self)@ == tail(old(self)@.push(byte), old(self).max_size()),
    {
        if self.data.len() < self.max_size {
            self.data.push(byte);
            assert(self@ =~= old(self)@.push(byte));
        } else {
            let at: usize = self.position;
            self.data[at] = byte;
            self.position = (at + 1) % self.max_size;
            proof {
                if at + 1 < self.max_size {
                    vstd::arithmetic::div_mod::lemma_small_mod(
                        (at + 1) as nat,
                        self.max_size as nat,
                    );
                } else {
                    vstd::arithmetic::div_mod::lemma_mod_self_0(self.max_size as int);
                }
            }
            assert(self@ =~= old(self)@.push(byte).skip(1));
        }
    }

    /// Writes `new_data` after what is held; of all bytes ever written the last `max_size` stay.
    pub fn write(&mut self, new_data: &[u8])
        requires
            old(self).wf(),
            old(self).max_size() > 0 || new_data@.len() == 0,
        ensures
            final(self).wf(),
            final(self).max_size() == old(self).max_size(),
            (final(self).stored(), final(self).start()) == all_placed(
                old(self).stored(),
                old(self).start(),
                old(self).max_size(),
                new_data@,
            ),
            final(self).stored().len() == stored_len(
                old(self).stored().len(),
                new_data@.len(),
                old(self).max_size(),
            ),
            final(self)@ == tail(old(self)@ + new_data@, old(self).max_size()),
    {
        let ghost before = self@;
        let ghost (stored, start) = (self.stored(), self.start());
        assert(before + new_data@.take(0) =~= before);
        let mut i: usize = 0;
        while i < new_data.len()
            invariant
                i <= new_data@.len(),
                self.wf(),
                self.max_size() == old(self).max_size(),
                self.max_size() > 0 || new_data@.len() == 0,
                before == old(self)@,
                stored == old(self).stored(),
                start == old(self).start(),
                stored.len() <= self.max_size(),
                (self.stored(), self.start()) == all_placed(
                    stored,
                    start,
                    self.max_size(),
                    new_data@.take(i as int),
                ),
                self.stored().len() == stored_len(stored.len(), i as nat, self.max_size()),
                self@ == tail(before + new_data@.take(i as int), self.max_size()),
            decreases new_data@.len() - i,
        {
            let ghost held = self@;
            self.write_byte(new_data[i]);
            proof {
                let byte = new_data@[i as int];
                let so_far = before + new_data@.take(i as int);
                let front = new_data@.take(i + 1);
                assert(front.drop_last() =~= new_data@.take(i as int));
                assert(front.last() == byte);
                assert(held.push(byte) =~= held + seq![byte]);
                lemma_tail_append(so_far, seq![byte], self.max_size());
                assert(so_far + seq![byte] =~= before + front);
            }
            i = i + 1;
        }
        assert(new_data@.take(i as int) =~= new_data@);
    }

    /// The bytes held, the oldest first: the stored ones, rotated so that the oldest comes first.
    pub fn get_contents(&self) -> (contents: Vec<u8>)
        requires
            self.wf(),
        ensures
            contents@ == self@,
            contents@ == rotated(self.stored(), self.start()),
            contents@.len() == self.stored().len(),
            contents@.to_multiset() == self.stored().to_multiset(),
            self.stored().len() < self.max_size() ==> contents@ == self.stored(),
    {
        let mut contents: Vec<u8> = Vec::with_capacity(self.data.len());
        let (newest, oldest) = self.data.as_slice().split_at(self.position);
        contents.extend_from_slice(oldest);
        contents.extend_from_slice(newest);
        assert(contents@ =~= self@);
        proof {
            law_contents_are_the_stored_bytes(self.stored(), self.start());
        }
        contents
    }
}

/// What is held are the stored bytes, each as often as it is stored; from the beginning on, where
/// nothing has wrapped around.
pub proof fn law_contents_are_the_stored_bytes(stored: Seq<u8>, start: nat)
    requires
        start <= stored.len(),
    ensures
        rotated(stored, start).len() == stored.len(),
        rotated(stored, start).to_multiset() == stored.to_multiset(),
        rotated(stored, 0) == stored,
{
    let (newest, oldest) = (stored.take(start as int), stored.skip(start as int));
    vstd::seq_lib::lemma_multiset_commutative(oldest, newest);
    vstd::seq_lib::lemma_multiset_commutative(newest, oldest);
    assert(newest + oldest =~= stored);
    assert(oldest.to_multiset().add(newest.to_multiset()) =~= newest.to_multiset().add(
        oldest.to_multiset(),
    ));
    assert(rotated(stored, 0) =~= stored);
}

/// However the bytes are cut into writes, they are stored at the same places.
pub proof fn law_places_do_not_depend_on_cuts(
    stored: Seq<u8>,
    start: nat,
    max_size: nat,
    first: Seq<u8>,
    second: Seq<u8>,
)
    ensures
        ({
            let (between, at) = all_placed(stored, start, max_size, first);
            all_placed(between, at, max_size, second) == all_placed(
                stored,
                start,
                max_size,
                first + second,
            )
        }),
    decreases second.len(),
{
    if second.len() == 0 {
        assert(first + second =~= first);
    } else {
        law_places_do_not_depend_on_cuts(stored, start, max_size, first, second.drop_last());
        assert((first + second).drop_last() =~= first + second.drop_last());
        assert((first + second).last() == second.last());
    }
}

/// Two writes in a row leave what one write of both leaves.
pub proof fn law_writes_join(held: Seq<u8>, first: Seq<u8>, second: Seq<u8>, max_size: nat)
    ensures
        tail(tail(held + first, max_size) + second, max_size) == tail(
            held + (first + second),
            max_size,
        ),
{
    lemma_tail_append(held + first, second, max_size);
    assert(held + first + second =~= held + (first + second));
}

/// Nothing is lost while everything fits.
pub proof fn law_nothing_lost_while_it_fits(held: Seq<u8>, new_data: Seq<u8>, max_size: nat)
    requires
        held.len() + new_data.len() <= max_size,
    ensures
        tail(held + new_data, max_size) == held + new_data,
{
}

/// What an empty buffer holds after a series of writes.
pub open spec fn after_writes(writes: Seq<Seq<u8>>, max_size: nat) -> Seq<u8>
    decreases writes.len(),
{
    if writes.len() == 0 {
        Seq::empty()
    } else {
        tail(after_writes(writes.drop_last(), max_size) + writes.last(), max_size)
    }
}

/// All bytes of a series of writes.
pub open spec fn all_written(writes: Seq<Seq<u8>>) -> Seq<u8>
    decreases writes.len(),
{
    if writes.len() == 0 {
        Seq::empty()
    } else {
        all_written(writes.drop_last()) + writes.last()
    }
}

/// However the bytes were cut into writes, the last `max_size` of them are what is held.
pub proof fn law_last_bytes_stay(writes: Seq<Seq<u8>>, max_size: nat)
    ensures
        after_writes(writes, max_size) == tail(all_written(writes), max_size),
    decreases writes.len(),
{
    if writes.len() > 0 {
        law_last_bytes_stay(writes.drop_last(), max_size);
        lemma_tail_append(all_written(writes.drop_last()), writes.last(), max_size);
    }
}

} // verus!
