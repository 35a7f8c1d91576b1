//! Sequence ids and the circular buffer that is indexed by them.
use vstd::prelude::*;

verus! {

/// Maximum sequence id, as a `u8`.
pub const SID_MAX_U8: u8 = 31;

/// Number of distinct sequence ids.
pub const SID_COUNT: usize = 32;

/// Sequence id of a message.
#[derive(Debug, Copy, Clone, PartialEq, Eq, Structural)]
pub struct Sid {
    /// Internal value; the ids that go over the wire are `0..=SID_MAX_U8`.
    pub v: u8,
}

/// The id that is `n` steps after `sid` on the circle of the sequence ids.
pub open spec fn sid_plus(sid: Sid, n: int) -> Sid {
    Sid { v: ((sid.v + n) % 32) as u8 }
}

/// The number of ids that are visited when going round the circle from `start`
/// until `end` is met again; at least one, and all of them if `start` is `end`.
pub open spec fn sid_distance(start: Sid, end: Sid) -> int {
    (end.v - start.v - 1) % 32 + 1
}

/// The ids from `start` up to, but not with, `end`; the full circle if they are equal.
pub open spec fn sid_range(start: Sid, end: Sid) -> Seq<Sid> {
    Seq::new(sid_distance(start, end) as nat, |k: int| sid_plus(start, k))
}

impl Sid {
    /// Whether the id can be sent: it fits in five bits.
    pub open spec fn valid(self) -> bool {
        self.v <= SID_MAX_U8
    }

    /// The id that follows this one.
    pub open spec fn succ(self) -> Sid {
        if self.v == SID_MAX_U8 {
            Sid { v: 0 }
        } else {
            Sid { v: (self.v + 1) as u8 }
        }
    }

    /// Create a new sequence id
    pub fn new(v: u8) -> (sid: Self)
        ensures
            sid.v == v,
    {
        Sid { v }
    }

    /// Go to the next sequence id
    pub fn next(&mut self)
        requires
            old(self).v < 255,
        ensures
            *final(self) == old(self).succ(),
    {
        if self.v == SID_MAX_U8 {
            self.v = 0;
        } else {
            self.v = self.v + 1;
        }
    }

    /// As usize
    pub fn as_usize(&self) -> (n: usize)
        ensures
            n == self.v,
    {
        self.v as usize
    }

    /// As u16
    pub fn as_u16(&self) -> (n: u16)
        ensures
            n == self.v,
    {
        self.v as u16
    }

    /// From the lowest byte of a u32
    pub fn from_u32_lsb(v: u32) -> (sid: Self)
        ensures
            sid.v == v % 256,
    {
        assert(v as u8 == v % 256) by (bit_vector);
        Sid { v: v as u8 }
    }

    /// Get the maximum sequence id
    pub fn max() -> (sid: Self)
        ensures
            sid.v == SID_MAX_U8,
    {
        Sid { v: SID_MAX_U8 }
    }

    /// Iterator for sequence id
    /// If @end is reached, the iterator will return None
    pub fn iter(&self, end: Sid) -> (it: SidIter)
        ensures
            it.sid == *self,
            it.end == end,
            !it.eof,
            self.valid() && end.valid() ==> it.wf() && it.remaining() == sid_range(*self, end),
    {
        SidIter { sid: *self, end, eof: false }
    }
}

impl Default for Sid {
    fn default() -> (sid: Self)
        ensures
            sid.v == 0,
    {
        Sid { v: 0 }
    }
}

impl PartialOrd for Sid {
    fn partial_cmp(&self, other: &Self) -> (o: Option<core::cmp::Ordering>) {
        if self.v < other.v {
            Some(core::cmp::Ordering::Less)
        } else if self.v == other.v {
            Some(core::cmp::Ordering::Equal)
        } else {
            Some(core::cmp::Ordering::Greater)
        }
    }
}

impl vstd::std_specs::cmp::PartialOrdSpecImpl for Sid {
    open spec fn obeys_partial_cmp_spec() -> bool {
        true
    }

    open spec fn partial_cmp_spec(&self, other: &Self) -> Option<core::cmp::Ordering> {
        if self.v < other.v {
            Some(core::cmp::Ordering::Less)
        } else if self.v == other.v {
            Some(core::cmp::Ordering::Equal)
        } else {
            Some(core::cmp::Ordering::Greater)
        }
    }
}

/// Iterator for sequence id
pub struct SidIter {
    /// Current sequence id
    pub sid: Sid,
    /// End sequence id: the iterator stops when it gets there
    pub end: Sid,
    /// Whether the end has been reached
    pub eof: bool,
}

impl SidIter {
    /// Both ids are valid, and the iterator has stopped only at its end.
    pub open spec fn wf(self) -> bool {
        &&& self.sid.valid()
        &&& self.end.valid()
        &&& self.eof ==> self.sid == self.end
    }

    /// The ids that are still to come.
    pub open spec fn remaining(self) -> Seq<Sid> {
        if self.eof {
            Seq::empty()
        } else {
            sid_range(self.sid, self.end)
        }
    }

    /// The next sequence id, or `None` once the end has been reached
    pub fn next(&mut self) -> (r: Option<Sid>)
        requires
            old(self).eof || old(self).sid.v < 255,
        ensures
            old(self).eof ==> r is None && *final(self) == *old(self),
            !old(self).eof ==> {
                &&& r == Some(old(self).sid)
                &&& final(self).sid == old(self).sid.succ()
                &&& final(self).end == old(self).end
                &&& final(self).eof == (final(self).sid == final(self).end)
            },
            old(self).wf() ==> {
                &&& final(self).wf()
                &&& old(self).remaining().len() == 0 ==> r is None
                &&& old(self).remaining().len() > 0 ==> {
                    &&& r == Some(old(self).remaining()[0])
                    &&& final(self).remaining() == old(self).remaining().drop_first()
                }
            },
    {
        if self.eof {
            return None;
        }
        let r = Some(self.sid);
        self.sid.next();
        if self.sid == self.end {
            self.eof = true;
        }
        proof {
            if old(self).wf() {
                lemma_sid_range_step(old(self).sid, old(self).end);
            }
        }
        r
    }
}

proof fn lemma_sid_range_step(start: Sid, end: Sid)
    requires
        start.valid(),
        end.valid(),
    ensures
        sid_range(start, end).len() >= 1,
        sid_range(start, end)[0] == start,
        start.succ() == end ==> sid_range(start, end).len() == 1,
        start.succ() != end ==> sid_range(start, end).drop_first() == sid_range(start.succ(), end),
{
    let next = start.succ();
    if next != end {
        assert(sid_distance(next, end) == sid_distance(start, end) - 1);
        assert forall|k: int| 0 <= k < sid_distance(next, end) implies sid_plus(next, k)
            == #[trigger] sid_plus(start, k + 1) by {
            assert((next.v + k) % 32 == (start.v + k + 1) % 32);
        }
        assert(sid_range(start, end).drop_first() =~= sid_range(next, end));
    }
}

/// Stepping through the ids comes back to where it started after `SID_COUNT` steps,
/// and not before.
pub proof fn law_sid_cycle(sid: Sid, n: int)
    requires
        sid.valid(),
        0 < n <= 32,
    ensures
        sid_plus(sid, 0) == sid,
        sid_plus(sid, 1) == sid.succ(),
        sid_plus(sid, n) == sid_plus(sid, n - 1).succ(),
        sid_plus(sid, n) == sid <==> n == 32,
        sid.succ().valid(),
{
}

/// Going round from an id to itself visits every valid id exactly once.
pub proof fn law_full_circle(start: Sid, sid: Sid)
    requires
        start.valid(),
        sid.valid(),
    ensures
        sid_range(start, start).len() == 32,
        sid_range(start, start).no_duplicates(),
        sid_range(start, start).contains(sid),
{
    let k = (sid.v - start.v) % 32;
    assert(sid_range(start, start)[k] == sid);
}

/// The number of slots that hold a value.
pub open spec fn count_some<T>(slots: Seq<Option<T>>) -> nat
    decreases slots.len(),
{
    if slots.len() == 0 {
        0
    } else {
        count_some(slots.drop_last()) + if slots.last() is Some {
            1nat
        } else {
            0nat
        }
    }
}

/// Circular buffer to store values by sequence id
#[derive(Debug)]
pub struct CircBuf<T> {
    /// Array of values
    arr: [Option<T>; 32],
    /// Number of elements
    count: usize,
}

impl<T> View for CircBuf<T> {
    type V = Seq<Option<T>>;

    /// The slots, one per sequence id.
    closed spec fn view(&self) -> Seq<Option<T>> {
        self.arr@
    }
}

impl<T: Copy> CircBuf<T> {
    /// The counter tells how many slots are in use.
    pub closed spec fn wf(self) -> bool {
        self.count == count_some(self.arr@)
    }

    /// Create a new circular buffer
    pub fn new() -> (buf: Self)
        ensures
            buf.wf(),
            buf@ == Seq::new(32, |i: int| None::<T>),
    {
        let buf = CircBuf { arr: [None; 32], count: 0 };
        proof {
            lemma_count_none(buf.arr@);
            assert(buf.arr@ =~= Seq::new(32, |i: int| None::<T>));
        }
        buf
    }

    /// Get the value at the sequence id, and remove it
    pub fn take(&mut self, sid: Sid) -> (v: Option<T>)
        requires
            old(self).wf(),
            sid.valid(),
        ensures
            final(self).wf(),
            v == old(self)@[sid.v as int],
            final(self)@ == old(self)@.update(sid.v as int, None),
    {
        let pos: usize = sid.as_usize();
        let v = self.arr[pos];
        proof {
            lemma_count_update(self.arr@, pos as int, None);
        }
        if v.is_some() {
            self.count = self.count - 1;
        }
        self.arr[pos] = None;
        v
    }

    /// Get the value at the sequence id
    /// Does not remove it
    pub fn get(&self, sid: Sid) -> (v: Option<T>)
        requires
            sid.valid(),
        ensures
            v == self@[sid.v as int],
    {
        self.arr[sid.as_usize()]
    }

    /// Insert a value at the sequence id
    pub fn insert(&mut self, sid: Sid, val: T)
        requires
            old(self).wf(),
            sid.valid(),
        ensures
            final(self).wf(),
            final(self)@ == old(self)@.update(sid.v as int, Some(val)),
    {
        let pos: usize = sid.as_usize();
        proof {
            lemma_count_update(self.arr@, pos as int, Some(val));
            lemma_count_bound(self.arr@.update(pos as int, Some(val)));
        }
        if self.arr[pos].is_none() {
            self.count = self.count + 1;
        }
        self.arr[pos] = Some(val);
    }

    /// Remove a value at the sequence id
    pub fn remove(&mut self, sid: Sid)
        requires
            old(self).wf(),
            sid.valid(),
        ensures
            final(self).wf(),
            final(self)@ == old(self)@.update(sid.v as int, None),
    {
        self.take(sid);
    }

    /// Whether the container is empty
    pub fn is_empty(&self) -> (b: bool)
        requires
            self.wf(),
        ensures
            b == (forall|i: int| 0 <= i < 32 ==> self@[i] is None),
    {
        proof {
            lemma_count_zero(self.arr@);
        }
        self.count == 0
    }
}

impl<T: Copy> Default for CircBuf<T> {
    fn default() -> (buf: Self)
        ensures
            buf.wf(),
            buf@ == Seq::new(32, |i: int| None::<T>),
    {
        Self::new()
    }
}

/// A buffer has one slot for each sequence id.
pub proof fn law_slot_per_sid<T: Copy>(buf: CircBuf<T>)
    ensures
        buf@.len() == 32,
{
}

proof fn lemma_count_bound<T>(slots: Seq<Option<T>>)
    ensures
        count_some(slots) <= slots.len(),
    decreases slots.len(),
{
    if slots.len() > 0 {
        lemma_count_bound(slots.drop_last());
    }
}

proof fn lemma_count_none<T>(slots: Seq<Option<T>>)
    requires
        forall|i: int| 0 <= i < slots.len() ==> slots[i] is None,
    ensures
        count_some(slots) == 0,
    decreases slots.len(),
{
    if slots.len() > 0 {
        lemma_count_none(slots.drop_last());
    }
}

proof fn lemma_count_zero<T>(slots: Seq<Option<T>>)
    ensures
        count_some(slots) == 0 <==> forall|i: int| 0 <= i < slots.len() ==> slots[i] is None,
    decreases slots.len(),
{
    if slots.len() > 0 {
        let rest = slots.drop_last();
        lemma_count_zero(rest);
        if forall|i: int| 0 <= i < slots.len() ==> slots[i] is None {
            assert forall|i: int| 0 <= i < rest.len() implies rest[i] is None by {
                assert(rest[i] == slots[i]);
            }
        }
        if count_some(slots) == 0 {
            assert forall|i: int| 0 <= i < slots.len() implies slots[i] is None by {
                if i < rest.len() {
                    assert(rest[i] == slots[i]);
                }
            }
        }
    }
}

proof fn lemma_count_update<T>(slots: Seq<Option<T>>, pos: int, val: Option<T>)
    requires
        0 <= pos < slots.len(),
    ensures
        count_some(slots.update(pos, val)) + (if slots[pos] is Some {
            1int
        } else {
            0int
        }) == count_some(slots) + (if val is Some {
            1int
        } else {
            0int
        }),
    decreases slots.len(),
{
    let after = slots.update(pos, val);
    if pos == slots.len() - 1 {
        assert(after.drop_last() =~= slots.drop_last());
    } else {
        assert(after.drop_last() =~= slots.drop_last().update(pos, val));
        lemma_count_update(slots.drop_last(), pos, val);
    }
}

/// The ids go round in a circle of 32: each step is one on, and behind the last comes zero.
pub proof fn law_next_is_one_on(sid: &mut Sid)
    requires
        old(sid).v < 32,
        call_ensures(Sid::next, (sid,), ()),
    ensures
        final(sid).v == (old(sid).v + 1) % 32,
{
}

/// An id is its number, in whatever size it is given, and is made of the lowest byte.
pub proof fn law_sid_is_its_number(
    v: u8,
    word: u32,
    sid: Sid,
    read: Sid,
    max: Sid,
    as_usize: usize,
    as_u16: u16,
)
    requires
        call_ensures(Sid::new, (v,), sid),
        call_ensures(Sid::as_usize, (&sid,), as_usize),
        call_ensures(Sid::as_u16, (&sid,), as_u16),
        call_ensures(Sid::from_u32_lsb, (word,), read),
        call_ensures(Sid::max, (), max),
    ensures
        as_usize == v,
        as_u16 == v,
        word as int / 256 * 256 + read.v == word,
        max.v == 31,
{
}

/// An iteration starts at its first id.
pub proof fn law_iteration_starts(start: Sid, end: Sid, it: SidIter)
    requires
        call_ensures(Sid::iter, (&start, end), it),
    ensures
        it.sid == start,
        it.end == end,
        !it.eof,
{
}

/// An iteration visits the ids one after the other, the first one included, and stops when it
/// would come to the last one.
pub proof fn law_iteration_goes_one_by_one(it: &mut SidIter, r: Option<Sid>)
    requires
        old(it).sid.v < 32,
        !old(it).eof,
        call_ensures(SidIter::next, (it,), r),
    ensures
        r == Some(old(it).sid),
        final(it).sid.v == (old(it).sid.v + 1) % 32,
        final(it).end == old(it).end,
        final(it).eof <==> (old(it).sid.v + 1) % 32 == old(it).end.v,
{
}

/// An iteration that has come to its end gives nothing more.
pub proof fn law_iteration_stops(it: &mut SidIter, r: Option<Sid>)
    requires
        call_ensures(SidIter::next, (it,), r),
        old(it).eof,
    ensures
        r is None,
        final(it).eof,
{
}

/// What is stored under an id is what is read there, until it is taken or replaced; the other
/// ids are not touched.
pub proof fn law_stored_under_its_id<T: Copy>(
    buf: &mut CircBuf<T>,
    sid: Sid,
    other: Sid,
    val: T,
    there: Option<T>,
    elsewhere: Option<T>,
    before: Option<T>,
)
    requires
        old(buf).wf(),
        sid.v < 32,
        other.v < 32,
        other != sid,
        call_ensures(CircBuf::<T>::get, (&*old(buf), other), before),
        call_ensures(CircBuf::<T>::insert, (buf, sid, val), ()),
        call_ensures(CircBuf::<T>::get, (&*final(buf), sid), there),
        call_ensures(CircBuf::<T>::get, (&*final(buf), other), elsewhere),
    ensures
        there == Some(val),
        elsewhere == before,
{
    law_slot_per_sid(*old(buf));
}

/// Taking gives what was stored under the id and leaves nothing there; the other ids are not
/// touched.
pub proof fn law_taken_is_gone<T: Copy>(
    buf: &mut CircBuf<T>,
    sid: Sid,
    other: Sid,
    taken: Option<T>,
    stored: Option<T>,
    there: Option<T>,
    elsewhere: Option<T>,
    before: Option<T>,
)
    requires
        old(buf).wf(),
        sid.v < 32,
        other.v < 32,
        other != sid,
        call_ensures(CircBuf::<T>::get, (&*old(buf), sid), stored),
        call_ensures(CircBuf::<T>::get, (&*old(buf), other), before),
        call_ensures(CircBuf::<T>::take, (buf, sid), taken),
        call_ensures(CircBuf::<T>::get, (&*final(buf), sid), there),
        call_ensures(CircBuf::<T>::get, (&*final(buf), other), elsewhere),
    ensures
        taken == stored,
        there is None,
        elsewhere == before,
{
    law_slot_per_sid(*old(buf));
}

/// Removing does to the buffer what taking does.
pub proof fn law_removed_is_gone<T: Copy>(
    buf: &mut CircBuf<T>,
    other: &mut CircBuf<T>,
    sid: Sid,
    taken: Option<T>,
)
    requires
        old(buf).wf(),
        sid.v < 32,
        *old(other) == *old(buf),
        call_ensures(CircBuf::<T>::remove, (buf, sid), ()),
        call_ensures(CircBuf::<T>::take, (other, sid), taken),
    ensures
        final(buf)@ == final(other)@,
{
}

/// A new buffer is empty, and a buffer is empty exactly if nothing is stored under any id.
pub proof fn law_empty_has_nothing<T: Copy>(
    new: CircBuf<T>,
    new_is_empty: bool,
    buf: CircBuf<T>,
    is_empty: bool,
    sid: Sid,
    there: Option<T>,
)
    requires
        buf.wf(),
        sid.v < 32,
        call_ensures(CircBuf::<T>::new, (), new),
        call_ensures(CircBuf::<T>::is_empty, (&new,), new_is_empty),
        call_ensures(CircBuf::<T>::is_empty, (&buf,), is_empty),
        call_ensures(CircBuf::<T>::get, (&buf, sid), there),
    ensures
        new_is_empty,
        is_empty ==> there is None,
        (forall|i: int| 0 <= i < 32 ==> #[trigger] buf@[i] is None) ==> is_empty,
{
}

/// The ids are ordered by their numbers.
pub proof fn law_ids_are_ordered(a: Sid, b: Sid, o: Option<core::cmp::Ordering>)
    requires
        call_ensures(Sid::partial_cmp, (&a, &b), o),
    ensures
        o == Some(core::cmp::Ordering::Less) <==> a.v < b.v,
        o == Some(core::cmp::Ordering::Equal) <==> a.v == b.v,
        o == Some(core::cmp::Ordering::Greater) <==> a.v > b.v,
{
}

} // verus!
