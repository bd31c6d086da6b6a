//! The hit watcher: from change notices of the hit queue to batches of block indices.
//!
//! Anyone may append block indices to the hit queue, a window property that
//! holds a list of 32-bit integers. The watcher is told of every change of a
//! property. For a change of the queue it asks for the queue to be read and
//! emptied, and makes one batch of what was read.

use vstd::prelude::*;
use x11rb::protocol::xproto::GetPropertyReply;

verus! {

/// The state that a property notice carries when the property was deleted.
pub const PROPERTY_DELETE: u8 = 1;

/// The format of a property that holds 32-bit values.
pub const FORMAT_32: u8 = 32;

/// How many 32-bit values are read from the hit queue at most in one read.
pub const READ_LENGTH: u32 = 1024;

/// A change notice: which property of which window changed, and how.
#[derive(Debug, Clone, Copy, PartialEq, Eq)]
pub struct PropertyNotice {
    pub window: u32,
    pub atom: u32,
    pub state: u8,
}

/// What a read of a property returned: the format of its values and their bytes.
#[derive(Debug, Clone, PartialEq, Eq)]
pub struct PropertyRead {
    pub format: u8,
    pub value: Vec<u8>,
}

/// `values` without repetitions: of each value the first occurrence stays, in its place.
pub open spec fn first_occurrences(values: Seq<usize>) -> Seq<usize>
    decreases values.len(),
{
    if values.len() == 0 {
        Seq::empty()
    } else {
        let front = first_occurrences(values.drop_last());
        if front.contains(values.last()) {
            front
        } else {
            front.push(values.last())
        }
    }
}

/// The block indices that the 32-bit values of the hit queue stand for.
pub open spec fn as_indices(values: Seq<u32>) -> Seq<usize> {
    values.map_values(|value: u32| value as usize)
}

/// The 32-bit value of four bytes. With `little` the first byte counts least,
/// without it the first byte counts most.
pub open spec fn word(bytes: Seq<u8>, little: bool) -> u32 {
    if little {
        (bytes[0] + bytes[1] * 0x100 + bytes[2] * 0x1_0000 + bytes[3] * 0x100_0000) as u32
    } else {
        (bytes[3] + bytes[2] * 0x100 + bytes[1] * 0x1_0000 + bytes[0] * 0x100_0000) as u32
    }
}

/// The 32-bit values that `bytes` hold, one for every four bytes. Bytes left
/// over at the end count for nothing.
pub open spec fn words(bytes: Seq<u8>, little: bool) -> Seq<u32> {
    Seq::new((bytes.len() / 4) as nat, |i: int| word(bytes.subrange(4 * i, 4 * i + 4), little))
}

/// Whether `list` holds `value`.
fn holds(list: &Vec<usize>, value: usize) -> (found: bool)
    ensures
        found == list@.contains(value),
{
    let mut i: usize = 0;
    while i < list.len()
        invariant
            i <= list.len(),
            forall|k: int| 0 <= k < i ==> list[k] != value,
        decreases list.len() - i,
    {
        if list[i] == value {
            return true;
        }
        i += 1;
    }
    false
}

/// Trusted: builds a `GetPropertyReply` of x11rb from `format` and `bytes` and
/// collects what its method `value32` yields. The method gives nothing unless
/// the format is 32, and else one value for every four bytes, read in the
/// byte order of the machine; bytes left over at the end are dropped. The
/// contract claims when there is a list, and that the list holds the values
/// of the bytes in one of the two byte orders.
#[verifier::external_body]
fn values32(format: u8, bytes: &Vec<u8>) -> (values: Option<Vec<u32>>)
    ensures
        values is Some <==> format == FORMAT_32,
        values matches Some(list) ==> list@ == words(bytes@, true) || list@ == words(bytes@, false),
{
    let reply = GetPropertyReply { format, value: bytes.clone(), ..Default::default() };
    let values = match reply.value32() {
        Some(words) => Some(words.collect()),
        None => None,
    };
    values
}

/// Watches one property of one window: the hit queue.
#[derive(Debug, Clone, Copy, PartialEq, Eq)]
pub struct HitWatcher {
    /// The window that carries the hit queue.
    pub window: u32,
    /// The atom that names the hit queue.
    pub atom: u32,
}

impl HitWatcher {
    /// Whether `notice` tells of new content in the hit queue.
    pub open spec fn wants(&self, notice: PropertyNotice) -> bool {
        notice.window == self.window && notice.atom == self.atom && notice.state != PROPERTY_DELETE
    }

    /// A watcher of the property `atom` of `window`.
    pub fn new(window: u32, atom: u32) -> (watcher: Self)
        ensures
            watcher.window == window,
            watcher.atom == atom,
    {
        HitWatcher { window, atom }
    }

    /// Whether the hit queue is to be read after `notice`. A notice of another
    /// property or window, or of a deletion, is passed over.
    pub fn accepts(&self, notice: &PropertyNotice) -> (accepted: bool)
        ensures
            accepted == self.wants(*notice),
    {
        notice.window == self.window && notice.atom == self.atom && notice.state != PROPERTY_DELETE
    }

    /// The batch for the values read from the hit queue: each value once, in
    /// the order in which the values first occur. No batch when nothing was read.
    pub fn batch(values: &Vec<u32>) -> (batch: Option<Vec<usize>>)
        ensures
            batch is Some <==> values@.len() > 0,
            batch matches Some(indices) ==> indices@ == first_occurrences(as_indices(values@)),
    {
        if values.len() == 0 {
            return None;
        }
        let ghost all = as_indices(values@);
        let mut indices: Vec<usize> = Vec::new();
        let mut i: usize = 0;
        assert(all.take(0) == Seq::<usize>::empty());
        while i < values.len()
            invariant
                i <= values.len(),
                all == as_indices(values@),
                indices@ == first_occurrences(all.take(i as int)),
            decreases values.len() - i,
        {
            let index = values[i] as usize;
            proof {
                let done = all.take(i as int);
                assert(all.take(i + 1) == done.push(index));
                assert(done.push(index).drop_last() == done);
            }
            if !holds(&indices, index) {
                indices.push(index);
            }
            i += 1;
        }
        assert(all.take(values.len() as int) == all);
        Some(indices)
    }

    /// The batch for a read of the hit queue: the values that the bytes of
    /// the read hold, in the byte order of the machine, each once and in the
    /// order in which they first occur. A read that failed, one that does not
    /// hold 32-bit values and one that holds no value at all give no batch.
    pub fn pending(read: Option<&PropertyRead>) -> (batch: Option<Vec<usize>>)
        ensures
            batch is Some <==> (read matches Some(r) && r.format == FORMAT_32 && r.value@.len()
                >= 4),
            batch matches Some(indices) ==> {
                ||| indices@ == first_occurrences(as_indices(words(read->0.value@, true)))
                ||| indices@ == first_occurrences(as_indices(words(read->0.value@, false)))
            },
    {
        match read {
            Some(read) => match values32(read.format, &read.value) {
                Some(values) => Self::batch(&values),
                None => None,
            },
            None => None,
        }
    }
}

/// What `first_occurrences` keeps: every value of `values`, each exactly once.
pub proof fn lemma_first_occurrences(values: Seq<usize>)
    ensures
        first_occurrences(values).no_duplicates(),
        first_occurrences(values).len() <= values.len(),
        values.len() > 0 ==> first_occurrences(values).len() > 0,
        forall|value: usize|
            #![trigger first_occurrences(values).contains(value)]
            #![trigger values.contains(value)]
            first_occurrences(values).contains(value) <==> values.contains(value),
    decreases values.len(),
{
    if values.len() > 0 {
        let front = values.drop_last();
        let last = values.last();
        lemma_first_occurrences(front);
        let kept = first_occurrences(front);
        let all = first_occurrences(values);
        assert forall|value: usize|
            #![trigger all.contains(value)]
            #![trigger values.contains(value)]
            all.contains(value) <==> values.contains(value) by {
            if values.contains(value) {
                let p = choose|p: int| 0 <= p < values.len() && values[p] == value;
                if p < front.len() {
                    assert(front[p] == value);
                    assert(front.contains(value));
                    let q = choose|q: int| 0 <= q < kept.len() && kept[q] == value;
                    assert(all[q] == value);
                } else if kept.contains(last) {
                    let q = choose|q: int| 0 <= q < kept.len() && kept[q] == last;
                    assert(all[q] == value);
                } else {
                    assert(all[kept.len() as int] == value);
                }
                assert(all.contains(value));
            }
            if all.contains(value) {
                let q = choose|q: int| 0 <= q < all.len() && all[q] == value;
                if q < kept.len() {
                    assert(kept[q] == value);
                    assert(kept.contains(value));
                    assert(front.contains(value));
                    let p = choose|p: int| 0 <= p < front.len() && front[p] == value;
                    assert(values[p] == value);
                } else {
                    assert(values[values.len() - 1] == value);
                }
                assert(values.contains(value));
            }
        }
        assert(values.contains(values[0]));
    }
}

/// Whether `first` occurs in `values` at a place before which, and at which,
/// `second` does not occur.
pub open spec fn occurs_before(values: Seq<usize>, first: usize, second: usize) -> bool {
    exists|p: int|
        0 <= p < values.len() && values[p] == first && forall|q: int|
            0 <= q <= p ==> values[q] != second
}

/// `first_occurrences` keeps the order in which the values first occur: of two
/// values that it keeps, the one that it lists first occurs first in `values`.
pub proof fn lemma_first_occurrences_order(values: Seq<usize>, i: int, j: int)
    requires
        0 <= i < j < first_occurrences(values).len(),
    ensures
        occurs_before(values, first_occurrences(values)[i], first_occurrences(values)[j]),
    decreases values.len(),
{
    let front = values.drop_last();
    let last = values.last();
    let kept = first_occurrences(front);
    let all = first_occurrences(values);
    if j < kept.len() {
        lemma_first_occurrences_order(front, i, j);
        let p = choose|p: int|
            0 <= p < front.len() && front[p] == kept[i] && forall|q: int|
                0 <= q <= p ==> front[q] != kept[j];
        assert(values[p] == all[i]);
        assert forall|q: int| 0 <= q <= p implies values[q] != all[j] by {
            assert(front[q] != kept[j]);
        }
    } else {
        lemma_first_occurrences(front);
        assert(kept.contains(kept[i]));
        assert(front.contains(kept[i]));
        let p = choose|p: int| 0 <= p < front.len() && front[p] == kept[i];
        assert(values[p] == all[i]);
        assert forall|q: int| 0 <= q <= p implies values[q] != all[j] by {
            if front[q] == last {
                assert(front.contains(last));
            }
        }
    }
}

} // verus!
