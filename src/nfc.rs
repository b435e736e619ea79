//! Badge associations: a game sees a badge only through a handle derived from
//! the badge's association id and the game's id, and can resolve only the
//! handles it was given recently.
use ringbuffer::{AllocRingBuffer, RingBuffer};
use vstd::prelude::*;

use crate::persistence::pairs_view;
use crate::text::join3;

verus! {

#[verifier::external_type_specification]
#[verifier::external_body]
#[verifier::reject_recursive_types(T)]
pub struct ExAllocRingBuffer<T>(AllocRingBuffer<T>);

/// The pairs a ring buffer holds, oldest first.
pub uninterp spec fn ring_items(rb: AllocRingBuffer<(String, String)>) -> Seq<(Seq<char>, Seq<char>)>;

/// The number of pairs a ring buffer keeps before it drops the oldest.
pub uninterp spec fn ring_capacity(rb: AllocRingBuffer<(String, String)>) -> nat;

/// The lowercase hexadecimal SHA-256 digest of a string.
pub uninterp spec fn sha256_hex(s: Seq<char>) -> Seq<char>;

/// Relies on `AllocRingBuffer::new`: an empty buffer of the given capacity
/// (it panics on zero, and when the allocation's size overflows).
#[verifier::external_body]
fn ring_new(capacity: usize) -> (r: AllocRingBuffer<(String, String)>)
    requires
        0 < capacity <= 65536,
    ensures
        ring_items(r) == Seq::<(Seq<char>, Seq<char>)>::empty(),
        ring_capacity(r) == capacity,
{
    AllocRingBuffer::new(capacity)
}

/// Relies on `RingBuffer::enqueue` of `AllocRingBuffer`: the item goes last;
/// when the buffer is full, the oldest item leaves.
#[verifier::external_body]
fn ring_enqueue(rb: &mut AllocRingBuffer<(String, String)>, item: (String, String))
    ensures
        ring_capacity(*final(rb)) == ring_capacity(*old(rb)),
        ring_items(*final(rb)) == if ring_items(*old(rb)).len() >= ring_capacity(*old(rb)) {
            ring_items(*old(rb)).drop_first().push((item.0@, item.1@))
        } else {
            ring_items(*old(rb)).push((item.0@, item.1@))
        },
{
    rb.enqueue(item);
}

/// Relies on `RingBuffer::to_vec`: copies of the items, oldest first.
#[verifier::external_body]
fn ring_to_vec(rb: &AllocRingBuffer<(String, String)>) -> (r: Vec<(String, String)>)
    ensures
        pairs_view(r@) == ring_items(*rb),
{
    rb.to_vec()
}

/// Relies on `sha256::digest` of a string slice: the hexadecimal digest.
#[verifier::external_body]
fn digest_hex(s: &str) -> (r: String)
    ensures
        r@ == sha256_hex(s@),
{
    sha256::digest(s)
}

/// How many associations are remembered.
pub const ASSOCIATION_CAPACITY: usize = 8;

/// The handle under which a badge is shown to the game `game_id`.
pub open spec fn handle_for(association_id: Seq<char>, game_id: Seq<char>) -> Seq<char> {
    sha256_hex(association_id + ":"@ + game_id)
}

/// The position of the first pair whose second component is `a`.
pub open spec fn first_with_association(items: Seq<(Seq<char>, Seq<char>)>, a: Seq<char>) -> Option<int> {
    if exists|i: int| 0 <= i < items.len() && items[i].1 == a {
        Some(
            choose|i: int|
                0 <= i < items.len() && items[i].1 == a && forall|j: int|
                    0 <= j < i ==> items[j].1 != a,
        )
    } else {
        None
    }
}

/// The position of the first pair whose first component is `h`.
pub open spec fn first_with_handle(items: Seq<(Seq<char>, Seq<char>)>, h: Seq<char>) -> Option<int> {
    if exists|i: int| 0 <= i < items.len() && items[i].0 == h {
        Some(
            choose|i: int|
                0 <= i < items.len() && items[i].0 == h && forall|j: int|
                    0 <= j < i ==> items[j].0 != h,
        )
    } else {
        None
    }
}

/// The items after remembering a pair: it goes last, and the oldest leaves
/// when all places are taken.
pub open spec fn remembered(items: Seq<(Seq<char>, Seq<char>)>, item: (Seq<char>, Seq<char>)) -> Seq<
    (Seq<char>, Seq<char>),
> {
    if items.len() >= ASSOCIATION_CAPACITY {
        items.drop_first().push(item)
    } else {
        items.push(item)
    }
}

/// The recent badge associations, as (handle, association id) pairs.
pub struct Associations {
    ring: AllocRingBuffer<(String, String)>,
}

/// An executable position and a spec position agree.
pub open spec fn same_position(r: Option<usize>, p: Option<int>) -> bool {
    match (r, p) {
        (Some(i), Some(j)) => i as int == j,
        (None, None) => true,
        _ => false,
    }
}

/// Finds the first pair of `items` matching `key` in the first component
/// (`by_handle`) or the second.
fn position(items: &Vec<(String, String)>, key: &String, by_handle: bool) -> (r: Option<usize>)
    ensures
        by_handle ==> same_position(r, first_with_handle(pairs_view(items@), key@)),
        !by_handle ==> same_position(r, first_with_association(pairs_view(items@), key@)),
        r matches Some(i) ==> i < items@.len(),
{
    let ghost s = pairs_view(items@);
    let mut i: usize = 0;
    while i < items.len()
        invariant
            i <= items@.len(),
            s == pairs_view(items@),
            forall|j: int| 0 <= j < i ==> (if by_handle { s[j].0 } else { s[j].1 }) != key@,
        decreases items@.len() - i,
    {
        let hit = if by_handle {
            items[i].0 == *key
        } else {
            items[i].1 == *key
        };
        if hit {
            proof {
                if by_handle {
                    assert(s[i as int].0 == key@);
                    let k = choose|k: int|
                        0 <= k < s.len() && s[k].0 == key@ && forall|j: int|
                            0 <= j < k ==> s[j].0 != key@;
                    if k < i {
                        assert(s[k].0 != key@);
                    }
                    if k > i {
                        assert(s[i as int].0 != key@);
                    }
                } else {
                    assert(s[i as int].1 == key@);
                    let k = choose|k: int|
                        0 <= k < s.len() && s[k].1 == key@ && forall|j: int|
                            0 <= j < k ==> s[j].1 != key@;
                    if k < i {
                        assert(s[k].1 != key@);
                    }
                    if k > i {
                        assert(s[i as int].1 != key@);
                    }
                }
            }
            return Some(i);
        }
        i = i + 1;
    }
    None
}

impl Associations {
    /// The remembered (handle, association id) pairs, oldest first.
    pub closed spec fn items(&self) -> Seq<(Seq<char>, Seq<char>)> {
        ring_items(self.ring)
    }

    pub closed spec fn wf(&self) -> bool {
        &&& ring_capacity(self.ring) == ASSOCIATION_CAPACITY
        &&& ring_items(self.ring).len() <= ASSOCIATION_CAPACITY
    }

    /// No association remembered.
    pub fn new() -> (r: Self)
        ensures
            r.wf(),
            r.items() == Seq::<(Seq<char>, Seq<char>)>::empty(),
    {
        Associations { ring: ring_new(ASSOCIATION_CAPACITY) }
    }

    /// Remembers that `handle` stands for `association_id`.
    pub fn record(&mut self, handle: String, association_id: String)
        requires
            old(self).wf(),
        ensures
            final(self).wf(),
            final(self).items() == remembered(old(self).items(), (handle@, association_id@)),
    {
        ring_enqueue(&mut self.ring, (handle, association_id));
    }

    /// The handle of a badge read while the game `game_id` runs: the one
    /// given before for the same association, else a new one, derived from the
    /// association and the game, which is remembered. No badge, no handle.
    pub fn on_badge(&mut self, association_id: Option<String>, game_id: &str) -> (r: Option<String>)
        requires
            old(self).wf(),
        ensures
            final(self).wf(),
            match association_id {
                None => r is None && final(self).items() == old(self).items(),
                Some(a) => match first_with_association(old(self).items(), a@) {
                    Some(k) => r matches Some(h) && h@ == old(self).items()[k].0 && final(self).items() == old(self).items(),
                    None => r matches Some(h) && h@ == handle_for(a@, game_id@) && final(self).items()
                        == remembered(old(self).items(), (h@, a@)),
                },
            },
    {
        match association_id {
            None => None,
            Some(a) => {
                let items = ring_to_vec(&self.ring);
                match position(&items, &a, false) {
                    Some(k) => {
                        proof {
                            assert(pairs_view(items@)[k as int].0 == items@[k as int].0@);
                        }
                        Some(items[k].0.clone())
                    },
                    None => {
                        let handle = digest_hex(join3(a.as_str(), ":", game_id).as_str());
                        self.record(handle.clone(), a);
                        Some(handle)
                    },
                }
            },
        }
    }

    /// The association id behind a handle given recently, if any.
    pub fn association_of(&self, handle: &String) -> (r: Option<String>)
        ensures
            match first_with_handle(self.items(), handle@) {
                Some(k) => r matches Some(a) && a@ == self.items()[k].1,
                None => r is None,
            },
    {
        let items = ring_to_vec(&self.ring);
        match position(&items, handle, true) {
            Some(k) => {
                proof {
                    assert(pairs_view(items@)[k as int].1 == items@[k as int].1@);
                }
                Some(items[k].1.clone())
            },
            None => None,
        }
    }
}

} // verus!
