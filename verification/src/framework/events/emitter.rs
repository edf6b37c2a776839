//! The event bus: a fan-out primitive that hands a copy of each event to
//! every listener.
//!
//! An [`Emitter`] owns one mailbox per listener. Emitting appends a copy of
//! the event to every open mailbox; a listener takes its events out oldest
//! first. A listener leaves either at once, by [`Emitter::disconnect`], or by
//! closing its [`Receiver`], after which the next emit prunes its mailbox.

use vstd::prelude::*;
use crate::framework::assoc::{
    has_key,
    index_of,
    keys_distinct,
    lemma_empty,
    lemma_entry,
    lemma_push,
    lemma_remove,
    lemma_replace,
    to_map,
};

verus! {

/// Identifier of one listener of an emitter.
#[derive(Debug, Clone, Copy, PartialEq, Eq, Hash, Structural)]
pub struct SlotToken(pub usize);

/// The receiving end of one listener's mailbox.
#[derive(Debug)]
pub struct Receiver {
    slot: SlotToken,
}

impl View for Receiver {
    type V = SlotToken;

    closed spec fn view(&self) -> SlotToken {
        self.slot
    }
}

impl Receiver {
    /// The identifier of the listener this endpoint belongs to.
    pub fn slot(&self) -> (id: SlotToken)
        ensures
            id == self@,
    {
        self.slot
    }
}

/// One listener's mailbox.
struct Mailbox<T> {
    id: SlotToken,
    open: bool,
    pending: Vec<T>,
}

/// What the emitter knows of one listener: whether its receiving end is
/// still held, and the events it has not taken out yet, oldest first.
pub ghost struct MailboxView<T> {
    pub open: bool,
    pub pending: Seq<T>,
}

impl<T> MailboxView<T> {
    /// The mailbox of a listener that has just connected.
    pub open spec fn fresh() -> MailboxView<T> {
        MailboxView { open: true, pending: Seq::empty() }
    }
}

impl<T> Mailbox<T> {
    spec fn content(self) -> MailboxView<T> {
        MailboxView { open: self.open, pending: self.pending@ }
    }
}

/// The listeners of a list of mailboxes, each under its identifier.
spec fn entries<T>(slots: Seq<Mailbox<T>>) -> Seq<(SlotToken, MailboxView<T>)> {
    Seq::new(slots.len(), |i: int| (slots[i].id, slots[i].content()))
}

spec fn has_slot<T>(slots: Seq<Mailbox<T>>, id: SlotToken) -> bool {
    has_key(entries(slots), id)
}

spec fn slot_index<T>(slots: Seq<Mailbox<T>>, id: SlotToken) -> int {
    index_of(entries(slots), id)
}

spec fn slots_map<T>(slots: Seq<Mailbox<T>>) -> Map<SlotToken, MailboxView<T>> {
    to_map(entries(slots))
}

spec fn distinct<T>(slots: Seq<Mailbox<T>>) -> bool {
    keys_distinct(entries(slots))
}

/// In a list of mailboxes without a repeated identifier, each mailbox is the
/// one its identifier leads to.
proof fn lemma_slot_at<T>(slots: Seq<Mailbox<T>>, i: int)
    requires
        distinct(slots),
        0 <= i < slots.len(),
    ensures
        has_slot(slots, slots[i].id),
        slot_index(slots, slots[i].id) == i,
        slots_map(slots).contains_key(slots[i].id),
        slots_map(slots)[slots[i].id] == slots[i].content(),
{
    lemma_entry(entries(slots), i);
}

/// A mailbox that holds the identifier is at the place the identifier leads
/// to.
proof fn lemma_slot_found<T>(slots: Seq<Mailbox<T>>, id: SlotToken)
    requires
        has_slot(slots, id),
    ensures
        0 <= slot_index(slots, id) < slots.len(),
        slots[slot_index(slots, id)].id == id,
{
    let j = slot_index(slots, id);
    assert(entries(slots)[j].0 == id);
}

/// Changing what one mailbox holds changes what its identifier leads to.
proof fn lemma_update<T>(before: Seq<Mailbox<T>>, after: Seq<Mailbox<T>>, i: int)
    requires
        distinct(before),
        0 <= i < before.len(),
        after.len() == before.len(),
        after[i].id == before[i].id,
        forall|k: int| 0 <= k < before.len() && k != i ==> after[k] == before[k],
    ensures
        distinct(after),
        slots_map(after) == slots_map(before).insert(before[i].id, after[i].content()),
{
    assert(entries(after) =~= entries(before).update(i, (before[i].id, after[i].content())));
    lemma_replace(entries(before), i, after[i].content());
}

/// Whether `post` is `pre` after one event was emitted: every listener whose
/// receiving end is held has a copy of the event behind what it had, and
/// every other listener is gone.
pub open spec fn delivered<T: Clone>(
    pre: Map<SlotToken, MailboxView<T>>,
    value: T,
    post: Map<SlotToken, MailboxView<T>>,
) -> bool {
    &&& forall|id: SlotToken|
        #[trigger] post.contains_key(id) <==> pre.contains_key(id) && pre[id].open
    &&& forall|id: SlotToken| #[trigger]
        post.contains_key(id) ==> {
            &&& post[id].open
            &&& post[id].pending.len() == pre[id].pending.len() + 1
            &&& post[id].pending.drop_last() == pre[id].pending
            &&& cloned(value, post[id].pending.last())
        }
}

/// The mailboxes after `value` itself, not just some copy of it, was emitted.
pub open spec fn emitted<T>(pre: Map<SlotToken, MailboxView<T>>, value: T) -> Map<
    SlotToken,
    MailboxView<T>,
> {
    Map::new(
        |id: SlotToken| pre.contains_key(id) && pre[id].open,
        |id: SlotToken| MailboxView { open: true, pending: pre[id].pending.push(value) },
    )
}

/// Where every copy of `value` equals it, emitting it has one outcome.
pub proof fn lemma_delivered_exact<T: Clone>(
    pre: Map<SlotToken, MailboxView<T>>,
    value: T,
    post: Map<SlotToken, MailboxView<T>>,
)
    requires
        delivered(pre, value, post),
        forall|copy: T| cloned(value, copy) ==> copy == value,
    ensures
        post == emitted(pre, value),
{
    assert forall|id: SlotToken| #[trigger] post.contains_key(id) implies post[id] == emitted(
        pre,
        value,
    )[id] by {
        let p = post[id].pending;
        assert(p =~= p.drop_last().push(p.last()));
    }
    assert(post =~= emitted(pre, value));
}

/// Listener isolation. Removing one listener, or giving up its receiving
/// end, does not touch what the other listeners get: an event emitted
/// afterwards reaches each of them as it would have with the listener still
/// there.
pub proof fn lemma_emit_isolated<T>(
    pre: Map<SlotToken, MailboxView<T>>,
    gone: SlotToken,
    other: SlotToken,
    value: T,
)
    requires
        other != gone,
    ensures
        emitted(pre.remove(gone), value).contains_key(other) == emitted(pre, value).contains_key(
            other,
        ),
        emitted(pre, value).contains_key(other) ==> emitted(pre.remove(gone), value)[other]
            == emitted(pre, value)[other],
        pre.contains_key(gone) ==> {
            let closed = pre.insert(gone, MailboxView { open: false, pending: pre[gone].pending });
            &&& emitted(closed, value).contains_key(other) == emitted(pre, value).contains_key(other)
            &&& emitted(pre, value).contains_key(other) ==> emitted(closed, value)[other]
                == emitted(pre, value)[other]
            &&& !emitted(closed, value).contains_key(gone)
        },
{
}

/// An event bus for events of type `T`.
pub struct Emitter<T> {
    slots: Vec<Mailbox<T>>,
    next: usize,
}

impl<T> View for Emitter<T> {
    type V = Map<SlotToken, MailboxView<T>>;

    closed spec fn view(&self) -> Map<SlotToken, MailboxView<T>> {
        slots_map(self.slots@)
    }
}

fn position<T>(slots: &Vec<Mailbox<T>>, id: SlotToken) -> (r: Option<usize>)
    ensures
        match r {
            Some(i) => i < slots@.len() && slots@[i as int].id == id,
            None => !has_slot(slots@, id),
        },
{
    let mut i: usize = 0;
    while i < slots.len()
        invariant
            i <= slots@.len(),
            forall|j: int| 0 <= j < i ==> (#[trigger] entries(slots@)[j]).0 != id,
        decreases slots@.len() - i,
    {
        if slots[i].id.0 == id.0 {
            return Some(i);
        }
        i = i + 1;
    }
    None
}

impl<T> Emitter<T> {
    #[verifier::type_invariant]
    spec fn wf(self) -> bool {
        &&& distinct(self.slots@)
        &&& forall|i: int| 0 <= i < self.slots@.len() ==> (#[trigger] self.slots@[i]).id.0 < self.next
    }

    /// How many listener identifiers this emitter has handed out.
    pub closed spec fn issued(&self) -> usize {
        self.next
    }

    /// Whether the emitter has run out of listener identifiers.
    pub open spec fn exhausted(&self) -> bool {
        self.issued() == usize::MAX
    }

    /// An emitter without listeners.
    pub fn new() -> (e: Self)
        ensures
            e@ == Map::<SlotToken, MailboxView<T>>::empty(),
            e.issued() == 0,
    {
        let e = Emitter { slots: Vec::new(), next: 0 };
        proof {
            lemma_empty::<SlotToken, MailboxView<T>>();
            assert(entries(e.slots@) =~= Seq::empty());
        }
        e
    }

    /// Whether the emitter has run out of listener identifiers.
    pub fn is_exhausted(&self) -> (b: bool)
        ensures
            b == self.exhausted(),
    {
        self.next == usize::MAX
    }

    /// Whether a listener with this identifier is connected.
    pub fn is_connected(&self, id: &SlotToken) -> (b: bool)
        ensures
            b == self@.contains_key(*id),
    {
        let found = position(&self.slots, *id);
        proof {
            if let Some(i) = found {
                assert(entries(self.slots@)[i as int].0 == *id);
            }
        }
        found.is_some()
    }

    /// Whether a listener other than the one with this identifier is
    /// connected.
    pub fn has_other(&self, id: &SlotToken) -> (b: bool)
        ensures
            b == exists|other: SlotToken| other != *id && #[trigger] self@.contains_key(other),
    {
        proof {
            use_type_invariant(self);
        }
        let mut i: usize = 0;
        while i < self.slots.len()
            invariant
                i <= self.slots@.len(),
                distinct(self.slots@),
                forall|j: int| 0 <= j < i ==> (#[trigger] self.slots@[j]).id == *id,
            decreases self.slots@.len() - i,
        {
            if self.slots[i].id.0 != id.0 {
                proof {
                    lemma_slot_at(self.slots@, i as int);
                    assert(self@.contains_key(self.slots@[i as int].id));
                }
                return true;
            }
            i = i + 1;
        }
        proof {
            assert forall|other: SlotToken| other != *id implies !#[trigger] self@.contains_key(
                other,
            ) by {
                if has_slot(self.slots@, other) {
                    lemma_slot_found(self.slots@, other);
                }
            }
        }
        false
    }

    /// The number of events the listener has not taken out yet; zero for an
    /// identifier that is not connected.
    pub fn pending(&self, id: &SlotToken) -> (n: usize)
        ensures
            self@.contains_key(*id) ==> n == self@[*id].pending.len(),
            !self@.contains_key(*id) ==> n == 0,
    {
        proof {
            use_type_invariant(self);
        }
        match position(&self.slots, *id) {
            Some(i) => {
                proof {
                    lemma_slot_at(self.slots@, i as int);
                }
                self.slots[i].pending.len()
            },
            None => 0,
        }
    }

    /// Adds a listener and returns its identifier, which no listener of this
    /// emitter has had before.
    pub fn connect(&mut self) -> (id: SlotToken)
        requires
            !old(self).exhausted(),
        ensures
            id == SlotToken(old(self).issued()),
            !old(self)@.contains_key(id),
            final(self)@ == old(self)@.insert(id, MailboxView::fresh()),
            final(self).issued() == old(self).issued() + 1,
    {
        proof {
            use_type_invariant(&*self);
        }
        let id = SlotToken(self.next);
        let mut slots: Vec<Mailbox<T>> = Vec::new();
        std::mem::swap(&mut slots, &mut self.slots);
        let ghost before = slots@;
        slots.push(Mailbox { id, open: true, pending: Vec::new() });
        proof {
            assert(!has_slot(before, id)) by {
                if has_slot(before, id) {
                    lemma_slot_found(before, id);
                }
            }
            assert(entries(slots@) =~= entries(before).push((id, MailboxView::fresh())));
            lemma_push(entries(before), id, MailboxView::fresh());
        }
        self.next = self.next + 1;
        self.slots = slots;
        id
    }

    /// Adds a listener whose identifier is the first one that is not below
    /// `floor` and was not handed out yet, and returns its receiving end. The
    /// identifiers below it count as handed out from then on.
    pub fn new_receiver_from(&mut self, floor: usize) -> (receiver: Receiver)
        requires
            old(self).issued() < usize::MAX,
            floor < usize::MAX,
        ensures
            receiver@ == SlotToken(if old(self).issued() < floor { floor } else { old(self).issued() }),
            !old(self)@.contains_key(receiver@),
            final(self)@ == old(self)@.insert(receiver@, MailboxView::fresh()),
            final(self).issued() == receiver@.0 + 1,
    {
        proof {
            use_type_invariant(&*self);
        }
        if self.next < floor {
            self.next = floor;
        }
        self.new_receiver()
    }

    /// Adds a listener and returns its receiving end.
    pub fn new_receiver(&mut self) -> (receiver: Receiver)
        requires
            !old(self).exhausted(),
        ensures
            receiver@ == SlotToken(old(self).issued()),
            !old(self)@.contains_key(receiver@),
            final(self)@ == old(self)@.insert(receiver@, MailboxView::fresh()),
            final(self).issued() == old(self).issued() + 1,
    {
        let slot = self.connect();
        Receiver { slot }
    }

    /// Removes the listener with this identifier, with whatever it had not
    /// taken out yet. Does nothing where no such listener is connected.
    pub fn disconnect(&mut self, id: &SlotToken)
        ensures
            final(self)@ == old(self)@.remove(*id),
            final(self).issued() == old(self).issued(),
    {
        proof {
            use_type_invariant(&*self);
        }
        let mut slots: Vec<Mailbox<T>> = Vec::new();
        std::mem::swap(&mut slots, &mut self.slots);
        let ghost before = slots@;
        match position(&slots, *id) {
            Some(i) => {
                let _ = slots.remove(i);
                proof {
                    assert(entries(slots@) =~= entries(before).remove(i as int));
                    lemma_remove(entries(before), i as int);
                }
            },
            None => {
                proof {
                    assert(slots_map(before) =~= slots_map(before).remove(*id));
                }
            },
        }
        self.slots = slots;
    }
}

impl<T> Emitter<T> {
    /// Takes the oldest event out of the listener's mailbox, if it holds one.
    pub fn try_recv(&mut self, receiver: &Receiver) -> (r: Option<T>)
        ensures
            final(self).issued() == old(self).issued(),
            match r {
                Some(v) => {
                    &&& old(self)@.contains_key(receiver@)
                    &&& old(self)@[receiver@].pending.len() > 0
                    &&& v == old(self)@[receiver@].pending.first()
                    &&& final(self)@ == old(self)@.insert(
                        receiver@,
                        MailboxView {
                            open: old(self)@[receiver@].open,
                            pending: old(self)@[receiver@].pending.drop_first(),
                        },
                    )
                },
                None => {
                    &&& old(self)@.contains_key(receiver@) ==> old(self)@[receiver@].pending.len()
                        == 0
                    &&& final(self)@ == old(self)@
                },
            },
    {
        proof {
            use_type_invariant(&*self);
        }
        let mut slots: Vec<Mailbox<T>> = Vec::new();
        std::mem::swap(&mut slots, &mut self.slots);
        let ghost before = slots@;
        let r = match position(&slots, receiver.slot) {
            Some(i) => {
                proof {
                    lemma_slot_at(before, i as int);
                }
                if slots[i].pending.len() > 0 {
                    let v = slots[i].pending.remove(0);
                    proof {
                        lemma_update(before, slots@, i as int);
                        assert(slots@[i as int].pending@ =~= before[i as int].pending@.drop_first());
                    }
                    Some(v)
                } else {
                    None
                }
            },
            None => None,
        };
        self.slots = slots;
        r
    }

    /// Gives up the receiving end of a listener. What the mailbox holds stays
    /// until the next [`Emitter::emit`], which removes the mailbox.
    pub fn close(&mut self, receiver: Receiver)
        ensures
            final(self).issued() == old(self).issued(),
            old(self)@.contains_key(receiver@) ==> final(self)@ == old(self)@.insert(
                receiver@,
                MailboxView { open: false, pending: old(self)@[receiver@].pending },
            ),
            !old(self)@.contains_key(receiver@) ==> final(self)@ == old(self)@,
    {
        proof {
            use_type_invariant(&*self);
        }
        let mut slots: Vec<Mailbox<T>> = Vec::new();
        std::mem::swap(&mut slots, &mut self.slots);
        let ghost before = slots@;
        match position(&slots, receiver.slot) {
            Some(i) => {
                slots[i].open = false;
                proof {
                    lemma_slot_at(before, i as int);
                    lemma_update(before, slots@, i as int);
                }
            },
            None => {},
        }
        self.slots = slots;
    }
}

impl<T: Clone> Emitter<T> {
    /// Delivers a copy of `value` to every listener whose receiving end is
    /// held, behind what the listener has not taken out yet, and removes every
    /// listener whose receiving end was given up.
    pub fn emit(&mut self, value: T)
        ensures
            delivered(old(self)@, value, final(self)@),
            final(self).issued() == old(self).issued(),
    {
        proof {
            use_type_invariant(&*self);
        }
        let mut slots: Vec<Mailbox<T>> = Vec::new();
        std::mem::swap(&mut slots, &mut self.slots);
        let ghost before = slots@;
        // `origin[k]` is where the listener now at `k` stood before the call;
        // `seen` counts the listeners of before that were looked at.
        let ghost mut origin: Seq<int> = Seq::empty();
        let ghost mut seen: int = 0;
        let mut i: usize = 0;
        while i < slots.len()
            invariant
                distinct(before),
                i <= slots@.len(),
                0 <= seen <= before.len(),
                slots@.len() - i == before.len() - seen,
                origin.len() == i,
                forall|k: int| i <= k < slots@.len() ==> slots@[k] == before[k - i + seen],
                forall|k: int|
                    0 <= k < i ==> {
                        &&& 0 <= #[trigger] origin[k] < seen
                        &&& before[origin[k]].id == slots@[k].id
                        &&& before[origin[k]].open
                        &&& slots@[k].open
                        &&& slots@[k].pending@.len() == before[origin[k]].pending@.len() + 1
                        &&& slots@[k].pending@.drop_last() == before[origin[k]].pending@
                        &&& cloned(value, slots@[k].pending@.last())
                    },
                forall|a: int, b: int| 0 <= a < b < i ==> #[trigger] origin[a] < #[trigger] origin[b],
                forall|j: int|
                    0 <= j < seen && (#[trigger] before[j]).open ==> exists|k: int|
                        0 <= k < i && #[trigger] origin[k] == j,
            decreases slots@.len() - i,
        {
            let ghost mid = slots@;
            if slots[i].open {
                let copy = value.clone();
                slots[i].pending.push(copy);
                proof {
                    let old_origin = origin;
                    origin = origin.push(seen);
                    assert(slots@[i as int].pending@.drop_last() =~= mid[i as int].pending@);
                    assert forall|j: int|
                        0 <= j < seen + 1 && (#[trigger] before[j]).open implies exists|k: int|
                        0 <= k < i + 1 && #[trigger] origin[k] == j by {
                        if j < seen {
                            let k = choose|k: int| 0 <= k < i && #[trigger] old_origin[k] == j;
                            assert(origin[k] == j);
                        } else {
                            assert(origin[i as int] == j);
                        }
                    }
                    seen = seen + 1;
                }
                i = i + 1;
            } else {
                let _ = slots.remove(i);
                proof {
                    seen = seen + 1;
                }
            }
        }
        proof {
            let after = slots@;
            let pre = slots_map(before);
            let post = slots_map(after);
            assert forall|a: int, b: int| 0 <= a < b < after.len() implies (#[trigger] entries(
                after,
            )[a]).0 != (#[trigger] entries(after)[b]).0 by {
                assert(origin[a] < origin[b]);
                assert(entries(before)[origin[a]].0 != entries(before)[origin[b]].0);
            }
            assert forall|k: int| 0 <= k < after.len() implies (#[trigger] after[k]).id.0
                < self.next by {
                assert(before[origin[k]].id == after[k].id);
            }
            assert forall|id: SlotToken| #[trigger]
                post.contains_key(id) <==> pre.contains_key(id) && pre[id].open by {
                if has_slot(after, id) {
                    lemma_slot_found(after, id);
                    let k = slot_index(after, id);
                    assert(before[origin[k]].id == id);
                    lemma_slot_at(before, origin[k]);
                }
                if has_slot(before, id) && pre[id].open {
                    lemma_slot_found(before, id);
                    let j = slot_index(before, id);
                    lemma_slot_at(before, j);
                    assert(before[j].open);
                    let k = choose|k: int| 0 <= k < after.len() && #[trigger] origin[k] == j;
                    assert(entries(after)[k].0 == id);
                }
            }
            assert forall|id: SlotToken| #[trigger] post.contains_key(id) implies {
                &&& post[id].open
                &&& post[id].pending.len() == pre[id].pending.len() + 1
                &&& post[id].pending.drop_last() == pre[id].pending
                &&& cloned(value, post[id].pending.last())
            } by {
                lemma_slot_found(after, id);
                let k = slot_index(after, id);
                lemma_slot_at(after, k);
                assert(before[origin[k]].id == id);
                lemma_slot_at(before, origin[k]);
            }
        }
        self.slots = slots;
    }
}

} // verus!
