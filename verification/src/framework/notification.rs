//! The subscription registry.
//!
//! Subscribing to a filter is idempotent towards the remote service: the
//! first subscription to a filter asks the transport for a token, every later
//! one to an equal filter joins the listeners of that token without a
//! request. Polled notifications are handed to the listeners of their token.
//!
//! Two policies are fixed here. A token is registered until
//! [`NotificationManager::unregister`] is called for it, and has a listener
//! for as long: to take away its last listener is an error of the caller, and
//! is refused. And a batch of notifications is handed out in order up to the
//! first one whose token is unknown: that one is reported as an error, and it
//! and the rest of the batch are dropped.

use vstd::prelude::*;
use crate::clients::common::{
    notification_views,
    token_answer,
    unit_answer,
    Call,
    ClientTrait,
};
use crate::error::{Error, ErrorView};
use crate::framework::assoc::{
    has_key,
    index_of,
    keys_distinct,
    lemma_empty,
    lemma_entry,
    lemma_push,
    lemma_remove,
    lemma_replace,
    to_map,
};
use crate::framework::events::emitter::{delivered, Emitter, MailboxView, Receiver, SlotToken};
use crate::schema::notification::{
    ConfigView,
    DatabaseNotification,
    NotificationConfig,
    NotificationToken,
    NotificationView,
};

verus! {

/// The listeners of one token: for each, the notifications it has not taken
/// out yet, oldest first.
pub ghost struct BusView {
    pub listeners: Map<SlotToken, Seq<NotificationView>>,
}

impl BusView {
    /// The listeners of a token that was just registered: none.
    pub open spec fn fresh() -> BusView {
        BusView { listeners: Map::empty() }
    }

    /// One more listener, with nothing to take out.
    pub open spec fn join(self, slot: SlotToken) -> BusView {
        BusView { listeners: self.listeners.insert(slot, Seq::empty()) }
    }

    /// One listener fewer.
    pub open spec fn detach(self, slot: SlotToken) -> BusView {
        BusView { listeners: self.listeners.remove(slot) }
    }

    /// The notification behind what each listener had.
    pub open spec fn emit(self, n: NotificationView) -> BusView {
        BusView {
            listeners: Map::new(
                |id: SlotToken| self.listeners.contains_key(id),
                |id: SlotToken| self.listeners[id].push(n),
            ),
        }
    }

    /// The oldest notification of one listener taken out.
    pub open spec fn take(self, slot: SlotToken) -> BusView {
        BusView { listeners: self.listeners.insert(slot, self.listeners[slot].drop_first()) }
    }

    /// Whether there is a listener.
    pub open spec fn inhabited(self) -> bool {
        exists|slot: SlotToken| self.listeners.contains_key(slot)
    }

    /// Whether the listener is there, and not the only one.
    pub open spec fn can_spare(self, slot: SlotToken) -> bool {
        &&& self.listeners.contains_key(slot)
        &&& exists|other: SlotToken| other != slot && self.listeners.contains_key(other)
    }
}

/// The state of the registry: which token each registered filter has, the
/// listeners of each token, and how many listeners there have been.
pub ghost struct RegistryView {
    pub tokens: Map<ConfigView, Seq<char>>,
    pub buses: Map<Seq<char>, BusView>,
    /// How many listener identifiers were handed out. No identifier is
    /// handed out twice, whatever becomes of the listener that had it.
    pub issued: usize,
}

impl RegistryView {
    /// The registry without a subscription, before any listener.
    pub open spec fn empty() -> RegistryView {
        RegistryView { tokens: Map::empty(), buses: Map::empty(), issued: 0 }
    }

    /// The registry without its subscriptions.
    pub open spec fn cleared(self) -> RegistryView {
        RegistryView { tokens: Map::empty(), buses: Map::empty(), issued: self.issued }
    }

    /// The filters that are registered.
    pub open spec fn registered_configs(self) -> Set<ConfigView> {
        self.tokens.dom()
    }

    /// Whether the listener is one of the token's listeners.
    pub open spec fn listens(self, token: Seq<char>, slot: SlotToken) -> bool {
        self.buses.contains_key(token) && self.buses[token].listeners.contains_key(slot)
    }

    /// Whether the tables fit: the token of every registered filter has
    /// listeners, every token with listeners belongs to a registered filter
    /// and has one listener at least, and every listener has an identifier
    /// that was handed out.
    pub open spec fn consistent(self) -> bool {
        &&& forall|c: ConfigView| #[trigger]
            self.tokens.contains_key(c) ==> self.buses.contains_key(self.tokens[c])
        &&& forall|t: Seq<char>| #[trigger]
            self.buses.contains_key(t) ==> exists|c: ConfigView| #[trigger]
                self.tokens.contains_key(c) && self.tokens[c] == t
        &&& forall|t: Seq<char>| #[trigger] self.buses.contains_key(t) ==> self.buses[t].inhabited()
        &&& forall|t: Seq<char>, slot: SlotToken| #[trigger]
            self.listens(t, slot) ==> slot.0 < self.issued
    }

    /// Whether no identifier is left for a further listener.
    pub open spec fn exhausted(self) -> bool {
        self.issued == usize::MAX
    }

    /// The identifier the next listener gets.
    pub open spec fn next_slot(self) -> SlotToken {
        SlotToken(self.issued)
    }

    /// One more listener for a filter that is registered.
    pub open spec fn attach(self, config: ConfigView) -> RegistryView {
        let token = self.tokens[config];
        RegistryView {
            buses: self.buses.insert(token, self.buses[token].join(self.next_slot())),
            issued: (self.issued + 1) as usize,
            ..self
        }
    }

    /// A new filter under the token the remote service gave, with its first
    /// listener on a fresh bus. Listeners that the token had are dropped.
    pub open spec fn enroll(self, config: ConfigView, token: Seq<char>) -> RegistryView {
        RegistryView {
            tokens: self.tokens.insert(config, token),
            buses: self.buses.insert(token, BusView::fresh().join(self.next_slot())),
            issued: (self.issued + 1) as usize,
        }
    }

    /// What the registry makes of the transport's answer to the request to
    /// register a filter that is not registered: whether the subscription
    /// comes about, under which token and with which listener, and the
    /// registry afterwards.
    pub open spec fn registered(
        self,
        config: ConfigView,
        answer: Result<Seq<char>, ErrorView>,
        outcome: Result<(Seq<char>, SlotToken), ErrorView>,
        after: RegistryView,
    ) -> bool {
        match answer {
            Ok(token) => if self.exhausted() {
                outcome == Err::<(Seq<char>, SlotToken), ErrorView>(inconsistent_registration())
                    && after == self
            } else {
                outcome == Ok::<(Seq<char>, SlotToken), ErrorView>((token, self.next_slot()))
                    && after == self.enroll(config, token)
            },
            Err(error) => outcome == Err::<(Seq<char>, SlotToken), ErrorView>(error) && after
                == self,
        }
    }

    /// The token, its listeners and every filter registered under it removed.
    pub open spec fn forget(self, token: Seq<char>) -> RegistryView {
        RegistryView {
            tokens: Map::new(
                |c: ConfigView| self.tokens.contains_key(c) && self.tokens[c] != token,
                |c: ConfigView| self.tokens[c],
            ),
            buses: self.buses.remove(token),
            ..self
        }
    }

    /// One notification handed to the listeners of its token.
    pub open spec fn deliver(self, n: NotificationView) -> RegistryView {
        RegistryView { buses: self.buses.insert(n.token, self.buses[n.token].emit(n)), ..self }
    }

    /// The notifications of a batch handed out in order, up to the first one
    /// whose token is unknown.
    pub open spec fn deliver_all(self, batch: Seq<NotificationView>) -> RegistryView
        decreases batch.len(),
    {
        if batch.len() == 0 || !self.buses.contains_key(batch.first().token) {
            self
        } else {
            self.deliver(batch.first()).deliver_all(batch.drop_first())
        }
    }

    /// Whether the token of every notification of the batch is known.
    pub open spec fn knows_all(self, batch: Seq<NotificationView>) -> bool {
        forall|i: int| 0 <= i < batch.len() ==> self.buses.contains_key((#[trigger] batch[i]).token)
    }

    /// The requests that subscribing to a filter makes of the transport: none
    /// for a filter that is registered, else one, to register it.
    pub open spec fn register_requests(
        self,
        config: ConfigView,
        answer: Result<Seq<char>, ErrorView>,
    ) -> Seq<Call> {
        if self.tokens.contains_key(config) {
            Seq::empty()
        } else {
            seq![Call::Register { config, answer }]
        }
    }

    /// The requests that ending a token's subscription makes of the
    /// transport: none for a token that is unknown, else one, to unregister it.
    pub open spec fn unregister_requests(
        self,
        token: Seq<char>,
        answer: Result<(), ErrorView>,
    ) -> Seq<Call> {
        if self.buses.contains_key(token) {
            seq![Call::Unregister { token, answer }]
        } else {
            Seq::empty()
        }
    }

    /// Whether the listener is the only one its token has.
    pub open spec fn is_last(self, token: Seq<char>, slot: SlotToken) -> bool {
        self.listens(token, slot) && !self.buses[token].can_spare(slot)
    }

    /// One listener removed from the listeners of its token.
    pub open spec fn detach(self, token: Seq<char>, slot: SlotToken) -> RegistryView {
        RegistryView { buses: self.buses.insert(token, self.buses[token].detach(slot)), ..self }
    }

    /// Whether the listener has a notification to take out.
    pub open spec fn has_pending(self, token: Seq<char>, slot: SlotToken) -> bool {
        self.listens(token, slot) && self.buses[token].listeners[slot].len() > 0
    }

    /// The oldest notification of one listener taken out.
    pub open spec fn take(self, token: Seq<char>, slot: SlotToken) -> RegistryView {
        RegistryView { buses: self.buses.insert(token, self.buses[token].take(slot)), ..self }
    }
}

/// The message of the error for a token without listeners in a batch.
pub open spec fn unknown_token_in_batch() -> ErrorView {
    ErrorView::NotificationError(
        "Cannot process notification: Callback list doesn't exist for token"@,
    )
}

/// The message of the error for unregistering a token that is not known.
pub open spec fn unknown_token() -> ErrorView {
    ErrorView::NotificationError("Token not found during unregistration"@)
}

/// The message of the error for taking away the last listener of a token.
pub open spec fn last_listener() -> ErrorView {
    ErrorView::NotificationError(
        "Cannot detach the last listener of a token: unregister the token instead"@,
    )
}

/// The message of the error for a registration that the tables cannot take:
/// no identifier is left for a further listener, or the filter was
/// registered meanwhile.
pub open spec fn inconsistent_registration() -> ErrorView {
    ErrorView::NotificationError("Inconsistent notification state during registration"@)
}

/// The receiving end of one subscription: the token it listens to, and its
/// place among the token's listeners.
#[derive(Debug)]
pub struct NotificationReceiver {
    token: NotificationToken,
    receiver: Receiver,
}

/// How a subscription ended: the token and the listener of the receiving
/// end, or the error.
pub open spec fn subscription(r: Result<NotificationReceiver, Error>) -> Result<
    (Seq<char>, SlotToken),
    ErrorView,
> {
    match r {
        Ok(rx) => Ok((rx.token_text(), rx.slot_id())),
        Err(e) => Err(e@),
    }
}

impl NotificationReceiver {
    /// The text of the token the subscription listens to.
    pub closed spec fn token_text(&self) -> Seq<char> {
        self.token@
    }

    /// The identifier of the listener.
    pub closed spec fn slot_id(&self) -> SlotToken {
        self.receiver@
    }

    /// The token the subscription listens to.
    pub fn token(&self) -> (t: &NotificationToken)
        ensures
            t@ == self.token_text(),
    {
        &self.token
    }

    /// The identifier of the listener among those of its token.
    pub fn slot(&self) -> (s: SlotToken)
        ensures
            s == self.slot_id(),
    {
        self.receiver.slot()
    }
}

/// One registered filter and its token.
struct Binding {
    config: NotificationConfig,
    token: NotificationToken,
}

/// One token and the bus of its listeners.
struct Channel {
    token: NotificationToken,
    emitter: Emitter<DatabaseNotification>,
}

spec fn bus_of(m: Map<SlotToken, MailboxView<DatabaseNotification>>) -> BusView {
    BusView {
        listeners: Map::new(
            |id: SlotToken| m.contains_key(id),
            |id: SlotToken| notification_views(m[id].pending),
        ),
    }
}

/// Whether the receiving end of every listener is held. The registry never
/// gives one up: it removes a listener at once.
spec fn all_open(m: Map<SlotToken, MailboxView<DatabaseNotification>>) -> bool {
    forall|id: SlotToken| m.contains_key(id) ==> (#[trigger] m[id]).open
}

spec fn channels_open(c: Seq<Channel>) -> bool {
    forall|i: int| 0 <= i < c.len() ==> all_open((#[trigger] c[i]).emitter@)
}

/// Whether the emitter has handed out no identifier from `issued` on.
spec fn below(e: Emitter<DatabaseNotification>, issued: usize) -> bool {
    e.issued() <= issued
}

spec fn channels_below(c: Seq<Channel>, issued: usize) -> bool {
    forall|i: int| 0 <= i < c.len() ==> below((#[trigger] c[i]).emitter, issued)
}

spec fn bus_view(e: Emitter<DatabaseNotification>) -> BusView {
    bus_of(e@)
}

spec fn binding_entries(b: Seq<Binding>) -> Seq<(ConfigView, Seq<char>)> {
    Seq::new(b.len(), |i: int| (b[i].config@, b[i].token@))
}

spec fn channel_entries(c: Seq<Channel>) -> Seq<(Seq<char>, BusView)> {
    Seq::new(c.len(), |i: int| (c[i].token@, bus_view(c[i].emitter)))
}

spec fn registry_of(b: Seq<Binding>, c: Seq<Channel>, issued: usize) -> RegistryView {
    RegistryView { tokens: to_map(binding_entries(b)), buses: to_map(channel_entries(c)), issued }
}

proof fn lemma_bus_join(m: Map<SlotToken, MailboxView<DatabaseNotification>>, slot: SlotToken)
    ensures
        bus_of(m.insert(slot, MailboxView::fresh())) == bus_of(m).join(slot),
        all_open(m) ==> all_open(m.insert(slot, MailboxView::fresh())),
        bus_of(m).join(slot).inhabited(),
{
    let a = bus_of(m.insert(slot, MailboxView::fresh()));
    let b = bus_of(m).join(slot);
    assert(notification_views(Seq::<DatabaseNotification>::empty()) =~= Seq::<
        NotificationView,
    >::empty());
    assert(a.listeners =~= b.listeners);
    assert(b.listeners.contains_key(slot));
}

/// Putting other listeners under a token that has some keeps the tables
/// fitting, as long as it has one listener at least and their identifiers
/// were handed out.
proof fn lemma_bus_replaced(pre: RegistryView, token: Seq<char>, bus: BusView, issued: usize)
    requires
        pre.consistent(),
        pre.buses.contains_key(token),
        bus.inhabited(),
        pre.issued <= issued,
        forall|slot: SlotToken| bus.listeners.contains_key(slot) ==> slot.0 < issued,
    ensures
        (RegistryView { buses: pre.buses.insert(token, bus), issued, ..pre }).consistent(),
{
    let post = RegistryView { buses: pre.buses.insert(token, bus), issued, ..pre };
    assert forall|t: Seq<char>| #[trigger] post.buses.contains_key(t) implies exists|c: ConfigView|
        #[trigger] post.tokens.contains_key(c) && post.tokens[c] == t by {
        assert(pre.buses.contains_key(t));
        let c = choose|c: ConfigView| #[trigger] pre.tokens.contains_key(c) && pre.tokens[c] == t;
        assert(post.tokens.contains_key(c) && post.tokens[c] == t);
    }
    assert forall|t: Seq<char>| #[trigger] post.buses.contains_key(t) implies post.buses[t].inhabited() by {
        if t != token {
            assert(pre.buses.contains_key(t));
        }
    }
    assert forall|t: Seq<char>, slot: SlotToken| #[trigger] post.listens(t, slot) implies slot.0
        < post.issued by {
        if t != token {
            assert(pre.listens(t, slot));
        }
    }
}

/// Changing one channel's bus keeps the receiving ends of the others held,
/// and the identifiers of the others where they were.
proof fn lemma_channels_kept(
    before: Seq<Channel>,
    after: Seq<Channel>,
    j: int,
    old_issued: usize,
    issued: usize,
)
    requires
        channels_open(before),
        channels_below(before, old_issued),
        old_issued <= issued,
        0 <= j < before.len(),
        after.len() == before.len(),
        forall|i: int| 0 <= i < before.len() && i != j ==> after[i] == before[i],
        all_open(after[j].emitter@),
        below(after[j].emitter, issued),
    ensures
        channels_open(after),
        channels_below(after, issued),
{
    assert forall|i: int| 0 <= i < after.len() implies all_open((#[trigger] after[i]).emitter@) by {
        if i != j {
            assert(all_open(before[i].emitter@));
        }
    }
    assert forall|i: int| 0 <= i < after.len() implies below((#[trigger] after[i]).emitter, issued) by {
        if i != j {
            assert(below(before[i].emitter, old_issued));
        }
    }
}

proof fn lemma_bus_detach(m: Map<SlotToken, MailboxView<DatabaseNotification>>, slot: SlotToken)
    ensures
        bus_of(m.remove(slot)) == bus_of(m).detach(slot),
{
    assert(bus_of(m.remove(slot)).listeners =~= bus_of(m).detach(slot).listeners);
}

proof fn lemma_bus_emit(
    pre: Map<SlotToken, MailboxView<DatabaseNotification>>,
    n: DatabaseNotification,
    post: Map<SlotToken, MailboxView<DatabaseNotification>>,
)
    requires
        delivered(pre, n, post),
        all_open(pre),
    ensures
        bus_of(post) == bus_of(pre).emit(n@),
        all_open(post),
{
    let a = bus_of(post);
    let b = bus_of(pre).emit(n@);
    assert forall|id: SlotToken| a.listeners.contains_key(id) == b.listeners.contains_key(id) by {
        assert(post.contains_key(id) <==> pre.contains_key(id) && pre[id].open);
        if pre.contains_key(id) {
            assert(pre[id].open);
        }
    }
    assert forall|id: SlotToken| post.contains_key(id) implies (#[trigger] post[id]).open by {}
    assert forall|id: SlotToken| #[trigger] a.listeners.contains_key(id) implies a.listeners[id]
        == b.listeners[id] by {
        assert(post.contains_key(id));
        let p = post[id].pending;
        let q = pre[id].pending;
        assert(cloned(n, p.last()));
        assert(p.last()@ == n@);
        assert(notification_views(p) =~= notification_views(q).push(n@)) by {
            assert forall|i: int| 0 <= i < p.len() implies notification_views(p)[i]
                == notification_views(q).push(n@)[i] by {
                if i < q.len() {
                    assert(p.drop_last()[i] == q[i]);
                }
            }
        }
    }
    assert(a.listeners =~= b.listeners);
}

proof fn lemma_bus_take(m: Map<SlotToken, MailboxView<DatabaseNotification>>, slot: SlotToken)
    requires
        m.contains_key(slot),
        m[slot].pending.len() > 0,
    ensures
        bus_of(
            m.insert(
                slot,
                MailboxView { open: m[slot].open, pending: m[slot].pending.drop_first() },
            ),
        ) == bus_of(m).take(slot),
        all_open(m) ==> all_open(
            m.insert(
                slot,
                MailboxView { open: m[slot].open, pending: m[slot].pending.drop_first() },
            ),
        ),
{
    let a = bus_of(
        m.insert(slot, MailboxView { open: m[slot].open, pending: m[slot].pending.drop_first() }),
    );
    let b = bus_of(m).take(slot);
    assert(notification_views(m[slot].pending.drop_first()) =~= notification_views(
        m[slot].pending,
    ).drop_first());
    assert(a.listeners =~= b.listeners);
}

fn find_binding(bindings: &Vec<Binding>, config: &NotificationConfig) -> (r: Option<usize>)
    ensures
        match r {
            Some(i) => i < bindings@.len() && bindings@[i as int].config@ == config@,
            None => !has_key(binding_entries(bindings@), config@),
        },
{
    let mut i: usize = 0;
    while i < bindings.len()
        invariant
            i <= bindings@.len(),
            forall|j: int| 0 <= j < i ==> (#[trigger] binding_entries(bindings@)[j]).0 != config@,
        decreases bindings@.len() - i,
    {
        if bindings[i].config.same(config) {
            return Some(i);
        }
        i = i + 1;
    }
    None
}

fn find_channel(channels: &Vec<Channel>, token: &String) -> (r: Option<usize>)
    ensures
        match r {
            Some(i) => i < channels@.len() && channels@[i as int].token@ == token@,
            None => !has_key(channel_entries(channels@), token@),
        },
{
    let mut i: usize = 0;
    while i < channels.len()
        invariant
            i <= channels@.len(),
            forall|j: int| 0 <= j < i ==> (#[trigger] channel_entries(channels@)[j]).0 != token@,
        decreases channels@.len() - i,
    {
        if channels[i].token.0 == *token {
            return Some(i);
        }
        i = i + 1;
    }
    None
}

/// The subscription registry.
pub struct NotificationManager {
    bindings: Vec<Binding>,
    channels: Vec<Channel>,
    issued: usize,
}

impl View for NotificationManager {
    type V = RegistryView;

    closed spec fn view(&self) -> RegistryView {
        registry_of(self.bindings@, self.channels@, self.issued)
    }
}

/// The tables of a registry, taken out of it to be worked on.
struct Parts {
    bindings: Vec<Binding>,
    channels: Vec<Channel>,
    issued: usize,
}

impl Parts {
    spec fn registry(self) -> RegistryView {
        registry_of(self.bindings@, self.channels@, self.issued)
    }

    spec fn wf(self) -> bool {
        &&& keys_distinct(binding_entries(self.bindings@))
        &&& keys_distinct(channel_entries(self.channels@))
        &&& channels_open(self.channels@)
        &&& channels_below(self.channels@, self.issued)
        &&& self.registry().consistent()
    }
}

impl NotificationManager {
    #[verifier::type_invariant]
    spec fn wf(self) -> bool {
        &&& keys_distinct(binding_entries(self.bindings@))
        &&& keys_distinct(channel_entries(self.channels@))
        &&& channels_open(self.channels@)
        &&& channels_below(self.channels@, self.issued)
        &&& registry_of(self.bindings@, self.channels@, self.issued).consistent()
    }

    /// A registry without a subscription.
    pub fn new() -> (m: NotificationManager)
        ensures
            m@ == RegistryView::empty(),
    {
        let m = NotificationManager { bindings: Vec::new(), channels: Vec::new(), issued: 0 };
        proof {
            lemma_empty::<ConfigView, Seq<char>>();
            lemma_empty::<Seq<char>, BusView>();
            assert(binding_entries(m.bindings@) =~= Seq::empty());
            assert(channel_entries(m.channels@) =~= Seq::empty());
        }
        m
    }

    /// Drops every subscription and every listener, without a word to the
    /// remote service. The identifiers of the listeners stay used up: a
    /// receiving end that was handed out before never meets a later listener.
    pub fn clear(&mut self)
        ensures
            final(self)@ == old(self)@.cleared(),
            final(self)@.consistent(),
    {
        proof {
            lemma_empty::<ConfigView, Seq<char>>();
            lemma_empty::<Seq<char>, BusView>();
            assert(binding_entries(Seq::<Binding>::empty()) =~= Seq::empty());
            assert(channel_entries(Seq::<Channel>::empty()) =~= Seq::empty());
        }
        let issued = self.issued;
        *self = NotificationManager { bindings: Vec::new(), channels: Vec::new(), issued };
    }

    /// Whether the filter is registered.
    pub fn is_registered(&self, config: &NotificationConfig) -> (b: bool)
        ensures
            b == self@.registered_configs().contains(config@),
    {
        let found = find_binding(&self.bindings, config);
        proof {
            if let Some(i) = found {
                assert(binding_entries(self.bindings@)[i as int].0 == config@);
            }
        }
        found.is_some()
    }

    /// The token under which the filter is registered, if it is.
    pub fn token_of(&self, config: &NotificationConfig) -> (t: Option<NotificationToken>)
        ensures
            match t {
                Some(t) => self@.tokens.contains_key(config@) && t@ == self@.tokens[config@],
                None => !self@.tokens.contains_key(config@),
            },
    {
        proof {
            use_type_invariant(self);
        }
        match find_binding(&self.bindings, config) {
            Some(i) => {
                proof {
                    lemma_entry(binding_entries(self.bindings@), i as int);
                }
                Some(self.bindings[i].token.duplicate())
            },
            None => None,
        }
    }

    /// Whether the token has listeners.
    pub fn is_known(&self, token: &NotificationToken) -> (b: bool)
        ensures
            b == self@.buses.contains_key(token@),
    {
        let found = find_channel(&self.channels, &token.0);
        proof {
            if let Some(i) = found {
                assert(channel_entries(self.channels@)[i as int].0 == token@);
            }
        }
        found.is_some()
    }

    /// Takes the tables out and leaves the registry without subscriptions.
    fn take_parts(&mut self) -> (parts: Parts)
        ensures
            parts.registry() == old(self)@,
            parts.wf(),
            final(self)@ == old(self)@.cleared(),
    {
        proof {
            use_type_invariant(&*self);
            lemma_empty::<ConfigView, Seq<char>>();
            lemma_empty::<Seq<char>, BusView>();
            assert(binding_entries(Seq::<Binding>::empty()) =~= Seq::empty());
            assert(channel_entries(Seq::<Channel>::empty()) =~= Seq::empty());
        }
        let issued = self.issued;
        let mut taken = NotificationManager { bindings: Vec::new(), channels: Vec::new(), issued };
        std::mem::swap(self, &mut taken);
        let NotificationManager { bindings, channels, issued } = taken;
        Parts { bindings, channels, issued }
    }

    /// Puts tables in.
    fn put_parts(&mut self, parts: Parts)
        requires
            parts.wf(),
        ensures
            final(self)@ == parts.registry(),
    {
        let Parts { bindings, channels, issued } = parts;
        *self = NotificationManager { bindings, channels, issued };
    }

    /// Subscribes to a filter and returns the receiving end of the new
    /// listener.
    ///
    /// A filter that is registered gets one more listener under its token,
    /// and the transport is left alone. For any other filter the transport is
    /// asked to register it, once; what follows from its answer is what
    /// [`NotificationManager::complete_registration`] does with it. No
    /// listener can be added once the identifiers are used up: that is an
    /// error, and nothing changes.
    pub fn register<C: ClientTrait>(&mut self, client: &mut C, config: &NotificationConfig) -> (r:
        Result<NotificationReceiver, Error>)
        ensures
            final(self)@.consistent(),
            old(self)@.tokens.contains_key(config@) ==> {
                &&& *final(client) == *old(client)
                &&& if old(self)@.exhausted() {
                    &&& r matches Err(e)
                    &&& e@ == inconsistent_registration()
                    &&& final(self)@ == old(self)@
                } else {
                    &&& subscription(r) == Ok::<(Seq<char>, SlotToken), ErrorView>(
                        (old(self)@.tokens[config@], old(self)@.next_slot()),
                    )
                    &&& final(self)@ == old(self)@.attach(config@)
                }
            },
            !old(self)@.tokens.contains_key(config@) ==> {
                &&& final(client).journal().len() == old(client).journal().len() + 1
                &&& final(client).journal().drop_last() == old(client).journal()
                &&& final(client).journal().last() matches Call::Register { config: asked, answer }
                &&& asked == config@
                &&& old(self)@.registered(config@, answer, subscription(r), final(self)@)
            },
    {
        proof {
            use_type_invariant(&*self);
        }
        if self.is_registered(config) {
            self.join(config)
        } else {
            let ghost before = client.journal();
            let answer = client.register_notification(config);
            proof {
                assert(client.journal().drop_last() =~= before);
            }
            self.complete_registration(config, answer)
        }
    }

    /// Adds a listener under the token of a filter that is registered.
    fn join(&mut self, config: &NotificationConfig) -> (r: Result<NotificationReceiver, Error>)
        requires
            old(self)@.tokens.contains_key(config@),
        ensures
            final(self)@.consistent(),
            if old(self)@.exhausted() {
                &&& r matches Err(e)
                &&& e@ == inconsistent_registration()
                &&& final(self)@ == old(self)@
            } else {
                &&& subscription(r) == Ok::<(Seq<char>, SlotToken), ErrorView>(
                    (old(self)@.tokens[config@], old(self)@.next_slot()),
                )
                &&& final(self)@ == old(self)@.attach(config@)
            },
    {
        let mut parts = self.take_parts();
        let ghost pre = parts.registry();
        let ghost old_channels = parts.channels@;
        if parts.issued == usize::MAX {
            self.put_parts(parts);
            return Err(
                Error::from_notification("Inconsistent notification state during registration"),
            );
        }
        let found = find_binding(&parts.bindings, config);
        assert(found is Some);
        let i = match found {
            Some(i) => i,
            None => 0,
        };
        proof {
            lemma_entry(binding_entries(parts.bindings@), i as int);
            assert(has_key(channel_entries(parts.channels@), parts.bindings@[i as int].token@));
        }
        let token = parts.bindings[i].token.duplicate();
        let at = find_channel(&parts.channels, &token.0);
        assert(at is Some);
        let j = match at {
            Some(j) => j,
            None => 0,
        };
        let ghost before = parts.channels@[j as int].emitter;
        proof {
            lemma_entry(channel_entries(parts.channels@), j as int);
            assert(below(before, parts.issued));
        }
        let receiver = parts.channels[j].emitter.new_receiver_from(parts.issued);
        parts.issued = parts.issued + 1;
        proof {
            let after = parts.channels@[j as int].emitter;
            let slot = pre.next_slot();
            lemma_bus_join(before@, slot);
            assert(channel_entries(parts.channels@) =~= channel_entries(old_channels).update(
                j as int,
                (token@, bus_view(after)),
            ));
            lemma_replace(channel_entries(old_channels), j as int, bus_view(after));
            assert(parts.registry().buses =~= pre.attach(config@).buses);
            assert forall|s: SlotToken| bus_view(after).listeners.contains_key(s) implies s.0
                < parts.issued by {
                if s != slot {
                    assert(pre.listens(token@, s));
                }
            }
            lemma_bus_replaced(pre, token@, bus_view(after), parts.issued);
            lemma_channels_kept(old_channels, parts.channels@, j as int, pre.issued, parts.issued);
        }
        self.put_parts(parts);
        Ok(NotificationReceiver { token, receiver })
    }

    /// Finishes a subscription to a new filter, given the transport's answer
    /// to the request to register it.
    ///
    /// An error is handed on and nothing changes. A token is recorded for the
    /// filter, with a fresh bus and one listener, whose receiving end is
    /// returned; listeners that the token had before are dropped. Where the
    /// filter is registered already, or no identifier is left for a
    /// listener, the token is refused and nothing changes.
    pub fn complete_registration(
        &mut self,
        config: &NotificationConfig,
        answer: Result<NotificationToken, Error>,
    ) -> (r: Result<NotificationReceiver, Error>)
        ensures
            final(self)@.consistent(),
            if old(self)@.tokens.contains_key(config@) && answer is Ok {
                &&& r matches Err(e)
                &&& e@ == inconsistent_registration()
                &&& final(self)@ == old(self)@
            } else {
                old(self)@.registered(config@, token_answer(answer), subscription(r), final(self)@)
            },
    {
        proof {
            use_type_invariant(&*self);
        }
        let token = match answer {
            Ok(token) => token,
            Err(error) => {
                return Err(error);
            },
        };
        if self.is_registered(config) {
            return Err(
                Error::from_notification("Inconsistent notification state during registration"),
            );
        }
        let mut parts = self.take_parts();
        let ghost pre = parts.registry();
        let ghost old_bindings = parts.bindings@;
        let ghost old_channels = parts.channels@;
        let ghost slot = pre.next_slot();
        let ghost bus = BusView::fresh().join(slot);
        if parts.issued == usize::MAX {
            self.put_parts(parts);
            return Err(
                Error::from_notification("Inconsistent notification state during registration"),
            );
        }
        let mut emitter: Emitter<DatabaseNotification> = Emitter::new();
        let receiver = emitter.new_receiver_from(parts.issued);
        proof {
            lemma_bus_join(Map::empty(), slot);
            assert(bus_of(Map::empty()).listeners =~= BusView::fresh().listeners);
            assert(bus_view(emitter) == bus);
            assert(all_open(emitter@));
        }
        match find_channel(&parts.channels, &token.0) {
            Some(j) => {
                parts.channels.set(j, Channel { token: token.duplicate(), emitter });
                proof {
                    assert(channel_entries(parts.channels@) =~= channel_entries(old_channels).update(
                        j as int,
                        (token@, bus),
                    ));
                    lemma_replace(channel_entries(old_channels), j as int, bus);
                    lemma_channels_kept(
                        old_channels,
                        parts.channels@,
                        j as int,
                        pre.issued,
                        (pre.issued + 1) as usize,
                    );
                }
            },
            None => {
                parts.channels.push(Channel { token: token.duplicate(), emitter });
                proof {
                    assert(channel_entries(parts.channels@) =~= channel_entries(old_channels).push(
                        (token@, bus),
                    ));
                    lemma_push(channel_entries(old_channels), token@, bus);
                    assert forall|i: int| 0 <= i < parts.channels@.len() implies all_open(
                        (#[trigger] parts.channels@[i]).emitter@,
                    ) && below(parts.channels@[i].emitter, (pre.issued + 1) as usize) by {
                        if i < old_channels.len() {
                            assert(parts.channels@[i] == old_channels[i]);
                            assert(all_open(old_channels[i].emitter@));
                            assert(below(old_channels[i].emitter, pre.issued));
                        }
                    }
                }
            },
        }
        let rx = NotificationReceiver { token: token.duplicate(), receiver };
        parts.bindings.push(Binding { config: config.duplicate(), token });
        parts.issued = parts.issued + 1;
        proof {
            assert(binding_entries(parts.bindings@) =~= binding_entries(old_bindings).push(
                (config@, rx.token_text()),
            ));
            lemma_push(binding_entries(old_bindings), config@, rx.token_text());
            let post = parts.registry();
            assert(post == pre.enroll(config@, rx.token_text()));
            assert(post.consistent()) by {
                assert forall|c: ConfigView| #[trigger] post.tokens.contains_key(c) implies
                    post.buses.contains_key(post.tokens[c]) by {
                    if c != config@ {
                        assert(pre.tokens.contains_key(c));
                    }
                }
                assert forall|t: Seq<char>| #[trigger] post.buses.contains_key(t) implies exists|
                    c: ConfigView,
                | #[trigger] post.tokens.contains_key(c) && post.tokens[c] == t by {
                    if t == rx.token_text() {
                        assert(post.tokens.contains_key(config@));
                    } else {
                        assert(pre.buses.contains_key(t));
                        let c = choose|c: ConfigView| #[trigger]
                            pre.tokens.contains_key(c) && pre.tokens[c] == t;
                        assert(post.tokens.contains_key(c) && post.tokens[c] == t);
                    }
                }
                assert forall|t: Seq<char>| #[trigger] post.buses.contains_key(t) implies
                    post.buses[t].inhabited() by {
                    if t != rx.token_text() {
                        assert(pre.buses.contains_key(t));
                    } else {
                        assert(bus.listeners.contains_key(slot));
                    }
                }
                assert forall|t: Seq<char>, s: SlotToken| #[trigger] post.listens(t, s) implies s.0
                    < post.issued by {
                    if t != rx.token_text() {
                        assert(pre.listens(t, s));
                    }
                }
            }
        }
        self.put_parts(parts);
        Ok(rx)
    }
}

/// Removes every binding whose token has the given text.
fn drop_bindings(bindings: &mut Vec<Binding>, token: &String)
    requires
        keys_distinct(binding_entries(old(bindings)@)),
    ensures
        keys_distinct(binding_entries(final(bindings)@)),
        to_map(binding_entries(final(bindings)@)) == Map::new(
            |c: ConfigView|
                to_map(binding_entries(old(bindings)@)).contains_key(c) && to_map(
                    binding_entries(old(bindings)@),
                )[c] != token@,
            |c: ConfigView| to_map(binding_entries(old(bindings)@))[c],
        ),
{
    let ghost before = bindings@;
    // `origin[k]` is where the binding now at `k` stood before the call;
    // `seen` counts the bindings of before that were looked at.
    let ghost mut origin: Seq<int> = Seq::empty();
    let ghost mut seen: int = 0;
    let mut i: usize = 0;
    while i < bindings.len()
        invariant
            i <= bindings@.len(),
            0 <= seen <= before.len(),
            bindings@.len() - i == before.len() - seen,
            origin.len() == i,
            forall|k: int| i <= k < bindings@.len() ==> bindings@[k] == before[k - i + seen],
            forall|k: int|
                0 <= k < i ==> {
                    &&& 0 <= #[trigger] origin[k] < seen
                    &&& bindings@[k] == before[origin[k]]
                    &&& before[origin[k]].token@ != token@
                },
            forall|a: int, b: int| 0 <= a < b < i ==> #[trigger] origin[a] < #[trigger] origin[b],
            forall|j: int|
                0 <= j < seen && (#[trigger] before[j]).token@ != token@ ==> exists|k: int|
                    0 <= k < i && #[trigger] origin[k] == j,
        decreases bindings@.len() - i,
    {
        if bindings[i].token.0 == *token {
            let _ = bindings.remove(i);
            proof {
                seen = seen + 1;
            }
        } else {
            proof {
                let old_origin = origin;
                origin = origin.push(seen);
                assert forall|j: int|
                    0 <= j < seen + 1 && (#[trigger] before[j]).token@ != token@ implies exists|
                    k: int,
                | 0 <= k < i + 1 && #[trigger] origin[k] == j by {
                    if j < seen {
                        let k = choose|k: int| 0 <= k < i && #[trigger] old_origin[k] == j;
                        assert(origin[k] == j);
                    } else {
                        assert(origin[i as int] == j);
                    }
                }
                seen = seen + 1;
            }
            i = i + 1;
        }
    }
    proof {
        let pre = binding_entries(before);
        let post = binding_entries(bindings@);
        let goal = Map::new(
            |c: ConfigView| to_map(pre).contains_key(c) && to_map(pre)[c] != token@,
            |c: ConfigView| to_map(pre)[c],
        );
        assert forall|a: int, b: int| 0 <= a < b < post.len() implies (#[trigger] post[a]).0 != (
        #[trigger] post[b]).0 by {
            assert(origin[a] < origin[b]);
            assert(pre[origin[a]].0 != pre[origin[b]].0);
        }
        assert forall|c: ConfigView| #[trigger] to_map(post).contains_key(c) == goal.contains_key(
            c,
        ) by {
            if has_key(post, c) {
                let k = index_of(post, c);
                assert(pre[origin[k]].0 == c);
                lemma_entry(pre, origin[k]);
            }
            if has_key(pre, c) && to_map(pre)[c] != token@ {
                let j = index_of(pre, c);
                assert(before[j].token@ != token@);
                let k = choose|k: int| 0 <= k < post.len() && #[trigger] origin[k] == j;
                assert(post[k].0 == c);
            }
        }
        assert forall|c: ConfigView| #[trigger] to_map(post).contains_key(c) implies to_map(post)[c]
            == goal[c] by {
            let k = index_of(post, c);
            lemma_entry(post, k);
            assert(pre[origin[k]].0 == c);
            lemma_entry(pre, origin[k]);
        }
        assert(to_map(post) =~= goal);
    }
}

impl NotificationManager {
    /// Ends the subscription of a token.
    ///
    /// A token without listeners is an error, and the transport is left
    /// alone. For any other token the transport is asked to unregister it,
    /// once; what follows from its answer is what
    /// [`NotificationManager::complete_unregistration`] does with it.
    pub fn unregister<C: ClientTrait>(&mut self, client: &mut C, token: &NotificationToken) -> (r:
        Result<(), Error>)
        ensures
            final(self)@.consistent(),
            final(client).journal() == old(client).journal() + old(self)@.unregister_requests(
                token@,
                unit_answer(r),
            ),
            !old(self)@.buses.contains_key(token@) ==> {
                &&& *final(client) == *old(client)
                &&& r matches Err(e)
                &&& e@ == unknown_token()
                &&& final(self)@ == old(self)@
            },
            old(self)@.buses.contains_key(token@) ==> {
                &&& r is Ok ==> final(self)@ == old(self)@.forget(token@)
                &&& r is Err ==> final(self)@ == old(self)@
            },
    {
        proof {
            use_type_invariant(&*self);
        }
        if !self.is_known(token) {
            assert(client.journal() + Seq::<Call>::empty() =~= client.journal());
            return Err(Error::from_notification("Token not found during unregistration"));
        }
        let ghost before = client.journal();
        let answer = client.unregister_notification(token);
        let r = self.complete_unregistration(token, answer);
        proof {
            let call = Call::Unregister { token: token@, answer: unit_answer(r) };
            assert(before + seq![call] =~= before.push(call));
        }
        r
    }

    /// Finishes the end of a subscription, given the transport's answer to
    /// the request to unregister the token.
    ///
    /// An error is handed on and nothing changes. Otherwise the token, its
    /// listeners and every filter registered under it are removed.
    pub fn complete_unregistration(&mut self, token: &NotificationToken, answer: Result<(), Error>) -> (r:
        Result<(), Error>)
        ensures
            final(self)@.consistent(),
            match answer {
                Ok(_) => r is Ok && final(self)@ == old(self)@.forget(token@),
                Err(error) => {
                    &&& r matches Err(e)
                    &&& e@ == error@
                    &&& final(self)@ == old(self)@
                },
            },
    {
        proof {
            use_type_invariant(&*self);
        }
        match answer {
            Ok(_) => {},
            Err(error) => {
                return Err(error);
            },
        }
        let Parts { mut bindings, mut channels, issued } = self.take_parts();
        let ghost pre = registry_of(bindings@, channels@, issued);
        let ghost old_channels = channels@;
        match find_channel(&channels, &token.0) {
            Some(j) => {
                let _ = channels.remove(j);
                proof {
                    assert(channel_entries(channels@) =~= channel_entries(old_channels).remove(
                        j as int,
                    ));
                    lemma_remove(channel_entries(old_channels), j as int);
                    assert forall|i: int| 0 <= i < channels@.len() implies all_open(
                        (#[trigger] channels@[i]).emitter@,
                    ) && below(channels@[i].emitter, issued) by {
                        let i0 = if i < j { i } else { i + 1 };
                        assert(channels@[i] == old_channels[i0]);
                        assert(all_open(old_channels[i0].emitter@));
                        assert(below(old_channels[i0].emitter, issued));
                    }
                }
            },
            None => {
                proof {
                    assert(pre.buses =~= pre.buses.remove(token@));
                }
            },
        }
        drop_bindings(&mut bindings, &token.0);
        proof {
            let post = registry_of(bindings@, channels@, issued);
            assert(post.tokens =~= pre.forget(token@).tokens);
            assert(post.buses =~= pre.forget(token@).buses);
            assert(post.consistent()) by {
                assert forall|c: ConfigView| #[trigger] post.tokens.contains_key(c) implies
                    post.buses.contains_key(post.tokens[c]) by {
                    assert(pre.tokens.contains_key(c));
                }
                assert forall|t: Seq<char>| #[trigger] post.buses.contains_key(t) implies exists|
                    c: ConfigView,
                | #[trigger] post.tokens.contains_key(c) && post.tokens[c] == t by {
                    assert(pre.buses.contains_key(t));
                    let c = choose|c: ConfigView| #[trigger]
                        pre.tokens.contains_key(c) && pre.tokens[c] == t;
                    assert(post.tokens.contains_key(c) && post.tokens[c] == t);
                }
                assert forall|t: Seq<char>| #[trigger] post.buses.contains_key(t) implies
                    post.buses[t].inhabited() by {
                    assert(pre.buses.contains_key(t));
                }
                assert forall|t: Seq<char>, s: SlotToken| #[trigger] post.listens(t, s) implies s.0
                    < post.issued by {
                    assert(pre.listens(t, s));
                }
            }
        }
        self.put_parts(Parts { bindings, channels, issued });
        Ok(())
    }
}

impl NotificationManager {
    /// Polls the transport for notifications, once, and hands them to the
    /// listeners of their tokens.
    ///
    /// What follows from the transport's answer is what
    /// [`NotificationManager::dispatch`] does with the batch; an error is
    /// handed on and nothing changes.
    pub fn process_notifications<C: ClientTrait>(&mut self, client: &mut C) -> (r: Result<
        (),
        Error,
    >)
        ensures
            final(self)@.consistent(),
            final(client).journal().len() == old(client).journal().len() + 1,
            final(client).journal().drop_last() == old(client).journal(),
            match final(client).journal().last() {
                Call::GetNotifications { answer: Ok(batch) } => {
                    &&& final(self)@ == old(self)@.deliver_all(batch)
                    &&& r is Ok <==> old(self)@.knows_all(batch)
                    &&& r matches Err(e) ==> e@ == unknown_token_in_batch()
                },
                Call::GetNotifications { answer: Err(error) } => {
                    &&& r matches Err(e)
                    &&& e@ == error
                    &&& final(self)@ == old(self)@
                },
                _ => false,
            },
    {
        proof {
            use_type_invariant(&*self);
        }
        let answer = client.get_notifications();
        match answer {
            Ok(batch) => self.dispatch(&batch),
            Err(error) => Err(error),
        }
    }

    /// Hands the notifications of a batch to the listeners of their tokens, in
    /// order, up to the first one whose token is unknown.
    ///
    /// Each listener gets a copy of the notification behind what it has not
    /// taken out yet. A notification whose token is unknown ends the batch
    /// with an error: it and those behind it are dropped, those before it
    /// stay handed out.
    pub fn dispatch(&mut self, batch: &Vec<DatabaseNotification>) -> (r: Result<(), Error>)
        ensures
            final(self)@.consistent(),
            final(self)@ == old(self)@.deliver_all(notification_views(batch@)),
            r is Ok <==> old(self)@.knows_all(notification_views(batch@)),
            r matches Err(e) ==> e@ == unknown_token_in_batch(),
    {
        let Parts { bindings, mut channels, issued } = self.take_parts();
        let ghost pre = registry_of(bindings@, channels@, issued);
        let ghost views = notification_views(batch@);
        let mut i: usize = 0;
        let mut r: Result<(), Error> = Ok(());
        assert(views.skip(0) == views);
        while i < batch.len()
            invariant_except_break
                r is Ok,
                i <= batch@.len(),
                forall|k: int| 0 <= k < i ==> pre.buses.contains_key((#[trigger] views[k]).token),
            invariant
                views == notification_views(batch@),
                keys_distinct(binding_entries(bindings@)),
                keys_distinct(channel_entries(channels@)),
                channels_open(channels@),
                channels_below(channels@, issued),
                registry_of(bindings@, channels@, issued).consistent(),
                registry_of(bindings@, channels@, issued).buses.dom() == pre.buses.dom(),
                registry_of(bindings@, channels@, issued).deliver_all(views.skip(i as int))
                    == pre.deliver_all(views),
            ensures
                r matches Err(e) ==> e@ == unknown_token_in_batch() && !pre.knows_all(views),
                r is Ok ==> pre.knows_all(views),
                registry_of(bindings@, channels@, issued) == pre.deliver_all(views),
            decreases batch@.len() - i,
        {
            let ghost now = registry_of(bindings@, channels@, issued);
            let ghost old_channels = channels@;
            let ghost rest = views.skip(i as int);
            assert(rest.first() == batch@[i as int]@);
            assert(rest.drop_first() == views.skip(i + 1));
            match find_channel(&channels, &batch[i].token) {
                Some(j) => {
                    let ghost before = channels@[j as int].emitter;
                    let copy = batch[i].clone();
                    channels[j].emitter.emit(copy);
                    proof {
                        let after = channels@[j as int].emitter;
                        let token = batch@[i as int]@.token;
                        lemma_entry(channel_entries(old_channels), j as int);
                        assert(all_open(before@));
                        assert(below(before, issued));
                        lemma_bus_emit(before@, copy, after@);
                        assert(bus_view(after) == bus_view(before).emit(batch@[i as int]@));
                        assert(channel_entries(channels@) =~= channel_entries(old_channels).update(
                            j as int,
                            (token, bus_view(after)),
                        ));
                        lemma_replace(channel_entries(old_channels), j as int, bus_view(after));
                        let next = registry_of(bindings@, channels@, issued);
                        assert(next == now.deliver(rest.first()));
                        assert(next.buses.dom() =~= now.buses.dom());
                        assert(bus_view(after).inhabited()) by {
                            assert(now.buses[token].inhabited());
                            let slot = choose|slot: SlotToken|
                                now.buses[token].listeners.contains_key(slot);
                            assert(bus_view(after).listeners.contains_key(slot));
                        }
                        assert forall|s: SlotToken|
                            bus_view(after).listeners.contains_key(s) implies s.0 < issued by {
                            assert(now.listens(token, s));
                        }
                        lemma_bus_replaced(now, token, bus_view(after), issued);
                        lemma_channels_kept(old_channels, channels@, j as int, issued, issued);
                    }
                    i = i + 1;
                },
                None => {
                    proof {
                        assert(!now.buses.contains_key(rest.first().token));
                        assert(!pre.buses.dom().contains(views[i as int].token));
                    }
                    r = Err(
                        Error::from_notification(
                            "Cannot process notification: Callback list doesn't exist for token",
                        ),
                    );
                    break ;
                },
            }
        }
        self.put_parts(Parts { bindings, channels, issued });
        r
    }

    /// Takes the oldest notification out of a listener's mailbox, if it holds
    /// one.
    pub fn try_recv(&mut self, receiver: &NotificationReceiver) -> (r: Option<DatabaseNotification>)
        ensures
            final(self)@.consistent(),
            match r {
                Some(n) => {
                    &&& old(self)@.has_pending(receiver.token_text(), receiver.slot_id())
                    &&& n@ == old(self)@.buses[receiver.token_text()].listeners[receiver.slot_id()].first()
                    &&& final(self)@ == old(self)@.take(receiver.token_text(), receiver.slot_id())
                },
                None => {
                    &&& !old(self)@.has_pending(receiver.token_text(), receiver.slot_id())
                    &&& final(self)@ == old(self)@
                },
            },
    {
        let Parts { bindings, mut channels, issued } = self.take_parts();
        let ghost pre = registry_of(bindings@, channels@, issued);
        let ghost old_channels = channels@;
        let r = match find_channel(&channels, &receiver.token.0) {
            Some(j) => {
                let ghost before = channels@[j as int].emitter;
                let r = channels[j].emitter.try_recv(&receiver.receiver);
                proof {
                    let after = channels@[j as int].emitter;
                    let token = receiver.token_text();
                    let slot = receiver.slot_id();
                    lemma_entry(channel_entries(old_channels), j as int);
                    assert(all_open(before@));
                    assert(below(before, issued));
                    if r is Some {
                        lemma_bus_take(before@, slot);
                        assert(channel_entries(channels@) =~= channel_entries(old_channels).update(
                            j as int,
                            (token, bus_view(after)),
                        ));
                        lemma_replace(channel_entries(old_channels), j as int, bus_view(after));
                        let post = registry_of(bindings@, channels@, issued);
                        assert(post == pre.take(token, slot));
                        assert(bus_view(after).listeners.contains_key(slot));
                        assert forall|s: SlotToken|
                            bus_view(after).listeners.contains_key(s) implies s.0 < issued by {
                            assert(pre.listens(token, s));
                        }
                        lemma_bus_replaced(pre, token, bus_view(after), issued);
                    } else {
                        assert(channel_entries(channels@) =~= channel_entries(old_channels));
                    }
                    lemma_channels_kept(old_channels, channels@, j as int, issued, issued);
                }
                r
            },
            None => None,
        };
        self.put_parts(Parts { bindings, channels, issued });
        r
    }

    /// Gives up a subscription's receiving end: its listener is removed at
    /// once, with what it had not taken out. The other listeners of the token
    /// stay as they are.
    ///
    /// The last listener of a token cannot be given up: that is an error, and
    /// nothing changes. To end the subscription, unregister the token. A
    /// receiving end whose listener is gone already is given up without
    /// effect.
    pub fn detach(&mut self, receiver: &NotificationReceiver) -> (r: Result<(), Error>)
        ensures
            final(self)@.consistent(),
            match r {
                Ok(_) => {
                    &&& !old(self)@.is_last(receiver.token_text(), receiver.slot_id())
                    &&& final(self)@ == if old(self)@.listens(
                        receiver.token_text(),
                        receiver.slot_id(),
                    ) {
                        old(self)@.detach(receiver.token_text(), receiver.slot_id())
                    } else {
                        old(self)@
                    }
                },
                Err(e) => {
                    &&& old(self)@.is_last(receiver.token_text(), receiver.slot_id())
                    &&& e@ == last_listener()
                    &&& final(self)@ == old(self)@
                },
            },
    {
        let Parts { bindings, mut channels, issued } = self.take_parts();
        let ghost pre = registry_of(bindings@, channels@, issued);
        let ghost old_channels = channels@;
        let ghost token = receiver.token_text();
        let slot = receiver.receiver.slot();
        let r = match find_channel(&channels, &receiver.token.0) {
            Some(j) => {
                let ghost before = channels@[j as int].emitter;
                proof {
                    lemma_entry(channel_entries(old_channels), j as int);
                    assert(all_open(before@));
                    assert(below(before, issued));
                }
                if !channels[j].emitter.is_connected(&slot) {
                    Ok(())
                } else if !channels[j].emitter.has_other(&slot) {
                    proof {
                        assert(!pre.buses[token].can_spare(slot)) by {
                            if pre.buses[token].can_spare(slot) {
                                let other = choose|other: SlotToken|
                                    other != slot && pre.buses[token].listeners.contains_key(other);
                                assert(before@.contains_key(other));
                            }
                        }
                    }
                    Err(
                        Error::from_notification(
                            "Cannot detach the last listener of a token: unregister the token instead",
                        ),
                    )
                } else {
                    channels[j].emitter.disconnect(&slot);
                    proof {
                        let after = channels@[j as int].emitter;
                        let other = choose|other: SlotToken|
                            other != slot && #[trigger] before@.contains_key(other);
                        lemma_bus_detach(before@, slot);
                        assert(channel_entries(channels@) =~= channel_entries(old_channels).update(
                            j as int,
                            (token, bus_view(after)),
                        ));
                        lemma_replace(channel_entries(old_channels), j as int, bus_view(after));
                        let post = registry_of(bindings@, channels@, issued);
                        assert(post == pre.detach(token, slot));
                        assert(pre.buses[token].listeners.contains_key(other));
                        assert(pre.buses[token].can_spare(slot));
                        assert(bus_view(after).listeners.contains_key(other));
                        assert forall|s: SlotToken|
                            bus_view(after).listeners.contains_key(s) implies s.0 < issued by {
                            assert(pre.listens(token, s));
                        }
                        lemma_bus_replaced(pre, token, bus_view(after), issued);
                        lemma_channels_kept(old_channels, channels@, j as int, issued, issued);
                    }
                    Ok(())
                }
            },
            None => Ok(()),
        };
        self.put_parts(Parts { bindings, channels, issued });
        r
    }
}

/// Subscribe idempotence. Of two subscriptions to equal filters, the first
/// one of which the transport accepts under `token`, only the first asks the
/// transport, and it asks once. Both get a listener of their own under the
/// token, and a notification for the token that is handed out afterwards is
/// put behind what each of the two has not taken out.
pub proof fn lemma_subscribe_idempotent(
    registry: RegistryView,
    config: ConfigView,
    token: Seq<char>,
    second_answer: Result<Seq<char>, ErrorView>,
    n: NotificationView,
)
    requires
        !registry.tokens.contains_key(config),
        registry.issued + 1 < usize::MAX,
        n.token == token,
    ensures
        ({
            let once = registry.enroll(config, token);
            let twice = once.attach(config);
            let first = registry.next_slot();
            let second = once.next_slot();
            let after = twice.deliver(n);
            &&& registry.register_requests(config, Ok(token)) + once.register_requests(
                config,
                second_answer,
            ) == seq![Call::Register { config, answer: Ok(token) }]
            &&& registry.registered(config, Ok(token), Ok((token, first)), once)
            &&& once.tokens[config] == token
            &&& !once.exhausted()
            &&& first != second
            &&& twice.listens(token, first)
            &&& twice.listens(token, second)
            &&& after.listens(token, first)
            &&& after.listens(token, second)
            &&& after.buses[token].listeners[first] == twice.buses[token].listeners[first].push(n)
            &&& after.buses[token].listeners[second] == twice.buses[token].listeners[second].push(
                n,
            )
        }),
{
    let once = registry.enroll(config, token);
    assert(registry.register_requests(config, Ok(token)) + once.register_requests(
        config,
        second_answer,
    ) =~= seq![Call::Register { config, answer: Ok(token) }]);
}

/// Listener isolation. Taking one listener away from a token does not touch
/// the token's other listeners: each of them keeps what it has not taken
/// out, and a notification handed out afterwards reaches each of them as it
/// would have with the listener still there.
pub proof fn lemma_listener_isolation(
    registry: RegistryView,
    token: Seq<char>,
    gone: SlotToken,
    other: SlotToken,
    n: NotificationView,
)
    requires
        registry.listens(token, gone),
        registry.listens(token, other),
        n.token == token,
        other != gone,
    ensures
        ({
            let left = registry.detach(token, gone);
            let with = registry.deliver(n).buses[token].listeners;
            let without = left.deliver(n).buses[token].listeners;
            &&& !registry.is_last(token, gone)
            &&& left.listens(token, other)
            &&& left.buses[token].listeners[other] == registry.buses[token].listeners[other]
            &&& without.contains_key(other)
            &&& without[other] == with[other]
            &&& without[other] == registry.buses[token].listeners[other].push(n)
            &&& !without.contains_key(gone)
        }),
{
    assert(registry.buses[token].can_spare(gone));
}

/// A receiving end never meets a listener that joins later. Whatever became
/// of the listener of an identifier that was handed out, a listener that
/// joins afterwards, under whichever token, gets another identifier.
pub proof fn lemma_identifiers_are_not_reused(
    registry: RegistryView,
    config: ConfigView,
    token: Seq<char>,
    handed_out: SlotToken,
)
    requires
        handed_out.0 < registry.issued,
        !registry.exhausted(),
    ensures
        registry.next_slot() != handed_out,
        registry.cleared().next_slot() != handed_out,
        registry.forget(token).next_slot() != handed_out,
        handed_out.0 < registry.enroll(config, token).issued,
        handed_out.0 < registry.attach(config).issued,
{
}

/// Clear-on-disconnect. In a registry without subscriptions, which is what
/// [`NotificationManager::clear`] leaves, a polled batch reaches no listener
/// and leaves the registry as it is. It raises no error exactly if it holds
/// no notification: the remote service was not told of the clearing, and
/// whatever it still sends has an unknown token.
pub proof fn lemma_clear_then_dispatch(registry: RegistryView, batch: Seq<NotificationView>)
    ensures
        registry.cleared().consistent(),
        registry.cleared().deliver_all(batch) == registry.cleared(),
        registry.cleared().knows_all(batch) <==> batch.len() == 0,
{
    if batch.len() > 0 {
        assert(!registry.cleared().buses.contains_key(batch[0].token));
    }
}

/// Unregister round-trip. Ending the subscription of a token that a filter
/// was registered under asks the transport once, to unregister the token, and
/// leaves no filter under the token and no listeners of it. A batch that
/// still holds a notification for the token is then reported as an error.
pub proof fn lemma_unregister_round_trip(
    registry: RegistryView,
    config: ConfigView,
    token: Seq<char>,
    answer: Result<(), ErrorView>,
    batch: Seq<NotificationView>,
    i: int,
)
    requires
        !registry.tokens.contains_key(config),
        0 <= i < batch.len(),
        batch[i].token == token,
    ensures
        ({
            let subscribed = registry.enroll(config, token);
            let ended = subscribed.forget(token);
            &&& subscribed.unregister_requests(token, answer) == seq![
                Call::Unregister { token, answer },
            ]
            &&& !ended.tokens.contains_key(config)
            &&& forall|c: ConfigView| #[trigger]
                ended.tokens.contains_key(c) ==> ended.tokens[c] != token
            &&& !ended.buses.contains_key(token)
            &&& !ended.knows_all(batch)
        }),
{
}

} // verus!
