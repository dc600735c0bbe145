//! The websocket server shared by the services: per-connection subscriptions,
//! outgoing message envelopes, and which published items reach which client.
use vstd::prelude::*;
use std::collections::{HashMap, HashSet};
use crate::ids::new_v4;

verus! {

broadcast use vstd::std_specs::hash::group_hash_axioms;

/// A client's subscription to one kind of item: to everything, or to the
/// items with the listed identifiers.
#[derive(Debug)]
pub struct Subscription {
    pub ids: HashSet<u128>,
    pub all: bool,
}

/// Pushing onto a sequence adds exactly the pushed item to its set of items.
proof fn lemma_push_to_set<A>(s: Seq<A>, x: A)
    ensures
        s.push(x).to_set() == s.to_set().insert(x),
{
    assert forall|a: A| #[trigger] s.push(x).to_set().contains(a) == s.to_set().insert(x).contains(a) by {
        if s.contains(a) {
            let i = choose|i: int| 0 <= i < s.len() && s[i] == a;
            assert(s.push(x)[i] == a);
        }
        if s.push(x).contains(a) {
            let i = choose|i: int| 0 <= i < s.push(x).len() && s.push(x)[i] == a;
            if i < s.len() {
                assert(s[i] == a);
            }
        }
        assert(s.push(x)[s.len() as int] == x);
    }
    assert(s.push(x).to_set() =~= s.to_set().insert(x));
}

impl Subscription {
    /// Subscribed to nothing.
    pub fn new() -> (s: Subscription)
        ensures
            s.ids@ == Set::<u128>::empty(),
            !s.all,
    {
        Subscription { ids: HashSet::new(), all: false }
    }

    /// Adds the given identifiers.
    pub fn subscribe(&mut self, ids: &Vec<u128>)
        ensures
            final(self).ids@ == old(self).ids@ + ids@.to_set(),
            final(self).all == old(self).all,
    {
        let ghost start = self.ids@;
        let mut i: usize = 0;
        while i < ids.len()
            invariant
                i <= ids@.len(),
                self.ids@ == start + ids@.take(i as int).to_set(),
                self.all == old(self).all,
                start == old(self).ids@,
            decreases ids@.len() - i,
        {
            self.ids.insert(ids[i]);
            proof {
                assert(ids@.take(i + 1) =~= ids@.take(i as int).push(ids@[i as int]));
                lemma_push_to_set(ids@.take(i as int), ids@[i as int]);
                assert(self.ids@ =~= start + ids@.take(i + 1).to_set());
            }
            i = i + 1;
        }
        assert(ids@.take(ids@.len() as int) =~= ids@);
    }

    /// Removes the given identifiers.
    pub fn unsubscribe(&mut self, ids: &Vec<u128>)
        ensures
            final(self).ids@ == old(self).ids@ - ids@.to_set(),
            final(self).all == old(self).all,
    {
        let ghost start = self.ids@;
        let mut i: usize = 0;
        while i < ids.len()
            invariant
                i <= ids@.len(),
                self.ids@ == start - ids@.take(i as int).to_set(),
                self.all == old(self).all,
                start == old(self).ids@,
            decreases ids@.len() - i,
        {
            self.ids.remove(&ids[i]);
            proof {
                assert(ids@.take(i + 1) =~= ids@.take(i as int).push(ids@[i as int]));
                lemma_push_to_set(ids@.take(i as int), ids@[i as int]);
                assert(self.ids@ =~= start - ids@.take(i + 1).to_set());
            }
            i = i + 1;
        }
        assert(ids@.take(ids@.len() as int) =~= ids@);
    }

    /// Turns the subscription to everything on or off.
    pub fn set_all(&mut self, toggle: bool)
        ensures
            final(self).all == toggle,
            final(self).ids@ == old(self).ids@,
    {
        self.all = toggle;
    }

    /// The subscribed identifiers, each once, in the set's own order.
    pub fn listed_ids(&self) -> (v: Vec<u128>)
        ensures
            v@.to_set() == self.ids@,
            v@.no_duplicates(),
    {
        let mut out: Vec<u128> = Vec::new();
        let keys = self.ids.iter();
        let ghost listed = vstd::std_specs::iter::IteratorSpec::remaining(&keys);
        for id in it: keys
            invariant
                it.seq() == listed,
                out@.len() == it.index(),
                forall|k: int| 0 <= k < it.index() ==> out@[k] == *listed[k],
        {
            out.push(*id);
        }
        assert(out@ =~= listed.unref());
        out
    }

    /// Whether an item with `id` is among the subscribed ones (ignoring `all`).
    pub fn contains(&self, id: u128) -> (r: bool)
        ensures
            r == self.ids@.contains(id),
    {
        self.ids.contains(&id)
    }
}

/// The identifiers an optional list names, as a set (none for no list).
pub open spec fn requested_ids(ids: Option<Vec<u128>>) -> Set<u128> {
    match ids {
        Some(v) => v@.to_set(),
        None => Set::empty(),
    }
}

/// Applies a client's subscription request in the order the servers apply
/// it: first the switch for everything (when given), then the identifiers to
/// add, then those to remove. Returns what the reply is loaded for: `None`
/// when the subscription now covers everything, otherwise its identifiers,
/// each once.
pub fn apply_sub_request(
    sub: &mut Subscription,
    all: Option<bool>,
    sub_ids: &Option<Vec<u128>>,
    unsub_ids: &Option<Vec<u128>>,
) -> (filter: Option<Vec<u128>>)
    ensures
        final(sub).all == (match all {
            Some(t) => t,
            None => old(sub).all,
        }),
        final(sub).ids@ == old(sub).ids@ + requested_ids(*sub_ids) - requested_ids(*unsub_ids),
        filter is None <==> final(sub).all,
        filter matches Some(v) ==> v@.to_set() == final(sub).ids@ && v@.no_duplicates(),
{
    if let Some(toggle) = all {
        sub.set_all(toggle);
    }
    match sub_ids {
        Some(ids) => sub.subscribe(ids),
        None => {
            assert(old(sub).ids@ + requested_ids(*sub_ids) =~= old(sub).ids@);
        },
    }
    match unsub_ids {
        Some(ids) => sub.unsubscribe(ids),
        None => {
            assert(sub.ids@ - requested_ids(*unsub_ids) =~= sub.ids@);
        },
    }
    if sub.all {
        None
    } else {
        Some(sub.listed_ids())
    }
}

/// An optional lookup table, read as a map.
pub open spec fn id_map_view(id_map: Option<HashMap<u128, u128>>) -> Option<Map<u128, u128>> {
    match id_map {
        Some(m) => Some(m@),
        None => None,
    }
}

/// An item that can be published to subscribed clients.
pub trait Publishable<S>: Sized {
    /// The identifier a subscription of kind `sub_type` selects this item
    /// by, or `None` when that kind of subscription never carries such items
    /// (all of them are then passed on). An item that does not hold that
    /// identifier itself finds it in `id_map`, under an identifier it holds.
    spec fn spec_subscription_key(&self, sub_type: S, id_map: Option<Map<u128, u128>>) -> Option<u128>;

    /// Whether the key can be found: `id_map` has what the item needs.
    spec fn spec_key_known(&self, sub_type: S, id_map: Option<Map<u128, u128>>) -> bool;

    /// The name the item travels under.
    fn message_type() -> &'static str;

    /// See `spec_subscription_key`.
    fn subscription_key(&self, sub_type: &S, id_map: &Option<HashMap<u128, u128>>) -> (r: Option<u128>)
        requires
            self.spec_key_known(*sub_type, id_map_view(*id_map)),
        ensures
            r == self.spec_subscription_key(*sub_type, id_map_view(*id_map));
}

/// Whether every item's key can be found.
pub open spec fn keys_known<S, T: Publishable<S>>(items: Seq<T>, sub_type: S, id_map: Option<Map<u128, u128>>) -> bool {
    forall|i: int| 0 <= i < items.len() ==> #[trigger] items[i].spec_key_known(sub_type, id_map)
}

/// Whether an item passes a subscription's identifiers.
pub open spec fn passes<S, T: Publishable<S>>(item: T, sub: Subscription, sub_type: S, id_map: Option<Map<u128, u128>>) -> bool {
    match item.spec_subscription_key(sub_type, id_map) {
        Some(k) => sub.ids@.contains(k),
        None => true,
    }
}

/// The items, in order, that a subscription of kind `sub_type` lets through,
/// looking at its identifiers only.
pub open spec fn partially_subscribed<S, T: Publishable<S>>(
    items: Seq<T>,
    sub: Subscription,
    sub_type: S,
    id_map: Option<Map<u128, u128>>,
) -> Seq<T>
    decreases items.len(),
{
    if items.len() == 0 {
        Seq::empty()
    } else {
        let rest = partially_subscribed(items.drop_last(), sub, sub_type, id_map);
        if passes(items.last(), sub, sub_type, id_map) {
            rest.push(items.last())
        } else {
            rest
        }
    }
}

/// The items, in order, that a subscription lets through: all of them for a
/// subscription to everything, otherwise those its identifiers select.
pub open spec fn subscribed<S, T: Publishable<S>>(
    items: Seq<T>,
    sub: Subscription,
    sub_type: S,
    id_map: Option<Map<u128, u128>>,
) -> Seq<T> {
    if sub.all {
        items
    } else {
        partially_subscribed(items, sub, sub_type, id_map)
    }
}

/// The references in `refs`, read as the items they point to.
pub open spec fn deref_all<T>(refs: Seq<&T>) -> Seq<T> {
    refs.map_values(|r: &T| *r)
}

/// The items that a subscription's identifiers let through, in order.
pub fn partial_subscribed_publishables<'b, S, T: Publishable<S>>(
    publishables: &'b Vec<T>,
    sub: &Subscription,
    sub_type: &S,
    id_map: &Option<HashMap<u128, u128>>,
) -> (r: Vec<&'b T>)
    requires
        keys_known(publishables@, *sub_type, id_map_view(*id_map)),
    ensures
        deref_all(r@) == partially_subscribed(publishables@, *sub, *sub_type, id_map_view(*id_map)),
{
    let ghost m = id_map_view(*id_map);
    let mut out: Vec<&'b T> = Vec::new();
    let mut i: usize = 0;
    assert(deref_all(out@) =~= partially_subscribed(publishables@.take(0), *sub, *sub_type, m));
    while i < publishables.len()
        invariant
            i <= publishables@.len(),
            m == id_map_view(*id_map),
            keys_known(publishables@, *sub_type, m),
            deref_all(out@) == partially_subscribed(publishables@.take(i as int), *sub, *sub_type, m),
        decreases publishables@.len() - i,
    {
        let item = &publishables[i];
        assert(publishables@[i as int].spec_key_known(*sub_type, m));
        let keep = match item.subscription_key(sub_type, id_map) {
            Some(k) => sub.contains(k),
            None => true,
        };
        let ghost before = out@;
        assert(publishables@.take(i + 1).drop_last() =~= publishables@.take(i as int));
        if keep {
            out.push(item);
            assert(deref_all(out@) =~= deref_all(before).push(*item));
        }
        i = i + 1;
    }
    assert(publishables@.take(publishables@.len() as int) =~= publishables@);
    out
}

/// The items a client receives when `publishables` are published: all of
/// them for a subscription to everything, otherwise those its identifiers select.
pub fn subscribed_publishables<'b, S, T: Publishable<S>>(
    publishables: &'b Vec<T>,
    sub: &Subscription,
    sub_type: &S,
    id_map: &Option<HashMap<u128, u128>>,
) -> (r: Vec<&'b T>)
    requires
        sub.all || keys_known(publishables@, *sub_type, id_map_view(*id_map)),
    ensures
        deref_all(r@) == subscribed(publishables@, *sub, *sub_type, id_map_view(*id_map)),
{
    if sub.all {
        this_should_never_happen(publishables)
    } else {
        partial_subscribed_publishables(publishables, sub, sub_type, id_map)
    }
}

/// The update one client is sent when `publishables` are published: a push
/// message under the items' name, carrying the items its subscription lets
/// through.
pub fn push_for<'b, S, T: Publishable<S>>(
    publishables: &'b Vec<T>,
    sub: &Subscription,
    sub_type: &S,
    id_map: &Option<HashMap<u128, u128>>,
) -> (m: WSMsgOut<'static, Vec<&'b T>>)
    requires
        sub.all || keys_known(publishables@, *sub_type, id_map_view(*id_map)),
    ensures
        m.mode@ == "push"@,
        deref_all(m.data@) == subscribed(publishables@, *sub, *sub_type, id_map_view(*id_map)),
{
    let data = subscribed_publishables(publishables, sub, sub_type, id_map);
    WSMsgOut::push(T::message_type(), data)
}

/// Sending the same subscription request twice leaves the identifiers as
/// sending it once does.
pub proof fn lemma_sub_request_idempotent(ids: Set<u128>, sub_ids: Option<Vec<u128>>, unsub_ids: Option<Vec<u128>>)
    ensures
        (ids + requested_ids(sub_ids) - requested_ids(unsub_ids)) + requested_ids(sub_ids) - requested_ids(unsub_ids)
            == ids + requested_ids(sub_ids) - requested_ids(unsub_ids),
{
    assert((ids + requested_ids(sub_ids) - requested_ids(unsub_ids)) + requested_ids(sub_ids) - requested_ids(unsub_ids)
        =~= ids + requested_ids(sub_ids) - requested_ids(unsub_ids));
}

/// A subscription to everything receives every published item, in order.
pub proof fn lemma_all_receives_everything<S, T: Publishable<S>>(
    items: Seq<T>,
    sub: Subscription,
    sub_type: S,
    id_map: Option<Map<u128, u128>>,
)
    requires
        sub.all,
    ensures
        subscribed(items, sub, sub_type, id_map) == items,
{
}

/// The test an item must pass to reach a subscription by its identifiers.
pub open spec fn matching<S, T: Publishable<S>>(sub: Subscription, sub_type: S, id_map: Option<Map<u128, u128>>) -> spec_fn(T) -> bool {
    |x: T| passes(x, sub, sub_type, id_map)
}

/// A subscription receives only published items, in their order, and of
/// them exactly those its identifiers let through: what it receives is the
/// published list with the others left out.
pub proof fn lemma_receives_only_matching<S, T: Publishable<S>>(
    items: Seq<T>,
    sub: Subscription,
    sub_type: S,
    id_map: Option<Map<u128, u128>>,
)
    requires
        !sub.all,
    ensures
        subscribed(items, sub, sub_type, id_map) == items.filter(matching(sub, sub_type, id_map)),
    decreases items.len(),
{
    reveal(Seq::filter);
    if items.len() == 0 {
        assert(items =~= Seq::<T>::empty());
    } else {
        lemma_receives_only_matching(items.drop_last(), sub, sub_type, id_map);
        assert(matching(sub, sub_type, id_map)(items.last()) == passes(items.last(), sub, sub_type, id_map));
    }
}

/// Unsubscribing from identifiers right after subscribing to them leaves the
/// subscription as if they had only been removed: subscribing to them again
/// and then unsubscribing changes nothing more.
pub proof fn lemma_subscribe_then_unsubscribe(ids: Set<u128>, added: Seq<u128>)
    ensures
        (ids + added.to_set()) - added.to_set() == ids - added.to_set(),
{
    assert((ids + added.to_set()) - added.to_set() =~= ids - added.to_set());
}

/// Every item, in order: what goes out when a subscription cannot filter.
pub fn this_should_never_happen<'a, T>(out: &'a Vec<T>) -> (r: Vec<&'a T>)
    ensures
        deref_all(r@) == out@,
{
    let mut refs: Vec<&'a T> = Vec::new();
    let mut i: usize = 0;
    while i < out.len()
        invariant
            i <= out@.len(),
            deref_all(refs@) =~= out@.take(i as int),
        decreases out@.len() - i,
    {
        let ghost before = refs@;
        refs.push(&out[i]);
        assert(deref_all(refs@) =~= deref_all(before).push(out@[i as int]));
        assert(out@.take(i + 1) =~= out@.take(i as int).push(out@[i as int]));
        i = i + 1;
    }
    assert(out@.take(out@.len() as int) =~= out@);
    refs
}

/// An outgoing message: a reply (`resp`), a pushed update (`push`) or an
/// error (`error`), with the kind of data it carries.
#[derive(Debug)]
pub struct WSMsgOut<'a, T> {
    pub message_id: u128,
    pub mode: &'a str,
    pub message_type: &'a str,
    pub data: T,
}

impl<'a, T> WSMsgOut<'a, T> {
    /// The reply to request `message_id`.
    pub fn resp(message_id: u128, message_type: &'a str, data: T) -> (m: Self)
        ensures
            m.message_id == message_id,
            m.message_type == message_type,
            m.mode@ == "resp"@,
            m.data == data,
    {
        WSMsgOut { message_id, message_type, mode: "resp", data }
    }

    /// An update pushed to subscribers, under a fresh message identifier.
    pub fn push(message_type: &'a str, data: T) -> (m: Self)
        ensures
            m.message_type == message_type,
            m.mode@ == "push"@,
            m.data == data,
            crate::ids::is_v4(m.message_id),
    {
        WSMsgOut { message_id: new_v4(), message_type, mode: "push", data }
    }

    /// The error answering request `message_id`.
    pub fn error(data: T, message_id: u128) -> (m: Self)
        ensures
            m.message_id == message_id,
            m.message_type@ == "unknown"@,
            m.mode@ == "error"@,
            m.data == data,
    {
        WSMsgOut { message_id, message_type: "unknown", mode: "error", data }
    }
}

/// The text the request pattern `.*?"message_id":"([^"]+)"` finds first in a
/// message: everything from the message's start through the quoted
/// identifier, or nothing when the message names no identifier.
pub uninterp spec fn message_id_match(msg: Seq<char>) -> Option<Seq<char>>;

/// The 128-bit value of the UUID a text spells, if it spells one.
pub uninterp spec fn uuid_of_text(text: Seq<char>) -> Option<u128>;

/// Finds the request pattern in a message with `regex::Regex::find` and
/// hands back the whole matched text (`Match::as_str`). The pattern is a
/// fixed valid one, so building it does not fail. The contract claims only
/// that the result is what the engine finds in this message, named
/// `message_id_match`.
#[verifier::external_body]
fn find_message_id_match(msg: &str) -> (r: Option<String>)
    ensures
        r is None <==> message_id_match(msg@) is None,
        r matches Some(t) ==> message_id_match(msg@) == Some(t@),
{
    regex::Regex::new(r#".*?"message_id":"([^"]+)""#).unwrap().find(msg).map(|m| m.as_str().to_string())
}

/// Reads a UUID from text with `uuid::Uuid::parse_str` and hands back its
/// 128-bit value (`Uuid::as_u128`), or `None` when the parser refuses the
/// text. The contract claims only that the result depends on the text
/// alone, named `uuid_of_text`.
#[verifier::external_body]
fn parse_uuid(text: &str) -> (r: Option<u128>)
    ensures
        r == uuid_of_text(text@),
{
    uuid::Uuid::parse_str(text).ok().map(|u| u.as_u128())
}

/// The identifier an error reply to `msg` goes out under: `fresh` when the
/// message names no identifier; otherwise the UUID of the text the request
/// pattern finds, or `None` when that text is no UUID.
pub open spec fn error_reply_target(msg: Seq<char>, fresh: u128) -> Option<u128> {
    match message_id_match(msg) {
        None => Some(fresh),
        Some(t) => uuid_of_text(t),
    }
}

/// The identifier an error reply to `msg` goes out under (see
/// `error_reply_target`). The text the pattern finds runs from the
/// message's start through the identifier, so for a message that names one
/// it is seldom a UUID, and the answer is then `None`.
pub fn error_reply_id(msg: &str, fresh: u128) -> (r: Option<u128>)
    ensures
        r == error_reply_target(msg@, fresh),
{
    match find_message_id_match(msg) {
        None => Some(fresh),
        Some(t) => parse_uuid(t.as_str()),
    }
}

/// A message a client sent, as the server sorts it: text, with the answer
/// the request handler gave to it (the reply text, or the error's text), a
/// ping, or anything else.
pub enum IncomingMsg {
    Text { text: String, handled: Result<String, String> },
    Ping,
    Other,
}

/// What the server sends back: plain text, or an error message.
pub enum WsReply {
    Text(String),
    Error(WSMsgOut<'static, String>),
}

/// Whether `m` is the error message carrying `data` in answer to `message_id`.
pub open spec fn is_error_reply(m: WSMsgOut<'static, String>, data: Seq<char>, message_id: u128) -> bool {
    &&& m.message_id == message_id
    &&& m.mode@ == "error"@
    &&& m.message_type@ == "unknown"@
    &&& m.data@ == data
}

/// The reply to a client's message: the handler's text for an answered
/// request; for a failed request, an error carrying the failure's text under
/// the identifier `error_reply_id` gives (no reply, `None`, when it gives
/// none); the pong text for a ping; and for anything else an error saying
/// so, under `fresh`.
pub fn reply_for(msg: IncomingMsg, fresh: u128) -> (r: Option<WsReply>)
    ensures
        msg is Ping ==> (r matches Some(WsReply::Text(t)) && t@ == "{'mode': 'pong'}"@),
        msg is Other ==> (r matches Some(WsReply::Error(m)) && is_error_reply(m, "Unexpected message type received"@, fresh)),
        msg matches IncomingMsg::Text { text, handled: Ok(t) } ==> r == Some(WsReply::Text(t)),
        msg matches IncomingMsg::Text { text, handled: Err(e) } ==> match error_reply_target(text@, fresh) {
            Some(id) => (r matches Some(WsReply::Error(m)) && is_error_reply(m, e@, id)),
            None => r is None,
        },
{
    match msg {
        IncomingMsg::Text { text, handled } => match handled {
            Ok(t) => Some(WsReply::Text(t)),
            Err(e) => match error_reply_id(text.as_str(), fresh) {
                Some(id) => Some(WsReply::Error(WSMsgOut::error(e, id))),
                None => None,
            },
        },
        IncomingMsg::Ping => Some(WsReply::Text(String::from_str("{'mode': 'pong'}"))),
        IncomingMsg::Other => Some(WsReply::Error(WSMsgOut::error(String::from_str("Unexpected message type received"), fresh))),
    }
}

} // verus!
