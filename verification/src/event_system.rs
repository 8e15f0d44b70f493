//! Events and the listeners registered for them.
//!
//! The state is a map from event types to the listeners registered under
//! them, each listener found by its handler id. Registering adds one
//! listener under one type, unregistering removes a handler id under every
//! type, broadcasting calls the listeners of one type and changes no
//! registration.
use crate::ids::HandlerId;
use crate::table::{
    entries_map, find_key, has_key, key_pos, lemma_key_pos, lemma_push_fresh, lemma_update_value,
    unique_keys, Table, TableKey,
};
use serde_json::Value;
use vstd::prelude::*;

verus! {

/// Event types uniquely identify the kind of an event.
#[derive(Debug, Hash, PartialEq, Eq)]
pub struct EventType(String);

impl View for EventType {
    type V = Seq<char>;

    closed spec fn view(&self) -> Seq<char> {
        self.0@
    }
}

impl TableKey for EventType {
    fn same_key(&self, other: &Self) -> (r: bool) {
        self.0 == other.0
    }
}

impl EventType {
    /// The event type named `name`.
    pub fn new(name: String) -> (t: EventType)
        ensures
            t@ == name@,
    {
        EventType(name)
    }

    /// The event type's name.
    pub fn name(&self) -> (r: &String)
        ensures
            r@ == self@,
    {
        &self.0
    }
}

/// An event, represented as unstructured json.
#[derive(Debug)]
pub struct Event {
    data: Value,
}

impl Event {
    /// The event that carries `data`.
    pub fn new(data: Value) -> (e: Event)
        ensures
            e.data() == data,
    {
        Event { data }
    }

    pub closed spec fn data(&self) -> Value {
        self.data
    }

    /// The data the event carries.
    pub fn into_data(self) -> (r: Value)
        ensures
            r == self.data(),
    {
        self.data
    }
}

/// What a listener does when an event of its type is broadcast.
///
/// A listener type may say by `called_with` which states a listener can be
/// in after one call with an event; `call` ends in such a state. Where the
/// type says nothing, every state is allowed and nothing is claimed of its
/// calls.
pub trait EventCallback: Sized {
    /// `after` is a state that a listener in state `before` can reach by
    /// handling `event` once.
    open spec fn called_with(before: Self, event: Event, after: Self) -> bool {
        true
    }

    fn call(&mut self, event: &Event)
        ensures
            Self::called_with(*old(self), *event, *final(self)),
    ;
}

/// The listeners registered under `typ` (none where the type is unknown).
pub open spec fn listeners_under<L>(v: Map<Seq<char>, Map<u128, L>>, typ: Seq<char>) -> Map<
    u128,
    L,
> {
    if v.contains_key(typ) {
        v[typ]
    } else {
        Map::empty()
    }
}

/// The registrations after `listener` is registered as `id` under `typ`.
pub open spec fn with_listener<L>(
    v: Map<Seq<char>, Map<u128, L>>,
    typ: Seq<char>,
    id: u128,
    listener: L,
) -> Map<Seq<char>, Map<u128, L>> {
    v.insert(typ, listeners_under(v, typ).insert(id, listener))
}

/// The registrations after handler `id` is removed under every type.
pub open spec fn without_handler<L>(v: Map<Seq<char>, Map<u128, L>>, id: u128) -> Map<
    Seq<char>,
    Map<u128, L>,
> {
    v.map_values(|m: Map<u128, L>| m.remove(id))
}

/// Registering a listener under one type leaves the listeners of every
/// other type as they were, and the listener is then found under its id.
pub proof fn lemma_register_reads_back<L>(
    v: Map<Seq<char>, Map<u128, L>>,
    typ: Seq<char>,
    id: u128,
    listener: L,
    other: Seq<char>,
)
    ensures
        listeners_under(with_listener(v, typ, id, listener), typ).contains_key(id),
        listeners_under(with_listener(v, typ, id, listener), typ)[id] == listener,
        other != typ ==> listeners_under(with_listener(v, typ, id, listener), other)
            == listeners_under(v, other),
{
}

/// After a handler is unregistered, no event type lists it, and every other
/// handler stays where it was.
pub proof fn lemma_unregister_removes_everywhere<L>(
    v: Map<Seq<char>, Map<u128, L>>,
    id: u128,
    typ: Seq<char>,
)
    ensures
        !listeners_under(without_handler(v, id), typ).contains_key(id),
        listeners_under(without_handler(v, id), typ) == listeners_under(v, typ).remove(id),
{
    assert(listeners_under(without_handler(v, id), typ) =~= listeners_under(v, typ).remove(id));
}

/// Unregistering a handler twice is the same as unregistering it once.
pub proof fn lemma_unregister_idempotent<L>(v: Map<Seq<char>, Map<u128, L>>, id: u128)
    ensures
        without_handler(without_handler(v, id), id) == without_handler(v, id),
{
    assert forall|t: Seq<char>| #[trigger] without_handler(v, id).contains_key(t) implies without_handler(
        without_handler(v, id),
        id,
    )[t] == without_handler(v, id)[t] by {
        assert(v[t].remove(id).remove(id) =~= v[t].remove(id));
    }
    assert(without_handler(without_handler(v, id), id) =~= without_handler(v, id));
}

/// Unregistering a handler that was just registered under an id that no
/// type listed before leaves every type with the listeners it had.
pub proof fn lemma_unregister_undoes_register<L>(
    v: Map<Seq<char>, Map<u128, L>>,
    typ: Seq<char>,
    id: u128,
    listener: L,
    t: Seq<char>,
)
    requires
        forall|u: Seq<char>| #[trigger] v.contains_key(u) ==> !v[u].contains_key(id),
    ensures
        listeners_under(without_handler(with_listener(v, typ, id, listener), id), t)
            == listeners_under(v, t),
{
    let w = without_handler(with_listener(v, typ, id, listener), id);
    if t == typ {
        if v.contains_key(typ) {
            assert(w[typ] =~= v[typ]);
        } else {
            assert(w[typ] =~= Map::<u128, L>::empty());
        }
    } else if v.contains_key(t) {
        assert(w[t] =~= v[t]);
    }
}

/// The registrations `after` a broadcast of `event` to `typ` from `before`:
/// the same types with the same handler ids; every listener of `typ` in a
/// state that it reaches by handling `event` once; every other listener as
/// it was.
pub open spec fn broadcast_outcome<L: EventCallback>(
    before: Map<Seq<char>, Map<u128, L>>,
    typ: Seq<char>,
    event: Event,
    after: Map<Seq<char>, Map<u128, L>>,
) -> bool {
    &&& after.dom() == before.dom()
    &&& forall|t: Seq<char>|
        #![trigger after[t]]
        before.contains_key(t) && t != typ ==> after[t] == before[t]
    &&& forall|t: Seq<char>|
        #![trigger after[t]]
        before.contains_key(t) ==> after[t].dom() == before[t].dom()
    &&& forall|h: u128|
        #![trigger listeners_under(after, typ)[h]]
        listeners_under(before, typ).contains_key(h) ==> L::called_with(
            listeners_under(before, typ)[h],
            event,
            listeners_under(after, typ)[h],
        )
}

/// A broadcast reaches a registered listener exactly when its type is the
/// broadcast's: a listener registered under `a` as `h` is called once with
/// the event when `a` is the broadcast type `b`, and is left as it was
/// otherwise; either way it stays registered under `a` as `h`.
pub proof fn lemma_broadcast_reaches_its_type<L: EventCallback>(
    before: Map<Seq<char>, Map<u128, L>>,
    after: Map<Seq<char>, Map<u128, L>>,
    a: Seq<char>,
    b: Seq<char>,
    h: u128,
    event: Event,
)
    requires
        broadcast_outcome(before, b, event, after),
        listeners_under(before, a).contains_key(h),
    ensures
        listeners_under(after, a).contains_key(h),
        a == b ==> L::called_with(listeners_under(before, a)[h], event, listeners_under(after, a)[h]),
        a != b ==> listeners_under(after, a)[h] == listeners_under(before, a)[h],
{
    assert(before.contains_key(a));
    assert(after[a].dom() == before[a].dom());
    if a == b {
        assert(listeners_under(after, b)[h] == listeners_under(after, b)[h]);
    }
}

/// Registering under a handler id that no event type lists keeps every
/// listener already registered, adds the new one under its type only, and
/// two registrations made one after the other under such ids get different
/// ids.
pub proof fn lemma_fresh_registration_keeps_listeners<L>(
    v: Map<Seq<char>, Map<u128, L>>,
    typ: Seq<char>,
    id: u128,
    listener: L,
    next_id: u128,
)
    requires
        forall|t: Seq<char>| !(#[trigger] listeners_under(v, t)).contains_key(id),
        forall|t: Seq<char>|
            !(#[trigger] listeners_under(with_listener(v, typ, id, listener), t)).contains_key(
                next_id,
            ),
    ensures
        id != next_id,
        forall|t: Seq<char>, h: u128|
            #[trigger] listeners_under(v, t).contains_key(h) ==> listeners_under(
                with_listener(v, typ, id, listener),
                t,
            ).contains_key(h) && listeners_under(with_listener(v, typ, id, listener), t)[h]
                == listeners_under(v, t)[h],
        listeners_under(with_listener(v, typ, id, listener), typ)[id] == listener,
        forall|t: Seq<char>|
            t != typ ==> !(#[trigger] listeners_under(with_listener(v, typ, id, listener), t)).contains_key(id),
{
    assert(listeners_under(with_listener(v, typ, id, listener), typ).contains_key(id));
    assert forall|t: Seq<char>, h: u128| #[trigger] listeners_under(v, t).contains_key(h) implies listeners_under(
        with_listener(v, typ, id, listener),
        t,
    ).contains_key(h) && listeners_under(with_listener(v, typ, id, listener), t)[h]
        == listeners_under(v, t)[h] by {
        if t == typ {
            assert(h != id);
        }
    }
    assert forall|t: Seq<char>|
        t != typ implies !(#[trigger] listeners_under(with_listener(v, typ, id, listener), t)).contains_key(id) by {
        assert(listeners_under(with_listener(v, typ, id, listener), t) == listeners_under(v, t));
        assert(!listeners_under(v, t).contains_key(id));
    }
}

/// Every event type with the listeners registered under it.
#[verifier::reject_recursive_types(L)]
pub struct EventSystem<L> {
    event_listeners: Vec<(EventType, Table<u128, L>)>,
}

impl<L> View for EventSystem<L> {
    type V = Map<Seq<char>, Map<u128, L>>;

    closed spec fn view(&self) -> Map<Seq<char>, Map<u128, L>> {
        entries_map(self.event_listeners@).map_values(|t: Table<u128, L>| t@)
    }
}

/// Two entry lists with the same keys at the same positions.
proof fn lemma_same_keys<V, W>(s: Seq<(EventType, V)>, t: Seq<(EventType, W)>)
    requires
        unique_keys(s),
        s.len() == t.len(),
        forall|i: int| 0 <= i < s.len() ==> #[trigger] s[i].0@ == t[i].0@,
    ensures
        unique_keys(t),
        forall|k: Seq<char>| #[trigger] has_key(t, k) == has_key(s, k),
        forall|k: Seq<char>| has_key(s, k) ==> #[trigger] key_pos(t, k) == key_pos(s, k),
{
    assert forall|a: int, b: int|
        #![trigger t[a], t[b]]
        0 <= a < t.len() && 0 <= b < t.len() && t[a].0@ == t[b].0@ implies a == b by {
        assert(s[a].0@ == t[a].0@ && s[b].0@ == t[b].0@);
    }
    assert forall|k: Seq<char>| #[trigger] has_key(t, k) == has_key(s, k) by {
        if has_key(t, k) {
            let p = key_pos(t, k);
            assert(s[p].0@ == t[p].0@);
        }
        if has_key(s, k) {
            let p = key_pos(s, k);
            assert(s[p].0@ == t[p].0@);
        }
    }
    assert forall|k: Seq<char>| has_key(s, k) implies #[trigger] key_pos(t, k) == key_pos(s, k) by {
        let p = key_pos(s, k);
        assert(s[p].0@ == t[p].0@);
        lemma_key_pos(t, p);
    }
}

impl<L> EventSystem<L> {
    /// No event type occurs twice, and every listener table is well formed.
    pub closed spec fn wf(&self) -> bool {
        &&& unique_keys(self.event_listeners@)
        &&& forall|i: int|
            0 <= i < self.event_listeners@.len() ==> (#[trigger] self.event_listeners@[i]).1.wf()
    }

    /// An event system without event types.
    pub fn new() -> (s: Self)
        ensures
            s.wf(),
            s@ == Map::<Seq<char>, Map<u128, L>>::empty(),
    {
        let s = EventSystem { event_listeners: Vec::new() };
        assert(s@ =~= Map::<Seq<char>, Map<u128, L>>::empty());
        s
    }

    /// Registers `listener` under `typ` as handler `handler_id`; a listener
    /// registered under `typ` with that id before is replaced.
    pub fn register_event_listener_as(
        &mut self,
        typ: EventType,
        handler_id: HandlerId,
        listener: L,
    )
        requires
            old(self).wf(),
        ensures
            final(self).wf(),
            final(self)@ == with_listener(old(self)@, typ@, handler_id.0, listener),
    {
        let ghost s = self.event_listeners@;
        let ghost key = typ@;
        match find_key(&self.event_listeners, &typ) {
            Some(i) => {
                proof {
                    lemma_key_pos(s, i as int);
                }
                self.event_listeners[i].1.insert(handler_id.0, listener);
                let ghost t = self.event_listeners@[i as int].1;
                proof {
                    assert(self.event_listeners@ =~= s.update(i as int, (s[i as int].0, t)));
                    lemma_update_value(s, i as int, t);
                    assert(forall|j: int|
                        0 <= j < s.len() && j != i ==> #[trigger] self.event_listeners@[j] == s[j]);
                    assert(self@ =~= with_listener(old(self)@, key, handler_id.0, listener));
                }
            },
            None => {
                let mut t: Table<u128, L> = Table::new();
                t.insert(handler_id.0, listener);
                proof {
                    lemma_push_fresh(s, typ, t);
                }
                self.event_listeners.push((typ, t));
                proof {
                    assert(self.event_listeners@ =~= s.push((typ, t)));
                    assert(forall|j: int|
                        0 <= j < s.len() ==> #[trigger] self.event_listeners@[j] == s[j]);
                    assert(self@ =~= with_listener(old(self)@, key, handler_id.0, listener));
                }
            },
        }
    }

    /// The handler ids registered under any event type.
    pub fn handler_ids(&self) -> (r: Vec<u128>)
        requires
            self.wf(),
        ensures
            forall|h: u128|
                r@.contains(h) <==> exists|t: Seq<char>| #[trigger]
                    listeners_under(self@, t).contains_key(h),
    {
        let ghost s = self.event_listeners@;
        let mut r: Vec<u128> = Vec::new();
        let mut i: usize = 0;
        while i < self.event_listeners.len()
            invariant
                s == self.event_listeners@,
                self.wf(),
                i <= s.len(),
                forall|h: u128|
                    r@.contains(h) <==> exists|j: int| 0 <= j < i && (#[trigger] s[j]).1@.contains_key(h),
            decreases s.len() - i,
        {
            let keys = self.event_listeners[i].1.keys();
            let ghost before = r@;
            let mut k: usize = 0;
            while k < keys.len()
                invariant
                    k <= keys@.len(),
                    r@ == before + keys@.subrange(0, k as int),
                decreases keys@.len() - k,
            {
                r.push(keys[k]);
                k = k + 1;
                assert(r@ =~= before + keys@.subrange(0, k as int));
            }
            assert(keys@.subrange(0, keys@.len() as int) =~= keys@);
            proof {
                assert forall|h: u128|
                    r@.contains(h) <==> exists|j: int| 0 <= j < i + 1 && (#[trigger] s[j]).1@.contains_key(h) by {
                    if r@.contains(h) {
                        let p = choose|p: int| 0 <= p < r@.len() && r@[p] == h;
                        if p < before.len() {
                            assert(before.contains(h));
                        } else {
                            assert(keys@[p - before.len()] == h);
                            assert(keys@.contains(h));
                        }
                    }
                    if exists|j: int| 0 <= j < i + 1 && (#[trigger] s[j]).1@.contains_key(h) {
                        let j = choose|j: int| 0 <= j < i + 1 && (#[trigger] s[j]).1@.contains_key(h);
                        if j < i {
                            assert(before.contains(h));
                            let p = choose|p: int| 0 <= p < before.len() && before[p] == h;
                            assert(r@[p] == h);
                        } else {
                            assert(keys@.contains(h));
                            let p = choose|p: int| 0 <= p < keys@.len() && keys@[p] == h;
                            assert(r@[before.len() + p] == h);
                        }
                    }
                }
            }
            i = i + 1;
        }
        proof {
            assert forall|h: u128|
                r@.contains(h) <==> exists|t: Seq<char>| #[trigger] listeners_under(self@, t).contains_key(h) by {
                if r@.contains(h) {
                    let j = choose|j: int| 0 <= j < s.len() && (#[trigger] s[j]).1@.contains_key(h);
                    lemma_key_pos(s, j);
                    assert(listeners_under(self@, s[j].0@).contains_key(h));
                }
                if exists|t: Seq<char>| #[trigger] listeners_under(self@, t).contains_key(h) {
                    let t = choose|t: Seq<char>| #[trigger] listeners_under(self@, t).contains_key(h);
                    assert(self@.contains_key(t));
                    let j = key_pos(s, t);
                    lemma_key_pos(s, j);
                    assert(s[j].1@.contains_key(h));
                }
            }
        }
        r
    }

    /// Registers `listener` under `typ` with a new handler id, drawn at
    /// random, that no event type lists yet; returns that id.
    pub fn register_event_listener(&mut self, typ: EventType, listener: L) -> (r: HandlerId)
        requires
            old(self).wf(),
        ensures
            final(self).wf(),
            r.0 & crate::ids::v4_mask() == crate::ids::v4_bits(),
            forall|t: Seq<char>| !(#[trigger] listeners_under(old(self)@, t)).contains_key(r.0),
            final(self)@ == with_listener(old(self)@, typ@, r.0, listener),
    {
        let used = self.handler_ids();
        let handler_id = HandlerId(crate::ids::fresh_id(&used));
        self.register_event_listener_as(typ, handler_id, listener);
        handler_id
    }

    /// Removes handler `handler_id` under every event type.
    pub fn unregister_event_listener(&mut self, handler_id: &HandlerId)
        requires
            old(self).wf(),
        ensures
            final(self).wf(),
            final(self)@ == without_handler(old(self)@, handler_id.0),
    {
        let ghost s = self.event_listeners@;
        let n = self.event_listeners.len();
        let mut i: usize = 0;
        while i < n
            invariant
                n == s.len(),
                unique_keys(s),
                forall|j: int| 0 <= j < s.len() ==> (#[trigger] s[j]).1.wf(),
                i <= n,
                self.event_listeners@.len() == n,
                forall|j: int|
                    0 <= j < n ==> #[trigger] self.event_listeners@[j].0 == s[j].0,
                forall|j: int| 0 <= j < n ==> (#[trigger] self.event_listeners@[j]).1.wf(),
                forall|j: int|
                    0 <= j < i ==> (#[trigger] self.event_listeners@[j]).1@ == s[j].1@.remove(
                        handler_id.0,
                    ),
                forall|j: int| i <= j < n ==> #[trigger] self.event_listeners@[j] == s[j],
            decreases n - i,
        {
            self.event_listeners[i].1.remove(&handler_id.0);
            i = i + 1;
        }
        proof {
            let t = self.event_listeners@;
            lemma_same_keys(s, t);
            assert forall|k: Seq<char>| has_key(s, k) implies #[trigger] entries_map(t)[k]@
                == entries_map(s)[k]@.remove(handler_id.0) by {
                let p = key_pos(s, k);
                lemma_key_pos(s, p);
                lemma_key_pos(t, p);
            }
            assert(self@ =~= without_handler(old(self)@, handler_id.0));
        }
    }

    /// Calls every listener registered under `typ` with `event`, each once;
    /// no registration changes.
    pub fn broadcast_event(&mut self, typ: &EventType, event: &Event) where L: EventCallback
        requires
            old(self).wf(),
        ensures
            final(self).wf(),
            broadcast_outcome(old(self)@, typ@, *event, final(self)@),
    {
        let ghost s = self.event_listeners@;
        match find_key(&self.event_listeners, typ) {
            Some(i) => {
                proof {
                    lemma_key_pos(s, i as int);
                }
                self.event_listeners[i].1.call_each(event);
                proof {
                    let t = self.event_listeners@;
                    assert(forall|j: int|
                        0 <= j < s.len() && j != i ==> #[trigger] t[j] == s[j]);
                    lemma_same_keys(s, t);
                    assert forall|k: Seq<char>| has_key(s, k) implies #[trigger] entries_map(
                        t,
                    )[k]@.dom() == entries_map(s)[k]@.dom() && (k != typ@ ==> entries_map(t)[k]@
                        == entries_map(s)[k]@) by {
                        let p = key_pos(s, k);
                        lemma_key_pos(s, p);
                        lemma_key_pos(t, p);
                    }
                    assert(self@.dom() =~= old(self)@.dom());
                    lemma_key_pos(t, i as int);
                    assert(self@[typ@] == t[i as int].1@);
                    assert(old(self)@[typ@] == s[i as int].1@);
                }
            },
            None => {},
        }
    }

    /// The handler ids registered under `typ`, each once.
    pub fn listeners_of(&self, typ: &EventType) -> (r: Vec<HandlerId>)
        requires
            self.wf(),
        ensures
            r@.no_duplicates(),
            forall|h: HandlerId| r@.contains(h) <==> listeners_under(self@, typ@).contains_key(h.0),
    {
        let ghost s = self.event_listeners@;
        match find_key(&self.event_listeners, typ) {
            Some(i) => {
                proof {
                    lemma_key_pos(s, i as int);
                }
                let keys = self.event_listeners[i].1.keys();
                let mut r: Vec<HandlerId> = Vec::new();
                let mut j: usize = 0;
                while j < keys.len()
                    invariant
                        j <= keys@.len(),
                        r@.len() == j,
                        forall|a: int| 0 <= a < j ==> #[trigger] r@[a] == HandlerId(keys@[a]),
                    decreases keys@.len() - j,
                {
                    r.push(HandlerId(keys[j]));
                    j = j + 1;
                }
                proof {
                    assert forall|a: int, b: int|
                        0 <= a < r@.len() && 0 <= b < r@.len() && a != b implies r@[a] != r@[b] by {
                        assert(keys@[a] != keys@[b]);
                    }
                    assert forall|h: HandlerId| r@.contains(h) <==> keys@.contains(h.0) by {
                        if r@.contains(h) {
                            let a = choose|a: int| 0 <= a < r@.len() && r@[a] == h;
                            assert(keys@[a] == h.0);
                        }
                        if keys@.contains(h.0) {
                            let a = choose|a: int| 0 <= a < keys@.len() && keys@[a] == h.0;
                            assert(r@[a] == h);
                        }
                    }
                }
                r
            },
            None => {
                let r: Vec<HandlerId> = Vec::new();
                assert(!self@.contains_key(typ@));
                r
            },
        }
    }
}

} // verus!
