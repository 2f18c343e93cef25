use std::collections::HashMap;

use rand::rngs::ThreadRng;
use vstd::prelude::*;

verus! {

broadcast use vstd::std_specs::hash::group_hash_axioms;

#[verifier::external_type_specification]
#[verifier::external_body]
pub struct ExThreadRng(rand::rngs::ThreadRng);

/// Relies on `rand::thread_rng`: a handle to the calling thread's generator.
#[verifier::external_body]
fn new_rng() -> (r: ThreadRng) {
    rand::thread_rng()
}

/// Relies on `rand::Rng::gen::<u16>` on a `ThreadRng`: a value drawn from the
/// whole range of `u16`. Nothing is known of which one.
#[verifier::external_body]
fn draw_id(rng: &mut ThreadRng) -> (r: u16) {
    rand::Rng::gen::<u16>(rng)
}

/// A text payload handed to a session's outbound handle.
pub struct Message(pub String);

/// A session asks for an id; `addr` is its outbound delivery handle.
pub struct Connect<H> {
    pub addr: H,
}

/// A session is going away.
pub struct Disconnect {
    pub id: u16,
}

/// Deliver `data` to the session registered under `id`, if there is one.
pub struct Prompt {
    pub id: u16,
    pub data: String,
}

/// One operation of the registry, as seen by the model: an attach that was
/// assigned `id`, a detach, or a prompt.
pub enum Op<H> {
    Attach(u16, H),
    Detach(u16),
    Prompt(u16, String),
}

/// The map after one operation.
pub open spec fn apply<H>(m: Map<u16, H>, op: Op<H>) -> Map<u16, H> {
    match op {
        Op::Attach(id, h) => m.insert(id, h),
        Op::Detach(id) => m.remove(id),
        Op::Prompt(_, _) => m,
    }
}

/// The map after a sequence of operations, in order.
pub open spec fn apply_all<H>(m: Map<u16, H>, ops: Seq<Op<H>>) -> Map<u16, H>
    decreases ops.len(),
{
    if ops.len() == 0 {
        m
    } else {
        apply(apply_all(m, ops.drop_last()), ops.last())
    }
}

/// What one operation hands to an outbound handle: a prompt whose id is
/// registered gives its payload to that id's handle; nothing else delivers.
pub open spec fn delivered<H>(m: Map<u16, H>, op: Op<H>) -> Seq<(H, Seq<char>)> {
    match op {
        Op::Prompt(id, data) => if m.contains_key(id) {
            seq![(m[id], data@)]
        } else {
            Seq::empty()
        },
        _ => Seq::empty(),
    }
}

/// Every delivery made by a sequence of operations, in the order made.
pub open spec fn deliveries<H>(m: Map<u16, H>, ops: Seq<Op<H>>) -> Seq<(H, Seq<char>)>
    decreases ops.len(),
{
    if ops.len() == 0 {
        Seq::empty()
    } else {
        deliveries(m, ops.drop_last()) + delivered(apply_all(m, ops.drop_last()), ops.last())
    }
}

/// The ids of `ops` with a completed attach that no later detach undid.
pub open spec fn live_ids<H>(ops: Seq<Op<H>>) -> Set<u16> {
    Set::new(
        |id: u16|
            exists|i: int|
                0 <= i < ops.len() && #[trigger] attaches(ops[i], id) && forall|j: int|
                    i < j < ops.len() ==> !(#[trigger] detaches(ops[j], id)),
    )
}

/// Whether `op` is an attach that was assigned `id`.
pub open spec fn attaches<H>(op: Op<H>, id: u16) -> bool {
    match op {
        Op::Attach(a, _) => a == id,
        _ => false,
    }
}

/// Whether `op` is a prompt addressed to `id`.
pub open spec fn prompts<H>(op: Op<H>, id: u16) -> bool {
    match op {
        Op::Prompt(a, _) => a == id,
        _ => false,
    }
}

/// Whether `op` is a detach of `id`.
pub open spec fn detaches<H>(op: Op<H>, id: u16) -> bool {
    match op {
        Op::Detach(a) => a == id,
        _ => false,
    }
}

/// The payload of a prompt; empty for the other operations.
pub open spec fn payload<H>(op: Op<H>) -> Seq<char> {
    match op {
        Op::Prompt(_, data) => data@,
        _ => Seq::empty(),
    }
}

/// Starting from an empty registry, after any sequence of attach, detach and
/// prompt operations the registered ids are exactly those whose attach
/// completed and was not followed by a detach of the same id.
pub proof fn lemma_registry_integrity<H>(ops: Seq<Op<H>>)
    ensures
        apply_all(Map::<u16, H>::empty(), ops).dom() == live_ids(ops),
    decreases ops.len(),
{
    if ops.len() > 0 {
        let pre = ops.drop_last();
        let last = ops.last();
        lemma_registry_integrity(pre);
        let m = apply_all(Map::<u16, H>::empty(), pre);
        assert forall|x: u16| #[trigger] live_ids(ops).contains(x) <==> apply(m, last).dom().contains(
            x,
        ) by {
            if live_ids(ops).contains(x) {
                let i = choose|i: int|
                    0 <= i < ops.len() && #[trigger] attaches(ops[i], x) && forall|j: int|
                        i < j < ops.len() ==> !(#[trigger] detaches(ops[j], x));
                if i < pre.len() {
                    assert(attaches(pre[i], x));
                    assert forall|j: int| i < j < pre.len() implies !(#[trigger] detaches(
                        pre[j],
                        x,
                    )) by {
                        assert(pre[j] == ops[j]);
                    }
                    assert(live_ids(pre).contains(x));
                    assert(!detaches(ops[ops.len() - 1], x));
                } else {
                    assert(attaches(last, x));
                }
            }
            if apply(m, last).dom().contains(x) {
                if attaches(last, x) {
                    assert(attaches(ops[ops.len() - 1], x));
                } else {
                    assert(m.dom().contains(x));
                    assert(live_ids(pre).contains(x));
                    let i = choose|i: int|
                        0 <= i < pre.len() && #[trigger] attaches(pre[i], x) && forall|j: int|
                            i < j < pre.len() ==> !(#[trigger] detaches(pre[j], x));
                    assert(attaches(ops[i], x));
                    assert(!detaches(last, x));
                    assert forall|j: int| i < j < ops.len() implies !(#[trigger] detaches(
                        ops[j],
                        x,
                    )) by {
                        if j < pre.len() {
                            assert(pre[j] == ops[j]);
                        }
                    }
                }
            }
        }
        assert(live_ids(ops) =~= apply(m, last).dom());
    } else {
        assert(live_ids(ops) =~= Set::<u16>::empty());
    }
}

/// A prompt to an id that is not registered delivers nothing and leaves the
/// registry as it was, so a later attach under that id registers the new
/// handle alone.
pub proof fn lemma_address_miss_is_silent<H>(m: Map<u16, H>, id: u16, data: String, h: H)
    requires
        !m.contains_key(id),
    ensures
        delivered(m, Op::Prompt(id, data)) == Seq::<(H, Seq<char>)>::empty(),
        apply(m, Op::Prompt(id, data)) == m,
        apply(apply(m, Op::Prompt(id, data)), Op::Attach(id, h)) == m.insert(id, h),
        deliveries(m, seq![Op::Prompt(id, data), Op::Attach(id, h)]) == Seq::<
            (H, Seq<char>),
        >::empty(),
{
    let ops = seq![Op::Prompt(id, data), Op::Attach(id, h)];
    assert(ops.drop_last() == seq![Op::<H>::Prompt(id, data)]);
    assert(ops.drop_last().drop_last() == Seq::<Op<H>>::empty());
    let e = Seq::<Op<H>>::empty();
    assert(apply_all(m, e) == m);
    assert(deliveries(m, e) == Seq::<(H, Seq<char>)>::empty());
    assert(delivered(m, Op::Prompt(id, data)) =~= Seq::<(H, Seq<char>)>::empty());
    assert(deliveries(m, ops.drop_last()) =~= Seq::<(H, Seq<char>)>::empty());
    assert(apply_all(m, ops.drop_last()) == m);
    assert(deliveries(m, ops) =~= Seq::<(H, Seq<char>)>::empty());
}

/// Prompts submitted in order to a registered id are delivered to that id's
/// handle, each once, in the order submitted, and leave the registry as it was.
pub proof fn lemma_prompts_in_order<H>(m: Map<u16, H>, id: u16, ops: Seq<Op<H>>)
    requires
        m.contains_key(id),
        forall|i: int| 0 <= i < ops.len() ==> prompts(#[trigger] ops[i], id),
    ensures
        apply_all(m, ops) == m,
        deliveries(m, ops) == Seq::new(ops.len(), |i: int| (m[id], payload(ops[i]))),
    decreases ops.len(),
{
    if ops.len() > 0 {
        let pre = ops.drop_last();
        assert forall|i: int| 0 <= i < pre.len() implies prompts(#[trigger] pre[i], id) by {
            assert(pre[i] == ops[i]);
        }
        lemma_prompts_in_order(m, id, pre);
        assert(prompts(ops[ops.len() - 1], id));
        assert(deliveries(m, ops) =~= Seq::new(ops.len(), |i: int| (m[id], payload(ops[i]))));
    } else {
        assert(deliveries(m, ops) =~= Seq::new(ops.len(), |i: int| (m[id], payload(ops[i]))));
    }
}

/// An attach under an id that is already registered replaces the previous
/// occupant: the map is the old one with that entry removed, then the new
/// handle inserted.
pub proof fn lemma_overwrite_evicts<H>(m: Map<u16, H>, id: u16, h: H)
    requires
        m.contains_key(id),
    ensures
        apply(m, Op::Attach(id, h)) == m.remove(id).insert(id, h),
        apply(m, Op::Attach(id, h))[id] == h,
        apply(m, Op::Attach(id, h)).dom() == m.dom(),
{
    assert(m.insert(id, h) =~= m.remove(id).insert(id, h));
    assert(m.insert(id, h).dom() =~= m.dom());
}

/// The registry: the directory from session id to outbound delivery handle,
/// and the random source that ids are drawn from.
pub struct WsServer<H> {
    sessions: HashMap<u16, H>,
    rng: ThreadRng,
}

impl<H> View for WsServer<H> {
    type V = Map<u16, H>;

    closed spec fn view(&self) -> Map<u16, H> {
        self.sessions@
    }
}

impl<H> WsServer<H> {
    /// An empty registry.
    pub fn new() -> (r: WsServer<H>)
        ensures
            r@ == Map::<u16, H>::empty(),
    {
        let sessions: HashMap<u16, H> = HashMap::new();
        WsServer { sessions, rng: new_rng() }
    }

    /// Whether a session is registered under `id`.
    pub fn contains(&self, id: u16) -> (r: bool)
        ensures
            r == self@.contains_key(id),
    {
        self.sessions.contains_key(&id)
    }

    /// Registers `addr` under `id`; a previous occupant of `id` is evicted.
    pub fn insert_session(&mut self, id: u16, addr: H)
        ensures
            final(self)@ == apply(old(self)@, Op::Attach(id, addr)),
    {
        let _ = self.sessions.insert(id, addr);
    }

    /// Attach: draws a random id, registers the handle under it and returns it.
    pub fn connect(&mut self, msg: Connect<H>) -> (id: u16)
        ensures
            final(self)@ == apply(old(self)@, Op::Attach(id, msg.addr)),
    {
        let id = draw_id(&mut self.rng);
        self.insert_session(id, msg.addr);
        id
    }

    /// Detach: removes the entry for the id, if there is one.
    pub fn disconnect(&mut self, msg: Disconnect)
        ensures
            final(self)@ == apply(old(self)@, Op::<H>::Detach(msg.id)),
    {
        let _ = self.sessions.remove(&msg.id);
    }

    /// Looks up `id`: where a session is registered, the handle to deliver
    /// `msg` on, with the message; otherwise nothing.
    pub fn send_message(&self, id: u16, msg: String) -> (r: Option<(&H, Message)>)
        ensures
            match r {
                Some((h, m)) => self@.contains_key(id) && *h == self@[id] && m.0 == msg,
                None => !self@.contains_key(id),
            },
    {
        match self.sessions.get(&id) {
            Some(h) => Some((h, Message(msg))),
            None => None,
        }
    }

    /// Prompt: what `send_message` gives for the prompt's id and payload.
    /// The registry itself is left as it was.
    pub fn prompt(&self, msg: Prompt) -> (r: Option<(&H, Message)>)
        ensures
            match r {
                Some((h, m)) => delivered(self@, Op::Prompt(msg.id, msg.data)) == seq![
                    (*h, m.0@),
                ],
                None => delivered(self@, Op::Prompt(msg.id, msg.data)) == Seq::<
                    (H, Seq<char>),
                >::empty(),
            },
            apply(self@, Op::Prompt(msg.id, msg.data)) == self@,
    {
        let id = msg.id;
        self.send_message(id, msg.data)
    }
}

} // verus!
