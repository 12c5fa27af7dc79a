//! Node state and the protocol dispatcher.
//!
//! `Node::handle_request` is the state machine of the protocol: given one
//! inbound envelope it mutates the node state as required and returns every
//! outbound envelope that must be written, split into at most one direct
//! reply and a batch of flood requests for the neighbours.

use vstd::prelude::*;

use crate::models::ProtocolError;
use crate::models::ReplyMessageBody;
use crate::models::Request;
use crate::models::RequestMessageBody;
use crate::models::Response;

verus! {

/// One participant of the cluster: its identity, its direct neighbours in
/// the flood topology, and the broadcast store.
///
/// The store keeps set semantics inside a vector: `wf` says it never holds
/// a value twice. Exclusive access for the check-then-insert step is given
/// by the `&mut` borrow of the dispatcher, the only code that touches state.
pub struct Node {
    pub id: String,
    pub neighbours: Vec<String>,
    pub messages: Vec<i32>,
}

/// What the dispatcher asks the transport to send: at most one direct
/// reply, plus one flood request per neighbour when a novel value arrived.
#[derive(Debug)]
pub struct DispatchOutcome {
    pub reply: Option<Response>,
    pub floods: Vec<Request>,
}

/// A reply correlated to `req`: source and destination swapped, and both
/// `in_reply_to` and `msg_id` echo the inbound `msg_id`.
pub open spec fn replies_to(r: Response, req: Request) -> bool {
    &&& r.src == req.dest
    &&& r.dest == req.src
    &&& r.body.in_reply_to == req.body.msg_id
    &&& r.body.msg_id == req.body.msg_id
}

/// A flood envelope from `src` to `dest` carrying `v`: a `broadcast`
/// request with no correlation id and no other body field.
pub open spec fn is_flood(f: Request, src: String, dest: String, v: i32) -> bool {
    &&& f.id is None
    &&& f.src == src
    &&& f.dest == dest
    &&& f.body.msg_type@ == "broadcast"@
    &&& f.body.message == Some(v)
    &&& f.body.msg_id is None
    &&& f.body.node_id is None
    &&& f.body.node_ids is None
    &&& f.body.echo is None
    &&& f.body.topology is None
}

/// How one delivered broadcast value changes the store: inserted at the
/// end if novel, ignored if already present.
pub open spec fn store_step(s: Seq<i32>, v: i32) -> Seq<i32> {
    if s.contains(v) {
        s
    } else {
        s.push(v)
    }
}

/// The neighbour list that a topology mapping assigns to `id`: the first
/// entry whose key is `id`, if any.
pub open spec fn topo_lookup(t: Seq<(String, Vec<String>)>, id: Seq<char>) -> Option<
    Vec<String>,
>
    decreases t.len(),
{
    if t.len() == 0 {
        None
    } else if t[0].0@ == id {
        Some(t[0].1)
    } else {
        topo_lookup(t.drop_first(), id)
    }
}

/// Outcome of dispatching an `init` request.
pub open spec fn init_outcome(
    pre: Node,
    post: Node,
    req: Request,
    r: Result<DispatchOutcome, ProtocolError>,
) -> bool {
    match req.body.node_id {
        Some(nid) => {
            &&& r matches Ok(out)
            &&& post.id == nid
            &&& post.neighbours == pre.neighbours
            &&& post.messages == pre.messages
            &&& out.floods@.len() == 0
            &&& out.reply matches Some(resp)
            &&& replies_to(resp, req)
            &&& resp.body.msg_type@ == "init_ok"@
            &&& resp.body.node_id == Some(req.dest)
            &&& resp.body.echo is None
            &&& resp.body.messages is None
        },
        None => r matches Err(e) && e == ProtocolError::MissingNodeId && post == pre,
    }
}

/// Outcome of dispatching an `echo` request.
pub open spec fn echo_outcome(
    pre: Node,
    post: Node,
    req: Request,
    r: Result<DispatchOutcome, ProtocolError>,
) -> bool {
    &&& r matches Ok(out)
    &&& post == pre
    &&& out.floods@.len() == 0
    &&& out.reply matches Some(resp)
    &&& replies_to(resp, req)
    &&& resp.body.msg_type@ == "echo_ok"@
    &&& resp.body.echo == req.body.echo
    &&& resp.body.node_id is None
    &&& resp.body.messages is None
}

/// Outcome of dispatching a `topology` request.
pub open spec fn topology_outcome(
    pre: Node,
    post: Node,
    req: Request,
    r: Result<DispatchOutcome, ProtocolError>,
) -> bool {
    match req.body.topology {
        None => r matches Err(e) && e == ProtocolError::MissingTopology && post == pre,
        Some(topo) => match topo_lookup(topo@, pre.id@) {
            None => r matches Err(e) && e == ProtocolError::TopologyWithoutSelf && post == pre,
            Some(ns) => {
                &&& r matches Ok(out)
                &&& post.id == pre.id
                &&& post.messages == pre.messages
                &&& post.neighbours == ns
                &&& out.floods@.len() == 0
                &&& out.reply matches Some(resp)
                &&& replies_to(resp, req)
                &&& resp.body.msg_type@ == "topology_ok"@
                &&& resp.body.echo == req.body.echo
                &&& resp.body.node_id is None
                &&& resp.body.messages is None
            },
        },
    }
}

/// Outcome of dispatching a `broadcast` request, inbound from a client
/// (with `msg_id`) or flooded by a peer (without).
pub open spec fn broadcast_outcome(
    pre: Node,
    post: Node,
    req: Request,
    r: Result<DispatchOutcome, ProtocolError>,
) -> bool {
    match req.body.message {
        None => r matches Err(e) && e == ProtocolError::MissingMessage && post == pre,
        Some(v) => {
            &&& r matches Ok(out)
            &&& post.id == pre.id
            &&& post.neighbours == pre.neighbours
            &&& post.messages@ == store_step(pre.messages@, v)
            &&& (pre.messages@.contains(v) ==> out.floods@.len() == 0)
            &&& (!pre.messages@.contains(v) ==> {
                &&& out.floods@.len() == pre.neighbours@.len()
                &&& forall|j: int|
                    0 <= j < out.floods@.len() ==> is_flood(
                        #[trigger] out.floods@[j],
                        pre.id,
                        pre.neighbours@[j],
                        v,
                    )
            })
            &&& match req.body.msg_id {
                None => out.reply is None,
                Some(m) => {
                    &&& out.reply matches Some(resp)
                    &&& replies_to(resp, req)
                    &&& resp.body.msg_type@ == "broadcast_ok"@
                    &&& resp.body.in_reply_to == Some(m)
                    &&& resp.body.echo == req.body.echo
                    &&& resp.body.node_id is None
                    &&& resp.body.messages is None
                },
            }
        },
    }
}

/// Outcome of dispatching a `read` request: the reply carries the whole
/// current store, and nothing changes.
pub open spec fn read_outcome(
    pre: Node,
    post: Node,
    req: Request,
    r: Result<DispatchOutcome, ProtocolError>,
) -> bool {
    &&& r matches Ok(out)
    &&& post == pre
    &&& out.floods@.len() == 0
    &&& out.reply matches Some(resp)
    &&& replies_to(resp, req)
    &&& resp.body.msg_type@ == "read_ok"@
    &&& resp.body.messages matches Some(ms) && ms@ == pre.messages@
    &&& resp.body.echo == req.body.echo
    &&& resp.body.node_id is None
}

/// The full contract of the dispatcher, one case per message-type tag.
pub open spec fn dispatch_post(
    pre: Node,
    post: Node,
    req: Request,
    r: Result<DispatchOutcome, ProtocolError>,
) -> bool {
    let t = req.body.msg_type@;
    if t == "init"@ {
        init_outcome(pre, post, req, r)
    } else if t == "echo"@ {
        echo_outcome(pre, post, req, r)
    } else if t == "topology"@ {
        topology_outcome(pre, post, req, r)
    } else if t == "broadcast"@ {
        broadcast_outcome(pre, post, req, r)
    } else if t == "read"@ {
        read_outcome(pre, post, req, r)
    } else {
        r matches Err(e) && e == ProtocolError::UnknownMessageType && post == pre
    }
}

impl Node {
    /// The broadcast store holds each value at most once.
    pub open spec fn wf(self) -> bool {
        self.messages@.no_duplicates()
    }

    /// A fresh node with the given identity, no neighbours and an empty
    /// broadcast store.
    pub fn new(id: String) -> (n: Node)
        ensures
            n.id == id,
            n.neighbours@.len() == 0,
            n.messages@.len() == 0,
            n.wf(),
    {
        Node { id, neighbours: Vec::new(), messages: Vec::new() }
    }

    /// A runtime check of `wf`, for an embedding program that cannot carry
    /// the proof: true exactly when the store holds no value twice.
    pub fn store_is_duplicate_free(&self) -> (r: bool)
        ensures
            r == self.wf(),
    {
        let mut i: usize = 0;
        while i < self.messages.len()
            invariant
                i <= self.messages@.len(),
                forall|p: int, q: int|
                    0 <= p < i && p < q < self.messages@.len() ==> self.messages@[p]
                        != self.messages@[q],
            decreases self.messages@.len() - i,
        {
            let mut j: usize = i + 1;
            while j < self.messages.len()
                invariant
                    i < j <= self.messages@.len(),
                    i < self.messages@.len(),
                    forall|p: int, q: int|
                        0 <= p < i && p < q < self.messages@.len() ==> self.messages@[p]
                            != self.messages@[q],
                    forall|q: int|
                        i < q < j ==> self.messages@[i as int] != self.messages@[q],
                decreases self.messages@.len() - j,
            {
                if self.messages[i] == self.messages[j] {
                    return false;
                }
                j += 1;
            }
            i += 1;
        }
        proof {
            assert forall|p: int, q: int|
                0 <= p < self.messages@.len() && 0 <= q < self.messages@.len() && p
                    != q implies self.messages@[p] != self.messages@[q] by {
                if p < q {
                } else {
                    assert(q < p);
                }
            }
        }
        true
    }

    /// Build one flood envelope from this node to `dest` carrying
    /// `message`: a `broadcast` request without a correlation id.
    pub fn flood_to_neighbour(&self, dest: String, message: i32) -> (f: Request)
        ensures
            is_flood(f, self.id, dest, message),
    {
        Request {
            id: None,
            src: self.id.clone(),
            dest,
            body: RequestMessageBody {
                node_id: None,
                msg_type: "broadcast".to_owned(),
                node_ids: None,
                msg_id: None,
                echo: None,
                topology: None,
                message: Some(message),
            },
        }
    }

    /// Dispatch one inbound envelope: classify it by its message-type tag,
    /// apply the state change of that tag, and return the outbound
    /// envelopes, or the protocol error the envelope commits.
    pub fn handle_request(&mut self, req: Request) -> (r: Result<
        DispatchOutcome,
        ProtocolError,
    >)
        requires
            old(self).wf(),
        ensures
            final(self).wf(),
            dispatch_post(*old(self), *final(self), req, r),
    {
        if req.body.msg_type == "init".to_owned() {
            self.handle_init(req)
        } else if req.body.msg_type == "echo".to_owned() {
            self.handle_echo(req)
        } else if req.body.msg_type == "topology".to_owned() {
            self.handle_topology(req)
        } else if req.body.msg_type == "broadcast".to_owned() {
            self.handle_broadcast(req)
        } else if req.body.msg_type == "read".to_owned() {
            self.handle_read(req)
        } else {
            Err(ProtocolError::UnknownMessageType)
        }
    }

    /// `init`: adopt the identity the harness assigns and acknowledge.
    fn handle_init(&mut self, req: Request) -> (r: Result<DispatchOutcome, ProtocolError>)
        ensures
            init_outcome(*old(self), *final(self), req, r),
            final(self).messages == old(self).messages,
    {
        let Request { id: _, src, dest, body } = req;
        match body.node_id {
            None => Err(ProtocolError::MissingNodeId),
            Some(nid) => {
                self.id = nid;
                let reply = Response {
                    src: dest.clone(),
                    dest: src,
                    body: ReplyMessageBody {
                        node_id: Some(dest),
                        msg_id: body.msg_id,
                        msg_type: "init_ok".to_owned(),
                        in_reply_to: body.msg_id,
                        echo: None,
                        messages: None,
                    },
                };
                Ok(DispatchOutcome { reply: Some(reply), floods: Vec::new() })
            },
        }
    }

    /// `echo`: return the payload unchanged.
    fn handle_echo(&mut self, req: Request) -> (r: Result<DispatchOutcome, ProtocolError>)
        ensures
            echo_outcome(*old(self), *final(self), req, r),
    {
        let Request { id: _, src, dest, body } = req;
        let reply = Response {
            src: dest,
            dest: src,
            body: ReplyMessageBody {
                node_id: None,
                msg_id: body.msg_id,
                msg_type: "echo_ok".to_owned(),
                in_reply_to: body.msg_id,
                echo: body.echo,
                messages: None,
            },
        };
        Ok(DispatchOutcome { reply: Some(reply), floods: Vec::new() })
    }

    /// `topology`: replace the neighbour set wholesale with the entry for
    /// this node's own identifier, and acknowledge.
    fn handle_topology(&mut self, req: Request) -> (r: Result<DispatchOutcome, ProtocolError>)
        ensures
            topology_outcome(*old(self), *final(self), req, r),
            final(self).messages == old(self).messages,
    {
        let Request { id: _, src, dest, body } = req;
        match body.topology {
            None => Err(ProtocolError::MissingTopology),
            Some(topo) => {
                match take_neighbours(topo, &self.id) {
                    None => Err(ProtocolError::TopologyWithoutSelf),
                    Some(ns) => {
                        self.neighbours = ns;
                        let reply = Response {
                            src: dest,
                            dest: src,
                            body: ReplyMessageBody {
                                node_id: None,
                                msg_id: body.msg_id,
                                msg_type: "topology_ok".to_owned(),
                                in_reply_to: body.msg_id,
                                echo: body.echo,
                                messages: None,
                            },
                        };
                        Ok(DispatchOutcome { reply: Some(reply), floods: Vec::new() })
                    },
                }
            },
        }
    }

    /// `broadcast`: under the exclusive borrow, check the store and insert
    /// the value if novel; a novel value is flooded to every neighbour. A
    /// request with a `msg_id` is acknowledged, a peer flood is not.
    fn handle_broadcast(&mut self, req: Request) -> (r: Result<DispatchOutcome, ProtocolError>)
        requires
            old(self).wf(),
        ensures
            final(self).wf(),
            broadcast_outcome(*old(self), *final(self), req, r),
    {
        let Request { id: _, src, dest, body } = req;
        match body.message {
            None => Err(ProtocolError::MissingMessage),
            Some(v) => {
                let novel = !store_contains(&self.messages, v);
                let mut floods: Vec<Request> = Vec::new();
                if novel {
                    self.messages.push(v);
                    proof {
                        lemma_push_novel_no_duplicates(old(self).messages@, v);
                    }
                    let mut i: usize = 0;
                    while i < self.neighbours.len()
                        invariant
                            i <= self.neighbours@.len(),
                            floods@.len() == i,
                            self.id == old(self).id,
                            self.neighbours == old(self).neighbours,
                            self.messages@ == old(self).messages@.push(v),
                            forall|j: int|
                                0 <= j < i ==> is_flood(
                                    #[trigger] floods@[j],
                                    self.id,
                                    self.neighbours@[j],
                                    v,
                                ),
                        decreases self.neighbours@.len() - i,
                    {
                        let neighbour = self.neighbours[i].clone();
                        let f = self.flood_to_neighbour(neighbour, v);
                        floods.push(f);
                        i += 1;
                    }
                }
                let reply = match body.msg_id {
                    None => None,
                    Some(m) => Some(
                        Response {
                            src: dest,
                            dest: src,
                            body: ReplyMessageBody {
                                node_id: None,
                                msg_id: Some(m),
                                msg_type: "broadcast_ok".to_owned(),
                                in_reply_to: Some(m),
                                echo: body.echo,
                                messages: None,
                            },
                        },
                    ),
                };
                Ok(DispatchOutcome { reply, floods })
            },
        }
    }

    /// `read`: answer with a snapshot of the whole current store, taken
    /// under the same exclusive borrow that guards insertion.
    fn handle_read(&mut self, req: Request) -> (r: Result<DispatchOutcome, ProtocolError>)
        ensures
            read_outcome(*old(self), *final(self), req, r),
            *final(self) == *old(self),
    {
        let Request { id: _, src, dest, body } = req;
        let snapshot = snapshot_store(&self.messages);
        let reply = Response {
            src: dest,
            dest: src,
            body: ReplyMessageBody {
                node_id: None,
                msg_id: body.msg_id,
                msg_type: "read_ok".to_owned(),
                in_reply_to: body.msg_id,
                echo: body.echo,
                messages: Some(snapshot),
            },
        };
        Ok(DispatchOutcome { reply: Some(reply), floods: Vec::new() })
    }
}

/// Whether the broadcast store already holds `v`.
fn store_contains(s: &Vec<i32>, v: i32) -> (r: bool)
    ensures
        r == s@.contains(v),
{
    let mut i: usize = 0;
    while i < s.len()
        invariant
            0 <= i <= s@.len(),
            forall|j: int| 0 <= j < i ==> s@[j] != v,
        decreases s@.len() - i,
    {
        if s[i] == v {
            return true;
        }
        i += 1;
    }
    false
}

/// An element-for-element copy of the store, for `read` replies.
fn snapshot_store(s: &Vec<i32>) -> (r: Vec<i32>)
    ensures
        r@ == s@,
{
    let mut r: Vec<i32> = Vec::new();
    let mut i: usize = 0;
    while i < s.len()
        invariant
            0 <= i <= s@.len(),
            r@ == s@.take(i as int),
        decreases s@.len() - i,
    {
        r.push(s[i]);
        i += 1;
    }
    proof {
        assert(r@ =~= s@);
    }
    r
}

/// Take the neighbour list assigned to `id` out of the topology mapping:
/// the first entry whose key is `id`, as `topo_lookup` says.
fn take_neighbours(topo: Vec<(String, Vec<String>)>, id: &String) -> (r: Option<Vec<String>>)
    ensures
        r == topo_lookup(topo@, id@),
{
    let mut topo = topo;
    match find_topo_index(&topo, id) {
        None => {
            proof {
                lemma_topo_lookup_missing(topo@, id@);
            }
            None
        },
        Some(i) => {
            proof {
                lemma_topo_lookup_found(topo@, id@, i as int);
            }
            let entry = topo.remove(i);
            Some(entry.1)
        },
    }
}

/// The index of the first topology entry whose key is `id`, if any.
fn find_topo_index(topo: &Vec<(String, Vec<String>)>, id: &String) -> (r: Option<usize>)
    ensures
        match r {
            Some(i) => {
                &&& i < topo@.len()
                &&& topo@[i as int].0@ == id@
                &&& forall|j: int| 0 <= j < i ==> topo@[j].0@ != id@
            },
            None => forall|j: int| 0 <= j < topo@.len() ==> topo@[j].0@ != id@,
        },
{
    let mut i: usize = 0;
    while i < topo.len()
        invariant
            0 <= i <= topo@.len(),
            forall|j: int| 0 <= j < i ==> topo@[j].0@ != id@,
        decreases topo@.len() - i,
    {
        if topo[i].0 == *id {
            return Some(i);
        }
        i += 1;
    }
    None
}

/// A first-match index in the topology mapping settles the lookup.
proof fn lemma_topo_lookup_found(t: Seq<(String, Vec<String>)>, id: Seq<char>, i: int)
    requires
        0 <= i < t.len(),
        forall|j: int| 0 <= j < i ==> t[j].0@ != id,
        t[i].0@ == id,
    ensures
        topo_lookup(t, id) == Some(t[i].1),
    decreases i,
{
    if i > 0 {
        lemma_topo_lookup_found(t.drop_first(), id, i - 1);
    }
}

/// A topology mapping without the key has no entry for it.
proof fn lemma_topo_lookup_missing(t: Seq<(String, Vec<String>)>, id: Seq<char>)
    requires
        forall|j: int| 0 <= j < t.len() ==> t[j].0@ != id,
    ensures
        topo_lookup(t, id) is None,
    decreases t.len(),
{
    if t.len() > 0 {
        lemma_topo_lookup_missing(t.drop_first(), id);
    }
}

/// How the store evolves while a whole sequence of broadcast values is
/// delivered, one `store_step` per value.
pub open spec fn store_after(s: Seq<i32>, vals: Seq<i32>) -> Seq<i32>
    decreases vals.len(),
{
    if vals.len() == 0 {
        s
    } else {
        store_after(store_step(s, vals[0]), vals.drop_first())
    }
}

/// One step neither loses values nor admits a duplicate: afterwards the
/// store holds exactly what it held before plus the delivered value.
pub proof fn lemma_store_step_dedup(s: Seq<i32>, v: i32)
    requires
        s.no_duplicates(),
    ensures
        store_step(s, v).no_duplicates(),
        store_step(s, v).to_set() == s.to_set().insert(v),
{
    if s.contains(v) {
        assert(store_step(s, v).to_set() =~= s.to_set().insert(v));
    } else {
        lemma_push_novel_no_duplicates(s, v);
        assert forall|x: i32| s.push(v).contains(x) <==> s.to_set().insert(v).contains(x) by {
            if s.push(v).contains(x) {
                let k = choose|k: int| 0 <= k < s.push(v).len() && s.push(v)[k] == x;
                if k < s.len() {
                    assert(s[k] == x);
                }
            }
            if s.contains(x) {
                let k = choose|k: int| 0 <= k < s.len() && s[k] == x;
                assert(s.push(v)[k] == x);
            }
            if x == v {
                assert(s.push(v)[s.len() as int] == v);
            }
        }
        assert(store_step(s, v).to_set() =~= s.to_set().insert(v));
    }
}

/// Law: for every sequence of `broadcast` values delivered to a node, the
/// broadcast store afterwards holds exactly the values it held before
/// together with the distinct values among the delivered ones, each at most
/// once. With an empty starting store this is the deduplication property:
/// the store equals the set of distinct delivered values.
pub proof fn lemma_store_after_dedup(s: Seq<i32>, vals: Seq<i32>)
    requires
        s.no_duplicates(),
    ensures
        store_after(s, vals).no_duplicates(),
        store_after(s, vals).to_set() == s.to_set() + vals.to_set(),
    decreases vals.len(),
{
    if vals.len() == 0 {
        assert forall|x: i32| !vals.to_set().contains(x) by {
            assert(!vals.contains(x));
        }
        assert(store_after(s, vals).to_set() =~= s.to_set() + vals.to_set());
    } else {
        let v = vals[0];
        let rest = vals.drop_first();
        lemma_store_step_dedup(s, v);
        lemma_store_after_dedup(store_step(s, v), rest);
        assert forall|x: i32| vals.contains(x) <==> (x == v || rest.contains(x)) by {
            if vals.contains(x) {
                let k = choose|k: int| 0 <= k < vals.len() && vals[k] == x;
                if k > 0 {
                    assert(rest[k - 1] == x);
                }
            }
            if rest.contains(x) {
                let k = choose|k: int| 0 <= k < rest.len() && rest[k] == x;
                assert(vals[k + 1] == x);
            }
        }
        assert(store_after(s, vals).to_set() =~= s.to_set() + vals.to_set());
    }
}

/// The deduplication law for a node that starts with an empty store, as a
/// run of `handle_request` on `broadcast` envelopes performs it.
pub proof fn lemma_broadcast_store_is_distinct_values(vals: Seq<i32>)
    ensures
        store_after(Seq::<i32>::empty(), vals).no_duplicates(),
        store_after(Seq::<i32>::empty(), vals).to_set() == vals.to_set(),
{
    lemma_store_after_dedup(Seq::<i32>::empty(), vals);
    assert forall|x: i32| !Seq::<i32>::empty().to_set().contains(x) by {
        assert(!Seq::<i32>::empty().contains(x));
    }
    assert(Seq::<i32>::empty().to_set() + vals.to_set() =~= vals.to_set());
}

/// Appending a value the store does not hold keeps it duplicate-free.
proof fn lemma_push_novel_no_duplicates(s: Seq<i32>, v: i32)
    requires
        s.no_duplicates(),
        !s.contains(v),
    ensures
        s.push(v).no_duplicates(),
{
    assert forall|i: int, j: int|
        0 <= i < s.push(v).len() && 0 <= j < s.push(v).len() && i != j implies s.push(v)[i]
        != s.push(v)[j] by {
        if i < s.len() && j < s.len() {
        } else if i < s.len() {
            assert(s[i] == s.push(v)[i]);
        } else if j < s.len() {
            assert(s[j] == s.push(v)[j]);
        }
    }
}

} // verus!
