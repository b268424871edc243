//! Ports between processors, and the graph of their connections, which puts
//! the processors in an order in which every connection goes forward.
use vstd::prelude::*;
use std::sync::mpsc::{Receiver, SyncSender};
use crate::k2_stream::errors::{K2Error, K2ErrorCode};
use crate::k2_stream::memory::DataHeader;
use crate::text::{str_eq, concat3};

verus! {

/// The sending end of a bounded channel of the standard library.
#[verifier::external_type_specification]
#[verifier::external_body]
#[verifier::reject_recursive_types(T)]
pub struct ExSyncSender<T>(SyncSender<T>);

/// The receiving end of a channel of the standard library.
#[verifier::external_type_specification]
#[verifier::external_body]
#[verifier::reject_recursive_types(T)]
pub struct ExReceiver<T>(Receiver<T>);

/// Calls `std::sync::mpsc::sync_channel` with room for `bound` values; the
/// contract claims nothing of the two ends it gives.
#[verifier::external_body]
fn bounded_channel<T>(bound: usize) -> (SyncSender<T>, Receiver<T>) {
    std::sync::mpsc::sync_channel(bound)
}

/// Calls `SyncSender::clone`: another sending end of the same channel. The
/// contract claims nothing of it.
#[verifier::external_body]
fn another_sender<T>(s: &SyncSender<T>) -> SyncSender<T> {
    s.clone()
}

/// Calls `SyncSender::send`, which blocks while the channel is full; `false`
/// when the receiving end is gone. Whether it is gone depends on other
/// threads, so the contract claims nothing of the answer.
#[verifier::external_body]
fn channel_send<T>(s: &SyncSender<T>, data: T) -> bool {
    s.send(data).is_ok()
}

/// Calls `Receiver::recv`, which blocks while the channel is empty; `None`
/// when every sending end is gone. What arrives depends on other threads, so the
/// contract claims nothing of it.
#[verifier::external_body]
fn channel_recv<T>(r: &Receiver<T>) -> Option<T> {
    r.recv().ok()
}

/// An input port: a channel whose sending ends outputs hold.
#[verifier::reject_recursive_types(T)]
pub struct Input<T> {
    pub name: DataHeader,
    receiver: Receiver<T>,
    sender: SyncSender<T>,
}

impl<T> Input<T> {
    /// The port's name.
    pub closed spec fn label(&self) -> Seq<char> {
        self.name@
    }

    /// A port named `name`, with room for a hundred values.
    pub fn new(name: DataHeader) -> (r: Self)
        ensures
            r.label() == name@,
    {
        let (sender, receiver) = bounded_channel(100);
        Input { name, receiver, sender }
    }

    /// The port's name.
    pub fn get_header(&self) -> (r: &DataHeader)
        ensures
            r@ == self.label(),
    {
        &self.name
    }

    /// A sending end of the port's channel, for an output to hold.
    pub fn get_sender(&self) -> SyncSender<T> {
        another_sender(&self.sender)
    }

    /// Waits for the next value; `NotFound` when no sending end is left.
    pub fn receive(&self) -> (r: Result<T, K2Error>)
        ensures
            r matches Err(e) ==> e.code == K2ErrorCode::NotFound && e.message@
                == "Failed to receive data"@,
    {
        match channel_recv(&self.receiver) {
            Some(v) => Ok(v),
            None => Err(K2Error::new(K2ErrorCode::NotFound, "Failed to receive data")),
        }
    }
}

/// An output port: the sending ends of the inputs connected to it.
#[verifier::reject_recursive_types(T)]
pub struct Output<T> {
    pub name: DataHeader,
    sender: Vec<SyncSender<T>>,
}

impl<T: Clone> Output<T> {
    /// The port's name.
    pub closed spec fn label(&self) -> Seq<char> {
        self.name@
    }

    /// A port named `name`, connected to nothing.
    pub fn new(name: DataHeader) -> (r: Self)
        ensures
            r.label() == name@,
            r.connections() == 0,
    {
        Output { name, sender: Vec::new() }
    }

    /// The number of inputs connected.
    pub closed spec fn connections(&self) -> nat {
        self.sender@.len()
    }

    /// Connects one more input.
    pub fn connect(&mut self, sender: SyncSender<T>)
        ensures
            final(self).connections() == old(self).connections() + 1,
            final(self).label() == old(self).label(),
    {
        self.sender.push(sender);
    }

    /// The port's name.
    pub fn get_header(&self) -> (r: &DataHeader)
        ensures
            r@ == self.label(),
    {
        &self.name
    }

    /// Sends a copy of `data` to every connected input, in the order they
    /// were connected; stops with `NotFound` at an input that is gone.
    pub fn send(&self, data: T) -> (r: Result<(), K2Error>)
        ensures
            self.connections() == 0 ==> r is Ok,
            r matches Err(e) ==> e.code == K2ErrorCode::NotFound && e.message@
                == "Failed to send data"@,
    {
        let mut i: usize = 0;
        while i < self.sender.len()
            invariant
                i <= self.sender@.len(),
            decreases self.sender@.len() - i,
        {
            if !channel_send(&self.sender[i], data.clone()) {
                return Err(K2Error::new(K2ErrorCode::NotFound, "Failed to send data"));
            }
            i = i + 1;
        }
        Ok(())
    }
}

/// The first position of `x` in `s`.
pub open spec fn position_of(s: Seq<Seq<char>>, x: Seq<char>) -> Option<int>
    decreases s.len(),
{
    if s.len() == 0 {
        None
    } else if s[0] == x {
        Some(0)
    } else {
        match position_of(s.drop_first(), x) {
            Some(i) => Some(i + 1),
            None => None,
        }
    }
}

/// What the first position of a name is.
pub proof fn lemma_position_of(s: Seq<Seq<char>>, x: Seq<char>)
    ensures
        position_of(s, x) is Some <==> s.contains(x),
        position_of(s, x) matches Some(i) ==> 0 <= i < s.len() && s[i] == x && forall|j: int|
            0 <= j < i ==> s[j] != x,
    decreases s.len(),
{
    if s.len() > 0 {
        lemma_position_of(s.drop_first(), x);
        if s[0] != x {
            if s.contains(x) {
                let k = choose|k: int| 0 <= k < s.len() && s[k] == x;
                assert(s.drop_first()[k - 1] == x);
            }
            if s.drop_first().contains(x) {
                let k = choose|k: int| 0 <= k < s.drop_first().len() && s.drop_first()[k] == x;
                assert(s[k + 1] == x);
            }
            if let Some(i) = position_of(s, x) {
                assert forall|j: int| 0 <= j < i implies s[j] != x by {
                    if j > 0 {
                        assert(s[j] == s.drop_first()[j - 1]);
                    }
                }
            }
        } else {
            assert(s.contains(x) && s[0] == x);
        }
    }
}

/// Whether one position comes after another, as `Option<usize>` compares
/// them: a missing position comes before every position.
pub open spec fn later(a: Option<int>, b: Option<int>) -> bool {
    match (a, b) {
        (Some(x), Some(y)) => x > y,
        (Some(_), None) => true,
        _ => false,
    }
}

/// Places the two ends of one connection among the processors ordered so
/// far: a source found after its target moves to just before it, a source
/// not yet placed goes before its target, and a target not yet placed goes
/// last, after its source.
pub open spec fn place(nodes: Seq<Seq<char>>, from: Seq<char>, to: Seq<char>) -> Seq<Seq<char>> {
    match position_of(nodes, to) {
        Some(ti) => match position_of(nodes, from) {
            Some(fi) => if fi > ti {
                nodes.remove(fi).insert(ti, from)
            } else {
                nodes
            },
            None => nodes.insert(ti, from),
        },
        None => {
            let n1 = if position_of(nodes, from) is None {
                nodes.push(from)
            } else {
                nodes
            };
            n1.push(to)
        },
    }
}

/// The order that sorting gives: the connections placed one after the
/// other, starting from no processor.
pub open spec fn sorted_order(conns: Seq<(Seq<char>, Seq<char>)>) -> Seq<Seq<char>>
    decreases conns.len(),
{
    if conns.len() == 0 {
        Seq::empty()
    } else {
        place(sorted_order(conns.drop_last()), conns.last().0, conns.last().1)
    }
}

/// Whether the `i`-th connection goes backward in the order.
pub open spec fn backward(nodes: Seq<Seq<char>>, conns: Seq<(Seq<char>, Seq<char>)>, i: int) -> bool {
    later(position_of(nodes, conns[i].0), position_of(nodes, conns[i].1))
}

/// Placing a connection keeps every processor placed before, and places
/// both of its ends.
pub proof fn lemma_place_keeps(nodes: Seq<Seq<char>>, from: Seq<char>, to: Seq<char>, x: Seq<char>)
    ensures
        nodes.contains(x) ==> place(nodes, from, to).contains(x),
        place(nodes, from, to).contains(from),
        place(nodes, from, to).contains(to),
{
    lemma_position_of(nodes, to);
    lemma_position_of(nodes, from);
    let p = place(nodes, from, to);
    match position_of(nodes, to) {
        Some(ti) => match position_of(nodes, from) {
            Some(fi) => {
                if fi > ti {
                    let r = nodes.remove(fi);
                    assert(p[ti] == from);
                    assert(r[ti] == to);
                    assert(p[ti + 1] == to);
                    if nodes.contains(x) {
                        let k = choose|k: int| 0 <= k < nodes.len() && nodes[k] == x;
                        if k == fi {
                            assert(p[ti] == x);
                        } else if k < fi {
                            if k < ti {
                                assert(p[k] == x);
                            } else {
                                assert(p[k + 1] == x);
                            }
                        } else {
                            assert(r[k - 1] == x);
                            assert(p[k] == x);
                        }
                    }
                } else {
                    assert(p[fi] == from);
                    assert(p[ti] == to);
                }
            },
            None => {
                assert(p[ti] == from);
                assert(p[ti + 1] == to);
                if nodes.contains(x) {
                    let k = choose|k: int| 0 <= k < nodes.len() && nodes[k] == x;
                    if k < ti {
                        assert(p[k] == x);
                    } else {
                        assert(p[k + 1] == x);
                    }
                }
            },
        },
        None => {
            let n1 = if position_of(nodes, from) is None {
                nodes.push(from)
            } else {
                nodes
            };
            assert(p[p.len() - 1] == to);
            if position_of(nodes, from) is None {
                assert(p[nodes.len() as int] == from);
            } else {
                let fi = position_of(nodes, from)->0;
                assert(p[fi] == from);
            }
            if nodes.contains(x) {
                let k = choose|k: int| 0 <= k < nodes.len() && nodes[k] == x;
                assert(p[k] == x);
            }
        },
    }
}

/// Placing a connection between two different processors puts its source
/// before its target: a target not placed yet goes after its source, and a
/// source placed after its target is moved in front of it.
pub proof fn law_place_puts_source_first(nodes: Seq<Seq<char>>, from: Seq<char>, to: Seq<char>)
    requires
        from != to,
    ensures
        position_of(place(nodes, from, to), from) matches Some(a) && position_of(place(nodes, from, to), to)
            matches Some(b) && a < b,
{
    lemma_position_of(nodes, to);
    lemma_position_of(nodes, from);
    let p = place(nodes, from, to);
    lemma_place_keeps(nodes, from, to, from);
    lemma_position_of(p, from);
    lemma_position_of(p, to);
    let a = position_of(p, from)->Some_0;
    let b = position_of(p, to)->Some_0;
    match position_of(nodes, to) {
        Some(ti) => match position_of(nodes, from) {
            Some(fi) => {
                if fi > ti {
                    let r = nodes.remove(fi);
                    assert(r[ti] == to);
                    assert(p[ti] == from);
                    assert(p[ti + 1] == to);
                    assert forall|j: int| 0 <= j < ti implies p[j] != from && p[j] != to by {
                        assert(p[j] == nodes[j]);
                    }
                    assert(a == ti);
                    assert(b == ti + 1);
                } else {
                    assert(fi != ti);
                    assert(a == fi);
                    assert(b == ti);
                }
            },
            None => {
                assert(p[ti] == from);
                assert(p[ti + 1] == to);
                assert forall|j: int| 0 <= j < ti implies p[j] != from && p[j] != to by {
                    assert(p[j] == nodes[j]);
                }
                assert(a == ti);
                assert(b == ti + 1);
            },
        },
        None => {
            let n1 = if position_of(nodes, from) is None {
                nodes.push(from)
            } else {
                nodes
            };
            assert(p == n1.push(to));
            assert forall|j: int| 0 <= j < n1.len() implies p[j] != to by {
                assert(p[j] == n1[j]);
                if j < nodes.len() {
                    assert(nodes[j] != to);
                }
            }
            assert(b == n1.len());
            assert(a < n1.len());
        },
    }
}

/// The last connection sorted goes forward in the sorted order: its source
/// comes before its target.
pub proof fn law_sorted_order_places_last_source_first(conns: Seq<(Seq<char>, Seq<char>)>)
    requires
        conns.len() > 0,
        conns.last().0 != conns.last().1,
    ensures
        position_of(sorted_order(conns), conns.last().0) matches Some(a) && position_of(
            sorted_order(conns),
            conns.last().1,
        ) matches Some(b) && a < b,
{
    law_place_puts_source_first(sorted_order(conns.drop_last()), conns.last().0, conns.last().1);
}

/// The processors of a path of connections, in the order of the path: the
/// first source, then each target.
pub open spec fn path_nodes(conns: Seq<(Seq<char>, Seq<char>)>) -> Seq<Seq<char>> {
    seq![conns[0].0] + conns.map_values(|c: (Seq<char>, Seq<char>)| c.1)
}

/// Whether the connections form a path through distinct processors: each
/// connection starts where the one before it ends.
pub open spec fn is_path(conns: Seq<(Seq<char>, Seq<char>)>) -> bool {
    &&& conns.len() > 0
    &&& forall|i: int| 0 <= i < conns.len() - 1 ==> #[trigger] conns[i].1 == conns[i + 1].0
    &&& path_nodes(conns).no_duplicates()
}

/// In a sequence without repeats, the first position of an element is where
/// it stands.
proof fn lemma_position_unique(s: Seq<Seq<char>>, k: int)
    requires
        s.no_duplicates(),
        0 <= k < s.len(),
    ensures
        position_of(s, s[k]) == Some(k),
{
    lemma_position_of(s, s[k]);
    assert(s.contains(s[k]));
}

/// Sorting a path of connections gives the processors in the order of the
/// path.
proof fn lemma_sorted_path(conns: Seq<(Seq<char>, Seq<char>)>)
    requires
        is_path(conns),
    ensures
        sorted_order(conns) == path_nodes(conns),
    decreases conns.len(),
{
    let pn = path_nodes(conns);
    let c = conns.last();
    if conns.len() == 1 {
        assert(sorted_order(conns.drop_last()) =~= Seq::<Seq<char>>::empty());
        assert(pn[0] != pn[1]);
        assert(place(Seq::empty(), c.0, c.1) =~= pn);
    } else {
        let pre = conns.drop_last();
        let pp = path_nodes(pre);
        assert(pp =~= pn.drop_last());
        assert forall|i: int| 0 <= i < pre.len() - 1 implies #[trigger] pre[i].1 == pre[i + 1].0 by {
            assert(conns[i].1 == conns[i + 1].0);
        }
        assert(pp.no_duplicates()) by {
            assert forall|a: int, b: int| 0 <= a < pp.len() && 0 <= b < pp.len() && a != b implies pp[a] != pp[b] by {
                assert(pp[a] == pn[a] && pp[b] == pn[b]);
            }
        }
        lemma_sorted_path(pre);
        assert(conns[conns.len() - 2].1 == conns[conns.len() - 1].0);
        assert(pp[pp.len() - 1] == c.0);
        lemma_position_of(pp, c.0);
        lemma_position_of(pp, c.1);
        assert(!pp.contains(c.1)) by {
            if pp.contains(c.1) {
                let j = choose|j: int| 0 <= j < pp.len() && pp[j] == c.1;
                assert(pn[j] == pn[pn.len() - 1]);
            }
        }
        assert(place(pp, c.0, c.1) =~= pn);
    }
}

/// Connections that form a path through distinct processors pass the check:
/// sorting puts each source before its target, so no connection goes
/// backward.
pub proof fn law_path_passes_check(conns: Seq<(Seq<char>, Seq<char>)>)
    requires
        is_path(conns),
    ensures
        sorted_order(conns) == path_nodes(conns),
        forall|i: int| 0 <= i < conns.len() ==> !backward(sorted_order(conns), conns, i),
{
    lemma_sorted_path(conns);
    let pn = path_nodes(conns);
    assert forall|i: int| 0 <= i < conns.len() implies !backward(sorted_order(conns), conns, i) by {
        if i == 0 {
            assert(pn[0] == conns[0].0);
        } else {
            assert(conns[i - 1].1 == conns[i].0);
            assert(pn[i] == conns[i].0);
        }
        assert(pn[i + 1] == conns[i].1);
        lemma_position_unique(pn, i);
        lemma_position_unique(pn, i + 1);
    }
}

/// Placing a connection adds no processor but its two ends.
pub proof fn lemma_place_only(nodes: Seq<Seq<char>>, from: Seq<char>, to: Seq<char>, x: Seq<char>)
    ensures
        place(nodes, from, to).contains(x) ==> nodes.contains(x) || x == from || x == to,
{
    lemma_position_of(nodes, to);
    lemma_position_of(nodes, from);
    let p = place(nodes, from, to);
    if p.contains(x) && x != from && x != to {
        let k = choose|k: int| 0 <= k < p.len() && p[k] == x;
        match position_of(nodes, to) {
            Some(ti) => match position_of(nodes, from) {
                Some(fi) => {
                    if fi > ti {
                        let r = nodes.remove(fi);
                        if k < ti {
                            assert(nodes[k] == x);
                        } else if k > ti {
                            assert(r[k - 1] == x);
                            if k - 1 < fi {
                                assert(nodes[k - 1] == x);
                            } else {
                                assert(nodes[k] == x);
                            }
                        }
                    } else {
                        assert(nodes[k] == x);
                    }
                },
                None => {
                    if k < ti {
                        assert(nodes[k] == x);
                    } else if k > ti {
                        assert(nodes[k - 1] == x);
                    }
                },
            },
            None => {
                if k < nodes.len() {
                    assert(nodes[k] == x);
                }
            },
        }
    }
}

/// Whether `x` is an end of the `i`-th connection.
pub open spec fn is_end(conns: Seq<(Seq<char>, Seq<char>)>, x: Seq<char>, i: int) -> bool {
    0 <= i < conns.len() && (conns[i].0 == x || conns[i].1 == x)
}

/// The sorted order holds nothing but the ends of the connections.
pub proof fn lemma_sorted_order_only_ends(conns: Seq<(Seq<char>, Seq<char>)>, x: Seq<char>)
    ensures
        sorted_order(conns).contains(x) ==> exists|i: int| #[trigger] is_end(conns, x, i),
    decreases conns.len(),
{
    if conns.len() > 0 {
        let prev = sorted_order(conns.drop_last());
        let c = conns.last();
        lemma_place_only(prev, c.0, c.1, x);
        lemma_sorted_order_only_ends(conns.drop_last(), x);
        if sorted_order(conns).contains(x) {
            if prev.contains(x) {
                let i = choose|i: int| #[trigger] is_end(conns.drop_last(), x, i);
                assert(conns[i] == conns.drop_last()[i]);
                assert(is_end(conns, x, i));
            } else {
                assert(is_end(conns, x, conns.len() - 1));
            }
        }
    }
}

/// The sorted order holds exactly the ends of the connections.
pub proof fn lemma_sorted_order_is_ends(conns: Seq<(Seq<char>, Seq<char>)>)
    ensures
        forall|x: Seq<char>| #[trigger] sorted_order(conns).contains(x) <==> exists|i: int| #[trigger] is_end(conns, x, i),
{
    assert forall|x: Seq<char>| #[trigger] sorted_order(conns).contains(x) <==> exists|i: int| #[trigger] is_end(conns, x, i) by {
        lemma_sorted_order_only_ends(conns, x);
        if exists|i: int| #[trigger] is_end(conns, x, i) {
            let i = choose|i: int| #[trigger] is_end(conns, x, i);
            lemma_sorted_order_places_all(conns, i);
        }
    }
}

/// Every end of every connection has a place in the sorted order.
pub proof fn lemma_sorted_order_places_all(conns: Seq<(Seq<char>, Seq<char>)>, i: int)
    requires
        0 <= i < conns.len(),
    ensures
        sorted_order(conns).contains(conns[i].0),
        sorted_order(conns).contains(conns[i].1),
    decreases conns.len(),
{
    let prev = sorted_order(conns.drop_last());
    let c = conns.last();
    lemma_place_keeps(prev, c.0, c.1, conns[i].0);
    lemma_place_keeps(prev, c.0, c.1, conns[i].1);
    if i < conns.len() - 1 {
        lemma_sorted_order_places_all(conns.drop_last(), i);
    }
}

/// When no connection goes backward in the sorted order, every connection
/// goes from a processor to the same one or to one placed after it.
pub proof fn law_checked_connections_go_forward(conns: Seq<(Seq<char>, Seq<char>)>, i: int)
    requires
        0 <= i < conns.len(),
        forall|j: int| 0 <= j < conns.len() ==> !backward(sorted_order(conns), conns, j),
    ensures
        position_of(sorted_order(conns), conns[i].0) matches Some(a) && position_of(
            sorted_order(conns),
            conns[i].1,
        ) matches Some(b) && a <= b,
{
    lemma_sorted_order_places_all(conns, i);
    lemma_position_of(sorted_order(conns), conns[i].0);
    lemma_position_of(sorted_order(conns), conns[i].1);
    assert(!backward(sorted_order(conns), conns, i));
}

/// A connection from the processor `from` to the processor `to`.
pub struct Connection {
    from: String,
    to: String,
}

impl Connection {
    /// The names of the source and the target.
    pub closed spec fn ends(&self) -> (Seq<char>, Seq<char>) {
        (self.from@, self.to@)
    }

    /// The source.
    pub fn from(&self) -> (r: &String)
        ensures
            r@ == self.ends().0,
    {
        &self.from
    }

    /// The target.
    pub fn to(&self) -> (r: &String)
        ensures
            r@ == self.ends().1,
    {
        &self.to
    }
}

/// The ends of the connections as pairs of names.
pub open spec fn pairs(v: Seq<Connection>) -> Seq<(Seq<char>, Seq<char>)> {
    v.map_values(|c: Connection| c.ends())
}

/// The first position of `x` among the names in `v`.
fn position(v: &Vec<String>, x: &str) -> (r: Option<usize>)
    ensures
        match r {
            Some(k) => position_of(v.deep_view(), x@) == Some(k as int),
            None => position_of(v.deep_view(), x@) is None,
        },
{
    proof {
        lemma_position_of(v.deep_view(), x@);
    }
    let mut i: usize = 0;
    while i < v.len()
        invariant
            i <= v@.len(),
            forall|j: int| 0 <= j < i ==> v.deep_view()[j] != x@,
        decreases v@.len() - i,
    {
        assert(v.deep_view()[i as int] == v@[i as int]@);
        if str_eq(v[i].as_str(), x) {
            proof {
                lemma_position_of(v.deep_view(), x@);
                if let Some(k) = position_of(v.deep_view(), x@) {
                    if k > i {
                        assert(v.deep_view()[i as int] == x@);
                    }
                }
            }
            return Some(i);
        }
        i = i + 1;
    }
    proof {
        if v.deep_view().contains(x@) {
            let k = choose|k: int| 0 <= k < v.deep_view().len() && v.deep_view()[k] == x@;
            assert(v.deep_view()[k] != x@);
        }
    }
    None
}

/// The processors of a stream and the connections between them.
pub struct ConnectionGraph {
    nodes: Vec<String>,
    connections: Vec<Connection>,
    sorted: bool,
}

impl ConnectionGraph {
    /// A checked graph holds the order that sorting gives of its
    /// connections, and none of them goes backward in it.
    #[verifier::type_invariant]
    closed spec fn checked_is_sorted(&self) -> bool {
        self.sorted ==> self.nodes.deep_view() == sorted_order(pairs(self.connections@)) && forall|i: int|
            0 <= i < self.connections@.len() ==> !backward(self.nodes.deep_view(), pairs(self.connections@), i)
    }

    /// The processors in their current order.
    pub closed spec fn order(&self) -> Seq<Seq<char>> {
        self.nodes.deep_view()
    }

    /// The connections, as pairs of names, in the order they were added.
    pub closed spec fn links(&self) -> Seq<(Seq<char>, Seq<char>)> {
        pairs(self.connections@)
    }

    /// Whether the order was checked since the last connection was added.
    pub closed spec fn checked(&self) -> bool {
        self.sorted
    }

    /// A graph without processors or connections.
    pub fn new() -> (r: Self)
        ensures
            r.order() == Seq::<Seq<char>>::empty(),
            r.links() == Seq::<(Seq<char>, Seq<char>)>::empty(),
            !r.checked(),
    {
        let r = ConnectionGraph { nodes: Vec::new(), connections: Vec::new(), sorted: false };
        assert(r.nodes.deep_view() =~= Seq::<Seq<char>>::empty());
        assert(pairs(r.connections@) =~= Seq::<(Seq<char>, Seq<char>)>::empty());
        r
    }

    /// Whether the order was checked since the last connection was added.
    pub fn is_sorted(&self) -> (r: bool)
        ensures
            r == self.checked(),
            r ==> self.order() == sorted_order(self.links()) && forall|i: int|
                0 <= i < self.links().len() ==> !backward(self.order(), self.links(), i),
    {
        proof {
            use_type_invariant(self);
        }
        self.sorted
    }

    /// The processors in their current order.
    pub fn get_nodes(&self) -> (r: &Vec<String>)
        ensures
            r.deep_view() == self.order(),
    {
        &self.nodes
    }

    /// Adds a connection; the order must be checked again.
    pub fn add_connection(&mut self, from: String, to: String)
        ensures
            final(self).links() == old(self).links().push((from@, to@)),
            final(self).order() == old(self).order(),
            !final(self).checked(),
    {
        let ghost f = from@;
        let ghost t = to@;
        self.sorted = false;
        let mut conns: Vec<Connection> = Vec::new();
        std::mem::swap(&mut conns, &mut self.connections);
        conns.push(Connection { from, to });
        std::mem::swap(&mut conns, &mut self.connections);
        assert(pairs(self.connections@) =~= pairs(old(self).connections@).push((f, t)));
    }

    /// Orders the processors afresh from the connections.
    fn sort(&mut self)
        ensures
            final(self).order() == (if old(self).checked() {
                old(self).order()
            } else {
                sorted_order(old(self).links())
            }),
            final(self).links() == old(self).links(),
            final(self).checked() == old(self).checked(),
    {
        if self.sorted {
            return;
        }
        let ghost all = self.links();
        let mut sorted_nodes: Vec<String> = Vec::new();
        let mut i: usize = 0;
        assert(all.take(0) =~= Seq::<(Seq<char>, Seq<char>)>::empty());
        assert(sorted_nodes.deep_view() =~= Seq::<Seq<char>>::empty());
        while i < self.connections.len()
            invariant
                i <= self.connections@.len(),
                all == pairs(self.connections@),
                sorted_nodes.deep_view() == sorted_order(all.take(i as int)),
            decreases self.connections@.len() - i,
        {
            let ghost before = sorted_nodes.deep_view();
            assert(all.take(i + 1).drop_last() =~= all.take(i as int));
            assert(all.take(i + 1).last() == (self.connections@[i as int].from@, self.connections@[i as int].to@));
            let from = self.connections[i].from.clone();
            let to = self.connections[i].to.clone();
            let ghost f = from@;
            let ghost t = to@;
            let from_index = position(&sorted_nodes, from.as_str());
            let to_index = position(&sorted_nodes, to.as_str());
            proof {
                lemma_position_of(before, from@);
                lemma_position_of(before, to@);
            }
            match to_index {
                Some(ti) => match from_index {
                    Some(fi) => {
                        if fi > ti {
                            sorted_nodes.remove(fi);
                            sorted_nodes.insert(ti, from);
                            assert(sorted_nodes.deep_view() =~= before.remove(fi as int).insert(ti as int, f));
                        }
                    },
                    None => {
                        sorted_nodes.insert(ti, from);
                        assert(sorted_nodes.deep_view() =~= before.insert(ti as int, f));
                    },
                },
                None => {
                    if from_index.is_none() {
                        sorted_nodes.push(from);
                    }
                    let ghost mid = sorted_nodes.deep_view();
                    sorted_nodes.push(to);
                    assert(sorted_nodes.deep_view() =~= mid.push(t));
                },
            }
            assert(sorted_nodes.deep_view() == place(before, f, t));
            i = i + 1;
        }
        assert(all.take(i as int) =~= all);
        self.nodes = sorted_nodes;
    }

    /// Orders the processors when needed, then checks that every connection
    /// goes forward in the order; `BadFormat` names the first that does not.
    /// Only a passed check marks the graph as checked.
    pub fn check(&mut self) -> (r: Result<(), K2Error>)
        ensures
            final(self).order() == (if old(self).checked() {
                old(self).order()
            } else {
                sorted_order(old(self).links())
            }),
            final(self).links() == old(self).links(),
            r is Ok <==> forall|i: int|
                0 <= i < final(self).links().len() ==> !backward(
                    final(self).order(),
                    final(self).links(),
                    i,
                ),
            final(self).order() == sorted_order(old(self).links()),
            forall|x: Seq<char>| #[trigger] final(self).order().contains(x) <==> exists|i: int| #[trigger] is_end(old(self).links(), x, i),
            r is Ok ==> final(self).checked(),
            r is Err ==> !final(self).checked() && !old(self).checked(),
            r matches Err(e) ==> e.code == K2ErrorCode::BadFormat && exists|i: int|
                0 <= i < final(self).links().len() && backward(
                    final(self).order(),
                    final(self).links(),
                    i,
                ) && (forall|j: int|
                    0 <= j < i ==> !backward(final(self).order(), final(self).links(), j))
                    && e.message@ == "Invalid connection from "@ + final(self).links()[i].0
                    + " to "@ + final(self).links()[i].1,
    {
        proof {
            use_type_invariant(&*self);
            lemma_sorted_order_is_ends(self.links());
        }
        if !self.is_sorted() {
            self.sort();
        }
        let ghost nodes = self.order();
        let ghost all = self.links();
        let mut i: usize = 0;
        while i < self.connections.len()
            invariant
                i <= self.connections@.len(),
                all == pairs(self.connections@),
                nodes == self.nodes.deep_view(),
                nodes == (if old(self).checked() {
                    old(self).order()
                } else {
                    sorted_order(old(self).links())
                }),
                all == old(self).links(),
                self.checked() == old(self).checked(),
                old(self).checked() ==> old(self).order() == sorted_order(old(self).links()) && forall|j: int|
                    0 <= j < old(self).links().len() ==> !backward(old(self).order(), old(self).links(), j),
                forall|j: int| 0 <= j < i ==> !backward(nodes, all, j),
                forall|x: Seq<char>| #[trigger] sorted_order(all).contains(x) <==> exists|k: int| #[trigger] is_end(all, x, k),
            decreases self.connections@.len() - i,
        {
            let from = &self.connections[i].from;
            let to = &self.connections[i].to;
            assert(all[i as int] == (from@, to@));
            let from_index = position(&self.nodes, from.as_str());
            let to_index = position(&self.nodes, to.as_str());
            proof {
                lemma_position_of(nodes, from@);
                lemma_position_of(nodes, to@);
            }
            let goes_back = match (from_index, to_index) {
                (Some(fi), Some(ti)) => fi > ti,
                (Some(_), None) => true,
                _ => false,
            };
            assert(goes_back == backward(nodes, all, i as int));
            if goes_back {
                let message = String::from_str("Invalid connection from ").concat(from.as_str()).concat(
                    " to ",
                ).concat(to.as_str());
                assert(message@ == "Invalid connection from "@ + all[i as int].0 + " to "@ + all[i
                    as int].1);
                assert(backward(self.order(), self.links(), i as int));
                return Err(K2Error { code: K2ErrorCode::BadFormat, message });
            }
            i = i + 1;
        }
        self.sorted = true;
        Ok(())
    }
}

} // verus!
