//! The transport's share of a command: whom a payload goes to, given the
//! connections that are open. The sockets themselves are not held here.

use vstd::prelude::*;
use crate::server::{texts, ChatServerResponseCommand, CommandView};

verus! {

/// What the transport does for one command.
#[derive(Debug, PartialEq, Eq)]
pub enum Delivery {
    /// Write the payload, as one frame each, to the named connections, all at
    /// once and each on its own.
    Send(Vec<String>, Vec<u8>),
    /// Take the named connection out of the table.
    Disconnect(String),
    /// Do nothing.
    Nothing,
}

/// A delivery, its texts as sequences of characters and its payload as a
/// sequence of bytes.
pub enum DeliveryView {
    Send(Seq<Seq<char>>, Seq<u8>),
    Disconnect(Seq<char>),
    Nothing,
}

impl View for Delivery {
    type V = DeliveryView;

    open spec fn view(&self) -> DeliveryView {
        match *self {
            Delivery::Send(targets, payload) => DeliveryView::Send(texts(targets@), payload@),
            Delivery::Disconnect(id) => DeliveryView::Disconnect(id@),
            Delivery::Nothing => DeliveryView::Nothing,
        }
    }
}

/// The test that passes every connection but one.
pub open spec fn is_not(except: Seq<char>) -> spec_fn(Seq<char>) -> bool {
    |id: Seq<char>| id != except
}

/// The test that passes the connections that are open.
pub open spec fn is_among(connections: Seq<Seq<char>>) -> spec_fn(Seq<char>) -> bool {
    |id: Seq<char>| connections.contains(id)
}

/// What a command comes to, given the connections that are open:
/// - to all: every open connection, in table order;
/// - to all but one: every open connection but that one, and nothing at all
///   where that one is the only connection open;
/// - to some: the named connections that are open, in the order in which
///   they are named;
/// - a disconnect: that, and no payload.
pub open spec fn planned(connections: Seq<Seq<char>>, command: CommandView) -> DeliveryView {
    match command {
        CommandView::SendToAll(payload) => DeliveryView::Send(connections, payload),
        CommandView::SendToAllExcept(except, payload) => if connections == seq![except] {
            DeliveryView::Nothing
        } else {
            DeliveryView::Send(connections.filter(is_not(except)), payload)
        },
        CommandView::SendToSome(ids, payload) => DeliveryView::Send(
            ids.filter(is_among(connections)),
            payload,
        ),
        CommandView::DisconnectUser(id) => DeliveryView::Disconnect(id),
    }
}

/// A payload goes to open connections only, and a send to all but one spares
/// that one.
pub proof fn law_targets_are_open(
    connections: Seq<Seq<char>>,
    command: CommandView,
    target: Seq<char>,
)
    requires
        planned(connections, command) matches DeliveryView::Send(targets, _) && targets.contains(
            target,
        ),
    ensures
        connections.contains(target),
        command matches CommandView::SendToAllExcept(except, _) ==> target != except,
        command matches CommandView::SendToSome(ids, _) ==> ids.contains(target),
{
    match command {
        CommandView::SendToAllExcept(except, _) => {
            let kept = connections.filter(is_not(except));
            let i = choose|i: int| 0 <= i < kept.len() && kept[i] == target;
            connections.lemma_filter_pred(is_not(except), i);
            connections.lemma_filter_contains_rev(is_not(except), target);
        },
        CommandView::SendToSome(ids, _) => {
            let kept = ids.filter(is_among(connections));
            let i = choose|i: int| 0 <= i < kept.len() && kept[i] == target;
            ids.lemma_filter_pred(is_among(connections), i);
            ids.lemma_filter_contains_rev(is_among(connections), target);
        },
        _ => {},
    }
}

/// A send to all but one reaches every open connection but that one: the
/// delivery is nothing only where no other connection is open.
pub proof fn law_all_but_one_are_reached(
    connections: Seq<Seq<char>>,
    except: Seq<char>,
    payload: Seq<u8>,
    target: Seq<char>,
)
    requires
        connections.contains(target),
        target != except,
    ensures
        planned(connections, CommandView::SendToAllExcept(except, payload)) matches DeliveryView::Send(
            targets,
            sent,
        ) && targets.contains(target) && sent == payload,
{
    let i = choose|i: int| 0 <= i < connections.len() && connections[i] == target;
    if connections == seq![except] {
        assert(connections[i] == except);
    }
    connections.lemma_filter_contains(is_not(except), i);
}

/// Whether a connection is among those listed.
fn is_listed(list: &Vec<String>, id: &String) -> (listed: bool)
    ensures
        listed == texts(list@).contains(id@),
{
    let mut i: usize = 0;
    while i < list.len()
        invariant
            i <= list@.len(),
            forall|j: int| 0 <= j < i ==> texts(list@)[j] != id@,
        decreases list@.len() - i,
    {
        if list[i] == *id {
            assert(texts(list@)[i as int] == id@);
            return true;
        }
        i = i + 1;
    }
    false
}

/// The strings of a list, but those that equal `except`.
fn all_but(list: &Vec<String>, except: &String) -> (kept: Vec<String>)
    ensures
        texts(kept@) == texts(list@).filter(is_not(except@)),
{
    let mut kept: Vec<String> = Vec::new();
    let mut i: usize = 0;
    proof {
        reveal(Seq::filter);
        assert(texts(list@).take(0) =~= Seq::<Seq<char>>::empty());
        assert(texts(kept@) =~= Seq::<Seq<char>>::empty());
    }
    while i < list.len()
        invariant
            i <= list@.len(),
            texts(kept@) == texts(list@).take(i as int).filter(is_not(except@)),
        decreases list@.len() - i,
    {
        proof {
            reveal(Seq::filter);
            let next = texts(list@).take(i as int + 1);
            assert(next.drop_last() =~= texts(list@).take(i as int));
            assert(next.last() == list@[i as int]@);
        }
        if list[i] != *except {
            let ghost before = kept@;
            kept.push(list[i].clone());
            assert(texts(kept@) =~= texts(before).push(list@[i as int]@));
        }
        i = i + 1;
    }
    assert(texts(list@).take(i as int) =~= texts(list@));
    kept
}

/// The strings of a list that are among `connections`.
fn those_among(list: &Vec<String>, connections: &Vec<String>) -> (kept: Vec<String>)
    ensures
        texts(kept@) == texts(list@).filter(is_among(texts(connections@))),
{
    let mut kept: Vec<String> = Vec::new();
    let mut i: usize = 0;
    proof {
        reveal(Seq::filter);
        assert(texts(list@).take(0) =~= Seq::<Seq<char>>::empty());
        assert(texts(kept@) =~= Seq::<Seq<char>>::empty());
    }
    while i < list.len()
        invariant
            i <= list@.len(),
            texts(kept@) == texts(list@).take(i as int).filter(is_among(texts(connections@))),
        decreases list@.len() - i,
    {
        proof {
            reveal(Seq::filter);
            let next = texts(list@).take(i as int + 1);
            assert(next.drop_last() =~= texts(list@).take(i as int));
            assert(next.last() == list@[i as int]@);
        }
        if is_listed(connections, &list[i]) {
            let ghost before = kept@;
            kept.push(list[i].clone());
            assert(texts(kept@) =~= texts(before).push(list@[i as int]@));
        }
        i = i + 1;
    }
    assert(texts(list@).take(i as int) =~= texts(list@));
    kept
}

/// A copy of a list of strings.
fn copy_of(list: &Vec<String>) -> (copy: Vec<String>)
    ensures
        texts(copy@) == texts(list@),
{
    let mut copy: Vec<String> = Vec::new();
    let mut i: usize = 0;
    while i < list.len()
        invariant
            i <= list@.len(),
            texts(copy@) == texts(list@).take(i as int),
        decreases list@.len() - i,
    {
        let ghost before = copy@;
        copy.push(list[i].clone());
        assert(texts(copy@) =~= texts(before).push(list@[i as int]@));
        assert(texts(copy@) =~= texts(list@).take(i as int + 1));
        i = i + 1;
    }
    assert(texts(list@).take(i as int) =~= texts(list@));
    copy
}

/// Works out what a command comes to, given the connections that are open
/// at this moment.
pub fn process_command(connections: &Vec<String>, command: ChatServerResponseCommand) -> (delivery:
    Delivery)
    ensures
        delivery@ == planned(texts(connections@), command@),
{
    match command {
        ChatServerResponseCommand::SendToAll(message) => Delivery::Send(
            copy_of(connections),
            message,
        ),
        ChatServerResponseCommand::SendToAllExcept(connection_id_exception, message) => {
            if connections.len() == 1 && connections[0] == connection_id_exception {
                assert(texts(connections@) =~= seq![connection_id_exception@]);
                Delivery::Nothing
            } else {
                assert(texts(connections@) != seq![connection_id_exception@]) by {
                    if texts(connections@) == seq![connection_id_exception@] {
                        assert(texts(connections@).len() == 1);
                        assert(texts(connections@)[0] == connection_id_exception@);
                    }
                }
                Delivery::Send(all_but(connections, &connection_id_exception), message)
            }
        },
        ChatServerResponseCommand::SendToSome(connection_ids, message) => Delivery::Send(
            those_among(&connection_ids, connections),
            message,
        ),
        ChatServerResponseCommand::DisconnectUser(connection_id) => Delivery::Disconnect(
            connection_id,
        ),
    }
}

} // verus!
