//! The remote store as the durable queues see it: the commands they send,
//! the replies they take, and what a working store does with each command.
//!
//! A FIFO or LIFO queue is a list under its key; a priority queue is a
//! sorted set under its key, each member with an integer score.

use vstd::prelude::*;

verus! {

/// One request to the store. The holder of the connection sends it and hands
/// back the store's reply.
#[derive(Debug, PartialEq, Eq)]
pub enum StoreCommand {
    /// Put `payload` at the left end of the list under `key`.
    ListPushLeft { key: String, payload: Vec<u8> },
    /// Take the rightmost item off the list under `key`.
    ListPopRight { key: String },
    /// Take the leftmost item off the list under `key`.
    ListPopLeft { key: String },
    /// Ask how long the list under `key` is.
    ListLength { key: String },
    /// Remove `key` and all that is stored under it.
    Delete { key: String },
    /// Put `member` with `score` into the sorted set under `key`.
    SortedSetAdd { key: String, score: i32, member: Vec<u8> },
    /// Ask how many members the sorted set under `key` has.
    SortedSetCardinality { key: String },
    /// Read the member of rank 0 of the sorted set under `key` and remove
    /// it, as one batch that no other client's command can come between.
    SortedSetTakeLowest { key: String },
}

/// What the store answered.
#[derive(Debug, PartialEq, Eq)]
pub enum StoreReply {
    /// The command was carried out; there is nothing to hand back.
    Done,
    /// A number of items.
    Length(usize),
    /// The bytes of one item.
    Payload(Vec<u8>),
    /// There was no item to hand back.
    Missing,
    /// The store, or the way to it, failed; the text says how.
    Failed(String),
}

/// A command as a value of the model.
pub enum StoreCommandView {
    ListPushLeft { key: Seq<char>, payload: Seq<u8> },
    ListPopRight { key: Seq<char> },
    ListPopLeft { key: Seq<char> },
    ListLength { key: Seq<char> },
    Delete { key: Seq<char> },
    SortedSetAdd { key: Seq<char>, score: int, member: Seq<u8> },
    SortedSetCardinality { key: Seq<char> },
    SortedSetTakeLowest { key: Seq<char> },
}

/// A reply as a value of the model.
pub enum StoreReplyView {
    Done,
    Length(nat),
    Payload(Seq<u8>),
    Missing,
    Failed(Seq<char>),
}

impl View for StoreCommand {
    type V = StoreCommandView;

    open spec fn view(&self) -> StoreCommandView {
        match *self {
            StoreCommand::ListPushLeft { key, payload } => StoreCommandView::ListPushLeft {
                key: key@,
                payload: payload@,
            },
            StoreCommand::ListPopRight { key } => StoreCommandView::ListPopRight { key: key@ },
            StoreCommand::ListPopLeft { key } => StoreCommandView::ListPopLeft { key: key@ },
            StoreCommand::ListLength { key } => StoreCommandView::ListLength { key: key@ },
            StoreCommand::Delete { key } => StoreCommandView::Delete { key: key@ },
            StoreCommand::SortedSetAdd { key, score, member } => StoreCommandView::SortedSetAdd {
                key: key@,
                score: score as int,
                member: member@,
            },
            StoreCommand::SortedSetCardinality { key } => StoreCommandView::SortedSetCardinality {
                key: key@,
            },
            StoreCommand::SortedSetTakeLowest { key } => StoreCommandView::SortedSetTakeLowest {
                key: key@,
            },
        }
    }
}

impl View for StoreReply {
    type V = StoreReplyView;

    open spec fn view(&self) -> StoreReplyView {
        match *self {
            StoreReply::Done => StoreReplyView::Done,
            StoreReply::Length(n) => StoreReplyView::Length(n as nat),
            StoreReply::Payload(bytes) => StoreReplyView::Payload(bytes@),
            StoreReply::Missing => StoreReplyView::Missing,
            StoreReply::Failed(text) => StoreReplyView::Failed(text@),
        }
    }
}

/// Whether `command` is one that a list answers.
pub open spec fn is_list_command(command: StoreCommandView) -> bool {
    command is ListPushLeft || command is ListPopRight || command is ListPopLeft
        || command is ListLength || command is Delete
}

/// Whether `command` is one that a sorted set answers.
pub open spec fn is_sorted_set_command(command: StoreCommandView) -> bool {
    command is SortedSetAdd || command is SortedSetCardinality || command is SortedSetTakeLowest
        || command is Delete
}

/// The list under a key after the store has carried out `command` on that
/// key. The list is written left to right; no key means the empty list.
pub open spec fn list_after(list: Seq<Seq<u8>>, command: StoreCommandView) -> Seq<Seq<u8>> {
    match command {
        StoreCommandView::ListPushLeft { payload, .. } => seq![payload] + list,
        StoreCommandView::ListPopRight { .. } => if list.len() > 0 {
            list.drop_last()
        } else {
            list
        },
        StoreCommandView::ListPopLeft { .. } => if list.len() > 0 {
            list.drop_first()
        } else {
            list
        },
        StoreCommandView::Delete { .. } => Seq::empty(),
        _ => list,
    }
}

/// What the store answers to the list command `command` when `list` is
/// under its key.
pub open spec fn list_reply(list: Seq<Seq<u8>>, command: StoreCommandView) -> StoreReplyView
    recommends
        is_list_command(command),
{
    match command {
        StoreCommandView::ListPushLeft { .. } => StoreReplyView::Done,
        StoreCommandView::ListPopRight { .. } => if list.len() > 0 {
            StoreReplyView::Payload(list.last())
        } else {
            StoreReplyView::Missing
        },
        StoreCommandView::ListPopLeft { .. } => if list.len() > 0 {
            StoreReplyView::Payload(list.first())
        } else {
            StoreReplyView::Missing
        },
        StoreCommandView::ListLength { .. } => StoreReplyView::Length(list.len()),
        StoreCommandView::Delete { .. } => StoreReplyView::Done,
        _ => arbitrary(),
    }
}

/// The list after `command` was carried out `times` times in a row.
pub open spec fn list_after_repeated(
    list: Seq<Seq<u8>>,
    command: StoreCommandView,
    times: nat,
) -> Seq<Seq<u8>>
    decreases times,
{
    if times == 0 {
        list
    } else {
        list_after_repeated(list_after(list, command), command, (times - 1) as nat)
    }
}

/// Byte strings in dictionary order: `a` is `b` or comes before it.
pub open spec fn bytes_precede(a: Seq<u8>, b: Seq<u8>) -> bool
    decreases a.len(),
{
    if a.len() == 0 {
        true
    } else if b.len() == 0 {
        false
    } else if a[0] != b[0] {
        a[0] < b[0]
    } else {
        bytes_precede(a.drop_first(), b.drop_first())
    }
}

/// The order in which a sorted set serves its members: lower score first,
/// and among equal scores the member whose bytes come first.
pub open spec fn served_first(set: Map<Seq<u8>, int>, a: Seq<u8>, b: Seq<u8>) -> bool {
    set[a] < set[b] || (set[a] == set[b] && bytes_precede(a, b))
}

/// `member` is in `set`, and no member is served before it.
pub open spec fn is_lowest(set: Map<Seq<u8>, int>, member: Seq<u8>) -> bool {
    &&& set.dom().contains(member)
    &&& forall|other: Seq<u8>| #[trigger]
        set.dom().contains(other) ==> served_first(set, member, other)
}

/// The member of rank 0: the one that a non-empty sorted set serves next.
pub open spec fn lowest(set: Map<Seq<u8>, int>) -> Seq<u8> {
    choose|member: Seq<u8>| is_lowest(set, member)
}

/// The sorted set under a key, as a map from member to score, after the
/// store has carried out `command` on that key. No key means the empty set.
pub open spec fn sorted_set_after(set: Map<Seq<u8>, int>, command: StoreCommandView) -> Map<
    Seq<u8>,
    int,
> {
    match command {
        StoreCommandView::SortedSetAdd { score, member, .. } => set.insert(member, score),
        StoreCommandView::SortedSetTakeLowest { .. } => if set.dom().len() > 0 {
            set.remove(lowest(set))
        } else {
            set
        },
        StoreCommandView::Delete { .. } => Map::empty(),
        _ => set,
    }
}

/// What the store answers to the sorted-set command `command` when `set`
/// is under its key.
pub open spec fn sorted_set_reply(
    set: Map<Seq<u8>, int>,
    command: StoreCommandView,
) -> StoreReplyView
    recommends
        is_sorted_set_command(command),
        set.dom().finite(),
{
    match command {
        StoreCommandView::SortedSetAdd { .. } => StoreReplyView::Done,
        StoreCommandView::SortedSetCardinality { .. } => StoreReplyView::Length(set.dom().len()),
        StoreCommandView::SortedSetTakeLowest { .. } => if set.dom().len() > 0 {
            StoreReplyView::Payload(lowest(set))
        } else {
            StoreReplyView::Missing
        },
        StoreCommandView::Delete { .. } => StoreReplyView::Done,
        _ => arbitrary(),
    }
}

/// Dictionary order relates any two byte strings one way or the other.
pub proof fn lemma_bytes_precede_total(a: Seq<u8>, b: Seq<u8>)
    ensures
        bytes_precede(a, b) || bytes_precede(b, a),
    decreases a.len(),
{
    if a.len() > 0 && b.len() > 0 && a[0] == b[0] {
        lemma_bytes_precede_total(a.drop_first(), b.drop_first());
    }
}

/// Two byte strings that precede each other are the same.
pub proof fn lemma_bytes_precede_antisymmetric(a: Seq<u8>, b: Seq<u8>)
    requires
        bytes_precede(a, b),
        bytes_precede(b, a),
    ensures
        a == b,
    decreases a.len(),
{
    if a.len() == 0 || b.len() == 0 {
        assert(a =~= b);
    } else {
        lemma_bytes_precede_antisymmetric(a.drop_first(), b.drop_first());
        assert(a =~= seq![a[0]] + a.drop_first());
        assert(b =~= seq![b[0]] + b.drop_first());
    }
}

/// Dictionary order is transitive.
pub proof fn lemma_bytes_precede_transitive(a: Seq<u8>, b: Seq<u8>, c: Seq<u8>)
    requires
        bytes_precede(a, b),
        bytes_precede(b, c),
    ensures
        bytes_precede(a, c),
    decreases a.len(),
{
    if a.len() > 0 && b.len() > 0 && c.len() > 0 && a[0] == b[0] && b[0] == c[0] {
        lemma_bytes_precede_transitive(a.drop_first(), b.drop_first(), c.drop_first());
    }
}

/// Among finitely many members, one is served before all the others.
proof fn lemma_some_member_first(set: Map<Seq<u8>, int>, members: Set<Seq<u8>>) -> (first: Seq<
    u8,
>)
    requires
        members.finite(),
        members.len() > 0,
    ensures
        members.contains(first),
        forall|other: Seq<u8>| #[trigger]
            members.contains(other) ==> served_first(set, first, other),
    decreases members.len(),
{
    let x = members.choose();
    let rest = members.remove(x);
    if rest.len() == 0 {
        assert forall|other: Seq<u8>| #[trigger] members.contains(other) implies served_first(
            set,
            x,
            other,
        ) by {
            if other != x {
                assert(rest.contains(other));
            }
            lemma_bytes_precede_total(x, x);
        }
        x
    } else {
        let least = lemma_some_member_first(set, rest);
        lemma_bytes_precede_total(x, least);
        if served_first(set, x, least) {
            assert forall|other: Seq<u8>| #[trigger] members.contains(other) implies served_first(
                set,
                x,
                other,
            ) by {
                if other == x {
                    lemma_bytes_precede_total(x, x);
                } else {
                    assert(rest.contains(other));
                    if set[x] == set[least] && set[least] == set[other] {
                        lemma_bytes_precede_transitive(x, least, other);
                    }
                }
            }
            x
        } else {
            assert forall|other: Seq<u8>| #[trigger] members.contains(other) implies served_first(
                set,
                least,
                other,
            ) by {
                if other != x {
                    assert(rest.contains(other));
                }
            }
            least
        }
    }
}

/// A non-empty finite sorted set has a member of rank 0, and `lowest` is it.
pub proof fn lemma_lowest_is_lowest(set: Map<Seq<u8>, int>)
    requires
        set.dom().finite(),
        set.dom().len() > 0,
    ensures
        is_lowest(set, lowest(set)),
{
    let first = lemma_some_member_first(set, set.dom());
    assert(is_lowest(set, first));
}

/// The member of rank 0 is the only one that no member is served before.
pub proof fn lemma_lowest_is_unique(set: Map<Seq<u8>, int>, member: Seq<u8>)
    requires
        is_lowest(set, member),
    ensures
        lowest(set) == member,
{
    let chosen = lowest(set);
    assert(is_lowest(set, chosen));
    assert(served_first(set, member, chosen));
    assert(served_first(set, chosen, member));
    lemma_bytes_precede_antisymmetric(member, chosen);
}

} // verus!
