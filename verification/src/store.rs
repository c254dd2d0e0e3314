//! What the remote store does with a command: the meaning of the operations.
//!
//! The store is a map from keys to sequences and sets of encoded elements.
//! [`step`] gives, for the contents of a store and a command, the contents
//! afterwards and the store's answer. A key holds either a sequence or a set,
//! never an empty one: a key whose last element leaves is gone, and a key that
//! is not there reads as empty. A sequence and a set hold at most
//! [`CAPACITY`] elements.
use vstd::prelude::*;
use crate::command::{CommandView, End, Place};

verus! {

/// What is stored under one key.
pub ghost enum Stored {
    /// A sequence, from its head at index 0 to its tail.
    Sequence(Seq<Seq<u8>>),
    /// A set of unique members.
    Members(Set<Seq<u8>>),
}

/// The contents of a store.
pub type Contents = Map<Seq<char>, Stored>;

/// Why the store refused a command.
#[derive(Clone, Copy, Debug, PartialEq, Eq, Structural)]
pub enum Fault {
    /// The key holds a value of another kind than the command is for.
    WrongKind,
    /// The command needs a key that exists, and the key does not.
    NoSuchKey,
    /// The index lies outside the sequence.
    OutOfRange,
    /// The sequence or the set holds as many elements as it can.
    Full,
}

/// The mathematical value of an answer of the store.
pub ghost enum ReplyView {
    /// The command was carried out, and there is nothing to report.
    Done,
    /// A count, a length, or a code.
    Integer(int),
    /// One element, or none.
    Item(Option<Seq<u8>>),
    /// Elements in the order of their sequence.
    Items(Seq<Seq<u8>>),
    /// The members of a set, which have no order.
    Members(Set<Seq<u8>>),
    /// The command was refused, and the store is unchanged.
    Fault(Fault),
}

/// The largest number of elements that a sequence or a set can hold.
pub const CAPACITY: u32 = 4294967295u32;

/// What is stored under `key`, or `None` where the key is not there.
pub open spec fn stored_at(store: Contents, key: Seq<char>) -> Option<Stored> {
    if store.dom().contains(key) {
        Some(store[key])
    } else {
        None
    }
}

/// The store with `stored` under `key`, or without the key where `stored`
/// is `None`.
pub open spec fn with_stored(store: Contents, key: Seq<char>, stored: Option<Stored>) -> Contents {
    match stored {
        Some(value) => store.insert(key, value),
        None => store.remove(key),
    }
}

/// The sequence that `stored` stands for, empty where nothing is stored;
/// `None` where a set is stored.
pub open spec fn as_sequence(stored: Option<Stored>) -> Option<Seq<Seq<u8>>> {
    match stored {
        None => Some(Seq::empty()),
        Some(Stored::Sequence(items)) => Some(items),
        Some(Stored::Members(_)) => None,
    }
}

/// The set that `stored` stands for, empty where nothing is stored; `None`
/// where a sequence is stored.
pub open spec fn as_members(stored: Option<Stored>) -> Option<Set<Seq<u8>>> {
    match stored {
        None => Some(Set::empty()),
        Some(Stored::Members(members)) => Some(members),
        Some(Stored::Sequence(_)) => None,
    }
}

/// The sequence under `key`, empty where the key is not there; `None` where
/// the key holds a set.
pub open spec fn sequence_at(store: Contents, key: Seq<char>) -> Option<Seq<Seq<u8>>> {
    as_sequence(stored_at(store, key))
}

/// The set under `key`, empty where the key is not there; `None` where the
/// key holds a sequence.
pub open spec fn members_at(store: Contents, key: Seq<char>) -> Option<Set<Seq<u8>>> {
    as_members(stored_at(store, key))
}

/// What is stored for the sequence `items`: nothing where it is empty.
pub open spec fn sequence_stored(items: Seq<Seq<u8>>) -> Option<Stored> {
    if items.len() == 0 {
        None
    } else {
        Some(Stored::Sequence(items))
    }
}

/// What is stored for the set `members`: nothing where it is empty.
pub open spec fn members_stored(members: Set<Seq<u8>>) -> Option<Stored> {
    if members.len() == 0 {
        None
    } else {
        Some(Stored::Members(members))
    }
}

/// Whether `stored` is a sequence or a finite set that is not empty and
/// within the capacity.
pub open spec fn stored_well_formed(stored: Stored) -> bool {
    match stored {
        Stored::Sequence(items) => 0 < items.len() <= CAPACITY,
        Stored::Members(members) => members.finite() && 0 < members.len() <= CAPACITY,
    }
}

/// Whether every key of the store holds a sequence or a finite set that is
/// not empty and within the capacity.
pub open spec fn well_formed(store: Contents) -> bool {
    forall|key: Seq<char>| #[trigger] store.dom().contains(key) ==> stored_well_formed(store[key])
}

/// The position that `index` names in a sequence of `len` elements: a
/// negative index counts from the tail, so that -1 is the last element. The
/// position may lie outside the sequence.
pub open spec fn position(index: i64, len: int) -> int {
    if index >= 0 {
        index as int
    } else {
        len + index
    }
}

/// The positions from `start` to `stop`, both included, that lie in a
/// sequence of `len` elements, as a first position and the position behind
/// the last. A `start` in front of the head stands for the head and a `stop`
/// behind the tail for the tail; where `start` lies behind the tail or behind
/// `stop`, there are none.
pub open spec fn window(start: i64, stop: i64, len: int) -> (int, int) {
    let first = if position(start, len) < 0 {
        0
    } else {
        position(start, len)
    };
    let last = position(stop, len);
    if first >= len || first > last {
        (0, 0)
    } else if last >= len {
        (first, len)
    } else {
        (first, last + 1)
    }
}

/// The number of elements of `items` that equal `value`.
pub open spec fn occurrences(items: Seq<Seq<u8>>, value: Seq<u8>) -> nat
    decreases items.len(),
{
    if items.len() == 0 {
        0
    } else if items[0] == value {
        1 + occurrences(items.drop_first(), value)
    } else {
        occurrences(items.drop_first(), value)
    }
}

/// `items` without the first `limit` elements that equal `value`, counted
/// from the head.
pub open spec fn without_first(items: Seq<Seq<u8>>, value: Seq<u8>, limit: nat) -> Seq<Seq<u8>>
    decreases items.len(),
{
    if items.len() == 0 || limit == 0 {
        items
    } else if items[0] == value {
        without_first(items.drop_first(), value, (limit - 1) as nat)
    } else {
        seq![items[0]] + without_first(items.drop_first(), value, limit)
    }
}

/// `items` without the last `limit` elements that equal `value`, counted
/// from the tail.
pub open spec fn without_last(items: Seq<Seq<u8>>, value: Seq<u8>, limit: nat) -> Seq<Seq<u8>>
    decreases items.len(),
{
    if items.len() == 0 || limit == 0 {
        items
    } else if items.last() == value {
        without_last(items.drop_last(), value, (limit - 1) as nat)
    } else {
        without_last(items.drop_last(), value, limit).push(items.last())
    }
}

/// What is left of `items` after the removal of occurrences of `value`: the
/// first `count` of them for a positive `count`, the last `-count` of them
/// for a negative one, and all of them for 0.
pub open spec fn without(items: Seq<Seq<u8>>, count: i64, value: Seq<u8>) -> Seq<Seq<u8>> {
    if count > 0 {
        without_first(items, value, count as nat)
    } else if count < 0 {
        without_last(items, value, (-count) as nat)
    } else {
        without_first(items, value, items.len())
    }
}

/// The position of the first element of `items` that equals `value`, or the
/// length of `items` where there is none.
pub open spec fn first_occurrence(items: Seq<Seq<u8>>, value: Seq<u8>) -> int
    decreases items.len(),
{
    if items.len() == 0 || items[0] == value {
        0
    } else {
        1 + first_occurrence(items.drop_first(), value)
    }
}

/// What is stored and what is answered after a command on the sequence
/// `items`.
pub open spec fn sequence_step(items: Seq<Seq<u8>>, command: CommandView) -> (
    Option<Stored>,
    ReplyView,
) {
    let len = items.len() as int;
    match command {
        CommandView::Push { end, value, .. } => if len >= CAPACITY {
            (sequence_stored(items), ReplyView::Fault(Fault::Full))
        } else {
            (
                sequence_stored(
                    match end {
                        End::Tail => items.push(value),
                        End::Head => items.insert(0, value),
                    },
                ),
                ReplyView::Integer(len + 1),
            )
        },
        CommandView::Pop { end, .. } => if len == 0 {
            (sequence_stored(items), ReplyView::Item(None))
        } else {
            match end {
                End::Tail => (
                    sequence_stored(items.drop_last()),
                    ReplyView::Item(Some(items.last())),
                ),
                End::Head => (sequence_stored(items.remove(0)), ReplyView::Item(Some(items[0]))),
            }
        },
        CommandView::Index { index, .. } => if 0 <= position(index, len) < len {
            (sequence_stored(items), ReplyView::Item(Some(items[position(index, len)])))
        } else {
            (sequence_stored(items), ReplyView::Item(None))
        },
        CommandView::SetIndex { index, value, .. } => if len == 0 {
            (sequence_stored(items), ReplyView::Fault(Fault::NoSuchKey))
        } else if 0 <= position(index, len) < len {
            (sequence_stored(items.update(position(index, len), value)), ReplyView::Done)
        } else {
            (sequence_stored(items), ReplyView::Fault(Fault::OutOfRange))
        },
        CommandView::Range { start, stop, .. } => (
            sequence_stored(items),
            ReplyView::Items(items.subrange(window(start, stop, len).0, window(start, stop, len).1)),
        ),
        CommandView::Trim { start, stop, .. } => (
            sequence_stored(
                items.subrange(window(start, stop, len).0, window(start, stop, len).1),
            ),
            ReplyView::Done,
        ),
        CommandView::Len { .. } => (sequence_stored(items), ReplyView::Integer(len)),
        CommandView::Remove { count, value, .. } => (
            sequence_stored(without(items, count, value)),
            ReplyView::Integer(len - without(items, count, value).len()),
        ),
        CommandView::Insert { place, pivot, value, .. } => if len == 0 {
            (sequence_stored(items), ReplyView::Integer(0))
        } else if first_occurrence(items, pivot) == len {
            (sequence_stored(items), ReplyView::Integer(-1))
        } else if len >= CAPACITY {
            (sequence_stored(items), ReplyView::Fault(Fault::Full))
        } else {
            (
                sequence_stored(
                    items.insert(
                        match place {
                            Place::Before => first_occurrence(items, pivot),
                            Place::After => first_occurrence(items, pivot) + 1,
                        },
                        value,
                    ),
                ),
                ReplyView::Integer(len + 1),
            )
        },
        _ => (sequence_stored(items), ReplyView::Fault(Fault::WrongKind)),
    }
}

/// What is stored and what is answered after a command on the set
/// `members`.
pub open spec fn members_step(members: Set<Seq<u8>>, command: CommandView) -> (
    Option<Stored>,
    ReplyView,
) {
    match command {
        CommandView::SetAdd { member, .. } => if members.contains(member) {
            (members_stored(members), ReplyView::Integer(0))
        } else if members.len() >= CAPACITY {
            (members_stored(members), ReplyView::Fault(Fault::Full))
        } else {
            (members_stored(members.insert(member)), ReplyView::Integer(1))
        },
        CommandView::SetRemove { member, .. } => if members.contains(member) {
            (members_stored(members.remove(member)), ReplyView::Integer(1))
        } else {
            (members_stored(members), ReplyView::Integer(0))
        },
        CommandView::SetContains { member, .. } => if members.contains(member) {
            (members_stored(members), ReplyView::Integer(1))
        } else {
            (members_stored(members), ReplyView::Integer(0))
        },
        CommandView::SetCount { .. } => (
            members_stored(members),
            ReplyView::Integer(members.len() as int),
        ),
        CommandView::SetMembers { .. } => (members_stored(members), ReplyView::Members(members)),
        _ => (members_stored(members), ReplyView::Fault(Fault::WrongKind)),
    }
}

/// Whether a command is one for sets.
pub open spec fn for_members(command: CommandView) -> bool {
    command is SetAdd || command is SetRemove || command is SetContains || command is SetCount
        || command is SetMembers
}

/// What is stored under the key of `command` after it, and the store's
/// answer, where `stored` is what is there before.
///
/// The deletion of a key answers with the number of keys deleted, 0 where
/// the key was not there. A command for sequences on a key that holds a set,
/// and one for sets on a key that holds a sequence, is refused, and so is
/// one that would make a sequence or a set exceed the capacity. A refused
/// command changes nothing.
pub open spec fn stored_step(stored: Option<Stored>, command: CommandView) -> (
    Option<Stored>,
    ReplyView,
) {
    if command is Delete {
        (
            None,
            ReplyView::Integer(
                if stored is Some {
                    1
                } else {
                    0
                },
            ),
        )
    } else if for_members(command) {
        match as_members(stored) {
            Some(members) => members_step(members, command),
            None => (stored, ReplyView::Fault(Fault::WrongKind)),
        }
    } else {
        match as_sequence(stored) {
            Some(items) => sequence_step(items, command),
            None => (stored, ReplyView::Fault(Fault::WrongKind)),
        }
    }
}

/// The contents of the store after `command`, and the store's answer to it:
/// the command acts on what is stored under its key, and on nothing else.
pub open spec fn step(store: Contents, command: CommandView) -> (Contents, ReplyView) {
    let key = command.key();
    let after = stored_step(stored_at(store, key), command);
    (with_stored(store, key, after.0), after.1)
}

/// Whether `answer` is the element, or the absence of one, that `reply`
/// holds.
pub open spec fn carries_item(answer: Option<Vec<u8>>, reply: ReplyView) -> bool {
    match answer {
        Some(item) => reply == ReplyView::Item(Some(item@)),
        None => reply == ReplyView::Item(None),
    }
}

/// The encoded elements of `items`, in their order.
pub open spec fn elements(items: Seq<Vec<u8>>) -> Seq<Seq<u8>> {
    items.map_values(|item: Vec<u8>| item@)
}

/// Whether `answer` holds the elements of `reply`, in their order.
pub open spec fn carries_items(answer: Vec<Vec<u8>>, reply: ReplyView) -> bool {
    reply == ReplyView::Items(elements(answer@))
}

/// Whether `answer` lists the members of `reply`, each once.
pub open spec fn carries_members(answer: Vec<Vec<u8>>, reply: ReplyView) -> bool {
    &&& reply == ReplyView::Members(elements(answer@).to_set())
    &&& elements(answer@).no_duplicates()
}

/// Whether `answer` is the number that `reply` holds.
pub open spec fn carries_integer(answer: int, reply: ReplyView) -> bool {
    reply == ReplyView::Integer(answer)
}

/// The first occurrence lies in the sequence or directly behind it; where it
/// lies in the sequence the element there equals `value`, and no element in
/// front of it does.
pub proof fn lemma_first_occurrence(items: Seq<Seq<u8>>, value: Seq<u8>)
    ensures
        0 <= first_occurrence(items, value) <= items.len(),
        first_occurrence(items, value) < items.len() ==> items[first_occurrence(items, value)]
            == value,
        forall|j: int| 0 <= j < first_occurrence(items, value) ==> items[j] != value,
        first_occurrence(items, value) == items.len() <==> !items.contains(value),
    decreases items.len(),
{
    if items.len() == 0 || items[0] == value {
    } else {
        let rest = items.drop_first();
        lemma_first_occurrence(rest, value);
        let at = first_occurrence(rest, value);
        assert forall|j: int| 0 <= j < at + 1 implies items[j] != value by {
            if j > 0 {
                assert(rest[j - 1] == items[j]);
            }
        }
        if at < rest.len() {
            assert(rest[at] == items[at + 1]);
        }
    }
}

/// No sequence holds a value more often than it has elements.
pub proof fn lemma_occurrences_bound(items: Seq<Seq<u8>>, value: Seq<u8>)
    ensures
        occurrences(items, value) <= items.len(),
    decreases items.len(),
{
    if items.len() > 0 {
        lemma_occurrences_bound(items.drop_first(), value);
    }
}

/// The occurrences of a value can be counted from the tail as well.
pub proof fn lemma_occurrences_from_tail(items: Seq<Seq<u8>>, value: Seq<u8>)
    requires
        items.len() > 0,
    ensures
        occurrences(items, value) == occurrences(items.drop_last(), value) + (if items.last()
            == value {
            1nat
        } else {
            0nat
        }),
    decreases items.len(),
{
    if items.len() == 1 {
        assert(items.drop_first() =~= items.drop_last());
    } else {
        lemma_occurrences_from_tail(items.drop_first(), value);
        assert(items.drop_first().drop_last() =~= items.drop_last().drop_first());
    }
}

/// The number of occurrences that a removal with the limit `limit` takes
/// away: all of them, or `limit` where there are more.
pub open spec fn taken(items: Seq<Seq<u8>>, value: Seq<u8>, limit: nat) -> nat {
    if limit <= occurrences(items, value) {
        limit
    } else {
        occurrences(items, value)
    }
}

/// A removal from the head takes away occurrences of the value and nothing
/// else, as many as the limit allows.
pub proof fn lemma_without_first(items: Seq<Seq<u8>>, value: Seq<u8>, limit: nat)
    ensures
        without_first(items, value, limit).len() == items.len() - taken(items, value, limit),
        occurrences(without_first(items, value, limit), value) == occurrences(items, value)
            - taken(items, value, limit),
    decreases items.len(),
{
    if items.len() == 0 || limit == 0 {
    } else if items[0] == value {
        lemma_without_first(items.drop_first(), value, (limit - 1) as nat);
    } else {
        lemma_without_first(items.drop_first(), value, limit);
        let rest = without_first(items.drop_first(), value, limit);
        assert((seq![items[0]] + rest).drop_first() =~= rest);
    }
}

/// A removal from the tail takes away occurrences of the value and nothing
/// else, as many as the limit allows.
pub proof fn lemma_without_last(items: Seq<Seq<u8>>, value: Seq<u8>, limit: nat)
    ensures
        without_last(items, value, limit).len() == items.len() - taken(items, value, limit),
        occurrences(without_last(items, value, limit), value) == occurrences(items, value) - taken(
            items,
            value,
            limit,
        ),
    decreases items.len(),
{
    if items.len() == 0 || limit == 0 {
    } else {
        lemma_occurrences_from_tail(items, value);
        if items.last() == value {
            lemma_without_last(items.drop_last(), value, (limit - 1) as nat);
        } else {
            lemma_without_last(items.drop_last(), value, limit);
            let rest = without_last(items.drop_last(), value, limit);
            lemma_occurrences_from_tail(rest.push(items.last()), value);
            assert(rest.push(items.last()).drop_last() =~= rest);
        }
    }
}

/// A command leaves a well-formed store well formed: whatever it does to the
/// sequence or the set under its key, the key then holds a sequence or a
/// finite set that is not empty and within the capacity, or is gone.
pub proof fn lemma_step_keeps_well_formed(store: Contents, command: CommandView)
    requires
        well_formed(store),
    ensures
        well_formed(step(store, command).0),
{
    let key = command.key();
    let before = stored_at(store, key);
    let after = stored_step(before, command).0;
    if after is Some {
        if command is Delete {
        } else if for_members(command) {
            if as_members(before) is Some {
                let members = as_members(before).unwrap();
                assert(members.finite());
            }
        } else {
            if as_sequence(before) is Some {
                let items = as_sequence(before).unwrap();
                let len = items.len() as int;
                match command {
                    CommandView::Trim { start, stop, .. } => {
                        assert(0 <= window(start, stop, len).0 <= window(start, stop, len).1
                            <= len);
                    },
                    CommandView::Remove { count, value, .. } => {
                        lemma_occurrences_bound(items, value);
                        if count < 0 {
                            lemma_without_last(items, value, (-count) as nat);
                        } else if count > 0 {
                            lemma_without_first(items, value, count as nat);
                        } else {
                            lemma_without_first(items, value, items.len());
                        }
                    },
                    CommandView::Insert { pivot, .. } => {
                        lemma_first_occurrence(items, pivot);
                    },
                    _ => {},
                }
            }
        }
        assert(stored_well_formed(after.unwrap()));
    }
    let next = step(store, command).0;
    assert forall|k: Seq<char>| #[trigger] next.dom().contains(k) implies stored_well_formed(
        next[k],
    ) by {
        if k != key {
            assert(store.dom().contains(k));
        }
    }
}

} // verus!
