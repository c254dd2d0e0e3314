//! A store in memory that answers commands as the remote store does.
//!
//! [`MemoryStore`] keeps sequences and sets in vectors and carries out each
//! command as [`step`](crate::store::step) says. It stands in for the remote
//! store where none can be reached.
use vstd::prelude::*;
use crate::command::{Command, End, Place};
use crate::store::{
    elements, first_occurrence, for_members, members_step, members_stored, position, sequence_step,
    sequence_stored, step, stored_at, stored_step, stored_well_formed, well_formed, window,
    without_first, without_last, Contents, Fault, ReplyView, Stored, CAPACITY,
};

verus! {

/// An answer of the store.
#[derive(Debug, Clone, PartialEq, Eq)]
pub enum Reply {
    /// The command was carried out, and there is nothing to report.
    Done,
    /// A count, a length, or a code.
    Integer(i64),
    /// One element, or none.
    Item(Option<Vec<u8>>),
    /// Elements in the order of their sequence.
    Items(Vec<Vec<u8>>),
    /// The members of a set, each once, in no order that means anything.
    Members(Vec<Vec<u8>>),
    /// The command was refused, and the store is unchanged.
    Fault(Fault),
}

impl View for Reply {
    type V = ReplyView;

    open spec fn view(&self) -> ReplyView {
        match *self {
            Reply::Done => ReplyView::Done,
            Reply::Integer(n) => ReplyView::Integer(n as int),
            Reply::Item(Some(item)) => ReplyView::Item(Some(item@)),
            Reply::Item(None) => ReplyView::Item(None),
            Reply::Items(items) => ReplyView::Items(elements(items@)),
            Reply::Members(members) => ReplyView::Members(elements(members@).to_set()),
            Reply::Fault(fault) => ReplyView::Fault(fault),
        }
    }
}

impl Reply {
    /// Whether an answer that lists members lists each of them once.
    pub open spec fn distinct(&self) -> bool {
        match *self {
            Reply::Members(members) => elements(members@).no_duplicates(),
            _ => true,
        }
    }
}

/// Whether two encoded elements are the same.
pub fn same_bytes(a: &Vec<u8>, b: &Vec<u8>) -> (same: bool)
    ensures
        same == (a@ == b@),
{
    if a.len() != b.len() {
        return false;
    }
    let mut i: usize = 0;
    while i < a.len()
        invariant
            a.len() == b.len(),
            0 <= i <= a.len(),
            a@.subrange(0, i as int) == b@.subrange(0, i as int),
        decreases a.len() - i,
    {
        if a[i] != b[i] {
            return false;
        }
        assert(a@.subrange(0, i + 1) =~= a@.subrange(0, i as int).push(a@[i as int]));
        assert(b@.subrange(0, i + 1) =~= b@.subrange(0, i as int).push(b@[i as int]));
        i = i + 1;
    }
    assert(a@ =~= a@.subrange(0, a.len() as int));
    assert(b@ =~= b@.subrange(0, b.len() as int));
    true
}

/// A copy of an encoded element.
pub fn copy_bytes(a: &Vec<u8>) -> (copy: Vec<u8>)
    ensures
        copy@ == a@,
{
    let mut copy: Vec<u8> = Vec::new();
    let mut i: usize = 0;
    while i < a.len()
        invariant
            0 <= i <= a.len(),
            copy@ == a@.subrange(0, i as int),
        decreases a.len() - i,
    {
        copy.push(a[i]);
        assert(a@.subrange(0, i + 1) =~= a@.subrange(0, i as int).push(a@[i as int]));
        i = i + 1;
    }
    assert(a@ =~= a@.subrange(0, a.len() as int));
    copy
}

/// The position that `index` names in a sequence of `len` elements, where
/// it lies in the sequence.
fn locate(index: i64, len: usize) -> (at: Option<usize>)
    requires
        len <= CAPACITY,
    ensures
        match at {
            Some(i) => 0 <= position(index, len as int) < len && i == position(index, len as int),
            None => !(0 <= position(index, len as int) < len),
        },
{
    let length: i64 = len as i64;
    let at: i64 = if index >= 0 {
        index
    } else {
        length + index
    };
    if 0 <= at && at < length {
        Some(at as usize)
    } else {
        None
    }
}

/// The positions from `start` to `stop`, both included, that lie in a
/// sequence of `len` elements.
fn bounds(start: i64, stop: i64, len: usize) -> (range: (usize, usize))
    requires
        len <= CAPACITY,
    ensures
        (range.0 as int, range.1 as int) == window(start, stop, len as int),
        range.0 <= range.1 <= len,
{
    let length: i64 = len as i64;
    let low: i64 = if start >= 0 {
        start
    } else {
        length + start
    };
    let first: i64 = if low < 0 {
        0
    } else {
        low
    };
    let last: i64 = if stop >= 0 {
        stop
    } else {
        length + stop
    };
    if first >= length || first > last {
        (0, 0)
    } else if last >= length {
        (first as usize, len)
    } else {
        (first as usize, (last + 1) as usize)
    }
}

/// A copy of the elements of `items` from `first` up to, not including,
/// `end`.
fn copy_range(items: &Vec<Vec<u8>>, first: usize, end: usize) -> (copy: Vec<Vec<u8>>)
    requires
        first <= end <= items.len(),
    ensures
        elements(copy@) == elements(items@).subrange(first as int, end as int),
        copy.len() == end - first,
{
    let mut copy: Vec<Vec<u8>> = Vec::new();
    let mut i: usize = first;
    while i < end
        invariant
            first <= i <= end <= items.len(),
            copy.len() == i - first,
            elements(copy@) == elements(items@).subrange(first as int, i as int),
        decreases end - i,
    {
        let item = copy_bytes(&items[i]);
        let ghost before = copy@;
        copy.push(item);
        assert(elements(copy@) =~= elements(before).push(item@));
        assert(elements(items@).subrange(first as int, i + 1) =~= elements(items@).subrange(
            first as int,
            i as int,
        ).push(items@[i as int]@));
        i = i + 1;
    }
    copy
}

/// Removes from `items` the first `limit` elements that equal `value`,
/// counted from the head.
fn remove_from_head(items: &mut Vec<Vec<u8>>, value: &Vec<u8>, limit: u64)
    ensures
        elements(final(items)@) == without_first(elements(old(items)@), value@, limit as nat),
        final(items).len() <= old(items).len(),
{
    let ghost whole = elements(items@);
    let mut remaining: u64 = limit;
    let mut i: usize = 0;
    proof {
        assert(elements(items@).subrange(0, 0) =~= Seq::<Seq<u8>>::empty());
        assert(elements(items@).subrange(0, items.len() as int) =~= whole);
        assert(Seq::<Seq<u8>>::empty() + without_first(whole, value@, limit as nat)
            =~= without_first(whole, value@, limit as nat));
    }
    while i < items.len() && remaining > 0
        invariant
            i <= items.len() <= old(items).len(),
            without_first(whole, value@, limit as nat) == elements(items@).subrange(0, i as int)
                + without_first(
                elements(items@).subrange(i as int, items.len() as int),
                value@,
                remaining as nat,
            ),
        decreases items.len() - i,
    {
        let ghost before = elements(items@);
        let ghost rest = before.subrange(i as int, items.len() as int);
        if same_bytes(&items[i], value) {
            let ghost len = items.len() as int;
            items.remove(i);
            remaining = remaining - 1;
            proof {
                assert(rest[0] == value@);
                assert(elements(items@) =~= before.remove(i as int));
                assert(elements(items@).subrange(0, i as int) =~= before.subrange(0, i as int));
                assert(elements(items@).subrange(i as int, items.len() as int)
                    =~= rest.drop_first());
            }
        } else {
            proof {
                assert(rest[0] != value@);
                assert(before.subrange(0, i + 1) =~= before.subrange(0, i as int) + seq![rest[0]]);
                assert(before.subrange(i + 1, items.len() as int) =~= rest.drop_first());
                assert((before.subrange(0, i as int) + seq![rest[0]]) + without_first(
                    rest.drop_first(),
                    value@,
                    remaining as nat,
                ) =~= before.subrange(0, i as int) + (seq![rest[0]] + without_first(
                    rest.drop_first(),
                    value@,
                    remaining as nat,
                )));
            }
            i = i + 1;
        }
    }
    proof {
        let all = elements(items@);
        let rest = all.subrange(i as int, items.len() as int);
        assert(without_first(rest, value@, remaining as nat) == rest);
        assert(all.subrange(0, i as int) + rest =~= all);
    }
}

/// Removes from `items` the last `limit` elements that equal `value`,
/// counted from the tail.
fn remove_from_tail(items: &mut Vec<Vec<u8>>, value: &Vec<u8>, limit: u64)
    ensures
        elements(final(items)@) == without_last(elements(old(items)@), value@, limit as nat),
        final(items).len() <= old(items).len(),
{
    let ghost whole = elements(items@);
    let mut remaining: u64 = limit;
    let mut i: usize = items.len();
    proof {
        assert(elements(items@).subrange(items.len() as int, items.len() as int)
            =~= Seq::<Seq<u8>>::empty());
        assert(elements(items@).subrange(0, items.len() as int) =~= whole);
        assert(without_last(whole, value@, limit as nat) + Seq::<Seq<u8>>::empty()
            =~= without_last(whole, value@, limit as nat));
    }
    while i > 0 && remaining > 0
        invariant
            i <= items.len() <= old(items).len(),
            without_last(whole, value@, limit as nat) == without_last(
                elements(items@).subrange(0, i as int),
                value@,
                remaining as nat,
            ) + elements(items@).subrange(i as int, items.len() as int),
        decreases i,
    {
        let ghost before = elements(items@);
        let ghost front = before.subrange(0, i as int);
        let ghost back = before.subrange(i as int, items.len() as int);
        if same_bytes(&items[i - 1], value) {
            items.remove(i - 1);
            remaining = remaining - 1;
            proof {
                assert(front.last() == value@);
                assert(elements(items@) =~= before.remove(i - 1));
                assert(elements(items@).subrange(0, i - 1) =~= front.drop_last());
                assert(elements(items@).subrange(i - 1, items.len() as int) =~= back);
            }
        } else {
            proof {
                assert(front.last() != value@);
                assert(before.subrange(0, i - 1) =~= front.drop_last());
                assert(before.subrange(i - 1, items.len() as int) =~= seq![front.last()] + back);
                assert(without_last(front.drop_last(), value@, remaining as nat).push(
                    front.last(),
                ) + back =~= without_last(front.drop_last(), value@, remaining as nat) + (
                seq![front.last()] + back));
            }
        }
        i = i - 1;
    }
    proof {
        let all = elements(items@);
        let front = all.subrange(0, i as int);
        assert(without_last(front, value@, remaining as nat) == front);
        assert(front + all.subrange(i as int, items.len() as int) =~= all);
    }
}

/// The position of the first element of `items` that equals `value`, or the
/// length of `items` where there is none.
fn find_first(items: &Vec<Vec<u8>>, value: &Vec<u8>) -> (at: usize)
    ensures
        at == first_occurrence(elements(items@), value@),
        at <= items.len(),
        at < items.len() ==> elements(items@)[at as int] == value@,
        forall|j: int| 0 <= j < at ==> elements(items@)[j] != value@,
{
    let mut i: usize = 0;
    proof {
        assert(elements(items@).subrange(0, items.len() as int) =~= elements(items@));
    }
    while i < items.len()
        invariant
            i <= items.len(),
            first_occurrence(elements(items@), value@) == i + first_occurrence(
                elements(items@).subrange(i as int, items.len() as int),
                value@,
            ),
            forall|j: int| 0 <= j < i ==> elements(items@)[j] != value@,
        decreases items.len() - i,
    {
        let ghost rest = elements(items@).subrange(i as int, items.len() as int);
        if same_bytes(&items[i], value) {
            assert(rest[0] == value@);
            return i;
        }
        proof {
            assert(rest[0] != value@);
            assert(elements(items@).subrange(i + 1, items.len() as int) =~= rest.drop_first());
        }
        i = i + 1;
    }
    i
}

/// Carries out a command on the set whose members are `members`, each once,
/// and returns the members afterwards with the answer.
fn members_apply(members: Vec<Vec<u8>>, command: &Command) -> (after: (Vec<Vec<u8>>, Reply))
    requires
        members.len() <= CAPACITY,
        elements(members@).no_duplicates(),
    ensures
        after.0.len() <= CAPACITY,
        elements(after.0@).no_duplicates(),
        after.1.distinct(),
        (members_stored(elements(after.0@).to_set()), after.1@) == members_step(
            elements(members@).to_set(),
            command@,
        ),
{
    let mut members = members;
    let ghost before = elements(members@);
    let len: usize = members.len();
    proof {
        before.unique_seq_to_set();
    }
    match command {
        Command::SetAdd { member, .. } => {
            let at = find_first(&members, member);
            if at < len {
                assert(before.contains(member@));
                (members, Reply::Integer(0))
            } else if len >= CAPACITY as usize {
                (members, Reply::Fault(Fault::Full))
            } else {
                members.push(copy_bytes(member));
                proof {
                    let now = elements(members@);
                    assert(now =~= before.push(member@));
                    assert(!before.contains(member@));
                    assert(now.to_set() =~= before.to_set().insert(member@)) by {
                        assert forall|x: Seq<u8>| now.to_set().contains(x) implies before.to_set().insert(
                            member@,
                        ).contains(x) by {
                            let j = choose|j: int| 0 <= j < now.len() && now[j] == x;
                            if j < before.len() {
                                assert(before[j] == x);
                            }
                        }
                        assert forall|x: Seq<u8>|
                            before.to_set().insert(member@).contains(x) implies now.to_set().contains(
                            x,
                        ) by {
                            if x == member@ {
                                assert(now[before.len() as int] == x);
                            } else {
                                let j = choose|j: int| 0 <= j < before.len() && before[j] == x;
                                assert(now[j] == x);
                            }
                        }
                    }
                    now.unique_seq_to_set();
                }
                (members, Reply::Integer(1))
            }
        },
        Command::SetRemove { member, .. } => {
            let at = find_first(&members, member);
            if at < len {
                members.remove(at);
                proof {
                    let now = elements(members@);
                    assert(now =~= before.remove(at as int));
                    assert(before.contains(member@));
                    assert(now.to_set() =~= before.to_set().remove(member@)) by {
                        assert forall|x: Seq<u8>| now.to_set().contains(x) implies before.to_set().remove(
                            member@,
                        ).contains(x) by {
                            let j = choose|j: int| 0 <= j < now.len() && now[j] == x;
                            if j < at {
                                assert(before[j] == x);
                            } else {
                                assert(before[j + 1] == x);
                            }
                        }
                        assert forall|x: Seq<u8>|
                            before.to_set().remove(member@).contains(x) implies now.to_set().contains(
                            x,
                        ) by {
                            let j = choose|j: int| 0 <= j < before.len() && before[j] == x;
                            if j < at {
                                assert(now[j] == x);
                            } else {
                                assert(now[j - 1] == x);
                            }
                        }
                    }
                    now.unique_seq_to_set();
                }
                (members, Reply::Integer(1))
            } else {
                assert(!before.contains(member@));
                (members, Reply::Integer(0))
            }
        },
        Command::SetContains { member, .. } => {
            let at = find_first(&members, member);
            if at < len {
                assert(before.contains(member@));
                (members, Reply::Integer(1))
            } else {
                assert(!before.contains(member@));
                (members, Reply::Integer(0))
            }
        },
        Command::SetCount { .. } => (members, Reply::Integer(len as i64)),
        Command::SetMembers { .. } => {
            let found = copy_range(&members, 0, len);
            assert(elements(found@) =~= before);
            (members, Reply::Members(found))
        },
        _ => (members, Reply::Fault(Fault::WrongKind)),
    }
}

/// Carries out a command on the sequence `items` and returns the sequence
/// afterwards with the answer.
fn sequence_apply(items: Vec<Vec<u8>>, command: &Command) -> (after: (Vec<Vec<u8>>, Reply))
    requires
        items.len() <= CAPACITY,
    ensures
        after.0.len() <= CAPACITY,
        after.1.distinct(),
        (sequence_stored(elements(after.0@)), after.1@) == sequence_step(
            elements(items@),
            command@,
        ),
{
    let mut items = items;
    let ghost before = elements(items@);
    let len: usize = items.len();
    match command {
        Command::Push { end, value, .. } => {
            if len >= CAPACITY as usize {
                (items, Reply::Fault(Fault::Full))
            } else {
                let item = copy_bytes(value);
                match end {
                    End::Tail => {
                        items.push(item);
                        assert(elements(items@) =~= before.push(value@));
                    },
                    End::Head => {
                        items.insert(0, item);
                        assert(elements(items@) =~= before.insert(0, value@));
                    },
                }
                (items, Reply::Integer(len as i64 + 1))
            }
        },
        Command::Pop { end, .. } => {
            if len == 0 {
                (items, Reply::Item(None))
            } else {
                match end {
                    End::Tail => {
                        let item = items.pop().unwrap();
                        assert(elements(items@) =~= before.drop_last());
                        (items, Reply::Item(Some(item)))
                    },
                    End::Head => {
                        let item = items.remove(0);
                        assert(elements(items@) =~= before.remove(0));
                        (items, Reply::Item(Some(item)))
                    },
                }
            }
        },
        Command::Index { index, .. } => {
            match locate(*index, len) {
                Some(at) => {
                    let item = copy_bytes(&items[at]);
                    (items, Reply::Item(Some(item)))
                },
                None => (items, Reply::Item(None)),
            }
        },
        Command::SetIndex { index, value, .. } => {
            if len == 0 {
                (items, Reply::Fault(Fault::NoSuchKey))
            } else {
                match locate(*index, len) {
                    Some(at) => {
                        items[at] = copy_bytes(value);
                        assert(elements(items@) =~= before.update(at as int, value@));
                        (items, Reply::Done)
                    },
                    None => (items, Reply::Fault(Fault::OutOfRange)),
                }
            }
        },
        Command::Range { start, stop, .. } => {
            let (first, end) = bounds(*start, *stop, len);
            let found = copy_range(&items, first, end);
            (items, Reply::Items(found))
        },
        Command::Trim { start, stop, .. } => {
            let (first, end) = bounds(*start, *stop, len);
            let kept = copy_range(&items, first, end);
            (kept, Reply::Done)
        },
        Command::Len { .. } => (items, Reply::Integer(len as i64)),
        Command::Remove { count, value, .. } => {
            if *count > 0 {
                remove_from_head(&mut items, value, *count as u64);
            } else if *count < 0 {
                let magnitude: u64 = ((-(*count + 1)) as u64) + 1;
                remove_from_tail(&mut items, value, magnitude);
            } else {
                remove_from_head(&mut items, value, len as u64);
            }
            let left: usize = items.len();
            (items, Reply::Integer((len - left) as i64))
        },
        Command::Insert { place, pivot, value, .. } => {
            let at = find_first(&items, pivot);
            if len == 0 {
                (items, Reply::Integer(0))
            } else if at == len {
                (items, Reply::Integer(-1))
            } else if len >= CAPACITY as usize {
                (items, Reply::Fault(Fault::Full))
            } else {
                let item = copy_bytes(value);
                match place {
                    Place::Before => {
                        items.insert(at, item);
                        assert(elements(items@) =~= before.insert(at as int, value@));
                    },
                    Place::After => {
                        items.insert(at + 1, item);
                        assert(elements(items@) =~= before.insert(at + 1, value@));
                    },
                }
                (items, Reply::Integer(len as i64 + 1))
            }
        },
        _ => (items, Reply::Fault(Fault::WrongKind)),
    }
}

/// What the store keeps under one key.
enum Entry {
    /// A sequence, from its head to its tail.
    Sequence(Vec<Vec<u8>>),
    /// The members of a set, each once.
    Members(Vec<Vec<u8>>),
}

impl Entry {
    /// The mathematical value of the entry.
    spec fn stored(&self) -> Stored {
        match *self {
            Entry::Sequence(items) => Stored::Sequence(elements(items@)),
            Entry::Members(members) => Stored::Members(elements(members@).to_set()),
        }
    }

    /// Whether the entry is not empty and within the capacity, and a set
    /// holds each member once.
    spec fn wf(&self) -> bool {
        match *self {
            Entry::Sequence(items) => 0 < items.len() <= CAPACITY,
            Entry::Members(members) => 0 < members.len() <= CAPACITY && elements(
                members@,
            ).no_duplicates(),
        }
    }

    /// A well-formed entry stands for a well-formed value.
    proof fn lemma_stored_well_formed(&self)
        requires
            self.wf(),
        ensures
            stored_well_formed(self.stored()),
    {
        match *self {
            Entry::Sequence(items) => {
                assert(elements(items@).len() == items.len());
            },
            Entry::Members(members) => {
                elements(members@).unique_seq_to_set();
            },
        }
    }
}

/// A store in memory.
pub struct MemoryStore {
    keys: Vec<String>,
    entries: Vec<Entry>,
}

impl View for MemoryStore {
    type V = Contents;

    closed spec fn view(&self) -> Contents {
        Map::new(
            |key: Seq<char>| exists|i: int| self.holds_at(key, i),
            |key: Seq<char>| self.entries[choose|i: int| self.holds_at(key, i)].stored(),
        )
    }
}

impl MemoryStore {
    /// Whether `key` is the key in slot `i`.
    spec fn holds_at(&self, key: Seq<char>, i: int) -> bool {
        0 <= i < self.keys.len() && self.keys[i]@ == key
    }

    /// Whether the store is consistent: each key stands once, and each entry
    /// is well formed.
    pub closed spec fn wf(&self) -> bool {
        &&& self.keys.len() == self.entries.len()
        &&& forall|i: int, j: int|
            0 <= i < j < self.keys.len() ==> self.keys[i]@ != self.keys[j]@
        &&& forall|i: int| 0 <= i < self.entries.len() ==> (#[trigger] self.entries[i]).wf()
    }

    /// What the view holds under the key of a slot is the entry of the slot.
    proof fn lemma_slot(&self, i: int)
        requires
            self.wf(),
            0 <= i < self.keys.len(),
        ensures
            self@.dom().contains(self.keys[i]@),
            self@[self.keys[i]@] == self.entries[i].stored(),
    {
        let key = self.keys[i]@;
        assert(self.holds_at(key, i));
        let j = choose|j: int| self.holds_at(key, j);
        assert(i == j);
    }

    /// The contents of a consistent store are well formed.
    pub proof fn lemma_well_formed(&self)
        requires
            self.wf(),
        ensures
            well_formed(self@),
    {
        assert forall|key: Seq<char>| #[trigger] self@.dom().contains(key) implies stored_well_formed(
            self@[key],
        ) by {
            let i = choose|i: int| self.holds_at(key, i);
            self.lemma_slot(i);
            self.entries[i].lemma_stored_well_formed();
        }
    }

    /// A store that holds nothing.
    pub fn new() -> (store: MemoryStore)
        ensures
            store.wf(),
            store@ == Map::<Seq<char>, Stored>::empty(),
    {
        let store = MemoryStore { keys: Vec::new(), entries: Vec::new() };
        assert(store@ =~= Map::<Seq<char>, Stored>::empty());
        store
    }

    /// The slot of `key`, if the store holds it.
    fn find(&self, key: &String) -> (slot: Option<usize>)
        requires
            self.wf(),
        ensures
            match slot {
                Some(i) => self.holds_at(key@, i as int),
                None => !self@.dom().contains(key@),
            },
    {
        let mut i: usize = 0;
        while i < self.keys.len()
            invariant
                i <= self.keys.len(),
                forall|j: int| 0 <= j < i ==> self.keys[j]@ != key@,
            decreases self.keys.len() - i,
        {
            if self.keys[i] == *key {
                return Some(i);
            }
            i = i + 1;
        }
        None
    }

    /// Takes `key` and its entry out of the store.
    fn take(&mut self, key: &String) -> (entry: Option<Entry>)
        requires
            old(self).wf(),
        ensures
            final(self).wf(),
            final(self)@ == old(self)@.remove(key@),
            match entry {
                Some(e) => e.wf() && stored_at(old(self)@, key@) == Some(e.stored()),
                None => stored_at(old(self)@, key@) is None,
            },
    {
        match self.find(key) {
            None => {
                assert(self@ =~= self@.remove(key@));
                None
            },
            Some(i) => {
                proof {
                    self.lemma_slot(i as int);
                }
                let ghost before = *self;
                self.keys.remove(i);
                let entry = self.entries.remove(i);
                proof {
                    assert(self.wf());
                    assert forall|k: Seq<char>| #[trigger]
                        self@.dom().contains(k) implies before@.remove(key@).dom().contains(k)
                        && self@[k] == before@.remove(key@)[k] by {
                        let j = choose|j: int| self.holds_at(k, j);
                        self.lemma_slot(j);
                        if j < i {
                            before.lemma_slot(j);
                        } else {
                            before.lemma_slot(j + 1);
                        }
                    }
                    assert forall|k: Seq<char>| #[trigger]
                        before@.remove(key@).dom().contains(k) implies self@.dom().contains(k) by {
                        let j = choose|j: int| before.holds_at(k, j);
                        if j < i {
                            assert(self.holds_at(k, j));
                        } else {
                            assert(self.holds_at(k, j - 1));
                        }
                    }
                    assert(self@ =~= before@.remove(key@));
                }
                Some(entry)
            },
        }
    }

    /// Puts `entry` into the store under `key`, which the store does not
    /// hold.
    fn put(&mut self, key: String, entry: Entry)
        requires
            old(self).wf(),
            !old(self)@.dom().contains(key@),
            entry.wf(),
        ensures
            final(self).wf(),
            final(self)@ == old(self)@.insert(key@, entry.stored()),
    {
        let ghost before = *self;
        let ghost name = key@;
        proof {
            assert forall|j: int| 0 <= j < self.keys.len() implies self.keys[j]@ != name by {
                assert(self.holds_at(self.keys[j]@, j));
            }
        }
        self.keys.push(key);
        self.entries.push(entry);
        proof {
            assert(self.wf());
            let last = self.keys.len() - 1;
            assert forall|k: Seq<char>| #[trigger]
                self@.dom().contains(k) implies before@.insert(name, entry.stored()).dom().contains(
                k,
            ) && self@[k] == before@.insert(name, entry.stored())[k] by {
                let j = choose|j: int| self.holds_at(k, j);
                self.lemma_slot(j);
                if j < last {
                    before.lemma_slot(j);
                }
            }
            assert forall|k: Seq<char>| #[trigger]
                before@.insert(name, entry.stored()).dom().contains(k) implies self@.dom().contains(
                k,
            ) by {
                if k == name {
                    assert(self.holds_at(k, last));
                } else {
                    let j = choose|j: int| before.holds_at(k, j);
                    assert(self.holds_at(k, j));
                }
            }
            assert(self@ =~= before@.insert(name, entry.stored()));
        }
    }
}

/// Whether a command is one for sets.
fn is_for_members(command: &Command) -> (yes: bool)
    ensures
        yes == for_members(command@),
{
    match command {
        Command::SetAdd { .. } => true,
        Command::SetRemove { .. } => true,
        Command::SetContains { .. } => true,
        Command::SetCount { .. } => true,
        Command::SetMembers { .. } => true,
        _ => false,
    }
}

/// What an optional entry stands for.
spec fn stored_of(entry: Option<Entry>) -> Option<Stored> {
    match entry {
        Some(e) => Some(e.stored()),
        None => None,
    }
}

/// The entry for a sequence after a command: none where it is empty.
fn sequence_entry(items: Vec<Vec<u8>>) -> (entry: Option<Entry>)
    requires
        items.len() <= CAPACITY,
    ensures
        stored_of(entry) == sequence_stored(elements(items@)),
        entry matches Some(e) ==> e.wf(),
{
    if items.len() == 0 {
        None
    } else {
        Some(Entry::Sequence(items))
    }
}

/// The entry for a set after a command: none where it is empty.
fn members_entry(members: Vec<Vec<u8>>) -> (entry: Option<Entry>)
    requires
        members.len() <= CAPACITY,
        elements(members@).no_duplicates(),
    ensures
        stored_of(entry) == members_stored(elements(members@).to_set()),
        entry matches Some(e) ==> e.wf(),
{
    proof {
        elements(members@).unique_seq_to_set();
    }
    if members.len() == 0 {
        None
    } else {
        Some(Entry::Members(members))
    }
}

/// Carries out a command on what is kept under its key, and returns what is
/// kept there afterwards with the answer.
fn entry_apply(current: Option<Entry>, command: &Command) -> (after: (Option<Entry>, Reply))
    requires
        current matches Some(e) ==> e.wf(),
    ensures
        after.0 matches Some(e) ==> e.wf(),
        after.1.distinct(),
        (stored_of(after.0), after.1@) == stored_step(stored_of(current), command@),
{
    match command {
        Command::Delete { .. } => {
            let deleted: i64 = if current.is_some() {
                1
            } else {
                0
            };
            (None, Reply::Integer(deleted))
        },
        _ => {
            if is_for_members(command) {
                match current {
                    None => {
                        let members: Vec<Vec<u8>> = Vec::new();
                        assert(elements(members@).to_set() =~= Set::<Seq<u8>>::empty());
                        let (members, reply) = members_apply(members, command);
                        (members_entry(members), reply)
                    },
                    Some(Entry::Members(members)) => {
                        let (members, reply) = members_apply(members, command);
                        (members_entry(members), reply)
                    },
                    Some(Entry::Sequence(items)) => (
                        Some(Entry::Sequence(items)),
                        Reply::Fault(Fault::WrongKind),
                    ),
                }
            } else {
                match current {
                    None => {
                        let items: Vec<Vec<u8>> = Vec::new();
                        assert(elements(items@) =~= Seq::<Seq<u8>>::empty());
                        let (items, reply) = sequence_apply(items, command);
                        (sequence_entry(items), reply)
                    },
                    Some(Entry::Sequence(items)) => {
                        let (items, reply) = sequence_apply(items, command);
                        (sequence_entry(items), reply)
                    },
                    Some(Entry::Members(members)) => (
                        Some(Entry::Members(members)),
                        Reply::Fault(Fault::WrongKind),
                    ),
                }
            }
        },
    }
}

impl MemoryStore {
    /// Carries out `command` and returns the answer.
    pub fn execute(&mut self, command: &Command) -> (reply: Reply)
        requires
            old(self).wf(),
        ensures
            final(self).wf(),
            reply.distinct(),
            (final(self)@, reply@) == step(old(self)@, command@),
    {
        let key = command.key();
        let current = self.take(key);
        let (next, reply) = entry_apply(current, command);
        match next {
            Some(entry) => {
                self.put(key.clone(), entry);
                assert(final(self)@ =~= old(self)@.insert(key@, entry.stored()));
            },
            None => {},
        }
        reply
    }
}

} // verus!
