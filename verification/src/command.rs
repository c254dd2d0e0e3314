//! The commands that the collections send to the remote store.
//!
//! A [`Command`] is a value: building one contacts nothing. Each has a view,
//! a [`CommandView`], over which the contracts of the collections are stated,
//! and a wire form, a name followed by its arguments in order.
use vstd::prelude::*;

verus! {

/// One end of a stored sequence.
#[derive(Clone, Copy, Debug, PartialEq, Eq, Structural)]
pub enum End {
    /// The first element, at index 0.
    Head,
    /// The last element, at index -1.
    Tail,
}

/// The side of a pivot on which an element is inserted.
#[derive(Clone, Copy, Debug, PartialEq, Eq, Structural)]
pub enum Place {
    /// Directly in front of the pivot, nearer to the head.
    Before,
    /// Directly behind the pivot, nearer to the tail.
    After,
}

/// One argument of a command in its wire form.
#[derive(Clone, Debug, PartialEq, Eq)]
pub enum Arg {
    /// A key or a keyword.
    Text(String),
    /// An index or a count, sent in decimal.
    Int(i64),
    /// An encoded element.
    Bytes(Vec<u8>),
}

/// The mathematical value of an [`Arg`].
pub ghost enum ArgView {
    Text(Seq<char>),
    Int(i64),
    Bytes(Seq<u8>),
}

impl View for Arg {
    type V = ArgView;

    open spec fn view(&self) -> ArgView {
        match *self {
            Arg::Text(s) => ArgView::Text(s@),
            Arg::Int(i) => ArgView::Int(i),
            Arg::Bytes(b) => ArgView::Bytes(b@),
        }
    }
}

/// A command for the remote store.
#[derive(Clone, Debug, PartialEq, Eq)]
pub enum Command {
    /// Appends `value` at one end of the sequence at `key`.
    Push { key: String, end: End, value: Vec<u8> },
    /// Removes and returns the element at one end of the sequence at `key`.
    Pop { key: String, end: End },
    /// Reads the element at `index`.
    Index { key: String, index: i64 },
    /// Overwrites the element at `index`.
    SetIndex { key: String, index: i64, value: Vec<u8> },
    /// Reads the elements from `start` to `stop`, both included.
    Range { key: String, start: i64, stop: i64 },
    /// Keeps the elements from `start` to `stop`, both included.
    Trim { key: String, start: i64, stop: i64 },
    /// Counts the elements of the sequence at `key`.
    Len { key: String },
    /// Removes occurrences of `value` from the sequence at `key`.
    Remove { key: String, count: i64, value: Vec<u8> },
    /// Inserts `value` beside the first occurrence of `pivot`.
    Insert { key: String, place: Place, pivot: Vec<u8>, value: Vec<u8> },
    /// Adds `member` to the set at `key`.
    SetAdd { key: String, member: Vec<u8> },
    /// Removes `member` from the set at `key`.
    SetRemove { key: String, member: Vec<u8> },
    /// Asks whether `member` is in the set at `key`.
    SetContains { key: String, member: Vec<u8> },
    /// Counts the members of the set at `key`.
    SetCount { key: String },
    /// Reads all members of the set at `key`.
    SetMembers { key: String },
    /// Deletes `key` and what is stored under it.
    Delete { key: String },
}

/// The mathematical value of a [`Command`].
pub ghost enum CommandView {
    Push { key: Seq<char>, end: End, value: Seq<u8> },
    Pop { key: Seq<char>, end: End },
    Index { key: Seq<char>, index: i64 },
    SetIndex { key: Seq<char>, index: i64, value: Seq<u8> },
    Range { key: Seq<char>, start: i64, stop: i64 },
    Trim { key: Seq<char>, start: i64, stop: i64 },
    Len { key: Seq<char> },
    Remove { key: Seq<char>, count: i64, value: Seq<u8> },
    Insert { key: Seq<char>, place: Place, pivot: Seq<u8>, value: Seq<u8> },
    SetAdd { key: Seq<char>, member: Seq<u8> },
    SetRemove { key: Seq<char>, member: Seq<u8> },
    SetContains { key: Seq<char>, member: Seq<u8> },
    SetCount { key: Seq<char> },
    SetMembers { key: Seq<char> },
    Delete { key: Seq<char> },
}

impl View for Command {
    type V = CommandView;

    open spec fn view(&self) -> CommandView {
        match *self {
            Command::Push { key, end, value } => CommandView::Push { key: key@, end, value: value@ },
            Command::Pop { key, end } => CommandView::Pop { key: key@, end },
            Command::Index { key, index } => CommandView::Index { key: key@, index },
            Command::SetIndex { key, index, value } => CommandView::SetIndex {
                key: key@,
                index,
                value: value@,
            },
            Command::Range { key, start, stop } => CommandView::Range { key: key@, start, stop },
            Command::Trim { key, start, stop } => CommandView::Trim { key: key@, start, stop },
            Command::Len { key } => CommandView::Len { key: key@ },
            Command::Remove { key, count, value } => CommandView::Remove {
                key: key@,
                count,
                value: value@,
            },
            Command::Insert { key, place, pivot, value } => CommandView::Insert {
                key: key@,
                place,
                pivot: pivot@,
                value: value@,
            },
            Command::SetAdd { key, member } => CommandView::SetAdd { key: key@, member: member@ },
            Command::SetRemove { key, member } => CommandView::SetRemove {
                key: key@,
                member: member@,
            },
            Command::SetContains { key, member } => CommandView::SetContains {
                key: key@,
                member: member@,
            },
            Command::SetCount { key } => CommandView::SetCount { key: key@ },
            Command::SetMembers { key } => CommandView::SetMembers { key: key@ },
            Command::Delete { key } => CommandView::Delete { key: key@ },
        }
    }
}

impl CommandView {
    /// The key that the command addresses.
    pub open spec fn key(self) -> Seq<char> {
        match self {
            CommandView::Push { key, .. } => key,
            CommandView::Pop { key, .. } => key,
            CommandView::Index { key, .. } => key,
            CommandView::SetIndex { key, .. } => key,
            CommandView::Range { key, .. } => key,
            CommandView::Trim { key, .. } => key,
            CommandView::Len { key } => key,
            CommandView::Remove { key, .. } => key,
            CommandView::Insert { key, .. } => key,
            CommandView::SetAdd { key, .. } => key,
            CommandView::SetRemove { key, .. } => key,
            CommandView::SetContains { key, .. } => key,
            CommandView::SetCount { key } => key,
            CommandView::SetMembers { key } => key,
            CommandView::Delete { key } => key,
        }
    }

    /// The name under which the remote store knows the command.
    pub open spec fn name(self) -> Seq<char> {
        match self {
            CommandView::Push { end: End::Tail, .. } => "RPUSH"@,
            CommandView::Push { end: End::Head, .. } => "LPUSH"@,
            CommandView::Pop { end: End::Tail, .. } => "RPOP"@,
            CommandView::Pop { end: End::Head, .. } => "LPOP"@,
            CommandView::Index { .. } => "LINDEX"@,
            CommandView::SetIndex { .. } => "LSET"@,
            CommandView::Range { .. } => "LRANGE"@,
            CommandView::Trim { .. } => "LTRIM"@,
            CommandView::Len { .. } => "LLEN"@,
            CommandView::Remove { .. } => "LREM"@,
            CommandView::Insert { .. } => "LINSERT"@,
            CommandView::SetAdd { .. } => "SADD"@,
            CommandView::SetRemove { .. } => "SREM"@,
            CommandView::SetContains { .. } => "SISMEMBER"@,
            CommandView::SetCount { .. } => "SCARD"@,
            CommandView::SetMembers { .. } => "SMEMBERS"@,
            CommandView::Delete { .. } => "DEL"@,
        }
    }

    /// The arguments that follow the name, in the order of the wire.
    pub open spec fn args(self) -> Seq<ArgView> {
        match self {
            CommandView::Push { key, value, .. } => seq![ArgView::Text(key), ArgView::Bytes(value)],
            CommandView::Pop { key, .. } => seq![ArgView::Text(key)],
            CommandView::Index { key, index } => seq![ArgView::Text(key), ArgView::Int(index)],
            CommandView::SetIndex { key, index, value } => seq![
                ArgView::Text(key),
                ArgView::Int(index),
                ArgView::Bytes(value),
            ],
            CommandView::Range { key, start, stop } => seq![
                ArgView::Text(key),
                ArgView::Int(start),
                ArgView::Int(stop),
            ],
            CommandView::Trim { key, start, stop } => seq![
                ArgView::Text(key),
                ArgView::Int(start),
                ArgView::Int(stop),
            ],
            CommandView::Len { key } => seq![ArgView::Text(key)],
            CommandView::Remove { key, count, value } => seq![
                ArgView::Text(key),
                ArgView::Int(count),
                ArgView::Bytes(value),
            ],
            CommandView::Insert { key, place, pivot, value } => seq![
                ArgView::Text(key),
                ArgView::Text(
                    match place {
                        Place::Before => "BEFORE"@,
                        Place::After => "AFTER"@,
                    },
                ),
                ArgView::Bytes(pivot),
                ArgView::Bytes(value),
            ],
            CommandView::SetAdd { key, member } => seq![ArgView::Text(key), ArgView::Bytes(member)],
            CommandView::SetRemove { key, member } => seq![
                ArgView::Text(key),
                ArgView::Bytes(member),
            ],
            CommandView::SetContains { key, member } => seq![
                ArgView::Text(key),
                ArgView::Bytes(member),
            ],
            CommandView::SetCount { key } => seq![ArgView::Text(key)],
            CommandView::SetMembers { key } => seq![ArgView::Text(key)],
            CommandView::Delete { key } => seq![ArgView::Text(key)],
        }
    }
}

/// The views of a sequence of arguments, in order.
pub open spec fn arg_views(args: Seq<Arg>) -> Seq<ArgView> {
    args.map_values(|a: Arg| a@)
}

impl Command {
    /// The name under which the remote store knows the command.
    pub fn name(&self) -> (name: &'static str)
        ensures
            name@ == self@.name(),
    {
        match self {
            Command::Push { end: End::Tail, .. } => "RPUSH",
            Command::Push { end: End::Head, .. } => "LPUSH",
            Command::Pop { end: End::Tail, .. } => "RPOP",
            Command::Pop { end: End::Head, .. } => "LPOP",
            Command::Index { .. } => "LINDEX",
            Command::SetIndex { .. } => "LSET",
            Command::Range { .. } => "LRANGE",
            Command::Trim { .. } => "LTRIM",
            Command::Len { .. } => "LLEN",
            Command::Remove { .. } => "LREM",
            Command::Insert { .. } => "LINSERT",
            Command::SetAdd { .. } => "SADD",
            Command::SetRemove { .. } => "SREM",
            Command::SetContains { .. } => "SISMEMBER",
            Command::SetCount { .. } => "SCARD",
            Command::SetMembers { .. } => "SMEMBERS",
            Command::Delete { .. } => "DEL",
        }
    }

    /// The key that the command addresses.
    pub fn key(&self) -> (key: &String)
        ensures
            key@ == self@.key(),
    {
        match self {
            Command::Push { key, .. } => key,
            Command::Pop { key, .. } => key,
            Command::Index { key, .. } => key,
            Command::SetIndex { key, .. } => key,
            Command::Range { key, .. } => key,
            Command::Trim { key, .. } => key,
            Command::Len { key } => key,
            Command::Remove { key, .. } => key,
            Command::Insert { key, .. } => key,
            Command::SetAdd { key, .. } => key,
            Command::SetRemove { key, .. } => key,
            Command::SetContains { key, .. } => key,
            Command::SetCount { key } => key,
            Command::SetMembers { key } => key,
            Command::Delete { key } => key,
        }
    }

    /// The arguments that follow the name, in the order of the wire.
    pub fn args(&self) -> (args: Vec<Arg>)
        ensures
            arg_views(args@) == self@.args(),
    {
        let mut args: Vec<Arg> = Vec::new();
        match self {
            Command::Push { key, value, .. } => {
                args.push(Arg::Text(key.clone()));
                args.push(Arg::Bytes(value.clone()));
            },
            Command::Pop { key, .. } => {
                args.push(Arg::Text(key.clone()));
            },
            Command::Index { key, index } => {
                args.push(Arg::Text(key.clone()));
                args.push(Arg::Int(*index));
            },
            Command::SetIndex { key, index, value } => {
                args.push(Arg::Text(key.clone()));
                args.push(Arg::Int(*index));
                args.push(Arg::Bytes(value.clone()));
            },
            Command::Range { key, start, stop } => {
                args.push(Arg::Text(key.clone()));
                args.push(Arg::Int(*start));
                args.push(Arg::Int(*stop));
            },
            Command::Trim { key, start, stop } => {
                args.push(Arg::Text(key.clone()));
                args.push(Arg::Int(*start));
                args.push(Arg::Int(*stop));
            },
            Command::Len { key } => {
                args.push(Arg::Text(key.clone()));
            },
            Command::Remove { key, count, value } => {
                args.push(Arg::Text(key.clone()));
                args.push(Arg::Int(*count));
                args.push(Arg::Bytes(value.clone()));
            },
            Command::Insert { key, place, pivot, value } => {
                let side = match place {
                    Place::Before => "BEFORE",
                    Place::After => "AFTER",
                };
                args.push(Arg::Text(key.clone()));
                args.push(Arg::Text(String::from_str(side)));
                args.push(Arg::Bytes(pivot.clone()));
                args.push(Arg::Bytes(value.clone()));
            },
            Command::SetAdd { key, member } => {
                args.push(Arg::Text(key.clone()));
                args.push(Arg::Bytes(member.clone()));
            },
            Command::SetRemove { key, member } => {
                args.push(Arg::Text(key.clone()));
                args.push(Arg::Bytes(member.clone()));
            },
            Command::SetContains { key, member } => {
                args.push(Arg::Text(key.clone()));
                args.push(Arg::Bytes(member.clone()));
            },
            Command::SetCount { key } => {
                args.push(Arg::Text(key.clone()));
            },
            Command::SetMembers { key } => {
                args.push(Arg::Text(key.clone()));
            },
            Command::Delete { key } => {
                args.push(Arg::Text(key.clone()));
            },
        }
        assert(arg_views(args@) =~= self@.args());
        args
    }
}

} // verus!
