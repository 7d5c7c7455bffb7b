//! The terminals that are open, and the output of each.
use vstd::prelude::*;
use crate::terminal::scrollback::LiveOutput;

verus! {

/// A concurrent hash map.
#[verifier::external_type_specification]
#[verifier::external_body]
#[verifier::reject_recursive_types(K)]
#[verifier::reject_recursive_types(V)]
#[verifier::reject_recursive_types(S)]
pub struct ExDashMap<K, V, S>(dashmap::DashMap<K, V, S>);

/// The entries of a map from process numbers to session numbers.
pub uninterp spec fn session_entries(map: dashmap::DashMap<u32, u64>) -> Map<u32, u64>;

/// No entries.
pub open spec fn no_sessions() -> Map<u32, u64> {
    Map::empty()
}

/// `dashmap::DashMap::new`: a map without entries.
#[verifier::external_body]
fn map_new() -> (fresh: dashmap::DashMap<u32, u64>)
    ensures
        session_entries(fresh) == no_sessions(),
{
    dashmap::DashMap::new()
}

/// `dashmap::DashMap::insert`: enters the value under the key, and gives back the value that
/// stood there, where there was one. No reference into the map is held across the call.
#[verifier::external_body]
fn map_insert(map: &mut dashmap::DashMap<u32, u64>, key: u32, value: u64) -> (before: Option<u64>)
    ensures
        session_entries(*final(map)) == session_entries(*old(map)).insert(key, value),
        before == session_entries(*old(map)).get(key),
{
    map.insert(key, value)
}

/// `dashmap::DashMap::get`: the value under the key, where there is one. It is copied out, so
/// that no reference into the map outlives the call.
#[verifier::external_body]
fn map_get(map: &dashmap::DashMap<u32, u64>, key: u32) -> (value: Option<u64>)
    ensures
        value == session_entries(*map).get(key),
{
    map.get(&key).map(|entry| *entry.value())
}

/// `dashmap::DashMap::remove`: takes out the entry under the key, and gives back its value, where
/// there was one. No reference into the map is held across the call.
#[verifier::external_body]
fn map_remove(map: &mut dashmap::DashMap<u32, u64>, key: u32) -> (value: Option<u64>)
    ensures
        session_entries(*final(map)) == session_entries(*old(map)).remove(key),
        value == session_entries(*old(map)).get(key),
{
    map.remove(&key).map(|entry| entry.1)
}

/// The open terminals: process numbers, each with the number of its session. The sessions
/// themselves are kept elsewhere, under their numbers.
pub struct SessionTable {
    entries: dashmap::DashMap<u32, u64>,
    next: u64,
}

impl View for SessionTable {
    type V = Map<u32, u64>;

    closed spec fn view(&self) -> Map<u32, u64> {
        session_entries(self.entries)
    }
}

/// Whether no session stands under two process numbers, and every session number is among those
/// given out so far.
pub open spec fn distinct_sessions(table: Map<u32, u64>, issued: nat) -> bool {
    &&& forall|pid: u32| #[trigger] table.contains_key(pid) ==> table[pid] < issued
    &&& forall|p: u32, q: u32| #[trigger]
        table.contains_key(p) && #[trigger] table.contains_key(q) && p != q ==> table[p] != table[q]
}

impl SessionTable {
    /// How many session numbers have been given out.
    pub closed spec fn issued(&self) -> nat {
        self.next as nat
    }

    /// No two terminals share a session.
    pub open spec fn wf(&self) -> bool {
        distinct_sessions(self@, self.issued()) && self.issued() <= u64::MAX
    }

    /// A table without terminals.
    pub fn new() -> (table: Self)
        ensures
            table.wf(),
            table@ == no_sessions(),
            table.issued() == 0,
    {
        SessionTable { entries: map_new(), next: 0 }
    }

    /// Whether there is a session number left.
    pub fn has_room(&self) -> (room: bool)
        ensures
            room == (self.issued() < u64::MAX),
    {
        self.next < u64::MAX
    }

    /// Opens a session for a process. Gives its number, which no session had before, and the
    /// number of the session that the process number stood for until now, where there was one.
    pub fn insert(&mut self, pid: u32) -> (numbers: (u64, Option<u64>))
        requires
            old(self).wf(),
            old(self).issued() < u64::MAX,
        ensures
            final(self).wf(),
            final(self)@ == old(self)@.insert(pid, numbers.0),
            final(self).issued() == old(self).issued() + 1,
            numbers.0 == old(self).issued(),
            numbers.1 == old(self)@.get(pid),
    {
        let session: u64 = self.next;
        let displaced = map_insert(&mut self.entries, pid, session);
        self.next = session + 1;
        (session, displaced)
    }

    /// The session of a process.
    pub fn get(&self, pid: u32) -> (session: Option<u64>)
        ensures
            session == self@.get(pid),
    {
        map_get(&self.entries, pid)
    }

    /// Takes out the session of a process.
    pub fn remove(&mut self, pid: u32) -> (session: Option<u64>)
        ensures
            old(self).wf() ==> final(self).wf(),
            final(self)@ == old(self)@.remove(pid),
            final(self).issued() == old(self).issued(),
            session == old(self)@.get(pid),
    {
        map_remove(&mut self.entries, pid)
    }
}

/// How the process of a terminal ended, where it has ended.
#[derive(Clone, Copy, Debug, PartialEq, Eq, Structural)]
pub struct ExitState {
    pub status: Option<bool>,
}

impl ExitState {
    /// Notes how the process ended. A process that could not be waited for counts as failed.
    pub fn exited(&mut self, waited: Option<bool>)
        ensures
            final(self).status == Some(waited == Some(true)),
    {
        self.status = match waited {
            Some(success) => Some(success),
            None => Some(false),
        };
    }
}

/// What is known of one terminal besides its handles. The two parts change independently.
pub struct TerminalSession {
    pub exit: ExitState,
    pub output: LiveOutput,
}

impl TerminalSession {
    /// A terminal whose process runs and which no client has reached yet.
    pub fn new() -> (session: Self)
        ensures
            session.exit.status is None,
            !session.output.live(),
    {
        TerminalSession { exit: ExitState { status: None }, output: LiveOutput::new() }
    }
}

} // verus!
