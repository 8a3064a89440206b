//! Pseudo-terminal session manager.
//!
//! The manager owns the collection of live sessions keyed by their id. The
//! terminal back end (the pty pair, the shell process, the threads that read
//! its output) is reached through [`SessionHandle`]; the two background
//! workers of a session are the state machines [`OutputRelay`] and
//! [`ExitWatcher`], which decide what to emit for each outcome of a blocking
//! read or wait.

use vstd::prelude::*;
use crate::text::same_text;
use vstd::string::*;

verus! {

/// Why an operation of the session manager failed.
#[derive(Debug)]
pub enum PtyError {
    /// The pty could not be allocated, the shell could not be started, or no
    /// fresh id could be allotted. No session was registered.
    Spawn(String),
    /// No live session has the given id.
    SessionNotFound,
    /// A write, flush or resize on a live session failed; the back end's
    /// message.
    Io(String),
    /// The lock around the manager could not be taken.
    Lock(String),
}

/// The text an error is reported with.
pub open spec fn error_message(e: PtyError) -> Seq<char> {
    match e {
        PtyError::Spawn(m) => m@,
        PtyError::SessionNotFound => "PTY not found"@,
        PtyError::Io(m) => m@,
        PtyError::Lock(m) => "Lock error: "@ + m@,
    }
}

impl PtyError {
    /// The text the error is reported with.
    pub fn message(&self) -> (r: String)
        ensures
            r@ == error_message(*self),
    {
        match self {
            PtyError::Spawn(m) => m.clone(),
            PtyError::SessionNotFound => String::from_str("PTY not found"),
            PtyError::Io(m) => m.clone(),
            PtyError::Lock(m) => {
                let mut s = String::from_str("Lock error: ");
                s.append(m.as_str());
                s
            },
        }
    }
}

/// The terminal side of one session: the writer to its process's standard
/// input and the controller of its pty. The terminal is modelled by the
/// bytes sent so far, whether they have all been flushed, its size, and the
/// message of the last call that failed.
///
/// The model exists only in proofs; its default definitions are never used
/// for an unknown handle type.
///
/// Implementations stand for a pty's writer (`std::io::Write`, whose
/// `write_all` writes the whole buffer or fails, and whose `flush` pushes
/// out what is buffered) and its master (`portable_pty::MasterPty::resize`),
/// and are relied on to do what these contracts say.
pub trait SessionHandle {
    /// The bytes handed to the process's standard input so far.
    closed spec fn sent(&self) -> Seq<u8> {
        Seq::empty()
    }

    /// Whether all the bytes sent have been flushed through to the process.
    closed spec fn flushed(&self) -> bool {
        false
    }

    /// The terminal size, as (columns, rows).
    closed spec fn size(&self) -> (u16, u16) {
        (0, 0)
    }

    /// The message of the last call that failed, if any.
    closed spec fn last_error(&self) -> Option<Seq<char>> {
        None
    }

    /// Sends all of `data` to the process's standard input.
    fn write_all(&mut self, data: &[u8]) -> (r: Result<(), String>)
        ensures
            r is Ok ==> final(self).sent() == old(self).sent() + data@,
            final(self).size() == old(self).size(),
            r matches Err(e) ==> final(self).last_error() == Some(e@),
    ;

    /// Flushes what was written through to the process.
    fn flush(&mut self) -> (r: Result<(), String>)
        ensures
            final(self).sent() == old(self).sent(),
            final(self).size() == old(self).size(),
            r is Ok ==> final(self).flushed(),
            r matches Err(e) ==> final(self).last_error() == Some(e@),
    ;

    /// Sets the terminal size to `cols` columns and `rows` rows; the input
    /// side is not touched.
    fn resize(&mut self, cols: u16, rows: u16) -> (r: Result<(), String>)
        ensures
            final(self).sent() == old(self).sent(),
            final(self).flushed() == old(self).flushed(),
            r is Ok ==> final(self).size() == (cols, rows),
            r matches Err(e) ==> final(self).last_error() == Some(e@),
    ;
}

struct Session<H> {
    id: String,
    handle: H,
}

/// The live sessions, keyed by id, and every id ever issued. Its view maps
/// each live id to the session's handle.
pub struct PtyManager<H> {
    sessions: Vec<Session<H>>,
    issued: Vec<String>,
    live: Ghost<Map<Seq<char>, H>>,
}

impl<H> View for PtyManager<H> {
    type V = Map<Seq<char>, H>;

    closed spec fn view(&self) -> Map<Seq<char>, H> {
        self.live@
    }
}

/// A lower-case hexadecimal digit.
pub open spec fn is_hex_digit(c: char) -> bool {
    ('0' <= c && c <= '9') || ('a' <= c && c <= 'f')
}

/// The hyphenated lower-case text of a random (version 4) UUID: 36
/// characters, hyphens at 8, 13, 18 and 23, the version digit `4` at 14,
/// hexadecimal digits elsewhere.
pub open spec fn is_v4_uuid_text(s: Seq<char>) -> bool {
    &&& s.len() == 36
    &&& forall|i: int|
        0 <= i < 36 ==> if i == 8 || i == 13 || i == 18 || i == 23 {
            #[trigger] s[i] == '-'
        } else {
            is_hex_digit(s[i])
        }
    &&& s[14] == '4'
}

/// Relies on uuid::Uuid::new_v4, whose version bits are 4, and on the
/// hyphenated lower-case form that its `Display` writes.
#[verifier::external_body]
fn fresh_session_id() -> (r: String)
    ensures
        is_v4_uuid_text(r@),
{
    uuid::Uuid::new_v4().to_string()
}

impl<H: SessionHandle> PtyManager<H> {
    /// Every id issued so far, in order, live or killed.
    pub closed spec fn issued_ids(&self) -> Seq<Seq<char>> {
        self.issued@.map_values(|s: String| s@)
    }

    /// Whether `id` was ever issued.
    pub open spec fn was_issued(&self, id: Seq<char>) -> bool {
        self.issued_ids().contains(id)
    }

    /// Ids are unique, every live id was issued, and the ghost map holds
    /// exactly the stored sessions.
    pub closed spec fn wf(&self) -> bool {
        &&& forall|i: int, j: int|
            0 <= i < j < self.sessions@.len() ==> self.sessions@[i].id@ != self.sessions@[j].id@
        &&& forall|i: int|
            0 <= i < self.sessions@.len() ==> {
                &&& self.live@.contains_key(#[trigger] self.sessions@[i].id@)
                &&& self.live@[self.sessions@[i].id@] == self.sessions@[i].handle
            }
        &&& forall|k: Seq<char>|
            #[trigger] self.live@.contains_key(k) ==> exists|i: int|
                0 <= i < self.sessions@.len() && #[trigger] self.sessions@[i].id@ == k
        &&& forall|k: Seq<char>| #[trigger] self.live@.contains_key(k) ==> self.was_issued(k)
    }

    /// A manager with no sessions that has issued no id.
    pub fn new() -> (r: Self)
        ensures
            r.wf(),
            r@ == Map::<Seq<char>, H>::empty(),
            r.issued_ids().len() == 0,
    {
        let r = PtyManager { sessions: Vec::new(), issued: Vec::new(), live: Ghost(Map::empty()) };
        assert(r.issued_ids() =~= Seq::<Seq<char>>::empty());
        r
    }

    fn find(&self, id: &str) -> (r: Option<usize>)
        requires
            self.wf(),
        ensures
            match r {
                Some(i) => i < self.sessions@.len() && self.sessions@[i as int].id@ == id@,
                None => !self@.contains_key(id@),
            },
    {
        let mut i: usize = 0;
        while i < self.sessions.len()
            invariant
                self.wf(),
                i <= self.sessions@.len(),
                forall|j: int| 0 <= j < i ==> self.sessions@[j].id@ != id@,
            decreases self.sessions@.len() - i,
        {
            if same_text(self.sessions[i].id.as_str(), id) {
                return Some(i);
            }
            i += 1;
        }
        None
    }

    fn issued_exec(&self, id: &str) -> (r: bool)
        ensures
            r == self.was_issued(id@),
    {
        let mut i: usize = 0;
        while i < self.issued.len()
            invariant
                i <= self.issued@.len(),
                forall|j: int| 0 <= j < i ==> self.issued@[j]@ != id@,
            decreases self.issued@.len() - i,
        {
            if same_text(self.issued[i].as_str(), id) {
                assert(self.issued_ids()[i as int] == id@);
                return true;
            }
            i += 1;
        }
        assert(!self.issued_ids().contains(id@)) by {
            if self.issued_ids().contains(id@) {
                let j = choose|j: int| 0 <= j < self.issued_ids().len() && self.issued_ids()[j] == id@;
                assert(self.issued@[j]@ == id@);
            }
        }
        false
    }

    /// Takes the session at index `i` out of the collection.
    fn take_at(&mut self, i: usize) -> (r: Session<H>)
        requires
            old(self).wf(),
            i < old(self).sessions@.len(),
        ensures
            final(self).wf(),
            r == old(self).sessions@[i as int],
            final(self).sessions@ == old(self).sessions@.remove(i as int),
            final(self)@ == old(self)@.remove(r.id@),
            final(self).issued == old(self).issued,
            old(self).was_issued(r.id@),
    {
        let ghost old_live = self.live@;
        let ghost old_sessions = self.sessions@;
        let session = self.sessions.remove(i);
        self.live = Ghost(old_live.remove(session.id@));
        proof {
            assert(old_live.contains_key(old_sessions[i as int].id@));
            assert forall|a: int, b: int| 0 <= a < b < self.sessions@.len() implies
                self.sessions@[a].id@ != self.sessions@[b].id@ by {
                let a0 = if a < i { a } else { a + 1 };
                let b0 = if b < i { b } else { b + 1 };
                assert(self.sessions@[a] == old_sessions[a0]);
                assert(self.sessions@[b] == old_sessions[b0]);
            }
            assert forall|j: int| 0 <= j < self.sessions@.len() implies {
                &&& self.live@.contains_key(#[trigger] self.sessions@[j].id@)
                &&& self.live@[self.sessions@[j].id@] == self.sessions@[j].handle
            } by {
                let j0 = if j < i { j } else { j + 1 };
                assert(self.sessions@[j] == old_sessions[j0]);
                assert(old_sessions[j0].id@ != old_sessions[i as int].id@);
                assert(old_live.contains_key(old_sessions[j0].id@));
            }
            assert forall|k: Seq<char>| #[trigger] self.live@.contains_key(k) implies exists|j: int|
                0 <= j < self.sessions@.len() && #[trigger] self.sessions@[j].id@ == k by {
                let j0 = choose|j0: int| 0 <= j0 < old_sessions.len() && #[trigger] old_sessions[j0].id@ == k;
                assert(j0 != i);
                let j = if j0 < i { j0 } else { j0 - 1 };
                assert(self.sessions@[j] == old_sessions[j0]);
            }
            assert forall|k: Seq<char>| #[trigger] self.live@.contains_key(k) implies self.was_issued(k) by {
                assert(old_live.contains_key(k));
            }
        }
        session
    }

    /// Puts `session` back at index `i`; its id must not be live and must
    /// have been issued.
    fn put_back(&mut self, i: usize, session: Session<H>)
        requires
            old(self).wf(),
            i <= old(self).sessions@.len(),
            !old(self)@.contains_key(session.id@),
            old(self).was_issued(session.id@),
        ensures
            final(self).wf(),
            final(self).sessions@ == old(self).sessions@.insert(i as int, session),
            final(self)@ == old(self)@.insert(session.id@, session.handle),
            final(self).issued == old(self).issued,
    {
        let ghost old_live = self.live@;
        let ghost old_sessions = self.sessions@;
        let ghost key = session.id@;
        let ghost h = session.handle;
        self.sessions.insert(i, session);
        self.live = Ghost(old_live.insert(key, h));
        proof {
            assert forall|j0: int| 0 <= j0 < old_sessions.len() implies old_sessions[j0].id@ != key by {
                assert(old_live.contains_key(old_sessions[j0].id@));
            }
            assert forall|a: int, b: int| 0 <= a < b < self.sessions@.len() implies
                self.sessions@[a].id@ != self.sessions@[b].id@ by {
                if a != i && b != i {
                    let a0 = if a < i { a } else { a - 1 };
                    let b0 = if b < i { b } else { b - 1 };
                    assert(self.sessions@[a] == old_sessions[a0]);
                    assert(self.sessions@[b] == old_sessions[b0]);
                } else if a == i {
                    assert(self.sessions@[b] == old_sessions[b - 1]);
                } else {
                    assert(self.sessions@[a] == old_sessions[a]);
                }
            }
            assert forall|j: int| 0 <= j < self.sessions@.len() implies {
                &&& self.live@.contains_key(#[trigger] self.sessions@[j].id@)
                &&& self.live@[self.sessions@[j].id@] == self.sessions@[j].handle
            } by {
                if j != i {
                    let j0 = if j < i { j } else { j - 1 };
                    assert(self.sessions@[j] == old_sessions[j0]);
                    assert(old_live.contains_key(old_sessions[j0].id@));
                }
            }
            assert forall|k: Seq<char>| #[trigger] self.live@.contains_key(k) implies exists|j: int|
                0 <= j < self.sessions@.len() && #[trigger] self.sessions@[j].id@ == k by {
                if k == key {
                    assert(self.sessions@[i as int].id@ == k);
                } else {
                    let j0 = choose|j0: int| 0 <= j0 < old_sessions.len() && #[trigger] old_sessions[j0].id@ == k;
                    let j = if j0 < i { j0 } else { j0 + 1 };
                    assert(self.sessions@[j] == old_sessions[j0]);
                }
            }
            assert forall|k: Seq<char>| #[trigger] self.live@.contains_key(k) implies self.was_issued(k) by {
                if k != key {
                    assert(old_live.contains_key(k));
                }
            }
        }
    }

    /// Registers `handle` under `id`. Refused when `id` was ever issued
    /// before, so that an id is never reused.
    pub fn register(&mut self, id: String, handle: H) -> (r: Result<String, PtyError>)
        requires
            old(self).wf(),
        ensures
            final(self).wf(),
            !old(self).was_issued(id@) ==> r == Ok::<String, PtyError>(id) && final(self)@
                == old(self)@.insert(id@, handle) && final(self).issued_ids() == old(self).issued_ids().push(id@),
            old(self).was_issued(id@) ==> (r matches Err(PtyError::Spawn(_))) && final(self)@
                == old(self)@ && final(self).issued_ids() == old(self).issued_ids(),
    {
        if self.issued_exec(id.as_str()) {
            return Err(PtyError::Spawn(String::from_str("session id already issued")));
        }
        let ghost old_live = self.live@;
        let ghost old_sessions = self.sessions@;
        let ghost old_ids = self.issued_ids();
        proof {
            assert(!old_live.contains_key(id@));
        }
        self.issued.push(id.clone());
        assert(self.issued_ids() =~= old_ids.push(id@));
        self.sessions.push(Session { id: id.clone(), handle });
        self.live = Ghost(old_live.insert(id@, handle));
        proof {
            let n = old_sessions.len() as int;
            assert forall|k: Seq<char>| #[trigger] self.live@.contains_key(k) implies exists|i: int|
                0 <= i < self.sessions@.len() && #[trigger] self.sessions@[i].id@ == k by {
                if k != id@ {
                    let i = choose|i: int| 0 <= i < old_sessions.len() && #[trigger] old_sessions[i].id@ == k;
                    assert(self.sessions@[i] == old_sessions[i]);
                } else {
                    assert(self.sessions@[n].id@ == k);
                }
            }
            assert forall|i: int| 0 <= i < self.sessions@.len() implies {
                &&& self.live@.contains_key(#[trigger] self.sessions@[i].id@)
                &&& self.live@[self.sessions@[i].id@] == self.sessions@[i].handle
            } by {
                if i < n {
                    assert(self.sessions@[i] == old_sessions[i]);
                    assert(old_live.contains_key(old_sessions[i].id@));
                }
            }
            assert forall|k: Seq<char>| #[trigger] self.live@.contains_key(k) implies self.was_issued(k) by {
                if k == id@ {
                    assert(self.issued_ids()[old_ids.len() as int] == k);
                } else {
                    assert(old_live.contains_key(k));
                    let j = choose|j: int| 0 <= j < old_ids.len() && old_ids[j] == k;
                    assert(self.issued_ids()[j] == k);
                }
            }
        }
        Ok(id)
    }

    /// Registers a newly opened session under a fresh id and returns the id.
    /// `opened` is the outcome of allocating the pty and starting the shell;
    /// its failure is reported as [`PtyError::Spawn`] and registers nothing.
    /// The id is random; it is refused only if it was issued before, which
    /// cannot happen while no issued id has its length.
    pub fn spawn(&mut self, opened: Result<H, String>) -> (r: Result<String, PtyError>)
        requires
            old(self).wf(),
        ensures
            final(self).wf(),
            opened is Err ==> r == Err::<String, PtyError>(PtyError::Spawn(opened->Err_0))
                && final(self)@ == old(self)@ && final(self).issued_ids() == old(self).issued_ids(),
            opened is Ok && (forall|k: Seq<char>| #[trigger] old(self).was_issued(k) ==> k.len() != 36)
                ==> r is Ok,
            r is Ok ==> opened is Ok && is_v4_uuid_text(r->Ok_0@) && !old(self).was_issued(r->Ok_0@)
                && !old(self)@.contains_key(r->Ok_0@) && final(self)@ == old(self)@.insert(
                r->Ok_0@,
                opened->Ok_0,
            ) && final(self).issued_ids() == old(self).issued_ids().push(r->Ok_0@),
            r is Err ==> (r matches Err(PtyError::Spawn(_))) && final(self)@ == old(self)@
                && final(self).issued_ids() == old(self).issued_ids(),
    {
        match opened {
            Err(e) => Err(PtyError::Spawn(e)),
            Ok(handle) => {
                let id = fresh_session_id();
                proof {
                    if !self.was_issued(id@) {
                        assert(!self@.contains_key(id@));
                    }
                }
                self.register(id, handle)
            },
        }
    }

    /// Sends `data` verbatim to the session's standard input and flushes it.
    /// On success all of its bytes were sent, in order, and flushed; an `Io`
    /// error is the message of the write or flush that failed. Either way
    /// the set of live sessions does not change, nor any other session.
    pub fn write(&mut self, id: &str, data: &str) -> (r: Result<(), PtyError>)
        requires
            old(self).wf(),
        ensures
            final(self).wf(),
            final(self)@.dom() == old(self)@.dom(),
            final(self)@.remove(id@) == old(self)@.remove(id@),
            final(self).issued_ids() == old(self).issued_ids(),
            !old(self)@.contains_key(id@) ==> r == Err::<(), PtyError>(PtyError::SessionNotFound)
                && final(self)@ == old(self)@,
            old(self)@.contains_key(id@) ==> r is Ok || (r matches Err(PtyError::Io(_))),
            old(self)@.contains_key(id@) && r is Ok ==> final(self)@[id@].sent() == old(self)@[id@].sent() + data.spec_bytes() && final(self)@[id@].flushed(),
            old(self)@.contains_key(id@) ==> final(self)@[id@].size() == old(self)@[id@].size(),
            old(self)@.contains_key(id@) && (r matches Err(PtyError::Io(e))) ==> final(self)@[id@].last_error() == Some(r->Err_0->Io_0@),
    {
        match self.find(id) {
            None => Err(PtyError::SessionNotFound),
            Some(i) => {
                let mut session = self.take_at(i);
                let bytes = data.as_bytes();
                let written = session.handle.write_all(bytes);
                let r = match written {
                    Err(e) => Err(PtyError::Io(e)),
                    Ok(()) => match session.handle.flush() {
                        Err(e) => Err(PtyError::Io(e)),
                        Ok(()) => Ok(()),
                    },
                };
                self.put_back(i, session);
                assert(self@.dom() =~= old(self)@.dom());
                assert(self@.remove(id@) =~= old(self)@.remove(id@));
                r
            },
        }
    }

    /// Propagates new terminal dimensions to the session's pty. On success
    /// the session's size is (`cols`, `rows`); an `Io` error is the message
    /// of the resize that failed. Either way what was sent to the session is
    /// untouched, and the set of live sessions does not change, nor any
    /// other session.
    pub fn resize(&mut self, id: &str, cols: u16, rows: u16) -> (r: Result<(), PtyError>)
        requires
            old(self).wf(),
        ensures
            final(self).wf(),
            final(self)@.dom() == old(self)@.dom(),
            final(self)@.remove(id@) == old(self)@.remove(id@),
            final(self).issued_ids() == old(self).issued_ids(),
            !old(self)@.contains_key(id@) ==> r == Err::<(), PtyError>(PtyError::SessionNotFound)
                && final(self)@ == old(self)@,
            old(self)@.contains_key(id@) ==> r is Ok || (r matches Err(PtyError::Io(_))),
            old(self)@.contains_key(id@) && r is Ok ==> final(self)@[id@].size() == (cols, rows),
            old(self)@.contains_key(id@) ==> final(self)@[id@].sent() == old(self)@[id@].sent()
                && final(self)@[id@].flushed() == old(self)@[id@].flushed(),
            old(self)@.contains_key(id@) && (r matches Err(PtyError::Io(e))) ==> final(self)@[id@].last_error() == Some(r->Err_0->Io_0@),
    {
        match self.find(id) {
            None => Err(PtyError::SessionNotFound),
            Some(i) => {
                let mut session = self.take_at(i);
                let r = match session.handle.resize(cols, rows) {
                    Err(e) => Err(PtyError::Io(e)),
                    Ok(()) => Ok(()),
                };
                self.put_back(i, session);
                assert(self@.dom() =~= old(self)@.dom());
                assert(self@.remove(id@) =~= old(self)@.remove(id@));
                r
            },
        }
    }

    /// Removes the session and drops its handles, which closes its pty.
    /// Succeeds whether or not the id was live; the id stays issued.
    pub fn kill(&mut self, id: &str) -> (r: Result<(), PtyError>)
        requires
            old(self).wf(),
        ensures
            final(self).wf(),
            r is Ok,
            final(self)@ == old(self)@.remove(id@),
            final(self).issued_ids() == old(self).issued_ids(),
    {
        match self.find(id) {
            None => {
                assert(self@ =~= self@.remove(id@));
            },
            Some(i) => {
                let _session = self.take_at(i);
            },
        }
        Ok(())
    }

    /// The handle of the live session `id`, if any.
    pub fn session(&self, id: &str) -> (r: Option<&H>)
        requires
            self.wf(),
        ensures
            self@.contains_key(id@) ==> r is Some && *r->Some_0 == self@[id@],
            !self@.contains_key(id@) ==> r is None,
    {
        match self.find(id) {
            Some(i) => Some(&self.sessions[i].handle),
            None => None,
        }
    }

    /// Whether a session with this id is live.
    pub fn is_live(&self, id: &str) -> (r: bool)
        requires
            self.wf(),
        ensures
            r == self@.contains_key(id@),
    {
        self.find(id).is_some()
    }
}

impl<H: SessionHandle> Default for PtyManager<H> {
    /// A manager with no sessions.
    fn default() -> (r: Self)
        ensures
            r.wf(),
            r@ == Map::<Seq<char>, H>::empty(),
    {
        PtyManager::new()
    }
}

/// The environment every spawned shell gets, as (name, value) pairs: a
/// terminal type with 256 colours, and true-colour support.
pub fn shell_environment() -> (r: Vec<(String, String)>)
    ensures
        r@.len() == 2,
        r@[0].0@ == "TERM"@,
        r@[0].1@ == "xterm-256color"@,
        r@[1].0@ == "COLORTERM"@,
        r@[1].1@ == "truecolor"@,
{
    let mut env: Vec<(String, String)> = Vec::new();
    env.push((String::from_str("TERM"), String::from_str("xterm-256color")));
    env.push((String::from_str("COLORTERM"), String::from_str("truecolor")));
    env
}

/// A chunk of a session's output, exactly as read from its pty.
#[derive(Debug)]
pub struct OutputEvent {
    pub id: String,
    pub data: Vec<u8>,
}

/// The exit code of a session's process.
#[derive(Debug)]
pub struct ExitEvent {
    pub id: String,
    pub code: u32,
}

/// What a relay emits for one read while `open`: the bytes of a non-empty
/// read. An empty read (end of stream) or a failed one emits nothing and
/// ends the relay.
pub open spec fn relay_chunk(open: bool, read: Result<Vec<u8>, String>) -> Option<Seq<u8>> {
    if open && read is Ok && read->Ok_0@.len() > 0 {
        Some(read->Ok_0@)
    } else {
        None
    }
}

/// The bytes a relay emits, in order, for a run of reads.
pub open spec fn relayed_bytes(open: bool, reads: Seq<Result<Vec<u8>, String>>) -> Seq<u8>
    decreases reads.len(),
{
    if reads.len() == 0 {
        Seq::empty()
    } else {
        match relay_chunk(open, reads[0]) {
            Some(b) => b + relayed_bytes(true, reads.drop_first()),
            None => relayed_bytes(false, reads.drop_first()),
        }
    }
}

/// The bytes of the stream up to its end: the concatenation of the reads
/// before the first empty or failed one.
pub open spec fn stream_until_end(reads: Seq<Result<Vec<u8>, String>>) -> Seq<u8>
    decreases reads.len(),
{
    if reads.len() == 0 {
        Seq::empty()
    } else if reads[0] is Ok && reads[0]->Ok_0@.len() > 0 {
        reads[0]->Ok_0@ + stream_until_end(reads.drop_first())
    } else {
        Seq::empty()
    }
}

/// Relays one session's output: turns each read of the pty into at most one
/// output event, until end of stream.
pub struct OutputRelay {
    id: String,
    open: bool,
}

impl OutputRelay {
    pub closed spec fn session_id(&self) -> Seq<char> {
        self.id@
    }

    pub closed spec fn is_open(&self) -> bool {
        self.open
    }

    /// A relay for session `id`, before its first read.
    pub fn new(id: String) -> (r: Self)
        ensures
            r.session_id() == id@,
            r.is_open(),
    {
        OutputRelay { id, open: true }
    }

    /// Whether the relay should read again.
    pub fn is_running(&self) -> (r: bool)
        ensures
            r == self.is_open(),
    {
        self.open
    }

    /// Decides what to emit for the outcome of one read: the bytes read,
    /// tagged with the session's id, or nothing and the end of the relay.
    pub fn on_read(&mut self, read: Result<Vec<u8>, String>) -> (r: Option<OutputEvent>)
        ensures
            final(self).session_id() == old(self).session_id(),
            final(self).is_open() == relay_chunk(old(self).is_open(), read) is Some,
            match relay_chunk(old(self).is_open(), read) {
                Some(b) => r is Some && r->Some_0.id@ == old(self).session_id() && r->Some_0.data@
                    == b,
                None => r is None,
            },
    {
        if !self.open {
            return None;
        }
        match read {
            Ok(data) => {
                if data.len() == 0 {
                    self.open = false;
                    None
                } else {
                    Some(OutputEvent { id: self.id.clone(), data })
                }
            },
            Err(_) => {
                self.open = false;
                None
            },
        }
    }
}

/// The two workers of the session `id` returned by [`PtyManager::spawn`]:
/// its output relay, before its first read, and its exit watcher, before
/// its wait returns.
pub fn session_workers(id: &String) -> (r: (OutputRelay, ExitWatcher))
    ensures
        r.0.session_id() == id@,
        r.0.is_open(),
        r.1.session_id() == id@,
        r.1.is_waiting(),
{
    (OutputRelay::new(id.clone()), ExitWatcher::new(id.clone()))
}

/// Once the relay has stopped it emits nothing more, whatever is read.
pub proof fn lemma_closed_relay_is_silent(reads: Seq<Result<Vec<u8>, String>>)
    ensures
        relayed_bytes(false, reads) == Seq::<u8>::empty(),
    decreases reads.len(),
{
    if reads.len() > 0 {
        lemma_closed_relay_is_silent(reads.drop_first());
    }
}

/// The output events of a session, concatenated in the order they are
/// emitted, are exactly the bytes read from its pty up to end of stream.
pub proof fn lemma_relay_preserves_stream(reads: Seq<Result<Vec<u8>, String>>)
    ensures
        relayed_bytes(true, reads) == stream_until_end(reads),
    decreases reads.len(),
{
    if reads.len() > 0 {
        lemma_relay_preserves_stream(reads.drop_first());
        if relay_chunk(true, reads[0]) is None {
            lemma_closed_relay_is_silent(reads.drop_first());
        }
    }
}

/// The exit code a watcher reports for one wait outcome while `waiting`.
pub open spec fn exit_report(waiting: bool, status: Result<u32, String>) -> Option<u32> {
    if waiting && status is Ok {
        Some(status->Ok_0)
    } else {
        None
    }
}

/// How many exit events a watcher emits for a run of wait outcomes.
pub open spec fn exit_reports(waiting: bool, statuses: Seq<Result<u32, String>>) -> nat
    decreases statuses.len(),
{
    if statuses.len() == 0 {
        0
    } else {
        (if exit_report(waiting, statuses[0]) is Some { 1nat } else { 0nat }) + exit_reports(
            false,
            statuses.drop_first(),
        )
    }
}

/// Watches one session's process: a single blocking wait, then at most one
/// exit event.
pub struct ExitWatcher {
    id: String,
    waiting: bool,
}

impl ExitWatcher {
    pub closed spec fn session_id(&self) -> Seq<char> {
        self.id@
    }

    pub closed spec fn is_waiting(&self) -> bool {
        self.waiting
    }

    /// A watcher for session `id`, before its wait returns.
    pub fn new(id: String) -> (r: Self)
        ensures
            r.session_id() == id@,
            r.is_waiting(),
    {
        ExitWatcher { id, waiting: true }
    }

    /// Decides what to emit once the wait returns: the exit code, tagged with
    /// the session's id, if the status could be had and nothing was emitted
    /// before. The watcher is done afterwards either way.
    pub fn on_wait(&mut self, status: Result<u32, String>) -> (r: Option<ExitEvent>)
        ensures
            final(self).session_id() == old(self).session_id(),
            !final(self).is_waiting(),
            match exit_report(old(self).is_waiting(), status) {
                Some(code) => r is Some && r->Some_0.id@ == old(self).session_id() && r->Some_0.code
                    == code,
                None => r is None,
            },
    {
        let was_waiting = self.waiting;
        self.waiting = false;
        match status {
            Ok(code) => {
                if was_waiting {
                    Some(ExitEvent { id: self.id.clone(), code })
                } else {
                    None
                }
            },
            Err(_) => None,
        }
    }
}

/// A watcher that is done emits nothing more.
pub proof fn lemma_done_watcher_is_silent(statuses: Seq<Result<u32, String>>)
    ensures
        exit_reports(false, statuses) == 0,
    decreases statuses.len(),
{
    if statuses.len() > 0 {
        lemma_done_watcher_is_silent(statuses.drop_first());
    }
}

/// A session yields at most one exit event, and exactly one when its wait
/// returns an exit status.
pub proof fn lemma_exit_reported_once(statuses: Seq<Result<u32, String>>)
    ensures
        exit_reports(true, statuses) <= 1,
        statuses.len() > 0 && statuses[0] is Ok ==> exit_reports(true, statuses) == 1,
{
    if statuses.len() > 0 {
        lemma_done_watcher_is_silent(statuses.drop_first());
    }
}

/// Killing a session twice leaves the same sessions as killing it once, and
/// the id is not live afterwards.
pub proof fn lemma_kill_idempotent<H>(live: Map<Seq<char>, H>, id: Seq<char>)
    ensures
        live.remove(id).remove(id) == live.remove(id),
        !live.remove(id).contains_key(id),
{
    assert(live.remove(id).remove(id) =~= live.remove(id));
}

/// Sessions spawned one after another, each under an id that was not live
/// when it was registered, carry pairwise distinct ids, all of them live at
/// the end.
pub proof fn lemma_spawned_ids_distinct<H>(
    states: Seq<Map<Seq<char>, H>>,
    ids: Seq<Seq<char>>,
    handles: Seq<H>,
)
    requires
        states.len() == ids.len() + 1,
        handles.len() == ids.len(),
        forall|k: int|
            0 <= k < ids.len() ==> !(#[trigger] states[k]).contains_key(ids[k]) && states[k + 1]
                == states[k].insert(ids[k], handles[k]),
    ensures
        forall|a: int, b: int| 0 <= a < b < ids.len() ==> ids[a] != ids[b],
        forall|a: int| 0 <= a < ids.len() ==> states.last().contains_key(#[trigger] ids[a]),
{
    assert forall|a: int, c: int| 0 <= a < c <= ids.len() implies #[trigger] states[c].contains_key(
        ids[a],
    ) by {
        lemma_key_stays(states, ids, handles, a, c);
    }
    assert forall|a: int, b: int| 0 <= a < b < ids.len() implies ids[a] != ids[b] by {
        assert(states[b].contains_key(ids[a]));
        assert(!states[b].contains_key(ids[b]));
    }
    assert forall|a: int| 0 <= a < ids.len() implies states.last().contains_key(#[trigger] ids[a]) by {
        assert(states[ids.len() as int].contains_key(ids[a]));
    }
}

proof fn lemma_key_stays<H>(
    states: Seq<Map<Seq<char>, H>>,
    ids: Seq<Seq<char>>,
    handles: Seq<H>,
    a: int,
    c: int,
)
    requires
        states.len() == ids.len() + 1,
        handles.len() == ids.len(),
        forall|k: int|
            0 <= k < ids.len() ==> !(#[trigger] states[k]).contains_key(ids[k]) && states[k + 1]
                == states[k].insert(ids[k], handles[k]),
        0 <= a < c <= ids.len(),
    ensures
        states[c].contains_key(ids[a]),
    decreases c - a,
{
    if c == a + 1 {
        assert(states[a + 1] == states[a].insert(ids[a], handles[a]));
    } else {
        lemma_key_stays(states, ids, handles, a, c - 1);
        assert(states[c] == states[c - 1].insert(ids[c - 1], handles[c - 1]));
    }
}

} // verus!
