//! The open terminal sessions and which one is active.
use vstd::prelude::*;
use crate::command_knowledge::indexer::copy_string;
use crate::models::{is_error, CommandError};
use crate::terminal::models::{TerminalSessionInfo, TerminalShell};
use crate::text::{chars_of, equal_chars};

verus! {

/// What the manager keeps of an open session (the pseudo terminal itself
/// stays with the caller, under the same id).
#[derive(Clone, Debug)]
pub struct TerminalSessionRecord {
    pub session_id: String,
    pub shell: TerminalShell,
    pub working_directory: String,
}

/// A session as values.
pub struct SessionView {
    pub session_id: Seq<char>,
    pub shell: TerminalShell,
    pub working_directory: Seq<char>,
}

pub open spec fn session_view(s: TerminalSessionRecord) -> SessionView {
    SessionView {
        session_id: s.session_id@,
        shell: s.shell,
        working_directory: s.working_directory@,
    }
}

pub open spec fn session_views(v: Seq<TerminalSessionRecord>) -> Seq<SessionView> {
    v.map_values(|s: TerminalSessionRecord| session_view(s))
}

/// The session with the given id.
pub open spec fn lookup(s: Seq<SessionView>, id: Seq<char>) -> Option<SessionView>
    decreases s.len(),
{
    if s.len() == 0 {
        None
    } else if s.last().session_id == id {
        Some(s.last())
    } else {
        lookup(s.drop_last(), id)
    }
}

/// No two sessions share an id.
pub open spec fn ids_unique(s: Seq<SessionView>) -> bool {
    forall|i: int, j: int|
        0 <= i < j < s.len() ==> (#[trigger] s[i]).session_id != (#[trigger] s[j]).session_id
}

/// The sessions are well kept: ids are unique and the active id, if any, names a session.
pub open spec fn manager_wf(s: Seq<SessionView>, active: Option<Seq<char>>) -> bool {
    &&& ids_unique(s)
    &&& active matches Some(a) ==> lookup(s, a) is Some
}

/// The sessions after `rec` is added, replacing a session with its id.
pub open spec fn with_session(s: Seq<SessionView>, rec: SessionView) -> Seq<SessionView>
    decreases s.len(),
{
    if s.len() == 0 {
        seq![rec]
    } else if s[0].session_id == rec.session_id {
        s.update(0, rec)
    } else {
        seq![s[0]] + with_session(s.drop_first(), rec)
    }
}

/// The sessions without the one with the given id.
pub open spec fn without_session(s: Seq<SessionView>, id: Seq<char>) -> Seq<SessionView>
    decreases s.len(),
{
    if s.len() == 0 {
        s
    } else if s[0].session_id == id {
        without_session(s.drop_first(), id)
    } else {
        seq![s[0]] + without_session(s.drop_first(), id)
    }
}

/// The active session after removing `id`: unchanged unless it was the removed
/// one; then the first remaining session, or none.
pub open spec fn active_after_remove(
    rest: Seq<SessionView>,
    active: Option<Seq<char>>,
    id: Seq<char>,
) -> Option<Seq<char>> {
    if active == Some(id) {
        if rest.len() == 0 {
            None
        } else {
            Some(rest[0].session_id)
        }
    } else {
        active
    }
}

/// The open sessions of the application, found by their ids. They are kept
/// in a `Vec` whose ids are unique (see `manager_wf`) rather than a
/// `HashMap<String, _>`: vstd specifies hash maps only for keys whose hashing
/// it models (`obeys_key_model`), and it does not model `String`.
pub struct TerminalManager {
    sessions: Vec<TerminalSessionRecord>,
    active_session_id: Option<String>,
}

pub open spec fn opt_id(o: Option<String>) -> Option<Seq<char>> {
    match o {
        Some(s) => Some(s@),
        None => None,
    }
}

pub proof fn lemma_lookup_in(s: Seq<SessionView>, id: Seq<char>)
    ensures
        lookup(s, id) matches Some(v) ==> v.session_id == id && s.contains(v),
        lookup(s, id) is None ==> forall|i: int| 0 <= i < s.len() ==> (#[trigger] s[i]).session_id != id,
    decreases s.len(),
{
    if s.len() > 0 {
        lemma_lookup_in(s.drop_last(), id);
        if s.last().session_id != id {
            assert forall|i: int| 0 <= i < s.len() && lookup(s, id) is None implies (#[trigger] s[i]).session_id != id by {
                if i < s.len() - 1 {
                    assert(s[i] == s.drop_last()[i]);
                }
            }
            if let Some(v) = lookup(s, id) {
                assert(s.drop_last().contains(v));
                let k = choose|k: int| 0 <= k < s.drop_last().len() && s.drop_last()[k] == v;
                assert(s[k] == v);
            }
        } else {
            assert(s[s.len() - 1] == s.last());
        }
    }
}

/// With unique ids, the session found under an id is the one at its position.
pub proof fn lemma_lookup_at(s: Seq<SessionView>, i: int)
    requires
        ids_unique(s),
        0 <= i < s.len(),
    ensures
        lookup(s, s[i].session_id) == Some(s[i]),
    decreases s.len(),
{
    if i < s.len() - 1 {
        assert(s.drop_last()[i] == s[i]);
        assert(ids_unique(s.drop_last()));
        assert(s.last().session_id != s[i].session_id);
        lemma_lookup_at(s.drop_last(), i);
    }
}

pub proof fn lemma_lookup_none(s: Seq<SessionView>, id: Seq<char>)
    requires
        forall|i: int| 0 <= i < s.len() ==> (#[trigger] s[i]).session_id != id,
    ensures
        lookup(s, id) is None,
    decreases s.len(),
{
    if s.len() > 0 {
        assert(s.last() == s[s.len() - 1]);
        assert forall|i: int| 0 <= i < s.drop_last().len() implies (#[trigger] s.drop_last()[i]).session_id != id by {
            assert(s.drop_last()[i] == s[i]);
        }
        lemma_lookup_none(s.drop_last(), id);
    }
}

impl TerminalManager {
    pub closed spec fn sessions_view(&self) -> Seq<SessionView> {
        session_views(self.sessions@)
    }

    pub closed spec fn active_view(&self) -> Option<Seq<char>> {
        opt_id(self.active_session_id)
    }

    pub open spec fn wf(&self) -> bool {
        manager_wf(self.sessions_view(), self.active_view())
    }

    pub fn new() -> (r: Self)
        ensures
            r.wf(),
            r.sessions_view() == Seq::<SessionView>::empty(),
            r.active_view() is None,
    {
        let r = TerminalManager { sessions: Vec::new(), active_session_id: None };
        assert(r.sessions_view() =~= Seq::<SessionView>::empty());
        r
    }

    fn position_of(&self, session_id: &Vec<char>) -> (r: Option<usize>)
        requires
            self.wf(),
        ensures
            r matches Some(i) ==> i < self.sessions@.len() && self.sessions_view()[i as int].session_id
                == session_id@,
            r is None ==> forall|i: int|
                0 <= i < self.sessions_view().len() ==> (#[trigger] self.sessions_view()[i]).session_id
                    != session_id@,
    {
        let mut i: usize = 0;
        while i < self.sessions.len()
            invariant
                i <= self.sessions.len(),
                forall|j: int|
                    0 <= j < i ==> (#[trigger] self.sessions_view()[j]).session_id != session_id@,
            decreases self.sessions.len() - i,
        {
            let id = chars_of(self.sessions[i].session_id.as_str());
            if equal_chars(&id, session_id) {
                return Some(i);
            }
            i = i + 1;
        }
        None
    }

    /// Adds a session (replacing one with the same id) and makes it active; returns its id.
    pub fn create_session(&mut self, session: TerminalSessionRecord) -> (r: String)
        requires
            old(self).wf(),
        ensures
            final(self).wf(),
            r@ == session.session_id@,
            final(self).sessions_view() == with_session(old(self).sessions_view(), session_view(session)),
            final(self).active_view() == Some(session.session_id@),
    {
        let id_chars = chars_of(session.session_id.as_str());
        let session_id = copy_string(&session.session_id);
        let active = copy_string(&session.session_id);
        let ghost s = self.sessions_view();
        let ghost rec = session_view(session);
        match self.position_of(&id_chars) {
            Some(i) => {
                self.sessions.set(i, session);
                proof {
                    lemma_with_session_replaces(s, rec, i as int);
                }
                assert(self.sessions_view() =~= s.update(i as int, rec));
            },
            None => {
                self.sessions.push(session);
                proof {
                    lemma_with_session_appends(s, rec);
                }
                assert(self.sessions_view() =~= s.push(rec));
            },
        }
        self.active_session_id = Some(active);
        proof {
            created_session_is_found(s, rec);
        }
        session_id
    }

    /// Removes a session; when it was the active one, the first remaining
    /// session becomes active (none when none remains).
    pub fn remove_session(&mut self, session_id: &str) -> (r: Option<TerminalSessionRecord>)
        requires
            old(self).wf(),
        ensures
            final(self).wf(),
            match lookup(old(self).sessions_view(), session_id@) {
                Some(v) => r matches Some(rec) && session_view(rec) == v,
                None => r is None,
            },
            final(self).sessions_view() == without_session(old(self).sessions_view(), session_id@),
            final(self).active_view() == active_after_remove(
                final(self).sessions_view(),
                old(self).active_view(),
                session_id@,
            ),
    {
        let id_chars = chars_of(session_id);
        let ghost s = self.sessions_view();
        let removed = match self.position_of(&id_chars) {
            Some(i) => {
                let rec = self.sessions.remove(i);
                proof {
                    lemma_lookup_at(s, i as int);
                    lemma_without_unique(s, i as int);
                }
                assert(self.sessions_view() =~= s.remove(i as int));
                Some(rec)
            },
            None => {
                proof {
                    lemma_lookup_none(s, session_id@);
                    lemma_without_absent(s, session_id@);
                }
                None
            },
        };
        let was_active = match &self.active_session_id {
            Some(a) => {
                let av = chars_of(a.as_str());
                equal_chars(&av, &id_chars)
            },
            None => false,
        };
        if was_active {
            if self.sessions.len() == 0 {
                self.active_session_id = None;
            } else {
                self.active_session_id = Some(copy_string(&self.sessions[0].session_id));
                proof {
                    lemma_lookup_at(self.sessions_view(), 0);
                }
            }
        }
        proof {
            let t = self.sessions_view();
            if removed is Some {
                let i = choose|i: int| 0 <= i < s.len() && t == s.remove(i) && s[i].session_id == session_id@;
                assert forall|a: int, b: int| 0 <= a < b < t.len() implies (#[trigger] t[a]).session_id
                    != (#[trigger] t[b]).session_id by {
                    if a < i && b < i {
                        assert(t[a] == s[a] && t[b] == s[b]);
                    } else if a < i {
                        assert(t[a] == s[a] && t[b] == s[b + 1]);
                    } else {
                        assert(t[a] == s[a + 1] && t[b] == s[b + 1]);
                    }
                }
                if !was_active {
                    if let Some(act) = self.active_view() {
                        lemma_lookup_in(s, act);
                        let v = lookup(s, act)->0;
                        let k = choose|k: int| 0 <= k < s.len() && s[k] == v;
                        assert(k != i);
                        if k < i {
                            assert(t[k] == s[k]);
                            lemma_lookup_at(t, k);
                        } else {
                            assert(t[k - 1] == s[k]);
                            lemma_lookup_at(t, k - 1);
                        }
                    }
                }
            }
        }
        removed
    }

    /// The session with the given id, or an error when there is none.
    pub fn get_session(&self, session_id: &str) -> (r: Result<&TerminalSessionRecord, CommandError>)
        requires
            self.wf(),
        ensures
            match lookup(self.sessions_view(), session_id@) {
                Some(v) => r matches Ok(rec) && session_view(*rec) == v,
                None => r matches Err(e) && is_error(e, "terminalFailed"@, "terminal session was not found"@),
            },
    {
        let id_chars = chars_of(session_id);
        match self.position_of(&id_chars) {
            Some(i) => {
                proof {
                    lemma_lookup_at(self.sessions_view(), i as int);
                }
                Ok(&self.sessions[i])
            },
            None => {
                proof {
                    lemma_lookup_none(self.sessions_view(), session_id@);
                }
                Err(CommandError::terminal_failed("terminal session was not found"))
            },
        }
    }

    /// The active session, if any.
    pub fn active_session(&self) -> (r: Option<&TerminalSessionRecord>)
        requires
            self.wf(),
        ensures
            match self.active_view() {
                Some(a) => r matches Some(rec) && lookup(self.sessions_view(), a) == Some(session_view(*rec)),
                None => r is None,
            },
    {
        match &self.active_session_id {
            Some(a) => {
                let id_chars = chars_of(a.as_str());
                match self.position_of(&id_chars) {
                    Some(i) => {
                        proof {
                            lemma_lookup_at(self.sessions_view(), i as int);
                        }
                        Some(&self.sessions[i])
                    },
                    None => {
                        proof {
                            lemma_lookup_none(self.sessions_view(), a@);
                        }
                        None
                    },
                }
            },
            None => None,
        }
    }

    /// Makes a session active, or reports that there is no such session.
    pub fn set_active_session(&mut self, session_id: &str) -> (r: Result<(), CommandError>)
        requires
            old(self).wf(),
        ensures
            final(self).wf(),
            final(self).sessions_view() == old(self).sessions_view(),
            lookup(old(self).sessions_view(), session_id@) is Some ==> r is Ok && final(self).active_view()
                == Some(session_id@),
            lookup(old(self).sessions_view(), session_id@) is None ==> (r matches Err(e) && is_error(
                e,
                "terminalFailed"@,
                "terminal session was not found"@,
            )) && final(self).active_view() == old(self).active_view(),
    {
        let id_chars = chars_of(session_id);
        match self.position_of(&id_chars) {
            Some(i) => {
                proof {
                    lemma_lookup_at(self.sessions_view(), i as int);
                }
                self.active_session_id = Some(crate::text::owned(session_id));
                Ok(())
            },
            None => {
                proof {
                    lemma_lookup_none(self.sessions_view(), session_id@);
                }
                Err(CommandError::terminal_failed("terminal session was not found"))
            },
        }
    }

    fn info_from_session(&self, session: &TerminalSessionRecord) -> (r: TerminalSessionInfo)
        ensures
            r.session_id@ == session.session_id@,
            r.shell == session.shell,
            r.working_directory@ == session.working_directory@,
            r.active == (self.active_view() == Some(session.session_id@)),
    {
        let active = match &self.active_session_id {
            Some(a) => {
                let av = chars_of(a.as_str());
                let sv = chars_of(session.session_id.as_str());
                equal_chars(&av, &sv)
            },
            None => false,
        };
        TerminalSessionInfo {
            session_id: copy_string(&session.session_id),
            shell: session.shell,
            working_directory: copy_string(&session.working_directory),
            active,
        }
    }

    /// What the user interface shows of a session, or an error when there is none.
    pub fn session_info(&self, session_id: &str) -> (r: Result<TerminalSessionInfo, CommandError>)
        requires
            self.wf(),
        ensures
            match lookup(self.sessions_view(), session_id@) {
                Some(v) => r matches Ok(info) && info.session_id@ == v.session_id && info.shell
                    == v.shell && info.working_directory@ == v.working_directory && info.active == (
                self.active_view() == Some(v.session_id)),
                None => r matches Err(e) && is_error(e, "terminalFailed"@, "terminal session was not found"@),
            },
    {
        match self.get_session(session_id) {
            Ok(session) => Ok(self.info_from_session(session)),
            Err(e) => Err(e),
        }
    }

    /// What the user interface shows of the active session, if any.
    pub fn active_session_info(&self) -> (r: Option<TerminalSessionInfo>)
        requires
            self.wf(),
        ensures
            match self.active_view() {
                Some(a) => r matches Some(info) && info.session_id@ == a && info.active && (lookup(
                    self.sessions_view(),
                    a,
                ) matches Some(v) && info.shell == v.shell && info.working_directory@
                    == v.working_directory),
                None => r is None,
            },
    {
        match self.active_session() {
            Some(session) => {
                proof {
                    lemma_lookup_in(self.sessions_view(), self.active_view()->0);
                }
                Some(self.info_from_session(session))
            },
            None => None,
        }
    }
}

proof fn lemma_with_session_replaces(s: Seq<SessionView>, rec: SessionView, i: int)
    requires
        ids_unique(s),
        0 <= i < s.len(),
        s[i].session_id == rec.session_id,
    ensures
        with_session(s, rec) == s.update(i, rec),
    decreases s.len(),
{
    if i > 0 {
        assert(s[0].session_id != rec.session_id);
        assert(ids_unique(s.drop_first())) by {
            assert forall|a: int, b: int| 0 <= a < b < s.drop_first().len() implies (#[trigger] s.drop_first()[a]).session_id
                != (#[trigger] s.drop_first()[b]).session_id by {
                assert(s.drop_first()[a] == s[a + 1] && s.drop_first()[b] == s[b + 1]);
            }
        }
        lemma_with_session_replaces(s.drop_first(), rec, i - 1);
        assert(seq![s[0]] + s.drop_first().update(i - 1, rec) =~= s.update(i, rec));
    }
}

proof fn lemma_with_session_appends(s: Seq<SessionView>, rec: SessionView)
    requires
        forall|i: int| 0 <= i < s.len() ==> (#[trigger] s[i]).session_id != rec.session_id,
    ensures
        with_session(s, rec) == s.push(rec),
    decreases s.len(),
{
    if s.len() > 0 {
        assert forall|i: int| 0 <= i < s.drop_first().len() implies (#[trigger] s.drop_first()[i]).session_id
            != rec.session_id by {
            assert(s.drop_first()[i] == s[i + 1]);
        }
        lemma_with_session_appends(s.drop_first(), rec);
        assert(seq![s[0]] + s.drop_first().push(rec) =~= s.push(rec));
    }
}

proof fn lemma_without_unique(s: Seq<SessionView>, i: int)
    requires
        ids_unique(s),
        0 <= i < s.len(),
    ensures
        without_session(s, s[i].session_id) == s.remove(i),
    decreases s.len(),
{
    let id = s[i].session_id;
    if i == 0 {
        assert forall|k: int| 0 <= k < s.drop_first().len() implies (#[trigger] s.drop_first()[k]).session_id != id by {
            assert(s.drop_first()[k] == s[k + 1]);
        }
        lemma_without_absent(s.drop_first(), id);
        assert(s.drop_first() =~= s.remove(0));
    } else {
        assert(s[0].session_id != id);
        assert(ids_unique(s.drop_first())) by {
            assert forall|a: int, b: int| 0 <= a < b < s.drop_first().len() implies (#[trigger] s.drop_first()[a]).session_id
                != (#[trigger] s.drop_first()[b]).session_id by {
                assert(s.drop_first()[a] == s[a + 1] && s.drop_first()[b] == s[b + 1]);
            }
        }
        assert(s.drop_first()[i - 1] == s[i]);
        lemma_without_unique(s.drop_first(), i - 1);
        assert(seq![s[0]] + s.drop_first().remove(i - 1) =~= s.remove(i));
    }
}

proof fn lemma_without_absent(s: Seq<SessionView>, id: Seq<char>)
    requires
        forall|i: int| 0 <= i < s.len() ==> (#[trigger] s[i]).session_id != id,
    ensures
        without_session(s, id) == s,
    decreases s.len(),
{
    if s.len() > 0 {
        assert(s[0].session_id != id);
        assert forall|k: int| 0 <= k < s.drop_first().len() implies (#[trigger] s.drop_first()[k]).session_id != id by {
            assert(s.drop_first()[k] == s[k + 1]);
        }
        lemma_without_absent(s.drop_first(), id);
        assert(seq![s[0]] + s.drop_first() =~= s);
    }
}

/// Ids that occur nowhere in `s` no longer change the sessions' uniqueness once `rec` is added.
proof fn lemma_unique_after_update(s: Seq<SessionView>, rec: SessionView, i: int)
    requires
        ids_unique(s),
        0 <= i < s.len(),
        s[i].session_id == rec.session_id,
    ensures
        ids_unique(s.update(i, rec)),
{
    let t = s.update(i, rec);
    assert forall|a: int, b: int| 0 <= a < b < t.len() implies (#[trigger] t[a]).session_id
        != (#[trigger] t[b]).session_id by {
        if a == i {
            assert(t[b] == s[b]);
        } else if b == i {
            assert(t[a] == s[a]);
        } else {
            assert(t[a] == s[a] && t[b] == s[b]);
        }
    }
}

proof fn lemma_unique_after_push(s: Seq<SessionView>, rec: SessionView)
    requires
        ids_unique(s),
        forall|i: int| 0 <= i < s.len() ==> (#[trigger] s[i]).session_id != rec.session_id,
    ensures
        ids_unique(s.push(rec)),
{
    let t = s.push(rec);
    assert forall|a: int, b: int| 0 <= a < b < t.len() implies (#[trigger] t[a]).session_id
        != (#[trigger] t[b]).session_id by {
        if b == s.len() {
            assert(t[a] == s[a]);
        } else {
            assert(t[a] == s[a] && t[b] == s[b]);
        }
    }
}

proof fn lemma_unique_after_remove(s: Seq<SessionView>, i: int)
    requires
        ids_unique(s),
        0 <= i < s.len(),
    ensures
        ids_unique(s.remove(i)),
{
    let t = s.remove(i);
    assert forall|a: int, b: int| 0 <= a < b < t.len() implies (#[trigger] t[a]).session_id
        != (#[trigger] t[b]).session_id by {
        if a < i && b < i {
            assert(t[a] == s[a] && t[b] == s[b]);
        } else if a < i {
            assert(t[a] == s[a] && t[b] == s[b + 1]);
        } else {
            assert(t[a] == s[a + 1] && t[b] == s[b + 1]);
        }
    }
}

/// A session that has just been created is found under its id, and ids stay unique.
pub proof fn created_session_is_found(s: Seq<SessionView>, rec: SessionView)
    requires
        ids_unique(s),
    ensures
        ids_unique(with_session(s, rec)),
        lookup(with_session(s, rec), rec.session_id) == Some(rec),
{
    if exists|i: int| 0 <= i < s.len() && s[i].session_id == rec.session_id {
        let i = choose|i: int| 0 <= i < s.len() && s[i].session_id == rec.session_id;
        lemma_with_session_replaces(s, rec, i);
        lemma_unique_after_update(s, rec, i);
        assert(s.update(i, rec)[i] == rec);
        lemma_lookup_at(s.update(i, rec), i);
    } else {
        lemma_with_session_appends(s, rec);
        lemma_unique_after_push(s, rec);
        assert(s.push(rec)[s.len() as int] == rec);
        lemma_lookup_at(s.push(rec), s.len() as int);
    }
}

/// Creating a session leaves every session with another id as it was.
pub proof fn create_keeps_other_sessions(s: Seq<SessionView>, rec: SessionView, other: Seq<char>)
    requires
        ids_unique(s),
        other != rec.session_id,
    ensures
        lookup(with_session(s, rec), other) == lookup(s, other),
{
    created_session_is_found(s, rec);
    let t = with_session(s, rec);
    let n: int = if exists|i: int| 0 <= i < s.len() && s[i].session_id == rec.session_id {
        let i = choose|i: int| 0 <= i < s.len() && s[i].session_id == rec.session_id;
        lemma_with_session_replaces(s, rec, i);
        i
    } else {
        lemma_with_session_appends(s, rec);
        s.len() as int
    };
    assert(forall|k: int| 0 <= k < s.len() && k != n ==> t[k] == s[k]);
    lemma_lookup_in(s, other);
    lemma_lookup_in(t, other);
    if let Some(v) = lookup(s, other) {
        let k = choose|k: int| 0 <= k < s.len() && s[k] == v;
        assert(k != n);
        assert(t[k] == s[k]);
        lemma_lookup_at(t, k);
        lemma_lookup_at(s, k);
    } else {
        assert forall|k: int| 0 <= k < t.len() implies (#[trigger] t[k]).session_id != other by {
            if k != n {
                assert(t[k] == s[k]);
            }
        }
        lemma_lookup_none(t, other);
    }
}

/// After a session is removed, nothing is found under its id.
pub proof fn removed_session_is_gone(s: Seq<SessionView>, id: Seq<char>)
    ensures
        lookup(without_session(s, id), id) is None,
        forall|k: int|
            0 <= k < without_session(s, id).len() ==> (#[trigger] without_session(s, id)[k]).session_id
                != id,
    decreases s.len(),
{
    if s.len() > 0 {
        removed_session_is_gone(s.drop_first(), id);
        let r = without_session(s.drop_first(), id);
        if s[0].session_id != id {
            assert forall|k: int| 0 <= k < (seq![s[0]] + r).len() implies (#[trigger] (seq![s[0]]
                + r)[k]).session_id != id by {
                if k > 0 {
                    assert((seq![s[0]] + r)[k] == r[k - 1]);
                }
            }
        }
    }
    lemma_lookup_none(without_session(s, id), id);
}

/// Removing a session leaves every session with another id as it was.
pub proof fn remove_keeps_other_sessions(s: Seq<SessionView>, id: Seq<char>, other: Seq<char>)
    requires
        ids_unique(s),
        other != id,
    ensures
        lookup(without_session(s, id), other) == lookup(s, other),
{
    lemma_lookup_in(s, other);
    if exists|i: int| 0 <= i < s.len() && s[i].session_id == id {
        let i = choose|i: int| 0 <= i < s.len() && s[i].session_id == id;
        lemma_without_unique(s, i);
        lemma_unique_after_remove(s, i);
        let t = s.remove(i);
        if let Some(v) = lookup(s, other) {
            let k = choose|k: int| 0 <= k < s.len() && s[k] == v;
            assert(k != i);
            lemma_lookup_at(s, k);
            if k < i {
                assert(t[k] == s[k]);
                lemma_lookup_at(t, k);
            } else {
                assert(t[k - 1] == s[k]);
                lemma_lookup_at(t, k - 1);
            }
        } else {
            assert forall|k: int| 0 <= k < t.len() implies (#[trigger] t[k]).session_id != other by {
                if k < i {
                    assert(t[k] == s[k]);
                } else {
                    assert(t[k] == s[k + 1]);
                }
            }
            lemma_lookup_none(t, other);
        }
    } else {
        lemma_without_absent(s, id);
    }
}

} // verus!
