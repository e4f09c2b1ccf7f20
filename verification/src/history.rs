//! Chat sessions and their messages. The sessions form a map from session
//! identifier to session; one of them may be the current session.

use vstd::prelude::*;
use crate::stamp::{Timestamp, ts_le, timestamp_le, now_utc, new_uuid, utc_format, format_utc, simple_pattern};
use crate::text::{string_of, push_str_chars, chars_of};
use crate::gemini::{Content, ContentView, Part};

verus! {

/// One message of a session.
pub struct ChatMessage {
    pub id: u128,
    pub content: String,
    pub is_user: bool,
    pub timestamp: Timestamp,
}

/// The plain-value model of a message.
#[verifier::ext_equal]
pub struct MessageView {
    pub id: u128,
    pub content: Seq<char>,
    pub is_user: bool,
    pub timestamp: Timestamp,
}

impl View for ChatMessage {
    type V = MessageView;

    open spec fn view(&self) -> MessageView {
        MessageView {
            id: self.id,
            content: self.content@,
            is_user: self.is_user,
            timestamp: self.timestamp,
        }
    }
}

impl ChatMessage {
    /// A copy of the message.
    pub fn duplicate(&self) -> (r: ChatMessage)
        ensures
            r@ == self@,
    {
        ChatMessage {
            id: self.id,
            content: self.content.clone(),
            is_user: self.is_user,
            timestamp: self.timestamp,
        }
    }
}

/// A conversation: a titled list of messages.
pub struct ChatSession {
    pub id: u128,
    pub title: String,
    pub created_at: Timestamp,
    pub updated_at: Timestamp,
    pub messages: Vec<ChatMessage>,
}

/// The plain-value model of a session.
#[verifier::ext_equal]
pub struct SessionView {
    pub id: u128,
    pub title: Seq<char>,
    pub created_at: Timestamp,
    pub updated_at: Timestamp,
    pub messages: Seq<MessageView>,
}

impl View for ChatSession {
    type V = SessionView;

    open spec fn view(&self) -> SessionView {
        SessionView {
            id: self.id,
            title: self.title@,
            created_at: self.created_at,
            updated_at: self.updated_at,
            messages: self.messages@.map_values(|m: ChatMessage| m@),
        }
    }
}

/// Errors of session operations.
#[derive(Debug, PartialEq, Eq, Structural, Clone, Copy)]
pub enum HistoryError {
    /// No session is current.
    NoActiveSession,
    /// No session has the identifier.
    SessionNotFound,
}

/// No two sessions share an identifier.
pub open spec fn ids_distinct(ss: Seq<ChatSession>) -> bool {
    forall|i: int, j: int| 0 <= i < ss.len() && 0 <= j < ss.len() && i != j ==> ss[i].id != ss[j].id
}

/// Some session has identifier `id`.
pub open spec fn has_id(ss: Seq<ChatSession>, id: u128) -> bool {
    exists|i: int| 0 <= i < ss.len() && ss[i].id == id
}

/// The position of the session with identifier `id`.
pub open spec fn pos_of(ss: Seq<ChatSession>, id: u128) -> int {
    choose|i: int| 0 <= i < ss.len() && ss[i].id == id
}

/// The sessions as a map from identifier to session.
pub open spec fn session_map(ss: Seq<ChatSession>) -> Map<u128, SessionView> {
    Map::new(|id: u128| has_id(ss, id), |id: u128| ss[pos_of(ss, id)]@)
}

proof fn lemma_pos_of(ss: Seq<ChatSession>, i: int)
    requires
        ids_distinct(ss),
        0 <= i < ss.len(),
    ensures
        has_id(ss, ss[i].id),
        pos_of(ss, ss[i].id) == i,
{
    let id = ss[i].id;
    assert(has_id(ss, id));
    let j = pos_of(ss, id);
    assert(0 <= j < ss.len() && ss[j].id == id);
}

proof fn lemma_map_push(ss: Seq<ChatSession>, s: ChatSession)
    requires
        ids_distinct(ss),
        !has_id(ss, s.id),
    ensures
        ids_distinct(ss.push(s)),
        session_map(ss.push(s)) == session_map(ss).insert(s.id, s@),
{
    let t = ss.push(s);
    assert forall|i: int, j: int| 0 <= i < t.len() && 0 <= j < t.len() && i != j implies t[i].id
        != t[j].id by {
        if i < ss.len() && j < ss.len() {
            assert(t[i] == ss[i] && t[j] == ss[j]);
        } else if i < ss.len() {
            assert(t[i] == ss[i]);
        } else {
            assert(t[j] == ss[j]);
        }
    }
    assert forall|id: u128| #[trigger] has_id(t, id) == (has_id(ss, id) || id == s.id) by {
        if has_id(ss, id) {
            let k = choose|k: int| 0 <= k < ss.len() && ss[k].id == id;
            assert(t[k] == ss[k]);
        }
        if id == s.id {
            assert(t[ss.len() as int] == s);
        }
        if has_id(t, id) && id != s.id {
            let k = choose|k: int| 0 <= k < t.len() && t[k].id == id;
            assert(k < ss.len());
            assert(ss[k] == t[k]);
        }
    }
    assert forall|id: u128| has_id(t, id) implies t[pos_of(t, id)]@ == (if id == s.id {
        s@
    } else {
        ss[pos_of(ss, id)]@
    }) by {
        if id == s.id {
            lemma_pos_of(t, ss.len() as int);
        } else {
            let k = pos_of(ss, id);
            assert(has_id(ss, id));
            lemma_pos_of(ss, k);
            assert(t[k] == ss[k]);
            lemma_pos_of(t, k);
        }
    }
    assert(session_map(t) =~= session_map(ss).insert(s.id, s@));
}

proof fn lemma_map_update(ss: Seq<ChatSession>, i: int, s: ChatSession)
    requires
        ids_distinct(ss),
        0 <= i < ss.len(),
        ss[i].id == s.id,
    ensures
        ids_distinct(ss.update(i, s)),
        session_map(ss.update(i, s)) == session_map(ss).insert(s.id, s@),
{
    let t = ss.update(i, s);
    assert forall|a: int, b: int| 0 <= a < t.len() && 0 <= b < t.len() && a != b implies t[a].id
        != t[b].id by {
        assert(t[a].id == ss[a].id && t[b].id == ss[b].id);
    }
    assert forall|id: u128| #[trigger] has_id(t, id) == has_id(ss, id) by {
        if has_id(ss, id) {
            let k = choose|k: int| 0 <= k < ss.len() && ss[k].id == id;
            assert(t[k].id == ss[k].id);
        }
        if has_id(t, id) {
            let k = choose|k: int| 0 <= k < t.len() && t[k].id == id;
            assert(t[k].id == ss[k].id);
        }
    }
    lemma_pos_of(ss, i);
    assert forall|id: u128| has_id(t, id) implies t[pos_of(t, id)]@ == (if id == s.id {
        s@
    } else {
        ss[pos_of(ss, id)]@
    }) by {
        let k = pos_of(ss, id);
        lemma_pos_of(ss, k);
        assert(t[k].id == ss[k].id);
        lemma_pos_of(t, k);
    }
    assert(session_map(t) =~= session_map(ss).insert(s.id, s@));
}

proof fn lemma_map_remove(ss: Seq<ChatSession>, i: int)
    requires
        ids_distinct(ss),
        0 <= i < ss.len(),
    ensures
        ids_distinct(ss.remove(i)),
        session_map(ss.remove(i)) == session_map(ss).remove(ss[i].id),
{
    let t = ss.remove(i);
    let id0 = ss[i].id;
    assert forall|a: int, b: int| 0 <= a < t.len() && 0 <= b < t.len() && a != b implies t[a].id
        != t[b].id by {
        let a2 = if a < i {
            a
        } else {
            a + 1
        };
        let b2 = if b < i {
            b
        } else {
            b + 1
        };
        assert(t[a] == ss[a2] && t[b] == ss[b2]);
    }
    assert forall|id: u128| #[trigger] has_id(t, id) == (has_id(ss, id) && id != id0) by {
        if has_id(ss, id) && id != id0 {
            let k = choose|k: int| 0 <= k < ss.len() && ss[k].id == id;
            assert(k != i);
            let k2 = if k < i {
                k
            } else {
                k - 1
            };
            assert(t[k2] == ss[k]);
        }
        if has_id(t, id) {
            let k = choose|k: int| 0 <= k < t.len() && t[k].id == id;
            let k2 = if k < i {
                k
            } else {
                k + 1
            };
            assert(t[k] == ss[k2]);
            assert(k2 != i);
        }
    }
    assert forall|id: u128| has_id(t, id) implies t[pos_of(t, id)]@ == ss[pos_of(ss, id)]@ by {
        let k = pos_of(t, id);
        let k2 = if k < i {
            k
        } else {
            k + 1
        };
        assert(t[k] == ss[k2]);
        lemma_pos_of(ss, k2);
    }
    assert(session_map(t) =~= session_map(ss).remove(id0));
}

/// Every element of `r` is one of the first `k` sessions.
pub open spec fn drawn_from(r: Seq<&ChatSession>, ss: Seq<ChatSession>, k: int) -> bool {
    forall|i: int| #![trigger r[i]] 0 <= i < r.len() ==> exists|j: int|
        #![trigger ss[j]] 0 <= j < k && *r[i] == ss[j]
}

/// Each of the first `k` sessions is an element of `r`.
pub open spec fn covers(r: Seq<&ChatSession>, ss: Seq<ChatSession>, k: int) -> bool {
    forall|j: int| #![trigger ss[j]] 0 <= j < k ==> exists|i: int|
        #![trigger r[i]] 0 <= i < r.len() && *r[i] == ss[j]
}

/// Later elements were not updated after earlier ones.
pub open spec fn sorted_by_recency(r: Seq<&ChatSession>) -> bool {
    forall|i: int, m: int| 0 <= i < m < r.len() ==> ts_le(r[m].updated_at, r[i].updated_at)
}

/// Where `s` goes in a list ordered most recent first: after the leading
/// sessions updated no earlier than it.
pub open spec fn recency_slot(r: Seq<ChatSession>, s: ChatSession) -> int
    decreases r.len(),
{
    if r.len() == 0 || !ts_le(s.updated_at, r[0].updated_at) {
        0
    } else {
        1 + recency_slot(r.drop_first(), s)
    }
}

/// The sessions ordered most recently updated first; of sessions updated
/// at the same time, the one that comes first in `ss` comes first.
pub open spec fn by_recency(ss: Seq<ChatSession>) -> Seq<ChatSession>
    decreases ss.len(),
{
    if ss.len() == 0 {
        Seq::empty()
    } else {
        let r = by_recency(ss.drop_last());
        r.insert(recency_slot(r, ss.last()), ss.last())
    }
}

/// A list of session references as the sessions themselves.
pub open spec fn derefs(r: Seq<&ChatSession>) -> Seq<ChatSession> {
    r.map_values(|x: &ChatSession| *x)
}

proof fn lemma_by_recency_step(ss: Seq<ChatSession>, k: int, r: Seq<&ChatSession>, p: int, s: &ChatSession)
    requires
        0 <= k < ss.len(),
        0 <= p <= r.len(),
        *s == ss[k],
        derefs(r) == by_recency(ss.take(k)),
        p == recency_slot(derefs(r), *s),
    ensures
        derefs(r.insert(p, s)) == by_recency(ss.take(k + 1)),
{
    let t = ss.take(k + 1);
    assert(t.drop_last() =~= ss.take(k));
    assert(t.last() == ss[k]);
    assert(derefs(r.insert(p, s)) =~= derefs(r).insert(p, ss[k]));
}

/// Inserts `s` after the sessions updated no earlier than it.
fn insert_by_recency<'a>(r: &mut Vec<&'a ChatSession>, s: &'a ChatSession) -> (p: usize)
    requires
        sorted_by_recency(old(r)@),
    ensures
        p <= old(r)@.len(),
        final(r)@ == old(r)@.insert(p as int, s),
        sorted_by_recency(final(r)@),
        p == recency_slot(derefs(old(r)@), *s),
{
    let mut p: usize = 0;
    let ghost rv = derefs(r@);
    assert(rv.skip(0) =~= rv);
    while p < r.len() && timestamp_le(&s.updated_at, &r[p].updated_at)
        invariant
            p <= r@.len(),
            rv == derefs(r@),
            forall|i: int| 0 <= i < p ==> ts_le(s.updated_at, r@[i].updated_at),
            recency_slot(rv, *s) == p + recency_slot(rv.skip(p as int), *s),
        decreases r@.len() - p,
    {
        assert(rv.skip(p as int)[0] == *r@[p as int]);
        assert(rv.skip(p as int).drop_first() =~= rv.skip(p + 1));
        p = p + 1;
    }
    proof {
        if p < r.len() {
            assert(rv.skip(p as int)[0] == *r@[p as int]);
        }
    }
    let ghost old_r = r@;
    r.insert(p, s);
    assert forall|i: int, m: int| 0 <= i < m < r@.len() implies ts_le(
        r@[m].updated_at,
        r@[i].updated_at,
    ) by {
        if p < old_r.len() {
            assert(!ts_le(s.updated_at, old_r[p as int].updated_at));
        }
        if m < p {
            assert(r@[m] == old_r[m] && r@[i] == old_r[i]);
        } else if m == p {
            assert(r@[i] == old_r[i]);
        } else if i < p {
            assert(r@[m] == old_r[m - 1] && r@[i] == old_r[i]);
        } else if i == p {
            assert(r@[m] == old_r[m - 1]);
            assert(ts_le(old_r[m - 1].updated_at, old_r[p as int].updated_at));
        } else {
            assert(r@[m] == old_r[m - 1] && r@[i] == old_r[i - 1]);
        }
    }
    p
}

proof fn lemma_insert_keeps_cover(r: Seq<&ChatSession>, p: int, s: &ChatSession, ss: Seq<ChatSession>, k: int)
    requires
        0 <= p <= r.len(),
        0 <= k < ss.len(),
        *s == ss[k],
        drawn_from(r, ss, k),
        covers(r, ss, k),
    ensures
        drawn_from(r.insert(p, s), ss, k + 1),
        covers(r.insert(p, s), ss, k + 1),
{
    let t = r.insert(p, s);
    assert forall|i: int| #![trigger t[i]] 0 <= i < t.len() implies exists|j: int|
        #![trigger ss[j]] 0 <= j < k + 1 && *t[i] == ss[j] by {
        if i < p {
            assert(t[i] == r[i]);
            let j = choose|j: int| #![trigger ss[j]] 0 <= j < k && *r[i] == ss[j];
            assert(*t[i] == ss[j]);
        } else if i == p {
            assert(*t[i] == ss[k]);
        } else {
            assert(t[i] == r[i - 1]);
            let j = choose|j: int| #![trigger ss[j]] 0 <= j < k && *r[i - 1] == ss[j];
            assert(*t[i] == ss[j]);
        }
    }
    assert forall|j: int| #![trigger ss[j]] 0 <= j < k + 1 implies exists|i: int|
        #![trigger t[i]] 0 <= i < t.len() && *t[i] == ss[j] by {
        if j == k {
            assert(*t[p] == ss[j]);
        } else {
            let i = choose|i: int| #![trigger r[i]] 0 <= i < r.len() && *r[i] == ss[j];
            if i < p {
                assert(t[i] == r[i]);
            } else {
                assert(t[i + 1] == r[i]);
            }
        }
    }
}

/// The strftime pattern of the time in a default session title.
pub open spec fn session_time_pattern() -> Seq<char> {
    "%Y-%m-%d %H:%M"@
}

proof fn lemma_session_time_pattern()
    ensures
        simple_pattern(session_time_pattern()),
{
    reveal_strlit("%Y-%m-%d %H:%M");
    let p = session_time_pattern();
    assert(p =~= seq!['%', 'Y', '-', '%', 'm', '-', '%', 'd', ' ', '%', 'H', ':', '%', 'M']);
    assert forall|i: int| 0 <= i < p.len() && #[trigger] p[i] == '%' implies i + 1 < p.len() && (p[i + 1] == 'Y' || p[i
        + 1] == 'm' || p[i + 1] == 'd' || p[i + 1] == 'H' || p[i + 1] == 'M') by {
        assert(i == 0 || i == 3 || i == 6 || i == 9 || i == 12) by {
            if !(i == 0 || i == 3 || i == 6 || i == 9 || i == 12) {
                assert(p[i] != '%');
            }
        }
    }
}

/// All chat sessions and which one is current.
pub struct ChatHistory {
    pub sessions: Vec<ChatSession>,
    pub current_session_id: Option<u128>,
}

impl ChatHistory {
    /// Session identifiers are unique.
    pub open spec fn wf(&self) -> bool {
        ids_distinct(self.sessions@)
    }

    /// The sessions by identifier.
    pub open spec fn map(&self) -> Map<u128, SessionView> {
        session_map(self.sessions@)
    }

    /// An empty history with no current session.
    pub fn new() -> (r: Self)
        ensures
            r.wf(),
            r.map() == Map::<u128, SessionView>::empty(),
            r.current_session_id is None,
    {
        let r = ChatHistory { sessions: Vec::new(), current_session_id: None };
        assert(r.map() =~= Map::<u128, SessionView>::empty());
        r
    }

    /// The position of the session with identifier `id`.
    pub fn find_index(&self, id: u128) -> (r: Option<usize>)
        requires
            self.wf(),
        ensures
            match r {
                Some(i) => i < self.sessions.len() && self.sessions@[i as int].id == id,
                None => !has_id(self.sessions@, id),
            },
    {
        let mut i: usize = 0;
        while i < self.sessions.len()
            invariant
                i <= self.sessions.len(),
                forall|k: int| 0 <= k < i ==> self.sessions@[k].id != id,
            decreases self.sessions.len() - i,
        {
            if self.sessions[i].id == id {
                return Some(i);
            }
            i = i + 1;
        }
        None
    }

    /// Removes all messages of the current session.
    pub fn clear_messages(&mut self) -> (r: Result<(), HistoryError>)
        requires
            old(self).wf(),
        ensures
            final(self).wf(),
            final(self).current_session_id == old(self).current_session_id,
            match old(self).current_session_id {
                None => r == Err::<(), HistoryError>(HistoryError::NoActiveSession) && final(self).map() == old(self).map(),
                Some(id) => if old(self).map().contains_key(id) {
                    r is Ok && final(self).map() == old(self).map().insert(
                        id,
                        SessionView {
                            messages: Seq::empty(),
                            updated_at: final(self).map()[id].updated_at,
                            ..old(self).map()[id]
                        },
                    )
                } else {
                    r == Err::<(), HistoryError>(HistoryError::SessionNotFound) && final(self).map() == old(self).map()
                },
            },
    {
        let id = match self.current_session_id {
            Some(id) => id,
            None => return Err(HistoryError::NoActiveSession),
        };
        match self.find_index(id) {
            Some(i) => {
                let ghost before = self.sessions@;
                let mut session = self.sessions.remove(i);
                session.messages = Vec::new();
                session.updated_at = now_utc();
                let ghost t = session.updated_at;
                self.sessions.insert(i, session);
                proof {
                    assert(self.sessions@ =~= before.update(i as int, self.sessions@[i as int]));
                    lemma_map_update(before, i as int, self.sessions@[i as int]);
                    lemma_pos_of(before, i as int);
                    assert(self.sessions@[i as int]@ =~= SessionView {
                        messages: Seq::empty(),
                        updated_at: t,
                        ..session_map(before)[id]
                    });
                }
                Ok(())
            },
            None => Err(HistoryError::SessionNotFound),
        }
    }

    /// Adds `s` under its identifier, replacing a session with the same one.
    fn put_session(&mut self, s: ChatSession)
        requires
            old(self).wf(),
        ensures
            final(self).wf(),
            final(self).map() == old(self).map().insert(s.id, s@),
            final(self).current_session_id == old(self).current_session_id,
    {
        let ghost before = self.sessions@;
        let ghost sv = s;
        match self.find_index(s.id) {
            Some(i) => {
                self.sessions.remove(i);
                self.sessions.insert(i, s);
                proof {
                    assert(self.sessions@ =~= before.update(i as int, sv));
                    lemma_map_update(before, i as int, sv);
                }
            },
            None => {
                self.sessions.push(s);
                proof {
                    lemma_map_push(before, sv);
                }
            },
        }
    }

    /// The title given to a session that was opened without one.
    pub open spec fn default_title(t: Timestamp) -> Seq<char> {
        "Chat Session "@ + utc_format(session_time_pattern(), t.secs, t.nanos)
    }

    /// Opens a new empty session under a random identifier (replacing a session
    /// that happens to hold it) and makes it current.
    pub fn new_session(&mut self, title: Option<String>) -> (id: u128)
        requires
            old(self).wf(),
        ensures
            final(self).wf(),
            final(self).current_session_id == Some(id),
            final(self).map() == old(self).map().insert(id, final(self).map()[id]),
            final(self).map()[id].id == id,
            final(self).map()[id].messages.len() == 0,
            final(self).map()[id].created_at == final(self).map()[id].updated_at,
            final(self).map()[id].title == match title {
                Some(t) => t@,
                None => Self::default_title(final(self).map()[id].created_at),
            },
    {
        let id = new_uuid();
        let now = now_utc();
        let title_s = match title {
            Some(t) => t,
            None => {
                let mut v = chars_of("Chat Session ");
                proof {
                    lemma_session_time_pattern();
                }
                match format_utc(&now, "%Y-%m-%d %H:%M") {
                    Some(label) => push_str_chars(&mut v, label.as_str()),
                    None => {
                        proof {
                            assert(false);
                        }
                    },
                }
                string_of(&v)
            },
        };
        let session = ChatSession {
            id,
            title: title_s,
            created_at: now,
            updated_at: now,
            messages: Vec::new(),
        };
        assert(session@.messages =~= Seq::<MessageView>::empty());
        self.put_session(session);
        self.current_session_id = Some(id);
        id
    }

    /// Appends a message to the current session.
    pub fn add_message(&mut self, content: String, is_user: bool) -> (r: Result<(), HistoryError>)
        requires
            old(self).wf(),
        ensures
            final(self).wf(),
            final(self).current_session_id == old(self).current_session_id,
            match old(self).current_session_id {
                None => r == Err::<(), HistoryError>(HistoryError::NoActiveSession) && final(self).map()
                    == old(self).map(),
                Some(sid) => if old(self).map().contains_key(sid) {
                    let after = final(self).map()[sid];
                    let m = after.messages.last();
                    &&& r is Ok
                    &&& final(self).map() == old(self).map().insert(sid, after)
                    &&& after == SessionView {
                        messages: old(self).map()[sid].messages.push(m),
                        updated_at: after.updated_at,
                        ..old(self).map()[sid]
                    }
                    &&& m.content == content@
                    &&& m.is_user == is_user
                } else {
                    r == Err::<(), HistoryError>(HistoryError::SessionNotFound) && final(self).map()
                        == old(self).map()
                },
            },
    {
        let sid = match self.current_session_id {
            Some(id) => id,
            None => return Err(HistoryError::NoActiveSession),
        };
        match self.find_index(sid) {
            Some(i) => {
                let ghost before = self.sessions@;
                let message = ChatMessage {
                    id: new_uuid(),
                    content,
                    is_user,
                    timestamp: now_utc(),
                };
                let mut session = self.sessions.remove(i);
                let ghost old_msgs = session@.messages;
                session.messages.push(message);
                session.updated_at = now_utc();
                let ghost sv = session;
                self.sessions.insert(i, session);
                proof {
                    assert(self.sessions@ =~= before.update(i as int, sv));
                    lemma_map_update(before, i as int, sv);
                    lemma_pos_of(before, i as int);
                    assert(sv@.messages =~= old_msgs.push(sv@.messages.last()));
                    assert(sv@ =~= SessionView {
                        messages: session_map(before)[sid].messages.push(sv@.messages.last()),
                        updated_at: sv.updated_at,
                        ..session_map(before)[sid]
                    });
                }
                Ok(())
            },
            None => Err(HistoryError::SessionNotFound),
        }
    }

    /// The current session, if there is one and it exists.
    pub fn get_current_session(&self) -> (r: Option<&ChatSession>)
        requires
            self.wf(),
        ensures
            match self.current_session_id {
                Some(id) => if self.map().contains_key(id) {
                    r is Some && r.unwrap()@ == self.map()[id]
                } else {
                    r is None
                },
                None => r is None,
            },
    {
        match self.current_session_id {
            Some(id) => match self.find_index(id) {
                Some(i) => {
                    proof {
                        lemma_pos_of(self.sessions@, i as int);
                    }
                    Some(&self.sessions[i])
                },
                None => None,
            },
            None => None,
        }
    }

    /// Makes the session `session_id` current.
    pub fn switch_session(&mut self, session_id: u128) -> (r: Result<(), HistoryError>)
        requires
            old(self).wf(),
        ensures
            final(self).wf(),
            final(self).map() == old(self).map(),
            if old(self).map().contains_key(session_id) {
                r is Ok && final(self).current_session_id == Some(session_id)
            } else {
                r == Err::<(), HistoryError>(HistoryError::SessionNotFound)
                    && final(self).current_session_id == old(self).current_session_id
            },
    {
        match self.find_index(session_id) {
            Some(i) => {
                proof {
                    lemma_pos_of(self.sessions@, i as int);
                }
                self.current_session_id = Some(session_id);
                Ok(())
            },
            None => Err(HistoryError::SessionNotFound),
        }
    }

    /// All sessions, most recently updated first.
    pub fn get_session_list(&self) -> (r: Vec<&ChatSession>)
        ensures
            r@.len() == self.sessions@.len(),
            drawn_from(r@, self.sessions@, self.sessions@.len() as int),
            covers(r@, self.sessions@, self.sessions@.len() as int),
            sorted_by_recency(r@),
            derefs(r@) == by_recency(self.sessions@),
    {
        let mut r: Vec<&ChatSession> = Vec::new();
        let mut k: usize = 0;
        assert(derefs(r@) =~= by_recency(self.sessions@.take(0)));
        while k < self.sessions.len()
            invariant
                k <= self.sessions.len(),
                r@.len() == k,
                drawn_from(r@, self.sessions@, k as int),
                covers(r@, self.sessions@, k as int),
                sorted_by_recency(r@),
                derefs(r@) == by_recency(self.sessions@.take(k as int)),
            decreases self.sessions.len() - k,
        {
            let ghost old_r = r@;
            let p = insert_by_recency(&mut r, &self.sessions[k]);
            proof {
                lemma_insert_keeps_cover(old_r, p as int, &self.sessions@[k as int], self.sessions@, k as int);
                lemma_by_recency_step(self.sessions@, k as int, old_r, p as int, &self.sessions@[k as int]);
            }
            k = k + 1;
        }
        assert(self.sessions@.take(k as int) =~= self.sessions@);
        r
    }

    /// Deletes the session `session_id`; it stops being current.
    pub fn delete_session(&mut self, session_id: u128) -> (r: Result<(), HistoryError>)
        requires
            old(self).wf(),
        ensures
            final(self).wf(),
            if old(self).map().contains_key(session_id) {
                &&& r is Ok
                &&& final(self).map() == old(self).map().remove(session_id)
                &&& final(self).current_session_id == if old(self).current_session_id == Some(
                    session_id,
                ) {
                    None
                } else {
                    old(self).current_session_id
                }
            } else {
                &&& r == Err::<(), HistoryError>(HistoryError::SessionNotFound)
                &&& final(self).map() == old(self).map()
                &&& final(self).current_session_id == old(self).current_session_id
            },
    {
        match self.find_index(session_id) {
            Some(i) => {
                let ghost before = self.sessions@;
                self.sessions.remove(i);
                proof {
                    lemma_map_remove(before, i as int);
                }
                if self.current_session_id == Some(session_id) {
                    self.current_session_id = None;
                }
                Ok(())
            },
            None => Err(HistoryError::SessionNotFound),
        }
    }
}

} // verus!

verus! {

/// The API turn for a stored message: role "user" or "model" and the text.
pub open spec fn content_of(m: MessageView) -> ContentView {
    ContentView {
        role: if m.is_user {
            "user"@
        } else {
            "model"@
        },
        parts: seq![m.content],
    }
}

/// Where the last `max` of `n` messages start.
pub open spec fn context_start(n: nat, max: nat) -> nat {
    if n > max {
        (n - max) as nat
    } else {
        0
    }
}

/// The chat history together with the file it is kept in.
pub struct HistoryManager {
    pub history: ChatHistory,
    pub file_path: String,
}

impl HistoryManager {
    /// Session identifiers are unique.
    pub open spec fn wf(&self) -> bool {
        self.history.wf()
    }

    /// Removes all messages of the current session (the caller then saves).
    pub fn clear_messages(&mut self) -> (r: Result<(), HistoryError>)
        requires
            old(self).wf(),
        ensures
            final(self).wf(),
            final(self).file_path == old(self).file_path,
            final(self).history.current_session_id == old(self).history.current_session_id,
            match old(self).history.current_session_id {
                None => r == Err::<(), HistoryError>(HistoryError::NoActiveSession)
                    && final(self).history.map() == old(self).history.map(),
                Some(id) => if old(self).history.map().contains_key(id) {
                    r is Ok && final(self).history.map() == old(self).history.map().insert(
                        id,
                        SessionView {
                            messages: Seq::empty(),
                            updated_at: final(self).history.map()[id].updated_at,
                            ..old(self).history.map()[id]
                        },
                    )
                } else {
                    r == Err::<(), HistoryError>(HistoryError::SessionNotFound)
                        && final(self).history.map() == old(self).history.map()
                },
            },
    {
        self.history.clear_messages()
    }

    /// The history.
    pub fn get_history(&self) -> (r: &ChatHistory)
        ensures
            *r == self.history,
    {
        &self.history
    }

    /// The history, to be changed in place.
    pub fn get_history_mut(&mut self) -> (r: &mut ChatHistory)
        ensures
            *r == old(self).history,
            final(self).history == *final(r),
            final(self).file_path == old(self).file_path,
    {
        &mut self.history
    }

    /// The current session if it exists; otherwise a new session, made current.
    pub fn ensure_active_session(&mut self) -> (id: u128)
        requires
            old(self).wf(),
        ensures
            final(self).wf(),
            final(self).file_path == old(self).file_path,
            final(self).history.current_session_id == Some(id),
            final(self).history.map().contains_key(id),
            match old(self).history.current_session_id {
                Some(cur) => old(self).history.map().contains_key(cur) ==> id == cur && final(self).history == old(self).history,
                None => true,
            },
            !(old(self).history.current_session_id matches Some(cur)
                && old(self).history.map().contains_key(cur)) ==> {
                &&& final(self).history.map() == old(self).history.map().insert(
                    id,
                    final(self).history.map()[id],
                )
                &&& final(self).history.map()[id].messages.len() == 0
                &&& final(self).history.map()[id].title == ChatHistory::default_title(
                    final(self).history.map()[id].created_at,
                )
            },
    {
        if let Some(session_id) = self.history.current_session_id {
            if let Some(i) = self.history.find_index(session_id) {
                proof {
                    lemma_pos_of(self.history.sessions@, i as int);
                }
                return session_id;
            }
        }
        self.history.new_session(None)
    }

    /// The last `max_messages` messages of the current session as API turns.
    pub fn get_conversation_context(&self, max_messages: usize) -> (r: Vec<Content>)
        requires
            self.wf(),
        ensures
            match self.history.current_session_id {
                Some(id) => if self.history.map().contains_key(id) {
                    let msgs = self.history.map()[id].messages;
                    r@.map_values(|c: Content| c@) == msgs.skip(
                        context_start(msgs.len(), max_messages as nat) as int,
                    ).map_values(|m: MessageView| content_of(m))
                } else {
                    r@.len() == 0
                },
                None => r@.len() == 0,
            },
    {
        let mut out: Vec<Content> = Vec::new();
        match self.history.get_current_session() {
            Some(session) => {
                let n = session.messages.len();
                let start = if n > max_messages {
                    n - max_messages
                } else {
                    0
                };
                let ghost msgs = session@.messages;
                let mut i = start;
                while i < n
                    invariant
                        start <= i <= n,
                        n == session.messages@.len(),
                        msgs == session@.messages,
                        out@.map_values(|c: Content| c@) == msgs.subrange(start as int, i as int).map_values(
                            |m: MessageView| content_of(m),
                        ),
                    decreases n - i,
                {
                    let m = &session.messages[i];
                    let role = if m.is_user {
                        crate::text::to_owned_string("user")
                    } else {
                        crate::text::to_owned_string("model")
                    };
                    let mut parts: Vec<Part> = Vec::new();
                    parts.push(Part { text: m.content.clone() });
                    let c = Content { role, parts };
                    let ghost before = out@;
                    out.push(c);
                    proof {
                        assert(c@.parts =~= seq![m.content@]);
                        assert(msgs[i as int] == m@);
                        assert(c@ =~= content_of(msgs[i as int]));
                        assert(out@.map_values(|c: Content| c@) =~= before.map_values(|c: Content| c@).push(
                            c@,
                        ));
                        assert(msgs.subrange(start as int, i + 1).map_values(|m: MessageView| content_of(m))
                            =~= msgs.subrange(start as int, i as int).map_values(
                            |m: MessageView| content_of(m),
                        ).push(content_of(msgs[i as int])));
                    }
                    i = i + 1;
                }
                assert(msgs.subrange(start as int, n as int) =~= msgs.skip(start as int));
            },
            None => {},
        }
        out
    }
}

} // verus!

verus! {

/// The conversation turns of the last `max` messages of the current session.
pub open spec fn context_turns(h: ChatHistory, max: nat) -> Seq<ContentView> {
    match h.current_session_id {
        Some(id) => if h.map().contains_key(id) {
            let msgs = h.map()[id].messages;
            msgs.skip(context_start(msgs.len(), max) as int).map_values(|m: MessageView| content_of(m))
        } else {
            Seq::empty()
        },
        None => Seq::empty(),
    }
}

/// A message added to the current session is the last turn of the
/// conversation context, whatever the context size (at least one).
pub proof fn law_added_message_ends_context(h0: ChatHistory, h: ChatHistory, m: MessageView, max: nat)
    requires
        max > 0,
        h0.current_session_id matches Some(sid) && h0.map().contains_key(sid) && h.map() == h0.map().insert(
            sid,
            SessionView { messages: h0.map()[sid].messages.push(m), ..h.map()[sid] },
        ),
        h.current_session_id == h0.current_session_id,
    ensures
        context_turns(h, max).len() > 0,
        context_turns(h, max).last() == content_of(m),
        context_turns(h, max).len() == if h0.map()[h0.current_session_id.unwrap()].messages.len() + 1 > max {
            max as int
        } else {
            (h0.map()[h0.current_session_id.unwrap()].messages.len() + 1) as int
        },
{
    let sid = h0.current_session_id.unwrap();
    let msgs = h.map()[sid].messages;
    assert(msgs == h0.map()[sid].messages.push(m));
    let k = context_start(msgs.len(), max) as int;
    assert(msgs.skip(k).last() == m);
}

/// Clearing the current session empties the conversation context.
pub proof fn law_cleared_context_empty(h: ChatHistory, max: nat)
    requires
        h.current_session_id matches Some(sid) && h.map().contains_key(sid) && h.map()[sid].messages.len() == 0,
    ensures
        context_turns(h, max).len() == 0,
{
}

} // verus!
