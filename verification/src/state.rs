//! Sessions and the activity log held by the control panel.
use vstd::prelude::*;
use crate::models::{LogEntry, LogEntryView, LogLevel, SessionInfo, SessionInfoView};
use crate::sorting::{keep_last, lemma_sort_by_key, sort_by_key, sort_pos_from};
use crate::text::{decimal_digits, push_decimal};

verus! {

broadcast use vstd::seq_lib::group_seq_properties;

/// How many entries each log keeps; older entries are dropped first.
pub const MAX_LOG_ENTRIES: usize = 300;

/// First id given to entries of the runtime log.
pub const FIRST_RUNTIME_LOG_ID: u64 = 1_000_000;

/// Milliseconds since the Unix epoch by the system clock (zero if the clock is before it).
/// Trusted: reads `SystemTime::now()`; nothing is promised of the value.
#[verifier::external_body]
pub fn unix_time_ms() -> u128 {
    std::time::SystemTime::now().duration_since(std::time::UNIX_EPOCH).unwrap_or_default().as_millis()
}

/// Index of the entry with key `key`, searching from `k`.
pub open spec fn key_index_from<V>(entries: Seq<(Seq<char>, V)>, key: Seq<char>, k: int)
    -> Option<int>
    decreases entries.len() - k,
{
    if k < 0 || k >= entries.len() {
        None
    } else if entries[k].0 == key {
        Some(k)
    } else {
        key_index_from(entries, key, k + 1)
    }
}

/// The session stored under `key`.
pub open spec fn lookup(entries: Seq<(Seq<char>, SessionInfoView)>, key: Seq<char>) -> Option<
    SessionInfoView,
> {
    match key_index_from(entries, key, 0) {
        Some(i) => Some(entries[i].1),
        None => None,
    }
}

/// `entries` after storing `value` under `key`: in place of the entry with that key, or last.
pub open spec fn upserted(entries: Seq<(Seq<char>, SessionInfoView)>, key: Seq<char>,
    value: SessionInfoView) -> Seq<(Seq<char>, SessionInfoView)> {
    match key_index_from(entries, key, 0) {
        Some(i) => entries.update(i, (key, value)),
        None => entries.push((key, value)),
    }
}

/// The stored sessions, in storage order.
pub open spec fn session_values(entries: Seq<(Seq<char>, SessionInfoView)>) -> Seq<SessionInfoView> {
    entries.map_values(|e: (Seq<char>, SessionInfoView)| e.1)
}

/// Sort key that puts the most recently updated session first.
pub open spec fn recency_key(s: SessionInfoView) -> int {
    -(s.updated_at_ms as int)
}

/// The recency sort key as a function value.
pub open spec fn recency_key_fn() -> spec_fn(SessionInfoView) -> int {
    |s: SessionInfoView| recency_key(s)
}

/// Sort key that orders log entries by time, then by id.
pub open spec fn log_key(e: LogEntryView) -> int {
    e.timestamp_ms as int * 0x1_0000_0000_0000_0000 + e.id as int
}

/// The log sort key as a function value.
pub open spec fn log_key_fn() -> spec_fn(LogEntryView) -> int {
    |e: LogEntryView| log_key(e)
}

/// The sessions most recently updated first; sessions updated at the same time keep their
/// storage order.
pub open spec fn sessions_by_recency(entries: Seq<(Seq<char>, SessionInfoView)>) -> Seq<SessionInfoView> {
    sort_by_key(session_values(entries), recency_key_fn())
}

/// The entry appended to a log, with the oldest entries dropped beyond the limit.
pub open spec fn appended_log(logs: Seq<LogEntryView>, entry: LogEntryView) -> Seq<LogEntryView> {
    keep_last(logs.push(entry), MAX_LOG_ENTRIES as nat)
}

/// Abstract value of the application state.
pub struct AppStateView {
    /// Each session under the id it was stored with, in storage order.
    pub sessions: Seq<(Seq<char>, SessionInfoView)>,
    /// The activity log, oldest first.
    pub logs: Seq<LogEntryView>,
    pub next_session_id: u64,
    pub next_log_id: u64,
}

struct SessionSlot {
    key: String,
    session: SessionInfo,
}

/// Sessions by id and the activity log.
pub struct AppState {
    sessions: Vec<SessionSlot>,
    logs: Vec<LogEntry>,
    next_session_id: u64,
    next_log_id: u64,
}

/// Every session is stored under its own id.
pub open spec fn keys_match(entries: Seq<(Seq<char>, SessionInfoView)>) -> bool {
    forall|j: int| 0 <= j < entries.len() ==> #[trigger] entries[j].0 == entries[j].1.id
}

/// No key is stored twice.
pub open spec fn distinct_keys<V>(entries: Seq<(Seq<char>, V)>) -> bool {
    forall|i: int, j: int| 0 <= i < j < entries.len() ==> entries[i].0 != entries[j].0
}

impl View for AppState {
    type V = AppStateView;

    closed spec fn view(&self) -> AppStateView {
        AppStateView {
            sessions: self.sessions@.map_values(|s: SessionSlot| (s.key@, s.session@)),
            logs: self.logs.deep_view(),
            next_session_id: self.next_session_id,
            next_log_id: self.next_log_id,
        }
    }
}

impl AppState {
    #[verifier::type_invariant]
    spec fn inv(&self) -> bool {
        &&& distinct_keys(self@.sessions)
        &&& keys_match(self@.sessions)
        &&& self.logs@.len() <= MAX_LOG_ENTRIES
    }

    /// The session value stored at position `i`.
    pub closed spec fn stored_session(&self, i: int) -> SessionInfo {
        self.sessions@[i].session
    }

    /// An empty state; session and log ids start at one.
    pub fn new() -> (s: Self)
        ensures
            s@.sessions.len() == 0,
            s@.logs.len() == 0,
            s@.next_session_id == 1,
            s@.next_log_id == 1,
    {
        let s = AppState { sessions: Vec::new(), logs: Vec::new(), next_session_id: 1, next_log_id: 1 };
        assert(s@.sessions =~= Seq::empty());
        s
    }

    /// A new session id, `session-` and the next number; numbers count up from one.
    pub fn allocate_session_id(&mut self) -> (id: String)
        ensures
            id@ == "session-"@ + decimal_digits(old(self)@.next_session_id as nat),
            final(self)@.next_session_id == old(self)@.next_session_id.wrapping_add(1),
            final(self)@.sessions == old(self)@.sessions,
            final(self)@.logs == old(self)@.logs,
            final(self)@.next_log_id == old(self)@.next_log_id,
    {
        proof { use_type_invariant(&*self); }
        let n = self.next_session_id;
        self.next_session_id = n.wrapping_add(1);
        let mut id = "session-".to_owned();
        push_decimal(&mut id, n as u128);
        id
    }

    /// Position of the session stored under `key`.
    fn find_slot(&self, key: &String) -> (r: Option<usize>)
        ensures
            r matches Some(i) ==> key_index_from(self@.sessions, key@, 0) == Some(i as int),
            r is None ==> key_index_from(self@.sessions, key@, 0) is None,
    {
        let mut i: usize = 0;
        while i < self.sessions.len()
            invariant
                i <= self.sessions@.len(),
                key_index_from(self@.sessions, key@, 0) == key_index_from(self@.sessions, key@, i as int),
            decreases self.sessions@.len() - i,
        {
            assert(self@.sessions[i as int].0 == self.sessions@[i as int].key@);
            if self.sessions[i].key == *key {
                return Some(i);
            }
            i = i + 1;
        }
        None
    }

    /// Stores `session` under its id, replacing the session stored under that id.
    pub fn upsert_session(&mut self, session: SessionInfo)
        ensures
            final(self)@.sessions == upserted(old(self)@.sessions, session.id@, session@),
            final(self)@.logs == old(self)@.logs,
            final(self)@.next_session_id == old(self)@.next_session_id,
            final(self)@.next_log_id == old(self)@.next_log_id,
    {
        proof { use_type_invariant(&*self); }
        let key = session.id.clone();
        let ghost old_entries = self@.sessions;
        match self.find_slot(&key) {
            Some(i) => {
                proof { lemma_key_index_from(self@.sessions, key@, 0); }
                let mut sessions: Vec<SessionSlot> = Vec::new();
                std::mem::swap(&mut sessions, &mut self.sessions);
                sessions.set(i, SessionSlot { key, session });
                assert(sessions@.map_values(|s: SessionSlot| (s.key@, s.session@)) =~= old_entries.update(
                    i as int, (session.id@, session@)));
                self.sessions = sessions;
            },
            None => {
                proof { lemma_key_index_absent(self@.sessions, key@, 0); }
                let mut sessions: Vec<SessionSlot> = Vec::new();
                std::mem::swap(&mut sessions, &mut self.sessions);
                sessions.push(SessionSlot { key, session });
                assert(sessions@.map_values(|s: SessionSlot| (s.key@, s.session@)) =~= old_entries.push(
                    (session.id@, session@)));
                self.sessions = sessions;
            },
        }
    }
}

/// Drops the oldest entries so that at most `MAX_LOG_ENTRIES` remain.
fn trim_logs(logs: &mut Vec<LogEntry>)
    ensures
        final(logs).deep_view() == keep_last(old(logs).deep_view(), MAX_LOG_ENTRIES as nat),
{
    if logs.len() > MAX_LOG_ENTRIES {
        let remove_count = logs.len() - MAX_LOG_ENTRIES;
        let ghost before = logs.deep_view();
        let tail = logs.split_off(remove_count);
        *logs = tail;
        assert(logs.deep_view() =~= before.skip(remove_count as int));
    }
}

/// A copy of a list of log entries.
fn clone_logs(v: &Vec<LogEntry>) -> (r: Vec<LogEntry>)
    ensures
        r.deep_view() == v.deep_view(),
{
    let mut r: Vec<LogEntry> = Vec::new();
    let mut i: usize = 0;
    while i < v.len()
        invariant
            i <= v@.len(),
            r@.len() == i,
            forall|j: int| 0 <= j < i ==> #[trigger] r@[j]@ == v@[j]@,
        decreases v@.len() - i,
    {
        r.push(v[i].clone());
        i = i + 1;
    }
    assert(r.deep_view() =~= v.deep_view());
    r
}

/// Inserts `x` into `v`, which is ordered by `log_key`, after the entries whose key is not
/// greater.
fn insert_log_sorted(v: &mut Vec<LogEntry>, x: LogEntry)
    ensures
        final(v).deep_view() == crate::sorting::insert_by_key(old(v).deep_view(), x@, log_key_fn()),
{
    let ghost s = v.deep_view();
    let mut j: usize = 0;
    while j < v.len() && (v[j].timestamp_ms < x.timestamp_ms || (v[j].timestamp_ms
        == x.timestamp_ms && v[j].id <= x.id))
        invariant
            s == v.deep_view(),
            j <= v@.len(),
            sort_pos_from(s, x@, log_key_fn(), 0) == sort_pos_from(s, x@, log_key_fn(), j as int),
        decreases v@.len() - j,
    {
        assert(s[j as int] == v@[j as int]@);
        proof { lemma_log_key_le(v@[j as int]@, x@); }
        j = j + 1;
    }
    proof {
        if j < v@.len() {
            assert(s[j as int] == v@[j as int]@);
            lemma_log_key_le(v@[j as int]@, x@);
        }
    }
    v.insert(j, x);
    assert(v.deep_view() =~= s.insert(j as int, x@));
}

proof fn lemma_log_key_le(a: LogEntryView, b: LogEntryView)
    ensures
        log_key(a) <= log_key(b) <==> (a.timestamp_ms < b.timestamp_ms || (a.timestamp_ms
            == b.timestamp_ms && a.id <= b.id)),
{
    let m = 0x1_0000_0000_0000_0000int;
    if a.timestamp_ms < b.timestamp_ms {
        assert(a.timestamp_ms as int * m + m <= b.timestamp_ms as int * m) by (nonlinear_arith)
            requires
                a.timestamp_ms < b.timestamp_ms,
                m > 0,
        ;
    } else if a.timestamp_ms > b.timestamp_ms {
        assert(b.timestamp_ms as int * m + m <= a.timestamp_ms as int * m) by (nonlinear_arith)
            requires
                a.timestamp_ms > b.timestamp_ms,
                m > 0,
        ;
    }
}

/// Inserts `x` into `v`, which is ordered by `recency_key`, after the sessions whose key is not
/// greater.
fn insert_session_by_recency(v: &mut Vec<SessionInfo>, x: SessionInfo)
    ensures
        final(v).deep_view() == crate::sorting::insert_by_key(old(v).deep_view(), x@, recency_key_fn()),
{
    let ghost s = v.deep_view();
    let mut j: usize = 0;
    while j < v.len() && v[j].updated_at_ms >= x.updated_at_ms
        invariant
            s == v.deep_view(),
            j <= v@.len(),
            sort_pos_from(s, x@, recency_key_fn(), 0) == sort_pos_from(s, x@, recency_key_fn(), j as int),
        decreases v@.len() - j,
    {
        assert(s[j as int] == v@[j as int]@);
        j = j + 1;
    }
    proof {
        if j < v@.len() {
            assert(s[j as int] == v@[j as int]@);
        }
    }
    v.insert(j, x);
    assert(v.deep_view() =~= s.insert(j as int, x@));
}

impl AppState {
    /// The session stored under `session_id`.
    pub fn read_session(&self, session_id: &str) -> (r: Option<SessionInfo>)
        ensures
            r.deep_view() == lookup(self@.sessions, session_id@),
            distinct_keys(self@.sessions),
            keys_match(self@.sessions),
    {
        proof { use_type_invariant(self); }
        let key = session_id.to_owned();
        match self.find_slot(&key) {
            Some(i) => {
                proof { lemma_key_index_from(self@.sessions, key@, 0); }
                assert(self@.sessions[i as int].1 == self.sessions@[i as int].session@);
                Some(self.sessions[i].session.clone())
            },
            None => None,
        }
    }

    /// Applies `mutate` to the session stored under `session_id`, keeps the result there, and
    /// returns a copy of it; `None` when no session is stored under that id.
    pub fn mutate_session<F: FnOnce(SessionInfo) -> SessionInfo>(&mut self, session_id: &str,
        mutate: F) -> (r: Option<SessionInfo>)
        requires
            forall|s: SessionInfo| call_requires(mutate, (s,)),
            forall|s: SessionInfo, t: SessionInfo| call_ensures(mutate, (s,), t) ==> t.id@ == s.id@,
        ensures
            match key_index_from(old(self)@.sessions, session_id@, 0) {
                None => r is None && final(self)@ == old(self)@,
                Some(i) => {
                    &&& 0 <= i < old(self)@.sessions.len()
                    &&& old(self).stored_session(i)@ == old(self)@.sessions[i].1
                    &&& call_ensures(mutate, (old(self).stored_session(i),), final(self).stored_session(i))
                    &&& r matches Some(v) && v@ == final(self).stored_session(i)@
                    &&& final(self)@.sessions == old(self)@.sessions.update(i, (session_id@,
                        final(self).stored_session(i)@))
                    &&& final(self)@.logs == old(self)@.logs
                    &&& final(self)@.next_session_id == old(self)@.next_session_id
                    &&& final(self)@.next_log_id == old(self)@.next_log_id
                },
            },
            distinct_keys(final(self)@.sessions),
            keys_match(final(self)@.sessions),
    {
        proof { use_type_invariant(&*self); }
        let key = session_id.to_owned();
        match self.find_slot(&key) {
            Some(i) => {
                proof { lemma_key_index_from(self@.sessions, key@, 0); }
                let ghost old_entries = self@.sessions;
                let ghost old_slots = self.sessions@;
                let mut sessions: Vec<SessionSlot> = Vec::new();
                std::mem::swap(&mut sessions, &mut self.sessions);
                let slot = sessions.remove(i);
                let updated = mutate(slot.session);
                let copy = updated.clone();
                sessions.insert(i, SessionSlot { key: slot.key, session: updated });
                assert(sessions@ =~= old_slots.update(i as int, sessions@[i as int]));
                assert(sessions@.map_values(|s: SessionSlot| (s.key@, s.session@)) =~= old_entries.update(
                    i as int, (key@, sessions@[i as int].session@)));
                self.sessions = sessions;
                Some(copy)
            },
            None => None,
        }
    }

    /// The ids the sessions are stored under, in storage order.
    pub fn session_keys(&self) -> (keys: Vec<String>)
        ensures
            keys.deep_view() == self@.sessions.map_values(|e: (Seq<char>, SessionInfoView)| e.0),
            distinct_keys(self@.sessions),
            keys_match(self@.sessions),
    {
        proof { use_type_invariant(self); }
        let mut keys: Vec<String> = Vec::new();
        let mut i: usize = 0;
        while i < self.sessions.len()
            invariant
                i <= self.sessions@.len(),
                keys@.len() == i,
                forall|j: int| 0 <= j < i ==> #[trigger] keys@[j]@ == self@.sessions[j].0,
            decreases self.sessions@.len() - i,
        {
            keys.push(self.sessions[i].key.clone());
            i = i + 1;
        }
        assert(keys.deep_view() =~= self@.sessions.map_values(|e: (Seq<char>, SessionInfoView)| e.0));
        keys
    }

    /// The stored sessions, most recently updated first.
    pub fn list_sessions(&self) -> (r: Vec<SessionInfo>)
        ensures
            r.deep_view() == sessions_by_recency(self@.sessions),
    {
        let ghost values = session_values(self@.sessions);
        let mut r: Vec<SessionInfo> = Vec::new();
        let mut i: usize = 0;
        while i < self.sessions.len()
            invariant
                values == session_values(self@.sessions),
                i <= self.sessions@.len(),
                r.deep_view() == sort_by_key(values.take(i as int), recency_key_fn()),
            decreases self.sessions@.len() - i,
        {
            assert(values.take(i + 1).drop_last() == values.take(i as int));
            assert(values.take(i + 1).last() == self.sessions@[i as int].session@);
            insert_session_by_recency(&mut r, self.sessions[i].session.clone());
            i = i + 1;
        }
        assert(values.take(i as int) == values);
        r
    }

    /// Appends an entry with the next log id and the current time; the oldest entries are
    /// dropped beyond `MAX_LOG_ENTRIES`.
    pub fn push_log_entry(&mut self, level: LogLevel, message: String) -> (entry: LogEntry)
        ensures
            entry@.id == old(self)@.next_log_id,
            entry@.level == level,
            entry@.message == message@,
            final(self)@.next_log_id == old(self)@.next_log_id.wrapping_add(1),
            final(self)@.logs == appended_log(old(self)@.logs, entry@),
            final(self)@.sessions == old(self)@.sessions,
            final(self)@.next_session_id == old(self)@.next_session_id,
    {
        proof { use_type_invariant(&*self); }
        let id = self.next_log_id;
        self.next_log_id = id.wrapping_add(1);
        let entry = LogEntry { id, level, message, timestamp_ms: unix_time_ms() };
        let mut logs: Vec<LogEntry> = Vec::new();
        std::mem::swap(&mut logs, &mut self.logs);
        let ghost before = logs.deep_view();
        logs.push(entry.clone());
        assert(logs.deep_view() =~= before.push(entry@));
        trim_logs(&mut logs);
        self.logs = logs;
        entry
    }

    /// A copy of the log, oldest entry first.
    pub fn list_logs(&self) -> (r: Vec<LogEntry>)
        ensures
            r.deep_view() == self@.logs,
    {
        clone_logs(&self.logs)
    }
}

impl Default for AppState {
    fn default() -> (s: Self)
        ensures
            s@.sessions.len() == 0,
            s@.logs.len() == 0,
            s@.next_session_id == 1,
            s@.next_log_id == 1,
    {
        AppState::new()
    }
}

/// Abstract value of the runtime log.
pub struct RuntimeLogsView {
    pub entries: Seq<LogEntryView>,
    pub next_id: u64,
}

/// The log written by the input-mirroring runtime, apart from the session log.
pub struct RuntimeLogs {
    entries: Vec<LogEntry>,
    next_id: u64,
}

impl View for RuntimeLogs {
    type V = RuntimeLogsView;

    closed spec fn view(&self) -> RuntimeLogsView {
        RuntimeLogsView { entries: self.entries.deep_view(), next_id: self.next_id }
    }
}

impl RuntimeLogs {
    #[verifier::type_invariant]
    spec fn inv(&self) -> bool {
        self.entries@.len() <= MAX_LOG_ENTRIES
    }

    /// An empty runtime log whose ids start at `FIRST_RUNTIME_LOG_ID`.
    pub fn new() -> (r: Self)
        ensures
            r@.entries.len() == 0,
            r@.next_id == FIRST_RUNTIME_LOG_ID,
    {
        let r = RuntimeLogs { entries: Vec::new(), next_id: FIRST_RUNTIME_LOG_ID };
        assert(r@.entries =~= Seq::empty());
        r
    }
}

/// Appends an entry to the runtime log with its next id and the current time; the oldest
/// entries are dropped beyond `MAX_LOG_ENTRIES`.
pub fn push_runtime_log(runtime: &mut RuntimeLogs, level: LogLevel, message: String) -> (entry: LogEntry)
    ensures
        entry@.id == old(runtime)@.next_id,
        entry@.level == level,
        entry@.message == message@,
        final(runtime)@.next_id == old(runtime)@.next_id.wrapping_add(1),
        final(runtime)@.entries == appended_log(old(runtime)@.entries, entry@),
{
    proof { use_type_invariant(&*runtime); }
    let id = runtime.next_id;
    runtime.next_id = id.wrapping_add(1);
    let entry = LogEntry { id, level, message, timestamp_ms: unix_time_ms() };
    let mut logs: Vec<LogEntry> = Vec::new();
    std::mem::swap(&mut logs, &mut runtime.entries);
    let ghost before = logs.deep_view();
    logs.push(entry.clone());
    assert(logs.deep_view() =~= before.push(entry@));
    trim_logs(&mut logs);
    runtime.entries = logs;
    entry
}

/// Both logs merged in order of time, then id, keeping the last `MAX_LOG_ENTRIES`.
pub open spec fn merged_logs(session_logs: Seq<LogEntryView>, runtime_logs: Seq<LogEntryView>) -> Seq<
    LogEntryView,
> {
    keep_last(sort_by_key(session_logs + runtime_logs, log_key_fn()), MAX_LOG_ENTRIES as nat)
}

/// The session log and the runtime log merged in order of time, then id (entries equal in
/// both keep session entries first), keeping the last `MAX_LOG_ENTRIES`.
pub fn list_all_logs(state: &AppState, runtime: &RuntimeLogs) -> (r: Vec<LogEntry>)
    ensures
        r.deep_view() == merged_logs(state@.logs, runtime@.entries),
{
    let combined = state.list_logs();
    let ghost all = state@.logs + runtime@.entries;
    let mut sorted: Vec<LogEntry> = Vec::new();
    let mut i: usize = 0;
    while i < combined.len()
        invariant
            combined.deep_view() == state@.logs,
            all == state@.logs + runtime@.entries,
            i <= combined@.len(),
            sorted.deep_view() == sort_by_key(all.take(i as int), log_key_fn()),
        decreases combined@.len() - i,
    {
        assert(all.take(i + 1).drop_last() == all.take(i as int));
        assert(all.take(i + 1).last() == combined@[i as int]@);
        insert_log_sorted(&mut sorted, combined[i].clone());
        i = i + 1;
    }
    let mut k: usize = 0;
    while k < runtime.entries.len()
        invariant
            all == state@.logs + runtime@.entries,
            runtime@.entries == runtime.entries.deep_view(),
            k <= runtime.entries@.len(),
            sorted.deep_view() == sort_by_key(all.take(state@.logs.len() + k), log_key_fn()),
        decreases runtime.entries@.len() - k,
    {
        let ghost n = state@.logs.len() + k;
        assert(all.take(n + 1).drop_last() == all.take(n));
        assert(all.take(n + 1).last() == runtime.entries@[k as int]@);
        insert_log_sorted(&mut sorted, runtime.entries[k].clone());
        k = k + 1;
    }
    assert(all.take(state@.logs.len() + k) == all);
    trim_logs(&mut sorted);
    sorted
}

/// Each stored key is found at its own position.
pub proof fn lemma_key_index_of<V>(entries: Seq<(Seq<char>, V)>, j: int)
    requires
        distinct_keys(entries),
        0 <= j < entries.len(),
    ensures
        key_index_from(entries, entries[j].0, 0) == Some(j),
{
    lemma_key_index_from(entries, entries[j].0, 0);
    if key_index_from(entries, entries[j].0, 0) is None {
        lemma_key_index_absent(entries, entries[j].0, 0);
    }
}

/// A found key sits at the position found, at or after the start of the search.
pub proof fn lemma_key_index_from<V>(entries: Seq<(Seq<char>, V)>, key: Seq<char>, k: int)
    ensures
        key_index_from(entries, key, k) matches Some(i) ==> k <= i < entries.len() && entries[i].0
            == key,
    decreases entries.len() - k,
{
    if 0 <= k < entries.len() && entries[k].0 != key {
        lemma_key_index_from(entries, key, k + 1);
    }
}

/// A key not found does not occur at or after the start of the search.
pub proof fn lemma_key_index_absent<V>(entries: Seq<(Seq<char>, V)>, key: Seq<char>, k: int)
    requires
        0 <= k,
        key_index_from(entries, key, k) is None,
    ensures
        forall|i: int| k <= i < entries.len() ==> entries[i].0 != key,
    decreases entries.len() - k,
{
    if k < entries.len() {
        lemma_key_index_absent(entries, key, k + 1);
    }
}


/// Reading a session back after storing it gives what was stored; every other key reads as
/// before, keys stay distinct, and a new key adds one entry.
pub proof fn lemma_upsert_then_lookup(entries: Seq<(Seq<char>, SessionInfoView)>, key: Seq<char>,
    value: SessionInfoView, other: Seq<char>)
    requires
        distinct_keys(entries),
        other != key,
    ensures
        lookup(upserted(entries, key, value), key) == Some(value),
        lookup(upserted(entries, key, value), other) == lookup(entries, other),
        distinct_keys(upserted(entries, key, value)),
        upserted(entries, key, value).len() == entries.len() + if lookup(entries, key) is Some {
            0int
        } else {
            1int
        },
{
    let after = upserted(entries, key, value);
    lemma_key_index_from(entries, key, 0);
    lemma_key_index_from(entries, other, 0);
    let pos = match key_index_from(entries, key, 0) {
        Some(i) => i,
        None => entries.len() as int,
    };
    if key_index_from(entries, key, 0) is None {
        lemma_key_index_absent(entries, key, 0);
    }
    assert(after[pos].0 == key);
    assert(forall|j: int| 0 <= j < after.len() && j != pos ==> after[j] == entries[j]);
    assert(distinct_keys(after)) by {
        assert forall|a: int, b: int| 0 <= a < b < after.len() implies after[a].0 != after[b].0 by {
            if a != pos && b != pos {
                assert(after[a] == entries[a] && after[b] == entries[b]);
            } else if a == pos {
                assert(after[b] == entries[b]);
            } else {
                assert(after[a] == entries[a]);
            }
        }
    }
    lemma_key_index_of(after, pos);
    match key_index_from(entries, other, 0) {
        Some(j) => {
            assert(after[j] == entries[j]);
            lemma_key_index_of(after, j);
        },
        None => {
            lemma_key_index_absent(entries, other, 0);
            lemma_key_index_from(after, other, 0);
            if key_index_from(after, other, 0) is Some {
                let j = key_index_from(after, other, 0)->0;
                assert(after[j] == entries[j]);
            }
        },
    }
}

/// A log never holds more than `MAX_LOG_ENTRIES` entries, and the entry appended last is the
/// newest: below the limit nothing is dropped, at the limit only the oldest entry is.
pub proof fn lemma_appended_log(logs: Seq<LogEntryView>, entry: LogEntryView)
    requires
        logs.len() <= MAX_LOG_ENTRIES,
    ensures
        appended_log(logs, entry).len() <= MAX_LOG_ENTRIES,
        appended_log(logs, entry).last() == entry,
        logs.len() < MAX_LOG_ENTRIES ==> appended_log(logs, entry) == logs.push(entry),
        logs.len() == MAX_LOG_ENTRIES ==> appended_log(logs, entry) == logs.skip(1).push(entry),
{
    if logs.len() == MAX_LOG_ENTRIES {
        assert(logs.push(entry).skip(1) =~= logs.skip(1).push(entry));
    }
}

/// The log after appending `entries` one by one, oldest first, each as `appended_log` does.
pub open spec fn appended_logs(logs: Seq<LogEntryView>, entries: Seq<LogEntryView>) -> Seq<LogEntryView>
    decreases entries.len(),
{
    if entries.len() == 0 {
        logs
    } else {
        appended_log(appended_logs(logs, entries.drop_last()), entries.last())
    }
}

/// After any number of appends, a log of at most `MAX_LOG_ENTRIES` entries holds the last
/// `MAX_LOG_ENTRIES` of its old entries followed by the appended ones, oldest first.
pub proof fn lemma_appended_logs(logs: Seq<LogEntryView>, entries: Seq<LogEntryView>)
    requires
        logs.len() <= MAX_LOG_ENTRIES,
    ensures
        appended_logs(logs, entries) == keep_last(logs + entries, MAX_LOG_ENTRIES as nat),
    decreases entries.len(),
{
    if entries.len() == 0 {
        assert(logs + entries =~= logs);
    } else {
        let front = entries.drop_last();
        let e = entries.last();
        lemma_appended_logs(logs, front);
        let all = logs + front;
        assert(logs + entries =~= all.push(e));
        let n = MAX_LOG_ENTRIES as int;
        if all.len() > n {
            let kept = all.skip(all.len() - n);
            assert(kept.push(e).len() > n);
            assert(kept.push(e).skip(1) =~= all.push(e).skip(all.push(e).len() - n));
        } else if all.len() == n {
            assert(all.push(e).skip(1) =~= all.push(e).skip(all.push(e).len() - n));
        }
    }
}

/// The ids along `logs` strictly increase.
pub open spec fn log_ids_increasing(logs: Seq<LogEntryView>) -> bool {
    forall|i: int, j: int| 0 <= i < j < logs.len() ==> #[trigger] logs[i].id < #[trigger] logs[j].id
}

/// Every id in `logs` is below `next`.
pub open spec fn log_ids_below(logs: Seq<LogEntryView>, next: u64) -> bool {
    forall|i: int| 0 <= i < logs.len() ==> #[trigger] logs[i].id < next
}

/// Appending an entry with the next log id keeps the ids strictly increasing and below the
/// following id, as long as the id counter does not wrap around.
pub proof fn lemma_append_keeps_ids_increasing(logs: Seq<LogEntryView>, next: u64, entry: LogEntryView)
    requires
        logs.len() <= MAX_LOG_ENTRIES,
        log_ids_increasing(logs),
        log_ids_below(logs, next),
        entry.id == next,
        next < u64::MAX,
    ensures
        log_ids_increasing(appended_log(logs, entry)),
        log_ids_below(appended_log(logs, entry), next.wrapping_add(1)),
{
    lemma_appended_log(logs, entry);
    let after = appended_log(logs, entry);
    let off: int = if logs.len() == MAX_LOG_ENTRIES { 1 } else { 0 };
    assert forall|i: int| 0 <= i < after.len() implies after[i] == logs.push(entry)[i + off] by {
        if off == 1 {
            assert(after == logs.skip(1).push(entry));
        }
    }
    assert forall|i: int, j: int| 0 <= i < j < after.len() implies #[trigger] after[i].id
        < #[trigger] after[j].id by {
        assert(after[i] == logs.push(entry)[i + off]);
        assert(after[j] == logs.push(entry)[j + off]);
        if j + off < logs.len() {
            assert(logs[i + off].id < logs[j + off].id);
        } else {
            assert(logs[i + off].id < next);
        }
    }
    assert forall|i: int| 0 <= i < after.len() implies #[trigger] after[i].id < next.wrapping_add(1) by {
        assert(after[i] == logs.push(entry)[i + off]);
        if i + off < logs.len() {
            assert(logs[i + off].id < next);
        }
    }
}

/// After appending entries numbered on from `next`, one id after another, to a log whose ids
/// increase and stay below `next`, the log's ids still strictly increase, as long as the id
/// counter does not wrap around.
pub proof fn lemma_appended_logs_ids_increasing(logs: Seq<LogEntryView>, next: u64, entries: Seq<LogEntryView>)
    requires
        logs.len() <= MAX_LOG_ENTRIES,
        log_ids_increasing(logs),
        log_ids_below(logs, next),
        forall|k: int| 0 <= k < entries.len() ==> #[trigger] entries[k].id == next + k,
        next + entries.len() <= u64::MAX,
    ensures
        log_ids_increasing(appended_logs(logs, entries)),
{
    lemma_appended_logs(logs, entries);
    let all = logs + entries;
    assert forall|i: int, j: int| 0 <= i < j < all.len() implies #[trigger] all[i].id < #[trigger] all[j].id by {
        if j < logs.len() {
            assert(logs[i].id < logs[j].id);
        } else if i < logs.len() {
            assert(logs[i].id < next);
            assert(entries[j - logs.len()].id == next + (j - logs.len()));
        } else {
            assert(entries[i - logs.len()].id == next + (i - logs.len()));
            assert(entries[j - logs.len()].id == next + (j - logs.len()));
        }
    }
    let kept = keep_last(all, MAX_LOG_ENTRIES as nat);
    let off: int = if all.len() > MAX_LOG_ENTRIES { all.len() - MAX_LOG_ENTRIES } else { 0 };
    assert forall|i: int, j: int| 0 <= i < j < kept.len() implies #[trigger] kept[i].id < #[trigger] kept[j].id by {
        assert(kept[i] == all[i + off] && kept[j] == all[j + off]);
    }
}

/// Sessions are listed most recently updated first, each stored session once.
pub proof fn lemma_sessions_by_recency(entries: Seq<(Seq<char>, SessionInfoView)>)
    ensures
        sessions_by_recency(entries).to_multiset() == session_values(entries).to_multiset(),
        sessions_by_recency(entries).len() == entries.len(),
        forall|i: int, j: int| 0 <= i < j < entries.len() ==> #[trigger] sessions_by_recency(entries)[i].updated_at_ms
            >= #[trigger] sessions_by_recency(entries)[j].updated_at_ms,
{
    lemma_sort_by_key(session_values(entries), recency_key_fn());
    let sorted = sessions_by_recency(entries);
    assert forall|i: int, j: int| 0 <= i < j < entries.len() implies #[trigger] sorted[i].updated_at_ms
        >= #[trigger] sorted[j].updated_at_ms by {
        assert(recency_key_fn()(sorted[i]) <= recency_key_fn()(sorted[j]));
    }
}

/// `a` comes no later than `b`: earlier, or at the same time with an id not greater.
pub open spec fn logged_no_later(a: LogEntryView, b: LogEntryView) -> bool {
    a.timestamp_ms < b.timestamp_ms || (a.timestamp_ms == b.timestamp_ms && a.id <= b.id)
}

/// The merged log holds at most `MAX_LOG_ENTRIES` entries, ordered by time and then id.
pub proof fn lemma_merged_logs_ordered(session_logs: Seq<LogEntryView>, runtime_logs: Seq<LogEntryView>)
    ensures
        merged_logs(session_logs, runtime_logs).len() <= MAX_LOG_ENTRIES,
        forall|i: int, j: int| 0 <= i < j < merged_logs(session_logs, runtime_logs).len() ==> logged_no_later(
            #[trigger] merged_logs(session_logs, runtime_logs)[i],
            #[trigger] merged_logs(session_logs, runtime_logs)[j],
        ),
{
    let all = session_logs + runtime_logs;
    lemma_sort_by_key(all, log_key_fn());
    let sorted = sort_by_key(all, log_key_fn());
    let kept = merged_logs(session_logs, runtime_logs);
    let off = if sorted.len() > MAX_LOG_ENTRIES { sorted.len() - MAX_LOG_ENTRIES } else { 0 };
    assert forall|i: int, j: int| 0 <= i < j < kept.len() implies logged_no_later(#[trigger] kept[i],
        #[trigger] kept[j]) by {
        assert(kept[i] == sorted[i + off] && kept[j] == sorted[j + off]);
        assert(log_key_fn()(sorted[i + off]) <= log_key_fn()(sorted[j + off]));
        lemma_log_key_le(kept[i], kept[j]);
    }
}

/// Session ids of different numbers differ.
pub proof fn lemma_session_ids_distinct(n: nat, m: nat)
    requires
        n != m,
    ensures
        "session-"@ + decimal_digits(n) != "session-"@ + decimal_digits(m),
{
    crate::text::lemma_decimal_digits_injective(n, m);
    let p = "session-"@;
    if p + decimal_digits(n) == p + decimal_digits(m) {
        assert((p + decimal_digits(n)).skip(p.len() as int) =~= decimal_digits(n));
        assert((p + decimal_digits(m)).skip(p.len() as int) =~= decimal_digits(m));
    }
}

} // verus!
