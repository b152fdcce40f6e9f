//! Backend sessions on the command line: their names, how they are found, and
//! how they are shown.

use vstd::prelude::*;

use crate::protocol::{SessionName, TerminalSize};

verus! {

/// Prefix of backend sessions that are created here.
pub const TERMSTAGE_SESSION_PREFIX: &'static str = "TerminalUse-";

/// Prefix that created tmux sessions once had.
pub const LEGACY_TERMSTAGE_TMUX_SESSION_PREFIX: &'static str = "ts-";

/// Backend that owns a session.
#[derive(Debug, Clone, Copy, PartialEq, Eq, Structural)]
pub enum CliBackend {
    /// tmux.
    Tmux,
    /// rmux.
    Rmux,
}

impl CliBackend {
    /// Name of the backend.
    pub open spec fn text(self) -> Seq<char> {
        match self {
            CliBackend::Tmux => "tmux"@,
            CliBackend::Rmux => "rmux"@,
        }
    }

    /// Returns the name of the backend.
    #[must_use]
    pub fn as_str(self) -> (r: &'static str)
        ensures
            r@ == self.text(),
    {
        match self {
            CliBackend::Tmux => "tmux",
            CliBackend::Rmux => "rmux",
        }
    }
}

/// What is wrong with the name of a session.
#[derive(Debug, Clone, Copy, PartialEq, Eq, Structural)]
pub enum NameError {
    /// The name itself.
    Name,
    /// The name behind its prefix.
    PrefixedName,
    /// The name behind its old prefix.
    LegacyName,
}

impl NameError {
    /// The text of the failure.
    pub open spec fn text(self) -> Seq<char> {
        match self {
            NameError::Name => "invalid session name"@,
            NameError::PrefixedName => "invalid prefixed session name"@,
            NameError::LegacyName => "invalid legacy prefixed tmux session name"@,
        }
    }

    /// Returns the text of the failure.
    #[must_use]
    pub fn message(self) -> (r: &'static str)
        ensures
            r@ == self.text(),
    {
        match self {
            NameError::Name => "invalid session name",
            NameError::PrefixedName => "invalid prefixed session name",
            NameError::LegacyName => "invalid legacy prefixed tmux session name",
        }
    }
}

/// A name behind a prefix; one that has the prefix is kept.
pub open spec fn prefixed(name: Seq<char>, prefix: Seq<char>) -> Seq<char> {
    if crate::text::has_prefix(name, prefix) {
        name
    } else {
        prefix + name
    }
}

/// The name that a created session gets.
pub open spec fn created_name(name: Seq<char>) -> Seq<char> {
    prefixed(name, TERMSTAGE_SESSION_PREFIX@)
}

/// The name that a created tmux session once got.
pub open spec fn legacy_name(name: Seq<char>) -> Seq<char> {
    prefixed(name, LEGACY_TERMSTAGE_TMUX_SESSION_PREFIX@)
}

/// The session that a name and its prefix give, or which of them is no session
/// name.
pub open spec fn prefixed_session(
    name: Seq<char>,
    prefix: Seq<char>,
    otherwise: NameError,
) -> Result<Seq<char>, NameError> {
    if !crate::protocol::valid_session_name(name) {
        Err(NameError::Name)
    } else if !crate::protocol::valid_session_name(prefixed(name, prefix)) {
        Err(otherwise)
    } else {
        Ok(prefixed(name, prefix))
    }
}

fn prefixed_name(name: &str, prefix: &str, otherwise: NameError) -> (r: Result<
    SessionName,
    NameError,
>)
    ensures
        match r {
            Ok(session) => prefixed_session(name@, prefix@, otherwise) == Ok::<
                Seq<char>,
                NameError,
            >(session@),
            Err(error) => prefixed_session(name@, prefix@, otherwise) == Err::<
                Seq<char>,
                NameError,
            >(error),
        },
{
    let session = match SessionName::new(name) {
        Ok(session) => session,
        Err(_) => return Err(NameError::Name),
    };
    if crate::text::starts_with(name, prefix) {
        return Ok(session);
    }
    match SessionName::new(prefix.to_owned().concat(name).as_str()) {
        Ok(session) => Ok(session),
        Err(_) => Err(otherwise),
    }
}

/// Returns the name that a created session gets.
pub fn termstage_session_name(name: &str) -> (r: Result<SessionName, NameError>)
    ensures
        match r {
            Ok(session) => prefixed_session(name@, TERMSTAGE_SESSION_PREFIX@, NameError::PrefixedName) == Ok::<Seq<char>, NameError>(
                session@,
            ),
            Err(error) => prefixed_session(name@, TERMSTAGE_SESSION_PREFIX@, NameError::PrefixedName) == Err::<Seq<char>, NameError>(
                error,
            ),
        },
{
    prefixed_name(name, TERMSTAGE_SESSION_PREFIX, NameError::PrefixedName)
}

/// Returns the name that a created tmux session gets.
pub fn termstage_tmux_session_name(name: &str) -> (r: Result<SessionName, NameError>)
    ensures
        match r {
            Ok(session) => prefixed_session(name@, TERMSTAGE_SESSION_PREFIX@, NameError::PrefixedName) == Ok::<Seq<char>, NameError>(
                session@,
            ),
            Err(error) => prefixed_session(name@, TERMSTAGE_SESSION_PREFIX@, NameError::PrefixedName) == Err::<Seq<char>, NameError>(
                error,
            ),
        },
{
    termstage_session_name(name)
}

/// Returns the name that a created rmux session gets.
pub fn termstage_rmux_session_name(name: &str) -> (r: Result<SessionName, NameError>)
    ensures
        match r {
            Ok(session) => prefixed_session(name@, TERMSTAGE_SESSION_PREFIX@, NameError::PrefixedName) == Ok::<Seq<char>, NameError>(
                session@,
            ),
            Err(error) => prefixed_session(name@, TERMSTAGE_SESSION_PREFIX@, NameError::PrefixedName) == Err::<Seq<char>, NameError>(
                error,
            ),
        },
{
    termstage_session_name(name)
}

/// Returns the name that a created tmux session once got.
pub fn legacy_termstage_tmux_session_name(name: &str) -> (r: Result<SessionName, NameError>)
    ensures
        match r {
            Ok(session) => prefixed_session(name@, LEGACY_TERMSTAGE_TMUX_SESSION_PREFIX@, NameError::LegacyName) == Ok::<Seq<char>, NameError>(
                session@,
            ),
            Err(error) => prefixed_session(name@, LEGACY_TERMSTAGE_TMUX_SESSION_PREFIX@, NameError::LegacyName) == Err::<Seq<char>, NameError>(
                error,
            ),
        },
{
    prefixed_name(name, LEGACY_TERMSTAGE_TMUX_SESSION_PREFIX, NameError::LegacyName)
}

/// The name that a session is shown by: without the prefix that creation gave it.
pub open spec fn display_name(backend: CliBackend, session: Seq<char>) -> Seq<char> {
    if crate::text::has_prefix(session, TERMSTAGE_SESSION_PREFIX@) {
        session.skip(TERMSTAGE_SESSION_PREFIX@.len() as int)
    } else if backend == CliBackend::Tmux && crate::text::has_prefix(
        session,
        LEGACY_TERMSTAGE_TMUX_SESSION_PREFIX@,
    ) {
        session.skip(LEGACY_TERMSTAGE_TMUX_SESSION_PREFIX@.len() as int)
    } else {
        session
    }
}

/// A created session is shown by the name it was asked for, and asking for its
/// full name gives the same session.
pub proof fn law_created_session_keeps_its_name(backend: CliBackend, name: Seq<char>)
    ensures
        created_name(created_name(name)) == created_name(name),
        legacy_name(legacy_name(name)) == legacy_name(name),
        !crate::text::has_prefix(name, TERMSTAGE_SESSION_PREFIX@) ==> display_name(
            backend,
            created_name(name),
        ) == name,
{
    let prefix = TERMSTAGE_SESSION_PREFIX@;
    let legacy = LEGACY_TERMSTAGE_TMUX_SESSION_PREFIX@;
    assert((prefix + name).take(prefix.len() as int) =~= prefix);
    assert((legacy + name).take(legacy.len() as int) =~= legacy);
    assert((prefix + name).skip(prefix.len() as int) =~= name);
}

/// The contents of a session record.
pub struct RecordView {
    /// Session id.
    pub id: Seq<char>,
    /// Backend that owns the session.
    pub backend: CliBackend,
    /// Name that the session is shown by.
    pub display_name: Seq<char>,
    /// Name of the session in its backend.
    pub backend_session: Seq<char>,
}

/// A session as the command line shows it.
#[derive(Debug, Clone, PartialEq, Eq)]
pub struct CliSessionRecord {
    /// Session id.
    pub id: String,
    /// Backend that owns the session.
    pub backend: CliBackend,
    /// Name that the session is shown by.
    pub display_name: String,
    /// Name of the session in its backend.
    pub backend_session: String,
}

impl View for CliSessionRecord {
    type V = RecordView;

    open spec fn view(&self) -> RecordView {
        RecordView {
            id: self.id@,
            backend: self.backend,
            display_name: self.display_name@,
            backend_session: self.backend_session@,
        }
    }
}

/// The record of a session.
pub open spec fn record_of(backend: CliBackend, session: Seq<char>) -> RecordView {
    RecordView {
        id: session,
        backend,
        display_name: display_name(backend, session),
        backend_session: session,
    }
}

/// Returns the record of a tmux session.
#[must_use]
pub fn cli_record_from_tmux_session(session: &SessionName) -> (r: CliSessionRecord)
    ensures
        r@ == record_of(CliBackend::Tmux, session@),
{
    let name = session.as_str();
    let display_name = match crate::text::strip_prefix(name, TERMSTAGE_SESSION_PREFIX) {
        Some(rest) => rest,
        None => match crate::text::strip_prefix(name, LEGACY_TERMSTAGE_TMUX_SESSION_PREFIX) {
            Some(rest) => rest,
            None => name.to_owned(),
        },
    };
    CliSessionRecord {
        id: name.to_owned(),
        backend: CliBackend::Tmux,
        display_name,
        backend_session: name.to_owned(),
    }
}

/// Returns the record of an rmux session.
#[must_use]
pub fn cli_record_from_rmux_session(session: &SessionName) -> (r: CliSessionRecord)
    ensures
        r@ == record_of(CliBackend::Rmux, session@),
{
    let name = session.as_str();
    let display_name = match crate::text::strip_prefix(name, TERMSTAGE_SESSION_PREFIX) {
        Some(rest) => rest,
        None => name.to_owned(),
    };
    CliSessionRecord {
        id: name.to_owned(),
        backend: CliBackend::Rmux,
        display_name,
        backend_session: name.to_owned(),
    }
}

/// Returns the record of a session.
#[must_use]
pub fn cli_record_from_backend_session(backend: CliBackend, session: &SessionName) -> (r:
    CliSessionRecord)
    ensures
        r@ == record_of(backend, session@),
{
    match backend {
        CliBackend::Tmux => cli_record_from_tmux_session(session),
        CliBackend::Rmux => cli_record_from_rmux_session(session),
    }
}

/// The contents of several records.
pub open spec fn record_views(records: Seq<CliSessionRecord>) -> Seq<RecordView> {
    records.map_values(|record: CliSessionRecord| record@)
}

/// The records of several sessions of a backend.
pub open spec fn records_of(backend: CliBackend, sessions: Seq<SessionName>) -> Seq<RecordView> {
    sessions.map_values(|session: SessionName| record_of(backend, session@))
}

/// The records of the sessions of a backend. One that did not answer has none.
pub open spec fn backend_records(
    backend: CliBackend,
    sessions: Option<Vec<SessionName>>,
) -> Seq<RecordView> {
    match sessions {
        Some(sessions) => records_of(backend, sessions@),
        None => seq![],
    }
}

/// Adds the records of the sessions of a backend.
fn add_records(
    records: &mut Vec<CliSessionRecord>,
    backend: CliBackend,
    sessions: &Vec<SessionName>,
)
    ensures
        record_views(final(records)@) == record_views(old(records)@) + records_of(
            backend,
            sessions@,
        ),
{
    let mut i: usize = 0;
    proof {
        assert(record_views(records@) + records_of(backend, sessions@.take(0)) =~= record_views(
            records@,
        ));
    }
    while i < sessions.len()
        invariant
            i <= sessions@.len(),
            record_views(records@) == record_views(old(records)@) + records_of(
                backend,
                sessions@.take(i as int),
            ),
        decreases sessions@.len() - i,
    {
        let ghost before = records@;
        records.push(cli_record_from_backend_session(backend, &sessions[i]));
        proof {
            assert(sessions@.take(i + 1) =~= sessions@.take(i as int).push(sessions@[i as int]));
            assert(record_views(records@) =~= record_views(before).push(
                record_of(backend, sessions@[i as int]@),
            ));
            assert(records_of(backend, sessions@.take(i + 1)) =~= records_of(
                backend,
                sessions@.take(i as int),
            ).push(record_of(backend, sessions@[i as int]@)));
        }
        i += 1;
    }
    proof {
        assert(sessions@.take(sessions@.len() as int) =~= sessions@);
    }
}

/// The records of a list of sessions. Where one backend is asked for, it must have
/// answered; else both have their part, tmux first.
pub open spec fn listed_records(
    backend: Option<CliBackend>,
    tmux: Option<Vec<SessionName>>,
    rmux: Option<Vec<SessionName>>,
) -> Option<Seq<RecordView>> {
    match backend {
        Some(CliBackend::Tmux) => if tmux is Some {
            Some(backend_records(CliBackend::Tmux, tmux))
        } else {
            None
        },
        Some(CliBackend::Rmux) => if rmux is Some {
            Some(backend_records(CliBackend::Rmux, rmux))
        } else {
            None
        },
        None => Some(
            backend_records(CliBackend::Tmux, tmux) + backend_records(CliBackend::Rmux, rmux),
        ),
    }
}

/// Lists sessions by what the backends answered. Gives nothing where the backend that
/// was asked for did not answer.
pub fn list_cli_sessions(
    backend: Option<CliBackend>,
    tmux: Option<Vec<SessionName>>,
    rmux: Option<Vec<SessionName>>,
) -> (r: Option<Vec<CliSessionRecord>>)
    ensures
        match r {
            Some(records) => listed_records(backend, tmux, rmux) == Some(record_views(records@)),
            None => listed_records(backend, tmux, rmux) is None,
        },
{
    let wants_tmux = !matches!(backend, Some(CliBackend::Rmux));
    let wants_rmux = !matches!(backend, Some(CliBackend::Tmux));
    let mut records: Vec<CliSessionRecord> = Vec::new();
    let ghost from_tmux = if wants_tmux {
        backend_records(CliBackend::Tmux, tmux)
    } else {
        seq![]
    };
    let ghost from_rmux = if wants_rmux {
        backend_records(CliBackend::Rmux, rmux)
    } else {
        seq![]
    };
    if wants_tmux {
        match &tmux {
            Some(sessions) => {
                add_records(&mut records, CliBackend::Tmux, sessions);
            },
            None => {
                if !wants_rmux {
                    return None;
                }
            },
        }
    }
    proof {
        assert(record_views(records@) =~= from_tmux);
    }
    if wants_rmux {
        match &rmux {
            Some(sessions) => {
                add_records(&mut records, CliBackend::Rmux, sessions);
            },
            None => {
                if !wants_tmux {
                    return None;
                }
            },
        }
    }
    proof {
        assert(record_views(records@) =~= from_tmux + from_rmux);
        assert(from_tmux + Seq::<RecordView>::empty() =~= from_tmux);
        assert(Seq::<RecordView>::empty() + from_rmux =~= from_rmux);
    }
    Some(records)
}

/// The names that a requested session may have in its backend, in the order in
/// which they are looked for.
pub open spec fn search_names(backend: CliBackend, requested: Seq<char>) -> Seq<Seq<char>> {
    let created = created_name(requested);
    let legacy = legacy_name(requested);
    let first = if created != requested && crate::protocol::valid_session_name(created) {
        seq![requested, created]
    } else {
        seq![requested]
    };
    if backend == CliBackend::Tmux && crate::protocol::valid_session_name(created)
        && crate::protocol::valid_session_name(legacy) && legacy != requested && legacy != created {
        first.push(legacy)
    } else {
        first
    }
}

/// What is said where a requested session is not found under any of its names.
pub open spec fn search_failure(backend: CliBackend, requested: Seq<char>) -> Seq<char> {
    let created = created_name(requested);
    let legacy = legacy_name(requested);
    if !crate::protocol::valid_session_name(created) {
        NameError::PrefixedName.text()
    } else {
        match backend {
            CliBackend::Rmux => "rmux session "@ + requested + " was not found; also tried "@
                + created,
            CliBackend::Tmux => if crate::protocol::valid_session_name(legacy) {
                "tmux session "@ + requested + " was not found; also tried "@ + created + " and "@
                    + legacy
            } else {
                NameError::LegacyName.text()
            },
        }
    }
}

/// Where to look for a requested session.
#[derive(Debug, Clone, PartialEq, Eq)]
pub struct SessionSearch {
    /// Names to look for, in order. The first that exists is the session.
    pub names: Vec<SessionName>,
    /// What is said where none exists.
    pub failure: String,
}

/// Returns where to look for a requested session.
#[must_use]
pub fn session_search(backend: CliBackend, requested: &SessionName) -> (r: SessionSearch)
    ensures
        crate::protocol::name_texts(r.names@) == search_names(backend, requested@),
        r.failure@ == search_failure(backend, requested@),
{
    let mut names: Vec<SessionName> = Vec::new();
    names.push(requested.clone());
    let name = requested.as_str();
    let created = match termstage_session_name(name) {
        Ok(created) => created,
        Err(error) => {
            proof {
                assert(crate::protocol::name_texts(names@) =~= search_names(backend, requested@));
            }
            return SessionSearch { names, failure: error.message().to_owned() };
        },
    };
    if created != *requested {
        names.push(created.clone());
    }
    proof {
        assert(crate::protocol::name_texts(names@) =~= (if created@ != requested@ {
            seq![requested@, created@]
        } else {
            seq![requested@]
        }));
    }
    match backend {
        CliBackend::Rmux => {
            let mut failure = String::from_str("rmux session ");
            failure.append(name);
            failure.append(" was not found; also tried ");
            failure.append(created.as_str());
            SessionSearch { names, failure }
        },
        CliBackend::Tmux => {
            let legacy = match legacy_termstage_tmux_session_name(name) {
                Ok(legacy) => legacy,
                Err(error) => return SessionSearch { names, failure: error.message().to_owned() },
            };
            let mut failure = String::from_str("tmux session ");
            failure.append(name);
            failure.append(" was not found; also tried ");
            failure.append(created.as_str());
            failure.append(" and ");
            failure.append(legacy.as_str());
            if legacy != *requested && legacy != created {
                let ghost before = names@;
                names.push(legacy);
                proof {
                    assert(crate::protocol::name_texts(names@) =~= crate::protocol::name_texts(
                        before,
                    ).push(legacy@));
                }
            }
            SessionSearch { names, failure }
        },
    }
}

/// What to do next in a search.
#[derive(Debug, Clone, PartialEq, Eq)]
pub enum SearchStep {
    /// Ask the backend whether it has this session.
    Check(SessionName),
    /// The session is this one.
    Found(SessionName),
    /// There is no such session, and this is said of it.
    NotFound(String),
}

/// The position of the first answer that is yes, or the number of answers.
pub open spec fn first_yes(answers: Seq<bool>) -> int
    decreases answers.len(),
{
    if answers.len() == 0 || answers[0] {
        0
    } else {
        1 + first_yes(answers.skip(1))
    }
}

proof fn lemma_first_yes(answers: Seq<bool>, at: int)
    requires
        0 <= at <= answers.len(),
        forall|i: int| 0 <= i < at ==> !#[trigger] answers[i],
        at < answers.len() ==> answers[at],
    ensures
        first_yes(answers) == at,
    decreases answers.len(),
{
    if at > 0 {
        assert(!answers[0]);
        assert forall|i: int| 0 <= i < at - 1 implies !#[trigger] answers.skip(1)[i] by {
            assert(answers.skip(1)[i] == answers[i + 1]);
        }
        lemma_first_yes(answers.skip(1), at - 1);
    }
}

/// Tells whether `step` comes next in a search after `answers`.
pub open spec fn search_step(search: SessionSearch, answers: Seq<bool>, step: SearchStep) -> bool {
    match step {
        SearchStep::Check(name) => {
            &&& first_yes(answers) == answers.len() < search.names@.len()
            &&& name@ == search.names@[answers.len() as int]@
        },
        SearchStep::Found(name) => {
            &&& first_yes(answers) < answers.len()
            &&& name@ == search.names@[first_yes(answers)]@
        },
        SearchStep::NotFound(failure) => {
            &&& first_yes(answers) == answers.len() == search.names@.len()
            &&& failure@ == search.failure@
        },
    }
}

impl SessionSearch {
    /// What to do next, after the backend answered for the first names in turn whether it
    /// has such a session.
    pub fn next(&self, answers: &Vec<bool>) -> (r: SearchStep)
        requires
            answers@.len() <= self.names@.len(),
        ensures
            search_step(*self, answers@, r),
    {
        let mut i: usize = 0;
        while i < answers.len()
            invariant
                i <= answers@.len() <= self.names@.len(),
                forall|k: int| 0 <= k < i ==> !#[trigger] answers@[k],
            decreases answers@.len() - i,
        {
            if answers[i] {
                proof {
                    lemma_first_yes(answers@, i as int);
                }
                return SearchStep::Found(self.names[i].clone());
            }
            i += 1;
        }
        proof {
            lemma_first_yes(answers@, i as int);
        }
        if i < self.names.len() {
            SearchStep::Check(self.names[i].clone())
        } else {
            SearchStep::NotFound(self.failure.clone())
        }
    }
}

/// A search starts with the name that was asked for and looks for no name twice.
pub proof fn law_search_tries_each_name_once(backend: CliBackend, requested: Seq<char>)
    ensures
        search_names(backend, requested).len() > 0,
        search_names(backend, requested)[0] == requested,
        search_names(backend, requested).no_duplicates(),
{
}

/// A session and the backend that owns it.
#[derive(Debug, Clone, PartialEq, Eq)]
pub enum ResolvedCliSession {
    /// tmux session.
    Tmux {
        /// Record of the session.
        record: CliSessionRecord,
        /// Name of the session in tmux.
        backend_session: SessionName,
    },
    /// rmux session.
    Rmux {
        /// Record of the session.
        record: CliSessionRecord,
        /// Name of the session in rmux.
        backend_session: SessionName,
    },
}

impl ResolvedCliSession {
    /// The backend that owns the session.
    pub open spec fn owner(&self) -> CliBackend {
        match self {
            ResolvedCliSession::Tmux { .. } => CliBackend::Tmux,
            ResolvedCliSession::Rmux { .. } => CliBackend::Rmux,
        }
    }

    /// The name of the session in its backend.
    pub open spec fn session_text(&self) -> Seq<char> {
        match self {
            ResolvedCliSession::Tmux { backend_session, .. } => backend_session@,
            ResolvedCliSession::Rmux { backend_session, .. } => backend_session@,
        }
    }

    /// The record of the session.
    pub open spec fn record_view(&self) -> RecordView {
        match self {
            ResolvedCliSession::Tmux { record, .. } => record@,
            ResolvedCliSession::Rmux { record, .. } => record@,
        }
    }

    /// A session found in a backend.
    #[must_use]
    pub fn new(backend: CliBackend, backend_session: SessionName) -> (r: Self)
        ensures
            r.owner() == backend,
            r.session_text() == backend_session@,
            r.record_view() == record_of(backend, backend_session@),
    {
        let record = cli_record_from_backend_session(backend, &backend_session);
        match backend {
            CliBackend::Tmux => ResolvedCliSession::Tmux { record, backend_session },
            CliBackend::Rmux => ResolvedCliSession::Rmux { record, backend_session },
        }
    }
}

/// Tells whether `r` is the choice between what the backends found.
pub open spec fn resolved_as(
    requested: Seq<char>,
    tmux: Option<SessionName>,
    rmux: Option<SessionName>,
    r: Result<ResolvedCliSession, String>,
) -> bool {
    match (tmux, rmux) {
        (Some(session), None) => {
            &&& r matches Ok(resolved)
            &&& resolved.owner() == CliBackend::Tmux
            &&& resolved.session_text() == session@
            &&& resolved.record_view() == record_of(CliBackend::Tmux, session@)
        },
        (None, Some(session)) => {
            &&& r matches Ok(resolved)
            &&& resolved.owner() == CliBackend::Rmux
            &&& resolved.session_text() == session@
            &&& resolved.record_view() == record_of(CliBackend::Rmux, session@)
        },
        (None, None) => {
            &&& r matches Err(failure)
            &&& failure@ == "session "@ + requested + " was not found in tmux or rmux"@
        },
        (Some(_), Some(_)) => {
            &&& r matches Err(failure)
            &&& failure@ == "session "@ + requested
                + " is ambiguous across backends; pass --backend tmux or --backend rmux"@
        },
    }
}

/// Chooses between what the backends found. A session that both have is ambiguous.
pub fn resolve_cli_session_auto(
    requested: &SessionName,
    tmux: Option<SessionName>,
    rmux: Option<SessionName>,
) -> (r: Result<ResolvedCliSession, String>)
    ensures
        resolved_as(requested@, tmux, rmux, r),
{
    match (tmux, rmux) {
        (Some(session), None) => Ok(ResolvedCliSession::new(CliBackend::Tmux, session)),
        (None, Some(session)) => Ok(ResolvedCliSession::new(CliBackend::Rmux, session)),
        (None, None) => {
            let mut failure = String::from_str("session ");
            failure.append(requested.as_str());
            failure.append(" was not found in tmux or rmux");
            Err(failure)
        },
        (Some(_), Some(_)) => {
            let mut failure = String::from_str("session ");
            failure.append(requested.as_str());
            failure.append(
                " is ambiguous across backends; pass --backend tmux or --backend rmux",
            );
            Err(failure)
        },
    }
}

/// `text` followed by spaces up to `width` characters.
pub open spec fn padded(text: Seq<char>, width: nat) -> Seq<char> {
    if text.len() < width {
        text + Seq::new((width - text.len()) as nat, |i: int| ' ')
    } else {
        text
    }
}

/// Appends `text` and spaces up to `width` characters.
pub fn push_padded(output: &mut String, text: &str, width: usize)
    ensures
        final(output)@ == old(output)@ + padded(text@, width as nat),
{
    let mut written: usize = crate::text::chars_of(text).len();
    output.append(text);
    let ghost before = output@;
    let ghost len = written as int;
    while written < width
        invariant
            len <= written,
            written <= width || written == len,
            output@ == before + Seq::new((written - len) as nat, |i: int| ' '),
        decreases width - written,
    {
        output.push(' ');
        written += 1;
        proof {
            assert(output@ =~= before + Seq::new((written - len) as nat, |i: int| ' '));
        }
    }
    proof {
        assert(output@ =~= old(output)@ + padded(text@, width as nat));
    }
}

/// The larger of two widths.
pub open spec fn wider(a: nat, b: nat) -> nat {
    if a < b {
        b
    } else {
        a
    }
}

/// Width of the id column: no id and not its header is longer, in bytes.
pub open spec fn id_width(records: Seq<CliSessionRecord>) -> nat
    decreases records.len(),
{
    if records.len() == 0 {
        crate::text::byte_len("SESSION_ID"@)
    } else {
        wider(id_width(records.drop_last()), crate::text::byte_len(records.last().id@))
    }
}

/// Width of the backend column: no name and not its header is longer, in bytes.
pub open spec fn backend_width(records: Seq<CliSessionRecord>) -> nat
    decreases records.len(),
{
    if records.len() == 0 {
        crate::text::byte_len("BACKEND"@)
    } else {
        wider(
            backend_width(records.drop_last()),
            crate::text::byte_len(records.last().backend.text()),
        )
    }
}

/// Widths of the id and backend columns.
pub fn session_list_widths(records: &[CliSessionRecord]) -> (r: (usize, usize))
    ensures
        r.0 == id_width(records@),
        r.1 == backend_width(records@),
{
    let mut ids: usize = "SESSION_ID".as_bytes().len();
    let mut backends: usize = "BACKEND".as_bytes().len();
    let mut i: usize = 0;
    proof {
        assert(records@.take(0) =~= seq![]);
    }
    while i < records.len()
        invariant
            i <= records@.len(),
            ids == id_width(records@.take(i as int)),
            backends == backend_width(records@.take(i as int)),
        decreases records@.len() - i,
    {
        let id = records[i].id.as_str().as_bytes().len();
        let backend = records[i].backend.as_str().as_bytes().len();
        if ids < id {
            ids = id;
        }
        if backends < backend {
            backends = backend;
        }
        i += 1;
        proof {
            assert(records@.take(i as int).drop_last() =~= records@.take(i - 1));
        }
    }
    proof {
        assert(records@.take(i as int) =~= records@);
    }
    (ids, backends)
}

/// A row of the session list.
pub open spec fn list_row(
    id: Seq<char>,
    backend: Seq<char>,
    display_name: Seq<char>,
    widths: (nat, nat),
) -> Seq<char> {
    padded(id, widths.0) + "  "@ + padded(backend, widths.1) + "  "@ + display_name + "\n"@
}

/// The rows of the session list, one for each record.
pub open spec fn list_rows(records: Seq<CliSessionRecord>, widths: (nat, nat)) -> Seq<char>
    decreases records.len(),
{
    if records.len() == 0 {
        seq![]
    } else {
        let record = records.last();
        list_rows(records.drop_last(), widths) + list_row(
            record.id@,
            record.backend.text(),
            record.display_name@,
            widths,
        )
    }
}

/// The session list: a header and a row for each record, in aligned columns.
pub open spec fn list_text(records: Seq<CliSessionRecord>) -> Seq<char> {
    let widths = (id_width(records), backend_width(records));
    list_row("SESSION_ID"@, "BACKEND"@, "DISPLAY_NAME"@, widths) + list_rows(records, widths)
}

fn write_session_list_row(output: &mut String, values: [&str; 3], widths: (usize, usize))
    ensures
        final(output)@ == old(output)@ + list_row(
            values@[0]@,
            values@[1]@,
            values@[2]@,
            (widths.0 as nat, widths.1 as nat),
        ),
{
    push_padded(output, values[0], widths.0);
    output.append("  ");
    push_padded(output, values[1], widths.1);
    output.append("  ");
    output.append(values[2]);
    output.append("\n");
    proof {
        assert(output@ =~= old(output)@ + list_row(
            values@[0]@,
            values@[1]@,
            values@[2]@,
            (widths.0 as nat, widths.1 as nat),
        ));
    }
}

/// Writes the session list.
pub fn write_session_list(output: &mut String, records: &[CliSessionRecord])
    ensures
        final(output)@ == old(output)@ + list_text(records@),
{
    let ghost before = output@;
    let widths = session_list_widths(records);
    let ghost view = (widths.0 as nat, widths.1 as nat);
    write_session_list_row(output, ["SESSION_ID", "BACKEND", "DISPLAY_NAME"], widths);
    let ghost head = list_row("SESSION_ID"@, "BACKEND"@, "DISPLAY_NAME"@, view);
    let mut i: usize = 0;
    proof {
        assert(records@.take(0) =~= seq![]);
        assert(output@ =~= before + (head + list_rows(records@.take(0), view)));
    }
    while i < records.len()
        invariant
            i <= records@.len(),
            view == (widths.0 as nat, widths.1 as nat),
            output@ == before + (head + list_rows(records@.take(i as int), view)),
        decreases records@.len() - i,
    {
        let ghost sofar = output@;
        let record = &records[i];
        write_session_list_row(
            output,
            [record.id.as_str(), record.backend.as_str(), record.display_name.as_str()],
            widths,
        );
        i += 1;
        proof {
            assert(records@.take(i as int).drop_last() =~= records@.take(i - 1));
            assert(output@ =~= before + (head + list_rows(records@.take(i as int), view)));
        }
    }
    proof {
        assert(records@.take(i as int) =~= records@);
    }
}

/// Command that attaches a terminal to a session.
pub open spec fn attach_text(record: RecordView) -> Seq<char> {
    record.backend.text() + " attach -t "@ + record.backend_session
}

/// Command that attaches a browser to a session.
pub open spec fn browser_text(record: RecordView) -> Seq<char> {
    "termstage session attach "@ + record.id + " --backend "@ + record.backend.text()
        + " --browser"@
}

/// Returns the command that attaches a terminal to a session.
#[must_use]
pub fn native_attach_command(record: &CliSessionRecord) -> (r: String)
    ensures
        r@ == attach_text(record@),
{
    let mut command = record.backend.as_str().to_owned();
    command.append(" attach -t ");
    command.append(record.backend_session.as_str());
    command
}

/// The arguments with which a backend attaches a terminal to a session.
pub open spec fn attach_words(session: Seq<char>) -> Seq<Seq<char>> {
    seq!["attach"@, "-t"@, session]
}

/// Returns the arguments with which the backend attaches a terminal to a session.
#[must_use]
pub fn native_attach_args(record: &CliSessionRecord) -> (r: Vec<String>)
    ensures
        crate::text::texts(r@) == attach_words(record@.backend_session),
{
    let mut args: Vec<String> = Vec::new();
    args.push("attach".to_owned());
    args.push("-t".to_owned());
    args.push(record.backend_session.clone());
    proof {
        assert(crate::text::texts(args@) =~= attach_words(record@.backend_session));
    }
    args
}

/// Returns the command that attaches a browser to a session.
#[must_use]
pub fn browser_attach_command(record: &CliSessionRecord) -> (r: String)
    ensures
        r@ == browser_text(record@),
{
    let mut command = String::from_str("termstage session attach ");
    command.append(record.id.as_str());
    command.append(" --backend ");
    command.append(record.backend.as_str());
    command.append(" --browser");
    command
}

/// What is said of a session that was created.
pub open spec fn created_text(record: RecordView) -> Seq<char> {
    "id: "@ + record.backend_session + "\nbackend: "@ + record.backend.text()
        + "\ndisplay-name: "@ + record.display_name + "\nbackend-session: "@
        + record.backend_session + "\nattach: "@ + attach_text(record) + "\nbrowser: "@
        + browser_text(record) + "\n"@
}

/// Returns what is said of a session that was created.
#[must_use]
pub fn session_created(record: &CliSessionRecord) -> (r: String)
    ensures
        r@ == created_text(record@),
{
    let mut output = String::from_str("id: ");
    output.append(record.backend_session.as_str());
    output.append("\nbackend: ");
    output.append(record.backend.as_str());
    output.append("\ndisplay-name: ");
    output.append(record.display_name.as_str());
    output.append("\nbackend-session: ");
    output.append(record.backend_session.as_str());
    output.append("\nattach: ");
    output.append(native_attach_command(record).as_str());
    output.append("\nbrowser: ");
    output.append(browser_attach_command(record).as_str());
    output.append("\n");
    output
}

/// What is said of a session that was stopped, or was gone already.
pub open spec fn stopped_text(
    killed: bool,
    backend: CliBackend,
    session: Seq<char>,
    requested: Seq<char>,
) -> Seq<char> {
    if killed {
        "killed "@ + backend.text() + " session "@ + session + " for requested session "@
            + requested + "\n"@
    } else {
        "requested session "@ + requested + " resolved to "@ + session
            + "; backend session was already gone\n"@
    }
}

/// Returns what is said of a session that was stopped.
#[must_use]
pub fn session_stopped(
    killed: bool,
    backend: CliBackend,
    session: &SessionName,
    requested: &SessionName,
) -> (r: String)
    ensures
        r@ == stopped_text(killed, backend, session@, requested@),
{
    if killed {
        let mut output = String::from_str("killed ");
        output.append(backend.as_str());
        output.append(" session ");
        output.append(session.as_str());
        output.append(" for requested session ");
        output.append(requested.as_str());
        output.append("\n");
        output
    } else {
        let mut output = String::from_str("requested session ");
        output.append(requested.as_str());
        output.append(" resolved to ");
        output.append(session.as_str());
        output.append("; backend session was already gone\n");
        output
    }
}

/// A session that is to be stopped.
#[derive(Debug, Clone, PartialEq, Eq)]
pub struct SessionStop {
    /// Backend that owns the session.
    pub backend: CliBackend,
    /// Name of the session in its backend.
    pub session: SessionName,
    /// Name that was asked for.
    pub requested: SessionName,
}

/// What to do next to stop a session.
#[derive(Debug, Clone, PartialEq, Eq)]
pub enum StopStep {
    /// Kill the session.
    Kill,
    /// Say this.
    Report(String),
}

impl SessionStop {
    /// What to do after the backend told whether it has the session. One that it has not
    /// is not killed.
    pub fn checked(&self, found: bool) -> (r: StopStep)
        ensures
            if found {
                r is Kill
            } else {
                r matches StopStep::Report(text) && text@ == stopped_text(
                    false,
                    self.backend,
                    self.session@,
                    self.requested@,
                )
            },
    {
        if found {
            StopStep::Kill
        } else {
            self.finished(false)
        }
    }

    /// What to do after the backend was asked to kill the session.
    pub fn finished(&self, killed: bool) -> (r: StopStep)
        ensures
            r matches StopStep::Report(text) && text@ == stopped_text(
                killed,
                self.backend,
                self.session@,
                self.requested@,
            ),
    {
        StopStep::Report(session_stopped(killed, self.backend, &self.session, &self.requested))
    }
}

/// A session and the properties of its pane.
#[derive(Debug, Clone, PartialEq, Eq)]
pub struct CliSessionInspectDetails {
    /// Record of the session.
    pub record: CliSessionRecord,
    /// Window id.
    pub window: String,
    /// Pane id.
    pub pane: String,
    /// Size of the pane.
    pub size: TerminalSize,
}

/// A row of the session details.
pub open spec fn detail_row(key: Seq<char>, value: Seq<char>) -> Seq<char> {
    "  "@ + padded(key, 12) + "  "@ + value + "\n"@
}

/// Columns and rows of a pane.
pub open spec fn size_text(size: (u16, u16)) -> Seq<char> {
    crate::text::decimal_text(size.0 as nat) + "x"@ + crate::text::decimal_text(size.1 as nat)
}

/// The session details, in three sections.
pub open spec fn details_text(details: CliSessionInspectDetails) -> Seq<char> {
    let record = details.record@;
    "Session:\n"@ + detail_row("id"@, record.id) + detail_row("backend"@, record.backend.text())
        + detail_row("display-name"@, record.display_name) + "\nProperties:\n"@ + detail_row(
        "window"@,
        details.window@,
    ) + detail_row("pane"@, details.pane@) + detail_row("size"@, size_text(details.size@))
        + "\nAttach:\n"@ + detail_row("terminal"@, attach_text(record)) + detail_row(
        "browser"@,
        browser_text(record),
    )
}

fn write_session_detail_row(output: &mut String, key: &str, value: &str)
    ensures
        final(output)@ == old(output)@ + detail_row(key@, value@),
{
    output.append("  ");
    push_padded(output, key, 12);
    output.append("  ");
    output.append(value);
    output.append("\n");
    proof {
        assert(output@ =~= old(output)@ + detail_row(key@, value@));
    }
}

/// Writes the session details.
pub fn write_session_inspect_details(output: &mut String, details: &CliSessionInspectDetails)
    ensures
        final(output)@ == old(output)@ + details_text(*details),
{
    let record = &details.record;
    output.append("Session:\n");
    write_session_detail_row(output, "id", record.id.as_str());
    write_session_detail_row(output, "backend", record.backend.as_str());
    write_session_detail_row(output, "display-name", record.display_name.as_str());
    output.append("\nProperties:\n");
    write_session_detail_row(output, "window", details.window.as_str());
    write_session_detail_row(output, "pane", details.pane.as_str());
    let mut size = crate::text::decimal(details.size.cols.get() as u64);
    size.append("x");
    size.append(crate::text::decimal(details.size.rows.get() as u64).as_str());
    write_session_detail_row(output, "size", size.as_str());
    output.append("\nAttach:\n");
    write_session_detail_row(output, "terminal", native_attach_command(record).as_str());
    write_session_detail_row(output, "browser", browser_attach_command(record).as_str());
    proof {
        assert(output@ =~= old(output)@ + details_text(*details));
    }
}

/// A created session bears the prefix `TerminalUse-`, in front of its name unless that bears
/// it already; a tmux session once bore `ts-` instead. What is then no session name is refused.
pub proof fn law_created_names_bear_the_prefix(name: Seq<char>)
    ensures
        crate::text::has_prefix(created_name(name), "TerminalUse-"@),
        created_name(name) == name || created_name(name) == "TerminalUse-"@ + name,
        crate::text::has_prefix(name, "TerminalUse-"@) ==> created_name(name) == name,
        crate::text::has_prefix(legacy_name(name), "ts-"@),
        legacy_name(name) == name || legacy_name(name) == "ts-"@ + name,
        crate::text::has_prefix(name, "ts-"@) ==> legacy_name(name) == name,
        prefixed_session(name, "TerminalUse-"@, NameError::PrefixedName) == (
        if !crate::protocol::valid_session_name(name) {
            Err::<Seq<char>, NameError>(NameError::Name)
        } else if crate::protocol::valid_session_name(created_name(name)) {
            Ok(created_name(name))
        } else {
            Err(NameError::PrefixedName)
        }),
{
    assert(("TerminalUse-"@ + name).take("TerminalUse-"@.len() as int) =~= "TerminalUse-"@);
    assert(("ts-"@ + name).take("ts-"@.len() as int) =~= "ts-"@);
}

/// A session is shown without the prefix that it was created with, the old one in tmux alone,
/// and any other session by its name.
pub proof fn law_sessions_are_shown_without_prefix(name: Seq<char>, backend: CliBackend)
    ensures
        display_name(backend, "TerminalUse-"@ + name) == name,
        display_name(CliBackend::Tmux, "ts-"@ + name) == name,
        display_name(CliBackend::Rmux, "ts-"@ + name) == "ts-"@ + name,
        !crate::text::has_prefix(name, "TerminalUse-"@) && !crate::text::has_prefix(name, "ts-"@)
            ==> display_name(backend, name) == name,
{
    reveal_strlit("TerminalUse-");
    reveal_strlit("ts-");
    let new = "TerminalUse-"@ + name;
    let old_one = "ts-"@ + name;
    assert(new.take(12) =~= "TerminalUse-"@);
    assert(new.skip(12) =~= name);
    assert(old_one.take(3) =~= "ts-"@);
    assert(old_one.skip(3) =~= name);
    if crate::text::has_prefix(old_one, "TerminalUse-"@) {
        assert(old_one.take(12)[0] == 't');
        assert("TerminalUse-"@[0] == 'T');
    }
}

/// A session is described by the backend that owns it, by its name there, and by the name it
/// is shown by.
pub proof fn law_records_describe_their_sessions(backend: CliBackend, session: Seq<char>)
    ensures
        record_of(backend, session).id == session,
        record_of(backend, session).backend_session == session,
        record_of(backend, session).backend == backend,
        record_of(backend, session).display_name == display_name(backend, session),
        backend is Tmux ==> backend.text() == "tmux"@,
        backend is Rmux ==> backend.text() == "rmux"@,
{
}

/// All sessions of the backends that were asked for are listed, those of tmux before those of
/// rmux. One backend that is asked for must answer; of both, one may be silent.
pub proof fn law_sessions_of_both_backends_are_listed(
    tmux: Vec<SessionName>,
    rmux: Vec<SessionName>,
    i: int,
)
    ensures
        ({
            let both = listed_records(None, Some(tmux), Some(rmux));
            &&& both matches Some(records)
            &&& records.len() == tmux@.len() + rmux@.len()
            &&& 0 <= i < tmux@.len() ==> records[i] == record_of(CliBackend::Tmux, tmux@[i]@)
            &&& 0 <= i < rmux@.len() ==> records[tmux@.len() + i] == record_of(
                CliBackend::Rmux,
                rmux@[i]@,
            )
        }),
        listed_records(Some(CliBackend::Tmux), Some(tmux), None) == listed_records(
            None,
            Some(tmux),
            None,
        ),
        listed_records(Some(CliBackend::Rmux), None, Some(rmux)) == listed_records(
            None,
            None,
            Some(rmux),
        ),
        listed_records(Some(CliBackend::Tmux), None, Some(rmux)) is None,
        listed_records(Some(CliBackend::Rmux), Some(tmux), None) is None,
        listed_records(None, None, None) == Some(Seq::<RecordView>::empty()),
{
    let a = records_of(CliBackend::Tmux, tmux@);
    let b = records_of(CliBackend::Rmux, rmux@);
    let none = Seq::<RecordView>::empty();
    assert(a + none =~= a);
    assert(none + b =~= b);
    assert(none + none =~= none);
}

/// A session is looked for under the name that was asked for, then under the name that
/// creation would give it, and in tmux then under the old one, where those are names at all.
pub proof fn law_created_session_is_found_by_its_name(backend: CliBackend, requested: Seq<char>)
    ensures
        ({
            let names = search_names(backend, requested);
            let created = created_name(requested);
            let legacy = legacy_name(requested);
            &&& crate::protocol::valid_session_name(created) ==> names.contains(created)
            &&& crate::protocol::valid_session_name(created)
                && crate::protocol::valid_session_name(legacy) && backend is Tmux ==> names.contains(
                legacy,
            )
            &&& names.len() >= 2 ==> names[1] == created || names[1] == legacy
            &&& names.len() >= 3 ==> names[1] == created && names[2] == legacy && backend is Tmux
            &&& names.len() <= 3
            &&& backend is Rmux && !crate::protocol::valid_session_name(created) ==> names.len() == 1
            &&& backend is Rmux ==> names.len() <= 2 && (names.len() == 2 ==> names[1] == created)
        }),
{
    let names = search_names(backend, requested);
    let created = created_name(requested);
    let legacy = legacy_name(requested);
    assert(names[0] == requested);
    if crate::protocol::valid_session_name(created) && created != requested {
        assert(names[1] == created);
    }
    if crate::protocol::valid_session_name(created) && crate::protocol::valid_session_name(legacy)
        && backend is Tmux && legacy != requested && legacy != created {
        assert(names.last() == legacy);
    }
}

/// Whoever asks for a session that is not there is told under which names it was looked for.
pub proof fn law_failed_search_tells_the_names(requested: Seq<char>)
    requires
        crate::protocol::valid_session_name(created_name(requested)),
        crate::protocol::valid_session_name(legacy_name(requested)),
    ensures
        search_failure(CliBackend::Rmux, requested) == "rmux session "@ + requested
            + " was not found; also tried "@ + created_name(requested),
        search_failure(CliBackend::Tmux, requested) == "tmux session "@ + requested
            + " was not found; also tried "@ + created_name(requested) + " and "@ + legacy_name(
            requested,
        ),
{
}

/// A search asks for each name in turn until one is there; that one is the session. It fails
/// where none is, and only there.
pub proof fn law_search_takes_the_first_that_exists(
    search: SessionSearch,
    answers: Seq<bool>,
    step: SearchStep,
    at: int,
)
    requires
        answers.len() <= search.names@.len(),
        search_step(search, answers, step),
    ensures
        0 <= at < answers.len() && answers[at] && (forall|k: int|
            0 <= k < at ==> !#[trigger] answers[k]) ==> (step matches SearchStep::Found(name)
            && name@ == search.names@[at]@),
        (forall|k: int| 0 <= k < answers.len() ==> !#[trigger] answers[k]) && answers.len()
            < search.names@.len() ==> (step matches SearchStep::Check(name) && name@
            == search.names@[answers.len() as int]@),
        (forall|k: int| 0 <= k < answers.len() ==> !#[trigger] answers[k]) && answers.len()
            == search.names@.len() ==> (step matches SearchStep::NotFound(failure) && failure@
            == search.failure@),
{
    if 0 <= at < answers.len() && answers[at] && (forall|k: int|
        0 <= k < at ==> !#[trigger] answers[k]) {
        lemma_first_yes(answers, at);
    }
    if forall|k: int| 0 <= k < answers.len() ==> !#[trigger] answers[k] {
        lemma_first_yes(answers, answers.len() as int);
    }
}

/// A session is found where exactly one backend has it, and belongs to that backend.
pub proof fn law_session_belongs_to_one_backend(
    requested: Seq<char>,
    tmux: Option<SessionName>,
    rmux: Option<SessionName>,
    r: Result<ResolvedCliSession, String>,
)
    requires
        resolved_as(requested, tmux, rmux, r),
    ensures
        r is Ok <==> tmux is Some != rmux is Some,
        r matches Ok(resolved) ==> {
            &&& resolved.owner() is Tmux <==> tmux is Some
            &&& resolved.session_text() == (if tmux is Some {
                tmux->0@
            } else {
                rmux->0@
            })
            &&& resolved.record_view().id == resolved.session_text()
            &&& resolved.record_view().backend == resolved.owner()
        },
        r matches Err(failure) ==> failure@ == "session "@ + requested + (if tmux is Some {
            " is ambiguous across backends; pass --backend tmux or --backend rmux"@
        } else {
            " was not found in tmux or rmux"@
        }),
{
}

/// A padded text is the text followed by blanks, as many as the width asks for; nothing is
/// cut off.
pub proof fn law_padding_is_blanks(text: Seq<char>, width: nat, i: int)
    ensures
        padded(text, width).len() == (if text.len() < width {
            width
        } else {
            text.len()
        }),
        padded(text, width).take(text.len() as int) == text,
        text.len() <= i < padded(text, width).len() ==> padded(text, width)[i] == ' ',
{
    assert(padded(text, width).take(text.len() as int) =~= text);
}

/// In the session list the columns of all sessions stand at the same place: an id and a
/// backend take the width of their columns.
pub proof fn law_columns_are_aligned(records: Seq<CliSessionRecord>, i: int)
    requires
        0 <= i < records.len(),
    ensures
        padded(records[i].id@, id_width(records)).len() == id_width(records),
        padded(records[i].backend.text(), backend_width(records)).len() == backend_width(records),
        padded("SESSION_ID"@, id_width(records)).len() == id_width(records),
        padded("BACKEND"@, backend_width(records)).len() == backend_width(records),
    decreases records.len(),
{
    lemma_widths_hold(records, i);
    crate::text::lemma_byte_len(records[i].id@);
    crate::text::lemma_byte_len(records[i].backend.text());
    crate::text::lemma_byte_len("SESSION_ID"@);
    crate::text::lemma_byte_len("BACKEND"@);
}

proof fn lemma_widths_hold(records: Seq<CliSessionRecord>, i: int)
    requires
        0 <= i < records.len(),
    ensures
        crate::text::byte_len(records[i].id@) <= id_width(records),
        crate::text::byte_len(records[i].backend.text()) <= backend_width(records),
        crate::text::byte_len("SESSION_ID"@) <= id_width(records),
        crate::text::byte_len("BACKEND"@) <= backend_width(records),
    decreases records.len(),
{
    reveal_with_fuel(id_width, 2);
    reveal_with_fuel(backend_width, 2);
    let rest = records.drop_last();
    if rest.len() > 0 {
        if i < rest.len() {
            lemma_widths_hold(rest, i);
            assert(rest[i] == records[i]);
        } else {
            lemma_widths_hold(rest, 0);
        }
    }
}

/// The columns of the session list are no wider than their longest entry.
pub proof fn law_columns_are_no_wider_than_needed(records: Seq<CliSessionRecord>)
    ensures
        id_width(records) == crate::text::byte_len("SESSION_ID"@) || exists|i: int|
            0 <= i < records.len() && id_width(records) == crate::text::byte_len(
                (#[trigger] records[i]).id@,
            ),
        backend_width(records) == crate::text::byte_len("BACKEND"@) || exists|i: int|
            0 <= i < records.len() && backend_width(records) == crate::text::byte_len(
                (#[trigger] records[i]).backend.text(),
            ),
    decreases records.len(),
{
    if records.len() > 0 {
        let rest = records.drop_last();
        law_columns_are_no_wider_than_needed(rest);
        assert(records[records.len() - 1] == records.last());
        assert(forall|i: int| 0 <= i < rest.len() ==> #[trigger] rest[i] == records[i]);
        if id_width(records) == id_width(rest) && id_width(rest) != crate::text::byte_len(
            "SESSION_ID"@,
        ) {
            let i = choose|i: int|
                0 <= i < rest.len() && id_width(rest) == crate::text::byte_len(
                    (#[trigger] rest[i]).id@,
                );
            assert(records[i] == rest[i]);
        }
        if backend_width(records) == backend_width(rest) && backend_width(rest)
            != crate::text::byte_len("BACKEND"@) {
            let i = choose|i: int|
                0 <= i < rest.len() && backend_width(rest) == crate::text::byte_len(
                    (#[trigger] rest[i]).backend.text(),
                );
            assert(records[i] == rest[i]);
        }
    }
}

/// The session list has a header and a line for each session, in order, with the id, the
/// backend and the name that the session is shown by.
pub proof fn law_list_has_a_line_for_each_session(
    records: Seq<CliSessionRecord>,
    record: CliSessionRecord,
    widths: (nat, nat),
)
    ensures
        list_rows(seq![], widths) == Seq::<char>::empty(),
        list_rows(records.push(record), widths) == list_rows(records, widths) + padded(
            record.id@,
            widths.0,
        ) + seq![' ', ' '] + padded(record.backend.text(), widths.1) + seq![' ', ' ']
            + record.display_name@ + seq!['\n'],
        list_text(records) == padded("SESSION_ID"@, id_width(records)) + seq![' ', ' '] + padded(
            "BACKEND"@,
            backend_width(records),
        ) + seq![' ', ' '] + "DISPLAY_NAME"@ + seq!['\n'] + list_rows(
            records,
            (id_width(records), backend_width(records)),
        ),
{
    reveal_strlit("  ");
    reveal_strlit("\n");
    assert("  "@ =~= seq![' ', ' ']);
    assert("\n"@ =~= seq!['\n']);
    let longer = records.push(record);
    assert(longer.drop_last() =~= records);
    assert(list_rows(longer, widths) =~= list_rows(records, widths) + padded(
        record.id@,
        widths.0,
    ) + seq![' ', ' '] + padded(record.backend.text(), widths.1) + seq![' ', ' ']
        + record.display_name@ + seq!['\n']);
}

/// The shown commands are the ones that do it: the backend, with the arguments that attach a
/// terminal, and this program, which attaches a browser to the session in its backend.
pub proof fn law_shown_commands_attach(record: RecordView)
    ensures
        attach_text(record) == crate::text::joined(
            seq![record.backend.text()] + attach_words(record.backend_session),
            seq![' '],
        ),
        attach_words(record.backend_session) == seq!["attach"@, "-t"@, record.backend_session],
        browser_text(record) == crate::text::joined(
            seq![
                "termstage"@,
                "session"@,
                "attach"@,
                record.id,
                "--backend"@,
                record.backend.text(),
                "--browser"@,
            ],
            seq![' '],
        ),
{
    let gap = seq![' '];
    let a = record.backend.text();
    let words = attach_words(record.backend_session);
    reveal_strlit(" attach -t ");
    reveal_strlit("attach");
    reveal_strlit("-t");
    assert(" attach -t "@ =~= gap + "attach"@ + gap + "-t"@ + gap);
    let two = seq![a, words[0]];
    let three = two.push(words[1]);
    let four = three.push(words[2]);
    crate::text::law_parts_are_joined(seq![a], a, gap);
    crate::text::law_parts_are_joined(seq![a], words[0], gap);
    crate::text::law_parts_are_joined(two, words[1], gap);
    crate::text::law_parts_are_joined(three, words[2], gap);
    assert(seq![a].push(words[0]) =~= two);
    assert(seq![a] + words =~= four);
    assert(attach_text(record) =~= crate::text::joined(four, gap));
    lemma_browser_words(record);
}

proof fn lemma_browser_words(record: RecordView)
    ensures
        browser_text(record) == crate::text::joined(
            seq![
                "termstage"@,
                "session"@,
                "attach"@,
                record.id,
                "--backend"@,
                record.backend.text(),
                "--browser"@,
            ],
            seq![' '],
        ),
{
    let gap = seq![' '];
    reveal_strlit("termstage session attach ");
    reveal_strlit("termstage");
    reveal_strlit("session");
    reveal_strlit("attach");
    reveal_strlit(" --backend ");
    reveal_strlit("--backend");
    reveal_strlit(" --browser");
    reveal_strlit("--browser");
    assert("termstage session attach "@ =~= "termstage"@ + gap + "session"@ + gap + "attach"@
        + gap);
    assert(" --backend "@ =~= gap + "--backend"@ + gap);
    assert(" --browser"@ =~= gap + "--browser"@);
    let w1 = seq!["termstage"@];
    let w2 = w1.push("session"@);
    let w3 = w2.push("attach"@);
    let w4 = w3.push(record.id);
    let w5 = w4.push("--backend"@);
    let w6 = w5.push(record.backend.text());
    let w7 = w6.push("--browser"@);
    crate::text::law_parts_are_joined(w1, "termstage"@, gap);
    crate::text::law_parts_are_joined(w1, "session"@, gap);
    crate::text::law_parts_are_joined(w2, "attach"@, gap);
    crate::text::law_parts_are_joined(w3, record.id, gap);
    crate::text::law_parts_are_joined(w4, "--backend"@, gap);
    crate::text::law_parts_are_joined(w5, record.backend.text(), gap);
    crate::text::law_parts_are_joined(w6, "--browser"@, gap);
    assert(w7 =~= seq![
        "termstage"@,
        "session"@,
        "attach"@,
        record.id,
        "--backend"@,
        record.backend.text(),
        "--browser"@,
    ]);
    assert(browser_text(record) =~= crate::text::joined(w7, gap));
}

/// What is said of a stopped session names it and the name that was asked for, and tells
/// whether it was killed or was gone already.
pub proof fn law_stopped_session_is_named(
    backend: CliBackend,
    session: Seq<char>,
    requested: Seq<char>,
)
    ensures
        stopped_text(true, backend, session, requested) == "killed "@ + backend.text()
            + " session "@ + session + " for requested session "@ + requested + "\n"@,
        stopped_text(false, backend, session, requested) == "requested session "@ + requested
            + " resolved to "@ + session + "; backend session was already gone\n"@,
{
}

/// The size of a pane is shown as columns, an `x`, and rows.
pub proof fn law_size_is_shown_columns_first(cols: u16, rows: u16)
    ensures
        crate::text::pieces(size_text((cols, rows)), 'x').len() == 2,
        crate::text::number(crate::text::pieces(size_text((cols, rows)), 'x')[0], 10, 65535)
            == Some(cols as nat),
        crate::text::number(crate::text::pieces(size_text((cols, rows)), 'x')[1], 10, 65535)
            == Some(rows as nat),
{
    let a = crate::text::decimal_text(cols as nat);
    let b = crate::text::decimal_text(rows as nat);
    reveal_strlit("x");
    assert("x"@ =~= seq!['x']);
    lemma_decimal_has_no_letter(cols as nat);
    lemma_decimal_has_no_letter(rows as nat);
    crate::text::law_pieces_are_cut_at_each_mark(a, b, 'x');
    crate::text::law_pieces_are_cut_at_each_mark(b, seq![], 'x');
    assert(size_text((cols, rows)) =~= a + seq!['x'] + b);
    assert(seq![a] + seq![b] =~= seq![a, b]);
    crate::text::law_decimal_round_trip(cols as nat, 65535);
    crate::text::law_decimal_round_trip(rows as nat, 65535);
}

proof fn lemma_decimal_has_no_letter(n: nat)
    ensures
        !crate::text::decimal_text(n).contains('x'),
{
    let s = crate::text::decimal_text(n);
    if s.contains('x') {
        crate::text::law_decimal_is_short(n, s.index_of('x'));
    }
}

/// What is said of a created session are lines: its id, backend, shown name and name in the
/// backend, and the commands that attach a terminal and a browser.
pub proof fn law_created_session_is_described(record: RecordView)
    ensures
        created_text(record) == crate::text::joined(
            seq![
                "id: "@ + record.backend_session,
                "backend: "@ + record.backend.text(),
                "display-name: "@ + record.display_name,
                "backend-session: "@ + record.backend_session,
                "attach: "@ + attach_text(record),
                "browser: "@ + browser_text(record),
            ],
            seq!['\n'],
        ) + seq!['\n'],
{
    let end = seq!['\n'];
    reveal_strlit("\nbackend: ");
    reveal_strlit("backend: ");
    reveal_strlit("\ndisplay-name: ");
    reveal_strlit("display-name: ");
    reveal_strlit("\nbackend-session: ");
    reveal_strlit("backend-session: ");
    reveal_strlit("\nattach: ");
    reveal_strlit("attach: ");
    reveal_strlit("\nbrowser: ");
    reveal_strlit("browser: ");
    reveal_strlit("\n");
    assert("\nbackend: "@ =~= end + "backend: "@);
    assert("\ndisplay-name: "@ =~= end + "display-name: "@);
    assert("\nbackend-session: "@ =~= end + "backend-session: "@);
    assert("\nattach: "@ =~= end + "attach: "@);
    assert("\nbrowser: "@ =~= end + "browser: "@);
    assert("\n"@ =~= end);
    let a = "id: "@ + record.backend_session;
    let b = "backend: "@ + record.backend.text();
    let c = "display-name: "@ + record.display_name;
    let d = "backend-session: "@ + record.backend_session;
    let e = "attach: "@ + attach_text(record);
    let f = "browser: "@ + browser_text(record);
    let l1 = seq![a];
    let l2 = l1.push(b);
    let l3 = l2.push(c);
    let l4 = l3.push(d);
    let l5 = l4.push(e);
    crate::text::law_parts_are_joined(l1, a, end);
    crate::text::law_parts_are_joined(l1, b, end);
    crate::text::law_parts_are_joined(l2, c, end);
    crate::text::law_parts_are_joined(l3, d, end);
    crate::text::law_parts_are_joined(l4, e, end);
    crate::text::law_parts_are_joined(l5, f, end);
    assert(l5.push(f) =~= seq![a, b, c, d, e, f]);
    assert(created_text(record) =~= a + end + b + end + c + end + d + end + e + end + f + end);
}

/// The details of a session are three sections of rows: what it is, its pane, and the commands
/// that attach to it. A row gives a value behind its name, which is padded.
pub proof fn law_details_tell_everything(details: CliSessionInspectDetails, key: Seq<char>)
    requires
        key.len() <= 12,
    ensures
        ({
            let record = details.record@;
            details_text(details) == "Session:\n"@ + (detail_row("id"@, record.id) + detail_row(
                "backend"@,
                record.backend.text(),
            ) + detail_row("display-name"@, record.display_name)) + "\nProperties:\n"@ + (
            detail_row("window"@, details.window@) + detail_row("pane"@, details.pane@)
                + detail_row("size"@, size_text(details.size@))) + "\nAttach:\n"@ + (detail_row(
                "terminal"@,
                attach_text(record),
            ) + detail_row("browser"@, browser_text(record)))
        }),
        detail_row(key, details.window@).len() == 17 + details.window@.len(),
        detail_row(key, details.window@).subrange(2, 2 + key.len() as int) == key,
        detail_row(key, details.window@).subrange(16, 16 + details.window@.len() as int)
            == details.window@,
        detail_row(key, details.window@).last() == '\n',
{
    let record = details.record@;
    reveal_strlit("  ");
    reveal_strlit("\n");
    let row = detail_row(key, details.window@);
    assert(row.subrange(2, 2 + key.len() as int) =~= key);
    assert(row.subrange(16, 16 + details.window@.len() as int) =~= details.window@);
    assert(details_text(details) =~= "Session:\n"@ + (detail_row("id"@, record.id) + detail_row(
        "backend"@,
        record.backend.text(),
    ) + detail_row("display-name"@, record.display_name)) + "\nProperties:\n"@ + (detail_row(
        "window"@,
        details.window@,
    ) + detail_row("pane"@, details.pane@) + detail_row("size"@, size_text(details.size@)))
        + "\nAttach:\n"@ + (detail_row("terminal"@, attach_text(record)) + detail_row(
        "browser"@,
        browser_text(record),
    )));
}

/// A name that is wrong is told apart from one that is wrong behind its prefix.
pub proof fn law_name_failures_have_their_words(error: NameError)
    ensures
        error is Name ==> error.text() == "invalid session name"@,
        error is PrefixedName ==> error.text() == "invalid prefixed session name"@,
        error is LegacyName ==> error.text() == "invalid legacy prefixed tmux session name"@,
{
}

} // verus!
