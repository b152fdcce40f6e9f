//! Session registry for backend-owned terminal sessions.

use vstd::prelude::*;

use crate::backend::{BackendSessionRef, SessionRefView};
use crate::name_map::NameMap;
use crate::protocol::SessionName;

verus! {

/// Registered session.
#[derive(Debug, PartialEq, Eq)]
pub struct SessionRecord {
    termstage_session: SessionName,
    backend: BackendSessionRef,
}

impl View for SessionRecord {
    type V = (Seq<char>, SessionRefView);

    closed spec fn view(&self) -> (Seq<char>, SessionRefView) {
        (self.termstage_session@, self.backend@)
    }
}

impl SessionRecord {
    /// Creates a session registry record.
    #[must_use]
    pub fn new(termstage_session: SessionName, backend: BackendSessionRef) -> (r: Self)
        ensures
            r@ == (termstage_session@, backend@),
    {
        SessionRecord { termstage_session, backend }
    }

    /// Returns the registered session id.
    #[must_use]
    pub fn termstage_session(&self) -> (r: &SessionName)
        ensures
            r@ == self@.0,
    {
        &self.termstage_session
    }

    /// Returns the backend session reference.
    #[must_use]
    pub fn backend(&self) -> (r: &BackendSessionRef)
        ensures
            r@ == self@.1,
    {
        &self.backend
    }
}

impl Clone for SessionRecord {
    fn clone(&self) -> (r: Self)
        ensures
            r == *self,
    {
        SessionRecord {
            termstage_session: self.termstage_session.clone(),
            backend: self.backend.clone(),
        }
    }
}

/// Session registry failure.
#[derive(Debug, PartialEq, Eq)]
pub enum SessionRegistryError {
    /// The session is already registered.
    AlreadyRegistered {
        /// Session id.
        session: SessionName,
    },
    /// The session is not registered.
    NotRegistered {
        /// Session id.
        session: SessionName,
    },
}

impl SessionRegistryError {
    /// The text that describes the failure.
    pub open spec fn text(self) -> Seq<char> {
        match self {
            SessionRegistryError::AlreadyRegistered {
                ..
            } => "termstage session is already registered"@,
            SessionRegistryError::NotRegistered { .. } => "termstage session is not registered"@,
        }
    }

    /// Describes the failure.
    pub fn message(&self) -> (r: &'static str)
        ensures
            r@ == self.text(),
    {
        match self {
            SessionRegistryError::AlreadyRegistered {
                ..
            } => "termstage session is already registered",
            SessionRegistryError::NotRegistered { .. } => "termstage session is not registered",
        }
    }

    /// Tells whether the error says that `session` is registered.
    pub open spec fn already(self, session: Seq<char>) -> bool {
        self matches SessionRegistryError::AlreadyRegistered { session: name } && name@ == session
    }

    /// Tells whether the error says that `session` is not registered.
    pub open spec fn missing(self, session: Seq<char>) -> bool {
        self matches SessionRegistryError::NotRegistered { session: name } && name@ == session
    }
}

/// The registered sessions, by session name.
pub type Registered = Map<Seq<char>, SessionRefView>;

/// Registry from session ids to backend references.
pub struct SessionRegistry {
    records: NameMap<SessionRecord>,
}

impl View for SessionRegistry {
    type V = Registered;

    closed spec fn view(&self) -> Registered {
        self.records@.map_values(|record: SessionRecord| record@.1)
    }
}

impl SessionRegistry {
    /// Each record is held under its own session id.
    #[verifier::type_invariant]
    closed spec fn valid(&self) -> bool {
        forall|name: Seq<char>|
            self.records@.dom().contains(name) ==> (#[trigger] self.records@[name])@.0 == name
    }

    /// Creates an empty session registry.
    #[must_use]
    pub fn new() -> (r: Self)
        ensures
            r@ == Registered::empty(),
    {
        let r = SessionRegistry { records: NameMap::new() };
        assert(r@ =~= Registered::empty());
        r
    }

    /// Registers a session under an id that is not taken.
    pub fn register(&mut self, record: SessionRecord) -> (r: Result<(), SessionRegistryError>)
        ensures
            match r {
                Ok(_) => {
                    &&& !old(self)@.dom().contains(record@.0)
                    &&& final(self)@ == old(self)@.insert(record@.0, record@.1)
                },
                Err(error) => {
                    &&& old(self)@.dom().contains(record@.0)
                    &&& error.already(record@.0)
                    &&& final(self)@ == old(self)@
                },
            },
    {
        let key = record.termstage_session.clone();
        if self.records.get(&key).is_some() {
            return Err(SessionRegistryError::AlreadyRegistered { session: key });
        }
        proof {
            use_type_invariant(&*self);
        }
        let mut records: NameMap<SessionRecord> = NameMap::new();
        std::mem::swap(&mut records, &mut self.records);
        records.insert(key, record);
        self.records = records;
        proof {
            assert(self@ =~= old(self)@.insert(record@.0, record@.1));
        }
        Ok(())
    }

    /// Looks up a registered session.
    pub fn get(&self, session: &SessionName) -> (r: Result<&SessionRecord, SessionRegistryError>)
        ensures
            match r {
                Ok(record) => {
                    &&& self@.dom().contains(session@)
                    &&& record@ == (session@, self@[session@])
                },
                Err(error) => !self@.dom().contains(session@) && error.missing(session@),
            },
    {
        proof {
            use_type_invariant(self);
        }
        match self.records.get(session) {
            Some(record) => Ok(record),
            None => Err(SessionRegistryError::NotRegistered { session: session.clone() }),
        }
    }

    /// Removes a registered session.
    pub fn remove(&mut self, session: &SessionName) -> (r: Result<
        SessionRecord,
        SessionRegistryError,
    >)
        ensures
            final(self)@ == old(self)@.remove(session@),
            match r {
                Ok(record) => {
                    &&& old(self)@.dom().contains(session@)
                    &&& record@ == (session@, old(self)@[session@])
                },
                Err(error) => !old(self)@.dom().contains(session@) && error.missing(session@),
            },
    {
        proof {
            use_type_invariant(&*self);
        }
        let mut records: NameMap<SessionRecord> = NameMap::new();
        std::mem::swap(&mut records, &mut self.records);
        let removed = records.remove(session);
        self.records = records;
        proof {
            assert(self@ =~= old(self)@.remove(session@));
        }
        match removed {
            Some(record) => Ok(record),
            None => Err(SessionRegistryError::NotRegistered { session: session.clone() }),
        }
    }

    /// Returns the number of registered sessions.
    #[must_use]
    pub fn len(&self) -> (r: usize)
        ensures
            r == self@.dom().len(),
            self@.dom().finite(),
    {
        proof {
            assert(self@.dom() =~= self.records@.dom());
        }
        self.records.len()
    }

    /// Returns whether the registry is empty.
    #[must_use]
    pub fn is_empty(&self) -> (r: bool)
        ensures
            r == (self@ == Registered::empty()),
    {
        let n = self.len();
        proof {
            if n == 0 {
                assert(self@.dom() =~= Set::empty());
                assert(self@ =~= Registered::empty());
            }
        }
        n == 0
    }
}

impl Default for SessionRegistry {
    fn default() -> (r: Self)
        ensures
            r@ == Registered::empty(),
    {
        SessionRegistry::new()
    }
}

/// A session is found under its id from when it is registered until it is
/// removed; other sessions are found as before.
pub proof fn law_registered_until_removed(
    before: Registered,
    session: Seq<char>,
    target: SessionRefView,
    other: Seq<char>,
)
    requires
        other != session,
    ensures
        before.insert(session, target).dom().contains(session),
        before.insert(session, target)[session] == target,
        !before.remove(session).dom().contains(session),
        before.insert(session, target).dom().contains(other) == before.dom().contains(other),
        before.remove(session).dom().contains(other) == before.dom().contains(other),
        before.dom().contains(other) ==> before.insert(session, target)[other] == before[other]
            && before.remove(session)[other] == before[other],
        !before.dom().contains(session) ==> before.insert(session, target).remove(session)
            == before,
{
    if !before.dom().contains(session) {
        assert(before.insert(session, target).remove(session) =~= before);
    }
}

/// A session that is registered already is told apart from one that is not.
pub proof fn law_registry_failures_have_their_words(error: SessionRegistryError)
    ensures
        error is AlreadyRegistered ==> error.text() == "termstage session is already registered"@,
        error is NotRegistered ==> error.text() == "termstage session is not registered"@,
{
}

} // verus!
