//! Operation lock for terminal controllers.
//!
//! This lock is enforced before input bytes or semantic operations are
//! forwarded to a backend pane.

use vstd::prelude::*;

use crate::clock::{Duration, Instant};
use crate::name_map::NameMap;
use crate::protocol::SessionName;

verus! {

/// Identifier for a connected controller.
#[derive(Debug, Clone, Copy, PartialEq, Eq, Hash, Structural)]
pub struct ControllerId(u64);

impl View for ControllerId {
    type V = u64;

    closed spec fn view(&self) -> u64 {
        self.0
    }
}

impl ControllerId {
    /// A controller id is not zero.
    #[verifier::type_invariant]
    pub open spec fn valid(&self) -> bool {
        self@ != 0
    }

    /// Creates a non-zero controller id.
    pub fn new(value: u64) -> (r: Result<Self, OperationLockError>)
        ensures
            match r {
                Ok(id) => value != 0 && id@ == value,
                Err(error) => value == 0 && error is InvalidControllerId,
            },
    {
        if value == 0 {
            Err(OperationLockError::InvalidControllerId)
        } else {
            Ok(ControllerId(value))
        }
    }

    /// Returns the controller id.
    #[must_use]
    pub fn get(self) -> (r: u64)
        ensures
            r == self@,
            r != 0,
    {
        proof {
            use_type_invariant(&self);
        }
        self.0
    }
}

/// Controller surface kind.
#[derive(Debug, Clone, Copy, PartialEq, Eq, Hash, Structural)]
pub enum ControllerKind {
    /// Browser terminal controller.
    Browser,
    /// Semantic operations controller.
    Agent,
    /// Transport controller.
    Transport,
}

/// Unique controller reference.
#[derive(Debug, Clone, Copy, PartialEq, Eq, Hash, Structural)]
pub struct ControllerRef {
    kind: ControllerKind,
    id: ControllerId,
}

impl View for ControllerRef {
    type V = (ControllerKind, ControllerId);

    closed spec fn view(&self) -> (ControllerKind, ControllerId) {
        (self.kind, self.id)
    }
}

impl ControllerRef {
    /// Creates a controller reference.
    #[must_use]
    pub fn new(kind: ControllerKind, id: ControllerId) -> (r: Self)
        ensures
            r@ == (kind, id),
    {
        ControllerRef { kind, id }
    }

    /// Returns the controller kind.
    #[must_use]
    pub fn kind(self) -> (r: ControllerKind)
        ensures
            r == self@.0,
    {
        self.kind
    }

    /// Returns the controller id.
    #[must_use]
    pub fn id(self) -> (r: ControllerId)
        ensures
            r == self@.1,
    {
        self.id
    }
}

/// The contents of an [`OperationLease`].
pub struct LeaseView {
    /// Controller that holds the lease.
    pub owner: ControllerRef,
    /// Session-local number of the lease.
    pub epoch: u64,
    /// When the lease expires.
    pub expires_at: nat,
}

impl LeaseView {
    /// Tells whether the lease is over at `now`.
    pub open spec fn expired_at(self, now: nat) -> bool {
        self.expires_at <= now
    }
}

/// Granted operation lease.
#[derive(Debug, Clone, Copy, PartialEq, Eq, Structural)]
pub struct OperationLease {
    owner: ControllerRef,
    epoch: u64,
    expires_at: Instant,
}

impl View for OperationLease {
    type V = LeaseView;

    closed spec fn view(&self) -> LeaseView {
        LeaseView { owner: self.owner, epoch: self.epoch, expires_at: self.expires_at@ }
    }
}

impl OperationLease {
    /// Creates a granted lease.
    #[must_use]
    pub fn new(owner: ControllerRef, epoch: u64, expires_at: Instant) -> (r: Self)
        ensures
            r@ == (LeaseView { owner, epoch, expires_at: expires_at@ }),
    {
        OperationLease { owner, epoch, expires_at }
    }

    /// Returns the lease owner.
    #[must_use]
    pub fn owner(self) -> (r: ControllerRef)
        ensures
            r == self@.owner,
    {
        self.owner
    }

    /// Returns the session-local lease epoch, which increases with every lease that
    /// is granted for a session.
    #[must_use]
    pub fn epoch(self) -> (r: u64)
        ensures
            r == self@.epoch,
    {
        self.epoch
    }

    /// Returns the instant when the lease expires.
    #[must_use]
    pub fn expires_at(self) -> (r: Instant)
        ensures
            r@ == self@.expires_at,
    {
        self.expires_at
    }

    /// Returns whether the lease is expired at `now`.
    #[must_use]
    pub fn is_expired_at(self, now: Instant) -> (r: bool)
        ensures
            r == self@.expired_at(now@),
    {
        self.expires_at.at_or_before(now)
    }
}

/// Operation lock failure.
#[derive(Debug, Clone, PartialEq, Eq)]
#[allow(inconsistent_fields)]
pub enum OperationLockError {
    /// Controller ids must be non-zero.
    InvalidControllerId,
    /// Lease TTL must be greater than zero.
    InvalidLeaseTtl,
    /// Lease expiration overflowed.
    LeaseExpirationOverflow,
    /// Another controller owns the session.
    LeaseConflict {
        /// Session id.
        session: SessionName,
        /// Current owner.
        owner: ControllerRef,
    },
    /// The requested controller does not own the session.
    NotLeaseOwner {
        /// Session id.
        session: SessionName,
        /// Current owner, if the session has one.
        owner: Option<ControllerRef>,
    },
}

impl OperationLockError {
    /// The text that describes the failure.
    pub open spec fn text(self) -> Seq<char> {
        match self {
            OperationLockError::InvalidControllerId => "controller id must be non-zero"@,
            OperationLockError::InvalidLeaseTtl => "operation lease ttl must be greater than zero"@,
            OperationLockError::LeaseExpirationOverflow => "operation lease expiration overflowed"@,
            OperationLockError::LeaseConflict {
                ..
            } => "operation lease is owned by another controller"@,
            OperationLockError::NotLeaseOwner {
                ..
            } => "controller does not own the operation lease"@,
        }
    }

    /// Describes the failure.
    pub fn message(&self) -> (r: &'static str)
        ensures
            r@ == self.text(),
    {
        match self {
            OperationLockError::InvalidControllerId => "controller id must be non-zero",
            OperationLockError::InvalidLeaseTtl => "operation lease ttl must be greater than zero",
            OperationLockError::LeaseExpirationOverflow => "operation lease expiration overflowed",
            OperationLockError::LeaseConflict {
                ..
            } => "operation lease is owned by another controller",
            OperationLockError::NotLeaseOwner {
                ..
            } => "controller does not own the operation lease",
        }
    }
}

/// The leases of all sessions, by session name.
pub type Leases = Map<Seq<char>, LeaseView>;

/// The numbers of the next leases, by session name. A session without one starts
/// with zero.
pub type Epochs = Map<Seq<char>, u64>;

/// The state of an [`OperationLockTable`].
#[verifier::ext_equal]
pub struct LockView {
    /// Leases.
    pub leases: Leases,
    /// Numbers of the next leases.
    pub epochs: Epochs,
}

impl LockView {
    /// No session has or had a lease.
    pub open spec fn empty() -> LockView {
        LockView { leases: Leases::empty(), epochs: Epochs::empty() }
    }

    /// Tells whether the next lease of each session that has one is numbered by one more
    /// than that one, up to the largest number.
    pub open spec fn numbered(self) -> bool {
        forall|session: Seq<char>| #[trigger]
            self.leases.dom().contains(session) ==> self.epochs.dom().contains(session)
                && self.epochs[session] == epoch_after(self.leases[session].epoch)
    }

    /// After the lease of `session` was looked at: it is dropped where it has expired.
    pub open spec fn looked(self, session: Seq<char>, now: nat) -> LockView {
        LockView { leases: dropped_if_expired(self.leases, session, now), ..self }
    }

    /// After `lease` was granted for `session`.
    pub open spec fn granted(self, session: Seq<char>, lease: LeaseView) -> LockView {
        LockView {
            leases: self.leases.insert(session, lease),
            epochs: advanced(self.epochs, session),
        }
    }

    /// After the lease of `session` was given back.
    pub open spec fn released(self, session: Seq<char>) -> LockView {
        LockView { leases: self.leases.remove(session), ..self }
    }

    /// After `session` was forgotten.
    pub open spec fn forgotten(self, session: Seq<char>) -> LockView {
        LockView { leases: self.leases.remove(session), epochs: self.epochs.remove(session) }
    }
}

/// Tells whether `leases` has a lease for `session` that is not over at `now`.
pub open spec fn leased(leases: Leases, session: Seq<char>, now: nat) -> bool {
    leases.dom().contains(session) && !leases[session].expired_at(now)
}

/// `leases` without an expired lease for `session`.
pub open spec fn dropped_if_expired(leases: Leases, session: Seq<char>, now: nat) -> Leases {
    if leased(leases, session, now) {
        leases
    } else {
        leases.remove(session)
    }
}

/// The number that follows a lease numbered `epoch`.
pub open spec fn epoch_after(epoch: u64) -> u64 {
    if epoch == u64::MAX {
        u64::MAX
    } else {
        (epoch + 1) as u64
    }
}

/// The number of the next lease for `session`.
pub open spec fn next_epoch(epochs: Epochs, session: Seq<char>) -> u64 {
    if epochs.dom().contains(session) {
        epochs[session]
    } else {
        0
    }
}

/// `epochs` after a lease was granted for `session`.
pub open spec fn advanced(epochs: Epochs, session: Seq<char>) -> Epochs {
    epochs.insert(session, epoch_after(next_epoch(epochs, session)))
}

/// Outcome of a request for a lease.
pub open spec fn acquired(
    before: LockView,
    session: Seq<char>,
    controller: ControllerRef,
    now: nat,
    ttl: nat,
    r: Result<OperationLease, OperationLockError>,
    after: LockView,
) -> bool {
    let fits = now + ttl <= crate::clock::INSTANT_MAX_NANOS;
    let conflict = leased(before.leases, session, now) && before.leases[session].owner
        != controller;
    match r {
        Ok(lease) => {
            &&& ttl > 0 && fits && !conflict
            &&& lease@ == (LeaseView {
                owner: controller,
                epoch: next_epoch(before.epochs, session),
                expires_at: now + ttl,
            })
            &&& after == before.granted(session, lease@)
        },
        Err(error) => {
            &&& after == before
            &&& match error {
                OperationLockError::InvalidLeaseTtl => ttl == 0,
                OperationLockError::LeaseExpirationOverflow => ttl > 0 && !fits,
                OperationLockError::LeaseConflict { session: name, owner } => {
                    &&& ttl > 0 && fits && conflict
                    &&& name@ == session
                    &&& owner == before.leases[session].owner
                },
                _ => false,
            }
        },
    }
}

/// The refusal of a controller that does not own the lease.
pub open spec fn not_owner(
    leases: Leases,
    session: Seq<char>,
    controller: ControllerRef,
    now: nat,
    error: OperationLockError,
) -> bool {
    error matches OperationLockError::NotLeaseOwner { session: name, owner } && {
        &&& name@ == session
        &&& if leased(leases, session, now) {
            leases[session].owner != controller && owner == Some(leases[session].owner)
        } else {
            owner is None
        }
    }
}

/// Table of session operation locks.
pub struct OperationLockTable {
    entries: NameMap<OperationLease>,
    next_epochs: NameMap<u64>,
}

impl View for OperationLockTable {
    type V = LockView;

    closed spec fn view(&self) -> LockView {
        LockView {
            leases: self.entries@.map_values(|lease: OperationLease| lease@),
            epochs: self.next_epochs@,
        }
    }
}

impl OperationLockTable {
    /// The leases and the numbers of the next ones belong together.
    #[verifier::type_invariant]
    spec fn valid(&self) -> bool {
        self@.numbered()
    }

    /// Creates an empty operation lock table.
    #[must_use]
    pub fn new() -> (r: Self)
        ensures
            r@ == LockView::empty(),
    {
        let r = OperationLockTable { entries: NameMap::new(), next_epochs: NameMap::new() };
        proof {
            assert(r@ =~= LockView::empty());
        }
        r
    }

    /// Acquires or renews a session operation lease.
    ///
    /// Refused while another controller owns a lease that has not expired. Each
    /// lease of a session has a greater epoch than those before it, up to the
    /// largest, until the session is removed; a lease that is renewed or taken over
    /// goes up by one.
    pub fn acquire(
        &mut self,
        session: &SessionName,
        controller: ControllerRef,
        now: Instant,
        ttl: Duration,
    ) -> (r: Result<OperationLease, OperationLockError>)
        ensures
            acquired(old(self)@, session@, controller, now@, ttl@, r, final(self)@),
            old(self)@.numbered(),
            final(self)@.numbered(),
    {
        proof {
            use_type_invariant(&*self);
        }
        if ttl.is_zero() {
            return Err(OperationLockError::InvalidLeaseTtl);
        }
        let expires_at = match now.checked_add(ttl) {
            Some(expires_at) => expires_at,
            None => return Err(OperationLockError::LeaseExpirationOverflow),
        };
        match self.entries.get(session) {
            Some(entry) => {
                if !entry.is_expired_at(now) && entry.owner() != controller {
                    return Err(
                        OperationLockError::LeaseConflict {
                            session: session.clone(),
                            owner: entry.owner(),
                        },
                    );
                }
            },
            None => {},
        }
        let epoch: u64 = match self.next_epochs.get(session) {
            Some(epoch) => *epoch,
            None => 0,
        };
        let lease = OperationLease::new(controller, epoch, expires_at);
        let mut entries = NameMap::new();
        let mut next_epochs = NameMap::new();
        std::mem::swap(&mut entries, &mut self.entries);
        std::mem::swap(&mut next_epochs, &mut self.next_epochs);
        entries.insert(session.clone(), lease);
        next_epochs.insert(session.clone(), epoch.saturating_add(1));
        self.next_epochs = next_epochs;
        proof {
            let after = OperationLockTable { entries, next_epochs: self.next_epochs };
            assert(after@ =~= old(self)@.granted(session@, lease@));
        }
        self.entries = entries;
        Ok(lease)
    }

    /// Validates that `controller` currently owns the session lease.
    ///
    /// An expired lease is dropped.
    pub fn validate_owner(
        &mut self,
        session: &SessionName,
        controller: ControllerRef,
        now: Instant,
    ) -> (r: Result<OperationLease, OperationLockError>)
        ensures
            final(self)@ == old(self)@.looked(session@, now@),
            match r {
                Ok(lease) => {
                    &&& leased(old(self)@.leases, session@, now@)
                    &&& lease@ == old(self)@.leases[session@]
                    &&& lease@.owner == controller
                },
                Err(error) => not_owner(old(self)@.leases, session@, controller, now@, error),
            },
    {
        match self.current(session, now) {
            Some(lease) => {
                if lease.owner() != controller {
                    Err(
                        OperationLockError::NotLeaseOwner {
                            session: session.clone(),
                            owner: Some(lease.owner()),
                        },
                    )
                } else {
                    Ok(lease)
                }
            },
            None => Err(
                OperationLockError::NotLeaseOwner { session: session.clone(), owner: None },
            ),
        }
    }

    /// Releases a lease owned by `controller`.
    pub fn release(
        &mut self,
        session: &SessionName,
        controller: ControllerRef,
        now: Instant,
    ) -> (r: Result<OperationLease, OperationLockError>)
        ensures
            match r {
                Ok(lease) => {
                    &&& leased(old(self)@.leases, session@, now@)
                    &&& lease@ == old(self)@.leases[session@]
                    &&& lease@.owner == controller
                    &&& final(self)@ == old(self)@.released(session@)
                },
                Err(error) => {
                    &&& not_owner(old(self)@.leases, session@, controller, now@, error)
                    &&& final(self)@ == old(self)@.looked(session@, now@)
                },
            },
    {
        match self.validate_owner(session, controller, now) {
            Ok(lease) => {
                self.drop_lease(session);
                Ok(lease)
            },
            Err(error) => Err(error),
        }
    }

    fn drop_lease(&mut self, session: &SessionName)
        ensures
            final(self)@ == old(self)@.released(session@),
    {
        proof {
            use_type_invariant(&*self);
        }
        let mut entries = NameMap::new();
        std::mem::swap(&mut entries, &mut self.entries);
        let _ = entries.remove(session);
        proof {
            let after = OperationLockTable { entries, next_epochs: self.next_epochs };
            assert(after@ =~= old(self)@.released(session@));
        }
        self.entries = entries;
    }

    /// Removes any tracked lease state for a session.
    pub fn remove_session(&mut self, session: &SessionName)
        ensures
            final(self)@ == old(self)@.forgotten(session@),
    {
        proof {
            use_type_invariant(&*self);
        }
        let mut entries = NameMap::new();
        let mut next_epochs = NameMap::new();
        std::mem::swap(&mut entries, &mut self.entries);
        std::mem::swap(&mut next_epochs, &mut self.next_epochs);
        let _ = entries.remove(session);
        let _ = next_epochs.remove(session);
        self.next_epochs = next_epochs;
        proof {
            let after = OperationLockTable { entries, next_epochs: self.next_epochs };
            assert(after@ =~= old(self)@.forgotten(session@));
        }
        self.entries = entries;
    }

    /// Returns the current non-expired lease for a session.
    ///
    /// An expired lease is dropped.
    #[must_use]
    pub fn current(&mut self, session: &SessionName, now: Instant) -> (r: Option<OperationLease>)
        ensures
            final(self)@ == old(self)@.looked(session@, now@),
            match r {
                Some(lease) => leased(old(self)@.leases, session@, now@) && lease@
                    == old(self)@.leases[session@],
                None => !leased(old(self)@.leases, session@, now@),
            },
    {
        let found = match self.entries.get(session) {
            Some(entry) => Some(*entry),
            None => None,
        };
        match found {
            Some(lease) => {
                if lease.is_expired_at(now) {
                    self.drop_lease(session);
                    None
                } else {
                    Some(lease)
                }
            },
            None => {
                proof {
                    assert(self@.leases =~= self@.leases.remove(session@));
                }
                None
            },
        }
    }

    /// Returns the number of tracked session locks.
    #[must_use]
    pub fn len(&self) -> (r: usize)
        ensures
            r == self@.leases.dom().len(),
            self@.leases.dom().finite(),
            self@.numbered(),
    {
        proof {
            use_type_invariant(self);
            assert(self@.leases.dom() =~= self.entries@.dom());
        }
        self.entries.len()
    }

    /// Returns whether the lock table is empty.
    #[must_use]
    pub fn is_empty(&self) -> (r: bool)
        ensures
            r == (self@.leases == Leases::empty()),
    {
        let n = self.len();
        proof {
            if n == 0 {
                assert(self@.leases.dom() =~= Set::empty());
                assert(self@.leases =~= Leases::empty());
            }
        }
        n == 0
    }
}

impl Default for OperationLockTable {
    fn default() -> (r: Self)
        ensures
            r@ == LockView::empty(),
    {
        OperationLockTable::new()
    }
}

/// Until a lease is over, its owner has it and nobody else gets one for that
/// session.
pub proof fn law_lease_excludes_others(
    before: LockView,
    session: Seq<char>,
    controller: ControllerRef,
    now: nat,
    ttl: nat,
    lease: OperationLease,
    after: LockView,
    later: nat,
)
    requires
        acquired(before, session, controller, now, ttl, Ok(lease), after),
        later < now + ttl,
    ensures
        leased(after.leases, session, later),
        after.leases[session].owner == controller,
        forall|
            other: ControllerRef,
            span: nat,
            r: Result<OperationLease, OperationLockError>,
            then: LockView,
        |
            other != controller && #[trigger] acquired(
                after,
                session,
                other,
                later,
                span,
                r,
                then,
            ) ==> r is Err && then == after,
{
}

/// Once a lease is over or given back, any controller gets the next one.
pub proof fn law_free_session_can_be_leased(
    before: LockView,
    session: Seq<char>,
    controller: ControllerRef,
    now: nat,
    ttl: nat,
    r: Result<OperationLease, OperationLockError>,
    after: LockView,
)
    requires
        acquired(before, session, controller, now, ttl, r, after),
        !leased(before.leases, session, now),
        ttl > 0,
        now + ttl <= crate::clock::INSTANT_MAX_NANOS,
    ensures
        r is Ok,
        leased(after.leases, session, now),
        after.leases[session].owner == controller,
{
}

/// What may happen to a lock table.
pub enum LockStep {
    Acquire {
        session: Seq<char>,
        controller: ControllerRef,
        now: nat,
        ttl: nat,
        r: Result<OperationLease, OperationLockError>,
    },
    Look { session: Seq<char>, now: nat },
    Release { session: Seq<char> },
    Remove { session: Seq<char> },
}

/// Tells whether `step` takes a lock table from `before` to `after`.
pub open spec fn stepped(before: LockView, step: LockStep, after: LockView) -> bool {
    match step {
        LockStep::Acquire { session, controller, now, ttl, r } => acquired(
            before,
            session,
            controller,
            now,
            ttl,
            r,
            after,
        ),
        LockStep::Look { session, now } => after == before.looked(session, now),
        LockStep::Release { session } => after == before.released(session),
        LockStep::Remove { session } => after == before.forgotten(session),
    }
}

/// Tells whether `steps` lead through `states`, one after the other, without `kept`
/// being removed.
pub open spec fn passed(
    states: Seq<LockView>,
    steps: Seq<LockStep>,
    kept: Seq<char>,
) -> bool {
    &&& states.len() == steps.len() + 1
    &&& forall|i: int|
        0 <= i < steps.len() ==> stepped(states[i], #[trigger] steps[i], states[i + 1])
            && steps[i] != (LockStep::Remove { session: kept })
}

proof fn lemma_epochs_stay(
    states: Seq<LockView>,
    steps: Seq<LockStep>,
    session: Seq<char>,
    i: int,
)
    requires
        passed(states, steps, session),
        0 <= i < states.len(),
    ensures
        next_epoch(states[0].epochs, session) <= next_epoch(states[i].epochs, session),
    decreases i,
{
    if i > 0 {
        lemma_epochs_stay(states, steps, session, i - 1);
        assert(stepped(states[i - 1], steps[i - 1], states[i]));
    }
}

/// A lease that is granted later has a greater number, whatever leases are granted,
/// refused, looked at, given back or dropped in between, and whatever other sessions are
/// removed. Only removing the session starts over.
pub proof fn law_epochs_increase(
    before: LockView,
    session: Seq<char>,
    first: (ControllerRef, nat, nat),
    one: OperationLease,
    states: Seq<LockView>,
    steps: Seq<LockStep>,
    second: (ControllerRef, nat, nat),
    two: OperationLease,
    after: LockView,
)
    requires
        passed(states, steps, session),
        acquired(before, session, first.0, first.1, first.2, Ok(one), states[0]),
        acquired(states.last(), session, second.0, second.1, second.2, Ok(two), after),
        one@.epoch < u64::MAX,
    ensures
        two@.epoch > one@.epoch,
        steps.len() == 0 ==> two@.epoch == one@.epoch + 1,
{
    lemma_epochs_stay(states, steps, session, states.len() - 1);
}

/// Whatever happens to a lock table, its leases and the numbers of the next ones stay
/// together.
pub proof fn law_leases_stay_numbered(before: LockView, step: LockStep, after: LockView)
    requires
        before.numbered(),
        stepped(before, step, after),
    ensures
        after.numbered(),
{
}

/// A session that has a lease, expired or not, is given the next number by the next one.
pub proof fn law_next_lease_counts_on(
    before: LockView,
    session: Seq<char>,
    controller: ControllerRef,
    now: nat,
    ttl: nat,
    lease: OperationLease,
    after: LockView,
)
    requires
        before.numbered(),
        before.leases.dom().contains(session),
        acquired(before, session, controller, now, ttl, Ok(lease), after),
    ensures
        lease@.epoch == epoch_after(before.leases[session].epoch),
        before.leases[session].epoch < u64::MAX ==> lease@.epoch == before.leases[session].epoch
            + 1,
{
}

/// The sessions that were granted a lease by `steps`.
pub open spec fn sessions_granted(steps: Seq<LockStep>) -> Set<Seq<char>>
    decreases steps.len(),
{
    if steps.len() == 0 {
        Set::empty()
    } else {
        match steps.last() {
            LockStep::Acquire { session, r: Ok(_), .. } => sessions_granted(
                steps.drop_last(),
            ).insert(session),
            _ => sessions_granted(steps.drop_last()),
        }
    }
}

/// While leases are only asked for, the sessions tracked are those that were granted one,
/// each counted once.
pub proof fn law_tracked_sessions_were_granted(states: Seq<LockView>, steps: Seq<LockStep>)
    requires
        states.len() == steps.len() + 1,
        states[0] == LockView::empty(),
        forall|i: int|
            0 <= i < steps.len() ==> stepped(states[i], #[trigger] steps[i], states[i + 1])
                && steps[i] is Acquire,
    ensures
        states.last().leases.dom() == sessions_granted(steps),
        states.last().leases.dom().len() == sessions_granted(steps).len(),
    decreases steps.len(),
{
    if steps.len() == 0 {
        assert(states.last().leases.dom() =~= Set::empty());
    } else {
        let fewer = steps.drop_last();
        let past = states.drop_last();
        let n = steps.len() - 1;
        assert(stepped(states[n], steps[n], states[n + 1]));
        assert forall|i: int| 0 <= i < fewer.len() implies stepped(
            past[i],
            #[trigger] fewer[i],
            past[i + 1],
        ) && fewer[i] is Acquire by {
            assert(fewer[i] == steps[i]);
        }
        law_tracked_sessions_were_granted(past, fewer);
        assert(states.last().leases.dom() =~= sessions_granted(steps));
    }
}

/// Leases of one session have no bearing on those of another.
pub proof fn law_sessions_are_apart(
    before: LockView,
    step: LockStep,
    after: LockView,
    other: Seq<char>,
)
    requires
        stepped(before, step, after),
        match step {
            LockStep::Acquire { session, .. } => session != other,
            LockStep::Look { session, .. } => session != other,
            LockStep::Release { session } => session != other,
            LockStep::Remove { session } => session != other,
        },
    ensures
        after.leases.dom().contains(other) == before.leases.dom().contains(other),
        after.leases.dom().contains(other) ==> after.leases[other] == before.leases[other],
        next_epoch(after.epochs, other) == next_epoch(before.epochs, other),
{
}

/// A lease lasts until its time is over, and no longer; while it lasts, its owner can renew it
/// at any moment, for as long again from that moment.
pub proof fn law_lease_lasts_its_time(
    before: LockView,
    session: Seq<char>,
    controller: ControllerRef,
    now: nat,
    ttl: nat,
    lease: OperationLease,
    after: LockView,
    later: nat,
    again: Result<OperationLease, OperationLockError>,
    then: LockView,
)
    requires
        acquired(before, session, controller, now, ttl, Ok(lease), after),
        now <= later,
        acquired(after, session, controller, later, ttl, again, then),
    ensures
        leased(after.leases, session, later) <==> later < now + ttl,
        later + ttl <= crate::clock::INSTANT_MAX_NANOS ==> {
            &&& again matches Ok(renewed)
            &&& renewed@.owner == controller
            &&& renewed@.expires_at == later + ttl
            &&& leased(then.leases, session, later)
        },
{
}

/// A lease that is given back is free at once, and a session that is forgotten starts over;
/// looking at a lease ends nothing but a lease that is over.
pub proof fn law_leases_end_when_they_should(state: LockView, session: Seq<char>, now: nat)
    ensures
        !leased(state.released(session).leases, session, now),
        next_epoch(state.released(session).epochs, session) == next_epoch(state.epochs, session),
        !leased(state.forgotten(session).leases, session, now),
        next_epoch(state.forgotten(session).epochs, session) == 0,
        leased(state.looked(session, now).leases, session, now) == leased(
            state.leases,
            session,
            now,
        ),
        leased(state.leases, session, now) ==> state.looked(session, now).leases[session]
            == state.leases[session],
        next_epoch(state.looked(session, now).epochs, session) == next_epoch(
            state.epochs,
            session,
        ),
        next_epoch(LockView::empty().epochs, session) == 0,
        !leased(LockView::empty().leases, session, now),
{
}

/// Whoever is refused a lease is told the reason: a time of nothing, a time that is too long,
/// or the owner who holds the session. A refusal changes nothing.
pub proof fn law_refused_lease_tells_the_reason(
    before: LockView,
    session: Seq<char>,
    controller: ControllerRef,
    now: nat,
    ttl: nat,
    error: OperationLockError,
    after: LockView,
)
    requires
        acquired(before, session, controller, now, ttl, Err(error), after),
    ensures
        after == before,
        ttl == 0 <==> error is InvalidLeaseTtl,
        ttl > 0 && now + ttl > 9_223_372_036_854_775_807_999_999_999
            <==> error is LeaseExpirationOverflow,
        error matches OperationLockError::LeaseConflict { session: name, owner } ==> {
            &&& name@ == session
            &&& owner != controller
            &&& leased(before.leases, session, now)
            &&& owner == before.leases[session].owner
        },
        error is InvalidLeaseTtl || error is LeaseExpirationOverflow || error is LeaseConflict,
{
}

/// A controller that does not own the lease is told who does, where anybody does.
pub proof fn law_refused_controller_is_told_the_owner(
    leases: Leases,
    session: Seq<char>,
    controller: ControllerRef,
    now: nat,
    error: OperationLockError,
)
    requires
        not_owner(leases, session, controller, now, error),
    ensures
        error matches OperationLockError::NotLeaseOwner { session: name, owner } && {
            &&& name@ == session
            &&& owner is Some <==> leased(leases, session, now)
            &&& owner matches Some(holder) ==> holder == leases[session].owner && holder
                != controller
        },
{
}

/// Each failure to lock is told in its own words.
pub proof fn law_lock_failures_have_their_words(error: OperationLockError)
    ensures
        error is InvalidControllerId ==> error.text() == "controller id must be non-zero"@,
        error is InvalidLeaseTtl ==> error.text()
            == "operation lease ttl must be greater than zero"@,
        error is LeaseExpirationOverflow ==> error.text()
            == "operation lease expiration overflowed"@,
        error is LeaseConflict ==> error.text()
            == "operation lease is owned by another controller"@,
        error is NotLeaseOwner ==> error.text() == "controller does not own the operation lease"@,
{
}

} // verus!
