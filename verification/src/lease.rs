//! Controller leases: at most one client at a time may send input, for a
//! bounded time that keepalives extend.

use vstd::prelude::*;
use vstd::string::*;
use std::collections::HashSet;
use crate::clock::MonotonicClock;
use crate::protocol::{ControllerLease, ControllerPolicy, DisplaySize};
use crate::text::{decimal, push_decimal};

verus! {

broadcast use vstd::std_specs::hash::group_hash_axioms;

/// Who controls the session. Times are milliseconds on the manager's clock.
#[derive(Debug, Clone, Copy, PartialEq, Eq, Structural)]
pub enum LeaseState {
    NoController,
    Active {
        owner_client_id: u64,
        lease_id: u64,
        granted_at_ms: u64,
        duration_ms: u64,
        current_size: DisplaySize,
    },
    Expired { previous_owner: u64 },
}

#[derive(Debug, Clone, PartialEq)]
pub enum LeaseResult {
    Granted(ControllerLease),
    Denied { reason: String, current_lease: Option<ControllerLease> },
}

#[derive(Debug, Clone, PartialEq)]
pub enum LeaseEvent {
    Expired { lease_id: u64, owner: u64 },
    Revoked { lease_id: u64, owner: u64, reason: String },
}

/// What a lease manager holds, as far as its rules go.
pub struct LeaseModel {
    pub state: LeaseState,
    pub next_lease_id: u64,
    pub viewers: Set<u64>,
    pub policy: ControllerPolicy,
    pub default_duration_ms: u64,
}

/// The size that a request without a size asks for.
pub open spec fn default_size() -> DisplaySize {
    DisplaySize { cols: 80u32, rows: 24u32 }
}

/// The size that a request asks for.
pub open spec fn requested_size(desired: Option<DisplaySize>) -> DisplaySize {
    match desired {
        Some(size) => size,
        None => default_size(),
    }
}

/// The time left of a lease at `now`: its duration less the time since it was
/// granted, and 0 once that time is over.
pub open spec fn remaining_ms(granted_at: u64, duration: u64, now: u64) -> u64 {
    let elapsed: int = if now >= granted_at {
        now - granted_at
    } else {
        0
    };
    if duration >= elapsed {
        (duration - elapsed) as u64
    } else {
        0u64
    }
}

/// Whether a lease granted at `granted_at` for `duration` is over at `now`.
pub open spec fn lease_over(granted_at: u64, duration: u64, now: u64) -> bool {
    now >= granted_at && now - granted_at >= duration
}

/// Whether a request from a client that is not the owner takes the lease
/// over: always under last-writer-wins, otherwise only by force.
pub open spec fn takes_over(policy: ControllerPolicy, force: bool) -> bool {
    policy == ControllerPolicy::LastWriterWins || force
}

/// The policy's name as messages spell it.
pub open spec fn policy_name(policy: ControllerPolicy) -> Seq<char> {
    match policy {
        ControllerPolicy::Unspecified => "Unspecified"@,
        ControllerPolicy::LastWriterWins => "LastWriterWins"@,
        ControllerPolicy::ExplicitOnly => "ExplicitOnly"@,
    }
}

/// Why a request was denied, in words.
pub open spec fn denied_reason(owner: u64, policy: ControllerPolicy) -> Seq<char> {
    "Lease held by client "@ + decimal(owner as nat) + " (policy: "@ + policy_name(policy) + ")"@
}

/// The lease ids are in order: ids are issued from 1 on, one after the
/// other, and the id of the standing lease was issued before the next one
/// will be.
pub open spec fn lease_ids_ok(state: LeaseState, next_lease_id: u64) -> bool {
    next_lease_id >= 1 && match state {
        LeaseState::Active { lease_id, .. } => 1 <= lease_id < next_lease_id,
        _ => true,
    }
}

impl LeaseModel {
    /// What holds of every manager: the lease ids are in order.
    pub open spec fn wf(self) -> bool {
        lease_ids_ok(self.state, self.next_lease_id)
    }

    /// The lease as messages carry it, with `remaining` milliseconds left.
    pub open spec fn lease(self, lease_id: u64, owner: u64, size: DisplaySize, remaining: u64)
        -> ControllerLease {
        ControllerLease {
            lease_id,
            owner_client_id: owner,
            policy: self.policy.spec_code(),
            current_size: Some(size),
            remaining_ms: remaining as u32,
            duration_ms: self.default_duration_ms as u32,
        }
    }

    /// The model after a fresh lease went to `client`.
    pub open spec fn granted_to(self, client: u64, size: DisplaySize, now: u64, viewers: Set<u64>)
        -> LeaseModel {
        LeaseModel {
            state: LeaseState::Active {
                owner_client_id: client,
                lease_id: self.next_lease_id,
                granted_at_ms: now,
                duration_ms: self.default_duration_ms,
                current_size: size,
            },
            next_lease_id: (self.next_lease_id + 1) as u64,
            viewers,
            ..self
        }
    }

    /// Whether a request from `client` ends with `client` in control.
    pub open spec fn request_granted(self, client: u64, force: bool) -> bool {
        match self.state {
            LeaseState::Active { owner_client_id, .. } => owner_client_id == client || takes_over(self.policy, force),
            _ => true,
        }
    }

    /// The model after a request from `client`.
    pub open spec fn after_request(self, client: u64, size: DisplaySize, force: bool, now: u64)
        -> LeaseModel {
        match self.state {
            LeaseState::Active { owner_client_id, .. } => {
                if owner_client_id == client {
                    self
                } else if takes_over(self.policy, force) {
                    self.granted_to(client, size, now, self.viewers.insert(owner_client_id).remove(client))
                } else {
                    self
                }
            },
            _ => self.granted_to(client, size, now, self.viewers.remove(client)),
        }
    }

    /// The lease that the answer to a request carries: the new lease where one
    /// was granted, the standing lease otherwise.
    pub open spec fn request_lease(self, client: u64, size: DisplaySize, force: bool, now: u64)
        -> ControllerLease {
        match self.state {
            LeaseState::Active { owner_client_id, lease_id, granted_at_ms, duration_ms, current_size } => {
                if owner_client_id != client && takes_over(self.policy, force) {
                    self.lease(self.next_lease_id, client, size, self.default_duration_ms)
                } else {
                    self.lease(
                        lease_id,
                        owner_client_id,
                        current_size,
                        remaining_ms(granted_at_ms, duration_ms, now),
                    )
                }
            },
            _ => self.lease(self.next_lease_id, client, size, self.default_duration_ms),
        }
    }

    /// The controller, where there is one.
    pub open spec fn owner(self) -> u64 {
        match self.state {
            LeaseState::Active { owner_client_id, .. } => owner_client_id,
            _ => 0u64,
        }
    }

    /// The id of the standing lease, where there is one.
    pub open spec fn held_lease_id(self) -> u64 {
        match self.state {
            LeaseState::Active { lease_id, .. } => lease_id,
            _ => 0u64,
        }
    }

    /// Whether `client` holds the lease `lease_id`.
    pub open spec fn holds(self, client: u64, lease_id: u64) -> bool {
        self.state matches LeaseState::Active { owner_client_id, lease_id: held, .. }
            && owner_client_id == client && held == lease_id
    }

    /// Whether `client` is the controller.
    pub open spec fn controller_is(self, client: u64) -> bool {
        self.state matches LeaseState::Active { owner_client_id, .. } && owner_client_id == client
    }

    /// Whether a request would issue a new lease id.
    pub open spec fn request_issues_id(self, client: u64, force: bool) -> bool {
        match self.state {
            LeaseState::Active { owner_client_id, .. } => owner_client_id != client && takes_over(self.policy, force),
            _ => true,
        }
    }

    /// The model after the owner released the lease, or after it ran out or
    /// was revoked.
    pub open spec fn ended(self, owner: u64) -> LeaseModel {
        LeaseModel { state: LeaseState::Expired { previous_owner: owner }, ..self }
    }

    /// The model after a keepalive that was accepted.
    pub open spec fn kept_alive(self, now: u64) -> LeaseModel {
        match self.state {
            LeaseState::Active { owner_client_id, lease_id, granted_at_ms, duration_ms, current_size } => LeaseModel {
                state: LeaseState::Active {
                    owner_client_id,
                    lease_id,
                    granted_at_ms: now,
                    duration_ms,
                    current_size,
                },
                ..self
            },
            _ => self,
        }
    }

    /// The model after the controller set a new size.
    pub open spec fn resized(self, size: DisplaySize) -> LeaseModel {
        match self.state {
            LeaseState::Active { owner_client_id, lease_id, granted_at_ms, duration_ms, current_size } => LeaseModel {
                state: LeaseState::Active {
                    owner_client_id,
                    lease_id,
                    granted_at_ms,
                    duration_ms,
                    current_size: size,
                },
                ..self
            },
            _ => self,
        }
    }

    /// Whether the lease has run out at `now`.
    pub open spec fn expired_at(self, now: u64) -> bool {
        self.state matches LeaseState::Active { granted_at_ms, duration_ms, .. } && lease_over(
            granted_at_ms,
            duration_ms,
            now,
        )
    }

    /// The standing lease at `now`, if there is one.
    pub open spec fn current_lease(self, now: u64) -> Option<ControllerLease> {
        match self.state {
            LeaseState::Active { owner_client_id, lease_id, granted_at_ms, duration_ms, current_size } => Some(
                self.lease(
                    lease_id,
                    owner_client_id,
                    current_size,
                    remaining_ms(granted_at_ms, duration_ms, now),
                ),
            ),
            _ => None,
        }
    }
}

/// What a request returned, against what the rules say.
pub open spec fn request_result_ok(
    before: LeaseModel,
    result: LeaseResult,
    client: u64,
    size: DisplaySize,
    force: bool,
    now: u64,
) -> bool {
    match result {
        LeaseResult::Granted(lease) => before.request_granted(client, force) && lease
            == before.request_lease(client, size, force, now),
        LeaseResult::Denied { reason, current_lease } => {
            &&& !before.request_granted(client, force)
            &&& current_lease == Some(before.request_lease(client, size, force, now))
            &&& reason@ == denied_reason(before.owner(), before.policy)
        },
    }
}

/// Whether `event` says that the lease `lease_id` of `owner` was revoked
/// because the owner went away.
pub open spec fn is_revocation(event: Option<LeaseEvent>, lease_id: u64, owner: u64) -> bool {
    match event {
        Some(LeaseEvent::Revoked { lease_id: revoked, owner: who, reason }) => revoked == lease_id
            && who == owner && reason@ == "disconnect"@,
        _ => false,
    }
}

/// What `tick` returned, against what the rules say.
pub open spec fn tick_result_ok(before: LeaseModel, result: Option<LeaseEvent>, now: u64) -> bool {
    if before.expired_at(now) {
        result == Some(LeaseEvent::Expired { lease_id: before.held_lease_id(), owner: before.owner() })
    } else {
        result.is_none()
    }
}

/// The lease and the id of the next one, which are held in order.
struct LeaseCore {
    state: LeaseState,
    next_lease_id: u64,
}

impl LeaseCore {
    #[verifier::type_invariant]
    spec fn inv(&self) -> bool {
        lease_ids_ok(self.state, self.next_lease_id)
    }

    fn new() -> (c: LeaseCore)
        ensures
            c.state == LeaseState::NoController,
            c.next_lease_id == 1,
    {
        LeaseCore { state: LeaseState::NoController, next_lease_id: 1 }
    }

    /// Puts the lease into another state without issuing an id.
    fn put(&mut self, state: LeaseState)
        requires
            lease_ids_ok(state, old(self).next_lease_id),
        ensures
            final(self).state == state,
            final(self).next_lease_id == old(self).next_lease_id,
    {
        *self = LeaseCore { state, next_lease_id: self.next_lease_id };
    }

    /// Issues the next lease id for a lease that starts now.
    fn issue(&mut self, owner_client_id: u64, granted_at_ms: u64, duration_ms: u64, current_size: DisplaySize) -> (lease_id:
        u64)
        requires
            old(self).next_lease_id < u64::MAX,
        ensures
            lease_id == old(self).next_lease_id,
            final(self).next_lease_id == old(self).next_lease_id + 1,
            final(self).state == (LeaseState::Active {
                owner_client_id,
                lease_id,
                granted_at_ms,
                duration_ms,
                current_size,
            }),
    {
        proof {
            use_type_invariant(&*self);
        }
        let lease_id = self.next_lease_id;
        *self = LeaseCore {
            state: LeaseState::Active { owner_client_id, lease_id, granted_at_ms, duration_ms, current_size },
            next_lease_id: lease_id + 1,
        };
        lease_id
    }
}

pub struct LeaseManager {
    core: LeaseCore,
    policy: ControllerPolicy,
    default_duration_ms: u64,
    viewers: HashSet<u64>,
    clock: MonotonicClock,
}

impl View for LeaseManager {
    type V = LeaseModel;

    closed spec fn view(&self) -> LeaseModel {
        LeaseModel {
            state: self.core.state,
            next_lease_id: self.core.next_lease_id,
            viewers: self.viewers@,
            policy: self.policy,
            default_duration_ms: self.default_duration_ms,
        }
    }
}

impl LeaseManager {
    /// A manager without a controller. `duration_ms` is how long a lease lasts
    /// without a keepalive.
    pub fn new(policy: ControllerPolicy, duration_ms: u64) -> (m: LeaseManager)
        ensures
            m@.wf(),
            m@ == (LeaseModel {
                state: LeaseState::NoController,
                next_lease_id: 1,
                viewers: Set::empty(),
                policy,
                default_duration_ms: duration_ms,
            }),
    {
        LeaseManager {
            core: LeaseCore::new(),
            policy,
            default_duration_ms: duration_ms,
            viewers: HashSet::new(),
            clock: MonotonicClock::new(),
        }
    }

    /// The manager's clock, for callers that pass times of their own.
    pub fn now_ms(&self) -> u64 {
        self.clock.now_ms()
    }

    /// The id that the next lease will get.
    pub fn next_lease_id(&self) -> (id: u64)
        ensures
            self@.wf(),
            id == self@.next_lease_id,
    {
        proof {
            use_type_invariant(&self.core);
        }
        self.core.next_lease_id
    }

    fn remaining(granted_at_ms: u64, duration_ms: u64, now_ms: u64) -> (r: u64)
        ensures
            r == remaining_ms(granted_at_ms, duration_ms, now_ms),
    {
        let elapsed = if now_ms >= granted_at_ms {
            now_ms - granted_at_ms
        } else {
            0
        };
        if duration_ms >= elapsed {
            duration_ms - elapsed
        } else {
            0
        }
    }

    fn build_lease(&self, lease_id: u64, owner_client_id: u64, size: DisplaySize, remaining: u64) -> (lease:
        ControllerLease)
        ensures
            self@.wf(),
            lease == self@.lease(lease_id, owner_client_id, size, remaining),
    {
        proof {
            use_type_invariant(&self.core);
        }
        ControllerLease {
            lease_id,
            owner_client_id,
            policy: self.policy.code(),
            current_size: Some(size),
            remaining_ms: remaining as u32,
            duration_ms: self.default_duration_ms as u32,
        }
    }

    fn describe_denial(owner: u64, policy: ControllerPolicy) -> (reason: String)
        ensures
            reason@ == denied_reason(owner, policy),
    {
        let mut reason = String::from_str("Lease held by client ");
        push_decimal(&mut reason, owner);
        reason.append(" (policy: ");
        match policy {
            ControllerPolicy::Unspecified => reason.append("Unspecified"),
            ControllerPolicy::LastWriterWins => reason.append("LastWriterWins"),
            ControllerPolicy::ExplicitOnly => reason.append("ExplicitOnly"),
        }
        reason.append(")");
        reason
    }

    /// A request for control at time `now_ms`.
    ///
    /// Without a controller the request is granted. The controller's own
    /// request returns the standing lease with the time it has left. Another
    /// client's request takes the lease over under last-writer-wins or by
    /// force, and the old controller becomes a viewer; otherwise it is denied
    /// and answered with the standing lease.
    pub fn request_control_at(
        &mut self,
        client_id: u64,
        desired_size: Option<DisplaySize>,
        force: bool,
        now_ms: u64,
    ) -> (result: LeaseResult)
        requires
            old(self)@.next_lease_id < u64::MAX,
        ensures
            final(self)@ == old(self)@.after_request(
                client_id,
                requested_size(desired_size),
                force,
                now_ms,
            ),
            request_result_ok(
                old(self)@,
                result,
                client_id,
                requested_size(desired_size),
                force,
                now_ms,
            ),
    {
        let size = match desired_size {
            Some(s) => s,
            None => DisplaySize { cols: 80, rows: 24 },
        };
        match self.core.state {
            LeaseState::Active { owner_client_id, lease_id, granted_at_ms, duration_ms, current_size } => {
                if owner_client_id == client_id {
                    return LeaseResult::Granted(
                        self.build_lease(
                            lease_id,
                            client_id,
                            current_size,
                            Self::remaining(granted_at_ms, duration_ms, now_ms),
                        ),
                    );
                }
                let can_takeover = match self.policy {
                    ControllerPolicy::LastWriterWins => true,
                    ControllerPolicy::ExplicitOnly => force,
                    ControllerPolicy::Unspecified => force,
                };
                if can_takeover {
                    let new_lease_id = self.core.issue(client_id, now_ms, self.default_duration_ms, size);
                    self.viewers.insert(owner_client_id);
                    self.viewers.remove(&client_id);
                    LeaseResult::Granted(
                        self.build_lease(new_lease_id, client_id, size, self.default_duration_ms),
                    )
                } else {
                    LeaseResult::Denied {
                        reason: Self::describe_denial(owner_client_id, self.policy),
                        current_lease: Some(
                            self.build_lease(
                                lease_id,
                                owner_client_id,
                                current_size,
                                Self::remaining(granted_at_ms, duration_ms, now_ms),
                            ),
                        ),
                    }
                }
            },
            _ => {
                let lease_id = self.core.issue(client_id, now_ms, self.default_duration_ms, size);
                self.viewers.remove(&client_id);
                LeaseResult::Granted(self.build_lease(lease_id, client_id, size, self.default_duration_ms))
            },
        }
    }

    /// A request for control now, by the manager's own clock.
    pub fn request_control(&mut self, client_id: u64, desired_size: Option<DisplaySize>, force: bool) -> (result:
        LeaseResult)
        requires
            old(self)@.next_lease_id < u64::MAX,
        ensures
            old(self)@.wf(),
            final(self)@.wf(),
            exists|now_ms: u64|
                final(self)@ == #[trigger] old(self)@.after_request(
                    client_id,
                    requested_size(desired_size),
                    force,
                    now_ms,
                ) && request_result_ok(
                    old(self)@,
                    result,
                    client_id,
                    requested_size(desired_size),
                    force,
                    now_ms,
                ),
    {
        proof {
            use_type_invariant(&self.core);
        }
        let now_ms = self.clock.now_ms();
        self.request_control_at(client_id, desired_size, force, now_ms)
    }

    /// The controller gives the lease up. Answers whether `client_id` held
    /// the lease `lease_id`; if not, nothing changes.
    pub fn release_control(&mut self, client_id: u64, lease_id: u64) -> (released: bool)
        ensures
            old(self)@.wf(),
            final(self)@.wf(),
            released == old(self)@.holds(client_id, lease_id),
            released ==> final(self)@ == old(self)@.ended(client_id),
            !released ==> final(self)@ == old(self)@,
    {
        proof {
            use_type_invariant(&self.core);
        }
        match self.core.state {
            LeaseState::Active { owner_client_id, lease_id: current_lease_id, .. } => {
                if owner_client_id == client_id && current_lease_id == lease_id {
                    self.core.put(LeaseState::Expired { previous_owner: client_id });
                    return true;
                }
            },
            _ => {},
        }
        false
    }

    /// A keepalive at time `now_ms`: the lease runs its full duration again
    /// from `now_ms`. Answers whether `client_id` held the lease `lease_id`; if
    /// not, nothing changes.
    pub fn keepalive_at(&mut self, client_id: u64, lease_id: u64, now_ms: u64) -> (kept: bool)
        ensures
            old(self)@.wf(),
            final(self)@.wf(),
            kept == old(self)@.holds(client_id, lease_id),
            kept ==> final(self)@ == old(self)@.kept_alive(now_ms),
            !kept ==> final(self)@ == old(self)@,
    {
        proof {
            use_type_invariant(&self.core);
        }
        match self.core.state {
            LeaseState::Active { owner_client_id, lease_id: current_lease_id, granted_at_ms: _, duration_ms, current_size } => {
                if owner_client_id == client_id && current_lease_id == lease_id {
                    self.core.put(LeaseState::Active {
                        owner_client_id,
                        lease_id: current_lease_id,
                        granted_at_ms: now_ms,
                        duration_ms,
                        current_size,
                    });
                    return true;
                }
            },
            _ => {},
        }
        false
    }

    /// A keepalive now, by the manager's own clock.
    pub fn keepalive(&mut self, client_id: u64, lease_id: u64) -> (kept: bool)
        ensures
            old(self)@.wf(),
            final(self)@.wf(),
            kept == old(self)@.holds(client_id, lease_id),
            !kept ==> final(self)@ == old(self)@,
            kept ==> exists|now_ms: u64| final(self)@ == #[trigger] old(self)@.kept_alive(now_ms),
    {
        proof {
            use_type_invariant(&self.core);
        }
        let now_ms = self.clock.now_ms();
        self.keepalive_at(client_id, lease_id, now_ms)
    }

    /// Looks at the lease at time `now_ms`. A lease whose duration is over
    /// ends, and the event says whose it was; otherwise nothing changes.
    pub fn tick_at(&mut self, now_ms: u64) -> (event: Option<LeaseEvent>)
        ensures
            old(self)@.wf(),
            final(self)@.wf(),
            tick_result_ok(old(self)@, event, now_ms),
            old(self)@.expired_at(now_ms) ==> final(self)@ == old(self)@.ended(old(self)@.owner()),
            !old(self)@.expired_at(now_ms) ==> final(self)@ == old(self)@,
    {
        proof {
            use_type_invariant(&self.core);
        }
        match self.core.state {
            LeaseState::Active { owner_client_id, lease_id, granted_at_ms, duration_ms, .. } => {
                if now_ms >= granted_at_ms && now_ms - granted_at_ms >= duration_ms {
                    let event = LeaseEvent::Expired { lease_id, owner: owner_client_id };
                    self.core.put(LeaseState::Expired { previous_owner: owner_client_id });
                    return Some(event);
                }
            },
            _ => {},
        }
        None
    }

    /// Looks at the lease now, by the manager's own clock.
    pub fn tick(&mut self) -> (event: Option<LeaseEvent>)
        ensures
            old(self)@.wf(),
            final(self)@.wf(),
            exists|now_ms: u64|
                #[trigger] tick_result_ok(old(self)@, event, now_ms) && (if old(self)@.expired_at(now_ms) {
                    final(self)@ == old(self)@.ended(old(self)@.owner())
                } else {
                    final(self)@ == old(self)@
                }),
    {
        proof {
            use_type_invariant(&self.core);
        }
        let now_ms = self.clock.now_ms();
        self.tick_at(now_ms)
    }

    /// The controller's size, if there is a controller.
    pub fn current_size(&self) -> (size: Option<DisplaySize>)
        ensures
            self@.wf(),
            size == (match self@.state {
                LeaseState::Active { current_size, .. } => Some(current_size),
                _ => None,
            }),
    {
        proof {
            use_type_invariant(&self.core);
        }
        match self.core.state {
            LeaseState::Active { current_size, .. } => Some(current_size),
            _ => None,
        }
    }

    /// The controller sets its size. Answers whether `client_id` held the
    /// lease `lease_id`; if not, nothing changes. The lease's time is not
    /// touched.
    pub fn set_size(&mut self, client_id: u64, lease_id: u64, size: DisplaySize) -> (set: bool)
        ensures
            old(self)@.wf(),
            final(self)@.wf(),
            set == old(self)@.holds(client_id, lease_id),
            set ==> final(self)@ == old(self)@.resized(size),
            !set ==> final(self)@ == old(self)@,
    {
        proof {
            use_type_invariant(&self.core);
        }
        match self.core.state {
            LeaseState::Active { owner_client_id, lease_id: current_lease_id, granted_at_ms, duration_ms, .. } => {
                if owner_client_id == client_id && current_lease_id == lease_id {
                    self.core.put(LeaseState::Active {
                        owner_client_id,
                        lease_id: current_lease_id,
                        granted_at_ms,
                        duration_ms,
                        current_size: size,
                    });
                    return true;
                }
            },
            _ => {},
        }
        false
    }

    /// The controller, if there is one.
    pub fn controller(&self) -> (owner: Option<u64>)
        ensures
            self@.wf(),
            owner == (match self@.state {
                LeaseState::Active { owner_client_id, .. } => Some(owner_client_id),
                _ => None,
            }),
    {
        proof {
            use_type_invariant(&self.core);
        }
        match self.core.state {
            LeaseState::Active { owner_client_id, .. } => Some(owner_client_id),
            _ => None,
        }
    }

    pub fn is_controller(&self, client_id: u64) -> (b: bool)
        ensures
            self@.wf(),
            b == self@.controller_is(client_id),
    {
        proof {
            use_type_invariant(&self.core);
        }
        match self.core.state {
            LeaseState::Active { owner_client_id, .. } => owner_client_id == client_id,
            _ => false,
        }
    }

    /// The standing lease with the time it has left at `now_ms`.
    pub fn get_current_lease_at(&self, now_ms: u64) -> (lease: Option<ControllerLease>)
        ensures
            self@.wf(),
            lease == self@.current_lease(now_ms),
    {
        proof {
            use_type_invariant(&self.core);
        }
        match self.core.state {
            LeaseState::Active { owner_client_id, lease_id, granted_at_ms, duration_ms, current_size } => {
                let remaining = Self::remaining(granted_at_ms, duration_ms, now_ms);
                Some(self.build_lease(lease_id, owner_client_id, current_size, remaining))
            },
            _ => None,
        }
    }

    /// The standing lease with the time it has left now, by the manager's own
    /// clock.
    pub fn get_current_lease(&self) -> (lease: Option<ControllerLease>)
        ensures
            self@.wf(),
            exists|now_ms: u64| lease == #[trigger] self@.current_lease(now_ms),
    {
        proof {
            use_type_invariant(&self.core);
        }
        let now_ms = self.clock.now_ms();
        self.get_current_lease_at(now_ms)
    }

    /// Notes `client_id` as a viewer, unless it is the controller.
    pub fn add_viewer(&mut self, client_id: u64)
        ensures
            old(self)@.wf(),
            final(self)@.wf(),
            final(self)@ == (LeaseModel {
                viewers: if old(self)@.controller_is(client_id) {
                    old(self)@.viewers
                } else {
                    old(self)@.viewers.insert(client_id)
                },
                ..old(self)@
            }),
    {
        proof {
            use_type_invariant(&self.core);
        }
        if !self.is_controller(client_id) {
            self.viewers.insert(client_id);
        }
    }

    /// Forgets `client_id`. If it was the controller, its lease is revoked,
    /// and the event says so.
    pub fn remove_client(&mut self, client_id: u64) -> (event: Option<LeaseEvent>)
        ensures
            old(self)@.wf(),
            final(self)@.wf(),
            final(self)@.viewers == old(self)@.viewers.remove(client_id),
            final(self)@.next_lease_id == old(self)@.next_lease_id,
            final(self)@.policy == old(self)@.policy,
            final(self)@.default_duration_ms == old(self)@.default_duration_ms,
            old(self)@.controller_is(client_id) ==> final(self)@.state == (LeaseState::Expired {
                previous_owner: client_id,
            }) && is_revocation(event, old(self)@.held_lease_id(), client_id),
            !old(self)@.controller_is(client_id) ==> final(self)@.state == old(self)@.state
                && event.is_none(),
    {
        proof {
            use_type_invariant(&self.core);
        }
        self.viewers.remove(&client_id);
        match self.core.state {
            LeaseState::Active { owner_client_id, lease_id, .. } => {
                if owner_client_id == client_id {
                    let event = LeaseEvent::Revoked {
                        lease_id,
                        owner: owner_client_id,
                        reason: String::from_str("disconnect"),
                    };
                    self.core.put(LeaseState::Expired { previous_owner: client_id });
                    return Some(event);
                }
            },
            _ => {},
        }
        None
    }

    pub fn is_viewer(&self, client_id: u64) -> (b: bool)
        ensures
            self@.wf(),
            b == self@.viewers.contains(client_id),
    {
        proof {
            use_type_invariant(&self.core);
        }
        self.viewers.contains(&client_id)
    }

    pub fn viewer_count(&self) -> (n: usize)
        ensures
            self@.wf(),
            n == self@.viewers.len(),
    {
        proof {
            use_type_invariant(&self.core);
        }
        self.viewers.len()
    }
}

/// Lease ids only go up. In a manager whose ids are in order, a request
/// that issues a lease gives it the next id, which is greater than the id of
/// the lease that stood before, and leaves the ids in order; a request that
/// issues none leaves the lease and the next id as they are.
pub proof fn lemma_lease_ids_rise(m: LeaseModel, client: u64, size: DisplaySize, force: bool, now: u64)
    requires
        m.wf(),
        m.next_lease_id < u64::MAX,
    ensures
        m.after_request(client, size, force, now).wf(),
        m.request_issues_id(client, force) ==> {
            &&& m.after_request(client, size, force, now).held_lease_id() == m.next_lease_id
            &&& m.after_request(client, size, force, now).owner() == client
            &&& m.after_request(client, size, force, now).next_lease_id == m.next_lease_id + 1
            &&& m.state is Active ==> m.held_lease_id() < m.after_request(client, size, force, now).held_lease_id()
        },
        !m.request_issues_id(client, force) ==> m.after_request(client, size, force, now) == m,
{
}

/// After a lease ended, by release, by running out or by its owner going
/// away, there is no lease, and the next request by any client is granted
/// with an id greater than the one that ended.
pub proof fn lemma_grant_after_end(m: LeaseModel, client: u64, size: DisplaySize, force: bool, now: u64)
    requires
        m.wf(),
        m.state is Active,
        m.next_lease_id < u64::MAX,
    ensures
        m.ended(m.owner()).wf(),
        m.ended(m.owner()).current_lease(now).is_none(),
        m.ended(m.owner()).request_granted(client, force),
        m.ended(m.owner()).after_request(client, size, force, now).held_lease_id() > m.held_lease_id(),
        m.ended(m.owner()).after_request(client, size, force, now).owner() == client,
{
}

} // verus!
