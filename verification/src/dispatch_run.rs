//! The run of a dispatch: what is done next after each answer from outside, from
//! the survey of what the action declares to the reactions that it sets off.

use vstd::prelude::*;
use vstd::string::*;

use crate::composite_helpers::reject_action_supplied_sub_writes;
use crate::composite_helpers::supplies_sub_writes;
use crate::dispatch_actions::ReactionDeliveryStatus;
use crate::dispatch_actions::dispatch_attempts;
use crate::dispatch_actions::dispatch_idempotency_key;
use crate::dispatch_actions::expected_sequence;
use crate::dispatch_actions::follow_up;
use crate::dispatch_actions::followed_by;
use crate::dispatch_actions::plan_commit;
use crate::dispatch_actions::require_journal;
use crate::dispatch_actions::require_terminal_reaction_roots;
use crate::dispatch_actions::roots_refusal;
use crate::dispatch_actions::AdmissionOutcome;
use crate::dispatch_actions::CommitPlan;
use crate::dispatch_actions::DeliveryRecord;
use crate::dispatch_actions::DispatchError;
use crate::dispatch_actions::DispatchErrorModel;
use crate::dispatch_actions::FollowUp;
use crate::dispatch_actions::ReactionFollowUp;
use crate::dispatch_actions::ReactionIntent;
use crate::dispatch_actions::roots_that_pass_have_ended;
use crate::json::Json;
use crate::ordered::OrdSet;
use crate::retry::ActorError;
use crate::text::opt_as_str;
use crate::text::opt_text;

verus! {

/// An action to be dispatched to an entity.
#[derive(Debug, PartialEq, Eq)]
pub struct DispatchRequest {
    pub tenant: String,
    pub entity_type: String,
    pub entity_id: String,
    pub action: String,
    pub params: Json,
    /// The key under which the caller wants it carried out once.
    pub idempotency_key: Option<String>,
    /// The sequence that the caller wants the entity to be at.
    pub expected_sequence: Option<u64>,
    /// A policy decided on the entity's state: it must still be in it.
    pub has_precondition: bool,
    pub await_reactions: bool,
}

/// What a run waits for.
#[derive(Clone, Copy, Debug, PartialEq, Eq, Structural)]
pub enum DispatchPhase {
    /// What the action declares is looked up.
    Survey,
    /// The entity's state is read and the guards of reactions are resolved.
    ReadSource,
    /// The entity is held against its schema pin.
    CheckPin,
    /// The entity's type is looked up.
    CheckGoverned,
    /// The entity's actor is found or started.
    ResolveActor,
    /// Admission control is asked.
    Admit,
    /// The actor is asked.
    Ask,
    /// What follows the actor's answer is carried out.
    RunEffects,
    /// The intents of the committed event are read.
    ReadIntents,
    /// The reactions are delivered.
    Deliver,
    /// The deliveries are inspected.
    Inspect,
    /// The answer is given.
    Return,
}

/// How far along a run is.
pub open spec fn rank(phase: DispatchPhase) -> nat {
    match phase {
        DispatchPhase::Survey => 0,
        DispatchPhase::ReadSource => 1,
        DispatchPhase::CheckPin => 2,
        DispatchPhase::CheckGoverned => 3,
        DispatchPhase::ResolveActor => 4,
        DispatchPhase::Admit => 5,
        DispatchPhase::Ask => 6,
        DispatchPhase::RunEffects => 7,
        DispatchPhase::ReadIntents => 8,
        DispatchPhase::Deliver => 9,
        DispatchPhase::Inspect => 10,
        DispatchPhase::Return => 11,
    }
}

/// The run of a dispatch, with what it learnt so far.
#[derive(Debug, PartialEq, Eq)]
pub struct DispatchRun {
    pub request: DispatchRequest,
    pub phase: DispatchPhase,
    pub plan: CommitPlan,
    /// The sequence that the reactions were decided on.
    pub source_sequence: Option<u64>,
    pub pin_holds: bool,
    pub governed: bool,
    pub actor_resolved: bool,
    pub admitted: bool,
    pub succeeded: bool,
    /// The roots of the reactions that the caller waits for.
    pub roots: OrdSet<String>,
}

/// How the actor is asked.
#[derive(Clone, Debug, PartialEq, Eq)]
pub struct AskPlan {
    pub max_attempts: u32,
    pub expected_sequence: Option<u64>,
    pub idempotency_key: String,
}

/// An error of a step, if it gave one.
pub open spec fn refusal<T>(r: Result<T, DispatchError>) -> Option<DispatchErrorModel> {
    match r {
        Ok(_) => None,
        Err(e) => Some(e@),
    }
}

impl DispatchRun {
    /// A run is only as far along as what it learnt allows: the actor is asked
    /// only once the pin holds, the type is governed, the actor is there and
    /// admission control let the action through; reactions follow only an
    /// action that succeeded, and are committed only where there is a journal.
    pub open spec fn wf(&self) -> bool {
        &&& self.roots.wf()
        &&& rank(self.phase) > 1 && self.plan.reactions ==> self.plan.has_journal
        &&& rank(self.phase) > 2 ==> self.pin_holds
        &&& rank(self.phase) > 3 ==> self.governed
        &&& rank(self.phase) > 4 ==> self.actor_resolved
        &&& rank(self.phase) > 5 ==> self.admitted
        &&& 8 <= rank(self.phase) <= 10 ==> self.succeeded
    }

    /// The run after a step: in another phase, and otherwise as it was.
    pub open spec fn in_phase(self, phase: DispatchPhase) -> DispatchRun {
        DispatchRun { phase, ..self }
    }

    /// Begins the run of a dispatch.
    pub fn begin(request: DispatchRequest) -> (r: Self)
        ensures
            r.wf(),
            r.phase == DispatchPhase::Survey,
            r.request == request,
            r.plan == (CommitPlan {
                has_dispatcher: false,
                has_journal: false,
                reactions: false,
                timeouts: false,
            }),
            r.source_sequence is None,
            !r.pin_holds,
            !r.governed,
            !r.actor_resolved,
            !r.admitted,
            !r.succeeded,
            r.roots@ == Set::<Seq<char>>::empty(),
    {
        DispatchRun {
            request,
            phase: DispatchPhase::Survey,
            plan: plan_commit(false, false, false, false),
            source_sequence: None,
            pin_holds: false,
            governed: false,
            actor_resolved: false,
            admitted: false,
            succeeded: false,
            roots: OrdSet::new(),
        }
    }

    /// The survey was made: whether the action is a composite, whether reactions
    /// can be dispatched and may match, whether there is a journal, and whether
    /// the type declares timeouts. A composite's caller may not bring sub-writes.
    pub fn surveyed(
        &mut self,
        composite: bool,
        has_dispatcher: bool,
        has_rules: bool,
        has_journal: bool,
        declares_timeouts: bool,
    ) -> (r: Result<(), DispatchError>)
        requires
            old(self).wf(),
            old(self).phase == DispatchPhase::Survey,
        ensures
            final(self).wf(),
            refusal(r) == (if composite {
                supplies_sub_writes(
                    old(self).request.entity_type@,
                    old(self).request.action@,
                    old(self).request.params@,
                )
            } else {
                None
            }),
            r is Err ==> *final(self) == *old(self),
            r is Ok ==> {
                let plan = CommitPlan {
                    has_dispatcher,
                    has_journal,
                    reactions: has_dispatcher && has_rules,
                    timeouts: has_journal && declares_timeouts,
                };
                *final(self) == (DispatchRun {
                    plan,
                    phase: if plan.source_needed() {
                        DispatchPhase::ReadSource
                    } else {
                        DispatchPhase::CheckPin
                    },
                    ..*old(self)
                })
            },
    {
        if composite {
            match reject_action_supplied_sub_writes(
                self.request.entity_type.as_str(),
                self.request.action.as_str(),
                &self.request.params,
            ) {
                Ok(_) => {},
                Err(e) => return Err(e),
            }
        }
        self.plan = plan_commit(has_dispatcher, has_rules, has_journal, declares_timeouts);
        self.phase = if self.plan.reads_source() {
            DispatchPhase::ReadSource
        } else {
            DispatchPhase::CheckPin
        };
        Ok(())
    }

    /// The entity's state was read, at this sequence. Reactions need a journal.
    pub fn source_read(&mut self, source: Result<u64, String>) -> (r: Result<(), DispatchError>)
        requires
            old(self).wf(),
            old(self).phase == DispatchPhase::ReadSource,
        ensures
            final(self).wf(),
            refusal(r) == (match source {
                Err(e) => Some(DispatchErrorModel::Internal(e@)),
                Ok(_) => if old(self).plan.reactions && !old(self).plan.has_journal {
                    Some(
                        DispatchErrorModel::Internal(
                            "durable reactions require a configured event journal"@,
                        ),
                    )
                } else {
                    None
                },
            }),
            r is Err ==> *final(self) == *old(self),
            r is Ok ==> source is Ok && *final(self) == (DispatchRun {
                source_sequence: Some(source->Ok_0),
                phase: DispatchPhase::CheckPin,
                ..*old(self)
            }),
    {
        match source {
            Err(e) => Err(DispatchError::Internal(e)),
            Ok(sequence) => {
                match require_journal(&self.plan) {
                    Ok(_) => {},
                    Err(e) => return Err(e),
                }
                self.source_sequence = Some(sequence);
                self.phase = DispatchPhase::CheckPin;
                Ok(())
            },
        }
    }

    /// The entity was held against its schema pin. Without a pin it holds.
    pub fn pin_checked(&mut self, pin: Result<(), String>) -> (r: Result<(), DispatchError>)
        requires
            old(self).wf(),
            old(self).phase == DispatchPhase::CheckPin,
        ensures
            final(self).wf(),
            refusal(r) == (match pin {
                Err(e) => Some(DispatchErrorModel::Internal(e@)),
                Ok(_) => None,
            }),
            r is Err ==> *final(self) == *old(self),
            r is Ok ==> *final(self) == (DispatchRun {
                pin_holds: true,
                phase: DispatchPhase::CheckGoverned,
                ..*old(self)
            }),
    {
        match pin {
            Err(e) => Err(DispatchError::Internal(e)),
            Ok(_) => {
                self.pin_holds = true;
                self.phase = DispatchPhase::CheckGoverned;
                Ok(())
            },
        }
    }

    /// The entity's type was looked up. One without a spec is refused.
    pub fn governed_checked(&mut self, governed: Result<bool, String>) -> (r: Result<
        (),
        DispatchError,
    >)
        requires
            old(self).wf(),
            old(self).phase == DispatchPhase::CheckGoverned,
        ensures
            final(self).wf(),
            refusal(r) == (match governed {
                Err(e) => Some(DispatchErrorModel::Internal(e@)),
                Ok(known) => if known {
                    None
                } else {
                    Some(DispatchErrorModel::Ungoverned(old(self).request.entity_type@))
                },
            }),
            r is Err ==> *final(self) == *old(self),
            r is Ok ==> *final(self) == (DispatchRun {
                governed: true,
                phase: DispatchPhase::ResolveActor,
                ..*old(self)
            }),
    {
        match governed {
            Err(e) => Err(DispatchError::Internal(e)),
            Ok(known) => {
                if !known {
                    return Err(DispatchError::Ungoverned(self.request.entity_type.clone()));
                }
                self.governed = true;
                self.phase = DispatchPhase::ResolveActor;
                Ok(())
            },
        }
    }

    /// The entity's actor was looked for.
    pub fn actor_found(&mut self, found: bool) -> (r: Result<(), DispatchError>)
        requires
            old(self).wf(),
            old(self).phase == DispatchPhase::ResolveActor,
        ensures
            final(self).wf(),
            refusal(r) == (if found {
                None
            } else {
                Some(
                    DispatchErrorModel::Internal(
                        "failed to resolve actor for governed entity type '"@
                            + old(self).request.entity_type@ + "'"@,
                    ),
                )
            }),
            r is Err ==> *final(self) == *old(self),
            r is Ok ==> *final(self) == (DispatchRun {
                actor_resolved: true,
                phase: DispatchPhase::Admit,
                ..*old(self)
            }),
    {
        if !found {
            let mut text = "failed to resolve actor for governed entity type '".to_owned();
            text.append(self.request.entity_type.as_str());
            text.append("'");
            return Err(DispatchError::Internal(text));
        }
        self.actor_resolved = true;
        self.phase = DispatchPhase::Admit;
        Ok(())
    }

    /// How the actor is asked: as often as the policy says, but once where a
    /// policy decided on the entity's state; at the caller's sequence, else at
    /// the one that the reactions were decided on; under the caller's key, else
    /// under a fresh one.
    pub open spec fn asks_by(&self, max_attempts: u32, fresh: Seq<char>, plan: AskPlan) -> bool {
        &&& plan.max_attempts == (if self.request.has_precondition {
            1
        } else {
            max_attempts
        })
        &&& plan.expected_sequence == (if self.request.expected_sequence is Some {
            self.request.expected_sequence
        } else {
            self.source_sequence
        })
        &&& plan.idempotency_key@ == match opt_text(self.request.idempotency_key) {
            Some(key) => key,
            None => "dispatch:"@ + self.request.tenant@ + ":"@ + self.request.entity_type@ + ":"@
                + self.request.entity_id@ + ":"@ + self.request.action@ + ":"@ + fresh,
        }
    }

    /// Admission control answered.
    pub fn admission(&mut self, outcome: AdmissionOutcome, max_attempts: u32, fresh: &str) -> (r:
        Result<AskPlan, DispatchError>)
        requires
            old(self).wf(),
            old(self).phase == DispatchPhase::Admit,
        ensures
            final(self).wf(),
            refusal(r) == (match outcome {
                AdmissionOutcome::Deferred { retry_after_ms } => Some(
                    DispatchErrorModel::Deferred { retry_after_ms },
                ),
                _ => None,
            }),
            r is Err ==> *final(self) == *old(self),
            r is Ok ==> old(self).asks_by(max_attempts, fresh@, r->Ok_0) && *final(self) == (
            DispatchRun { admitted: true, phase: DispatchPhase::Ask, ..*old(self) }),
    {
        match outcome {
            AdmissionOutcome::Deferred { retry_after_ms } => return Err(
                DispatchError::Deferred { retry_after_ms },
            ),
            _ => {},
        }
        let plan = AskPlan {
            max_attempts: dispatch_attempts(max_attempts, self.request.has_precondition),
            expected_sequence: expected_sequence(
                self.request.expected_sequence,
                self.source_sequence,
            ),
            idempotency_key: dispatch_idempotency_key(
                opt_as_str(&self.request.idempotency_key),
                self.request.tenant.as_str(),
                self.request.entity_type.as_str(),
                self.request.entity_id.as_str(),
                self.request.action.as_str(),
                fresh,
            ),
        };
        self.admitted = true;
        self.phase = DispatchPhase::Ask;
        Ok(plan)
    }

    /// The actor answered, or did not after so many attempts.
    pub fn answered(&mut self, answer: Result<(), ActorError>, attempts: u32) -> (r: Result<
        (),
        DispatchError,
    >)
        requires
            old(self).wf(),
            old(self).phase == DispatchPhase::Ask,
        ensures
            final(self).wf(),
            refusal(r) == (match answer {
                Err(e) => Some(DispatchErrorModel::Actor(e, attempts)),
                Ok(_) => None,
            }),
            r is Err ==> *final(self) == *old(self),
            r is Ok ==> *final(self) == old(self).in_phase(DispatchPhase::RunEffects),
    {
        match answer {
            Err(e) => Err(DispatchError::Actor(e, attempts)),
            Ok(_) => {
                self.phase = DispatchPhase::RunEffects;
                Ok(())
            },
        }
    }

    /// What followed the actor's answer was carried out, and the action
    /// succeeded or not. Gives what is done about reactions where nothing has to
    /// be read first.
    pub fn effects_run(&mut self, success: bool) -> (r: Option<FollowUp>)
        requires
            old(self).wf(),
            old(self).phase == DispatchPhase::RunEffects,
        ensures
            final(self).wf(),
            *final(self) == (DispatchRun {
                succeeded: success,
                phase: final(self).phase,
                ..*old(self)
            }),
            if !success || !old(self).plan.has_dispatcher {
                r is None && final(self).phase == DispatchPhase::Return
            } else if old(self).plan.reactions || old(self).plan.timeouts {
                r is None && final(self).phase == DispatchPhase::ReadIntents
            } else {
                r is Some && !r->0.notify_recovery && r->0.reactions is Immediate
                    && final(self).phase == DispatchPhase::Return
            },
    {
        self.succeeded = success;
        if !success || !self.plan.has_dispatcher {
            self.phase = DispatchPhase::Return;
            return None;
        }
        if self.plan.expects_intents() {
            self.phase = DispatchPhase::ReadIntents;
            return None;
        }
        self.phase = DispatchPhase::Return;
        Some(FollowUp { notify_recovery: false, reactions: ReactionFollowUp::Immediate })
    }

    /// The intents of the committed event were read. Where the caller waits for
    /// reactions, they are delivered next; otherwise the answer is given.
    pub fn intents_read(&mut self, intents: Result<Vec<ReactionIntent>, String>) -> (r: Result<
        FollowUp,
        DispatchError,
    >)
        requires
            old(self).wf(),
            old(self).phase == DispatchPhase::ReadIntents,
        ensures
            final(self).wf(),
            refusal(r) == (match intents {
                Err(e) => Some(DispatchErrorModel::Internal(e@)),
                Ok(_) => None,
            }),
            r is Err ==> *final(self) == *old(self),
            r is Ok ==> {
                &&& intents is Ok
                &&& followed_by(intents->Ok_0@, old(self).request.await_reactions, r->Ok_0)
                &&& match r->Ok_0.reactions {
                    ReactionFollowUp::Await(roots) => *final(self) == (DispatchRun {
                        phase: DispatchPhase::Deliver,
                        roots: final(self).roots,
                        ..*old(self)
                    }) && final(self).roots@ == roots@ && final(self).roots.list() == roots.list(),
                    _ => *final(self) == old(self).in_phase(DispatchPhase::Return),
                }
            },
    {
        match intents {
            Err(e) => Err(DispatchError::Internal(e)),
            Ok(intents) => {
                let follow = follow_up(&intents, self.request.await_reactions);
                match &follow.reactions {
                    ReactionFollowUp::Await(roots) => {
                        self.roots = roots.copy();
                        self.phase = DispatchPhase::Deliver;
                    },
                    _ => {
                        self.phase = DispatchPhase::Return;
                    },
                }
                Ok(follow)
            },
        }
    }

    /// The reactions were delivered and the tenant's deliveries drained.
    pub fn delivered(&mut self, delivery: Result<(), String>) -> (r: Result<(), DispatchError>)
        requires
            old(self).wf(),
            old(self).phase == DispatchPhase::Deliver,
        ensures
            final(self).wf(),
            refusal(r) == (match delivery {
                Err(e) => Some(DispatchErrorModel::Internal(e@)),
                Ok(_) => None,
            }),
            r is Err ==> *final(self) == *old(self),
            r is Ok ==> *final(self) == old(self).in_phase(DispatchPhase::Inspect),
    {
        match delivery {
            Err(e) => Err(DispatchError::Internal(e)),
            Ok(_) => {
                self.phase = DispatchPhase::Inspect;
                Ok(())
            },
        }
    }

    /// The tenant's deliveries were listed: the trees of the reactions that the
    /// caller waits for must have ended well.
    pub fn inspected(&mut self, records: Result<Vec<DeliveryRecord>, String>) -> (r: Result<
        (),
        DispatchError,
    >)
        requires
            old(self).wf(),
            old(self).phase == DispatchPhase::Inspect,
        ensures
            final(self).wf(),
            refusal(r) == (if !old(self).plan.has_journal {
                Some(
                    DispatchErrorModel::Internal(
                        "awaited durable reactions require an event journal"@,
                    ),
                )
            } else {
                match records {
                    Err(e) => Some(DispatchErrorModel::Internal(e@)),
                    Ok(list) => match roots_refusal(list@, old(self).roots.list()) {
                        Some(e) => Some(DispatchErrorModel::Internal(e)),
                        None => None,
                    },
                }
            }),
            r is Err ==> *final(self) == *old(self),
            r is Ok ==> *final(self) == old(self).in_phase(DispatchPhase::Return),
    {
        if !self.plan.has_journal {
            return Err(
                DispatchError::Internal(
                    "awaited durable reactions require an event journal".to_owned(),
                ),
            );
        }
        match records {
            Err(e) => Err(DispatchError::Internal(e)),
            Ok(list) => {
                match require_terminal_reaction_roots(&list, &self.roots) {
                    Ok(_) => {},
                    Err(e) => return Err(e),
                }
                self.phase = DispatchPhase::Return;
                Ok(())
            },
        }
    }
}

/// An actor is asked only for an action of a governed type that admission
/// control let through, on an entity that is where its schema pin says.
pub proof fn only_governed_actions_are_asked(run: DispatchRun)
    requires
        run.wf(),
        run.phase == DispatchPhase::Ask,
    ensures
        run.pin_holds,
        run.governed,
        run.actor_resolved,
        run.admitted,
{
}

/// Reactions follow only an action that succeeded.
pub proof fn only_successes_set_off_reactions(run: DispatchRun)
    requires
        run.wf(),
        run.phase == DispatchPhase::ReadIntents || run.phase == DispatchPhase::Deliver || run.phase
            == DispatchPhase::Inspect,
    ensures
        run.succeeded,
{
}

/// What is recorded of an action that its actor did not answer.
pub fn dispatch_failure_text(error: &str) -> (r: String)
    ensures
        r@ == "Actor dispatch failed: "@ + error@,
{
    let mut text = "Actor dispatch failed: ".to_owned();
    text.append(error);
    text
}

/// A dispatch gets past each check exactly where the check passed, in this order:
/// the source, the pin, the spec, the actor, admission and the actor's answer. A
/// check that fails leaves the run as it was, and none changes the request.
pub proof fn a_dispatch_gets_past_passed_checks_only()
    ensures
        forall|run: &mut DispatchRun, source: Result<u64, String>, r: Result<(), DispatchError>|
            run.wf() && run.phase == DispatchPhase::ReadSource && #[trigger] call_ensures(
                DispatchRun::source_read,
                (run, source),
                r,
            ) ==> {
                &&& r is Ok <==> source is Ok && (run.plan.reactions ==> run.plan.has_journal)
                &&& r is Ok ==> final(run).phase == DispatchPhase::CheckPin
                    && final(run).source_sequence == Some(source->Ok_0) && final(run).request
                    == run.request && final(run).plan == run.plan
                &&& r is Err ==> *final(run) == *run
            },
        forall|run: &mut DispatchRun, pin: Result<(), String>, r: Result<(), DispatchError>|
            run.wf() && run.phase == DispatchPhase::CheckPin && #[trigger] call_ensures(
                DispatchRun::pin_checked,
                (run, pin),
                r,
            ) ==> {
                &&& r is Ok <==> pin is Ok
                &&& r is Ok ==> final(run).phase == DispatchPhase::CheckGoverned
                    && final(run).request == run.request && final(run).plan == run.plan
                    && final(run).source_sequence == run.source_sequence
                &&& r is Err ==> *final(run) == *run
            },
        forall|run: &mut DispatchRun, governed: Result<bool, String>, r: Result<(), DispatchError>|
            run.wf() && run.phase == DispatchPhase::CheckGoverned && #[trigger] call_ensures(
                DispatchRun::governed_checked,
                (run, governed),
                r,
            ) ==> {
                &&& r is Ok <==> governed == Ok::<bool, String>(true)
                &&& governed == Ok::<bool, String>(false) ==> r->Err_0@
                    == DispatchErrorModel::Ungoverned(run.request.entity_type@)
                &&& r is Ok ==> final(run).phase == DispatchPhase::ResolveActor
                    && final(run).request == run.request && final(run).plan == run.plan
                    && final(run).source_sequence == run.source_sequence
                &&& r is Err ==> *final(run) == *run
            },
        forall|run: &mut DispatchRun, found: bool, r: Result<(), DispatchError>|
            run.wf() && run.phase == DispatchPhase::ResolveActor && #[trigger] call_ensures(
                DispatchRun::actor_found,
                (run, found),
                r,
            ) ==> {
                &&& r is Ok <==> found
                &&& r is Ok ==> final(run).phase == DispatchPhase::Admit && final(run).request
                    == run.request && final(run).plan == run.plan && final(run).source_sequence
                    == run.source_sequence
                &&& r is Err ==> *final(run) == *run
            },
        forall|
            run: &mut DispatchRun,
            answer: Result<(), ActorError>,
            attempts: u32,
            r: Result<(), DispatchError>,
        |
            run.wf() && run.phase == DispatchPhase::Ask && #[trigger] call_ensures(
                DispatchRun::answered,
                (run, answer, attempts),
                r,
            ) ==> {
                &&& r is Ok <==> answer is Ok
                &&& answer is Err ==> r->Err_0@ == DispatchErrorModel::Actor(
                    answer->Err_0,
                    attempts,
                )
                &&& r is Ok ==> final(run).phase == DispatchPhase::RunEffects
                    && final(run).request == run.request && final(run).plan == run.plan
                &&& r is Err ==> *final(run) == *run
            },
{
}

/// The actor is asked once admission control does not defer the action: under
/// the caller's key and at the caller's sequence where there are such, at the
/// sequence that the reactions were decided on where there is none, and once
/// only where a policy decided on the entity's state.
pub proof fn an_admitted_action_is_asked_as_the_caller_wants()
    ensures
        forall|
            run: &mut DispatchRun,
            outcome: AdmissionOutcome,
            max_attempts: u32,
            fresh: &str,
            r: Result<AskPlan, DispatchError>,
        |
            run.wf() && run.phase == DispatchPhase::Admit && #[trigger] call_ensures(
                DispatchRun::admission,
                (run, outcome, max_attempts, fresh),
                r,
            ) ==> {
                &&& r is Ok <==> !(outcome is Deferred)
                &&& outcome is Deferred ==> *final(run) == *run && r->Err_0@ == (
                DispatchErrorModel::Deferred {
                    retry_after_ms: outcome->Deferred_retry_after_ms,
                })
                &&& r is Ok ==> {
                    let plan = r->Ok_0;
                    &&& final(run).phase == DispatchPhase::Ask
                    &&& final(run).request == run.request
                    &&& run.request.has_precondition ==> plan.max_attempts == 1
                    &&& !run.request.has_precondition ==> plan.max_attempts == max_attempts
                    &&& run.request.expected_sequence is Some ==> plan.expected_sequence
                        == run.request.expected_sequence
                    &&& run.request.expected_sequence is None ==> plan.expected_sequence
                        == run.source_sequence
                    &&& run.request.idempotency_key is Some ==> plan.idempotency_key@
                        == run.request.idempotency_key->0@
                }
            },
{
}

/// The survey reads the source exactly where reactions or timeouts are committed
/// with the event, and refuses a composite whose caller brings sub-writes.
pub proof fn a_survey_decides_what_is_committed()
    ensures
        forall|
            run: &mut DispatchRun,
            composite: bool,
            has_dispatcher: bool,
            has_rules: bool,
            has_journal: bool,
            declares_timeouts: bool,
            r: Result<(), DispatchError>,
        |
            run.wf() && run.phase == DispatchPhase::Survey && #[trigger] call_ensures(
                DispatchRun::surveyed,
                (run, composite, has_dispatcher, has_rules, has_journal, declares_timeouts),
                r,
            ) ==> {
                let brings = crate::json::member(run.request.params@, "sub_writes"@) is Some
                    || crate::json::member(run.request.params@, "SubWrites"@) is Some;
                &&& r is Err <==> composite && brings
                &&& r is Err ==> *final(run) == *run
                &&& r is Ok ==> {
                    &&& final(run).request == run.request
                    &&& final(run).plan.reactions <==> has_dispatcher && has_rules
                    &&& final(run).plan.timeouts <==> has_journal && declares_timeouts
                    &&& final(run).plan.has_journal == has_journal
                    &&& final(run).plan.has_dispatcher == has_dispatcher
                    &&& final(run).phase == if has_dispatcher && (has_rules || (has_journal
                        && declares_timeouts)) {
                        DispatchPhase::ReadSource
                    } else {
                        DispatchPhase::CheckPin
                    }
                }
            },
{
}

/// Reactions follow a success only, and where something can dispatch them: from
/// the intents that were committed where there may be such, else at once.
pub proof fn reactions_follow_a_success_only()
    ensures
        forall|run: &mut DispatchRun, success: bool, r: Option<FollowUp>|
            run.wf() && run.phase == DispatchPhase::RunEffects && #[trigger] call_ensures(
                DispatchRun::effects_run,
                (run, success),
                r,
            ) ==> {
                let follows = success && run.plan.has_dispatcher;
                let committed = run.plan.reactions || run.plan.timeouts;
                &&& final(run).request == run.request
                &&& final(run).plan == run.plan
                &&& final(run).succeeded == success
                &&& r is Some <==> follows && !committed
                &&& r is Some ==> r->0.reactions is Immediate && !r->0.notify_recovery
                &&& final(run).phase == if follows && committed {
                    DispatchPhase::ReadIntents
                } else {
                    DispatchPhase::Return
                }
            },
{
}

/// A caller that waits is answered only once the reactions that were committed
/// were delivered and all of their trees ended well.
pub proof fn a_waiting_caller_is_answered_last()
    ensures
        forall|
            run: &mut DispatchRun,
            intents: Result<Vec<ReactionIntent>, String>,
            r: Result<FollowUp, DispatchError>,
        |
            run.wf() && run.phase == DispatchPhase::ReadIntents && #[trigger] call_ensures(
                DispatchRun::intents_read,
                (run, intents),
                r,
            ) ==> {
                &&& r is Ok <==> intents is Ok
                &&& r is Ok ==> {
                    let waits = run.request.await_reactions && exists|i: int|
                        0 <= i < intents->Ok_0@.len() && (
                        #[trigger] intents->Ok_0@[i]).is_reaction;
                    &&& final(run).phase == if waits {
                        DispatchPhase::Deliver
                    } else {
                        DispatchPhase::Return
                    }
                    &&& waits ==> forall|root: Seq<char>| #[trigger]
                        final(run).roots@.contains(root) <==> exists|i: int|
                            0 <= i < intents->Ok_0@.len() && (
                            #[trigger] intents->Ok_0@[i]).is_reaction
                                && intents->Ok_0@[i].root_delivery_id@ == root
                    &&& final(run).request == run.request
                    &&& final(run).plan == run.plan
                }
            },
        forall|run: &mut DispatchRun, delivery: Result<(), String>, r: Result<(), DispatchError>|
            run.wf() && run.phase == DispatchPhase::Deliver && #[trigger] call_ensures(
                DispatchRun::delivered,
                (run, delivery),
                r,
            ) ==> {
                &&& r is Ok <==> delivery is Ok
                &&& r is Ok ==> final(run).phase == DispatchPhase::Inspect && final(run).roots
                    == run.roots
                &&& r is Err ==> *final(run) == *run
            },
{
    assert forall|
        run: &mut DispatchRun,
        intents: Result<Vec<ReactionIntent>, String>,
        r: Result<FollowUp, DispatchError>,
    |
        run.wf() && run.phase == DispatchPhase::ReadIntents && #[trigger] call_ensures(
            DispatchRun::intents_read,
            (run, intents),
            r,
        ) && r is Ok implies ({
        let waits = run.request.await_reactions && exists|i: int|
            0 <= i < intents->Ok_0@.len() && (#[trigger] intents->Ok_0@[i]).is_reaction;
        final(run).phase == if waits {
            DispatchPhase::Deliver
        } else {
            DispatchPhase::Return
        }
    }) by {
        assert(followed_by(intents->Ok_0@, run.request.await_reactions, r->Ok_0));
    }
}

/// The inspection answers a waiting caller exactly where the journal could be
/// listed, within the budget, and every delivery of every root that the caller
/// waits for is completed.
pub proof fn an_inspected_dispatch_has_ended_well(root: Seq<char>, i: int)
    ensures
        forall|
            run: &mut DispatchRun,
            records: Result<Vec<DeliveryRecord>, String>,
            r: Result<(), DispatchError>,
        |
            run.wf() && run.phase == DispatchPhase::Inspect && #[trigger] call_ensures(
                DispatchRun::inspected,
                (run, records),
                r,
            ) && r is Ok ==> {
                &&& run.plan.has_journal
                &&& records is Ok
                &&& final(run).phase == DispatchPhase::Return
                &&& run.roots@.contains(root) ==> exists|k: int|
                    0 <= k < records->Ok_0@.len() && (
                    #[trigger] records->Ok_0@[k]).root_delivery_id@ == root
                &&& run.roots@.contains(root) && 0 <= i < records->Ok_0@.len()
                    && records->Ok_0@[i].root_delivery_id@ == root ==> records->Ok_0@[i].status
                    == ReactionDeliveryStatus::Completed
            },
{
    assert forall|
        run: &mut DispatchRun,
        records: Result<Vec<DeliveryRecord>, String>,
        r: Result<(), DispatchError>,
    |
        run.wf() && run.phase == DispatchPhase::Inspect && #[trigger] call_ensures(
            DispatchRun::inspected,
            (run, records),
            r,
        ) && r is Ok && run.roots@.contains(root) implies (exists|k: int|
        0 <= k < records->Ok_0@.len() && (#[trigger] records->Ok_0@[k]).root_delivery_id@ == root)
        && (0 <= i < records->Ok_0@.len() && records->Ok_0@[i].root_delivery_id@ == root
        ==> records->Ok_0@[i].status == ReactionDeliveryStatus::Completed) by {
        roots_that_pass_have_ended(records->Ok_0@, run.roots.list(), root, i);
    }
}

} // verus!
