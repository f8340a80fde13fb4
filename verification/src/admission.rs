//! The admission controller: evaluates whether a new application can be added
//! to an opening, and commits a successful evaluation.

use vstd::prelude::*;
use vstd::pervasive::arbitrary;

use crate::application::Application;
use crate::application::ApplicationDeactivationCause;
use crate::application::ApplicationStage;
use crate::application::ApplicationView;
use crate::opening::ActiveOpeningStage;
use crate::opening::copy_elements;
use crate::opening::Opening;
use crate::opening::OpeningStage;
use crate::opening::OpeningStageView;
use crate::opening::OpeningView;
use crate::outcome::AddApplicationError;
use crate::outcome::ApplicationAdded;
use crate::outcome::ApplicationAddedSuccess;
use crate::outcome::DestructuredApplicationCanBeAddedEvaluation;
use crate::outcome::EvaluationView;
use crate::registry::Hiring;
use crate::stake::spec_required_unstaking_period;
use crate::stake::spec_validate_stake;
use crate::stake::validate_stake;
use crate::stake::StakePurpose;
use crate::stake::StakeValidationError;
use crate::ApplicationId;
use crate::Balance;
use crate::BlockNumber;
use crate::OpeningId;
use crate::StakeId;

verus! {

/// The classified outcome the admission evaluation owes: exactly one of these
/// holds for any registry state and any request.
pub enum CanAddOutcome {
    /// No opening has the given identifier.
    OpeningDoesNotExist,
    /// A supplied stake failed validation against the opening's policies.
    StakeError(StakeValidationError),
    /// The opening is not accepting applications.
    NotAccepting,
    /// The rationing cap is reached and the candidate does not outrank the
    /// weakest active applicant.
    CrowdedOut,
    /// The opening's counters contradict its recorded applications; correct
    /// commit discipline can never produce this.
    Broken,
    /// The candidate would be admitted, as classified.
    Admit(ApplicationAddedSuccess),
}

/// Record of the weakest active applicant of an opening: its identifier, its
/// total effective stake, and its position in arrival order.
pub struct WeakestApplicant {
    pub application_id: ApplicationId,
    pub total_stake: int,
    pub position: int,
}

/// The [`AddApplicationError`] a stake validation failure propagates as.
pub open spec fn spec_stake_error_to_add_error(e: StakeValidationError) -> AddApplicationError {
    match e {
        StakeValidationError::StakeProvidedWhenRedundant(purpose) => AddApplicationError::StakeProvidedWhenRedundant(
            purpose,
        ),
        StakeValidationError::StakeMissingWhenRequired(purpose) => AddApplicationError::StakeMissingWhenRequired(
            purpose,
        ),
        StakeValidationError::StakeAmountTooLow(purpose) => AddApplicationError::StakeAmountTooLow(
            purpose,
        ),
    }
}

/// Maps a stake validation failure to the admission error that reports it.
pub fn stake_error_to_add_error(e: StakeValidationError) -> (r: AddApplicationError)
    ensures
        r == spec_stake_error_to_add_error(e),
{
    match e {
        StakeValidationError::StakeProvidedWhenRedundant(purpose) => AddApplicationError::StakeProvidedWhenRedundant(
            purpose,
        ),
        StakeValidationError::StakeMissingWhenRequired(purpose) => AddApplicationError::StakeMissingWhenRequired(
            purpose,
        ),
        StakeValidationError::StakeAmountTooLow(purpose) => AddApplicationError::StakeAmountTooLow(
            purpose,
        ),
    }
}

/// The candidate's total effective stake: its supplied amounts together.
pub open spec fn spec_candidate_total(
    opt_role_stake: Option<Balance>,
    opt_application_stake: Option<Balance>,
) -> int {
    (match opt_role_stake {
        Option::Some(amount) => amount as int,
        Option::None => 0,
    }) + (match opt_application_stake {
        Option::Some(amount) => amount as int,
        Option::None => 0,
    })
}

impl Hiring {
    /// Whether this identifier names an application in its active stage.
    pub open spec fn spec_is_active_application(self, application_id: ApplicationId) -> bool {
        application_id < self.applications@.len() && self.applications@[application_id as int].stage
            is Active
    }

    /// The weakest active applicant among the given identifiers, read in
    /// arrival order: the lowest total effective stake ranks weakest, and at
    /// equal stake the later arrival ranks weaker.
    pub open spec fn spec_weakest_applicant(self, added: Seq<ApplicationId>) -> Option<
        WeakestApplicant,
    >
        decreases added.len(),
    {
        if added.len() == 0 {
            None
        } else {
            let prev = self.spec_weakest_applicant(added.drop_last());
            let position = added.len() - 1;
            let application_id = added.last();
            if !self.spec_is_active_application(application_id) {
                prev
            } else {
                let total = self.spec_total_stake(self.applications@[application_id as int]);
                match prev {
                    Option::None => Some(
                        WeakestApplicant { application_id, total_stake: total, position },
                    ),
                    Option::Some(w) => if total < w.total_stake || (total == w.total_stake
                        && position > w.position) {
                        Some(WeakestApplicant { application_id, total_stake: total, position })
                    } else {
                        Some(w)
                    },
                }
            }
        }
    }

    /// A weakest applicant, when one exists, is an active application listed
    /// at its reported position, with its reported total stake.
    pub proof fn lemma_weakest_is_active(self, added: Seq<ApplicationId>)
        ensures
            self.spec_weakest_applicant(added) matches Option::Some(w) ==> {
                &&& self.spec_is_active_application(w.application_id)
                &&& 0 <= w.position < added.len()
                &&& added[w.position] == w.application_id
                &&& w.total_stake == self.spec_total_stake(
                    self.applications@[w.application_id as int],
                )
            },
        decreases added.len(),
    {
        if added.len() > 0 {
            self.lemma_weakest_is_active(added.drop_last());
        }
    }

    /// The outcome of the rationing rule: without a policy, or below the cap,
    /// admission is unconditional; at the cap the candidate is admitted only
    /// by outranking the weakest active applicant, which it then crowds out.
    pub open spec fn spec_admission_outcome(
        self,
        rationing: Option<crate::opening::ApplicationRationingPolicy>,
        added: Seq<ApplicationId>,
        active_application_count: u32,
        candidate_total: int,
    ) -> CanAddOutcome {
        match rationing {
            Option::None => CanAddOutcome::Admit(ApplicationAddedSuccess::Unconditionally),
            Option::Some(policy) => if active_application_count < policy.max_active_applicants {
                CanAddOutcome::Admit(ApplicationAddedSuccess::Unconditionally)
            } else {
                match self.spec_weakest_applicant(added) {
                    Option::None => if active_application_count > 0 {
                        CanAddOutcome::Broken
                    } else {
                        CanAddOutcome::CrowdedOut
                    },
                    Option::Some(w) => if candidate_total > w.total_stake {
                        CanAddOutcome::Admit(
                            ApplicationAddedSuccess::CrowdsOutExistingApplication(
                                w.application_id,
                            ),
                        )
                    } else {
                        CanAddOutcome::CrowdedOut
                    },
                }
            },
        }
    }

    /// The outcome `ensure_can_add_application` owes, checked in order: the
    /// opening must exist; the role stake and then the application stake must
    /// validate against their policies; the opening must be accepting
    /// applications; and the rationing rule must admit the candidate.
    pub open spec fn spec_can_add_outcome(
        self,
        opening_id: OpeningId,
        opt_role_stake: Option<Balance>,
        opt_application_stake: Option<Balance>,
    ) -> CanAddOutcome {
        if !self.spec_has_opening(opening_id) {
            CanAddOutcome::OpeningDoesNotExist
        } else {
            let o = self.spec_opening(opening_id);
            match spec_validate_stake(StakePurpose::Role, opt_role_stake, o.role_staking_policy) {
                Err(e) => CanAddOutcome::StakeError(e),
                Ok(_) => match spec_validate_stake(
                    StakePurpose::Application,
                    opt_application_stake,
                    o.application_staking_policy,
                ) {
                    Err(e) => CanAddOutcome::StakeError(e),
                    Ok(_) => match o.stage {
                        OpeningStage::Active {
                            stage: ActiveOpeningStage::AcceptingApplications { .. },
                            applications_added,
                            active_application_count,
                            ..
                        } => self.spec_admission_outcome(
                            o.application_rationing_policy,
                            applications_added@,
                            active_application_count,
                            spec_candidate_total(opt_role_stake, opt_application_stake),
                        ),
                        _ => CanAddOutcome::NotAccepting,
                    },
                },
            }
        }
    }

    /// The evaluation snapshot a successful admission check owes: the opening
    /// as read, its active sub-stage and bookkeeping, and the classification.
    pub open spec fn spec_expected_evaluation(
        self,
        opening_id: OpeningId,
        success: ApplicationAddedSuccess,
    ) -> EvaluationView {
        let o = self.spec_opening(opening_id);
        match o.stage {
            OpeningStage::Active {
                stage,
                applications_added,
                active_application_count,
                unstaking_application_count,
                deactivated_application_count,
            } => EvaluationView {
                opening: o@,
                active_stage: stage,
                applications_added: applications_added@,
                active_application_count,
                unstaking_application_count,
                deactivated_application_count,
                would_get_added_success: success,
            },
            _ => arbitrary(),
        }
    }

    /// How a rejecting outcome shows in a result, whatever the success type.
    pub open spec fn spec_rejection_matches<A>(
        outcome: CanAddOutcome,
        r: Result<A, AddApplicationError>,
    ) -> bool {
        match outcome {
            CanAddOutcome::OpeningDoesNotExist => r == Err::<A, AddApplicationError>(
                AddApplicationError::OpeningDoesNotExist,
            ),
            CanAddOutcome::StakeError(e) => r == Err::<A, AddApplicationError>(
                spec_stake_error_to_add_error(e),
            ),
            CanAddOutcome::NotAccepting => r == Err::<A, AddApplicationError>(
                AddApplicationError::OpeningNotInAcceptingApplicationsStage,
            ),
            CanAddOutcome::CrowdedOut => r == Err::<A, AddApplicationError>(
                AddApplicationError::NewApplicationWasCrowdedOut,
            ),
            CanAddOutcome::Broken => r matches Err(AddApplicationError::BrokenInvariant(_)),
            CanAddOutcome::Admit(_) => r is Ok,
        }
    }

    /// What `ensure_can_add_application` owes: the result reflects the
    /// classified outcome, and a success carries the evaluation snapshot.
    pub open spec fn can_add_result_matches(
        self,
        opening_id: OpeningId,
        opt_role_stake: Option<Balance>,
        opt_application_stake: Option<Balance>,
        r: Result<DestructuredApplicationCanBeAddedEvaluation, AddApplicationError>,
    ) -> bool {
        let outcome = self.spec_can_add_outcome(opening_id, opt_role_stake, opt_application_stake);
        &&& Self::spec_rejection_matches(outcome, r)
        &&& (outcome matches CanAddOutcome::Admit(success) ==> r matches Ok(evaluation)
            && evaluation@ == self.spec_expected_evaluation(opening_id, success))
    }

    /// The total effective stake of an application, as recorded.
    fn total_stake_of(&self, application: &Application) -> (total: u128)
        ensures
            total as int == self.spec_total_stake(*application),
    {
        let role_amount: u64 = match application.active_role_staking_id {
            Some(stake_id) => if stake_id < self.stake_amounts.len() {
                self.stake_amounts[stake_id]
            } else {
                0
            },
            None => 0,
        };
        let application_amount: u64 = match application.active_application_staking_id {
            Some(stake_id) => if stake_id < self.stake_amounts.len() {
                self.stake_amounts[stake_id]
            } else {
                0
            },
            None => 0,
        };
        role_amount as u128 + application_amount as u128
    }

    /// Relation between the running fold of the scan and its specification.
    pub open spec fn weakest_fold_matches(
        self,
        scanned: Seq<ApplicationId>,
        best: Option<(ApplicationId, u128, usize)>,
    ) -> bool {
        match (best, self.spec_weakest_applicant(scanned)) {
            (Option::None, Option::None) => true,
            (Option::Some((application_id, total, position)), Option::Some(w)) => {
                &&& w.application_id == application_id
                &&& w.total_stake == total as int
                &&& w.position == position as int
            },
            _ => false,
        }
    }

    /// Scans the added applications in arrival order for the weakest active
    /// applicant, returning its identifier and total effective stake.
    fn weakest_active_applicant(&self, added: &Vec<ApplicationId>) -> (r: Option<
        (ApplicationId, u128),
    >)
        ensures
            match (r, self.spec_weakest_applicant(added@)) {
                (Option::None, Option::None) => true,
                (Option::Some((application_id, total)), Option::Some(w)) => w.application_id
                    == application_id && w.total_stake == total as int,
                _ => false,
            },
    {
        let mut best: Option<(ApplicationId, u128, usize)> = None;
        let mut j: usize = 0;
        while j < added.len()
            invariant
                j <= added.len(),
                self.weakest_fold_matches(added@.take(j as int), best),
            decreases added.len() - j,
        {
            let application_id = added[j];
            if application_id < self.applications.len() {
                let is_active = match self.applications[application_id].stage {
                    ApplicationStage::Active => true,
                    _ => false,
                };
                if is_active {
                    let total = self.total_stake_of(&self.applications[application_id]);
                    best = match best {
                        None => Some((application_id, total, j)),
                        Some((best_id, best_total, best_position)) => {
                            if total < best_total || (total == best_total && j > best_position) {
                                Some((application_id, total, j))
                            } else {
                                Some((best_id, best_total, best_position))
                            }
                        },
                    };
                }
            }
            proof {
                assert(added@.take(j as int + 1).drop_last() =~= added@.take(j as int));
                assert(added@.take(j as int + 1).last() == added@[j as int]);
            }
            j = j + 1;
        }
        proof {
            assert(added@.take(added@.len() as int) =~= added@);
        }
        match best {
            None => None,
            Some((application_id, total, _)) => Some((application_id, total)),
        }
    }

    /// Admission controller, read-only: evaluates whether an application with
    /// the given optional stakes could be added to the opening, without
    /// mutating anything. Committing is [`Hiring::add_application`].
    pub fn ensure_can_add_application(
        &self,
        opening_id: OpeningId,
        opt_role_stake: Option<Balance>,
        opt_application_stake: Option<Balance>,
    ) -> (r: Result<DestructuredApplicationCanBeAddedEvaluation, AddApplicationError>)
        ensures
            self.can_add_result_matches(opening_id, opt_role_stake, opt_application_stake, r),
    {
        if opening_id >= self.openings.len() {
            return Err(AddApplicationError::OpeningDoesNotExist);
        }
        let o = &self.openings[opening_id];
        if let Err(e) = validate_stake(StakePurpose::Role, opt_role_stake, &o.role_staking_policy) {
            return Err(stake_error_to_add_error(e));
        }
        if let Err(e) = validate_stake(
            StakePurpose::Application,
            opt_application_stake,
            &o.application_staking_policy,
        ) {
            return Err(stake_error_to_add_error(e));
        }
        match &o.stage {
            OpeningStage::Active {
                stage,
                applications_added,
                active_application_count,
                unstaking_application_count,
                deactivated_application_count,
            } => {
                let accepting = match stage {
                    ActiveOpeningStage::AcceptingApplications { .. } => true,
                    _ => false,
                };
                if !accepting {
                    return Err(AddApplicationError::OpeningNotInAcceptingApplicationsStage);
                }
                let success: ApplicationAddedSuccess = match &o.application_rationing_policy {
                    None => ApplicationAddedSuccess::Unconditionally,
                    Some(policy) => {
                        if *active_application_count < policy.max_active_applicants {
                            ApplicationAddedSuccess::Unconditionally
                        } else {
                            match self.weakest_active_applicant(applications_added) {
                                None => {
                                    if *active_application_count > 0 {
                                        return Err(
                                            AddApplicationError::BrokenInvariant(
                                                "the active application count of the opening does not match its records",
                                            ),
                                        );
                                    }
                                    return Err(AddApplicationError::NewApplicationWasCrowdedOut);
                                },
                                Some((weakest_id, weakest_total)) => {
                                    let role_amount: u64 = match opt_role_stake {
                                        Some(amount) => amount,
                                        None => 0,
                                    };
                                    let application_amount: u64 = match opt_application_stake {
                                        Some(amount) => amount,
                                        None => 0,
                                    };
                                    let candidate_total: u128 = role_amount as u128
                                        + application_amount as u128;
                                    if candidate_total > weakest_total {
                                        ApplicationAddedSuccess::CrowdsOutExistingApplication(
                                            weakest_id,
                                        )
                                    } else {
                                        return Err(
                                            AddApplicationError::NewApplicationWasCrowdedOut,
                                        );
                                    }
                                },
                            }
                        }
                    },
                };
                let evaluation = DestructuredApplicationCanBeAddedEvaluation {
                    opening: o.duplicate(),
                    active_stage: *stage,
                    applications_added: copy_elements(applications_added),
                    active_application_count: *active_application_count,
                    unstaking_application_count: *unstaking_application_count,
                    deactivated_application_count: *deactivated_application_count,
                    would_get_added_success: success,
                };
                proof {
                    assert(evaluation@ =~= self.spec_expected_evaluation(opening_id, success));
                }
                Ok(evaluation)
            },
            _ => Err(AddApplicationError::OpeningNotInAcceptingApplicationsStage),
        }
    }
}


impl Hiring {
    /// Machine limit: the opening, if it exists and is active, still has room
    /// for one more added application in its 32-bit counters.
    pub open spec fn spec_room_for_application(self, opening_id: OpeningId) -> bool {
        self.spec_has_opening(opening_id) ==> match self.spec_opening(opening_id).stage {
            OpeningStage::Active { applications_added, .. } => applications_added@.len()
                < u32::MAX as int,
            _ => true,
        }
    }

    /// The handle a committed role stake receives: the next stake key, when a
    /// role stake is supplied.
    pub open spec fn spec_new_role_stake_id(self, opt_role_stake: Option<Balance>) -> Option<
        StakeId,
    > {
        match opt_role_stake {
            Option::Some(_) => Some(self.stake_amounts@.len() as StakeId),
            Option::None => None,
        }
    }

    /// The handle a committed application stake receives: the key after the
    /// role stake's, when an application stake is supplied.
    pub open spec fn spec_new_application_stake_id(
        self,
        opt_role_stake: Option<Balance>,
        opt_application_stake: Option<Balance>,
    ) -> Option<StakeId> {
        match opt_application_stake {
            Option::Some(_) => Some(
                (self.stake_amounts@.len() + (if opt_role_stake is Some {
                    1int
                } else {
                    0int
                })) as StakeId,
            ),
            Option::None => None,
        }
    }

    /// The recorded stake amounts after committing the supplied stakes, role
    /// stake first.
    pub open spec fn spec_pushed_stakes(
        self,
        opt_role_stake: Option<Balance>,
        opt_application_stake: Option<Balance>,
    ) -> Seq<Balance> {
        let with_role = match opt_role_stake {
            Option::Some(amount) => self.stake_amounts@.push(amount),
            Option::None => self.stake_amounts@,
        };
        match opt_application_stake {
            Option::Some(amount) => with_role.push(amount),
            Option::None => with_role,
        }
    }

    /// The application record after deactivation is initiated at
    /// `current_block` with `cause`: it moves to unstaking when
    /// `to_unstaking`, else directly to inactive, dropping its stake handles.
    pub open spec fn spec_deactivated_application(
        a: Application,
        to_unstaking: bool,
        current_block: BlockNumber,
        cause: ApplicationDeactivationCause,
    ) -> ApplicationView {
        ApplicationView {
            stage: if to_unstaking {
                ApplicationStage::Unstaking { deactivation_initiated: current_block, cause }
            } else {
                ApplicationStage::Inactive {
                    deactivation_initiated: current_block,
                    deactivated: current_block,
                    cause,
                }
            },
            active_role_staking_id: if to_unstaking {
                a.active_role_staking_id
            } else {
                None
            },
            active_application_staking_id: if to_unstaking {
                a.active_application_staking_id
            } else {
                None
            },
            ..a@
        }
    }

    /// Whether deactivating this application for this cause passes through
    /// the unstaking stage: it does exactly when some stake it holds has a
    /// policy stipulating a non-zero unstaking period for the cause.
    pub open spec fn spec_deactivation_needs_unstaking(
        o: Opening,
        a: Application,
        cause: ApplicationDeactivationCause,
    ) -> bool {
        ||| (a.active_role_staking_id is Some && (o.role_staking_policy
            matches Option::Some(policy) && spec_required_unstaking_period(policy, cause) > 0))
        ||| (a.active_application_staking_id is Some && (o.application_staking_policy
            matches Option::Some(policy) && spec_required_unstaking_period(policy, cause) > 0))
    }

    /// The opening's stage after committing an admission: the new identifier
    /// is appended and the counters move by the classification: an
    /// unconditional admission adds an active application; a crowd-out keeps
    /// the active count and moves the displaced application to unstaking or
    /// deactivated.
    pub open spec fn spec_admitted_stage_view(
        stage: OpeningStageView,
        new_id: ApplicationId,
        success: ApplicationAddedSuccess,
        crowded_out_to_unstaking: bool,
    ) -> OpeningStageView {
        match stage {
            OpeningStageView::Active {
                stage: sub_stage,
                applications_added,
                active_application_count,
                unstaking_application_count,
                deactivated_application_count,
            } => {
                let crowds = success matches ApplicationAddedSuccess::CrowdsOutExistingApplication(
                    _,
                );
                OpeningStageView::Active {
                    stage: sub_stage,
                    applications_added: applications_added.push(new_id),
                    active_application_count: if crowds {
                        active_application_count
                    } else {
                        (active_application_count + 1) as u32
                    },
                    unstaking_application_count: if crowds && crowded_out_to_unstaking {
                        (unstaking_application_count + 1) as u32
                    } else {
                        unstaking_application_count
                    },
                    deactivated_application_count: if crowds && !crowded_out_to_unstaking {
                        (deactivated_application_count + 1) as u32
                    } else {
                        deactivated_application_count
                    },
                }
            },
            _ => stage,
        }
    }

    /// Admission controller, committing: re-evaluates the request and, on
    /// success, inserts the new application, records its stakes, updates the
    /// opening's bookkeeping, and initiates deactivation of a crowded-out
    /// application with the crowded-out cause and its policy's unstaking
    /// periods.
    pub fn add_application(
        &mut self,
        opening_id: OpeningId,
        opt_role_stake: Option<Balance>,
        opt_application_stake: Option<Balance>,
        human_readable_text: Vec<u8>,
        current_block: BlockNumber,
    ) -> (r: Result<ApplicationAdded, AddApplicationError>)
        requires
            old(self).wf(),
            old(self).spec_room_for_application(opening_id),
        ensures
            final(self).wf(),
            Self::spec_rejection_matches(
                old(self).spec_can_add_outcome(opening_id, opt_role_stake, opt_application_stake),
                r,
            ),
            !(old(self).spec_can_add_outcome(opening_id, opt_role_stake, opt_application_stake)
                matches CanAddOutcome::Admit(_)) ==> *final(self) == *old(self),
            old(self).spec_can_add_outcome(opening_id, opt_role_stake, opt_application_stake)
                matches CanAddOutcome::Admit(success) ==> {
                let new_id = old(self).applications@.len() as ApplicationId;
                let o_old = old(self).spec_opening(opening_id);
                let crowded = match success {
                    ApplicationAddedSuccess::CrowdsOutExistingApplication(weakest) => Some(weakest),
                    ApplicationAddedSuccess::Unconditionally => None,
                };
                &&& r == Ok::<ApplicationAdded, AddApplicationError>(
                    ApplicationAdded {
                        application_id_added: new_id,
                        application_id_crowded_out: crowded,
                    },
                )
                &&& final(self).openings@.len() == old(self).openings@.len()
                &&& (forall|i: int|
                    0 <= i < old(self).openings@.len() && i != opening_id ==> final(self).openings@[i] == old(self).openings@[i])
                &&& final(self).applications@.len() == old(self).applications@.len() + 1
                &&& final(self).applications@.last()@ == (ApplicationView {
                    opening_id,
                    application_index_in_opening: o_old@.stage.added().len() as u32,
                    add_to_opening_in_block: current_block,
                    active_role_staking_id: old(self).spec_new_role_stake_id(opt_role_stake),
                    active_application_staking_id: old(self).spec_new_application_stake_id(
                        opt_role_stake,
                        opt_application_stake,
                    ),
                    stage: ApplicationStage::Active,
                    human_readable_text: human_readable_text@,
                })
                &&& final(self).stake_amounts@ == old(self).spec_pushed_stakes(
                    opt_role_stake,
                    opt_application_stake,
                )
                &&& (success matches ApplicationAddedSuccess::Unconditionally ==> {
                    &&& (forall|i: int|
                        0 <= i < old(self).applications@.len() ==> final(self).applications@[i]
                            == old(self).applications@[i])
                    &&& final(self).spec_opening(opening_id)@ == (OpeningView {
                        stage: Self::spec_admitted_stage_view(
                            o_old@.stage,
                            new_id,
                            success,
                            false,
                        ),
                        ..o_old@
                    })
                })
                &&& (success matches ApplicationAddedSuccess::CrowdsOutExistingApplication(weakest)
                    ==> {
                    let target = old(self).applications@[weakest as int];
                    let to_unstaking = Self::spec_deactivation_needs_unstaking(
                        o_old,
                        target,
                        ApplicationDeactivationCause::CrowdedOut,
                    );
                    &&& weakest < old(self).applications@.len()
                    &&& final(self).applications@[weakest as int]@
                        == Self::spec_deactivated_application(
                        target,
                        to_unstaking,
                        current_block,
                        ApplicationDeactivationCause::CrowdedOut,
                    )
                    &&& (forall|i: int|
                        0 <= i < old(self).applications@.len() && i != weakest ==> final(self).applications@[i] == old(self).applications@[i])
                    &&& final(self).spec_opening(opening_id)@ == (OpeningView {
                        stage: Self::spec_admitted_stage_view(
                            o_old@.stage,
                            new_id,
                            success,
                            to_unstaking,
                        ),
                        ..o_old@
                    })
                })
            },
    {
        let evaluation = match self.ensure_can_add_application(
            opening_id,
            opt_role_stake,
            opt_application_stake,
        ) {
            Ok(evaluation) => evaluation,
            Err(error) => {
                return Err(error);
            },
        };
        let success = evaluation.would_get_added_success;
        let ghost outcome = old(self).spec_can_add_outcome(
            opening_id,
            opt_role_stake,
            opt_application_stake,
        );
        proof {
            assert(outcome matches CanAddOutcome::Admit(s) && s == success);
        }
        let ghost text_view = human_readable_text@;
        let new_application_id = self.applications.len();
        let added_so_far: usize = match &self.openings[opening_id].stage {
            OpeningStage::Active { applications_added, .. } => applications_added.len(),
            _ => 0,
        };
        proof {
            assert(old(self).opening_bookkeeping_ok(opening_id as int));
        }
        let role_stake_id: Option<StakeId> = match opt_role_stake {
            Some(amount) => {
                let stake_id = self.stake_amounts.len();
                self.stake_amounts.push(amount);
                Some(stake_id)
            },
            None => None,
        };
        let application_stake_id: Option<StakeId> = match opt_application_stake {
            Some(amount) => {
                let stake_id = self.stake_amounts.len();
                self.stake_amounts.push(amount);
                Some(stake_id)
            },
            None => None,
        };
        let application = Application {
            opening_id,
            application_index_in_opening: added_so_far as u32,
            add_to_opening_in_block: current_block,
            active_role_staking_id: role_stake_id,
            active_application_staking_id: application_stake_id,
            stage: ApplicationStage::Active,
            human_readable_text,
        };
        self.applications.push(application);
        let crowded_out: Option<ApplicationId> = match success {
            ApplicationAddedSuccess::CrowdsOutExistingApplication(weakest) => Some(weakest),
            ApplicationAddedSuccess::Unconditionally => None,
        };
        let mut crowded_out_to_unstaking = false;
        if let Some(weakest) = crowded_out {
            proof {
                old(self).lemma_weakest_is_active(old(self).spec_opening(opening_id)@.stage.added());
            }
            let needs_unstaking = {
                let o = &self.openings[opening_id];
                let target = &self.applications[weakest];
                let role_positive = match (&target.active_role_staking_id, &o.role_staking_policy) {
                    (Some(_), Some(policy)) => match policy.crowded_out_unstaking_period_length {
                        Some(period) => period > 0,
                        None => false,
                    },
                    _ => false,
                };
                let application_positive = match (
                    &target.active_application_staking_id,
                    &o.application_staking_policy,
                ) {
                    (Some(_), Some(policy)) => match policy.crowded_out_unstaking_period_length {
                        Some(period) => period > 0,
                        None => false,
                    },
                    _ => false,
                };
                role_positive || application_positive
            };
            let target = &mut self.applications[weakest];
            if needs_unstaking {
                target.stage = ApplicationStage::Unstaking {
                    deactivation_initiated: current_block,
                    cause: ApplicationDeactivationCause::CrowdedOut,
                };
            } else {
                target.stage = ApplicationStage::Inactive {
                    deactivation_initiated: current_block,
                    deactivated: current_block,
                    cause: ApplicationDeactivationCause::CrowdedOut,
                };
                target.active_role_staking_id = None;
                target.active_application_staking_id = None;
            }
            crowded_out_to_unstaking = needs_unstaking;
        }
        let o = &mut self.openings[opening_id];
        match &mut o.stage {
            OpeningStage::Active {
                applications_added,
                active_application_count,
                unstaking_application_count,
                deactivated_application_count,
                ..
            } => {
                applications_added.push(new_application_id);
                match crowded_out {
                    None => {
                        *active_application_count = *active_application_count + 1;
                    },
                    Some(_) => {
                        if crowded_out_to_unstaking {
                            *unstaking_application_count = *unstaking_application_count + 1;
                        } else {
                            *deactivated_application_count = *deactivated_application_count + 1;
                        }
                    },
                }
            },
            _ => {
                proof {
                    assert(false);
                }
            },
        }
        proof {
            let prev = *old(self);
            let o_old = prev.spec_opening(opening_id);
            let new_id = prev.applications@.len() as ApplicationId;
            assert(prev.opening_bookkeeping_ok(opening_id as int));
            assert(self.applications@.last()@ =~= (ApplicationView {
                opening_id,
                application_index_in_opening: o_old@.stage.added().len() as u32,
                add_to_opening_in_block: current_block,
                active_role_staking_id: prev.spec_new_role_stake_id(opt_role_stake),
                active_application_staking_id: prev.spec_new_application_stake_id(
                    opt_role_stake,
                    opt_application_stake,
                ),
                stage: ApplicationStage::Active,
                human_readable_text: text_view,
            }));
            let crowded_ghost = match success {
                ApplicationAddedSuccess::CrowdsOutExistingApplication(weakest) => Some(weakest),
                ApplicationAddedSuccess::Unconditionally => None::<ApplicationId>,
            };
            assert(self.spec_opening(opening_id)@ =~= (OpeningView {
                stage: Self::spec_admitted_stage_view(
                    o_old@.stage,
                    new_id,
                    success,
                    crowded_out_to_unstaking,
                ),
                ..o_old@
            }));
            if let Some(weakest) = crowded_ghost {
                let target = prev.applications@[weakest as int];
                assert(self.applications@[weakest as int]@ =~= Self::spec_deactivated_application(
                    target,
                    Self::spec_deactivation_needs_unstaking(
                        o_old,
                        target,
                        ApplicationDeactivationCause::CrowdedOut,
                    ),
                    current_block,
                    ApplicationDeactivationCause::CrowdedOut,
                ));
            }
            assert forall|oid: int|
                0 <= oid < self.openings@.len() implies #[trigger] self.opening_bookkeeping_ok(
                oid,
            ) by {
                assert(prev.opening_bookkeeping_ok(oid));
                let added_new = self.openings@[oid].stage@.added();
                let added_old = prev.openings@[oid].stage@.added();
                if oid == opening_id as int {
                    assert(added_new =~= added_old.push(new_id));
                    assert forall|i: int|
                        0 <= i < added_new.len() implies {
                            let application_id = #[trigger] added_new[i];
                            &&& application_id < self.applications@.len()
                            &&& self.applications@[application_id as int].opening_id == oid
                            &&& self.applications@[application_id as int].application_index_in_opening
                                as int == i
                        } by {
                        if i < added_old.len() {
                            assert(added_new[i] == added_old[i]);
                        } else {
                            assert(added_new[i] == new_id);
                        }
                    }
                } else {
                    assert(self.openings@[oid] == prev.openings@[oid]);
                    assert forall|i: int|
                        0 <= i < added_new.len() implies {
                            let application_id = #[trigger] added_new[i];
                            &&& application_id < self.applications@.len()
                            &&& self.applications@[application_id as int].opening_id == oid
                            &&& self.applications@[application_id as int].application_index_in_opening
                                as int == i
                        } by {
                        assert(added_new[i] == added_old[i]);
                    }
                }
            }
            assert forall|aid: int|
                0 <= aid < self.applications@.len() implies #[trigger] self.application_record_ok(
                aid,
            ) by {
                if aid < prev.applications@.len() {
                    assert(prev.application_record_ok(aid));
                } else {
                    assert(self.applications@[aid] == self.applications@.last());
                }
            }
        }
        Ok(ApplicationAdded {
            application_id_added: new_application_id,
            application_id_crowded_out: crowded_out,
        })
    }
}


} // verus!
