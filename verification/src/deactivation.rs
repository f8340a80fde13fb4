//! The deactivation controller: evaluates and commits the move of an
//! application out of its active stage, and completes unstaking.

use vstd::prelude::*;

use crate::application::ApplicationDeactivationCause;
use crate::application::ApplicationStage;
use crate::opening::copy_elements;
use crate::opening::ActiveOpeningStage;
use crate::opening::Opening;
use crate::opening::OpeningDeactivationCause;
use crate::opening::OpeningStage;
use crate::opening::OpeningStageView;
use crate::opening::OpeningView;
use crate::outcome::CancelOpeningError;
use crate::outcome::CompleteUnstakingError;
use crate::outcome::ExpireReviewPeriodError;
use crate::outcome::FillOpeningError;
use crate::outcome::DeactivateApplicationError;
use crate::registry::Hiring;
use crate::stake::spec_validate_unstaking_period;
use crate::stake::validate_unstaking_period;
use crate::stake::StakePurpose;
use crate::stake::StakingPolicy;
use crate::stake::UnstakingPeriodError;
use crate::ApplicationId;
use crate::OpeningId;
use crate::BlockNumber;
use crate::StakeId;

verus! {

/// The settled unstaking period for one purpose, or why none could settle.
pub enum PeriodOutcome {
    /// The stake (if any) unstakes over this many blocks; zero means at once.
    Settled(BlockNumber),
    /// The supplied period violates the policy.
    Rejected(UnstakingPeriodError),
    /// The application holds a stake its opening's policies do not require;
    /// correct commit discipline can never produce this.
    Inconsistent,
}

/// The classified outcome the deactivation evaluation owes.
pub enum DeactivateOutcome {
    /// No application has the given identifier.
    NoApplication,
    /// The application is not in its active stage.
    NotActive,
    /// The opening is not in a stage that admits individual deactivation.
    OpeningNotAccepting,
    /// A supplied unstaking period violates a policy.
    PeriodError(UnstakingPeriodError),
    /// The records contradict each other; correct commit discipline can
    /// never produce this.
    Broken,
    /// Deactivation proceeds, through the unstaking stage when some settled
    /// period is non-zero.
    Deactivate { to_unstaking: bool },
}

/// The [`DeactivateApplicationError`] an unstaking-period failure propagates
/// as.
pub open spec fn spec_period_error_to_deactivate_error(e: UnstakingPeriodError) -> DeactivateApplicationError {
    match e {
        UnstakingPeriodError::UnstakingPeriodTooShort(purpose) => DeactivateApplicationError::UnstakingPeriodTooShort(
            purpose,
        ),
        UnstakingPeriodError::RedundantUnstakingPeriodProvided(purpose) => DeactivateApplicationError::RedundantUnstakingPeriodProvided(
            purpose,
        ),
    }
}

/// The settled unstaking period for one purpose: a held stake validates the
/// supplied period against its policy; without a held stake a supplied
/// period is redundant and the purpose settles to zero.
pub open spec fn spec_purpose_period(
    purpose: StakePurpose,
    opt_stake_id: Option<StakeId>,
    opt_policy: Option<StakingPolicy>,
    cause: ApplicationDeactivationCause,
    supplied: Option<BlockNumber>,
) -> PeriodOutcome {
    match opt_stake_id {
        Option::Some(_) => match opt_policy {
            Option::None => PeriodOutcome::Inconsistent,
            Option::Some(policy) => match spec_validate_unstaking_period(
                purpose,
                policy,
                cause,
                supplied,
            ) {
                Ok(period) => PeriodOutcome::Settled(period),
                Err(e) => PeriodOutcome::Rejected(e),
            },
        },
        Option::None => match supplied {
            Option::Some(_) => PeriodOutcome::Rejected(
                UnstakingPeriodError::RedundantUnstakingPeriodProvided(purpose),
            ),
            Option::None => PeriodOutcome::Settled(0),
        },
    }
}

impl Hiring {
    /// The outcome `ensure_application_can_be_deactivated` owes, checked in
    /// order: the application must exist and be active, its opening must be
    /// accepting applications, and the supplied unstaking periods must
    /// validate for the role and then the application stake.
    pub open spec fn spec_deactivate_outcome(
        self,
        application_id: ApplicationId,
        cause: ApplicationDeactivationCause,
        opt_application_stake_unstaking_period: Option<BlockNumber>,
        opt_role_stake_unstaking_period: Option<BlockNumber>,
    ) -> DeactivateOutcome {
        if !self.spec_has_application(application_id) {
            DeactivateOutcome::NoApplication
        } else {
            let a = self.spec_application(application_id);
            if !(a.stage is Active) {
                DeactivateOutcome::NotActive
            } else if !(a.opening_id < self.openings@.len()) {
                DeactivateOutcome::Broken
            } else {
                let o = self.spec_opening(a.opening_id);
                if !o.is_accepting_applications() {
                    DeactivateOutcome::OpeningNotAccepting
                } else {
                    match spec_purpose_period(
                        StakePurpose::Role,
                        a.active_role_staking_id,
                        o.role_staking_policy,
                        cause,
                        opt_role_stake_unstaking_period,
                    ) {
                        PeriodOutcome::Inconsistent => DeactivateOutcome::Broken,
                        PeriodOutcome::Rejected(e) => DeactivateOutcome::PeriodError(e),
                        PeriodOutcome::Settled(role_period) => match spec_purpose_period(
                            StakePurpose::Application,
                            a.active_application_staking_id,
                            o.application_staking_policy,
                            cause,
                            opt_application_stake_unstaking_period,
                        ) {
                            PeriodOutcome::Inconsistent => DeactivateOutcome::Broken,
                            PeriodOutcome::Rejected(e) => DeactivateOutcome::PeriodError(e),
                            PeriodOutcome::Settled(application_period) => DeactivateOutcome::Deactivate {
                                to_unstaking: role_period > 0 || application_period > 0,
                            },
                        },
                    }
                }
            }
        }
    }

    /// How a deactivation outcome shows in a result, whatever the success
    /// type.
    pub open spec fn spec_deactivate_rejection_matches<A>(
        outcome: DeactivateOutcome,
        r: Result<A, DeactivateApplicationError>,
    ) -> bool {
        match outcome {
            DeactivateOutcome::NoApplication => r == Err::<A, DeactivateApplicationError>(
                DeactivateApplicationError::ApplicationDoesNotExist,
            ),
            DeactivateOutcome::NotActive => r == Err::<A, DeactivateApplicationError>(
                DeactivateApplicationError::ApplicationNotActive,
            ),
            DeactivateOutcome::OpeningNotAccepting => r == Err::<A, DeactivateApplicationError>(
                DeactivateApplicationError::OpeningNotAcceptingApplications,
            ),
            DeactivateOutcome::PeriodError(e) => r == Err::<A, DeactivateApplicationError>(
                spec_period_error_to_deactivate_error(e),
            ),
            DeactivateOutcome::Broken => r matches Err(
                DeactivateApplicationError::BrokenInvariant(_),
            ),
            DeactivateOutcome::Deactivate { .. } => r is Ok,
        }
    }

    /// The settled role and application unstaking periods of a deactivation
    /// request, or the error that rejects it.
    fn deactivation_periods(
        &self,
        application_id: ApplicationId,
        cause: ApplicationDeactivationCause,
        opt_application_stake_unstaking_period: Option<BlockNumber>,
        opt_role_stake_unstaking_period: Option<BlockNumber>,
    ) -> (r: Result<(BlockNumber, BlockNumber), DeactivateApplicationError>)
        ensures
            Self::spec_deactivate_rejection_matches(
                self.spec_deactivate_outcome(
                    application_id,
                    cause,
                    opt_application_stake_unstaking_period,
                    opt_role_stake_unstaking_period,
                ),
                r,
            ),
            self.spec_deactivate_outcome(
                application_id,
                cause,
                opt_application_stake_unstaking_period,
                opt_role_stake_unstaking_period,
            ) matches DeactivateOutcome::Deactivate { to_unstaking } ==> r matches Ok(periods)
                && (to_unstaking <==> (periods.0 > 0 || periods.1 > 0)),
    {
        if application_id >= self.applications.len() {
            return Err(DeactivateApplicationError::ApplicationDoesNotExist);
        }
        let a = &self.applications[application_id];
        match a.stage {
            ApplicationStage::Active => {},
            _ => {
                return Err(DeactivateApplicationError::ApplicationNotActive);
            },
        }
        if a.opening_id >= self.openings.len() {
            return Err(
                DeactivateApplicationError::BrokenInvariant(
                    "the application names an opening the registry does not hold",
                ),
            );
        }
        let o = &self.openings[a.opening_id];
        let accepting = match &o.stage {
            OpeningStage::Active {
                stage: ActiveOpeningStage::AcceptingApplications { .. },
                ..
            } => true,
            _ => false,
        };
        if !accepting {
            return Err(DeactivateApplicationError::OpeningNotAcceptingApplications);
        }
        let role_period: BlockNumber = match (a.active_role_staking_id, &o.role_staking_policy) {
            (Some(_), Some(policy)) => match validate_unstaking_period(
                StakePurpose::Role,
                policy,
                cause,
                opt_role_stake_unstaking_period,
            ) {
                Ok(period) => period,
                Err(e) => {
                    return Err(period_error_to_deactivate_error(e));
                },
            },
            (Some(_), None) => {
                return Err(
                    DeactivateApplicationError::BrokenInvariant(
                        "the application holds a role stake its opening's policy does not require",
                    ),
                );
            },
            (None, _) => match opt_role_stake_unstaking_period {
                Some(_) => {
                    return Err(
                        DeactivateApplicationError::RedundantUnstakingPeriodProvided(
                            StakePurpose::Role,
                        ),
                    );
                },
                None => 0,
            },
        };
        let application_period: BlockNumber = match (
            a.active_application_staking_id,
            &o.application_staking_policy,
        ) {
            (Some(_), Some(policy)) => match validate_unstaking_period(
                StakePurpose::Application,
                policy,
                cause,
                opt_application_stake_unstaking_period,
            ) {
                Ok(period) => period,
                Err(e) => {
                    return Err(period_error_to_deactivate_error(e));
                },
            },
            (Some(_), None) => {
                return Err(
                    DeactivateApplicationError::BrokenInvariant(
                        "the application holds an application stake its opening's policy does not require",
                    ),
                );
            },
            (None, _) => match opt_application_stake_unstaking_period {
                Some(_) => {
                    return Err(
                        DeactivateApplicationError::RedundantUnstakingPeriodProvided(
                            StakePurpose::Application,
                        ),
                    );
                },
                None => 0,
            },
        };
        Ok((role_period, application_period))
    }

    /// Deactivation controller, read-only: evaluates whether the application
    /// can be deactivated for the given cause with the given optional
    /// unstaking-period overrides, without mutating anything. Committing is
    /// [`Hiring::deactivate_application`].
    pub fn ensure_application_can_be_deactivated(
        &self,
        application_id: ApplicationId,
        cause: ApplicationDeactivationCause,
        opt_application_stake_unstaking_period: Option<BlockNumber>,
        opt_role_stake_unstaking_period: Option<BlockNumber>,
    ) -> (r: Result<(), DeactivateApplicationError>)
        ensures
            Self::spec_deactivate_rejection_matches(
                self.spec_deactivate_outcome(
                    application_id,
                    cause,
                    opt_application_stake_unstaking_period,
                    opt_role_stake_unstaking_period,
                ),
                r,
            ),
    {
        match self.deactivation_periods(
            application_id,
            cause,
            opt_application_stake_unstaking_period,
            opt_role_stake_unstaking_period,
        ) {
            Ok(_) => Ok(()),
            Err(e) => Err(e),
        }
    }

    /// The opening's stage after one of its active applications begins
    /// deactivation: the active count moves to unstaking or deactivated.
    pub open spec fn spec_one_deactivated_stage_view(
        stage: OpeningStageView,
        to_unstaking: bool,
    ) -> OpeningStageView {
        match stage {
            OpeningStageView::Active {
                stage: sub_stage,
                applications_added,
                active_application_count,
                unstaking_application_count,
                deactivated_application_count,
            } => OpeningStageView::Active {
                stage: sub_stage,
                applications_added,
                active_application_count: (active_application_count - 1) as u32,
                unstaking_application_count: if to_unstaking {
                    (unstaking_application_count + 1) as u32
                } else {
                    unstaking_application_count
                },
                deactivated_application_count: if to_unstaking {
                    deactivated_application_count
                } else {
                    (deactivated_application_count + 1) as u32
                },
            },
            _ => stage,
        }
    }

    /// Deactivation controller, committing: re-evaluates the request and, on
    /// success, moves the application to unstaking (some settled period is
    /// non-zero) or directly to inactive, and moves the opening's bookkeeping
    /// accordingly.
    pub fn deactivate_application(
        &mut self,
        application_id: ApplicationId,
        cause: ApplicationDeactivationCause,
        opt_application_stake_unstaking_period: Option<BlockNumber>,
        opt_role_stake_unstaking_period: Option<BlockNumber>,
        current_block: BlockNumber,
    ) -> (r: Result<(), DeactivateApplicationError>)
        requires
            old(self).wf(),
        ensures
            final(self).wf(),
            !(old(self).spec_deactivate_outcome(
                application_id,
                cause,
                opt_application_stake_unstaking_period,
                opt_role_stake_unstaking_period,
            ) matches DeactivateOutcome::Deactivate { .. }) ==> *final(self) == *old(self)
                && Self::spec_deactivate_rejection_matches(
                old(self).spec_deactivate_outcome(
                    application_id,
                    cause,
                    opt_application_stake_unstaking_period,
                    opt_role_stake_unstaking_period,
                ),
                r,
            ),
            old(self).spec_deactivate_outcome(
                application_id,
                cause,
                opt_application_stake_unstaking_period,
                opt_role_stake_unstaking_period,
            ) matches DeactivateOutcome::Deactivate { to_unstaking } ==> {
                let a_old = old(self).spec_application(application_id);
                let opening_id = a_old.opening_id;
                let o_old = old(self).spec_opening(opening_id);
                &&& (o_old@.stage.active_count() == 0 ==> *final(self) == *old(self) && r matches
                    Err(DeactivateApplicationError::BrokenInvariant(_)))
                &&& (o_old@.stage.active_count() > 0 ==> {
                    &&& r == Ok::<(), DeactivateApplicationError>(())
                    &&& final(self).applications@.len() == old(self).applications@.len()
                    &&& final(self).applications@[application_id as int]@
                        == Self::spec_deactivated_application(
                        a_old,
                        to_unstaking,
                        current_block,
                        cause,
                    )
                    &&& (forall|i: int|
                        0 <= i < old(self).applications@.len() && i != application_id ==> final(self).applications@[i] == old(self).applications@[i])
                    &&& final(self).spec_opening(opening_id)@ == (OpeningView {
                        stage: Self::spec_one_deactivated_stage_view(o_old@.stage, to_unstaking),
                        ..o_old@
                    })
                    &&& final(self).openings@.len() == old(self).openings@.len()
                    &&& (forall|i: int|
                        0 <= i < old(self).openings@.len() && i != opening_id ==> final(self).openings@[i] == old(self).openings@[i])
                    &&& final(self).stake_amounts@ == old(self).stake_amounts@
                })
            },
    {
        let periods = match self.deactivation_periods(
            application_id,
            cause,
            opt_application_stake_unstaking_period,
            opt_role_stake_unstaking_period,
        ) {
            Ok(periods) => periods,
            Err(e) => {
                return Err(e);
            },
        };
        let to_unstaking = periods.0 > 0 || periods.1 > 0;
        let opening_id = self.applications[application_id].opening_id;
        let active_count: u32 = match &self.openings[opening_id].stage {
            OpeningStage::Active { active_application_count, .. } => *active_application_count,
            _ => 0,
        };
        if active_count == 0 {
            return Err(
                DeactivateApplicationError::BrokenInvariant(
                    "the opening records no active application to deactivate",
                ),
            );
        }
        proof {
            assert(old(self).opening_bookkeeping_ok(opening_id as int));
        }
        let target = &mut self.applications[application_id];
        if to_unstaking {
            target.stage = ApplicationStage::Unstaking {
                deactivation_initiated: current_block,
                cause,
            };
        } else {
            target.stage = ApplicationStage::Inactive {
                deactivation_initiated: current_block,
                deactivated: current_block,
                cause,
            };
            target.active_role_staking_id = None;
            target.active_application_staking_id = None;
        }
        let o = &mut self.openings[opening_id];
        match &mut o.stage {
            OpeningStage::Active {
                active_application_count,
                unstaking_application_count,
                deactivated_application_count,
                ..
            } => {
                *active_application_count = *active_application_count - 1;
                if to_unstaking {
                    *unstaking_application_count = *unstaking_application_count + 1;
                } else {
                    *deactivated_application_count = *deactivated_application_count + 1;
                }
            },
            _ => {
                proof {
                    assert(false);
                }
            },
        }
        proof {
            let prev = *old(self);
            let a_old = prev.spec_application(application_id);
            let o_old = prev.spec_opening(opening_id);
            assert(self.applications@[application_id as int]@ =~= Self::spec_deactivated_application(
                a_old,
                to_unstaking,
                current_block,
                cause,
            ));
            assert(self.spec_opening(opening_id)@ =~= (OpeningView {
                stage: Self::spec_one_deactivated_stage_view(o_old@.stage, to_unstaking),
                ..o_old@
            }));
            assert forall|oid: int|
                0 <= oid < self.openings@.len() implies #[trigger] self.opening_bookkeeping_ok(
                oid,
            ) by {
                assert(prev.opening_bookkeeping_ok(oid));
                let added = prev.openings@[oid].stage@.added();
                assert(self.openings@[oid].stage@.added() =~= added);
                assert forall|i: int|
                    0 <= i < added.len() implies {
                        let aid = #[trigger] added[i];
                        &&& aid < self.applications@.len()
                        &&& self.applications@[aid as int].opening_id == oid
                        &&& self.applications@[aid as int].application_index_in_opening as int == i
                    } by {
                    assert(self.applications@[added[i] as int].opening_id == prev.applications@[
                        added[i] as int].opening_id);
                }
            }
            assert forall|aid: int|
                0 <= aid < self.applications@.len() implies #[trigger] self.application_record_ok(
                aid,
            ) by {
                assert(prev.application_record_ok(aid));
            }
        }
        Ok(())
    }

    /// The opening's stage after one of its unstaking applications completes:
    /// the unstaking count moves to deactivated.
    pub open spec fn spec_unstaked_stage_view(stage: OpeningStageView) -> OpeningStageView {
        match stage {
            OpeningStageView::Active {
                stage: sub_stage,
                applications_added,
                active_application_count,
                unstaking_application_count,
                deactivated_application_count,
            } => OpeningStageView::Active {
                stage: sub_stage,
                applications_added,
                active_application_count,
                unstaking_application_count: (unstaking_application_count - 1) as u32,
                deactivated_application_count: (deactivated_application_count + 1) as u32,
            },
            _ => stage,
        }
    }

    /// The outcome `complete_application_unstaking` owes: success exactly
    /// when the application exists and is unstaking.
    pub open spec fn spec_complete_unstaking_outcome(self, application_id: ApplicationId) -> Result<
        (),
        CompleteUnstakingError,
    > {
        if !self.spec_has_application(application_id) {
            Err(CompleteUnstakingError::ApplicationDoesNotExist)
        } else if !(self.spec_application(application_id).stage is Unstaking) {
            Err(CompleteUnstakingError::ApplicationNotUnstaking)
        } else {
            Ok(())
        }
    }

    /// Completes an application's unstaking once the stake ledger reports it
    /// done: the application becomes inactive at the current block, keeping
    /// its recorded cause and initiation block, and the opening's bookkeeping
    /// moves from unstaking to deactivated.
    pub fn complete_application_unstaking(
        &mut self,
        application_id: ApplicationId,
        current_block: BlockNumber,
    ) -> (r: Result<(), CompleteUnstakingError>)
        requires
            old(self).wf(),
        ensures
            final(self).wf(),
            old(self).spec_complete_unstaking_outcome(application_id) matches Err(e) ==> r == Err::<
                (),
                CompleteUnstakingError,
            >(e) && *final(self) == *old(self),
            old(self).spec_complete_unstaking_outcome(application_id) is Ok ==> {
                let a_old = old(self).spec_application(application_id);
                let opening_id = a_old.opening_id;
                let o_old = old(self).spec_opening(opening_id);
                &&& (o_old@.stage.unstaking_count() == 0 ==> *final(self) == *old(self) && r
                    matches Err(CompleteUnstakingError::BrokenInvariant(_)))
                &&& (o_old@.stage.unstaking_count() > 0 ==> {
                    &&& r == Ok::<(), CompleteUnstakingError>(())
                    &&& final(self).applications@.len() == old(self).applications@.len()
                    &&& final(self).applications@[application_id as int]@ == (
                    crate::application::ApplicationView {
                        stage: ApplicationStage::Inactive {
                            deactivation_initiated: a_old.stage->Unstaking_deactivation_initiated,
                            deactivated: current_block,
                            cause: a_old.stage->Unstaking_cause,
                        },
                        active_role_staking_id: None,
                        active_application_staking_id: None,
                        ..a_old@
                    })
                    &&& (forall|i: int|
                        0 <= i < old(self).applications@.len() && i != application_id ==> final(self).applications@[i] == old(self).applications@[i])
                    &&& final(self).spec_opening(opening_id)@ == (OpeningView {
                        stage: Self::spec_unstaked_stage_view(o_old@.stage),
                        ..o_old@
                    })
                    &&& final(self).openings@.len() == old(self).openings@.len()
                    &&& (forall|i: int|
                        0 <= i < old(self).openings@.len() && i != opening_id ==> final(self).openings@[i] == old(self).openings@[i])
                    &&& final(self).stake_amounts@ == old(self).stake_amounts@
                })
            },
    {
        if application_id >= self.applications.len() {
            return Err(CompleteUnstakingError::ApplicationDoesNotExist);
        }
        let (initiated, cause) = match self.applications[application_id].stage {
            ApplicationStage::Unstaking { deactivation_initiated, cause } => (
                deactivation_initiated,
                cause,
            ),
            _ => {
                return Err(CompleteUnstakingError::ApplicationNotUnstaking);
            },
        };
        let opening_id = self.applications[application_id].opening_id;
        proof {
            assert(old(self).application_record_ok(application_id as int));
        }
        let unstaking_count: u32 = match &self.openings[opening_id].stage {
            OpeningStage::Active { unstaking_application_count, .. } => *unstaking_application_count,
            _ => 0,
        };
        if unstaking_count == 0 {
            return Err(
                CompleteUnstakingError::BrokenInvariant(
                    "the opening records no unstaking application to complete",
                ),
            );
        }
        proof {
            assert(old(self).opening_bookkeeping_ok(opening_id as int));
        }
        let target = &mut self.applications[application_id];
        target.stage = ApplicationStage::Inactive {
            deactivation_initiated: initiated,
            deactivated: current_block,
            cause,
        };
        target.active_role_staking_id = None;
        target.active_application_staking_id = None;
        let o = &mut self.openings[opening_id];
        match &mut o.stage {
            OpeningStage::Active {
                unstaking_application_count,
                deactivated_application_count,
                ..
            } => {
                *unstaking_application_count = *unstaking_application_count - 1;
                *deactivated_application_count = *deactivated_application_count + 1;
            },
            _ => {
                proof {
                    assert(false);
                }
            },
        }
        proof {
            let prev = *old(self);
            let a_old = prev.spec_application(application_id);
            let o_old = prev.spec_opening(opening_id);
            assert(self.applications@[application_id as int]@ =~= (
            crate::application::ApplicationView {
                stage: ApplicationStage::Inactive {
                    deactivation_initiated: a_old.stage->Unstaking_deactivation_initiated,
                    deactivated: current_block,
                    cause: a_old.stage->Unstaking_cause,
                },
                active_role_staking_id: None,
                active_application_staking_id: None,
                ..a_old@
            }));
            assert(self.spec_opening(opening_id)@ =~= (OpeningView {
                stage: Self::spec_unstaked_stage_view(o_old@.stage),
                ..o_old@
            }));
            assert forall|oid: int|
                0 <= oid < self.openings@.len() implies #[trigger] self.opening_bookkeeping_ok(
                oid,
            ) by {
                assert(prev.opening_bookkeeping_ok(oid));
                let added = prev.openings@[oid].stage@.added();
                assert(self.openings@[oid].stage@.added() =~= added);
                assert forall|i: int|
                    0 <= i < added.len() implies {
                        let aid = #[trigger] added[i];
                        &&& aid < self.applications@.len()
                        &&& self.applications@[aid as int].opening_id == oid
                        &&& self.applications@[aid as int].application_index_in_opening as int == i
                    } by {
                    assert(self.applications@[added[i] as int].opening_id == prev.applications@[
                        added[i] as int].opening_id);
                }
            }
            assert forall|aid: int|
                0 <= aid < self.applications@.len() implies #[trigger] self.application_record_ok(
                aid,
            ) by {
                assert(prev.application_record_ok(aid));
            }
        }
        Ok(())
    }
}

/// Maps an unstaking-period failure to the deactivation error that reports
/// it.
pub fn period_error_to_deactivate_error(e: UnstakingPeriodError) -> (r: DeactivateApplicationError)
    ensures
        r == spec_period_error_to_deactivate_error(e),
{
    match e {
        UnstakingPeriodError::UnstakingPeriodTooShort(purpose) => DeactivateApplicationError::UnstakingPeriodTooShort(
            purpose,
        ),
        UnstakingPeriodError::RedundantUnstakingPeriodProvided(purpose) => DeactivateApplicationError::RedundantUnstakingPeriodProvided(
            purpose,
        ),
    }
}


impl Hiring {
    /// Number of currently active applications among the given identifiers.
    pub open spec fn spec_count_active(self, added: Seq<ApplicationId>) -> int
        decreases added.len(),
    {
        if added.len() == 0 {
            0
        } else {
            self.spec_count_active(added.drop_last()) + if self.spec_is_active_application(
                added.last(),
            ) {
                1int
            } else {
                0int
            }
        }
    }

    /// Among the active applications, those whose deactivation for the cause
    /// passes through the unstaking stage.
    pub open spec fn spec_count_to_unstaking(
        self,
        o: Opening,
        added: Seq<ApplicationId>,
        cause: ApplicationDeactivationCause,
    ) -> int
        decreases added.len(),
    {
        if added.len() == 0 {
            0
        } else {
            self.spec_count_to_unstaking(o, added.drop_last(), cause) + if self
                .spec_is_active_application(added.last())
                && Self::spec_deactivation_needs_unstaking(
                o,
                self.applications@[added.last() as int],
                cause,
            ) {
                1int
            } else {
                0int
            }
        }
    }

    /// The outcome `cancel_opening` owes: cancellation is permitted while
    /// the opening waits to begin, accepts applications, or reviews; a
    /// deactivated opening cannot be cancelled again.
    pub open spec fn spec_cancel_outcome(self, opening_id: OpeningId) -> Result<
        (),
        CancelOpeningError,
    > {
        if !self.spec_has_opening(opening_id) {
            Err(CancelOpeningError::OpeningDoesNotExist)
        } else {
            match self.spec_opening(opening_id).stage {
                OpeningStage::WaitingToBegin { .. } => Ok(()),
                OpeningStage::Active { stage: ActiveOpeningStage::Deactivated { .. }, .. } => Err(
                    CancelOpeningError::OpeningNotInCancellableStage,
                ),
                OpeningStage::Active { .. } => Ok(()),
            }
        }
    }

    /// The opening's stage after cancellation: deactivated with the cause of
    /// the stage it left, every active application counted over to
    /// deactivated. A waiting opening records the cancellation block as both
    /// its deactivation block and its never-reached accepting block.
    pub open spec fn spec_cancelled_stage_view(
        self,
        opening_id: OpeningId,
        current_block: BlockNumber,
    ) -> OpeningStageView {
        let stage_view = self.spec_opening(opening_id)@.stage;
        match stage_view {
            OpeningStageView::WaitingToBegin { .. } => OpeningStageView::Active {
                stage: ActiveOpeningStage::Deactivated {
                    cause: OpeningDeactivationCause::CancelledBeforeActivation,
                    deactivated_at_block: current_block,
                    started_accepting_applicants_at_block: current_block,
                    started_review_period_at_block: None,
                },
                applications_added: Seq::empty(),
                active_application_count: 0,
                unstaking_application_count: 0,
                deactivated_application_count: 0,
            },
            OpeningStageView::Active {
                stage: sub_stage,
                applications_added,
                active_application_count,
                unstaking_application_count,
                deactivated_application_count,
            } => {
                let n = self.spec_count_active(applications_added);
                match sub_stage {
                    ActiveOpeningStage::AcceptingApplications {
                        started_accepting_applicants_at_block,
                    } => OpeningStageView::Active {
                        stage: ActiveOpeningStage::Deactivated {
                            cause: OpeningDeactivationCause::CancelledAcceptingApplications,
                            deactivated_at_block: current_block,
                            started_accepting_applicants_at_block,
                            started_review_period_at_block: None,
                        },
                        applications_added,
                        active_application_count: (active_application_count - n) as u32,
                        unstaking_application_count,
                        deactivated_application_count: (deactivated_application_count + n) as u32,
                    },
                    ActiveOpeningStage::ReviewPeriod {
                        started_accepting_applicants_at_block,
                        started_review_period_at_block,
                    } => OpeningStageView::Active {
                        stage: ActiveOpeningStage::Deactivated {
                            cause: OpeningDeactivationCause::CancelledInReviewPeriod,
                            deactivated_at_block: current_block,
                            started_accepting_applicants_at_block,
                            started_review_period_at_block: Some(started_review_period_at_block),
                        },
                        applications_added,
                        active_application_count: (active_application_count - n) as u32,
                        unstaking_application_count,
                        deactivated_application_count: (deactivated_application_count + n) as u32,
                    },
                    ActiveOpeningStage::Deactivated { .. } => stage_view,
                }
            },
        }
    }

    /// Cancels an opening: the opening is deactivated with the cause of the
    /// stage it left, and every still-active application is deactivated at
    /// once with the opening-cancelled cause. Applications already unstaking
    /// continue to unstake.
    #[verifier::loop_isolation(false)]
    pub fn cancel_opening(&mut self, opening_id: OpeningId, current_block: BlockNumber) -> (r:
        Result<(), CancelOpeningError>)
        requires
            old(self).wf(),
        ensures
            final(self).wf(),
            old(self).spec_cancel_outcome(opening_id) matches Err(e) ==> *final(self) == *old(self)
                && r == Err::<(), CancelOpeningError>(e),
            old(self).spec_cancel_outcome(opening_id) is Ok ==> {
                let o_old = old(self).spec_opening(opening_id);
                let added = o_old@.stage.added();
                let n = old(self).spec_count_active(added);
                &&& (n > o_old@.stage.active_count() ==> *final(self) == *old(self) && r matches
                    Err(CancelOpeningError::BrokenInvariant(_)))
                &&& (n <= o_old@.stage.active_count() ==> {
                    &&& r == Ok::<(), CancelOpeningError>(())
                    &&& final(self).spec_opening(opening_id)@ == (OpeningView {
                        stage: old(self).spec_cancelled_stage_view(opening_id, current_block),
                        ..o_old@
                    })
                    &&& final(self).openings@.len() == old(self).openings@.len()
                    &&& (forall|i: int|
                        0 <= i < old(self).openings@.len() && i != opening_id ==> final(self).openings@[i] == old(self).openings@[i])
                    &&& final(self).applications@.len() == old(self).applications@.len()
                    &&& (forall|k: int|
                        0 <= k < added.len() ==> {
                            let aid = #[trigger] added[k];
                            old(self).spec_is_active_application(aid) ==> final(self).applications@[aid as int]@ == Self::spec_deactivated_application(
                                old(self).applications@[aid as int],
                                false,
                                current_block,
                                ApplicationDeactivationCause::OpeningCancelled,
                            )
                        })
                    &&& (forall|aid: int|
                        0 <= aid < old(self).applications@.len() && !(added.contains(
                            aid as ApplicationId,
                        ) && old(self).spec_is_active_application(aid as ApplicationId)) ==> final(self).applications@[aid] == old(self).applications@[aid])
                    &&& final(self).stake_amounts@ == old(self).stake_amounts@
                })
            },
    {
        if opening_id >= self.openings.len() {
            return Err(CancelOpeningError::OpeningDoesNotExist);
        }
        proof {
            assert(old(self).opening_bookkeeping_ok(opening_id as int));
        }
        let waiting = match &self.openings[opening_id].stage {
            OpeningStage::WaitingToBegin { .. } => true,
            _ => false,
        };
        if waiting {
            let o = &mut self.openings[opening_id];
            o.stage = OpeningStage::Active {
                stage: ActiveOpeningStage::Deactivated {
                    cause: OpeningDeactivationCause::CancelledBeforeActivation,
                    deactivated_at_block: current_block,
                    started_accepting_applicants_at_block: current_block,
                    started_review_period_at_block: None,
                },
                applications_added: Vec::new(),
                active_application_count: 0,
                unstaking_application_count: 0,
                deactivated_application_count: 0,
            };
            proof {
                assert(final(self).spec_opening(opening_id)@ =~= (OpeningView {
                    stage: old(self).spec_cancelled_stage_view(opening_id, current_block),
                    ..old(self).spec_opening(opening_id)@
                }));
                assert forall|oid: int|
                    0 <= oid < self.openings@.len() implies #[trigger] self.opening_bookkeeping_ok(
                    oid,
                ) by {
                    assert(old(self).opening_bookkeeping_ok(oid));
                    if oid != opening_id {
                        assert(self.openings@[oid] == old(self).openings@[oid]);
                    }
                }
                assert forall|aid: int|
                    0 <= aid < self.applications@.len()
                        implies #[trigger] self.application_record_ok(aid) by {
                    assert(old(self).application_record_ok(aid));
                    let a = self.applications@[aid];
                    if a.opening_id != opening_id {
                        assert(self.openings@[a.opening_id as int] == old(self).openings@[a
                            .opening_id as int]);
                    }
                }
            }
            return Ok(());
        }
        let (started_accepting, opt_started_review): (BlockNumber, Option<BlockNumber>) = match &self
            .openings[opening_id].stage {
            OpeningStage::Active {
                stage: ActiveOpeningStage::AcceptingApplications {
                    started_accepting_applicants_at_block,
                },
                ..
            } => (*started_accepting_applicants_at_block, None),
            OpeningStage::Active {
                stage: ActiveOpeningStage::ReviewPeriod {
                    started_accepting_applicants_at_block,
                    started_review_period_at_block,
                },
                ..
            } => (*started_accepting_applicants_at_block, Some(*started_review_period_at_block)),
            _ => {
                return Err(CancelOpeningError::OpeningNotInCancellableStage);
            },
        };
        let cause = match opt_started_review {
            Some(_) => OpeningDeactivationCause::CancelledInReviewPeriod,
            None => OpeningDeactivationCause::CancelledAcceptingApplications,
        };
        let added_copy: Vec<ApplicationId> = match &self.openings[opening_id].stage {
            OpeningStage::Active { applications_added, .. } => copy_elements(applications_added),
            _ => Vec::new(),
        };
        let active_count: u32 = match &self.openings[opening_id].stage {
            OpeningStage::Active { active_application_count, .. } => *active_application_count,
            _ => 0,
        };
        let mut n: u32 = 0;
        let mut j: usize = 0;
        while j < added_copy.len()
            invariant
                j <= added_copy@.len(),
                added_copy@.len() <= u32::MAX as int,
                n as int == self.spec_count_active(added_copy@.take(j as int)),
                n as int <= j,
            decreases added_copy@.len() - j,
        {
            let aid = added_copy[j];
            let is_active = aid < self.applications.len() && match self.applications[aid].stage {
                ApplicationStage::Active => true,
                _ => false,
            };
            proof {
                assert(added_copy@.take(j as int + 1).drop_last() =~= added_copy@.take(j as int));
                assert(added_copy@.take(j as int + 1).last() == added_copy@[j as int]);
            }
            if is_active {
                n = n + 1;
            }
            j = j + 1;
        }
        proof {
            assert(added_copy@.take(added_copy@.len() as int) =~= added_copy@);
        }
        if n > active_count {
            return Err(
                CancelOpeningError::BrokenInvariant(
                    "the active application count of the opening does not match its records",
                ),
            );
        }
        let ghost added_ghost = added_copy@;
        proof {
            assert(added_ghost == old(self).spec_opening(opening_id)@.stage.added());
        }
        let mut j: usize = 0;
        while j < added_copy.len()
            invariant
                old(self).wf(),
                opening_id < old(self).openings@.len(),
                added_ghost == old(self).spec_opening(opening_id)@.stage.added(),
                j <= added_copy@.len(),
                added_copy@ == added_ghost,
                self.openings@ == old(self).openings@,
                self.stake_amounts@ == old(self).stake_amounts@,
                self.applications@.len() == old(self).applications@.len(),
                forall|k: int|
                    0 <= k < j ==> {
                        let aid = #[trigger] added_ghost[k];
                        &&& (old(self).spec_is_active_application(aid) ==> self.applications@[aid
                            as int]@ == Self::spec_deactivated_application(
                            old(self).applications@[aid as int],
                            false,
                            current_block,
                            ApplicationDeactivationCause::OpeningCancelled,
                        ))
                        &&& (!old(self).spec_is_active_application(aid) ==> self.applications@[aid
                            as int] == old(self).applications@[aid as int])
                    },
                forall|aid: int|
                    0 <= aid < old(self).applications@.len() && !added_ghost.take(
                        j as int,
                    ).contains(aid as ApplicationId) ==> self.applications@[aid] == old(self).applications@[aid],
            decreases added_copy@.len() - j,
        {
            let aid = added_copy[j];
            proof {
                assert(old(self).opening_bookkeeping_ok(opening_id as int));
                assert(aid < old(self).applications@.len());
                assert(old(self).applications@[aid as int].application_index_in_opening as int
                    == j as int);
                if added_ghost.take(j as int).contains(aid) {
                    let k = choose|k: int|
                        0 <= k < added_ghost.take(j as int).len() && added_ghost.take(j as int)[k]
                            == aid;
                    assert(added_ghost[k] == aid);
                    assert(old(self).applications@[aid as int].application_index_in_opening as int
                        == k);
                    assert(false);
                }
                assert(self.applications@[aid as int] == old(self).applications@[aid as int]);
            }
            let is_active = match self.applications[aid].stage {
                ApplicationStage::Active => true,
                _ => false,
            };
            if is_active {
                let target = &mut self.applications[aid];
                target.stage = ApplicationStage::Inactive {
                    deactivation_initiated: current_block,
                    deactivated: current_block,
                    cause: ApplicationDeactivationCause::OpeningCancelled,
                };
                target.active_role_staking_id = None;
                target.active_application_staking_id = None;
                proof {
                    assert(self.applications@[aid as int]@ =~= Self::spec_deactivated_application(
                        old(self).applications@[aid as int],
                        false,
                        current_block,
                        ApplicationDeactivationCause::OpeningCancelled,
                    ));
                }
            }
            proof {
                assert(added_ghost.take(j as int + 1)[j as int] == aid);
                assert forall|aid2: int|
                    0 <= aid2 < old(self).applications@.len() && !added_ghost.take(
                        j as int + 1,
                    ).contains(aid2 as ApplicationId) implies self.applications@[aid2] == old(self).applications@[aid2] by {
                    assert(!added_ghost.take(j as int).contains(aid2 as ApplicationId)) by {
                        if added_ghost.take(j as int).contains(aid2 as ApplicationId) {
                            let k = choose|k: int|
                                0 <= k < added_ghost.take(j as int).len() && added_ghost.take(
                                    j as int,
                                )[k] == aid2 as ApplicationId;
                            assert(added_ghost.take(j as int + 1)[k] == aid2 as ApplicationId);
                        }
                    }
                    assert(aid2 != aid as int);
                }
            }
            j = j + 1;
        }
        proof {
            assert(added_ghost.take(added_ghost.len() as int) =~= added_ghost);
        }
        let applications_len: usize = self.applications.len();
        proof {
            assert(self.applications@.len() == applications_len as int);
        }
        let o = &mut self.openings[opening_id];
        match &mut o.stage {
            OpeningStage::Active {
                stage,
                active_application_count,
                deactivated_application_count,
                ..
            } => {
                *stage = ActiveOpeningStage::Deactivated {
                    cause,
                    deactivated_at_block: current_block,
                    started_accepting_applicants_at_block: started_accepting,
                    started_review_period_at_block: opt_started_review,
                };
                *active_application_count = *active_application_count - n;
                *deactivated_application_count = *deactivated_application_count + n;
            },
            _ => {
                proof {
                    assert(false);
                }
            },
        }
        proof {
            let prev = *old(self);
            let o_old = prev.spec_opening(opening_id);
            assert forall|aid: int|
                0 <= aid < self.applications@.len() implies {
                    &&& (#[trigger] self.applications@[aid]).opening_id == prev.applications@[
                        aid].opening_id
                    &&& self.applications@[aid].application_index_in_opening == prev.applications@[
                        aid].application_index_in_opening
                } by {
                assert(self.applications@.len() <= usize::MAX as int);
                assert((aid as ApplicationId) as int == aid);
                if added_ghost.contains(aid as ApplicationId) {
                    let k = choose|k: int|
                        0 <= k < added_ghost.len() && added_ghost[k] == aid as ApplicationId;
                    assert(added_ghost[k] == aid as ApplicationId);
                    assert(added_ghost[k] as int == aid);
                    if prev.spec_is_active_application(aid as ApplicationId) {
                        assert(self.applications@[aid]@ == Self::spec_deactivated_application(
                            prev.applications@[aid],
                            false,
                            current_block,
                            ApplicationDeactivationCause::OpeningCancelled,
                        ));
                        assert(self.applications@[aid]@.opening_id == prev.applications@[
                            aid]@.opening_id);
                    } else {
                        assert(self.applications@[aid] == prev.applications@[aid]);
                    }
                } else {
                    assert(self.applications@[aid] == prev.applications@[aid]);
                }
            }
            assert(self.spec_opening(opening_id)@ =~= (OpeningView {
                stage: prev.spec_cancelled_stage_view(opening_id, current_block),
                ..o_old@
            }));
            assert forall|oid: int|
                0 <= oid < self.openings@.len() implies #[trigger] self.opening_bookkeeping_ok(
                oid,
            ) by {
                assert(prev.opening_bookkeeping_ok(oid));
                let added = prev.openings@[oid].stage@.added();
                assert(self.openings@[oid].stage@.added() =~= added);
                assert forall|i: int|
                    0 <= i < added.len() implies {
                        let aid = #[trigger] added[i];
                        &&& aid < self.applications@.len()
                        &&& self.applications@[aid as int].opening_id == oid
                        &&& self.applications@[aid as int].application_index_in_opening as int == i
                    } by {
                    assert(self.applications@[added[i] as int].opening_id == prev.applications@[
                        added[i] as int].opening_id);
                    assert(self.applications@[added[i] as int].application_index_in_opening == prev
                        .applications@[added[i] as int].application_index_in_opening);
                }
            }
            assert forall|aid: int|
                0 <= aid < self.applications@.len() implies #[trigger] self.application_record_ok(
                aid,
            ) by {
                assert(prev.application_record_ok(aid));
                let a = self.applications@[aid];
                assert(a.opening_id == prev.applications@[aid].opening_id);
                if a.opening_id != opening_id {
                    assert(self.openings@[a.opening_id as int] == prev.openings@[a.opening_id
                        as int]);
                }
            }
        }
        Ok(())
    }
}


impl Hiring {
    /// The outcome `expire_review_period` owes: the opening must exist, be in
    /// its review period, and the review period must have outlived its
    /// maximum length.
    pub open spec fn spec_expire_outcome(
        self,
        opening_id: OpeningId,
        current_block: BlockNumber,
    ) -> Result<(), ExpireReviewPeriodError> {
        if !self.spec_has_opening(opening_id) {
            Err(ExpireReviewPeriodError::OpeningDoesNotExist)
        } else {
            let o = self.spec_opening(opening_id);
            match o.stage {
                OpeningStage::Active {
                    stage: ActiveOpeningStage::ReviewPeriod { started_review_period_at_block, .. },
                    ..
                } => if current_block > started_review_period_at_block
                    + o.max_review_period_length {
                    Ok(())
                } else {
                    Err(ExpireReviewPeriodError::ReviewPeriodNotExpired)
                },
                _ => Err(ExpireReviewPeriodError::OpeningNotInReviewPeriod),
            }
        }
    }

    /// The opening's stage after forced review expiry: deactivated with the
    /// review-period-expired cause; every active application moves to
    /// unstaking when a policy stipulates a non-zero period for this cause,
    /// and to deactivated otherwise.
    pub open spec fn spec_expired_stage_view(
        self,
        opening_id: OpeningId,
        current_block: BlockNumber,
    ) -> OpeningStageView {
        let o = self.spec_opening(opening_id);
        match o@.stage {
            OpeningStageView::Active {
                stage: ActiveOpeningStage::ReviewPeriod {
                    started_accepting_applicants_at_block,
                    started_review_period_at_block,
                },
                applications_added,
                active_application_count,
                unstaking_application_count,
                deactivated_application_count,
            } => {
                let n_active = self.spec_count_active(applications_added);
                let n_unstaking = self.spec_count_to_unstaking(
                    o,
                    applications_added,
                    ApplicationDeactivationCause::ReviewPeriodExpired,
                );
                OpeningStageView::Active {
                    stage: ActiveOpeningStage::Deactivated {
                        cause: OpeningDeactivationCause::ReviewPeriodExpired,
                        deactivated_at_block: current_block,
                        started_accepting_applicants_at_block,
                        started_review_period_at_block: Some(started_review_period_at_block),
                    },
                    applications_added,
                    active_application_count: (active_application_count - n_active) as u32,
                    unstaking_application_count: (unstaking_application_count + n_unstaking) as u32,
                    deactivated_application_count: (deactivated_application_count + (n_active
                        - n_unstaking)) as u32,
                }
            },
            _ => o@.stage,
        }
    }

    /// Forces an opening's overdue review period to expire: the opening is
    /// deactivated with the review-period-expired cause, and every
    /// still-active application is deactivated with the same cause, through
    /// the unstaking stage where a policy stipulates a non-zero period.
    #[verifier::loop_isolation(false)]
    pub fn expire_review_period(&mut self, opening_id: OpeningId, current_block: BlockNumber) -> (r:
        Result<(), ExpireReviewPeriodError>)
        requires
            old(self).wf(),
        ensures
            final(self).wf(),
            old(self).spec_expire_outcome(opening_id, current_block) matches Err(e) ==> *final(self)
                == *old(self) && r == Err::<(), ExpireReviewPeriodError>(e),
            old(self).spec_expire_outcome(opening_id, current_block) is Ok ==> {
                let o_old = old(self).spec_opening(opening_id);
                let added = o_old@.stage.added();
                let n_active = old(self).spec_count_active(added);
                &&& (n_active > o_old@.stage.active_count() ==> *final(self) == *old(self) && r
                    matches Err(ExpireReviewPeriodError::BrokenInvariant(_)))
                &&& (n_active <= o_old@.stage.active_count() ==> {
                    &&& r == Ok::<(), ExpireReviewPeriodError>(())
                    &&& final(self).spec_opening(opening_id)@ == (OpeningView {
                        stage: old(self).spec_expired_stage_view(opening_id, current_block),
                        ..o_old@
                    })
                    &&& final(self).openings@.len() == old(self).openings@.len()
                    &&& (forall|i: int|
                        0 <= i < old(self).openings@.len() && i != opening_id ==> final(self).openings@[i] == old(self).openings@[i])
                    &&& final(self).applications@.len() == old(self).applications@.len()
                    &&& (forall|k: int|
                        0 <= k < added.len() ==> {
                            let aid = #[trigger] added[k];
                            old(self).spec_is_active_application(aid) ==> final(self).applications@[aid as int]@ == Self::spec_deactivated_application(
                                old(self).applications@[aid as int],
                                Self::spec_deactivation_needs_unstaking(
                                    o_old,
                                    old(self).applications@[aid as int],
                                    ApplicationDeactivationCause::ReviewPeriodExpired,
                                ),
                                current_block,
                                ApplicationDeactivationCause::ReviewPeriodExpired,
                            )
                        })
                    &&& (forall|aid: int|
                        0 <= aid < old(self).applications@.len() && !(added.contains(
                            aid as ApplicationId,
                        ) && old(self).spec_is_active_application(aid as ApplicationId)) ==> final(self).applications@[aid] == old(self).applications@[aid])
                    &&& final(self).stake_amounts@ == old(self).stake_amounts@
                })
            },
    {
        if opening_id >= self.openings.len() {
            return Err(ExpireReviewPeriodError::OpeningDoesNotExist);
        }
        proof {
            assert(old(self).opening_bookkeeping_ok(opening_id as int));
        }
        let (started_accepting, started_review): (BlockNumber, BlockNumber) = match &self.openings[
            opening_id].stage {
            OpeningStage::Active {
                stage: ActiveOpeningStage::ReviewPeriod {
                    started_accepting_applicants_at_block,
                    started_review_period_at_block,
                },
                ..
            } => (*started_accepting_applicants_at_block, *started_review_period_at_block),
            _ => {
                return Err(ExpireReviewPeriodError::OpeningNotInReviewPeriod);
            },
        };
        let max_length = self.openings[opening_id].max_review_period_length;
        let expired = current_block > started_review && current_block - started_review > max_length;
        if !expired {
            return Err(ExpireReviewPeriodError::ReviewPeriodNotExpired);
        }
        let role_policy = self.openings[opening_id].role_staking_policy;
        let application_policy = self.openings[opening_id].application_staking_policy;
        let role_positive = match role_policy {
            Some(policy) => match policy.review_period_expired_unstaking_period_length {
                Some(period) => period > 0,
                None => false,
            },
            None => false,
        };
        let application_positive = match application_policy {
            Some(policy) => match policy.review_period_expired_unstaking_period_length {
                Some(period) => period > 0,
                None => false,
            },
            None => false,
        };
        let added_copy: Vec<ApplicationId> = match &self.openings[opening_id].stage {
            OpeningStage::Active { applications_added, .. } => copy_elements(applications_added),
            _ => Vec::new(),
        };
        let active_count: u32 = match &self.openings[opening_id].stage {
            OpeningStage::Active { active_application_count, .. } => *active_application_count,
            _ => 0,
        };
        let ghost o_ghost = self.openings@[opening_id as int];
        let ghost cause_ghost = ApplicationDeactivationCause::ReviewPeriodExpired;
        let mut n_active: u32 = 0;
        let mut n_unstaking: u32 = 0;
        let mut j: usize = 0;
        while j < added_copy.len()
            invariant
                j <= added_copy@.len(),
                n_active as int == self.spec_count_active(added_copy@.take(j as int)),
                n_unstaking as int == self.spec_count_to_unstaking(
                    o_ghost,
                    added_copy@.take(j as int),
                    cause_ghost,
                ),
                n_active as int <= j,
                n_unstaking as int <= n_active as int,
            decreases added_copy@.len() - j,
        {
            let aid = added_copy[j];
            let is_active = aid < self.applications.len() && match self.applications[aid].stage {
                ApplicationStage::Active => true,
                _ => false,
            };
            proof {
                assert(added_copy@.take(j as int + 1).drop_last() =~= added_copy@.take(j as int));
                assert(added_copy@.take(j as int + 1).last() == added_copy@[j as int]);
            }
            if is_active {
                n_active = n_active + 1;
                let a = &self.applications[aid];
                let to_unstaking = (a.active_role_staking_id.is_some() && role_positive) || (
                a.active_application_staking_id.is_some() && application_positive);
                if to_unstaking {
                    n_unstaking = n_unstaking + 1;
                }
                proof {
                    assert(to_unstaking == Self::spec_deactivation_needs_unstaking(
                        o_ghost,
                        self.applications@[aid as int],
                        cause_ghost,
                    ));
                }
            }
            j = j + 1;
        }
        proof {
            assert(added_copy@.take(added_copy@.len() as int) =~= added_copy@);
        }
        if n_active > active_count {
            return Err(
                ExpireReviewPeriodError::BrokenInvariant(
                    "the active application count of the opening does not match its records",
                ),
            );
        }
        let ghost added_ghost = added_copy@;
        proof {
            assert(added_ghost == old(self).spec_opening(opening_id)@.stage.added());
        }
        let mut j: usize = 0;
        while j < added_copy.len()
            invariant
                j <= added_copy@.len(),
                added_copy@ == added_ghost,
                self.openings@ == old(self).openings@,
                self.stake_amounts@ == old(self).stake_amounts@,
                self.applications@.len() == old(self).applications@.len(),
                forall|k: int|
                    0 <= k < j ==> {
                        let aid = #[trigger] added_ghost[k];
                        &&& (old(self).spec_is_active_application(aid) ==> self.applications@[aid
                            as int]@ == Self::spec_deactivated_application(
                            old(self).applications@[aid as int],
                            Self::spec_deactivation_needs_unstaking(
                                o_ghost,
                                old(self).applications@[aid as int],
                                cause_ghost,
                            ),
                            current_block,
                            cause_ghost,
                        ))
                        &&& (!old(self).spec_is_active_application(aid) ==> self.applications@[aid
                            as int] == old(self).applications@[aid as int])
                    },
                forall|aid: int|
                    0 <= aid < old(self).applications@.len() && !added_ghost.take(
                        j as int,
                    ).contains(aid as ApplicationId) ==> self.applications@[aid] == old(
                        self,
                    ).applications@[aid],
            decreases added_copy@.len() - j,
        {
            let aid = added_copy[j];
            proof {
                assert(old(self).opening_bookkeeping_ok(opening_id as int));
                assert(aid < old(self).applications@.len());
                assert(old(self).applications@[aid as int].application_index_in_opening as int
                    == j as int);
                if added_ghost.take(j as int).contains(aid) {
                    let k = choose|k: int|
                        0 <= k < added_ghost.take(j as int).len() && added_ghost.take(j as int)[k]
                            == aid;
                    assert(added_ghost[k] == aid);
                    assert(old(self).applications@[aid as int].application_index_in_opening as int
                        == k);
                    assert(false);
                }
                assert(self.applications@[aid as int] == old(self).applications@[aid as int]);
            }
            let is_active = match self.applications[aid].stage {
                ApplicationStage::Active => true,
                _ => false,
            };
            if is_active {
                let to_unstaking = {
                    let a = &self.applications[aid];
                    (a.active_role_staking_id.is_some() && role_positive) || (
                    a.active_application_staking_id.is_some() && application_positive)
                };
                proof {
                    assert(to_unstaking == Self::spec_deactivation_needs_unstaking(
                        o_ghost,
                        old(self).applications@[aid as int],
                        cause_ghost,
                    ));
                }
                let target = &mut self.applications[aid];
                if to_unstaking {
                    target.stage = ApplicationStage::Unstaking {
                        deactivation_initiated: current_block,
                        cause: ApplicationDeactivationCause::ReviewPeriodExpired,
                    };
                } else {
                    target.stage = ApplicationStage::Inactive {
                        deactivation_initiated: current_block,
                        deactivated: current_block,
                        cause: ApplicationDeactivationCause::ReviewPeriodExpired,
                    };
                    target.active_role_staking_id = None;
                    target.active_application_staking_id = None;
                }
                proof {
                    assert(self.applications@[aid as int]@ =~= Self::spec_deactivated_application(
                        old(self).applications@[aid as int],
                        to_unstaking,
                        current_block,
                        cause_ghost,
                    ));
                }
            }
            proof {
                assert(added_ghost.take(j as int + 1)[j as int] == aid);
                assert forall|aid2: int|
                    0 <= aid2 < old(self).applications@.len() && !added_ghost.take(
                        j as int + 1,
                    ).contains(aid2 as ApplicationId) implies self.applications@[aid2] == old(
                    self,
                ).applications@[aid2] by {
                    assert(!added_ghost.take(j as int).contains(aid2 as ApplicationId)) by {
                        if added_ghost.take(j as int).contains(aid2 as ApplicationId) {
                            let k = choose|k: int|
                                0 <= k < added_ghost.take(j as int).len() && added_ghost.take(
                                    j as int,
                                )[k] == aid2 as ApplicationId;
                            assert(added_ghost.take(j as int + 1)[k] == aid2 as ApplicationId);
                        }
                    }
                    assert(aid2 != aid as int);
                }
            }
            j = j + 1;
        }
        proof {
            assert(added_ghost.take(added_ghost.len() as int) =~= added_ghost);
        }
        let applications_len: usize = self.applications.len();
        proof {
            assert(self.applications@.len() == applications_len as int);
        }
        let o = &mut self.openings[opening_id];
        match &mut o.stage {
            OpeningStage::Active {
                stage,
                active_application_count,
                unstaking_application_count,
                deactivated_application_count,
                ..
            } => {
                *stage = ActiveOpeningStage::Deactivated {
                    cause: OpeningDeactivationCause::ReviewPeriodExpired,
                    deactivated_at_block: current_block,
                    started_accepting_applicants_at_block: started_accepting,
                    started_review_period_at_block: Some(started_review),
                };
                *active_application_count = *active_application_count - n_active;
                *unstaking_application_count = *unstaking_application_count + n_unstaking;
                *deactivated_application_count = *deactivated_application_count + (n_active
                    - n_unstaking);
            },
            _ => {
                proof {
                    assert(false);
                }
            },
        }
        proof {
            let prev = *old(self);
            let o_old = prev.spec_opening(opening_id);
            assert forall|aid: int|
                0 <= aid < self.applications@.len() implies {
                    &&& (#[trigger] self.applications@[aid]).opening_id == prev.applications@[
                        aid].opening_id
                    &&& self.applications@[aid].application_index_in_opening == prev.applications@[
                        aid].application_index_in_opening
                } by {
                assert(self.applications@.len() <= usize::MAX as int);
                assert((aid as ApplicationId) as int == aid);
                if added_ghost.contains(aid as ApplicationId) {
                    let k = choose|k: int|
                        0 <= k < added_ghost.len() && added_ghost[k] == aid as ApplicationId;
                    assert(added_ghost[k] == aid as ApplicationId);
                    assert(added_ghost[k] as int == aid);
                    if prev.spec_is_active_application(aid as ApplicationId) {
                        assert(self.applications@[aid]@ == Self::spec_deactivated_application(
                            prev.applications@[aid],
                            Self::spec_deactivation_needs_unstaking(
                                o_ghost,
                                prev.applications@[aid],
                                cause_ghost,
                            ),
                            current_block,
                            cause_ghost,
                        ));
                        assert(self.applications@[aid]@.opening_id == prev.applications@[
                            aid]@.opening_id);
                    } else {
                        assert(self.applications@[aid] == prev.applications@[aid]);
                    }
                } else {
                    assert(self.applications@[aid] == prev.applications@[aid]);
                }
            }
            assert(self.spec_opening(opening_id)@ =~= (OpeningView {
                stage: prev.spec_expired_stage_view(opening_id, current_block),
                ..o_old@
            }));
            assert forall|oid: int|
                0 <= oid < self.openings@.len() implies #[trigger] self.opening_bookkeeping_ok(
                oid,
            ) by {
                assert(prev.opening_bookkeeping_ok(oid));
                let added = prev.openings@[oid].stage@.added();
                assert(self.openings@[oid].stage@.added() =~= added);
                assert forall|i: int|
                    0 <= i < added.len() implies {
                        let aid = #[trigger] added[i];
                        &&& aid < self.applications@.len()
                        &&& self.applications@[aid as int].opening_id == oid
                        &&& self.applications@[aid as int].application_index_in_opening as int == i
                    } by {
                    assert(self.applications@[added[i] as int].opening_id == prev.applications@[
                        added[i] as int].opening_id);
                    assert(self.applications@[added[i] as int].application_index_in_opening == prev
                        .applications@[added[i] as int].application_index_in_opening);
                }
            }
            assert forall|aid: int|
                0 <= aid < self.applications@.len() implies #[trigger] self.application_record_ok(
                aid,
            ) by {
                assert(prev.application_record_ok(aid));
                let a = self.applications@[aid];
                assert(a.opening_id == prev.applications@[aid].opening_id);
                if a.opening_id != opening_id {
                    assert(self.openings@[a.opening_id as int] == prev.openings@[a.opening_id
                        as int]);
                }
            }
        }
        Ok(())
    }
}


/// Whether a vector of identifiers holds the given one.
fn contains_id(ids: &Vec<ApplicationId>, wanted: ApplicationId) -> (r: bool)
    ensures
        r == ids@.contains(wanted),
{
    let mut j: usize = 0;
    while j < ids.len()
        invariant
            j <= ids@.len(),
            forall|k: int| 0 <= k < j ==> ids@[k] != wanted,
        decreases ids@.len() - j,
    {
        if ids[j] == wanted {
            proof {
                assert(ids@[j as int] == wanted);
            }
            return true;
        }
        j = j + 1;
    }
    proof {
        assert(!ids@.contains(wanted));
    }
    false
}

impl Hiring {
    /// Whether every hired identifier names an active application of this
    /// opening.
    pub open spec fn spec_hired_all_active(
        self,
        opening_id: OpeningId,
        hired: Seq<ApplicationId>,
    ) -> bool
        decreases hired.len(),
    {
        if hired.len() == 0 {
            true
        } else {
            &&& self.spec_hired_all_active(opening_id, hired.drop_last())
            &&& self.spec_is_active_application(hired.last())
            &&& self.applications@[hired.last() as int].opening_id == opening_id
        }
    }

    /// When every hired identifier is an active application of the opening,
    /// so is every one of any prefix.
    proof fn lemma_hired_all_active_prefix(
        self,
        opening_id: OpeningId,
        hired: Seq<ApplicationId>,
        k: int,
    )
        requires
            0 <= k <= hired.len(),
        ensures
            self.spec_hired_all_active(opening_id, hired) ==> self.spec_hired_all_active(
                opening_id,
                hired.take(k),
            ),
        decreases hired.len(),
    {
        if k == hired.len() {
            assert(hired.take(k) =~= hired);
        } else if hired.len() > 0 {
            self.lemma_hired_all_active_prefix(opening_id, hired.drop_last(), k);
            assert(hired.take(k) =~= hired.drop_last().take(k));
        }
    }

    /// The outcome `fill_opening` owes: the opening must exist and be in its
    /// review period, and every hired identifier must name one of its active
    /// applications.
    pub open spec fn spec_fill_outcome(
        self,
        opening_id: OpeningId,
        hired: Seq<ApplicationId>,
    ) -> Result<(), FillOpeningError> {
        if !self.spec_has_opening(opening_id) {
            Err(FillOpeningError::OpeningDoesNotExist)
        } else if !self.spec_opening(opening_id).is_in_review_period() {
            Err(FillOpeningError::OpeningNotInReviewPeriod)
        } else if !self.spec_hired_all_active(opening_id, hired) {
            Err(FillOpeningError::HiredApplicationNotActive)
        } else {
            Ok(())
        }
    }

    /// The cause a still-active application is deactivated with when its
    /// opening is filled: hired, or displaced by the filling.
    pub open spec fn spec_fill_cause(
        hired: Seq<ApplicationId>,
        application_id: ApplicationId,
    ) -> ApplicationDeactivationCause {
        if hired.contains(application_id) {
            ApplicationDeactivationCause::Hired
        } else {
            ApplicationDeactivationCause::OpeningFilled
        }
    }

    /// The opening's stage after being filled: deactivated with the filled
    /// cause, every active application counted over to deactivated.
    pub open spec fn spec_filled_stage_view(
        self,
        opening_id: OpeningId,
        current_block: BlockNumber,
    ) -> OpeningStageView {
        let stage_view = self.spec_opening(opening_id)@.stage;
        match stage_view {
            OpeningStageView::Active {
                stage: ActiveOpeningStage::ReviewPeriod {
                    started_accepting_applicants_at_block,
                    started_review_period_at_block,
                },
                applications_added,
                active_application_count,
                unstaking_application_count,
                deactivated_application_count,
            } => {
                let n = self.spec_count_active(applications_added);
                OpeningStageView::Active {
                    stage: ActiveOpeningStage::Deactivated {
                        cause: OpeningDeactivationCause::Filled,
                        deactivated_at_block: current_block,
                        started_accepting_applicants_at_block,
                        started_review_period_at_block: Some(started_review_period_at_block),
                    },
                    applications_added,
                    active_application_count: (active_application_count - n) as u32,
                    unstaking_application_count,
                    deactivated_application_count: (deactivated_application_count + n) as u32,
                }
            },
            _ => stage_view,
        }
    }

    /// Fills an opening out of its review period: the opening is deactivated
    /// with the filled cause, the hired applications are deactivated with the
    /// hired cause, and every other still-active application with the
    /// opening-filled cause, all at once. Applications already unstaking
    /// continue to unstake.
    #[verifier::loop_isolation(false)]
    pub fn fill_opening(
        &mut self,
        opening_id: OpeningId,
        hired_applications: Vec<ApplicationId>,
        current_block: BlockNumber,
    ) -> (r: Result<(), FillOpeningError>)
        requires
            old(self).wf(),
        ensures
            final(self).wf(),
            old(self).spec_fill_outcome(opening_id, hired_applications@) matches Err(e) ==> *final(self) == *old(self) && r == Err::<(), FillOpeningError>(e),
            old(self).spec_fill_outcome(opening_id, hired_applications@) is Ok ==> {
                let o_old = old(self).spec_opening(opening_id);
                let added = o_old@.stage.added();
                let n = old(self).spec_count_active(added);
                &&& (n > o_old@.stage.active_count() ==> *final(self) == *old(self) && r matches
                    Err(FillOpeningError::BrokenInvariant(_)))
                &&& (n <= o_old@.stage.active_count() ==> {
                    &&& r == Ok::<(), FillOpeningError>(())
                    &&& final(self).spec_opening(opening_id)@ == (OpeningView {
                        stage: old(self).spec_filled_stage_view(opening_id, current_block),
                        ..o_old@
                    })
                    &&& final(self).openings@.len() == old(self).openings@.len()
                    &&& (forall|i: int|
                        0 <= i < old(self).openings@.len() && i != opening_id ==> final(self).openings@[i] == old(self).openings@[i])
                    &&& final(self).applications@.len() == old(self).applications@.len()
                    &&& (forall|k: int|
                        0 <= k < added.len() ==> {
                            let aid = #[trigger] added[k];
                            old(self).spec_is_active_application(aid) ==> final(self).applications@[aid as int]@ == Self::spec_deactivated_application(
                                old(self).applications@[aid as int],
                                false,
                                current_block,
                                Self::spec_fill_cause(hired_applications@, aid),
                            )
                        })
                    &&& (forall|aid: int|
                        0 <= aid < old(self).applications@.len() && !(added.contains(
                            aid as ApplicationId,
                        ) && old(self).spec_is_active_application(aid as ApplicationId)) ==> final(self).applications@[aid] == old(self).applications@[aid])
                    &&& final(self).stake_amounts@ == old(self).stake_amounts@
                })
            },
    {
        if opening_id >= self.openings.len() {
            return Err(FillOpeningError::OpeningDoesNotExist);
        }
        proof {
            assert(old(self).opening_bookkeeping_ok(opening_id as int));
        }
        let (started_accepting, started_review): (BlockNumber, BlockNumber) = match &self.openings[
            opening_id].stage {
            OpeningStage::Active {
                stage: ActiveOpeningStage::ReviewPeriod {
                    started_accepting_applicants_at_block,
                    started_review_period_at_block,
                },
                ..
            } => (*started_accepting_applicants_at_block, *started_review_period_at_block),
            _ => {
                return Err(FillOpeningError::OpeningNotInReviewPeriod);
            },
        };
        let mut h: usize = 0;
        while h < hired_applications.len()
            invariant
                h <= hired_applications@.len(),
                self.spec_hired_all_active(opening_id, hired_applications@.take(h as int)),
            decreases hired_applications@.len() - h,
        {
            let hired_id = hired_applications[h];
            let acceptable = hired_id < self.applications.len() && match self.applications[
                hired_id].stage {
                ApplicationStage::Active => true,
                _ => false,
            } && self.applications[hired_id].opening_id == opening_id;
            proof {
                assert(hired_applications@.take(h as int + 1).drop_last()
                    =~= hired_applications@.take(h as int));
                assert(hired_applications@.take(h as int + 1).last()
                    == hired_applications@[h as int]);
            }
            if !acceptable {
                proof {
                    assert(!self.spec_hired_all_active(
                        opening_id,
                        hired_applications@.take(h as int + 1),
                    ));
                    self.lemma_hired_all_active_prefix(
                        opening_id,
                        hired_applications@,
                        h as int + 1,
                    );
                }
                return Err(FillOpeningError::HiredApplicationNotActive);
            }
            h = h + 1;
        }
        proof {
            assert(hired_applications@.take(hired_applications@.len() as int)
                =~= hired_applications@);
        }
        let added_copy: Vec<ApplicationId> = match &self.openings[opening_id].stage {
            OpeningStage::Active { applications_added, .. } => copy_elements(applications_added),
            _ => Vec::new(),
        };
        let active_count: u32 = match &self.openings[opening_id].stage {
            OpeningStage::Active { active_application_count, .. } => *active_application_count,
            _ => 0,
        };
        let mut n: u32 = 0;
        let mut j: usize = 0;
        while j < added_copy.len()
            invariant
                j <= added_copy@.len(),
                added_copy@.len() <= u32::MAX as int,
                n as int == self.spec_count_active(added_copy@.take(j as int)),
                n as int <= j,
            decreases added_copy@.len() - j,
        {
            let aid = added_copy[j];
            let is_active = aid < self.applications.len() && match self.applications[aid].stage {
                ApplicationStage::Active => true,
                _ => false,
            };
            proof {
                assert(added_copy@.take(j as int + 1).drop_last() =~= added_copy@.take(j as int));
                assert(added_copy@.take(j as int + 1).last() == added_copy@[j as int]);
            }
            if is_active {
                n = n + 1;
            }
            j = j + 1;
        }
        proof {
            assert(added_copy@.take(added_copy@.len() as int) =~= added_copy@);
        }
        if n > active_count {
            return Err(
                FillOpeningError::BrokenInvariant(
                    "the active application count of the opening does not match its records",
                ),
            );
        }
        let ghost added_ghost = added_copy@;
        proof {
            assert(added_ghost == old(self).spec_opening(opening_id)@.stage.added());
        }
        let mut j: usize = 0;
        while j < added_copy.len()
            invariant
                j <= added_copy@.len(),
                added_copy@ == added_ghost,
                self.openings@ == old(self).openings@,
                self.stake_amounts@ == old(self).stake_amounts@,
                self.applications@.len() == old(self).applications@.len(),
                forall|k: int|
                    0 <= k < j ==> {
                        let aid = #[trigger] added_ghost[k];
                        &&& (old(self).spec_is_active_application(aid) ==> self.applications@[aid
                            as int]@ == Self::spec_deactivated_application(
                            old(self).applications@[aid as int],
                            false,
                            current_block,
                            Self::spec_fill_cause(hired_applications@, aid),
                        ))
                        &&& (!old(self).spec_is_active_application(aid) ==> self.applications@[aid
                            as int] == old(self).applications@[aid as int])
                    },
                forall|aid: int|
                    0 <= aid < old(self).applications@.len() && !added_ghost.take(
                        j as int,
                    ).contains(aid as ApplicationId) ==> self.applications@[aid] == old(
                        self,
                    ).applications@[aid],
            decreases added_copy@.len() - j,
        {
            let aid = added_copy[j];
            proof {
                assert(old(self).opening_bookkeeping_ok(opening_id as int));
                assert(aid < old(self).applications@.len());
                assert(old(self).applications@[aid as int].application_index_in_opening as int
                    == j as int);
                if added_ghost.take(j as int).contains(aid) {
                    let k = choose|k: int|
                        0 <= k < added_ghost.take(j as int).len() && added_ghost.take(j as int)[k]
                            == aid;
                    assert(added_ghost[k] == aid);
                    assert(old(self).applications@[aid as int].application_index_in_opening as int
                        == k);
                    assert(false);
                }
                assert(self.applications@[aid as int] == old(self).applications@[aid as int]);
            }
            let is_active = match self.applications[aid].stage {
                ApplicationStage::Active => true,
                _ => false,
            };
            if is_active {
                let was_hired = contains_id(&hired_applications, aid);
                let cause = if was_hired {
                    ApplicationDeactivationCause::Hired
                } else {
                    ApplicationDeactivationCause::OpeningFilled
                };
                proof {
                    assert(cause == Self::spec_fill_cause(hired_applications@, aid));
                }
                let target = &mut self.applications[aid];
                target.stage = ApplicationStage::Inactive {
                    deactivation_initiated: current_block,
                    deactivated: current_block,
                    cause,
                };
                target.active_role_staking_id = None;
                target.active_application_staking_id = None;
                proof {
                    assert(self.applications@[aid as int]@ =~= Self::spec_deactivated_application(
                        old(self).applications@[aid as int],
                        false,
                        current_block,
                        Self::spec_fill_cause(hired_applications@, aid),
                    ));
                }
            }
            proof {
                assert(added_ghost.take(j as int + 1)[j as int] == aid);
                assert forall|aid2: int|
                    0 <= aid2 < old(self).applications@.len() && !added_ghost.take(
                        j as int + 1,
                    ).contains(aid2 as ApplicationId) implies self.applications@[aid2] == old(
                    self,
                ).applications@[aid2] by {
                    assert(!added_ghost.take(j as int).contains(aid2 as ApplicationId)) by {
                        if added_ghost.take(j as int).contains(aid2 as ApplicationId) {
                            let k = choose|k: int|
                                0 <= k < added_ghost.take(j as int).len() && added_ghost.take(
                                    j as int,
                                )[k] == aid2 as ApplicationId;
                            assert(added_ghost.take(j as int + 1)[k] == aid2 as ApplicationId);
                        }
                    }
                    assert(aid2 != aid as int);
                }
            }
            j = j + 1;
        }
        proof {
            assert(added_ghost.take(added_ghost.len() as int) =~= added_ghost);
        }
        let applications_len: usize = self.applications.len();
        proof {
            assert(self.applications@.len() == applications_len as int);
        }
        let o = &mut self.openings[opening_id];
        match &mut o.stage {
            OpeningStage::Active {
                stage,
                active_application_count,
                deactivated_application_count,
                ..
            } => {
                *stage = ActiveOpeningStage::Deactivated {
                    cause: OpeningDeactivationCause::Filled,
                    deactivated_at_block: current_block,
                    started_accepting_applicants_at_block: started_accepting,
                    started_review_period_at_block: Some(started_review),
                };
                *active_application_count = *active_application_count - n;
                *deactivated_application_count = *deactivated_application_count + n;
            },
            _ => {
                proof {
                    assert(false);
                }
            },
        }
        proof {
            let prev = *old(self);
            let o_old = prev.spec_opening(opening_id);
            assert forall|aid: int|
                0 <= aid < self.applications@.len() implies {
                    &&& (#[trigger] self.applications@[aid]).opening_id == prev.applications@[
                        aid].opening_id
                    &&& self.applications@[aid].application_index_in_opening == prev.applications@[
                        aid].application_index_in_opening
                } by {
                assert(self.applications@.len() <= usize::MAX as int);
                assert((aid as ApplicationId) as int == aid);
                if added_ghost.contains(aid as ApplicationId) {
                    let k = choose|k: int|
                        0 <= k < added_ghost.len() && added_ghost[k] == aid as ApplicationId;
                    assert(added_ghost[k] == aid as ApplicationId);
                    assert(added_ghost[k] as int == aid);
                    if prev.spec_is_active_application(aid as ApplicationId) {
                        assert(self.applications@[aid]@ == Self::spec_deactivated_application(
                            prev.applications@[aid],
                            false,
                            current_block,
                            Self::spec_fill_cause(hired_applications@, aid as ApplicationId),
                        ));
                        assert(self.applications@[aid]@.opening_id == prev.applications@[
                            aid]@.opening_id);
                    } else {
                        assert(self.applications@[aid] == prev.applications@[aid]);
                    }
                } else {
                    assert(self.applications@[aid] == prev.applications@[aid]);
                }
            }
            assert(self.spec_opening(opening_id)@ =~= (OpeningView {
                stage: prev.spec_filled_stage_view(opening_id, current_block),
                ..o_old@
            }));
            assert forall|oid: int|
                0 <= oid < self.openings@.len() implies #[trigger] self.opening_bookkeeping_ok(
                oid,
            ) by {
                assert(prev.opening_bookkeeping_ok(oid));
                let added = prev.openings@[oid].stage@.added();
                assert(self.openings@[oid].stage@.added() =~= added);
                assert forall|i: int|
                    0 <= i < added.len() implies {
                        let aid = #[trigger] added[i];
                        &&& aid < self.applications@.len()
                        &&& self.applications@[aid as int].opening_id == oid
                        &&& self.applications@[aid as int].application_index_in_opening as int == i
                    } by {
                    assert(self.applications@[added[i] as int].opening_id == prev.applications@[
                        added[i] as int].opening_id);
                    assert(self.applications@[added[i] as int].application_index_in_opening == prev
                        .applications@[added[i] as int].application_index_in_opening);
                }
            }
            assert forall|aid: int|
                0 <= aid < self.applications@.len() implies #[trigger] self.application_record_ok(
                aid,
            ) by {
                assert(prev.application_record_ok(aid));
                let a = self.applications@[aid];
                assert(a.opening_id == prev.applications@[aid].opening_id);
                if a.opening_id != opening_id {
                    assert(self.openings@[a.opening_id as int] == prev.openings@[a.opening_id
                        as int]);
                }
            }
        }
        Ok(())
    }
}

} // verus!
