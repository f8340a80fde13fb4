//! The registry: the bookkeeping core holding every opening, application and
//! recorded stake amount, with the admission and deactivation controllers.

use vstd::prelude::*;

use crate::application::Application;
use crate::opening::ActivateOpeningAt;
use crate::opening::ActiveOpeningStage;
use crate::opening::ApplicationRationingPolicy;
use crate::opening::Opening;
use crate::opening::OpeningStage;
use crate::opening::OpeningStageView;
use crate::opening::OpeningView;
use crate::outcome::AddOpeningError;
use crate::outcome::BeginAcceptingApplicationsError;
use crate::outcome::BeginReviewError;
use crate::stake::StakingPolicy;
use crate::ApplicationId;
use crate::Balance;
use crate::BlockNumber;
use crate::OpeningId;
use crate::StakeId;

verus! {

/// The bookkeeping core. Openings, applications and stake amounts are held in
/// keyed stores whose keys are their positions; identifiers are minted in
/// creation order and never reused.
pub struct Hiring {
    /// Every opening, keyed by [`OpeningId`].
    pub openings: Vec<Opening>,
    /// Every application, keyed by [`ApplicationId`].
    pub applications: Vec<Application>,
    /// The recorded amount of every stake, keyed by [`StakeId`].
    pub stake_amounts: Vec<Balance>,
}

impl Hiring {
    /// Whether an opening with this identifier exists.
    pub open spec fn spec_has_opening(self, opening_id: OpeningId) -> bool {
        opening_id < self.openings@.len()
    }

    /// The opening with this identifier.
    pub open spec fn spec_opening(self, opening_id: OpeningId) -> Opening {
        self.openings@[opening_id as int]
    }

    /// Whether an application with this identifier exists.
    pub open spec fn spec_has_application(self, application_id: ApplicationId) -> bool {
        application_id < self.applications@.len()
    }

    /// The application with this identifier.
    pub open spec fn spec_application(self, application_id: ApplicationId) -> Application {
        self.applications@[application_id as int]
    }

    /// The recorded amount behind an optional stake handle; an absent or
    /// unknown handle counts as zero.
    pub open spec fn spec_stake_amount(self, opt_stake_id: Option<StakeId>) -> int {
        match opt_stake_id {
            Option::Some(stake_id) => if stake_id < self.stake_amounts@.len() {
                self.stake_amounts@[stake_id as int] as int
            } else {
                0
            },
            Option::None => 0,
        }
    }

    /// The total effective stake of an application: the recorded amounts of
    /// its role and application stakes together.
    pub open spec fn spec_total_stake(self, application: Application) -> int {
        self.spec_stake_amount(application.active_role_staking_id) + self.spec_stake_amount(
            application.active_application_staking_id,
        )
    }

    /// The bookkeeping invariant of one opening: while it is active, its
    /// three counters sum to the number of applications ever added, that
    /// number fits the counters, and each added identifier names an existing
    /// application of this opening whose arrival index is its position.
    pub open spec fn opening_bookkeeping_ok(self, opening_id: int) -> bool {
        match self.openings@[opening_id].stage {
            OpeningStage::Active {
                stage: _,
                applications_added,
                active_application_count,
                unstaking_application_count,
                deactivated_application_count,
            } => {
                let added = applications_added@;
                &&& active_application_count as int + unstaking_application_count as int
                    + deactivated_application_count as int == added.len()
                &&& added.len() <= u32::MAX as int
                &&& forall|i: int|
                    0 <= i < added.len() ==> {
                        let application_id = #[trigger] added[i];
                        &&& application_id < self.applications@.len()
                        &&& self.applications@[application_id as int].opening_id == opening_id
                        &&& self.applications@[application_id as int].application_index_in_opening
                            as int == i
                    }
            },
            OpeningStage::WaitingToBegin { .. } => true,
        }
    }

    /// The consistency invariant of one application record: its opening
    /// exists and is in the active stage, and each stake it holds has a
    /// recorded amount and a policy that required it.
    pub open spec fn application_record_ok(self, application_id: int) -> bool {
        let a = self.applications@[application_id];
        &&& a.opening_id < self.openings@.len()
        &&& self.openings@[a.opening_id as int].stage matches OpeningStage::Active { .. }
        &&& (a.active_role_staking_id matches Option::Some(stake_id) ==> stake_id
            < self.stake_amounts@.len() && self.openings@[a.opening_id as int].role_staking_policy
            is Some)
        &&& (a.active_application_staking_id matches Option::Some(stake_id) ==> stake_id
            < self.stake_amounts@.len()
            && self.openings@[a.opening_id as int].application_staking_policy is Some)
    }

    /// Well-formedness of the whole registry: every opening's bookkeeping and
    /// every application record are consistent. Established at creation and
    /// preserved by every operation.
    pub open spec fn wf(self) -> bool {
        &&& forall|opening_id: int|
            0 <= opening_id < self.openings@.len() ==> #[trigger] self.opening_bookkeeping_ok(
                opening_id,
            )
        &&& forall|application_id: int|
            0 <= application_id < self.applications@.len()
                ==> #[trigger] self.application_record_ok(application_id)
    }

    /// An empty registry.
    pub fn new() -> (r: Hiring)
        ensures
            r.wf(),
            r.openings@.len() == 0,
            r.applications@.len() == 0,
            r.stake_amounts@.len() == 0,
    {
        Hiring { openings: Vec::new(), applications: Vec::new(), stake_amounts: Vec::new() }
    }

    /// The opening with this identifier, if it exists.
    pub fn get_opening(&self, opening_id: OpeningId) -> (r: Option<&Opening>)
        ensures
            r is Some <==> self.spec_has_opening(opening_id),
            r matches Some(o) ==> *o == self.spec_opening(opening_id),
    {
        if opening_id < self.openings.len() {
            Some(&self.openings[opening_id])
        } else {
            None
        }
    }

    /// The application with this identifier, if it exists.
    pub fn get_application(&self, application_id: ApplicationId) -> (r: Option<&Application>)
        ensures
            r is Some <==> self.spec_has_application(application_id),
            r matches Some(a) ==> *a == self.spec_application(application_id),
    {
        if application_id < self.applications.len() {
            Some(&self.applications[application_id])
        } else {
            None
        }
    }

    /// The stage a new opening starts in: active and accepting at once, or
    /// waiting for the given later block.
    pub open spec fn spec_initial_stage_view(
        activate_at: ActivateOpeningAt,
        current_block: BlockNumber,
    ) -> OpeningStageView {
        match activate_at {
            ActivateOpeningAt::CurrentBlock => OpeningStageView::Active {
                stage: ActiveOpeningStage::AcceptingApplications {
                    started_accepting_applicants_at_block: current_block,
                },
                applications_added: Seq::empty(),
                active_application_count: 0,
                unstaking_application_count: 0,
                deactivated_application_count: 0,
            },
            ActivateOpeningAt::ExactBlock(begins_at_block) => OpeningStageView::WaitingToBegin {
                begins_at_block,
            },
        }
    }

    /// Whether an activation request is admissible at the current block: an
    /// exact activation block must lie in the future.
    pub open spec fn spec_activation_in_future(
        activate_at: ActivateOpeningAt,
        current_block: BlockNumber,
    ) -> bool {
        match activate_at {
            ActivateOpeningAt::CurrentBlock => true,
            ActivateOpeningAt::ExactBlock(begins_at_block) => begins_at_block > current_block,
        }
    }

    /// Creates an opening. On success the new opening's identifier is
    /// returned; it is created at the current block, in the stage the
    /// activation request asks for, with no applications.
    pub fn add_opening(
        &mut self,
        current_block: BlockNumber,
        activate_at: ActivateOpeningAt,
        max_review_period_length: BlockNumber,
        application_rationing_policy: Option<ApplicationRationingPolicy>,
        application_staking_policy: Option<StakingPolicy>,
        role_staking_policy: Option<StakingPolicy>,
        human_readable_text: Vec<u8>,
    ) -> (r: Result<OpeningId, AddOpeningError>)
        requires
            old(self).wf(),
        ensures
            final(self).wf(),
            !Self::spec_activation_in_future(activate_at, current_block) ==> r == Err::<
                OpeningId,
                _,
            >(AddOpeningError::OpeningMustActivateInTheFuture) && *final(self) == *old(self),
            Self::spec_activation_in_future(activate_at, current_block) ==> {
                &&& r == Ok::<OpeningId, AddOpeningError>(old(self).openings@.len() as OpeningId)
                &&& final(self).openings@.len() == old(self).openings@.len() + 1
                &&& forall|i: int|
                    0 <= i < old(self).openings@.len() ==> final(self).openings@[i] == old(self).openings@[i]
                &&& final(self).openings@.last()@ == (OpeningView {
                    created: current_block,
                    stage: Self::spec_initial_stage_view(activate_at, current_block),
                    max_review_period_length,
                    application_rationing_policy,
                    application_staking_policy,
                    role_staking_policy,
                    human_readable_text: human_readable_text@,
                })
                &&& final(self).applications@ == old(self).applications@
                &&& final(self).stake_amounts@ == old(self).stake_amounts@
            },
    {
        let stage: OpeningStage = match activate_at {
            ActivateOpeningAt::CurrentBlock => OpeningStage::Active {
                stage: ActiveOpeningStage::AcceptingApplications {
                    started_accepting_applicants_at_block: current_block,
                },
                applications_added: Vec::new(),
                active_application_count: 0,
                unstaking_application_count: 0,
                deactivated_application_count: 0,
            },
            ActivateOpeningAt::ExactBlock(begins_at_block) => {
                if begins_at_block <= current_block {
                    return Err(AddOpeningError::OpeningMustActivateInTheFuture);
                }
                OpeningStage::WaitingToBegin { begins_at_block }
            },
        };
        let opening_id = self.openings.len();
        let opening = Opening {
            created: current_block,
            stage,
            max_review_period_length,
            application_rationing_policy,
            application_staking_policy,
            role_staking_policy,
            human_readable_text,
        };
        self.openings.push(opening);
        proof {
            assert(final(self).openings@.last()@ =~= (OpeningView {
                created: current_block,
                stage: Self::spec_initial_stage_view(activate_at, current_block),
                max_review_period_length,
                application_rationing_policy,
                application_staking_policy,
                role_staking_policy,
                human_readable_text: human_readable_text@,
            }));
            assert forall|oid: int|
                0 <= oid < self.openings@.len() implies #[trigger] self.opening_bookkeeping_ok(
                oid,
            ) by {
                if oid < old(self).openings@.len() {
                    assert(old(self).opening_bookkeeping_ok(oid));
                    assert(self.openings@[oid] == old(self).openings@[oid]);
                }
            }
            assert forall|aid: int|
                0 <= aid < self.applications@.len() implies #[trigger] self.application_record_ok(
                aid,
            ) by {
                assert(old(self).application_record_ok(aid));
                let a = self.applications@[aid];
                assert(self.openings@[a.opening_id as int] == old(self).openings@[a.opening_id
                    as int]);
            }
        }
        Ok(opening_id)
    }

    /// The outcome `begin_accepting_applications` owes: success exactly when
    /// the opening exists, waits to begin, and its activation block has been
    /// reached.
    pub open spec fn spec_begin_accepting_outcome(
        self,
        opening_id: OpeningId,
        current_block: BlockNumber,
    ) -> Result<(), BeginAcceptingApplicationsError> {
        if !self.spec_has_opening(opening_id) {
            Err(BeginAcceptingApplicationsError::OpeningDoesNotExist)
        } else {
            match self.spec_opening(opening_id).stage {
                OpeningStage::WaitingToBegin { begins_at_block } => if current_block
                    >= begins_at_block {
                    Ok(())
                } else {
                    Err(BeginAcceptingApplicationsError::OpeningIsNotInWaitingToBeginStage)
                },
                _ => Err(BeginAcceptingApplicationsError::OpeningIsNotInWaitingToBeginStage),
            }
        }
    }

    /// Moves a waiting opening into the active stage, accepting applications
    /// from the current block, with zeroed bookkeeping.
    pub fn begin_accepting_applications(
        &mut self,
        opening_id: OpeningId,
        current_block: BlockNumber,
    ) -> (r: Result<(), BeginAcceptingApplicationsError>)
        requires
            old(self).wf(),
        ensures
            final(self).wf(),
            r == old(self).spec_begin_accepting_outcome(opening_id, current_block),
            r is Err ==> *final(self) == *old(self),
            r is Ok ==> {
                &&& final(self).spec_opening(opening_id)@ == (OpeningView {
                    stage: OpeningStageView::Active {
                        stage: ActiveOpeningStage::AcceptingApplications {
                            started_accepting_applicants_at_block: current_block,
                        },
                        applications_added: Seq::empty(),
                        active_application_count: 0,
                        unstaking_application_count: 0,
                        deactivated_application_count: 0,
                    },
                    ..old(self).spec_opening(opening_id)@
                })
                &&& final(self).openings@.len() == old(self).openings@.len()
                &&& forall|i: int|
                    0 <= i < old(self).openings@.len() && i != opening_id ==> final(self).openings@[i] == old(self).openings@[i]
                &&& final(self).applications@ == old(self).applications@
                &&& final(self).stake_amounts@ == old(self).stake_amounts@
            },
    {
        if opening_id >= self.openings.len() {
            return Err(BeginAcceptingApplicationsError::OpeningDoesNotExist);
        }
        let due = match &self.openings[opening_id].stage {
            OpeningStage::WaitingToBegin { begins_at_block } => current_block >= *begins_at_block,
            _ => false,
        };
        if !due {
            return Err(BeginAcceptingApplicationsError::OpeningIsNotInWaitingToBeginStage);
        }
        let o = &mut self.openings[opening_id];
        o.stage = OpeningStage::Active {
            stage: ActiveOpeningStage::AcceptingApplications {
                started_accepting_applicants_at_block: current_block,
            },
            applications_added: Vec::new(),
            active_application_count: 0,
            unstaking_application_count: 0,
            deactivated_application_count: 0,
        };
        proof {
            assert(final(self).spec_opening(opening_id)@ =~= (OpeningView {
                stage: OpeningStageView::Active {
                    stage: ActiveOpeningStage::AcceptingApplications {
                        started_accepting_applicants_at_block: current_block,
                    },
                    applications_added: Seq::empty(),
                    active_application_count: 0,
                    unstaking_application_count: 0,
                    deactivated_application_count: 0,
                },
                ..old(self).spec_opening(opening_id)@
            }));
            assert forall|oid: int|
                0 <= oid < self.openings@.len() implies #[trigger] self.opening_bookkeeping_ok(
                oid,
            ) by {
                if oid != opening_id {
                    assert(old(self).opening_bookkeeping_ok(oid));
                    assert(self.openings@[oid] == old(self).openings@[oid]);
                }
            }
            assert forall|aid: int|
                0 <= aid < self.applications@.len() implies #[trigger] self.application_record_ok(
                aid,
            ) by {
                assert(old(self).application_record_ok(aid));
                let a = self.applications@[aid];
                if a.opening_id != opening_id {
                    assert(self.openings@[a.opening_id as int] == old(self).openings@[a.opening_id
                        as int]);
                }
            }
        }
        Ok(())
    }

    /// The outcome `begin_review` owes: success exactly when the opening
    /// exists and is accepting applications.
    pub open spec fn spec_begin_review_outcome(self, opening_id: OpeningId) -> Result<
        (),
        BeginReviewError,
    > {
        if !self.spec_has_opening(opening_id) {
            Err(BeginReviewError::OpeningDoesNotExist)
        } else if !self.spec_opening(opening_id).is_accepting_applications() {
            Err(BeginReviewError::OpeningNotInAcceptingApplicationsStage)
        } else {
            Ok(())
        }
    }

    /// The stage view after `begin_review`: the review period starts at the
    /// current block and the block at which accepting started is preserved,
    /// as is all bookkeeping.
    pub open spec fn spec_review_stage_view(
        stage: OpeningStageView,
        current_block: BlockNumber,
    ) -> OpeningStageView {
        match stage {
            OpeningStageView::Active {
                stage: ActiveOpeningStage::AcceptingApplications {
                    started_accepting_applicants_at_block,
                },
                applications_added,
                active_application_count,
                unstaking_application_count,
                deactivated_application_count,
            } => OpeningStageView::Active {
                stage: ActiveOpeningStage::ReviewPeriod {
                    started_accepting_applicants_at_block,
                    started_review_period_at_block: current_block,
                },
                applications_added,
                active_application_count,
                unstaking_application_count,
                deactivated_application_count,
            },
            _ => stage,
        }
    }

    /// Moves an accepting opening into its review period, starting at the
    /// current block.
    pub fn begin_review(&mut self, opening_id: OpeningId, current_block: BlockNumber) -> (r: Result<
        (),
        BeginReviewError,
    >)
        requires
            old(self).wf(),
        ensures
            final(self).wf(),
            r == old(self).spec_begin_review_outcome(opening_id),
            r is Err ==> *final(self) == *old(self),
            r is Ok ==> {
                &&& final(self).spec_opening(opening_id)@ == (OpeningView {
                    stage: Self::spec_review_stage_view(
                        old(self).spec_opening(opening_id)@.stage,
                        current_block,
                    ),
                    ..old(self).spec_opening(opening_id)@
                })
                &&& final(self).openings@.len() == old(self).openings@.len()
                &&& forall|i: int|
                    0 <= i < old(self).openings@.len() && i != opening_id ==> final(self).openings@[i] == old(self).openings@[i]
                &&& final(self).applications@ == old(self).applications@
                &&& final(self).stake_amounts@ == old(self).stake_amounts@
            },
    {
        if opening_id >= self.openings.len() {
            return Err(BeginReviewError::OpeningDoesNotExist);
        }
        let accepting_since: Option<BlockNumber> = match &self.openings[opening_id].stage {
            OpeningStage::Active {
                stage: ActiveOpeningStage::AcceptingApplications {
                    started_accepting_applicants_at_block,
                },
                ..
            } => Some(*started_accepting_applicants_at_block),
            _ => None,
        };
        let started_accepting = match accepting_since {
            Some(block) => block,
            None => {
                return Err(BeginReviewError::OpeningNotInAcceptingApplicationsStage);
            },
        };
        let o = &mut self.openings[opening_id];
        match &mut o.stage {
            OpeningStage::Active { stage, .. } => {
                *stage = ActiveOpeningStage::ReviewPeriod {
                    started_accepting_applicants_at_block: started_accepting,
                    started_review_period_at_block: current_block,
                };
            },
            _ => {
                proof {
                    assert(false);
                }
            },
        }
        proof {
            assert(final(self).spec_opening(opening_id)@ =~= (OpeningView {
                stage: Self::spec_review_stage_view(
                    old(self).spec_opening(opening_id)@.stage,
                    current_block,
                ),
                ..old(self).spec_opening(opening_id)@
            }));
            assert forall|oid: int|
                0 <= oid < self.openings@.len() implies #[trigger] self.opening_bookkeeping_ok(
                oid,
            ) by {
                assert(old(self).opening_bookkeeping_ok(oid));
                if oid != opening_id {
                    assert(self.openings@[oid] == old(self).openings@[oid]);
                }
            }
            assert forall|aid: int|
                0 <= aid < self.applications@.len() implies #[trigger] self.application_record_ok(
                aid,
            ) by {
                assert(old(self).application_record_ok(aid));
                let a = self.applications@[aid];
                if a.opening_id != opening_id {
                    assert(self.openings@[a.opening_id as int] == old(self).openings@[a.opening_id
                        as int]);
                }
            }
        }
        Ok(())
    }
}

} // verus!
