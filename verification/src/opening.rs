//! The opening entity and its stage machine.

use vstd::prelude::*;

use crate::stake::StakingPolicy;
use crate::ApplicationId;
use crate::BlockNumber;

verus! {

/// The reason an opening was deactivated.
#[derive(Clone, Copy, Debug, PartialEq, Eq, Structural)]
pub enum OpeningDeactivationCause {
    CancelledBeforeActivation,
    CancelledAcceptingApplications,
    CancelledInReviewPeriod,
    ReviewPeriodExpired,
    Filled,
}

/// Sub-state of an active opening: first accepting applications, then in a
/// review period, and finally deactivated for good.
#[derive(Clone, Copy, Debug, PartialEq, Eq)]
pub enum ActiveOpeningStage {
    /// Initial sub-state.
    AcceptingApplications {
        started_accepting_applicants_at_block: BlockNumber,
    },
    /// Applications are under review; no new ones are admitted.
    ReviewPeriod {
        started_accepting_applicants_at_block: BlockNumber,
        started_review_period_at_block: BlockNumber,
    },
    /// Terminal sub-state.
    Deactivated {
        cause: OpeningDeactivationCause,
        deactivated_at_block: BlockNumber,
        started_accepting_applicants_at_block: BlockNumber,
        /// Whether the review period had ever been started, and if so, at
        /// what block. Deactivation can also occur directly from the
        /// accepting sub-state.
        started_review_period_at_block: Option<BlockNumber>,
    },
}

impl ActiveOpeningStage {
    /// Stage guard: succeeds with the block at which applications began to be
    /// accepted exactly when the stage is accepting applications, and returns
    /// the given error otherwise.
    pub fn ensure_active_opening_is_accepting_applications<E>(&self, error: E) -> (r: Result<BlockNumber, E>)
        ensures
            *self matches ActiveOpeningStage::AcceptingApplications {
                started_accepting_applicants_at_block,
            } ==> r == Ok::<BlockNumber, E>(started_accepting_applicants_at_block),
            !(*self matches ActiveOpeningStage::AcceptingApplications { .. }) ==> r == Err::<BlockNumber, E>(error),
    {
        if let ActiveOpeningStage::AcceptingApplications {
            started_accepting_applicants_at_block,
        } = self {
            return Ok(*started_accepting_applicants_at_block);
        }
        Err(error)
    }

    /// Stage guard: succeeds with the blocks at which accepting and the
    /// review period started exactly when the stage is the review period, and
    /// returns the given error otherwise.
    pub fn ensure_active_opening_is_in_review_period<E>(&self, error: E) -> (r: Result<(BlockNumber, BlockNumber), E>)
        ensures
            *self matches ActiveOpeningStage::ReviewPeriod {
                started_accepting_applicants_at_block,
                started_review_period_at_block,
            } ==> r == Ok::<(BlockNumber, BlockNumber), E>(
                (started_accepting_applicants_at_block, started_review_period_at_block),
            ),
            !(*self matches ActiveOpeningStage::ReviewPeriod { .. }) ==> r == Err::<(BlockNumber, BlockNumber), E>(error),
    {
        match self {
            ActiveOpeningStage::ReviewPeriod {
                started_accepting_applicants_at_block,
                started_review_period_at_block,
            } => Ok((*started_accepting_applicants_at_block, *started_review_period_at_block)),
            _ => Err(error),
        }
    }
}

/// A cap on concurrently active applications, enforced through a crowd-out
/// comparison when exceeded.
#[derive(Clone, Copy, Debug, PartialEq, Eq)]
pub struct ApplicationRationingPolicy {
    /// The maximum number of applications that can be active at any time.
    pub max_active_applicants: u32,
}

/// Stage of an opening. An opening waits to begin, then is active; the
/// sub-stages of the active stage, including its terminal deactivation, are
/// [`ActiveOpeningStage`].
#[derive(Debug, PartialEq, Eq)]
pub enum OpeningStage {
    /// Not yet open for applications.
    WaitingToBegin {
        begins_at_block: BlockNumber,
    },
    /// Open; owns the aggregate bookkeeping of its applications.
    Active {
        /// The sub-state.
        stage: ActiveOpeningStage,
        /// Every application ever added, in arrival order. Membership is
        /// permanent bookkeeping: the set only grows, even after an
        /// application becomes inactive.
        applications_added: Vec<ApplicationId>,
        /// Number of added applications currently active.
        active_application_count: u32,
        /// Number of added applications currently unstaking.
        unstaking_application_count: u32,
        /// Number of added applications deactivated for good.
        deactivated_application_count: u32,
    },
}

/// Mathematical model of an opening stage.
#[verifier::ext_equal]
pub enum OpeningStageView {
    WaitingToBegin {
        begins_at_block: BlockNumber,
    },
    Active {
        stage: ActiveOpeningStage,
        applications_added: Seq<ApplicationId>,
        active_application_count: u32,
        unstaking_application_count: u32,
        deactivated_application_count: u32,
    },
}

impl View for OpeningStage {
    type V = OpeningStageView;

    open spec fn view(&self) -> OpeningStageView {
        match *self {
            OpeningStage::WaitingToBegin { begins_at_block } => OpeningStageView::WaitingToBegin {
                begins_at_block,
            },
            OpeningStage::Active {
                stage,
                applications_added,
                active_application_count,
                unstaking_application_count,
                deactivated_application_count,
            } => OpeningStageView::Active {
                stage,
                applications_added: applications_added@,
                active_application_count,
                unstaking_application_count,
                deactivated_application_count,
            },
        }
    }
}

impl OpeningStageView {
    /// The applications ever added, when the stage is active; empty
    /// otherwise.
    pub open spec fn added(self) -> Seq<ApplicationId> {
        match self {
            OpeningStageView::Active { applications_added, .. } => applications_added,
            OpeningStageView::WaitingToBegin { .. } => Seq::empty(),
        }
    }

    /// The active application count, when the stage is active; zero
    /// otherwise.
    pub open spec fn active_count(self) -> u32 {
        match self {
            OpeningStageView::Active { active_application_count, .. } => active_application_count,
            OpeningStageView::WaitingToBegin { .. } => 0,
        }
    }

    /// The unstaking application count, when the stage is active; zero
    /// otherwise.
    pub open spec fn unstaking_count(self) -> u32 {
        match self {
            OpeningStageView::Active { unstaking_application_count, .. } => unstaking_application_count,
            OpeningStageView::WaitingToBegin { .. } => 0,
        }
    }
}

/// When an opening created now should become active.
#[derive(Clone, Copy, Debug, PartialEq, Eq)]
pub enum ActivateOpeningAt {
    /// At once.
    CurrentBlock,
    /// At the given later block.
    ExactBlock(BlockNumber),
}

/// A position accepting applications, progressing through acceptance, review,
/// and deactivation stages.
#[derive(Debug, PartialEq, Eq)]
pub struct Opening {
    /// Block at which the opening was created. Immutable.
    pub created: BlockNumber,
    /// Current stage.
    pub stage: OpeningStage,
    /// Maximum number of blocks the review stage may last before forced
    /// expiry.
    pub max_review_period_length: BlockNumber,
    /// Optional cap on concurrently active applications.
    pub application_rationing_policy: Option<ApplicationRationingPolicy>,
    /// Optional staking requirement on the application itself.
    pub application_staking_policy: Option<StakingPolicy>,
    /// Optional staking requirement on the role.
    pub role_staking_policy: Option<StakingPolicy>,
    /// Opaque payload; never interpreted.
    pub human_readable_text: Vec<u8>,
}

/// Mathematical model of an opening.
#[verifier::ext_equal]
pub struct OpeningView {
    pub created: BlockNumber,
    pub stage: OpeningStageView,
    pub max_review_period_length: BlockNumber,
    pub application_rationing_policy: Option<ApplicationRationingPolicy>,
    pub application_staking_policy: Option<StakingPolicy>,
    pub role_staking_policy: Option<StakingPolicy>,
    pub human_readable_text: Seq<u8>,
}

impl View for Opening {
    type V = OpeningView;

    open spec fn view(&self) -> OpeningView {
        OpeningView {
            created: self.created,
            stage: self.stage@,
            max_review_period_length: self.max_review_period_length,
            application_rationing_policy: self.application_rationing_policy,
            application_staking_policy: self.application_staking_policy,
            role_staking_policy: self.role_staking_policy,
            human_readable_text: self.human_readable_text@,
        }
    }
}

/// Copies a vector of plain values.
pub(crate) fn copy_elements<T: Copy>(source: &Vec<T>) -> (r: Vec<T>)
    ensures
        r@ == source@,
{
    let mut r: Vec<T> = Vec::new();
    let mut i: usize = 0;
    while i < source.len()
        invariant
            i <= source.len(),
            r@ == source@.take(i as int),
        decreases source.len() - i,
    {
        r.push(source[i]);
        proof {
            assert(r@ =~= source@.take(i + 1 as int));
        }
        i = i + 1;
    }
    proof {
        assert(r@ =~= source@);
    }
    r
}

impl OpeningStage {
    /// A copy of the stage, equal to it in the model.
    pub fn duplicate(&self) -> (r: OpeningStage)
        ensures
            r@ == self@,
    {
        match self {
            OpeningStage::WaitingToBegin { begins_at_block } => OpeningStage::WaitingToBegin {
                begins_at_block: *begins_at_block,
            },
            OpeningStage::Active {
                stage,
                applications_added,
                active_application_count,
                unstaking_application_count,
                deactivated_application_count,
            } => OpeningStage::Active {
                stage: *stage,
                applications_added: copy_elements(applications_added),
                active_application_count: *active_application_count,
                unstaking_application_count: *unstaking_application_count,
                deactivated_application_count: *deactivated_application_count,
            },
        }
    }
}

impl Opening {
    /// A copy of the opening, equal to it in the model.
    pub fn duplicate(&self) -> (r: Opening)
        ensures
            r@ == self@,
    {
        Opening {
            created: self.created,
            stage: self.stage.duplicate(),
            max_review_period_length: self.max_review_period_length,
            application_rationing_policy: self.application_rationing_policy,
            application_staking_policy: self.application_staking_policy,
            role_staking_policy: self.role_staking_policy,
            human_readable_text: copy_elements(&self.human_readable_text),
        }
    }

    /// Whether the opening is active and accepting applications.
    pub open spec fn is_accepting_applications(self) -> bool {
        self.stage matches OpeningStage::Active {
            stage: ActiveOpeningStage::AcceptingApplications { .. },
            ..
        }
    }

    /// Whether the opening is active and in its review period.
    pub open spec fn is_in_review_period(self) -> bool {
        self.stage matches OpeningStage::Active {
            stage: ActiveOpeningStage::ReviewPeriod { .. },
            ..
        }
    }
}

} // verus!
