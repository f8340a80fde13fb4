//! Result and error types of the registry's operations. Errors are closed,
//! enumerated variants; every fallible operation returns a result whose
//! failure names exactly one cause.

use vstd::prelude::*;

use crate::opening::ActiveOpeningStage;
use crate::opening::Opening;
use crate::opening::OpeningView;
use crate::stake::StakePurpose;
use crate::ApplicationId;

verus! {

/// Failure of creating an opening.
#[derive(Clone, Copy, Debug, PartialEq, Eq)]
pub enum AddOpeningError {
    OpeningMustActivateInTheFuture,
}

/// Failure of moving an opening out of its waiting stage.
#[derive(Clone, Copy, Debug, PartialEq, Eq)]
pub enum BeginAcceptingApplicationsError {
    OpeningDoesNotExist,
    OpeningIsNotInWaitingToBeginStage,
}

/// Failure of starting an opening's review period.
#[derive(Clone, Copy, Debug, PartialEq, Eq)]
pub enum BeginReviewError {
    OpeningDoesNotExist,
    OpeningNotInAcceptingApplicationsStage,
}

/// Failure of cancelling an opening.
#[derive(Clone, Copy, Debug, PartialEq, Eq)]
pub enum CancelOpeningError {
    OpeningDoesNotExist,
    OpeningNotInCancellableStage,
    BrokenInvariant(&'static str),
}

/// Failure of filling an opening with hired applications.
#[derive(Clone, Copy, Debug, PartialEq, Eq)]
pub enum FillOpeningError {
    OpeningDoesNotExist,
    OpeningNotInReviewPeriod,
    HiredApplicationNotActive,
    BrokenInvariant(&'static str),
}

/// Failure of forcing an opening's review period to expire.
#[derive(Clone, Copy, Debug, PartialEq, Eq)]
pub enum ExpireReviewPeriodError {
    OpeningDoesNotExist,
    OpeningNotInReviewPeriod,
    ReviewPeriodNotExpired,
    BrokenInvariant(&'static str),
}

/// Failure of evaluating or committing the admission of a new application.
/// `BrokenInvariant` is reserved for states that correct commit discipline
/// can never produce; it is a fatal signal, not a business rejection.
#[derive(Clone, Copy, Debug, PartialEq, Eq)]
pub enum AddApplicationError {
    OpeningDoesNotExist,
    StakeProvidedWhenRedundant(StakePurpose),
    StakeMissingWhenRequired(StakePurpose),
    StakeAmountTooLow(StakePurpose),
    OpeningNotInAcceptingApplicationsStage,
    NewApplicationWasCrowdedOut,
    BrokenInvariant(&'static str),
}

/// Failure of evaluating or committing an individual application
/// deactivation. `BrokenInvariant` is as in [`AddApplicationError`].
#[derive(Clone, Copy, Debug, PartialEq, Eq)]
pub enum DeactivateApplicationError {
    ApplicationDoesNotExist,
    ApplicationNotActive,
    OpeningNotAcceptingApplications,
    UnstakingPeriodTooShort(StakePurpose),
    RedundantUnstakingPeriodProvided(StakePurpose),
    BrokenInvariant(&'static str),
}

/// Failure of completing an application's unstaking.
#[derive(Clone, Copy, Debug, PartialEq, Eq)]
pub enum CompleteUnstakingError {
    ApplicationDoesNotExist,
    ApplicationNotUnstaking,
    BrokenInvariant(&'static str),
}

/// How a new application would be admitted: without displacing anyone, or by
/// crowding out the named weakest active application.
#[derive(Clone, Copy, Debug, PartialEq, Eq)]
pub enum ApplicationAddedSuccess {
    Unconditionally,
    CrowdsOutExistingApplication(ApplicationId),
}

/// The result of committing an admission: the identifier the new application
/// received, and the application it crowded out, if any.
#[derive(Clone, Copy, Debug, PartialEq, Eq)]
pub struct ApplicationAdded {
    pub application_id_added: ApplicationId,
    pub application_id_crowded_out: Option<ApplicationId>,
}

/// The read-only evaluation snapshot returned by a successful
/// admission check: the opening as read, its active sub-stage, its
/// bookkeeping, and how the new application would be admitted. Committing is
/// a separate step.
#[derive(Debug, PartialEq, Eq)]
pub struct DestructuredApplicationCanBeAddedEvaluation {
    pub opening: Opening,
    pub active_stage: ActiveOpeningStage,
    pub applications_added: Vec<ApplicationId>,
    pub active_application_count: u32,
    pub unstaking_application_count: u32,
    pub deactivated_application_count: u32,
    pub would_get_added_success: ApplicationAddedSuccess,
}

/// Mathematical model of an admission evaluation snapshot.
#[verifier::ext_equal]
pub struct EvaluationView {
    pub opening: OpeningView,
    pub active_stage: ActiveOpeningStage,
    pub applications_added: Seq<ApplicationId>,
    pub active_application_count: u32,
    pub unstaking_application_count: u32,
    pub deactivated_application_count: u32,
    pub would_get_added_success: ApplicationAddedSuccess,
}

impl View for DestructuredApplicationCanBeAddedEvaluation {
    type V = EvaluationView;

    open spec fn view(&self) -> EvaluationView {
        EvaluationView {
            opening: self.opening@,
            active_stage: self.active_stage,
            applications_added: self.applications_added@,
            active_application_count: self.active_application_count,
            unstaking_application_count: self.unstaking_application_count,
            deactivated_application_count: self.deactivated_application_count,
            would_get_added_success: self.would_get_added_success,
        }
    }
}

} // verus!
