//! Admission control and lifecycle bookkeeping for role openings and the
//! applications made against them.
//!
//! An opening advances from waiting to begin, through accepting applications
//! and a review period, to a deactivated end state. Each application advances
//! from active, possibly through an unstaking delay, to an inactive end state,
//! and carries the cause of its deactivation. Admission of a new application
//! validates the supplied stakes against the opening's staking policies and
//! enforces an optional cap on concurrently active applications through a
//! crowd-out comparison on staked amounts.
//!
//! Evaluation functions are read-only and report what would happen; distinct
//! commit functions apply a transition. While an opening is active, the sum of
//! its active, unstaking and deactivated application counts always equals the
//! number of applications ever added to it.

use vstd::prelude::*;

pub mod admission;
pub mod application;
pub mod deactivation;
pub mod laws;
pub mod opening;
pub mod outcome;
pub mod registry;
pub mod stake;

pub use application::Application;
pub use application::ApplicationDeactivationCause;
pub use application::ApplicationStage;
pub use opening::ActivateOpeningAt;
pub use opening::ActiveOpeningStage;
pub use opening::ApplicationRationingPolicy;
pub use opening::Opening;
pub use opening::OpeningDeactivationCause;
pub use opening::OpeningStage;
pub use outcome::AddApplicationError;
pub use outcome::AddOpeningError;
pub use outcome::ApplicationAdded;
pub use outcome::BeginAcceptingApplicationsError;
pub use outcome::BeginReviewError;
pub use outcome::CancelOpeningError;
pub use outcome::CompleteUnstakingError;
pub use outcome::DeactivateApplicationError;
pub use outcome::DestructuredApplicationCanBeAddedEvaluation;
pub use outcome::ExpireReviewPeriodError;
pub use outcome::FillOpeningError;
pub use outcome::ApplicationAddedSuccess;
pub use registry::Hiring;
pub use stake::StakePurpose;
pub use stake::StakingAmountLimitMode;
pub use stake::StakingPolicy;

verus! {

/// Identifier of an opening in the registry. Openings are numbered in the
/// order of their creation.
pub type OpeningId = usize;

/// Identifier of an application in the registry. Applications are numbered in
/// the order of their creation, across all openings.
pub type ApplicationId = usize;

/// Handle for a stake whose amount the registry records.
pub type StakeId = usize;

/// A block number of the ledger's monotonic clock. Supplied by the caller;
/// the registry never reads a clock of its own.
pub type BlockNumber = u64;

/// A staked amount.
pub type Balance = u64;

} // verus!
