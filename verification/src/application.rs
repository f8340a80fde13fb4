//! The application entity and its stage machine.

use vstd::prelude::*;

use crate::ApplicationId;
use crate::BlockNumber;
use crate::OpeningId;
use crate::StakeId;

verus! {

/// The reason an application left (or is leaving) its active stage. Recorded
/// when deactivation begins and carried through to the terminal inactive
/// record as the permanent audit reason.
#[derive(Clone, Copy, Debug, PartialEq, Eq, Structural)]
pub enum ApplicationDeactivationCause {
    External,
    Hired,
    NotHired,
    CrowdedOut,
    OpeningCancelled,
    ReviewPeriodExpired,
    OpeningFilled,
}

/// Lifecycle stage of an application: active, then possibly waiting for a
/// non-zero unstaking period to complete, then inactive for good.
#[derive(Clone, Copy, Debug, PartialEq, Eq)]
pub enum ApplicationStage {
    /// Normal initial state.
    Active,
    /// Waiting for one or more unstakings, with a non-zero unstaking period,
    /// to complete.
    Unstaking {
        /// When deactivation was initiated.
        deactivation_initiated: BlockNumber,
        /// The cause of the deactivation.
        cause: ApplicationDeactivationCause,
    },
    /// Terminal state.
    Inactive {
        /// When deactivation was initiated.
        deactivation_initiated: BlockNumber,
        /// When deactivation completed and the inactive state was established.
        deactivated: BlockNumber,
        /// The cause of the deactivation.
        cause: ApplicationDeactivationCause,
    },
}

/// An application for an actor to occupy an opening.
#[derive(Debug, PartialEq, Eq)]
pub struct Application {
    /// The opening this application is for.
    pub opening_id: OpeningId,
    /// Index of arrival across all applications for the opening, starting at
    /// 0; establishes a strict arrival order independent of storage layout.
    pub application_index_in_opening: u32,
    /// Block at which this application was added.
    pub add_to_opening_in_block: BlockNumber,
    /// Stake established for the role. Set if and only if the role staking
    /// policy of the corresponding opening requires one and the application
    /// is not inactive.
    pub active_role_staking_id: Option<StakeId>,
    /// Stake established for the application itself. Set if and only if the
    /// application staking policy of the corresponding opening requires one
    /// and the application is not inactive.
    pub active_application_staking_id: Option<StakeId>,
    /// Status of this application.
    pub stage: ApplicationStage,
    /// Opaque payload; never interpreted.
    pub human_readable_text: Vec<u8>,
}

/// Mathematical model of an application record.
#[verifier::ext_equal]
pub struct ApplicationView {
    pub opening_id: OpeningId,
    pub application_index_in_opening: u32,
    pub add_to_opening_in_block: BlockNumber,
    pub active_role_staking_id: Option<StakeId>,
    pub active_application_staking_id: Option<StakeId>,
    pub stage: ApplicationStage,
    pub human_readable_text: Seq<u8>,
}

impl View for Application {
    type V = ApplicationView;

    open spec fn view(&self) -> ApplicationView {
        ApplicationView {
            opening_id: self.opening_id,
            application_index_in_opening: self.application_index_in_opening,
            add_to_opening_in_block: self.add_to_opening_in_block,
            active_role_staking_id: self.active_role_staking_id,
            active_application_staking_id: self.active_application_staking_id,
            stage: self.stage,
            human_readable_text: self.human_readable_text@,
        }
    }
}

impl Application {
    /// Whether the application is in its normal active stage.
    pub open spec fn is_active(self) -> bool {
        self.stage is Active
    }

    /// Whether the application is waiting for unstaking to complete.
    pub open spec fn is_unstaking(self) -> bool {
        self.stage is Unstaking
    }
}

} // verus!
