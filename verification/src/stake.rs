//! Staking policies and the pure evaluator that validates supplied stakes
//! against them.

use vstd::prelude::*;

use crate::application::ApplicationDeactivationCause;
use crate::Balance;
use crate::BlockNumber;

verus! {

/// Which of an opening's two independent staking policies a stake or an error
/// refers to.
#[derive(Clone, Copy, Debug, PartialEq, Eq, Structural)]
pub enum StakePurpose {
    Role,
    Application,
}

/// Whether a supplied stake must reach the policy's amount or match it
/// exactly.
#[derive(Clone, Copy, Debug, PartialEq, Eq, Structural)]
pub enum StakingAmountLimitMode {
    AtLeast,
    Exact,
}

/// A staking requirement an opening attaches to one purpose.
#[derive(Clone, Copy, Debug, PartialEq, Eq)]
pub struct StakingPolicy {
    /// The required amount, read according to `amount_mode`.
    pub amount: Balance,
    /// How `amount` bounds a supplied stake.
    pub amount_mode: StakingAmountLimitMode,
    /// Unstaking delay imposed when the stake's application is crowded out.
    /// `None` means the stake is released at once.
    pub crowded_out_unstaking_period_length: Option<BlockNumber>,
    /// Unstaking delay imposed when the opening's review period expires.
    /// `None` means the stake is released at once.
    pub review_period_expired_unstaking_period_length: Option<BlockNumber>,
}

/// A failure of stake validation, naming the purpose whose policy was
/// violated.
#[derive(Clone, Copy, Debug, PartialEq, Eq)]
pub enum StakeValidationError {
    StakeProvidedWhenRedundant(StakePurpose),
    StakeMissingWhenRequired(StakePurpose),
    StakeAmountTooLow(StakePurpose),
}

/// A failure of unstaking-period validation, naming the purpose whose policy
/// was violated.
#[derive(Clone, Copy, Debug, PartialEq, Eq)]
pub enum UnstakingPeriodError {
    UnstakingPeriodTooShort(StakePurpose),
    RedundantUnstakingPeriodProvided(StakePurpose),
}

/// Whether a supplied amount satisfies a policy's amount requirement.
pub open spec fn spec_amount_satisfies_policy(supplied: Balance, policy: StakingPolicy) -> bool {
    match policy.amount_mode {
        StakingAmountLimitMode::AtLeast => supplied >= policy.amount,
        StakingAmountLimitMode::Exact => supplied == policy.amount,
    }
}

/// The outcome of validating one optional stake against one optional policy:
/// no policy and no stake is valid and unstaked (`Ok(None)`); a stake without
/// a policy is redundant; a policy without a stake is a missing stake; with
/// both present the amount must satisfy the policy, and the amount to be
/// staked is returned.
pub open spec fn spec_validate_stake(
    purpose: StakePurpose,
    opt_stake: Option<Balance>,
    opt_policy: Option<StakingPolicy>,
) -> Result<Option<Balance>, StakeValidationError> {
    match (opt_stake, opt_policy) {
        (Option::None, Option::None) => Ok(None),
        (Option::Some(_), Option::None) => Err(
            StakeValidationError::StakeProvidedWhenRedundant(purpose),
        ),
        (Option::None, Option::Some(_)) => Err(
            StakeValidationError::StakeMissingWhenRequired(purpose),
        ),
        (Option::Some(supplied), Option::Some(policy)) => if spec_amount_satisfies_policy(
            supplied,
            policy,
        ) {
            Ok(Some(supplied))
        } else {
            Err(StakeValidationError::StakeAmountTooLow(purpose))
        },
    }
}

/// Staking policy evaluator: classifies a supplied (or absent) stake amount
/// against a policy (or its absence) for one purpose. Pure; no side effects.
pub fn validate_stake(
    purpose: StakePurpose,
    opt_stake: Option<Balance>,
    opt_policy: &Option<StakingPolicy>,
) -> (r: Result<Option<Balance>, StakeValidationError>)
    ensures
        r == spec_validate_stake(purpose, opt_stake, *opt_policy),
{
    match (opt_stake, opt_policy) {
        (None, None) => Ok(None),
        (Some(_), None) => Err(StakeValidationError::StakeProvidedWhenRedundant(purpose)),
        (None, Some(_)) => Err(StakeValidationError::StakeMissingWhenRequired(purpose)),
        (Some(supplied), Some(policy)) => {
            let satisfied = match policy.amount_mode {
                StakingAmountLimitMode::AtLeast => supplied >= policy.amount,
                StakingAmountLimitMode::Exact => supplied == policy.amount,
            };
            if satisfied {
                Ok(Some(supplied))
            } else {
                Err(StakeValidationError::StakeAmountTooLow(purpose))
            }
        },
    }
}

/// The unstaking period a policy stipulates for a deactivation cause: being
/// crowded out and review-period expiry read their dedicated policy fields;
/// every other cause releases the stake at once.
pub open spec fn spec_required_unstaking_period(
    policy: StakingPolicy,
    cause: ApplicationDeactivationCause,
) -> BlockNumber {
    match cause {
        ApplicationDeactivationCause::CrowdedOut => match policy
            .crowded_out_unstaking_period_length {
            Option::Some(period) => period,
            Option::None => 0,
        },
        ApplicationDeactivationCause::ReviewPeriodExpired => match policy
            .review_period_expired_unstaking_period_length {
            Option::Some(period) => period,
            Option::None => 0,
        },
        _ => 0,
    }
}

/// Whether a deactivation cause takes its unstaking period from the policy
/// rather than from the caller.
pub open spec fn spec_cause_is_policy_driven(cause: ApplicationDeactivationCause) -> bool {
    cause is CrowdedOut || cause is ReviewPeriodExpired
}

/// The outcome of validating a caller-supplied unstaking period for a stake
/// the application holds. When the policy stipulates a non-zero period for
/// the cause, the caller must supply at least that period; when the cause is
/// policy-driven and the policy stipulates none, supplying one is redundant;
/// for the remaining causes the stake unstakes over the supplied period, or at
/// once when none is supplied.
pub open spec fn spec_validate_unstaking_period(
    purpose: StakePurpose,
    policy: StakingPolicy,
    cause: ApplicationDeactivationCause,
    supplied: Option<BlockNumber>,
) -> Result<BlockNumber, UnstakingPeriodError> {
    let required = spec_required_unstaking_period(policy, cause);
    if required > 0 {
        match supplied {
            Option::Some(period) => if period >= required {
                Ok(period)
            } else {
                Err(UnstakingPeriodError::UnstakingPeriodTooShort(purpose))
            },
            Option::None => Err(UnstakingPeriodError::UnstakingPeriodTooShort(purpose)),
        }
    } else if spec_cause_is_policy_driven(cause) {
        match supplied {
            Option::None => Ok(0),
            Option::Some(_) => Err(UnstakingPeriodError::RedundantUnstakingPeriodProvided(purpose)),
        }
    } else {
        match supplied {
            Option::Some(period) => Ok(period),
            Option::None => Ok(0),
        }
    }
}

/// Validates a caller-supplied unstaking period against the policy of a stake
/// the application holds, for the given deactivation cause.
pub fn validate_unstaking_period(
    purpose: StakePurpose,
    policy: &StakingPolicy,
    cause: ApplicationDeactivationCause,
    supplied: Option<BlockNumber>,
) -> (r: Result<BlockNumber, UnstakingPeriodError>)
    ensures
        r == spec_validate_unstaking_period(purpose, *policy, cause, supplied),
{
    let required: u64 = match cause {
        ApplicationDeactivationCause::CrowdedOut => match policy.crowded_out_unstaking_period_length {
            Some(period) => period,
            None => 0,
        },
        ApplicationDeactivationCause::ReviewPeriodExpired => match policy
            .review_period_expired_unstaking_period_length {
            Some(period) => period,
            None => 0,
        },
        _ => 0,
    };
    let policy_driven = match cause {
        ApplicationDeactivationCause::CrowdedOut => true,
        ApplicationDeactivationCause::ReviewPeriodExpired => true,
        _ => false,
    };
    if required > 0 {
        match supplied {
            Some(period) => if period >= required {
                Ok(period)
            } else {
                Err(UnstakingPeriodError::UnstakingPeriodTooShort(purpose))
            },
            None => Err(UnstakingPeriodError::UnstakingPeriodTooShort(purpose)),
        }
    } else if policy_driven {
        match supplied {
            None => Ok(0),
            Some(_) => Err(UnstakingPeriodError::RedundantUnstakingPeriodProvided(purpose)),
        }
    } else {
        match supplied {
            Some(period) => Ok(period),
            None => Ok(0),
        }
    }
}

} // verus!
