//! General laws of the registry, stated and proved over the same spec
//! functions the executable contracts use.

use vstd::prelude::*;

use crate::admission::spec_candidate_total;
use crate::admission::CanAddOutcome;
use crate::deactivation::DeactivateOutcome;
use crate::opening::OpeningStageView;
use crate::outcome::AddApplicationError;
use crate::outcome::ApplicationAddedSuccess;
use crate::outcome::DeactivateApplicationError;
use crate::outcome::DestructuredApplicationCanBeAddedEvaluation;
use crate::outcome::EvaluationView;
use crate::registry::Hiring;
use crate::stake::spec_validate_stake;
use crate::stake::StakePurpose;
use crate::application::ApplicationDeactivationCause;
use crate::ApplicationId;
use crate::Balance;
use crate::BlockNumber;
use crate::OpeningId;

verus! {

/// Whether a policy is present, requires an exact amount, and a supplied
/// stake misses that amount.
pub open spec fn spec_exact_amount_mismatch(
    opt_policy: Option<crate::stake::StakingPolicy>,
    opt_stake: Option<Balance>,
) -> bool {
    match (opt_policy, opt_stake) {
        (Option::Some(policy), Option::Some(supplied)) => policy.amount_mode is Exact && supplied
            != policy.amount,
        _ => false,
    }
}

/// Whether a rationing policy is present and the active count has reached
/// its cap.
pub open spec fn spec_at_capacity(
    opt_rationing: Option<crate::opening::ApplicationRationingPolicy>,
    active_count: u32,
) -> bool {
    match opt_rationing {
        Option::Some(policy) => active_count >= policy.max_active_applicants,
        Option::None => false,
    }
}

/// A result of the admission evaluation, at the model level.
pub open spec fn spec_result_view(
    r: Result<DestructuredApplicationCanBeAddedEvaluation, AddApplicationError>,
) -> Result<EvaluationView, AddApplicationError> {
    match r {
        Ok(evaluation) => Ok(evaluation@),
        Err(e) => Err(e),
    }
}

/// While an opening is active, its active, unstaking and deactivated
/// application counts sum to the number of applications ever added to it.
/// This holds in every well-formed registry state, and every operation
/// preserves well-formedness.
pub proof fn lemma_active_opening_counts(h: Hiring, opening_id: OpeningId)
    requires
        h.wf(),
        h.spec_has_opening(opening_id),
    ensures
        h.spec_opening(opening_id)@.stage matches OpeningStageView::Active {
            applications_added,
            active_application_count,
            unstaking_application_count,
            deactivated_application_count,
            ..
        } ==> active_application_count as int + unstaking_application_count as int
            + deactivated_application_count as int == applications_added.len(),
{
    assert(h.opening_bookkeeping_ok(opening_id as int));
}

/// Evaluating admission against an opening the registry does not hold is
/// rejected as such, whatever stake arguments accompany the call.
pub proof fn lemma_missing_opening_always_rejected(
    h: Hiring,
    opening_id: OpeningId,
    opt_role_stake: Option<Balance>,
    opt_application_stake: Option<Balance>,
    r: Result<DestructuredApplicationCanBeAddedEvaluation, AddApplicationError>,
)
    requires
        !h.spec_has_opening(opening_id),
        h.can_add_result_matches(opening_id, opt_role_stake, opt_application_stake, r),
    ensures
        r == Err::<DestructuredApplicationCanBeAddedEvaluation, AddApplicationError>(
            AddApplicationError::OpeningDoesNotExist,
        ),
{
}

/// A stake supplied for a purpose whose policy is absent is rejected as
/// redundant, naming that purpose. The role stake is validated first, so for
/// the application purpose the law holds once the role stake validates.
pub proof fn lemma_redundant_stake_rejected(
    h: Hiring,
    opening_id: OpeningId,
    purpose: StakePurpose,
    opt_role_stake: Option<Balance>,
    opt_application_stake: Option<Balance>,
    r: Result<DestructuredApplicationCanBeAddedEvaluation, AddApplicationError>,
)
    requires
        h.spec_has_opening(opening_id),
        purpose is Role ==> (h.spec_opening(opening_id).role_staking_policy is None
            && opt_role_stake is Some),
        purpose is Application ==> (h.spec_opening(opening_id).application_staking_policy is None
            && opt_application_stake is Some && spec_validate_stake(
            StakePurpose::Role,
            opt_role_stake,
            h.spec_opening(opening_id).role_staking_policy,
        ) is Ok),
        h.can_add_result_matches(opening_id, opt_role_stake, opt_application_stake, r),
    ensures
        r == Err::<DestructuredApplicationCanBeAddedEvaluation, AddApplicationError>(
            AddApplicationError::StakeProvidedWhenRedundant(purpose),
        ),
{
}

/// Under an exact-amount policy, any supplied value other than the required
/// amount is rejected as too low, naming the purpose. The role stake is
/// validated first, so for the application purpose the law holds once the
/// role stake validates.
pub proof fn lemma_exact_amount_mismatch_rejected(
    h: Hiring,
    opening_id: OpeningId,
    purpose: StakePurpose,
    opt_role_stake: Option<Balance>,
    opt_application_stake: Option<Balance>,
    r: Result<DestructuredApplicationCanBeAddedEvaluation, AddApplicationError>,
)
    requires
        h.spec_has_opening(opening_id),
        purpose is Role ==> spec_exact_amount_mismatch(
            h.spec_opening(opening_id).role_staking_policy,
            opt_role_stake,
        ),
        purpose is Application ==> (spec_exact_amount_mismatch(
            h.spec_opening(opening_id).application_staking_policy,
            opt_application_stake,
        ) && spec_validate_stake(
            StakePurpose::Role,
            opt_role_stake,
            h.spec_opening(opening_id).role_staking_policy,
        ) is Ok),
        h.can_add_result_matches(opening_id, opt_role_stake, opt_application_stake, r),
    ensures
        r == Err::<DestructuredApplicationCanBeAddedEvaluation, AddApplicationError>(
            AddApplicationError::StakeAmountTooLow(purpose),
        ),
{
}

/// With both stakes validating, an accepting opening without a rationing
/// policy admits the candidate unconditionally. In particular, under an
/// exact-amount policy, supplying exactly the required amount validates.
pub proof fn lemma_valid_stakes_admitted_unconditionally(
    h: Hiring,
    opening_id: OpeningId,
    opt_role_stake: Option<Balance>,
    opt_application_stake: Option<Balance>,
    r: Result<DestructuredApplicationCanBeAddedEvaluation, AddApplicationError>,
)
    requires
        h.spec_has_opening(opening_id),
        h.spec_opening(opening_id).is_accepting_applications(),
        h.spec_opening(opening_id).application_rationing_policy is None,
        spec_validate_stake(
            StakePurpose::Role,
            opt_role_stake,
            h.spec_opening(opening_id).role_staking_policy,
        ) is Ok,
        spec_validate_stake(
            StakePurpose::Application,
            opt_application_stake,
            h.spec_opening(opening_id).application_staking_policy,
        ) is Ok,
        h.can_add_result_matches(opening_id, opt_role_stake, opt_application_stake, r),
    ensures
        r matches Ok(evaluation) && evaluation@.would_get_added_success
            == ApplicationAddedSuccess::Unconditionally,
{
}

/// An opening in its review period rejects every admission, even with valid
/// stakes.
pub proof fn lemma_review_period_rejects_admission(
    h: Hiring,
    opening_id: OpeningId,
    opt_role_stake: Option<Balance>,
    opt_application_stake: Option<Balance>,
    r: Result<DestructuredApplicationCanBeAddedEvaluation, AddApplicationError>,
)
    requires
        h.spec_has_opening(opening_id),
        h.spec_opening(opening_id).is_in_review_period(),
        spec_validate_stake(
            StakePurpose::Role,
            opt_role_stake,
            h.spec_opening(opening_id).role_staking_policy,
        ) is Ok,
        spec_validate_stake(
            StakePurpose::Application,
            opt_application_stake,
            h.spec_opening(opening_id).application_staking_policy,
        ) is Ok,
        h.can_add_result_matches(opening_id, opt_role_stake, opt_application_stake, r),
    ensures
        r == Err::<DestructuredApplicationCanBeAddedEvaluation, AddApplicationError>(
            AddApplicationError::OpeningNotInAcceptingApplicationsStage,
        ),
{
}

/// At the rationing cap, a candidate whose total stake does not exceed the
/// weakest active applicant's is crowded out; one whose total stake exceeds
/// it is admitted and crowds out exactly that weakest applicant.
pub proof fn lemma_crowd_out_at_capacity(
    h: Hiring,
    opening_id: OpeningId,
    opt_role_stake: Option<Balance>,
    opt_application_stake: Option<Balance>,
    r: Result<DestructuredApplicationCanBeAddedEvaluation, AddApplicationError>,
)
    requires
        h.spec_has_opening(opening_id),
        h.spec_opening(opening_id).is_accepting_applications(),
        spec_validate_stake(
            StakePurpose::Role,
            opt_role_stake,
            h.spec_opening(opening_id).role_staking_policy,
        ) is Ok,
        spec_validate_stake(
            StakePurpose::Application,
            opt_application_stake,
            h.spec_opening(opening_id).application_staking_policy,
        ) is Ok,
        spec_at_capacity(
            h.spec_opening(opening_id).application_rationing_policy,
            h.spec_opening(opening_id)@.stage.active_count(),
        ),
        h.spec_weakest_applicant(h.spec_opening(opening_id)@.stage.added()) is Some,
        h.can_add_result_matches(opening_id, opt_role_stake, opt_application_stake, r),
    ensures
        ({
            let w = h.spec_weakest_applicant(h.spec_opening(opening_id)@.stage.added()).unwrap();
            &&& (spec_candidate_total(opt_role_stake, opt_application_stake) <= w.total_stake ==> r
                == Err::<DestructuredApplicationCanBeAddedEvaluation, AddApplicationError>(
                AddApplicationError::NewApplicationWasCrowdedOut,
            ))
            &&& (spec_candidate_total(opt_role_stake, opt_application_stake) > w.total_stake ==> (
            r matches Ok(evaluation) && evaluation@.would_get_added_success
                == ApplicationAddedSuccess::CrowdsOutExistingApplication(w.application_id)))
        }),
{
}

/// Admission evaluation is idempotent: with unchanged state, any two results
/// that meet the contract agree at the model level. (The broken-invariant
/// outcome is left out: the contract does not pin its diagnostic text, and
/// no state reachable through the registry's own operations produces it.)
pub proof fn lemma_can_add_evaluation_idempotent(
    h: Hiring,
    opening_id: OpeningId,
    opt_role_stake: Option<Balance>,
    opt_application_stake: Option<Balance>,
    r1: Result<DestructuredApplicationCanBeAddedEvaluation, AddApplicationError>,
    r2: Result<DestructuredApplicationCanBeAddedEvaluation, AddApplicationError>,
)
    requires
        h.can_add_result_matches(opening_id, opt_role_stake, opt_application_stake, r1),
        h.can_add_result_matches(opening_id, opt_role_stake, opt_application_stake, r2),
        !(h.spec_can_add_outcome(opening_id, opt_role_stake, opt_application_stake)
            matches CanAddOutcome::Broken),
    ensures
        spec_result_view(r1) == spec_result_view(r2),
{
}

/// Deactivation evaluation is idempotent: with unchanged state, any two
/// results that meet the contract are equal. (The broken-invariant outcome
/// is left out as above.)
pub proof fn lemma_deactivation_evaluation_idempotent(
    h: Hiring,
    application_id: ApplicationId,
    cause: ApplicationDeactivationCause,
    opt_application_stake_unstaking_period: Option<BlockNumber>,
    opt_role_stake_unstaking_period: Option<BlockNumber>,
    r1: Result<(), DeactivateApplicationError>,
    r2: Result<(), DeactivateApplicationError>,
)
    requires
        Hiring::spec_deactivate_rejection_matches(
            h.spec_deactivate_outcome(
                application_id,
                cause,
                opt_application_stake_unstaking_period,
                opt_role_stake_unstaking_period,
            ),
            r1,
        ),
        Hiring::spec_deactivate_rejection_matches(
            h.spec_deactivate_outcome(
                application_id,
                cause,
                opt_application_stake_unstaking_period,
                opt_role_stake_unstaking_period,
            ),
            r2,
        ),
        !(h.spec_deactivate_outcome(
            application_id,
            cause,
            opt_application_stake_unstaking_period,
            opt_role_stake_unstaking_period,
        ) matches DeactivateOutcome::Broken),
    ensures
        r1 == r2,
{
    match (r1, r2) {
        (Ok(u1), Ok(u2)) => {
            assert(u1 == u2);
            assert(r1 == r2);
        },
        _ => {},
    }
}


/// The number of active applications among any identifiers is between zero
/// and their count.
pub proof fn lemma_count_active_bounds(h: Hiring, added: Seq<ApplicationId>)
    ensures
        0 <= h.spec_count_active(added) <= added.len(),
    decreases added.len(),
{
    if added.len() > 0 {
        lemma_count_active_bounds(h, added.drop_last());
    }
}

/// Among any identifiers, the applications bound for the unstaking stage are
/// never more than the active ones.
pub proof fn lemma_count_to_unstaking_bounds(
    h: Hiring,
    o: crate::opening::Opening,
    added: Seq<ApplicationId>,
    cause: ApplicationDeactivationCause,
)
    ensures
        0 <= h.spec_count_to_unstaking(o, added, cause) <= h.spec_count_active(added),
    decreases added.len(),
{
    if added.len() > 0 {
        lemma_count_to_unstaking_bounds(h, o, added.drop_last(), cause);
    }
}

} // verus!
