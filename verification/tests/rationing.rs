use hiring::stake::validate_stake;
use hiring::stake::StakeValidationError;
use hiring::ActivateOpeningAt;
use hiring::AddApplicationError;
use hiring::ApplicationAddedSuccess;
use hiring::ApplicationDeactivationCause;
use hiring::ApplicationRationingPolicy;
use hiring::ApplicationStage;
use hiring::Hiring;
use hiring::OpeningStage;
use hiring::StakePurpose;
use hiring::StakingAmountLimitMode;
use hiring::StakingPolicy;

fn rationed_opening(
    hiring: &mut Hiring,
    max_active_applicants: u32,
    crowded_out_period: Option<u64>,
) -> usize {
    hiring
        .add_opening(
            1,
            ActivateOpeningAt::CurrentBlock,
            672,
            Some(ApplicationRationingPolicy {
                max_active_applicants,
            }),
            None,
            Some(StakingPolicy {
                amount: 1,
                amount_mode: StakingAmountLimitMode::AtLeast,
                crowded_out_unstaking_period_length: crowded_out_period,
                review_period_expired_unstaking_period_length: None,
            }),
            b"text".to_vec(),
        )
        .unwrap()
}

#[test]
fn validate_stake_classifies_every_case() {
    let at_least = StakingPolicy {
        amount: 40,
        amount_mode: StakingAmountLimitMode::AtLeast,
        crowded_out_unstaking_period_length: None,
        review_period_expired_unstaking_period_length: None,
    };
    let exact = StakingPolicy {
        amount: 40,
        amount_mode: StakingAmountLimitMode::Exact,
        crowded_out_unstaking_period_length: None,
        review_period_expired_unstaking_period_length: None,
    };
    assert_eq!(validate_stake(StakePurpose::Role, None, &None), Ok(None));
    assert_eq!(
        validate_stake(StakePurpose::Role, Some(50), &Some(at_least)),
        Ok(Some(50))
    );
    assert_eq!(
        validate_stake(StakePurpose::Role, Some(40), &Some(at_least)),
        Ok(Some(40))
    );
    assert_eq!(
        validate_stake(StakePurpose::Role, Some(39), &Some(at_least)),
        Err(StakeValidationError::StakeAmountTooLow(StakePurpose::Role))
    );
    assert_eq!(
        validate_stake(StakePurpose::Application, Some(41), &Some(exact)),
        Err(StakeValidationError::StakeAmountTooLow(
            StakePurpose::Application
        ))
    );
    assert_eq!(
        validate_stake(StakePurpose::Application, Some(40), &Some(exact)),
        Ok(Some(40))
    );
    assert_eq!(
        validate_stake(StakePurpose::Role, Some(40), &None),
        Err(StakeValidationError::StakeProvidedWhenRedundant(
            StakePurpose::Role
        ))
    );
    assert_eq!(
        validate_stake(StakePurpose::Role, None, &Some(at_least)),
        Err(StakeValidationError::StakeMissingWhenRequired(
            StakePurpose::Role
        ))
    );
}

#[test]
fn weaker_candidate_is_crowded_out_at_capacity() {
    let mut hiring = Hiring::new();
    let opening_id = rationed_opening(&mut hiring, 1, None);
    let first = hiring
        .add_application(opening_id, Some(10), None, b"first".to_vec(), 2)
        .unwrap();
    assert_eq!(first.application_id_added, 0);
    assert_eq!(first.application_id_crowded_out, None);

    assert_eq!(
        hiring.ensure_can_add_application(opening_id, Some(5), None),
        Err(AddApplicationError::NewApplicationWasCrowdedOut)
    );
    assert_eq!(
        hiring
            .add_application(opening_id, Some(5), None, b"weak".to_vec(), 3)
            .unwrap_err(),
        AddApplicationError::NewApplicationWasCrowdedOut
    );
}

#[test]
fn equal_stake_does_not_crowd_out_earlier_arrival() {
    let mut hiring = Hiring::new();
    let opening_id = rationed_opening(&mut hiring, 1, None);
    hiring
        .add_application(opening_id, Some(10), None, b"first".to_vec(), 2)
        .unwrap();
    assert_eq!(
        hiring.ensure_can_add_application(opening_id, Some(10), None),
        Err(AddApplicationError::NewApplicationWasCrowdedOut)
    );
}

#[test]
fn stronger_candidate_crowds_out_weakest() {
    let mut hiring = Hiring::new();
    let opening_id = rationed_opening(&mut hiring, 2, None);
    hiring
        .add_application(opening_id, Some(30), None, b"strong".to_vec(), 2)
        .unwrap();
    let weakest = hiring
        .add_application(opening_id, Some(10), None, b"weak".to_vec(), 2)
        .unwrap();

    let evaluation = hiring
        .ensure_can_add_application(opening_id, Some(20), None)
        .unwrap();
    assert_eq!(
        evaluation.would_get_added_success,
        ApplicationAddedSuccess::CrowdsOutExistingApplication(weakest.application_id_added)
    );

    let added = hiring
        .add_application(opening_id, Some(20), None, b"new".to_vec(), 5)
        .unwrap();
    assert_eq!(
        added.application_id_crowded_out,
        Some(weakest.application_id_added)
    );

    assert_eq!(
        hiring
            .get_application(weakest.application_id_added)
            .unwrap()
            .stage,
        ApplicationStage::Inactive {
            deactivation_initiated: 5,
            deactivated: 5,
            cause: ApplicationDeactivationCause::CrowdedOut
        }
    );
    match &hiring.get_opening(opening_id).unwrap().stage {
        OpeningStage::Active {
            active_application_count,
            unstaking_application_count,
            deactivated_application_count,
            applications_added,
            ..
        } => {
            assert_eq!(*active_application_count, 2);
            assert_eq!(*unstaking_application_count, 0);
            assert_eq!(*deactivated_application_count, 1);
            assert_eq!(applications_added.len(), 3);
            assert_eq!(
                applications_added.len() as u32,
                active_application_count
                    + unstaking_application_count
                    + deactivated_application_count
            );
        },
        other => panic!("unexpected stage {:?}", other),
    }
}

#[test]
fn crowded_out_application_unstakes_when_policy_stipulates() {
    let mut hiring = Hiring::new();
    let opening_id = rationed_opening(&mut hiring, 1, Some(6));
    let weakest = hiring
        .add_application(opening_id, Some(10), None, b"weak".to_vec(), 2)
        .unwrap();
    let added = hiring
        .add_application(opening_id, Some(20), None, b"strong".to_vec(), 4)
        .unwrap();
    assert_eq!(
        added.application_id_crowded_out,
        Some(weakest.application_id_added)
    );

    let crowded = hiring.get_application(weakest.application_id_added).unwrap();
    assert_eq!(
        crowded.stage,
        ApplicationStage::Unstaking {
            deactivation_initiated: 4,
            cause: ApplicationDeactivationCause::CrowdedOut
        }
    );
    assert!(crowded.active_role_staking_id.is_some());
    match &hiring.get_opening(opening_id).unwrap().stage {
        OpeningStage::Active {
            active_application_count,
            unstaking_application_count,
            deactivated_application_count,
            ..
        } => {
            assert_eq!(*active_application_count, 1);
            assert_eq!(*unstaking_application_count, 1);
            assert_eq!(*deactivated_application_count, 0);
        },
        other => panic!("unexpected stage {:?}", other),
    }
}

#[test]
fn admission_below_capacity_is_unconditional() {
    let mut hiring = Hiring::new();
    let opening_id = rationed_opening(&mut hiring, 2, None);
    hiring
        .add_application(opening_id, Some(10), None, b"first".to_vec(), 2)
        .unwrap();
    let evaluation = hiring
        .ensure_can_add_application(opening_id, Some(1), None)
        .unwrap();
    assert_eq!(
        evaluation.would_get_added_success,
        ApplicationAddedSuccess::Unconditionally
    );
}

#[test]
fn recorded_stakes_rank_candidates_not_requested_amounts() {
    let mut hiring = Hiring::new();
    let opening_id = rationed_opening(&mut hiring, 1, None);
    hiring
        .add_application(opening_id, Some(10), None, b"held".to_vec(), 2)
        .unwrap();
    assert_eq!(hiring.stake_amounts, vec![10]);
    assert_eq!(
        hiring.ensure_can_add_application(opening_id, Some(11), None)
            .unwrap()
            .would_get_added_success,
        ApplicationAddedSuccess::CrowdsOutExistingApplication(0)
    );
}
