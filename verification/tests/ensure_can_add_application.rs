use hiring::ActivateOpeningAt;
use hiring::ActiveOpeningStage;
use hiring::AddApplicationError;
use hiring::AddOpeningError;
use hiring::ApplicationAddedSuccess;
use hiring::ApplicationRationingPolicy;
use hiring::DestructuredApplicationCanBeAddedEvaluation;
use hiring::Hiring;
use hiring::Opening;
use hiring::OpeningStage;
use hiring::StakePurpose;
use hiring::StakingAmountLimitMode;
use hiring::StakingPolicy;

fn opening_human_readable_text() -> Vec<u8> {
    b"human_readable_text!!!!".to_vec()
}

struct AddOpeningFixture {
    activate_at: ActivateOpeningAt,
    max_review_period_length: u64,
    application_rationing_policy: Option<ApplicationRationingPolicy>,
    application_staking_policy: Option<StakingPolicy>,
    role_staking_policy: Option<StakingPolicy>,
}

impl AddOpeningFixture {
    fn new() -> Self {
        AddOpeningFixture {
            activate_at: ActivateOpeningAt::CurrentBlock,
            max_review_period_length: 672,
            application_rationing_policy: None,
            application_staking_policy: None,
            role_staking_policy: None,
        }
    }

    fn add_opening(&self, hiring: &mut Hiring) -> Result<usize, AddOpeningError> {
        hiring.add_opening(
            1,
            self.activate_at,
            self.max_review_period_length,
            self.application_rationing_policy,
            self.application_staking_policy,
            self.role_staking_policy,
            opening_human_readable_text(),
        )
    }
}

#[test]
fn ensure_can_add_application_fails_with_no_opening() {
    let hiring = Hiring::new();
    assert_eq!(
        hiring.ensure_can_add_application(2, None, None),
        Err(AddApplicationError::OpeningDoesNotExist)
    );
}

#[test]
fn ensure_can_add_application_fails_with_redundant_role_stake() {
    let mut hiring = Hiring::new();
    let opening_fixture = AddOpeningFixture::new();
    let add_opening_result = opening_fixture.add_opening(&mut hiring);
    let opening_id = add_opening_result.unwrap();

    assert_eq!(
        hiring.ensure_can_add_application(opening_id, Some(200), None),
        Err(AddApplicationError::StakeProvidedWhenRedundant(
            StakePurpose::Role
        ))
    );
}

#[test]
fn ensure_can_add_application_fails_with_too_low_role_stake_amout() {
    let mut hiring = Hiring::new();
    let mut opening_fixture = AddOpeningFixture::new();
    opening_fixture.role_staking_policy = Some(StakingPolicy {
        amount: 100,
        amount_mode: StakingAmountLimitMode::Exact,
        crowded_out_unstaking_period_length: None,
        review_period_expired_unstaking_period_length: None,
    });

    let add_opening_result = opening_fixture.add_opening(&mut hiring);
    let opening_id = add_opening_result.unwrap();

    assert_eq!(
        hiring.ensure_can_add_application(opening_id, Some(200), None),
        Err(AddApplicationError::StakeAmountTooLow(StakePurpose::Role))
    );
}

#[test]
fn ensure_can_add_application_fails_with_missing_role_stake_when_required() {
    let mut hiring = Hiring::new();
    let mut opening_fixture = AddOpeningFixture::new();
    opening_fixture.role_staking_policy = Some(StakingPolicy {
        amount: 100,
        amount_mode: StakingAmountLimitMode::Exact,
        crowded_out_unstaking_period_length: None,
        review_period_expired_unstaking_period_length: None,
    });

    let add_opening_result = opening_fixture.add_opening(&mut hiring);
    let opening_id = add_opening_result.unwrap();

    assert_eq!(
        hiring.ensure_can_add_application(opening_id, None, None),
        Err(AddApplicationError::StakeMissingWhenRequired(
            StakePurpose::Role
        ))
    );
}

#[test]
fn ensure_can_add_application_fails_with_redundant_application_stake() {
    let mut hiring = Hiring::new();
    let opening_fixture = AddOpeningFixture::new();
    let add_opening_result = opening_fixture.add_opening(&mut hiring);
    let opening_id = add_opening_result.unwrap();

    assert_eq!(
        hiring.ensure_can_add_application(opening_id, None, Some(200)),
        Err(AddApplicationError::StakeProvidedWhenRedundant(
            StakePurpose::Application
        ))
    );
}

#[test]
fn ensure_can_add_application_fails_with_too_low_application_stake_amout() {
    let mut hiring = Hiring::new();
    let mut opening_fixture = AddOpeningFixture::new();
    opening_fixture.application_staking_policy = Some(StakingPolicy {
        amount: 100,
        amount_mode: StakingAmountLimitMode::Exact,
        crowded_out_unstaking_period_length: None,
        review_period_expired_unstaking_period_length: None,
    });

    let add_opening_result = opening_fixture.add_opening(&mut hiring);
    let opening_id = add_opening_result.unwrap();

    assert_eq!(
        hiring.ensure_can_add_application(opening_id, None, Some(200)),
        Err(AddApplicationError::StakeAmountTooLow(
            StakePurpose::Application
        ))
    );
}

#[test]
fn ensure_can_add_application_fails_with_missing_application_stake_when_required() {
    let mut hiring = Hiring::new();
    let mut opening_fixture = AddOpeningFixture::new();
    opening_fixture.application_staking_policy = Some(StakingPolicy {
        amount: 100,
        amount_mode: StakingAmountLimitMode::Exact,
        crowded_out_unstaking_period_length: None,
        review_period_expired_unstaking_period_length: None,
    });

    let add_opening_result = opening_fixture.add_opening(&mut hiring);
    let opening_id = add_opening_result.unwrap();

    assert_eq!(
        hiring.ensure_can_add_application(opening_id, None, None),
        Err(AddApplicationError::StakeMissingWhenRequired(
            StakePurpose::Application
        ))
    );
}

#[test]
fn ensure_can_add_application_fails_with_non_active_opening() {
    let mut hiring = Hiring::new();
    let mut opening_fixture = AddOpeningFixture::new();
    opening_fixture.activate_at = ActivateOpeningAt::ExactBlock(22);
    let add_opening_result = opening_fixture.add_opening(&mut hiring);
    let opening_id = add_opening_result.unwrap();

    assert_eq!(
        hiring.ensure_can_add_application(opening_id, None, None),
        Err(AddApplicationError::OpeningNotInAcceptingApplicationsStage)
    );
}

#[test]
fn ensure_can_add_application_fails_with_non_accepting_application_stage() {
    let mut hiring = Hiring::new();
    let opening_fixture = AddOpeningFixture::new();
    let add_opening_result = opening_fixture.add_opening(&mut hiring);
    let opening_id = add_opening_result.unwrap();

    assert_eq!(hiring.begin_review(opening_id, 1), Ok(()));

    assert_eq!(
        hiring.ensure_can_add_application(opening_id, None, None),
        Err(AddApplicationError::OpeningNotInAcceptingApplicationsStage)
    );
}

#[test]
fn ensure_can_add_application_success() {
    let mut hiring = Hiring::new();
    let mut opening_fixture = AddOpeningFixture::new();
    opening_fixture.application_staking_policy = Some(StakingPolicy {
        amount: 100,
        amount_mode: StakingAmountLimitMode::Exact,
        crowded_out_unstaking_period_length: None,
        review_period_expired_unstaking_period_length: None,
    });
    opening_fixture.role_staking_policy = Some(StakingPolicy {
        amount: 100,
        amount_mode: StakingAmountLimitMode::Exact,
        crowded_out_unstaking_period_length: None,
        review_period_expired_unstaking_period_length: None,
    });
    let add_opening_result = opening_fixture.add_opening(&mut hiring);
    let opening_id = add_opening_result.unwrap();

    let ensure_can_add_application_result =
        hiring.ensure_can_add_application(opening_id, Some(100), Some(100));

    assert_eq!(
        ensure_can_add_application_result,
        Ok(DestructuredApplicationCanBeAddedEvaluation {
            opening: Opening {
                created: 1,
                stage: OpeningStage::Active {
                    stage: ActiveOpeningStage::AcceptingApplications {
                        started_accepting_applicants_at_block: 1
                    },
                    applications_added: Vec::new(),
                    active_application_count: 0,
                    unstaking_application_count: 0,
                    deactivated_application_count: 0
                },
                max_review_period_length: 672,
                application_rationing_policy: None,
                application_staking_policy: Some(StakingPolicy {
                    amount: 100,
                    amount_mode: StakingAmountLimitMode::Exact,
                    crowded_out_unstaking_period_length: None,
                    review_period_expired_unstaking_period_length: None
                }),
                role_staking_policy: Some(StakingPolicy {
                    amount: 100,
                    amount_mode: StakingAmountLimitMode::Exact,
                    crowded_out_unstaking_period_length: None,
                    review_period_expired_unstaking_period_length: None
                }),
                human_readable_text: opening_human_readable_text()
            },
            active_stage: ActiveOpeningStage::AcceptingApplications {
                started_accepting_applicants_at_block: 1
            },
            applications_added: Vec::new(),
            active_application_count: 0,
            unstaking_application_count: 0,
            deactivated_application_count: 0,
            would_get_added_success: ApplicationAddedSuccess::Unconditionally
        })
    );
}

#[test]
fn ensure_can_add_application_is_idempotent() {
    let mut hiring = Hiring::new();
    let mut opening_fixture = AddOpeningFixture::new();
    opening_fixture.role_staking_policy = Some(StakingPolicy {
        amount: 100,
        amount_mode: StakingAmountLimitMode::Exact,
        crowded_out_unstaking_period_length: None,
        review_period_expired_unstaking_period_length: None,
    });
    let add_opening_result = opening_fixture.add_opening(&mut hiring);
    let opening_id = add_opening_result.unwrap();

    let first = hiring.ensure_can_add_application(opening_id, Some(100), None);
    let second = hiring.ensure_can_add_application(opening_id, Some(100), None);
    assert_eq!(first, second);

    let first_err = hiring.ensure_can_add_application(opening_id, Some(7), None);
    let second_err = hiring.ensure_can_add_application(opening_id, Some(7), None);
    assert_eq!(first_err, second_err);
}

#[test]
fn ensure_can_add_application_without_policies_returns_fresh_snapshot() {
    let mut hiring = Hiring::new();
    let opening_fixture = AddOpeningFixture::new();
    let add_opening_result = opening_fixture.add_opening(&mut hiring);
    let opening_id = add_opening_result.unwrap();

    let evaluation = hiring
        .ensure_can_add_application(opening_id, None, None)
        .unwrap();
    assert_eq!(
        evaluation.would_get_added_success,
        ApplicationAddedSuccess::Unconditionally
    );
    assert_eq!(evaluation.active_application_count, 0);
    assert_eq!(evaluation.unstaking_application_count, 0);
    assert_eq!(evaluation.deactivated_application_count, 0);
    assert_eq!(evaluation.applications_added, Vec::<usize>::new());
}

#[test]
fn ensure_can_add_application_reports_broken_counters() {
    let hiring = Hiring {
        openings: vec![Opening {
            created: 1,
            stage: OpeningStage::Active {
                stage: ActiveOpeningStage::AcceptingApplications {
                    started_accepting_applicants_at_block: 1,
                },
                applications_added: Vec::new(),
                active_application_count: 1,
                unstaking_application_count: 0,
                deactivated_application_count: 0,
            },
            max_review_period_length: 672,
            application_rationing_policy: Some(ApplicationRationingPolicy {
                max_active_applicants: 1,
            }),
            application_staking_policy: None,
            role_staking_policy: None,
            human_readable_text: opening_human_readable_text(),
        }],
        applications: Vec::new(),
        stake_amounts: Vec::new(),
    };

    let result = hiring.ensure_can_add_application(0, None, None);
    assert!(matches!(
        result,
        Err(AddApplicationError::BrokenInvariant(_))
    ));
}
