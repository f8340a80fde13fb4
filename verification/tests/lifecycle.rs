use hiring::ActivateOpeningAt;
use hiring::ActiveOpeningStage;
use hiring::AddOpeningError;
use hiring::ApplicationDeactivationCause;
use hiring::ApplicationStage;
use hiring::BeginAcceptingApplicationsError;
use hiring::BeginReviewError;
use hiring::CancelOpeningError;
use hiring::CompleteUnstakingError;
use hiring::DeactivateApplicationError;
use hiring::ExpireReviewPeriodError;
use hiring::FillOpeningError;
use hiring::Hiring;
use hiring::OpeningDeactivationCause;
use hiring::OpeningStage;
use hiring::StakePurpose;
use hiring::StakingAmountLimitMode;
use hiring::StakingPolicy;

fn plain_opening(hiring: &mut Hiring) -> usize {
    hiring
        .add_opening(1, ActivateOpeningAt::CurrentBlock, 672, None, None, None, b"text".to_vec())
        .unwrap()
}

fn role_policy(
    crowded_out: Option<u64>,
    review_expired: Option<u64>,
) -> Option<StakingPolicy> {
    Some(StakingPolicy {
        amount: 100,
        amount_mode: StakingAmountLimitMode::AtLeast,
        crowded_out_unstaking_period_length: crowded_out,
        review_period_expired_unstaking_period_length: review_expired,
    })
}

#[test]
fn add_opening_must_activate_in_the_future() {
    let mut hiring = Hiring::new();
    let result = hiring.add_opening(
        5,
        ActivateOpeningAt::ExactBlock(5),
        672,
        None,
        None,
        None,
        b"text".to_vec(),
    );
    assert_eq!(result, Err(AddOpeningError::OpeningMustActivateInTheFuture));
}

#[test]
fn begin_accepting_applications_transitions_waiting_opening() {
    let mut hiring = Hiring::new();
    let opening_id = hiring
        .add_opening(1, ActivateOpeningAt::ExactBlock(22), 672, None, None, None, b"text".to_vec())
        .unwrap();

    assert_eq!(
        hiring.begin_accepting_applications(7, 22),
        Err(BeginAcceptingApplicationsError::OpeningDoesNotExist)
    );
    assert_eq!(
        hiring.begin_accepting_applications(opening_id, 21),
        Err(BeginAcceptingApplicationsError::OpeningIsNotInWaitingToBeginStage)
    );
    assert_eq!(hiring.begin_accepting_applications(opening_id, 22), Ok(()));
    match &hiring.get_opening(opening_id).unwrap().stage {
        OpeningStage::Active { stage, .. } => assert_eq!(
            *stage,
            ActiveOpeningStage::AcceptingApplications {
                started_accepting_applicants_at_block: 22
            }
        ),
        other => panic!("unexpected stage {:?}", other),
    }
    assert_eq!(
        hiring.begin_accepting_applications(opening_id, 23),
        Err(BeginAcceptingApplicationsError::OpeningIsNotInWaitingToBeginStage)
    );
}

#[test]
fn begin_review_requires_accepting_stage() {
    let mut hiring = Hiring::new();
    let opening_id = plain_opening(&mut hiring);
    assert_eq!(
        hiring.begin_review(9, 2),
        Err(BeginReviewError::OpeningDoesNotExist)
    );
    assert_eq!(hiring.begin_review(opening_id, 2), Ok(()));
    match &hiring.get_opening(opening_id).unwrap().stage {
        OpeningStage::Active { stage, .. } => assert_eq!(
            *stage,
            ActiveOpeningStage::ReviewPeriod {
                started_accepting_applicants_at_block: 1,
                started_review_period_at_block: 2
            }
        ),
        other => panic!("unexpected stage {:?}", other),
    }
    assert_eq!(
        hiring.begin_review(opening_id, 3),
        Err(BeginReviewError::OpeningNotInAcceptingApplicationsStage)
    );
}

#[test]
fn deactivate_application_goes_directly_inactive_without_periods() {
    let mut hiring = Hiring::new();
    let opening_id = plain_opening(&mut hiring);
    let added = hiring
        .add_application(opening_id, None, None, b"app".to_vec(), 3)
        .unwrap();

    assert_eq!(
        hiring.ensure_application_can_be_deactivated(
            added.application_id_added,
            ApplicationDeactivationCause::External,
            None,
            None
        ),
        Ok(())
    );
    assert_eq!(
        hiring.deactivate_application(
            added.application_id_added,
            ApplicationDeactivationCause::External,
            None,
            None,
            5
        ),
        Ok(())
    );
    let application = hiring.get_application(added.application_id_added).unwrap();
    assert_eq!(
        application.stage,
        ApplicationStage::Inactive {
            deactivation_initiated: 5,
            deactivated: 5,
            cause: ApplicationDeactivationCause::External
        }
    );
    match &hiring.get_opening(opening_id).unwrap().stage {
        OpeningStage::Active {
            active_application_count,
            unstaking_application_count,
            deactivated_application_count,
            applications_added,
            ..
        } => {
            assert_eq!(*active_application_count, 0);
            assert_eq!(*unstaking_application_count, 0);
            assert_eq!(*deactivated_application_count, 1);
            assert_eq!(applications_added.len(), 1);
        },
        other => panic!("unexpected stage {:?}", other),
    }
    assert_eq!(
        hiring.deactivate_application(
            added.application_id_added,
            ApplicationDeactivationCause::External,
            None,
            None,
            6
        ),
        Err(DeactivateApplicationError::ApplicationNotActive)
    );
}

#[test]
fn deactivate_application_with_supplied_period_unstakes_first() {
    let mut hiring = Hiring::new();
    let opening_id = hiring
        .add_opening(
            1,
            ActivateOpeningAt::CurrentBlock,
            672,
            None,
            None,
            role_policy(None, None),
            b"text".to_vec(),
        )
        .unwrap();
    let added = hiring
        .add_application(opening_id, Some(150), None, b"app".to_vec(), 3)
        .unwrap();

    assert_eq!(
        hiring.deactivate_application(
            added.application_id_added,
            ApplicationDeactivationCause::External,
            None,
            Some(4),
            5
        ),
        Ok(())
    );
    let application = hiring.get_application(added.application_id_added).unwrap();
    assert_eq!(
        application.stage,
        ApplicationStage::Unstaking {
            deactivation_initiated: 5,
            cause: ApplicationDeactivationCause::External
        }
    );
    assert!(application.active_role_staking_id.is_some());

    assert_eq!(
        hiring.complete_application_unstaking(added.application_id_added, 9),
        Ok(())
    );
    let application = hiring.get_application(added.application_id_added).unwrap();
    assert_eq!(
        application.stage,
        ApplicationStage::Inactive {
            deactivation_initiated: 5,
            deactivated: 9,
            cause: ApplicationDeactivationCause::External
        }
    );
    assert_eq!(application.active_role_staking_id, None);
    match &hiring.get_opening(opening_id).unwrap().stage {
        OpeningStage::Active {
            active_application_count,
            unstaking_application_count,
            deactivated_application_count,
            ..
        } => {
            assert_eq!(*active_application_count, 0);
            assert_eq!(*unstaking_application_count, 0);
            assert_eq!(*deactivated_application_count, 1);
        },
        other => panic!("unexpected stage {:?}", other),
    }
}

#[test]
fn deactivate_application_validates_unstaking_periods() {
    let mut hiring = Hiring::new();
    let opening_id = hiring
        .add_opening(
            1,
            ActivateOpeningAt::CurrentBlock,
            672,
            None,
            None,
            role_policy(Some(5), None),
            b"text".to_vec(),
        )
        .unwrap();
    let added = hiring
        .add_application(opening_id, Some(100), None, b"app".to_vec(), 3)
        .unwrap();
    let application_id = added.application_id_added;

    assert_eq!(
        hiring.ensure_application_can_be_deactivated(
            77,
            ApplicationDeactivationCause::External,
            None,
            None
        ),
        Err(DeactivateApplicationError::ApplicationDoesNotExist)
    );
    assert_eq!(
        hiring.ensure_application_can_be_deactivated(
            application_id,
            ApplicationDeactivationCause::External,
            Some(3),
            None
        ),
        Err(DeactivateApplicationError::RedundantUnstakingPeriodProvided(
            StakePurpose::Application
        ))
    );
    assert_eq!(
        hiring.ensure_application_can_be_deactivated(
            application_id,
            ApplicationDeactivationCause::CrowdedOut,
            None,
            None
        ),
        Err(DeactivateApplicationError::UnstakingPeriodTooShort(
            StakePurpose::Role
        ))
    );
    assert_eq!(
        hiring.ensure_application_can_be_deactivated(
            application_id,
            ApplicationDeactivationCause::CrowdedOut,
            None,
            Some(4)
        ),
        Err(DeactivateApplicationError::UnstakingPeriodTooShort(
            StakePurpose::Role
        ))
    );
    assert_eq!(
        hiring.ensure_application_can_be_deactivated(
            application_id,
            ApplicationDeactivationCause::CrowdedOut,
            None,
            Some(5)
        ),
        Ok(())
    );

    assert_eq!(hiring.begin_review(opening_id, 4), Ok(()));
    assert_eq!(
        hiring.ensure_application_can_be_deactivated(
            application_id,
            ApplicationDeactivationCause::External,
            None,
            None
        ),
        Err(DeactivateApplicationError::OpeningNotAcceptingApplications)
    );
}

#[test]
fn cancel_opening_deactivates_active_applications() {
    let mut hiring = Hiring::new();
    let opening_id = plain_opening(&mut hiring);
    let first = hiring
        .add_application(opening_id, None, None, b"first".to_vec(), 2)
        .unwrap();
    let second = hiring
        .add_application(opening_id, None, None, b"second".to_vec(), 3)
        .unwrap();

    assert_eq!(
        hiring.cancel_opening(9, 7),
        Err(CancelOpeningError::OpeningDoesNotExist)
    );
    assert_eq!(hiring.cancel_opening(opening_id, 7), Ok(()));

    match &hiring.get_opening(opening_id).unwrap().stage {
        OpeningStage::Active {
            stage,
            active_application_count,
            unstaking_application_count,
            deactivated_application_count,
            applications_added,
        } => {
            assert_eq!(
                *stage,
                ActiveOpeningStage::Deactivated {
                    cause: OpeningDeactivationCause::CancelledAcceptingApplications,
                    deactivated_at_block: 7,
                    started_accepting_applicants_at_block: 1,
                    started_review_period_at_block: None
                }
            );
            assert_eq!(*active_application_count, 0);
            assert_eq!(*unstaking_application_count, 0);
            assert_eq!(*deactivated_application_count, 2);
            assert_eq!(
                applications_added.len() as u32,
                active_application_count
                    + unstaking_application_count
                    + deactivated_application_count
            );
        },
        other => panic!("unexpected stage {:?}", other),
    }
    for application_id in [first.application_id_added, second.application_id_added] {
        assert_eq!(
            hiring.get_application(application_id).unwrap().stage,
            ApplicationStage::Inactive {
                deactivation_initiated: 7,
                deactivated: 7,
                cause: ApplicationDeactivationCause::OpeningCancelled
            }
        );
    }
    assert_eq!(
        hiring.cancel_opening(opening_id, 8),
        Err(CancelOpeningError::OpeningNotInCancellableStage)
    );
}

#[test]
fn cancel_opening_before_activation() {
    let mut hiring = Hiring::new();
    let opening_id = hiring
        .add_opening(1, ActivateOpeningAt::ExactBlock(22), 672, None, None, None, b"text".to_vec())
        .unwrap();
    assert_eq!(hiring.cancel_opening(opening_id, 3), Ok(()));
    match &hiring.get_opening(opening_id).unwrap().stage {
        OpeningStage::Active { stage, .. } => assert_eq!(
            *stage,
            ActiveOpeningStage::Deactivated {
                cause: OpeningDeactivationCause::CancelledBeforeActivation,
                deactivated_at_block: 3,
                started_accepting_applicants_at_block: 3,
                started_review_period_at_block: None
            }
        ),
        other => panic!("unexpected stage {:?}", other),
    }
}

#[test]
fn cancel_opening_in_review_period() {
    let mut hiring = Hiring::new();
    let opening_id = plain_opening(&mut hiring);
    assert_eq!(hiring.begin_review(opening_id, 4), Ok(()));
    assert_eq!(hiring.cancel_opening(opening_id, 6), Ok(()));
    match &hiring.get_opening(opening_id).unwrap().stage {
        OpeningStage::Active { stage, .. } => assert_eq!(
            *stage,
            ActiveOpeningStage::Deactivated {
                cause: OpeningDeactivationCause::CancelledInReviewPeriod,
                deactivated_at_block: 6,
                started_accepting_applicants_at_block: 1,
                started_review_period_at_block: Some(4)
            }
        ),
        other => panic!("unexpected stage {:?}", other),
    }
}

#[test]
fn expire_review_period_cascades_with_unstaking() {
    let mut hiring = Hiring::new();
    let opening_id = hiring
        .add_opening(
            1,
            ActivateOpeningAt::CurrentBlock,
            672,
            None,
            None,
            role_policy(None, Some(10)),
            b"text".to_vec(),
        )
        .unwrap();
    let added = hiring
        .add_application(opening_id, Some(100), None, b"app".to_vec(), 2)
        .unwrap();
    assert_eq!(
        hiring.expire_review_period(opening_id, 700),
        Err(ExpireReviewPeriodError::OpeningNotInReviewPeriod)
    );
    assert_eq!(hiring.begin_review(opening_id, 2), Ok(()));
    assert_eq!(
        hiring.expire_review_period(opening_id, 674),
        Err(ExpireReviewPeriodError::ReviewPeriodNotExpired)
    );
    assert_eq!(hiring.expire_review_period(opening_id, 675), Ok(()));

    match &hiring.get_opening(opening_id).unwrap().stage {
        OpeningStage::Active {
            stage,
            active_application_count,
            unstaking_application_count,
            deactivated_application_count,
            ..
        } => {
            assert_eq!(
                *stage,
                ActiveOpeningStage::Deactivated {
                    cause: OpeningDeactivationCause::ReviewPeriodExpired,
                    deactivated_at_block: 675,
                    started_accepting_applicants_at_block: 1,
                    started_review_period_at_block: Some(2)
                }
            );
            assert_eq!(*active_application_count, 0);
            assert_eq!(*unstaking_application_count, 1);
            assert_eq!(*deactivated_application_count, 0);
        },
        other => panic!("unexpected stage {:?}", other),
    }
    assert_eq!(
        hiring.get_application(added.application_id_added).unwrap().stage,
        ApplicationStage::Unstaking {
            deactivation_initiated: 675,
            cause: ApplicationDeactivationCause::ReviewPeriodExpired
        }
    );
    assert_eq!(
        hiring.complete_application_unstaking(added.application_id_added, 680),
        Ok(())
    );
    assert_eq!(
        hiring.complete_application_unstaking(added.application_id_added, 681),
        Err(CompleteUnstakingError::ApplicationNotUnstaking)
    );
    assert_eq!(
        hiring.complete_application_unstaking(55, 681),
        Err(CompleteUnstakingError::ApplicationDoesNotExist)
    );
}

#[test]
fn active_opening_stage_guards_report_their_stage() {
    let accepting = ActiveOpeningStage::AcceptingApplications {
        started_accepting_applicants_at_block: 3,
    };
    assert_eq!(
        accepting.ensure_active_opening_is_accepting_applications(55u32),
        Ok(3)
    );
    assert_eq!(
        accepting.ensure_active_opening_is_in_review_period(55u32),
        Err(55)
    );

    let review = ActiveOpeningStage::ReviewPeriod {
        started_accepting_applicants_at_block: 3,
        started_review_period_at_block: 8,
    };
    assert_eq!(
        review.ensure_active_opening_is_in_review_period(55u32),
        Ok((3, 8))
    );
    assert_eq!(
        review.ensure_active_opening_is_accepting_applications(55u32),
        Err(55)
    );
}

#[test]
fn fill_opening_hires_and_displaces() {
    let mut hiring = Hiring::new();
    let opening_id = plain_opening(&mut hiring);
    let hired = hiring
        .add_application(opening_id, None, None, b"hired".to_vec(), 2)
        .unwrap();
    let passed_over = hiring
        .add_application(opening_id, None, None, b"passed over".to_vec(), 3)
        .unwrap();
    assert_eq!(hiring.begin_review(opening_id, 4), Ok(()));

    assert_eq!(
        hiring.fill_opening(opening_id, vec![hired.application_id_added], 6),
        Ok(())
    );
    assert_eq!(
        hiring.get_application(hired.application_id_added).unwrap().stage,
        ApplicationStage::Inactive {
            deactivation_initiated: 6,
            deactivated: 6,
            cause: ApplicationDeactivationCause::Hired
        }
    );
    assert_eq!(
        hiring
            .get_application(passed_over.application_id_added)
            .unwrap()
            .stage,
        ApplicationStage::Inactive {
            deactivation_initiated: 6,
            deactivated: 6,
            cause: ApplicationDeactivationCause::OpeningFilled
        }
    );
    match &hiring.get_opening(opening_id).unwrap().stage {
        OpeningStage::Active {
            stage,
            active_application_count,
            unstaking_application_count,
            deactivated_application_count,
            ..
        } => {
            assert_eq!(
                *stage,
                ActiveOpeningStage::Deactivated {
                    cause: OpeningDeactivationCause::Filled,
                    deactivated_at_block: 6,
                    started_accepting_applicants_at_block: 1,
                    started_review_period_at_block: Some(4)
                }
            );
            assert_eq!(*active_application_count, 0);
            assert_eq!(*unstaking_application_count, 0);
            assert_eq!(*deactivated_application_count, 2);
        },
        other => panic!("unexpected stage {:?}", other),
    }
}

#[test]
fn fill_opening_requires_review_period_and_active_hires() {
    let mut hiring = Hiring::new();
    let opening_id = plain_opening(&mut hiring);
    let added = hiring
        .add_application(opening_id, None, None, b"app".to_vec(), 2)
        .unwrap();

    assert_eq!(
        hiring.fill_opening(9, vec![], 3),
        Err(FillOpeningError::OpeningDoesNotExist)
    );
    assert_eq!(
        hiring.fill_opening(opening_id, vec![added.application_id_added], 3),
        Err(FillOpeningError::OpeningNotInReviewPeriod)
    );
    assert_eq!(hiring.begin_review(opening_id, 3), Ok(()));
    assert_eq!(
        hiring.fill_opening(opening_id, vec![55], 4),
        Err(FillOpeningError::HiredApplicationNotActive)
    );
}
