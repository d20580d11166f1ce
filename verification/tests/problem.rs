use bobtimus::accounting::TradeError;
use bobtimus::loan::{LoanError, LoanFault};
use bobtimus::problem::{
    invalid_body, is_client_error, kind_of_loan_error, kind_of_rate_error, kind_of_swap_error,
    kind_of_trade_error, problem_for, status_code, ErrorKind, Problem,
};
use bobtimus::rate::RateError;
use bobtimus::swap::SwapError;

#[test]
fn validation_failures_are_bad_requests() {
    let cases = [
        (ErrorKind::InvalidAssetTypes, "Invalid asset types in inputs.", None),
        (ErrorKind::InputAmountTooSmall, "Input amount too small.", None),
        (ErrorKind::ChangeAmountTooSmall, "Change amount too small to cover fee.", None),
        (ErrorKind::InsufficientCollateral, "Insufficient collateral.", Some("why")),
        (ErrorKind::LoanValidationError, "Loan Validation Error", Some("why")),
    ];
    for (kind, title, detail) in cases.iter() {
        let problem = problem_for(*kind, "why");
        assert_eq!(problem.status, Some(400));
        assert_eq!(problem.title, *title);
        assert_eq!(problem.detail.as_deref(), *detail);
        assert!(is_client_error(*kind));
        assert_eq!(status_code(&problem), 400);
    }
}

#[test]
fn other_failures_are_internal_and_say_no_more() {
    let kinds = [
        ErrorKind::StaleOrMissingRate,
        ErrorKind::MultipleInputAssetTypes,
        ErrorKind::UnexpectedOutputShape,
        ErrorKind::NoMatchingChangeOutput,
        ErrorKind::Internal,
    ];
    for kind in kinds.iter() {
        let problem = problem_for(*kind, "secret");
        assert_eq!(
            problem,
            Problem {
                status: Some(500),
                title: "Internal Server Error".to_string(),
                detail: None,
            }
        );
        assert!(!is_client_error(*kind));
    }
}

#[test]
fn a_problem_without_status_is_sent_as_internal() {
    let bare = Problem { status: None, title: "x".to_string(), detail: None };
    assert_eq!(status_code(&bare), 500);
    let teapot = Problem { status: Some(418), title: "x".to_string(), detail: None };
    assert_eq!(status_code(&teapot), 418);
}

#[test]
fn an_unreadable_body_is_a_bad_request() {
    assert_eq!(
        invalid_body(Some("missing field".to_string())),
        Problem {
            status: Some(400),
            title: "Invalid body.".to_string(),
            detail: Some("missing field".to_string()),
        }
    );
    assert_eq!(invalid_body(None).detail, None);
}

#[test]
fn every_failure_has_its_kind() {
    assert_eq!(kind_of_swap_error(SwapError::StaleOrMissingRate), ErrorKind::StaleOrMissingRate);
    assert_eq!(kind_of_swap_error(SwapError::InputAmountTooSmall), ErrorKind::InputAmountTooSmall);
    assert_eq!(kind_of_swap_error(SwapError::ChangeAmountTooSmall), ErrorKind::ChangeAmountTooSmall);
    assert_eq!(kind_of_swap_error(SwapError::InvalidAssetTypes), ErrorKind::InvalidAssetTypes);
    assert_eq!(kind_of_swap_error(SwapError::AmountOutOfRange), ErrorKind::Internal);
    assert_eq!(kind_of_swap_error(SwapError::Internal), ErrorKind::Internal);
    assert_eq!(kind_of_loan_error(LoanError::StaleOrMissingRate), ErrorKind::StaleOrMissingRate);
    assert_eq!(
        kind_of_loan_error(LoanError::InsufficientCollateral),
        ErrorKind::InsufficientCollateral
    );
    assert_eq!(
        kind_of_loan_error(LoanError::LoanValidationError(LoanFault::AmountsDiffer)),
        ErrorKind::LoanValidationError
    );
    assert_eq!(kind_of_loan_error(LoanError::Internal), ErrorKind::Internal);
    assert_eq!(
        kind_of_trade_error(TradeError::MultipleInputAssetTypes),
        ErrorKind::MultipleInputAssetTypes
    );
    assert_eq!(
        kind_of_trade_error(TradeError::UnexpectedOutputShape),
        ErrorKind::UnexpectedOutputShape
    );
    assert_eq!(
        kind_of_trade_error(TradeError::NoMatchingChangeOutput),
        ErrorKind::NoMatchingChangeOutput
    );
    assert_eq!(kind_of_trade_error(TradeError::InputUnblindFailed), ErrorKind::Internal);
    assert_eq!(kind_of_trade_error(TradeError::AmountOutOfRange), ErrorKind::Internal);
    assert_eq!(kind_of_rate_error(RateError::StaleOrMissingRate), ErrorKind::StaleOrMissingRate);
    assert_eq!(kind_of_rate_error(RateError::InvalidQuote), ErrorKind::Internal);
    assert_eq!(kind_of_rate_error(RateError::Exhausted), ErrorKind::Internal);
}
