//! How a failure is reported to a caller: a status class, a title, and
//! detail where the caller can act on it.

use vstd::prelude::*;
use vstd::string::*;
use crate::accounting::TradeError;
use crate::loan::LoanError;
use crate::rate::RateError;
use crate::swap::SwapError;

verus! {

/// The kinds of failure that the desk reports.
#[derive(Clone, Copy, Debug, PartialEq, Eq, Structural)]
pub enum ErrorKind {
    StaleOrMissingRate,
    InvalidAssetTypes,
    InputAmountTooSmall,
    ChangeAmountTooSmall,
    InsufficientCollateral,
    LoanValidationError,
    MultipleInputAssetTypes,
    UnexpectedOutputShape,
    NoMatchingChangeOutput,
    Internal,
}

/// A failure as the caller is told of it.
#[derive(Clone, Debug, PartialEq, Eq)]
pub struct Problem {
    pub status: Option<u16>,
    pub title: String,
    pub detail: Option<String>,
}

/// The request was at fault, and the caller can correct it.
pub open spec fn is_validation(kind: ErrorKind) -> bool {
    kind == ErrorKind::InvalidAssetTypes || kind == ErrorKind::InputAmountTooSmall || kind
        == ErrorKind::ChangeAmountTooSmall || kind == ErrorKind::InsufficientCollateral || kind
        == ErrorKind::LoanValidationError
}

/// The caller is told why, in words of the failure itself.
pub open spec fn carries_detail(kind: ErrorKind) -> bool {
    kind == ErrorKind::InsufficientCollateral || kind == ErrorKind::LoanValidationError
}

/// Bad request for a validation failure, internal server error for any other.
pub open spec fn status_of(kind: ErrorKind) -> u16 {
    if is_validation(kind) {
        400
    } else {
        500
    }
}

/// The title under which a failure is reported.
pub open spec fn title_of(kind: ErrorKind) -> Seq<char> {
    match kind {
        ErrorKind::InvalidAssetTypes => "Invalid asset types in inputs."@,
        ErrorKind::InputAmountTooSmall => "Input amount too small."@,
        ErrorKind::ChangeAmountTooSmall => "Change amount too small to cover fee."@,
        ErrorKind::InsufficientCollateral => "Insufficient collateral."@,
        ErrorKind::LoanValidationError => "Loan Validation Error"@,
        _ => "Internal Server Error"@,
    }
}

/// Whether the failure is the caller's to correct.
pub fn is_client_error(kind: ErrorKind) -> (client: bool)
    ensures
        client == is_validation(kind),
{
    match kind {
        ErrorKind::InvalidAssetTypes => true,
        ErrorKind::InputAmountTooSmall => true,
        ErrorKind::ChangeAmountTooSmall => true,
        ErrorKind::InsufficientCollateral => true,
        ErrorKind::LoanValidationError => true,
        _ => false,
    }
}

/// The report of a failure. A validation failure is a bad request, with
/// the failure's own words where they help the caller; anything else
/// is an internal error of which the caller learns no more.
pub fn problem_for(kind: ErrorKind, detail: &str) -> (problem: Problem)
    ensures
        problem.status == Some(status_of(kind)),
        problem.title@ == title_of(kind),
        carries_detail(kind) ==> problem.detail.is_some() && problem.detail.unwrap()@ == detail@,
        !carries_detail(kind) ==> problem.detail.is_none(),
{
    match kind {
        ErrorKind::InvalidAssetTypes => Problem {
            status: Some(400),
            title: String::from_str("Invalid asset types in inputs."),
            detail: None,
        },
        ErrorKind::InputAmountTooSmall => Problem {
            status: Some(400),
            title: String::from_str("Input amount too small."),
            detail: None,
        },
        ErrorKind::ChangeAmountTooSmall => Problem {
            status: Some(400),
            title: String::from_str("Change amount too small to cover fee."),
            detail: None,
        },
        ErrorKind::InsufficientCollateral => Problem {
            status: Some(400),
            title: String::from_str("Insufficient collateral."),
            detail: Some(String::from_str(detail)),
        },
        ErrorKind::LoanValidationError => Problem {
            status: Some(400),
            title: String::from_str("Loan Validation Error"),
            detail: Some(String::from_str(detail)),
        },
        _ => Problem {
            status: Some(500),
            title: String::from_str("Internal Server Error"),
            detail: None,
        },
    }
}

/// The report of a request whose body could not be read.
pub fn invalid_body(source: Option<String>) -> (problem: Problem)
    ensures
        problem.status == Some(400u16),
        problem.title@ == "Invalid body."@,
        problem.detail == source,
{
    Problem { status: Some(400), title: String::from_str("Invalid body."), detail: source }
}

/// The status under which a problem is sent: its own, or internal server
/// error where it has none.
pub fn status_code(problem: &Problem) -> (code: u16)
    ensures
        code == match problem.status {
            Some(status) => status,
            None => 500,
        },
{
    match problem.status {
        Some(status) => status,
        None => 500,
    }
}

/// The kind under which a swap failure is reported.
pub fn kind_of_swap_error(error: SwapError) -> (kind: ErrorKind)
    ensures
        kind == match error {
            SwapError::StaleOrMissingRate => ErrorKind::StaleOrMissingRate,
            SwapError::InputAmountTooSmall => ErrorKind::InputAmountTooSmall,
            SwapError::ChangeAmountTooSmall => ErrorKind::ChangeAmountTooSmall,
            SwapError::InvalidAssetTypes => ErrorKind::InvalidAssetTypes,
            SwapError::AmountOutOfRange => ErrorKind::Internal,
            SwapError::Internal => ErrorKind::Internal,
        },
{
    match error {
        SwapError::StaleOrMissingRate => ErrorKind::StaleOrMissingRate,
        SwapError::InputAmountTooSmall => ErrorKind::InputAmountTooSmall,
        SwapError::ChangeAmountTooSmall => ErrorKind::ChangeAmountTooSmall,
        SwapError::InvalidAssetTypes => ErrorKind::InvalidAssetTypes,
        SwapError::AmountOutOfRange => ErrorKind::Internal,
        SwapError::Internal => ErrorKind::Internal,
    }
}

/// The kind under which a loan failure is reported.
pub fn kind_of_loan_error(error: LoanError) -> (kind: ErrorKind)
    ensures
        kind == match error {
            LoanError::StaleOrMissingRate => ErrorKind::StaleOrMissingRate,
            LoanError::InsufficientCollateral => ErrorKind::InsufficientCollateral,
            LoanError::LoanValidationError(_) => ErrorKind::LoanValidationError,
            LoanError::Internal => ErrorKind::Internal,
        },
{
    match error {
        LoanError::StaleOrMissingRate => ErrorKind::StaleOrMissingRate,
        LoanError::InsufficientCollateral => ErrorKind::InsufficientCollateral,
        LoanError::LoanValidationError(_) => ErrorKind::LoanValidationError,
        LoanError::Internal => ErrorKind::Internal,
    }
}

/// The kind under which an accounting failure is reported.
pub fn kind_of_trade_error(error: TradeError) -> (kind: ErrorKind)
    ensures
        kind == match error {
            TradeError::MultipleInputAssetTypes => ErrorKind::MultipleInputAssetTypes,
            TradeError::UnexpectedOutputShape => ErrorKind::UnexpectedOutputShape,
            TradeError::NoMatchingChangeOutput => ErrorKind::NoMatchingChangeOutput,
            TradeError::InputUnblindFailed => ErrorKind::Internal,
            TradeError::AmountOutOfRange => ErrorKind::Internal,
        },
{
    match error {
        TradeError::MultipleInputAssetTypes => ErrorKind::MultipleInputAssetTypes,
        TradeError::UnexpectedOutputShape => ErrorKind::UnexpectedOutputShape,
        TradeError::NoMatchingChangeOutput => ErrorKind::NoMatchingChangeOutput,
        TradeError::InputUnblindFailed => ErrorKind::Internal,
        TradeError::AmountOutOfRange => ErrorKind::Internal,
    }
}

/// The kind under which a failure of the rate service is reported.
pub fn kind_of_rate_error(error: RateError) -> (kind: ErrorKind)
    ensures
        kind == match error {
            RateError::StaleOrMissingRate => ErrorKind::StaleOrMissingRate,
            _ => ErrorKind::Internal,
        },
{
    match error {
        RateError::StaleOrMissingRate => ErrorKind::StaleOrMissingRate,
        _ => ErrorKind::Internal,
    }
}

} // verus!
