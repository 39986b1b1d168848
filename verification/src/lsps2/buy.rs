//! What a request to buy a channel must satisfy before the host sees it.
use crate::lsps0::msgs::ResponseErrorView;
use crate::lsps2::msgs::{
    BuyRequest, LSPS2_BUY_REQUEST_INVALID_OPENING_FEE_PARAMS_ERROR_CODE,
    LSPS2_BUY_REQUEST_PAYMENT_SIZE_TOO_LARGE_ERROR_CODE,
    LSPS2_BUY_REQUEST_PAYMENT_SIZE_TOO_SMALL_ERROR_CODE,
};
use crate::lsps2::utils::{
    compute_opening_fee, is_authentic, is_valid, is_valid_opening_fee_params, opening_fee,
    opening_fee_fits, promise_of, spec_compute_opening_fee,
};
use vstd::prelude::*;

verus! {

/// Why the service refuses to sell a channel.
#[derive(Clone, Copy, Debug, PartialEq, Eq)]
pub enum BuyRejection {
    /// The payment is smaller than the menu entry allows.
    PaymentSizeBelowMinimum,
    /// The payment is larger than the menu entry allows.
    PaymentSizeAboveMaximum,
    /// The opening fee of the payment cannot be computed in 64 bits.
    OpeningFeeOverflow,
    /// The opening fee would take the whole payment.
    OpeningFeeExceedsPayment,
    /// The menu entry has run out, or this service did not issue it.
    InvalidOpeningFeeParams,
}

impl BuyRejection {
    /// The error code that tells the peer of the rejection.
    pub open spec fn spec_code(self) -> i32 {
        match self {
            BuyRejection::PaymentSizeBelowMinimum => 202,
            BuyRejection::PaymentSizeAboveMaximum => 203,
            BuyRejection::OpeningFeeOverflow => 203,
            BuyRejection::OpeningFeeExceedsPayment => 202,
            BuyRejection::InvalidOpeningFeeParams => 201,
        }
    }

    /// The words that tell the peer of the rejection.
    pub open spec fn spec_message(self) -> Seq<char> {
        match self {
            BuyRejection::PaymentSizeBelowMinimum => {
                "payment size is below our minimum supported payment size"@
            },
            BuyRejection::PaymentSizeAboveMaximum => {
                "payment size is above our maximum supported payment size"@
            },
            BuyRejection::OpeningFeeOverflow => "overflow error when calculating opening_fee"@,
            BuyRejection::OpeningFeeExceedsPayment => {
                "payment size is too small to cover the opening fee"@
            },
            BuyRejection::InvalidOpeningFeeParams => {
                "valid_until is already past OR the promise did not match the provided parameters"@
            },
        }
    }

    /// The error response that tells the peer of the rejection.
    pub open spec fn spec_response(self) -> ResponseErrorView {
        ResponseErrorView { code: self.spec_code(), message: self.spec_message() }
    }

    /// The error code that tells the peer of the rejection.
    pub fn code(&self) -> (code: i32)
        ensures
            code == self.spec_code(),
    {
        match self {
            BuyRejection::PaymentSizeBelowMinimum
            | BuyRejection::OpeningFeeExceedsPayment => {
                LSPS2_BUY_REQUEST_PAYMENT_SIZE_TOO_SMALL_ERROR_CODE
            },
            BuyRejection::PaymentSizeAboveMaximum | BuyRejection::OpeningFeeOverflow => {
                LSPS2_BUY_REQUEST_PAYMENT_SIZE_TOO_LARGE_ERROR_CODE
            },
            BuyRejection::InvalidOpeningFeeParams => {
                LSPS2_BUY_REQUEST_INVALID_OPENING_FEE_PARAMS_ERROR_CODE
            },
        }
    }

    /// The words that tell the peer of the rejection.
    pub fn message(&self) -> (message: String)
        ensures
            message@ == self.spec_message(),
    {
        match self {
            BuyRejection::PaymentSizeBelowMinimum => {
                "payment size is below our minimum supported payment size".to_string()
            },
            BuyRejection::PaymentSizeAboveMaximum => {
                "payment size is above our maximum supported payment size".to_string()
            },
            BuyRejection::OpeningFeeOverflow => {
                "overflow error when calculating opening_fee".to_string()
            },
            BuyRejection::OpeningFeeExceedsPayment => {
                "payment size is too small to cover the opening fee".to_string()
            },
            BuyRejection::InvalidOpeningFeeParams => {
                "valid_until is already past OR the promise did not match the provided parameters".to_string()
            },
        }
    }
}

/// Why the size of the payment rules a purchase out, or `None` where it
/// does not.
///
/// Only a payment of fixed size is looked at: it must lie within the bounds
/// of the menu entry, its opening fee must be computable, and the fee must
/// leave something of the payment.
pub open spec fn payment_size_rejection(request: BuyRequest) -> Option<BuyRejection> {
    let params = request.opening_fee_params;
    match request.payment_size_msat {
        None => None,
        Some(size) => if size < params.min_payment_size_msat {
            Some(BuyRejection::PaymentSizeBelowMinimum)
        } else if size > params.max_payment_size_msat {
            Some(BuyRejection::PaymentSizeAboveMaximum)
        } else {
            match spec_compute_opening_fee(size, params.min_fee_msat, params.proportional as u64) {
                None => Some(BuyRejection::OpeningFeeOverflow),
                Some(fee) => if fee >= size {
                    Some(BuyRejection::OpeningFeeExceedsPayment)
                } else {
                    None
                },
            }
        },
    }
}

/// Why the service refuses the given request to buy a channel at the given
/// second, or `None` where it accepts.
///
/// The size of the payment is looked at first. Only then is the menu entry
/// itself: it must not have run out, and this service must have issued it.
pub open spec fn buy_rejection(request: BuyRequest, secret: Seq<u8>, now_unix_secs: u64) -> Option<
    BuyRejection,
> {
    if payment_size_rejection(request) is Some {
        payment_size_rejection(request)
    } else if !is_valid(request.opening_fee_params, secret, now_unix_secs) {
        Some(BuyRejection::InvalidOpeningFeeParams)
    } else {
        None
    }
}

/// Checks the size of the payment of a request to buy a channel: the reason
/// why it rules the purchase out, or `None`.
pub fn check_payment_size(request: &BuyRequest) -> (rejection: Option<BuyRejection>)
    ensures
        rejection == payment_size_rejection(*request),
{
    if let Some(payment_size_msat) = request.payment_size_msat {
        if payment_size_msat < request.opening_fee_params.min_payment_size_msat {
            return Some(BuyRejection::PaymentSizeBelowMinimum);
        }
        if payment_size_msat > request.opening_fee_params.max_payment_size_msat {
            return Some(BuyRejection::PaymentSizeAboveMaximum);
        }
        match compute_opening_fee(
            payment_size_msat,
            request.opening_fee_params.min_fee_msat,
            request.opening_fee_params.proportional as u64,
        ) {
            Some(opening_fee) => {
                if opening_fee >= payment_size_msat {
                    return Some(BuyRejection::OpeningFeeExceedsPayment);
                }
            },
            None => {
                return Some(BuyRejection::OpeningFeeOverflow);
            },
        }
    }
    None
}

/// Checks a request to buy a channel: the reason to refuse it at the given
/// second, or `None`.
pub fn check_buy_request(
    request: &BuyRequest,
    promise_secret: &[u8; 32],
    now_unix_secs: u64,
) -> (rejection: Option<BuyRejection>)
    ensures
        rejection == buy_rejection(*request, promise_secret@, now_unix_secs),
{
    if let Some(rejection) = check_payment_size(request) {
        return Some(rejection);
    }
    if !is_valid_opening_fee_params(&request.opening_fee_params, promise_secret, now_unix_secs) {
        return Some(BuyRejection::InvalidOpeningFeeParams);
    }
    None
}

/// Where the service accepts a request to buy a channel for a payment of
/// fixed size, the opening fee is less than the payment.
pub proof fn lemma_accepted_buy_leaves_payment(
    request: BuyRequest,
    secret: Seq<u8>,
    now_unix_secs: u64,
)
    requires
        buy_rejection(request, secret, now_unix_secs) is None,
        request.payment_size_msat is Some,
    ensures
        opening_fee_fits(
            request.payment_size_msat->0 as nat,
            request.opening_fee_params.proportional as nat,
        ),
        opening_fee(
            request.payment_size_msat->0 as nat,
            request.opening_fee_params.min_fee_msat as nat,
            request.opening_fee_params.proportional as nat,
        ) < request.payment_size_msat->0,
        request.opening_fee_params.min_payment_size_msat <= request.payment_size_msat->0
            <= request.opening_fee_params.max_payment_size_msat,
        is_valid(request.opening_fee_params, secret, now_unix_secs),
{
}

/// A request on an entry that another secret has signed is refused as
/// invalid, where the payment size is in order and the two secrets issue
/// different codes for the entry.
pub proof fn lemma_foreign_promise_is_refused(
    request: BuyRequest,
    secret: Seq<u8>,
    other_secret: Seq<u8>,
    now_unix_secs: u64,
)
    requires
        is_authentic(request.opening_fee_params, other_secret),
        promise_of(request.opening_fee_params.raw(), other_secret) != promise_of(
            request.opening_fee_params.raw(),
            secret,
        ),
        payment_size_rejection(request) is None,
    ensures
        buy_rejection(request, secret, now_unix_secs) == Some(
            BuyRejection::InvalidOpeningFeeParams,
        ),
{
}

} // verus!
