//! Verified core of an ECPay payment connector.
//!
//! The crate builds the requests that the ECPay service takes, signs each with
//! its check value (`CheckMacValue`), and turns the service's answers into what
//! a payment router knows of a payment or a refund.
//!
//! - [`check_mac`] states and computes the check value, over the parameters of
//!   [`params`], the URL encoding of [`encoding`] and the digests of [`digest`];
//!   [`ordering`] and [`text`] hold what these need of texts.
//! - [`authorize`], [`psync`], [`capture`], [`refund`], [`rsync`] and [`void`]
//!   each hold a request, the answer to it, and both conversions.
//! - [`router`] is the router's side of these conversions, [`auth`] the
//!   merchant's credentials, [`errors`] the reasons for refusal.
//! - [`clock`] gives timestamps and trade dates, the latter by the [`calendar`];
//!   [`form`] is the form to send.
//!
//! Contracts speak of texts as sequences of characters. That memory runs out
//! is not modelled.

pub mod auth;
pub mod authorize;
pub mod calendar;
pub mod capture;
pub mod check_mac;
pub mod clock;
pub mod digest;
pub mod encoding;
pub mod errors;
pub mod form;
pub mod ordering;
pub mod params;
pub mod psync;
pub mod refund;
pub mod router;
pub mod rsync;
pub mod signing;
pub mod text;
pub mod void;

pub use crate::auth::EcpayAuthType;
pub use crate::authorize::{EcpayAuthorizeRequest, EcpayAuthorizeResponse};
pub use crate::capture::{EcpayCaptureRequest, EcpayCaptureResponse};
pub use crate::check_mac::compute_check_mac_value;
pub use crate::errors::EcpayErrorResponse;
pub use crate::psync::{EcpayPSyncRequest, EcpayPSyncResponse};
pub use crate::refund::{EcpayRefundRequest, EcpayRefundResponse};
pub use crate::rsync::{EcpayRSyncRequest, EcpayRSyncResponse};
pub use crate::void::{EcpayVoidRequest, EcpayVoidResponse};
