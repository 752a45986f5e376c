//! Why a request cannot be built, and what the service answers in error.

use vstd::prelude::*;

verus! {

/// The reasons for which a request cannot be built.
#[derive(Debug, Clone)]
pub enum IntegrationError {
    /// The connector's configuration is not one of ECPay.
    FailedToObtainAuthType,
    /// A field that the request needs was not given.
    MissingRequiredField { field_name: &'static str },
    /// The payment has no transaction id of the connector yet.
    MissingConnectorTransactionID,
    /// The request's check value could not be computed.
    RequestEncodingFailed,
}

/// The reasons for which an answer cannot be taken over.
#[derive(Debug, Clone, Copy, PartialEq, Eq, Structural)]
pub enum ConnectorError {
    /// The answer does not fit the call.
    ResponseHandlingFailed,
}

/// An error that the service reports.
#[derive(Debug, Clone)]
pub struct EcpayErrorResponse {
    pub code: String,
    pub message: String,
}

} // verus!
