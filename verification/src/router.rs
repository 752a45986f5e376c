//! What a payment router hands to the connector and takes back from it.

use std::collections::HashMap;

use vstd::prelude::*;

verus! {

/// The configuration of the connector that a payment is routed to. It cannot
/// be printed, so that keys do not reach a log.
#[derive(Clone)]
pub enum ConnectorSpecificConfig {
    /// An ECPay merchant's id, hash key and hash IV.
    Ecpay { api_key: String, hash_key: String, hash_iv: String },
    /// The configuration of another connector.
    Other,
}

/// Where a payment attempt stands.
#[derive(Debug, Clone, Copy, PartialEq, Eq, Structural)]
pub enum AttemptStatus {
    AuthenticationPending,
    Charged,
    Pending,
    Failure,
    Voided,
    /// A status that this connector does not give.
    Other,
}

/// Where a refund stands.
#[derive(Debug, Clone, Copy, PartialEq, Eq, Structural)]
pub enum RefundStatus {
    Success,
    Pending,
    Failure,
}

/// The id under which a connector knows a transaction.
#[derive(Debug, Clone)]
pub enum ResponseId {
    ConnectorTransactionId(String),
    NoResponseId,
}

/// The method of a redirect.
#[derive(Debug, Clone, Copy, PartialEq, Eq, Structural)]
pub enum Method {
    Get,
    Post,
}

/// How the payer's browser is sent on.
#[derive(Debug, Clone)]
pub enum RedirectForm {
    Form { endpoint: String, method: Method, form_fields: HashMap<String, String> },
}

/// What a payment call to the connector came to.
#[derive(Debug, Clone)]
pub enum PaymentsResponseData {
    TransactionResponse {
        resource_id: ResponseId,
        redirection_data: Option<Box<RedirectForm>>,
        mandate_reference: Option<String>,
        connector_metadata: Option<String>,
        network_txn_id: Option<String>,
        connector_response_reference_id: Option<String>,
        incremental_authorization_allowed: Option<bool>,
        status_code: u16,
    },
}

/// What a refund call to the connector came to.
#[derive(Debug, Clone)]
pub struct RefundsResponseData {
    pub connector_refund_id: String,
    pub refund_status: RefundStatus,
    pub status_code: u16,
}

/// An error that stands in the place of a call's outcome.
#[derive(Debug, Clone)]
pub struct ErrorResponse {
    pub code: String,
    pub message: String,
}

/// What the calls of one payment have in common.
#[derive(Debug, Clone)]
pub struct PaymentFlowData {
    pub status: AttemptStatus,
    pub connector_request_reference_id: String,
}

/// What is asked of an authorization.
#[derive(Debug, Clone)]
pub struct PaymentsAuthorizeData {
    pub minor_amount: i64,
    pub customer_name: Option<String>,
    pub webhook_url: Option<String>,
    pub complete_authorize_url: Option<String>,
}

/// What is asked of a payment's state. The transaction id is absent where the
/// connector has not given one.
#[derive(Debug, Clone)]
pub struct PaymentsSyncData {
    pub connector_transaction_id: Option<String>,
}

/// What is asked of a capture. The transaction id is absent where the connector
/// has not given one.
#[derive(Debug, Clone)]
pub struct PaymentsCaptureData {
    pub connector_transaction_id: Option<String>,
    pub minor_amount_to_capture: i64,
}

/// What is asked of a cancellation.
#[derive(Debug, Clone)]
pub struct PaymentVoidData {
    pub connector_transaction_id: String,
}

/// What is asked of a refund.
#[derive(Debug, Clone)]
pub struct RefundsData {
    pub connector_transaction_id: String,
    pub minor_refund_amount: i64,
}

/// What is asked of a refund's state.
#[derive(Debug, Clone)]
pub struct RefundSyncData {
    pub connector_transaction_id: String,
}

/// A call on its way through the router: the connector's configuration, what
/// the calls of its payment or refund have in common, what is asked, and what
/// it came to.
pub struct RouterDataV2<FlowData, Request, Response> {
    pub connector_config: ConnectorSpecificConfig,
    pub resource_common_data: FlowData,
    pub request: Request,
    pub response: Result<Response, ErrorResponse>,
}

/// A call that is to be turned into a request to ECPay.
pub struct EcpayRouterData<RouterData> {
    pub router_data: RouterData,
}

/// An answer of the service, with the call that it answers.
pub struct ResponseRouterData<Response, RouterData> {
    pub response: Response,
    pub router_data: RouterData,
    pub http_code: u16,
}

/// The outcome of a payment call that names its transaction and nothing else.
pub open spec fn plain_transaction(
    outcome: Result<PaymentsResponseData, ErrorResponse>,
    transaction_id: Seq<char>,
    reference_id: Seq<char>,
    status_code: u16,
) -> bool {
    &&& outcome matches Ok(
        PaymentsResponseData::TransactionResponse {
            resource_id,
            redirection_data,
            mandate_reference,
            connector_metadata,
            network_txn_id,
            connector_response_reference_id,
            incremental_authorization_allowed,
            status_code: code,
        },
    )
    &&& resource_id matches ResponseId::ConnectorTransactionId(id)
    &&& id@ == transaction_id
    &&& redirection_data is None
    &&& mandate_reference is None
    &&& connector_metadata is None
    &&& network_txn_id is None
    &&& connector_response_reference_id matches Some(reference)
    &&& reference@ == reference_id
    &&& incremental_authorization_allowed is None
    &&& code == status_code
}

/// The outcome of a payment call that names its transaction and nothing else.
pub(crate) fn transaction_response(
    transaction_id: String,
    reference_id: String,
    status_code: u16,
) -> (r: Result<PaymentsResponseData, ErrorResponse>)
    ensures
        plain_transaction(r, transaction_id@, reference_id@, status_code),
{
    Ok(
        PaymentsResponseData::TransactionResponse {
            resource_id: ResponseId::ConnectorTransactionId(transaction_id),
            redirection_data: None,
            mandate_reference: None,
            connector_metadata: None,
            network_txn_id: None,
            connector_response_reference_id: Some(reference_id),
            incremental_authorization_allowed: None,
            status_code,
        },
    )
}

} // verus!
