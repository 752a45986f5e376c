//! Capture: taking the money of an authorized payment.

use vstd::prelude::*;

use crate::auth::EcpayAuthType;
use crate::check_mac;
use crate::errors::{ConnectorError, IntegrationError};
use crate::params;
use crate::router;
use crate::router::{
    AttemptStatus, ConnectorSpecificConfig, EcpayRouterData, PaymentFlowData, PaymentsResponseData,
    PaymentsCaptureData, ResponseRouterData, RouterDataV2,
};
use crate::signing;
use crate::text;

verus! {

/// A capture on its way through the router.
pub type CaptureRouterData = RouterDataV2<
    PaymentFlowData,
    PaymentsCaptureData,
    PaymentsResponseData,
>;

/// A request for a capture.
#[derive(Debug, Clone)]
pub struct EcpayCaptureRequest {
    pub merchant_id: String,
    pub merchant_trade_no: String,
    pub trade_no: String,
    pub action: String,
    pub total_amount: i64,
    pub check_mac_value: String,
}

impl EcpayCaptureRequest {
    /// The parameters that the request's check value covers, by its own fields.
    pub open spec fn signed_params(self) -> Seq<params::Param> {
        signing::action_params(
            self.merchant_id@,
            self.merchant_trade_no@,
            self.trade_no@,
            self.action@,
            self.total_amount as int,
        )
    }

    /// The request carries the check value of its own fields.
    pub open spec fn is_signed(self, hash_key: Seq<char>, hash_iv: Seq<char>) -> bool {
        self.check_mac_value@ == check_mac::check_mac_value(
            self.signed_params(),
            hash_key,
            hash_iv,
        )
    }

    /// The request asks for a capture of a merchant's trade, which goes by the
    /// one id in both of its numbers.
    pub open spec fn asks(
        self,
        merchant_id: Seq<char>,
        transaction_id: Seq<char>,
        total_amount: i64,
    ) -> bool {
        &&& self.merchant_id@ == merchant_id
        &&& self.merchant_trade_no@ == transaction_id
        &&& self.trade_no@ == transaction_id
        &&& self.action@ == "C"@
        &&& self.total_amount == total_amount
    }

    /// What building the request for a call comes to: the signed request, or the first of
    /// the two things that a call can lack.
    pub open spec fn built_for(
        r: Result<EcpayCaptureRequest, IntegrationError>,
        call: CaptureRouterData,
    ) -> bool {
        match call.connector_config {
            ConnectorSpecificConfig::Other => r == Err::<EcpayCaptureRequest, IntegrationError>(
                IntegrationError::FailedToObtainAuthType,
            ),
            ConnectorSpecificConfig::Ecpay { api_key, hash_key, hash_iv } => {
                match call.request.connector_transaction_id {
                    None => r == Err::<EcpayCaptureRequest, IntegrationError>(
                        IntegrationError::MissingConnectorTransactionID,
                    ),
                    Some(id) => {
                        &&& r matches Ok(request)
                        &&& request.asks(api_key@, id@, call.request.minor_amount_to_capture)
                        &&& request.is_signed(hash_key@, hash_iv@)
                    },
                }
            },
        }
    }

    /// The request for a call.
    pub fn try_from(item: EcpayRouterData<CaptureRouterData>) -> (r: Result<
        EcpayCaptureRequest,
        IntegrationError,
    >)
        ensures
            EcpayCaptureRequest::built_for(r, item.router_data),
    {
        let call = &item.router_data;
        let auth = match EcpayAuthType::try_from(&call.connector_config) {
            Ok(auth) => auth,
            Err(_) => {
                return Err(IntegrationError::FailedToObtainAuthType);
            },
        };
        let merchant_trade_no = match &call.request.connector_transaction_id {
            Some(id) => id.clone(),
            None => {
                return Err(IntegrationError::MissingConnectorTransactionID);
            },
        };
        let trade_no = merchant_trade_no.clone();
        let total_amount: i64 = call.request.minor_amount_to_capture;
        let params = signing::action_param_map(
            &auth.merchant_id,
            &merchant_trade_no,
            &trade_no,
            "C",
            total_amount,
        );
        let check_mac_value = match auth.sign(&params) {
            Ok(check_mac_value) => check_mac_value,
            Err(_) => {
                return Err(IntegrationError::RequestEncodingFailed);
            },
        };
        Ok(
            EcpayCaptureRequest {
                merchant_id: auth.merchant_id,
                merchant_trade_no,
                trade_no,
                action: "C".to_owned(),
                total_amount,
                check_mac_value,
            },
        )
    }
}

/// The service's answer to a capture.
#[derive(Debug, Clone)]
pub struct EcpayCaptureResponse {
    pub merchant_id: String,
    pub merchant_trade_no: String,
    pub trade_no: String,
    pub rtn_code: i64,
    pub rtn_msg: String,
}

impl RouterDataV2<PaymentFlowData, PaymentsCaptureData, PaymentsResponseData> {
    /// The call with the answer to it: a return code of 1 is success, and any
    /// other is failure.
    pub fn try_from(
        item: ResponseRouterData<EcpayCaptureResponse, CaptureRouterData>,
    ) -> (r: Result<CaptureRouterData, ConnectorError>)
        ensures
            r matches Ok(call) && ({
                let before = item.router_data;
                &&& call.connector_config == before.connector_config
                &&& call.request == before.request
                &&& call.resource_common_data.status == (if item.response.rtn_code == 1 {
                    AttemptStatus::Charged
                } else {
                    AttemptStatus::Failure
                })
                &&& call.resource_common_data.connector_request_reference_id
                    == before.resource_common_data.connector_request_reference_id
                &&& router::plain_transaction(
                    call.response,
                    item.response.trade_no@,
                    item.response.merchant_trade_no@,
                    item.http_code,
                )
                &&& call.response matches Ok(
                    PaymentsResponseData::TransactionResponse {
                        resource_id,
                        redirection_data,
                        mandate_reference,
                        connector_metadata,
                        network_txn_id,
                        connector_response_reference_id,
                        incremental_authorization_allowed,
                        status_code,
                    },
                )
                &&& resource_id matches router::ResponseId::ConnectorTransactionId(id)
                &&& id@ == item.response.trade_no@
                &&& connector_response_reference_id matches Some(reference)
                &&& reference@ == item.response.merchant_trade_no@
                &&& redirection_data is None
                &&& mandate_reference is None
                &&& connector_metadata is None
                &&& network_txn_id is None
                &&& incremental_authorization_allowed is None
                &&& status_code == item.http_code
            }),
    {
        let status = if item.response.rtn_code == 1 {
            AttemptStatus::Charged
        } else {
            AttemptStatus::Failure
        };
        Ok(
            RouterDataV2 {
                connector_config: item.router_data.connector_config,
                resource_common_data: PaymentFlowData {
                    status,
                    ..item.router_data.resource_common_data
                },
                request: item.router_data.request,
                response: router::transaction_response(
                    item.response.trade_no,
                    item.response.merchant_trade_no,
                    item.http_code,
                ),
            },
        )
    }
}

/// A capture's answer makes the payment charged where its return code is 1, and
/// failed where it is not. The service's trade number, of any length, is the
/// transaction id, and the merchant's number the reference.
pub proof fn lemma_capture_answer(
    item: ResponseRouterData<EcpayCaptureResponse, CaptureRouterData>,
    r: Result<CaptureRouterData, ConnectorError>,
)
    requires
        call_ensures(CaptureRouterData::try_from, (item,), r),
    ensures
        r matches Ok(call) && ({
            let status = call.resource_common_data.status;
            &&& status == AttemptStatus::Charged <==> item.response.rtn_code == 1
            &&& status == AttemptStatus::Failure <==> item.response.rtn_code != 1
            &&& call.connector_config == item.router_data.connector_config
            &&& call.request == item.router_data.request
            &&& call.resource_common_data.connector_request_reference_id
                == item.router_data.resource_common_data.connector_request_reference_id
            &&& call.response matches Ok(
                PaymentsResponseData::TransactionResponse {
                    resource_id,
                    redirection_data,
                    mandate_reference,
                    connector_metadata,
                    network_txn_id,
                    connector_response_reference_id,
                    incremental_authorization_allowed,
                    status_code,
                },
            )
            &&& resource_id matches router::ResponseId::ConnectorTransactionId(id)
            &&& id@ == item.response.trade_no@
            &&& connector_response_reference_id matches Some(reference)
            &&& reference@ == item.response.merchant_trade_no@
            &&& redirection_data is None
            &&& mandate_reference is None
            &&& connector_metadata is None
            &&& network_txn_id is None
            &&& incremental_authorization_allowed is None
            &&& status_code == item.http_code
        }),
{
}

/// The request for a capture, field by field: the merchant's id, the transaction id
/// in both of its places, the letter `C` and the amount to capture, signed over these
/// very fields under the configuration's own key and IV.
pub proof fn lemma_capture_request(
    item: EcpayRouterData<CaptureRouterData>,
    r: Result<EcpayCaptureRequest, IntegrationError>,
)
    requires
        call_ensures(EcpayCaptureRequest::try_from, (item,), r),
    ensures
        match item.router_data.connector_config {
            ConnectorSpecificConfig::Other => {
                &&& r matches Err(error)
                &&& error is FailedToObtainAuthType
            },
            ConnectorSpecificConfig::Ecpay { api_key, hash_key, hash_iv } => {
                match item.router_data.request.connector_transaction_id {
                    None => {
                        &&& r matches Err(error)
                        &&& error is MissingConnectorTransactionID
                    },
                    Some(id) => {
                        &&& r matches Ok(request)
                        &&& request.merchant_id@ == api_key@
                        &&& request.merchant_trade_no@ == id@
                        &&& request.trade_no@ == id@
                        &&& request.action@ == "C"@
                        &&& request.total_amount == item.router_data.request.minor_amount_to_capture
                        &&& request.check_mac_value@ == check_mac::check_mac_value(
                            seq![
                                ("MerchantID"@, api_key@),
                                ("MerchantTradeNo"@, id@),
                                ("TradeNo"@, id@),
                                ("Action"@, "C"@),
                                ("TotalAmount"@, text::decimal(request.total_amount as int)),
                            ],
                            hash_key@,
                            hash_iv@,
                        )
                    },
                }
            },
        },
{
}

} // verus!
