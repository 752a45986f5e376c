//! Refund: giving money of a payment back.

use vstd::prelude::*;

use crate::auth::EcpayAuthType;
use crate::check_mac;
use crate::errors::{ConnectorError, IntegrationError};
use crate::params;
use crate::router::{
    ConnectorSpecificConfig, EcpayRouterData, RefundStatus, RefundsData, RefundsResponseData,
    ResponseRouterData, RouterDataV2,
};
use crate::signing;
use crate::text;

verus! {

/// A refund on its way through the router.
pub type RefundRouterData<FlowData> = RouterDataV2<FlowData, RefundsData, RefundsResponseData>;

/// A request for a refund.
#[derive(Debug, Clone)]
pub struct EcpayRefundRequest {
    pub merchant_id: String,
    pub merchant_trade_no: String,
    pub trade_no: String,
    pub action: String,
    pub total_amount: i64,
    pub check_mac_value: String,
}

impl EcpayRefundRequest {
    /// The parameters that the request's check value covers, by its own fields.
    pub open spec fn signed_params(self) -> Seq<params::Param> {
        signing::action_params(
            self.merchant_id@,
            self.merchant_trade_no@,
            self.trade_no@,
            self.action@,
            self.total_amount as int,
        )
    }

    /// The request carries the check value of its own fields.
    pub open spec fn is_signed(self, hash_key: Seq<char>, hash_iv: Seq<char>) -> bool {
        self.check_mac_value@ == check_mac::check_mac_value(
            self.signed_params(),
            hash_key,
            hash_iv,
        )
    }

    /// The request asks for a refund of a merchant's trade, which goes by the
    /// one id in both of its numbers.
    pub open spec fn asks(
        self,
        merchant_id: Seq<char>,
        transaction_id: Seq<char>,
        total_amount: i64,
    ) -> bool {
        &&& self.merchant_id@ == merchant_id
        &&& self.merchant_trade_no@ == transaction_id
        &&& self.trade_no@ == transaction_id
        &&& self.action@ == "R"@
        &&& self.total_amount == total_amount
    }

    /// What building the request for a call comes to: the signed request, unless the
    /// configuration is another connector's.
    pub open spec fn built_for<FlowData>(
        r: Result<EcpayRefundRequest, IntegrationError>,
        call: RefundRouterData<FlowData>,
    ) -> bool {
        match call.connector_config {
            ConnectorSpecificConfig::Other => r == Err::<EcpayRefundRequest, IntegrationError>(
                IntegrationError::FailedToObtainAuthType,
            ),
            ConnectorSpecificConfig::Ecpay { api_key, hash_key, hash_iv } => {
                &&& r matches Ok(request)
                &&& request.asks(
                    api_key@,
                    call.request.connector_transaction_id@,
                    call.request.minor_refund_amount,
                )
                &&& request.is_signed(hash_key@, hash_iv@)
            },
        }
    }

    /// The request for a call.
    pub fn try_from<FlowData>(item: EcpayRouterData<RefundRouterData<FlowData>>) -> (r: Result<
        EcpayRefundRequest,
        IntegrationError,
    >)
        ensures
            EcpayRefundRequest::built_for(r, item.router_data),
    {
        let call = &item.router_data;
        let auth = match EcpayAuthType::try_from(&call.connector_config) {
            Ok(auth) => auth,
            Err(_) => {
                return Err(IntegrationError::FailedToObtainAuthType);
            },
        };
        let merchant_trade_no = call.request.connector_transaction_id.clone();
        let trade_no = merchant_trade_no.clone();
        let total_amount: i64 = call.request.minor_refund_amount;
        let params = signing::action_param_map(
            &auth.merchant_id,
            &merchant_trade_no,
            &trade_no,
            "R",
            total_amount,
        );
        let check_mac_value = match auth.sign(&params) {
            Ok(check_mac_value) => check_mac_value,
            Err(_) => {
                return Err(IntegrationError::RequestEncodingFailed);
            },
        };
        Ok(
            EcpayRefundRequest {
                merchant_id: auth.merchant_id,
                merchant_trade_no,
                trade_no,
                action: "R".to_owned(),
                total_amount,
                check_mac_value,
            },
        )
    }
}

/// The service's answer to a refund.
#[derive(Debug, Clone)]
pub struct EcpayRefundResponse {
    pub merchant_id: String,
    pub merchant_trade_no: String,
    pub trade_no: String,
    pub rtn_code: i64,
    pub rtn_msg: String,
}

impl<FlowData> RouterDataV2<FlowData, RefundsData, RefundsResponseData> {
    /// The call with the answer to it: a return code of 1 is success, and any
    /// other is failure.
    pub fn try_from(
        item: ResponseRouterData<EcpayRefundResponse, RefundRouterData<FlowData>>,
    ) -> (r: Result<RefundRouterData<FlowData>, ConnectorError>)
        ensures
            r matches Ok(call) && ({
                let before = item.router_data;
                &&& call.connector_config == before.connector_config
                &&& call.request == before.request
                &&& call.resource_common_data == before.resource_common_data
                &&& call.response matches Ok(data)
                &&& data.connector_refund_id@ == item.response.trade_no@
                &&& data.refund_status == (if item.response.rtn_code == 1 {
                    RefundStatus::Success
                } else {
                    RefundStatus::Failure
                })
                &&& data.status_code == item.http_code
            }),
    {
        let status = if item.response.rtn_code == 1 {
            RefundStatus::Success
        } else {
            RefundStatus::Failure
        };
        Ok(
            RouterDataV2 {
                connector_config: item.router_data.connector_config,
                resource_common_data: item.router_data.resource_common_data,
                request: item.router_data.request,
                response: Ok(
                    RefundsResponseData {
                        connector_refund_id: item.response.trade_no,
                        refund_status: status,
                        status_code: item.http_code,
                    },
                ),
            },
        )
    }
}

/// A refund's answer is a success where its return code is 1, and a failure where
/// it is not; the service's trade number is the refund's id.
pub proof fn lemma_refund_answer<FlowData>(
    item: ResponseRouterData<EcpayRefundResponse, RefundRouterData<FlowData>>,
    r: Result<RefundRouterData<FlowData>, ConnectorError>,
)
    requires
        call_ensures(RefundRouterData::<FlowData>::try_from, (item,), r),
    ensures
        r matches Ok(call) && ({
            &&& call.connector_config == item.router_data.connector_config
            &&& call.request == item.router_data.request
            &&& call.resource_common_data == item.router_data.resource_common_data
            &&& call.response matches Ok(data)
            &&& data.connector_refund_id@ == item.response.trade_no@
            &&& data.status_code == item.http_code
            &&& data.refund_status == RefundStatus::Success <==> item.response.rtn_code == 1
            &&& data.refund_status == RefundStatus::Failure <==> item.response.rtn_code != 1
        }),
{
}

/// The request for a refund, field by field: the merchant's id, the transaction id
/// in both of its places, the letter `R` and the amount to refund, signed over these
/// very fields under the configuration's own key and IV.
pub proof fn lemma_refund_request<FlowData>(
    item: EcpayRouterData<RefundRouterData<FlowData>>,
    r: Result<EcpayRefundRequest, IntegrationError>,
)
    requires
        call_ensures(EcpayRefundRequest::try_from::<FlowData>, (item,), r),
    ensures
        match item.router_data.connector_config {
            ConnectorSpecificConfig::Other => {
                &&& r matches Err(error)
                &&& error is FailedToObtainAuthType
            },
            ConnectorSpecificConfig::Ecpay { api_key, hash_key, hash_iv } => {
                &&& r matches Ok(request)
                &&& request.merchant_id@ == api_key@
                &&& request.merchant_trade_no@ == item.router_data.request.connector_transaction_id@
                &&& request.trade_no@ == item.router_data.request.connector_transaction_id@
                &&& request.action@ == "R"@
                &&& request.total_amount == item.router_data.request.minor_refund_amount
                &&& request.check_mac_value@ == check_mac::check_mac_value(
                    seq![
                        ("MerchantID"@, api_key@),
                        ("MerchantTradeNo"@, item.router_data.request.connector_transaction_id@),
                        ("TradeNo"@, item.router_data.request.connector_transaction_id@),
                        ("Action"@, "R"@),
                        ("TotalAmount"@, text::decimal(request.total_amount as int)),
                    ],
                    hash_key@,
                    hash_iv@,
                )
            },
        },
{
}

} // verus!
