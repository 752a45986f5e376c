//! Refund sync: asking for a refund's state.

use vstd::prelude::*;

use crate::auth::EcpayAuthType;
use crate::check_mac;
use crate::clock;
use crate::errors::{ConnectorError, IntegrationError};
use crate::params;
use crate::router::{
    ConnectorSpecificConfig, EcpayRouterData, RefundStatus, RefundSyncData, RefundsResponseData,
    ResponseRouterData, RouterDataV2,
};
use crate::signing;
use crate::text;

verus! {

/// A question for a refund's state on its way through the router.
pub type RSyncRouterData<FlowData> = RouterDataV2<FlowData, RefundSyncData, RefundsResponseData>;

/// A request for the state of a refunded trade.
#[derive(Debug, Clone)]
pub struct EcpayRSyncRequest {
    pub merchant_id: String,
    pub merchant_trade_no: String,
    pub time_stamp: i64,
    pub check_mac_value: String,
}

impl EcpayRSyncRequest {
    /// The parameters that the request's check value covers, by its own fields.
    pub open spec fn signed_params(self) -> Seq<params::Param> {
        signing::query_params(
            self.merchant_id@,
            self.merchant_trade_no@,
            self.time_stamp as int,
        )
    }

    /// The request carries the check value of its own fields.
    pub open spec fn is_signed(self, hash_key: Seq<char>, hash_iv: Seq<char>) -> bool {
        self.check_mac_value@ == check_mac::check_mac_value(
            self.signed_params(),
            hash_key,
            hash_iv,
        )
    }

    /// The request asks for a merchant's trade at a second.
    pub open spec fn asks(
        self,
        merchant_id: Seq<char>,
        transaction_id: Seq<char>,
        time_stamp: i64,
    ) -> bool {
        &&& self.merchant_id@ == merchant_id
        &&& self.merchant_trade_no@ == transaction_id
        &&& self.time_stamp == time_stamp
    }

    /// What building the request for a call at a second comes to: the signed request, unless the
    /// configuration is another connector's.
    pub open spec fn built_for<FlowData>(
        r: Result<EcpayRSyncRequest, IntegrationError>,
        call: RSyncRouterData<FlowData>,
        time_stamp: i64,
    ) -> bool {
        match call.connector_config {
            ConnectorSpecificConfig::Other => r == Err::<EcpayRSyncRequest, IntegrationError>(
                IntegrationError::FailedToObtainAuthType,
            ),
            ConnectorSpecificConfig::Ecpay { api_key, hash_key, hash_iv } => {
                &&& r matches Ok(request)
                &&& request.asks(api_key@, call.request.connector_transaction_id@, time_stamp)
                &&& request.is_signed(hash_key@, hash_iv@)
            },
        }
    }

    /// The request for a call at a given second.
    pub fn at_time<FlowData>(call: &RSyncRouterData<FlowData>, time_stamp: i64) -> (r: Result<
        EcpayRSyncRequest,
        IntegrationError,
    >)
        ensures
            EcpayRSyncRequest::built_for(r, *call, time_stamp),
    {
        let auth = match EcpayAuthType::try_from(&call.connector_config) {
            Ok(auth) => auth,
            Err(_) => {
                return Err(IntegrationError::FailedToObtainAuthType);
            },
        };
        EcpayRSyncRequest::with_credentials(call, auth, time_stamp)
    }

    /// The request for a call at a given second, under the credentials that the
    /// call's configuration holds.
    fn with_credentials<FlowData>(
        call: &RSyncRouterData<FlowData>,
        auth: EcpayAuthType,
        time_stamp: i64,
    ) -> (r: Result<EcpayRSyncRequest, IntegrationError>)
        requires
            auth.is_of(call.connector_config),
        ensures
            EcpayRSyncRequest::built_for(r, *call, time_stamp),
    {
        let merchant_trade_no = call.request.connector_transaction_id.clone();
        let params = signing::query_param_map(&auth.merchant_id, &merchant_trade_no, time_stamp);
        let check_mac_value = match auth.sign(&params) {
            Ok(check_mac_value) => check_mac_value,
            Err(_) => {
                return Err(IntegrationError::RequestEncodingFailed);
            },
        };
        Ok(
            EcpayRSyncRequest {
                merchant_id: auth.merchant_id,
                merchant_trade_no,
                time_stamp,
                check_mac_value,
            },
        )
    }

    /// The request for a call, at this moment. The clock is read only where the
    /// configuration holds credentials.
    pub fn try_from<FlowData>(item: EcpayRouterData<RSyncRouterData<FlowData>>) -> (r: Result<
        EcpayRSyncRequest,
        IntegrationError,
    >)
        ensures
            exists|time_stamp: i64|
                0 <= time_stamp <= clock::LAST_SECOND
                    && #[trigger] EcpayRSyncRequest::built_for(r, item.router_data, time_stamp),
            r matches Ok(request) ==> clock::clock_gave(request.time_stamp),
    {
        let auth = match EcpayAuthType::try_from(&item.router_data.connector_config) {
            Ok(auth) => auth,
            Err(_) => {
                let r = Err(IntegrationError::FailedToObtainAuthType);
                assert(EcpayRSyncRequest::built_for(r, item.router_data, 0));
                return r;
            },
        };
        let time_stamp = clock::utc_now();
        proof {
            clock::lemma_clock_gave(time_stamp);
        }
        EcpayRSyncRequest::with_credentials(&item.router_data, auth, time_stamp)
    }
}

/// The service's answer on the state of a refunded trade.
#[derive(Debug, Clone)]
pub struct EcpayRSyncResponse {
    pub merchant_id: String,
    pub merchant_trade_no: String,
    pub trade_no: String,
    pub trade_amt: i64,
    pub payment_date: String,
    pub payment_type: String,
    pub trade_date: String,
    pub trade_status: String,
    pub check_mac_value: String,
}

/// What the service's word on a trade means for a refund: `1` is done, `0` is
/// open, and anything else has failed.
pub open spec fn refund_state(trade_status: Seq<char>) -> RefundStatus {
    if trade_status == "1"@ {
        RefundStatus::Success
    } else if trade_status == "0"@ {
        RefundStatus::Pending
    } else {
        RefundStatus::Failure
    }
}

impl<FlowData> RouterDataV2<FlowData, RefundSyncData, RefundsResponseData> {
    /// The call with the refund's state that answers it.
    pub fn try_from(
        item: ResponseRouterData<EcpayRSyncResponse, RSyncRouterData<FlowData>>,
    ) -> (r: Result<RSyncRouterData<FlowData>, ConnectorError>)
        ensures
            r matches Ok(call) && ({
                let before = item.router_data;
                &&& call.connector_config == before.connector_config
                &&& call.request == before.request
                &&& call.resource_common_data == before.resource_common_data
                &&& call.response matches Ok(data)
                &&& data.connector_refund_id@ == item.response.trade_no@
                &&& data.refund_status == refund_state(item.response.trade_status@)
                &&& data.refund_status == RefundStatus::Success <==> item.response.trade_status@
                    == "1"@
                &&& data.refund_status == RefundStatus::Pending <==> item.response.trade_status@
                    == "0"@
                &&& data.refund_status == RefundStatus::Failure <==> item.response.trade_status@
                    != "1"@ && item.response.trade_status@ != "0"@
                &&& data.status_code == item.http_code
            }),
    {
        proof {
            reveal_strlit("0");
            reveal_strlit("1");
            assert("0"@[0] != "1"@[0]);
        }
        let status = if item.response.trade_status == "1".to_owned() {
            RefundStatus::Success
        } else if item.response.trade_status == "0".to_owned() {
            RefundStatus::Pending
        } else {
            RefundStatus::Failure
        };
        Ok(
            RouterDataV2 {
                connector_config: item.router_data.connector_config,
                resource_common_data: item.router_data.resource_common_data,
                request: item.router_data.request,
                response: Ok(
                    RefundsResponseData {
                        connector_refund_id: item.response.trade_no,
                        refund_status: status,
                        status_code: item.http_code,
                    },
                ),
            },
        )
    }
}

/// A refund's state after a sync is told by the trade status alone: `1` is a
/// success, `0` is pending, and every other text is a failure; the service's trade
/// number is the refund's id.
pub proof fn lemma_refund_sync_answer<FlowData>(
    item: ResponseRouterData<EcpayRSyncResponse, RSyncRouterData<FlowData>>,
    r: Result<RSyncRouterData<FlowData>, ConnectorError>,
)
    requires
        call_ensures(RSyncRouterData::<FlowData>::try_from, (item,), r),
    ensures
        r matches Ok(call) && ({
            &&& call.connector_config == item.router_data.connector_config
            &&& call.request == item.router_data.request
            &&& call.resource_common_data == item.router_data.resource_common_data
            &&& call.response matches Ok(data)
            &&& data.connector_refund_id@ == item.response.trade_no@
            &&& data.status_code == item.http_code
            &&& data.refund_status == RefundStatus::Success <==> item.response.trade_status@.len()
                == 1 && item.response.trade_status@[0] == '1'
            &&& data.refund_status == RefundStatus::Pending <==> item.response.trade_status@.len()
                == 1 && item.response.trade_status@[0] == '0'
            &&& data.refund_status == RefundStatus::Failure <==> !(
            item.response.trade_status@.len() == 1 && (item.response.trade_status@[0] == '1'
                || item.response.trade_status@[0] == '0'))
        }),
{
    reveal_strlit("0");
    reveal_strlit("1");
    let word = item.response.trade_status@;
    if word.len() == 1 && word[0] == '0' {
        assert(word =~= "0"@);
    }
    if word.len() == 1 && word[0] == '1' {
        assert(word =~= "1"@);
    }
}

/// The request at a given second, field by field: the merchant's id, the refund's
/// transaction id and the second, signed over these three under the configuration's
/// own key and IV.
pub proof fn lemma_refund_sync_request_at<FlowData>(
    call: &RSyncRouterData<FlowData>,
    time_stamp: i64,
    r: Result<EcpayRSyncRequest, IntegrationError>,
)
    requires
        call_ensures(EcpayRSyncRequest::at_time::<FlowData>, (call, time_stamp), r),
    ensures
        match call.connector_config {
            ConnectorSpecificConfig::Other => {
                &&& r matches Err(error)
                &&& error is FailedToObtainAuthType
            },
            ConnectorSpecificConfig::Ecpay { api_key, hash_key, hash_iv } => {
                &&& r matches Ok(request)
                &&& request.merchant_id@ == api_key@
                &&& request.merchant_trade_no@ == call.request.connector_transaction_id@
                &&& request.time_stamp == time_stamp
                &&& request.check_mac_value@ == check_mac::check_mac_value(
                    seq![
                        ("MerchantID"@, api_key@),
                        ("MerchantTradeNo"@, call.request.connector_transaction_id@),
                        ("TimeStamp"@, text::decimal(request.time_stamp as int)),
                    ],
                    hash_key@,
                    hash_iv@,
                )
            },
        },
{
}

/// The request of this moment: its second is one which the clock gave, and every
/// other field is as in [`lemma_refund_sync_request_at`].
pub proof fn lemma_refund_sync_request_now<FlowData>(
    item: EcpayRouterData<RSyncRouterData<FlowData>>,
    r: Result<EcpayRSyncRequest, IntegrationError>,
)
    requires
        call_ensures(EcpayRSyncRequest::try_from::<FlowData>, (item,), r),
    ensures
        r matches Ok(request) ==> clock::clock_gave(request.time_stamp),
        match item.router_data.connector_config {
            ConnectorSpecificConfig::Other => {
                &&& r matches Err(error)
                &&& error is FailedToObtainAuthType
            },
            ConnectorSpecificConfig::Ecpay { api_key, hash_key, hash_iv } => {
                &&& r matches Ok(request)
                &&& request.merchant_id@ == api_key@
                &&& request.merchant_trade_no@ == item.router_data.request.connector_transaction_id@
                &&& request.check_mac_value@ == check_mac::check_mac_value(
                    seq![
                        ("MerchantID"@, api_key@),
                        ("MerchantTradeNo"@, item.router_data.request.connector_transaction_id@),
                        ("TimeStamp"@, text::decimal(request.time_stamp as int)),
                    ],
                    hash_key@,
                    hash_iv@,
                )
            },
        },
{
}

} // verus!
