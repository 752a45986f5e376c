//! Payment sync: asking for a payment's state.

use vstd::prelude::*;

use crate::auth::EcpayAuthType;
use crate::check_mac;
use crate::clock;
use crate::errors::{ConnectorError, IntegrationError};
use crate::params;
use crate::router;
use crate::router::{
    AttemptStatus, ConnectorSpecificConfig, EcpayRouterData, PaymentFlowData, PaymentsResponseData,
    PaymentsSyncData, ResponseRouterData, RouterDataV2,
};
use crate::signing;
use crate::text;

verus! {

/// A question for a payment's state on its way through the router.
pub type PSyncRouterData = RouterDataV2<PaymentFlowData, PaymentsSyncData, PaymentsResponseData>;

/// A request for the state of a trade.
#[derive(Debug, Clone)]
pub struct EcpayPSyncRequest {
    pub merchant_id: String,
    pub merchant_trade_no: String,
    pub time_stamp: i64,
    pub check_mac_value: String,
}

impl EcpayPSyncRequest {
    /// The parameters that the request's check value covers, by its own fields.
    pub open spec fn signed_params(self) -> Seq<params::Param> {
        signing::query_params(
            self.merchant_id@,
            self.merchant_trade_no@,
            self.time_stamp as int,
        )
    }

    /// The request carries the check value of its own fields.
    pub open spec fn is_signed(self, hash_key: Seq<char>, hash_iv: Seq<char>) -> bool {
        self.check_mac_value@ == check_mac::check_mac_value(
            self.signed_params(),
            hash_key,
            hash_iv,
        )
    }

    /// The request asks for a merchant's trade at a second.
    pub open spec fn asks(
        self,
        merchant_id: Seq<char>,
        transaction_id: Seq<char>,
        time_stamp: i64,
    ) -> bool {
        &&& self.merchant_id@ == merchant_id
        &&& self.merchant_trade_no@ == transaction_id
        &&& self.time_stamp == time_stamp
    }

    /// What building the request for a call at a second comes to: the signed request, or the first
    /// of the two things that a call can lack.
    pub open spec fn built_for(
        r: Result<EcpayPSyncRequest, IntegrationError>,
        call: PSyncRouterData,
        time_stamp: i64,
    ) -> bool {
        match call.connector_config {
            ConnectorSpecificConfig::Other => r == Err::<EcpayPSyncRequest, IntegrationError>(
                IntegrationError::FailedToObtainAuthType,
            ),
            ConnectorSpecificConfig::Ecpay { api_key, hash_key, hash_iv } => {
                match call.request.connector_transaction_id {
                    None => r == Err::<EcpayPSyncRequest, IntegrationError>(
                        IntegrationError::MissingConnectorTransactionID,
                    ),
                    Some(id) => {
                        &&& r matches Ok(request)
                        &&& request.asks(api_key@, id@, time_stamp)
                        &&& request.is_signed(hash_key@, hash_iv@)
                    },
                }
            },
        }
    }

    /// The request for a call at a given second.
    pub fn at_time(call: &PSyncRouterData, time_stamp: i64) -> (r: Result<
        EcpayPSyncRequest,
        IntegrationError,
    >)
        ensures
            EcpayPSyncRequest::built_for(r, *call, time_stamp),
    {
        match EcpayPSyncRequest::subject(call) {
            Ok((auth, merchant_trade_no)) => EcpayPSyncRequest::signed(
                auth,
                merchant_trade_no,
                time_stamp,
            ),
            Err(error) => Err(error),
        }
    }

    /// The credentials and the trade number of a call, or the first of the two
    /// that it lacks.
    fn subject(call: &PSyncRouterData) -> (r: Result<(EcpayAuthType, String), IntegrationError>)
        ensures
            match call.connector_config {
                ConnectorSpecificConfig::Other => r == Err::<
                    (EcpayAuthType, String),
                    IntegrationError,
                >(IntegrationError::FailedToObtainAuthType),
                ConnectorSpecificConfig::Ecpay { .. } => {
                    match call.request.connector_transaction_id {
                        None => r == Err::<(EcpayAuthType, String), IntegrationError>(
                            IntegrationError::MissingConnectorTransactionID,
                        ),
                        Some(id) => {
                            &&& r matches Ok((auth, merchant_trade_no))
                            &&& auth.is_of(call.connector_config)
                            &&& merchant_trade_no@ == id@
                        },
                    }
                },
            },
    {
        let auth = match EcpayAuthType::try_from(&call.connector_config) {
            Ok(auth) => auth,
            Err(_) => {
                return Err(IntegrationError::FailedToObtainAuthType);
            },
        };
        let merchant_trade_no = match &call.request.connector_transaction_id {
            Some(id) => id.clone(),
            None => {
                return Err(IntegrationError::MissingConnectorTransactionID);
            },
        };
        Ok((auth, merchant_trade_no))
    }

    /// The signed request on a trade at a given second.
    fn signed(auth: EcpayAuthType, merchant_trade_no: String, time_stamp: i64) -> (r: Result<
        EcpayPSyncRequest,
        IntegrationError,
    >)
        ensures
            r matches Ok(request) && request.asks(
                auth.merchant_id@,
                merchant_trade_no@,
                time_stamp,
            ) && request.is_signed(auth.hash_key@, auth.hash_iv@),
    {
        let params = signing::query_param_map(&auth.merchant_id, &merchant_trade_no, time_stamp);
        let check_mac_value = match auth.sign(&params) {
            Ok(check_mac_value) => check_mac_value,
            Err(_) => {
                return Err(IntegrationError::RequestEncodingFailed);
            },
        };
        Ok(
            EcpayPSyncRequest {
                merchant_id: auth.merchant_id,
                merchant_trade_no,
                time_stamp,
                check_mac_value,
            },
        )
    }

    /// The request for a call, at this moment. The clock is read only where the
    /// call lacks nothing.
    pub fn try_from(item: EcpayRouterData<PSyncRouterData>) -> (r: Result<
        EcpayPSyncRequest,
        IntegrationError,
    >)
        ensures
            exists|time_stamp: i64|
                0 <= time_stamp <= clock::LAST_SECOND
                    && #[trigger] EcpayPSyncRequest::built_for(r, item.router_data, time_stamp),
            r matches Ok(request) ==> clock::clock_gave(request.time_stamp),
    {
        match EcpayPSyncRequest::subject(&item.router_data) {
            Ok((auth, merchant_trade_no)) => {
                let time_stamp = clock::utc_now();
                proof {
                    clock::lemma_clock_gave(time_stamp);
                }
                let r = EcpayPSyncRequest::signed(auth, merchant_trade_no, time_stamp);
                assert(EcpayPSyncRequest::built_for(r, item.router_data, time_stamp));
                r
            },
            Err(error) => {
                let r = Err(error);
                assert(EcpayPSyncRequest::built_for(r, item.router_data, 0));
                r
            },
        }
    }
}

/// The service's answer on the state of a trade.
#[derive(Debug, Clone)]
pub struct EcpayPSyncResponse {
    pub merchant_id: String,
    pub merchant_trade_no: String,
    pub trade_no: String,
    pub trade_amt: i64,
    pub payment_date: String,
    pub payment_type: String,
    pub trade_date: String,
    pub trade_status: String,
    pub item_name: String,
    pub check_mac_value: String,
}

/// What the service's word on a trade means for a payment: `1` is done, `0` is
/// open, and anything else has failed.
pub open spec fn payment_state(trade_status: Seq<char>) -> AttemptStatus {
    if trade_status == "1"@ {
        AttemptStatus::Charged
    } else if trade_status == "0"@ {
        AttemptStatus::Pending
    } else {
        AttemptStatus::Failure
    }
}

impl RouterDataV2<PaymentFlowData, PaymentsSyncData, PaymentsResponseData> {
    /// The call with the payment's state that answers it.
    pub fn try_from(
        item: ResponseRouterData<EcpayPSyncResponse, PSyncRouterData>,
    ) -> (r: Result<PSyncRouterData, ConnectorError>)
        ensures
            r matches Ok(call) && ({
                let before = item.router_data;
                &&& call.connector_config == before.connector_config
                &&& call.request == before.request
                &&& call.resource_common_data.status == payment_state(item.response.trade_status@)
                &&& call.resource_common_data.status == AttemptStatus::Charged
                    <==> item.response.trade_status@ == "1"@
                &&& call.resource_common_data.status == AttemptStatus::Pending
                    <==> item.response.trade_status@ == "0"@
                &&& call.resource_common_data.status == AttemptStatus::Failure
                    <==> item.response.trade_status@ != "1"@ && item.response.trade_status@
                    != "0"@
                &&& call.resource_common_data.connector_request_reference_id
                    == before.resource_common_data.connector_request_reference_id
                &&& router::plain_transaction(
                    call.response,
                    item.response.trade_no@,
                    item.response.merchant_trade_no@,
                    item.http_code,
                )
                &&& call.response matches Ok(
                    PaymentsResponseData::TransactionResponse {
                        resource_id,
                        redirection_data,
                        mandate_reference,
                        connector_metadata,
                        network_txn_id,
                        connector_response_reference_id,
                        incremental_authorization_allowed,
                        status_code,
                    },
                )
                &&& resource_id matches router::ResponseId::ConnectorTransactionId(id)
                &&& id@ == item.response.trade_no@
                &&& connector_response_reference_id matches Some(reference)
                &&& reference@ == item.response.merchant_trade_no@
                &&& redirection_data is None
                &&& mandate_reference is None
                &&& connector_metadata is None
                &&& network_txn_id is None
                &&& incremental_authorization_allowed is None
                &&& status_code == item.http_code
            }),
    {
        proof {
            reveal_strlit("0");
            reveal_strlit("1");
            assert("0"@[0] != "1"@[0]);
        }
        let status = if item.response.trade_status == "1".to_owned() {
            AttemptStatus::Charged
        } else if item.response.trade_status == "0".to_owned() {
            AttemptStatus::Pending
        } else {
            AttemptStatus::Failure
        };
        Ok(
            RouterDataV2 {
                connector_config: item.router_data.connector_config,
                resource_common_data: PaymentFlowData {
                    status,
                    ..item.router_data.resource_common_data
                },
                request: item.router_data.request,
                response: router::transaction_response(
                    item.response.trade_no,
                    item.response.merchant_trade_no,
                    item.http_code,
                ),
            },
        )
    }
}

/// A payment's state after a sync is told by the trade status alone: `1` makes it
/// charged, `0` leaves it pending, and every other text is a failure. The service's
/// trade number is the transaction id and the merchant's number the reference.
pub proof fn lemma_payment_sync_answer(
    item: ResponseRouterData<EcpayPSyncResponse, PSyncRouterData>,
    r: Result<PSyncRouterData, ConnectorError>,
)
    requires
        call_ensures(PSyncRouterData::try_from, (item,), r),
    ensures
        r matches Ok(call) && ({
            let status = call.resource_common_data.status;
            let word = item.response.trade_status@;
            &&& status == AttemptStatus::Charged <==> word.len() == 1 && word[0] == '1'
            &&& status == AttemptStatus::Pending <==> word.len() == 1 && word[0] == '0'
            &&& status == AttemptStatus::Failure <==> !(word.len() == 1 && (word[0] == '1'
                || word[0] == '0'))
            &&& call.connector_config == item.router_data.connector_config
            &&& call.request == item.router_data.request
            &&& call.resource_common_data.connector_request_reference_id
                == item.router_data.resource_common_data.connector_request_reference_id
            &&& call.response matches Ok(
                PaymentsResponseData::TransactionResponse {
                    resource_id,
                    redirection_data,
                    mandate_reference,
                    connector_metadata,
                    network_txn_id,
                    connector_response_reference_id,
                    incremental_authorization_allowed,
                    status_code,
                },
            )
            &&& resource_id matches router::ResponseId::ConnectorTransactionId(id)
            &&& id@ == item.response.trade_no@
            &&& connector_response_reference_id matches Some(reference)
            &&& reference@ == item.response.merchant_trade_no@
            &&& redirection_data is None
            &&& mandate_reference is None
            &&& connector_metadata is None
            &&& network_txn_id is None
            &&& incremental_authorization_allowed is None
            &&& status_code == item.http_code
        }),
{
    reveal_strlit("0");
    reveal_strlit("1");
    let word = item.response.trade_status@;
    if word.len() == 1 && word[0] == '0' {
        assert(word =~= "0"@);
    }
    if word.len() == 1 && word[0] == '1' {
        assert(word =~= "1"@);
    }
}

/// The request at a given second, field by field: the merchant's id, the payment's
/// transaction id and the second, signed over these three under the configuration's
/// own key and IV.
pub proof fn lemma_payment_sync_request_at(
    call: &PSyncRouterData,
    time_stamp: i64,
    r: Result<EcpayPSyncRequest, IntegrationError>,
)
    requires
        call_ensures(EcpayPSyncRequest::at_time, (call, time_stamp), r),
    ensures
        match call.connector_config {
            ConnectorSpecificConfig::Other => {
                &&& r matches Err(error)
                &&& error is FailedToObtainAuthType
            },
            ConnectorSpecificConfig::Ecpay { api_key, hash_key, hash_iv } => {
                match call.request.connector_transaction_id {
                    None => {
                        &&& r matches Err(error)
                        &&& error is MissingConnectorTransactionID
                    },
                    Some(id) => {
                        &&& r matches Ok(request)
                        &&& request.merchant_id@ == api_key@
                        &&& request.merchant_trade_no@ == id@
                        &&& request.time_stamp == time_stamp
                        &&& request.check_mac_value@ == check_mac::check_mac_value(
                            seq![
                                ("MerchantID"@, api_key@),
                                ("MerchantTradeNo"@, id@),
                                ("TimeStamp"@, text::decimal(request.time_stamp as int)),
                            ],
                            hash_key@,
                            hash_iv@,
                        )
                    },
                }
            },
        },
{
}

/// The request of this moment: its second is one which the clock gave, and every
/// other field is as in [`lemma_payment_sync_request_at`].
pub proof fn lemma_payment_sync_request_now(
    item: EcpayRouterData<PSyncRouterData>,
    r: Result<EcpayPSyncRequest, IntegrationError>,
)
    requires
        call_ensures(EcpayPSyncRequest::try_from, (item,), r),
    ensures
        r matches Ok(request) ==> clock::clock_gave(request.time_stamp),
        match item.router_data.connector_config {
            ConnectorSpecificConfig::Other => {
                &&& r matches Err(error)
                &&& error is FailedToObtainAuthType
            },
            ConnectorSpecificConfig::Ecpay { api_key, hash_key, hash_iv } => {
                match item.router_data.request.connector_transaction_id {
                    None => {
                        &&& r matches Err(error)
                        &&& error is MissingConnectorTransactionID
                    },
                    Some(id) => {
                        &&& r matches Ok(request)
                        &&& request.merchant_id@ == api_key@
                        &&& request.merchant_trade_no@ == id@
                        &&& request.check_mac_value@ == check_mac::check_mac_value(
                            seq![
                                ("MerchantID"@, api_key@),
                                ("MerchantTradeNo"@, id@),
                                ("TimeStamp"@, text::decimal(request.time_stamp as int)),
                            ],
                            hash_key@,
                            hash_iv@,
                        )
                    },
                }
            },
        },
{
}

} // verus!
