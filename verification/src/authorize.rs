//! Authorization: the request that starts a payment, and the redirect that
//! answers it.

use std::collections::HashMap;

use vstd::prelude::*;

use crate::auth::EcpayAuthType;
use crate::calendar;
use crate::check_mac;
use crate::clock;
use crate::errors::{ConnectorError, IntegrationError};
use crate::params;
use crate::params::ParamMap;
use crate::router::{
    AttemptStatus, ConnectorSpecificConfig, EcpayRouterData, Method, PaymentFlowData,
    PaymentsAuthorizeData, PaymentsResponseData, RedirectForm, ResponseId, ResponseRouterData,
    RouterDataV2,
};
use crate::text;

verus! {

/// An authorization on its way through the router.
pub type AuthorizeRouterData = RouterDataV2<
    PaymentFlowData,
    PaymentsAuthorizeData,
    PaymentsResponseData,
>;

/// A request to start a payment.
#[derive(Debug, Clone)]
pub struct EcpayAuthorizeRequest {
    pub merchant_id: String,
    pub merchant_trade_no: String,
    pub merchant_trade_date: String,
    pub payment_type: String,
    pub total_amount: i64,
    pub trade_desc: String,
    pub item_name: String,
    pub return_url: String,
    pub choose_payment: String,
    pub check_mac_value: String,
    pub encrypt_type: i32,
    pub client_back_url: Option<String>,
    pub order_result_url: Option<String>,
    pub need_extra_paid_info: Option<String>,
    pub platform_id: Option<String>,
    pub custom_field_1: Option<String>,
    pub custom_field_2: Option<String>,
    pub custom_field_3: Option<String>,
    pub custom_field_4: Option<String>,
    pub language: Option<String>,
}

/// How a trade is described where the customer has no name.
pub open spec fn trade_description(customer_name: Option<String>) -> Seq<char> {
    match customer_name {
        Some(name) => name@,
        None => "ECPay payment"@,
    }
}

impl EcpayAuthorizeRequest {
    /// The parameters that the request's check value covers, by its own fields.
    pub open spec fn signed_params(self) -> Seq<params::Param> {
        seq![
            ("MerchantID"@, self.merchant_id@),
            ("MerchantTradeNo"@, self.merchant_trade_no@),
            ("MerchantTradeDate"@, self.merchant_trade_date@),
            ("PaymentType"@, self.payment_type@),
            ("TotalAmount"@, text::decimal(self.total_amount as int)),
            ("TradeDesc"@, self.trade_desc@),
            ("ItemName"@, self.item_name@),
            ("ReturnURL"@, self.return_url@),
            ("ChoosePayment"@, self.choose_payment@),
            ("EncryptType"@, text::decimal(self.encrypt_type as int)),
        ]
    }

    /// The request carries the check value of its own fields.
    pub open spec fn is_signed(self, hash_key: Seq<char>, hash_iv: Seq<char>) -> bool {
        self.check_mac_value@ == check_mac::check_mac_value(
            self.signed_params(),
            hash_key,
            hash_iv,
        )
    }

    /// The request asks for what `call` asks, for a merchant, at a trade date,
    /// with a URL for the service to report to.
    pub open spec fn asks(
        self,
        call: AuthorizeRouterData,
        merchant_id: Seq<char>,
        date: Seq<char>,
        return_url: Seq<char>,
    ) -> bool {
        &&& self.merchant_id@ == merchant_id
        &&& self.merchant_trade_no@ == call.resource_common_data.connector_request_reference_id@
        &&& self.merchant_trade_date@ == date
        &&& self.payment_type@ == "aio"@
        &&& self.total_amount == call.request.minor_amount
        &&& self.trade_desc@ == trade_description(call.request.customer_name)
        &&& self.item_name@ == "Product"@
        &&& self.return_url@ == return_url
        &&& self.choose_payment@ == "ALL"@
        &&& self.encrypt_type == 1
        &&& self.client_back_url == call.request.complete_authorize_url
        &&& self.order_result_url is None
        &&& self.need_extra_paid_info is None
        &&& self.platform_id is None
        &&& self.custom_field_1 is None
        &&& self.custom_field_2 is None
        &&& self.custom_field_3 is None
        &&& self.custom_field_4 is None
        &&& self.language is None
    }

    /// What building the request for a call at a trade date comes to: the
    /// signed request, or the first of the two things that a call can lack.
    pub open spec fn built_for(
        r: Result<EcpayAuthorizeRequest, IntegrationError>,
        call: AuthorizeRouterData,
        date: Seq<char>,
    ) -> bool {
        match call.connector_config {
            ConnectorSpecificConfig::Other => r == Err::<EcpayAuthorizeRequest, IntegrationError>(
                IntegrationError::FailedToObtainAuthType,
            ),
            ConnectorSpecificConfig::Ecpay { api_key, hash_key, hash_iv } => {
                match call.request.webhook_url {
                    None => {
                        &&& r matches Err(IntegrationError::MissingRequiredField { field_name })
                        &&& field_name@ == "webhook_url"@
                    },
                    Some(url) => {
                        &&& r matches Ok(request)
                        &&& request.asks(call, api_key@, date, url@)
                        &&& request.is_signed(hash_key@, hash_iv@)
                    },
                }
            },
        }
    }

    /// The request for a call at a given trade date.
    pub fn at_trade_date(call: &AuthorizeRouterData, merchant_trade_date: String) -> (r: Result<
        EcpayAuthorizeRequest,
        IntegrationError,
    >)
        ensures
            EcpayAuthorizeRequest::built_for(r, *call, merchant_trade_date@),
    {
        let auth = match EcpayAuthType::try_from(&call.connector_config) {
            Ok(auth) => auth,
            Err(_) => {
                return Err(IntegrationError::FailedToObtainAuthType);
            },
        };
        EcpayAuthorizeRequest::with_credentials(call, auth, merchant_trade_date)
    }

    /// The request for a call at a given trade date, under the credentials that
    /// the call's configuration holds.
    fn with_credentials(
        call: &AuthorizeRouterData,
        auth: EcpayAuthType,
        merchant_trade_date: String,
    ) -> (r: Result<EcpayAuthorizeRequest, IntegrationError>)
        requires
            auth.is_of(call.connector_config),
        ensures
            EcpayAuthorizeRequest::built_for(r, *call, merchant_trade_date@),
    {
        let merchant_trade_no = call.resource_common_data.connector_request_reference_id.clone();
        let total_amount = call.request.minor_amount;
        let trade_desc = match &call.request.customer_name {
            Some(name) => name.clone(),
            None => "ECPay payment".to_owned(),
        };
        let item_name = "Product".to_owned();
        let return_url = match &call.request.webhook_url {
            Some(url) => url.clone(),
            None => {
                return Err(IntegrationError::MissingRequiredField { field_name: "webhook_url" });
            },
        };
        let choose_payment = "ALL".to_owned();

        let mut params = ParamMap::new();
        params.insert("MerchantID".to_owned(), auth.merchant_id.clone());
        params.insert("MerchantTradeNo".to_owned(), merchant_trade_no.clone());
        params.insert("MerchantTradeDate".to_owned(), merchant_trade_date.clone());
        params.insert("PaymentType".to_owned(), "aio".to_owned());
        params.insert("TotalAmount".to_owned(), text::decimal_text(total_amount));
        params.insert("TradeDesc".to_owned(), trade_desc.clone());
        params.insert("ItemName".to_owned(), item_name.clone());
        params.insert("ReturnURL".to_owned(), return_url.clone());
        params.insert("ChoosePayment".to_owned(), choose_payment.clone());
        params.insert("EncryptType".to_owned(), "1".to_owned());

        let check_mac_value = match auth.sign(&params) {
            Ok(check_mac_value) => check_mac_value,
            Err(_) => {
                return Err(IntegrationError::RequestEncodingFailed);
            },
        };
        let request = EcpayAuthorizeRequest {
            merchant_id: auth.merchant_id,
            merchant_trade_no,
            merchant_trade_date,
            payment_type: "aio".to_owned(),
            total_amount,
            trade_desc,
            item_name,
            return_url,
            choose_payment,
            check_mac_value,
            encrypt_type: 1,
            client_back_url: call.request.complete_authorize_url.clone(),
            order_result_url: None,
            need_extra_paid_info: None,
            platform_id: None,
            custom_field_1: None,
            custom_field_2: None,
            custom_field_3: None,
            custom_field_4: None,
            language: None,
        };
        proof {
            reveal_strlit("1");
            assert("1"@ =~= text::decimal(1));
            params::lemma_name_shapes();
            assert(params@ =~= request.signed_params());
        }
        Ok(request)
    }

    /// The request for a call, at the trade date of this moment. The clock is
    /// read only where the configuration holds credentials.
    pub fn try_from(item: EcpayRouterData<AuthorizeRouterData>) -> (r: Result<
        EcpayAuthorizeRequest,
        IntegrationError,
    >)
        ensures
            exists|date: Seq<char>|
                clock::is_trade_date(date) && #[trigger] EcpayAuthorizeRequest::built_for(
                    r,
                    item.router_data,
                    date,
                ),
            r matches Ok(request) ==> exists|now: i64|
                #[trigger] clock::clock_gave(now) && 0 <= now <= clock::LAST_SECOND
                    && request.merchant_trade_date@ == clock::trade_date(now),
    {
        let auth = match EcpayAuthType::try_from(&item.router_data.connector_config) {
            Ok(auth) => auth,
            Err(_) => {
                let r = Err(IntegrationError::FailedToObtainAuthType);
                proof {
                    let date = clock::trade_date(0);
                    assert(clock::is_trade_date(date));
                    assert(EcpayAuthorizeRequest::built_for(r, item.router_data, date));
                }
                return r;
            },
        };
        let merchant_trade_date = clock::trade_date_at(clock::utc_now());
        proof {
            let now = choose|now: i64|
                #[trigger] call_ensures(clock::utc_now, (), now) && 0 <= now <= clock::LAST_SECOND
                    && merchant_trade_date@ == clock::trade_date(now);
            clock::lemma_clock_gave(now);
        }
        assert(clock::is_trade_date(merchant_trade_date@));
        EcpayAuthorizeRequest::with_credentials(&item.router_data, auth, merchant_trade_date)
    }
}

/// An authorization's parameters are signed in the order of their names.
pub proof fn lemma_authorize_order(request: EcpayAuthorizeRequest)
    ensures
        params::sorted_params(request.signed_params()) == seq![
            ("ChoosePayment"@, request.choose_payment@),
            ("EncryptType"@, text::decimal(request.encrypt_type as int)),
            ("ItemName"@, request.item_name@),
            ("MerchantID"@, request.merchant_id@),
            ("MerchantTradeDate"@, request.merchant_trade_date@),
            ("MerchantTradeNo"@, request.merchant_trade_no@),
            ("PaymentType"@, request.payment_type@),
            ("ReturnURL"@, request.return_url@),
            ("TotalAmount"@, text::decimal(request.total_amount as int)),
            ("TradeDesc"@, request.trade_desc@),
        ],
{
    let ordered: Seq<params::Param> = seq![
        ("ChoosePayment"@, request.choose_payment@),
        ("EncryptType"@, text::decimal(request.encrypt_type as int)),
        ("ItemName"@, request.item_name@),
        ("MerchantID"@, request.merchant_id@),
        ("MerchantTradeDate"@, request.merchant_trade_date@),
        ("MerchantTradeNo"@, request.merchant_trade_no@),
        ("PaymentType"@, request.payment_type@),
        ("ReturnURL"@, request.return_url@),
        ("TotalAmount"@, text::decimal(request.total_amount as int)),
        ("TradeDesc"@, request.trade_desc@),
    ];
    reveal_strlit("ChoosePayment");
    reveal_strlit("EncryptType");
    reveal_strlit("ItemName");
    reveal_strlit("MerchantID");
    reveal_strlit("MerchantTradeDate");
    reveal_strlit("MerchantTradeNo");
    reveal_strlit("PaymentType");
    reveal_strlit("ReturnURL");
    reveal_strlit("TotalAmount");
    reveal_strlit("TradeDesc");
    params::lemma_ascii_name_before("ChoosePayment"@, "EncryptType"@, 0);
    params::lemma_ascii_name_before("EncryptType"@, "ItemName"@, 0);
    params::lemma_ascii_name_before("ItemName"@, "MerchantID"@, 0);
    params::lemma_ascii_name_before("MerchantID"@, "MerchantTradeDate"@, 8);
    params::lemma_ascii_name_before("MerchantTradeDate"@, "MerchantTradeNo"@, 13);
    params::lemma_ascii_name_before("MerchantTradeNo"@, "PaymentType"@, 0);
    params::lemma_ascii_name_before("PaymentType"@, "ReturnURL"@, 0);
    params::lemma_ascii_name_before("ReturnURL"@, "TotalAmount"@, 0);
    params::lemma_ascii_name_before("TotalAmount"@, "TradeDesc"@, 1);
    let given = request.signed_params();
    assert(given[8] == ordered[0]);
    assert(given[9] == ordered[1]);
    assert(given[6] == ordered[2]);
    assert(given[0] == ordered[3]);
    assert(given[2] == ordered[4]);
    assert(given[1] == ordered[5]);
    assert(given[3] == ordered[6]);
    assert(given[7] == ordered[7]);
    assert(given[4] == ordered[8]);
    assert(given[5] == ordered[9]);
    params::lemma_signing_order(given, ordered);
}

/// The service's answer to an authorization: a form for the payer's browser.
#[derive(Debug, Clone)]
pub struct EcpayAuthorizeResponse {
    pub html_content: String,
    pub endpoint: String,
    pub form_fields: HashMap<String, String>,
}

impl RouterDataV2<PaymentFlowData, PaymentsAuthorizeData, PaymentsResponseData> {
    /// The call with the redirect that answers it: the payer is sent to the
    /// endpoint by `POST` with the form's fields, and the payment waits for
    /// them.
    pub fn try_from(
        item: ResponseRouterData<EcpayAuthorizeResponse, AuthorizeRouterData>,
    ) -> (r: Result<AuthorizeRouterData, ConnectorError>)
        ensures
            r matches Ok(call) && ({
                let before = item.router_data;
                &&& call.connector_config == before.connector_config
                &&& call.request == before.request
                &&& call.resource_common_data.status == AttemptStatus::AuthenticationPending
                &&& call.resource_common_data.connector_request_reference_id
                    == before.resource_common_data.connector_request_reference_id
                &&& call.response matches Ok(
                    PaymentsResponseData::TransactionResponse {
                        resource_id,
                        redirection_data,
                        mandate_reference,
                        connector_metadata,
                        network_txn_id,
                        connector_response_reference_id,
                        incremental_authorization_allowed,
                        status_code,
                    },
                )
                &&& resource_id is NoResponseId
                &&& redirection_data matches Some(form)
                &&& *form == (RedirectForm::Form {
                    endpoint: item.response.endpoint,
                    method: Method::Post,
                    form_fields: item.response.form_fields,
                })
                &&& mandate_reference is None
                &&& connector_metadata is None
                &&& network_txn_id is None
                &&& connector_response_reference_id == Some(
                    before.resource_common_data.connector_request_reference_id,
                )
                &&& incremental_authorization_allowed is None
                &&& status_code == item.http_code
            }),
    {
        let redirection_data = Some(
            Box::new(
                RedirectForm::Form {
                    endpoint: item.response.endpoint,
                    method: Method::Post,
                    form_fields: item.response.form_fields,
                },
            ),
        );
        let reference_id =
            item.router_data.resource_common_data.connector_request_reference_id.clone();
        Ok(
            RouterDataV2 {
                connector_config: item.router_data.connector_config,
                resource_common_data: PaymentFlowData {
                    status: AttemptStatus::AuthenticationPending,
                    ..item.router_data.resource_common_data
                },
                request: item.router_data.request,
                response: Ok(
                    PaymentsResponseData::TransactionResponse {
                        resource_id: ResponseId::NoResponseId,
                        redirection_data,
                        mandate_reference: None,
                        connector_metadata: None,
                        network_txn_id: None,
                        connector_response_reference_id: Some(reference_id),
                        incremental_authorization_allowed: None,
                        status_code: item.http_code,
                    },
                ),
            },
        )
    }
}

/// The request at a given trade date, field by field: the merchant's id, the call's
/// reference, the date, the amount, the customer's name or a fixed text, and the
/// URLs that the call names, signed over these very fields under the configuration's
/// own key and IV. What is missing is told in the order in which it is looked for.
pub proof fn lemma_authorize_request_at(
    call: &AuthorizeRouterData,
    date: String,
    r: Result<EcpayAuthorizeRequest, IntegrationError>,
)
    requires
        call_ensures(EcpayAuthorizeRequest::at_trade_date, (call, date), r),
    ensures
        match call.connector_config {
            ConnectorSpecificConfig::Other => {
                &&& r matches Err(error)
                &&& error is FailedToObtainAuthType
            },
            ConnectorSpecificConfig::Ecpay { api_key, hash_key, hash_iv } => {
                match call.request.webhook_url {
                    None => {
                        &&& r matches Err(IntegrationError::MissingRequiredField { field_name })
                        &&& field_name@ == "webhook_url"@
                    },
                    Some(url) => {
                        &&& r matches Ok(request)
                        &&& request.merchant_id@ == api_key@
                        &&& request.merchant_trade_no@
                            == call.resource_common_data.connector_request_reference_id@
                        &&& request.merchant_trade_date@ == date@
                        &&& request.payment_type@ == "aio"@
                        &&& request.total_amount == call.request.minor_amount
                        &&& call.request.customer_name matches Some(name)
                            ==> request.trade_desc@ == name@
                        &&& call.request.customer_name is None ==> request.trade_desc@
                            == "ECPay payment"@
                        &&& request.item_name@ == "Product"@
                        &&& request.return_url@ == url@
                        &&& request.choose_payment@ == "ALL"@
                        &&& request.encrypt_type == 1
                        &&& request.client_back_url == call.request.complete_authorize_url
                        &&& request.order_result_url is None
                        &&& request.need_extra_paid_info is None
                        &&& request.platform_id is None
                        &&& request.custom_field_1 is None
                        &&& request.custom_field_2 is None
                        &&& request.custom_field_3 is None
                        &&& request.custom_field_4 is None
                        &&& request.language is None
                        &&& request.check_mac_value@ == check_mac::check_mac_value(
                            seq![
                                ("MerchantID"@, api_key@),
                                ("MerchantTradeNo"@, request.merchant_trade_no@),
                                ("MerchantTradeDate"@, request.merchant_trade_date@),
                                ("PaymentType"@, "aio"@),
                                ("TotalAmount"@, text::decimal(request.total_amount as int)),
                                ("TradeDesc"@, request.trade_desc@),
                                ("ItemName"@, "Product"@),
                                ("ReturnURL"@, url@),
                                ("ChoosePayment"@, "ALL"@),
                                ("EncryptType"@, "1"@),
                            ],
                            hash_key@,
                            hash_iv@,
                        )
                    },
                }
            },
        },
{
    reveal_strlit("1");
    assert("1"@ =~= text::decimal(1));
    if let Ok(request) = r {
        assert(request.signed_params() =~= seq![
            ("MerchantID"@, request.merchant_id@),
            ("MerchantTradeNo"@, request.merchant_trade_no@),
            ("MerchantTradeDate"@, request.merchant_trade_date@),
            ("PaymentType"@, "aio"@),
            ("TotalAmount"@, text::decimal(request.total_amount as int)),
            ("TradeDesc"@, request.trade_desc@),
            ("ItemName"@, "Product"@),
            ("ReturnURL"@, request.return_url@),
            ("ChoosePayment"@, "ALL"@),
            ("EncryptType"@, "1"@),
        ]);
    }
}

/// The request of this moment: its trade date is that of a second which the clock
/// gave, eight hours ahead of UTC, whatever the call asks for; every other field is
/// as in [`lemma_authorize_request_at`].
pub proof fn lemma_authorize_request_now(
    item: EcpayRouterData<AuthorizeRouterData>,
    r: Result<EcpayAuthorizeRequest, IntegrationError>,
)
    requires
        call_ensures(EcpayAuthorizeRequest::try_from, (item,), r),
    ensures
        r matches Ok(request) ==> exists|now: i64|
            #[trigger] clock::clock_gave(now) && request.merchant_trade_date@
                == calendar::clock_text(now + 8 * 3600),
        match item.router_data.connector_config {
            ConnectorSpecificConfig::Other => {
                &&& r matches Err(error)
                &&& error is FailedToObtainAuthType
            },
            ConnectorSpecificConfig::Ecpay { api_key, hash_key, hash_iv } => {
                match item.router_data.request.webhook_url {
                    None => {
                        &&& r matches Err(IntegrationError::MissingRequiredField { field_name })
                        &&& field_name@ == "webhook_url"@
                    },
                    Some(url) => {
                        &&& r matches Ok(request)
                        &&& request.merchant_id@ == api_key@
                        &&& request.merchant_trade_no@
                            == item.router_data.resource_common_data.connector_request_reference_id@
                        &&& request.payment_type@ == "aio"@
                        &&& request.total_amount == item.router_data.request.minor_amount
                        &&& item.router_data.request.customer_name matches Some(name)
                            ==> request.trade_desc@ == name@
                        &&& item.router_data.request.customer_name is None ==> request.trade_desc@
                            == "ECPay payment"@
                        &&& request.item_name@ == "Product"@
                        &&& request.return_url@ == url@
                        &&& request.choose_payment@ == "ALL"@
                        &&& request.encrypt_type == 1
                        &&& request.client_back_url
                            == item.router_data.request.complete_authorize_url
                        &&& request.order_result_url is None
                        &&& request.need_extra_paid_info is None
                        &&& request.platform_id is None
                        &&& request.custom_field_1 is None
                        &&& request.custom_field_2 is None
                        &&& request.custom_field_3 is None
                        &&& request.custom_field_4 is None
                        &&& request.language is None
                        &&& request.check_mac_value@ == check_mac::check_mac_value(
                            seq![
                                ("MerchantID"@, api_key@),
                                ("MerchantTradeNo"@, request.merchant_trade_no@),
                                ("MerchantTradeDate"@, request.merchant_trade_date@),
                                ("PaymentType"@, "aio"@),
                                ("TotalAmount"@, text::decimal(request.total_amount as int)),
                                ("TradeDesc"@, request.trade_desc@),
                                ("ItemName"@, "Product"@),
                                ("ReturnURL"@, url@),
                                ("ChoosePayment"@, "ALL"@),
                                ("EncryptType"@, "1"@),
                            ],
                            hash_key@,
                            hash_iv@,
                        )
                    },
                }
            },
        },
{
    if let Ok(request) = r {
        let now = choose|now: i64|
            #[trigger] clock::clock_gave(now) && 0 <= now <= clock::LAST_SECOND
                && request.merchant_trade_date@ == clock::trade_date(now);
        assert(clock::trade_date(now) == calendar::clock_text(now + 8 * 3600));
    }
    reveal_strlit("1");
    assert("1"@ =~= text::decimal(1));
    if let Ok(request) = r {
        assert(request.signed_params() =~= seq![
            ("MerchantID"@, request.merchant_id@),
            ("MerchantTradeNo"@, request.merchant_trade_no@),
            ("MerchantTradeDate"@, request.merchant_trade_date@),
            ("PaymentType"@, "aio"@),
            ("TotalAmount"@, text::decimal(request.total_amount as int)),
            ("TradeDesc"@, request.trade_desc@),
            ("ItemName"@, "Product"@),
            ("ReturnURL"@, request.return_url@),
            ("ChoosePayment"@, "ALL"@),
            ("EncryptType"@, "1"@),
        ]);
    }
}

/// The answer to an authorization sends the payer on: by `POST`, to the answer's
/// endpoint, with the answer's fields. The payment waits for the payer, under the
/// call's own reference and without a transaction id.
pub proof fn lemma_authorize_answer(
    item: ResponseRouterData<EcpayAuthorizeResponse, AuthorizeRouterData>,
    r: Result<AuthorizeRouterData, ConnectorError>,
)
    requires
        call_ensures(AuthorizeRouterData::try_from, (item,), r),
    ensures
        r matches Ok(call) && ({
            let own = item.router_data.resource_common_data.connector_request_reference_id;
            &&& call.connector_config == item.router_data.connector_config
            &&& call.request == item.router_data.request
            &&& call.resource_common_data.status is AuthenticationPending
            &&& call.resource_common_data.connector_request_reference_id == own
            &&& call.response matches Ok(
                PaymentsResponseData::TransactionResponse {
                    resource_id,
                    redirection_data,
                    mandate_reference,
                    connector_metadata,
                    network_txn_id,
                    connector_response_reference_id,
                    incremental_authorization_allowed,
                    status_code,
                },
            )
            &&& resource_id is NoResponseId
            &&& redirection_data matches Some(form)
            &&& *form matches RedirectForm::Form { endpoint, method, form_fields }
            &&& endpoint == item.response.endpoint
            &&& method is Post
            &&& form_fields == item.response.form_fields
            &&& mandate_reference is None
            &&& connector_metadata is None
            &&& network_txn_id is None
            &&& connector_response_reference_id == Some(own)
            &&& incremental_authorization_allowed is None
            &&& status_code == item.http_code
        }),
{
}

} // verus!
