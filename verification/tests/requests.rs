use ecpay::auth::EcpayAuthType;
use ecpay::authorize::EcpayAuthorizeRequest;
use ecpay::capture::EcpayCaptureRequest;
use ecpay::clock::{trade_date_at, LAST_SECOND};
use ecpay::errors::IntegrationError;
use ecpay::psync::EcpayPSyncRequest;
use ecpay::refund::EcpayRefundRequest;
use ecpay::router::{
    AttemptStatus, ConnectorSpecificConfig, EcpayRouterData, ErrorResponse, PaymentFlowData,
    PaymentVoidData, PaymentsAuthorizeData, PaymentsCaptureData, PaymentsResponseData,
    PaymentsSyncData, RefundSyncData, RefundsData, RefundsResponseData, RouterDataV2,
};
use ecpay::rsync::EcpayRSyncRequest;
use ecpay::void::EcpayVoidRequest;

fn config() -> ConnectorSpecificConfig {
    ConnectorSpecificConfig::Ecpay {
        api_key: "2000132".to_string(),
        hash_key: "TestHashKey01".to_string(),
        hash_iv: "TestHashIV02".to_string(),
    }
}

fn open_response<T>() -> Result<T, ErrorResponse> {
    Err(ErrorResponse { code: String::new(), message: String::new() })
}

fn payment<R>(
    connector_config: ConnectorSpecificConfig,
    request: R,
) -> RouterDataV2<PaymentFlowData, R, PaymentsResponseData> {
    RouterDataV2 {
        connector_config,
        resource_common_data: PaymentFlowData {
            status: AttemptStatus::Other,
            connector_request_reference_id: "ref_1".to_string(),
        },
        request,
        response: open_response(),
    }
}

fn refund<R>(
    connector_config: ConnectorSpecificConfig,
    request: R,
) -> RouterDataV2<u8, R, RefundsResponseData> {
    RouterDataV2 {
        connector_config,
        resource_common_data: 7,
        request,
        response: open_response(),
    }
}

fn authorize_data() -> PaymentsAuthorizeData {
    PaymentsAuthorizeData {
        minor_amount: 1500,
        customer_name: Some("Wang".to_string()),
        webhook_url: Some("https://example.com/hook?a=1".to_string()),
        complete_authorize_url: Some("https://example.com/back".to_string()),
    }
}

#[test]
fn credentials_come_from_an_ecpay_configuration() {
    let auth = EcpayAuthType::try_from(&config()).unwrap();
    assert_eq!(auth.merchant_id, "2000132");
    assert_eq!(auth.hash_key, "TestHashKey01");
    assert_eq!(auth.hash_iv, "TestHashIV02");
}

#[test]
fn credentials_of_another_connector_are_refused() {
    assert!(matches!(
        EcpayAuthType::try_from(&ConnectorSpecificConfig::Other),
        Err(IntegrationError::FailedToObtainAuthType)
    ));
}

#[test]
fn trade_dates_are_in_taiwan_time() {
    assert_eq!(trade_date_at(0), "1970/01/01 08:00:00");
    assert_eq!(trade_date_at(1_714_950_489), "2024/05/06 07:08:09");
    assert_eq!(trade_date_at(951_782_399), "2000/02/29 07:59:59");
    assert_eq!(trade_date_at(253_402_271_999), "9999/12/31 23:59:59");
}

#[test]
fn trade_dates_follow_the_gregorian_calendar() {
    assert_eq!(trade_date_at(951_753_599), "2000/02/28 23:59:59");
    assert_eq!(trade_date_at(951_839_999), "2000/02/29 23:59:59");
    assert_eq!(trade_date_at(951_840_000), "2000/03/01 00:00:00");
    assert_eq!(trade_date_at(4_107_513_599), "2100/02/28 23:59:59");
    assert_eq!(trade_date_at(4_107_513_600), "2100/03/01 00:00:00");
    assert_eq!(trade_date_at(1_735_660_799), "2024/12/31 23:59:59");
    assert_eq!(trade_date_at(1_735_660_800), "2025/01/01 00:00:00");
    assert_eq!(trade_date_at(253_402_272_000), "+10000/01/01 00:00:00");
}

#[test]
fn the_calendar_ends_where_chrono_ends() {
    assert_eq!(chrono::DateTime::<chrono::Utc>::MAX_UTC.timestamp(), LAST_SECOND);
    assert_eq!(trade_date_at(LAST_SECOND), "+262143/01/01 07:59:59");
}

#[test]
fn authorization_at_a_trade_date() {
    let call = payment(config(), authorize_data());
    let request =
        EcpayAuthorizeRequest::at_trade_date(&call, "2024/05/06 07:08:09".to_string()).unwrap();
    assert_eq!(request.merchant_id, "2000132");
    assert_eq!(request.merchant_trade_no, "ref_1");
    assert_eq!(request.merchant_trade_date, "2024/05/06 07:08:09");
    assert_eq!(request.payment_type, "aio");
    assert_eq!(request.total_amount, 1500);
    assert_eq!(request.trade_desc, "Wang");
    assert_eq!(request.item_name, "Product");
    assert_eq!(request.return_url, "https://example.com/hook?a=1");
    assert_eq!(request.choose_payment, "ALL");
    assert_eq!(
        request.check_mac_value,
        "598A8A8D4B840C2B95AB1F86053C0CA59BFF4EA386B44BEA1A8E76AE1BAA9729"
    );
    assert_eq!(request.encrypt_type, 1);
    assert_eq!(request.client_back_url, Some("https://example.com/back".to_string()));
    assert_eq!(request.order_result_url, None);
    assert_eq!(request.need_extra_paid_info, None);
    assert_eq!(request.platform_id, None);
    assert_eq!(request.custom_field_1, None);
    assert_eq!(request.custom_field_2, None);
    assert_eq!(request.custom_field_3, None);
    assert_eq!(request.custom_field_4, None);
    assert_eq!(request.language, None);
}

#[test]
fn authorization_without_a_customer_name() {
    let mut data = authorize_data();
    data.customer_name = None;
    data.complete_authorize_url = None;
    let call = payment(config(), data);
    let request =
        EcpayAuthorizeRequest::at_trade_date(&call, "2024/05/06 07:08:09".to_string()).unwrap();
    assert_eq!(request.trade_desc, "ECPay payment");
    assert_eq!(request.client_back_url, None);
    assert_eq!(
        request.check_mac_value,
        "8DB0BB004DCCF5E8DD532BB69E7415E16E12E15191FEAFE2EF0956F419FFEAAB"
    );
}

#[test]
fn authorization_now() {
    let before = chrono::Utc::now().timestamp();
    let item = EcpayRouterData { router_data: payment(config(), authorize_data()) };
    let request = EcpayAuthorizeRequest::try_from(item).unwrap();
    let after = chrono::Utc::now().timestamp();
    assert!((before..=after).any(|at| request.merchant_trade_date == trade_date_at(at)));
    let call = payment(config(), authorize_data());
    let again =
        EcpayAuthorizeRequest::at_trade_date(&call, request.merchant_trade_date.clone()).unwrap();
    assert_eq!(again.check_mac_value, request.check_mac_value);
}

#[test]
fn authorization_needs_a_webhook_url() {
    let mut data = authorize_data();
    data.webhook_url = None;
    let item = EcpayRouterData { router_data: payment(config(), data) };
    match EcpayAuthorizeRequest::try_from(item) {
        Err(IntegrationError::MissingRequiredField { field_name }) => {
            assert_eq!(field_name, "webhook_url");
        }
        other => panic!("{:?}", other),
    }
}

#[test]
fn another_configuration_is_refused_before_anything_else() {
    let mut data = authorize_data();
    data.webhook_url = None;
    let item = EcpayRouterData { router_data: payment(ConnectorSpecificConfig::Other, data) };
    assert!(matches!(
        EcpayAuthorizeRequest::try_from(item),
        Err(IntegrationError::FailedToObtainAuthType)
    ));
    let call = payment(
        ConnectorSpecificConfig::Other,
        PaymentsSyncData { connector_transaction_id: None },
    );
    assert!(matches!(
        EcpayPSyncRequest::at_time(&call, 5),
        Err(IntegrationError::FailedToObtainAuthType)
    ));
    let item = EcpayRouterData {
        router_data: payment(
            ConnectorSpecificConfig::Other,
            PaymentsCaptureData { connector_transaction_id: None, minor_amount_to_capture: 1 },
        ),
    };
    assert!(matches!(
        EcpayCaptureRequest::try_from(item),
        Err(IntegrationError::FailedToObtainAuthType)
    ));
    let item = EcpayRouterData {
        router_data: payment(
            ConnectorSpecificConfig::Other,
            PaymentVoidData { connector_transaction_id: "t".to_string() },
        ),
    };
    assert!(matches!(
        EcpayVoidRequest::try_from(item),
        Err(IntegrationError::FailedToObtainAuthType)
    ));
    let item = EcpayRouterData {
        router_data: refund(
            ConnectorSpecificConfig::Other,
            RefundsData { connector_transaction_id: "t".to_string(), minor_refund_amount: 1 },
        ),
    };
    assert!(matches!(
        EcpayRefundRequest::try_from(item),
        Err(IntegrationError::FailedToObtainAuthType)
    ));
    let item = EcpayRouterData {
        router_data: refund(
            ConnectorSpecificConfig::Other,
            RefundSyncData { connector_transaction_id: "t".to_string() },
        ),
    };
    assert!(matches!(
        EcpayRSyncRequest::try_from(item),
        Err(IntegrationError::FailedToObtainAuthType)
    ));
}

#[test]
fn payment_state_request() {
    let call = payment(
        config(),
        PaymentsSyncData { connector_transaction_id: Some("txn-9".to_string()) },
    );
    let request = EcpayPSyncRequest::at_time(&call, 1_700_000_000).unwrap();
    assert_eq!(request.merchant_id, "2000132");
    assert_eq!(request.merchant_trade_no, "txn-9");
    assert_eq!(request.time_stamp, 1_700_000_000);
    assert_eq!(
        request.check_mac_value,
        "C1FAFE18B6D92A43B6F6AA0CB34B2D8CB7DEC8241174927DDE7C70E96B22EC73"
    );
}

#[test]
fn payment_state_request_now() {
    let before = chrono::Utc::now().timestamp();
    let data = PaymentsSyncData { connector_transaction_id: Some("txn-9".to_string()) };
    let item = EcpayRouterData { router_data: payment(config(), data.clone()) };
    let request = EcpayPSyncRequest::try_from(item).unwrap();
    let after = chrono::Utc::now().timestamp();
    assert!(before <= request.time_stamp && request.time_stamp <= after);
    let again = EcpayPSyncRequest::at_time(&payment(config(), data), request.time_stamp).unwrap();
    assert_eq!(again.check_mac_value, request.check_mac_value);
}

#[test]
fn payment_state_request_needs_a_transaction_id() {
    let data = PaymentsSyncData { connector_transaction_id: None };
    let item = EcpayRouterData { router_data: payment(config(), data) };
    assert!(matches!(
        EcpayPSyncRequest::try_from(item),
        Err(IntegrationError::MissingConnectorTransactionID)
    ));
}

#[test]
fn refund_state_request() {
    let call = refund(config(), RefundSyncData { connector_transaction_id: "txn-9".to_string() });
    let request = EcpayRSyncRequest::at_time(&call, 1_700_000_000).unwrap();
    assert_eq!(request.merchant_id, "2000132");
    assert_eq!(request.merchant_trade_no, "txn-9");
    assert_eq!(request.time_stamp, 1_700_000_000);
    assert_eq!(
        request.check_mac_value,
        "C1FAFE18B6D92A43B6F6AA0CB34B2D8CB7DEC8241174927DDE7C70E96B22EC73"
    );
}

#[test]
fn refund_state_request_now() {
    let before = chrono::Utc::now().timestamp();
    let item = EcpayRouterData {
        router_data: refund(
            config(),
            RefundSyncData { connector_transaction_id: "txn-9".to_string() },
        ),
    };
    let request = EcpayRSyncRequest::try_from(item).unwrap();
    let after = chrono::Utc::now().timestamp();
    assert!(before <= request.time_stamp && request.time_stamp <= after);
}

#[test]
fn capture_request() {
    let item = EcpayRouterData {
        router_data: payment(
            config(),
            PaymentsCaptureData {
                connector_transaction_id: Some("txn-9".to_string()),
                minor_amount_to_capture: 1500,
            },
        ),
    };
    let request = EcpayCaptureRequest::try_from(item).unwrap();
    assert_eq!(request.merchant_id, "2000132");
    assert_eq!(request.merchant_trade_no, "txn-9");
    assert_eq!(request.trade_no, "txn-9");
    assert_eq!(request.action, "C");
    assert_eq!(request.total_amount, 1500);
    assert_eq!(
        request.check_mac_value,
        "17DD5565CD40DFD52A5E28C2D321D80A17BA74E9D17D2BC741EA3EE9DD1AAFBD"
    );
}

#[test]
fn capture_needs_a_transaction_id() {
    let item = EcpayRouterData {
        router_data: payment(
            config(),
            PaymentsCaptureData { connector_transaction_id: None, minor_amount_to_capture: 1 },
        ),
    };
    assert!(matches!(
        EcpayCaptureRequest::try_from(item),
        Err(IntegrationError::MissingConnectorTransactionID)
    ));
}

#[test]
fn refund_request() {
    let item = EcpayRouterData {
        router_data: refund(
            config(),
            RefundsData {
                connector_transaction_id: "txn-9".to_string(),
                minor_refund_amount: -20,
            },
        ),
    };
    let request = EcpayRefundRequest::try_from(item).unwrap();
    assert_eq!(request.merchant_id, "2000132");
    assert_eq!(request.merchant_trade_no, "txn-9");
    assert_eq!(request.trade_no, "txn-9");
    assert_eq!(request.action, "R");
    assert_eq!(request.total_amount, -20);
    assert_eq!(
        request.check_mac_value,
        "132D31EC1947EEDBF8FCA60A825FB4B1863207B8FEDEBD074C409E24AACCFB19"
    );
}

#[test]
fn cancellation_request() {
    let item = EcpayRouterData {
        router_data: payment(
            config(),
            PaymentVoidData { connector_transaction_id: "txn-9".to_string() },
        ),
    };
    let request = EcpayVoidRequest::try_from(item).unwrap();
    assert_eq!(request.merchant_id, "2000132");
    assert_eq!(request.merchant_trade_no, "txn-9");
    assert_eq!(request.trade_no, "txn-9");
    assert_eq!(request.action, "N");
    assert_eq!(request.total_amount, 0);
    assert_eq!(
        request.check_mac_value,
        "A66CE33EB97C0EC19ED335DACAEAA9B8F9DF40C1C03EC280530C92546034FA9D"
    );
}
