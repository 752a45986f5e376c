use std::collections::HashMap;

use ecpay::authorize::{AuthorizeRouterData, EcpayAuthorizeResponse};
use ecpay::capture::{CaptureRouterData, EcpayCaptureResponse};
use ecpay::form::get_form_data;
use ecpay::psync::{EcpayPSyncResponse, PSyncRouterData};
use ecpay::refund::{EcpayRefundResponse, RefundRouterData};
use ecpay::router::{
    AttemptStatus, ConnectorSpecificConfig, ErrorResponse, Method, PaymentFlowData,
    PaymentVoidData, PaymentsAuthorizeData, PaymentsCaptureData, PaymentsResponseData,
    PaymentsSyncData, RedirectForm, RefundStatus, RefundSyncData, RefundsData,
    RefundsResponseData, ResponseId, ResponseRouterData, RouterDataV2,
};
use ecpay::rsync::{EcpayRSyncResponse, RSyncRouterData};
use ecpay::void::{EcpayVoidResponse, VoidRouterData};

fn open_response<T>() -> Result<T, ErrorResponse> {
    Err(ErrorResponse { code: "x".to_string(), message: "y".to_string() })
}

fn payment<R>(request: R) -> RouterDataV2<PaymentFlowData, R, PaymentsResponseData> {
    RouterDataV2 {
        connector_config: ConnectorSpecificConfig::Other,
        resource_common_data: PaymentFlowData {
            status: AttemptStatus::Other,
            connector_request_reference_id: "ref_1".to_string(),
        },
        request,
        response: open_response(),
    }
}

fn refund<R>(request: R) -> RouterDataV2<u8, R, RefundsResponseData> {
    RouterDataV2 {
        connector_config: ConnectorSpecificConfig::Other,
        resource_common_data: 7,
        request,
        response: open_response(),
    }
}

fn check_transaction(
    outcome: Result<PaymentsResponseData, ErrorResponse>,
    transaction_id: &str,
    reference_id: &str,
    code: u16,
) {
    match outcome {
        Ok(PaymentsResponseData::TransactionResponse {
            resource_id,
            redirection_data,
            mandate_reference,
            connector_metadata,
            network_txn_id,
            connector_response_reference_id,
            incremental_authorization_allowed,
            status_code,
        }) => {
            match resource_id {
                ResponseId::ConnectorTransactionId(id) => assert_eq!(id, transaction_id),
                other => panic!("{:?}", other),
            }
            assert!(redirection_data.is_none());
            assert_eq!(mandate_reference, None);
            assert_eq!(connector_metadata, None);
            assert_eq!(network_txn_id, None);
            assert_eq!(connector_response_reference_id, Some(reference_id.to_string()));
            assert_eq!(incremental_authorization_allowed, None);
            assert_eq!(status_code, code);
        }
        Err(error) => panic!("{:?}", error),
    }
}

#[test]
fn authorization_answer_redirects_the_payer() {
    let mut form_fields: HashMap<String, String> = HashMap::new();
    form_fields.insert("MerchantID".to_string(), "2000132".to_string());
    let item = ResponseRouterData {
        response: EcpayAuthorizeResponse {
            html_content: "<html>".to_string(),
            endpoint: "https://payment.example/checkout".to_string(),
            form_fields: form_fields.clone(),
        },
        router_data: payment(PaymentsAuthorizeData {
            minor_amount: 12,
            customer_name: None,
            webhook_url: None,
            complete_authorize_url: None,
        }),
        http_code: 200,
    };
    let call = AuthorizeRouterData::try_from(item).unwrap();
    assert_eq!(call.resource_common_data.status, AttemptStatus::AuthenticationPending);
    assert_eq!(call.resource_common_data.connector_request_reference_id, "ref_1");
    assert_eq!(call.request.minor_amount, 12);
    match call.response {
        Ok(PaymentsResponseData::TransactionResponse {
            resource_id,
            redirection_data,
            mandate_reference,
            connector_metadata,
            network_txn_id,
            connector_response_reference_id,
            incremental_authorization_allowed,
            status_code,
        }) => {
            assert!(matches!(resource_id, ResponseId::NoResponseId));
            let RedirectForm::Form { endpoint, method, form_fields: fields } =
                *redirection_data.unwrap();
            assert_eq!(endpoint, "https://payment.example/checkout");
            assert_eq!(method, Method::Post);
            assert_eq!(fields, form_fields);
            assert_eq!(mandate_reference, None);
            assert_eq!(connector_metadata, None);
            assert_eq!(network_txn_id, None);
            assert_eq!(connector_response_reference_id, Some("ref_1".to_string()));
            assert_eq!(incremental_authorization_allowed, None);
            assert_eq!(status_code, 200);
        }
        Err(error) => panic!("{:?}", error),
    }
}

fn payment_state(trade_status: &str) -> PSyncRouterData {
    let item = ResponseRouterData {
        response: EcpayPSyncResponse {
            merchant_id: "2000132".to_string(),
            merchant_trade_no: "ref_2".to_string(),
            trade_no: "2405".to_string(),
            trade_amt: 1500,
            payment_date: String::new(),
            payment_type: String::new(),
            trade_date: String::new(),
            trade_status: trade_status.to_string(),
            item_name: "Product".to_string(),
            check_mac_value: String::new(),
        },
        router_data: payment(PaymentsSyncData {
            connector_transaction_id: Some("txn-9".to_string()),
        }),
        http_code: 201,
    };
    PSyncRouterData::try_from(item).unwrap()
}

#[test]
fn payment_states() {
    for (word, status) in [
        ("1", AttemptStatus::Charged),
        ("0", AttemptStatus::Pending),
        ("2", AttemptStatus::Failure),
        ("", AttemptStatus::Failure),
        ("01", AttemptStatus::Failure),
        ("10200095", AttemptStatus::Failure),
        (" 1", AttemptStatus::Failure),
    ] {
        let call = payment_state(word);
        assert_eq!(call.resource_common_data.status, status);
        assert_eq!(call.resource_common_data.connector_request_reference_id, "ref_1");
        assert_eq!(call.request.connector_transaction_id, Some("txn-9".to_string()));
        check_transaction(call.response, "2405", "ref_2", 201);
    }
}

#[test]
fn refund_states() {
    for (word, status) in [
        ("1", RefundStatus::Success),
        ("0", RefundStatus::Pending),
        ("2", RefundStatus::Failure),
        ("", RefundStatus::Failure),
    ] {
        let item = ResponseRouterData {
            response: EcpayRSyncResponse {
                merchant_id: "2000132".to_string(),
                merchant_trade_no: "ref_2".to_string(),
                trade_no: "2405".to_string(),
                trade_amt: 1500,
                payment_date: String::new(),
                payment_type: String::new(),
                trade_date: String::new(),
                trade_status: word.to_string(),
                check_mac_value: String::new(),
            },
            router_data: refund(RefundSyncData { connector_transaction_id: "txn-9".to_string() }),
            http_code: 202,
        };
        let call = RSyncRouterData::<u8>::try_from(item).unwrap();
        assert_eq!(call.resource_common_data, 7);
        let data = call.response.unwrap();
        assert_eq!(data.connector_refund_id, "2405");
        assert_eq!(data.refund_status, status);
        assert_eq!(data.status_code, 202);
    }
}

#[test]
fn capture_answers() {
    for (code, status) in [
        (1, AttemptStatus::Charged),
        (0, AttemptStatus::Failure),
        (-1, AttemptStatus::Failure),
        (10100058, AttemptStatus::Failure),
    ] {
        let item = ResponseRouterData {
            response: EcpayCaptureResponse {
                merchant_id: "2000132".to_string(),
                merchant_trade_no: "ref_2".to_string(),
                trade_no: "2405".to_string(),
                rtn_code: code,
                rtn_msg: String::new(),
            },
            router_data: payment(PaymentsCaptureData {
                connector_transaction_id: None,
                minor_amount_to_capture: 3,
            }),
            http_code: 200,
        };
        let call = CaptureRouterData::try_from(item).unwrap();
        assert_eq!(call.resource_common_data.status, status);
        assert_eq!(call.request.minor_amount_to_capture, 3);
        check_transaction(call.response, "2405", "ref_2", 200);
    }
}

#[test]
fn refund_answers() {
    for (code, status) in [
        (1, RefundStatus::Success),
        (0, RefundStatus::Failure),
        (2, RefundStatus::Failure),
    ] {
        let item = ResponseRouterData {
            response: EcpayRefundResponse {
                merchant_id: "2000132".to_string(),
                merchant_trade_no: "ref_2".to_string(),
                trade_no: "2405".to_string(),
                rtn_code: code,
                rtn_msg: String::new(),
            },
            router_data: refund(RefundsData {
                connector_transaction_id: "txn-9".to_string(),
                minor_refund_amount: 4,
            }),
            http_code: 500,
        };
        let call = RefundRouterData::<u8>::try_from(item).unwrap();
        assert_eq!(call.resource_common_data, 7);
        assert_eq!(call.request.minor_refund_amount, 4);
        let data = call.response.unwrap();
        assert_eq!(data.connector_refund_id, "2405");
        assert_eq!(data.refund_status, status);
        assert_eq!(data.status_code, 500);
    }
}

#[test]
fn cancellation_answers() {
    for (code, status) in [(1, AttemptStatus::Voided), (0, AttemptStatus::Failure)] {
        let item = ResponseRouterData {
            response: EcpayVoidResponse {
                merchant_id: "2000132".to_string(),
                merchant_trade_no: "ref_2".to_string(),
                trade_no: "2405".to_string(),
                rtn_code: code,
                rtn_msg: String::new(),
            },
            router_data: payment(PaymentVoidData {
                connector_transaction_id: "txn-9".to_string(),
            }),
            http_code: 200,
        };
        let call = VoidRouterData::try_from(item).unwrap();
        assert_eq!(call.resource_common_data.status, status);
        assert_eq!(call.request.connector_transaction_id, "txn-9");
        check_transaction(call.response, "2405", "ref_2", 200);
    }
}

#[test]
fn a_form_that_cannot_be_built_is_empty() {
    let built: Result<Vec<u8>, &str> = Ok(vec![1, 2]);
    assert_eq!(get_form_data(built, Vec::new()), vec![1, 2]);
    let failed: Result<Vec<u8>, &str> = Err("no");
    assert_eq!(get_form_data(failed, Vec::new()), Vec::<u8>::new());
}
