//! The parameters that the service's queries and actions are signed over.

use vstd::prelude::*;

use crate::params;
use crate::params::ParamMap;
use crate::text;

verus! {

/// The parameters of a question for a trade's state.
pub open spec fn query_params(
    merchant_id: Seq<char>,
    merchant_trade_no: Seq<char>,
    time_stamp: int,
) -> Seq<params::Param> {
    seq![
        ("MerchantID"@, merchant_id),
        ("MerchantTradeNo"@, merchant_trade_no),
        ("TimeStamp"@, text::decimal(time_stamp)),
    ]
}

/// The parameters of an action on a trade.
pub open spec fn action_params(
    merchant_id: Seq<char>,
    merchant_trade_no: Seq<char>,
    trade_no: Seq<char>,
    action: Seq<char>,
    total_amount: int,
) -> Seq<params::Param> {
    seq![
        ("MerchantID"@, merchant_id),
        ("MerchantTradeNo"@, merchant_trade_no),
        ("TradeNo"@, trade_no),
        ("Action"@, action),
        ("TotalAmount"@, text::decimal(total_amount)),
    ]
}

/// The parameters of a question for a trade's state.
pub(crate) fn query_param_map(
    merchant_id: &String,
    merchant_trade_no: &String,
    time_stamp: i64,
) -> (r: ParamMap)
    ensures
        r@ == query_params(merchant_id@, merchant_trade_no@, time_stamp as int),
{
    let mut params = ParamMap::new();
    params.insert("MerchantID".to_owned(), merchant_id.clone());
    params.insert("MerchantTradeNo".to_owned(), merchant_trade_no.clone());
    params.insert("TimeStamp".to_owned(), text::decimal_text(time_stamp));
    proof {
        params::lemma_name_shapes();
        assert(params@ =~= query_params(merchant_id@, merchant_trade_no@, time_stamp as int));
    }
    params
}

/// The parameters of an action on a trade.
pub(crate) fn action_param_map(
    merchant_id: &String,
    merchant_trade_no: &String,
    trade_no: &String,
    action: &str,
    total_amount: i64,
) -> (r: ParamMap)
    ensures
        r@ == action_params(
            merchant_id@,
            merchant_trade_no@,
            trade_no@,
            action@,
            total_amount as int,
        ),
{
    let mut params = ParamMap::new();
    params.insert("MerchantID".to_owned(), merchant_id.clone());
    params.insert("MerchantTradeNo".to_owned(), merchant_trade_no.clone());
    params.insert("TradeNo".to_owned(), trade_no.clone());
    params.insert("Action".to_owned(), action.to_owned());
    params.insert("TotalAmount".to_owned(), text::decimal_text(total_amount));
    proof {
        params::lemma_name_shapes();
        assert(params@ =~= action_params(
            merchant_id@,
            merchant_trade_no@,
            trade_no@,
            action@,
            total_amount as int,
        ));
    }
    params
}

/// A question's parameters are signed in the order in which they are set.
pub proof fn lemma_query_order(
    merchant_id: Seq<char>,
    merchant_trade_no: Seq<char>,
    time_stamp: int,
)
    ensures
        params::sorted_params(query_params(merchant_id, merchant_trade_no, time_stamp)) == seq![
            ("MerchantID"@, merchant_id),
            ("MerchantTradeNo"@, merchant_trade_no),
            ("TimeStamp"@, text::decimal(time_stamp)),
        ],
{
    let ordered: Seq<params::Param> = seq![
        ("MerchantID"@, merchant_id),
        ("MerchantTradeNo"@, merchant_trade_no),
        ("TimeStamp"@, text::decimal(time_stamp)),
    ];
    reveal_strlit("MerchantID");
    reveal_strlit("MerchantTradeNo");
    reveal_strlit("TimeStamp");
    params::lemma_ascii_name_before("MerchantID"@, "MerchantTradeNo"@, 8);
    params::lemma_ascii_name_before("MerchantTradeNo"@, "TimeStamp"@, 0);
    let given = query_params(merchant_id, merchant_trade_no, time_stamp);
    assert(given[0] == ordered[0]);
    assert(given[1] == ordered[1]);
    assert(given[2] == ordered[2]);
    params::lemma_signing_order(given, ordered);
}

/// An action's parameters are signed in the order of their names.
pub proof fn lemma_action_order(
    merchant_id: Seq<char>,
    merchant_trade_no: Seq<char>,
    trade_no: Seq<char>,
    action: Seq<char>,
    total_amount: int,
)
    ensures
        params::sorted_params(
            action_params(merchant_id, merchant_trade_no, trade_no, action, total_amount),
        ) == seq![
            ("Action"@, action),
            ("MerchantID"@, merchant_id),
            ("MerchantTradeNo"@, merchant_trade_no),
            ("TotalAmount"@, text::decimal(total_amount)),
            ("TradeNo"@, trade_no),
        ],
{
    let ordered: Seq<params::Param> = seq![
        ("Action"@, action),
        ("MerchantID"@, merchant_id),
        ("MerchantTradeNo"@, merchant_trade_no),
        ("TotalAmount"@, text::decimal(total_amount)),
        ("TradeNo"@, trade_no),
    ];
    reveal_strlit("Action");
    reveal_strlit("MerchantID");
    reveal_strlit("MerchantTradeNo");
    reveal_strlit("TotalAmount");
    reveal_strlit("TradeNo");
    params::lemma_ascii_name_before("Action"@, "MerchantID"@, 0);
    params::lemma_ascii_name_before("MerchantID"@, "MerchantTradeNo"@, 8);
    params::lemma_ascii_name_before("MerchantTradeNo"@, "TotalAmount"@, 0);
    params::lemma_ascii_name_before("TotalAmount"@, "TradeNo"@, 1);
    let given = action_params(merchant_id, merchant_trade_no, trade_no, action, total_amount);
    assert(given[3] == ordered[0]);
    assert(given[0] == ordered[1]);
    assert(given[1] == ordered[2]);
    assert(given[4] == ordered[3]);
    assert(given[2] == ordered[4]);
    params::lemma_signing_order(given, ordered);
}

} // verus!
