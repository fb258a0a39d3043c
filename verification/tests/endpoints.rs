//! Tests for request paths, query strings, order bodies and responses.

use base64::Engine;
use ed25519_dalek::{Signature, SigningKey, Verifier};
use robinrust::account::account_info_request;
use robinrust::auth::{build_signing_message, Robinhood};
use robinrust::decimal::Dec;
use robinrust::market_data::{best_price_request, estimated_price_request};
use robinrust::orders::{
    create_order_body, create_order_request, orders_list_query, orders_list_request,
    CreateCyptoOrderParams, GetCryptoOrderParams, LimitOrderConfig, MarketOrderConfig,
    OrderConfig, StopLimitOrderConfig,
};
use robinrust::query::render_path_with_query;
use robinrust::request::HttpMethod;
use robinrust::trading::{
    cancel_order_path, cancel_order_request, clean_cancel_response, holdings_request,
    trading_pairs_request,
};

fn test_credential() -> (Robinhood, SigningKey) {
    let secret = [9u8; 32];
    let rh = Robinhood::new(
        "k1".to_string(),
        base64::engine::general_purpose::STANDARD.encode(secret),
        "pk".to_string(),
    )
    .unwrap();
    (rh, SigningKey::from_bytes(&secret))
}

fn verify_headers(
    sk: &SigningKey,
    rh: &Robinhood,
    headers: &robinrust::auth::AuthHeaders,
    path: &str,
    method: &str,
    body: &str,
) {
    assert_eq!(headers.api_key, rh.api_key);
    let ts: u64 = headers.timestamp.parse().unwrap();
    let message = build_signing_message(&rh.api_key, ts, path, method, body);
    let sig_bytes = base64::engine::general_purpose::STANDARD
        .decode(&headers.signature)
        .unwrap();
    let sig = Signature::from_bytes(&sig_bytes.as_slice().try_into().unwrap());
    assert!(sk
        .verifying_key()
        .verify(message.as_bytes(), &sig)
        .is_ok());
}

#[test]
fn empty_filter_set_omits_question_mark() {
    let path = render_path_with_query("/base/", "symbol", &Vec::new());
    assert_eq!(path, "/base/");
}

#[test]
fn repeated_filters_join_in_caller_order() {
    let symbols = vec!["BTC-USD".to_string(), "ETH-USD".to_string(), "XRP-USD".to_string()];
    let path = render_path_with_query("/base/", "symbol", &symbols);
    assert_eq!(path, "/base/?symbol=BTC-USD&symbol=ETH-USD&symbol=XRP-USD");
}

#[test]
fn account_request_is_signed_get() {
    let (rh, sk) = test_credential();
    let d = account_info_request(&rh).unwrap();
    assert_eq!(d.path, "/api/v1/crypto/trading/accounts/");
    assert_eq!(d.extra_query, "");
    assert_eq!(d.method, HttpMethod::Get);
    assert_eq!(d.body, "");
    verify_headers(&sk, &rh, &d.headers, &d.path, "GET", "");
}

#[test]
fn best_price_request_signs_query_in_path() {
    let (rh, sk) = test_credential();
    let d = best_price_request(&rh, &vec!["BTC-USD".to_string()]).unwrap();
    assert_eq!(d.path, "/api/v1/crypto/marketdata/best_bid_ask/?symbol=BTC-USD");
    verify_headers(&sk, &rh, &d.headers, &d.path, "GET", "");
    let all = best_price_request(&rh, &Vec::new()).unwrap();
    assert_eq!(all.path, "/api/v1/crypto/marketdata/best_bid_ask/");
}

#[test]
fn estimated_price_request_renders_all_three_parameters() {
    let (rh, sk) = test_credential();
    let d = estimated_price_request(&rh, "BTC-USD", "bid", &Dec { mantissa: 1, scale: 0 }).unwrap();
    assert_eq!(
        d.path,
        "/api/v1/crypto/marketdata/estimated_price/?symbol=BTC-USD&side=bid&quantity=1"
    );
    verify_headers(&sk, &rh, &d.headers, &d.path, "GET", "");
}

#[test]
fn trading_pairs_and_holdings_requests_use_their_filters() {
    let (rh, _sk) = test_credential();
    let pairs = trading_pairs_request(&rh, &vec!["BTC-USD".to_string()]).unwrap();
    assert_eq!(pairs.path, "/api/v1/crypto/trading/trading_pairs/?symbol=BTC-USD");
    let holdings = holdings_request(&rh, &vec!["BTC".to_string(), "ETH".to_string()]).unwrap();
    assert_eq!(
        holdings.path,
        "/api/v1/crypto/trading/holdings/?asset_code=BTC&asset_code=ETH"
    );
}

#[test]
fn orders_query_is_empty_for_empty_filters() {
    let params = GetCryptoOrderParams::empty();
    assert_eq!(orders_list_query(&params), "");
}

#[test]
fn orders_query_preserves_field_order() {
    let mut params = GetCryptoOrderParams::empty();
    params.symbol = Some("BTC-USD".to_string());
    params.side = Some("buy".to_string());
    params.type_ = Some("limit".to_string());
    params.limit = Some(10);
    assert_eq!(
        orders_list_query(&params),
        "?symbol=BTC-USD&side=buy&type=limit&limit=10"
    );
}

#[test]
fn orders_list_request_signs_bare_path() {
    let (rh, sk) = test_credential();
    let mut params = GetCryptoOrderParams::empty();
    params.cursor = Some("abc".to_string());
    let d = orders_list_request(&rh, &params).unwrap();
    assert_eq!(d.path, "/api/v1/crypto/trading/orders/");
    assert_eq!(d.extra_query, "?cursor=abc");
    verify_headers(&sk, &rh, &d.headers, &d.path, "GET", "");
}

#[test]
fn create_order_body_is_exact_json() {
    let config = LimitOrderConfig {
        quote_amount: None,
        asset_quantity: Some(Dec { mantissa: 1, scale: 0 }),
        limit_price: Some(Dec { mantissa: 1, scale: 0 }),
        time_in_force: Some("gfd".to_string()),
    };
    let params = CreateCyptoOrderParams::new(
        "XRP-USD".to_string(),
        "c-1".to_string(),
        "buy".to_string(),
        "limit".to_string(),
        OrderConfig::Limit(config),
    );
    let body = create_order_body(&params);
    assert_eq!(
        body,
        "{\"symbol\":\"XRP-USD\",\"client_order_id\":\"c-1\",\"side\":\"buy\",\"type\":\"limit\",\
         \"limit_order_config\":{\"asset_quantity\":\"1\",\"limit_price\":\"1\",\
         \"time_in_force\":\"gfd\"}}"
    );
    let parsed: serde_json::Value = serde_json::from_str(&body).unwrap();
    assert_eq!(parsed["symbol"].as_str(), Some("XRP-USD"));
    assert_eq!(parsed["limit_order_config"]["asset_quantity"].as_str(), Some("1"));
}

#[test]
fn market_order_body_quotes_the_quantity() {
    let params = CreateCyptoOrderParams::new(
        "BTC-USD".to_string(),
        "c-2".to_string(),
        "sell".to_string(),
        "market".to_string(),
        OrderConfig::Market(MarketOrderConfig { asset_quantity: Dec { mantissa: 5, scale: 1 } }),
    );
    let body = create_order_body(&params);
    assert_eq!(
        body,
        "{\"symbol\":\"BTC-USD\",\"client_order_id\":\"c-2\",\"side\":\"sell\",\
         \"type\":\"market\",\"market_order_config\":{\"asset_quantity\":\"0.5\"}}"
    );
}

#[test]
fn absent_optional_prices_serialize_as_null() {
    let params = CreateCyptoOrderParams::new(
        "BTC-USD".to_string(),
        "c-3".to_string(),
        "buy".to_string(),
        "stop_limit".to_string(),
        OrderConfig::StopLimit(StopLimitOrderConfig {
            quote_amount: None,
            asset_quantity: None,
            limit_price: None,
            stop_price: None,
            time_in_force: None,
        }),
    );
    let body = create_order_body(&params);
    assert_eq!(
        body,
        "{\"symbol\":\"BTC-USD\",\"client_order_id\":\"c-3\",\"side\":\"buy\",\
         \"type\":\"stop_limit\",\"stop_limit_order_config\":{\"limit_price\":null,\
         \"stop_price\":null,\"time_in_force\":null}}"
    );
}

#[test]
fn string_fields_are_json_escaped() {
    let params = CreateCyptoOrderParams::new(
        "A\"B\\".to_string(),
        "c\n4".to_string(),
        "buy".to_string(),
        "market".to_string(),
        OrderConfig::Market(MarketOrderConfig { asset_quantity: Dec { mantissa: 1, scale: 0 } }),
    );
    let body = create_order_body(&params);
    let parsed: serde_json::Value = serde_json::from_str(&body).unwrap();
    assert_eq!(parsed["symbol"].as_str(), Some("A\"B\\"));
    assert_eq!(parsed["client_order_id"].as_str(), Some("c\n4"));
}

#[test]
fn create_order_request_signs_the_exact_body() {
    let (rh, sk) = test_credential();
    let params = CreateCyptoOrderParams::new(
        "XRP-USD".to_string(),
        "c-5".to_string(),
        "buy".to_string(),
        "market".to_string(),
        OrderConfig::Market(MarketOrderConfig { asset_quantity: Dec { mantissa: 2, scale: 0 } }),
    );
    let d = create_order_request(&rh, &params).unwrap();
    assert_eq!(d.path, "/api/v1/crypto/trading/orders/");
    assert_eq!(d.method, HttpMethod::Post);
    assert_eq!(d.body, create_order_body(&params));
    verify_headers(&sk, &rh, &d.headers, &d.path, "POST", &d.body);
}

#[test]
fn cancel_path_embeds_the_order_id() {
    assert_eq!(
        cancel_order_path("abc123"),
        "/api/v1/crypto/trading/orders/abc123/cancel/"
    );
    let (rh, sk) = test_credential();
    let d = cancel_order_request(&rh, "abc123").unwrap();
    assert_eq!(d.path, "/api/v1/crypto/trading/orders/abc123/cancel/");
    assert_eq!(d.method, HttpMethod::Post);
    verify_headers(&sk, &rh, &d.headers, &d.path, "POST", "");
}

#[test]
fn cancel_response_is_unquoted() {
    assert_eq!(
        clean_cancel_response("\"Cancel request has been submitted for order abc123\""),
        "Cancel request has been submitted for order abc123"
    );
    assert_eq!(clean_cancel_response("no quotes"), "no quotes");
    assert_eq!(clean_cancel_response("\"\""), "");
}
