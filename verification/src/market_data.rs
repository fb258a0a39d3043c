//! Market-data endpoints: best bid/ask and estimated execution price.

use crate::auth::Robinhood;
use crate::decimal::{dec_string_rep, dec_to_string, Dec, MAX_SCALE};
use crate::query::{query_string, render_path_with_query};
use crate::request::{HttpMethod, RequestDescriptor};
use vstd::prelude::*;
use vstd::string::*;

verus! {

/// Best bid/ask snapshot for a symbol.
pub struct BestPriceResult {
    pub symbol: String,
    pub price: Dec,
    pub bid_inclusive_of_sell_spread: Dec,
    pub sell_spread: Dec,
    pub ask_inclusive_of_buy_spread: Dec,
    pub buy_spread: Dec,
    pub timestamp: String,
}

/// Response wrapper containing best price results.
pub struct BestPriceResponse {
    pub results: Vec<BestPriceResult>,
}

/// Estimated execution price for a hypothetical trade.
pub struct EstimatedPriceResult {
    pub symbol: String,
    pub side: String,
    pub price: Dec,
    pub quantity: Dec,
    pub bid_inclusive_of_sell_spread: Option<Dec>,
    pub sell_spread: Option<Dec>,
    pub ask_inclusive_of_buy_spread: Option<Dec>,
    pub buy_spread: Option<Dec>,
    pub timestamp: String,
}

/// Response wrapper containing estimated price results.
pub struct EstimatedPriceResponse {
    pub results: Vec<EstimatedPriceResult>,
}

/// The fixed prefix of the best bid/ask endpoint.
pub open spec fn best_price_base_rep() -> Seq<char> {
    "/api/v1/crypto/marketdata/best_bid_ask/"@
}

/// Prepare the signed best bid/ask request: a bodyless `GET` whose path
/// carries one `symbol=` pair per requested symbol, in the caller's order,
/// with no `?` when no symbol is given. `None` exactly when the credential
/// is not well formed.
pub fn best_price_request(rh: &Robinhood, symbols: &Vec<String>) -> (r: Option<RequestDescriptor>)
    ensures
        r is Some <==> rh.wf(),
        r matches Some(d) ==> {
            &&& d.path@ == best_price_base_rep() + query_string("symbol"@, symbols.deep_view())
            &&& d.extra_query@.len() == 0
            &&& d.method is Get
            &&& d.body@.len() == 0
            &&& d.signed_by(rh)
        },
{
    let path = render_path_with_query(
        "/api/v1/crypto/marketdata/best_bid_ask/",
        "symbol",
        symbols,
    );
    rh.sign_request(path, String::new(), HttpMethod::Get, String::new())
}

/// The fixed prefix of the estimated price endpoint, up to the `symbol=`
/// parameter.
pub open spec fn estimated_price_base_rep() -> Seq<char> {
    "/api/v1/crypto/marketdata/estimated_price/?symbol="@
}

/// The full signed path of an estimated price request.
pub open spec fn estimated_price_path_rep(symbol: Seq<char>, side: Seq<char>, quantity: Dec) -> Seq<
    char,
> {
    estimated_price_base_rep() + symbol + "&side="@ + side + "&quantity="@ + dec_string_rep(
        quantity,
    )
}

/// Prepare the signed estimated price request for a symbol, a side (`bid`
/// or `ask`) and a quantity: a bodyless `GET` whose path carries all three
/// as query parameters. `None` exactly when the credential is not well
/// formed.
pub fn estimated_price_request(rh: &Robinhood, symbol: &str, side: &str, quantity: &Dec) -> (r:
    Option<RequestDescriptor>)
    requires
        quantity.scale <= MAX_SCALE,
    ensures
        r is Some <==> rh.wf(),
        r matches Some(d) ==> {
            &&& d.path@ == estimated_price_path_rep(symbol@, side@, *quantity)
            &&& d.extra_query@.len() == 0
            &&& d.method is Get
            &&& d.body@.len() == 0
            &&& d.signed_by(rh)
        },
{
    let mut path = String::from_str("/api/v1/crypto/marketdata/estimated_price/?symbol=");
    path.append(symbol);
    path.append("&side=");
    path.append(side);
    path.append("&quantity=");
    let q = dec_to_string(quantity);
    path.append(q.as_str());
    rh.sign_request(path, String::new(), HttpMethod::Get, String::new())
}

} // verus!
