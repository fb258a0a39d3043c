//! Trading endpoints: trading pairs, holdings, and order cancellation.

use crate::auth::Robinhood;
use crate::decimal::{dec_le, dec_le_spec, dec_parse, lemma_dec_parse_wf, parse_dec, Dec};
use crate::query::{query_string, render_path_with_query};
use crate::request::{HttpMethod, RequestDescriptor};
use vstd::prelude::*;
use vstd::string::*;

verus! {

/// Response containing the tradable crypto pairs.
pub struct CryptoTradingPairsResponse {
    pub next: Option<String>,
    pub previous: Option<String>,
    pub results: Vec<TradingPairs>,
}

/// A tradable crypto pair with its increments and size limits, all as
/// decimal wire strings.
pub struct TradingPairs {
    pub asset_code: String,
    pub quote_code: String,
    pub quote_increment: String,
    pub asset_increment: String,
    pub max_order_size: String,
    pub status: String,
    pub symbol: String,
}

impl TradingPairs {
    /// The pair's size limits are well-formed decimal wire strings.
    pub open spec fn sizes_parse(&self) -> bool {
        &&& dec_parse(self.max_order_size@) is Some
        &&& dec_parse(self.asset_increment@) is Some
    }

    /// Whether a quantity lies within the pair's allowed order sizes: at
    /// least the asset increment and at most the maximum order size.
    pub fn check_valid_trade(&self, quantity: &Dec) -> (r: bool)
        requires
            quantity.wf(),
            self.sizes_parse(),
        ensures
            r == (dec_le_spec(*quantity, dec_parse(self.max_order_size@)->Some_0) && dec_le_spec(
                dec_parse(self.asset_increment@)->Some_0,
                *quantity,
            )),
    {
        proof {
            lemma_dec_parse_wf(self.max_order_size@);
            lemma_dec_parse_wf(self.asset_increment@);
        }
        let max_order_size = parse_dec(self.max_order_size.as_str()).unwrap();
        let min_order_size = parse_dec(self.asset_increment.as_str()).unwrap();
        let below_max = dec_le(quantity, &max_order_size);
        let above_min = dec_le(&min_order_size, quantity);
        below_max && above_min
    }
}

/// Response containing the account's crypto holdings.
pub struct CryptoHoldingsResponse {
    pub next: Option<String>,
    pub previous: Option<String>,
    pub results: Vec<CryptoHoldings>,
}

/// A single crypto holding of the account.
pub struct CryptoHoldings {
    pub account_number: String,
    pub asset_code: String,
    pub total_quantity: Dec,
    pub quantity_available_for_trading: Dec,
}

/// The fixed prefix of the trading pairs endpoint.
pub open spec fn trading_pairs_base_rep() -> Seq<char> {
    "/api/v1/crypto/trading/trading_pairs/"@
}

/// Prepare the signed trading-pairs request: a bodyless `GET` whose path
/// carries one `symbol=` pair per requested symbol, in the caller's order,
/// with no `?` when no symbol is given. `None` exactly when the credential
/// is not well formed.
pub fn trading_pairs_request(rh: &Robinhood, symbols: &Vec<String>) -> (r: Option<
    RequestDescriptor,
>)
    ensures
        r is Some <==> rh.wf(),
        r matches Some(d) ==> {
            &&& d.path@ == trading_pairs_base_rep() + query_string("symbol"@, symbols.deep_view())
            &&& d.extra_query@.len() == 0
            &&& d.method is Get
            &&& d.body@.len() == 0
            &&& d.signed_by(rh)
        },
{
    let path = render_path_with_query("/api/v1/crypto/trading/trading_pairs/", "symbol", symbols);
    rh.sign_request(path, String::new(), HttpMethod::Get, String::new())
}

/// The fixed prefix of the holdings endpoint.
pub open spec fn holdings_base_rep() -> Seq<char> {
    "/api/v1/crypto/trading/holdings/"@
}

/// Prepare the signed holdings request: a bodyless `GET` whose path
/// carries one `asset_code=` pair per requested asset code, in the
/// caller's order, with no `?` when no code is given. `None` exactly when
/// the credential is not well formed.
pub fn holdings_request(rh: &Robinhood, asset_codes: &Vec<String>) -> (r: Option<RequestDescriptor>)
    ensures
        r is Some <==> rh.wf(),
        r matches Some(d) ==> {
            &&& d.path@ == holdings_base_rep() + query_string(
                "asset_code"@,
                asset_codes.deep_view(),
            )
            &&& d.extra_query@.len() == 0
            &&& d.method is Get
            &&& d.body@.len() == 0
            &&& d.signed_by(rh)
        },
{
    let path = render_path_with_query("/api/v1/crypto/trading/holdings/", "asset_code", asset_codes);
    rh.sign_request(path, String::new(), HttpMethod::Get, String::new())
}

/// The path of the cancel endpoint for an order id.
pub open spec fn cancel_path_rep(id: Seq<char>) -> Seq<char> {
    "/api/v1/crypto/trading/orders/"@ + id + "/cancel/"@
}

/// Build the cancel path for an order id.
pub fn cancel_order_path(id: &str) -> (r: String)
    ensures
        r@ == cancel_path_rep(id@),
{
    let mut r = String::from_str("/api/v1/crypto/trading/orders/");
    r.append(id);
    r.append("/cancel/");
    r
}

/// Prepare the signed cancel request for an order id: a bodyless `POST`
/// on the order's cancel path. `None` exactly when the credential is not
/// well formed.
pub fn cancel_order_request(rh: &Robinhood, id: &str) -> (r: Option<RequestDescriptor>)
    ensures
        r is Some <==> rh.wf(),
        r matches Some(d) ==> {
            &&& d.path@ == cancel_path_rep(id@)
            &&& d.extra_query@.len() == 0
            &&& d.method is Post
            &&& d.body@.len() == 0
            &&& d.signed_by(rh)
        },
{
    let path = cancel_order_path(id);
    rh.sign_request(path, String::new(), HttpMethod::Post, String::new())
}

/// The string with every leading double quote removed.
pub open spec fn drop_leading_quotes(s: Seq<char>) -> Seq<char>
    decreases s.len(),
{
    if s.len() > 0 && s[0] == '"' {
        drop_leading_quotes(s.drop_first())
    } else {
        s
    }
}

/// The string with every trailing double quote removed.
pub open spec fn drop_trailing_quotes(s: Seq<char>) -> Seq<char>
    decreases s.len(),
{
    if s.len() > 0 && s.last() == '"' {
        drop_trailing_quotes(s.drop_last())
    } else {
        s
    }
}

/// The string with every leading and trailing double quote removed: what
/// a quoted confirmation body unwraps to.
pub open spec fn trim_quotes(s: Seq<char>) -> Seq<char> {
    drop_trailing_quotes(drop_leading_quotes(s))
}

/// Dropping leading quotes reaches the first position that is no quote.
proof fn lemma_drop_leading(s: Seq<char>, k: int)
    requires
        0 <= k <= s.len(),
        forall|j: int| 0 <= j < k ==> s[j] == '"',
        k == s.len() || s[k] != '"',
    ensures
        drop_leading_quotes(s) == s.skip(k),
    decreases k,
{
    if k == 0 {
        assert(s.skip(0) =~= s);
    } else {
        assert(s[0] == '"');
        lemma_drop_leading(s.drop_first(), k - 1);
        assert(s.drop_first().skip(k - 1) =~= s.skip(k));
    }
}

/// Dropping trailing quotes reaches the last position that is no quote.
proof fn lemma_drop_trailing(s: Seq<char>, e: int)
    requires
        0 <= e <= s.len(),
        forall|j: int| e <= j < s.len() ==> s[j] == '"',
        e == 0 || s[e - 1] != '"',
    ensures
        drop_trailing_quotes(s) == s.take(e),
    decreases s.len() - e,
{
    if e == s.len() {
        if s.len() > 0 && s.last() == '"' {
            assert(s[e - 1] == '"');
            assert(false);
        }
        assert(s.take(e) =~= s);
    } else {
        assert(s.last() == '"');
        lemma_drop_trailing(s.drop_last(), e);
        assert(s.drop_last().take(e) =~= s.take(e));
    }
}

/// Unwrap a cancel confirmation: the response body arrives as a quoted
/// JSON string, and the caller receives it with the surrounding quotes
/// removed.
pub fn clean_cancel_response(body: &str) -> (r: String)
    ensures
        r@ == trim_quotes(body@),
{
    let n = body.unicode_len();
    let mut start: usize = 0;
    while start < n && body.get_char(start) == '"'
        invariant
            n == body@.len(),
            start <= n,
            forall|j: int| 0 <= j < start ==> body@[j] == '"',
        decreases n - start,
    {
        start = start + 1;
    }
    proof {
        lemma_drop_leading(body@, start as int);
    }
    let mut end: usize = n;
    while end > start && body.get_char(end - 1) == '"'
        invariant
            n == body@.len(),
            start <= end <= n,
            forall|j: int| end <= j < n ==> body@[j] == '"',
        decreases end,
    {
        end = end - 1;
    }
    proof {
        let t = body@.skip(start as int);
        lemma_drop_trailing(t, end - start);
        assert(t.take(end - start) =~= body@.subrange(start as int, end as int));
    }
    let middle = body.substring_char(start, end);
    String::from_str(middle)
}

} // verus!
