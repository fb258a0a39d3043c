//! Order endpoints: listing, creation and the order data model.
//!
//! A create-order request body is built character by character, so the
//! exact JSON that is signed is also the exact JSON that is sent. Exactly
//! one order-configuration block — market, limit, stop-loss or stop-limit
//! — is present in a well-formed set of parameters.

use crate::auth::Robinhood;
use crate::decimal::{dec_string_rep, dec_to_string, Dec, MAX_SCALE};
use crate::digits::{dec_rep, u64_to_dec_string};
use crate::json::{append_json_str, json_str};
use crate::request::{HttpMethod, RequestDescriptor};
use vstd::prelude::*;
use vstd::string::*;

verus! {

/// An execution fill of an order, as the API reports it.
pub struct Executions {
    pub effective_price: String,
    pub quantity: String,
    pub timestamp: String,
}

/// A crypto order as the trading API returns it.
pub struct CryptoOrder {
    pub id: String,
    pub account_number: String,
    pub symbol: String,
    pub client_order_id: String,
    pub side: String,
    pub executions: Vec<Executions>,
    pub order_type: String,
    pub state: String,
    pub average_price: Option<Dec>,
    pub filled_asset_quantity: Dec,
    pub created_at: String,
    pub updated_at: String,
    pub market_order_config: Option<MarketOrderConfig>,
    pub limit_order_config: Option<LimitOrderConfig>,
    pub stop_loss_order_config: Option<StopLossOrderConfig>,
    pub stop_limit_order_config: Option<StopLimitOrderConfig>,
}

/// Paginated response for listing crypto orders.
pub struct CryptoOrdersResponse {
    pub next: Option<String>,
    pub previous: Option<String>,
    pub results: Vec<CryptoOrder>,
}

/// Response returned after creating a crypto order.
pub struct CreateCryptoOrderResponse {
    pub id: String,
    pub account_number: String,
    pub symbol: String,
    pub client_order_id: String,
    pub side: String,
    pub executions: Vec<Executions>,
    pub order_type: String,
    pub state: String,
    pub average_price: Option<Dec>,
    pub filled_asset_quantity: Option<Dec>,
    pub created_at: String,
    pub updated_at: String,
    pub market_order_config: Option<MarketOrderConfig>,
    pub limit_order_config: Option<LimitOrderConfig>,
    pub stop_loss_order_config: Option<StopLossOrderConfig>,
    pub stop_limit_order_config: Option<StopLimitOrderConfig>,
}

/// Parameters of a market order.
#[derive(Clone, Copy)]
pub struct MarketOrderConfig {
    pub asset_quantity: Dec,
}

/// Parameters of a limit order. The prices travel as decimal wire
/// strings; an absent optional amount is omitted from the body, while an
/// absent limit price or time in force is transmitted as `null`.
#[derive(Clone)]
pub struct LimitOrderConfig {
    pub quote_amount: Option<Dec>,
    pub asset_quantity: Option<Dec>,
    pub limit_price: Option<Dec>,
    pub time_in_force: Option<String>,
}

/// Parameters of a stop-loss order.
#[derive(Clone)]
pub struct StopLossOrderConfig {
    pub quote_amount: Option<Dec>,
    pub asset_quantity: Option<Dec>,
    pub stop_price: Option<Dec>,
    pub time_in_force: Option<String>,
}

/// Parameters of a stop-limit order.
#[derive(Clone)]
pub struct StopLimitOrderConfig {
    pub quote_amount: Option<Dec>,
    pub asset_quantity: Option<Dec>,
    pub limit_price: Option<Dec>,
    pub stop_price: Option<Dec>,
    pub time_in_force: Option<String>,
}

/// A decimal as a quoted JSON wire string.
pub open spec fn json_dec(d: Dec) -> Seq<char> {
    seq!['"'] + dec_string_rep(d) + seq!['"']
}

/// An optional decimal: the quoted wire string, or `null`.
pub open spec fn json_opt_dec(o: Option<Dec>) -> Seq<char> {
    match o {
        Option::None => "null"@,
        Option::Some(d) => json_dec(d),
    }
}

/// An optional string value: the JSON string literal, or `null`.
pub open spec fn json_opt_string(o: Option<String>) -> Seq<char> {
    match o {
        Option::None => "null"@,
        Option::Some(s) => json_str(s@),
    }
}

/// A field that is omitted when absent: `name:value,` when present,
/// nothing when absent.
pub open spec fn skippable_dec_field(name_colon: Seq<char>, o: Option<Dec>) -> Seq<char> {
    match o {
        Option::None => Seq::<char>::empty(),
        Option::Some(d) => name_colon + json_dec(d) + seq![','],
    }
}

/// The JSON object of a market order configuration.
pub open spec fn market_config_json(c: MarketOrderConfig) -> Seq<char> {
    "{\"asset_quantity\":"@ + json_dec(c.asset_quantity) + "}"@
}

/// The JSON object of a limit order configuration.
pub open spec fn limit_config_json(c: LimitOrderConfig) -> Seq<char> {
    "{"@ + skippable_dec_field("\"quote_amount\":"@, c.quote_amount) + skippable_dec_field(
        "\"asset_quantity\":"@,
        c.asset_quantity,
    ) + "\"limit_price\":"@ + json_opt_dec(c.limit_price) + ",\"time_in_force\":"@
        + json_opt_string(c.time_in_force) + "}"@
}

/// The JSON object of a stop-loss order configuration.
pub open spec fn stop_loss_config_json(c: StopLossOrderConfig) -> Seq<char> {
    "{"@ + skippable_dec_field("\"quote_amount\":"@, c.quote_amount) + skippable_dec_field(
        "\"asset_quantity\":"@,
        c.asset_quantity,
    ) + "\"stop_price\":"@ + json_opt_dec(c.stop_price) + ",\"time_in_force\":"@ + json_opt_string(
        c.time_in_force,
    ) + "}"@
}

/// The JSON object of a stop-limit order configuration.
pub open spec fn stop_limit_config_json(c: StopLimitOrderConfig) -> Seq<char> {
    "{"@ + skippable_dec_field("\"quote_amount\":"@, c.quote_amount) + skippable_dec_field(
        "\"asset_quantity\":"@,
        c.asset_quantity,
    ) + "\"limit_price\":"@ + json_opt_dec(c.limit_price) + ",\"stop_price\":"@ + json_opt_dec(
        c.stop_price,
    ) + ",\"time_in_force\":"@ + json_opt_string(c.time_in_force) + "}"@
}

impl MarketOrderConfig {
    /// Every decimal the configuration holds is well formed.
    pub open spec fn wf(&self) -> bool {
        self.asset_quantity.wf()
    }
}

impl LimitOrderConfig {
    /// Every decimal the configuration holds is well formed.
    pub open spec fn wf(&self) -> bool {
        &&& (self.quote_amount matches Some(d) ==> d.wf())
        &&& (self.asset_quantity matches Some(d) ==> d.wf())
        &&& (self.limit_price matches Some(d) ==> d.wf())
    }
}

impl StopLossOrderConfig {
    /// Every decimal the configuration holds is well formed.
    pub open spec fn wf(&self) -> bool {
        &&& (self.quote_amount matches Some(d) ==> d.wf())
        &&& (self.asset_quantity matches Some(d) ==> d.wf())
        &&& (self.stop_price matches Some(d) ==> d.wf())
    }
}

impl StopLimitOrderConfig {
    /// Every decimal the configuration holds is well formed.
    pub open spec fn wf(&self) -> bool {
        &&& (self.quote_amount matches Some(d) ==> d.wf())
        &&& (self.asset_quantity matches Some(d) ==> d.wf())
        &&& (self.limit_price matches Some(d) ==> d.wf())
        &&& (self.stop_price matches Some(d) ==> d.wf())
    }
}

/// Append a decimal as a quoted wire string.
fn append_dec_quoted(out: &mut String, d: &Dec)
    requires
        d.scale <= MAX_SCALE,
    ensures
        final(out)@ == old(out)@ + json_dec(*d),
{
    proof {
        reveal_strlit("\"");
    }
    out.append("\"");
    let s = dec_to_string(d);
    out.append(s.as_str());
    out.append("\"");
    proof {
        assert(out@ =~= old(out)@ + json_dec(*d));
    }
}

/// Append an optional decimal: the quoted wire string, or `null`.
fn append_opt_dec(out: &mut String, o: &Option<Dec>)
    requires
        o matches Some(d) ==> d.scale <= MAX_SCALE,
    ensures
        final(out)@ == old(out)@ + json_opt_dec(*o),
{
    match o {
        None => {
            out.append("null");
        },
        Some(d) => {
            append_dec_quoted(out, d);
        },
    }
}

/// Append an optional string value: the JSON string literal, or `null`.
fn append_opt_string(out: &mut String, o: &Option<String>)
    ensures
        final(out)@ == old(out)@ + json_opt_string(*o),
{
    match o {
        None => {
            out.append("null");
        },
        Some(s) => {
            append_json_str(out, s.as_str());
        },
    }
}

/// Append a skippable decimal field: `name:value,` when present, nothing
/// when absent.
fn append_skippable_dec(out: &mut String, name_colon: &str, o: &Option<Dec>)
    requires
        o matches Some(d) ==> d.scale <= MAX_SCALE,
    ensures
        final(out)@ == old(out)@ + skippable_dec_field(name_colon@, *o),
{
    proof {
        reveal_strlit(",");
    }
    match o {
        None => {
        },
        Some(d) => {
            out.append(name_colon);
            append_dec_quoted(out, d);
            out.append(",");
            proof {
                assert(out@ =~= old(out)@ + skippable_dec_field(name_colon@, *o));
            }
        },
    }
}

/// Append the JSON object of a market order configuration.
fn append_market_config(out: &mut String, c: &MarketOrderConfig)
    requires
        c.wf(),
    ensures
        final(out)@ == old(out)@ + market_config_json(*c),
{
    out.append("{\"asset_quantity\":");
    append_dec_quoted(out, &c.asset_quantity);
    out.append("}");
    proof {
        assert(out@ =~= old(out)@ + market_config_json(*c));
    }
}

/// Append the JSON object of a limit order configuration.
fn append_limit_config(out: &mut String, c: &LimitOrderConfig)
    requires
        c.wf(),
    ensures
        final(out)@ == old(out)@ + limit_config_json(*c),
{
    out.append("{");
    append_skippable_dec(out, "\"quote_amount\":", &c.quote_amount);
    append_skippable_dec(out, "\"asset_quantity\":", &c.asset_quantity);
    out.append("\"limit_price\":");
    append_opt_dec(out, &c.limit_price);
    out.append(",\"time_in_force\":");
    append_opt_string(out, &c.time_in_force);
    out.append("}");
    proof {
        assert(out@ =~= old(out)@ + limit_config_json(*c));
    }
}

/// Append the JSON object of a stop-loss order configuration.
fn append_stop_loss_config(out: &mut String, c: &StopLossOrderConfig)
    requires
        c.wf(),
    ensures
        final(out)@ == old(out)@ + stop_loss_config_json(*c),
{
    out.append("{");
    append_skippable_dec(out, "\"quote_amount\":", &c.quote_amount);
    append_skippable_dec(out, "\"asset_quantity\":", &c.asset_quantity);
    out.append("\"stop_price\":");
    append_opt_dec(out, &c.stop_price);
    out.append(",\"time_in_force\":");
    append_opt_string(out, &c.time_in_force);
    out.append("}");
    proof {
        assert(out@ =~= old(out)@ + stop_loss_config_json(*c));
    }
}

/// Append the JSON object of a stop-limit order configuration.
fn append_stop_limit_config(out: &mut String, c: &StopLimitOrderConfig)
    requires
        c.wf(),
    ensures
        final(out)@ == old(out)@ + stop_limit_config_json(*c),
{
    out.append("{");
    append_skippable_dec(out, "\"quote_amount\":", &c.quote_amount);
    append_skippable_dec(out, "\"asset_quantity\":", &c.asset_quantity);
    out.append("\"limit_price\":");
    append_opt_dec(out, &c.limit_price);
    out.append(",\"stop_price\":");
    append_opt_dec(out, &c.stop_price);
    out.append(",\"time_in_force\":");
    append_opt_string(out, &c.time_in_force);
    out.append("}");
    proof {
        assert(out@ =~= old(out)@ + stop_limit_config_json(*c));
    }
}

/// Exactly one order-configuration block, as a sum type.
pub enum OrderConfig {
    Market(MarketOrderConfig),
    Limit(LimitOrderConfig),
    StopLoss(StopLossOrderConfig),
    StopLimit(StopLimitOrderConfig),
}

impl OrderConfig {
    /// Every decimal the configuration holds is well formed.
    pub open spec fn wf(&self) -> bool {
        match self {
            OrderConfig::Market(c) => c.wf(),
            OrderConfig::Limit(c) => c.wf(),
            OrderConfig::StopLoss(c) => c.wf(),
            OrderConfig::StopLimit(c) => c.wf(),
        }
    }
}

/// Parameters for creating a crypto order. A well-formed value carries
/// exactly one configuration block; [`CreateCyptoOrderParams::new`]
/// establishes that invariant.
pub struct CreateCyptoOrderParams {
    pub symbol: String,
    pub client_order_id: String,
    pub side: String,
    pub order_type: String,
    pub market_order_config: Option<MarketOrderConfig>,
    pub limit_order_config: Option<LimitOrderConfig>,
    pub stop_loss_order_config: Option<StopLossOrderConfig>,
    pub stop_limit_order_config: Option<StopLimitOrderConfig>,
}

impl CreateCyptoOrderParams {
    /// How many configuration blocks are present.
    pub open spec fn config_count(&self) -> int {
        (if self.market_order_config is Some {
            1int
        } else {
            0int
        }) + (if self.limit_order_config is Some {
            1int
        } else {
            0int
        }) + (if self.stop_loss_order_config is Some {
            1int
        } else {
            0int
        }) + (if self.stop_limit_order_config is Some {
            1int
        } else {
            0int
        })
    }

    /// Every decimal the present configurations hold is well formed.
    pub open spec fn configs_wf(&self) -> bool {
        &&& (self.market_order_config matches Some(c) ==> c.wf())
        &&& (self.limit_order_config matches Some(c) ==> c.wf())
        &&& (self.stop_loss_order_config matches Some(c) ==> c.wf())
        &&& (self.stop_limit_order_config matches Some(c) ==> c.wf())
    }

    /// Exactly one well-formed configuration block is present.
    pub open spec fn wf(&self) -> bool {
        self.config_count() == 1 && self.configs_wf()
    }

    /// Construct order parameters with exactly the one configuration
    /// block that the sum type supplies.
    pub fn new(
        symbol: String,
        client_order_id: String,
        side: String,
        order_type: String,
        config: OrderConfig,
    ) -> (r: CreateCyptoOrderParams)
        ensures
            r.symbol@ == symbol@,
            r.client_order_id@ == client_order_id@,
            r.side@ == side@,
            r.order_type@ == order_type@,
            r.config_count() == 1,
            config.wf() ==> r.wf(),
            match config {
                OrderConfig::Market(c) => r.market_order_config == Some(c),
                OrderConfig::Limit(c) => r.limit_order_config == Some(c),
                OrderConfig::StopLoss(c) => r.stop_loss_order_config == Some(c),
                OrderConfig::StopLimit(c) => r.stop_limit_order_config == Some(c),
            },
    {
        let mut r = CreateCyptoOrderParams {
            symbol,
            client_order_id,
            side,
            order_type,
            market_order_config: None,
            limit_order_config: None,
            stop_loss_order_config: None,
            stop_limit_order_config: None,
        };
        match config {
            OrderConfig::Market(c) => {
                r.market_order_config = Some(c);
            },
            OrderConfig::Limit(c) => {
                r.limit_order_config = Some(c);
            },
            OrderConfig::StopLoss(c) => {
                r.stop_loss_order_config = Some(c);
            },
            OrderConfig::StopLimit(c) => {
                r.stop_limit_order_config = Some(c);
            },
        }
        r
    }
}

/// The JSON body of a create-order request: the four identifying string
/// fields, then each present configuration block, in the wire's field
/// order.
pub open spec fn create_order_json(p: CreateCyptoOrderParams) -> Seq<char> {
    "{\"symbol\":"@ + json_str(p.symbol@) + ",\"client_order_id\":"@ + json_str(p.client_order_id@)
        + ",\"side\":"@ + json_str(p.side@) + ",\"type\":"@ + json_str(p.order_type@) + (
    match p.market_order_config {
        Option::None => Seq::<char>::empty(),
        Option::Some(c) => ",\"market_order_config\":"@ + market_config_json(c),
    }) + (match p.limit_order_config {
        Option::None => Seq::<char>::empty(),
        Option::Some(c) => ",\"limit_order_config\":"@ + limit_config_json(c),
    }) + (match p.stop_loss_order_config {
        Option::None => Seq::<char>::empty(),
        Option::Some(c) => ",\"stop_loss_order_config\":"@ + stop_loss_config_json(c),
    }) + (match p.stop_limit_order_config {
        Option::None => Seq::<char>::empty(),
        Option::Some(c) => ",\"stop_limit_order_config\":"@ + stop_limit_config_json(c),
    }) + "}"@
}

/// Build the exact JSON body of a create-order request.
#[verifier::rlimit(60)]
pub fn create_order_body(p: &CreateCyptoOrderParams) -> (r: String)
    requires
        p.configs_wf(),
    ensures
        r@ == create_order_json(*p),
{
    let mut out = String::new();
    out.append("{\"symbol\":");
    append_json_str(&mut out, p.symbol.as_str());
    out.append(",\"client_order_id\":");
    append_json_str(&mut out, p.client_order_id.as_str());
    out.append(",\"side\":");
    append_json_str(&mut out, p.side.as_str());
    out.append(",\"type\":");
    append_json_str(&mut out, p.order_type.as_str());
    match &p.market_order_config {
        None => {
        },
        Some(c) => {
            out.append(",\"market_order_config\":");
            append_market_config(&mut out, c);
        },
    }
    match &p.limit_order_config {
        None => {
        },
        Some(c) => {
            out.append(",\"limit_order_config\":");
            append_limit_config(&mut out, c);
        },
    }
    match &p.stop_loss_order_config {
        None => {
        },
        Some(c) => {
            out.append(",\"stop_loss_order_config\":");
            append_stop_loss_config(&mut out, c);
        },
    }
    match &p.stop_limit_order_config {
        None => {
        },
        Some(c) => {
            out.append(",\"stop_limit_order_config\":");
            append_stop_limit_config(&mut out, c);
        },
    }
    out.append("}");
    proof {
        assert(out@ =~= create_order_json(*p));
    }
    out
}

/// The fixed path of the orders endpoint.
pub open spec fn orders_base_rep() -> Seq<char> {
    "/api/v1/crypto/trading/orders/"@
}

/// Prepare the signed create-order request: a `POST` on the orders path
/// whose signed body is the exact JSON of the parameters. `None` exactly
/// when the credential is not well formed.
pub fn create_order_request(rh: &Robinhood, params: &CreateCyptoOrderParams) -> (r: Option<
    RequestDescriptor,
>)
    requires
        params.wf(),
    ensures
        r is Some <==> rh.wf(),
        r matches Some(d) ==> {
            &&& d.path@ == orders_base_rep()
            &&& d.extra_query@.len() == 0
            &&& d.method is Post
            &&& d.body@ == create_order_json(*params)
            &&& d.signed_by(rh)
        },
{
    let body = create_order_body(params);
    rh.sign_request(
        String::from_str("/api/v1/crypto/trading/orders/"),
        String::new(),
        HttpMethod::Post,
        body,
    )
}

/// Query parameters for listing crypto orders; every filter is optional.
pub struct GetCryptoOrderParams {
    pub created_at_start: Option<String>,
    pub created_at_end: Option<String>,
    pub symbol: Option<String>,
    pub id: Option<String>,
    pub side: Option<String>,
    pub state: Option<String>,
    pub type_: Option<String>,
    pub updated_at_start: Option<String>,
    pub updated_at_end: Option<String>,
    pub cursor: Option<String>,
    pub limit: Option<u32>,
}

/// The pairs extended by one optional string filter: unchanged when the
/// filter is absent, one more `name=value` pair when it is set.
pub open spec fn push_opt(
    ps: Seq<(Seq<char>, Seq<char>)>,
    name: Seq<char>,
    o: Option<String>,
) -> Seq<(Seq<char>, Seq<char>)> {
    match o {
        Option::None => ps,
        Option::Some(v) => ps.push((name, v@)),
    }
}

/// The `name=value` pairs a filter set contributes, in the wire's field
/// order.
pub open spec fn order_params_pairs(p: GetCryptoOrderParams) -> Seq<(Seq<char>, Seq<char>)> {
    let ps = push_opt(Seq::<(Seq<char>, Seq<char>)>::empty(), "created_at_start"@, p.created_at_start);
    let ps = push_opt(ps, "created_at_end"@, p.created_at_end);
    let ps = push_opt(ps, "symbol"@, p.symbol);
    let ps = push_opt(ps, "id"@, p.id);
    let ps = push_opt(ps, "side"@, p.side);
    let ps = push_opt(ps, "state"@, p.state);
    let ps = push_opt(ps, "type"@, p.type_);
    let ps = push_opt(ps, "updated_at_start"@, p.updated_at_start);
    let ps = push_opt(ps, "updated_at_end"@, p.updated_at_end);
    let ps = push_opt(ps, "cursor"@, p.cursor);
    match p.limit {
        Option::None => ps,
        Option::Some(l) => ps.push(("limit"@, dec_rep(l as nat))),
    }
}

/// Named `name=value` pairs joined with `&`, in order.
pub open spec fn render_pairs(ps: Seq<(Seq<char>, Seq<char>)>) -> Seq<char>
    decreases ps.len(),
{
    if ps.len() == 0 {
        Seq::<char>::empty()
    } else if ps.len() == 1 {
        ps[0].0 + seq!['='] + ps[0].1
    } else {
        render_pairs(ps.drop_last()) + seq!['&'] + ps.last().0 + seq!['='] + ps.last().1
    }
}

/// The query suffix of a pair list: empty when there are no pairs,
/// otherwise `?` and the joined pairs.
pub open spec fn query_of_pairs(ps: Seq<(Seq<char>, Seq<char>)>) -> Seq<char> {
    if ps.len() == 0 {
        Seq::<char>::empty()
    } else {
        seq!['?'] + render_pairs(ps)
    }
}

/// The query suffix of a filter set: empty when no filter is set — the
/// `?` is omitted entirely — otherwise the set pairs in field order.
pub open spec fn params_query_rep(p: GetCryptoOrderParams) -> Seq<char> {
    query_of_pairs(order_params_pairs(p))
}

/// An empty filter set contributes nothing: the `?` is omitted entirely.
pub proof fn lemma_query_of_pairs_empty(ps: Seq<(Seq<char>, Seq<char>)>)
    requires
        ps.len() == 0,
    ensures
        query_of_pairs(ps) == Seq::<char>::empty(),
{
}

/// Appending one more pair extends the rendered query on the right, so
/// the wire's field order is preserved and the pairs join with `&`.
pub proof fn lemma_render_pairs_push(ps: Seq<(Seq<char>, Seq<char>)>, name: Seq<char>, v: Seq<char>)
    requires
        ps.len() > 0,
    ensures
        render_pairs(ps.push((name, v))) == render_pairs(ps) + seq!['&'] + name + seq!['='] + v,
{
    let pushed = ps.push((name, v));
    assert(pushed.drop_last() =~= ps);
    assert(pushed.last() == (name, v));
}

/// Append one `name=value` pair to a rendered query.
fn append_pair(
    q: &mut String,
    any: bool,
    name: &str,
    value: &str,
    Ghost(ps): Ghost<Seq<(Seq<char>, Seq<char>)>>,
)
    requires
        any <==> ps.len() > 0,
        old(q)@ == query_of_pairs(ps),
    ensures
        final(q)@ == query_of_pairs(ps.push((name@, value@))),
{
    proof {
        reveal_strlit("?");
        reveal_strlit("&");
        reveal_strlit("=");
    }
    if any {
        q.append("&");
    } else {
        q.append("?");
    }
    q.append(name);
    q.append("=");
    q.append(value);
    proof {
        let pushed = ps.push((name@, value@));
        assert(pushed.drop_last() =~= ps);
        assert(pushed.last() == (name@, value@));
        if ps.len() == 0 {
            assert(q@ =~= query_of_pairs(pushed));
        } else {
            assert(q@ =~= query_of_pairs(pushed));
        }
    }
}

/// Render the query suffix for a filter set, preserving the wire's field
/// order and omitting the `?` when no filter is set.
#[verifier::rlimit(100)]
pub fn orders_list_query(p: &GetCryptoOrderParams) -> (r: String)
    ensures
        r@ == params_query_rep(*p),
{
    let mut q = String::new();
    let mut any: bool = false;
    let ghost mut ps = Seq::<(Seq<char>, Seq<char>)>::empty();
    if let Some(v) = &p.created_at_start {
        append_pair(&mut q, any, "created_at_start", v.as_str(), Ghost(ps));
        any = true;
    }
    proof {
        ps = push_opt(ps, "created_at_start"@, p.created_at_start);
    }
    if let Some(v) = &p.created_at_end {
        append_pair(&mut q, any, "created_at_end", v.as_str(), Ghost(ps));
        any = true;
    }
    proof {
        ps = push_opt(ps, "created_at_end"@, p.created_at_end);
    }
    if let Some(v) = &p.symbol {
        append_pair(&mut q, any, "symbol", v.as_str(), Ghost(ps));
        any = true;
    }
    proof {
        ps = push_opt(ps, "symbol"@, p.symbol);
    }
    if let Some(v) = &p.id {
        append_pair(&mut q, any, "id", v.as_str(), Ghost(ps));
        any = true;
    }
    proof {
        ps = push_opt(ps, "id"@, p.id);
    }
    if let Some(v) = &p.side {
        append_pair(&mut q, any, "side", v.as_str(), Ghost(ps));
        any = true;
    }
    proof {
        ps = push_opt(ps, "side"@, p.side);
    }
    if let Some(v) = &p.state {
        append_pair(&mut q, any, "state", v.as_str(), Ghost(ps));
        any = true;
    }
    proof {
        ps = push_opt(ps, "state"@, p.state);
    }
    if let Some(v) = &p.type_ {
        append_pair(&mut q, any, "type", v.as_str(), Ghost(ps));
        any = true;
    }
    proof {
        ps = push_opt(ps, "type"@, p.type_);
    }
    if let Some(v) = &p.updated_at_start {
        append_pair(&mut q, any, "updated_at_start", v.as_str(), Ghost(ps));
        any = true;
    }
    proof {
        ps = push_opt(ps, "updated_at_start"@, p.updated_at_start);
    }
    if let Some(v) = &p.updated_at_end {
        append_pair(&mut q, any, "updated_at_end", v.as_str(), Ghost(ps));
        any = true;
    }
    proof {
        ps = push_opt(ps, "updated_at_end"@, p.updated_at_end);
    }
    if let Some(v) = &p.cursor {
        append_pair(&mut q, any, "cursor", v.as_str(), Ghost(ps));
        any = true;
    }
    proof {
        ps = push_opt(ps, "cursor"@, p.cursor);
    }
    if let Some(l) = &p.limit {
        let value = u64_to_dec_string(*l as u64);
        append_pair(&mut q, any, "limit", value.as_str(), Ghost(ps));
        proof {
            ps = ps.push(("limit"@, dec_rep(*l as nat)));
        }
    }
    proof {
        assert(ps == order_params_pairs(*p));
    }
    q
}

/// Prepare the signed list-orders request: a bodyless `GET` that signs
/// the bare orders path and carries the filters as an unsigned query
/// suffix. `None` exactly when the credential is not well formed.
pub fn orders_list_request(rh: &Robinhood, params: &GetCryptoOrderParams) -> (r: Option<
    RequestDescriptor,
>)
    ensures
        r is Some <==> rh.wf(),
        r matches Some(d) ==> {
            &&& d.path@ == orders_base_rep()
            &&& d.extra_query@ == params_query_rep(*params)
            &&& d.method is Get
            &&& d.body@.len() == 0
            &&& d.signed_by(rh)
        },
{
    let extra_query = orders_list_query(params);
    rh.sign_request(
        String::from_str("/api/v1/crypto/trading/orders/"),
        extra_query,
        HttpMethod::Get,
        String::new(),
    )
}

impl GetCryptoOrderParams {
    /// A filter set with nothing set.
    pub fn empty() -> (r: GetCryptoOrderParams)
        ensures
            r.created_at_start is None,
            r.created_at_end is None,
            r.symbol is None,
            r.id is None,
            r.side is None,
            r.state is None,
            r.type_ is None,
            r.updated_at_start is None,
            r.updated_at_end is None,
            r.cursor is None,
            r.limit is None,
    {
        GetCryptoOrderParams {
            created_at_start: None,
            created_at_end: None,
            symbol: None,
            id: None,
            side: None,
            state: None,
            type_: None,
            updated_at_start: None,
            updated_at_end: None,
            cursor: None,
            limit: None,
        }
    }
}

} // verus!
