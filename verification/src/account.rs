//! The account endpoint.
//!
//! A single authenticated `GET` against the accounts path returns the
//! account number, status and buying power of the caller's account.

use crate::auth::Robinhood;
use crate::request::{HttpMethod, RequestDescriptor};
use vstd::prelude::*;
use vstd::string::*;

verus! {

/// Basic account information, as the account endpoint returns it.
pub struct AccountInfo {
    pub account_number: String,
    pub status: String,
    pub buying_power: String,
    pub buying_power_currency: String,
}

/// The fixed path of the account endpoint.
pub open spec fn account_path_rep() -> Seq<char> {
    "/api/v1/crypto/trading/accounts/"@
}

/// The path of the account endpoint.
pub fn account_path() -> (r: &'static str)
    ensures
        r@ == account_path_rep(),
{
    "/api/v1/crypto/trading/accounts/"
}

/// Prepare the signed account-information request: a bodyless `GET` on the
/// accounts path. `None` exactly when the credential is not well formed.
pub fn account_info_request(rh: &Robinhood) -> (r: Option<RequestDescriptor>)
    ensures
        r is Some <==> rh.wf(),
        r matches Some(d) ==> {
            &&& d.path@ == account_path_rep()
            &&& d.extra_query@.len() == 0
            &&& d.method is Get
            &&& d.body@.len() == 0
            &&& d.signed_by(rh)
        },
{
    rh.sign_request(
        String::from_str(account_path()),
        String::new(),
        HttpMethod::Get,
        String::new(),
    )
}

} // verus!
