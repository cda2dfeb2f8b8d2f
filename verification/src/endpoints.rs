//! The block-explorer API's endpoint addresses, assembled exactly: the
//! status endpoint is the API base itself, and the address and transaction
//! endpoints append their path and identifier to it. Also here is the one
//! decision of the interactive node-info dialogue: whether the operator's
//! answer asks for the transaction listing.

use vstd::prelude::*;
use vstd::string::StringExecFns;

verus! {

pub open spec fn host_base_text() -> Seq<char> {
    "https://btcbook.nownodes.io/api/"@
}

pub open spec fn address_url_text(account: Seq<char>) -> Seq<char> {
    host_base_text() + "v2/address/"@ + account
}

pub open spec fn tx_url_text(tx_id: Seq<char>) -> Seq<char> {
    host_base_text() + "v2/tx/"@ + tx_id
}

/// The node-status endpoint: the API base itself.
pub fn status_url() -> (s: String)
    ensures
        s@ == host_base_text(),
{
    String::from_str("https://btcbook.nownodes.io/api/")
}

/// The endpoint for one address.
pub fn address_url(account: &str) -> (s: String)
    ensures
        s@ == address_url_text(account@),
{
    let mut s = String::from_str("https://btcbook.nownodes.io/api/");
    s.append("v2/address/");
    s.append(account);
    proof {
        assert(s@ =~= address_url_text(account@));
    }
    s
}

/// The endpoint for one transaction.
pub fn tx_url(tx_id: &str) -> (s: String)
    ensures
        s@ == tx_url_text(tx_id@),
{
    let mut s = String::from_str("https://btcbook.nownodes.io/api/");
    s.append("v2/tx/");
    s.append(tx_id);
    proof {
        assert(s@ =~= tx_url_text(tx_id@));
    }
    s
}

/// What `str::trim` leaves of a string once surrounding whitespace goes.
pub uninterp spec fn trim_of(s: Seq<char>) -> Seq<char>;

/// Relies on str::trim: it strips leading and trailing whitespace, and its
/// result depends on the characters alone.
#[verifier::external_body]
fn trim(s: &str) -> (r: &str)
    ensures
        r@ == trim_of(s@),
{
    s.trim()
}

/// The node-info dialogue's decision after the transaction count is shown:
/// any answer other than exactly "n", surrounding whitespace ignored, asks
/// for the transaction listing.
pub fn wants_tx_query(cmd: &str) -> (b: bool)
    ensures
        b == (trim_of(cmd@) != "n"@),
{
    let answer = String::from_str(trim(cmd));
    let no = String::from_str("n");
    !answer.eq(&no)
}

} // verus!
