//! The request for one year's holidays, and how its answer is read.
use vstd::prelude::*;
use vstd::string::StringExecFns;

use crate::error::Error;
use crate::text::{decimal, push_decimal};

verus! {

pub open spec fn spec_uri_for(year: int, country_code: Seq<char>) -> Seq<char> {
    "https://date.nager.at/api/v3/publicholidays/"@ + decimal(year) + "/"@ + country_code
}

/// The endpoint that lists the holidays of `year` in `country_code`.
pub fn uri_for(year: i32, country_code: &str) -> (r: String)
    ensures
        r@ == spec_uri_for(year as int, country_code@),
{
    let mut uri = String::from_str("https://date.nager.at/api/v3/publicholidays/");
    push_decimal(&mut uri, year);
    uri.append("/");
    uri.append(country_code);
    uri
}

/// A status that reports success.
pub open spec fn is_success_status(status: u16) -> bool {
    200 <= status <= 299
}

/// What an answer with `status` and a body of `body_len` bytes means:
/// `Ok` when the body holds the holidays to decode.
pub open spec fn spec_classify(status: u16, body_len: nat) -> Result<(), Error> {
    if status == 404 {
        Err(Error::UnknownCountry)
    } else if !is_success_status(status) {
        Err(Error::Status(status))
    } else if body_len == 0 {
        Err(Error::UnknownCountry)
    } else {
        Ok(())
    }
}

/// A 404 answer, whatever its body, and a successful answer with an empty
/// body both mean an unknown country, never a body to decode.
pub proof fn lemma_unknown_country_signals(body_len: nat, status: u16)
    requires
        200 <= status <= 299,
    ensures
        spec_classify(404, body_len) == Err::<(), Error>(Error::UnknownCountry),
        spec_classify(status, 0) == Err::<(), Error>(Error::UnknownCountry),
{
}

/// Reads an answer of the API. A 404, and a successful answer with an empty
/// body, both mean that the country is unknown; any other status that is not
/// a success is reported as it is.
pub fn classify_response(status: u16, body: &[u8]) -> (r: Result<(), Error>)
    ensures
        r == spec_classify(status, body@.len()),
{
    if status == 404 {
        Err(Error::UnknownCountry)
    } else if status < 200 || status > 299 {
        Err(Error::Status(status))
    } else if body.len() == 0 {
        Err(Error::UnknownCountry)
    } else {
        Ok(())
    }
}

} // verus!
