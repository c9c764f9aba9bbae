use vstd::prelude::*;
use crate::board::{generate_display_text, rendered_text, Stop, TrainInfo};
use crate::clock::TimeParseError;
use crate::text::{decimal, push_decimal};

verus! {

/// The provider's arrivals endpoint.
pub const BASE_REQUEST_STRING: &'static str = "http://lapi.transitchicago.com/api/1.0/ttarrivals.aspx";

/// Why one poll cycle produced no block.
#[derive(Debug)]
pub enum CycleError {
    /// The request could not be made (name lookup, connection, timeout).
    Request(String),
    /// The provider answered with a status outside 2xx.
    HttpStatus(u16),
    /// The body could not be read or decoded into arrival records.
    Decode(String),
    /// An arrival time in the decoded records could not be read.
    Render(TimeParseError),
}

/// The request target for a stop: `<base>?stpid=<id>&key=<key>`.
pub open spec fn request_text(base: Seq<char>, api_key: Seq<char>, stop_id: nat) -> Seq<char> {
    base + "?stpid="@ + decimal(stop_id) + "&key="@ + api_key
}

/// Builds the request target for a stop against the given endpoint.
pub fn request_url(base: &str, api_key: &str, stop_id: usize) -> (r: String)
    ensures
        r@ == request_text(base@, api_key@, stop_id as nat),
{
    proof {
        reveal_strlit("?stpid=");
        reveal_strlit("&key=");
    }
    let mut r = String::from_str(base);
    r.append("?stpid=");
    push_decimal(&mut r, stop_id as u64);
    r.append("&key=");
    r.append(api_key);
    assert(r@ =~= request_text(base@, api_key@, stop_id as nat));
    r
}

/// Builds the request target for a stop against the provider's endpoint.
pub fn build_request_string(api_key: &str, stop_id: usize) -> (r: String)
    ensures
        r@ == request_text(BASE_REQUEST_STRING@, api_key@, stop_id as nat),
{
    request_url(BASE_REQUEST_STRING, api_key, stop_id)
}

/// Whether an HTTP status counts as success.
pub open spec fn is_success_status(status: u16) -> bool {
    200 <= status < 300
}

/// Decides on the provider's HTTP status: only a 2xx status lets the cycle
/// go on to read the body.
pub fn check_status(status: u16) -> (r: Result<(), CycleError>)
    ensures
        (r is Ok) == is_success_status(status),
        r is Err ==> r->Err_0 == CycleError::HttpStatus(status),
{
    if 200 <= status && status < 300 {
        Ok(())
    } else {
        Err(CycleError::HttpStatus(status))
    }
}

/// Finishes a cycle from the decoded body: a decode failure fails the cycle,
/// decoded records are rendered into the block to emit.
pub fn finish_cycle(stop: &Stop, decoded: Result<TrainInfo, String>) -> (r: Result<
    String,
    CycleError,
>)
    ensures
        decoded is Err ==> r is Err && r->Err_0 == CycleError::Decode(decoded->Err_0),
        decoded is Ok ==> match rendered_text(decoded->Ok_0.eta@, stop.name@) {
            Some(t) => r is Ok && r->Ok_0@ == t,
            None => r is Err && r->Err_0 is Render,
        },
{
    match decoded {
        Ok(info) => match generate_display_text(&info, stop) {
            Ok(text) => Ok(text),
            Err(e) => Err(CycleError::Render(e)),
        },
        Err(msg) => Err(CycleError::Decode(msg)),
    }
}

} // verus!
