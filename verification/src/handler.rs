//! Helpers for the request-logging middleware: the marker the trace layer
//! is built with, and the choice of which proxy header names the client IP.

use vstd::prelude::*;

verus! {

/// Struct used to describe to the trace middleware what to print.
///
/// Assumes to be behind a reverse proxy, so attempts to print the IP from
/// common headers set by reverse proxies.
#[derive(Debug, Clone, PartialEq, Eq, Structural)]
pub struct RequestHandler;

impl RequestHandler {
    /// The marker value the middleware is built with.
    pub fn new() -> (r: Self)
        ensures
            r == (RequestHandler {  }),
    {
        RequestHandler {  }
    }
}

/// The first present value among candidates, scanned in order.
pub open spec fn first_some(s: Seq<Option<String>>) -> Option<String>
    decreases s.len(),
{
    if s.len() == 0 {
        None
    } else if s[0] is Some {
        s[0]
    } else {
        first_some(s.drop_first())
    }
}

/// Picks the client IP among the proxy headers' values, ordered as the
/// middleware asks for them: the first header that is present wins.
pub fn first_proxy_value(values: &Vec<Option<String>>) -> (r: Option<String>)
    ensures
        r == first_some(values@),
{
    let mut i: usize = 0;
    proof {
        assert(values@.skip(0) =~= values@);
    }
    while i < values.len()
        invariant
            i <= values@.len(),
            first_some(values@) == first_some(values@.skip(i as int)),
        decreases values@.len() - i,
    {
        proof {
            assert(values@.skip(i as int)[0] == values@[i as int]);
            assert(values@.skip(i as int).drop_first() =~= values@.skip(i + 1));
        }
        match &values[i] {
            Some(s) => {
                proof {
                    assert(first_some(values@.skip(i as int)) == values@[i as int]);
                }
                return Some(s.clone());
            },
            None => {},
        }
        i += 1;
    }
    proof {
        assert(values@.skip(values@.len() as int) =~= Seq::<Option<String>>::empty());
        assert(first_some(Seq::<Option<String>>::empty()) is None);
    }
    None
}

} // verus!
