//! Labels of the request counter.

use vstd::prelude::*;

verus! {

/// The method of an HTTP request.
#[derive(Clone, Copy, Debug, PartialEq, Eq, Structural)]
pub enum HttpMethod {
    Get,
    Post,
    Put,
    Delete,
    Options,
    Head,
    Trace,
    Connect,
    Patch,
}

/// The label of a request method: its name with only the first letter upper
/// case.
pub open spec fn method_label(method: HttpMethod) -> Seq<char> {
    match method {
        HttpMethod::Get => "Get"@,
        HttpMethod::Post => "Post"@,
        HttpMethod::Put => "Put"@,
        HttpMethod::Delete => "Delete"@,
        HttpMethod::Options => "Options"@,
        HttpMethod::Head => "Head"@,
        HttpMethod::Trace => "Trace"@,
        HttpMethod::Connect => "Connect"@,
        HttpMethod::Patch => "Patch"@,
    }
}

/// The label under which requests of this method are counted.
pub fn method_to_str(method: HttpMethod) -> (r: String)
    ensures
        r@ == method_label(method),
{
    match method {
        HttpMethod::Get => "Get".to_owned(),
        HttpMethod::Post => "Post".to_owned(),
        HttpMethod::Put => "Put".to_owned(),
        HttpMethod::Delete => "Delete".to_owned(),
        HttpMethod::Options => "Options".to_owned(),
        HttpMethod::Head => "Head".to_owned(),
        HttpMethod::Trace => "Trace".to_owned(),
        HttpMethod::Connect => "Connect".to_owned(),
        HttpMethod::Patch => "Patch".to_owned(),
    }
}

} // verus!
