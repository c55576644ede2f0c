//! What the dispatcher and the transport need to know of a request.

use vstd::prelude::*;
use vstd::string::StringExecFns;
use crate::text::optional_text;

verus! {

/// The address that every request begins with.
pub const QUANDL_API_URL: &'static str = "https://www.quandl.com/api/v3";

/// The text, or nothing.
pub open spec fn or_empty(text: Option<Seq<char>>) -> Seq<char> {
    match text {
        Some(text) => text,
        None => Seq::empty(),
    }
}

/// The address of a request: the address of the service, then the path of
/// the request if it has one, then `?` and its arguments if it has any.
pub open spec fn url_text(prefix: Option<Seq<char>>, arguments: Option<Seq<char>>) -> Seq<char> {
    QUANDL_API_URL@ + or_empty(prefix) + match arguments {
        Some(arguments) => "?"@ + arguments,
        None => Seq::empty(),
    }
}

/// A request that can be submitted to the service.
pub trait ApiCall {
    /// The credential that the request is made with, if any.
    spec fn key(&self) -> Option<Seq<char>>;

    /// The path of the request, if it has one.
    spec fn prefix(&self) -> Option<Seq<char>>;

    /// The arguments of the request, if it has any.
    spec fn arguments(&self) -> Option<Seq<char>>;

    /// The credential that the request is made with, if any.
    fn credential(&self) -> (key: Option<String>)
        ensures
            optional_text(key) == self.key(),
    ;

    /// What stands between the address of the service and the `?` in the
    /// address of the request.
    fn fmt_prefix(&self) -> (text: Option<String>)
        ensures
            optional_text(text) == self.prefix(),
    ;

    /// What stands behind the `?` in the address of the request.
    fn fmt_arguments(&self) -> (text: Option<String>)
        ensures
            optional_text(text) == self.arguments(),
    ;

    /// The address to which the request is sent.
    fn url(&self) -> (address: String)
        ensures
            address@ == url_text(self.prefix(), self.arguments()),
    {
        let mut address = String::from_str(QUANDL_API_URL);
        match self.fmt_prefix() {
            Some(prefix) => {
                address.append(prefix.as_str());
            },
            None => {
                assert(address@ + Seq::<char>::empty() =~= address@);
            },
        }
        match self.fmt_arguments() {
            Some(arguments) => {
                address.append("?");
                address.append(arguments.as_str());
                assert(address@ =~= url_text(self.prefix(), self.arguments()));
            },
            None => {
                assert(address@ + Seq::<char>::empty() =~= address@);
            },
        }
        address
    }
}

} // verus!
