//! What is made of the bytes that the service sent back.

use std::string::FromUtf8Error;
use vstd::prelude::*;
use vstd::string::StringExecFns;
use vstd::utf8::{decode_utf8, valid_utf8};
use crate::text::{decimal, number};
use crate::Error;

verus! {

/// The error that `String::from_utf8` of std gives for bytes that are no
/// text.
#[verifier::external_type_specification]
#[verifier::external_body]
pub struct ExFromUtf8Error(FromUtf8Error);

/// Calls `String::from_utf8` of std, which turns bytes into a string if and
/// only if they are valid UTF-8, and then into the characters that they
/// encode.
#[verifier::external_body]
fn text_of(bytes: Vec<u8>) -> (text: Result<String, FromUtf8Error>)
    ensures
        text is Ok <==> valid_utf8(bytes@),
        text matches Ok(decoded) ==> decoded@ == decode_utf8(bytes@),
{
    String::from_utf8(bytes)
}

/// Reads bytes as text. Bytes that are not valid UTF-8 are a failure of
/// parsing, with the decoder's words.
pub fn decode_text(bytes: Vec<u8>) -> (decoded: Result<String, Error>)
    ensures
        decoded is Ok <==> valid_utf8(bytes@),
        decoded matches Ok(text) ==> text@ == decode_utf8(bytes@),
        decoded matches Err(error) ==> error is ParsingFailed,
{
    match text_of(bytes) {
        Ok(text) => Ok(text),
        Err(error) => Err(Error::ParsingFailed(error.to_string())),
    }
}

/// What the answer of the service amounts to.
pub enum Reply {
    /// The request succeeded, and these are the bytes of its answer.
    Body(Vec<u8>),
    /// The service refused the request, and this text says why; it is still
    /// encoded.
    Refused(String),
    /// The service refused the request, and what it sent cannot be read.
    Unreadable(Error),
}

/// Judges the answer of the service by its status. A success hands the body
/// on as it came. Otherwise the body is the service's account of the
/// failure, and must at least be text.
pub fn read_reply(body: Vec<u8>, is_success: bool) -> (reply: Reply)
    ensures
        is_success ==> reply == Reply::Body(body),
        !is_success && valid_utf8(body@) ==> (reply matches Reply::Refused(text) && text@
            == decode_utf8(body@)),
        !is_success && !valid_utf8(body@) ==> (reply matches Reply::Unreadable(error)
            && error is ParsingFailed),
{
    if is_success {
        Reply::Body(body)
    } else {
        match decode_text(body) {
            Ok(text) => Reply::Refused(text),
            Err(error) => Reply::Unreadable(error),
        }
    }
}

/// What the service says where exactly one element is expected and another
/// number came.
pub open spec fn not_single(count: nat) -> Seq<char> {
    "Expected a single element, got "@ + decimal(count) + "."@
}

/// Takes the one element of a list. A list of any other length is a failure
/// of parsing.
pub fn single<T>(entries: Vec<T>) -> (only: Result<T, Error>)
    ensures
        entries@.len() == 1 ==> only == Ok::<T, Error>(entries@[0]),
        entries@.len() != 1 ==> (only matches Err(Error::ParsingFailed(message)) && message@
            == not_single(entries@.len())),
{
    let mut entries = entries;
    let count = entries.len();
    if count == 1 {
        match entries.pop() {
            Some(entry) => Ok(entry),
            None => Err(Error::ParsingFailed(String::new())),
        }
    } else {
        let mut message = String::from_str("Expected a single element, got ");
        message.append(number(count).as_str());
        message.append(".");
        Err(Error::ParsingFailed(message))
    }
}

} // verus!
