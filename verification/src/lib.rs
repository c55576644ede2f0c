//! Bindings for the Quandl v3 service, with a rate-limited batch dispatcher.
//!
//! The queries are plain values that know the address of their request. A
//! batch of them is dealt round-robin onto a bounded number of workers. Each
//! worker runs its shard in order, pausing as the rate-limit tiers demand of
//! the credential that a request uses, and hands its results to a channel of
//! its own. A merge iterator reads the channels in rotation and yields one
//! sequence of results.

pub mod api_call;
pub mod batch_query;
pub mod code_list;
pub mod download;
pub mod limiter;
pub mod merge;
pub mod parameters;
pub mod partition;
pub mod prelude;
pub mod query;
pub mod registry;
pub mod text;
pub mod types;
pub mod worker;

use vstd::prelude::*;
use vstd::string::{StrSliceExecFns, StringExecFns};
use crate::text::texts;

verus! {

/// What every fallible function of this crate returns.
pub type Result<T> = std::result::Result<T, Error>;

/// The code of an error of the service, and the message that goes with it.
#[derive(Debug, Clone, PartialEq)]
pub struct QuandlError {
    /// The service's code for the error.
    pub code: String,
    /// The service's general message for that code.
    pub message: String,
}

/// An error response of the service, as it came.
#[derive(Debug, Clone, PartialEq)]
pub struct ApiErrorResponse {
    /// What exactly went wrong: for each object at fault what is wrong with
    /// it. The objects stand in the order of their names, as `ordered` says.
    pub errors: Option<Vec<(String, Vec<String>)>>,
    /// The general failure.
    pub quandl_error: QuandlError,
}

/// The order of names: character by character by their codes, a name before
/// every name that it begins.
pub open spec fn precedes(first: Seq<char>, second: Seq<char>) -> bool
    decreases first.len(),
{
    if second.len() == 0 {
        false
    } else if first.len() == 0 {
        true
    } else if first[0] != second[0] {
        (first[0] as u32) < (second[0] as u32)
    } else {
        precedes(first.drop_first(), second.drop_first())
    }
}

/// Each object stands before the next in the order of names.
pub open spec fn names_ascend(entries: Seq<(String, Vec<String>)>) -> bool {
    forall|i: int| 0 <= i < entries.len() - 1 ==> precedes((#[trigger] entries[i]).0@, entries[i + 1].0@)
}

/// Two names that agree up to a place stand in the order in which what
/// follows that place stands.
pub proof fn lemma_precedes_behind_common(first: Seq<char>, second: Seq<char>, common: int)
    requires
        0 <= common <= first.len(),
        common <= second.len(),
        first.take(common) == second.take(common),
    ensures
        precedes(first, second) == precedes(first.skip(common), second.skip(common)),
    decreases common,
{
    if common == 0 {
        assert(first.skip(0) =~= first);
        assert(second.skip(0) =~= second);
    } else {
        assert(first[0] == first.take(common)[0]);
        assert(second[0] == second.take(common)[0]);
        assert(first.drop_first().take(common - 1) =~= first.take(common).drop_first());
        assert(second.drop_first().take(common - 1) =~= second.take(common).drop_first());
        lemma_precedes_behind_common(first.drop_first(), second.drop_first(), common - 1);
        assert(first.drop_first().skip(common - 1) =~= first.skip(common));
        assert(second.drop_first().skip(common - 1) =~= second.skip(common));
    }
}

/// The order of names is transitive.
pub proof fn lemma_precedes_is_transitive(first: Seq<char>, second: Seq<char>, third: Seq<char>)
    requires
        precedes(first, second),
        precedes(second, third),
    ensures
        precedes(first, third),
    decreases first.len(),
{
    if first.len() > 0 && first[0] == second[0] && second[0] == third[0] {
        lemma_precedes_is_transitive(first.drop_first(), second.drop_first(), third.drop_first());
    }
}

/// Where the objects stand in the order of their names, the first object
/// stands before every other.
pub proof fn lemma_first_name_is_least(entries: Seq<(String, Vec<String>)>, other: int)
    requires
        names_ascend(entries),
        0 < other < entries.len(),
    ensures
        precedes(entries[0].0@, entries[other].0@),
    decreases other,
{
    if other > 1 {
        lemma_first_name_is_least(entries, other - 1);
        assert(precedes(entries[other - 1].0@, entries[other].0@));
        lemma_precedes_is_transitive(entries[0].0@, entries[other - 1].0@, entries[other].0@);
    }
}

/// Whether one name stands before another in the order of names.
pub fn comes_before(first: &str, second: &str) -> (before: bool)
    ensures
        before == precedes(first@, second@),
{
    let first_length = first.unicode_len();
    let second_length = second.unicode_len();
    let mut at: usize = 0;
    while at < first_length && at < second_length
        invariant
            at <= first_length,
            at <= second_length,
            first_length == first@.len(),
            second_length == second@.len(),
            first@.take(at as int) == second@.take(at as int),
        decreases first_length - at,
    {
        let left = first.get_char(at);
        let right = second.get_char(at);
        if left != right {
            proof {
                lemma_precedes_behind_common(first@, second@, at as int);
            }
            return (left as u32) < (right as u32);
        }
        assert(first@.take(at + 1) =~= first@.take(at as int).push(left));
        assert(second@.take(at + 1) =~= second@.take(at as int).push(right));
        at = at + 1;
    }
    proof {
        lemma_precedes_behind_common(first@, second@, at as int);
    }
    at < second_length
}

impl ApiErrorResponse {
    /// The objects at fault stand in the order of their names, so that the
    /// first of them is the one whose name comes first.
    pub open spec fn ordered(&self) -> bool {
        match self.errors {
            Some(entries) => names_ascend(entries@),
            None => true,
        }
    }

    /// Whether the objects at fault stand in the order of their names.
    pub fn is_ordered(&self) -> (yes: bool)
        ensures
            yes == self.ordered(),
    {
        match &self.errors {
            Some(entries) => {
                let mut i: usize = 1;
                while i < entries.len()
                    invariant
                        1 <= i,
                        self.errors == Some(*entries),
                        forall|k: int|
                            0 <= k < i - 1 && k < entries@.len() - 1 ==> precedes(
                                (#[trigger] entries@[k]).0@,
                                entries@[k + 1].0@,
                            ),
                    decreases entries.len() - i,
                {
                    if !comes_before(entries[i - 1].0.as_str(), entries[i].0.as_str()) {
                        assert(!precedes(entries@[i - 1].0@, entries@[i as int].0@));
                        return false;
                    }
                    i = i + 1;
                }
                true
            },
            None => true,
        }
    }
}

/// The four ways in which a query can fail.
#[derive(Debug, Clone, PartialEq)]
pub enum Error {
    /// The service answered the query with an error.
    ApiCallFailed(ApiErrorResponse),
    /// The exchange with the service's servers failed.
    DownloadFailed(String),
    /// What was received is not what the decoders expect.
    ParsingFailed(String),
    /// An operation of the system failed.
    IoError(String),
}

/// The words of a list, each with a space before it.
pub open spec fn spaced(words: Seq<Seq<char>>) -> Seq<char>
    decreases words.len(),
{
    if words.len() == 0 {
        Seq::empty()
    } else {
        spaced(words.drop_last()) + " "@ + words.last()
    }
}

impl Error {
    /// A short name for the kind of failure.
    pub open spec fn kind(&self) -> Seq<char> {
        match self {
            Error::ApiCallFailed(_) => "Quandl's server responded with an error."@,
            Error::DownloadFailed(_) => "Download failed."@,
            Error::ParsingFailed(_) => "Parsing data failed."@,
            Error::IoError(_) => "Underlying system I/O error."@,
        }
    }

    /// The message of the failure. For an error of the service it is what is
    /// wrong with the first object at fault, which in an ordered response is
    /// the one whose name comes first, or, where no object is named, the
    /// service's general message.
    pub open spec fn text(&self) -> Seq<char> {
        match self {
            Error::ApiCallFailed(response) => match response.errors {
                Some(entries) => if entries@.len() > 0 {
                    entries@[0].0@ + " - "@ + spaced(texts(entries@[0].1@))
                } else {
                    response.quandl_error.message@
                },
                None => response.quandl_error.message@,
            },
            Error::DownloadFailed(cause) => "download failed with error '"@ + cause@ + "'."@,
            Error::ParsingFailed(cause) => "parsing encoded data failed with error '"@ + cause@
                + "'."@,
            Error::IoError(cause) => "I/O operation failed with error '"@ + cause@ + "'."@,
        }
    }

    /// A short name for the kind of failure.
    pub fn description(&self) -> (name: &'static str)
        ensures
            name@ == self.kind(),
    {
        match self {
            Error::ApiCallFailed(_) => "Quandl's server responded with an error.",
            Error::DownloadFailed(_) => "Download failed.",
            Error::ParsingFailed(_) => "Parsing data failed.",
            Error::IoError(_) => "Underlying system I/O error.",
        }
    }

    /// The message of the failure, as it is shown to a user.
    pub fn message(&self) -> (shown: String)
        ensures
            shown@ == self.text(),
    {
        match self {
            Error::ApiCallFailed(response) => {
                match &response.errors {
                    Some(entries) => {
                        if entries.len() > 0 {
                            let mut shown = entries[0].0.clone();
                            shown.append(" - ");
                            let what = &entries[0].1;
                            let mut i: usize = 0;
                            while i < what.len()
                                invariant
                                    i <= what.len(),
                                    shown@ == entries@[0].0@ + " - "@ + spaced(
                                        texts(what@).take(i as int),
                                    ),
                                decreases what.len() - i,
                            {
                                proof {
                                    assert(texts(what@).take(i + 1).drop_last() =~= texts(
                                        what@,
                                    ).take(i as int));
                                }
                                shown.append(" ");
                                shown.append(what[i].as_str());
                                assert(shown@ =~= entries@[0].0@ + " - "@ + spaced(
                                    texts(what@).take(i + 1),
                                ));
                                i = i + 1;
                            }
                            assert(texts(what@).take(what.len() as int) =~= texts(what@));
                            shown
                        } else {
                            response.quandl_error.message.clone()
                        }
                    },
                    None => response.quandl_error.message.clone(),
                }
            },
            Error::DownloadFailed(cause) => {
                let mut shown = String::from_str("download failed with error '");
                shown.append(cause.as_str());
                shown.append("'.");
                shown
            },
            Error::ParsingFailed(cause) => {
                let mut shown = String::from_str("parsing encoded data failed with error '");
                shown.append(cause.as_str());
                shown.append("'.");
                shown
            },
            Error::IoError(cause) => {
                let mut shown = String::from_str("I/O operation failed with error '");
                shown.append(cause.as_str());
                shown.append("'.");
                shown
            },
        }
    }
}

} // verus!
