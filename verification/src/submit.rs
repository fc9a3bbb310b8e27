//! Submitting colours: what is sent to the service, and how a failed request
//! is reported.

use crate::colour::ColourState;
use crate::lock::Lock;
use crate::query::{encode_query, pairs_view, query_text};
use crate::encode::encode_colour_state;
use crate::format::state_text;
use vstd::prelude::*;

verus! {

/// The two parameters of a colour submission.
///
/// `colours` holds the colour assignment as JSON text. It is sent as one
/// string, escaped like any other parameter value: the JSON is not unfolded
/// into parameters of its own.
#[derive(Debug)]
pub struct SetColourRequest {
    pub hash: String,
    pub colours: String,
}

/// Name of the parameter that carries the lock token.
pub open spec fn hash_name() -> Seq<char> {
    "hash"@
}

/// Name of the parameter that carries the colour assignment.
pub open spec fn colours_name() -> Seq<char> {
    "colours"@
}

impl SetColourRequest {
    /// The submission of `colours` under `lock`: the token as it was issued,
    /// and the assignment as `encode_colour_state` writes it.
    pub fn new(lock: &Lock, colours: &ColourState) -> (request: SetColourRequest)
        ensures
            request.hash@ == lock@.token,
            request.colours@ == state_text(colours@),
    {
        SetColourRequest {
            hash: String::from_str(lock.token()),
            colours: encode_colour_state(colours),
        }
    }

    /// The query parameters of the request, as name and value: `hash` first,
    /// then `colours`. The values are not escaped yet.
    pub fn query_pairs(&self) -> (pairs: Vec<(String, String)>)
        ensures
            pairs@.len() == 2,
            pairs@[0].0@ == hash_name(),
            pairs@[0].1@ == self.hash@,
            pairs@[1].0@ == colours_name(),
            pairs@[1].1@ == self.colours@,
    {
        let mut pairs: Vec<(String, String)> = Vec::new();
        pairs.push((String::from_str("hash"), self.hash.clone()));
        pairs.push((String::from_str("colours"), self.colours.clone()));
        pairs
    }

    /// The query string of the request: `hash=..&colours=..`, with both
    /// values escaped. The colour text goes in as one value; its brackets,
    /// quotes and commas are escaped like any other character.
    pub fn query_string(&self) -> (text: String)
        ensures
            text@ == query_text(
                seq![(hash_name(), self.hash@), (colours_name(), self.colours@)],
            ),
    {
        let pairs = self.query_pairs();
        assert(pairs_view(pairs@) =~= seq![
            (hash_name(), self.hash@),
            (colours_name(), self.colours@),
        ]);
        encode_query(&pairs)
    }
}

/// Why a colour submission did not go through.
#[derive(Debug)]
pub enum SubmitError {
    /// The request failed on the way; the text gives the cause.
    Transport(String),
    /// No response arrived in time.
    Timeout,
}

/// A `SubmitError` as a mathematical value.
pub enum SubmitErrorView {
    Transport(Seq<char>),
    Timeout,
}

impl View for SubmitError {
    type V = SubmitErrorView;

    open spec fn view(&self) -> SubmitErrorView {
        match self {
            SubmitError::Transport(cause) => SubmitErrorView::Transport(cause@),
            SubmitError::Timeout => SubmitErrorView::Timeout,
        }
    }
}

impl SubmitError {
    /// The error for a submission that got no response: `Timeout` where the
    /// transport gave up waiting, `Transport` with the cause otherwise.
    pub fn from_transport(timed_out: bool, cause: String) -> (error: SubmitError)
        ensures
            error@ == if timed_out {
                SubmitErrorView::Timeout
            } else {
                SubmitErrorView::Transport(cause@)
            },
    {
        if timed_out {
            SubmitError::Timeout
        } else {
            SubmitError::Transport(cause)
        }
    }
}

} // verus!
