//! The reviewable part of the API client: its error type and the
//! combination of the response content parts into one review text.
//! The HTTP request itself happens outside this library.

use vstd::prelude::*;

verus! {

/// What can go wrong while requesting a review.
#[derive(Debug)]
pub enum ClientError {
    /// The API key environment variable is not set.
    MissingApiKey,
    /// The request could not be sent or was rejected.
    Request(String),
    /// The response could not be read.
    Response(String),
}

impl ClientError {
    /// A human-readable description of the error.
    pub fn message(&self) -> (r: String)
        ensures
            self is MissingApiKey ==> r@ == "missing ANTHROPIC_API_KEY environment variable"@,
            self matches ClientError::Request(d) ==> r@ == "request failed: "@ + d@,
            self matches ClientError::Response(d) ==> r@ == "response parse failed: "@ + d@,
    {
        match self {
            ClientError::MissingApiKey => String::from_str(
                "missing ANTHROPIC_API_KEY environment variable",
            ),
            ClientError::Request(detail) => {
                let mut r = String::from_str("request failed: ");
                r.append(detail.as_str());
                r
            },
            ClientError::Response(detail) => {
                let mut r = String::from_str("response parse failed: ");
                r.append(detail.as_str());
                r
            },
        }
    }
}

/// One content part of an API response: its declared kind and its
/// text, when it has one.
#[derive(Debug, Clone)]
pub struct ResponsePart {
    pub content_type: String,
    pub text: Option<String>,
}

/// The texts of the parts at and after `i` whose kind is `text`,
/// appended onto `acc`.
pub open spec fn combined_from(parts: Seq<ResponsePart>, i: int, acc: Seq<char>) -> Seq<char>
    decreases parts.len() - i,
{
    if i >= parts.len() {
        acc
    } else {
        let p = parts[i];
        if p.content_type@ == "text"@ && p.text is Some {
            combined_from(parts, i + 1, acc + p.text->0@)
        } else {
            combined_from(parts, i + 1, acc)
        }
    }
}

/// The review text that the response parts carry.
pub open spec fn combined_text(parts: Seq<ResponsePart>) -> Seq<char> {
    combined_from(parts, 0, Seq::empty())
}

/// Combines the text parts of an API response into the review text; a
/// response without any text is an error.
pub fn combine_response_text(parts: &Vec<ResponsePart>) -> (r: Result<String, ClientError>)
    ensures
        r is Err <==> combined_text(parts@).len() == 0,
        r matches Err(e) ==> e matches ClientError::Response(d) && d@ == "empty response"@,
        r matches Ok(s) ==> s@ == combined_text(parts@),
{
    let ghost model = combined_text(parts@);
    let text_kind = String::from_str("text");
    let mut combined = String::new();
    proof {
        assert(combined@ =~= Seq::<char>::empty());
    }
    let mut i: usize = 0;
    while i < parts.len()
        invariant
            i <= parts@.len(),
            text_kind@ == "text"@,
            combined_from(parts@, i as int, combined@) == model,
        decreases parts@.len() - i,
    {
        let part = &parts[i];
        if part.content_type == text_kind {
            match &part.text {
                Some(t) => {
                    combined.append(t.as_str());
                },
                None => {},
            }
        }
        i = i + 1;
    }
    if combined.as_str().is_empty() {
        Err(ClientError::Response(String::from_str("empty response")))
    } else {
        Ok(combined)
    }
}

} // verus!
