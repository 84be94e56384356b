//! The two pages of the site. Each is computed from the outcome of one fetch:
//! the caller fetches, the functions here decide what is sent back.

use vstd::prelude::*;
use vstd::string::*;
use crate::table::page_html;
use crate::table::render_page;
use crate::words::WordList;
use crate::words::WordText;

verus! {

/// Why a remote document could not be had.
#[derive(Clone, Copy, Debug, PartialEq, Eq, Structural)]
pub enum FetchError {
    /// The document could not be fetched.
    Network,
    /// The remote side answered, but not with a status of success.
    Status,
    /// The document was fetched, but is not what was expected.
    Parse,
}

/// How the body of a reply is to be read.
#[derive(Clone, Copy, Debug, PartialEq, Eq, Structural)]
pub enum ContentType {
    /// An HTML document.
    Html,
    /// Text without markup.
    PlainText,
}

/// The status of every reply: failures are reported in the body, never by the
/// status.
pub const STATUS_OK: u16 = 200;

/// The body of the home page when its document could not be fetched.
pub const PAGE_FETCH_FAILED: &'static str = "Failed to fetch HTML from the server.";

/// The body of the word page when its document could not be fetched or
/// read.
pub const WORDS_FETCH_FAILED: &'static str = "Failed to fetch data from the server.";

/// What is sent back for a request.
#[derive(Debug)]
pub struct Reply {
    pub status: u16,
    pub content_type: ContentType,
    pub body: String,
}

/// Whether a reply has the form that every reply of the site has: the status
/// of success and a body that is sent as HTML, the fixed messages included.
pub open spec fn is_page_reply(reply: Reply) -> bool {
    reply.status == STATUS_OK && reply.content_type == ContentType::Html
}

/// Whether a status reports success.
pub open spec fn is_success(status: u16) -> bool {
    200 <= status <= 299
}

/// What was fetched for the home page, as characters.
pub open spec fn fetched_text(fetched: Result<String, FetchError>) -> Result<
    Seq<char>,
    FetchError,
> {
    match fetched {
        Ok(html) => Ok(html@),
        Err(error) => Err(error),
    }
}

/// What was fetched for the word page, as the texts of the entries.
pub open spec fn fetched_words(fetched: Result<WordList, FetchError>) -> Result<
    Seq<WordText>,
    FetchError,
> {
    match fetched {
        Ok(list) => Ok(list@),
        Err(error) => Err(error),
    }
}

/// The body of the home page: the fetched document, unchanged, or the fixed
/// message for any failure.
pub open spec fn home_body(fetched: Result<Seq<char>, FetchError>) -> Seq<char> {
    match fetched {
        Ok(html) => html,
        Err(_) => PAGE_FETCH_FAILED@,
    }
}

/// The body of the word page: the table page of the fetched entries, or the
/// fixed message for any failure.
pub open spec fn new_words_body(fetched: Result<Seq<WordText>, FetchError>) -> Seq<char> {
    match fetched {
        Ok(words) => page_html(words),
        Err(_) => WORDS_FETCH_FAILED@,
    }
}

/// What a response to the fetch of the home page counts as: its body where
/// the status reports success, a failure for any other status.
pub fn page_response(status: u16, body: String) -> (fetched: Result<String, FetchError>)
    ensures
        fetched == if is_success(status) {
            Ok::<String, FetchError>(body)
        } else {
            Err::<String, FetchError>(FetchError::Status)
        },
{
    if 200 <= status && status <= 299 {
        Ok(body)
    } else {
        Err(FetchError::Status)
    }
}

/// The reply to a request for the home page, given the outcome of fetching
/// its document.
pub fn home(fetched: Result<String, FetchError>) -> (reply: Reply)
    ensures
        is_page_reply(reply),
        reply.body@ == home_body(fetched_text(fetched)),
{
    let body = match fetched {
        Ok(html) => html,
        Err(_) => String::from_str(PAGE_FETCH_FAILED),
    };
    Reply { status: STATUS_OK, content_type: ContentType::Html, body }
}

/// The reply to a request for the word page, given the outcome of fetching
/// and reading the word document.
pub fn new_words(fetched: Result<WordList, FetchError>) -> (reply: Reply)
    ensures
        is_page_reply(reply),
        reply.body@ == new_words_body(fetched_words(fetched)),
{
    let body = match fetched {
        Ok(list) => render_page(&list),
        Err(_) => String::from_str(WORDS_FETCH_FAILED),
    };
    Reply { status: STATUS_OK, content_type: ContentType::Html, body }
}

} // verus!
