//! Placing a framed paste: its identifier, its file name, its retrieval URL,
//! and the line that answers the client.

use vstd::prelude::*;
use vstd::string::*;
use crate::address::{join_url, parse_error_text, url_join};
use crate::identifier::{
    generate_identifier, is_identifier, lemma_identifier_is_its_own_file_name,
};
use crate::ingest::{lemma_sent_then_closed_is_stored, open_ended, paste_of, MAX_SIZE};
use crate::retrieval::{body_of, sanitized, status_of, ReadOutcome, STATUS_OK};

verus! {

/// Why a connection did not get a URL back. Each variant carries the
/// description of the underlying error.
#[derive(Debug)]
pub enum PasteError {
    /// Reading from the connection failed.
    Read(String),
    /// The identifier could not be joined onto the base URL.
    Url(String),
    /// Writing the file failed.
    Write(String),
}

impl PasteError {
    /// The description that the variant carries.
    pub open spec fn text(self) -> Seq<char> {
        match self {
            PasteError::Read(text) => text@,
            PasteError::Url(text) => text@,
            PasteError::Write(text) => text@,
        }
    }

    /// The description of the error, as the client is told it.
    pub fn message(&self) -> (text: String)
        ensures
            text@ == self.text(),
    {
        match self {
            PasteError::Read(text) => text.clone(),
            PasteError::Url(text) => text.clone(),
            PasteError::Write(text) => text.clone(),
        }
    }
}

/// Where a paste is stored and how it is fetched again.
#[derive(Debug)]
pub struct Placement {
    /// The name of the paste's file in the storage directory: its identifier.
    pub file_name: String,
    /// The bytes to write, as they were framed.
    pub data: Vec<u8>,
    /// The URL that retrieves the paste.
    pub url: String,
}

/// Places a paste under the identifier `id`, given what joining `id` onto the
/// base URL came to: the URL as text, or the description of the error. The
/// paste is stored under the identifier itself and keeps its bytes; a failed
/// join places nothing.
pub fn place_under(data: Vec<u8>, id: String, joined: Result<String, String>) -> (placed: Result<
    Placement,
    PasteError,
>)
    ensures
        match joined {
            Ok(url) => placed matches Ok(p) && p.file_name@ == id@ && p.data@ == data@ && p.url@
                == url@,
            Err(text) => placed matches Err(PasteError::Url(t)) && t@ == text@,
        },
{
    match joined {
        Ok(url) => Ok(Placement { file_name: id, data, url }),
        Err(text) => Err(PasteError::Url(text)),
    }
}

/// Places a paste under a fresh random identifier and builds its retrieval URL
/// by joining the identifier onto `base_url`. Succeeds exactly when the join
/// does; an existing file of the same name is not looked for.
pub fn place(data: Vec<u8>, base_url: &str) -> (placed: Result<Placement, PasteError>)
    ensures
        match placed {
            Ok(p) => is_identifier(p.file_name@) && p.data@ == data@ && url_join(
                base_url@,
                p.file_name@,
            ) == Some(p.url@),
            Err(error) => error is Url && exists|id: Seq<char>|
                is_identifier(id) && #[trigger] url_join(base_url@, id) is None,
        },
{
    let id = generate_identifier();
    let joined = match join_url(base_url, id.as_str()) {
        Ok(url) => Ok(url),
        Err(error) => Err(parse_error_text(&error)),
    };
    place_under(data, id, joined)
}

/// What the reply to `outcome` says before it is sent: the URL and a line feed,
/// or `err: ` and the error's description.
pub open spec fn reply_text(outcome: Result<Seq<char>, Seq<char>>) -> Seq<char> {
    match outcome {
        Ok(url) => url + seq!['\n'],
        Err(text) => seq!['e', 'r', 'r', ':', ' '] + text,
    }
}

/// The line that answers the client: the retrieval URL followed by a line
/// feed, or `err: ` followed by the error's description.
pub fn reply_line(outcome: &Result<String, PasteError>) -> (line: String)
    ensures
        line@ == reply_text(
            match *outcome {
                Ok(url) => Ok(url@),
                Err(error) => Err(error.text()),
            },
        ),
{
    proof {
        reveal_strlit("\n");
        reveal_strlit("err: ");
    }
    match outcome {
        Ok(url) => {
            let line = url.clone().concat("\n");
            assert(line@ =~= url@ + seq!['\n']);
            line
        },
        Err(error) => {
            let text = error.message();
            let line = String::from_str("err: ").concat(text.as_str());
            assert(line@ =~= seq!['e', 'r', 'r', ':', ' '] + error.text());
            line
        },
    }
}

/// Round trip. A client sends the bytes `sent`, which fit under the cap, in
/// pieces of which none ends on a line feed, and closes. What is framed off
/// that stream is placed under an identifier. Then a request for that
/// identifier is cleaned to the name of the file, and the response to the file
/// that was found there has the status for success and carries exactly `sent`.
pub proof fn lemma_round_trip(sent: Seq<u8>, reads: Seq<Seq<u8>>, placement: Placement)
    requires
        reads.flatten() == sent,
        sent.len() <= MAX_SIZE,
        forall|j: int| 0 <= j < reads.len() ==> open_ended(#[trigger] reads[j]),
        is_identifier(placement.file_name@),
        placement.data@ == paste_of(Seq::empty(), reads),
    ensures
        sanitized(placement.file_name@) == placement.file_name@,
        status_of(ReadOutcome::Found(placement.data)) == STATUS_OK,
        body_of(ReadOutcome::Found(placement.data)) == sent,
{
    lemma_sent_then_closed_is_stored(sent, reads);
    lemma_identifier_is_its_own_file_name(placement.file_name@);
}

} // verus!
