//! Serving a stored paste: cleaning the requested identifier and turning the
//! outcome of reading its file into a response.

use vstd::prelude::*;
use vstd::string::*;
use vstd::utf8::encode_utf8;

verus! {

/// Status of a response that carries the paste.
pub const STATUS_OK: u16 = 200;

/// Status of a response to a request for a paste that does not exist.
pub const STATUS_BAD_REQUEST: u16 = 400;

/// Status of a response when the paste could not be read for another reason.
pub const STATUS_INTERNAL_SERVER_ERROR: u16 = 500;

/// Whether `c` has the Unicode property White_Space.
pub open spec fn is_white_space(c: char) -> bool {
    let n = c as u32;
    ||| 0x09 <= n <= 0x0D
    ||| n == 0x20
    ||| n == 0x85
    ||| n == 0xA0
    ||| n == 0x1680
    ||| 0x2000 <= n <= 0x200A
    ||| n == 0x2028
    ||| n == 0x2029
    ||| n == 0x202F
    ||| n == 0x205F
    ||| n == 0x3000
}

/// `s` without the white space it starts with.
pub open spec fn trim_start(s: Seq<char>) -> Seq<char>
    decreases s.len(),
{
    if s.len() > 0 && is_white_space(s[0]) {
        trim_start(s.drop_first())
    } else {
        s
    }
}

/// `s` without the white space it ends with.
pub open spec fn trim_end(s: Seq<char>) -> Seq<char>
    decreases s.len(),
{
    if s.len() > 0 && is_white_space(s.last()) {
        trim_end(s.drop_last())
    } else {
        s
    }
}

/// The test that keeps every character but the forward slash.
pub open spec fn not_slash() -> spec_fn(char) -> bool {
    |c: char| c != '/'
}

/// The file name that a requested identifier stands for: the request without
/// the white space around it, and then without any forward slash.
pub open spec fn sanitized(requested: Seq<char>) -> Seq<char> {
    trim_end(trim_start(requested)).filter(not_slash())
}

/// Whether `c` has the Unicode property White_Space.
pub fn white_space(c: char) -> (yes: bool)
    ensures
        yes == is_white_space(c),
{
    let n: u32 = c as u32;
    (0x09 <= n && n <= 0x0D) || n == 0x20 || n == 0x85 || n == 0xA0 || n == 0x1680 || (0x2000 <= n
        && n <= 0x200A) || n == 0x2028 || n == 0x2029 || n == 0x202F || n == 0x205F || n == 0x3000
}

/// The characters of `text`, in order.
fn chars_of(text: &str) -> (chars: Vec<char>)
    ensures
        chars@ == text@,
{
    broadcast use axiom_spec_iter;

    let mut chars: Vec<char> = Vec::new();
    for c in it: text.chars()
        invariant
            it.seq() == text@,
            chars@ == it.seq().take(it.index()),
    {
        assert(it.seq().take(it.index() + 1) =~= it.seq().take(it.index()).push(c));
        chars.push(c);
    }
    assert(chars@ =~= text@);
    chars
}

/// Calls the standard library's `String::from_iter` on the characters of
/// `chars`. Claimed of it: the text is made of exactly these characters, in
/// order.
#[verifier::external_body]
fn text_of_chars(chars: &Vec<char>) -> (text: String)
    ensures
        text@ == chars@,
{
    String::from_iter(chars.iter())
}

/// Cleans a requested identifier before it names a file: trims the white space
/// around it and removes every forward slash, so that the name cannot step out
/// of the storage directory through a slash.
pub fn sanitize_identifier(requested: &str) -> (clean: String)
    ensures
        clean@ == sanitized(requested@),
        forall|i: int| 0 <= i < clean@.len() ==> clean@[i] != '/',
{
    let chars = chars_of(requested);
    let ghost all = requested@;
    let n: usize = chars.len();
    let mut start: usize = 0;
    assert(all.skip(0) =~= all);
    while start < n && white_space(chars[start])
        invariant
            start <= n,
            n == all.len(),
            all == chars@,
            trim_start(all) == trim_start(all.skip(start as int)),
        decreases n - start,
    {
        assert(all.skip(start as int).drop_first() =~= all.skip(start + 1));
        start = start + 1;
    }
    assert(all.skip(start as int) =~= all.subrange(start as int, n as int));
    let mut end: usize = n;
    while end > start && white_space(chars[end - 1])
        invariant
            start <= end <= n,
            n == all.len(),
            all == chars@,
            trim_end(trim_start(all)) == trim_end(all.subrange(start as int, end as int)),
        decreases end - start,
    {
        assert(all.subrange(start as int, end as int).drop_last() =~= all.subrange(
            start as int,
            end - 1,
        ));
        end = end - 1;
    }
    let mut kept: Vec<char> = Vec::new();
    let mut k: usize = start;
    assert(all.subrange(start as int, start as int).filter(not_slash()) =~= Seq::<char>::empty());
    while k < end
        invariant
            start <= k <= end <= n,
            n == all.len(),
            all == chars@,
            kept@ == all.subrange(start as int, k as int).filter(not_slash()),
        decreases end - k,
    {
        let c = chars[k];
        proof {
            assert(all.subrange(start as int, k + 1) =~= all.subrange(start as int, k as int).push(
                c,
            ));
            all.subrange(start as int, k as int).lemma_filter_push(c, not_slash());
        }
        if c != '/' {
            kept.push(c);
        }
        k = k + 1;
    }
    proof {
        lemma_sanitized_has_no_slash(all);
    }
    text_of_chars(&kept)
}

/// A sanitized identifier holds no forward slash.
pub proof fn lemma_sanitized_has_no_slash(requested: Seq<char>)
    ensures
        forall|i: int| 0 <= i < sanitized(requested).len() ==> sanitized(requested)[i] != '/',
{
    let trimmed = trim_end(trim_start(requested));
    assert forall|i: int| 0 <= i < sanitized(requested).len() implies sanitized(requested)[i]
        != '/' by {
        trimmed.lemma_filter_pred(not_slash(), i);
    }
}

/// What reading the file of a requested paste came to.
pub enum ReadOutcome {
    /// The file was read; these are its bytes.
    Found(Vec<u8>),
    /// There is no such file.
    NotFound,
    /// Reading failed for another reason; this is the error's description.
    Failed(String),
}

/// A response of the retrieval service.
pub struct Response {
    pub status: u16,
    pub content_type: String,
    pub body: Vec<u8>,
}

/// The content type of every response.
pub open spec fn content_type_text() -> Seq<char> {
    "text/plain"@
}

/// The body of the response to a request for a paste that does not exist.
pub open spec fn not_found_text() -> Seq<char> {
    "File does not exist."@
}

/// The status of the response to `outcome`.
pub open spec fn status_of(outcome: ReadOutcome) -> u16 {
    match outcome {
        ReadOutcome::Found(_) => STATUS_OK,
        ReadOutcome::NotFound => STATUS_BAD_REQUEST,
        ReadOutcome::Failed(_) => STATUS_INTERNAL_SERVER_ERROR,
    }
}

/// The body of the response to `outcome`: the paste itself, or a message as
/// UTF-8.
pub open spec fn body_of(outcome: ReadOutcome) -> Seq<u8> {
    match outcome {
        ReadOutcome::Found(bytes) => bytes@,
        ReadOutcome::NotFound => encode_utf8(not_found_text()),
        ReadOutcome::Failed(description) => encode_utf8(description@),
    }
}

/// The response to a request, given what reading the file came to. A paste
/// that was found is returned as it is; a missing one is a bad request, never
/// a server error; any other failure is a server error that carries the
/// error's description. The content type is plain text throughout.
pub fn respond(outcome: ReadOutcome) -> (response: Response)
    ensures
        response.status == status_of(outcome),
        response.body@ == body_of(outcome),
        response.content_type@ == content_type_text(),
{
    let content_type = String::from_str("text/plain");
    match outcome {
        ReadOutcome::Found(bytes) => Response { status: STATUS_OK, content_type, body: bytes },
        ReadOutcome::NotFound => Response {
            status: STATUS_BAD_REQUEST,
            content_type,
            body: "File does not exist.".as_bytes_vec(),
        },
        ReadOutcome::Failed(description) => Response {
            status: STATUS_INTERNAL_SERVER_ERROR,
            content_type,
            body: description.as_str().as_bytes_vec(),
        },
    }
}

} // verus!
