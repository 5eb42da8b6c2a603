//! Fetching a page of the web and turning it into a text to read.
use crate::patterns;
use crate::text;
use crate::tools::registry;
use crate::tools::registry::{HandlerModel, ToolAction, ToolHandler};
use vstd::prelude::*;

verus! {

/// Seconds that a page may take if nothing else is said, and the limits within
/// which something else may be said.
pub const DEFAULT_TIMEOUT_SECONDS: u64 = 15;

pub const MIN_TIMEOUT_SECONDS: u64 = 1;

pub const MAX_TIMEOUT_SECONDS: u64 = 60;

/// Bytes of a page that are read if nothing else is said, and the limits within
/// which something else may be said.
pub const DEFAULT_MAX_BYTES: usize = 200_000;

pub const MIN_MAX_BYTES: usize = 1;

pub const MAX_MAX_BYTES: usize = 1_000_000;

pub const WEB_FETCH_DESCRIPTION: &'static str = "Fetch a public web page over HTTP(S), extract a readable text view, and return response metadata for research tasks.";

pub const WEB_FETCH_SCHEMA: &'static str = r#"{
  "type": "object",
  "properties": {
    "url": {
      "type": "string",
      "description": "Required HTTP or HTTPS URL to fetch. Only public GET requests are supported."
    },
    "timeout_seconds": {
      "type": "integer",
      "description": "Optional request timeout in seconds. Defaults to 15 seconds."
    },
    "max_bytes": {
      "type": "integer",
      "description": "Optional maximum response size to read in bytes. Defaults to 200000 bytes."
    },
    "include_headers": {
      "type": "boolean",
      "description": "Include response headers in the output when true."
    }
  },
  "required": ["url"],
  "additionalProperties": false
}"#;

/// What is asked for.
#[derive(Debug)]
pub struct WebFetchInput {
    pub url: String,
    pub timeout_seconds: Option<u64>,
    pub max_bytes: Option<usize>,
    pub include_headers: bool,
}

/// A header of an answer.
#[derive(Debug)]
pub struct WebFetchHeader {
    pub name: String,
    pub value: String,
}

/// A header of an answer.
#[verifier::ext_equal]
pub struct HeaderModel {
    pub name: Seq<char>,
    pub value: Seq<char>,
}

impl DeepView for WebFetchHeader {
    type V = HeaderModel;

    open spec fn deep_view(&self) -> HeaderModel {
        HeaderModel { name: self.name@, value: self.value@ }
    }
}

/// A request that may be sent.
#[derive(Debug)]
pub struct WebFetchRequest {
    pub url: String,
    pub timeout_seconds: u64,
    pub max_bytes: usize,
    pub read_limit: u64,
}

/// What was answered: at most as many bytes of the page as were to be read.
#[derive(Debug)]
pub struct WebFetchResponse {
    pub final_url: String,
    pub status_code: u16,
    pub status_text: Option<String>,
    pub content_type: Option<String>,
    pub headers: Vec<WebFetchHeader>,
    pub body: Vec<u8>,
}

/// A page as a text to read.
#[derive(Debug)]
pub struct WebFetchOutput {
    pub url: String,
    pub final_url: String,
    pub status_code: u16,
    pub status_text: Option<String>,
    pub content_type: Option<String>,
    pub title: Option<String>,
    pub truncated: bool,
    pub byte_count: usize,
    pub headers: Option<Vec<WebFetchHeader>>,
    pub text: String,
}

/// A page as a text to read.
#[verifier::ext_equal]
pub struct WebPageModel {
    pub url: Seq<char>,
    pub final_url: Seq<char>,
    pub status_code: u16,
    pub status_text: Option<Seq<char>>,
    pub content_type: Option<Seq<char>>,
    pub title: Option<Seq<char>>,
    pub truncated: bool,
    pub byte_count: nat,
    pub headers: Option<Seq<HeaderModel>>,
    pub text: Seq<char>,
}

impl DeepView for WebFetchOutput {
    type V = WebPageModel;

    open spec fn deep_view(&self) -> WebPageModel {
        WebPageModel {
            url: self.url@,
            final_url: self.final_url@,
            status_code: self.status_code,
            status_text: self.status_text.deep_view(),
            content_type: self.content_type.deep_view(),
            title: self.title.deep_view(),
            truncated: self.truncated,
            byte_count: self.byte_count as nat,
            headers: self.headers.deep_view(),
            text: self.text@,
        }
    }
}

// ---------------------------------------------------------------------------
// What may be asked for

/// The scheme of an address; nothing if the text is no address.
pub uninterp spec fn scheme_of_url(url: Seq<char>) -> Option<Seq<char>>;

/// `reqwest::Url::parse` and `Url::scheme`: reads an address, and gives its
/// scheme. Both depend on the text alone.
#[verifier::external_body]
fn url_scheme(url: &str) -> (r: Option<String>)
    ensures
        r.deep_view() == scheme_of_url(url@),
{
    let parsed = reqwest::Url::parse(url).ok()?;
    Some(parsed.scheme().to_string())
}

/// What is wrong with an address whose scheme is known.
pub open spec fn address_problem(url: Seq<char>, scheme: Option<Seq<char>>) -> Option<Seq<char>> {
    match scheme {
        None => Some("invalid url: "@ + url),
        Some(s) => if s == "http"@ || s == "https"@ {
            None
        } else {
            Some("unsupported URL scheme: "@ + s + "; only http and https are allowed"@)
        },
    }
}

/// Accepts an address whose scheme is known, or says what is wrong with it.
pub fn check_scheme(url: &str, scheme: Option<&str>) -> (r: Result<(), String>)
    ensures
        match r {
            Ok(_) => address_problem(url@, scheme.deep_view()) is None,
            Err(e) => address_problem(url@, scheme.deep_view()) == Some(e@),
        },
{
    match scheme {
        None => Err(text::concat("invalid url: ", url)),
        Some(s) => {
            if text::same_text(s, "http") || text::same_text(s, "https") {
                Ok(())
            } else {
                Err(
                    text::concat3(
                        "unsupported URL scheme: ",
                        s,
                        "; only http and https are allowed",
                    ),
                )
            }
        },
    }
}

/// `n` brought between two limits.
pub open spec fn clamped(n: int, low: int, high: int) -> int {
    if n < low {
        low
    } else if n > high {
        high
    } else {
        n
    }
}

/// The seconds that a page may take.
pub open spec fn timeout_of(asked: Option<u64>) -> int {
    match asked {
        Some(n) => clamped(n as int, MIN_TIMEOUT_SECONDS as int, MAX_TIMEOUT_SECONDS as int),
        None => DEFAULT_TIMEOUT_SECONDS as int,
    }
}

/// The bytes of a page that are kept.
pub open spec fn max_bytes_of(asked: Option<usize>) -> int {
    match asked {
        Some(n) => clamped(n as int, MIN_MAX_BYTES as int, MAX_MAX_BYTES as int),
        None => DEFAULT_MAX_BYTES as int,
    }
}

fn max_bytes_asked(asked: Option<usize>) -> (r: usize)
    ensures
        r == max_bytes_of(asked),
        MIN_MAX_BYTES <= r <= MAX_MAX_BYTES,
{
    match asked {
        Some(n) => if n < MIN_MAX_BYTES {
            MIN_MAX_BYTES
        } else if n > MAX_MAX_BYTES {
            MAX_MAX_BYTES
        } else {
            n
        },
        None => DEFAULT_MAX_BYTES,
    }
}

/// The request to be sent, or why none is: one byte more than is kept is read,
/// to know whether there was more.
pub fn web_fetch_request(input: &WebFetchInput) -> (r: Result<WebFetchRequest, String>)
    ensures
        match r {
            Ok(q) => {
                &&& address_problem(input.url@, scheme_of_url(input.url@)) is None
                &&& q.url@ == input.url@
                &&& q.timeout_seconds == timeout_of(input.timeout_seconds)
                &&& q.max_bytes == max_bytes_of(input.max_bytes)
                &&& q.read_limit == q.max_bytes + 1
            },
            Err(e) => address_problem(input.url@, scheme_of_url(input.url@)) == Some(e@),
        },
{
    let scheme = url_scheme(input.url.as_str());
    let known = match &scheme {
        Some(s) => Some(s.as_str()),
        None => None,
    };
    match check_scheme(input.url.as_str(), known) {
        Ok(_) => {},
        Err(e) => {
            return Err(e);
        },
    }
    let timeout_seconds = match input.timeout_seconds {
        Some(n) => if n < MIN_TIMEOUT_SECONDS {
            MIN_TIMEOUT_SECONDS
        } else if n > MAX_TIMEOUT_SECONDS {
            MAX_TIMEOUT_SECONDS
        } else {
            n
        },
        None => DEFAULT_TIMEOUT_SECONDS,
    };
    let max_bytes = max_bytes_asked(input.max_bytes);
    Ok(
        WebFetchRequest {
            url: input.url.clone(),
            timeout_seconds,
            max_bytes,
            read_limit: max_bytes as u64 + 1,
        },
    )
}

// ---------------------------------------------------------------------------
// From a page to a text

/// The content is a page with tags.
pub open spec fn is_html(content_type: Option<Seq<char>>) -> bool {
    match content_type {
        Some(t) => text::has_text(t, "html"@) || text::has_text(t, "xhtml"@),
        None => false,
    }
}

fn says_html(content_type: Option<&str>) -> (r: bool)
    ensures
        r == is_html(content_type.deep_view()),
        r == (content_type is Some && text::has_text(content_type->0@, "html"@)),
{
    proof {
        match content_type {
            Some(t) => lemma_xhtml_is_html(t@),
            None => {},
        }
    }
    match content_type {
        Some(t) => text::contains(t, "html") || text::contains(t, "xhtml"),
        None => false,
    }
}

/// A text with each occurrence of a pattern replaced by a blank.
pub open spec fn blanked(pattern: Seq<char>, s: Seq<char>) -> Seq<char> {
    patterns::regex_replaced(pattern, false, s, " "@)
}

fn blank_out(pattern: &str, s: &str) -> (r: String)
    requires
        patterns::is_page_pattern(pattern@),
    ensures
        r@ == blanked(pattern@, s@),
{
    match patterns::compile(pattern, false) {
        Some(regex) => patterns::replace_all(&regex, s, " "),
        None => text::owned(s),
    }
}

/// A text without tags.
pub open spec fn tags_stripped(s: Seq<char>) -> Seq<char> {
    blanked(patterns::TAG_PATTERN@, s)
}

/// A text without tags.
pub fn strip_tags(input: &str) -> (r: String)
    ensures
        r@ == tags_stripped(input@),
{
    blank_out(patterns::TAG_PATTERN, input)
}

/// A text with the common names of characters replaced by the characters, one
/// name after the other.
pub open spec fn entities_read(s: Seq<char>) -> Seq<char> {
    let s1 = text::replaced(s, "&nbsp;"@, " "@);
    let s2 = text::replaced(s1, "&amp;"@, "&"@);
    let s3 = text::replaced(s2, "&lt;"@, "<"@);
    let s4 = text::replaced(s3, "&gt;"@, ">"@);
    let s5 = text::replaced(s4, "&quot;"@, "\""@);
    text::replaced(s5, "&#39;"@, "'"@)
}

/// A text with the common names of characters replaced by the characters.
pub fn strip_html_entities(input: &str) -> (r: String)
    ensures
        r@ == entities_read(input@),
{
    proof {
        reveal_strlit("&nbsp;");
        reveal_strlit("&amp;");
        reveal_strlit("&lt;");
        reveal_strlit("&gt;");
        reveal_strlit("&quot;");
        reveal_strlit("&#39;");
    }
    let s1 = text::replace_all(input, "&nbsp;", " ");
    let s2 = text::replace_all(s1.as_str(), "&amp;", "&");
    let s3 = text::replace_all(s2.as_str(), "&lt;", "<");
    let s4 = text::replace_all(s3.as_str(), "&gt;", ">");
    let s5 = text::replace_all(s4.as_str(), "&quot;", "\"");
    text::replace_all(s5.as_str(), "&#39;", "'")
}

/// The text to read of a page whose tags are gone.
pub open spec fn readable(stripped: Seq<char>) -> Seq<char> {
    text::collapsed(entities_read(stripped))
}

/// The text to read of a page whose tags are gone.
pub fn readable_text(stripped: &str) -> (r: String)
    ensures
        r@ == readable(stripped@),
{
    let plain = strip_html_entities(stripped);
    text::collapse_whitespace(plain.as_str())
}

/// The text of a page with tags.
pub fn html_to_text(html: &str) -> (r: String)
    ensures
        r@ == readable(tags_stripped(blanked(patterns::BLOCK_PATTERN@, html@))),
{
    let without_blocks = blank_out(patterns::BLOCK_PATTERN, html);
    let stripped = strip_tags(without_blocks.as_str());
    readable_text(stripped.as_str())
}

/// The text of what was fetched.
pub open spec fn fetched_text(raw: Seq<char>, content_type: Option<Seq<char>>) -> Seq<char> {
    if is_html(content_type) {
        readable(tags_stripped(blanked(patterns::BLOCK_PATTERN@, raw)))
    } else {
        text::collapsed(raw)
    }
}

/// The text of what was fetched.
pub fn decode_response_text(raw: &str, content_type: Option<&str>) -> (r: String)
    ensures
        r@ == fetched_text(raw@, content_type.deep_view()),
        r@ == (if content_type is Some && text::has_text(content_type->0@, "html"@) {
            readable(tags_stripped(blanked(patterns::BLOCK_PATTERN@, raw@)))
        } else {
            text::collapsed(raw@)
        }),
{
    if says_html(content_type) {
        html_to_text(raw)
    } else {
        text::collapse_whitespace(raw)
    }
}

/// The title of a page whose markup for the title holds `inner`.
pub open spec fn title_of_markup(inner: Option<Seq<char>>) -> Option<Seq<char>> {
    match inner {
        Some(t) => {
            let cleaned = text::collapsed(tags_stripped(t));
            if cleaned.len() == 0 {
                None
            } else {
                Some(cleaned)
            }
        },
        None => None,
    }
}

/// The title of a page whose markup for the title holds `inner`.
pub fn clean_title(inner: Option<&str>) -> (r: Option<String>)
    ensures
        r.deep_view() == title_of_markup(inner.deep_view()),
{
    match inner {
        Some(t) => {
            let stripped = strip_tags(t);
            let cleaned = text::collapse_whitespace(stripped.as_str());
            if text::char_count(cleaned.as_str()) == 0 {
                None
            } else {
                Some(cleaned)
            }
        },
        None => None,
    }
}

/// The title of what was fetched.
pub open spec fn fetched_title(raw: Seq<char>, content_type: Option<Seq<char>>) -> Option<
    Seq<char>,
> {
    if is_html(content_type) {
        title_of_markup(patterns::regex_first_group(patterns::TITLE_PATTERN@, false, raw))
    } else {
        None
    }
}

/// The title of what was fetched.
pub fn extract_title(raw: &str, content_type: Option<&str>) -> (r: Option<String>)
    ensures
        r.deep_view() == fetched_title(raw@, content_type.deep_view()),
        r is Some ==> content_type is Some && text::has_text(content_type->0@, "html"@),
{
    if !says_html(content_type) {
        return None;
    }
    match patterns::compile(patterns::TITLE_PATTERN, false) {
        Some(regex) => {
            let inner = patterns::first_group(&regex, raw);
            let found = match &inner {
                Some(t) => Some(t.as_str()),
                None => None,
            };
            clean_title(found)
        },
        None => None,
    }
}

/// What is given of an answer. Of a page that was longer than is kept, the rest
/// is cut off.
pub open spec fn fetched_page(input: WebFetchInput, response: WebFetchResponse) -> WebPageModel {
    let limit = max_bytes_of(input.max_bytes);
    let truncated = response.body@.len() > limit;
    let body = if truncated {
        response.body@.take(limit)
    } else {
        response.body@
    };
    let raw = text::utf8_lossy(body);
    let content_type = response.content_type.deep_view();
    WebPageModel {
        url: input.url@,
        final_url: response.final_url@,
        status_code: response.status_code,
        status_text: response.status_text.deep_view(),
        content_type,
        title: fetched_title(raw, content_type),
        truncated,
        byte_count: body.len(),
        headers: if input.include_headers {
            Some(response.headers.deep_view())
        } else {
            None
        },
        text: fetched_text(raw, content_type),
    }
}

/// What is given of an answer.
pub fn web_fetch_output(input: &WebFetchInput, response: WebFetchResponse) -> (r: WebFetchOutput)
    ensures
        r.deep_view() == fetched_page(*input, response),
{
    let max_bytes = max_bytes_asked(input.max_bytes);
    let WebFetchResponse { final_url, status_code, status_text, content_type, headers, body } =
        response;
    let mut body = body;
    let truncated = body.len() > max_bytes;
    if truncated {
        body.truncate(max_bytes);
        assert(body@ =~= response.body@.take(max_bytes as int));
    }
    let raw = text::decode_lossy(&body);
    let known = match &content_type {
        Some(t) => Some(t.as_str()),
        None => None,
    };
    let page_text = decode_response_text(raw.as_str(), known);
    let title = extract_title(raw.as_str(), known);
    let headers = if input.include_headers {
        Some(headers)
    } else {
        None
    };
    WebFetchOutput {
        url: input.url.clone(),
        final_url,
        status_code,
        status_text,
        content_type,
        title,
        truncated,
        byte_count: body.len(),
        headers,
        text: page_text,
    }
}

// ---------------------------------------------------------------------------
// Laws

/// Where the longer name stands, the shorter one does too.
proof fn lemma_xhtml_is_html(t: Seq<char>)
    ensures
        text::has_text(t, "xhtml"@) ==> text::has_text(t, "html"@),
{
    if text::has_text(t, "xhtml"@) {
        let i = choose|i: int| text::occurs_at(t, "xhtml"@, i);
        reveal_strlit("xhtml");
        reveal_strlit("html");
        let found = t.subrange(i, i + 5);
        assert(t.subrange(i + 1, i + 5) =~= found.subrange(1, 5));
        assert(found.subrange(1, 5) =~= "html"@);
        assert(text::occurs_at(t, "html"@, i + 1));
    }
}

/// Whatever is served under a type that names HTML, with or without parameters,
/// is read as a page: its markup is taken off and its title is read.
pub proof fn lemma_html_is_read_as_page(t: Seq<char>, raw: Seq<char>)
    requires
        text::has_text(t, "html"@),
    ensures
        fetched_text(raw, Some(t)) == text::collapsed(
            entities_read(
                patterns::regex_replaced(
                    patterns::TAG_PATTERN@,
                    false,
                    patterns::regex_replaced(patterns::BLOCK_PATTERN@, false, raw, " "@),
                    " "@,
                ),
            ),
        ),
        match patterns::regex_first_group(patterns::TITLE_PATTERN@, false, raw) {
            None => fetched_title(raw, Some(t)) is None,
            Some(inner) => {
                let bare = text::collapsed(
                    patterns::regex_replaced(patterns::TAG_PATTERN@, false, inner, " "@),
                );
                fetched_title(raw, Some(t)) == (if bare.len() > 0 {
                    Some(bare)
                } else {
                    None
                })
            },
        },
{
}

/// Parameters of a type, or anything else around the name, change nothing.
pub proof fn lemma_type_parameters_do_not_matter(
    head: Seq<char>,
    tail: Seq<char>,
    raw: Seq<char>,
)
    ensures
        fetched_text(raw, Some(head + "html"@ + tail)) == fetched_text(raw, Some("text/html"@)),
        fetched_title(raw, Some(head + "html"@ + tail)) == fetched_title(raw, Some("text/html"@)),
{
    reveal_strlit("html");
    reveal_strlit("text/html");
    let t = head + "html"@ + tail;
    assert(t.subrange(head.len() as int, head.len() as int + 4) =~= "html"@);
    assert(text::occurs_at(t, "html"@, head.len() as int));
    assert("text/html"@.subrange(5, 9) =~= "html"@);
    assert(text::occurs_at("text/html"@, "html"@, 5));
}

/// Whatever is served under another type, or under none, is a text without a
/// title: only its white space is brought together.
pub proof fn lemma_other_types_are_plain(content_type: Option<Seq<char>>, raw: Seq<char>)
    requires
        content_type matches Some(t) ==> !text::has_text(t, "html"@),
    ensures
        fetched_text(raw, content_type) == text::joined(text::words(raw), seq![' ']),
        fetched_title(raw, content_type) is None,
{
    match content_type {
        Some(t) => lemma_xhtml_is_html(t),
        None => {},
    }
}

/// What is given of an answer: never more bytes than may be kept, all of them
/// where there are no more, and a note exactly where some were cut off. The text
/// and the title are those of the bytes that were kept.
pub proof fn lemma_page_is_given(input: WebFetchInput, response: WebFetchResponse)
    ensures
        ({
            let page = fetched_page(input, response);
            let limit = max_bytes_of(input.max_bytes);
            let len = response.body@.len();
            &&& page.url == input.url@
            &&& page.final_url == response.final_url@
            &&& page.status_code == response.status_code
            &&& page.content_type == response.content_type.deep_view()
            &&& page.truncated <==> len > limit
            &&& page.byte_count <= limit
            &&& len <= limit ==> page.byte_count == len && page.text == fetched_text(
                text::utf8_lossy(response.body@),
                response.content_type.deep_view(),
            ) && page.title == fetched_title(
                text::utf8_lossy(response.body@),
                response.content_type.deep_view(),
            )
            &&& len > limit ==> page.byte_count == limit && page.text == fetched_text(
                text::utf8_lossy(response.body@.subrange(0, limit)),
                response.content_type.deep_view(),
            ) && page.title == fetched_title(
                text::utf8_lossy(response.body@.subrange(0, limit)),
                response.content_type.deep_view(),
            )
            &&& page.headers is Some <==> input.include_headers
            &&& input.include_headers ==> page.headers == Some(response.headers.deep_view())
        }),
{
    let limit = max_bytes_of(input.max_bytes);
    if response.body@.len() > limit {
        assert(response.body@.take(limit) =~= response.body@.subrange(0, limit));
    }
}

/// What is asked for within the limits is what is done; beyond them the limit
/// is, and where nothing is asked for the usual measure.
pub proof fn lemma_limits_are_kept(seconds: Option<u64>, bytes: Option<usize>)
    ensures
        1 <= timeout_of(seconds) <= 60,
        1 <= max_bytes_of(bytes) <= 1_000_000,
        seconds is None ==> timeout_of(seconds) == 15,
        bytes is None ==> max_bytes_of(bytes) == 200_000,
        forall|n: u64| seconds == Some(n) && 1 <= n <= 60 ==> timeout_of(seconds) == n,
        forall|n: u64| seconds == Some(n) && n > 60 ==> timeout_of(seconds) == 60,
        forall|n: usize| bytes == Some(n) && 1 <= n <= 1_000_000 ==> max_bytes_of(bytes) == n,
        forall|n: usize| bytes == Some(n) && n > 1_000_000 ==> max_bytes_of(bytes) == 1_000_000,
{
}

/// Exactly the addresses whose scheme is `http` or `https` are fetched.
pub proof fn lemma_only_web_addresses_are_fetched(url: Seq<char>, scheme: Option<Seq<char>>)
    ensures
        address_problem(url, scheme) is None <==> (scheme == Some("http"@) || scheme == Some(
            "https"@,
        )),
{
}

/// The tool that fetches a page.
pub fn web_fetch_handler() -> (r: ToolHandler)
    ensures
        r@ == (HandlerModel {
            definition: registry::definition_of(
                "web_fetch"@,
                WEB_FETCH_DESCRIPTION@,
                WEB_FETCH_SCHEMA@,
            ),
            action: ToolAction::WebFetch,
        }),
{
    registry::new_handler("web_fetch", WEB_FETCH_DESCRIPTION, WEB_FETCH_SCHEMA, ToolAction::WebFetch)
}

/// A name of a character that stands in a text, in which no other `&` stands, is
/// read as the character.
pub proof fn lemma_names_stand_for_characters(before: Seq<char>, after: Seq<char>)
    requires
        !before.contains('&'),
        !after.contains('&'),
    ensures
        entities_read(before + "&nbsp;"@ + after) == before + " "@ + after,
        entities_read(before + "&lt;"@ + after) == before + "<"@ + after,
        entities_read(before + "&gt;"@ + after) == before + ">"@ + after,
        entities_read(before + "&quot;"@ + after) == before + "\""@ + after,
        entities_read(before + "&#39;"@ + after) == before + "'"@ + after,
        entities_read(before + after) == before + after,
{
    reveal_strlit("&nbsp;");
    reveal_strlit("&amp;");
    reveal_strlit("&lt;");
    reveal_strlit("&gt;");
    reveal_strlit("&quot;");
    reveal_strlit("&#39;");
    reveal_strlit(" ");
    reveal_strlit("<");
    reveal_strlit(">");
    reveal_strlit("\"");
    reveal_strlit("'");
    lemma_one_name(before, "&nbsp;"@, after);
    lemma_one_name(before, "&lt;"@, after);
    lemma_one_name(before, "&gt;"@, after);
    lemma_one_name(before, "&quot;"@, after);
    lemma_one_name(before, "&#39;"@, after);
    lemma_no_name(before + " "@ + after);
    lemma_no_name(before + "<"@ + after);
    lemma_no_name(before + ">"@ + after);
    lemma_no_name(before + "\""@ + after);
    lemma_no_name(before + "'"@ + after);
    lemma_no_name(before + after);
}

/// Where no `&` stands, nothing is replaced.
proof fn lemma_no_name(s: Seq<char>)
    ensures
        !s.contains('&') ==> forall|pat: Seq<char>, rep: Seq<char>|
            pat.len() > 0 && pat[0] == '&' ==> #[trigger] text::replaced(s, pat, rep) == s,
{
    if !s.contains('&') {
        assert forall|pat: Seq<char>, rep: Seq<char>|
            pat.len() > 0 && pat[0] == '&' implies #[trigger] text::replaced(s, pat, rep) == s by {
            if text::has_text(s, pat) {
                let i = choose|i: int| text::occurs_at(s, pat, i);
                assert(s.subrange(i, i + pat.len())[0] == s[i]);
                assert(s.contains('&'));
            }
            text::lemma_nothing_to_replace(s, pat, rep);
        }
    }
}

/// A single name is replaced by its own pattern, and left alone by any other of
/// which it is no beginning.
proof fn lemma_one_name(before: Seq<char>, name: Seq<char>, after: Seq<char>)
    requires
        !before.contains('&'),
        !after.contains('&'),
        name.len() > 1,
        name[0] == '&',
        forall|i: int| 1 <= i < name.len() ==> #[trigger] name[i] != '&',
    ensures
        forall|rep: Seq<char>| #[trigger]
            text::replaced(before + name + after, name, rep) == before + rep + after,
        forall|pat: Seq<char>, rep: Seq<char>|
            pat.len() > 1 && pat[0] == '&' && (pat[1] != name[1]) ==> #[trigger] text::replaced(
                before + name + after,
                pat,
                rep,
            ) == before + name + after,
{
    let s = before + name + after;
    let at = before.len() as int;
    assert forall|j: int| 0 <= j < s.len() && #[trigger] s[j] == '&' implies j == at by {
        if j < at {
            assert(before[j] == '&');
        } else if j >= at + name.len() {
            assert(after[j - at - name.len()] == '&');
        } else if j > at {
            assert(name[j - at] == '&');
        }
    }
    assert(s.subrange(at, at + name.len()) =~= name);
    assert(text::occurs_at(s, name, at));
    assert forall|j: int| 0 <= j < at implies !#[trigger] text::occurs_at(s, name, j) by {
        if text::occurs_at(s, name, j) {
            assert(s.subrange(j, j + name.len())[0] == s[j]);
        }
    }
    assert(s.take(at) =~= before);
    assert(s.skip(at + name.len()) =~= after);
    lemma_no_name(after);
    assert forall|rep: Seq<char>| #[trigger] text::replaced(s, name, rep) == before + rep
        + after by {
        text::lemma_first_is_replaced(s, name, rep, at);
        assert(text::replaced(after, name, rep) == after);
    }
    assert forall|pat: Seq<char>, rep: Seq<char>|
        pat.len() > 1 && pat[0] == '&' && (pat[1] != name[1]) implies #[trigger] text::replaced(
        s,
        pat,
        rep,
    ) == s by {
        if text::has_text(s, pat) {
            let i = choose|i: int| text::occurs_at(s, pat, i);
            let found = s.subrange(i, i + pat.len());
            assert(found[0] == s[i]);
            assert(i == at);
            assert(found[1] == s[i + 1]);
            assert(s[at + 1] == name[1]);
        }
        text::lemma_nothing_to_replace(s, pat, rep);
    }
}

} // verus!
