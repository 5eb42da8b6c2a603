//! What the publishing tools share: what is to be done, and what the answers of
//! the service mean.
use crate::text;
use vstd::prelude::*;

verus! {

/// Where it is asked whether the account is known.
pub const USER_URL: &'static str = "https://api.github.com/user";

/// Whether something new is published or something old changed.
#[derive(Debug, Clone, Copy, PartialEq, Eq, Structural)]
pub enum PublishAction {
    Publish,
    Update,
}

/// What is said once it is done.
pub open spec fn done_note(action: PublishAction, path: Seq<char>) -> Seq<char> {
    match action {
        PublishAction::Publish => "published "@ + path,
        PublishAction::Update => "updated "@ + path,
    }
}

/// What is said once it is done.
pub fn publish_note(action: PublishAction, path: &str) -> (r: String)
    ensures
        r@ == done_note(action, path@),
{
    match action {
        PublishAction::Publish => text::concat("published ", path),
        PublishAction::Update => text::concat("updated ", path),
    }
}

/// An answer of the service: its status, the status as it is shown, and the
/// text, if it could be read.
#[derive(Debug)]
pub struct HttpReply {
    pub status: u16,
    pub status_text: String,
    pub body: Option<String>,
}

/// The status says that all is well.
pub open spec fn is_success(status: u16) -> bool {
    200 <= status < 300
}

impl HttpReply {
    /// Whether all is well.
    pub fn succeeded(&self) -> (r: bool)
        ensures
            r == is_success(self.status),
    {
        200 <= self.status && self.status < 300
    }

    /// The text that is shown.
    pub open spec fn shown_body(self) -> Seq<char> {
        match self.body {
            Some(s) => s@,
            None => "<no body>"@,
        }
    }

    /// The text that is shown.
    pub fn body_text(&self) -> (r: &str)
        ensures
            r@ == self.shown_body(),
    {
        match &self.body {
            Some(s) => s.as_str(),
            None => "<no body>",
        }
    }
}

/// Something failed, with the status and the text that came back.
pub open spec fn failure_text(what: Seq<char>, reply: HttpReply) -> Seq<char> {
    what + " ("@ + reply.status_text@ + "): "@ + reply.shown_body()
}

/// Something failed, with the status and the text that came back.
pub fn failure(what: &str, reply: &HttpReply) -> (r: String)
    ensures
        r@ == failure_text(what@, *reply),
{
    let mut e = text::concat3(what, " (", reply.status_text.as_str());
    e.append("): ");
    e.append(reply.body_text());
    e
}

/// Accepts the answer to the question whether the account is known.
pub fn check_auth(reply: &HttpReply) -> (r: Result<(), String>)
    ensures
        match r {
            Ok(_) => is_success(reply.status),
            Err(e) => !is_success(reply.status) && e@ == "GitHub auth failed with status "@
                + reply.status_text@
                + ". Ensure GITHUB_USERNAME and GITHUB_PASSWORD are valid."@,
        },
{
    if reply.succeeded() {
        Ok(())
    } else {
        Err(
            text::concat3(
                "GitHub auth failed with status ",
                reply.status_text.as_str(),
                ". Ensure GITHUB_USERNAME and GITHUB_PASSWORD are valid.",
            ),
        )
    }
}

/// An answer of the service is a success exactly where its status is one of the
/// two hundreds; a failure says what failed, the status and what came back.
pub proof fn lemma_answers_of_the_service(what: Seq<char>, reply: HttpReply)
    ensures
        is_success(reply.status) <==> 200 <= reply.status <= 299,
        reply.body is Some ==> failure_text(what, reply) == what + " ("@ + reply.status_text@
            + "): "@ + reply.body->0@,
        reply.body is None ==> failure_text(what, reply) == what + " ("@ + reply.status_text@
            + "): "@ + "<no body>"@,
{
}

/// What was done is said with where it was done.
pub proof fn lemma_what_was_done_is_said(path: Seq<char>)
    ensures
        done_note(PublishAction::Publish, path) == "published "@ + path,
        done_note(PublishAction::Update, path) == "updated "@ + path,
{
}

} // verus!
