//! Publishing posts to the pages of an account.
use crate::config::GithubConfig;
use crate::encoding;
use crate::json::{Json, JsonModel};
use crate::paths;
use crate::text;
use crate::tools::github;
use crate::tools::github::{HttpReply, PublishAction};
use crate::tools::registry;
use crate::tools::registry::{HandlerModel, ToolAction, ToolHandler};
use vstd::prelude::*;

verus! {

pub const PAGES_DESCRIPTION: &'static str = "Publish or update a markdown blog post in GitHub Pages under posts/*.md only";

pub const PAGES_SCHEMA: &'static str = r#"{
  "type": "object",
  "properties": {
    "action": {
      "type": "string",
      "enum": ["publish", "update"],
      "description": "publish creates a new post; update modifies an existing post"
    },
    "path": {
      "type": "string",
      "description": "Path in Pages repo, must match posts/*.md"
    },
    "file": {
      "type": "string",
      "description": "Local markdown file path to upload"
    },
    "message": {
      "type": "string",
      "description": "Optional commit message"
    }
  },
  "required": ["action", "path", "file"],
  "additionalProperties": false
}"#;

/// What is wrong with the path of a post: only what lies below the directory of
/// the posts and ends as a post does is accepted.
pub open spec fn blog_path_problem(path: Seq<char>) -> Option<Seq<char>> {
    if text::begins_with(path, "/"@) || text::has_text(path, ".."@) {
        Some("invalid blog path: absolute paths and '..' are not allowed"@)
    } else if !text::begins_with(path, "posts/"@) || !text::finishes_with(path, ".md"@) {
        Some("path must match posts/*.md for strict permission control"@)
    } else {
        None
    }
}

/// Accepts the path of a post, or says what is wrong with it.
pub fn validate_blog_path(path: &str) -> (r: Result<(), String>)
    ensures
        match r {
            Ok(_) => blog_path_problem(path@) is None,
            Err(e) => blog_path_problem(path@) == Some(e@),
        },
{
    if text::starts_with(path, "/") || text::contains(path, "..") {
        return Err(text::owned("invalid blog path: absolute paths and '..' are not allowed"));
    }
    if !text::starts_with(path, "posts/") || !text::ends_with(path, ".md") {
        return Err(text::owned("path must match posts/*.md for strict permission control"));
    }
    Ok(())
}

/// The message of a change where none is given.
pub open spec fn post_message(action: PublishAction, message: Option<Seq<char>>) -> Seq<char> {
    match message {
        Some(m) => m,
        None => match action {
            PublishAction::Publish => "publish blog post"@,
            PublishAction::Update => "update blog post"@,
        },
    }
}

/// The message of a change.
pub fn message_or_default(action: PublishAction, message: Option<String>) -> (r: String)
    ensures
        r@ == post_message(action, message.deep_view()),
{
    match message {
        Some(m) => m,
        None => match action {
            PublishAction::Publish => text::owned("publish blog post"),
            PublishAction::Update => text::owned("update blog post"),
        },
    }
}

/// A file that is to be put into the repository.
#[derive(Debug)]
pub struct PutFileRequest {
    pub url: String,
    pub message: String,
    pub content: String,
    pub branch: String,
    pub sha: Option<String>,
}

/// A file that is to be put into the repository.
#[verifier::ext_equal]
pub struct PutModel {
    pub url: Seq<char>,
    pub message: Seq<char>,
    pub content: Seq<char>,
    pub branch: Seq<char>,
    pub sha: Option<Seq<char>>,
}

impl DeepView for PutFileRequest {
    type V = PutModel;

    open spec fn deep_view(&self) -> PutModel {
        PutModel {
            url: self.url@,
            message: self.message@,
            content: self.content@,
            branch: self.branch@,
            sha: self.sha.deep_view(),
        }
    }
}

impl PutModel {
    /// What is sent: the version that is replaced is only named if there is one.
    pub open spec fn body(self) -> JsonModel {
        let plain = JsonModel::empty_object().with("message"@, JsonModel::Text(self.message)).with(
            "content"@,
            JsonModel::Text(self.content),
        ).with("branch"@, JsonModel::Text(self.branch));
        match self.sha {
            Some(sha) => plain.with("sha"@, JsonModel::Text(sha)),
            None => plain,
        }
    }
}

impl PutFileRequest {
    /// What is sent.
    pub fn to_json(&self) -> (r: Json)
        ensures
            r@ == self.deep_view().body(),
    {
        let plain = Json::empty_object().with("message", Json::text(self.message.as_str())).with(
            "content",
            Json::text(self.content.as_str()),
        ).with("branch", Json::text(self.branch.as_str()));
        match &self.sha {
            Some(sha) => plain.with("sha", Json::text(sha.as_str())),
            None => plain,
        }
    }
}

/// Where a file of the repository is reached.
pub open spec fn url_of_contents(owner: Seq<char>, repo: Seq<char>, path: Seq<char>) -> Seq<char> {
    "https://api.github.com/repos/"@ + owner + "/"@ + repo + "/contents/"@ + path
}

/// The version of a file by the answer to the question for it: none if there is
/// no such file. `sha` is the version that the text of the answer names, if it
/// names one.
pub open spec fn version_in_reply(
    reply: HttpReply,
    sha: Option<Seq<char>>,
) -> Result<Option<Seq<char>>, Seq<char>> {
    if reply.status == 404 {
        Ok(None)
    } else if !github::is_success(reply.status) {
        Err(github::failure_text("GitHub query failed"@, reply))
    } else {
        match sha {
            Some(found) => Ok(Some(found)),
            None => Err("failed to parse GitHub content response"@),
        }
    }
}

/// A post is put into the repository: a new one only where there is none, a
/// changed one only where there is one. `content` is what the local file holds,
/// if it could be read.
pub open spec fn post_request(
    cfg: GithubConfig,
    action: PublishAction,
    path: Seq<char>,
    local_file: Seq<char>,
    content: Option<Seq<char>>,
    message: Seq<char>,
    existing: Option<Seq<char>>,
) -> Result<PutModel, Seq<char>> {
    match blog_path_problem(path) {
        Some(e) => Err(e),
        None => match (action, existing) {
            (PublishAction::Publish, Some(_)) => Err(
                "publish only creates new posts: "@ + path
                    + " already exists. Use update instead."@,
            ),
            (PublishAction::Update, None) => Err(
                "update only modifies existing posts: "@ + path
                    + " does not exist. Use publish first."@,
            ),
            _ => match content {
                None => Err("failed to read local file: "@ + local_file),
                Some(c) => Ok(
                    PutModel {
                        url: url_of_contents(cfg.owner@, cfg.repo@, path),
                        message,
                        content: encoding::base64_text(vstd::utf8::encode_utf8(c)),
                        branch: cfg.branch@,
                        sha: existing,
                    },
                ),
            },
        },
    }
}

/// Reading the content of a request gives the local file back.
pub open spec fn holds_file(q: PutFileRequest, content: Option<Seq<char>>) -> bool {
    content matches Some(c) && encoding::base64_bytes(q.content@) == Some(
        vstd::utf8::encode_utf8(c),
    )
}

/// The outcome by its texts.
pub open spec fn put_view(r: Result<PutFileRequest, String>) -> Result<PutModel, Seq<char>> {
    match r {
        Ok(q) => Ok(q.deep_view()),
        Err(e) => Err(e@),
    }
}

/// What is sent to the service, and what its answers mean.
#[derive(Debug)]
pub struct GithubPagesClient {
    pub cfg: GithubConfig,
}

impl GithubPagesClient {
    pub fn new(cfg: GithubConfig) -> (r: GithubPagesClient)
        ensures
            r.cfg == cfg,
    {
        GithubPagesClient { cfg }
    }

    /// Accepts the answer to the question whether the account is known.
    pub fn auth_check(&self, reply: &HttpReply) -> (r: Result<(), String>)
        ensures
            match r {
                Ok(_) => github::is_success(reply.status),
                Err(e) => !github::is_success(reply.status) && e@
                    == "GitHub auth failed with status "@ + reply.status_text@
                    + ". Ensure GITHUB_USERNAME and GITHUB_PASSWORD are valid."@,
            },
    {
        github::check_auth(reply)
    }

    /// Where a file of the repository is reached.
    pub fn contents_url(&self, repo_path: &str) -> (r: String)
        ensures
            r@ == url_of_contents(self.cfg.owner@, self.cfg.repo@, repo_path@),
    {
        let mut r = text::concat3("https://api.github.com/repos/", self.cfg.owner.as_str(), "/");
        r.append(self.cfg.repo.as_str());
        r.append("/contents/");
        r.append(repo_path);
        r
    }

    /// The version of a file by the answer to the question for it, and by the
    /// version that the text of the answer names.
    pub fn fetch_existing_sha(&self, reply: &HttpReply, sha: Option<String>) -> (r: Result<
        Option<String>,
        String,
    >)
        ensures
            match r {
                Ok(found) => version_in_reply(*reply, sha.deep_view()) == Ok::<
                    Option<Seq<char>>,
                    Seq<char>,
                >(found.deep_view()),
                Err(e) => version_in_reply(*reply, sha.deep_view()) == Err::<
                    Option<Seq<char>>,
                    Seq<char>,
                >(e@),
            },
    {
        if reply.status == 404 {
            return Ok(None);
        }
        if !reply.succeeded() {
            return Err(github::failure("GitHub query failed", reply));
        }
        match sha {
            Some(found) => Ok(Some(found)),
            None => Err(text::owned("failed to parse GitHub content response")),
        }
    }

    fn put_file(
        &self,
        repo_path: &str,
        local_file: &str,
        content: Option<&str>,
        message: &str,
        sha: Option<String>,
    ) -> (r: Result<PutFileRequest, String>)
        ensures
            match content {
                None => r matches Err(e) && e@ == "failed to read local file: "@ + local_file@,
                Some(c) => r matches Ok(q) && q.deep_view() == (PutModel {
                    url: url_of_contents(self.cfg.owner@, self.cfg.repo@, repo_path@),
                    message: message@,
                    content: encoding::base64_text(vstd::utf8::encode_utf8(c@)),
                    branch: self.cfg.branch@,
                    sha: sha.deep_view(),
                }),
            },
            r matches Ok(q) ==> holds_file(q, content.deep_view()),
    {
        match content {
            None => Err(text::concat("failed to read local file: ", local_file)),
            Some(c) => Ok(
                PutFileRequest {
                    url: self.contents_url(repo_path),
                    message: text::owned(message),
                    content: encoding::encode_base64(c.as_bytes()),
                    branch: self.cfg.branch.clone(),
                    sha,
                },
            ),
        }
    }

    /// The request that puts a new post into the repository.
    pub fn publish_post(
        &self,
        repo_path: &str,
        local_file: &str,
        content: Option<&str>,
        message: &str,
        existing: Option<String>,
    ) -> (r: Result<PutFileRequest, String>)
        ensures
            put_view(r) == post_request(
                self.cfg,
                PublishAction::Publish,
                repo_path@,
                local_file@,
                content.deep_view(),
                message@,
                existing.deep_view(),
            ),
            r matches Ok(q) ==> holds_file(q, content.deep_view()),
    {
        match validate_blog_path(repo_path) {
            Ok(_) => {},
            Err(e) => {
                return Err(e);
            },
        }
        match existing {
            Some(_) => Err(
                text::concat3(
                    "publish only creates new posts: ",
                    repo_path,
                    " already exists. Use update instead.",
                ),
            ),
            None => self.put_file(repo_path, local_file, content, message, None),
        }
    }

    /// The request that changes a post of the repository.
    pub fn update_post(
        &self,
        repo_path: &str,
        local_file: &str,
        content: Option<&str>,
        message: &str,
        existing: Option<String>,
    ) -> (r: Result<PutFileRequest, String>)
        ensures
            put_view(r) == post_request(
                self.cfg,
                PublishAction::Update,
                repo_path@,
                local_file@,
                content.deep_view(),
                message@,
                existing.deep_view(),
            ),
            r matches Ok(q) ==> holds_file(q, content.deep_view()),
    {
        match validate_blog_path(repo_path) {
            Ok(_) => {},
            Err(e) => {
                return Err(e);
            },
        }
        match existing {
            None => Err(
                text::concat3(
                    "update only modifies existing posts: ",
                    repo_path,
                    " does not exist. Use publish first.",
                ),
            ),
            Some(sha) => self.put_file(repo_path, local_file, content, message, Some(sha)),
        }
    }

    /// Accepts the answer to a file that was put into the repository.
    pub fn check_put(&self, reply: &HttpReply) -> (r: Result<(), String>)
        ensures
            match r {
                Ok(_) => github::is_success(reply.status),
                Err(e) => !github::is_success(reply.status) && e@ == github::failure_text(
                    "GitHub Pages publish failed"@,
                    *reply,
                ),
            },
    {
        if reply.succeeded() {
            Ok(())
        } else {
            Err(github::failure("GitHub Pages publish failed", reply))
        }
    }
}

/// Nothing outside the directory of the posts is ever written, and the path
/// leads to no parent directory.
pub proof fn lemma_only_posts_are_written(
    cfg: GithubConfig,
    action: PublishAction,
    path: Seq<char>,
    local_file: Seq<char>,
    content: Option<Seq<char>>,
    message: Seq<char>,
    existing: Option<Seq<char>>,
)
    requires
        post_request(cfg, action, path, local_file, content, message, existing) is Ok,
    ensures
        text::begins_with(path, "posts/"@),
        text::finishes_with(path, ".md"@),
        !paths::climbs(path),
        post_request(cfg, action, path, local_file, content, message, existing)->Ok_0.url == url_of_contents(
            cfg.owner@,
            cfg.repo@,
            path,
        ),
{
    paths::lemma_no_dots_no_climbing(path);
}

/// A new post never takes the place of an old one, and a change always names
/// the version that it replaces.
pub proof fn lemma_posts_are_not_overwritten(
    cfg: GithubConfig,
    path: Seq<char>,
    local_file: Seq<char>,
    content: Option<Seq<char>>,
    message: Seq<char>,
    sha: Seq<char>,
)
    ensures
        post_request(cfg, PublishAction::Publish, path, local_file, content, message, Some(sha)) is Err,
        post_request(cfg, PublishAction::Update, path, local_file, content, message, None) is Err,
        post_request(cfg, PublishAction::Update, path, local_file, content, message, Some(sha)) matches Ok(q)
            ==> q.sha == Some(sha),
        post_request(cfg, PublishAction::Publish, path, local_file, content, message, None) matches Ok(q)
            ==> q.sha is None,
{
}

/// The tool that publishes posts.
pub fn github_pages_publish_handler() -> (r: ToolHandler)
    ensures
        r@ == (HandlerModel {
            definition: registry::definition_of(
                "github_pages_publish"@,
                PAGES_DESCRIPTION@,
                PAGES_SCHEMA@,
            ),
            action: ToolAction::GithubPagesPublish,
        }),
{
    registry::new_handler(
        "github_pages_publish",
        PAGES_DESCRIPTION,
        PAGES_SCHEMA,
        ToolAction::GithubPagesPublish,
    )
}

/// A path is accepted exactly where it names a Markdown file below `posts/` and
/// holds no two dots in a row.
pub proof fn lemma_which_posts_are_accepted(path: Seq<char>)
    ensures
        blog_path_problem(path) is None <==> text::begins_with(path, "posts/"@)
            && text::finishes_with(path, ".md"@) && !text::has_text(path, ".."@),
{
    reveal_strlit("posts/");
    reveal_strlit("/");
    if text::begins_with(path, "posts/"@) && text::begins_with(path, "/"@) {
        assert(path.take(6)[0] == path[0]);
        assert(path.take(1)[0] == path[0]);
    }
}

/// What is sent for an accepted post: the file in Base64, with the message, to
/// the branch and the repository of the account, and with the version that it
/// replaces.
pub proof fn lemma_post_is_sent(
    cfg: GithubConfig,
    path: Seq<char>,
    local_file: Seq<char>,
    content: Seq<char>,
    message: Seq<char>,
    sha: Seq<char>,
)
    requires
        text::begins_with(path, "posts/"@),
        text::finishes_with(path, ".md"@),
        !text::has_text(path, ".."@),
    ensures
        ({
            let sent = PutModel {
                url: "https://api.github.com/repos/"@ + cfg.owner@ + "/"@ + cfg.repo@
                    + "/contents/"@ + path,
                message,
                content: encoding::base64_text(vstd::utf8::encode_utf8(content)),
                branch: cfg.branch@,
                sha: None,
            };
            &&& post_request(
                cfg,
                PublishAction::Publish,
                path,
                local_file,
                Some(content),
                message,
                None,
            ) == Ok::<PutModel, Seq<char>>(sent)
            &&& post_request(
                cfg,
                PublishAction::Update,
                path,
                local_file,
                Some(content),
                message,
                Some(sha),
            ) == Ok::<PutModel, Seq<char>>(PutModel { sha: Some(sha), ..sent })
            &&& post_request(
                cfg,
                PublishAction::Publish,
                path,
                local_file,
                None,
                message,
                None,
            ) is Err
        }),
{
    lemma_which_posts_are_accepted(path);
}

/// The body of a request says what is sent, and names a version only where one is
/// replaced.
pub proof fn lemma_request_body_is_complete(q: PutModel)
    ensures
        q.body().text_at("message"@) == Some(q.message),
        q.body().text_at("content"@) == Some(q.content),
        q.body().text_at("branch"@) == Some(q.branch),
        q.body().text_at("sha"@) == q.sha,
        q.sha is None ==> q.body().get("sha"@) is None,
{
    reveal_strlit("message");
    reveal_strlit("content");
    reveal_strlit("branch");
    reveal_strlit("sha");
    assert("message"@[0] != "content"@[0]);
    assert("message"@.len() != "branch"@.len());
    assert("message"@.len() != "sha"@.len());
    assert("content"@.len() != "branch"@.len());
    assert("content"@.len() != "sha"@.len());
    assert("branch"@.len() != "sha"@.len());
    let e = JsonModel::empty_object();
    let b1 = e.with("message"@, JsonModel::Text(q.message));
    let b2 = b1.with("content"@, JsonModel::Text(q.content));
    let b3 = b2.with("branch"@, JsonModel::Text(q.branch));
    crate::json::lemma_with_is_read(e, "message"@, JsonModel::Text(q.message));
    crate::json::lemma_with_is_read(b1, "content"@, JsonModel::Text(q.content));
    crate::json::lemma_with_is_read(b2, "branch"@, JsonModel::Text(q.branch));
    assert(e.get("sha"@) is None);
    match q.sha {
        Some(sha) => crate::json::lemma_with_is_read(b3, "sha"@, JsonModel::Text(sha)),
        None => {},
    }
}

/// A file that the service does not know has no version; one that it knows has
/// the version that it names; any other answer is a failure.
pub proof fn lemma_version_is_read(reply: HttpReply, sha: Seq<char>)
    ensures
        reply.status == 404 ==> version_in_reply(reply, Some(sha)) == Ok::<
            Option<Seq<char>>,
            Seq<char>,
        >(None),
        200 <= reply.status < 300 ==> version_in_reply(reply, Some(sha)) == Ok::<
            Option<Seq<char>>,
            Seq<char>,
        >(Some(sha)),
        200 <= reply.status < 300 ==> version_in_reply(reply, None) is Err,
        reply.status != 404 && !(200 <= reply.status < 300) ==> version_in_reply(
            reply,
            Some(sha),
        ) is Err,
{
}

/// The message of a change is the one that was given, or else says what was
/// done.
pub proof fn lemma_message_of_change(action: PublishAction, message: Seq<char>)
    ensures
        post_message(action, Some(message)) == message,
        post_message(PublishAction::Publish, None) == "publish blog post"@,
        post_message(PublishAction::Update, None) == "update blog post"@,
{
}

} // verus!
