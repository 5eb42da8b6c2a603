//! Publishing pages to the wiki of a repository: what is accepted, and the steps
//! by which a page gets there.
use crate::config::GithubConfig;
use crate::paths;
use crate::text;
use crate::tools::github;
use crate::tools::github::{HttpReply, PublishAction};
use crate::tools::registry;
use crate::tools::registry::{HandlerModel, ToolAction, ToolHandler};
use vstd::prelude::*;

verus! {

pub const WIKI_DESCRIPTION: &'static str = "Publish or update a markdown page in the repository wiki from either a local file or direct markdown content";

pub const WIKI_SCHEMA: &'static str = r#"{
  "type": "object",
  "properties": {
    "action": {
      "type": "string",
      "enum": ["publish", "update"],
      "description": "publish creates a new page; update modifies an existing page"
    },
    "path": {
      "type": "string",
      "description": "Path in wiki repo, must be a relative *.md path"
    },
    "file": {
      "type": "string",
      "description": "Local markdown file path to upload. Optional when content is provided."
    },
    "content": {
      "type": "string",
      "description": "Markdown content to write directly into the wiki page. Use this when no local file is needed."
    },
    "message": {
      "type": "string",
      "description": "Optional commit message"
    }
  },
  "required": ["action", "path"],
  "anyOf": [
    {"required": ["file"]},
    {"required": ["content"]}
  ],
  "additionalProperties": false
}"#;

// ---------------------------------------------------------------------------
// What is accepted

/// What is wrong with the path of a page.
pub open spec fn wiki_path_problem(path: Seq<char>) -> Option<Seq<char>> {
    if text::begins_with(path, "/"@) || text::has_text(path, ".."@) {
        Some("invalid wiki path: absolute paths and '..' are not allowed"@)
    } else if !text::finishes_with(path, ".md"@) {
        Some("path must be a markdown file ending with .md"@)
    } else {
        None
    }
}

/// Accepts the path of a page, or says what is wrong with it.
pub fn validate_wiki_path(path: &str) -> (r: Result<(), String>)
    ensures
        match r {
            Ok(_) => wiki_path_problem(path@) is None,
            Err(e) => wiki_path_problem(path@) == Some(e@),
        },
{
    if text::starts_with(path, "/") || text::contains(path, "..") {
        return Err(text::owned("invalid wiki path: absolute paths and '..' are not allowed"));
    }
    if !text::ends_with(path, ".md") {
        return Err(text::owned("path must be a markdown file ending with .md"));
    }
    Ok(())
}

/// A page whose path is accepted lies in the copy of the wiki, and its path
/// leads to no parent directory.
pub proof fn lemma_page_lies_in_wiki(workspace: Seq<char>, path: Seq<char>)
    requires
        wiki_path_problem(path) is None,
    ensures
        !paths::is_absolute(path),
        !paths::climbs(path),
        paths::is_within(workspace, paths::path_joined(workspace, path)),
{
    reveal_strlit("/");
    if paths::is_absolute(path) {
        assert(path.take(1) =~= "/"@);
    }
    paths::lemma_no_dots_no_climbing(path);
    paths::lemma_joined_path_lies_within(workspace, path);
}

/// What is wrong with a local file. `is_file` says whether it is a regular one,
/// if anything is known of it.
pub open spec fn local_file_problem(path: Seq<char>, is_file: Option<bool>) -> Option<Seq<char>> {
    match is_file {
        None => Some("failed to stat local file: "@ + path),
        Some(regular) => if regular {
            None
        } else {
            Some("local path must point to a file: "@ + path)
        },
    }
}

/// Accepts a local file, or says what is wrong with it.
pub fn ensure_local_file(path: &str, is_file: Option<bool>) -> (r: Result<(), String>)
    ensures
        match r {
            Ok(_) => local_file_problem(path@, is_file) is None,
            Err(e) => local_file_problem(path@, is_file) == Some(e@),
        },
{
    match is_file {
        None => Err(text::concat("failed to stat local file: ", path)),
        Some(regular) => if regular {
            Ok(())
        } else {
            Err(text::concat("local path must point to a file: ", path))
        },
    }
}

/// Where the text of a page comes from.
#[derive(Debug)]
pub enum PublishSource {
    File(String),
    Content(String),
}

/// Where the text of a page comes from.
#[verifier::ext_equal]
pub enum SourceModel {
    File(Seq<char>),
    Content(Seq<char>),
}

impl DeepView for PublishSource {
    type V = SourceModel;

    open spec fn deep_view(&self) -> SourceModel {
        match self {
            PublishSource::File(s) => SourceModel::File(s@),
            PublishSource::Content(s) => SourceModel::Content(s@),
        }
    }
}

/// Where the text of a page comes from: a local file goes before a text.
pub open spec fn source_of(
    file: Option<Seq<char>>,
    content: Option<Seq<char>>,
    is_file: Option<bool>,
) -> Result<SourceModel, Seq<char>> {
    match (file, content) {
        (Some(f), _) => match local_file_problem(f, is_file) {
            Some(e) => Err(e),
            None => Ok(SourceModel::File(f)),
        },
        (None, Some(c)) => Ok(SourceModel::Content(c)),
        (None, None) => Err("github_wiki_publish requires either file or content"@),
    }
}

/// Where the text of a page comes from.
pub fn resolve_source(file: Option<&str>, content: Option<&str>, is_file: Option<bool>) -> (r:
    Result<PublishSource, String>)
    ensures
        match r {
            Ok(s) => source_of(file.deep_view(), content.deep_view(), is_file) == Ok::<
                SourceModel,
                Seq<char>,
            >(s.deep_view()),
            Err(e) => source_of(file.deep_view(), content.deep_view(), is_file) == Err::<
                SourceModel,
                Seq<char>,
            >(e@),
        },
{
    match file {
        Some(f) => match ensure_local_file(f, is_file) {
            Ok(_) => Ok(PublishSource::File(text::owned(f))),
            Err(e) => Err(e),
        },
        None => match content {
            Some(c) => Ok(PublishSource::Content(text::owned(c))),
            None => Err(text::owned("github_wiki_publish requires either file or content")),
        },
    }
}

/// The message of a change where none is given.
pub open spec fn page_message(action: PublishAction, message: Option<Seq<char>>) -> Seq<char> {
    match message {
        Some(m) => m,
        None => match action {
            PublishAction::Publish => "publish wiki page"@,
            PublishAction::Update => "update wiki page"@,
        },
    }
}

/// The message of a change.
pub fn message_or_default(action: PublishAction, message: Option<String>) -> (r: String)
    ensures
        r@ == page_message(action, message.deep_view()),
{
    match message {
        Some(m) => m,
        None => match action {
            PublishAction::Publish => text::owned("publish wiki page"),
            PublishAction::Update => text::owned("update wiki page"),
        },
    }
}

// ---------------------------------------------------------------------------
// The steps

/// What a program that was run has left behind.
#[derive(Debug)]
pub struct GitOutcome {
    pub success: bool,
    pub stdout: String,
    pub stderr: String,
}

/// What is to be done next.
#[derive(Debug)]
pub enum WikiStep {
    /// Run the program in a directory. What to say if it cannot be run or fails.
    Git { dir: String, args: Vec<String>, context: String },
    /// See whether there is a file.
    Look(String),
    /// Copy a local file.
    Copy { from: String, to: String },
    /// Write a text.
    Write { to: String, content: String },
    /// All is done.
    Done,
}

/// What is to be done next.
#[verifier::ext_equal]
pub enum WikiStepModel {
    Git(Seq<char>, Seq<Seq<char>>, Seq<char>),
    Look(Seq<char>),
    Copy(Seq<char>, Seq<char>),
    Write(Seq<char>, Seq<char>),
    Done,
}

impl DeepView for WikiStep {
    type V = WikiStepModel;

    open spec fn deep_view(&self) -> WikiStepModel {
        match self {
            WikiStep::Git { dir, args, context } => WikiStepModel::Git(
                dir@,
                args.deep_view(),
                context@,
            ),
            WikiStep::Look(p) => WikiStepModel::Look(p@),
            WikiStep::Copy { from, to } => WikiStepModel::Copy(from@, to@),
            WikiStep::Write { to, content } => WikiStepModel::Write(to@, content@),
            WikiStep::Done => WikiStepModel::Done,
        }
    }
}

/// How far the publication of a page is.
#[derive(Debug, Clone, Copy, PartialEq, Eq, Structural)]
pub enum WikiPhase {
    Clone,
    Look,
    Write,
    Stage,
    Commit,
    Push,
    Done,
}

/// The publication of a page.
#[derive(Debug)]
pub struct WikiPublication {
    action: PublishAction,
    remote: String,
    username: String,
    workspace: String,
    wiki_path: String,
    source: PublishSource,
    message: String,
    phase: WikiPhase,
}

/// The publication of a page.
#[verifier::ext_equal]
pub struct WikiModel {
    pub action: PublishAction,
    pub remote: Seq<char>,
    pub username: Seq<char>,
    pub workspace: Seq<char>,
    pub wiki_path: Seq<char>,
    pub source: SourceModel,
    pub message: Seq<char>,
    pub phase: WikiPhase,
}

impl View for WikiPublication {
    type V = WikiModel;

    closed spec fn view(&self) -> WikiModel {
        WikiModel {
            action: self.action,
            remote: self.remote@,
            username: self.username@,
            workspace: self.workspace@,
            wiki_path: self.wiki_path@,
            source: self.source.deep_view(),
            message: self.message@,
            phase: self.phase,
        }
    }
}

/// Where the page lies in the copy of the wiki.
pub open spec fn page_target(w: WikiModel) -> Seq<char> {
    paths::path_joined(w.workspace, w.wiki_path)
}

/// The program's arguments for a change: who makes it, and why.
pub open spec fn commit_args(username: Seq<char>, message: Seq<char>) -> Seq<Seq<char>> {
    seq![
        "-c"@,
        "user.name="@ + username,
        "-c"@,
        "user.email="@ + username + "@users.noreply.github.com"@,
        "commit"@,
        "-m"@,
        message,
    ]
}

/// What is to be done next.
pub open spec fn wiki_step(w: WikiModel) -> WikiStepModel {
    match w.phase {
        WikiPhase::Clone => WikiStepModel::Git(
            "."@,
            seq!["clone"@, w.remote, w.workspace],
            "failed to clone wiki repository"@,
        ),
        WikiPhase::Look => WikiStepModel::Look(page_target(w)),
        WikiPhase::Write => match w.source {
            SourceModel::File(f) => WikiStepModel::Copy(f, page_target(w)),
            SourceModel::Content(c) => WikiStepModel::Write(page_target(w), c),
        },
        WikiPhase::Stage => WikiStepModel::Git(
            w.workspace,
            seq!["add"@, w.wiki_path],
            "failed to stage wiki file"@,
        ),
        WikiPhase::Commit => WikiStepModel::Git(
            w.workspace,
            commit_args(w.username, w.message),
            "failed to run git commit"@,
        ),
        WikiPhase::Push => WikiStepModel::Git(
            w.workspace,
            seq!["push"@, "origin"@, "master"@],
            "failed to push wiki changes"@,
        ),
        WikiPhase::Done => WikiStepModel::Done,
    }
}

/// What a program that failed is said to have done.
pub open spec fn git_failure(context: Seq<char>, stdout: Seq<char>, stderr: Seq<char>) -> Seq<
    char,
> {
    let said = context + ": "@ + text::trimmed(stdout);
    if text::is_blank(stderr) {
        said
    } else {
        said + " "@ + text::trimmed(stderr)
    }
}

/// The publication once the program has run. A change without a difference is
/// no failure, but there is nothing to be sent on.
pub open spec fn after_git(w: WikiModel, outcome: GitOutcome) -> Result<WikiModel, Seq<char>> {
    let failed = |context: Seq<char>|
        git_failure(context, outcome.stdout@, outcome.stderr@);
    match w.phase {
        WikiPhase::Clone => if outcome.success {
            Ok(WikiModel { phase: WikiPhase::Look, ..w })
        } else {
            Err(failed("failed to clone wiki repository"@))
        },
        WikiPhase::Stage => if outcome.success {
            Ok(WikiModel { phase: WikiPhase::Commit, ..w })
        } else {
            Err(failed("failed to stage wiki file"@))
        },
        WikiPhase::Commit => {
            let combined = outcome.stdout@ + outcome.stderr@;
            if outcome.success {
                Ok(WikiModel { phase: WikiPhase::Push, ..w })
            } else if text::has_text(combined, "nothing to commit"@) {
                Ok(WikiModel { phase: WikiPhase::Done, ..w })
            } else {
                Err("failed to commit wiki change: "@ + text::trimmed(combined))
            }
        },
        WikiPhase::Push => if outcome.success {
            Ok(WikiModel { phase: WikiPhase::Done, ..w })
        } else {
            Err(failed("failed to push wiki changes"@))
        },
        _ => Ok(w),
    }
}

/// The publication once it is known whether there is such a page: a new page is
/// only written where there is none, a changed one only where there is one.
pub open spec fn after_look(w: WikiModel, exists: bool) -> Result<WikiModel, Seq<char>> {
    match (w.action, exists) {
        (PublishAction::Publish, true) => Err(
            "publish only creates new pages: "@ + w.wiki_path
                + " already exists. Use update instead."@,
        ),
        (PublishAction::Update, false) => Err(
            "update only modifies existing pages: "@ + w.wiki_path
                + " does not exist. Use publish first."@,
        ),
        _ => Ok(WikiModel { phase: WikiPhase::Write, ..w }),
    }
}

fn strings3(a: &str, b: &str, c: &str) -> (r: Vec<String>)
    ensures
        r.deep_view() == seq![a@, b@, c@],
{
    let mut r: Vec<String> = Vec::new();
    r.push(text::owned(a));
    r.push(text::owned(b));
    r.push(text::owned(c));
    assert(r.deep_view() =~= seq![a@, b@, c@]);
    r
}

fn failed_git(context: &str, outcome: &GitOutcome) -> (r: String)
    ensures
        r@ == git_failure(context@, outcome.stdout@, outcome.stderr@),
{
    let stdout = text::trim(outcome.stdout.as_str());
    let stderr = text::trim(outcome.stderr.as_str());
    let mut e = text::concat3(context, ": ", stdout.as_str());
    if text::char_count(stderr.as_str()) > 0 {
        e.append(" ");
        e.append(stderr.as_str());
    }
    e
}

impl WikiPublication {
    fn target(&self) -> (r: String)
        ensures
            r@ == page_target(self@),
    {
        paths::path_join(self.workspace.as_str(), self.wiki_path.as_str())
    }

    fn git(&self, dir: &str, args: Vec<String>, context: &str) -> (r: WikiStep)
        ensures
            r.deep_view() == WikiStepModel::Git(dir@, args.deep_view(), context@),
    {
        WikiStep::Git { dir: text::owned(dir), args, context: text::owned(context) }
    }

    fn new_commit_args(&self) -> (r: Vec<String>)
        ensures
            r.deep_view() == commit_args(self@.username, self@.message),
    {
        let name = text::concat("user.name=", self.username.as_str());
        let email = text::concat3("user.email=", self.username.as_str(), "@users.noreply.github.com");
        let message = self.message.clone();
        let mut r: Vec<String> = Vec::new();
        r.push(text::owned("-c"));
        r.push(name);
        r.push(text::owned("-c"));
        r.push(email);
        r.push(text::owned("commit"));
        r.push(text::owned("-m"));
        r.push(message);
        assert(r.deep_view() =~= commit_args(self@.username, self@.message));
        r
    }

    /// What is to be done next.
    pub fn next(&self) -> (r: WikiStep)
        ensures
            r.deep_view() == wiki_step(self@),
    {
        match self.phase {
            WikiPhase::Clone => self.git(
                ".",
                strings3("clone", self.remote.as_str(), self.workspace.as_str()),
                "failed to clone wiki repository",
            ),
            WikiPhase::Look => WikiStep::Look(self.target()),
            WikiPhase::Write => match &self.source {
                PublishSource::File(f) => WikiStep::Copy { from: f.clone(), to: self.target() },
                PublishSource::Content(c) => WikiStep::Write {
                    to: self.target(),
                    content: c.clone(),
                },
            },
            WikiPhase::Stage => {
                let mut args: Vec<String> = Vec::new();
                args.push(text::owned("add"));
                args.push(self.wiki_path.clone());
                assert(args.deep_view() =~= seq!["add"@, self@.wiki_path]);
                self.git(self.workspace.as_str(), args, "failed to stage wiki file")
            },
            WikiPhase::Commit => {
                let args = self.new_commit_args();
                self.git(self.workspace.as_str(), args, "failed to run git commit")
            },
            WikiPhase::Push => self.git(
                self.workspace.as_str(),
                strings3("push", "origin", "master"),
                "failed to push wiki changes",
            ),
            WikiPhase::Done => WikiStep::Done,
        }
    }

    /// Notes what the program has left behind.
    pub fn on_git(&mut self, outcome: GitOutcome) -> (r: Result<(), String>)
        ensures
            match r {
                Ok(_) => after_git(old(self)@, outcome) == Ok::<WikiModel, Seq<char>>(
                    final(self)@,
                ),
                Err(e) => after_git(old(self)@, outcome) == Err::<WikiModel, Seq<char>>(e@)
                    && final(self)@ == old(self)@,
            },
    {
        match self.phase {
            WikiPhase::Clone => {
                if !outcome.success {
                    return Err(failed_git("failed to clone wiki repository", &outcome));
                }
                self.phase = WikiPhase::Look;
            },
            WikiPhase::Stage => {
                if !outcome.success {
                    return Err(failed_git("failed to stage wiki file", &outcome));
                }
                self.phase = WikiPhase::Commit;
            },
            WikiPhase::Commit => {
                if outcome.success {
                    self.phase = WikiPhase::Push;
                } else {
                    let combined = text::concat(outcome.stdout.as_str(), outcome.stderr.as_str());
                    if text::contains(combined.as_str(), "nothing to commit") {
                        self.phase = WikiPhase::Done;
                    } else {
                        let said = text::trim(combined.as_str());
                        return Err(text::concat("failed to commit wiki change: ", said.as_str()));
                    }
                }
            },
            WikiPhase::Push => {
                if !outcome.success {
                    return Err(failed_git("failed to push wiki changes", &outcome));
                }
                self.phase = WikiPhase::Done;
            },
            _ => {},
        }
        Ok(())
    }

    /// Notes whether there is such a page.
    pub fn on_look(&mut self, exists: bool) -> (r: Result<(), String>)
        requires
            old(self)@.phase == WikiPhase::Look,
        ensures
            match r {
                Ok(_) => after_look(old(self)@, exists) == Ok::<WikiModel, Seq<char>>(
                    final(self)@,
                ),
                Err(e) => after_look(old(self)@, exists) == Err::<WikiModel, Seq<char>>(e@)
                    && final(self)@ == old(self)@,
            },
    {
        match self.action {
            PublishAction::Publish => {
                if exists {
                    return Err(
                        text::concat3(
                            "publish only creates new pages: ",
                            self.wiki_path.as_str(),
                            " already exists. Use update instead.",
                        ),
                    );
                }
            },
            PublishAction::Update => {
                if !exists {
                    return Err(
                        text::concat3(
                            "update only modifies existing pages: ",
                            self.wiki_path.as_str(),
                            " does not exist. Use publish first.",
                        ),
                    );
                }
            },
        }
        self.phase = WikiPhase::Write;
        Ok(())
    }

    /// Notes that the page has been written.
    pub fn on_written(&mut self)
        requires
            old(self)@.phase == WikiPhase::Write,
        ensures
            final(self)@ == (WikiModel { phase: WikiPhase::Stage, ..old(self)@ }),
    {
        self.phase = WikiPhase::Stage;
    }
}

/// A page is written only after it was seen that there is none to be lost, or
/// one to be changed.
pub proof fn lemma_pages_are_not_overwritten(w: WikiModel, exists: bool, outcome: GitOutcome)
    ensures
        after_look(w, exists) is Ok <==> exists == (w.action == PublishAction::Update),
        after_git(w, outcome) matches Ok(n) ==> (n.phase == WikiPhase::Write ==> w.phase
            == WikiPhase::Write),
{
}

/// When nothing fails, a page is copied or written, staged, committed and sent
/// on, in this order, after the wiki was fetched and looked at.
pub proof fn lemma_publication_runs_through(w: WikiModel, outcome: GitOutcome)
    requires
        w.phase == WikiPhase::Clone,
        outcome.success,
    ensures
        ({
            let exists = w.action == PublishAction::Update;
            let staged = WikiModel { phase: WikiPhase::Stage, ..w };
            &&& after_git(w, outcome) == Ok::<WikiModel, Seq<char>>(
                WikiModel { phase: WikiPhase::Look, ..w },
            )
            &&& after_look(WikiModel { phase: WikiPhase::Look, ..w }, exists) == Ok::<
                WikiModel,
                Seq<char>,
            >(WikiModel { phase: WikiPhase::Write, ..w })
            &&& after_git(staged, outcome) == Ok::<WikiModel, Seq<char>>(
                WikiModel { phase: WikiPhase::Commit, ..w },
            )
            &&& after_git(WikiModel { phase: WikiPhase::Commit, ..w }, outcome) == Ok::<
                WikiModel,
                Seq<char>,
            >(WikiModel { phase: WikiPhase::Push, ..w })
            &&& after_git(WikiModel { phase: WikiPhase::Push, ..w }, outcome) == Ok::<
                WikiModel,
                Seq<char>,
            >(WikiModel { phase: WikiPhase::Done, ..w })
        }),
{
}

// ---------------------------------------------------------------------------
// Starting

/// Where the wiki is fetched from.
pub open spec fn remote_of(cfg: GithubConfig) -> Seq<char> {
    "https://"@ + cfg.username@ + ":"@ + cfg.password@ + "@github.com/"@ + cfg.owner@ + "/"@
        + cfg.repo@ + ".wiki.git"@
}

/// The name of the directory for a copy of the wiki.
pub fn workspace_name(now_ms: u128, process: u32) -> (r: String)
    ensures
        r@ == "scribe-wiki-"@ + text::decimal(now_ms as nat) + "-"@ + text::decimal(
            process as nat,
        ),
{
    let ts = text::decimal_of(now_ms);
    let pid = text::decimal_of(process as u128);
    let mut r = text::concat3("scribe-wiki-", ts.as_str(), "-");
    r.append(pid.as_str());
    r
}

/// The publication of a page that is about to start, or why it does not.
pub open spec fn publication(
    cfg: GithubConfig,
    action: PublishAction,
    wiki_path: Seq<char>,
    source: SourceModel,
    is_file: Option<bool>,
    message: Seq<char>,
    workspace: Seq<char>,
) -> Result<WikiModel, Seq<char>> {
    let source_problem = match source {
        SourceModel::File(f) => local_file_problem(f, is_file),
        SourceModel::Content(_) => None,
    };
    match wiki_path_problem(wiki_path) {
        Some(e) => Err(e),
        None => match source_problem {
            Some(e) => Err(e),
            None => Ok(
                WikiModel {
                    action,
                    remote: remote_of(cfg),
                    username: cfg.username@,
                    workspace,
                    wiki_path,
                    source,
                    message,
                    phase: WikiPhase::Clone,
                },
            ),
        },
    }
}

/// The outcome by its texts.
pub open spec fn publication_view(r: Result<WikiPublication, String>) -> Result<
    WikiModel,
    Seq<char>,
> {
    match r {
        Ok(w) => Ok(w@),
        Err(e) => Err(e@),
    }
}

/// What is sent to the service, and what its answers mean.
#[derive(Debug)]
pub struct GithubWikiClient {
    pub cfg: GithubConfig,
}

impl GithubWikiClient {
    pub fn new(cfg: GithubConfig) -> (r: GithubWikiClient)
        ensures
            r.cfg == cfg,
    {
        GithubWikiClient { cfg }
    }

    /// Accepts the answer to the question whether the account is known.
    pub fn auth_check(&self, reply: &HttpReply) -> (r: Result<(), String>)
        ensures
            match r {
                Ok(_) => github::is_success(reply.status),
                Err(e) => !github::is_success(reply.status) && e@
                    == "GitHub auth failed with status "@ + reply.status_text@
                    + ". Ensure GITHUB_USERNAME and GITHUB_PASSWORD are valid."@,
            },
    {
        github::check_auth(reply)
    }

    /// Where the wiki is fetched from.
    pub fn wiki_remote_url(&self) -> (r: String)
        ensures
            r@ == remote_of(self.cfg),
    {
        let mut r = text::concat3("https://", self.cfg.username.as_str(), ":");
        r.append(self.cfg.password.as_str());
        r.append("@github.com/");
        r.append(self.cfg.owner.as_str());
        r.append("/");
        r.append(self.cfg.repo.as_str());
        r.append(".wiki.git");
        r
    }

    fn start(
        &self,
        action: PublishAction,
        wiki_path: &str,
        source: PublishSource,
        message: &str,
        workspace: &str,
    ) -> (r: WikiPublication)
        ensures
            r@ == (WikiModel {
                action,
                remote: remote_of(self.cfg),
                username: self.cfg.username@,
                workspace: workspace@,
                wiki_path: wiki_path@,
                source: source.deep_view(),
                message: message@,
                phase: WikiPhase::Clone,
            }),
    {
        WikiPublication {
            action,
            remote: self.wiki_remote_url(),
            username: self.cfg.username.clone(),
            workspace: text::owned(workspace),
            wiki_path: text::owned(wiki_path),
            source,
            message: text::owned(message),
            phase: WikiPhase::Clone,
        }
    }

    /// A new page with the text of a local file.
    pub fn publish_page(
        &self,
        wiki_path: &str,
        local_file: &str,
        is_file: Option<bool>,
        message: &str,
        workspace: &str,
    ) -> (r: Result<WikiPublication, String>)
        ensures
            publication_view(r) == publication(
                self.cfg,
                PublishAction::Publish,
                wiki_path@,
                SourceModel::File(local_file@),
                is_file,
                message@,
                workspace@,
            ),
    {
        match validate_wiki_path(wiki_path) {
            Ok(_) => {},
            Err(e) => {
                return Err(e);
            },
        }
        match ensure_local_file(local_file, is_file) {
            Ok(_) => {},
            Err(e) => {
                return Err(e);
            },
        }
        let source = PublishSource::File(text::owned(local_file));
        Ok(self.start(PublishAction::Publish, wiki_path, source, message, workspace))
    }

    /// A new page with a given text.
    pub fn publish_page_content(
        &self,
        wiki_path: &str,
        content: &str,
        message: &str,
        workspace: &str,
    ) -> (r: Result<WikiPublication, String>)
        ensures
            publication_view(r) == publication(
                self.cfg,
                PublishAction::Publish,
                wiki_path@,
                SourceModel::Content(content@),
                None,
                message@,
                workspace@,
            ),
    {
        match validate_wiki_path(wiki_path) {
            Ok(_) => {},
            Err(e) => {
                return Err(e);
            },
        }
        let source = PublishSource::Content(text::owned(content));
        Ok(self.start(PublishAction::Publish, wiki_path, source, message, workspace))
    }

    /// A changed page with the text of a local file.
    pub fn update_page(
        &self,
        wiki_path: &str,
        local_file: &str,
        is_file: Option<bool>,
        message: &str,
        workspace: &str,
    ) -> (r: Result<WikiPublication, String>)
        ensures
            publication_view(r) == publication(
                self.cfg,
                PublishAction::Update,
                wiki_path@,
                SourceModel::File(local_file@),
                is_file,
                message@,
                workspace@,
            ),
    {
        match validate_wiki_path(wiki_path) {
            Ok(_) => {},
            Err(e) => {
                return Err(e);
            },
        }
        match ensure_local_file(local_file, is_file) {
            Ok(_) => {},
            Err(e) => {
                return Err(e);
            },
        }
        let source = PublishSource::File(text::owned(local_file));
        Ok(self.start(PublishAction::Update, wiki_path, source, message, workspace))
    }

    /// A changed page with a given text.
    pub fn update_page_content(
        &self,
        wiki_path: &str,
        content: &str,
        message: &str,
        workspace: &str,
    ) -> (r: Result<WikiPublication, String>)
        ensures
            publication_view(r) == publication(
                self.cfg,
                PublishAction::Update,
                wiki_path@,
                SourceModel::Content(content@),
                None,
                message@,
                workspace@,
            ),
    {
        match validate_wiki_path(wiki_path) {
            Ok(_) => {},
            Err(e) => {
                return Err(e);
            },
        }
        let source = PublishSource::Content(text::owned(content));
        Ok(self.start(PublishAction::Update, wiki_path, source, message, workspace))
    }
}

/// The tool that publishes pages.
pub fn github_wiki_publish_handler() -> (r: ToolHandler)
    ensures
        r@ == (HandlerModel {
            definition: registry::definition_of(
                "github_wiki_publish"@,
                WIKI_DESCRIPTION@,
                WIKI_SCHEMA@,
            ),
            action: ToolAction::GithubWikiPublish,
        }),
{
    registry::new_handler(
        "github_wiki_publish",
        WIKI_DESCRIPTION,
        WIKI_SCHEMA,
        ToolAction::GithubWikiPublish,
    )
}

// ---------------------------------------------------------------------------
// Laws of what is published

/// A page is accepted exactly where its path names a Markdown file, does not
/// start at the root and holds no two dots in a row.
pub proof fn lemma_which_pages_are_accepted(path: Seq<char>)
    ensures
        wiki_path_problem(path) is None <==> !text::begins_with(path, "/"@)
            && text::finishes_with(path, ".md"@) && !text::has_text(path, ".."@),
{
}

/// What is published is the file, where one is named, else the content that is
/// given; one of them has to be.
pub proof fn lemma_source_of_page(
    file: Seq<char>,
    content: Option<Seq<char>>,
    given: Seq<char>,
    is_file: Option<bool>,
)
    ensures
        source_of(Some(file), content, Some(true)) == Ok::<SourceModel, Seq<char>>(
            SourceModel::File(file),
        ),
        source_of(Some(file), content, Some(false)) is Err,
        source_of(Some(file), content, None) is Err,
        source_of(None, Some(given), is_file) == Ok::<SourceModel, Seq<char>>(
            SourceModel::Content(given),
        ),
        source_of(None, None, is_file) is Err,
{
}

/// The page is put where its path says in the copy of the wiki: a file is copied
/// there, and a content is written there as it is. Then just this page is staged,
/// committed with the message in the name of the account, and sent to the wiki.
pub proof fn lemma_page_is_put_in_place(w: WikiModel, content: Seq<char>, file: Seq<char>)
    requires
        w.wiki_path.len() > 0,
        w.wiki_path[0] != '/',
    ensures
        ({
            let target = if w.workspace.len() == 0 || w.workspace.last() == '/' {
                w.workspace + w.wiki_path
            } else {
                w.workspace + seq!['/'] + w.wiki_path
            };
            let at = |phase: WikiPhase, source: SourceModel| WikiModel { phase, source, ..w };
            &&& wiki_step(at(WikiPhase::Write, SourceModel::Content(content)))
                == WikiStepModel::Write(target, content)
            &&& wiki_step(at(WikiPhase::Write, SourceModel::File(file))) == WikiStepModel::Copy(
                file,
                target,
            )
            &&& wiki_step(at(WikiPhase::Look, w.source)) == WikiStepModel::Look(target)
        }),
        wiki_step(WikiModel { phase: WikiPhase::Clone, ..w }) matches WikiStepModel::Git(
            dir,
            args,
            _,
        ) && args == seq!["clone"@, w.remote, w.workspace],
        wiki_step(WikiModel { phase: WikiPhase::Stage, ..w }) matches WikiStepModel::Git(
            dir,
            args,
            _,
        ) && dir == w.workspace && args == seq!["add"@, w.wiki_path],
        wiki_step(WikiModel { phase: WikiPhase::Commit, ..w }) matches WikiStepModel::Git(
            dir,
            args,
            _,
        ) && dir == w.workspace && args.last() == w.message && args.contains("commit"@)
            && args.contains("user.name="@ + w.username),
        wiki_step(WikiModel { phase: WikiPhase::Push, ..w }) matches WikiStepModel::Git(
            dir,
            args,
            _,
        ) && dir == w.workspace && args == seq!["push"@, "origin"@, "master"@],
        wiki_step(WikiModel { phase: WikiPhase::Done, ..w }) is Done,
{
    reveal_strlit("/");
    assert("/"@ =~= seq!['/']);
    let args = commit_args(w.username, w.message);
    assert(args[4] == "commit"@);
    assert(args[1] == "user.name="@ + w.username);
}

/// A command that fails ends the publication, but for a commit that finds nothing
/// to commit: then the page is as it should be already.
pub proof fn lemma_failed_command_ends_publication(w: WikiModel, outcome: GitOutcome)
    requires
        !outcome.success,
    ensures
        w.phase == WikiPhase::Clone || w.phase == WikiPhase::Stage || w.phase == WikiPhase::Push
            ==> after_git(w, outcome) is Err,
        w.phase == WikiPhase::Commit && !text::has_text(
            outcome.stdout@ + outcome.stderr@,
            "nothing to commit"@,
        ) ==> after_git(w, outcome) is Err,
        w.phase == WikiPhase::Commit && text::has_text(
            outcome.stdout@ + outcome.stderr@,
            "nothing to commit"@,
        ) ==> after_git(w, outcome) == Ok::<WikiModel, Seq<char>>(
            WikiModel { phase: WikiPhase::Done, ..w },
        ),
{
}

/// A publication starts with the page, the source and the message that it is
/// given, and is refused only where the path or the file is.
pub proof fn lemma_publication_starts(
    cfg: GithubConfig,
    action: PublishAction,
    wiki_path: Seq<char>,
    content: Seq<char>,
    message: Seq<char>,
    workspace: Seq<char>,
)
    requires
        !text::begins_with(wiki_path, "/"@),
        text::finishes_with(wiki_path, ".md"@),
        !text::has_text(wiki_path, ".."@),
    ensures
        ({
            let r = publication(
                cfg,
                action,
                wiki_path,
                SourceModel::Content(content),
                None,
                message,
                workspace,
            );
            r matches Ok(w) && w.phase == WikiPhase::Clone && w.action == action && w.wiki_path
                == wiki_path && w.source == SourceModel::Content(content) && w.message == message
                && w.workspace == workspace && w.username == cfg.username@ && w.remote
                == remote_of(cfg)
        }),
{
}

/// The message of a change is the one that was given, or else says what was
/// done.
pub proof fn lemma_message_of_page(action: PublishAction, message: Seq<char>)
    ensures
        page_message(action, Some(message)) == message,
        page_message(PublishAction::Publish, None) == "publish wiki page"@,
        page_message(PublishAction::Update, None) == "update wiki page"@,
{
}

/// A command that fails is told with all that it said, on both outputs.
pub proof fn lemma_failed_command_is_explained(context: Seq<char>, stdout: Seq<char>, stderr: Seq<char>)
    ensures
        text::is_blank(stderr) ==> git_failure(context, stdout, stderr) == context + ": "@
            + text::trimmed(stdout),
        !text::is_blank(stderr) ==> git_failure(context, stdout, stderr) == context + ": "@
            + text::trimmed(stdout) + " "@ + text::trimmed(stderr),
{
}

/// A change is made in the name of the user, with the user's address.
pub proof fn lemma_change_is_signed(username: Seq<char>, message: Seq<char>)
    ensures
        commit_args(username, message).contains("user.name="@ + username),
        commit_args(username, message).contains(
            "user.email="@ + username + "@users.noreply.github.com"@,
        ),
        commit_args(username, message).last() == message,
{
    let args = commit_args(username, message);
    assert(args[1] == "user.name="@ + username);
    assert(args[3] == "user.email="@ + username + "@users.noreply.github.com"@);
}

/// A local file is published exactly where it is there and is a regular file.
pub proof fn lemma_which_files_are_published(path: Seq<char>, is_file: Option<bool>)
    ensures
        local_file_problem(path, is_file) is None <==> is_file == Some(true),
{
}

} // verus!
