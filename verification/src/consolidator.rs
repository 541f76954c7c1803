//! Rewriting the page of a session from what was observed in it.
//!
//! The observations of a session and its present page go to a language model,
//! which answers with a new page. That page is written as a new version, and
//! the change is committed. A dry run stops before anything is written.

use crate::ids::{PageId, ProjectId, SessionId, WorkspaceId};
use crate::json::{bool_value, empty_object, json_of, list_value, no_fields, object_value, put};
use crate::json::{error_text, error_words, from_io, io_error, text_value, Json};
use crate::page::{valid_page, MemoryError, PagePath, Tier};
use crate::text::{at_most, chars_of, is_blank, joined, lemma_spans, prefix_of, spans, spans_of};
use crate::text::{split_on, trim_bounds, trimmed};
use serde_json::Value;
use vstd::prelude::*;
use vstd::string::{StrSliceExecFns, StringExecFns};

verus! {

/// One thing that was observed in a session.
#[derive(Debug)]
pub struct Observation {
    /// What kind of thing, as it is written.
    pub kind: String,
    pub title: String,
    pub body: String,
}

/// Who says a message.
#[derive(Debug, Clone, Copy, PartialEq, Eq, Structural)]
pub enum Role {
    System,
    User,
    Assistant,
}

/// A message to the model.
#[derive(Debug)]
pub struct ChatMessage {
    pub role: Role,
    pub content: String,
}

/// A request to the model.
#[derive(Debug)]
pub struct ChatRequest {
    pub system: Option<String>,
    pub messages: Vec<ChatMessage>,
    pub max_tokens: u32,
    /// The sampling temperature, in tenths.
    pub temperature_tenths: Option<u32>,
}

/// The page that the model answers with.
#[derive(Debug)]
pub struct ConsolidatedPage {
    pub title: String,
    pub body_markdown: String,
    pub tags: Vec<String>,
}

/// What a consolidation did, or in a dry run would have done.
#[derive(Debug)]
pub struct ConsolidationOutcome {
    pub path: PagePath,
    pub dry_run: bool,
    pub new_title: String,
    pub new_body_markdown: String,
    /// The version that was written; none in a dry run.
    pub page_id: Option<PageId>,
    pub tags: Vec<String>,
}

/// A page to be written.
pub struct WritePageRequest {
    pub workspace_id: WorkspaceId,
    pub project_id: ProjectId,
    pub path: PagePath,
    pub frontmatter: Value,
    pub body: String,
    pub tier: Tier,
    pub pinned: bool,
}

/// Why a consolidation failed.
#[derive(Debug)]
#[non_exhaustive]
pub enum ConsolidatorError {
    /// An error of the domain.
    Memory(MemoryError),
    /// The store failed, with this message.
    Store(String),
    /// The wiki failed, with this message.
    Wiki(String),
    /// The model failed, with this message.
    Llm(String),
    /// JSON could not be read or written, with this message.
    Serde(String),
    /// There is no such session.
    SessionNotFound(SessionId),
    /// Nothing was observed in the session.
    EmptySession(SessionId),
}

/// What a consolidation gives.
pub type ConsolidatorResult<T> = Result<T, ConsolidatorError>;

impl ConsolidatorError {
    /// The error in words.
    pub open spec fn words(self) -> Seq<char> {
        match self {
            ConsolidatorError::Memory(MemoryError::InvalidPagePath(text)) => "invalid page path: "@
                + text@,
            ConsolidatorError::Store(text) => text@,
            ConsolidatorError::Wiki(text) => text@,
            ConsolidatorError::Llm(text) => text@,
            ConsolidatorError::Serde(text) => "serde: "@ + text@,
            ConsolidatorError::SessionNotFound(id) => "session not found: "@ + id.text@,
            ConsolidatorError::EmptySession(id) => "session "@ + id.text@ + " has no observations"@,
        }
    }

    /// The error in words.
    pub fn message(&self) -> (r: String)
        ensures
            r@ == self.words(),
    {
        match self {
            ConsolidatorError::Memory(e) => e.message(),
            ConsolidatorError::Store(text) => text.clone(),
            ConsolidatorError::Wiki(text) => text.clone(),
            ConsolidatorError::Llm(text) => text.clone(),
            ConsolidatorError::Serde(text) => {
                let mut r = "serde: ".to_owned();
                r.append(text.as_str());
                r
            },
            ConsolidatorError::SessionNotFound(id) => {
                let mut r = "session not found: ".to_owned();
                r.append(id.text.as_str());
                r
            },
            ConsolidatorError::EmptySession(id) => {
                let mut r = "session ".to_owned();
                r.append(id.text.as_str());
                r.append(" has no observations");
                r
            },
        }
    }
}

impl From<serde_json::Error> for ConsolidatorError {
    fn from(value: serde_json::Error) -> (r: Self)
        ensures
            r is Serde,
            r->Serde_0@ == if io_error(value) {
                "reading or writing failed"@
            } else {
                error_text(value)
            },
    {
        if from_io(&value) {
            ConsolidatorError::Serde("reading or writing failed".to_owned())
        } else {
            ConsolidatorError::Serde(error_words(&value))
        }
    }
}

impl vstd::std_specs::convert::FromSpecImpl<serde_json::Error> for ConsolidatorError {
    open spec fn obeys_from_spec() -> bool {
        false
    }

    open spec fn from_spec(v: serde_json::Error) -> Self {
        arbitrary()
    }
}

/// What the model is told to do.
pub const SYSTEM_PROMPT: &'static str = "You are the maintainer of a Karpathy-style LLM wiki for a software engineer. You receive the chronological observation log of one coding-agent session plus the current heuristic page body. Compile a clean, durable markdown page that future agents and the user can read to recover context.\n\nRules:\n1. Title: short, descriptive (<= 80 chars). No filler.\n2. Body: well-formed markdown. Use sections (## Heading) when useful.\n3. Focus on decisions made, problems encountered, code/file references, and open questions.\n4. Do NOT include redundant per-tool-call detail. Aggregate.\n5. Do NOT echo timestamps or session ids (frontmatter already has them).\n6. Tags: 0-5 short kebab-case tags surfaced to frontmatter.\n";

/// The lines of `s`, trimmed, without those that are blank.
pub open spec fn nonblank_lines(s: Seq<char>) -> Seq<Seq<char>> {
    split_on(s, '\n').map_values(|line: Seq<char>| trimmed(line)).filter(
        |line: Seq<char>| line.len() > 0,
    )
}

/// At most the first `n` parts.
pub open spec fn first_parts(parts: Seq<Seq<char>>, n: nat) -> Seq<Seq<char>> {
    if parts.len() <= n {
        parts
    } else {
        parts.take(n as int)
    }
}

/// The first three lines of `s` that are not blank, on one line, cut at 240
/// characters.
pub open spec fn one_line_text(s: Seq<char>) -> Seq<char> {
    at_most(joined(first_parts(nonblank_lines(s), 3), " / "@), 240)
}

spec fn piece_texts(s: Seq<char>, v: Seq<(usize, usize)>) -> Seq<Seq<char>> {
    v.map_values(|p: (usize, usize)| s.subrange(p.0 as int, p.1 as int))
}

fn nonblank_spans(cs: &Vec<char>) -> (r: Vec<(usize, usize)>)
    ensures
        piece_texts(cs@, r@) == nonblank_lines(cs@),
        forall|i: int| 0 <= i < r.len() ==> (#[trigger] r@[i]).0 <= r@[i].1 <= cs.len(),
{
    let all: Vec<(usize, usize)> = spans_of(cs, '\n');
    let ghost model = split_on(cs@, '\n').map_values(|line: Seq<char>| trimmed(line));
    let ghost keep = |line: Seq<char>| line.len() > 0;
    proof {
        lemma_spans(cs@, '\n');
        reveal(Seq::filter);
        assert(model.take(0) =~= Seq::<Seq<char>>::empty());
    }
    let mut r: Vec<(usize, usize)> = Vec::new();
    assert(piece_texts(cs@, r@) =~= model.take(0).filter(keep));
    let mut i: usize = 0;
    while i < all.len()
        invariant
            i <= all.len(),
            all.len() == spans(cs@, '\n').len(),
            model == split_on(cs@, '\n').map_values(|line: Seq<char>| trimmed(line)),
            keep == |line: Seq<char>| line.len() > 0,
            forall|j: int|
                0 <= j < all.len() ==> (#[trigger] all@[j]).0 == spans(cs@, '\n')[j].0
                    && all@[j].1 == spans(cs@, '\n')[j].1,
            forall|j: int|
                0 <= j < spans(cs@, '\n').len() ==> 0 <= (#[trigger] spans(cs@, '\n')[j]).0
                    <= spans(cs@, '\n')[j].1 <= cs.len(),
            piece_texts(cs@, r@) == model.take(i as int).filter(keep),
            forall|j: int| 0 <= j < r.len() ==> (#[trigger] r@[j]).0 <= r@[j].1 <= cs.len(),
        decreases all.len() - i,
    {
        let line: (usize, usize) = all[i];
        assert(spans(cs@, '\n')[i as int] == (line.0 as int, line.1 as int));
        let cut: (usize, usize) = trim_bounds(cs, line.0, line.1);
        let ghost before = piece_texts(cs@, r@);
        proof {
            reveal(Seq::filter);
            assert(model.take(i + 1).drop_last() =~= model.take(i as int));
            assert(model[i as int] == cs@.subrange(cut.0 as int, cut.1 as int));
            assert(model.take(i + 1).last() == model[i as int]);
        }
        if cut.0 < cut.1 {
            r.push(cut);
            assert(piece_texts(cs@, r@) =~= before.push(model[i as int]));
        }
        i += 1;
    }
    assert(model.take(model.len() as int) =~= model);
    r
}

/// The first three lines of `s` that are not blank, on one line, cut at 240
/// characters.
pub fn one_line(s: &str) -> (r: String)
    ensures
        r@ == one_line_text(s@),
{
    let cs: Vec<char> = chars_of(s);
    let lines: Vec<(usize, usize)> = nonblank_spans(&cs);
    let ghost parts = piece_texts(cs@, lines@);
    let mut out = String::new();
    let n: usize = if lines.len() <= 3 {
        lines.len()
    } else {
        3
    };
    let mut i: usize = 0;
    assert(parts.take(0) =~= Seq::<Seq<char>>::empty());
    while i < n
        invariant
            i <= n <= lines.len(),
            cs@ == s@,
            parts == piece_texts(cs@, lines@),
            forall|j: int|
                0 <= j < lines.len() ==> (#[trigger] lines@[j]).0 <= lines@[j].1 <= cs.len(),
            out@ == joined(parts.take(i as int), " / "@),
        decreases n - i,
    {
        let line: (usize, usize) = lines[i];
        assert(parts.take(i + 1).drop_last() =~= parts.take(i as int));
        assert(parts.take(i + 1).last() == s@.subrange(line.0 as int, line.1 as int));
        if i > 0 {
            out.append(" / ");
        }
        out.append(s.substring_char(line.0, line.1));
        i += 1;
    }
    proof {
        assert(parts.len() == lines.len());
        assert(parts.take(n as int) =~= first_parts(nonblank_lines(s@), 3));
    }
    prefix_of(out.as_str(), 240)
}

/// The first eight characters of an identifier.
pub fn short_id(s: &str) -> (r: String)
    ensures
        r@ == at_most(s@, 8),
{
    prefix_of(s, 8)
}

/// An observation as the model sees it: its kind and title, and its body where
/// it has one.
pub open spec fn observation_lines(o: Observation) -> Seq<char> {
    "- "@ + o.kind@ + " | "@ + one_line_text(o.title@) + "\n"@ + (if trimmed(o.body@).len() > 0 {
        "    body: "@ + one_line_text(o.body@) + "\n"@
    } else {
        Seq::empty()
    })
}

/// All observations, in their order.
pub open spec fn log_text(observations: Seq<Observation>) -> Seq<char>
    decreases observations.len(),
{
    if observations.len() == 0 {
        Seq::empty()
    } else {
        log_text(observations.drop_last()) + observation_lines(observations.last())
    }
}

/// What the model is asked.
pub open spec fn prompt_text(
    session: Seq<char>,
    observations: Seq<Observation>,
    current_body: Seq<char>,
) -> Seq<char> {
    "Session id: "@ + session + "\nObservations (in order):\n\n"@ + log_text(observations) + (if
    trimmed(current_body).len() > 0 {
        "\nCurrent (heuristic) page body:\n\n```\n"@ + current_body + "\n```\n"@
    } else {
        Seq::empty()
    })
}

fn push_observation(out: &mut String, o: &Observation)
    ensures
        final(out)@ == old(out)@ + observation_lines(*o),
{
    out.append("- ");
    out.append(o.kind.as_str());
    out.append(" | ");
    out.append(one_line(o.title.as_str()).as_str());
    out.append("\n");
    if !is_blank(o.body.as_str()) {
        out.append("    body: ");
        out.append(one_line(o.body.as_str()).as_str());
        out.append("\n");
    }
    assert(out@ =~= old(out)@ + observation_lines(*o));
}

/// The request to the model for one session.
pub fn build_request(
    session_id: &SessionId,
    observations: &Vec<Observation>,
    current_body: &str,
) -> (r: ChatRequest)
    ensures
        r.system matches Some(system) && system@ == SYSTEM_PROMPT@,
        r.messages@.len() == 1,
        r.messages@[0].role == Role::User,
        r.messages@[0].content@ == prompt_text(session_id.text@, observations@, current_body@),
        r.max_tokens == 1500,
        r.temperature_tenths == Some(2u32),
{
    let mut buf = String::new();
    buf.append("Session id: ");
    buf.append(session_id.text.as_str());
    buf.append("\nObservations (in order):\n\n");
    let ghost head = buf@;
    let mut i: usize = 0;
    assert(observations@.take(0) =~= Seq::<Observation>::empty());
    assert(buf@ =~= head + log_text(observations@.take(0)));
    while i < observations.len()
        invariant
            i <= observations.len(),
            buf@ == head + log_text(observations@.take(i as int)),
        decreases observations.len() - i,
    {
        push_observation(&mut buf, &observations[i]);
        assert(observations@.take(i + 1).drop_last() =~= observations@.take(i as int));
        assert(buf@ =~= head + log_text(observations@.take(i + 1)));
        i += 1;
    }
    assert(observations@.take(observations.len() as int) =~= observations@);
    if !is_blank(current_body) {
        buf.append("\nCurrent (heuristic) page body:\n\n```\n");
        buf.append(current_body);
        buf.append("\n```\n");
    }
    assert(buf@ =~= prompt_text(session_id.text@, observations@, current_body@));
    let mut messages: Vec<ChatMessage> = Vec::new();
    messages.push(ChatMessage { role: Role::User, content: buf });
    ChatRequest {
        system: Some(SYSTEM_PROMPT.to_owned()),
        messages,
        max_tokens: 1500,
        temperature_tenths: Some(2),
    }
}

/// What heads the file of a consolidated page; tags only where there are any.
pub open spec fn frontmatter_json(page: ConsolidatedPage) -> Json {
    let named = empty_object().insert("title"@, Json::Text(page.title@)).insert(
        "tier"@,
        Json::Text("episodic"@),
    );
    let tagged = if page.tags@.len() > 0 {
        named.insert("tags"@, Json::List(page.tags@.map_values(|t: String| Json::Text(t@))))
    } else {
        named
    };
    Json::Object(tagged.insert("consolidated"@, Json::Bool(true)))
}

fn tag_list(tags: &Vec<String>) -> (r: Vec<Value>)
    ensures
        r@.map_values(|v: Value| json_of(v)) == tags@.map_values(|t: String| Json::Text(t@)),
{
    let mut r: Vec<Value> = Vec::new();
    let mut i: usize = 0;
    while i < tags.len()
        invariant
            i <= tags.len(),
            r.len() == i,
            forall|j: int| 0 <= j < i ==> json_of(#[trigger] r@[j]) == Json::Text(tags@[j]@),
        decreases tags.len() - i,
    {
        r.push(text_value(tags[i].as_str()));
        i += 1;
    }
    assert(r@.map_values(|v: Value| json_of(v)) =~= tags@.map_values(|t: String| Json::Text(t@)));
    r
}

/// What heads the file of a consolidated page.
pub fn build_frontmatter(page: &ConsolidatedPage) -> (r: Value)
    ensures
        json_of(r) == frontmatter_json(*page),
{
    let mut fields = no_fields();
    put(&mut fields, "title", text_value(page.title.as_str()));
    put(&mut fields, "tier", text_value("episodic"));
    if page.tags.len() > 0 {
        put(&mut fields, "tags", list_value(tag_list(&page.tags)));
    }
    put(&mut fields, "consolidated", bool_value(true));
    object_value(fields)
}

/// Where the page of a session stands.
pub open spec fn session_page(session: Seq<char>) -> Seq<char> {
    "sessions/"@ + session + ".md"@
}

/// The message of the commit that follows a consolidation.
pub open spec fn commit_text(session: Seq<char>, title: Seq<char>) -> Seq<char> {
    "consolidate(session "@ + at_most(session, 8) + "): "@ + at_most(title, 60)
}

/// What comes after the model has answered.
pub enum AfterPage {
    /// This is the outcome; nothing is written.
    Finished(ConsolidationOutcome),
    /// Write this page and go on with [`Consolidator::written`]; then commit,
    /// and finish with [`Consolidator::committed`].
    Write(WritePageRequest, ConsolidatedPage),
}

/// Consolidates the sessions of one project.
pub struct Consolidator {
    pub workspace_id: WorkspaceId,
    pub project_id: ProjectId,
}

impl Consolidator {
    /// A consolidator for this project.
    pub fn new(workspace_id: WorkspaceId, project_id: ProjectId) -> (r: Self)
        ensures
            r.workspace_id == workspace_id,
            r.project_id == project_id,
    {
        Consolidator { workspace_id, project_id }
    }

    /// The page to rewrite, once the observations of the session are known:
    /// there must be some, and the identifier must make the path of a page.
    pub fn begin(
        &self,
        session_id: &SessionId,
        observations: &Result<Vec<Observation>, String>,
    ) -> (r: ConsolidatorResult<PagePath>)
        ensures
            match *observations {
                Err(message) => {
                    &&& r is Err
                    &&& r->Err_0 matches ConsolidatorError::Store(text) && text@ == message@
                },
                Ok(log) => if log@.len() == 0 {
                    &&& r is Err
                    &&& r->Err_0 matches ConsolidatorError::EmptySession(id) && id == *session_id
                } else if valid_page(session_page(session_id.text@)) {
                    &&& r is Ok
                    &&& r->Ok_0@ == session_page(session_id.text@)
                } else {
                    &&& r is Err
                    &&& r->Err_0 matches ConsolidatorError::Memory(
                        MemoryError::InvalidPagePath(text),
                    ) && text@ == session_page(session_id.text@)
                },
            },
    {
        match observations {
            Err(message) => Err(ConsolidatorError::Store(message.clone())),
            Ok(log) => {
                if log.len() == 0 {
                    return Err(ConsolidatorError::EmptySession(session_id.clone()));
                }
                let mut path = "sessions/".to_owned();
                path.append(session_id.text.as_str());
                path.append(".md");
                match PagePath::new(path) {
                    Ok(page) => Ok(page),
                    Err(e) => Err(ConsolidatorError::Memory(e)),
                }
            },
        }
    }

    /// The request to the model. A page that cannot be read counts as empty.
    pub fn ask(
        &self,
        session_id: &SessionId,
        observations: &Vec<Observation>,
        current_body: Option<String>,
    ) -> (r: ChatRequest)
        ensures
            r.system matches Some(system) && system@ == SYSTEM_PROMPT@,
            r.messages@.len() == 1,
            r.messages@[0].role == Role::User,
            r.messages@[0].content@ == prompt_text(
                session_id.text@,
                observations@,
                match current_body {
                    Some(body) => body@,
                    None => Seq::empty(),
                },
            ),
            r.max_tokens == 1500,
            r.temperature_tenths == Some(2u32),
    {
        match current_body {
            Some(body) => build_request(session_id, observations, body.as_str()),
            None => {
                let empty = String::new();
                build_request(session_id, observations, empty.as_str())
            },
        }
    }

    /// What to do with the model's answer: a dry run ends here, otherwise the
    /// page is written as an episodic page that is not pinned.
    pub fn answered(
        &self,
        path: PagePath,
        answer: Result<ConsolidatedPage, String>,
        dry_run: bool,
    ) -> (r: ConsolidatorResult<AfterPage>)
        ensures
            match answer {
                Err(message) => {
                    &&& r is Err
                    &&& r->Err_0 matches ConsolidatorError::Llm(text) && text@ == message@
                },
                Ok(page) => {
                    &&& r is Ok
                    &&& match r->Ok_0 {
                        AfterPage::Finished(o) => {
                            &&& dry_run
                            &&& o.dry_run
                            &&& o.path@ == path@
                            &&& o.new_title == page.title
                            &&& o.new_body_markdown == page.body_markdown
                            &&& o.page_id is None
                            &&& o.tags == page.tags
                        },
                        AfterPage::Write(w, p) => {
                            &&& !dry_run
                            &&& p == page
                            &&& w.workspace_id == self.workspace_id
                            &&& w.project_id == self.project_id
                            &&& w.path@ == path@
                            &&& json_of(w.frontmatter) == frontmatter_json(page)
                            &&& w.body@ == page.body_markdown@
                            &&& w.tier == Tier::Episodic
                            &&& !w.pinned
                        },
                    }
                },
            },
    {
        match answer {
            Err(message) => Err(ConsolidatorError::Llm(message)),
            Ok(page) => {
                if dry_run {
                    return Ok(
                        AfterPage::Finished(
                            ConsolidationOutcome {
                                path,
                                dry_run: true,
                                new_title: page.title,
                                new_body_markdown: page.body_markdown,
                                page_id: None,
                                tags: page.tags,
                            },
                        ),
                    );
                }
                let frontmatter = build_frontmatter(&page);
                let body = page.body_markdown.clone();
                Ok(
                    AfterPage::Write(
                        WritePageRequest {
                            workspace_id: self.workspace_id,
                            project_id: self.project_id,
                            path,
                            frontmatter,
                            body,
                            tier: Tier::Episodic,
                            pinned: false,
                        },
                        page,
                    ),
                )
            },
        }
    }

    /// The message of the commit that follows the write.
    pub fn commit_message(&self, session_id: &SessionId, page: &ConsolidatedPage) -> (r: String)
        ensures
            r@ == commit_text(session_id.text@, page.title@),
    {
        let mut r = "consolidate(session ".to_owned();
        r.append(short_id(session_id.text.as_str()).as_str());
        r.append("): ");
        r.append(prefix_of(page.title.as_str(), 60).as_str());
        r
    }

    /// The outcome, once the page is written or writing it has failed.
    pub fn written(
        &self,
        path: PagePath,
        page: ConsolidatedPage,
        written: Result<PageId, String>,
    ) -> (r: ConsolidatorResult<ConsolidationOutcome>)
        ensures
            match written {
                Err(message) => {
                    &&& r is Err
                    &&& r->Err_0 matches ConsolidatorError::Wiki(text) && text@ == message@
                },
                Ok(id) => {
                    &&& r is Ok
                    &&& !r->Ok_0.dry_run
                    &&& r->Ok_0.path@ == path@
                    &&& r->Ok_0.new_title == page.title
                    &&& r->Ok_0.new_body_markdown == page.body_markdown
                    &&& r->Ok_0.page_id == Some(id)
                    &&& r->Ok_0.tags == page.tags
                },
            },
    {
        match written {
            Err(message) => Err(ConsolidatorError::Wiki(message)),
            Ok(id) => Ok(
                ConsolidationOutcome {
                    path,
                    dry_run: false,
                    new_title: page.title,
                    new_body_markdown: page.body_markdown,
                    page_id: Some(id),
                    tags: page.tags,
                },
            ),
        }
    }

    /// The outcome, once the page that was written has been committed or
    /// committing it has failed. A failed commit is a failure of the wiki.
    pub fn committed(
        &self,
        outcome: ConsolidationOutcome,
        commit: Result<(), String>,
    ) -> (r: ConsolidatorResult<ConsolidationOutcome>)
        ensures
            match commit {
                Ok(_) => r is Ok && r->Ok_0 == outcome,
                Err(message) => {
                    &&& r is Err
                    &&& r->Err_0 matches ConsolidatorError::Wiki(text) && text@ == message@
                },
            },
    {
        match commit {
            Ok(_) => Ok(outcome),
            Err(message) => Err(ConsolidatorError::Wiki(message)),
        }
    }
}

} // verus!
