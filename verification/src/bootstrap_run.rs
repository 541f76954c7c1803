//! The course of a bootstrap: what is read, whether anything is sent, and what
//! the operator is told.

use crate::bootstrap::{
    kept_sources, local_dry_run, total_tokens, BootstrapOutcome, BootstrapSource,
};
use crate::host::HostAgent;
use crate::json::{bool_value, empty_object, json_of, no_fields, number_value, object_value, put};
use crate::json::{text_value, Json};
use crate::text::{decimal, push_decimal};
use serde_json::Value;
use vstd::prelude::*;
use vstd::string::StringExecFns;

verus! {

/// What is known of the place to read from.
#[derive(Debug)]
pub enum RepoProbe {
    /// The operator named a directory; `dot_git` tells whether it holds `.git`.
    Explicit { path: String, dot_git: bool },
    /// A repository was found at or above the working directory.
    Discovered { root: String },
    /// None was found; this is the working directory.
    NoRepo { cwd: String },
}

/// The directory to read from.
#[derive(Debug)]
pub struct RepoTarget {
    pub path: String,
    /// Whether it has a commit history.
    pub has_git: bool,
}

impl RepoProbe {
    /// The directory that is read.
    pub open spec fn path(self) -> Seq<char> {
        match self {
            RepoProbe::Explicit { path, .. } => path@,
            RepoProbe::Discovered { root } => root@,
            RepoProbe::NoRepo { cwd } => cwd@,
        }
    }

    /// Whether that directory has a commit history.
    pub open spec fn has_git(self) -> bool {
        match self {
            RepoProbe::Explicit { dot_git, .. } => dot_git,
            RepoProbe::Discovered { .. } => true,
            RepoProbe::NoRepo { .. } => false,
        }
    }
}

/// A directory that the operator names is used unchanged; else the root of the
/// repository that was found; else the working directory.
pub fn resolve_repo(probe: RepoProbe) -> (r: RepoTarget)
    ensures
        r.path@ == probe.path(),
        r.has_git == probe.has_git(),
{
    match probe {
        RepoProbe::Explicit { path, dot_git } => RepoTarget { path, has_git: dot_git },
        RepoProbe::Discovered { root } => RepoTarget { path: root, has_git: true },
        RepoProbe::NoRepo { cwd } => RepoTarget { path: cwd, has_git: false },
    }
}

/// What the operator chose to leave out.
#[derive(Debug, Clone, Copy, PartialEq, Eq, Structural)]
pub struct Exclusions {
    pub git: bool,
    pub readme: bool,
    pub docs: bool,
    pub code: bool,
}

/// What is to be collected, and what to tell the operator first.
#[derive(Debug)]
pub struct CollectPlan {
    pub git: bool,
    pub readme: bool,
    pub docs: bool,
    pub code: bool,
    /// A note for standard error.
    pub note: Option<String>,
}

/// The note that a history is missing.
pub open spec fn no_git_note(path: Seq<char>) -> Seq<char> {
    "note: no .git found at "@ + path
        + "; bootstrapping from README/docs/rules only (git-commit history skipped). Pass --repo-path or `git init` to include commits."@
}

/// Everything is collected that the operator did not leave out, except that
/// there are no commits to collect without a history: then the operator is
/// told, unless they left the commits out themselves.
pub fn plan_collection(target: &RepoTarget, exclude: Exclusions) -> (r: CollectPlan)
    ensures
        r.git == (!exclude.git && target.has_git),
        r.readme == !exclude.readme,
        r.docs == !exclude.docs,
        r.code == !exclude.code,
        match r.note {
            Some(note) => !target.has_git && !exclude.git && note@ == no_git_note(target.path@),
            None => target.has_git || exclude.git,
        },
{
    let note = if !target.has_git && !exclude.git {
        let mut note = String::new();
        note.append("note: no .git found at ");
        note.append(target.path.as_str());
        note.append(
            "; bootstrapping from README/docs/rules only (git-commit history skipped). Pass --repo-path or `git init` to include commits.",
        );
        assert(note@ =~= no_git_note(target.path@));
        Some(note)
    } else {
        None
    };
    CollectPlan {
        git: !exclude.git && target.has_git,
        readme: !exclude.readme,
        docs: !exclude.docs,
        code: !exclude.code,
        note,
    }
}

/// What comes after the sources have been collected.
#[derive(Debug)]
pub enum AfterCollection {
    /// Report this outcome; nothing is sent.
    Report(BootstrapOutcome),
    /// Send the sources to the server and report what it answers.
    Post(Vec<BootstrapSource>),
}

/// A dry run is reported without a word to the server; otherwise all collected
/// sources are sent.
pub fn after_collection(
    sources: Vec<BootstrapSource>,
    max_input_tokens: usize,
    dry_run: bool,
) -> (r: AfterCollection)
    ensures
        match r {
            AfterCollection::Report(outcome) => {
                let kept = kept_sources(sources@, max_input_tokens as nat);
                &&& dry_run
                &&& outcome.dry_run
                &&& outcome.sources_collected == sources@.len()
                &&& outcome.sources_sent == kept.len()
                &&& outcome.sources_dropped == sources@.len() - kept.len()
                &&& outcome.sources_by_kind.counts(kept)
                &&& outcome.estimated_input_tokens == total_tokens(kept)
                &&& outcome.pages_written@.len() == 0
                &&& outcome.rationale@ == "(dry-run; LLM not invoked, no network round-trip)"@
            },
            AfterCollection::Post(sent) => !dry_run && sent == sources,
        },
{
    if dry_run {
        AfterCollection::Report(local_dry_run(sources, max_input_tokens))
    } else {
        AfterCollection::Post(sources)
    }
}

/// What the server is sent.
pub open spec fn request_json(
    workspace: Seq<char>,
    project: Seq<char>,
    sources: Json,
    max_input_tokens: nat,
    dry_run: bool,
    force: bool,
) -> Json {
    Json::Object(
        empty_object().insert("workspace"@, Json::Text(workspace)).insert(
            "project"@,
            Json::Text(project),
        ).insert("sources"@, sources).insert(
            "max_input_tokens"@,
            Json::Number(decimal(max_input_tokens)),
        ).insert("dry_run"@, Json::Bool(dry_run)).insert("force"@, Json::Bool(force)),
    )
}

/// The body of the request to the server.
pub fn request_body(
    workspace: &str,
    project: &str,
    sources: Value,
    max_input_tokens: usize,
    dry_run: bool,
    force: bool,
) -> (r: Value)
    ensures
        json_of(r) == request_json(
            workspace@,
            project@,
            json_of(sources),
            max_input_tokens as nat,
            dry_run,
            force,
        ),
{
    let mut fields = no_fields();
    put(&mut fields, "workspace", text_value(workspace));
    put(&mut fields, "project", text_value(project));
    put(&mut fields, "sources", sources);
    put(&mut fields, "max_input_tokens", number_value(max_input_tokens));
    put(&mut fields, "dry_run", bool_value(dry_run));
    put(&mut fields, "force", bool_value(force));
    object_value(fields)
}

/// `one` for one thing, else `many`.
pub open spec fn plural(n: nat, one: Seq<char>, many: Seq<char>) -> Seq<char> {
    if n == 1 {
        one
    } else {
        many
    }
}

/// A line of the list of sources, where there are any: how many, and of what.
pub open spec fn source_line(
    n: nat,
    what: Seq<char>,
    one: Seq<char>,
    many: Seq<char>,
    rest: Seq<char>,
) -> Seq<char> {
    if n > 0 {
        "  - "@ + decimal(n) + what + plural(n, one, many) + rest + "\n"@
    } else {
        Seq::empty()
    }
}

/// The list of sources.
pub open spec fn sources_section(o: BootstrapOutcome, host: HostAgent) -> Seq<char> {
    let c = o.sources_by_kind;
    "Sources loaded into the LLM:\n"@ + source_line(
        c.git_commits as nat,
        " git commit summar"@,
        "y"@,
        "ies"@,
        ""@,
    ) + (if c.readme > 0 {
        "  - README\n"@
    } else {
        Seq::empty()
    }) + source_line(c.doc_files as nat, " doc file"@, ""@, "s"@, " (under docs/)"@) + source_line(
        c.module_headers as nat,
        " Rust module header"@,
        ""@,
        "s"@,
        ""@,
    ) + source_line(
        c.project_rules as nat,
        " project-rules file"@,
        ""@,
        "s"@,
        " ("@ + host.rules_file@ + " / AGENTS.md / ...)"@,
    )
}

/// The estimate, and what was dropped.
pub open spec fn estimate_section(o: BootstrapOutcome) -> Seq<char> {
    "  -> ~"@ + decimal(o.estimated_input_tokens as nat) + " input tokens estimated"@ + (if
    o.sources_dropped > 0 {
        " (dropped "@ + decimal(o.sources_dropped as nat) + " lower-priority source"@ + plural(
            o.sources_dropped as nat,
            ""@,
            "s"@,
        ) + " to stay under budget)"@
    } else {
        Seq::empty()
    }) + "\n"@
}

/// The pages, one on a line.
pub open spec fn page_lines(pages: Seq<String>) -> Seq<char>
    decreases pages.len(),
{
    if pages.len() == 0 {
        Seq::empty()
    } else {
        page_lines(pages.drop_last()) + "  - "@ + pages.last()@ + "\n"@
    }
}

/// What was written.
pub open spec fn pages_section(o: BootstrapOutcome) -> Seq<char> {
    if o.dry_run {
        "\n(dry-run -- no LLM call, no pages written)\n"@
    } else {
        "\nGenerated "@ + decimal(o.pages_written@.len()) + " wiki page"@ + plural(
            o.pages_written@.len(),
            ""@,
            "s"@,
        ) + ":\n"@ + page_lines(o.pages_written@) + (if o.rationale@.len() > 0 {
            "\nRationale: "@ + o.rationale@ + "\n"@
        } else {
            Seq::empty()
        })
    }
}

/// How far the operator may trust what is known now.
pub open spec fn footer(host: HostAgent) -> Seq<char> {
    "\nWhat ai-memory knows now\n  Only the sources listed above. NOT every file in your project,\n  NOT every commit since project start, NOT runtime behaviour or\n  test logs. As you use "@ + host.name@ + " (or another MCP agent) the\n  lifecycle hooks will automatically capture your actual workflow,\n  and consolidation will refine the wiki over time.\n"@
}

/// The report for the operator.
pub open spec fn report_text(
    o: BootstrapOutcome,
    host: HostAgent,
    workspace: Seq<char>,
    project: Seq<char>,
) -> Seq<char> {
    "\n"@ + (if o.dry_run {
        "Dry-run"@
    } else {
        "Bootstrap"@
    }) + " complete for "@ + workspace + "/"@ + project + "\n\n"@ + sources_section(o, host)
        + estimate_section(o) + pages_section(o) + footer(host)
}

fn push_source_line(out: &mut String, n: usize, what: &str, one: &str, many: &str, rest: &str)
    ensures
        final(out)@ == old(out)@ + source_line(n as nat, what@, one@, many@, rest@),
{
    if n > 0 {
        out.append("  - ");
        push_decimal(out, n);
        out.append(what);
        if n == 1 {
            out.append(one);
        } else {
            out.append(many);
        }
        out.append(rest);
        out.append("\n");
    }
    assert(out@ =~= old(out)@ + source_line(n as nat, what@, one@, many@, rest@));
}

fn push_sources(out: &mut String, o: &BootstrapOutcome, host: &HostAgent)
    ensures
        final(out)@ == old(out)@ + sources_section(*o, *host),
{
    let c = o.sources_by_kind;
    out.append("Sources loaded into the LLM:\n");
    push_source_line(out, c.git_commits, " git commit summar", "y", "ies", "");
    if c.readme > 0 {
        out.append("  - README\n");
    }
    push_source_line(out, c.doc_files, " doc file", "", "s", " (under docs/)");
    let mut rules = " (".to_owned();
    rules.append(host.rules_file.as_str());
    rules.append(" / AGENTS.md / ...)");
    push_source_line(out, c.module_headers, " Rust module header", "", "s", "");
    push_source_line(
        out,
        c.project_rules,
        " project-rules file",
        "",
        "s",
        rules.as_str(),
    );
    assert(out@ =~= old(out)@ + sources_section(*o, *host));
}

fn push_estimate(out: &mut String, o: &BootstrapOutcome)
    ensures
        final(out)@ == old(out)@ + estimate_section(*o),
{
    out.append("  -> ~");
    push_decimal(out, o.estimated_input_tokens);
    out.append(" input tokens estimated");
    if o.sources_dropped > 0 {
        out.append(" (dropped ");
        push_decimal(out, o.sources_dropped);
        out.append(" lower-priority source");
        out.append(if o.sources_dropped == 1 { "" } else { "s" });
        out.append(" to stay under budget)");
    }
    out.append("\n");
    assert(out@ =~= old(out)@ + estimate_section(*o));
}

fn push_page_lines(out: &mut String, pages: &Vec<String>)
    ensures
        final(out)@ == old(out)@ + page_lines(pages@),
{
    let mut i: usize = 0;
    assert(pages@.take(0) =~= Seq::<String>::empty());
    assert(out@ =~= old(out)@ + page_lines(pages@.take(0)));
    while i < pages.len()
        invariant
            i <= pages.len(),
            out@ == old(out)@ + page_lines(pages@.take(i as int)),
        decreases pages.len() - i,
    {
        out.append("  - ");
        out.append(pages[i].as_str());
        out.append("\n");
        assert(pages@.take(i + 1).drop_last() =~= pages@.take(i as int));
        assert(out@ =~= old(out)@ + page_lines(pages@.take(i + 1)));
        i = i + 1;
    }
    assert(pages@.take(pages.len() as int) =~= pages@);
}

fn push_pages(out: &mut String, o: &BootstrapOutcome)
    ensures
        final(out)@ == old(out)@ + pages_section(*o),
{
    if o.dry_run {
        out.append("\n(dry-run -- no LLM call, no pages written)\n");
    } else {
        out.append("\nGenerated ");
        push_decimal(out, o.pages_written.len());
        out.append(" wiki page");
        out.append(if o.pages_written.len() == 1 { "" } else { "s" });
        out.append(":\n");
        push_page_lines(out, &o.pages_written);
        if !o.rationale.as_str().is_empty() {
            out.append("\nRationale: ");
            out.append(o.rationale.as_str());
            out.append("\n");
        }
        assert(out@ =~= old(out)@ + pages_section(*o));
    }
}

/// Renders the outcome for the operator: each kind of source, every page that
/// was written, and a reminder of what is not covered.
pub fn human_report(
    outcome: &BootstrapOutcome,
    host: &HostAgent,
    workspace: &str,
    project: &str,
) -> (r: String)
    ensures
        r@ == report_text(*outcome, *host, workspace@, project@),
{
    let mut out = String::new();
    out.append("\n");
    out.append(if outcome.dry_run { "Dry-run" } else { "Bootstrap" });
    out.append(" complete for ");
    out.append(workspace);
    out.append("/");
    out.append(project);
    out.append("\n\n");
    push_sources(&mut out, outcome, host);
    push_estimate(&mut out, outcome);
    push_pages(&mut out, outcome);
    out.append(
        "\nWhat ai-memory knows now\n  Only the sources listed above. NOT every file in your project,\n  NOT every commit since project start, NOT runtime behaviour or\n  test logs. As you use ",
    );
    out.append(host.name.as_str());
    out.append(
        " (or another MCP agent) the\n  lifecycle hooks will automatically capture your actual workflow,\n  and consolidation will refine the wiki over time.\n",
    );
    assert(out@ =~= report_text(*outcome, *host, workspace@, project@));
    out
}

/// Everything that goes to standard output: the report, then the outcome as
/// `machine_readable` text.
pub fn full_report(
    outcome: &BootstrapOutcome,
    host: &HostAgent,
    workspace: &str,
    project: &str,
    machine_readable: &str,
) -> (r: String)
    ensures
        r@ == report_text(*outcome, *host, workspace@, project@) + "\n--- machine-readable ---\n"@
            + machine_readable@ + "\n"@,
{
    let mut out = human_report(outcome, host, workspace, project);
    out.append("\n--- machine-readable ---\n");
    out.append(machine_readable);
    out.append("\n");
    out
}

} // verus!
