//! What holds of every bootstrap: what is kept of the sources, what is sent, and
//! what is reported.

use crate::bootstrap::{fitting, kept_sources, lemma_block, of_kind, rank, ranked, source_budget};
use crate::bootstrap::{tokens_of, total_tokens, BootstrapOutcome, BootstrapSource, SourceCounts};
use crate::bootstrap::SourceKind;
use crate::bootstrap_run::{estimate_section, footer, no_git_note, page_lines, pages_section};
use crate::bootstrap_run::{report_text, request_json, source_line, sources_section, RepoProbe};
use crate::host::HostAgent;
use crate::json::Json;
use crate::text::decimal;
use vstd::prelude::*;

verus! {

/// The request holds what the operator asked for, each thing under its own name
/// and independent of the others, and nothing else.
pub proof fn law_the_request_is_what_was_asked(
    workspace: Seq<char>,
    project: Seq<char>,
    sources: Json,
    max_input_tokens: nat,
    dry_run: bool,
    force: bool,
)
    ensures
        request_json(workspace, project, sources, max_input_tokens, dry_run, force) matches
            Json::Object(fields) && {
            &&& fields.contains_key("force"@) && fields["force"@] == Json::Bool(force)
            &&& fields.contains_key("dry_run"@) && fields["dry_run"@] == Json::Bool(dry_run)
            &&& fields.contains_key("workspace"@) && fields["workspace"@] == Json::Text(workspace)
            &&& fields.contains_key("project"@) && fields["project"@] == Json::Text(project)
            &&& fields.contains_key("sources"@) && fields["sources"@] == sources
            &&& fields.contains_key("max_input_tokens"@) && fields["max_input_tokens"@]
                == Json::Number(decimal(max_input_tokens))
            &&& forall|k: Seq<char>| #[trigger]
                fields.contains_key(k) ==> k == "force"@ || k == "dry_run"@ || k == "workspace"@
                    || k == "project"@ || k == "sources"@ || k == "max_input_tokens"@
        },
{
    reveal_strlit("force");
    reveal_strlit("dry_run");
    reveal_strlit("workspace");
    reveal_strlit("project");
    reveal_strlit("sources");
    reveal_strlit("max_input_tokens");
    assert("force"@.len() == 5);
    assert("workspace"@.len() == 9);
    assert("max_input_tokens"@.len() == 16);
    assert("dry_run"@.len() == 7 && "dry_run"@[0] == 'd');
    assert("project"@.len() == 7 && "project"@[0] == 'p');
    assert("sources"@.len() == 7 && "sources"@[0] == 's');
}

/// Where sources are read from, and whether there is a history there.
pub proof fn law_where_sources_are_read(
    path: String,
    dot_git: bool,
    root: String,
    cwd: String,
)
    ensures
        (RepoProbe::Explicit { path, dot_git }).path() == path@,
        (RepoProbe::Explicit { path, dot_git }).has_git() == dot_git,
        (RepoProbe::Discovered { root }).path() == root@,
        (RepoProbe::Discovered { root }).has_git(),
        (RepoProbe::NoRepo { cwd }).path() == cwd@,
        !(RepoProbe::NoRepo { cwd }).has_git(),
        no_git_note(cwd@) == "note: no .git found at "@ + cwd@
            + "; bootstrapping from README/docs/rules only (git-commit history skipped). Pass --repo-path or `git init` to include commits."@,
{
}

/// Each source counts under its own kind, once: one more source raises the
/// number of its kind by one and no other.
pub proof fn law_each_source_counts_once(
    before: SourceCounts,
    after: SourceCounts,
    sources: Seq<BootstrapSource>,
    next: BootstrapSource,
)
    requires
        before.counts(sources),
        after.counts(sources.push(next)),
    ensures
        after.git_commits == before.git_commits + if next.kind == SourceKind::GitCommit {
            1int
        } else {
            0
        },
        after.readme == before.readme + if next.kind == SourceKind::Readme {
            1int
        } else {
            0
        },
        after.doc_files == before.doc_files + if next.kind == SourceKind::DocFile {
            1int
        } else {
            0
        },
        after.module_headers == before.module_headers + if next.kind == SourceKind::ModuleHeader {
            1int
        } else {
            0
        },
        after.project_rules == before.project_rules + if next.kind == SourceKind::ProjectRules {
            1int
        } else {
            0
        },
{
    law_sources_of_a_kind(sources, next, SourceKind::GitCommit);
    law_sources_of_a_kind(sources, next, SourceKind::Readme);
    law_sources_of_a_kind(sources, next, SourceKind::DocFile);
    law_sources_of_a_kind(sources, next, SourceKind::ModuleHeader);
    law_sources_of_a_kind(sources, next, SourceKind::ProjectRules);
}

/// No sources count nothing.
pub proof fn law_no_sources_count_nothing(counts: SourceCounts)
    requires
        counts.counts(Seq::empty()),
    ensures
        counts.git_commits == 0,
        counts.readme == 0,
        counts.doc_files == 0,
        counts.module_headers == 0,
        counts.project_rules == 0,
{
    reveal(Seq::filter);
}

/// The sources of a kind are all of that kind, in their order.
pub proof fn law_sources_of_a_kind(
    sources: Seq<BootstrapSource>,
    next: BootstrapSource,
    kind: SourceKind,
)
    ensures
        of_kind(Seq::empty(), kind) == Seq::<BootstrapSource>::empty(),
        next.kind == kind ==> of_kind(sources.push(next), kind) == of_kind(sources, kind).push(
            next,
        ),
        next.kind != kind ==> of_kind(sources.push(next), kind) == of_kind(sources, kind),
{
    reveal(Seq::filter);
    assert(sources.push(next).drop_last() =~= sources);
}

proof fn lemma_of_kind_add(
    a: Seq<BootstrapSource>,
    b: Seq<BootstrapSource>,
    kind: SourceKind,
)
    ensures
        of_kind(a + b, kind) == of_kind(a, kind) + of_kind(b, kind),
{
    Seq::filter_distributes_over_add(a, b, |s: BootstrapSource| s.kind == kind);
}

proof fn lemma_of_kind_twice(sources: Seq<BootstrapSource>, first: SourceKind, second: SourceKind)
    ensures
        of_kind(of_kind(sources, first), second) == if first == second {
            of_kind(sources, first)
        } else {
            Seq::empty()
        },
    decreases sources.len(),
{
    reveal(Seq::filter);
    if sources.len() > 0 {
        let rest = sources.drop_last();
        lemma_of_kind_twice(rest, first, second);
        assert(rest.push(sources.last()) =~= sources);
        law_sources_of_a_kind(rest, sources.last(), first);
        law_sources_of_a_kind(of_kind(rest, first), sources.last(), second);
    }
}

/// Putting sources in order of priority neither loses nor adds any, and those of
/// one kind keep their order among themselves.
pub proof fn law_ordering_keeps_every_source(sources: Seq<BootstrapSource>, kind: SourceKind)
    ensures
        of_kind(ranked(sources), kind) == of_kind(sources, kind),
        ranked(sources).len() == sources.len(),
{
    let a = of_kind(sources, SourceKind::ProjectRules);
    let b = of_kind(sources, SourceKind::Readme);
    let c = of_kind(sources, SourceKind::DocFile);
    let d = of_kind(sources, SourceKind::ModuleHeader);
    let e = of_kind(sources, SourceKind::GitCommit);
    lemma_of_kind_add(a, b, kind);
    lemma_of_kind_add(a + b, c, kind);
    lemma_of_kind_add(a + b + c, d, kind);
    lemma_of_kind_add(a + b + c + d, e, kind);
    lemma_of_kind_twice(sources, SourceKind::ProjectRules, kind);
    lemma_of_kind_twice(sources, SourceKind::Readme, kind);
    lemma_of_kind_twice(sources, SourceKind::DocFile, kind);
    lemma_of_kind_twice(sources, SourceKind::ModuleHeader, kind);
    lemma_of_kind_twice(sources, SourceKind::GitCommit, kind);
    assert(of_kind(ranked(sources), kind) =~= of_kind(sources, kind));
    lemma_kinds_add_up(sources);
}

proof fn lemma_kinds_add_up(sources: Seq<BootstrapSource>)
    ensures
        ranked(sources).len() == sources.len(),
    decreases sources.len(),
{
    reveal(Seq::filter);
    if sources.len() > 0 {
        let rest = sources.drop_last();
        let last = sources.last();
        lemma_kinds_add_up(rest);
        assert(rest.push(last) =~= sources);
        law_sources_of_a_kind(rest, last, SourceKind::ProjectRules);
        law_sources_of_a_kind(rest, last, SourceKind::Readme);
        law_sources_of_a_kind(rest, last, SourceKind::DocFile);
        law_sources_of_a_kind(rest, last, SourceKind::ModuleHeader);
        law_sources_of_a_kind(rest, last, SourceKind::GitCommit);
    }
}

/// Sources stand by priority: one of lower priority never comes before one of
/// higher priority.
pub proof fn law_sources_stand_by_priority(sources: Seq<BootstrapSource>, i: int, j: int)
    requires
        0 <= i <= j < ranked(sources).len(),
    ensures
        rank(ranked(sources)[i].kind) <= rank(ranked(sources)[j].kind),
{
    lemma_block(sources, i);
    lemma_block(sources, j);
}

/// The order of priority: rules, README, docs, module headers, commits.
pub proof fn law_the_order_of_priority()
    ensures
        rank(SourceKind::ProjectRules) < rank(SourceKind::Readme) < rank(SourceKind::DocFile)
            < rank(SourceKind::ModuleHeader) < rank(SourceKind::GitCommit),
{
}

/// Four characters of a source's text are one token, and a rest below that is
/// none; sources together have as many tokens as each of them.
pub proof fn law_tokens(sources: Seq<BootstrapSource>, next: BootstrapSource)
    ensures
        4 * tokens_of(next) <= next.text@.len() < 4 * tokens_of(next) + 4,
        total_tokens(Seq::empty()) == 0,
        total_tokens(sources.push(next)) == total_tokens(sources) + tokens_of(next),
{
    assert(sources.push(next).drop_last() =~= sources);
}

/// What is left for sources is the budget less a thousand tokens, or nothing.
pub proof fn law_the_budget_for_sources(max_input_tokens: nat)
    ensures
        max_input_tokens >= 1000 ==> source_budget(max_input_tokens) == max_input_tokens - 1000,
        max_input_tokens < 1000 ==> source_budget(max_input_tokens) == 0,
{
}

/// What is kept are the first sources in the order of priority, as many as fit
/// the budget together.
pub proof fn law_the_first_that_fit_are_kept(
    sources: Seq<BootstrapSource>,
    max_input_tokens: nat,
)
    ensures
        ({
            let kept = kept_sources(sources, max_input_tokens);
            let all = ranked(sources);
            &&& kept.len() <= all.len()
            &&& kept == all.take(kept.len() as int)
            &&& total_tokens(kept) <= source_budget(max_input_tokens)
            &&& kept.len() < all.len() ==> total_tokens(all.take(kept.len() as int + 1))
                > source_budget(max_input_tokens)
        }),
{
    lemma_kinds_add_up(sources);
    crate::bootstrap::law_pruning_fits_the_budget(sources, max_input_tokens);
    crate::bootstrap::law_pruning_drops_no_more_than_it_must(sources, max_input_tokens);
    lemma_fitting_bound(ranked(sources), source_budget(max_input_tokens));
}

proof fn lemma_fitting_bound(sources: Seq<BootstrapSource>, budget: nat)
    ensures
        fitting(sources, budget) <= sources.len(),
    decreases sources.len(),
{
    if !(total_tokens(sources) <= budget || sources.len() == 0) {
        lemma_fitting_bound(sources.drop_last(), budget);
    }
}

/// A line on the sources of a kind says how many there are, in the singular for
/// one, and there is none for none.
pub proof fn law_a_line_on_a_kind(
    n: nat,
    what: Seq<char>,
    one: Seq<char>,
    many: Seq<char>,
    rest: Seq<char>,
)
    ensures
        n == 0 ==> source_line(n, what, one, many, rest) == Seq::<char>::empty(),
        n == 1 ==> source_line(n, what, one, many, rest) == "  - "@ + decimal(1) + what + one
            + rest + "\n"@,
        n > 1 ==> source_line(n, what, one, many, rest) == "  - "@ + decimal(n) + what + many
            + rest + "\n"@,
{
}

/// The report names the sources of each kind, by their number.
pub proof fn law_the_report_names_every_kind(o: BootstrapOutcome, host: HostAgent)
    ensures
        ({
            let c = o.sources_by_kind;
            sources_section(o, host) == "Sources loaded into the LLM:\n"@ + source_line(
                c.git_commits as nat,
                " git commit summar"@,
                "y"@,
                "ies"@,
                ""@,
            ) + (if c.readme == 0 {
                Seq::empty()
            } else {
                "  - README\n"@
            }) + source_line(
                c.doc_files as nat,
                " doc file"@,
                ""@,
                "s"@,
                " (under docs/)"@,
            ) + source_line(
                c.module_headers as nat,
                " Rust module header"@,
                ""@,
                "s"@,
                ""@,
            ) + source_line(
                c.project_rules as nat,
                " project-rules file"@,
                ""@,
                "s"@,
                " ("@ + host.rules_file@ + " / AGENTS.md / ...)"@,
            )
        }),
{
}

/// The report names every page that was written, in order: one more page is one
/// more line.
pub proof fn law_the_report_names_every_page(pages: Seq<String>, next: String)
    ensures
        page_lines(Seq::empty()) == Seq::<char>::empty(),
        page_lines(pages.push(next)) == page_lines(pages) + "  - "@ + next@ + "\n"@,
{
    assert(pages.push(next).drop_last() =~= pages);
}

/// What the report says of the estimate: the tokens, and how many sources were
/// dropped where any were.
pub proof fn law_the_report_tells_the_estimate(o: BootstrapOutcome)
    ensures
        ({
            let tokens = "  -> ~"@ + decimal(o.estimated_input_tokens as nat)
                + " input tokens estimated"@;
            &&& o.sources_dropped == 0 ==> estimate_section(o) == tokens + "\n"@
            &&& o.sources_dropped == 1 ==> estimate_section(o) == tokens + " (dropped "@ + decimal(
                1,
            ) + " lower-priority source"@ + " to stay under budget)"@ + "\n"@
            &&& o.sources_dropped > 1 ==> estimate_section(o) == tokens + " (dropped "@ + decimal(
                o.sources_dropped as nat,
            ) + " lower-priority source"@ + "s"@ + " to stay under budget)"@ + "\n"@
        }),
{
    reveal_strlit("");
    let tokens = "  -> ~"@ + decimal(o.estimated_input_tokens as nat)
        + " input tokens estimated"@;
    if o.sources_dropped == 0 {
        assert(estimate_section(o) =~= tokens + "\n"@);
    } else if o.sources_dropped == 1 {
        assert(estimate_section(o) =~= tokens + " (dropped "@ + decimal(1)
            + " lower-priority source"@ + " to stay under budget)"@ + "\n"@);
    } else {
        assert(estimate_section(o) =~= tokens + " (dropped "@ + decimal(
            o.sources_dropped as nat,
        ) + " lower-priority source"@ + "s"@ + " to stay under budget)"@ + "\n"@);
    }
}

/// What the report says of the pages: that there are none in a dry run, else how
/// many and which, and why, where a reason was given.
pub proof fn law_the_report_tells_the_pages(o: BootstrapOutcome)
    ensures
        o.dry_run ==> pages_section(o) == "\n(dry-run -- no LLM call, no pages written)\n"@,
        !o.dry_run ==> ({
            let n = o.pages_written@.len();
            let head = "\nGenerated "@ + decimal(n) + " wiki page"@ + (if n == 1 {
                ""@
            } else {
                "s"@
            }) + ":\n"@ + page_lines(o.pages_written@);
            &&& o.rationale@.len() == 0 ==> pages_section(o) == head
            &&& o.rationale@.len() > 0 ==> pages_section(o) == head + "\nRationale: "@
                + o.rationale@ + "\n"@
        }),
{
    if !o.dry_run {
        let n = o.pages_written@.len();
        let head = "\nGenerated "@ + decimal(n) + " wiki page"@ + (if n == 1 {
            ""@
        } else {
            "s"@
        }) + ":\n"@ + page_lines(o.pages_written@);
        if o.rationale@.len() == 0 {
            assert(pages_section(o) =~= head);
        } else {
            assert(pages_section(o) =~= head + "\nRationale: "@ + o.rationale@ + "\n"@);
        }
    }
}

/// The report says what was run and for which project, and then everything of
/// the outcome, and ends by saying what is not covered.
pub proof fn law_the_report_is_complete(
    o: BootstrapOutcome,
    host: HostAgent,
    workspace: Seq<char>,
    project: Seq<char>,
)
    ensures
        o.dry_run ==> report_text(o, host, workspace, project) == "\n"@ + "Dry-run"@
            + " complete for "@ + workspace + "/"@ + project + "\n\n"@ + sources_section(o, host)
            + estimate_section(o) + pages_section(o) + footer(host),
        !o.dry_run ==> report_text(o, host, workspace, project) == "\n"@ + "Bootstrap"@
            + " complete for "@ + workspace + "/"@ + project + "\n\n"@ + sources_section(o, host)
            + estimate_section(o) + pages_section(o) + footer(host),
        footer(host)
            == "\nWhat ai-memory knows now\n  Only the sources listed above. NOT every file in your project,\n  NOT every commit since project start, NOT runtime behaviour or\n  test logs. As you use "@
            + host.name@
            + " (or another MCP agent) the\n  lifecycle hooks will automatically capture your actual workflow,\n  and consolidation will refine the wiki over time.\n"@,
{
}

} // verus!
