//! Seeding memory from an existing project: which sources are read, how they
//! are cut down to a token budget, and what is reported of them.

use vstd::prelude::*;
use vstd::string::StrSliceExecFns;

verus! {

/// Where a source comes from.
#[derive(Debug, Clone, Copy, PartialEq, Eq, Structural)]
pub enum SourceKind {
    /// The summary of a git commit.
    GitCommit,
    /// The project's README.
    Readme,
    /// A file under `docs/`.
    DocFile,
    /// The leading doc comment of a Rust module.
    ModuleHeader,
    /// A file of rules for agents.
    ProjectRules,
}

/// One piece of text to seed memory from.
#[derive(Debug)]
pub struct BootstrapSource {
    pub kind: SourceKind,
    /// What the source is called.
    pub label: String,
    pub text: String,
}

/// How many sources there are of each kind.
#[derive(Debug, Clone, Copy, PartialEq, Eq, Structural)]
pub struct SourceCounts {
    pub git_commits: usize,
    pub readme: usize,
    pub doc_files: usize,
    pub module_headers: usize,
    pub project_rules: usize,
}

/// What a bootstrap did.
#[derive(Debug)]
pub struct BootstrapOutcome {
    pub sources_collected: usize,
    pub sources_sent: usize,
    pub sources_dropped: usize,
    pub sources_by_kind: SourceCounts,
    pub estimated_input_tokens: usize,
    /// The pages that were written, by path.
    pub pages_written: Vec<String>,
    pub rationale: String,
    pub dry_run: bool,
}

/// Tokens of the budget that are kept free for what surrounds the sources in
/// the prompt.
pub const SCAFFOLDING_TOKENS: usize = 1000;

/// The sources of one kind, in their order.
pub open spec fn of_kind(sources: Seq<BootstrapSource>, kind: SourceKind) -> Seq<BootstrapSource> {
    sources.filter(|s: BootstrapSource| s.kind == kind)
}

/// The sources by priority: rules for agents first, commits last. Within a
/// kind they keep their order.
pub open spec fn ranked(sources: Seq<BootstrapSource>) -> Seq<BootstrapSource> {
    of_kind(sources, SourceKind::ProjectRules) + of_kind(sources, SourceKind::Readme) + of_kind(
        sources,
        SourceKind::DocFile,
    ) + of_kind(sources, SourceKind::ModuleHeader) + of_kind(sources, SourceKind::GitCommit)
}

/// The place of a kind in the order of priority.
pub open spec fn rank(kind: SourceKind) -> int {
    match kind {
        SourceKind::ProjectRules => 0,
        SourceKind::Readme => 1,
        SourceKind::DocFile => 2,
        SourceKind::ModuleHeader => 3,
        SourceKind::GitCommit => 4,
    }
}

/// The tokens that a source is estimated at: one for each four characters.
pub open spec fn tokens_of(source: BootstrapSource) -> nat {
    source.text@.len() / 4
}

/// The tokens that the sources are estimated at together.
pub open spec fn total_tokens(sources: Seq<BootstrapSource>) -> nat
    decreases sources.len(),
{
    if sources.len() == 0 {
        0
    } else {
        total_tokens(sources.drop_last()) + tokens_of(sources.last())
    }
}

/// How many sources are left when they are dropped from the end until they fit
/// the budget.
pub open spec fn fitting(sources: Seq<BootstrapSource>, budget: nat) -> nat
    decreases sources.len(),
{
    if total_tokens(sources) <= budget || sources.len() == 0 {
        sources.len()
    } else {
        fitting(sources.drop_last(), budget)
    }
}

/// The tokens that are left for sources.
pub open spec fn source_budget(max_input_tokens: nat) -> nat {
    if max_input_tokens <= SCAFFOLDING_TOKENS {
        0
    } else {
        (max_input_tokens - SCAFFOLDING_TOKENS) as nat
    }
}

/// The sources that are sent.
pub open spec fn kept_sources(sources: Seq<BootstrapSource>, max_input_tokens: nat) -> Seq<
    BootstrapSource,
> {
    ranked(sources).take(fitting(ranked(sources), source_budget(max_input_tokens)) as int)
}

proof fn lemma_total_grows(sources: Seq<BootstrapSource>, k: int)
    requires
        0 <= k <= sources.len(),
    ensures
        total_tokens(sources.take(k)) <= total_tokens(sources),
    decreases sources.len(),
{
    if k == sources.len() {
        assert(sources.take(k) =~= sources);
    } else {
        lemma_total_grows(sources.drop_last(), k);
        assert(sources.drop_last().take(k) =~= sources.take(k));
    }
}

proof fn lemma_fitting_is(sources: Seq<BootstrapSource>, budget: nat, k: int)
    requires
        0 <= k <= sources.len(),
        total_tokens(sources.take(k)) <= budget,
        k < sources.len() ==> total_tokens(sources.take(k + 1)) > budget,
    ensures
        fitting(sources, budget) == k,
    decreases sources.len(),
{
    if k == sources.len() {
        assert(sources.take(k) =~= sources);
    } else {
        lemma_total_grows(sources, k + 1);
        let shorter = sources.drop_last();
        assert(shorter.take(k) =~= sources.take(k));
        if k < shorter.len() {
            assert(shorter.take(k + 1) =~= sources.take(k + 1));
        }
        lemma_fitting_is(shorter, budget, k);
    }
}

proof fn lemma_fitting(sources: Seq<BootstrapSource>, budget: nat)
    ensures
        fitting(sources, budget) <= sources.len(),
        total_tokens(sources.take(fitting(sources, budget) as int)) <= budget,
        fitting(sources, budget) < sources.len() ==> total_tokens(
            sources.take(fitting(sources, budget) as int + 1),
        ) > budget,
    decreases sources.len(),
{
    if total_tokens(sources) <= budget || sources.len() == 0 {
        assert(sources.take(sources.len() as int) =~= sources);
    } else {
        let shorter = sources.drop_last();
        lemma_fitting(shorter, budget);
        let k = fitting(shorter, budget) as int;
        assert(shorter.take(k) =~= sources.take(k));
        if k < shorter.len() {
            assert(shorter.take(k + 1) =~= sources.take(k + 1));
        } else {
            assert(sources.take(k + 1) =~= sources);
        }
    }
}

proof fn lemma_of_kind_push(sources: Seq<BootstrapSource>, s: BootstrapSource, kind: SourceKind)
    ensures
        of_kind(sources.push(s), kind) == if s.kind == kind {
            of_kind(sources, kind).push(s)
        } else {
            of_kind(sources, kind)
        },
{
    reveal(Seq::filter);
    assert(sources.push(s).drop_last() =~= sources);
}

proof fn lemma_kinds_partition(sources: Seq<BootstrapSource>)
    ensures
        ranked(sources).len() == sources.len(),
    decreases sources.len(),
{
    reveal(Seq::filter);
    if sources.len() > 0 {
        lemma_kinds_partition(sources.drop_last());
        assert(sources.drop_last().push(sources.last()) =~= sources);
        lemma_of_kind_push(sources.drop_last(), sources.last(), SourceKind::ProjectRules);
        lemma_of_kind_push(sources.drop_last(), sources.last(), SourceKind::Readme);
        lemma_of_kind_push(sources.drop_last(), sources.last(), SourceKind::DocFile);
        lemma_of_kind_push(sources.drop_last(), sources.last(), SourceKind::ModuleHeader);
        lemma_of_kind_push(sources.drop_last(), sources.last(), SourceKind::GitCommit);
    }
}

fn by_priority(sources: Vec<BootstrapSource>) -> (r: Vec<BootstrapSource>)
    ensures
        r@ == ranked(sources@),
{
    let mut rules: Vec<BootstrapSource> = Vec::new();
    let mut readmes: Vec<BootstrapSource> = Vec::new();
    let mut docs: Vec<BootstrapSource> = Vec::new();
    let mut headers: Vec<BootstrapSource> = Vec::new();
    let mut commits: Vec<BootstrapSource> = Vec::new();
    let ghost all = sources@;
    proof {
        reveal(Seq::filter);
    }
    for s in it: sources.into_iter()
        invariant
            it.seq() == all,
            rules@ == of_kind(all.take(it.index() as int), SourceKind::ProjectRules),
            readmes@ == of_kind(all.take(it.index() as int), SourceKind::Readme),
            docs@ == of_kind(all.take(it.index() as int), SourceKind::DocFile),
            headers@ == of_kind(all.take(it.index() as int), SourceKind::ModuleHeader),
            commits@ == of_kind(all.take(it.index() as int), SourceKind::GitCommit),
    {
        proof {
            let done = all.take(it.index() as int);
            assert(all.take(it.index() as int + 1) =~= done.push(s));
            lemma_of_kind_push(done, s, SourceKind::ProjectRules);
            lemma_of_kind_push(done, s, SourceKind::Readme);
            lemma_of_kind_push(done, s, SourceKind::DocFile);
            lemma_of_kind_push(done, s, SourceKind::ModuleHeader);
            lemma_of_kind_push(done, s, SourceKind::GitCommit);
        }
        match s.kind {
            SourceKind::ProjectRules => rules.push(s),
            SourceKind::Readme => readmes.push(s),
            SourceKind::DocFile => docs.push(s),
            SourceKind::ModuleHeader => headers.push(s),
            SourceKind::GitCommit => commits.push(s),
        }
    }
    assert(all.take(all.len() as int) =~= all);
    rules.append(&mut readmes);
    rules.append(&mut docs);
    rules.append(&mut headers);
    rules.append(&mut commits);
    rules
}

/// Drops the sources of least priority until the others fit the budget.
/// Returns the sources that stay, by priority; how many were dropped; and the
/// tokens that those that stay are estimated at.
pub fn prune_sources_to_budget(
    sources: Vec<BootstrapSource>,
    max_input_tokens: usize,
) -> (r: (Vec<BootstrapSource>, usize, usize))
    ensures
        r.0@ == kept_sources(sources@, max_input_tokens as nat),
        r.1 == sources@.len() - r.0@.len(),
        r.2 == total_tokens(r.0@),
{
    let ghost all = sources@;
    proof {
        lemma_kinds_partition(all);
    }
    let mut kept: Vec<BootstrapSource> = by_priority(sources);
    let ghost order = kept@;
    let budget: usize = if max_input_tokens <= SCAFFOLDING_TOKENS {
        0
    } else {
        max_input_tokens - SCAFFOLDING_TOKENS
    };
    let collected: usize = kept.len();
    let mut k: usize = 0;
    let mut total: usize = 0;
    let mut full: bool = false;
    assert(order.take(0) =~= Seq::<BootstrapSource>::empty());
    while k < kept.len() && !full
        invariant
            kept@ == order,
            k <= kept.len(),
            total <= budget,
            total == total_tokens(order.take(k as int)),
            full ==> k < kept.len() && total_tokens(order.take(k + 1)) > budget,
        decreases kept.len() - k + if full {
            0int
        } else {
            1int
        },
    {
        let cost: usize = kept[k].text.as_str().unicode_len() / 4;
        assert(order.take(k + 1).drop_last() =~= order.take(k as int));
        if cost <= budget - total {
            total = total + cost;
            k = k + 1;
        } else {
            full = true;
        }
    }
    proof {
        lemma_fitting_is(order, budget as nat, k as int);
    }
    kept.truncate(k);
    (kept, collected - k, total)
}

impl SourceCounts {
    /// Counts the sources of each kind.
    pub fn from_sources(sources: &Vec<BootstrapSource>) -> (r: SourceCounts)
        ensures
            r.counts(sources@),
    {
        let mut r = SourceCounts {
            git_commits: 0,
            readme: 0,
            doc_files: 0,
            module_headers: 0,
            project_rules: 0,
        };
        let mut i: usize = 0;
        proof {
            reveal(Seq::filter);
            assert(sources@.take(0) =~= Seq::<BootstrapSource>::empty());
        }
        while i < sources.len()
            invariant
                i <= sources.len(),
                r.counts(sources@.take(i as int)),
            decreases sources.len() - i,
        {
            proof {
                let done = sources@.take(i as int);
                let s = sources@[i as int];
                assert(sources@.take(i + 1) =~= done.push(s));
                lemma_kinds_partition(done);
                lemma_of_kind_push(done, s, SourceKind::ProjectRules);
                lemma_of_kind_push(done, s, SourceKind::Readme);
                lemma_of_kind_push(done, s, SourceKind::DocFile);
                lemma_of_kind_push(done, s, SourceKind::ModuleHeader);
                lemma_of_kind_push(done, s, SourceKind::GitCommit);
            }
            match sources[i].kind {
                SourceKind::GitCommit => {
                    r.git_commits = r.git_commits + 1;
                },
                SourceKind::Readme => {
                    r.readme = r.readme + 1;
                },
                SourceKind::DocFile => {
                    r.doc_files = r.doc_files + 1;
                },
                SourceKind::ModuleHeader => {
                    r.module_headers = r.module_headers + 1;
                },
                SourceKind::ProjectRules => {
                    r.project_rules = r.project_rules + 1;
                },
            }
            i = i + 1;
        }
        assert(sources@.take(sources@.len() as int) =~= sources@);
        r
    }

    /// These are the numbers of sources of each kind.
    pub open spec fn counts(self, sources: Seq<BootstrapSource>) -> bool {
        &&& self.git_commits == of_kind(sources, SourceKind::GitCommit).len()
        &&& self.readme == of_kind(sources, SourceKind::Readme).len()
        &&& self.doc_files == of_kind(sources, SourceKind::DocFile).len()
        &&& self.module_headers == of_kind(sources, SourceKind::ModuleHeader).len()
        &&& self.project_rules == of_kind(sources, SourceKind::ProjectRules).len()
    }
}

/// The outcome of a dry run that kept `kept` of `collected` sources.
pub fn dry_run_outcome(
    collected: usize,
    kept: &Vec<BootstrapSource>,
    dropped: usize,
    estimated_tokens: usize,
) -> (r: BootstrapOutcome)
    ensures
        r.sources_collected == collected,
        r.sources_sent == kept@.len(),
        r.sources_dropped == dropped,
        r.sources_by_kind.counts(kept@),
        r.estimated_input_tokens == estimated_tokens,
        r.pages_written@.len() == 0,
        r.rationale@ == "(dry-run; LLM not invoked, no network round-trip)"@,
        r.dry_run,
{
    BootstrapOutcome {
        sources_collected: collected,
        sources_sent: kept.len(),
        sources_dropped: dropped,
        sources_by_kind: SourceCounts::from_sources(kept),
        estimated_input_tokens: estimated_tokens,
        pages_written: Vec::new(),
        rationale: "(dry-run; LLM not invoked, no network round-trip)".to_owned(),
        dry_run: true,
    }
}

/// What a bootstrap of these sources would send, found out without sending it.
pub fn local_dry_run(sources: Vec<BootstrapSource>, max_input_tokens: usize) -> (r:
    BootstrapOutcome)
    ensures
        r.sources_collected == sources@.len(),
        r.sources_sent == kept_sources(sources@, max_input_tokens as nat).len(),
        r.sources_dropped == sources@.len() - r.sources_sent,
        r.sources_by_kind.counts(kept_sources(sources@, max_input_tokens as nat)),
        r.estimated_input_tokens == total_tokens(
            kept_sources(sources@, max_input_tokens as nat),
        ),
        r.pages_written@.len() == 0,
        r.rationale@ == "(dry-run; LLM not invoked, no network round-trip)"@,
        r.dry_run,
{
    let collected: usize = sources.len();
    let (kept, dropped, tokens): (Vec<BootstrapSource>, usize, usize) = prune_sources_to_budget(
        sources,
        max_input_tokens,
    );
    dry_run_outcome(collected, &kept, dropped, tokens)
}

/// What is sent fits the budget, and is no more than what was collected.
pub proof fn law_pruning_fits_the_budget(sources: Seq<BootstrapSource>, max_input_tokens: nat)
    ensures
        total_tokens(kept_sources(sources, max_input_tokens)) <= source_budget(max_input_tokens),
        kept_sources(sources, max_input_tokens).len() <= sources.len(),
{
    lemma_kinds_partition(sources);
    lemma_fitting(ranked(sources), source_budget(max_input_tokens));
}

/// No source is dropped that would still have fitted behind those of higher
/// priority; where all fit, none is dropped.
pub proof fn law_pruning_drops_no_more_than_it_must(
    sources: Seq<BootstrapSource>,
    max_input_tokens: nat,
)
    ensures
        ({
            let n = kept_sources(sources, max_input_tokens).len() as int;
            n < sources.len() ==> total_tokens(ranked(sources).take(n + 1)) > source_budget(
                max_input_tokens,
            )
        }),
        total_tokens(ranked(sources)) <= source_budget(max_input_tokens) ==> kept_sources(
            sources,
            max_input_tokens,
        ) == ranked(sources),
{
    lemma_kinds_partition(sources);
    lemma_fitting(ranked(sources), source_budget(max_input_tokens));
    assert(ranked(sources).take(ranked(sources).len() as int) =~= ranked(sources));
}

/// Sources stand by priority, so one that is dropped is of no higher priority
/// than one that is kept.
pub proof fn law_lower_priority_is_dropped_first(
    sources: Seq<BootstrapSource>,
    max_input_tokens: nat,
    kept: int,
    dropped: int,
)
    requires
        0 <= kept < kept_sources(sources, max_input_tokens).len(),
        kept_sources(sources, max_input_tokens).len() <= dropped < ranked(sources).len(),
    ensures
        rank(ranked(sources)[kept].kind) <= rank(ranked(sources)[dropped].kind),
{
    lemma_fitting(ranked(sources), source_budget(max_input_tokens));
    lemma_block(sources, kept);
    lemma_block(sources, dropped);
}

pub proof fn lemma_block(sources: Seq<BootstrapSource>, i: int)
    requires
        0 <= i < ranked(sources).len(),
    ensures
        ({
            let a = of_kind(sources, SourceKind::ProjectRules).len() as int;
            let b = a + of_kind(sources, SourceKind::Readme).len();
            let c = b + of_kind(sources, SourceKind::DocFile).len();
            let d = c + of_kind(sources, SourceKind::ModuleHeader).len();
            rank(ranked(sources)[i].kind) == if i < a {
                0int
            } else if i < b {
                1int
            } else if i < c {
                2int
            } else if i < d {
                3int
            } else {
                4int
            }
        }),
{
    let p = of_kind(sources, SourceKind::ProjectRules);
    let q = of_kind(sources, SourceKind::Readme);
    let r = of_kind(sources, SourceKind::DocFile);
    let s = of_kind(sources, SourceKind::ModuleHeader);
    let t = of_kind(sources, SourceKind::GitCommit);
    let a = p.len() as int;
    let b = a + q.len();
    let c = b + r.len();
    let d = c + s.len();
    if i < a {
        assert(ranked(sources)[i] == p[i]);
        sources.lemma_filter_pred(|s: BootstrapSource| s.kind == SourceKind::ProjectRules, i);
    } else if i < b {
        assert(ranked(sources)[i] == q[i - a]);
        sources.lemma_filter_pred(|s: BootstrapSource| s.kind == SourceKind::Readme, i - a);
    } else if i < c {
        assert(ranked(sources)[i] == r[i - b]);
        sources.lemma_filter_pred(|s: BootstrapSource| s.kind == SourceKind::DocFile, i - b);
    } else if i < d {
        assert(ranked(sources)[i] == s[i - c]);
        sources.lemma_filter_pred(|s: BootstrapSource| s.kind == SourceKind::ModuleHeader, i - c);
    } else {
        assert(ranked(sources)[i] == t[i - d]);
        sources.lemma_filter_pred(|s: BootstrapSource| s.kind == SourceKind::GitCommit, i - d);
    }
}

/// The tally by kind adds up to the number of sources.
pub proof fn law_tally_adds_up(counts: SourceCounts, sources: Seq<BootstrapSource>)
    requires
        counts.counts(sources),
    ensures
        counts.git_commits + counts.readme + counts.doc_files + counts.module_headers
            + counts.project_rules == sources.len(),
{
    lemma_kinds_partition(sources);
}

} // verus!
