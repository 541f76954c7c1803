//! What holds of every start of the server, whatever its steps come to.

use crate::serve::{context_text, mismatch_text, started, ServeError, ServeOptions, Stage};
use crate::serve::{Startup, StepResult, TransportKind};
use vstd::prelude::*;

verus! {

/// After the first `k` steps the start has come to `stage`.
pub open spec fn reached(
    steps: Seq<StepResult>,
    options: ServeOptions,
    k: int,
    stage: Stage,
) -> bool {
    started(steps.take(k), options) matches Ok(s) && s.stage == stage
}

/// The step of `stage` has been made, and was done.
pub open spec fn did(steps: Seq<StepResult>, options: ServeOptions, stage: Stage) -> bool {
    exists|k: int|
        0 <= k < steps.len() && #[trigger] reached(steps, options, k, stage) && steps[k] is Done
}

/// The step of `stage` has been made, and nothing was configured for it.
pub open spec fn unset(steps: Seq<StepResult>, options: ServeOptions, stage: Stage) -> bool {
    exists|k: int|
        0 <= k < steps.len() && #[trigger] reached(steps, options, k, stage)
            && steps[k] is NotConfigured
}

proof fn lemma_did_grows(steps: Seq<StepResult>, options: ServeOptions, stage: Stage)
    requires
        steps.len() > 0,
    ensures
        did(steps, options, stage) <==> did(steps.drop_last(), options, stage) || (reached(
            steps,
            options,
            steps.len() - 1,
            stage,
        ) && steps.last() is Done),
        unset(steps, options, stage) <==> unset(steps.drop_last(), options, stage) || (reached(
            steps,
            options,
            steps.len() - 1,
            stage,
        ) && steps.last() is NotConfigured),
        reached(steps, options, steps.len() - 1, stage) <==> (started(
            steps.drop_last(),
            options,
        ) matches Ok(s) && s.stage == stage),
{
    let rest = steps.drop_last();
    let n = rest.len() as int;
    assert(steps.take(n) =~= rest);
    assert forall|k: int| 0 <= k < n implies steps.take(k) == rest.take(k) by {
        assert(steps.take(k) =~= rest.take(k));
    }
    if did(rest, options, stage) {
        let k = choose|k: int|
            0 <= k < rest.len() && #[trigger] reached(rest, options, k, stage) && rest[k] is Done;
        assert(reached(steps, options, k, stage));
    }
    if did(steps, options, stage) {
        let k = choose|k: int|
            0 <= k < steps.len() && #[trigger] reached(steps, options, k, stage)
                && steps[k] is Done;
        if k < n {
            assert(reached(rest, options, k, stage));
        }
    }
    if unset(rest, options, stage) {
        let k = choose|k: int|
            0 <= k < rest.len() && #[trigger] reached(rest, options, k, stage)
                && rest[k] is NotConfigured;
        assert(reached(steps, options, k, stage));
    }
    if unset(steps, options, stage) {
        let k = choose|k: int|
            0 <= k < steps.len() && #[trigger] reached(steps, options, k, stage)
                && steps[k] is NotConfigured;
        if k < n {
            assert(reached(rest, options, k, stage));
        }
    }
}

/// How far a stage is from the beginning.
pub open spec fn place(stage: Stage) -> int {
    match stage {
        Stage::OpenStore => 0,
        Stage::MakeWorkspace => 1,
        Stage::MakeProject => 2,
        Stage::CompileSanitizer => 3,
        Stage::OpenWiki => 4,
        Stage::ReadEmbedderConfig => 5,
        Stage::CheckEmbeddings => 6,
        Stage::BuildEmbedder => 7,
        Stage::StartWatcher => 8,
        Stage::ReadLlmConfig => 9,
        Stage::BuildLlm => 10,
        Stage::Bind => 11,
        Stage::Serve => 12,
        Stage::Stopped => 13,
    }
}

proof fn lemma_start(steps: Seq<StepResult>, options: ServeOptions)
    ensures
        started(steps, options) matches Ok(s) ==> {
            &&& place(s.stage) > 0 <==> did(steps, options, Stage::OpenStore)
            &&& place(s.stage) > 1 <==> did(steps, options, Stage::MakeWorkspace)
            &&& place(s.stage) > 2 <==> did(steps, options, Stage::MakeProject)
            &&& place(s.stage) > 3 <==> did(steps, options, Stage::CompileSanitizer)
            &&& place(s.stage) > 4 <==> did(steps, options, Stage::OpenWiki)
            &&& place(s.stage) > 5 <==> (did(steps, options, Stage::ReadEmbedderConfig) || unset(
                steps,
                options,
                Stage::ReadEmbedderConfig,
            ))
            &&& !(did(steps, options, Stage::ReadEmbedderConfig) && unset(
                steps,
                options,
                Stage::ReadEmbedderConfig,
            ))
            &&& did(steps, options, Stage::CheckEmbeddings) <==> place(s.stage) > 6 && did(
                steps,
                options,
                Stage::ReadEmbedderConfig,
            )
            &&& did(steps, options, Stage::BuildEmbedder) <==> place(s.stage) > 7 && did(
                steps,
                options,
                Stage::ReadEmbedderConfig,
            )
            &&& s.stage is CheckEmbeddings || s.stage is BuildEmbedder ==> did(
                steps,
                options,
                Stage::ReadEmbedderConfig,
            )
            &&& did(steps, options, Stage::StartWatcher) <==> place(s.stage) > 8
                && !options.no_watcher
            &&& s.stage is StartWatcher ==> !options.no_watcher
            &&& place(s.stage) > 9 <==> (did(steps, options, Stage::ReadLlmConfig) || unset(
                steps,
                options,
                Stage::ReadLlmConfig,
            ))
            &&& !(did(steps, options, Stage::ReadLlmConfig) && unset(
                steps,
                options,
                Stage::ReadLlmConfig,
            ))
            &&& did(steps, options, Stage::BuildLlm) <==> place(s.stage) > 10 && did(
                steps,
                options,
                Stage::ReadLlmConfig,
            )
            &&& s.stage is BuildLlm ==> did(steps, options, Stage::ReadLlmConfig)
            &&& did(steps, options, Stage::Bind) <==> place(s.stage) > 11 && options.transport
                == TransportKind::Http
            &&& s.stage is Bind ==> options.transport == TransportKind::Http
            &&& did(steps, options, Stage::Serve) <==> place(s.stage) > 12
            &&& s.embedder <==> did(steps, options, Stage::BuildEmbedder)
            &&& s.watcher <==> did(steps, options, Stage::StartWatcher)
            &&& s.consolidator <==> did(steps, options, Stage::BuildLlm)
        },
    decreases steps.len(),
{
    if steps.len() > 0 {
        lemma_start(steps.drop_last(), options);
        lemma_did_grows(steps, options, Stage::OpenStore);
        lemma_did_grows(steps, options, Stage::MakeWorkspace);
        lemma_did_grows(steps, options, Stage::MakeProject);
        lemma_did_grows(steps, options, Stage::CompileSanitizer);
        lemma_did_grows(steps, options, Stage::OpenWiki);
        lemma_did_grows(steps, options, Stage::ReadEmbedderConfig);
        lemma_did_grows(steps, options, Stage::CheckEmbeddings);
        lemma_did_grows(steps, options, Stage::BuildEmbedder);
        lemma_did_grows(steps, options, Stage::StartWatcher);
        lemma_did_grows(steps, options, Stage::ReadLlmConfig);
        lemma_did_grows(steps, options, Stage::BuildLlm);
        lemma_did_grows(steps, options, Stage::Bind);
        lemma_did_grows(steps, options, Stage::Serve);
    } else {
        assert forall|stage: Stage| !did(steps, options, stage) && !unset(
            steps,
            options,
            stage,
        ) by {}
    }
}

/// A server over HTTP serves only on an address that was opened, whether or not
/// an embedder or a language model is configured; one over standard input and
/// output opens none.
pub proof fn law_http_is_served_on_an_opened_address(
    steps: Seq<StepResult>,
    options: ServeOptions,
)
    ensures
        started(steps, options) matches Ok(s) && (s.stage is Serve || s.stage is Stopped) ==> {
            &&& options.transport == TransportKind::Http ==> exists|k: int|
                0 <= k < steps.len() && #[trigger] reached(steps, options, k, Stage::Bind)
                    && steps[k] is Done
            &&& options.transport == TransportKind::Stdio ==> !did(steps, options, Stage::Bind)
        },
        started(steps, options) matches Ok(s) && s.stage is Bind ==> options.transport
            == TransportKind::Http,
{
    lemma_start(steps, options);
}

/// What serves has been put together from everything that it needs, each of
/// them done: the store, the workspace, the project, the sanitizer and the wiki;
/// and both configurations have been read.
pub proof fn law_a_server_has_all_that_it_needs(steps: Seq<StepResult>, options: ServeOptions)
    ensures
        started(steps, options) matches Ok(s) && (s.stage is Serve || s.stage is Stopped) ==> {
            &&& did(steps, options, Stage::OpenStore)
            &&& did(steps, options, Stage::MakeWorkspace)
            &&& did(steps, options, Stage::MakeProject)
            &&& did(steps, options, Stage::CompileSanitizer)
            &&& did(steps, options, Stage::OpenWiki)
            &&& did(steps, options, Stage::ReadEmbedderConfig) != unset(
                steps,
                options,
                Stage::ReadEmbedderConfig,
            )
            &&& did(steps, options, Stage::ReadLlmConfig) != unset(
                steps,
                options,
                Stage::ReadLlmConfig,
            )
        },
{
    lemma_start(steps, options);
}

/// What is configured is part of what serves, and nothing else is: an embedder,
/// checked against what is stored before it is built; a language model; and a
/// watcher, unless it is switched off.
pub proof fn law_what_is_configured_is_built(steps: Seq<StepResult>, options: ServeOptions)
    ensures
        started(steps, options) matches Ok(s) ==> {
            &&& s.embedder <==> did(steps, options, Stage::BuildEmbedder)
            &&& s.consolidator <==> did(steps, options, Stage::BuildLlm)
            &&& s.watcher <==> did(steps, options, Stage::StartWatcher)
            &&& did(steps, options, Stage::BuildEmbedder) ==> did(
                steps,
                options,
                Stage::CheckEmbeddings,
            )
        },
        started(steps, options) matches Ok(s) ==> (s.stage is Bind || s.stage is Serve
            || s.stage is Stopped) ==> {
            &&& s.embedder <==> did(steps, options, Stage::ReadEmbedderConfig)
            &&& s.embedder <==> !unset(steps, options, Stage::ReadEmbedderConfig)
            &&& s.consolidator <==> did(steps, options, Stage::ReadLlmConfig)
            &&& s.consolidator <==> !unset(steps, options, Stage::ReadLlmConfig)
            &&& s.watcher <==> !options.no_watcher
        },
{
    lemma_start(steps, options);
}

/// Every step leads on: a start never comes back to where it was, until it has
/// stopped.
pub proof fn law_every_step_leads_on(s: Startup, step: StepResult, options: ServeOptions)
    ensures
        s.after(step, options) matches Ok(next) ==> {
            ||| place(next.stage) > place(s.stage)
            ||| s.stage is Stopped && next == s
        },
        step is Done && s.stage is Serve ==> s.after(step, options) is Ok && s.after(
            step,
            options,
        )->Ok_0.stage is Stopped,
{
}

/// A step that is done always leads on; one that fails ends the start with its
/// own message. Nothing being configured is an answer only where a
/// configuration is read, and a mismatch only where embeddings are compared.
pub proof fn law_how_a_step_ends_a_start(s: Startup, step: StepResult, options: ServeOptions)
    ensures
        step is Done ==> s.after(step, options) is Ok,
        step matches StepResult::Failed(message) ==> s.after(step, options) == Err::<
            Startup,
            ServeError,
        >(ServeError::StepFailed(s.stage, message)),
        step is NotConfigured ==> (s.after(step, options) is Ok <==> s.stage is ReadEmbedderConfig
            || s.stage is ReadLlmConfig),
        step is NotConfigured && !(s.stage is ReadEmbedderConfig || s.stage is ReadLlmConfig)
            ==> s.after(step, options) == Err::<Startup, ServeError>(
            ServeError::OutOfOrder(s.stage),
        ),
        step matches StepResult::Mismatch(shown) ==> s.after(step, options) == Err::<
            Startup,
            ServeError,
        >(
            if s.stage is CheckEmbeddings {
                ServeError::EmbeddingMismatch(shown)
            } else {
                ServeError::OutOfOrder(s.stage)
            },
        ),
{
}

/// A start begins with opening the store, and with no part built.
pub proof fn law_a_start_begins_with_nothing(options: ServeOptions)
    ensures
        started(Seq::empty(), options) matches Ok(s) && s.stage is OpenStore && !s.embedder
            && !s.watcher && !s.consolidator,
        Startup::first().stage is OpenStore,
        !Startup::first().embedder && !Startup::first().watcher && !Startup::first().consolidator,
{
}

/// After one more step a start is where that step leads it, and one that has
/// ended stays ended for the same reason.
pub proof fn law_one_more_step(
    steps: Seq<StepResult>,
    step: StepResult,
    options: ServeOptions,
)
    ensures
        started(steps, options) matches Ok(s) ==> started(steps.push(step), options) == s.after(
            step,
            options,
        ),
        started(steps, options) matches Err(e) ==> started(steps.push(step), options) == Err::<
            Startup,
            ServeError,
        >(e),
{
    assert(steps.push(step).drop_last() =~= steps);
}

/// What the operator is told of a failure: which embeddings disagree and what to
/// do about it; and what was being done, where that is the store, the
/// sanitizer, the embedder, the language model or the address.
pub proof fn law_what_a_failure_is_told_as(shown: Seq<char>, data_dir: Seq<char>, bind: Seq<char>)
    ensures
        mismatch_text(shown) == "embedding (provider, model, dim) mismatch with stored data: "@
            + shown + " — run `ai-memory embed --reembed` to migrate"@,
        context_text(Stage::OpenStore, data_dir, bind) == Some("opening store at "@ + data_dir),
        context_text(Stage::CompileSanitizer, data_dir, bind) == Some(
            "compiling sanitizer.extra_patterns from config"@,
        ),
        context_text(Stage::BuildEmbedder, data_dir, bind) == Some(
            "building embedder from env"@,
        ),
        context_text(Stage::BuildLlm, data_dir, bind) == Some("building LLM provider from env"@),
        context_text(Stage::Bind, data_dir, bind) == Some("binding "@ + bind),
        context_text(Stage::MakeWorkspace, data_dir, bind) is None,
        context_text(Stage::MakeProject, data_dir, bind) is None,
        context_text(Stage::OpenWiki, data_dir, bind) is None,
        context_text(Stage::ReadEmbedderConfig, data_dir, bind) is None,
        context_text(Stage::CheckEmbeddings, data_dir, bind) is None,
        context_text(Stage::StartWatcher, data_dir, bind) is None,
        context_text(Stage::ReadLlmConfig, data_dir, bind) is None,
        context_text(Stage::Serve, data_dir, bind) is None,
        context_text(Stage::Stopped, data_dir, bind) is None,
{
}

} // verus!
