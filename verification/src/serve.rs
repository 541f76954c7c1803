//! Bringing the server up, step by step.
//!
//! Everything but the store and the wiki is optional: without an embedder
//! search goes by words alone, without a language model nothing is
//! consolidated, and the watcher can be switched off. But a server never runs
//! over embeddings that were made with another model than the one configured.

use vstd::prelude::*;
use vstd::string::StringExecFns;

verus! {

/// How clients reach the server.
#[derive(Debug, Clone, Copy, PartialEq, Eq, Structural)]
pub enum TransportKind {
    Stdio,
    Http,
}

/// What the operator chose.
#[derive(Debug, Clone, Copy, PartialEq, Eq, Structural)]
pub struct ServeOptions {
    pub no_watcher: bool,
    pub transport: TransportKind,
}

/// A step of the start, each of which is work for the caller.
#[derive(Debug, Clone, Copy, PartialEq, Eq, Structural)]
pub enum Stage {
    OpenStore,
    MakeWorkspace,
    MakeProject,
    CompileSanitizer,
    OpenWiki,
    ReadEmbedderConfig,
    /// Compare the stored embeddings with the configured model.
    CheckEmbeddings,
    BuildEmbedder,
    StartWatcher,
    ReadLlmConfig,
    BuildLlm,
    /// Open the address to listen on.
    Bind,
    /// Serve until told to stop.
    Serve,
    Stopped,
}

/// How far the start has come, and what the server is made up of so far.
#[derive(Debug, Clone, Copy, PartialEq, Eq, Structural)]
pub struct Startup {
    pub stage: Stage,
    pub embedder: bool,
    pub watcher: bool,
    pub consolidator: bool,
}

/// What a step came to.
#[derive(Debug)]
pub enum StepResult {
    Done,
    /// Nothing is configured that the step would read.
    NotConfigured,
    /// Stored embeddings disagree with the configured model; this is how they
    /// are shown.
    Mismatch(String),
    /// It failed, with this message.
    Failed(String),
}

/// Why the server does not come up.
#[derive(Debug)]
pub enum ServeError {
    /// A step failed, with this message.
    StepFailed(Stage, String),
    /// Stored embeddings disagree with the configured model.
    EmbeddingMismatch(String),
    /// A step was answered with what it cannot come to.
    OutOfOrder(Stage),
}

impl Startup {
    /// Nothing has been done yet.
    pub open spec fn first() -> Startup {
        Startup { stage: Stage::OpenStore, embedder: false, watcher: false, consolidator: false }
    }

    /// At another stage, with the same parts.
    pub open spec fn at(self, stage: Stage) -> Startup {
        Startup { stage, ..self }
    }

    /// What follows the language model: serving, for which an address is
    /// needed only over HTTP.
    pub open spec fn past_llm(self, options: ServeOptions) -> Startup {
        match options.transport {
            TransportKind::Stdio => self.at(Stage::Serve),
            TransportKind::Http => self.at(Stage::Bind),
        }
    }

    /// What follows the embedder: the watcher, unless it is switched off.
    pub open spec fn past_embedder(self, options: ServeOptions) -> Startup {
        if options.no_watcher {
            self.at(Stage::ReadLlmConfig)
        } else {
            self.at(Stage::StartWatcher)
        }
    }

    /// Where the start stands once its step is done.
    pub open spec fn after_done(self, options: ServeOptions) -> Startup {
        match self.stage {
            Stage::OpenStore => self.at(Stage::MakeWorkspace),
            Stage::MakeWorkspace => self.at(Stage::MakeProject),
            Stage::MakeProject => self.at(Stage::CompileSanitizer),
            Stage::CompileSanitizer => self.at(Stage::OpenWiki),
            Stage::OpenWiki => self.at(Stage::ReadEmbedderConfig),
            Stage::ReadEmbedderConfig => self.at(Stage::CheckEmbeddings),
            Stage::CheckEmbeddings => self.at(Stage::BuildEmbedder),
            Stage::BuildEmbedder => (Startup { embedder: true, ..self }).past_embedder(options),
            Stage::StartWatcher => (Startup { watcher: true, ..self }).at(Stage::ReadLlmConfig),
            Stage::ReadLlmConfig => self.at(Stage::BuildLlm),
            Stage::BuildLlm => (Startup { consolidator: true, ..self }).past_llm(options),
            Stage::Bind => self.at(Stage::Serve),
            Stage::Serve => self.at(Stage::Stopped),
            Stage::Stopped => self,
        }
    }

    /// Where the start stands after a step, and why it ends if it does.
    pub open spec fn after(self, step: StepResult, options: ServeOptions) -> Result<Startup, ServeError> {
        match step {
            StepResult::Failed(message) => Err(ServeError::StepFailed(self.stage, message)),
            StepResult::Done => Ok(self.after_done(options)),
            StepResult::NotConfigured => match self.stage {
                Stage::ReadEmbedderConfig => Ok(self.past_embedder(options)),
                Stage::ReadLlmConfig => Ok(self.past_llm(options)),
                _ => Err(ServeError::OutOfOrder(self.stage)),
            },
            StepResult::Mismatch(shown) => match self.stage {
                Stage::CheckEmbeddings => Err(ServeError::EmbeddingMismatch(shown)),
                _ => Err(ServeError::OutOfOrder(self.stage)),
            },
        }
    }

    /// The start before its first step.
    pub fn begin() -> (r: Startup)
        ensures
            r == Startup::first(),
    {
        Startup { stage: Stage::OpenStore, embedder: false, watcher: false, consolidator: false }
    }

    /// The start after one more step.
    pub fn advance(self, step: StepResult, options: ServeOptions) -> (r: Result<Startup, ServeError>)
        ensures
            r == self.after(step, options),
    {
        let mut next = self;
        match step {
            StepResult::Failed(message) => {
                return Err(ServeError::StepFailed(self.stage, message));
            },
            StepResult::Mismatch(shown) => {
                return match self.stage {
                    Stage::CheckEmbeddings => Err(ServeError::EmbeddingMismatch(shown)),
                    _ => Err(ServeError::OutOfOrder(self.stage)),
                };
            },
            StepResult::NotConfigured => {
                match self.stage {
                    Stage::ReadEmbedderConfig => {
                        next.stage = after_embedder(options);
                    },
                    Stage::ReadLlmConfig => {
                        next.stage = after_llm(options);
                    },
                    _ => {
                        return Err(ServeError::OutOfOrder(self.stage));
                    },
                }
            },
            StepResult::Done => {
                match self.stage {
                    Stage::OpenStore => {
                        next.stage = Stage::MakeWorkspace;
                    },
                    Stage::MakeWorkspace => {
                        next.stage = Stage::MakeProject;
                    },
                    Stage::MakeProject => {
                        next.stage = Stage::CompileSanitizer;
                    },
                    Stage::CompileSanitizer => {
                        next.stage = Stage::OpenWiki;
                    },
                    Stage::OpenWiki => {
                        next.stage = Stage::ReadEmbedderConfig;
                    },
                    Stage::ReadEmbedderConfig => {
                        next.stage = Stage::CheckEmbeddings;
                    },
                    Stage::CheckEmbeddings => {
                        next.stage = Stage::BuildEmbedder;
                    },
                    Stage::BuildEmbedder => {
                        next.embedder = true;
                        next.stage = after_embedder(options);
                    },
                    Stage::StartWatcher => {
                        next.watcher = true;
                        next.stage = Stage::ReadLlmConfig;
                    },
                    Stage::ReadLlmConfig => {
                        next.stage = Stage::BuildLlm;
                    },
                    Stage::BuildLlm => {
                        next.consolidator = true;
                        next.stage = after_llm(options);
                    },
                    Stage::Bind => {
                        next.stage = Stage::Serve;
                    },
                    Stage::Serve => {
                        next.stage = Stage::Stopped;
                    },
                    Stage::Stopped => {},
                }
            },
        }
        Ok(next)
    }
}

fn after_llm(options: ServeOptions) -> (r: Stage)
    ensures
        r == Startup::first().past_llm(options).stage,
{
    match options.transport {
        TransportKind::Stdio => Stage::Serve,
        TransportKind::Http => Stage::Bind,
    }
}

fn after_embedder(options: ServeOptions) -> (r: Stage)
    ensures
        r == Startup::first().past_embedder(options).stage,
{
    if options.no_watcher {
        Stage::ReadLlmConfig
    } else {
        Stage::StartWatcher
    }
}

impl ServeError {
    /// The error in words.
    pub fn message(&self) -> (r: String)
        ensures
            r@ == (match *self {
                ServeError::StepFailed(_, message) => message@,
                ServeError::EmbeddingMismatch(shown) => mismatch_text(shown@),
                ServeError::OutOfOrder(_) => "startup step answered out of order"@,
            }),
    {
        match self {
            ServeError::StepFailed(_, message) => message.clone(),
            ServeError::EmbeddingMismatch(shown) => {
                let mut r =
                    "embedding (provider, model, dim) mismatch with stored data: ".to_owned();
                r.append(shown.as_str());
                r.append(" — run `ai-memory embed --reembed` to migrate");
                r
            },
            ServeError::OutOfOrder(_) => "startup step answered out of order".to_owned(),
        }
    }
}

/// What the operator is told when stored embeddings disagree with the
/// configured model.
pub open spec fn mismatch_text(shown: Seq<char>) -> Seq<char> {
    "embedding (provider, model, dim) mismatch with stored data: "@ + shown
        + " — run `ai-memory embed --reembed` to migrate"@
}

/// What a failing step is said to have been doing, where it is said.
pub open spec fn context_text(stage: Stage, data_dir: Seq<char>, bind: Seq<char>) -> Option<
    Seq<char>,
> {
    match stage {
        Stage::OpenStore => Some("opening store at "@ + data_dir),
        Stage::CompileSanitizer => Some("compiling sanitizer.extra_patterns from config"@),
        Stage::BuildEmbedder => Some("building embedder from env"@),
        Stage::BuildLlm => Some("building LLM provider from env"@),
        Stage::Bind => Some("binding "@ + bind),
        _ => None,
    }
}

/// What a failing step is said to have been doing, where it is said.
pub fn context_of(stage: Stage, data_dir: &str, bind: &str) -> (r: Option<String>)
    ensures
        match r {
            Some(text) => context_text(stage, data_dir@, bind@) == Some(text@),
            None => context_text(stage, data_dir@, bind@) is None,
        },
{
    match stage {
        Stage::OpenStore => {
            let mut text = "opening store at ".to_owned();
            text.append(data_dir);
            Some(text)
        },
        Stage::CompileSanitizer => Some(
            "compiling sanitizer.extra_patterns from config".to_owned(),
        ),
        Stage::BuildEmbedder => Some("building embedder from env".to_owned()),
        Stage::BuildLlm => Some("building LLM provider from env".to_owned()),
        Stage::Bind => {
            let mut text = "binding ".to_owned();
            text.append(bind);
            Some(text)
        },
        _ => None,
    }
}

/// What comparing the stored embeddings with the configured model came to:
/// `mismatches` are those that disagree, and `shown` is how they are shown.
pub fn compared(mismatches: &Vec<String>, shown: String) -> (r: StepResult)
    ensures
        mismatches@.len() == 0 <==> r is Done,
        mismatches@.len() > 0 ==> r == StepResult::Mismatch(shown),
{
    if mismatches.len() == 0 {
        StepResult::Done
    } else {
        StepResult::Mismatch(shown)
    }
}

/// The address to listen on: the one asked for, or else the configured one.
pub fn effective_bind(asked: Option<String>, configured: String) -> (r: String)
    ensures
        r == match asked {
            Some(bind) => bind,
            None => configured,
        },
{
    match asked {
        Some(bind) => bind,
        None => configured,
    }
}

/// A start after these steps.
pub open spec fn started(steps: Seq<StepResult>, options: ServeOptions) -> Result<
    Startup,
    ServeError,
>
    decreases steps.len(),
{
    if steps.len() == 0 {
        Ok(Startup::first())
    } else {
        match started(steps.drop_last(), options) {
            Ok(s) => s.after(steps.last(), options),
            Err(e) => Err(e),
        }
    }
}

/// The stages up to the building of the embedder.
pub open spec fn before_embedder(stage: Stage) -> bool {
    match stage {
        Stage::StartWatcher | Stage::ReadLlmConfig | Stage::BuildLlm | Stage::Bind | Stage::Serve
        | Stage::Stopped => false,
        _ => true,
    }
}

/// The stages in which all parts of the server are there.
pub open spec fn assembled(stage: Stage) -> bool {
    stage is Bind || stage is Serve || stage is Stopped
}

/// No server runs over embeddings that disagree with the configured model, nor
/// past a step that failed: from the first such step on the start has ended.
pub proof fn law_a_refused_start_stays_refused(
    steps: Seq<StepResult>,
    options: ServeOptions,
    at: int,
)
    requires
        0 <= at < steps.len(),
        steps[at] is Failed || steps[at] is Mismatch,
    ensures
        started(steps, options) is Err,
    decreases steps.len(),
{
    if at < steps.len() - 1 {
        law_a_refused_start_stays_refused(steps.drop_last(), options, at);
    }
}

/// A server that is up has a watcher exactly where none was refused; an
/// embedder or a language model is part of it only once it has been built; and
/// an address is opened only to serve over HTTP.
pub proof fn law_a_server_has_what_was_built(steps: Seq<StepResult>, options: ServeOptions)
    ensures
        match started(steps, options) {
            Ok(s) => {
                &&& s.watcher ==> !options.no_watcher
                &&& s.stage is StartWatcher ==> !options.no_watcher
                &&& (assembled(s.stage) || s.stage is ReadLlmConfig || s.stage is BuildLlm)
                    ==> s.watcher == !options.no_watcher
                &&& s.embedder ==> !before_embedder(s.stage)
                &&& s.consolidator ==> assembled(s.stage)
                &&& s.stage is Bind ==> options.transport == TransportKind::Http
            },
            Err(_) => true,
        },
    decreases steps.len(),
{
    if steps.len() > 0 {
        law_a_server_has_what_was_built(steps.drop_last(), options);
    }
}

/// A server comes up with neither an embedder nor a language model configured.
pub proof fn law_everything_optional_can_be_absent(steps: Seq<StepResult>, options: ServeOptions)
    requires
        steps.len() == if options.no_watcher {
            7int
        } else {
            8int
        },
        forall|i: int|
            0 <= i < steps.len() ==> if i == 5 || i == steps.len() - 1 {
                (#[trigger] steps[i]) is NotConfigured
            } else {
                steps[i] is Done
            },
    ensures
        started(steps, options) == Ok::<Startup, ServeError>(
            (Startup {
                stage: Stage::ReadLlmConfig,
                embedder: false,
                watcher: !options.no_watcher,
                consolidator: false,
            }).past_llm(options),
        ),
{
    reveal_with_fuel(started, 2);
    let s = steps;
    let n = s.len() as int;
    assert(s.take(n) =~= s);
    assert forall|k: int| 0 < k <= n implies #[trigger] s.take(k).drop_last() == s.take(k - 1) by {
        assert(s.take(k).drop_last() =~= s.take(k - 1));
    }
    assert(s.take(0) =~= Seq::<StepResult>::empty());
    let ok = |stage: Stage| Ok::<Startup, ServeError>(Startup::first().at(stage));
    assert(started(s.take(0), options) == ok(Stage::OpenStore));
    assert(started(s.take(1), options) == ok(Stage::MakeWorkspace));
    assert(started(s.take(2), options) == ok(Stage::MakeProject));
    assert(started(s.take(3), options) == ok(Stage::CompileSanitizer));
    assert(started(s.take(4), options) == ok(Stage::OpenWiki));
    assert(started(s.take(5), options) == ok(Stage::ReadEmbedderConfig));
    assert(started(s.take(6), options) == Ok::<Startup, ServeError>(
        Startup::first().past_embedder(options),
    ));
    assert(started(s.take(7), options) is Ok);
}

} // verus!
