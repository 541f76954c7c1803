//! The hook configuration that is suggested for an agent.
//!
//! Nothing is changed on disk: the operator is shown what to add to the
//! agent's own settings, and where the hook scripts lie.

use crate::host::HostAgent;
use crate::json::{empty_object, json_of, list_value, no_fields, object_value, pretty, pretty_text};
use crate::json::{put, text_value, Json};
use crate::paths::{extension_is, has_extension, join, join_text, parent, parent_text};
use crate::text::texts;
use serde_json::Value;
use vstd::prelude::*;
use vstd::string::StringExecFns;

verus! {

/// The agents that hooks can be installed for. `ClaudeCode` is the one whose
/// settings are written out in full: the host agent.
#[derive(Debug, Clone, Copy, PartialEq, Eq, Structural)]
pub enum AgentChoice {
    ClaudeCode,
    Codex,
    OpenCode,
}

/// What the operator asks for.
#[derive(Debug)]
pub struct InstallHooksArgs {
    pub agent: AgentChoice,
    /// The directory above those of the agents, where the operator names one.
    pub hooks_dir: Option<String>,
    pub server_url: String,
    pub auth_token: Option<String>,
}

/// One entry of a directory.
#[derive(Debug)]
pub struct ListedFile {
    pub path: String,
    pub is_file: bool,
}

/// What the machine says of the places that are looked at.
#[derive(Debug)]
pub struct Surroundings {
    /// The working directory, against which relative paths are taken.
    pub cwd: String,
    /// The running program.
    pub exe: Option<String>,
    /// The user's directory for local data.
    pub data_local: Option<String>,
    /// For each candidate for the directory of scripts, whether it is a
    /// directory.
    pub is_dir: Vec<bool>,
    /// For each script of the host agent, whether it is there.
    pub script_exists: Vec<bool>,
    /// What stands in the directory of scripts.
    pub listing: Vec<ListedFile>,
}

/// Why there is nothing to suggest.
#[derive(Debug)]
pub enum InstallError {
    /// The directory that the operator named, as named, has none for the agent.
    NoSuchDirectory(String),
    /// None of these directories exists.
    NotLocated(Vec<String>),
    /// This script is missing.
    MissingScript(String),
    /// The configuration of this agent could not be written down.
    Serialize(String),
}

/// The text that `{:?}` gives for a path.
pub uninterp spec fn debug_text(s: Seq<char>) -> Seq<char>;

/// `std::path::Path`'s `Debug`, as `format!` uses it: the path in quotes, with
/// escapes. No more is claimed of it than that it depends on the path alone.
#[verifier::external_body]
fn debug(s: &str) -> (r: String)
    ensures
        r@ == debug_text(s@),
{
    format!("{:?}", std::path::Path::new(s))
}

/// The directory of an agent among those of all agents.
pub open spec fn agent_dir(agent: AgentChoice, host: HostAgent) -> Seq<char> {
    match agent {
        AgentChoice::ClaudeCode => host.dir@,
        AgentChoice::Codex => "codex"@,
        AgentChoice::OpenCode => "opencode"@,
    }
}

/// The directory of an agent among those of all agents.
pub fn agent_dir_of(agent: AgentChoice, host: &HostAgent) -> (r: &str)
    ensures
        r@ == agent_dir(agent, *host),
{
    match agent {
        AgentChoice::ClaudeCode => host.dir.as_str(),
        AgentChoice::Codex => "codex",
        AgentChoice::OpenCode => "opencode",
    }
}

/// Three directories up, where there are so many.
pub open spec fn three_up(exe: Seq<char>) -> Option<Seq<char>> {
    match parent_text(exe) {
        Some(a) => match parent_text(a) {
            Some(b) => parent_text(b),
            None => None,
        },
        None => None,
    }
}

/// Where the repository lies, if the program was built in it: above
/// `target`, the directory of the build profile and the program.
pub fn repo_root_guess(exe: &str) -> (r: Option<String>)
    ensures
        match r {
            Some(root) => three_up(exe@) == Some(root@),
            None => three_up(exe@) is None,
        },
{
    match parent(exe) {
        Some(a) => match parent(a.as_str()) {
            Some(b) => parent(b.as_str()),
            None => None,
        },
        None => None,
    }
}

/// The directory that the operator means, taken against the working directory.
pub open spec fn explicit_dir(
    cwd: Seq<char>,
    hooks_dir: Seq<char>,
    agent: AgentChoice,
    host: HostAgent,
) -> Seq<char> {
    join_text(join_text(cwd, hooks_dir), agent_dir(agent, host))
}

/// The candidate in the repository that the program was built in; empty where
/// there is none.
pub open spec fn repo_candidate(
    cwd: Seq<char>,
    exe: Option<String>,
    agent: AgentChoice,
    host: HostAgent,
) -> Seq<char> {
    match exe {
        Some(e) => match three_up(e@) {
            Some(root) => join_text(
                join_text(join_text(cwd, root), "hooks"@),
                agent_dir(agent, host),
            ),
            None => Seq::empty(),
        },
        None => Seq::empty(),
    }
}

/// The candidate in the container image.
pub open spec fn image_candidate(agent: AgentChoice, host: HostAgent) -> Seq<char> {
    "/usr/local/share/ai-memory/hooks/"@ + agent_dir(agent, host)
}

/// The candidate in the user's directory for local data; empty where there is
/// none.
pub open spec fn local_candidate(
    cwd: Seq<char>,
    data_local: Option<String>,
    agent: AgentChoice,
    host: HostAgent,
) -> Seq<char> {
    match data_local {
        Some(d) => join_text(
            join_text(join_text(cwd, d@), "ai-memory/hooks"@),
            agent_dir(agent, host),
        ),
        None => Seq::empty(),
    }
}

/// The directories in which the scripts may lie, in the order in which they
/// are tried: the one that the operator names, or else the one in the
/// repository, the one in the container image and the one in the user's data.
/// Relative paths are taken against the working directory.
pub open spec fn candidate_dirs(
    args: InstallHooksArgs,
    host: HostAgent,
    cwd: Seq<char>,
    exe: Option<String>,
    data_local: Option<String>,
) -> Seq<Seq<char>> {
    match args.hooks_dir {
        Some(dir) => seq![explicit_dir(cwd, dir@, args.agent, host)],
        None => seq![
            repo_candidate(cwd, exe, args.agent, host),
            image_candidate(args.agent, host),
            local_candidate(cwd, data_local, args.agent, host),
        ],
    }
}

/// The directories in which the scripts may lie, in the order in which they
/// are tried. Relative paths are taken against `cwd`.
pub fn hooks_dir_candidates(
    args: &InstallHooksArgs,
    host: &HostAgent,
    cwd: &str,
    exe: &Option<String>,
    data_local: &Option<String>,
) -> (r: Vec<String>)
    ensures
        texts(r@) == candidate_dirs(*args, *host, cwd@, *exe, *data_local),
{
    let sub = agent_dir_of(args.agent, host);
    let mut r: Vec<String> = Vec::new();
    match &args.hooks_dir {
        Some(dir) => {
            r.push(join(join(cwd, dir.as_str()).as_str(), sub));
        },
        None => {
            let in_repo = match exe {
                Some(e) => match repo_root_guess(e.as_str()) {
                    Some(root) => {
                        let root = join(cwd, root.as_str());
                        join(join(root.as_str(), "hooks").as_str(), sub)
                    },
                    None => String::new(),
                },
                None => String::new(),
            };
            r.push(in_repo);
            let mut in_image = "/usr/local/share/ai-memory/hooks/".to_owned();
            in_image.append(sub);
            r.push(in_image);
            let in_data = match data_local {
                Some(d) => {
                    let data = join(cwd, d.as_str());
                    join(join(data.as_str(), "ai-memory/hooks").as_str(), sub)
                },
                None => String::new(),
            };
            r.push(in_data);
        },
    }
    assert(texts(r@) =~= candidate_dirs(*args, *host, cwd@, *exe, *data_local));
    r
}

/// The machine says yes to the question at `i`.
pub open spec fn says(answers: Seq<bool>, i: int) -> bool {
    i < answers.len() && answers[i]
}

/// A candidate can be used: it is there at all, and it is a directory.
pub open spec fn usable(candidates: Seq<Seq<char>>, is_dir: Seq<bool>, i: int) -> bool {
    candidates[i].len() > 0 && says(is_dir, i)
}

/// `i` is the first candidate that can be used.
pub open spec fn first_usable(candidates: Seq<Seq<char>>, is_dir: Seq<bool>, i: int) -> bool {
    &&& 0 <= i < candidates.len()
    &&& usable(candidates, is_dir, i)
    &&& forall|j: int| 0 <= j < i ==> !#[trigger] usable(candidates, is_dir, j)
}

/// The directory that the operator means, as the operator names it.
pub open spec fn dir_as_given(args: InstallHooksArgs, host: HostAgent) -> Option<Seq<char>> {
    match args.hooks_dir {
        Some(dir) => Some(join_text(dir@, agent_dir(args.agent, host))),
        None => None,
    }
}

/// The directory that the operator means, as the operator names it.
pub fn given_dir(args: &InstallHooksArgs, host: &HostAgent) -> (r: Option<String>)
    ensures
        match r {
            Some(dir) => dir_as_given(*args, *host) == Some(dir@),
            None => dir_as_given(*args, *host) is None,
        },
{
    match &args.hooks_dir {
        Some(dir) => Some(join(dir.as_str(), agent_dir_of(args.agent, host))),
        None => None,
    }
}

/// The directory of scripts: the first candidate that is a directory. `given`
/// is how the operator named one; where there is none, that is what is said not
/// to exist.
pub fn resolve_hooks_dir(
    given: &Option<String>,
    candidates: &Vec<String>,
    is_dir: &Vec<bool>,
) -> (r: Result<String, InstallError>)
    ensures
        match r {
            Ok(dir) => exists|i: int| #[trigger]
                first_usable(texts(candidates@), is_dir@, i) && dir@ == candidates@[i]@,
            Err(e) => {
                &&& forall|i: int|
                    0 <= i < candidates@.len() ==> !#[trigger] usable(
                        texts(candidates@),
                        is_dir@,
                        i,
                    )
                &&& match e {
                    InstallError::NoSuchDirectory(dir) => given is Some && dir@
                        == given->Some_0@,
                    InstallError::NotLocated(tried) => given is None && texts(tried@) == texts(
                        candidates@,
                    ),
                    _ => false,
                }
            },
        },
{
    let ghost paths = texts(candidates@);
    let mut i: usize = 0;
    while i < candidates.len()
        invariant
            i <= candidates.len(),
            paths == texts(candidates@),
            forall|j: int| 0 <= j < i ==> !#[trigger] usable(paths, is_dir@, j),
        decreases candidates.len() - i,
    {
        assert(paths[i as int] == candidates@[i as int]@);
        if !candidates[i].as_str().is_empty() && i < is_dir.len() && is_dir[i] {
            assert(first_usable(paths, is_dir@, i as int));
            return Ok(candidates[i].clone());
        }
        i += 1;
    }
    match given {
        Some(dir) => {
            return Err(InstallError::NoSuchDirectory(dir.clone()));
        },
        None => {},
    }
    let mut tried: Vec<String> = Vec::new();
    let mut k: usize = 0;
    while k < candidates.len()
        invariant
            k <= candidates.len(),
            tried.len() == k,
            forall|j: int| 0 <= j < k ==> (#[trigger] tried@[j])@ == candidates@[j]@,
        decreases candidates.len() - k,
    {
        tried.push(candidates[k].clone());
        k += 1;
    }
    assert(texts(tried@) =~= texts(candidates@));
    Err(InstallError::NotLocated(tried))
}

/// What is said of the server's bearer token.
pub open spec fn auth_note(with_token: bool) -> Seq<char> {
    if with_token {
        "# Auth: set AI_MEMORY_AUTH_TOKEN in each hook's environment to the"@ + "\n"@
            + "#       value passed via --auth-token (omitted from this printout)."@ + "\n"@
    } else {
        "# Auth: server requires no bearer token. To require one, generate a"@ + "\n"@
            + "#       token with `ai-memory generate-auth-token` and pass it via"@ + "\n"@
            + "#       --auth-token here AND set AI_MEMORY_AUTH_TOKEN on the server."@ + "\n"@
    }
}

/// What stands before the list of scripts.
pub open spec fn agent_head(
    label: Seq<char>,
    hooks_dir: Seq<char>,
    server_url: Seq<char>,
    with_token: bool,
) -> Seq<char> {
    "# "@ + label + " hook scripts (manual install — wire each to the matching event)"@ + "\n"@
        + "# Hook scripts: "@ + hooks_dir + "\n"@ + "# AI-memory server URL: "@ + server_url + "\n"@
        + auth_note(with_token) + "\n"@
}

/// An entry is a hook script.
pub open spec fn is_script(entry: ListedFile) -> bool {
    entry.is_file && extension_is(entry.path@, "sh"@)
}

/// The scripts among the entries, one on a line.
pub open spec fn script_lines(listing: Seq<ListedFile>) -> Seq<char>
    decreases listing.len(),
{
    if listing.len() == 0 {
        Seq::empty()
    } else {
        script_lines(listing.drop_last()) + (if is_script(listing.last()) {
            "- "@ + listing.last().path@ + "\n"@
        } else {
            Seq::empty()
        })
    }
}

/// What is shown for an agent whose hooks are installed by hand.
pub open spec fn agent_text(
    label: Seq<char>,
    hooks_dir: Seq<char>,
    server_url: Seq<char>,
    with_token: bool,
    listing: Seq<ListedFile>,
) -> Seq<char> {
    agent_head(label, hooks_dir, server_url, with_token) + script_lines(listing)
        + "\n"@ + "Set AI_MEMORY_HOOK_URL in each hook's environment to override the default."@
        + "\n"@
}

/// What stands before the list of scripts.
pub fn render_agent_head(
    label: &str,
    hooks_dir: &str,
    server_url: &str,
    auth_token: &Option<String>,
) -> (r: String)
    ensures
        r@ == agent_head(label@, hooks_dir@, server_url@, auth_token is Some),
{
    let mut out = String::new();
    out.append("# ");
    out.append(label);
    out.append(" hook scripts (manual install — wire each to the matching event)");
    out.append("\n");
    out.append("# Hook scripts: ");
    out.append(hooks_dir);
    out.append("\n");
    out.append("# AI-memory server URL: ");
    out.append(server_url);
    out.append("\n");
    match auth_token {
        Some(_) => {
            out.append("# Auth: set AI_MEMORY_AUTH_TOKEN in each hook's environment to the");
            out.append("\n");
            out.append("#       value passed via --auth-token (omitted from this printout).");
            out.append("\n");
        },
        None => {
            out.append("# Auth: server requires no bearer token. To require one, generate a");
            out.append("\n");
            out.append("#       token with `ai-memory generate-auth-token` and pass it via");
            out.append("\n");
            out.append("#       --auth-token here AND set AI_MEMORY_AUTH_TOKEN on the server.");
            out.append("\n");
        },
    }
    out.append("\n");
    assert(out@ =~= agent_head(label@, hooks_dir@, server_url@, auth_token is Some));
    out
}

/// What is shown for an agent whose hooks are installed by hand: the scripts,
/// and what to set in their environment.
pub fn render_agent(
    label: &str,
    hooks_dir: &str,
    server_url: &str,
    auth_token: &Option<String>,
    listing: &Vec<ListedFile>,
) -> (r: String)
    ensures
        r@ == agent_text(label@, hooks_dir@, server_url@, auth_token is Some, listing@),
{
    let mut out = render_agent_head(label, hooks_dir, server_url, auth_token);
    let ghost head = out@;
    let mut i: usize = 0;
    assert(listing@.take(0) =~= Seq::<ListedFile>::empty());
    assert(out@ =~= head + script_lines(listing@.take(0)));
    while i < listing.len()
        invariant
            i <= listing.len(),
            out@ == head + script_lines(listing@.take(i as int)),
        decreases listing.len() - i,
    {
        assert(listing@.take(i + 1).drop_last() =~= listing@.take(i as int));
        if listing[i].is_file && has_extension(listing[i].path.as_str(), "sh") {
            out.append("- ");
            out.append(listing[i].path.as_str());
            out.append("\n");
        }
        assert(out@ =~= head + script_lines(listing@.take(i + 1)));
        i += 1;
    }
    assert(listing@.take(listing.len() as int) =~= listing@);
    out.append("\n");
    out.append("Set AI_MEMORY_HOOK_URL in each hook's environment to override the default.");
    out.append("\n");
    out
}

/// The events of the host agent that are hooked, each with its script.
pub open spec fn claude_scripts() -> Seq<(Seq<char>, Seq<char>)> {
    seq![
        ("SessionStart"@, "session-start.sh"@),
        ("UserPromptSubmit"@, "user-prompt-submit.sh"@),
        ("PreToolUse"@, "pre-tool-use.sh"@),
        ("PostToolUse"@, "post-tool-use.sh"@),
        ("PreCompact"@, "pre-compact.sh"@),
        ("Stop"@, "stop.sh"@),
        ("SessionEnd"@, "session-end.sh"@),
    ]
}

fn claude_scripts_list() -> (r: Vec<(&'static str, &'static str)>)
    ensures
        r@.len() == claude_scripts().len(),
        forall|i: int|
            0 <= i < r@.len() ==> (#[trigger] r@[i]).0@ == claude_scripts()[i].0 && r@[i].1@
                == claude_scripts()[i].1,
{
    let mut r: Vec<(&'static str, &'static str)> = Vec::new();
    r.push(("SessionStart", "session-start.sh"));
    r.push(("UserPromptSubmit", "user-prompt-submit.sh"));
    r.push(("PreToolUse", "pre-tool-use.sh"));
    r.push(("PostToolUse", "post-tool-use.sh"));
    r.push(("PreCompact", "pre-compact.sh"));
    r.push(("Stop", "stop.sh"));
    r.push(("SessionEnd", "session-end.sh"));
    r
}

/// Where a script of the host agent lies.
pub open spec fn script_path(hooks_dir: Seq<char>, i: int) -> Seq<char> {
    join_text(hooks_dir, claude_scripts()[i].1)
}

/// Where the scripts of the host agent lie.
pub fn claude_script_paths(hooks_dir: &str) -> (r: Vec<String>)
    ensures
        r@.len() == claude_scripts().len(),
        forall|i: int| 0 <= i < r@.len() ==> (#[trigger] r@[i])@ == script_path(hooks_dir@, i),
{
    let scripts = claude_scripts_list();
    let mut r: Vec<String> = Vec::new();
    let mut i: usize = 0;
    while i < scripts.len()
        invariant
            i <= scripts.len(),
            r.len() == i,
            scripts@.len() == claude_scripts().len(),
            forall|j: int|
                0 <= j < scripts@.len() ==> (#[trigger] scripts@[j]).0@ == claude_scripts()[j].0
                    && scripts@[j].1@ == claude_scripts()[j].1,
            forall|j: int| 0 <= j < i ==> (#[trigger] r@[j])@ == script_path(hooks_dir@, j),
        decreases scripts.len() - i,
    {
        assert(scripts@[i as int].1@ == claude_scripts()[i as int].1);
        r.push(join(hooks_dir, scripts[i].1));
        i += 1;
    }
    r
}

/// The environment of a hook: the server's address always, the token where
/// there is one.
pub open spec fn env_json(server_url: Seq<char>, auth_token: Option<String>) -> Json {
    let url = empty_object().insert("AI_MEMORY_HOOK_URL"@, Json::Text(server_url));
    Json::Object(
        match auth_token {
            Some(token) => url.insert("AI_MEMORY_AUTH_TOKEN"@, Json::Text(token@)),
            None => url,
        },
    )
}

/// What is configured for one event: one command and its environment.
pub open spec fn event_json(
    command: Seq<char>,
    server_url: Seq<char>,
    auth_token: Option<String>,
) -> Json {
    Json::List(
        seq![
            Json::Object(
                empty_object().insert("command"@, Json::Text(command)).insert(
                    "env"@,
                    env_json(server_url, auth_token),
                ),
            ),
        ],
    )
}

/// What is configured for the first `n` events.
pub open spec fn events_json(
    hooks_dir: Seq<char>,
    server_url: Seq<char>,
    auth_token: Option<String>,
    n: nat,
) -> Map<Seq<char>, Json>
    decreases n,
{
    if n == 0 {
        empty_object()
    } else {
        let i = n - 1;
        events_json(hooks_dir, server_url, auth_token, i as nat).insert(
            claude_scripts()[i].0,
            event_json(script_path(hooks_dir, i), server_url, auth_token),
        )
    }
}

/// The configuration for all events.
pub open spec fn config_json(
    hooks_dir: Seq<char>,
    server_url: Seq<char>,
    auth_token: Option<String>,
) -> Json {
    Json::Object(
        empty_object().insert(
            "hooks"@,
            Json::Object(
                events_json(hooks_dir, server_url, auth_token, claude_scripts().len()),
            ),
        ),
    )
}

fn event_value(command: &str, server_url: &str, auth_token: &Option<String>) -> (r: Value)
    ensures
        json_of(r) == event_json(command@, server_url@, *auth_token),
{
    let mut env = no_fields();
    put(&mut env, "AI_MEMORY_HOOK_URL", text_value(server_url));
    match auth_token {
        Some(token) => {
            put(&mut env, "AI_MEMORY_AUTH_TOKEN", text_value(token.as_str()));
        },
        None => {},
    }
    let mut entry = no_fields();
    put(&mut entry, "command", text_value(command));
    put(&mut entry, "env", object_value(env));
    let mut list: Vec<Value> = Vec::new();
    list.push(object_value(entry));
    let ghost items = list@;
    let r = list_value(list);
    assert(items.map_values(|v: Value| json_of(v)) =~= seq![json_of(items[0])]);
    r
}

/// The configuration of the host agent: every event runs its script, with the
/// server's address and the token, if there is one, in its environment.
pub fn hooks_config(hooks_dir: &str, server_url: &str, auth_token: &Option<String>) -> (r: Value)
    ensures
        json_of(r) == config_json(hooks_dir@, server_url@, *auth_token),
{
    let scripts = claude_scripts_list();
    let paths = claude_script_paths(hooks_dir);
    let mut block = no_fields();
    let mut i: usize = 0;
    while i < scripts.len()
        invariant
            i <= scripts.len(),
            scripts@.len() == claude_scripts().len(),
            paths@.len() == claude_scripts().len(),
            forall|j: int|
                0 <= j < scripts@.len() ==> (#[trigger] scripts@[j]).0@ == claude_scripts()[j].0
                    && scripts@[j].1@ == claude_scripts()[j].1,
            forall|j: int|
                0 <= j < paths@.len() ==> (#[trigger] paths@[j])@ == script_path(hooks_dir@, j),
            crate::json::fields_of(block) == events_json(
                hooks_dir@,
                server_url@,
                *auth_token,
                i as nat,
            ),
        decreases scripts.len() - i,
    {
        assert(scripts@[i as int].0@ == claude_scripts()[i as int].0);
        assert(paths@[i as int]@ == script_path(hooks_dir@, i as int));
        let value = event_value(paths[i].as_str(), server_url, auth_token);
        put(&mut block, scripts[i].0, value);
        i += 1;
    }
    let mut outer = no_fields();
    put(&mut outer, "hooks", object_value(block));
    object_value(outer)
}

/// What is shown for the host agent.
pub open spec fn claude_text(
    host: HostAgent,
    hooks_dir: Seq<char>,
    server_url: Seq<char>,
    auth_token: Option<String>,
) -> Seq<char> {
    "# "@ + host.name@ + " hook config — merge into "@ + host.settings@ + "\n# Hook scripts: "@
        + hooks_dir + "\n# AI-memory server URL: "@ + server_url + "\n"@ + (if auth_token is Some {
        "# Auth: AI_MEMORY_AUTH_TOKEN embedded in each hook's env block below.\n#       Treat "@ + host.settings@ + " as sensitive (chmod 600).\n"@
    } else {
        Seq::empty()
    }) + "\n"@ + pretty_text(config_json(hooks_dir, server_url, auth_token)) + "\n"@
}

/// `i` is the first script that is missing.
pub open spec fn first_missing(exists: Seq<bool>, i: int) -> bool {
    &&& 0 <= i < claude_scripts().len()
    &&& !says(exists, i)
    &&& forall|j: int| 0 <= j < i ==> #[trigger] says(exists, j)
}

/// What is shown for the host agent: the settings to merge. All scripts must be
/// there. A relative `hooks_dir` is taken against `cwd`, so that the settings
/// name the scripts by absolute paths.
pub fn render_claude_code(
    host: &HostAgent,
    cwd: &str,
    hooks_dir: &str,
    server_url: &str,
    auth_token: &Option<String>,
    script_exists: &Vec<bool>,
) -> (r: Result<String, InstallError>)
    ensures
        match r {
            Ok(text) => {
                &&& forall|i: int|
                    0 <= i < claude_scripts().len() ==> #[trigger] says(script_exists@, i)
                &&& text@ == claude_text(
                    *host,
                    join_text(cwd@, hooks_dir@),
                    server_url@,
                    *auth_token,
                )
            },
            Err(InstallError::MissingScript(path)) => exists|i: int| #[trigger]
                first_missing(script_exists@, i) && path@ == script_path(
                    join_text(cwd@, hooks_dir@),
                    i,
                ),
            Err(_) => false,
        },
{
    let resolved = join(cwd, hooks_dir);
    let dir = resolved.as_str();
    let paths = claude_script_paths(dir);
    let mut i: usize = 0;
    while i < paths.len()
        invariant
            i <= paths.len(),
            dir@ == join_text(cwd@, hooks_dir@),
            paths@.len() == claude_scripts().len(),
            forall|j: int|
                0 <= j < paths@.len() ==> (#[trigger] paths@[j])@ == script_path(dir@, j),
            forall|j: int| 0 <= j < i ==> #[trigger] says(script_exists@, j),
        decreases paths.len() - i,
    {
        if !(i < script_exists.len() && script_exists[i]) {
            assert(first_missing(script_exists@, i as int));
            assert(paths@[i as int]@ == script_path(dir@, i as int));
            return Err(InstallError::MissingScript(paths[i].clone()));
        }
        i += 1;
    }
    let config = hooks_config(dir, server_url, auth_token);
    match pretty(&config) {
        Ok(serialized) => {
            let mut out = String::new();
            out.append("# ");
            out.append(host.name.as_str());
            out.append(" hook config — merge into ");
            out.append(host.settings.as_str());
            out.append("\n# Hook scripts: ");
            out.append(dir);
            out.append("\n# AI-memory server URL: ");
            out.append(server_url);
            out.append("\n");
            match auth_token {
                Some(_) => {
                    out.append(
                        "# Auth: AI_MEMORY_AUTH_TOKEN embedded in each hook's env block below.\n#       Treat ",
                    );
                    out.append(host.settings.as_str());
                    out.append(" as sensitive (chmod 600).\n");
                },
                None => {},
            }
            out.append("\n");
            out.append(serialized.as_str());
            out.append("\n");
            assert(out@ =~= claude_text(*host, dir@, server_url@, *auth_token));
            Ok(out)
        },
        Err(_) => Err(InstallError::Serialize(host.spoken.clone())),
    }
}

/// What is shown for the agent when its scripts lie in `hooks_dir`.
pub open spec fn suggestion(
    args: InstallHooksArgs,
    host: HostAgent,
    hooks_dir: Seq<char>,
    listing: Seq<ListedFile>,
) -> Seq<char> {
    match args.agent {
        AgentChoice::ClaudeCode => claude_text(host, hooks_dir, args.server_url@, args.auth_token),
        AgentChoice::Codex => agent_text(
            "codex"@,
            hooks_dir,
            args.server_url@,
            args.auth_token is Some,
            listing,
        ),
        AgentChoice::OpenCode => agent_text(
            "opencode"@,
            hooks_dir,
            args.server_url@,
            args.auth_token is Some,
            listing,
        ),
    }
}

/// Whether the suggestion can be made once the directory is known.
pub open spec fn scripts_complete(args: InstallHooksArgs, script_exists: Seq<bool>) -> bool {
    args.agent == AgentChoice::ClaudeCode ==> forall|i: int|
        0 <= i < claude_scripts().len() ==> #[trigger] says(script_exists, i)
}

/// What the operator is shown: the scripts are looked for, then the suggestion
/// for the agent is made.
pub fn run(args: &InstallHooksArgs, host: &HostAgent, around: &Surroundings) -> (r: Result<
    String,
    InstallError,
>)
    ensures
        ({
            let dirs = candidate_dirs(*args, *host, around.cwd@, around.exe, around.data_local);
            match r {
                Ok(text) => {
                    &&& scripts_complete(*args, around.script_exists@)
                    &&& exists|d: int| #[trigger]
                        first_usable(dirs, around.is_dir@, d) && text@ == suggestion(
                            *args,
                            *host,
                            dirs[d],
                            around.listing@,
                        )
                },
                Err(InstallError::NoSuchDirectory(dir)) => {
                    &&& !usable(dirs, around.is_dir@, 0)
                    &&& dir_as_given(*args, *host) == Some(dir@)
                },
                Err(InstallError::NotLocated(tried)) => {
                    &&& args.hooks_dir is None
                    &&& texts(tried@) == dirs
                    &&& forall|i: int|
                        0 <= i < dirs.len() ==> !#[trigger] usable(dirs, around.is_dir@, i)
                },
                Err(InstallError::MissingScript(path)) => {
                    &&& args.agent == AgentChoice::ClaudeCode
                    &&& exists|d: int, i: int|
                        #![trigger first_usable(dirs, around.is_dir@, d), first_missing(
                            around.script_exists@,
                            i,
                        )]
                        first_usable(dirs, around.is_dir@, d) && first_missing(
                            around.script_exists@,
                            i,
                        ) && path@ == script_path(dirs[d], i)
                },
                Err(InstallError::Serialize(_)) => false,
            }
        }),
{
    let candidates = hooks_dir_candidates(
        args,
        host,
        around.cwd.as_str(),
        &around.exe,
        &around.data_local,
    );
    let given = given_dir(args, host);
    let ghost dirs = candidate_dirs(*args, *host, around.cwd@, around.exe, around.data_local);
    proof {
        assert(texts(candidates@).len() == candidates@.len());
        assert forall|i: int| 0 <= i < candidates@.len() implies (#[trigger] candidates@[i])@
            == dirs[i] by {
            assert(texts(candidates@)[i] == candidates@[i]@);
        }
    }
    let dir = match resolve_hooks_dir(&given, &candidates, &around.is_dir) {
        Ok(dir) => dir,
        Err(e) => {
            return Err(e);
        },
    };
    proof {
        reveal_strlit("");
        assert(join_text(""@, dir@) =~= dir@);
    }
    match args.agent {
        // The directory has been taken against the working directory already.
        AgentChoice::ClaudeCode => render_claude_code(
            host,
            "",
            dir.as_str(),
            args.server_url.as_str(),
            &args.auth_token,
            &around.script_exists,
        ),
        AgentChoice::Codex => Ok(
            render_agent(
                "codex",
                dir.as_str(),
                args.server_url.as_str(),
                &args.auth_token,
                &around.listing,
            ),
        ),
        AgentChoice::OpenCode => Ok(
            render_agent(
                "opencode",
                dir.as_str(),
                args.server_url.as_str(),
                &args.auth_token,
                &around.listing,
            ),
        ),
    }
}

/// The texts in quotes, in square brackets.
pub open spec fn debug_list(parts: Seq<Seq<char>>) -> Seq<char> {
    "["@ + crate::text::joined(parts.map_values(|s: Seq<char>| debug_text(s)), ", "@) + "]"@
}

impl InstallError {
    /// The error in words.
    pub open spec fn words(self) -> Seq<char> {
        match self {
            InstallError::NoSuchDirectory(dir) => "hooks directory "@ + dir@ + " does not exist"@,
            InstallError::NotLocated(tried) => "could not locate hooks directory. Tried: "@
                + debug_list(texts(tried@)),
            InstallError::MissingScript(path) => "missing hook script: "@ + path@,
            InstallError::Serialize(agent) => "serializing "@ + agent@ + " hook config"@,
        }
    }

    /// The error in words.
    pub fn message(&self) -> (r: String)
        ensures
            r@ == self.words(),
    {
        match self {
            InstallError::NoSuchDirectory(dir) => {
                let mut r = "hooks directory ".to_owned();
                r.append(dir.as_str());
                r.append(" does not exist");
                r
            },
            InstallError::NotLocated(tried) => {
                let mut r = "could not locate hooks directory. Tried: ".to_owned();
                r.append("[");
                let ghost head = r@;
                let ghost parts = texts(tried@).map_values(|s: Seq<char>| debug_text(s));
                let mut i: usize = 0;
                assert(parts.take(0) =~= Seq::<Seq<char>>::empty());
                assert(r@ =~= head + crate::text::joined(parts.take(0), ", "@));
                while i < tried.len()
                    invariant
                        i <= tried.len(),
                        parts == texts(tried@).map_values(|s: Seq<char>| debug_text(s)),
                        r@ == head + crate::text::joined(parts.take(i as int), ", "@),
                    decreases tried.len() - i,
                {
                    assert(parts.take(i + 1).drop_last() =~= parts.take(i as int));
                    assert(parts.take(i + 1).last() == debug_text(tried@[i as int]@));
                    if i > 0 {
                        r.append(", ");
                    }
                    r.append(debug(tried[i].as_str()).as_str());
                    assert(r@ =~= head + crate::text::joined(parts.take(i + 1), ", "@));
                    i += 1;
                }
                assert(parts.take(tried.len() as int) =~= parts);
                r.append("]");
                assert(r@ =~= self.words());
                r
            },
            InstallError::MissingScript(path) => {
                let mut r = "missing hook script: ".to_owned();
                r.append(path.as_str());
                r
            },
            InstallError::Serialize(agent) => {
                let mut r = "serializing ".to_owned();
                r.append(agent.as_str());
                r.append(" hook config");
                r
            },
        }
    }
}

/// What is shown for an agent whose hooks are installed by hand does not tell
/// the token, only whether there is one.
pub proof fn law_the_token_is_not_printed(
    agent: AgentChoice,
    server_url: String,
    hooks_dir: Option<String>,
    first: String,
    second: String,
    host: HostAgent,
    dir: Seq<char>,
    listing: Seq<ListedFile>,
)
    requires
        agent != AgentChoice::ClaudeCode,
    ensures
        suggestion(
            (InstallHooksArgs { agent, hooks_dir, server_url, auth_token: Some(first) }),
            host,
            dir,
            listing,
        ) == suggestion(
            (InstallHooksArgs { agent, hooks_dir, server_url, auth_token: Some(second) }),
            host,
            dir,
            listing,
        ),
{
}

/// The path is absolute.
pub open spec fn absolute(path: Seq<char>) -> bool {
    path.len() > 0 && path[0] == '/'
}

/// Where the working directory is absolute, so is every directory that is
/// tried, except where there is none to try; and every command that is
/// configured names its script by an absolute path.
pub proof fn law_commands_are_absolute(
    args: InstallHooksArgs,
    host: HostAgent,
    cwd: Seq<char>,
    exe: Option<String>,
    data_local: Option<String>,
    is_dir: Seq<bool>,
    d: int,
    i: int,
)
    requires
        absolute(cwd),
        0 <= d < candidate_dirs(args, host, cwd, exe, data_local).len(),
        usable(candidate_dirs(args, host, cwd, exe, data_local), is_dir, d),
        0 <= i < claude_scripts().len(),
    ensures
        absolute(candidate_dirs(args, host, cwd, exe, data_local)[d]),
        absolute(script_path(candidate_dirs(args, host, cwd, exe, data_local)[d], i)),
{
    reveal_strlit("/");
    reveal_strlit("/usr/local/share/ai-memory/hooks/");
    lemma_joining_stays_absolute();
    let dir = candidate_dirs(args, host, cwd, exe, data_local)[d];
    assert(absolute(dir));
    assert(absolute(join_text(dir, claude_scripts()[i].1)));
}

/// A relative directory of scripts is taken against the working directory, and
/// one that is absolute stays as it is: either way the commands are absolute.
pub proof fn law_rendered_commands_are_absolute(cwd: Seq<char>, hooks_dir: Seq<char>, i: int)
    requires
        absolute(cwd) || absolute(hooks_dir),
        0 <= i < claude_scripts().len(),
    ensures
        absolute(script_path(join_text(cwd, hooks_dir), i)),
        absolute(hooks_dir) ==> join_text(cwd, hooks_dir) == hooks_dir,
{
    lemma_joining_stays_absolute();
    assert(absolute(join_text(join_text(cwd, hooks_dir), claude_scripts()[i].1)));
}

proof fn lemma_joining_stays_absolute()
    ensures
        forall|base: Seq<char>, sub: Seq<char>|
            absolute(base) || absolute(sub) ==> absolute(#[trigger] join_text(base, sub)),
{
    reveal_strlit("/");
}

/// Every hooked event of the host agent is configured with its own script, and
/// nothing else is.
pub proof fn law_every_event_is_configured(
    hooks_dir: Seq<char>,
    server_url: Seq<char>,
    auth_token: Option<String>,
    i: int,
)
    requires
        0 <= i < claude_scripts().len(),
    ensures
        ({
            let events = events_json(hooks_dir, server_url, auth_token, claude_scripts().len());
            &&& events.contains_key(claude_scripts()[i].0)
            &&& events[claude_scripts()[i].0] == event_json(
                script_path(hooks_dir, i),
                server_url,
                auth_token,
            )
            &&& forall|k: Seq<char>| #[trigger]
                events.contains_key(k) ==> exists|j: int|
                    0 <= j < claude_scripts().len() && k == (#[trigger] claude_scripts()[j]).0
        }),
{
    lemma_events_distinct();
    lemma_events(hooks_dir, server_url, auth_token, claude_scripts().len());
}

proof fn lemma_events_distinct()
    ensures
        forall|i: int, j: int|
            0 <= i < j < claude_scripts().len() ==> (#[trigger] claude_scripts()[i]).0 != (
            #[trigger] claude_scripts()[j]).0,
{
    reveal_strlit("SessionStart");
    reveal_strlit("UserPromptSubmit");
    reveal_strlit("PreToolUse");
    reveal_strlit("PostToolUse");
    reveal_strlit("PreCompact");
    reveal_strlit("Stop");
    reveal_strlit("SessionEnd");
    assert("SessionStart"@.len() == 12);
    assert("UserPromptSubmit"@.len() == 16);
    assert("PreToolUse"@[3] == 'T');
    assert("PreCompact"@[3] == 'C');
    assert("SessionEnd"@[3] == 's');
    assert("PostToolUse"@.len() == 11);
}

proof fn lemma_events(
    hooks_dir: Seq<char>,
    server_url: Seq<char>,
    auth_token: Option<String>,
    n: nat,
)
    requires
        n <= claude_scripts().len(),
        forall|i: int, j: int|
            0 <= i < j < claude_scripts().len() ==> (#[trigger] claude_scripts()[i]).0 != (
            #[trigger] claude_scripts()[j]).0,
    ensures
        ({
            let events = events_json(hooks_dir, server_url, auth_token, n);
            &&& forall|j: int|
                0 <= j < n ==> events.contains_key((#[trigger] claude_scripts()[j]).0)
                    && events[claude_scripts()[j].0] == event_json(
                    script_path(hooks_dir, j),
                    server_url,
                    auth_token,
                )
            &&& forall|k: Seq<char>| #[trigger]
                events.contains_key(k) ==> exists|j: int|
                    0 <= j < n && k == (#[trigger] claude_scripts()[j]).0
        }),
    decreases n,
{
    if n > 0 {
        lemma_events(hooks_dir, server_url, auth_token, (n - 1) as nat);
        let before = events_json(hooks_dir, server_url, auth_token, (n - 1) as nat);
        let events = events_json(hooks_dir, server_url, auth_token, n);
        assert forall|k: Seq<char>| #[trigger] events.contains_key(k) implies exists|j: int|
            0 <= j < n && k == (#[trigger] claude_scripts()[j]).0 by {
            if k == claude_scripts()[n - 1].0 {
            } else {
                assert(before.contains_key(k));
            }
        }
    }
}

} // verus!
