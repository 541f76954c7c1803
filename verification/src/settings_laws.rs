//! What holds of the settings that are suggested for an agent, and of where its
//! scripts are looked for.

use crate::host::HostAgent;
use crate::install_hooks::{agent_dir, agent_text, auth_note, candidate_dirs, claude_scripts};
use crate::install_hooks::{claude_text, config_json, debug_list, debug_text, dir_as_given};
use crate::install_hooks::{event_json, first_missing, first_usable, is_script, says, script_lines};
use crate::install_hooks::{script_path, scripts_complete, suggestion, three_up, usable, AgentChoice};
use crate::install_hooks::{law_every_event_is_configured, InstallError, InstallHooksArgs, ListedFile};
use crate::json::{pretty_text, Json};
use crate::paths::{extension_is, join_text, parent_text};
use crate::text::{joined, texts};
use vstd::prelude::*;

verus! {

/// The settings of one event: a single command, and an environment that holds the
/// server's address, and the token exactly where there is one.
pub open spec fn runs(
    settings: Json,
    command: Seq<char>,
    server_url: Seq<char>,
    token: Option<Seq<char>>,
) -> bool {
    settings matches Json::List(entries) && {
        &&& entries.len() == 1
        &&& entries[0] matches Json::Object(entry) && {
            &&& entry.contains_key("command"@) && entry["command"@] == Json::Text(command)
            &&& entry.contains_key("env"@)
            &&& forall|k: Seq<char>| #[trigger]
                entry.contains_key(k) ==> k == "command"@ || k == "env"@
            &&& entry["env"@] matches Json::Object(env) && {
                &&& env.contains_key("AI_MEMORY_HOOK_URL"@) && env["AI_MEMORY_HOOK_URL"@]
                    == Json::Text(server_url)
                &&& env.contains_key("AI_MEMORY_AUTH_TOKEN"@) <==> token is Some
                &&& token matches Some(t) ==> env["AI_MEMORY_AUTH_TOKEN"@] == Json::Text(t)
                &&& forall|k: Seq<char>| #[trigger]
                    env.contains_key(k) ==> k == "AI_MEMORY_HOOK_URL"@ || k
                        == "AI_MEMORY_AUTH_TOKEN"@
            }
        }
    }
}

/// The token as text.
pub open spec fn token_text(auth_token: Option<String>) -> Option<Seq<char>> {
    match auth_token {
        Some(t) => Some(t@),
        None => None,
    }
}

proof fn lemma_event_runs(command: Seq<char>, server_url: Seq<char>, auth_token: Option<String>)
    ensures
        runs(
            event_json(command, server_url, auth_token),
            command,
            server_url,
            token_text(auth_token),
        ),
{
    reveal_strlit("command");
    reveal_strlit("env");
    reveal_strlit("AI_MEMORY_HOOK_URL");
    reveal_strlit("AI_MEMORY_AUTH_TOKEN");
    assert("command"@.len() == 7);
    assert("env"@.len() == 3);
    assert("AI_MEMORY_HOOK_URL"@.len() == 18);
    assert("AI_MEMORY_AUTH_TOKEN"@.len() == 20);
}

/// Each lifecycle event runs the script that is named after it, in the directory
/// of scripts; no other event is configured, and nothing beside the hooks.
pub proof fn law_each_event_runs_its_own_script(
    dir: Seq<char>,
    server_url: Seq<char>,
    auth_token: Option<String>,
)
    ensures
        config_json(dir, server_url, auth_token) matches Json::Object(all) && {
            &&& all.contains_key("hooks"@)
            &&& forall|k: Seq<char>| #[trigger] all.contains_key(k) ==> k == "hooks"@
            &&& all["hooks"@] matches Json::Object(hooks) && {
                let t = token_text(auth_token);
                &&& hooks.contains_key("SessionStart"@) && runs(
                    hooks["SessionStart"@],
                    join_text(dir, "session-start.sh"@),
                    server_url,
                    t,
                )
                &&& hooks.contains_key("UserPromptSubmit"@) && runs(
                    hooks["UserPromptSubmit"@],
                    join_text(dir, "user-prompt-submit.sh"@),
                    server_url,
                    t,
                )
                &&& hooks.contains_key("PreToolUse"@) && runs(
                    hooks["PreToolUse"@],
                    join_text(dir, "pre-tool-use.sh"@),
                    server_url,
                    t,
                )
                &&& hooks.contains_key("PostToolUse"@) && runs(
                    hooks["PostToolUse"@],
                    join_text(dir, "post-tool-use.sh"@),
                    server_url,
                    t,
                )
                &&& hooks.contains_key("PreCompact"@) && runs(
                    hooks["PreCompact"@],
                    join_text(dir, "pre-compact.sh"@),
                    server_url,
                    t,
                )
                &&& hooks.contains_key("Stop"@) && runs(
                    hooks["Stop"@],
                    join_text(dir, "stop.sh"@),
                    server_url,
                    t,
                )
                &&& hooks.contains_key("SessionEnd"@) && runs(
                    hooks["SessionEnd"@],
                    join_text(dir, "session-end.sh"@),
                    server_url,
                    t,
                )
                &&& forall|k: Seq<char>| #[trigger]
                    hooks.contains_key(k) ==> k == "SessionStart"@ || k == "UserPromptSubmit"@ || k
                        == "PreToolUse"@ || k == "PostToolUse"@ || k == "PreCompact"@ || k
                        == "Stop"@ || k == "SessionEnd"@
            }
        },
{
    law_every_event_is_configured(dir, server_url, auth_token, 0);
    law_every_event_is_configured(dir, server_url, auth_token, 1);
    law_every_event_is_configured(dir, server_url, auth_token, 2);
    law_every_event_is_configured(dir, server_url, auth_token, 3);
    law_every_event_is_configured(dir, server_url, auth_token, 4);
    law_every_event_is_configured(dir, server_url, auth_token, 5);
    law_every_event_is_configured(dir, server_url, auth_token, 6);
    lemma_event_runs(join_text(dir, "session-start.sh"@), server_url, auth_token);
    lemma_event_runs(join_text(dir, "user-prompt-submit.sh"@), server_url, auth_token);
    lemma_event_runs(join_text(dir, "pre-tool-use.sh"@), server_url, auth_token);
    lemma_event_runs(join_text(dir, "post-tool-use.sh"@), server_url, auth_token);
    lemma_event_runs(join_text(dir, "pre-compact.sh"@), server_url, auth_token);
    lemma_event_runs(join_text(dir, "stop.sh"@), server_url, auth_token);
    lemma_event_runs(join_text(dir, "session-end.sh"@), server_url, auth_token);
}

/// The scripts that have to be there are the seven that the events run.
pub proof fn law_the_scripts_that_are_needed(dir: Seq<char>)
    ensures
        claude_scripts().len() == 7,
        script_path(dir, 0) == join_text(dir, "session-start.sh"@),
        script_path(dir, 1) == join_text(dir, "user-prompt-submit.sh"@),
        script_path(dir, 2) == join_text(dir, "pre-tool-use.sh"@),
        script_path(dir, 3) == join_text(dir, "post-tool-use.sh"@),
        script_path(dir, 4) == join_text(dir, "pre-compact.sh"@),
        script_path(dir, 5) == join_text(dir, "stop.sh"@),
        script_path(dir, 6) == join_text(dir, "session-end.sh"@),
{
}

/// The script that is reported missing is not there, and all before it are; and
/// a suggestion is made exactly where none is missing, for the agent that needs
/// them all.
pub proof fn law_a_missing_script(exists: Seq<bool>, i: int, j: int, args: InstallHooksArgs)
    ensures
        says(exists, i) <==> i < exists.len() && exists[i],
        first_missing(exists, i) ==> 0 <= i < 7 && !says(exists, i) && (0 <= j < i ==> says(
            exists,
            j,
        )),
        args.agent == AgentChoice::ClaudeCode && scripts_complete(args, exists) ==> !first_missing(
            exists,
            i,
        ),
        args.agent == AgentChoice::ClaudeCode && scripts_complete(args, exists) && 0 <= i < 7
            ==> says(exists, i),
        args.agent != AgentChoice::ClaudeCode ==> scripts_complete(args, exists),
        (0 <= i < 7 && !says(exists, i) && forall|k: int|
            0 <= k < i ==> #[trigger] says(exists, k)) ==> first_missing(exists, i),
        (forall|k: int| 0 <= k < 7 ==> #[trigger] says(exists, k)) ==> scripts_complete(
            args,
            exists,
        ),
{
}

/// What is shown for the host agent: where to put the settings, where the scripts
/// lie and which server they speak to, a warning where the settings hold the
/// token, and then the settings.
pub proof fn law_what_is_shown_for_the_host_agent(
    host: HostAgent,
    dir: Seq<char>,
    server_url: Seq<char>,
    token: String,
)
    ensures
        claude_text(host, dir, server_url, None) == "# "@ + host.name@
            + " hook config — merge into "@ + host.settings@ + "\n# Hook scripts: "@ + dir
            + "\n# AI-memory server URL: "@ + server_url + "\n"@ + "\n"@ + pretty_text(
            config_json(dir, server_url, None),
        ) + "\n"@,
        claude_text(host, dir, server_url, Some(token)) == "# "@ + host.name@
            + " hook config — merge into "@ + host.settings@ + "\n# Hook scripts: "@ + dir
            + "\n# AI-memory server URL: "@ + server_url + "\n"@
            + "# Auth: AI_MEMORY_AUTH_TOKEN embedded in each hook's env block below.\n#       Treat "@
            + host.settings@ + " as sensitive (chmod 600).\n"@ + "\n"@ + pretty_text(
            config_json(dir, server_url, Some(token)),
        ) + "\n"@,
{
    assert(claude_text(host, dir, server_url, None) =~= "# "@ + host.name@
        + " hook config — merge into "@ + host.settings@ + "\n# Hook scripts: "@ + dir
        + "\n# AI-memory server URL: "@ + server_url + "\n"@ + "\n"@ + pretty_text(
        config_json(dir, server_url, None),
    ) + "\n"@);
    assert(claude_text(host, dir, server_url, Some(token)) =~= "# "@ + host.name@
        + " hook config — merge into "@ + host.settings@ + "\n# Hook scripts: "@ + dir
        + "\n# AI-memory server URL: "@ + server_url + "\n"@
        + "# Auth: AI_MEMORY_AUTH_TOKEN embedded in each hook's env block below.\n#       Treat "@
        + host.settings@ + " as sensitive (chmod 600).\n"@ + "\n"@ + pretty_text(
        config_json(dir, server_url, Some(token)),
    ) + "\n"@);
}

/// What is shown for the other agents: whose scripts they are and where they lie,
/// the server, what to do about the token, and then every script on a line of its
/// own.
pub proof fn law_what_is_shown_for_the_others(
    label: Seq<char>,
    dir: Seq<char>,
    server_url: Seq<char>,
    with_token: bool,
    listing: Seq<ListedFile>,
    next: ListedFile,
)
    ensures
        agent_text(label, dir, server_url, with_token, listing) == "# "@ + label
            + " hook scripts (manual install — wire each to the matching event)"@ + "\n"@
            + "# Hook scripts: "@ + dir + "\n"@ + "# AI-memory server URL: "@ + server_url + "\n"@
            + auth_note(with_token) + "\n"@ + script_lines(listing) + "\n"@
            + "Set AI_MEMORY_HOOK_URL in each hook's environment to override the default."@
            + "\n"@,
        script_lines(Seq::empty()) == Seq::<char>::empty(),
        is_script(next) ==> script_lines(listing.push(next)) == script_lines(listing) + "- "@
            + next.path@ + "\n"@,
        !is_script(next) ==> script_lines(listing.push(next)) == script_lines(listing),
{
    assert(listing.push(next).drop_last() =~= listing);
    if is_script(next) {
        assert(script_lines(listing.push(next)) =~= script_lines(listing) + "- "@ + next.path@
            + "\n"@);
    } else {
        assert(script_lines(listing.push(next)) =~= script_lines(listing));
    }
    assert(agent_text(label, dir, server_url, with_token, listing) =~= "# "@ + label
        + " hook scripts (manual install — wire each to the matching event)"@ + "\n"@
        + "# Hook scripts: "@ + dir + "\n"@ + "# AI-memory server URL: "@ + server_url + "\n"@
        + auth_note(with_token) + "\n"@ + script_lines(listing) + "\n"@
        + "Set AI_MEMORY_HOOK_URL in each hook's environment to override the default."@ + "\n"@);
}

/// What is shown is what was asked for: the settings for the host agent, the
/// scripts for the others, each under its own name.
pub proof fn law_each_agent_is_shown_its_own(
    args: InstallHooksArgs,
    host: HostAgent,
    dir: Seq<char>,
    listing: Seq<ListedFile>,
)
    ensures
        args.agent == AgentChoice::ClaudeCode ==> suggestion(args, host, dir, listing)
            == claude_text(host, dir, args.server_url@, args.auth_token),
        args.agent == AgentChoice::Codex ==> suggestion(args, host, dir, listing) == agent_text(
            "codex"@,
            dir,
            args.server_url@,
            args.auth_token is Some,
            listing,
        ),
        args.agent == AgentChoice::OpenCode ==> suggestion(args, host, dir, listing) == agent_text(
            "opencode"@,
            dir,
            args.server_url@,
            args.auth_token is Some,
            listing,
        ),
        agent_dir(AgentChoice::ClaudeCode, host) == host.dir@,
        agent_dir(AgentChoice::Codex, host) == "codex"@,
        agent_dir(AgentChoice::OpenCode, host) == "opencode"@,
{
}

/// A script is a regular file with the extension of one.
pub proof fn law_what_a_script_is(entry: ListedFile)
    ensures
        is_script(entry) <==> entry.is_file && extension_is(entry.path@, "sh"@),
{
}

/// Where scripts are looked for: where the operator says, and nowhere else; or
/// else in the repository that the program was built in, in the container image,
/// and in the user's data, in this order.
pub proof fn law_where_scripts_are_looked_for(
    args: InstallHooksArgs,
    host: HostAgent,
    cwd: Seq<char>,
    exe: Option<String>,
    data: Option<String>,
    root: Seq<char>,
)
    ensures
        args.hooks_dir matches Some(dir) ==> candidate_dirs(args, host, cwd, exe, data) == seq![
            join_text(join_text(cwd, dir@), agent_dir(args.agent, host)),
        ],
        args.hooks_dir matches Some(dir) ==> dir_as_given(args, host) == Some(
            join_text(dir@, agent_dir(args.agent, host)),
        ),
        args.hooks_dir is None ==> dir_as_given(args, host) is None,
        args.hooks_dir is None ==> {
            let dirs = candidate_dirs(args, host, cwd, exe, data);
            &&& dirs.len() == 3
            &&& exe is Some && three_up(exe->0@) == Some(root) ==> dirs[0] == join_text(
                join_text(join_text(cwd, root), "hooks"@),
                agent_dir(args.agent, host),
            )
            &&& exe is Some && three_up(exe->0@) is None ==> dirs[0].len() == 0
            &&& exe is None ==> dirs[0].len() == 0
            &&& dirs[1] == "/usr/local/share/ai-memory/hooks/"@ + agent_dir(args.agent, host)
            &&& data is Some ==> dirs[2] == join_text(
                join_text(join_text(cwd, data->0@), "ai-memory/hooks"@),
                agent_dir(args.agent, host),
            )
            &&& data is None ==> dirs[2].len() == 0
        },
{
}

/// The repository lies three directories above the program.
pub proof fn law_three_directories_up(exe: Seq<char>, a: Seq<char>, b: Seq<char>)
    ensures
        parent_text(exe) == Some(a) && parent_text(a) == Some(b) ==> three_up(exe) == parent_text(
            b,
        ),
        parent_text(exe) is None ==> three_up(exe) is None,
        parent_text(exe) == Some(a) && parent_text(a) is None ==> three_up(exe) is None,
{
}

/// The directory that is used is there, and none that is tried before it is; so
/// there is only one.
pub proof fn law_the_first_directory_is_used(
    dirs: Seq<Seq<char>>,
    is_dir: Seq<bool>,
    i: int,
    j: int,
)
    ensures
        usable(dirs, is_dir, i) <==> dirs[i].len() > 0 && i < is_dir.len() && is_dir[i],
        first_usable(dirs, is_dir, i) ==> 0 <= i < dirs.len() && usable(dirs, is_dir, i),
        first_usable(dirs, is_dir, i) && 0 <= j < i ==> !usable(dirs, is_dir, j),
        first_usable(dirs, is_dir, i) && first_usable(dirs, is_dir, j) ==> i == j,
        (0 <= i < dirs.len() && usable(dirs, is_dir, i) && forall|k: int|
            0 <= k < i ==> !#[trigger] usable(dirs, is_dir, k)) ==> first_usable(dirs, is_dir, i),
{
}

/// What is said of the token: where to set it, or how to come by one; never the
/// token.
pub proof fn law_the_note_on_the_token()
    ensures
        auth_note(true) == "# Auth: set AI_MEMORY_AUTH_TOKEN in each hook's environment to the"@
            + "\n"@ + "#       value passed via --auth-token (omitted from this printout)."@
            + "\n"@,
        auth_note(false) == "# Auth: server requires no bearer token. To require one, generate a"@
            + "\n"@ + "#       token with `ai-memory generate-auth-token` and pass it via"@ + "\n"@
            + "#       --auth-token here AND set AI_MEMORY_AUTH_TOKEN on the server."@ + "\n"@,
{
}

/// Every directory that was tried is shown, in order.
pub proof fn law_every_tried_directory_is_shown(parts: Seq<Seq<char>>, next: Seq<char>)
    ensures
        debug_list(Seq::empty()) == "["@ + "]"@,
        debug_list(seq![next]) == "["@ + debug_text(next) + "]"@,
        parts.len() > 0 ==> debug_list(parts.push(next)) == "["@ + joined(
            parts.map_values(|s: Seq<char>| debug_text(s)),
            ", "@,
        ) + ", "@ + debug_text(next) + "]"@,
{
    let f = |s: Seq<char>| debug_text(s);
    assert(Seq::<Seq<char>>::empty().map_values(f) =~= Seq::<Seq<char>>::empty());
    assert(seq![next].map_values(f) =~= seq![debug_text(next)]);
    assert(parts.push(next).map_values(f) =~= parts.map_values(f).push(debug_text(next)));
    crate::text_laws::law_joining(parts.map_values(f), debug_text(next), ", "@);
    assert(debug_list(Seq::empty()) =~= "["@ + "]"@);
    if parts.len() > 0 {
        assert(debug_list(parts.push(next)) =~= "["@ + joined(parts.map_values(f), ", "@) + ", "@
            + debug_text(next) + "]"@);
    }
}

/// An error says which directory, which directories or which script.
pub proof fn law_install_errors_in_words(e: InstallError)
    ensures
        match e {
            InstallError::NoSuchDirectory(dir) => e.words() == "hooks directory "@ + dir@
                + " does not exist"@,
            InstallError::NotLocated(tried) => e.words()
                == "could not locate hooks directory. Tried: "@ + debug_list(texts(tried@)),
            InstallError::MissingScript(path) => e.words() == "missing hook script: "@ + path@,
            InstallError::Serialize(agent) => e.words() == "serializing "@ + agent@
                + " hook config"@,
        },
{
}

} // verus!
