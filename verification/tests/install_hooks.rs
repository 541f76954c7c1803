use ai_memory::host::HostAgent;
use ai_memory::install_hooks::{agent_dir_of, claude_script_paths, given_dir, hooks_config, hooks_dir_candidates};
use ai_memory::install_hooks::{render_agent, render_agent_head, repo_root_guess, resolve_hooks_dir};
use ai_memory::install_hooks::{render_claude_code, run};
use ai_memory::install_hooks::{AgentChoice, InstallError, InstallHooksArgs, ListedFile};
use ai_memory::install_hooks::Surroundings;

fn args(agent: AgentChoice, dir: Option<&str>, token: Option<&str>) -> InstallHooksArgs {
    InstallHooksArgs {
        agent,
        hooks_dir: dir.map(|d| d.to_string()),
        server_url: "http://s".to_string(),
        auth_token: token.map(|t| t.to_string()),
    }
}

fn host() -> HostAgent {
    HostAgent {
        name: "Host Agent".to_string(),
        spoken: "host agent".to_string(),
        dir: "host-agent".to_string(),
        settings: "~/.host/settings.json".to_string(),
        rules_file: "HOST.md".to_string(),
    }
}

fn around(is_dir: Vec<bool>, script_exists: Vec<bool>) -> Surroundings {
    Surroundings {
        cwd: "/work".to_string(),
        exe: Some("/repo/target/debug/ai-memory".to_string()),
        data_local: Some("/home/u/.local/share".to_string()),
        is_dir,
        script_exists,
        listing: vec![
            ListedFile {
                path: "/h/codex/stop.sh".to_string(),
                is_file: true,
            },
            ListedFile {
                path: "/h/codex/README.md".to_string(),
                is_file: true,
            },
            ListedFile {
                path: "/h/codex/old.sh".to_string(),
                is_file: false,
            },
        ],
    }
}

#[test]
fn the_repository_lies_three_up() {
    assert_eq!(
        repo_root_guess("/repo/target/debug/ai-memory").as_deref(),
        Some("/repo")
    );
    assert_eq!(repo_root_guess("/a/b/c").as_deref(), Some("/"));
    assert_eq!(repo_root_guess("/a/b").as_deref(), None);
    assert_eq!(repo_root_guess("x").as_deref(), None);
}

#[test]
fn candidates_are_tried_in_order() {
    let exe = Some("/repo/target/debug/ai-memory".to_string());
    let data = Some("/d".to_string());
    assert_eq!(
        hooks_dir_candidates(&args(AgentChoice::Codex, None, None), &host(), "/work", &exe, &data),
        vec![
            "/repo/hooks/codex",
            "/usr/local/share/ai-memory/hooks/codex",
            "/d/ai-memory/hooks/codex"
        ]
    );
    assert_eq!(
        hooks_dir_candidates(&args(AgentChoice::OpenCode, None, None), &host(), "/work", &None, &None),
        vec!["", "/usr/local/share/ai-memory/hooks/opencode", ""]
    );
    assert_eq!(
        hooks_dir_candidates(&args(AgentChoice::ClaudeCode, Some("/h"), None), &host(), "/work", &exe, &data),
        vec!["/h/host-agent"]
    );
}

#[test]
fn the_first_directory_wins() {
    let dirs = vec!["".to_string(), "/a".to_string(), "/b".to_string()];
    let pick = |flags: Vec<bool>| resolve_hooks_dir(&None, &dirs, &flags);
    assert_eq!(pick(vec![true, true, true]).unwrap(), "/a");
    assert_eq!(pick(vec![true, false, true]).unwrap(), "/b");
    match pick(vec![true, false, false]) {
        Err(e) => assert_eq!(
            e.message(),
            "could not locate hooks directory. Tried: [\"\", \"/a\", \"/b\"]"
        ),
        Ok(_) => panic!("there is none"),
    }
    match resolve_hooks_dir(
        &Some("h/codex".to_string()),
        &vec!["/work/h/codex".to_string()],
        &vec![false],
    ) {
        Err(e) => assert_eq!(e.message(), "hooks directory h/codex does not exist"),
        Ok(_) => panic!("there is none"),
    }
}

#[test]
fn other_agents_are_shown_their_scripts() {
    let a = args(AgentChoice::Codex, Some("/h"), None);
    let text = run(&a, &host(), &around(vec![true], vec![])).unwrap();
    assert_eq!(
        text,
        "# codex hook scripts (manual install — wire each to the matching event)\n\
         # Hook scripts: /h/codex\n\
         # AI-memory server URL: http://s\n\
         # Auth: server requires no bearer token. To require one, generate a\n\
         #       token with `ai-memory generate-auth-token` and pass it via\n\
         #       --auth-token here AND set AI_MEMORY_AUTH_TOKEN on the server.\n\
         \n\
         - /h/codex/stop.sh\n\
         \n\
         Set AI_MEMORY_HOOK_URL in each hook's environment to override the default.\n"
    );
    let head = render_agent_head("codex", "/h/codex", "http://s", &None);
    assert!(text.starts_with(&head));
}

#[test]
fn the_token_is_not_printed() {
    let text = |token: &str| {
        let a = args(AgentChoice::OpenCode, Some("/h"), Some(token));
        run(&a, &host(), &around(vec![true], vec![])).unwrap()
    };
    assert_eq!(text("first"), text("second"));
    assert!(text("first").contains("(omitted from this printout).\n"));
    assert!(text("first").starts_with("# opencode hook scripts"));
    let shown = render_agent("x", "/d", "u", &Some("tok".to_string()), &vec![]);
    assert!(!shown.contains("tok\n"));
}

#[test]
fn the_host_agent_is_shown_its_settings() {
    let all = vec![true; 7];
    let text = render_claude_code(&host(), "/work", "/h", "http://s", &Some("tok".to_string()), &all).unwrap();
    let (head, json) = text.split_once("\n\n").unwrap();
    assert_eq!(
        head,
        "# Host Agent hook config — merge into ~/.host/settings.json\n\
         # Hook scripts: /h\n\
         # AI-memory server URL: http://s\n\
         # Auth: AI_MEMORY_AUTH_TOKEN embedded in each hook's env block below.\n\
         #       Treat ~/.host/settings.json as sensitive (chmod 600)."
    );
    let value: serde_json::Value = serde_json::from_str(json).unwrap();
    let hooks = value["hooks"].as_object().unwrap();
    assert_eq!(hooks.len(), 7);
    let stop = &hooks["Stop"][0];
    assert_eq!(stop["command"], "/h/stop.sh");
    assert_eq!(stop["env"]["AI_MEMORY_HOOK_URL"], "http://s");
    assert_eq!(stop["env"]["AI_MEMORY_AUTH_TOKEN"], "tok");
    assert!(json.starts_with("{\n  \"hooks\": {\n    \"PostToolUse\": ["));
    assert!(json.ends_with("}\n"));

    let text = render_claude_code(&host(), "/work", "/h", "http://s", &None, &all).unwrap();
    assert!(!text.contains("AI_MEMORY_AUTH_TOKEN"));
    let config = hooks_config("/h", "http://s", &None);
    assert_eq!(
        config["hooks"]["SessionStart"][0].to_string(),
        "{\"command\":\"/h/session-start.sh\",\"env\":{\"AI_MEMORY_HOOK_URL\":\"http://s\"}}"
    );
}

#[test]
fn a_missing_script_is_an_error() {
    assert_eq!(
        claude_script_paths("/h"),
        vec![
            "/h/session-start.sh",
            "/h/user-prompt-submit.sh",
            "/h/pre-tool-use.sh",
            "/h/post-tool-use.sh",
            "/h/pre-compact.sh",
            "/h/stop.sh",
            "/h/session-end.sh"
        ]
    );
    let mut exists = vec![true; 7];
    exists[2] = false;
    exists[5] = false;
    let a = args(AgentChoice::ClaudeCode, None, None);
    match run(&a, &host(), &around(vec![false, true, false], exists)) {
        Err(e) => {
            assert!(matches!(e, InstallError::MissingScript(_)));
            assert_eq!(
                e.message(),
                "missing hook script: /usr/local/share/ai-memory/hooks/host-agent/pre-tool-use.sh"
            );
        }
        Ok(_) => panic!("a script is missing"),
    }
    assert_eq!(
        InstallError::Serialize("host agent".to_string()).message(),
        "serializing host agent hook config"
    );
}

#[test]
fn relative_directories_are_taken_against_the_working_directory() {
    let a = args(AgentChoice::ClaudeCode, Some("hooks"), None);
    assert_eq!(
        hooks_dir_candidates(&a, &host(), "/work", &None, &None),
        vec!["/work/hooks/host-agent"]
    );
    let text = run(&a, &host(), &around(vec![true], vec![true; 7])).unwrap();
    assert!(text.contains("\n# Hook scripts: /work/hooks/host-agent\n"));
    let (_, json) = text.split_once("\n\n").unwrap();
    let value: serde_json::Value = serde_json::from_str(json).unwrap();
    for (_, event) in value["hooks"].as_object().unwrap() {
        let command = event[0]["command"].as_str().unwrap();
        assert!(command.starts_with("/work/hooks/host-agent/"), "{command}");
    }
    let b = args(AgentChoice::Codex, None, None);
    assert_eq!(
        hooks_dir_candidates(
            &b,
            &host(),
            "/work",
            &Some("t/debug/x".to_string()),
            &Some("d".to_string())
        ),
        vec![
            "/work/hooks/codex",
            "/usr/local/share/ai-memory/hooks/codex",
            "/work/d/ai-memory/hooks/codex"
        ]
    );
}

#[test]
fn the_configuration_names_scripts_by_absolute_paths() {
    let all = vec![true; 7];
    let text = render_claude_code(&host(), "/work", "hooks/x", "http://s", &None, &all).unwrap();
    assert!(text.contains("\"/work/hooks/x/session-start.sh\""));
    assert!(text.contains("\"/work/hooks/x/session-end.sh\""));
    assert!(!text.contains("\"hooks/x"));
}

#[test]
fn tried_directories_are_shown_as_paths_are() {
    let dirs = vec!["/it's".to_string()];
    match resolve_hooks_dir(&None, &dirs, &vec![false]) {
        Err(e) => assert_eq!(
            e.message(),
            format!(
                "could not locate hooks directory. Tried: {:?}",
                [std::path::PathBuf::from("/it's")]
            )
        ),
        Ok(_) => panic!("there is none"),
    }
}

#[test]
fn every_agent_has_its_directory() {
    assert_eq!(agent_dir_of(AgentChoice::ClaudeCode, &host()), "host-agent");
    assert_eq!(agent_dir_of(AgentChoice::Codex, &host()), "codex");
    assert_eq!(agent_dir_of(AgentChoice::OpenCode, &host()), "opencode");
}

#[test]
fn a_missing_directory_is_named_as_given() {
    let a = args(AgentChoice::Codex, Some("nope"), None);
    assert_eq!(given_dir(&a, &host()).as_deref(), Some("nope/codex"));
    match run(&a, &host(), &around(vec![false], vec![])) {
        Err(e) => assert_eq!(e.message(), "hooks directory nope/codex does not exist"),
        Ok(_) => panic!("there is none"),
    }
    let b = args(AgentChoice::Codex, None, None);
    assert!(given_dir(&b, &host()).is_none());
}

#[test]
fn exactly_the_scripts_are_listed() {
    let listing = around(vec![], vec![]).listing;
    for token in [None, Some("- tok".to_string())] {
        let text = render_agent("- label", "- dir", "- url", &token, &listing);
        let items: Vec<&str> = text.lines().filter(|l| l.starts_with("- ")).collect();
        assert_eq!(items, vec!["- /h/codex/stop.sh"]);
    }
}
