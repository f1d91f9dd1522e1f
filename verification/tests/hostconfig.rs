use chapr_endpoint::hostconfig::{
    hosts, render, run, servers_for, settings_from_env, shell_quote, Field, Settings, COORD_URL_PLACEHOLDER,
    ROOT_PLACEHOLDER, SERVER_NAME,
};
use chapr_endpoint::identity::{logged_in_principal, principal_from_parts as p};

fn settings() -> Settings {
    Settings {
        command: "/opt/chaperone/chapr-endpoint".to_string(),
        coord_url: "https://coord-01:8787".to_string(),
        root: r"\\FILESRV\AICollab".to_string(),
        extra: Vec::new(),
        placeholders: Vec::new(),
        client: Some("agent".to_string()),
    }
}

#[test]
fn every_advertised_host_renders() {
    for h in hosts(&settings()) {
        let r = render(&h, &settings()).unwrap_or_else(|e| panic!("{h} failed: {e}"));
        assert!(!r.config.trim().is_empty(), "{h} rendered nothing");
    }
}

#[test]
fn every_host_names_the_resolved_binary_and_the_coordinator() {
    for h in hosts(&settings()) {
        let out = render(&h, &settings()).unwrap().config;
        assert!(out.contains("/opt/chaperone/chapr-endpoint"), "{h}: no path");
        assert!(out.contains("https://coord-01:8787"), "{h}: no coord url");
    }
}

#[test]
fn generic_is_valid_json_with_the_portable_shape() {
    let out = render("generic", &settings()).unwrap().config;
    let v: serde_json::Value = serde_json::from_str(&out).expect("not valid JSON");
    let entry = &v["mcpServers"][SERVER_NAME];
    assert_eq!(entry["command"], "/opt/chaperone/chapr-endpoint");
    assert_eq!(entry["env"]["CHAPR_COORD_URL"], "https://coord-01:8787");
    assert_eq!(entry["env"]["CHAPR_ROOT"], r"\\FILESRV\AICollab");
    assert!(entry.get("type").is_none(), "type should be omitted");
    assert!(out.ends_with("}\n") && out.starts_with("{\n  \"mcpServers\": {\n    \"chaperone\": {\n"));
}

#[test]
fn optional_settings_appear_only_when_set() {
    let out = render("generic", &settings()).unwrap().config;
    assert!(!out.contains("RUST_LOG"), "unset value should be omitted");

    let mut s = settings();
    s.extra.push(("RUST_LOG".into(), "debug".into()));
    s.extra.push(("CHAPR_BACKEND".into(), "posix".into()));
    let v: serde_json::Value = serde_json::from_str(&render("generic", &s).unwrap().config).unwrap();
    let env = &v["mcpServers"][SERVER_NAME]["env"];
    assert_eq!(env["RUST_LOG"], "debug");
    assert_eq!(env["CHAPR_BACKEND"], "posix");
}

#[test]
fn variables_stand_in_order_and_the_last_of_a_name_counts() {
    let mut s = settings();
    s.extra.push(("RUST_LOG".into(), "info".into()));
    s.extra.push(("CHAPR_BACKEND".into(), "posix".into()));
    s.extra.push(("RUST_LOG".into(), "debug".into()));
    s.extra.push(("CHAPR_ROOT".into(), "/srv".into()));
    let env: Vec<(String, String)> = s.env();
    let names: Vec<&str> = env.iter().map(|(k, _)| k.as_str()).collect();
    assert_eq!(names, ["CHAPR_BACKEND", "CHAPR_COORD_URL", "CHAPR_ROOT", "RUST_LOG"]);
    assert_eq!(env[2].1, "/srv");
    assert_eq!(env[3].1, "debug");
}

#[test]
fn a_client_puts_the_command_after_a_double_dash() {
    let out = render("agent-code", &settings()).unwrap().config;
    let (flags, cmd) = out.split_once(" -- ").expect("no `--` separator");
    assert!(cmd.contains("chapr-endpoint"));
    assert!(flags.contains("--transport stdio"));
    assert!(flags.contains("--env CHAPR_COORD_URL=https://coord-01:8787"));
    assert!(flags.trim_end().ends_with(SERVER_NAME), "got: {flags}");
    assert_eq!(
        out,
        "agent mcp add --transport stdio --env CHAPR_COORD_URL=https://coord-01:8787 --env \
         CHAPR_ROOT=\\\\FILESRV\\AICollab chaperone -- /opt/chaperone/chapr-endpoint\n"
    );
}

#[test]
fn a_path_with_spaces_is_quoted() {
    let mut s = settings();
    s.command = r"C:\Program Files\Chaperone\chapr-endpoint.exe".to_string();
    let out = render("agent-code", &s).unwrap().config;
    assert!(
        out.contains(r#""C:\Program Files\Chaperone\chapr-endpoint.exe""#),
        "got: {out}"
    );
    assert!(out.contains("--env CHAPR_COORD_URL=https://coord-01:8787"));
}

#[test]
fn shell_words_are_quoted_only_where_they_must_be() {
    assert_eq!(shell_quote("plain-word"), "plain-word");
    assert_eq!(shell_quote(""), "\"\"");
    assert_eq!(shell_quote("say \"hi\""), "\"say \\\"hi\\\"\"");
    assert_eq!(shell_quote("it's"), "\"it's\"");
    assert_eq!(shell_quote("a\u{a0}b"), "\"a\u{a0}b\"");
}

#[test]
fn an_unknown_host_lists_the_valid_ones() {
    let e = render("emacs", &settings()).unwrap_err();
    assert!(e.contains("emacs"), "should name what was asked for: {e}");
    for h in hosts(&settings()) {
        assert!(e.contains(&h), "should list {h}: {e}");
    }
    assert_eq!(e, "unknown host \"emacs\". Valid hosts: generic, agent-code");
}

#[test]
fn placeholders_are_flagged_rather_than_passed_off_as_configuration() {
    let mut s = settings();
    s.coord_url = COORD_URL_PLACEHOLDER.to_string();
    s.placeholders = vec!["CHAPR_COORD_URL".to_string()];
    let notes = render("generic", &s).unwrap().notes;
    assert!(
        notes.iter().any(|n| n.contains("CHAPR_COORD_URL")),
        "an unset coordinator URL must be called out: {notes:?}"
    );
}

#[test]
fn an_unset_root_warns_about_confinement() {
    let mut s = settings();
    s.placeholders = vec!["CHAPR_ROOT".to_string()];
    let notes = render("generic", &s).unwrap().notes;
    assert!(notes.iter().any(|n| n.contains("unconfined")), "got: {notes:?}");
}

fn vars(v: &[(&str, &str)]) -> Vec<(String, String)> {
    v.iter().map(|(k, x)| (k.to_string(), x.to_string())).collect()
}

#[test]
fn settings_come_from_the_environment() {
    let s = settings_from_env(
        Some("/bin/chapr-endpoint".into()),
        false,
        &vars(&[("CHAPR_COORD_URL", "http://c:1"), ("CHAPR_ROOT", "  "), ("RUST_LOG", "debug"), ("CHAPR_BACKEND", "posix")]),
    );
    assert_eq!(s.command, "/bin/chapr-endpoint");
    assert_eq!(s.coord_url, "http://c:1");
    assert_eq!(s.root, ROOT_PLACEHOLDER);
    assert_eq!(s.placeholders, ["CHAPR_ROOT"]);
    assert_eq!(s.extra, vars(&[("CHAPR_BACKEND", "posix"), ("RUST_LOG", "debug")]));
    let bare = settings_from_env(None, true, &Vec::new());
    assert_eq!(bare.command, "chapr-endpoint.exe");
    assert_eq!(bare.placeholders, ["CHAPR_COORD_URL", "CHAPR_ROOT"]);
}

#[test]
fn printing_keeps_the_configuration_apart() {
    let r = run(Some("agent-code"), &settings());
    assert_eq!(r.code, 0);
    assert!(r.out.starts_with("agent mcp add"));
    assert!(r.err.len() == 1 && r.err[0].starts_with("note: Add --scope project"));
    let bad = run(Some("emacs"), &settings());
    assert_eq!((bad.code, bad.out.as_str()), (2, ""));
    assert_eq!(bad.err, ["error: unknown host \"emacs\". Valid hosts: generic, agent-code"]);
    let usage = run(None, &settings());
    assert_eq!((usage.code, usage.out.as_str()), (0, ""));
    assert_eq!(usage.err[0], "Usage: chapr-endpoint print-config <generic|agent-code>");
    assert_eq!(usage.err[5], "  command: /opt/chaperone/chapr-endpoint");
}

#[test]
fn override_wins() {
    assert_eq!(
        p(Some("CONTOSO\\override".into()), Some("D".into()), Some("u".into()), Some("x".into())),
        "CONTOSO\\override"
    );
}

#[test]
fn windows_domain_and_user() {
    assert_eq!(p(None, Some("CONTOSO".into()), Some("jsmith".into()), None), "CONTOSO\\jsmith");
}

#[test]
fn unix_user() {
    assert_eq!(p(None, None, None, Some("alice".into())), "alice");
}

#[test]
fn fallback_when_nothing_known() {
    assert_eq!(p(None, None, None, None), "UNKNOWN\\user");
}

#[test]
fn the_logged_in_user_is_found_in_the_environment() {
    assert_eq!(logged_in_principal(&vars(&[("LOGNAME", "bob")])).as_str(), "bob");
    assert_eq!(logged_in_principal(&vars(&[("USER", " "), ("LOGNAME", "bob")])).as_str(), "bob");
    assert_eq!(
        logged_in_principal(&vars(&[("USERNAME", "jsmith"), ("USERDOMAIN", "CONTOSO"), ("USER", "x")])).as_str(),
        "CONTOSO\\jsmith"
    );
    assert_eq!(logged_in_principal(&vars(&[("CHAPR_PRINCIPAL", "agent"), ("USER", "x")])).as_str(), "agent");
}

#[test]
fn no_host_but_the_listed_ones_is_known() {
    assert_eq!(hosts(&settings()), ["generic", "agent-code"]);
    for h in ["", "other-code", "-code", "agent", "Generic", "generic "] {
        assert!(render(h, &settings()).is_err(), "{h:?} is no host");
    }
    let mut s = settings();
    s.client = None;
    assert_eq!(hosts(&s), ["generic"]);
    assert_eq!(render("agent-code", &s).unwrap_err(), "unknown host \"agent-code\". Valid hosts: generic");
    assert_eq!(run(None, &s).err[0], "Usage: chapr-endpoint print-config <generic>");
}

#[test]
fn the_client_comes_from_the_environment() {
    let from = |v: &[(&str, &str)]| settings_from_env(None, false, &vars(v)).client;
    assert_eq!(from(&[("CHAPR_CLIENT", "agent")]).as_deref(), Some("agent"));
    assert_eq!(from(&[("CHAPR_CLIENT", " ")]), None);
    assert_eq!(from(&[]), None);
}

#[test]
fn the_block_holds_one_server() {
    let servers = servers_for(&settings());
    assert_eq!(servers.len(), 1);
    let (name, entry) = &servers[0];
    assert_eq!(name, SERVER_NAME);
    let names: Vec<&str> = entry.iter().map(|(n, _)| n.as_str()).collect();
    assert_eq!(names, ["command", "env"]);
    assert!(matches!(&entry[0].1, Field::Text(t) if t == "/opt/chaperone/chapr-endpoint"));
    assert!(matches!(&entry[1].1, Field::Table(pairs) if pairs == &settings().env()));
}
