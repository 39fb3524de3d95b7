use hub::cli::args::{flag, pop_subcommand, reject_extra, take_bool, take_option, take_positional};
use hub::cli::commands::{
    check_memory_text, join_args, memories_listing, memory_add_message, parse_auth_command,
    parse_memory_command, parse_vault_command, pi_threads_block, AuthCommand, MemoryCommand,
    TextSource, VaultCommand,
};
use hub::cli::config::{
    command_name, config_for_token, configured_token, fill_config_defaults, format_config_toml,
    memory_user_id, nonblank_value, normalize_base_url, parse_toml_config, present,
    read_toml_like_values, toml_escape, toml_value, unquote_toml_value, url, Config,
};
use hub::cli::login::{callback_credentials, callback_target, login_url, memory_list_path, parse_query};
use hub::cli::requests::{
    body_source, parse_api_command, parse_github_command, parse_newsletter_command,
    parse_paste_command, parse_subscriptions_command, paste_created_output, paste_source,
    response_output, ApiRequest, NewsletterPublish, PasteCreate, PiThreadsBlockCommand,
    SubscribeCommand,
};
use hub::json::Json;

fn args(items: &[&str]) -> Vec<String> {
    items.iter().map(|s| s.to_string()).collect()
}

#[test]
fn options_and_flags_are_taken_out_of_the_arguments() {
    let mut a = args(&["x", "--user-id", "ann", "--json", "y"]);
    assert_eq!(take_option(&mut a, "--user-id"), Ok(Some("ann".to_string())));
    assert_eq!(a, args(&["x", "--json", "y"]));
    assert!(take_bool(&mut a, "--json"));
    assert!(!take_bool(&mut a, "--json"));
    assert_eq!(take_positional(&mut a, "first"), Ok("x".to_string()));
    assert_eq!(reject_extra(&a), Err("unexpected argument y".to_string()));
    let mut b = args(&["--file"]);
    assert_eq!(take_option(&mut b, "--file"), Err("--file requires a value".to_string()));
    assert!(b.is_empty());
    let mut c = args(&["--only-flags"]);
    assert_eq!(take_positional(&mut c, "path"), Err("path is required".to_string()));
    assert!(flag(&c, "--only-flags"));
}

#[test]
fn a_subcommand_is_required_and_help_asks_for_it() {
    let mut a = args(&[]);
    assert_eq!(pop_subcommand(&mut a, "memory"), Err("missing memory subcommand".to_string()));
    let mut b = args(&["add", "--help"]);
    assert_eq!(pop_subcommand(&mut b, "memory"), Err("missing memory subcommand".to_string()));
    let mut c = args(&["add", "x"]);
    assert_eq!(pop_subcommand(&mut c, "memory"), Ok("add".to_string()));
    assert_eq!(c, args(&["x"]));
}

#[test]
fn memory_commands_are_read() {
    assert_eq!(
        parse_memory_command(args(&["add", "I", "like", "tea", "--json"])),
        Ok(MemoryCommand::Add {
            user_id: None,
            source: TextSource::Inline("I like tea".to_string()),
            json: true,
            rest: vec![],
        })
    );
    assert_eq!(
        parse_memory_command(args(&["add", "--file", "-", "--user-id", "u"])),
        Ok(MemoryCommand::Add { user_id: Some("u".to_string()), source: TextSource::Stdin, json: false, rest: vec![] })
    );
    assert_eq!(
        parse_memory_command(args(&["search", "editor", "choice"])),
        Ok(MemoryCommand::Search { user_id: None, query: "editor choice".to_string(), json: false })
    );
    assert_eq!(parse_memory_command(args(&["ls"])), Ok(MemoryCommand::List { user_id: None, json: false }));
    assert_eq!(
        parse_memory_command(args(&["add"])),
        Err("memory text is required (or pass --file PATH|-)".to_string())
    );
    assert_eq!(parse_memory_command(args(&["search"])), Err("search query is required".to_string()));
    assert_eq!(parse_memory_command(args(&["list", "x"])), Err("unexpected argument x".to_string()));
    assert_eq!(parse_memory_command(args(&["forget"])), Err("unknown memory command forget".to_string()));
}

#[test]
fn vault_and_auth_commands_are_read() {
    assert_eq!(parse_vault_command(args(&["current-thread", "--json"])), Ok(VaultCommand::CurrentThread { json: true }));
    assert_eq!(
        parse_vault_command(args(&["share-thread", "thr_1"])),
        Ok(VaultCommand::ShareThread { thread_id: "thr_1".to_string(), json: false })
    );
    assert_eq!(parse_vault_command(args(&["share-thread"])), Err("thread-id is required".to_string()));
    assert_eq!(parse_vault_command(args(&["nope"])), Err("unknown vault command nope".to_string()));
    assert_eq!(parse_auth_command(args(&["status"])), Ok(AuthCommand::Status));
    assert_eq!(
        parse_auth_command(args(&["issue-token", "laptop"])),
        Ok(AuthCommand::IssueToken { name: "laptop".to_string() })
    );
    assert_eq!(
        parse_auth_command(args(&["issue"])),
        Err("a client name is required (--name \"laptop\")".to_string())
    );
    assert_eq!(
        parse_auth_command(args(&["login", "--token", "t"])),
        Ok(AuthCommand::Login { token: Some("t".to_string()), base_url: None, client_name: None })
    );
}

#[test]
fn api_requests_are_read_with_defaults() {
    assert_eq!(
        parse_api_command(args(&["request", "GET", "/api/x", "--no-auth"])),
        Ok(ApiRequest {
            method: "GET".to_string(),
            path: "/api/x".to_string(),
            body: None,
            content_type: "application/json".to_string(),
            no_auth: true,
        })
    );
    assert_eq!(
        parse_api_command(args(&["request", "POST", "/api/y", "--body", "@b.json", "--content-type", "text/plain"])),
        Ok(ApiRequest {
            method: "POST".to_string(),
            path: "/api/y".to_string(),
            body: Some("@b.json".to_string()),
            content_type: "text/plain".to_string(),
            no_auth: false,
        })
    );
    assert_eq!(parse_api_command(args(&["request", "GET"])), Err("path is required".to_string()));
    assert_eq!(parse_api_command(args(&["fetch"])), Err("unknown api command fetch".to_string()));
    assert_eq!(parse_api_command(args(&[])), Err("missing api subcommand".to_string()));
}

#[test]
fn request_bodies_come_from_stdin_a_file_or_the_argument() {
    assert_eq!(body_source("-"), TextSource::Stdin);
    assert_eq!(body_source("@data.json"), TextSource::File("data.json".to_string()));
    assert_eq!(body_source("{\"a\":1}"), TextSource::Inline("{\"a\":1}".to_string()));
    assert_eq!(paste_source(&None), TextSource::Stdin);
    assert_eq!(paste_source(&Some("-".to_string())), TextSource::Stdin);
    assert_eq!(paste_source(&Some("a.rs".to_string())), TextSource::File("a.rs".to_string()));
}

#[test]
fn paste_newsletter_subscription_and_github_commands_are_read() {
    assert_eq!(
        parse_paste_command(args(&["create", "--json", "--file", "a.rs"])),
        Ok(PasteCreate { file: Some("a.rs".to_string()), json: true })
    );
    assert_eq!(parse_paste_command(args(&["create", "extra"])), Err("unexpected argument extra".to_string()));
    assert_eq!(
        parse_newsletter_command(args(&["publish", "--title", "T", "--html-file", "a.html", "--text-file", "a.txt"])),
        Ok(NewsletterPublish { title: "T".to_string(), html_file: "a.html".to_string(), text_file: "a.txt".to_string() })
    );
    assert_eq!(
        parse_newsletter_command(args(&["publish", "--title", "T"])),
        Err("--html-file is required".to_string())
    );
    assert_eq!(
        parse_subscriptions_command(args(&["subscribe", "--email", "a@b.c"])),
        Ok(SubscribeCommand { email: "a@b.c".to_string(), name: None })
    );
    assert_eq!(
        parse_subscriptions_command(args(&["subscribe", "--name", "Ann"])),
        Err("--email is required".to_string())
    );
    assert_eq!(
        parse_github_command(args(&["pi-threads-block"])),
        Ok(PiThreadsBlockCommand { label: "current coding-agent thread".to_string(), url: None })
    );
    assert_eq!(
        parse_github_command(args(&["pi-threads-block", "--label", "L", "--url", "https://x/s/1"])),
        Ok(PiThreadsBlockCommand { label: "L".to_string(), url: Some("https://x/s/1".to_string()) })
    );
}

#[test]
fn replies_are_printed_with_a_final_line_break() {
    assert_eq!(response_output(true, "200 OK", "{}"), Ok("{}\n".to_string()));
    assert_eq!(response_output(true, "200 OK", "{}\n"), Ok("{}\n".to_string()));
    assert_eq!(
        response_output(false, "404 Not Found", "nope"),
        Err("server returned 404 Not Found: nope".to_string())
    );
    assert_eq!(paste_created_output("  https://h/p/abc \n", false), "https://h/p/abc");
    assert_eq!(paste_created_output("https://h/p/abc\n", true), "{\n  \"url\": \"https://h/p/abc\"\n}");
}

#[test]
fn memory_text_must_not_be_blank() {
    assert_eq!(check_memory_text("  "), Err("memory text cannot be empty".to_string()));
    assert_eq!(check_memory_text(" x "), Ok(()));
    assert_eq!(join_args(&args(&["a", "b", "c"])), "a b c");
}

#[test]
fn memory_replies_are_summarised() {
    let reply = Json::Object(vec![("message".to_string(), Json::Str("queued 2".to_string()))]);
    assert_eq!(memory_add_message(&reply), "queued 2");
    assert_eq!(memory_add_message(&Json::Object(vec![])), "Memory extraction queued");
    let list = Json::Object(vec![(
        "memories".to_string(),
        Json::Array(vec![
            Json::Object(vec![("fact".to_string(), Json::Str("likes tea".to_string()))]),
            Json::Object(vec![]),
        ]),
    )]);
    assert_eq!(memories_listing(&list), vec!["- likes tea".to_string(), "- ".to_string()]);
    let empty = Json::Object(vec![("memories".to_string(), Json::Array(vec![]))]);
    assert_eq!(memories_listing(&empty), vec!["No memories stored".to_string()]);
}

#[test]
fn the_pi_threads_block_links_the_share() {
    assert_eq!(
        pi_threads_block("my thread", "https://h/s/tok"),
        vec![
            "<!-- pi-threads:start -->".to_string(),
            "## Pi threads".to_string(),
            "- [my thread](https://h/s/tok)".to_string(),
            "<!-- pi-threads:end -->".to_string(),
        ]
    );
}

#[test]
fn base_urls_and_paths_are_joined() {
    assert_eq!(normalize_base_url("https://h///"), "https://h");
    assert_eq!(url("https://h/", "/api/x"), "https://h/api/x");
    assert_eq!(url("https://h", "api/x"), "https://h/api/x");
    assert_eq!(present(Some("t")), "configured");
    assert_eq!(present(Some("")), "missing");
    assert_eq!(present(None), "missing");
}

#[test]
fn toml_values_are_escaped_and_unescaped() {
    assert_eq!(toml_escape("a\"b\\c"), "a\\\"b\\\\c");
    assert_eq!(unquote_toml_value(" \"a\\\"b\\\\c\" "), "a\"b\\c");
    assert_eq!(unquote_toml_value(" plain "), "plain");
}

#[test]
fn a_configuration_file_is_read_by_section() {
    let text = "base_url = \"https://h\" # comment\ntoken = \"t\"\n\n[pi_thread_vault]\nmemory_enabled = true\nredaction_enabled = maybe\nmemory_user_id = \"ann\"\n";
    let entries = read_toml_like_values(text);
    assert_eq!(toml_value(&entries, "pi_thread_vault.memory_user_id"), Some("ann".to_string()));
    assert_eq!(toml_value(&entries, "memory_user_id"), None);
    let c = parse_toml_config(text);
    assert_eq!(c.base_url, "https://h");
    assert_eq!(c.token, Some("t".to_string()));
    assert_eq!(c.pi_thread_vault_memory_enabled, Some(true));
    assert_eq!(c.pi_thread_vault_redaction_enabled, None);
    assert_eq!(c.pi_thread_vault_data_dir, None);
}

#[test]
fn a_written_configuration_reads_back() {
    let mut c = config_for_token("https://h/", "tok\"en");
    c.pi_thread_vault_memory_user_id = Some("a\\b".to_string());
    let text = format_config_toml(&c, "/data", "me");
    assert_eq!(
        text,
        "base_url = \"https://h\"\ntoken = \"tok\\\"en\"\n\n[pi_thread_vault]\ndata_dir = \"/data\"\ndefault_visibility = \"private\"\nredaction_enabled = true\nmemory_enabled = false\nmemory_user_id = \"a\\\\b\"\n"
    );
    let back = parse_toml_config(&text);
    assert_eq!(back.base_url, "https://h");
    assert_eq!(back.token, Some("tok\"en".to_string()));
    assert_eq!(back.pi_thread_vault_data_dir, Some("/data".to_string()));
    assert_eq!(back.pi_thread_vault_default_visibility, Some("private".to_string()));
    assert_eq!(back.pi_thread_vault_redaction_enabled, Some(true));
    assert_eq!(back.pi_thread_vault_memory_enabled, Some(false));
    assert_eq!(back.pi_thread_vault_memory_user_id, Some("a\\b".to_string()));
}

#[test]
fn configuration_defaults_and_choices() {
    let mut c = Config::default();
    fill_config_defaults(&mut c, None);
    assert_eq!(c.base_url, "https://hub.jonaylor.com");
    let mut d = Config::default();
    fill_config_defaults(&mut d, Some("http://localhost:8000/".to_string()));
    assert_eq!(d.base_url, "http://localhost:8000");
    assert_eq!(
        configured_token(&c, None),
        Err("no token configured; run `jonaylor auth login --token ...`".to_string())
    );
    assert_eq!(configured_token(&c, Some("env".to_string())), Ok("env".to_string()));
    let mut e = Config::default();
    e.pi_thread_vault_memory_user_id = Some("cfg".to_string());
    assert_eq!(memory_user_id(&e, Some("cli".to_string()), Some("env".to_string())), Some("cli".to_string()));
    assert_eq!(memory_user_id(&e, None, Some("env".to_string())), Some("env".to_string()));
    assert_eq!(memory_user_id(&e, None, None), Some("cfg".to_string()));
    assert_eq!(nonblank_value(Some("  ".to_string())), None);
    assert_eq!(nonblank_value(Some(" ann ".to_string())), Some(" ann ".to_string()));
    assert_eq!(command_name("host-1\n"), Some("host-1".to_string()));
    assert_eq!(command_name("\n"), None);
}

#[test]
fn login_addresses_are_url_encoded() {
    assert_eq!(
        login_url("https://h/", "http://127.0.0.1:9000/cb", "my laptop"),
        "https://h/cli-login?callback=http%3A%2F%2F127.0.0.1%3A9000%2Fcb&client_name=my%20laptop"
    );
    assert_eq!(memory_list_path("ann smith"), "/api/memory/ann%20smith");
}

#[test]
fn the_login_callback_yields_token_and_server() {
    assert_eq!(
        callback_target("GET /callback?token=abc HTTP/1.1\r\nHost: x\r\n"),
        Ok("/callback?token=abc".to_string())
    );
    assert_eq!(callback_target(""), Err("invalid login callback request".to_string()));
    assert_eq!(
        parse_query("token=a%20b&base_url=https%3A%2F%2Fh&flag"),
        vec![
            ("token".to_string(), "a b".to_string()),
            ("base_url".to_string(), "https://h".to_string()),
            ("flag".to_string(), "".to_string()),
        ]
    );
    assert_eq!(
        callback_credentials("/cb?token=t1&base_url=https%3A%2F%2Fother", "https://h"),
        Ok(("t1".to_string(), "https://other".to_string()))
    );
    assert_eq!(
        callback_credentials("/cb?token=t1", "https://h"),
        Ok(("t1".to_string(), "https://h".to_string()))
    );
    assert_eq!(
        callback_credentials("/cb?token=", "https://h"),
        Err("login callback did not include a token".to_string())
    );
}
