use hotkey_engine::context::NpContext;
use hotkey_engine::commands::CommandMode;
use hotkey_engine::remote::{
    chunk_map_ids, dotenv_lookup, normalize_base_url, normalize_category_code, parse_dotenv_lines,
    parse_port_or, resolve_session_config, ConfigSource,
};

#[test]
fn category_codes_are_canonicalized() {
    assert_eq!(normalize_category_code("3").as_deref(), Some("P3"));
    assert_eq!(normalize_category_code("p12").as_deref(), Some("P12"));
    assert_eq!(normalize_category_code(" P7 ").as_deref(), Some("P7"));
    assert_eq!(normalize_category_code("007").as_deref(), Some("P007"));
    assert_eq!(normalize_category_code(""), None);
    assert_eq!(normalize_category_code("P"), None);
    assert_eq!(normalize_category_code("x3"), None);
    assert_eq!(normalize_category_code("P3a"), None);
}

#[test]
fn base_urls_get_scheme_and_trailing_slash() {
    assert_eq!(normalize_base_url("example.com"), "http://example.com/");
    assert_eq!(normalize_base_url("https://example.com"), "https://example.com/");
    assert_eq!(normalize_base_url("http://example.com/"), "http://example.com/");
    assert_eq!(normalize_base_url("  example.com/api  "), "http://example.com/api/");
    assert_eq!(normalize_base_url(""), "");
    assert_eq!(normalize_base_url("   "), "");
}

#[test]
fn ports_parse_or_fall_back() {
    assert_eq!(parse_port_or("8080", 8765), 8080);
    assert_eq!(parse_port_or("+80", 8765), 80);
    assert_eq!(parse_port_or("0", 8765), 0);
    assert_eq!(parse_port_or("65535", 8765), 65535);
    assert_eq!(parse_port_or("65536", 8765), 8765);
    assert_eq!(parse_port_or("", 8765), 8765);
    assert_eq!(parse_port_or("+", 8765), 8765);
    assert_eq!(parse_port_or("80x", 8765), 8765);
    assert_eq!(parse_port_or("-1", 8765), 8765);
}

fn src(env: &str, file: Option<&str>, build: &str) -> ConfigSource {
    ConfigSource {
        env: env.to_string(),
        file: file.map(|s| s.to_string()),
        build: build.to_string(),
    }
}

#[test]
fn config_prefers_an_explicit_base_url() {
    let cfg = resolve_session_config(
        &src("my.host:9", None, ""),
        &src("ignored", None, ""),
        &src("1234", None, ""),
        &src(" secret ", None, ""),
        "https://fallback.test",
    );
    assert_eq!(cfg.base_url, "http://my.host:9/");
    assert_eq!(cfg.token, "secret");
}

#[test]
fn config_builds_from_host_and_port() {
    let cfg = resolve_session_config(
        &src("", None, ""),
        &src("", Some("10.0.0.5"), ""),
        &src("", None, "9000"),
        &src("", None, ""),
        "https://fallback.test",
    );
    assert_eq!(cfg.base_url, "http://10.0.0.5:9000/");
    assert_eq!(cfg.token, "");
}

#[test]
fn config_defaults_host_and_port_separately() {
    // A present-but-empty dotenv key counts as "host/port configured".
    let cfg = resolve_session_config(
        &src("", None, ""),
        &src("", Some(""), ""),
        &src("", None, ""),
        &src("", None, ""),
        "https://fallback.test",
    );
    assert_eq!(cfg.base_url, "http://127.0.0.1:8765/");
}

#[test]
fn config_falls_back_when_nothing_is_configured() {
    let cfg = resolve_session_config(
        &src("", None, ""),
        &src("", None, ""),
        &src("", None, ""),
        &src("", None, "buildtoken"),
        "https://fallback.test",
    );
    assert_eq!(cfg.base_url, "https://fallback.test/");
    assert_eq!(cfg.token, "buildtoken");
}

fn lines(ls: &[&str]) -> Vec<String> {
    ls.iter().map(|s| s.to_string()).collect()
}

#[test]
fn dotenv_lines_parse_keys_values_and_quotes() {
    let entries = parse_dotenv_lines(&lines(&[
        "# comment",
        "",
        "PLAIN = value ",
        "QUOTED=\"a b\"",
        "SINGLE='x'",
        "noequals",
        "EMPTY=",
    ]));
    assert_eq!(entries.len(), 4);
    assert_eq!(entries[0], ("PLAIN".to_string(), "value".to_string()));
    assert_eq!(entries[1], ("QUOTED".to_string(), "a b".to_string()));
    assert_eq!(entries[2], ("SINGLE".to_string(), "x".to_string()));
    assert_eq!(entries[3], ("EMPTY".to_string(), "".to_string()));
}

#[test]
fn dotenv_lookup_takes_the_last_occurrence() {
    let entries = parse_dotenv_lines(&lines(&["K=first", "K=second", "OTHER=x"]));
    assert_eq!(dotenv_lookup(&entries, "K").as_deref(), Some("second"));
    assert_eq!(dotenv_lookup(&entries, "OTHER").as_deref(), Some("x"));
    assert_eq!(dotenv_lookup(&entries, "MISSING"), None);
}

#[test]
fn map_ids_are_filtered_and_chunked() {
    let mut ids: Vec<i64> = Vec::new();
    for i in 0..200 {
        ids.push(i + 1);
    }
    ids.push(-5);
    ids.push(0);
    let chunks = chunk_map_ids(&ids);
    assert_eq!(chunks.len(), 3);
    assert_eq!(chunks[0].len(), 80);
    assert_eq!(chunks[1].len(), 80);
    assert_eq!(chunks[2].len(), 40);
    assert_eq!(chunks[0][0], 1);
    assert_eq!(chunks[2][39], 200);

    assert_eq!(chunk_map_ids(&vec![-1, 0]).len(), 0);
    let one = chunk_map_ids(&vec![7]);
    assert_eq!(one.len(), 1);
    assert_eq!(one[0], vec![7]);

    // Exactly eighty ids make exactly one full chunk.
    let exact: Vec<i64> = (1..=80).collect();
    let chunks = chunk_map_ids(&exact);
    assert_eq!(chunks.len(), 1);
    assert_eq!(chunks[0].len(), 80);
}

#[test]
fn context_trims_and_clears_the_mapcode() {
    let mut ctx = NpContext::new();
    assert!(ctx.current_mapcode.is_none());
    ctx.set_context(Some(" @abc "), CommandMode::SlashNp);
    assert_eq!(ctx.current_mapcode.as_deref(), Some("@abc"));
    assert_eq!(ctx.command_mode, CommandMode::SlashNp);
    ctx.set_context(Some("   "), CommandMode::SlashNpp);
    assert!(ctx.current_mapcode.is_none());
    ctx.set_context(None, CommandMode::BangNp);
    assert!(ctx.current_mapcode.is_none());
    assert_eq!(ctx.command_mode, CommandMode::BangNp);
}
