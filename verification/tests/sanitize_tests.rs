use tunnel_guard::sanitize::sanitize_log;
use tunnel_guard::sanitize::sanitize_token;
use tunnel_guard::supervisor::Supervisor;

#[test]
fn long_secret_leaves_no_eight_char_fragment() {
    let token = "ABCDEFGHIJKLMNOPQRST";
    assert_eq!(token.len(), 20);
    let line = format!("login ok with token={} session up", token);
    let clean = sanitize_log(&line, &vec![token.to_string()]);
    for start in 0..token.len() {
        for end in (start + 8)..=token.len() {
            let fragment = &token[start..end];
            assert!(
                !clean.contains(fragment),
                "fragment {} survived in {}",
                fragment,
                clean
            );
        }
    }
}

#[test]
fn full_token_and_punctuated_variants_are_removed() {
    let token = "secrettokenvalue1234";
    let line = format!("a {}. b {}-c d {}", token, token, token);
    let clean = sanitize_log(&line, &vec![token.to_string()]);
    assert!(!clean.contains(token));
}

#[test]
fn dotted_secret_halves_are_masked() {
    let token = "abcdef.uvwxyz";
    let clean = sanitize_token("first abcdef then uvwxyz end", token);
    assert!(!clean.contains("abcdef"));
    assert!(!clean.contains("uvwxyz"));
    assert!(clean.contains("***"));
}

#[test]
fn short_dotted_halves_are_kept() {
    let token = "abc.de";
    let clean = sanitize_token("keep abc and de words", token);
    assert_eq!(clean, "keep abc and de words");
}

#[test]
fn truncated_token_prefix_is_masked() {
    let token = "ABCDEFGHIJKLMNOPQRST";
    let clean = sanitize_token("cut log: ABCDEFGHIJKL...", token);
    assert!(!clean.contains("ABCDEFGHIJKL"));
    assert!(clean.contains("***"));
}

#[test]
fn empty_secret_changes_nothing() {
    let line = "a plain line";
    assert_eq!(sanitize_log(line, &vec![String::new()]), line);
}

#[test]
fn several_secrets_are_scrubbed_in_order() {
    let clean = sanitize_log(
        "one firstsecretvalue11 two secondsecretvalue22",
        &vec![
            "firstsecretvalue11".to_string(),
            "secondsecretvalue22".to_string(),
        ],
    );
    assert!(!clean.contains("firstsecretvalue11"));
    assert!(!clean.contains("secondsecretvalue22"));
}

#[test]
fn pipeline_strips_ansi_and_scrubs_secret() {
    let mut sup = Supervisor::new();
    let secrets = vec!["ABCDEFGHIJKLMNOPQRST".to_string()];
    let outcome = sup.process_log_line(
        5,
        "\u{1b}[32mconnected\u{1b}[0m token=ABCDEFGHIJKLMNOPQRST",
        &secrets,
        false,
    );
    assert_eq!(outcome.log.tunnel_id, 5);
    assert!(!outcome.log.message.contains('\u{1b}'));
    assert!(!outcome.log.message.contains("[32m"));
    assert!(outcome.log.message.starts_with("connected"));
    assert!(!outcome.log.message.contains("ABCDEFGH"));
    assert!(outcome.guard_warning.is_none());
}

#[test]
fn pipeline_marks_stderr_and_reports_fatal_lines() {
    let mut sup = Supervisor::new();
    sup.guard.set_process_guard_enabled(true);
    sup.guard.add_guarded_custom_tunnel(5, "mine".to_string());
    let outcome = sup.process_log_line(5, "fatal: invalid token", &Vec::new(), true);
    assert!(outcome.log.message.starts_with("[ERR] "));
    let warning = outcome.guard_warning.expect("fatal line must warn");
    assert!(warning.contains("invalid token"));
    assert!(!sup.guard.is_guarded(5));
}
