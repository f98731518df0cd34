use tunnel_guard::codec::parse_ini_config;
use tunnel_guard::ids::get_config_file_name;
use tunnel_guard::ids::get_custom_tunnel_hash;
use tunnel_guard::ids::get_frpc_path;
use tunnel_guard::ids::is_official_config_file;
use tunnel_guard::ids::official_config_file_name;
use tunnel_guard::ids::string_to_i32;
use tunnel_guard::platform::get_platform_string;
use tunnel_guard::platform::is_allowed_host;
use tunnel_guard::platform::matches_arch;
use tunnel_guard::platform::validate_request_url_parts;
use tunnel_guard::platform::UrlError;
use tunnel_guard::tunnels::build_custom_tunnel;
use tunnel_guard::tunnels::created_at_for;
use tunnel_guard::tunnels::refresh_custom_tunnel;
use tunnel_guard::tunnels::remove_tunnel_from_list;
use tunnel_guard::tunnels::single_tunnel_document;
use tunnel_guard::tunnels::upsert_tunnel_list;

#[test]
fn string_hash_is_deterministic_and_prefixed() {
    let a = string_to_i32("custom_mine");
    let b = string_to_i32("custom_mine");
    assert_eq!(a, b);
    assert_eq!(get_custom_tunnel_hash("mine"), a);
    assert!(a >= 0 || a == i32::MIN);
    assert_ne!(get_custom_tunnel_hash("mine"), get_custom_tunnel_hash("other"));
}

#[test]
fn file_names_keep_kinds_apart() {
    assert_eq!(get_config_file_name("mine"), "z_mine.ini");
    assert_eq!(official_config_file_name(42), "g_42.ini");
    assert_eq!(official_config_file_name(-7), "g_-7.ini");
    assert_eq!(official_config_file_name(0), "g_0.ini");
    assert!(is_official_config_file("g_42.ini"));
    assert!(!is_official_config_file("z_mine.ini"));
    assert!(!is_official_config_file("g_42.txt"));
    assert!(!is_official_config_file("g"));
    assert_eq!(get_frpc_path(true), "frpc.exe");
    assert_eq!(get_frpc_path(false), "frpc");
}

#[test]
fn platform_table_lookup() {
    assert_eq!(get_platform_string("windows", "x86_64"), Some("win_amd64.exe"));
    assert_eq!(get_platform_string("linux", "aarch64"), Some("linux_arm64"));
    assert_eq!(get_platform_string("macos", "aarch64"), Some("darwin_arm64"));
    assert_eq!(get_platform_string("freebsd", "x86_64"), None);
}

#[test]
fn arch_matching_with_arm_fallback() {
    assert!(matches_arch("linux", "aarch64", "aarch64"));
    assert!(matches_arch("linux", "aarch64", "arm"));
    assert!(!matches_arch("linux", "x86_64", "arm"));
    assert!(!matches_arch("plan9", "x86_64", "x86_64"));
}

#[test]
fn host_allow_list() {
    assert!(is_allowed_host("cf-v2.uapis.cn"));
    assert!(is_allowed_host("api.uapis.cn"));
    assert!(is_allowed_host("chmlfrp.net"));
    assert!(is_allowed_host("panel.chmlfrp.net"));
    assert!(!is_allowed_host("example.com"));
    assert!(!is_allowed_host("uapis.cn.evil.org"));
}

#[test]
fn url_policy_decisions() {
    assert!(validate_request_url_parts("https", "", false, Some("cf-v1.uapis.cn")).is_ok());
    assert_eq!(
        validate_request_url_parts("http", "", false, Some("cf-v1.uapis.cn")).unwrap_err(),
        UrlError::NotHttps
    );
    assert_eq!(
        validate_request_url_parts("https", "user", false, Some("cf-v1.uapis.cn")).unwrap_err(),
        UrlError::HasCredentials
    );
    assert_eq!(
        validate_request_url_parts("https", "", false, None).unwrap_err(),
        UrlError::MissingHost
    );
    assert_eq!(
        validate_request_url_parts("https", "", false, Some("example.com")).unwrap_err(),
        UrlError::HostNotAllowed
    );
}

#[test]
fn custom_tunnel_record_round() {
    let doc = "[common]\nserver_addr = s.example.org\nserver_port = 7000\n\
               [mine]\ntype = tcp\nlocal_ip = 127.0.0.1\nlocal_port = 8080\nremote_port = 9000\n";
    let parsed = parse_ini_config(doc).unwrap();
    let t = build_custom_tunnel("mine", &parsed);
    assert_eq!(t.id, "mine");
    assert_eq!(t.name, "mine");
    assert_eq!(t.config_file, "z_mine.ini");
    assert_eq!(t.server_addr.as_deref(), Some("s.example.org"));
    assert_eq!(t.server_port, Some(7000));
    assert_eq!(t.tunnels, vec!["mine".to_string()]);
    assert_eq!(t.tunnel_type.as_deref(), Some("tcp"));
    assert_eq!(t.local_port, Some(8080));
    assert_eq!(t.remote_port, Some(9000));
    assert_eq!(t.hashed_id, Some(get_custom_tunnel_hash("mine")));
}

#[test]
fn refresh_prefers_parsed_fields() {
    let doc = "[common]\nserver_addr = old.example.org\n[mine]\ntype = tcp\n";
    let parsed = parse_ini_config(doc).unwrap();
    let mut t = build_custom_tunnel("mine", &parsed);
    t.server_port = Some(1);
    t.local_port = Some(2);

    let newer = parse_ini_config(
        "[common]\nserver_addr = new.example.org\nserver_port = 7001\n[mine]\ntype = udp\n",
    )
    .unwrap();
    refresh_custom_tunnel(&mut t, &newer);
    assert_eq!(t.server_addr.as_deref(), Some("new.example.org"));
    assert_eq!(t.server_port, Some(7001));
    assert_eq!(t.tunnel_type.as_deref(), Some("udp"));
    assert_eq!(t.local_port, Some(2));
    assert_eq!(t.hashed_id, Some(get_custom_tunnel_hash("mine")));
}

#[test]
fn tunnel_list_upsert_and_remove() {
    let doc_a = "[a]\ntype = tcp\n";
    let doc_b = "[b]\ntype = udp\n";
    let pa = parse_ini_config(doc_a).unwrap();
    let pb = parse_ini_config(doc_b).unwrap();

    let mut list = Vec::new();
    upsert_tunnel_list(&mut list, build_custom_tunnel("a", &pa));
    upsert_tunnel_list(&mut list, build_custom_tunnel("b", &pb));
    assert_eq!(list.len(), 2);
    assert_eq!(created_at_for(&list, "a"), Some(list[0].created_at.clone()));
    assert_eq!(created_at_for(&list, "missing"), None);

    let mut replacement = build_custom_tunnel("a", &pb);
    replacement.server_port = Some(123);
    upsert_tunnel_list(&mut list, replacement);
    assert_eq!(list.len(), 2);
    assert_eq!(list[0].server_port, Some(123));

    remove_tunnel_from_list(&mut list, "a");
    assert_eq!(list.len(), 1);
    assert_eq!(list[0].id, "b");
    remove_tunnel_from_list(&mut list, "nope");
    assert_eq!(list.len(), 1);
}

#[test]
fn single_document_composition() {
    assert_eq!(
        single_tunnel_document("[common]\nserver_addr = s", "[a]\ntype = tcp"),
        "[common]\nserver_addr = s\n\n[a]\ntype = tcp"
    );
    assert_eq!(
        single_tunnel_document("  \n ", "[a]\ntype = tcp"),
        "[a]\ntype = tcp"
    );
}
