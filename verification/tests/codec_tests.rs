use tunnel_guard::codec::ConfigError;
use tunnel_guard::codec::TunnelConfig;
use tunnel_guard::codec::fix_tls_content;
use tunnel_guard::codec::generate_frpc_config;
use tunnel_guard::codec::is_valid_tunnel_name;
use tunnel_guard::codec::parse_ini_config;
use tunnel_guard::codec::parse_key_value;
use tunnel_guard::codec::parse_section_header;
use tunnel_guard::codec::split_ini_config;

fn tcp_config() -> TunnelConfig {
    TunnelConfig {
        tunnel_id: 7,
        tunnel_name: "web".to_string(),
        server_addr: "frp.example.com".to_string(),
        server_port: 7000,
        local_ip: "127.0.0.1".to_string(),
        local_port: 8080,
        tunnel_type: "tcp".to_string(),
        remote_port: Some(25565),
        custom_domains: None,
        http_proxy: None,
        force_tls: false,
        kcp_optimization: false,
        user_token: "usertok".to_string(),
        node_token: "nodetok".to_string(),
    }
}

#[test]
fn generate_then_parse_recovers_tcp_fields() {
    let config = tcp_config();
    let text = generate_frpc_config(&config).unwrap();
    let parsed = parse_ini_config(&text).unwrap();
    assert_eq!(parsed.tunnel_type.as_deref(), Some("tcp"));
    assert_eq!(parsed.local_ip.as_deref(), Some("127.0.0.1"));
    assert_eq!(parsed.local_port, Some(8080));
    assert_eq!(parsed.remote_port, Some(25565));
    assert_eq!(parsed.server_addr.as_deref(), Some("frp.example.com"));
    assert_eq!(parsed.server_port, Some(7000));
    assert_eq!(parsed.tunnel_names, vec!["web".to_string()]);
}

#[test]
fn generate_then_parse_recovers_udp_fields() {
    let mut config = tcp_config();
    config.tunnel_type = "udp".to_string();
    config.kcp_optimization = true;
    let text = generate_frpc_config(&config).unwrap();
    assert!(text.contains("protocol = kcp\n"));
    let parsed = parse_ini_config(&text).unwrap();
    assert_eq!(parsed.tunnel_type.as_deref(), Some("udp"));
    assert_eq!(parsed.remote_port, Some(25565));
}

#[test]
fn generate_then_parse_recovers_custom_domains() {
    let mut config = tcp_config();
    config.tunnel_type = "http".to_string();
    config.remote_port = None;
    config.custom_domains = Some("site.example.com".to_string());
    let text = generate_frpc_config(&config).unwrap();
    let parsed = parse_ini_config(&text).unwrap();
    assert_eq!(parsed.tunnel_type.as_deref(), Some("http"));
    assert_eq!(parsed.custom_domains.as_deref(), Some("site.example.com"));
}

#[test]
fn generate_rejects_tcp_without_remote_port() {
    let mut config = tcp_config();
    config.remote_port = None;
    assert_eq!(
        generate_frpc_config(&config).unwrap_err(),
        ConfigError::MissingRemotePort
    );
}

#[test]
fn generate_rejects_http_without_domains() {
    let mut config = tcp_config();
    config.tunnel_type = "http".to_string();
    assert_eq!(
        generate_frpc_config(&config).unwrap_err(),
        ConfigError::MissingCustomDomains
    );
}

#[test]
fn generate_rejects_unknown_type() {
    let mut config = tcp_config();
    config.tunnel_type = "sctp".to_string();
    assert_eq!(
        generate_frpc_config(&config).unwrap_err(),
        ConfigError::UnsupportedTunnelType
    );
}

#[test]
fn generate_exact_document() {
    let config = tcp_config();
    let text = generate_frpc_config(&config).unwrap();
    let expected = "[common]\n\
                    server_addr = frp.example.com\n\
                    server_port = 7000\n\
                    tls_enable = false\n\
                    tcp_mux = true\n\
                    pool_count = 5\n\
                    user = usertok\n\
                    token = nodetok\n\
                    \n\
                    [web]\n\
                    type = tcp\n\
                    local_ip = 127.0.0.1\n\
                    local_port = 8080\n\
                    remote_port = 25565\n";
    assert_eq!(text, expected);
}

#[test]
fn generate_includes_proxy_and_tls() {
    let mut config = tcp_config();
    config.http_proxy = Some("http://127.0.0.1:1080".to_string());
    config.force_tls = true;
    let text = generate_frpc_config(&config).unwrap();
    assert!(text.contains("http_proxy = http://127.0.0.1:1080\n"));
    assert!(text.contains("tls_enable = true\n"));
}

#[test]
fn split_keeps_blocks_apart() {
    let doc = "[common]\nserver_addr = s.example.org\nserver_port = 7000\n\n\
               [a]\ntype = tcp\nlocal_port = 1\n\n\
               [b]\ntype = udp\nlocal_port = 2\n";
    let sp = split_ini_config(doc).unwrap();
    assert_eq!(
        sp.common,
        "[common]\nserver_addr = s.example.org\nserver_port = 7000"
    );
    assert_eq!(sp.tunnels.len(), 2);
    assert_eq!(sp.tunnels[0].0, "a");
    assert_eq!(sp.tunnels[0].1, "[a]\ntype = tcp\nlocal_port = 1");
    assert_eq!(sp.tunnels[1].0, "b");
    assert_eq!(sp.tunnels[1].1, "[b]\ntype = udp\nlocal_port = 2");
    assert!(!sp.common.contains("local_port"));
    assert!(!sp.tunnels[0].1.contains("udp"));
    assert!(!sp.tunnels[1].1.contains("tcp"));
}

#[test]
fn split_without_tunnel_section_fails() {
    let doc = "[common]\nserver_addr = s.example.org\n";
    assert!(matches!(
        split_ini_config(doc).err(),
        Some(ConfigError::NoTunnelSection)
    ));
}

#[test]
fn split_rejects_invalid_tunnel_name() {
    let doc = "[common]\nserver_addr = s\n\n[bad name]\ntype = tcp\n";
    assert!(matches!(
        split_ini_config(doc).err(),
        Some(ConfigError::InvalidTunnelName)
    ));
}

#[test]
fn tunnel_name_validation() {
    assert!(is_valid_tunnel_name("Web_01-test"));
    assert!(is_valid_tunnel_name("abc123"));
    assert!(!is_valid_tunnel_name("a b"));
    assert!(!is_valid_tunnel_name("a/b"));
    assert!(!is_valid_tunnel_name("a.b"));
}

#[test]
fn parse_skips_comments_and_malformed_lines() {
    let doc = "# leading comment\n; another\n[common]\nserver_addr = s\nnonsense line\n\
               server_port = not_a_number\n[t1]\ntype = tcp\nlocal_port = 70000\n";
    let parsed = parse_ini_config(doc).unwrap();
    assert_eq!(parsed.server_addr.as_deref(), Some("s"));
    assert_eq!(parsed.server_port, None);
    assert_eq!(parsed.local_port, None);
    assert_eq!(parsed.tunnel_names, vec!["t1".to_string()]);
    assert_eq!(parsed.tunnel_type.as_deref(), Some("tcp"));
}

#[test]
fn parse_captures_subdomain_and_crlf_lines() {
    let doc = "[common]\r\nserver_addr = h\r\n[x]\r\nsubdomain = play\r\n";
    let parsed = parse_ini_config(doc).unwrap();
    assert_eq!(parsed.server_addr.as_deref(), Some("h"));
    assert_eq!(parsed.subdomain.as_deref(), Some("play"));
}

#[test]
fn section_header_and_key_value_helpers() {
    assert_eq!(parse_section_header("[ web ]"), Some("web".to_string()));
    assert_eq!(parse_section_header("[web"), None);
    assert_eq!(parse_section_header("web]"), None);
    assert_eq!(
        parse_key_value("  local_ip =  10.0.0.1  "),
        Some(("local_ip".to_string(), "10.0.0.1".to_string()))
    );
    assert_eq!(parse_key_value("no equals here"), None);
}

#[test]
fn numeric_fields_accept_plus_and_reject_overflow() {
    let doc = "[t]\nlocal_port = +123\nremote_port = 70000\n";
    let parsed = parse_ini_config(doc).unwrap();
    assert_eq!(parsed.local_port, Some(123));
    assert_eq!(parsed.remote_port, None);
}

#[test]
fn fix_tls_rewrites_or_reports_absent() {
    let doc = "[common]\ntls_enable = false\n";
    assert_eq!(
        fix_tls_content(doc),
        Some("[common]\ntls_enable = true\n".to_string())
    );
    assert_eq!(fix_tls_content("[common]\ntls_enable = true\n"), None);
}
