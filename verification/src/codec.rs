//! Configuration codec: generating the flat config document for a
//! structured tunnel request, parsing a document back into summary fields,
//! and splitting a multi-section document into per-tunnel blocks that share
//! a common block.

use vstd::prelude::*;

use crate::text::chars_of;
use crate::text::chars_eq;
use crate::text::dec_digits;
use crate::text::find_ch;
use crate::text::find_char;
use crate::text::join_term;
use crate::text::join_term_chars;
use crate::text::push_all;
use crate::text::push_str_chars;
use crate::text::spec_trim;
use crate::text::split_lines;
use crate::text::split_lines_chars;
use crate::text::str_eq;
use crate::text::string_from_chars;
use crate::text::sub_vec;
use crate::text::trim_chars;
use crate::text::u16_to_chars;
use crate::text::views_of;

verus! {

/// A rejected configuration request or document.  Every variant is a
/// validation failure surfaced to the user.
#[derive(Clone, Copy, Debug, PartialEq, Eq, Structural)]
pub enum ConfigError {
    /// A tcp or udp tunnel request without a remote port.
    MissingRemotePort,
    /// An http or https tunnel request without custom domains.
    MissingCustomDomains,
    /// A tunnel type outside the fixed set.
    UnsupportedTunnelType,
    /// A multi-section document with no tunnel section.
    NoTunnelSection,
    /// A tunnel section whose name holds a character outside
    /// letters, digits, underscore and hyphen.
    InvalidTunnelName,
}

/// A structured request for one official tunnel.
pub struct TunnelConfig {
    pub tunnel_id: i32,
    pub tunnel_name: String,
    pub server_addr: String,
    pub server_port: u16,
    pub local_ip: String,
    pub local_port: u16,
    pub tunnel_type: String,
    pub remote_port: Option<u16>,
    pub custom_domains: Option<String>,
    pub http_proxy: Option<String>,
    pub force_tls: bool,
    pub kcp_optimization: bool,
    pub user_token: String,
    pub node_token: String,
}

/// The mathematical model of a tunnel request.
#[verifier::ext_equal]
pub ghost struct TunnelConfigView {
    pub tunnel_id: int,
    pub tunnel_name: Seq<char>,
    pub server_addr: Seq<char>,
    pub server_port: u16,
    pub local_ip: Seq<char>,
    pub local_port: u16,
    pub tunnel_type: Seq<char>,
    pub remote_port: Option<u16>,
    pub custom_domains: Option<Seq<char>>,
    pub http_proxy: Option<Seq<char>>,
    pub force_tls: bool,
    pub kcp_optimization: bool,
    pub user_token: Seq<char>,
    pub node_token: Seq<char>,
}

impl View for TunnelConfig {
    type V = TunnelConfigView;

    open spec fn view(&self) -> TunnelConfigView {
        TunnelConfigView {
            tunnel_id: self.tunnel_id as int,
            tunnel_name: self.tunnel_name@,
            server_addr: self.server_addr@,
            server_port: self.server_port,
            local_ip: self.local_ip@,
            local_port: self.local_port,
            tunnel_type: self.tunnel_type@,
            remote_port: self.remote_port,
            custom_domains: match self.custom_domains {
                Some(ref d) => Some(d@),
                None => None,
            },
            http_proxy: match self.http_proxy {
                Some(ref p) => Some(p@),
                None => None,
            },
            force_tls: self.force_tls,
            kcp_optimization: self.kcp_optimization,
            user_token: self.user_token@,
            node_token: self.node_token@,
        }
    }
}

impl TunnelConfig {
    /// An equal copy of the request.
    pub fn duplicate(&self) -> (r: TunnelConfig)
        ensures
            r == *self,
    {
        TunnelConfig {
            tunnel_id: self.tunnel_id,
            tunnel_name: self.tunnel_name.clone(),
            server_addr: self.server_addr.clone(),
            server_port: self.server_port,
            local_ip: self.local_ip.clone(),
            local_port: self.local_port,
            tunnel_type: self.tunnel_type.clone(),
            remote_port: self.remote_port,
            custom_domains: match &self.custom_domains {
                Some(d) => Some(d.clone()),
                None => None,
            },
            http_proxy: match &self.http_proxy {
                Some(p) => Some(p.clone()),
                None => None,
            },
            force_tls: self.force_tls,
            kcp_optimization: self.kcp_optimization,
            user_token: self.user_token.clone(),
            node_token: self.node_token.clone(),
        }
    }
}

/// A tunnel type carried by a remote port.
pub open spec fn is_port_type(t: Seq<char>) -> bool {
    t == "tcp"@ || t == "udp"@
}

/// A tunnel type carried by custom domains.
pub open spec fn is_domain_type(t: Seq<char>) -> bool {
    t == "http"@ || t == "https"@
}

/// A request that `generate_frpc_config` accepts.
pub open spec fn generate_ok(c: TunnelConfigView) -> bool {
    (is_port_type(c.tunnel_type) && c.remote_port is Some) || (is_domain_type(c.tunnel_type)
        && c.custom_domains is Some)
}

/// The error that `generate_frpc_config` reports for a rejected request.
pub open spec fn generate_err(c: TunnelConfigView) -> ConfigError {
    if is_port_type(c.tunnel_type) {
        ConfigError::MissingRemotePort
    } else if is_domain_type(c.tunnel_type) {
        ConfigError::MissingCustomDomains
    } else {
        ConfigError::UnsupportedTunnelType
    }
}

/// The textual form of a flag value.
pub open spec fn bool_chars(b: bool) -> Seq<char> {
    if b {
        "true"@
    } else {
        "false"@
    }
}

/// The exact lines of the generated document: a common block, a blank
/// separator line, then the one tunnel block.
pub open spec fn spec_generate_lines(c: TunnelConfigView) -> Seq<Seq<char>> {
    seq!["[common]"@]
        + seq!["server_addr = "@ + c.server_addr]
        + seq!["server_port = "@ + dec_digits(c.server_port as int)]
        + (match c.http_proxy {
            Some(p) => seq!["http_proxy = "@ + p],
            None => Seq::<Seq<char>>::empty(),
        })
        + seq!["tls_enable = "@ + bool_chars(c.force_tls)]
        + seq!["tcp_mux = true"@]
        + seq!["pool_count = 5"@]
        + (if c.kcp_optimization && is_port_type(c.tunnel_type) {
            seq!["protocol = kcp"@]
        } else {
            Seq::<Seq<char>>::empty()
        })
        + seq!["user = "@ + c.user_token]
        + seq!["token = "@ + c.node_token]
        + seq![Seq::<char>::empty()]
        + seq![seq!['['] + c.tunnel_name + seq![']']]
        + seq!["type = "@ + c.tunnel_type]
        + seq!["local_ip = "@ + c.local_ip]
        + seq!["local_port = "@ + dec_digits(c.local_port as int)]
        + (if is_port_type(c.tunnel_type) {
            seq!["remote_port = "@ + dec_digits(c.remote_port.unwrap() as int)]
        } else {
            seq!["custom_domains = "@ + c.custom_domains.unwrap()]
        })
}

/// The generated document: the lines above, each followed by a newline.
pub open spec fn spec_generate(c: TunnelConfigView) -> Seq<char> {
    join_term(spec_generate_lines(c))
}

fn kv_line(key: &str, value: &Vec<char>) -> (r: Vec<char>)
    ensures
        r@ == key@ + value@,
{
    let mut r: Vec<char> = Vec::new();
    push_str_chars(&mut r, key);
    push_all(&mut r, value);
    r
}

/// Generates the config document for one official tunnel: a `[common]`
/// block with server, transport and credential settings, then the tunnel's
/// own section.  Rejects a request whose type-specific field is missing or
/// whose type is outside the fixed set.
pub fn generate_frpc_config(config: &TunnelConfig) -> (r: Result<String, ConfigError>)
    ensures
        match r {
            Ok(s) => generate_ok(config@) && s@ == spec_generate(config@),
            Err(e) => !generate_ok(config@) && e == generate_err(config@),
        },
{
    let port_type = str_eq(config.tunnel_type.as_str(), "tcp") || str_eq(
        config.tunnel_type.as_str(),
        "udp",
    );
    let domain_type = str_eq(config.tunnel_type.as_str(), "http") || str_eq(
        config.tunnel_type.as_str(),
        "https",
    );
    proof {
        reveal_strlit("tcp");
        reveal_strlit("udp");
        reveal_strlit("http");
        reveal_strlit("https");
        assert("tcp"@.len() == 3 && "udp"@.len() == 3 && "http"@.len() == 4 && "https"@.len()
            == 5);
    }
    if port_type && config.remote_port.is_none() {
        return Err(ConfigError::MissingRemotePort);
    }
    if domain_type && config.custom_domains.is_none() {
        return Err(ConfigError::MissingCustomDomains);
    }
    if !port_type && !domain_type {
        return Err(ConfigError::UnsupportedTunnelType);
    }

    let mut lines: Vec<Vec<char>> = Vec::new();
    lines.push(chars_of("[common]"));
    lines.push(kv_line("server_addr = ", &chars_of(config.server_addr.as_str())));
    lines.push(kv_line("server_port = ", &u16_to_chars(config.server_port)));
    match &config.http_proxy {
        Some(p) => {
            lines.push(kv_line("http_proxy = ", &chars_of(p.as_str())));
        },
        None => {},
    }
    let tls = if config.force_tls {
        chars_of("true")
    } else {
        chars_of("false")
    };
    lines.push(kv_line("tls_enable = ", &tls));
    lines.push(chars_of("tcp_mux = true"));
    lines.push(chars_of("pool_count = 5"));
    if config.kcp_optimization && port_type {
        lines.push(chars_of("protocol = kcp"));
    }
    lines.push(kv_line("user = ", &chars_of(config.user_token.as_str())));
    lines.push(kv_line("token = ", &chars_of(config.node_token.as_str())));
    lines.push(Vec::new());

    let mut header: Vec<char> = Vec::new();
    header.push('[');
    push_str_chars(&mut header, config.tunnel_name.as_str());
    header.push(']');
    proof {
        assert(header@ =~= seq!['['] + config.tunnel_name@ + seq![']']);
    }
    lines.push(header);
    lines.push(kv_line("type = ", &chars_of(config.tunnel_type.as_str())));
    lines.push(kv_line("local_ip = ", &chars_of(config.local_ip.as_str())));
    lines.push(kv_line("local_port = ", &u16_to_chars(config.local_port)));
    if port_type {
        let rp = match config.remote_port {
            Some(rp) => rp,
            None => {
                proof {
                    assert(false);
                }
                0
            },
        };
        lines.push(kv_line("remote_port = ", &u16_to_chars(rp)));
    } else {
        let cd = match &config.custom_domains {
            Some(cd) => chars_of(cd.as_str()),
            None => {
                proof {
                    assert(false);
                }
                Vec::new()
            },
        };
        lines.push(kv_line("custom_domains = ", &cd));
    }
    proof {
        assert(views_of(lines@) =~= spec_generate_lines(config@));
    }
    let joined = join_term_chars(&lines);
    Ok(string_from_chars(&joined))
}

/// The summary fields captured from one document by `parse_ini_config`.
pub struct IniParsedInfo {
    pub server_addr: Option<String>,
    pub server_port: Option<u16>,
    pub tunnel_names: Vec<String>,
    pub tunnel_type: Option<String>,
    pub custom_domains: Option<String>,
    pub subdomain: Option<String>,
    pub local_ip: Option<String>,
    pub local_port: Option<u16>,
    pub remote_port: Option<u16>,
}

/// The mathematical model of a parsed summary.
#[verifier::ext_equal]
pub ghost struct IniParsedView {
    pub server_addr: Option<Seq<char>>,
    pub server_port: Option<u16>,
    pub tunnel_names: Seq<Seq<char>>,
    pub tunnel_type: Option<Seq<char>>,
    pub custom_domains: Option<Seq<char>>,
    pub subdomain: Option<Seq<char>>,
    pub local_ip: Option<Seq<char>>,
    pub local_port: Option<u16>,
    pub remote_port: Option<u16>,
}

pub open spec fn opt_view(o: Option<String>) -> Option<Seq<char>> {
    match o {
        Some(s) => Some(s@),
        None => None,
    }
}

impl View for IniParsedInfo {
    type V = IniParsedView;

    open spec fn view(&self) -> IniParsedView {
        IniParsedView {
            server_addr: opt_view(self.server_addr),
            server_port: self.server_port,
            tunnel_names: self.tunnel_names.deep_view(),
            tunnel_type: opt_view(self.tunnel_type),
            custom_domains: opt_view(self.custom_domains),
            subdomain: opt_view(self.subdomain),
            local_ip: opt_view(self.local_ip),
            local_port: self.local_port,
            remote_port: self.remote_port,
        }
    }
}

/// The empty summary that parsing starts from.
pub open spec fn init_parsed() -> IniParsedView {
    IniParsedView {
        server_addr: None,
        server_port: None,
        tunnel_names: Seq::empty(),
        tunnel_type: None,
        custom_domains: None,
        subdomain: None,
        local_ip: None,
        local_port: None,
        remote_port: None,
    }
}

/// The section name of a header line `[name]`, interior trimmed.
pub open spec fn spec_section_header(l: Seq<char>) -> Option<Seq<char>> {
    if l.len() > 0 && l[0] == '[' && l[l.len() - 1] == ']' {
        Some(spec_trim(l.subrange(1, l.len() - 1)))
    } else {
        None
    }
}

/// The key and value of a line `key = value`, split at the first `=`,
/// both sides trimmed.
pub open spec fn spec_key_value(l: Seq<char>) -> Option<(Seq<char>, Seq<char>)> {
    let p = find_ch(l, '=');
    if p >= 0 {
        Some((spec_trim(l.take(p)), spec_trim(l.skip(p + 1))))
    } else {
        None
    }
}

/// One captured field update, keyed by the enclosing section.
pub open spec fn apply_kv(
    sec: Seq<char>,
    info: IniParsedView,
    key: Seq<char>,
    value: Seq<char>,
) -> IniParsedView {
    if sec == "common"@ {
        if key == "server_addr"@ {
            IniParsedView { server_addr: Some(value), ..info }
        } else if key == "server_port"@ {
            IniParsedView { server_port: crate::text::spec_parse_u16(value), ..info }
        } else {
            info
        }
    } else if sec.len() > 0 {
        if key == "type"@ {
            IniParsedView { tunnel_type: Some(value), ..info }
        } else if key == "custom_domains"@ {
            IniParsedView { custom_domains: Some(value), ..info }
        } else if key == "subdomain"@ {
            IniParsedView { subdomain: Some(value), ..info }
        } else if key == "local_ip"@ {
            IniParsedView { local_ip: Some(value), ..info }
        } else if key == "local_port"@ {
            IniParsedView { local_port: crate::text::spec_parse_u16(value), ..info }
        } else if key == "remote_port"@ {
            IniParsedView { remote_port: crate::text::spec_parse_u16(value), ..info }
        } else {
            info
        }
    } else {
        info
    }
}

/// The effect of one line on the parsing state: comments and blank lines
/// are skipped, a header switches the section and records a tunnel name,
/// a key/value line updates the summary, anything else is ignored.
pub open spec fn parse_line(
    sec: Seq<char>,
    info: IniParsedView,
    line: Seq<char>,
) -> (Seq<char>, IniParsedView) {
    let t = spec_trim(line);
    if t.len() == 0 || t[0] == '#' || t[0] == ';' {
        (sec, info)
    } else if spec_section_header(t) is Some {
        let name = spec_section_header(t)->Some_0;
        (
            name,
            if name != "common"@ && name.len() > 0 {
                IniParsedView { tunnel_names: info.tunnel_names.push(name), ..info }
            } else {
                info
            },
        )
    } else if spec_key_value(t) is Some {
        let kv = spec_key_value(t)->Some_0;
        (sec, apply_kv(sec, info, kv.0, kv.1))
    } else {
        (sec, info)
    }
}

/// Folds `parse_line` over the lines.
pub open spec fn parse_fold(
    lines: Seq<Seq<char>>,
    sec: Seq<char>,
    info: IniParsedView,
) -> (Seq<char>, IniParsedView)
    decreases lines.len(),
{
    if lines.len() == 0 {
        (sec, info)
    } else {
        let st = parse_line(sec, info, lines[0]);
        parse_fold(lines.drop_first(), st.0, st.1)
    }
}

/// The summary that parsing a document yields.
pub open spec fn spec_parse_ini(s: Seq<char>) -> IniParsedView {
    parse_fold(split_lines(s), Seq::empty(), init_parsed()).1
}

fn section_header_chars(t: &Vec<char>) -> (r: Option<Vec<char>>)
    ensures
        match r {
            Some(name) => spec_section_header(t@) == Some(name@),
            None => spec_section_header(t@) is None,
        },
{
    if t.len() > 0 && t[0] == '[' && t[t.len() - 1] == ']' {
        let inner = sub_vec(t, 1, t.len() - 1);
        let name = trim_chars(&inner);
        Some(name)
    } else {
        None
    }
}

fn key_value_chars(t: &Vec<char>) -> (r: Option<(Vec<char>, Vec<char>)>)
    ensures
        match r {
            Some(kv) => spec_key_value(t@) == Some((kv.0@, kv.1@)),
            None => spec_key_value(t@) is None,
        },
{
    match find_char(t, '=') {
        Some(p) => {
            proof {
                crate::text::lemma_find_ch(t@, '=');
            }
            let tl = t.len();
            let key = trim_chars(&sub_vec(t, 0, p));
            let value = trim_chars(&sub_vec(t, p + 1, tl));
            proof {
                assert(t@.subrange(0, p as int) =~= t@.take(p as int));
                assert(t@.subrange(p + 1, t@.len() as int) =~= t@.skip(p + 1));
            }
            Some((key, value))
        },
        None => None,
    }
}

/// Reads the section name out of a header line `[name]`.
pub fn parse_section_header(line: &str) -> (r: Option<String>)
    ensures
        match r {
            Some(name) => spec_section_header(line@) == Some(name@),
            None => spec_section_header(line@) is None,
        },
{
    let t = chars_of(line);
    match section_header_chars(&t) {
        Some(name) => Some(string_from_chars(&name)),
        None => None,
    }
}

/// Splits a line `key = value` at its first `=`, trimming both sides.
pub fn parse_key_value(line: &str) -> (r: Option<(String, String)>)
    ensures
        match r {
            Some(kv) => spec_key_value(line@) == Some((kv.0@, kv.1@)),
            None => spec_key_value(line@) is None,
        },
{
    let t = chars_of(line);
    match key_value_chars(&t) {
        Some(kv) => Some((string_from_chars(&kv.0), string_from_chars(&kv.1))),
        None => None,
    }
}

/// Parses a config document into its summary fields.  This is a
/// best-effort summarizer: malformed lines are skipped, numbers that do
/// not parse are treated as absent, and the call always succeeds.
pub fn parse_ini_config(content: &str) -> (r: Result<IniParsedInfo, ConfigError>)
    ensures
        r matches Ok(info) && info@ == spec_parse_ini(content@),
{
    let chars = chars_of(content);
    let lines = split_lines_chars(&chars);
    let ghost all = views_of(lines@);

    let mut info = IniParsedInfo {
        server_addr: None,
        server_port: None,
        tunnel_names: Vec::new(),
        tunnel_type: None,
        custom_domains: None,
        subdomain: None,
        local_ip: None,
        local_port: None,
        remote_port: None,
    };
    let mut sec: Vec<char> = Vec::new();
    proof {
        assert(info@ =~= init_parsed());
        assert(info@.tunnel_names =~= init_parsed().tunnel_names);
        assert(all.skip(0) =~= all);
    }
    let mut i: usize = 0;
    while i < lines.len()
        invariant
            i <= lines@.len(),
            all == views_of(lines@),
            parse_fold(all, Seq::empty(), init_parsed()) == parse_fold(
                all.skip(i as int),
                sec@,
                info@,
            ),
        decreases lines@.len() - i,
    {
        let ghost rem = all.skip(i as int);
        let ghost st = parse_line(sec@, info@, all[i as int]);
        let t = trim_chars(&lines[i]);
        if t.len() == 0 || t[0] == '#' || t[0] == ';' {
        } else {
            match section_header_chars(&t) {
                Some(name) => {
                    sec = name;
                    let is_common = chars_eq(&sec, &chars_of("common"));
                    if !is_common && sec.len() > 0 {
                        info.tunnel_names.push(string_from_chars(&sec));
                        proof {
                            assert(info@.tunnel_names =~= st.1.tunnel_names);
                        }
                    }
                },
                None => {
                    match key_value_chars(&t) {
                        Some(kv) => {
                            let key = kv.0;
                            let value = kv.1;
                            let in_common = chars_eq(&sec, &chars_of("common"));
                            if in_common {
                                if chars_eq(&key, &chars_of("server_addr")) {
                                    info.server_addr = Some(string_from_chars(&value));
                                } else if chars_eq(&key, &chars_of("server_port")) {
                                    info.server_port = crate::text::parse_u16_chars(&value);
                                }
                            } else if sec.len() > 0 {
                                if chars_eq(&key, &chars_of("type")) {
                                    info.tunnel_type = Some(string_from_chars(&value));
                                } else if chars_eq(&key, &chars_of("custom_domains")) {
                                    info.custom_domains = Some(string_from_chars(&value));
                                } else if chars_eq(&key, &chars_of("subdomain")) {
                                    info.subdomain = Some(string_from_chars(&value));
                                } else if chars_eq(&key, &chars_of("local_ip")) {
                                    info.local_ip = Some(string_from_chars(&value));
                                } else if chars_eq(&key, &chars_of("local_port")) {
                                    info.local_port = crate::text::parse_u16_chars(&value);
                                } else if chars_eq(&key, &chars_of("remote_port")) {
                                    info.remote_port = crate::text::parse_u16_chars(&value);
                                }
                            }
                        },
                        None => {},
                    }
                },
            }
        }
        proof {
            assert((sec@, info@) == st);
            assert(rem[0] == all[i as int]);
            assert(rem.drop_first() =~= all.skip(i + 1));
        }
        i = i + 1;
    }
    proof {
        assert(all.skip(all.len() as int) =~= Seq::<Seq<char>>::empty());
    }
    Ok(info)
}

/// A character allowed in a tunnel name: ASCII letters, digits,
/// underscore, hyphen.
pub open spec fn valid_name_char(c: char) -> bool {
    (97 <= (c as u32) <= 122) || (65 <= (c as u32) <= 90) || (48 <= (c as u32) <= 57) || c == '_'
        || c == '-'
}

/// Every character of the name is allowed.
pub open spec fn valid_tunnel_name(n: Seq<char>) -> bool {
    forall|i: int| 0 <= i < n.len() ==> valid_name_char(#[trigger] n[i])
}

/// Checks a tunnel name: only letters, digits, underscore and hyphen are
/// accepted.
pub fn is_valid_tunnel_name(name: &str) -> (r: bool)
    ensures
        r == valid_tunnel_name(name@),
{
    let v = chars_of(name);
    let mut i: usize = 0;
    while i < v.len()
        invariant
            v@ == name@,
            i <= v@.len(),
            forall|j: int| 0 <= j < i ==> valid_name_char(#[trigger] v@[j]),
        decreases v@.len() - i,
    {
        let c = v[i];
        let u = c as u32;
        let ok = (97 <= u && u <= 122) || (65 <= u && u <= 90) || (48 <= u && u <= 57) || c == '_'
            || c == '-';
        if !ok {
            proof {
                assert(!valid_name_char(name@[i as int]));
            }
            return false;
        }
        i = i + 1;
    }
    true
}

/// The grouping state while splitting a document into blocks.
#[verifier::ext_equal]
pub ghost struct SplitState {
    pub sec: Option<Seq<char>>,
    pub common_lines: Seq<Seq<char>>,
    pub tunnels: Seq<(Seq<char>, Seq<Seq<char>>)>,
}

/// The state splitting starts from.
pub open spec fn init_split() -> SplitState {
    SplitState { sec: None, common_lines: Seq::empty(), tunnels: Seq::empty() }
}

/// The effect of one line while splitting: a header opens a section and
/// records its reconstructed header line; any other line is appended
/// verbatim to the block of the section it stands in.
pub open spec fn split_line_step(st: SplitState, line: Seq<char>) -> SplitState {
    let t = spec_trim(line);
    if spec_section_header(t) is Some {
        let name = spec_section_header(t)->Some_0;
        let header = seq!['['] + name + seq![']'];
        if name == "common"@ {
            SplitState {
                sec: Some(name),
                common_lines: st.common_lines.push(header),
                tunnels: st.tunnels,
            }
        } else if name.len() > 0 {
            SplitState {
                sec: Some(name),
                common_lines: st.common_lines,
                tunnels: st.tunnels.push((name, seq![header])),
            }
        } else {
            SplitState { sec: Some(name), ..st }
        }
    } else {
        match st.sec {
            Some(s) => {
                if s == "common"@ {
                    SplitState { common_lines: st.common_lines.push(line), ..st }
                } else if s.len() > 0 && st.tunnels.len() > 0 {
                    let last = st.tunnels.last();
                    SplitState {
                        tunnels: st.tunnels.update(
                            st.tunnels.len() - 1,
                            (last.0, last.1.push(line)),
                        ),
                        ..st
                    }
                } else {
                    st
                }
            },
            None => st,
        }
    }
}

/// Folds `split_line_step` over the lines.
pub open spec fn split_fold(lines: Seq<Seq<char>>, st: SplitState) -> SplitState
    decreases lines.len(),
{
    if lines.len() == 0 {
        st
    } else {
        split_fold(lines.drop_first(), split_line_step(st, lines[0]))
    }
}

/// The grouping state after the whole document.
pub open spec fn spec_split_state(s: Seq<char>) -> SplitState {
    split_fold(split_lines(s), init_split())
}

/// The trimmed text of the common block.
pub open spec fn spec_split_common(s: Seq<char>) -> Seq<char> {
    spec_trim(crate::text::join_sep(spec_split_state(s).common_lines))
}

/// The name and trimmed text of each tunnel block, in order.
pub open spec fn spec_split_tunnels(s: Seq<char>) -> Seq<(Seq<char>, Seq<char>)> {
    spec_split_state(s).tunnels.map_values(
        |t: (Seq<char>, Seq<Seq<char>>)| (t.0, spec_trim(crate::text::join_sep(t.1))),
    )
}

/// The common block and the per-tunnel blocks of a multi-section
/// document.
pub struct IniSplit {
    pub common: String,
    pub tunnels: Vec<(String, String)>,
}

/// The mathematical model of a split document.
#[verifier::ext_equal]
pub ghost struct IniSplitView {
    pub common: Seq<char>,
    pub tunnels: Seq<(Seq<char>, Seq<char>)>,
}

pub open spec fn pair_views(ts: Seq<(String, String)>) -> Seq<(Seq<char>, Seq<char>)> {
    ts.map_values(|p: (String, String)| (p.0@, p.1@))
}

impl View for IniSplit {
    type V = IniSplitView;

    open spec fn view(&self) -> IniSplitView {
        IniSplitView { common: self.common@, tunnels: pair_views(self.tunnels@) }
    }
}

pub open spec fn tuns_view(ts: Seq<(Vec<char>, Vec<Vec<char>>)>) -> Seq<
    (Seq<char>, Seq<Seq<char>>),
> {
    ts.map_values(|p: (Vec<char>, Vec<Vec<char>>)| (p.0@, views_of(p.1@)))
}

/// Splits a document into the verbatim text of its `[common]` section and
/// of each tunnel section, header lines included.  Fails when no tunnel
/// section exists, and when a tunnel name holds a character outside
/// letters, digits, underscore and hyphen.
pub fn split_ini_config(content: &str) -> (r: Result<IniSplit, ConfigError>)
    ensures
        match r {
            Ok(sp) => {
                &&& spec_split_tunnels(content@).len() > 0
                &&& forall|k: int|
                    0 <= k < spec_split_tunnels(content@).len() ==> valid_tunnel_name(
                        #[trigger] spec_split_tunnels(content@)[k].0,
                    )
                &&& sp@.common == spec_split_common(content@)
                &&& sp@.tunnels == spec_split_tunnels(content@)
            },
            Err(ConfigError::NoTunnelSection) => spec_split_tunnels(content@).len() == 0,
            Err(ConfigError::InvalidTunnelName) => exists|k: int|
                0 <= k < spec_split_tunnels(content@).len() && !valid_tunnel_name(
                    #[trigger] spec_split_tunnels(content@)[k].0,
                ),
            Err(_) => false,
        },
{
    let chars = chars_of(content);
    let lines = split_lines_chars(&chars);
    let ghost all = views_of(lines@);

    let mut sec: Option<Vec<char>> = None;
    let mut common_lines: Vec<Vec<char>> = Vec::new();
    let mut tunnels: Vec<(Vec<char>, Vec<Vec<char>>)> = Vec::new();
    proof {
        assert(views_of(common_lines@) =~= init_split().common_lines);
        assert(tuns_view(tunnels@) =~= init_split().tunnels);
        assert(all.skip(0) =~= all);
    }
    let mut i: usize = 0;
    while i < lines.len()
        invariant
            i <= lines@.len(),
            all == views_of(lines@),
            split_fold(all, init_split()) == split_fold(
                all.skip(i as int),
                SplitState {
                    sec: match sec {
                        Some(ref s) => Some(s@),
                        None => None,
                    },
                    common_lines: views_of(common_lines@),
                    tunnels: tuns_view(tunnels@),
                },
            ),
        decreases lines@.len() - i,
    {
        let ghost rem = all.skip(i as int);
        let ghost cur = SplitState {
            sec: match sec {
                Some(ref s) => Some(s@),
                None => None,
            },
            common_lines: views_of(common_lines@),
            tunnels: tuns_view(tunnels@),
        };
        let ghost st = split_line_step(cur, all[i as int]);
        let t = trim_chars(&lines[i]);
        match section_header_chars(&t) {
            Some(name) => {
                let mut header: Vec<char> = Vec::new();
                header.push('[');
                push_all(&mut header, &name);
                header.push(']');
                proof {
                    assert(header@ =~= seq!['['] + name@ + seq![']']);
                }
                let is_common = chars_eq(&name, &chars_of("common"));
                if is_common {
                    common_lines.push(header);
                    proof {
                        assert(views_of(common_lines@) =~= st.common_lines);
                    }
                } else if name.len() > 0 {
                    let mut block: Vec<Vec<char>> = Vec::new();
                    block.push(header);
                    let ghost nv = name@;
                    let entry_name = crate::text::copy_vec(&name);
                    tunnels.push((entry_name, block));
                    proof {
                        assert(views_of(tunnels@.last().1@) =~= seq![
                            seq!['['] + nv + seq![']'],
                        ]);
                        assert(tuns_view(tunnels@) =~= st.tunnels);
                    }
                }
                sec = Some(name);
            },
            None => {
                match &sec {
                    Some(s) => {
                        let in_common = chars_eq(s, &chars_of("common"));
                        if in_common {
                            common_lines.push(crate::text::copy_vec(&lines[i]));
                            proof {
                                assert(views_of(common_lines@) =~= st.common_lines);
                            }
                        } else if s.len() > 0 && tunnels.len() > 0 {
                            let mut last = match tunnels.pop() {
                                Some(l) => l,
                                None => {
                                    proof {
                                        assert(false);
                                    }
                                    (Vec::new(), Vec::new())
                                },
                            };
                            let ghost popped = tunnels@;
                            last.1.push(crate::text::copy_vec(&lines[i]));
                            tunnels.push(last);
                            proof {
                                assert(views_of(last.1@) =~= cur.tunnels.last().1.push(
                                    all[i as int],
                                ));
                                assert(tuns_view(tunnels@) =~= st.tunnels);
                            }
                        }
                    },
                    None => {},
                }
            },
        }
        proof {
            let now = SplitState {
                sec: match sec {
                    Some(ref s) => Some(s@),
                    None => None,
                },
                common_lines: views_of(common_lines@),
                tunnels: tuns_view(tunnels@),
            };
            assert(now =~= st);
            assert(rem[0] == all[i as int]);
            assert(rem.drop_first() =~= all.skip(i + 1));
        }
        i = i + 1;
    }
    proof {
        assert(all.skip(all.len() as int) =~= Seq::<Seq<char>>::empty());
    }
    let ghost fin = split_fold(all, init_split());

    if tunnels.len() == 0 {
        proof {
            assert(spec_split_tunnels(content@).len() == 0);
        }
        return Err(ConfigError::NoTunnelSection);
    }

    let mut k: usize = 0;
    while k < tunnels.len()
        invariant
            k <= tunnels@.len(),
            tuns_view(tunnels@) == fin.tunnels,
            spec_split_tunnels(content@) == fin.tunnels.map_values(
                |t: (Seq<char>, Seq<Seq<char>>)| (t.0, spec_trim(crate::text::join_sep(t.1))),
            ),
            forall|j: int|
                0 <= j < k ==> valid_tunnel_name(#[trigger] spec_split_tunnels(content@)[j].0),
        decreases tunnels@.len() - k,
    {
        let name_str = string_from_chars(&tunnels[k].0);
        if !is_valid_tunnel_name(name_str.as_str()) {
            proof {
                assert(!valid_tunnel_name(spec_split_tunnels(content@)[k as int].0));
            }
            return Err(ConfigError::InvalidTunnelName);
        }
        k = k + 1;
    }

    let joined_common = crate::text::join_sep_chars(&common_lines);
    let trimmed_common = trim_chars(&joined_common);
    let common = string_from_chars(&trimmed_common);

    let mut out: Vec<(String, String)> = Vec::new();
    let mut j: usize = 0;
    while j < tunnels.len()
        invariant
            j <= tunnels@.len(),
            tuns_view(tunnels@) == fin.tunnels,
            spec_split_tunnels(content@) == fin.tunnels.map_values(
                |t: (Seq<char>, Seq<Seq<char>>)| (t.0, spec_trim(crate::text::join_sep(t.1))),
            ),
            out@.len() == j,
            forall|m: int|
                0 <= m < j ==> (out@[m].0@, out@[m].1@) == spec_split_tunnels(content@)[m],
        decreases tunnels@.len() - j,
    {
        let name = string_from_chars(&tunnels[j].0);
        let joined = crate::text::join_sep_chars(&tunnels[j].1);
        let trimmed = trim_chars(&joined);
        let text = string_from_chars(&trimmed);
        out.push((name, text));
        j = j + 1;
    }
    proof {
        assert(pair_views(out@) =~= spec_split_tunnels(content@));
    }
    Ok(IniSplit { common, tunnels: out })
}

/// Rewrites `tls_enable = false` to `tls_enable = true` throughout a
/// config document.  Returns the rewritten text, or nothing when the
/// document holds no such line and is left as it is.
pub fn fix_tls_content(content: &str) -> (r: Option<String>)
    ensures
        ({
            let rep = crate::text::spec_replace(
                content@,
                "tls_enable = false"@,
                "tls_enable = true"@,
            );
            match r {
                Some(s) => s@ == rep && rep != content@,
                None => rep == content@,
            }
        }),
{
    let cv = chars_of(content);
    let needle = chars_of("tls_enable = false");
    let replacement = chars_of("tls_enable = true");
    let out = crate::text::replace_chars(&cv, &needle, &replacement);
    if chars_eq(&out, &cv) {
        None
    } else {
        Some(string_from_chars(&out))
    }
}

} // verus!
