//! Round-trip laws of the codec: parsing a generated document recovers
//! the request's fields.

use vstd::prelude::*;

use crate::codec::IniParsedView;
use crate::codec::TunnelConfigView;
use crate::codec::apply_kv;
use crate::codec::generate_ok;
use crate::codec::is_domain_type;
use crate::codec::is_port_type;
use crate::codec::parse_fold;
use crate::codec::parse_line;
use crate::codec::init_parsed;
use crate::codec::spec_generate;
use crate::codec::spec_generate_lines;
use crate::codec::spec_parse_ini;
use crate::codec::spec_section_header;
use crate::codec::valid_name_char;
use crate::codec::valid_tunnel_name;
use crate::text::dec_digits;
use crate::text::is_space;
use crate::text::lemma_dec_digits_parse;
use crate::text::lemma_digits_plain;
use crate::text::lemma_find_ch_at;
use crate::text::lemma_split_join_term;
use crate::text::lemma_trim_noop;
use crate::text::lemma_trim_stable_ends;
use crate::text::line_ok;
use crate::text::spec_trim;
use crate::text::split_lines;
use crate::text::trim_back;
use crate::text::trim_front;

verus! {

/// A field value that the codec reproduces exactly: it holds no newline
/// and trimming leaves it unchanged.
pub open spec fn field_ok(v: Seq<char>) -> bool {
    spec_trim(v) == v && (forall|i: int| 0 <= i < v.len() ==> (#[trigger] v[i]) != '\n')
}

/// A key as the generator writes it: non-empty, free of whitespace and
/// `=`, and not opening a comment or a section header.
pub open spec fn plain_key(k: Seq<char>) -> bool {
    k.len() > 0 && (forall|i: int|
        0 <= i < k.len() ==> !is_space(#[trigger] k[i]) && k[i] != '=') && k[0] != '#' && k[0]
        != ';' && k[0] != '['
}

proof fn lemma_trim_stable_parts(v: Seq<char>)
    requires
        spec_trim(v) == v,
    ensures
        trim_front(v) == v,
        trim_back(v) == v,
{
    crate::text::lemma_trim_front_len(v);
    crate::text::lemma_trim_back_len(trim_front(v));
    assert(trim_front(v).len() == v.len());
    assert(trim_front(v) == v);
    crate::text::lemma_trim_back_len(v);
}

proof fn lemma_trim_key_space(key: Seq<char>)
    requires
        plain_key(key),
    ensures
        spec_trim(key + seq![' ']) == key,
{
    let s = key + seq![' '];
    assert(s[0] == key[0]);
    assert(trim_front(s) == s);
    assert(s[s.len() - 1] == ' ');
    assert(s.drop_last() =~= key);
    assert(trim_back(s) == trim_back(key));
    assert(key[key.len() - 1] != ' ' && !is_space(key[key.len() - 1]));
    assert(trim_back(key) == key);
}

/// A generated `key = value` line parses to exactly that key and value.
proof fn lemma_parse_line_kv(
    sec: Seq<char>,
    info: IniParsedView,
    key: Seq<char>,
    v: Seq<char>,
)
    requires
        plain_key(key),
        spec_trim(v) == v,
    ensures
        parse_line(sec, info, key + " = "@ + v) == (sec, apply_kv(sec, info, key, v)),
{
    reveal_strlit(" = ");
    let mid = " = "@;
    assert(mid.len() == 3 && mid[0] == ' ' && mid[1] == '=' && mid[2] == ' ');
    let line = key + mid + v;
    let kl = key.len() as int;
    assert(line[0] == key[0]);
    assert(!is_space(line[0]));
    let t: Seq<char> = if v.len() > 0 {
        line
    } else {
        key + seq![' ', '=']
    };
    if v.len() > 0 {
        lemma_trim_stable_ends(v);
        assert(line[line.len() - 1] == v[v.len() - 1]);
        assert(trim_front(line) == line);
        assert(trim_back(line) == line);
        assert(spec_trim(line) == t);
    } else {
        assert(line =~= key + mid);
        assert(trim_front(line) == line);
        assert(line[line.len() - 1] == ' ');
        assert(line.drop_last() =~= key + seq![' ', '=']);
        assert(t[t.len() - 1] == '=');
        assert(!is_space(t[t.len() - 1]));
        assert(trim_back(line) == trim_back(t));
        assert(trim_back(t) == t);
        assert(spec_trim(line) == t);
    }
    assert(t.len() > 0);
    assert(t[0] == key[0]);
    assert(t[0] != '#' && t[0] != ';');
    assert(spec_section_header(t) is None);
    assert forall|i: int| 0 <= i < kl + 1 implies t[i] != '=' by {
        if i < kl {
            assert(t[i] == key[i]);
        } else {
            assert(t[i] == ' ');
        }
    }
    assert(t[kl + 1] == '=');
    lemma_find_ch_at(t, '=', kl + 1);
    assert(t.take(kl + 1) =~= key + seq![' ']);
    lemma_trim_key_space(key);
    if v.len() > 0 {
        assert(t.skip(kl + 2) =~= seq![' '] + v);
        let sv = seq![' '] + v;
        assert(sv[0] == ' ');
        assert(sv.drop_first() =~= v);
        lemma_trim_stable_parts(v);
        assert(trim_front(sv) == trim_front(v));
        assert(spec_trim(sv) == v);
    } else {
        assert(t.skip(kl + 2) =~= Seq::<char>::empty());
        assert(spec_trim(Seq::<char>::empty()) == Seq::<char>::empty());
    }
    assert(crate::codec::spec_key_value(t) == Some((key, v)));
}

/// Tunnel name characters are neither whitespace nor any structural
/// character of the format.
proof fn lemma_name_char_plain(c: char)
    requires
        valid_name_char(c),
    ensures
        !is_space(c),
        c != '[',
        c != ']',
        c != '#',
        c != ';',
        c != '=',
        c != '\n',
{
}

/// A generated `[name]` header line parses to a section switch, pushing
/// the name onto the tunnel list unless it is the common section.
proof fn lemma_parse_line_header(sec: Seq<char>, info: IniParsedView, name: Seq<char>)
    requires
        name.len() > 0,
        valid_tunnel_name(name),
    ensures
        parse_line(sec, info, seq!['['] + name + seq![']']) == (
            name,
            if name != "common"@ {
                IniParsedView { tunnel_names: info.tunnel_names.push(name), ..info }
            } else {
                info
            },
        ),
{
    let line = seq!['['] + name + seq![']'];
    assert(line[0] == '[');
    assert(line[line.len() - 1] == ']');
    lemma_trim_noop(line);
    assert(spec_trim(line) == line);
    assert(line.len() > 0 && line[0] != '#' && line[0] != ';');
    let inner = line.subrange(1, line.len() - 1);
    assert(inner =~= name);
    assert(valid_name_char(name[0]) && valid_name_char(name[name.len() - 1]));
    lemma_name_char_plain(name[0]);
    lemma_name_char_plain(name[name.len() - 1]);
    lemma_trim_noop(name);
    assert(spec_section_header(line) == Some(name));
}

/// A blank line leaves the parsing state unchanged.
proof fn lemma_parse_line_blank(sec: Seq<char>, info: IniParsedView)
    ensures
        parse_line(sec, info, Seq::<char>::empty()) == (sec, info),
{
    assert(spec_trim(Seq::<char>::empty()) =~= Seq::<char>::empty());
}

proof fn lemma_parse_fold_append(
    a: Seq<Seq<char>>,
    b: Seq<Seq<char>>,
    sec: Seq<char>,
    info: IniParsedView,
)
    ensures
        parse_fold(a + b, sec, info) == parse_fold(
            b,
            parse_fold(a, sec, info).0,
            parse_fold(a, sec, info).1,
        ),
    decreases a.len(),
{
    if a.len() == 0 {
        assert(a + b =~= b);
    } else {
        assert((a + b)[0] == a[0]);
        assert((a + b).drop_first() =~= a.drop_first() + b);
        let st = parse_line(sec, info, a[0]);
        lemma_parse_fold_append(a.drop_first(), b, st.0, st.1);
    }
}

proof fn lemma_parse_fold_one(l: Seq<char>, sec: Seq<char>, info: IniParsedView)
    ensures
        parse_fold(seq![l], sec, info) == parse_line(sec, info, l),
{
    let s = seq![l];
    assert(s[0] == l);
    assert(s.drop_first() =~= Seq::<Seq<char>>::empty());
    let st = parse_line(sec, info, l);
    assert(parse_fold(Seq::<Seq<char>>::empty(), st.0, st.1) == st);
}

/// Every line of the list splits back out unchanged.
pub open spec fn all_lines_ok(ls: Seq<Seq<char>>) -> bool {
    forall|k: int| 0 <= k < ls.len() ==> line_ok(#[trigger] ls[k])
}

proof fn lemma_all_ok_concat(a: Seq<Seq<char>>, b: Seq<Seq<char>>)
    requires
        all_lines_ok(a),
        all_lines_ok(b),
    ensures
        all_lines_ok(a + b),
{
    assert forall|k: int| 0 <= k < (a + b).len() implies line_ok(#[trigger] (a + b)[k]) by {
        if k < a.len() {
            assert((a + b)[k] == a[k]);
        } else {
            assert((a + b)[k] == b[k - a.len()]);
        }
    }
}

proof fn lemma_kv_line_ok(key: Seq<char>, v: Seq<char>)
    requires
        plain_key(key),
        field_ok(v),
    ensures
        line_ok(key + " = "@ + v),
        all_lines_ok(seq![key + " = "@ + v]),
{
    reveal_strlit(" = ");
    let mid = " = "@;
    assert(mid.len() == 3 && mid[0] == ' ' && mid[1] == '=' && mid[2] == ' ');
    let line = key + mid + v;
    let kl = key.len() as int;
    assert forall|i: int| 0 <= i < line.len() implies (#[trigger] line[i]) != '\n' by {
        if i < kl {
            assert(line[i] == key[i]);
            assert(!is_space(key[i]));
        } else if i < kl + 3 {
            assert(line[i] == mid[i - kl]);
        } else {
            assert(line[i] == v[i - kl - 3]);
        }
    }
    if v.len() > 0 {
        lemma_trim_stable_ends(v);
        assert(line[line.len() - 1] == v[v.len() - 1]);
        assert(line[line.len() - 1] != '\r');
    } else {
        assert(line[line.len() - 1] == mid[2]);
    }
    assert(all_lines_ok(seq![line])) by {
        assert(seq![line][0] == line);
    }
}

proof fn lemma_header_line_ok(name: Seq<char>)
    requires
        name.len() > 0,
        valid_tunnel_name(name),
    ensures
        line_ok(seq!['['] + name + seq![']']),
        all_lines_ok(seq![seq!['['] + name + seq![']']]),
{
    let line = seq!['['] + name + seq![']'];
    assert forall|i: int| 0 <= i < line.len() implies (#[trigger] line[i]) != '\n' by {
        if i == 0 {
            assert(line[i] == '[');
        } else if i < line.len() - 1 {
            assert(line[i] == name[i - 1]);
            lemma_name_char_plain(name[i - 1]);
        } else {
            assert(line[i] == ']');
        }
    }
    assert(line[line.len() - 1] == ']');
    assert(all_lines_ok(seq![line])) by {
        assert(seq![line][0] == line);
    }
}

/// The fields a request must satisfy for the generated document to parse
/// back exactly: values free of newlines and trim-stable, and a tunnel
/// name that is valid, non-empty and not the common section's name.
pub open spec fn roundtrip_fields_ok(c: TunnelConfigView) -> bool {
    &&& field_ok(c.server_addr)
    &&& field_ok(c.local_ip)
    &&& field_ok(c.user_token)
    &&& field_ok(c.node_token)
    &&& (match c.http_proxy {
        Some(p) => field_ok(p),
        None => true,
    })
    &&& (match c.custom_domains {
        Some(d) => field_ok(d),
        None => true,
    })
    &&& valid_tunnel_name(c.tunnel_name)
    &&& c.tunnel_name.len() > 0
    &&& c.tunnel_name != "common"@
}

proof fn lemma_common_ignored_key(info: IniParsedView, key: Seq<char>, v: Seq<char>)
    requires
        plain_key(key),
        spec_trim(v) == v,
        key != "server_addr"@,
        key != "server_port"@,
    ensures
        parse_line("common"@, info, key + " = "@ + v) == ("common"@, info),
{
    lemma_parse_line_kv("common"@, info, key, v);
}

proof fn lemma_keys_plain()
    ensures
        plain_key("server_addr"@),
        plain_key("server_port"@),
        plain_key("http_proxy"@),
        plain_key("tls_enable"@),
        plain_key("tcp_mux"@),
        plain_key("pool_count"@),
        plain_key("protocol"@),
        plain_key("user"@),
        plain_key("token"@),
        plain_key("type"@),
        plain_key("local_ip"@),
        plain_key("local_port"@),
        plain_key("remote_port"@),
        plain_key("custom_domains"@),
        "server_addr"@.len() == 11,
        "server_port"@.len() == 11,
        "http_proxy"@.len() == 10,
        "tls_enable"@.len() == 10,
        "tcp_mux"@.len() == 7,
        "pool_count"@.len() == 10,
        "protocol"@.len() == 8,
        "user"@.len() == 4,
        "token"@.len() == 5,
        "type"@.len() == 4,
        "local_ip"@.len() == 8,
        "local_port"@.len() == 10,
        "remote_port"@.len() == 11,
        "custom_domains"@.len() == 14,
        "subdomain"@.len() == 9,
        "server_addr"@ != "server_port"@,
        valid_tunnel_name("common"@),
        "common"@.len() == 6,
{
    reveal_strlit("server_addr");
    reveal_strlit("server_port");
    reveal_strlit("http_proxy");
    reveal_strlit("tls_enable");
    reveal_strlit("tcp_mux");
    reveal_strlit("pool_count");
    reveal_strlit("protocol");
    reveal_strlit("user");
    reveal_strlit("token");
    reveal_strlit("type");
    reveal_strlit("local_ip");
    reveal_strlit("local_port");
    reveal_strlit("remote_port");
    reveal_strlit("custom_domains");
    reveal_strlit("subdomain");
    reveal_strlit("common");
    assert("server_addr"@[7] == 'a' && "server_port"@[7] == 'p');
}

proof fn lemma_lit_field_ok()
    ensures
        field_ok("true"@),
        field_ok("false"@),
        field_ok("kcp"@),
        field_ok("5"@),
        field_ok("tcp"@),
        field_ok("udp"@),
        field_ok("http"@),
        field_ok("https"@),
{
    reveal_strlit("true");
    reveal_strlit("false");
    reveal_strlit("kcp");
    reveal_strlit("5");
    reveal_strlit("tcp");
    reveal_strlit("udp");
    reveal_strlit("http");
    reveal_strlit("https");
    lemma_trim_noop("true"@);
    lemma_trim_noop("false"@);
    lemma_trim_noop("kcp"@);
    lemma_trim_noop("5"@);
    lemma_trim_noop("tcp"@);
    lemma_trim_noop("udp"@);
    lemma_trim_noop("http"@);
    lemma_trim_noop("https"@);
}

/// Round-trip law: parsing the generated document of an accepted request
/// with reproducible fields recovers the server endpoint, the tunnel
/// name, the type, the local endpoint, and the type-specific field — the
/// remote port for tcp/udp, the custom domains for http/https.
pub proof fn lemma_generate_then_parse(c: TunnelConfigView)
    requires
        roundtrip_fields_ok(c),
        generate_ok(c),
    ensures
        ({
            let p = spec_parse_ini(spec_generate(c));
            &&& p.server_addr == Some(c.server_addr)
            &&& p.server_port == Some(c.server_port)
            &&& p.tunnel_names == seq![c.tunnel_name]
            &&& p.tunnel_type == Some(c.tunnel_type)
            &&& p.local_ip == Some(c.local_ip)
            &&& p.local_port == Some(c.local_port)
            &&& (is_port_type(c.tunnel_type) ==> p.remote_port == Some(c.remote_port->Some_0))
            &&& (is_domain_type(c.tunnel_type) ==> p.custom_domains == Some(
                c.custom_domains->Some_0,
            ))
        }),
{
    lemma_keys_plain();
    lemma_lit_field_ok();
    reveal_strlit("server_addr = ");
    reveal_strlit("server_port = ");
    reveal_strlit("http_proxy = ");
    reveal_strlit("tls_enable = ");
    reveal_strlit("tcp_mux = true");
    reveal_strlit("pool_count = 5");
    reveal_strlit("protocol = kcp");
    reveal_strlit("user = ");
    reveal_strlit("token = ");
    reveal_strlit("type = ");
    reveal_strlit("local_ip = ");
    reveal_strlit("local_port = ");
    reveal_strlit("remote_port = ");
    reveal_strlit("custom_domains = ");
    reveal_strlit(" = ");
    reveal_strlit("[common]");
    reveal_strlit("common");
    reveal_strlit("server_addr");
    reveal_strlit("server_port");
    reveal_strlit("http_proxy");
    reveal_strlit("tls_enable");
    reveal_strlit("tcp_mux");
    reveal_strlit("pool_count");
    reveal_strlit("protocol");
    reveal_strlit("user");
    reveal_strlit("token");
    reveal_strlit("type");
    reveal_strlit("local_ip");
    reveal_strlit("local_port");
    reveal_strlit("remote_port");
    reveal_strlit("custom_domains");
    reveal_strlit("true");
    reveal_strlit("5");
    reveal_strlit("kcp");
    reveal_strlit("tcp");
    reveal_strlit("udp");
    reveal_strlit("http");
    reveal_strlit("https");

    assert("server_addr = "@ =~= "server_addr"@ + " = "@);
    assert("server_port = "@ =~= "server_port"@ + " = "@);
    assert("http_proxy = "@ =~= "http_proxy"@ + " = "@);
    assert("tls_enable = "@ =~= "tls_enable"@ + " = "@);
    assert("tcp_mux = true"@ =~= "tcp_mux"@ + " = "@ + "true"@);
    assert("pool_count = 5"@ =~= "pool_count"@ + " = "@ + "5"@);
    assert("protocol = kcp"@ =~= "protocol"@ + " = "@ + "kcp"@);
    assert("user = "@ =~= "user"@ + " = "@);
    assert("token = "@ =~= "token"@ + " = "@);
    assert("type = "@ =~= "type"@ + " = "@);
    assert("local_ip = "@ =~= "local_ip"@ + " = "@);
    assert("local_port = "@ =~= "local_port"@ + " = "@);
    assert("remote_port = "@ =~= "remote_port"@ + " = "@);
    assert("custom_domains = "@ =~= "custom_domains"@ + " = "@);
    assert("[common]"@ =~= seq!['['] + "common"@ + seq![']']);

    let sport = dec_digits(c.server_port as int);
    let lport = dec_digits(c.local_port as int);
    lemma_digits_plain(c.server_port as int);
    lemma_digits_plain(c.local_port as int);
    lemma_dec_digits_parse(c.server_port as int);
    lemma_dec_digits_parse(c.local_port as int);
    assert(field_ok(sport) && field_ok(lport));
    let tls_v = crate::codec::bool_chars(c.force_tls);
    assert(field_ok(tls_v));
    assert(field_ok(c.tunnel_type)) by {
        reveal_strlit("tcp");
        reveal_strlit("udp");
        reveal_strlit("http");
        reveal_strlit("https");
    }

    let e = Seq::<char>::empty();
    let info0 = init_parsed();

    let s1 = seq!["[common]"@];
    let s2 = seq!["server_addr = "@ + c.server_addr];
    let s3 = seq!["server_port = "@ + sport];
    let s4: Seq<Seq<char>> = match c.http_proxy {
        Some(p) => seq!["http_proxy = "@ + p],
        None => Seq::<Seq<char>>::empty(),
    };
    let s5 = seq!["tls_enable = "@ + tls_v];
    let s6 = seq!["tcp_mux = true"@];
    let s7 = seq!["pool_count = 5"@];
    let s8: Seq<Seq<char>> = if c.kcp_optimization && is_port_type(c.tunnel_type) {
        seq!["protocol = kcp"@]
    } else {
        Seq::<Seq<char>>::empty()
    };
    let s9 = seq!["user = "@ + c.user_token];
    let s10 = seq!["token = "@ + c.node_token];
    let s11 = seq![Seq::<char>::empty()];
    let s12 = seq![seq!['['] + c.tunnel_name + seq![']']];
    let s13 = seq!["type = "@ + c.tunnel_type];
    let s14 = seq!["local_ip = "@ + c.local_ip];
    let s15 = seq!["local_port = "@ + lport];
    let s16: Seq<Seq<char>> = if is_port_type(c.tunnel_type) {
        seq!["remote_port = "@ + dec_digits(c.remote_port->Some_0 as int)]
    } else {
        seq!["custom_domains = "@ + c.custom_domains->Some_0]
    };
    let lines = spec_generate_lines(c);
    assert(lines == s1 + s2 + s3 + s4 + s5 + s6 + s7 + s8 + s9 + s10 + s11 + s12 + s13 + s14 + s15
        + s16);

    // The common section: the header opens it, the address and port are
    // captured, every other key is passed over.
    let a1 = s1;
    lemma_parse_fold_one("[common]"@, e, info0);
    lemma_parse_line_header(e, info0, "common"@);
    let st1 = parse_fold(a1, e, info0);
    assert(st1 == ("common"@, info0));

    let a2 = a1 + s2;
    lemma_parse_fold_append(a1, s2, e, info0);
    lemma_parse_fold_one("server_addr = "@ + c.server_addr, st1.0, st1.1);
    lemma_parse_line_kv("common"@, info0, "server_addr"@, c.server_addr);
    let info2 = IniParsedView { server_addr: Some(c.server_addr), ..info0 };
    let st2 = parse_fold(a2, e, info0);
    assert(st2 == ("common"@, info2));

    let a3 = a2 + s3;
    lemma_parse_fold_append(a2, s3, e, info0);
    lemma_parse_fold_one("server_port = "@ + sport, st2.0, st2.1);
    lemma_parse_line_kv("common"@, info2, "server_port"@, sport);
    let info3 = IniParsedView { server_port: Some(c.server_port), ..info2 };
    let st3 = parse_fold(a3, e, info0);
    assert(st3 == ("common"@, info3));

    let a4 = a3 + s4;
    lemma_parse_fold_append(a3, s4, e, info0);
    let st4 = parse_fold(a4, e, info0);
    match c.http_proxy {
        Some(p) => {
            lemma_parse_fold_one("http_proxy = "@ + p, st3.0, st3.1);
            lemma_common_ignored_key(info3, "http_proxy"@, p);
        },
        None => {},
    }
    assert(st4 == ("common"@, info3));

    let a5 = a4 + s5;
    lemma_parse_fold_append(a4, s5, e, info0);
    lemma_parse_fold_one("tls_enable = "@ + tls_v, st4.0, st4.1);
    lemma_common_ignored_key(info3, "tls_enable"@, tls_v);
    let st5 = parse_fold(a5, e, info0);
    assert(st5 == ("common"@, info3));

    let a6 = a5 + s6;
    lemma_parse_fold_append(a5, s6, e, info0);
    lemma_parse_fold_one("tcp_mux = true"@, st5.0, st5.1);
    lemma_common_ignored_key(info3, "tcp_mux"@, "true"@);
    let st6 = parse_fold(a6, e, info0);
    assert(st6 == ("common"@, info3));

    let a7 = a6 + s7;
    lemma_parse_fold_append(a6, s7, e, info0);
    lemma_parse_fold_one("pool_count = 5"@, st6.0, st6.1);
    lemma_common_ignored_key(info3, "pool_count"@, "5"@);
    let st7 = parse_fold(a7, e, info0);
    assert(st7 == ("common"@, info3));

    let a8 = a7 + s8;
    lemma_parse_fold_append(a7, s8, e, info0);
    let st8 = parse_fold(a8, e, info0);
    if c.kcp_optimization && is_port_type(c.tunnel_type) {
        lemma_parse_fold_one("protocol = kcp"@, st7.0, st7.1);
        lemma_common_ignored_key(info3, "protocol"@, "kcp"@);
    }
    assert(st8 == ("common"@, info3));

    let a9 = a8 + s9;
    lemma_parse_fold_append(a8, s9, e, info0);
    lemma_parse_fold_one("user = "@ + c.user_token, st8.0, st8.1);
    lemma_common_ignored_key(info3, "user"@, c.user_token);
    let st9 = parse_fold(a9, e, info0);
    assert(st9 == ("common"@, info3));

    let a10 = a9 + s10;
    lemma_parse_fold_append(a9, s10, e, info0);
    lemma_parse_fold_one("token = "@ + c.node_token, st9.0, st9.1);
    lemma_common_ignored_key(info3, "token"@, c.node_token);
    let st10 = parse_fold(a10, e, info0);
    assert(st10 == ("common"@, info3));

    let a11 = a10 + s11;
    lemma_parse_fold_append(a10, s11, e, info0);
    lemma_parse_fold_one(Seq::<char>::empty(), st10.0, st10.1);
    lemma_parse_line_blank("common"@, info3);
    let st11 = parse_fold(a11, e, info0);
    assert(st11 == ("common"@, info3));

    // The tunnel section: its header records the name, then the type,
    // the local endpoint and the type-specific field are captured.
    let a12 = a11 + s12;
    lemma_parse_fold_append(a11, s12, e, info0);
    lemma_parse_fold_one(seq!['['] + c.tunnel_name + seq![']'], st11.0, st11.1);
    lemma_parse_line_header("common"@, info3, c.tunnel_name);
    let info12 = IniParsedView {
        tunnel_names: info3.tunnel_names.push(c.tunnel_name),
        ..info3
    };
    let st12 = parse_fold(a12, e, info0);
    assert(st12 == (c.tunnel_name, info12));
    assert(info12.tunnel_names =~= seq![c.tunnel_name]);

    let name = c.tunnel_name;
    assert(name != "common"@ && name.len() > 0);

    let a13 = a12 + s13;
    lemma_parse_fold_append(a12, s13, e, info0);
    lemma_parse_fold_one("type = "@ + c.tunnel_type, st12.0, st12.1);
    lemma_parse_line_kv(name, info12, "type"@, c.tunnel_type);
    let info13 = IniParsedView { tunnel_type: Some(c.tunnel_type), ..info12 };
    let st13 = parse_fold(a13, e, info0);
    assert(st13 == (name, info13));

    let a14 = a13 + s14;
    lemma_parse_fold_append(a13, s14, e, info0);
    lemma_parse_fold_one("local_ip = "@ + c.local_ip, st13.0, st13.1);
    lemma_parse_line_kv(name, info13, "local_ip"@, c.local_ip);
    let info14 = IniParsedView { local_ip: Some(c.local_ip), ..info13 };
    let st14 = parse_fold(a14, e, info0);
    assert(st14 == (name, info14));

    let a15 = a14 + s15;
    lemma_parse_fold_append(a14, s15, e, info0);
    lemma_parse_fold_one("local_port = "@ + lport, st14.0, st14.1);
    lemma_parse_line_kv(name, info14, "local_port"@, lport);
    let info15 = IniParsedView { local_port: Some(c.local_port), ..info14 };
    let st15 = parse_fold(a15, e, info0);
    assert(st15 == (name, info15));

    let a16 = a15 + s16;
    lemma_parse_fold_append(a15, s16, e, info0);
    let st16 = parse_fold(a16, e, info0);
    let info16: IniParsedView = if is_port_type(c.tunnel_type) {
        let rp = dec_digits(c.remote_port->Some_0 as int);
        lemma_digits_plain(c.remote_port->Some_0 as int);
        lemma_dec_digits_parse(c.remote_port->Some_0 as int);
        lemma_parse_fold_one("remote_port = "@ + rp, st15.0, st15.1);
        lemma_parse_line_kv(name, info15, "remote_port"@, rp);
        IniParsedView { remote_port: Some(c.remote_port->Some_0), ..info15 }
    } else {
        let cd = c.custom_domains->Some_0;
        lemma_parse_fold_one("custom_domains = "@ + cd, st15.0, st15.1);
        lemma_parse_line_kv(name, info15, "custom_domains"@, cd);
        IniParsedView { custom_domains: Some(cd), ..info15 }
    };
    assert(st16 == (name, info16));
    assert(a16 == lines);

    // Every generated line splits back out of the joined document.
    lemma_kv_line_ok("server_addr"@, c.server_addr);
    lemma_kv_line_ok("server_port"@, sport);
    lemma_kv_line_ok("tls_enable"@, tls_v);
    lemma_kv_line_ok("tcp_mux"@, "true"@);
    lemma_kv_line_ok("pool_count"@, "5"@);
    lemma_kv_line_ok("user"@, c.user_token);
    lemma_kv_line_ok("token"@, c.node_token);
    lemma_kv_line_ok("type"@, c.tunnel_type);
    lemma_kv_line_ok("local_ip"@, c.local_ip);
    lemma_kv_line_ok("local_port"@, lport);
    lemma_header_line_ok("common"@);
    lemma_header_line_ok(c.tunnel_name);
    assert(all_lines_ok(s4)) by {
        match c.http_proxy {
            Some(p) => {
                lemma_kv_line_ok("http_proxy"@, p);
            },
            None => {},
        }
    }
    assert(all_lines_ok(s8)) by {
        if c.kcp_optimization && is_port_type(c.tunnel_type) {
            lemma_kv_line_ok("protocol"@, "kcp"@);
        }
    }
    assert(all_lines_ok(s11)) by {
        assert(line_ok(Seq::<char>::empty()));
        assert(s11[0] == Seq::<char>::empty());
    }
    assert(all_lines_ok(s16)) by {
        if is_port_type(c.tunnel_type) {
            lemma_kv_line_ok("remote_port"@, dec_digits(c.remote_port->Some_0 as int));
        } else {
            lemma_kv_line_ok("custom_domains"@, c.custom_domains->Some_0);
        }
    }
    lemma_all_ok_concat(s1, s2);
    lemma_all_ok_concat(s1 + s2, s3);
    lemma_all_ok_concat(s1 + s2 + s3, s4);
    lemma_all_ok_concat(s1 + s2 + s3 + s4, s5);
    lemma_all_ok_concat(s1 + s2 + s3 + s4 + s5, s6);
    lemma_all_ok_concat(s1 + s2 + s3 + s4 + s5 + s6, s7);
    lemma_all_ok_concat(s1 + s2 + s3 + s4 + s5 + s6 + s7, s8);
    lemma_all_ok_concat(s1 + s2 + s3 + s4 + s5 + s6 + s7 + s8, s9);
    lemma_all_ok_concat(s1 + s2 + s3 + s4 + s5 + s6 + s7 + s8 + s9, s10);
    lemma_all_ok_concat(s1 + s2 + s3 + s4 + s5 + s6 + s7 + s8 + s9 + s10, s11);
    lemma_all_ok_concat(s1 + s2 + s3 + s4 + s5 + s6 + s7 + s8 + s9 + s10 + s11, s12);
    lemma_all_ok_concat(s1 + s2 + s3 + s4 + s5 + s6 + s7 + s8 + s9 + s10 + s11 + s12, s13);
    lemma_all_ok_concat(s1 + s2 + s3 + s4 + s5 + s6 + s7 + s8 + s9 + s10 + s11 + s12 + s13, s14);
    lemma_all_ok_concat(
        s1 + s2 + s3 + s4 + s5 + s6 + s7 + s8 + s9 + s10 + s11 + s12 + s13 + s14,
        s15,
    );
    lemma_all_ok_concat(
        s1 + s2 + s3 + s4 + s5 + s6 + s7 + s8 + s9 + s10 + s11 + s12 + s13 + s14 + s15,
        s16,
    );
    assert(all_lines_ok(lines));
    lemma_split_join_term(lines);
    assert(split_lines(spec_generate(c)) == lines);
    assert(spec_parse_ini(spec_generate(c)) == st16.1);
    assert(spec_parse_ini(spec_generate(c)) == info16);
}

} // verus!
