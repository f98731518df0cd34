//! Custom tunnel records: the denormalized index entries kept in the
//! tunnel list file.  The per-tunnel config file on disk is the source of
//! truth; a record is rebuilt from its parsed summary on every read.

use vstd::prelude::*;

use crate::codec::IniParsedInfo;
use crate::codec::opt_view;
use crate::ids::get_config_file_name;
use crate::ids::get_custom_tunnel_hash;
use crate::ids::spec_custom_tunnel_hash;
use crate::text::spec_trim;
use crate::text::trim_chars;

verus! {

/// One custom tunnel's index entry.
pub struct CustomTunnel {
    pub id: String,
    pub name: String,
    pub config_file: String,
    pub server_addr: Option<String>,
    pub server_port: Option<u16>,
    pub tunnels: Vec<String>,
    pub tunnel_type: Option<String>,
    pub custom_domains: Option<String>,
    pub subdomain: Option<String>,
    pub local_ip: Option<String>,
    pub local_port: Option<u16>,
    pub remote_port: Option<u16>,
    pub created_at: String,
    pub hashed_id: Option<i32>,
}

fn clone_opt_string(o: &Option<String>) -> (r: Option<String>)
    ensures
        r == *o,
{
    match o {
        Some(s) => Some(s.clone()),
        None => None,
    }
}

fn clone_string_vec(v: &Vec<String>) -> (r: Vec<String>)
    ensures
        r@ == v@,
{
    let mut r: Vec<String> = Vec::new();
    let mut i: usize = 0;
    while i < v.len()
        invariant
            i <= v@.len(),
            r@ == v@.take(i as int),
        decreases v@.len() - i,
    {
        r.push(v[i].clone());
        i = i + 1;
        proof {
            assert(r@ =~= v@.take(i as int));
        }
    }
    proof {
        assert(r@ =~= v@);
    }
    r
}

/// Relies on chrono's `Local::now` and `to_rfc3339`: the creation time
/// rendered as an RFC 3339 string.  Nothing is promised of the clock's
/// value.
#[verifier::external_body]
fn current_rfc3339() -> String {
    chrono::Local::now().to_rfc3339()
}

/// Builds the index entry of a custom tunnel from its name and the
/// parsed summary of its config document.  The creation time is read
/// from the clock and left unconstrained.
pub fn build_custom_tunnel(tunnel_name: &str, parsed: &IniParsedInfo) -> (r: CustomTunnel)
    ensures
        r.id@ == tunnel_name@,
        r.name@ == tunnel_name@,
        r.config_file@ == "z_"@ + tunnel_name@ + ".ini"@,
        r.server_addr == parsed.server_addr,
        r.server_port == parsed.server_port,
        r.tunnels@ == parsed.tunnel_names@,
        r.tunnel_type == parsed.tunnel_type,
        r.custom_domains == parsed.custom_domains,
        r.subdomain == parsed.subdomain,
        r.local_ip == parsed.local_ip,
        r.local_port == parsed.local_port,
        r.remote_port == parsed.remote_port,
        r.hashed_id == Some(spec_custom_tunnel_hash(tunnel_name@)),
{
    CustomTunnel {
        id: String::from_str(tunnel_name),
        name: String::from_str(tunnel_name),
        config_file: get_config_file_name(tunnel_name),
        server_addr: clone_opt_string(&parsed.server_addr),
        server_port: parsed.server_port,
        tunnels: clone_string_vec(&parsed.tunnel_names),
        tunnel_type: clone_opt_string(&parsed.tunnel_type),
        custom_domains: clone_opt_string(&parsed.custom_domains),
        subdomain: clone_opt_string(&parsed.subdomain),
        local_ip: clone_opt_string(&parsed.local_ip),
        local_port: parsed.local_port,
        remote_port: parsed.remote_port,
        created_at: current_rfc3339(),
        hashed_id: Some(get_custom_tunnel_hash(tunnel_name)),
    }
}

/// Refreshes an index entry from the parsed summary of its config file:
/// a field present in the summary wins, an absent one keeps the stored
/// value; the sub-tunnel list is replaced when the summary found any;
/// the hashed identifier is re-derived from the stored identifier.
pub fn refresh_custom_tunnel(t: &mut CustomTunnel, parsed: &IniParsedInfo)
    ensures
        final(t).id == old(t).id,
        final(t).name == old(t).name,
        final(t).config_file == old(t).config_file,
        final(t).created_at == old(t).created_at,
        final(t).server_addr == (if parsed.server_addr is Some {
            parsed.server_addr
        } else {
            old(t).server_addr
        }),
        final(t).server_port == (if parsed.server_port is Some {
            parsed.server_port
        } else {
            old(t).server_port
        }),
        final(t).tunnels@ == (if parsed.tunnel_names@.len() > 0 {
            parsed.tunnel_names@
        } else {
            old(t).tunnels@
        }),
        final(t).tunnel_type == (if parsed.tunnel_type is Some {
            parsed.tunnel_type
        } else {
            old(t).tunnel_type
        }),
        final(t).custom_domains == (if parsed.custom_domains is Some {
            parsed.custom_domains
        } else {
            old(t).custom_domains
        }),
        final(t).subdomain == (if parsed.subdomain is Some {
            parsed.subdomain
        } else {
            old(t).subdomain
        }),
        final(t).local_ip == (if parsed.local_ip is Some {
            parsed.local_ip
        } else {
            old(t).local_ip
        }),
        final(t).local_port == (if parsed.local_port is Some {
            parsed.local_port
        } else {
            old(t).local_port
        }),
        final(t).remote_port == (if parsed.remote_port is Some {
            parsed.remote_port
        } else {
            old(t).remote_port
        }),
        final(t).hashed_id == Some(spec_custom_tunnel_hash(old(t).id@)),
{
    if parsed.server_addr.is_some() {
        t.server_addr = clone_opt_string(&parsed.server_addr);
    }
    if parsed.server_port.is_some() {
        t.server_port = parsed.server_port;
    }
    if parsed.tunnel_names.len() > 0 {
        t.tunnels = clone_string_vec(&parsed.tunnel_names);
    }
    if parsed.tunnel_type.is_some() {
        t.tunnel_type = clone_opt_string(&parsed.tunnel_type);
    }
    if parsed.custom_domains.is_some() {
        t.custom_domains = clone_opt_string(&parsed.custom_domains);
    }
    if parsed.subdomain.is_some() {
        t.subdomain = clone_opt_string(&parsed.subdomain);
    }
    if parsed.local_ip.is_some() {
        t.local_ip = clone_opt_string(&parsed.local_ip);
    }
    if parsed.local_port.is_some() {
        t.local_port = parsed.local_port;
    }
    if parsed.remote_port.is_some() {
        t.remote_port = parsed.remote_port;
    }
    t.hashed_id = Some(get_custom_tunnel_hash(t.id.as_str()));
}

/// The first position in the list whose entry has this identifier, or
/// `-1` when absent.
pub open spec fn first_tunnel_index(s: Seq<CustomTunnel>, id: Seq<char>) -> int
    decreases s.len(),
{
    if s.len() == 0 {
        -1
    } else if s[0].id@ == id {
        0
    } else if first_tunnel_index(s.drop_first(), id) < 0 {
        -1
    } else {
        1 + first_tunnel_index(s.drop_first(), id)
    }
}

/// Writes an entry into the list: the first entry with the same
/// identifier is replaced, otherwise the entry is appended.
pub fn upsert_tunnel_list(list: &mut Vec<CustomTunnel>, t: CustomTunnel)
    ensures
        ({
            let idx = first_tunnel_index(old(list)@, t.id@);
            &&& (idx >= 0 ==> final(list)@ == old(list)@.update(idx, t))
            &&& (idx < 0 ==> final(list)@ == old(list)@.push(t))
        }),
{
    let ghost orig = list@;
    let mut i: usize = 0;
    while i < list.len()
        invariant
            orig == old(list)@,
            list@ == orig,
            i <= orig.len(),
            forall|j: int| 0 <= j < i ==> orig[j].id@ != t.id@,
        decreases orig.len() - i,
    {
        let same = list[i].id == t.id;
        if same {
            proof {
                lemma_first_tunnel_index_at(orig, t.id@, i as int);
            }
            let ghost tv = t;
            let _ = list.remove(i);
            list.insert(i, t);
            proof {
                assert(list@ =~= orig.update(i as int, tv));
            }
            return ;
        }
        i = i + 1;
    }
    proof {
        lemma_first_tunnel_index_none(orig, t.id@);
    }
    list.push(t);
}

proof fn lemma_first_tunnel_index_at(s: Seq<CustomTunnel>, id: Seq<char>, j: int)
    requires
        0 <= j < s.len(),
        s[j].id@ == id,
        forall|i: int| 0 <= i < j ==> s[i].id@ != id,
    ensures
        first_tunnel_index(s, id) == j,
    decreases j,
{
    if j > 0 {
        assert(forall|i: int| 0 <= i < j - 1 ==> s.drop_first()[i] == s[i + 1]);
        lemma_first_tunnel_index_at(s.drop_first(), id, j - 1);
    }
}

proof fn lemma_first_tunnel_index_none(s: Seq<CustomTunnel>, id: Seq<char>)
    requires
        forall|i: int| 0 <= i < s.len() ==> s[i].id@ != id,
    ensures
        first_tunnel_index(s, id) == -1,
    decreases s.len(),
{
    if s.len() > 0 {
        assert(forall|i: int| 0 <= i < s.drop_first().len() ==> s.drop_first()[i] == s[i + 1]);
        lemma_first_tunnel_index_none(s.drop_first(), id);
    }
}

/// The predicate that keeps an entry when removing identifier `id`.
pub open spec fn keeps_id(id: Seq<char>) -> spec_fn(CustomTunnel) -> bool {
    |t: CustomTunnel| t.id@ != id
}

/// Removes every entry with this identifier from the list, keeping the
/// order of the rest.
pub fn remove_tunnel_from_list(list: &mut Vec<CustomTunnel>, id: &str)
    ensures
        final(list)@ == old(list)@.filter(keeps_id(id@)),
{
    let ghost orig = list@;
    proof {
        reveal(Seq::filter);
        assert(orig.take(0).filter(keeps_id(id@)) =~= Seq::<CustomTunnel>::empty());
        assert(orig.skip(0) =~= orig);
    }
    let mut i: usize = 0;
    let ghost j: int = 0;
    while i < list.len()
        invariant
            orig == old(list)@,
            0 <= j <= orig.len(),
            i == orig.take(j).filter(keeps_id(id@)).len(),
            list@ == orig.take(j).filter(keeps_id(id@)) + orig.skip(j),
            i <= list@.len(),
        decreases orig.len() - j,
    {
        proof {
            reveal(Seq::filter);
            if j == orig.len() {
                assert(orig.skip(j) =~= Seq::<CustomTunnel>::empty());
                assert(list@ =~= orig.take(j).filter(keeps_id(id@)));
                assert(false);
            }
        }
        let ghost x = orig[j];
        proof {
            assert(orig.skip(j)[0] == orig[j]);
            assert(list@[i as int] == x);
            assert(orig.take(j + 1).drop_last() =~= orig.take(j));
            assert(orig.take(j + 1).last() == x);
        }
        let keep = !crate::text::str_eq(list[i].id.as_str(), id);
        proof {
            assert(keep == keeps_id(id@)(x));
        }
        if keep {
            i = i + 1;
            proof {
                reveal(Seq::filter);
                assert(orig.take(j + 1).filter(keeps_id(id@)) == orig.take(j).filter(
                    keeps_id(id@),
                ).push(x));
                assert(orig.take(j).filter(keeps_id(id@)).push(x) + orig.skip(j + 1) =~= orig.take(
                    j,
                ).filter(keeps_id(id@)) + orig.skip(j));
            }
        } else {
            let _ = list.remove(i);
            proof {
                reveal(Seq::filter);
                assert(orig.take(j + 1).filter(keeps_id(id@)) == orig.take(j).filter(
                    keeps_id(id@),
                ));
                assert(list@ =~= orig.take(j).filter(keeps_id(id@)) + orig.skip(j + 1));
            }
        }
        proof {
            j = j + 1;
        }
    }
    proof {
        assert(j == orig.len());
        assert(orig.take(j) =~= orig);
        assert(orig.skip(j) =~= Seq::<CustomTunnel>::empty());
        assert(list@ =~= orig.filter(keeps_id(id@)));
    }
}

/// The stored creation time of the entry with this identifier, if any:
/// an update keeps the original creation time.
pub fn created_at_for(list: &Vec<CustomTunnel>, id: &str) -> (r: Option<String>)
    ensures
        match r {
            Some(c) => first_tunnel_index(list@, id@) >= 0 && c == list@[first_tunnel_index(
                list@,
                id@,
            )].created_at,
            None => first_tunnel_index(list@, id@) == -1,
        },
{
    let mut i: usize = 0;
    while i < list.len()
        invariant
            i <= list@.len(),
            forall|j: int| 0 <= j < i ==> list@[j].id@ != id@,
        decreases list@.len() - i,
    {
        if crate::text::str_eq(list[i].id.as_str(), id) {
            proof {
                lemma_first_tunnel_index_at(list@, id@, i as int);
            }
            return Some(list[i].created_at.clone());
        }
        i = i + 1;
    }
    proof {
        lemma_first_tunnel_index_none(list@, id@);
    }
    None
}

/// Composes the single-tunnel document for one block: the shared common
/// block, a blank line, then the tunnel block — or the block alone when
/// the common block is empty.
pub fn single_tunnel_document(common: &str, block: &str) -> (r: String)
    ensures
        spec_trim(common@).len() == 0 ==> r@ == block@,
        spec_trim(common@).len() > 0 ==> r@ == common@ + "\n\n"@ + block@,
{
    let cv = crate::text::chars_of(common);
    let trimmed = trim_chars(&cv);
    if trimmed.len() == 0 {
        String::from_str(block)
    } else {
        let mut out = String::from_str(common);
        out.append("\n\n");
        out.append(block);
        out
    }
}

} // verus!
