//! Tunnel identifiers and on-disk names.  A custom tunnel's numeric
//! identifier is derived from its name by a deterministic string hash;
//! official and custom tunnels use distinct config file name prefixes so
//! the two kinds never collide on disk.

use std::hash::Hash;
use std::hash::Hasher;

use vstd::prelude::*;

use crate::text::dec_i32;
use crate::text::i32_to_chars;
use crate::text::string_from_chars;

verus! {

/// The 64-bit hash that the standard library's default hasher gives a
/// string slice.
pub uninterp spec fn hash64_of(s: Seq<char>) -> u64;

/// Relies on `std::collections::hash_map::DefaultHasher`: instances made
/// by `new` all hash alike, so for a fixed standard library the hash of a
/// string is a function of its characters alone.  Hashes `s` and returns
/// the 64-bit result.
#[verifier::external_body]
fn hash_str(s: &str) -> (r: u64)
    ensures
        r == hash64_of(s@),
{
    let mut h = std::collections::hash_map::DefaultHasher::new();
    s.hash(&mut h);
    h.finish()
}

/// The derived identifier: the string hash truncated to 32 bits, then its
/// absolute value, kept as-is at the one value whose negation does not
/// fit.
pub open spec fn spec_string_to_i32(s: Seq<char>) -> i32 {
    let t = hash64_of(s) as i32;
    if t == i32::MIN {
        t
    } else if t < 0 {
        (-(t as int)) as i32
    } else {
        t
    }
}

/// Hashes a string to a non-negative 32-bit identifier (except at the one
/// truncation value whose negation does not fit).
pub fn string_to_i32(s: &str) -> (r: i32)
    ensures
        r == spec_string_to_i32(s@),
{
    let h = hash_str(s);
    let t = h as i32;
    if t == i32::MIN {
        t
    } else if t < 0 {
        -t
    } else {
        t
    }
}

/// The derived identifier of a custom tunnel: the hash of its prefixed
/// name.
pub open spec fn spec_custom_tunnel_hash(tunnel_id: Seq<char>) -> i32 {
    spec_string_to_i32("custom_"@ + tunnel_id)
}

/// Derives the numeric identifier of a custom tunnel from its name.
pub fn get_custom_tunnel_hash(tunnel_id: &str) -> (r: i32)
    ensures
        r == spec_custom_tunnel_hash(tunnel_id@),
{
    let mut s = String::from_str("custom_");
    s.append(tunnel_id);
    string_to_i32(s.as_str())
}

/// The config file name of a custom tunnel.
pub fn get_config_file_name(tunnel_id: &str) -> (r: String)
    ensures
        r@ == "z_"@ + tunnel_id@ + ".ini"@,
{
    let mut s = String::from_str("z_");
    s.append(tunnel_id);
    s.append(".ini");
    s
}

/// The config file name of an official tunnel.
pub open spec fn spec_official_config_file_name(tunnel_id: int) -> Seq<char> {
    "g_"@ + dec_i32(tunnel_id) + ".ini"@
}

/// The config file name of an official tunnel, `g_<id>.ini`.
pub fn official_config_file_name(tunnel_id: i32) -> (r: String)
    ensures
        r@ == spec_official_config_file_name(tunnel_id as int),
{
    let digits = i32_to_chars(tunnel_id);
    let mut s = String::from_str("g_");
    s.append(string_from_chars(&digits).as_str());
    s.append(".ini");
    proof {
        assert(s@ =~= "g_"@ + dec_i32(tunnel_id as int) + ".ini"@);
    }
    s
}

/// The file name of the tunnel client binary for the platform.
pub fn get_frpc_path(windows: bool) -> (r: String)
    ensures
        windows ==> r@ == "frpc.exe"@,
        !windows ==> r@ == "frpc"@,
{
    if windows {
        String::from_str("frpc.exe")
    } else {
        String::from_str("frpc")
    }
}

/// Whether a file name is an official tunnel's config file, `g_*.ini`,
/// which is cleaned up at startup.
pub open spec fn spec_is_official_config_file(n: Seq<char>) -> bool {
    n.len() >= 2 && n.subrange(0, 2) == "g_"@ && n.len() >= 4 && n.subrange(
        n.len() - 4,
        n.len() as int,
    ) == ".ini"@
}

/// Checks whether a file name belongs to an official tunnel's config.
pub fn is_official_config_file(name: &str) -> (r: bool)
    ensures
        r == spec_is_official_config_file(name@),
{
    let v = crate::text::chars_of(name);
    if v.len() < 4 {
        proof {
            reveal_strlit("g_");
            reveal_strlit(".ini");
        }
        return false;
    }
    let prefix = crate::text::sub_vec(&v, 0, 2);
    let suffix = crate::text::sub_vec(&v, v.len() - 4, v.len());
    let ok = crate::text::chars_eq(&prefix, &crate::text::chars_of("g_")) && crate::text::chars_eq(
        &suffix,
        &crate::text::chars_of(".ini"),
    );
    proof {
        assert(prefix@ == name@.subrange(0, 2));
        assert(suffix@ == name@.subrange(name@.len() - 4, name@.len() as int));
    }
    ok
}

} // verus!
