//! The guard state machine: which tunnels are under supervision, which
//! were stopped by the user, and the synchronous reaction to fatal log
//! content that must end supervision of a tunnel.

use vstd::prelude::*;

use crate::codec::TunnelConfig;
use crate::idmap::IdMap;
use crate::idmap::IdSet;
use crate::text::chars_of;
use crate::text::contains_chars;
use crate::text::contains_seq;
use crate::text::lower_chars;
use crate::text::lower_seq;
use crate::text::string_from_chars;

verus! {

/// What the guard replays to restart a tunnel: the full request for an
/// official tunnel, or only the original identifier for a custom tunnel,
/// whose config is re-read from disk.
pub enum GuardEntry {
    Official { config: TunnelConfig },
    Custom { original_id: String },
}

impl GuardEntry {
    /// An equal copy of the payload.
    pub fn duplicate(&self) -> (r: GuardEntry)
        ensures
            r == *self,
    {
        match self {
            GuardEntry::Official { config } => GuardEntry::Official { config: config.duplicate() },
            GuardEntry::Custom { original_id } => GuardEntry::Custom {
                original_id: original_id.clone(),
            },
        }
    }
}

/// The log substrings that end supervision of a tunnel: non-retryable
/// authentication, authorization and server-side rejections.
pub open spec fn fatal_patterns() -> Seq<Seq<char>> {
    seq![
        "token in login doesn't match token from configuration"@,
        "authorization failed"@,
        "invalid token"@,
        "read: connection reset by peer"@,
        "错误的用户token，此用户不存在"@,
        "允许的隧道数量超出上限，请删除隧道或续费vip"@,
        "不属于你"@,
        "缺少用户token或隧道id参数"@,
        "您目前为免费会员"@,
        "客户端代理参数错误，配置文件与记录不匹配。请不要随意修改配置文件！"@,
        "ChmlFrp API Error"@,
    ]
}

/// Case-insensitive (ASCII folding) substring match of a pattern in a
/// message.
pub open spec fn matches_pattern(msg: Seq<char>, p: Seq<char>) -> bool {
    contains_seq(lower_seq(msg), lower_seq(p))
}

/// The first fatal pattern, from index `i` on, that the message matches.
pub open spec fn first_fatal_from(msg: Seq<char>, i: int) -> Option<Seq<char>>
    decreases fatal_patterns().len() - i,
{
    if i < 0 || i >= fatal_patterns().len() {
        None
    } else if matches_pattern(msg, fatal_patterns()[i]) {
        Some(fatal_patterns()[i])
    } else {
        first_fatal_from(msg, i + 1)
    }
}

/// The first fatal pattern that the message matches, if any.
pub open spec fn spec_fatal_match(msg: Seq<char>) -> Option<Seq<char>> {
    first_fatal_from(msg, 0)
}

/// Checks a log line against the fatal pattern list, returning the first
/// pattern it contains, matched case-insensitively.
pub fn should_stop_guard_by_log(message: &str) -> (r: Option<String>)
    ensures
        match r {
            Some(p) => spec_fatal_match(message@) == Some(p@),
            None => spec_fatal_match(message@) is None,
        },
{
    let pats: Vec<&str> = vec![
        "token in login doesn't match token from configuration",
        "authorization failed",
        "invalid token",
        "read: connection reset by peer",
        "错误的用户token，此用户不存在",
        "允许的隧道数量超出上限，请删除隧道或续费vip",
        "不属于你",
        "缺少用户token或隧道id参数",
        "您目前为免费会员",
        "客户端代理参数错误，配置文件与记录不匹配。请不要随意修改配置文件！",
        "ChmlFrp API Error",
    ];
    proof {
        assert(pats@.len() == fatal_patterns().len());
        assert(forall|i: int| 0 <= i < pats@.len() ==> (#[trigger] pats@[i])@ == fatal_patterns()[i]);
    }
    let msg = chars_of(message);
    let msg_lower = lower_chars(&msg);
    let mut i: usize = 0;
    while i < pats.len()
        invariant
            i <= pats@.len(),
            pats@.len() == fatal_patterns().len(),
            forall|j: int| 0 <= j < pats@.len() ==> (#[trigger] pats@[j])@ == fatal_patterns()[j],
            msg_lower@ == lower_seq(message@),
            first_fatal_from(message@, 0) == first_fatal_from(message@, i as int),
        decreases pats@.len() - i,
    {
        let p = chars_of(pats[i]);
        let p_lower = lower_chars(&p);
        if contains_chars(&msg_lower, &p_lower) {
            proof {
                assert(matches_pattern(message@, fatal_patterns()[i as int]));
                assert(first_fatal_from(message@, i as int) == Some(
                    fatal_patterns()[i as int],
                ));
            }
            return Some(string_from_chars(&p));
        }
        proof {
            assert(!matches_pattern(message@, fatal_patterns()[i as int]));
        }
        i = i + 1;
    }
    None
}

proof fn lemma_first_fatal_exists(msg: Seq<char>, i: int)
    requires
        0 <= i <= fatal_patterns().len(),
    ensures
        first_fatal_from(msg, i) is Some <==> exists|j: int|
            i <= j < fatal_patterns().len() && matches_pattern(msg, #[trigger] fatal_patterns()[j]),
    decreases fatal_patterns().len() - i,
{
    if i < fatal_patterns().len() {
        lemma_first_fatal_exists(msg, i + 1);
        if matches_pattern(msg, fatal_patterns()[i]) {
        } else if first_fatal_from(msg, i) is Some {
            let j = choose|j: int|
                i + 1 <= j < fatal_patterns().len() && matches_pattern(
                    msg,
                    #[trigger] fatal_patterns()[j],
                );
            assert(matches_pattern(msg, fatal_patterns()[j]));
        } else {
            if exists|j: int|
                i <= j < fatal_patterns().len() && matches_pattern(
                    msg,
                    #[trigger] fatal_patterns()[j],
                ) {
                let j = choose|j: int|
                    i <= j < fatal_patterns().len() && matches_pattern(
                        msg,
                        #[trigger] fatal_patterns()[j],
                    );
                assert(j >= i + 1);
                assert(false);
            }
        }
    }
}

/// A log line ends supervision exactly when it matches some pattern of
/// the fatal list, case-insensitively.
pub proof fn lemma_fatal_match_exists(msg: Seq<char>)
    ensures
        spec_fatal_match(msg) is Some <==> exists|j: int|
            0 <= j < fatal_patterns().len() && matches_pattern(msg, #[trigger] fatal_patterns()[j]),
{
    lemma_first_fatal_exists(msg, 0);
}

/// The warning line pushed to the user when a fatal pattern ends
/// supervision of a tunnel.
pub open spec fn guard_warning(p: Seq<char>) -> Seq<char> {
    "[W] fatal pattern detected, supervision stopped: "@ + p
}

/// The supervision state: the global switch, the enrolled tunnels with
/// their replay payloads, and the identifiers whose last stop was
/// user-initiated.
pub struct GuardState {
    enabled: bool,
    guarded: IdMap<GuardEntry>,
    manually_stopped: IdSet,
}

impl GuardState {
    pub closed spec fn wf(&self) -> bool {
        self.guarded.wf() && self.manually_stopped.wf()
    }

    /// The global switch.
    pub closed spec fn is_enabled(&self) -> bool {
        self.enabled
    }

    /// The enrolled tunnels.
    pub closed spec fn guarded_map(&self) -> Map<i32, GuardEntry> {
        self.guarded@
    }

    /// The enrolled entries in enrollment order.
    pub closed spec fn guarded_entries(&self) -> Seq<(i32, GuardEntry)> {
        self.guarded.entries_view()
    }

    /// The identifiers whose most recent stop was user-initiated.
    pub closed spec fn stopped_set(&self) -> Set<i32> {
        self.manually_stopped@
    }

    /// A fresh guard: disabled, nothing enrolled, nothing marked stopped.
    pub fn new() -> (r: GuardState)
        ensures
            r.wf(),
            !r.is_enabled(),
            r.guarded_map() == Map::<i32, GuardEntry>::empty(),
            r.stopped_set() == Set::<i32>::empty(),
    {
        GuardState { enabled: false, guarded: IdMap::new(), manually_stopped: IdSet::new() }
    }

    /// Turns supervision on or off.  Turning it off clears every
    /// enrollment and every manual-stop mark at once.
    pub fn set_process_guard_enabled(&mut self, enabled: bool)
        requires
            old(self).wf(),
        ensures
            final(self).wf(),
            final(self).is_enabled() == enabled,
            enabled ==> final(self).guarded_map() == old(self).guarded_map()
                && final(self).stopped_set() == old(self).stopped_set()
                && final(self).guarded_entries() == old(self).guarded_entries(),
            !enabled ==> final(self).guarded_map() == Map::<i32, GuardEntry>::empty()
                && final(self).stopped_set() == Set::<i32>::empty(),
    {
        self.enabled = enabled;
        if !enabled {
            self.guarded.clear();
            self.manually_stopped.clear();
        }
    }

    /// Reads the global switch.
    pub fn get_process_guard_enabled(&self) -> (r: bool)
        ensures
            r == self.is_enabled(),
    {
        self.enabled
    }

    /// Enrolls an official tunnel with its full request for replay, and
    /// clears any manual-stop mark.  Does nothing while the guard is
    /// disabled.
    pub fn add_guarded_process(&mut self, tunnel_id: i32, config: TunnelConfig)
        requires
            old(self).wf(),
        ensures
            final(self).wf(),
            final(self).is_enabled() == old(self).is_enabled(),
            !old(self).is_enabled() ==> final(self).guarded_map() == old(self).guarded_map()
                && final(self).stopped_set() == old(self).stopped_set()
                && final(self).guarded_entries() == old(self).guarded_entries(),
            old(self).is_enabled() ==> final(self).guarded_map() == old(self).guarded_map().insert(
                tunnel_id,
                GuardEntry::Official { config },
            ) && final(self).stopped_set() == old(self).stopped_set().remove(tunnel_id),
    {
        if !self.enabled {
            return ;
        }
        self.guarded.insert(tunnel_id, GuardEntry::Official { config });
        self.manually_stopped.remove_id(tunnel_id);
    }

    /// Enrolls a custom tunnel under its hashed identifier, keeping the
    /// original identifier for replay, and clears any manual-stop mark.
    /// Does nothing while the guard is disabled.
    pub fn add_guarded_custom_tunnel(&mut self, tunnel_id_hash: i32, original_id: String)
        requires
            old(self).wf(),
        ensures
            final(self).wf(),
            final(self).is_enabled() == old(self).is_enabled(),
            !old(self).is_enabled() ==> final(self).guarded_map() == old(self).guarded_map()
                && final(self).stopped_set() == old(self).stopped_set()
                && final(self).guarded_entries() == old(self).guarded_entries(),
            old(self).is_enabled() ==> final(self).guarded_map() == old(self).guarded_map().insert(
                tunnel_id_hash,
                GuardEntry::Custom { original_id },
            ) && final(self).stopped_set() == old(self).stopped_set().remove(tunnel_id_hash),
    {
        if !self.enabled {
            return ;
        }
        self.guarded.insert(tunnel_id_hash, GuardEntry::Custom { original_id });
        self.manually_stopped.remove_id(tunnel_id_hash);
    }

    /// Removes a tunnel from supervision.  A user-initiated stop also
    /// marks the identifier manually stopped, so the watchdog leaves it
    /// alone.
    pub fn remove_guarded_process(&mut self, tunnel_id: i32, is_manual_stop: bool)
        requires
            old(self).wf(),
        ensures
            final(self).wf(),
            final(self).is_enabled() == old(self).is_enabled(),
            final(self).guarded_map() == old(self).guarded_map().remove(tunnel_id),
            is_manual_stop ==> final(self).stopped_set() == old(self).stopped_set().insert(
                tunnel_id,
            ),
            !is_manual_stop ==> final(self).stopped_set() == old(self).stopped_set(),
    {
        let _ = self.guarded.remove_id(tunnel_id);
        proof {
            if !old(self).guarded_map().contains_key(tunnel_id) {
                assert(self.guarded@ =~= old(self).guarded_map().remove(tunnel_id));
            }
        }
        if is_manual_stop {
            self.manually_stopped.insert_id(tunnel_id);
        }
    }

    /// Whether the most recent stop of `id` was user-initiated.
    pub fn is_manually_stopped(&self, id: i32) -> (r: bool)
        ensures
            r == self.stopped_set().contains(id),
    {
        self.manually_stopped.contains_id(id)
    }

    /// Whether `id` is enrolled.
    pub fn is_guarded(&self, id: i32) -> (r: bool)
        ensures
            r == self.guarded_map().contains_key(id),
    {
        self.guarded.contains_id(id)
    }

    /// The number of enrolled tunnels.
    pub fn guarded_len(&self) -> (r: usize)
        ensures
            r == self.guarded_entries().len(),
    {
        self.guarded.len()
    }

    /// The identifier of the enrollment at position `i`.
    pub fn guarded_key_at(&self, i: usize) -> (r: i32)
        requires
            i < self.guarded_entries().len(),
        ensures
            r == self.guarded_entries()[i as int].0,
    {
        self.guarded.key_at(i)
    }

    /// The replay payload of the enrollment at position `i`.
    pub fn guarded_value_at(&self, i: usize) -> (r: &GuardEntry)
        requires
            self.wf(),
            i < self.guarded_entries().len(),
        ensures
            *r == self.guarded_entries()[i as int].1,
            self.guarded_map().contains_key(self.guarded_entries()[i as int].0),
            self.guarded_map()[self.guarded_entries()[i as int].0] == *r,
    {
        self.guarded.value_at(i)
    }

    /// No identifier is enrolled twice: the enrollment list's keys are
    /// unique.
    pub proof fn lemma_entries_unique(&self)
        requires
            self.wf(),
        ensures
            crate::idmap::unique_keys(self.guarded_entries()),
    {
    }

    /// Every enrolled identifier stands in the enrollment list with its
    /// payload.
    pub proof fn lemma_guarded_entry_exists(&self, id: i32)
        requires
            self.wf(),
            self.guarded_map().contains_key(id),
        ensures
            exists|k: int|
                0 <= k < self.guarded_entries().len() && #[trigger] self.guarded_entries()[k] == (
                    id,
                    self.guarded_map()[id],
                ),
    {
        crate::idmap::lemma_idmap_view(&self.guarded);
        crate::idmap::lemma_map_of_contains(self.guarded.entries_view(), id);
        let k = choose|k: int|
            0 <= k < self.guarded.entries_view().len() && (#[trigger] self.guarded.entries_view()[
                k
            ]).0 == id;
        crate::idmap::lemma_map_of_index(self.guarded.entries_view(), k);
        assert(self.guarded_entries()[k] == (id, self.guarded_map()[id]));
    }

    /// Reacts to one log line: when it holds a fatal pattern, supervision
    /// of the tunnel ends — the enrollment is dropped, the manual-stop set
    /// is untouched, the process itself is left alone — and the warning
    /// line to show the user is returned.
    pub fn check_log_and_stop_guard(&mut self, tunnel_id: i32, log_message: &str) -> (r: Option<
        String,
    >)
        requires
            old(self).wf(),
        ensures
            final(self).wf(),
            final(self).is_enabled() == old(self).is_enabled(),
            final(self).stopped_set() == old(self).stopped_set(),
            match r {
                Some(w) => {
                    &&& spec_fatal_match(log_message@) is Some
                    &&& w@ == guard_warning(spec_fatal_match(log_message@)->Some_0)
                    &&& final(self).guarded_map() == old(self).guarded_map().remove(tunnel_id)
                },
                None => {
                    &&& spec_fatal_match(log_message@) is None
                    &&& final(self).guarded_map() == old(self).guarded_map()
                    &&& final(self).guarded_entries() == old(self).guarded_entries()
                },
            },
    {
        match should_stop_guard_by_log(log_message) {
            Some(pattern) => {
                let _ = self.guarded.remove_id(tunnel_id);
                proof {
                    if !old(self).guarded_map().contains_key(tunnel_id) {
                        assert(self.guarded@ =~= old(self).guarded_map().remove(tunnel_id));
                    }
                }
                let mut w = chars_of("[W] fatal pattern detected, supervision stopped: ");
                crate::text::push_str_chars(&mut w, pattern.as_str());
                Some(string_from_chars(&w))
            },
            None => None,
        }
    }
}

} // verus!
