//! Per-community configuration and its store.
//!
//! The store keeps at most one record per community. Reading a community
//! that has no record yields a record populated with defaults without
//! persisting anything; mutation replaces the whole record (last write
//! wins at record granularity).

use vstd::prelude::*;

use crate::json::JsonV;
use crate::json::JsonValue;

verus! {

/// The mention-limit threshold a community gets until it stores its own.
pub const DEFAULT_MAX_MENTIONS: u64 = 10;

/// One community's settings record.
pub struct CommunityConfig {
    /// The community the record belongs to.
    pub community: u64,
    /// Command-prefix override; absent means the process-wide default.
    pub prefix: Option<String>,
    /// Join announcement text; absent disables the announcement.
    pub join_msg: Option<String>,
    /// Leave announcement text; absent disables the announcement.
    pub leave_msg: Option<String>,
    /// Moderation log channel.
    pub log_mod: Option<u64>,
    /// Message log channel.
    pub log_msg: Option<u64>,
    /// Member log channel.
    pub log_member: Option<u64>,
    /// Invite-guard flag; absent means disabled.
    pub invite_guard: Option<bool>,
    /// The role granted by automated mutes.
    pub mute_role: Option<u64>,
    /// Mentions in one message above this threshold trigger enforcement.
    pub max_mention: u64,
    /// The validated role-assignment document, stored opaquely.
    pub role_config: Option<JsonValue>,
    /// The channel self-service role commands are restricted to.
    pub role_channel: Option<u64>,
}

/// The model of one settings record.
pub struct CfgV {
    pub community: u64,
    pub prefix: Option<Seq<char>>,
    pub join_msg: Option<Seq<char>>,
    pub leave_msg: Option<Seq<char>>,
    pub log_mod: Option<u64>,
    pub log_msg: Option<u64>,
    pub log_member: Option<u64>,
    pub invite_guard: Option<bool>,
    pub mute_role: Option<u64>,
    pub max_mention: u64,
    pub role_config: Option<JsonV>,
    pub role_channel: Option<u64>,
}

impl View for CommunityConfig {
    type V = CfgV;

    open spec fn view(&self) -> CfgV {
        CfgV {
            community: self.community,
            prefix: self.prefix.deep_view(),
            join_msg: self.join_msg.deep_view(),
            leave_msg: self.leave_msg.deep_view(),
            log_mod: self.log_mod,
            log_msg: self.log_msg,
            log_member: self.log_member,
            invite_guard: self.invite_guard,
            mute_role: self.mute_role,
            max_mention: self.max_mention,
            role_config: self.role_config.deep_view(),
            role_channel: self.role_channel,
        }
    }
}

/// The record a community without a stored one is given.
pub open spec fn default_cfg(community: u64) -> CfgV {
    CfgV {
        community: community,
        prefix: None,
        join_msg: None,
        leave_msg: None,
        log_mod: None,
        log_msg: None,
        log_member: None,
        invite_guard: None,
        mute_role: None,
        max_mention: DEFAULT_MAX_MENTIONS,
        role_config: None,
        role_channel: None,
    }
}

impl CommunityConfig {
    /// A default-initialized record for the community.
    pub fn new_default(community: u64) -> (r: CommunityConfig)
        ensures
            r@ == default_cfg(community),
    {
        CommunityConfig {
            community,
            prefix: None,
            join_msg: None,
            leave_msg: None,
            log_mod: None,
            log_msg: None,
            log_member: None,
            invite_guard: None,
            mute_role: None,
            max_mention: DEFAULT_MAX_MENTIONS,
            role_config: None,
            role_channel: None,
        }
    }
}

pub(crate) fn clone_opt_string(s: &Option<String>) -> (r: Option<String>)
    ensures
        r.deep_view() == s.deep_view(),
{
    match s {
        Some(x) => Some(x.clone()),
        None => None,
    }
}

fn clone_opt_json(v: &Option<JsonValue>) -> (r: Option<JsonValue>)
    ensures
        r.deep_view() == v.deep_view(),
{
    match v {
        Some(x) => Some(x.clone()),
        None => None,
    }
}

impl Clone for CommunityConfig {
    /// A clone has the same model as the original.
    fn clone(&self) -> (res: Self)
        ensures
            res@ == self@,
    {
        CommunityConfig {
            community: self.community,
            prefix: clone_opt_string(&self.prefix),
            join_msg: clone_opt_string(&self.join_msg),
            leave_msg: clone_opt_string(&self.leave_msg),
            log_mod: self.log_mod,
            log_msg: self.log_msg,
            log_member: self.log_member,
            invite_guard: self.invite_guard,
            mute_role: self.mute_role,
            max_mention: self.max_mention,
            role_config: clone_opt_json(&self.role_config),
            role_channel: self.role_channel,
        }
    }
}

/// Durable storage of settings records, one per community.
pub struct ConfigStore {
    records: Vec<CommunityConfig>,
}

impl ConfigStore {
    /// At most one record is kept per community.
    pub closed spec fn wf(self) -> bool {
        forall|i: int, j: int|
            0 <= i < j < self.records.len() ==> (#[trigger] self.records[i]).community != (
            #[trigger] self.records[j]).community
    }

    /// Whether a record is stored for the community.
    pub closed spec fn spec_contains(self, community: u64) -> bool {
        exists|i: int|
            0 <= i < self.records.len() && (#[trigger] self.records[i]).community == community
    }

    spec fn idx_of(self, community: u64) -> int {
        choose|i: int|
            0 <= i < self.records.len() && (#[trigger] self.records[i]).community == community
    }

    /// The model of the record stored for the community (meaningful only
    /// when one is stored).
    pub closed spec fn stored_at(self, community: u64) -> CfgV {
        self.records[self.idx_of(community)]@
    }

    /// The record the community reads: the stored one, or defaults when none
    /// is stored.
    pub open spec fn spec_config(self, community: u64) -> CfgV {
        if self.spec_contains(community) {
            self.stored_at(community)
        } else {
            default_cfg(community)
        }
    }

    /// Every community not named reads the same record as before.
    pub open spec fn others_unchanged(pre: ConfigStore, post: ConfigStore, community: u64) -> bool {
        forall|c: u64|
            c != community ==> #[trigger] post.spec_contains(c) == pre.spec_contains(c)
                && post.spec_config(c) == pre.spec_config(c)
    }

    proof fn lemma_idx(self, i: int)
        requires
            self.wf(),
            0 <= i < self.records.len(),
        ensures
            self.spec_contains(self.records[i].community),
            self.idx_of(self.records[i].community) == i,
    {
        let c = self.records[i].community;
        assert(self.spec_contains(c));
        let j = self.idx_of(c);
        if i < j {
            assert(self.records[i].community != self.records[j].community);
        } else if j < i {
            assert(self.records[j].community != self.records[i].community);
        }
    }

    /// An empty store: no community has a record.
    pub fn new() -> (r: ConfigStore)
        ensures
            r.wf(),
            forall|c: u64| !r.spec_contains(c),
    {
        ConfigStore { records: Vec::new() }
    }

    /// The index of the community's record, if one is stored.
    #[verifier::loop_isolation(false)]
    fn find(&self, community: u64) -> (r: Option<usize>)
        requires
            self.wf(),
        ensures
            match r {
                Some(i) => i < self.records.len() && self.records[i as int].community == community
                    && self.spec_contains(community) && self.idx_of(community) == i,
                None => !self.spec_contains(community),
            },
    {
        let mut i: usize = 0;
        while i < self.records.len()
            invariant
                i <= self.records.len(),
                forall|j: int| 0 <= j < i ==> (#[trigger] self.records[j]).community != community,
            decreases self.records.len() - i,
        {
            if self.records[i].community == community {
                proof {
                    self.lemma_idx(i as int);
                }
                return Some(i);
            }
            i += 1;
        }
        None
    }

    /// Whether the community has a stored record; reading a community with
    /// `get_config` never creates one.
    pub fn has_record(&self, community: u64) -> (r: bool)
        requires
            self.wf(),
        ensures
            r == self.spec_contains(community),
    {
        self.find(community).is_some()
    }

    /// The community's stored prefix override, or nothing when unset; the
    /// caller falls back to the process-wide default.
    pub fn get_prefix(&self, community: u64) -> (r: Option<String>)
        requires
            self.wf(),
        ensures
            r.deep_view() == self.spec_config(community).prefix,
    {
        match self.find(community) {
            Some(i) => clone_opt_string(&self.records[i].prefix),
            None => None,
        }
    }

    /// The community's record: the stored one, or defaults when none is
    /// stored. Never fails and never persists the default.
    pub fn get_config(&self, community: u64) -> (r: CommunityConfig)
        requires
            self.wf(),
        ensures
            r@ == self.spec_config(community),
    {
        match self.find(community) {
            Some(i) => self.records[i].clone(),
            None => CommunityConfig::new_default(community),
        }
    }

    /// Upserts the whole record, keyed by its community; replaces any stored
    /// record for that community and touches no other community's record.
    pub fn save_config(&mut self, cfg: &CommunityConfig)
        requires
            old(self).wf(),
        ensures
            final(self).wf(),
            final(self).spec_contains(cfg.community),
            final(self).spec_config(cfg.community) == cfg@,
            ConfigStore::others_unchanged(*old(self), *final(self), cfg.community),
    {
        let c = cfg.community;
        match self.find(c) {
            Some(i) => {
                self.records.set(i, cfg.clone());
            },
            None => {
                self.records.push(cfg.clone());
            },
        }
        proof {
            self.lemma_after_write(*old(self), c, cfg@);
        }
    }

    /// After one record for `community` was written (replaced in place or
    /// appended), the store is well formed, reads back that record, and no
    /// other community's view changed.
    proof fn lemma_after_write(self, pre: ConfigStore, community: u64, v: CfgV)
        requires
            pre.wf(),
            self.records.len() >= 1,
            v.community == community,
            // the written store: either an in-place replacement or an append
            (self.records@ == pre.records@.update(pre.idx_of(community) as int,
                self.records[pre.idx_of(community) as int]) && pre.spec_contains(community)
                && self.records[pre.idx_of(community) as int]@ == v && self.records[pre.idx_of(
                community,
            ) as int].community == community) || (self.records@ == pre.records@.push(
                self.records[self.records.len() - 1]) && !pre.spec_contains(community)
                && self.records[self.records.len() - 1]@ == v && self.records[self.records.len()
                - 1].community == community),
        ensures
            self.wf(),
            self.spec_contains(community),
            self.spec_config(community) == v,
            ConfigStore::others_unchanged(pre, self, community),
    {
        assert forall|i: int, j: int| 0 <= i < j < self.records.len() implies (
        #[trigger] self.records[i]).community != (#[trigger] self.records[j]).community by {
            if pre.spec_contains(community) {
                let k = pre.idx_of(community);
                assert(pre.records[k].community == community);
                assert(forall|m: int|
                    0 <= m < pre.records.len() && m != k ==> (#[trigger] pre.records[m]).community
                        != community) by {
                    assert forall|m: int|
                        0 <= m < pre.records.len() && m != k implies (
                    #[trigger] pre.records[m]).community != community by {
                        if pre.records[m].community == community {
                            pre.lemma_idx(m);
                        }
                    }
                }
            } else {
                assert(forall|m: int|
                    0 <= m < pre.records.len() ==> (#[trigger] pre.records[m]).community
                        != community);
            }
        }
        let n = self.idx_of(community);
        if pre.spec_contains(community) {
            let k = pre.idx_of(community);
            self.lemma_idx(k);
        } else {
            self.lemma_idx(self.records.len() - 1);
        }
        assert(self.spec_config(community) == v);
        assert forall|c: u64| c != community implies #[trigger] self.spec_contains(c)
            == pre.spec_contains(c) && self.spec_config(c) == pre.spec_config(c) by {
            let k: int = if pre.spec_contains(community) {
                pre.idx_of(community)
            } else {
                pre.records.len() as int
            };
            if pre.spec_contains(c) {
                let m = pre.idx_of(c);
                assert(pre.records[m].community == c);
                assert(self.records[m].community == c);
                self.lemma_idx(m);
                assert(self.spec_config(c) == pre.spec_config(c));
            }
            if self.spec_contains(c) {
                let m = self.idx_of(c);
                assert(self.records[m].community == c);
                assert(m != k);
                assert(pre.records[m].community == c);
                pre.lemma_idx(m);
            }
        }
    }

    /// Persists a prefix override through a read-modify-write of the whole
    /// record. Returns `true` exactly when the community had no prefix
    /// stored before this call (a fresh set rather than an overwrite).
    pub fn set_prefix(&mut self, community: u64, prefix: &str) -> (fresh: bool)
        requires
            old(self).wf(),
        ensures
            final(self).wf(),
            fresh == (old(self).spec_config(community).prefix is None),
            final(self).spec_contains(community),
            final(self).spec_config(community) == (CfgV {
                prefix: Some(prefix@),
                ..old(self).spec_config(community)
            }),
            ConfigStore::others_unchanged(*old(self), *final(self), community),
    {
        let mut cfg = self.get_config(community);
        let fresh = cfg.prefix.is_none();
        cfg.prefix = Some(prefix.to_owned());
        self.save_config(&cfg);
        fresh
    }
}

} // verus!
