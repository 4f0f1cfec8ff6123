//! The moderation ledger: an append-mostly log of moderation cases, with
//! per-community monotonic case numbers and a pending-to-final lifecycle.
//!
//! Case numbers start at 1 within each community, grow by exactly one per
//! allocation, and are never reused — not even when a case is erased to
//! compensate a failed external action. Allocation is linearizable: every
//! operation takes the ledger by exclusive reference, so two triggers for
//! the same community can never be handed the same number.

use vstd::prelude::*;

use crate::config::clone_opt_string;

verus! {

/// The kind of moderation action a case records.
#[derive(Clone, Copy, PartialEq, Eq, Structural, Debug)]
pub enum ActionKind {
    Mute,
    Kick,
    Ban,
    Warn,
}

/// One recorded moderation action.
pub struct ModCase {
    /// The community the case belongs to.
    pub community: u64,
    /// The community-scoped sequential identifier.
    pub case_num: u64,
    /// What was done.
    pub action: ActionKind,
    /// The user the action was taken against.
    pub target: u64,
    /// Free-form reason text.
    pub reason: Option<String>,
    /// Who acted; absent means the system itself acted.
    pub executor: Option<u64>,
    /// Whether the external side effect is still unconfirmed.
    pub pending: bool,
}

/// The model of one case.
pub struct CaseV {
    pub community: u64,
    pub case_num: u64,
    pub action: ActionKind,
    pub target: u64,
    pub reason: Option<Seq<char>>,
    pub executor: Option<u64>,
    pub pending: bool,
}

impl View for ModCase {
    type V = CaseV;

    open spec fn view(&self) -> CaseV {
        CaseV {
            community: self.community,
            case_num: self.case_num,
            action: self.action,
            target: self.target,
            reason: self.reason.deep_view(),
            executor: self.executor,
            pending: self.pending,
        }
    }
}

impl Clone for ModCase {
    /// A clone has the same model as the original.
    fn clone(&self) -> (res: Self)
        ensures
            res@ == self@,
    {
        ModCase {
            community: self.community,
            case_num: self.case_num,
            action: self.action,
            target: self.target,
            reason: clone_opt_string(&self.reason),
            executor: self.executor,
            pending: self.pending,
        }
    }
}

/// Why a case could not be allocated.
#[derive(Clone, Copy, PartialEq, Eq, Structural, Debug)]
pub enum LedgerError {
    /// The community's case counter cannot grow any further.
    CounterExhausted,
}

spec fn ctrs_contain(cs: Vec<(u64, u64)>, community: u64) -> bool {
    exists|i: int| 0 <= i < cs.len() && (#[trigger] cs[i]).0 == community
}

spec fn ctrs_idx(cs: Vec<(u64, u64)>, community: u64) -> int {
    choose|i: int| 0 <= i < cs.len() && (#[trigger] cs[i]).0 == community
}

/// The models of a log of cases.
pub open spec fn cases_view(s: Seq<ModCase>) -> Seq<CaseV> {
    s.map_values(|c: ModCase| c@)
}

proof fn lemma_cases_view_push(s: Seq<ModCase>, c: ModCase)
    ensures
        cases_view(s.push(c)) == cases_view(s).push(c@),
{
    assert(cases_view(s.push(c)) =~= cases_view(s).push(c@));
}

proof fn lemma_cases_view_remove(s: Seq<ModCase>, i: int)
    requires
        0 <= i < s.len(),
    ensures
        cases_view(s.remove(i)) == cases_view(s).remove(i),
{
    assert(cases_view(s.remove(i)) =~= cases_view(s).remove(i));
}

/// Whether a case is the one a removal names: same community, same target,
/// same case number.
pub open spec fn case_matches(c: CaseV, community: u64, target: u64, case_num: u64) -> bool {
    c.community == community && c.target == target && c.case_num == case_num
}

/// The log with every case matching the removal erased, order kept.
pub open spec fn remove_matching(
    s: Seq<CaseV>,
    community: u64,
    target: u64,
    case_num: u64,
) -> Seq<CaseV>
    decreases s.len(),
{
    if s.len() == 0 {
        s
    } else {
        let rest = remove_matching(s.drop_last(), community, target, case_num);
        if case_matches(s.last(), community, target, case_num) {
            rest
        } else {
            rest.push(s.last())
        }
    }
}

/// Law: removing a case that is not in the log changes nothing, so a repeated
/// compensation is harmless.
pub proof fn lemma_remove_matching_none(s: Seq<CaseV>, community: u64, target: u64, case_num: u64)
    requires
        forall|i: int| 0 <= i < s.len() ==> !case_matches(#[trigger] s[i], community, target,
            case_num),
    ensures
        remove_matching(s, community, target, case_num) == s,
    decreases s.len(),
{
    if s.len() > 0 {
        lemma_remove_matching_none(s.drop_last(), community, target, case_num);
        assert(s.drop_last().push(s.last()) =~= s);
    }
}

/// Law: no case matching the removal survives it.
pub proof fn lemma_remove_matching_absent(s: Seq<CaseV>, community: u64, target: u64, case_num: u64)
    ensures
        forall|i: int|
            0 <= i < remove_matching(s, community, target, case_num).len() ==> !case_matches(
                #[trigger] remove_matching(s, community, target, case_num)[i],
                community,
                target,
                case_num,
            ),
    decreases s.len(),
{
    if s.len() > 0 {
        lemma_remove_matching_absent(s.drop_last(), community, target, case_num);
        let rest = remove_matching(s.drop_last(), community, target, case_num);
        if !case_matches(s.last(), community, target, case_num) {
            assert(remove_matching(s, community, target, case_num) == rest.push(s.last()));
            assert forall|i: int|
                0 <= i < rest.push(s.last()).len() implies !case_matches(
                #[trigger] rest.push(s.last())[i],
                community,
                target,
                case_num,
            ) by {
                if i < rest.len() {
                    assert(rest.push(s.last())[i] == rest[i]);
                } else {
                    assert(rest.push(s.last())[i] == s.last());
                }
            }
        }
    }
}

/// When exactly one case matches, the removal is the deletion of that case.
proof fn lemma_remove_matching_unique(
    s: Seq<CaseV>,
    community: u64,
    target: u64,
    case_num: u64,
    k: int,
)
    requires
        0 <= k < s.len(),
        case_matches(s[k], community, target, case_num),
        forall|j: int|
            0 <= j < s.len() && j != k ==> !case_matches(#[trigger] s[j], community, target,
                case_num),
    ensures
        remove_matching(s, community, target, case_num) == s.remove(k),
    decreases s.len(),
{
    if k == s.len() - 1 {
        lemma_remove_matching_none(s.drop_last(), community, target, case_num);
        assert(s.drop_last() =~= s.remove(k));
    } else {
        lemma_remove_matching_unique(s.drop_last(), community, target, case_num, k);
        assert(s.drop_last().remove(k).push(s.last()) =~= s.remove(k));
    }
}

/// The auditable ledger of moderation cases.
pub struct ModLedger {
    /// The last case number allocated per community.
    counters: Vec<(u64, u64)>,
    /// The recorded cases, in allocation order.
    log: Vec<ModCase>,
}

impl ModLedger {
    /// The models of the recorded cases, in log order.
    pub closed spec fn cases(self) -> Seq<CaseV> {
        cases_view(self.log@)
    }

    spec fn ctr_contains(self, community: u64) -> bool {
        ctrs_contain(self.counters, community)
    }

    spec fn ctr_idx(self, community: u64) -> int {
        ctrs_idx(self.counters, community)
    }

    /// The last case number allocated for the community; 0 before the first.
    pub closed spec fn last_case(self, community: u64) -> u64 {
        if ctrs_contain(self.counters, community) {
            self.counters[ctrs_idx(self.counters, community)].1
        } else {
            0
        }
    }

    spec fn ctrs_wf(self) -> bool {
        forall|i: int, j: int|
            0 <= i < j < self.counters.len() ==> (#[trigger] self.counters[i]).0 != (
            #[trigger] self.counters[j]).0
    }

    /// Every case number is at least 1, never ahead of its community's
    /// counter, and within one community the log's numbers strictly increase.
    pub closed spec fn wf(self) -> bool {
        &&& self.ctrs_wf()
        &&& forall|i: int|
            0 <= i < self.cases().len() ==> 1 <= (#[trigger] self.cases()[i]).case_num
                <= self.last_case(self.cases()[i].community)
        &&& forall|i: int, j: int|
            0 <= i < j < self.cases().len() && (#[trigger] self.cases()[i]).community == (
            #[trigger] self.cases()[j]).community ==> self.cases()[i].case_num
                < self.cases()[j].case_num
    }

    /// Whether the ledger still holds a case with this community-scoped
    /// number.
    pub open spec fn has_case(self, community: u64, case_num: u64) -> bool {
        exists|i: int|
            0 <= i < self.cases().len() && (#[trigger] self.cases()[i]).community == community
                && self.cases()[i].case_num == case_num
    }

    proof fn lemma_ctr_idx(self, i: int)
        requires
            self.ctrs_wf(),
            0 <= i < self.counters.len(),
        ensures
            self.ctr_contains(self.counters[i].0),
            self.ctr_idx(self.counters[i].0) == i,
    {
        let c = self.counters[i].0;
        assert(self.ctr_contains(c));
        let j = self.ctr_idx(c);
        if i < j {
            assert(self.counters[i].0 != self.counters[j].0);
        } else if j < i {
            assert(self.counters[j].0 != self.counters[i].0);
        }
    }

    /// An empty ledger: no cases, every community's counter at 0.
    pub fn new() -> (r: ModLedger)
        ensures
            r.wf(),
            r.cases() == Seq::<CaseV>::empty(),
            forall|c: u64| r.last_case(c) == 0,
    {
        let r = ModLedger { counters: Vec::new(), log: Vec::new() };
        proof {
            assert(r.cases() =~= Seq::<CaseV>::empty());
        }
        r
    }

    /// The index of the community's counter, if it has one.
    #[verifier::loop_isolation(false)]
    fn ctr_find(&self, community: u64) -> (r: Option<usize>)
        requires
            self.ctrs_wf(),
        ensures
            match r {
                Some(i) => i < self.counters.len() && self.counters[i as int].0 == community
                    && self.ctr_contains(community) && self.ctr_idx(community) == i,
                None => !self.ctr_contains(community),
            },
    {
        let mut i: usize = 0;
        while i < self.counters.len()
            invariant
                i <= self.counters.len(),
                forall|j: int| 0 <= j < i ==> (#[trigger] self.counters[j]).0 != community,
            decreases self.counters.len() - i,
        {
            if self.counters[i].0 == community {
                proof {
                    self.lemma_ctr_idx(i as int);
                }
                return Some(i);
            }
            i += 1;
        }
        None
    }

    /// After one counter for `community` was written, the counters are well
    /// formed, read back the written value, and no other community's counter
    /// changed.
    proof fn lemma_ctr_after_write(self, pre: ModLedger, community: u64, v: u64)
        requires
            pre.ctrs_wf(),
            self.counters.len() >= 1,
            (self.counters@ == pre.counters@.update(pre.ctr_idx(community) as int, (community, v))
                && pre.ctr_contains(community)) || (self.counters@ == pre.counters@.push(
                (community, v),
            ) && !pre.ctr_contains(community)),
        ensures
            self.ctrs_wf(),
            self.last_case(community) == v,
            forall|c: u64| c != community ==> self.last_case(c) == pre.last_case(c),
    {
        assert forall|i: int, j: int| 0 <= i < j < self.counters.len() implies (
        #[trigger] self.counters[i]).0 != (#[trigger] self.counters[j]).0 by {
            if pre.ctr_contains(community) {
                let k = pre.ctr_idx(community);
                assert(pre.counters[k].0 == community);
                assert forall|m: int|
                    0 <= m < pre.counters.len() && m != k implies (
                #[trigger] pre.counters[m]).0 != community by {
                    if pre.counters[m].0 == community {
                        pre.lemma_ctr_idx(m);
                    }
                }
            } else {
                assert(forall|m: int|
                    0 <= m < pre.counters.len() ==> (#[trigger] pre.counters[m]).0 != community);
            }
        }
        if pre.ctr_contains(community) {
            self.lemma_ctr_idx(pre.ctr_idx(community));
        } else {
            self.lemma_ctr_idx(self.counters.len() - 1);
        }
        assert forall|c: u64| c != community implies self.last_case(c) == pre.last_case(c) by {
            let k: int = if pre.ctr_contains(community) {
                pre.ctr_idx(community)
            } else {
                pre.counters.len() as int
            };
            if pre.ctr_contains(c) {
                let m = pre.ctr_idx(c);
                assert(pre.counters[m].0 == c);
                assert(self.counters[m].0 == c);
                self.lemma_ctr_idx(m);
            }
            if self.ctr_contains(c) {
                let m = self.ctr_idx(c);
                assert(self.counters[m].0 == c);
                assert(m != k);
                assert(pre.counters[m].0 == c);
                pre.lemma_ctr_idx(m);
            }
        }
    }

    /// Allocates the next case number for the community — strictly
    /// increasing, starting at 1, never reused — and records the case.
    /// Fails, changing nothing, exactly when the community's counter cannot
    /// grow any further; the caller must then attempt no external action.
    pub fn add_case(
        &mut self,
        action: ActionKind,
        community: u64,
        target: u64,
        reason: Option<String>,
        pending: bool,
        executor: Option<u64>,
    ) -> (r: Result<ModCase, LedgerError>)
        requires
            old(self).wf(),
        ensures
            final(self).wf(),
            match r {
                Ok(case) => {
                    &&& old(self).last_case(community) < u64::MAX
                    &&& case@ == (CaseV {
                        community: community,
                        case_num: (old(self).last_case(community) + 1) as u64,
                        action: action,
                        target: target,
                        reason: reason.deep_view(),
                        executor: executor,
                        pending: pending,
                    })
                    &&& final(self).cases() == old(self).cases().push(case@)
                    &&& final(self).last_case(community) == old(self).last_case(community) + 1
                    &&& forall|c: u64|
                        c != community ==> final(self).last_case(c) == old(self).last_case(c)
                },
                Err(e) => {
                    &&& old(self).last_case(community) == u64::MAX
                    &&& e == LedgerError::CounterExhausted
                    &&& *final(self) == *old(self)
                },
            },
    {
        let next: u64;
        match self.ctr_find(community) {
            Some(i) => {
                let cur = self.counters[i].1;
                if cur == u64::MAX {
                    return Err(LedgerError::CounterExhausted);
                }
                next = cur + 1;
                self.counters.set(i, (community, next));
            },
            None => {
                next = 1;
                self.counters.push((community, 1));
            },
        }
        proof {
            self.lemma_ctr_after_write(*old(self), community, next);
        }
        let case = ModCase {
            community,
            case_num: next,
            action,
            target,
            reason,
            executor,
            pending,
        };
        let stored = case.clone();
        self.log.push(stored);
        proof {
            lemma_cases_view_push(old(self).log@, self.log[self.log.len() - 1]);
            assert(self.cases() =~= old(self).cases().push(case@));
            assert forall|i: int|
                0 <= i < self.cases().len() implies 1 <= (#[trigger] self.cases()[i]).case_num
                <= self.last_case(self.cases()[i].community) by {
                if i < self.cases().len() - 1 {
                    assert(self.cases()[i] == old(self).cases()[i]);
                }
            }
        }
        Ok(case)
    }

    /// The index in the log of the case the removal names, if it is there.
    #[verifier::loop_isolation(false)]
    fn find_case(&self, community: u64, target: u64, case_num: u64) -> (r: Option<usize>)
        requires
            self.wf(),
        ensures
            match r {
                Some(i) => i < self.cases().len() && case_matches(
                    self.cases()[i as int],
                    community,
                    target,
                    case_num,
                ) && forall|j: int|
                    0 <= j < self.cases().len() && j != i ==> !case_matches(
                        #[trigger] self.cases()[j],
                        community,
                        target,
                        case_num,
                    ),
                None => forall|j: int|
                    0 <= j < self.cases().len() ==> !case_matches(
                        #[trigger] self.cases()[j],
                        community,
                        target,
                        case_num,
                    ),
            },
    {
        let mut i: usize = 0;
        while i < self.log.len()
            invariant
                i <= self.log.len(),
                forall|j: int|
                    0 <= j < i ==> !case_matches(#[trigger] self.cases()[j], community, target,
                        case_num),
            decreases self.log.len() - i,
        {
            let c = &self.log[i];
            if c.community == community && c.target == target && c.case_num == case_num {
                proof {
                    assert forall|j: int|
                        0 <= j < self.cases().len() && j != i implies !case_matches(
                        #[trigger] self.cases()[j],
                        community,
                        target,
                        case_num,
                    ) by {
                        if case_matches(self.cases()[j], community, target, case_num) {
                            if j < i {
                                assert(self.cases()[j].case_num < self.cases()[i as int].case_num);
                            } else {
                                assert(self.cases()[i as int].case_num < self.cases()[j].case_num);
                            }
                        }
                    }
                }
                return Some(i);
            }
            i += 1;
        }
        None
    }

    /// How many cases the ledger holds, over all communities.
    pub fn case_count(&self) -> (r: usize)
        ensures
            r == self.cases().len(),
    {
        self.log.len()
    }

    /// Whether a case with this community-scoped number is still retrievable.
    #[verifier::loop_isolation(false)]
    pub fn case_exists(&self, community: u64, case_num: u64) -> (r: bool)
        ensures
            r == self.has_case(community, case_num),
    {
        let mut i: usize = 0;
        while i < self.log.len()
            invariant
                i <= self.log.len(),
                forall|j: int|
                    0 <= j < i ==> !((#[trigger] self.cases()[j]).community == community
                        && self.cases()[j].case_num == case_num),
            decreases self.log.len() - i,
        {
            let c = &self.log[i];
            if c.community == community && c.case_num == case_num {
                proof {
                    assert((#[trigger] self.cases()[i as int]).community == community
                        && self.cases()[i as int].case_num == case_num);
                }
                return true;
            }
            i += 1;
        }
        false
    }

    /// The recorded case with this community-scoped number, if it is still
    /// retrievable.
    #[verifier::loop_isolation(false)]
    pub fn get_case(&self, community: u64, case_num: u64) -> (r: Option<ModCase>)
        ensures
            match r {
                Some(c) => self.has_case(community, case_num) && c@.community == community
                    && c@.case_num == case_num && exists|i: int|
                    0 <= i < self.cases().len() && #[trigger] self.cases()[i] == c@,
                None => !self.has_case(community, case_num),
            },
    {
        let mut i: usize = 0;
        while i < self.log.len()
            invariant
                i <= self.log.len(),
                forall|j: int|
                    0 <= j < i ==> !((#[trigger] self.cases()[j]).community == community
                        && self.cases()[j].case_num == case_num),
            decreases self.log.len() - i,
        {
            let c = &self.log[i];
            if c.community == community && c.case_num == case_num {
                let found = c.clone();
                proof {
                    assert((#[trigger] self.cases()[i as int]).community == community
                        && self.cases()[i as int].case_num == case_num);
                    assert(self.cases()[i as int] == found@);
                }
                return Some(found);
            }
            i += 1;
        }
        None
    }

    /// Erases exactly the identified case when it exists and matches the
    /// target user: the compensation for a failed external action. Erasing a
    /// case that is not there changes nothing, and the allocation counters
    /// are untouched either way, so the erased number is never reused.
    pub fn remove_case(&mut self, community: u64, target: u64, case_num: u64)
        requires
            old(self).wf(),
        ensures
            final(self).wf(),
            final(self).cases() == remove_matching(
                old(self).cases(),
                community,
                target,
                case_num,
            ),
            forall|c: u64| final(self).last_case(c) == old(self).last_case(c),
            forall|i: int|
                0 <= i < final(self).cases().len() ==> !case_matches(
                    #[trigger] final(self).cases()[i],
                    community,
                    target,
                    case_num,
                ),
    {
        match self.find_case(community, target, case_num) {
            Some(i) => {
                self.log.remove(i);
                proof {
                    lemma_cases_view_remove(old(self).log@, i as int);
                    lemma_remove_matching_unique(
                        old(self).cases(),
                        community,
                        target,
                        case_num,
                        i as int,
                    );
                    let pre = old(self).cases();
                    let post = self.cases();
                    assert forall|a: int|
                        0 <= a < post.len() implies 1 <= (#[trigger] post[a]).case_num
                        <= self.last_case(post[a].community) by {
                        if a < i {
                            assert(post[a] == pre[a]);
                        } else {
                            assert(post[a] == pre[a + 1]);
                        }
                    }
                    assert forall|a: int, b: int|
                        0 <= a < b < post.len() && (#[trigger] post[a]).community == (
                    #[trigger] post[b]).community implies post[a].case_num < post[b].case_num by {
                        let a0: int = if a < i {
                            a
                        } else {
                            a + 1
                        };
                        let b0: int = if b < i {
                            b
                        } else {
                            b + 1
                        };
                        assert(post[a] == pre[a0]);
                        assert(post[b] == pre[b0]);
                    }
                }
            },
            None => {
                proof {
                    lemma_remove_matching_none(old(self).cases(), community, target, case_num);
                }
            },
        }
    }
}

/// Law: within one community the ledger's case numbers strictly increase in
/// log order — no duplicates, no reuse — and the next number the allocator
/// hands out exceeds every number already in the log.
pub proof fn lemma_case_numbers(l: ModLedger, community: u64)
    requires
        l.wf(),
    ensures
        forall|i: int, j: int|
            0 <= i < j < l.cases().len() && (#[trigger] l.cases()[i]).community == community && (
            #[trigger] l.cases()[j]).community == community ==> l.cases()[i].case_num
                < l.cases()[j].case_num,
        forall|i: int|
            0 <= i < l.cases().len() && (#[trigger] l.cases()[i]).community == community ==> 1 <= l.cases()[i].case_num <= l.last_case(community),
{
}

} // verus!
