//! The anti-spam enforcement engine: one terminal pass per inbound message
//! event.
//!
//! The engine owns the decisions; the surrounding program performs the
//! external actions (resolving a member, mutating roles) and hands the
//! outcome back. A triggered pass runs a compensating transaction: the
//! ledger write always comes first, and when the external role mutation
//! fails the pending case is erased, so no case ever claims an action that
//! did not take effect.

use vstd::prelude::*;

use crate::config::CfgV;
use crate::config::ConfigStore;
use crate::ledger::ActionKind;
use crate::ledger::CaseV;
use crate::ledger::ModLedger;
use crate::ledger::case_matches;
use crate::ledger::remove_matching;

verus! {

/// One inbound message event, reduced to the plain facts the policy reads.
#[derive(Clone, Copy, PartialEq, Eq, Structural, Debug)]
pub struct MessageEvent {
    /// The community the message was sent in, when the event carries one.
    pub community: Option<u64>,
    /// The author of the message.
    pub author: u64,
    /// The system identity the enforcement acts as.
    pub bot: u64,
    /// How many users the message mentions.
    pub mention_count: u64,
    /// Whether the system identity holds the capability to mutate roles in
    /// the community.
    pub bot_can_manage_roles: bool,
    /// Whether the author holds the community's administrative bypass
    /// capability.
    pub author_has_bypass: bool,
}

/// Where an enforcement pass stands.
#[derive(Clone, Copy, PartialEq, Eq, Structural, Debug)]
pub enum EngineState {
    /// The pass is over; nothing is in flight.
    Finished,
    /// The author must be resolved to a member; the community's mute role is
    /// carried along from the configuration read at the start of the pass.
    AwaitingMember { community: u64, author: u64, mute_role: Option<u64> },
    /// The mute role must be added to the member; the pending case records
    /// the action until the outcome is known.
    AwaitingMutation { community: u64, author: u64, role: u64, case_num: u64 },
}

/// The external action the surrounding program must perform next.
#[derive(Clone, Copy, PartialEq, Eq, Structural, Debug)]
pub enum Action {
    /// Nothing is asked of the program.
    Nothing,
    /// Resolve the user to a mutable member of the community.
    ResolveMember { community: u64, user: u64 },
    /// Add the role to the member: the automated mute.
    AddRole { community: u64, user: u64, role: u64 },
}

/// Whether an event passes every eligibility check and exceeds the
/// community's mention limit: the event carries a community, the system
/// identity can mutate roles there, the author is neither the system itself
/// nor a holder of the bypass capability, and the mention count is strictly
/// above the limit.
pub open spec fn triggers(cfg: CfgV, ev: MessageEvent) -> bool {
    &&& ev.community is Some
    &&& ev.bot_can_manage_roles
    &&& ev.author != ev.bot
    &&& !ev.author_has_bypass
    &&& ev.mention_count > cfg.max_mention
}

/// What a message event starts: a member resolution when the policy
/// triggers, nothing otherwise.
pub open spec fn message_outcome(cfg: CfgV, ev: MessageEvent) -> (EngineState, Action) {
    if triggers(cfg, ev) {
        (
            EngineState::AwaitingMember {
                community: ev.community->0,
                author: ev.author,
                mute_role: cfg.mute_role,
            },
            Action::ResolveMember { community: ev.community->0, user: ev.author },
        )
    } else {
        (EngineState::Finished, Action::Nothing)
    }
}

/// The case an automated mute records while its side effect is unconfirmed.
pub open spec fn pending_mute_case(community: u64, author: u64, case_num: u64) -> CaseV {
    CaseV {
        community: community,
        case_num: case_num,
        action: ActionKind::Mute,
        target: author,
        reason: Some("Automated Mute: User exceeded mention limit. (10)"@),
        executor: None,
        pending: true,
    }
}

/// The fixed reason recorded for an automated mute.
pub fn auto_mute_reason() -> (r: String)
    ensures
        r@ == "Automated Mute: User exceeded mention limit. (10)"@,
{
    "Automated Mute: User exceeded mention limit. (10)".to_owned()
}

/// Starts one enforcement pass for one inbound message event.
///
/// The pass reads the community's configuration and stops with no side
/// effect — no case, no action — unless the policy triggers; a triggered
/// pass asks the surrounding program to resolve the author to a member.
/// A mention count exactly at the limit does not trigger; one above it does.
pub fn on_message(store: &ConfigStore, ev: &MessageEvent) -> (r: (EngineState, Action))
    requires
        store.wf(),
    ensures
        r == message_outcome(store.spec_config(ev.community->0), *ev),
{
    let community = match ev.community {
        Some(c) => c,
        None => {
            return (EngineState::Finished, Action::Nothing);
        },
    };
    if !ev.bot_can_manage_roles || ev.author == ev.bot || ev.author_has_bypass {
        return (EngineState::Finished, Action::Nothing);
    }
    let cfg = store.get_config(community);
    if ev.mention_count > cfg.max_mention {
        (
            EngineState::AwaitingMember {
                community,
                author: ev.author,
                mute_role: cfg.mute_role,
            },
            Action::ResolveMember { community, user: ev.author },
        )
    } else {
        (EngineState::Finished, Action::Nothing)
    }
}

/// Continues a pass after the surrounding program tried to resolve the
/// author to a member.
///
/// A failed resolution stops the pass with no case created; so does a
/// community with no mute role configured. Otherwise the pass allocates a
/// pending case — the ledger write always precedes the side effect — and
/// asks the program to add the mute role. When allocation fails, the pass
/// aborts before any external action, leaving the ledger unchanged.
pub fn on_member_resolved(state: EngineState, resolved: bool, ledger: &mut ModLedger) -> (r: (
    EngineState,
    Action,
))
    requires
        old(ledger).wf(),
    ensures
        final(ledger).wf(),
        match state {
            EngineState::AwaitingMember { community, author, mute_role } => {
                if resolved && mute_role is Some && old(ledger).last_case(community) < u64::MAX {
                    &&& final(ledger).cases() == old(ledger).cases().push(
                        pending_mute_case(
                            community,
                            author,
                            (old(ledger).last_case(community) + 1) as u64,
                        ),
                    )
                    &&& final(ledger).last_case(community) == old(ledger).last_case(community) + 1
                    &&& forall|c: u64|
                        c != community ==> final(ledger).last_case(c) == old(ledger).last_case(c)
                    &&& r == (
                        EngineState::AwaitingMutation {
                            community: community,
                            author: author,
                            role: mute_role->0,
                            case_num: (old(ledger).last_case(community) + 1) as u64,
                        },
                        Action::AddRole { community: community, user: author, role: mute_role->0 },
                    )
                } else {
                    &&& *final(ledger) == *old(ledger)
                    &&& r == (EngineState::Finished, Action::Nothing)
                }
            },
            _ => *final(ledger) == *old(ledger) && r == (EngineState::Finished, Action::Nothing),
        },
{
    match state {
        EngineState::AwaitingMember { community, author, mute_role } => {
            if !resolved {
                return (EngineState::Finished, Action::Nothing);
            }
            let role = match mute_role {
                Some(role) => role,
                None => {
                    return (EngineState::Finished, Action::Nothing);
                },
            };
            let reason = auto_mute_reason();
            match ledger.add_case(ActionKind::Mute, community, author, Some(reason), true, None) {
                Ok(case) => (
                    EngineState::AwaitingMutation {
                        community,
                        author,
                        role,
                        case_num: case.case_num,
                    },
                    Action::AddRole { community, user: author, role },
                ),
                Err(_) => (EngineState::Finished, Action::Nothing),
            }
        },
        _ => (EngineState::Finished, Action::Nothing),
    }
}

/// Ends a pass after the surrounding program attempted the role mutation.
///
/// Success leaves the pending case as the durable record of the action.
/// Failure erases exactly the case this pass created — the compensation —
/// so no case survives a failed enforcement pass; the allocation counters
/// keep their values, the erased number is never reused, and the pass never
/// retries the mutation.
pub fn on_mutation_result(state: EngineState, mutated: bool, ledger: &mut ModLedger) -> (r: (
    EngineState,
    Action,
))
    requires
        old(ledger).wf(),
    ensures
        final(ledger).wf(),
        r == (EngineState::Finished, Action::Nothing),
        match state {
            EngineState::AwaitingMutation { community, author, role, case_num } => {
                if mutated {
                    *final(ledger) == *old(ledger)
                } else {
                    &&& final(ledger).cases() == remove_matching(
                        old(ledger).cases(),
                        community,
                        author,
                        case_num,
                    )
                    &&& forall|i: int|
                        0 <= i < final(ledger).cases().len() ==> !case_matches(
                            #[trigger] final(ledger).cases()[i],
                            community,
                            author,
                            case_num,
                        )
                    &&& forall|c: u64| final(ledger).last_case(c) == old(ledger).last_case(c)
                }
            },
            _ => *final(ledger) == *old(ledger),
        },
{
    match state {
        EngineState::AwaitingMutation { community, author, role: _, case_num } => {
            if !mutated {
                ledger.remove_case(community, author, case_num);
            }
            (EngineState::Finished, Action::Nothing)
        },
        _ => (EngineState::Finished, Action::Nothing),
    }
}

/// Law: a mention count exactly equal to the configured limit does not
/// trigger enforcement, whatever the rest of the event; a count one above
/// the limit triggers it as soon as every eligibility check passes.
pub proof fn lemma_threshold(cfg: CfgV, ev: MessageEvent)
    ensures
        ev.mention_count == cfg.max_mention ==> !triggers(cfg, ev),
        (ev.mention_count == cfg.max_mention + 1 && ev.community is Some
            && ev.bot_can_manage_roles && ev.author != ev.bot && !ev.author_has_bypass) ==> triggers(
            cfg,
            ev,
        ),
{
}

} // verus!
