use modcore::config::ConfigStore;
use modcore::config::DEFAULT_MAX_MENTIONS;
use modcore::engine::Action;
use modcore::engine::EngineState;
use modcore::engine::MessageEvent;
use modcore::engine::auto_mute_reason;
use modcore::engine::on_member_resolved;
use modcore::engine::on_message;
use modcore::engine::on_mutation_result;
use modcore::json::JsonValue;
use modcore::ledger::ActionKind;
use modcore::ledger::ModLedger;
use modcore::mention::parse_channel_mention;
use modcore::mention::parse_role_mention;
use modcore::validate::RoleField;
use modcore::validate::Violation;
use modcore::validate::validate_roles_config;

fn obj(entries: Vec<(&str, JsonValue)>) -> JsonValue {
    JsonValue::Object(entries.into_iter().map(|(k, v)| (k.to_string(), v)).collect())
}

fn doc(entries: Vec<(&str, JsonValue)>) -> Vec<(String, JsonValue)> {
    entries.into_iter().map(|(k, v)| (k.to_string(), v)).collect()
}

fn good_role() -> JsonValue {
    obj(vec![
        ("search", JsonValue::Text("Mod.*".to_string())),
        ("primary", JsonValue::UInt(111)),
        ("secondary", JsonValue::UInt(222)),
    ])
}

fn good_category() -> JsonValue {
    obj(vec![
        ("limit", JsonValue::UInt(2)),
        ("roles", obj(vec![("mod", good_role())])),
    ])
}

fn event(community: u64, author: u64, mentions: u64) -> MessageEvent {
    MessageEvent {
        community: Some(community),
        author,
        bot: 1,
        mention_count: mentions,
        bot_can_manage_roles: true,
        author_has_bypass: false,
    }
}

#[test]
fn get_config_returns_defaults_without_creating_a_record() {
    let store = ConfigStore::new();
    let cfg = store.get_config(5);
    assert_eq!(cfg.community, 5);
    assert_eq!(cfg.prefix, None);
    assert_eq!(cfg.join_msg, None);
    assert_eq!(cfg.leave_msg, None);
    assert_eq!(cfg.log_mod, None);
    assert_eq!(cfg.log_msg, None);
    assert_eq!(cfg.log_member, None);
    assert_eq!(cfg.invite_guard, None);
    assert_eq!(cfg.mute_role, None);
    assert_eq!(cfg.max_mention, DEFAULT_MAX_MENTIONS);
    assert_eq!(cfg.role_config, None);
    assert_eq!(cfg.role_channel, None);
    assert!(!store.has_record(5));
}

#[test]
fn save_config_is_an_upsert_keyed_by_community() {
    let mut store = ConfigStore::new();
    let mut cfg = store.get_config(5);
    cfg.join_msg = Some("welcome".to_string());
    store.save_config(&cfg);
    assert!(store.has_record(5));
    assert!(!store.has_record(6));

    let mut cfg2 = store.get_config(5);
    assert_eq!(cfg2.join_msg, Some("welcome".to_string()));
    cfg2.join_msg = Some("hello".to_string());
    cfg2.mute_role = Some(9);
    store.save_config(&cfg2);

    let cfg3 = store.get_config(5);
    assert_eq!(cfg3.join_msg, Some("hello".to_string()));
    assert_eq!(cfg3.mute_role, Some(9));
    assert_eq!(store.get_config(6).join_msg, None);
}

#[test]
fn set_prefix_reports_a_fresh_set_only_once() {
    let mut store = ConfigStore::new();
    assert_eq!(store.get_prefix(7), None);
    let first = store.set_prefix(7, "~");
    let second = store.set_prefix(7, "~");
    assert!(first);
    assert!(!second);
    assert_eq!(store.get_prefix(7), Some("~".to_string()));
    assert_eq!(store.get_prefix(8), None);
}

#[test]
fn role_config_round_trips_through_the_store() {
    let mut store = ConfigStore::new();
    let mut cfg = store.get_config(3);
    cfg.role_config = Some(obj(vec![("games", good_category())]));
    store.save_config(&cfg);
    let back = store.get_config(3);
    assert_eq!(back.role_config, Some(obj(vec![("games", good_category())])));
}

#[test]
fn json_get_reads_objects_only() {
    let cat = good_category();
    assert!(cat.get(&"limit".to_string()).is_some());
    assert!(cat.get(&"missing".to_string()).is_none());
    assert!(JsonValue::UInt(3).get(&"limit".to_string()).is_none());
    assert!(JsonValue::UInt(3).is_number());
    assert!(JsonValue::OtherNum.is_number());
    assert!(!JsonValue::OtherNum.is_u64());
    assert!(JsonValue::Text("x".to_string()).is_string());
}

#[test]
fn mentions_parse_to_identifiers() {
    assert_eq!(parse_channel_mention(b"<#123>"), Some(123));
    assert_eq!(parse_channel_mention(b"123"), Some(123));
    assert_eq!(parse_channel_mention(b"18446744073709551615"), Some(u64::MAX));
    assert_eq!(parse_channel_mention(b"18446744073709551616"), None);
    assert_eq!(parse_channel_mention(b"<#>"), None);
    assert_eq!(parse_channel_mention(b""), None);
    assert_eq!(parse_channel_mention(b"<#12a>"), None);
    assert_eq!(parse_role_mention(b"<@&555>"), Some(555));
    assert_eq!(parse_role_mention(b"555"), Some(555));
    assert_eq!(parse_role_mention(b"<@&x>"), None);
    assert_eq!(parse_role_mention(b"muted"), None);
}

#[test]
fn validate_accepts_an_empty_document() {
    let report = validate_roles_config(&doc(vec![]));
    assert!(report.is_empty());
}

#[test]
fn validate_accepts_a_well_formed_document() {
    let report = validate_roles_config(&doc(vec![("games", good_category())]));
    assert!(report.is_empty());
}

#[test]
fn validate_reports_an_empty_roles_object() {
    let cat = obj(vec![("limit", JsonValue::UInt(0)), ("roles", obj(vec![]))]);
    let report = validate_roles_config(&doc(vec![("games", cat)]));
    assert_eq!(report.len(), 1);
    assert!(matches!(&report[0], Violation::RolesEmpty { category } if category == "games"));
}

#[test]
fn validate_reports_every_defect_in_one_pass() {
    // Seven distinct defects spread over three categories: each must appear,
    // in document order, in a single report.
    let cat_a = obj(vec![]);
    let cat_b = obj(vec![
        ("limit", JsonValue::Text("two".to_string())),
        ("roles", JsonValue::Array(vec![])),
    ]);
    let bad_role = obj(vec![("primary", JsonValue::Text("one".to_string()))]);
    let cat_c = obj(vec![
        ("limit", JsonValue::UInt(1)),
        ("roles", obj(vec![("mod", bad_role)])),
    ]);
    let report = validate_roles_config(&doc(vec![("a", cat_a), ("b", cat_b), ("c", cat_c)]));
    assert_eq!(report.len(), 7);
    assert!(matches!(&report[0], Violation::MissingLimit { category } if category == "a"));
    assert!(matches!(&report[1], Violation::MissingRoles { category } if category == "a"));
    assert!(matches!(&report[2], Violation::LimitNotNumber { category } if category == "b"));
    assert!(matches!(&report[3], Violation::RolesNotObject { category } if category == "b"));
    assert!(matches!(
        &report[4],
        Violation::RoleFieldMissing { category, role, field: RoleField::Search }
            if category == "c" && role == "mod"
    ));
    assert!(matches!(
        &report[5],
        Violation::RoleFieldWrongType { category, role, field: RoleField::Primary }
            if category == "c" && role == "mod"
    ));
    assert!(matches!(
        &report[6],
        Violation::RoleFieldMissing { category, role, field: RoleField::Secondary }
            if category == "c" && role == "mod"
    ));
}

#[test]
fn validate_defect_count_is_independent_of_document_order() {
    let make = |swap: bool| {
        let cat_a = obj(vec![]);
        let cat_b = obj(vec![
            ("limit", JsonValue::Text("two".to_string())),
            ("roles", JsonValue::Array(vec![])),
        ]);
        if swap {
            doc(vec![("b", cat_b), ("a", cat_a)])
        } else {
            doc(vec![("a", cat_a), ("b", cat_b)])
        }
    };
    let forward = validate_roles_config(&make(false));
    let swapped = validate_roles_config(&make(true));
    assert_eq!(forward.len(), 4);
    assert_eq!(swapped.len(), 4);
    // the same defects are reported; only the document order moves them
    assert!(matches!(&forward[0], Violation::MissingLimit { category } if category == "a"));
    assert!(matches!(&swapped[0], Violation::LimitNotNumber { category } if category == "b"));
    assert!(matches!(&swapped[2], Violation::MissingLimit { category } if category == "a"));
}

#[test]
fn validate_checks_field_types_per_field() {
    // `search` must be a string; `primary` and `secondary` numbers that fit
    // in u64. A negative or fractional number is not accepted as a role id.
    let role = obj(vec![
        ("search", JsonValue::UInt(1)),
        ("primary", JsonValue::OtherNum),
        ("secondary", JsonValue::UInt(2)),
    ]);
    let cat = obj(vec![("limit", JsonValue::UInt(1)), ("roles", obj(vec![("m", role)]))]);
    let report = validate_roles_config(&doc(vec![("g", cat)]));
    assert_eq!(report.len(), 2);
    assert!(matches!(&report[0],
        Violation::RoleFieldWrongType { field: RoleField::Search, .. }));
    assert!(matches!(&report[1],
        Violation::RoleFieldWrongType { field: RoleField::Primary, .. }));
}

#[test]
fn validate_accepts_a_fractional_limit_as_numeric() {
    // The limit check asks only that the value is a number.
    let cat = obj(vec![
        ("limit", JsonValue::OtherNum),
        ("roles", obj(vec![("m", good_role())])),
    ]);
    let report = validate_roles_config(&doc(vec![("g", cat)]));
    assert!(report.is_empty());
}

#[test]
fn case_numbers_start_at_one_and_increase_without_gaps() {
    let mut ledger = ModLedger::new();
    let a = ledger.add_case(ActionKind::Mute, 9, 42, None, true, None).unwrap();
    let b = ledger.add_case(ActionKind::Kick, 9, 43, Some("spam".to_string()), false, Some(7))
        .unwrap();
    let c = ledger.add_case(ActionKind::Warn, 9, 44, None, false, None).unwrap();
    assert_eq!(a.case_num, 1);
    assert_eq!(b.case_num, 2);
    assert_eq!(c.case_num, 3);
    assert_eq!(ledger.case_count(), 3);
    // an unrelated community allocates independently
    let d = ledger.add_case(ActionKind::Ban, 10, 42, None, false, None).unwrap();
    assert_eq!(d.case_num, 1);
    assert_eq!(b.reason, Some("spam".to_string()));
    assert_eq!(b.executor, Some(7));
}

#[test]
fn case_numbers_are_never_reused_after_a_removal() {
    let mut ledger = ModLedger::new();
    let a = ledger.add_case(ActionKind::Mute, 9, 42, None, true, None).unwrap();
    assert_eq!(a.case_num, 1);
    ledger.remove_case(9, 42, 1);
    assert!(!ledger.case_exists(9, 1));
    let b = ledger.add_case(ActionKind::Mute, 9, 42, None, true, None).unwrap();
    assert_eq!(b.case_num, 2);
}

#[test]
fn remove_case_is_idempotent_and_exact() {
    let mut ledger = ModLedger::new();
    ledger.add_case(ActionKind::Mute, 9, 42, None, true, None).unwrap();
    ledger.add_case(ActionKind::Mute, 9, 43, None, true, None).unwrap();
    // wrong target: nothing is deleted
    ledger.remove_case(9, 999, 1);
    assert!(ledger.case_exists(9, 1));
    ledger.remove_case(9, 42, 1);
    assert!(!ledger.case_exists(9, 1));
    assert!(ledger.case_exists(9, 2));
    // removing an already-removed case is not an error and changes nothing
    ledger.remove_case(9, 42, 1);
    assert_eq!(ledger.case_count(), 1);
}

#[test]
fn mention_count_at_the_limit_does_not_trigger() {
    let store = ConfigStore::new();  // default limit 10
    let (state, action) = on_message(&store, &event(9, 42, 10));
    assert_eq!(state, EngineState::Finished);
    assert_eq!(action, Action::Nothing);
}

#[test]
fn mention_count_one_above_the_limit_triggers() {
    let store = ConfigStore::new();
    let (state, action) = on_message(&store, &event(9, 42, 11));
    assert_eq!(
        state,
        EngineState::AwaitingMember { community: 9, author: 42, mute_role: None }
    );
    assert_eq!(action, Action::ResolveMember { community: 9, user: 42 });
}

#[test]
fn ineligible_events_are_ignored() {
    let store = ConfigStore::new();
    let finished = (EngineState::Finished, Action::Nothing);

    let mut ev = event(9, 42, 11);
    ev.community = None;
    assert_eq!(on_message(&store, &ev), finished);

    let mut ev = event(9, 42, 11);
    ev.bot_can_manage_roles = false;
    assert_eq!(on_message(&store, &ev), finished);

    let mut ev = event(9, 1, 11);
    ev.author = ev.bot;
    assert_eq!(on_message(&store, &ev), finished);

    let mut ev = event(9, 42, 11);
    ev.author_has_bypass = true;
    assert_eq!(on_message(&store, &ev), finished);
}

#[test]
fn a_failed_member_resolution_creates_no_case() {
    let mut store = ConfigStore::new();
    let mut cfg = store.get_config(9);
    cfg.mute_role = Some(555);
    store.save_config(&cfg);
    let mut ledger = ModLedger::new();
    let (state, _) = on_message(&store, &event(9, 42, 11));
    let (state, action) = on_member_resolved(state, false, &mut ledger);
    assert_eq!(state, EngineState::Finished);
    assert_eq!(action, Action::Nothing);
    assert_eq!(ledger.case_count(), 0);
}

#[test]
fn no_mute_role_means_no_enforcement() {
    let store = ConfigStore::new();
    let mut ledger = ModLedger::new();
    let (state, _) = on_message(&store, &event(9, 42, 11));
    let (state, action) = on_member_resolved(state, true, &mut ledger);
    assert_eq!(state, EngineState::Finished);
    assert_eq!(action, Action::Nothing);
    assert_eq!(ledger.case_count(), 0);
}

fn triggered_pass() -> (ConfigStore, ModLedger, EngineState, Action) {
    // community 9: mention limit 10 (the default), mute role 555
    let mut store = ConfigStore::new();
    let mut cfg = store.get_config(9);
    cfg.mute_role = Some(555);
    store.save_config(&cfg);
    let mut ledger = ModLedger::new();
    let (state, action) = on_message(&store, &event(9, 42, 11));
    assert_eq!(action, Action::ResolveMember { community: 9, user: 42 });
    let (state, action) = on_member_resolved(state, true, &mut ledger);
    (store, ledger, state, action)
}

#[test]
fn a_triggered_pass_creates_exactly_one_pending_mute_case() {
    let (_store, ledger, state, action) = triggered_pass();
    assert_eq!(action, Action::AddRole { community: 9, user: 42, role: 555 });
    assert_eq!(
        state,
        EngineState::AwaitingMutation { community: 9, author: 42, role: 555, case_num: 1 }
    );
    assert_eq!(ledger.case_count(), 1);
    let case = ledger.get_case(9, 1).unwrap();
    assert_eq!(case.action, ActionKind::Mute);
    assert_eq!(case.target, 42);
    assert!(case.pending);
    assert_eq!(case.executor, None);
    assert_eq!(case.reason, Some(auto_mute_reason()));
    assert_eq!(
        auto_mute_reason(),
        "Automated Mute: User exceeded mention limit. (10)".to_string()
    );
}

#[test]
fn a_successful_mutation_keeps_the_case() {
    let (_store, mut ledger, state, _action) = triggered_pass();
    let (state, action) = on_mutation_result(state, true, &mut ledger);
    assert_eq!(state, EngineState::Finished);
    assert_eq!(action, Action::Nothing);
    assert!(ledger.case_exists(9, 1));
    assert!(ledger.get_case(9, 1).unwrap().pending);
}

#[test]
fn a_failed_mutation_erases_the_case_and_never_retries() {
    let (store, mut ledger, state, _action) = triggered_pass();
    let (state, action) = on_mutation_result(state, false, &mut ledger);
    // terminal: no retry is asked of the surrounding program
    assert_eq!(state, EngineState::Finished);
    assert_eq!(action, Action::Nothing);
    // no orphan pending case survives the failed pass
    assert!(!ledger.case_exists(9, 1));
    assert_eq!(ledger.case_count(), 0);
    // the erased number is not reused by the next pass
    let (state, _) = on_message(&store, &event(9, 42, 11));
    let (state, _) = on_member_resolved(state, true, &mut ledger);
    assert_eq!(
        state,
        EngineState::AwaitingMutation { community: 9, author: 42, role: 555, case_num: 2 }
    );
}
