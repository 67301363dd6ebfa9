use ryu_drafts::dispatch::{
    core_unreachable, plan, refused_call, release, release_at, step, step_at, Action, Event,
    HostCall, NodeReport, Phase,
};
use ryu_drafts::models::{Draft, Readings, Source, State, Trigger};
use ryu_drafts::percent::Percent;
use ryu_drafts::store::Store;

fn percent(x: f64) -> Percent {
    Percent { bits: x.to_bits() }
}

fn put(s: &mut Store, id: &str, text: &str, at: i64, trigger: Trigger) {
    s.upsert_at(
        Draft {
            id: id.into(),
            text: text.into(),
            conversation_id: Some("conv-1".to_owned()),
            agent_id: Some("gemini".to_owned()),
            model: None,
            folder_path: None,
            source: Source::Manual,
            state: State::Draft,
            trigger: Trigger::Manual,
            error: None,
            seen_busy: false,
            created_at: 0,
            updated_at: 0,
            claimed_at: None,
            sent_at: None,
        },
        at,
    )
    .unwrap();
    s.set_trigger_at(id, trigger, at).unwrap();
}

fn usage_of(agent_id: &str) -> Trigger {
    Trigger::UsageReset { agent_id: agent_id.to_owned(), below_percent: percent(90.0) }
}

fn report(running: Option<u64>) -> Event {
    Event::Report(Ok(NodeReport { running, usage: vec![] }))
}

#[test]
fn an_outbox_without_armed_drafts_asks_nothing() {
    let mut s = Store::memory();
    put(&mut s, "d1", "x", 1, Trigger::Manual);
    assert!(plan(&s).is_none());
    let (phase, action) = step(&mut s, Phase::Idle, Event::Wake);
    assert!(matches!(phase, Phase::Idle));
    assert!(matches!(action, Action::Rest));
}

#[test]
fn only_usage_drafts_ask_about_agents_each_once_in_order() {
    let mut s = Store::memory();
    put(&mut s, "d1", "x", 1, Trigger::AllDone);
    assert_eq!(plan(&s), Some(vec![]));
    put(&mut s, "d2", "x", 2, usage_of("codex"));
    put(&mut s, "d3", "x", 3, usage_of("acp:gemini"));
    put(&mut s, "d4", "x", 4, usage_of("codex"));
    put(&mut s, "d5", "x", 5, usage_of("éclair"));
    put(&mut s, "d6", "x", 6, usage_of("Zed"));
    put(&mut s, "d7", "x", 7, usage_of("cod"));
    let mut expected: Vec<String> = ["codex", "acp:gemini", "codex", "éclair", "Zed", "cod"]
        .iter()
        .map(|s| (*s).to_owned())
        .collect();
    expected.sort();
    expected.dedup();
    assert_eq!(plan(&s), Some(expected));
}

#[test]
fn a_tick_sends_the_oldest_and_only_that() {
    let mut s = Store::memory();
    put(&mut s, "young", "second", 2, Trigger::Concurrency { below: 3 });
    put(&mut s, "old", "first", 1, Trigger::Concurrency { below: 3 });
    let (phase, action) = step(&mut s, Phase::Idle, Event::Wake);
    assert!(matches!(action, Action::Ask { agent_ids } if agent_ids.is_empty()));
    assert!(matches!(phase, Phase::Reading));

    let (phase, action) = step(&mut s, phase, report(Some(2)));
    let turn = match action {
        Action::Post { turn } => turn,
        other => panic!("{other:?}"),
    };
    assert_eq!(turn.text, "first");
    assert_eq!(turn.agent_id.as_deref(), Some("gemini"));
    assert_eq!(turn.conversation_id.as_deref(), Some("conv-1"));
    assert_eq!(turn.model, None);
    assert!(matches!(&phase, Phase::Sending { id } if id == "old"));
    assert_eq!(s.get("old").unwrap().state, State::Sending);
    assert_eq!(s.get("young").unwrap().state, State::Armed);

    let (phase, action) = step(&mut s, phase, Event::Posted(Ok(Some("conv-9".to_owned()))));
    assert!(matches!(phase, Phase::Idle));
    assert!(matches!(action, Action::Rest));
    let d = s.get("old").unwrap();
    assert_eq!(d.state, State::Sent);
    assert_eq!(d.conversation_id.as_deref(), Some("conv-9"));
    assert_eq!(s.get("young").unwrap().state, State::Armed);
}

#[test]
fn a_message_that_waits_for_approval_counts_as_sent() {
    let mut s = Store::memory();
    put(&mut s, "d1", "x", 1, Trigger::At { epoch_ms: 0 });
    let (phase, _) = step(&mut s, Phase::Reading, report(None));
    step(&mut s, phase, Event::Posted(Ok(None)));
    let d = s.get("d1").unwrap();
    assert_eq!(d.state, State::Sent);
    assert_eq!(d.conversation_id.as_deref(), Some("conv-1"));
}

#[test]
fn a_refused_message_is_back_with_the_reason() {
    let mut s = Store::memory();
    put(&mut s, "d1", "x", 1, Trigger::At { epoch_ms: 0 });
    let (phase, _) = step(&mut s, Phase::Reading, report(None));
    let (phase, action) = step(&mut s, phase, Event::Posted(Err("chat.startTurn: no".to_owned())));
    assert!(matches!(phase, Phase::Idle));
    assert!(matches!(action, Action::Rest));
    let d = s.get("d1").unwrap();
    assert_eq!(d.state, State::Failed);
    assert_eq!(d.error.as_deref(), Some("chat.startTurn: no"));
    assert_eq!(d.text, "x");
}

#[test]
fn a_node_that_cannot_be_read_sends_nothing() {
    let mut s = Store::memory();
    put(&mut s, "d1", "x", 1, Trigger::At { epoch_ms: 0 });
    let (phase, action) = step(&mut s, Phase::Reading, Event::Report(Err("down".to_owned())));
    assert!(matches!(phase, Phase::Idle));
    assert!(matches!(action, Action::Fail { error } if error == "down"));
    assert_eq!(s.get("d1").unwrap().state, State::Armed);
}

#[test]
fn an_unreported_run_count_holds_the_draft() {
    let mut s = Store::memory();
    put(&mut s, "d1", "x", 1, Trigger::Concurrency { below: 9 });
    let (phase, action) = step(&mut s, Phase::Reading, report(None));
    assert!(matches!(phase, Phase::Idle));
    assert!(matches!(action, Action::Rest));
    assert_eq!(s.get("d1").unwrap().state, State::Armed);
}

#[test]
fn an_enormous_run_count_holds_the_draft() {
    let mut s = Store::memory();
    put(&mut s, "d1", "x", 1, Trigger::Concurrency { below: 3 });
    let (phase, action) = step(&mut s, Phase::Reading, report(Some(4_294_967_296)));
    assert!(matches!(phase, Phase::Idle));
    assert!(matches!(action, Action::Rest));
    assert_eq!(s.get("d1").unwrap().state, State::Armed);
}

#[test]
fn an_old_armed_draft_behind_many_idle_ones_is_asked_about() {
    let mut s = Store::memory();
    put(&mut s, "old", "x", 0, usage_of("codex"));
    for i in 1..=501 {
        put(&mut s, &format!("d{i}"), "x", i, Trigger::Manual);
    }
    assert_eq!(plan(&s), Some(vec!["codex".to_owned()]));
}

#[test]
fn a_tick_on_a_busy_node_latches() {
    let mut s = Store::memory();
    put(&mut s, "d1", "x", 1, Trigger::AllDone);
    step(&mut s, Phase::Reading, report(Some(0)));
    assert!(!s.get("d1").unwrap().seen_busy);
    step(&mut s, Phase::Reading, report(Some(1)));
    assert!(s.get("d1").unwrap().seen_busy);
    assert_eq!(s.get("d1").unwrap().state, State::Armed);
    step(&mut s, Phase::Reading, report(Some(0)));
    assert_eq!(s.get("d1").unwrap().state, State::Sending);
}

#[test]
fn anything_out_of_turn_changes_nothing() {
    let mut s = Store::memory();
    put(&mut s, "d1", "x", 1, Trigger::At { epoch_ms: 0 });
    let (phase, action) = step(&mut s, Phase::Idle, report(Some(0)));
    assert!(matches!(phase, Phase::Idle));
    assert!(matches!(action, Action::Rest));
    step(&mut s, Phase::Sending { id: "d1".to_owned() }, Event::Wake);
    step(&mut s, Phase::Reading, Event::Posted(Ok(None)));
    assert_eq!(s.get("d1").unwrap().state, State::Armed);
}

#[test]
fn a_release_takes_nothing_where_nothing_may_go() {
    let mut s = Store::memory();
    put(&mut s, "d1", "x", 1, Trigger::Concurrency { below: 2 });
    let busy = Readings { running: Some(2), usage: vec![], now_ms: 0 };
    assert!(release(&mut s, &busy).is_none());
    let calm = Readings { running: Some(1), usage: vec![], now_ms: 0 };
    assert_eq!(release(&mut s, &calm).unwrap().id, "d1");
    assert!(release(&mut s, &calm).is_none());
}

#[test]
fn a_step_judges_at_its_instant_and_claims_at_its_own() {
    let mut s = Store::memory();
    put(&mut s, "d1", "x", 1, Trigger::At { epoch_ms: 1_000 });
    let (phase, _) = step_at(&mut s, Phase::Reading, report(None), 999, 5_000);
    assert!(matches!(phase, Phase::Idle));
    let (phase, _) = step_at(&mut s, Phase::Reading, report(None), 1_000, 5_000);
    assert!(matches!(phase, Phase::Sending { .. }));
    assert_eq!(s.get("d1").unwrap().claimed_at, Some(5_000));
    step_at(&mut s, phase, Event::Posted(Ok(None)), 0, 6_000);
    assert_eq!(s.get("d1").unwrap().sent_at, Some(6_000));
    put(&mut s, "d2", "x", 1, Trigger::Concurrency { below: 1 });
    let calm = Readings { running: Some(0), usage: vec![], now_ms: 0 };
    assert_eq!(release_at(&mut s, &calm, 70).unwrap().claimed_at, Some(70));
}

#[test]
fn what_core_did_not_report_stays_unknown() {
    let r = NodeReport {
        running: Some(3),
        usage: vec![
            (Some("a".to_owned()), Some(percent(1.5))),
            (None, Some(percent(2.0))),
            (Some("b".to_owned()), None),
            (None, None),
            (Some("c".to_owned()), Some(percent(3.0))),
        ],
    }
    .into_readings(77);
    assert_eq!(r.running, Some(3));
    assert_eq!(r.now_ms, 77);
    let usage: Vec<(String, f64)> =
        r.usage.iter().map(|(a, p)| (a.clone(), f64::from_bits(p.bits))).collect();
    assert_eq!(usage, vec![("a".to_owned(), 1.5), ("c".to_owned(), 3.0)]);
    assert_eq!(NodeReport { running: None, usage: vec![] }.into_readings(0).running, None);
}

#[test]
fn a_run_count_too_large_to_hold_is_the_largest() {
    let read = |n: u64| NodeReport { running: Some(n), usage: vec![] }.into_readings(0).running;
    assert_eq!(read(u32::MAX as u64), Some(u32::MAX));
    assert_eq!(read(u32::MAX as u64 + 1), Some(u32::MAX));
    assert_eq!(read(u64::MAX), Some(u32::MAX));
}

#[test]
fn core_is_called_only_with_everything_in_place() {
    let some = |s: &str| Some(s.to_owned());
    let host = HostCall::from_vars(some("tok"), some("@ryu/drafts"), some("7980")).unwrap();
    assert_eq!(host.url("node.readings"), "http://127.0.0.1:7980/api/host/capability/node.readings");
    assert_eq!(host.authorization(), "Bearer tok");
    assert_eq!(host.plugin_id, "@ryu/drafts");
    assert!(HostCall::from_vars(None, some("p"), some("1")).is_none());
    assert!(HostCall::from_vars(some(""), some("p"), some("1")).is_none());
    assert!(HostCall::from_vars(some("t"), None, some("1")).is_none());
    assert!(HostCall::from_vars(some("t"), some(""), some("1")).is_none());
    assert!(HostCall::from_vars(some("t"), some("p"), None).is_none());
    assert!(HostCall::from_vars(some("t"), some("p"), some("99999")).is_none());
}

#[test]
fn a_call_that_failed_says_why() {
    assert_eq!(refused_call("chat.startTurn", true, Some("ignored")), None);
    assert_eq!(
        refused_call("chat.startTurn", false, Some("no grant")).as_deref(),
        Some("chat.startTurn: no grant")
    );
    assert_eq!(
        refused_call("node.readings", false, None).as_deref(),
        Some("node.readings: call refused")
    );
    assert_eq!(core_unreachable("timeout"), "could not reach Core: timeout");
}
