use ryu_drafts::models::{
    Draft, DraftRow, Readings, Settings, Source, State, Trigger, FIRST_INSTANT_MS,
    LAST_INSTANT_MS, PREVIEW_CHARS,
};
use ryu_drafts::percent::Percent;

fn percent(x: f64) -> Percent {
    Percent { bits: x.to_bits() }
}

fn readings(running: Option<u32>, usage: &[(&str, f64)], now_ms: i64) -> Readings {
    Readings {
        running,
        usage: usage.iter().map(|(a, b)| ((*a).to_owned(), percent(*b))).collect(),
        now_ms,
    }
}

fn draft_with(text: String) -> Draft {
    Draft {
        id: "d1".into(),
        text,
        conversation_id: None,
        agent_id: None,
        model: None,
        folder_path: None,
        source: Source::Manual,
        state: State::Draft,
        trigger: Trigger::Manual,
        error: None,
        seen_busy: false,
        created_at: 0,
        updated_at: 0,
        claimed_at: None,
        sent_at: None,
    }
}

fn preview(text: &str) -> String {
    DraftRow::from(draft_with(text.to_owned())).preview
}

#[test]
fn manual_never_fires() {
    let r = readings(Some(0), &[("gemini", 0.0)], i64::MAX);
    assert!(!Trigger::Manual.is_satisfied(&r, true));
}

#[test]
fn all_done_does_not_fire_on_an_idle_node_that_was_never_busy() {
    // THE trap this variant exists for. `Concurrency { below: 1 }` fires here,
    // nothing is running, and that would send a "now that everything is
    // finished" prompt before any of the work had started.
    let idle = readings(Some(0), &[], 0);
    assert!(!Trigger::AllDone.is_satisfied(&idle, false));
    assert!(Trigger::Concurrency { below: 1 }.is_satisfied(&idle, false));
}

#[test]
fn all_done_fires_only_after_busy_then_quiet() {
    assert!(!Trigger::AllDone.is_satisfied(&readings(Some(3), &[], 0), true));
    assert!(Trigger::AllDone.is_satisfied(&readings(Some(0), &[], 0), true));
}

#[test]
fn all_done_holds_when_the_run_count_is_unknown() {
    // Fail-closed like every other reading: "we could not see the node" is not
    // "the node is quiet".
    assert!(!Trigger::AllDone.is_satisfied(&readings(None, &[], 0), true));
}

#[test]
fn concurrency_fires_strictly_below_the_ceiling() {
    let t = Trigger::Concurrency { below: 3 };
    assert!(t.is_satisfied(&readings(Some(2), &[], 0), false));
    assert!(!t.is_satisfied(&readings(Some(3), &[], 0), false));
    assert!(!t.is_satisfied(&readings(Some(9), &[], 0), false));
}

#[test]
fn an_unknown_reading_holds_the_draft() {
    // Fail-closed is the whole contract: no reading, no send.
    assert!(!Trigger::Concurrency { below: 3 }.is_satisfied(&readings(None, &[], 0), false));
    assert!(!Trigger::UsageReset {
        agent_id: "gemini".into(),
        below_percent: percent(90.0),
    }
    .is_satisfied(&readings(Some(0), &[("codex", 1.0)], 0), false));
}

#[test]
fn usage_fires_when_that_agents_window_has_room_again() {
    let t = Trigger::UsageReset {
        agent_id: "gemini".into(),
        below_percent: percent(90.0),
    };
    assert!(!t.is_satisfied(&readings(Some(0), &[("gemini", 99.5)], 0), false));
    assert!(t.is_satisfied(&readings(Some(0), &[("gemini", 12.0)], 0), false));
}

#[test]
fn a_time_trigger_fires_at_the_instant_not_after_it() {
    let t = Trigger::At { epoch_ms: 1_000 };
    assert!(!t.is_satisfied(&readings(None, &[], 999), false));
    assert!(t.is_satisfied(&readings(None, &[], 1_000), false));
}

#[test]
fn preview_cuts_on_a_char_boundary() {
    let text = "é".repeat(200);
    let row = DraftRow::from(draft_with(text));
    // The point is that this does not panic; the ellipsis proves it truncated.
    assert!(row.preview.ends_with('…'));
    assert_eq!(row.preview.chars().count(), PREVIEW_CHARS + 1);
}

#[test]
fn preview_skips_leading_blank_lines() {
    let row = DraftRow::from(draft_with("\n\n  the real first line\nsecond".to_owned()));
    assert_eq!(row.preview, "the real first line");
}

#[test]
fn preview_keeps_eighty_characters_whole() {
    assert_eq!(preview(&"x".repeat(80)), "x".repeat(80));
    assert_eq!(preview(&"x".repeat(81)), format!("{}…", "x".repeat(80)));
}

#[test]
fn preview_is_one_line_and_empty_only_where_the_text_is_blank() {
    assert_eq!(preview(""), "");
    assert_eq!(preview(" \n\t\r\n\u{2003}"), "");
    assert_eq!(preview("one\r\ntwo"), "one");
    assert_eq!(preview("\u{3000}tea\u{a0}\nleaves"), "tea");
    assert_eq!(preview("a\rb"), "a\rb");
}

#[test]
fn the_first_reading_of_an_agent_counts() {
    let t = Trigger::UsageReset { agent_id: "gemini".into(), below_percent: percent(50.0) };
    assert!(t.is_satisfied(&readings(None, &[("x", 99.0), ("gemini", 1.0), ("gemini", 99.0)], 0), false));
    assert!(!t.is_satisfied(&readings(None, &[("gemini", 99.0), ("gemini", 1.0)], 0), false));
}

#[test]
fn a_percentage_that_is_no_number_fires_nothing() {
    let t = Trigger::UsageReset { agent_id: "gemini".into(), below_percent: percent(50.0) };
    assert!(!t.is_satisfied(&readings(None, &[("gemini", f64::NAN)], 0), false));
    let n = Trigger::UsageReset { agent_id: "gemini".into(), below_percent: percent(f64::NAN) };
    assert!(!n.is_satisfied(&readings(None, &[("gemini", 1.0)], 0), false));
}

#[test]
fn only_all_done_reads_the_latch() {
    let r = readings(Some(0), &[("gemini", 1.0)], 5);
    let triggers = vec![
        Trigger::Manual,
        Trigger::Concurrency { below: 1 },
        Trigger::UsageReset { agent_id: "gemini".into(), below_percent: percent(2.0) },
        Trigger::At { epoch_ms: 5 },
    ];
    for t in &triggers {
        assert_eq!(t.is_satisfied(&r, true), t.is_satisfied(&r, false));
    }
    assert_ne!(
        Trigger::AllDone.is_satisfied(&r, true),
        Trigger::AllDone.is_satisfied(&r, false)
    );
}

#[test]
fn waiting_lines_say_what_a_draft_waits_for() {
    assert_eq!(Trigger::Manual.waiting_for(), "");
    assert_eq!(
        Trigger::Concurrency { below: 1 }.waiting_for(),
        "Waiting for nothing to be running"
    );
    assert_eq!(
        Trigger::Concurrency { below: 0 }.waiting_for(),
        "Waiting for fewer than 0 runs"
    );
    assert_eq!(
        Trigger::Concurrency { below: u32::MAX }.waiting_for(),
        "Waiting for fewer than 4294967295 runs"
    );
    assert_eq!(Trigger::AllDone.waiting_for(), "Waiting for every agent to finish");
    assert_eq!(
        Trigger::UsageReset { agent_id: "acp:gemini".into(), below_percent: percent(87.5) }
            .waiting_for(),
        "Waiting for acp:gemini to drop under 88% used"
    );
}

#[test]
fn a_set_time_is_written_in_utc() {
    assert_eq!(
        Trigger::At { epoch_ms: 0 }.waiting_for(),
        "Sending at 1970-01-01 00:00 UTC"
    );
    assert_eq!(
        Trigger::At { epoch_ms: 1_700_000_000_000 }.waiting_for(),
        "Sending at 2023-11-14 22:13 UTC"
    );
    assert_eq!(
        Trigger::At { epoch_ms: -1 }.waiting_for(),
        "Sending at 1969-12-31 23:59 UTC"
    );
}

#[test]
fn a_time_beyond_the_calendar_has_no_text() {
    assert_eq!(
        Trigger::At { epoch_ms: LAST_INSTANT_MS }.waiting_for(),
        "Sending at +262142-12-31 23:59 UTC"
    );
    assert_eq!(
        Trigger::At { epoch_ms: FIRST_INSTANT_MS }.waiting_for(),
        "Sending at -262143-01-01 00:00 UTC"
    );
    for epoch_ms in [i64::MIN, FIRST_INSTANT_MS - 1, LAST_INSTANT_MS + 1, i64::MAX] {
        assert_eq!(Trigger::At { epoch_ms }.waiting_for(), "Sending at a set time");
    }
}

#[test]
fn the_row_says_where_the_draft_stands() {
    let mut d = draft_with("x".to_owned());
    assert_eq!(DraftRow::from(d.clone()).waiting_for, "");
    assert_eq!(DraftRow::from(d.clone()).state_label, "Draft");

    d.state = State::Armed;
    d.trigger = Trigger::AllDone;
    let row = DraftRow::from(d.clone());
    assert_eq!(row.state_label, "Queued");
    assert_eq!(row.waiting_for, "Waiting for agents to start, then finish");
    d.seen_busy = true;
    assert_eq!(DraftRow::from(d.clone()).waiting_for, "Waiting for every agent to finish");
    d.trigger = Trigger::Concurrency { below: 2 };
    assert_eq!(DraftRow::from(d.clone()).waiting_for, "Waiting for fewer than 2 runs");

    d.state = State::Failed;
    assert_eq!(DraftRow::from(d.clone()).waiting_for, "Send failed");
    d.error = Some("agent offline".to_owned());
    let row = DraftRow::from(d.clone());
    assert_eq!(row.state_label, "Failed to send");
    assert_eq!(row.waiting_for, "agent offline");

    d.state = State::Sending;
    assert_eq!(DraftRow::from(d.clone()).state_label, "Sending");
    assert_eq!(DraftRow::from(d.clone()).waiting_for, "");
    d.state = State::Sent;
    assert_eq!(DraftRow::from(d).state_label, "Sent");
}

#[test]
fn names_are_read_back() {
    for s in [Source::ComposerAutosave, Source::Manual, Source::AutoQueue] {
        assert_eq!(Source::parse(s.as_str()), s);
    }
    for s in [State::Draft, State::Armed, State::Sending, State::Sent, State::Failed] {
        assert_eq!(State::parse(s.as_str()), s);
    }
    assert_eq!(Source::ComposerAutosave.as_str(), "composer-autosave");
    assert_eq!(Source::AutoQueue.as_str(), "auto-queue");
    assert_eq!(State::Armed.as_str(), "armed");
    assert_eq!(Source::parse("Manual"), Source::Manual);
    assert_eq!(Source::parse("anything"), Source::Manual);
    assert_eq!(State::parse("ARMED"), State::Draft);
    assert_eq!(State::parse(""), State::Draft);
}

#[test]
fn the_default_settings_autosave_and_do_not_queue() {
    let s = Settings::default();
    assert!(s.autosave_enabled);
    assert_eq!(s.autosave_min_chars, 4);
    assert!(!s.auto_queue_enabled);
    assert_eq!(s.max_concurrent, 3);
}

#[test]
fn the_default_trigger_is_manual() {
    assert!(matches!(Trigger::default(), Trigger::Manual));
}
