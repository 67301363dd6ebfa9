use ryu_drafts::models::{Draft, Readings, Settings, Source, State, Trigger};
use ryu_drafts::percent::Percent;
use ryu_drafts::store::{now_ms, row_to_draft, DraftRecord, Store, CLAIM_TIMEOUT_MS};

fn new_draft(id: &str, text: &str) -> Draft {
    Draft {
        id: id.into(),
        text: text.into(),
        conversation_id: None,
        agent_id: None,
        model: None,
        folder_path: None,
        source: Source::Manual,
        state: State::Draft,
        trigger: Trigger::Manual,
        error: None,
        seen_busy: false,
        created_at: 0,
        updated_at: 0,
        claimed_at: None,
        sent_at: None,
    }
}

fn running(n: Option<u32>) -> Readings {
    Readings { running: n, usage: vec![], now_ms: 0 }
}

/// The outbox with its rows changed by hand.
fn edited(s: &Store, edit: impl Fn(&mut DraftRecord)) -> Store {
    let mut rows = s.rows();
    for row in rows.iter_mut() {
        edit(row);
    }
    Store::load(&rows, None)
}

fn ids(drafts: Vec<Draft>) -> Vec<String> {
    drafts.into_iter().map(|d| d.id).collect()
}

#[test]
fn a_draft_survives_being_written_and_read_back() {
    let mut s = Store::memory();
    s.upsert(new_draft("d1", "hello")).unwrap();
    let got = s.get("d1").unwrap();
    assert_eq!(got.text, "hello");
    assert_eq!(got.state, State::Draft);
}

#[test]
fn upserting_the_same_id_edits_rather_than_duplicates() {
    let mut s = Store::memory();
    s.upsert(new_draft("d1", "first")).unwrap();
    let created = s.get("d1").unwrap().created_at;
    s.upsert(new_draft("d1", "second")).unwrap();
    let after = s.get("d1").unwrap();
    assert_eq!(after.text, "second");
    assert_eq!(after.created_at, created, "the creation stamp must survive");
    assert_eq!(s.list_open().len(), 1);
}

#[test]
fn clearing_the_text_deletes_the_draft() {
    // Otherwise every emptied composer leaves a permanent "Empty draft" row.
    let mut s = Store::memory();
    s.upsert(new_draft("d1", "typed")).unwrap();
    s.upsert(new_draft("d1", "   ")).unwrap();
    assert!(s.get("d1").is_none());
}

#[test]
fn arming_moves_it_to_armed_and_disarming_moves_it_back() {
    let mut s = Store::memory();
    s.upsert(new_draft("d1", "queued work")).unwrap();
    let armed = s.set_trigger("d1", Trigger::Concurrency { below: 2 }).unwrap().unwrap();
    assert_eq!(armed.state, State::Armed);
    let idle = s.set_trigger("d1", Trigger::Manual).unwrap().unwrap();
    assert_eq!(idle.state, State::Draft);
}

#[test]
fn only_one_claim_wins() {
    // The double-send guard. Two dispatchers, one draft, one winner.
    let mut s = Store::memory();
    s.upsert(new_draft("d1", "go")).unwrap();
    s.set_trigger("d1", Trigger::Concurrency { below: 9 }).unwrap();
    assert!(s.claim("d1").is_some());
    assert!(s.claim("d1").is_none(), "a second dispatcher must not get the same draft");
}

#[test]
fn an_expired_claim_is_reclaimable() {
    let mut s = Store::memory();
    s.upsert(new_draft("d1", "go")).unwrap();
    s.set_trigger("d1", Trigger::Concurrency { below: 9 }).unwrap();
    s.claim("d1").unwrap();
    // Backdate the claim past the timeout: the dispatcher that took it died.
    let mut s = edited(&s, |row| {
        if row.id == "d1" {
            row.claimed_at = Some(now_ms() - CLAIM_TIMEOUT_MS - 1);
        }
    });
    assert!(s.claim("d1").is_some(), "a dead dispatcher must not strand the draft forever");
}

#[test]
fn a_draft_being_sent_cannot_be_rewritten_underneath_the_dispatcher() {
    let mut s = Store::memory();
    s.upsert(new_draft("d1", "go")).unwrap();
    s.claim("d1").unwrap();
    assert!(s.upsert(new_draft("d1", "changed")).is_err());
    assert!(s.set_trigger("d1", Trigger::Manual).is_err());
}

#[test]
fn ready_returns_only_satisfied_drafts_oldest_first() {
    let mut s = Store::memory();
    for (id, below) in [("old", 3_u32), ("new", 3), ("never", 1)] {
        s.upsert(new_draft(id, "x")).unwrap();
        s.set_trigger(id, Trigger::Concurrency { below }).unwrap();
    }
    // Force a deterministic FIFO order rather than relying on clock resolution.
    let mut s = edited(&s, |row| {
        if row.id == "old" {
            row.created_at = 1;
        }
        if row.id == "new" {
            row.created_at = 2;
        }
    });
    let ready = ids(s.ready(&running(Some(2))));
    assert_eq!(ready, vec!["old", "new"], "FIFO, and 'never' must not appear");
}

#[test]
fn all_done_waits_for_the_node_to_have_been_busy() {
    // The end-to-end shape of the trap: armed on a quiet node, it must NOT go
    // out; once a tick has seen work running, the next quiet tick releases it.
    let mut s = Store::memory();
    s.upsert(new_draft("release", "cut the release")).unwrap();
    s.set_trigger("release", Trigger::AllDone).unwrap();

    let quiet = running(Some(0));
    assert!(
        s.ready(&quiet).is_empty(),
        "an AllDone draft must not fire before any work has started"
    );

    // A tick that sees work running latches, and cannot itself release it.
    assert!(s.ready(&running(Some(2))).is_empty());
    assert!(s.get("release").unwrap().seen_busy);

    let ready = ids(s.ready(&quiet));
    assert_eq!(ready, vec!["release"], "busy then quiet must release it");
}

#[test]
fn re_arming_resets_the_busy_latch() {
    // Otherwise a draft disarmed and re-armed would inherit an observation from
    // before the user changed their mind, and fire on the next quiet tick.
    let mut s = Store::memory();
    s.upsert(new_draft("d1", "x")).unwrap();
    s.set_trigger("d1", Trigger::AllDone).unwrap();
    s.ready(&running(Some(1)));
    assert!(s.get("d1").unwrap().seen_busy);

    s.set_trigger("d1", Trigger::AllDone).unwrap();
    assert!(!s.get("d1").unwrap().seen_busy, "arming must start the watch afresh");
}

#[test]
fn the_latch_only_reaches_drafts_that_are_already_armed() {
    // A draft armed AFTER the busy period must not inherit that observation.
    let mut s = Store::memory();
    s.upsert(new_draft("early", "x")).unwrap();
    s.set_trigger("early", Trigger::AllDone).unwrap();
    s.ready(&running(Some(1)));

    s.upsert(new_draft("late", "y")).unwrap();
    s.set_trigger("late", Trigger::AllDone).unwrap();
    assert!(s.get("early").unwrap().seen_busy);
    assert!(!s.get("late").unwrap().seen_busy);
}

#[test]
fn a_sent_draft_leaves_the_sidebar_but_stays_as_history() {
    let mut s = Store::memory();
    s.upsert(new_draft("d1", "go")).unwrap();
    s.claim("d1");
    s.mark_sent("d1", Some("conv-7"));
    assert!(s.list_open().is_empty());
    let sent = s.list_sent(10);
    assert_eq!(sent.len(), 1);
    assert_eq!(sent[0].conversation_id.as_deref(), Some("conv-7"));
}

#[test]
fn a_failed_send_puts_the_draft_back_with_its_reason() {
    let mut s = Store::memory();
    s.upsert(new_draft("d1", "go")).unwrap();
    s.claim("d1");
    let failed = s.mark_failed("d1", "agent offline").unwrap();
    assert_eq!(failed.state, State::Failed);
    assert_eq!(failed.error.as_deref(), Some("agent offline"));
    assert_eq!(s.list_open().len(), 1);
}

#[test]
fn editing_a_failed_draft_clears_the_failure() {
    let mut s = Store::memory();
    s.upsert(new_draft("d1", "go")).unwrap();
    s.claim("d1");
    s.mark_failed("d1", "boom");
    let edited = s.upsert(new_draft("d1", "go, fixed")).unwrap().unwrap();
    assert_eq!(edited.state, State::Draft);
    assert!(edited.error.is_none());
}

#[test]
fn settings_round_trip_and_default_when_absent() {
    let mut s = Store::memory();
    assert!(s.settings().autosave_enabled);
    assert!(!s.settings().auto_queue_enabled);
    let mut settings = Settings::default();
    settings.auto_queue_enabled = true;
    settings.max_concurrent = 7;
    s.save_settings(&settings);
    let back = s.settings();
    assert!(back.auto_queue_enabled);
    assert_eq!(back.max_concurrent, 7);
}

#[test]
fn a_corrupt_settings_row_falls_back_to_defaults() {
    let kept = serde_json::from_str::<serde_json::Value>("{ not json").ok().map(|_| Settings {
        autosave_enabled: false,
        autosave_min_chars: 1,
        auto_queue_enabled: true,
        max_concurrent: 9,
    });
    let s = Store::load(&vec![], kept);
    assert_eq!(s.settings().max_concurrent, 3);
}

#[test]
fn the_clock_shows_the_time_now() {
    let before = std::time::SystemTime::now()
        .duration_since(std::time::UNIX_EPOCH)
        .unwrap()
        .as_millis() as i64;
    let now = now_ms();
    assert!(before <= now && now < before + 60_000);
}

#[test]
fn a_save_stamps_the_draft_with_the_time_now() {
    let before = now_ms();
    let mut s = Store::memory();
    let d = s.upsert(new_draft("d1", "x")).unwrap().unwrap();
    let after = now_ms();
    assert!(before <= d.created_at && d.created_at <= after);
    assert_eq!(d.created_at, d.updated_at);
}

#[test]
fn a_claim_is_held_for_two_minutes() {
    let mut s = Store::memory();
    s.upsert_at(new_draft("d1", "go"), 1_000).unwrap();
    let d = s.claim_at("d1", 5_000).unwrap();
    assert_eq!(d.state, State::Sending);
    assert_eq!(d.claimed_at, Some(5_000));
    assert_eq!(d.updated_at, 5_000);
    assert_eq!(d.created_at, 1_000);
    assert!(s.claim_at("d1", 5_000 + CLAIM_TIMEOUT_MS).is_none());
    assert_eq!(s.get("d1").unwrap().claimed_at, Some(5_000));
    assert!(s.claim_at("d1", 5_001 + CLAIM_TIMEOUT_MS).is_some());
}

#[test]
fn a_claim_holds_through_everything_else() {
    let mut s = Store::memory();
    s.upsert_at(new_draft("d1", "go"), 0).unwrap();
    s.upsert_at(new_draft("d2", "other"), 0).unwrap();
    s.claim_at("d1", 10).unwrap();
    s.upsert_at(new_draft("d2", "changed"), 11).unwrap();
    s.ready(&running(Some(3)));
    s.delete("d2");
    assert!(s.upsert_at(new_draft("d1", "changed"), 12).is_err());
    assert!(s.set_trigger_at("d1", Trigger::AllDone, 13).is_err());
    assert!(s.claim_at("d1", 14).is_none());
    let d = s.get("d1").unwrap();
    assert_eq!(d.text, "go");
    assert_eq!(d.claimed_at, Some(10));
    assert!(!d.seen_busy);
}

#[test]
fn a_claim_that_bears_no_instant_does_not_expire() {
    let mut s = Store::memory();
    s.upsert_at(new_draft("d1", "go"), 0).unwrap();
    s.claim_at("d1", 0).unwrap();
    let mut s = edited(&s, |row| row.claimed_at = None);
    assert!(s.claim_at("d1", i64::MAX).is_none());
}

#[test]
fn what_is_sent_or_failed_cannot_be_claimed() {
    let mut s = Store::memory();
    s.upsert_at(new_draft("sent", "x"), 0).unwrap();
    s.upsert_at(new_draft("failed", "x"), 0).unwrap();
    s.mark_sent_at("sent", None, 1);
    s.mark_failed_at("failed", "no", 1);
    assert!(s.claim_at("sent", i64::MAX).is_none());
    assert!(s.claim_at("failed", i64::MAX).is_none());
    assert!(s.claim_at("absent", 0).is_none());
}

#[test]
fn a_refusal_says_which_draft_is_being_sent() {
    let mut s = Store::memory();
    s.upsert(new_draft("d1", "go")).unwrap();
    s.claim("d1").unwrap();
    let e = s.upsert(new_draft("d1", "changed")).unwrap_err();
    assert_eq!(e.message(), "draft d1 is being sent");
    assert_eq!(s.set_trigger("d1", Trigger::AllDone).unwrap_err().message(), "draft d1 is being sent");
    assert_eq!(s.get("d1").unwrap().text, "go");
}

#[test]
fn clearing_deletes_even_a_draft_that_is_being_sent() {
    let mut s = Store::memory();
    s.upsert(new_draft("d1", "go")).unwrap();
    s.claim("d1").unwrap();
    assert!(s.upsert(new_draft("d1", " \n")).unwrap().is_none());
    assert!(s.get("d1").is_none());
    assert!(s.upsert(new_draft("absent", "")).unwrap().is_none());
}

#[test]
fn an_edit_keeps_where_the_draft_came_from() {
    let mut s = Store::memory();
    let mut d = new_draft("d1", "first");
    d.source = Source::AutoQueue;
    s.upsert_at(d, 5).unwrap();
    let after = s.upsert_at(new_draft("d1", "second"), 9).unwrap().unwrap();
    assert_eq!(after.source, Source::AutoQueue);
    assert_eq!(after.created_at, 5);
    assert_eq!(after.updated_at, 9);
}

#[test]
fn arming_by_a_save_starts_the_watch_afresh() {
    let mut s = Store::memory();
    s.upsert(new_draft("d1", "x")).unwrap();
    s.set_trigger("d1", Trigger::AllDone).unwrap();
    s.ready(&running(Some(1)));
    assert!(s.get("d1").unwrap().seen_busy);
    let mut again = new_draft("d1", "y");
    again.trigger = Trigger::AllDone;
    again.state = State::Armed;
    again.seen_busy = true;
    assert!(!s.upsert(again).unwrap().unwrap().seen_busy);
    assert!(s.ready(&running(Some(0))).is_empty());
}

#[test]
fn saving_a_failed_draft_with_a_condition_arms_it() {
    let mut s = Store::memory();
    s.upsert_at(new_draft("d1", "go"), 1).unwrap();
    s.mark_failed_at("d1", "boom", 2);
    let mut again = new_draft("d1", "go, fixed");
    again.trigger = Trigger::Concurrency { below: 2 };
    again.state = State::Armed;
    let d = s.upsert_at(again, 3).unwrap().unwrap();
    assert_eq!(d.state, State::Armed);
    assert!(d.error.is_none());
    assert_eq!(ids(s.ready(&running(Some(1)))), vec!["d1"]);
}

#[test]
fn a_new_draft_has_seen_nothing() {
    let mut s = Store::memory();
    let mut d = new_draft("d1", "x");
    d.seen_busy = true;
    assert!(!s.upsert(d).unwrap().unwrap().seen_busy);
}

#[test]
fn a_draft_waits_forever_where_nothing_ever_starts() {
    let mut s = Store::memory();
    s.upsert(new_draft("d1", "x")).unwrap();
    s.set_trigger("d1", Trigger::AllDone).unwrap();
    for n in [Some(0), None, Some(0), None, Some(0)] {
        assert!(s.ready(&running(n)).is_empty());
    }
    assert!(!s.get("d1").unwrap().seen_busy);
}

#[test]
fn a_latch_lasts_while_the_node_cannot_be_read() {
    let mut s = Store::memory();
    s.upsert(new_draft("d1", "x")).unwrap();
    s.set_trigger("d1", Trigger::AllDone).unwrap();
    assert!(s.ready(&running(Some(1))).is_empty());
    assert!(s.ready(&running(None)).is_empty());
    assert_eq!(ids(s.ready(&running(Some(0)))), vec!["d1"]);
}

#[test]
fn drafts_of_one_instant_go_in_the_order_they_stand() {
    let mut s = Store::memory();
    for id in ["c", "a", "b"] {
        s.upsert_at(new_draft(id, "x"), 7).unwrap();
        s.set_trigger_at(id, Trigger::At { epoch_ms: 0 }, 7).unwrap();
    }
    assert_eq!(ids(s.ready(&running(None))), vec!["c", "a", "b"]);
}

#[test]
fn the_sidebar_shows_what_was_touched_last_first() {
    let mut s = Store::memory();
    s.upsert_at(new_draft("a", "x"), 1).unwrap();
    s.upsert_at(new_draft("b", "x"), 2).unwrap();
    s.upsert_at(new_draft("c", "x"), 3).unwrap();
    s.claim_at("a", 4).unwrap();
    s.mark_sent_at("c", None, 5);
    assert_eq!(ids(s.list_open()), vec!["a", "b"]);
    assert_eq!(ids(s.list_sent(50)), vec!["c"]);
}

#[test]
fn the_sidebar_shows_every_unsent_draft() {
    let mut s = Store::memory();
    for i in 0..502 {
        s.upsert_at(new_draft(&format!("d{i}"), "x"), i).unwrap();
    }
    let open = s.list_open();
    assert_eq!(open.len(), 502);
    assert_eq!(open[0].id, "d501");
    assert_eq!(open[501].id, "d0");
}

#[test]
fn the_history_shows_what_was_sent_last_first() {
    let mut s = Store::memory();
    for (id, at) in [("a", 10), ("b", 30), ("c", 20)] {
        s.upsert_at(new_draft(id, "x"), 1).unwrap();
        s.mark_sent_at(id, None, at);
    }
    assert_eq!(ids(s.list_sent(10)), vec!["b", "c", "a"]);
    assert_eq!(ids(s.list_sent(2)), vec!["b", "c"]);
    assert!(s.list_sent(0).is_empty());
    let undated = edited(&s, |row| {
        if row.id == "b" {
            row.sent_at = None;
        }
    });
    assert_eq!(ids(undated.list_sent(10)), vec!["c", "a", "b"]);
}

#[test]
fn a_send_without_a_conversation_keeps_the_one_it_had() {
    let mut s = Store::memory();
    let mut d = new_draft("d1", "x");
    d.conversation_id = Some("conv-1".to_owned());
    s.upsert_at(d, 1).unwrap();
    s.claim_at("d1", 2);
    let sent = s.mark_sent_at("d1", None, 3).unwrap();
    assert_eq!(sent.conversation_id.as_deref(), Some("conv-1"));
    assert_eq!(sent.text, "x");
    assert_eq!(sent.sent_at, Some(3));
    assert!(sent.claimed_at.is_none());
    assert!(s.mark_sent("absent", None).is_none());
    assert!(s.mark_failed("absent", "x").is_none());
}

#[test]
fn deleting_says_whether_there_was_a_draft() {
    let mut s = Store::memory();
    s.upsert(new_draft("a", "x")).unwrap();
    s.upsert(new_draft("b", "y")).unwrap();
    assert!(s.delete("a"));
    assert!(!s.delete("a"));
    assert_eq!(s.get("b").unwrap().text, "y");
    s.upsert(new_draft("c", "z")).unwrap();
    assert_eq!(s.delete_all(), 2);
    assert_eq!(s.delete_all(), 0);
    assert!(s.get("b").is_none());
}

#[test]
fn the_table_is_read_back() {
    let mut s = Store::memory();
    let mut d = new_draft("d1", "x");
    d.source = Source::ComposerAutosave;
    d.model = Some("m".to_owned());
    d.folder_path = Some("/tmp".to_owned());
    s.upsert_at(d, 4).unwrap();
    s.set_trigger_at("d1", Trigger::AllDone, 5).unwrap();
    s.ready(&running(Some(1)));
    s.upsert_at(new_draft("d2", "y"), 6).unwrap();
    s.claim_at("d2", 7);
    let rows = s.rows();
    assert_eq!(rows[0].source, "composer-autosave");
    assert_eq!(rows[0].state, "armed");
    assert_eq!(rows[0].seen_busy, Some(1));
    assert_eq!(rows[1].state, "sending");
    assert_eq!(rows[1].seen_busy, Some(0));
    let back = Store::load(&rows, Some(s.settings()));
    for id in ["d1", "d2"] {
        assert_eq!(format!("{:?}", back.get(id)), format!("{:?}", s.get(id)));
    }
}

#[test]
fn a_draft_in_no_known_state_is_not_claimed() {
    let mut s = Store::memory();
    s.upsert_at(new_draft("d1", "x"), 1).unwrap();
    s.upsert_at(new_draft("d2", "y"), 1).unwrap();
    let mut s = edited(&s, |row| {
        if row.id == "d1" {
            row.state = "archived".to_owned();
        }
    });
    assert_eq!(s.get("d1").unwrap().state, State::Draft);
    assert_eq!(s.list_open().len(), 2);
    assert!(s.claim_at("d1", 5).is_none());
    assert_eq!(s.rows()[0].state, "archived");
    assert!(s.claim_at("d2", 5).is_some());
    assert!(edited(&s, |_| {}).claim_at("d1", 6).is_none());
    s.upsert_at(new_draft("d1", "z"), 7).unwrap();
    assert_eq!(s.rows()[0].state, "draft");
    assert!(s.claim_at("d1", 8).is_some());
}

#[test]
fn giving_a_draft_a_condition_puts_it_in_a_known_state() {
    let mut s = Store::memory();
    s.upsert_at(new_draft("d1", "x"), 1).unwrap();
    let mut s = edited(&s, |row| row.state = "archived".to_owned());
    s.ready(&running(Some(1)));
    assert_eq!(s.rows()[0].state, "archived");
    s.set_trigger("d1", Trigger::AllDone).unwrap();
    assert_eq!(s.rows()[0].state, "armed");
    assert!(s.claim("d1").is_some());
}

#[test]
fn a_condition_that_cannot_be_written_down_is_none() {
    for x in [f64::NAN, f64::INFINITY, f64::NEG_INFINITY] {
        let trigger = Trigger::UsageReset {
            agent_id: "codex".to_owned(),
            below_percent: Percent { bits: x.to_bits() },
        };
        let mut s = Store::memory();
        let mut d = new_draft("d1", "x");
        d.trigger = trigger.clone();
        d.state = State::Armed;
        let kept = s.upsert(d.clone()).unwrap().unwrap();
        assert!(matches!(kept.trigger, Trigger::Manual));
        assert_eq!(kept.state, State::Armed);
        assert!(matches!(s.upsert(d).unwrap().unwrap().trigger, Trigger::Manual));
        let armed = s.set_trigger("d1", trigger).unwrap().unwrap();
        assert!(matches!(armed.trigger, Trigger::Manual));
        assert_eq!(armed.state, State::Armed);
    }
    let finite = Trigger::UsageReset {
        agent_id: "codex".to_owned(),
        below_percent: Percent { bits: f64::MAX.to_bits() },
    };
    let mut s = Store::memory();
    s.upsert(new_draft("d1", "x")).unwrap();
    let armed = s.set_trigger("d1", finite).unwrap().unwrap();
    assert!(matches!(armed.trigger, Trigger::UsageReset { .. }));
}

#[test]
fn an_unreadable_condition_keeps_the_text() {
    let row = DraftRecord {
        id: "d1".to_owned(),
        text: "irreplaceable".to_owned(),
        conversation_id: None,
        agent_id: None,
        model: None,
        folder_path: None,
        source: "elsewhere".to_owned(),
        state: "armed".to_owned(),
        trigger: None,
        error: None,
        created_at: 1,
        updated_at: 2,
        claimed_at: None,
        sent_at: None,
        seen_busy: None,
    };
    let d = row_to_draft(&row);
    assert_eq!(d.text, "irreplaceable");
    assert_eq!(d.state, State::Armed);
    assert_eq!(d.source, Source::Manual);
    assert!(matches!(d.trigger, Trigger::Manual));
    assert!(!d.seen_busy);
}
