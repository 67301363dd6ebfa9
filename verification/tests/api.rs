use ryu_drafts::api::{
    arm, claim, delete_all, delete_one, disarm, fail, failed, get_one, get_settings, history,
    is_valid_id, list, new_id, param, parse_readings, parse_readings_at, percent_decode,
    put_settings, queue, queue_at, save, save_one, sent, usable_id, Body, Ctx, Reply, SaveBody,
};
use ryu_drafts::models::{DraftRow, Readings, Settings, Source, State, Trigger};
use ryu_drafts::percent::Percent;
use ryu_drafts::query::history_limit;
use ryu_drafts::store::{now_ms, Store};

fn percent_of(text: &str) -> Option<Percent> {
    text.parse::<f64>().ok().map(|x| Percent { bits: x.to_bits() })
}

fn read(query: Option<&str>) -> Readings {
    parse_readings(query, percent_of)
}

fn usage(r: &Readings) -> Vec<(String, f64)> {
    r.usage.iter().map(|(a, p)| (a.clone(), f64::from_bits(p.bits))).collect()
}

fn ctx() -> Ctx {
    Ctx { store: Store::memory() }
}

fn body(id: Option<&str>, text: &str) -> SaveBody {
    SaveBody {
        id: id.map(str::to_owned),
        text: text.to_owned(),
        conversation_id: None,
        agent_id: None,
        model: None,
        folder_path: None,
        source: None,
        trigger: None,
    }
}

fn error(r: &Reply) -> &str {
    match &r.body {
        Body::Error(e) => e,
        _ => "",
    }
}

fn row(r: Reply) -> DraftRow {
    assert_eq!(r.status, 200);
    match r.body {
        Body::Draft(Some(row)) => row,
        other => panic!("{other:?}"),
    }
}

fn rows(r: Reply) -> Vec<DraftRow> {
    assert_eq!(r.status, 200);
    match r.body {
        Body::Drafts(rows) => rows,
        other => panic!("{other:?}"),
    }
}

#[test]
fn readings_default_to_unknown_when_nothing_is_supplied() {
    let r = read(None);
    assert!(r.running.is_none());
    assert!(r.usage.is_empty());
}

#[test]
fn readings_parse_running_and_repeated_usage() {
    let r = read(Some("running=2&usage=gemini:41.5&usage=codex:99"));
    assert_eq!(r.running, Some(2));
    assert_eq!(usage(&r), vec![("gemini".to_owned(), 41.5), ("codex".to_owned(), 99.0)]);
}

#[test]
fn a_percent_encoded_agent_id_keeps_its_colon() {
    // `acp:gemini-cli` arrives as `acp%3Agemini-cli:12`: the split must be on
    // the LAST colon or the agent id is truncated to "acp".
    let r = read(Some("usage=acp%3Agemini-cli:12"));
    assert_eq!(usage(&r), vec![("acp:gemini-cli".to_owned(), 12.0)]);
}

#[test]
fn a_malformed_reading_is_dropped_not_defaulted() {
    // Defaulting to zero would look like "nothing is running" and drain the
    // whole queue.
    let r = read(Some("running=lots&usage=broken&usage=x:notanumber"));
    assert!(r.running.is_none());
    assert!(r.usage.is_empty());
}

#[test]
fn ids_with_separators_are_refused() {
    assert!(is_valid_id("dft_abc-123"));
    assert!(!is_valid_id("../escape"));
    assert!(!is_valid_id("a/b"));
    assert!(!is_valid_id(""));
    assert!(!is_valid_id(&"x".repeat(65)));
}

#[test]
fn ids_of_sixty_four_characters_are_the_longest() {
    assert!(is_valid_id(&"x".repeat(64)));
    assert!(!is_valid_id("é"));
    assert!(!is_valid_id("a b"));
    assert!(is_valid_id("A-Z_09"));
}

#[test]
fn readings_bear_the_time_now() {
    let before = now_ms();
    let r = read(Some(""));
    assert!(before <= r.now_ms && r.now_ms <= now_ms());
    assert!(r.running.is_none());
    assert!(r.usage.is_empty());
}

#[test]
fn readings_bear_the_instant_they_are_taken_at() {
    assert_eq!(parse_readings_at(None, percent_of, 77).now_ms, 77);
    assert_eq!(parse_readings_at(Some("running=1"), percent_of, -5).now_ms, -5);
    let mut c = ctx();
    save(&mut c, body(Some("d1"), "x"));
    arm(&mut c, "d1", Trigger::At { epoch_ms: 1_000 });
    assert!(rows(queue_at(&mut c, None, percent_of, 999)).is_empty());
    assert_eq!(rows(queue_at(&mut c, None, percent_of, 1_000)).len(), 1);
}

#[test]
fn the_last_run_count_counts() {
    assert_eq!(read(Some("running=2&running=5")).running, Some(5));
    assert_eq!(read(Some("running=2&running=lots")).running, Some(2));
    assert_eq!(read(Some("running=x&running=2&running&running=-1")).running, Some(2));
    assert_eq!(read(Some("running")).running, None);
    assert_eq!(read(Some("Running=2")).running, None);
    assert_eq!(read(Some("running=+2")).running, Some(2));
    assert_eq!(read(Some("running=4294967296")).running, None);
}

#[test]
fn a_usage_reading_needs_an_agent_and_a_number() {
    assert!(read(Some("usage=:5")).usage.is_empty());
    assert!(read(Some("usage=")).usage.is_empty());
    assert!(read(Some("usage=a:")).usage.is_empty());
    let r = read(Some("usage=a:b:5&usage=x+y:1e1&other=1&usage=z%3a7"));
    assert_eq!(
        usage(&r),
        vec![("a:b".to_owned(), 5.0), ("x y".to_owned(), 10.0), ("z".to_owned(), 7.0)]
    );
}

#[test]
fn escapes_are_decoded_and_invalid_ones_left_as_written() {
    assert_eq!(percent_decode("acp%3Agemini-cli"), "acp:gemini-cli");
    assert_eq!(percent_decode("a%3ab"), "a:b");
    assert_eq!(percent_decode("a+b"), "a b");
    assert_eq!(percent_decode("100%"), "100%");
    assert_eq!(percent_decode("100%2"), "100%2");
    assert_eq!(percent_decode("%zz%20%2x"), "%zz %2x");
    assert_eq!(percent_decode("%+5"), "% 5");
    assert_eq!(percent_decode("%g1"), "%g1");
    assert_eq!(percent_decode("%C3%A9"), "é");
    assert_eq!(percent_decode("%ff!"), "\u{fffd}!");
    assert_eq!(percent_decode("%é1"), "%é1");
    assert_eq!(percent_decode("plain é"), "plain é");
}

#[test]
fn a_query_value_is_the_first_of_its_key() {
    assert_eq!(param(Some("a=1&b=2&a=3"), "a").as_deref(), Some("1"));
    assert_eq!(param(Some("a=1&b=2=3"), "b").as_deref(), Some("2=3"));
    assert_eq!(param(Some("a&b="), "a"), None);
    assert_eq!(param(Some("a&b="), "b").as_deref(), Some(""));
    assert_eq!(param(None, "a"), None);
}

#[test]
fn the_history_limit_stays_in_range() {
    assert_eq!(history_limit(None), 50);
    assert_eq!(history_limit(Some("limit=7")), 7);
    assert_eq!(history_limit(Some("limit=0")), 1);
    assert_eq!(history_limit(Some("limit=501")), 500);
    assert_eq!(history_limit(Some("limit=-1")), 50);
    assert_eq!(history_limit(Some("limit=x&limit=3")), 50);
    assert_eq!(history_limit(Some("limit=4294967296")), 50);
}

#[test]
fn new_ids_are_valid_and_differ() {
    let a = new_id();
    let b = new_id();
    assert!(is_valid_id(&a));
    assert!(a.starts_with("dft_"));
    assert_eq!(a.len(), 36);
    assert_eq!(a.as_bytes()[16], b'4');
    assert!(a[4..].chars().all(|c| c.is_ascii_digit() || ('a'..='f').contains(&c)));
    assert_ne!(a, b);
}

#[test]
fn a_save_goes_under_the_id_it_asks_for_where_it_is_one() {
    assert_eq!(usable_id(Some("mine".to_owned())).as_deref(), Some("mine"));
    assert_eq!(usable_id(Some("a/b".to_owned())), None);
    assert_eq!(usable_id(None), None);

    let mut c = ctx();
    assert_eq!(row(save(&mut c, body(Some("mine"), "x"))).draft.id, "mine");
    assert!(row(save(&mut c, body(Some("a/b"), "x"))).draft.id.starts_with("dft_"));
    assert!(row(save(&mut c, body(None, "x"))).draft.id.starts_with("dft_"));
    assert_eq!(rows(list(&c)).len(), 3);
}

#[test]
fn a_save_with_a_condition_arms_the_draft() {
    let mut c = ctx();
    let mut b = body(Some("d1"), "x");
    b.source = Some("auto-queue".to_owned());
    b.trigger = Some(Trigger::Concurrency { below: 3 });
    let r = row(save(&mut c, b));
    assert_eq!(r.draft.state, State::Armed);
    assert_eq!(r.draft.source, Source::AutoQueue);
    assert_eq!(r.waiting_for, "Waiting for fewer than 3 runs");
    assert_eq!(r.preview, "x");
    assert_eq!(r.state_label, "Queued");
    let r = row(save(&mut c, body(Some("d1"), "y")));
    assert_eq!(r.draft.state, State::Draft);
    assert_eq!(r.draft.source, Source::AutoQueue);
}

#[test]
fn a_save_with_a_condition_arms_a_failed_draft() {
    let mut c = ctx();
    save(&mut c, body(Some("d1"), "go"));
    claim(&mut c, "d1");
    failed(&mut c, "d1", Some("boom"));
    let mut b = body(Some("d1"), "go, fixed");
    b.trigger = Some(Trigger::Concurrency { below: 2 });
    let r = row(save(&mut c, b));
    assert_eq!(r.draft.id, "d1");
    assert_eq!(r.draft.text, "go, fixed");
    assert!(r.draft.error.is_none());
    assert!(matches!(r.draft.trigger, Trigger::Concurrency { below: 2 }));
    assert_eq!(r.draft.state, State::Armed);
}

#[test]
fn saving_a_blank_text_answers_no_draft() {
    let mut c = ctx();
    save(&mut c, body(Some("d1"), "x"));
    let r = save_one(&mut c, "d1", body(None, "  "));
    assert_eq!(r.status, 200);
    assert!(matches!(r.body, Body::Draft(None)));
    assert_eq!(get_one(&c, "d1").status, 404);
}

#[test]
fn saving_under_an_invalid_id_is_a_bad_request() {
    let mut c = ctx();
    let r = save_one(&mut c, "a/b", body(None, "x"));
    assert_eq!(r.status, 400);
    assert_eq!(error(&r), "invalid draft id");
    assert!(rows(list(&c)).is_empty());
}

#[test]
fn a_draft_that_is_not_there_is_not_found() {
    let mut c = ctx();
    let replies = vec![
        get_one(&c, "d1"),
        delete_one(&mut c, "d1"),
        arm(&mut c, "d1", Trigger::AllDone),
        disarm(&mut c, "d1"),
        sent(&mut c, "d1", None),
        failed(&mut c, "d1", None),
    ];
    for r in &replies {
        assert_eq!(r.status, 404);
        assert_eq!(error(r), "no such draft");
    }
    let r = claim(&mut c, "d1");
    assert_eq!(r.status, 409);
    assert_eq!(error(&r), "draft is already being sent");
}

#[test]
fn what_is_being_sent_is_a_conflict() {
    let mut c = ctx();
    save(&mut c, body(Some("d1"), "x"));
    assert_eq!(row(claim(&mut c, "d1")).draft.state, State::Sending);
    let replies = vec![
        save(&mut c, body(Some("d1"), "y")),
        save_one(&mut c, "d1", body(None, "y")),
        arm(&mut c, "d1", Trigger::AllDone),
        disarm(&mut c, "d1"),
    ];
    for r in &replies {
        assert_eq!(r.status, 409);
        assert_eq!(error(r), "draft d1 is being sent");
    }
    let r = claim(&mut c, "d1");
    assert_eq!(r.status, 409);
    assert_eq!(error(&r), "draft is already being sent");
}

#[test]
fn a_draft_is_armed_and_disarmed() {
    let mut c = ctx();
    save(&mut c, body(Some("d1"), "x"));
    let r = row(arm(&mut c, "d1", Trigger::AllDone));
    assert_eq!(r.draft.state, State::Armed);
    assert_eq!(r.waiting_for, "Waiting for agents to start, then finish");
    assert_eq!(row(disarm(&mut c, "d1")).draft.state, State::Draft);
}

#[test]
fn the_queue_answers_what_the_readings_release() {
    let mut c = ctx();
    save(&mut c, body(Some("d1"), "x"));
    arm(&mut c, "d1", Trigger::Concurrency { below: 3 });
    assert!(rows(queue(&mut c, None, percent_of)).is_empty());
    assert!(rows(queue(&mut c, Some("running=3"), percent_of)).is_empty());
    let ready = rows(queue(&mut c, Some("running=2"), percent_of));
    assert_eq!(ready.len(), 1);
    assert_eq!(ready[0].draft.id, "d1");
    arm(
        &mut c,
        "d1",
        Trigger::UsageReset {
            agent_id: "acp:gemini".to_owned(),
            below_percent: Percent { bits: 90.0f64.to_bits() },
        },
    );
    assert!(rows(queue(&mut c, Some("usage=acp%3Agemini:90"), percent_of)).is_empty());
    assert_eq!(rows(queue(&mut c, Some("usage=acp%3Agemini:89.9"), percent_of)).len(), 1);
}

#[test]
fn a_send_is_reported() {
    let mut c = ctx();
    save(&mut c, body(Some("d1"), "x"));
    claim(&mut c, "d1");
    let r = row(sent(&mut c, "d1", Some("conv-7")));
    assert_eq!(r.draft.state, State::Sent);
    assert!(rows(list(&c)).is_empty());
    let h = rows(history(&c, Some("limit=5")));
    assert_eq!(h.len(), 1);
    assert_eq!(h[0].draft.conversation_id.as_deref(), Some("conv-7"));
    assert_eq!(h[0].draft.text, "x");
}

#[test]
fn a_failed_send_is_reported_with_its_reason() {
    let mut c = ctx();
    save(&mut c, body(Some("d1"), "x"));
    claim(&mut c, "d1");
    assert_eq!(row(failed(&mut c, "d1", None)).waiting_for, "Send failed");
    assert_eq!(row(failed(&mut c, "d1", Some("offline"))).waiting_for, "offline");
    assert_eq!(rows(list(&c)).len(), 1);
}

#[test]
fn deleting_answers_what_was_deleted() {
    let mut c = ctx();
    save(&mut c, body(Some("d1"), "x"));
    save(&mut c, body(Some("d2"), "x"));
    let r = delete_one(&mut c, "d1");
    assert_eq!(r.status, 200);
    assert!(matches!(r.body, Body::Deleted));
    let r = delete_all(&mut c);
    assert_eq!(r.status, 200);
    assert!(matches!(r.body, Body::DeletedAll(1)));
}

#[test]
fn a_ceiling_of_zero_is_raised_to_one() {
    let mut c = ctx();
    let mut s = Settings::default();
    s.max_concurrent = 0;
    let r = put_settings(&mut c, s);
    assert_eq!(r.status, 200);
    assert!(matches!(r.body, Body::Settings(Settings { max_concurrent: 1, .. })));
    assert!(matches!(
        get_settings(&c).body,
        Body::Settings(Settings { max_concurrent: 1, autosave_enabled: true, .. })
    ));
    s.max_concurrent = 9;
    put_settings(&mut c, s);
    assert_eq!(c.store.settings().max_concurrent, 9);
}

#[test]
fn a_broken_outbox_is_an_internal_error() {
    let r = fail("disk full");
    assert_eq!(r.status, 500);
    assert_eq!(error(&r), "disk full");
}

#[test]
fn percent_encoding_is_undone() {
    for id in ["acp:gemini-cli", "50% off + more", "é/ü?&=", "\u{1f600}", ""] {
        let all: String = id.bytes().map(|b| format!("%{b:02X}")).collect();
        assert_eq!(percent_decode(&all), id);
        let plus = all.replace("%20", "+");
        assert_eq!(percent_decode(&plus), id);
        let some: String = id
            .bytes()
            .map(|b| {
                if b.is_ascii_alphanumeric() { (b as char).to_string() } else { format!("%{b:02x}") }
            })
            .collect();
        assert_eq!(percent_decode(&some), id);
    }
}

#[test]
fn wiping_keeps_the_settings() {
    let mut c = ctx();
    let mut s = Settings::default();
    s.max_concurrent = 9;
    put_settings(&mut c, s);
    save(&mut c, body(Some("d1"), "x"));
    delete_all(&mut c);
    assert!(rows(list(&c)).is_empty());
    assert!(rows(history(&c, None)).is_empty());
    assert_eq!(c.store.settings().max_concurrent, 9);
}

#[test]
fn what_happens_to_one_draft_leaves_the_others() {
    let mut c = ctx();
    save(&mut c, body(Some("d1"), "x"));
    save(&mut c, body(Some("d2"), "y"));
    let before = format!("{:?}", c.store.get("d2"));
    arm(&mut c, "d1", Trigger::AllDone);
    claim(&mut c, "d1");
    failed(&mut c, "d1", Some("no"));
    sent(&mut c, "d1", None);
    save(&mut c, body(Some("d1"), "z"));
    delete_one(&mut c, "d1");
    assert_eq!(format!("{:?}", c.store.get("d2")), before);
}
