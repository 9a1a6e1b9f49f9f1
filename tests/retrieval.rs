use chrono::NaiveDate;
use groupme_downloader::model::Message;
use groupme_downloader::retrieval::{MessageRetrieval, RetrievalStep, RATE_LIMIT_MS};
use groupme_downloader::window::ValidationError;

fn day(y: i32, m: u32, d: u32) -> i64 {
    NaiveDate::from_ymd_opt(y, m, d)
        .unwrap()
        .and_hms_opt(0, 0, 0)
        .unwrap()
        .and_utc()
        .timestamp()
}

fn msg(id: &str, created_at: i64) -> Message {
    Message {
        id: id.to_string(),
        source_guid: format!("guid-{id}"),
        created_at,
        user_id: "u1".to_string(),
        group_id: "g1".to_string(),
        name: "someone".to_string(),
        avatar_url: None,
        text: Some("hello".to_string()),
        system: false,
        favorited_by: vec![],
        attachments: vec![],
    }
}

fn ids(messages: &[Message]) -> Vec<String> {
    messages.iter().map(|m| m.id.clone()).collect()
}

fn expect_fetch(step: RetrievalStep) -> (Option<String>, u64) {
    match step {
        RetrievalStep::Fetch { before_id, delay_ms } => (before_id, delay_ms),
        RetrievalStep::Finished => panic!("expected a fetch"),
    }
}

#[test]
fn window_with_newest_not_after_oldest_is_rejected() {
    let t = day(2024, 6, 5);
    let r = MessageRetrieval::new(t, t);
    assert!(matches!(
        r,
        Err(ValidationError::EmptyWindow { newest, oldest }) if newest == t && oldest == t
    ));
    let r = MessageRetrieval::new(day(2024, 6, 1), day(2024, 6, 8));
    assert!(matches!(r, Err(ValidationError::EmptyWindow { .. })));
}

#[test]
fn new_retrieval_has_made_no_fetch() {
    let r = MessageRetrieval::new(day(2024, 6, 8), day(2024, 6, 1)).unwrap();
    assert_eq!(r.fetch_count(), 0);
    assert!(!r.is_finished());
    assert_eq!(r.window().oldest, day(2024, 6, 1));
    assert_eq!(r.window().newest, day(2024, 6, 8));
}

#[test]
fn newer_message_skipped_and_cursor_moves() {
    let mut r = MessageRetrieval::new(day(2024, 6, 8), day(2024, 6, 1)).unwrap();
    let (before_id, delay) = expect_fetch(r.next_step());
    assert_eq!(before_id, None);
    assert_eq!(delay, 0);
    let out = r.accept_page(vec![msg("5", day(2024, 6, 10)), msg("4", day(2024, 6, 5))]);
    assert_eq!(ids(&out), vec!["4".to_string()]);
    assert!(!r.is_finished());
    let (before_id, delay) = expect_fetch(r.next_step());
    assert_eq!(before_id, Some("4".to_string()));
    assert_eq!(delay, RATE_LIMIT_MS);
}

#[test]
fn older_message_ends_retrieval() {
    let mut r = MessageRetrieval::new(day(2024, 6, 9), day(2024, 6, 5)).unwrap();
    expect_fetch(r.next_step());
    let out = r.accept_page(vec![msg("9", day(2024, 6, 3))]);
    assert!(out.is_empty());
    assert!(r.is_finished());
    assert!(matches!(r.next_step(), RetrievalStep::Finished));
    assert_eq!(r.fetch_count(), 1);
}

#[test]
fn sorted_page_emits_exactly_the_window() {
    let mut r = MessageRetrieval::new(day(2024, 6, 8), day(2024, 6, 2)).unwrap();
    expect_fetch(r.next_step());
    let page = vec![
        msg("7", day(2024, 6, 10)),
        msg("6", day(2024, 6, 8)),
        msg("5", day(2024, 6, 6)),
        msg("4", day(2024, 6, 2)),
        msg("3", day(2024, 6, 1)),
        msg("2", day(2024, 5, 30)),
    ];
    let out = r.accept_page(page);
    assert_eq!(ids(&out), vec!["6".to_string(), "5".to_string(), "4".to_string()]);
    assert!(r.is_finished());
}

#[test]
fn bounds_are_inclusive() {
    let oldest = day(2024, 6, 1);
    let newest = day(2024, 6, 8);
    let mut r = MessageRetrieval::new(newest, oldest).unwrap();
    expect_fetch(r.next_step());
    let out = r.accept_page(vec![msg("b", newest), msg("a", oldest)]);
    assert_eq!(ids(&out), vec!["b".to_string(), "a".to_string()]);
    assert!(!r.is_finished());
}

#[test]
fn stop_is_mid_page_even_if_later_messages_fit() {
    let mut r = MessageRetrieval::new(day(2024, 6, 8), day(2024, 6, 2)).unwrap();
    expect_fetch(r.next_step());
    let out = r.accept_page(vec![
        msg("3", day(2024, 6, 5)),
        msg("2", day(2024, 6, 1)),
        msg("1", day(2024, 6, 4)),
    ]);
    assert_eq!(ids(&out), vec!["3".to_string()]);
    assert!(r.is_finished());
}

#[test]
fn cursor_is_last_id_even_when_page_is_filtered_out() {
    let mut r = MessageRetrieval::new(day(2024, 6, 8), day(2024, 6, 1)).unwrap();
    expect_fetch(r.next_step());
    let out = r.accept_page(vec![msg("12", day(2024, 6, 20)), msg("11", day(2024, 6, 15))]);
    assert!(out.is_empty());
    let (before_id, _) = expect_fetch(r.next_step());
    assert_eq!(before_id, Some("11".to_string()));
    let out = r.accept_page(vec![msg("10", day(2024, 6, 7)), msg("8", day(2024, 6, 6))]);
    assert_eq!(ids(&out), vec!["10".to_string(), "8".to_string()]);
    let (before_id, _) = expect_fetch(r.next_step());
    assert_eq!(before_id, Some("8".to_string()));
}

#[test]
fn empty_page_ends_after_that_many_fetches() {
    let mut r = MessageRetrieval::new(day(2024, 6, 8), day(2024, 6, 1)).unwrap();
    expect_fetch(r.next_step());
    r.accept_page(vec![msg("3", day(2024, 6, 7))]);
    expect_fetch(r.next_step());
    r.accept_page(vec![msg("2", day(2024, 6, 6))]);
    expect_fetch(r.next_step());
    let out = r.accept_page(vec![]);
    assert!(out.is_empty());
    assert!(r.is_finished());
    assert_eq!(r.fetch_count(), 3);
    assert!(matches!(r.next_step(), RetrievalStep::Finished));
    assert!(matches!(r.next_step(), RetrievalStep::Finished));
    assert_eq!(r.fetch_count(), 3);
    let out = r.accept_page(vec![msg("1", day(2024, 6, 5))]);
    assert!(out.is_empty());
}

#[test]
fn only_fetches_after_the_first_are_delayed() {
    let mut r = MessageRetrieval::new(day(2024, 6, 30), day(2024, 6, 1)).unwrap();
    let mut delays = vec![];
    for (i, d) in [20u32, 15, 10].iter().enumerate() {
        let (_, delay) = expect_fetch(r.next_step());
        delays.push(delay);
        r.accept_page(vec![msg(&format!("{i}"), day(2024, 6, *d))]);
    }
    assert_eq!(delays, vec![0, 1000, 1000]);
    assert_eq!(RATE_LIMIT_MS, 1000);
}

#[test]
fn abort_stops_all_fetching() {
    let mut r = MessageRetrieval::new(day(2024, 6, 8), day(2024, 6, 1)).unwrap();
    expect_fetch(r.next_step());
    r.abort();
    assert!(r.is_finished());
    assert!(matches!(r.next_step(), RetrievalStep::Finished));
    assert_eq!(r.fetch_count(), 1);
}

#[test]
fn history_over_pages_emits_the_window_in_order() {
    let history = vec![
        vec![msg("9", day(2024, 6, 12)), msg("8", day(2024, 6, 10))],
        vec![msg("7", day(2024, 6, 8)), msg("6", day(2024, 6, 6))],
        vec![msg("5", day(2024, 6, 4)), msg("4", day(2024, 6, 1)), msg("3", day(2024, 5, 30))],
        vec![msg("2", day(2024, 5, 20))],
    ];
    let mut r = MessageRetrieval::new(day(2024, 6, 9), day(2024, 6, 1)).unwrap();
    let mut pages = history.into_iter();
    let mut out = vec![];
    while let RetrievalStep::Fetch { .. } = r.next_step() {
        let page = pages.next().unwrap_or_default();
        out.extend(r.accept_page(page));
    }
    assert_eq!(
        ids(&out),
        vec!["7".to_string(), "6".to_string(), "5".to_string(), "4".to_string()]
    );
    assert_eq!(r.fetch_count(), 3);
    assert_eq!(pages.next().map(|p| p.len()), Some(1));
}
