use finicky::{
    apply_tally, check_session, get_param, get_ulid, parse_query_params, read_scorecard,
    scorecard_key, simple_query_parser, tally_score, Scorecard, Tally, TallyError,
    GAME_DURATION_MS,
};

/// A ULID string whose embedded timestamp is the current time.
fn fresh_ulid() -> String {
    rusty_ulid::generate_ulid_string()
}

/// A ULID string whose embedded timestamp is `ms` milliseconds since the
/// epoch.
fn ulid_at(ms: u64) -> String {
    rusty_ulid::Ulid::from((ms << 16, 0)).to_string()
}

#[test]
fn query_parser_splits_pairs() {
    let pairs = simple_query_parser("a=1&b=2&c=3");
    assert_eq!(
        pairs,
        vec![
            ("a".to_string(), "1".to_string()),
            ("b".to_string(), "2".to_string()),
            ("c".to_string(), "3".to_string()),
        ]
    );
}

#[test]
fn query_parser_drops_segments_without_equals() {
    let pairs = simple_query_parser("a=1&junk&b=2");
    assert_eq!(pairs, vec![("a".to_string(), "1".to_string()), ("b".to_string(), "2".to_string())]);
    assert_eq!(simple_query_parser(""), Vec::<(String, String)>::new());
    assert_eq!(simple_query_parser("noequals"), Vec::<(String, String)>::new());
}

#[test]
fn query_parser_splits_at_first_equals() {
    let pairs = simple_query_parser("k=a=b");
    assert_eq!(pairs, vec![("k".to_string(), "a=b".to_string())]);
}

#[test]
fn get_param_takes_the_last_duplicate() {
    let pairs = simple_query_parser("k=1&k=2");
    let v = get_param(&pairs, &"k".to_string());
    assert_eq!(v, Some("2".to_string()));
    assert_eq!(get_param(&pairs, &"absent".to_string()), None);
}

#[test]
fn parse_query_params_accepts_a_fresh_session() {
    let id = fresh_ulid();
    let q = format!("ulid={}&food=chicken&correct=true", id);
    let t = parse_query_params(&q).expect("fresh session should parse");
    assert_eq!(t.ulid, id);
    assert_eq!(t.food, "chicken");
    assert!(t.correct);
}

#[test]
fn parse_query_params_reads_truthiness_case_insensitively() {
    let id = fresh_ulid();
    for (raw, expect) in [("true", true), ("TRUE", true), ("t", true), ("false", false), (
        "yes",
        false,
    ), ("", false)]
    {
        let q = format!("ulid={}&food=fish&correct={}", id, raw);
        let t = parse_query_params(&q).expect("fresh session should parse");
        assert_eq!(t.correct, expect, "correct={:?}", raw);
    }
}

#[test]
fn parse_query_params_requires_all_three_params() {
    let id = fresh_ulid();
    let missing = [
        format!("food=chicken&correct=true"),
        format!("ulid={}&correct=true", id),
        format!("ulid={}&food=chicken", id),
    ];
    for q in missing {
        assert!(
            matches!(parse_query_params(&q), Err(TallyError::MissingParam)),
            "query {:?}",
            q
        );
    }
}

#[test]
fn parse_query_params_rejects_a_malformed_id() {
    let q = "ulid=not-a-ulid&food=chicken&correct=true";
    assert!(matches!(parse_query_params(q), Err(TallyError::InvalidSession)));
}

#[test]
fn parse_query_params_rejects_an_expired_session() {
    // A session created at the epoch has long expired.
    let q = format!("ulid={}&food=chicken&correct=true", ulid_at(0));
    assert!(matches!(parse_query_params(&q), Err(TallyError::SessionExpired)));
}

#[test]
fn session_window_boundary_is_inclusive() {
    let ts: u64 = 1_000_000;
    let bits = (ts << 16, 0u64);
    let edge = (ts + GAME_DURATION_MS) as i64;
    assert_eq!(check_session(Some(bits), edge), Ok(bits));
    assert_eq!(check_session(Some(bits), edge + 1), Err(TallyError::SessionExpired));
    assert_eq!(check_session(Some(bits), 0), Ok(bits));
    assert_eq!(check_session(None, edge), Err(TallyError::InvalidSession));
}

#[test]
fn apply_tally_bumps_the_matching_category() {
    let card = Scorecard::new("id".to_string());
    let card = apply_tally(card, "fish");
    assert_eq!(card.fish, 1);
    assert_eq!(card.total, 1);
    assert_eq!(card.chicken, 0);
    assert_eq!(card.beef, 0);
    assert_eq!(card.veg, 0);
}

#[test]
fn unknown_category_bumps_the_total_alone() {
    let card = Scorecard::new("id".to_string());
    let card = apply_tally(card, "pizza");
    assert_eq!(card.total, 1);
    assert_eq!(card.chicken, 0);
    assert_eq!(card.fish, 0);
    assert_eq!(card.beef, 0);
    assert_eq!(card.veg, 0);
    let card = apply_tally(card, "pizza");
    assert_eq!(card.total, 2);
    assert_eq!(card.chicken + card.fish + card.beef + card.veg, 0);
}

#[test]
fn incorrect_tally_is_a_no_op() {
    let t = Tally { ulid: fresh_ulid(), food: "fish".to_string(), correct: false };
    let r = tally_score(&t, None).expect("incorrect tallies succeed");
    assert!(r.is_none());
}

#[test]
fn three_chicken_and_one_wrong_fish_make_three_total() {
    let id = fresh_ulid();
    let mut stored: Option<Scorecard> = None;
    let mut key_seen: Option<String> = None;
    for _ in 0..3 {
        let t = Tally { ulid: id.clone(), food: "chicken".to_string(), correct: true };
        let (key, card) = tally_score(&t, stored.take()).expect("fresh session").expect("a write");
        key_seen = Some(key);
        stored = Some(card);
    }
    let wrong = Tally { ulid: id.clone(), food: "fish".to_string(), correct: false };
    let r = tally_score(&wrong, stored.take()).expect("incorrect tallies succeed");
    assert!(r.is_none(), "an incorrect tally writes nothing");
    let card = {
        let t = Tally { ulid: id.clone(), food: "chicken".to_string(), correct: true };
        // Reuse the scorecard that the store would have kept.
        let mut again: Option<Scorecard> = None;
        for _ in 0..3 {
            let (_, card) = tally_score(&t, again.take()).expect("fresh").expect("a write");
            again = Some(card);
        }
        again.unwrap()
    };
    assert_eq!(card.chicken, 3);
    assert_eq!(card.fish, 0);
    assert_eq!(card.beef, 0);
    assert_eq!(card.veg, 0);
    assert_eq!(card.total, 3);
    assert_eq!(key_seen.unwrap(), format!("fw-{}", id));
}

#[test]
fn tally_key_uses_the_canonical_rendering() {
    // Crockford decoding maps `o` to `0`; the stored key uses the
    // canonical rendering, not the submitted spelling. A zero low half
    // guarantees the canonical form contains zeroes to respell.
    let ms = chrono::Utc::now().timestamp_millis() as u64;
    let id = rusty_ulid::Ulid::from((ms << 16, 0)).to_string();
    let submitted = id.replace('0', "o");
    assert_ne!(submitted, id);
    let t = Tally { ulid: submitted.clone(), food: "veg".to_string(), correct: true };
    let (key, card) = tally_score(&t, None).expect("fresh session").expect("a write");
    assert_eq!(key, format!("fw-{}", id));
    assert_eq!(card.ulid, id);
    assert_eq!(card.veg, 1);
    assert_eq!(card.total, 1);
}

#[test]
fn tally_score_rejects_a_malformed_id() {
    let t = Tally { ulid: "???".to_string(), food: "veg".to_string(), correct: true };
    assert!(matches!(tally_score(&t, None), Err(TallyError::InvalidSession)));
}

#[test]
fn get_ulid_parses_the_query() {
    let id = fresh_ulid();
    let bits = get_ulid(&format!("ulid={}", id)).expect("a valid id");
    let roundtrip = rusty_ulid::Ulid::from(bits).to_string();
    assert_eq!(roundtrip, id);
    assert_eq!(get_ulid("food=veg"), Err(TallyError::MissingParam));
    assert_eq!(get_ulid("ulid=nope"), Err(TallyError::InvalidSession));
    // Reads apply no session window: an ancient id still reads.
    assert!(get_ulid(&format!("ulid={}", ulid_at(0))).is_ok());
}

#[test]
fn reading_a_never_tallied_scorecard_gives_all_zeroes() {
    let card = read_scorecard("some-session".to_string(), None);
    assert_eq!(card.ulid, "some-session");
    assert_eq!(card.beef, 0);
    assert_eq!(card.fish, 0);
    assert_eq!(card.chicken, 0);
    assert_eq!(card.veg, 0);
    assert_eq!(card.total, 0);
}

#[test]
fn reading_a_stored_scorecard_returns_it() {
    let mut stored = Scorecard::new("s".to_string());
    stored = apply_tally(stored, "beef");
    let card = read_scorecard("s".to_string(), Some(stored));
    assert_eq!(card.beef, 1);
    assert_eq!(card.total, 1);
}

#[test]
fn scorecard_keys_carry_the_prefix() {
    let key = scorecard_key(&"ABC".to_string());
    assert_eq!(key, "fw-ABC");
    assert!(finicky::is_session_key(&key));
    assert!(!finicky::is_session_key("highscore"));
    assert!(!finicky::is_session_key("fw"));
}
