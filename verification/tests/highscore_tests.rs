use finicky::{
    delete_highscore, get_highscore, replace_highscore, submit_score, HighScore, SubmitError,
};

fn entry(score: i32, name: &str, ulid: &str) -> HighScore {
    HighScore { score, username: name.to_string(), ulid: Some(ulid.to_string()) }
}

fn board_scores(board: &[HighScore]) -> Vec<i32> {
    board.iter().map(|e| e.score).collect()
}

fn contains_ulid(list: &[HighScore], ulid: &str) -> bool {
    list.iter().any(|e| e.ulid.as_deref() == Some(ulid))
}

#[test]
fn an_entry_without_an_id_is_invalid() {
    let e = HighScore { score: 5, username: "ann".to_string(), ulid: None };
    assert!(matches!(submit_score(Vec::new(), e), Err(SubmitError::InvalidEntry)));
    let e = HighScore { score: 5, username: "ann".to_string(), ulid: None };
    assert!(matches!(replace_highscore(Vec::new(), e), Err(SubmitError::InvalidEntry)));
}

#[test]
fn first_submission_ranks_first() {
    let (stored, res) = submit_score(Vec::new(), entry(7, "ann", "A")).unwrap();
    assert!(res.is_high_score);
    assert_eq!(res.rank, 1);
    assert_eq!(board_scores(&res.high_score_table), vec![7]);
    assert_eq!(stored.len(), 1);
}

#[test]
fn resubmitting_a_session_replaces_its_entry() {
    let (stored, _) = submit_score(Vec::new(), entry(7, "ann", "A")).unwrap();
    let (stored, res) = submit_score(stored, entry(9, "ann", "A")).unwrap();
    assert_eq!(stored.len(), 1);
    assert_eq!(stored[0].score, 9);
    assert_eq!(res.rank, 1);
    assert_eq!(board_scores(&res.high_score_table), vec![9]);
}

#[test]
fn board_is_sorted_descending_and_capped_at_ten() {
    let mut stored = Vec::new();
    let scores = [3, 14, 1, 9, 2, 6, 5, 35, 8, 11, 4, 13];
    for (i, s) in scores.iter().enumerate() {
        let (st, res) = submit_score(stored, entry(*s, "p", &format!("U{}", i))).unwrap();
        stored = st;
        assert!(res.high_score_table.len() <= 10);
        let b = board_scores(&res.high_score_table);
        let mut sorted = b.clone();
        sorted.sort_by(|a, b| b.cmp(a));
        assert_eq!(b, sorted, "board not descending: {:?}", b);
    }
    let board = get_highscore(&stored);
    assert_eq!(board_scores(&board), vec![35, 14, 13, 11, 9, 8, 6, 5, 4, 3]);
}

#[test]
fn eleventh_ascending_submission_ranks_first_and_evicts_the_lowest() {
    let mut stored = Vec::new();
    let mut last = None;
    for s in 1..=11 {
        let (st, res) = submit_score(stored, entry(s, "p", &format!("U{}", s))).unwrap();
        stored = st;
        last = Some(res);
    }
    let res = last.unwrap();
    assert!(res.is_high_score);
    assert_eq!(res.rank, 1);
    assert_eq!(board_scores(&res.high_score_table), vec![11, 10, 9, 8, 7, 6, 5, 4, 3, 2]);
    assert!(!contains_ulid(&res.high_score_table, "U1"));
    // The outranked entry was never deleted: it ranked when submitted.
    assert!(contains_ulid(&stored, "U1"));
}

#[test]
fn non_qualifying_submission_leaves_no_state() {
    let mut stored = Vec::new();
    for s in 1..=10 {
        let (st, _) = submit_score(stored, entry(s * 10, "p", &format!("U{}", s))).unwrap();
        stored = st;
    }
    let (stored, res) = submit_score(stored, entry(1, "low", "LOW")).unwrap();
    assert!(!res.is_high_score);
    assert_eq!(res.rank, 0);
    assert!(!contains_ulid(&stored, "LOW"), "a non-qualifying entry must be deleted");
    assert_eq!(stored.len(), 10);
}

#[test]
fn ties_keep_stored_order() {
    let (stored, _) = submit_score(Vec::new(), entry(5, "first", "A")).unwrap();
    let (_, res) = submit_score(stored, entry(5, "second", "B")).unwrap();
    assert_eq!(res.rank, 2, "an equal score ranks after the earlier submission");
    assert_eq!(res.high_score_table[0].username, "first");
    assert_eq!(res.high_score_table[1].username, "second");
}

#[test]
fn rank_reflects_position_in_the_board() {
    let mut stored = Vec::new();
    for (s, u) in [(30, "A"), (10, "B")] {
        let (st, _) = submit_score(stored, entry(s, "p", u)).unwrap();
        stored = st;
    }
    let (_, res) = submit_score(stored, entry(20, "p", "C")).unwrap();
    assert!(res.is_high_score);
    assert_eq!(res.rank, 2);
    assert_eq!(board_scores(&res.high_score_table), vec![30, 20, 10]);
}

#[test]
fn delete_highscore_removes_only_that_session() {
    let (stored, _) = submit_score(Vec::new(), entry(3, "a", "A")).unwrap();
    let (stored, _) = submit_score(stored, entry(4, "b", "B")).unwrap();
    let stored = delete_highscore(stored, &"A".to_string());
    assert_eq!(stored.len(), 1);
    assert!(!contains_ulid(&stored, "A"));
    assert!(contains_ulid(&stored, "B"));
    let stored = delete_highscore(stored, &"missing".to_string());
    assert_eq!(stored.len(), 1);
}

#[test]
fn get_highscore_of_an_empty_store_is_empty() {
    let board = get_highscore(&Vec::new());
    assert!(board.is_empty());
}
