//! The global leaderboard: a persisted collection of submitted scores,
//! keyed by session id, from which the visible top-10 board is derived on
//! every read.
//!
//! The persisted collection is handed in and out as a vector of entries
//! with pairwise distinct session ids. An entry that fails to rank among
//! the visible top 10 at submission time is deleted from the collection at
//! once; entries that ranked when submitted are retained indefinitely,
//! even after later submissions push them out of the visible board.
//!
//! Entries are ranked by descending score. Ties keep the order of the
//! stored collection, which in turn keeps insertion order, so among equal
//! scores the earlier submission ranks first; callers must not rely on any
//! particular tie order.
use vstd::prelude::*;

verus! {

/// One submitted score: the session it came from, the player's name and
/// the claimed score. The score is caller-supplied, not derived from the
/// session's scorecard.
pub struct HighScore {
    pub score: i32,
    pub username: String,
    pub ulid: Option<String>,
}

/// The outcome of a score submission: whether it ranked, its 1-based rank
/// within the visible board (0 when it did not rank), and the visible
/// board itself.
pub struct HighScoreResult {
    pub is_high_score: bool,
    pub rank: usize,
    pub high_score_table: Vec<HighScore>,
}

/// Why a score submission was rejected.
#[derive(Clone, Copy, Debug, PartialEq, Eq, Structural)]
pub enum SubmitError {
    /// The submitted entry carries no session id.
    InvalidEntry,
}

/// The entry carries the given session id.
pub open spec fn has_ulid(e: HighScore, u: Seq<char>) -> bool {
    match e.ulid {
        Some(s) => s@ == u,
        None => false,
    }
}

/// Every stored entry carries a session id and no two entries share one.
pub open spec fn wf_store(s: Seq<HighScore>) -> bool {
    &&& (forall|i: int| 0 <= i < s.len() ==> (#[trigger] s[i].ulid) is Some)
    &&& (forall|i: int, j: int|
        0 <= i < j < s.len() ==> (#[trigger] s[i].ulid)->0@ != (#[trigger] s[j].ulid)->0@)
}

/// Scores never increase along the sequence.
pub open spec fn sorted_desc(s: Seq<HighScore>) -> bool {
    forall|i: int, j: int| 0 <= i < j < s.len() ==> #[trigger] s[i].score >= #[trigger] s[j].score
}

/// Where a score belongs in a descending sequence: the first index whose
/// score is strictly below it, or the length when there is none. Inserting
/// there places an entry after every entry with an equal or higher score.
pub open spec fn insert_pos(s: Seq<HighScore>, sc: i32) -> int
    decreases s.len(),
{
    if s.len() == 0 {
        0
    } else if s[0].score < sc {
        0
    } else {
        1 + insert_pos(s.drop_first(), sc)
    }
}

/// A descending sequence with one entry inserted at its place.
pub open spec fn insert_desc(s: Seq<HighScore>, e: HighScore) -> Seq<HighScore> {
    s.insert(insert_pos(s, e.score), e)
}

/// The stored entries in descending score order: each entry in turn is
/// inserted after every earlier entry with an equal or higher score, so
/// ties keep their stored order.
pub open spec fn sort_desc_spec(s: Seq<HighScore>) -> Seq<HighScore>
    decreases s.len(),
{
    if s.len() == 0 {
        Seq::empty()
    } else {
        insert_desc(sort_desc_spec(s.drop_last()), s.last())
    }
}

/// The visible leaderboard: the stored entries in descending score order,
/// cut down to the best 10.
pub open spec fn board_spec(s: Seq<HighScore>) -> Seq<HighScore> {
    let sorted = sort_desc_spec(s);
    if sorted.len() <= 10 {
        sorted
    } else {
        sorted.take(10)
    }
}

/// The first index carrying the given session id, or the length when none
/// does.
pub open spec fn find_pos(s: Seq<HighScore>, u: Seq<char>) -> int
    decreases s.len(),
{
    if s.len() == 0 {
        0
    } else if has_ulid(s[0], u) {
        0
    } else {
        1 + find_pos(s.drop_first(), u)
    }
}

/// The 1-based rank of the given session id within a board, or 0 when the
/// board does not contain it.
pub open spec fn rank_spec(board: Seq<HighScore>, u: Seq<char>) -> int {
    if find_pos(board, u) < board.len() {
        find_pos(board, u) + 1
    } else {
        0
    }
}

/// The stored collection with the entry for the given session id replaced
/// in place, or with the entry appended when no entry carries that id.
pub open spec fn upsert_spec(s: Seq<HighScore>, e: HighScore) -> Seq<HighScore> {
    let p = find_pos(s, e.ulid->0@);
    if p < s.len() {
        s.update(p, e)
    } else {
        s.push(e)
    }
}

/// The stored collection without any entry carrying the given session id.
pub open spec fn remove_ulid(s: Seq<HighScore>, u: Seq<char>) -> Seq<HighScore>
    decreases s.len(),
{
    if s.len() == 0 {
        Seq::empty()
    } else {
        let rest = remove_ulid(s.drop_last(), u);
        if has_ulid(s.last(), u) {
            rest
        } else {
            rest.push(s.last())
        }
    }
}

/// `insert_pos` lands within the sequence, after every score at least as
/// high and before the first strictly lower one.
pub proof fn lemma_insert_pos_props(s: Seq<HighScore>, sc: i32)
    ensures
        0 <= insert_pos(s, sc) <= s.len(),
        forall|k: int| 0 <= k < insert_pos(s, sc) ==> #[trigger] s[k].score >= sc,
        insert_pos(s, sc) < s.len() ==> s[insert_pos(s, sc)].score < sc,
    decreases s.len(),
{
    if s.len() > 0 && !(s[0].score < sc) {
        lemma_insert_pos_props(s.drop_first(), sc);
        assert forall|k: int| 0 <= k < insert_pos(s, sc) implies #[trigger] s[k].score >= sc by {
            if k > 0 {
                assert(s.drop_first()[k - 1] == s[k]);
            }
        }
        if insert_pos(s, sc) < s.len() {
            assert(s.drop_first()[insert_pos(s.drop_first(), sc)] == s[insert_pos(s, sc)]);
        }
    }
}

/// `find_pos` lands within the sequence, after every entry with another
/// session id and on an entry with the sought one when any exists.
pub proof fn lemma_find_pos_props(s: Seq<HighScore>, u: Seq<char>)
    ensures
        0 <= find_pos(s, u) <= s.len(),
        forall|k: int| 0 <= k < find_pos(s, u) ==> !has_ulid(#[trigger] s[k], u),
        find_pos(s, u) < s.len() ==> has_ulid(s[find_pos(s, u)], u),
    decreases s.len(),
{
    if s.len() > 0 && !has_ulid(s[0], u) {
        lemma_find_pos_props(s.drop_first(), u);
        assert forall|k: int| 0 <= k < find_pos(s, u) implies !has_ulid(#[trigger] s[k], u) by {
            if k > 0 {
                assert(s.drop_first()[k - 1] == s[k]);
            }
        }
        if find_pos(s, u) < s.len() {
            assert(s.drop_first()[find_pos(s.drop_first(), u)] == s[find_pos(s, u)]);
        }
    }
}

/// Inserting an entry at its place keeps a descending sequence descending.
pub proof fn lemma_insert_desc_sorted(s: Seq<HighScore>, e: HighScore)
    requires
        sorted_desc(s),
    ensures
        sorted_desc(insert_desc(s, e)),
        insert_desc(s, e).len() == s.len() + 1,
{
    let p = insert_pos(s, e.score);
    lemma_insert_pos_props(s, e.score);
    let t = s.insert(p, e);
    assert forall|i: int, j: int|
        0 <= i < j < t.len() implies #[trigger] t[i].score >= #[trigger] t[j].score by {
        if i < p && j > p {
            assert(t[i] == s[i] && t[j] == s[j - 1]);
        } else if i == p && j > p {
            assert(t[j] == s[j - 1] && s[j - 1].score <= s[p].score);
        } else if i < p && j == p {
            assert(t[i] == s[i]);
        }
    }
}

/// The descending ordering of the stored entries is a permutation in
/// length: sorting neither adds nor drops entries, and the result is
/// descending.
pub proof fn lemma_sort_desc_props(s: Seq<HighScore>)
    ensures
        sorted_desc(sort_desc_spec(s)),
        sort_desc_spec(s).len() == s.len(),
    decreases s.len(),
{
    if s.len() > 0 {
        lemma_sort_desc_props(s.drop_last());
        lemma_insert_desc_sorted(sort_desc_spec(s.drop_last()), s.last());
    }
}

/// The descending ordering is a permutation of the stored entries: each
/// entry occurs in it exactly as often as it is stored.
pub proof fn lemma_sort_desc_permutes(s: Seq<HighScore>)
    ensures
        sort_desc_spec(s).to_multiset() == s.to_multiset(),
    decreases s.len(),
{
    broadcast use vstd::seq_lib::group_to_multiset_ensures;

    if s.len() > 0 {
        let prefix = s.drop_last();
        let e = s.last();
        lemma_sort_desc_permutes(prefix);
        let t = sort_desc_spec(prefix);
        let p = insert_pos(t, e.score);
        lemma_insert_pos_props(t, e.score);
        let t2 = t.insert(p, e);
        assert(t2.remove(p) =~= t);
        assert(t2.remove(p).to_multiset() =~= t2.to_multiset().remove(t2[p]));
        assert(t2[p] == e);
        assert(t2.contains(e));
        assert(t2.to_multiset() =~= t.to_multiset().insert(e)) by {
            assert forall|x: HighScore| t2.to_multiset().count(x) == t.to_multiset().insert(
                e,
            ).count(x) by {
                assert(t.to_multiset() == t2.to_multiset().remove(e));
                assert(t2.to_multiset().count(e) > 0);
            }
        }
        assert(prefix.push(e) =~= s);
        assert(prefix.push(e).to_multiset() =~= prefix.to_multiset().insert(e));
    }
}

/// The visible board is descending and never longer than 10 entries.
pub proof fn lemma_board_props(s: Seq<HighScore>)
    ensures
        sorted_desc(board_spec(s)),
        board_spec(s).len() <= 10,
        board_spec(s).len() == if s.len() <= 10 {
            s.len() as int
        } else {
            10int
        },
{
    lemma_sort_desc_props(s);
    let sorted = sort_desc_spec(s);
    if sorted.len() > 10 {
        assert forall|i: int, j: int|
            0 <= i < j < board_spec(s).len() implies #[trigger] board_spec(s)[i].score
            >= #[trigger] board_spec(s)[j].score by {
            assert(board_spec(s)[i] == sorted[i] && board_spec(s)[j] == sorted[j]);
        }
    }
}

/// Removing a session id leaves entries that all come from the original
/// collection and none of which carries that id; a well-formed collection
/// stays well-formed.
pub proof fn lemma_remove_ulid_props(s: Seq<HighScore>, u: Seq<char>)
    ensures
        forall|i: int|
            0 <= i < remove_ulid(s, u).len() ==> !has_ulid(#[trigger] remove_ulid(s, u)[i], u),
        forall|i: int|
            0 <= i < remove_ulid(s, u).len() ==> s.contains(#[trigger] remove_ulid(s, u)[i]),
        wf_store(s) ==> wf_store(remove_ulid(s, u)),
        remove_ulid(s, u).len() <= s.len(),
    decreases s.len(),
{
    if s.len() > 0 {
        let prefix = s.drop_last();
        lemma_remove_ulid_props(prefix, u);
        let rest = remove_ulid(prefix, u);
        assert forall|i: int| 0 <= i < rest.len() implies s.contains(rest[i]) by {
            assert(prefix.contains(rest[i]));
            let j = choose|j: int| 0 <= j < prefix.len() && prefix[j] == rest[i];
            assert(s[j] == rest[i]);
        }
        if wf_store(s) {
            assert forall|i: int, j: int| 0 <= i < j < prefix.len() implies (
            #[trigger] prefix[i].ulid)->0@ != (#[trigger] prefix[j].ulid)->0@ by {
                assert(s[i] == prefix[i] && s[j] == prefix[j]);
            }
            assert(wf_store(prefix));
            if !has_ulid(s.last(), u) {
                let r = rest.push(s.last());
                assert forall|i: int, j: int| 0 <= i < j < r.len() implies (
                #[trigger] r[i].ulid)->0@ != (#[trigger] r[j].ulid)->0@ by {
                    if j == r.len() - 1 {
                        assert(prefix.contains(rest[i]));
                        let k = choose|k: int| 0 <= k < prefix.len() && prefix[k] == rest[i];
                        assert(s[k] == rest[i]);
                        assert(s[k].ulid->0@ != s[s.len() - 1].ulid->0@);
                    }
                }
            }
        }
    }
}

/// Upserting an entry that carries a session id keeps the collection
/// well-formed, and the collection afterwards contains that id.
pub proof fn lemma_upsert_wf(s: Seq<HighScore>, e: HighScore)
    requires
        wf_store(s),
        e.ulid is Some,
    ensures
        wf_store(upsert_spec(s, e)),
        upsert_spec(s, e).len() >= 1,
{
    let u = e.ulid->0@;
    let p = find_pos(s, u);
    lemma_find_pos_props(s, u);
    if p < s.len() {
        let t = s.update(p, e);
        assert forall|i: int, j: int| 0 <= i < j < t.len() implies (#[trigger] t[i].ulid)->0@ != (
        #[trigger] t[j].ulid)->0@ by {
            if i != p && j != p {
                assert(t[i] == s[i] && t[j] == s[j]);
            } else if i == p {
                assert(t[j] == s[j]);
                assert(has_ulid(s[p], u));
                assert(s[p].ulid->0@ != s[j].ulid->0@);
            } else {
                assert(t[i] == s[i]);
                assert(has_ulid(s[p], u));
                assert(s[i].ulid->0@ != s[p].ulid->0@);
            }
        }
    } else {
        let t = s.push(e);
        assert forall|i: int, j: int| 0 <= i < j < t.len() implies (#[trigger] t[i].ulid)->0@ != (
        #[trigger] t[j].ulid)->0@ by {
            if j == t.len() - 1 {
                assert(t[i] == s[i]);
                assert(!has_ulid(s[i], u));
            } else {
                assert(t[i] == s[i] && t[j] == s[j]);
            }
        }
    }
}

impl HighScore {
    /// An exact copy of the entry.
    pub fn dup(&self) -> (r: HighScore)
        ensures
            r == *self,
    {
        let ulid = match &self.ulid {
            Some(s) => Some(s.clone()),
            None => None,
        };
        HighScore { score: self.score, username: self.username.clone(), ulid }
    }
}

/// Finds where the entry's score belongs in the descending sequence.
fn insert_index(v: &Vec<HighScore>, sc: i32) -> (p: usize)
    ensures
        p == insert_pos(v@, sc),
{
    let mut p: usize = 0;
    while p < v.len() && v[p].score >= sc
        invariant
            0 <= p <= v@.len(),
            forall|k: int| 0 <= k < p ==> #[trigger] v@[k].score >= sc,
        decreases v@.len() - p,
    {
        p = p + 1;
    }
    proof {
        lemma_insert_pos_props(v@, sc);
        let q = insert_pos(v@, sc);
        if p < q {
            assert(v@[p as int].score >= sc);
        }
        if q < p {
            assert(v@[q].score >= sc);
        }
    }
    p
}

/// The stored entries in descending score order; ties keep stored order.
fn sort_desc(v: &Vec<HighScore>) -> (r: Vec<HighScore>)
    ensures
        r@ == sort_desc_spec(v@),
{
    let mut out: Vec<HighScore> = Vec::new();
    let mut i: usize = 0;
    while i < v.len()
        invariant
            0 <= i <= v@.len(),
            out@ == sort_desc_spec(v@.take(i as int)),
        decreases v@.len() - i,
    {
        let e = v[i].dup();
        let p = insert_index(&out, e.score);
        proof {
            lemma_insert_pos_props(out@, e.score);
        }
        out.insert(p, e);
        proof {
            let t = v@.take(i + 1);
            assert(t.drop_last() =~= v@.take(i as int));
            assert(t.last() == v@[i as int]);
        }
        i = i + 1;
    }
    proof {
        assert(v@.take(v@.len() as int) =~= v@);
    }
    out
}

/// The entry carries the given session id.
fn entry_has_ulid(e: &HighScore, u: &String) -> (r: bool)
    ensures
        r == has_ulid(*e, u@),
{
    match &e.ulid {
        Some(s) => *s == *u,
        None => false,
    }
}

/// Finds the first entry carrying the given session id.
fn find_index(v: &Vec<HighScore>, u: &String) -> (p: usize)
    ensures
        p == find_pos(v@, u@),
{
    let mut p: usize = 0;
    while p < v.len() && !entry_has_ulid(&v[p], u)
        invariant
            0 <= p <= v@.len(),
            forall|k: int| 0 <= k < p ==> !has_ulid(#[trigger] v@[k], u@),
        decreases v@.len() - p,
    {
        p = p + 1;
    }
    proof {
        lemma_find_pos_props(v@, u@);
        let q = find_pos(v@, u@);
        if p < q {
            assert(!has_ulid(v@[p as int], u@));
        }
        if q < p {
            assert(!has_ulid(v@[q], u@));
        }
    }
    p
}

/// Derives the visible leaderboard from the stored collection: the
/// entries in descending score order, cut down to the best 10. Ties keep
/// stored order.
pub fn get_highscore(stored: &Vec<HighScore>) -> (board: Vec<HighScore>)
    ensures
        board@ == board_spec(stored@),
        sorted_desc(board@),
        board@.len() <= 10,
        forall|i: int| 0 <= i < board@.len() ==> stored@.contains(#[trigger] board@[i]),
{
    let mut board = sort_desc(stored);
    proof {
        lemma_board_props(stored@);
        lemma_sort_desc_permutes(stored@);
        broadcast use vstd::seq_lib::group_to_multiset_ensures;

        assert forall|i: int|
            0 <= i < board_spec(stored@).len() implies stored@.contains(
            #[trigger] board_spec(stored@)[i],
        ) by {
            let x = board_spec(stored@)[i];
            assert(sort_desc_spec(stored@)[i] == x);
            assert(sort_desc_spec(stored@).contains(x));
            assert(sort_desc_spec(stored@).to_multiset().count(x) > 0);
        }
    }
    board.truncate(10);
    proof {
        if sort_desc_spec(stored@).len() > 10 {
            assert(board@ =~= board_spec(stored@));
        }
    }
    board
}

/// Upserts the entry into the stored collection, keyed by its session id:
/// an entry already stored under that id is replaced in place, otherwise
/// the entry is appended. An entry without a session id is rejected as
/// `InvalidEntry`.
pub fn replace_highscore(stored: Vec<HighScore>, entry: HighScore) -> (r: Result<
    Vec<HighScore>,
    SubmitError,
>)
    requires
        wf_store(stored@),
    ensures
        match r {
            Ok(new_stored) => entry.ulid is Some && new_stored@ == upsert_spec(stored@, entry)
                && wf_store(new_stored@),
            Err(e) => e == SubmitError::InvalidEntry && entry.ulid is None,
        },
{
    let u = match &entry.ulid {
        Some(s) => s.clone(),
        None => { return Err(SubmitError::InvalidEntry) },
    };
    proof {
        lemma_upsert_wf(stored@, entry);
    }
    let mut stored = stored;
    let p = find_index(&stored, &u);
    proof {
        lemma_find_pos_props(stored@, u@);
    }
    if p < stored.len() {
        let ghost orig = stored@;
        stored.remove(p);
        stored.insert(p, entry);
        proof {
            assert(stored@ =~= orig.update(p as int, entry));
        }
        Ok(stored)
    } else {
        stored.push(entry);
        Ok(stored)
    }
}

/// Deletes every entry carrying the given session id from the stored
/// collection (at most one exists in a well-formed collection).
pub fn delete_highscore(stored: Vec<HighScore>, ulid: &String) -> (r: Vec<HighScore>)
    ensures
        r@ == remove_ulid(stored@, ulid@),
        wf_store(stored@) ==> wf_store(r@),
        forall|i: int| 0 <= i < r@.len() ==> !has_ulid(#[trigger] r@[i], ulid@),
{
    let mut out: Vec<HighScore> = Vec::new();
    let mut i: usize = 0;
    while i < stored.len()
        invariant
            0 <= i <= stored@.len(),
            out@ == remove_ulid(stored@.take(i as int), ulid@),
        decreases stored@.len() - i,
    {
        let keep = !entry_has_ulid(&stored[i], ulid);
        if keep {
            out.push(stored[i].dup());
        }
        proof {
            let t = stored@.take(i + 1);
            assert(t.drop_last() =~= stored@.take(i as int));
            assert(t.last() == stored@[i as int]);
        }
        i = i + 1;
    }
    proof {
        assert(stored@.take(stored@.len() as int) =~= stored@);
        lemma_remove_ulid_props(stored@, ulid@);
    }
    out
}

/// Applies one score submission to the stored collection and reports the
/// outcome.
///
/// The entry is upserted under its session id and the visible board is
/// derived from the upserted collection. The entry's 1-based rank within
/// that board is reported, 0 when it did not make the board; a submission
/// that did not rank is deleted from the collection again, so it leaves
/// no residual state, while entries that ranked at submission time remain
/// stored even after later submissions push them out of the board. An
/// entry without a session id is rejected as `InvalidEntry` and nothing
/// changes.
pub fn submit_score(stored: Vec<HighScore>, entry: HighScore) -> (r: Result<
    (Vec<HighScore>, HighScoreResult),
    SubmitError,
>)
    requires
        wf_store(stored@),
    ensures
        match r {
            Ok((new_stored, res)) => {
                let upserted = upsert_spec(stored@, entry);
                let u = entry.ulid->0@;
                &&& entry.ulid is Some
                &&& res.high_score_table@ == board_spec(upserted)
                &&& res.rank == rank_spec(board_spec(upserted), u)
                &&& res.is_high_score == (res.rank > 0)
                &&& new_stored@ == if res.rank == 0 {
                    remove_ulid(upserted, u)
                } else {
                    upserted
                }
                &&& wf_store(new_stored@)
                &&& sorted_desc(res.high_score_table@)
                &&& res.high_score_table@.len() <= 10
                &&& (res.rank == 0 ==> forall|i: int|
                    0 <= i < new_stored@.len() ==> !has_ulid(#[trigger] new_stored@[i], u))
                &&& (res.rank > 0 ==> new_stored@.contains(entry))
            },
            Err(e) => e == SubmitError::InvalidEntry && entry.ulid is None,
        },
{
    let ghost orig = stored@;
    let u = match &entry.ulid {
        Some(s) => s.clone(),
        None => { return Err(SubmitError::InvalidEntry) },
    };
    let upserted = match replace_highscore(stored, entry) {
        Ok(v) => v,
        Err(e) => { return Err(e) },
    };
    let board = get_highscore(&upserted);
    let p = find_index(&board, &u);
    proof {
        lemma_find_pos_props(board@, u@);
    }
    if p < board.len() {
        let rank = p + 1;
        proof {
            let q = find_pos(orig, u@);
            lemma_find_pos_props(orig, u@);
            if q < orig.len() {
                assert(upserted@[q] == entry);
            } else {
                assert(upserted@[orig.len() as int] == entry);
            }
        }
        let res = HighScoreResult { is_high_score: true, rank, high_score_table: board };
        Ok((upserted, res))
    } else {
        let new_stored = delete_highscore(upserted, &u);
        let res = HighScoreResult { is_high_score: false, rank: 0, high_score_table: board };
        Ok((new_stored, res))
    }
}

} // verus!
