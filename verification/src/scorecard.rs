//! Per-session scorecards: accumulated counts of correct answers by food
//! category plus a running total.
use vstd::prelude::*;
use vstd::string::StrSliceExecFns;
use vstd::string::StringExecFns;

verus! {

/// A session's accumulated answer counts. One scorecard exists per session
/// id; `total` counts every correct answer ever tallied for the session,
/// including answers whose category matched no known category (those bump
/// `total` alone).
pub struct Scorecard {
    pub ulid: String,
    pub beef: i32,
    pub fish: i32,
    pub chicken: i32,
    pub veg: i32,
    pub total: i32,
}

impl Scorecard {
    /// All counters of a well-formed scorecard are non-negative and the
    /// category counters together never exceed the total, so any single
    /// counter can be incremented whenever `total` has room.
    pub open spec fn wf(self) -> bool {
        &&& 0 <= self.beef
        &&& 0 <= self.fish
        &&& 0 <= self.chicken
        &&& 0 <= self.veg
        &&& self.beef + self.fish + self.chicken + self.veg <= self.total
    }

    pub open spec fn all_zero(self) -> bool {
        self.beef == 0 && self.fish == 0 && self.chicken == 0 && self.veg == 0 && self.total == 0
    }

    /// A blank scorecard for the given session id.
    pub fn new(ulid: String) -> (r: Scorecard)
        ensures
            r.ulid == ulid,
            r.all_zero(),
            r.wf(),
    {
        Scorecard { ulid, beef: 0, fish: 0, chicken: 0, veg: 0, total: 0 }
    }
}

/// `r` is `base` with one correct answer of the given category applied:
/// the matching category counter is one higher, a category outside the
/// fixed set leaves every category counter unchanged, and the total is
/// one higher either way.
pub open spec fn bumped(base: Scorecard, food: Seq<char>, r: Scorecard) -> bool {
    &&& r.ulid == base.ulid
    &&& r.total == base.total + 1
    &&& r.chicken == base.chicken + if food == "chicken"@ {
        1int
    } else {
        0int
    }
    &&& r.fish == base.fish + if food == "fish"@ {
        1int
    } else {
        0int
    }
    &&& r.beef == base.beef + if food == "beef"@ {
        1int
    } else {
        0int
    }
    &&& r.veg == base.veg + if food == "veg"@ {
        1int
    } else {
        0int
    }
}

/// `r` is a freshly created scorecard with one correct answer of the
/// given category applied: the total is 1 and at most the matching
/// category counter is 1.
pub open spec fn bumped_zero(food: Seq<char>, r: Scorecard) -> bool {
    &&& r.total == 1
    &&& r.chicken == if food == "chicken"@ {
        1int
    } else {
        0int
    }
    &&& r.fish == if food == "fish"@ {
        1int
    } else {
        0int
    }
    &&& r.beef == if food == "beef"@ {
        1int
    } else {
        0int
    }
    &&& r.veg == if food == "veg"@ {
        1int
    } else {
        0int
    }
}

/// A correct tally whose category lies outside the fixed category set
/// raises the total alone: every known category counter is exactly what
/// it was.
pub proof fn lemma_unknown_category(base: Scorecard, food: Seq<char>, r: Scorecard)
    requires
        bumped(base, food, r),
        !crate::session::valid_flavour(food),
    ensures
        r.total == base.total + 1,
        r.chicken == base.chicken,
        r.fish == base.fish,
        r.beef == base.beef,
        r.veg == base.veg,
        r.ulid == base.ulid,
{
}

/// Applies one correct answer to a scorecard: the matching category
/// counter is incremented when the category is one of the fixed set, and
/// the total is incremented unconditionally, so an unrecognized category
/// raises the total alone.
pub fn apply_tally(card: Scorecard, food: &str) -> (r: Scorecard)
    requires
        card.wf(),
        card.total < i32::MAX,
    ensures
        bumped(card, food@, r),
        r.wf(),
{
    proof {
        reveal_strlit("chicken");
        reveal_strlit("fish");
        reveal_strlit("beef");
        reveal_strlit("veg");
        assert("chicken"@.len() == 7 && "fish"@.len() == 4 && "beef"@.len() == 4 && "veg"@.len()
            == 3);
        assert("fish"@[0] == 'f' && "beef"@[0] == 'b');
        assert("fish"@ != "beef"@);
    }
    let mut card = card;
    if str_is(food, "chicken") {
        card.chicken = card.chicken + 1;
    } else if str_is(food, "fish") {
        card.fish = card.fish + 1;
    } else if str_is(food, "beef") {
        card.beef = card.beef + 1;
    } else if str_is(food, "veg") {
        card.veg = card.veg + 1;
    }
    card.total = card.total + 1;
    card
}

/// Whether two string slices hold the same characters.
pub fn str_is(s: &str, t: &str) -> (r: bool)
    ensures
        r == (s@ == t@),
{
    let a = s.to_owned();
    let b = t.to_owned();
    a == b
}

/// The store key a session's scorecard lives under.
pub fn scorecard_key(ulid: &String) -> (r: String)
    ensures
        r@ == "fw-"@ + ulid@,
{
    let mut key = "fw-".to_owned();
    key.append(ulid.as_str());
    key
}

/// Whether a store key names a scorecard: it starts with the scorecard
/// key prefix.
pub fn is_session_key(key: &str) -> (r: bool)
    ensures
        r == (key@.len() >= 3 && key@.take(3) == "fw-"@),
{
    proof {
        reveal_strlit("fw-");
    }
    if key.unicode_len() < 3 {
        return false;
    }
    let r = key.get_char(0) == 'f' && key.get_char(1) == 'w' && key.get_char(2) == '-';
    proof {
        if r {
            assert(key@.take(3) =~= "fw-"@);
        } else {
            assert(key@.take(3)[0] == key@[0] && key@.take(3)[1] == key@[1] && key@.take(3)[2]
                == key@[2]);
        }
    }
    r
}

/// Projects a scorecard for a session out of what the store held: the
/// stored scorecard when one was read, and a blank scorecard for the
/// session otherwise. This read path never fails: a missing or unreadable
/// scorecard reads as all zeroes.
pub fn read_scorecard(ulid: String, prior: Option<Scorecard>) -> (r: Scorecard)
    ensures
        match prior {
            Some(c) => r == c,
            None => r.ulid == ulid && r.all_zero() && r.wf(),
        },
{
    match prior {
        Some(c) => c,
        None => Scorecard::new(ulid),
    }
}

} // verus!
