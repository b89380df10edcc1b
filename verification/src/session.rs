//! Session issuance: a fresh time-ordered session id together with a
//! procedurally generated menu of food-category prompts.
use vstd::prelude::*;

verus! {

/// Offsets stop being generated once they reach this bound.
pub const MAX_INDEX: usize = 30_000;

/// One prompt of a session's menu: a food category to demand at a given
/// offset from the start of the game.
pub struct MenuItem {
    pub demand: String,
    pub offset: usize,
}

/// A freshly issued session: its id and the menu the player must answer.
pub struct Payload {
    pub id: String,
    pub menu: Vec<MenuItem>,
}

/// The fixed category set a demand is drawn from.
pub open spec fn valid_flavour(s: Seq<char>) -> bool {
    s == "chicken"@ || s == "fish"@ || s == "beef"@ || s == "veg"@
}

/// What every generated menu satisfies: between 10 and 30 items, demands
/// from the fixed category set, offsets strictly increasing from 0 and
/// all below `MAX_INDEX`.
pub open spec fn menu_wf(m: Seq<MenuItem>) -> bool {
    &&& 10 <= m.len() <= 30
    &&& (forall|i: int| 0 <= i < m.len() ==> valid_flavour(#[trigger] m[i].demand@))
    &&& (forall|i: int, j: int|
        0 <= i < j < m.len() ==> #[trigger] m[i].offset < #[trigger] m[j].offset)
    &&& m[0].offset == 0
    &&& (forall|i: int| 0 <= i < m.len() ==> #[trigger] m[i].offset < MAX_INDEX)
}

/// Relies on `rand::random_range` over an inclusive range, which returns
/// a uniformly drawn value within the range and panics only when the
/// range is empty.
#[verifier::external_body]
fn random_in(lo: usize, hi: usize) -> (r: usize)
    requires
        lo <= hi,
    ensures
        lo <= r <= hi,
{
    rand::random_range(lo..=hi)
}

/// Relies on `ulid::Ulid::generate` for a fresh identifier and on its
/// `to_string`, which always renders exactly 26 Crockford base32
/// characters. The identifier depends on the clock and a random source,
/// so nothing more is promised of it.
#[verifier::external_body]
fn fresh_ulid_string() -> (r: String)
    ensures
        r@.len() == 26,
{
    ulid::Ulid::generate().to_string()
}

/// Draws one demand uniformly from the fixed category set.
pub fn random_flavour() -> (r: String)
    ensures
        valid_flavour(r@),
{
    let i = random_in(0, 3);
    if i == 0 {
        "chicken".to_owned()
    } else if i == 1 {
        "fish".to_owned()
    } else if i == 2 {
        "beef".to_owned()
    } else {
        "veg".to_owned()
    }
}

/// Builds a menu by a bounded random walk: starting at offset 0, append
/// a random demand at the current offset, then advance the offset by a
/// uniform step of 1000 to 3000 until it reaches `MAX_INDEX`. Steps of at
/// least 1000 keep the menu at 30 items or fewer; steps of at most 3000
/// force at least 10 items before the bound is reached.
pub fn build_menu() -> (menu: Vec<MenuItem>)
    ensures
        menu_wf(menu@),
{
    let mut menu: Vec<MenuItem> = Vec::new();
    let mut index: usize = 0;
    while index < MAX_INDEX
        invariant
            menu@.len() <= 30,
            1000 * menu@.len() <= index,
            index <= 3000 * menu@.len(),
            menu@.len() > 0 ==> menu@[0].offset == 0,
            menu@.len() > 0 ==> menu@.last().offset < index,
            forall|i: int| 0 <= i < menu@.len() ==> valid_flavour(#[trigger] menu@[i].demand@),
            forall|i: int, j: int|
                0 <= i < j < menu@.len() ==> #[trigger] menu@[i].offset < #[trigger] menu@[j].offset,
            forall|i: int| 0 <= i < menu@.len() ==> #[trigger] menu@[i].offset < MAX_INDEX,
        decreases 30 - menu@.len(),
    {
        let demand = random_flavour();
        menu.push(MenuItem { demand, offset: index });
        let step = random_in(1000, 3000);
        index = index + step;
    }
    menu
}

/// Issues a fresh session: a new 26-character session id and a generated
/// menu. Nothing is persisted; the id's embedded creation time alone
/// determines how long tallies against the session are accepted.
pub fn issue_session() -> (p: Payload)
    ensures
        p.id@.len() == 26,
        menu_wf(p.menu@),
{
    let id = fresh_ulid_string();
    let menu = build_menu();
    Payload { id, menu }
}

} // verus!
