//! A small query-string parser: `a=1&b=2` becomes key/value pairs. A
//! segment without `=` contributes no pair; when a key repeats, the last
//! occurrence wins, as it would when the pairs fill a map.
use vstd::prelude::*;
use vstd::string::StrSliceExecFns;

verus! {

/// The offset of the first occurrence of `c` in `s`, or `s.len()` when
/// `c` does not occur.
pub open spec fn first_off(s: Seq<char>, c: char) -> nat
    decreases s.len(),
{
    if s.len() == 0 {
        0
    } else if s[0] == c {
        0
    } else {
        1 + first_off(s.drop_first(), c)
    }
}

/// The key/value pair of one `&`-separated segment: the text before the
/// first `=` and the text after it, or nothing when the segment has no
/// `=`.
pub open spec fn pair_of(seg: Seq<char>) -> Option<(Seq<char>, Seq<char>)> {
    let k = first_off(seg, '=');
    if k < seg.len() {
        Some((seg.take(k as int), seg.skip(k as int + 1)))
    } else {
        None
    }
}

/// One segment's contribution to the pair list.
pub open spec fn pair_seq(seg: Seq<char>) -> Seq<(Seq<char>, Seq<char>)> {
    match pair_of(seg) {
        Some(p) => seq![p],
        None => Seq::empty(),
    }
}

/// The key/value pairs of a query string: split on `&`, then split each
/// segment at its first `=`, dropping segments without one.
pub open spec fn parse_pairs(q: Seq<char>) -> Seq<(Seq<char>, Seq<char>)>
    decreases q.len(),
{
    let j = first_off(q, '&');
    if j < q.len() {
        pair_seq(q.take(j as int)) + parse_pairs(q.skip(j as int + 1))
    } else {
        pair_seq(q)
    }
}

/// The views of a vector of key/value strings.
pub open spec fn pairs_view(v: Seq<(String, String)>) -> Seq<(Seq<char>, Seq<char>)> {
    v.map_values(|p: (String, String)| (p.0@, p.1@))
}

/// The value stored under `key` once all pairs have been inserted in
/// order into a map: the value of the last pair whose key matches, or
/// nothing when none does.
pub open spec fn lookup(pairs: Seq<(Seq<char>, Seq<char>)>, key: Seq<char>) -> Option<Seq<char>>
    decreases pairs.len(),
{
    if pairs.len() == 0 {
        None
    } else if pairs.last().0 == key {
        Some(pairs.last().1)
    } else {
        lookup(pairs.drop_last(), key)
    }
}

/// `first_off` is at most the length, everything before it differs from
/// the sought character, and it lands on the character when within range.
pub proof fn lemma_first_off_props(s: Seq<char>, c: char)
    ensures
        first_off(s, c) <= s.len(),
        forall|k: int| 0 <= k < first_off(s, c) ==> s[k] != c,
        first_off(s, c) < s.len() ==> s[first_off(s, c) as int] == c,
    decreases s.len(),
{
    if s.len() > 0 && s[0] != c {
        lemma_first_off_props(s.drop_first(), c);
        assert forall|k: int| 0 <= k < first_off(s, c) implies s[k] != c by {
            if k > 0 {
                assert(s.drop_first()[k - 1] == s[k]);
            }
        }
        if first_off(s, c) < s.len() {
            assert(s.drop_first()[first_off(s.drop_first(), c) as int] == s[first_off(
                s,
                c,
            ) as int]);
        }
    }
}

/// Finds the first occurrence of `c` within `s[from..to]`, reported as an
/// absolute position: `to` when the range does not contain `c`.
fn find_range(s: &str, from: usize, to: usize, c: char) -> (r: usize)
    requires
        from <= to <= s@.len(),
    ensures
        from <= r <= to,
        r - from == first_off(s@.subrange(from as int, to as int), c),
{
    let ghost seg = s@.subrange(from as int, to as int);
    let mut p: usize = from;
    while p < to && s.get_char(p) != c
        invariant
            from <= p <= to <= s@.len(),
            forall|k: int| from <= k < p ==> s@[k] != c,
        decreases to - p,
    {
        p = p + 1;
    }
    proof {
        lemma_first_off_props(seg, c);
        let f = first_off(seg, c) as int;
        assert(forall|k: int| 0 <= k < seg.len() ==> seg[k] == s@[from + k]);
        if p - from < f {
            assert(seg[p - from] != c);
            assert(p < to && s@[p as int] == c);
        }
        if f < p - from {
            assert(seg[f] == c);
            assert(s@[from + f] != c);
        }
    }
    p
}

/// Splits a query string into its key/value pairs: segments are separated
/// by `&`, each segment is split at its first `=`, and segments without
/// `=` are dropped. When the same key occurs twice, a map filled from the
/// result keeps the later value.
pub fn simple_query_parser(q: &str) -> (r: Vec<(String, String)>)
    ensures
        pairs_view(r@) == parse_pairs(q@),
{
    let n = q.unicode_len();
    let mut out: Vec<(String, String)> = Vec::new();
    let mut start: usize = 0;
    let mut done = false;
    proof {
        assert(q@.skip(0) =~= q@);
        assert(pairs_view(out@) =~= Seq::<(Seq<char>, Seq<char>)>::empty());
        assert(pairs_view(out@) + parse_pairs(q@) =~= parse_pairs(q@));
    }
    while !done
        invariant
            n == q@.len(),
            !done ==> start <= n && pairs_view(out@) + parse_pairs(q@.skip(start as int))
                == parse_pairs(q@),
            done ==> pairs_view(out@) == parse_pairs(q@),
        decreases n - start, if done {
            0int
        } else {
            1int
        },
    {
        let ghost suffix = q@.skip(start as int);
        let j = find_range(q, start, n, '&');
        let ghost seg = q@.subrange(start as int, j as int);
        proof {
            assert(suffix =~= q@.subrange(start as int, n as int));
            assert(forall|k: int| 0 <= k < suffix.len() ==> suffix[k] == q@[start + k]);
            assert(seg =~= suffix.take(j - start));
            lemma_first_off_props(suffix, '&');
            let f = first_off(suffix, '&') as int;
            if f < j - start {
                assert(suffix[f] == '&');
                assert(q@[start + f] == '&');
                assert(q@.subrange(start as int, j as int)[f] == '&');
                assert(first_off(seg, '&') <= f);
            }
            if j - start < f {
                assert(j < n && q@[j as int] == '&');
                assert(suffix[j - start] == '&');
            }
            assert(j - start == first_off(suffix, '&'));
        }
        let k = find_range(q, start, j, '=');
        let ghost old_out = out@;
        if k < j {
            let key = q.substring_char(start, k).to_owned();
            let val = q.substring_char(k + 1, j).to_owned();
            proof {
                assert(key@ =~= seg.take(k - start));
                assert(val@ =~= seg.skip(k - start + 1));
            }
            out.push((key, val));
            proof {
                assert(pair_of(seg) == Some((key@, val@)));
                assert(pairs_view(out@) =~= pairs_view(old_out) + pair_seq(seg));
            }
        } else {
            proof {
                assert(pair_of(seg) is None);
                assert(pairs_view(out@) =~= pairs_view(old_out) + pair_seq(seg));
            }
        }
        if j < n {
            proof {
                assert(parse_pairs(suffix) == pair_seq(suffix.take(j - start)) + parse_pairs(
                    suffix.skip(j - start + 1),
                ));
                assert(suffix.skip(j - start + 1) =~= q@.skip(j + 1));
                assert(pairs_view(out@) + parse_pairs(q@.skip(j + 1)) =~= parse_pairs(q@));
            }
            start = j + 1;
        } else {
            proof {
                assert(first_off(suffix, '&') == suffix.len());
                assert(parse_pairs(suffix) == pair_seq(suffix));
                assert(seg =~= suffix);
                assert(pairs_view(out@) =~= parse_pairs(q@));
            }
            done = true;
        }
    }
    out
}

/// Looks a key up among parsed pairs the way a map filled from them in
/// order would answer: the value of the last pair whose key matches.
pub fn get_param(params: &Vec<(String, String)>, key: &String) -> (r: Option<String>)
    ensures
        match r {
            Some(v) => lookup(pairs_view(params@), key@) == Some(v@),
            None => lookup(pairs_view(params@), key@) is None,
        },
{
    let mut i: usize = params.len();
    proof {
        assert(params@.take(params@.len() as int) =~= params@);
    }
    while i > 0
        invariant
            i <= params@.len(),
            lookup(pairs_view(params@), key@) == lookup(
                pairs_view(params@.take(i as int)),
                key@,
            ),
        decreases i,
    {
        i = i - 1;
        let ghost prefix = params@.take(i + 1);
        proof {
            assert(pairs_view(prefix).drop_last() =~= pairs_view(params@.take(i as int)));
            assert(pairs_view(prefix).last() == (params@[i as int].0@, params@[i as int].1@));
        }
        if params[i].0 == *key {
            return Some(params[i].1.clone());
        }
    }
    proof {
        assert(pairs_view(params@.take(0)) =~= Seq::<(Seq<char>, Seq<char>)>::empty());
    }
    None
}

} // verus!
