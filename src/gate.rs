//! Deciding whether a pass's body is dumped at all, from a filter of the form
//! `group ('|' group)*`, `group = term ('&' term)*`.
use vstd::prelude::*;
use crate::text::chars_of;

verus! {

/// The pieces of `s` between occurrences of `sep`; there is always at least one.
pub open spec fn split(s: Seq<char>, sep: char) -> Seq<Seq<char>>
    decreases s.len(),
{
    if s.len() == 0 {
        seq![Seq::<char>::empty()]
    } else {
        let rest = split(s.drop_last(), sep);
        if s.last() == sep {
            rest.push(Seq::<char>::empty())
        } else {
            rest.update(rest.len() - 1, rest.last().push(s.last()))
        }
    }
}

/// Whether `t` occurs in `s` as a contiguous piece.
pub open spec fn contains(s: Seq<char>, t: Seq<char>) -> bool {
    exists|i: int| 0 <= i <= s.len() - t.len() && #[trigger] s.subrange(i, i + t.len()) == t
}

/// A term matches when it is `all` or occurs in the pass name or in the item path.
pub open spec fn term_matches(t: Seq<char>, pass_name: Seq<char>, item_path: Seq<char>) -> bool {
    t == seq!['a', 'l', 'l'] || contains(pass_name, t) || contains(item_path, t)
}

/// A group matches when every one of its `&`-separated terms does.
pub open spec fn group_matches(g: Seq<char>, pass_name: Seq<char>, item_path: Seq<char>) -> bool {
    forall|j: int|
        0 <= j < split(g, '&').len() ==> term_matches(
            #[trigger] split(g, '&')[j],
            pass_name,
            item_path,
        )
}

/// A filter matches when one of its `|`-separated groups does.
pub open spec fn filter_matches(f: Seq<char>, pass_name: Seq<char>, item_path: Seq<char>) -> bool {
    exists|k: int|
        0 <= k < split(f, '|').len() && group_matches(
            #[trigger] split(f, '|')[k],
            pass_name,
            item_path,
        )
}

/// Whether a body is dumped: never without a filter, else as the filter matches.
pub open spec fn dump_wanted(
    filter: Option<Seq<char>>,
    pass_name: Seq<char>,
    item_path: Seq<char>,
) -> bool {
    match filter {
        None => false,
        Some(f) => filter_matches(f, pass_name, item_path),
    }
}

/// Splits `s` at each `sep`.
pub(crate) fn split_at_each(s: &Vec<char>, sep: char) -> (r: Vec<Vec<char>>)
    ensures
        r@.len() == split(s@, sep).len(),
        forall|k: int| 0 <= k < r@.len() ==> (#[trigger] r@[k])@ == split(s@, sep)[k],
{
    let mut done: Vec<Vec<char>> = Vec::new();
    let mut cur: Vec<char> = Vec::new();
    let mut i: usize = 0;
    while i < s.len()
        invariant
            i <= s.len(),
            done@.len() + 1 == split(s@.subrange(0, i as int), sep).len(),
            forall|k: int|
                0 <= k < done@.len() ==> (#[trigger] done@[k])@ == split(
                    s@.subrange(0, i as int),
                    sep,
                )[k],
            cur@ == split(s@.subrange(0, i as int), sep).last(),
        decreases s.len() - i,
    {
        proof {
            let p = s@.subrange(0, i + 1);
            assert(p.drop_last() == s@.subrange(0, i as int));
            assert(p.last() == s@[i as int]);
        }
        if s[i] == sep {
            done.push(cur);
            cur = Vec::new();
        } else {
            cur.push(s[i]);
        }
        i = i + 1;
    }
    proof {
        assert(s@.subrange(0, s@.len() as int) == s@);
    }
    done.push(cur);
    done
}

/// Whether `t` occurs in `s`.
#[verifier::rlimit(100)]
fn occurs_in(s: &Vec<char>, t: &Vec<char>) -> (r: bool)
    ensures
        r == contains(s@, t@),
{
    if t.len() > s.len() {
        return false;
    }
    let mut i: usize = 0;
    while i <= s.len() - t.len()
        invariant
            t.len() <= s.len(),
            i <= s.len() - t.len() + 1,
            forall|k: int| 0 <= k < i ==> #[trigger] s@.subrange(k, k + t@.len()) != t@,
        decreases s.len() - t.len() + 1 - i,
    {
        let mut j: usize = 0;
        let mut same = true;
        while j < t.len()
            invariant
                i + t.len() <= s.len(),
                j <= t.len(),
                same == (forall|m: int| 0 <= m < j ==> s@[i + m] == t@[m]),
            decreases t.len() - j,
        {
            if s[i + j] != t[j] {
                same = false;
            }
            j = j + 1;
        }
        if same {
            assert(s@.subrange(i as int, i + t@.len()) =~= t@);
            return true;
        }
        assert(s@.subrange(i as int, i + t@.len()) != t@) by {
            if s@.subrange(i as int, i + t@.len()) == t@ {
                assert forall|m: int| 0 <= m < t@.len() implies s@[i + m] == t@[m] by {
                    assert(s@.subrange(i as int, i + t@.len())[m] == s@[i + m]);
                }
            }
        }
        i = i + 1;
    }
    false
}

fn term_holds(t: &Vec<char>, pass_name: &Vec<char>, item_path: &Vec<char>) -> (r: bool)
    ensures
        r == term_matches(t@, pass_name@, item_path@),
{
    let is_all = t.len() == 3 && t[0] == 'a' && t[1] == 'l' && t[2] == 'l';
    assert(is_all == (t@ == seq!['a', 'l', 'l'])) by {
        if t@ == seq!['a', 'l', 'l'] {
            assert(t@.len() == 3);
        }
        if is_all {
            assert(t@ =~= seq!['a', 'l', 'l']);
        }
    }
    is_all || occurs_in(pass_name, t) || occurs_in(item_path, t)
}

fn group_holds(g: &Vec<char>, pass_name: &Vec<char>, item_path: &Vec<char>) -> (r: bool)
    ensures
        r == group_matches(g@, pass_name@, item_path@),
{
    let terms = split_at_each(g, '&');
    let mut j: usize = 0;
    while j < terms.len()
        invariant
            j <= terms@.len(),
            terms@.len() == split(g@, '&').len(),
            forall|k: int| 0 <= k < terms@.len() ==> (#[trigger] terms@[k])@ == split(g@, '&')[k],
            forall|k: int| 0 <= k < j ==> term_matches(split(g@, '&')[k], pass_name@, item_path@),
        decreases terms.len() - j,
    {
        if !term_holds(&terms[j], pass_name, item_path) {
            assert(!term_matches(split(g@, '&')[j as int], pass_name@, item_path@));
            return false;
        }
        j = j + 1;
    }
    true
}

/// Whether the body of the item at `item_path`, as the pass `pass_name` left
/// it, is dumped under `filter`.
#[verifier::rlimit(100)]
pub fn dump_enabled(filter: Option<&str>, pass_name: &str, item_path: &str) -> (r: bool)
    ensures
        r == dump_wanted(
            match filter {
                None => None,
                Some(f) => Some(f@),
            },
            pass_name@,
            item_path@,
        ),
{
    let f = match filter {
        None => {
            return false;
        },
        Some(f) => f,
    };
    let fc = chars_of(f);
    let pc = chars_of(pass_name);
    let ic = chars_of(item_path);
    let groups = split_at_each(&fc, '|');
    let mut k: usize = 0;
    while k < groups.len()
        invariant
            k <= groups@.len(),
            fc@ == f@,
            pc@ == pass_name@,
            ic@ == item_path@,
            filter == Some(f),
            groups@.len() == split(f@, '|').len(),
            forall|m: int| 0 <= m < groups@.len() ==> (#[trigger] groups@[m])@ == split(f@, '|')[m],
            forall|m: int| 0 <= m < k ==> !group_matches(split(f@, '|')[m], pc@, ic@),
        decreases groups.len() - k,
    {
        if group_holds(&groups[k], &pc, &ic) {
            assert(group_matches(split(f@, '|')[k as int], pass_name@, item_path@));
            assert(filter_matches(f@, pass_name@, item_path@));
            return true;
        }
        k = k + 1;
    }
    false
}

/// The filter `all` dumps every pass of every item, and no filter dumps nothing.
#[verifier::rlimit(100)]
pub proof fn lemma_all_and_none(pass_name: Seq<char>, item_path: Seq<char>)
    ensures
        dump_wanted(Some(seq!['a', 'l', 'l']), pass_name, item_path),
        !dump_wanted(None, pass_name, item_path),
{
    let all = seq!['a', 'l', 'l'];
    assert(split(all, '|') == seq![all]) by {
        reveal_with_fuel(split, 4);
        assert(all.drop_last().drop_last().drop_last() =~= Seq::<char>::empty());
        assert(all.drop_last().drop_last() =~= seq!['a']);
        assert(all.drop_last() =~= seq!['a', 'l']);
        assert(seq![Seq::<char>::empty()].update(0, Seq::<char>::empty().push('a')) =~~= seq![seq!['a']]);
        assert(seq![seq!['a']].update(0, seq!['a'].push('l')) =~~= seq![seq!['a', 'l']]);
        assert(seq![seq!['a', 'l']].update(0, seq!['a', 'l'].push('l')) =~~= seq![all]);
    }
    assert(split(all, '&') == seq![all]) by {
        reveal_with_fuel(split, 4);
        assert(all.drop_last().drop_last().drop_last() =~= Seq::<char>::empty());
        assert(all.drop_last().drop_last() =~= seq!['a']);
        assert(all.drop_last() =~= seq!['a', 'l']);
        assert(seq![Seq::<char>::empty()].update(0, Seq::<char>::empty().push('a')) =~~= seq![seq!['a']]);
        assert(seq![seq!['a']].update(0, seq!['a'].push('l')) =~~= seq![seq!['a', 'l']]);
        assert(seq![seq!['a', 'l']].update(0, seq!['a', 'l'].push('l')) =~~= seq![all]);
    }
    assert(group_matches(split(all, '|')[0], pass_name, item_path));
}

} // verus!
