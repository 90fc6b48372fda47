//! What the commands of the command line decide and say.

use crate::store::subscription_views;
use crate::text::{
    append_decimal, append_str, contains, decimal, from_chars, lowercase, parse_usize, str_eq,
    str_trim, text_view, to_chars, to_lowercase, trimmed, usize_of,
};
use crate::video::{Subscription, SubscriptionView};
use vstd::prelude::*;

verus! {

/// Why no channels could be selected.
#[derive(Debug, PartialEq, Eq)]
pub enum SelectError {
    /// The number is no position in the list.
    InvalidIndex(usize),
    /// No channel has the words in its name.
    NoMatch,
    /// Several channels have the words in their names: those at the given
    /// positions.
    Ambiguous(Vec<usize>),
}

/// The positions of the subscriptions whose name holds `query`, without
/// regard to case.
pub open spec fn matching(subs: Seq<SubscriptionView>, query: Seq<char>) -> Seq<int>
    decreases subs.len(),
{
    if subs.len() == 0 {
        Seq::empty()
    } else {
        let rest = matching(subs.drop_last(), query);
        if crate::text::contains_sub(lowercase(subs.last().name), lowercase(query)) {
            rest.push(subs.len() - 1)
        } else {
            rest
        }
    }
}

/// The positions `0..n`.
pub open spec fn all_positions(n: nat) -> Seq<int> {
    Seq::new(n, |i: int| i)
}

/// The positions as numbers of the ideal kind.
pub open spec fn position_views(positions: Seq<usize>) -> Seq<int> {
    positions.map_values(|p: usize| p as int)
}

/// What a query selects.
pub enum Selected {
    /// The channels at the given positions.
    Channels(Seq<int>),
    /// Nothing: the number is no position in the list.
    InvalidIndex(usize),
    /// Nothing: no channel has the words in its name.
    NoMatch,
    /// Nothing: the channels at the given positions all have the words in
    /// their names.
    Ambiguous(Seq<int>),
}

/// The channels that a query selects, by their positions in the list.
///
/// Without a query, or with an empty one, all channels are selected.  A
/// query that is a number selects the channel at that position, counted
/// from 1.  Any other query selects the one channel whose name holds it.
pub open spec fn selection(subs: Seq<SubscriptionView>, query: Option<Seq<char>>) -> Selected {
    match query {
        Some(q) if q.len() > 0 => match usize_of(q) {
            Some(n) => if 1 <= n <= subs.len() {
                Selected::Channels(seq![n - 1])
            } else {
                Selected::InvalidIndex(n)
            },
            None => {
                let found = matching(subs, q);
                if found.len() == 0 {
                    Selected::NoMatch
                } else if found.len() > 1 {
                    Selected::Ambiguous(found)
                } else {
                    Selected::Channels(found)
                }
            },
        },
        _ => Selected::Channels(all_positions(subs.len())),
    }
}

/// What the outcome of a selection says.
pub open spec fn selected(r: Result<Vec<usize>, SelectError>) -> Selected {
    match r {
        Ok(found) => Selected::Channels(position_views(found@)),
        Err(SelectError::InvalidIndex(n)) => Selected::InvalidIndex(n),
        Err(SelectError::NoMatch) => Selected::NoMatch,
        Err(SelectError::Ambiguous(found)) => Selected::Ambiguous(position_views(found@)),
    }
}

/// The channels that a query selects (see [`selection`]).
pub fn select_channels(subs: &Vec<Subscription>, query: Option<&str>) -> (r: Result<
    Vec<usize>,
    SelectError,
>)
    ensures
        selected(r) == selection(subscription_views(subs@), text_view(query)),
{
    let ghost rows = subscription_views(subs@);
    assert(rows.len() == subs.len());
    let (q, given) = match query {
        Some(q) => (q, !q.is_empty()),
        None => ("", false),
    };
    if !given {
        let mut all: Vec<usize> = Vec::new();
        let mut i: usize = 0;
        while i < subs.len()
            invariant
                i <= subs.len(),
                all.len() == i,
                forall|k: int| 0 <= k < i ==> all@[k] == k,
            decreases subs.len() - i,
        {
            all.push(i);
            i += 1;
        }
        assert(position_views(all@) =~= all_positions(subs.len() as nat));
        return Ok(all);
    }
    match parse_usize(q) {
        Some(n) => {
            if 1 <= n && n <= subs.len() {
                let mut one: Vec<usize> = Vec::new();
                one.push(n - 1);
                assert(position_views(one@) =~= seq![n - 1]);
                Ok(one)
            } else {
                Err(SelectError::InvalidIndex(n))
            }
        },
        None => {
            let search = to_chars(to_lowercase(q).as_str());
            let mut found: Vec<usize> = Vec::new();
            let mut i: usize = 0;
            assert(rows.take(0) =~= Seq::empty());
            assert(position_views(found@) =~= Seq::<int>::empty());
            while i < subs.len()
                invariant
                    i <= subs.len(),
                    rows == subscription_views(subs@),
                    search@ == lowercase(q@),
                    position_views(found@) == matching(rows.take(i as int), q@),
                decreases subs.len() - i,
            {
                assert(rows.take(i + 1).drop_last() =~= rows.take(i as int));
                assert(rows.take(i + 1).last() == subs@[i as int]@);
                let name = to_chars(to_lowercase(subs[i].name.as_str()).as_str());
                if contains(&name, &search) {
                    let ghost before = position_views(found@);
                    found.push(i);
                    assert(position_views(found@) =~= before.push(i as int));
                }
                i += 1;
            }
            assert(rows.take(subs.len() as int) =~= rows);
            assert(position_views(found@).len() == found@.len());
            if found.len() == 0 {
                Err(SelectError::NoMatch)
            } else if found.len() > 1 {
                Err(SelectError::Ambiguous(found))
            } else {
                Ok(found)
            }
        },
    }
}

/// The position, counted from 0, of the channel that is asked for by its
/// number, counted from 1; 0 counts as 1.  A number beyond the list is
/// rejected.
pub fn initial_channel_index(number: usize, count: usize) -> (r: Result<usize, String>)
    ensures
        match r {
            Ok(i) => i == (if number == 0 {
                0
            } else {
                number - 1
            }) && i < count,
            Err(e) => (if number == 0 {
                0
            } else {
                number - 1
            }) >= count && e@ == "Invalid channel index. You have "@ + decimal(count as nat)
                + " subscription(s)."@,
        },
{
    let idx = if number == 0 {
        0
    } else {
        number - 1
    };
    if idx >= count {
        let mut out: Vec<char> = Vec::new();
        append_str(&mut out, "Invalid channel index. You have ");
        append_decimal(&mut out, count as u128);
        append_str(&mut out, " subscription(s).");
        Err(from_chars(&out))
    } else {
        Ok(idx)
    }
}

/// Whether an answer to "prime?" means yes: every answer does but `n`,
/// whatever its case and the white space around it.
pub fn wants_priming(answer: &str) -> (r: bool)
    ensures
        r == (lowercase(trimmed(answer@)) != "n"@),
{
    let t = str_trim(answer);
    let l = to_lowercase(t.as_str());
    !str_eq(l.as_str(), "n")
}

/// The line that tells what the priming of one channel has brought.
pub open spec fn primed_line(name: Seq<char>, added: usize, total: usize) -> Seq<char> {
    name + ": "@ + decimal(added as nat) + " new videos ("@ + decimal(total as nat) + " total)"@
}

/// The line that tells what the priming of one channel has brought.
pub fn primed_text(name: &str, added: usize, total: usize) -> (r: String)
    ensures
        r@ == primed_line(name@, added, total),
{
    let mut out: Vec<char> = Vec::new();
    append_str(&mut out, name);
    append_str(&mut out, ": ");
    append_decimal(&mut out, added as u128);
    append_str(&mut out, " new videos (");
    append_decimal(&mut out, total as u128);
    append_str(&mut out, " total)");
    from_chars(&out)
}

/// The line that sums the priming of several channels up.
pub open spec fn done_line(added: usize, failures: usize) -> Seq<char> {
    "Done! "@ + decimal(added as nat) + " videos added"@ + if failures > 0 {
        ", "@ + decimal(failures as nat) + " failed"@
    } else {
        Seq::empty()
    }
}

/// The line that sums the priming of several channels up.
pub fn done_text(added: usize, failures: usize) -> (r: String)
    ensures
        r@ == done_line(added, failures),
{
    let mut out: Vec<char> = Vec::new();
    append_str(&mut out, "Done! ");
    append_decimal(&mut out, added as u128);
    append_str(&mut out, " videos added");
    if failures > 0 {
        append_str(&mut out, ", ");
        append_decimal(&mut out, failures as u128);
        append_str(&mut out, " failed");
    }
    assert(out@ =~= done_line(added, failures));
    from_chars(&out)
}

} // verus!
