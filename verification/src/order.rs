//! Orderings of rows: the order in which a listing hands them out.

use vstd::prelude::*;

verus! {

/// `sorted` with `x` put in after the last element that `le` places at or
/// before it.
pub open spec fn insert_sorted<T>(sorted: Seq<T>, x: T, le: spec_fn(T, T) -> bool) -> Seq<T>
    decreases sorted.len(),
{
    if sorted.len() == 0 {
        seq![x]
    } else if le(sorted.last(), x) {
        sorted.push(x)
    } else {
        insert_sorted(sorted.drop_last(), x, le).push(sorted.last())
    }
}

/// The elements of `s` in the order of `le`; elements that `le` places
/// together stay in the order they had.
pub open spec fn sorted_by<T>(s: Seq<T>, le: spec_fn(T, T) -> bool) -> Seq<T>
    decreases s.len(),
{
    if s.len() == 0 {
        s
    } else {
        insert_sorted(sorted_by(s.drop_last(), le), s.last(), le)
    }
}

/// The position at which [`insert_sorted`] puts `x`.
pub open spec fn landing<T>(sorted: Seq<T>, x: T, le: spec_fn(T, T) -> bool) -> int
    decreases sorted.len(),
{
    if sorted.len() == 0 {
        0
    } else if le(sorted.last(), x) {
        sorted.len() as int
    } else {
        landing(sorted.drop_last(), x, le)
    }
}

/// [`insert_sorted`] inserts at [`landing`] and moves nothing else.
pub proof fn lemma_insert_sorted<T>(sorted: Seq<T>, x: T, le: spec_fn(T, T) -> bool)
    ensures
        0 <= landing(sorted, x, le) <= sorted.len(),
        insert_sorted(sorted, x, le) == sorted.insert(landing(sorted, x, le), x),
        landing(sorted, x, le) > 0 ==> le(sorted[landing(sorted, x, le) - 1], x),
        forall|k: int| landing(sorted, x, le) <= k < sorted.len() ==> !le(#[trigger] sorted[k], x),
    decreases sorted.len(),
{
    if sorted.len() == 0 {
        assert(seq![x] =~= sorted.insert(0, x));
    } else if le(sorted.last(), x) {
        assert(sorted.push(x) =~= sorted.insert(sorted.len() as int, x));
    } else {
        let rest = sorted.drop_last();
        lemma_insert_sorted(rest, x, le);
        let p = landing(rest, x, le);
        assert(rest.insert(p, x).push(sorted.last()) =~= sorted.insert(p, x));
        assert forall|k: int| p <= k < sorted.len() implies !le(#[trigger] sorted[k], x) by {
            if k < rest.len() {
                assert(sorted[k] == rest[k]);
            }
        }
        if p > 0 {
            assert(rest[p - 1] == sorted[p - 1]);
        }
    }
}

/// Sorting keeps the number of elements.
pub proof fn lemma_sorted_by_len<T>(s: Seq<T>, le: spec_fn(T, T) -> bool)
    ensures
        sorted_by(s, le).len() == s.len(),
    decreases s.len(),
{
    if s.len() > 0 {
        lemma_sorted_by_len(s.drop_last(), le);
        lemma_insert_sorted(sorted_by(s.drop_last(), le), s.last(), le);
    }
}

/// Sorting keeps the elements: each occurs as often after as before.
pub proof fn lemma_sorted_by_permutes<T>(s: Seq<T>, le: spec_fn(T, T) -> bool)
    ensures
        sorted_by(s, le).to_multiset() == s.to_multiset(),
    decreases s.len(),
{
    broadcast use vstd::seq_lib::group_to_multiset_ensures;

    if s.len() > 0 {
        let rest = s.drop_last();
        lemma_sorted_by_permutes(rest, le);
        let sorted = sorted_by(rest, le);
        lemma_insert_sorted(sorted, s.last(), le);
        let p = landing(sorted, s.last(), le);
        vstd::seq_lib::to_multiset_insert(sorted, p, s.last());
        assert(sorted.insert(p, s.last()).to_multiset() =~= sorted.to_multiset().insert(s.last()));
        assert(s =~= rest.push(s.last()));
        assert(s.to_multiset() =~= rest.to_multiset().insert(s.last()));
    }
}

/// Where `le` is total and transitive, a sorted sequence has every element
/// at or before every later one.
pub proof fn lemma_sorted_by_ordered<T>(s: Seq<T>, le: spec_fn(T, T) -> bool)
    requires
        forall|a: T, b: T| #[trigger] le(a, b) || le(b, a),
        forall|a: T, b: T, c: T| #[trigger] le(a, b) && #[trigger] le(b, c) ==> le(a, c),
    ensures
        forall|i: int, j: int|
            0 <= i < j < sorted_by(s, le).len() ==> le(
                #[trigger] sorted_by(s, le)[i],
                #[trigger] sorted_by(s, le)[j],
            ),
    decreases s.len(),
{
    if s.len() > 0 {
        let rest = sorted_by(s.drop_last(), le);
        let x = s.last();
        lemma_sorted_by_ordered(s.drop_last(), le);
        lemma_insert_sorted(rest, x, le);
        let p = landing(rest, x, le);
        let out = sorted_by(s, le);
        assert(out == rest.insert(p, x));
        assert forall|i: int, j: int| 0 <= i < j < out.len() implies le(
            #[trigger] out[i],
            #[trigger] out[j],
        ) by {
            if j < p {
                assert(out[i] == rest[i] && out[j] == rest[j]);
            } else if j == p {
                assert(out[i] == rest[i]);
                if i < p - 1 {
                    assert(le(rest[i], rest[p - 1]));
                }
            } else if i < p {
                assert(out[i] == rest[i] && out[j] == rest[j - 1]);
            } else if i == p {
                assert(out[j] == rest[j - 1]);
                assert(!le(rest[j - 1], x));
            } else {
                assert(out[i] == rest[i - 1] && out[j] == rest[j - 1]);
            }
        }
    }
}

/// The rank of a character when case is ignored: an ASCII capital ranks as
/// its small letter, every other character as itself.
pub open spec fn fold_case(c: char) -> int {
    let n = c as int;
    if 65 <= n <= 90 {
        n + 32
    } else {
        n
    }
}

/// `a` from position `i` on sorts at or before `b` from position `i` on,
/// comparing character by character with [`fold_case`]; a text sorts before
/// every longer text that begins with it.
pub open spec fn nocase_le_from(a: Seq<char>, b: Seq<char>, i: int) -> bool
    decreases a.len() - i,
{
    if i < 0 || i >= a.len() {
        true
    } else if i >= b.len() {
        false
    } else if fold_case(a[i]) < fold_case(b[i]) {
        true
    } else if fold_case(a[i]) > fold_case(b[i]) {
        false
    } else {
        nocase_le_from(a, b, i + 1)
    }
}

/// `a` sorts at or before `b` when case is ignored.
pub open spec fn nocase_le(a: Seq<char>, b: Seq<char>) -> bool {
    nocase_le_from(a, b, 0)
}

/// Of two texts, one sorts at or before the other.
pub proof fn lemma_nocase_total(a: Seq<char>, b: Seq<char>, i: int)
    requires
        0 <= i,
    ensures
        nocase_le_from(a, b, i) || nocase_le_from(b, a, i),
    decreases a.len() - i,
{
    if i < a.len() && i < b.len() && fold_case(a[i]) == fold_case(b[i]) {
        lemma_nocase_total(a, b, i + 1);
    }
}

/// The order is transitive.
pub proof fn lemma_nocase_transitive(a: Seq<char>, b: Seq<char>, c: Seq<char>, i: int)
    requires
        0 <= i,
        nocase_le_from(a, b, i),
        nocase_le_from(b, c, i),
    ensures
        nocase_le_from(a, c, i),
    decreases a.len() - i,
{
    if i < a.len() && i < b.len() && i < c.len() && fold_case(a[i]) == fold_case(b[i]) && fold_case(
        b[i],
    ) == fold_case(c[i]) {
        lemma_nocase_transitive(a, b, c, i + 1);
    }
}

fn fold(c: char) -> (n: u32)
    ensures
        n == fold_case(c),
{
    let n: u32 = c as u32;
    if 65 <= n && n <= 90 {
        n + 32
    } else {
        n
    }
}

/// Whether `a` sorts at or before `b` when case is ignored.
pub fn nocase_at_or_before(a: &Vec<char>, b: &Vec<char>) -> (r: bool)
    ensures
        r == nocase_le(a@, b@),
{
    let mut i: usize = 0;
    while i < a.len()
        invariant
            i <= a.len(),
            nocase_le(a@, b@) == nocase_le_from(a@, b@, i as int),
        decreases a.len() - i,
    {
        if i >= b.len() {
            return false;
        }
        let x = fold(a[i]);
        let y = fold(b[i]);
        if x < y {
            return true;
        }
        if x > y {
            return false;
        }
        i += 1;
    }
    true
}

} // verus!
