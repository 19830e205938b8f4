//! Counting and locating line terminators in a run of bytes.

use vstd::prelude::*;
use vstd::std_specs::cmp::PartialEqSpec;

verus! {

/// The byte that ends a line.
pub const NEWLINE: u8 = 10;

/// How often `item` occurs in `s`.
pub open spec fn count_of(s: Seq<u8>, item: u8) -> nat
    decreases s.len(),
{
    if s.len() == 0 {
        0
    } else {
        count_of(s.drop_last(), item) + if s.last() == item { 1nat } else { 0nat }
    }
}

/// The offset one past the last occurrence of `item` in `s`, or 0 where
/// `item` does not occur: the length of the part of `s` made of whole lines.
pub open spec fn complete_len(s: Seq<u8>, item: u8) -> int
    decreases s.len(),
{
    if s.len() == 0 {
        0
    } else if s.last() == item {
        s.len() as int
    } else {
        complete_len(s.drop_last(), item)
    }
}

/// The whole lines at the front of `s`: everything up to and including the
/// last terminator.
pub open spec fn complete_part(s: Seq<u8>) -> Seq<u8> {
    s.subrange(0, complete_len(s, NEWLINE))
}

/// What follows the last terminator of `s`: the start of a line that has not
/// ended yet.
pub open spec fn remainder(s: Seq<u8>) -> Seq<u8> {
    s.subrange(complete_len(s, NEWLINE), s.len() as int)
}

/// `complete_len` lies within `s`, is 0 exactly where `item` does not occur,
/// and otherwise stands one past an occurrence that no other follows.
pub proof fn lemma_complete_len(s: Seq<u8>, item: u8)
    ensures
        0 <= complete_len(s, item) <= s.len(),
        count_of(s, item) <= s.len(),
        count_of(s, item) == 0 <==> complete_len(s, item) == 0,
        complete_len(s, item) > 0 ==> s[complete_len(s, item) - 1] == item,
        forall|j: int| complete_len(s, item) <= j < s.len() ==> s[j] != item,
    decreases s.len(),
{
    if s.len() > 0 {
        let front = s.drop_last();
        lemma_complete_len(front, item);
        assert forall|j: int| complete_len(s, item) <= j < s.len() implies s[j] != item by {
            if j < s.len() - 1 {
                assert(front[j] == s[j]);
            }
        }
    }
}

/// Occurrences add up over concatenation.
pub proof fn lemma_count_concat(a: Seq<u8>, b: Seq<u8>, item: u8)
    ensures
        count_of(a + b, item) == count_of(a, item) + count_of(b, item),
    decreases b.len(),
{
    if b.len() == 0 {
        assert(a + b =~= a);
    } else {
        assert((a + b).drop_last() =~= a + b.drop_last());
        lemma_count_concat(a, b.drop_last(), item);
    }
}

/// A run of bytes none of which is `item` holds no occurrence of it.
pub proof fn lemma_count_zero(s: Seq<u8>, item: u8)
    ensures
        count_of(s, item) == 0 <==> (forall|j: int| 0 <= j < s.len() ==> s[j] != item),
    decreases s.len(),
{
    if s.len() > 0 {
        lemma_count_zero(s.drop_last(), item);
        if count_of(s, item) == 0 {
            assert forall|j: int| 0 <= j < s.len() implies s[j] != item by {
                if j < s.len() - 1 {
                    assert(s.drop_last()[j] == s[j]);
                }
            }
        } else if s.last() != item {
            let j = choose|j: int| 0 <= j < s.len() - 1 && s.drop_last()[j] == item;
            assert(s[j] == item);
        }
    }
}

/// Every terminator of `s` lies in its complete part, none in its remainder.
pub proof fn lemma_split(s: Seq<u8>)
    ensures
        complete_part(s) + remainder(s) == s,
        count_of(complete_part(s), NEWLINE) == count_of(s, NEWLINE),
        count_of(remainder(s), NEWLINE) == 0,
        complete_len(remainder(s), NEWLINE) == 0,
{
    lemma_complete_len(s, NEWLINE);
    assert(complete_part(s) + remainder(s) =~= s);
    lemma_count_zero(remainder(s), NEWLINE);
    lemma_count_concat(complete_part(s), remainder(s), NEWLINE);
    lemma_complete_len(remainder(s), NEWLINE);
}

/// How often an item equal to `item` occurs in `s`, by the type's own
/// equality.
pub open spec fn occurrences<T: PartialEq>(s: Seq<T>, item: T) -> nat
    decreases s.len(),
{
    if s.len() == 0 {
        0
    } else {
        occurrences(s.drop_last(), item) + if s.last().eq_spec(&item) { 1nat } else { 0nat }
    }
}

/// The offset one past the last item of `s` equal to `item`, by the type's
/// own equality, or 0 where there is none.
pub open spec fn last_occurrence_end<T: PartialEq>(s: Seq<T>, item: T) -> int
    decreases s.len(),
{
    if s.len() == 0 {
        0
    } else if s.last().eq_spec(&item) {
        s.len() as int
    } else {
        last_occurrence_end(s.drop_last(), item)
    }
}

/// The end of the last occurrence lies within `s` and is 0 exactly where
/// the count is 0, which is where nothing in `s` equals `item`. Otherwise
/// the item just before it equals `item`, and nothing from it on does.
pub proof fn lemma_occurrences<T: PartialEq>(s: Seq<T>, item: T)
    ensures
        0 <= last_occurrence_end(s, item) <= s.len(),
        occurrences(s, item) <= s.len(),
        occurrences(s, item) == 0 <==> last_occurrence_end(s, item) == 0,
        occurrences(s, item) == 0 <==> (forall|j: int| 0 <= j < s.len() ==> !(#[trigger] s[j]).eq_spec(&item)),
        last_occurrence_end(s, item) > 0 ==> s[last_occurrence_end(s, item) - 1].eq_spec(&item),
        forall|j: int|
            last_occurrence_end(s, item) <= j < s.len() ==> !(#[trigger] s[j]).eq_spec(&item),
    decreases s.len(),
{
    if s.len() > 0 {
        let front = s.drop_last();
        lemma_occurrences(front, item);
        assert forall|j: int| last_occurrence_end(s, item) <= j < s.len() implies !(#[trigger] s[j]).eq_spec(&item) by {
            if j < s.len() - 1 {
                assert(front[j] == s[j]);
            }
        }
        if occurrences(s, item) == 0 {
            assert forall|j: int| 0 <= j < s.len() implies !(#[trigger] s[j]).eq_spec(&item) by {
                if j < s.len() - 1 {
                    assert(front[j] == s[j]);
                }
            }
        } else if !s.last().eq_spec(&item) {
            let j = choose|j: int| 0 <= j < front.len() && (#[trigger] front[j]).eq_spec(&item);
            assert(s[j].eq_spec(&item));
        } else {
            assert(s[s.len() - 1].eq_spec(&item));
        }
    }
}

/// On bytes the type's own equality is plain equality, so the two ways of
/// counting and locating agree.
pub proof fn lemma_occurrences_of_bytes(s: Seq<u8>, item: u8)
    ensures
        occurrences(s, item) == count_of(s, item),
        last_occurrence_end(s, item) == complete_len(s, item),
    decreases s.len(),
{
    if s.len() > 0 {
        lemma_occurrences_of_bytes(s.drop_last(), item);
    }
}

/// Counts the occurrences of `item` in `slice` and finds where the last of
/// them ends, in one pass from the front.
///
/// Returns the count and the offset one past the last occurrence. The
/// offset is 0 exactly where `item` does not occur; otherwise the item just
/// before it equals `item` and nothing from it on does. This is stated for
/// every type whose `==` is the equality that Verus knows of it.
pub fn check_item_occurrences<T>(slice: &[T], item: &T) -> (found: (usize, usize)) where
    T: PartialEq,

    ensures
        T::obeys_eq_spec() ==> found.0 == occurrences(slice@, *item),
        T::obeys_eq_spec() ==> found.1 == last_occurrence_end(slice@, *item),
        T::obeys_eq_spec() ==> (found.0 == 0 <==> found.1 == 0),
        T::obeys_eq_spec() ==> (found.0 == 0 <==> forall|j: int|
            0 <= j < slice@.len() ==> !(#[trigger] slice@[j]).eq_spec(item)),
        T::obeys_eq_spec() && found.1 > 0 ==> slice@[found.1 - 1].eq_spec(item),
        T::obeys_eq_spec() ==> forall|j: int|
            found.1 <= j < slice@.len() ==> !(#[trigger] slice@[j]).eq_spec(item),
        found.0 <= slice.len(),
        found.1 <= slice.len(),
{
    let mut count: usize = 0;
    let mut last_end: usize = 0;
    let mut i: usize = 0;
    proof {
        assert(slice@.subrange(0, 0) =~= Seq::<T>::empty());
    }
    while i < slice.len()
        invariant
            i <= slice@.len(),
            count <= i,
            last_end <= i,
            T::obeys_eq_spec() ==> count == occurrences(slice@.subrange(0, i as int), *item),
            T::obeys_eq_spec() ==> last_end == last_occurrence_end(
                slice@.subrange(0, i as int),
                *item,
            ),
        decreases slice@.len() - i,
    {
        proof {
            let next = slice@.subrange(0, i + 1);
            assert(next.drop_last() =~= slice@.subrange(0, i as int));
            assert(next.last() == slice@[i as int]);
        }
        if slice[i] == *item {
            count += 1;
            last_end = i + 1;
        }
        i += 1;
    }
    proof {
        assert(slice@.subrange(0, i as int) =~= slice@);
        lemma_occurrences(slice@, *item);
    }
    (count, last_end)
}

/// What one scan of the valid bytes finds.
#[derive(Clone, Copy, Debug, PartialEq, Eq, Structural)]
pub struct Extraction {
    /// The number of terminators, which is the number of whole lines.
    pub lines: usize,
    /// The offset one past the last terminator; `None` where there is no
    /// terminator and nothing can be written yet.
    pub end: Option<usize>,
}

/// Scans `bytes` for line terminators and says how many whole lines it holds
/// and where the last of them ends.
pub fn extract_lines(bytes: &[u8]) -> (found: Extraction)
    ensures
        found.lines == count_of(bytes@, NEWLINE),
        found.end == (if count_of(bytes@, NEWLINE) == 0 {
            None
        } else {
            Some(complete_len(bytes@, NEWLINE) as usize)
        }),
        found.end is Some ==> 0 < found.end.unwrap() <= bytes@.len(),
        found.end is Some ==> found.end.unwrap() == complete_len(bytes@, NEWLINE),
{
    let item: u8 = NEWLINE;
    let (count, end) = check_item_occurrences(bytes, &item);
    proof {
        lemma_occurrences_of_bytes(bytes@, NEWLINE);
        lemma_complete_len(bytes@, NEWLINE);
    }
    if count == 0 {
        Extraction { lines: 0, end: None }
    } else {
        Extraction { lines: count, end: Some(end) }
    }
}

} // verus!
