//! The keys that one batched load asks for.
use vstd::prelude::*;

use crate::text::{copy_string, string_eq, strings_view};

verus! {

/// Each key once, in the order of its first appearance.
pub open spec fn first_occurrences(keys: Seq<Seq<char>>) -> Seq<Seq<char>>
    decreases keys.len(),
{
    if keys.len() == 0 {
        Seq::empty()
    } else {
        let earlier = first_occurrences(keys.drop_last());
        if keys.drop_last().contains(keys.last()) {
            earlier
        } else {
            earlier.push(keys.last())
        }
    }
}

/// Whether `keys` holds `key`.
fn holds(keys: &Vec<String>, key: &String) -> (r: bool)
    ensures
        r == strings_view(keys@).contains(key@),
{
    let mut i: usize = 0;
    while i < keys.len()
        invariant
            i <= keys@.len(),
            forall|j: int| 0 <= j < i ==> (#[trigger] keys@[j])@ != key@,
        decreases keys@.len() - i,
    {
        if string_eq(&keys[i], key) {
            assert(strings_view(keys@)[i as int] == key@);
            return true;
        }
        i = i + 1;
    }
    proof {
        if strings_view(keys@).contains(key@) {
            let j = choose|j: int| 0 <= j < strings_view(keys@).len() && strings_view(keys@)[j] == key@;
            assert(keys@[j]@ == key@);
        }
    }
    false
}

/// The keys one batched load asks for: nothing when no key is asked for
/// (the load answers with no values and calls nothing), else each asked key
/// once, in the order it first appears.
pub fn batch_keys(keys: &Vec<String>) -> (r: Option<Vec<String>>)
    ensures
        keys@.len() == 0 <==> r is None,
        r matches Some(u) ==> strings_view(u@) == first_occurrences(strings_view(keys@)),
{
    if keys.len() == 0 {
        return None;
    }
    let mut unique: Vec<String> = Vec::new();
    let mut seen: Vec<String> = Vec::new();
    let mut i: usize = 0;
    while i < keys.len()
        invariant
            i <= keys@.len(),
            strings_view(seen@) == strings_view(keys@).take(i as int),
            strings_view(unique@) == first_occurrences(strings_view(keys@).take(i as int)),
        decreases keys@.len() - i,
    {
        let ghost prefix = strings_view(keys@).take(i as int);
        let ghost next = strings_view(keys@).take(i + 1int);
        proof {
            assert(next.drop_last() =~= prefix);
            assert(next.last() == keys@[i as int]@);
        }
        if !holds(&seen, &keys[i]) {
            let ghost before = unique@;
            unique.push(copy_string(&keys[i]));
            proof {
                assert(strings_view(unique@) =~= strings_view(before).push(keys@[i as int]@));
            }
        }
        let ghost seen_before = seen@;
        seen.push(copy_string(&keys[i]));
        proof {
            assert(strings_view(seen@) =~= strings_view(seen_before).push(keys@[i as int]@));
            assert(strings_view(seen@) =~= next);
        }
        i = i + 1;
    }
    proof {
        assert(strings_view(keys@).take(keys@.len() as int) =~= strings_view(keys@));
    }
    Some(unique)
}

/// A batched load asks for each key once: the keys it asks for are distinct,
/// and they are exactly the keys that were asked.
pub proof fn law_batch_keys_distinct_and_complete(keys: Seq<Seq<char>>)
    ensures
        first_occurrences(keys).no_duplicates(),
        forall|k: Seq<char>| #[trigger] first_occurrences(keys).contains(k) <==> keys.contains(k),
    decreases keys.len(),
{
    if keys.len() > 0 {
        let rest = keys.drop_last();
        let x = keys.last();
        law_batch_keys_distinct_and_complete(rest);
        assert(keys =~= rest.push(x));
        let f = first_occurrences(rest);
        assert forall|k: Seq<char>| #[trigger] keys.contains(k) <==> (k == x || rest.contains(k)) by {
            vstd::seq_lib::lemma_seq_contains_after_push(rest, x, k);
        }
        if rest.contains(x) {
            assert(first_occurrences(keys) == f);
        } else {
            assert(first_occurrences(keys) == f.push(x));
            assert forall|k: Seq<char>| #[trigger] f.push(x).contains(k) <==> (k == x || f.contains(k)) by {
                vstd::seq_lib::lemma_seq_contains_after_push(f, x, k);
            }
            assert(!f.contains(x));
            assert forall|i: int, j: int|
                0 <= i < f.push(x).len() && 0 <= j < f.push(x).len() && i != j implies f.push(x)[i]
                    != f.push(x)[j] by {
                if i < f.len() && j < f.len() {
                } else if i < f.len() {
                    assert(f.contains(f[i]));
                } else if j < f.len() {
                    assert(f.contains(f[j]));
                }
            }
        }
    }
}

} // verus!
