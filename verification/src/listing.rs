//! The order that a user's presets are listed in: by name, whatever its case.
use vstd::prelude::*;

use crate::text::chars_of;

verus! {

/// Whether a text comes before another in the order of dictionaries, by character.
pub open spec fn before(a: Seq<char>, b: Seq<char>) -> bool
    decreases a.len(),
{
    if b.len() == 0 {
        false
    } else if a.len() == 0 {
        true
    } else {
        a[0] < b[0] || (a[0] == b[0] && before(a.drop_first(), b.drop_first()))
    }
}

/// No text comes before itself, and of two different ones just one comes first.
pub proof fn law_texts_are_ordered(a: Seq<char>, b: Seq<char>)
    ensures
        a == b ==> !before(a, b),
        a != b ==> before(a, b) != before(b, a),
    decreases a.len(),
{
    if a.len() > 0 && b.len() > 0 {
        law_texts_are_ordered(a.drop_first(), b.drop_first());
        if a[0] == b[0] && a.drop_first() == b.drop_first() {
            assert(a =~= seq![a[0]] + a.drop_first());
            assert(b =~= seq![b[0]] + b.drop_first());
        }
    } else {
        assert(a.len() == 0 && b.len() == 0 ==> a =~= b);
    }
}

/// What comes before a text comes before all that follow it.
pub proof fn law_order_goes_on(a: Seq<char>, b: Seq<char>, c: Seq<char>)
    requires
        before(a, b),
        before(b, c),
    ensures
        before(a, c),
    decreases a.len(),
{
    if a.len() > 0 && a[0] == b[0] && b[0] == c[0] {
        law_order_goes_on(a.drop_first(), b.drop_first(), c.drop_first());
    }
}

fn is_before(a: &Vec<char>, b: &Vec<char>) -> (r: bool)
    ensures
        r == before(a@, b@),
{
    let mut i: usize = 0;
    assert(a@.skip(0) == a@ && b@.skip(0) == b@);
    while i < a.len() && i < b.len()
        invariant
            i <= a@.len(),
            i <= b@.len(),
            before(a@, b@) == before(a@.skip(i as int), b@.skip(i as int)),
        decreases a.len() - i,
    {
        if a[i] != b[i] {
            return a[i] < b[i];
        }
        assert(a@.skip(i as int).drop_first() == a@.skip(i + 1));
        assert(b@.skip(i as int).drop_first() == b@.skip(i + 1));
        i = i + 1;
    }
    i < b.len()
}

/// Whether item `i` is listed before item `j`: its key comes first, or, of equal keys, it does.
pub open spec fn listed_before(keys: Seq<Seq<char>>, i: int, j: int) -> bool {
    before(keys[i], keys[j]) || (keys[i] == keys[j] && i < j)
}

/// Whether an order lists the first `n` items, each once, by their keys.
pub open spec fn is_listing(keys: Seq<Seq<char>>, order: Seq<usize>, n: int) -> bool {
    &&& order.len() == n
    &&& forall|p: int| 0 <= p < n ==> #[trigger] order[p] < n
    &&& forall|p: int, q: int|
        0 <= p < q < n ==> listed_before(keys, #[trigger] order[p] as int, #[trigger] order[q] as int)
}

/// Every item has one place in a listing.
pub proof fn law_listing_has_each_once(keys: Seq<Seq<char>>, order: Seq<usize>)
    requires
        keys.len() <= usize::MAX,
        is_listing(keys, order, keys.len() as int),
    ensures
        order.no_duplicates(),
        forall|i: usize| i < keys.len() ==> order.contains(i),
{
    let n = keys.len();
    assert forall|p: int, q: int| 0 <= p < n && 0 <= q < n && p != q implies order[p] != order[q] by {
        if p < q {
            assert(listed_before(keys, order[p] as int, order[q] as int));
            law_texts_are_ordered(keys[order[p] as int], keys[order[q] as int]);
        } else {
            assert(listed_before(keys, order[q] as int, order[p] as int));
            law_texts_are_ordered(keys[order[p] as int], keys[order[q] as int]);
        }
    }
    order.unique_seq_to_set();
    let places = Set::<usize>::new(|i: usize| i < n);
    assert forall|i: usize| #[trigger] order.to_set().contains(i) implies places.contains(i) by {
        let p = choose|p: int| 0 <= p < order.len() && order[p] == i;
        assert(order[p] < n);
    }
    lemma_first_numbers(n);
    vstd::set_lib::lemma_subset_equality(order.to_set(), places);
    assert forall|i: usize| i < keys.len() implies order.contains(i) by {
        assert(places.contains(i));
        assert(order.to_set().contains(i));
    }
}

proof fn lemma_first_numbers(n: nat)
    requires
        n <= usize::MAX,
    ensures
        Set::<usize>::new(|i: usize| i < n).finite(),
        Set::<usize>::new(|i: usize| i < n).len() == n,
    decreases n,
{
    let places = Set::<usize>::new(|i: usize| i < n);
    if n == 0 {
        assert(places =~= Set::<usize>::empty());
    } else {
        lemma_first_numbers((n - 1) as nat);
        let fewer = Set::<usize>::new(|i: usize| i < n - 1);
        assert(places =~= fewer.insert((n - 1) as usize));
    }
}

/// The keys as texts.
pub open spec fn key_texts(keys: Seq<Vec<char>>) -> Seq<Seq<char>> {
    keys.map_values(|k: Vec<char>| k@)
}

/// Lists items by their keys; of equal keys, the earlier item comes first.
pub fn list_by_keys(keys: &Vec<Vec<char>>) -> (r: Vec<usize>)
    ensures
        is_listing(key_texts(keys@), r@, keys@.len() as int),
{
    let ghost texts = key_texts(keys@);
    let mut order: Vec<usize> = Vec::new();
    let mut n: usize = 0;
    while n < keys.len()
        invariant
            n <= keys@.len(),
            texts == key_texts(keys@),
            is_listing(texts, order@, n as int),
        decreases keys.len() - n,
    {
        let mut at: usize = n;
        while at > 0 && is_before(&keys[n], &keys[order[at - 1]])
            invariant
                at <= n < keys@.len(),
                texts == key_texts(keys@),
                is_listing(texts, order@, n as int),
                forall|q: int| at <= q < n ==> before(texts[n as int], texts[#[trigger] order@[q] as int]),
            decreases at,
        {
            at = at - 1;
        }
        let ghost old_order = order@;
        proof {
            if at > 0 {
                let last = order@[at - 1] as int;
                law_texts_are_ordered(texts[n as int], texts[last]);
                assert(listed_before(texts, last, n as int));
                assert forall|p: int| 0 <= p < at implies listed_before(
                    texts,
                    #[trigger] old_order[p] as int,
                    n as int,
                ) by {
                    let i = old_order[p] as int;
                    if p < at - 1 {
                        assert(listed_before(texts, i, last));
                        if before(texts[i], texts[last]) && before(texts[last], texts[n as int]) {
                            law_order_goes_on(texts[i], texts[last], texts[n as int]);
                        }
                    }
                }
            }
        }
        order.insert(at, n);
        proof {
            assert forall|p: int, q: int| 0 <= p < q < n + 1 implies listed_before(
                texts,
                #[trigger] order@[p] as int,
                #[trigger] order@[q] as int,
            ) by {
                let i = if p < at { p } else { p - 1 };
                let j = if q < at { q } else { q - 1 };
                if p != at {
                    assert(order@[p] == old_order[i]);
                }
                if q != at {
                    assert(order@[q] == old_order[j]);
                }
            }
            assert forall|p: int| 0 <= p < n + 1 implies #[trigger] order@[p] < n + 1 by {
                if p < at {
                    assert(order@[p] == old_order[p]);
                } else if p > at {
                    assert(order@[p] == old_order[p - 1]);
                }
            }
        }
        n = n + 1;
    }
    order
}

/// A text in small letters.
pub uninterp spec fn lower_case(s: Seq<char>) -> Seq<char>;

/// A text in small letters: `str::to_lowercase`, whose result depends on the text alone.
#[verifier::external_body]
fn lowered(s: &str) -> (r: String)
    ensures
        r@ == lower_case(s@),
{
    s.to_lowercase()
}

/// The names in small letters.
pub open spec fn lower_names(names: Seq<String>) -> Seq<Seq<char>> {
    names.map_values(|s: String| lower_case(s@))
}

/// Lists presets by name, whatever its case.
pub fn list_presets(names: &Vec<String>) -> (r: Vec<usize>)
    ensures
        is_listing(lower_names(names@), r@, names@.len() as int),
{
    let mut keys: Vec<Vec<char>> = Vec::new();
    while keys.len() < names.len()
        invariant
            keys@.len() <= names@.len(),
            forall|i: int| 0 <= i < keys@.len() ==> (#[trigger] keys@[i])@ == lower_case(names@[i]@),
        decreases names.len() - keys.len(),
    {
        let i: usize = keys.len();
        keys.push(chars_of(lowered(names[i].as_str()).as_str()));
    }
    assert(key_texts(keys@) =~= lower_names(names@));
    list_by_keys(&keys)
}

/// A text comes before every longer one that begins with it, and otherwise the first character in
/// which two texts differ decides, the lower one first.
pub proof fn law_first_difference_decides(start: Seq<char>, a: Seq<char>, b: Seq<char>)
    ensures
        b.len() > 0 ==> before(start, start + b),
        a.len() > 0 && b.len() > 0 && a[0] < b[0] ==> before(start + a, start + b),
        before(start + a, start + b) == before(a, b),
    decreases start.len(),
{
    if start.len() == 0 {
        assert(start + a =~= a);
        assert(start + b =~= b);
        assert(start =~= Seq::<char>::empty());
    } else {
        let rest = start.drop_first();
        law_first_difference_decides(rest, a, b);
        assert((start + a).drop_first() =~= rest + a);
        assert((start + b).drop_first() =~= rest + b);
        assert((start + a)[0] == start[0] && (start + b)[0] == start[0]);
    }
}

/// A listing goes up by its keys, and of equal keys the earlier item comes first; it is the only
/// one.
pub proof fn law_listing_is_sorted(keys: Seq<Seq<char>>, order: Seq<usize>, p: int, q: int)
    requires
        is_listing(keys, order, keys.len() as int),
        0 <= p < q < keys.len(),
    ensures
        !before(keys[order[q] as int], keys[order[p] as int]),
        keys[order[p] as int] == keys[order[q] as int] ==> order[p] < order[q],
{
    assert(listed_before(keys, order[p] as int, order[q] as int));
    law_texts_are_ordered(keys[order[p] as int], keys[order[q] as int]);
}

} // verus!
