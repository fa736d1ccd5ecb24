//! Texts and sequences: views of string lists, and what filtering a sequence keeps.

use vstd::prelude::*;

verus! {

/// `str::starts_with`: whether `text` begins with `prefix`.
#[verifier::external_body]
pub(crate) fn starts_with(text: &str, prefix: &str) -> (begins: bool)
    ensures
        begins == prefix@.is_prefix_of(text@),
{
    text.starts_with(prefix)
}

/// `str::ends_with`: whether `text` ends with `suffix`.
#[verifier::external_body]
pub(crate) fn ends_with(text: &str, suffix: &str) -> (ends: bool)
    ensures
        ends == suffix@.is_suffix_of(text@),
{
    text.ends_with(suffix)
}

/// The texts of a list of strings.
pub open spec fn texts(list: Seq<String>) -> Seq<Seq<char>> {
    list.map_values(|s: String| s@)
}

/// The texts of a list are those of its strings, one for one.
pub proof fn law_texts_are_those_of_the_strings(list: Seq<String>)
    ensures
        texts(list).len() == list.len(),
        forall|i: int| 0 <= i < list.len() ==> #[trigger] texts(list)[i] == list[i]@,
{
}

/// `list` with every occurrence of `item` left out, the rest in the same order.
pub open spec fn without<A>(list: Seq<A>, item: A) -> Seq<A> {
    list.filter(|x: A| x != item)
}

/// `list` with every occurrence of any of `items` left out, the rest in the same order.
pub open spec fn excluding<A>(list: Seq<A>, items: Seq<A>) -> Seq<A> {
    list.filter(|x: A| !items.contains(x))
}

/// Filtering keeps the members that satisfy the predicate, and nothing else.
pub proof fn lemma_filter_members<A>(s: Seq<A>, p: spec_fn(A) -> bool)
    ensures
        forall|x: A| #[trigger] s.filter(p).contains(x) <==> s.contains(x) && p(x),
    decreases s.len(),
{
    reveal(Seq::filter);
    if s.len() > 0 {
        let rest = s.drop_last();
        lemma_filter_members(rest, p);
        assert forall|x: A| #[trigger] s.filter(p).contains(x) <==> s.contains(x) && p(x) by {
            assert(s == rest.push(s.last()));
            lemma_push_members(rest, s.last(), x);
            lemma_push_members(rest.filter(p), s.last(), x);
        }
    }
}

/// Leaving an item out keeps the other members, and nothing else.
pub proof fn lemma_without_members<A>(list: Seq<A>, item: A)
    ensures
        forall|x: A| #[trigger] without(list, item).contains(x) <==> list.contains(x) && x != item,
{
    lemma_filter_members(list, |x: A| x != item);
}

/// Leaving out what is not there leaves a sequence as it is.
pub proof fn lemma_without_absent<A>(list: Seq<A>, item: A)
    requires
        !list.contains(item),
    ensures
        without(list, item) == list,
{
    lemma_filter_all(list, |x: A| x != item);
}

/// Leaving an item out of a sequence without repetitions makes it shorter by one, where the item
/// was there, and brings no repetition in.
pub proof fn lemma_without_no_duplicates<A>(list: Seq<A>, item: A)
    requires
        list.no_duplicates(),
    ensures
        without(list, item).no_duplicates(),
        without(list, item).len() == list.len() - if list.contains(item) {
            1int
        } else {
            0
        },
    decreases list.len(),
{
    reveal(Seq::filter);
    lemma_filter_no_duplicates(list, |x: A| x != item);
    if !list.contains(item) {
        lemma_without_absent(list, item);
    } else {
        let rest = list.drop_last();
        if list.last() == item {
            assert(!rest.contains(item));
            lemma_without_absent(rest, item);
        } else {
            let i = list.index_of(item);
            assert(rest[i] == item);
        }
        lemma_without_no_duplicates(rest, item);
    }
}

/// What a sequence holds after a push.
pub proof fn lemma_push_members<A>(s: Seq<A>, item: A, x: A)
    ensures
        s.push(item).contains(x) <==> s.contains(x) || x == item,
{
    if s.contains(x) {
        let i = s.index_of(x);
        assert(s.push(item)[i] == x);
    }
    assert(s.push(item)[s.len() as int] == item);
}

/// A filtered sequence without repetitions has none either.
pub proof fn lemma_filter_no_duplicates<A>(s: Seq<A>, p: spec_fn(A) -> bool)
    requires
        s.no_duplicates(),
    ensures
        s.filter(p).no_duplicates(),
        s.filter(p).len() <= s.len(),
    decreases s.len(),
{
    reveal(Seq::filter);
    if s.len() > 0 {
        let rest = s.drop_last();
        lemma_filter_no_duplicates(rest, p);
        lemma_filter_members(rest, p);
        let kept = rest.filter(p);
        if kept.contains(s.last()) {
            assert(rest.contains(s.last()));
        }
        lemma_push_no_duplicates(kept, s.last());
    }
}

/// Pushing a new item keeps a sequence free of repetitions.
pub proof fn lemma_push_no_duplicates<A>(s: Seq<A>, item: A)
    requires
        s.no_duplicates(),
        !s.contains(item),
    ensures
        s.push(item).no_duplicates(),
{
    assert forall|i: int, j: int|
        0 <= i < s.push(item).len() && 0 <= j < s.push(item).len() && i != j implies s.push(
        item,
    )[i] != s.push(item)[j] by {
        if i < s.len() {
            assert(s.contains(s[i]));
        }
        if j < s.len() {
            assert(s.contains(s[j]));
        }
    }
}

/// Predicates that agree on the members of a sequence filter it alike.
pub proof fn lemma_filter_agree<A>(s: Seq<A>, p: spec_fn(A) -> bool, q: spec_fn(A) -> bool)
    requires
        forall|x: A| #[trigger] s.contains(x) ==> p(x) == q(x),
    ensures
        s.filter(p) == s.filter(q),
    decreases s.len(),
{
    reveal(Seq::filter);
    if s.len() > 0 {
        let rest = s.drop_last();
        assert forall|x: A| #[trigger] rest.contains(x) implies p(x) == q(x) by {
            assert(s == rest.push(s.last()));
            lemma_push_members(rest, s.last(), x);
        }
        lemma_filter_agree(rest, p, q);
        assert(s.contains(s.last()));
    }
}

/// A predicate that every member satisfies leaves a sequence as it is.
pub proof fn lemma_filter_all<A>(s: Seq<A>, p: spec_fn(A) -> bool)
    requires
        forall|x: A| #[trigger] s.contains(x) ==> p(x),
    ensures
        s.filter(p) == s,
    decreases s.len(),
{
    reveal(Seq::filter);
    if s.len() > 0 {
        let rest = s.drop_last();
        assert forall|x: A| #[trigger] rest.contains(x) implies p(x) by {
            assert(s == rest.push(s.last()));
            lemma_push_members(rest, s.last(), x);
        }
        lemma_filter_all(rest, p);
        assert(s.contains(s.last()));
        assert(s == rest.push(s.last()));
    }
}

/// Leaving out one item after others is leaving out all of them.
pub proof fn lemma_excluding_push<A>(list: Seq<A>, items: Seq<A>, item: A)
    ensures
        without(excluding(list, items), item) == excluding(list, items.push(item)),
    decreases list.len(),
{
    reveal(Seq::filter);
    if list.len() > 0 {
        let rest = list.drop_last();
        let last = list.last();
        lemma_excluding_push(rest, items, item);
        lemma_push_members(items, item, last);
        if !items.contains(last) {
            assert(excluding(rest, items).push(last).drop_last() == excluding(rest, items));
        }
    }
}

/// The texts of a list and of the list with one more string.
pub proof fn lemma_texts_push(list: Seq<String>, s: String)
    ensures
        texts(list.push(s)) == texts(list).push(s@),
{
    assert(texts(list.push(s)) =~= texts(list).push(s@));
}

} // verus!
