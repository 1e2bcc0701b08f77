//! The order of texts by their characters, and sorting by it.
use vstd::prelude::*;
use vstd::relations::{sorted_by, total_ordering};

use crate::text::texts;

verus! {

/// Whether `a` stands at or before `b` in the order of their code points, which is also the order
/// of their UTF-8 bytes.
pub open spec fn text_le(a: Seq<char>, b: Seq<char>) -> bool
    decreases a.len(),
{
    if a.len() == 0 {
        true
    } else if b.len() == 0 {
        false
    } else if a[0] != b[0] {
        a[0] < b[0]
    } else {
        text_le(a.drop_first(), b.drop_first())
    }
}

/// The given texts in ascending order.
pub open spec fn sorted_texts(list: Seq<Seq<char>>) -> Seq<Seq<char>> {
    list.sort_by(|a: Seq<char>, b: Seq<char>| text_le(a, b))
}

proof fn lemma_reflexive(a: Seq<char>)
    ensures
        text_le(a, a),
    decreases a.len(),
{
    if a.len() > 0 {
        lemma_reflexive(a.drop_first());
    }
}

proof fn lemma_antisymmetric(a: Seq<char>, b: Seq<char>)
    requires
        text_le(a, b),
        text_le(b, a),
    ensures
        a == b,
    decreases a.len(),
{
    if a.len() == 0 || b.len() == 0 {
        assert(a =~= b);
    } else {
        lemma_antisymmetric(a.drop_first(), b.drop_first());
        assert(a =~= seq![a[0]] + a.drop_first());
        assert(b =~= seq![b[0]] + b.drop_first());
    }
}

proof fn lemma_transitive(a: Seq<char>, b: Seq<char>, c: Seq<char>)
    requires
        text_le(a, b),
        text_le(b, c),
    ensures
        text_le(a, c),
    decreases a.len(),
{
    if a.len() > 0 && a[0] == b[0] && b[0] == c[0] {
        lemma_transitive(a.drop_first(), b.drop_first(), c.drop_first());
    }
}

proof fn lemma_total(a: Seq<char>, b: Seq<char>)
    ensures
        text_le(a, b) || text_le(b, a),
    decreases a.len(),
{
    if a.len() > 0 && b.len() > 0 && a[0] == b[0] {
        lemma_total(a.drop_first(), b.drop_first());
    }
}

/// The order of texts is a total order.
pub proof fn lemma_text_order()
    ensures
        total_ordering(|a: Seq<char>, b: Seq<char>| text_le(a, b)),
{
    let leq = |a: Seq<char>, b: Seq<char>| text_le(a, b);
    assert forall|a: Seq<char>| #[trigger] leq(a, a) by {
        lemma_reflexive(a);
    }
    assert forall|a: Seq<char>, b: Seq<char>| #[trigger]
        leq(a, b) && #[trigger] leq(b, a) implies a == b by {
        lemma_antisymmetric(a, b);
    }
    assert forall|a: Seq<char>, b: Seq<char>, c: Seq<char>| #[trigger]
        leq(a, b) && #[trigger] leq(b, c) implies leq(a, c) by {
        lemma_transitive(a, b, c);
    }
    assert forall|a: Seq<char>, b: Seq<char>| #[trigger] leq(a, b) || #[trigger] leq(b, a) by {
        lemma_total(a, b);
    }
}

/// A text stands before all that start with it, and where two texts differ, the first difference
/// decides.
pub proof fn law_text_le(start: Seq<char>, x: char, y: char, a: Seq<char>, b: Seq<char>)
    ensures
        text_le(start, start + a),
        text_le(start + a, start) <==> a.len() == 0,
        x != y ==> (text_le(start + seq![x] + a, start + seq![y] + b) <==> x < y),
    decreases start.len(),
{
    let left = start + seq![x] + a;
    let right = start + seq![y] + b;
    if start.len() == 0 {
        assert(start + a =~= a);
    } else {
        let rest = start.drop_first();
        law_text_le(rest, x, y, a, b);
        assert((start + a).drop_first() =~= rest + a);
        assert(left.drop_first() =~= rest + seq![x] + a);
        assert(right.drop_first() =~= rest + seq![y] + b);
    }
}

/// Sorted texts are the same texts, each at or before the next.
pub proof fn law_sorted_texts(list: Seq<Seq<char>>)
    ensures
        sorted_texts(list).to_multiset() == list.to_multiset(),
        forall|i: int, j: int|
            0 <= i < j < sorted_texts(list).len() ==> text_le(
                #[trigger] sorted_texts(list)[i],
                #[trigger] sorted_texts(list)[j],
            ),
{
    let leq = |a: Seq<char>, b: Seq<char>| text_le(a, b);
    lemma_text_order();
    list.lemma_sort_by_ensures(leq);
    let sorted = sorted_texts(list);
    assert forall|i: int, j: int| 0 <= i < j < sorted.len() implies text_le(
        #[trigger] sorted[i],
        #[trigger] sorted[j],
    ) by {
        assert(leq(sorted[i], sorted[j]));
    }
}

/// Inserting an item adds it to the items of the sequence.
proof fn lemma_insert_multiset<A>(s: Seq<A>, i: int, item: A)
    requires
        0 <= i <= s.len(),
    ensures
        s.insert(i, item).to_multiset() == s.to_multiset().insert(item),
{
    let head = s.take(i);
    let tail = s.skip(i);
    assert(s.insert(i, item) =~= head.push(item) + tail);
    assert(s =~= head + tail);
    vstd::seq_lib::lemma_multiset_commutative(head.push(item), tail);
    vstd::seq_lib::lemma_multiset_commutative(head, tail);
    head.to_multiset_ensures();
    assert(s.insert(i, item).to_multiset() =~= s.to_multiset().insert(item));
}

/// Whether `a` stands at or before `b`.
pub fn is_le(a: &str, b: &str) -> (r: bool)
    ensures
        r == text_le(a@, b@),
{
    let n: usize = a.unicode_len();
    let m: usize = b.unicode_len();
    let mut i: usize = 0;
    assert(a@.skip(0) =~= a@ && b@.skip(0) =~= b@);
    while i < n && i < m && a.get_char(i) == b.get_char(i)
        invariant
            n == a@.len(),
            m == b@.len(),
            i <= n,
            i <= m,
            text_le(a@.skip(i as int), b@.skip(i as int)) == text_le(a@, b@),
        decreases n - i,
    {
        assert(a@.skip(i as int).drop_first() =~= a@.skip(i + 1));
        assert(b@.skip(i as int).drop_first() =~= b@.skip(i + 1));
        i = i + 1;
    }
    if i == n {
        true
    } else if i == m {
        false
    } else {
        a.get_char(i) < b.get_char(i)
    }
}

/// Sorts a list of strings.
pub fn sort_strings(list: Vec<String>) -> (r: Vec<String>)
    ensures
        texts(r@) == sorted_texts(texts(list@)),
{
    let mut out: Vec<String> = Vec::new();
    let ghost leq = |a: Seq<char>, b: Seq<char>| text_le(a, b);
    let mut i: usize = 0;
    assert(texts(out@) =~= Seq::empty());
    assert(texts(list@).take(0) =~= Seq::empty());
    while i < list.len()
        invariant
            i <= list.len(),
            out.len() == i,
            leq == (|a: Seq<char>, b: Seq<char>| text_le(a, b)),
            sorted_by(texts(out@), leq),
            texts(out@).to_multiset() == texts(list@).take(i as int).to_multiset(),
        decreases list.len() - i,
    {
        let item: String = list[i].clone();
        let ghost before = texts(out@);
        let mut at: usize = out.len();
        while at > 0 && !is_le(out[at - 1].as_str(), item.as_str())
            invariant
                at <= out.len(),
                before == texts(out@),
                leq == (|a: Seq<char>, b: Seq<char>| text_le(a, b)),
                sorted_by(before, leq),
                forall|j: int| at <= j < before.len() ==> leq(item@, #[trigger] before[j]),
            decreases at,
        {
            proof {
                lemma_total(item@, before[at - 1]);
            }
            at = at - 1;
        }
        proof {
            assert forall|j: int| 0 <= j < at implies leq(#[trigger] before[j], item@) by {
                assert(leq(before[at - 1], item@));
                if j < at - 1 {
                    assert(leq(before[j], before[at - 1]));
                    lemma_transitive(before[j], before[at - 1], item@);
                }
            }
        }
        out.insert(at, item);
        proof {
            let after = texts(out@);
            assert(after =~= before.insert(at as int, item@));
            assert(sorted_by(after, leq)) by {
                assert forall|x: int, y: int| 0 <= x < y < after.len() implies #[trigger] leq(
                    after[x],
                    after[y],
                ) by {
                    let bx = if x < at { x } else { x - 1 };
                    let by_ = if y < at { y } else { y - 1 };
                    if x != at && y != at {
                        assert(leq(before[bx], before[by_]));
                    } else if x == at {
                        assert(leq(item@, before[by_]));
                    } else {
                        assert(leq(before[bx], item@));
                    }
                }
            }
            lemma_insert_multiset(before, at as int, item@);
            texts(list@).take(i as int).to_multiset_ensures();
            assert(texts(list@).take(i + 1) =~= texts(list@).take(i as int).push(item@));
        }
        i = i + 1;
    }
    proof {
        assert(texts(list@).take(i as int) =~= texts(list@));
        lemma_text_order();
        texts(list@).lemma_sort_by_ensures(leq);
        vstd::seq_lib::lemma_sorted_unique(texts(out@), sorted_texts(texts(list@)), leq);
    }
    out
}

} // verus!
