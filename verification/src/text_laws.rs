//! What holds of the operations on text.
use vstd::prelude::*;

use crate::text::{
    ascii_lower, is_white_space, join, lemma_no_separator, lemma_pieces_hold_no_separator,
    lemma_position, lemma_split_once_at, opt_str, opt_text, position, same_ignoring_case, split,
    split_once, str_texts, strip_prefix, texts, trim, trim_end, trim_start,
};

verus! {

/// Lists of strings hold their texts in the same order.
pub proof fn law_texts(strings: Seq<String>, slices: Seq<&str>)
    ensures
        texts(strings).len() == strings.len(),
        forall|i: int| 0 <= i < strings.len() ==> #[trigger] texts(strings)[i] == strings[i]@,
        str_texts(slices).len() == slices.len(),
        forall|i: int| 0 <= i < slices.len() ==> #[trigger] str_texts(slices)[i] == slices[i]@,
{
}

/// An optional string holds its text.
pub proof fn law_optional_texts(string: String, slice: &str)
    ensures
        opt_text(Some(string)) == Some(string@),
        opt_text(None) is None,
        opt_str(Some(slice)) == Some(slice@),
        opt_str(None) is None,
{
}

/// Nothing joins to nothing and one text to itself. The separator stands once between what two
/// lists join to.
pub proof fn law_join(a: Seq<Seq<char>>, b: Seq<Seq<char>>, text: Seq<char>, separator: Seq<char>)
    ensures
        join(Seq::empty(), separator) == Seq::<char>::empty(),
        join(seq![text], separator) == text,
        a.len() > 0 && b.len() > 0 ==> join(a + b, separator) == join(a, separator) + separator
            + join(b, separator),
    decreases b.len(),
{
    if a.len() > 0 && b.len() > 0 {
        assert((a + b).drop_last() =~= a + b.drop_last());
        assert((a + b).last() == b.last());
        if b.len() == 1 {
            assert(a + b.drop_last() =~= a);
        } else {
            law_join(a, b.drop_last(), text, separator);
            assert(join(a + b, separator) =~= join(a, separator) + separator + join(
                b,
                separator,
            ));
        }
    }
}

/// The pieces of a text hold no separator, and joined by it they are the text again.
pub proof fn law_pieces_join_back(s: Seq<char>, c: char)
    ensures
        split(s, c).len() > 0,
        forall|i: int| 0 <= i < split(s, c).len() ==> !(#[trigger] split(s, c)[i]).contains(c),
        join(split(s, c), seq![c]) == s,
    decreases s.len(),
{
    lemma_pieces_hold_no_separator(s, c);
    lemma_position(s, c);
    let i = position(s, c) as int;
    if i < s.len() {
        let rest = s.skip(i + 1);
        law_pieces_join_back(rest, c);
        law_join(seq![s.take(i)], split(rest, c), s.take(i), seq![c]);
        assert(s =~= s.take(i) + seq![c] + rest);
    }
}

/// Texts without separators are the pieces of what they join to.
pub proof fn law_joined_texts_are_pieces(list: Seq<Seq<char>>, c: char)
    requires
        list.len() > 0,
        forall|i: int| 0 <= i < list.len() ==> !(#[trigger] list[i]).contains(c),
    ensures
        split(join(list, seq![c]), c) == list,
    decreases list.len(),
{
    let first = list[0];
    assert(!first.contains(c));
    if list.len() == 1 {
        lemma_no_separator(first, c);
        assert(list =~= seq![first]);
    } else {
        let rest = list.drop_first();
        assert forall|i: int| 0 <= i < rest.len() implies !(#[trigger] rest[i]).contains(c) by {
            assert(rest[i] == list[i + 1]);
        }
        law_joined_texts_are_pieces(rest, c);
        law_join(seq![first], rest, first, seq![c]);
        assert(seq![first] + rest =~= list);
        lemma_split_once_at(first, c, join(rest, seq![c]));
        let s = join(list, seq![c]);
        let i = position(s, c) as int;
        assert(split_once(s, c) == Some((first, join(rest, seq![c]))));
        assert(s.take(i) == first && s.skip(i + 1) == join(rest, seq![c]));
        assert(split(s, c) =~= list);
    }
}

/// Only a prefix is taken off, and what is left follows it.
pub proof fn law_strip_prefix(s: Seq<char>, prefix: Seq<char>, rest: Seq<char>)
    ensures
        strip_prefix(s, prefix) == Some(rest) <==> s == prefix + rest,
        strip_prefix(s, prefix) is None <==> !prefix.is_prefix_of(s),
{
    if s == prefix + rest {
        assert(s.take(prefix.len() as int) =~= prefix);
        assert(s.skip(prefix.len() as int) =~= rest);
    }
    if strip_prefix(s, prefix) is Some {
        assert(s =~= prefix + s.skip(prefix.len() as int));
    }
    if prefix.is_prefix_of(s) {
        assert(s.take(prefix.len() as int) =~= prefix);
    }
}

proof fn lemma_trim_start(s: Seq<char>)
    ensures
        ({
            let n = s.len() - trim_start(s).len();
            &&& 0 <= n <= s.len()
            &&& trim_start(s) == s.skip(n)
            &&& forall|i: int| 0 <= i < n ==> is_white_space(#[trigger] s[i])
            &&& n < s.len() ==> !is_white_space(s[n])
        }),
    decreases s.len(),
{
    if s.len() > 0 && is_white_space(s[0]) {
        let rest = s.drop_first();
        lemma_trim_start(rest);
        let n = rest.len() - trim_start(rest).len();
        assert(s.skip(n + 1) =~= rest.skip(n));
        assert forall|i: int| 0 <= i < n + 1 implies is_white_space(#[trigger] s[i]) by {
            if i > 0 {
                assert(s[i] == rest[i - 1]);
            }
        }
    } else {
        assert(s.skip(0) =~= s);
    }
}

proof fn lemma_trim_end(s: Seq<char>)
    ensures
        ({
            let n = trim_end(s).len() as int;
            &&& 0 <= n <= s.len()
            &&& trim_end(s) == s.take(n)
            &&& forall|i: int| n <= i < s.len() ==> is_white_space(#[trigger] s[i])
            &&& n > 0 ==> !is_white_space(s[n - 1])
        }),
    decreases s.len(),
{
    if s.len() > 0 && is_white_space(s.last()) {
        let rest = s.drop_last();
        lemma_trim_end(rest);
        let n = trim_end(rest).len() as int;
        assert(s.take(n) =~= rest.take(n));
        assert forall|i: int| n <= i < s.len() implies is_white_space(#[trigger] s[i]) by {
            if i < rest.len() {
                assert(s[i] == rest[i]);
            }
        }
    } else {
        assert(s.take(s.len() as int) =~= s);
    }
}

/// Trimming takes white space off both ends, and nothing else: what is left neither starts nor
/// ends with any.
pub proof fn law_trim(s: Seq<char>)
    ensures
        exists|before: Seq<char>, after: Seq<char>|
            {
                &&& s == #[trigger] (before + trim(s) + after)
                &&& forall|i: int| 0 <= i < before.len() ==> is_white_space(#[trigger] before[i])
                &&& forall|i: int| 0 <= i < after.len() ==> is_white_space(#[trigger] after[i])
            },
        trim(s).len() > 0 ==> !is_white_space(trim(s)[0]) && !is_white_space(trim(s).last()),
{
    lemma_trim_start(s);
    let n = s.len() - trim_start(s).len();
    let middle = trim_start(s);
    lemma_trim_end(middle);
    let m = trim_end(middle).len() as int;
    let before = s.take(n);
    let after = middle.skip(m);
    assert(s =~= before + trim(s) + after);
    assert forall|i: int| 0 <= i < after.len() implies is_white_space(#[trigger] after[i]) by {
        assert(after[i] == middle[m + i]);
    }
    if m > 0 {
        assert(trim(s)[0] == middle[0]);
    }
}

/// The characters that are white space.
pub proof fn law_white_space(c: char)
    ensures
        is_white_space(c) <==> {
            let n = c as u32;
            ||| 9 <= n <= 13
            ||| n == 0x20
            ||| n == 0x85
            ||| n == 0xa0
            ||| n == 0x1680
            ||| 0x2000 <= n <= 0x200a
            ||| n == 0x2028
            ||| n == 0x2029
            ||| n == 0x202f
            ||| n == 0x205f
            ||| n == 0x3000
        },
{
}

/// The lower case of a capital letter is 32 characters behind it; all other characters stay.
pub proof fn law_ascii_lower(c: char)
    ensures
        'A' <= c <= 'Z' ==> 'a' <= ascii_lower(c) <= 'z' && ascii_lower(c) as int == c as int + 32,
        !('A' <= c <= 'Z') ==> ascii_lower(c) == c,
{
}

/// Texts are the same but for case where each character is the other's, or one is a capital
/// letter and the other the small one.
pub proof fn law_same_ignoring_case(a: Seq<char>, b: Seq<char>)
    ensures
        same_ignoring_case(a, b) <==> a.len() == b.len() && forall|i: int|
            0 <= i < a.len() ==> {
                ||| #[trigger] a[i] == b[i]
                ||| 'A' <= a[i] <= 'Z' && b[i] as int == a[i] as int + 32
                ||| 'A' <= b[i] <= 'Z' && a[i] as int == b[i] as int + 32
            },
{
    if same_ignoring_case(a, b) {
        assert forall|i: int| 0 <= i < a.len() implies {
            ||| #[trigger] a[i] == b[i]
            ||| 'A' <= a[i] <= 'Z' && b[i] as int == a[i] as int + 32
            ||| 'A' <= b[i] <= 'Z' && a[i] as int == b[i] as int + 32
        } by {
            law_ascii_lower(a[i]);
            law_ascii_lower(b[i]);
            assert(ascii_lower(a[i]) == ascii_lower(b[i]));
        }
    }
    if a.len() == b.len() && forall|i: int|
        0 <= i < a.len() ==> {
            ||| #[trigger] a[i] == b[i]
            ||| 'A' <= a[i] <= 'Z' && b[i] as int == a[i] as int + 32
            ||| 'A' <= b[i] <= 'Z' && a[i] as int == b[i] as int + 32
        } {
        assert forall|i: int| 0 <= i < a.len() implies ascii_lower(#[trigger] a[i]) == ascii_lower(
            b[i],
        ) by {
            law_ascii_lower(a[i]);
            law_ascii_lower(b[i]);
        }
    }
}

} // verus!
