//! Lists and numbers in the text of a command line.

use vstd::prelude::*;
use vstd::string::*;

verus! {

/// The parts of `text` between its commas. There is one more part than there are commas.
pub open spec fn fields(text: Seq<char>) -> Seq<Seq<char>>
    decreases text.len(),
{
    if text.len() == 0 {
        seq![Seq::empty()]
    } else {
        let before = fields(text.drop_last());
        if text.last() == ',' {
            before.push(Seq::empty())
        } else {
            before.drop_last().push(before.last().push(text.last()))
        }
    }
}

/// The parts put together again, with a comma between each two.
pub open spec fn joined(parts: Seq<Seq<char>>) -> Seq<char>
    decreases parts.len(),
{
    if parts.len() == 0 {
        Seq::empty()
    } else if parts.len() == 1 {
        parts[0]
    } else {
        joined(parts.drop_last()).push(',') + parts.last()
    }
}

/// The value of a decimal digit.
pub open spec fn digit(c: char) -> nat {
    (c as nat - '0' as nat) as nat
}

/// Whether a character is a decimal digit.
pub open spec fn is_digit(c: char) -> bool {
    '0' <= c <= '9'
}

/// The number that a row of digits stands for.
pub open spec fn value(digits: Seq<char>) -> nat
    decreases digits.len(),
{
    if digits.len() == 0 {
        0
    } else {
        value(digits.drop_last()) * 10 + digit(digits.last())
    }
}

/// `text` without the plus sign that a number may start with.
pub open spec fn unsigned(text: Seq<char>) -> Seq<char> {
    if text.len() > 0 && text[0] == '+' {
        text.skip(1)
    } else {
        text
    }
}

/// The number up to `max` that `text` stands for: digits only, at least one, behind at most one
/// plus sign.
pub open spec fn number(text: Seq<char>, max: nat) -> Option<nat> {
    let digits = unsigned(text);
    if digits.len() > 0 && (forall|i: int| 0 <= i < digits.len() ==> is_digit(digits[i])) && value(
        digits,
    ) <= max {
        Some(value(digits))
    } else {
        None
    }
}

/// The characters of `text`.
fn chars_of(text: &str) -> (chars: Vec<char>)
    ensures
        chars@ == text@,
{
    let mut chars: Vec<char> = Vec::new();
    for c in iter: text.chars()
        invariant
            iter.seq() == text@,
            chars@ == text@.take(iter.index() as int),
    {
        chars.push(c);
    }
    assert(text@.take(text@.len() as int) =~= text@);
    chars
}

/// Whether two texts are the same.
pub(crate) fn same(a: &str, b: &str) -> (yes: bool)
    ensures
        yes == (a@ == b@),
{
    a.to_owned() == b.to_owned()
}

/// Every text has a part, even the empty one.
proof fn lemma_some_field(text: Seq<char>)
    ensures
        fields(text).len() > 0,
    decreases text.len(),
{
    if text.len() > 0 {
        lemma_some_field(text.drop_last());
    }
}

/// What `fields` makes of the first `i` characters is the parts that are complete, and the last
/// one, which starts at `start`.
spec fn cut(text: Seq<char>, start: int, i: int, parts: Seq<Seq<char>>) -> bool {
    &&& 0 <= start <= i <= text.len()
    &&& fields(text.take(i)) == parts.push(text.subrange(start, i))
}

/// Splits `text` at its commas.
pub fn split_at_commas(text: &str) -> (parts: Vec<String>)
    ensures
        parts@.map_values(|s: String| s@) == fields(text@),
{
    let chars = chars_of(text);
    let mut parts: Vec<String> = Vec::new();
    let mut start: usize = 0;
    let mut i: usize = 0;
    assert(text@.take(0) =~= Seq::<char>::empty());
    assert(cut(text@, 0, 0, Seq::empty())) by {
        assert(Seq::<Seq<char>>::empty().push(text@.subrange(0, 0)) =~= fields(text@.take(0)));
    }
    assert(parts@.map_values(|s: String| s@) =~= Seq::<Seq<char>>::empty());
    while i < chars.len()
        invariant
            chars@ == text@,
            start <= i <= chars.len(),
            cut(text@, start as int, i as int, parts@.map_values(|s: String| s@)),
        decreases chars.len() - i,
    {
        let ghost done = parts@.map_values(|s: String| s@);
        assert(text@.take(i + 1).drop_last() =~= text@.take(i as int));
        if chars[i] == ',' {
            parts.push(text.substring_char(start, i).to_owned());
            assert(parts@.map_values(|s: String| s@) =~= done.push(
                text@.subrange(start as int, i as int),
            ));
            start = i + 1;
            assert(text@.subrange(start as int, i + 1) =~= Seq::<char>::empty());
            assert(fields(text@.take(i + 1)) =~= parts@.map_values(|s: String| s@).push(
                text@.subrange(start as int, i + 1),
            ));
        } else {
            assert(text@.subrange(start as int, i as int).push(text@[i as int]) =~= text@.subrange(
                start as int,
                i + 1,
            ));
            assert(fields(text@.take(i + 1)) =~= done.push(text@.subrange(start as int, i + 1)));
        }
        i = i + 1;
    }
    assert(text@.take(i as int) =~= text@);
    let ghost done = parts@.map_values(|s: String| s@);
    parts.push(text.substring_char(start, i).to_owned());
    assert(parts@.map_values(|s: String| s@) =~= done.push(text@.subrange(start as int, i as int)));
    parts
}

/// More digits make no smaller number.
proof fn lemma_value_grows(digits: Seq<char>, i: int)
    requires
        0 <= i <= digits.len(),
    ensures
        value(digits.take(i)) <= value(digits),
    decreases digits.len() - i,
{
    if i < digits.len() {
        lemma_value_grows(digits, i + 1);
        assert(digits.take(i + 1).drop_last() =~= digits.take(i));
    } else {
        assert(digits.take(i) =~= digits);
    }
}

/// Reads a number up to `max`.
pub fn parse_number(text: &str, max: u32) -> (n: Option<u32>)
    ensures
        match n {
            Some(n) => number(text@, max as nat) == Some(n as nat),
            None => number(text@, max as nat) is None,
        },
{
    let chars = chars_of(text);
    let start: usize = if chars.len() > 0 && chars[0] == '+' {
        1
    } else {
        0
    };
    let ghost digits = unsigned(text@);
    assert(digits =~= text@.skip(start as int));
    if chars.len() == start {
        return None;
    }
    let mut n: u32 = 0;
    let mut i: usize = start;
    assert(digits.take(0) =~= Seq::<char>::empty());
    while i < chars.len()
        invariant
            chars@ == text@,
            start <= i <= chars.len(),
            digits == unsigned(text@),
            digits == text@.skip(start as int),
            n == value(digits.take(i - start)),
            n <= max,
            forall|j: int| 0 <= j < i - start ==> is_digit(digits[j]),
        decreases chars.len() - i,
    {
        let c: char = chars[i];
        assert(c == digits[i - start]);
        assert(digits.take(i - start + 1).drop_last() =~= digits.take(i - start));
        proof {
            lemma_value_grows(digits, i - start + 1);
        }
        if c < '0' || c > '9' {
            return None;
        }
        let d: u32 = c as u32 - '0' as u32;
        if n as u64 * 10 + d as u64 > max as u64 {
            return None;
        }
        n = n * 10 + d;
        i = i + 1;
    }
    assert(digits.take(i - start) =~= digits);
    Some(n)
}

/// The parts of a text hold no comma and, joined by commas again, are the text.
pub proof fn law_fields_rejoin(text: Seq<char>)
    ensures
        joined(fields(text)) == text,
        forall|i: int| 0 <= i < fields(text).len() ==> !(#[trigger] fields(text)[i]).contains(','),
    decreases text.len(),
{
    if text.len() > 0 {
        let before = text.drop_last();
        law_fields_rejoin(before);
        lemma_some_field(before);
        let parts = fields(before);
        let all = fields(text);
        assert(text =~= before.push(text.last()));
        if text.last() == ',' {
            assert(all.drop_last() =~= parts);
            assert(joined(all) =~= text);
        } else {
            let longer = parts.last().push(text.last());
            assert(all.drop_last() =~= parts.drop_last());
            assert(!longer.contains(',')) by {
                assert(!parts.last().contains(','));
                assert forall|j: int| 0 <= j < longer.len() implies longer[j] != ',' by {
                    if j < parts.last().len() {
                        assert(parts.last().contains(parts.last()[j]));
                    }
                }
            }
            assert(all.last() == longer);
            assert(joined(all) =~= joined(parts).push(text.last()));
        }
        assert forall|i: int| 0 <= i < all.len() implies !(#[trigger] all[i]).contains(',') by {
            if i < parts.len() - 1 || text.last() == ',' && i < parts.len() {
                assert(all[i] == parts[i]);
            }
        }
    }
}

/// A text without a comma is its only part.
pub proof fn law_text_without_a_comma_is_one_part(text: Seq<char>)
    requires
        !text.contains(','),
    ensures
        fields(text) == seq![text],
    decreases text.len(),
{
    if text.len() > 0 {
        let before = text.drop_last();
        assert(text.contains(text.last()));
        assert forall|i: int| 0 <= i < before.len() implies before[i] != ',' by {
            assert(text.contains(text[i]));
        }
        law_text_without_a_comma_is_one_part(before);
        assert(before.push(text.last()) =~= text);
    } else {
        assert(text =~= Seq::empty());
    }
    assert(fields(text) =~= seq![text]);
}

/// The parts of two lists with a comma between them are the parts of the one and then those of the
/// other.
pub proof fn law_lists_join_at_a_comma(a: Seq<char>, b: Seq<char>)
    ensures
        fields(a.push(',') + b) == fields(a) + fields(b),
    decreases b.len(),
{
    let both = a.push(',') + b;
    if b.len() == 0 {
        assert(both =~= a.push(','));
        assert(a.push(',').drop_last() =~= a);
        assert(fields(both) =~= fields(a) + fields(b));
    } else {
        law_lists_join_at_a_comma(a, b.drop_last());
        lemma_some_field(b.drop_last());
        assert(both.drop_last() =~= a.push(',') + b.drop_last());
        assert(both.last() == b.last());
        assert(fields(both) =~= fields(a) + fields(b));
    }
}

/// A single character is a number where it is a digit, and then it is the digit's number.
pub proof fn law_digit_is_a_number(c: char, max: nat)
    ensures
        number(seq![], max) is None,
        number(seq![c], max) == if '0' <= c <= '9' && c as nat - '0' as nat <= max {
            Some((c as nat - '0' as nat) as nat)
        } else {
            None
        },
{
    let one = seq![c];
    if c == '+' {
        assert(one.skip(1).len() == 0);
    } else {
        assert(unsigned(one) == one);
        assert(one.drop_last() =~= Seq::<char>::empty());
        assert(value(one.drop_last()) == 0);
        assert(one[0] == c);
    }
}

/// A further digit makes a number ten times as large, and adds its own number. A further character
/// that is no digit leaves none, and what is no number does not become one.
pub proof fn law_further_digit(text: Seq<char>, c: char, bound: nat, max: nat)
    requires
        text.len() > 0,
        text != seq!['+'],
    ensures
        !('0' <= c <= '9') ==> number(text.push(c), max) is None,
        '0' <= c <= '9' ==> (number(text, bound) matches Some(n) ==> number(text.push(c), max)
            == if n * 10 + (c as nat - '0' as nat) <= max {
            Some((n * 10 + (c as nat - '0' as nat)) as nat)
        } else {
            None
        }),
        (forall|m: nat| #[trigger] number(text, m) is None) ==> number(text.push(c), max) is None,
{
    let digits = unsigned(text);
    let more = unsigned(text.push(c));
    assert(text.push(c)[0] == text[0]);
    assert(more =~= digits.push(c));
    assert(more.drop_last() =~= digits);
    assert(more[digits.len() as int] == c);
    assert(forall|i: int| 0 <= i < digits.len() ==> more[i] == digits[i]);
    assert(digits.len() > 0) by {
        if digits.len() == 0 {
            assert(text =~= seq!['+']);
        }
    }
    if forall|m: nat| #[trigger] number(text, m) is None {
        assert(number(text, value(digits)) is None);
        let i = choose|i: int| 0 <= i < digits.len() && !is_digit(digits[i]);
        assert(!is_digit(more[i]));
    }
}

/// A plus sign in front of a number that has none makes no difference.
pub proof fn law_plus_sign_makes_no_difference(text: Seq<char>, max: nat)
    requires
        text.len() > 0 ==> text[0] != '+',
    ensures
        number(seq!['+'] + text, max) == number(text, max),
{
    assert((seq!['+'] + text).skip(1) =~= text);
}

} // verus!
