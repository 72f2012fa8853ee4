//! What becomes of texts.
use crate::paths::{without_prefix, without_suffix};
use crate::text::{
    decimal, digits_value, end_trimmed, fault_of, hex_char, hex_digits, is_digit, is_space, joined,
    parsed_unsigned, replaced, split_once_of, start_trimmed, trimmed_text, unsigned_digits,
    ParseFault,
};
use vstd::prelude::*;

verus! {

/// A number is written with one more digit than its tenth, and the last digit is
/// what is left of it; a negative one is written behind a minus sign.
pub proof fn numbers_are_written_in_tens(n: nat, d: nat)
    requires
        d < 10,
    ensures
        decimal(d as int).len() == 1,
        decimal(d as int)[0] as int == 48 + d,
        n > 0 ==> decimal((10 * n + d) as int) == decimal(n as int).push(decimal(d as int)[0]),
        n > 0 ==> decimal(-(n as int)) == seq!['-'] + decimal(n as int),
{
    if n > 0 {
        assert((10 * n + d) / 10 == n && (10 * n + d) % 10 == d);
    }
}

/// A hexadecimal number has the width asked for; its last digit is what is left of
/// it by sixteen.
pub proof fn hex_is_written_in_sixteens(n: nat, d: nat, width: nat)
    requires
        d < 16,
    ensures
        hex_digits(n, width).len() == width,
        hex_digits(16 * n + d, width + 1) == hex_digits(n, width).push(hex_char(d as int)),
        d < 10 ==> hex_char(d as int) as int == 48 + d,
        d >= 10 ==> hex_char(d as int) as int == 97 + d - 10,
    decreases width,
{
    assert((16 * n + d) / 16 == n && (16 * n + d) % 16 == d);
    if width > 0 {
        hex_is_written_in_sixteens(n / 16, d, (width - 1) as nat);
    }
}

/// Joined parts are as long as the parts and the separators between them, and
/// each further part stands behind a separator.
pub proof fn joining_puts_separators_between(parts: Seq<Seq<char>>, last: Seq<char>, sep: Seq<char>)
    ensures
        joined(seq![last], sep) == last,
        parts.len() > 0 ==> joined(parts.push(last), sep) == joined(parts, sep) + sep + last,
{
    assert(parts.push(last).drop_last() =~= parts);
}

/// Replacing puts the other text wherever the character stood and keeps the rest.
pub proof fn replacing_keeps_the_rest(s: Seq<char>, c: char, with: Seq<char>)
    ensures
        replaced(s, c, with) == s.map_values(
            |x: char|
                if x == c {
                    with
                } else {
                    seq![x]
                },
        ).flatten(),
    decreases s.len(),
{
    let f = |x: char|
        if x == c {
            with
        } else {
            seq![x]
        };
    if s.len() > 0 {
        replacing_keeps_the_rest(s.drop_last(), c, with);
        assert(s.map_values(f) =~= s.drop_last().map_values(f).push(f(s.last())));
        s.drop_last().map_values(f).lemma_flatten_push(f(s.last()));
    } else {
        assert(s.map_values(f) =~= Seq::<Seq<char>>::empty());
    }
}

/// The character is white space.
pub open spec fn is_blank(c: char) -> bool {
    let n = c as u32;
    ||| n == 32
    ||| 9 <= n <= 13
    ||| n == 0x85
    ||| n == 0xa0
    ||| n == 0x1680
    ||| 0x2000 <= n <= 0x200a
    ||| n == 0x2028
    ||| n == 0x2029
    ||| n == 0x202f
    ||| n == 0x205f
    ||| n == 0x3000
}

/// Nothing but white space.
pub open spec fn all_blank(s: Seq<char>) -> bool {
    forall|i: int| 0 <= i < s.len() ==> is_blank(#[trigger] s[i])
}

/// The text is `before`, the rest and `behind`, and only white space stands around
/// the rest.
pub open spec fn stands_between(text: Seq<char>, before: Seq<char>, rest: Seq<char>, behind: Seq<char>) -> bool {
    text == before + rest + behind && all_blank(before) && all_blank(behind)
}

proof fn start_is_cut(s: Seq<char>) -> (before: Seq<char>)
    ensures
        s == before + start_trimmed(s),
        all_blank(before),
        start_trimmed(s).len() > 0 ==> !is_blank(start_trimmed(s)[0]),
    decreases s.len(),
{
    if s.len() > 0 && is_space(s[0]) {
        let b = start_is_cut(s.skip(1));
        let before = seq![s[0]] + b;
        assert(s =~= seq![s[0]] + s.skip(1));
        assert(seq![s[0]] + (b + start_trimmed(s)) =~= before + start_trimmed(s));
        assert forall|i: int| 0 <= i < before.len() implies is_blank(#[trigger] before[i]) by {
            if i > 0 {
                assert(before[i] == b[i - 1]);
            }
        }
        before
    } else {
        assert(s =~= Seq::<char>::empty() + s);
        Seq::empty()
    }
}

proof fn end_is_cut(s: Seq<char>) -> (behind: Seq<char>)
    ensures
        s == end_trimmed(s) + behind,
        all_blank(behind),
        end_trimmed(s).len() > 0 ==> !is_blank(end_trimmed(s).last()),
        end_trimmed(s).len() > 0 ==> end_trimmed(s)[0] == s[0],
    decreases s.len(),
{
    if s.len() > 0 && is_space(s.last()) {
        let b = end_is_cut(s.drop_last());
        let behind = b.push(s.last());
        assert(s =~= s.drop_last().push(s.last()));
        assert(s =~= end_trimmed(s) + behind);
        behind
    } else {
        assert(s =~= s + Seq::<char>::empty());
        Seq::empty()
    }
}

/// Trimming takes white space off both ends of a text, and nothing else.
pub proof fn trimming_takes_blanks_off(s: Seq<char>)
    ensures
        exists|before: Seq<char>, behind: Seq<char>|
            stands_between(s, before, trimmed_text(s), behind),
        trimmed_text(s).len() > 0 ==> !is_blank(trimmed_text(s)[0]) && !is_blank(
            trimmed_text(s).last(),
        ),
{
    let before = start_is_cut(s);
    let behind = end_is_cut(start_trimmed(s));
    assert(before + (trimmed_text(s) + behind) =~= before + trimmed_text(s) + behind);
    assert(stands_between(s, before, trimmed_text(s), behind));
}

/// Splitting a text at a character gives what stands before its first place and
/// what stands behind it; nothing comes exactly where the character is not there.
pub proof fn splitting_is_at_the_first(s: Seq<char>, c: char)
    ensures
        match split_once_of(s, c) {
            Some((before, after)) => s == before + seq![c] + after && !before.contains(c),
            None => !s.contains(c),
        },
    decreases s.len(),
{
    if s.len() > 0 {
        if s[0] == c {
            assert(s =~= Seq::<char>::empty() + seq![c] + s.skip(1));
        } else {
            splitting_is_at_the_first(s.skip(1), c);
            match split_once_of(s.skip(1), c) {
                Some((before, after)) => {
                    let all = seq![s[0]] + before;
                    assert(s =~= seq![s[0]] + s.skip(1));
                    assert(s =~= all + seq![c] + after);
                    assert(!all.contains(c)) by {
                        if all.contains(c) {
                            let i: int = choose|i: int| 0 <= i < all.len() && all[i] == c;
                            assert(i > 0);
                            assert(before[i - 1] == c);
                        }
                    }
                },
                None => {
                    if s.contains(c) {
                        let i: int = choose|i: int| 0 <= i < s.len() && s[i] == c;
                        assert(s.skip(1)[i - 1] == c);
                    }
                },
            }
        }
    }
}

/// A digit behind a number makes ten times the number and the digit of it, as far
/// as the limit goes; anything else behind it makes no number. A single digit is
/// its own number, and nothing is none.
pub proof fn digits_add_up(s: Seq<char>, c: char, max: nat)
    ensures
        parsed_unsigned(Seq::empty(), max) is None,
        48 <= c as int <= 57 && c as int - 48 <= max ==> parsed_unsigned(seq![c], max) == Some(
            (c as int - 48) as nat,
        ),
        !(48 <= c as int <= 57) ==> parsed_unsigned(seq![c], max) is None,
        parsed_unsigned(s, max) matches Some(n) ==> (48 <= c as int <= 57 && 10 * n + (c as int - 48)
            <= max ==> parsed_unsigned(s.push(c), max) == Some((10 * n + (c as int - 48)) as nat)),
        parsed_unsigned(s, max) matches Some(n) ==> (48 <= c as int <= 57 && 10 * n + (c as int - 48)
            > max ==> parsed_unsigned(s.push(c), max) is None),
        parsed_unsigned(s, max) is Some && !(48 <= c as int <= 57) ==> parsed_unsigned(s.push(c), max)
            is None,
        s.len() > 0 && s[0] != '+' ==> parsed_unsigned(seq!['+'] + s, max) == parsed_unsigned(s, max),
{
    let one = seq![c];
    if c != '+' {
        assert(unsigned_digits(one) == one);
        assert(one.drop_last() =~= Seq::<char>::empty());
        assert(digits_value(one.drop_last()) == 0);
        assert(one[0] == c);
    } else {
        assert(unsigned_digits(one).len() == 0);
    }
    if parsed_unsigned(s, max) is Some {
        let digits = unsigned_digits(s);
        let more = unsigned_digits(s.push(c));
        assert(more =~= digits.push(c));
        assert(more.drop_last() =~= digits);
        assert(more.last() == c);
        assert forall|i: int| 0 <= i < digits.len() implies is_digit(#[trigger] more[i]) by {
            assert(more[i] == digits[i]);
        }
    }
    if s.len() > 0 && s[0] != '+' {
        assert((seq!['+'] + s).drop_first() =~= s);
        assert(unsigned_digits(s) == s);
    }
}

/// A text is refused as empty where it is, and as no number where a character of it,
/// but for a plus sign in front, is no digit, or where it is the sign alone.
pub proof fn faults_are_told(s: Seq<char>, max: nat)
    ensures
        fault_of(s, max, ParseFault::Empty) <==> s.len() == 0,
        fault_of(s, max, ParseFault::InvalidDigit) ==> s.len() > 0 && (s == seq!['+'] || exists|i: int|
            0 <= i < s.len() && !(48 <= #[trigger] s[i] as int <= 57) && (i > 0 || s[0] != '+')),
        fault_of(s, max, ParseFault::TooLarge) ==> s.len() > 0,
{
    let digits = unsigned_digits(s);
    if fault_of(s, max, ParseFault::InvalidDigit) {
        if digits.len() == 0 {
            assert(s =~= seq!['+']);
        } else {
            let i: int = choose|i: int|
                {
                    &&& 0 <= i < digits.len()
                    &&& !is_digit(#[trigger] digits[i])
                    &&& forall|j: int| 0 <= j < i ==> is_digit(#[trigger] digits[j])
                    &&& digits_value(digits.subrange(0, i)) <= max
                };
            if s[0] == '+' {
                assert(s[i + 1] == digits[i]);
            } else {
                assert(s[i] == digits[i]);
            }
        }
    }
}

/// What is taken off a text stood at its start or end, and the rest is what is left.
pub proof fn ends_are_taken_off(text: Seq<char>, end: Seq<char>, rest: Seq<char>)
    ensures
        without_prefix(text, end) == Some(rest) <==> text == end + rest,
        without_suffix(text, end) == Some(rest) <==> text == rest + end,
{
    if text == end + rest {
        assert(text.take(end.len() as int) =~= end);
        assert(text.skip(end.len() as int) =~= rest);
    }
    if text == rest + end {
        assert(text.skip(text.len() - end.len()) =~= end);
        assert(text.take(text.len() - end.len()) =~= rest);
    }
    if without_prefix(text, end) == Some(rest) {
        assert(text =~= end + rest);
    }
    if without_suffix(text, end) == Some(rest) {
        assert(text =~= rest + end);
    }
}

} // verus!
