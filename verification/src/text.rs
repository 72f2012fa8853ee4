//! Text: the string operations that the rest of the library builds on.
use vstd::prelude::*;
use vstd::string::StringExecFns;

verus! {

/// `String::push` appends one character.
pub assume_specification[ String::push ](s: &mut String, c: char)
    ensures
        final(s)@ == old(s)@.push(c),
;

/// The characters of `s`.
pub fn str_chars(s: &str) -> (out: Vec<char>)
    ensures
        out@ == s@,
{
    let mut out: Vec<char> = Vec::new();
    for c in it: s.chars()
        invariant
            out@ =~= it.seq().subrange(0, it.index() as int),
            it.seq() == s@,
    {
        out.push(c);
    }
    out
}

/// The string made of `chars[from..to]`.
pub fn slice_string(chars: &[char], from: usize, to: usize) -> (out: String)
    requires
        from <= to <= chars.len(),
    ensures
        out@ == chars@.subrange(from as int, to as int),
{
    let mut out = String::new();
    let mut i: usize = from;
    while i < to
        invariant
            from <= i <= to <= chars.len(),
            out@ =~= chars@.subrange(from as int, i as int),
        decreases to - i,
    {
        out.push(chars[i]);
        i = i + 1;
    }
    out
}

/// Whether two strings hold the same characters.
pub fn str_eq(a: &str, b: &str) -> (same: bool)
    ensures
        same == (a@ == b@),
{
    let x = a.to_owned();
    let y = b.to_owned();
    x == y
}

/// Whether `names` holds `name`.
pub fn holds_str(names: &Vec<String>, name: &str) -> (held: bool)
    ensures
        held == strings(names@).contains(name@),
{
    let mut i: usize = 0;
    while i < names.len()
        invariant
            i <= names.len(),
            forall|x: int| 0 <= x < i ==> (#[trigger] strings(names@)[x]) != name@,
        decreases names.len() - i,
    {
        if str_eq(names[i].as_str(), name) {
            assert(strings(names@)[i as int] == name@);
            return true;
        }
        i = i + 1;
    }
    false
}

/// The characters of each string of a list.
pub open spec fn strings(list: Seq<String>) -> Seq<Seq<char>> {
    list.map_values(|s: String| s@)
}

/// The decimal digit with value `d`.
pub open spec fn digit_char(d: int) -> char {
    (('0' as int) + d) as char
}

/// Decimal notation of a natural number.
pub open spec fn decimal_nat(n: nat) -> Seq<char>
    decreases n,
{
    if n < 10 {
        seq![digit_char(n as int)]
    } else {
        decimal_nat(n / 10).push(digit_char((n % 10) as int))
    }
}

/// Decimal notation of an integer.
pub open spec fn decimal(i: int) -> Seq<char> {
    if i < 0 {
        seq!['-'] + decimal_nat((-i) as nat)
    } else {
        decimal_nat(i as nat)
    }
}

/// Decimal notation of `n`.
pub fn u64_text(n: u64) -> (out: String)
    ensures
        out@ == decimal(n as int),
{
    let mut out = String::new();
    push_digits(&mut out, n);
    assert(out@ =~= decimal(n as int));
    out
}

/// Decimal notation of `i`.
pub fn i64_text(i: i64) -> (out: String)
    ensures
        out@ == decimal(i as int),
{
    let mut out = String::new();
    if i < 0 {
        out.push('-');
        let magnitude: u64 = (-(i as i128)) as u64;
        push_digits(&mut out, magnitude);
        assert(out@ =~= decimal(i as int));
    } else {
        push_digits(&mut out, i as u64);
        assert(out@ =~= decimal(i as int));
    }
    out
}

/// Appends the decimal digits of `n`.
fn push_digits(out: &mut String, n: u64)
    ensures
        final(out)@ == old(out)@ + decimal_nat(n as nat),
    decreases n,
{
    if n >= 10 {
        push_digits(out, n / 10);
    }
    let d: u8 = (n % 10) as u8;
    out.push(digit(d));
    proof {
        if n >= 10 {
            assert(old(out)@ + decimal_nat(n as nat) =~= (old(out)@ + decimal_nat((n / 10) as nat)).push(
                digit_char(d as int),
            ));
        } else {
            assert(old(out)@ + decimal_nat(n as nat) =~= old(out)@.push(digit_char(d as int)));
        }
    }
}

/// The decimal digit with value `d`.
fn digit(d: u8) -> (c: char)
    requires
        d < 10,
    ensures
        c == digit_char(d as int),
{
    (48u8 + d) as char
}

/// `parts` joined with `sep` between neighbours.
pub open spec fn joined(parts: Seq<Seq<char>>, sep: Seq<char>) -> Seq<char>
    decreases parts.len(),
{
    if parts.len() == 0 {
        Seq::empty()
    } else if parts.len() == 1 {
        parts[0]
    } else {
        joined(parts.drop_last(), sep) + sep + parts.last()
    }
}

/// `parts` joined with `sep` between neighbours.
pub fn join(parts: &Vec<String>, sep: &str) -> (out: String)
    ensures
        out@ == joined(strings(parts@), sep@),
{
    let mut out = String::new();
    let mut i: usize = 0;
    assert(strings(parts@).subrange(0, 0) =~= Seq::<Seq<char>>::empty());
    while i < parts.len()
        invariant
            i <= parts.len(),
            out@ == joined(strings(parts@).subrange(0, i as int), sep@),
        decreases parts.len() - i,
    {
        let ghost done = strings(parts@).subrange(0, i as int);
        let ghost more = strings(parts@).subrange(0, i + 1);
        if i > 0 {
            out.append(sep);
        }
        out.append(parts[i].as_str());
        i = i + 1;
        proof {
            assert(more.drop_last() =~= done);
            assert(more.last() == parts@[i - 1]@);
            if i == 1 {
                assert(out@ =~= parts@[0]@);
            }
        }
    }
    assert(strings(parts@).subrange(0, parts.len() as int) =~= strings(parts@));
    out
}

/// `s` with every `c` written as `with`.
pub open spec fn replaced(s: Seq<char>, c: char, with: Seq<char>) -> Seq<char>
    decreases s.len(),
{
    if s.len() == 0 {
        Seq::empty()
    } else {
        replaced(s.drop_last(), c, with) + if s.last() == c {
            with
        } else {
            seq![s.last()]
        }
    }
}

/// `s` with every `c` written as `with`.
pub fn replace_char(s: &str, c: char, with: &str) -> (out: String)
    ensures
        out@ == replaced(s@, c, with@),
{
    let chars = str_chars(s);
    let mut out = String::new();
    let mut i: usize = 0;
    while i < chars.len()
        invariant
            i <= chars.len(),
            chars@ == s@,
            out@ == replaced(s@.subrange(0, i as int), c, with@),
        decreases chars.len() - i,
    {
        let ghost more = s@.subrange(0, i + 1);
        assert(more.drop_last() =~= s@.subrange(0, i as int));
        assert(more.last() == chars@[i as int]);
        let ghost before = out@;
        if chars[i] == c {
            out.append(with);
        } else {
            out.push(chars[i]);
            assert(out@ =~= before + seq![more.last()]);
        }
        i = i + 1;
    }
    assert(s@.subrange(0, s@.len() as int) =~= s@);
    out
}

/// The lower-case hexadecimal digit with value `d`.
pub open spec fn hex_char(d: int) -> char {
    if d < 10 {
        (('0' as int) + d) as char
    } else {
        (('a' as int) + d - 10) as char
    }
}

/// The last `width` hexadecimal digits of `n`.
pub open spec fn hex_digits(n: nat, width: nat) -> Seq<char>
    decreases width,
{
    if width == 0 {
        Seq::empty()
    } else {
        hex_digits(n / 16, (width - 1) as nat).push(hex_char((n % 16) as int))
    }
}

/// Appends the last `width` hexadecimal digits of `n`.
fn push_hex(out: &mut String, n: u64, width: u32)
    ensures
        final(out)@ == old(out)@ + hex_digits(n as nat, width as nat),
    decreases width,
{
    if width > 0 {
        push_hex(out, n / 16, width - 1);
        let d: u8 = (n % 16) as u8;
        let c: char = if d < 10 {
            (48u8 + d) as char
        } else {
            (97u8 + (d - 10)) as char
        };
        out.push(c);
        assert(out@ =~= old(out)@ + hex_digits(n as nat, width as nat));
    } else {
        assert(out@ =~= old(out)@ + hex_digits(n as nat, 0));
    }
}

/// `n` as 16 hexadecimal digits.
pub fn hex16_text(n: u64) -> (out: String)
    ensures
        out@ == hex_digits(n as nat, 16),
{
    let mut out = String::new();
    push_hex(&mut out, n, 16);
    assert(out@ =~= hex_digits(n as nat, 16));
    out
}

/// `c` is a decimal digit.
pub open spec fn is_digit(c: char) -> bool {
    '0' <= c <= '9'
}

/// The number that decimal digits spell.
pub open spec fn digits_value(digits: Seq<char>) -> nat
    decreases digits.len(),
{
    if digits.len() == 0 {
        0
    } else {
        10 * digits_value(digits.drop_last()) + (digits.last() as nat - '0' as nat) as nat
    }
}

/// `s` without a leading plus sign.
pub open spec fn unsigned_digits(s: Seq<char>) -> Seq<char> {
    if s.len() > 0 && s[0] == '+' {
        s.drop_first()
    } else {
        s
    }
}

/// The number that `s` spells: an optional plus sign and decimal digits, at
/// most `max`.
pub open spec fn parsed_unsigned(s: Seq<char>, max: nat) -> Option<nat> {
    let digits = unsigned_digits(s);
    if digits.len() > 0 && (forall|i: int|
        0 <= i < digits.len() ==> is_digit(#[trigger] digits[i])) && digits_value(digits) <= max {
        Some(digits_value(digits))
    } else {
        None
    }
}

/// Why a text is not a number.
pub enum ParseFault {
    Empty,
    InvalidDigit,
    TooLarge,
}

impl ParseFault {
    /// What is said of the fault.
    pub fn as_str(&self) -> (text: &'static str)
        ensures
            text@ == self.said(),
    {
        match self {
            ParseFault::Empty => "cannot parse integer from empty string",
            ParseFault::InvalidDigit => "invalid digit found in string",
            ParseFault::TooLarge => "number too large to fit in target type",
        }
    }

    /// What is said of the fault.
    pub open spec fn said(&self) -> Seq<char> {
        match *self {
            ParseFault::Empty => "cannot parse integer from empty string"@,
            ParseFault::InvalidDigit => "invalid digit found in string"@,
            ParseFault::TooLarge => "number too large to fit in target type"@,
        }
    }
}

/// The fault of a text that is no number: it is empty; or, read from the left,
/// something that is no digit comes first, or the number exceeds `max` first.
pub open spec fn fault_of(s: Seq<char>, max: nat, fault: ParseFault) -> bool {
    let digits = unsigned_digits(s);
    match fault {
        ParseFault::Empty => s.len() == 0,
        ParseFault::InvalidDigit => s.len() > 0 && (digits.len() == 0 || exists|i: int|
            {
                &&& 0 <= i < digits.len()
                &&& !is_digit(#[trigger] digits[i])
                &&& forall|j: int| 0 <= j < i ==> is_digit(#[trigger] digits[j])
                &&& digits_value(digits.subrange(0, i)) <= max
            }),
        ParseFault::TooLarge => exists|i: int|
            {
                &&& 0 < i <= digits.len()
                &&& #[trigger] digits_value(digits.subrange(0, i)) > max
                &&& forall|j: int| 0 <= j < i ==> is_digit(#[trigger] digits[j])
            },
    }
}

proof fn digits_value_grows(digits: Seq<char>, i: int)
    requires
        0 <= i <= digits.len(),
        forall|j: int| 0 <= j < digits.len() ==> is_digit(#[trigger] digits[j]),
    ensures
        digits_value(digits.subrange(0, i)) <= digits_value(digits),
    decreases digits.len() - i,
{
    if i == digits.len() {
        assert(digits.subrange(0, i) =~= digits);
    } else {
        digits_value_grows(digits, i + 1);
        assert(digits.subrange(0, i + 1).drop_last() =~= digits.subrange(0, i));
    }
}

/// Parses an unsigned decimal number of at most `max`, with an optional plus
/// sign.
pub fn parse_unsigned(s: &str, max: u64) -> (n: Result<u64, ParseFault>)
    ensures
        match n {
            Ok(v) => parsed_unsigned(s@, max as nat) == Some(v as nat),
            Err(fault) => parsed_unsigned(s@, max as nat) is None && fault_of(
                s@,
                max as nat,
                fault,
            ),
        },
{
    let chars = str_chars(s);
    if chars.len() == 0 {
        return Err(ParseFault::Empty);
    }
    let from: usize = if chars[0] == '+' {
        1
    } else {
        0
    };
    let ghost digits = unsigned_digits(s@);
    assert(digits =~= s@.subrange(from as int, s@.len() as int));
    if from == chars.len() {
        return Err(ParseFault::InvalidDigit);
    }
    let mut value: u64 = 0;
    let mut i: usize = from;
    assert(digits.subrange(0, 0) =~= Seq::<char>::empty());
    while i < chars.len()
        invariant
            from <= i <= chars.len(),
            chars@ == s@,
            from < chars.len(),
            digits == unsigned_digits(s@),
            digits =~= s@.subrange(from as int, s@.len() as int),
            forall|j: int| 0 <= j < i - from ==> is_digit(#[trigger] digits[j]),
            value == digits_value(digits.subrange(0, i - from)),
            value <= max,
        decreases chars.len() - i,
    {
        let c = chars[i];
        let ghost k: int = i - from;
        assert(digits[k] == c);
        if !('0' <= c && c <= '9') {
            assert(!is_digit(digits[k]));
            return Err(ParseFault::InvalidDigit);
        }
        let d: u64 = digit_value(c);
        let next: u128 = value as u128 * 10 + d as u128;
        proof {
            assert(digits.subrange(0, k + 1).drop_last() =~= digits.subrange(0, k));
            assert(digits_value(digits.subrange(0, k + 1)) == next);
        }
        if next > max as u128 {
            proof {
                if forall|j: int| 0 <= j < digits.len() ==> is_digit(#[trigger] digits[j]) {
                    digits_value_grows(digits, k + 1);
                }
            }
            return Err(ParseFault::TooLarge);
        }
        value = next as u64;
        i = i + 1;
    }
    assert(digits.subrange(0, digits.len() as int) =~= digits);
    Ok(value)
}

/// The value of a decimal digit.
fn digit_value(c: char) -> (d: u64)
    requires
        is_digit(c),
    ensures
        d == c as nat - '0' as nat,
        d < 10,
{
    c as u64 - 48
}

/// A copy of an optional text.
pub fn copied_text(text: &Option<String>) -> (copy: Option<String>)
    ensures
        copy == *text,
{
    match text {
        Some(s) => Some(s.clone()),
        None => None,
    }
}

/// The digits of a number spell that number.
pub proof fn digits_spell_number(n: nat)
    ensures
        digits_value(decimal_nat(n)) == n,
        decimal_nat(n).len() > 0,
        forall|i: int| 0 <= i < decimal_nat(n).len() ==> is_digit(#[trigger] decimal_nat(n)[i]),
    decreases n,
{
    let digits = decimal_nat(n);
    if n < 10 {
        assert(digits.drop_last() =~= seq![]);
        assert(digits_value(seq![]) == 0);
    } else {
        digits_spell_number(n / 10);
        assert(digits.drop_last() =~= decimal_nat(n / 10));
    }
}

/// Different numbers have different notations.
pub proof fn decimal_is_injective(a: int, b: int)
    requires
        decimal(a) == decimal(b),
    ensures
        a == b,
{
    let x = if a < 0 {
        (-a) as nat
    } else {
        a as nat
    };
    let y = if b < 0 {
        (-b) as nat
    } else {
        b as nat
    };
    digits_spell_number(x);
    digits_spell_number(y);
    assert(!is_digit('-'));
    assert((a < 0) == (decimal(a)[0] == '-')) by {
        if a >= 0 {
            assert(is_digit(decimal_nat(x)[0]));
        }
    }
    assert((b < 0) == (decimal(b)[0] == '-')) by {
        if b >= 0 {
            assert(is_digit(decimal_nat(y)[0]));
        }
    }
    if a < 0 {
        assert(decimal(a).skip(1) =~= decimal_nat(x));
        assert(decimal(b).skip(1) =~= decimal_nat(y));
    }
}

/// Reading the notation of a number gives the number back.
pub proof fn number_reads_back(n: nat, max: nat)
    requires
        n <= max,
    ensures
        parsed_unsigned(decimal(n as int), max) == Some(n),
{
    digits_spell_number(n);
    assert(is_digit(decimal_nat(n)[0]));
    assert(!is_digit('+'));
}

/// White space, as Unicode has it.
pub open spec fn is_space(c: char) -> bool {
    let code = c as u32;
    9 <= code <= 13 || code == 32 || code == 0x85 || code == 0xa0 || code == 0x1680 || 0x2000
        <= code <= 0x200a || code == 0x2028 || code == 0x2029 || code == 0x202f || code == 0x205f
        || code == 0x3000
}

/// The text without the white space at its start.
pub open spec fn start_trimmed(s: Seq<char>) -> Seq<char>
    decreases s.len(),
{
    if s.len() > 0 && is_space(s[0]) {
        start_trimmed(s.skip(1))
    } else {
        s
    }
}

/// The text without the white space at its end.
pub open spec fn end_trimmed(s: Seq<char>) -> Seq<char>
    decreases s.len(),
{
    if s.len() > 0 && is_space(s.last()) {
        end_trimmed(s.drop_last())
    } else {
        s
    }
}

/// The text without the white space around it.
pub open spec fn trimmed_text(s: Seq<char>) -> Seq<char> {
    end_trimmed(start_trimmed(s))
}

fn space(c: char) -> (b: bool)
    ensures
        b == is_space(c),
{
    let code: u32 = c as u32;
    (9 <= code && code <= 13) || code == 32 || code == 0x85 || code == 0xa0 || code == 0x1680 || (
    0x2000 <= code && code <= 0x200a) || code == 0x2028 || code == 0x2029 || code == 0x202f || code
        == 0x205f || code == 0x3000
}

/// The text without the white space around it.
pub fn trim_text(s: &str) -> (out: String)
    ensures
        out@ == trimmed_text(s@),
{
    let chars = str_chars(s);
    let mut from: usize = 0;
    while from < chars.len() && space(chars[from])
        invariant
            from <= chars.len(),
            chars@ == s@,
            start_trimmed(chars@.skip(from as int)) == start_trimmed(s@.skip(0)),
        decreases chars.len() - from,
    {
        assert(chars@.skip(from as int).skip(1) =~= chars@.skip(from + 1));
        from = from + 1;
    }
    assert(s@.skip(0) =~= s@);
    let ghost rest = start_trimmed(s@);
    assert(rest == chars@.skip(from as int));
    let mut to: usize = chars.len();
    assert(chars@.subrange(from as int, to as int) =~= rest);
    while to > from && space(chars[to - 1])
        invariant
            from <= to <= chars.len(),
            end_trimmed(chars@.subrange(from as int, to as int)) == end_trimmed(rest),
        decreases to,
    {
        assert(chars@.subrange(from as int, to as int).drop_last() =~= chars@.subrange(
            from as int,
            to - 1,
        ));
        to = to - 1;
    }
    slice_string(chars.as_slice(), from, to)
}

/// `part` stands in `s` from place `at`.
pub open spec fn stands_at(s: Seq<char>, part: Seq<char>, at: int) -> bool {
    0 <= at && at + part.len() <= s.len() && s.subrange(at, at + part.len()) == part
}

/// `part` stands somewhere in `s`.
pub open spec fn contains_text(s: Seq<char>, part: Seq<char>) -> bool {
    exists|at: int| stands_at(s, part, at)
}

/// Whether `part` stands somewhere in `s`.
pub fn holds_text(s: &str, part: &str) -> (held: bool)
    ensures
        held == contains_text(s@, part@),
{
    let chars = str_chars(s);
    let wanted = str_chars(part);
    if wanted.len() > chars.len() {
        return false;
    }
    let mut at: usize = 0;
    while at <= chars.len() - wanted.len()
        invariant
            chars@ == s@,
            wanted@ == part@,
            wanted.len() <= chars.len(),
            at <= chars.len() - wanted.len() + 1,
            forall|x: int| 0 <= x < at ==> !stands_at(s@, part@, x),
        decreases chars.len() - at + 1,
    {
        let mut n: usize = 0;
        while n < wanted.len() && chars[at + n] == wanted[n]
            invariant
                n <= wanted.len(),
                at + wanted.len() <= chars.len(),
                forall|x: int| 0 <= x < n ==> chars@[at + x] == wanted@[x],
            decreases wanted.len() - n,
        {
            n = n + 1;
        }
        if n == wanted.len() {
            assert(s@.subrange(at as int, at + part@.len()) =~= part@);
            assert(stands_at(s@, part@, at as int));
            return true;
        }
        assert(s@.subrange(at as int, at + part@.len())[n as int] != part@[n as int]);
        if at == chars.len() - wanted.len() {
            return false;
        }
        at = at + 1;
    }
    false
}

/// The parts of `s` around its first `c`.
pub open spec fn split_once_of(s: Seq<char>, c: char) -> Option<(Seq<char>, Seq<char>)>
    decreases s.len(),
{
    if s.len() == 0 {
        None
    } else if s[0] == c {
        Some((seq![], s.skip(1)))
    } else {
        match split_once_of(s.skip(1), c) {
            Some((before, after)) => Some((seq![s[0]] + before, after)),
            None => None,
        }
    }
}

proof fn split_at_first(s: Seq<char>, c: char, at: int)
    requires
        0 <= at <= s.len(),
        at < s.len() ==> s[at] == c,
        forall|i: int| 0 <= i < at ==> s[i] != c,
    ensures
        split_once_of(s, c) == if at < s.len() {
            Some((s.take(at), s.skip(at + 1)))
        } else {
            None
        },
    decreases s.len(),
{
    if at > 0 {
        split_at_first(s.skip(1), c, at - 1);
        if at < s.len() {
            assert(seq![s[0]] + s.skip(1).take(at - 1) =~= s.take(at));
            assert(s.skip(1).skip(at) =~= s.skip(at + 1));
        }
    } else if s.len() > 0 {
        assert(s.take(0) =~= seq![]);
    }
}

/// The parts of `s` around its first `c`.
pub fn split_once(s: &str, c: char) -> (parts: Option<(String, String)>)
    ensures
        match parts {
            Some((before, after)) => split_once_of(s@, c) == Some((before@, after@)),
            None => split_once_of(s@, c) is None,
        },
{
    let chars = str_chars(s);
    let mut at: usize = 0;
    while at < chars.len() && chars[at] != c
        invariant
            at <= chars.len(),
            forall|i: int| 0 <= i < at ==> chars@[i] != c,
        decreases chars.len() - at,
    {
        at = at + 1;
    }
    proof {
        split_at_first(s@, c, at as int);
    }
    if at < chars.len() {
        assert(chars@.subrange(0, at as int) =~= s@.take(at as int));
        assert(chars@.subrange(at + 1, chars.len() as int) =~= s@.skip(at + 1));
        let before = slice_string(chars.as_slice(), 0, at);
        let after = slice_string(chars.as_slice(), at + 1, chars.len());
        Some((before, after))
    } else {
        None
    }
}

} // verus!
