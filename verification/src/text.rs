//! Decimal numbers and whitespace in kernel text.

use vstd::prelude::*;
use vstd::arithmetic::power::*;
use vstd::string::*;
use vstd::utf8::*;

verus! {

/// `String::push` of std: the character is appended at the end.
pub assume_specification[ String::push ](s: &mut String, c: char)
    ensures
        final(s)@ == old(s)@.push(c),
;

/// The decimal digit of value `k`.
pub open spec fn digit_char(k: int) -> char {
    (0x30 + k) as char
}

/// `n` in decimal, most significant digit first, without leading zeros.
pub open spec fn digits(n: nat) -> Seq<char>
    decreases n,
{
    if n < 10 {
        seq![digit_char(n as int)]
    } else {
        digits(n / 10).push(digit_char((n % 10) as int))
    }
}

/// `n` in decimal, with a minus sign in front where it is negative.
pub open spec fn decimal(n: int) -> Seq<char> {
    if n < 0 {
        seq!['-'] + digits((-n) as nat)
    } else {
        digits(n as nat)
    }
}

pub open spec fn is_digit(b: u8) -> bool {
    0x30 <= b <= 0x39
}

/// Whether `s` holds digits only, and at least one.
pub open spec fn is_number(s: Seq<u8>) -> bool {
    s.len() > 0 && forall|i: int| 0 <= i < s.len() ==> is_digit(#[trigger] s[i])
}

/// The number that a sequence of digits spells.
pub open spec fn number(s: Seq<u8>) -> nat
    decreases s.len(),
{
    if s.len() == 0 {
        0
    } else {
        number(s.drop_last()) * 10 + (s.last() - 0x30) as nat
    }
}

/// `s` without the sign in front of it, where there is one.
pub open spec fn unsigned_part(s: Seq<u8>) -> Seq<u8> {
    if s.len() > 0 && (s[0] == 0x2b || s[0] == 0x2d) {
        s.skip(1)
    } else {
        s
    }
}

/// The unsigned number that `s` spells: digits, with at most a plus sign in
/// front, whose value fits in 32 bits.
pub open spec fn u32_of(s: Seq<u8>) -> Option<u32> {
    let body = unsigned_part(s);
    if s.len() > 0 && s[0] == 0x2d {
        None
    } else if is_number(body) && number(body) <= u32::MAX {
        Some(number(body) as u32)
    } else {
        None
    }
}

/// The value of the digits of `s`, negated where a minus sign is in front.
pub open spec fn signed_value(s: Seq<u8>) -> int {
    if s.len() > 0 && s[0] == 0x2d {
        -(number(unsigned_part(s)) as int)
    } else {
        number(unsigned_part(s)) as int
    }
}

/// The signed number that `s` spells: digits, with at most one sign in front,
/// whose value fits in 32 bits.
pub open spec fn i32_of(s: Seq<u8>) -> Option<i32> {
    if is_number(unsigned_part(s)) && i32::MIN <= signed_value(s) <= i32::MAX {
        Some(signed_value(s) as i32)
    } else {
        None
    }
}

/// A longer run of digits never spells a smaller number.
proof fn lemma_number_grows(s: Seq<u8>, k: int)
    requires
        0 <= k <= s.len(),
    ensures
        number(s.take(k)) <= number(s),
    decreases s.len() - k,
{
    if k == s.len() {
        assert(s.take(k) =~= s);
    } else {
        lemma_number_grows(s, k + 1);
        assert(s.take(k + 1).drop_last() =~= s.take(k));
    }
}

/// Reads the digits of `s` from `from` on.
///
/// `None` where there is none, where another byte stands among them, or where
/// the value exceeds `max`.
fn parse_number(s: &[u8], from: usize, max: u64) -> (r: Option<u64>)
    requires
        from <= s@.len(),
        max <= u32::MAX,
    ensures
        r == (if is_number(s@.skip(from as int)) && number(s@.skip(from as int)) <= max {
            Some(number(s@.skip(from as int)) as u64)
        } else {
            None
        }),
{
    let ghost body = s@.skip(from as int);
    if from == s.len() {
        return None;
    }
    let mut value: u64 = 0;
    let mut i: usize = from;
    while i < s.len()
        invariant
            from <= i <= s@.len(),
            max <= u32::MAX,
            body == s@.skip(from as int),
            value <= max,
            value == number(body.take(i - from)),
            forall|j: int| 0 <= j < i - from ==> is_digit(#[trigger] body[j]),
        decreases s@.len() - i,
    {
        let b: u8 = s[i];
        assert(body[i - from] == b);
        if b < 0x30 || b > 0x39 {
            return None;
        }
        value = value * 10 + (b - 0x30) as u64;
        assert(body.take(i + 1 - from).drop_last() =~= body.take(i - from));
        if value > max {
            proof {
                lemma_number_grows(body, i + 1 - from);
            }
            return None;
        }
        i = i + 1;
    }
    assert(body.take(i - from) =~= body);
    Some(value)
}

/// Parses an unsigned 32-bit number.
pub fn parse_u32(s: &[u8]) -> (r: Option<u32>)
    ensures
        r == u32_of(s@),
{
    assert(s@.skip(0) =~= s@);
    if s.len() > 0 && s[0] == 0x2d {
        return None;
    }
    let from: usize = if s.len() > 0 && s[0] == 0x2b { 1 } else { 0 };
    match parse_number(s, from, 0xffff_ffff) {
        Some(v) => Some(v as u32),
        None => None,
    }
}

/// Parses a signed 32-bit number.
pub fn parse_i32(s: &[u8]) -> (r: Option<i32>)
    ensures
        r == i32_of(s@),
{
    assert(s@.skip(0) =~= s@);
    if s.len() > 0 && s[0] == 0x2d {
        match parse_number(s, 1, 0x8000_0000) {
            Some(v) => Some((-(v as i64)) as i32),
            None => None,
        }
    } else {
        let from: usize = if s.len() > 0 && s[0] == 0x2b { 1 } else { 0 };
        match parse_number(s, from, 0x7fff_ffff) {
            Some(v) => Some(v as i32),
            None => None,
        }
    }
}

/// The character of a decimal digit.
fn digit(k: u32) -> (c: char)
    requires
        k < 10,
    ensures
        c == digit_char(k as int),
{
    match k {
        0 => '0',
        1 => '1',
        2 => '2',
        3 => '3',
        4 => '4',
        5 => '5',
        6 => '6',
        7 => '7',
        8 => '8',
        _ => '9',
    }
}

/// Appends the digits of `n`.
fn push_digits(out: &mut String, n: u32)
    ensures
        final(out)@ == old(out)@ + digits(n as nat),
    decreases n,
{
    if n >= 10 {
        push_digits(out, n / 10);
    }
    out.push(digit(n % 10));
}

/// Appends `n` in decimal.
pub fn push_decimal(out: &mut String, n: i32)
    ensures
        final(out)@ == old(out)@ + decimal(n as int),
{
    if n < 0 {
        out.push('-');
        push_digits(out, (-(n as i64)) as u32);
    } else {
        push_digits(out, n as u32);
    }
}

/// Whether `c` has the Unicode property `White_Space`.
pub open spec fn is_space(c: char) -> bool {
    let u = c as u32;
    ||| 0x09 <= u <= 0x0d
    ||| u == 0x20
    ||| u == 0x85
    ||| u == 0xa0
    ||| u == 0x1680
    ||| 0x2000 <= u <= 0x200a
    ||| u == 0x2028
    ||| u == 0x2029
    ||| u == 0x202f
    ||| u == 0x205f
    ||| u == 0x3000
}

/// Tells whether `c` has the Unicode property `White_Space`.
pub fn is_whitespace(c: char) -> (r: bool)
    ensures
        r == is_space(c),
{
    let u: u32 = c as u32;
    (0x09 <= u && u <= 0x0d) || u == 0x20 || u == 0x85 || u == 0xa0 || u == 0x1680 || (0x2000
        <= u && u <= 0x200a) || u == 0x2028 || u == 0x2029 || u == 0x202f || u == 0x205f || u
        == 0x3000
}

/// `s` without the whitespace in front of it.
pub open spec fn trim_start(s: Seq<char>) -> Seq<char>
    decreases s.len(),
{
    if s.len() > 0 && is_space(s[0]) {
        trim_start(s.skip(1))
    } else {
        s
    }
}

/// `s` without the whitespace behind it.
pub open spec fn trim_end(s: Seq<char>) -> Seq<char>
    decreases s.len(),
{
    if s.len() > 0 && is_space(s.last()) {
        trim_end(s.drop_last())
    } else {
        s
    }
}

/// `s` without the whitespace on either side.
pub open spec fn trim(s: Seq<char>) -> Seq<char> {
    trim_end(trim_start(s))
}

/// The characters of `s` up to the first whitespace.
pub open spec fn leading_word(s: Seq<char>) -> Seq<char>
    decreases s.len(),
{
    if s.len() == 0 || is_space(s[0]) {
        Seq::empty()
    } else {
        seq![s[0]] + leading_word(s.skip(1))
    }
}

/// The first word of `s`, where it holds anything but whitespace.
pub open spec fn first_word(s: Seq<char>) -> Option<Seq<char>> {
    let t = trim_start(s);
    if t.len() == 0 {
        None
    } else {
        Some(leading_word(t))
    }
}

/// The index of the first `x` in `s`, or the length of `s` where there is none.
pub open spec fn first_at<T>(s: Seq<T>, x: T) -> int
    decreases s.len(),
{
    if s.len() == 0 || s[0] == x {
        0
    } else {
        1 + first_at(s.skip(1), x)
    }
}

/// `first_at` is a bound below which `x` does not occur, and `x` stands there
/// unless it is the end.
pub proof fn lemma_first_at<T>(s: Seq<T>, x: T)
    ensures
        0 <= first_at(s, x) <= s.len(),
        first_at(s, x) < s.len() ==> s[first_at(s, x)] == x,
        forall|i: int| 0 <= i < first_at(s, x) ==> s[i] != x,
    decreases s.len(),
{
    if s.len() > 0 && s[0] != x {
        lemma_first_at(s.skip(1), x);
        assert forall|i: int| 0 <= i < first_at(s, x) implies s[i] != x by {
            if i > 0 {
                assert(s.skip(1)[i - 1] == s[i]);
            }
        }
    }
}

/// The index at which `x` first stands is `first_at`.
pub proof fn lemma_first_at_is<T>(s: Seq<T>, x: T, k: int)
    requires
        0 <= k <= s.len(),
        k < s.len() ==> s[k] == x,
        forall|i: int| 0 <= i < k ==> s[i] != x,
    ensures
        first_at(s, x) == k,
{
    lemma_first_at(s, x);
    let f = first_at(s, x);
    if f < k {
        assert(s[f] != x);
    }
}

/// `line` without the carriage return that ends it, where one does.
pub open spec fn chop_return(line: Seq<char>) -> Seq<char> {
    if line.len() > 0 && line.last() == '\r' {
        line.drop_last()
    } else {
        line
    }
}

/// The lines of `s`, without their endings. A line ends in a newline, with or
/// without a carriage return before it; what follows the last newline is a
/// line too, unless it is empty.
pub open spec fn lines(s: Seq<char>) -> Seq<Seq<char>>
    decreases s.len(),
{
    let k = first_at(s, '\n');
    if s.len() == 0 {
        Seq::empty()
    } else if k == s.len() {
        seq![s]
    } else {
        proof {
            lemma_first_at(s, '\n');
        }
        seq![chop_return(s.take(k))] + lines(s.skip(k + 1))
    }
}

pub open spec fn starts_with(s: Seq<char>, prefix: Seq<char>) -> bool {
    prefix.len() <= s.len() && s.take(prefix.len() as int) == prefix
}

/// The unsigned number that the characters of `s` spell.
pub open spec fn u32_text(s: Seq<char>) -> Option<u32> {
    if is_ascii_chars(s) {
        u32_of(Seq::new(s.len(), |i: int| s[i] as u8))
    } else {
        None
    }
}

/// Parses an unsigned 32-bit number out of text.
pub fn parse_u32_text(s: &str) -> (r: Option<u32>)
    ensures
        r == u32_text(s@),
{
    if s.is_ascii() {
        proof {
            is_ascii_spec_bytes(s);
        }
        parse_u32(s.as_bytes())
    } else {
        None
    }
}

/// The characters of `s`, one by one.
pub fn chars_of(s: &str) -> (r: Vec<char>)
    ensures
        r@ == s@,
{
    let mut out: Vec<char> = Vec::new();
    for c in it: s.chars()
        invariant
            out@ == it.seq().take(it.index() as int),
            it.seq() == s@,
    {
        out.push(c);
    }
    out
}

/// The first index in `[from, to)` at which `c` stands, or `to`.
pub fn find_char(s: &[char], from: usize, to: usize, c: char) -> (r: usize)
    requires
        from <= to <= s@.len(),
    ensures
        from <= r <= to,
        r - from == first_at(s@.subrange(from as int, to as int), c),
{
    let ghost part = s@.subrange(from as int, to as int);
    let mut i: usize = from;
    while i < to
        invariant
            from <= i <= to <= s@.len(),
            part == s@.subrange(from as int, to as int),
            forall|j: int| 0 <= j < i - from ==> part[j] != c,
        decreases to - i,
    {
        assert(part[i - from] == s@[i as int]);
        if s[i] == c {
            proof {
                lemma_first_at_is(part, c, i - from);
            }
            return i;
        }
        i = i + 1;
    }
    proof {
        lemma_first_at_is(part, c, to - from);
    }
    to
}

/// The index at which `[from, to)` starts once the whitespace in front is gone.
pub fn skip_space(s: &[char], from: usize, to: usize) -> (r: usize)
    requires
        from <= to <= s@.len(),
    ensures
        from <= r <= to,
        s@.subrange(r as int, to as int) == trim_start(s@.subrange(from as int, to as int)),
{
    let mut i: usize = from;
    while i < to && is_whitespace(s[i])
        invariant
            from <= i <= to <= s@.len(),
            trim_start(s@.subrange(i as int, to as int)) == trim_start(
                s@.subrange(from as int, to as int),
            ),
        decreases to - i,
    {
        assert(s@.subrange(i as int, to as int).skip(1) =~= s@.subrange(i + 1, to as int));
        i = i + 1;
    }
    i
}

/// The index at which `[from, to)` ends once the whitespace behind is gone.
pub fn drop_space(s: &[char], from: usize, to: usize) -> (r: usize)
    requires
        from <= to <= s@.len(),
    ensures
        from <= r <= to,
        s@.subrange(from as int, r as int) == trim_end(s@.subrange(from as int, to as int)),
{
    let mut i: usize = to;
    while i > from && is_whitespace(s[i - 1])
        invariant
            from <= i <= to <= s@.len(),
            trim_end(s@.subrange(from as int, i as int)) == trim_end(
                s@.subrange(from as int, to as int),
            ),
        decreases i,
    {
        assert(s@.subrange(from as int, i as int).drop_last() =~= s@.subrange(from as int, i - 1));
        i = i - 1;
    }
    i
}

/// The index at which the word that `[from, to)` starts with ends.
pub fn word_end(s: &[char], from: usize, to: usize) -> (r: usize)
    requires
        from <= to <= s@.len(),
    ensures
        from <= r <= to,
        s@.subrange(from as int, r as int) == leading_word(s@.subrange(from as int, to as int)),
{
    let mut i: usize = from;
    assert(s@.subrange(from as int, from as int) =~= Seq::<char>::empty());
    assert(Seq::<char>::empty() + leading_word(s@.subrange(from as int, to as int))
        =~= leading_word(s@.subrange(from as int, to as int)));
    while i < to && !is_whitespace(s[i])
        invariant
            from <= i <= to <= s@.len(),
            s@.subrange(from as int, i as int) + leading_word(s@.subrange(i as int, to as int))
                == leading_word(s@.subrange(from as int, to as int)),
        decreases to - i,
    {
        let ghost rest = s@.subrange(i as int, to as int);
        assert(rest.skip(1) =~= s@.subrange(i + 1, to as int));
        assert(s@.subrange(from as int, i as int) + (seq![rest[0]] + leading_word(rest.skip(1)))
            =~= s@.subrange(from as int, i + 1) + leading_word(rest.skip(1)));
        i = i + 1;
    }
    assert(leading_word(s@.subrange(i as int, to as int)) =~= Seq::<char>::empty());
    assert(s@.subrange(from as int, i as int) + Seq::<char>::empty() =~= s@.subrange(
        from as int,
        i as int,
    ));
    i
}

/// Whether `[from, to)` starts with `prefix`.
pub fn has_prefix(s: &[char], from: usize, to: usize, prefix: &str) -> (r: bool)
    requires
        from <= to <= s@.len(),
    ensures
        r == starts_with(s@.subrange(from as int, to as int), prefix@),
{
    let p = chars_of(prefix);
    let ghost part = s@.subrange(from as int, to as int);
    if to - from < p.len() {
        return false;
    }
    let mut i: usize = 0;
    while i < p.len()
        invariant
            from <= to <= s@.len(),
            p@ == prefix@,
            p@.len() <= to - from,
            part == s@.subrange(from as int, to as int),
            i <= p@.len(),
            forall|j: int| 0 <= j < i ==> part[j] == p@[j],
        decreases p@.len() - i,
    {
        assert(part[i as int] == s@[from + i]);
        if s[from + i] != p[i] {
            assert(part.take(p@.len() as int)[i as int] != p@[i as int]);
            return false;
        }
        i = i + 1;
    }
    assert(part.take(p@.len() as int) =~= p@);
    true
}

/// What `String::from_utf8_lossy` of std makes of `bytes`.
pub uninterp spec fn utf8_lossy(bytes: Seq<u8>) -> Seq<char>;

/// `String::from_utf8_lossy` of std: the result depends on the bytes alone, and
/// bytes that are valid UTF-8 are decoded as they stand. What replaces an
/// invalid part is left unsaid.
#[verifier::external_body]
fn from_utf8_lossy(bytes: &[u8]) -> (r: String)
    ensures
        r@ == utf8_lossy(bytes@),
        valid_utf8(bytes@) ==> r@ == decode_utf8(bytes@),
{
    String::from_utf8_lossy(bytes).into_owned()
}

/// The text that the kernel's bytes stand for: what they encode, where they are
/// valid UTF-8.
pub open spec fn text_of(bytes: Seq<u8>) -> Seq<char> {
    if valid_utf8(bytes) {
        decode_utf8(bytes)
    } else {
        utf8_lossy(bytes)
    }
}

/// The text that the kernel's bytes stand for.
pub fn to_text(bytes: &[u8]) -> (r: String)
    ensures
        r@ == text_of(bytes@),
{
    from_utf8_lossy(bytes)
}

/// The characters of `s` as bytes.
spec fn bytes_of(s: Seq<char>) -> Seq<u8> {
    Seq::new(s.len(), |i: int| s[i] as u8)
}

/// The digits of `n` spell `n`.
proof fn lemma_digits_spell(n: nat)
    ensures
        forall|i: int| 0 <= i < digits(n).len() ==> '0' <= #[trigger] digits(n)[i] <= '9',
        is_number(bytes_of(digits(n))),
        number(bytes_of(digits(n))) == n,
    decreases n,
{
    let bytes = bytes_of(digits(n));
    if n < 10 {
        assert(bytes.drop_last() =~= Seq::<u8>::empty());
        assert(number(bytes.drop_last()) == 0);
    } else {
        lemma_digits_spell(n / 10);
        let shorter = digits(n / 10);
        assert(bytes.drop_last() =~= bytes_of(shorter));
        assert forall|i: int| 0 <= i < digits(n).len() implies '0' <= #[trigger] digits(n)[i]
            <= '9' by {
            if i < shorter.len() {
                assert(digits(n)[i] == shorter[i]);
            }
        }
        assert forall|i: int| 0 <= i < bytes.len() implies is_digit(#[trigger] bytes[i]) by {
            assert('0' <= digits(n)[i] <= '9');
        }
    }
}

/// A number that is written in decimal is read back as it was.
pub proof fn law_decimal_is_read_back(n: i32)
    ensures
        i32_of(encode_utf8(decimal(n as int))) == Some(n),
{
    let s = decimal(n as int);
    let m: nat = if n < 0 {
        (-n) as nat
    } else {
        n as nat
    };
    lemma_digits_spell(m);
    assert(is_ascii_chars(s)) by {
        assert forall|i: int| 0 <= i < s.len() implies '\0' <= #[trigger] s[i] <= '\u{7f}' by {
            if n < 0 && i > 0 {
                assert(s[i] == digits(m)[i - 1]);
            } else if n >= 0 {
                assert(s[i] == digits(m)[i]);
            }
        }
    }
    is_ascii_chars_encode_utf8(s);
    let bytes = encode_utf8(s);
    if n < 0 {
        assert(bytes[0] == 0x2d) by {
            assert(s[0] == '-');
        }
        assert(bytes.skip(1) =~= bytes_of(digits(m))) by {
            assert forall|i: int| 0 <= i < digits(m).len() implies bytes.skip(1)[i] == bytes_of(
                digits(m),
            )[i] by {
                assert(s[i + 1] == digits(m)[i]);
            }
        }
    } else {
        assert(bytes =~= bytes_of(digits(m)));
        assert(is_digit(bytes_of(digits(m))[0]));
    }
}

/// The digits of a number are no whitespace, and spell the number.
pub proof fn lemma_digits_are_a_word(n: u32)
    ensures
        digits(n as nat).len() > 0,
        forall|i: int|
            0 <= i < digits(n as nat).len() ==> !is_space(#[trigger] digits(n as nat)[i]),
        u32_text(digits(n as nat)) == Some(n),
{
    let s = digits(n as nat);
    lemma_digits_spell(n as nat);
    assert forall|i: int| 0 <= i < s.len() implies !is_space(#[trigger] s[i]) by {
        assert('0' <= s[i] <= '9');
    }
    assert(is_ascii_chars(s)) by {
        assert forall|i: int| 0 <= i < s.len() implies '\0' <= #[trigger] s[i] <= '\u{7f}' by {
            assert('0' <= s[i] <= '9');
        }
    }
    let bytes = Seq::new(s.len(), |i: int| s[i] as u8);
    assert(bytes =~= bytes_of(s));
    assert(is_digit(bytes[0]));
}

/// The word in front of whitespace, or of nothing, is the leading word.
pub proof fn lemma_leading_word(word: Seq<char>, rest: Seq<char>)
    requires
        forall|i: int| 0 <= i < word.len() ==> !is_space(#[trigger] word[i]),
        rest.len() == 0 || is_space(rest[0]),
    ensures
        leading_word(word + rest) == word,
    decreases word.len(),
{
    if word.len() == 0 {
        assert(word + rest =~= rest);
        assert(leading_word(rest) =~= word);
    } else {
        let shorter = word.skip(1);
        assert forall|i: int| 0 <= i < shorter.len() implies !is_space(#[trigger] shorter[i]) by {
            assert(shorter[i] == word[i + 1]);
        }
        lemma_leading_word(shorter, rest);
        assert((word + rest).skip(1) =~= shorter + rest);
        assert(!is_space(word[0]));
        assert(seq![word[0]] + shorter =~= word);
    }
}

/// Text of whole lines comes before the lines of the text behind it.
pub proof fn lemma_lines_of_both(a: Seq<char>, b: Seq<char>)
    requires
        a.len() == 0 || a.last() == '\n',
    ensures
        lines(a + b) == lines(a) + lines(b),
    decreases a.len(),
{
    if a.len() == 0 {
        assert(a + b =~= b);
        assert(lines(a) + lines(b) =~= lines(b));
    } else {
        lemma_first_at(a, '\n');
        let k = first_at(a, '\n');
        assert(k < a.len()) by {
            if k == a.len() {
                assert(a[a.len() - 1] != '\n');
            }
        }
        assert forall|i: int| 0 <= i < k implies (a + b)[i] != '\n' by {
            assert((a + b)[i] == a[i]);
        }
        assert((a + b)[k] == '\n');
        lemma_first_at_is(a + b, '\n', k);
        let rest = a.skip(k + 1);
        assert(rest.len() > 0 ==> rest.last() == a.last());
        lemma_lines_of_both(rest, b);
        assert((a + b).take(k) =~= a.take(k));
        assert((a + b).skip(k + 1) =~= rest + b);
        let first = seq![chop_return(a.take(k))];
        assert(first + (lines(rest) + lines(b)) =~= (first + lines(rest)) + lines(b));
    }
}

/// Text without a newline, and one behind it, is one line.
pub proof fn lemma_one_line(line: Seq<char>)
    requires
        !line.contains('\n'),
    ensures
        lines(line.push('\n')) == seq![chop_return(line)],
{
    let all = line.push('\n');
    assert forall|i: int| 0 <= i < line.len() implies all[i] != '\n' by {
        assert(all[i] == line[i]);
    }
    let k = line.len() as int;
    lemma_first_at_is(all, '\n', k);
    assert(all.take(k) =~= line);
    assert(all.skip(k + 1) =~= Seq::<char>::empty());
    assert(lines(all.skip(k + 1)) =~= Seq::<Seq<char>>::empty());
    assert(seq![chop_return(line)] + Seq::<Seq<char>>::empty() =~= seq![chop_return(line)]);
}

/// Bytes that encode a text stand for that text, whole and as it is.
pub proof fn law_encoded_text_is_given_back(t: Seq<char>)
    ensures
        text_of(encode_utf8(t)) == t,
{
    encode_utf8_valid_utf8(t);
    encode_utf8_decode_utf8(t);
}

/// Valid bytes are decoded, and all of them: encoding the text gives them back.
pub proof fn law_valid_bytes_are_decoded(bytes: Seq<u8>)
    requires
        valid_utf8(bytes),
    ensures
        text_of(bytes) == decode_utf8(bytes),
        encode_utf8(text_of(bytes)) == bytes,
{
    decode_utf8_encode_utf8(bytes);
}

/// Bytes that are not valid are what std makes of all of them.
pub proof fn law_invalid_bytes_are_replaced(bytes: Seq<u8>)
    requires
        !valid_utf8(bytes),
    ensures
        text_of(bytes) == utf8_lossy(bytes),
{
}

/// The number that two runs of digits spell together: the first is worth as many
/// more tens as the second has digits.
pub proof fn law_digits_have_their_places(a: Seq<u8>, b: Seq<u8>)
    ensures
        number(a + b) == number(a) * pow(10, b.len()) + number(b),
    decreases b.len(),
{
    if b.len() == 0 {
        assert(a + b =~= a);
        assert(pow(10, 0) == 1) by {
            lemma_pow0(10);
        }
        assert(number(b) == 0);
    } else {
        let shorter = b.drop_last();
        law_digits_have_their_places(a, shorter);
        assert((a + b).drop_last() =~= a + shorter);
        assert((a + b).last() == b.last());
        lemma_pow_positive(10, b.len());
        lemma_pow_positive(10, shorter.len());
        assert(pow(10, b.len()) == 10 * pow(10, shorter.len())) by {
            reveal(pow);
        }
        let (x, y, z) = (number(a) as int, pow(10, shorter.len()), number(shorter) as int);
        assert((x * y + z) * 10 == x * (10 * y) + z * 10) by (nonlinear_arith);
    }
}

/// A digit is worth itself.
pub proof fn law_a_digit_is_worth_itself(b: u8)
    requires
        '0' as u8 <= b <= '9' as u8,
    ensures
        number(seq![b]) == b - '0' as u8,
        i32_of(seq![b]) == Some((b - '0' as u8) as i32),
        u32_of(seq![b]) == Some((b - '0' as u8) as u32),
{
    let s = seq![b];
    assert(s.drop_last() =~= Seq::<u8>::empty());
    assert(number(s.drop_last()) == 0);
    assert(is_number(s));
}

/// A signed number is read exactly from digits whose value fits; a sign in front
/// counts, and nothing else is a number.
pub proof fn law_signed_numbers(s: Seq<u8>)
    requires
        s.len() > 0 && forall|i: int|
            0 <= i < s.len() ==> '0' as u8 <= #[trigger] s[i] <= '9' as u8,
    ensures
        i32_of(s) == (if number(s) <= 0x7fff_ffff {
            Some(number(s) as i32)
        } else {
            None
        }),
        i32_of(seq!['+' as u8] + s) == i32_of(s),
        i32_of(seq!['-' as u8] + s) == (if number(s) <= 0x8000_0000 {
            Some((0 - number(s)) as i32)
        } else {
            None
        }),
{
    assert(is_number(s)) by {
        assert forall|i: int| 0 <= i < s.len() implies is_digit(#[trigger] s[i]) by {
            assert('0' as u8 <= s[i] <= '9' as u8);
        }
    }
    assert(is_digit(s[0]));
    assert((seq!['+' as u8] + s).skip(1) =~= s);
    assert((seq!['-' as u8] + s).skip(1) =~= s);
}

/// An unsigned number is read exactly from digits whose value fits, with or
/// without a plus sign in front.
pub proof fn law_unsigned_numbers(s: Seq<u8>)
    requires
        s.len() > 0 && forall|i: int|
            0 <= i < s.len() ==> '0' as u8 <= #[trigger] s[i] <= '9' as u8,
    ensures
        u32_of(s) == (if number(s) <= 0xffff_ffff {
            Some(number(s) as u32)
        } else {
            None
        }),
        u32_of(seq!['+' as u8] + s) == u32_of(s),
        u32_of(seq!['-' as u8] + s) is None,
{
    assert(is_number(s)) by {
        assert forall|i: int| 0 <= i < s.len() implies is_digit(#[trigger] s[i]) by {
            assert('0' as u8 <= s[i] <= '9' as u8);
        }
    }
    assert(is_digit(s[0]));
    assert((seq!['+' as u8] + s).skip(1) =~= s);
}

/// Where a byte other than a digit stands, but for a sign in front, no number is
/// read; nor where there is no digit.
pub proof fn law_only_digits_are_read(s: Seq<u8>, i: int)
    requires
        0 <= i < s.len() ==> s[i] < '0' as u8 || s[i] > '9' as u8,
        i == 0 ==> s.len() <= 1 || (s[0] != '+' as u8 && s[0] != '-' as u8),
        0 <= i < s.len() || s.len() == 0,
    ensures
        i32_of(s) is None,
        u32_of(s) is None,
{
    let body = unsigned_part(s);
    if s.len() > 0 {
        if s[0] == '+' as u8 || s[0] == '-' as u8 {
            if i > 0 {
                assert(body[i - 1] == s[i]);
                assert(!is_digit(body[i - 1]));
            } else {
                assert(body.len() == 0);
            }
        } else {
            assert(body[i] == s[i]);
            assert(!is_digit(body[i]));
        }
    }
}

/// Trimming takes the whitespace off both sides, and nothing else: whatever
/// whitespace stands around text that starts and ends with none, the text is what
/// is left.
pub proof fn law_trimming_takes_the_outer_space(
    before: Seq<char>,
    core: Seq<char>,
    after: Seq<char>,
)
    requires
        forall|i: int| 0 <= i < before.len() ==> is_space(#[trigger] before[i]),
        forall|i: int| 0 <= i < after.len() ==> is_space(#[trigger] after[i]),
        core.len() > 0 ==> !is_space(core[0]) && !is_space(core.last()),
    ensures
        trim(before + core + after) == core,
{
    lemma_trim_start(before, core + after);
    assert(before + core + after =~= before + (core + after));
    if core.len() > 0 {
        assert((core + after)[0] == core[0]);
        assert(trim_start(core + after) == core + after);
        lemma_trim_end(core, after);
        assert(trim_end(core) == core);
    } else {
        assert(core + after =~= after);
        lemma_trim_start(after, Seq::empty());
        assert(after + Seq::<char>::empty() =~= after);
        assert(trim_start(Seq::<char>::empty()) =~= Seq::<char>::empty());
        assert(trim_end(Seq::<char>::empty()) =~= core);
    }
}

/// Whitespace in front is taken off.
proof fn lemma_trim_start(before: Seq<char>, rest: Seq<char>)
    requires
        forall|i: int| 0 <= i < before.len() ==> is_space(#[trigger] before[i]),
    ensures
        trim_start(before + rest) == trim_start(rest),
    decreases before.len(),
{
    if before.len() == 0 {
        assert(before + rest =~= rest);
    } else {
        let shorter = before.skip(1);
        assert forall|i: int| 0 <= i < shorter.len() implies is_space(#[trigger] shorter[i]) by {
            assert(shorter[i] == before[i + 1]);
        }
        assert((before + rest)[0] == before[0]);
        assert((before + rest).skip(1) =~= shorter + rest);
        lemma_trim_start(shorter, rest);
    }
}

/// Whitespace behind is taken off.
proof fn lemma_trim_end(rest: Seq<char>, after: Seq<char>)
    requires
        forall|i: int| 0 <= i < after.len() ==> is_space(#[trigger] after[i]),
    ensures
        trim_end(rest + after) == trim_end(rest),
    decreases after.len(),
{
    if after.len() == 0 {
        assert(rest + after =~= rest);
    } else {
        let shorter = after.drop_last();
        assert((rest + after).last() == after[after.len() - 1]);
        assert((rest + after).drop_last() =~= rest + shorter);
        lemma_trim_end(rest, shorter);
    }
}

/// The first word is the first run of anything but whitespace: what stands in
/// front of it is passed over, and what stands behind it does not belong to it.
pub proof fn law_first_word_stands_alone(before: Seq<char>, word: Seq<char>, after: Seq<char>)
    requires
        forall|i: int| 0 <= i < before.len() ==> is_space(#[trigger] before[i]),
        forall|i: int| 0 <= i < word.len() ==> !is_space(#[trigger] word[i]),
        word.len() > 0,
        after.len() > 0 ==> is_space(after[0]),
    ensures
        first_word(before + word + after) == Some(word),
        first_word(before) is None,
{
    lemma_trim_start(before, word + after);
    assert(before + word + after =~= before + (word + after));
    assert((word + after)[0] == word[0]);
    assert(!is_space(word[0]));
    lemma_leading_word(word, after);
    lemma_trim_start(before, Seq::empty());
    assert(before + Seq::<char>::empty() =~= before);
    assert(trim_start(Seq::<char>::empty()) =~= Seq::<char>::empty());
}

/// Lines come apart where they were put together: a newline ends a line, with or
/// without a carriage return before it, and belongs to none; what follows the
/// last newline is a line of its own, as it stands.
pub proof fn law_lines_come_apart(line: Seq<char>, rest: Seq<char>)
    requires
        !line.contains('\n'),
    ensures
        line.len() == 0 || line.last() != '\r' ==> lines(line.push('\n') + rest) == seq![line]
            + lines(rest),
        lines(line + seq!['\r', '\n'] + rest) == seq![line] + lines(rest),
        lines(line) == (if line.len() == 0 {
            Seq::empty()
        } else {
            seq![line]
        }),
{
    lemma_one_line(line);
    lemma_lines_of_both(line.push('\n'), rest);
    let returned = line.push('\r');
    assert(!returned.contains('\n')) by {
        assert forall|i: int| 0 <= i < returned.len() implies returned[i] != '\n' by {
            if i < line.len() {
                assert(returned[i] == line[i]);
            }
        }
    }
    lemma_one_line(returned);
    assert(returned.drop_last() =~= line);
    lemma_lines_of_both(returned.push('\n'), rest);
    assert(line + seq!['\r', '\n'] + rest =~= returned.push('\n') + rest);
    lemma_first_at_is(line, '\n', line.len() as int);
    assert(line.len() == 0 ==> lines(line) =~= Seq::<Seq<char>>::empty());
}

/// A text starts with a prefix exactly where it is that prefix and something
/// behind it.
pub proof fn law_prefixes_stand_in_front(s: Seq<char>, prefix: Seq<char>)
    ensures
        starts_with(s, prefix) <==> exists|rest: Seq<char>| s == #[trigger] (prefix + rest),
        starts_with(prefix + s, prefix),
{
    assert((prefix + s).take(prefix.len() as int) =~= prefix);
    if starts_with(s, prefix) {
        let rest = s.skip(prefix.len() as int);
        assert(s =~= prefix + rest);
    }
    if exists|rest: Seq<char>| s == #[trigger] (prefix + rest) {
        let rest = choose|rest: Seq<char>| s == #[trigger] (prefix + rest);
        assert((prefix + rest).take(prefix.len() as int) =~= prefix);
    }
}

/// A number in decimal says what it is: its digits spell it, none in front is a
/// needless zero, and a minus sign stands in front just where it is negative.
pub proof fn law_decimal_is_the_number(n: nat)
    ensures
        decimal(n as int) == digits(n),
        n > 0 ==> decimal(0 - n) == seq!['-'] + digits(n),
        n < 10 ==> digits(n).len() == 1 && digits(n)[0] as int == '0' as int + n,
        n >= 10 ==> digits(n)[0] != '0',
        forall|d: int|
            0 <= d < 10 && n > 0 ==> #[trigger] digits((n * 10 + d) as nat) == digits(n).push(
                ('0' as int + d) as char,
            ),
    decreases n,
{
    if n >= 10 {
        law_decimal_is_the_number(n / 10);
        let shorter = digits(n / 10);
        lemma_digits_spell(n / 10);
        assert(digits(n)[0] == shorter[0]);
        if n / 10 < 10 {
            assert(shorter[0] as int == '0' as int + n / 10);
        }
    }
    assert forall|d: int| 0 <= d < 10 && n > 0 implies #[trigger] digits((n * 10 + d) as nat)
        == digits(n).push(('0' as int + d) as char) by {
        let m = (n * 10 + d) as nat;
        assert(m >= 10);
        assert(m / 10 == n && m % 10 == d);
    }
}

/// What counts as whitespace: the control characters from tab to carriage return,
/// the space, the next line and no-break space of Latin-1, the spaces of Ogham and
/// of general punctuation, the line and paragraph separators, and the ideographic
/// space. Nothing else does, so neither letters nor digits do.
pub proof fn law_what_counts_as_space(c: char)
    ensures
        seq!['\t', '\n', '\u{b}', '\u{c}', '\r', ' ', '\u{85}', '\u{a0}'].contains(c) ==> is_space(
            c,
        ),
        c == '\u{1680}' || '\u{2000}' <= c <= '\u{200a}' ==> is_space(c),
        c == '\u{2028}' || c == '\u{2029}' || c == '\u{202f}' || c == '\u{205f}' || c == '\u{3000}'
            ==> is_space(c),
        c < '\t' || '\r' < c < ' ' || ' ' < c < '\u{85}' || '\u{85}' < c < '\u{a0}' ==> !is_space(c),
        '\u{a0}' < c < '\u{1680}' || '\u{1680}' < c < '\u{2000}' ==> !is_space(c),
        '\u{200a}' < c < '\u{2028}' || '\u{2029}' < c < '\u{202f}' ==> !is_space(c),
        '\u{202f}' < c < '\u{205f}' || '\u{205f}' < c < '\u{3000}' || '\u{3000}' < c ==> !is_space(c),
{
}

/// A number is read out of text as it is out of the bytes of its digits, with or
/// without a plus sign; and where any other character stands, none is read.
pub proof fn law_numbers_are_read_out_of_text(s: Seq<char>, other: Seq<char>, i: int)
    requires
        s.len() > 0 && forall|k: int| 0 <= k < s.len() ==> '0' <= #[trigger] s[k] <= '9',
        0 <= i < other.len() && (other[i] < '0' || other[i] > '9'),
        i == 0 ==> other.len() == 1 || other[0] != '+',
    ensures
        u32_text(s) == u32_of(Seq::new(s.len(), |k: int| s[k] as u8)),
        u32_text(seq!['+'] + s) == u32_text(s),
        u32_text(other) is None,
        u32_text(Seq::empty()) is None,
{
    let bytes = Seq::new(s.len(), |k: int| s[k] as u8);
    assert forall|k: int| 0 <= k < bytes.len() implies '0' as u8 <= #[trigger] bytes[k] <= '9' as u8 by {
        assert('0' <= s[k] <= '9');
    }
    law_unsigned_numbers(bytes);
    let plus = seq!['+'] + s;
    let plus_bytes = Seq::new(plus.len(), |k: int| plus[k] as u8);
    assert(plus_bytes =~= seq!['+' as u8] + bytes);
    assert(is_ascii_chars(plus)) by {
        assert forall|k: int| 0 <= k < plus.len() implies 0 <= #[trigger] plus[k] as nat <= 127 by {
            if k > 0 {
                assert(plus[k] == s[k - 1]);
            }
        }
    }
    assert(is_ascii_chars(s));
    if is_ascii_chars(other) {
        let others = Seq::new(other.len(), |k: int| other[k] as u8);
        assert(0 <= other[i] as nat <= 127);
        assert(0 <= other[0] as nat <= 127);
        if i == 0 && other[0] == '-' && other.len() > 1 {
            assert(others[0] == '-' as u8);
        } else {
            law_only_digits_are_read(others, i);
        }
    }
    let none = Seq::new(Seq::<char>::empty().len(), |k: int| Seq::<char>::empty()[k] as u8);
    law_only_digits_are_read(none, 0);
}

} // verus!
