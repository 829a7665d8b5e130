//! Text handling on sequences of characters: white space, searching, and the
//! decimal notation of whole numbers.

use vstd::prelude::*;
use vstd::string::*;

verus! {

/// The characters with Unicode's `White_Space` property.
pub open spec fn is_white_space(c: char) -> bool {
    let n = c as u32;
    ||| 0x9 <= n <= 0xd
    ||| n == 0x20
    ||| n == 0x85
    ||| n == 0xa0
    ||| n == 0x1680
    ||| 0x2000 <= n <= 0x200a
    ||| n == 0x2028
    ||| n == 0x2029
    ||| n == 0x202f
    ||| n == 0x205f
    ||| n == 0x3000
}

/// `s` without its leading white space.
pub open spec fn trim_start(s: Seq<char>) -> Seq<char>
    decreases s.len(),
{
    if s.len() > 0 && is_white_space(s.first()) {
        trim_start(s.drop_first())
    } else {
        s
    }
}

/// `s` without its trailing white space.
pub open spec fn trim_end(s: Seq<char>) -> Seq<char>
    decreases s.len(),
{
    if s.len() > 0 && is_white_space(s.last()) {
        trim_end(s.drop_last())
    } else {
        s
    }
}

/// `s` without the white space on either side.
pub open spec fn trim(s: Seq<char>) -> Seq<char> {
    trim_end(trim_start(s))
}

/// `part` stands in `s` from position `i` on.
pub open spec fn occurs_at(s: Seq<char>, part: Seq<char>, i: int) -> bool {
    &&& 0 <= i
    &&& i + part.len() <= s.len()
    &&& s.subrange(i, i + part.len()) == part
}

/// `part` stands somewhere in `s`.
pub open spec fn contains_text(s: Seq<char>, part: Seq<char>) -> bool {
    exists|i: int| occurs_at(s, part, i)
}

pub open spec fn is_digit(c: char) -> bool {
    '0' <= c <= '9'
}

pub open spec fn all_digits(s: Seq<char>) -> bool {
    forall|i: int| 0 <= i < s.len() ==> is_digit(#[trigger] s[i])
}

/// The number that a sequence of digits denotes.
pub open spec fn digits_value(s: Seq<char>) -> nat
    decreases s.len(),
{
    if s.len() == 0 {
        0
    } else {
        digits_value(s.drop_last()) * 10 + (s.last() as u32 - '0' as u32) as nat
    }
}

/// The number that `s` denotes, if `s` is one or more digits.
pub open spec fn parse_digits_spec(s: Seq<char>) -> Option<nat> {
    if s.len() > 0 && all_digits(s) {
        Some(digits_value(s))
    } else {
        None
    }
}

/// The number that `s` denotes: digits, after an optional plus or minus sign.
pub open spec fn parse_int(s: Seq<char>) -> Option<int> {
    if s.len() > 0 && s.first() == '-' {
        match parse_digits_spec(s.drop_first()) {
            Some(n) => Some(-(n as int)),
            None => None,
        }
    } else {
        parse_nat(s)
    }
}

/// The number that `s` denotes: digits, after an optional plus sign.
pub open spec fn parse_nat(s: Seq<char>) -> Option<int> {
    let digits = if s.len() > 0 && s.first() == '+' {
        s.drop_first()
    } else {
        s
    };
    match parse_digits_spec(digits) {
        Some(n) => Some(n as int),
        None => None,
    }
}

/// The `i32` that `s` denotes, if it denotes one.
pub open spec fn i32_of(s: Seq<char>) -> Option<i32> {
    match parse_int(s) {
        Some(n) => if i32::MIN <= n <= i32::MAX {
            Some(n as i32)
        } else {
            None
        },
        None => None,
    }
}

/// The `u64` that `s` denotes, if it denotes one. A minus sign is never
/// accepted, not even before zero.
pub open spec fn u64_of(s: Seq<char>) -> Option<u64> {
    match parse_nat(s) {
        Some(n) => if n <= u64::MAX {
            Some(n as u64)
        } else {
            None
        },
        None => None,
    }
}

/// The truth value that `s` names.
pub open spec fn bool_of(s: Seq<char>) -> Option<bool> {
    if s == "true"@ {
        Some(true)
    } else if s == "false"@ {
        Some(false)
    } else {
        None
    }
}

/// `s` is `word`, written in any mixture of upper and lower case.
pub open spec fn reads_in_any_case(s: Seq<char>, word: Seq<char>) -> bool {
    &&& s.len() == word.len()
    &&& forall|i: int| 0 <= i < s.len() ==> ascii_lower(#[trigger] s[i]) == word[i]
}

/// `s` is at least one digit, with at most one point before, among or after
/// the digits.
pub open spec fn is_mantissa(s: Seq<char>) -> bool {
    ||| s.len() > 0 && all_digits(s)
    ||| s.len() > 1 && exists|point: int|
        0 <= point < s.len() && #[trigger] s[point] == '.' && all_digits(s.take(point))
            && all_digits(s.skip(point + 1))
}

/// `s` without the plus or minus sign that it may start with.
pub open spec fn unsigned(s: Seq<char>) -> Seq<char> {
    if s.len() > 0 && (s.first() == '+' || s.first() == '-') {
        s.drop_first()
    } else {
        s
    }
}

/// `s` is a mantissa up to `end`, and that is all of it, or else the letter E
/// and an exponent follow.
pub open spec fn is_mantissa_up_to(s: Seq<char>, end: int) -> bool {
    &&& 0 <= end <= s.len()
    &&& is_mantissa(s.take(end))
    &&& end < s.len() ==> {
        &&& s[end] == 'e' || s[end] == 'E'
        &&& parse_digits_spec(unsigned(s.skip(end + 1))) is Some
    }
}

/// `s` denotes a floating-point number: after an optional sign it is a
/// mantissa with an optional exponent, or one of the words for what is not
/// finite.
pub open spec fn is_fraction(s: Seq<char>) -> bool {
    let number = unsigned(s);
    ||| reads_in_any_case(number, "inf"@)
    ||| reads_in_any_case(number, "infinity"@)
    ||| reads_in_any_case(number, "nan"@)
    ||| exists|end: int| is_mantissa_up_to(number, end)
}

/// `s` itself, if it denotes a floating-point number.
pub open spec fn fraction_of(s: Seq<char>) -> Option<Seq<char>> {
    if is_fraction(s) {
        Some(s)
    } else {
        None
    }
}

pub open spec fn digit_char(d: nat) -> char {
    ('0' as u32 + d) as char
}

/// Decimal notation of `n`, without leading zeros.
pub open spec fn decimal_nat(n: nat) -> Seq<char>
    decreases n,
{
    if n < 10 {
        seq![digit_char(n)]
    } else {
        decimal_nat(n / 10).push(digit_char(n % 10))
    }
}

/// Decimal notation of `i`, with a minus sign if it is negative.
pub open spec fn decimal(i: int) -> Seq<char> {
    if i < 0 {
        seq!['-'] + decimal_nat((-i) as nat)
    } else {
        decimal_nat(i as nat)
    }
}

pub open spec fn all_ascii(s: Seq<char>) -> bool {
    forall|i: int| 0 <= i < s.len() ==> (#[trigger] s[i]) as u32 <= 0x7f
}

/// The lower-case letter that goes with an upper-case one of the ASCII range;
/// any other character is its own.
pub open spec fn ascii_lower(c: char) -> char {
    if 'A' <= c <= 'Z' {
        (c as u32 + 32) as char
    } else {
        c
    }
}

/// `s` in lower case, by the case mapping of Unicode.
pub uninterp spec fn unicode_lower(s: Seq<char>) -> Seq<char>;

/// `s` in lower case.
pub open spec fn lower(s: Seq<char>) -> Seq<char> {
    if all_ascii(s) {
        s.map_values(|c: char| ascii_lower(c))
    } else {
        unicode_lower(s)
    }
}

/// `str::to_lowercase`: the text in lower case, by the case mapping of
/// Unicode, which on a text of ASCII characters alone turns each of the
/// letters `A` to `Z` into its counterpart and keeps the other characters.
/// What the mapping does with other texts is not spelt out.
#[verifier::external_body]
pub(crate) fn to_lowercase(s: &str) -> (lowered: String)
    ensures
        lowered@ == if all_ascii(s@) {
            s@.map_values(|c: char| ascii_lower(c))
        } else {
            unicode_lower(s@)
        },
{
    s.to_lowercase()
}

/// The characters of `s`.
pub fn chars_of(s: &str) -> (chars: Vec<char>)
    ensures
        chars@ == s@,
{
    let mut chars: Vec<char> = Vec::new();
    for c in it: s.chars()
        invariant
            it.seq() == s@,
            chars@ == s@.take(it.index() as int),
    {
        chars.push(c);
    }
    assert(s@.take(s@.len() as int) == s@);
    chars
}

/// Whether `c` is white space.
pub fn is_space(c: char) -> (space: bool)
    ensures
        space == is_white_space(c),
{
    let n: u32 = c as u32;
    (0x9 <= n && n <= 0xd) || n == 0x20 || n == 0x85 || n == 0xa0 || n == 0x1680 || (0x2000 <= n
        && n <= 0x200a) || n == 0x2028 || n == 0x2029 || n == 0x202f || n == 0x205f || n == 0x3000
}

/// The bounds of what is left of `chars[from..to]` when the white space on
/// either side is taken away.
pub fn trim_range(chars: &Vec<char>, from: usize, to: usize) -> (range: (usize, usize))
    requires
        from <= to <= chars.len(),
    ensures
        from <= range.0 <= range.1 <= to,
        chars@.subrange(range.0 as int, range.1 as int) == trim(
            chars@.subrange(from as int, to as int),
        ),
{
    let mut start: usize = from;
    let ghost whole = chars@.subrange(from as int, to as int);
    while start < to && is_space(chars[start])
        invariant
            from <= start <= to <= chars.len(),
            trim_start(whole) == trim_start(chars@.subrange(start as int, to as int)),
        decreases to - start,
    {
        assert(chars@.subrange(start as int, to as int).drop_first() == chars@.subrange(
            start + 1,
            to as int,
        ));
        start = start + 1;
    }
    assert(trim_start(whole) == chars@.subrange(start as int, to as int));
    let mut end: usize = to;
    while start < end && is_space(chars[end - 1])
        invariant
            start <= end <= to <= chars.len(),
            trim_end(chars@.subrange(start as int, to as int)) == trim_end(
                chars@.subrange(start as int, end as int),
            ),
        decreases end - start,
    {
        assert(chars@.subrange(start as int, end as int).drop_last() == chars@.subrange(
            start as int,
            end - 1,
        ));
        end = end - 1;
    }
    (start, end)
}

/// Whether `chars[from..to]` reads `text`.
pub fn reads(chars: &Vec<char>, from: usize, to: usize, text: &str) -> (same: bool)
    requires
        from <= to <= chars.len(),
    ensures
        same == (chars@.subrange(from as int, to as int) == text@),
{
    let wanted = chars_of(text);
    if wanted.len() != to - from {
        return false;
    }
    let mut i: usize = 0;
    while i < wanted.len()
        invariant
            from <= to <= chars.len(),
            wanted.len() == to - from,
            i <= wanted.len(),
            wanted@ == text@,
            forall|j: int| 0 <= j < i ==> chars[from + j] == wanted[j],
        decreases wanted.len() - i,
    {
        if chars[from + i] != wanted[i] {
            assert(chars@.subrange(from as int, to as int)[i as int] != text@[i as int]);
            return false;
        }
        i = i + 1;
    }
    assert(chars@.subrange(from as int, to as int) =~= text@);
    true
}

/// Whether `part` stands somewhere in `chars`.
pub fn contains(chars: &Vec<char>, part: &str) -> (found: bool)
    ensures
        found == contains_text(chars@, part@),
{
    let wanted = chars_of(part);
    if wanted.len() > chars.len() {
        return false;
    }
    let last: usize = chars.len() - wanted.len();
    let mut i: usize = 0;
    loop
        invariant
            wanted@ == part@,
            wanted.len() <= chars.len(),
            last == chars.len() - wanted.len(),
            i <= last,
            forall|j: int| 0 <= j < i ==> !occurs_at(chars@, part@, j),
        decreases last - i,
    {
        if reads(chars, i, i + wanted.len(), part) {
            assert(occurs_at(chars@, part@, i as int));
            return true;
        }
        assert(!occurs_at(chars@, part@, i as int));
        if i == last {
            assert forall|j: int| !occurs_at(chars@, part@, j) by {
                if occurs_at(chars@, part@, j) {
                    assert(0 <= j <= last);
                }
            }
            return false;
        }
        i = i + 1;
    }
}

/// Whether `s` begins with `prefix`.
pub fn begins_with(s: &str, prefix: &str) -> (begins: bool)
    ensures
        begins == occurs_at(s@, prefix@, 0),
{
    let chars = chars_of(s);
    let length: usize = chars_of(prefix).len();
    length <= chars.len() && reads(&chars, 0, length, prefix)
}

proof fn lemma_digits_value_grows(s: Seq<char>, k: int)
    requires
        0 <= k <= s.len(),
    ensures
        digits_value(s.take(k)) <= digits_value(s),
    decreases s.len() - k,
{
    if k == s.len() {
        assert(s.take(k) == s);
    } else {
        lemma_digits_value_grows(s, k + 1);
        assert(s.take(k + 1).drop_last() == s.take(k));
    }
}

/// The number that the digits `chars[from..to]` denote, if it is at most
/// `limit`.
fn parse_digits(chars: &Vec<char>, from: usize, to: usize, limit: u64) -> (number: Option<u64>)
    requires
        from <= to <= chars.len(),
    ensures
        number == match parse_digits_spec(chars@.subrange(from as int, to as int)) {
            Some(n) => if n <= limit {
                Some(n as u64)
            } else {
                None
            },
            None => None,
        },
{
    let ghost digits = chars@.subrange(from as int, to as int);
    if from == to {
        return None;
    }
    let mut value: u64 = 0;
    let mut i: usize = from;
    while i < to
        invariant
            from <= i <= to <= chars.len(),
            digits == chars@.subrange(from as int, to as int),
            all_digits(digits.take(i - from)),
            value == digits_value(digits.take(i - from)),
            value <= limit,
        decreases to - i,
    {
        let c = chars[i];
        assert(c == digits[i - from]);
        if c < '0' || '9' < c {
            return None;
        }
        let d: u64 = (c as u32 - '0' as u32) as u64;
        proof {
            assert(digits.take(i - from + 1).drop_last() == digits.take(i - from));
            assert(digits_value(digits.take(i - from + 1)) == value * 10 + d);
            lemma_digits_value_grows(digits, i - from + 1);
        }
        if value > limit / 10 || d > limit - value * 10 {
            return None;
        }
        value = value * 10 + d;
        i = i + 1;
    }
    assert(digits.take(to - from) == digits);
    Some(value)
}

/// The `i32` that `chars[from..to]` denotes.
pub fn parse_i32(chars: &Vec<char>, from: usize, to: usize) -> (number: Option<i32>)
    requires
        from <= to <= chars.len(),
    ensures
        number == i32_of(chars@.subrange(from as int, to as int)),
{
    let ghost text = chars@.subrange(from as int, to as int);
    if from < to && chars[from] == '-' {
        assert(text.drop_first() == chars@.subrange(from + 1, to as int));
        match parse_digits(chars, from + 1, to, 2147483648) {
            Some(n) => Some((-(n as i64)) as i32),
            None => None,
        }
    } else {
        let start: usize = if from < to && chars[from] == '+' {
            assert(text.drop_first() == chars@.subrange(from + 1, to as int));
            from + 1
        } else {
            from
        };
        match parse_digits(chars, start, to, 2147483647) {
            Some(n) => Some(n as i32),
            None => None,
        }
    }
}

/// The `u64` that `chars[from..to]` denotes.
pub fn parse_u64(chars: &Vec<char>, from: usize, to: usize) -> (number: Option<u64>)
    requires
        from <= to <= chars.len(),
    ensures
        number == u64_of(chars@.subrange(from as int, to as int)),
{
    let ghost text = chars@.subrange(from as int, to as int);
    let start: usize = if from < to && chars[from] == '+' {
        assert(text.drop_first() == chars@.subrange(from + 1, to as int));
        from + 1
    } else {
        from
    };
    parse_digits(chars, start, to, u64::MAX)
}

/// The truth value that `chars[from..to]` names.
pub fn parse_bool(chars: &Vec<char>, from: usize, to: usize) -> (value: Option<bool>)
    requires
        from <= to <= chars.len(),
    ensures
        value == bool_of(chars@.subrange(from as int, to as int)),
{
    if reads(chars, from, to, "true") {
        Some(true)
    } else if reads(chars, from, to, "false") {
        Some(false)
    } else {
        None
    }
}

/// Whether `chars[from..to]` reads `word`, in any mixture of upper and lower
/// case.
fn reads_any_case(chars: &Vec<char>, from: usize, to: usize, word: &str) -> (same: bool)
    requires
        from <= to <= chars.len(),
    ensures
        same == reads_in_any_case(chars@.subrange(from as int, to as int), word@),
{
    let wanted = chars_of(word);
    let ghost s = chars@.subrange(from as int, to as int);
    if wanted.len() != to - from {
        return false;
    }
    let mut i: usize = 0;
    while i < wanted.len()
        invariant
            from <= to <= chars.len(),
            s == chars@.subrange(from as int, to as int),
            wanted.len() == to - from,
            i <= wanted.len(),
            wanted@ == word@,
            forall|j: int| 0 <= j < i ==> ascii_lower(#[trigger] s[j]) == wanted[j],
        decreases wanted.len() - i,
    {
        let c: char = chars[from + i];
        assert(c == s[i as int]);
        let lowered: char = if 'A' <= c && c <= 'Z' {
            (c as u8 + 32) as char
        } else {
            c
        };
        if lowered != wanted[i] {
            return false;
        }
        i = i + 1;
    }
    true
}

/// Where the digits from `chars[from]` on, up to `to`, come to an end.
fn skip_digits(chars: &Vec<char>, from: usize, to: usize) -> (end: usize)
    requires
        from <= to <= chars.len(),
    ensures
        from <= end <= to,
        forall|i: int| from <= i < end ==> is_digit(#[trigger] chars[i]),
        end < to ==> !is_digit(chars[end as int]),
{
    let mut end: usize = from;
    while end < to && '0' <= chars[end] && chars[end] <= '9'
        invariant
            from <= end <= to <= chars.len(),
            forall|i: int| from <= i < end ==> is_digit(#[trigger] chars[i]),
        decreases to - end,
    {
        end = end + 1;
    }
    end
}

/// Where what is left of `chars[from..to]` starts, without the sign that it
/// may start with.
fn skip_sign(chars: &Vec<char>, from: usize, to: usize) -> (start: usize)
    requires
        from <= to <= chars.len(),
    ensures
        from <= start <= to,
        chars@.subrange(start as int, to as int) == unsigned(
            chars@.subrange(from as int, to as int),
        ),
{
    if from < to && (chars[from] == '+' || chars[from] == '-') {
        assert(chars@.subrange(from as int, to as int).drop_first() == chars@.subrange(
            from + 1,
            to as int,
        ));
        from + 1
    } else {
        from
    }
}

/// Only at `end` can the mantissa of `s` end, if up to there it is digits with
/// at most one point, and neither goes on there.
proof fn lemma_mantissa_end(s: Seq<char>, point: Option<int>, end: int, other: int)
    requires
        0 <= end <= s.len(),
        forall|i: int| 0 <= i < end ==> is_digit(#[trigger] s[i]) || Some(i) == point,
        point matches Some(p) ==> 0 <= p < end && s[p] == '.',
        end < s.len() ==> !is_digit(s[end]) && (s[end] == '.' ==> point is Some),
        is_mantissa_up_to(s, other),
    ensures
        other == end,
{
    if other < end {
        assert(is_digit(s[other]) || s[other] == '.');
    }
    if end < other {
        let m = s.take(other);
        assert(m[end] == s[end]);
        assert(!all_digits(m));
        let q = choose|q: int|
            0 <= q < m.len() && #[trigger] m[q] == '.' && all_digits(m.take(q)) && all_digits(
                m.skip(q + 1),
            );
        if end < q {
            assert(m.take(q)[end] == s[end]);
        }
        if q < end {
            assert(m.skip(q + 1)[end - q - 1] == s[end]);
        }
        assert(q == end);
        let p = point->0;
        assert(m.take(q)[p] == s[p]);
    }
}

/// Whether `chars[from..to]` is a mantissa with an optional exponent.
fn is_plain_number(chars: &Vec<char>, from: usize, to: usize) -> (plain: bool)
    requires
        from <= to <= chars.len(),
    ensures
        plain == exists|end: int|
            is_mantissa_up_to(chars@.subrange(from as int, to as int), end),
{
    let ghost s = chars@.subrange(from as int, to as int);
    let ghost mut point: Option<int> = None;
    let whole: usize = skip_digits(chars, from, to);
    let mut digits: usize = whole - from;
    let mut end: usize = whole;
    if whole < to && chars[whole] == '.' {
        end = skip_digits(chars, whole + 1, to);
        digits = digits + (end - whole - 1);
        proof {
            point = Some(whole - from);
        }
    }
    let ghost e = end - from;
    proof {
        assert forall|i: int| 0 <= i < e implies is_digit(#[trigger] s[i]) || Some(i) == point by {
            assert(s[i] == chars[from + i]);
        }
        if e < s.len() {
            assert(s[e] == chars[end as int]);
        }
        assert forall|other: int| is_mantissa_up_to(s, other) implies other == e by {
            lemma_mantissa_end(s, point, e, other);
        }
        let m = s.take(e);
        if digits > 0 {
            match point {
                Some(p) => {
                    assert(m[p] == '.');
                    assert forall|i: int| 0 <= i < p implies is_digit(#[trigger] m.take(p)[i]) by {
                        assert(m.take(p)[i] == s[i]);
                    }
                    assert forall|i: int| 0 <= i < m.skip(p + 1).len() implies is_digit(
                        #[trigger] m.skip(p + 1)[i],
                    ) by {
                        assert(m.skip(p + 1)[i] == s[p + 1 + i]);
                    }
                },
                None => {
                    assert forall|i: int| 0 <= i < m.len() implies is_digit(#[trigger] m[i]) by {
                        assert(m[i] == s[i]);
                    }
                },
            }
            assert(is_mantissa(m));
        } else {
            match point {
                Some(p) => {
                    assert(m.len() == 1 && m[0] == '.');
                    assert(!is_digit(m[0]));
                },
                None => {
                    assert(m.len() == 0);
                },
            }
            assert(!is_mantissa(m));
        }
    }
    if digits == 0 {
        return false;
    }
    if end == to {
        assert(is_mantissa_up_to(s, e));
        return true;
    }
    if chars[end] != 'e' && chars[end] != 'E' {
        return false;
    }
    let start: usize = skip_sign(chars, end + 1, to);
    let stop: usize = skip_digits(chars, start, to);
    let valid: bool = start < stop && stop == to;
    proof {
        let exponent = chars@.subrange(start as int, to as int);
        assert(s.skip(e + 1) == chars@.subrange(end + 1, to as int));
        if valid {
            assert forall|i: int| 0 <= i < exponent.len() implies is_digit(
                #[trigger] exponent[i],
            ) by {
                assert(exponent[i] == chars[start + i]);
            }
            assert(is_mantissa_up_to(s, e));
        } else if stop < to {
            assert(exponent[stop - start] == chars[stop as int]);
            assert(!all_digits(exponent));
        }
    }
    valid
}

/// Whether `chars[from..to]` denotes a floating-point number.
pub fn reads_as_fraction(chars: &Vec<char>, from: usize, to: usize) -> (fraction: bool)
    requires
        from <= to <= chars.len(),
    ensures
        fraction == is_fraction(chars@.subrange(from as int, to as int)),
{
    let start: usize = skip_sign(chars, from, to);
    reads_any_case(chars, start, to, "inf") || reads_any_case(chars, start, to, "infinity")
        || reads_any_case(chars, start, to, "nan") || is_plain_number(chars, start, to)
}

/// The digit `d` as text.
fn digit_text(d: u64) -> (text: &'static str)
    requires
        d < 10,
    ensures
        text@ == seq![digit_char(d as nat)],
{
    proof {
        reveal_strlit("0");
        reveal_strlit("1");
        reveal_strlit("2");
        reveal_strlit("3");
        reveal_strlit("4");
        reveal_strlit("5");
        reveal_strlit("6");
        reveal_strlit("7");
        reveal_strlit("8");
        reveal_strlit("9");
    }
    if d == 0 {
        "0"
    } else if d == 1 {
        "1"
    } else if d == 2 {
        "2"
    } else if d == 3 {
        "3"
    } else if d == 4 {
        "4"
    } else if d == 5 {
        "5"
    } else if d == 6 {
        "6"
    } else if d == 7 {
        "7"
    } else if d == 8 {
        "8"
    } else {
        "9"
    }
}

/// Appends the decimal notation of `n` to `out`.
pub fn append_nat(out: &mut String, n: u64)
    ensures
        final(out)@ == old(out)@ + decimal_nat(n as nat),
    decreases n,
{
    if n >= 10 {
        append_nat(out, n / 10);
    }
    out.append(digit_text(n % 10));
}

/// Appends the decimal notation of `n` to `out`.
pub fn append_int(out: &mut String, n: i32)
    ensures
        final(out)@ == old(out)@ + decimal(n as int),
{
    if n < 0 {
        proof {
            reveal_strlit("-");
        }
        out.append("-");
        append_nat(out, (-(n as i64)) as u64);
    } else {
        append_nat(out, n as u64);
    }
}

pub open spec fn all_white_space(s: Seq<char>) -> bool {
    forall|i: int| 0 <= i < s.len() ==> is_white_space(#[trigger] s[i])
}

proof fn lemma_trim_start_skips(before: Seq<char>, s: Seq<char>)
    requires
        all_white_space(before),
    ensures
        trim_start(before + s) == trim_start(s),
    decreases before.len(),
{
    if before.len() == 0 {
        assert(before + s == s);
    } else {
        assert(is_white_space(before[0]));
        assert((before + s).drop_first() == before.drop_first() + s);
        lemma_trim_start_skips(before.drop_first(), s);
    }
}

proof fn lemma_trim_end_skips(s: Seq<char>, after: Seq<char>)
    requires
        all_white_space(after),
    ensures
        trim_end(s + after) == trim_end(s),
    decreases after.len(),
{
    if after.len() == 0 {
        assert(s + after == s);
    } else {
        assert(is_white_space(after[after.len() - 1]));
        assert((s + after).drop_last() == s + after.drop_last());
        lemma_trim_end_skips(s, after.drop_last());
    }
}

proof fn lemma_trim_start_before(s: Seq<char>, after: Seq<char>)
    requires
        all_white_space(after),
    ensures
        trim_end(trim_start(s + after)) == trim_end(trim_start(s) + after),
    decreases s.len(),
{
    if s.len() == 0 {
        assert(s + after == after);
        assert(trim_start(s) + after == after);
        lemma_trim_start_skips(after, Seq::empty());
        assert(after + Seq::<char>::empty() == after);
        lemma_trim_end_skips(Seq::empty(), after);
        assert(Seq::<char>::empty() + after == after);
    } else if is_white_space(s.first()) {
        assert((s + after).drop_first() == s.drop_first() + after);
        lemma_trim_start_before(s.drop_first(), after);
    } else {
        assert((s + after).first() == s.first());
    }
}

/// White space put around a text makes no difference to what trimming leaves.
pub proof fn law_trim_ignores_padding(before: Seq<char>, s: Seq<char>, after: Seq<char>)
    requires
        all_white_space(before),
        all_white_space(after),
    ensures
        trim(before + s + after) == trim(s),
{
    assert(before + s + after == before + (s + after));
    lemma_trim_start_skips(before, s + after);
    lemma_trim_start_before(s, after);
    lemma_trim_end_skips(trim_start(s), after);
}

proof fn lemma_trim_start_first(s: Seq<char>)
    ensures
        trim_start(s).len() == 0 || !is_white_space(trim_start(s).first()),
    decreases s.len(),
{
    if s.len() > 0 && is_white_space(s.first()) {
        lemma_trim_start_first(s.drop_first());
    }
}

proof fn lemma_trim_end_ends(s: Seq<char>)
    ensures
        trim_end(s).len() <= s.len(),
        trim_end(s).len() == 0 || !is_white_space(trim_end(s).last()),
        trim_end(s).len() == 0 || trim_end(s).first() == s.first(),
    decreases s.len(),
{
    if s.len() > 0 && is_white_space(s.last()) {
        lemma_trim_end_ends(s.drop_last());
    }
}

/// Trimming a trimmed text changes nothing.
pub proof fn law_trim_idempotent(s: Seq<char>)
    ensures
        trim(trim(s)) == trim(s),
{
    lemma_trim_start_first(s);
    lemma_trim_end_ends(trim_start(s));
}

proof fn lemma_decimal_nat(n: nat)
    ensures
        decimal_nat(n).len() > 0,
        all_digits(decimal_nat(n)),
        digits_value(decimal_nat(n)) == n,
    decreases n,
{
    if n < 10 {
        let s = decimal_nat(n);
        assert(s.drop_last() == Seq::<char>::empty());
        assert(digits_value(s.drop_last()) == 0);
    } else {
        lemma_decimal_nat(n / 10);
        assert(decimal_nat(n).drop_last() == decimal_nat(n / 10));
    }
}

/// The decimal notation of a number denotes that number.
pub proof fn law_decimal_read_back(n: int)
    ensures
        parse_int(decimal(n)) == Some(n),
        n >= 0 ==> parse_nat(decimal(n)) == Some(n),
{
    if n < 0 {
        lemma_decimal_nat((-n) as nat);
        assert(decimal(n).drop_first() == decimal_nat((-n) as nat));
    } else {
        lemma_decimal_nat(n as nat);
        assert(is_digit(decimal(n)[0]));
    }
}

/// The decimal notation of a number is made of digits and at most a minus sign.
pub proof fn lemma_decimal_chars(n: int, i: int)
    requires
        0 <= i < decimal(n).len(),
    ensures
        is_digit(decimal(n)[i]) || decimal(n)[i] == '-',
{
    if n < 0 {
        lemma_decimal_nat((-n) as nat);
        if i > 0 {
            assert(decimal(n)[i] == decimal_nat((-n) as nat)[i - 1]);
        }
    } else {
        lemma_decimal_nat(n as nat);
    }
}

/// A text that neither starts nor ends with white space is what trimming
/// leaves of it, whatever white space is put before and after it.
pub proof fn law_trim_leaves_the_middle(
    before: Seq<char>,
    middle: Seq<char>,
    after: Seq<char>,
)
    requires
        forall|i: int| 0 <= i < before.len() ==> is_white_space(#[trigger] before[i]),
        forall|i: int| 0 <= i < after.len() ==> is_white_space(#[trigger] after[i]),
        middle.len() > 0 ==> !is_white_space(middle[0]) && !is_white_space(
            middle[middle.len() - 1],
        ),
    ensures
        trim(before + middle + after) == middle,
{
    law_trim_ignores_padding(before, middle, after);
}

/// The characters that are white space, by their codes.
pub proof fn law_white_space_codes(c: char)
    ensures
        c as u32 <= 0x20 ==> (is_white_space(c) <==> c == ' ' || 9 <= c as u32 <= 13),
        0x21 <= c as u32 <= 0x7f ==> !is_white_space(c),
        c as u32 == 0x85 || c as u32 == 0xa0 || c as u32 == 0x3000 ==> is_white_space(c),
{
}

/// A text is found wherever it stands in another one, and only there; a text
/// begins with another one exactly if that is a prefix of it.
pub proof fn law_searching_finds_parts(before: Seq<char>, part: Seq<char>, after: Seq<char>)
    ensures
        occurs_at(before + part + after, part, before.len() as int),
        contains_text(before + part + after, part),
{
    let s = before + part + after;
    assert(s.subrange(before.len() as int, (before.len() + part.len()) as int) =~= part);
    assert(occurs_at(s, part, before.len() as int));
}

/// A text that is found in another one splits that in two.
pub proof fn law_what_is_found_is_there(s: Seq<char>, part: Seq<char>)
    ensures
        contains_text(s, part) ==> exists|before: Seq<char>, after: Seq<char>|
            s == #[trigger] (before + part + after),
        occurs_at(s, part, 0) <==> part.len() <= s.len() && s.take(part.len() as int) == part,
{
    if contains_text(s, part) {
        let i = choose|i: int| occurs_at(s, part, i);
        let before = s.take(i);
        let after = s.skip(i + part.len());
        assert(s =~= before + part + after);
    }
    if part.len() <= s.len() {
        assert(s.subrange(0, part.len() as int) =~= s.take(part.len() as int));
    }
}

/// Digits are the characters from 48 to 57. Appending one multiplies the
/// number by ten and adds the digit.
pub proof fn law_digits_count_by_tens(digits: Seq<char>, c: char)
    ensures
        is_digit(c) <==> 48 <= c as u32 <= 57,
        digits_value(Seq::empty()) == 0,
        is_digit(c) ==> digits_value(digits.push(c)) == 10 * digits_value(digits) + (c as u32 - 48),
{
    assert(digits.push(c).drop_last() == digits);
}

/// Digits read as the number that they denote, and so they do after a plus
/// sign. After a minus sign they read as the negative number, where one can
/// be.
pub proof fn law_digits_read_as_numbers(digits: Seq<char>)
    requires
        digits.len() > 0,
        forall|i: int| 0 <= i < digits.len() ==> '0' <= #[trigger] digits[i] <= '9',
    ensures
        parse_int(digits) == Some(digits_value(digits) as int),
        parse_nat(digits) == Some(digits_value(digits) as int),
        parse_int(seq!['+'] + digits) == Some(digits_value(digits) as int),
        parse_nat(seq!['+'] + digits) == Some(digits_value(digits) as int),
        parse_int(seq!['-'] + digits) == Some(-(digits_value(digits) as int)),
        parse_nat(seq!['-'] + digits) is None,
{
    assert((seq!['+'] + digits).drop_first() =~= digits);
    assert((seq!['-'] + digits).drop_first() =~= digits);
    let signed = seq!['-'] + digits;
    assert(signed[0] == '-');
    assert(!is_digit(signed[0]));
    assert(is_digit(digits[0]));
}

/// A text is no number if it is empty, is a sign alone, or holds anything but
/// digits after its first character, or anything but a digit or a sign there.
pub proof fn law_other_texts_are_no_numbers(s: Seq<char>, i: int)
    requires
        s.len() == 0 || (s.len() == 1 && !is_digit(s[0])) || (0 < i < s.len() && !is_digit(s[i]))
            || (i == 0 && !is_digit(s[0]) && s[0] != '+' && s[0] != '-'),
    ensures
        parse_int(s) is None,
        parse_nat(s) is None,
{
    if s.len() > 0 {
        let rest = s.drop_first();
        if 0 < i < s.len() {
            assert(rest[i - 1] == s[i]);
        }
    }
}

/// A text reads as a machine number exactly if it reads as that number and the
/// number fits.
pub proof fn law_machine_numbers(s: Seq<char>, n: i32, m: u64)
    ensures
        i32_of(s) == Some(n) <==> parse_int(s) == Some(n as int),
        u64_of(s) == Some(m) <==> parse_nat(s) == Some(m as int),
{
}

/// Two words name the truth values, and no other text does.
pub proof fn law_truth_values(s: Seq<char>)
    ensures
        bool_of(s) == Some(true) <==> s == "true"@,
        bool_of(s) == Some(false) <==> s == "false"@,
{
    reveal_strlit("true");
    reveal_strlit("false");
    assert("true"@.len() != "false"@.len());
}

/// Decimal notation is made digit by digit: the notation of ten times a number
/// and a digit is that of the number, then the digit.
pub proof fn law_decimal_digit_by_digit(n: nat, d: nat)
    requires
        d < 10,
    ensures
        decimal(d as int) == seq![(48 + d) as char],
        n > 0 ==> decimal((10 * n + d) as int) == decimal(n as int).push((48 + d) as char),
        n > 0 ==> decimal(-(n as int)) == seq!['-'] + decimal(n as int),
{
    assert((10 * n + d) / 10 == n);
    assert((10 * n + d) % 10 == d);
}

/// Of a text in ASCII, the letters from A to Z change, each to the one 32
/// places on, and nothing else does.
pub proof fn law_lower_case(s: Seq<char>, i: int)
    requires
        forall|j: int| 0 <= j < s.len() ==> (#[trigger] s[j]) as u32 <= 127,
        0 <= i < s.len(),
    ensures
        lower(s).len() == s.len(),
        65 <= s[i] as u32 <= 90 ==> lower(s)[i] as u32 == s[i] as u32 + 32,
        !(65 <= s[i] as u32 <= 90) ==> lower(s)[i] == s[i],
{
    assert(all_ascii(s));
}

/// A text that is not all ASCII is lowered by the case mapping of Unicode.
pub proof fn law_lower_case_beyond_ascii(s: Seq<char>, i: int)
    requires
        0 <= i < s.len(),
        s[i] as u32 >= 128,
    ensures
        lower(s) == unicode_lower(s),
{
    assert(!all_ascii(s));
}

/// `s` is a number in its parts: a sign, digits before the point, the point,
/// digits after it, and an exponent. A part may be missing, but there are
/// digits, and none after the point where there is no point.
pub open spec fn spells_number(
    s: Seq<char>,
    sign: Seq<char>,
    whole: Seq<char>,
    point: Seq<char>,
    rest: Seq<char>,
    exponent: Seq<char>,
) -> bool {
    &&& s == sign + whole + point + rest + exponent
    &&& sign.len() == 0 || sign == seq!['+'] || sign == seq!['-']
    &&& forall|i: int| 0 <= i < whole.len() ==> '0' <= #[trigger] whole[i] <= '9'
    &&& point.len() == 0 && rest.len() == 0 || point == seq!['.']
    &&& forall|i: int| 0 <= i < rest.len() ==> '0' <= #[trigger] rest[i] <= '9'
    &&& whole.len() + rest.len() > 0
    &&& exponent.len() == 0 || spells_exponent(exponent)
}

/// `s` is the letter E, an optional sign, and digits.
pub open spec fn spells_exponent(s: Seq<char>) -> bool {
    let first: int = if s.len() > 1 && (s[1] == '+' || s[1] == '-') {
        2
    } else {
        1
    };
    &&& s.len() > first
    &&& s[0] == 'e' || s[0] == 'E'
    &&& forall|i: int| first <= i < s.len() ==> '0' <= #[trigger] s[i] <= '9'
}

/// `s` is a word for what is not finite, in any mixture of upper and lower
/// case, after an optional sign.
pub open spec fn spells_word(s: Seq<char>, sign: Seq<char>, word: Seq<char>) -> bool {
    &&& s == sign + word
    &&& sign.len() == 0 || sign == seq!['+'] || sign == seq!['-']
    &&& lower(word) == "inf"@ || lower(word) == "infinity"@ || lower(word) == "nan"@
    &&& forall|i: int| 0 <= i < word.len() ==> (#[trigger] word[i]) as u32 <= 127
}

proof fn lemma_exponent(s: Seq<char>)
    requires
        s.len() > 0,
        s[0] == 'e' || s[0] == 'E',
    ensures
        spells_exponent(s) <==> parse_digits_spec(unsigned(s.skip(1))) is Some,
{
    let tail = s.skip(1);
    let digits = unsigned(tail);
    let first: int = if s.len() > 1 && (s[1] == '+' || s[1] == '-') {
        2
    } else {
        1
    };
    assert(digits =~= s.skip(first));
    if spells_exponent(s) {
        assert forall|i: int| 0 <= i < digits.len() implies is_digit(#[trigger] digits[i]) by {
            assert(digits[i] == s[first + i]);
        }
    }
    if parse_digits_spec(digits) is Some {
        assert forall|i: int| first <= i < s.len() implies '0' <= #[trigger] s[i] <= '9' by {
            assert(is_digit(digits[i - first]));
            assert(digits[i - first] == s[i]);
        }
    }
}

/// Everything that is a number in its parts denotes a floating-point number.
pub proof fn law_spelt_numbers_are_fractions(
    s: Seq<char>,
    sign: Seq<char>,
    whole: Seq<char>,
    point: Seq<char>,
    rest: Seq<char>,
    exponent: Seq<char>,
)
    requires
        spells_number(s, sign, whole, point, rest, exponent),
    ensures
        is_fraction(s),
{
    let number = whole + point + rest + exponent;
    assert(s =~= sign + number);
    if sign.len() == 0 {
        assert(s =~= number);
        if whole.len() > 0 {
            assert(number[0] == whole[0]);
        } else {
            assert(number[0] == '.');
        }
        assert(unsigned(s) == number);
    } else {
        assert(s.first() == sign[0]);
        assert(s.drop_first() =~= number);
        assert(unsigned(s) == number);
    }
    let mantissa = whole + point + rest;
    let end = mantissa.len() as int;
    assert(number.take(end) =~= mantissa);
    if point.len() == 0 {
        assert(mantissa =~= whole);
        assert forall|i: int| 0 <= i < mantissa.len() implies is_digit(#[trigger] mantissa[i]) by {
            assert(mantissa[i] == whole[i]);
        }
    } else {
        let p = whole.len() as int;
        assert(mantissa[p] == '.');
        assert(mantissa.take(p) =~= whole);
        assert(mantissa.skip(p + 1) =~= rest);
    }
    assert(is_mantissa(mantissa));
    if end < number.len() {
        assert(number[end] == exponent[0]);
        lemma_exponent(exponent);
        assert(number.skip(end + 1) =~= exponent.skip(1));
    }
    assert(is_mantissa_up_to(number, end));
}

/// Each of the words denotes a floating-point number.
pub proof fn law_words_are_fractions(s: Seq<char>, sign: Seq<char>, word: Seq<char>)
    requires
        spells_word(s, sign, word),
    ensures
        is_fraction(s),
{
    reveal_strlit("inf");
    reveal_strlit("infinity");
    reveal_strlit("nan");
    assert(all_ascii(word));
    assert(forall|i: int| 0 <= i < word.len() ==> #[trigger] lower(word)[i] == ascii_lower(word[i]));
    let target = lower(word);
    assert(word.len() == target.len());
    assert(word.len() > 0);
    assert(ascii_lower(word[0]) == target[0]);
    assert(word[0] != '+' && word[0] != '-');
    if sign.len() == 0 {
        assert(s =~= word);
    } else {
        assert(s.first() == sign[0]);
        assert(s.drop_first() =~= word);
    }
    assert(unsigned(s) == word);
    assert(reads_in_any_case(word, target)) by {
        assert forall|i: int| 0 <= i < word.len() implies ascii_lower(#[trigger] word[i])
            == target[i] by {
            assert(lower(word)[i] == ascii_lower(word[i]));
        }
    }
}

proof fn lemma_any_case_is_ascii(s: Seq<char>, word: Seq<char>)
    requires
        reads_in_any_case(s, word),
        all_ascii(word),
    ensures
        all_ascii(s),
        lower(s) == word,
{
    assert forall|i: int| 0 <= i < s.len() implies (#[trigger] s[i]) as u32 <= 0x7f by {
        assert(ascii_lower(s[i]) == word[i]);
        assert(word[i] as u32 <= 0x7f);
    }
    assert(lower(s) =~= word);
}

proof fn lemma_mantissa_is_spelt(s: Seq<char>, sign: Seq<char>, number: Seq<char>, end: int)
    requires
        s == sign + number,
        sign.len() == 0 || sign == seq!['+'] || sign == seq!['-'],
        is_mantissa_up_to(number, end),
    ensures
        exists|whole: Seq<char>, point: Seq<char>, rest: Seq<char>, exponent: Seq<char>|
            spells_number(s, sign, whole, point, rest, exponent),
{
    let mantissa = number.take(end);
    let exponent = number.skip(end);
    if end < number.len() {
        assert(exponent[0] == number[end]);
        assert(exponent.skip(1) =~= number.skip(end + 1));
        lemma_exponent(exponent);
    }
    if all_digits(mantissa) {
        let none = Seq::<char>::empty();
        assert(s =~= sign + mantissa + none + none + exponent);
        assert forall|i: int| 0 <= i < mantissa.len() implies '0' <= #[trigger] mantissa[i]
            <= '9' by {
            assert(is_digit(mantissa[i]));
        }
        assert(spells_number(s, sign, mantissa, none, none, exponent));
    } else {
        let p = choose|p: int|
            0 <= p < mantissa.len() && #[trigger] mantissa[p] == '.' && all_digits(mantissa.take(p))
                && all_digits(mantissa.skip(p + 1));
        let whole = mantissa.take(p);
        let rest = mantissa.skip(p + 1);
        assert(mantissa =~= whole + seq!['.'] + rest);
        assert(s =~= sign + whole + seq!['.'] + rest + exponent);
        assert forall|i: int| 0 <= i < whole.len() implies '0' <= #[trigger] whole[i] <= '9' by {
            assert(is_digit(whole[i]));
        }
        assert forall|i: int| 0 <= i < rest.len() implies '0' <= #[trigger] rest[i] <= '9' by {
            assert(is_digit(rest[i]));
        }
        assert(spells_number(s, sign, whole, seq!['.'], rest, exponent));
    }
}

/// A floating-point number is a number in its parts, or one of the words.
pub proof fn law_fractions_are_spelt(s: Seq<char>)
    requires
        is_fraction(s),
    ensures
        (exists|sign: Seq<char>, word: Seq<char>| spells_word(s, sign, word)) || (exists|
            sign: Seq<char>,
            whole: Seq<char>,
            point: Seq<char>,
            rest: Seq<char>,
            exponent: Seq<char>,
        |
            spells_number(s, sign, whole, point, rest, exponent)),
{
    reveal_strlit("inf");
    reveal_strlit("infinity");
    reveal_strlit("nan");
    let number = unsigned(s);
    let sign = s.take(s.len() - number.len());
    assert(s =~= sign + number);
    if s.len() > number.len() {
        assert(sign =~= seq![s.first()]);
    }
    if reads_in_any_case(number, "inf"@) {
        lemma_any_case_is_ascii(number, "inf"@);
        assert(spells_word(s, sign, number));
    } else if reads_in_any_case(number, "infinity"@) {
        lemma_any_case_is_ascii(number, "infinity"@);
        assert(spells_word(s, sign, number));
    } else if reads_in_any_case(number, "nan"@) {
        lemma_any_case_is_ascii(number, "nan"@);
        assert(spells_word(s, sign, number));
    } else {
        let end = choose|end: int| is_mantissa_up_to(number, end);
        lemma_mantissa_is_spelt(s, sign, number, end);
    }
}

/// Digits denote a floating-point number, with or without a point before,
/// among or after them, with or without a sign, and with or without an
/// exponent.
pub proof fn law_digits_with_a_point_are_fractions(
    whole: Seq<char>,
    rest: Seq<char>,
    exponent: Seq<char>,
    c: char,
)
    requires
        forall|i: int| 0 <= i < whole.len() ==> '0' <= #[trigger] whole[i] <= '9',
        forall|i: int| 0 <= i < rest.len() ==> '0' <= #[trigger] rest[i] <= '9',
        forall|i: int| 0 <= i < exponent.len() ==> '0' <= #[trigger] exponent[i] <= '9',
        whole.len() + rest.len() > 0,
        exponent.len() > 0,
        c == '+' || c == '-',
    ensures
        whole.len() > 0 ==> is_fraction(whole),
        is_fraction(whole + seq!['.'] + rest),
        is_fraction(seq![c] + whole + seq!['.'] + rest),
        is_fraction(whole + seq!['.'] + rest + (seq!['e'] + exponent)),
        is_fraction(whole + seq!['.'] + rest + (seq!['E', c] + exponent)),
{
    let none = Seq::<char>::empty();
    let point = seq!['.'];
    if whole.len() > 0 {
        assert(whole =~= none + whole + none + none + none);
        law_spelt_numbers_are_fractions(whole, none, whole, none, none, none);
    }
    let plain = whole + point + rest;
    assert(plain =~= none + whole + point + rest + none);
    law_spelt_numbers_are_fractions(plain, none, whole, point, rest, none);
    let signed = seq![c] + whole + point + rest;
    assert(signed =~= seq![c] + whole + point + rest + none);
    law_spelt_numbers_are_fractions(signed, seq![c], whole, point, rest, none);
    let small = seq!['e'] + exponent;
    assert forall|i: int| 1 <= i < small.len() implies '0' <= #[trigger] small[i] <= '9' by {
        assert(small[i] == exponent[i - 1]);
    }
    assert(small[1] == exponent[0]);
    assert(spells_exponent(small));
    let one = plain + small;
    assert(one =~= none + whole + point + rest + small);
    law_spelt_numbers_are_fractions(one, none, whole, point, rest, small);
    let large = seq!['E', c] + exponent;
    assert forall|i: int| 2 <= i < large.len() implies '0' <= #[trigger] large[i] <= '9' by {
        assert(large[i] == exponent[i - 2]);
    }
    assert(large[1] == c);
    assert(spells_exponent(large));
    let two = plain + large;
    assert(two =~= none + whole + point + rest + large);
    law_spelt_numbers_are_fractions(two, none, whole, point, rest, large);
}

} // verus!
