//! Character-sequence helpers shared by the providers, the scheduler and the
//! converter. Everything here is stated over `Seq<char>`, the view of `str`
//! and `String`.

use vstd::prelude::*;

verus! {

/// `needle` stands in `hay` at position `i`.
pub open spec fn occurs_at(hay: Seq<char>, needle: Seq<char>, i: int) -> bool {
    0 <= i && i + needle.len() <= hay.len() && hay.subrange(i, i + needle.len()) == needle
}

/// The first position at or after `start` where `needle` stands in `hay`.
pub open spec fn find_from(hay: Seq<char>, needle: Seq<char>, start: int) -> Option<int>
    decreases hay.len() - start,
{
    if start < 0 || start + needle.len() > hay.len() {
        None
    } else if occurs_at(hay, needle, start) {
        Some(start)
    } else if start >= hay.len() {
        None
    } else {
        find_from(hay, needle, start + 1)
    }
}

/// The first position where `needle` stands in `hay`.
pub open spec fn first_occurrence(hay: Seq<char>, needle: Seq<char>) -> Option<int> {
    find_from(hay, needle, 0)
}

/// `needle` stands somewhere in `hay`.
pub open spec fn contains_seq(hay: Seq<char>, needle: Seq<char>) -> bool {
    first_occurrence(hay, needle) is Some
}

/// What `find_from` returns is the least position from `start` on where
/// `needle` stands, and it returns `None` only where there is none.
pub proof fn lemma_find_from(hay: Seq<char>, needle: Seq<char>, start: int)
    requires
        0 <= start,
    ensures
        match find_from(hay, needle, start) {
            Some(i) => start <= i && occurs_at(hay, needle, i) && forall|j: int|
                start <= j < i ==> !occurs_at(hay, needle, j),
            None => forall|j: int| start <= j ==> !occurs_at(hay, needle, j),
        },
    decreases hay.len() - start,
{
    if start + needle.len() > hay.len() {
    } else if occurs_at(hay, needle, start) {
    } else if start >= hay.len() {
    } else {
        lemma_find_from(hay, needle, start + 1);
    }
}

/// A text holds another exactly where the other stands at some position.
pub proof fn lemma_contains_seq(hay: Seq<char>, needle: Seq<char>)
    ensures
        contains_seq(hay, needle) <==> exists|i: int| occurs_at(hay, needle, i),
{
    lemma_find_from(hay, needle, 0);
    if exists|i: int| occurs_at(hay, needle, i) {
        let i = choose|i: int| occurs_at(hay, needle, i);
        assert(0 <= i);
    }
}

/// The characters of `s`, in order.
pub fn chars_of(s: &str) -> (out: Vec<char>)
    ensures
        out@ == s@,
{
    let mut out: Vec<char> = Vec::new();
    for c in it: s.chars()
        invariant
            out.len() == it.index(),
            it.seq() == s@,
            forall|j: int| 0 <= j < out.len() ==> out@[j] == it.seq()[j],
    {
        out.push(c);
    }
    out
}

/// Appends one character to a string. Trusted: `String::push` of std adds the
/// character at the end and changes nothing else.
#[verifier::external_body]
fn push_char(s: &mut String, c: char)
    ensures
        final(s)@ == old(s)@.push(c),
{
    s.push(c);
}

/// The string made of `chars[from..to]`.
pub fn string_of_range(chars: &Vec<char>, from: usize, to: usize) -> (out: String)
    requires
        from <= to <= chars.len(),
    ensures
        out@ == chars@.subrange(from as int, to as int),
{
    let mut out = String::new();
    let mut i: usize = from;
    while i < to
        invariant
            from <= i <= to <= chars.len(),
            out@ == chars@.subrange(from as int, i as int),
        decreases to - i,
    {
        push_char(&mut out, chars[i]);
        i = i + 1;
    }
    out
}

/// The string made of `chars`.
pub fn string_of(chars: &Vec<char>) -> (out: String)
    ensures
        out@ == chars@,
{
    let out = string_of_range(chars, 0, chars.len());
    assert(chars@.subrange(0, chars.len() as int) == chars@);
    out
}

/// Whether `needle` stands in `hay` at position `at`.
pub fn matches_at(hay: &Vec<char>, needle: &Vec<char>, at: usize) -> (found: bool)
    ensures
        found == occurs_at(hay@, needle@, at as int),
{
    if needle.len() > hay.len() || at > hay.len() - needle.len() {
        return false;
    }
    let mut k: usize = 0;
    while k < needle.len()
        invariant
            k <= needle.len(),
            at + needle.len() <= hay.len(),
            forall|j: int| 0 <= j < k ==> hay@[at + j] == needle@[j],
        decreases needle.len() - k,
    {
        if hay[at + k] != needle[k] {
            assert(hay@.subrange(at as int, at + needle.len())[k as int] != needle@[k as int]);
            return false;
        }
        k = k + 1;
    }
    assert(hay@.subrange(at as int, at + needle.len()) =~= needle@);
    true
}

/// The first position at or after `start` where `needle` stands in `hay`.
pub fn find_at_or_after(hay: &Vec<char>, needle: &Vec<char>, start: usize) -> (found: Option<usize>)
    ensures
        match found {
            Some(i) => find_from(hay@, needle@, start as int) == Some(i as int),
            None => find_from(hay@, needle@, start as int) is None,
        },
{
    if needle.len() > hay.len() {
        return None;
    }
    let last: usize = hay.len() - needle.len();
    if start > last {
        return None;
    }
    let mut i: usize = start;
    loop
        invariant
            start <= i <= last,
            last == hay.len() - needle.len(),
            find_from(hay@, needle@, start as int) == find_from(hay@, needle@, i as int),
        decreases last - i,
    {
        if matches_at(hay, needle, i) {
            return Some(i);
        }
        if i == last {
            assert(i < hay.len() ==> find_from(hay@, needle@, i + 1) is None);
            return None;
        }
        i = i + 1;
    }
}

/// The first position where `needle` stands in `hay`: the least `i` with
/// `occurs_at(hay, needle, i)`, or `None` where there is none.
pub fn find(hay: &Vec<char>, needle: &Vec<char>) -> (found: Option<usize>)
    ensures
        match found {
            Some(i) => first_occurrence(hay@, needle@) == Some(i as int),
            None => first_occurrence(hay@, needle@) is None,
        },
        match found {
            Some(i) => occurs_at(hay@, needle@, i as int) && forall|j: int|
                0 <= j < i ==> !occurs_at(hay@, needle@, j),
            None => forall|j: int| !occurs_at(hay@, needle@, j),
        },
{
    proof {
        lemma_find_from(hay@, needle@, 0);
    }
    find_at_or_after(hay, needle, 0)
}

/// Whether `needle` stands somewhere in `hay`.
pub fn contains(hay: &str, needle: &str) -> (found: bool)
    ensures
        found == contains_seq(hay@, needle@),
{
    let h = chars_of(hay);
    let n = chars_of(needle);
    find(&h, &n).is_some()
}

/// Whether two strings hold the same characters.
pub fn same_text(a: &str, b: &str) -> (same: bool)
    ensures
        same == (a@ == b@),
{
    let x = chars_of(a);
    let y = chars_of(b);
    if x.len() != y.len() {
        return false;
    }
    let found = matches_at(&x, &y, 0);
    assert(x@.subrange(0, x.len() as int) == x@);
    found
}


/// What `str::split_once` gives: the text before the first occurrence of
/// `pattern` and the text after it.
pub open spec fn split_once_spec(hay: Seq<char>, pattern: Seq<char>) -> Option<
    (Seq<char>, Seq<char>),
> {
    match first_occurrence(hay, pattern) {
        Some(i) => Some((hay.take(i), hay.skip(i + pattern.len()))),
        None => None,
    }
}

/// Splits `hay` at the first occurrence of `pattern`.
pub fn split_once(hay: &Vec<char>, pattern: &Vec<char>) -> (parts: Option<(Vec<char>, Vec<char>)>)
    ensures
        match parts {
            Some((left, right)) => split_once_spec(hay@, pattern@) == Some((left@, right@)),
            None => split_once_spec(hay@, pattern@) is None,
        },
{
    match find(hay, pattern) {
        Some(i) => {
            assert(occurs_at(hay@, pattern@, i as int));
            let width: usize = pattern.len();
            assert(i + width <= hay.len());
            let left = copy_range(hay, 0, i);
            let right = copy_range(hay, i + width, hay.len());
            Some((left, right))
        },
        None => None,
    }
}

/// The characters `chars[from..to]`.
pub fn copy_range(chars: &Vec<char>, from: usize, to: usize) -> (out: Vec<char>)
    requires
        from <= to <= chars.len(),
    ensures
        out@ == chars@.subrange(from as int, to as int),
{
    let mut out: Vec<char> = Vec::new();
    let mut i: usize = from;
    while i < to
        invariant
            from <= i <= to <= chars.len(),
            out@ == chars@.subrange(from as int, i as int),
        decreases to - i,
    {
        out.push(chars[i]);
        i = i + 1;
    }
    out
}

/// The last position of `c` in `s`, or -1.
pub open spec fn last_index_of(s: Seq<char>, c: char) -> int
    decreases s.len(),
{
    if s.len() == 0 {
        -1
    } else if s.last() == c {
        s.len() - 1
    } else {
        last_index_of(s.drop_last(), c)
    }
}

/// `last_index_of` is the greatest position that holds `c`.
pub proof fn lemma_last_index_of(s: Seq<char>, c: char)
    ensures
        -1 <= last_index_of(s, c) < s.len(),
        last_index_of(s, c) >= 0 ==> s[last_index_of(s, c)] == c,
        forall|j: int| last_index_of(s, c) < j < s.len() ==> s[j] != c,
    decreases s.len(),
{
    if s.len() == 0 {
    } else if s.last() == c {
    } else {
        lemma_last_index_of(s.drop_last(), c);
        assert forall|j: int| last_index_of(s, c) < j < s.len() implies s[j] != c by {
            if j < s.len() - 1 {
                assert(s.drop_last()[j] == s[j]);
            }
        }
    }
}

/// The last position of `c` in `chars`.
pub fn rfind_char(chars: &Vec<char>, c: char) -> (found: Option<usize>)
    ensures
        match found {
            Some(i) => last_index_of(chars@, c) == i,
            None => last_index_of(chars@, c) == -1,
        },
{
    let mut n: usize = chars.len();
    assert(chars@.take(n as int) == chars@);
    while n > 0
        invariant
            n <= chars.len(),
            last_index_of(chars@, c) == last_index_of(chars@.take(n as int), c),
        decreases n,
    {
        if chars[n - 1] == c {
            return Some(n - 1);
        }
        assert(chars@.take(n as int).drop_last() == chars@.take(n - 1));
        n = n - 1;
    }
    proof {
        assert(chars@.take(chars.len() as int) == chars@);
    }
    None
}

/// The text after the last `c` in `s`, where `s` holds one.
pub open spec fn after_last(s: Seq<char>, c: char) -> Option<Seq<char>> {
    if last_index_of(s, c) >= 0 {
        Some(s.skip(last_index_of(s, c) + 1))
    } else {
        None
    }
}

/// The value of a decimal digit.
pub open spec fn digit_value(c: char) -> int {
    c as int - '0' as int
}

pub open spec fn is_digit(c: char) -> bool {
    '0' <= c <= '9'
}

/// The number that the digits `s` write, read from the left.
pub open spec fn digits_value(s: Seq<char>) -> int
    decreases s.len(),
{
    if s.len() == 0 {
        0
    } else {
        digits_value(s.drop_last()) * 10 + digit_value(s.last())
    }
}

/// Every character of `s` is a decimal digit.
pub open spec fn all_digits(s: Seq<char>) -> bool {
    forall|i: int| 0 <= i < s.len() ==> is_digit(#[trigger] s[i])
}

/// `s` without a leading `+`.
pub open spec fn without_plus(s: Seq<char>) -> Seq<char> {
    if s.len() > 0 && s[0] == '+' {
        s.skip(1)
    } else {
        s
    }
}

/// What `str::parse::<u64>` accepts and gives: an optional `+`, then one or
/// more decimal digits whose value fits in 64 bits.
pub open spec fn parse_u64_spec(s: Seq<char>) -> Option<u64> {
    let digits = without_plus(s);
    if digits.len() > 0 && all_digits(digits) && digits_value(digits) <= u64::MAX {
        Some(digits_value(digits) as u64)
    } else {
        None
    }
}

/// The value of digits never shrinks when more digits follow.
pub proof fn lemma_digits_value_grows(s: Seq<char>, n: int)
    requires
        0 <= n <= s.len(),
        all_digits(s),
    ensures
        0 <= digits_value(s.take(n)) <= digits_value(s),
    decreases s.len() - n,
{
    if n == s.len() {
        assert(s.take(n) == s);
        lemma_digits_nonnegative(s);
    } else {
        lemma_digits_value_grows(s, n + 1);
        assert(s.take(n + 1).drop_last() == s.take(n));
        lemma_digits_nonnegative(s.take(n));
    }
}

proof fn lemma_digits_nonnegative(s: Seq<char>)
    requires
        all_digits(s),
    ensures
        0 <= digits_value(s),
    decreases s.len(),
{
    if s.len() > 0 {
        lemma_digits_nonnegative(s.drop_last());
    }
}

/// Reads an unsigned decimal number as `str::parse::<u64>` does.
pub fn parse_u64(text: &Vec<char>) -> (parsed: Option<u64>)
    ensures
        parsed == parse_u64_spec(text@),
{
    let start: usize = if text.len() > 0 && text[0] == '+' {
        1
    } else {
        0
    };
    if start == text.len() {
        return None;
    }
    let ghost digits = without_plus(text@);
    assert(digits.take(0) == Seq::<char>::empty());
    let mut value: u64 = 0;
    let mut i: usize = start;
    while i < text.len()
        invariant
            start <= i <= text.len(),
            start <= 1,
            start == 1 <==> text@.len() > 0 && text@[0] == '+',
            digits == without_plus(text@),
            digits.len() == text.len() - start,
            forall|j: int| 0 <= j < digits.len() ==> digits[j] == text@[j + start],
            forall|j: int| 0 <= j < i - start ==> is_digit(#[trigger] digits[j]),
            value == digits_value(digits.take(i - start)),
        decreases text.len() - i,
    {
        let c = text[i];
        assert(digits[i - start] == c);
        if c < '0' || c > '9' {
            assert(!is_digit(digits[i - start]));
            return None;
        }
        let d: u64 = (c as u64) - ('0' as u64);
        assert(digits.take(i - start + 1).drop_last() == digits.take(i - start));
        if value > (u64::MAX - d) / 10 {
            proof {
                if all_digits(digits) {
                    lemma_digits_value_grows(digits, i - start + 1);
                }
            }
            return None;
        }
        value = value * 10 + d;
        i = i + 1;
    }
    assert(digits.take(i - start) == digits);
    Some(value)
}

/// The decimal digits of `n`, without leading zeros.
pub open spec fn decimal_spec(n: nat) -> Seq<char>
    decreases n,
{
    if n < 10 {
        seq![digit_char(n)]
    } else {
        decimal_spec(n / 10).push(digit_char(n % 10))
    }
}

/// The character of a digit's value.
pub open spec fn digit_char(d: nat) -> char {
    if d == 0 {
        '0'
    } else if d == 1 {
        '1'
    } else if d == 2 {
        '2'
    } else if d == 3 {
        '3'
    } else if d == 4 {
        '4'
    } else if d == 5 {
        '5'
    } else if d == 6 {
        '6'
    } else if d == 7 {
        '7'
    } else if d == 8 {
        '8'
    } else {
        '9'
    }
}

fn digit_of(d: u64) -> (c: char)
    requires
        d < 10,
    ensures
        c == digit_char(d as nat),
{
    if d == 0 {
        '0'
    } else if d == 1 {
        '1'
    } else if d == 2 {
        '2'
    } else if d == 3 {
        '3'
    } else if d == 4 {
        '4'
    } else if d == 5 {
        '5'
    } else if d == 6 {
        '6'
    } else if d == 7 {
        '7'
    } else if d == 8 {
        '8'
    } else {
        '9'
    }
}

/// Writes `n` in decimal, as `{}` formats an unsigned integer.
pub fn decimal(n: u64) -> (out: String)
    ensures
        out@ == decimal_spec(n as nat),
{
    let mut reversed: Vec<char> = Vec::new();
    let mut rest: u64 = n;
    while rest >= 10
        invariant
            decimal_spec(n as nat) == decimal_spec(rest as nat) + reversed@.reverse(),
        decreases rest,
    {
        let ghost before = reversed@;
        reversed.push(digit_of(rest % 10));
        assert(reversed@.reverse() == seq![digit_char((rest % 10) as nat)] + before.reverse());
        assert(decimal_spec(rest as nat) == decimal_spec((rest / 10) as nat).push(
            digit_char((rest % 10) as nat),
        ));
        assert(decimal_spec((rest / 10) as nat).push(digit_char((rest % 10) as nat))
            + before.reverse() == decimal_spec((rest / 10) as nat) + (seq![
            digit_char((rest % 10) as nat),
        ] + before.reverse()));
        rest = rest / 10;
    }
    let ghost before = reversed@;
    reversed.push(digit_of(rest));
    assert(reversed@.reverse() == seq![digit_char(rest as nat)] + before.reverse());
    assert(decimal_spec(n as nat) == reversed@.reverse());
    let mut out = String::new();
    let mut k: usize = reversed.len();
    while k > 0
        invariant
            k <= reversed.len(),
            out@ == reversed@.reverse().take(reversed.len() - k),
        decreases k,
    {
        push_char(&mut out, reversed[k - 1]);
        assert(reversed@.reverse().take(reversed.len() - k + 1) == reversed@.reverse().take(
            reversed.len() - k,
        ).push(reversed@[k - 1]));
        k = k - 1;
    }
    assert(reversed@.reverse().take(reversed.len() as int) == reversed@.reverse());
    out
}


/// The characters with the Unicode property `White_Space`: what
/// `char::is_whitespace` answers `true` for.
pub open spec fn is_whitespace(c: char) -> bool {
    let code = c as u32;
    ||| 0x09 <= code <= 0x0D
    ||| code == 0x20
    ||| code == 0x85
    ||| code == 0xA0
    ||| code == 0x1680
    ||| 0x2000 <= code <= 0x200A
    ||| code == 0x2028
    ||| code == 0x2029
    ||| code == 0x202F
    ||| code == 0x205F
    ||| code == 0x3000
}

/// Whether `c` is white space.
pub fn whitespace(c: char) -> (white: bool)
    ensures
        white == is_whitespace(c),
{
    let code: u32 = c as u32;
    (0x09 <= code && code <= 0x0D) || code == 0x20 || code == 0x85 || code == 0xA0 || code
        == 0x1680 || (0x2000 <= code && code <= 0x200A) || code == 0x2028 || code == 0x2029
        || code == 0x202F || code == 0x205F || code == 0x3000
}

/// Every character of `s` is white space.
pub open spec fn all_whitespace(s: Seq<char>) -> bool {
    forall|i: int| 0 <= i < s.len() ==> is_whitespace(#[trigger] s[i])
}

/// The number of white-space characters that `s` begins with.
pub open spec fn leading_whitespace(s: Seq<char>) -> int
    decreases s.len(),
{
    if s.len() == 0 || !is_whitespace(s[0]) {
        0
    } else {
        1 + leading_whitespace(s.skip(1))
    }
}

/// The number of white-space characters that `s` ends with.
pub open spec fn trailing_whitespace(s: Seq<char>) -> int
    decreases s.len(),
{
    if s.len() == 0 || !is_whitespace(s.last()) {
        0
    } else {
        1 + trailing_whitespace(s.drop_last())
    }
}

/// What `str::trim` gives: `s` without the white space at its start and end.
pub open spec fn trimmed(s: Seq<char>) -> Seq<char> {
    let from = leading_whitespace(s);
    let rest = s.skip(from);
    rest.take(rest.len() - trailing_whitespace(rest))
}

/// The white space that `s` begins with ends at the first character that is
/// none.
pub proof fn lemma_leading_whitespace(s: Seq<char>)
    ensures
        0 <= leading_whitespace(s) <= s.len(),
        forall|i: int| 0 <= i < leading_whitespace(s) ==> is_whitespace(#[trigger] s[i]),
        leading_whitespace(s) < s.len() ==> !is_whitespace(s[leading_whitespace(s)]),
    decreases s.len(),
{
    if s.len() == 0 || !is_whitespace(s[0]) {
    } else {
        lemma_leading_whitespace(s.skip(1));
        assert forall|i: int| 0 <= i < leading_whitespace(s) implies is_whitespace(
            #[trigger] s[i],
        ) by {
            if i > 0 {
                assert(s.skip(1)[i - 1] == s[i]);
            }
        }
        if leading_whitespace(s) < s.len() {
            assert(s.skip(1)[leading_whitespace(s) - 1] == s[leading_whitespace(s)]);
        }
    }
}

/// The white space that `s` ends with begins after the last character that is
/// none.
pub proof fn lemma_trailing_whitespace(s: Seq<char>)
    ensures
        0 <= trailing_whitespace(s) <= s.len(),
        forall|i: int|
            s.len() - trailing_whitespace(s) <= i < s.len() ==> is_whitespace(#[trigger] s[i]),
        trailing_whitespace(s) < s.len() ==> !is_whitespace(
            s[s.len() - trailing_whitespace(s) - 1],
        ),
    decreases s.len(),
{
    if s.len() == 0 || !is_whitespace(s.last()) {
    } else {
        lemma_trailing_whitespace(s.drop_last());
        assert forall|i: int| s.len() - trailing_whitespace(s) <= i < s.len() implies is_whitespace(
            #[trigger] s[i],
        ) by {
            if i < s.len() - 1 {
                assert(s.drop_last()[i] == s[i]);
            }
        }
        if trailing_whitespace(s) < s.len() {
            assert(s.drop_last()[s.len() - trailing_whitespace(s) - 1] == s[s.len()
                - trailing_whitespace(s) - 1]);
        }
    }
}

/// A text trims to nothing exactly where it is white space throughout.
pub proof fn lemma_trimmed_empty(s: Seq<char>)
    ensures
        trimmed(s).len() == 0 <==> all_whitespace(s),
{
    lemma_leading_whitespace(s);
    let from = leading_whitespace(s);
    let rest = s.skip(from);
    lemma_trailing_whitespace(rest);
    if from == s.len() {
    } else {
        assert(rest[0] == s[from]);
        assert(!is_whitespace(rest[0]));
        if trailing_whitespace(rest) == rest.len() {
            assert(is_whitespace(rest[0]));
        }
    }
}

/// `chars` without the white space at its start and end, as `str::trim` gives
/// it.
pub fn trim(chars: &Vec<char>) -> (out: Vec<char>)
    ensures
        out@ == trimmed(chars@),
{
    let mut from: usize = 0;
    assert(chars@.skip(0) == chars@);
    while from < chars.len() && whitespace(chars[from])
        invariant
            from <= chars.len(),
            leading_whitespace(chars@) == from + leading_whitespace(chars@.skip(from as int)),
        decreases chars.len() - from,
    {
        assert(chars@.skip(from as int).skip(1) == chars@.skip(from + 1));
        from = from + 1;
    }
    let ghost rest = chars@.skip(from as int);
    let mut to: usize = chars.len();
    assert(rest.take(to - from) == rest);
    while to > from && whitespace(chars[to - 1])
        invariant
            from <= to <= chars.len(),
            rest == chars@.skip(from as int),
            trailing_whitespace(rest) == (chars.len() - to) + trailing_whitespace(
                rest.take(to - from),
            ),
        decreases to,
    {
        assert(rest.take(to - from).last() == chars@[to - 1]);
        assert(rest.take(to - from).drop_last() == rest.take(to - 1 - from));
        to = to - 1;
    }
    assert(trailing_whitespace(rest.take(to - from)) == 0) by {
        if to > from {
            assert(rest.take(to - from).last() == chars@[to - 1]);
        }
    }
    let out = copy_range(chars, from, to);
    assert(chars@.subrange(from as int, to as int) == rest.take(to - from));
    out
}

/// Whether `s` is white space throughout: whether it trims to nothing.
pub fn is_blank(s: &str) -> (blank: bool)
    ensures
        blank == all_whitespace(s@),
        blank == (trimmed(s@).len() == 0),
{
    proof {
        lemma_trimmed_empty(s@);
    }
    let chars = chars_of(s);
    let mut i: usize = 0;
    while i < chars.len()
        invariant
            i <= chars.len(),
            chars@ == s@,
            trimmed(s@).len() == 0 <==> all_whitespace(s@),
            forall|k: int| 0 <= k < i ==> is_whitespace(#[trigger] chars@[k]),
        decreases chars.len() - i,
    {
        if !whitespace(chars[i]) {
            assert(!is_whitespace(s@[i as int]));
            return false;
        }
        i = i + 1;
    }
    true
}

/// The first position of `c` in `s`, or the length of `s` where it holds
/// none.
pub open spec fn index_of_char(s: Seq<char>, c: char) -> int
    decreases s.len(),
{
    if s.len() == 0 {
        0
    } else if s[0] == c {
        0
    } else {
        1 + index_of_char(s.skip(1), c)
    }
}

pub proof fn lemma_index_of_char(s: Seq<char>, c: char)
    ensures
        0 <= index_of_char(s, c) <= s.len(),
        forall|i: int| 0 <= i < index_of_char(s, c) ==> s[i] != c,
        index_of_char(s, c) < s.len() ==> s[index_of_char(s, c)] == c,
    decreases s.len(),
{
    if s.len() == 0 || s[0] == c {
    } else {
        lemma_index_of_char(s.skip(1), c);
        assert forall|i: int| 0 <= i < index_of_char(s, c) implies s[i] != c by {
            if i > 0 {
                assert(s.skip(1)[i - 1] == s[i]);
            }
        }
        if index_of_char(s, c) < s.len() {
            assert(s.skip(1)[index_of_char(s, c) - 1] == s[index_of_char(s, c)]);
        }
    }
}

/// The pieces that `str::split` gives for a single character: the texts
/// between the occurrences of `c`, empty ones too; one more than there are
/// occurrences.
pub open spec fn split_spec(s: Seq<char>, c: char) -> Seq<Seq<char>>
    decreases s.len(),
{
    let at = index_of_char(s, c);
    if at < 0 || at >= s.len() {
        seq![s]
    } else {
        seq![s.take(at)] + split_spec(s.skip(at + 1), c)
    }
}

/// Splits `chars` at each occurrence of `c`, as `str::split` does.
pub fn split(chars: &Vec<char>, c: char) -> (pieces: Vec<Vec<char>>)
    ensures
        pieces@.len() == split_spec(chars@, c).len(),
        forall|k: int| 0 <= k < pieces@.len() ==> (#[trigger] pieces@[k])@ == split_spec(chars@, c)[k],
{
    let mut pieces: Vec<Vec<char>> = Vec::new();
    let mut start: usize = 0;
    let mut i: usize = 0;
    let ghost mut done: Seq<Seq<char>> = Seq::empty();
    proof {
        assert(chars@.skip(0) == chars@);
        lemma_index_of_char(chars@.skip(0), c);
    }
    while i < chars.len()
        invariant
            start <= i <= chars.len(),
            pieces@.len() == done.len(),
            forall|k: int| 0 <= k < pieces@.len() ==> (#[trigger] pieces@[k])@ == done[k],
            split_spec(chars@, c) == done + split_spec(chars@.skip(start as int), c),
            forall|k: int| start <= k < i ==> chars@[k] != c,
        decreases chars.len() - i,
    {
        if chars[i] == c {
            let piece = copy_range(chars, start, i);
            proof {
                let rest = chars@.skip(start as int);
                lemma_index_of_char(rest, c);
                let at = index_of_char(rest, c);
                assert(rest[i - start] == c);
                if at < i - start {
                    assert(rest[at] == chars@[start + at]);
                }
                assert(at == i - start);
                assert(rest.take(at) == chars@.subrange(start as int, i as int));
                assert(rest.skip(at + 1) == chars@.skip(i + 1));
                assert(done + (seq![rest.take(at)] + split_spec(chars@.skip(i + 1), c)) == done.push(
                    rest.take(at),
                ) + split_spec(chars@.skip(i + 1), c));
                done = done.push(piece@);
            }
            pieces.push(piece);
            start = i + 1;
        }
        i = i + 1;
    }
    let piece = copy_range(chars, start, chars.len());
    proof {
        let rest = chars@.skip(start as int);
        lemma_index_of_char(rest, c);
        let at = index_of_char(rest, c);
        if at < rest.len() {
            assert(rest[at] == chars@[start + at]);
        }
        assert(rest == chars@.subrange(start as int, chars.len() as int));
        assert(split_spec(chars@, c) == done.push(piece@));
    }
    pieces.push(piece);
    pieces
}

/// The lower-case form of a text, as `str::to_lowercase` gives it.
pub uninterp spec fn lowercased(s: Seq<char>) -> Seq<char>;

/// The lower-case form of `s`. Trusted: `str::to_lowercase` of std, which
/// gives the lower-case equivalent of a text by the Unicode property
/// `Lowercase` and depends on nothing but the text.
#[verifier::external_body]
pub(crate) fn to_lowercase(s: &str) -> (lower: String)
    ensures
        lower@ == lowercased(s@),
{
    s.to_lowercase()
}

/// Whether the lower-case form of `s` holds `token`.
pub fn mentions(s: &str, token: &str) -> (found: bool)
    ensures
        found == contains_seq(lowercased(s@), token@),
{
    let lower = to_lowercase(s);
    contains(lower.as_str(), token)
}

} // verus!
