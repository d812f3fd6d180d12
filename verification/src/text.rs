//! Text as sequences of characters: prefixes, suffixes and what a text
//! holds, the parts of a text between separators, and unsigned decimal
//! numbers read and written.

use vstd::prelude::*;

verus! {

/// The text of an optional string.
pub open spec fn optional_text(o: Option<String>) -> Option<Seq<char>> {
    match o {
        Some(s) => Some(s@),
        None => None,
    }
}

/// The text behind an optional reference.
pub open spec fn optional_str(o: Option<&str>) -> Option<Seq<char>> {
    match o {
        Some(s) => Some(s@),
        None => None,
    }
}

/// `String::push` of std: the string grows by exactly the character `c`.
#[verifier::external_body]
pub(crate) fn push_char(s: &mut String, c: char)
    ensures
        final(s)@ == old(s)@.push(c),
{
    s.push(c);
}

/// The characters of `s`, in order.
pub fn chars_of(s: &str) -> (r: Vec<char>)
    ensures
        r@ == s@,
{
    let mut v: Vec<char> = Vec::new();
    for c in it: s.chars()
        invariant
            v@ == s@.take(it.index() as int),
            it.seq() == s@,
    {
        v.push(c);
    }
    v
}

/// The string made of `chars[from..to]`.
pub fn string_of(chars: &Vec<char>, from: usize, to: usize) -> (r: String)
    requires
        from <= to <= chars@.len(),
    ensures
        r@ == chars@.subrange(from as int, to as int),
{
    let mut out = String::new();
    let mut i: usize = from;
    while i < to
        invariant
            from <= i <= to <= chars@.len(),
            out@ == chars@.subrange(from as int, i as int),
        decreases to - i,
    {
        push_char(&mut out, chars[i]);
        i = i + 1;
    }
    out
}

/// Whether `s` begins with `prefix`.
pub open spec fn starts_with(s: Seq<char>, prefix: Seq<char>) -> bool {
    prefix.len() <= s.len() && s.subrange(0, prefix.len() as int) == prefix
}

/// Whether `s` ends with `suffix`.
pub open spec fn ends_with(s: Seq<char>, suffix: Seq<char>) -> bool {
    suffix.len() <= s.len() && s.subrange(s.len() - suffix.len(), s.len() as int) == suffix
}

/// Whether `text[at..]` begins with `pattern`.
pub open spec fn matches_at(text: Seq<char>, at: int, pattern: Seq<char>) -> bool {
    0 <= at && at + pattern.len() <= text.len() && text.subrange(at, at + pattern.len())
        == pattern
}

/// Decides `matches_at` by comparing character by character.
pub fn has_at(text: &Vec<char>, at: usize, pattern: &Vec<char>) -> (r: bool)
    ensures
        r == matches_at(text@, at as int, pattern@),
{
    if at > text.len() || pattern.len() > text.len() - at {
        return false;
    }
    let mut i: usize = 0;
    while i < pattern.len()
        invariant
            at + pattern@.len() <= text@.len() <= usize::MAX,
            i <= pattern@.len(),
            forall|j: int| 0 <= j < i ==> text@[at + j] == pattern@[j],
        decreases pattern@.len() - i,
    {
        if text[at + i] != pattern[i] {
            assert(text@.subrange(at as int, at + pattern@.len())[i as int] != pattern@[i as int]);
            return false;
        }
        i = i + 1;
    }
    assert(text@.subrange(at as int, at + pattern@.len()) =~= pattern@);
    true
}

/// Decides `starts_with`.
pub fn str_starts_with(s: &str, prefix: &str) -> (r: bool)
    ensures
        r == starts_with(s@, prefix@),
{
    let text = chars_of(s);
    let pattern = chars_of(prefix);
    has_at(&text, 0, &pattern)
}

/// Decides `ends_with`.
pub fn str_ends_with(s: &str, suffix: &str) -> (r: bool)
    ensures
        r == ends_with(s@, suffix@),
{
    let text = chars_of(s);
    let pattern = chars_of(suffix);
    if pattern.len() > text.len() {
        return false;
    }
    has_at(&text, text.len() - pattern.len(), &pattern)
}

/// Decides whether two strings hold the same characters.
pub fn str_equal(a: &str, b: &str) -> (r: bool)
    ensures
        r == (a@ == b@),
{
    let x = chars_of(a);
    let y = chars_of(b);
    if x.len() != y.len() {
        return false;
    }
    let r = has_at(&x, 0, &y);
    assert(x@.subrange(0, x@.len() as int) =~= x@);
    r
}

/// The position of the first `c` in `s`, or the length of `s` where there is none.
pub open spec fn first_index_of(s: Seq<char>, c: char) -> int
    decreases s.len(),
{
    if s.len() == 0 || s[0] == c {
        0
    } else {
        1 + first_index_of(s.drop_first(), c)
    }
}

/// `first_index_of` stays within the sequence, stops on `c`, and skips nothing equal to `c`.
pub proof fn lemma_first_index_of(s: Seq<char>, c: char)
    ensures
        0 <= first_index_of(s, c) <= s.len(),
        first_index_of(s, c) < s.len() ==> s[first_index_of(s, c)] == c,
        forall|i: int| 0 <= i < first_index_of(s, c) ==> s[i] != c,
    decreases s.len(),
{
    if s.len() == 0 || s[0] == c {
    } else {
        let rest = s.drop_first();
        lemma_first_index_of(rest, c);
        assert forall|i: int| 0 <= i < first_index_of(s, c) implies s[i] != c by {
            if i > 0 {
                assert(s[i] == rest[i - 1]);
            }
        }
    }
}

/// A position is `first_index_of` when it is the first to hold `c`, or the end.
pub proof fn lemma_first_index_is(s: Seq<char>, c: char, at: int)
    requires
        0 <= at <= s.len(),
        at < s.len() ==> s[at] == c,
        forall|i: int| 0 <= i < at ==> s[i] != c,
    ensures
        first_index_of(s, c) == at,
{
    lemma_first_index_of(s, c);
}

/// What `str::split(' ')` yields first: the text before the first space.
pub open spec fn first_word(s: Seq<char>) -> Seq<char> {
    s.subrange(0, first_index_of(s, ' '))
}

/// Whether `c` is one of the ten ASCII digits.
pub open spec fn is_digit(c: char) -> bool {
    '0' <= c && c <= '9'
}

/// The number that the digit `c` stands for.
pub open spec fn digit_value(c: char) -> int {
    c as int - '0' as int
}

/// Whether every character of `s` is an ASCII digit.
pub open spec fn all_digits(s: Seq<char>) -> bool {
    forall|i: int| 0 <= i < s.len() ==> is_digit(#[trigger] s[i])
}

/// The number written by the digits `s`, most significant first.
pub open spec fn digits_value(s: Seq<char>) -> int
    decreases s.len(),
{
    if s.len() == 0 {
        0
    } else {
        digits_value(s.drop_last()) * 10 + digit_value(s.last())
    }
}

/// The digits of a number: what is left of `s` once one leading `+` is dropped.
pub open spec fn unsigned_digits(s: Seq<char>) -> Seq<char> {
    if s.len() > 0 && s[0] == '+' {
        s.drop_first()
    } else {
        s
    }
}

/// The unsigned decimal number that `s` writes, where it is at most `max`:
/// an optional `+`, then one or more ASCII digits and nothing else.
pub open spec fn parse_decimal(s: Seq<char>, max: int) -> Option<int> {
    let digits = unsigned_digits(s);
    if digits.len() > 0 && all_digits(digits) && digits_value(digits) <= max {
        Some(digits_value(digits))
    } else {
        None
    }
}

/// A run of digits is worth at least as much as any shorter run it begins with.
pub proof fn lemma_digits_value_grows(s: Seq<char>, k: int)
    requires
        all_digits(s),
        0 <= k <= s.len(),
    ensures
        0 <= digits_value(s.take(k)) <= digits_value(s),
    decreases s.len() - k,
{
    if k == s.len() {
        assert(s.take(k) =~= s);
        lemma_digits_value_nonnegative(s);
    } else {
        lemma_digits_value_grows(s, k + 1);
        let longer = s.take(k + 1);
        assert(longer.drop_last() =~= s.take(k));
        assert(is_digit(s[k]));
        assert(longer.last() == s[k]);
    }
}

/// A run of digits is never worth less than zero.
pub proof fn lemma_digits_value_nonnegative(s: Seq<char>)
    requires
        all_digits(s),
    ensures
        0 <= digits_value(s),
    decreases s.len(),
{
    if s.len() > 0 {
        let shorter = s.drop_last();
        assert forall|i: int| 0 <= i < shorter.len() implies is_digit(#[trigger] shorter[i]) by {
            assert(shorter[i] == s[i]);
        }
        lemma_digits_value_nonnegative(shorter);
        assert(is_digit(s[s.len() - 1]));
    }
}

/// Reads `chars[from..]` as an unsigned decimal number of at most 64 bits.
pub fn parse_u64_chars(chars: &Vec<char>, from: usize, max: u64) -> (r: Option<u64>)
    requires
        from <= chars@.len(),
    ensures
        match r {
            Some(v) => parse_decimal(chars@.subrange(from as int, chars@.len() as int), max as int)
                == Some(v as int),
            None => parse_decimal(chars@.subrange(from as int, chars@.len() as int), max as int)
                is None,
        },
{
    let ghost s = chars@.subrange(from as int, chars@.len() as int);
    let mut start: usize = from;
    if start < chars.len() && chars[start] == '+' {
        start = start + 1;
    }
    let ghost digits = unsigned_digits(s);
    assert(digits =~= chars@.subrange(start as int, chars@.len() as int));
    if start == chars.len() {
        return None;
    }
    let mut acc: u64 = 0;
    let mut i: usize = start;
    while i < chars.len()
        invariant
            start <= i <= chars@.len(),
            s == chars@.subrange(from as int, chars@.len() as int),
            digits == unsigned_digits(s),
            digits == chars@.subrange(start as int, chars@.len() as int),
            all_digits(digits.take(i - start)),
            acc == digits_value(digits.take(i - start)),
            acc <= max,
        decreases chars@.len() - i,
    {
        let c = chars[i];
        let ghost before = digits.take(i - start);
        let ghost after = digits.take(i - start + 1);
        assert(after.drop_last() =~= before);
        assert(after.last() == c);
        if !(c >= '0' && c <= '9') {
            assert(!is_digit(digits[i - start]));
            return None;
        }
        let d: u64 = (c as u32 - '0' as u32) as u64;
        assert(d == digit_value(c));
        assert forall|j: int| 0 <= j < after.len() implies is_digit(#[trigger] after[j]) by {
            if j < before.len() {
                assert(after[j] == before[j]);
            }
        }
        if d > max || acc > (max - d) / 10 {
            proof {
                assert(digits_value(after) == acc * 10 + d);
                assert(digits_value(after) > max);
                if all_digits(digits) {
                    lemma_digits_value_grows(digits, i - start + 1);
                }
            }
            return None;
        }
        acc = acc * 10 + d;
        i = i + 1;
    }
    assert(digits.take(i - start) =~= digits);
    Some(acc)
}

/// Reads `s` as a `usize`, as `str::parse` does.
pub fn parse_usize(s: &str) -> (r: Option<usize>)
    ensures
        match r {
            Some(v) => parse_decimal(s@, usize::MAX as int) == Some(v as int),
            None => parse_decimal(s@, usize::MAX as int) is None,
        },
{
    let chars = chars_of(s);
    assert(chars@.subrange(0, chars@.len() as int) =~= s@);
    match parse_u64_chars(&chars, 0, usize::MAX as u64) {
        Some(v) => Some(v as usize),
        None => None,
    }
}

/// Reads `s` as a `u64`, as `str::parse` does.
pub fn parse_u64(s: &str) -> (r: Option<u64>)
    ensures
        match r {
            Some(v) => parse_decimal(s@, u64::MAX as int) == Some(v as int),
            None => parse_decimal(s@, u64::MAX as int) is None,
        },
{
    let chars = chars_of(s);
    assert(chars@.subrange(0, chars@.len() as int) =~= s@);
    parse_u64_chars(&chars, 0, u64::MAX)
}

/// Reads `s` as a `u32`, as `str::parse` does.
pub fn parse_u32(s: &str) -> (r: Option<u32>)
    ensures
        match r {
            Some(v) => parse_decimal(s@, u32::MAX as int) == Some(v as int),
            None => parse_decimal(s@, u32::MAX as int) is None,
        },
{
    let chars = chars_of(s);
    assert(chars@.subrange(0, chars@.len() as int) =~= s@);
    match parse_u64_chars(&chars, 0, u32::MAX as u64) {
        Some(v) => Some(v as u32),
        None => None,
    }
}

/// Whether an empty line separates two blocks at `i`: two line feeds in a row.
pub open spec fn blank_line_at(s: Seq<char>, i: int) -> bool {
    0 <= i && i + 1 < s.len() && s[i] == '\n' && s[i + 1] == '\n'
}

/// The position of the first blank line of `s`, or the length of `s` where it has none.
pub open spec fn first_blank_line(s: Seq<char>) -> int
    decreases s.len(),
{
    if s.len() == 0 || blank_line_at(s, 0) {
        0
    } else {
        1 + first_blank_line(s.drop_first())
    }
}

/// What `str::split("\n\n")` yields: the blocks between blank lines, from
/// left to right, the empty ones too.
pub open spec fn split_blank(s: Seq<char>) -> Seq<Seq<char>>
    decreases s.len(),
{
    let at = first_blank_line(s);
    if 0 <= at && at + 1 < s.len() {
        seq![s.take(at)] + split_blank(s.skip(at + 2))
    } else {
        seq![s]
    }
}

/// A position is `first_blank_line` when it is the first blank line, or the end.
pub proof fn lemma_first_blank_line_is(s: Seq<char>, at: int)
    requires
        0 <= at <= s.len(),
        at < s.len() ==> blank_line_at(s, at),
        forall|i: int| 0 <= i < at ==> !blank_line_at(s, i),
    ensures
        first_blank_line(s) == at,
    decreases at,
{
    if at > 0 {
        let rest = s.drop_first();
        assert forall|i: int| 0 <= i < at - 1 implies !blank_line_at(rest, i) by {
            assert(!blank_line_at(s, i + 1));
        }
        if at < s.len() {
            assert(blank_line_at(s, at));
            assert(blank_line_at(rest, at - 1));
        }
        assert(!blank_line_at(s, 0));
        lemma_first_blank_line_is(rest, at - 1);
    }
}

/// Splits `text` at its blank lines, as `str::split("\n\n")` does.
pub fn split_blank_lines(text: &str) -> (blocks: Vec<String>)
    ensures
        blocks.deep_view() == split_blank(text@),
{
    let chars = chars_of(text);
    let len = chars.len();
    let mut blocks: Vec<String> = Vec::new();
    let mut start: usize = 0;
    let mut done = false;
    assert(chars@.skip(0) =~= text@);
    assert(blocks.deep_view() =~= Seq::<Seq<char>>::empty());
    while !done
        invariant
            len == chars@.len(),
            start <= len,
            !done ==> split_blank(text@) == blocks.deep_view() + split_blank(
                chars@.skip(start as int),
            ),
            done ==> split_blank(text@) == blocks.deep_view(),
        decreases len - start + (if done { 0int } else { 1int }),
    {
        let mut i: usize = start;
        while i < len && !(i + 1 < len && chars[i] == '\n' && chars[i + 1] == '\n')
            invariant
                len == chars@.len(),
                start <= i <= len,
                forall|j: int| start <= j < i ==> !blank_line_at(chars@, j),
            decreases len - i,
        {
            i = i + 1;
        }
        let ghost rest = chars@.skip(start as int);
        proof {
            assert forall|j: int| 0 <= j < i - start implies !blank_line_at(rest, j) by {
                assert(!blank_line_at(chars@, start + j));
            }
            if i < len {
                assert(blank_line_at(chars@, i as int));
                assert(blank_line_at(rest, i - start));
            }
            lemma_first_blank_line_is(rest, i - start);
        }
        let block = string_of(&chars, start, i);
        let ghost before = blocks.deep_view();
        assert(block@ =~= rest.take(i - start));
        blocks.push(block);
        assert(blocks.deep_view() =~= before.push(block@));
        if i < len {
            assert(rest.skip(i - start + 2) =~= chars@.skip(i + 2));
            assert(before.push(block@) + split_blank(chars@.skip(i + 2)) =~= before + (seq![
                block@,
            ] + split_blank(chars@.skip(i + 2))));
            start = i + 2;
        } else {
            assert(rest.take(i - start) =~= rest);
            assert(before.push(block@) =~= before + seq![rest]);
            done = true;
        }
    }
    blocks
}

/// What `str::split(sep)` yields: the parts between the occurrences of
/// `sep`, from left to right, the empty ones too.
pub open spec fn split_on(s: Seq<char>, sep: char) -> Seq<Seq<char>>
    decreases s.len(),
{
    let at = first_index_of(s, sep);
    if 0 <= at < s.len() {
        seq![s.take(at)] + split_on(s.skip(at + 1), sep)
    } else {
        seq![s]
    }
}

/// Splits `text` at every `sep`, as `str::split` does.
pub fn split_at_char(text: &str, sep: char) -> (parts: Vec<String>)
    ensures
        parts.deep_view() == split_on(text@, sep),
{
    let chars = chars_of(text);
    let len = chars.len();
    let mut parts: Vec<String> = Vec::new();
    let mut start: usize = 0;
    let mut done = false;
    assert(chars@.skip(0) =~= text@);
    assert(parts.deep_view() =~= Seq::<Seq<char>>::empty());
    while !done
        invariant
            len == chars@.len(),
            start <= len,
            !done ==> split_on(text@, sep) == parts.deep_view() + split_on(
                chars@.skip(start as int),
                sep,
            ),
            done ==> split_on(text@, sep) == parts.deep_view(),
        decreases len - start + (if done { 0int } else { 1int }),
    {
        let mut i: usize = start;
        while i < len && chars[i] != sep
            invariant
                len == chars@.len(),
                start <= i <= len,
                forall|j: int| start <= j < i ==> chars@[j] != sep,
            decreases len - i,
        {
            i = i + 1;
        }
        let ghost rest = chars@.skip(start as int);
        proof {
            lemma_first_index_is(rest, sep, i - start);
        }
        let part = string_of(&chars, start, i);
        let ghost before = parts.deep_view();
        assert(part@ =~= rest.take(i - start));
        parts.push(part);
        assert(parts.deep_view() =~= before.push(part@));
        if i < len {
            assert(rest.skip(i - start + 1) =~= chars@.skip(i + 1));
            assert(before.push(part@) + split_on(chars@.skip(i + 1), sep) =~= before + (seq![
                part@,
            ] + split_on(chars@.skip(i + 1), sep)));
            start = i + 1;
        } else {
            assert(rest.take(i - start) =~= rest);
            assert(before.push(part@) =~= before + seq![rest]);
            done = true;
        }
    }
    parts
}

/// The position of the last `c` in `s`, or -1 where there is none.
pub open spec fn last_index_of(s: Seq<char>, c: char) -> int
    decreases s.len(),
{
    if s.len() == 0 {
        -1
    } else if s.last() == c {
        s.len() - 1
    } else {
        last_index_of(s.drop_last(), c)
    }
}

/// A position is `last_index_of` when it is the last to hold `c`, or -1
/// when nothing holds `c`.
pub proof fn lemma_last_index_is(s: Seq<char>, c: char, at: int)
    requires
        -1 <= at < s.len(),
        at >= 0 ==> s[at] == c,
        forall|i: int| at < i < s.len() ==> s[i] != c,
    ensures
        last_index_of(s, c) == at,
    decreases s.len(),
{
    if s.len() > 0 && s.last() != c {
        lemma_last_index_is(s.drop_last(), c, at);
    }
}

/// What follows the last `c` in `s`; all of `s` where it holds no `c`.
pub open spec fn after_last(s: Seq<char>, c: char) -> Seq<char> {
    s.skip(last_index_of(s, c) + 1)
}

/// What follows the last `c` in `text`, and whether `text` holds a `c`.
pub fn split_after_last(text: &str, c: char) -> (r: (bool, String))
    ensures
        r.0 == (last_index_of(text@, c) >= 0),
        r.1@ == after_last(text@, c),
{
    let chars = chars_of(text);
    let mut i: usize = chars.len();
    while i > 0 && chars[i - 1] != c
        invariant
            i <= chars@.len(),
            forall|j: int| i <= j < chars@.len() ==> chars@[j] != c,
        decreases i,
    {
        i = i - 1;
    }
    proof {
        lemma_last_index_is(chars@, c, i - 1);
    }
    let rest = string_of(&chars, i, chars.len());
    assert(rest@ =~= after_last(text@, c));
    (i > 0, rest)
}

/// Whether `pattern` stands somewhere in `text`.
pub open spec fn contains_text(text: Seq<char>, pattern: Seq<char>) -> bool {
    exists|at: int| matches_at(text, at, pattern)
}

/// Decides `contains_text`.
pub fn str_contains(text: &str, pattern: &str) -> (r: bool)
    ensures
        r == contains_text(text@, pattern@),
{
    let chars = chars_of(text);
    let wanted = chars_of(pattern);
    let n = chars.len();
    let mut at: usize = 0;
    while at < n
        invariant
            at <= n,
            n == chars@.len(),
            chars@ == text@,
            wanted@ == pattern@,
            forall|i: int| 0 <= i < at ==> !matches_at(chars@, i, wanted@),
        decreases n - at,
    {
        if has_at(&chars, at, &wanted) {
            return true;
        }
        at = at + 1;
    }
    if has_at(&chars, n, &wanted) {
        return true;
    }
    assert forall|i: int| !matches_at(chars@, i, wanted@) by {
        if 0 <= i && i + wanted@.len() <= chars@.len() {
            assert(i <= n);
        }
    }
    false
}

/// The digit that stands for a number below ten.
pub open spec fn digit_char(d: int) -> char
    recommends
        0 <= d < 10,
{
    (d + '0' as int) as char
}

/// A number written in decimal digits, without leading zeros.
pub open spec fn decimal(n: nat) -> Seq<char>
    decreases n,
{
    if n < 10 {
        seq![digit_char(n as int)]
    } else {
        decimal(n / 10).push(digit_char((n % 10) as int))
    }
}

/// Writes a number in decimal digits.
pub fn decimal_string(n: u32) -> (r: String)
    ensures
        r@ == decimal(n as nat),
{
    let mut digits: Vec<char> = Vec::new();
    let mut rest: u32 = n;
    // The digits come out last one first.
    while rest >= 10
        invariant
            decimal(n as nat) == decimal(rest as nat) + digits@.reverse(),
        decreases rest,
    {
        let d = (rest % 10) as u8;
        let c = (d + 48u8) as char;
        assert(c == digit_char((rest % 10) as int));
        let ghost before = digits@;
        digits.push(c);
        assert(digits@.reverse() =~= seq![c] + before.reverse());
        assert(decimal(rest as nat) == decimal((rest / 10) as nat).push(c));
        assert(decimal((rest / 10) as nat).push(c) + before.reverse() =~= decimal(
            (rest / 10) as nat,
        ) + (seq![c] + before.reverse()));
        rest = rest / 10;
    }
    let first = ((rest as u8) + 48u8) as char;
    assert(first == digit_char(rest as int));
    let mut out = String::new();
    push_char(&mut out, first);
    let mut i: usize = digits.len();
    while i > 0
        invariant
            i <= digits@.len(),
            out@ == seq![first] + digits@.reverse().take(digits@.len() - i),
        decreases i,
    {
        i = i - 1;
        push_char(&mut out, digits[i]);
        assert(out@ =~= seq![first] + digits@.reverse().take(digits@.len() - i));
    }
    assert(digits@.reverse().take(digits@.len() as int) =~= digits@.reverse());
    out
}

/// The digits of a number are digits, and they write that number.
pub proof fn lemma_decimal_digits(n: nat)
    ensures
        decimal(n).len() > 0,
        all_digits(decimal(n)),
        digits_value(decimal(n)) == n,
    decreases n,
{
    if n < 10 {
        assert(decimal(n).drop_last() =~= Seq::<char>::empty());
        assert(digits_value(decimal(n).drop_last()) == 0);
    } else {
        lemma_decimal_digits(n / 10);
        let shorter = decimal(n / 10);
        let digits = decimal(n);
        assert(digits.drop_last() =~= shorter);
        assert forall|i: int| 0 <= i < digits.len() implies is_digit(#[trigger] digits[i]) by {
            if i < shorter.len() {
                assert(digits[i] == shorter[i]);
            }
        }
    }
}

/// A number that is written out and read again is the same number.
pub proof fn law_decimal_round_trip(n: nat, max: int)
    requires
        n <= max,
    ensures
        parse_decimal(decimal(n), max) == Some(n as int),
{
    lemma_decimal_digits(n);
    assert(decimal(n)[0] != '+') by {
        assert(is_digit(decimal(n)[0]));
    }
}

} // verus!
