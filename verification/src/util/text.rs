//! Character-level text handling: classification, splitting into fields,
//! trimming, and decimal numbers.

use vstd::prelude::*;
use vstd::string::StringExecFns;
use vstd::string::StrSliceExecFns;

verus! {

/// Unicode `White_Space` code points.
pub open spec fn is_whitespace(c: char) -> bool {
    let n = c as u32;
    ||| 0x09 <= n <= 0x0d
    ||| n == 0x20
    ||| n == 0x85
    ||| n == 0xa0
    ||| n == 0x1680
    ||| 0x2000 <= n <= 0x200a
    ||| n == 0x2028
    ||| n == 0x2029
    ||| n == 0x202f
    ||| n == 0x205f
    ||| n == 0x3000
}

/// Code points of the general category `Cc`.
pub open spec fn is_control(c: char) -> bool {
    let n = c as u32;
    n <= 0x1f || 0x7f <= n <= 0x9f
}

/// A character that separates the fields of a line.
pub open spec fn is_separator(c: char) -> bool {
    is_whitespace(c) || is_control(c)
}

/// Whether `c` is whitespace.
pub fn char_is_whitespace(c: char) -> (r: bool)
    ensures
        r == is_whitespace(c),
{
    let n: u32 = c as u32;
    (0x09 <= n && n <= 0x0d) || n == 0x20 || n == 0x85 || n == 0xa0 || n == 0x1680 || (0x2000 <= n
        && n <= 0x200a) || n == 0x2028 || n == 0x2029 || n == 0x202f || n == 0x205f || n == 0x3000
}

/// Whether `c` separates the fields of a line.
pub fn char_is_separator(c: char) -> (r: bool)
    ensures
        r == is_separator(c),
{
    let n: u32 = c as u32;
    char_is_whitespace(c) || n <= 0x1f || (0x7f <= n && n <= 0x9f)
}

/// The characters of a string, in order.
pub fn chars_of(s: &str) -> (v: Vec<char>)
    ensures
        v@ == s@,
{
    let mut v: Vec<char> = Vec::new();
    for c in it: s.chars()
        invariant
            v@ == it.seq().take(it.index() as int),
            it.seq() == s@,
    {
        v.push(c);
    }
    v
}

/// Whether two texts hold the same characters.
pub fn chars_eq(a: &Vec<char>, b: &Vec<char>) -> (r: bool)
    ensures
        r == (a@ == b@),
{
    if a.len() != b.len() {
        return false;
    }
    let mut i: usize = 0;
    while i < a.len()
        invariant
            i <= a.len(),
            a.len() == b.len(),
            a@.take(i as int) == b@.take(i as int),
        decreases a.len() - i,
    {
        if a[i] != b[i] {
            assert(a@[i as int] != b@[i as int]);
            return false;
        }
        assert(a@.take(i + 1) == a@.take(i as int).push(a@[i as int]));
        assert(b@.take(i + 1) == b@.take(i as int).push(b@[i as int]));
        i += 1;
    }
    assert(a@.take(a.len() as int) == a@);
    assert(b@.take(b.len() as int) == b@);
    true
}

/// Whether two strings hold the same characters.
pub fn str_eq(a: &str, b: &str) -> (r: bool)
    ensures
        r == (a@ == b@),
{
    let x = chars_of(a);
    let y = chars_of(b);
    chars_eq(&x, &y)
}

/// Whether the last characters of `s` are those of `suffix`.
pub open spec fn ends_with(s: Seq<char>, suffix: Seq<char>) -> bool {
    suffix.len() <= s.len() && s.subrange(s.len() - suffix.len(), s.len() as int) == suffix
}

/// Whether `text` ends with `suffix`.
pub fn chars_end_with(text: &Vec<char>, suffix: &Vec<char>) -> (r: bool)
    ensures
        r == ends_with(text@, suffix@),
{
    let n = text.len();
    let m = suffix.len();
    if m > n {
        return false;
    }
    let off = n - m;
    let ghost tail = text@.subrange(off as int, n as int);
    let mut i: usize = 0;
    while i < m
        invariant
            n == text.len(),
            m == suffix.len(),
            off == n - m,
            i <= m,
            tail == text@.subrange(off as int, n as int),
            tail.take(i as int) == suffix@.take(i as int),
        decreases m - i,
    {
        if text[off + i] != suffix[i] {
            assert(tail[i as int] != suffix@[i as int]);
            return false;
        }
        assert(tail.take(i + 1) == tail.take(i as int).push(tail[i as int]));
        assert(suffix@.take(i + 1) == suffix@.take(i as int).push(suffix@[i as int]));
        i += 1;
    }
    assert(tail.take(m as int) == tail);
    assert(suffix@.take(m as int) == suffix@);
    true
}

/// Length of the longest prefix of `s` that holds no separator.
pub open spec fn word_len(s: Seq<char>) -> nat
    decreases s.len(),
{
    if s.len() == 0 || is_separator(s[0]) {
        0
    } else {
        1 + word_len(s.drop_first())
    }
}

/// The fields of a line: its maximal runs of characters that are not
/// separators, in order.
pub open spec fn fields(s: Seq<char>) -> Seq<Seq<char>>
    decreases s.len(),
    via fields_terminates
{
    if s.len() == 0 {
        Seq::empty()
    } else if is_separator(s[0]) {
        fields(s.drop_first())
    } else {
        let n = 1 + word_len(s.drop_first());
        seq![s.take(n as int)] + fields(s.skip(n as int))
    }
}

#[via_fn]
proof fn fields_terminates(s: Seq<char>) {
    if s.len() > 0 && !is_separator(s[0]) {
        lemma_word_len_bound(s.drop_first());
    }
}

/// A word is no longer than the text it starts.
pub proof fn lemma_word_len_bound(s: Seq<char>)
    ensures
        word_len(s) <= s.len(),
    decreases s.len(),
{
    if s.len() > 0 && !is_separator(s[0]) {
        lemma_word_len_bound(s.drop_first());
    }
}

/// A run of `k` characters without a separator, ended by a separator or by
/// the end of the text, is the first word of that text.
pub proof fn lemma_word_len_run(s: Seq<char>, k: nat)
    requires
        k <= s.len(),
        forall|t: int| 0 <= t < k ==> !is_separator(#[trigger] s[t]),
        k == s.len() || is_separator(s[k as int]),
    ensures
        word_len(s) == k,
    decreases k,
{
    if k > 0 {
        let rest = s.drop_first();
        assert forall|t: int| 0 <= t < k - 1 implies !is_separator(#[trigger] rest[t]) by {
            assert(rest[t] == s[t + 1]);
        }
        lemma_word_len_run(rest, (k - 1) as nat);
    }
}

/// The character sequences that a vector of words holds.
pub open spec fn word_views(words: Seq<Vec<char>>) -> Seq<Seq<char>> {
    Seq::new(words.len(), |i: int| words[i]@)
}

/// Splits a line into its fields.
pub fn split_fields(line: &Vec<char>) -> (out: Vec<Vec<char>>)
    ensures
        word_views(out@) == fields(line@),
{
    let n = line.len();
    let mut out: Vec<Vec<char>> = Vec::new();
    let mut i: usize = 0;
    assert(line@.skip(0) == line@);
    assert(word_views(out@) + fields(line@) == fields(line@));
    while i < n
        invariant
            n == line.len(),
            i <= n,
            fields(line@) == word_views(out@) + fields(line@.skip(i as int)),
        decreases n - i,
    {
        let ghost rest = line@.skip(i as int);
        if char_is_separator(line[i]) {
            assert(rest.drop_first() == line@.skip(i + 1));
            i += 1;
        } else {
            let mut word: Vec<char> = Vec::new();
            let start = i;
            while i < n && !char_is_separator(line[i])
                invariant
                    n == line.len(),
                    start <= i <= n,
                    word@ == line@.subrange(start as int, i as int),
                    forall|t: int| start <= t < i ==> !is_separator(#[trigger] line@[t]),
                decreases n - i,
            {
                word.push(line[i]);
                assert(line@.subrange(start as int, i + 1) == line@.subrange(
                    start as int,
                    i as int,
                ).push(line@[i as int]));
                i += 1;
            }
            proof {
                let tail = rest.drop_first();
                let k = (i - start - 1) as nat;
                assert forall|t: int| 0 <= t < k implies !is_separator(#[trigger] tail[t]) by {
                    assert(tail[t] == line@[start + 1 + t]);
                }
                if k < tail.len() {
                    assert(tail[k as int] == line@[i as int]);
                }
                lemma_word_len_run(tail, k);
                assert(rest.take(1 + k as int) == word@);
                assert(rest.skip(1 + k as int) == line@.skip(i as int));
                assert(fields(rest) == seq![word@] + fields(line@.skip(i as int)));
            }
            let ghost before = word_views(out@);
            out.push(word);
            assert(word_views(out@) == before + seq![word@]);
            assert(before + (seq![word@] + fields(line@.skip(i as int))) == (before + seq![word@])
                + fields(line@.skip(i as int)));
        }
    }
    assert(line@.skip(n as int) == Seq::<char>::empty());
    assert(word_views(out@) + Seq::<Seq<char>>::empty() == word_views(out@));
    out
}

/// Whether `c` occurs nowhere in `s`.
pub open spec fn lacks(s: Seq<char>, c: char) -> bool {
    forall|i: int| 0 <= i < s.len() ==> #[trigger] s[i] != c
}

/// The part of `s` before its first `c`; all of `s` if it holds none.
pub open spec fn before_first(s: Seq<char>, c: char) -> Seq<char>
    decreases s.len(),
{
    if s.len() == 0 || s[0] == c {
        Seq::empty()
    } else {
        seq![s[0]] + before_first(s.drop_first(), c)
    }
}

/// The part of `s` behind its first `c`, if it holds one.
pub open spec fn after_first(s: Seq<char>, c: char) -> Option<Seq<char>>
    decreases s.len(),
{
    if s.len() == 0 {
        None
    } else if s[0] == c {
        Some(s.drop_first())
    } else {
        after_first(s.drop_first(), c)
    }
}

/// A text without `c` is all before its first `c`.
pub proof fn lemma_before_first_whole(s: Seq<char>, c: char)
    requires
        lacks(s, c),
    ensures
        before_first(s, c) == s,
    decreases s.len(),
{
    if s.len() > 0 {
        let rest = s.drop_first();
        assert(s[0] != c);
        assert forall|i: int| 0 <= i < rest.len() implies #[trigger] rest[i] != c by {
            assert(rest[i] == s[i + 1]);
        }
        lemma_before_first_whole(rest, c);
        assert(seq![s[0]] + rest == s);
    }
}

/// What follows the first `c` of `head`, `c`, `tail` is `tail`, where
/// `head` holds no `c`.
pub proof fn lemma_after_first_split(head: Seq<char>, c: char, tail: Seq<char>)
    requires
        lacks(head, c),
    ensures
        after_first(head + seq![c] + tail, c) == Some(tail),
    decreases head.len(),
{
    let s = head + seq![c] + tail;
    if head.len() == 0 {
        assert(s[0] == c);
        assert(s.drop_first() == tail);
    } else {
        let rest = head.drop_first();
        assert(s[0] == head[0]);
        assert forall|i: int| 0 <= i < rest.len() implies #[trigger] rest[i] != c by {
            assert(rest[i] == head[i + 1]);
        }
        assert(s.drop_first() == rest + seq![c] + tail);
        lemma_after_first_split(rest, c, tail);
    }
}

/// The part of `text` before its first `c`.
pub fn chars_before_first(text: &Vec<char>, c: char) -> (r: Vec<char>)
    ensures
        r@ == before_first(text@, c),
{
    let mut r: Vec<char> = Vec::new();
    let mut i: usize = 0;
    assert(text@.skip(0) == text@);
    while i < text.len() && text[i] != c
        invariant
            i <= text.len(),
            before_first(text@, c) == r@ + before_first(text@.skip(i as int), c),
        decreases text.len() - i,
    {
        let ghost rest = text@.skip(i as int);
        assert(rest.drop_first() == text@.skip(i + 1));
        let ghost before = r@;
        r.push(text[i]);
        assert(before + (seq![rest[0]] + before_first(rest.drop_first(), c)) == r@ + before_first(
            text@.skip(i + 1),
            c,
        ));
        i += 1;
    }
    assert(r@ + Seq::<char>::empty() == r@);
    r
}

/// The part of `text` behind its first `c`.
pub fn chars_after_first(text: &Vec<char>, c: char) -> (r: Option<Vec<char>>)
    ensures
        match after_first(text@, c) {
            Some(rest) => r matches Some(v) && v@ == rest,
            None => r is None,
        },
{
    let n = text.len();
    let mut i: usize = 0;
    assert(text@.skip(0) == text@);
    while i < n && text[i] != c
        invariant
            n == text.len(),
            i <= n,
            after_first(text@, c) == after_first(text@.skip(i as int), c),
        decreases n - i,
    {
        assert(text@.skip(i as int).drop_first() == text@.skip(i + 1));
        i += 1;
    }
    if i == n {
        return None;
    }
    assert(text@.skip(i as int).drop_first() == text@.skip(i + 1));
    let mut r: Vec<char> = Vec::new();
    let mut j: usize = i + 1;
    while j < n
        invariant
            n == text.len(),
            i + 1 <= j <= n,
            r@ == text@.subrange(i + 1, j as int),
        decreases n - j,
    {
        r.push(text[j]);
        assert(text@.subrange(i + 1, j + 1) == text@.subrange(i + 1, j as int).push(
            text@[j as int],
        ));
        j += 1;
    }
    assert(text@.subrange(i + 1, n as int) == text@.skip(i + 1));
    Some(r)
}

/// What is cut from the ends of a text: whitespace, or one given character.
pub open spec fn strips(what: Option<char>, c: char) -> bool {
    match what {
        Some(x) => c == x,
        None => is_whitespace(c),
    }
}

/// `s` without the characters to strip at its start.
pub open spec fn strip_start(s: Seq<char>, what: Option<char>) -> Seq<char>
    decreases s.len(),
{
    if s.len() > 0 && strips(what, s[0]) {
        strip_start(s.drop_first(), what)
    } else {
        s
    }
}

/// `s` without the characters to strip at its end.
pub open spec fn strip_end(s: Seq<char>, what: Option<char>) -> Seq<char>
    decreases s.len(),
{
    if s.len() > 0 && strips(what, s.last()) {
        strip_end(s.drop_last(), what)
    } else {
        s
    }
}

/// `s` without the characters to strip at its start and at its end.
pub open spec fn stripped(s: Seq<char>, what: Option<char>) -> Seq<char> {
    strip_end(strip_start(s, what), what)
}

/// `s` without the whitespace around it.
pub open spec fn trimmed(s: Seq<char>) -> Seq<char> {
    stripped(s, None)
}

/// Stripping the start drops the leading run of characters to strip.
pub proof fn lemma_strip_start(s: Seq<char>, what: Option<char>, k: int)
    requires
        0 <= k <= s.len(),
        forall|t: int| 0 <= t < k ==> strips(what, #[trigger] s[t]),
        k == s.len() || !strips(what, s[k]),
    ensures
        strip_start(s, what) == s.skip(k),
    decreases k,
{
    if k > 0 {
        let rest = s.drop_first();
        assert forall|t: int| 0 <= t < k - 1 implies strips(what, #[trigger] rest[t]) by {
            assert(rest[t] == s[t + 1]);
        }
        lemma_strip_start(rest, what, k - 1);
        assert(rest.skip(k - 1) == s.skip(k));
    } else {
        assert(s.skip(0) == s);
    }
}

/// Stripping the end drops the trailing run of characters to strip.
pub proof fn lemma_strip_end(s: Seq<char>, what: Option<char>, k: int)
    requires
        0 <= k <= s.len(),
        forall|t: int| k <= t < s.len() ==> strips(what, #[trigger] s[t]),
        k == 0 || !strips(what, s[k - 1]),
    ensures
        strip_end(s, what) == s.take(k),
    decreases s.len() - k,
{
    if k < s.len() {
        let rest = s.drop_last();
        assert forall|t: int| k <= t < rest.len() implies strips(what, #[trigger] rest[t]) by {
            assert(rest[t] == s[t]);
        }
        lemma_strip_end(rest, what, k);
        assert(rest.take(k) == s.take(k));
    } else {
        assert(s.take(k) == s);
    }
}

fn char_strips(what: Option<char>, c: char) -> (r: bool)
    ensures
        r == strips(what, c),
{
    match what {
        Some(x) => c == x,
        None => char_is_whitespace(c),
    }
}

/// Finds what is left of `text[from..to]` once the characters to strip are
/// cut from its ends.
pub fn strip_range(text: &Vec<char>, from: usize, to: usize, what: Option<char>) -> (r: (
    usize,
    usize,
))
    requires
        from <= to <= text.len(),
    ensures
        from <= r.0 <= r.1 <= to,
        text@.subrange(r.0 as int, r.1 as int) == stripped(
            text@.subrange(from as int, to as int),
            what,
        ),
{
    let ghost s = text@.subrange(from as int, to as int);
    let mut a: usize = from;
    while a < to && char_strips(what, text[a])
        invariant
            from <= a <= to <= text.len(),
            forall|t: int| from <= t < a ==> strips(what, #[trigger] text@[t]),
        decreases to - a,
    {
        a += 1;
    }
    let mut b: usize = to;
    while b > a && char_strips(what, text[b - 1])
        invariant
            a <= b <= to <= text.len(),
            forall|t: int| b <= t < to ==> strips(what, #[trigger] text@[t]),
        decreases b,
    {
        b -= 1;
    }
    proof {
        assert forall|t: int| 0 <= t < a - from implies strips(what, #[trigger] s[t]) by {
            assert(s[t] == text@[from + t]);
        }
        if a < to {
            assert(s[a - from] == text@[a as int]);
        }
        lemma_strip_start(s, what, a - from);
        let m = s.skip(a - from);
        assert(m == text@.subrange(a as int, to as int));
        assert forall|t: int| b - a <= t < m.len() implies strips(what, #[trigger] m[t]) by {
            assert(m[t] == text@[a + t]);
        }
        if b > a {
            assert(m[b - a - 1] == text@[b - 1]);
        }
        lemma_strip_end(m, what, b - a);
        assert(m.take(b - a) == text@.subrange(a as int, b as int));
    }
    (a, b)
}

/// A copy of `text` without the whitespace around it.
pub fn trim(text: &str) -> (r: String)
    ensures
        r@ == trimmed(text@),
{
    let chars = chars_of(text);
    let (a, b) = strip_range(&chars, 0, chars.len(), None);
    assert(chars@.subrange(0, chars.len() as int) == chars@);
    text.substring_char(a, b).to_owned()
}

/// An ASCII decimal digit.
pub open spec fn is_digit(c: char) -> bool {
    '0' <= c <= '9'
}

/// Whether `s` holds digits only.
pub open spec fn all_digits(s: Seq<char>) -> bool {
    forall|i: int| 0 <= i < s.len() ==> is_digit(#[trigger] s[i])
}

/// The number that a run of decimal digits denotes.
pub open spec fn digits_value(s: Seq<char>) -> nat
    decreases s.len(),
{
    if s.len() == 0 {
        0
    } else {
        (digits_value(s.drop_last()) * 10 + (s.last() as u32 - '0' as u32)) as nat
    }
}

/// What remains of a number's text once an optional leading `+` is dropped.
pub open spec fn unsigned_digits(s: Seq<char>) -> Seq<char> {
    if s.len() > 0 && s[0] == '+' {
        s.drop_first()
    } else {
        s
    }
}

/// Reading of `s` as an unsigned decimal number no larger than `max`:
/// an optional `+`, then one or more digits and nothing else.
pub open spec fn parse_unsigned(s: Seq<char>, max: nat) -> Option<nat> {
    let d = unsigned_digits(s);
    if d.len() > 0 && all_digits(d) && digits_value(d) <= max {
        Some(digits_value(d))
    } else {
        None
    }
}

/// Among digits, a longer prefix never denotes a smaller number.
pub proof fn lemma_digits_value_prefix(s: Seq<char>, k: int)
    requires
        0 <= k <= s.len(),
        all_digits(s),
    ensures
        digits_value(s.take(k)) <= digits_value(s),
    decreases s.len() - k,
{
    if k == s.len() {
        assert(s.take(k) == s);
    } else {
        let t = s.drop_last();
        assert(t.take(k) == s.take(k));
        lemma_digits_value_prefix(t, k);
    }
}

/// Reads an unsigned decimal number that fits 64 bits.
pub fn parse_u64(text: &Vec<char>) -> (r: Option<u64>)
    ensures
        r matches Some(n) ==> parse_unsigned(text@, u64::MAX as nat) == Some(n as nat),
        r is None ==> parse_unsigned(text@, u64::MAX as nat) is None,
{
    let n = text.len();
    let start: usize = if n > 0 && text[0] == '+' {
        1
    } else {
        0
    };
    let ghost d = unsigned_digits(text@);
    assert(d == text@.skip(start as int));
    if start == n {
        return None;
    }
    let mut acc: u64 = 0;
    let mut i: usize = start;
    assert(d.take(0) == Seq::<char>::empty());
    while i < n
        invariant
            n == text.len(),
            start <= i <= n,
            d == text@.skip(start as int),
            d == unsigned_digits(text@),
            all_digits(d.take(i - start)),
            acc == digits_value(d.take(i - start)),
        decreases n - i,
    {
        let c = text[i];
        let ghost k = i - start;
        assert(d[k] == c);
        assert(d.take(k + 1).drop_last() == d.take(k));
        assert(d.take(k + 1).last() == c);
        if !(c >= '0' && c <= '9') {
            assert(!is_digit(d[k]));
            return None;
        }
        let v: u64 = (c as u32 - '0' as u32) as u64;
        if acc > (u64::MAX - v) / 10 {
            proof {
                assert(digits_value(d.take(k + 1)) > u64::MAX);
                if all_digits(d) {
                    lemma_digits_value_prefix(d, k + 1);
                }
            }
            return None;
        }
        acc = acc * 10 + v;
        assert forall|t: int| 0 <= t < k + 1 implies is_digit(#[trigger] d.take(k + 1)[t]) by {
            if t < k {
                assert(d.take(k + 1)[t] == d.take(k)[t]);
            }
        }
        i += 1;
    }
    assert(d.take(n - start) == d);
    Some(acc)
}

/// Reads an unsigned decimal number that fits 32 bits.
pub fn parse_u32(text: &Vec<char>) -> (r: Option<u32>)
    ensures
        r matches Some(n) ==> parse_unsigned(text@, u32::MAX as nat) == Some(n as nat),
        r is None ==> parse_unsigned(text@, u32::MAX as nat) is None,
{
    match parse_u64(text) {
        Some(n) => {
            if n <= 0xffff_ffff {
                Some(n as u32)
            } else {
                None
            }
        },
        None => None,
    }
}

/// The digit that stands for `d`, a number below ten.
pub open spec fn digit_char(d: nat) -> char {
    if d == 0 {
        '0'
    } else if d == 1 {
        '1'
    } else if d == 2 {
        '2'
    } else if d == 3 {
        '3'
    } else if d == 4 {
        '4'
    } else if d == 5 {
        '5'
    } else if d == 6 {
        '6'
    } else if d == 7 {
        '7'
    } else if d == 8 {
        '8'
    } else {
        '9'
    }
}

/// Decimal notation of `n`, without sign or leading zeros.
pub open spec fn decimal(n: nat) -> Seq<char>
    decreases n,
{
    if n < 10 {
        seq![digit_char(n)]
    } else {
        decimal(n / 10).push(digit_char(n % 10))
    }
}

fn digit_text(d: u64) -> (r: &'static str)
    requires
        d < 10,
    ensures
        r@ == seq![digit_char(d as nat)],
{
    proof {
        reveal_strlit("0");
        reveal_strlit("1");
        reveal_strlit("2");
        reveal_strlit("3");
        reveal_strlit("4");
        reveal_strlit("5");
        reveal_strlit("6");
        reveal_strlit("7");
        reveal_strlit("8");
        reveal_strlit("9");
    }
    let r = if d == 0 {
        "0"
    } else if d == 1 {
        "1"
    } else if d == 2 {
        "2"
    } else if d == 3 {
        "3"
    } else if d == 4 {
        "4"
    } else if d == 5 {
        "5"
    } else if d == 6 {
        "6"
    } else if d == 7 {
        "7"
    } else if d == 8 {
        "8"
    } else {
        "9"
    };
    assert(r@ =~= seq![digit_char(d as nat)]);
    r
}

/// Writes a number in decimal notation.
pub fn u64_to_string(n: u64) -> (r: String)
    ensures
        r@ == decimal(n as nat),
    decreases n,
{
    if n < 10 {
        digit_text(n).to_owned()
    } else {
        let mut r = u64_to_string(n / 10);
        r.append(digit_text(n % 10));
        assert(r@ == decimal(n as nat / 10).push(digit_char(n as nat % 10)));
        r
    }
}

/// The decimal notation of a number is made of digits, and they denote it.
pub proof fn lemma_decimal_digits(n: nat)
    ensures
        decimal(n).len() > 0,
        all_digits(decimal(n)),
        digits_value(decimal(n)) == n,
    decreases n,
{
    if n < 10 {
        let s = decimal(n);
        assert(s.drop_last() == Seq::<char>::empty());
        assert(digits_value(s.drop_last()) == 0);
    } else {
        lemma_decimal_digits(n / 10);
        let head = decimal(n / 10);
        let s = decimal(n);
        assert(s.drop_last() == head);
        assert(s.last() == digit_char(n % 10));
        assert forall|i: int| 0 <= i < s.len() implies is_digit(#[trigger] s[i]) by {
            if i < head.len() {
                assert(s[i] == head[i]);
            }
        }
    }
}

/// A number written in decimal notation is read back as itself.
pub proof fn lemma_parse_decimal(n: nat, max: nat)
    requires
        n <= max,
    ensures
        parse_unsigned(decimal(n), max) == Some(n),
{
    lemma_decimal_digits(n);
    assert(is_digit(decimal(n)[0]));
}

/// Different numbers have different decimal notations.
pub proof fn lemma_decimal_injective(a: nat, b: nat)
    requires
        decimal(a) == decimal(b),
    ensures
        a == b,
{
    lemma_decimal_digits(a);
    lemma_decimal_digits(b);
}

} // verus!
