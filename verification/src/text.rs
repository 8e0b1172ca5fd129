//! Character-level helpers shared by the parsers and formatters of this crate.

use vstd::prelude::*;

verus! {

/// `String::push` appends exactly one character to the end of the string.
pub assume_specification[ std::string::String::push ](s: &mut std::string::String, c: char)
    ensures
        final(s)@ == old(s)@.push(c),
;

/// The characters of `s`, in order.
pub fn str_to_chars(s: &str) -> (out: Vec<char>)
    ensures
        out@ == s@,
{
    let mut out: Vec<char> = Vec::new();
    for c in it: s.chars()
        invariant
            out@ == it.seq().take(it.index() as int),
    {
        out.push(c);
    }
    out
}

/// The string made of `chars[from..to]`.
pub fn chars_to_string(chars: &Vec<char>, from: usize, to: usize) -> (s: String)
    requires
        from <= to <= chars.len(),
    ensures
        s@ == chars@.subrange(from as int, to as int),
{
    let mut s = String::new();
    let mut i: usize = from;
    while i < to
        invariant
            from <= i <= to <= chars.len(),
            s@ == chars@.subrange(from as int, i as int),
        decreases to - i,
    {
        s.push(chars[i]);
        assert(chars@.subrange(from as int, i as int).push(chars@[i as int])
            =~= chars@.subrange(from as int, i + 1));
        i += 1;
    }
    s
}

/// Whether two strings hold the same characters.
pub fn str_eq(a: &str, b: &str) -> (same: bool)
    ensures
        same == (a@ == b@),
{
    let x = str_to_chars(a);
    let y = str_to_chars(b);
    chars_eq(&x, &y)
}

/// Whether two character vectors hold the same characters.
pub fn chars_eq(a: &Vec<char>, b: &Vec<char>) -> (same: bool)
    ensures
        same == (a@ == b@),
{
    if a.len() != b.len() {
        return false;
    }
    let mut i: usize = 0;
    while i < a.len()
        invariant
            i <= a.len(),
            a.len() == b.len(),
            forall|k: int| 0 <= k < i ==> a@[k] == b@[k],
        decreases a.len() - i,
    {
        if a[i] != b[i] {
            return false;
        }
        i += 1;
    }
    assert(a@ =~= b@);
    true
}

/// The character that writes the decimal digit `d`.
pub open spec fn digit_char(d: nat) -> char
    recommends
        d < 10,
{
    ((48 + d) as u8) as char
}

/// The decimal representation of `n`, most significant digit first, without
/// leading zeros.
pub open spec fn decimal_digits(n: nat) -> Seq<char>
    decreases n,
{
    if n < 10 {
        seq![digit_char(n)]
    } else {
        decimal_digits(n / 10).push(digit_char(n % 10))
    }
}

/// Append the decimal representation of `n` to `out`.
pub fn push_decimal(out: &mut String, n: u64)
    ensures
        final(out)@ == old(out)@ + decimal_digits(n as nat),
    decreases n,
{
    if n >= 10 {
        push_decimal(out, n / 10);
    }
    let d: u8 = (n % 10) as u8;
    out.push((48u8 + d) as char);
    proof {
        if n >= 10 {
            assert((old(out)@ + decimal_digits((n / 10) as nat)).push(digit_char((n % 10) as nat))
                =~= old(out)@ + decimal_digits(n as nat));
        } else {
            assert(old(out)@.push(digit_char(n as nat)) =~= old(out)@ + decimal_digits(n as nat));
        }
    }
}

/// The decimal representation of `n` as a string.
pub fn decimal_string(n: u64) -> (s: String)
    ensures
        s@ == decimal_digits(n as nat),
{
    let mut s = String::new();
    push_decimal(&mut s, n);
    assert(Seq::<char>::empty() + decimal_digits(n as nat) =~= decimal_digits(n as nat));
    s
}

/// Whether `c` is one of the ASCII digits `0` to `9`.
pub open spec fn is_digit(c: char) -> bool {
    '0' <= c <= '9'
}

/// The value of the ASCII digit `c`.
pub open spec fn digit_value(c: char) -> nat
    recommends
        is_digit(c),
{
    (c as u32 - 48) as nat
}

/// Whether every character of `s` is an ASCII digit.
pub open spec fn all_digits(s: Seq<char>) -> bool {
    forall|i: int| 0 <= i < s.len() ==> is_digit(#[trigger] s[i])
}

/// The number that the digit string `s` writes in base ten.
pub open spec fn digits_value(s: Seq<char>) -> nat
    decreases s.len(),
{
    if s.len() == 0 {
        0
    } else {
        digits_value(s.drop_last()) * 10 + digit_value(s.last())
    }
}

/// The number written by `s`: an optional leading `+` followed by at least one
/// ASCII digit. Anything else writes no number.
pub open spec fn parse_unsigned(s: Seq<char>) -> Option<nat> {
    let body = if s.len() > 0 && s[0] == '+' { s.skip(1) } else { s };
    if body.len() > 0 && all_digits(body) {
        Some(digits_value(body))
    } else {
        None
    }
}

/// The number written by `s` where it fits a `usize`.
pub open spec fn parse_usize_spec(s: Seq<char>) -> Option<usize> {
    match parse_unsigned(s) {
        Some(n) => if n <= usize::MAX { Some(n as usize) } else { None },
        None => None,
    }
}

/// A longer digit string never writes a smaller number than its prefix.
pub proof fn lemma_digits_value_prefix(s: Seq<char>, k: int)
    requires
        0 <= k <= s.len(),
    ensures
        digits_value(s.take(k)) <= digits_value(s),
    decreases s.len() - k,
{
    if k == s.len() {
        assert(s.take(k) =~= s);
    } else {
        lemma_digits_value_prefix(s, k + 1);
        assert(s.take(k + 1).drop_last() =~= s.take(k));
    }
}

/// Parse `chars` as an unsigned decimal number that fits a `usize`.
pub fn parse_usize(chars: &Vec<char>) -> (r: Option<usize>)
    ensures
        r == parse_usize_spec(chars@),
{
    let n = chars.len();
    let start: usize = if n > 0 && chars[0] == '+' { 1 } else { 0 };
    let ghost body = chars@.skip(start as int);
    if start == n {
        return None;
    }
    let mut j: usize = start;
    while j < n
        invariant
            start <= j <= n,
            n == chars.len(),
            body == chars@.skip(start as int),
            start == (if chars@.len() > 0 && chars@[0] == '+' { 1int } else { 0int }),
            forall|k: int| 0 <= k < j - start ==> is_digit(#[trigger] body[k]),
        decreases n - j,
    {
        let c = chars[j];
        assert(body[j - start] == c);
        if !('0' <= c && c <= '9') {
            assert(!is_digit(body[j - start]));
            return None;
        }
        j += 1;
    }
    assert(all_digits(body));
    let mut acc: usize = 0;
    let mut i: usize = start;
    while i < n
        invariant
            start <= i <= n,
            n == chars.len(),
            body == chars@.skip(start as int),
            body.len() == n - start,
            start == (if chars@.len() > 0 && chars@[0] == '+' { 1int } else { 0int }),
            all_digits(body),
            acc == digits_value(body.take(i - start)),
        decreases n - i,
    {
        let c = chars[i];
        assert(body[i - start] == c);
        let d: usize = (c as u32 - 48) as usize;
        proof {
            assert(body.take(i + 1 - start).drop_last() =~= body.take(i - start));
            assert(body.take(i + 1 - start).last() == c);
            lemma_digits_value_prefix(body, i + 1 - start);
            assert(digits_value(body.take(i + 1 - start)) == acc * 10 + d);
            assert(chars@.skip(0) =~= chars@);
        }
        if acc > (usize::MAX - d) / 10 {
            assert(acc * 10 + d > usize::MAX) by (nonlinear_arith)
                requires
                    acc > (usize::MAX - d) / 10,
                    d < 10,
            ;
            return None;
        }
        assert(acc * 10 + d <= usize::MAX) by (nonlinear_arith)
            requires
                acc <= (usize::MAX - d) / 10,
        ;
        acc = acc * 10 + d;
        i += 1;
    }
    assert(body.take(n - start) =~= body);
    assert(chars@.skip(0) =~= chars@);
    Some(acc)
}

} // verus!

verus! {

/// The index of the first `c` in `s`, or the length of `s` where `c` does not
/// occur.
pub open spec fn index_of_char(s: Seq<char>, c: char) -> int
    decreases s.len(),
{
    if s.len() == 0 {
        0
    } else if s[0] == c {
        0
    } else {
        1 + index_of_char(s.skip(1), c)
    }
}

/// `index_of_char` is the least index that holds `c`.
pub proof fn lemma_index_of_char(s: Seq<char>, c: char)
    ensures
        0 <= index_of_char(s, c) <= s.len(),
        index_of_char(s, c) < s.len() ==> s[index_of_char(s, c)] == c,
        forall|k: int| 0 <= k < index_of_char(s, c) ==> s[k] != c,
    decreases s.len(),
{
    if s.len() > 0 && s[0] != c {
        lemma_index_of_char(s.skip(1), c);
        let r = index_of_char(s.skip(1), c);
        assert forall|k: int| 0 <= k < 1 + r implies s[k] != c by {
            if k > 0 {
                assert(s.skip(1)[k - 1] == s[k]);
            }
        }
    }
}

/// Any index with the properties of `lemma_index_of_char` is `index_of_char`.
pub proof fn lemma_index_of_char_unique(s: Seq<char>, c: char, r: int)
    requires
        0 <= r <= s.len(),
        r < s.len() ==> s[r] == c,
        forall|k: int| 0 <= k < r ==> s[k] != c,
    ensures
        r == index_of_char(s, c),
{
    lemma_index_of_char(s, c);
}

/// Find the first `c` in `chars[from..]`; the result is relative to `from`.
pub fn find_char(chars: &Vec<char>, from: usize, c: char) -> (r: usize)
    requires
        from <= chars.len(),
    ensures
        r == index_of_char(chars@.skip(from as int), c),
        from + r <= chars.len(),
{
    let mut i: usize = from;
    while i < chars.len()
        invariant
            from <= i <= chars.len(),
            forall|k: int| from <= k < i ==> chars@[k] != c,
        decreases chars.len() - i,
    {
        if chars[i] == c {
            proof {
                lemma_index_of_char_unique(chars@.skip(from as int), c, i - from);
            }
            return i - from;
        }
        i += 1;
    }
    proof {
        lemma_index_of_char_unique(chars@.skip(from as int), c, i - from);
    }
    i - from
}

} // verus!

verus! {

/// The last `width` decimal digits of `n`, with leading zeros.
pub open spec fn padded_digits(n: nat, width: nat) -> Seq<char>
    decreases width,
{
    if width == 0 {
        Seq::empty()
    } else {
        padded_digits(n / 10, (width - 1) as nat).push(digit_char(n % 10))
    }
}

/// Append the last `width` decimal digits of `n` to `out`, with leading zeros.
pub fn push_padded(out: &mut String, n: u64, width: u8)
    ensures
        final(out)@ == old(out)@ + padded_digits(n as nat, width as nat),
    decreases width,
{
    if width == 0 {
        assert(old(out)@ + padded_digits(n as nat, 0) =~= old(out)@);
    } else {
        push_padded(out, n / 10, width - 1);
        let d: u8 = (n % 10) as u8;
        out.push((48u8 + d) as char);
        assert((old(out)@ + padded_digits((n / 10) as nat, (width - 1) as nat)).push(
            digit_char((n % 10) as nat),
        ) =~= old(out)@ + padded_digits(n as nat, width as nat));
    }
}

/// `n / d` rounded to the nearest whole number, a tie going to the even one.
pub open spec fn rounded_div(n: nat, d: nat) -> nat
    recommends
        d > 0,
{
    let q = n / d;
    let r = n % d;
    if 2 * r > d || (2 * r == d && q % 2 == 1) {
        q + 1
    } else {
        q
    }
}

/// `n / d` rounded to the nearest whole number, a tie going to the even one.
pub fn rounded_div_u128(n: u128, d: u128) -> (q: u128)
    requires
        d > 0,
        n / d < u128::MAX,
    ensures
        q == rounded_div(n as nat, d as nat),
{
    let q = n / d;
    let r = n % d;
    // `r < d`, so `d - r` does not underflow and `r > d - r` says `2 * r > d`.
    if r > d - r || (r == d - r && q % 2 == 1) {
        q + 1
    } else {
        q
    }
}

/// A share `n / d` written as a percentage with two decimals.
pub open spec fn percent_text(n: nat, d: nat) -> Seq<char>
    recommends
        d > 0,
{
    let h = rounded_div(n * 10000, d);
    decimal_digits(h / 100).push('.') + padded_digits(h % 100, 2)
}

/// Append the share `n / d` to `out` as a percentage with two decimals.
pub fn push_percent(out: &mut String, n: u64, d: u64)
    requires
        d > 0,
        n <= d,
    ensures
        final(out)@ == old(out)@ + percent_text(n as nat, d as nat),
{
    let x: u128 = n as u128 * 10000;
    assert(x / (d as u128) <= 10000) by (nonlinear_arith)
        requires
            x == n * 10000,
            n <= d,
            d > 0,
    ;
    let h = rounded_div_u128(x, d as u128);
    let whole: u64 = (h / 100) as u64;
    let part: u64 = (h % 100) as u64;
    push_decimal(out, whole);
    out.push('.');
    push_padded(out, part, 2);
    assert(final(out)@ =~= old(out)@ + percent_text(n as nat, d as nat));
}

} // verus!

verus! {

/// The character sequences of a sequence of strings.
pub open spec fn texts_of(strings: Seq<String>) -> Seq<Seq<char>> {
    Seq::new(strings.len(), |i: int| strings[i]@)
}

/// The parts written one after the other with `sep` between each two.
pub open spec fn join_spec(parts: Seq<Seq<char>>, sep: Seq<char>) -> Seq<char>
    decreases parts.len(),
{
    if parts.len() == 0 {
        Seq::empty()
    } else if parts.len() == 1 {
        parts[0]
    } else {
        join_spec(parts.drop_last(), sep) + sep + parts.last()
    }
}

/// Join `parts` with `sep` between each two.
pub fn join_strings(parts: &Vec<String>, sep: &str) -> (s: String)
    ensures
        s@ == join_spec(texts_of(parts@), sep@),
{
    let mut s = String::new();
    let mut i: usize = 0;
    while i < parts.len()
        invariant
            i <= parts.len(),
            s@ == join_spec(texts_of(parts@.take(i as int)), sep@),
        decreases parts.len() - i,
    {
        if i > 0 {
            s.append(sep);
        }
        s.append(parts[i].as_str());
        proof {
            let before = texts_of(parts@.take(i as int));
            let after = texts_of(parts@.take(i + 1));
            assert(after.drop_last() =~= before);
            assert(after.last() == parts@[i as int]@);
            if i == 0 {
                assert(Seq::<char>::empty() + parts@[i as int]@ =~= parts@[i as int]@);
            }
        }
        i += 1;
    }
    assert(parts@.take(parts.len() as int) =~= parts@);
    s
}

} // verus!

verus! {

/// Whether `chars` holds `prefix` at `from`.
pub open spec fn has_prefix_at_spec(chars: Seq<char>, from: int, prefix: Seq<char>) -> bool {
    0 <= from && from + prefix.len() <= chars.len() && chars.subrange(
        from,
        from + prefix.len(),
    ) == prefix
}

/// Whether `chars` holds `prefix` at `from`.
pub fn has_prefix_at(chars: &Vec<char>, from: usize, prefix: &Vec<char>) -> (b: bool)
    ensures
        b == has_prefix_at_spec(chars@, from as int, prefix@),
{
    if from > chars.len() || prefix.len() > chars.len() - from {
        return false;
    }
    let mut i: usize = 0;
    while i < prefix.len()
        invariant
            i <= prefix.len(),
            from + prefix.len() <= chars.len(),
            forall|k: int| 0 <= k < i ==> chars@[from + k] == prefix@[k],
        decreases prefix.len() - i,
    {
        if chars[from + i] != prefix[i] {
            assert(chars@.subrange(from as int, from + prefix.len())[i as int] != prefix@[i as int]);
            return false;
        }
        i += 1;
    }
    assert(chars@.subrange(from as int, from + prefix.len()) =~= prefix@);
    true
}

/// Whether `c` occurs in `chars[from..]`.
pub fn contains_char_from(chars: &Vec<char>, from: usize, c: char) -> (b: bool)
    requires
        from <= chars.len(),
    ensures
        b == chars@.skip(from as int).contains(c),
{
    let r = find_char(chars, from, c);
    proof {
        lemma_index_of_char(chars@.skip(from as int), c);
        let rest = chars@.skip(from as int);
        if r < rest.len() {
            assert(rest[r as int] == c);
        } else {
            assert(!rest.contains(c));
        }
    }
    from + r < chars.len()
}

} // verus!

verus! {

/// Whether `c` is white space as Unicode defines it (the property
/// `White_Space`).
pub open spec fn is_whitespace_spec(c: char) -> bool {
    let n = c as u32;
    (0x09 <= n <= 0x0d) || n == 0x20 || n == 0x85 || n == 0xa0 || n == 0x1680 || (0x2000 <= n
        <= 0x200a) || n == 0x2028 || n == 0x2029 || n == 0x202f || n == 0x205f || n == 0x3000
}

/// Whether `c` is white space as Unicode defines it.
pub fn is_whitespace(c: char) -> (b: bool)
    ensures
        b == is_whitespace_spec(c),
{
    let n = c as u32;
    (0x09 <= n && n <= 0x0d) || n == 0x20 || n == 0x85 || n == 0xa0 || n == 0x1680 || (0x2000 <= n
        && n <= 0x200a) || n == 0x2028 || n == 0x2029 || n == 0x202f || n == 0x205f || n == 0x3000
}

/// The number of white-space characters at the start of `s`.
pub open spec fn leading_whitespace(s: Seq<char>) -> int
    decreases s.len(),
{
    if s.len() > 0 && is_whitespace_spec(s[0]) {
        1 + leading_whitespace(s.skip(1))
    } else {
        0
    }
}

/// The number of white-space characters at the end of `s`.
pub open spec fn trailing_whitespace(s: Seq<char>) -> int
    decreases s.len(),
{
    if s.len() > 0 && is_whitespace_spec(s.last()) {
        1 + trailing_whitespace(s.drop_last())
    } else {
        0
    }
}

/// `s` without the white space at its start and at its end.
pub open spec fn trim_spec(s: Seq<char>) -> Seq<char> {
    let rest = s.skip(leading_whitespace(s));
    rest.take(rest.len() - trailing_whitespace(rest))
}

/// The leading white space is a run of white space that ends at the first
/// other character.
pub proof fn lemma_leading_whitespace(s: Seq<char>)
    ensures
        0 <= leading_whitespace(s) <= s.len(),
        forall|k: int| 0 <= k < leading_whitespace(s) ==> is_whitespace_spec(s[k]),
        leading_whitespace(s) < s.len() ==> !is_whitespace_spec(s[leading_whitespace(s)]),
    decreases s.len(),
{
    if s.len() > 0 && is_whitespace_spec(s[0]) {
        lemma_leading_whitespace(s.skip(1));
        assert forall|k: int| 0 <= k < leading_whitespace(s) implies is_whitespace_spec(s[k]) by {
            if k > 0 {
                assert(s.skip(1)[k - 1] == s[k]);
            }
        }
    }
}

/// A run of white space at the start of `s` that ends at another character or
/// at the end of `s` is the leading white space.
pub proof fn lemma_leading_whitespace_unique(s: Seq<char>, n: int)
    requires
        0 <= n <= s.len(),
        forall|k: int| 0 <= k < n ==> is_whitespace_spec(s[k]),
        n < s.len() ==> !is_whitespace_spec(s[n]),
    ensures
        n == leading_whitespace(s),
{
    lemma_leading_whitespace(s);
}

/// The trailing white space is a run of white space that starts after the
/// last other character.
pub proof fn lemma_trailing_whitespace(s: Seq<char>)
    ensures
        0 <= trailing_whitespace(s) <= s.len(),
        forall|k: int| s.len() - trailing_whitespace(s) <= k < s.len() ==> is_whitespace_spec(s[k]),
        trailing_whitespace(s) < s.len() ==> !is_whitespace_spec(
            s[s.len() - trailing_whitespace(s) - 1],
        ),
    decreases s.len(),
{
    if s.len() > 0 && is_whitespace_spec(s.last()) {
        lemma_trailing_whitespace(s.drop_last());
        assert forall|k: int| s.len() - trailing_whitespace(s) <= k < s.len() implies
            is_whitespace_spec(s[k]) by {
            if k < s.len() - 1 {
                assert(s.drop_last()[k] == s[k]);
            }
        }
    }
}

/// A run of white space at the end of `s` that starts after another character
/// or at the start of `s` is the trailing white space.
pub proof fn lemma_trailing_whitespace_unique(s: Seq<char>, n: int)
    requires
        0 <= n <= s.len(),
        forall|k: int| s.len() - n <= k < s.len() ==> is_whitespace_spec(s[k]),
        n < s.len() ==> !is_whitespace_spec(s[s.len() - n - 1]),
    ensures
        n == trailing_whitespace(s),
{
    lemma_trailing_whitespace(s);
}

/// The bounds of `chars[from..to]` without the white space at its start and
/// at its end.
pub fn trim_bounds(chars: &Vec<char>, from: usize, to: usize) -> (r: (usize, usize))
    requires
        from <= to <= chars.len(),
    ensures
        from <= r.0 <= r.1 <= to,
        chars@.subrange(r.0 as int, r.1 as int) == trim_spec(
            chars@.subrange(from as int, to as int),
        ),
{
    let ghost s = chars@.subrange(from as int, to as int);
    let mut a: usize = from;
    while a < to && is_whitespace(chars[a])
        invariant
            from <= a <= to <= chars.len(),
            forall|k: int| from <= k < a ==> is_whitespace_spec(chars@[k]),
        decreases to - a,
    {
        a += 1;
    }
    proof {
        lemma_leading_whitespace_unique(s, a - from);
    }
    let ghost rest = s.skip(a - from);
    assert(rest =~= chars@.subrange(a as int, to as int));
    let mut b: usize = to;
    while b > a && is_whitespace(chars[b - 1])
        invariant
            a <= b <= to <= chars.len(),
            forall|k: int| b <= k < to ==> is_whitespace_spec(chars@[k]),
        decreases b - a,
    {
        b -= 1;
    }
    proof {
        lemma_trailing_whitespace_unique(rest, to - b);
        assert(rest.take(rest.len() - (to - b)) =~= chars@.subrange(a as int, b as int));
    }
    (a, b)
}

/// `s` without the white space at its start and at its end.
pub fn trim(s: &str) -> (t: String)
    ensures
        t@ == trim_spec(s@),
{
    let chars = str_to_chars(s);
    assert(chars@.subrange(0, chars@.len() as int) =~= chars@);
    let (a, b) = trim_bounds(&chars, 0, chars.len());
    chars_to_string(&chars, a, b)
}

/// The lines of a text. A line ends at a line feed, or at a carriage return
/// that a line feed follows; neither is part of the line. What follows the
/// last line feed is a line only where it is not empty.
pub open spec fn lines_spec(s: Seq<char>) -> Seq<Seq<char>>
    decreases s.len(),
{
    if s.len() == 0 {
        Seq::empty()
    } else {
        let cut = index_of_char(s, '\n');
        if cut < 0 || cut >= s.len() {
            seq![s]
        } else {
            seq![strip_carriage_return(s.take(cut))] + lines_spec(s.skip(cut + 1))
        }
    }
}

/// `line` without a carriage return at its end.
pub open spec fn strip_carriage_return(line: Seq<char>) -> Seq<char> {
    if line.len() > 0 && line.last() == '\r' {
        line.drop_last()
    } else {
        line
    }
}

/// The bounds of the lines of `chars`, each as the index of its first
/// character and the index after its last.
pub fn line_bounds(chars: &Vec<char>) -> (bounds: Vec<(usize, usize)>)
    ensures
        bounds@.len() == lines_spec(chars@).len(),
        forall|i: int|
            0 <= i < bounds@.len() ==> (#[trigger] bounds@[i]).0 <= bounds@[i].1 <= chars@.len()
                && chars@.subrange(bounds@[i].0 as int, bounds@[i].1 as int) == lines_spec(
                chars@,
            )[i],
{
    let mut bounds: Vec<(usize, usize)> = Vec::new();
    let mut start: usize = 0;
    let n = chars.len();
    assert(chars@.skip(0) =~= chars@);
    while start < n
        invariant
            start <= n,
            n == chars@.len(),
            lines_spec(chars@) == Seq::new(
                bounds@.len(),
                |i: int| chars@.subrange(bounds@[i].0 as int, bounds@[i].1 as int),
            ) + lines_spec(chars@.skip(start as int)),
            forall|i: int| 0 <= i < bounds@.len() ==> (#[trigger] bounds@[i]).0 <= bounds@[i].1 <= n,
        decreases n - start,
    {
        let ghost rest = chars@.skip(start as int);
        let ghost before = Seq::new(
            bounds@.len(),
            |i: int| chars@.subrange(bounds@[i].0 as int, bounds@[i].1 as int),
        );
        let cut = find_char(chars, start, '\n');
        let end = start + cut;
        if end >= n {
            bounds.push((start, n));
            proof {
                assert(rest =~= chars@.subrange(start as int, n as int));
                let after = Seq::new(
                    bounds@.len(),
                    |i: int| chars@.subrange(bounds@[i].0 as int, bounds@[i].1 as int),
                );
                assert(after =~= before.push(rest));
                assert(chars@.skip(n as int).len() == 0);
                assert(lines_spec(chars@) =~= after + lines_spec(chars@.skip(n as int)));
            }
            start = n;
        } else {
            let line_end = if end > start && chars[end - 1] == '\r' {
                end - 1
            } else {
                end
            };
            bounds.push((start, line_end));
            proof {
                assert(rest.take(cut as int) =~= chars@.subrange(start as int, end as int));
                assert(strip_carriage_return(rest.take(cut as int)) =~= chars@.subrange(
                    start as int,
                    line_end as int,
                )) by {
                    if end > start {
                        assert(rest.take(cut as int).last() == chars@[end - 1]);
                    }
                }
                assert(rest.skip(cut + 1) =~= chars@.skip(end + 1));
                let after = Seq::new(
                    bounds@.len(),
                    |i: int| chars@.subrange(bounds@[i].0 as int, bounds@[i].1 as int),
                );
                assert(after =~= before.push(
                    chars@.subrange(start as int, line_end as int),
                ));
                assert(lines_spec(chars@) =~= after + lines_spec(chars@.skip(end + 1)));
            }
            start = end + 1;
        }
    }
    proof {
        assert(chars@.skip(n as int).len() == 0);
        let after = Seq::new(
            bounds@.len(),
            |i: int| chars@.subrange(bounds@[i].0 as int, bounds@[i].1 as int),
        );
        assert(lines_spec(chars@) =~= after);
    }
    bounds
}

/// The lower-case form of an ASCII letter; any other character as it is.
pub open spec fn ascii_lower(c: char) -> char {
    if 'A' <= c <= 'Z' {
        ((c as u8) + 32) as char
    } else {
        c
    }
}

/// The lower-case form of an ASCII letter; any other character as it is.
pub fn to_ascii_lower(c: char) -> (l: char)
    ensures
        l == ascii_lower(c),
{
    if 'A' <= c && c <= 'Z' {
        ((c as u8) + 32) as char
    } else {
        c
    }
}

/// Whether `hay` holds `needle` at `at` when the case of ASCII letters in
/// `hay` is ignored. `needle` is written in lower case.
pub open spec fn matches_folded_at(hay: Seq<char>, at: int, needle: Seq<char>) -> bool {
    0 <= at && at + needle.len() <= hay.len() && forall|k: int|
        0 <= k < needle.len() ==> ascii_lower(#[trigger] hay[at + k]) == needle[k]
}

/// Whether `hay` holds `needle` somewhere when the case of ASCII letters in
/// `hay` is ignored. `needle` is written in lower case.
pub open spec fn contains_folded(hay: Seq<char>, needle: Seq<char>) -> bool {
    exists|at: int| #[trigger] matches_folded_at(hay, at, needle)
}

/// Whether `chars[from..to]` holds `needle` somewhere when the case of ASCII
/// letters is ignored.
pub fn contains_ignoring_case(chars: &Vec<char>, from: usize, to: usize, needle: &Vec<char>) -> (b:
    bool)
    requires
        from <= to <= chars.len(),
    ensures
        b == contains_folded(chars@.subrange(from as int, to as int), needle@),
{
    let ghost hay = chars@.subrange(from as int, to as int);
    let m = needle.len();
    if m > to - from {
        assert forall|at: int| !(#[trigger] matches_folded_at(hay, at, needle@)) by {}
        return false;
    }
    let last = to - m;
    let mut at: usize = from;
    while at <= last
        invariant
            from <= at <= last + 1,
            last == to - m,
            m == needle@.len(),
            from <= to <= chars.len(),
            hay == chars@.subrange(from as int, to as int),
            forall|a: int| 0 <= a < at - from ==> !(#[trigger] matches_folded_at(hay, a, needle@)),
        decreases last + 1 - at,
    {
        let mut k: usize = 0;
        while k < m && to_ascii_lower(chars[at + k]) == needle[k]
            invariant
                k <= m,
                m == needle@.len(),
                at + m <= to <= chars.len(),
                forall|j: int| 0 <= j < k ==> ascii_lower(chars@[at + j]) == needle@[j],
            decreases m - k,
        {
            k += 1;
        }
        if k == m {
            assert(matches_folded_at(hay, at - from, needle@)) by {
                assert forall|j: int| 0 <= j < needle@.len() implies ascii_lower(
                    #[trigger] hay[at - from + j],
                ) == needle@[j] by {
                    assert(hay[at - from + j] == chars@[at + j]);
                }
            }
            return true;
        }
        assert(!matches_folded_at(hay, at - from, needle@)) by {
            assert(hay[at - from + k] == chars@[at + k]);
        }
        at += 1;
    }
    assert forall|a: int| !(#[trigger] matches_folded_at(hay, a, needle@)) by {
        if 0 <= a && a + needle@.len() <= hay.len() {
            assert(a < at - from);
        }
    }
    false
}

/// The decimal representation of a signed number, with a `-` before a
/// negative one.
pub open spec fn signed_digits(n: int) -> Seq<char> {
    if n < 0 {
        seq!['-'] + decimal_digits((-n) as nat)
    } else {
        decimal_digits(n as nat)
    }
}

/// Append the decimal representation of `n` to `out`.
pub fn push_signed(out: &mut String, n: i32)
    ensures
        final(out)@ == old(out)@ + signed_digits(n as int),
{
    if n < 0 {
        out.push('-');
        let m: u64 = (-(n as i64)) as u64;
        push_decimal(out, m);
        assert(final(out)@ =~= old(out)@ + signed_digits(n as int));
    } else {
        push_decimal(out, n as u64);
    }
}

} // verus!

verus! {

/// The characters `chars[from..to]` as a vector of their own.
pub fn slice_chars(chars: &Vec<char>, from: usize, to: usize) -> (out: Vec<char>)
    requires
        from <= to <= chars.len(),
    ensures
        out@ == chars@.subrange(from as int, to as int),
{
    let mut out: Vec<char> = Vec::new();
    let mut i: usize = from;
    while i < to
        invariant
            from <= i <= to <= chars.len(),
            out@ == chars@.subrange(from as int, i as int),
        decreases to - i,
    {
        out.push(chars[i]);
        assert(chars@.subrange(from as int, i as int).push(chars@[i as int]) =~= chars@.subrange(
            from as int,
            i + 1,
        ));
        i += 1;
    }
    out
}

} // verus!

verus! {

/// Whether `a` comes no later than `b` in lexical order: the order of the
/// code points at the first place where the two differ, a text coming before
/// every longer text that it starts.
pub open spec fn text_le(a: Seq<char>, b: Seq<char>) -> bool
    decreases a.len(),
{
    if a.len() == 0 {
        true
    } else if b.len() == 0 {
        false
    } else if a[0] != b[0] {
        a[0] < b[0]
    } else {
        text_le(a.skip(1), b.skip(1))
    }
}

/// Of two texts one comes no later than the other.
pub proof fn lemma_text_le_total(a: Seq<char>, b: Seq<char>)
    ensures
        text_le(a, b) || text_le(b, a),
    decreases a.len(),
{
    if a.len() > 0 && b.len() > 0 && a[0] == b[0] {
        lemma_text_le_total(a.skip(1), b.skip(1));
    }
}

/// The lexical order is transitive.
pub proof fn lemma_text_le_transitive(a: Seq<char>, b: Seq<char>, c: Seq<char>)
    requires
        text_le(a, b),
        text_le(b, c),
    ensures
        text_le(a, c),
    decreases a.len(),
{
    if a.len() > 0 && b.len() > 0 && c.len() > 0 {
        if a[0] == b[0] && b[0] == c[0] {
            lemma_text_le_transitive(a.skip(1), b.skip(1), c.skip(1));
        }
    }
}

/// Whether `a` comes no later than `b` in lexical order.
pub fn chars_le(a: &Vec<char>, b: &Vec<char>) -> (le: bool)
    ensures
        le == text_le(a@, b@),
{
    let mut i: usize = 0;
    assert(a@.skip(0) =~= a@ && b@.skip(0) =~= b@);
    while i < a.len() && i < b.len()
        invariant
            i <= a.len(),
            i <= b.len(),
            text_le(a@, b@) == text_le(a@.skip(i as int), b@.skip(i as int)),
        decreases a.len() - i,
    {
        proof {
            assert(a@.skip(i as int)[0] == a@[i as int]);
            assert(b@.skip(i as int)[0] == b@[i as int]);
            assert(a@.skip(i as int).skip(1) =~= a@.skip(i + 1));
            assert(b@.skip(i as int).skip(1) =~= b@.skip(i + 1));
        }
        if a[i] != b[i] {
            return a[i] < b[i];
        }
        i += 1;
    }
    i == a.len()
}

/// Whether every text of `texts` comes no later than the ones after it.
pub open spec fn texts_sorted(texts: Seq<String>) -> bool {
    forall|i: int, j: int|
        0 <= i < j < texts.len() ==> text_le((#[trigger] texts[i])@, (#[trigger] texts[j])@)
}

/// Sort texts in lexical order. The result holds the same texts, each as
/// often as before.
pub fn sort_texts(texts: Vec<String>) -> (sorted: Vec<String>)
    ensures
        texts_sorted(sorted@),
        sorted@.to_multiset() == texts@.to_multiset(),
        sorted@.len() == texts@.len(),
{
    let ghost all = texts@;
    let mut sorted: Vec<String> = Vec::new();
    assert(all.take(0) =~= Seq::<String>::empty());
    for text in it: texts
        invariant
            it.seq() == all,
            texts_sorted(sorted@),
            sorted@.to_multiset() == all.take(it.index() as int).to_multiset(),
            sorted@.len() == it.index(),
    {
        let candidate = str_to_chars(text.as_str());
        let mut k: usize = 0;
        while k < sorted.len() && chars_le(&str_to_chars(sorted[k].as_str()), &candidate)
            invariant
                k <= sorted@.len(),
                candidate@ == text@,
                forall|i: int| 0 <= i < k ==> text_le((#[trigger] sorted@[i])@, text@),
            decreases sorted.len() - k,
        {
            k += 1;
        }
        let ghost before = sorted@;
        sorted.insert(k, text);
        proof {
            let i = it.index() as int;
            vstd::seq_lib::to_multiset_insert(before, k as int, text);
            vstd::seq_lib::to_multiset_build(all.take(i), text);
            assert(all.take(i + 1) =~= all.take(i).push(text));
            assert forall|x: int, y: int| 0 <= x < y < sorted@.len() implies text_le(
                (#[trigger] sorted@[x])@,
                (#[trigger] sorted@[y])@,
            ) by {
                if y < k {
                    assert(sorted@[x] == before[x] && sorted@[y] == before[y]);
                } else if y == k {
                    assert(sorted@[x] == before[x]);
                } else if x < k {
                    assert(sorted@[x] == before[x] && sorted@[y] == before[y - 1]);
                } else if x == k {
                    assert(sorted@[y] == before[y - 1]);
                    assert(!text_le(before[k as int]@, text@));
                    lemma_text_le_total(before[k as int]@, text@);
                    if y - 1 > k {
                        lemma_text_le_transitive(text@, before[k as int]@, before[y - 1]@);
                    }
                } else {
                    assert(sorted@[x] == before[x - 1] && sorted@[y] == before[y - 1]);
                }
            }
        }
    }
    assert(all.take(all.len() as int) =~= all);
    sorted
}

} // verus!
