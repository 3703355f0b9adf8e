use vstd::prelude::*;

verus! {

/// The Unicode `White_Space` characters, the separators between tokens.
pub open spec fn is_space(c: char) -> bool {
    ('\u{9}' <= c && c <= '\u{d}') || c == ' ' || c == '\u{85}' || c == '\u{a0}'
        || c == '\u{1680}' || ('\u{2000}' <= c && c <= '\u{200a}') || c == '\u{2028}'
        || c == '\u{2029}' || c == '\u{202f}' || c == '\u{205f}' || c == '\u{3000}'
}

/// Tells whether `c` separates tokens.
pub fn is_space_char(c: char) -> (r: bool)
    ensures
        r == is_space(c),
{
    ('\u{9}' <= c && c <= '\u{d}') || c == ' ' || c == '\u{85}' || c == '\u{a0}'
        || c == '\u{1680}' || ('\u{2000}' <= c && c <= '\u{200a}') || c == '\u{2028}'
        || c == '\u{2029}' || c == '\u{202f}' || c == '\u{205f}' || c == '\u{3000}'
}

/// The spans `(start, end)` of the maximal runs of non-space characters of
/// `s` from position `i` on, where a run in progress began at `start`.
pub open spec fn spans_from(s: Seq<char>, i: int, start: int) -> Seq<(int, int)>
    decreases s.len() - i,
{
    if i >= s.len() {
        if start < s.len() {
            seq![(start, s.len() as int)]
        } else {
            seq![]
        }
    } else if is_space(s[i]) {
        (if start < i {
            seq![(start, i)]
        } else {
            seq![]
        }) + spans_from(s, i + 1, i + 1)
    } else {
        spans_from(s, i + 1, start)
    }
}

/// The spans of the whitespace-separated tokens of `s`, in order.
pub open spec fn token_spans(s: Seq<char>) -> Seq<(int, int)> {
    spans_from(s, 0, 0)
}

/// The whitespace-separated tokens of `s`, in order.
pub open spec fn tokens(s: Seq<char>) -> Seq<Seq<char>> {
    token_spans(s).map_values(|p: (int, int)| s.subrange(p.0, p.1))
}

pub open spec fn spans_view(v: Seq<(usize, usize)>) -> Seq<(int, int)> {
    v.map_values(|p: (usize, usize)| (p.0 as int, p.1 as int))
}

/// Every span of `v` is a non-empty range of positions in `lo..hi`.
pub open spec fn spans_within(v: Seq<(int, int)>, lo: int, hi: int) -> bool {
    forall|k: int| 0 <= k < v.len() ==> lo <= (#[trigger] v[k]).0 < v[k].1 <= hi
}

proof fn lemma_spans_bounded(s: Seq<char>, i: int, start: int)
    requires
        0 <= start <= i <= s.len(),
    ensures
        spans_within(spans_from(s, i, start), start, s.len() as int),
    decreases s.len() - i,
{
    let r = spans_from(s, i, start);
    if i < s.len() {
        if is_space(s[i]) {
            lemma_spans_bounded(s, i + 1, i + 1);
            let head: Seq<(int, int)> = if start < i {
                seq![(start, i)]
            } else {
                seq![]
            };
            let tail = spans_from(s, i + 1, i + 1);
            assert(r == head + tail);
            assert forall|k: int| 0 <= k < r.len() implies start <= (#[trigger] r[k]).0 < r[k].1
                <= s.len() by {
                if k >= head.len() {
                    assert(r[k] == tail[k - head.len()]);
                } else {
                    assert(r[k] == head[k]);
                }
            }
        } else {
            lemma_spans_bounded(s, i + 1, start);
        }
    }
}

/// The characters of `line`, one by one.
pub fn chars_of(line: &str) -> (r: Vec<char>)
    ensures
        r@ == line@,
{
    let n = line.unicode_len();
    let mut out: Vec<char> = Vec::new();
    let mut i: usize = 0;
    while i < n
        invariant
            n == line@.len(),
            i <= n,
            out@ == line@.subrange(0, i as int),
        decreases n - i,
    {
        out.push(line.get_char(i));
        i = i + 1;
    }
    assert(out@ =~= line@);
    out
}

/// The spans of the whitespace-separated tokens of `s`.
pub fn split_spans(s: &Vec<char>) -> (r: Vec<(usize, usize)>)
    ensures
        spans_view(r@) == token_spans(s@),
        spans_within(token_spans(s@), 0, s@.len() as int),
{
    let n = s.len();
    let mut out: Vec<(usize, usize)> = Vec::new();
    let mut start: usize = 0;
    let mut i: usize = 0;
    proof {
        lemma_spans_bounded(s@, 0, 0);
    }
    while i < n
        invariant
            n == s@.len(),
            start <= i <= n,
            spans_view(out@) + spans_from(s@, i as int, start as int) == token_spans(s@),
        decreases n - i,
    {
        if is_space_char(s[i]) {
            let ghost before = spans_view(out@);
            if start < i {
                out.push((start, i));
                assert(spans_view(out@) =~= before + seq![(start as int, i as int)]);
                assert(spans_view(out@) + spans_from(s@, i + 1, i + 1) =~= before + (seq![
                    (start as int, i as int),
                ] + spans_from(s@, i + 1, i + 1)));
            } else {
                assert(spans_view(out@) + spans_from(s@, i + 1, i + 1) =~= before + (seq![]
                    + spans_from(s@, i + 1, i + 1)));
            }
            start = i + 1;
        }
        i = i + 1;
    }
    if start < n {
        let ghost before = spans_view(out@);
        out.push((start, n));
        assert(spans_view(out@) =~= before + seq![(start as int, n as int)]);
    } else {
        assert(spans_view(out@) =~= spans_view(out@) + spans_from(s@, i as int, start as int));
    }
    out
}

/// The fields of `t` between the `/` separators, from position `i` on, where
/// the current field began at `start`.
pub open spec fn fields_from(t: Seq<char>, i: int, start: int) -> Seq<Seq<char>>
    decreases t.len() - i,
{
    if i >= t.len() {
        seq![t.subrange(start, t.len() as int)]
    } else if t[i] == '/' {
        seq![t.subrange(start, i)] + fields_from(t, i + 1, i + 1)
    } else {
        fields_from(t, i + 1, start)
    }
}

/// The `/`-separated fields of `t`; there is always at least one.
pub open spec fn slash_fields(t: Seq<char>) -> Seq<Seq<char>> {
    fields_from(t, 0, 0)
}

pub open spec fn is_digit(c: char) -> bool {
    '0' <= c && c <= '9'
}

/// The decimal value of a string of digits.
pub open spec fn digits_value(d: Seq<char>) -> nat
    decreases d.len(),
{
    if d.len() == 0 {
        0
    } else {
        digits_value(d.drop_last()) * 10 + (d.last() as nat - '0' as nat) as nat
    }
}

pub open spec fn all_digits(d: Seq<char>) -> bool {
    forall|k: int| 0 <= k < d.len() ==> is_digit(#[trigger] d[k])
}

/// The digits of an unsigned number, after its optional `+`.
pub open spec fn unsigned_body(t: Seq<char>) -> Seq<char> {
    if t.len() > 0 && t[0] == '+' {
        t.drop_first()
    } else {
        t
    }
}

/// The value of `t` read as an unsigned machine-size integer: an optional
/// `+` and at least one digit, with a value that fits in `usize`.
pub open spec fn unsigned_value(t: Seq<char>) -> Option<nat> {
    let d = unsigned_body(t);
    if d.len() > 0 && all_digits(d) && digits_value(d) <= usize::MAX {
        Some(digits_value(d))
    } else {
        None
    }
}

proof fn lemma_digits_prefix_le(d: Seq<char>, k: int)
    requires
        0 <= k <= d.len(),
        all_digits(d),
    ensures
        digits_value(d.subrange(0, k)) <= digits_value(d),
    decreases d.len() - k,
{
    if k < d.len() {
        lemma_digits_prefix_le(d, k + 1);
        let p = d.subrange(0, k + 1);
        assert(p.drop_last() =~= d.subrange(0, k));
        assert(is_digit(d[k]));
    } else {
        assert(d.subrange(0, k) =~= d);
    }
}

/// Reads the characters `s[a..b]` as an unsigned integer.
pub fn parse_unsigned(s: &Vec<char>, a: usize, b: usize) -> (r: Option<usize>)
    requires
        a <= b <= s@.len(),
    ensures
        r matches Some(v) ==> unsigned_value(s@.subrange(a as int, b as int)) == Some(v as nat),
        r is None ==> unsigned_value(s@.subrange(a as int, b as int)) is None,
{
    let ghost t = s@.subrange(a as int, b as int);
    let mut i: usize = a;
    if a < b && s[a] == '+' {
        i = a + 1;
    }
    let ghost d = unsigned_body(t);
    assert(d =~= s@.subrange(i as int, b as int));
    if i == b {
        return None;
    }
    let mut acc: usize = 0;
    let start = i;
    while i < b
        invariant
            a <= start <= i <= b <= s@.len(),
            d == s@.subrange(start as int, b as int),
            d == unsigned_body(s@.subrange(a as int, b as int)),
            forall|k: int| start <= k < i ==> is_digit(#[trigger] s@[k]),
            acc as nat == digits_value(s@.subrange(start as int, i as int)),
        decreases b - i,
    {
        let c = s[i];
        if !('0' <= c && c <= '9') {
            assert(d[i - start] == c);
            assert(!is_digit(d[i - start]));
            return None;
        }
        let digit = (c as u32 - '0' as u32) as usize;
        let ghost p = s@.subrange(start as int, i + 1);
        assert(p.drop_last() =~= s@.subrange(start as int, i as int));
        assert(p.last() == c);
        assert(digits_value(p) == acc as nat * 10 + digit as nat);
        proof {
            if all_digits(d) {
                lemma_digits_prefix_le(d, i + 1 - start);
                assert(d.subrange(0, i + 1 - start) =~= p);
            }
        }
        match acc.checked_mul(10) {
            None => {
                return None;
            },
            Some(m) => match m.checked_add(digit) {
                None => {
                    return None;
                },
                Some(v) => {
                    acc = v;
                },
            },
        }
        i = i + 1;
    }
    assert(all_digits(d));
    assert(s@.subrange(start as int, i as int) =~= d);
    Some(acc)
}

/// The characters `s[a..b]`, copied.
pub fn sub_chars(s: &Vec<char>, a: usize, b: usize) -> (r: Vec<char>)
    requires
        a <= b <= s@.len(),
    ensures
        r@ == s@.subrange(a as int, b as int),
{
    let mut out: Vec<char> = Vec::new();
    let mut i: usize = a;
    while i < b
        invariant
            a <= i <= b <= s@.len(),
            out@ == s@.subrange(a as int, i as int),
        decreases b - i,
    {
        out.push(s[i]);
        i = i + 1;
        assert(out@ =~= s@.subrange(a as int, i as int));
    }
    out
}

/// Splits `t` at each `/`; gives the span of each field, in order.
pub fn split_slashes(t: &Vec<char>) -> (r: Vec<(usize, usize)>)
    ensures
        r@.len() >= 1,
        r@.len() == slash_fields(t@).len(),
        forall|k: int|
            0 <= k < r@.len() ==> (#[trigger] r@[k]).0 <= r@[k].1 <= t@.len() && t@.subrange(
                r@[k].0 as int,
                r@[k].1 as int,
            ) == slash_fields(t@)[k],
{
    let n = t.len();
    let mut out: Vec<(usize, usize)> = Vec::new();
    let mut start: usize = 0;
    let mut i: usize = 0;
    while i < n
        invariant
            n == t@.len(),
            start <= i <= n,
            out@.map_values(|p: (usize, usize)| t@.subrange(p.0 as int, p.1 as int)) + fields_from(
                t@,
                i as int,
                start as int,
            ) == slash_fields(t@),
            forall|k: int| 0 <= k < out@.len() ==> (#[trigger] out@[k]).0 <= out@[k].1 <= n,
        decreases n - i,
    {
        if t[i] == '/' {
            let ghost before = out@.map_values(
                |p: (usize, usize)| t@.subrange(p.0 as int, p.1 as int),
            );
            out.push((start, i));
            assert(out@.map_values(|p: (usize, usize)| t@.subrange(p.0 as int, p.1 as int))
                =~= before + seq![t@.subrange(start as int, i as int)]);
            assert(fields_from(t@, i as int, start as int) == seq![
                t@.subrange(start as int, i as int),
            ] + fields_from(t@, i + 1, i + 1));
            start = i + 1;
        }
        i = i + 1;
    }
    let ghost before = out@.map_values(|p: (usize, usize)| t@.subrange(p.0 as int, p.1 as int));
    out.push((start, n));
    let ghost after = out@.map_values(|p: (usize, usize)| t@.subrange(p.0 as int, p.1 as int));
    assert(after =~= before + seq![t@.subrange(start as int, n as int)]);
    assert forall|k: int| 0 <= k < out@.len() implies (#[trigger] out@[k]).0 <= out@[k].1 <= t@.len()
        && t@.subrange(out@[k].0 as int, out@[k].1 as int) == slash_fields(t@)[k] by {
        assert(after[k] == t@.subrange(out@[k].0 as int, out@[k].1 as int));
    }
    out
}

/// `c` is the lower-case ASCII letter `w` in either case.
pub open spec fn letter_ci(c: char, w: char) -> bool {
    c == w || c as u32 + 32 == w as u32
}

/// `b` spells the lower-case word `w`, ignoring ASCII case.
pub open spec fn word_ci(b: Seq<char>, w: Seq<char>) -> bool {
    b.len() == w.len() && forall|k: int| 0 <= k < b.len() ==> letter_ci(#[trigger] b[k], w[k])
}

/// The number of consecutive digits in `b` from position `i` on.
pub open spec fn digit_run(b: Seq<char>, i: int) -> nat
    decreases b.len() - i,
{
    if 0 <= i < b.len() && is_digit(b[i]) {
        1 + digit_run(b, i + 1)
    } else {
        0
    }
}

/// `b[i..]` is empty or an exponent: `e` or `E`, an optional sign, and at
/// least one digit, up to the end.
pub open spec fn exponent_ok(b: Seq<char>, i: int) -> bool {
    i == b.len() || (i < b.len() && letter_ci(b[i], 'e') && {
        let j = if i + 1 < b.len() && (b[i + 1] == '+' || b[i + 1] == '-') {
            i + 2
        } else {
            i + 1
        };
        digit_run(b, j) >= 1 && j + digit_run(b, j) == b.len()
    })
}

/// `b` is a decimal number: digits with at most one `.`, at least one digit
/// in all, and an optional exponent.
pub open spec fn decimal_ok(b: Seq<char>) -> bool {
    let m = digit_run(b, 0) as int;
    if m < b.len() && b[m] == '.' {
        let f = digit_run(b, m + 1) as int;
        m + f >= 1 && exponent_ok(b, m + 1 + f)
    } else {
        m >= 1 && exponent_ok(b, m)
    }
}

/// The part of a number after its optional sign.
pub open spec fn unsigned_part(t: Seq<char>) -> Seq<char> {
    if t.len() > 0 && (t[0] == '+' || t[0] == '-') {
        t.drop_first()
    } else {
        t
    }
}

/// `t` is a floating-point literal: an optional sign, then `inf`, `infinity`,
/// `nan` (in any ASCII case) or a decimal number.
pub open spec fn is_float_text(t: Seq<char>) -> bool {
    let b = unsigned_part(t);
    word_ci(b, seq!['i', 'n', 'f']) || word_ci(
        b,
        seq!['i', 'n', 'f', 'i', 'n', 'i', 't', 'y'],
    ) || word_ci(b, seq!['n', 'a', 'n']) || decimal_ok(b)
}

fn letter_matches(c: char, w: char) -> (r: bool)
    requires
        'a' <= w <= 'z',
    ensures
        r == letter_ci(c, w),
{
    c == w || (c as u32) + 32 == w as u32
}

fn spells(b: &Vec<char>, from: usize, w: &Vec<char>) -> (r: bool)
    requires
        from <= b@.len(),
        forall|k: int| 0 <= k < w@.len() ==> 'a' <= #[trigger] w@[k] <= 'z',
    ensures
        r == word_ci(b@.subrange(from as int, b@.len() as int), w@),
{
    let ghost t = b@.subrange(from as int, b@.len() as int);
    if b.len() - from != w.len() {
        return false;
    }
    let n = b.len();
    let mut k: usize = 0;
    while k < w.len()
        invariant
            n == b@.len(),
            t == b@.subrange(from as int, b@.len() as int),
            from <= b@.len(),
            t.len() == w@.len(),
            b@.len() - from == w@.len(),
            k <= w@.len(),
            forall|j: int| 0 <= j < w@.len() ==> 'a' <= #[trigger] w@[j] <= 'z',
            forall|j: int| 0 <= j < k ==> letter_ci(#[trigger] t[j], w@[j]),
        decreases w@.len() - k,
    {
        if !letter_matches(b[from + k], w[k]) {
            assert(t[k as int] == b@[from + k]);
            return false;
        }
        k = k + 1;
    }
    true
}

fn digits_from(b: &Vec<char>, i: usize) -> (r: usize)
    requires
        i <= b@.len(),
    ensures
        r == digit_run(b@, i as int),
        i + r <= b@.len(),
{
    let mut k: usize = i;
    while k < b.len() && '0' <= b[k] && b[k] <= '9'
        invariant
            i <= k <= b@.len(),
            digit_run(b@, i as int) == (k - i) + digit_run(b@, k as int),
        decreases b@.len() - k,
    {
        k = k + 1;
    }
    k - i
}

fn exponent_at(b: &Vec<char>, i: usize) -> (r: bool)
    requires
        i <= b@.len(),
    ensures
        r == exponent_ok(b@, i as int),
{
    if i == b.len() {
        return true;
    }
    if !letter_matches(b[i], 'e') {
        return false;
    }
    let j = if i + 1 < b.len() && (b[i + 1] == '+' || b[i + 1] == '-') {
        i + 2
    } else {
        i + 1
    };
    let d = digits_from(b, j);
    d >= 1 && j + d == b.len()
}

/// Tells whether `t` is a floating-point literal.
pub fn float_text(t: &Vec<char>) -> (r: bool)
    ensures
        r == is_float_text(t@),
{
    let from: usize = if t.len() > 0 && (t[0] == '+' || t[0] == '-') {
        1
    } else {
        0
    };
    let b = sub_chars(t, from, t.len());
    assert(b@ == unsigned_part(t@));
    let inf = vec!['i', 'n', 'f'];
    let infinity = vec!['i', 'n', 'f', 'i', 'n', 'i', 't', 'y'];
    let nan = vec!['n', 'a', 'n'];
    assert(b@.subrange(0, b@.len() as int) =~= b@);
    if spells(&b, 0, &inf) || spells(&b, 0, &infinity) || spells(&b, 0, &nan) {
        return true;
    }
    let m = digits_from(&b, 0);
    if m < b.len() && b[m] == '.' {
        let f = digits_from(&b, m + 1);
        m + f >= 1 && exponent_at(&b, m + 1 + f)
    } else {
        m >= 1 && exponent_at(&b, m)
    }
}

} // verus!
