//! Character-level text helpers: decimal numbers, field splitting,
//! whitespace trimming and literal matching, each with its model over
//! `Seq<char>`.
use vstd::prelude::*;
use vstd::string::StrSliceExecFns;
use vstd::string::StringExecFns;

verus! {

/// A decimal digit `0` to `9`.
pub open spec fn is_digit(c: char) -> bool {
    '0' <= c && c <= '9'
}

/// The value of a decimal digit.
pub open spec fn digit_value(c: char) -> int {
    (c as int) - ('0' as int)
}

/// A non-empty run of decimal digits.
pub open spec fn is_decimal(s: Seq<char>) -> bool {
    s.len() > 0 && forall|i: int| 0 <= i < s.len() ==> is_digit(#[trigger] s[i])
}

/// The value of a run of decimal digits, most significant first.
pub open spec fn decimal_value(s: Seq<char>) -> int
    decreases s.len(),
{
    if s.len() == 0 {
        0
    } else {
        decimal_value(s.drop_last()) * 10 + digit_value(s.last())
    }
}

/// The unsigned 32-bit number that a field spells in decimal, if any.
pub open spec fn decimal_u32(s: Seq<char>) -> Option<u32> {
    if is_decimal(s) && decimal_value(s) <= u32::MAX {
        Some(decimal_value(s) as u32)
    } else {
        None
    }
}

/// Characters with the Unicode `White_Space` property.
pub open spec fn is_space(c: char) -> bool {
    ('\u{9}' <= c && c <= '\u{d}') || c == ' ' || c == '\u{85}' || c == '\u{a0}'
        || c == '\u{1680}' || ('\u{2000}' <= c && c <= '\u{200a}') || c == '\u{2028}'
        || c == '\u{2029}' || c == '\u{202f}' || c == '\u{205f}' || c == '\u{3000}'
}

/// Index of the first non-space character at or after `i`.
pub open spec fn first_non_space(s: Seq<char>, i: int) -> int
    decreases s.len() - i,
{
    if i >= s.len() || !is_space(s[i]) {
        i
    } else {
        first_non_space(s, i + 1)
    }
}

/// One past the index of the last non-space character before `j`, not below `lo`.
pub open spec fn last_non_space(s: Seq<char>, lo: int, j: int) -> int
    decreases j - lo,
{
    if j <= lo || !is_space(s[j - 1]) {
        j
    } else {
        last_non_space(s, lo, j - 1)
    }
}

/// `s` without its leading and trailing white space.
pub open spec fn trimmed(s: Seq<char>) -> Seq<char> {
    let a = first_non_space(s, 0);
    s.subrange(a, last_non_space(s, a, s.len() as int))
}

/// Splits `s` at each `sep`, scanning from `i` with the current field
/// starting at `start`. When `quotes` holds, a double quote toggles a
/// quoted stretch in which `sep` does not split.
pub open spec fn fields_from(
    s: Seq<char>,
    sep: char,
    quotes: bool,
    i: int,
    start: int,
    quoted: bool,
    acc: Seq<Seq<char>>,
) -> Seq<Seq<char>>
    decreases s.len() - i,
{
    if i >= s.len() {
        acc.push(s.subrange(start, s.len() as int))
    } else if quotes && s[i] == '"' {
        fields_from(s, sep, quotes, i + 1, start, !quoted, acc)
    } else if s[i] == sep && !quoted {
        fields_from(s, sep, quotes, i + 1, i + 1, quoted, acc.push(s.subrange(start, i)))
    } else {
        fields_from(s, sep, quotes, i + 1, start, quoted, acc)
    }
}

/// The pieces of `s` between occurrences of `sep`.
pub open spec fn split_on(s: Seq<char>, sep: char) -> Seq<Seq<char>> {
    fields_from(s, sep, false, 0, 0, false, seq![])
}

/// The comma-separated fields of a dataset row, quotes kept.
pub open spec fn row_fields(s: Seq<char>) -> Seq<Seq<char>> {
    fields_from(s, ',', true, 0, 0, false, seq![])
}

/// A field with one pair of enclosing double quotes removed.
pub open spec fn unquoted(f: Seq<char>) -> Seq<char> {
    if f.len() >= 2 && f[0] == '"' && f[f.len() - 1] == '"' {
        f.subrange(1, f.len() - 1)
    } else {
        f
    }
}

/// The texts of a sequence of strings.
pub open spec fn strings_view(v: Seq<String>) -> Seq<Seq<char>> {
    v.map_values(|x: String| x@)
}

/// A run of decimal digits has a non-negative value.
pub proof fn lemma_decimal_value_nonneg(s: Seq<char>)
    requires
        is_decimal(s),
    ensures
        decimal_value(s) >= 0,
    decreases s.len(),
{
    if s.len() > 1 {
        let t = s.drop_last();
        assert(is_decimal(t)) by {
            assert forall|i: int| 0 <= i < t.len() implies is_digit(#[trigger] t[i]) by {
                assert(t[i] == s[i]);
            }
        }
        lemma_decimal_value_nonneg(t);
        assert(is_digit(s[s.len() - 1]));
    } else {
        assert(s.drop_last().len() == 0);
        assert(decimal_value(s.drop_last()) == 0);
        assert(is_digit(s[0]));
    }
}

proof fn lemma_first_non_space_bounds(s: Seq<char>, i: int)
    requires
        0 <= i <= s.len(),
    ensures
        i <= first_non_space(s, i) <= s.len(),
    decreases s.len() - i,
{
    if i < s.len() && is_space(s[i]) {
        lemma_first_non_space_bounds(s, i + 1);
    }
}

proof fn lemma_last_non_space_bounds(s: Seq<char>, lo: int, j: int)
    requires
        lo <= j,
    ensures
        lo <= last_non_space(s, lo, j) <= j,
    decreases j - lo,
{
    if j > lo && is_space(s[j - 1]) {
        lemma_last_non_space_bounds(s, lo, j - 1);
    }
}

proof fn lemma_first_non_space_shift(c: char, s: Seq<char>, i: int)
    requires
        0 <= i <= s.len(),
    ensures
        first_non_space(seq![c] + s, i + 1) == first_non_space(s, i) + 1,
    decreases s.len() - i,
{
    let t = seq![c] + s;
    if i < s.len() {
        assert(t[i + 1] == s[i]);
        if is_space(s[i]) {
            lemma_first_non_space_shift(c, s, i + 1);
        }
    }
}

proof fn lemma_last_non_space_shift(c: char, s: Seq<char>, lo: int, j: int)
    requires
        0 <= lo <= j <= s.len(),
    ensures
        last_non_space(seq![c] + s, lo + 1, j + 1) == last_non_space(s, lo, j) + 1,
    decreases j - lo,
{
    let t = seq![c] + s;
    if j > lo {
        assert(t[j] == s[j - 1]);
        if is_space(s[j - 1]) {
            lemma_last_non_space_shift(c, s, lo, j - 1);
        }
    }
}

/// White space in front of a text disappears when it is trimmed.
pub proof fn lemma_trim_leading_space(c: char, s: Seq<char>)
    requires
        is_space(c),
    ensures
        trimmed(seq![c] + s) == trimmed(s),
{
    let t = seq![c] + s;
    lemma_first_non_space_shift(c, s, 0);
    let a = first_non_space(s, 0);
    lemma_first_non_space_bounds(s, 0);
    assert(first_non_space(t, 0) == first_non_space(t, 1));
    lemma_last_non_space_shift(c, s, a, s.len() as int);
    let b = last_non_space(s, a, s.len() as int);
    lemma_last_non_space_bounds(s, a, s.len() as int);
    assert(t.subrange(a + 1, b + 1) =~= s.subrange(a, b));
}

/// A text that neither begins nor ends with white space is its own trim.
pub proof fn lemma_trim_unchanged(s: Seq<char>)
    requires
        s.len() > 0,
        !is_space(s[0]),
        !is_space(s[s.len() - 1]),
    ensures
        trimmed(s) == s,
{
    assert(first_non_space(s, 0) == 0);
    assert(last_non_space(s, 0, s.len() as int) == s.len());
    assert(s.subrange(0, s.len() as int) =~= s);
}

proof fn lemma_fields_keep_first(
    s: Seq<char>,
    sep: char,
    i: int,
    start: int,
    quoted: bool,
    acc: Seq<Seq<char>>,
)
    requires
        acc.len() >= 1,
    ensures
        fields_from(s, sep, false, i, start, quoted, acc)[0] == acc[0],
        fields_from(s, sep, false, i, start, quoted, acc).len() >= 1,
    decreases s.len() - i,
{
    if i < s.len() {
        if s[i] == sep && !quoted {
            lemma_fields_keep_first(s, sep, i + 1, i + 1, quoted, acc.push(s.subrange(start, i)));
        } else {
            lemma_fields_keep_first(s, sep, i + 1, start, quoted, acc);
        }
    }
}

/// The first piece of a split is a prefix of the text.
pub proof fn lemma_first_piece_prefix(s: Seq<char>, sep: char, i: int)
    requires
        0 <= i <= s.len(),
    ensures
        ({
            let f = fields_from(s, sep, false, i, 0, false, seq![])[0];
            f.len() <= s.len() && f == s.subrange(0, f.len() as int)
        }),
    decreases s.len() - i,
{
    if i >= s.len() {
        assert(seq![].push(s.subrange(0, s.len() as int))[0] == s.subrange(0, s.len() as int));
    } else if s[i] == sep {
        let acc = seq![].push(s.subrange(0, i));
        lemma_fields_keep_first(s, sep, i + 1, i + 1, false, acc);
        assert(acc[0] == s.subrange(0, i));
    } else {
        lemma_first_piece_prefix(s, sep, i + 1);
    }
}

/// The last piece of a split is a suffix of the text.
pub proof fn lemma_last_piece_suffix(
    s: Seq<char>,
    sep: char,
    i: int,
    start: int,
    acc: Seq<Seq<char>>,
)
    requires
        0 <= start <= i <= s.len(),
    ensures
        ({
            let r = fields_from(s, sep, false, i, start, false, acc);
            let f = r[r.len() - 1];
            r.len() >= 1 && f.len() <= s.len() - start && f == s.subrange(
                s.len() - f.len(),
                s.len() as int,
            )
        }),
    decreases s.len() - i,
{
    if i < s.len() {
        if s[i] == sep {
            lemma_last_piece_suffix(s, sep, i + 1, i + 1, acc.push(s.subrange(start, i)));
        } else {
            lemma_last_piece_suffix(s, sep, i + 1, start, acc);
        }
    }
}

/// Reads a field as an unsigned 32-bit decimal number.
pub fn parse_u32(s: &str) -> (r: Option<u32>)
    ensures
        r == decimal_u32(s@),
{
    let n = s.unicode_len();
    if n == 0 {
        return None;
    }
    let mut acc: u64 = 0;
    let mut i: usize = 0;
    while i < n
        invariant
            n == s@.len(),
            i <= n,
            acc <= u32::MAX,
            is_decimal(s@.subrange(0, i as int)) || i == 0,
            acc == decimal_value(s@.subrange(0, i as int)),
        decreases n - i,
    {
        let c = s.get_char(i);
        let ghost prefix = s@.subrange(0, i as int);
        let ghost next = s@.subrange(0, i as int + 1);
        assert(next.drop_last() == prefix);
        if !('0' <= c && c <= '9') {
            assert(!is_decimal(s@)) by {
                assert(!is_digit(s@[i as int]));
            }
            return None;
        }
        let d = (c as u32 - '0' as u32) as u64;
        acc = acc * 10 + d;
        assert(is_decimal(next)) by {
            assert forall|k: int| 0 <= k < next.len() implies is_digit(#[trigger] next[k]) by {
                if k < i {
                    assert(next[k] == prefix[k]);
                }
            }
        }
        if acc > u32::MAX as u64 {
            proof {
                lemma_decimal_prefix_grows(s@, i as int + 1);
            }
            return None;
        }
        i = i + 1;
    }
    assert(s@.subrange(0, n as int) == s@);
    Some(acc as u32)
}

/// A decimal number does not shrink when digits are appended.
proof fn lemma_decimal_prefix_grows(s: Seq<char>, k: int)
    requires
        0 <= k <= s.len(),
        is_decimal(s.subrange(0, k)) || k == 0,
    ensures
        is_decimal(s) ==> decimal_value(s.subrange(0, k)) <= decimal_value(s),
    decreases s.len() - k,
{
    if is_decimal(s) && k < s.len() {
        let p = s.subrange(0, k);
        let q = s.subrange(0, k + 1);
        assert(q.drop_last() == p);
        assert(is_decimal(q)) by {
            assert forall|j: int| 0 <= j < q.len() implies is_digit(#[trigger] q[j]) by {
                assert(q[j] == s[j]);
            }
        }
        assert(is_digit(s[k]));
        assert(q.last() == s[k]);
        if k > 0 {
            lemma_decimal_value_nonneg(p);
        }
        lemma_decimal_prefix_grows(s, k + 1);
    }
    if k == s.len() {
        assert(s.subrange(0, k) == s);
    }
}

/// Whether `c` is white space.
pub fn is_space_char(c: char) -> (r: bool)
    ensures
        r == is_space(c),
{
    ('\u{9}' <= c && c <= '\u{d}') || c == ' ' || c == '\u{85}' || c == '\u{a0}' || c
        == '\u{1680}' || ('\u{2000}' <= c && c <= '\u{200a}') || c == '\u{2028}' || c
        == '\u{2029}' || c == '\u{202f}' || c == '\u{205f}' || c == '\u{3000}'
}

/// `s` without leading and trailing white space.
pub fn trim_spaces(s: &str) -> (r: String)
    ensures
        r@ == trimmed(s@),
{
    let n = s.unicode_len();
    let mut a: usize = 0;
    while a < n && is_space_char(s.get_char(a))
        invariant
            n == s@.len(),
            a <= n,
            first_non_space(s@, 0) == first_non_space(s@, a as int),
        decreases n - a,
    {
        a = a + 1;
    }
    let mut b: usize = n;
    while b > a && is_space_char(s.get_char(b - 1))
        invariant
            n == s@.len(),
            a <= b <= n,
            first_non_space(s@, 0) == a,
            last_non_space(s@, a as int, n as int) == last_non_space(s@, a as int, b as int),
        decreases b - a,
    {
        b = b - 1;
    }
    String::from_str(s.substring_char(a, b))
}

/// Whether `s` begins with the characters of `p`.
pub fn starts_with(s: &str, p: &str) -> (r: bool)
    ensures
        r == (p@.len() <= s@.len() && s@.subrange(0, p@.len() as int) == p@),
{
    let n = s.unicode_len();
    let m = p.unicode_len();
    if m > n {
        return false;
    }
    let mut i: usize = 0;
    while i < m
        invariant
            n == s@.len(),
            m == p@.len(),
            m <= n,
            i <= m,
            forall|k: int| 0 <= k < i ==> s@[k] == p@[k],
        decreases m - i,
    {
        if s.get_char(i) != p.get_char(i) {
            assert(s@.subrange(0, m as int)[i as int] != p@[i as int]);
            return false;
        }
        i = i + 1;
    }
    assert(s@.subrange(0, m as int) =~= p@);
    true
}

/// Whether `s` holds exactly the characters of `p`.
pub fn same_text(s: &str, p: &str) -> (r: bool)
    ensures
        r == (s@ == p@),
{
    if s.unicode_len() != p.unicode_len() {
        return false;
    }
    let r = starts_with(s, p);
    assert(s@.subrange(0, s@.len() as int) == s@);
    r
}

/// The pieces of `s` between separators: with `quotes`, a double quote
/// toggles a stretch in which `sep` does not split.
pub fn split_fields(s: &str, sep: char, quotes: bool) -> (r: Vec<String>)
    ensures
        strings_view(r@) == fields_from(s@, sep, quotes, 0, 0, false, seq![]),
{
    let n = s.unicode_len();
    let mut out: Vec<String> = Vec::new();
    let mut i: usize = 0;
    let mut start: usize = 0;
    let mut quoted = false;
    assert(strings_view(out@) =~= seq![]);
    while i < n
        invariant
            n == s@.len(),
            start <= i <= n,
            fields_from(s@, sep, quotes, i as int, start as int, quoted, strings_view(out@))
                == fields_from(s@, sep, quotes, 0, 0, false, seq![]),
        decreases n - i,
    {
        let c = s.get_char(i);
        if quotes && c == '"' {
            quoted = !quoted;
        } else if c == sep && !quoted {
            let f = String::from_str(s.substring_char(start, i));
            proof {
                assert(strings_view(out@.push(f)) =~= strings_view(out@).push(f@));
            }
            out.push(f);
            start = i + 1;
        }
        i = i + 1;
    }
    let f = String::from_str(s.substring_char(start, n));
    proof {
        assert(strings_view(out@.push(f)) =~= strings_view(out@).push(f@));
    }
    out.push(f);
    out
}

/// A field with one pair of enclosing double quotes removed.
pub fn unquote(f: &str) -> (r: String)
    ensures
        r@ == unquoted(f@),
{
    let n = f.unicode_len();
    if n >= 2 && f.get_char(0) == '"' && f.get_char(n - 1) == '"' {
        String::from_str(f.substring_char(1, n - 1))
    } else {
        String::from_str(f)
    }
}

} // verus!
