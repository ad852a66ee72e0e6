//! Character-level text utilities shared by the assembler: digit
//! classification, decimal/hexadecimal conversion, and small string helpers.

use vstd::prelude::*;

verus! {

// ---------------------------------------------------------------------------
// character classes

pub open spec fn is_dec_digit(c: char) -> bool {
    48 <= c as u32 && c as u32 <= 57
}

pub open spec fn is_hex_digit(c: char) -> bool {
    is_dec_digit(c) || (97 <= c as u32 && c as u32 <= 102) || (65 <= c as u32 && c as u32 <= 70)
}

/// Numeric value of a hexadecimal digit character; unspecified garbage is 0.
pub open spec fn hex_digit_val(c: char) -> int {
    if is_dec_digit(c) {
        c as u32 - 48
    } else if 97 <= c as u32 && c as u32 <= 102 {
        c as u32 - 97 + 10
    } else if 65 <= c as u32 && c as u32 <= 70 {
        c as u32 - 65 + 10
    } else {
        0
    }
}

pub fn dec_digit(c: char) -> (r: bool)
    ensures
        r == is_dec_digit(c),
{
    let u = c as u32;
    48 <= u && u <= 57
}

pub fn hex_digit(c: char) -> (r: bool)
    ensures
        r == is_hex_digit(c),
{
    let u = c as u32;
    (48 <= u && u <= 57) || (97 <= u && u <= 102) || (65 <= u && u <= 70)
}

/// Value of a hexadecimal digit, as `char::to_digit(16)` would give it.
pub fn hex_digit_value(c: char) -> (r: u8)
    requires
        is_hex_digit(c),
    ensures
        r == hex_digit_val(c),
        r < 16,
{
    let u = c as u32;
    if u <= 57 {
        (u - 48) as u8
    } else if u >= 97 {
        (u - 97 + 10) as u8
    } else {
        (u - 65 + 10) as u8
    }
}

// ---------------------------------------------------------------------------
// decimal and hexadecimal numbers

pub open spec fn all_dec_digits(s: Seq<char>) -> bool {
    forall|i: int| 0 <= i < s.len() ==> is_dec_digit(#[trigger] s[i])
}

pub open spec fn all_hex_digits(s: Seq<char>) -> bool {
    forall|i: int| 0 <= i < s.len() ==> is_hex_digit(#[trigger] s[i])
}

/// The integer a digit string denotes in the given base, folded from the left.
pub open spec fn radix_value(s: Seq<char>, base: int) -> int
    decreases s.len(),
{
    if s.len() == 0 {
        0
    } else {
        radix_value(s.drop_last(), base) * base + hex_digit_val(s.last())
    }
}

pub open spec fn dec_value(s: Seq<char>) -> int {
    radix_value(s, 10)
}

pub open spec fn hex_value(s: Seq<char>) -> int {
    radix_value(s, 16)
}

pub proof fn lemma_radix_value_nonneg(s: Seq<char>, base: int)
    requires
        base >= 1,
    ensures
        radix_value(s, base) >= 0,
    decreases s.len(),
{
    if s.len() > 0 {
        lemma_radix_value_nonneg(s.drop_last(), base);
    }
}

/// Appending digits never decreases the denoted value.
pub proof fn lemma_radix_value_prefix_le(s: Seq<char>, i: int, base: int)
    requires
        base >= 1,
        0 <= i <= s.len(),
    ensures
        radix_value(s.subrange(0, i), base) <= radix_value(s, base),
    decreases s.len() - i,
{
    if i < s.len() {
        lemma_radix_value_prefix_le(s, i + 1, base);
        let p = s.subrange(0, i + 1);
        assert(p.drop_last() =~= s.subrange(0, i));
        lemma_radix_value_nonneg(s.subrange(0, i), base);
        let v = radix_value(s.subrange(0, i), base);
        assert(v * base >= v) by (nonlinear_arith)
            requires
                v >= 0,
                base >= 1,
        ;
    } else {
        assert(s.subrange(0, i) =~= s);
    }
}

/// `k` as parsed from a decimal token: the value when the token is a
/// non-empty digit string fitting `u16`, and `None` otherwise.
pub open spec fn spec_parse_u16_dec(s: Seq<char>) -> Option<u16> {
    if s.len() > 0 && all_dec_digits(s) && dec_value(s) <= 0xFFFF {
        Some(dec_value(s) as u16)
    } else {
        None
    }
}

/// Parse a decimal `u16`, as `str::parse::<u16>` accepts it for plain digit
/// strings (no sign, no leading `+`).
pub fn parse_u16_dec(s: &str) -> (r: Option<u16>)
    ensures
        r == spec_parse_u16_dec(s@),
{
    let n = s.unicode_len();
    if n == 0 {
        return None;
    }
    let mut acc: u32 = 0;
    let mut i: usize = 0;
    while i < n
        invariant
            0 <= i <= n,
            n == s@.len(),
            all_dec_digits(s@.subrange(0, i as int)),
            acc == dec_value(s@.subrange(0, i as int)),
            acc <= 0xFFFF,
        decreases n - i,
    {
        let c = s.get_char(i);
        if !dec_digit(c) {
            assert(!all_dec_digits(s@));
            return None;
        }
        let d = (c as u32) - 48;
        proof {
            assert(s@.subrange(0, i + 1).drop_last() =~= s@.subrange(0, i as int));
        }
        acc = acc * 10 + d;
        i = i + 1;
        if acc > 0xFFFF {
            proof {
                if all_dec_digits(s@) {
                    lemma_radix_value_prefix_le(s@, i as int, 10);
                    assert(s@.subrange(0, i as int).len() > 0);
                }
            }
            return None;
        }
    }
    proof {
        assert(s@.subrange(0, n as int) =~= s@);
    }
    Some(acc as u16)
}

// ---------------------------------------------------------------------------
// rendering a number back as decimal text

/// Decimal digit characters of `n`, most significant first.
pub open spec fn dec_digits_of(n: int) -> Seq<char>
    decreases n,
{
    if n < 10 {
        seq![dec_digit_char(n)]
    } else {
        dec_digits_of(n / 10).push(dec_digit_char(n % 10))
    }
}

pub open spec fn dec_digit_char(d: int) -> char {
    if d == 0 {
        '0'
    } else if d == 1 {
        '1'
    } else if d == 2 {
        '2'
    } else if d == 3 {
        '3'
    } else if d == 4 {
        '4'
    } else if d == 5 {
        '5'
    } else if d == 6 {
        '6'
    } else if d == 7 {
        '7'
    } else if d == 8 {
        '8'
    } else {
        '9'
    }
}

fn dec_digit_char_exec(d: u64) -> (c: char)
    requires
        d < 10,
    ensures
        c == dec_digit_char(d as int),
{
    if d == 0 {
        '0'
    } else if d == 1 {
        '1'
    } else if d == 2 {
        '2'
    } else if d == 3 {
        '3'
    } else if d == 4 {
        '4'
    } else if d == 5 {
        '5'
    } else if d == 6 {
        '6'
    } else if d == 7 {
        '7'
    } else if d == 8 {
        '8'
    } else {
        '9'
    }
}

/// The uppercase hexadecimal digit character for a value below 16.
pub open spec fn hex_digit_char(d: int) -> char {
    if d == 0 {
        '0'
    } else if d == 1 {
        '1'
    } else if d == 2 {
        '2'
    } else if d == 3 {
        '3'
    } else if d == 4 {
        '4'
    } else if d == 5 {
        '5'
    } else if d == 6 {
        '6'
    } else if d == 7 {
        '7'
    } else if d == 8 {
        '8'
    } else if d == 9 {
        '9'
    } else if d == 10 {
        'A'
    } else if d == 11 {
        'B'
    } else if d == 12 {
        'C'
    } else if d == 13 {
        'D'
    } else if d == 14 {
        'E'
    } else {
        'F'
    }
}

pub proof fn lemma_hex_digit_char(d: int)
    requires
        0 <= d < 16,
    ensures
        is_hex_digit(hex_digit_char(d)),
        hex_digit_val(hex_digit_char(d)) == d,
        hex_digit_char(d) != ',',
        hex_digit_char(d) != '\n',
{
}

pub proof fn lemma_dec_digit_char(d: int)
    requires
        0 <= d < 10,
    ensures
        is_dec_digit(dec_digit_char(d)),
        hex_digit_val(dec_digit_char(d)) == d,
{
}

/// The decimal rendering of `n` parses back to `n`.
pub proof fn lemma_dec_digits_of(n: int)
    requires
        0 <= n,
    ensures
        all_dec_digits(dec_digits_of(n)),
        dec_digits_of(n).len() >= 1,
        dec_value(dec_digits_of(n)) == n,
    decreases n,
{
    if n < 10 {
        lemma_dec_digit_char(n);
        let s = seq![dec_digit_char(n)];
        assert(s.len() == 1 && s.last() == dec_digit_char(n));
        assert(s.drop_last() =~= Seq::<char>::empty());
        assert(radix_value(s.drop_last(), 10) == 0);
        assert(dec_value(s) == n);
    } else {
        lemma_dec_digits_of(n / 10);
        lemma_dec_digit_char(n % 10);
        let p = dec_digits_of(n / 10);
        let s = p.push(dec_digit_char(n % 10));
        assert(s.drop_last() =~= p);
        assert(s.last() == dec_digit_char(n % 10));
        assert(dec_value(s) == dec_value(p) * 10 + n % 10);
        assert(forall|i: int| 0 <= i < p.len() ==> s[i] == p[i]);
    }
}

/// Append the decimal rendering of `n` to `out`.
pub fn push_dec_digits(out: &mut Vec<char>, n: u64)
    ensures
        final(out)@ == old(out)@ + dec_digits_of(n as int),
    decreases n,
{
    if n < 10 {
        out.push(dec_digit_char_exec(n));
    } else {
        push_dec_digits(out, n / 10);
        out.push(dec_digit_char_exec(n % 10));
    }
}

// ---------------------------------------------------------------------------
// strings and character vectors

/// Relies on `String::from_iter` over a character iterator: the resulting
/// string holds exactly the characters of `v` in order.
#[verifier::external_body]
pub(crate) fn chars_to_string(v: &Vec<char>) -> (s: String)
    ensures
        s@ == v@,
{
    v.iter().collect()
}

pub fn str_to_chars(s: &str) -> (v: Vec<char>)
    ensures
        v@ == s@,
{
    let n = s.unicode_len();
    let mut v: Vec<char> = Vec::new();
    let mut i: usize = 0;
    while i < n
        invariant
            0 <= i <= n,
            n == s@.len(),
            v@ == s@.subrange(0, i as int),
        decreases n - i,
    {
        v.push(s.get_char(i));
        i = i + 1;
        proof {
            assert(v@ =~= s@.subrange(0, i as int));
        }
    }
    proof {
        assert(s@.subrange(0, n as int) =~= s@);
    }
    v
}

// ---------------------------------------------------------------------------
// searching and splitting

/// Index of the first occurrence of `c` in `s`, or -1.
pub open spec fn find_char(s: Seq<char>, c: char) -> int
    decreases s.len(),
{
    if s.len() == 0 {
        -1
    } else if s[0] == c {
        0
    } else if find_char(s.skip(1), c) == -1 {
        -1
    } else {
        1 + find_char(s.skip(1), c)
    }
}

pub proof fn lemma_find_char_bounds(s: Seq<char>, c: char)
    ensures
        -1 <= find_char(s, c) < s.len(),
        find_char(s, c) >= 0 ==> s[find_char(s, c)] == c,
        forall|i: int| 0 <= i < s.len() && s[i] == c ==> find_char(s, c) >= 0,
        forall|i: int| 0 <= i < find_char(s, c) ==> s[i] != c,
        find_char(s, c) == -1 ==> forall|i: int| 0 <= i < s.len() ==> s[i] != c,
    decreases s.len(),
{
    if s.len() > 0 && s[0] != c {
        lemma_find_char_bounds(s.skip(1), c);
        assert(forall|i: int| 1 <= i < s.len() ==> s[i] == s.skip(1)[i - 1]);
    }
}

/// The pieces of `s` between occurrences of `sep`, as `str::split` yields
/// them: every separator splits, so adjacent separators give empty pieces,
/// and the piece list is never empty.
pub open spec fn split_char(s: Seq<char>, sep: char) -> Seq<Seq<char>>
    decreases s.len(),
    via split_char_decreases
{
    if find_char(s, sep) == -1 {
        seq![s]
    } else {
        seq![s.take(find_char(s, sep))] + split_char(s.skip(find_char(s, sep) + 1), sep)
    }
}

#[via_fn]
proof fn split_char_decreases(s: Seq<char>, sep: char) {
    lemma_find_char_bounds(s, sep);
}

/// The lines of `s`, as `str::lines` yields them for `\n`-separated text: a
/// final newline does not open a last, empty line.
pub open spec fn lines_of(s: Seq<char>) -> Seq<Seq<char>> {
    {
        let ps = split_char(s, '\n');
        if ps.last().len() == 0 {
            ps.drop_last()
        } else {
            ps
        }
    }
}

/// Split `s` at every occurrence of `sep`.
pub fn split_string(s: &str, sep: char) -> (r: Vec<String>)
    ensures
        r.deep_view() == split_char(s@, sep),
        r@.len() >= 1,
    decreases s@.len(),
{
    let n = s.unicode_len();
    let mut j: usize = 0;
    while j < n
        invariant_except_break
            0 <= j <= n,
            n == s@.len(),
            forall|i: int| 0 <= i < j ==> s@[i] != sep,
        ensures
            0 <= j <= n,
            n == s@.len(),
            forall|i: int| 0 <= i < j ==> s@[i] != sep,
            j < n ==> s@[j as int] == sep,
        decreases n - j,
    {
        if s.get_char(j) == sep {
            break ;
        }
        j = j + 1;
    }
    proof {
        lemma_find_char_bounds(s@, sep);
    }
    if j == n {
        proof {
            assert(find_char(s@, sep) == -1);
        }
        let mut r: Vec<String> = Vec::new();
        r.push(s.to_owned());
        proof {
            assert(r.deep_view() =~= split_char(s@, sep));
        }
        r
    } else {
        proof {
            assert(find_char(s@, sep) == j);
        }
        let head = s.substring_char(0, j);
        let tail = s.substring_char(j + 1, n);
        let mut r: Vec<String> = Vec::new();
        r.push(head.to_owned());
        let mut rest = split_string(tail, sep);
        let ghost rest_pre = rest@;
        let ghost rest_dv = rest.deep_view();
        r.append(&mut rest);
        proof {
            let target = seq![s@.take(find_char(s@, sep))] + rest_dv;
            assert forall|i: int| 0 <= i < r.deep_view().len() implies r.deep_view()[i]
                == target[i] by {
                assert(r.deep_view()[i] == r@[i].deep_view());
                if i > 0 {
                    assert(r@[i] == rest_pre[i - 1]);
                    assert(rest_dv[i - 1] == rest_pre[i - 1].deep_view());
                }
            }
            assert(r.deep_view() =~= target);
            assert(r.deep_view() =~= split_char(s@, sep));
        }
        r
    }
}

/// Index of the first occurrence of `c`, as `str::find` reports it.
pub fn find_char_in(s: &str, c: char) -> (r: Option<usize>)
    ensures
        match r {
            Some(i) => find_char(s@, c) == i,
            None => find_char(s@, c) == -1,
        },
{
    let n = s.unicode_len();
    let mut j: usize = 0;
    while j < n
        invariant_except_break
            0 <= j <= n,
            n == s@.len(),
            forall|i: int| 0 <= i < j ==> s@[i] != c,
        ensures
            0 <= j <= n,
            n == s@.len(),
            forall|i: int| 0 <= i < j ==> s@[i] != c,
            j < n ==> s@[j as int] == c,
        decreases n - j,
    {
        if s.get_char(j) == c {
            break ;
        }
        j = j + 1;
    }
    proof {
        lemma_find_char_bounds(s@, c);
    }
    if j == n {
        None
    } else {
        Some(j)
    }
}

/// Index of the first blank line: the first `i` where a newline immediately
/// follows a newline, or -1.
pub open spec fn find_nn(s: Seq<char>) -> int
    decreases s.len(),
{
    if s.len() < 2 {
        -1
    } else if s[0] == '\n' && s[1] == '\n' {
        0
    } else if find_nn(s.skip(1)) == -1 {
        -1
    } else {
        1 + find_nn(s.skip(1))
    }
}

pub proof fn lemma_find_nn_bounds(s: Seq<char>)
    ensures
        -1 <= find_nn(s),
        find_nn(s) >= 0 ==> find_nn(s) + 2 <= s.len(),
        find_nn(s) >= 0 ==> s[find_nn(s)] == '\n' && s[find_nn(s) + 1] == '\n',
        forall|i: int|
            0 <= i < find_nn(s) ==> !(#[trigger] s[i] == '\n' && s[i + 1] == '\n'),
        find_nn(s) == -1 ==> forall|i: int|
            0 <= i < s.len() - 1 ==> !(#[trigger] s[i] == '\n' && s[i + 1] == '\n'),
    decreases s.len(),
{
    if s.len() >= 2 && !(s[0] == '\n' && s[1] == '\n') {
        lemma_find_nn_bounds(s.skip(1));
        assert(forall|i: int| 1 <= i < s.len() ==> s[i] == s.skip(1)[i - 1]);
    }
}

/// Index of the first `\n\n`, as `str::find` reports it for that pattern.
pub fn find_double_newline(s: &str) -> (r: Option<usize>)
    ensures
        match r {
            Some(i) => find_nn(s@) == i,
            None => find_nn(s@) == -1,
        },
{
    let n = s.unicode_len();
    if n < 2 {
        proof {
            lemma_find_nn_bounds(s@);
        }
        return None;
    }
    let mut j: usize = 0;
    while j < n - 1
        invariant_except_break
            0 <= j <= n - 1,
            n == s@.len(),
            n >= 2,
            forall|i: int| 0 <= i < j ==> !(#[trigger] s@[i] == '\n' && s@[i + 1] == '\n'),
        ensures
            0 <= j <= n - 1,
            n == s@.len(),
            forall|i: int| 0 <= i < j ==> !(#[trigger] s@[i] == '\n' && s@[i + 1] == '\n'),
            j < n - 1 ==> s@[j as int] == '\n' && s@[j + 1] == '\n',
        decreases n - j,
    {
        if s.get_char(j) == '\n' && s.get_char(j + 1) == '\n' {
            break ;
        }
        j = j + 1;
    }
    proof {
        lemma_find_nn_bounds(s@);
    }
    if j == n - 1 {
        None
    } else {
        Some(j)
    }
}

/// The lines of `s`, matching `lines_of`.
pub fn split_lines(s: &str) -> (r: Vec<String>)
    ensures
        r.deep_view() == lines_of(s@),
{
    let mut ps = split_string(s, '\n');
    let ghost ps0 = ps.deep_view();
    let last_len = ps[ps.len() - 1].as_str().unicode_len();
    if last_len == 0 {
        ps.pop();
        proof {
            assert(ps.deep_view() =~= ps0.drop_last());
            assert(ps.deep_view() == lines_of(s@));
        }
    } else {
        proof {
            assert(ps.deep_view() == lines_of(s@));
        }
    }
    ps
}

/// `s` with every occurrence of `c` removed, the other characters in order.
pub open spec fn strip_char(s: Seq<char>, c: char) -> Seq<char>
    decreases s.len(),
{
    if s.len() == 0 {
        Seq::empty()
    } else {
        {
            let p = strip_char(s.drop_last(), c);
            if s.last() == c {
                p
            } else {
                p.push(s.last())
            }
        }
    }
}

/// Remove every occurrence of `c` from `s`.
pub fn remove_char(s: &str, c: char) -> (r: String)
    ensures
        r@ == strip_char(s@, c),
{
    let n = s.unicode_len();
    let mut out: Vec<char> = Vec::new();
    let mut i: usize = 0;
    while i < n
        invariant
            0 <= i <= n,
            n == s@.len(),
            out@ == strip_char(s@.subrange(0, i as int), c),
        decreases n - i,
    {
        let ch = s.get_char(i);
        proof {
            assert(s@.subrange(0, i + 1).drop_last() =~= s@.subrange(0, i as int));
        }
        if ch != c {
            out.push(ch);
        }
        i = i + 1;
    }
    proof {
        assert(s@.subrange(0, n as int) =~= s@);
    }
    chars_to_string(&out)
}

// ---------------------------------------------------------------------------
// the hexadecimal-to-decimal preprocessor's scan

/// End of the run of hexadecimal digits that starts at `p`: the first
/// position holding a non-digit. The run never claims the final character of
/// the text, which the scan's stop condition excludes.
pub open spec fn hex_run_end(s: Seq<char>, p: int) -> int
    decreases s.len() - p,
{
    if p + 1 < s.len() && is_hex_digit(s[p]) {
        hex_run_end(s, p + 1)
    } else {
        p
    }
}

pub proof fn lemma_hex_run_end(s: Seq<char>, p: int)
    requires
        0 <= p <= s.len(),
    ensures
        p <= hex_run_end(s, p) <= s.len(),
        forall|j: int| p <= j < hex_run_end(s, p) ==> is_hex_digit(#[trigger] s[j]),
    decreases s.len() - p,
{
    if p + 1 < s.len() && is_hex_digit(s[p]) {
        lemma_hex_run_end(s, p + 1);
    }
}

/// `s` with every `0x`-prefixed hexadecimal literal rewritten to decimal.
/// A `0x` not followed by a digit (inside the scan's stop rule) is copied
/// one character at a time; `spec_hex_wf` rules that case out for callers.
pub open spec fn hex_rewrite(s: Seq<char>) -> Seq<char>
    decreases s.len(),
    via hex_rewrite_decreases
{
    if s.len() == 0 {
        Seq::empty()
    } else if s.len() >= 2 && s[0] == '0' && s[1] == 'x' && hex_run_end(s, 2) > 2 {
        dec_digits_of(hex_value(s.subrange(2, hex_run_end(s, 2)))) + hex_rewrite(
            s.skip(hex_run_end(s, 2)),
        )
    } else {
        seq![s[0]] + hex_rewrite(s.skip(1))
    }
}

#[via_fn]
proof fn hex_rewrite_decreases(s: Seq<char>) {
    if s.len() >= 2 {
        lemma_hex_run_end(s, 2);
    }
}

/// Every `0x` occurrence opens a run of one to sixteen hexadecimal digits,
/// so each literal parses and its value fits in a `u64`.
pub open spec fn spec_hex_wf(s: Seq<char>) -> bool
    decreases s.len(),
    via spec_hex_wf_decreases
{
    if s.len() == 0 {
        true
    } else if s.len() >= 2 && s[0] == '0' && s[1] == 'x' {
        &&& hex_run_end(s, 2) > 2
        &&& hex_run_end(s, 2) - 2 <= 16
        &&& spec_hex_wf(s.skip(hex_run_end(s, 2)))
    } else {
        spec_hex_wf(s.skip(1))
    }
}

#[via_fn]
proof fn spec_hex_wf_decreases(s: Seq<char>) {
    if s.len() >= 2 {
        lemma_hex_run_end(s, 2);
    }
}

/// `s` holds no `0x` at all.
pub open spec fn no_hex_prefix(s: Seq<char>) -> bool {
    forall|i: int| 0 <= i < s.len() - 1 ==> !(#[trigger] s[i] == '0' && s[i + 1] == 'x')
}

/// Sixteen to the `n`th power; the bound on an `n`-digit hexadecimal value.
pub open spec fn pow16(n: int) -> int
    decreases n,
{
    if n <= 0 {
        1
    } else {
        16 * pow16(n - 1)
    }
}

pub proof fn lemma_pow16_le(a: int, b: int)
    requires
        a <= b,
    ensures
        0 < pow16(a) <= pow16(b),
    decreases b,
{
    if b > 0 {
        if a == b {
            lemma_pow16_le(a - 1, b - 1);
        } else {
            lemma_pow16_le(a, b - 1);
        }
    }
}

pub proof fn lemma_hex_value_bound(s: Seq<char>)
    ensures
        0 <= radix_value(s, 16) < pow16(s.len() as int),
    decreases s.len(),
{
    if s.len() == 0 {
    } else {
        lemma_hex_value_bound(s.drop_last());
        let v = radix_value(s.drop_last(), 16);
        let n = s.len() as int;
        assert(pow16(n) == 16 * pow16(n - 1));
        assert(v <= pow16(n - 1) - 1);
        assert(v * 16 <= (pow16(n - 1) - 1) * 16) by (nonlinear_arith)
            requires
                v <= pow16(n - 1) - 1,
        ;
        assert(hex_digit_val(s.last()) < 16);
    }
}

/// Character-for-character string equality.
pub fn str_eq(a: &str, b: &str) -> (r: bool)
    ensures
        r == (a@ == b@),
{
    let n = a.unicode_len();
    if n != b.unicode_len() {
        proof {
            assert(a@ != b@);
        }
        return false;
    }
    let mut i: usize = 0;
    while i < n
        invariant
            0 <= i <= n,
            n == a@.len(),
            n == b@.len(),
            forall|j: int| 0 <= j < i ==> a@[j] == b@[j],
        decreases n - i,
    {
        if a.get_char(i) != b.get_char(i) {
            return false;
        }
        i = i + 1;
    }
    proof {
        assert(a@ =~= b@);
    }
    true
}

} // verus!
