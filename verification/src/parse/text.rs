//! Verified lexical primitives for field-by-field line decoding:
//! whitespace trimming, single-delimiter splitting and decimal parsing,
//! all specified over sequences of characters.

use vstd::prelude::*;

verus! {

/// Whether `c` carries the Unicode `White_Space` property, the set of
/// characters that `char::is_whitespace` accepts.
pub open spec fn spec_is_space(c: char) -> bool {
    let u = c as u32;
    ||| u == 0x09
    ||| u == 0x0A
    ||| u == 0x0B
    ||| u == 0x0C
    ||| u == 0x0D
    ||| u == 0x20
    ||| u == 0x85
    ||| u == 0xA0
    ||| u == 0x1680
    ||| (0x2000 <= u && u <= 0x200A)
    ||| u == 0x2028
    ||| u == 0x2029
    ||| u == 0x202F
    ||| u == 0x205F
    ||| u == 0x3000
}

/// Decides `spec_is_space`.
#[verifier::when_used_as_spec(spec_is_space)]
pub fn is_space(c: char) -> (r: bool)
    ensures
        r == spec_is_space(c),
{
    let u = c as u32;
    u == 0x09 || u == 0x0A || u == 0x0B || u == 0x0C || u == 0x0D || u == 0x20 || u == 0x85
        || u == 0xA0 || u == 0x1680 || (0x2000 <= u && u <= 0x200A) || u == 0x2028 || u == 0x2029
        || u == 0x202F || u == 0x205F || u == 0x3000
}

/// Whether `c` is an ASCII decimal digit.
pub open spec fn spec_is_digit(c: char) -> bool {
    0x30 <= c as u32 <= 0x39
}

/// The numeric value of the digit `c`.
pub open spec fn digit_val(c: char) -> int
    recommends
        spec_is_digit(c),
{
    c as u32 - 0x30
}

/// The first index at or after `i` holding a character that is not
/// whitespace, or the length of `s` if only whitespace follows.
pub open spec fn skip_spaces_from(s: Seq<char>, i: int) -> int
    decreases s.len() - i,
{
    if i < 0 || i >= s.len() {
        s.len() as int
    } else if spec_is_space(s[i]) {
        skip_spaces_from(s, i + 1)
    } else {
        i
    }
}

/// The first index at or after `i` holding a whitespace character, or the
/// length of `s` if none follows.
pub open spec fn find_space_from(s: Seq<char>, i: int) -> int
    decreases s.len() - i,
{
    if i < 0 || i >= s.len() {
        s.len() as int
    } else if spec_is_space(s[i]) {
        i
    } else {
        find_space_from(s, i + 1)
    }
}

/// The first index at or after `i` holding the character `c`, or the
/// length of `s` if none follows.
pub open spec fn find_char_from(s: Seq<char>, i: int, c: char) -> int
    decreases s.len() - i,
{
    if i < 0 || i >= s.len() {
        s.len() as int
    } else if s[i] == c {
        i
    } else {
        find_char_from(s, i + 1, c)
    }
}

/// The first index at or after `i` holding `:` or `.`, or the length of
/// `s` if none follows.
pub open spec fn find_delim_from(s: Seq<char>, i: int) -> int
    decreases s.len() - i,
{
    if i < 0 || i >= s.len() {
        s.len() as int
    } else if s[i] == ':' || s[i] == '.' {
        i
    } else {
        find_delim_from(s, i + 1)
    }
}

/// `s` without its leading whitespace.
pub open spec fn spec_trim_start(s: Seq<char>) -> Seq<char> {
    s.subrange(skip_spaces_from(s, 0), s.len() as int)
}

/// The length of `s` once trailing whitespace is removed.
pub open spec fn trim_end_len(s: Seq<char>) -> int
    decreases s.len(),
{
    if s.len() == 0 {
        0
    } else if spec_is_space(s[s.len() - 1]) {
        trim_end_len(s.drop_last())
    } else {
        s.len() as int
    }
}

/// `s` without its trailing whitespace.
pub open spec fn spec_trim_end(s: Seq<char>) -> Seq<char> {
    s.take(trim_end_len(s))
}

/// Whether `s`, once leading whitespace is skipped, still holds a
/// whitespace boundary ending a token.
pub open spec fn has_token(s: Seq<char>) -> bool {
    find_space_from(spec_trim_start(s), 0) < spec_trim_start(s).len()
}

/// The characters of `s` between its leading whitespace and the next
/// whitespace boundary.
pub open spec fn token_of(s: Seq<char>) -> Seq<char> {
    spec_trim_start(s).take(find_space_from(spec_trim_start(s), 0))
}

/// What follows the whitespace boundary that ends the token of `s`.
pub open spec fn rest_after_token(s: Seq<char>) -> Seq<char> {
    let t = spec_trim_start(s);
    t.subrange(find_space_from(t, 0) + 1, t.len() as int)
}

proof fn lemma_trim_end_len_bounds(s: Seq<char>)
    ensures
        0 <= trim_end_len(s) <= s.len(),
    decreases s.len(),
{
    if s.len() > 0 && spec_is_space(s[s.len() - 1]) {
        lemma_trim_end_len_bounds(s.drop_last());
    }
}

/// Everything below the index where whitespace skipping stops is
/// whitespace, and that index holds none itself.
proof fn lemma_skip_spaces_props(s: Seq<char>, i: int)
    requires
        0 <= i <= s.len(),
    ensures
        i <= skip_spaces_from(s, i) <= s.len(),
        forall|k: int| i <= k < skip_spaces_from(s, i) ==> spec_is_space(#[trigger] s[k]),
        skip_spaces_from(s, i) < s.len() ==> !spec_is_space(s[skip_spaces_from(s, i)]),
    decreases s.len() - i,
{
    if i < s.len() && spec_is_space(s[i]) {
        lemma_skip_spaces_props(s, i + 1);
    }
}

/// An index below which everything is whitespace, and which holds none
/// itself, is where skipping leading whitespace stops.
pub proof fn lemma_skip_spaces_at(s: Seq<char>, i: int, j: int)
    requires
        0 <= i <= j <= s.len(),
        forall|k: int| i <= k < j ==> spec_is_space(s[k]),
        j < s.len() ==> !spec_is_space(s[j]),
    ensures
        skip_spaces_from(s, i) == j,
    decreases j - i,
{
    if i < j {
        assert(spec_is_space(s[i]));
        lemma_skip_spaces_at(s, i + 1, j);
    }
}

/// An index below which nothing is whitespace, and which holds some
/// itself, is where the whitespace search stops.
pub proof fn lemma_find_space_at(s: Seq<char>, i: int, j: int)
    requires
        0 <= i <= j <= s.len(),
        forall|k: int| i <= k < j ==> !spec_is_space(s[k]),
        j < s.len() ==> spec_is_space(s[j]),
    ensures
        find_space_from(s, i) == j,
    decreases j - i,
{
    if i < j {
        assert(!spec_is_space(s[i]));
        lemma_find_space_at(s, i + 1, j);
    }
}

/// An index below which `c` does not occur, and which holds `c` itself,
/// is where the search for `c` stops.
pub proof fn lemma_find_char_at(s: Seq<char>, i: int, j: int, c: char)
    requires
        0 <= i <= j <= s.len(),
        forall|k: int| i <= k < j ==> s[k] != c,
        j < s.len() ==> s[j] == c,
    ensures
        find_char_from(s, i, c) == j,
    decreases j - i,
{
    if i < j {
        assert(s[i] != c);
        lemma_find_char_at(s, i + 1, j, c);
    }
}

/// Whitespace ahead of a field never changes what is parsed: against a
/// whitespace-padded input, trimming, the token, the token boundary and
/// the remainder are those of the unpadded input.
pub proof fn lemma_leading_whitespace_ignored(pad: Seq<char>, s: Seq<char>)
    requires
        forall|i: int| 0 <= i < pad.len() ==> spec_is_space(#[trigger] pad[i]),
    ensures
        spec_trim_start(pad + s) == spec_trim_start(s),
        has_token(pad + s) == has_token(s),
        token_of(pad + s) == token_of(s),
        rest_after_token(pad + s) == rest_after_token(s),
{
    let c = pad + s;
    let j0 = skip_spaces_from(s, 0);
    lemma_skip_spaces_props(s, 0);
    assert forall|k: int| 0 <= k < pad.len() + j0 implies spec_is_space(c[k]) by {
        if k < pad.len() {
            assert(c[k] == pad[k]);
        } else {
            assert(c[k] == s[k - pad.len()]);
        }
    }
    if pad.len() + j0 < c.len() {
        assert(c[pad.len() + j0] == s[j0]);
    }
    lemma_skip_spaces_at(c, 0, pad.len() + j0);
    assert(spec_trim_start(c) =~= spec_trim_start(s));
}

/// Scans `s` from index `from` for the first character that is not
/// whitespace.
pub fn scan_non_space(s: &str, from: usize) -> (r: usize)
    requires
        from <= s@.len(),
    ensures
        r == skip_spaces_from(s@, from as int),
        from <= r <= s@.len(),
    {
    let n = s.unicode_len();
    let mut j: usize = from;
    while j < n
        invariant
            from <= j <= n,
            n == s@.len(),
            skip_spaces_from(s@, from as int) == skip_spaces_from(s@, j as int),
        decreases n - j,
    {
        let c = s.get_char(j);
        if !is_space(c) {
            return j;
        }
        j += 1;
    }
    j
}

/// Scans `s` from index `from` for the first whitespace character.
pub fn scan_space(s: &str, from: usize) -> (r: usize)
    requires
        from <= s@.len(),
    ensures
        r == find_space_from(s@, from as int),
        from <= r <= s@.len(),
    {
    let n = s.unicode_len();
    let mut j: usize = from;
    while j < n
        invariant
            from <= j <= n,
            n == s@.len(),
            find_space_from(s@, from as int) == find_space_from(s@, j as int),
        decreases n - j,
    {
        let c = s.get_char(j);
        if is_space(c) {
            return j;
        }
        j += 1;
    }
    j
}

/// Scans `s` from index `from` for the first occurrence of `c`.
pub fn scan_char(s: &str, from: usize, c: char) -> (r: usize)
    requires
        from <= s@.len(),
    ensures
        r == find_char_from(s@, from as int, c),
        from <= r <= s@.len(),
    {
    let n = s.unicode_len();
    let mut j: usize = from;
    while j < n
        invariant
            from <= j <= n,
            n == s@.len(),
            find_char_from(s@, from as int, c) == find_char_from(s@, j as int, c),
        decreases n - j,
    {
        let d = s.get_char(j);
        if d == c {
            return j;
        }
        j += 1;
    }
    j
}

/// Scans `s` from index `from` for the first `:` or `.`.
pub fn scan_delim(s: &str, from: usize) -> (r: usize)
    requires
        from <= s@.len(),
    ensures
        r == find_delim_from(s@, from as int),
        from <= r <= s@.len(),
    {
    let n = s.unicode_len();
    let mut j: usize = from;
    while j < n
        invariant
            from <= j <= n,
            n == s@.len(),
            find_delim_from(s@, from as int) == find_delim_from(s@, j as int),
        decreases n - j,
    {
        let d = s.get_char(j);
        if d == ':' || d == '.' {
            return j;
        }
        j += 1;
    }
    j
}

/// Removes leading whitespace from `s`.
pub fn trim_start<'a>(s: &'a str) -> (r: &'a str)
    ensures
        r@ == spec_trim_start(s@),
{
    let n = s.unicode_len();
    let j = scan_non_space(s, 0);
    s.substring_char(j, n)
}

/// Removes trailing whitespace from `s`.
pub fn trim_end<'a>(s: &'a str) -> (r: &'a str)
    ensures
        r@ == spec_trim_end(s@),
{
    let n = s.unicode_len();
    let mut k: usize = n;
    proof {
        assert(s@.take(n as int) =~= s@);
        lemma_trim_end_len_bounds(s@);
    }
    while k > 0
        invariant
            k <= n,
            n == s@.len(),
            trim_end_len(s@) == trim_end_len(s@.take(k as int)),
            trim_end_len(s@.take(k as int)) <= k,
        decreases k,
    {
        let c = s.get_char(k - 1);
        proof {
            assert(s@.take(k as int)[k - 1] == s@[k as int - 1]);
        }
        if !is_space(c) {
            proof {
                assert(trim_end_len(s@.take(k as int)) == k);
            }
            return s.substring_char(0, k);
        }
        proof {
            assert(s@.take(k as int).drop_last() =~= s@.take(k as int - 1));
            lemma_trim_end_len_bounds(s@.take(k as int - 1));
        }
        k -= 1;
    }
    proof {
        assert(s@.take(0).len() == 0);
    }
    s.substring_char(0, 0)
}

/// Splits `s` at its first whitespace character; that character belongs
/// to neither half. Returns `None` when `s` holds no whitespace.
pub fn split_once_ws<'a>(s: &'a str) -> (r: Option<(&'a str, &'a str)>)
    ensures
        match r {
            Some(p) => {
                &&& find_space_from(s@, 0) < s@.len()
                &&& p.0@ == s@.take(find_space_from(s@, 0))
                &&& p.1@ == s@.subrange(find_space_from(s@, 0) + 1, s@.len() as int)
            },
            None => find_space_from(s@, 0) == s@.len(),
        },
{
    let n = s.unicode_len();
    let f = scan_space(s, 0);
    if f == n {
        None
    } else {
        Some((s.substring_char(0, f), s.substring_char(f + 1, n)))
    }
}

/// Splits `s` at the first occurrence of `c`; that character belongs to
/// neither half. Returns `None` when `c` does not occur in `s`.
pub fn split_once_char<'a>(s: &'a str, c: char) -> (r: Option<(&'a str, &'a str)>)
    ensures
        match r {
            Some(p) => {
                &&& find_char_from(s@, 0, c) < s@.len()
                &&& p.0@ == s@.take(find_char_from(s@, 0, c))
                &&& p.1@ == s@.subrange(find_char_from(s@, 0, c) + 1, s@.len() as int)
            },
            None => find_char_from(s@, 0, c) == s@.len(),
        },
{
    let n = s.unicode_len();
    let f = scan_char(s, 0, c);
    if f == n {
        None
    } else {
        Some((s.substring_char(0, f), s.substring_char(f + 1, n)))
    }
}

/// Removes the first character of `s`, whatever it is; the empty string
/// stays empty.
pub fn skip_first<'a>(s: &'a str) -> (r: &'a str)
    ensures
        r@ == if s@.len() == 0 {
            s@
        } else {
            s@.skip(1)
        },
{
    let n = s.unicode_len();
    if n == 0 {
        s
    } else {
        s.substring_char(1, n)
    }
}

/// Whether the first character of `s` is `c`.
pub fn starts_with_char(s: &str, c: char) -> (r: bool)
    ensures
        r == (s@.len() > 0 && s@[0] == c),
{
    let n = s.unicode_len();
    n > 0 && s.get_char(0) == c
}

/// Whether every character of `s` is an ASCII decimal digit.
pub open spec fn all_digits(s: Seq<char>) -> bool {
    forall|i: int| 0 <= i < s.len() ==> spec_is_digit(#[trigger] s[i])
}

/// The value of `s` read as a decimal numeral, most significant digit
/// first.
pub open spec fn digits_val(s: Seq<char>) -> int
    decreases s.len(),
{
    if s.len() == 0 {
        0
    } else {
        digits_val(s.drop_last()) * 10 + digit_val(s.last())
    }
}

/// `s` without one leading `+`, the sign Rust's unsigned parsing accepts.
pub open spec fn unsigned_body(s: Seq<char>) -> Seq<char> {
    if s.len() > 0 && s[0] == '+' {
        s.skip(1)
    } else {
        s
    }
}

/// Whether `s` parses as a `u32` under Rust's `str::parse`: an optional
/// `+`, then one or more digits, with a value in range.
pub open spec fn u32_ok(s: Seq<char>) -> bool {
    let b = unsigned_body(s);
    b.len() > 0 && all_digits(b) && digits_val(b) <= u32::MAX
}

/// The value `s` parses to as a `u32`.
pub open spec fn u32_val(s: Seq<char>) -> int {
    digits_val(unsigned_body(s))
}

/// `s` without one leading `+` or `-`, the signs Rust's signed parsing
/// accepts.
pub open spec fn signed_body(s: Seq<char>) -> Seq<char> {
    if s.len() > 0 && (s[0] == '+' || s[0] == '-') {
        s.skip(1)
    } else {
        s
    }
}

/// Whether `s` carries a leading minus sign.
pub open spec fn signed_negative(s: Seq<char>) -> bool {
    s.len() > 0 && s[0] == '-'
}

/// Whether `s` parses as an `i32` under Rust's `str::parse`: an optional
/// sign, then one or more digits, with a value in range.
pub open spec fn i32_ok(s: Seq<char>) -> bool {
    let b = signed_body(s);
    b.len() > 0 && all_digits(b) && (if signed_negative(s) {
        digits_val(b) <= 0x8000_0000
    } else {
        digits_val(b) <= 0x7fff_ffff
    })
}

/// The value `s` parses to as an `i32`.
pub open spec fn i32_val(s: Seq<char>) -> int {
    if signed_negative(s) {
        -digits_val(signed_body(s))
    } else {
        digits_val(signed_body(s))
    }
}

/// Reading one more digit multiplies the value so far by ten and adds
/// that digit.
proof fn lemma_digits_val_step(s: Seq<char>, m: int)
    requires
        0 <= m < s.len(),
    ensures
        digits_val(s.take(m + 1)) == digits_val(s.take(m)) * 10 + digit_val(s[m]),
{
    assert(s.take(m + 1).drop_last() =~= s.take(m));
    assert(s.take(m + 1).last() == s[m]);
}

/// A numeral of digits has a value of at least zero.
proof fn lemma_digits_val_nonneg(s: Seq<char>)
    requires
        all_digits(s),
    ensures
        digits_val(s) >= 0,
    decreases s.len(),
{
    if s.len() > 0 {
        assert(all_digits(s.drop_last()));
        lemma_digits_val_nonneg(s.drop_last());
        assert(spec_is_digit(s.last()));
    }
}

/// The value of a prefix of a numeral never exceeds the value of a
/// longer prefix.
proof fn lemma_digits_val_mono(s: Seq<char>, i: int, m: int)
    requires
        all_digits(s),
        0 <= i <= m <= s.len(),
    ensures
        digits_val(s.take(i)) <= digits_val(s.take(m)),
    decreases m - i,
{
    if i < m {
        lemma_digits_val_mono(s, i, m - 1);
        lemma_digits_val_step(s, m - 1);
        assert(all_digits(s.take(m - 1)));
        lemma_digits_val_nonneg(s.take(m - 1));
        assert(spec_is_digit(s[m - 1]));
    }
}

/// Parses `s` as a `u32` exactly as Rust's `str::parse` does.
pub fn parse_u32(s: &str) -> (r: Option<u32>)
    ensures
        match r {
            Some(v) => u32_ok(s@) && v as int == u32_val(s@),
            None => !u32_ok(s@),
        },
{
    let n = s.unicode_len();
    let mut j: usize = 0;
    if n > 0 && s.get_char(0) == '+' {
        j = 1;
    }
    let ghost body = unsigned_body(s@);
    proof {
        assert(body =~= s@.subrange(j as int, n as int));
    }
    if j == n {
        return None;
    }
    let mut acc: u32 = 0;
    let mut k: usize = j;
    while k < n
        invariant
            j <= k <= n,
            n == s@.len(),
            body == unsigned_body(s@),
            body =~= s@.subrange(j as int, n as int),
            all_digits(body.take(k - j)),
            acc as int == digits_val(body.take(k - j)),
        decreases n - k,
    {
        let c = s.get_char(k);
        let u = c as u32;
        if u < 0x30 || u > 0x39 {
            proof {
                assert(body[k - j] == s@[k as int]);
                assert(!spec_is_digit(body[k - j]));
            }
            return None;
        }
        let d: u32 = u - 0x30;
        proof {
            lemma_digits_val_step(body, k - j);
            assert(body[k - j] == s@[k as int]);
        }
        let wide: u64 = acc as u64 * 10 + d as u64;
        if wide > 0xffff_ffff {
            proof {
                if all_digits(body) {
                    lemma_digits_val_mono(body, k - j + 1, body.len() as int);
                    assert(body.take(body.len() as int) =~= body);
                }
            }
            return None;
        }
        acc = wide as u32;
        k += 1;
    }
    proof {
        assert(body.take(body.len() as int) =~= body);
    }
    Some(acc)
}

/// Parses `s` as an `i32` exactly as Rust's `str::parse` does.
pub fn parse_i32(s: &str) -> (r: Option<i32>)
    ensures
        match r {
            Some(v) => i32_ok(s@) && v as int == i32_val(s@),
            None => !i32_ok(s@),
        },
{
    let n = s.unicode_len();
    let mut j: usize = 0;
    let mut neg = false;
    if n > 0 {
        let c = s.get_char(0);
        if c == '+' {
            j = 1;
        } else if c == '-' {
            j = 1;
            neg = true;
        }
    }
    let ghost body = signed_body(s@);
    proof {
        assert(body =~= s@.subrange(j as int, n as int));
    }
    if j == n {
        return None;
    }
    let bound: u64 = if neg {
        0x8000_0000
    } else {
        0x7fff_ffff
    };
    let mut acc: u32 = 0;
    let mut k: usize = j;
    while k < n
        invariant
            j <= k <= n,
            n == s@.len(),
            neg == signed_negative(s@),
            bound == if neg {
                0x8000_0000u64
            } else {
                0x7fff_ffffu64
            },
            body == signed_body(s@),
            body =~= s@.subrange(j as int, n as int),
            all_digits(body.take(k - j)),
            acc as int == digits_val(body.take(k - j)),
            acc as u64 <= bound,
        decreases n - k,
    {
        let c = s.get_char(k);
        let u = c as u32;
        if u < 0x30 || u > 0x39 {
            proof {
                assert(body[k - j] == s@[k as int]);
                assert(!spec_is_digit(body[k - j]));
            }
            return None;
        }
        let d: u32 = u - 0x30;
        proof {
            lemma_digits_val_step(body, k - j);
            assert(body[k - j] == s@[k as int]);
        }
        let wide: u64 = acc as u64 * 10 + d as u64;
        if wide > bound {
            proof {
                if all_digits(body) {
                    lemma_digits_val_mono(body, k - j + 1, body.len() as int);
                    assert(body.take(body.len() as int) =~= body);
                }
            }
            return None;
        }
        acc = wide as u32;
        k += 1;
    }
    proof {
        assert(body.take(body.len() as int) =~= body);
    }
    if neg {
        if acc == 0x8000_0000 {
            Some(i32::MIN)
        } else {
            Some(-(acc as i32))
        }
    } else {
        Some(acc as i32)
    }
}

} // verus!
