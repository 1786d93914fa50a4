//! Small utilities shared across the engine: stripping end-of-line
//! comments, classifying the characters that may appear in an amount's
//! quantity or currency symbol, and truncating division.

use vstd::prelude::*;

verus! {

/// True of the characters with the Unicode `White_Space` property, the
/// set that `char::is_whitespace` accepts.
pub open spec fn spec_is_whitespace(c: char) -> bool {
    ||| (0x09 <= c as u32 && c as u32 <= 0x0d)
    ||| c == ' '
    ||| c as u32 == 0x85
    ||| c as u32 == 0xa0
    ||| c as u32 == 0x1680
    ||| (0x2000 <= c as u32 && c as u32 <= 0x200a)
    ||| c as u32 == 0x2028
    ||| c as u32 == 0x2029
    ||| c as u32 == 0x202f
    ||| c as u32 == 0x205f
    ||| c as u32 == 0x3000
}

/// Decides whitespace exactly as `spec_is_whitespace` describes it.
pub fn is_whitespace_char(c: char) -> (r: bool)
    ensures
        r == spec_is_whitespace(c),
{
    let u = c as u32;
    (0x09 <= u && u <= 0x0d) || u == 0x20 || u == 0x85 || u == 0xa0 || u == 0x1680 || (0x2000 <= u
        && u <= 0x200a) || u == 0x2028 || u == 0x2029 || u == 0x202f || u == 0x205f || u == 0x3000
}

/// True of decimal digits.
pub open spec fn spec_is_digit(c: char) -> bool {
    '0' <= c && c <= '9'
}

/// True of the characters a quantity may contain: a digit, a dash, or
/// one of the separators (period, comma, underscore).
pub open spec fn spec_is_quantity_char(c: char) -> bool {
    spec_is_digit(c) || c == '-' || c == ',' || c == '.' || c == '_'
}

/// Returns true if the char is a digit, period, comma, underscore, or dash. Either a period,
/// comma, or underscore can be used as a thousands separator.
pub fn is_amount_quantity_char(c: char) -> (r: bool)
    ensures
        r == spec_is_quantity_char(c),
{
    ('0' <= c && c <= '9') || c == '-' || c == ',' || c == '.' || c == '_'
}

/// True of the characters that may form a currency symbol: anything that
/// is not part of a quantity, not whitespace, and not one of the
/// operator characters `;`, `/`, `@`, `=`, `!`.
pub open spec fn spec_is_symbol_char(c: char) -> bool {
    &&& !spec_is_quantity_char(c)
    &&& !spec_is_whitespace(c)
    &&& c != ';'
    &&& c != '/'
    &&& c != '@'
    &&& c != '='
    &&& c != '!'
}

/// Returns true if the char can qualify as part of a symbol for an amount.
pub fn is_amount_symbol_char(c: char) -> (r: bool)
    ensures
        r == spec_is_symbol_char(c),
{
    !is_amount_quantity_char(c) && !is_whitespace_char(c) && c != ';' && c != '/' && c != '@' && c
        != '=' && c != '!'
}

/// True where a comment begins at position `i` of `s`: at a semicolon,
/// or at the first of two adjacent slashes.
pub open spec fn starts_comment_at(s: Seq<char>, i: int) -> bool {
    &&& 0 <= i < s.len()
    &&& (s[i] == ';' || (s[i] == '/' && i + 1 < s.len() && s[i + 1] == '/'))
}

/// The position where the first comment of `s` begins, searching from
/// position `i`; the length of `s` where no comment follows.
pub open spec fn comment_cut_from(s: Seq<char>, i: int) -> int
    recommends
        0 <= i <= s.len(),
    decreases s.len() - i when 0 <= i <= s.len()
{
    if i >= s.len() {
        s.len() as int
    } else if starts_comment_at(s, i) {
        i
    } else {
        comment_cut_from(s, i + 1)
    }
}

/// The position where the first comment of `s` begins, or the length of
/// `s` when it holds no comment.
pub open spec fn comment_cut(s: Seq<char>) -> int {
    comment_cut_from(s, 0)
}

/// Returns `s` up to but excluding its first comment: the first `;`, or
/// the first `//`, whichever comes sooner. Without a comment, all of `s`
/// comes back.
pub fn remove_comments(s: &str) -> (r: &str)
    ensures
        r@ == s@.subrange(0, comment_cut(s@)),
{
    let n = s.unicode_len();
    let mut i: usize = 0;
    while i < n
        invariant
            0 <= i <= n,
            n == s@.len(),
            comment_cut(s@) == comment_cut_from(s@, i as int),
        decreases n - i,
    {
        let c = s.get_char(i);
        if c == ';' {
            return s.substring_char(0, i);
        }
        if c == '/' && i + 1 < n {
            if s.get_char(i + 1) == '/' {
                return s.substring_char(0, i);
            }
        }
        assert(!starts_comment_at(s@, i as int));
        i = i + 1;
    }
    s.substring_char(0, n)
}

/// The position of the first character from `i` on that is not
/// whitespace; the length where all of them are.
pub open spec fn ws_prefix_end(s: Seq<char>, i: int) -> int
    decreases s.len() - i when 0 <= i <= s.len()
{
    if i >= s.len() {
        s.len() as int
    } else if spec_is_whitespace(s[i]) {
        ws_prefix_end(s, i + 1)
    } else {
        i
    }
}

/// The position after the last character before `j` that is not
/// whitespace; zero where all of them are.
pub open spec fn ws_suffix_start(s: Seq<char>, j: int) -> int
    decreases j when 0 <= j <= s.len()
{
    if j <= 0 {
        0
    } else if spec_is_whitespace(s[j - 1]) {
        ws_suffix_start(s, j - 1)
    } else {
        j
    }
}

/// The characters of `s` with leading and trailing whitespace removed.
pub open spec fn spec_trim(s: Seq<char>) -> Seq<char> {
    let a = ws_prefix_end(s, 0);
    let b = ws_suffix_start(s, s.len() as int);
    if a >= b {
        Seq::empty()
    } else {
        s.subrange(a, b)
    }
}

/// The characters of `s` with leading whitespace removed.
pub open spec fn spec_trim_start(s: Seq<char>) -> Seq<char> {
    s.subrange(ws_prefix_end(s, 0), s.len() as int)
}

/// Returns `s` without leading whitespace.
pub fn trim_start(s: &str) -> (r: &str)
    ensures
        r@ == spec_trim_start(s@),
{
    let n = s.unicode_len();
    let mut i: usize = 0;
    while i < n
        invariant
            0 <= i <= n,
            n == s@.len(),
            ws_prefix_end(s@, 0) == ws_prefix_end(s@, i as int),
        ensures
            0 <= i <= n,
            n == s@.len(),
            i as int == ws_prefix_end(s@, 0),
        decreases n - i,
    {
        if !is_whitespace_char(s.get_char(i)) {
            break ;
        }
        i = i + 1;
    }
    s.substring_char(i, n)
}

/// Returns `s` without leading or trailing whitespace.
pub fn trim(s: &str) -> (r: &str)
    ensures
        r@ == spec_trim(s@),
{
    let n = s.unicode_len();
    let mut i: usize = 0;
    while i < n
        invariant
            0 <= i <= n,
            n == s@.len(),
            ws_prefix_end(s@, 0) == ws_prefix_end(s@, i as int),
        ensures
            0 <= i <= n,
            n == s@.len(),
            i as int == ws_prefix_end(s@, 0),
            i < n ==> !spec_is_whitespace(s@[i as int]),
        decreases n - i,
    {
        if !is_whitespace_char(s.get_char(i)) {
            break ;
        }
        i = i + 1;
    }
    let mut j: usize = n;
    proof {
        lemma_ws_suffix_le(s@, n as int);
    }
    while j > i
        invariant
            i <= j <= n,
            n == s@.len(),
            i as int == ws_prefix_end(s@, 0),
            i < n ==> !spec_is_whitespace(s@[i as int]),
            ws_suffix_start(s@, n as int) == ws_suffix_start(s@, j as int),
            ws_suffix_start(s@, j as int) <= j as int,
        ensures
            i <= j <= n,
            n == s@.len(),
            j as int == ws_suffix_start(s@, n as int) || (j == i && ws_suffix_start(
                s@,
                n as int,
            ) <= i),
        decreases j,
    {
        proof {
            lemma_ws_suffix_le(s@, j as int - 1);
        }
        if !is_whitespace_char(s.get_char(j - 1)) {
            break ;
        }
        j = j - 1;
    }
    proof {
        lemma_ws_suffix_le(s@, j as int);
        assert(r_matches_trim(s@, i as int, j as int)) by {
            if i == n {
                assert(s@.subrange(i as int, j as int) =~= Seq::<char>::empty());
            } else if j == i {
                assert(s@.subrange(i as int, j as int) =~= Seq::<char>::empty());
            }
        }
    }
    s.substring_char(i, j)
}

/// The slice from `i` to `j` of `s` is its trimmed form.
spec fn r_matches_trim(s: Seq<char>, i: int, j: int) -> bool {
    0 <= i <= j <= s.len() && s.subrange(i, j) == spec_trim(s)
}

/// The whitespace-suffix start never exceeds its argument.
proof fn lemma_ws_suffix_le(s: Seq<char>, j: int)
    requires
        0 <= j <= s.len(),
    ensures
        0 <= ws_suffix_start(s, j) <= j,
    decreases j,
{
    if j > 0 && spec_is_whitespace(s[j - 1]) {
        lemma_ws_suffix_le(s, j - 1);
    }
}

/// Decides whether two strings hold the same characters.
pub fn str_eq(a: &str, b: &str) -> (r: bool)
    ensures
        r == (a@ == b@),
{
    let n = a.unicode_len();
    let m = b.unicode_len();
    if n != m {
        proof {
            assert(a@ != b@);
        }
        return false;
    }
    let mut i: usize = 0;
    while i < n
        invariant
            0 <= i <= n,
            n == a@.len(),
            n == b@.len(),
            forall|j: int| 0 <= j < i ==> a@[j] == b@[j],
        decreases n - i,
    {
        if a.get_char(i) != b.get_char(i) {
            proof {
                assert(a@ != b@);
            }
            return false;
        }
        i = i + 1;
    }
    proof {
        assert(a@ =~= b@);
    }
    true
}

/// Division that rounds toward zero, as machine division of signed
/// integers does.
pub open spec fn trunc_div(a: int, b: int) -> int {
    if a >= 0 {
        a / b
    } else {
        -((-a) / b)
    }
}

/// Division of machine integers, rounding toward zero.
pub fn trunc_div_i64(a: i64, b: i64) -> (r: i64)
    requires
        b > 0,
        -1000000000 <= a <= 1000000000,
    ensures
        r == trunc_div(a as int, b as int),
{
    if a >= 0 {
        ((a as u64) / (b as u64)) as i64
    } else {
        let neg = (-a) as u64;
        -((neg / (b as u64)) as i64)
    }
}

} // verus!
