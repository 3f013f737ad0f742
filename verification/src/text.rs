//! Verified text helpers: decimal formatting and parsing, and searching
//! within character sequences.

use vstd::prelude::*;
use vstd::string::StrSliceExecFns;
use vstd::string::StringExecFns;

verus! {

/// True for the ten ASCII digit characters.
pub open spec fn is_digit(c: char) -> bool {
    48 <= c as u32 <= 57
}

/// The numeric value of an ASCII digit character.
pub open spec fn digit_val(c: char) -> int {
    c as u32 - 48
}

/// The ASCII digit character for a value below ten.
pub open spec fn digit_char(d: int) -> char {
    if d == 0 {
        '0'
    } else if d == 1 {
        '1'
    } else if d == 2 {
        '2'
    } else if d == 3 {
        '3'
    } else if d == 4 {
        '4'
    } else if d == 5 {
        '5'
    } else if d == 6 {
        '6'
    } else if d == 7 {
        '7'
    } else if d == 8 {
        '8'
    } else {
        '9'
    }
}

/// The decimal digit string of a number, most significant digit first, with
/// no leading zeroes (a single zero for zero itself).
pub open spec fn dec_digits(n: nat) -> Seq<char>
    decreases n,
{
    if n < 10 {
        seq![digit_char(n as int)]
    } else {
        dec_digits(n / 10) + seq![digit_char((n % 10) as int)]
    }
}

/// True when every character of the sequence is an ASCII digit.
pub open spec fn is_digit_seq(s: Seq<char>) -> bool {
    forall|i: int| 0 <= i < s.len() ==> is_digit(#[trigger] s[i])
}

/// The value of a digit string, most significant digit first.
pub open spec fn dec_val(s: Seq<char>) -> int
    decreases s.len(),
{
    if s.len() == 0 {
        0
    } else {
        dec_val(s.drop_last()) * 10 + digit_val(s.last())
    }
}

/// The single-character string for an ASCII digit value.
fn digit_str(d: usize) -> (r: &'static str)
    requires
        d < 10,
    ensures
        r@ =~= seq![digit_char(d as int)],
{
    proof {
        reveal_strlit("0");
        reveal_strlit("1");
        reveal_strlit("2");
        reveal_strlit("3");
        reveal_strlit("4");
        reveal_strlit("5");
        reveal_strlit("6");
        reveal_strlit("7");
        reveal_strlit("8");
        reveal_strlit("9");
    }
    match d {
        0 => "0",
        1 => "1",
        2 => "2",
        3 => "3",
        4 => "4",
        5 => "5",
        6 => "6",
        7 => "7",
        8 => "8",
        _ => "9",
    }
}

/// The decimal digit string of a number.
pub fn u64_to_string(n: u64) -> (s: String)
    ensures
        s@ == dec_digits(n as nat),
    decreases n,
{
    if n < 10 {
        let s = String::from_str(digit_str(n as usize));
        proof {
            assert(s@ =~= dec_digits(n as nat));
        }
        s
    } else {
        let rest = u64_to_string(n / 10);
        let s = rest.concat(digit_str((n % 10) as usize));
        proof {
            assert(s@ =~= dec_digits(n as nat));
        }
        s
    }
}

/// The decimal digit string of a number.
pub fn usize_to_string(n: usize) -> (s: String)
    ensures
        s@ == dec_digits(n as nat),
{
    u64_to_string(n as u64)
}

/// Whether two strings hold the same characters.
pub fn str_eq(a: &str, b: &str) -> (r: bool)
    ensures
        r == (a@ == b@),
{
    let alen = a.unicode_len();
    let blen = b.unicode_len();
    if alen != blen {
        return false;
    }
    let mut i: usize = 0;
    while i < alen
        invariant
            alen == a@.len(),
            blen == b@.len(),
            alen == blen,
            0 <= i <= alen,
            forall|j: int| 0 <= j < i ==> a@[j] == b@[j],
        decreases alen - i,
    {
        if a.get_char(i) != b.get_char(i) {
            return false;
        }
        i = i + 1;
    }
    proof {
        assert(a@ =~= b@);
    }
    true
}

/// A digit string extended by one digit is worth ten times its prefix plus
/// the new digit.
proof fn lemma_dec_val_step(s: Seq<char>, i: int)
    requires
        0 <= i < s.len(),
    ensures
        dec_val(s.take(i + 1)) == dec_val(s.take(i)) * 10 + digit_val(s[i]),
{
    assert(s.take(i + 1).drop_last() =~= s.take(i));
    assert(s.take(i + 1).last() == s[i]);
}

/// The value of a digit string only grows as more digits are appended.
proof fn lemma_dec_val_monotone(s: Seq<char>, i: int)
    requires
        0 <= i < s.len(),
        is_digit_seq(s),
    ensures
        dec_val(s.take(i)) <= dec_val(s.take(i + 1)),
        dec_val(s.take(i)) >= 0,
    decreases i,
{
    if i > 0 {
        lemma_dec_val_monotone(s, i - 1);
    }
    lemma_dec_val_step(s, i);
    let v = dec_val(s.take(i));
    assert(v >= 0 ==> v * 10 >= v) by (nonlinear_arith);
}

/// A whole digit string is worth at least any of its prefixes.
proof fn lemma_dec_val_prefix(s: Seq<char>, i: int)
    requires
        0 <= i <= s.len(),
        is_digit_seq(s),
    ensures
        dec_val(s.take(i)) <= dec_val(s),
        dec_val(s.take(i)) >= 0,
    decreases s.len() - i,
{
    if i == s.len() {
        assert(s.take(i) =~= s);
        if i > 0 {
            lemma_dec_val_monotone(s, i - 1);
        }
    } else {
        lemma_dec_val_monotone(s, i);
        lemma_dec_val_prefix(s, i + 1);
    }
}

/// Parse a string of decimal digits into a number.  Returns `Some` exactly
/// when the string is nonempty, holds only ASCII digits, and its value fits
/// in a `u64`.
pub fn parse_u64(s: &str) -> (r: Option<u64>)
    ensures
        r is Some <==> (s@.len() > 0 && is_digit_seq(s@) && dec_val(s@) <= u64::MAX),
        r is Some ==> r->0 == dec_val(s@),
{
    let len = s.unicode_len();
    if len == 0 {
        return None;
    }
    let mut v: u64 = 0;
    let mut i: usize = 0;
    while i < len
        invariant
            len == s@.len(),
            0 <= i <= len,
            is_digit_seq(s@.take(i as int)),
            v == dec_val(s@.take(i as int)),
        decreases len - i,
    {
        let c = s.get_char(i);
        if !(c >= '0' && c <= '9') {
            proof {
                assert(!is_digit(s@[i as int]));
            }
            return None;
        }
        let d = (c as u32 - 48) as u64;
        proof {
            lemma_dec_val_step(s@, i as int);
            assert(is_digit_seq(s@.take(i as int + 1)));
        }
        if v > (u64::MAX - d) / 10 {
            proof {
                let t = s@.take(i as int + 1);
                assert(v * 10 + d > u64::MAX) by (nonlinear_arith)
                    requires
                        v > (u64::MAX - d) / 10,
                        d <= 9,
                ;
                assert(dec_val(t) > u64::MAX);
                if is_digit_seq(s@) && dec_val(s@) <= u64::MAX {
                    lemma_dec_val_prefix(s@, i as int + 1);
                }
            }
            return None;
        }
        proof {
            assert(v * 10 + d <= u64::MAX) by (nonlinear_arith)
                requires
                    v <= (u64::MAX - d) / 10,
                    d <= 9,
            ;
        }
        v = v * 10 + d;
        i = i + 1;
    }
    proof {
        assert(s@.take(len as int) =~= s@);
    }
    Some(v)
}

/// Parse a string of decimal digits into a `usize`.
pub fn parse_usize(s: &str) -> (r: Option<usize>)
    ensures
        r is Some <==> (s@.len() > 0 && is_digit_seq(s@) && dec_val(s@) <= usize::MAX),
        r is Some ==> r->0 == dec_val(s@),
{
    match parse_u64(s) {
        None => None,
        Some(v) => {
            if v <= usize::MAX as u64 {
                proof {
                    if is_digit_seq(s@) && dec_val(s@) <= usize::MAX {
                    }
                }
                Some(v as usize)
            } else {
                None
            }
        },
    }
}

/// The first position of a character in a string, if it occurs.
pub fn find_char(s: &str, c: char) -> (r: Option<usize>)
    ensures
        match r {
            Some(i) => {
                &&& i < s@.len()
                &&& s@[i as int] == c
                &&& forall|j: int| 0 <= j < i ==> s@[j] != c
            },
            None => forall|j: int| 0 <= j < s@.len() ==> s@[j] != c,
        },
{
    let len = s.unicode_len();
    let mut i: usize = 0;
    while i < len
        invariant
            len == s@.len(),
            0 <= i <= len,
            forall|j: int| 0 <= j < i ==> s@[j] != c,
        decreases len - i,
    {
        if s.get_char(i) == c {
            return Some(i);
        }
        i = i + 1;
    }
    None
}

/// True when the pattern occurs in the sequence starting at position `i`.
pub open spec fn has_sub_at(s: Seq<char>, pat: Seq<char>, i: int) -> bool {
    0 <= i && i + pat.len() <= s.len() && s.subrange(i, i + pat.len()) == pat
}

/// The first position where a pattern occurs in a string, if it occurs at
/// all.
pub fn find_sub(s: &str, pat: &str) -> (r: Option<usize>)
    ensures
        match r {
            Some(i) => {
                &&& has_sub_at(s@, pat@, i as int)
                &&& forall|j: int| 0 <= j < i ==> !has_sub_at(s@, pat@, j)
            },
            None => forall|j: int| !has_sub_at(s@, pat@, j),
        },
{
    let len = s.unicode_len();
    let plen = pat.unicode_len();
    if plen > len {
        return None;
    }
    if plen == 0 {
        proof {
            assert(s@.subrange(0, 0) =~= pat@);
        }
        return Some(0);
    }
    let mut i: usize = 0;
    while i <= len - plen
        invariant
            len == s@.len(),
            plen == pat@.len(),
            0 < plen <= len,
            0 <= i <= len - plen + 1,
            forall|j: int| 0 <= j < i ==> !has_sub_at(s@, pat@, j),
        decreases len - plen - i + 1,
    {
        let piece = s.substring_char(i, i + plen);
        if str_eq(piece, pat) {
            proof {
                assert(has_sub_at(s@, pat@, i as int));
            }
            return Some(i);
        }
        i = i + 1;
    }
    None
}

/// Whether a string starts with the given prefix.
pub fn str_starts_with(s: &str, prefix: &str) -> (r: bool)
    ensures
        r == (s@.len() >= prefix@.len() && s@.subrange(0, prefix@.len() as int) == prefix@),
{
    let len = s.unicode_len();
    let plen = prefix.unicode_len();
    if plen > len {
        return false;
    }
    let piece = s.substring_char(0, plen);
    str_eq(piece, prefix)
}

/// The characters of a string after the given position.
pub fn str_suffix_from(s: &str, i: usize) -> (r: &str)
    requires
        i <= s@.len(),
    ensures
        r@ == s@.skip(i as int),
{
    let len = s.unicode_len();
    let r = s.substring_char(i, len);
    proof {
        assert(r@ =~= s@.skip(i as int));
    }
    r
}

/// The position of the first occurrence of a (nonempty) pattern in a
/// sequence, or the sequence's length if it occurs nowhere.
pub open spec fn first_sub_idx(s: Seq<char>, pat: Seq<char>) -> int
    decreases s.len(),
{
    if has_sub_at(s, pat, 0) {
        0
    } else if s.len() == 0 {
        0
    } else {
        1 + first_sub_idx(s.drop_first(), pat)
    }
}

/// Occurrences of a pattern shift by one between a sequence and the
/// sequence without its first element.
proof fn lemma_has_sub_shift(s: Seq<char>, pat: Seq<char>, j: int)
    requires
        s.len() > 0,
        j >= 0,
    ensures
        has_sub_at(s, pat, j + 1) == has_sub_at(s.drop_first(), pat, j),
{
    if j + 1 + pat.len() <= s.len() {
        assert(s.subrange(j + 1, j + 1 + pat.len()) =~= s.drop_first().subrange(
            j,
            j + pat.len(),
        ));
    }
}

/// What the first occurrence position of a pattern means.
pub proof fn lemma_first_sub_idx(s: Seq<char>, pat: Seq<char>)
    requires
        pat.len() > 0,
    ensures
        0 <= first_sub_idx(s, pat) <= s.len(),
        (exists|j: int| has_sub_at(s, pat, j)) ==> has_sub_at(s, pat, first_sub_idx(s, pat)),
        forall|j: int| 0 <= j < first_sub_idx(s, pat) ==> !has_sub_at(s, pat, j),
        !(exists|j: int| has_sub_at(s, pat, j)) ==> first_sub_idx(s, pat) == s.len(),
    decreases s.len(),
{
    if !has_sub_at(s, pat, 0) && s.len() > 0 {
        lemma_first_sub_idx(s.drop_first(), pat);
        assert forall|j: int| 0 <= j implies has_sub_at(s, pat, j + 1) == has_sub_at(
            s.drop_first(),
            pat,
            j,
        ) by {
            lemma_has_sub_shift(s, pat, j);
        }
        if exists|j: int| has_sub_at(s, pat, j) {
            let j = choose|j: int| has_sub_at(s, pat, j);
            assert(j > 0);
            assert(has_sub_at(s.drop_first(), pat, j - 1));
        }
        assert forall|j: int| 0 <= j < first_sub_idx(s, pat) implies !has_sub_at(s, pat, j) by {
            if j > 0 {
                assert(!has_sub_at(s.drop_first(), pat, j - 1));
            }
        }
    }
}

/// The whitespace characters the line parser strips: space, tab, and line
/// ends.
pub open spec fn is_ws(c: char) -> bool {
    c == ' ' || c == '\t' || c == '\r' || c == '\n'
}

/// A character sequence without its leading whitespace.
pub open spec fn trim_front(s: Seq<char>) -> Seq<char>
    decreases s.len(),
{
    if s.len() > 0 && is_ws(s[0]) {
        trim_front(s.drop_first())
    } else {
        s
    }
}

/// A character sequence without its trailing whitespace.
pub open spec fn trim_back(s: Seq<char>) -> Seq<char>
    decreases s.len(),
{
    if s.len() > 0 && is_ws(s.last()) {
        trim_back(s.drop_last())
    } else {
        s
    }
}

/// A character sequence without its leading and trailing whitespace.
pub open spec fn spec_trim(s: Seq<char>) -> Seq<char> {
    trim_back(trim_front(s))
}

proof fn lemma_trim_front_at(s: Seq<char>, i: int)
    requires
        0 <= i <= s.len(),
        forall|j: int| 0 <= j < i ==> is_ws(s[j]),
        i == s.len() || !is_ws(s[i]),
    ensures
        trim_front(s) =~= s.skip(i),
    decreases i,
{
    if i > 0 {
        lemma_trim_front_at(s.drop_first(), i - 1);
        assert(s.drop_first().skip(i - 1) =~= s.skip(i));
    } else {
        assert(s.skip(0) =~= s);
    }
}

proof fn lemma_trim_back_at(s: Seq<char>, i: int)
    requires
        0 <= i <= s.len(),
        forall|j: int| i <= j < s.len() ==> is_ws(s[j]),
        i == 0 || !is_ws(s[i - 1]),
    ensures
        trim_back(s) =~= s.take(i),
    decreases s.len() - i,
{
    if i < s.len() {
        lemma_trim_back_at(s.drop_last(), i);
        assert(s.drop_last().take(i) =~= s.take(i));
    } else {
        assert(s.take(i) =~= s);
    }
}

/// Whether a character is whitespace that the line parser strips.
fn is_ws_char(c: char) -> (r: bool)
    ensures
        r == is_ws(c),
{
    c == ' ' || c == '\t' || c == '\r' || c == '\n'
}

/// The string without its leading and trailing whitespace (spaces, tabs,
/// and line ends).
pub fn str_trim(s: &str) -> (r: &str)
    ensures
        r@ == spec_trim(s@),
{
    let len = s.unicode_len();
    let mut a: usize = 0;
    while a < len && is_ws_char(s.get_char(a))
        invariant
            len == s@.len(),
            0 <= a <= len,
            forall|j: int| 0 <= j < a ==> is_ws(s@[j]),
        decreases len - a,
    {
        a = a + 1;
    }
    proof {
        lemma_trim_front_at(s@, a as int);
    }
    let mut b: usize = len;
    while b > a && is_ws_char(s.get_char(b - 1))
        invariant
            len == s@.len(),
            a <= b <= len,
            forall|j: int| 0 <= j < a ==> is_ws(s@[j]),
            forall|j: int| b <= j < len ==> is_ws(s@[j]),
        decreases b,
    {
        b = b - 1;
    }
    let r = s.substring_char(a, b);
    proof {
        let f = s@.skip(a as int);
        assert forall|j: int| (b - a) <= j < f.len() implies is_ws(f[j]) by {
            assert(f[j] == s@[j + a]);
        }
        if b > a {
            assert(f[b - a - 1] == s@[b - 1]);
        }
        lemma_trim_back_at(f, b - a);
        assert(r@ =~= f.take(b - a));
    }
    r
}

/// A character sequence cut at every occurrence of a separator character.
/// Like the standard splitter, it yields one (possibly empty) piece between
/// every two separators, and a single piece for a sequence with none.
pub open spec fn split_char(s: Seq<char>, c: char) -> Seq<Seq<char>>
    decreases s.len(),
    via split_char_decreases
{
    let i = crate::util::first_idx(s, c);
    if i >= s.len() {
        seq![s]
    } else {
        seq![s.take(i)] + split_char(s.skip(i + 1), c)
    }
}

#[via_fn]
proof fn split_char_decreases(s: Seq<char>, c: char) {
    crate::util::lemma_first_idx(s, c);
}

/// The string cut at every occurrence of a separator character.
pub fn str_split(s: &str, c: char) -> (r: Vec<String>)
    ensures
        r.deep_view() == split_char(s@, c),
{
    let mut parts: Vec<String> = Vec::new();
    let mut rest: &str = s;
    proof {
        assert(parts.deep_view() + split_char(rest@, c) =~= split_char(s@, c));
    }
    loop
        invariant
            parts.deep_view() + split_char(rest@, c) == split_char(s@, c),
        decreases rest@.len(),
    {
        match find_char(rest, c) {
            Some(i) => {
                let ghost old_parts = parts.deep_view();
                let ghost old_rest = rest@;
                let rlen = rest.unicode_len();
                proof {
                    crate::util::lemma_first_idx_found(rest@, c, i as int);
                }
                let piece = rest.substring_char(0, i);
                parts.push(String::from_str(piece));
                rest = str_suffix_from(rest, i + 1);
                proof {
                    assert(piece@ =~= old_rest.take(i as int));
                    assert(parts.deep_view() =~= old_parts.push(old_rest.take(i as int)));
                    assert(parts.deep_view() + split_char(rest@, c) =~= old_parts + split_char(
                        old_rest,
                        c,
                    ));
                }
            },
            None => {
                let ghost old_parts = parts.deep_view();
                proof {
                    crate::util::lemma_first_idx_absent(rest@, c);
                }
                parts.push(String::from_str(rest));
                proof {
                    assert(parts.deep_view() =~= old_parts.push(rest@));
                    assert(parts.deep_view() =~= split_char(s@, c));
                }
                return parts;
            },
        }
    }
}

} // verus!
