use vstd::prelude::*;
use vstd::string::StrSliceExecFns;
use vstd::string::StringExecFns;

verus! {

/// Whitespace recognized when header and build-tool lines are trimmed:
/// space, tab, carriage return, line feed.
pub open spec fn is_ws(c: char) -> bool {
    c == ' ' || c == '\t' || c == '\r' || c == '\n'
}

/// Index of the first character in `s[pos..]` that is not whitespace,
/// or `s.len()` if all of them are.
pub open spec fn first_non_ws(s: Seq<char>, pos: int) -> int
    decreases s.len() - pos when 0 <= pos <= s.len()
{
    if pos >= s.len() {
        s.len() as int
    } else if is_ws(s[pos]) {
        first_non_ws(s, pos + 1)
    } else {
        pos
    }
}

/// One past the last character in `s[..pos]` that is not whitespace,
/// or `0` if all of them are.
pub open spec fn last_non_ws_end(s: Seq<char>, pos: int) -> int
    decreases pos when 0 <= pos <= s.len()
{
    if pos <= 0 {
        0
    } else if is_ws(s[pos - 1]) {
        last_non_ws_end(s, pos - 1)
    } else {
        pos
    }
}

/// `s` with leading and trailing whitespace removed.
pub open spec fn trim_spec(s: Seq<char>) -> Seq<char> {
    let f = first_non_ws(s, 0);
    let e = last_non_ws_end(s, s.len() as int);
    if f <= e {
        s.subrange(f, e)
    } else {
        Seq::empty()
    }
}

/// Index of the first occurrence of `c` in `s[pos..]`, or `s.len()`
/// if there is none.
pub open spec fn find_char(s: Seq<char>, pos: int, c: char) -> int
    decreases s.len() - pos when 0 <= pos <= s.len()
{
    if pos >= s.len() {
        s.len() as int
    } else if s[pos] == c {
        pos
    } else {
        find_char(s, pos + 1, c)
    }
}

pub proof fn lemma_find_char_bounds(s: Seq<char>, pos: int, c: char)
    requires
        0 <= pos <= s.len(),
    ensures
        pos <= find_char(s, pos, c) <= s.len(),
        forall|k: int| pos <= k < find_char(s, pos, c) ==> s[k] != c,
        find_char(s, pos, c) < s.len() ==> s[find_char(s, pos, c)] == c,
    decreases s.len() - pos,
{
    if pos < s.len() && s[pos] != c {
        lemma_find_char_bounds(s, pos + 1, c);
    }
}

/// Whether `p` is a prefix of `s`.
pub open spec fn starts_with(s: Seq<char>, p: Seq<char>) -> bool {
    p.len() <= s.len() && s.subrange(0, p.len() as int) == p
}

/// Decimal digits of `n`, most significant first, as characters.
pub open spec fn dec_chars(n: nat) -> Seq<char>
    decreases n
{
    if n < 10 {
        seq![digit_char(n as int)]
    } else {
        dec_chars(n / 10) + seq![digit_char((n % 10) as int)]
    }
}

/// Decimal digits of `n`, most significant first, as ASCII bytes.
pub open spec fn dec_bytes(n: nat) -> Seq<u8>
    decreases n
{
    if n < 10 {
        seq![(0x30 + n) as u8]
    } else {
        dec_bytes(n / 10) + seq![(0x30 + n % 10) as u8]
    }
}

/// Decimal representation of a signed number, as characters.
pub open spec fn dec_chars_signed(n: int) -> Seq<char> {
    if n < 0 {
        seq!['-'] + dec_chars((-n) as nat)
    } else {
        dec_chars(n as nat)
    }
}

pub open spec fn digit_char(d: int) -> char {
    if d == 0 { '0' }
    else if d == 1 { '1' }
    else if d == 2 { '2' }
    else if d == 3 { '3' }
    else if d == 4 { '4' }
    else if d == 5 { '5' }
    else if d == 6 { '6' }
    else if d == 7 { '7' }
    else if d == 8 { '8' }
    else { '9' }
}

/// The literal for one decimal digit.
fn digit_str(d: u64) -> (r: &'static str)
    requires
        d < 10,
    ensures
        r@ == seq![digit_char(d as int)],
{
    proof {
        reveal_strlit("0");
        reveal_strlit("1");
        reveal_strlit("2");
        reveal_strlit("3");
        reveal_strlit("4");
        reveal_strlit("5");
        reveal_strlit("6");
        reveal_strlit("7");
        reveal_strlit("8");
        reveal_strlit("9");
    }
    if d == 0 { "0" }
    else if d == 1 { "1" }
    else if d == 2 { "2" }
    else if d == 3 { "3" }
    else if d == 4 { "4" }
    else if d == 5 { "5" }
    else if d == 6 { "6" }
    else if d == 7 { "7" }
    else if d == 8 { "8" }
    else { "9" }
}

/// Appends the decimal digits of `n` to `out`.
pub fn push_dec_chars(n: u64, out: &mut String)
    ensures
        final(out)@ == old(out)@ + dec_chars(n as nat),
    decreases n,
{
    if n < 10 {
        out.append(digit_str(n));
    } else {
        push_dec_chars(n / 10, out);
        out.append(digit_str(n % 10));
    }
}

/// Appends the decimal representation of a signed number to `out`.
pub fn push_dec_chars_signed(n: i64, out: &mut String)
    ensures
        final(out)@ == old(out)@ + dec_chars_signed(n as int),
{
    if n < 0 {
        proof {
            reveal_strlit("-");
        }
        out.append("-");
        let m: u64 = if n == i64::MIN {
            0x8000_0000_0000_0000u64
        } else {
            (-n) as u64
        };
        assert(m == -(n as int));
        push_dec_chars(m, out);
        assert(out@ == old(out)@ + dec_chars_signed(n as int));
    } else {
        push_dec_chars(n as u64, out);
    }
}

/// Appends the decimal digits of `n` to a byte vector, as ASCII.
pub fn push_dec_bytes(n: u64, out: &mut Vec<u8>)
    ensures
        final(out)@ == old(out)@ + dec_bytes(n as nat),
    decreases n,
{
    if n < 10 {
        out.push(0x30 + (n as u8));
        assert(out@ == old(out)@ + dec_bytes(n as nat));
    } else {
        push_dec_bytes(n / 10, out);
        out.push(0x30 + ((n % 10) as u8));
        assert(out@ == old(out)@ + dec_bytes(n as nat));
    }
}

/// Character-for-character equality of two string slices.
pub fn str_eq(a: &str, b: &str) -> (r: bool)
    ensures
        r == (a@ == b@),
{
    let la = a.unicode_len();
    let lb = b.unicode_len();
    if la != lb {
        assert(a@ != b@) by {
            assert(a@.len() != b@.len());
        }
        return false;
    }
    let mut i: usize = 0;
    while i < la
        invariant
            la == a@.len(),
            la == b@.len(),
            0 <= i <= la,
            forall|k: int| 0 <= k < i ==> a@[k] == b@[k],
        decreases la - i,
    {
        if a.get_char(i) != b.get_char(i) {
            return false;
        }
        i = i + 1;
    }
    proof {
        assert(a@ =~= b@);
    }
    true
}

/// If `p` is a prefix of `s`, the rest of `s` after it.
pub fn strip_prefix<'a>(s: &'a str, p: &str) -> (r: Option<&'a str>)
    ensures
        r is Some <==> starts_with(s@, p@),
        r matches Some(rest) ==> rest@ == s@.skip(p@.len() as int),
{
    let ls = s.unicode_len();
    let lp = p.unicode_len();
    if lp > ls {
        assert(!starts_with(s@, p@));
        return None;
    }
    let mut i: usize = 0;
    while i < lp
        invariant
            ls == s@.len(),
            lp == p@.len(),
            lp <= ls,
            0 <= i <= lp,
            forall|k: int| 0 <= k < i ==> s@[k] == p@[k],
        decreases lp - i,
    {
        if s.get_char(i) != p.get_char(i) {
            assert(!starts_with(s@, p@)) by {
                assert(s@.subrange(0, p@.len() as int)[i as int] != p@[i as int]);
            }
            return None;
        }
        i = i + 1;
    }
    let rest = s.substring_char(lp, ls);
    proof {
        assert(s@.subrange(0, p@.len() as int) =~= p@);
        assert(rest@ =~= s@.skip(p@.len() as int));
    }
    Some(rest)
}

/// The slice with leading and trailing whitespace removed.
pub fn trim<'a>(s: &'a str) -> (r: &'a str)
    ensures
        r@ == trim_spec(s@),
{
    let len = s.unicode_len();
    let mut f: usize = 0;
    while f < len && is_ws_char(s.get_char(f))
        invariant
            len == s@.len(),
            0 <= f <= len,
            first_non_ws(s@, 0) == first_non_ws(s@, f as int),
        decreases len - f,
    {
        f = f + 1;
    }
    assert(first_non_ws(s@, 0) == f);
    let mut e: usize = len;
    while e > f && is_ws_char(s.get_char(e - 1))
        invariant
            len == s@.len(),
            f <= e <= len,
            first_non_ws(s@, 0) == f,
            last_non_ws_end(s@, len as int) == last_non_ws_end(s@, e as int),
        decreases e,
    {
        e = e - 1;
    }
    let r = s.substring_char(f, e);
    proof {
        let es = last_non_ws_end(s@, s@.len() as int);
        if e > f {
            // the backward scan stopped on a non-whitespace character
            assert(last_non_ws_end(s@, e as int) == e);
            assert(r@ =~= trim_spec(s@));
        } else {
            // everything from f on was whitespace, so both the scan
            // result and the trimmed sequence are empty
            lemma_last_non_ws_bounds(s@, f as int);
            assert(es <= f);
            assert(r@ =~= trim_spec(s@));
        }
    }
    r
}

proof fn lemma_last_non_ws_bounds(s: Seq<char>, pos: int)
    requires
        0 <= pos <= s.len(),
    ensures
        0 <= last_non_ws_end(s, pos) <= pos,
    decreases pos,
{
    if pos > 0 && is_ws(s[pos - 1]) {
        lemma_last_non_ws_bounds(s, pos - 1);
    }
}

#[verifier::when_used_as_spec(is_ws)]
pub fn is_ws_char(c: char) -> (r: bool)
    ensures
        r == is_ws(c),
{
    c == ' ' || c == '\t' || c == '\r' || c == '\n'
}

/// `base` and `rel` joined with a path separator.
pub fn path_join(base: &str, rel: &str) -> (r: String)
    ensures
        r@ == base@ + "/"@ + rel@,
{
    let mut out = base.to_owned();
    out.append("/");
    out.append(rel);
    out
}

/// Whether some element of `v` has the character content `s`.
pub fn vec_contains_str(v: &Vec<String>, s: &str) -> (r: bool)
    ensures
        r == v.deep_view().contains(s@),
{
    let mut i: usize = 0;
    while i < v.len()
        invariant
            0 <= i <= v@.len(),
            forall|k: int| 0 <= k < i ==> v.deep_view()[k] != s@,
        decreases v@.len() - i,
    {
        assert(v.deep_view()[i as int] == v@[i as int]@);
        if str_eq(v[i].as_str(), s) {
            assert(v.deep_view().contains(s@));
            return true;
        }
        i = i + 1;
    }
    assert(forall|k: int| 0 <= k < v.deep_view().len() ==> v.deep_view()[k] != s@);
    false
}

} // verus!
