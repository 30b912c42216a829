//! Where a creature's picture lives. The creature's reference URL ends in
//! `.../<number>/`; that decimal number, with an optional sign, picks the picture on the
//! sprite host. A reference that does not have that shape gets a
//! placeholder picture.
use vstd::prelude::*;
use vstd::string::StrSliceExecFns;
use vstd::string::StringExecFns;

use crate::models::Pokemon;

verus! {

/// The position of the last `/` of `s` before position `end`, or -1.
pub open spec fn last_slash_before(s: Seq<char>, end: int) -> int
    decreases end,
{
    if end <= 0 {
        -1
    } else if s[end - 1] == '/' {
        end - 1
    } else {
        last_slash_before(s, end - 1)
    }
}

/// The second segment from the end when `s` is split at each `/`; `None`
/// when `s` holds no `/`.
pub open spec fn second_last_segment(s: Seq<char>) -> Option<Seq<char>> {
    let j = last_slash_before(s, s.len() as int);
    if j < 0 {
        None
    } else {
        Some(s.subrange(last_slash_before(s, j) + 1, j))
    }
}

pub open spec fn is_digit(c: char) -> bool {
    '0' <= c <= '9'
}

pub open spec fn all_digits(t: Seq<char>) -> bool {
    forall|i: int| 0 <= i < t.len() ==> is_digit(#[trigger] t[i])
}

/// The number that the decimal digits `t` write.
pub open spec fn digits_value(t: Seq<char>) -> int
    decreases t.len(),
{
    if t.len() == 0 {
        0
    } else {
        digits_value(t.drop_last()) * 10 + (t.last() as int - '0' as int)
    }
}

/// `t` read as a picture number: an optional `+` or `-`, then one or more
/// decimal digits, of a value that fits an `i32`.
pub open spec fn parse_number(t: Seq<char>) -> Option<int> {
    if t.len() > 0 && (t[0] == '+' || t[0] == '-') {
        let d = t.drop_first();
        let n = if t[0] == '-' {
            -digits_value(d)
        } else {
            digits_value(d)
        };
        if d.len() > 0 && all_digits(d) && i32::MIN <= n <= i32::MAX {
            Some(n)
        } else {
            None
        }
    } else if t.len() > 0 && all_digits(t) && digits_value(t) <= i32::MAX {
        Some(digits_value(t))
    } else {
        None
    }
}

/// The picture number of a reference URL.
pub open spec fn sprite_id(url: Seq<char>) -> Option<int> {
    match second_last_segment(url) {
        Some(seg) => parse_number(seg),
        None => None,
    }
}

pub open spec fn digit_char(d: int) -> char {
    seq!['0', '1', '2', '3', '4', '5', '6', '7', '8', '9'][d]
}

/// `n` written in decimal, with a `-` when negative.
pub open spec fn signed_decimal(n: int) -> Seq<char> {
    if n < 0 {
        seq!['-'] + decimal((-n) as nat)
    } else {
        decimal(n as nat)
    }
}

/// `n` written in decimal, without leading zeros.
pub open spec fn decimal(n: nat) -> Seq<char>
    decreases n,
{
    if n < 10 {
        seq![digit_char(n as int)]
    } else {
        decimal(n / 10).push(digit_char((n % 10) as int))
    }
}

pub open spec fn sprite_host() -> Seq<char> {
    "https://raw.githubusercontent.com/PokeAPI/sprites/master/sprites/pokemon/other/dream-world/"@
}

pub open spec fn sprite_suffix() -> Seq<char> {
    ".svg"@
}

pub open spec fn placeholder_image() -> Seq<char> {
    "/images/poke_ball.png"@
}

/// The picture URL for a reference URL.
pub open spec fn sprite_url(url: Seq<char>) -> Seq<char> {
    match sprite_id(url) {
        Some(n) => sprite_host() + signed_decimal(n) + sprite_suffix(),
        None => placeholder_image(),
    }
}

fn chars_of(s: &str) -> (r: Vec<char>)
    ensures
        r@ == s@,
{
    let n = s.unicode_len();
    let mut r: Vec<char> = Vec::new();
    let mut i: usize = 0;
    while i < n
        invariant
            n == s@.len(),
            i <= n,
            r@ == s@.subrange(0, i as int),
        decreases n - i,
    {
        r.push(s.get_char(i));
        i = i + 1;
    }
    assert(r@ =~= s@);
    r
}

/// The position of the last `/` of `s` before `end`.
fn last_slash(s: &Vec<char>, end: usize) -> (r: Option<usize>)
    requires
        end <= s@.len(),
    ensures
        r matches Some(j) ==> j < end && j as int == last_slash_before(s@, end as int),
        r is None ==> last_slash_before(s@, end as int) == -1,
{
    let mut pos: usize = end;
    while pos > 0
        invariant
            pos <= end <= s@.len(),
            last_slash_before(s@, pos as int) == last_slash_before(s@, end as int),
        decreases pos,
    {
        if s[pos - 1] == '/' {
            return Some(pos - 1);
        }
        pos = pos - 1;
    }
    None
}

proof fn lemma_digits_value_grows(t: Seq<char>, k: int)
    requires
        all_digits(t),
        0 <= k <= t.len(),
    ensures
        0 <= digits_value(t.subrange(0, k)) <= digits_value(t),
    decreases t.len(),
{
    if t.len() > 0 {
        let u = t.drop_last();
        assert(all_digits(u));
        if k < t.len() {
            assert(t.subrange(0, k) =~= u.subrange(0, k));
            lemma_digits_value_grows(u, k);
        } else {
            assert(t.subrange(0, k) =~= t);
            lemma_digits_value_grows(u, u.len() as int);
            assert(u.subrange(0, u.len() as int) =~= u);
        }
    }
}

/// The value of the digits `s[lo..hi]`, when all are digits and the value
/// is at most 2^31.
fn digits_in(s: &Vec<char>, lo: usize, hi: usize) -> (r: Option<u32>)
    requires
        lo <= hi <= s@.len(),
    ensures
        r matches Some(v) ==> all_digits(s@.subrange(lo as int, hi as int)) && v as int
            == digits_value(s@.subrange(lo as int, hi as int)) && v <= 0x8000_0000,
        r is None ==> !all_digits(s@.subrange(lo as int, hi as int)) || digits_value(
            s@.subrange(lo as int, hi as int),
        ) > 0x8000_0000,
{
    let ghost t = s@.subrange(lo as int, hi as int);
    let mut v: u64 = 0;
    let mut i: usize = lo;
    while i < hi
        invariant
            lo <= i <= hi <= s@.len(),
            t == s@.subrange(lo as int, hi as int),
            all_digits(t.subrange(0, i - lo)),
            v as int == digits_value(t.subrange(0, i - lo)),
            v <= 0x8000_0000,
        decreases hi - i,
    {
        let c = s[i];
        assert(t.subrange(0, i - lo + 1).drop_last() =~= t.subrange(0, i - lo));
        if c < '0' || c > '9' {
            assert(!is_digit(t[i - lo]));
            return None;
        }
        let d = (c as u32 - '0' as u32) as u64;
        if v * 10 + d > 0x8000_0000 {
            proof {
                assert(all_digits(t.subrange(0, i - lo + 1)));
                if all_digits(t) {
                    lemma_digits_value_grows(t, i - lo + 1);
                }
            }
            return None;
        }
        v = v * 10 + d;
        i = i + 1;
    }
    assert(t.subrange(0, hi - lo) =~= t);
    Some(v as u32)
}

/// `s[lo..hi]` read as a picture number.
fn parse_number_in(s: &Vec<char>, lo: usize, hi: usize) -> (r: Option<i32>)
    requires
        lo <= hi <= s@.len(),
    ensures
        r matches Some(n) ==> parse_number(s@.subrange(lo as int, hi as int)) == Some(n as int),
        r is None ==> parse_number(s@.subrange(lo as int, hi as int)) is None,
{
    let ghost t = s@.subrange(lo as int, hi as int);
    if lo == hi {
        return None;
    }
    let first = s[lo];
    if first == '+' || first == '-' {
        assert(t.drop_first() =~= s@.subrange(lo + 1, hi as int));
        if lo + 1 == hi {
            return None;
        }
        match digits_in(s, lo + 1, hi) {
            None => None,
            Some(v) => {
                if first == '-' {
                    Some((0 - (v as i64)) as i32)
                } else if v <= 0x7fff_ffff {
                    Some(v as i32)
                } else {
                    None
                }
            },
        }
    } else {
        match digits_in(s, lo, hi) {
            Some(v) => {
                if v <= 0x7fff_ffff {
                    Some(v as i32)
                } else {
                    None
                }
            },
            None => None,
        }
    }
}

/// The digit `d` as a one-character string.
fn digit_str(d: u8) -> (r: &'static str)
    requires
        d < 10,
    ensures
        r@ == seq![digit_char(d as int)],
{
    let digits = "0123456789";
    proof {
        reveal_strlit("0123456789");
    }
    let r = digits.substring_char(d as usize, d as usize + 1);
    assert(r@ =~= seq![digit_char(d as int)]);
    r
}

/// Appends `n` in decimal to `out`.
pub(crate) fn push_decimal(out: &mut String, n: u32)
    ensures
        final(out)@ == old(out)@ + decimal(n as nat),
    decreases n,
{
    let ghost start = out@;
    if n >= 10 {
        push_decimal(out, n / 10);
    }
    out.append(digit_str((n % 10) as u8));
    assert(out@ =~= start + decimal(n as nat));
}

/// Appends `n` in decimal to `out`, with a `-` when negative.
fn push_signed_decimal(out: &mut String, n: i32)
    ensures
        final(out)@ == old(out)@ + signed_decimal(n as int),
{
    let ghost start = out@;
    if n < 0 {
        proof {
            reveal_strlit("-");
        }
        out.append("-");
        push_decimal(out, (0 - (n as i64)) as u32);
        assert(out@ =~= start + signed_decimal(n as int));
    } else {
        push_decimal(out, n as u32);
    }
}

impl Pokemon {
    /// The URL of the creature's picture: the sprite host's picture whose
    /// number is the second-to-last `/`-segment of `url`, or the
    /// placeholder picture when that segment is missing or not a number that fits an `i32`.
    pub fn img_url(&self) -> (r: String)
        ensures
            r@ == sprite_url(self.url@),
    {
        let chars = chars_of(self.url.as_str());
        let id = match last_slash(&chars, chars.len()) {
            None => None,
            Some(j) => {
                let lo = match last_slash(&chars, j) {
                    Some(i) => i + 1,
                    None => 0,
                };
                parse_number_in(&chars, lo, j)
            },
        };
        match id {
            Some(n) => {
                let mut out = String::from_str(
                    "https://raw.githubusercontent.com/PokeAPI/sprites/master/sprites/pokemon/other/dream-world/",
                );
                push_signed_decimal(&mut out, n);
                out.append(".svg");
                out
            },
            None => String::from_str("/images/poke_ball.png"),
        }
    }
}

} // verus!
