//! Character-level helpers: whitespace trimming, the header token and decimal
//! rendering of status codes.
use vstd::prelude::*;

verus! {

/// The characters of Unicode's `White_Space` property.
pub open spec fn is_white_space(c: char) -> bool {
    let u = c as u32;
    (0x9 <= u && u <= 0xd) || u == 0x20 || u == 0x85 || u == 0xa0 || u == 0x1680 || (0x2000
        <= u && u <= 0x200a) || u == 0x2028 || u == 0x2029 || u == 0x202f || u == 0x205f || u
        == 0x3000
}

/// `s` without its leading and trailing white space.
pub open spec fn trim_of(s: Seq<char>) -> Seq<char>
    decreases s.len(),
{
    if s.len() == 0 {
        s
    } else if is_white_space(s[0]) {
        trim_of(s.drop_first())
    } else if is_white_space(s.last()) {
        trim_of(s.drop_last())
    } else {
        s
    }
}

/// The header token: "doi" in any mix of ASCII letter case.
pub open spec fn is_header_token(s: Seq<char>) -> bool {
    &&& s.len() == 3
    &&& (s[0] == 'd' || s[0] == 'D')
    &&& (s[1] == 'o' || s[1] == 'O')
    &&& (s[2] == 'i' || s[2] == 'I')
}

pub open spec fn digit_char(d: nat) -> char {
    if d == 0 {
        '0'
    } else if d == 1 {
        '1'
    } else if d == 2 {
        '2'
    } else if d == 3 {
        '3'
    } else if d == 4 {
        '4'
    } else if d == 5 {
        '5'
    } else if d == 6 {
        '6'
    } else if d == 7 {
        '7'
    } else if d == 8 {
        '8'
    } else {
        '9'
    }
}

/// The decimal digits of `n`, most significant first, without leading zeros.
pub open spec fn decimal_of(n: nat) -> Seq<char>
    decreases n,
{
    if n < 10 {
        seq![digit_char(n)]
    } else {
        decimal_of(n / 10) + seq![digit_char(n % 10)]
    }
}

fn white_space(c: char) -> (r: bool)
    ensures
        r == is_white_space(c),
{
    let u = c as u32;
    (0x9 <= u && u <= 0xd) || u == 0x20 || u == 0x85 || u == 0xa0 || u == 0x1680 || (0x2000
        <= u && u <= 0x200a) || u == 0x2028 || u == 0x2029 || u == 0x202f || u == 0x205f || u
        == 0x3000
}

/// Trimming a sequence whose white-space prefix ends at `i` and whose
/// white-space suffix starts at `j` leaves exactly the part between them.
proof fn lemma_trim_bounds(s: Seq<char>, i: int, j: int)
    requires
        0 <= i <= j <= s.len(),
        forall|k: int| 0 <= k < i ==> is_white_space(#[trigger] s[k]),
        forall|k: int| j <= k < s.len() ==> is_white_space(#[trigger] s[k]),
        i < j ==> !is_white_space(s[i]) && !is_white_space(s[j - 1]),
    ensures
        trim_of(s) == s.subrange(i, j),
    decreases s.len(),
{
    if s.len() == 0 {
        assert(s.subrange(i, j) =~= s);
    } else if is_white_space(s[0]) {
        let t = s.drop_first();
        if i > 0 {
            lemma_trim_bounds(t, i - 1, j - 1);
            assert(t.subrange(i - 1, j - 1) =~= s.subrange(i, j));
        } else {
            assert(j == 0);
            lemma_trim_bounds(t, 0, 0);
            assert(t.subrange(0, 0) =~= s.subrange(i, j));
        }
    } else if is_white_space(s.last()) {
        assert(i == 0);
        assert(j < s.len());
        let t = s.drop_last();
        lemma_trim_bounds(t, i, j);
        assert(t.subrange(i, j) =~= s.subrange(i, j));
    } else {
        assert(i == 0);
        assert(j == s.len());
        assert(s.subrange(i, j) =~= s);
    }
}

/// `s` with leading and trailing white space removed.
pub fn trim(s: &str) -> (r: String)
    ensures
        r@ == trim_of(s@),
{
    let n = s.unicode_len();
    let mut i: usize = 0;
    while i < n && white_space(s.get_char(i))
        invariant
            n == s@.len(),
            i <= n,
            forall|k: int| 0 <= k < i ==> is_white_space(#[trigger] s@[k]),
        decreases n - i,
    {
        i = i + 1;
    }
    let mut j: usize = n;
    while j > i && white_space(s.get_char(j - 1))
        invariant
            n == s@.len(),
            i <= j <= n,
            forall|k: int| j <= k < n ==> is_white_space(#[trigger] s@[k]),
        decreases j,
    {
        j = j - 1;
    }
    proof {
        lemma_trim_bounds(s@, i as int, j as int);
    }
    String::from_str(s.substring_char(i, j))
}

/// Whether `s` is the header token "doi", compared without regard to ASCII case.
pub fn is_header(s: &str) -> (r: bool)
    ensures
        r == is_header_token(s@),
{
    if s.unicode_len() != 3 {
        return false;
    }
    let a = s.get_char(0);
    let b = s.get_char(1);
    let c = s.get_char(2);
    (a == 'd' || a == 'D') && (b == 'o' || b == 'O') && (c == 'i' || c == 'I')
}

fn digit(d: u16) -> (r: &'static str)
    requires
        d < 10,
    ensures
        r@ == seq![digit_char(d as nat)],
{
    proof {
        reveal_strlit("0");
        reveal_strlit("1");
        reveal_strlit("2");
        reveal_strlit("3");
        reveal_strlit("4");
        reveal_strlit("5");
        reveal_strlit("6");
        reveal_strlit("7");
        reveal_strlit("8");
        reveal_strlit("9");
    }
    if d == 0 {
        "0"
    } else if d == 1 {
        "1"
    } else if d == 2 {
        "2"
    } else if d == 3 {
        "3"
    } else if d == 4 {
        "4"
    } else if d == 5 {
        "5"
    } else if d == 6 {
        "6"
    } else if d == 7 {
        "7"
    } else if d == 8 {
        "8"
    } else {
        "9"
    }
}

/// The decimal rendering of `n`.
pub fn decimal(n: u16) -> (r: String)
    ensures
        r@ == decimal_of(n as nat),
    decreases n,
{
    if n < 10 {
        String::from_str(digit(n))
    } else {
        let mut s = decimal(n / 10);
        s.append(digit(n % 10));
        s
    }
}

} // verus!
