//! Small verified text helpers: decimal rendering of counters and
//! identifiers, and whitespace trimming for paths and log lines.
use vstd::prelude::*;
use vstd::string::StrSliceExecFns;
use vstd::string::StringExecFns;

verus! {

/// The digit character for `d` (0 through 9).
pub open spec fn digit_char(d: int) -> char {
    if d == 0 {
        '0'
    } else if d == 1 {
        '1'
    } else if d == 2 {
        '2'
    } else if d == 3 {
        '3'
    } else if d == 4 {
        '4'
    } else if d == 5 {
        '5'
    } else if d == 6 {
        '6'
    } else if d == 7 {
        '7'
    } else if d == 8 {
        '8'
    } else {
        '9'
    }
}

/// The decimal digits of `n`, most significant first, no leading zeros
/// (a single `'0'` for zero).
pub open spec fn dec_of(n: nat) -> Seq<char>
    decreases n,
{
    if n < 10 {
        seq![digit_char(n as int)]
    } else {
        dec_of(n / 10) + seq![digit_char((n % 10) as int)]
    }
}

fn digit_str(d: u128) -> (r: &'static str)
    requires
        d < 10,
    ensures
        r@ =~= seq![digit_char(d as int)],
{
    if d == 0 {
        proof {
            reveal_strlit("0");
        }
        "0"
    } else if d == 1 {
        proof {
            reveal_strlit("1");
        }
        "1"
    } else if d == 2 {
        proof {
            reveal_strlit("2");
        }
        "2"
    } else if d == 3 {
        proof {
            reveal_strlit("3");
        }
        "3"
    } else if d == 4 {
        proof {
            reveal_strlit("4");
        }
        "4"
    } else if d == 5 {
        proof {
            reveal_strlit("5");
        }
        "5"
    } else if d == 6 {
        proof {
            reveal_strlit("6");
        }
        "6"
    } else if d == 7 {
        proof {
            reveal_strlit("7");
        }
        "7"
    } else if d == 8 {
        proof {
            reveal_strlit("8");
        }
        "8"
    } else {
        proof {
            reveal_strlit("9");
        }
        "9"
    }
}

/// Render `n` in decimal.
pub fn decimal_string(n: u128) -> (r: String)
    ensures
        r@ == dec_of(n as nat),
    decreases n,
{
    if n < 10 {
        digit_str(n).to_owned()
    } else {
        let head = decimal_string(n / 10);
        let tail = digit_str(n % 10);
        proof {
            assert(n as nat / 10 == (n / 10) as nat);
            assert(n as nat % 10 == (n % 10) as nat);
        }
        head.concat(tail)
    }
}

/// The whitespace characters trimmed from paths and log lines.
pub open spec fn is_space_char(c: char) -> bool {
    c == ' ' || c == '\t' || c == '\r' || c == '\n'
}

/// The whitespace bytes trimmed from log lines.
pub open spec fn is_space_byte(b: u8) -> bool {
    b == 32 || b == 9 || b == 13 || b == 10
}

/// `s` without its leading elements satisfying `sp`.
pub open spec fn drop_leading<A>(s: Seq<A>, sp: spec_fn(A) -> bool) -> Seq<A>
    decreases s.len(),
{
    if s.len() > 0 && sp(s[0]) {
        drop_leading(s.drop_first(), sp)
    } else {
        s
    }
}

/// `s` without its trailing elements satisfying `sp`.
pub open spec fn drop_trailing<A>(s: Seq<A>, sp: spec_fn(A) -> bool) -> Seq<A>
    decreases s.len(),
{
    if s.len() > 0 && sp(s.last()) {
        drop_trailing(s.drop_last(), sp)
    } else {
        s
    }
}

/// `s` with leading and trailing whitespace characters removed.
pub open spec fn trimmed_chars(s: Seq<char>) -> Seq<char> {
    drop_trailing(drop_leading(s, |c: char| is_space_char(c)), |c: char| is_space_char(c))
}

/// `s` with leading and trailing whitespace bytes removed.
pub open spec fn trimmed_bytes(s: Seq<u8>) -> Seq<u8> {
    drop_trailing(drop_leading(s, |b: u8| is_space_byte(b)), |b: u8| is_space_byte(b))
}

proof fn lemma_drop_leading_at<A>(s: Seq<A>, sp: spec_fn(A) -> bool, lo: int)
    requires
        0 <= lo <= s.len(),
        forall|k: int| 0 <= k < lo ==> sp(#[trigger] s[k]),
        lo == s.len() || !sp(s[lo]),
    ensures
        drop_leading(s, sp) =~= s.subrange(lo, s.len() as int),
    decreases lo,
{
    if lo == 0 {
        assert(s.subrange(0, s.len() as int) =~= s);
    } else {
        assert(sp(s[0]));
        let s1 = s.drop_first();
        assert(forall|k: int| 0 <= k < s1.len() ==> (#[trigger] s1[k]) == s[k + 1]);
        lemma_drop_leading_at(s1, sp, lo - 1);
        assert(s1.subrange(lo - 1, s1.len() as int) =~= s.subrange(lo, s.len() as int));
    }
}

proof fn lemma_drop_trailing_at<A>(s: Seq<A>, sp: spec_fn(A) -> bool, hi: int)
    requires
        0 <= hi <= s.len(),
        forall|k: int| hi <= k < s.len() ==> sp(#[trigger] s[k]),
        hi == 0 || !sp(s[hi - 1]),
    ensures
        drop_trailing(s, sp) =~= s.subrange(0, hi),
    decreases s.len(),
{
    if hi == s.len() {
        assert(s.subrange(0, s.len() as int) =~= s);
    } else {
        assert(sp(s.last()));
        let s1 = s.drop_last();
        assert(forall|k: int| 0 <= k < s1.len() ==> (#[trigger] s1[k]) == s[k]);
        lemma_drop_trailing_at(s1, sp, hi);
        assert(s1.subrange(0, hi) =~= s.subrange(0, hi));
    }
}

fn is_space(c: char) -> (r: bool)
    ensures
        r == is_space_char(c),
{
    c == ' ' || c == '\t' || c == '\r' || c == '\n'
}

/// Remove leading and trailing whitespace from a string.
pub fn trim_str(s: &str) -> (r: String)
    ensures
        r@ == trimmed_chars(s@),
{
    let ghost sp = |c: char| is_space_char(c);
    let n = s.unicode_len();
    let mut lo: usize = 0;
    while lo < n && is_space(s.get_char(lo))
        invariant
            lo <= n,
            n == s@.len(),
            forall|k: int| 0 <= k < lo ==> is_space_char(#[trigger] s@[k]),
        decreases n - lo,
    {
        lo += 1;
    }
    if lo == n {
        proof {
            lemma_drop_leading_at(s@, sp, n as int);
            assert(drop_leading(s@, sp) =~= Seq::<char>::empty());
            assert(trimmed_chars(s@) =~= Seq::<char>::empty());
        }
        return String::new();
    }
    let mut hi: usize = n;
    while hi > lo && is_space(s.get_char(hi - 1))
        invariant
            lo <= hi <= n,
            n == s@.len(),
            forall|k: int| hi <= k < n ==> is_space_char(#[trigger] s@[k]),
        decreases hi,
    {
        hi -= 1;
    }
    proof {
        if hi == lo {
            assert(is_space_char(s@[lo as int]));
            assert(false);
        }
    }
    let piece = s.substring_char(lo, hi);
    proof {
        lemma_drop_leading_at(s@, sp, lo as int);
        let mid = s@.subrange(lo as int, n as int);
        assert(forall|k: int| 0 <= k < mid.len() ==> (#[trigger] mid[k]) == s@[k + lo]);
        lemma_drop_trailing_at(mid, sp, hi - lo as int);
        assert(mid.subrange(0, hi - lo as int) =~= s@.subrange(lo as int, hi as int));
    }
    piece.to_owned()
}

/// Remove leading and trailing whitespace bytes from a log line.
pub fn trim_bytes(line: &Vec<u8>) -> (r: Vec<u8>)
    ensures
        r@ == trimmed_bytes(line@),
{
    let ghost sp = |b: u8| is_space_byte(b);
    let n = line.len();
    let mut lo: usize = 0;
    while lo < n && (line[lo] == 32 || line[lo] == 9 || line[lo] == 13 || line[lo] == 10)
        invariant
            lo <= n,
            n == line@.len(),
            forall|k: int| 0 <= k < lo ==> is_space_byte(#[trigger] line@[k]),
        decreases n - lo,
    {
        lo += 1;
    }
    if lo == n {
        proof {
            lemma_drop_leading_at(line@, sp, n as int);
            assert(drop_leading(line@, sp) =~= Seq::<u8>::empty());
            assert(trimmed_bytes(line@) =~= Seq::<u8>::empty());
        }
        return Vec::new();
    }
    let mut hi: usize = n;
    while hi > lo && (line[hi - 1] == 32 || line[hi - 1] == 9 || line[hi - 1] == 13 || line[hi - 1]
        == 10)
        invariant
            lo <= hi <= n,
            n == line@.len(),
            forall|k: int| hi <= k < n ==> is_space_byte(#[trigger] line@[k]),
        decreases hi,
    {
        hi -= 1;
    }
    proof {
        if hi == lo {
            assert(is_space_byte(line@[lo as int]));
            assert(false);
        }
    }
    let mut r: Vec<u8> = Vec::new();
    let mut k: usize = lo;
    while k < hi
        invariant
            lo <= k <= hi <= n,
            n == line@.len(),
            r@ =~= line@.subrange(lo as int, k as int),
        decreases hi - k,
    {
        r.push(line[k]);
        k += 1;
    }
    proof {
        lemma_drop_leading_at(line@, sp, lo as int);
        let mid = line@.subrange(lo as int, n as int);
        assert(forall|k2: int| 0 <= k2 < mid.len() ==> (#[trigger] mid[k2]) == line@[k2 + lo]);
        lemma_drop_trailing_at(mid, sp, hi - lo as int);
        assert(mid.subrange(0, hi - lo as int) =~= line@.subrange(lo as int, hi as int));
        assert(r@ =~= trimmed_bytes(line@));
    }
    r
}

} // verus!
