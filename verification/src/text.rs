//! Character-level text handling shared by the parsers of the library:
//! line splitting as `str::lines` does it, splitting on one separator as
//! `str::split` does it, whitespace trimming as `str::trim` does it, and
//! decimal rendering of integers.
use vstd::prelude::*;

verus! {

/// Whether `c` has the Unicode `White_Space` property (what `char::is_whitespace` tests).
pub open spec fn is_white_space(c: char) -> bool {
    let u = c as int;
    ||| 0x09 <= u <= 0x0d
    ||| u == 0x20
    ||| u == 0x85
    ||| u == 0xa0
    ||| u == 0x1680
    ||| 0x2000 <= u <= 0x200a
    ||| u == 0x2028
    ||| u == 0x2029
    ||| u == 0x202f
    ||| u == 0x205f
    ||| u == 0x3000
}

/// First index at or after `i` that does not hold whitespace (or the length).
pub open spec fn skip_white_from(s: Seq<char>, i: int) -> int
    decreases s.len() - i,
{
    if 0 <= i < s.len() && is_white_space(s[i]) {
        skip_white_from(s, i + 1)
    } else {
        i
    }
}

/// Scanning back from `j`, the end of the text once trailing whitespace above `lo` is cut.
pub open spec fn cut_white_back(s: Seq<char>, lo: int, j: int) -> int
    decreases j - lo,
{
    if lo < j && j <= s.len() && is_white_space(s[j - 1]) {
        cut_white_back(s, lo, j - 1)
    } else {
        j
    }
}

/// `s` without its leading and trailing whitespace, as `str::trim` gives it.
pub open spec fn trim(s: Seq<char>) -> Seq<char> {
    let a = skip_white_from(s, 0);
    s.subrange(a, cut_white_back(s, a, s.len() as int))
}

/// A line as `str::lines` hands it out: a trailing `'\r'` before the line feed is cut.
pub open spec fn cut_cr(line: Seq<char>) -> Seq<char> {
    if line.len() > 0 && line.last() == '\r' {
        line.drop_last()
    } else {
        line
    }
}

/// Lines completed so far and the line being read, after reading all of `s`.
pub open spec fn lines_state(s: Seq<char>) -> (Seq<Seq<char>>, Seq<char>)
    decreases s.len(),
{
    if s.len() == 0 {
        (Seq::empty(), Seq::empty())
    } else {
        let (done, cur) = lines_state(s.drop_last());
        if s.last() == '\n' {
            (done.push(cut_cr(cur)), Seq::empty())
        } else {
            (done, cur.push(s.last()))
        }
    }
}

/// The lines of `s` as `str::lines` yields them: split at each `'\n'`, a `'\r'`
/// right before it dropped, and no empty line after a final line feed.
pub open spec fn lines(s: Seq<char>) -> Seq<Seq<char>> {
    let (done, cur) = lines_state(s);
    if cur.len() > 0 {
        done.push(cur)
    } else {
        done
    }
}

/// Fields completed so far and the field being read, after reading all of `s`.
pub open spec fn split_state(s: Seq<char>, sep: char) -> (Seq<Seq<char>>, Seq<char>)
    decreases s.len(),
{
    if s.len() == 0 {
        (Seq::empty(), Seq::empty())
    } else {
        let (done, cur) = split_state(s.drop_last(), sep);
        if s.last() == sep {
            (done.push(cur), Seq::empty())
        } else {
            (done, cur.push(s.last()))
        }
    }
}

/// The pieces of `s` between occurrences of `sep`, as `str::split` yields them
/// (never empty: the text without `sep` is one piece).
pub open spec fn split(s: Seq<char>, sep: char) -> Seq<Seq<char>> {
    let (done, cur) = split_state(s, sep);
    done.push(cur)
}

/// The character of decimal digit `d`.
pub open spec fn digit_char(d: int) -> char {
    (d + 48) as char
}

/// The decimal numeral of `n`, as `Display` writes an unsigned integer.
pub open spec fn decimal(n: nat) -> Seq<char>
    decreases n,
{
    if n < 10 {
        seq![digit_char(n as int)]
    } else {
        decimal(n / 10).push(digit_char((n % 10) as int))
    }
}

/// Whether `c` is whitespace; the executable side of `is_white_space`.
pub fn char_is_white_space(c: char) -> (b: bool)
    ensures
        b == is_white_space(c),
{
    let u = c as u32;
    (0x09 <= u && u <= 0x0d) || u == 0x20 || u == 0x85 || u == 0xa0 || u == 0x1680 || (0x2000
        <= u && u <= 0x200a) || u == 0x2028 || u == 0x2029 || u == 0x202f || u == 0x205f || u
        == 0x3000
}

/// A vector of characters is seen the same way deeply and shallowly.
pub proof fn lemma_chars_deep_view(v: &Vec<char>)
    ensures
        v.deep_view() == v@,
{
    assert(v.deep_view() =~= v@);
}

/// The characters of a string slice, in order.
pub fn chars_of(s: &str) -> (v: Vec<char>)
    ensures
        v@ == s@,
{
    let mut v: Vec<char> = Vec::new();
    for c in it: s.chars()
        invariant
            v@ == it.seq().take(it.index() as int),
            it.seq() == s@,
    {
        v.push(c);
    }
    v
}

/// A string holding exactly the characters of `v`.
#[verifier::external_body]
pub(crate) fn string_from_chars(v: &Vec<char>) -> (s: String)
    ensures
        s@ == v@,
{
    v.iter().collect()
}

/// The characters of `s` between `lo` and `hi`.
pub fn sub_chars(s: &Vec<char>, lo: usize, hi: usize) -> (r: Vec<char>)
    requires
        lo <= hi <= s.len(),
    ensures
        r@ == s@.subrange(lo as int, hi as int),
{
    let mut r: Vec<char> = Vec::new();
    let mut i = lo;
    while i < hi
        invariant
            lo <= i <= hi <= s.len(),
            r@ == s@.subrange(lo as int, i as int),
        decreases hi - i,
    {
        r.push(s[i]);
        i = i + 1;
        assert(r@ =~= s@.subrange(lo as int, i as int));
    }
    r
}

/// `s` without leading and trailing whitespace.
pub fn trim_chars(s: &Vec<char>) -> (r: Vec<char>)
    ensures
        r@ == trim(s@),
{
    let n = s.len();
    let mut a: usize = 0;
    while a < n && char_is_white_space(s[a])
        invariant
            a <= n == s@.len(),
            skip_white_from(s@, a as int) == skip_white_from(s@, 0),
        decreases n - a,
    {
        a = a + 1;
    }
    let mut b: usize = n;
    while b > a && char_is_white_space(s[b - 1])
        invariant
            a <= b <= n == s@.len(),
            a == skip_white_from(s@, 0),
            cut_white_back(s@, a as int, b as int) == cut_white_back(s@, a as int, n as int),
        decreases b - a,
    {
        b = b - 1;
    }
    sub_chars(s, a, b)
}

/// The lines of `s`, as `str::lines` yields them.
pub fn split_lines(s: &Vec<char>) -> (r: Vec<Vec<char>>)
    ensures
        r.deep_view() == lines(s@),
{
    let mut done: Vec<Vec<char>> = Vec::new();
    let mut cur: Vec<char> = Vec::new();
    let n = s.len();
    for i in 0..n
        invariant
            n == s@.len(),
            (done.deep_view(), cur@) == lines_state(s@.take(i as int)),
    {
        proof {
            assert(s@.take(i + 1).drop_last() =~= s@.take(i as int));
        }
        let c = s[i];
        if c == '\n' {
            if cur.len() > 0 && cur[cur.len() - 1] == '\r' {
                cur.pop();
            }
            let line = cur;
            let ghost before = done.deep_view();
            proof {
                lemma_chars_deep_view(&line);
            }
            done.push(line);
            cur = Vec::new();
            proof {
                assert(done.deep_view() =~= before.push(line@));
            }
        } else {
            cur.push(c);
            proof {
                assert(done.deep_view() =~= lines_state(s@.take(i + 1)).0);
            }
        }
    }
    proof {
        assert(s@.take(n as int) =~= s@);
    }
    if cur.len() > 0 {
        let ghost before = done.deep_view();
        proof {
            lemma_chars_deep_view(&cur);
        }
        done.push(cur);
        proof {
            assert(done.deep_view() =~= before.push(cur@));
        }
    }
    done
}

/// The pieces of `s` between occurrences of `sep`, as `str::split` yields them.
pub fn split_chars(s: &Vec<char>, sep: char) -> (r: Vec<Vec<char>>)
    ensures
        r.deep_view() == split(s@, sep),
        r.len() >= 1,
{
    let mut done: Vec<Vec<char>> = Vec::new();
    let mut cur: Vec<char> = Vec::new();
    let n = s.len();
    for i in 0..n
        invariant
            n == s@.len(),
            (done.deep_view(), cur@) == split_state(s@.take(i as int), sep),
    {
        proof {
            assert(s@.take(i + 1).drop_last() =~= s@.take(i as int));
        }
        let c = s[i];
        if c == sep {
            let piece = cur;
            let ghost before = done.deep_view();
            proof {
                lemma_chars_deep_view(&piece);
            }
            done.push(piece);
            cur = Vec::new();
            proof {
                assert(done.deep_view() =~= before.push(piece@));
            }
        } else {
            cur.push(c);
            proof {
                assert(done.deep_view() =~= split_state(s@.take(i + 1), sep).0);
            }
        }
    }
    proof {
        assert(s@.take(n as int) =~= s@);
    }
    let ghost before = done.deep_view();
    proof {
        lemma_chars_deep_view(&cur);
    }
    done.push(cur);
    proof {
        assert(done.deep_view() =~= before.push(cur@));
    }
    done
}

/// The decimal digits of `n`.
pub fn decimal_chars(n: usize) -> (r: Vec<char>)
    ensures
        r@ == decimal(n as nat),
    decreases n,
{
    let d = (n % 10) as u8;
    let c = (d + 48u8) as char;
    proof {
        assert(c == digit_char((n % 10) as int));
    }
    if n < 10 {
        let mut r: Vec<char> = Vec::new();
        r.push(c);
        proof {
            assert(r@ =~= decimal(n as nat));
        }
        r
    } else {
        let mut r = decimal_chars(n / 10);
        r.push(c);
        r
    }
}

/// The decimal numeral of `n` as a string.
pub fn decimal_string(n: usize) -> (s: String)
    ensures
        s@ == decimal(n as nat),
{
    let v = decimal_chars(n);
    string_from_chars(&v)
}

/// Whether `pat` occurs in `text` at index `i`.
pub open spec fn occurs_at(text: Seq<char>, pat: Seq<char>, i: int) -> bool {
    0 <= i && i + pat.len() <= text.len() && text.subrange(i, i + pat.len()) == pat
}

/// The first index at or after `i` where `pat` occurs in `text`.
pub open spec fn find_from(text: Seq<char>, pat: Seq<char>, i: int) -> Option<int>
    decreases text.len() - i,
{
    if i < 0 || i + pat.len() > text.len() {
        None
    } else if occurs_at(text, pat, i) {
        Some(i)
    } else {
        proof {
            if pat.len() == 0 {
                assert(text.subrange(i, i) =~= pat);
            }
        }
        find_from(text, pat, i + 1)
    }
}

/// What `find_from` finds is an occurrence at or after the start.
pub proof fn lemma_find_from(text: Seq<char>, pat: Seq<char>, i: int)
    ensures
        find_from(text, pat, i) matches Some(p) ==> i <= p && occurs_at(text, pat, p),
    decreases text.len() - i,
{
    if !(i < 0 || i + pat.len() > text.len()) && !occurs_at(text, pat, i) {
        if pat.len() == 0 {
            assert(text.subrange(i, i) =~= pat);
        }
        lemma_find_from(text, pat, i + 1);
    }
}

/// Whether two character sequences are equal.
pub fn chars_equal(a: &Vec<char>, b: &Vec<char>) -> (r: bool)
    ensures
        r == (a@ == b@),
{
    if a.len() != b.len() {
        return false;
    }
    let n = a.len();
    for i in 0..n
        invariant
            n == a@.len() == b@.len(),
            forall|k: int| 0 <= k < i ==> a@[k] == b@[k],
    {
        if a[i] != b[i] {
            return false;
        }
    }
    assert(a@ =~= b@);
    true
}

/// The first index at or after `from` where `pat` occurs in `text`.
pub fn find_chars(text: &Vec<char>, pat: &Vec<char>, from: usize) -> (r: Option<usize>)
    requires
        from <= text.len(),
    ensures
        match r {
            Some(p) => find_from(text@, pat@, from as int) == Some(p as int),
            None => find_from(text@, pat@, from as int) is None,
        },
    decreases text.len() - from,
{
    if pat.len() > text.len() - from {
        return None;
    }
    let piece = sub_chars(text, from, from + pat.len());
    if chars_equal(&piece, pat) {
        Some(from)
    } else {
        proof {
            if pat@.len() == 0 {
                assert(piece@ =~= pat@);
            }
        }
        find_chars(text, pat, from + 1)
    }
}

} // verus!

verus! {

/// A decimal numeral has at least one digit, and two-digit numbers and above have at least two.
pub proof fn lemma_decimal_len(n: nat)
    ensures
        decimal(n).len() >= 1,
        n >= 10 ==> decimal(n).len() >= 2,
    decreases n,
{
    if n >= 10 {
        lemma_decimal_len(n / 10);
    }
}

/// The digit characters of different digits differ.
pub proof fn lemma_digit_char_injective(a: int, b: int)
    requires
        0 <= a < 10,
        0 <= b < 10,
        digit_char(a) == digit_char(b),
    ensures
        a == b,
{
    assert(digit_char(a) as int == a + 48);
    assert(digit_char(b) as int == b + 48);
}

/// Different numbers have different numerals.
pub proof fn lemma_decimal_injective(n: nat, m: nat)
    requires
        decimal(n) == decimal(m),
    ensures
        n == m,
    decreases n,
{
    lemma_decimal_len(n);
    lemma_decimal_len(m);
    if n < 10 && m < 10 {
        assert(decimal(n)[0] == digit_char(n as int));
        assert(decimal(m)[0] == digit_char(m as int));
        lemma_digit_char_injective(n as int, m as int);
    } else if n >= 10 && m >= 10 {
        let dn = decimal(n);
        let dm = decimal(m);
        assert(dn.last() == digit_char((n % 10) as int));
        assert(dm.last() == digit_char((m % 10) as int));
        lemma_digit_char_injective((n % 10) as int, (m % 10) as int);
        assert(dn.drop_last() =~= decimal(n / 10));
        assert(dm.drop_last() =~= decimal(m / 10));
        lemma_decimal_injective(n / 10, m / 10);
    } else {
        assert(decimal(n).len() != decimal(m).len());
    }
}

} // verus!
