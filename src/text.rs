use vstd::prelude::*;

verus! {

/// The ten decimal digits, in order.
pub open spec fn digit_char(d: nat) -> char {
    seq!['0', '1', '2', '3', '4', '5', '6', '7', '8', '9'][d as int]
}

/// Decimal text of a natural number, most significant digit first, no leading zeros.
pub open spec fn nat_text(n: nat) -> Seq<char>
    decreases n,
{
    if n < 10 {
        seq![digit_char(n)]
    } else {
        nat_text(n / 10).push(digit_char(n % 10))
    }
}

/// Decimal text of an integer: a minus sign before the magnitude when negative.
pub open spec fn int_text(i: int) -> Seq<char> {
    if i < 0 {
        seq!['-'] + nat_text((-i) as nat)
    } else {
        nat_text(i as nat)
    }
}

/// The characters that Unicode names White_Space.
pub open spec fn is_whitespace(c: char) -> bool {
    c == '\t' || c == '\n' || c == '\x0B' || c == '\x0C' || c == '\r' || c == ' '
        || c == '\u{85}' || c == '\u{A0}' || c == '\u{1680}' || ('\u{2000}' <= c
        && c <= '\u{200A}') || c == '\u{2028}' || c == '\u{2029}' || c == '\u{202F}'
        || c == '\u{205F}' || c == '\u{3000}'
}

/// `needle` occurs in `hay` starting at position `i`.
pub open spec fn occurs_at(hay: Seq<char>, needle: Seq<char>, i: int) -> bool {
    0 <= i && i + needle.len() <= hay.len() && hay.subrange(i, i + needle.len()) == needle
}

/// `needle` occurs somewhere in `hay`.
pub open spec fn seq_contains(hay: Seq<char>, needle: Seq<char>) -> bool {
    exists|i: int| occurs_at(hay, needle, i)
}

/// `s` with its leading and trailing whitespace removed: the subrange `lo..hi` where
/// `lo` is the first non-whitespace position and `hi` is one past the last one.
pub open spec fn is_trim_of(s: Seq<char>, lo: int, hi: int) -> bool {
    &&& 0 <= lo <= hi <= s.len()
    &&& forall|k: int| 0 <= k < lo ==> is_whitespace(#[trigger] s[k])
    &&& forall|k: int| hi <= k < s.len() ==> is_whitespace(#[trigger] s[k])
    &&& lo < hi ==> !is_whitespace(s[lo]) && !is_whitespace(s[hi - 1])
}

pub open spec fn trimmed(s: Seq<char>) -> Seq<char> {
    let (lo, hi) = choose|lo: int, hi: int| is_trim_of(s, lo, hi);
    s.subrange(lo, hi)
}

fn digit_str(d: u128) -> (r: &'static str)
    requires
        d < 10,
    ensures
        r@ == seq![digit_char(d as nat)],
{
    proof {
        reveal_strlit("0");
        reveal_strlit("1");
        reveal_strlit("2");
        reveal_strlit("3");
        reveal_strlit("4");
        reveal_strlit("5");
        reveal_strlit("6");
        reveal_strlit("7");
        reveal_strlit("8");
        reveal_strlit("9");
    }
    let r = if d == 0 {
        "0"
    } else if d == 1 {
        "1"
    } else if d == 2 {
        "2"
    } else if d == 3 {
        "3"
    } else if d == 4 {
        "4"
    } else if d == 5 {
        "5"
    } else if d == 6 {
        "6"
    } else if d == 7 {
        "7"
    } else if d == 8 {
        "8"
    } else {
        "9"
    };
    assert(r@ =~= seq![digit_char(d as nat)]);
    r
}

/// Appends the decimal text of `n` to `s`.
pub fn append_nat(s: &mut String, n: u128)
    ensures
        final(s)@ == old(s)@ + nat_text(n as nat),
    decreases n,
{
    if n >= 10 {
        append_nat(s, n / 10);
    }
    let d = digit_str(n % 10);
    s.append(d);
    assert(final(s)@ =~= old(s)@ + nat_text(n as nat));
}

/// The decimal text of `v`, as Rust's `Display` for integers writes it.
pub fn decimal_text(v: i128) -> (r: String)
    ensures
        r@ == int_text(v as int),
{
    let mut s = String::new();
    if v < 0 {
        proof {
            reveal_strlit("-");
        }
        s.append("-");
        let m: u128 = if v == i128::MIN {
            170141183460469231731687303715884105728u128
        } else {
            (-v) as u128
        };
        append_nat(&mut s, m);
        assert(s@ =~= int_text(v as int));
    } else {
        append_nat(&mut s, v as u128);
        assert(s@ =~= int_text(v as int));
    }
    s
}

/// Whether `needle` occurs in `hay`.
pub fn text_contains(hay: &str, needle: &str) -> (r: bool)
    ensures
        r == seq_contains(hay@, needle@),
{
    let n = hay.unicode_len();
    let m = needle.unicode_len();
    if m > n {
        assert(!seq_contains(hay@, needle@));
        return false;
    }
    let last = n - m;
    let mut i: usize = 0;
    loop
        invariant
            n == hay@.len(),
            m == needle@.len(),
            m <= n,
            last == n - m,
            i <= last,
            forall|k: int| 0 <= k < i ==> !occurs_at(hay@, needle@, k),
        decreases last - i,
    {
        let mut j: usize = 0;
        let mut same = true;
        while j < m
            invariant
                n == hay@.len(),
                m == needle@.len(),
                i + m <= n,
                j <= m,
                same ==> forall|k: int| 0 <= k < j ==> hay@[i + k] == needle@[k],
                !same ==> !occurs_at(hay@, needle@, i as int),
            decreases m - j,
        {
            if same && hay.get_char(i + j) != needle.get_char(j) {
                same = false;
                assert(hay@.subrange(i as int, i + m)[j as int] != needle@[j as int]);
            }
            j = j + 1;
        }
        if same {
            assert(hay@.subrange(i as int, i + m) =~= needle@);
            assert(occurs_at(hay@, needle@, i as int));
            return true;
        }
        if i == last {
            assert forall|k: int| !occurs_at(hay@, needle@, k) by {
                if 0 <= k <= i {
                }
            }
            return false;
        }
        i = i + 1;
    }
}

/// `s` without its leading and trailing whitespace, as `str::trim` gives it.
pub fn trim_whitespace(s: &str) -> (r: String)
    ensures
        r@ == trimmed(s@),
{
    let n = s.unicode_len();
    let mut lo: usize = 0;
    while lo < n && is_whitespace_char(s.get_char(lo))
        invariant
            n == s@.len(),
            lo <= n,
            forall|k: int| 0 <= k < lo ==> is_whitespace(#[trigger] s@[k]),
        decreases n - lo,
    {
        lo = lo + 1;
    }
    let mut hi: usize = n;
    while hi > lo && is_whitespace_char(s.get_char(hi - 1))
        invariant
            n == s@.len(),
            lo <= hi <= n,
            forall|k: int| hi <= k < n ==> is_whitespace(#[trigger] s@[k]),
        decreases hi,
    {
        hi = hi - 1;
    }
    assert(is_trim_of(s@, lo as int, hi as int));
    proof {
        lemma_trim_unique(s@, lo as int, hi as int);
    }
    String::from_str(s.substring_char(lo, hi))
}

proof fn lemma_trim_unique(s: Seq<char>, lo: int, hi: int)
    requires
        is_trim_of(s, lo, hi),
    ensures
        trimmed(s) == s.subrange(lo, hi),
{
    let (a, b) = choose|a: int, b: int| is_trim_of(s, a, b);
    assert(is_trim_of(s, a, b));
    if a < lo {
        assert(is_whitespace(s[a]));
        assert(a == b);
        assert(s[hi - 1] == s[hi - 1]);
    }
    if lo < a {
        assert(is_whitespace(s[lo]));
    }
    assert(a == lo || (a == b && lo == hi));
    if lo < hi {
        assert(a == lo);
        if b < hi {
            assert(is_whitespace(s[hi - 1]));
        }
        if hi < b {
            assert(is_whitespace(s[b - 1]));
        }
    } else {
        if a < b {
            assert(is_whitespace(s[a]));
        }
    }
    assert(s.subrange(a, b) =~= s.subrange(lo, hi));
}

fn is_whitespace_char(c: char) -> (r: bool)
    ensures
        r == is_whitespace(c),
{
    c == '\t' || c == '\n' || c == '\x0B' || c == '\x0C' || c == '\r' || c == ' '
        || c == '\u{85}' || c == '\u{A0}' || c == '\u{1680}' || ('\u{2000}' <= c
        && c <= '\u{200A}') || c == '\u{2028}' || c == '\u{2029}' || c == '\u{202F}'
        || c == '\u{205F}' || c == '\u{3000}'
}

/// `n` copies of `ch`.
pub open spec fn fill(n: nat, ch: char) -> Seq<char> {
    Seq::new(n, |i: int| ch)
}

/// Appends `n` copies of the one-character `unit` to `line`.
pub(crate) fn append_repeated(line: &mut String, unit: &str, n: usize)
    requires
        unit@.len() == 1,
    ensures
        final(line)@ == old(line)@ + fill(n as nat, unit@[0]),
{
    let mut k: usize = 0;
    while k < n
        invariant
            unit@.len() == 1,
            k <= n,
            line@ == old(line)@ + fill(k as nat, unit@[0]),
        decreases n - k,
    {
        line.append(unit);
        k = k + 1;
        assert(line@ =~= old(line)@ + fill(k as nat, unit@[0]));
    }
}

pub open spec fn abs_int(i: int) -> nat {
    if i < 0 {
        (-i) as nat
    } else {
        i as nat
    }
}

pub open spec fn sign_text(i: int) -> Seq<char> {
    if i < 0 {
        seq!['-']
    } else {
        seq![]
    }
}

/// The canonical text of the fixed-point number `unscaled * 10^(-scale)`. With a negative
/// scale the integer is followed by `-scale` zeros; with a positive one a point stands
/// before the last `scale` digits, and a fraction below one is written `0.` followed by
/// the digits padded with zeros on the left to `scale` places.
pub open spec fn scaled_text(unscaled: int, scale: int) -> Seq<char> {
    let d = nat_text(abs_int(unscaled));
    if scale == 0 {
        int_text(unscaled)
    } else if scale < 0 {
        int_text(unscaled) + fill((-scale) as nat, '0')
    } else if d.len() > scale {
        sign_text(unscaled) + d.subrange(0, d.len() - scale) + seq!['.'] + d.subrange(
            d.len() - scale,
            d.len() as int,
        )
    } else {
        sign_text(unscaled) + seq!['0', '.'] + fill((scale - d.len()) as nat, '0') + d
    }
}

fn magnitude(v: i128) -> (r: u128)
    ensures
        r == abs_int(v as int),
{
    if v == i128::MIN {
        170141183460469231731687303715884105728u128
    } else if v < 0 {
        (-v) as u128
    } else {
        v as u128
    }
}

/// The canonical text of the fixed-point number `unscaled * 10^(-scale)`.
pub fn scaled_decimal_text(unscaled: i128, scale: i8) -> (r: String)
    ensures
        r@ == scaled_text(unscaled as int, scale as int),
{
    proof {
        reveal_strlit("0");
        reveal_strlit("-");
        reveal_strlit(".");
        reveal_strlit("0.");
    }
    if scale == 0 {
        return decimal_text(unscaled);
    }
    if scale < 0 {
        let mut s = decimal_text(unscaled);
        let n = (0i16 - scale as i16) as usize;
        append_repeated(&mut s, "0", n);
        return s;
    }
    let mut d = String::new();
    append_nat(&mut d, magnitude(unscaled));
    assert(d@ =~= nat_text(abs_int(unscaled as int)));
    let mut s = String::new();
    if unscaled < 0 {
        s.append("-");
    }
    assert(s@ =~= sign_text(unscaled as int));
    let len = d.as_str().unicode_len();
    let sc = scale as usize;
    if len > sc {
        s.append(d.as_str().substring_char(0, len - sc));
        s.append(".");
        s.append(d.as_str().substring_char(len - sc, len));
    } else {
        s.append("0.");
        append_repeated(&mut s, "0", sc - len);
        s.append(d.as_str());
    }
    assert(s@ =~= scaled_text(unscaled as int, scale as int));
    s
}

} // verus!
