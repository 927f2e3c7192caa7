//! Small verified operations on text used across the site.

use vstd::prelude::*;
use vstd::string::StringExecFns;

verus! {

/// `c` with ASCII capitals folded to small letters.
pub open spec fn ascii_lower(c: char) -> char {
    if 'A' <= c && c <= 'Z' {
        ((c as u8) + 32) as char
    } else {
        c
    }
}

/// `name` ends with `suffix` (written in small letters) when ASCII capitals
/// in `name` are read as small letters.
///
/// For the file extensions the site checks (ASCII letters, digits and a dot,
/// none of them `i` or `k`) this is the same as asking whether Unicode
/// lower-casing of `name` ends with `suffix`: no character other than an ASCII
/// capital lower-cases to one of those characters, and the only character
/// that lower-cases to several (`İ`, to `i` and a combining dot) yields none
/// of them.
pub open spec fn ends_with_ci(name: Seq<char>, suffix: Seq<char>) -> bool {
    &&& suffix.len() <= name.len()
    &&& forall|k: int|
        0 <= k < suffix.len() ==> #[trigger] ascii_lower(name[name.len() - suffix.len() + k])
            == suffix[k]
}

/// Whether `name` ends with `suffix` ignoring ASCII letter case; `suffix` is
/// written in small letters.
pub fn ends_with_ignore_case(name: &str, suffix: &str) -> (r: bool)
    ensures
        r == ends_with_ci(name@, suffix@),
{
    let n = name.unicode_len();
    let m = suffix.unicode_len();
    if m > n {
        return false;
    }
    let start = n - m;
    let mut k: usize = 0;
    while k < m
        invariant
            n == name@.len(),
            m == suffix@.len(),
            start == n - m,
            k <= m,
            forall|j: int| 0 <= j < k ==> #[trigger] ascii_lower(name@[start + j]) == suffix@[j],
        decreases m - k,
    {
        let c = name.get_char(start + k);
        let lower = if 'A' <= c && c <= 'Z' {
            ((c as u8) + 32) as char
        } else {
            c
        };
        if lower != suffix.get_char(k) {
            assert(ascii_lower(name@[start + k as int]) != suffix@[k as int]);
            return false;
        }
        k = k + 1;
    }
    true
}

/// Whether `a` and `b` are the same text.
pub fn same_text(a: &str, b: &str) -> (r: bool)
    ensures
        r == (a@ == b@),
{
    let n = a.unicode_len();
    if n != b.unicode_len() {
        return false;
    }
    let mut k: usize = 0;
    while k < n
        invariant
            n == a@.len(),
            n == b@.len(),
            k <= n,
            forall|j: int| 0 <= j < k ==> a@[j] == b@[j],
        decreases n - k,
    {
        if a.get_char(k) != b.get_char(k) {
            return false;
        }
        k = k + 1;
    }
    assert(a@ =~= b@);
    true
}

/// The digit character for `d` (below ten).
pub open spec fn digit_char(d: int) -> char {
    ('0' as int + d) as char
}

/// The decimal numeral of `n`, without leading zeros.
pub open spec fn decimal(n: nat) -> Seq<char>
    decreases n,
{
    if n < 10 {
        seq![digit_char(n as int)]
    } else {
        decimal(n / 10) + seq![digit_char((n % 10) as int)]
    }
}

fn digit_str(d: u64) -> (r: &'static str)
    requires
        d < 10,
    ensures
        r@ == seq![digit_char(d as int)],
{
    proof {
        reveal_strlit("0");
        reveal_strlit("1");
        reveal_strlit("2");
        reveal_strlit("3");
        reveal_strlit("4");
        reveal_strlit("5");
        reveal_strlit("6");
        reveal_strlit("7");
        reveal_strlit("8");
        reveal_strlit("9");
    }
    let r = match d {
        0 => "0",
        1 => "1",
        2 => "2",
        3 => "3",
        4 => "4",
        5 => "5",
        6 => "6",
        7 => "7",
        8 => "8",
        _ => "9",
    };
    assert(r@ =~= seq![digit_char(d as int)]);
    r
}

/// Appends the decimal numeral of `n` to `s`.
pub fn push_decimal(s: &mut String, n: u64)
    ensures
        final(s)@ == old(s)@ + decimal(n as nat),
    decreases n,
{
    if n >= 10 {
        push_decimal(s, n / 10);
    }
    s.append(digit_str(n % 10));
    assert(final(s)@ =~= old(s)@ + decimal(n as nat));
}

/// The part of `s` after its last `/` (all of `s` when it has none).
pub open spec fn after_last_slash(s: Seq<char>) -> Seq<char>
    decreases s.len(),
{
    if s.len() == 0 {
        s
    } else if s.last() == '/' {
        Seq::empty()
    } else {
        after_last_slash(s.drop_last()).push(s.last())
    }
}

/// `s` with every trailing copy of `suffix` removed, one after another.
pub open spec fn trim_suffix_all(s: Seq<char>, suffix: Seq<char>) -> Seq<char>
    decreases s.len(),
{
    if suffix.len() > 0 && suffix.len() <= s.len() && s.subrange(
        s.len() - suffix.len(),
        s.len() as int,
    ) == suffix {
        trim_suffix_all(s.subrange(0, s.len() - suffix.len()), suffix)
    } else {
        s
    }
}

/// `n` copies of `block`, one after another.
pub open spec fn repeated(block: Seq<char>, n: nat) -> Seq<char>
    decreases n,
{
    if n == 0 {
        Seq::empty()
    } else {
        repeated(block, (n - 1) as nat) + block
    }
}

/// Trimming a suffix away repeatedly keeps a prefix of `s` that does not end
/// with the suffix, and what it removed is the suffix some number of times.
pub proof fn lemma_trim_suffix_all_splits(s: Seq<char>, suffix: Seq<char>)
    requires
        suffix.len() > 0,
    ensures
        ({
            let t = trim_suffix_all(s, suffix);
            &&& t.len() <= s.len()
            &&& s.subrange(0, t.len() as int) == t
            &&& exists|n: nat| s == t + #[trigger] repeated(suffix, n)
            &&& !(suffix.len() <= t.len() && t.subrange(t.len() - suffix.len(), t.len() as int)
                == suffix)
        }),
    decreases s.len(),
{
    let t = trim_suffix_all(s, suffix);
    if suffix.len() <= s.len() && s.subrange(s.len() - suffix.len(), s.len() as int) == suffix {
        let rest = s.subrange(0, s.len() - suffix.len());
        lemma_trim_suffix_all_splits(rest, suffix);
        assert(t == trim_suffix_all(rest, suffix));
        assert(s.subrange(0, t.len() as int) =~= rest.subrange(0, t.len() as int));
        let n = choose|n: nat| rest == t + #[trigger] repeated(suffix, n);
        assert(repeated(suffix, n + 1) == repeated(suffix, n) + suffix);
        assert(s =~= rest + suffix);
        assert(s =~= t + repeated(suffix, n + 1));
    } else {
        assert(s.subrange(0, s.len() as int) =~= s);
        assert(repeated(suffix, 0) == Seq::<char>::empty());
        assert(s =~= t + repeated(suffix, 0));
    }
}

/// The number that a string of decimal digits reads as, most significant
/// digit first.
pub open spec fn numeral_value(s: Seq<char>) -> int
    decreases s.len(),
{
    if s.len() == 0 {
        0
    } else {
        numeral_value(s.drop_last()) * 10 + (s.last() as int - '0' as int)
    }
}

/// The decimal numeral of `n` is made of digits, has no leading zero, and
/// reads back as `n`.
pub proof fn lemma_decimal_reads_back(n: nat)
    ensures
        decimal(n).len() >= 1,
        forall|i: int| 0 <= i < decimal(n).len() ==> '0' <= #[trigger] decimal(n)[i] <= '9',
        n >= 10 ==> decimal(n)[0] != '0',
        numeral_value(decimal(n)) == n,
    decreases n,
{
    if n >= 10 {
        let q = (n / 10) as nat;
        lemma_decimal_reads_back(q);
        let d = decimal(n);
        assert(d == decimal(q) + seq![digit_char((n % 10) as int)]);
        assert(d.drop_last() =~= decimal(q));
        assert forall|i: int| 0 <= i < d.len() implies '0' <= #[trigger] d[i] <= '9' by {
            if i < decimal(q).len() {
                assert(d[i] == decimal(q)[i]);
            }
        }
        assert(d[0] == decimal(q)[0]);
        if q < 10 {
            assert(decimal(q)[0] == digit_char(q as int));
        }
        assert(q * 10 + n % 10 == n) by (nonlinear_arith)
            requires q == n / 10;
        assert(d.last() == digit_char((n % 10) as int));
        assert(digit_char((n % 10) as int) as int == '0' as int + n % 10);
        assert(numeral_value(d) == numeral_value(d.drop_last()) * 10 + (d.last() as int - '0' as int));
    } else {
        let d = decimal(n);
        assert(d.drop_last() =~= Seq::<char>::empty());
        assert(digit_char(n as int) as int == '0' as int + n);
        assert(numeral_value(d) == numeral_value(d.drop_last()) * 10 + (d.last() as int - '0' as int));
    }
}

} // verus!
