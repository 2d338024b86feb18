//! String helpers with exact specifications: decimal rendering of integers,
//! placeholder replacement and trimming of trailing whitespace.
use vstd::prelude::*;
use vstd::string::*;

verus! {

/// The decimal digit character for `d` (which is below ten).
pub open spec fn digit_char(d: nat) -> char {
    if d == 0 { '0' }
    else if d == 1 { '1' }
    else if d == 2 { '2' }
    else if d == 3 { '3' }
    else if d == 4 { '4' }
    else if d == 5 { '5' }
    else if d == 6 { '6' }
    else if d == 7 { '7' }
    else if d == 8 { '8' }
    else { '9' }
}

/// The decimal notation of `n`, without sign or leading zeros.
pub open spec fn decimal(n: nat) -> Seq<char>
    decreases n,
{
    if n < 10 {
        seq![digit_char(n)]
    } else {
        decimal(n / 10).push(digit_char(n % 10))
    }
}

fn digit_str(d: u64) -> (r: &'static str)
    requires
        d < 10,
    ensures
        r@ == seq![digit_char(d as nat)],
{
    proof {
        reveal_strlit("0");
        reveal_strlit("1");
        reveal_strlit("2");
        reveal_strlit("3");
        reveal_strlit("4");
        reveal_strlit("5");
        reveal_strlit("6");
        reveal_strlit("7");
        reveal_strlit("8");
        reveal_strlit("9");
    }
    let r = if d == 0 { "0" }
    else if d == 1 { "1" }
    else if d == 2 { "2" }
    else if d == 3 { "3" }
    else if d == 4 { "4" }
    else if d == 5 { "5" }
    else if d == 6 { "6" }
    else if d == 7 { "7" }
    else if d == 8 { "8" }
    else { "9" };
    assert(r@ =~= seq![digit_char(d as nat)]);
    r
}

/// Renders `n` in decimal notation.
pub fn to_decimal(n: u64) -> (r: String)
    ensures
        r@ == decimal(n as nat),
    decreases n,
{
    if n < 10 {
        String::from_str(digit_str(n))
    } else {
        let mut s = to_decimal(n / 10);
        s.append(digit_str(n % 10));
        s
    }
}

proof fn lemma_digit_char_injective(a: nat, b: nat)
    requires
        a < 10,
        b < 10,
        digit_char(a) == digit_char(b),
    ensures
        a == b,
{
}

proof fn lemma_decimal_len(n: nat)
    ensures
        decimal(n).len() >= 1,
        n >= 10 ==> decimal(n).len() >= 2,
    decreases n,
{
    if n >= 10 {
        lemma_decimal_len(n / 10);
    }
}

/// Distinct numbers have distinct decimal notations.
pub proof fn lemma_decimal_injective(a: nat, b: nat)
    requires
        decimal(a) == decimal(b),
    ensures
        a == b,
    decreases a,
{
    lemma_decimal_len(a);
    lemma_decimal_len(b);
    if a < 10 && b < 10 {
        assert(decimal(a) == seq![digit_char(a)]);
        assert(decimal(b) == seq![digit_char(b)]);
        assert(seq![digit_char(a)][0] == digit_char(a));
        assert(seq![digit_char(b)][0] == digit_char(b));
        lemma_digit_char_injective(a, b);
    } else if a >= 10 && b >= 10 {
        let da = decimal(a);
        let db = decimal(b);
        assert(da.last() == digit_char(a % 10));
        assert(db.last() == digit_char(b % 10));
        lemma_digit_char_injective(a % 10, b % 10);
        assert(decimal(a / 10) =~= da.drop_last());
        assert(decimal(b / 10) =~= db.drop_last());
        lemma_decimal_injective(a / 10, b / 10);
    }
}

/// The text `s` with every occurrence of the non-empty pattern `p` replaced by
/// `r`, scanning from the left; occurrences do not overlap and the inserted
/// text is not scanned again.
pub open spec fn replaced(s: Seq<char>, p: Seq<char>, r: Seq<char>) -> Seq<char>
    decreases s.len(),
{
    if p.len() == 0 || s.len() < p.len() {
        s
    } else if s.subrange(0, p.len() as int) == p {
        r + replaced(s.subrange(p.len() as int, s.len() as int), p, r)
    } else {
        seq![s[0]] + replaced(s.subrange(1, s.len() as int), p, r)
    }
}

/// Whether `p` occurs in `s` starting at index `i`.
pub open spec fn occurs_at(s: Seq<char>, p: Seq<char>, i: int) -> bool {
    0 <= i && i + p.len() <= s.len() && s.subrange(i, i + p.len()) == p
}

proof fn lemma_replaced_skips_prefix(s: Seq<char>, p: Seq<char>, r: Seq<char>, i: int)
    requires
        p.len() > 0,
        0 <= i <= s.len(),
        forall|j: int| 0 <= j < i ==> !occurs_at(s, p, j),
    ensures
        replaced(s, p, r) == s.subrange(0, i) + replaced(s.subrange(i, s.len() as int), p, r),
    decreases i,
{
    if i == 0 {
        assert(s.subrange(0, s.len() as int) =~= s);
        assert(s.subrange(0, 0) + replaced(s, p, r) =~= replaced(s, p, r));
    } else if s.len() < p.len() {
        let t = s.subrange(i, s.len() as int);
        assert(replaced(t, p, r) == t);
        assert(s.subrange(0, i) + t =~= s);
    } else {
        assert(!occurs_at(s, p, 0));
        assert(s.subrange(0, p.len() as int) != p);
        let t = s.subrange(1, s.len() as int);
        assert forall|j: int| 0 <= j < i - 1 implies !occurs_at(t, p, j) by {
            assert(!occurs_at(s, p, j + 1));
            if j + p.len() <= t.len() {
                assert(t.subrange(j, j + p.len()) =~= s.subrange(j + 1, j + 1 + p.len()));
            }
        }
        lemma_replaced_skips_prefix(t, p, r, i - 1);
        assert(t.subrange(i - 1, t.len() as int) =~= s.subrange(i, s.len() as int));
        assert(seq![s[0]] + t.subrange(0, i - 1) =~= s.subrange(0, i));
    }
}

/// A text in which the pattern does not occur comes out of the replacement
/// unchanged.
pub proof fn lemma_replaced_no_occurrence(s: Seq<char>, p: Seq<char>, r: Seq<char>)
    requires
        p.len() > 0,
        forall|j: int| !occurs_at(s, p, j),
    ensures
        replaced(s, p, r) == s,
{
    lemma_replaced_skips_prefix(s, p, r, s.len() as int);
    let e = s.subrange(s.len() as int, s.len() as int);
    assert(e.len() == 0);
    assert(replaced(e, p, r) == e);
    assert(s.subrange(0, s.len() as int) + e =~= s);
}

/// Where the pattern occurs exactly once, at index `i`, the replacement puts
/// `r` in its place and leaves the text before and after it as it was.
pub proof fn lemma_replaced_single_occurrence(s: Seq<char>, p: Seq<char>, r: Seq<char>, i: int)
    requires
        p.len() > 0,
        occurs_at(s, p, i),
        forall|j: int| j != i ==> !occurs_at(s, p, j),
    ensures
        replaced(s, p, r) == s.subrange(0, i) + r + s.subrange(i + p.len(), s.len() as int),
{
    lemma_replaced_skips_prefix(s, p, r, i);
    let t = s.subrange(i, s.len() as int);
    let u = s.subrange(i + p.len(), s.len() as int);
    assert(t.subrange(0, p.len() as int) =~= s.subrange(i, i + p.len()));
    assert(t.subrange(p.len() as int, t.len() as int) =~= u);
    assert forall|j: int| !occurs_at(u, p, j) by {
        if 0 <= j && j + p.len() <= u.len() {
            assert(!occurs_at(s, p, i + p.len() + j));
            assert(u.subrange(j, j + p.len()) =~= s.subrange(i + p.len() + j, i + p.len() + j + p.len()));
        }
    }
    lemma_replaced_no_occurrence(u, p, r);
    assert(replaced(t, p, r) == r + u);
    assert(s.subrange(0, i) + (r + u) =~= s.subrange(0, i) + r + u);
}

fn matches_at(s: &str, p: &str, i: usize, s_len: usize, p_len: usize) -> (r: bool)
    requires
        s_len == s@.len(),
        p_len == p@.len(),
        i + p_len <= s_len,
    ensures
        r == occurs_at(s@, p@, i as int),
{
    let mut k: usize = 0;
    while k < p_len
        invariant
            s_len == s@.len(),
            p_len == p@.len(),
            i + p_len <= s_len,
            k <= p_len,
            forall|j: int| 0 <= j < k ==> s@[i + j] == p@[j],
        decreases p_len - k,
    {
        if s.get_char(i + k) != p.get_char(k) {
            assert(s@.subrange(i as int, i + p_len)[k as int] != p@[k as int]);
            return false;
        }
        k = k + 1;
    }
    assert(s@.subrange(i as int, i + p_len) =~= p@);
    true
}

/// Replaces every occurrence of the non-empty pattern `p` in `s` by `r`, from
/// left to right, as `str::replace` does.
pub fn replace_all(s: &str, p: &str, r: &str) -> (out: String)
    requires
        p@.len() > 0,
    ensures
        out@ == replaced(s@, p@, r@),
{
    let s_len = s.unicode_len();
    let p_len = p.unicode_len();
    let mut out = String::new();
    let mut start: usize = 0;
    let mut i: usize = 0;
    assert(s@.subrange(0, s_len as int) =~= s@);
    assert(out@ + s@.subrange(0, 0) =~= Seq::<char>::empty());
    while p_len <= s_len - i
        invariant
            s_len == s@.len(),
            p_len == p@.len(),
            p_len > 0,
            start <= i <= s_len,
            out@ + s@.subrange(start as int, i as int) + replaced(s@.subrange(i as int, s_len as int), p@, r@)
                == replaced(s@, p@, r@),
        decreases s_len - i,
    {
        let ghost rest = s@.subrange(i as int, s_len as int);
        assert(rest.subrange(0, p_len as int) =~= s@.subrange(i as int, i + p_len));
        if matches_at(s, p, i, s_len, p_len) {
            assert(rest.subrange(p_len as int, rest.len() as int) =~= s@.subrange(i + p_len, s_len as int));
            out.append(s.substring_char(start, i));
            out.append(r);
            i = i + p_len;
            start = i;
            assert(s@.subrange(start as int, i as int) =~= Seq::<char>::empty());
        } else {
            assert(rest.subrange(1, rest.len() as int) =~= s@.subrange(i + 1, s_len as int));
            assert(s@.subrange(start as int, i as int) + seq![s@[i as int]] =~= s@.subrange(start as int, i + 1));
            i = i + 1;
        }
    }
    assert(replaced(s@.subrange(i as int, s_len as int), p@, r@) == s@.subrange(i as int, s_len as int));
    assert(s@.subrange(start as int, i as int) + s@.subrange(i as int, s_len as int) =~= s@.subrange(start as int, s_len as int));
    out.append(s.substring_char(start, s_len));
    out
}

/// Unicode whitespace (the White_Space property, as `char::is_whitespace`
/// has it): U+0009 to U+000D, U+0020, U+0085, U+00A0, U+1680, U+2000 to
/// U+200A, U+2028, U+2029, U+202F, U+205F and U+3000.
pub open spec fn is_space(c: char) -> bool {
    let u = c as u32;
    (0x9 <= u <= 0xD) || u == 0x20 || u == 0x85 || u == 0xA0 || u == 0x1680
        || (0x2000 <= u <= 0x200A) || u == 0x2028 || u == 0x2029 || u == 0x202F
        || u == 0x205F || u == 0x3000
}

fn is_space_char(c: char) -> (r: bool)
    ensures
        r == is_space(c),
{
    let u = c as u32;
    (0x9 <= u && u <= 0xD) || u == 0x20 || u == 0x85 || u == 0xA0 || u == 0x1680
        || (0x2000 <= u && u <= 0x200A) || u == 0x2028 || u == 0x2029 || u == 0x202F
        || u == 0x205F || u == 0x3000
}

/// `s` without the whitespace at its end.
pub open spec fn trimmed_end(s: Seq<char>) -> Seq<char>
    decreases s.len(),
{
    if s.len() > 0 && is_space(s.last()) {
        trimmed_end(s.drop_last())
    } else {
        s
    }
}

/// Returns `s` without the whitespace at its end, as `str::trim_end` does.
pub fn trim_end(s: &str) -> (r: String)
    ensures
        r@ == trimmed_end(s@),
{
    let mut n = s.unicode_len();
    assert(s@.subrange(0, n as int) =~= s@);
    while n > 0 && is_space_char(s.get_char(n - 1))
        invariant
            n <= s@.len(),
            trimmed_end(s@.subrange(0, n as int)) == trimmed_end(s@),
        decreases n,
    {
        assert(s@.subrange(0, n as int).drop_last() =~= s@.subrange(0, n - 1));
        n = n - 1;
    }
    String::from_str(s.substring_char(0, n))
}

} // verus!
