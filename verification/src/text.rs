//! Text helpers: scanning for a separator, reading and writing decimal
//! numbers, and case-insensitive comparison.

use vstd::prelude::*;

verus! {

/// The first position of `c` in `s` at or after `from`, or `s.len()` where
/// there is none.
pub open spec fn find_from(s: Seq<char>, c: char, from: int) -> int
    decreases s.len() - from,
{
    if from < 0 || from >= s.len() {
        s.len() as int
    } else if s[from] == c {
        from
    } else {
        find_from(s, c, from + 1)
    }
}

/// What [`find_from`] returns: a position between `from` and the length,
/// holding `c` when it is in range, with nothing but other characters before
/// it.
pub proof fn lemma_find_from(s: Seq<char>, c: char, from: int)
    requires
        0 <= from <= s.len(),
    ensures
        from <= find_from(s, c, from) <= s.len(),
        find_from(s, c, from) < s.len() ==> s[find_from(s, c, from)] == c,
        forall|j: int| from <= j < find_from(s, c, from) ==> s[j] != c,
    decreases s.len() - from,
{
    if from < s.len() && s[from] != c {
        lemma_find_from(s, c, from + 1);
    }
}

/// Finds the first position of `c` in `s` at or after `from`, or the length
/// of `s` where there is none.
pub fn find_char(s: &str, c: char, from: usize) -> (r: usize)
    requires
        from <= s@.len(),
    ensures
        r == find_from(s@, c, from as int),
{
    let n = s.unicode_len();
    let mut i = from;
    while i < n
        invariant
            from <= i <= n,
            n == s@.len(),
            find_from(s@, c, from as int) == find_from(s@, c, i as int),
        decreases n - i,
    {
        if s.get_char(i) == c {
            return i;
        }
        i += 1;
    }
    i
}

/// Whether `c` is an ASCII decimal digit.
pub open spec fn is_digit(c: char) -> bool {
    48 <= c as int <= 57
}

/// Whether `t` is made of decimal digits only.
pub open spec fn digits_only(t: Seq<char>) -> bool {
    forall|i: int| 0 <= i < t.len() ==> is_digit(#[trigger] t[i])
}

/// The value of the digit string `t`.
pub open spec fn dec_val(t: Seq<char>) -> int
    decreases t.len(),
{
    if t.len() == 0 {
        0
    } else {
        dec_val(t.drop_last()) * 10 + (t.last() as int - 48)
    }
}

/// `t` without one leading plus sign, if any: what remains must be digits
/// for `t` to name a number, as the standard library's integer parsing has
/// it.
pub open spec fn strip_plus(t: Seq<char>) -> Seq<char> {
    if t.len() > 0 && t[0] == '+' {
        t.skip(1)
    } else {
        t
    }
}

/// Whether `t` names a number a `usize` can hold: an optional plus sign,
/// then at least one decimal digit, with a value up to `usize::MAX`.
pub open spec fn is_num_str(t: Seq<char>) -> bool {
    strip_plus(t).len() > 0 && digits_only(strip_plus(t)) && dec_val(strip_plus(t))
        <= usize::MAX as int
}

/// The value named by the number string `t`.
pub open spec fn num_val(t: Seq<char>) -> int {
    dec_val(strip_plus(t))
}

/// The value of a digit string is never negative.
proof fn lemma_dec_val_nonneg(t: Seq<char>)
    requires
        digits_only(t),
    ensures
        dec_val(t) >= 0,
    decreases t.len(),
{
    if t.len() > 0 {
        assert(digits_only(t.drop_last())) by {
            assert(forall|i: int| 0 <= i < t.len() - 1 ==> t.drop_last()[i] == #[trigger] t[i]);
        }
        lemma_dec_val_nonneg(t.drop_last());
    }
}

/// Extending a digit string never shrinks its value.
proof fn lemma_dec_val_monotone(t: Seq<char>, i: int)
    requires
        digits_only(t),
        0 <= i <= t.len(),
    ensures
        dec_val(t) >= dec_val(t.take(i)),
    decreases t.len() - i,
{
    if i < t.len() {
        lemma_dec_val_monotone(t, i + 1);
        assert(t.take(i + 1).drop_last() =~= t.take(i));
        assert(t.take(i + 1).last() == t[i]);
        assert(digits_only(t.take(i))) by {
            assert(forall|j: int| 0 <= j < i ==> t.take(i)[j] == #[trigger] t[j]);
        }
        lemma_dec_val_nonneg(t.take(i));
        assert(dec_val(t.take(i + 1)) >= dec_val(t.take(i)));
    } else {
        assert(t.take(i) =~= t);
    }
}

/// Reads a `usize` from `s`, exactly as the standard library does: an
/// optional plus sign, then decimal digits; anything else, or a value over
/// `usize::MAX`, reads as nothing.
pub fn parse_usize(s: &str) -> (r: Option<usize>)
    ensures
        match r {
            Some(v) => is_num_str(s@) && v as int == num_val(s@),
            None => !is_num_str(s@),
        },
{
    let n = s.unicode_len();
    let start: usize = if n > 0 && s.get_char(0) == '+' {
        1
    } else {
        0
    };
    let ghost t = strip_plus(s@);
    proof {
        assert(t =~= s@.skip(start as int));
    }
    if start >= n {
        return None;
    }
    let mut val: usize = 0;
    let mut i = start;
    while i < n
        invariant
            start <= i <= n,
            n == s@.len(),
            start == if s@.len() > 0 && s@[0] == '+' { 1int } else { 0int },
            t == s@.skip(start as int),
            t == strip_plus(s@),
            digits_only(t.take(i - start)),
            val as int == dec_val(t.take(i - start)),
        decreases n - i,
    {
        let c = s.get_char(i);
        let u = c as u32;
        if u < 48 || u > 57 {
            proof {
                assert(t[i - start] == s@[i as int]);
                assert(!is_digit(t[i - start]));
            }
            return None;
        }
        let d = (u - 48) as usize;
        proof {
            assert(t.take(i - start + 1).drop_last() =~= t.take(i - start));
            assert(t.take(i - start + 1).last() == t[i - start]);
            assert(t[i - start] == s@[i as int]);
            assert(digits_only(t.take(i - start + 1))) by {
                assert(forall|j: int|
                    0 <= j < i - start ==> #[trigger] t.take(i - start + 1)[j] == t.take(
                        i - start,
                    )[j]);
            }
        }
        let next = match val.checked_mul(10) {
            Some(m) => m.checked_add(d),
            None => None,
        };
        match next {
            Some(v) => {
                val = v;
            },
            None => {
                proof {
                    if is_num_str(s@) {
                        lemma_dec_val_monotone(t, i - start + 1);
                        assert(dec_val(t.take(i - start + 1)) > usize::MAX as int);
                    }
                }
                return None;
            },
        }
        i += 1;
    }
    proof {
        assert(t.take(i - start) =~= t);
    }
    Some(val)
}

/// The decimal digits of `n`, most significant first.
pub open spec fn dec_str(n: nat) -> Seq<char>
    decreases n,
{
    if n < 10 {
        seq![digit_char(n)]
    } else {
        dec_str(n / 10).push(digit_char(n % 10))
    }
}

/// The character of the decimal digit `d`.
pub open spec fn digit_char(d: nat) -> char {
    ((48 + d) as u8) as char
}

/// Where the first occurrence of `c` at or after `from` is known, so is
/// [`find_from`]: it is `i` exactly when nothing before `i` is `c`, and `i`
/// is `c` or the end.
pub proof fn lemma_find_from_at(s: Seq<char>, c: char, from: int, i: int)
    requires
        0 <= from <= i <= s.len(),
        forall|j: int| from <= j < i ==> s[j] != c,
        i == s.len() || s[i] == c,
    ensures
        find_from(s, c, from) == i,
    decreases i - from,
{
    if from < i {
        lemma_find_from_at(s, c, from + 1, i);
    }
}

/// The digits written by [`dec_str`] read back as their value.
pub proof fn lemma_dec_str_val(n: nat)
    ensures
        dec_str(n).len() > 0,
        digits_only(dec_str(n)),
        dec_val(dec_str(n)) == n,
    decreases n,
{
    assert(digit_char(n % 10) as int == 48 + n % 10);
    if n < 10 {
        assert(dec_str(n) == seq![digit_char(n)]);
        assert(dec_str(n).len() == 1);
        assert(dec_str(n).last() == digit_char(n));
        assert(dec_str(n).drop_last() =~= Seq::<char>::empty());
        assert(dec_val(Seq::<char>::empty()) == 0);
        assert(dec_val(dec_str(n)) == digit_char(n) as int - 48);
    } else {
        lemma_dec_str_val(n / 10);
        assert(dec_str(n).drop_last() =~= dec_str(n / 10));
        assert(dec_str(n).last() == digit_char(n % 10));
        assert(dec_val(dec_str(n)) == (n / 10) * 10 + n % 10);
        assert(digits_only(dec_str(n))) by {
            assert(forall|i: int|
                0 <= i < dec_str(n).len() - 1 ==> #[trigger] dec_str(n)[i] == dec_str(n / 10)[i]);
        }
    }
}

/// The text of one decimal digit.
fn digit_str(d: usize) -> (r: &'static str)
    requires
        d < 10,
    ensures
        r@ =~= seq![digit_char(d as nat)],
{
    proof {
        reveal_strlit("0");
        reveal_strlit("1");
        reveal_strlit("2");
        reveal_strlit("3");
        reveal_strlit("4");
        reveal_strlit("5");
        reveal_strlit("6");
        reveal_strlit("7");
        reveal_strlit("8");
        reveal_strlit("9");
    }
    match d {
        0 => "0",
        1 => "1",
        2 => "2",
        3 => "3",
        4 => "4",
        5 => "5",
        6 => "6",
        7 => "7",
        8 => "8",
        _ => "9",
    }
}

/// Writes `n` in decimal.
pub fn render_usize(n: usize) -> (r: String)
    ensures
        r@ == dec_str(n as nat),
    decreases n,
{
    if n < 10 {
        String::from_str(digit_str(n))
    } else {
        proof {
            assert(n / 10 < n) by (nonlinear_arith)
                requires
                    n >= 10,
            ;
        }
        let mut r = render_usize(n / 10);
        r.append(digit_str(n % 10));
        r
    }
}

/// Whether `c` is blank space at the end of a line: a space, a tab, or a
/// line-ending character.
pub open spec fn is_line_space(c: char) -> bool {
    c == ' ' || c == '\t' || c == '\r' || c == '\n'
}

/// `s` without its trailing blank space.
pub open spec fn trim_line_end(s: Seq<char>) -> Seq<char>
    decreases s.len(),
{
    if s.len() > 0 && is_line_space(s.last()) {
        trim_line_end(s.drop_last())
    } else {
        s
    }
}

/// Whether the character of `s` at `i` is blank line-end space.
fn is_line_space_at(s: &str, i: usize) -> (r: bool)
    requires
        i < s@.len(),
    ensures
        r == is_line_space(s@[i as int]),
{
    let c = s.get_char(i);
    c == ' ' || c == '\t' || c == '\r' || c == '\n'
}

/// Hands back `s` up to, and without, its trailing blank space.
pub fn trim_line(s: &str) -> (r: &str)
    ensures
        r@ == trim_line_end(s@),
{
    let mut end = s.unicode_len();
    proof {
        assert(s@.take(end as int) =~= s@);
    }
    while end > 0 && is_line_space_at(s, end - 1)
        invariant
            end <= s@.len(),
            trim_line_end(s@) == trim_line_end(s@.take(end as int)),
        decreases end,
    {
        proof {
            assert(s@.take(end as int).last() == s@[end - 1]);
            assert(s@.take(end as int).drop_last() =~= s@.take(end - 1));
        }
        end -= 1;
    }
    proof {
        if end > 0 {
            assert(s@.take(end as int).last() == s@[end - 1]);
        }
        assert(trim_line_end(s@.take(end as int)) == s@.take(end as int));
    }
    s.substring_char(0, end)
}

/// Whether `a` reads as `b` when ASCII letter case is ignored on the side
/// of `a`: `b` is thought of as already lower case, and a character of `a`
/// may be the upper-case form of the one of `b`, thirty-two code points
/// below it.
pub open spec fn eq_ignore_case(a: Seq<char>, b: Seq<char>) -> bool {
    a.len() == b.len() && forall|i: int|
        0 <= i < a.len() ==> (#[trigger] a[i] == b[i] || a[i] as int + 32 == b[i] as int)
}

/// Whether the characters of `a` spell `b`, ignoring ASCII letter case on
/// the side of `a`; `b` is a lower-case word.
pub fn matches_ignore_case(a: &str, b: &str) -> (r: bool)
    ensures
        r == eq_ignore_case(a@, b@),
{
    let na = a.unicode_len();
    let nb = b.unicode_len();
    if na != nb {
        return false;
    }
    let mut i: usize = 0;
    while i < na
        invariant
            i <= na,
            na == a@.len(),
            na == b@.len(),
            forall|j: int|
                0 <= j < i ==> (#[trigger] a@[j] == b@[j] || a@[j] as int + 32 == b@[j] as int),
        decreases na - i,
    {
        let ca = a.get_char(i);
        let cb = b.get_char(i);
        if !(ca == cb || (ca as u32) + 32 == (cb as u32)) {
            return false;
        }
        i += 1;
    }
    true
}

/// Whether two pieces of text hold the same characters.
pub fn str_eq(a: &str, b: &str) -> (r: bool)
    ensures
        r == (a@ == b@),
{
    let na = a.unicode_len();
    let nb = b.unicode_len();
    if na != nb {
        return false;
    }
    let mut i: usize = 0;
    while i < na
        invariant
            i <= na,
            na == a@.len(),
            na == b@.len(),
            forall|j: int| 0 <= j < i ==> a@[j] == #[trigger] b@[j],
        decreases na - i,
    {
        if a.get_char(i) != b.get_char(i) {
            return false;
        }
        i += 1;
    }
    proof {
        assert(a@ =~= b@);
    }
    true
}

} // verus!
