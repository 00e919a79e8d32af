//! Verified text helpers for the debugger shell: splitting a command line
//! into space-separated tokens, comparing strings, and reading decimal
//! integers the way the shell's `parse` calls do.

use vstd::prelude::*;

verus! {

/// Index of the first space in `s`, or `s.len()` if there is none.
pub open spec fn first_space(s: Seq<char>) -> int
    decreases s.len(),
{
    if s.len() == 0 {
        0
    } else if s[0] == ' ' {
        0
    } else {
        1 + first_space(s.drop_first())
    }
}

/// The position of the first space is determined by the characters: if
/// nothing before `k` is a space, and `k` is a space or the end, then `k`
/// is the first space.
pub proof fn lemma_first_space_at(s: Seq<char>, k: int)
    requires
        0 <= k <= s.len(),
        forall|j: int| 0 <= j < k ==> #[trigger] s[j] != ' ',
        k < s.len() ==> s[k] == ' ',
    ensures
        first_space(s) == k,
    decreases k,
{
    if k == 0 {
    } else {
        lemma_first_space_at(s.drop_first(), k - 1);
    }
}

/// The space-separated tokens of `s`, exactly as splitting on single
/// spaces yields them: an empty `s` gives one empty token, and adjacent
/// spaces give empty tokens between them.
pub open spec fn split_spaces_spec(s: Seq<char>) -> Seq<Seq<char>>
    decreases s.len(),
{
    let i = first_space(s);
    if 0 <= i < s.len() {
        seq![s.take(i)] + split_spaces_spec(s.skip(i + 1))
    } else {
        seq![s]
    }
}

/// The views of a sequence of string slices.
pub open spec fn views_of(ts: Seq<&str>) -> Seq<Seq<char>> {
    ts.map_values(|t: &str| t@)
}

/// Split a line at single spaces. The result always holds at least one
/// token; an empty line yields one empty token.
pub fn split_spaces<'a>(line: &'a str) -> (r: Vec<&'a str>)
    ensures
        views_of(r@) == split_spaces_spec(line@),
        r@.len() >= 1,
{
    let n = line.unicode_len();
    let mut tokens: Vec<&'a str> = Vec::new();
    let mut start: usize = 0;
    let mut i: usize = 0;
    proof {
        assert(views_of(tokens@) =~= Seq::<Seq<char>>::empty());
        assert(line@.skip(0) =~= line@);
        assert(views_of(tokens@) + split_spaces_spec(line@) =~= split_spaces_spec(line@));
    }
    while i < n
        invariant
            start <= i <= n,
            n == line@.len(),
            forall|j: int| start <= j < i ==> #[trigger] line@[j] != ' ',
            split_spaces_spec(line@) == views_of(tokens@) + split_spaces_spec(
                line@.skip(start as int),
            ),
        decreases n - i,
    {
        let c = line.get_char(i);
        if c == ' ' {
            let token = line.substring_char(start, i);
            let ghost old_tokens = tokens@;
            tokens.push(token);
            proof {
                let rest = line@.skip(start as int);
                assert forall|j: int| 0 <= j < i - start implies #[trigger] rest[j] != ' ' by {
                    assert(rest[j] == line@[start + j]);
                }
                lemma_first_space_at(rest, i - start);
                assert(rest.take(i - start) =~= token@);
                assert(rest.skip(i - start + 1) =~= line@.skip(i as int + 1));
                assert(views_of(tokens@) =~= views_of(old_tokens).push(token@));
                assert(views_of(tokens@) + split_spaces_spec(line@.skip(i as int + 1))
                    =~= views_of(old_tokens) + split_spaces_spec(rest));
            }
            start = i + 1;
        }
        i = i + 1;
    }
    let token = line.substring_char(start, n);
    let ghost old_tokens = tokens@;
    tokens.push(token);
    proof {
        let rest = line@.skip(start as int);
        assert forall|j: int| 0 <= j < rest.len() implies #[trigger] rest[j] != ' ' by {
            assert(rest[j] == line@[start + j]);
        }
        lemma_first_space_at(rest, rest.len() as int);
        assert(rest =~= token@);
        assert(split_spaces_spec(rest) == seq![rest]);
        assert(views_of(tokens@) =~= views_of(old_tokens).push(token@));
        assert(views_of(tokens@) =~= views_of(old_tokens) + seq![rest]);
    }
    tokens
}

/// Character-wise string equality.
pub fn str_eq(a: &str, b: &str) -> (r: bool)
    ensures
        r == (a@ == b@),
{
    let n = a.unicode_len();
    let m = b.unicode_len();
    if n != m {
        return false;
    }
    let mut i: usize = 0;
    while i < n
        invariant
            i <= n,
            n == a@.len(),
            n == b@.len(),
            forall|j: int| 0 <= j < i ==> a@[j] == b@[j],
        decreases n - i,
    {
        if a.get_char(i) != b.get_char(i) {
            return false;
        }
        i = i + 1;
    }
    proof {
        assert(a@ =~= b@);
    }
    true
}

/// Whether a character is a decimal digit.
pub open spec fn is_digit(c: char) -> bool {
    48 <= c as u32 <= 57
}

/// All characters of `s` are decimal digits.
pub open spec fn all_digits(s: Seq<char>) -> bool {
    forall|j: int| 0 <= j < s.len() ==> is_digit(#[trigger] s[j])
}

/// The value of a digit string read in base ten.
pub open spec fn digits_value(s: Seq<char>) -> int
    decreases s.len(),
{
    if s.len() == 0 {
        0
    } else {
        digits_value(s.drop_last()) * 10 + (s.last() as u32 - 48)
    }
}

/// A digit string's value is non-negative and grows (weakly) with every
/// digit appended.
pub proof fn lemma_digits_value_nonneg(s: Seq<char>)
    requires
        all_digits(s),
    ensures
        digits_value(s) >= 0,
    decreases s.len(),
{
    if s.len() > 0 {
        assert(all_digits(s.drop_last())) by {
            assert(forall|j: int|
                0 <= j < s.len() - 1 ==> #[trigger] s.drop_last()[j] == s[j]);
        }
        lemma_digits_value_nonneg(s.drop_last());
    }
}

/// Extending a digit string never shrinks its value: the value of a prefix
/// bounds the value of the whole from below.
pub proof fn lemma_digits_value_monotone(s: Seq<char>, k: int)
    requires
        all_digits(s),
        0 <= k <= s.len(),
    ensures
        digits_value(s.take(k)) <= digits_value(s),
    decreases s.len() - k,
{
    if k < s.len() {
        lemma_digits_value_monotone(s, k + 1);
        let t = s.take(k + 1);
        assert(t.drop_last() =~= s.take(k));
        assert(all_digits(s.take(k))) by {
            assert(forall|j: int| 0 <= j < k ==> #[trigger] s.take(k)[j] == s[j]);
        }
        lemma_digits_value_nonneg(s.take(k));
        assert(digits_value(t) == digits_value(s.take(k)) * 10 + (t.last() as u32 - 48));
        assert(digits_value(s.take(k)) <= digits_value(s.take(k)) * 10) by (nonlinear_arith)
            requires
                digits_value(s.take(k)) >= 0,
        ;
    } else {
        assert(s.take(k) =~= s);
    }
}

/// What `parse` on an unsigned integer type with maximum `max` yields for
/// a token: the base-ten value of its digits (one optional leading plus
/// sign allowed), or nothing for an empty digit string, a stray character,
/// or a value beyond `max`.
pub open spec fn parse_uint_spec(s: Seq<char>, max: int) -> Option<int> {
    let digits = if s.len() >= 1 && s[0] == '+' {
        s.drop_first()
    } else {
        s
    };
    if digits.len() == 0 || !all_digits(digits) {
        None
    } else if digits_value(digits) > max {
        None
    } else {
        Some(digits_value(digits))
    }
}

/// Read a decimal token as an unsigned integer of at most `max`.
pub fn parse_uint(token: &str, max: u64) -> (r: Option<u64>)
    requires
        max >= 9,
    ensures
        match parse_uint_spec(token@, max as int) {
            Some(v) => r matches Some(x) && x == v,
            None => r is None,
        },
{
    let n = token.unicode_len();
    let mut i: usize = 0;
    if n >= 1 && token.get_char(0) == '+' {
        i = 1;
    }
    let ghost digits = if token@.len() >= 1 && token@[0] == '+' {
        token@.drop_first()
    } else {
        token@
    };
    proof {
        assert(digits =~= token@.skip(i as int));
    }
    if i >= n {
        return None;
    }
    let mut acc: u64 = 0;
    let mut k: usize = i;
    while k < n
        invariant
            max >= 9,
            i <= k <= n,
            n == token@.len(),
            digits == token@.skip(i as int),
            digits == (if token@.len() >= 1 && token@[0] == '+' {
                token@.drop_first()
            } else {
                token@
            }),
            all_digits(token@.subrange(i as int, k as int)),
            acc == digits_value(token@.subrange(i as int, k as int)),
            acc <= max,
        decreases n - k,
    {
        let c = token.get_char(k);
        let code = c as u32;
        let ghost prefix = token@.subrange(i as int, k as int);
        let ghost prefix1 = token@.subrange(i as int, k as int + 1);
        proof {
            assert(prefix1.drop_last() =~= prefix);
        }
        if code < 48 || code > 57 {
            proof {
                assert(digits[k as int - i as int] == token@[k as int]);
                assert(!is_digit(digits[k as int - i as int]));
                assert(!all_digits(digits));
            }
            return None;
        }
        let d = (code - 48) as u64;
        proof {
            assert(all_digits(prefix1)) by {
                assert(forall|j: int| 0 <= j < prefix1.len() - 1 ==> prefix1[j] == prefix[j]);
            }
        }
        if acc > (max - d) / 10 {
            proof {
                assert(acc * 10 + d > max) by (nonlinear_arith)
                    requires
                        acc > (max - d) / 10,
                        0 <= d <= 9,
                        d <= max,
                        acc >= 0,
                ;
                assert(prefix1.last() == c);
                assert(digits_value(prefix1) == acc * 10 + d);
                assert(digits_value(prefix1) > max);
                if all_digits(digits) {
                    assert(digits.take(k as int - i as int + 1) =~= prefix1);
                    lemma_digits_value_monotone(digits, k as int - i as int + 1);
                    assert(digits_value(digits) > max);
                }
            }
            return None;
        }
        proof {
            assert(acc * 10 + d <= max) by (nonlinear_arith)
                requires
                    acc <= (max - d) / 10,
                    0 <= d <= 9,
                    d <= max,
                    acc >= 0,
            ;
            assert(prefix1.last() == c);
            assert(digits_value(prefix1) == acc * 10 + d);
        }
        acc = acc * 10 + d;
        k = k + 1;
    }
    proof {
        assert(token@.subrange(i as int, n as int) =~= digits);
    }
    Some(acc)
}

/// Read a decimal token as a 16-bit value, as the shell's register and
/// value arguments are read.
pub fn parse_u16(token: &str) -> (r: Option<u16>)
    ensures
        match parse_uint_spec(token@, 65535) {
            Some(v) => r matches Some(x) && x == v,
            None => r is None,
        },
{
    match parse_uint(token, 65535) {
        Some(v) => Some(v as u16),
        None => None,
    }
}

} // verus!
