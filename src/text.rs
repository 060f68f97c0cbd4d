//! Splitting text and reading numbers out of it.
use vstd::prelude::*;

verus! {

/// The pieces of `s` between occurrences of `sep`, as `str::split` yields
/// them: `n` separators give `n + 1` pieces, some of which may be empty.
pub open spec fn split_spec(s: Seq<char>, sep: char) -> Seq<Seq<char>>
    decreases s.len(),
{
    if s.len() == 0 {
        seq![Seq::empty()]
    } else {
        let p = split_spec(s.drop_last(), sep);
        if s.last() == sep {
            p.push(Seq::empty())
        } else {
            p.update(p.len() - 1, p.last().push(s.last()))
        }
    }
}

pub proof fn lemma_split_nonempty(s: Seq<char>, sep: char)
    ensures
        split_spec(s, sep).len() >= 1,
    decreases s.len(),
{
    if s.len() > 0 {
        lemma_split_nonempty(s.drop_last(), sep);
    }
}

/// The value of a digit in the given radix, if it is one.
pub open spec fn digit_value(c: char, radix: u32) -> Option<u32> {
    let v: int = if '0' <= c && c <= '9' {
        c as int - '0' as int
    } else if 'a' <= c && c <= 'z' {
        c as int - 'a' as int + 10
    } else if 'A' <= c && c <= 'Z' {
        c as int - 'A' as int + 10
    } else {
        99
    };
    if v < radix {
        Some(v as u32)
    } else {
        None
    }
}

pub open spec fn all_digits(d: Seq<char>, radix: u32) -> bool {
    forall|i: int| 0 <= i < d.len() ==> #[trigger] digit_value(d[i], radix) is Some
}

/// The number that a string of digits spells in the given radix.
pub open spec fn digits_value(d: Seq<char>, radix: u32) -> nat
    decreases d.len(),
{
    if d.len() == 0 {
        0
    } else {
        (digits_value(d.drop_last(), radix) * radix + digit_value(d.last(), radix).unwrap()) as nat
    }
}

/// What the unsigned `from_str_radix` makes of `s` under the bound `max`: an
/// optional `+`, then at least one digit, spelling a number up to `max`.
pub open spec fn parse_unsigned(s: Seq<char>, radix: u32, max: nat) -> Option<nat> {
    let d = if s.len() > 0 && s[0] == '+' {
        s.drop_first()
    } else {
        s
    };
    if d.len() > 0 && all_digits(d, radix) && digits_value(d, radix) <= max {
        Some(digits_value(d, radix))
    } else {
        None
    }
}

/// The characters of `s`.
pub fn chars_of(s: &str) -> (r: Vec<char>)
    ensures
        r@ == s@,
{
    let n = s.unicode_len();
    let mut r: Vec<char> = Vec::new();
    let mut i: usize = 0;
    while i < n
        invariant
            i <= n,
            n == s@.len(),
            r@ == s@.subrange(0, i as int),
        decreases n - i,
    {
        r.push(s.get_char(i));
        i = i + 1;
    }
    r
}

/// A string holding exactly the characters `c`.
pub fn string_of(c: &Vec<char>) -> (r: String)
    ensures
        r@ == c@,
{
    let mut r = String::new();
    let mut i: usize = 0;
    while i < c.len()
        invariant
            i <= c@.len(),
            r@ == c@.subrange(0, i as int),
        decreases c@.len() - i,
    {
        push_char(&mut r, c[i]);
        i = i + 1;
    }
    r
}

/// Relies on `String::push`: the character is appended.
#[verifier::external_body]
fn push_char(s: &mut String, c: char)
    ensures
        final(s)@ == old(s)@.push(c),
{
    s.push(c)
}

/// The pieces of `s` between occurrences of `sep`.
pub fn split_chars(s: &Vec<char>, sep: char) -> (r: Vec<Vec<char>>)
    ensures
        r@.len() == split_spec(s@, sep).len(),
        forall|i: int| 0 <= i < r@.len() ==> #[trigger] r@[i]@ == split_spec(s@, sep)[i],
{
    let mut done: Vec<Vec<char>> = Vec::new();
    let mut cur: Vec<char> = Vec::new();
    let mut i: usize = 0;
    while i < s.len()
        invariant
            i <= s@.len(),
            split_spec(s@.subrange(0, i as int), sep).len() == done@.len() + 1,
            forall|k: int| 0 <= k < done@.len() ==> #[trigger] done@[k]@ == split_spec(
                s@.subrange(0, i as int),
                sep,
            )[k],
            cur@ == split_spec(s@.subrange(0, i as int), sep).last(),
        decreases s@.len() - i,
    {
        let c = s[i];
        assert(s@.subrange(0, i + 1).drop_last() =~= s@.subrange(0, i as int));
        if c == sep {
            let mut next: Vec<char> = Vec::new();
            std::mem::swap(&mut next, &mut cur);
            done.push(next);
        } else {
            cur.push(c);
        }
        i = i + 1;
    }
    assert(s@.subrange(0, s@.len() as int) =~= s@);
    done.push(cur);
    done
}

/// What `from_str_radix` in the given radix makes of `s` for a type whose
/// largest value is `max`.
pub fn parse_number(s: &Vec<char>, radix: u32, max: u64) -> (r: Option<u64>)
    requires
        2 <= radix <= 36,
        max >= 36,
    ensures
        r matches Some(v) ==> parse_unsigned(s@, radix, max as nat) == Some(v as nat),
        r is None ==> parse_unsigned(s@, radix, max as nat) is None,
{
    let n = s.len();
    let start: usize = if n > 0 && s[0] == '+' {
        1
    } else {
        0
    };
    let ghost d = if s@.len() > 0 && s@[0] == '+' {
        s@.drop_first()
    } else {
        s@
    };
    assert(d =~= s@.subrange(start as int, n as int));
    if start == n {
        return None;
    }
    // `acc` is the value of the digits so far, or `max + 1` once it exceeds `max`.
    let mut acc: u64 = 0;
    let mut over = false;
    let mut i: usize = start;
    while i < n
        invariant
            start <= i <= n,
            n == s@.len(),
            2 <= radix <= 36,
            max >= 36,
            d == s@.subrange(start as int, n as int),
            d == (if s@.len() > 0 && s@[0] == '+' {
                s@.drop_first()
            } else {
                s@
            }),
            all_digits(s@.subrange(start as int, i as int), radix),
            !over ==> acc == digits_value(s@.subrange(start as int, i as int), radix) && acc <= max,
            over ==> digits_value(s@.subrange(start as int, i as int), radix) > max,
        decreases n - i,
    {
        let c = s[i];
        let v: u32 = if '0' <= c && c <= '9' {
            (c as u32) - ('0' as u32)
        } else if 'a' <= c && c <= 'z' {
            (c as u32) - ('a' as u32) + 10
        } else if 'A' <= c && c <= 'Z' {
            (c as u32) - ('A' as u32) + 10
        } else {
            99
        };
        let ghost prev = s@.subrange(start as int, i as int);
        let ghost next = s@.subrange(start as int, i + 1);
        assert(next.drop_last() =~= prev);
        assert(next.last() == c);
        if v >= radix {
            assert(digit_value(d[i - start], radix) is None);
            return None;
        }
        assert forall|k: int| 0 <= k < next.len() implies #[trigger] digit_value(next[k], radix) is Some by {
            if k < prev.len() {
                assert(next[k] == prev[k]);
            }
        }
        if !over {
            if acc > (max - v as u64) / (radix as u64) {
                over = true;
                proof {
                    lemma_over(acc as int, radix as int, v as int, max as int);
                }
            } else {
                proof {
                    lemma_fits(acc as int, radix as int, v as int, max as int);
                }
                acc = acc * (radix as u64) + (v as u64);
            }
        } else {
            proof {
                lemma_grows(digits_value(prev, radix) as int, radix as int, v as int);
            }
        }
        i = i + 1;
    }
    if over {
        None
    } else {
        Some(acc)
    }
}

proof fn lemma_over(acc: int, radix: int, v: int, max: int)
    requires
        0 <= v < radix,
        2 <= radix,
        0 <= acc,
        v <= max,
        acc > (max - v) / radix,
    ensures
        acc * radix + v > max,
{
    assert(acc >= (max - v) / radix + 1);
    assert((max - v) < ((max - v) / radix + 1) * radix) by (nonlinear_arith)
        requires
            radix >= 2,
            max - v >= 0,
    ;
    assert(acc * radix >= ((max - v) / radix + 1) * radix) by (nonlinear_arith)
        requires
            acc >= (max - v) / radix + 1,
            radix >= 2,
    ;
}

proof fn lemma_fits(acc: int, radix: int, v: int, max: int)
    requires
        0 <= v < radix,
        2 <= radix,
        0 <= acc,
        v <= max,
        acc <= (max - v) / radix,
    ensures
        acc * radix + v <= max,
{
    assert(acc * radix <= ((max - v) / radix) * radix) by (nonlinear_arith)
        requires
            acc <= (max - v) / radix,
            radix >= 2,
    ;
    assert(((max - v) / radix) * radix <= max - v) by (nonlinear_arith)
        requires
            radix >= 2,
            max - v >= 0,
    ;
}

proof fn lemma_grows(x: int, radix: int, v: int)
    requires
        0 <= v,
        2 <= radix,
        0 <= x,
    ensures
        x * radix + v >= x,
{
    assert(x * radix >= x) by (nonlinear_arith)
        requires
            x >= 0,
            radix >= 2,
    ;
}

} // verus!
