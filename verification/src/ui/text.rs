//! Text the web UI reads from forms and writes into pages, as bytes.
use vstd::prelude::*;

verus! {

/// `b` is an ASCII decimal digit.
pub open spec fn is_ascii_digit(b: u8) -> bool {
    48 <= b <= 57
}

/// All bytes of `d` are ASCII decimal digits.
pub open spec fn all_digits(d: Seq<u8>) -> bool {
    forall|i: int| 0 <= i < d.len() ==> is_ascii_digit(#[trigger] d[i])
}

/// The number written in decimal by the digits `d`.
pub open spec fn digits_value(d: Seq<u8>) -> int
    decreases d.len(),
{
    if d.len() == 0 {
        0
    } else {
        digits_value(d.drop_last()) * 10 + (d.last() - 48)
    }
}

/// The number written in `s` the way unsigned integers are read from text:
/// an optional `+`, then at least one decimal digit.
pub open spec fn decimal_text_value(s: Seq<u8>) -> Option<int> {
    let d = if s.len() > 0 && s[0] == 43 {
        s.drop_first()
    } else {
        s
    };
    if d.len() > 0 && all_digits(d) {
        Some(digits_value(d))
    } else {
        None
    }
}

/// The value of `o` when it is at most `max`.
pub open spec fn at_most(o: Option<int>, max: int) -> Option<int> {
    match o {
        Some(v) => if v <= max {
            Some(v)
        } else {
            None
        },
        None => None,
    }
}

/// The shortest decimal digits of `n`.
pub open spec fn decimal_digits(n: nat) -> Seq<u8>
    decreases n,
{
    if n < 10 {
        seq![(48 + n) as u8]
    } else {
        decimal_digits(n / 10).push((48 + n % 10) as u8)
    }
}

proof fn lemma_digits_value_grows(d: Seq<u8>, i: int, j: int)
    requires
        all_digits(d),
        0 <= i <= j <= d.len(),
    ensures
        0 <= digits_value(d.take(i)) <= digits_value(d.take(j)),
    decreases j - i,
{
    if i < j {
        lemma_digits_value_grows(d, i, j - 1);
        assert(d.take(j).drop_last() =~= d.take(j - 1));
        assert(is_ascii_digit(d[j - 1]));
    } else {
        lemma_digits_value_nonneg(d.take(i));
    }
}

proof fn lemma_digits_value_nonneg(d: Seq<u8>)
    requires
        all_digits(d),
    ensures
        digits_value(d) >= 0,
    decreases d.len(),
{
    if d.len() > 0 {
        assert(all_digits(d.drop_last()));
        lemma_digits_value_nonneg(d.drop_last());
        assert(is_ascii_digit(d[d.len() - 1]));
    }
}

/// Reads `s` as an unsigned number no larger than `max`.
pub fn parse_decimal(s: &[u8], max: u64) -> (r: Option<u64>)
    ensures
        r matches Some(v) ==> at_most(decimal_text_value(s@), max as int) == Some(v as int),
        r is None ==> at_most(decimal_text_value(s@), max as int) is None,
{
    let start: usize = if s.len() > 0 && s[0] == 43 {
        1
    } else {
        0
    };
    let ghost d = if s@.len() > 0 && s@[0] == 43 {
        s@.drop_first()
    } else {
        s@
    };
    proof {
        assert(d =~= s@.skip(start as int));
    }
    if start >= s.len() {
        return None;
    }
    let mut acc: u64 = 0;
    let mut i: usize = start;
    while i < s.len()
        invariant
            start <= i <= s@.len(),
            d == s@.skip(start as int),
            d == (if s@.len() > 0 && s@[0] == 43 {
                s@.drop_first()
            } else {
                s@
            }),
            d.len() > 0,
            all_digits(d.take(i - start)),
            acc == digits_value(d.take(i - start)),
            acc <= max,
        decreases s@.len() - i,
    {
        let b = s[i];
        proof {
            assert(d.take(i - start + 1).drop_last() =~= d.take(i - start));
            assert(d[i - start] == b);
        }
        if b < 48 || b > 57 {
            proof {
                assert(!is_ascii_digit(d[i - start]));
                assert(!all_digits(d));
            }
            return None;
        }
        let digit: u64 = (b - 48) as u64;
        let next: u128 = (acc as u128) * 10 + (digit as u128);
        if next > max as u128 {
            proof {
                assert(all_digits(d.take(i - start + 1)));
                assert(digits_value(d.take(i - start + 1)) == next);
                if all_digits(d) {
                    lemma_digits_value_grows(d, i - start + 1, d.len() as int);
                    assert(d.take(d.len() as int) =~= d);
                }
            }
            return None;
        }
        acc = next as u64;
        i = i + 1;
        proof {
            assert(all_digits(d.take(i - start)));
        }
    }
    proof {
        assert(d.take(i - start) =~= d);
    }
    Some(acc)
}

/// Appends the decimal digits of `n` to `out`.
pub fn push_decimal(out: &mut Vec<u8>, n: u32)
    ensures
        final(out)@ == old(out)@ + decimal_digits(n as nat),
    decreases n,
{
    if n >= 10 {
        push_decimal(out, n / 10);
    }
    let ghost before = out@;
    out.push(48 + (n % 10) as u8);
    proof {
        if n >= 10 {
            assert(decimal_digits(n as nat) == decimal_digits((n / 10) as nat).push(
                (48 + n % 10) as u8,
            ));
        } else {
            assert(n % 10 == n);
        }
        assert(out@ =~= old(out)@ + decimal_digits(n as nat));
    }
}

/// Decimal digits read back give the number they were written for.
pub proof fn lemma_decimal_digits_read_back(n: nat)
    ensures
        all_digits(decimal_digits(n)),
        decimal_digits(n).len() > 0,
        digits_value(decimal_digits(n)) == n,
        decimal_text_value(decimal_digits(n)) == Some(n as int),
    decreases n,
{
    let d = decimal_digits(n);
    if n < 10 {
        assert(d.drop_last() =~= Seq::<u8>::empty());
        assert(d.last() == (48 + n) as u8);
        assert(digits_value(d) == digits_value(d.drop_last()) * 10 + (d.last() - 48));
    } else {
        lemma_decimal_digits_read_back(n / 10);
        assert(d.drop_last() =~= decimal_digits(n / 10));
        assert(d.last() == (48 + n % 10) as u8);
        assert(n == (n / 10) * 10 + n % 10) by (nonlinear_arith);
        assert(digits_value(d) == digits_value(d.drop_last()) * 10 + (d.last() - 48));
        assert forall|i: int| 0 <= i < d.len() implies is_ascii_digit(#[trigger] d[i]) by {
            if i < d.len() - 1 {
                assert(d[i] == decimal_digits(n / 10)[i]);
            }
        }
    }
    assert(is_ascii_digit(d[0]));
}

/// `c` occurs in `s` exactly once, at `i`.
pub open spec fn single_separator_at(s: Seq<u8>, c: u8, i: int) -> bool {
    &&& 0 <= i < s.len()
    &&& s[i] == c
    &&& forall|j: int| 0 <= j < s.len() && j != i ==> s[j] != c
}

/// The parts of `s` before and after `c`, when `c` occurs in it exactly
/// once (splitting `s` at every `c` then gives exactly two parts).
pub open spec fn split_at_single(s: Seq<u8>, c: u8) -> Option<(Seq<u8>, Seq<u8>)> {
    if exists|i: int| single_separator_at(s, c, i) {
        let i = choose|i: int| single_separator_at(s, c, i);
        Some((s.take(i), s.skip(i + 1)))
    } else {
        None
    }
}

/// Splits `s` at `c` when `c` occurs in it exactly once.
pub fn split_single(s: &[u8], c: u8) -> (r: Option<(Vec<u8>, Vec<u8>)>)
    ensures
        r matches Some((a, b)) ==> split_at_single(s@, c) == Some((a@, b@)),
        r is None ==> split_at_single(s@, c) is None,
{
    let mut pos: Option<usize> = None;
    let mut i: usize = 0;
    while i < s.len()
        invariant
            0 <= i <= s@.len(),
            match pos {
                Some(p) => p < i && s@[p as int] == c && forall|j: int|
                    0 <= j < i && j != p ==> s@[j] != c,
                None => forall|j: int| 0 <= j < i ==> s@[j] != c,
            },
        decreases s@.len() - i,
    {
        if s[i] == c {
            match pos {
                Some(p) => {
                    proof {
                        assert forall|k: int| !single_separator_at(s@, c, k) by {
                            if single_separator_at(s@, c, k) {
                                if k != p as int {
                                    assert(s@[p as int] != c);
                                } else {
                                    assert(s@[i as int] != c);
                                }
                            }
                        }
                    }
                    return None;
                },
                None => {
                    pos = Some(i);
                },
            }
        }
        i = i + 1;
    }
    match pos {
        Some(p) => {
            let mut a: Vec<u8> = Vec::new();
            let mut b: Vec<u8> = Vec::new();
            let mut k: usize = 0;
            while k < p
                invariant
                    0 <= k <= p < s@.len(),
                    a@ == s@.take(k as int),
                decreases p - k,
            {
                a.push(s[k]);
                proof {
                    assert(s@.take(k as int + 1) =~= s@.take(k as int).push(s@[k as int]));
                }
                k = k + 1;
            }
            let mut k: usize = p + 1;
            while k < s.len()
                invariant
                    p + 1 <= k <= s@.len(),
                    b@ == s@.subrange(p + 1, k as int),
                decreases s@.len() - k,
            {
                b.push(s[k]);
                proof {
                    assert(s@.subrange(p + 1, k as int + 1) =~= s@.subrange(p + 1, k as int).push(
                        s@[k as int],
                    ));
                }
                k = k + 1;
            }
            proof {
                assert(single_separator_at(s@, c, p as int));
                let q = choose|q: int| single_separator_at(s@, c, q);
                assert(q == p as int);
                assert(b@ =~= s@.skip(p + 1));
            }
            Some((a, b))
        },
        None => {
            proof {
                assert forall|k: int| !single_separator_at(s@, c, k) by {
                    if 0 <= k < s@.len() {
                        assert(s@[k] != c);
                    }
                }
            }
            None
        },
    }
}

} // verus!
