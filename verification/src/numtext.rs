//! Numbers and words in command output: unsigned decimal numbers as
//! `str::parse` reads them, and the words of a line.
use vstd::prelude::*;
use crate::text::is_ws;

verus! {

/// Whether every character is an ASCII digit.
pub open spec fn all_digits(s: Seq<char>) -> bool {
    forall|i: int| 0 <= i < s.len() ==> '0' <= #[trigger] s[i] <= '9'
}

/// The value of a string of decimal digits.
pub open spec fn digits_value(s: Seq<char>) -> int
    decreases s.len(),
{
    if s.len() == 0 {
        0
    } else {
        digits_value(s.drop_last()) * 10 + (s.last() as int - '0' as int)
    }
}

/// The digits of an unsigned number: without a leading `+`.
pub open spec fn unsigned_digits(s: Seq<char>) -> Seq<char> {
    if s.len() > 0 && s[0] == '+' {
        s.subrange(1, s.len() as int)
    } else {
        s
    }
}

/// The unsigned number that `s` is (an optional `+`, then at least one
/// digit), where it is at most `max`.
pub open spec fn unsigned_value(s: Seq<char>, max: int) -> Option<int> {
    let d = unsigned_digits(s);
    if d.len() > 0 && all_digits(d) && digits_value(d) <= max {
        Some(digits_value(d))
    } else {
        None
    }
}

/// A longer run of digits has at least the value of its beginning.
pub proof fn lemma_digits_prefix(s: Seq<char>, k: int)
    requires
        all_digits(s),
        0 <= k <= s.len(),
    ensures
        digits_value(s.subrange(0, k)) <= digits_value(s),
        0 <= digits_value(s.subrange(0, k)),
    decreases s.len(),
{
    if k == s.len() {
        assert(s.subrange(0, k) =~= s);
        lemma_digits_nonneg(s);
    } else {
        assert(s.drop_last().subrange(0, k) =~= s.subrange(0, k));
        lemma_digits_prefix(s.drop_last(), k);
        lemma_digits_nonneg(s.drop_last());
    }
}

/// Digits have a value of at least zero.
pub proof fn lemma_digits_nonneg(s: Seq<char>)
    requires
        all_digits(s),
    ensures
        digits_value(s) >= 0,
    decreases s.len(),
{
    if s.len() > 0 {
        lemma_digits_nonneg(s.drop_last());
    }
}

/// The unsigned number that `s` is, at most `max` (`str::parse` of an
/// unsigned integer type whose largest value is `max`).
pub fn parse_unsigned(s: &[char], max: u64) -> (r: Option<u64>)
    ensures
        match unsigned_value(s@, max as int) {
            Some(v) => r == Some(v as u64),
            None => r is None,
        },
{
    let start: usize = if s.len() > 0 && s[0] == '+' {
        1
    } else {
        0
    };
    let ghost d = unsigned_digits(s@);
    proof {
        assert(d =~= s@.subrange(start as int, s@.len() as int));
    }
    if start >= s.len() {
        return None;
    }
    let mut acc: u64 = 0;
    let mut i: usize = start;
    while i < s.len()
        invariant
            start <= i <= s@.len(),
            start < s@.len(),
            d == unsigned_digits(s@),
            d == s@.subrange(start as int, s@.len() as int),
            all_digits(s@.subrange(start as int, i as int)),
            acc == digits_value(s@.subrange(start as int, i as int)),
            acc <= max,
        decreases s.len() - i,
    {
        let c = s[i];
        proof {
            assert(s@.subrange(start as int, i + 1).drop_last() =~= s@.subrange(start as int, i as int));
        }
        if !('0' <= c && c <= '9') {
            proof {
                assert(d[i - start] == c);
                assert(!('0' <= d[i - start] <= '9'));
            }
            return None;
        }
        let digit: u64 = (c as u32 - '0' as u32) as u64;
        if digit > max || acc > (max - digit) / 10 {
            proof {
                if digit <= max {
                    assert(acc * 10 + digit > max) by (nonlinear_arith)
                        requires
                            acc > (max - digit) / 10,
                            digit <= max,
                    ;
                }
                assert(digits_value(s@.subrange(start as int, i + 1)) == acc * 10 + digit);
                assert(all_digits(s@.subrange(start as int, i + 1)));
                if all_digits(d) {
                    lemma_digits_prefix(d, i + 1 - start);
                    assert(d.subrange(0, i + 1 - start) =~= s@.subrange(start as int, i + 1));
                }
            }
            return None;
        }
        acc = acc * 10 + digit;
        i = i + 1;
        proof {
            assert(all_digits(s@.subrange(start as int, i as int)));
        }
    }
    proof {
        assert(s@.subrange(start as int, i as int) =~= d);
    }
    Some(acc)
}

/// The words of `s` after the word in progress `cur`: the runs of
/// characters between white space (`str::split_whitespace`).
pub open spec fn words_from(s: Seq<char>, cur: Seq<char>) -> Seq<Seq<char>>
    decreases s.len(),
{
    if s.len() == 0 {
        if cur.len() > 0 {
            seq![cur]
        } else {
            seq![]
        }
    } else if is_ws(s[0]) {
        (if cur.len() > 0 {
            seq![cur]
        } else {
            seq![]
        }) + words_from(s.subrange(1, s.len() as int), seq![])
    } else {
        words_from(s.subrange(1, s.len() as int), cur.push(s[0]))
    }
}

/// The words of `s`.
pub open spec fn words(s: Seq<char>) -> Seq<Seq<char>> {
    words_from(s, seq![])
}

/// The characters of each vector.
pub open spec fn views_of(v: Seq<Vec<char>>) -> Seq<Seq<char>> {
    v.map_values(|c: Vec<char>| c@)
}

/// The words of `s`.
pub fn split_whitespace(s: &[char]) -> (r: Vec<Vec<char>>)
    ensures
        views_of(r@) == words(s@),
{
    let mut out: Vec<Vec<char>> = Vec::new();
    let mut cur: Vec<char> = Vec::new();
    let mut i: usize = 0;
    proof {
        assert(s@.subrange(0, s@.len() as int) =~= s@);
        assert(views_of(out@) =~= Seq::<Seq<char>>::empty());
        assert(views_of(out@) + words_from(s@, cur@) =~= words_from(s@, cur@));
    }
    while i < s.len()
        invariant
            i <= s@.len(),
            views_of(out@) + words_from(s@.subrange(i as int, s@.len() as int), cur@) == words(s@),
        decreases s.len() - i,
    {
        let ghost rest = s@.subrange(i as int, s@.len() as int);
        let ghost c0 = cur@;
        let ghost o0 = views_of(out@);
        proof {
            assert(rest.subrange(1, rest.len() as int) =~= s@.subrange(i + 1, s@.len() as int));
            assert(rest[0] == s@[i as int]);
            assert(rest.len() > 0);
        }
        if crate::text::is_whitespace(s[i]) {
            if cur.len() > 0 {
                let ghost before = views_of(out@);
                let w = cur;
                let ghost wv = w@;
                out.push(w);
                cur = Vec::new();
                proof {
                    assert(words_from(rest, c0) == seq![c0] + words_from(
                        s@.subrange(i + 1, s@.len() as int),
                        seq![],
                    ));
                    assert(views_of(out@) =~= before.push(wv));
                    assert(before.push(wv) + words_from(s@.subrange(i + 1, s@.len() as int), seq![])
                        =~= before + (seq![wv] + words_from(s@.subrange(i + 1, s@.len() as int), seq![])));
                }
            } else {
                proof {
                    assert(c0 =~= Seq::<char>::empty());
                    assert(words_from(rest, c0) == Seq::<Seq<char>>::empty() + words_from(
                        s@.subrange(i + 1, s@.len() as int),
                        seq![],
                    ));
                    assert(seq![] + words_from(s@.subrange(i + 1, s@.len() as int), seq![]) =~= words_from(
                        s@.subrange(i + 1, s@.len() as int),
                        seq![],
                    ));
                }
            }
        } else {
            cur.push(s[i]);
            proof {
                assert(words_from(rest, c0) == words_from(
                    s@.subrange(i + 1, s@.len() as int),
                    c0.push(s@[i as int]),
                ));
            }
        }
        proof {
            assert(o0 + words_from(rest, c0) == words(s@));
            assert(views_of(out@) + words_from(s@.subrange(i + 1, s@.len() as int), cur@) == words(s@));
        }
        i = i + 1;
    }
    if cur.len() > 0 {
        let ghost before = views_of(out@);
        let ghost cv = cur@;
        out.push(cur);
        proof {
            assert(views_of(out@) =~= before.push(cv));
            assert(s@.subrange(i as int, s@.len() as int) =~= Seq::<char>::empty());
        }
    } else {
        proof {
            assert(s@.subrange(i as int, s@.len() as int) =~= Seq::<char>::empty());
            assert(views_of(out@) + seq![] =~= views_of(out@));
        }
    }
    out
}

} // verus!
