//! Small text routines the command line needs: joining, comparing, splitting
//! on a separator and reading decimal numbers, each proved against its
//! definition.
use vstd::prelude::*;
use vstd::string::{StrSliceExecFns, StringExecFns};

verus! {

/// `a` followed by `b`.
pub fn join(a: &str, b: &str) -> (r: String)
    ensures
        r@ == a@ + b@,
{
    a.to_string().concat(b)
}

/// Whether `s` holds exactly the text `lit`.
pub fn is_text(s: &String, lit: &str) -> (r: bool)
    ensures
        r == (s@ == lit@),
{
    *s == lit.to_string()
}

/// The pieces of `s` between occurrences of `sep`, in order; text without a
/// separator gives one piece.
pub open spec fn pieces(s: Seq<char>, sep: char) -> Seq<Seq<char>>
    decreases s.len(),
{
    if s.len() == 0 {
        seq![Seq::<char>::empty()]
    } else {
        let init = pieces(s.drop_last(), sep);
        if s.last() == sep {
            init.push(Seq::empty())
        } else {
            init.update(init.len() - 1, init.last().push(s.last()))
        }
    }
}

proof fn lemma_pieces_nonempty(s: Seq<char>, sep: char)
    ensures
        pieces(s, sep).len() > 0,
    decreases s.len(),
{
    if s.len() > 0 {
        lemma_pieces_nonempty(s.drop_last(), sep);
    }
}

/// Splits `s` at every `sep`.
pub fn split_on(s: &str, sep: char) -> (r: Vec<String>)
    ensures
        r@.map_values(|p: String| p@) == pieces(s@, sep),
{
    let n = s.unicode_len();
    let mut r: Vec<String> = Vec::new();
    let mut start: usize = 0;
    let mut i: usize = 0;
    proof {
        assert(s@.subrange(0, 0) =~= Seq::<char>::empty());
        assert(r@.map_values(|p: String| p@).push(s@.subrange(0, 0)) =~= pieces(
            Seq::<char>::empty(),
            sep,
        ));
    }
    while i < n
        invariant
            n == s@.len(),
            start <= i <= n,
            r@.map_values(|p: String| p@).push(s@.subrange(start as int, i as int)) == pieces(
                s@.subrange(0, i as int),
                sep,
            ),
        decreases n - i,
    {
        let c = s.get_char(i);
        let ghost before = r@.map_values(|p: String| p@);
        proof {
            assert(s@.subrange(0, i + 1).drop_last() =~= s@.subrange(0, i as int));
            assert(s@.subrange(0, i + 1).last() == c);
            lemma_pieces_nonempty(s@.subrange(0, i as int), sep);
        }
        if c == sep {
            r.push(s.substring_char(start, i).to_string());
            proof {
                assert(r@.map_values(|p: String| p@) =~= before.push(
                    s@.subrange(start as int, i as int),
                ));
                assert(s@.subrange((i + 1) as int, (i + 1) as int) =~= Seq::<char>::empty());
            }
            start = i + 1;
        } else {
            proof {
                assert(s@.subrange(start as int, i + 1) =~= s@.subrange(
                    start as int,
                    i as int,
                ).push(c));
                assert(before.push(s@.subrange(start as int, i + 1)) =~= before.push(
                    s@.subrange(start as int, i as int),
                ).update(before.len() as int, s@.subrange(start as int, i as int).push(c)));
            }
        }
        i = i + 1;
    }
    r.push(s.substring_char(start, n).to_string());
    proof {
        assert(s@.subrange(0, n as int) =~= s@);
    }
    r
}

pub open spec fn is_digit(c: char) -> bool {
    '0' <= c && c <= '9'
}

/// The number written by the decimal digits `s`.
pub open spec fn decimal(s: Seq<char>) -> int
    decreases s.len(),
{
    if s.len() == 0 {
        0
    } else {
        decimal(s.drop_last()) * 10 + (s.last() as int - '0' as int)
    }
}

pub open spec fn all_digits(s: Seq<char>) -> bool {
    s.len() > 0 && forall|i: int| 0 <= i < s.len() ==> is_digit(#[trigger] s[i])
}

/// The digits after an optional leading `c`.
pub open spec fn unsigned_part(s: Seq<char>, c: char) -> Seq<char> {
    if s.len() > 0 && s[0] == c {
        s.drop_first()
    } else {
        s
    }
}

/// What reading `s` as an unsigned decimal no larger than `max` gives: an
/// optional `+`, then one or more digits.
pub open spec fn unsigned_value(s: Seq<char>, max: int) -> Option<int> {
    let t = unsigned_part(s, '+');
    if all_digits(t) && decimal(t) <= max {
        Some(decimal(t))
    } else {
        None
    }
}

/// What reading `s` as a signed 64-bit decimal gives: an optional `+` or
/// `-`, then one or more digits, within range.
pub open spec fn signed_value(s: Seq<char>) -> Option<int> {
    if s.len() > 0 && s[0] == '-' {
        let t = s.drop_first();
        if all_digits(t) && decimal(t) <= 0x8000_0000_0000_0000 {
            Some(-decimal(t))
        } else {
            None
        }
    } else {
        unsigned_value(s, i64::MAX as int)
    }
}

proof fn lemma_decimal_nonneg(s: Seq<char>)
    requires
        forall|i: int| 0 <= i < s.len() ==> is_digit(#[trigger] s[i]),
    ensures
        decimal(s) >= 0,
    decreases s.len(),
{
    if s.len() > 0 {
        lemma_decimal_nonneg(s.drop_last());
    }
}

/// Reads the digits of `s` from position `from` on, giving up once the value
/// passes `max`; `None` when a character is not a digit, there are none, or
/// the value passes `max`.
fn read_digits(s: &str, from: usize, max: u64) -> (r: Option<u64>)
    requires
        from <= s@.len(),
    ensures
        ({
            let t = s@.subrange(from as int, s@.len() as int);
            r == if all_digits(t) && decimal(t) <= max {
                Some(decimal(t) as u64)
            } else {
                None::<u64>
            }
        }),
        r matches Some(v) ==> v as int == decimal(s@.subrange(from as int, s@.len() as int)),
{
    let n = s.unicode_len();
    let ghost t = s@.subrange(from as int, n as int);
    if from == n {
        return None;
    }
    let mut acc: u64 = 0;
    let mut over = false;
    let mut i: usize = from;
    while i < n
        invariant
            n == s@.len(),
            from <= i <= n,
            t == s@.subrange(from as int, n as int),
            forall|j: int| from <= j < i ==> is_digit(#[trigger] s@[j]),
            !over ==> acc == decimal(s@.subrange(from as int, i as int)),
            over ==> decimal(s@.subrange(from as int, i as int)) > max,
            acc <= max,
        decreases n - i,
    {
        let c = s.get_char(i);
        if !('0' <= c && c <= '9') {
            proof {
                assert(t[i - from] == c);
            }
            return None;
        }
        let d = (c as u32 - '0' as u32) as u64;
        proof {
            let p = s@.subrange(from as int, i + 1);
            assert(p.drop_last() =~= s@.subrange(from as int, i as int));
            assert(p.last() == c);
            assert forall|j: int| 0 <= j < i - from implies is_digit(
                #[trigger] s@.subrange(from as int, i as int)[j],
            ) by {
                assert(s@.subrange(from as int, i as int)[j] == s@[from + j]);
            }
            lemma_decimal_nonneg(s@.subrange(from as int, i as int));
        }
        if !over {
            if d > max || acc > (max - d) / 10 {
                proof {
                    if d <= max {
                        assert(acc * 10 + d > max) by (nonlinear_arith)
                            requires
                                acc > (max - d) / 10,
                                d <= max,
                        ;
                    }
                }
                over = true;
            } else {
                proof {
                    assert(acc * 10 + d <= max) by (nonlinear_arith)
                        requires
                            acc <= (max - d) / 10,
                            d <= max,
                    ;
                }
                acc = acc * 10 + d;
            }
        } else {
            proof {
                assert(decimal(s@.subrange(from as int, i as int)) * 10 + d > max) by (
                nonlinear_arith)
                    requires
                        decimal(s@.subrange(from as int, i as int)) > max,
                        d >= 0,
                ;
            }
        }
        i = i + 1;
    }
    proof {
        assert(s@.subrange(from as int, n as int) =~= t);
        assert forall|j: int| 0 <= j < t.len() implies is_digit(#[trigger] t[j]) by {
            assert(t[j] == s@[from + j]);
        }
    }
    if over {
        None
    } else {
        Some(acc)
    }
}

/// Reads `s` as an unsigned decimal that fits in `usize`.
pub fn parse_usize(s: &str) -> (r: Option<usize>)
    ensures
        r matches Some(v) ==> unsigned_value(s@, usize::MAX as int) == Some(v as int),
        r is None ==> unsigned_value(s@, usize::MAX as int) is None,
{
    let n = s.unicode_len();
    let from: usize = if n > 0 && s.get_char(0) == '+' {
        1
    } else {
        0
    };
    proof {
        assert(unsigned_part(s@, '+') =~= s@.subrange(from as int, n as int));
    }
    match read_digits(s, from, usize::MAX as u64) {
        Some(v) => {
            proof {
                assert(v as int == decimal(unsigned_part(s@, '+')));
                assert(v <= usize::MAX);
            }
            Some(v as usize)
        },
        None => None,
    }
}

/// Reads `s` as a signed decimal that fits in `i64`.
pub fn parse_i64(s: &str) -> (r: Option<i64>)
    ensures
        r matches Some(v) ==> signed_value(s@) == Some(v as int),
        r is None ==> signed_value(s@) is None,
{
    let n = s.unicode_len();
    if n > 0 && s.get_char(0) == '-' {
        proof {
            assert(s@.drop_first() =~= s@.subrange(1, n as int));
        }
        match read_digits(s, 1, 0x8000_0000_0000_0000u64) {
            Some(v) => {
                assert(v as int == decimal(s@.drop_first()));
                if v == 0x8000_0000_0000_0000u64 {
                    Some(i64::MIN)
                } else {
                    Some(-(v as i64))
                }
            },
            None => None,
        }
    } else {
        let from: usize = if n > 0 && s.get_char(0) == '+' {
            1
        } else {
            0
        };
        proof {
            assert(unsigned_part(s@, '+') =~= s@.subrange(from as int, n as int));
        }
        match read_digits(s, from, i64::MAX as u64) {
            Some(v) => {
                assert(v as int == decimal(unsigned_part(s@, '+')));
                Some(v as i64)
            },
            None => None,
        }
    }
}

} // verus!
