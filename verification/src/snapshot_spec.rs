//! Parsing a textual snapshot specification.
//!
//! The grammar is `xmin ":" xmax ":" [xip ("," xip)*]`: exactly three
//! colon-separated fields, where `xmin` and `xmax` are non-negative 32-bit
//! integers and the third field is an optionally empty comma-separated
//! list of such integers, each required to lie in `[xmin, xmax)`.
//! Fields and list members are checked left to right and the first
//! failure decides the error.

use vstd::prelude::*;
use crate::snapshot::SnapshotDescriptor;
use crate::text::str_chars;

verus! {

/// Why a snapshot specification was rejected.
#[derive(Clone, Copy, PartialEq, Eq, Structural, Debug)]
pub enum SnapshotSpecError {
    /// Wrong field count, or a field that is not a 32-bit integer.
    Format,
    /// An in-progress id outside `[xmin, xmax)`.
    Range { value: u32, xmin: u32, xmax: u32 },
}

/// `s` split at every occurrence of `sep`; splitting the empty text
/// yields one empty field, so the result always has one field more than
/// `s` has separators.
pub open spec fn split(s: Seq<char>, sep: char) -> Seq<Seq<char>>
    decreases s.len(),
{
    if s.len() == 0 {
        seq![Seq::<char>::empty()]
    } else if s.last() == sep {
        split(s.drop_last(), sep).push(Seq::empty())
    } else {
        let prev = split(s.drop_last(), sep);
        prev.update(prev.len() - 1, prev.last().push(s.last()))
    }
}

/// A split always yields at least one field.
pub proof fn lemma_split_nonempty(s: Seq<char>, sep: char)
    ensures
        split(s, sep).len() >= 1,
    decreases s.len(),
{
    if s.len() > 0 {
        lemma_split_nonempty(s.drop_last(), sep);
    }
}

/// A decimal digit.
pub open spec fn is_dec_digit(c: char) -> bool {
    48 <= c as u32 && c as u32 <= 57
}

/// The value of a decimal digit.
pub open spec fn digit_val(c: char) -> int {
    c as u32 - 48
}

/// The value of a digit string read in base 10.
pub open spec fn dec_val(s: Seq<char>) -> int
    decreases s.len(),
{
    if s.len() == 0 {
        0
    } else {
        dec_val(s.drop_last()) * 10 + digit_val(s.last())
    }
}

/// A non-empty text of decimal digits.
pub open spec fn all_digits(s: Seq<char>) -> bool {
    s.len() > 0 && forall|i: int| 0 <= i < s.len() ==> is_dec_digit(#[trigger] s[i])
}

/// The digits of a numeric token: an optional single leading `+` is not
/// part of the value.
pub open spec fn numeric_body(s: Seq<char>) -> Seq<char> {
    if s.len() > 0 && s[0] == '+' {
        s.drop_first()
    } else {
        s
    }
}

/// The token is a non-negative integer that fits in 32 bits.
pub open spec fn is_u32_token(s: Seq<char>) -> bool {
    all_digits(numeric_body(s)) && dec_val(numeric_body(s)) <= u32::MAX
}

/// The value of a well-formed token.
pub open spec fn u32_of_token(s: Seq<char>) -> u32 {
    dec_val(numeric_body(s)) as u32
}

/// A digit string's value is non-negative.
proof fn lemma_dec_val_nonneg(s: Seq<char>)
    requires
        forall|i: int| 0 <= i < s.len() ==> is_dec_digit(#[trigger] s[i]),
    ensures
        dec_val(s) >= 0,
    decreases s.len(),
{
    if s.len() > 0 {
        lemma_dec_val_nonneg(s.drop_last());
    }
}

/// Reading more digits never makes the value smaller.
proof fn lemma_dec_val_prefix(s: Seq<char>, i: int)
    requires
        0 <= i <= s.len(),
        forall|j: int| 0 <= j < s.len() ==> is_dec_digit(#[trigger] s[j]),
    ensures
        dec_val(s.subrange(0, i)) <= dec_val(s),
    decreases s.len() - i,
{
    if i == s.len() {
        assert(s.subrange(0, i) =~= s);
    } else {
        lemma_dec_val_prefix(s, i + 1);
        let post = s.subrange(0, i + 1);
        assert(post.drop_last() =~= s.subrange(0, i));
        lemma_dec_val_nonneg(s.subrange(0, i));
        assert(dec_val(s.subrange(0, i)) <= dec_val(post));
    }
}

/// The in-progress list parsed from its tokens: every token must be a
/// 32-bit integer in `[xmin, xmax)`, and the leftmost failing token
/// decides the error.
pub open spec fn parse_xips(tokens: Seq<Seq<char>>, xmin: u32, xmax: u32) -> Result<
    Seq<u32>,
    SnapshotSpecError,
>
    decreases tokens.len(),
{
    if tokens.len() == 0 {
        Ok(Seq::empty())
    } else if !is_u32_token(tokens[0]) {
        Err(SnapshotSpecError::Format)
    } else {
        let v = u32_of_token(tokens[0]);
        if !(xmin <= v && v < xmax) {
            Err(SnapshotSpecError::Range { value: v, xmin, xmax })
        } else {
            match parse_xips(tokens.drop_first(), xmin, xmax) {
                Ok(rest) => Ok(seq![v] + rest),
                Err(e) => Err(e),
            }
        }
    }
}

/// What parsing a specification text yields: the bounds and the
/// in-progress ids, or the error for the first failure.
pub open spec fn spec_parse(s: Seq<char>) -> Result<(u32, u32, Seq<u32>), SnapshotSpecError> {
    let fields = split(s, ':');
    if fields.len() != 3 {
        Err(SnapshotSpecError::Format)
    } else if !is_u32_token(fields[0]) {
        Err(SnapshotSpecError::Format)
    } else if !is_u32_token(fields[1]) {
        Err(SnapshotSpecError::Format)
    } else {
        let xmin = u32_of_token(fields[0]);
        let xmax = u32_of_token(fields[1]);
        if fields[2].len() == 0 {
            Ok((xmin, xmax, Seq::empty()))
        } else {
            match parse_xips(split(fields[2], ','), xmin, xmax) {
                Ok(xip) => Ok((xmin, xmax, xip)),
                Err(e) => Err(e),
            }
        }
    }
}

/// Split a character vector at every occurrence of `sep`.
fn split_chars(s: &Vec<char>, sep: char) -> (r: Vec<Vec<char>>)
    ensures
        r@.len() == split(s@, sep).len(),
        forall|k: int| 0 <= k < r@.len() ==> (#[trigger] r@[k])@ == split(s@, sep)[k],
{
    let mut done: Vec<Vec<char>> = Vec::new();
    let mut cur: Vec<char> = Vec::new();
    let mut i: usize = 0;
    while i < s.len()
        invariant
            i <= s@.len(),
            split(s@.subrange(0, i as int), sep).len() == done@.len() + 1,
            forall|k: int|
                0 <= k < done@.len() ==> (#[trigger] done@[k])@ == split(
                    s@.subrange(0, i as int),
                    sep,
                )[k],
            split(s@.subrange(0, i as int), sep).last() == cur@,
        decreases s@.len() - i,
    {
        let ghost pre = s@.subrange(0, i as int);
        let ghost post = s@.subrange(0, i + 1 as int);
        proof {
            assert(post.drop_last() =~= pre);
            assert(post.last() == s@[i as int]);
            lemma_split_nonempty(pre, sep);
        }
        let c = s[i];
        if c == sep {
            proof {
                assert(split(post, sep) == split(pre, sep).push(Seq::empty()));
            }
            done.push(cur);
            cur = Vec::new();
        } else {
            proof {
                let prev = split(pre, sep);
                assert(split(post, sep) == prev.update(
                    prev.len() - 1,
                    prev.last().push(s@[i as int]),
                ));
            }
            cur.push(c);
        }
        i = i + 1;
    }
    proof {
        assert(s@.subrange(0, s@.len() as int) =~= s@);
    }
    done.push(cur);
    done
}

/// Parse one field as a non-negative 32-bit integer.
fn parse_u32_field(field: &Vec<char>) -> (r: Option<u32>)
    ensures
        match r {
            Some(v) => is_u32_token(field@) && v == u32_of_token(field@),
            None => !is_u32_token(field@),
        },
{
    let n = field.len();
    let has_sign = n > 0 && field[0] == '+';
    let start: usize = if has_sign {
        1
    } else {
        0
    };
    let ghost body = numeric_body(field@);
    proof {
        if has_sign {
            assert(body =~= field@.subrange(1, n as int));
        } else {
            assert(body =~= field@.subrange(0, n as int));
        }
    }
    if start >= n {
        return None;
    }
    let mut acc: u64 = 0;
    let mut i: usize = start;
    while i < n
        invariant
            start <= i <= n,
            n == field@.len(),
            start < n,
            body == numeric_body(field@),
            body == field@.subrange(start as int, n as int),
            acc <= u32::MAX,
            acc == dec_val(field@.subrange(start as int, i as int)),
            forall|j: int| start <= j < i ==> is_dec_digit(#[trigger] field@[j]),
        decreases n - i,
    {
        let c = field[i];
        let u = c as u32;
        if u < 48 || u > 57 {
            proof {
                assert(body[i - start] == field@[i as int]);
                assert(!is_dec_digit(body[i - start]));
            }
            return None;
        }
        let d = u - 48;
        let ghost pre = field@.subrange(start as int, i as int);
        let ghost post = field@.subrange(start as int, i + 1 as int);
        proof {
            assert(post.drop_last() =~= pre);
            assert(post.last() == field@[i as int]);
        }
        let acc2: u64 = acc * 10 + (d as u64);
        proof {
            assert(u == c as u32);
            assert(digit_val(post.last()) == d as int);
            assert(dec_val(post) == dec_val(pre) * 10 + digit_val(post.last()));
            assert(acc2 == dec_val(post));
        }
        if acc2 > 0xffff_ffffu64 {
            proof {
                if is_u32_token(field@) {
                    lemma_dec_val_prefix(body, i + 1 - start as int);
                    assert(body.subrange(0, i + 1 - start as int) =~= post);
                    assert(dec_val(body) >= dec_val(post));
                }
            }
            return None;
        }
        acc = acc2;
        i = i + 1;
    }
    proof {
        assert(field@.subrange(start as int, n as int) =~= body);
        assert(forall|j: int| 0 <= j < body.len() ==> is_dec_digit(#[trigger] body[j]));
        assert(all_digits(body));
    }
    Some(acc as u32)
}

/// Parse a snapshot specification into a validated descriptor.
///
/// Succeeds exactly when the text has three colon-separated fields, the
/// first two are non-negative 32-bit integers, and every member of the
/// comma-separated third field is a 32-bit integer in `[xmin, xmax)`; an
/// empty third field yields an empty in-progress list.  On failure the
/// error is the one [`spec_parse`] assigns to the text: `Format` for a
/// malformed field, `Range` for the leftmost out-of-range member.
#[verifier::loop_isolation(false)]
pub fn parse_snapshot_spec(spec_text: &str) -> (r: Result<SnapshotDescriptor, SnapshotSpecError>)
    ensures
        match r {
            Ok(d) => spec_parse(spec_text@) == Ok::<(u32, u32, Seq<u32>), SnapshotSpecError>(
                (d.xmin, d.xmax, d.xip@),
            ) && d.wf(),
            Err(e) => spec_parse(spec_text@) == Err::<(u32, u32, Seq<u32>), SnapshotSpecError>(e),
        },
{
    let chars = str_chars(spec_text);
    let fields = split_chars(&chars, ':');
    if fields.len() != 3 {
        return Err(SnapshotSpecError::Format);
    }
    let xmin = match parse_u32_field(&fields[0]) {
        Some(v) => v,
        None => {
            return Err(SnapshotSpecError::Format);
        },
    };
    let xmax = match parse_u32_field(&fields[1]) {
        Some(v) => v,
        None => {
            return Err(SnapshotSpecError::Format);
        },
    };
    if fields[2].len() == 0 {
        return Ok(SnapshotDescriptor { xmin, xmax, xip: Vec::new() });
    }
    let tokens = split_chars(&fields[2], ',');
    let ghost toks = Seq::new(tokens@.len() as nat, |j: int| tokens@[j]@);
    proof {
        assert(toks =~= split(split(spec_text@, ':')[2], ','));
        assert(toks.subrange(0, toks.len() as int) =~= toks);
        match parse_xips(toks, xmin, xmax) {
            Ok(rest) => {
                assert(Seq::<u32>::empty() + rest =~= rest);
            },
            Err(e) => {},
        }
    }
    let mut xip: Vec<u32> = Vec::new();
    let mut i: usize = 0;
    while i < tokens.len()
        invariant
            i <= toks.len(),
            toks.len() == tokens@.len(),
            forall|k: int| 0 <= k < toks.len() ==> toks[k] == (#[trigger] tokens@[k])@,
            forall|j: int| 0 <= j < xip@.len() ==> xmin <= #[trigger] xip@[j] < xmax,
            parse_xips(toks, xmin, xmax) == (match parse_xips(
                toks.subrange(i as int, toks.len() as int),
                xmin,
                xmax,
            ) {
                Ok(rest) => Ok::<Seq<u32>, SnapshotSpecError>(xip@ + rest),
                Err(e) => Err::<Seq<u32>, SnapshotSpecError>(e),
            }),
        decreases toks.len() - i,
    {
        let ghost rem = toks.subrange(i as int, toks.len() as int);
        proof {
            assert(rem.len() > 0);
            assert(rem[0] == toks[i as int]);
            assert(rem.drop_first() =~= toks.subrange(i + 1 as int, toks.len() as int));
        }
        let v = match parse_u32_field(&tokens[i]) {
            Some(v) => v,
            None => {
                proof {
                    assert(parse_xips(rem, xmin, xmax) == Err::<Seq<u32>, SnapshotSpecError>(
                        SnapshotSpecError::Format,
                    ));
                }
                return Err(SnapshotSpecError::Format);
            },
        };
        if !(xmin <= v && v < xmax) {
            proof {
                assert(parse_xips(rem, xmin, xmax) == Err::<Seq<u32>, SnapshotSpecError>(
                    SnapshotSpecError::Range { value: v, xmin, xmax },
                ));
            }
            return Err(SnapshotSpecError::Range { value: v, xmin, xmax });
        }
        let ghost pre_xip = xip@;
        xip.push(v);
        proof {
            match parse_xips(rem.drop_first(), xmin, xmax) {
                Ok(rest) => {
                    assert(pre_xip + (seq![v] + rest) =~= xip@ + rest);
                },
                Err(e) => {},
            }
        }
        i = i + 1;
    }
    proof {
        assert(toks.subrange(toks.len() as int, toks.len() as int) =~= Seq::<Seq<char>>::empty());
        assert(parse_xips(toks, xmin, xmax) == Ok::<Seq<u32>, SnapshotSpecError>(
            xip@ + Seq::<u32>::empty(),
        ));
        assert(xip@ + Seq::<u32>::empty() =~= xip@);
    }
    Ok(SnapshotDescriptor { xmin, xmax, xip })
}

} // verus!
