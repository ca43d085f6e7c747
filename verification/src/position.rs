//! The position record: a persisted byte offset, stored as its decimal ASCII
//! text, nothing else. Encoding produces the canonical decimal form; parsing
//! accepts what `u64` parsing accepts and treats anything else as "no prior
//! progress", that is offset 0.

use vstd::prelude::*;

verus! {

/// The canonical decimal ASCII digits of `n`, most significant first.
pub open spec fn dec_digits(n: nat) -> Seq<u8>
    decreases n,
{
    if n < 10 {
        seq![(n + 48) as u8]
    } else {
        dec_digits(n / 10).push((n % 10 + 48) as u8)
    }
}

pub open spec fn is_dec_digit(b: u8) -> bool {
    48 <= b && b <= 57
}

pub open spec fn all_dec_digits(s: Seq<u8>) -> bool {
    forall|i: int| 0 <= i < s.len() ==> is_dec_digit(#[trigger] s[i])
}

/// The numeric value of a digit byte; non-digits count as 0 (they are ruled
/// out wherever the value matters).
pub open spec fn digit_val(b: u8) -> nat {
    if is_dec_digit(b) {
        (b - 48) as nat
    } else {
        0
    }
}

/// The value of a digit string, most significant digit first.
pub open spec fn digits_val(s: Seq<u8>) -> nat
    decreases s.len(),
{
    if s.len() == 0 {
        0
    } else {
        digits_val(s.drop_last()) * 10 + digit_val(s.last())
    }
}

/// `u64` parsing accepts one optional leading `+`.
pub open spec fn stripped_sign(s: Seq<u8>) -> Seq<u8> {
    if s.len() > 0 && s[0] == 43 {
        s.drop_first()
    } else {
        s
    }
}

/// Whether `s` is text that parses as a `u64`: after an optional `+`, one or
/// more decimal digits whose value fits.
pub open spec fn parses_as_u64(s: Seq<u8>) -> bool {
    let d = stripped_sign(s);
    d.len() > 0 && all_dec_digits(d) && digits_val(d) <= u64::MAX
}

/// What a stored record resolves to: the parsed value, or 0 when the record
/// does not parse (a corrupt record is "no prior progress", not an error).
pub open spec fn parsed_position(s: Seq<u8>) -> u64 {
    if parses_as_u64(s) {
        digits_val(stripped_sign(s)) as u64
    } else {
        0
    }
}

/// The starting cursor resolved from a position record: a missing record and
/// an unparsable record both mean "start from the beginning".
pub open spec fn resolved_cursor(record: Option<Seq<u8>>) -> u64 {
    match record {
        Option::None => 0,
        Option::Some(s) => parsed_position(s),
    }
}

/// Encodes an offset as its decimal ASCII text, the exact content of the
/// position record.
pub fn encode_position(position: u64) -> (r: Vec<u8>)
    ensures
        r@ == dec_digits(position as nat),
{
    let mut n: u64 = position;
    let mut rev: Vec<u8> = Vec::new();
    while n >= 10
        invariant
            dec_digits(position as nat) =~= dec_digits(n as nat) + Seq::new(
                rev@.len(),
                |j: int| rev@[rev@.len() - 1 - j],
            ),
        decreases n,
    {
        let d: u8 = (n % 10) as u8 + 48;
        let ghost prev = rev@;
        rev.push(d);
        proof {
            assert(Seq::new(rev@.len(), |j: int| rev@[rev@.len() - 1 - j]) =~= seq![d] + Seq::new(
                prev.len(),
                |j: int| prev[prev.len() - 1 - j],
            ));
            assert(dec_digits(n as nat) =~= dec_digits((n / 10) as nat) + seq![d]);
        }
        n = n / 10;
    }
    let d: u8 = n as u8 + 48;
    let ghost prev = rev@;
    rev.push(d);
    proof {
        assert(Seq::new(rev@.len(), |j: int| rev@[rev@.len() - 1 - j]) =~= seq![d] + Seq::new(
            prev.len(),
            |j: int| prev[prev.len() - 1 - j],
        ));
        assert(dec_digits(n as nat) =~= seq![d]);
    }
    let mut out: Vec<u8> = Vec::new();
    let mut i: usize = rev.len();
    while i > 0
        invariant
            i <= rev@.len(),
            out@.len() == rev@.len() - i,
            forall|j: int| 0 <= j < out@.len() ==> out@[j] == rev@[rev@.len() - 1 - j],
        decreases i,
    {
        i = i - 1;
        let b = rev[i];
        out.push(b);
    }
    proof {
        assert(out@ =~= Seq::new(rev@.len(), |j: int| rev@[rev@.len() - 1 - j]));
        assert(dec_digits(position as nat) =~= dec_digits(position as nat) + Seq::<u8>::empty());
    }
    out
}

proof fn lemma_digits_val_prefix_monotone(s: Seq<u8>, j: int)
    requires
        0 <= j <= s.len(),
    ensures
        digits_val(s.take(j)) <= digits_val(s),
    decreases s.len() - j,
{
    if j == s.len() {
        assert(s.take(j) =~= s);
    } else {
        assert(s.take(j + 1).drop_last() =~= s.take(j));
        assert(digits_val(s.take(j + 1)) == digits_val(s.take(j)) * 10 + digit_val(
            s.take(j + 1).last(),
        ));
        lemma_digits_val_prefix_monotone(s, j + 1);
    }
}

/// Parses the text of a position record exactly as the original storage
/// format does: optional `+`, then decimal digits that fit in a `u64`;
/// everything else, including overflow, resolves to 0.
pub fn parse_position(bytes: &[u8]) -> (r: u64)
    ensures
        r == parsed_position(bytes@),
{
    let n = bytes.len();
    let mut i: usize = 0;
    if n > 0 && bytes[0] == 43 {
        i = 1;
    }
    let ghost d = stripped_sign(bytes@);
    proof {
        assert(d =~= bytes@.subrange(i as int, n as int));
    }
    if i == n {
        return 0;
    }
    let start = i;
    let mut val: u64 = 0;
    while i < n
        invariant
            start <= i <= n,
            n == bytes@.len(),
            d == stripped_sign(bytes@),
            d =~= bytes@.subrange(start as int, n as int),
            val == digits_val(d.take(i - start)),
            all_dec_digits(d.take(i - start)),
        decreases n - i,
    {
        let b = bytes[i];
        if b < 48 || b > 57 {
            proof {
                assert(!is_dec_digit(stripped_sign(bytes@)[i - start]));
                assert(!all_dec_digits(stripped_sign(bytes@)));
                assert(!parses_as_u64(bytes@));
            }
            return 0;
        }
        let dv: u64 = (b - 48) as u64;
        if val > (u64::MAX - dv) / 10 {
            proof {
                assert(val * 10 + dv > u64::MAX) by (nonlinear_arith)
                    requires
                        val > (u64::MAX - dv) / 10,
                        dv <= 9,
                ;
                assert(d.take(i - start + 1).drop_last() =~= d.take(i - start));
                assert(d.take(i - start + 1).last() == d[i - start] == b);
                assert(digits_val(d.take(i - start + 1)) == val * 10 + dv);
                lemma_digits_val_prefix_monotone(d, i - start + 1);
                assert(digits_val(d) > u64::MAX);
            }
            return 0;
        }
        proof {
            assert(val * 10 + dv <= u64::MAX) by (nonlinear_arith)
                requires
                    val <= (u64::MAX - dv) / 10,
                    dv <= 9,
            ;
            assert(d.take(i - start + 1).drop_last() =~= d.take(i - start));
            assert(d.take(i - start + 1).last() == d[i - start] == b);
        }
        val = val * 10 + dv;
        i = i + 1;
    }
    proof {
        assert(d.take(i - start) =~= d);
        assert(parses_as_u64(bytes@));
    }
    val
}

/// The starting cursor for a session: what the position record resolves to,
/// with a missing record meaning "start from the beginning".
pub fn initial_cursor(record: &Option<Vec<u8>>) -> (r: u64)
    ensures
        r == resolved_cursor(match *record {
            Option::None => Option::None,
            Option::Some(v) => Option::Some(v@),
        }),
{
    match record {
        Option::None => 0,
        Option::Some(v) => parse_position(v.as_slice()),
    }
}

/// The decimal text of a number is never empty, consists of digits alone,
/// and evaluates back to the number — the digits determine the value.
pub proof fn lemma_dec_digits_shape(n: nat)
    ensures
        dec_digits(n).len() > 0,
        all_dec_digits(dec_digits(n)),
        digits_val(dec_digits(n)) == n,
    decreases n,
{
    if n < 10 {
        assert(dec_digits(n) =~= seq![(n + 48) as u8]);
        assert(dec_digits(n).drop_last() =~= Seq::<u8>::empty());
        assert(digits_val(Seq::<u8>::empty()) == 0);
        assert(digits_val(dec_digits(n)) == digits_val(dec_digits(n).drop_last()) * 10 + digit_val(
            dec_digits(n).last(),
        ));
    } else {
        lemma_dec_digits_shape(n / 10);
        let s = dec_digits(n);
        assert(s.drop_last() =~= dec_digits(n / 10));
        assert(s.last() == (n % 10 + 48) as u8);
        assert(all_dec_digits(s)) by {
            assert(forall|i: int|
                0 <= i < s.len() - 1 ==> #[trigger] s[i] == dec_digits(n / 10)[i]);
        }
        assert(digits_val(s) == (n / 10) * 10 + n % 10);
        vstd::arithmetic::div_mod::lemma_fundamental_div_mod(n as int, 10);
    }
}

/// The round trip law of the position record: every offset that is written
/// out is read back unchanged, so a restart resumes exactly where the last
/// successful append left off.
pub proof fn lemma_position_round_trip(position: u64)
    ensures
        parsed_position(dec_digits(position as nat)) == position,
{
    let s = dec_digits(position as nat);
    lemma_dec_digits_shape(position as nat);
    assert(is_dec_digit(s[0]));
    assert(stripped_sign(s) =~= s);
}

} // verus!
