//! The persisted high score.  The core consumes and produces a plain
//! non-negative integer; reading and writing the storage itself is an
//! outside collaborator's concern.  Parsing the stored text — trimming
//! whitespace and reading an optionally plus-signed digit string, with 0
//! substituted on any failure — is the computation verified here.
use vstd::prelude::*;

verus! {

/// Whitespace as the trim step treats it.
pub open spec fn is_ws(b: u8) -> bool {
    b == 32 || b == 9 || b == 10 || b == 13 || b == 11 || b == 12
}

/// A decimal digit.
pub open spec fn is_digit(b: u8) -> bool {
    48 <= b <= 57
}

/// The text without its leading whitespace.
pub open spec fn trim_front(s: Seq<u8>) -> Seq<u8>
    decreases s.len(),
{
    if s.len() > 0 && is_ws(s[0]) {
        trim_front(s.drop_first())
    } else {
        s
    }
}

/// The text without its trailing whitespace.
pub open spec fn trim_back(s: Seq<u8>) -> Seq<u8>
    decreases s.len(),
{
    if s.len() > 0 && is_ws(s.last()) {
        trim_back(s.drop_last())
    } else {
        s
    }
}

/// The text without leading and trailing whitespace.
pub open spec fn trimmed(s: Seq<u8>) -> Seq<u8> {
    trim_back(trim_front(s))
}

/// The trimmed text without an optional leading plus sign.
pub open spec fn number_body(s: Seq<u8>) -> Seq<u8> {
    let t = trimmed(s);
    if t.len() > 0 && t[0] == 43 {
        t.drop_first()
    } else {
        t
    }
}

/// Whether every byte is a decimal digit.
pub open spec fn all_digits(s: Seq<u8>) -> bool {
    forall|i: int| 0 <= i < s.len() ==> is_digit(#[trigger] s[i])
}

/// The integer a digit string denotes, most significant digit first.
pub open spec fn digits_val(s: Seq<u8>) -> int
    decreases s.len(),
{
    if s.len() == 0 {
        0
    } else {
        digits_val(s.drop_last()) * 10 + (s.last() - 48)
    }
}

/// What parsing the stored text yields: the value of its digits when the
/// trimmed text is a non-empty, optionally plus-signed digit string whose
/// value fits the machine word, and 0 on any failure.
pub open spec fn parse_spec(s: Seq<u8>) -> int {
    let d = number_body(s);
    if d.len() > 0 && all_digits(d) && digits_val(d) <= usize::MAX {
        digits_val(d)
    } else {
        0
    }
}

/// A digit string's value is non-negative.
proof fn lemma_digits_val_nonneg(s: Seq<u8>)
    requires
        all_digits(s),
    ensures
        digits_val(s) >= 0,
    decreases s.len(),
{
    if s.len() > 0 {
        lemma_digits_val_nonneg(s.drop_last());
    }
}

/// Extending a digit prefix by one digit multiplies its value by ten and
/// adds the digit.
proof fn lemma_digits_val_take_step(s: Seq<u8>, k: int)
    requires
        0 <= k < s.len(),
    ensures
        digits_val(s.take(k + 1)) == digits_val(s.take(k)) * 10 + (s[k] - 48),
{
    assert(s.take(k + 1).drop_last() =~= s.take(k));
}

/// A digit string's value is at least the value of any of its prefixes.
proof fn lemma_digits_val_grows(s: Seq<u8>, k: int)
    requires
        all_digits(s),
        0 <= k <= s.len(),
    ensures
        digits_val(s) >= digits_val(s.take(k)),
    decreases s.len() - k,
{
    if k < s.len() {
        lemma_digits_val_take_step(s, k);
        lemma_digits_val_nonneg(s.take(k));
        lemma_digits_val_grows(s, k + 1);
    } else {
        assert(s.take(k) =~= s);
    }
}

fn is_ws_byte(b: u8) -> (r: bool)
    ensures
        r == is_ws(b),
{
    b == 32 || b == 9 || b == 10 || b == 13 || b == 11 || b == 12
}

/// Reads the stored high-score text: whitespace-trimmed, optionally
/// plus-signed decimal digits give their value; anything else — empty
/// text, other characters, a value past the machine word — gives 0.
#[verifier::loop_isolation(false)]
pub fn parse_highscore(bytes: &[u8]) -> (r: usize)
    ensures
        r == parse_spec(bytes@),
{
    let n: usize = bytes.len();
    proof {
        assert(bytes@.skip(0) =~= bytes@);
    }
    let mut i: usize = 0;
    while i < n && is_ws_byte(bytes[i])
        invariant
            0 <= i <= n,
            trim_front(bytes@) == trim_front(bytes@.skip(i as int)),
        decreases n - i,
    {
        proof {
            assert(bytes@.skip(i as int).drop_first() =~= bytes@.skip(i + 1));
        }
        i += 1;
    }
    proof {
        assert(trim_front(bytes@) == bytes@.skip(i as int));
        assert(bytes@.skip(i as int) =~= bytes@.subrange(i as int, n as int));
    }
    let mut j: usize = n;
    while j > i && is_ws_byte(bytes[j - 1])
        invariant
            i <= j <= n,
            trimmed(bytes@) == trim_back(bytes@.subrange(i as int, j as int)),
        decreases j,
    {
        proof {
            assert(bytes@.subrange(i as int, j as int).drop_last() =~= bytes@.subrange(
                i as int,
                j - 1,
            ));
        }
        j -= 1;
    }
    proof {
        assert(trimmed(bytes@) == bytes@.subrange(i as int, j as int));
    }
    if j > i && bytes[i] == 43 {
        proof {
            assert(trimmed(bytes@).drop_first() =~= bytes@.subrange(i + 1, j as int));
        }
        i += 1;
    }
    let ghost d = bytes@.subrange(i as int, j as int);
    proof {
        assert(number_body(bytes@) == d);
    }
    if i == j {
        return 0;
    }
    let mut acc: usize = 0;
    let mut k: usize = i;
    while k < j
        invariant
            i <= k <= j,
            acc == digits_val(d.take(k - i)),
            all_digits(d.take(k - i)),
        decreases j - k,
    {
        let b = bytes[k];
        proof {
            assert(d[k - i] == bytes@[k as int]);
        }
        if b < 48 || b > 57 {
            proof {
                assert(!is_digit(d[k - i]));
                assert(!all_digits(d));
            }
            return 0;
        }
        let digit: usize = (b - 48) as usize;
        proof {
            lemma_digits_val_take_step(d, k - i);
        }
        if acc > (usize::MAX - digit) / 10 {
            proof {
                assert(acc * 10 + digit > usize::MAX) by (nonlinear_arith)
                    requires
                        acc > (usize::MAX - digit) / 10,
                        0 <= digit <= 9,
                        acc >= 0,
                ;
                if all_digits(d) {
                    lemma_digits_val_grows(d, k - i + 1);
                    assert(digits_val(d) > usize::MAX);
                }
            }
            return 0;
        }
        proof {
            assert(acc * 10 + digit <= usize::MAX) by (nonlinear_arith)
                requires
                    acc <= (usize::MAX - digit) / 10,
                    0 <= digit <= 9,
                    acc >= 0,
            ;
        }
        acc = acc * 10 + digit;
        k += 1;
    }
    proof {
        assert(d.take(j - i) =~= d);
    }
    acc
}

} // verus!
