//! Client-side logic for a remote profile service: request payloads, URL and
//! auth-parameter construction, the JSON wire grammar, and the mapping from
//! HTTP status plus response envelope to a typed error.
use vstd::prelude::*;

pub mod builder;
pub mod client;
pub mod envelope;
pub mod error;
pub mod json;
pub mod parse;
pub mod roundtrip;
pub mod text;

verus! {

/// Decimal representation of a natural number, most significant digit first.
pub open spec fn dec_rep(n: nat) -> Seq<u8>
    decreases n,
{
    if n < 10 {
        seq![(n + 0x30) as u8]
    } else {
        dec_rep(n / 10) + seq![(n % 10 + 0x30) as u8]
    }
}

/// Render `n` in decimal, most significant digit first.
pub fn u64_to_dec(n: u64) -> (r: Vec<u8>)
    ensures
        r@ == dec_rep(n as nat),
{
    let mut digits: Vec<u8> = Vec::new();
    let mut m: u64 = n;
    loop
        invariant_except_break
            dec_rep(n as nat) == dec_rep(m as nat) + digits@,
        ensures
            dec_rep(n as nat) == digits@,
        decreases m,
    {
        let d: u8 = (m % 10) as u8;
        let m2: u64 = m / 10;
        let ghost prev = digits@;
        digits.insert(0, d + 0x30);
        proof {
            assert(digits@ =~= seq![(d + 0x30) as u8] + prev);
            if m >= 10 {
                assert(dec_rep(m as nat) == dec_rep((m / 10) as nat) + seq![(m as nat % 10 + 0x30) as u8]);
                assert(dec_rep((m2) as nat) + digits@ =~= dec_rep(m as nat) + prev);
            } else {
                assert(dec_rep(m as nat) == seq![(m as nat + 0x30) as u8]);
                assert(dec_rep(m as nat) + prev =~= digits@);
            }
        }
        if m2 == 0 {
            break;
        }
        m = m2;
    }
    digits
}

/// The decimal rendering is a digit run with no leading zero.
pub proof fn lemma_dec_rep_digits(n: nat)
    ensures
        crate::json::num_digits_ok(dec_rep(n)),
        n >= 1 ==> dec_rep(n)[0] != 0x30,
    decreases n,
{
    if n < 10 {
        assert(dec_rep(n) =~= seq![(n + 0x30) as u8]);
        assert(crate::json::is_digit(dec_rep(n)[0]));
    } else {
        lemma_dec_rep_digits(n / 10);
        assert(dec_rep(n) == dec_rep(n / 10) + seq![(n % 10 + 0x30) as u8]);
        assert(dec_rep(n)[0] == dec_rep(n / 10)[0]);
        assert forall|k: int| 0 <= k < dec_rep(n).len() implies crate::json::is_digit(
            #[trigger] dec_rep(n)[k],
        ) by {
            if k < dec_rep(n / 10).len() {
                assert(dec_rep(n)[k] == dec_rep(n / 10)[k]);
                assert(crate::json::is_digit(dec_rep(n / 10)[k]));
            } else {
                assert(dec_rep(n)[k] == (n % 10 + 0x30) as u8);
            }
        }
    }
}

/// A JSON number holding the decimal rendering of `n`.
pub fn json_u64(n: u64) -> (r: crate::json::JsonValue)
    ensures
        crate::json::jv_model(r) == crate::json::JsonModel::Num(dec_rep(n as nat)),
        crate::json::wf(crate::json::jv_model(r)),
{
    let digits = u64_to_dec(n);
    proof {
        lemma_dec_rep_digits(n as nat);
        crate::json::lemma_digit_run_is_num_lexeme(dec_rep(n as nat));
    }
    crate::json::JsonValue::Num(digits)
}

} // verus!
