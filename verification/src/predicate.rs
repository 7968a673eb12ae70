//! The predicate of the search: does a candidate's digest begin with the
//! required prefix?

use crate::config::Config;
use crate::decimal::{decimal, render_decimal};
use crate::digest::{hex_digest, sha256_hex};
use vstd::prelude::*;
use vstd::string::StrSliceExecFns;

verus! {

/// A candidate that passed, with the digest that shows it.
pub struct Solution {
    /// The candidate.
    pub number: usize,
    /// The hexadecimal SHA-256 digest of the candidate's product with the
    /// multiplier, written in base ten.
    pub hash: String,
}

/// The digest that decides on `number`: the product with `base` comes first,
/// then its base-ten text, then the hash of that text.
pub open spec fn digest_of(number: nat, base: nat) -> Seq<char> {
    sha256_hex(decimal(number * base))
}

/// `number` passes when its digest begins with `difficulty`, character for
/// character and over the whole length of `difficulty`.
pub open spec fn accepts(number: nat, base: nat, difficulty: Seq<char>) -> bool {
    difficulty.is_prefix_of(digest_of(number, base))
}

impl Solution {
    /// The solution is one of the search that `config` describes: its candidate
    /// passes, and its digest is that candidate's.
    pub open spec fn solves(&self, config: &Config) -> bool {
        &&& accepts(self.number as nat, config.base as nat, config.difficulty@)
        &&& self.hash@ == digest_of(self.number as nat, config.base as nat)
    }
}

/// Does `text` begin with `prefix`? Characters are compared exactly; an empty
/// prefix begins every text.
pub fn starts_with(text: &str, prefix: &str) -> (yes: bool)
    ensures
        yes == prefix@.is_prefix_of(text@),
{
    let wanted: usize = prefix.unicode_len();
    let given: usize = text.unicode_len();
    if wanted > given {
        return false;
    }
    let mut i: usize = 0;
    while i < wanted
        invariant
            i <= wanted,
            wanted == prefix@.len(),
            wanted <= text@.len(),
            forall|j: int| 0 <= j < i ==> prefix@[j] == text@[j],
        decreases wanted - i,
    {
        if prefix.get_char(i) != text.get_char(i) {
            assert(text@.subrange(0, wanted as int)[i as int] != prefix@[i as int]);
            return false;
        }
        i += 1;
    }
    assert(prefix@ =~= text@.subrange(0, wanted as int));
    true
}

/// The product of a candidate and the multiplier, which always fits in 128
/// bits.
pub fn transform(number: usize, base: usize) -> (product: u128)
    ensures
        product == number * base,
{
    assert(number * base <= 0xffff_ffff_ffff_ffff * 0xffff_ffff_ffff_ffff) by (nonlinear_arith)
        requires
            0 <= number <= 0xffff_ffff_ffff_ffff,
            0 <= base <= 0xffff_ffff_ffff_ffff,
    ;
    (number as u128) * (base as u128)
}

/// Tests one candidate. The answer depends on the candidate, the multiplier
/// and the prefix alone: it is `Some` exactly when the candidate passes, and
/// then holds the candidate and its digest.
pub fn verify(number: usize, config: &Config) -> (found: Option<Solution>)
    ensures
        found.is_some() == accepts(number as nat, config.base as nat, config.difficulty@),
        found matches Some(solution) ==> solution.number == number && solution.solves(config),
{
    let message = render_decimal(transform(number, config.base));
    let hash: String = hex_digest(&message);
    if starts_with(hash.as_str(), config.difficulty.as_str()) {
        Some(Solution { number, hash })
    } else {
        None
    }
}

} // verus!
