//! Confirmation tokens: sanitising what a caller hands in, and minting new ones.
use vstd::prelude::*;
use crate::text::{char_is_alphanumeric, is_ascii_alnum, push_char, unicode_alnum};

verus! {

/// The characters of `raw` that are alphanumeric, in their order.
pub open spec fn sanitized_token(raw: Seq<char>) -> Seq<char> {
    raw.filter(|c: char| unicode_alnum(c))
}

/// Keeps only the alphanumeric characters of `subscription_token`, so that
/// nothing else ever reaches a lookup.
pub fn parse_subscription_token(subscription_token: &str) -> (r: String)
    ensures
        r@ == sanitized_token(subscription_token@),
        (forall|i: int|
            0 <= i < subscription_token@.len() ==> is_ascii_alnum(#[trigger] subscription_token@[i]))
            ==> r@ == subscription_token@,
{
    let n = subscription_token.unicode_len();
    let mut out = String::new();
    let mut i: usize = 0;
    while i < n
        invariant
            n == subscription_token@.len(),
            i <= n,
            out@ == sanitized_token(subscription_token@.subrange(0, i as int)),
            (forall|j: int|
                0 <= j < subscription_token@.len() ==> is_ascii_alnum(
                    #[trigger] subscription_token@[j],
                )) ==> out@ == subscription_token@.subrange(0, i as int),
        decreases n - i,
    {
        let c = subscription_token.get_char(i);
        proof {
            reveal(Seq::filter);
            assert(subscription_token@.subrange(0, i + 1).drop_last()
                =~= subscription_token@.subrange(0, i as int));
        }
        if char_is_alphanumeric(c) {
            push_char(&mut out, c);
        }
        proof {
            if forall|j: int|
                0 <= j < subscription_token@.len() ==> is_ascii_alnum(
                    #[trigger] subscription_token@[j],
                ) {
                assert(is_ascii_alnum(subscription_token@[i as int]));
                assert(out@ =~= subscription_token@.subrange(0, i + 1));
            }
        }
        i = i + 1;
    }
    proof {
        assert(subscription_token@.subrange(0, n as int) =~= subscription_token@);
    }
    out
}

/// Number of characters in a freshly minted token.
pub const TOKEN_LEN: usize = 25;

/// A well-formed minted token: `TOKEN_LEN` ASCII letters and digits.
pub open spec fn is_minted_token(t: Seq<char>) -> bool {
    &&& t.len() == TOKEN_LEN
    &&& forall|i: int| 0 <= i < t.len() ==> is_ascii_alnum(#[trigger] t[i])
}

/// Relies on rand's `Alphanumeric` distribution sampled from the thread-local
/// generator: it yields one byte of `A-Z`, `a-z` or `0-9`.
#[verifier::external_body]
fn random_alphanumeric_byte() -> (r: u8)
    ensures
        is_ascii_alnum(r as char),
{
    rand::Rng::sample(&mut rand::thread_rng(), rand::distributions::Alphanumeric)
}

/// Mints a new confirmation token from the thread-local random generator.
/// The generator is a general-purpose one, not a dedicated cryptographic source.
pub fn generate_subscription_token() -> (r: String)
    ensures
        is_minted_token(r@),
{
    let mut out = String::new();
    let mut i: usize = 0;
    while i < TOKEN_LEN
        invariant
            i <= TOKEN_LEN,
            out@.len() == i,
            forall|j: int| 0 <= j < i ==> is_ascii_alnum(#[trigger] out@[j]),
        decreases TOKEN_LEN - i,
    {
        let b = random_alphanumeric_byte();
        push_char(&mut out, b as char);
        i = i + 1;
    }
    out
}

} // verus!
