//! Provider policy helpers and secret masking.

use vstd::prelude::*;

use crate::strutil::str_ieq;

verus! {

broadcast use vstd::string::group_string_axioms;

/// Credentials resolved for the hosted-codex provider.
#[derive(Debug)]
pub struct CodexAuthResolved {
    pub bearer_token: String,
    pub account_id: Option<String>,
}

/// Whether a provider may be configured without an API key: local
/// models and the hosted-codex provider, which authenticates by OAuth.
/// Provider names compare case-insensitively.
pub fn provider_allows_empty_api_key(provider: &str) -> (r: bool)
    ensures
        r == (str_ieq(provider@, "ollama"@) || str_ieq(provider@, "openai-codex"@)),
{
    crate::strutil::eq_ignore_ascii_case(provider, "ollama") || crate::strutil::eq_ignore_ascii_case(
        provider,
        "openai-codex",
    )
}

/// Whether a provider name denotes the hosted-codex provider,
/// case-insensitively.
pub fn is_openai_codex_provider(provider: &str) -> (r: bool)
    ensures
        r == str_ieq(provider@, "openai-codex"@),
{
    crate::strutil::eq_ignore_ascii_case(provider, "openai-codex")
}

/// The masked form of a secret: short secrets vanish entirely, longer
/// ones keep their first three and last two characters.
pub open spec fn spec_mask_secret(s: Seq<char>) -> Seq<char> {
    if s.len() <= 6 {
        "***"@
    } else {
        s.take(3) + "***"@ + s.skip(s.len() - 2)
    }
}

/// Masks a secret for display.
pub fn mask_secret(s: &str) -> (r: String)
    ensures
        r@ == spec_mask_secret(s@),
{
    let n = s.unicode_len();
    if n <= 6 {
        String::from_str("***")
    } else {
        let mut r = String::from_str(s.substring_char(0, 3));
        r.append("***");
        r.append(s.substring_char(n - 2, n));
        proof {
            assert(s@.subrange(0, 3) =~= s@.take(3));
            assert(s@.subrange(n - 2, n as int) =~= s@.skip(s@.len() - 2));
        }
        r
    }
}

} // verus!
