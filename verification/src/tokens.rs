use vstd::prelude::*;

verus! {

/// The number of model tokens a text occupies under the fixed byte-pair
/// encoding vocabulary of the language model in use. The encoding is a pure
/// function of the text: no call, process or machine changes it.
pub uninterp spec fn token_count(text: Seq<char>) -> nat;

/// Default per-file token budget: a file whose token count exceeds this is
/// not submitted for summarization.
pub const DEFAULT_TOKEN_LIMIT: usize = 4096;

/// Whether a text is small enough to submit to the model: its token count is
/// at most `limit`. A count exactly at the limit is still eligible.
pub open spec fn eligible(text: Seq<char>, limit: nat) -> bool {
    token_count(text) <= limit
}

/// Relies on `tiktoken_rs::r50k_base` and `CoreBPE::encode_with_special_tokens`:
/// the vocabulary is built from data embedded in that crate (so building it
/// does not fail and the error arm below is unreachable), and the encoding of
/// a text depends on the text alone.
#[verifier::external_body]
fn count_tokens(text: &str) -> (n: usize)
    ensures
        n as nat == token_count(text@),
{
    match tiktoken_rs::r50k_base() {
        Ok(bpe) => bpe.encode_with_special_tokens(text).len(),
        Err(_) => 0,
    }
}

/// The token gate: decides whether `text` may be submitted to the model.
/// Returns false exactly when the token count strictly exceeds `limit`.
pub fn is_eligible(text: &str, limit: usize) -> (r: bool)
    ensures
        r == eligible(text@, limit as nat),
{
    let n = count_tokens(text);
    n <= limit
}

} // verus!
