//! Token counting with a byte-pair encoder, and the coarse estimate.

use vstd::prelude::*;
use vstd::string::StringExecFns;
use vstd::utf8::encode_utf8;
use crate::error::Error;

verus! {

/// Whether the tokenizer library knows a byte-pair encoding for a model.
pub uninterp spec fn tokenizer_exists(model: Seq<char>) -> bool;

/// The number of tokens of a text under a model's byte-pair encoding, or
/// `None` where the model is unknown or the encoder fails on the text.
pub uninterp spec fn bpe_token_count(model: Seq<char>, text: Seq<char>) -> Option<nat>;

/// Relies on `tiktoken_rs::bpe_for_model`: whether it finds an encoding for
/// the model.
#[verifier::external_body]
fn has_tokenizer(model: &str) -> (r: bool)
    ensures
        r == tokenizer_exists(model@),
{
    tiktoken_rs::bpe_for_model(model).is_ok()
}

/// Relies on `tiktoken_rs::bpe_for_model` and `CoreBPE::encode` with every
/// special token allowed (what `encode_with_special_tokens` does, without its
/// panic): the number of tokens of the text.
#[verifier::external_body]
fn bpe_count(model: &str, text: &str) -> (r: Option<usize>)
    ensures
        match r {
            Some(n) => bpe_token_count(model@, text@) == Some(n as nat),
            None => bpe_token_count(model@, text@) is None,
        },
{
    tiktoken_rs::bpe_for_model(model)
        .ok()
        .and_then(|bpe| bpe.encode(text, &bpe.special_tokens()).ok())
        .map(|(tokens, _)| tokens.len())
}

/// The coarse estimate: a quarter of the UTF-8 byte length (a length in
/// memory, hence a `usize`), as `u32`.
pub open spec fn estimate_spec(text: Seq<char>) -> u32 {
    ((encode_utf8(text).len() as usize) / 4) as u32
}

/// What counting gives: the encoder's count, or the estimate where the
/// encoder fails.
pub open spec fn count_spec(model: Seq<char>, text: Seq<char>) -> u32 {
    match bpe_token_count(model, text) {
        Some(n) => n as u32,
        None => estimate_spec(text),
    }
}

/// Counts tokens with the byte-pair encoding of one model.
pub struct TokenCounter {
    model: String,
}

impl TokenCounter {
    pub closed spec fn model(&self) -> Seq<char> {
        self.model@
    }

    /// A counter for `model`; a configuration error where no encoding is
    /// known for it.
    pub fn new(model: &str) -> (r: Result<TokenCounter, Error>)
        ensures
            r is Ok <==> tokenizer_exists(model@),
            r is Ok ==> r->Ok_0.model() == model@,
            r is Err ==> r->Err_0 is Config,
    {
        if has_tokenizer(model) {
            Ok(TokenCounter { model: String::from_str(model) })
        } else {
            Err(Error::config("no tokenizer for model"))
        }
    }

    /// The counter for GPT-4-class models.
    pub fn for_gpt() -> (r: Result<TokenCounter, Error>)
        ensures
            r is Ok <==> tokenizer_exists("gpt-4"@),
            r is Ok ==> r->Ok_0.model() == "gpt-4"@,
    {
        TokenCounter::new("gpt-4")
    }

    /// The counter for other assistant models, whose tokenizers are close to
    /// GPT-4's.
    pub fn for_claude() -> (r: Result<TokenCounter, Error>)
        ensures
            r is Ok <==> tokenizer_exists("gpt-4"@),
            r is Ok ==> r->Ok_0.model() == "gpt-4"@,
    {
        TokenCounter::new("gpt-4")
    }

    /// Tokens in `text`.
    pub fn count(&self, text: &str) -> (r: u32)
        ensures
            r == count_spec(self.model(), text@),
    {
        match bpe_count(self.model.as_str(), text) {
            Some(n) => n as u32,
            None => TokenCounter::estimate(text),
        }
    }

    /// Tokens in `text`, falling back to the estimate where the encoder
    /// fails.
    pub fn count_or_estimate(&self, text: &str) -> (r: u32)
        ensures
            r == count_spec(self.model(), text@),
    {
        self.count(text)
    }

    /// A quarter of the byte length, without the tokenizer.
    pub fn estimate(text: &str) -> (r: u32)
        ensures
            r == estimate_spec(text@),
    {
        (text.len() / 4) as u32
    }
}

} // verus!
