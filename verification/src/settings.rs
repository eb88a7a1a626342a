//! The configuration of the language model, with its defaults.

use vstd::prelude::*;

verus! {

/// The endpoint used where none is configured.
pub const DEFAULT_ENDPOINT: &'static str = "https://api.openai.com/v1";

/// The model used where none is configured.
pub const DEFAULT_MODEL: &'static str = "gpt-4o";

/// The context size, in tokens, used where none is configured.
pub const DEFAULT_TOKEN_LIMIT: u32 = 16384;

/// The key sent where none is configured.
pub const DEFAULT_API_KEY: &'static str = "LLAMAEDGE";

/// Whether `c` is one of the digits `0` to `9`.
pub open spec fn is_digit(c: char) -> bool {
    '0' <= c <= '9'
}

/// The number that the digit `c` stands for.
pub open spec fn digit_value(c: char) -> nat {
    (c as u32 - '0' as u32) as nat
}

/// Whether `s` is made of digits only.
pub open spec fn all_digits(s: Seq<char>) -> bool {
    forall|i: int| 0 <= i < s.len() ==> is_digit(#[trigger] s[i])
}

/// The number that a run of digits stands for in base ten.
pub open spec fn decimal_value(digits: Seq<char>) -> nat
    decreases digits.len(),
{
    if digits.len() == 0 {
        0
    } else {
        10 * decimal_value(digits.drop_last()) + digit_value(digits.last())
    }
}

/// `s` without a leading `+`.
pub open spec fn unsigned_part(s: Seq<char>) -> Seq<char> {
    if s.len() > 0 && s[0] == '+' {
        s.drop_first()
    } else {
        s
    }
}

/// The token limit that a configured text stands for: its value where it is a
/// run of one or more digits, with or without a `+` in front, that fits in 32
/// bits; 0 for every other text.
pub open spec fn token_limit_of(raw: Seq<char>) -> u32 {
    let digits = unsigned_part(raw);
    if digits.len() > 0 && all_digits(digits) && decimal_value(digits) <= u32::MAX {
        decimal_value(digits) as u32
    } else {
        0
    }
}

/// The character budget for a context of `token_limit` tokens: twice the limit,
/// and 0 where that does not fit in a `usize`.
pub open spec fn budget_of(token_limit: u32) -> usize {
    if 2 * token_limit <= usize::MAX {
        (2 * token_limit) as usize
    } else {
        0
    }
}

/// A longer run of digits stands for no smaller a number than its beginning.
proof fn lemma_decimal_value_grows(digits: Seq<char>, n: int)
    requires
        0 <= n <= digits.len(),
    ensures
        decimal_value(digits.take(n)) <= decimal_value(digits),
    decreases digits.len(),
{
    if n == digits.len() {
        assert(digits.take(n) =~= digits);
    } else {
        lemma_decimal_value_grows(digits.drop_last(), n);
        assert(digits.drop_last().take(n) =~= digits.take(n));
    }
}

/// Reads a configured token limit. A text that is no number in range counts as 0.
pub fn parse_token_limit(raw: &str) -> (limit: u32)
    ensures
        limit == token_limit_of(raw@),
{
    let ghost digits = unsigned_part(raw@);
    let ghost skip: int = raw@.len() - digits.len();
    let length: usize = raw.unicode_len();
    let mut value: u32 = 0;
    let mut seen: usize = 0;
    let mut first: bool = true;
    let mut valid: bool = true;
    for c in it: raw.chars()
        invariant
            it.seq() == raw@,
            length == raw@.len(),
            digits == unsigned_part(raw@),
            skip == raw@.len() - digits.len(),
            first == (it.index() == 0),
            seen as int == (if it.index() < skip { 0 } else { it.index() - skip }),
            valid ==> all_digits(digits.take(seen as int)) && value == decimal_value(
                digits.take(seen as int),
            ),
            !valid ==> token_limit_of(raw@) == 0,
    {
        if first && c == '+' {
            first = false;
        } else {
            first = false;
            if valid {
                let ghost before = digits.take(seen as int);
                let ghost after = digits.take(seen + 1);
                assert(c == digits[seen as int]);
                assert(after.drop_last() =~= before);
                assert(after.last() == c);
                if '0' <= c && c <= '9' {
                    let d: u64 = (c as u32 - '0' as u32) as u64;
                    let next: u64 = (value as u64) * 10 + d;
                    if next <= 0xffff_ffff {
                        value = next as u32;
                    } else {
                        proof {
                            lemma_decimal_value_grows(digits, seen + 1);
                        }
                        valid = false;
                    }
                } else {
                    valid = false;
                }
            }
            seen = seen + 1;
        }
    }
    proof {
        assert(digits.take(digits.len() as int) =~= digits);
    }
    if valid && seen > 0 {
        value
    } else {
        0
    }
}

/// The soft limit on the text sent to the model, in characters: twice the token
/// limit.
pub fn character_budget(token_limit: u32) -> (budget: usize)
    ensures
        budget == budget_of(token_limit),
{
    let doubled: u64 = 2 * (token_limit as u64);
    if doubled <= usize::MAX as u64 {
        doubled as usize
    } else {
        0
    }
}

/// How to reach the language model, every value resolved.
#[derive(Debug, PartialEq, Eq)]
pub struct ModelSettings {
    pub endpoint: String,
    pub model_name: String,
    pub token_limit: u32,
    pub api_key: String,
}

/// A configured text, or `default` where none is configured.
pub fn text_or(configured: Option<String>, default: &str) -> (text: String)
    ensures
        text@ == (match configured {
            Some(t) => t@,
            None => default@,
        }),
{
    match configured {
        Some(t) => t,
        None => String::from_str(default),
    }
}

impl ModelSettings {
    /// Resolves the settings from what the environment configures. Each value is
    /// optional: a missing endpoint, model or key is replaced by its default, a
    /// missing token limit by 16384, and a token limit that is no number by 0.
    pub fn resolve(
        endpoint: Option<String>,
        model_name: Option<String>,
        token_limit: Option<String>,
        api_key: Option<String>,
    ) -> (settings: ModelSettings)
        ensures
            settings.endpoint@ == (match endpoint {
                Some(t) => t@,
                None => DEFAULT_ENDPOINT@,
            }),
            settings.model_name@ == (match model_name {
                Some(t) => t@,
                None => DEFAULT_MODEL@,
            }),
            settings.token_limit == (match token_limit {
                Some(t) => token_limit_of(t@),
                None => DEFAULT_TOKEN_LIMIT,
            }),
            settings.api_key@ == (match api_key {
                Some(t) => t@,
                None => DEFAULT_API_KEY@,
            }),
    {
        let limit: u32 = match token_limit {
            Some(t) => parse_token_limit(t.as_str()),
            None => DEFAULT_TOKEN_LIMIT,
        };
        ModelSettings {
            endpoint: text_or(endpoint, DEFAULT_ENDPOINT),
            model_name: text_or(model_name, DEFAULT_MODEL),
            token_limit: limit,
            api_key: text_or(api_key, DEFAULT_API_KEY),
        }
    }
}

} // verus!
