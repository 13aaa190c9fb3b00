//! Seeds: the root value of a reproducible generation run, and how one is
//! derived from the reason text of a vote.

use crate::random::Random;
use crate::text::{chars_of, decimal, decimal_text, digit_value, is_digit, is_digit_char, same_text};
use vstd::prelude::*;
use vstd::string::*;
use vstd::utf8::*;

verus! {

/// The SeaHash digest of a byte string, with the hash's default key.
pub uninterp spec fn seahash(bytes: Seq<u8>) -> u64;

/// Hashes `bytes` with `seahash::hash`. The digest depends on the bytes
/// alone: the function is documented as stable and portable.
#[verifier::external_body]
fn seahash_of(bytes: &[u8]) -> (digest: u64)
    ensures
        digest == seahash(bytes@),
{
    seahash::hash(bytes)
}

/// What the standard library's `Debug` writes for a string: the text in
/// double quotes, with its escapes.
pub uninterp spec fn debug_quoted(text: Seq<char>) -> Seq<char>;

/// Formats `text` with `{:?}`.
#[verifier::external_body]
pub(crate) fn quoted(text: &str) -> (q: String)
    ensures
        q@ == debug_quoted(text@),
{
    format!("{:?}", text)
}

/// The numeric value that stands for a textual seed: the digest of its
/// UTF-8 encoding.
pub open spec fn text_hash(text: Seq<char>) -> u64 {
    seahash(encode_utf8(text))
}

/// Every character is an ASCII digit.
pub open spec fn all_digits(s: Seq<char>) -> bool {
    forall|i: int| 0 <= i < s.len() ==> is_digit(#[trigger] s[i])
}

/// The number that a string of digits spells in base ten.
pub open spec fn digits_value(s: Seq<char>) -> nat
    decreases s.len(),
{
    if s.len() == 0 {
        0
    } else {
        (digits_value(s.drop_last()) * 10 + digit_value(s.last())) as nat
    }
}

/// The digits of a numeral: the text without one leading plus sign.
pub open spec fn numeral_digits(s: Seq<char>) -> Seq<char> {
    if s.len() > 0 && s[0] == '+' {
        s.subrange(1, s.len() as int)
    } else {
        s
    }
}

/// The unsigned 64-bit number that a text spells, if it spells one: an
/// optional plus sign, then one or more ASCII digits whose value fits.
pub open spec fn parsed_u64(s: Seq<char>) -> Option<u64> {
    let d = numeral_digits(s);
    if d.len() > 0 && all_digits(d) && digits_value(d) <= u64::MAX {
        Some(digits_value(d) as u64)
    } else {
        None
    }
}

/// A prefix of a digit string spells no more than the whole string.
pub proof fn lemma_prefix_value(s: Seq<char>, k: int)
    requires
        all_digits(s),
        0 <= k <= s.len(),
    ensures
        digits_value(s.take(k)) <= digits_value(s),
    decreases s.len(),
{
    if k == s.len() {
        assert(s.take(k) == s);
    } else {
        let shorter = s.drop_last();
        assert(shorter.take(k) == s.take(k));
        assert(all_digits(shorter)) by {
            assert forall|i: int| 0 <= i < shorter.len() implies is_digit(
                #[trigger] shorter[i],
            ) by {
                assert(shorter[i] == s[i]);
            }
        }
        lemma_prefix_value(shorter, k);
        assert(is_digit(s[s.len() - 1]));
    }
}

/// Reads an unsigned 64-bit decimal numeral.
pub fn parse_u64(text: &[char]) -> (r: Option<u64>)
    ensures
        r == parsed_u64(text@),
{
    let start: usize = if text.len() > 0 && text[0] == '+' {
        1
    } else {
        0
    };
    let ghost d = numeral_digits(text@);
    assert(d == text@.subrange(start as int, text@.len() as int));
    if start == text.len() {
        return None;
    }
    let mut value: u64 = 0;
    let mut i: usize = start;
    while i < text.len()
        invariant
            start <= i <= text.len(),
            d == numeral_digits(text@),
            d == text@.subrange(start as int, text@.len() as int),
            all_digits(d.take(i - start)),
            value == digits_value(d.take(i - start)),
        decreases text.len() - i,
    {
        let c: char = text[i];
        let ghost longer = d.take(i - start + 1);
        proof {
            assert(longer.drop_last() == d.take(i - start));
            assert(longer.last() == c);
        }
        if !is_digit_char(c) {
            assert(!is_digit(d[i - start]));
            return None;
        }
        assert(all_digits(longer)) by {
            assert forall|j: int| 0 <= j < longer.len() implies is_digit(#[trigger] longer[j]) by {
                if j < i - start {
                    assert(longer[j] == d.take(i - start)[j]);
                }
            }
        }
        let digit: u64 = (c as u32 - '0' as u32) as u64;
        let next: Option<u64> = match value.checked_mul(10) {
            Some(tens) => tens.checked_add(digit),
            None => None,
        };
        match next {
            Some(n) => {
                value = n;
            },
            None => {
                proof {
                    assert(digits_value(longer) > u64::MAX);
                    if all_digits(d) {
                        lemma_prefix_value(d, i - start + 1);
                    }
                }
                return None;
            },
        }
        i = i + 1;
    }
    assert(d.take(i - start) == d);
    Some(value)
}

/// The mathematical content of a [`Seed`].
pub struct SeedView {
    pub number: u64,
    pub text: Seq<char>,
}

/// Identity of a deterministic generation run: a number, and the text it
/// was hashed from where there was one.
#[derive(Debug, Clone)]
pub struct Seed {
    pub seed_u64: u64,
    pub seed_str: String,
}

impl View for Seed {
    type V = SeedView;

    open spec fn view(&self) -> SeedView {
        SeedView { number: self.seed_u64, text: self.seed_str@ }
    }
}

/// The reason text that asks for a seed from fresh entropy.
pub open spec fn no_reason() -> Seq<char> {
    "No reason given"@
}

/// The seed that a vote's reason text stands for; `entropy` is used where
/// the reason names none.
pub open spec fn seed_of_reason(reason: Seq<char>, entropy: u64) -> SeedView {
    if reason == no_reason() {
        SeedView { number: entropy, text: Seq::empty() }
    } else {
        match parsed_u64(reason) {
            Some(n) => SeedView { number: n, text: Seq::empty() },
            None => SeedView { number: text_hash(reason), text: reason },
        }
    }
}

/// The seed of the attempt that follows a failed one with seed `s`.
pub open spec fn next_seed(s: SeedView) -> SeedView {
    SeedView {
        number: if s.number == u64::MAX {
            0
        } else {
            (s.number + 1) as u64
        },
        text: Seq::empty(),
    }
}

/// How a seed is shown in console messages.
pub open spec fn seed_text(s: SeedView) -> Seq<char> {
    "Seed { seed_u64: "@ + decimal(s.number as nat) + ", seed_str: "@ + debug_quoted(s.text)
        + " }"@
}

/// The number of a textual seed depends on the text alone: two seeds made
/// from the same text have the same number, and keep that text.
pub proof fn lemma_from_string_deterministic(a: Seed, b: Seed, text: Seq<char>)
    requires
        a@ == (SeedView { number: text_hash(text), text }),
        b@ == (SeedView { number: text_hash(text), text }),
    ensures
        a.seed_u64 == b.seed_u64,
        a@ == b@,
{
}

/// A reason that names a seed fixes it: the entropy at hand plays no part.
pub proof fn lemma_named_seed_ignores_entropy(reason: Seq<char>, e1: u64, e2: u64)
    requires
        reason != no_reason(),
    ensures
        seed_of_reason(reason, e1) == seed_of_reason(reason, e2),
{
}

impl Seed {
    /// The text, where there is one, hashes to the number.
    pub open spec fn wf(&self) -> bool {
        self.seed_str@.len() > 0 ==> self.seed_u64 == text_hash(self.seed_str@)
    }

    /// A purely numeric seed.
    pub fn from_u64(seed_u64: u64) -> (seed: Seed)
        ensures
            seed@ == (SeedView { number: seed_u64, text: Seq::empty() }),
            seed.wf(),
    {
        Seed { seed_u64, seed_str: String::new() }
    }

    /// A seed from a text: the number is the text's hash, and the text is kept.
    pub fn from_string(seed_str: &String) -> (seed: Seed)
        ensures
            seed@ == (SeedView { number: text_hash(seed_str@), text: seed_str@ }),
            seed.wf(),
    {
        Seed { seed_u64: Seed::str_to_u64(seed_str), seed_str: seed_str.clone() }
    }

    /// A numeric seed drawn from a running engine: its next word.
    pub fn from_random(rnd: &mut Random) -> (seed: Seed)
        ensures
            seed@ == (SeedView { number: old(rnd).words()[0], text: Seq::empty() }),
            seed.wf(),
            final(rnd)@ == crate::random::call_rest(old(rnd)@, crate::random::Call::RandomU64),
            final(rnd).origin() == old(rnd).origin(),
    {
        Seed::from_u64(rnd.random_u64())
    }

    /// A numeric seed from fresh entropy. Nothing is known of the number.
    pub fn random() -> (seed: Seed)
        ensures
            seed.seed_str@ == Seq::<char>::empty(),
            seed.wf(),
    {
        Seed::from_u64(Random::get_random_u64())
    }

    /// The hash that stands for a textual seed.
    pub fn str_to_u64(seed_str: &String) -> (h: u64)
        ensures
            h == text_hash(seed_str@),
    {
        seahash_of(seed_str.as_str().as_bytes())
    }

    /// The seed that a vote's reason stands for, given the number to use
    /// where the reason names none.
    pub fn from_reason_with(reason: &String, entropy: u64) -> (seed: Seed)
        ensures
            seed@ == seed_of_reason(reason@, entropy),
            seed.wf(),
    {
        let chars = chars_of(reason.as_str());
        let none = chars_of("No reason given");
        if same_text(&chars, &none) {
            Seed::from_u64(entropy)
        } else {
            match parse_u64(&chars) {
                Some(n) => Seed::from_u64(n),
                None => Seed::from_string(reason),
            }
        }
    }

    /// The seed that a vote's reason stands for. Entropy is drawn only where
    /// the reason names no seed; every other reason fixes the seed.
    pub fn from_reason(reason: &String) -> (seed: Seed)
        ensures
            exists|entropy: u64| seed@ == seed_of_reason(reason@, entropy),
            reason@ != no_reason() ==> seed@ == seed_of_reason(reason@, 0),
            seed.wf(),
    {
        let chars = chars_of(reason.as_str());
        let none = chars_of("No reason given");
        let entropy: u64 = if same_text(&chars, &none) {
            Random::get_random_u64()
        } else {
            0
        };
        let seed = Seed::from_reason_with(reason, entropy);
        assert(seed@ == seed_of_reason(reason@, entropy));
        seed
    }

    /// The seed of the next attempt after a failure: the number plus one,
    /// wrapping, and no text.
    pub fn next_attempt(&self) -> (seed: Seed)
        ensures
            seed@ == next_seed(self@),
            seed.wf(),
    {
        Seed::from_u64(self.seed_u64.wrapping_add(1))
    }

    /// A copy of the seed.
    pub fn duplicate(&self) -> (seed: Seed)
        ensures
            seed@ == self@,
    {
        Seed { seed_u64: self.seed_u64, seed_str: self.seed_str.clone() }
    }

    /// The seed as console messages show it.
    pub fn to_text(&self) -> (s: String)
        ensures
            s@ == seed_text(self@),
    {
        let mut s = String::from_str("Seed { seed_u64: ");
        s.append(decimal_text(self.seed_u64).as_str());
        s.append(", seed_str: ");
        s.append(quoted(self.seed_str.as_str()).as_str());
        s.append(" }");
        s
    }
}

} // verus!
