//! Mnemonic phrases and the seeds made from them.

use crate::error::{MnemonicFault, WalletError};
use crate::outside::{check_phrase, generate_phrase, phrase_fault, seed_bytes, stretch_phrase};
use crate::text::chars_of;
use vstd::pervasive::unreached;
use vstd::prelude::*;

verus! {

/// The five lengths that a mnemonic can have.
#[derive(Clone, Copy, Debug, PartialEq, Eq, Structural)]
pub enum WordCount {
    Words12,
    Words15,
    Words18,
    Words21,
    Words24,
}

/// The word lists that this library can draw a mnemonic from.
#[derive(Clone, Copy, Debug, PartialEq, Eq, Structural)]
pub enum Language {
    English,
}

impl WordCount {
    /// The number of words.
    pub open spec fn words(self) -> nat {
        match self {
            WordCount::Words12 => 12,
            WordCount::Words15 => 15,
            WordCount::Words18 => 18,
            WordCount::Words21 => 21,
            WordCount::Words24 => 24,
        }
    }

    /// The bits of entropy that the words encode: 32 for every three words.
    pub open spec fn entropy_bits(self) -> nat {
        self.words() / 3 * 32
    }

    /// The length with a given number of words, if there is one.
    pub open spec fn of_words(n: nat) -> Option<WordCount> {
        if n == 12 {
            Some(WordCount::Words12)
        } else if n == 15 {
            Some(WordCount::Words15)
        } else if n == 18 {
            Some(WordCount::Words18)
        } else if n == 21 {
            Some(WordCount::Words21)
        } else if n == 24 {
            Some(WordCount::Words24)
        } else {
            None
        }
    }

    /// The number of words.
    pub fn value(&self) -> (r: usize)
        ensures
            r == self.words(),
            WordCount::of_words(r as nat) == Some(*self),
    {
        match self {
            WordCount::Words12 => 12,
            WordCount::Words15 => 15,
            WordCount::Words18 => 18,
            WordCount::Words21 => 21,
            WordCount::Words24 => 24,
        }
    }

    /// The bits of entropy that the words encode.
    pub fn bits(&self) -> (r: usize)
        ensures
            r == self.entropy_bits(),
    {
        self.value() / 3 * 32
    }

    /// The length with a given number of words, if there is one.
    pub fn from_count(n: usize) -> (r: Option<WordCount>)
        ensures
            r == WordCount::of_words(n as nat),
    {
        if n == 12 {
            Some(WordCount::Words12)
        } else if n == 15 {
            Some(WordCount::Words15)
        } else if n == 18 {
            Some(WordCount::Words18)
        } else if n == 21 {
            Some(WordCount::Words21)
        } else if n == 24 {
            Some(WordCount::Words24)
        } else {
            None
        }
    }
}

/// Whether a character separates words: the characters with the Unicode
/// property White_Space.
pub open spec fn is_space(c: char) -> bool {
    let u = c as u32;
    ||| 0x09 <= u <= 0x0D
    ||| u == 0x20
    ||| u == 0x85
    ||| u == 0xA0
    ||| u == 0x1680
    ||| 0x2000 <= u <= 0x200A
    ||| u == 0x2028
    ||| u == 0x2029
    ||| u == 0x202F
    ||| u == 0x205F
    ||| u == 0x3000
}

/// Whether a word begins at a position: the character there is no space,
/// and it is the first or follows a space.
pub open spec fn starts_word(text: Seq<char>, i: int) -> bool {
    !is_space(text[i]) && (i == 0 || is_space(text[i - 1]))
}

/// The number of words in a text: the runs of characters that are not spaces.
pub open spec fn count_words(text: Seq<char>) -> nat
    decreases text.len(),
{
    if text.len() == 0 {
        0
    } else {
        count_words(text.drop_last()) + if starts_word(text, text.len() - 1) {
            1nat
        } else {
            0nat
        }
    }
}

/// What makes a phrase a mnemonic: a supported number of words, and nothing
/// for the BIP39 decoder to object to.
pub open spec fn valid_phrase(phrase: Seq<char>) -> bool {
    WordCount::of_words(count_words(phrase)) is Some && phrase_fault(phrase) is None
}

/// The outcome of [`validate`]: the phrase itself, or the first defect.
pub open spec fn validate_spec(words: Seq<char>) -> Result<Seq<char>, WalletError> {
    if WordCount::of_words(count_words(words)) is None {
        Err(WalletError::InvalidMnemonic(MnemonicFault::WordCount))
    } else {
        match phrase_fault(words) {
            Some(fault) => Err(WalletError::InvalidMnemonic(fault)),
            None => Ok(words),
        }
    }
}

/// The outcome of [`accept`]: as [`validate_spec`], and the phrase must have
/// the number of words that was asked for.
pub open spec fn accept_spec(phrase: Seq<char>, expected: WordCount) -> Result<
    Seq<char>,
    WalletError,
> {
    match validate_spec(phrase) {
        Err(e) => Err(e),
        Ok(p) => if count_words(p) == expected.words() {
            Ok(p)
        } else {
            Err(WalletError::InvalidMnemonic(MnemonicFault::WordCount))
        },
    }
}

/// The length that [`generate`] uses: the one asked for, else 12 words.
pub open spec fn requested_words(word_count: Option<WordCount>) -> WordCount {
    match word_count {
        Some(w) => w,
        None => WordCount::Words12,
    }
}

/// The passphrase that is used where none is given: the empty one.
pub open spec fn passphrase_text(passphrase: Option<&str>) -> Seq<char> {
    match passphrase {
        Some(text) => text@,
        None => Seq::<char>::empty(),
    }
}

/// A mnemonic phrase that has passed [`validate`]. It cannot be changed.
#[derive(Debug, PartialEq, Eq)]
pub struct Mnemonic {
    phrase: String,
    words: WordCount,
}

/// A seed of 512 bits.
#[derive(Debug, PartialEq, Eq)]
pub struct Seed {
    bytes: Vec<u8>,
}

impl View for Mnemonic {
    type V = Seq<char>;

    closed spec fn view(&self) -> Seq<char> {
        self.phrase@
    }
}

impl View for Seed {
    type V = Seq<u8>;

    closed spec fn view(&self) -> Seq<u8> {
        self.bytes@
    }
}

impl Mnemonic {
    #[verifier::type_invariant]
    spec fn inv(self) -> bool {
        valid_phrase(self.phrase@) && self.words.words() == count_words(self.phrase@)
    }

    /// The phrase, which is valid.
    pub fn as_str(&self) -> (r: &str)
        ensures
            r@ == self@,
            valid_phrase(r@),
    {
        proof {
            use_type_invariant(self);
        }
        self.phrase.as_str()
    }

    /// The number of words.
    pub fn word_count(&self) -> (r: WordCount)
        ensures
            r.words() == count_words(self@),
    {
        proof {
            use_type_invariant(self);
        }
        self.words
    }

    /// The same mnemonic, as a value of its own.
    pub fn duplicate(&self) -> (r: Mnemonic)
        ensures
            r@ == self@,
    {
        proof {
            use_type_invariant(self);
        }
        Mnemonic { phrase: self.phrase.clone(), words: self.words }
    }
}

impl Seed {
    #[verifier::type_invariant]
    spec fn inv(self) -> bool {
        self.bytes@.len() == 64
    }

    /// A seed from 64 bytes; `None` for any other number.
    pub fn from_bytes(bytes: Vec<u8>) -> (r: Option<Seed>)
        ensures
            bytes@.len() == 64 ==> r is Some && r.unwrap()@ == bytes@,
            bytes@.len() != 64 ==> r is None,
    {
        if bytes.len() == 64 {
            Some(Seed { bytes })
        } else {
            None
        }
    }

    /// The 64 bytes.
    pub fn as_bytes(&self) -> (r: &Vec<u8>)
        ensures
            r@ == self@,
            r@.len() == 64,
    {
        proof {
            use_type_invariant(self);
        }
        &self.bytes
    }
}

/// Whether a character separates words.
pub fn is_whitespace(c: char) -> (r: bool)
    ensures
        r == is_space(c),
{
    let u = c as u32;
    (0x09 <= u && u <= 0x0D) || u == 0x20 || u == 0x85 || u == 0xA0 || u == 0x1680 || (0x2000
        <= u && u <= 0x200A) || u == 0x2028 || u == 0x2029 || u == 0x202F || u == 0x205F || u
        == 0x3000
}

/// Counts the words of a text.
pub fn word_count_of(text: &str) -> (r: usize)
    ensures
        r == count_words(text@),
{
    let chars = chars_of(text);
    let mut count: usize = 0;
    let mut in_word = false;
    let mut i: usize = 0;
    while i < chars.len()
        invariant
            i <= chars.len(),
            count <= i,
            count == count_words(chars@.take(i as int)),
            in_word == (i > 0 && !is_space(chars@[i - 1])),
        decreases chars.len() - i,
    {
        let space = is_whitespace(chars[i]);
        proof {
            assert(chars@.take(i + 1).drop_last() =~= chars@.take(i as int));
        }
        if !space && !in_word {
            count += 1;
        }
        in_word = !space;
        i += 1;
    }
    proof {
        assert(chars@.take(i as int) =~= chars@);
    }
    count
}

/// The number of words of a phrase that is a mnemonic, or what is wrong
/// with it: first the number of words, then what the decoder objects to.
fn inspect(words: &str) -> (r: Result<WordCount, WalletError>)
    ensures
        match r {
            Ok(count) => validate_spec(words@) == Ok::<Seq<char>, WalletError>(words@)
                && count.words() == count_words(words@),
            Err(e) => validate_spec(words@) == Err::<Seq<char>, WalletError>(e),
        },
{
    match WordCount::from_count(word_count_of(words)) {
        None => Err(WalletError::InvalidMnemonic(MnemonicFault::WordCount)),
        Some(count) => match check_phrase(words) {
            Some(fault) => Err(WalletError::InvalidMnemonic(fault)),
            None => Ok(count),
        },
    }
}

/// Checks a phrase that a caller hands in. It must have 12, 15, 18, 21 or 24
/// words, every word must be in the word list, and the checksum must match.
pub fn validate(words: &str) -> (r: Result<Mnemonic, WalletError>)
    ensures
        match r {
            Ok(m) => validate_spec(words@) == Ok::<Seq<char>, WalletError>(m@),
            Err(e) => validate_spec(words@) == Err::<Seq<char>, WalletError>(e),
        },
{
    match inspect(words) {
        Err(e) => Err(e),
        Ok(count) => Ok(Mnemonic { phrase: String::from_str(words), words: count }),
    }
}

/// Takes a phrase that was generated for a given number of words. It must
/// pass [`validate`] and have that number of words.
pub fn accept(phrase: String, expected: WordCount) -> (r: Result<Mnemonic, WalletError>)
    ensures
        match r {
            Ok(m) => accept_spec(phrase@, expected) == Ok::<Seq<char>, WalletError>(m@),
            Err(e) => accept_spec(phrase@, expected) == Err::<Seq<char>, WalletError>(e),
        },
{
    match inspect(phrase.as_str()) {
        Err(e) => Err(e),
        Ok(count) => if count.value() == expected.value() {
            Ok(Mnemonic { phrase, words: count })
        } else {
            Err(WalletError::InvalidMnemonic(MnemonicFault::WordCount))
        },
    }
}

/// Generates a mnemonic from fresh entropy: 12 English words unless told
/// otherwise. Whatever the generator hands back is checked with [`accept`],
/// so a mnemonic that is returned passes [`validate`] and has the number of
/// words that was asked for.
pub fn generate(word_count: Option<WordCount>, language: Option<Language>) -> (r: Result<
    Mnemonic,
    WalletError,
>)
    ensures
        r matches Ok(m) ==> {
            &&& validate_spec(m@) == Ok::<Seq<char>, WalletError>(m@)
            &&& count_words(m@) == requested_words(word_count).words()
        },
        r matches Err(e) ==> e is InvalidMnemonic,
{
    let words = match word_count {
        Some(w) => w,
        None => WordCount::Words12,
    };
    let list = match language {
        Some(l) => l,
        None => Language::English,
    };
    match generate_phrase(words, list) {
        Some(phrase) => accept(phrase, words),
        None => Err(WalletError::InvalidMnemonic(MnemonicFault::Other)),
    }
}

/// The passphrase to use: the one given, or the empty one.
pub fn passphrase_or_empty<'a>(passphrase: Option<&'a str>) -> (r: &'a str)
    ensures
        r@ == passphrase_text(passphrase),
{
    match passphrase {
        Some(text) => text,
        None => {
            proof {
                reveal_strlit("");
            }
            ""
        },
    }
}

/// Stretches a mnemonic and a passphrase into a seed. The same mnemonic and
/// passphrase always give the same seed; no passphrase means the empty one.
pub fn to_seed(mnemonic: &Mnemonic, passphrase: Option<&str>) -> (r: Seed)
    ensures
        r@ == seed_bytes(mnemonic@, passphrase_text(passphrase)),
        r@.len() == 64,
{
    match stretch_phrase(mnemonic.as_str(), passphrase_or_empty(passphrase)) {
        Some(bytes) => Seed { bytes },
        None => unreached(),
    }
}

/// A phrase that [`accept`] takes, and so every mnemonic that [`generate`]
/// returns, passes [`validate`] unchanged and has the number of words that
/// was asked for.
pub proof fn lemma_accepted_validates(phrase: Seq<char>, expected: WordCount)
    requires
        accept_spec(phrase, expected) is Ok,
    ensures
        accept_spec(phrase, expected) == Ok::<Seq<char>, WalletError>(phrase),
        validate_spec(phrase) == Ok::<Seq<char>, WalletError>(phrase),
        count_words(phrase) == expected.words(),
        valid_phrase(phrase),
{
}

/// A phrase that passes for a mnemonic passes [`validate`] unchanged.
pub proof fn lemma_valid_phrase_validates(phrase: Seq<char>)
    ensures
        valid_phrase(phrase) <==> validate_spec(phrase) == Ok::<Seq<char>, WalletError>(phrase),
{
}

} // verus!
