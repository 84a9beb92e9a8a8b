use mnemonic_scan::error::{MnemonicFault, WalletError};
use mnemonic_scan::mnemonic::{
    accept, generate, is_whitespace, passphrase_or_empty, to_seed, validate, word_count_of, Language, WordCount,
};

const ABANDON: &str = "abandon abandon abandon abandon abandon abandon abandon abandon abandon abandon abandon about";

fn hex(bytes: &[u8]) -> String {
    let mut out = String::new();
    for b in bytes {
        out.push_str(&format!("{:02x}", b));
    }
    out
}

#[test]
fn validate_accepts_the_all_zero_vector() {
    let m = validate(ABANDON).unwrap();
    assert_eq!(m.as_str(), ABANDON);
    assert_eq!(m.word_count(), WordCount::Words12);
}

#[test]
fn validate_reports_each_fault() {
    assert_eq!(
        validate("abandon abandon").unwrap_err(),
        WalletError::InvalidMnemonic(MnemonicFault::WordCount)
    );
    let unknown = "abandon abandon abandon abandon abandon abandon abandon abandon abandon abandon abandon notaword";
    assert_eq!(
        validate(unknown).unwrap_err(),
        WalletError::InvalidMnemonic(MnemonicFault::UnknownWord)
    );
    let checksum = "abandon abandon abandon abandon abandon abandon abandon abandon abandon abandon abandon abandon";
    assert_eq!(
        validate(checksum).unwrap_err(),
        WalletError::InvalidMnemonic(MnemonicFault::Checksum)
    );
}

#[test]
fn seed_of_the_all_zero_vector() {
    let m = validate(ABANDON).unwrap();
    let seed = to_seed(&m, None);
    assert_eq!(
        hex(seed.as_bytes()),
        "5eb00bbddcf069084889a8ab9155568165f5c453ccb85e70811aaed6f6da5fc19a5ac40b389cd370d086206dec8aa6c43daea6690f20ad3d8d48b2d2ce9e38e4"
    );
    let again = to_seed(&m, Some(""));
    assert_eq!(seed, again);
    let salted = to_seed(&m, Some("TREZOR"));
    assert_eq!(
        hex(salted.as_bytes()),
        "c55257c360c07c72029aebc1b53c05ed0362ada38ead3e3e9efa3708e53495531f09a6987599d18264c1e1c92f2cf141630c7a3c4ab7c81b2f001698e7463b04"
    );
}

#[test]
fn generate_round_trips_for_every_word_count() {
    let counts = [
        (WordCount::Words12, 12),
        (WordCount::Words15, 15),
        (WordCount::Words18, 18),
        (WordCount::Words21, 21),
        (WordCount::Words24, 24),
    ];
    for (count, n) in counts {
        let m = generate(Some(count), None).unwrap();
        assert_eq!(word_count_of(m.as_str()), n);
        assert_eq!(m.word_count(), count);
        let again = validate(m.as_str()).unwrap();
        assert_eq!(again, m);
    }
    let default = generate(None, None).unwrap();
    assert_eq!(default.word_count(), WordCount::Words12);
}

#[test]
fn words_are_runs_between_spaces() {
    assert_eq!(word_count_of(""), 0);
    assert_eq!(word_count_of("   "), 0);
    assert_eq!(word_count_of("one"), 1);
    assert_eq!(word_count_of("  one\ttwo \n three  "), 3);
    assert_eq!(word_count_of("one\u{3000}two"), 2);
}

#[test]
fn spaces_are_the_characters_with_the_white_space_property() {
    for u in 0..=0x10ffffu32 {
        if let Some(c) = char::from_u32(u) {
            assert_eq!(is_whitespace(c), c.is_whitespace(), "{:x}", u);
        }
    }
}

#[test]
fn a_generated_phrase_must_have_the_right_length() {
    assert_eq!(accept(ABANDON.to_string(), WordCount::Words12).unwrap().as_str(), ABANDON);
    assert_eq!(
        accept(ABANDON.to_string(), WordCount::Words24).unwrap_err(),
        WalletError::InvalidMnemonic(MnemonicFault::WordCount)
    );
    assert_eq!(
        accept("abandon".to_string(), WordCount::Words12).unwrap_err(),
        WalletError::InvalidMnemonic(MnemonicFault::WordCount)
    );
    let checksum = "abandon abandon abandon abandon abandon abandon abandon abandon abandon abandon abandon abandon";
    assert_eq!(
        accept(checksum.to_string(), WordCount::Words12).unwrap_err(),
        WalletError::InvalidMnemonic(MnemonicFault::Checksum)
    );
}

#[test]
fn english_is_the_default_language() {
    let m = generate(Some(WordCount::Words15), Some(Language::English)).unwrap();
    assert_eq!(m.word_count(), WordCount::Words15);
    assert!(m.as_str().chars().all(|c| c == ' ' || c.is_ascii_lowercase()));
    assert_eq!(m.duplicate(), m);
}

#[test]
fn separators_may_be_any_white_space() {
    let spaced = ABANDON.replace(' ', "  \t");
    let m = validate(&spaced).unwrap();
    assert_eq!(m.word_count(), WordCount::Words12);
    assert_eq!(to_seed(&m, None), to_seed(&validate(ABANDON).unwrap(), None));
}

#[test]
fn word_counts_and_entropy() {
    let all = [
        (WordCount::Words12, 12, 128),
        (WordCount::Words15, 15, 160),
        (WordCount::Words18, 18, 192),
        (WordCount::Words21, 21, 224),
        (WordCount::Words24, 24, 256),
    ];
    for (count, words, bits) in all {
        assert_eq!(count.value(), words);
        assert_eq!(count.bits(), bits);
        assert_eq!(WordCount::from_count(words), Some(count));
    }
    for n in [0, 1, 11, 13, 14, 16, 20, 23, 25, 27, 48, usize::MAX] {
        assert_eq!(WordCount::from_count(n), None);
    }
    assert_eq!(passphrase_or_empty(None), "");
    assert_eq!(passphrase_or_empty(Some("x")), "x");
}
