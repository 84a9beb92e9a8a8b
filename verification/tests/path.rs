use mnemonic_scan::error::WalletError;
use mnemonic_scan::path::{parse, parse_step, DerivationPath, PathStep, HARDENED_OFFSET};

fn step(index: u32, hardened: bool) -> PathStep {
    PathStep { index, hardened }
}

#[test]
fn parses_a_full_path() {
    let path = parse("m/44'/0'/0'/0/0").unwrap();
    assert_eq!(
        path.steps,
        vec![step(44, true), step(0, true), step(0, true), step(0, false), step(0, false)]
    );
    assert_eq!(path.len(), 5);
}

#[test]
fn parses_an_account_prefix() {
    let path = parse("m/84'/1'/7'").unwrap();
    assert_eq!(path.steps, vec![step(84, true), step(1, true), step(7, true)]);
}

#[test]
fn the_leading_m_is_optional() {
    assert_eq!(parse("86'/0'/0'/1/5").unwrap(), parse("m/86'/0'/0'/1/5").unwrap());
    assert_eq!(parse("0").unwrap().steps, vec![step(0, false)]);
}

#[test]
fn m_alone_is_the_master_path() {
    assert_eq!(parse("m").unwrap(), DerivationPath::master());
    assert_eq!(parse("m").unwrap().len(), 0);
}

#[test]
fn leading_zeros_do_not_change_the_index() {
    assert_eq!(parse("m/007/0000000000000000000012'").unwrap().steps, vec![step(7, false), step(12, true)]);
}

#[test]
fn the_largest_index_is_accepted() {
    assert_eq!(parse("m/2147483647'").unwrap().steps, vec![step(2147483647, true)]);
    assert_eq!(parse("m/2147483647").unwrap().steps, vec![step(2147483647, false)]);
}

#[test]
fn rejects_malformed_paths() {
    let bad = [
        "",
        "m/",
        "/",
        "/0",
        "m//0",
        "m/0/",
        "m/a",
        "m/1x",
        "m/'",
        "m/1''",
        "m/-1",
        "m/+1",
        "m/1 ",
        " m/1",
        "M/1",
        "n/1",
        "m/1h",
        "m/m",
        "0/m",
        "m/2147483648",
        "m/2147483648'",
        "m/4294967296",
        "m/99999999999999999999999999",
        "m/0x10",
        "m/١",
    ];
    for text in bad {
        assert_eq!(parse(text), Err(WalletError::MalformedPath), "{:?}", text);
    }
}

#[test]
fn renders_with_the_leading_m() {
    let path = DerivationPath { steps: vec![step(49, true), step(1, true), step(0, true), step(1, false), step(1234567890, false)] };
    assert_eq!(path.render(), "m/49'/1'/0'/1/1234567890");
    assert_eq!(DerivationPath::master().render(), "m");
    assert_eq!(DerivationPath { steps: vec![step(0, false)] }.render(), "m/0");
    assert_eq!(DerivationPath { steps: vec![step(10, true)] }.render(), "m/10'");
}

#[test]
fn a_rendered_path_parses_to_itself() {
    let paths = [
        vec![],
        vec![step(0, false)],
        vec![step(0, true)],
        vec![step(2147483647, true), step(2147483647, false)],
        vec![step(44, true), step(0, true), step(0, true), step(0, false), step(0, false)],
        vec![step(9, false), step(10, false), step(99, true), step(100, true), step(101, false), step(1000000000, true)],
    ];
    for steps in paths {
        let path = DerivationPath { steps };
        assert!(path.is_wf());
        assert_eq!(parse(&path.render()).unwrap(), path);
    }
}

#[test]
fn child_appends_a_step() {
    let account = parse("m/84'/0'/0'").unwrap();
    let leaf = account.child(step(1, false)).child(step(42, false));
    assert_eq!(leaf.render(), "m/84'/0'/0'/1/42");
    assert_eq!(account.render(), "m/84'/0'/0'");
    assert_eq!(account.duplicate(), account);
}

#[test]
fn steps_know_their_child_numbers() {
    assert_eq!(PathStep::new(5, false), Ok(step(5, false)));
    assert_eq!(PathStep::new(5, true), Ok(step(5, true)));
    assert_eq!(PathStep::new(HARDENED_OFFSET, false), Err(WalletError::IndexOutOfRange));
    assert_eq!(PathStep::new(u32::MAX, true), Err(WalletError::IndexOutOfRange));
    assert_eq!(step(5, false).number(), Some(5));
    assert_eq!(step(5, true).number(), Some(0x8000_0005));
    assert_eq!(step(0x7fff_ffff, true).number(), Some(0xffff_ffff));
    assert_eq!(step(HARDENED_OFFSET, false).number(), None);
    assert!(!DerivationPath { steps: vec![step(1, false), step(HARDENED_OFFSET, false)] }.is_wf());
}

#[test]
fn fields_are_steps_or_nothing() {
    let chars = |s: &str| s.chars().collect::<Vec<char>>();
    assert_eq!(parse_step(&chars("0")), Some(step(0, false)));
    assert_eq!(parse_step(&chars("17'")), Some(step(17, true)));
    assert_eq!(parse_step(&chars("")), None);
    assert_eq!(parse_step(&chars("'")), None);
    assert_eq!(parse_step(&chars("1'2")), None);
    assert_eq!(parse_step(&chars("2147483648")), None);
}
