use mnemonic_scan::address::derive_address;
use mnemonic_scan::error::{MnemonicFault, WalletError};
use mnemonic_scan::mnemonic::{validate, word_count_of, Mnemonic};
use mnemonic_scan::network::{Network, ScriptType};
use mnemonic_scan::scan::{
    derive_candidates, same_text, tally_of, verdict, Action, BalanceProbe, Candidate, Event, Scan, ScanStats, Verdict,
};

const ABANDON: &str = "abandon abandon abandon abandon abandon abandon abandon abandon abandon abandon abandon about";

const LEGAL: &str = "legal winner thank year wave sausage worth useful legal winner thank yellow";

fn abandon() -> Mnemonic {
    validate(ABANDON).unwrap()
}

fn zero(candidate: &Candidate) -> Event {
    Event::Answer(BalanceProbe::new(candidate.derived.address.clone(), 0, 0))
}

#[test]
fn a_scan_of_three_iterations_without_funds_counts_twelve() {
    let mut scan = Scan::new(3, Network::Mainnet);
    let mut event = Event::Continue;
    let mut begun = 0;
    let mut asked = 0;
    let stats = loop {
        let (next, outcome) = scan.step(event);
        scan = next;
        match outcome.unwrap() {
            Action::Begin { iteration, mnemonic } => {
                begun += 1;
                assert_eq!(iteration, begun);
                assert_eq!(word_count_of(&mnemonic), 12);
                assert!(validate(&mnemonic).is_ok());
                event = Event::Continue;
            }
            Action::Query { candidate } => {
                asked += 1;
                event = zero(&candidate);
            }
            Action::Finish { stats } => break stats,
        }
    };
    assert_eq!(begun, 3);
    assert_eq!(asked, 12);
    assert_eq!(stats, ScanStats { found: 0, not_found: 12, failed: 0 });
    assert_eq!(scan.stats(), stats);
    assert_eq!(stats.total(), Some(12));
}

#[test]
fn a_failed_lookup_does_not_disturb_the_others() {
    let scan = Scan::new(1, Network::Mainnet);
    let (scan, outcome) = scan.transition(Event::Continue, Ok(abandon()));
    assert_eq!(outcome, Ok(Action::Begin { iteration: 1, mnemonic: ABANDON.to_string() }));
    let (scan, outcome) = scan.transition(Event::Continue, Err(WalletError::InvalidMnemonic(MnemonicFault::Other)));
    let first = match outcome.unwrap() {
        Action::Query { candidate } => candidate,
        other => panic!("{:?}", other),
    };
    assert_eq!(first.derived.address, "1LqBGSKuX5yYUonjxT5qGfpUsXKYYWeabA");
    assert_eq!(first.wif, "L4p2b9VAf8k5aUahF1JCJUzZkgNEAqLfq8DDdQiyAprQAKSbu8hf");
    let (scan, outcome) = scan.transition(zero(&first), Ok(abandon()));
    let second = match outcome.unwrap() {
        Action::Query { candidate } => candidate,
        other => panic!("{:?}", other),
    };
    assert_eq!(second.derived.address, "37VucYSaXLCAsxYyAPfbSi9eh4iEcbShgf");
    let (scan, outcome) = scan.transition(Event::Answer(Err(WalletError::ProviderError)), Ok(abandon()));
    let third = match outcome.unwrap() {
        Action::Query { candidate } => candidate,
        other => panic!("{:?}", other),
    };
    assert_eq!(third.derived.address, "bc1qcr8te4kr609gcawutmrza0j4xv80jy8z306fyu");
    assert_eq!(third.wif, "KyZpNDKnfs94vbrwhJneDi77V6jF64PWPF8x5cdJb8ifgg2DUc9d");
    assert_eq!(scan.stats(), ScanStats { found: 0, not_found: 1, failed: 1 });
    let funded = Event::Answer(BalanceProbe::new(third.derived.address.clone(), 5000, 1000));
    let (scan, outcome) = scan.transition(funded, Ok(abandon()));
    let fourth = match outcome.unwrap() {
        Action::Query { candidate } => candidate,
        other => panic!("{:?}", other),
    };
    assert_eq!(fourth.derived.address, "bc1p5cyxnuxmeuwuvkwfem96lqzszd02n6xdcjrs20cac6yqjjwudpxqkedrcr");
    assert_eq!(fourth.derived.script_type, ScriptType::Taproot);
    let (scan, outcome) = scan.transition(zero(&fourth), Ok(abandon()));
    let stats = ScanStats { found: 1, not_found: 2, failed: 1 };
    assert_eq!(outcome, Ok(Action::Finish { stats }));
    assert_eq!(scan.stats(), stats);
    let (scan, outcome) = scan.transition(Event::Continue, Ok(abandon()));
    assert_eq!(outcome, Ok(Action::Finish { stats }));
    let (scan, outcome) = scan.step(zero(&fourth));
    assert_eq!(outcome, Ok(Action::Finish { stats }));
    assert_eq!(scan.stats(), stats);
}

#[test]
fn every_lookup_failing_still_finishes() {
    let mut scan = Scan::new(2, Network::Testnet);
    let mut event = Event::Continue;
    let stats = loop {
        let (next, outcome) = scan.step(event);
        scan = next;
        match outcome.unwrap() {
            Action::Begin { .. } => event = Event::Continue,
            Action::Query { candidate } => {
                assert_eq!(candidate.derived.network, Network::Testnet);
                event = Event::Answer(Err(WalletError::ProviderError));
            }
            Action::Finish { stats } => break stats,
        }
    };
    assert_eq!(stats, ScanStats { found: 0, not_found: 0, failed: 8 });
}

#[test]
fn a_scan_of_no_iterations_finishes_at_once() {
    let (scan, outcome) = Scan::new(0, Network::Mainnet).step(Event::Continue);
    assert_eq!(outcome, Ok(Action::Finish { stats: ScanStats { found: 0, not_found: 0, failed: 0 } }));
    assert_eq!(scan.stats().total(), Some(0));
}

#[test]
fn a_query_is_repeated_until_it_is_answered() {
    let scan = Scan::new(1, Network::Mainnet);
    let (scan, _) = scan.transition(Event::Continue, Ok(abandon()));
    let (scan, first) = scan.step(Event::Continue);
    let (scan, again) = scan.step(Event::Continue);
    assert_eq!(first, again);
    assert_eq!(scan.stats().total(), Some(0));
    assert!(!scan.needs_mnemonic(&Event::Continue));
}

#[test]
fn an_answer_that_was_not_asked_for_is_passed_over() {
    let scan = Scan::new(1, Network::Mainnet);
    let stray = Event::Answer(BalanceProbe::new("1LqBGSKuX5yYUonjxT5qGfpUsXKYYWeabA".to_string(), 9, 0));
    assert!(scan.needs_mnemonic(&stray));
    let (scan, outcome) = scan.transition(stray, Ok(abandon()));
    assert_eq!(outcome, Ok(Action::Begin { iteration: 1, mnemonic: ABANDON.to_string() }));
    assert_eq!(scan.stats(), ScanStats { found: 0, not_found: 0, failed: 0 });
    let stray = Event::Answer(BalanceProbe::new("1LqBGSKuX5yYUonjxT5qGfpUsXKYYWeabA".to_string(), 9, 0));
    let (scan, outcome) = scan.step(stray);
    assert!(matches!(outcome, Ok(Action::Query { .. })));
    assert_eq!(scan.stats(), ScanStats { found: 0, not_found: 0, failed: 0 });
}

#[test]
fn an_answer_for_another_address_counts_as_failed() {
    let scan = Scan::new(1, Network::Mainnet);
    let (scan, _) = scan.transition(Event::Continue, Ok(abandon()));
    let (scan, _) = scan.step(Event::Continue);
    let wrong = Event::Answer(BalanceProbe::new("bc1qcr8te4kr609gcawutmrza0j4xv80jy8z306fyu".to_string(), 10, 0));
    let (scan, _) = scan.step(wrong);
    assert_eq!(scan.stats(), ScanStats { found: 0, not_found: 0, failed: 1 });
}

#[test]
fn a_mnemonic_that_fails_leaves_the_scan_in_place() {
    let scan = Scan::new(2, Network::Mainnet);
    let fault = WalletError::InvalidMnemonic(MnemonicFault::Checksum);
    let (scan, outcome) = scan.transition(Event::Continue, Err(fault));
    assert_eq!(outcome, Err(fault));
    assert_eq!(scan.stats().total(), Some(0));
    assert!(scan.needs_mnemonic(&Event::Continue));
    let (_, outcome) = scan.transition(Event::Continue, Ok(validate(LEGAL).unwrap()));
    assert_eq!(outcome, Ok(Action::Begin { iteration: 1, mnemonic: LEGAL.to_string() }));
}

#[test]
fn each_iteration_uses_its_own_mnemonic() {
    let scan = Scan::new(2, Network::Mainnet);
    let (mut scan, _) = scan.transition(Event::Continue, Ok(abandon()));
    let mut event = Event::Continue;
    let mut seen = Vec::new();
    loop {
        let (next, outcome) = scan.transition(event, Ok(validate(LEGAL).unwrap()));
        scan = next;
        match outcome.unwrap() {
            Action::Begin { iteration, mnemonic } => {
                assert_eq!(iteration, 2);
                assert_eq!(mnemonic, LEGAL);
                event = Event::Continue;
            }
            Action::Query { candidate } => {
                event = zero(&candidate);
                seen.push(candidate.derived.address);
            }
            Action::Finish { stats } => {
                assert_eq!(stats, ScanStats { found: 0, not_found: 8, failed: 0 });
                break;
            }
        }
    }
    let legal = validate(LEGAL).unwrap();
    assert_eq!(seen.len(), 8);
    assert_eq!(seen[0], "1LqBGSKuX5yYUonjxT5qGfpUsXKYYWeabA");
    assert_eq!(seen[4], derive_address(&legal, "m/44'/0'/0'/0/0", Network::Mainnet, None).unwrap().address);
    assert_eq!(seen[7], derive_address(&legal, "m/86'/0'/0'/0/0", Network::Mainnet, None).unwrap().address);
}

#[test]
fn the_candidates_are_the_four_canonical_addresses() {
    let list = derive_candidates(&abandon(), Network::Mainnet).unwrap();
    let paths: Vec<String> = list.iter().map(|c| c.derived.path.render()).collect();
    assert_eq!(paths, ["m/44'/0'/0'/0/0", "m/49'/0'/0'/0/0", "m/84'/0'/0'/0/0", "m/86'/0'/0'/0/0"]);
    let types: Vec<ScriptType> = list.iter().map(|c| c.derived.script_type).collect();
    assert_eq!(types, [ScriptType::Legacy, ScriptType::NestedSegwit, ScriptType::NativeSegwit, ScriptType::Taproot]);
    assert_eq!(list[2].wif, "KyZpNDKnfs94vbrwhJneDi77V6jF64PWPF8x5cdJb8ifgg2DUc9d");
    assert_eq!(list[1].duplicate(), list[1]);
    let test = derive_candidates(&abandon(), Network::Testnet).unwrap();
    assert_eq!(test[3].derived.path.render(), "m/86'/1'/0'/0/0");
    assert_eq!(ScriptType::nth(0), Some(ScriptType::Legacy));
    assert_eq!(ScriptType::nth(3), Some(ScriptType::Taproot));
    assert_eq!(ScriptType::nth(4), None);
}

#[test]
fn a_probe_holds_what_is_left() {
    let probe = BalanceProbe::new("a".to_string(), 150, 50).unwrap();
    assert_eq!(probe.address(), "a");
    assert_eq!(probe.funded(), 150);
    assert_eq!(probe.spent(), 50);
    assert_eq!(probe.balance(), 100);
    assert!(probe.is_funded());
    let empty = BalanceProbe::new("a".to_string(), 7, 7).unwrap();
    assert_eq!(empty.balance(), 0);
    assert!(!empty.is_funded());
    let all = BalanceProbe::new("a".to_string(), u64::MAX, 0).unwrap();
    assert_eq!(all.balance(), u64::MAX);
    assert_eq!(BalanceProbe::new("a".to_string(), 1, 2), Err(WalletError::ProviderError));
    assert_eq!(BalanceProbe::new(String::new(), 0, u64::MAX), Err(WalletError::ProviderError));
}

#[test]
fn verdicts_go_by_the_balance() {
    assert_eq!(verdict("a", &BalanceProbe::new("a".to_string(), 1, 0)), Verdict::Found);
    assert_eq!(verdict("a", &BalanceProbe::new("a".to_string(), 1, 1)), Verdict::NotFound);
    assert_eq!(verdict("a", &BalanceProbe::new("a".to_string(), 0, 0)), Verdict::NotFound);
    assert_eq!(verdict("a", &BalanceProbe::new("b".to_string(), 1, 0)), Verdict::Failed);
    assert_eq!(verdict("a", &BalanceProbe::new("a".to_string(), 0, 1)), Verdict::Failed);
    assert_eq!(verdict("a", &Err(WalletError::ProviderError)), Verdict::Failed);
    assert_eq!(verdict("a", &Err(WalletError::InvalidAddress)), Verdict::Failed);
    assert!(same_text("", ""));
    assert!(same_text("abc", "abc"));
    assert!(!same_text("abc", "abd"));
    assert!(!same_text("abc", "ab"));
}

#[test]
fn a_tally_counts_each_verdict_once() {
    let (found, not_found, failed) = (Verdict::Found, Verdict::NotFound, Verdict::Failed);
    assert_eq!(tally_of(&vec![]), ScanStats { found: 0, not_found: 0, failed: 0 });
    assert_eq!(tally_of(&vec![found]), ScanStats { found: 1, not_found: 0, failed: 0 });
    let list = vec![not_found, failed, found, not_found, not_found, failed];
    assert_eq!(tally_of(&list), ScanStats { found: 1, not_found: 3, failed: 2 });
    let mut reversed = list.clone();
    reversed.reverse();
    assert_eq!(tally_of(&reversed), tally_of(&list));
    let without: Vec<Verdict> = vec![not_found, found, not_found, not_found, failed];
    assert_eq!(tally_of(&without).found, tally_of(&list).found);
    assert_eq!(tally_of(&without).not_found, tally_of(&list).not_found);
    assert_eq!(tally_of(&vec![not_found; 12]), ScanStats { found: 0, not_found: 12, failed: 0 });
    assert_eq!(ScanStats::new(), tally_of(&vec![]));
    assert_eq!(ScanStats { found: u128::MAX, not_found: 1, failed: 0 }.total(), None);
    assert_eq!(ScanStats { found: 1, not_found: 2, failed: 3 }.total(), Some(6));
}
