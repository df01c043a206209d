use base64::engine::general_purpose::STANDARD;
use base64::{DecodeError, Engine as _};
use near_clear_state::action::Action;
use near_clear_state::clean_args::{clean, clean_args, BadKey};
use near_clear_state::filler::fill;
use near_clear_state::plan::{
    estimate_total_gas, estimate_transaction_size, GasConstants, ProtocolConstants, SerializeError,
    StateEntry,
};
use near_clear_state::wipe::{
    build_transaction, preflight_gas, BuildError, PrepopulatedTransaction,
};
use std::collections::{BTreeMap, BTreeSet};

fn constants() -> ProtocolConstants {
    ProtocolConstants {
        gas: GasConstants {
            storage_remove_base: 53_473_030_500,
            storage_remove_key_byte: 38_220_384,
            storage_remove_ret_value_byte: 11_531_556,
        },
        max_transaction_size: 1_572_864,
        max_total_prepaid_gas: 1_000_000_000_000_000,
    }
}

fn entry(key: &[u8], value_bytes: usize) -> StateEntry {
    StateEntry { key: key.to_vec(), value_bytes }
}

fn call_args(transaction: &PrepopulatedTransaction) -> Vec<u8> {
    match &transaction.actions[1] {
        Action::FunctionCall(call) => call.args.clone(),
        Action::DeployContract(_) => panic!("the second action is the call"),
    }
}

fn keys_in(args: &[u8]) -> Vec<String> {
    let mut object: BTreeMap<String, Vec<String>> = serde_json::from_slice(args).unwrap();
    assert_eq!(object.len(), 1);
    object.remove("keys").unwrap()
}

#[test]
fn args_list_the_keys_in_base64() {
    let entries = [
        entry(b"", 0),
        entry(b"f", 0),
        entry(b"fo", 0),
        entry(b"foo", 0),
        entry(b"foobar", 0),
        entry(&[0xfb, 0xef, 0xff, 0xff], 0),
    ];
    assert_eq!(
        clean_args(&entries),
        br#"{"keys":["","Zg==","Zm8=","Zm9v","Zm9vYmFy","++///w=="]}"#.to_vec(),
    );
    assert_eq!(clean_args(&[]), br#"{"keys":[]}"#.to_vec());
    assert_eq!(clean_args(&[entry(b"foo", 9)]), br#"{"keys":["Zm9v"]}"#.to_vec());
}

#[test]
fn clean_removes_the_encoded_keys() {
    let keys: Vec<Vec<u8>> = (0..=255u8)
        .map(|b| (0..b as usize % 17).map(|i| b.wrapping_mul(31).wrapping_add(i as u8)).collect())
        .collect();
    let entries: Vec<StateEntry> = keys.iter().map(|k| entry(k, 1)).collect();
    assert_eq!(clean(&keys_in(&clean_args(&entries))).unwrap(), keys);
    assert!(clean(&vec![]).unwrap().is_empty());
}

#[test]
fn args_of_different_keys_differ() {
    assert_ne!(clean_args(&[entry(b"ab", 0)]), clean_args(&[entry(b"a", 0), entry(b"b", 0)]));
    assert_ne!(clean_args(&[entry(b"", 0)]), clean_args(&[]));
    assert_ne!(
        clean_args(&[entry(b"a", 0), entry(b"b", 0)]),
        clean_args(&[entry(b"b", 0), entry(b"a", 0)]),
    );
}

#[test]
fn clean_refuses_text_that_is_no_canonical_base64() {
    for bad in ["Zg", "Zg=", "Zh==", "Zm9", "Zm9=", "Z", "=", "====", "Zg==Zg==", "Zm 9v", "Zm9-", "Zm9_", "\u{e9}"] {
        let keys = vec!["Zm9v".to_string(), bad.to_string(), "!".to_string()];
        let refused = clean(&keys).unwrap_err();
        assert_eq!(refused.index, 1);
        assert_eq!(refused.source, STANDARD.decode(bad).unwrap_err());
    }
    assert!(matches!(
        clean(&vec!["!".to_string()]),
        Err(BadKey { index: 0, source: DecodeError::InvalidByte(0, b'!') })
    ));
    assert!(matches!(
        clean(&vec!["Zm9v".to_string(), "Zm9-".to_string()]),
        Err(BadKey { index: 1, source: DecodeError::InvalidByte(3, b'-') })
    ));
}

#[test]
fn built_transaction_deploys_and_calls_clean() {
    let entries = [entry(b"STATE", 3), entry(&[0, 1], 200)];
    let wasm = vec![0, 97, 115, 109];
    let transaction =
        build_transaction("example.testnet", &entries, &constants(), wasm.clone()).unwrap();
    assert_eq!(transaction.signer_id, "example.testnet");
    assert_eq!(transaction.receiver_id, "example.testnet");
    assert_eq!(transaction.actions.len(), 2);
    match &transaction.actions[0] {
        Action::DeployContract(deploy) => assert_eq!(deploy.code, wasm),
        Action::FunctionCall(_) => panic!("the first action is the deployment"),
    }
    match &transaction.actions[1] {
        Action::FunctionCall(call) => {
            assert_eq!(call.method_name, "clean");
            assert_eq!(call.args, br#"{"keys":["U1RBVEU=","AAE="]}"#.to_vec());
            assert_eq!(call.gas, 1_000_000_000_000_000);
            assert_eq!(call.deposit, 0);
        }
        Action::DeployContract(_) => panic!("the second action is the call"),
    }
}

#[test]
fn nothing_to_wipe_is_refused() {
    let error = build_transaction("example.testnet", &[], &constants(), vec![]).unwrap_err();
    assert!(matches!(error, BuildError::NoState));
    assert_eq!(
        error.message("example.testnet", "", ""),
        "Account <example.testnet> has no contract state to clean.",
    );
    assert!(matches!(preflight_gas(&[], &constants()), Err(BuildError::NoState)));
}

#[test]
fn gas_over_budget_is_refused() {
    let entries = [entry(b"0123456789", 100), entry(b"9876543210", 100)];
    let needed = estimate_total_gas(&entries, &constants().gas);
    let exact = ProtocolConstants { max_total_prepaid_gas: needed, ..constants() };
    assert!(build_transaction("a.near", &entries, &exact, vec![]).is_ok());
    let short = ProtocolConstants { max_total_prepaid_gas: needed - 1, ..constants() };
    let error = build_transaction("a.near", &entries, &short, vec![]).unwrap_err();
    assert!(matches!(
        error,
        BuildError::TooMuchGas { estimated, budget }
            if estimated == needed && budget == needed - 1
    ));
    assert_eq!(
        error.message("a.near", "1200.5", "1000"),
        "State is too large to wipe in a single transaction (estimated 1200.5 Tgas, budget 1000 \
         Tgas). Multi-transaction wipes are not yet supported.",
    );
    assert_eq!(preflight_gas(&entries, &exact).unwrap(), needed);
    assert!(matches!(preflight_gas(&entries, &short), Err(BuildError::TooMuchGas { .. })));
    // More state does not help.
    let more = [entry(b"x", 0), entry(b"0123456789", 100), entry(b"9876543210", 100)];
    assert!(matches!(
        build_transaction("a.near", &more, &short, vec![]),
        Err(BuildError::TooMuchGas { .. })
    ));
}

#[test]
fn size_over_limit_is_refused() {
    let entries = [entry(b"0123456789", 100)];
    let wasm = vec![5; 2000];
    let built = build_transaction("a.near", &entries, &constants(), wasm.clone()).unwrap();
    let size = estimate_transaction_size(&built.actions, "a.near").unwrap() as u64;
    let exact = ProtocolConstants { max_transaction_size: size + 102_400, ..constants() };
    assert!(build_transaction("a.near", &entries, &exact, wasm.clone()).is_ok());
    let short = ProtocolConstants { max_transaction_size: size + 102_399, ..constants() };
    assert!(matches!(
        build_transaction("a.near", &entries, &short, wasm.clone()),
        Err(BuildError::TooLarge { estimated, limit })
            if estimated == size as u128 && limit == size + 102_399
    ));
    let tiny = ProtocolConstants { max_transaction_size: 10, ..constants() };
    let error = build_transaction("a.near", &entries, &tiny, wasm).unwrap_err();
    assert!(matches!(error, BuildError::TooLarge { limit: 10, .. }));
    assert_eq!(
        error.message("a.near", "", ""),
        format!(
            "State is too large to wipe in a single transaction (estimated {size} bytes, limit 10 \
             bytes). Multi-transaction wipes are not yet supported.",
        ),
    );
}

#[test]
fn budget_beyond_64_bits_is_refused() {
    let entries = [entry(b"k", 1)];
    let most = ProtocolConstants { max_total_prepaid_gas: u64::MAX as u128, ..constants() };
    let built = build_transaction("a.near", &entries, &most, vec![]).unwrap();
    match &built.actions[1] {
        Action::FunctionCall(call) => assert_eq!(call.gas, u64::MAX),
        Action::DeployContract(_) => panic!("the second action is the call"),
    }
    let vast = ProtocolConstants { max_total_prepaid_gas: 1u128 << 64, ..constants() };
    let error = build_transaction("a.near", &entries, &vast, vec![]).unwrap_err();
    assert!(matches!(error, BuildError::BudgetTooLarge { budget } if budget == 1u128 << 64));
    assert_eq!(
        error.message("a.near", "", ""),
        "The gas budget of 18446744073709551616 gas does not fit in a function call.",
    );
}

#[test]
fn serializer_report_is_passed_on() {
    let reported = || SerializeError { source: std::io::ErrorKind::InvalidData.into() };
    let expected = format!(
        "Failed to borsh-serialize actions: {}",
        std::io::Error::from(std::io::ErrorKind::InvalidData),
    );
    assert_eq!(reported().message(), expected);
    assert_eq!(BuildError::Unserializable(reported()).message("a.near", "", ""), expected);
}

#[test]
fn typical_entries_fit_up_to_the_gas_budget() {
    let entries = |n: u32| -> Vec<StateEntry> {
        (0..n).map(|i| entry(format!("{i:010}").as_bytes(), 100)).collect()
    };
    let wasm = vec![0; 72 * 1024];
    assert!(build_transaction("a.near", &entries(13_900), &constants(), wasm.clone()).is_ok());
    assert!(matches!(
        build_transaction("a.near", &entries(14_000), &constants(), wasm.clone()),
        Err(BuildError::TooMuchGas { .. })
    ));
    // The size limit alone leaves room for tens of thousands of small keys.
    let free = ProtocolConstants {
        gas: GasConstants {
            storage_remove_base: 0,
            storage_remove_key_byte: 0,
            storage_remove_ret_value_byte: 0,
        },
        ..constants()
    };
    assert!(build_transaction("a.near", &entries(50_000), &free, wasm).is_ok());
}

#[test]
fn fill_numbers_its_keys() {
    let filled = fill("k", 101, 3);
    assert_eq!(filled.len(), 101);
    assert_eq!(filled[0], (b"k0".to_vec(), vec![0, 0, 0]));
    assert_eq!(filled[9].0, b"k9".to_vec());
    assert_eq!(filled[10].0, b"k10".to_vec());
    assert_eq!(filled[100], (b"k100".to_vec(), vec![0, 0, 0]));
    let keys: BTreeSet<Vec<u8>> = filled.into_iter().map(|(key, _)| key).collect();
    assert_eq!(keys.len(), 101);
    assert_eq!(fill("\u{e9}", 1, 0), vec![(vec![0xc3, 0xa9, b'0'], vec![])]);
    assert!(fill("k", 0, 5).is_empty());
}

#[test]
fn wipe_empties_a_filled_storage() {
    let mut storage: BTreeMap<Vec<u8>, Vec<u8>> = fill("k", 100, 200).into_iter().collect();
    let entries: Vec<StateEntry> = storage.iter().map(|(k, v)| entry(k, v.len())).collect();
    let built = build_transaction("a.near", &entries, &constants(), vec![1, 2, 3]).unwrap();
    storage.insert(b"late".to_vec(), vec![1]);
    for key in clean(&keys_in(&call_args(&built))).unwrap() {
        storage.remove(&key);
    }
    assert_eq!(storage.clone().into_iter().collect::<Vec<_>>(), vec![(b"late".to_vec(), vec![1])]);
    // A second call changes nothing.
    let once = storage.clone();
    for key in clean(&keys_in(&call_args(&built))).unwrap() {
        storage.remove(&key);
    }
    assert_eq!(storage, once);
}

#[test]
fn two_fills_do_what_the_longer_one_does() {
    let filled = |counts: &[u32]| -> BTreeMap<Vec<u8>, Vec<u8>> {
        let mut storage =
            BTreeMap::from([(b"other".to_vec(), vec![7]), (b"k3".to_vec(), vec![8, 8])]);
        for count in counts {
            storage.extend(fill("k", *count, 4));
        }
        storage
    };
    let longer = filled(&[12]);
    assert_eq!(longer.len(), 13);
    assert_eq!(longer[&b"k3"[..]], vec![0; 4]);
    assert_eq!(longer[&b"k11"[..]], vec![0; 4]);
    assert_eq!(longer[&b"other"[..]], vec![7]);
    assert_eq!(filled(&[5, 12]), longer);
    assert_eq!(filled(&[12, 5]), longer);
    assert_eq!(filled(&[12, 12]), longer);
}
