use near_clear_state::action::{Action, DeployContractAction, FunctionCallAction};
use near_clear_state::plan::{
    estimate_key_gas, estimate_total_gas, estimate_transaction_size, fetch_protocol_constants,
    gas_estimate_fits, u128_from_any, CostError, CostValue, GasConstants, LimitConfigPartial,
    ProtocolConfigPartial, RuntimeConfigPartial, StateEntry, WasmConfigPartial,
    SAFETY_FACTOR_PCT, TX_SIZE_BUFFER_BYTES, TX_WRAPPER_OVERHEAD_BYTES,
};

fn constants() -> GasConstants {
    GasConstants {
        storage_remove_base: 53_473_030_500,
        storage_remove_key_byte: 38_220_384,
        storage_remove_ret_value_byte: 11_531_556,
    }
}

fn raw_per_key(k: usize, v: usize) -> u128 {
    let c = constants();
    let raw = c.storage_remove_base
        + (k as u128) * c.storage_remove_key_byte
        + (v as u128) * c.storage_remove_ret_value_byte;
    raw * SAFETY_FACTOR_PCT / 100
}

fn entry(key_bytes: usize, value_bytes: usize) -> StateEntry {
    StateEntry { key: vec![0; key_bytes], value_bytes }
}

#[test]
fn estimate_matches_formula() {
    assert_eq!(estimate_key_gas(10, 100, &constants()), raw_per_key(10, 100));
    assert_eq!(estimate_key_gas(20, 3072, &constants()), raw_per_key(20, 3072));
    assert_eq!(estimate_key_gas(5, 0, &constants()), raw_per_key(5, 0));
}

#[test]
fn estimate_has_exact_values() {
    assert_eq!(estimate_key_gas(10, 100, &constants()), 71_510_906_922);
    // 1.3 gas units are rounded down.
    let one = GasConstants {
        storage_remove_base: 1,
        storage_remove_key_byte: 0,
        storage_remove_ret_value_byte: 0,
    };
    assert_eq!(estimate_key_gas(7, 7, &one), 1);
    assert_eq!(SAFETY_FACTOR_PCT, 130);
    assert_eq!(TX_SIZE_BUFFER_BYTES, 102_400);
}

#[test]
fn estimate_total_gas_is_sum_of_per_key() {
    let c = constants();
    let entries = vec![
        StateEntry { key: vec![0; 10], value_bytes: 50 },
        StateEntry { key: vec![0; 20], value_bytes: 200 },
        StateEntry { key: vec![0; 40], value_bytes: 4096 },
    ];
    let expected: u128 = entries
        .iter()
        .map(|e| estimate_key_gas(e.key.len(), e.value_bytes, &c))
        .sum();
    assert_eq!(estimate_total_gas(&entries, &c), expected);
    assert_eq!(estimate_total_gas(&[], &c), 0);
}

#[test]
fn total_gas_adds_up_over_lots() {
    let c = constants();
    let a = vec![entry(1, 2), entry(3, 4)];
    let b = vec![entry(50, 60)];
    let ab = vec![entry(1, 2), entry(3, 4), entry(50, 60)];
    let ba = vec![entry(50, 60), entry(1, 2), entry(3, 4)];
    let sum = estimate_total_gas(&a, &c) + estimate_total_gas(&b, &c);
    assert_eq!(estimate_total_gas(&ab, &c), sum);
    assert_eq!(estimate_total_gas(&ba, &c), sum);
}

#[test]
fn total_gas_ignores_order() {
    let c = constants();
    let entries = [entry(1, 2), entry(3, 4), entry(3, 4), entry(50, 60)];
    let shuffled = [entry(3, 4), entry(50, 60), entry(1, 2), entry(3, 4)];
    assert_eq!(estimate_total_gas(&entries, &c), estimate_total_gas(&shuffled, &c));
    // The bytes of a key do not count, only how many they are.
    let renamed = [StateEntry { key: vec![9], value_bytes: 2 }];
    assert_eq!(estimate_total_gas(&renamed, &c), estimate_total_gas(&entries[..1], &c));
    assert_eq!(estimate_total_gas(&entries[..1], &c), 69_594_608_194);
}

#[test]
fn higher_costs_raise_the_estimate() {
    let entries = [entry(1, 2), entry(3, 4)];
    let c = constants();
    let before = estimate_total_gas(&entries, &c);
    for dearer in [
        GasConstants { storage_remove_base: c.storage_remove_base + 10, ..c },
        GasConstants { storage_remove_key_byte: c.storage_remove_key_byte + 10, ..c },
        GasConstants { storage_remove_ret_value_byte: c.storage_remove_ret_value_byte + 10, ..c },
    ] {
        assert!(before < estimate_total_gas(&entries, &dearer));
    }
}

#[test]
fn estimate_grows_with_lengths_and_exceeds_published_cost() {
    let c = constants();
    assert!(estimate_key_gas(10, 100, &c) < estimate_key_gas(11, 100, &c));
    assert!(estimate_key_gas(10, 100, &c) < estimate_key_gas(10, 101, &c));
    let published = 53_473_030_500 + 10 * 38_220_384 + 100 * 11_531_556;
    assert!(estimate_key_gas(10, 100, &c) >= published);
}

#[test]
fn gas_estimate_fits_up_to_128_bits() {
    assert!(gas_estimate_fits(&[], &constants()));
    assert!(gas_estimate_fits(&[entry(10, 100), entry(20, 200)], &constants()));
    let base = |n: u128| GasConstants {
        storage_remove_base: n,
        storage_remove_key_byte: 0,
        storage_remove_ret_value_byte: 0,
    };
    let most = u128::MAX / 130;
    assert!(gas_estimate_fits(&[entry(1, 1)], &base(most)));
    assert!(!gas_estimate_fits(&[entry(1, 1)], &base(most + 1)));
    // Each of the hundred fits alone, the sum does not.
    let many: Vec<StateEntry> = (0..101).map(|_| entry(1, 1)).collect();
    assert!(!gas_estimate_fits(&many, &base(most)));
    let bytes = GasConstants {
        storage_remove_base: 0,
        storage_remove_key_byte: u128::MAX,
        storage_remove_ret_value_byte: u128::MAX,
    };
    assert!(gas_estimate_fits(&[entry(0, 0)], &bytes));
    assert!(!gas_estimate_fits(&[entry(2, 0)], &bytes));
    assert!(!gas_estimate_fits(&[entry(0, 2)], &bytes));
}

#[test]
fn estimate_transaction_size_covers_payload_plus_overhead() {
    let wasm = vec![0u8; 100_000];
    let args = vec![0u8; 5_000];
    let actions = vec![
        Action::DeployContract(DeployContractAction { code: wasm.clone() }),
        Action::FunctionCall(FunctionCallAction {
            method_name: "clean".to_string(),
            args: args.clone(),
            gas: 990_000_000_000_000,
            deposit: 0,
        }),
    ];
    let account_id: near_primitives::types::AccountId = "example.testnet".parse().unwrap();
    let size = estimate_transaction_size(&actions, account_id.as_str()).unwrap();

    // Must be at least the raw payload size (wasm + args).
    assert!(size >= wasm.len() + args.len());
    // And must include the wrapper overhead + 2x account_id bytes.
    let near_actions = vec![
        near_primitives::action::Action::DeployContract(
            near_primitives::action::DeployContractAction { code: wasm.clone() },
        ),
        near_primitives::action::Action::FunctionCall(Box::new(
            near_primitives::action::FunctionCallAction {
                method_name: "clean".to_string(),
                args: args.clone(),
                gas: near_primitives::gas::Gas::from_gas(990_000_000_000_000),
                deposit: near_token::NearToken::from_yoctonear(0),
            },
        )),
    ];
    let actions_bytes = borsh::to_vec(&near_actions).unwrap();
    assert_eq!(
        size,
        actions_bytes.len() + TX_WRAPPER_OVERHEAD_BYTES + 2 * account_id.as_str().len(),
    );
}

#[test]
fn transaction_size_has_exact_values() {
    // Only the number of actions is serialized.
    assert_eq!(estimate_transaction_size(&[], "").unwrap(), 4 + 256);
    // Tag, length and three bytes of code.
    let deploy = [Action::DeployContract(DeployContractAction { code: vec![1, 2, 3] })];
    assert_eq!(estimate_transaction_size(&deploy, "ab").unwrap(), 4 + 8 + 256 + 4);
    // Tag, name, arguments, gas and deposit.
    let call = [Action::FunctionCall(FunctionCallAction {
        method_name: "clean".to_string(),
        args: vec![0; 10],
        gas: 1,
        deposit: 2,
    })];
    assert_eq!(
        estimate_transaction_size(&call, "ab").unwrap(),
        4 + (1 + 4 + 5 + 4 + 10 + 8 + 16) + 256 + 4,
    );
}

#[test]
fn transaction_size_bounds_signed_transaction() {
    let account_id = "example.testnet";
    let actions = [
        Action::DeployContract(DeployContractAction { code: vec![7; 1000] }),
        Action::FunctionCall(FunctionCallAction {
            method_name: "clean".to_string(),
            args: vec![b'x'; 300],
            gas: u64::MAX,
            deposit: 0,
        }),
    ];
    let near_actions: Vec<near_primitives::action::Action> = vec![
        near_primitives::action::DeployContractAction { code: vec![7; 1000] }.into(),
        near_primitives::action::FunctionCallAction {
            method_name: "clean".to_string(),
            args: vec![b'x'; 300],
            gas: near_primitives::gas::Gas::from_gas(u64::MAX),
            deposit: near_token::NearToken::from_yoctonear(0),
        }
        .into(),
    ];
    // A transaction with the larger of the two kinds of keys and signatures.
    let signed_bytes = |tag: &[u8], nonce: &[u8], mode: &[u8]| -> Vec<u8> {
        let mut bytes: Vec<u8> = tag.to_vec();
        bytes.extend(borsh::to_vec(account_id).unwrap());
        bytes.push(1);
        bytes.extend(vec![2; 64]);
        bytes.extend(nonce);
        bytes.extend(borsh::to_vec(account_id).unwrap());
        bytes.extend([3; 32]);
        bytes.extend(borsh::to_vec(&near_actions).unwrap());
        bytes.extend(mode);
        bytes.push(1);
        bytes.extend(vec![0; 65]);
        bytes
    };
    let plain = signed_bytes(&[], &[5, 0, 0, 0, 0, 0, 0, 0], &[]);
    let version_1 = signed_bytes(&[1], &[0, 5, 0, 0, 0, 0, 0, 0, 0], &[0]);
    let gas_key = signed_bytes(&[1], &[1, 5, 0, 0, 0, 0, 0, 0, 0, 7, 0], &[1]);
    assert_eq!(version_1.len(), plain.len() + 3);
    assert_eq!(gas_key.len(), plain.len() + 5);
    let estimated = estimate_transaction_size(&actions, account_id).unwrap();
    for bytes in [plain, version_1, gas_key] {
        let signed: near_primitives::transaction::SignedTransaction =
            borsh::from_slice(&bytes).unwrap();
        assert_eq!(borsh::to_vec(&signed).unwrap(), bytes);
        assert!(bytes.len() <= estimated);
    }
}

#[test]
fn costs_come_as_numbers_or_strings() {
    assert_eq!(u128_from_any(&CostValue::Number(Some(53_473_030_500))).unwrap(), 53_473_030_500);
    assert_eq!(u128_from_any(&CostValue::Text("53473030500".to_string())).unwrap(), 53_473_030_500);
    assert_eq!(u128_from_any(&CostValue::Number(Some(u64::MAX))).unwrap(), u64::MAX as u128);
    assert_eq!(
        u128_from_any(&CostValue::Text("340282366920938463463374607431768211455".to_string()))
            .unwrap(),
        u128::MAX,
    );
    assert_eq!(u128_from_any(&CostValue::Text("+007".to_string())).unwrap(), 7);
}

#[test]
fn unusable_costs_are_refused() {
    assert!(matches!(u128_from_any(&CostValue::Number(None)), Err(CostError::NotU64)));
    assert!(matches!(u128_from_any(&CostValue::Other), Err(CostError::WrongKind)));
    for text in [
        "",
        "+",
        "-1",
        " 1",
        "1 ",
        "1_000",
        "12a",
        "1.5",
        "0x10",
        "++1",
        "\u{0663}",
        "340282366920938463463374607431768211456",
    ] {
        assert!(matches!(
            u128_from_any(&CostValue::Text(text.to_string())),
            Err(CostError::Unparsable(_))
        ));
    }
}

#[test]
fn unusable_costs_are_explained() {
    let message = |value: CostValue| u128_from_any(&value).unwrap_err().message();
    assert_eq!(message(CostValue::Number(None)), "ext-cost is not a u64");
    assert_eq!(message(CostValue::Other), "expected number or string ext-cost");
    let parsed = "12a".parse::<u128>().unwrap_err();
    assert_eq!(message(CostValue::Text("12a".to_string())), parsed.to_string());
    let empty = "".parse::<u128>().unwrap_err();
    assert_eq!(message(CostValue::Text(String::new())), empty.to_string());
}

#[test]
fn protocol_constants_are_taken_from_the_configuration() {
    let config = ProtocolConfigPartial {
        runtime_config: RuntimeConfigPartial {
            wasm_config: WasmConfigPartial {
                ext_costs: constants(),
                limit_config: LimitConfigPartial {
                    max_transaction_size: 1_572_864,
                    max_total_prepaid_gas: 1_000_000_000_000_000,
                },
            },
        },
    };
    let fetched = fetch_protocol_constants(Ok(config)).unwrap();
    assert_eq!(fetched.gas, constants());
    assert_eq!(fetched.max_transaction_size, 1_572_864);
    assert_eq!(fetched.max_total_prepaid_gas, 1_000_000_000_000_000);
    assert_eq!(
        fetch_protocol_constants(Err("timed out".to_string())).unwrap_err(),
        "Failed to fetch protocol config: timed out",
    );
}
