//! Gas and size estimation for the wipe transaction.
//!
//! The cost constants and limits come from the chain; nothing here fixes their values.
use crate::action::{
    action_views, actions_bytes, lengths_fit, serialize_actions, serialize_failure, Action,
    ActionView,
};
use crate::decimal::{all_digits, value_of};
use vstd::prelude::*;
use vstd::string::to_string_from_display_ensures;
use vstd::utf8::encode_utf8;

verus! {

/// Multiplier, in percent, over the published `storage_remove` host-function cost.
/// Covers wasm execution (the contract's loop and base64 decode) and JSON argument
/// parsing, which the host-function cost alone does not account for.
pub const SAFETY_FACTOR_PCT: u128 = 130;

/// Conservative size, in bytes, of what wraps the actions of a signed transaction:
/// length prefixes, public key, nonce, block hash and signature. The two account ids
/// come on top of it.
pub const TX_WRAPPER_OVERHEAD_BYTES: usize = 256;

/// Slack, in bytes, that a wipe keeps below the protocol's `max_transaction_size`. It
/// absorbs an underestimate of the wrapper and a limit that is lowered between the fetch
/// and the submission.
pub const TX_SIZE_BUFFER_BYTES: u64 = 100 * 1024;

/// The three gas costs that drive the estimate.
#[derive(Debug, Clone, Copy, PartialEq, Eq, Structural)]
pub struct GasConstants {
    pub storage_remove_base: u128,
    pub storage_remove_key_byte: u128,
    pub storage_remove_ret_value_byte: u128,
}

/// Protocol parameters that a wipe transaction is held against.
#[derive(Debug, Clone, Copy, PartialEq, Eq, Structural)]
pub struct ProtocolConstants {
    pub gas: GasConstants,
    /// Cap on the borsh-serialized size of a single transaction, in bytes.
    pub max_transaction_size: u64,
    /// Cap on the gas of all function calls of a single transaction. The whole of it is
    /// attached to the `clean` call, and the gas estimate must not exceed it. Action base
    /// costs are billed separately and do not count against it.
    pub max_total_prepaid_gas: u128,
}

/// A storage entry of the account to wipe.
#[derive(Debug, Clone)]
pub struct StateEntry {
    /// Raw key bytes.
    pub key: Vec<u8>,
    /// Length of the value in bytes. The value itself plays no part in the estimate and is
    /// not kept.
    pub value_bytes: usize,
}

/// A gas cost as the chain reports it.
#[derive(Debug, Clone)]
pub enum CostValue {
    /// A JSON number; `None` unless it is a whole number of 64 bits without a sign.
    Number(Option<u64>),
    /// A JSON string.
    Text(String),
    /// Any other JSON value.
    Other,
}

/// Why a reported gas cost is not taken.
#[derive(Debug)]
pub enum CostError {
    /// The number is not a whole number of 64 bits without a sign.
    NotU64,
    /// The string is not a number of 128 bits.
    Unparsable(std::num::ParseIntError),
    /// The value is neither a number nor a string.
    WrongKind,
}

impl CostError {
    /// The message for a gas cost that is not taken. For a string it is the text of the integer
    /// parser's error, whose wording is the parser's own.
    pub fn message(&self) -> (text: String)
        ensures
            match self {
                CostError::NotU64 => text@ == "ext-cost is not a u64"@,
                CostError::Unparsable(source) => to_string_from_display_ensures(source, text),
                CostError::WrongKind => text@ == "expected number or string ext-cost"@,
            },
    {
        match self {
            CostError::NotU64 => "ext-cost is not a u64".to_owned(),
            CostError::Unparsable(source) => source.to_string(),
            CostError::WrongKind => "expected number or string ext-cost".to_owned(),
        }
    }
}

/// An error of the integer parser.
#[verifier::external_type_specification]
#[verifier::external_body]
pub struct ExParseIntError(std::num::ParseIntError);

/// The number that `s` is parsed as, if it is one: digits behind at most one `+`, with a value
/// of no more than 128 bits.
pub open spec fn parsed_u128(s: Seq<char>) -> Option<u128> {
    let digits = if s.len() > 0 && s[0] == '+' {
        s.drop_first()
    } else {
        s
    };
    if digits.len() > 0 && all_digits(digits) && value_of(digits) <= u128::MAX {
        Some(value_of(digits) as u128)
    } else {
        None
    }
}

/// The error that `str::parse` for `u128` gives on a string that is no such number.
pub uninterp spec fn parse_failure(s: Seq<char>) -> std::num::ParseIntError;

/// Calls `str::parse` for `u128`. Trusted: it accepts an optional `+` and decimal digits and
/// nothing else, refuses a number over 128 bits, and gives the number's value. Its error depends
/// on the string alone; which error it is for which string is not stated.
#[verifier::external_body]
fn parse_u128(s: &str) -> (r: Result<u128, std::num::ParseIntError>)
    ensures
        match r {
            Ok(n) => parsed_u128(s@) == Some(n),
            Err(e) => parsed_u128(s@) is None && e == parse_failure(s@),
        },
{
    s.parse::<u128>()
}

/// The cost that `value` reports, if it reports one.
pub open spec fn reported_cost(value: CostValue) -> Option<u128> {
    match value {
        CostValue::Number(Some(n)) => Some(n as u128),
        CostValue::Number(None) => None,
        CostValue::Text(s) => parsed_u128(s@),
        CostValue::Other => None,
    }
}

/// Why `value`, which reports no cost, is not taken.
pub open spec fn cost_failure(value: CostValue) -> CostError {
    match value {
        CostValue::Number(_) => CostError::NotU64,
        CostValue::Text(s) => CostError::Unparsable(parse_failure(s@)),
        CostValue::Other => CostError::WrongKind,
    }
}

/// Reads a gas cost. Costs come as JSON numbers or as stringified integers; both are taken.
pub fn u128_from_any(value: &CostValue) -> (r: Result<u128, CostError>)
    ensures
        match r {
            Ok(n) => reported_cost(*value) == Some(n),
            Err(e) => reported_cost(*value) is None && e == cost_failure(*value),
        },
        match (*value, r) {
            (CostValue::Number(Some(n)), Ok(cost)) => cost == n,
            (CostValue::Number(None), Err(e)) => e == CostError::NotU64,
            (CostValue::Text(s), Ok(cost)) => exists|digits: Seq<char>|
                {
                    &&& s@ == digits || s@ == seq!['+'] + digits
                    &&& digits.len() > 0 && all_digits(digits)
                    &&& cost == #[trigger] value_of(digits)
                },
            (CostValue::Text(s), Err(e)) => {
                &&& e == CostError::Unparsable(parse_failure(s@))
                &&& forall|digits: Seq<char>|
                    digits.len() > 0 && all_digits(digits) && (s@ == digits || s@ == seq!['+']
                        + digits) ==> #[trigger] value_of(digits) > u128::MAX
            },
            (CostValue::Other, Err(e)) => e == CostError::WrongKind,
            _ => false,
        },
{
    proof {
        if let CostValue::Text(s) = value {
            lemma_parsed_text(s@);
        }
    }
    match value {
        CostValue::Number(Some(n)) => Ok(*n as u128),
        CostValue::Number(None) => Err(CostError::NotU64),
        CostValue::Text(s) => match parse_u128(s.as_str()) {
            Ok(n) => Ok(n),
            Err(e) => Err(CostError::Unparsable(e)),
        },
        CostValue::Other => Err(CostError::WrongKind),
    }
}

/// A text is parsed as the digits in it, where these are all but for a `+` in front.
pub(crate) proof fn lemma_parsed_text(s: Seq<char>)
    ensures
        parsed_u128(s) matches Some(n) ==> exists|digits: Seq<char>|
            {
                &&& s == digits || s == seq!['+'] + digits
                &&& digits.len() > 0 && all_digits(digits)
                &&& n == #[trigger] value_of(digits)
            },
        forall|digits: Seq<char>|
            digits.len() > 0 && all_digits(digits) && (s == digits || s == seq!['+'] + digits)
                ==> parsed_u128(s) == if #[trigger] value_of(digits) <= u128::MAX {
                Some(value_of(digits) as u128)
            } else {
                None
            },
{
    if s.len() > 0 && s[0] == '+' {
        assert(s =~= seq!['+'] + s.drop_first());
    }
    assert forall|digits: Seq<char>|
        digits.len() > 0 && all_digits(digits) && (s == digits || s == seq!['+']
            + digits) implies parsed_u128(s) == if #[trigger] value_of(digits) <= u128::MAX {
        Some(value_of(digits) as u128)
    } else {
        None
    } by {
        if s == digits {
            assert('0' <= s[0]);
        } else {
            assert(s.drop_first() =~= digits);
        }
    }
}

/// The parts of the chain's protocol configuration that a wipe reads.
#[derive(Debug, Clone, Copy)]
pub struct ProtocolConfigPartial {
    pub runtime_config: RuntimeConfigPartial,
}

/// The parts of the runtime configuration that a wipe reads.
#[derive(Debug, Clone, Copy)]
pub struct RuntimeConfigPartial {
    pub wasm_config: WasmConfigPartial,
}

/// The parts of the wasm configuration that a wipe reads.
#[derive(Debug, Clone, Copy)]
pub struct WasmConfigPartial {
    pub ext_costs: GasConstants,
    pub limit_config: LimitConfigPartial,
}

/// The limits that a wipe reads.
#[derive(Debug, Clone, Copy)]
pub struct LimitConfigPartial {
    pub max_transaction_size: u64,
    pub max_total_prepaid_gas: u128,
}

/// The protocol parameters in `reply`, the outcome of asking the chain for its configuration,
/// in which a failed request is told by its message.
pub fn fetch_protocol_constants(reply: Result<ProtocolConfigPartial, String>) -> (r: Result<
    ProtocolConstants,
    String,
>)
    ensures
        match (reply, r) {
            (Ok(config), Ok(constants)) => {
                let wasm = config.runtime_config.wasm_config;
                &&& constants.gas == wasm.ext_costs
                &&& constants.max_transaction_size == wasm.limit_config.max_transaction_size
                &&& constants.max_total_prepaid_gas == wasm.limit_config.max_total_prepaid_gas
            },
            (Err(error), Err(message)) => message@ == "Failed to fetch protocol config: "@
                + error@,
            _ => false,
        },
{
    match reply {
        Ok(config) => {
            let wasm = config.runtime_config.wasm_config;
            Ok(
                ProtocolConstants {
                    gas: wasm.ext_costs,
                    max_transaction_size: wasm.limit_config.max_transaction_size,
                    max_total_prepaid_gas: wasm.limit_config.max_total_prepaid_gas,
                },
            )
        },
        Err(error) => {
            let mut message: String = "Failed to fetch protocol config: ".to_owned();
            message.append(error.as_str());
            Err(message)
        },
    }
}

/// Published cost of removing an entry.
pub open spec fn raw_key_gas(key_bytes: int, value_bytes: int, c: GasConstants) -> int {
    c.storage_remove_base + key_bytes * c.storage_remove_key_byte + value_bytes
        * c.storage_remove_ret_value_byte
}

/// Estimated cost of removing an entry: the published cost and the safety factor, rounded
/// down.
pub open spec fn key_gas(key_bytes: int, value_bytes: int, c: GasConstants) -> int {
    raw_key_gas(key_bytes, value_bytes, c) * SAFETY_FACTOR_PCT / 100
}

/// Estimated cost of removing `entry`.
pub open spec fn entry_gas(entry: StateEntry, c: GasConstants) -> int {
    key_gas(entry.key@.len() as int, entry.value_bytes as int, c)
}

/// Estimated cost of removing every one of `entries`.
pub open spec fn total_gas(entries: Seq<StateEntry>, c: GasConstants) -> int
    decreases entries.len(),
{
    if entries.len() == 0 {
        0
    } else {
        total_gas(entries.drop_last(), c) + entry_gas(entries.last(), c)
    }
}

/// Whether the estimate for one entry can be computed in 128 bits.
pub open spec fn key_gas_fits(key_bytes: int, value_bytes: int, c: GasConstants) -> bool {
    raw_key_gas(key_bytes, value_bytes, c) * SAFETY_FACTOR_PCT <= u128::MAX
}

/// Whether the estimate for all of `entries` can be computed in 128 bits.
pub open spec fn total_gas_fits(entries: Seq<StateEntry>, c: GasConstants) -> bool {
    &&& forall|i: int|
        0 <= i < entries.len() ==> key_gas_fits(
            #[trigger] entries[i].key@.len() as int,
            entries[i].value_bytes as int,
            c,
        )
    &&& total_gas(entries, c) <= u128::MAX
}

/// Estimated gas of removing a single key, with the safety factor.
pub fn estimate_key_gas(key_bytes: usize, value_bytes: usize, c: &GasConstants) -> (gas: u128)
    requires
        key_gas_fits(key_bytes as int, value_bytes as int, *c),
    ensures
        gas == key_gas(key_bytes as int, value_bytes as int, *c),
        100 * gas <= 130 * (c.storage_remove_base + key_bytes * c.storage_remove_key_byte
            + value_bytes * c.storage_remove_ret_value_byte) < 100 * gas + 100,
{
    proof {
        lemma_products_nonnegative(key_bytes as int, value_bytes as int, *c);
    }
    let raw: u128 = c.storage_remove_base + (key_bytes as u128) * c.storage_remove_key_byte + (
    value_bytes as u128) * c.storage_remove_ret_value_byte;
    raw * SAFETY_FACTOR_PCT / 100
}

/// Total estimated gas, with the safety factor, of removing `entries` in one `clean` call.
pub fn estimate_total_gas(entries: &[StateEntry], c: &GasConstants) -> (gas: u128)
    requires
        total_gas_fits(entries@, *c),
    ensures
        gas == total_gas(entries@, *c),
        gas == entries@.fold_left(
            0int,
            |sum: int, e: StateEntry|
                sum + (c.storage_remove_base + e.key@.len() * c.storage_remove_key_byte
                    + e.value_bytes * c.storage_remove_ret_value_byte) * 130 / 100,
        ),
{
    let mut gas: u128 = 0;
    for i in 0..entries.len()
        invariant
            total_gas_fits(entries@, *c),
            gas == total_gas(entries@.take(i as int), *c),
    {
        proof {
            lemma_total_gas_step(entries@, i as int, *c);
            lemma_total_gas_prefix(entries@, i + 1, *c);
        }
        gas = gas + estimate_key_gas(entries[i].key.len(), entries[i].value_bytes, c);
    }
    assert(entries@.take(entries.len() as int) =~= entries@);
    proof {
        lemma_total_gas_is_fold(
            entries@,
            *c,
            |sum: int, e: StateEntry|
                sum + (c.storage_remove_base + e.key@.len() * c.storage_remove_key_byte
                    + e.value_bytes * c.storage_remove_ret_value_byte) * 130 / 100,
        );
    }
    gas
}

proof fn lemma_total_gas_is_fold(
    entries: Seq<StateEntry>,
    c: GasConstants,
    step: spec_fn(int, StateEntry) -> int,
)
    requires
        forall|sum: int, e: StateEntry| #[trigger] step(sum, e) == sum + entry_gas(e, c),
    ensures
        entries.fold_left(0int, step) == total_gas(entries, c),
    decreases entries.len(),
{
    if entries.len() > 0 {
        lemma_total_gas_is_fold(entries.drop_last(), c, step);
    }
}

/// Whether `estimate_total_gas` can be computed in 128 bits for `entries`.
pub fn gas_estimate_fits(entries: &[StateEntry], c: &GasConstants) -> (fits: bool)
    ensures
        fits == total_gas_fits(entries@, *c),
        fits <==> total_gas(entries@, *c) <= u128::MAX && forall|i: int|
            0 <= i < entries@.len() ==> (c.storage_remove_base + (#[trigger] entries@[i]).key@.len()
                * c.storage_remove_key_byte + entries@[i].value_bytes
                * c.storage_remove_ret_value_byte) * 130 <= u128::MAX,
{
    let mut gas: u128 = 0;
    for i in 0..entries.len()
        invariant
            total_gas_fits(entries@.take(i as int), *c),
            gas == total_gas(entries@.take(i as int), *c),
    {
        let key_bytes: usize = entries[i].key.len();
        let value_bytes: usize = entries[i].value_bytes;
        proof {
            lemma_total_gas_step(entries@, i as int, *c);
            lemma_total_gas_prefix(entries@, i + 1, *c);
            lemma_products_nonnegative(key_bytes as int, value_bytes as int, *c);
            assert(entries@.take(i + 1)[i as int] == entries@[i as int]);
        }
        let key_part: Option<u128> = (key_bytes as u128).checked_mul(c.storage_remove_key_byte);
        let value_part: Option<u128> = (value_bytes as u128).checked_mul(
            c.storage_remove_ret_value_byte,
        );
        let raw: Option<u128> = match (key_part, value_part) {
            (Some(k), Some(v)) => match c.storage_remove_base.checked_add(k) {
                Some(partial) => partial.checked_add(v),
                None => None,
            },
            _ => None,
        };
        let scaled: Option<u128> = match raw {
            Some(raw) => raw.checked_mul(SAFETY_FACTOR_PCT),
            None => None,
        };
        if scaled.is_none() {
            assert(!key_gas_fits(key_bytes as int, value_bytes as int, *c));
            return false;
        }
        match gas.checked_add(estimate_key_gas(key_bytes, value_bytes, c)) {
            Some(next) => {
                gas = next;
            },
            None => {
                return false;
            },
        }
        proof {
            assert forall|j: int| 0 <= j < i + 1 implies key_gas_fits(
                #[trigger] entries@.take(i + 1)[j].key@.len() as int,
                entries@.take(i + 1)[j].value_bytes as int,
                *c,
            ) by {
                if j < i {
                    assert(entries@.take(i as int)[j] == entries@.take(i + 1)[j]);
                }
            }
        }
    }
    assert(entries@.take(entries.len() as int) =~= entries@);
    true
}

/// The actions of a transaction cannot be serialized: a length in them does not fit in the
/// four bytes that the encoding has for it.
#[derive(Debug)]
pub struct SerializeError {
    /// What the serializer reported.
    pub source: std::io::Error,
}

impl SerializeError {
    /// The message for actions that cannot be serialized, which ends with the text of the
    /// serializer's error, whose wording is the serializer's own.
    pub fn message(&self) -> (text: String)
        ensures
            exists|reported: String| #[trigger]
                to_string_from_display_ensures(&self.source, reported) && text@
                    == "Failed to borsh-serialize actions: "@ + reported@,
    {
        let reported: String = self.source.to_string();
        let mut text: String = "Failed to borsh-serialize actions: ".to_owned();
        text.append(reported.as_str());
        text
    }
}

/// Estimated size of the signed transaction that carries `actions` from an account to
/// itself: the serialized actions, the wrapper and the account id twice.
pub open spec fn transaction_size(actions: Seq<ActionView>, account_id: Seq<char>) -> nat {
    actions_bytes(actions).len() + TX_WRAPPER_OVERHEAD_BYTES as nat + 2 * encode_utf8(
        account_id,
    ).len()
}

/// Conservative upper bound on the borsh-serialized size of the signed transaction that
/// carries `actions` between an account and itself.
pub fn estimate_transaction_size(actions: &[Action], account_id: &str) -> (r: Result<
    usize,
    SerializeError,
>)
    requires
        transaction_size(action_views(actions@), account_id@) <= usize::MAX,
    ensures
        match r {
            Ok(size) => {
                &&& lengths_fit(action_views(actions@))
                &&& size == transaction_size(action_views(actions@), account_id@)
                &&& size == actions_bytes(action_views(actions@)).len() + TX_WRAPPER_OVERHEAD_BYTES
                    + 2 * encode_utf8(account_id@).len()
            },
            Err(e) => {
                &&& !lengths_fit(action_views(actions@))
                &&& e.source == serialize_failure(action_views(actions@))
            },
        },
{
    match estimate_wide(actions, account_id) {
        Ok(size) => Ok(size as usize),
        Err(e) => Err(e),
    }
}

/// `estimate_transaction_size` in an integer that holds the sum of any two lengths.
pub(crate) fn estimate_wide(actions: &[Action], account_id: &str) -> (r: Result<
    u128,
    SerializeError,
>)
    ensures
        match r {
            Ok(size) => {
                &&& lengths_fit(action_views(actions@))
                &&& size == transaction_size(action_views(actions@), account_id@)
                &&& size == actions_bytes(action_views(actions@)).len() + TX_WRAPPER_OVERHEAD_BYTES
                    + 2 * encode_utf8(account_id@).len()
            },
            Err(e) => {
                &&& !lengths_fit(action_views(actions@))
                &&& e.source == serialize_failure(action_views(actions@))
            },
        },
{
    match serialize_actions(actions) {
        Ok(bytes) => {
            let id_bytes: usize = account_id.as_bytes().len();
            Ok(bytes.len() as u128 + TX_WRAPPER_OVERHEAD_BYTES as u128 + 2 * (id_bytes as u128))
        },
        Err(source) => Err(SerializeError { source }),
    }
}

pub(crate) proof fn lemma_products_nonnegative(key_bytes: int, value_bytes: int, c: GasConstants)
    requires
        0 <= key_bytes,
        0 <= value_bytes,
    ensures
        0 <= key_bytes * c.storage_remove_key_byte,
        0 <= value_bytes * c.storage_remove_ret_value_byte,
        c.storage_remove_base <= raw_key_gas(key_bytes, value_bytes, c),
        0 <= key_gas(key_bytes, value_bytes, c),
{
    assert(0 <= key_bytes * c.storage_remove_key_byte) by (nonlinear_arith)
        requires
            0 <= key_bytes,
    ;
    assert(0 <= value_bytes * c.storage_remove_ret_value_byte) by (nonlinear_arith)
        requires
            0 <= value_bytes,
    ;
}

proof fn lemma_total_gas_step(entries: Seq<StateEntry>, i: int, c: GasConstants)
    requires
        0 <= i < entries.len(),
    ensures
        total_gas(entries.take(i + 1), c) == total_gas(entries.take(i), c) + entry_gas(
            entries[i],
            c,
        ),
{
    assert(entries.take(i + 1).drop_last() =~= entries.take(i));
}

proof fn lemma_total_gas_prefix(entries: Seq<StateEntry>, i: int, c: GasConstants)
    requires
        0 <= i <= entries.len(),
    ensures
        0 <= total_gas(entries.take(i), c) <= total_gas(entries, c),
    decreases entries.len() - i, entries.len(),
{
    if i < entries.len() {
        lemma_total_gas_prefix(entries, i + 1, c);
        lemma_total_gas_step(entries, i, c);
        lemma_products_nonnegative(
            entries[i].key@.len() as int,
            entries[i].value_bytes as int,
            c,
        );
        lemma_total_gas_nonnegative(entries.take(i), c);
    } else {
        assert(entries.take(i) =~= entries);
        lemma_total_gas_nonnegative(entries, c);
    }
}

pub(crate) proof fn lemma_total_gas_nonnegative(entries: Seq<StateEntry>, c: GasConstants)
    ensures
        0 <= total_gas(entries, c),
    decreases entries.len(),
{
    if entries.len() > 0 {
        lemma_total_gas_nonnegative(entries.drop_last(), c);
        lemma_products_nonnegative(
            entries.last().key@.len() as int,
            entries.last().value_bytes as int,
            c,
        );
    }
}

} // verus!
