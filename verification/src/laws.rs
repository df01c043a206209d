//! What holds of the library as a whole.
use crate::action::{
    action_bytes, action_lengths_fit, action_views, actions_bytes, concatenated, le_bytes,
    lengths_fit, Action, ActionView,
};
use crate::clean_args::{
    all_plain, args_bytes, byte_views, clean, clean_args, is_key_text, json_object, keys_of, listed, quoted,
    string_views, texts_of, BadKey, KEYS_FIELD,
};
use crate::cleanup::{
    map_view_state_error, occurs_in, read_state, view_state_failure, ViewStateReply, STATE_TOO_LARGE,
};
use crate::decimal::{
    all_digits, decimal, lemma_decimal_is_injective, lemma_decimal_value, value_of,
};
use crate::filler::{fill, fill_entries, fill_key, zeros};
use crate::key_text::{
    group, lemma_group_bytes, lemma_text_is_injective, lemma_text_is_plain, sextet, symbol, text_of,
};
use crate::plan::{
    cost_failure, entry_gas, estimate_key_gas, estimate_total_gas, estimate_transaction_size,
    fetch_protocol_constants, gas_estimate_fits, key_gas, lemma_parsed_text,
    lemma_products_nonnegative, lemma_total_gas_nonnegative, parse_failure, parsed_u128,
    raw_key_gas, reported_cost, total_gas, total_gas_fits, transaction_size, u128_from_any,
    CostError, CostValue, GasConstants, ProtocolConfigPartial, ProtocolConstants, SerializeError,
    StateEntry, TX_SIZE_BUFFER_BYTES, TX_WRAPPER_OVERHEAD_BYTES,
};
use crate::wipe::{
    build_transaction, gas_refusal, lemma_wipe_size, preflight_gas, wipe_actions, wipe_refusal, wipe_transaction,
    BuildError, PrepopulatedTransaction, Refusal, TransactionView,
};
use vstd::arithmetic::power::pow;
use vstd::prelude::*;
use vstd::string::to_string_from_display_ensures;
use vstd::utf8::{encode_utf8, encode_utf8_decode_utf8};

verus! {

/// The estimate for two lots of entries in one call is the sum of their estimates, whichever
/// lot comes first.
pub proof fn law_total_gas_adds_up(a: Seq<StateEntry>, b: Seq<StateEntry>, c: GasConstants)
    ensures
        total_gas(a + b, c) == total_gas(a, c) + total_gas(b, c),
        total_gas(b + a, c) == total_gas(a + b, c),
{
    lemma_total_gas_concat(a, b, c);
    lemma_total_gas_concat(b, a, c);
}

proof fn lemma_total_gas_concat(a: Seq<StateEntry>, b: Seq<StateEntry>, c: GasConstants)
    ensures
        total_gas(a + b, c) == total_gas(a, c) + total_gas(b, c),
    decreases b.len(),
{
    if b.len() == 0 {
        assert(a + b =~= a);
    } else {
        assert((a + b).drop_last() =~= a + b.drop_last());
        lemma_total_gas_concat(a, b.drop_last(), c);
    }
}

/// What the estimate reads of `entries`: the lengths of each key and of its value.
pub open spec fn lengths_of(entries: Seq<StateEntry>) -> Seq<(nat, usize)> {
    entries.map_values(|e: StateEntry| (e.key@.len(), e.value_bytes))
}

/// The estimate depends on the lengths of keys and values alone, and not on their order.
pub proof fn law_total_gas_ignores_order(
    a: Seq<StateEntry>,
    b: Seq<StateEntry>,
    c: GasConstants,
)
    requires
        lengths_of(a).to_multiset() == lengths_of(b).to_multiset(),
    ensures
        total_gas(a, c) == total_gas(b, c),
    decreases a.len(),
{
    lengths_of(a).to_multiset_ensures();
    lengths_of(b).to_multiset_ensures();
    assert(lengths_of(a).to_multiset().len() == lengths_of(b).to_multiset().len());
    if a.len() > 0 {
        let last = lengths_of(a).last();
        assert(lengths_of(a).contains(last));
        assert(lengths_of(b).to_multiset().count(last) > 0);
        let i = choose|i: int| 0 <= i < lengths_of(b).len() && lengths_of(b)[i] == last;
        let n = a.len() - 1;
        assert(a.drop_last() =~= a.remove(n));
        assert(lengths_of(a.remove(n)) =~= lengths_of(a).remove(n));
        assert(lengths_of(b.remove(i)) =~= lengths_of(b).remove(i));
        law_total_gas_ignores_order(a.drop_last(), b.remove(i), c);
        assert(b =~= b.take(i) + (seq![b[i]] + b.skip(i + 1)));
        assert(b.remove(i) =~= b.take(i) + b.skip(i + 1));
        lemma_total_gas_concat(b.take(i), seq![b[i]] + b.skip(i + 1), c);
        lemma_total_gas_concat(seq![b[i]], b.skip(i + 1), c);
        lemma_total_gas_concat(b.take(i), b.skip(i + 1), c);
        reveal_with_fuel(total_gas, 2);
        assert(seq![b[i]].drop_last() =~= Seq::<StateEntry>::empty());
        assert(total_gas(seq![b[i]], c) == entry_gas(b[i], c));
    }
}

/// The estimate for one entry is the published cost and 30 percent on top, less a fraction of
/// a gas unit; it is never below the published cost.
pub proof fn law_estimate_includes_safety_factor(
    key_bytes: int,
    value_bytes: int,
    c: GasConstants,
)
    requires
        0 <= key_bytes,
        0 <= value_bytes,
    ensures
        raw_key_gas(key_bytes, value_bytes, c) <= key_gas(key_bytes, value_bytes, c),
        100 * key_gas(key_bytes, value_bytes, c) <= 130 * raw_key_gas(key_bytes, value_bytes, c)
            < 100 * key_gas(key_bytes, value_bytes, c) + 100,
{
    lemma_products_nonnegative(key_bytes, value_bytes, c);
}

/// Whether no cost in `c` is higher than in `d`.
pub open spec fn no_dearer(c: GasConstants, d: GasConstants) -> bool {
    &&& c.storage_remove_base <= d.storage_remove_base
    &&& c.storage_remove_key_byte <= d.storage_remove_key_byte
    &&& c.storage_remove_ret_value_byte <= d.storage_remove_ret_value_byte
}

/// A longer key, a longer value or higher costs never lower the estimate for an entry.
pub proof fn law_estimate_grows_with_lengths_and_costs(
    key_bytes: int,
    value_bytes: int,
    c: GasConstants,
    longer_key: int,
    longer_value: int,
    dearer: GasConstants,
)
    requires
        0 <= key_bytes <= longer_key,
        0 <= value_bytes <= longer_value,
        no_dearer(c, dearer),
    ensures
        key_gas(key_bytes, value_bytes, c) <= key_gas(longer_key, longer_value, dearer),
{
    assert(key_bytes * c.storage_remove_key_byte <= longer_key * dearer.storage_remove_key_byte)
        by (nonlinear_arith)
        requires
            0 <= key_bytes <= longer_key,
            c.storage_remove_key_byte <= dearer.storage_remove_key_byte,
    ;
    assert(value_bytes * c.storage_remove_ret_value_byte <= longer_value
        * dearer.storage_remove_ret_value_byte) by (nonlinear_arith)
        requires
            0 <= value_bytes <= longer_value,
            c.storage_remove_ret_value_byte <= dearer.storage_remove_ret_value_byte,
    ;
}

/// Higher costs never lower the estimate for a list of entries.
pub proof fn law_total_gas_grows_with_costs(
    entries: Seq<StateEntry>,
    c: GasConstants,
    dearer: GasConstants,
)
    requires
        no_dearer(c, dearer),
    ensures
        total_gas(entries, c) <= total_gas(entries, dearer),
    decreases entries.len(),
{
    if entries.len() > 0 {
        let (key_bytes, value_bytes) = (
            entries.last().key@.len() as int,
            entries.last().value_bytes as int,
        );
        law_total_gas_grows_with_costs(entries.drop_last(), c, dearer);
        law_estimate_grows_with_lengths_and_costs(
            key_bytes,
            value_bytes,
            c,
            key_bytes,
            value_bytes,
            dearer,
        );
    }
}

/// A cost that comes as a JSON number and one that comes as the same number in a string are
/// read alike.
pub proof fn law_number_and_text_costs_agree(n: u64, text: String)
    requires
        text@ == decimal(n as nat),
    ensures
        reported_cost(CostValue::Text(text)) == reported_cost(CostValue::Number(Some(n))),
{
    lemma_decimal_value(n as nat);
}

/// The payload of an action: the code that it deploys or the arguments that it passes.
pub open spec fn payload(action: ActionView) -> Seq<u8> {
    match action {
        ActionView::DeployContract { code } => code,
        ActionView::FunctionCall { args, .. } => args,
    }
}

/// The length of all payloads of `actions`.
pub open spec fn payload_size(actions: Seq<ActionView>) -> nat
    decreases actions.len(),
{
    if actions.len() == 0 {
        0
    } else {
        payload_size(actions.drop_last()) + payload(actions.last()).len()
    }
}

/// The estimated size of a transaction covers the payloads of all its actions and the wrapper.
pub proof fn law_size_covers_payload(actions: Seq<ActionView>, account_id: Seq<char>)
    ensures
        payload_size(actions) + TX_WRAPPER_OVERHEAD_BYTES + 2 * encode_utf8(account_id).len()
            <= transaction_size(actions, account_id),
{
    lemma_concatenated_covers_payload(actions);
}

proof fn lemma_concatenated_covers_payload(actions: Seq<ActionView>)
    ensures
        payload_size(actions) <= concatenated(actions).len(),
    decreases actions.len(),
{
    if actions.len() > 0 {
        lemma_concatenated_covers_payload(actions.drop_last());
    }
}

/// The borsh-serialized size of the signed transaction that carries `actions` from an account
/// to itself: the two account ids behind their lengths, the public key and the signature
/// behind the tag of their kind, the nonce, the block hash and the actions.
pub open spec fn signed_transaction_size(
    actions: Seq<ActionView>,
    account_id: Seq<char>,
    public_key_bytes: nat,
    signature_bytes: nat,
) -> nat {
    2 * (4 + encode_utf8(account_id).len()) + (1 + public_key_bytes) + 8 + 32 + actions_bytes(
        actions,
    ).len() + (1 + signature_bytes)
}

/// The same for a transaction of version 1: a tag for the version, one for the kind of the
/// nonce and one for the nonce mode come on top, and with a gas key the two-byte index of the
/// nonce.
pub open spec fn signed_transaction_v1_size(
    actions: Seq<ActionView>,
    account_id: Seq<char>,
    public_key_bytes: nat,
    signature_bytes: nat,
    gas_key: bool,
) -> nat {
    signed_transaction_size(actions, account_id, public_key_bytes, signature_bytes) + if gas_key {
        5nat
    } else {
        3
    }
}

/// The estimated size of a transaction is an upper bound on its size once it is signed, of
/// either version, with an ed25519 key (32 bytes, signatures of 64) or a secp256k1 key (64
/// bytes, signatures of 65).
pub proof fn law_size_is_upper_bound(
    actions: Seq<ActionView>,
    account_id: Seq<char>,
    public_key_bytes: nat,
    signature_bytes: nat,
    gas_key: bool,
)
    requires
        public_key_bytes <= 64,
        signature_bytes <= 65,
    ensures
        signed_transaction_size(actions, account_id, public_key_bytes, signature_bytes)
            <= transaction_size(actions, account_id),
        signed_transaction_v1_size(actions, account_id, public_key_bytes, signature_bytes, gas_key)
            <= transaction_size(actions, account_id),
{
}

/// A transaction is built exactly where there is something to wipe, the gas estimate does not
/// exceed the budget, the budget fits in the 64 bits of a call's gas, the actions can be
/// serialized and the size keeps the buffer below the protocol's limit. Its `clean` call has the
/// whole budget attached.
pub proof fn law_wipe_is_built_within_limits(
    account_id: Seq<char>,
    entries: Seq<StateEntry>,
    constants: ProtocolConstants,
    wasm: Seq<u8>,
)
    ensures
        wipe_refusal(account_id, entries, constants, wasm) is None <==> {
            &&& entries.len() > 0
            &&& total_gas(entries, constants.gas) <= constants.max_total_prepaid_gas
            &&& constants.max_total_prepaid_gas <= u64::MAX
            &&& lengths_fit(wipe_actions(entries, constants, wasm))
            &&& transaction_size(wipe_actions(entries, constants, wasm), account_id)
                + TX_SIZE_BUFFER_BYTES <= constants.max_transaction_size
        },
        wipe_refusal(account_id, entries, constants, wasm) is None ==> wipe_actions(
            entries,
            constants,
            wasm,
        )[1]->gas == constants.max_total_prepaid_gas,
{
}

/// State that takes too much gas to wipe still does so when more entries join it, wherever
/// they join.
pub proof fn law_more_state_is_not_cheaper(
    account_id: Seq<char>,
    before: Seq<StateEntry>,
    entries: Seq<StateEntry>,
    after: Seq<StateEntry>,
    constants: ProtocolConstants,
    wasm: Seq<u8>,
)
    requires
        gas_refusal(entries, constants) matches Some(r) && r is TooMuchGas,
    ensures
        wipe_refusal(account_id, before + entries + after, constants, wasm) matches Some(r)
            && r is TooMuchGas,
{
    lemma_total_gas_concat(before, entries, constants.gas);
    lemma_total_gas_concat(before + entries, after, constants.gas);
    lemma_total_gas_nonnegative(before, constants.gas);
    lemma_total_gas_nonnegative(after, constants.gas);
}

/// `clean` accepts the base64 texts of any keys, and what it removes for them are those keys.
pub proof fn law_clean_removes_the_encoded_keys(keys: Seq<Seq<u8>>, removed: Seq<Seq<u8>>)
    ensures
        forall|i: int| 0 <= i < keys.len() ==> is_key_text(#[trigger] texts_of(keys)[i]),
        texts_of(removed) == texts_of(keys) ==> removed == keys,
{
    assert forall|i: int| 0 <= i < keys.len() implies is_key_text(
        #[trigger] texts_of(keys)[i],
    ) by {
        assert(text_of(keys[i]) == texts_of(keys)[i]);
    }
    if texts_of(removed) == texts_of(keys) {
        assert(texts_of(removed).len() == texts_of(keys).len());
        assert forall|i: int| 0 <= i < keys.len() implies removed[i] == keys[i] by {
            assert(texts_of(removed)[i] == texts_of(keys)[i]);
            lemma_text_is_injective(removed[i], keys[i]);
        }
        assert(removed =~= keys);
    }
}

/// The arguments of a `clean` call tell which keys it is handed, and in what order.
pub proof fn law_args_determine_keys(a: Seq<Seq<u8>>, b: Seq<Seq<u8>>)
    requires
        args_bytes(a) == args_bytes(b),
    ensures
        a == b,
{
    lemma_texts_are_plain(b);
    lemma_args_determine_texts(a, texts_of(b));
    law_clean_removes_the_encoded_keys(a, b);
}

/// What is left of `storage` when the keys `removed` have been removed from it.
pub open spec fn storage_after(
    storage: Map<Seq<u8>, Seq<u8>>,
    removed: Seq<Seq<u8>>,
) -> Map<Seq<u8>, Seq<u8>> {
    storage.remove_keys(removed.to_set())
}

/// A wipe clears the state. Take the `clean` call of the transaction that is built for
/// `entries`, and let `texts` be the strings that its arguments hold as JSON. They are the texts
/// of the keys of `entries`, and `clean` accepts every one of them. What it removes for them,
/// `removed`, are exactly those keys: of a storage of which `entries` name every key nothing is
/// left, and of any storage every other key stays with its value.
pub proof fn law_wipe_clears_state(
    transaction: TransactionView,
    account_id: Seq<char>,
    entries: Seq<StateEntry>,
    constants: ProtocolConstants,
    wasm: Seq<u8>,
    texts: Seq<Seq<char>>,
    removed: Seq<Seq<u8>>,
    storage: Map<Seq<u8>, Seq<u8>>,
)
    requires
        transaction == wipe_transaction(account_id, entries, constants, wasm),
        transaction.actions[1]->args == encode_utf8(json_object(KEYS_FIELD@, texts)),
        forall|i: int| 0 <= i < texts.len() ==> all_plain(#[trigger] texts[i]),
    ensures
        texts == texts_of(keys_of(entries)),
        forall|i: int| 0 <= i < texts.len() ==> is_key_text(#[trigger] texts[i]),
        texts_of(removed) == texts ==> {
            &&& removed == keys_of(entries)
            &&& (forall|key: Seq<u8>| #[trigger]
                storage.dom().contains(key) ==> keys_of(entries).contains(key)) ==> storage_after(
                storage,
                removed,
            ) == Map::<Seq<u8>, Seq<u8>>::empty()
            &&& forall|key: Seq<u8>| #[trigger]
                storage.dom().contains(key) && !keys_of(entries).contains(key)
                    ==> storage_after(storage, removed).dom().contains(key) && storage_after(
                    storage,
                    removed,
                )[key] == storage[key]
        },
{
    let keys = keys_of(entries);
    assert(args_bytes(keys) == encode_utf8(json_object(KEYS_FIELD@, texts)));
    lemma_args_determine_texts(keys, texts);
    law_clean_removes_the_encoded_keys(keys, removed);
    let left = storage_after(storage, removed);
    if texts_of(removed) == texts && forall|key: Seq<u8>| #[trigger]
        storage.dom().contains(key) ==> keys.contains(key) {
        assert forall|key: Seq<u8>| !left.dom().contains(key) by {
            if storage.dom().contains(key) {
                assert(removed.to_set().contains(key));
            }
        }
        assert(left =~= Map::<Seq<u8>, Seq<u8>>::empty());
    }
}

/// A second `clean` call with the same keys changes nothing.
pub proof fn law_clean_twice_is_clean_once(
    storage: Map<Seq<u8>, Seq<u8>>,
    removed: Seq<Seq<u8>>,
)
    ensures
        storage_after(storage_after(storage, removed), removed) == storage_after(
            storage,
            removed,
        ),
{
    assert(storage_after(storage_after(storage, removed), removed) =~= storage_after(
        storage,
        removed,
    ));
}

/// `storage` with `entries` inserted one after the other.
pub open spec fn inserted(
    storage: Map<Seq<u8>, Seq<u8>>,
    entries: Seq<(Seq<u8>, Seq<u8>)>,
) -> Map<Seq<u8>, Seq<u8>>
    decreases entries.len(),
{
    if entries.len() == 0 {
        storage
    } else {
        inserted(storage, entries.drop_last()).insert(entries.last().0, entries.last().1)
    }
}

/// Whether `key` is one of the first `count` keys of a `fill` call.
pub open spec fn is_fill_key(prefix: Seq<char>, count: nat, key: Seq<u8>) -> bool {
    exists|i: int| 0 <= i < count && key == #[trigger] fill_key(prefix, i)
}

/// A `fill` call inserts no key twice.
pub proof fn law_fill_keys_distinct(prefix: Seq<char>, i: int, j: int)
    requires
        0 <= i < j,
    ensures
        fill_key(prefix, i) != fill_key(prefix, j),
{
    if fill_key(prefix, i) == fill_key(prefix, j) {
        let (a, b) = (prefix + decimal(i as nat), prefix + decimal(j as nat));
        encode_utf8_decode_utf8(a);
        encode_utf8_decode_utf8(b);
        assert(a == b);
        assert(a.skip(prefix.len() as int) =~= decimal(i as nat));
        assert(b.skip(prefix.len() as int) =~= decimal(j as nat));
        lemma_decimal_is_injective(i as nat, j as nat);
    }
}

/// After a `fill` call its keys hold the zero value, and every other key is as it was.
pub proof fn law_fill_sets_its_keys(
    storage: Map<Seq<u8>, Seq<u8>>,
    prefix: Seq<char>,
    count: nat,
    value_size: nat,
)
    ensures
        ({
            let filled = inserted(storage, fill_entries(prefix, count, value_size));
            forall|key: Seq<u8>|
                {
                    &&& #[trigger] filled.dom().contains(key) <==> storage.dom().contains(key)
                        || is_fill_key(prefix, count, key)
                    &&& is_fill_key(prefix, count, key) ==> filled[key] == zeros(value_size)
                    &&& storage.dom().contains(key) && !is_fill_key(prefix, count, key)
                        ==> filled[key] == storage[key]
                }
        }),
    decreases count,
{
    if count > 0 {
        let n = (count - 1) as nat;
        let last = fill_key(prefix, n as int);
        law_fill_sets_its_keys(storage, prefix, n, value_size);
        assert(fill_entries(prefix, count, value_size).drop_last() =~= fill_entries(
            prefix,
            n,
            value_size,
        ));
        assert forall|key: Seq<u8>| is_fill_key(prefix, count, key) == (is_fill_key(
            prefix,
            n,
            key,
        ) || key == last) by {
            if is_fill_key(prefix, n, key) {
                let i = choose|i: int| 0 <= i < n && key == #[trigger] fill_key(prefix, i);
                assert(0 <= i < count && key == fill_key(prefix, i));
            }
            if is_fill_key(prefix, count, key) && key != last {
                let i = choose|i: int| 0 <= i < count && key == #[trigger] fill_key(prefix, i);
                assert(0 <= i < n && key == fill_key(prefix, i));
            }
        }
        assert(fill_entries(prefix, count, value_size).last() == (last, zeros(value_size)));
        assert(inserted(storage, fill_entries(prefix, count, value_size)) == inserted(
            storage,
            fill_entries(prefix, n, value_size),
        ).insert(last, zeros(value_size)));
    }
}

/// Two `fill` calls with one prefix and one value size, in either order, do what the longer of
/// them does.
pub proof fn law_two_fills_are_the_longer_one(
    storage: Map<Seq<u8>, Seq<u8>>,
    prefix: Seq<char>,
    first: nat,
    second: nat,
    value_size: nat,
)
    ensures
        inserted(
            inserted(storage, fill_entries(prefix, first, value_size)),
            fill_entries(prefix, second, value_size),
        ) == inserted(
            storage,
            fill_entries(
                prefix,
                if first < second {
                    second
                } else {
                    first
                },
                value_size,
            ),
        ),
{
    let longer = if first < second {
        second
    } else {
        first
    };
    let once = inserted(storage, fill_entries(prefix, first, value_size));
    let twice = inserted(once, fill_entries(prefix, second, value_size));
    let at_once = inserted(storage, fill_entries(prefix, longer, value_size));
    law_fill_sets_its_keys(storage, prefix, first, value_size);
    law_fill_sets_its_keys(once, prefix, second, value_size);
    law_fill_sets_its_keys(storage, prefix, longer, value_size);
    assert forall|key: Seq<u8>| is_fill_key(prefix, longer, key) == (is_fill_key(
        prefix,
        first,
        key,
    ) || is_fill_key(prefix, second, key)) by {
        if is_fill_key(prefix, first, key) {
            let i = choose|i: int| 0 <= i < first && key == #[trigger] fill_key(prefix, i);
            assert(0 <= i < longer && key == fill_key(prefix, i));
        }
        if is_fill_key(prefix, second, key) {
            let i = choose|i: int| 0 <= i < second && key == #[trigger] fill_key(prefix, i);
            assert(0 <= i < longer && key == fill_key(prefix, i));
        }
    }
    assert forall|key: Seq<u8>| twice.dom().contains(key) implies twice[key] == at_once[key] by {
        assert(at_once.dom().contains(key));
        assert(once.dom().contains(key) || is_fill_key(prefix, second, key));
    }
    assert(twice.dom() =~= at_once.dom());
    assert(twice =~= at_once);
}

/// A transaction that is built for a wipe goes from the account to itself and has two actions:
/// it deploys the very code that was handed in, and it calls `clean` with the whole gas budget,
/// as far as that fits in 64 bits, and no deposit.
pub proof fn law_wipe_deploys_the_code_and_calls_clean(
    transaction: PrepopulatedTransaction,
    account_id: Seq<char>,
    entries: Seq<StateEntry>,
    constants: ProtocolConstants,
    wasm: Seq<u8>,
)
    requires
        transaction@ == wipe_transaction(account_id, entries, constants, wasm),
    ensures
        transaction.signer_id@ == account_id,
        transaction.receiver_id@ == account_id,
        transaction.actions@.len() == 2,
        transaction.actions@[0] matches Action::DeployContract(deploy) && deploy.code@ == wasm,
        transaction.actions@[1] matches Action::FunctionCall(call) && {
            &&& call.method_name@ == "clean"@
            &&& constants.max_total_prepaid_gas <= u64::MAX ==> call.gas
                == constants.max_total_prepaid_gas
            &&& call.deposit == 0
        },
{
    let views = action_views(transaction.actions@);
    assert(views.len() == transaction.actions@.len());
    assert(views[0] == transaction.actions@[0]@ && views[1] == transaction.actions@[1]@);
}

/// A wipe names every key. Take the `clean` call of the transaction that is built for `entries`,
/// let `texts` be the strings under "keys" in the JSON of its arguments and `removed` the keys
/// that they encode. There are as many as there are entries, and each is the key of the entry in
/// its place. A storage in which every key is that of some entry is empty once they are removed,
/// and what else is in a storage stays there.
pub proof fn law_wipe_names_every_key(
    transaction: PrepopulatedTransaction,
    account_id: Seq<char>,
    entries: Seq<StateEntry>,
    constants: ProtocolConstants,
    wasm: Seq<u8>,
    texts: Seq<Seq<char>>,
    removed: Seq<Seq<u8>>,
    storage: Map<Seq<u8>, Seq<u8>>,
)
    requires
        transaction@ == wipe_transaction(account_id, entries, constants, wasm),
        transaction.actions@[1] matches Action::FunctionCall(call) && call.args@ == encode_utf8(
            json_object("keys"@, texts),
        ),
        forall|i: int| 0 <= i < texts.len() ==> all_plain(#[trigger] texts[i]),
        removed.len() == texts.len(),
        forall|i: int| 0 <= i < removed.len() ==> text_of(#[trigger] removed[i]) == texts[i],
    ensures
        removed.len() == entries.len(),
        forall|i: int| 0 <= i < entries.len() ==> #[trigger] removed[i] == entries[i].key@,
        (forall|key: Seq<u8>| #[trigger]
            storage.dom().contains(key) ==> exists|i: int|
                0 <= i < entries.len() && (#[trigger] entries[i]).key@ == key)
            ==> storage.remove_keys(removed.to_set()) == Map::<Seq<u8>, Seq<u8>>::empty(),
        forall|key: Seq<u8>| #[trigger]
            storage.dom().contains(key) && (forall|i: int|
                0 <= i < entries.len() ==> (#[trigger] entries[i]).key@ != key)
                ==> storage.remove_keys(removed.to_set()).dom().contains(key)
                && storage.remove_keys(removed.to_set())[key] == storage[key],
{
    let views = action_views(transaction.actions@);
    assert(views.len() == transaction.actions@.len());
    assert(views[1] == transaction.actions@[1]@);
    let keys = keys_of(entries);
    lemma_args_determine_texts(keys, texts);
    assert(texts.len() == entries.len());
    assert forall|i: int| 0 <= i < entries.len() implies #[trigger] removed[i]
        == entries[i].key@ by {
        assert(texts_of(keys)[i] == text_of(entries[i].key@));
        lemma_text_is_injective(removed[i], entries[i].key@);
    }
    let left = storage.remove_keys(removed.to_set());
    if forall|key: Seq<u8>| #[trigger]
        storage.dom().contains(key) ==> exists|i: int|
            0 <= i < entries.len() && (#[trigger] entries[i]).key@ == key {
        assert forall|key: Seq<u8>| !left.dom().contains(key) by {
            if storage.dom().contains(key) {
                let i = choose|i: int|
                    0 <= i < entries.len() && (#[trigger] entries[i]).key@ == key;
                assert(removed[i] == key);
                assert(removed.to_set().contains(key));
            }
        }
        assert(left =~= Map::<Seq<u8>, Seq<u8>>::empty());
    }
    assert forall|key: Seq<u8>| #[trigger]
        storage.dom().contains(key) && (forall|i: int|
            0 <= i < entries.len() ==> (#[trigger] entries[i]).key@
                != key) implies left.dom().contains(key) && left[key] == storage[key] by {
        if removed.contains(key) {
            let i = choose|i: int| 0 <= i < removed.len() && removed[i] == key;
            assert(entries[i].key@ == key);
        }
        assert(!removed.to_set().contains(key));
    }
}

/// The arguments of a `clean` call hold the texts of the entries' keys and nothing else: as many
/// as there are entries, in their order.
pub proof fn law_args_hold_the_key_of_each_entry(entries: Seq<StateEntry>)
    ensures
        args_bytes(keys_of(entries)) == encode_utf8(
            json_object("keys"@, Seq::new(entries.len(), |i: int| text_of(entries[i].key@))),
        ),
{
    assert(texts_of(keys_of(entries)) =~= Seq::new(
        entries.len(),
        |i: int| text_of(entries[i].key@),
    ));
}

/// The size estimate is tight on both sides: for an ed25519 or a secp256k1 key it exceeds the
/// signed transaction, whatever its actions and its account, by more than 70 bytes and by less
/// than the wrapper.
pub proof fn law_size_is_tight(
    actions: Seq<ActionView>,
    account_id: Seq<char>,
    public_key_bytes: nat,
    signature_bytes: nat,
)
    requires
        public_key_bytes <= 64,
        signature_bytes <= 65,
    ensures
        ({
            let ids = 2 * (4 + encode_utf8(account_id).len());
            let signed = ids + (1 + public_key_bytes) + 8 + 32 + actions_bytes(actions).len() + (1
                + signature_bytes);
            signed + 70 < transaction_size(actions, account_id) < signed + 256
        }),
{
}

/// The size estimate is the length of the serialized actions and 256 bytes where the account id
/// is empty, and every byte of the account id adds two.
pub proof fn law_size_counts_the_account_twice(
    actions: Seq<ActionView>,
    account_id: Seq<char>,
    other_id: Seq<char>,
)
    ensures
        transaction_size(actions, Seq::empty()) == actions_bytes(actions).len() + 256,
        transaction_size(actions, account_id) - transaction_size(actions, other_id) == 2 * (
        encode_utf8(account_id).len() - encode_utf8(other_id).len()),
{
}

/// One more action adds its tag, its fields, and four bytes for the length of each field that
/// has one.
pub proof fn law_size_grows_by_the_action(
    actions: Seq<ActionView>,
    action: ActionView,
    account_id: Seq<char>,
)
    ensures
        transaction_size(actions.push(action), account_id) - transaction_size(actions, account_id)
            == match action {
            ActionView::DeployContract { code } => 5 + code.len(),
            ActionView::FunctionCall { method_name, args, .. } => 33 + encode_utf8(
                method_name,
            ).len() + args.len(),
        },
{
    assert(actions.push(action).drop_last() =~= actions);
}

/// The size estimate of a wipe is the length of the code, that of the `clean` arguments, twice
/// that of the account id, and 303 bytes for the rest.
pub proof fn law_wipe_size_is_exact(
    account_id: Seq<char>,
    entries: Seq<StateEntry>,
    constants: ProtocolConstants,
    wasm: Seq<u8>,
)
    ensures
        transaction_size(wipe_actions(entries, constants, wasm), account_id) == wasm.len()
            + encode_utf8(
            json_object("keys"@, Seq::new(entries.len(), |i: int| text_of(entries[i].key@))),
        ).len() + 303 + 2 * encode_utf8(account_id).len(),
{
    lemma_wipe_size(account_id, entries, constants, wasm);
}

/// A wipe is refused for the first of these reasons that applies, with these amounts, and for no
/// other: there are no entries; the gas estimate exceeds the budget; the budget exceeds 64 bits;
/// the code or the arguments exceed the length that can be written; less than 100 KiB are left
/// to the size limit.
pub proof fn law_refusals_are_exact(
    account_id: Seq<char>,
    entries: Seq<StateEntry>,
    constants: ProtocolConstants,
    wasm: Seq<u8>,
)
    ensures
        ({
            let refusal = wipe_refusal(account_id, entries, constants, wasm);
            let gas = total_gas(entries, constants.gas);
            let budget = constants.max_total_prepaid_gas as int;
            let limit = constants.max_transaction_size as int;
            let args = encode_utf8(
                json_object("keys"@, Seq::new(entries.len(), |i: int| text_of(entries[i].key@))),
            );
            let size = wasm.len() + args.len() + 303 + 2 * encode_utf8(account_id).len();
            if entries.len() == 0 {
                refusal == Some(Refusal::NoState)
            } else if gas > budget {
                refusal == Some(Refusal::TooMuchGas { estimated: gas, budget })
            } else if budget >= 0x1_0000_0000_0000_0000 {
                refusal == Some(Refusal::BudgetTooLarge { budget })
            } else if wasm.len() >= 0x1_0000_0000 || args.len() >= 0x1_0000_0000 {
                refusal matches Some(Refusal::Unserializable { .. })
            } else if size > limit - 102400 {
                refusal == Some(Refusal::TooLarge { estimated: size as int, limit })
            } else {
                refusal is None
            }
        }),
        gas_refusal(entries, constants) == match wipe_refusal(account_id, entries, constants, wasm) {
            Some(Refusal::Unserializable { .. }) | Some(Refusal::TooLarge { .. }) => None,
            refusal => refusal,
        },
{
    lemma_wipe_size(account_id, entries, constants, wasm);
}

/// An error tells the reason for which it stands, and no two reasons have one error.
pub proof fn law_errors_tell_the_reason(error: BuildError)
    ensures
        match error {
            BuildError::NoState => error.refusal() == Refusal::NoState,
            BuildError::TooMuchGas { estimated, budget } => error.refusal()
                == (Refusal::TooMuchGas { estimated: estimated as int, budget: budget as int }),
            BuildError::BudgetTooLarge { budget } => error.refusal() == (Refusal::BudgetTooLarge {
                budget: budget as int,
            }),
            BuildError::Unserializable(e) => error.refusal() == (Refusal::Unserializable {
                source: e.source,
            }),
            BuildError::TooLarge { estimated, limit } => error.refusal() == (Refusal::TooLarge {
                estimated: estimated as int,
                limit: limit as int,
            }),
        },
{
}

/// A cost is read as what it says: a JSON number as itself, and a string of decimal digits, with
/// or without a `+` in front, as the number that the digits stand for, unless that exceeds 128
/// bits.
pub proof fn law_costs_are_read_as_they_stand(n: u64, text: String, digits: Seq<char>)
    requires
        text@ == digits || text@ == seq!['+'] + digits,
        digits.len() > 0,
        forall|i: int| 0 <= i < digits.len() ==> '0' <= #[trigger] digits[i] <= '9',
    ensures
        reported_cost(CostValue::Number(Some(n))) == Some(n as u128),
        value_of(digits) <= u128::MAX ==> reported_cost(CostValue::Text(text)) == Some(
            value_of(digits) as u128,
        ),
        value_of(digits) > u128::MAX ==> reported_cost(CostValue::Text(text)) is None,
{
    lemma_parsed_text(text@);
    assert(value_of(digits) <= u128::MAX || value_of(digits) > u128::MAX);
}

/// A string that is empty, that is a lone `+`, or that holds anything but digits behind its
/// first character is read as no cost; neither is one whose first character is neither a digit
/// nor a `+`, a number that is no whole one of 64 bits, nor any other value.
pub proof fn law_nothing_else_is_a_cost(text: String, i: int)
    requires
        ({
            ||| text@.len() == 0
            ||| text@ == seq!['+']
            ||| 0 <= i < text@.len() && !('0' <= text@[i] <= '9') && (i > 0 || text@[0] != '+')
        }),
    ensures
        reported_cost(CostValue::Text(text)) is None,
        reported_cost(CostValue::Number(None)) is None,
        reported_cost(CostValue::Other) is None,
        cost_failure(CostValue::Number(None)) == CostError::NotU64,
        cost_failure(CostValue::Text(text)) == CostError::Unparsable(parse_failure(text@)),
        cost_failure(CostValue::Other) == CostError::WrongKind,
{
    let s = text@;
    if parsed_u128(s) is Some {
        lemma_parsed_text(s);
        let digits = choose|digits: Seq<char>|
            {
                &&& s == digits || s == seq!['+'] + digits
                &&& digits.len() > 0 && all_digits(digits)
                &&& parsed_u128(s)->0 == #[trigger] value_of(digits)
            };
        if s == digits {
            assert('0' <= digits[i] <= '9');
        } else {
            assert(s.len() == digits.len() + 1);
            assert(digits[i - 1] == s[i]);
            assert(false);
        }
    }
}

/// Digits stand for a number place by place: none for zero, and each further digit for ten times
/// what stands before it and itself.
pub proof fn law_digits_stand_for_their_number(s: Seq<char>, d: char)
    requires
        '0' <= d <= '9',
    ensures
        value_of(Seq::empty()) == 0,
        value_of(s.push(d)) == 10 * value_of(s) + (d as int - '0' as int),
        all_digits(s) ==> all_digits(s.push(d)),
{
    assert(s.push(d).drop_last() =~= s);
}

/// Decimal notation is written place by place: one digit for a number below ten, and for ten
/// times a positive number and a digit the notation of that number with the digit behind it.
pub proof fn law_decimal_is_written_place_by_place(n: nat, d: nat)
    requires
        d < 10,
    ensures
        decimal(d) == seq![('0' as int + d) as char],
        n > 0 ==> decimal(10 * n + d) == decimal(n).push(('0' as int + d) as char),
{
    assert((10 * n + d) / 10 == n && (10 * n + d) % 10 == d);
}

/// The estimate for one entry is 130 hundredths of the base cost, the cost of the key's bytes
/// and that of the value's bytes, rounded down to a gas unit.
pub proof fn law_estimate_is_exact(key_bytes: nat, value_bytes: nat, c: GasConstants)
    ensures
        100 * key_gas(key_bytes as int, value_bytes as int, c) <= 130 * (c.storage_remove_base
            + key_bytes * c.storage_remove_key_byte + value_bytes
            * c.storage_remove_ret_value_byte) < 100 * key_gas(
            key_bytes as int,
            value_bytes as int,
            c,
        ) + 100,
{
}

/// The estimate for no entries is zero, and one more entry, whatever the others, raises it by
/// 130 hundredths of what the entry costs, rounded down.
pub proof fn law_total_gas_counts_each_entry_once(
    entries: Seq<StateEntry>,
    entry: StateEntry,
    c: GasConstants,
)
    ensures
        total_gas(Seq::empty(), c) == 0,
        ({
            let more = total_gas(entries.push(entry), c) - total_gas(entries, c);
            100 * more <= 130 * (c.storage_remove_base + entry.key@.len()
                * c.storage_remove_key_byte + entry.value_bytes * c.storage_remove_ret_value_byte)
                < 100 * more + 100
        }),
{
    assert(entries.push(entry).drop_last() =~= entries);
}

/// The estimate for a list of entries can be computed exactly where 130 times the cost of each
/// entry, and the estimate itself, stay within 128 bits.
pub proof fn law_estimate_needs_only_128_bits(entries: Seq<StateEntry>, c: GasConstants)
    ensures
        total_gas_fits(entries, c) <==> total_gas(entries, c) <= u128::MAX && forall|i: int|
            0 <= i < entries.len() ==> (c.storage_remove_base + (#[trigger] entries[i]).key@.len()
                * c.storage_remove_key_byte + entries[i].value_bytes
                * c.storage_remove_ret_value_byte) * 130 <= u128::MAX,
{
}

/// A `fill` call inserts as many entries as it is asked for: the key of each is the prefix and
/// its number, and its value is as many zero bytes as it is asked for.
pub proof fn law_fill_inserts_what_it_is_asked_for(
    prefix: Seq<char>,
    count: nat,
    value_size: nat,
    i: int,
    j: int,
)
    requires
        0 <= i < count,
    ensures
        ({
            let entries = fill_entries(prefix, count, value_size);
            &&& entries.len() == count
            &&& entries[i].0 == encode_utf8(prefix + decimal(i as nat))
            &&& entries[i].1.len() == value_size
            &&& 0 <= j < value_size ==> entries[i].1[j] == 0
        }),
{
}

/// The message for a failed query points at the remedy exactly where "too large" stands
/// somewhere in the error or in its details; elsewhere it passes the error on.
pub proof fn law_size_cap_is_told_by_its_words(
    before: Seq<char>,
    after: Seq<char>,
    rendered: Seq<char>,
    inner: Seq<char>,
)
    ensures
        view_state_failure(before + "too large"@ + after, inner) == STATE_TOO_LARGE@,
        view_state_failure(rendered, before + "too large"@ + after) == STATE_TOO_LARGE@,
        (forall|a: Seq<char>, b: Seq<char>|
            rendered != #[trigger] (a + "too large"@ + b) && inner != a + "too large"@ + b)
            ==> view_state_failure(rendered, inner) == "Failed to fetch ViewState: "@ + rendered,
{
    let words = "too large"@;
    let text = before + words + after;
    assert(text.subrange(before.len() as int, before.len() as int + words.len()) =~= words);
    assert(occurs_in(words, text));
    assert forall|s: Seq<char>| occurs_in(words, s) implies exists|a: Seq<char>, b: Seq<char>|
        s == #[trigger] (a + words + b) by {
        let i = choose|i: int|
            0 <= i <= s.len() - words.len() && #[trigger] s.subrange(i, i + words.len()) == words;
        assert(s =~= s.take(i) + words + s.skip(i + words.len()));
    }
}

/// The base64 text of a string that comes after whole groups of three bytes stands behind
/// theirs, and a group of three, two or one bytes is written six bits at a time in the standard
/// alphabet, with `=` for what no byte reaches.
#[verifier::spinoff_prover]
pub proof fn law_base64_is_written_by_groups(head: Seq<u8>, tail: Seq<u8>, a: u8, b: u8, c: u8)
    requires
        head.len() % 3 == 0,
    ensures
        text_of(Seq::empty()) == Seq::<char>::empty(),
        text_of(head + tail) == text_of(head) + text_of(tail),
        ({
            let alphabet = "ABCDEFGHIJKLMNOPQRSTUVWXYZabcdefghijklmnopqrstuvwxyz0123456789+/"@;
            &&& text_of(seq![a]) == seq![
                alphabet[a as int / 4],
                alphabet[a as int % 4 * 16],
                '=',
                '=',
            ]
            &&& text_of(seq![a, b]) == seq![
                alphabet[a as int / 4],
                alphabet[a as int % 4 * 16 + b as int / 16],
                alphabet[b as int % 16 * 4],
                '=',
            ]
            &&& text_of(seq![a, b, c]) == seq![
                alphabet[a as int / 4],
                alphabet[a as int % 4 * 16 + b as int / 16],
                alphabet[b as int % 16 * 4 + c as int / 64],
                alphabet[c as int % 64],
            ]
        }),
{
    lemma_text_concat(head, tail);
    let s = seq![a, b, c];
    lemma_symbols(a as int / 4);
    lemma_symbols(a as int % 4 * 16);
    lemma_symbols(a as int % 4 * 16 + b as int / 16);
    lemma_symbols(b as int % 16 * 4);
    lemma_symbols(b as int % 16 * 4 + c as int / 64);
    lemma_symbols(c as int % 64);
    lemma_sextets(a as int, 0, 0);
    lemma_sextets(a as int, b as int, 0);
    lemma_sextets(a as int, b as int, c as int);
    assert(text_of(seq![a]).len() == 4 && text_of(seq![a, b]).len() == 4 && text_of(s).len() == 4);
    assert(group(seq![a], 0) == 65536 * a);
    assert(group(seq![a, b], 0) == 65536 * a + 256 * b);
    assert(group(s, 0) == 65536 * a + 256 * b + c);
}

proof fn lemma_text_concat(head: Seq<u8>, tail: Seq<u8>)
    requires
        head.len() % 3 == 0,
    ensures
        text_of(head + tail) == text_of(head) + text_of(tail),
{
    let n = head.len() as int / 3;
    assert(head.len() == 3 * n);
    assert((head.len() + 2) / 3 == n);
    assert((head.len() + tail.len() + 2) / 3 == n + (tail.len() + 2) / 3);
    assert forall|i: int| 0 <= i < text_of(head + tail).len() implies text_of(head + tail)[i] == (
    text_of(head) + text_of(tail))[i] by {
        lemma_text_concat_at(head, tail, i / 4, i % 4);
    }
    assert(text_of(head + tail) =~= text_of(head) + text_of(tail));
}

/// Character `p` of group `g` in the text of two strings, the first of them whole groups.
#[verifier::spinoff_prover]
proof fn lemma_text_concat_at(head: Seq<u8>, tail: Seq<u8>, g: int, p: int)
    requires
        head.len() % 3 == 0,
        0 <= g && 0 <= p < 4,
        4 * g + p < text_of(head + tail).len(),
    ensures
        text_of(head + tail)[4 * g + p] == (text_of(head) + text_of(tail))[4 * g + p],
{
    let n = head.len() as int / 3;
    assert(head.len() == 3 * n);
    assert((4 * g + p) / 4 == g && (4 * g + p) % 4 == p);
    if g < n {
        assert(group(head + tail, g) == group(head, g));
    } else {
        let k = 4 * (g - n) + p;
        assert(k / 4 == g - n && k % 4 == p);
        assert(group(head + tail, g) == group(tail, g - n));
    }
}

#[verifier::spinoff_prover]
proof fn lemma_symbols(v: int)
    requires
        0 <= v < 64,
    ensures
        symbol(v) == "ABCDEFGHIJKLMNOPQRSTUVWXYZabcdefghijklmnopqrstuvwxyz0123456789+/"@[v],
{
    reveal_strlit("ABCDEFGHIJKLMNOPQRSTUVWXYZabcdefghijklmnopqrstuvwxyz0123456789+/");
}

#[verifier::spinoff_prover]
proof fn lemma_sextets(a: int, b: int, c: int)
    requires
        0 <= a < 256,
        0 <= b < 256,
        0 <= c < 256,
    ensures
        ({
            let v = 65536 * a + 256 * b + c;
            &&& sextet(v, 0) == a / 4
            &&& sextet(v, 1) == a % 4 * 16 + b / 16
            &&& sextet(v, 2) == b % 16 * 4 + c / 64
            &&& sextet(v, 3) == c % 64
        }),
{
    let v = 65536 * a + 256 * b + c;
    lemma_group_bytes(a, b, c);
    let (s0, s1, s2, s3) = (sextet(v, 0), sextet(v, 1), sextet(v, 2), sextet(v, 3));
    assert(a / 4 == s0 && a % 4 == s1 / 16);
    assert(b / 16 == s1 % 16 && b % 16 == s2 / 4);
    assert(c / 64 == s2 % 4 && c % 64 == s3);
}

/// A list in the JSON of the `clean` arguments is written item by item: without items it is a
/// pair of brackets, and a further item goes in quotes before the closing brackets, behind a
/// comma if it is not the first.
pub proof fn law_json_is_written_by_items(
    field: Seq<char>,
    items: Seq<Seq<char>>,
    item: Seq<char>,
)
    ensures
        json_object(field, Seq::empty()) == seq!['{', '"'] + field + seq!['"', ':', '[', ']', '}'],
        ({
            let before = json_object(field, items);
            json_object(field, items.push(item)) == before.take(before.len() - 2) + if items.len()
                == 0 {
                seq!['"']
            } else {
                seq![',', '"']
            } + item + seq!['"', ']', '}']
        }),
{
    lemma_listed_push(items, item);
    assert(json_object(field, Seq::empty()) =~= seq!['{', '"'] + field + seq![
        '"',
        ':',
        '[',
        ']',
        '}',
    ]);
    let before = json_object(field, items);
    let comma = if items.len() == 0 {
        seq!['"']
    } else {
        seq![',', '"']
    };
    assert(before.take(before.len() - 2) =~= seq!['{'] + quoted(field) + seq![':', '['] + listed(
        items,
    ));
    assert(json_object(field, items.push(item)) =~= before.take(before.len() - 2) + comma + item
        + seq!['"', ']', '}']);
}

proof fn lemma_listed_push(items: Seq<Seq<char>>, item: Seq<char>)
    ensures
        listed(items.push(item)) == listed(items) + if items.len() == 0 {
            quoted(item)
        } else {
            seq![','] + quoted(item)
        },
    decreases items.len(),
{
    if items.len() == 0 {
        assert(listed(items.push(item)) =~= listed(items) + quoted(item));
    } else {
        let rest = items.drop_first();
        lemma_listed_push(rest, item);
        assert(items.push(item).drop_first() =~= rest.push(item));
        assert(items.push(item)[0] == items[0]);
        assert(listed(items.push(item)) =~= listed(items) + (seq![','] + quoted(item)));
    }
}

/// Actions are serialized one behind the other: the number of actions in four bytes, then for
/// each the tag of its kind and its fields, byte strings behind their lengths and numbers with
/// the least significant byte first.
pub proof fn law_actions_are_serialized_in_order(actions: Seq<ActionView>, action: ActionView)
    ensures
        actions_bytes(Seq::empty()) == seq![0u8, 0, 0, 0],
        actions_bytes(actions.push(action)) == le_bytes(actions.len() + 1, 4) + actions_bytes(
            actions,
        ).skip(4) + match action {
            ActionView::DeployContract { code } => seq![1u8] + le_bytes(code.len(), 4) + code,
            ActionView::FunctionCall { method_name, args, gas, deposit } => seq![2u8] + le_bytes(
                encode_utf8(method_name).len(),
                4,
            ) + encode_utf8(method_name) + le_bytes(args.len(), 4) + args + le_bytes(
                gas as nat,
                8,
            ) + le_bytes(deposit as nat, 16),
        },
{
    let none = Seq::<ActionView>::empty();
    assert forall|i: int| 0 <= i < 4 implies le_bytes(0, 4)[i] == 0 by {
        vstd::arithmetic::power::lemma_pow_positive(256, i as nat);
        vstd::arithmetic::div_mod::lemma_div_basics(pow(256, i as nat));
    }
    assert(actions_bytes(none) =~= seq![0u8, 0, 0, 0]);
    assert(actions.push(action).drop_last() =~= actions);
    assert(actions_bytes(actions).skip(4) =~= concatenated(actions));
    let own = match action {
        ActionView::DeployContract { code } => seq![1u8] + le_bytes(code.len(), 4) + code,
        ActionView::FunctionCall { method_name, args, gas, deposit } => seq![2u8] + le_bytes(
            encode_utf8(method_name).len(),
            4,
        ) + encode_utf8(method_name) + le_bytes(args.len(), 4) + args + le_bytes(gas as nat, 8)
            + le_bytes(deposit as nat, 16),
    };
    assert(action_bytes(action) =~= own);
    assert(actions_bytes(actions.push(action)) =~= le_bytes(actions.len() + 1, 4) + actions_bytes(
        actions,
    ).skip(4) + own);
}

/// A number is written with its lowest byte first and what is above that byte behind it.
pub proof fn law_numbers_are_written_little_endian(n: nat, width: nat)
    ensures
        le_bytes(n, 0) == Seq::<u8>::empty(),
        le_bytes(n, width + 1) == seq![(n % 256) as u8] + le_bytes(n / 256, width),
{
    reveal(pow);
    let both = seq![(n % 256) as u8] + le_bytes(n / 256, width);
    assert forall|i: int| 0 <= i < width + 1 implies le_bytes(n, width + 1)[i] == both[i] by {
        if i == 0 {
            assert(pow(256, 0) == 1);
            assert(n as int / 1 == n);
        } else {
            let below = pow(256, (i - 1) as nat);
            vstd::arithmetic::power::lemma_pow_positive(256, (i - 1) as nat);
            assert(pow(256, i as nat) == 256 * below);
            vstd::arithmetic::div_mod::lemma_div_denominator(n as int, 256, below);
        }
    }
    assert(le_bytes(n, width + 1) =~= both);
}

/// Actions can be serialized exactly where their number and the length of every byte string in
/// them stay below 2^32.
pub proof fn law_lengths_fit_below_4_gib(actions: Seq<ActionView>, action: ActionView)
    ensures
        lengths_fit(Seq::empty()),
        lengths_fit(actions.push(action)) <==> {
            &&& lengths_fit(actions) && actions.len() + 1 < 0x1_0000_0000
            &&& match action {
                ActionView::DeployContract { code } => code.len() < 0x1_0000_0000,
                ActionView::FunctionCall { method_name, args, .. } => encode_utf8(
                    method_name,
                ).len() < 0x1_0000_0000 && args.len() < 0x1_0000_0000,
            }
        },
{
    let more = actions.push(action);
    if lengths_fit(more) {
        assert(action_lengths_fit(more[actions.len() as int]));
        assert forall|i: int| 0 <= i < actions.len() implies action_lengths_fit(
            #[trigger] actions[i],
        ) by {
            assert(action_lengths_fit(more[i]));
        }
    }
}

/// The view of an action is what its fields hold.
pub proof fn law_views_hold_every_field(actions: Seq<Action>, i: int)
    requires
        0 <= i < actions.len(),
    ensures
        action_views(actions).len() == actions.len(),
        match actions[i] {
            Action::DeployContract(a) => action_views(actions)[i] == (ActionView::DeployContract {
                code: a.code@,
            }),
            Action::FunctionCall(a) => action_views(actions)[i] == (ActionView::FunctionCall {
                method_name: a.method_name@,
                args: a.args@,
                gas: a.gas,
                deposit: a.deposit,
            }),
        },
{
}

/// `clean` takes exactly the texts that are the base64 of some key, and gives the keys back in
/// order.
pub proof fn law_clean_reads_text_by_text(keys: Seq<String>, removed: Seq<Vec<u8>>)
    requires
        texts_of(byte_views(removed)) == string_views(keys),
    ensures
        removed.len() == keys.len(),
        forall|i: int| 0 <= i < keys.len() ==> text_of((#[trigger] removed[i])@) == keys[i]@,
{
    assert(byte_views(removed).len() == removed.len() && string_views(keys).len() == keys.len());
    assert(texts_of(byte_views(removed)).len() == byte_views(removed).len());
    assert forall|i: int| 0 <= i < keys.len() implies text_of((#[trigger] removed[i])@)
        == keys[i]@ by {
        assert(byte_views(removed)[i] == removed[i]@);
        assert(texts_of(byte_views(removed))[i] == string_views(keys)[i]);
    }
}

/// A wipe, from end to end. `build_transaction` is called for `entries`, the strings `keys` are
/// what the JSON of its `clean` call lists under "keys", and `clean` is called with them. Then
/// `clean` accepts them, and it removes as many keys as there are entries, each the key of the
/// entry in its place.
pub proof fn law_clean_is_handed_the_key_of_each_entry(
    account_id: &str,
    entries: &[StateEntry],
    constants: &ProtocolConstants,
    wasm: Vec<u8>,
    transaction: PrepopulatedTransaction,
    keys: &Vec<String>,
    cleaned: Result<Vec<Vec<u8>>, BadKey>,
)
    requires
        call_ensures(
            build_transaction,
            (account_id, entries, constants, wasm),
            Ok::<PrepopulatedTransaction, BuildError>(transaction),
        ),
        transaction.actions@[1] matches Action::FunctionCall(call) && call.args@ == encode_utf8(
            json_object("keys"@, Seq::new(keys@.len(), |i: int| keys@[i]@)),
        ),
        forall|i: int| 0 <= i < keys@.len() ==> all_plain(#[trigger] keys@[i]@),
        call_ensures(clean, (keys,), cleaned),
    ensures
        cleaned matches Ok(removed) && removed@.len() == entries@.len() && forall|i: int|
            0 <= i < entries@.len() ==> (#[trigger] removed@[i])@ == entries@[i].key@,
{
    let texts = Seq::new(keys@.len(), |i: int| keys@[i]@);
    lemma_wipe_size(account_id@, entries@, *constants, wasm@);
    lemma_args_determine_texts(keys_of(entries@), texts);
    assert(texts.len() == entries@.len());
    assert forall|i: int| 0 <= i < entries@.len() implies #[trigger] keys@[i]@ == text_of(
        entries@[i].key@,
    ) by {
        assert(texts[i] == texts_of(keys_of(entries@))[i]);
    }
    if let Ok(removed) = cleaned {
        assert forall|i: int| 0 <= i < entries@.len() implies (#[trigger] removed@[i])@
            == entries@[i].key@ by {
            lemma_text_is_injective(removed@[i]@, entries@[i].key@);
        }
    }
}

/// What `build_transaction` gives for an account. A transaction goes from the account to itself
/// and consists of the deployment of the code that was handed in and of a `clean` call for the
/// keys of the entries, with the whole gas budget and no deposit.
pub proof fn law_built_transactions_wipe_the_account(
    account_id: &str,
    entries: &[StateEntry],
    constants: &ProtocolConstants,
    wasm: Vec<u8>,
    transaction: PrepopulatedTransaction,
)
    requires
        call_ensures(
            build_transaction,
            (account_id, entries, constants, wasm),
            Ok::<PrepopulatedTransaction, BuildError>(transaction),
        ),
    ensures
        transaction.signer_id@ == account_id@ && transaction.receiver_id@ == account_id@,
        transaction.actions@.len() == 2,
        transaction.actions@[0] matches Action::DeployContract(deploy) && deploy.code@ == wasm@,
        transaction.actions@[1] matches Action::FunctionCall(call) && {
            &&& call.method_name@ == "clean"@
            &&& call.args@ == encode_utf8(
                json_object(
                    "keys"@,
                    Seq::new(entries@.len(), |i: int| text_of(entries@[i].key@)),
                ),
            )
            &&& call.gas == constants.max_total_prepaid_gas
            &&& call.deposit == 0
        },
{
}

/// When `build_transaction` builds a transaction, and what it refuses otherwise, with the
/// amounts in the error. `gas` is what `estimate_total_gas` gives for the entries.
pub proof fn law_build_transaction_keeps_the_limits(
    account_id: &str,
    entries: &[StateEntry],
    constants: &ProtocolConstants,
    wasm: Vec<u8>,
    gas: u128,
    r: Result<PrepopulatedTransaction, BuildError>,
)
    requires
        call_ensures(estimate_total_gas, (entries, &constants.gas), gas),
        call_ensures(build_transaction, (account_id, entries, constants, wasm), r),
    ensures
        ({
            let args = encode_utf8(
                json_object(
                    "keys"@,
                    Seq::new(entries@.len(), |i: int| text_of(entries@[i].key@)),
                ),
            );
            let budget = constants.max_total_prepaid_gas;
            let size = wasm@.len() + args.len() + 303 + 2 * encode_utf8(account_id@).len();
            if entries@.len() == 0 {
                r matches Err(BuildError::NoState)
            } else if gas > budget {
                r matches Err(BuildError::TooMuchGas { estimated, budget: b }) && estimated == gas
                    && b == budget
            } else if budget >= 0x1_0000_0000_0000_0000 {
                r matches Err(BuildError::BudgetTooLarge { budget: b }) && b == budget
            } else if wasm@.len() >= 0x1_0000_0000 || args.len() >= 0x1_0000_0000 {
                r matches Err(BuildError::Unserializable(_))
            } else if size > constants.max_transaction_size - 102400 {
                r matches Err(BuildError::TooLarge { estimated, limit }) && estimated == size
                    && limit == constants.max_transaction_size
            } else {
                r is Ok
            }
        }),
{
}

/// `preflight_gas` gives what `estimate_total_gas` gives, and refuses as `build_transaction`
/// does, where the gas limits decide.
pub proof fn law_preflight_agrees_with_the_build(
    account_id: &str,
    entries: &[StateEntry],
    constants: &ProtocolConstants,
    wasm: Vec<u8>,
    gas: u128,
    preflight: Result<u128, BuildError>,
    r: Result<PrepopulatedTransaction, BuildError>,
)
    requires
        call_ensures(estimate_total_gas, (entries, &constants.gas), gas),
        call_ensures(preflight_gas, (entries, constants), preflight),
        call_ensures(build_transaction, (account_id, entries, constants, wasm), r),
    ensures
        preflight matches Ok(estimated) ==> estimated == gas && entries@.len() > 0 && gas
            <= constants.max_total_prepaid_gas <= u64::MAX,
        preflight matches Err(e) ==> r matches Err(f) && e.refusal() == f.refusal(),
        preflight is Err <==> (r matches Err(f) && !(f is Unserializable) && !(f is TooLarge)),
{
}

/// The arguments that `clean_args` writes list the base64 of the key of each entry, in order and
/// without any other.
pub proof fn law_clean_args_list_the_key_of_each_entry(entries: &[StateEntry], args: Vec<u8>)
    requires
        call_ensures(clean_args, (entries,), args),
    ensures
        args@ == encode_utf8(
            json_object("keys"@, Seq::new(entries@.len(), |i: int| text_of(entries@[i].key@))),
        ),
{
}

/// `clean` gives the keys whose base64 it is handed, in order, or tells the first text that is
/// the base64 of none. It fails on no list that holds base64 alone.
pub proof fn law_clean_undoes_base64(
    keys: &Vec<String>,
    r: Result<Vec<Vec<u8>>, BadKey>,
    earlier: int,
)
    requires
        call_ensures(clean, (keys,), r),
    ensures
        match r {
            Ok(removed) => removed@.len() == keys@.len() && forall|i: int|
                0 <= i < keys@.len() ==> text_of((#[trigger] removed@[i])@) == keys@[i]@,
            Err(bad) => {
                &&& bad.index < keys@.len()
                &&& forall|key: Seq<u8>| #[trigger] text_of(key) != keys@[bad.index as int]@
                &&& 0 <= earlier < bad.index ==> exists|key: Seq<u8>| #[trigger]
                    text_of(key) == keys@[earlier]@
            },
        },
{
    if let Err(bad) = r {
        if 0 <= earlier < bad.index {
            assert(is_key_text(keys@[earlier]@));
        }
    }
}

/// `estimate_transaction_size` gives the length of the serialized actions, 256 bytes for the
/// wrapper, and the account id twice. So it exceeds the signed transaction by less than the
/// wrapper, and the estimates for two accounts differ by twice what their ids differ.
pub proof fn law_size_estimates_follow_actions_and_account(
    actions: &[Action],
    account_id: &str,
    size: usize,
    other_id: &str,
    other_size: usize,
)
    requires
        call_ensures(
            estimate_transaction_size,
            (actions, account_id),
            Ok::<usize, SerializeError>(size),
        ),
        call_ensures(
            estimate_transaction_size,
            (actions, other_id),
            Ok::<usize, SerializeError>(other_size),
        ),
    ensures
        size - other_size == 2 * (encode_utf8(account_id@).len() - encode_utf8(other_id@).len()),
        ({
            let serialized = actions_bytes(Seq::new(actions@.len(), |i: int| actions@[i]@));
            let ids = 2 * encode_utf8(account_id@).len();
            size == serialized.len() + 256 + ids
        }),
{
    assert(action_views(actions@) =~= Seq::new(actions@.len(), |i: int| actions@[i]@));
}

/// `u128_from_any` reads a JSON number as itself, digits as the number that they stand for, and
/// fails, each time with its own error, on a number over its width and on any other value.
pub proof fn law_u128_from_any_reads_what_is_written(
    value: CostValue,
    r: Result<u128, CostError>,
    digits: Seq<char>,
)
    requires
        call_ensures(u128_from_any, (&value,), r),
        digits.len() > 0,
        forall|i: int| 0 <= i < digits.len() ==> '0' <= #[trigger] digits[i] <= '9',
    ensures
        value matches CostValue::Number(Some(n)) ==> r == Ok::<u128, CostError>(n as u128),
        value matches CostValue::Number(None) ==> r == Err::<u128, CostError>(CostError::NotU64),
        value matches CostValue::Other ==> r == Err::<u128, CostError>(CostError::WrongKind),
        value matches CostValue::Text(s) ==> (s@ == digits || s@ == seq!['+'] + digits) ==> {
            if value_of(digits) <= u128::MAX {
                r == Ok::<u128, CostError>(value_of(digits) as u128)
            } else {
                r == Err::<u128, CostError>(CostError::Unparsable(parse_failure(s@)))
            }
        },
{
    if let CostValue::Text(s) = value {
        lemma_parsed_text(s@);
        assert(value_of(digits) <= u128::MAX || value_of(digits) > u128::MAX);
    }
}

/// `u128_from_any` succeeds on a string only where it consists of digits, with or without a `+`
/// in front, and gives the number that they stand for.
pub proof fn law_only_digits_are_a_cost(text: String, cost: u128)
    requires
        call_ensures(
            u128_from_any,
            (&CostValue::Text(text),),
            Ok::<u128, CostError>(cost),
        ),
    ensures
        exists|digits: Seq<char>|
            {
                &&& text@ == digits || text@ == seq!['+'] + digits
                &&& digits.len() > 0
                &&& forall|i: int| 0 <= i < digits.len() ==> '0' <= #[trigger] digits[i] <= '9'
                &&& cost == #[trigger] value_of(digits)
            },
{
    let digits = choose|digits: Seq<char>|
        {
            &&& text@ == digits || text@ == seq!['+'] + digits
            &&& digits.len() > 0 && all_digits(digits)
            &&& cost == #[trigger] value_of(digits)
        };
    assert(cost == value_of(digits));
}

/// `estimate_key_gas` gives 130 hundredths of the published cost, rounded down.
pub proof fn law_key_estimates_are_130_percent(
    key_bytes: usize,
    value_bytes: usize,
    c: &GasConstants,
    gas: u128,
)
    requires
        call_ensures(estimate_key_gas, (key_bytes, value_bytes, c), gas),
    ensures
        100 * gas <= 130 * (c.storage_remove_base + key_bytes * c.storage_remove_key_byte
            + value_bytes * c.storage_remove_ret_value_byte) < 100 * gas + 100,
{
}

/// `estimate_total_gas` gives zero for no entries, and for one entry more, whatever the others,
/// exactly what `estimate_key_gas` gives for that entry on top.
pub proof fn law_total_estimates_sum_key_estimates(
    entries: &[StateEntry],
    more: &[StateEntry],
    c: &GasConstants,
    gas: u128,
    gas_of_more: u128,
    gas_of_entry: u128,
)
    requires
        more@.len() > 0,
        entries@ == more@.drop_last(),
        call_ensures(estimate_total_gas, (entries, c), gas),
        call_ensures(estimate_total_gas, (more, c), gas_of_more),
        call_ensures(
            estimate_key_gas,
            (more@.last().key.len(), more@.last().value_bytes, c),
            gas_of_entry,
        ),
    ensures
        gas_of_more == gas + gas_of_entry,
        entries@.len() == 0 ==> gas == 0,
{
}

/// `gas_estimate_fits` tells whether 130 times the cost of every entry, and the estimate for all
/// of them, stay within 128 bits.
pub proof fn law_fitting_estimates_are_recognised(
    entries: &[StateEntry],
    c: &GasConstants,
    fits: bool,
)
    requires
        call_ensures(gas_estimate_fits, (entries, c), fits),
    ensures
        fits <==> total_gas(entries@, *c) <= u128::MAX && forall|i: int|
            0 <= i < entries@.len() ==> (c.storage_remove_base + (#[trigger] entries@[i]).key@.len()
                * c.storage_remove_key_byte + entries@[i].value_bytes
                * c.storage_remove_ret_value_byte) * 130 <= u128::MAX,
{
}

/// `fetch_protocol_constants` hands on each of the five numbers of the configuration, and the
/// message of a failed request.
pub proof fn law_protocol_constants_are_handed_on(
    reply: Result<ProtocolConfigPartial, String>,
    r: Result<ProtocolConstants, String>,
)
    requires
        call_ensures(fetch_protocol_constants, (reply,), r),
    ensures
        reply matches Ok(config) ==> r matches Ok(constants) && {
            let (costs, limits) = (
                config.runtime_config.wasm_config.ext_costs,
                config.runtime_config.wasm_config.limit_config,
            );
            &&& constants.gas.storage_remove_base == costs.storage_remove_base
            &&& constants.gas.storage_remove_key_byte == costs.storage_remove_key_byte
            &&& constants.gas.storage_remove_ret_value_byte == costs.storage_remove_ret_value_byte
            &&& constants.max_transaction_size == limits.max_transaction_size
            &&& constants.max_total_prepaid_gas == limits.max_total_prepaid_gas
        },
        reply matches Err(error) ==> r matches Err(message) && message@
            == "Failed to fetch protocol config: "@ + error@,
{
}

/// `read_state` gives an entry for each key that a complete listing holds, in order, with the
/// length of its value; it gives nothing of an incomplete listing or of any other answer.
pub proof fn law_read_state_misses_no_key(
    reply: ViewStateReply,
    account_id: &str,
    r: Result<Vec<StateEntry>, String>,
)
    requires
        call_ensures(read_state, (reply, account_id), r),
    ensures
        match reply {
            ViewStateReply::ViewState { values, last_key: None } => r matches Ok(entries)
                && entries@.len() == values@.len() && forall|i: int|
                0 <= i < values@.len() ==> (#[trigger] entries@[i]).key@ == values@[i].0@
                    && entries@[i].value_bytes == values@[i].1@.len(),
            ViewStateReply::ViewState { last_key: Some(_), .. } => r matches Err(message)
                && message@ == "RPC returned an incomplete state listing for <"@ + account_id@
                + ">"@,
            ViewStateReply::OtherKind => r matches Err(message) && message@
                == "Unexpected RPC response kind for ViewState on <"@ + account_id@ + ">"@,
            ViewStateReply::Failed { .. } => r is Err,
        },
{
}

/// A failed query is answered as `map_view_state_error` words it: with the remedy where "too
/// large" stands in the error or in its details, else with the error.
pub proof fn law_failed_queries_are_explained(
    rendered: &str,
    inner: &str,
    failed: ViewStateReply,
    account_id: &str,
    message: String,
    r: Result<Vec<StateEntry>, String>,
    before: Seq<char>,
    after: Seq<char>,
)
    requires
        call_ensures(map_view_state_error, (rendered, inner), message),
        failed matches ViewStateReply::Failed { rendered: a, inner: b } && a@ == rendered@ && b@
            == inner@,
        call_ensures(read_state, (failed, account_id), r),
    ensures
        r matches Err(answer) && answer@ == message@,
        rendered@ == before + "too large"@ + after || inner@ == before + "too large"@ + after
            ==> message@ == STATE_TOO_LARGE@,
        (forall|a: Seq<char>, b: Seq<char>|
            rendered@ != #[trigger] (a + "too large"@ + b) && inner@ != a + "too large"@ + b)
            ==> message@ == "Failed to fetch ViewState: "@ + rendered@,
{
    law_size_cap_is_told_by_its_words(before, after, rendered@, inner@);
}

/// `fill` gives as many entries as it is asked for: the key of each is the prefix and its number
/// in decimal, its value as many zero bytes as it is asked for.
pub proof fn law_fill_gives_numbered_zeros(
    prefix: &str,
    count: u32,
    value_size: u32,
    entries: Vec<(Vec<u8>, Vec<u8>)>,
)
    requires
        call_ensures(fill, (prefix, count, value_size), entries),
    ensures
        entries@.len() == count,
        forall|i: int|
            0 <= i < count ==> (#[trigger] entries@[i]).0@ == encode_utf8(
                prefix@ + decimal(i as nat),
            ) && entries@[i].1@ == Seq::new(value_size as nat, |j: int| 0u8),
{
    assert forall|i: int| 0 <= i < count implies (#[trigger] entries@[i]).1@ == Seq::new(
        value_size as nat,
        |j: int| 0u8,
    ) by {
        assert(entries@[i].1@ =~= Seq::new(value_size as nat, |j: int| 0u8));
    }
}

/// The message of a refusal names the account that has no state, or the two amounts that the
/// refusal rests on, in the order of estimate and limit.
pub proof fn law_refusal_messages_hold_their_amounts(
    error: &BuildError,
    account_id: &str,
    estimated_tgas: &str,
    budget_tgas: &str,
    text: String,
)
    requires
        call_ensures(BuildError::message, (error, account_id, estimated_tgas, budget_tgas), text),
    ensures
        match *error {
            BuildError::NoState => text@ == "Account <"@ + account_id@
                + "> has no contract state to clean."@,
            BuildError::TooMuchGas { .. } => text@
                == "State is too large to wipe in a single transaction (estimated "@
                + estimated_tgas@ + " Tgas, budget "@ + budget_tgas@
                + " Tgas). Multi-transaction wipes are not yet supported."@,
            BuildError::BudgetTooLarge { budget } => text@ == "The gas budget of "@ + decimal(
                budget as nat,
            ) + " gas does not fit in a function call."@,
            BuildError::Unserializable(e) => exists|reported: String| #[trigger]
                to_string_from_display_ensures(&e.source, reported) && text@
                    == "Failed to borsh-serialize actions: "@ + reported@,
            BuildError::TooLarge { estimated, limit } => text@
                == "State is too large to wipe in a single transaction (estimated "@ + decimal(
                estimated as nat,
            ) + " bytes, limit "@ + decimal(limit as nat)
                + " bytes). Multi-transaction wipes are not yet supported."@,
        },
{
}

/// The message for a cost that is not taken tells what is wrong with it, and that for actions
/// that cannot be serialized ends with what the serializer reported.
pub proof fn law_error_messages_tell_the_cause(
    cost: &CostError,
    cost_text: String,
    error: &SerializeError,
    text: String,
)
    requires
        call_ensures(CostError::message, (cost,), cost_text),
        call_ensures(SerializeError::message, (error,), text),
    ensures
        match cost {
            CostError::NotU64 => cost_text@ == "ext-cost is not a u64"@,
            CostError::Unparsable(e) => to_string_from_display_ensures(e, cost_text),
            CostError::WrongKind => cost_text@ == "expected number or string ext-cost"@,
        },
        exists|reported: String| #[trigger]
            to_string_from_display_ensures(&error.source, reported) && text@
                == "Failed to borsh-serialize actions: "@ + reported@,
{
}

/// Arguments that hold plain strings hold the texts of the keys that they were made for.
proof fn lemma_args_determine_texts(keys: Seq<Seq<u8>>, texts: Seq<Seq<char>>)
    requires
        args_bytes(keys) == encode_utf8(json_object(KEYS_FIELD@, texts)),
        forall|i: int| 0 <= i < texts.len() ==> all_plain(#[trigger] texts[i]),
    ensures
        texts == texts_of(keys),
{
    let (a, b) = (texts_of(keys), texts);
    encode_utf8_decode_utf8(json_object(KEYS_FIELD@, a));
    encode_utf8_decode_utf8(json_object(KEYS_FIELD@, b));
    let (x, y) = (json_object(KEYS_FIELD@, a), json_object(KEYS_FIELD@, b));
    assert(x == y);
    let start = KEYS_FIELD@.len() + 5;
    assert(x.subrange(start as int, x.len() - 2) =~= listed(a));
    assert(y.subrange(start as int, y.len() - 2) =~= listed(b));
    lemma_texts_are_plain(keys);
    lemma_listed_is_injective(a, b);
}

proof fn lemma_texts_are_plain(keys: Seq<Seq<u8>>)
    ensures
        forall|i: int| 0 <= i < keys.len() ==> all_plain(#[trigger] texts_of(keys)[i]),
{
    assert forall|i: int| 0 <= i < keys.len() implies all_plain(#[trigger] texts_of(keys)[i]) by {
        lemma_text_is_plain(keys[i]);
    }
}

proof fn lemma_listed_is_injective(a: Seq<Seq<char>>, b: Seq<Seq<char>>)
    requires
        listed(a) == listed(b),
        forall|i: int| 0 <= i < a.len() ==> all_plain(#[trigger] a[i]),
        forall|i: int| 0 <= i < b.len() ==> all_plain(#[trigger] b[i]),
    ensures
        a == b,
    decreases a.len(),
{
    if a.len() > 0 {
        lemma_listed_splits(a);
    }
    if b.len() > 0 {
        lemma_listed_splits(b);
    }
    if a.len() > 0 && b.len() > 0 {
        lemma_quoted_ends(a[0], after_first(a), b[0], after_first(b));
        if a.len() > 1 {
            assert(after_first(a).skip(1) =~= listed(a.drop_first()));
            assert(after_first(b).skip(1) =~= listed(b.drop_first()));
            lemma_listed_is_injective(a.drop_first(), b.drop_first());
        }
        assert(a =~= seq![a[0]] + a.drop_first());
        assert(b =~= seq![b[0]] + b.drop_first());
        assert(a.len() == 1 ==> a.drop_first() =~= b.drop_first());
    }
}

/// What follows the first item in the list of `items`.
spec fn after_first(items: Seq<Seq<char>>) -> Seq<char> {
    if items.len() <= 1 {
        Seq::empty()
    } else {
        seq![','] + listed(items.drop_first())
    }
}

proof fn lemma_listed_splits(items: Seq<Seq<char>>)
    requires
        items.len() > 0,
    ensures
        listed(items) == quoted(items[0]) + after_first(items),
        listed(items).len() > 0,
{
    assert(listed(items) =~= quoted(items[0]) + after_first(items));
}

/// A quoted plain string ends at its second quote, whatever follows.
proof fn lemma_quoted_ends(s: Seq<char>, x: Seq<char>, t: Seq<char>, y: Seq<char>)
    requires
        all_plain(s),
        all_plain(t),
        quoted(s) + x == quoted(t) + y,
    ensures
        s == t,
        x == y,
{
    let text = quoted(s) + x;
    let (m, n) = (s.len() as int, t.len() as int);
    assert(text[1 + m] == '"' && text[1 + n] == '"');
    if m < n {
        assert(text[1 + m] == t[m]);
    } else if n < m {
        assert(text[1 + n] == s[n]);
    }
    assert(s =~= text.subrange(1, 1 + m));
    assert(t =~= text.subrange(1, 1 + n));
    assert(x =~= text.skip(m + 2));
    assert(y =~= text.skip(n + 2));
}

} // verus!
