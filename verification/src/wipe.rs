//! The wipe transaction: one deployment of the cleanup contract and one `clean` call.
use crate::action::{
    action_lengths_fit, action_views, concatenated, lengths_fit, serialize_failure, Action,
    ActionView, DeployContractAction, FunctionCallAction,
};
use crate::clean_args::{args_bytes, clean_args, json_object, keys_of, texts_of};
use crate::decimal::{decimal, decimal_text};
use crate::key_text::text_of;
use crate::plan::{
    estimate_total_gas, estimate_wide, total_gas, total_gas_fits, transaction_size,
    ProtocolConstants, SerializeError, StateEntry, TX_SIZE_BUFFER_BYTES, TX_WRAPPER_OVERHEAD_BYTES,
};
use vstd::prelude::*;
use vstd::string::to_string_from_display_ensures;
use vstd::utf8::{encode_utf8, is_ascii_chars_encode_utf8};

verus! {

/// The method of the cleanup contract that removes keys.
pub const CLEAN_METHOD: &'static str = "clean";

/// A transaction that is ready to be signed.
#[derive(Debug, Clone)]
pub struct PrepopulatedTransaction {
    pub signer_id: String,
    pub receiver_id: String,
    pub actions: Vec<Action>,
}

/// What a transaction holds.
pub struct TransactionView {
    pub signer_id: Seq<char>,
    pub receiver_id: Seq<char>,
    pub actions: Seq<ActionView>,
}

impl View for PrepopulatedTransaction {
    type V = TransactionView;

    open spec fn view(&self) -> TransactionView {
        TransactionView {
            signer_id: self.signer_id@,
            receiver_id: self.receiver_id@,
            actions: action_views(self.actions@),
        }
    }
}

/// Why an account is not wiped.
#[derive(Debug)]
pub enum BuildError {
    /// The account has no contract state.
    NoState,
    /// The removal of all entries is estimated to take more gas than one transaction may
    /// attach.
    TooMuchGas { estimated: u128, budget: u128 },
    /// The gas budget is more than a call can have attached.
    BudgetTooLarge { budget: u128 },
    /// The actions cannot be serialized.
    Unserializable(SerializeError),
    /// The transaction comes too close to the size limit.
    TooLarge { estimated: u128, limit: u64 },
}

/// A reason for not wiping an account, with the amounts or the error that it rests on.
pub enum Refusal {
    NoState,
    TooMuchGas { estimated: int, budget: int },
    BudgetTooLarge { budget: int },
    Unserializable { source: std::io::Error },
    TooLarge { estimated: int, limit: int },
}

impl BuildError {
    /// The reason that the error gives.
    pub open spec fn refusal(self) -> Refusal {
        match self {
            BuildError::NoState => Refusal::NoState,
            BuildError::TooMuchGas { estimated, budget } => Refusal::TooMuchGas {
                estimated: estimated as int,
                budget: budget as int,
            },
            BuildError::BudgetTooLarge { budget } => Refusal::BudgetTooLarge {
                budget: budget as int,
            },
            BuildError::Unserializable(e) => Refusal::Unserializable { source: e.source },
            BuildError::TooLarge { estimated, limit } => Refusal::TooLarge {
                estimated: estimated as int,
                limit: limit as int,
            },
        }
    }

    /// The message for an account that is not wiped. `estimated_tgas` and `budget_tgas` are the
    /// two amounts of `TooMuchGas` in Tgas, as they are to be printed; no other error has them
    /// in its message.
    pub fn message(&self, account_id: &str, estimated_tgas: &str, budget_tgas: &str) -> (text:
        String)
        ensures
            match *self {
                BuildError::NoState => text@ == "Account <"@ + account_id@
                    + "> has no contract state to clean."@,
                BuildError::TooMuchGas { .. } => text@
                    == "State is too large to wipe in a single transaction (estimated "@
                    + estimated_tgas@ + " Tgas, budget "@ + budget_tgas@
                    + " Tgas). Multi-transaction wipes are not yet supported."@,
                BuildError::BudgetTooLarge { budget } => text@ == "The gas budget of "@ + decimal(
                    budget as nat,
                ) + " gas does not fit in a function call."@,
                BuildError::Unserializable(e) => exists|reported: String| #[trigger]
                    to_string_from_display_ensures(&e.source, reported) && text@
                        == "Failed to borsh-serialize actions: "@ + reported@,
                BuildError::TooLarge { estimated, limit } => text@
                    == "State is too large to wipe in a single transaction (estimated "@ + decimal(
                    estimated as nat,
                ) + " bytes, limit "@ + decimal(limit as nat)
                    + " bytes). Multi-transaction wipes are not yet supported."@,
            },
    {
        let mut text: String = String::new();
        match self {
            BuildError::NoState => {
                text.append("Account <");
                text.append(account_id);
                text.append("> has no contract state to clean.");
            },
            BuildError::TooMuchGas { .. } => {
                text.append("State is too large to wipe in a single transaction (estimated ");
                text.append(estimated_tgas);
                text.append(" Tgas, budget ");
                text.append(budget_tgas);
                text.append(" Tgas). Multi-transaction wipes are not yet supported.");
            },
            BuildError::BudgetTooLarge { budget } => {
                text.append("The gas budget of ");
                text.append(decimal_text(*budget).as_str());
                text.append(" gas does not fit in a function call.");
            },
            BuildError::Unserializable(e) => {
                return e.message();
            },
            BuildError::TooLarge { estimated, limit } => {
                text.append("State is too large to wipe in a single transaction (estimated ");
                text.append(decimal_text(*estimated).as_str());
                text.append(" bytes, limit ");
                text.append(decimal_text(*limit as u128).as_str());
                text.append(" bytes). Multi-transaction wipes are not yet supported.");
            },
        }
        proof {
            assert forall|a: Seq<char>| #[trigger] (Seq::<char>::empty() + a) == a by {
                assert(Seq::<char>::empty() + a =~= a);
            }
        }
        text
    }
}

/// The actions that wipe `entries`: deploy the cleanup contract, then have it remove every
/// key, with the whole gas budget attached.
pub open spec fn wipe_actions(
    entries: Seq<StateEntry>,
    constants: ProtocolConstants,
    wasm: Seq<u8>,
) -> Seq<ActionView> {
    seq![
        ActionView::DeployContract { code: wasm },
        ActionView::FunctionCall {
            method_name: CLEAN_METHOD@,
            args: args_bytes(keys_of(entries)),
            gas: constants.max_total_prepaid_gas as u64,
            deposit: 0,
        },
    ]
}

/// The transaction that wipes `entries` off `account_id`.
pub open spec fn wipe_transaction(
    account_id: Seq<char>,
    entries: Seq<StateEntry>,
    constants: ProtocolConstants,
    wasm: Seq<u8>,
) -> TransactionView {
    TransactionView {
        signer_id: account_id,
        receiver_id: account_id,
        actions: wipe_actions(entries, constants, wasm),
    }
}

/// Why `entries` cannot be wiped within the gas limits, if they cannot.
pub open spec fn gas_refusal(entries: Seq<StateEntry>, constants: ProtocolConstants) -> Option<
    Refusal,
> {
    let gas = total_gas(entries, constants.gas);
    let budget = constants.max_total_prepaid_gas as int;
    if entries.len() == 0 {
        Some(Refusal::NoState)
    } else if gas > budget {
        Some(Refusal::TooMuchGas { estimated: gas, budget })
    } else if budget > u64::MAX {
        Some(Refusal::BudgetTooLarge { budget })
    } else {
        None
    }
}

/// Why `entries` cannot be wiped off `account_id` in one transaction, if they cannot: the
/// first of the reasons, in the order of `Refusal`, that applies.
pub open spec fn wipe_refusal(
    account_id: Seq<char>,
    entries: Seq<StateEntry>,
    constants: ProtocolConstants,
    wasm: Seq<u8>,
) -> Option<Refusal> {
    let actions = wipe_actions(entries, constants, wasm);
    let size = transaction_size(actions, account_id);
    if gas_refusal(entries, constants) is Some {
        gas_refusal(entries, constants)
    } else if !lengths_fit(actions) {
        Some(Refusal::Unserializable { source: serialize_failure(actions) })
    } else if size + TX_SIZE_BUFFER_BYTES > constants.max_transaction_size {
        Some(
            Refusal::TooLarge {
                estimated: size as int,
                limit: constants.max_transaction_size as int,
            },
        )
    } else {
        None
    }
}

/// How long the wipe actions are once they are serialized, and when they can be.
pub(crate) proof fn lemma_wipe_size(
    account_id: Seq<char>,
    entries: Seq<StateEntry>,
    constants: ProtocolConstants,
    wasm: Seq<u8>,
)
    ensures
        args_bytes(keys_of(entries)) == encode_utf8(
            json_object("keys"@, Seq::new(entries.len(), |i: int| text_of(entries[i].key@))),
        ),
        transaction_size(wipe_actions(entries, constants, wasm), account_id) == wasm.len()
            + args_bytes(keys_of(entries)).len() + 47 + TX_WRAPPER_OVERHEAD_BYTES + 2
            * encode_utf8(account_id).len(),
        lengths_fit(wipe_actions(entries, constants, wasm)) <==> wasm.len() <= u32::MAX
            && args_bytes(keys_of(entries)).len() <= u32::MAX,
{
    assert(texts_of(keys_of(entries)) =~= Seq::new(
        entries.len(),
        |i: int| text_of(entries[i].key@),
    ));
    let actions = wipe_actions(entries, constants, wasm);
    reveal_strlit("clean");
    is_ascii_chars_encode_utf8(CLEAN_METHOD@);
    reveal_with_fuel(concatenated, 3);
    assert(actions.drop_last().drop_last().len() == 0);
    assert(actions.drop_last().last() == actions[0] && actions.last() == actions[1]);
    assert(lengths_fit(actions) <==> action_lengths_fit(actions[0]) && action_lengths_fit(
        actions[1],
    ));
}

/// The estimated gas of wiping `entries`, where there is something to wipe and the gas limits
/// allow it.
pub fn preflight_gas(entries: &[StateEntry], constants: &ProtocolConstants) -> (r: Result<
    u128,
    BuildError,
>)
    requires
        total_gas_fits(entries@, constants.gas),
    ensures
        match r {
            Ok(gas) => {
                &&& gas_refusal(entries@, *constants) is None
                &&& gas == total_gas(entries@, constants.gas)
            },
            Err(e) => gas_refusal(entries@, *constants) == Some(e.refusal()),
        },
        match r {
            Ok(gas) => {
                &&& entries@.len() > 0
                &&& gas == total_gas(entries@, constants.gas)
                &&& gas <= constants.max_total_prepaid_gas <= u64::MAX
            },
            Err(BuildError::NoState) => entries@.len() == 0,
            Err(BuildError::TooMuchGas { estimated, budget }) => {
                &&& entries@.len() > 0
                &&& estimated == total_gas(entries@, constants.gas)
                &&& budget == constants.max_total_prepaid_gas
                &&& estimated > budget
            },
            Err(BuildError::BudgetTooLarge { budget }) => {
                &&& entries@.len() > 0
                &&& budget == constants.max_total_prepaid_gas
                &&& total_gas(entries@, constants.gas) <= budget
                &&& budget > u64::MAX
            },
            Err(_) => false,
        },
{
    if entries.len() == 0 {
        return Err(BuildError::NoState);
    }
    let budget: u128 = constants.max_total_prepaid_gas;
    let estimated: u128 = estimate_total_gas(entries, &constants.gas);
    if estimated > budget {
        return Err(BuildError::TooMuchGas { estimated, budget });
    }
    if budget > u64::MAX as u128 {
        return Err(BuildError::BudgetTooLarge { budget });
    }
    Ok(estimated)
}

/// Builds the transaction that wipes `entries`, the whole state of `account_id`, with the
/// cleanup contract `wasm`. Refuses where there is nothing to wipe or where the wipe does not
/// fit in a single transaction; there is no partial wipe.
pub fn build_transaction(
    account_id: &str,
    entries: &[StateEntry],
    constants: &ProtocolConstants,
    wasm: Vec<u8>,
) -> (r: Result<PrepopulatedTransaction, BuildError>)
    requires
        total_gas_fits(entries@, constants.gas),
    ensures
        match r {
            Ok(transaction) => {
                &&& wipe_refusal(account_id@, entries@, *constants, wasm@) is None
                &&& transaction@ == wipe_transaction(account_id@, entries@, *constants, wasm@)
            },
            Err(e) => wipe_refusal(account_id@, entries@, *constants, wasm@) == Some(
                e.refusal(),
            ),
        },
        r matches Ok(transaction) ==> {
            &&& transaction.signer_id@ == account_id@
            &&& transaction.receiver_id@ == account_id@
            &&& transaction.actions@.len() == 2
            &&& transaction.actions@[0] matches Action::DeployContract(deploy) && deploy.code@
                == wasm@
            &&& transaction.actions@[1] matches Action::FunctionCall(call) && {
                &&& call.method_name@ == "clean"@
                &&& call.args@ == encode_utf8(
                    json_object(
                        "keys"@,
                        Seq::new(entries@.len(), |i: int| text_of(entries@[i].key@)),
                    ),
                )
                &&& call.gas == constants.max_total_prepaid_gas
                &&& call.deposit == 0
            }
        },
        ({
            let args = encode_utf8(
                json_object(
                    "keys"@,
                    Seq::new(entries@.len(), |i: int| text_of(entries@[i].key@)),
                ),
            );
            let gas = total_gas(entries@, constants.gas);
            let budget = constants.max_total_prepaid_gas;
            let size = wasm@.len() + args.len() + 47 + TX_WRAPPER_OVERHEAD_BYTES + 2
                * encode_utf8(account_id@).len();
            match r {
                Ok(_) => {
                    &&& entries@.len() > 0 && gas <= budget <= u64::MAX
                    &&& wasm@.len() <= u32::MAX && args.len() <= u32::MAX
                    &&& size + TX_SIZE_BUFFER_BYTES <= constants.max_transaction_size
                },
                Err(BuildError::NoState) => entries@.len() == 0,
                Err(BuildError::TooMuchGas { estimated, budget: b }) => {
                    &&& entries@.len() > 0
                    &&& estimated == gas && b == budget && gas > budget
                },
                Err(BuildError::BudgetTooLarge { budget: b }) => {
                    &&& entries@.len() > 0 && gas <= budget
                    &&& b == budget && budget > u64::MAX
                },
                Err(BuildError::Unserializable(e)) => {
                    &&& entries@.len() > 0 && gas <= budget <= u64::MAX
                    &&& wasm@.len() > u32::MAX || args.len() > u32::MAX
                },
                Err(BuildError::TooLarge { estimated, limit }) => {
                    &&& entries@.len() > 0 && gas <= budget <= u64::MAX
                    &&& wasm@.len() <= u32::MAX && args.len() <= u32::MAX
                    &&& estimated == size && limit == constants.max_transaction_size
                    &&& size + TX_SIZE_BUFFER_BYTES > limit
                },
            }
        }),
{
    proof {
        lemma_wipe_size(account_id@, entries@, *constants, wasm@);
    }
    match preflight_gas(entries, constants) {
        Ok(_) => {},
        Err(e) => {
            return Err(e);
        },
    }
    let ghost code = wasm@;
    let mut actions: Vec<Action> = Vec::new();
    actions.push(Action::DeployContract(DeployContractAction { code: wasm }));
    actions.push(
        Action::FunctionCall(
            FunctionCallAction {
                method_name: CLEAN_METHOD.to_owned(),
                args: clean_args(entries),
                gas: constants.max_total_prepaid_gas as u64,
                deposit: 0,
            },
        ),
    );
    assert(action_views(actions@) =~= wipe_actions(entries@, *constants, code));
    let size: u128 = match estimate_wide(actions.as_slice(), account_id) {
        Ok(size) => size,
        Err(e) => {
            return Err(BuildError::Unserializable(e));
        },
    };
    let limit: u64 = constants.max_transaction_size;
    if limit < TX_SIZE_BUFFER_BYTES || size > (limit - TX_SIZE_BUFFER_BYTES) as u128 {
        return Err(BuildError::TooLarge { estimated: size, limit });
    }
    Ok(
        PrepopulatedTransaction {
            signer_id: account_id.to_owned(),
            receiver_id: account_id.to_owned(),
            actions,
        },
    )
}

} // verus!
