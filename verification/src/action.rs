//! The transaction actions of a wipe and their borsh encoding.
use vstd::arithmetic::power::pow;
use vstd::prelude::*;
use vstd::utf8::encode_utf8;

verus! {

/// Sets the contract code of the receiver.
#[derive(Debug, Clone)]
pub struct DeployContractAction {
    pub code: Vec<u8>,
}

/// Calls a method of the receiver's contract.
#[derive(Debug, Clone)]
pub struct FunctionCallAction {
    pub method_name: String,
    pub args: Vec<u8>,
    /// Attached gas, in gas units.
    pub gas: u64,
    /// Attached deposit, in yoctoNEAR.
    pub deposit: u128,
}

/// An action of a transaction.
#[derive(Debug, Clone)]
pub enum Action {
    DeployContract(DeployContractAction),
    FunctionCall(FunctionCallAction),
}

/// What an action holds.
pub enum ActionView {
    DeployContract { code: Seq<u8> },
    FunctionCall { method_name: Seq<char>, args: Seq<u8>, gas: u64, deposit: u128 },
}

impl View for Action {
    type V = ActionView;

    open spec fn view(&self) -> ActionView {
        match self {
            Action::DeployContract(a) => ActionView::DeployContract { code: a.code@ },
            Action::FunctionCall(a) => ActionView::FunctionCall {
                method_name: a.method_name@,
                args: a.args@,
                gas: a.gas,
                deposit: a.deposit,
            },
        }
    }
}

/// What a list of actions holds.
pub open spec fn action_views(actions: Seq<Action>) -> Seq<ActionView> {
    actions.map_values(|a: Action| a@)
}

/// The `width` low bytes of `n`, least significant first.
pub open spec fn le_bytes(n: nat, width: nat) -> Seq<u8> {
    Seq::new(width, |i: int| (n as int / pow(256, i as nat) % 256) as u8)
}

/// A byte string behind its length in four bytes.
pub open spec fn prefixed(bytes: Seq<u8>) -> Seq<u8> {
    le_bytes(bytes.len(), 4) + bytes
}

/// The borsh encoding of an action: the tag of its kind, then its fields in order.
pub open spec fn action_bytes(action: ActionView) -> Seq<u8> {
    match action {
        ActionView::DeployContract { code } => seq![1u8] + prefixed(code),
        ActionView::FunctionCall { method_name, args, gas, deposit } => seq![2u8] + prefixed(
            encode_utf8(method_name),
        ) + prefixed(args) + le_bytes(gas as nat, 8) + le_bytes(deposit as nat, 16),
    }
}

/// The encodings of `actions`, one behind the other.
pub open spec fn concatenated(actions: Seq<ActionView>) -> Seq<u8>
    decreases actions.len(),
{
    if actions.len() == 0 {
        Seq::empty()
    } else {
        concatenated(actions.drop_last()) + action_bytes(actions.last())
    }
}

/// The borsh encoding of a list of actions.
pub open spec fn actions_bytes(actions: Seq<ActionView>) -> Seq<u8> {
    le_bytes(actions.len(), 4) + concatenated(actions)
}

/// Whether every length in `action` can be written in four bytes.
pub open spec fn action_lengths_fit(action: ActionView) -> bool {
    match action {
        ActionView::DeployContract { code } => code.len() <= u32::MAX,
        ActionView::FunctionCall { method_name, args, .. } => encode_utf8(method_name).len()
            <= u32::MAX && args.len() <= u32::MAX,
    }
}

/// Whether every length in `actions`, their number included, can be written in four bytes.
pub open spec fn lengths_fit(actions: Seq<ActionView>) -> bool {
    actions.len() <= u32::MAX && forall|i: int|
        0 <= i < actions.len() ==> action_lengths_fit(#[trigger] actions[i])
}

/// An error of the borsh serializer.
#[verifier::external_type_specification]
#[verifier::external_body]
pub struct ExIoError(std::io::Error);

/// The error that `borsh::to_vec` gives on actions with a length that does not fit.
pub uninterp spec fn serialize_failure(actions: Seq<ActionView>) -> std::io::Error;

/// Calls `borsh::to_vec` on the same actions as values of
/// `near_primitives::action::Action`. Trusted: it writes `actions_bytes`, and fails exactly
/// where a length does not fit in four bytes. Its error depends on the actions alone; it is one
/// of kind `InvalidData`, which is not stated.
#[verifier::external_body]
pub(crate) fn serialize_actions(actions: &[Action]) -> (r: Result<Vec<u8>, std::io::Error>)
    ensures
        match r {
            Ok(bytes) => {
                &&& lengths_fit(action_views(actions@))
                &&& bytes@ == actions_bytes(action_views(actions@))
            },
            Err(e) => {
                &&& !lengths_fit(action_views(actions@))
                &&& e == serialize_failure(action_views(actions@))
            },
        },
{
    let convert = |a: &Action| -> near_primitives::action::Action {
        match a {
            Action::DeployContract(a) => near_primitives::action::DeployContractAction {
                code: a.code.clone(),
            }.into(),
            Action::FunctionCall(a) => near_primitives::action::FunctionCallAction {
                method_name: a.method_name.clone(),
                args: a.args.clone(),
                gas: near_primitives::gas::Gas::from_gas(a.gas),
                deposit: near_token::NearToken::from_yoctonear(a.deposit),
            }.into(),
        }
    };
    borsh::to_vec(&actions.iter().map(convert).collect::<Vec<_>>())
}

} // verus!
