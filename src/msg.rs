//! Messages exchanged with the host, in plain values.
use vstd::prelude::*;

verus! {

/// An attribute list entry of a collectible, carried through unchanged.
#[verifier::external_type_specification]
#[verifier::external_body]
pub struct ExTrait(secret_toolkit::snip721::Trait);

/// A contract that this one talks to: a payment channel or the collectible contract.
#[derive(Debug)]
pub struct ContractInfo {
    /// contract's code hash string
    pub code_hash: String,
    /// contract's address
    pub address: String,
    /// price of one item when paying through this contract
    pub mint_cost: u128,
}

impl ContractInfo {
    /// A field-by-field copy.
    pub fn duplicate(&self) -> (r: ContractInfo)
        ensures
            r == *self,
    {
        ContractInfo {
            code_hash: self.code_hash.clone(),
            address: self.address.clone(),
            mint_cost: self.mint_cost,
        }
    }
}

/// One allocatable item of the pool.
#[derive(Debug)]
pub struct PreLoad {
    /// stable identifier
    pub id: String,
    /// resource locator
    pub img_url: String,
    pub attributes: Option<Vec<secret_toolkit::snip721::Trait>>,
}

/// Configuration given at creation.
#[derive(Debug)]
pub struct InstantiateMsg {
    pub mint_contract: ContractInfo,
    pub shill_contract: ContractInfo,
    pub scrt_contract: ContractInfo,
    /// viewing key that this contract registers with the three counterparties
    pub entropy_shill: String,
    /// fixed seed of the draw generator
    pub entropy_mint: String,
    /// where collected payments are sent
    pub receiving_address: String,
}

/// What a payment channel says the payer asked for.
#[derive(Debug, PartialEq, Eq, Structural)]
pub enum HandleReceiveMsg {
    ReceiveMintScrt { quantity: u16 },
    ReceiveMintShill { quantity: u16 },
}

impl HandleReceiveMsg {
    pub open spec fn spec_quantity(&self) -> u16 {
        match self {
            HandleReceiveMsg::ReceiveMintScrt { quantity } => *quantity,
            HandleReceiveMsg::ReceiveMintShill { quantity } => *quantity,
        }
    }

    /// Number of items asked for.
    pub fn quantity(&self) -> (r: u16)
        ensures
            r == self.spec_quantity(),
    {
        match self {
            HandleReceiveMsg::ReceiveMintScrt { quantity } => *quantity,
            HandleReceiveMsg::ReceiveMintShill { quantity } => *quantity,
        }
    }
}

/// Operations that change the contract.
#[derive(Debug)]
pub enum ExecuteMsg {
    /// A payment channel reports that `from` sent `amount` to this contract.
    Receive { sender: String, from: String, amount: u128, msg: Option<HandleReceiveMsg> },
    /// The owner appends items to the pool.
    PreLoad { new_data: Vec<PreLoad> },
    /// The owner sets the admin secret.
    SetViewingKey { key: String },
}

/// A claimed identity and secret.
#[derive(Debug)]
pub struct ViewerInfo {
    pub address: String,
    pub viewing_key: String,
}

/// Read-only queries.
#[derive(Debug)]
pub enum QueryMsg {
    GetMintInfo { viewer: ViewerInfo },
}

/// Aggregate accounting.
#[derive(Debug, PartialEq, Eq, Structural)]
pub struct MintInfoResponse {
    pub num_minted: u16,
    pub total: u16,
    pub amount_paid_shill: u128,
    pub amount_paid_scrt: u128,
}

/// An outbound instruction; the host submits these in order, as one batch.
#[derive(Debug)]
pub enum Instruction {
    /// Set `key` as this contract's viewing key on `contract`.
    SetViewingKey { key: String, contract: ContractInfo },
    /// Ask `contract` to notify this contract, whose code hash is `code_hash`, of payments.
    RegisterReceive { code_hash: String, contract: ContractInfo },
    /// Create the collectible `token`, owned by `owner`, on `contract`.
    MintNft { token: PreLoad, owner: String, contract: ContractInfo },
    /// Send `amount` of the token of `contract` to `recipient`.
    Transfer { recipient: String, amount: u128, contract: ContractInfo },
}

/// Why an operation was refused; nothing has changed when one is returned.
#[derive(Debug, PartialEq, Eq, Structural)]
pub enum ContractError {
    UnrecognizedChannel,
    PaymentMismatch,
    EmptyRequest,
    PoolExhausted,
    InsufficientSupply,
    NotOwner,
    Unauthorized,
    PoolCorrupt,
    MissingIntent,
    StateCorrupt,
}

} // verus!
