//! The operations of the contract: creation, pool loading, payment-gated
//! allocation, the admin secret and the aggregate query.
use vstd::prelude::*;

use crate::crypto::{draw_stream, entropy_of, extend_entropy, hash_viewing_key, hashed_key, stream_of};
use vstd::utf8::encode_utf8;
use crate::msg::{
    ContractError, ContractInfo, ExecuteMsg, HandleReceiveMsg, Instruction, InstantiateMsg, MintInfoResponse, PreLoad,
    QueryMsg, ViewerInfo,
};
use crate::pool::{
    dense, ids_distinct, items_of, lemma_no_duplicate_allocation, lemma_run_draws_conserves, lemma_run_draws_dense,
    run_draws, seq_ids_distinct, Pool,
};
use crate::state::{Minter, State};

verus! {

/// The execution context of one call, as the host reports it.
#[derive(Debug)]
pub struct BlockEnv {
    pub height: u64,
    /// block time, in seconds
    pub time: u64,
    pub contract_address: String,
    pub contract_code_hash: String,
}

/// One of the two accepted payment channels.
#[derive(Debug, Clone, Copy, PartialEq, Eq, Structural)]
pub enum Channel {
    Scrt,
    Shill,
}

/// The channel whose contract address is `from`; the scrt channel is tried first.
pub open spec fn channel_of(s: State, from: Seq<char>) -> Option<Channel> {
    if from == s.scrt_contract.address@ {
        Some(Channel::Scrt)
    } else if from == s.shill_contract.address@ {
        Some(Channel::Shill)
    } else {
        None
    }
}

/// The configured contract of a channel.
pub open spec fn channel_contract(s: State, ch: Channel) -> ContractInfo {
    match ch {
        Channel::Scrt => s.scrt_contract,
        Channel::Shill => s.shill_contract,
    }
}

/// The running payment total of a channel.
pub open spec fn paid_through(s: State, ch: Channel) -> u128 {
    match ch {
        Channel::Scrt => s.amount_paid_scrt,
        Channel::Shill => s.amount_paid_shill,
    }
}

/// The checks of an allocation, in order; the first that fails decides the error.
pub open spec fn mint_check(s: State, from: Seq<char>, quantity: u16, amount: u128) -> Result<Channel, ContractError> {
    match channel_of(s, from) {
        None => Err(ContractError::UnrecognizedChannel),
        Some(ch) => if amount as int != channel_contract(s, ch).mint_cost as int * quantity as int {
            Err(ContractError::PaymentMismatch)
        } else if quantity == 0 {
            Err(ContractError::EmptyRequest)
        } else if s.total == 0 {
            Err(ContractError::PoolExhausted)
        } else if s.total < quantity {
            Err(ContractError::InsufficientSupply)
        } else {
            Ok(ch)
        },
    }
}

/// The running payment total of the channel that would be credited still fits.
pub open spec fn paid_fits(s: State, from: Seq<char>, quantity: u16, amount: u128) -> bool {
    mint_check(s, from, quantity, amount) matches Ok(ch) ==> paid_through(s, ch) + amount <= u128::MAX
}

/// The ledger after `quantity` items were paid for with `amount` through `ch`.
pub open spec fn state_after_mint(s: State, ch: Channel, quantity: u16, amount: u128) -> State {
    State {
        num_minted: (s.num_minted + quantity) as u16,
        total: (s.total - quantity) as u16,
        amount_paid_scrt: if ch == Channel::Scrt { (s.amount_paid_scrt + amount) as u128 } else { s.amount_paid_scrt },
        amount_paid_shill: if ch == Channel::Shill { (s.amount_paid_shill + amount) as u128 } else { s.amount_paid_shill },
        ..s
    }
}

/// One collectible-creation instruction per item, in order, then `last`.
pub open spec fn mint_instructions(items: Seq<PreLoad>, owner: String, contract: ContractInfo, last: Instruction) -> Seq<Instruction> {
    Seq::new(items.len(), |i: int| Instruction::MintNft { token: items[i], owner: owner, contract: contract }).push(last)
}

/// `new` and `out` are what a successful allocation of `quantity` items to
/// `recipient`, paid with `amount` through `ch`, makes of `old` when the raw
/// draws are `draws`.
pub open spec fn minted(old: Minter, new: Minter, out: Seq<Instruction>, recipient: String, ch: Channel, quantity: u16, amount: u128, draws: Seq<u32>) -> bool {
    let run = run_draws(old.pool@, old.state.total, draws);
    &&& new.state == state_after_mint(old.state, ch, quantity, amount)
    &&& new.pool@ == run.1
    &&& new.admin == old.admin
    &&& out == mint_instructions(
        run.0,
        recipient,
        old.state.mint_contract,
        (Instruction::Transfer { recipient: old.state.receiving_address, amount, contract: channel_contract(old.state, ch) }),
    )
}

/// The raw draws of an allocation of `quantity` items to `recipient`: the
/// stream of a generator seeded with the fixed seed and the call's entropy
/// (block height and time, the recipient, the seed).
pub open spec fn mint_draws(env: BlockEnv, s: State, recipient: Seq<char>, quantity: u16) -> Seq<u32> {
    let seed = encode_utf8(s.entropy_mint@);
    stream_of(seed, entropy_of(env.height, env.time, recipient, seed), quantity as nat)
}

/// What an allocation request does: on a failed check, the error and no
/// change; otherwise the allocation with the draws of `mint_draws`.
pub open spec fn mint_post(old: Minter, new: Minter, r: Result<Vec<Instruction>, ContractError>, env: BlockEnv, recipient: String, from: Seq<char>, quantity: u16, amount: u128) -> bool {
    match mint_check(old.state, from, quantity, amount) {
        Err(e) => r == Err::<Vec<Instruction>, ContractError>(e) && new == old,
        Ok(ch) => r matches Ok(out) && minted(old, new, out@, recipient, ch, quantity, amount, mint_draws(env, old.state, recipient@, quantity)),
    }
}

/// Run the checks of an allocation, without changing anything.
pub fn check_mint(s: &State, from: &String, quantity: u16, amount: u128) -> (r: Result<Channel, ContractError>)
    ensures
        r == mint_check(*s, from@, quantity, amount),
{
    let ch = if *from == s.scrt_contract.address {
        Channel::Scrt
    } else if *from == s.shill_contract.address {
        Channel::Shill
    } else {
        return Err(ContractError::UnrecognizedChannel);
    };
    let price = match ch {
        Channel::Scrt => s.scrt_contract.mint_cost,
        Channel::Shill => s.shill_contract.mint_cost,
    };
    match price.checked_mul(quantity as u128) {
        Some(expected) => {
            if amount != expected {
                return Err(ContractError::PaymentMismatch);
            }
        },
        None => {
            return Err(ContractError::PaymentMismatch);
        },
    }
    if quantity == 0 {
        Err(ContractError::EmptyRequest)
    } else if s.total == 0 {
        Err(ContractError::PoolExhausted)
    } else if s.total < quantity {
        Err(ContractError::InsufficientSupply)
    } else {
        Ok(ch)
    }
}

/// Whether the running payment total of the channel that would be credited
/// can take `amount` more.
pub fn can_credit(s: &State, from: &String, quantity: u16, amount: u128) -> (r: bool)
    ensures
        r == paid_fits(*s, from@, quantity, amount),
{
    match check_mint(s, from, quantity, amount) {
        Ok(Channel::Scrt) => s.amount_paid_scrt <= u128::MAX - amount,
        Ok(Channel::Shill) => s.amount_paid_shill <= u128::MAX - amount,
        Err(_) => true,
    }
}

/// Allocate `quantity` items to `recipient`, paid with `amount` through the
/// channel whose address is `from`, drawing the items with the raw values
/// `draws`: draw `i` takes key `draws[i] % current + 1` of the pool that the
/// earlier draws left. The instructions create each item in draw order, then
/// send the payment on to the receiving address.
pub fn mint_with_draws(deps: &mut Minter, recipient: &String, from: &String, quantity: u16, amount: u128, draws: &Vec<u32>) -> (r: Result<Vec<Instruction>, ContractError>)
    requires
        old(deps).wf(),
        draws@.len() == quantity,
        paid_fits(old(deps).state, from@, quantity, amount),
    ensures
        final(deps).wf(),
        match mint_check(old(deps).state, from@, quantity, amount) {
            Err(e) => r == Err::<Vec<Instruction>, ContractError>(e) && *final(deps) == *old(deps),
            Ok(ch) => r matches Ok(out) && minted(*old(deps), *final(deps), out@, *recipient, ch, quantity, amount, draws@),
        },
{
    let ch = match check_mint(&deps.state, from, quantity, amount) {
        Ok(ch) => ch,
        Err(e) => return Err(e),
    };
    let ghost old_deps = *deps;
    proof {
        lemma_run_draws_dense(deps.pool@, deps.state.total, draws@);
    }
    let mut items = deps.pool.draw_many(deps.state.total, draws);
    deps.state.total = deps.state.total - quantity;
    deps.state.num_minted = deps.state.num_minted + quantity;
    match ch {
        Channel::Scrt => deps.state.amount_paid_scrt = deps.state.amount_paid_scrt + amount,
        Channel::Shill => deps.state.amount_paid_shill = deps.state.amount_paid_shill + amount,
    }
    let ghost all = items@;
    let mut out: Vec<Instruction> = Vec::new();
    let mut i: usize = 0;
    while i < quantity as usize
        invariant
            all.len() == quantity,
            i <= quantity,
            items@ == all.subrange(i as int, all.len() as int),
            out@.len() == i,
            forall|j: int| 0 <= j < i ==> #[trigger] out@[j] == (Instruction::MintNft {
                token: all[j],
                owner: *recipient,
                contract: deps.state.mint_contract,
            }),
        decreases quantity - i,
    {
        let token = items.remove(0);
        out.push(Instruction::MintNft { token, owner: recipient.clone(), contract: deps.state.mint_contract.duplicate() });
        i = i + 1;
        assert(items@ =~= all.subrange(i as int, all.len() as int));
    }
    let contract = match ch {
        Channel::Scrt => deps.state.scrt_contract.duplicate(),
        Channel::Shill => deps.state.shill_contract.duplicate(),
    };
    out.push(Instruction::Transfer { recipient: deps.state.receiving_address.clone(), amount, contract });
    assert(out@ =~= mint_instructions(
        all,
        *recipient,
        old_deps.state.mint_contract,
        (Instruction::Transfer { recipient: old_deps.state.receiving_address, amount, contract: channel_contract(old_deps.state, ch) }),
    ));
    Ok(out)
}

/// Allocate `quantity` items to `recipient`, paid with `amount` through the
/// channel whose address is `from`. The draws come from a generator seeded
/// with the fixed seed and the call's entropy (block height and time, the
/// recipient, the seed). Checks come first: when one fails nothing changes.
pub fn mint(env: &BlockEnv, deps: &mut Minter, recipient: &String, from: &String, quantity: u16, amount: u128) -> (r: Result<Vec<Instruction>, ContractError>)
    requires
        old(deps).wf(),
        paid_fits(old(deps).state, from@, quantity, amount),
    ensures
        final(deps).wf(),
        mint_post(*old(deps), *final(deps), r, *env, *recipient, from@, quantity, amount),
        // a successful allocation moves exactly `quantity` items out of the pool
        r is Ok ==> final(deps).state.total == old(deps).state.total - quantity
            && final(deps).state.num_minted == old(deps).state.num_minted + quantity,
        // a wrong amount through a known channel changes nothing
        channel_of(old(deps).state, from@) matches Some(ch)
            && amount as int != channel_contract(old(deps).state, ch).mint_cost as int * quantity as int
            ==> r == Err::<Vec<Instruction>, ContractError>(ContractError::PaymentMismatch) && *final(deps) == *old(deps),
        // asking for more than the pool holds, with the right payment, changes nothing
        channel_of(old(deps).state, from@) matches Some(ch)
            && amount as int == channel_contract(old(deps).state, ch).mint_cost as int * quantity as int
            && quantity > old(deps).state.total
            ==> (r == Err::<Vec<Instruction>, ContractError>(ContractError::PoolExhausted)
                || r == Err::<Vec<Instruction>, ContractError>(ContractError::InsufficientSupply))
                && *final(deps) == *old(deps),
{
    match check_mint(&deps.state, from, quantity, amount) {
        Ok(_) => {},
        Err(e) => return Err(e),
    }
    let entropy = extend_entropy(env.height, env.time, deps.state.entropy_mint.as_str().as_bytes(), recipient.as_str());
    let draws = draw_stream(deps.state.entropy_mint.as_str().as_bytes(), entropy.as_slice(), quantity);
    mint_with_draws(deps, recipient, from, quantity, amount, &draws)
}

/// The pool after appending `items` at keys `n + 1`, `n + 2`, ...
pub open spec fn appended(m: Map<u16, PreLoad>, n: u16, items: Seq<PreLoad>) -> Map<u16, PreLoad> {
    Map::new(
        |k: u16| m.contains_key(k) || n < k <= n + items.len(),
        |k: u16| if n < k <= n + items.len() { items[k - n - 1] } else { m[k] },
    )
}

/// What loading `items` by `sender` makes of `old`.
pub open spec fn pre_load_post(old: Minter, new: Minter, r: Result<(), ContractError>, sender: Seq<char>, items: Seq<PreLoad>) -> bool {
    if sender != old.state.owner@ {
        r == Err::<(), ContractError>(ContractError::NotOwner) && new == old
    } else {
        &&& r is Ok
        &&& new.state == (State { total: (old.state.total + items.len()) as u16, ..old.state })
        &&& new.pool@ == appended(old.pool@, old.state.total, items)
        &&& new.admin == old.admin
    }
}

/// The owner appends `new_data` to the pool, each item at the next key;
/// anyone else gets `NotOwner`.
pub fn pre_load(deps: &mut Minter, sender: &String, new_data: Vec<PreLoad>) -> (r: Result<(), ContractError>)
    requires
        old(deps).wf(),
        sender@ == old(deps).state.owner@ ==> old(deps).state.num_minted + old(deps).state.total + new_data@.len() <= u16::MAX,
    ensures
        final(deps).wf(),
        pre_load_post(*old(deps), *final(deps), r, sender@, new_data@),
{
    if *sender != deps.state.owner {
        return Err(ContractError::NotOwner);
    }
    let ghost m0 = deps.pool@;
    let ghost all = new_data@;
    let base = deps.state.total;
    let count = new_data.len();
    let mut data = new_data;
    let mut n: usize = data.len();
    while n > 0
        invariant
            n <= all.len(),
            base + all.len() <= u16::MAX,
            data@ == all.subrange(0, n as int),
            deps.state == old(deps).state,
            deps.admin == old(deps).admin,
            deps.pool@ == appended(m0, base, all).restrict(
                Set::new(|k: u16| m0.contains_key(k) || base + n < k <= base + all.len()),
            ),
        decreases n,
    {
        let item = data.pop().unwrap();
        n = n - 1;
        deps.pool.insert(base + (n as u16) + 1, item);
        assert(data@ =~= all.subrange(0, n as int));
        assert(deps.pool@ =~= appended(m0, base, all).restrict(
            Set::new(|k: u16| m0.contains_key(k) || base + n < k <= base + all.len()),
        ));
    }
    deps.state.total = base + (count as u16);
    assert(deps.pool@ =~= appended(m0, base, all));
    assert(dense(deps.pool@, deps.state.total)) by {
        assert forall|k: u16| #[trigger] deps.pool@.contains_key(k) <==> 1 <= k <= deps.state.total by {
            assert(m0.contains_key(k) <==> 1 <= k <= base);
        }
    }
    Ok(())
}

/// What setting the admin secret `key` by `sender` makes of `old`: only the
/// owner changes anything, and no one is told otherwise.
pub open spec fn set_key_post(old: Minter, new: Minter, sender: String, key: Seq<char>) -> bool {
    if sender@ == old.state.owner@ {
        &&& new.state == old.state
        &&& new.pool == old.pool
        &&& new.admin matches Some(v) && v.address == sender && v.viewing_key@ == hashed_key(key)
    } else {
        new == old
    }
}

/// Store the owner's identity with the transformed admin secret; a call by
/// anyone else is ignored.
pub fn try_set_viewing_key(deps: &mut Minter, sender: &String, key: String)
    requires
        old(deps).wf(),
    ensures
        final(deps).wf(),
        set_key_post(*old(deps), *final(deps), *sender, key@),
{
    let viewing_key = hash_viewing_key(key.as_str());
    if *sender == deps.state.owner {
        deps.admin = Some(ViewerInfo { address: sender.clone(), viewing_key });
    }
}

/// The claimed identity is the stored one and the claimed secret transforms
/// to the stored value.
pub open spec fn authorized(admin: Option<ViewerInfo>, viewer: ViewerInfo) -> bool {
    admin matches Some(a) && viewer.address@ == a.address@ && hashed_key(viewer.viewing_key@) == a.viewing_key@
}

/// Check a claimed identity and secret against the stored admin secret.
pub fn check_viewer(admin: &Option<ViewerInfo>, viewer: &ViewerInfo) -> (r: bool)
    ensures
        r == authorized(*admin, *viewer),
{
    match admin {
        None => false,
        Some(a) => {
            if viewer.address != a.address {
                false
            } else {
                let h = hash_viewing_key(viewer.viewing_key.as_str());
                h == a.viewing_key
            }
        },
    }
}

/// The aggregate accounting of `s`.
pub open spec fn mint_info(s: State) -> MintInfoResponse {
    MintInfoResponse {
        num_minted: s.num_minted,
        total: s.total,
        amount_paid_shill: s.amount_paid_shill,
        amount_paid_scrt: s.amount_paid_scrt,
    }
}

/// Report the counters and payment totals.
pub fn query_mint_info(deps: &Minter) -> (r: MintInfoResponse)
    ensures
        r == mint_info(deps.state),
{
    MintInfoResponse {
        num_minted: deps.state.num_minted,
        total: deps.state.total,
        amount_paid_shill: deps.state.amount_paid_shill,
        amount_paid_scrt: deps.state.amount_paid_scrt,
    }
}

/// Answer a query; only the holder of the admin secret may read.
pub fn query(deps: &Minter, msg: QueryMsg) -> (r: Result<MintInfoResponse, ContractError>)
    ensures
        match msg {
            QueryMsg::GetMintInfo { viewer } => if authorized(deps.admin, viewer) {
                r == Ok::<MintInfoResponse, ContractError>(mint_info(deps.state))
            } else {
                r == Err::<MintInfoResponse, ContractError>(ContractError::Unauthorized)
            },
        },
{
    match msg {
        QueryMsg::GetMintInfo { viewer } => {
            if check_viewer(&deps.admin, &viewer) {
                Ok(query_mint_info(deps))
            } else {
                Err(ContractError::Unauthorized)
            }
        },
    }
}

/// The state right after creation by `sender`.
pub open spec fn initial_state(sender: String, msg: InstantiateMsg) -> State {
    State {
        owner: sender,
        num_minted: 0,
        total: 0,
        amount_paid_shill: 0,
        amount_paid_scrt: 0,
        viewing_key: Some(msg.entropy_shill),
        shill_contract: msg.shill_contract,
        scrt_contract: msg.scrt_contract,
        mint_contract: msg.mint_contract,
        entropy_mint: msg.entropy_mint,
        receiving_address: msg.receiving_address,
    }
}

/// The registrations made at creation: the viewing key on each of the three
/// counterparties, then payment notices from each payment channel.
pub open spec fn initial_instructions(code_hash: String, msg: InstantiateMsg) -> Seq<Instruction> {
    seq![
        Instruction::SetViewingKey { key: msg.entropy_shill, contract: msg.shill_contract },
        Instruction::SetViewingKey { key: msg.entropy_shill, contract: msg.scrt_contract },
        Instruction::SetViewingKey { key: msg.entropy_shill, contract: msg.mint_contract },
        Instruction::RegisterReceive { code_hash: code_hash, contract: msg.shill_contract },
        Instruction::RegisterReceive { code_hash: code_hash, contract: msg.scrt_contract },
    ]
}

/// Create the contract, owned by `sender`, with an empty pool and no admin
/// secret, and the registrations to send.
pub fn instantiate(env: &BlockEnv, sender: &String, msg: InstantiateMsg) -> (r: (Minter, Vec<Instruction>))
    ensures
        r.0.wf(),
        r.0.state == initial_state(*sender, msg),
        r.0.pool@ == Map::<u16, PreLoad>::empty(),
        r.0.admin is None,
        r.1@ == initial_instructions(env.contract_code_hash, msg),
{
    let mut out: Vec<Instruction> = Vec::new();
    out.push(Instruction::SetViewingKey { key: msg.entropy_shill.clone(), contract: msg.shill_contract.duplicate() });
    out.push(Instruction::SetViewingKey { key: msg.entropy_shill.clone(), contract: msg.scrt_contract.duplicate() });
    out.push(Instruction::SetViewingKey { key: msg.entropy_shill.clone(), contract: msg.mint_contract.duplicate() });
    out.push(Instruction::RegisterReceive { code_hash: env.contract_code_hash.clone(), contract: msg.shill_contract.duplicate() });
    out.push(Instruction::RegisterReceive { code_hash: env.contract_code_hash.clone(), contract: msg.scrt_contract.duplicate() });
    let ghost m = msg;
    let state = State {
        owner: sender.clone(),
        num_minted: 0,
        total: 0,
        amount_paid_shill: 0,
        amount_paid_scrt: 0,
        viewing_key: Some(msg.entropy_shill),
        shill_contract: msg.shill_contract,
        scrt_contract: msg.scrt_contract,
        mint_contract: msg.mint_contract,
        entropy_mint: msg.entropy_mint,
        receiving_address: msg.receiving_address,
    };
    assert(out@ =~= initial_instructions(env.contract_code_hash, m));
    (Minter { state, pool: Pool::new(), admin: None }, out)
}

/// The checks of a payment notice from `info_sender`: it must be one of the
/// two channels and carry an intent. Gives the quantity asked for; the channel
/// is the notifying contract, whichever kind the intent names.
pub open spec fn receive_check(s: State, info_sender: Seq<char>, msg: Option<HandleReceiveMsg>) -> Result<u16, ContractError> {
    match channel_of(s, info_sender) {
        None => Err(ContractError::UnrecognizedChannel),
        Some(ch) => match msg {
            None => Err(ContractError::MissingIntent),
            Some(m) => Ok(m.spec_quantity()),
        },
    }
}

/// What a payment notice makes of `old`.
pub open spec fn receive_post(old: Minter, new: Minter, r: Result<Vec<Instruction>, ContractError>, env: BlockEnv, sender: String, info_sender: Seq<char>, amount: u128, msg: Option<HandleReceiveMsg>) -> bool {
    match receive_check(old.state, info_sender, msg) {
        Err(e) => r == Err::<Vec<Instruction>, ContractError>(e) && new == old,
        Ok(q) => mint_post(old, new, r, env, sender, info_sender, q, amount),
    }
}

/// A payment channel (`info_sender`) reports that `sender` paid `amount`
/// with the intent `msg`; the items go to `sender`. Price, credit and the
/// onward transfer are those of the notifying channel.
pub fn receive(env: &BlockEnv, deps: &mut Minter, info_sender: &String, sender: &String, amount: u128, msg: Option<HandleReceiveMsg>) -> (r: Result<Vec<Instruction>, ContractError>)
    requires
        old(deps).wf(),
        receive_check(old(deps).state, info_sender@, msg) matches Ok(q) ==> paid_fits(old(deps).state, info_sender@, q, amount),
    ensures
        final(deps).wf(),
        receive_post(*old(deps), *final(deps), r, *env, *sender, info_sender@, amount, msg),
{
    if *info_sender != deps.state.scrt_contract.address && *info_sender != deps.state.shill_contract.address {
        return Err(ContractError::UnrecognizedChannel);
    }
    let intent = match msg {
        Some(m) => m,
        None => return Err(ContractError::MissingIntent),
    };
    mint(env, deps, sender, info_sender, intent.quantity(), amount)
}

/// What the host must know to hold before an operation: the counters and
/// payment totals that it would raise still fit.
pub open spec fn execute_fits(s: State, sender: Seq<char>, msg: ExecuteMsg) -> bool {
    match msg {
        ExecuteMsg::Receive { amount, msg, .. } => receive_check(s, sender, msg) matches Ok(q) ==> paid_fits(s, sender, q, amount),
        ExecuteMsg::PreLoad { new_data } => sender == s.owner@ ==> s.num_minted + s.total + new_data@.len() <= u16::MAX,
        ExecuteMsg::SetViewingKey { .. } => true,
    }
}

/// Dispatch an operation sent by `sender`.
pub fn execute(env: &BlockEnv, deps: &mut Minter, sender: &String, msg: ExecuteMsg) -> (r: Result<Vec<Instruction>, ContractError>)
    requires
        old(deps).wf(),
        execute_fits(old(deps).state, sender@, msg),
    ensures
        final(deps).wf(),
        match msg {
            ExecuteMsg::Receive { sender: payer, amount, msg, .. } => receive_post(*old(deps), *final(deps), r, *env, payer, sender@, amount, msg),
            ExecuteMsg::PreLoad { new_data } => pre_load_post(
                *old(deps),
                *final(deps),
                match r { Ok(_) => Ok(()), Err(e) => Err(e) },
                sender@,
                new_data@,
            ) && (r matches Ok(v) ==> v@.len() == 0),
            ExecuteMsg::SetViewingKey { key } => set_key_post(*old(deps), *final(deps), *sender, key@)
                && (r matches Ok(v) && v@.len() == 0),
        },
{
    match msg {
        ExecuteMsg::Receive { sender: payer, from: _, amount, msg } => receive(env, deps, sender, &payer, amount, msg),
        ExecuteMsg::PreLoad { new_data } => match pre_load(deps, sender, new_data) {
            Ok(()) => Ok(Vec::new()),
            Err(e) => Err(e),
        },
        ExecuteMsg::SetViewingKey { key } => {
            try_set_viewing_key(deps, sender, key);
            Ok(Vec::new())
        },
    }
}

/// The items that the first `quantity` instructions create.
pub open spec fn minted_tokens(out: Seq<Instruction>, quantity: u16) -> Seq<PreLoad> {
    Seq::new(quantity as nat, |i: int| out[i]->MintNft_token)
}

/// No item is allocated twice: the items an allocation creates, followed by
/// the items left in the pool, are the pool's items before, up to order; so
/// each comes from the pool before. When the identifiers in the pool are
/// distinct, the created items have pairwise distinct identifiers, none of
/// them is still in the pool afterwards, and the identifiers left in the pool
/// stay distinct.
pub proof fn lemma_mint_no_duplicates(old: Minter, new: Minter, out: Seq<Instruction>, recipient: String, ch: Channel, quantity: u16, amount: u128, draws: Seq<u32>)
    requires
        old.wf(),
        quantity <= old.state.total,
        draws.len() == quantity,
        minted(old, new, out, recipient, ch, quantity, amount, draws),
    ensures
        (minted_tokens(out, quantity) + items_of(new.pool@, new.state.total)).to_multiset()
            == items_of(old.pool@, old.state.total).to_multiset(),
        forall|i: int| 0 <= i < quantity ==> items_of(old.pool@, old.state.total).contains(#[trigger] minted_tokens(out, quantity)[i]),
        ids_distinct(old.pool@, old.state.total) ==> {
            &&& seq_ids_distinct(minted_tokens(out, quantity))
            &&& forall|i: int, k: u16| 0 <= i < quantity && #[trigger] new.pool@.contains_key(k)
                ==> (#[trigger] minted_tokens(out, quantity)[i]).id@ != new.pool@[k].id@
            &&& ids_distinct(new.pool@, new.state.total)
        },
{
    broadcast use vstd::seq_lib::group_to_multiset_ensures;
    broadcast use vstd::multiset::group_multiset_axioms;

    lemma_run_draws_dense(old.pool@, old.state.total, draws);
    lemma_run_draws_conserves(old.pool@, old.state.total, draws);
    let run = run_draws(old.pool@, old.state.total, draws);
    let toks = minted_tokens(out, quantity);
    assert(toks =~= run.0);
    let rest = items_of(new.pool@, new.state.total);
    let before = items_of(old.pool@, old.state.total);
    assert(rest == items_of(run.1, (old.state.total - draws.len()) as u16));
    assert forall|i: int| 0 <= i < quantity implies before.contains(#[trigger] toks[i]) by {
        assert((toks + rest)[i] == toks[i]);
        assert((toks + rest).contains(toks[i]));
        assert((toks + rest).to_multiset().count(toks[i]) > 0);
        assert(before.to_multiset().count(toks[i]) > 0);
    }
    if ids_distinct(old.pool@, old.state.total) {
        lemma_no_duplicate_allocation(old.pool@, old.state.total, draws);
    }
}

/// Loading keeps identifiers distinct: when the pool's identifiers are
/// distinct and the loaded items bring distinct identifiers that the pool does
/// not hold, the identifiers of the grown pool are distinct.
pub proof fn lemma_load_keeps_ids_distinct(m: Map<u16, PreLoad>, n: u16, items: Seq<PreLoad>)
    requires
        dense(m, n),
        ids_distinct(m, n),
        seq_ids_distinct(items),
        forall|i: int, k: u16| 0 <= i < items.len() && 1 <= k <= n ==> #[trigger] items[i].id@ != #[trigger] m[k].id@,
        n + items.len() <= u16::MAX,
    ensures
        ids_distinct(appended(m, n, items), (n + items.len()) as u16),
{
    let a = appended(m, n, items);
    let t = (n + items.len()) as u16;
    assert forall|k1: u16, k2: u16| 1 <= k1 <= t && 1 <= k2 <= t && k1 != k2
        implies #[trigger] a[k1].id@ != #[trigger] a[k2].id@ by {
        assert(a.contains_key(k1) && a.contains_key(k2));
        if k1 > n && k2 > n {
            assert(items[k1 - n - 1].id@ != items[k2 - n - 1].id@);
        } else if k1 > n {
            assert(items[k1 - n - 1].id@ != m[k2].id@);
        } else if k2 > n {
            assert(items[k2 - n - 1].id@ != m[k1].id@);
        }
    }
}

} // verus!
