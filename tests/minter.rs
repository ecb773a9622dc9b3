use random_minter::contract::{
    check_viewer, execute, instantiate, mint, mint_with_draws, pre_load, query, query_mint_info, receive,
    try_set_viewing_key, BlockEnv,
};
use random_minter::crypto::{draw_stream, extend_entropy, hash_viewing_key};
use random_minter::msg::{
    ContractError, ContractInfo, ExecuteMsg, HandleReceiveMsg, Instruction, InstantiateMsg, MintInfoResponse, PreLoad,
    QueryMsg, ViewerInfo,
};
use random_minter::state::Minter;

fn info(addr: &str, cost: u128) -> ContractInfo {
    ContractInfo { code_hash: format!("{}_hash", addr), address: addr.to_string(), mint_cost: cost }
}

fn init_msg() -> InstantiateMsg {
    InstantiateMsg {
        mint_contract: info("nft", 0),
        shill_contract: info("shill", 50),
        scrt_contract: info("scrt", 100),
        entropy_shill: "vk".to_string(),
        entropy_mint: "seed".to_string(),
        receiving_address: "treasury".to_string(),
    }
}

fn env() -> BlockEnv {
    BlockEnv { height: 12345, time: 1_600_000_000, contract_address: "self".to_string(), contract_code_hash: "self_hash".to_string() }
}

fn item(id: &str) -> PreLoad {
    PreLoad { id: id.to_string(), img_url: format!("https://img/{}.png", id), attributes: None }
}

fn owner() -> String {
    "owner".to_string()
}

fn loaded(ids: &[&str]) -> Minter {
    let (mut m, _) = instantiate(&env(), &owner(), init_msg());
    let data: Vec<PreLoad> = ids.iter().map(|i| item(i)).collect();
    assert_eq!(pre_load(&mut m, &owner(), data), Ok(()));
    m
}

fn pool_ids(m: &Minter) -> Vec<String> {
    (1..=m.state.total).map(|k| m.pool.get(k).unwrap().id.clone()).collect()
}

fn token_id(i: &Instruction) -> String {
    match i {
        Instruction::MintNft { token, .. } => token.id.clone(),
        _ => panic!("not a mint instruction"),
    }
}

#[test]
fn instantiate_registers_with_counterparties() {
    let (m, out) = instantiate(&env(), &owner(), init_msg());
    assert_eq!(m.state.total, 0);
    assert_eq!(m.state.num_minted, 0);
    assert_eq!(m.state.owner, "owner");
    assert_eq!(m.state.viewing_key, Some("vk".to_string()));
    assert!(m.admin.is_none());
    assert_eq!(out.len(), 5);
    assert!(matches!(&out[0], Instruction::SetViewingKey { key, contract } if key == "vk" && contract.address == "shill"));
    assert!(matches!(&out[1], Instruction::SetViewingKey { contract, .. } if contract.address == "scrt"));
    assert!(matches!(&out[2], Instruction::SetViewingKey { contract, .. } if contract.address == "nft"));
    assert!(matches!(&out[3], Instruction::RegisterReceive { code_hash, contract } if code_hash == "self_hash" && contract.address == "shill"));
    assert!(matches!(&out[4], Instruction::RegisterReceive { contract, .. } if contract.address == "scrt"));
}

#[test]
fn load_appends_at_increasing_keys() {
    let mut m = loaded(&["A", "B"]);
    assert_eq!(pre_load(&mut m, &owner(), vec![item("C")]), Ok(()));
    assert_eq!(m.state.total, 3);
    assert_eq!(pool_ids(&m), vec!["A", "B", "C"]);
    assert!(!m.pool.contains(4));
    assert!(!m.pool.contains(0));
}

#[test]
fn load_by_stranger_is_refused() {
    let mut m = loaded(&["A"]);
    assert_eq!(pre_load(&mut m, &"mallory".to_string(), vec![item("X")]), Err(ContractError::NotOwner));
    assert_eq!(m.state.total, 1);
    assert_eq!(pool_ids(&m), vec!["A"]);
}

#[test]
fn draw_of_middle_key_moves_last_item_into_its_slot() {
    let mut m = loaded(&["A", "B", "C"]);
    // 1 % 3 + 1 == 2
    let out = mint_with_draws(&mut m, &"alice".to_string(), &"scrt".to_string(), 1, 100, &vec![1]).unwrap();
    assert_eq!(out.len(), 2);
    assert_eq!(token_id(&out[0]), "B");
    assert!(matches!(&out[0], Instruction::MintNft { owner, contract, .. } if owner == "alice" && contract.address == "nft"));
    assert!(matches!(&out[1], Instruction::Transfer { recipient, amount: 100, contract } if recipient == "treasury" && contract.address == "scrt"));
    assert_eq!(m.state.total, 2);
    assert_eq!(pool_ids(&m), vec!["A", "C"]);
    assert!(!m.pool.contains(3));
    assert_eq!(m.state.num_minted, 1);
    assert_eq!(m.state.amount_paid_scrt, 100);
    assert_eq!(m.state.amount_paid_shill, 0);
}

#[test]
fn draw_of_last_key_just_removes_it() {
    let mut m = loaded(&["A", "B", "C"]);
    let out = mint_with_draws(&mut m, &"alice".to_string(), &"shill".to_string(), 1, 50, &vec![5]).unwrap();
    assert_eq!(token_id(&out[0]), "C");
    assert_eq!(pool_ids(&m), vec!["A", "B"]);
    assert_eq!(m.state.amount_paid_shill, 50);
}

#[test]
fn later_draws_see_the_shrunken_pool() {
    let mut m = loaded(&["A", "B", "C", "D"]);
    // 0 % 4 + 1 == 1: A out, D into 1; 2 % 3 + 1 == 3: C out; 7 % 2 + 1 == 2: B out
    let out = mint_with_draws(&mut m, &"bob".to_string(), &"scrt".to_string(), 3, 300, &vec![0, 2, 7]).unwrap();
    let ids: Vec<String> = out[..3].iter().map(token_id).collect();
    assert_eq!(ids, vec!["A", "C", "B"]);
    assert_eq!(pool_ids(&m), vec!["D"]);
    assert_eq!(m.state.total, 1);
    assert_eq!(m.state.num_minted, 3);
}

#[test]
fn wrong_amount_is_payment_mismatch_and_changes_nothing() {
    let mut m = loaded(&["A", "B", "C"]);
    let r = mint(&env(), &mut m, &"alice".to_string(), &"scrt".to_string(), 2, 250);
    assert_eq!(r.err(), Some(ContractError::PaymentMismatch));
    assert_eq!(pool_ids(&m), vec!["A", "B", "C"]);
    assert_eq!(m.state.total, 3);
    assert_eq!(m.state.num_minted, 0);
    assert_eq!(m.state.amount_paid_scrt, 0);
}

#[test]
fn overpayment_is_payment_mismatch() {
    let mut m = loaded(&["A"]);
    let r = mint(&env(), &mut m, &"alice".to_string(), &"shill".to_string(), 1, 51);
    assert_eq!(r.err(), Some(ContractError::PaymentMismatch));
}

#[test]
fn unknown_channel_is_refused_first() {
    let mut m = loaded(&["A"]);
    let r = mint(&env(), &mut m, &"alice".to_string(), &"elsewhere".to_string(), 0, 7);
    assert_eq!(r.err(), Some(ContractError::UnrecognizedChannel));
    assert_eq!(m.state.total, 1);
}

#[test]
fn zero_quantity_is_empty_request() {
    let mut m = loaded(&["A"]);
    let r = mint(&env(), &mut m, &"alice".to_string(), &"scrt".to_string(), 0, 0);
    assert_eq!(r.err(), Some(ContractError::EmptyRequest));
}

#[test]
fn empty_pool_is_exhausted() {
    let (mut m, _) = instantiate(&env(), &owner(), init_msg());
    let r = mint(&env(), &mut m, &"alice".to_string(), &"scrt".to_string(), 1, 100);
    assert_eq!(r.err(), Some(ContractError::PoolExhausted));
}

#[test]
fn asking_for_more_than_left_is_insufficient_supply() {
    let mut m = loaded(&["A", "B", "C"]);
    let r = mint(&env(), &mut m, &"alice".to_string(), &"scrt".to_string(), 4, 400);
    assert_eq!(r.err(), Some(ContractError::InsufficientSupply));
    assert_eq!(pool_ids(&m), vec!["A", "B", "C"]);
    assert_eq!(m.state.amount_paid_scrt, 0);
}

#[test]
fn overflowing_price_is_payment_mismatch() {
    let mut msg = init_msg();
    msg.scrt_contract.mint_cost = u128::MAX;
    let (mut m, _) = instantiate(&env(), &owner(), msg);
    let r = mint(&env(), &mut m, &"alice".to_string(), &"scrt".to_string(), 2, u128::MAX);
    assert_eq!(r.err(), Some(ContractError::PaymentMismatch));
}

#[test]
fn drawing_the_whole_pool_hands_out_each_item_once() {
    let mut m = loaded(&["A", "B", "C", "D", "E"]);
    let out = mint(&env(), &mut m, &"alice".to_string(), &"scrt".to_string(), 5, 500).unwrap();
    assert_eq!(out.len(), 6);
    let mut ids: Vec<String> = out[..5].iter().map(token_id).collect();
    ids.sort();
    assert_eq!(ids, vec!["A", "B", "C", "D", "E"]);
    assert_eq!(m.state.total, 0);
    assert_eq!(m.state.num_minted, 5);
    assert_eq!(m.state.amount_paid_scrt, 500);
    assert!(!m.pool.contains(1));
}

#[test]
fn successive_calls_conserve_items() {
    let mut m = loaded(&["A", "B", "C", "D"]);
    let first = mint(&env(), &mut m, &"alice".to_string(), &"scrt".to_string(), 2, 200).unwrap();
    assert_eq!(m.state.total, 2);
    let second = mint(&env(), &mut m, &"bob".to_string(), &"shill".to_string(), 2, 100).unwrap();
    assert_eq!(m.state.total, 0);
    assert_eq!(m.state.num_minted, 4);
    let mut ids: Vec<String> = first[..2].iter().chain(second[..2].iter()).map(token_id).collect();
    ids.sort();
    assert_eq!(ids, vec!["A", "B", "C", "D"]);
    assert_eq!(query_mint_info(&m), MintInfoResponse { num_minted: 4, total: 0, amount_paid_shill: 100, amount_paid_scrt: 200 });
}

#[test]
fn generator_is_reproducible_and_advances() {
    let a = draw_stream(b"seed", b"context", 4);
    let b = draw_stream(b"seed", b"context", 4);
    assert_eq!(a.len(), 4);
    assert_eq!(a, b);
    assert_ne!(a[0], a[1]);
    assert_ne!(draw_stream(b"seed", b"other", 1), draw_stream(b"seed", b"context", 1));
}

#[test]
fn entropy_is_height_time_sender_seed() {
    let e = extend_entropy(0x0102030405060708, 0x1112131415161718, b"xy", "ab");
    assert_eq!(e, vec![1, 2, 3, 4, 5, 6, 7, 8, 0x11, 0x12, 0x13, 0x14, 0x15, 0x16, 0x17, 0x18, b'a', b'b', b'x', b'y']);
}

#[test]
fn viewing_key_transform_matches_known_values() {
    assert_eq!(hash_viewing_key("s1"), "khjeivM/upO272b1opuRfkXbDaJU/FQsBdQJA5l4Hu8=");
    assert_eq!(hash_viewing_key("s2"), "MUfTleJFi2A5RnlR1I/RVkkyXN+eqiliimr0Tag/xiQ=");
}

fn viewer(addr: &str, key: &str) -> ViewerInfo {
    ViewerInfo { address: addr.to_string(), viewing_key: key.to_string() }
}

#[test]
fn wrong_secret_is_unauthorized() {
    let mut m = loaded(&["A"]);
    try_set_viewing_key(&mut m, &owner(), "s1".to_string());
    let r = query(&m, QueryMsg::GetMintInfo { viewer: viewer("owner", "s2") });
    assert_eq!(r, Err(ContractError::Unauthorized));
    let ok = query(&m, QueryMsg::GetMintInfo { viewer: viewer("owner", "s1") });
    assert_eq!(ok, Ok(MintInfoResponse { num_minted: 0, total: 1, amount_paid_shill: 0, amount_paid_scrt: 0 }));
    assert!(!check_viewer(&m.admin, &viewer("mallory", "s1")));
}

#[test]
fn query_before_any_secret_is_unauthorized() {
    let m = loaded(&["A"]);
    assert_eq!(query(&m, QueryMsg::GetMintInfo { viewer: viewer("owner", "vk") }), Err(ContractError::Unauthorized));
}

#[test]
fn secret_from_stranger_is_ignored() {
    let mut m = loaded(&["A"]);
    try_set_viewing_key(&mut m, &owner(), "s1".to_string());
    try_set_viewing_key(&mut m, &"mallory".to_string(), "evil".to_string());
    let a = m.admin.as_ref().unwrap();
    assert_eq!(a.address, "owner");
    assert_eq!(a.viewing_key, hash_viewing_key("s1"));
    assert_eq!(query(&m, QueryMsg::GetMintInfo { viewer: viewer("mallory", "evil") }), Err(ContractError::Unauthorized));
}

#[test]
fn receive_from_unknown_contract_is_refused() {
    let mut m = loaded(&["A"]);
    let r = receive(&env(), &mut m, &"elsewhere".to_string(), &"alice".to_string(), 100, Some(HandleReceiveMsg::ReceiveMintScrt { quantity: 1 }));
    assert_eq!(r.err(), Some(ContractError::UnrecognizedChannel));
}

#[test]
fn receive_without_intent_is_refused() {
    let mut m = loaded(&["A"]);
    let r = receive(&env(), &mut m, &"scrt".to_string(), &"alice".to_string(), 100, None);
    assert_eq!(r.err(), Some(ContractError::MissingIntent));
}

#[test]
fn receive_goes_by_the_notifying_channel_whatever_the_intent_names() {
    let mut m = loaded(&["A"]);
    let out = receive(&env(), &mut m, &"shill".to_string(), &"alice".to_string(), 50, Some(HandleReceiveMsg::ReceiveMintScrt { quantity: 1 })).unwrap();
    assert_eq!(out.len(), 2);
    assert!(matches!(&out[1], Instruction::Transfer { amount: 50, contract, .. } if contract.address == "shill"));
    assert_eq!(m.state.amount_paid_shill, 50);
    assert_eq!(m.state.amount_paid_scrt, 0);
    assert_eq!(m.state.total, 0);
}

#[test]
fn receive_mints_to_the_payer() {
    let mut m = loaded(&["A", "B"]);
    let out = receive(&env(), &mut m, &"shill".to_string(), &"alice".to_string(), 100, Some(HandleReceiveMsg::ReceiveMintShill { quantity: 2 })).unwrap();
    assert_eq!(out.len(), 3);
    assert!(matches!(&out[0], Instruction::MintNft { owner, .. } if owner == "alice"));
    assert!(matches!(&out[2], Instruction::Transfer { amount: 100, contract, .. } if contract.address == "shill"));
    assert_eq!(m.state.amount_paid_shill, 100);
    assert_eq!(m.state.total, 0);
}

#[test]
fn execute_dispatches_each_operation() {
    let (mut m, _) = instantiate(&env(), &owner(), init_msg());
    let r = execute(&env(), &mut m, &owner(), ExecuteMsg::PreLoad { new_data: vec![item("A"), item("B")] });
    assert_eq!(r.map(|v| v.len()), Ok(0));
    let r = execute(&env(), &mut m, &owner(), ExecuteMsg::SetViewingKey { key: "s1".to_string() });
    assert_eq!(r.map(|v| v.len()), Ok(0));
    let msg = ExecuteMsg::Receive {
        sender: "alice".to_string(),
        from: "alice".to_string(),
        amount: 100,
        msg: Some(HandleReceiveMsg::ReceiveMintScrt { quantity: 1 }),
    };
    let out = execute(&env(), &mut m, &"scrt".to_string(), msg).unwrap();
    assert_eq!(out.len(), 2);
    assert_eq!(m.state.total, 1);
    let r = execute(&env(), &mut m, &"mallory".to_string(), ExecuteMsg::PreLoad { new_data: vec![item("Z")] });
    assert_eq!(r.err(), Some(ContractError::NotOwner));
}

#[test]
fn restore_accepts_exactly_the_dense_keys() {
    let (m, _) = instantiate(&env(), &owner(), init_msg());
    let mut state = m.state;
    state.total = 2;
    let ok = Minter::restore(state, None, vec![(2, item("B")), (1, item("A"))]).unwrap();
    assert_eq!(pool_ids(&ok), vec!["A", "B"]);
    let state = ok.state;
    let gap = Minter::restore(state, None, vec![(1, item("A")), (3, item("C"))]);
    assert_eq!(gap.err(), Some(ContractError::PoolCorrupt));
}

#[test]
fn restore_refuses_an_admin_other_than_the_owner() {
    let (m, _) = instantiate(&env(), &owner(), init_msg());
    let admin = ViewerInfo { address: "mallory".to_string(), viewing_key: hash_viewing_key("s1") };
    let r = Minter::restore(m.state, Some(admin), vec![]);
    assert_eq!(r.err(), Some(ContractError::StateCorrupt));
}

#[test]
fn restore_refuses_counters_that_overflow() {
    let (m, _) = instantiate(&env(), &owner(), init_msg());
    let mut state = m.state;
    state.num_minted = u16::MAX;
    state.total = 1;
    let r = Minter::restore(state, None, vec![(1, item("A"))]);
    assert_eq!(r.err(), Some(ContractError::StateCorrupt));
}

#[test]
fn mint_draws_follow_the_seeded_stream() {
    // the draws of a call are the stream seeded with the fixed seed and the call's entropy
    let seed = b"seed";
    let entropy = extend_entropy(12345, 1_600_000_000, seed, "alice");
    let raw = draw_stream(seed, &entropy, 2);
    let mut expected = loaded(&["A", "B", "C"]);
    let want = mint_with_draws(&mut expected, &"alice".to_string(), &"scrt".to_string(), 2, 200, &raw).unwrap();
    let mut m = loaded(&["A", "B", "C"]);
    let got = mint(&env(), &mut m, &"alice".to_string(), &"scrt".to_string(), 2, 200).unwrap();
    let w: Vec<String> = want[..2].iter().map(token_id).collect();
    let g: Vec<String> = got[..2].iter().map(token_id).collect();
    assert_eq!(w, g);
    assert_eq!(pool_ids(&m), pool_ids(&expected));
}

#[test]
fn intent_quantity() {
    assert_eq!(HandleReceiveMsg::ReceiveMintShill { quantity: 7 }.quantity(), 7);
}
