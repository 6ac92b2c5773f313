use artemis_bridge::application::VerificationOutput;
use artemis_bridge::commitments::CommitmentLog;
use artemis_bridge::erc20_app::{Erc20App, TransferEvent as TokenTransfer};
use artemis_bridge::erc20_payload;
use artemis_bridge::error::{BridgeError, DecodeError, LedgerError};
use artemis_bridge::eth_app::{EthApp, TransferEvent};
use artemis_bridge::eth_payload;
use artemis_bridge::memory_ledger::MemoryLedger;
use artemis_bridge::registry::Registry;
use artemis_bridge::types::{Account, Address, Amount};
use artemis_bridge::application::Application;

fn amount(x: u128) -> Amount {
    let mut b = [0u8; 32];
    b[16..].copy_from_slice(&x.to_be_bytes());
    Amount::from_bytes(b)
}

fn address(last: u8) -> Address {
    let mut b = [0u8; 20];
    b[0] = 0xaa;
    b[19] = last;
    Address::from_bytes(b)
}

fn account(last: u8) -> Account {
    let mut b = [0x11u8; 32];
    b[31] = last;
    Account::from_bytes(b)
}

fn native() -> Address {
    Address::zero()
}

fn eth_bytes(acc: &Account, remote: &Address, amt: &Amount) -> Vec<u8> {
    let mut v = acc.bytes.to_vec();
    v.extend_from_slice(&[0u8; 12]);
    v.extend_from_slice(&remote.bytes);
    v.extend_from_slice(&amt.bytes);
    v
}

fn token_bytes(token: &Address, acc: &Account, remote: &Address, amt: &Amount) -> Vec<u8> {
    let mut v = vec![0u8; 12];
    v.extend_from_slice(&token.bytes);
    v.extend(eth_bytes(acc, remote, amt));
    v
}

fn funded(asset: &Address, who: &Account, x: u128) -> MemoryLedger {
    let mut ledger = MemoryLedger::new();
    assert_eq!(ledger.deposit(asset, who, &amount(x)), Ok(()));
    ledger
}

#[test]
fn eth_encode_has_three_words() {
    let p = eth_payload::OutPayload {
        sender_addr: account(1),
        recipient_addr: address(2),
        amount: amount(100),
    };
    let bytes = p.encode();
    assert_eq!(bytes.len(), 96);
    assert_eq!(bytes, eth_bytes(&account(1), &address(2), &amount(100)));
    assert_eq!(bytes[95], 100);
    assert_eq!(bytes[44], 0xaa);
}

#[test]
fn eth_round_trip() {
    let p = eth_payload::OutPayload {
        sender_addr: account(7),
        recipient_addr: address(9),
        amount: amount(123_456_789),
    };
    let q = eth_payload::InPayload::decode(&p.encode()).unwrap();
    assert_eq!(q.recipient_addr, p.sender_addr);
    assert_eq!(q.sender_addr, p.recipient_addr);
    assert_eq!(q.amount, p.amount);
}

#[test]
fn token_round_trip() {
    let p = erc20_payload::OutPayload {
        token_addr: address(5),
        sender_addr: account(7),
        recipient_addr: address(9),
        amount: amount(42),
    };
    let bytes = p.encode();
    assert_eq!(bytes, token_bytes(&address(5), &account(7), &address(9), &amount(42)));
    let q = erc20_payload::InPayload::decode(&bytes).unwrap();
    assert_eq!(q.token_addr, p.token_addr);
    assert_eq!(q.recipient_addr, p.sender_addr);
    assert_eq!(q.sender_addr, p.recipient_addr);
    assert_eq!(q.amount, p.amount);
}

#[test]
fn decode_refuses_truncated_and_extended() {
    let bytes = eth_bytes(&account(1), &address(2), &amount(3));
    assert_eq!(eth_payload::InPayload::decode(&bytes[..95]), Err(DecodeError {}));
    let mut longer = bytes.clone();
    longer.push(0);
    assert_eq!(eth_payload::InPayload::decode(&longer), Err(DecodeError {}));
    assert_eq!(eth_payload::InPayload::decode(&[]), Err(DecodeError {}));
    let tbytes = token_bytes(&address(5), &account(1), &address(2), &amount(3));
    assert_eq!(erc20_payload::InPayload::decode(&tbytes[..127]), Err(DecodeError {}));
    let mut tlonger = tbytes.clone();
    tlonger.push(9);
    assert_eq!(erc20_payload::InPayload::decode(&tlonger), Err(DecodeError {}));
}

#[test]
fn decode_refuses_dirty_address_padding() {
    let mut bytes = eth_bytes(&account(1), &address(2), &amount(3));
    bytes[32] = 1;
    assert_eq!(eth_payload::InPayload::decode(&bytes), Err(DecodeError {}));
    let mut tbytes = token_bytes(&address(5), &account(1), &address(2), &amount(3));
    tbytes[0] = 1;
    assert_eq!(erc20_payload::InPayload::decode(&tbytes), Err(DecodeError {}));
    let mut tbytes2 = token_bytes(&address(5), &account(1), &address(2), &amount(3));
    tbytes2[75] = 1;
    assert_eq!(erc20_payload::InPayload::decode(&tbytes2), Err(DecodeError {}));
}

#[test]
fn native_burn_commits_and_signals() {
    let alice = account(0xa1);
    let recipient = address(0x77);
    let app_id = address(0x01);
    let app = EthApp::new(app_id);
    let mut ledger = funded(&native(), &alice, 250);
    let mut log = CommitmentLog::new();
    let r = app.burn(&mut ledger, &mut log, alice, recipient, amount(100));
    assert_eq!(
        r,
        Ok(TransferEvent { sender: alice, recipient, amount: amount(100) })
    );
    assert_eq!(ledger.balance_of(&native(), &alice), amount(150));
    assert_eq!(log.len(), 1);
    assert_eq!(log.address_at(0), app_id);
    assert_eq!(log.payload_at(0), eth_bytes(&alice, &recipient, &amount(100)));
}

#[test]
fn native_burn_refused_leaves_no_trace() {
    let alice = account(0xa1);
    let app = EthApp::new(address(0x01));
    let mut ledger = funded(&native(), &alice, 99);
    let mut log = CommitmentLog::new();
    let r = app.burn(&mut ledger, &mut log, alice, address(0x77), amount(100));
    assert_eq!(r, Err(BridgeError::Ledger(LedgerError::InsufficientBalance)));
    assert_eq!(ledger.balance_of(&native(), &alice), amount(99));
    assert_eq!(log.len(), 0);
}

#[test]
fn native_handle_mints() {
    let bob = account(0xb0);
    let app = EthApp::new(address(0x01));
    let mut ledger = MemoryLedger::new();
    let bytes = eth_bytes(&bob, &address(0x55), &amount(40));
    let r = app.handle(&mut ledger, &bytes, &VerificationOutput::Empty);
    assert_eq!(r, Ok(()));
    assert_eq!(ledger.balance_of(&native(), &bob), amount(40));
}

#[test]
fn native_handle_refuses_token_layout() {
    let bob = account(0xb0);
    let app = EthApp::new(address(0x01));
    let mut ledger = MemoryLedger::new();
    let bytes = token_bytes(&address(5), &bob, &address(0x55), &amount(40));
    let r = app.handle(&mut ledger, &bytes, &VerificationOutput::Empty);
    assert_eq!(r, Err(BridgeError::InvalidPayload));
    assert_eq!(ledger.balance_of(&native(), &bob), amount(0));
    assert_eq!(ledger.balance_of(&address(5), &bob), amount(0));
}

#[test]
fn token_burn_of_zero_asset_refused() {
    let alice = account(0xa1);
    let app = Erc20App::new(address(0x02));
    let mut ledger = funded(&native(), &alice, 500);
    let mut log = CommitmentLog::new();
    let r = app.burn(&mut ledger, &mut log, alice, native(), address(0x77), amount(10));
    assert_eq!(r, Err(BridgeError::InvalidAssetId));
    assert_eq!(ledger.balance_of(&native(), &alice), amount(500));
    assert_eq!(log.len(), 0);
}

#[test]
fn token_handle_of_zero_asset_refused() {
    let bob = account(0xb0);
    let app = Erc20App::new(address(0x02));
    let mut ledger = MemoryLedger::new();
    let bytes = token_bytes(&native(), &bob, &address(0x55), &amount(40));
    let r = app.handle(&mut ledger, &bytes, &VerificationOutput::Receipt(vec![1, 2, 3]));
    assert_eq!(r, Err(BridgeError::InvalidAssetId));
    assert_eq!(ledger.balance_of(&native(), &bob), amount(0));
}

#[test]
fn garbage_payload_refused() {
    let bob = account(0xb0);
    let eth = EthApp::new(address(0x01));
    let token = Erc20App::new(address(0x02));
    let mut ledger = MemoryLedger::new();
    for garbage in [vec![], vec![1u8, 2, 3], vec![0xffu8; 96], vec![0xffu8; 128], vec![0u8; 200]] {
        assert_eq!(
            eth.handle(&mut ledger, &garbage, &VerificationOutput::Empty),
            Err(BridgeError::InvalidPayload)
        );
        assert_eq!(
            token.handle(&mut ledger, &garbage, &VerificationOutput::Empty),
            Err(BridgeError::InvalidPayload)
        );
    }
    assert_eq!(ledger.balance_of(&native(), &bob), amount(0));
}

#[test]
fn token_burn_then_handle_conserves() {
    let alice = account(0xa1);
    let token = address(0x33);
    let app = Erc20App::new(address(0x02));
    let mut ledger = funded(&token, &alice, 1000);
    let mut log = CommitmentLog::new();
    let r1 = app.burn(&mut ledger, &mut log, alice, token, address(0x77), amount(300));
    assert_eq!(
        r1,
        Ok(TokenTransfer { asset_id: token, sender: alice, recipient: address(0x77), amount: amount(300) })
    );
    assert!(app.burn(&mut ledger, &mut log, alice, token, address(0x78), amount(200)).is_ok());
    assert_eq!(ledger.balance_of(&token, &alice), amount(500));
    assert_eq!(log.len(), 2);
    for i in 0..log.len() {
        assert_eq!(log.address_at(i), address(0x02));
        let payload = log.payload_at(i);
        assert_eq!(app.handle(&mut ledger, &payload, &VerificationOutput::Empty), Ok(()));
    }
    assert_eq!(ledger.balance_of(&token, &alice), amount(1000));
    assert_eq!(ledger.balance_of(&native(), &alice), amount(0));
}

#[test]
fn native_burn_then_handle_conserves() {
    let alice = account(0xa1);
    let app = EthApp::new(address(0x01));
    let mut ledger = funded(&native(), &alice, 70);
    let mut log = CommitmentLog::new();
    assert!(app.burn(&mut ledger, &mut log, alice, address(0x77), amount(70)).is_ok());
    assert_eq!(ledger.balance_of(&native(), &alice), amount(0));
    let payload = log.payload_at(0);
    assert_eq!(app.handle(&mut ledger, &payload, &VerificationOutput::Empty), Ok(()));
    assert_eq!(ledger.balance_of(&native(), &alice), amount(70));
}

#[test]
fn registry_routes_by_identity() {
    let bob = account(0xb0);
    let eth_id = address(0x01);
    let token_id = address(0x02);
    let registry = Registry::new(EthApp::new(eth_id), Erc20App::new(token_id));
    assert_eq!(registry.eth().address(), eth_id);
    assert_eq!(registry.erc20().address(), token_id);
    let mut ledger = MemoryLedger::new();
    let native_msg = eth_bytes(&bob, &address(0x55), &amount(5));
    let token_msg = token_bytes(&address(0x33), &bob, &address(0x55), &amount(6));
    assert_eq!(registry.dispatch(&mut ledger, &eth_id, &native_msg, &VerificationOutput::Empty), Ok(()));
    assert_eq!(registry.dispatch(&mut ledger, &token_id, &token_msg, &VerificationOutput::Empty), Ok(()));
    assert_eq!(
        registry.dispatch(&mut ledger, &token_id, &native_msg, &VerificationOutput::Empty),
        Err(BridgeError::InvalidPayload)
    );
    assert_eq!(
        registry.dispatch(&mut ledger, &address(0x09), &native_msg, &VerificationOutput::Empty),
        Err(BridgeError::UnknownApplication)
    );
    assert_eq!(ledger.balance_of(&native(), &bob), amount(5));
    assert_eq!(ledger.balance_of(&address(0x33), &bob), amount(6));
}

#[test]
fn amount_arithmetic_edges() {
    assert_eq!(amount(10).checked_sub(&amount(3)), Some(amount(7)));
    assert_eq!(amount(3).checked_sub(&amount(10)), None);
    assert_eq!(amount(0).checked_sub(&amount(0)), Some(amount(0)));
    assert_eq!(amount(255).checked_add(&amount(1)), Some(amount(256)));
    let borrow = Amount::from_bytes({
        let mut b = [0u8; 32];
        b[0] = 1;
        b
    });
    let mut just_below = [0xffu8; 32];
    just_below[0] = 0;
    assert_eq!(borrow.checked_sub(&amount(1)), Some(Amount::from_bytes(just_below)));
    let max = Amount::from_bytes([0xffu8; 32]);
    assert_eq!(max.checked_add(&amount(0)), Some(max));
    assert_eq!(max.checked_add(&amount(1)), None);
}

#[test]
fn mint_overflow_refused() {
    let bob = account(0xb0);
    let max = Amount::from_bytes([0xffu8; 32]);
    let mut ledger = MemoryLedger::new();
    assert_eq!(ledger.deposit(&native(), &bob, &max), Ok(()));
    let app = EthApp::new(address(0x01));
    let bytes = eth_bytes(&bob, &address(0x55), &amount(1));
    assert_eq!(
        app.handle(&mut ledger, &bytes, &VerificationOutput::Empty),
        Err(BridgeError::Ledger(LedgerError::Overflow))
    );
    assert_eq!(ledger.balance_of(&native(), &bob), max);
}

#[test]
fn zero_address_checks() {
    assert!(native().is_zero());
    assert!(!address(1).is_zero());
    assert!(address(3).equals(&address(3)));
    assert!(!address(3).equals(&address(4)));
}

#[test]
fn handle_event_keeps_namespaces() {
    let bob = account(0xb0);
    let token_app = Erc20App::new(address(0x02));
    let eth_app = EthApp::new(address(0x01));
    let mut ledger = MemoryLedger::new();
    let zero_token = erc20_payload::InPayload {
        token_addr: native(),
        sender_addr: address(0x55),
        recipient_addr: bob,
        amount: amount(8),
    };
    assert_eq!(token_app.handle_event(&mut ledger, zero_token), Err(BridgeError::InvalidAssetId));
    let token = erc20_payload::InPayload { token_addr: address(0x33), ..zero_token };
    assert_eq!(token_app.handle_event(&mut ledger, token), Ok(()));
    let coin = eth_payload::InPayload { sender_addr: address(0x56), recipient_addr: bob, amount: amount(9) };
    assert_eq!(eth_app.handle_event(&mut ledger, coin), Ok(()));
    assert_eq!(ledger.balance_of(&address(0x33), &bob), amount(8));
    assert_eq!(ledger.balance_of(&native(), &bob), amount(9));
}
