use multisig_wallet::error::MultisigWalletError;
use multisig_wallet::instruction::{read_key, MultisigWalletInstruction};
use multisig_wallet::processor::{AccountState, Processor, SIGNER_COUNT};
use multisig_wallet::record::{decode_request, decode_wallet, encode_request, encode_wallet};
use multisig_wallet::state::{MultisigWallet, Pubkey, Request};

fn key(b: u8) -> Pubkey {
    Pubkey::new_from_array([b; 32])
}

fn empty_wallet() -> MultisigWallet {
    MultisigWallet { is_initialized: false, m: 0, signers: Vec::new() }
}

fn empty_request() -> Request {
    Request {
        is_initialized: false,
        is_finished: false,
        amount: 0,
        wallet: key(0),
        receiver: key(0),
        approvals: Vec::new(),
    }
}

fn wallet_abc(m: u8) -> MultisigWallet {
    let mut w = empty_wallet();
    Processor::init_wallet(&mut w, m, vec![key(0xA), key(0xB), key(0xC)]).unwrap();
    w
}

fn open_request(w: &MultisigWallet, wallet_key: &Pubkey, amount: u64, receiver: Pubkey) -> Request {
    let mut r = empty_request();
    Processor::create_request(w, wallet_key, &mut r, amount, receiver, true).unwrap();
    r
}

fn account(k: Pubkey, owner: Pubkey, is_signer: bool, lamports: u64, data: Vec<u8>) -> AccountState {
    AccountState { key: k, owner, is_signer, lamports, data }
}

const PROGRAM: u8 = 0x77;
const WALLET: u8 = 0x10;
const REQUEST: u8 = 0x20;

fn blank_wallet_data() -> Vec<u8> {
    vec![0u8; 2 + 32 * SIGNER_COUNT]
}

fn blank_request_data() -> Vec<u8> {
    vec![0u8; 74 + SIGNER_COUNT]
}

fn request_command(amount: u64, receiver: Pubkey) -> Vec<u8> {
    let mut d = vec![1u8];
    d.extend_from_slice(&amount.to_le_bytes());
    d.extend_from_slice(&receiver.to_bytes());
    d
}

#[test]
fn init_twice_fails_and_keeps_first_write() {
    let mut w = empty_wallet();
    assert_eq!(Processor::init_wallet(&mut w, 2, vec![key(1), key(2), key(3)]), Ok(()));
    assert_eq!(
        Processor::init_wallet(&mut w, 1, vec![key(7), key(8), key(9)]),
        Err(MultisigWalletError::AlreadyInitialized)
    );
    assert!(w.is_initialized);
    assert_eq!(w.m, 2);
    assert_eq!(w.signers.len(), 3);
    assert_eq!(w.signers[0].to_bytes(), [1; 32]);
    assert_eq!(w.signers[2].to_bytes(), [3; 32]);
}

#[test]
fn threshold_two_of_three_scenario() {
    let w = wallet_abc(2);
    let wk = key(WALLET);
    let r_key = key(0xEE);
    let mut r = open_request(&w, &wk, 100, r_key);
    let mut from: u64 = 1000;
    let mut to: u64 = 5;

    assert_eq!(Processor::sign(&w, &wk, &mut r, &key(0xA), true, &mut from, &mut to), Ok(false));
    assert!(!r.is_finished);
    assert_eq!(r.approvals, vec![true, false, false]);
    assert_eq!((from, to), (1000, 5));

    assert_eq!(Processor::sign(&w, &wk, &mut r, &key(0xB), true, &mut from, &mut to), Ok(true));
    assert!(r.is_finished);
    assert_eq!(r.approvals, vec![true, true, false]);
    assert_eq!((from, to), (900, 105));

    assert_eq!(
        Processor::sign(&w, &wk, &mut r, &key(0xC), true, &mut from, &mut to),
        Err(MultisigWalletError::RequestAlreadyFulfilled)
    );
    assert_eq!(r.approvals, vec![true, true, false]);
    assert_eq!((from, to), (900, 105));
}

#[test]
fn init_accepts_threshold_zero_and_above_signer_count() {
    let mut w = empty_wallet();
    assert_eq!(Processor::init_wallet(&mut w, 0, vec![key(1), key(2), key(3)]), Ok(()));
    assert_eq!(w.m, 0);
    let mut w2 = empty_wallet();
    assert_eq!(Processor::init_wallet(&mut w2, 5, vec![key(1), key(2), key(3)]), Ok(()));
    assert_eq!(w2.m, 5);
}

#[test]
fn threshold_zero_finishes_on_first_approval() {
    let w = wallet_abc(0);
    let wk = key(WALLET);
    let mut r = open_request(&w, &wk, 10, key(0xEE));
    assert!(!r.is_finished);
    let (mut from, mut to) = (10u64, 0u64);
    assert_eq!(Processor::sign(&w, &wk, &mut r, &key(0xC), true, &mut from, &mut to), Ok(true));
    assert_eq!((from, to), (0, 10));
}

#[test]
fn threshold_above_signer_count_never_finishes() {
    let w = wallet_abc(4);
    let wk = key(WALLET);
    let mut r = open_request(&w, &wk, 10, key(0xEE));
    let (mut from, mut to) = (10u64, 0u64);
    for s in [0xA, 0xB, 0xC] {
        assert_eq!(Processor::sign(&w, &wk, &mut r, &key(s), true, &mut from, &mut to), Ok(false));
    }
    assert!(!r.is_finished);
    assert_eq!(r.approvals, vec![true, true, true]);
    assert_eq!((from, to), (10, 0));
}

#[test]
fn three_of_three_finishes_only_at_third() {
    let w = wallet_abc(3);
    let wk = key(WALLET);
    let mut r = open_request(&w, &wk, 7, key(0xEE));
    let (mut from, mut to) = (7u64, 0u64);
    assert_eq!(Processor::sign(&w, &wk, &mut r, &key(0xC), true, &mut from, &mut to), Ok(false));
    assert_eq!(Processor::sign(&w, &wk, &mut r, &key(0xA), true, &mut from, &mut to), Ok(false));
    assert!(!r.is_finished);
    assert_eq!(Processor::sign(&w, &wk, &mut r, &key(0xB), true, &mut from, &mut to), Ok(true));
    assert!(r.is_finished);
    assert_eq!((from, to), (0, 7));
}

#[test]
fn repeated_approval_by_same_signer_does_not_count_twice() {
    let w = wallet_abc(2);
    let wk = key(WALLET);
    let mut r = open_request(&w, &wk, 1, key(0xEE));
    let (mut from, mut to) = (1u64, 0u64);
    assert_eq!(Processor::sign(&w, &wk, &mut r, &key(0xA), true, &mut from, &mut to), Ok(false));
    assert_eq!(Processor::sign(&w, &wk, &mut r, &key(0xA), true, &mut from, &mut to), Ok(false));
    assert!(!r.is_finished);
    assert_eq!(r.approvals, vec![true, false, false]);
}

#[test]
fn non_signer_rejected_and_approvals_unchanged() {
    let w = wallet_abc(2);
    let wk = key(WALLET);
    let mut r = open_request(&w, &wk, 1, key(0xEE));
    let (mut from, mut to) = (1u64, 0u64);
    Processor::sign(&w, &wk, &mut r, &key(0xB), true, &mut from, &mut to).unwrap();
    assert_eq!(
        Processor::sign(&w, &wk, &mut r, &key(0xD), true, &mut from, &mut to),
        Err(MultisigWalletError::UnauthorizedSigner)
    );
    assert_eq!(r.approvals, vec![false, true, false]);
}

#[test]
fn unauthenticated_signer_rejected() {
    let w = wallet_abc(1);
    let wk = key(WALLET);
    let mut r = open_request(&w, &wk, 1, key(0xEE));
    let (mut from, mut to) = (1u64, 0u64);
    assert_eq!(
        Processor::sign(&w, &wk, &mut r, &key(0xA), false, &mut from, &mut to),
        Err(MultisigWalletError::UnauthorizedSigner)
    );
    assert_eq!(r.approvals, vec![false, false, false]);
    assert!(!r.is_finished);
}

#[test]
fn request_of_other_wallet_rejected() {
    let w = wallet_abc(1);
    let mut r = open_request(&w, &key(WALLET), 1, key(0xEE));
    let (mut from, mut to) = (1u64, 0u64);
    assert_eq!(
        Processor::sign(&w, &key(0x11), &mut r, &key(0xA), true, &mut from, &mut to),
        Err(MultisigWalletError::RequestWalletMismatch)
    );
    assert!(!r.is_finished);
}

#[test]
fn sign_needs_initialized_wallet_and_request() {
    let w = wallet_abc(1);
    let wk = key(WALLET);
    let (mut from, mut to) = (1u64, 0u64);
    let mut r = empty_request();
    r.approvals = vec![false; 3];
    assert_eq!(
        Processor::sign(&w, &wk, &mut r, &key(0xA), true, &mut from, &mut to),
        Err(MultisigWalletError::UninitializedRequest)
    );
    let mut blank = empty_wallet();
    blank.signers = vec![key(0xA), key(0xB), key(0xC)];
    let mut r2 = open_request(&w, &wk, 1, key(0xEE));
    assert_eq!(
        Processor::sign(&blank, &wk, &mut r2, &key(0xA), true, &mut from, &mut to),
        Err(MultisigWalletError::WalletNotInitialized)
    );
}

#[test]
fn transfer_failures_leave_request_pending() {
    let w = wallet_abc(1);
    let wk = key(WALLET);
    let mut r = open_request(&w, &wk, 50, key(0xEE));
    let (mut from, mut to) = (49u64, 0u64);
    assert_eq!(
        Processor::sign(&w, &wk, &mut r, &key(0xA), true, &mut from, &mut to),
        Err(MultisigWalletError::InsufficientFunds)
    );
    assert!(!r.is_finished);
    assert_eq!(r.approvals, vec![false, false, false]);
    let (mut from, mut to) = (50u64, u64::MAX - 49);
    assert_eq!(
        Processor::sign(&w, &wk, &mut r, &key(0xA), true, &mut from, &mut to),
        Err(MultisigWalletError::BalanceOverflow)
    );
    assert_eq!((from, to), (50, u64::MAX - 49));
    assert!(!r.is_finished);
}

#[test]
fn create_request_checks() {
    let w = wallet_abc(2);
    let wk = key(WALLET);
    let mut r = empty_request();
    assert_eq!(
        Processor::create_request(&empty_wallet(), &wk, &mut r, 5, key(9), true),
        Err(MultisigWalletError::WalletNotInitialized)
    );
    assert_eq!(
        Processor::create_request(&w, &wk, &mut r, 5, key(9), false),
        Err(MultisigWalletError::UnauthorizedSigner)
    );
    assert!(!r.is_initialized);
    assert_eq!(Processor::create_request(&w, &wk, &mut r, 5, key(9), true), Ok(()));
    assert!(r.is_initialized && !r.is_finished);
    assert_eq!(r.amount, 5);
    assert_eq!(r.wallet.to_bytes(), [WALLET; 32]);
    assert_eq!(r.receiver.to_bytes(), [9; 32]);
    assert_eq!(r.approvals, vec![false, false, false]);
    assert_eq!(
        Processor::create_request(&w, &wk, &mut r, 6, key(8), true),
        Err(MultisigWalletError::AlreadyInitialized)
    );
    assert_eq!(r.amount, 5);
}

#[test]
fn check_signer_takes_first_matching_slot() {
    let mut w = empty_wallet();
    Processor::init_wallet(&mut w, 2, vec![key(1), key(2), key(1)]).unwrap();
    assert_eq!(Processor::check_signer(&key(1), &w), Some(0));
    assert_eq!(Processor::check_signer(&key(2), &w), Some(1));
    assert_eq!(Processor::check_signer(&key(3), &w), None);
}

#[test]
fn same_as_compares_every_byte() {
    let mut b = [5u8; 32];
    assert!(key(5).same_as(&Pubkey::new_from_array(b)));
    b[31] = 6;
    assert!(!key(5).same_as(&Pubkey::new_from_array(b)));
}

#[test]
fn unpack_commands() {
    match MultisigWalletInstruction::unpack(&[0, 2]) {
        Ok(MultisigWalletInstruction::InitWallet { m }) => assert_eq!(m, 2),
        _ => panic!("expected InitWallet"),
    }
    let data = request_command(0x0102030405060708, key(0xEE));
    match MultisigWalletInstruction::unpack(&data) {
        Ok(MultisigWalletInstruction::Request { amount, to_pub_key }) => {
            assert_eq!(amount, 0x0102030405060708);
            assert_eq!(to_pub_key.to_bytes(), [0xEE; 32]);
        }
        _ => panic!("expected Request"),
    }
    let mut le = vec![1u8, 100, 0, 0, 0, 0, 0, 0, 0];
    le.extend_from_slice(&[3u8; 32]);
    match MultisigWalletInstruction::unpack(&le) {
        Ok(MultisigWalletInstruction::Request { amount, .. }) => assert_eq!(amount, 100),
        _ => panic!("expected Request"),
    }
    assert!(matches!(MultisigWalletInstruction::unpack(&[2]), Ok(MultisigWalletInstruction::Sign)));
}

#[test]
fn unpack_rejects_malformed_commands() {
    let bad: Vec<Vec<u8>> = vec![vec![], vec![0], vec![1, 1, 2, 3], vec![3], vec![9, 9, 9]];
    for d in bad {
        assert!(matches!(
            MultisigWalletInstruction::unpack(&d),
            Err(MultisigWalletError::InvalidInstruction)
        ));
    }
    let mut short = request_command(1, key(1));
    short.pop();
    assert!(matches!(
        MultisigWalletInstruction::unpack(&short),
        Err(MultisigWalletError::InvalidInstruction)
    ));
}

#[test]
fn read_key_reads_at_offset() {
    let mut d = vec![0u8; 40];
    for (i, b) in d.iter_mut().enumerate() {
        *b = i as u8;
    }
    let k = read_key(&d, 4);
    assert_eq!(k.to_bytes()[0], 4);
    assert_eq!(k.to_bytes()[31], 35);
}

#[test]
fn wallet_record_layout_and_round_trip() {
    let w = wallet_abc(2);
    let bytes = encode_wallet(&w);
    assert_eq!(bytes.len(), 98);
    assert_eq!(bytes[0], 1);
    assert_eq!(bytes[1], 2);
    assert_eq!(&bytes[2..34], &[0xA; 32]);
    assert_eq!(&bytes[66..98], &[0xC; 32]);
    let back = decode_wallet(&bytes, 3).unwrap();
    assert!(back.is_initialized);
    assert_eq!(back.m, 2);
    assert_eq!(back.signers[1].to_bytes(), [0xB; 32]);
    assert!(decode_wallet(&bytes, 2).is_none());
    let mut bad = bytes.clone();
    bad[0] = 2;
    assert!(decode_wallet(&bad, 3).is_none());
}

#[test]
fn request_record_layout_and_round_trip() {
    let w = wallet_abc(2);
    let mut r = open_request(&w, &key(WALLET), 0x0A0B, key(0xEE));
    r.approvals[2] = true;
    let bytes = encode_request(&r);
    assert_eq!(bytes.len(), 77);
    assert_eq!(&bytes[0..2], &[1, 0]);
    assert_eq!(&bytes[2..10], &[0x0B, 0x0A, 0, 0, 0, 0, 0, 0]);
    assert_eq!(&bytes[10..42], &[WALLET; 32]);
    assert_eq!(&bytes[42..74], &[0xEE; 32]);
    assert_eq!(&bytes[74..77], &[0, 0, 1]);
    let back = decode_request(&bytes, 3).unwrap();
    assert_eq!(back.amount, 0x0A0B);
    assert_eq!(back.approvals, vec![false, false, true]);
    assert_eq!(back.receiver.to_bytes(), [0xEE; 32]);
    let mut bad = bytes.clone();
    bad[75] = 7;
    assert!(decode_request(&bad, 3).is_none());
    assert!(decode_request(&bytes[..76], 3).is_none());
}

#[test]
fn commands_run_against_accounts() {
    let pid = key(PROGRAM);
    let mut accounts = vec![
        account(key(WALLET), pid, false, 1000, blank_wallet_data()),
        account(key(0xA), key(0), true, 0, vec![]),
        account(key(0xB), key(0), false, 0, vec![]),
        account(key(0xC), key(0), false, 0, vec![]),
    ];
    assert_eq!(Processor::process_instruction(&pid, &mut accounts, &[0, 2]), Ok(()));
    assert_eq!(
        Processor::process_instruction(&pid, &mut accounts, &[0, 1]),
        Err(MultisigWalletError::AlreadyInitialized)
    );
    let wallet_data = accounts[0].data.clone();
    assert_eq!(wallet_data[1], 2);

    let mut accounts = vec![
        account(key(WALLET), pid, false, 1000, wallet_data.clone()),
        account(key(REQUEST), pid, false, 0, blank_request_data()),
        account(key(0x55), key(0), true, 0, vec![]),
    ];
    let cmd = request_command(100, key(0xEE));
    assert_eq!(Processor::process_instruction(&pid, &mut accounts, &cmd), Ok(()));
    let request_data = accounts[1].data.clone();
    assert_eq!(&request_data[0..2], &[1, 0]);

    let mut accounts = vec![
        account(key(WALLET), pid, false, 1000, wallet_data.clone()),
        account(key(REQUEST), pid, false, 0, request_data),
        account(key(0xA), key(0), true, 0, vec![]),
    ];
    assert_eq!(Processor::process_instruction(&pid, &mut accounts, &[2]), Ok(()));
    assert_eq!(&accounts[1].data[74..77], &[1, 0, 0]);
    assert_eq!(accounts[1].data[1], 0);
    let request_data = accounts[1].data.clone();

    let mut accounts = vec![
        account(key(WALLET), pid, false, 1000, wallet_data.clone()),
        account(key(REQUEST), pid, false, 0, request_data.clone()),
        account(key(0xB), key(0), true, 0, vec![]),
    ];
    assert_eq!(
        Processor::process_instruction(&pid, &mut accounts, &[2]),
        Err(MultisigWalletError::NotEnoughAccountKeys)
    );
    accounts.push(account(key(0xEF), key(0), false, 3, vec![]));
    assert_eq!(
        Processor::process_instruction(&pid, &mut accounts, &[2]),
        Err(MultisigWalletError::ReceiverMismatch)
    );
    accounts[3] = account(key(0xEE), key(0), false, 3, vec![]);
    assert_eq!(Processor::process_instruction(&pid, &mut accounts, &[2]), Ok(()));
    assert_eq!(accounts[0].lamports, 900);
    assert_eq!(accounts[3].lamports, 103);
    assert_eq!(accounts[1].data[1], 1);
    assert_eq!(&accounts[1].data[74..77], &[1, 1, 0]);

    accounts[2] = account(key(0xC), key(0), true, 0, vec![]);
    assert_eq!(
        Processor::process_instruction(&pid, &mut accounts, &[2]),
        Err(MultisigWalletError::RequestAlreadyFulfilled)
    );
    assert_eq!(accounts[0].lamports, 900);
    assert_eq!(accounts[3].lamports, 103);
}

#[test]
fn commands_check_storage_accounts() {
    let pid = key(PROGRAM);
    let mut accounts = vec![account(key(WALLET), pid, false, 0, blank_wallet_data())];
    assert_eq!(
        Processor::process_instruction(&pid, &mut accounts, &[0, 2]),
        Err(MultisigWalletError::NotEnoughAccountKeys)
    );
    let mut accounts = vec![
        account(key(WALLET), key(1), false, 0, blank_wallet_data()),
        account(key(0xA), key(0), true, 0, vec![]),
        account(key(0xB), key(0), true, 0, vec![]),
        account(key(0xC), key(0), true, 0, vec![]),
    ];
    assert_eq!(
        Processor::process_instruction(&pid, &mut accounts, &[0, 2]),
        Err(MultisigWalletError::OwnershipMismatch)
    );
    accounts[0] = account(key(WALLET), pid, false, 0, vec![0u8; 10]);
    assert_eq!(
        Processor::process_instruction(&pid, &mut accounts, &[0, 2]),
        Err(MultisigWalletError::InvalidAccountData)
    );
    assert_eq!(accounts[0].data, vec![0u8; 10]);
    assert_eq!(
        Processor::process_instruction(&pid, &mut accounts, &[7]),
        Err(MultisigWalletError::InvalidInstruction)
    );
    let mut accounts = vec![
        account(key(WALLET), pid, false, 0, blank_wallet_data()),
        account(key(REQUEST), pid, false, 0, blank_request_data()),
        account(key(0xA), key(0), true, 0, vec![]),
    ];
    assert_eq!(
        Processor::process_instruction(&pid, &mut accounts, &request_command(1, key(2))),
        Err(MultisigWalletError::WalletNotInitialized)
    );
}

#[test]
fn transfer_to_the_wallet_itself_keeps_its_balance() {
    let pid = key(PROGRAM);
    let w = wallet_abc(1);
    let r = open_request(&w, &key(WALLET), 10, key(WALLET));
    let mut accounts = vec![
        account(key(WALLET), pid, false, 50, encode_wallet(&w)),
        account(key(REQUEST), pid, false, 0, encode_request(&r)),
        account(key(0xA), key(0), true, 0, vec![]),
        account(key(WALLET), pid, false, 50, vec![]),
    ];
    assert_eq!(Processor::process_sign(&pid, &mut accounts), Ok(()));
    assert_eq!(accounts[0].lamports, 50);
    assert_eq!(accounts[1].data[1], 1);
}

#[test]
fn init_checks_wallet_before_signer_accounts() {
    let pid = key(PROGRAM);
    let mut accounts = vec![account(key(WALLET), key(1), false, 0, blank_wallet_data())];
    assert_eq!(
        Processor::process_instruction(&pid, &mut accounts, &[0, 2]),
        Err(MultisigWalletError::OwnershipMismatch)
    );
    let mut accounts = vec![account(key(WALLET), pid, false, 0, encode_wallet(&wallet_abc(2)))];
    assert_eq!(
        Processor::process_instruction(&pid, &mut accounts, &[0, 2]),
        Err(MultisigWalletError::AlreadyInitialized)
    );
    let mut accounts = vec![account(key(WALLET), pid, false, 0, blank_wallet_data())];
    assert_eq!(
        Processor::process_instruction(&pid, &mut accounts, &[0, 2]),
        Err(MultisigWalletError::NotEnoughAccountKeys)
    );
}

#[test]
fn create_request_checks_accounts_in_order() {
    let pid = key(PROGRAM);
    let cmd = request_command(5, key(9));
    let ready = encode_wallet(&wallet_abc(2));
    let mut accounts = vec![account(key(WALLET), key(1), false, 0, ready.clone())];
    assert_eq!(
        Processor::process_instruction(&pid, &mut accounts, &cmd),
        Err(MultisigWalletError::OwnershipMismatch)
    );
    let mut accounts = vec![
        account(key(WALLET), pid, false, 0, blank_wallet_data()),
        account(key(REQUEST), key(1), false, 0, blank_request_data()),
    ];
    assert_eq!(
        Processor::process_instruction(&pid, &mut accounts, &cmd),
        Err(MultisigWalletError::WalletNotInitialized)
    );
    let mut accounts = vec![
        account(key(WALLET), pid, false, 0, ready.clone()),
        account(key(REQUEST), key(1), false, 0, blank_request_data()),
    ];
    assert_eq!(
        Processor::process_instruction(&pid, &mut accounts, &cmd),
        Err(MultisigWalletError::OwnershipMismatch)
    );
    let made = encode_request(&open_request(&wallet_abc(2), &key(WALLET), 1, key(9)));
    let mut accounts = vec![
        account(key(WALLET), pid, false, 0, ready.clone()),
        account(key(REQUEST), pid, false, 0, made),
    ];
    assert_eq!(
        Processor::process_instruction(&pid, &mut accounts, &cmd),
        Err(MultisigWalletError::AlreadyInitialized)
    );
    let mut accounts = vec![
        account(key(WALLET), pid, false, 0, ready.clone()),
        account(key(REQUEST), pid, false, 0, blank_request_data()),
    ];
    assert_eq!(
        Processor::process_instruction(&pid, &mut accounts, &cmd),
        Err(MultisigWalletError::NotEnoughAccountKeys)
    );
    accounts.push(account(key(0x55), key(0), false, 0, vec![]));
    assert_eq!(
        Processor::process_instruction(&pid, &mut accounts, &cmd),
        Err(MultisigWalletError::UnauthorizedSigner)
    );
    assert_eq!(accounts[1].data, blank_request_data());
}

#[test]
fn sign_checks_accounts_in_order() {
    let pid = key(PROGRAM);
    let w = wallet_abc(1);
    let ready = encode_wallet(&w);
    let mut accounts = vec![
        account(key(WALLET), pid, false, 0, blank_wallet_data()),
        account(key(REQUEST), key(1), false, 0, blank_request_data()),
    ];
    assert_eq!(
        Processor::process_instruction(&pid, &mut accounts, &[2]),
        Err(MultisigWalletError::WalletNotInitialized)
    );
    let mut finished = open_request(&w, &key(WALLET), 1, key(9));
    finished.is_finished = true;
    let mut accounts = vec![
        account(key(WALLET), pid, false, 0, ready.clone()),
        account(key(REQUEST), pid, false, 0, encode_request(&finished)),
    ];
    assert_eq!(
        Processor::process_instruction(&pid, &mut accounts, &[2]),
        Err(MultisigWalletError::RequestAlreadyFulfilled)
    );
    let pending = encode_request(&open_request(&w, &key(WALLET), 100, key(9)));
    let mut accounts = vec![
        account(key(WALLET), pid, false, 0, ready.clone()),
        account(key(REQUEST), pid, false, 0, pending.clone()),
    ];
    assert_eq!(
        Processor::process_instruction(&pid, &mut accounts, &[2]),
        Err(MultisigWalletError::NotEnoughAccountKeys)
    );
    accounts.push(account(key(0xA), key(0), true, 0, vec![]));
    assert_eq!(
        Processor::process_instruction(&pid, &mut accounts, &[2]),
        Err(MultisigWalletError::NotEnoughAccountKeys)
    );
    accounts.push(account(key(8), key(0), false, 0, vec![]));
    assert_eq!(
        Processor::process_instruction(&pid, &mut accounts, &[2]),
        Err(MultisigWalletError::ReceiverMismatch)
    );
    accounts[3] = account(key(9), key(0), false, 0, vec![]);
    assert_eq!(
        Processor::process_instruction(&pid, &mut accounts, &[2]),
        Err(MultisigWalletError::InsufficientFunds)
    );
    assert_eq!(accounts[1].data, pending);
    accounts[0].lamports = 100;
    assert_eq!(Processor::process_instruction(&pid, &mut accounts, &[2]), Ok(()));
    assert_eq!((accounts[0].lamports, accounts[3].lamports), (0, 100));
}
