use vstd::bytes::spec_u64_from_le_bytes;
use vstd::prelude::*;

use crate::error::MultisigWalletError;
use crate::instruction::{
    is_command, MultisigWalletInstruction, TAG_INIT_WALLET, TAG_REQUEST, TAG_SIGN,
};
use crate::record::{
    decode_request, decode_wallet, encode_request, encode_wallet, is_request_record,
    is_wallet_record, request_of_record, wallet_of_record,
};
use crate::state::{
    approval_count, keys_view, lemma_count_bound, lemma_count_update,
    request_well_formed, MultisigWallet, Pubkey, Request, RequestModel, WalletModel, KEY_LEN,
};

verus! {

/// The first slot, at or after `i`, whose signer is `key`.
pub open spec fn slot_from(signers: Seq<Seq<u8>>, key: Seq<u8>, i: int) -> Option<int>
    decreases signers.len() - i,
{
    if i < 0 || i >= signers.len() {
        None
    } else if signers[i] == key {
        Some(i)
    } else {
        slot_from(signers, key, i + 1)
    }
}

/// The first slot whose signer is `key`, if any.
pub open spec fn signer_slot(signers: Seq<Seq<u8>>, key: Seq<u8>) -> Option<int> {
    slot_from(signers, key, 0)
}

/// Outcome of initializing wallet `w` with threshold `m` and `signers`.
pub open spec fn init_step(w: WalletModel, m: u8, signers: Seq<Seq<u8>>) -> Result<
    WalletModel,
    MultisigWalletError,
> {
    if w.initialized {
        Err(MultisigWalletError::AlreadyInitialized)
    } else {
        Ok(WalletModel { initialized: true, threshold: m, signers })
    }
}

/// Outcome of creating request `r` against wallet `w`, stored under
/// `wallet_key`, by a requester that is `authenticated` or not.
pub open spec fn create_step(
    w: WalletModel,
    wallet_key: Seq<u8>,
    r: RequestModel,
    amount: u64,
    receiver: Seq<u8>,
    authenticated: bool,
) -> Result<RequestModel, MultisigWalletError> {
    if !w.initialized {
        Err(MultisigWalletError::WalletNotInitialized)
    } else if r.initialized {
        Err(MultisigWalletError::AlreadyInitialized)
    } else if !authenticated {
        Err(MultisigWalletError::UnauthorizedSigner)
    } else {
        Ok(
            RequestModel {
                initialized: true,
                finished: false,
                amount,
                wallet: wallet_key,
                receiver,
                approvals: Seq::new(w.signers.len(), |i: int| false),
            },
        )
    }
}

/// The error, if any, of an approval of `r` by `signer`, checked in order.
pub open spec fn sign_error(
    w: WalletModel,
    wallet_key: Seq<u8>,
    r: RequestModel,
    signer: Seq<u8>,
    authenticated: bool,
) -> Option<MultisigWalletError> {
    if !w.initialized {
        Some(MultisigWalletError::WalletNotInitialized)
    } else if !r.initialized {
        Some(MultisigWalletError::UninitializedRequest)
    } else if r.finished {
        Some(MultisigWalletError::RequestAlreadyFulfilled)
    } else if r.wallet != wallet_key {
        Some(MultisigWalletError::RequestWalletMismatch)
    } else if !authenticated || signer_slot(w.signers, signer) is None {
        Some(MultisigWalletError::UnauthorizedSigner)
    } else {
        None
    }
}

/// Outcome of an approval of `r` by `signer`: the request after it. The
/// request is finished exactly when this approval brings the count of
/// approvals to the threshold.
pub open spec fn sign_step(
    w: WalletModel,
    wallet_key: Seq<u8>,
    r: RequestModel,
    signer: Seq<u8>,
    authenticated: bool,
) -> Result<RequestModel, MultisigWalletError> {
    match sign_error(w, wallet_key, r, signer, authenticated) {
        Some(e) => Err(e),
        None => {
            let approvals = r.approvals.update(signer_slot(w.signers, signer)->0, true);
            Ok(
                RequestModel {
                    approvals,
                    finished: approval_count(approvals) >= w.threshold,
                    ..r
                },
            )
        },
    }
}

/// Outcome of moving `amount` from a balance of `from` to a balance of `to`.
pub open spec fn transfer_step(from: u64, to: u64, amount: u64) -> Result<
    (u64, u64),
    MultisigWalletError,
> {
    if from < amount {
        Err(MultisigWalletError::InsufficientFunds)
    } else if to + amount > u64::MAX {
        Err(MultisigWalletError::BalanceOverflow)
    } else {
        Ok(((from - amount) as u64, (to + amount) as u64))
    }
}

/// Outcome of an approval that also carries out the transfer when it is due:
/// the request after it, the two balances after it, and whether the transfer
/// ran. Balances of the wallet (`from`) and of the receiver (`to`) change
/// only when the transfer runs.
pub open spec fn sign_outcome(
    w: WalletModel,
    wallet_key: Seq<u8>,
    r: RequestModel,
    signer: Seq<u8>,
    authenticated: bool,
    from: u64,
    to: u64,
) -> Result<(RequestModel, u64, u64, bool), MultisigWalletError> {
    match sign_step(w, wallet_key, r, signer, authenticated) {
        Err(e) => Err(e),
        Ok(next) => if !next.finished {
            Ok((next, from, to, false))
        } else {
            match transfer_step(from, to, r.amount) {
                Err(e) => Err(e),
                Ok((f, t)) => Ok((next, f, t, true)),
            }
        },
    }
}

/// Number of signer slots of a wallet stored by this program.
pub const SIGNER_COUNT: usize = 3;

/// What the program is handed of one account that a command references:
/// its key, the program that owns it, whether it has authenticated the
/// command, its balance and its stored bytes.
pub struct AccountState {
    pub key: Pubkey,
    pub owner: Pubkey,
    pub is_signer: bool,
    pub lamports: u64,
    pub data: Vec<u8>,
}

/// `new` is `old` with at most the data of account `i` changed.
pub open spec fn only_data_changed(old: Seq<AccountState>, new: Seq<AccountState>, i: int) -> bool {
    &&& new.len() == old.len()
    &&& forall|j: int| 0 <= j < old.len() && j != i ==> #[trigger] new[j] == old[j]
    &&& new[i].key == old[i].key
    &&& new[i].owner == old[i].owner
    &&& new[i].is_signer == old[i].is_signer
    &&& new[i].lamports == old[i].lamports
}

/// Outcome of the command that initializes a wallet: the accounts are the
/// wallet's storage, then one per signer slot. Each account is checked when
/// the command reaches it: the wallet's owner, record and initialized flag
/// come before the signer accounts are read.
pub open spec fn init_wallet_outcome(program_id: Seq<u8>, m: u8, a: Seq<AccountState>) -> Result<
    WalletModel,
    MultisigWalletError,
> {
    if a.len() < 1 {
        Err(MultisigWalletError::NotEnoughAccountKeys)
    } else if a[0].owner@ != program_id {
        Err(MultisigWalletError::OwnershipMismatch)
    } else if !is_wallet_record(a[0].data@, SIGNER_COUNT as nat) {
        Err(MultisigWalletError::InvalidAccountData)
    } else if wallet_of_record(a[0].data@, SIGNER_COUNT as nat).initialized {
        Err(MultisigWalletError::AlreadyInitialized)
    } else if a.len() < 1 + SIGNER_COUNT {
        Err(MultisigWalletError::NotEnoughAccountKeys)
    } else {
        init_step(
            wallet_of_record(a[0].data@, SIGNER_COUNT as nat),
            m,
            Seq::new(SIGNER_COUNT as nat, |i: int| a[1 + i].key@),
        )
    }
}

/// The failure, if any, of reading the wallet that heads `a`: its owner,
/// its record, then its initialized flag.
pub open spec fn wallet_error(program_id: Seq<u8>, a: Seq<AccountState>) -> Option<
    MultisigWalletError,
> {
    if a.len() < 1 {
        Some(MultisigWalletError::NotEnoughAccountKeys)
    } else if a[0].owner@ != program_id {
        Some(MultisigWalletError::OwnershipMismatch)
    } else if !is_wallet_record(a[0].data@, SIGNER_COUNT as nat) {
        Some(MultisigWalletError::InvalidAccountData)
    } else if !wallet_of_record(a[0].data@, SIGNER_COUNT as nat).initialized {
        Some(MultisigWalletError::WalletNotInitialized)
    } else {
        None
    }
}

/// The failure, if any, of reading the request storage, second in `a`: its
/// presence, its owner, then its record.
pub open spec fn request_storage_error(program_id: Seq<u8>, a: Seq<AccountState>) -> Option<
    MultisigWalletError,
> {
    if a.len() < 2 {
        Some(MultisigWalletError::NotEnoughAccountKeys)
    } else if a[1].owner@ != program_id {
        Some(MultisigWalletError::OwnershipMismatch)
    } else if !is_request_record(a[1].data@, SIGNER_COUNT as nat) {
        Some(MultisigWalletError::InvalidAccountData)
    } else {
        None
    }
}

/// Outcome of the command that creates a request: the accounts are the
/// wallet's storage, the request's storage and the requester, each checked
/// when the command reaches it.
pub open spec fn create_request_outcome(
    program_id: Seq<u8>,
    amount: u64,
    receiver: Seq<u8>,
    a: Seq<AccountState>,
) -> Result<RequestModel, MultisigWalletError> {
    if let Some(e) = wallet_error(program_id, a) {
        Err(e)
    } else if let Some(e) = request_storage_error(program_id, a) {
        Err(e)
    } else if request_of_record(a[1].data@, SIGNER_COUNT as nat).initialized {
        Err(MultisigWalletError::AlreadyInitialized)
    } else if a.len() < 3 {
        Err(MultisigWalletError::NotEnoughAccountKeys)
    } else {
        create_step(
            wallet_of_record(a[0].data@, SIGNER_COUNT as nat),
            a[0].key@,
            request_of_record(a[1].data@, SIGNER_COUNT as nat),
            amount,
            receiver,
            a[2].is_signer,
        )
    }
}

/// Outcome of the command that approves a request: the accounts are the
/// wallet's storage, the request's storage, the signer and, read only when
/// the transfer is due, the receiver. Each is checked when the command
/// reaches it, and the receiver before the transfer. Gives the request
/// after it, the balances of the wallet and of the receiver after it, and
/// whether the transfer ran.
pub open spec fn sign_accounts_outcome(program_id: Seq<u8>, a: Seq<AccountState>) -> Result<
    (RequestModel, u64, u64, bool),
    MultisigWalletError,
> {
    let w = wallet_of_record(a[0].data@, SIGNER_COUNT as nat);
    let r = request_of_record(a[1].data@, SIGNER_COUNT as nat);
    if let Some(e) = wallet_error(program_id, a) {
        Err(e)
    } else if let Some(e) = request_storage_error(program_id, a) {
        Err(e)
    } else if !r.initialized {
        Err(MultisigWalletError::UninitializedRequest)
    } else if r.finished {
        Err(MultisigWalletError::RequestAlreadyFulfilled)
    } else if r.wallet != a[0].key@ {
        Err(MultisigWalletError::RequestWalletMismatch)
    } else if a.len() < 3 {
        Err(MultisigWalletError::NotEnoughAccountKeys)
    } else {
        match sign_step(w, a[0].key@, r, a[2].key@, a[2].is_signer) {
            Err(e) => Err(e),
            Ok(next) => if !next.finished {
                Ok((next, a[0].lamports, 0, false))
            } else if a.len() < 4 {
                Err(MultisigWalletError::NotEnoughAccountKeys)
            } else if a[3].key@ != next.receiver {
                Err(MultisigWalletError::ReceiverMismatch)
            } else {
                match transfer_step(a[0].lamports, a[3].lamports, r.amount) {
                    Err(e) => Err(e),
                    Ok((from, to)) => Ok((next, from, to, true)),
                }
            },
        }
    }
}

/// The accounts `new` after a successful initialization of a wallet from
/// `old`: only the wallet's record changed, to that of the new wallet.
pub open spec fn init_wallet_effect(
    program_id: Seq<u8>,
    m: u8,
    old: Seq<AccountState>,
    new: Seq<AccountState>,
) -> bool {
    &&& init_wallet_outcome(program_id, m, old) matches Ok(w)
    &&& only_data_changed(old, new, 0)
    &&& is_wallet_record(new[0].data@, SIGNER_COUNT as nat)
    &&& wallet_of_record(new[0].data@, SIGNER_COUNT as nat) == init_wallet_outcome(program_id, m, old)->Ok_0
}

/// The accounts `new` after a successful creation of a request from `old`:
/// only the request's record changed, to that of the new request.
pub open spec fn create_request_effect(
    program_id: Seq<u8>,
    amount: u64,
    receiver: Seq<u8>,
    old: Seq<AccountState>,
    new: Seq<AccountState>,
) -> bool {
    &&& create_request_outcome(program_id, amount, receiver, old) is Ok
    &&& only_data_changed(old, new, 1)
    &&& is_request_record(new[1].data@, SIGNER_COUNT as nat)
    &&& request_of_record(new[1].data@, SIGNER_COUNT as nat) == create_request_outcome(
        program_id,
        amount,
        receiver,
        old,
    )->Ok_0
}

/// The accounts `new` after a successful approval from `old`: the request's
/// record holds the request after it; when the transfer ran to a receiver
/// other than the wallet, the two balances moved and nothing else changed;
/// otherwise only the request's record changed.
pub open spec fn sign_effect(program_id: Seq<u8>, old: Seq<AccountState>, new: Seq<AccountState>) -> bool {
    &&& sign_accounts_outcome(program_id, old) matches Ok((q, from, to, done))
    &&& new.len() == old.len()
    &&& is_request_record(new[1].data@, SIGNER_COUNT as nat)
    &&& request_of_record(new[1].data@, SIGNER_COUNT as nat) == q
    &&& if done && old[3].key@ != old[0].key@ {
        &&& new[0].lamports == from
        &&& new[3].lamports == to
        &&& new[0].key == old[0].key && new[0].owner == old[0].owner
        &&& new[0].is_signer == old[0].is_signer && new[0].data == old[0].data
        &&& new[3].key == old[3].key && new[3].owner == old[3].owner
        &&& new[3].is_signer == old[3].is_signer && new[3].data == old[3].data
        &&& new[1].key == old[1].key && new[1].owner == old[1].owner
        &&& new[1].is_signer == old[1].is_signer && new[1].lamports == old[1].lamports
        &&& forall|j: int|
            0 <= j < old.len() && j != 0 && j != 1 && j != 3 ==> #[trigger] new[j] == old[j]
    } else {
        only_data_changed(old, new, 1)
    }
}

/// The slot found from `i` on holds `key` and no earlier slot from `i` on
/// does; none is found exactly when no slot from `i` on holds `key`.
pub proof fn lemma_slot_from(signers: Seq<Seq<u8>>, key: Seq<u8>, i: int)
    requires
        0 <= i,
    ensures
        slot_from(signers, key, i) matches Some(j) ==> i <= j < signers.len() && signers[j]
            == key && forall|t: int| i <= t < j ==> signers[t] != key,
        slot_from(signers, key, i) is None <==> forall|t: int|
            i <= t < signers.len() ==> signers[t] != key,
    decreases signers.len() - i,
{
    if i < signers.len() {
        lemma_slot_from(signers, key, i + 1);
    }
}

/// The processor of the wallet's commands.
pub struct Processor;

impl Processor {
    /// The first slot of `wallet` whose signer is `signer`, if any.
    pub fn check_signer(signer: &Pubkey, multisig_wallet: &MultisigWallet) -> (r: Option<usize>)
        ensures
            r matches Some(i) ==> signer_slot(multisig_wallet@.signers, signer@) == Some(i as int),
            r is None <==> signer_slot(multisig_wallet@.signers, signer@) is None,
    {
        let ghost keys = multisig_wallet@.signers;
        let mut i: usize = 0;
        while i < multisig_wallet.signers.len()
            invariant
                0 <= i <= multisig_wallet.signers.len(),
                keys == keys_view(multisig_wallet.signers@),
                signer_slot(keys, signer@) == slot_from(keys, signer@, i as int),
            decreases multisig_wallet.signers.len() - i,
        {
            if multisig_wallet.signers[i].same_as(signer) {
                return Some(i);
            }
            i = i + 1;
        }
        None
    }

    /// Initializes `multisig_wallet` with threshold `m` and `signers`; fails,
    /// changing nothing, if it is already initialized. The threshold is stored
    /// as given, without a bound check against the number of signers.
    pub fn init_wallet(multisig_wallet: &mut MultisigWallet, m: u8, signers: Vec<Pubkey>) -> (r:
        Result<(), MultisigWalletError>)
        ensures
            r matches Ok(_) ==> init_step(old(multisig_wallet)@, m, keys_view(signers@)) == Ok::<
                WalletModel,
                MultisigWalletError,
            >(final(multisig_wallet)@),
            r matches Err(e) ==> init_step(old(multisig_wallet)@, m, keys_view(signers@)) == Err::<
                WalletModel,
                MultisigWalletError,
            >(e) && *final(multisig_wallet) == *old(multisig_wallet),
            r is Ok <==> init_step(old(multisig_wallet)@, m, keys_view(signers@)) is Ok,
    {
        if multisig_wallet.is_initialized {
            return Err(MultisigWalletError::AlreadyInitialized);
        }
        multisig_wallet.signers = signers;
        multisig_wallet.m = m;
        multisig_wallet.is_initialized = true;
        Ok(())
    }

    /// Creates `request` for `amount` to `receiver` against `multisig_wallet`,
    /// stored under `wallet_key`, with every approval clear. The requester
    /// need only be authenticated, not a signer of the wallet.
    pub fn create_request(
        multisig_wallet: &MultisigWallet,
        wallet_key: &Pubkey,
        request: &mut Request,
        amount: u64,
        receiver: Pubkey,
        requester_authenticated: bool,
    ) -> (r: Result<(), MultisigWalletError>)
        ensures
            r matches Ok(_) ==> create_step(
                multisig_wallet@,
                wallet_key@,
                old(request)@,
                amount,
                receiver@,
                requester_authenticated,
            ) == Ok::<RequestModel, MultisigWalletError>(final(request)@),
            r matches Err(e) ==> create_step(
                multisig_wallet@,
                wallet_key@,
                old(request)@,
                amount,
                receiver@,
                requester_authenticated,
            ) == Err::<RequestModel, MultisigWalletError>(e) && *final(request) == *old(request),
            r is Ok <==> create_step(
                multisig_wallet@,
                wallet_key@,
                old(request)@,
                amount,
                receiver@,
                requester_authenticated,
            ) is Ok,
            r is Ok ==> request_well_formed(final(request)@, multisig_wallet.signers.len() as nat),
    {
        if !multisig_wallet.is_initialized {
            return Err(MultisigWalletError::WalletNotInitialized);
        }
        if request.is_initialized {
            return Err(MultisigWalletError::AlreadyInitialized);
        }
        if !requester_authenticated {
            return Err(MultisigWalletError::UnauthorizedSigner);
        }
        let n = multisig_wallet.signers.len();
        let mut approvals: Vec<bool> = Vec::new();
        let mut i: usize = 0;
        while i < n
            invariant
                0 <= i <= n,
                approvals@ =~= Seq::new(i as nat, |j: int| false),
            decreases n - i,
        {
            approvals.push(false);
            i = i + 1;
        }
        request.is_initialized = true;
        request.is_finished = false;
        request.amount = amount;
        request.wallet = *wallet_key;
        request.receiver = receiver;
        request.approvals = approvals;
        proof {
            assert(multisig_wallet@.signers.len() == n);
            assert(final(request)@.approvals =~= Seq::new(n as nat, |j: int| false));
        }
        Ok(())
    }

    /// Number of approvals set in `approvals`.
    fn count_approvals(approvals: &Vec<bool>) -> (c: usize)
        ensures
            c == approval_count(approvals@),
    {
        let mut c: usize = 0;
        let mut i: usize = 0;
        while i < approvals.len()
            invariant
                0 <= i <= approvals.len(),
                c == approval_count(approvals@.subrange(0, i as int)),
                c <= i,
            decreases approvals.len() - i,
        {
            assert(approvals@.subrange(0, i + 1).drop_last() =~= approvals@.subrange(0, i as int));
            if approvals[i] {
                c = c + 1;
            }
            i = i + 1;
        }
        assert(approvals@.subrange(0, approvals.len() as int) =~= approvals@);
        c
    }

    /// Checks an approval of `request` by `signer` without making it:
    /// fails as the approval would, else tells whether it brings the
    /// approvals to the wallet's threshold, so that the transfer is due.
    pub fn approval_due(
        multisig_wallet: &MultisigWallet,
        wallet_key: &Pubkey,
        request: &Request,
        signer: &Pubkey,
        signer_authenticated: bool,
    ) -> (r: Result<bool, MultisigWalletError>)
        requires
            request.approvals.len() == multisig_wallet.signers.len(),
        ensures
            r matches Ok(due) ==> sign_step(
                multisig_wallet@,
                wallet_key@,
                request@,
                signer@,
                signer_authenticated,
            ) matches Ok(next) && next.finished == due,
            r matches Err(e) ==> sign_step(
                multisig_wallet@,
                wallet_key@,
                request@,
                signer@,
                signer_authenticated,
            ) == Err::<RequestModel, MultisigWalletError>(e),
    {
        if !multisig_wallet.is_initialized {
            return Err(MultisigWalletError::WalletNotInitialized);
        }
        if !request.is_initialized {
            return Err(MultisigWalletError::UninitializedRequest);
        }
        if request.is_finished {
            return Err(MultisigWalletError::RequestAlreadyFulfilled);
        }
        if !request.wallet.same_as(wallet_key) {
            return Err(MultisigWalletError::RequestWalletMismatch);
        }
        if !signer_authenticated {
            return Err(MultisigWalletError::UnauthorizedSigner);
        }
        let slot = match Self::check_signer(signer, multisig_wallet) {
            None => {
                return Err(MultisigWalletError::UnauthorizedSigner);
            },
            Some(i) => i,
        };
        proof {
            lemma_slot_from(multisig_wallet@.signers, signer@, 0);
            lemma_count_update(request.approvals@, slot as int);
            lemma_count_bound(request.approvals@.update(slot as int, true));
        }
        let before = Self::count_approvals(&request.approvals);
        let count = if request.approvals[slot] {
            before
        } else {
            before + 1
        };
        Ok(count >= multisig_wallet.m as usize)
    }

    /// Approves `request` by `signer`. When the approvals reach the wallet's
    /// threshold, moves the request's amount from `wallet_lamports` to
    /// `receiver_lamports` and finishes the request, in the same step.
    /// Returns whether the transfer ran. On failure nothing changes.
    pub fn sign(
        multisig_wallet: &MultisigWallet,
        wallet_key: &Pubkey,
        request: &mut Request,
        signer: &Pubkey,
        signer_authenticated: bool,
        wallet_lamports: &mut u64,
        receiver_lamports: &mut u64,
    ) -> (r: Result<bool, MultisigWalletError>)
        requires
            old(request).approvals.len() == multisig_wallet.signers.len(),
        ensures
            r matches Ok(done) ==> sign_outcome(
                multisig_wallet@,
                wallet_key@,
                old(request)@,
                signer@,
                signer_authenticated,
                *old(wallet_lamports),
                *old(receiver_lamports),
            ) == Ok::<(RequestModel, u64, u64, bool), MultisigWalletError>(
                (final(request)@, *final(wallet_lamports), *final(receiver_lamports), done),
            ),
            r matches Err(e) ==> sign_outcome(
                multisig_wallet@,
                wallet_key@,
                old(request)@,
                signer@,
                signer_authenticated,
                *old(wallet_lamports),
                *old(receiver_lamports),
            ) == Err::<(RequestModel, u64, u64, bool), MultisigWalletError>(e) && *final(request)
                == *old(request) && *final(wallet_lamports) == *old(wallet_lamports)
                && *final(receiver_lamports) == *old(receiver_lamports),
            final(request).approvals.len() == old(request).approvals.len(),
            request_well_formed(old(request)@, multisig_wallet.signers.len() as nat)
                ==> request_well_formed(final(request)@, multisig_wallet.signers.len() as nat),
    {
        let due = Self::approval_due(
            multisig_wallet,
            wallet_key,
            request,
            signer,
            signer_authenticated,
        )?;
        let slot = match Self::check_signer(signer, multisig_wallet) {
            None => {
                proof {
                    assert(false);
                }
                return Err(MultisigWalletError::UnauthorizedSigner);
            },
            Some(i) => i,
        };
        proof {
            lemma_slot_from(multisig_wallet@.signers, signer@, 0);
        }
        if due {
            if *wallet_lamports < request.amount {
                return Err(MultisigWalletError::InsufficientFunds);
            }
            if *receiver_lamports > u64::MAX - request.amount {
                return Err(MultisigWalletError::BalanceOverflow);
            }
            *wallet_lamports = *wallet_lamports - request.amount;
            *receiver_lamports = *receiver_lamports + request.amount;
        }
        request.approvals.set(slot, true);
        request.is_finished = due;
        Ok(due)
    }

    /// Runs the command that initializes a wallet, writing the wallet's
    /// record on success. On failure no account changes.
    pub fn process_init_wallet(program_id: &Pubkey, m: u8, accounts: &mut Vec<AccountState>) -> (r:
        Result<(), MultisigWalletError>)
        ensures
            r is Ok ==> init_wallet_effect(program_id@, m, old(accounts)@, final(accounts)@),
            r matches Err(e) ==> init_wallet_outcome(program_id@, m, old(accounts)@) == Err::<
                WalletModel,
                MultisigWalletError,
            >(e) && final(accounts)@ == old(accounts)@,
    {
        if accounts.len() < 1 {
            return Err(MultisigWalletError::NotEnoughAccountKeys);
        }
        if !accounts[0].owner.same_as(program_id) {
            return Err(MultisigWalletError::OwnershipMismatch);
        }
        let mut wallet = match decode_wallet(accounts[0].data.as_slice(), SIGNER_COUNT) {
            None => {
                return Err(MultisigWalletError::InvalidAccountData);
            },
            Some(w) => w,
        };
        if wallet.is_initialized {
            return Err(MultisigWalletError::AlreadyInitialized);
        }
        if accounts.len() < 1 + SIGNER_COUNT {
            return Err(MultisigWalletError::NotEnoughAccountKeys);
        }
        let mut signers: Vec<Pubkey> = Vec::new();
        let mut i: usize = 0;
        while i < SIGNER_COUNT
            invariant
                0 <= i <= SIGNER_COUNT,
                accounts.len() >= 1 + SIGNER_COUNT,
                signers.len() == i,
                forall|t: int| 0 <= t < i ==> (#[trigger] signers@[t])@ == accounts@[1 + t].key@,
            decreases SIGNER_COUNT - i,
        {
            signers.push(accounts[1 + i].key);
            i = i + 1;
        }
        assert(keys_view(signers@) =~= Seq::new(SIGNER_COUNT as nat, |t: int| accounts@[1 + t].key@));
        Self::init_wallet(&mut wallet, m, signers)?;
        accounts[0].data = encode_wallet(&wallet);
        Ok(())
    }

    /// Runs the command that creates a request, writing the request's
    /// record on success. On failure no account changes.
    pub fn process_create_request(
        program_id: &Pubkey,
        amount: u64,
        receiver: Pubkey,
        accounts: &mut Vec<AccountState>,
    ) -> (r: Result<(), MultisigWalletError>)
        ensures
            r is Ok ==> create_request_effect(
                program_id@,
                amount,
                receiver@,
                old(accounts)@,
                final(accounts)@,
            ),
            r matches Err(e) ==> create_request_outcome(program_id@, amount, receiver@, old(accounts)@)
                == Err::<RequestModel, MultisigWalletError>(e) && final(accounts)@ == old(accounts)@,
    {
        if accounts.len() < 1 {
            return Err(MultisigWalletError::NotEnoughAccountKeys);
        }
        if !accounts[0].owner.same_as(program_id) {
            return Err(MultisigWalletError::OwnershipMismatch);
        }
        let wallet = match decode_wallet(accounts[0].data.as_slice(), SIGNER_COUNT) {
            None => {
                return Err(MultisigWalletError::InvalidAccountData);
            },
            Some(w) => w,
        };
        if !wallet.is_initialized {
            return Err(MultisigWalletError::WalletNotInitialized);
        }
        if accounts.len() < 2 {
            return Err(MultisigWalletError::NotEnoughAccountKeys);
        }
        if !accounts[1].owner.same_as(program_id) {
            return Err(MultisigWalletError::OwnershipMismatch);
        }
        let mut request = match decode_request(accounts[1].data.as_slice(), SIGNER_COUNT) {
            None => {
                return Err(MultisigWalletError::InvalidAccountData);
            },
            Some(q) => q,
        };
        let wallet_key = accounts[0].key;
        if request.is_initialized {
            return Err(MultisigWalletError::AlreadyInitialized);
        }
        if accounts.len() < 3 {
            return Err(MultisigWalletError::NotEnoughAccountKeys);
        }
        Self::create_request(
            &wallet,
            &wallet_key,
            &mut request,
            amount,
            receiver,
            accounts[2].is_signer,
        )?;
        accounts[1].data = encode_request(&request);
        Ok(())
    }

    /// Runs the command that approves a request: writes the request's
    /// record and, when the transfer runs, the two balances. On failure no
    /// account changes. When the receiver is the wallet itself, its balance
    /// stays as it was.
    pub fn process_sign(program_id: &Pubkey, accounts: &mut Vec<AccountState>) -> (r: Result<
        (),
        MultisigWalletError,
    >)
        ensures
            r is Ok ==> sign_effect(program_id@, old(accounts)@, final(accounts)@),
            r matches Err(e) ==> sign_accounts_outcome(program_id@, old(accounts)@) == Err::<
                (RequestModel, u64, u64, bool),
                MultisigWalletError,
            >(e) && final(accounts)@ == old(accounts)@,
    {
        if accounts.len() < 1 {
            return Err(MultisigWalletError::NotEnoughAccountKeys);
        }
        if !accounts[0].owner.same_as(program_id) {
            return Err(MultisigWalletError::OwnershipMismatch);
        }
        let wallet = match decode_wallet(accounts[0].data.as_slice(), SIGNER_COUNT) {
            None => {
                return Err(MultisigWalletError::InvalidAccountData);
            },
            Some(w) => w,
        };
        if !wallet.is_initialized {
            return Err(MultisigWalletError::WalletNotInitialized);
        }
        if accounts.len() < 2 {
            return Err(MultisigWalletError::NotEnoughAccountKeys);
        }
        if !accounts[1].owner.same_as(program_id) {
            return Err(MultisigWalletError::OwnershipMismatch);
        }
        let mut request = match decode_request(accounts[1].data.as_slice(), SIGNER_COUNT) {
            None => {
                return Err(MultisigWalletError::InvalidAccountData);
            },
            Some(q) => q,
        };
        let wallet_key = accounts[0].key;
        if !request.is_initialized {
            return Err(MultisigWalletError::UninitializedRequest);
        }
        if request.is_finished {
            return Err(MultisigWalletError::RequestAlreadyFulfilled);
        }
        if !request.wallet.same_as(&wallet_key) {
            return Err(MultisigWalletError::RequestWalletMismatch);
        }
        if accounts.len() < 3 {
            return Err(MultisigWalletError::NotEnoughAccountKeys);
        }
        let signer = accounts[2].key;
        let due = Self::approval_due(&wallet, &wallet_key, &request, &signer, accounts[2].is_signer)?;
        let mut from = accounts[0].lamports;
        let mut to: u64 = 0;
        if due {
            if accounts.len() < 4 {
                return Err(MultisigWalletError::NotEnoughAccountKeys);
            }
            if !accounts[3].key.same_as(&request.receiver) {
                return Err(MultisigWalletError::ReceiverMismatch);
            }
            to = accounts[3].lamports;
        }
        let done = Self::sign(
            &wallet,
            &wallet_key,
            &mut request,
            &signer,
            accounts[2].is_signer,
            &mut from,
            &mut to,
        )?;
        if done && !accounts[3].key.same_as(&wallet_key) {
            accounts[0].lamports = from;
            accounts[3].lamports = to;
        }
        accounts[1].data = encode_request(&request);
        Ok(())
    }

    /// Decodes `instruction_data` and runs the command it holds against
    /// `accounts`. On failure no account changes.
    pub fn process_instruction(
        program_id: &Pubkey,
        accounts: &mut Vec<AccountState>,
        instruction_data: &[u8],
    ) -> (r: Result<(), MultisigWalletError>)
        ensures
            !is_command(instruction_data@) ==> r == Err::<(), MultisigWalletError>(
                MultisigWalletError::InvalidInstruction,
            ),
            r is Err ==> final(accounts)@ == old(accounts)@,
            is_command(instruction_data@) && instruction_data@[0] == TAG_INIT_WALLET ==> (r
                is Ok <==> init_wallet_outcome(program_id@, instruction_data@[1], old(accounts)@)
                is Ok) && (r is Ok ==> init_wallet_effect(
                program_id@,
                instruction_data@[1],
                old(accounts)@,
                final(accounts)@,
            )) && (r matches Err(e) ==> init_wallet_outcome(
                program_id@,
                instruction_data@[1],
                old(accounts)@,
            ) == Err::<WalletModel, MultisigWalletError>(e)),
            is_command(instruction_data@) && instruction_data@[0] == TAG_REQUEST ==> (r is Ok
                <==> create_request_outcome(
                program_id@,
                spec_u64_from_le_bytes(instruction_data@.subrange(1, 9)),
                instruction_data@.subrange(9, 9 + KEY_LEN),
                old(accounts)@,
            ) is Ok) && (r is Ok ==> create_request_effect(
                program_id@,
                spec_u64_from_le_bytes(instruction_data@.subrange(1, 9)),
                instruction_data@.subrange(9, 9 + KEY_LEN),
                old(accounts)@,
                final(accounts)@,
            )) && (r matches Err(e) ==> create_request_outcome(
                program_id@,
                spec_u64_from_le_bytes(instruction_data@.subrange(1, 9)),
                instruction_data@.subrange(9, 9 + KEY_LEN),
                old(accounts)@,
            ) == Err::<RequestModel, MultisigWalletError>(e)),
            is_command(instruction_data@) && instruction_data@[0] == TAG_SIGN ==> (r is Ok
                <==> sign_accounts_outcome(program_id@, old(accounts)@) is Ok) && (r is Ok
                ==> sign_effect(program_id@, old(accounts)@, final(accounts)@)) && (r matches Err(e)
                ==> sign_accounts_outcome(program_id@, old(accounts)@) == Err::<
                (RequestModel, u64, u64, bool),
                MultisigWalletError,
            >(e)),
    {
        match MultisigWalletInstruction::unpack(instruction_data)? {
            MultisigWalletInstruction::InitWallet { m } => Self::process_init_wallet(
                program_id,
                m,
                accounts,
            ),
            MultisigWalletInstruction::Request { amount, to_pub_key } => Self::process_create_request(
                program_id,
                amount,
                to_pub_key,
                accounts,
            ),
            MultisigWalletInstruction::Sign => Self::process_sign(program_id, accounts),
        }
    }
}

} // verus!
