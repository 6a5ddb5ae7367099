//! Laws of the wallet's lifecycle, stated over the models of its operations.
use vstd::prelude::*;

use crate::error::MultisigWalletError;
use crate::processor::{
    init_step, lemma_slot_from, sign_outcome, sign_step, signer_slot, transfer_step,
};
use crate::state::{approval_count, lemma_count_none, lemma_count_update, RequestModel, WalletModel};

verus! {

/// A wallet is initialized at most once: after a successful `init`, every
/// further `init` fails with `AlreadyInitialized` (and, by the contract of
/// `Processor::init_wallet`, leaves the first write in place).
pub proof fn init_only_once(w: WalletModel, m1: u8, s1: Seq<Seq<u8>>, m2: u8, s2: Seq<Seq<u8>>)
    requires
        init_step(w, m1, s1) is Ok,
    ensures
        init_step(init_step(w, m1, s1)->Ok_0, m2, s2) == Err::<WalletModel, MultisigWalletError>(
            MultisigWalletError::AlreadyInitialized,
        ),
        init_step(w, m1, s1)->Ok_0.threshold == m1,
        init_step(w, m1, s1)->Ok_0.signers == s1,
{
}

/// Once a request is finished, every further approval fails with
/// `RequestAlreadyFulfilled`, so no transfer runs again.
pub proof fn finished_request_rejects_approval(
    w: WalletModel,
    wallet_key: Seq<u8>,
    r: RequestModel,
    signer: Seq<u8>,
    authenticated: bool,
    from: u64,
    to: u64,
)
    requires
        w.initialized,
        r.initialized,
        r.finished,
    ensures
        sign_outcome(w, wallet_key, r, signer, authenticated, from, to) == Err::<
            (RequestModel, u64, u64, bool),
            MultisigWalletError,
        >(MultisigWalletError::RequestAlreadyFulfilled),
{
}

/// The transfer of a request runs at most once: an approval that runs it
/// leaves the request finished, and every approval after that fails with
/// `RequestAlreadyFulfilled`.
pub proof fn transfer_runs_at_most_once(
    w: WalletModel,
    wallet_key: Seq<u8>,
    r: RequestModel,
    signer: Seq<u8>,
    authenticated: bool,
    from: u64,
    to: u64,
    next_signer: Seq<u8>,
    next_authenticated: bool,
    next_from: u64,
    next_to: u64,
)
    requires
        sign_outcome(w, wallet_key, r, signer, authenticated, from, to) matches Ok(
            (_, _, _, done),
        ) && done,
    ensures
        sign_outcome(w, wallet_key, r, signer, authenticated, from, to)->Ok_0.0.finished,
        sign_outcome(
            w,
            wallet_key,
            sign_outcome(w, wallet_key, r, signer, authenticated, from, to)->Ok_0.0,
            next_signer,
            next_authenticated,
            next_from,
            next_to,
        ) == Err::<(RequestModel, u64, u64, bool), MultisigWalletError>(
            MultisigWalletError::RequestAlreadyFulfilled,
        ),
{
}

/// An approval by an identity that is not among the wallet's signers fails
/// with `UnauthorizedSigner` (the checks that come before it passing).
pub proof fn non_signer_rejected(
    w: WalletModel,
    wallet_key: Seq<u8>,
    r: RequestModel,
    signer: Seq<u8>,
    authenticated: bool,
)
    requires
        w.initialized,
        r.initialized,
        !r.finished,
        r.wallet == wallet_key,
        forall|i: int| 0 <= i < w.signers.len() ==> w.signers[i] != signer,
    ensures
        sign_step(w, wallet_key, r, signer, authenticated) == Err::<
            RequestModel,
            MultisigWalletError,
        >(MultisigWalletError::UnauthorizedSigner),
{
    lemma_slot_from(w.signers, signer, 0);
}

/// An approval of a pending request through a wallet other than the one it
/// was created for fails with `RequestWalletMismatch`.
pub proof fn foreign_wallet_rejected(
    w: WalletModel,
    wallet_key: Seq<u8>,
    r: RequestModel,
    signer: Seq<u8>,
    authenticated: bool,
)
    requires
        w.initialized,
        r.initialized,
        !r.finished,
        r.wallet != wallet_key,
    ensures
        sign_step(w, wallet_key, r, signer, authenticated) == Err::<
            RequestModel,
            MultisigWalletError,
        >(MultisigWalletError::RequestWalletMismatch),
{
}

/// The request after authenticated approvals by `keys`, in order.
pub open spec fn sign_all(w: WalletModel, wallet_key: Seq<u8>, r: RequestModel, keys: Seq<
    Seq<u8>,
>) -> Result<RequestModel, MultisigWalletError>
    decreases keys.len(),
{
    if keys.len() == 0 {
        Ok(r)
    } else {
        match sign_all(w, wallet_key, r, keys.drop_last()) {
            Err(e) => Err(e),
            Ok(r1) => sign_step(w, wallet_key, r1, keys.last(), true),
        }
    }
}

/// A freshly created request of wallet `w`, stored under `wallet_key`.
pub open spec fn is_fresh_request(w: WalletModel, wallet_key: Seq<u8>, r: RequestModel) -> bool {
    &&& r.initialized
    &&& !r.finished
    &&& r.wallet == wallet_key
    &&& r.approvals == Seq::new(w.signers.len(), |i: int| false)
}

/// Keys that are pairwise distinct signers of `w`.
pub open spec fn distinct_signers(w: WalletModel, keys: Seq<Seq<u8>>) -> bool {
    &&& forall|i: int, j: int| 0 <= i < j < keys.len() ==> keys[i] != keys[j]
    &&& forall|i: int| 0 <= i < keys.len() ==> (#[trigger] signer_slot(w.signers, keys[i])) is Some
}

proof fn threshold_prefix(w: WalletModel, wallet_key: Seq<u8>, r: RequestModel, keys: Seq<Seq<u8>>, j: int)
    requires
        w.initialized,
        is_fresh_request(w, wallet_key, r),
        distinct_signers(w, keys),
        0 <= j <= keys.len(),
        j <= w.threshold,
    ensures
        sign_all(w, wallet_key, r, keys.take(j)) matches Ok(r2) && {
            &&& r2.initialized
            &&& r2.wallet == wallet_key
            &&& r2.amount == r.amount
            &&& r2.approvals.len() == w.signers.len()
            &&& approval_count(r2.approvals) == j
            &&& r2.finished == (j > 0 && j >= w.threshold)
            &&& forall|i: int|
                0 <= i < r2.approvals.len() && #[trigger] r2.approvals[i] ==> exists|t: int|
                    0 <= t < j && signer_slot(w.signers, #[trigger] keys[t]) == Some(i)
        },
    decreases j,
{
    if j == 0 {
        assert(keys.take(0) =~= Seq::<Seq<u8>>::empty());
        lemma_count_none(r.approvals);
    } else {
        threshold_prefix(w, wallet_key, r, keys, j - 1);
        assert(keys.take(j).drop_last() =~= keys.take(j - 1));
        let r1 = sign_all(w, wallet_key, r, keys.take(j - 1))->Ok_0;
        let k = keys[j - 1];
        assert(keys.take(j).last() == k);
        assert(signer_slot(w.signers, keys[j - 1]) is Some);
        lemma_slot_from(w.signers, k, 0);
        let i = signer_slot(w.signers, k)->0;
        if r1.approvals[i] {
            let t = choose|t: int|
                0 <= t < j - 1 && signer_slot(w.signers, #[trigger] keys[t]) == Some(i);
            lemma_slot_from(w.signers, keys[t], 0);
            assert(false);
        }
        lemma_count_update(r1.approvals, i);
        let r2 = sign_all(w, wallet_key, r, keys.take(j))->Ok_0;
        assert forall|i2: int|
            0 <= i2 < r2.approvals.len() && #[trigger] r2.approvals[i2] implies exists|t: int|
                0 <= t < j && signer_slot(w.signers, #[trigger] keys[t]) == Some(i2) by {
            if i2 == i {
                assert(signer_slot(w.signers, keys[j - 1]) == Some(i2));
            } else {
                assert(r1.approvals[i2]);
            }
        }
    }
}

/// Approvals by distinct signers of a fresh request finish it exactly when
/// their number reaches the threshold, and never before; every approval
/// after that fails with `RequestAlreadyFulfilled`. A threshold of zero is
/// left out: the request then stays pending until its first approval.
pub proof fn finishes_exactly_at_threshold(
    w: WalletModel,
    wallet_key: Seq<u8>,
    r: RequestModel,
    keys: Seq<Seq<u8>>,
    j: int,
)
    requires
        w.initialized,
        w.threshold >= 1,
        is_fresh_request(w, wallet_key, r),
        distinct_signers(w, keys),
        0 <= j <= keys.len(),
    ensures
        j <= w.threshold ==> (sign_all(w, wallet_key, r, keys.take(j)) matches Ok(r2)
            && r2.finished == (j == w.threshold) && approval_count(r2.approvals) == j),
        j > w.threshold ==> sign_all(w, wallet_key, r, keys.take(j)) == Err::<
            RequestModel,
            MultisigWalletError,
        >(MultisigWalletError::RequestAlreadyFulfilled),
    decreases j,
{
    if j <= w.threshold {
        threshold_prefix(w, wallet_key, r, keys, j);
    } else {
        finishes_exactly_at_threshold(w, wallet_key, r, keys, j - 1);
        assert(keys.take(j).drop_last() =~= keys.take(j - 1));
        if j - 1 == w.threshold {
            threshold_prefix(w, wallet_key, r, keys, j - 1);
        }
    }
}

/// The same law for approvals that carry out the transfer: for a fresh
/// request and distinct signers of its wallet, the `k`-th approval, made on
/// the request that the `k - 1` before it left, succeeds; it runs the
/// transfer and finishes the request exactly when `k` reaches the
/// threshold. The approval after that fails with `RequestAlreadyFulfilled`.
/// At the approval that reaches the threshold the transfer must be one that
/// can run: the wallet holds the amount and the receiver's balance can take
/// it; otherwise that approval fails as the transfer does and changes
/// nothing. A threshold of zero is left out, as above.
pub proof fn approvals_with_transfer_finish_at_threshold(
    w: WalletModel,
    wallet_key: Seq<u8>,
    r: RequestModel,
    keys: Seq<Seq<u8>>,
    k: int,
    from: u64,
    to: u64,
)
    requires
        w.initialized,
        w.threshold >= 1,
        is_fresh_request(w, wallet_key, r),
        distinct_signers(w, keys),
        1 <= k <= keys.len(),
        k <= w.threshold + 1,
        k == w.threshold ==> from >= r.amount && to + r.amount <= u64::MAX,
    ensures
        sign_all(w, wallet_key, r, keys.take(k - 1)) is Ok,
        k <= w.threshold ==> (sign_outcome(
            w,
            wallet_key,
            sign_all(w, wallet_key, r, keys.take(k - 1))->Ok_0,
            keys[k - 1],
            true,
            from,
            to,
        ) matches Ok((next, _, _, done)) && done == (k == w.threshold) && next.finished == (k
            == w.threshold)),
        k == w.threshold + 1 ==> sign_outcome(
            w,
            wallet_key,
            sign_all(w, wallet_key, r, keys.take(k - 1))->Ok_0,
            keys[k - 1],
            true,
            from,
            to,
        ) == Err::<(RequestModel, u64, u64, bool), MultisigWalletError>(
            MultisigWalletError::RequestAlreadyFulfilled,
        ),
{
    threshold_prefix(w, wallet_key, r, keys, k - 1);
    if k <= w.threshold {
        threshold_prefix(w, wallet_key, r, keys, k);
        assert(keys.take(k).drop_last() =~= keys.take(k - 1));
        assert(keys.take(k).last() == keys[k - 1]);
    }
}

} // verus!
