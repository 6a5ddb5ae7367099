use vstd::prelude::*;

verus! {

/// Number of bytes in an identity.
pub const KEY_LEN: usize = 32;

/// A 32-byte identity: the key of an account or of a signer.
#[derive(Debug, Clone, Copy)]
pub struct Pubkey {
    pub bytes: [u8; 32],
}

impl View for Pubkey {
    type V = Seq<u8>;

    open spec fn view(&self) -> Seq<u8> {
        self.bytes@
    }
}

impl Pubkey {
    pub fn new_from_array(bytes: [u8; 32]) -> (r: Pubkey)
        ensures
            r@ == bytes@,
    {
        Pubkey { bytes }
    }

    pub fn to_bytes(&self) -> (r: [u8; 32])
        ensures
            r@ == self@,
    {
        self.bytes
    }

    /// Exact identity comparison, byte by byte.
    pub fn same_as(&self, other: &Pubkey) -> (r: bool)
        ensures
            r == (self@ == other@),
    {
        let mut i: usize = 0;
        while i < KEY_LEN
            invariant
                0 <= i <= KEY_LEN,
                self@.len() == KEY_LEN,
                other@.len() == KEY_LEN,
                forall|j: int| 0 <= j < i ==> self@[j] == other@[j],
            decreases KEY_LEN - i,
        {
            if self.bytes[i] != other.bytes[i] {
                return false;
            }
            i = i + 1;
        }
        assert(self@ =~= other@);
        true
    }
}

/// The identities of a sequence of keys.
pub open spec fn keys_view(keys: Seq<Pubkey>) -> Seq<Seq<u8>> {
    keys.map_values(|k: Pubkey| k@)
}

/// Mathematical model of a wallet configuration.
pub struct WalletModel {
    pub initialized: bool,
    pub threshold: u8,
    pub signers: Seq<Seq<u8>>,
}

/// Mathematical model of a transfer request.
pub struct RequestModel {
    pub initialized: bool,
    pub finished: bool,
    pub amount: u64,
    pub wallet: Seq<u8>,
    pub receiver: Seq<u8>,
    pub approvals: Seq<bool>,
}

/// A wallet: its signer identities, in slot order, and the number of
/// approvals a request needs.
pub struct MultisigWallet {
    pub is_initialized: bool,
    pub m: u8,
    pub signers: Vec<Pubkey>,
}

impl View for MultisigWallet {
    type V = WalletModel;

    open spec fn view(&self) -> WalletModel {
        WalletModel {
            initialized: self.is_initialized,
            threshold: self.m,
            signers: keys_view(self.signers@),
        }
    }
}

/// A transfer request of `amount` from `wallet` to `receiver`, with one
/// approval flag per signer slot of the wallet.
pub struct Request {
    pub is_initialized: bool,
    pub is_finished: bool,
    pub amount: u64,
    pub wallet: Pubkey,
    pub receiver: Pubkey,
    pub approvals: Vec<bool>,
}

impl View for Request {
    type V = RequestModel;

    open spec fn view(&self) -> RequestModel {
        RequestModel {
            initialized: self.is_initialized,
            finished: self.is_finished,
            amount: self.amount,
            wallet: self.wallet@,
            receiver: self.receiver@,
            approvals: self.approvals@,
        }
    }
}

/// The invariant of a request of a wallet with `n` signer slots: one
/// approval flag per slot, and only a created request can be finished.
pub open spec fn request_well_formed(r: RequestModel, n: nat) -> bool {
    &&& r.approvals.len() == n
    &&& r.finished ==> r.initialized
}

/// Number of set flags in a sequence of approvals.
pub open spec fn approval_count(s: Seq<bool>) -> nat
    decreases s.len(),
{
    if s.len() == 0 {
        0
    } else {
        approval_count(s.drop_last()) + (if s.last() {
            1nat
        } else {
            0nat
        })
    }
}

/// Setting a flag that was clear adds one approval; setting one that was
/// already set adds none.
pub proof fn lemma_count_update(s: Seq<bool>, i: int)
    requires
        0 <= i < s.len(),
    ensures
        approval_count(s.update(i, true)) == approval_count(s) + (if s[i] {
            0nat
        } else {
            1nat
        }),
    decreases s.len(),
{
    let t = s.update(i, true);
    if i == s.len() - 1 {
        assert(t.drop_last() =~= s.drop_last());
    } else {
        assert(t.drop_last() =~= s.drop_last().update(i, true));
        lemma_count_update(s.drop_last(), i);
    }
}

/// A sequence of clear flags holds no approval.
pub proof fn lemma_count_none(s: Seq<bool>)
    requires
        forall|i: int| 0 <= i < s.len() ==> !s[i],
    ensures
        approval_count(s) == 0,
    decreases s.len(),
{
    if s.len() > 0 {
        lemma_count_none(s.drop_last());
    }
}

/// The approval count never exceeds the number of slots.
pub proof fn lemma_count_bound(s: Seq<bool>)
    ensures
        approval_count(s) <= s.len(),
    decreases s.len(),
{
    if s.len() > 0 {
        lemma_count_bound(s.drop_last());
    }
}

} // verus!
