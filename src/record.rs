//! The fixed-width records in which wallets and requests are stored.
use vstd::bytes::{lemma_auto_spec_u64_to_from_le_bytes, spec_u64_from_le_bytes, u64_from_le_bytes, u64_to_le_bytes};
use vstd::prelude::*;
use vstd::slice::slice_subrange;

use crate::instruction::read_key;
use crate::state::{keys_view, MultisigWallet, Pubkey, Request, RequestModel, WalletModel, KEY_LEN};

verus! {

/// Offset of the first signer in a wallet record.
pub const WALLET_KEYS_AT: usize = 2;

/// Offset of the first approval flag in a request record.
pub const REQUEST_FLAGS_AT: usize = 74;

/// The byte that stores a flag.
pub open spec fn flag_byte(b: bool) -> u8 {
    if b {
        1
    } else {
        0
    }
}

/// Whether `b` stores a flag.
pub open spec fn is_flag(b: u8) -> bool {
    b <= 1
}

/// The identity stored at `start` of `s`.
pub open spec fn key_at(s: Seq<u8>, start: int) -> Seq<u8> {
    s.subrange(start, start + KEY_LEN)
}

/// Whether `s` is a wallet record with `n` signer slots: the initialized
/// flag, the threshold, then the signers.
pub open spec fn is_wallet_record(s: Seq<u8>, n: nat) -> bool {
    s.len() == WALLET_KEYS_AT + KEY_LEN * n && is_flag(s[0])
}

/// The wallet that a wallet record with `n` signer slots stores.
pub open spec fn wallet_of_record(s: Seq<u8>, n: nat) -> WalletModel {
    WalletModel {
        initialized: s[0] == 1,
        threshold: s[1],
        signers: Seq::new(n, |i: int| key_at(s, WALLET_KEYS_AT + KEY_LEN * i)),
    }
}

/// Whether `s` is a request record with `n` approval slots: the initialized
/// and finished flags, the amount (eight little-endian bytes), the wallet,
/// the receiver, then one flag per slot.
pub open spec fn is_request_record(s: Seq<u8>, n: nat) -> bool {
    &&& s.len() == REQUEST_FLAGS_AT + n
    &&& is_flag(s[0])
    &&& is_flag(s[1])
    &&& forall|i: int| 0 <= i < n ==> is_flag(#[trigger] s[REQUEST_FLAGS_AT + i])
}

/// The request that a request record with `n` approval slots stores.
pub open spec fn request_of_record(s: Seq<u8>, n: nat) -> RequestModel {
    RequestModel {
        initialized: s[0] == 1,
        finished: s[1] == 1,
        amount: spec_u64_from_le_bytes(s.subrange(2, 10)),
        wallet: key_at(s, 10),
        receiver: key_at(s, 10 + KEY_LEN),
        approvals: Seq::new(n, |i: int| s[REQUEST_FLAGS_AT + i] == 1),
    }
}

/// Appends the bytes of `src` to `out`.
fn append_bytes(out: &mut Vec<u8>, src: &[u8])
    ensures
        final(out)@ == old(out)@ + src@,
{
    let mut i: usize = 0;
    while i < src.len()
        invariant
            0 <= i <= src.len(),
            out@ == old(out)@ + src@.subrange(0, i as int),
        decreases src.len() - i,
    {
        out.push(src[i]);
        i = i + 1;
        assert(out@ =~= old(out)@ + src@.subrange(0, i as int));
    }
    assert(src@.subrange(0, src.len() as int) =~= src@);
}

fn flag_of(b: bool) -> (r: u8)
    ensures
        r == flag_byte(b),
{
    if b {
        1
    } else {
        0
    }
}

/// Reads a wallet record with `n` signer slots; `None` if `data` is not one.
pub fn decode_wallet(data: &[u8], n: usize) -> (r: Option<MultisigWallet>)
    ensures
        r is Some <==> is_wallet_record(data@, n as nat),
        r matches Some(w) ==> w@ == wallet_of_record(data@, n as nat) && w.signers.len() == n,
{
    let limit: usize = (usize::MAX - WALLET_KEYS_AT) / KEY_LEN;
    if n > limit {
        assert(WALLET_KEYS_AT + KEY_LEN * n > usize::MAX) by (nonlinear_arith)
            requires
                n > limit,
                limit == (usize::MAX as int - 2) / 32,
        ;
        assert(data@.len() == data.len());
        return None;
    }
    if data.len() != WALLET_KEYS_AT + KEY_LEN * n || data[0] > 1 {
        return None;
    }
    let mut signers: Vec<Pubkey> = Vec::new();
    let mut i: usize = 0;
    while i < n
        invariant
            0 <= i <= n,
            WALLET_KEYS_AT + KEY_LEN * n <= usize::MAX,
            data.len() == WALLET_KEYS_AT + KEY_LEN * n,
            signers.len() == i,
            forall|t: int| 0 <= t < i ==> (#[trigger] signers@[t])@ == key_at(data@, WALLET_KEYS_AT + KEY_LEN * t),
        decreases n - i,
    {
        let k = read_key(data, WALLET_KEYS_AT + KEY_LEN * i);
        signers.push(k);
        i = i + 1;
    }
    let w = MultisigWallet { is_initialized: data[0] == 1, m: data[1], signers };
    assert(w@.signers =~= wallet_of_record(data@, n as nat).signers);
    Some(w)
}

/// Writes the record of `w`.
pub fn encode_wallet(w: &MultisigWallet) -> (r: Vec<u8>)
    requires
        WALLET_KEYS_AT + KEY_LEN * w.signers.len() <= usize::MAX,
    ensures
        is_wallet_record(r@, w.signers.len() as nat),
        wallet_of_record(r@, w.signers.len() as nat) == w@,
{
    let mut out: Vec<u8> = Vec::new();
    out.push(flag_of(w.is_initialized));
    out.push(w.m);
    let mut i: usize = 0;
    while i < w.signers.len()
        invariant
            0 <= i <= w.signers.len(),
            WALLET_KEYS_AT + KEY_LEN * w.signers.len() <= usize::MAX,
            out@.len() == WALLET_KEYS_AT + KEY_LEN * i,
            out@[0] == flag_byte(w.is_initialized),
            out@[1] == w.m,
            forall|t: int| 0 <= t < i ==> key_at(out@, WALLET_KEYS_AT + KEY_LEN * t) == (#[trigger] w.signers@[t])@,
        decreases w.signers.len() - i,
    {
        let bytes = w.signers[i].to_bytes();
        let ghost before = out@;
        append_bytes(&mut out, bytes.as_slice());
        proof {
            assert forall|t: int| 0 <= t < i + 1 implies key_at(out@, WALLET_KEYS_AT + KEY_LEN * t)
                == (#[trigger] w.signers@[t])@ by {
                if t < i {
                    assert(key_at(out@, WALLET_KEYS_AT + KEY_LEN * t) =~= key_at(before, WALLET_KEYS_AT + KEY_LEN * t));
                } else {
                    assert(key_at(out@, WALLET_KEYS_AT + KEY_LEN * t) =~= bytes@);
                }
            }
        }
        i = i + 1;
    }
    proof {
        let m = wallet_of_record(out@, w.signers.len() as nat);
        assert(m.signers =~= w@.signers);
    }
    out
}

/// Reads a request record with `n` approval slots; `None` if `data` is not
/// one.
pub fn decode_request(data: &[u8], n: usize) -> (r: Option<Request>)
    ensures
        r is Some <==> is_request_record(data@, n as nat),
        r matches Some(q) ==> q@ == request_of_record(data@, n as nat) && q.approvals.len() == n,
{
    assert(data@.len() == data.len());
    if n > usize::MAX - REQUEST_FLAGS_AT {
        return None;
    }
    if data.len() != REQUEST_FLAGS_AT + n || data[0] > 1 || data[1] > 1 {
        return None;
    }
    let mut approvals: Vec<bool> = Vec::new();
    let mut i: usize = 0;
    while i < n
        invariant
            0 <= i <= n,
            data.len() == REQUEST_FLAGS_AT + n,
            approvals.len() == i,
            forall|t: int| 0 <= t < i ==> is_flag(#[trigger] data@[REQUEST_FLAGS_AT + t]),
            forall|t: int| 0 <= t < i ==> #[trigger] approvals@[t] == (data@[REQUEST_FLAGS_AT + t] == 1),
        decreases n - i,
    {
        let b = data[REQUEST_FLAGS_AT + i];
        if b > 1 {
            return None;
        }
        approvals.push(b == 1);
        i = i + 1;
    }
    let amount = u64_from_le_bytes(slice_subrange(data, 2, 10));
    let wallet = read_key(data, 10);
    let receiver = read_key(data, 10 + KEY_LEN);
    let q = Request {
        is_initialized: data[0] == 1,
        is_finished: data[1] == 1,
        amount,
        wallet,
        receiver,
        approvals,
    };
    assert(q@.approvals =~= request_of_record(data@, n as nat).approvals);
    Some(q)
}

/// Writes the record of `q`.
pub fn encode_request(q: &Request) -> (r: Vec<u8>)
    requires
        REQUEST_FLAGS_AT + q.approvals.len() <= usize::MAX,
    ensures
        is_request_record(r@, q.approvals.len() as nat),
        request_of_record(r@, q.approvals.len() as nat) == q@,
{
    let mut out: Vec<u8> = Vec::new();
    out.push(flag_of(q.is_initialized));
    out.push(flag_of(q.is_finished));
    let amount = u64_to_le_bytes(q.amount);
    append_bytes(&mut out, amount.as_slice());
    let wallet = q.wallet.to_bytes();
    append_bytes(&mut out, wallet.as_slice());
    let receiver = q.receiver.to_bytes();
    append_bytes(&mut out, receiver.as_slice());
    let ghost head = out@;
    assert(head.len() == REQUEST_FLAGS_AT);
    let mut i: usize = 0;
    while i < q.approvals.len()
        invariant
            0 <= i <= q.approvals.len(),
            REQUEST_FLAGS_AT + q.approvals.len() <= usize::MAX,
            head.len() == REQUEST_FLAGS_AT,
            out@.len() == REQUEST_FLAGS_AT + i,
            out@.subrange(0, REQUEST_FLAGS_AT as int) == head,
            forall|t: int| 0 <= t < i ==> #[trigger] out@[REQUEST_FLAGS_AT + t] == flag_byte(q.approvals@[t]),
        decreases q.approvals.len() - i,
    {
        let b = flag_of(q.approvals[i]);
        let ghost before = out@;
        out.push(b);
        assert(out@.subrange(0, REQUEST_FLAGS_AT as int) =~= before.subrange(0, REQUEST_FLAGS_AT as int));
        i = i + 1;
    }
    proof {
        lemma_auto_spec_u64_to_from_le_bytes();
        assert(out@.subrange(0, REQUEST_FLAGS_AT as int)[0] == out@[0]);
        assert(out@.subrange(0, REQUEST_FLAGS_AT as int)[1] == out@[1]);
        assert(out@.subrange(2, 10) =~= head.subrange(2, 10));
        assert(head.subrange(2, 10) =~= amount@);
        assert(key_at(out@, 10) =~= head.subrange(10, 42));
        assert(head.subrange(10, 42) =~= wallet@);
        assert(key_at(out@, 10 + KEY_LEN) =~= head.subrange(42, 74));
        assert(head.subrange(42, 74) =~= receiver@);
        let m = request_of_record(out@, q.approvals.len() as nat);
        assert(m.approvals =~= q@.approvals);
    }
    out
}

} // verus!
