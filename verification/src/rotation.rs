use vstd::prelude::*;

use crate::address::Addr;
use soroban_sdk::Env;

verus! {

#[verifier::external_type_specification]
#[verifier::external_body]
pub struct ExEnv(Env);

/// The SHA-256 digest of `data`, as the ledger's host computes it.
pub uninterp spec fn sha256_digest(data: Seq<u8>) -> Seq<u8>;

/// The four bytes of `x`, most significant first.
pub open spec fn be_bytes(x: u32) -> Seq<u8> {
    seq![(x / 0x100_0000) as u8, ((x / 0x1_0000) % 0x100) as u8, ((x / 0x100) % 0x100) as u8, (x % 0x100) as u8]
}

/// The digest from which the rotation is drawn at ledger sequence number `seq`.
pub open spec fn digest_of_sequence(seq: u32) -> Seq<u8> {
    sha256_digest(be_bytes(seq))
}

/// `s` with the items at `i` and `j` exchanged.
pub open spec fn swap<A>(s: Seq<A>, i: int, j: int) -> Seq<A> {
    s.update(i, s[j]).update(j, s[i])
}

/// The position with which the item at `i` is exchanged: a byte of the
/// digest, taken modulo `i + 1`.
pub open spec fn draw(h: Seq<u8>, i: int) -> int {
    (h[i % 32] as int) % (i + 1)
}

/// The steps `i`, `i - 1`, ..., `1` of a Fisher-Yates shuffle of `s`, each
/// step drawing from the digest `h`.
pub open spec fn shuffle_steps<A>(s: Seq<A>, h: Seq<u8>, i: int) -> Seq<A>
    decreases i,
{
    if i <= 0 {
        s
    } else {
        shuffle_steps(swap(s, i, draw(h, i)), h, i - 1)
    }
}

/// `s` shuffled by the digest `h`.
pub open spec fn shuffled<A>(s: Seq<A>, h: Seq<u8>) -> Seq<A> {
    shuffle_steps(s, h, s.len() - 1)
}

/// Exchanging two items keeps the items.
pub proof fn lemma_swap_multiset<A>(s: Seq<A>, i: int, j: int)
    requires
        0 <= i < s.len(),
        0 <= j < s.len(),
    ensures
        swap(s, i, j).to_multiset() == s.to_multiset(),
        swap(s, i, j).len() == s.len(),
{
    broadcast use vstd::seq_lib::to_multiset_update, vstd::multiset::group_multiset_axioms;

    let s1 = s.update(i, s[j]);
    assert(s1[j] == s[j]);
    assert(s1.to_multiset() == s.to_multiset().insert(s[j]).remove(s[i]));
    assert(swap(s, i, j).to_multiset() == s1.to_multiset().insert(s[i]).remove(s[j]));
    s.to_multiset_ensures();
    assert(s.contains(s[i]));
    assert(s.to_multiset().count(s[i]) > 0);
    assert(swap(s, i, j).to_multiset() =~= s.to_multiset());
}

/// A shuffle only reorders: it keeps every item, as often as it occurs.
pub proof fn lemma_shuffle_steps_permutes<A>(s: Seq<A>, h: Seq<u8>, i: int)
    requires
        h.len() == 32,
        i < s.len(),
    ensures
        shuffle_steps(s, h, i).to_multiset() == s.to_multiset(),
        shuffle_steps(s, h, i).len() == s.len(),
    decreases i,
{
    if i > 0 {
        let j = draw(h, i);
        assert(0 <= j <= i);
        lemma_swap_multiset(s, i, j);
        lemma_shuffle_steps_permutes(swap(s, i, j), h, i - 1);
    }
}

/// Shuffling keeps exactly the items it was given.
pub proof fn lemma_shuffled_permutes<A>(s: Seq<A>, h: Seq<u8>)
    requires
        h.len() == 32,
    ensures
        shuffled(s, h).to_multiset() == s.to_multiset(),
        shuffled(s, h).len() == s.len(),
{
    lemma_shuffle_steps_permutes(s, h, s.len() - 1);
}

/// `soroban_sdk::crypto::Crypto::sha256`, called on `data` copied into the
/// host's bytes. Claimed: the result is the 32-byte SHA-256 digest of `data`,
/// which depends on `data` alone. Not said: a host that runs out of its
/// resource budget traps here, as it may on any host call.
#[verifier::external_body]
fn sha256(env: &Env, data: &[u8]) -> (r: [u8; 32])
    ensures
        r@ == sha256_digest(data@),
        r@.len() == 32,
{
    env.crypto().sha256(&soroban_sdk::Bytes::from_slice(env, data)).to_array()
}

/// The four bytes of `x`, most significant first.
pub fn u32_be_bytes(x: u32) -> (r: [u8; 4])
    ensures
        r@ == be_bytes(x),
{
    let r = [(x / 0x100_0000) as u8, ((x / 0x1_0000) % 0x100) as u8, ((x / 0x100) % 0x100) as u8, (x % 0x100) as u8];
    assert(r@ =~= be_bytes(x));
    r
}

/// The digest from which the rotation is drawn at ledger sequence number
/// `ledger_seq`: SHA-256 of the number's four big-endian bytes.
pub fn rotation_digest(env: &Env, ledger_seq: u32) -> (r: [u8; 32])
    ensures
        r@ == digest_of_sequence(ledger_seq),
        r@.len() == 32,
{
    let bytes = u32_be_bytes(ledger_seq);
    sha256(env, bytes.as_slice())
}

/// `order` shuffled by `digest`: for `i` from the last position down to 1,
/// the item at `i` is exchanged with the one at
/// `digest[i % 32] % (i + 1)`.
pub fn shuffle_with_digest(order: Vec<Addr>, digest: &[u8; 32]) -> (r: Vec<Addr>)
    ensures
        r@ == shuffled(order@, digest@),
{
    proof {
        assert(digest@.len() == 32);
    }
    let n = order.len();
    let mut v = order;
    if n < 2 {
        return v;
    }
    let mut i: usize = n - 1;
    while i >= 1
        invariant
            v@.len() == n,
            n >= 2,
            i < n,
            digest@.len() == 32,
            shuffle_steps(v@, digest@, i as int) == shuffled(order@, digest@),
        decreases i,
    {
        let j: usize = (digest[i % 32] as usize) % (i + 1);
        assert(j as int == draw(digest@, i as int));
        let ghost before = v@;
        let a = v[i];
        let b = v[j];
        v.set(i, b);
        v.set(j, a);
        assert(v@ =~= swap(before, i as int, j as int));
        assert(shuffle_steps(before, digest@, i as int) == shuffle_steps(
            v@,
            digest@,
            i - 1,
        ));
        i = i - 1;
    }
    v
}

} // verus!
