//! The broadcast engine: who gets a message that one connection sent.
//!
//! A message goes to every registered connection other than its origin whose
//! current token is valid at the time of the broadcast. Connections without a
//! token, or with an expired one, are passed over in silence.

use vstd::prelude::*;
use crate::registry::{
    distinct_addresses, has_address, lemma_position_unique, token_of, Address, EntryView,
    Registry,
};
use crate::token::{token_valid, verify};

verus! {

/// The row belongs to a connection that receives what `origin` sent.
pub open spec fn is_recipient<W>(
    entry: EntryView<W>,
    origin: Address,
    secret: Seq<u8>,
    now: u64,
) -> bool {
    entry.address != origin && token_valid(entry.token, secret, now)
}

/// The recipients among the first `n` rows, in registration order.
pub open spec fn recipients_among<W>(
    s: Seq<EntryView<W>>,
    n: int,
    origin: Address,
    secret: Seq<u8>,
    now: u64,
) -> Seq<Address>
    decreases n,
{
    if n <= 0 {
        Seq::empty()
    } else {
        let before = recipients_among(s, n - 1, origin, secret, now);
        if is_recipient(s[n - 1], origin, secret, now) {
            before.push(s[n - 1].address)
        } else {
            before
        }
    }
}

/// The addresses that receive what `origin` sent, in registration order.
pub open spec fn recipients<W>(
    s: Seq<EntryView<W>>,
    origin: Address,
    secret: Seq<u8>,
    now: u64,
) -> Seq<Address> {
    recipients_among(s, s.len() as int, origin, secret, now)
}

/// Picks the connections that receive what `origin` sent at time `now`.
pub fn broadcast_targets<W>(
    registry: &Registry<W>,
    origin: Address,
    secret: &[u8],
    now: u64,
) -> (targets: Vec<Address>)
    ensures
        targets@ == recipients(registry@, origin, secret@, now),
        distinct_addresses(registry@),
{
    let mut targets: Vec<Address> = Vec::new();
    let n = registry.len();
    let mut i: usize = 0;
    while i < n
        invariant
            n == registry@.len(),
            i <= n,
            targets@ == recipients_among(registry@, i as int, origin, secret@, now),
        decreases n - i,
    {
        let entry = registry.get(i);
        if entry.address != origin {
            if verify(entry.client.token.as_str(), secret, now).is_ok() {
                targets.push(entry.address);
            }
        }
        i = i + 1;
    }
    targets
}

/// An address is among the first `n` recipients exactly if one of the first
/// `n` rows is a recipient's row with that address.
pub proof fn lemma_recipients_among_contains<W>(
    s: Seq<EntryView<W>>,
    n: int,
    origin: Address,
    secret: Seq<u8>,
    now: u64,
    address: Address,
)
    requires
        0 <= n <= s.len(),
    ensures
        recipients_among(s, n, origin, secret, now).contains(address) <==> exists|i: int|
            0 <= i < n && s[i].address == address && is_recipient(s[i], origin, secret, now),
    decreases n,
{
    if n > 0 {
        lemma_recipients_among_contains(s, n - 1, origin, secret, now, address);
        let before = recipients_among(s, n - 1, origin, secret, now);
        let all = recipients_among(s, n, origin, secret, now);
        if is_recipient(s[n - 1], origin, secret, now) {
            assert(all == before.push(s[n - 1].address));
            if all.contains(address) {
                let k = choose|k: int| 0 <= k < all.len() && all[k] == address;
                if k < before.len() {
                    assert(before[k] == address);
                    assert(before.contains(address));
                } else {
                    assert(s[n - 1].address == address);
                }
            }
            if exists|i: int|
                0 <= i < n && s[i].address == address && is_recipient(s[i], origin, secret, now) {
                let i = choose|i: int|
                    0 <= i < n && s[i].address == address && is_recipient(
                        s[i],
                        origin,
                        secret,
                        now,
                    );
                if i < n - 1 {
                    assert(before.contains(address));
                    let k = choose|k: int| 0 <= k < before.len() && before[k] == address;
                    assert(all[k] == address);
                } else {
                    assert(all[before.len() as int] == address);
                }
            }
        } else {
            assert(all == before);
            if exists|i: int|
                0 <= i < n && s[i].address == address && is_recipient(s[i], origin, secret, now) {
                let i = choose|i: int|
                    0 <= i < n && s[i].address == address && is_recipient(
                        s[i],
                        origin,
                        secret,
                        now,
                    );
                assert(i < n - 1);
            }
        }
    } else {
        assert(recipients_among(s, n, origin, secret, now) =~= Seq::<Address>::empty());
    }
}

/// No address occurs twice among the recipients.
pub proof fn lemma_recipients_among_no_duplicates<W>(
    s: Seq<EntryView<W>>,
    n: int,
    origin: Address,
    secret: Seq<u8>,
    now: u64,
)
    requires
        distinct_addresses(s),
        0 <= n <= s.len(),
    ensures
        recipients_among(s, n, origin, secret, now).no_duplicates(),
    decreases n,
{
    if n > 0 {
        lemma_recipients_among_no_duplicates(s, n - 1, origin, secret, now);
        let before = recipients_among(s, n - 1, origin, secret, now);
        if is_recipient(s[n - 1], origin, secret, now) {
            lemma_recipients_among_contains(s, n - 1, origin, secret, now, s[n - 1].address);
            assert(!before.contains(s[n - 1].address)) by {
                if before.contains(s[n - 1].address) {
                    let i = choose|i: int|
                        0 <= i < n - 1 && s[i].address == s[n - 1].address && is_recipient(
                            s[i],
                            origin,
                            secret,
                            now,
                        );
                    assert(s[i].address != s[n - 1].address);
                }
            }
            let all = before.push(s[n - 1].address);
            assert forall|i: int, j: int|
                0 <= i < all.len() && 0 <= j < all.len() && i != j implies all[i] != all[j] by {
                if i < before.len() && j < before.len() {
                    assert(before[i] != before[j]);
                } else if i < before.len() {
                    assert(before.contains(before[i]));
                } else {
                    assert(before.contains(before[j]));
                }
            }
        }
    }
}

/// Fan-out reaches exactly the other connections that hold a valid token, and
/// each of them once: an address is a recipient if and only if it is
/// registered, is not the origin, and its token is valid at the time of the
/// broadcast; no recipient is listed twice; the origin is never listed.
pub proof fn lemma_broadcast_reaches_each_valid_peer_once<W>(
    s: Seq<EntryView<W>>,
    origin: Address,
    secret: Seq<u8>,
    now: u64,
    peer: Address,
)
    requires
        distinct_addresses(s),
    ensures
        recipients(s, origin, secret, now).no_duplicates(),
        !recipients(s, origin, secret, now).contains(origin),
        recipients(s, origin, secret, now).contains(peer) <==> (peer != origin && has_address(
            s,
            peer,
        ) && token_valid(token_of(s, peer)->0, secret, now)),
{
    let n = s.len() as int;
    lemma_recipients_among_no_duplicates(s, n, origin, secret, now);
    lemma_recipients_among_contains(s, n, origin, secret, now, origin);
    lemma_recipients_among_contains(s, n, origin, secret, now, peer);
    if recipients(s, origin, secret, now).contains(peer) {
        let i = choose|i: int|
            0 <= i < n && s[i].address == peer && is_recipient(s[i], origin, secret, now);
        lemma_position_unique(s, peer, i);
    }
    if peer != origin && has_address(s, peer) && token_valid(token_of(s, peer)->0, secret, now) {
        let i = crate::registry::position(s, peer);
        assert(0 <= i < n && s[i].address == peer && is_recipient(s[i], origin, secret, now));
    }
}

/// A connection that is not registered receives nothing.
pub proof fn lemma_unregistered_receives_nothing<W>(
    s: Seq<EntryView<W>>,
    origin: Address,
    secret: Seq<u8>,
    now: u64,
    peer: Address,
)
    requires
        !has_address(s, peer),
    ensures
        !recipients(s, origin, secret, now).contains(peer),
{
    lemma_recipients_among_contains(s, s.len() as int, origin, secret, now, peer);
}

} // verus!
