//! The transfer authority. An owner authorizes the transfer of some of its
//! purchased tickets; the authorization is bound to those tickets by a key,
//! runs out after a time, and is used up when the tickets are received.
//! Here are also the questions that holders ask about their tickets: which
//! they have, whether one has passed on, and what one shows at the door.

use crate::errors::BusinessError;
use crate::inventory::{
    changed, count, count_before, ledger_wf, lemma_count_bounds, lemma_count_positive,
    lemma_taken_len, matching, rewritten, selects, taken, Change, Ledger, Selector, TicketInstance,
    TicketInstanceStatus,
};
use crate::orders::{Order, TicketType};
use crate::records::{first, position, Lookup};
use crate::store::Store;
use crate::wallets::Wallet;
use vstd::prelude::*;

verus! {

/// What the sender hands to the receiver: the claim to a number of tickets.
#[derive(Clone, Copy, Debug, PartialEq, Eq)]
pub struct TransferAuthorization {
    /// The key that binds the tickets to this authorization.
    pub transfer_key: u128,
    pub sender_user_id: u128,
    /// How many tickets the authorization was issued for.
    pub num_tickets: u64,
    /// The instant of issue.
    pub issued_at: i64,
    /// For how many seconds from its issue the authorization can be used.
    pub ttl_seconds: u32,
}

/// Whether the instance is a purchased ticket in the wallet whose id is
/// among `ids`.
pub open spec fn owned_among(t: TicketInstance, ids: Seq<u128>, wallet_id: u128) -> bool {
    t.status == TicketInstanceStatus::Purchased && t.wallet_id == wallet_id && ids.contains(t.id)
}

/// The ledger content after the wallet's purchased tickets named in `ids`
/// have been bound to a transfer key.
pub open spec fn offered(
    s: Seq<TicketInstance>,
    ids: Seq<u128>,
    wallet_id: u128,
    transfer_key: u128,
    expiry: i64,
) -> Seq<TicketInstance> {
    Seq::new(
        s.len(),
        |i: int|
            if owned_among(s[i], ids, wallet_id) {
                changed(s[i], Change::Offer { transfer_key, expiry })
            } else {
                s[i]
            },
    )
}

/// Why an authorization is refused, if it is: the sender has no default
/// wallet or does not hold every named ticket as purchased in it
/// (`NotOwner`); or the expiry is past the last instant that can be stored,
/// or the key is already bound to a ticket (`PersistenceError`).
pub open spec fn authorization_refusal(
    s: Seq<TicketInstance>,
    wallets: Seq<Wallet>,
    sender_user_id: u128,
    ids: Seq<u128>,
    ttl_seconds: u32,
    now: i64,
    transfer_key: u128,
) -> Option<BusinessError> {
    match first(wallets, Lookup::DefaultOf(sender_user_id)) {
        None => Some(BusinessError::NotOwner),
        Some(w) => if exists|k: int|
            0 <= k < ids.len() && count(
                s,
                Selector::OwnedTicket { id: #[trigger] ids[k], wallet_id: wallets[w].id },
            ) == 0 {
            Some(BusinessError::NotOwner)
        } else if now + ttl_seconds > i64::MAX || count(s, Selector::Keyed { transfer_key }) > 0 {
            Some(BusinessError::PersistenceError)
        } else {
            None
        },
    }
}

/// Issues a transfer authorization for the tickets `ticket_ids` of the
/// account `sender_user_id`, good for `ttl_seconds` from `now`.
///
/// All or nothing: where the request is refused (see
/// [`authorization_refusal`]) the ledger is as it was. Where it is granted,
/// every named ticket is bound to `transfer_key` until `now + ttl_seconds`,
/// and the authorization records how many tickets were named: a ticket that
/// is named twice counts once.
pub fn authorize_ticket_transfer(
    ledger: &mut Ledger,
    wallets: &Vec<Wallet>,
    sender_user_id: u128,
    ticket_ids: &Vec<u128>,
    ttl_seconds: u32,
    now: i64,
    transfer_key: u128,
) -> (r: Result<TransferAuthorization, BusinessError>)
    ensures
        match r {
            Err(e) => authorization_refusal(
                old(ledger)@,
                wallets@,
                sender_user_id,
                ticket_ids@,
                ttl_seconds,
                now,
                transfer_key,
            ) == Some(e) && final(ledger)@ == old(ledger)@,
            Ok(auth) => authorization_refusal(
                old(ledger)@,
                wallets@,
                sender_user_id,
                ticket_ids@,
                ttl_seconds,
                now,
                transfer_key,
            ) is None && auth == (TransferAuthorization {
                transfer_key,
                sender_user_id,
                num_tickets: owned_before(
                    old(ledger)@,
                    ticket_ids@,
                    wallets@[first(wallets@, Lookup::DefaultOf(sender_user_id))->0].id,
                    old(ledger)@.len() as int,
                ) as u64,
                issued_at: now,
                ttl_seconds,
            }) && final(ledger)@ == offered(
                old(ledger)@,
                ticket_ids@,
                wallets@[first(wallets@, Lookup::DefaultOf(sender_user_id))->0].id,
                transfer_key,
                (now + ttl_seconds) as i64,
            ),
        },
        old(ledger).wf() ==> final(ledger).wf(),
{
    let ghost s = ledger@;
    let wallet_id = match position(wallets, &Lookup::DefaultOf(sender_user_id)) {
        None => {
            return Err(BusinessError::NotOwner);
        },
        Some(w) => wallets[w].id,
    };
    let mut k: usize = 0;
    while k < ticket_ids.len()
        invariant
            k <= ticket_ids.len(),
            ledger@ == s,
            s == old(ledger)@,
            first(wallets@, Lookup::DefaultOf(sender_user_id)) matches Some(w) && wallets@[w].id
                == wallet_id,
            forall|j: int|
                0 <= j < k ==> count(
                    s,
                    Selector::OwnedTicket { id: #[trigger] ticket_ids@[j], wallet_id },
                ) != 0,
        decreases ticket_ids.len() - k,
    {
        if ledger.count(&Selector::OwnedTicket { id: ticket_ids[k], wallet_id }) == 0 {
            assert(count(s, Selector::OwnedTicket { id: ticket_ids@[k as int], wallet_id }) == 0);
            return Err(BusinessError::NotOwner);
        }
        k += 1;
    }
    let expiry = match now.checked_add(ttl_seconds as i64) {
        None => {
            return Err(BusinessError::PersistenceError);
        },
        Some(e) => e,
    };
    if ledger.count(&Selector::Keyed { transfer_key }) > 0 {
        return Err(BusinessError::PersistenceError);
    }
    let ch = Change::Offer { transfer_key, expiry };
    let n = ledger.len();
    let mut k: usize = 0;
    while k < ticket_ids.len()
        invariant
            k <= ticket_ids.len(),
            n == s.len(),
            ch == (Change::Offer { transfer_key, expiry }),
            ledger@ == offered(s, ticket_ids@.take(k as int), wallet_id, transfer_key, expiry),
            ledger_wf(s) ==> ledger_wf(ledger@),
        decreases ticket_ids.len() - k,
    {
        let ghost cur = ledger@;
        let sel = Selector::OwnedTicket { id: ticket_ids[k], wallet_id };
        ledger.rewrite(&sel, n, ch);
        proof {
            let ids0 = ticket_ids@.take(k as int);
            let ids1 = ticket_ids@.take(k + 1);
            assert(ids1 == ids0.push(ticket_ids@[k as int]));
            assert forall|i: int| 0 <= i < s.len() implies #[trigger] ledger@[i] == offered(
                s,
                ids1,
                wallet_id,
                transfer_key,
                expiry,
            )[i] by {
                lemma_count_bounds(cur, sel, 0, i);
                assert(cur[i] == if owned_among(s[i], ids0, wallet_id) {
                    changed(s[i], ch)
                } else {
                    s[i]
                });
                assert(selects(sel, cur[i]) == selects(sel, s[i]));
                assert(ledger@[i] == rewritten(cur, sel, n as int, ch)[i]);
                assert(owned_among(s[i], ids1, wallet_id) <==> owned_among(s[i], ids0, wallet_id)
                    || selects(sel, s[i])) by {
                    if ids1.contains(s[i].id) {
                        let j = choose|j: int| 0 <= j < ids1.len() && ids1[j] == s[i].id;
                        if j < k {
                            assert(ids0[j] == s[i].id);
                        }
                    }
                    if ids0.contains(s[i].id) {
                        let j = choose|j: int| 0 <= j < ids0.len() && ids0[j] == s[i].id;
                        assert(ids1[j] == s[i].id);
                    }
                    if selects(sel, s[i]) {
                        assert(ids1[k as int] == s[i].id);
                    }
                }
            }
            assert(ledger@ =~= offered(s, ids1, wallet_id, transfer_key, expiry));
        }
        k += 1;
    }
    proof {
        assert(ticket_ids@.take(ticket_ids@.len() as int) == ticket_ids@);
        lemma_keyed_are_offered(s, ticket_ids@, wallet_id, transfer_key, expiry, s.len() as int);
    }
    let num_tickets = ledger.count(&Selector::Keyed { transfer_key });
    Ok(
        TransferAuthorization {
            transfer_key,
            sender_user_id,
            num_tickets: num_tickets as u64,
            issued_at: now,
            ttl_seconds,
        },
    )
}

/// The selector of the tickets that are bound to the authorization in the
/// sender's wallet and whose binding has not run out at `now`.
pub open spec fn bound(auth: TransferAuthorization, sender_wallet_id: u128, now: i64) -> Selector {
    Selector::Bound { transfer_key: auth.transfer_key, wallet_id: sender_wallet_id, now }
}

/// Why a receipt is refused, if it is: the authorization has run out
/// (`AuthorizationExpired`), or it claims another number of tickets than are
/// bound to it (`CountMismatch`).
pub open spec fn receipt_refusal(
    s: Seq<TicketInstance>,
    auth: TransferAuthorization,
    sender_wallet_id: u128,
    now: i64,
) -> Option<BusinessError> {
    if now > auth.issued_at + auth.ttl_seconds {
        Some(BusinessError::AuthorizationExpired)
    } else if count(s, bound(auth, sender_wallet_id, now)) != auth.num_tickets {
        Some(BusinessError::CountMismatch)
    } else {
        None
    }
}

/// Redeems a transfer authorization: every ticket bound to it in the
/// sender's wallet moves to the receiver's wallet and loses its binding, so
/// that the authorization cannot be used again.
///
/// All or nothing: where the receipt is refused (see [`receipt_refusal`])
/// the ledger is as it was. Returns the tickets that moved.
pub fn receive_ticket_transfer(
    ledger: &mut Ledger,
    auth: TransferAuthorization,
    sender_wallet: &Wallet,
    receiver_wallet_id: u128,
    now: i64,
) -> (r: Result<Vec<TicketInstance>, BusinessError>)
    ensures
        match r {
            Err(e) => receipt_refusal(old(ledger)@, auth, sender_wallet.id, now) == Some(e) && final(ledger)@ == old(ledger)@,
            Ok(out) => receipt_refusal(old(ledger)@, auth, sender_wallet.id, now) is None && final(ledger)@ == rewritten(
                old(ledger)@,
                bound(auth, sender_wallet.id, now),
                old(ledger)@.len() as int,
                Change::Handover { wallet_id: receiver_wallet_id },
            ) && out@ == taken(
                old(ledger)@,
                bound(auth, sender_wallet.id, now),
                old(ledger)@.len() as int,
                Change::Handover { wallet_id: receiver_wallet_id },
            ) && out@.len() == auth.num_tickets,
        },
        old(ledger).wf() ==> final(ledger).wf(),
{
    let ghost s = ledger@;
    if now as i128 > auth.issued_at as i128 + auth.ttl_seconds as i128 {
        return Err(BusinessError::AuthorizationExpired);
    }
    let sel = Selector::Bound {
        transfer_key: auth.transfer_key,
        wallet_id: sender_wallet.id,
        now,
    };
    let n = ledger.count(&sel);
    if n as u64 != auth.num_tickets {
        return Err(BusinessError::CountMismatch);
    }
    let len = ledger.len();
    let out = ledger.rewrite(&sel, len, Change::Handover { wallet_id: receiver_wallet_id });
    proof {
        lemma_taken_len(
            s,
            sel,
            len as int,
            Change::Handover { wallet_id: receiver_wallet_id },
            s.len() as int,
        );
        lemma_count_bounds(s, sel, 0, s.len() as int);
    }
    Ok(out)
}

/// How many of the first `n` instances are purchased tickets of the wallet
/// with an id among `ids`.
pub open spec fn owned_before(s: Seq<TicketInstance>, ids: Seq<u128>, wallet_id: u128, n: int) -> nat
    decreases n,
{
    if n <= 0 {
        0
    } else {
        owned_before(s, ids, wallet_id, n - 1) + if owned_among(s[n - 1], ids, wallet_id) {
            1nat
        } else {
            0nat
        }
    }
}

/// In a valid ledger at most one instance has a given id.
pub proof fn lemma_one_per_id(s: Seq<TicketInstance>, id: u128, wallet_id: u128, n: int)
    requires
        ledger_wf(s),
        0 <= n <= s.len(),
    ensures
        count_before(s, Selector::OwnedTicket { id, wallet_id }, n) <= 1,
        count_before(s, Selector::OwnedTicket { id, wallet_id }, n) == 1 ==> exists|j: int|
            0 <= j < n && (#[trigger] s[j]).id == id,
    decreases n,
{
    if n > 0 {
        lemma_one_per_id(s, id, wallet_id, n - 1);
        let sel = Selector::OwnedTicket { id, wallet_id };
        if selects(sel, s[n - 1]) {
            if count_before(s, sel, n - 1) == 1 {
                let j = choose|j: int| 0 <= j < n - 1 && (#[trigger] s[j]).id == id;
                assert(s[j].id != s[n - 1].id);
            }
            assert(s[n - 1].id == id);
        } else if count_before(s, sel, n - 1) == 1 {
            let j = choose|j: int| 0 <= j < n - 1 && (#[trigger] s[j]).id == id;
            assert(0 <= j < n && s[j].id == id);
        }
    }
}

/// One more id, not among the others, adds the tickets of that id.
pub proof fn lemma_owned_one_more(
    s: Seq<TicketInstance>,
    ids: Seq<u128>,
    id: u128,
    wallet_id: u128,
    n: int,
)
    requires
        !ids.contains(id),
        0 <= n <= s.len(),
    ensures
        owned_before(s, ids.push(id), wallet_id, n) == owned_before(s, ids, wallet_id, n)
            + count_before(s, Selector::OwnedTicket { id, wallet_id }, n),
    decreases n,
{
    if n > 0 {
        lemma_owned_one_more(s, ids, id, wallet_id, n - 1);
        let t = s[n - 1];
        let more = ids.push(id);
        if ids.contains(t.id) {
            let j = choose|j: int| 0 <= j < ids.len() && ids[j] == t.id;
            assert(more[j] == t.id);
        }
        if t.id == id {
            assert(more[ids.len() as int] == id);
        }
        if more.contains(t.id) {
            let j = choose|j: int| 0 <= j < more.len() && more[j] == t.id;
            if j < ids.len() {
                assert(ids[j] == t.id);
            }
        }
    }
}

/// Ids that differ from each other and each name a purchased ticket of the
/// wallet name as many tickets as there are ids.
pub proof fn lemma_owned_all(s: Seq<TicketInstance>, ids: Seq<u128>, wallet_id: u128)
    requires
        ledger_wf(s),
        ids.no_duplicates(),
        forall|k: int|
            0 <= k < ids.len() ==> count(
                s,
                Selector::OwnedTicket { id: #[trigger] ids[k], wallet_id },
            ) > 0,
    ensures
        owned_before(s, ids, wallet_id, s.len() as int) == ids.len(),
    decreases ids.len(),
{
    if ids.len() == 0 {
        lemma_owned_none(s, ids, wallet_id, s.len() as int);
    } else {
        let head = ids.drop_last();
        let id = ids.last();
        assert(ids == head.push(id));
        assert(!head.contains(id)) by {
            if head.contains(id) {
                let j = choose|j: int| 0 <= j < head.len() && head[j] == id;
                assert(ids[j] == ids[ids.len() - 1]);
            }
        }
        assert forall|k: int| 0 <= k < head.len() implies count(
            s,
            Selector::OwnedTicket { id: #[trigger] head[k], wallet_id },
        ) > 0 by {
            assert(head[k] == ids[k]);
        }
        lemma_owned_all(s, head, wallet_id);
        lemma_owned_one_more(s, head, id, wallet_id, s.len() as int);
        lemma_one_per_id(s, id, wallet_id, s.len() as int);
        assert(ids[ids.len() - 1] == id);
    }
}

/// No ids name no tickets.
pub proof fn lemma_owned_none(s: Seq<TicketInstance>, ids: Seq<u128>, wallet_id: u128, n: int)
    requires
        ids.len() == 0,
    ensures
        owned_before(s, ids, wallet_id, n) == 0,
    decreases n,
{
    if n > 0 {
        lemma_owned_none(s, ids, wallet_id, n - 1);
    }
}

/// After an authorization with a fresh key, the tickets bound to the key
/// are the tickets that were named.
pub proof fn lemma_bound_are_offered(
    s: Seq<TicketInstance>,
    ids: Seq<u128>,
    wallet_id: u128,
    transfer_key: u128,
    expiry: i64,
    now: i64,
    n: int,
)
    requires
        count(s, Selector::Keyed { transfer_key }) == 0,
        now <= expiry,
        0 <= n <= s.len(),
    ensures
        count_before(
            offered(s, ids, wallet_id, transfer_key, expiry),
            Selector::Bound { transfer_key, wallet_id, now },
            n,
        ) == owned_before(s, ids, wallet_id, n),
    decreases n,
{
    if n > 0 {
        lemma_bound_are_offered(s, ids, wallet_id, transfer_key, expiry, now, n - 1);
        if s[n - 1].transfer_key == Some(transfer_key) {
            lemma_count_positive(s, Selector::Keyed { transfer_key }, n - 1);
        }
    }
}

/// After an authorization with a fresh key, the tickets that carry the key
/// are the tickets that were named.
pub proof fn lemma_keyed_are_offered(
    s: Seq<TicketInstance>,
    ids: Seq<u128>,
    wallet_id: u128,
    transfer_key: u128,
    expiry: i64,
    n: int,
)
    requires
        count(s, Selector::Keyed { transfer_key }) == 0,
        0 <= n <= s.len(),
    ensures
        count_before(
            offered(s, ids, wallet_id, transfer_key, expiry),
            Selector::Keyed { transfer_key },
            n,
        ) == owned_before(s, ids, wallet_id, n),
    decreases n,
{
    if n > 0 {
        lemma_keyed_are_offered(s, ids, wallet_id, transfer_key, expiry, n - 1);
        if s[n - 1].transfer_key == Some(transfer_key) {
            lemma_count_positive(s, Selector::Keyed { transfer_key }, n - 1);
        }
    }
}

/// Transfer count integrity. Let an authorization be issued for some
/// tickets, and let it be presented, before it has run out, with whatever
/// count. Then as many tickets are bound to it as it was issued for; the
/// receipt goes through if it is presented with that count, and is refused
/// with `CountMismatch` if it is presented with any other. Where the ledger
/// is valid and no ticket was named twice, that count is the number of
/// tickets that were named.
pub proof fn law_transfer_count_integrity(
    s: Seq<TicketInstance>,
    wallets: Seq<Wallet>,
    sender_user_id: u128,
    ids: Seq<u128>,
    ttl_seconds: u32,
    issued_at: i64,
    transfer_key: u128,
    presented_count: u64,
    now: i64,
)
    requires
        authorization_refusal(s, wallets, sender_user_id, ids, ttl_seconds, issued_at, transfer_key)
            is None,
        s.len() <= u64::MAX,
        now <= issued_at + ttl_seconds,
    ensures
        ({
            let wallet_id = wallets[first(wallets, Lookup::DefaultOf(sender_user_id))->0].id;
            let issued = TransferAuthorization {
                transfer_key,
                sender_user_id,
                num_tickets: owned_before(s, ids, wallet_id, s.len() as int) as u64,
                issued_at,
                ttl_seconds,
            };
            let presented = TransferAuthorization { num_tickets: presented_count, ..issued };
            let after = offered(s, ids, wallet_id, transfer_key, (issued_at + ttl_seconds) as i64);
            &&& count(after, bound(presented, wallet_id, now)) == issued.num_tickets
            &&& receipt_refusal(after, presented, wallet_id, now) == if presented_count
                == issued.num_tickets {
                None
            } else {
                Some(BusinessError::CountMismatch)
            }
            &&& ledger_wf(s) && ids.no_duplicates() ==> issued.num_tickets == ids.len()
        }),
{
    let wallet_id = wallets[first(wallets, Lookup::DefaultOf(sender_user_id))->0].id;
    let expiry = (issued_at + ttl_seconds) as i64;
    lemma_bound_are_offered(s, ids, wallet_id, transfer_key, expiry, now, s.len() as int);
    lemma_owned_bounds(s, ids, wallet_id, s.len() as int);
    if ledger_wf(s) && ids.no_duplicates() {
        assert forall|k: int| 0 <= k < ids.len() implies count(
            s,
            Selector::OwnedTicket { id: #[trigger] ids[k], wallet_id },
        ) > 0 by {}
        lemma_owned_all(s, ids, wallet_id);
    }
}

/// No more tickets are named than are looked at.
pub proof fn lemma_owned_bounds(s: Seq<TicketInstance>, ids: Seq<u128>, wallet_id: u128, n: int)
    requires
        0 <= n,
    ensures
        owned_before(s, ids, wallet_id, n) <= n,
    decreases n,
{
    if n > 0 {
        lemma_owned_bounds(s, ids, wallet_id, n - 1);
    }
}

/// Single use. Once a receipt has gone through, nothing in the sender's
/// wallet is bound to the authorization any more, then or later: presented
/// again it is refused, with `CountMismatch` while its time has not run out.
pub proof fn law_single_use(
    s: Seq<TicketInstance>,
    auth: TransferAuthorization,
    sender_wallet_id: u128,
    receiver_wallet_id: u128,
    now: i64,
    later: i64,
)
    requires
        receipt_refusal(s, auth, sender_wallet_id, now) is None,
        auth.num_tickets > 0,
        now <= later,
    ensures
        ({
            let after = rewritten(
                s,
                bound(auth, sender_wallet_id, now),
                s.len() as int,
                Change::Handover { wallet_id: receiver_wallet_id },
            );
            &&& count(after, bound(auth, sender_wallet_id, later)) == 0
            &&& receipt_refusal(after, auth, sender_wallet_id, later) is Some
            &&& later <= auth.issued_at + auth.ttl_seconds ==> receipt_refusal(
                after,
                auth,
                sender_wallet_id,
                later,
            ) == Some(BusinessError::CountMismatch)
        }),
{
    let after = rewritten(
        s,
        bound(auth, sender_wallet_id, now),
        s.len() as int,
        Change::Handover { wallet_id: receiver_wallet_id },
    );
    lemma_none_bound(s, auth, sender_wallet_id, receiver_wallet_id, now, later, s.len() as int);
}

/// After a receipt, none of the first `n` instances is bound to the
/// authorization in the sender's wallet.
pub proof fn lemma_none_bound(
    s: Seq<TicketInstance>,
    auth: TransferAuthorization,
    sender_wallet_id: u128,
    receiver_wallet_id: u128,
    now: i64,
    later: i64,
    n: int,
)
    requires
        now <= later,
        0 <= n <= s.len(),
    ensures
        count_before(
            rewritten(
                s,
                bound(auth, sender_wallet_id, now),
                s.len() as int,
                Change::Handover { wallet_id: receiver_wallet_id },
            ),
            bound(auth, sender_wallet_id, later),
            n,
        ) == 0,
    decreases n,
{
    if n > 0 {
        lemma_none_bound(s, auth, sender_wallet_id, receiver_wallet_id, now, later, n - 1);
        lemma_count_bounds(s, bound(auth, sender_wallet_id, now), 0, n - 1);
    }
}

/// An authorization is refused with `AuthorizationExpired` at every instant
/// after its time has run out, whatever is bound to it and whatever count
/// it is presented with.
pub proof fn law_expired_is_refused(
    s: Seq<TicketInstance>,
    auth: TransferAuthorization,
    sender_wallet_id: u128,
    now: i64,
)
    requires
        now > auth.issued_at + auth.ttl_seconds,
    ensures
        receipt_refusal(s, auth, sender_wallet_id, now) == Some(BusinessError::AuthorizationExpired),
{
}

/// Transfer expiry. An authorization that was issued at an instant to live
/// for no time at all is refused with `AuthorizationExpired` at every later
/// instant.
pub proof fn law_transfer_expiry(
    s: Seq<TicketInstance>,
    auth: TransferAuthorization,
    sender_wallet_id: u128,
    now: i64,
)
    requires
        auth.ttl_seconds == 0,
        now > auth.issued_at,
    ensures
        receipt_refusal(s, auth, sender_wallet_id, now) == Some(BusinessError::AuthorizationExpired),
{
}

/// The purchased tickets in the default wallet of an account, in ledger
/// order. `NoResults` exactly when the account has no default wallet.
pub fn find_for_user(ledger: &Ledger, wallets: &Vec<Wallet>, user_id: u128) -> (r: Result<
    Vec<TicketInstance>,
    BusinessError,
>)
    ensures
        match first(wallets@, Lookup::DefaultOf(user_id)) {
            None => r == Err::<Vec<TicketInstance>, BusinessError>(BusinessError::NoResults),
            Some(w) => r matches Ok(tickets) && tickets@ == matching(
                ledger@,
                Selector::InWallet { wallet_id: wallets@[w].id },
            ),
        },
{
    match position(wallets, &Lookup::DefaultOf(user_id)) {
        None => Err(BusinessError::NoResults),
        Some(w) => Ok(ledger.select(&Selector::InWallet { wallet_id: wallets[w].id })),
    }
}

/// The place of the first order among the first `n` that has an item with
/// this id.
pub open spec fn order_before(orders: Seq<Order>, item_id: u128, n: int) -> Option<int>
    decreases n,
{
    if n <= 0 {
        None
    } else {
        match order_before(orders, item_id, n - 1) {
            Some(i) => Some(i),
            None => if first(orders[n - 1].items@, Lookup::Id(item_id)) is Some {
                Some(n - 1)
            } else {
                None
            },
        }
    }
}

/// The place of the first order that has an item with this id.
pub open spec fn order_of(orders: Seq<Order>, item_id: u128) -> Option<int> {
    order_before(orders, item_id, orders.len() as int)
}

/// An order found among the first is the order found among all, and what
/// is found is in range.
pub proof fn lemma_order_stays(orders: Seq<Order>, item_id: u128, m: int, n: int)
    requires
        0 <= m <= n,
    ensures
        order_before(orders, item_id, m) is Some ==> order_before(orders, item_id, n)
            == order_before(orders, item_id, m),
        order_before(orders, item_id, n) matches Some(i) ==> 0 <= i < n,
    decreases n,
{
    if n > m {
        lemma_order_stays(orders, item_id, m, n - 1);
    } else if n > 0 {
        lemma_order_stays(orders, item_id, n - 1, n - 1);
    }
}

/// The place of the first order that has an item with this id.
pub fn find_order_of(orders: &Vec<Order>, item_id: u128) -> (r: Option<usize>)
    ensures
        match r {
            Some(i) => order_of(orders@, item_id) == Some(i as int) && i < orders.len(),
            None => order_of(orders@, item_id) is None,
        },
{
    let mut i: usize = 0;
    while i < orders.len()
        invariant
            i <= orders.len(),
            order_before(orders@, item_id, i as int) is None,
        decreases orders.len() - i,
    {
        if position(&orders[i].items, &Lookup::Id(item_id)).is_some() {
            proof {
                lemma_order_stays(orders@, item_id, i + 1, orders.len() as int);
            }
            return Some(i);
        }
        i += 1;
    }
    None
}

/// Whether the ticket has passed on from its buyer: `NoResults` where there
/// is no such ticket or its wallet is unknown; no where no order holds the
/// ticket; else whether the wallet that the ticket is in belongs to another
/// account than the order that holds it.
pub open spec fn transferred(store: Store, ticket_id: u128) -> Result<bool, BusinessError> {
    match first(store.ledger@, Lookup::Id(ticket_id)) {
        None => Err(BusinessError::NoResults),
        Some(t) => match store.ledger@[t].order_item_id {
            None => Ok(false),
            Some(item_id) => match order_of(store.orders@, item_id) {
                None => Ok(false),
                Some(o) => match first(store.wallets@, Lookup::Id(store.ledger@[t].wallet_id)) {
                    None => Err(BusinessError::NoResults),
                    Some(w) => Ok(store.wallets@[w].owner_id != store.orders@[o].user_id),
                },
            },
        },
    }
}

/// Whether the ticket has passed on from its buyer: see [`transferred`].
pub fn was_transferred(store: &Store, ticket_id: u128) -> (r: Result<bool, BusinessError>)
    ensures
        r == transferred(*store, ticket_id),
{
    let tickets = store.ledger.tickets();
    let t = match position(tickets, &Lookup::Id(ticket_id)) {
        None => {
            return Err(BusinessError::NoResults);
        },
        Some(t) => t,
    };
    let item_id = match tickets[t].order_item_id {
        None => {
            return Ok(false);
        },
        Some(item_id) => item_id,
    };
    let o = match find_order_of(&store.orders, item_id) {
        None => {
            return Ok(false);
        },
        Some(o) => o,
    };
    match position(&store.wallets, &Lookup::Id(tickets[t].wallet_id)) {
        None => Err(BusinessError::NoResults),
        Some(w) => Ok(store.wallets[w].owner_id != store.orders[o].user_id),
    }
}

/// A ticket as it is shown to its holder before the doors open.
#[derive(Clone, Debug, PartialEq, Eq)]
pub struct RedeemableTicket {
    pub id: u128,
    pub ticket_type_id: u128,
    /// The account that the ticket was bought for.
    pub user_id: Option<u128>,
    pub order_id: Option<u128>,
    pub status: TicketInstanceStatus,
    /// The key that redeems the ticket, once it is time to show it.
    pub redeem_key: Option<String>,
}

/// Whether the keys that redeem tickets of this type are shown at `now`:
/// the type is listed with a date for it, and the date has come.
pub open spec fn keys_shown(ticket_types: Seq<TicketType>, ticket_type_id: u128, now: i64) -> bool {
    first(ticket_types, Lookup::Id(ticket_type_id)) matches Some(p) && (
    ticket_types[p].redeem_date matches Some(date) && date <= now)
}

/// The ticket as it is shown to its holder at `now`: with the order that
/// holds it and the account that it was bought for, which is the one that the
/// order was made on behalf of or else the order's owner; and with the key
/// that redeems it only once it is time to show the keys of its type.
/// `NoResults` where there is no such ticket.
pub open spec fn shown(store: Store, ticket_id: u128, now: i64) -> Result<
    RedeemableTicket,
    BusinessError,
> {
    match first(store.ledger@, Lookup::Id(ticket_id)) {
        None => Err(BusinessError::NoResults),
        Some(t) => {
            let ticket = store.ledger@[t];
            let order = match ticket.order_item_id {
                None => None,
                Some(item_id) => order_of(store.orders@, item_id),
            };
            Ok(
                RedeemableTicket {
                    id: ticket.id,
                    ticket_type_id: ticket.ticket_type_id,
                    user_id: match order {
                        None => None,
                        Some(o) => match store.orders@[o].on_behalf_of_user_id {
                            Some(user) => Some(user),
                            None => Some(store.orders@[o].user_id),
                        },
                    },
                    order_id: match order {
                        None => None,
                        Some(o) => Some(store.orders@[o].id),
                    },
                    status: ticket.status,
                    redeem_key: if keys_shown(
                        store.catalog.ticket_types@,
                        ticket.ticket_type_id,
                        now,
                    ) {
                        ticket.redeem_key
                    } else {
                        None
                    },
                },
            )
        },
    }
}

/// Shows a ticket to its holder at `now`: see [`shown`].
pub fn show_redeemable_ticket(store: &Store, ticket_id: u128, now: i64) -> (r: Result<
    RedeemableTicket,
    BusinessError,
>)
    ensures
        r == shown(*store, ticket_id, now),
{
    let tickets = store.ledger.tickets();
    let t = match position(tickets, &Lookup::Id(ticket_id)) {
        None => {
            return Err(BusinessError::NoResults);
        },
        Some(t) => t,
    };
    let ticket = &tickets[t];
    let order = match ticket.order_item_id {
        None => None,
        Some(item_id) => find_order_of(&store.orders, item_id),
    };
    let user_id = match order {
        None => None,
        Some(o) => match store.orders[o].on_behalf_of_user_id {
            Some(user) => Some(user),
            None => Some(store.orders[o].user_id),
        },
    };
    let order_id = match order {
        None => None,
        Some(o) => Some(store.orders[o].id),
    };
    let show_key = match position(&store.catalog.ticket_types, &Lookup::Id(ticket.ticket_type_id)) {
        None => false,
        Some(p) => match store.catalog.ticket_types[p].redeem_date {
            Some(date) => date <= now,
            None => false,
        },
    };
    let redeem_key = if show_key {
        match &ticket.redeem_key {
            Some(key) => Some(key.clone()),
            None => None,
        }
    } else {
        None
    };
    Ok(
        RedeemableTicket {
            id: ticket.id,
            ticket_type_id: ticket.ticket_type_id,
            user_id,
            order_id,
            status: ticket.status,
            redeem_key,
        },
    )
}

} // verus!
