use vstd::prelude::*;

use crate::context::{Address, Ledger, Payment};
use crate::errors::ContractErrors;
use crate::node::{node_of, valid_label};
use crate::fees::{collateral_of, fee_of, lemma_fee_le_profit, MAX_AMOUNT};
use crate::offers::BuyOffer;
use crate::records::{Domain, Record, RecordKeys};
use crate::registry::{
    expired, read_result, spec_burn_record, spec_set_offer, spec_set_record, spec_take_offer,
    spec_transfer, state_wf, RegistryState,
};
use crate::store::{live, renewed, LEASE_LEDGERS};

verus! {

/// Node derivation is a function of the label and the parent alone: the same
/// pair always gives the same node.
pub proof fn lemma_node_deterministic(label1: Seq<u8>, parent1: Seq<u8>, label2: Seq<u8>, parent2: Seq<u8>)
    requires
        label1 == label2,
        parent1 == parent2,
    ensures
        node_of(label1, parent1) == node_of(label2, parent2),
{
}

/// Registering for less than the minimum duration always fails and changes
/// nothing; when no earlier check stops it, the error is the duration error.
pub proof fn lemma_short_duration_fails(
    s: RegistryState,
    signer: Address,
    now: Ledger,
    domain: Seq<u8>,
    tld: Seq<u8>,
    owner: Address,
    address: Address,
    duration: u64,
)
    requires
        s.core is Some,
        duration < s.core->0.min_duration,
    ensures
        spec_set_record(s, signer, now, domain, tld, owner, address, duration).0 is Err,
        spec_set_record(s, signer, now, domain, tld, owner, address, duration).1 == s,
        signer == owner && valid_label(domain) && s.core->0.allowed_tlds.contains(tld) && live(
            s.domains,
            node_of(domain, tld)@,
            now.sequence,
        ) is None ==> spec_set_record(s, signer, now, domain, tld, owner, address, duration).0
            == Err::<Seq<Payment>, ContractErrors>(ContractErrors::InvalidDuration),
{
}

/// A registration that succeeds is read back, at once or later while the
/// domain is neither expired nor out of its first lease, with the owner,
/// address, collateral and expiration it was made with.
pub proof fn lemma_register_then_read(
    s: RegistryState,
    signer: Address,
    now: Ledger,
    domain: Seq<u8>,
    tld: Seq<u8>,
    owner: Address,
    address: Address,
    duration: u64,
    later: Ledger,
)
    requires
        spec_set_record(s, signer, now, domain, tld, owner, address, duration).0 is Ok,
        now.sequence <= later.sequence <= now.sequence + LEASE_LEDGERS,
        later.timestamp <= now.timestamp + duration,
    ensures
        ({
            let after = spec_set_record(s, signer, now, domain, tld, owner, address, duration).1;
            let key = RecordKeys::Record(node_of(domain, tld));
            &&& read_result(after, later, key) matches Ok(Some(Record::Domain(d)))
            &&& d.node == node_of(domain, tld)
            &&& d.owner == owner
            &&& d.address == address
            &&& d.collateral == collateral_of(s.core->0.node_rate, duration, domain.len())
            &&& d.exp_date == now.timestamp + duration
            &&& d.snapshot == now.timestamp
        }),
{
}

/// After a transfer that moves the snapshot, a subdomain that was valid under
/// the old owner reads as stale, as long as it and its parent are still
/// stored and the parent has not expired.
pub proof fn lemma_transfer_stales_subdomains(
    s: RegistryState,
    signer: Address,
    now: Ledger,
    node: [u8; 32],
    to: Address,
    sub: [u8; 32],
    later: Ledger,
)
    requires
        live(s.domains, node@, now.sequence) matches Some(d) && signer == d.owner
            && now.timestamp != d.snapshot && !expired(d, later.timestamp),
        live(s.subs, sub@, now.sequence) matches Some(sd) && sd.parent == node && sd.snapshot
            == live(s.domains, node@, now.sequence)->0.snapshot,
        live(s.subs, sub@, later.sequence) is Some,
        later.sequence <= now.sequence + LEASE_LEDGERS,
    ensures
        read_result(spec_transfer(s, signer, now, RecordKeys::Record(node), to).1, later, RecordKeys::SubRecord(sub))
            == Err::<Option<Record>, ContractErrors>(ContractErrors::OutdatedSub),
{
}

/// After a transfer that moves the snapshot, an offer made under the old
/// owner cannot be settled: taking it fails as outdated.
pub proof fn lemma_transfer_stales_offers(
    s: RegistryState,
    signer: Address,
    now: Ledger,
    node: [u8; 32],
    to: Address,
    caller: Address,
    later: Ledger,
)
    requires
        live(s.domains, node@, now.sequence) matches Some(d) && signer == d.owner
            && now.timestamp != d.snapshot,
        s.offers_config is Some,
        later.sequence <= now.sequence + LEASE_LEDGERS,
        crate::registry::accepted_offer(
            s,
            later.sequence,
            to,
            caller,
            node@,
        ) matches Some(o) && crate::registry::offer_terms(o).1 == live(
            s.domains,
            node@,
            now.sequence,
        )->0.snapshot,
    ensures
        spec_take_offer(spec_transfer(s, signer, now, RecordKeys::Record(node), to).1, caller, later, caller, node).0
            == Err::<Seq<Payment>, ContractErrors>(ContractErrors::OutdatedOffer),
        spec_take_offer(spec_transfer(s, signer, now, RecordKeys::Record(node), to).1, caller, later, caller, node).1
            == spec_transfer(s, signer, now, RecordKeys::Record(node), to).1,
{
}

/// An offer placed after a transfer carries the snapshot the transfer set.
pub proof fn lemma_offer_after_transfer_is_current(
    s: RegistryState,
    signer: Address,
    now: Ledger,
    node: [u8; 32],
    to: Address,
    caller: Address,
    amount: u128,
)
    requires
        live(s.domains, node@, now.sequence) matches Some(d) && signer == d.owner,
        spec_set_offer(spec_transfer(s, signer, now, RecordKeys::Record(node), to).1, caller, now, caller, node, amount).0 is Ok,
    ensures
        ({
            let moved = spec_transfer(s, signer, now, RecordKeys::Record(node), to).1;
            let placed = spec_set_offer(moved, caller, now, caller, node, amount).1;
            &&& live(moved.domains, node@, now.sequence) matches Some(d2) && d2.snapshot == now.timestamp
            &&& caller == to ==> (live(placed.sales, node@, now.sequence) matches Some(o) && o.snapshot == now.timestamp)
            &&& caller != to ==> (live(placed.buys, node@, now.sequence) matches Some(o) && o.snapshot == now.timestamp)
        }),
{
}

/// Against an active buy offer of `x` from `a`, a bid of at most `x` from
/// another buyer `b` fails as too low and changes nothing; a bid of `x + 1`
/// succeeds, refunds `a` in full, escrows `x + 1` from `b` and records `b`'s
/// offer under the domain's snapshot.
pub proof fn lemma_outbid(
    s: RegistryState,
    now: Ledger,
    node: [u8; 32],
    a: Address,
    b: Address,
    x: u128,
    low: u128,
)
    requires
        state_wf(s),
        live(s.domains, node@, now.sequence) matches Some(d) && d.owner != b && x > d.collateral,
        live(s.buys, node@, now.sequence) matches Some(o) && o.buyer == a && o.amount == x,
        a != b,
        x < MAX_AMOUNT,
        low <= x,
    ensures
        spec_set_offer(s, b, now, b, node, low).0 == Err::<Seq<Payment>, ContractErrors>(
            ContractErrors::InvalidOfferAmount,
        ),
        spec_set_offer(s, b, now, b, node, low).1 == s,
        spec_set_offer(s, b, now, b, node, (x + 1) as u128).0 == Ok::<Seq<Payment>, ContractErrors>(
            seq![
                Payment { from: s.contract, to: a, amount: x },
                Payment { from: b, to: s.contract, amount: (x + 1) as u128 },
            ],
        ),
        ({
            let after = spec_set_offer(s, b, now, b, node, (x + 1) as u128).1;
            let d = live(s.domains, node@, now.sequence)->0;
            &&& live(after.buys, node@, now.sequence) == Some(
                BuyOffer { buyer: b, node, amount: (x + 1) as u128, snapshot: d.snapshot },
            )
            &&& live(after.domains, node@, now.sequence) == Some(d)
            &&& after.sales == s.sales
            &&& after.subs == s.subs
        }),
{
    let d = live(s.domains, node@, now.sequence)->0;
    let after = spec_set_offer(s, b, now, b, node, (x + 1) as u128).1;
    assert(after.domains == renewed(s.domains, node@, now.sequence));
}

/// Settling a current sale offer: the buyer pays the seller the price less the
/// fee and the fee taker the fee; the domain passes to the buyer, resolves to
/// them and takes a new snapshot; the sale offer is gone and the rest of the
/// domain is as it was.
pub proof fn lemma_take_sale_offer(
    s: RegistryState,
    now: Ledger,
    node: [u8; 32],
    buyer: Address,
)
    requires
        state_wf(s),
        s.offers_config is Some,
        live(s.domains, node@, now.sequence) matches Some(d) && d.owner != buyer,
        live(s.sales, node@, now.sequence) matches Some(o) && o.snapshot == live(
            s.domains,
            node@,
            now.sequence,
        )->0.snapshot && o.amount >= live(s.domains, node@, now.sequence)->0.collateral,
        (live(s.sales, node@, now.sequence)->0.amount - live(s.domains, node@, now.sequence)->0.collateral)
            * s.offers_config->0.fee <= u128::MAX,
    ensures
        ({
            let d = live(s.domains, node@, now.sequence)->0;
            let o = live(s.sales, node@, now.sequence)->0;
            let cfg = s.offers_config->0;
            let f = fee_of(o.amount - d.collateral, cfg.fee as int);
            let (r, after) = spec_take_offer(s, buyer, now, buyer, node);
            &&& 0 <= f <= o.amount - d.collateral
            &&& r == Ok::<Seq<Payment>, ContractErrors>(
                seq![
                    Payment { from: buyer, to: d.owner, amount: (o.amount - f) as u128 },
                    Payment { from: buyer, to: cfg.fee_taker, amount: f as u128 },
                ],
            )
            &&& live(after.domains, node@, now.sequence) == Some(
                Domain { owner: buyer, address: buyer, snapshot: now.timestamp, ..d },
            )
            &&& live(after.sales, node@, now.sequence) is None
            &&& after.buys == s.buys
        }),
{
    let d = live(s.domains, node@, now.sequence)->0;
    let o = live(s.sales, node@, now.sequence)->0;
    let cfg = s.offers_config->0;
    let profit = o.amount - d.collateral;
    lemma_fee_le_profit(profit, cfg.fee as int);
}

/// Burning a domain returns exactly its collateral to its owner, and the node
/// is free: registering the same name again is not refused as taken, and when
/// nothing else stops it, it succeeds with the new owner's terms.
pub proof fn lemma_burn_releases_collateral(
    s: RegistryState,
    now: Ledger,
    node: [u8; 32],
    domain: Seq<u8>,
    tld: Seq<u8>,
    owner: Address,
    next_owner: Address,
    address: Address,
    duration: u64,
    later: Ledger,
)
    requires
        live(s.domains, node@, now.sequence) matches Some(d) && d.owner == owner,
        node_of(domain, tld) == node,
    ensures
        spec_burn_record(s, owner, now, RecordKeys::Record(node)).0 == Ok::<Seq<Payment>, ContractErrors>(
            seq![Payment { from: s.contract, to: owner, amount: live(s.domains, node@, now.sequence)->0.collateral }],
        ),
        live(spec_burn_record(s, owner, now, RecordKeys::Record(node)).1.domains, node@, later.sequence) is None,
        spec_set_record(
            spec_burn_record(s, owner, now, RecordKeys::Record(node)).1,
            next_owner,
            later,
            domain,
            tld,
            next_owner,
            address,
            duration,
        ).0 != Err::<Seq<Payment>, ContractErrors>(ContractErrors::RecordAlreadyExist),
        ({
            let freed = spec_burn_record(s, owner, now, RecordKeys::Record(node)).1;
            let c = collateral_of(s.core->0.node_rate, duration, domain.len());
            let (r, after) = spec_set_record(freed, next_owner, later, domain, tld, next_owner, address, duration);
            s.core is Some && valid_label(domain) && s.core->0.allowed_tlds.contains(tld)
                && duration >= s.core->0.min_duration && later.timestamp + duration <= u64::MAX
                && c <= MAX_AMOUNT ==> {
                &&& r == Ok::<Seq<Payment>, ContractErrors>(
                    seq![Payment { from: next_owner, to: s.contract, amount: c as u128 }],
                )
                &&& live(after.domains, node@, later.sequence) == Some(
                    Domain {
                        node,
                        owner: next_owner,
                        address,
                        exp_date: (later.timestamp + duration) as u64,
                        collateral: c as u128,
                        snapshot: later.timestamp,
                    },
                )
            }
        }),
{
}

} // verus!
