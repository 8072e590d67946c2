use vstd::prelude::*;

use crate::config::{CoreData, CoreDataKeys, CorePolicy, OffersConfig};
use crate::context::{Address, Ledger, Payment};
use crate::errors::ContractErrors;
use crate::fees::{
    collateral, collateral_of, fee, fee_of, FEE_DENOMINATOR, MAX_AMOUNT,
};
use crate::node::{generate_node, node_of, same_bytes, valid_label, validate_domain};
use crate::offers::{BuyOffer, Offer, OffersDataKeys, SaleOffer};
use crate::records::{Domain, Record, RecordKeys, SubDomain};
use crate::store::{live, renewed, stored, Entry, Table};

verus! {

/// The registry as the contracts speak of it: configuration and the four key
/// spaces of durable storage.
pub struct RegistryState {
    /// The registry's own identity: it holds escrowed funds.
    pub contract: Address,
    pub core: Option<CorePolicy>,
    pub offers_config: Option<OffersConfig>,
    pub domains: Map<Seq<u8>, Entry<Domain>>,
    pub subs: Map<Seq<u8>, Entry<SubDomain>>,
    pub buys: Map<Seq<u8>, Entry<BuyOffer>>,
    pub sales: Map<Seq<u8>, Entry<SaleOffer>>,
}

/// The outcome of an operation that moves funds: the payments to make, or why
/// it did not proceed.
pub type Outcome = Result<Seq<Payment>, ContractErrors>;

pub open spec fn fail(s: RegistryState, e: ContractErrors) -> (Outcome, RegistryState) {
    (Err(e), s)
}

/// A configured fee never exceeds one hundred percent; every record and offer
/// is kept under its own node; offers stay within what the asset can move.
pub open spec fn state_wf(s: RegistryState) -> bool {
    &&& s.offers_config matches Some(c) ==> c.fee <= FEE_DENOMINATOR
    &&& forall|n: Seq<u8>| #[trigger] s.domains.contains_key(n) ==> s.domains[n].value.node@ == n
    &&& forall|n: Seq<u8>| #[trigger] s.subs.contains_key(n) ==> s.subs[n].value.node@ == n
    &&& forall|n: Seq<u8>|
        #[trigger] s.buys.contains_key(n) ==> s.buys[n].value.node@ == n && s.buys[n].value.amount
            <= MAX_AMOUNT
    &&& forall|n: Seq<u8>|
        #[trigger] s.sales.contains_key(n) ==> s.sales[n].value.node@ == n
            && s.sales[n].value.amount <= MAX_AMOUNT
}

/// Whether the domain is past its expiration at time `t`.
pub open spec fn expired(d: Domain, t: u64) -> bool {
    d.exp_date < t
}

pub open spec fn spec_init(
    s: RegistryState,
    adm: Address,
    node_rate: u128,
    col_asset: Address,
    min_duration: u64,
    allowed_tlds: Seq<Seq<u8>>,
) -> (Result<(), ContractErrors>, RegistryState) {
    if s.core is Some {
        (Err(ContractErrors::AlreadyStarted), s)
    } else {
        (
            Ok(()),
            RegistryState {
                core: Some(CorePolicy { adm, node_rate, col_asset, min_duration, allowed_tlds }),
                ..s
            },
        )
    }
}

pub open spec fn spec_set_offers_config(
    s: RegistryState,
    signer: Address,
    fee_taker: Address,
    fee: u128,
) -> (Result<(), ContractErrors>, RegistryState) {
    if s.core is None {
        (Err(ContractErrors::NotInitialized), s)
    } else if signer != s.core->0.adm {
        (Err(ContractErrors::NotAuthorized), s)
    } else if fee > FEE_DENOMINATOR {
        (Err(ContractErrors::InvalidFeeRate), s)
    } else {
        (Ok(()), RegistryState { offers_config: Some(OffersConfig { fee_taker, fee }), ..s })
    }
}

pub open spec fn spec_update_tlds(s: RegistryState, signer: Address, tlds: Seq<Seq<u8>>) -> (
    Result<(), ContractErrors>,
    RegistryState,
) {
    if s.core is None {
        (Err(ContractErrors::NotInitialized), s)
    } else if signer != s.core->0.adm {
        (Err(ContractErrors::NotAuthorized), s)
    } else {
        (
            Ok(()),
            RegistryState { core: Some(CorePolicy { allowed_tlds: tlds, ..s.core->0 }), ..s },
        )
    }
}

/// Registering `domain` under the suffix `tld`.
pub open spec fn spec_set_record(
    s: RegistryState,
    signer: Address,
    now: Ledger,
    domain: Seq<u8>,
    tld: Seq<u8>,
    owner: Address,
    address: Address,
    duration: u64,
) -> (Outcome, RegistryState) {
    let n = node_of(domain, tld);
    let core = s.core->0;
    let c = collateral_of(core.node_rate, duration, domain.len());
    if signer != owner {
        fail(s, ContractErrors::NotAuthorized)
    } else if !valid_label(domain) {
        fail(s, ContractErrors::InvalidDomain)
    } else if s.core is None {
        fail(s, ContractErrors::NotInitialized)
    } else if !core.allowed_tlds.contains(tld) {
        fail(s, ContractErrors::UnsupportedTLD)
    } else if live(s.domains, n@, now.sequence) is Some {
        fail(s, ContractErrors::RecordAlreadyExist)
    } else if duration < core.min_duration || now.timestamp + duration > u64::MAX {
        fail(s, ContractErrors::InvalidDuration)
    } else if c > MAX_AMOUNT {
        fail(s, ContractErrors::AmountTooLarge)
    } else {
        let d = Domain {
            node: n,
            owner,
            address,
            exp_date: (now.timestamp + duration) as u64,
            collateral: c as u128,
            snapshot: now.timestamp,
        };
        (
            Ok(seq![Payment { from: owner, to: s.contract, amount: c as u128 }]),
            RegistryState { domains: stored(s.domains, n, d, now.sequence), ..s },
        )
    }
}

pub open spec fn spec_update_address(
    s: RegistryState,
    signer: Address,
    now: Ledger,
    key: RecordKeys,
    address: Address,
) -> (Result<(), ContractErrors>, RegistryState) {
    match key {
        RecordKeys::Record(n) => match live(s.domains, n@, now.sequence) {
            None => (Err(ContractErrors::RecordDoesntExist), s),
            Some(d) => if signer != d.owner {
                (Err(ContractErrors::NotAuthorized), s)
            } else {
                (
                    Ok(()),
                    RegistryState {
                        domains: stored(s.domains, n, Domain { address, ..d }, now.sequence),
                        ..s
                    },
                )
            },
        },
        RecordKeys::SubRecord(n) => match live(s.subs, n@, now.sequence) {
            None => (Err(ContractErrors::RecordDoesntExist), s),
            Some(_) => (Err(ContractErrors::InvalidParent), s),
        },
    }
}

/// Attaching the subdomain `sub` to the domain under `parent`.
pub open spec fn spec_set_sub(
    s: RegistryState,
    signer: Address,
    now: Ledger,
    sub: Seq<u8>,
    parent: RecordKeys,
    address: Address,
) -> (Result<(), ContractErrors>, RegistryState) {
    if !valid_label(sub) {
        (Err(ContractErrors::InvalidDomain), s)
    } else {
        match parent {
            RecordKeys::SubRecord(_) => (Err(ContractErrors::InvalidParent), s),
            RecordKeys::Record(p) => match live(s.domains, p@, now.sequence) {
                None => (Err(ContractErrors::InvalidParent), s),
                Some(d) => if signer != d.owner {
                    (Err(ContractErrors::NotAuthorized), s)
                } else if expired(d, now.timestamp) {
                    (Err(ContractErrors::ExpiredDomain), s)
                } else {
                    let n = node_of(sub, p@);
                    let rec = SubDomain { node: n, parent: p, address, snapshot: d.snapshot };
                    (Ok(()), RegistryState { subs: stored(s.subs, n, rec, now.sequence), ..s })
                },
            },
        }
    }
}

/// What reading `key` returns. A domain past its expiration does not resolve;
/// a subdomain resolves only while its parent does and carries its snapshot.
pub open spec fn read_result(s: RegistryState, now: Ledger, key: RecordKeys) -> Result<
    Option<Record>,
    ContractErrors,
> {
    match key {
        RecordKeys::Record(n) => match live(s.domains, n@, now.sequence) {
            None => Ok(None),
            Some(d) => if expired(d, now.timestamp) {
                Err(ContractErrors::ExpiredDomain)
            } else {
                Ok(Some(Record::Domain(d)))
            },
        },
        RecordKeys::SubRecord(n) => match live(s.subs, n@, now.sequence) {
            None => Ok(None),
            Some(sd) => match live(s.domains, sd.parent@, now.sequence) {
                None => Err(ContractErrors::InvalidParent),
                Some(d) => if expired(d, now.timestamp) {
                    Err(ContractErrors::ExpiredDomain)
                } else if d.snapshot != sd.snapshot {
                    Err(ContractErrors::OutdatedSub)
                } else {
                    Ok(Some(Record::SubDomain(sd)))
                },
            },
        },
    }
}

/// Reading renews the lease of the record that was found, whatever the read
/// then returns.
pub open spec fn read_state(s: RegistryState, now: Ledger, key: RecordKeys) -> RegistryState {
    match key {
        RecordKeys::Record(n) => match live(s.domains, n@, now.sequence) {
            None => s,
            Some(_) => RegistryState { domains: renewed(s.domains, n@, now.sequence), ..s },
        },
        RecordKeys::SubRecord(n) => match live(s.subs, n@, now.sequence) {
            None => s,
            Some(_) => RegistryState { subs: renewed(s.subs, n@, now.sequence), ..s },
        },
    }
}

/// Handing a domain to `to`. The new snapshot makes every subdomain and offer
/// made before stale.
pub open spec fn spec_transfer(
    s: RegistryState,
    signer: Address,
    now: Ledger,
    key: RecordKeys,
    to: Address,
) -> (Result<(), ContractErrors>, RegistryState) {
    match key {
        RecordKeys::Record(n) => match live(s.domains, n@, now.sequence) {
            None => (Err(ContractErrors::RecordDoesntExist), s),
            Some(d) => if signer != d.owner {
                (Err(ContractErrors::NotAuthorized), s)
            } else {
                let moved = Domain { owner: to, snapshot: now.timestamp, ..d };
                (Ok(()), RegistryState { domains: stored(s.domains, n, moved, now.sequence), ..s })
            },
        },
        RecordKeys::SubRecord(n) => match live(s.subs, n@, now.sequence) {
            None => (Err(ContractErrors::RecordDoesntExist), s),
            Some(_) => (Err(ContractErrors::InvalidTransfer), s),
        },
    }
}

/// Removing a record. A domain's collateral goes back to its owner; a
/// subdomain is removed by its parent's owner.
pub open spec fn spec_burn_record(s: RegistryState, signer: Address, now: Ledger, key: RecordKeys) -> (
    Outcome,
    RegistryState,
) {
    match key {
        RecordKeys::Record(n) => match live(s.domains, n@, now.sequence) {
            None => fail(s, ContractErrors::RecordDoesntExist),
            Some(d) => if signer != d.owner {
                fail(s, ContractErrors::NotAuthorized)
            } else {
                (
                    Ok(seq![Payment { from: s.contract, to: d.owner, amount: d.collateral }]),
                    RegistryState { domains: s.domains.remove(n@), ..s },
                )
            },
        },
        RecordKeys::SubRecord(n) => match live(s.subs, n@, now.sequence) {
            None => fail(s, ContractErrors::RecordDoesntExist),
            Some(sd) => match live(s.domains, sd.parent@, now.sequence) {
                None => fail(s, ContractErrors::InvalidParent),
                Some(d) => if signer != d.owner {
                    fail(s, ContractErrors::NotAuthorized)
                } else {
                    (Ok(seq![]), RegistryState { subs: s.subs.remove(n@), ..s })
                },
            },
        },
    }
}

/// Placing or raising an offer on the domain `node`. Its owner sets the sale
/// offer; anyone else bids with a buy offer, which is escrowed.
pub open spec fn spec_set_offer(
    s: RegistryState,
    signer: Address,
    now: Ledger,
    caller: Address,
    node: [u8; 32],
    amount: u128,
) -> (Outcome, RegistryState) {
    let seq = now.sequence;
    if signer != caller {
        fail(s, ContractErrors::NotAuthorized)
    } else {
        match live(s.domains, node@, seq) {
            None => fail(s, ContractErrors::RecordDoesntExist),
            Some(d) => {
                let s1 = RegistryState { domains: renewed(s.domains, node@, seq), ..s };
                if d.owner == caller {
                    if amount > MAX_AMOUNT {
                        fail(s, ContractErrors::AmountTooLarge)
                    } else {
                        let offer = SaleOffer { node, amount, snapshot: d.snapshot };
                        (Ok(seq![]), RegistryState { sales: stored(s.sales, node, offer, seq), ..s1 })
                    }
                } else if amount <= d.collateral {
                    fail(s, ContractErrors::InvalidOfferAmount)
                } else if amount > MAX_AMOUNT {
                    fail(s, ContractErrors::AmountTooLarge)
                } else {
                    let offer = BuyOffer { buyer: caller, node, amount, snapshot: d.snapshot };
                    let s2 = RegistryState { buys: stored(s.buys, node, offer, seq), ..s1 };
                    match live(s.buys, node@, seq) {
                        None => (Ok(seq![Payment { from: caller, to: s.contract, amount }]), s2),
                        Some(prev) => if amount <= prev.amount {
                            fail(s, ContractErrors::InvalidOfferAmount)
                        } else if prev.buyer == caller {
                            (
                                Ok(
                                    seq![Payment { from: caller, to: s.contract, amount: (amount - prev.amount) as u128 }],
                                ),
                                s2,
                            )
                        } else {
                            (
                                Ok(
                                    seq![
                                        Payment { from: s.contract, to: prev.buyer, amount: prev.amount },
                                        Payment { from: caller, to: s.contract, amount },
                                    ],
                                ),
                                s2,
                            )
                        },
                    }
                }
            },
        }
    }
}

/// Which offer `caller` accepts on a domain owned by `owner`: the owner takes
/// the buy offer, anyone else the sale offer.
pub open spec fn accepted_offer(s: RegistryState, seq: u32, owner: Address, caller: Address, node: Seq<u8>) -> Option<Offer> {
    if owner != caller {
        match live(s.sales, node, seq) {
            Some(o) => Some(Offer::SaleOffer(o)),
            None => None,
        }
    } else {
        match live(s.buys, node, seq) {
            Some(o) => Some(Offer::BuyOffer(o)),
            None => None,
        }
    }
}

/// The amount and snapshot of an offer.
pub open spec fn offer_terms(o: Offer) -> (u128, u64) {
    match o {
        Offer::BuyOffer(b) => (b.amount, b.snapshot),
        Offer::SaleOffer(x) => (x.amount, x.snapshot),
    }
}

/// Settling the offer on `node` that `caller` may accept. The seller receives
/// the amount less the fee on the profit over the collateral; ownership and
/// resolution pass to the buyer and the snapshot moves to now.
pub open spec fn spec_take_offer(
    s: RegistryState,
    signer: Address,
    now: Ledger,
    caller: Address,
    node: [u8; 32],
) -> (Outcome, RegistryState) {
    let seq = now.sequence;
    if signer != caller {
        fail(s, ContractErrors::NotAuthorized)
    } else {
        match live(s.domains, node@, seq) {
            None => fail(s, ContractErrors::RecordDoesntExist),
            Some(d) => match accepted_offer(s, seq, d.owner, caller, node@) {
                None => fail(s, ContractErrors::OfferDoesntExist),
                Some(o) => {
                    let (amount, snapshot) = offer_terms(o);
                    let profit = amount - d.collateral;
                    if s.offers_config is None {
                        fail(s, ContractErrors::NotInitialized)
                    } else if snapshot != d.snapshot {
                        fail(s, ContractErrors::OutdatedOffer)
                    } else if amount < d.collateral {
                        fail(s, ContractErrors::InvalidOfferAmount)
                    } else if profit * s.offers_config->0.fee > u128::MAX {
                        fail(s, ContractErrors::AmountTooLarge)
                    } else {
                        let cfg = s.offers_config->0;
                        let f = fee_of(profit, cfg.fee as int) as u128;
                        let (buyer, payer) = match o {
                            Offer::BuyOffer(b) => (b.buyer, s.contract),
                            Offer::SaleOffer(_) => (caller, caller),
                        };
                        let sold = Domain {
                            owner: buyer,
                            address: buyer,
                            snapshot: now.timestamp,
                            ..d
                        };
                        let s1 = RegistryState {
                            domains: stored(s.domains, node, sold, seq),
                            ..s
                        };
                        let s2 = match o {
                            Offer::BuyOffer(_) => RegistryState { buys: s.buys.remove(node@), ..s1 },
                            Offer::SaleOffer(_) => RegistryState {
                                sales: s.sales.remove(node@),
                                ..s1
                            },
                        };
                        (
                            Ok(
                                seq![
                                    Payment { from: payer, to: d.owner, amount: (amount - f) as u128 },
                                    Payment { from: payer, to: cfg.fee_taker, amount: f },
                                ],
                            ),
                            s2,
                        )
                    }
                },
            },
        }
    }
}

/// Withdrawing an offer: a buyer gets the escrow back; the owner withdraws the
/// sale offer.
pub open spec fn spec_burn_offer(s: RegistryState, signer: Address, now: Ledger, key: OffersDataKeys) -> (
    Outcome,
    RegistryState,
) {
    let seq = now.sequence;
    match key {
        OffersDataKeys::BuyOffer(n) => match live(s.buys, n@, seq) {
            None => fail(s, ContractErrors::OfferDoesntExist),
            Some(b) => if signer != b.buyer {
                fail(s, ContractErrors::NotAuthorized)
            } else {
                (
                    Ok(seq![Payment { from: s.contract, to: b.buyer, amount: b.amount }]),
                    RegistryState { buys: s.buys.remove(n@), ..s },
                )
            },
        },
        OffersDataKeys::SaleOffer(n) => match live(s.sales, n@, seq) {
            None => fail(s, ContractErrors::OfferDoesntExist),
            Some(_) => match live(s.domains, n@, seq) {
                None => fail(s, ContractErrors::RecordDoesntExist),
                Some(d) => if signer != d.owner {
                    fail(s, ContractErrors::NotAuthorized)
                } else {
                    (Ok(seq![]), RegistryState { sales: s.sales.remove(n@), ..s })
                },
            },
        },
    }
}

/// The payments of an executable outcome, as the contracts speak of them.
pub open spec fn paid(r: Result<Vec<Payment>, ContractErrors>) -> Outcome {
    match r {
        Ok(v) => Ok(v@),
        Err(e) => Err(e),
    }
}

/// The registry: configuration, records and offers, each kept under a lease.
#[derive(Clone)]
pub struct RegistryContract {
    pub contract: Address,
    pub core: Option<CoreData>,
    pub offers_config: Option<OffersConfig>,
    pub domains: Table<Domain>,
    pub subs: Table<SubDomain>,
    pub buys: Table<BuyOffer>,
    pub sales: Table<SaleOffer>,
}

impl View for RegistryContract {
    type V = RegistryState;

    open spec fn view(&self) -> RegistryState {
        RegistryState {
            contract: self.contract,
            core: match self.core {
                Some(c) => Some(c@),
                None => None,
            },
            offers_config: self.offers_config,
            domains: self.domains.view(),
            subs: self.subs.view(),
            buys: self.buys.view(),
            sales: self.sales.view(),
        }
    }
}

impl RegistryContract {
    pub open spec fn wf(&self) -> bool {
        &&& self.domains.wf()
        &&& self.subs.wf()
        &&& self.buys.wf()
        &&& self.sales.wf()
        &&& state_wf(self@)
    }

    /// An empty, unconfigured registry whose custody is held by `contract`.
    pub fn new(contract: Address) -> (r: Self)
        ensures
            r.wf(),
            r@ == (RegistryState {
                contract,
                core: None,
                offers_config: None,
                domains: Map::empty(),
                subs: Map::empty(),
                buys: Map::empty(),
                sales: Map::empty(),
            }),
    {
        RegistryContract {
            contract,
            core: None,
            offers_config: None,
            domains: Table::new(),
            subs: Table::new(),
            buys: Table::new(),
            sales: Table::new(),
        }
    }

    /// Whether the configuration record `key` has been written.
    pub fn is_configured(&self, key: CoreDataKeys) -> (r: bool)
        ensures
            r == match key {
                CoreDataKeys::CoreData => self@.core is Some,
                CoreDataKeys::OffersConfig => self@.offers_config is Some,
            },
    {
        match key {
            CoreDataKeys::CoreData => self.core.is_some(),
            CoreDataKeys::OffersConfig => self.offers_config.is_some(),
        }
    }

    /// Accepts `signer` when it is the administrator.
    pub fn is_adm(&self, signer: Address) -> (r: Result<(), ContractErrors>)
        ensures
            r == (if self@.core is None {
                Err(ContractErrors::NotInitialized)
            } else if signer != self@.core->0.adm {
                Err(ContractErrors::NotAuthorized)
            } else {
                Ok(())
            }),
    {
        match &self.core {
            None => Err(ContractErrors::NotInitialized),
            Some(core) => {
                if signer != core.adm {
                    Err(ContractErrors::NotAuthorized)
                } else {
                    Ok(())
                }
            },
        }
    }

    /// Sets the policy once; a second call fails.
    pub fn init(
        &mut self,
        adm: Address,
        node_rate: u128,
        col_asset: Address,
        min_duration: u64,
        allowed_tlds: Vec<Vec<u8>>,
    ) -> (r: Result<(), ContractErrors>)
        requires
            old(self).wf(),
        ensures
            final(self).wf(),
            r == spec_init(
                old(self)@,
                adm,
                node_rate,
                col_asset,
                min_duration,
                allowed_tlds@.map_values(|t: Vec<u8>| t@),
            ).0,
            final(self)@ == spec_init(
                old(self)@,
                adm,
                node_rate,
                col_asset,
                min_duration,
                allowed_tlds@.map_values(|t: Vec<u8>| t@),
            ).1,
    {
        if self.core.is_some() {
            return Err(ContractErrors::AlreadyStarted);
        }
        self.core = Some(CoreData { adm, node_rate, col_asset, min_duration, allowed_tlds });
        Ok(())
    }

    /// Sets the marketplace fee; the administrator only.
    pub fn set_offers_config(&mut self, signer: Address, fee_taker: Address, fee: u128) -> (r:
        Result<(), ContractErrors>)
        requires
            old(self).wf(),
        ensures
            final(self).wf(),
            r == spec_set_offers_config(old(self)@, signer, fee_taker, fee).0,
            final(self)@ == spec_set_offers_config(old(self)@, signer, fee_taker, fee).1,
    {
        match &self.core {
            None => {
                return Err(ContractErrors::NotInitialized);
            },
            Some(core) => {
                if signer != core.adm {
                    return Err(ContractErrors::NotAuthorized);
                }
            },
        }
        if fee > FEE_DENOMINATOR {
            return Err(ContractErrors::InvalidFeeRate);
        }
        self.offers_config = Some(OffersConfig { fee_taker, fee });
        Ok(())
    }

    /// Replaces the accepted suffixes; the administrator only.
    pub fn update_tlds(&mut self, signer: Address, tlds: Vec<Vec<u8>>) -> (r: Result<
        (),
        ContractErrors,
    >)
        requires
            old(self).wf(),
        ensures
            final(self).wf(),
            r == spec_update_tlds(old(self)@, signer, tlds@.map_values(|t: Vec<u8>| t@)).0,
            final(self)@ == spec_update_tlds(
                old(self)@,
                signer,
                tlds@.map_values(|t: Vec<u8>| t@),
            ).1,
    {
        match &mut self.core {
            None => Err(ContractErrors::NotInitialized),
            Some(core) => {
                if signer != core.adm {
                    return Err(ContractErrors::NotAuthorized);
                }
                core.allowed_tlds = tlds;
                Ok(())
            },
        }
    }

    /// Computes the node of `domain` under `tld`.
    pub fn parse_domain(domain: &[u8], tld: &[u8]) -> (r: [u8; 32])
        requires
            domain@.len() <= u32::MAX,
            tld@.len() <= u32::MAX,
        ensures
            r == node_of(domain@, tld@),
    {
        generate_node(domain, tld)
    }

    /// Registers `domain` under `tld` for `duration` seconds. The owner must
    /// sign and pays the collateral into the registry's custody.
    pub fn set_record(
        &mut self,
        signer: Address,
        now: Ledger,
        domain: &[u8],
        tld: &[u8],
        owner: Address,
        address: Address,
        duration: u64,
    ) -> (r: Result<Vec<Payment>, ContractErrors>)
        requires
            old(self).wf(),
            tld@.len() <= u32::MAX,
        ensures
            final(self).wf(),
            paid(r) == spec_set_record(
                old(self)@,
                signer,
                now,
                domain@,
                tld@,
                owner,
                address,
                duration,
            ).0,
            final(self)@ == spec_set_record(
                old(self)@,
                signer,
                now,
                domain@,
                tld@,
                owner,
                address,
                duration,
            ).1,
    {
        if signer != owner {
            return Err(ContractErrors::NotAuthorized);
        }
        if validate_domain(domain).is_err() {
            return Err(ContractErrors::InvalidDomain);
        }
        let (node_rate, min_duration) = match &self.core {
            None => {
                return Err(ContractErrors::NotInitialized);
            },
            Some(core) => {
                if !contains_tld(&core.allowed_tlds, tld) {
                    return Err(ContractErrors::UnsupportedTLD);
                }
                (core.node_rate, core.min_duration)
            },
        };
        let node = generate_node(domain, tld);
        if self.domains.get(&node, now.sequence).is_some() {
            return Err(ContractErrors::RecordAlreadyExist);
        }
        if duration < min_duration {
            return Err(ContractErrors::InvalidDuration);
        }
        let exp_date = match now.timestamp.checked_add(duration) {
            Some(t) => t,
            None => {
                return Err(ContractErrors::InvalidDuration);
            },
        };
        let amount = match collateral(node_rate, duration, domain.len()) {
            Some(c) => c,
            None => {
                return Err(ContractErrors::AmountTooLarge);
            },
        };
        let d = Domain {
            node,
            owner,
            address,
            exp_date,
            collateral: amount,
            snapshot: now.timestamp,
        };
        self.domains.put(node, d, now.sequence);
        let payments = vec![Payment { from: owner, to: self.contract, amount }];
        assert(payments@ =~= seq![Payment { from: owner, to: self.contract, amount }]);
        Ok(payments)
    }

    /// Reads the record under `key`, renewing its lease when it is there.
    pub fn record(&mut self, now: Ledger, key: RecordKeys) -> (r: Result<
        Option<Record>,
        ContractErrors,
    >)
        requires
            old(self).wf(),
        ensures
            final(self).wf(),
            r == read_result(old(self)@, now, key),
            final(self)@ == read_state(old(self)@, now, key),
    {
        match key {
            RecordKeys::Record(n) => match self.domains.get(&n, now.sequence) {
                None => Ok(None),
                Some(d) => {
                    self.domains.renew(&n, now.sequence);
                    if d.exp_date < now.timestamp {
                        Err(ContractErrors::ExpiredDomain)
                    } else {
                        Ok(Some(Record::Domain(d)))
                    }
                },
            },
            RecordKeys::SubRecord(n) => match self.subs.get(&n, now.sequence) {
                None => Ok(None),
                Some(sd) => {
                    self.subs.renew(&n, now.sequence);
                    match self.domains.get(&sd.parent, now.sequence) {
                        None => Err(ContractErrors::InvalidParent),
                        Some(d) => {
                            if d.exp_date < now.timestamp {
                                Err(ContractErrors::ExpiredDomain)
                            } else if d.snapshot != sd.snapshot {
                                Err(ContractErrors::OutdatedSub)
                            } else {
                                Ok(Some(Record::SubDomain(sd)))
                            }
                        },
                    }
                },
            },
        }
    }

    /// Points a domain at `address`; the owner only. The snapshot is kept, so
    /// subdomains and offers stay valid.
    pub fn update_address(&mut self, signer: Address, now: Ledger, key: RecordKeys, address: Address) -> (r:
        Result<(), ContractErrors>)
        requires
            old(self).wf(),
        ensures
            final(self).wf(),
            r == spec_update_address(old(self)@, signer, now, key, address).0,
            final(self)@ == spec_update_address(old(self)@, signer, now, key, address).1,
    {
        match key {
            RecordKeys::Record(n) => match self.domains.get(&n, now.sequence) {
                None => Err(ContractErrors::RecordDoesntExist),
                Some(d) => {
                    if signer != d.owner {
                        return Err(ContractErrors::NotAuthorized);
                    }
                    self.domains.put(n, Domain { address, ..d }, now.sequence);
                    Ok(())
                },
            },
            RecordKeys::SubRecord(n) => match self.subs.get(&n, now.sequence) {
                None => Err(ContractErrors::RecordDoesntExist),
                Some(_) => Err(ContractErrors::InvalidParent),
            },
        }
    }

    /// Creates or replaces the subdomain `sub` of the domain under `parent`,
    /// bound to the domain's current snapshot; the domain's owner only.
    pub fn set_sub(&mut self, signer: Address, now: Ledger, sub: &[u8], parent: RecordKeys, address: Address) -> (r:
        Result<(), ContractErrors>)
        requires
            old(self).wf(),
        ensures
            final(self).wf(),
            r == spec_set_sub(old(self)@, signer, now, sub@, parent, address).0,
            final(self)@ == spec_set_sub(old(self)@, signer, now, sub@, parent, address).1,
    {
        if validate_domain(sub).is_err() {
            return Err(ContractErrors::InvalidDomain);
        }
        let p = match parent {
            RecordKeys::SubRecord(_) => {
                return Err(ContractErrors::InvalidParent);
            },
            RecordKeys::Record(p) => p,
        };
        let d = match self.domains.get(&p, now.sequence) {
            None => {
                return Err(ContractErrors::InvalidParent);
            },
            Some(d) => d,
        };
        if signer != d.owner {
            return Err(ContractErrors::NotAuthorized);
        }
        if d.exp_date < now.timestamp {
            return Err(ContractErrors::ExpiredDomain);
        }
        let n = generate_node(sub, &p);
        self.subs.put(n, SubDomain { node: n, parent: p, address, snapshot: d.snapshot }, now.sequence);
        Ok(())
    }

    /// Hands the domain under `key` to `to`; the owner only. The snapshot
    /// moves to now, which leaves earlier subdomains and offers stale.
    pub fn transfer(&mut self, signer: Address, now: Ledger, key: RecordKeys, to: Address) -> (r:
        Result<(), ContractErrors>)
        requires
            old(self).wf(),
        ensures
            final(self).wf(),
            r == spec_transfer(old(self)@, signer, now, key, to).0,
            final(self)@ == spec_transfer(old(self)@, signer, now, key, to).1,
    {
        match key {
            RecordKeys::Record(n) => match self.domains.get(&n, now.sequence) {
                None => Err(ContractErrors::RecordDoesntExist),
                Some(d) => {
                    if signer != d.owner {
                        return Err(ContractErrors::NotAuthorized);
                    }
                    self.domains.put(n, Domain { owner: to, snapshot: now.timestamp, ..d }, now.sequence);
                    Ok(())
                },
            },
            RecordKeys::SubRecord(n) => match self.subs.get(&n, now.sequence) {
                None => Err(ContractErrors::RecordDoesntExist),
                Some(_) => Err(ContractErrors::InvalidTransfer),
            },
        }
    }

    /// Removes the record under `key`. A domain's owner gets its collateral
    /// back; a subdomain is removed by its parent's owner.
    pub fn burn_record(&mut self, signer: Address, now: Ledger, key: RecordKeys) -> (r: Result<
        Vec<Payment>,
        ContractErrors,
    >)
        requires
            old(self).wf(),
        ensures
            final(self).wf(),
            paid(r) == spec_burn_record(old(self)@, signer, now, key).0,
            final(self)@ == spec_burn_record(old(self)@, signer, now, key).1,
    {
        match key {
            RecordKeys::Record(n) => match self.domains.get(&n, now.sequence) {
                None => Err(ContractErrors::RecordDoesntExist),
                Some(d) => {
                    if signer != d.owner {
                        return Err(ContractErrors::NotAuthorized);
                    }
                    self.domains.remove(&n);
                    let refund = Payment { from: self.contract, to: d.owner, amount: d.collateral };
                    let payments = vec![refund];
                    assert(payments@ =~= seq![refund]);
                    Ok(payments)
                },
            },
            RecordKeys::SubRecord(n) => match self.subs.get(&n, now.sequence) {
                None => Err(ContractErrors::RecordDoesntExist),
                Some(sd) => match self.domains.get(&sd.parent, now.sequence) {
                    None => Err(ContractErrors::InvalidParent),
                    Some(d) => {
                        if signer != d.owner {
                            return Err(ContractErrors::NotAuthorized);
                        }
                        self.subs.remove(&n);
                        let payments: Vec<Payment> = Vec::new();
                        assert(payments@ =~= seq![]);
                        Ok(payments)
                    },
                },
            },
        }
    }

    /// Records the owner's asking price for `node`; nothing is escrowed.
    fn set_sale_offer(&mut self, seq: u32, node: [u8; 32], domain: &Domain, amount: u128)
        requires
            old(self).wf(),
            amount <= MAX_AMOUNT,
        ensures
            final(self).wf(),
            final(self)@ == (RegistryState {
                sales: stored(
                    old(self)@.sales,
                    node,
                    SaleOffer { node, amount, snapshot: domain.snapshot },
                    seq,
                ),
                ..old(self)@
            }),
    {
        self.sales.put(node, SaleOffer { node, amount, snapshot: domain.snapshot }, seq);
    }

    /// Records a first buy offer for `node`; the buyer escrows the amount.
    fn set_new_buy_offer(
        &mut self,
        seq: u32,
        caller: Address,
        node: [u8; 32],
        domain: &Domain,
        amount: u128,
    ) -> (r: Vec<Payment>)
        requires
            old(self).wf(),
            amount <= MAX_AMOUNT,
        ensures
            final(self).wf(),
            r@ == seq![Payment { from: caller, to: old(self).contract, amount }],
            final(self)@ == (RegistryState {
                buys: stored(
                    old(self)@.buys,
                    node,
                    BuyOffer { buyer: caller, node, amount, snapshot: domain.snapshot },
                    seq,
                ),
                ..old(self)@
            }),
    {
        self.buys.put(node, BuyOffer { buyer: caller, node, amount, snapshot: domain.snapshot }, seq);
        let payments = vec![Payment { from: caller, to: self.contract, amount }];
        assert(payments@ =~= seq![Payment { from: caller, to: self.contract, amount }]);
        payments
    }

    /// Raises the buy offer on `node` to `amount`. The same buyer escrows the
    /// difference; another buyer's escrow replaces the previous one, which is
    /// refunded in full.
    fn update_buy_offer(
        &mut self,
        seq: u32,
        caller: Address,
        prev: &BuyOffer,
        node: [u8; 32],
        domain: &Domain,
        amount: u128,
    ) -> (r: Vec<Payment>)
        requires
            old(self).wf(),
            amount <= MAX_AMOUNT,
            amount > prev.amount,
        ensures
            final(self).wf(),
            r@ == (if prev.buyer == caller {
                seq![Payment { from: caller, to: old(self).contract, amount: (amount - prev.amount) as u128 }]
            } else {
                seq![
                    Payment { from: old(self).contract, to: prev.buyer, amount: prev.amount },
                    Payment { from: caller, to: old(self).contract, amount },
                ]
            }),
            final(self)@ == (RegistryState {
                buys: stored(
                    old(self)@.buys,
                    node,
                    BuyOffer { buyer: caller, node, amount, snapshot: domain.snapshot },
                    seq,
                ),
                ..old(self)@
            }),
    {
        self.buys.put(node, BuyOffer { buyer: caller, node, amount, snapshot: domain.snapshot }, seq);
        if prev.buyer == caller {
            let extra = Payment { from: caller, to: self.contract, amount: amount - prev.amount };
            let payments = vec![extra];
            assert(payments@ =~= seq![extra]);
            payments
        } else {
            let refund = Payment { from: self.contract, to: prev.buyer, amount: prev.amount };
            let escrow = Payment { from: caller, to: self.contract, amount };
            let payments = vec![refund, escrow];
            assert(payments@ =~= seq![refund, escrow]);
            payments
        }
    }

    /// Places or raises an offer on the domain `node`. When the caller owns
    /// it this is the sale offer; otherwise a buy offer, which must exceed the
    /// domain's collateral and any buy offer already there.
    pub fn set_offer(&mut self, signer: Address, now: Ledger, caller: Address, node: [u8; 32], amount: u128) -> (r:
        Result<Vec<Payment>, ContractErrors>)
        requires
            old(self).wf(),
        ensures
            final(self).wf(),
            paid(r) == spec_set_offer(old(self)@, signer, now, caller, node, amount).0,
            final(self)@ == spec_set_offer(old(self)@, signer, now, caller, node, amount).1,
    {
        let seq = now.sequence;
        if signer != caller {
            return Err(ContractErrors::NotAuthorized);
        }
        let d = match self.domains.get(&node, seq) {
            None => {
                return Err(ContractErrors::RecordDoesntExist);
            },
            Some(d) => d,
        };
        if d.owner == caller {
            if amount > MAX_AMOUNT {
                return Err(ContractErrors::AmountTooLarge);
            }
            self.domains.renew(&node, seq);
            self.set_sale_offer(seq, node, &d, amount);
            let payments: Vec<Payment> = Vec::new();
            assert(payments@ =~= seq![]);
            return Ok(payments);
        }
        if amount <= d.collateral {
            return Err(ContractErrors::InvalidOfferAmount);
        }
        if amount > MAX_AMOUNT {
            return Err(ContractErrors::AmountTooLarge);
        }
        match self.buys.get(&node, seq) {
            None => {
                self.domains.renew(&node, seq);
                Ok(self.set_new_buy_offer(seq, caller, node, &d, amount))
            },
            Some(prev) => {
                if amount <= prev.amount {
                    return Err(ContractErrors::InvalidOfferAmount);
                }
                self.domains.renew(&node, seq);
                Ok(self.update_buy_offer(seq, caller, &prev, node, &d, amount))
            },
        }
    }

    /// Settles the offer on `node` that `caller` may accept: the owner accepts
    /// the buy offer, paid from custody; anyone else the sale offer, paying
    /// from their own funds. The fee on the profit goes to the fee taker.
    /// The opposite side's offer, if any, stays and is stale from now on.
    pub fn take_offer(&mut self, signer: Address, now: Ledger, caller: Address, node: [u8; 32]) -> (r:
        Result<Vec<Payment>, ContractErrors>)
        requires
            old(self).wf(),
        ensures
            final(self).wf(),
            paid(r) == spec_take_offer(old(self)@, signer, now, caller, node).0,
            final(self)@ == spec_take_offer(old(self)@, signer, now, caller, node).1,
    {
        let seq = now.sequence;
        if signer != caller {
            return Err(ContractErrors::NotAuthorized);
        }
        let d = match self.domains.get(&node, seq) {
            None => {
                return Err(ContractErrors::RecordDoesntExist);
            },
            Some(d) => d,
        };
        let offer = if d.owner != caller {
            match self.sales.get(&node, seq) {
                None => {
                    return Err(ContractErrors::OfferDoesntExist);
                },
                Some(o) => Offer::SaleOffer(o),
            }
        } else {
            match self.buys.get(&node, seq) {
                None => {
                    return Err(ContractErrors::OfferDoesntExist);
                },
                Some(o) => Offer::BuyOffer(o),
            }
        };
        let cfg = match self.offers_config {
            None => {
                return Err(ContractErrors::NotInitialized);
            },
            Some(c) => c,
        };
        let (amount, snapshot) = match offer {
            Offer::BuyOffer(b) => (b.amount, b.snapshot),
            Offer::SaleOffer(x) => (x.amount, x.snapshot),
        };
        if snapshot != d.snapshot {
            return Err(ContractErrors::OutdatedOffer);
        }
        if amount < d.collateral {
            return Err(ContractErrors::InvalidOfferAmount);
        }
        let profit = amount - d.collateral;
        let f = match fee(profit, cfg.fee) {
            None => {
                return Err(ContractErrors::AmountTooLarge);
            },
            Some(f) => f,
        };
        let (buyer, payer) = match offer {
            Offer::BuyOffer(b) => (b.buyer, self.contract),
            Offer::SaleOffer(_) => (caller, caller),
        };
        self.domains.put(
            node,
            Domain { owner: buyer, address: buyer, snapshot: now.timestamp, ..d },
            seq,
        );
        match offer {
            Offer::BuyOffer(_) => self.buys.remove(&node),
            Offer::SaleOffer(_) => self.sales.remove(&node),
        }
        let to_seller = Payment { from: payer, to: d.owner, amount: amount - f };
        let to_fee_taker = Payment { from: payer, to: cfg.fee_taker, amount: f };
        let payments = vec![to_seller, to_fee_taker];
        assert(payments@ =~= seq![to_seller, to_fee_taker]);
        Ok(payments)
    }

    /// Withdraws the offer under `key`. A buyer's escrow is refunded to them;
    /// the sale offer is withdrawn by the domain's owner.
    pub fn burn_offer(&mut self, signer: Address, now: Ledger, key: OffersDataKeys) -> (r: Result<
        Vec<Payment>,
        ContractErrors,
    >)
        requires
            old(self).wf(),
        ensures
            final(self).wf(),
            paid(r) == spec_burn_offer(old(self)@, signer, now, key).0,
            final(self)@ == spec_burn_offer(old(self)@, signer, now, key).1,
    {
        let seq = now.sequence;
        match key {
            OffersDataKeys::BuyOffer(n) => match self.buys.get(&n, seq) {
                None => Err(ContractErrors::OfferDoesntExist),
                Some(b) => {
                    if signer != b.buyer {
                        return Err(ContractErrors::NotAuthorized);
                    }
                    self.buys.remove(&n);
                    let refund = Payment { from: self.contract, to: b.buyer, amount: b.amount };
                    let payments = vec![refund];
                    assert(payments@ =~= seq![refund]);
                    Ok(payments)
                },
            },
            OffersDataKeys::SaleOffer(n) => match self.sales.get(&n, seq) {
                None => Err(ContractErrors::OfferDoesntExist),
                Some(_) => match self.domains.get(&n, seq) {
                    None => Err(ContractErrors::RecordDoesntExist),
                    Some(d) => {
                        if signer != d.owner {
                            return Err(ContractErrors::NotAuthorized);
                        }
                        self.sales.remove(&n);
                        let payments: Vec<Payment> = Vec::new();
                        assert(payments@ =~= seq![]);
                        Ok(payments)
                    },
                },
            },
        }
    }
}

/// Whether `tld` is among `tlds`.
fn contains_tld(tlds: &Vec<Vec<u8>>, tld: &[u8]) -> (r: bool)
    ensures
        r == tlds@.map_values(|t: Vec<u8>| t@).contains(tld@),
{
    let ghost views = tlds@.map_values(|t: Vec<u8>| t@);
    let mut i: usize = 0;
    while i < tlds.len()
        invariant
            i <= tlds@.len(),
            views == tlds@.map_values(|t: Vec<u8>| t@),
            forall|j: int| 0 <= j < i ==> #[trigger] views[j] != tld@,
        decreases tlds@.len() - i,
    {
        if same_bytes(tlds[i].as_slice(), tld) {
            assert(views[i as int] == tld@);
            return true;
        }
        i += 1;
    }
    assert(!views.contains(tld@)) by {
        if views.contains(tld@) {
            let k = choose|k: int| 0 <= k < views.len() && views[k] == tld@;
            assert(views[k] != tld@);
        }
    }
    false
}

} // verus!
