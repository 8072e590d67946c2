use domain_registry::config::CoreDataKeys;
use domain_registry::context::{Address, Ledger, Payment};
use domain_registry::errors::ContractErrors;
use domain_registry::records::{Domain, Record, RecordKeys, SubDomain};
use domain_registry::registry::RegistryContract;

const CONTRACT: Address = Address(0);
const ADMIN: Address = Address(1);
const COL_ASSET: Address = Address(2);
const NODE_RATE: u128 = 100;
const MIN_DURATION: u64 = 31536000;
const STELLAR_XLM_NODE: [u8; 32] = [
    47, 228, 204, 106, 21, 249, 70, 107, 173, 113, 237, 64, 122, 143, 27, 125, 168, 30, 253, 147,
    30, 119, 18, 117, 49, 82, 170, 23, 171, 192, 224, 110,
];

fn at(timestamp: u64) -> Ledger {
    Ledger { timestamp, sequence: 100 }
}

fn tlds() -> Vec<Vec<u8>> {
    vec![b"xlm".to_vec(), b"stellar".to_vec(), b"wallet".to_vec(), b"dao".to_vec()]
}

fn started() -> RegistryContract {
    let mut r = RegistryContract::new(CONTRACT);
    r.init(ADMIN, NODE_RATE, COL_ASSET, MIN_DURATION, tlds()).unwrap();
    r.set_offers_config(ADMIN, Address(3), 3_500_000).unwrap();
    r
}

fn domain_at(r: &mut RegistryContract, now: Ledger, node: [u8; 32]) -> Domain {
    match r.record(now, RecordKeys::Record(node)).unwrap().unwrap() {
        Record::Domain(d) => d,
        Record::SubDomain(_) => panic!(),
    }
}

#[test]
fn test_setting_record() {
    let mut r = started();
    let new_owner = Address(10);
    let target = Address(11);
    let duration: u64 = MIN_DURATION * 2;
    let now = at(0);

    let paid = r.set_record(new_owner, now, b"stellar", b"xlm", new_owner, target, duration).unwrap();
    assert_eq!(
        paid,
        vec![Payment { from: new_owner, to: CONTRACT, amount: NODE_RATE * duration as u128 }]
    );

    let d = domain_at(&mut r, now, STELLAR_XLM_NODE);
    assert_eq!(d.node, STELLAR_XLM_NODE);
    assert_eq!(d.owner, new_owner);
    assert_eq!(d.address, target);
    assert_eq!(d.exp_date, now.timestamp + duration);
    assert_eq!(d.collateral, NODE_RATE * duration as u128);
    assert_eq!(d.snapshot, now.timestamp);

    let again = r.set_record(new_owner, now, b"stellar", b"xlm", new_owner, target, duration);
    assert_eq!(again, Err(ContractErrors::RecordAlreadyExist));
}

#[test]
fn test_unsupported_tld() {
    let mut r = started();
    let owner = Address(10);
    let e = r.set_record(owner, at(0), b"stellar", b"eth", owner, owner, MIN_DURATION);
    assert_eq!(e, Err(ContractErrors::UnsupportedTLD));
}

#[test]
fn test_invalid_duration() {
    let mut r = started();
    let owner = Address(10);
    let e = r.set_record(owner, at(0), b"stellar", b"xlm", owner, owner, MIN_DURATION - 10);
    assert_eq!(e, Err(ContractErrors::InvalidDuration));
}

#[test]
fn test_invalid_domain() {
    let mut r = started();
    let owner = Address(10);
    let duration = MIN_DURATION - 10;
    let numeric = r.set_record(owner, at(0), b"stell4r", b"xlm", owner, owner, duration);
    assert_eq!(numeric, Err(ContractErrors::InvalidDomain));
    let upper = r.set_record(owner, at(0), b"steIIar", b"xlm", owner, owner, duration);
    assert_eq!(upper, Err(ContractErrors::InvalidDomain));
    let long = r.set_record(
        owner,
        at(0),
        b"thisisadomainsthatisnotvalidbecauseofhowlargeitis",
        b"xlm",
        owner,
        owner,
        duration,
    );
    assert_eq!(long, Err(ContractErrors::InvalidDomain));
}

#[test]
fn test_subdomains() {
    let mut r = started();
    let owner = Address(10);
    let domain_address = Address(11);
    let now = at(0);
    r.set_record(owner, now, b"stellar", b"xlm", owner, domain_address, MIN_DURATION).unwrap();

    let domain_node = RegistryContract::parse_domain(b"stellar", b"xlm");
    let new_address = Address(12);
    r.set_sub(owner, now, b"payments", RecordKeys::Record(domain_node), new_address).unwrap();

    let sub_node = RegistryContract::parse_domain(b"payments", &domain_node);
    let sub: SubDomain = match r.record(now, RecordKeys::SubRecord(sub_node)).unwrap().unwrap() {
        Record::Domain(_) => panic!(),
        Record::SubDomain(sub) => sub,
    };
    assert_eq!(sub.address, new_address);
    assert_eq!(sub.parent, domain_node);

    // Without the signature of the domain's owner the subdomain cannot change.
    let stranger = Address(13);
    assert!(r.set_sub(stranger, now, b"payments", RecordKeys::Record(domain_node), new_address).is_err());

    let updated_address = Address(14);
    r.set_sub(owner, now, b"payments", RecordKeys::Record(domain_node), updated_address).unwrap();
    let updated: SubDomain = match r.record(now, RecordKeys::SubRecord(sub_node)).unwrap().unwrap() {
        Record::Domain(_) => panic!(),
        Record::SubDomain(sub) => sub,
    };
    assert_eq!(updated.address, updated_address);
}

#[test]
fn test_updating_address() {
    let mut r = started();
    let owner = Address(10);
    let address = Address(11);
    let second_address = Address(12);
    let now = at(0);
    r.set_record(owner, now, b"stellar", b"xlm", owner, address, MIN_DURATION).unwrap();
    let node = RegistryContract::parse_domain(b"stellar", b"xlm");

    let first = domain_at(&mut r, now, node);
    r.update_address(owner, now, RecordKeys::Record(node), second_address).unwrap();
    let second = domain_at(&mut r, now, node);

    assert_eq!(address, first.address);
    assert_eq!(second_address, second.address);
    assert_eq!(first.snapshot, second.snapshot);
}

#[test]
fn test_transfers_test_simple_transfer() {
    let mut r = started();
    let first_owner = Address(10);
    let second_owner = Address(11);
    let t0: u64 = 1742825701;
    r.set_record(first_owner, at(t0), b"stellar", b"xlm", first_owner, first_owner, MIN_DURATION)
        .unwrap();
    let node = RegistryContract::parse_domain(b"stellar", b"xlm");
    let first = domain_at(&mut r, at(t0), node);

    r.transfer(first_owner, at(t0 + 10), RecordKeys::Record(node), second_owner).unwrap();
    let second = domain_at(&mut r, at(t0 + 10), node);

    assert_eq!(first_owner, first.owner);
    assert_eq!(t0, first.snapshot);
    assert_eq!(second_owner, second.owner);
    assert_eq!(t0 + 10, second.snapshot);

    // The first owner no longer owns the domain.
    let e = r.transfer(first_owner, at(t0 + 10), RecordKeys::Record(node), second_owner);
    assert_eq!(e, Err(ContractErrors::NotAuthorized));
}

#[test]
fn test_updating_tlds() {
    let mut r = started();
    assert!(r.is_configured(CoreDataKeys::CoreData));
    assert_eq!(r.core.as_ref().unwrap().allowed_tlds, tlds());

    // Only the administrator may change the suffixes.
    assert_eq!(r.update_tlds(Address(10), vec![b"eth".to_vec()]), Err(ContractErrors::NotAuthorized));

    r.update_tlds(ADMIN, vec![b"eth".to_vec()]).unwrap();
    assert_eq!(r.core.as_ref().unwrap().allowed_tlds, vec![b"eth".to_vec()]);
}

#[test]
fn init_twice_fails() {
    let mut r = started();
    assert_eq!(
        r.init(ADMIN, NODE_RATE, COL_ASSET, MIN_DURATION, tlds()),
        Err(ContractErrors::AlreadyStarted)
    );
}

#[test]
fn unconfigured_registry_refuses_registration() {
    let mut r = RegistryContract::new(CONTRACT);
    assert!(!r.is_configured(CoreDataKeys::CoreData));
    let owner = Address(10);
    let e = r.set_record(owner, at(0), b"stellar", b"xlm", owner, owner, MIN_DURATION);
    assert_eq!(e, Err(ContractErrors::NotInitialized));
    assert_eq!(r.set_offers_config(ADMIN, Address(3), 1), Err(ContractErrors::NotInitialized));
}

#[test]
fn fee_rate_above_one_hundred_percent_is_refused() {
    let mut r = started();
    assert_eq!(r.set_offers_config(ADMIN, Address(3), 100_000_001), Err(ContractErrors::InvalidFeeRate));
    assert_eq!(r.set_offers_config(Address(9), Address(3), 1), Err(ContractErrors::NotAuthorized));
    assert!(r.is_configured(CoreDataKeys::OffersConfig));
}

#[test]
fn registration_needs_the_owner_signature() {
    let mut r = started();
    let e = r.set_record(Address(9), at(0), b"stellar", b"xlm", Address(10), Address(10), MIN_DURATION);
    assert_eq!(e, Err(ContractErrors::NotAuthorized));
}

#[test]
fn oversized_collateral_is_refused() {
    let mut r = RegistryContract::new(CONTRACT);
    r.init(ADMIN, u128::MAX / 2, COL_ASSET, 1, tlds()).unwrap();
    let owner = Address(10);
    let e = r.set_record(owner, at(0), b"stellar", b"xlm", owner, owner, 4);
    assert_eq!(e, Err(ContractErrors::AmountTooLarge));
}

#[test]
fn expiration_overflow_is_a_duration_error() {
    let mut r = started();
    let owner = Address(10);
    let e = r.set_record(owner, at(u64::MAX - 5), b"stellar", b"xlm", owner, owner, MIN_DURATION);
    assert_eq!(e, Err(ContractErrors::InvalidDuration));
}

#[test]
fn expired_domain_does_not_resolve() {
    let mut r = started();
    let owner = Address(10);
    r.set_record(owner, at(0), b"stellar", b"xlm", owner, owner, MIN_DURATION).unwrap();
    let node = RegistryContract::parse_domain(b"stellar", b"xlm");
    assert!(r.record(at(MIN_DURATION), RecordKeys::Record(node)).unwrap().is_some());
    assert_eq!(r.record(at(MIN_DURATION + 1), RecordKeys::Record(node)), Err(ContractErrors::ExpiredDomain));
    let e = r.set_sub(owner, at(MIN_DURATION + 1), b"pay", RecordKeys::Record(node), owner);
    assert_eq!(e, Err(ContractErrors::ExpiredDomain));
}

#[test]
fn missing_record_reads_as_none() {
    let mut r = started();
    assert_eq!(r.record(at(0), RecordKeys::Record([7u8; 32])), Ok(None));
    assert_eq!(r.record(at(0), RecordKeys::SubRecord([7u8; 32])), Ok(None));
}

#[test]
fn lapsed_lease_loses_the_record() {
    let mut r = started();
    let owner = Address(10);
    r.set_record(owner, Ledger { timestamp: 0, sequence: 1 }, b"stellar", b"xlm", owner, owner, MIN_DURATION)
        .unwrap();
    let node = RegistryContract::parse_domain(b"stellar", b"xlm");
    // Renewed within the lease, the record lives on past the first lease.
    let mid = Ledger { timestamp: 5, sequence: 400_000 };
    assert!(r.record(mid, RecordKeys::Record(node)).unwrap().is_some());
    let later = Ledger { timestamp: 6, sequence: 900_000 };
    assert!(r.record(later, RecordKeys::Record(node)).unwrap().is_some());
    // Left alone longer than a lease, it is gone.
    let much_later = Ledger { timestamp: 7, sequence: 2_000_000 };
    assert_eq!(r.record(much_later, RecordKeys::Record(node)), Ok(None));
}

#[test]
fn subdomain_keys_are_not_domains() {
    let mut r = started();
    let owner = Address(10);
    let now = at(0);
    r.set_record(owner, now, b"stellar", b"xlm", owner, owner, MIN_DURATION).unwrap();
    let node = RegistryContract::parse_domain(b"stellar", b"xlm");
    r.set_sub(owner, now, b"pay", RecordKeys::Record(node), owner).unwrap();
    let sub = RegistryContract::parse_domain(b"pay", &node);
    assert_eq!(r.transfer(owner, now, RecordKeys::SubRecord(sub), Address(11)), Err(ContractErrors::InvalidTransfer));
    assert_eq!(r.update_address(owner, now, RecordKeys::SubRecord(sub), Address(11)), Err(ContractErrors::InvalidParent));
    assert_eq!(r.set_sub(owner, now, b"deep", RecordKeys::SubRecord(sub), owner), Err(ContractErrors::InvalidParent));
    assert_eq!(r.transfer(owner, now, RecordKeys::Record([9u8; 32]), Address(11)), Err(ContractErrors::RecordDoesntExist));
}

#[test]
fn burning_a_subdomain_takes_the_parent_owner() {
    let mut r = started();
    let owner = Address(10);
    let now = at(0);
    r.set_record(owner, now, b"stellar", b"xlm", owner, owner, MIN_DURATION).unwrap();
    let node = RegistryContract::parse_domain(b"stellar", b"xlm");
    r.set_sub(owner, now, b"pay", RecordKeys::Record(node), Address(12)).unwrap();
    let sub = RegistryContract::parse_domain(b"pay", &node);
    assert_eq!(r.burn_record(Address(12), now, RecordKeys::SubRecord(sub)), Err(ContractErrors::NotAuthorized));
    assert_eq!(r.burn_record(owner, now, RecordKeys::SubRecord(sub)), Ok(vec![]));
    assert_eq!(r.record(now, RecordKeys::SubRecord(sub)), Ok(None));
    assert_eq!(r.burn_record(owner, now, RecordKeys::SubRecord(sub)), Err(ContractErrors::RecordDoesntExist));
}

#[test]
fn orphaned_subdomain_reports_its_parent() {
    let mut r = started();
    let owner = Address(10);
    let now = at(0);
    r.set_record(owner, now, b"stellar", b"xlm", owner, owner, MIN_DURATION).unwrap();
    let node = RegistryContract::parse_domain(b"stellar", b"xlm");
    r.set_sub(owner, now, b"pay", RecordKeys::Record(node), owner).unwrap();
    r.burn_record(owner, now, RecordKeys::Record(node)).unwrap();
    let sub = RegistryContract::parse_domain(b"pay", &node);
    assert_eq!(r.record(now, RecordKeys::SubRecord(sub)), Err(ContractErrors::InvalidParent));
}
