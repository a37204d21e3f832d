use solana_program::pubkey::Pubkey;
use store_index::address::{decimal_text, Address};
use store_index::codec::{decode_page, write_page, IndexPage, PAGE_SIZE, PAGE_TAG};
use store_index::derivation::{cache_seed_list, check_derivation, index_seed_list, is_system_program};
use store_index::error::IndexError;
use store_index::page::{insert_at, Neighbor, PAGE_CAPACITY};
use store_index::processor::{
    process_set_store_index, CacheSlot, InsertAccounts, PageCommit, PageSlot, SetStoreIndexArgs,
};

const PROGRAM: [u8; 32] = [7; 32];
const STORE: [u8; 32] = [9; 32];

fn program() -> Address {
    Address::new(PROGRAM)
}

fn pda(seeds: &[&[u8]]) -> (Address, u8) {
    let (key, bump) = Pubkey::find_program_address(seeds, &Pubkey::new_from_array(PROGRAM));
    (Address::new(key.to_bytes()), bump)
}

fn record(auction: u8, timestamp: i64) -> CacheSlot {
    let auction = [auction; 32];
    let (key, _) = pda(&[b"metaplex", &PROGRAM, &STORE, &auction, b"cache"]);
    CacheSlot { key, owner: program(), auction: Address::new(auction), timestamp }
}

fn page_key(page: u64) -> (Address, u8) {
    let text = page.to_string();
    pda(&[b"metaplex", &PROGRAM, &STORE, b"index", text.as_bytes()])
}

fn accounts(page: u64, data: Vec<u8>, rec: CacheSlot, above: Option<CacheSlot>, below: Option<CacheSlot>) -> InsertAccounts {
    InsertAccounts {
        page: PageSlot { key: page_key(page).0, owner: program(), data },
        payer_is_signer: true,
        record: rec,
        store: Address::new(STORE),
        store_owner: program(),
        allocator: Address::new([0; 32]),
        above,
        below,
    }
}

fn run(acc: &InsertAccounts, page: u64, offset: u64) -> Result<PageCommit, IndexError> {
    process_set_store_index(&program(), acc, SetStoreIndexArgs { offset, page })
}

fn refs(data: &Vec<u8>) -> Vec<Address> {
    decode_page(data).unwrap().auction_caches
}

fn page_with(keys: &[Address]) -> Vec<u8> {
    let p = IndexPage { tag: PAGE_TAG, store: Address::new(STORE), auction_caches: keys.to_vec() };
    write_page(&p, &vec![0u8; PAGE_SIZE])
}

#[test]
fn scenario_three_records() {
    let r1 = record(1, 100);
    let r2 = record(2, 150);
    let r3 = record(3, 200);
    let c1 = run(&accounts(0, vec![], r1, None, None), 0, 0).unwrap();
    assert!(c1.create_with.is_some());
    assert_eq!(refs(&c1.data), vec![r1.key]);
    let c2 = run(&accounts(0, c1.data.clone(), r2, Some(r1), None), 0, 0).unwrap();
    assert!(c2.create_with.is_none());
    assert_eq!(refs(&c2.data), vec![r2.key, r1.key]);
    let below = run(&accounts(0, c2.data.clone(), r3, Some(r1), Some(r2)), 0, 1);
    assert_eq!(below.unwrap_err(), IndexError::BelowIsOlder);
    let missing = run(&accounts(0, c2.data.clone(), r3, Some(r1), None), 0, 1);
    assert_eq!(missing.unwrap_err(), IndexError::MissingBelowNeighbor);
}

#[test]
fn insert_keeps_descending_order() {
    let a = record(1, 300);
    let b = record(2, 200);
    let c = record(3, 100);
    let data = page_with(&[a.key, c.key]);
    let n = record(4, 250);
    let out = run(&accounts(2, data.clone(), n, Some(c), Some(a)), 2, 1).unwrap();
    assert_eq!(refs(&out.data), vec![a.key, n.key, c.key]);
    let out = run(&accounts(2, data.clone(), b, Some(c), Some(a)), 2, 1).unwrap();
    assert_eq!(refs(&out.data), vec![a.key, b.key, c.key]);
    assert_eq!(out.data.len(), PAGE_SIZE);
    assert_eq!(out.data[0], PAGE_TAG);
}

#[test]
fn insert_before_last_entry_reads_the_stored_neighbor() {
    let r1 = record(1, 100);
    let r2 = record(2, 150);
    let mid = record(5, 120);
    let data = page_with(&[r2.key, r1.key]);
    let out = run(&accounts(0, data, mid, Some(r1), Some(r2)), 0, 1).unwrap();
    assert_eq!(refs(&out.data), vec![r2.key, mid.key, r1.key]);
}

#[test]
fn front_offset_needs_first_entry_only() {
    let r1 = record(1, 100);
    let r2 = record(2, 150);
    let other = record(6, 500);
    let data = page_with(&[r1.key]);
    let out = run(&accounts(0, data.clone(), r2, None, None), 0, 0);
    assert_eq!(out.unwrap_err(), IndexError::MissingAboveNeighbor);
    let out = run(&accounts(0, data.clone(), r2, Some(other), None), 0, 0);
    assert_eq!(out.unwrap_err(), IndexError::NeighborMismatch);
    let out = run(&accounts(0, data.clone(), r2, Some(r1), Some(other)), 0, 0).unwrap();
    assert_eq!(refs(&out.data), vec![r2.key, r1.key]);
}

#[test]
fn back_offset_needs_last_entry_only() {
    let r1 = record(1, 100);
    let r0 = record(2, 50);
    let other = record(6, 500);
    let data = page_with(&[r1.key]);
    let out = run(&accounts(0, data.clone(), r0, None, None), 0, 1);
    assert_eq!(out.unwrap_err(), IndexError::MissingBelowNeighbor);
    let out = run(&accounts(0, data.clone(), r0, None, Some(other)), 0, 1);
    assert_eq!(out.unwrap_err(), IndexError::NeighborMismatch);
    let out = run(&accounts(0, data.clone(), r0, Some(other), Some(r1)), 0, 1).unwrap();
    assert_eq!(refs(&out.data), vec![r1.key, r0.key]);
}

#[test]
fn derivation_rejected_for_each_slot() {
    let r1 = record(1, 100);
    let r2 = record(2, 150);
    let mut forged = r2;
    forged.auction = Address::new([3; 32]);
    let out = run(&accounts(0, vec![], forged, None, None), 0, 0);
    assert_eq!(out.unwrap_err(), IndexError::InvalidDerivation);
    let data = page_with(&[r1.key]);
    let mut bad_above = r1;
    bad_above.auction = Address::new([8; 32]);
    let out = run(&accounts(0, data.clone(), r2, Some(bad_above), None), 0, 0);
    assert_eq!(out.unwrap_err(), IndexError::InvalidDerivation);
    let out = run(&accounts(0, data.clone(), r2, Some(r1), None), 1, 0);
    assert_eq!(out.unwrap_err(), IndexError::InvalidDerivation);
}

#[test]
fn neighbor_with_other_address_is_a_mismatch() {
    let r1 = record(1, 100);
    let r2 = record(2, 150);
    let lookalike = record(4, 100);
    let data = page_with(&[r2.key, r1.key]);
    let n = record(5, 120);
    let out = run(&accounts(0, data.clone(), n, Some(lookalike), Some(r2)), 0, 1);
    assert_eq!(out.unwrap_err(), IndexError::NeighborMismatch);
    let newer = record(6, 200);
    let out = run(&accounts(0, data.clone(), n, Some(r1), Some(newer)), 0, 1);
    assert_eq!(out.unwrap_err(), IndexError::NeighborMismatch);
}

#[test]
fn order_violations_both_sides() {
    let r1 = record(1, 100);
    let r2 = record(2, 150);
    let data = page_with(&[r2.key, r1.key]);
    let old = record(7, 90);
    let out = run(&accounts(0, data.clone(), old, Some(r1), Some(r2)), 0, 1);
    assert_eq!(out.unwrap_err(), IndexError::AboveIsNewer);
    let new = record(8, 160);
    let out = run(&accounts(0, data.clone(), new, Some(r1), Some(r2)), 0, 1);
    assert_eq!(out.unwrap_err(), IndexError::BelowIsOlder);
    let tie = record(9, 150);
    let out = run(&accounts(0, data.clone(), tie, Some(r1), Some(r2)), 0, 1).unwrap();
    assert_eq!(refs(&out.data), vec![r2.key, tie.key, r1.key]);
}

#[test]
fn empty_slot_is_allocated_at_page_size() {
    let r1 = record(1, 100);
    let out = run(&accounts(3, vec![], r1, None, None), 3, 0).unwrap();
    let (_, bump) = page_key(3);
    let seeds = out.create_with.unwrap();
    assert_eq!(seeds.len(), 6);
    assert_eq!(seeds[3], b"index".to_vec());
    assert_eq!(seeds[4], b"3".to_vec());
    assert_eq!(seeds[5], vec![bump]);
    assert_eq!(out.data.len(), PAGE_SIZE);
    assert_eq!(PAGE_SIZE, 37 + 32 * 100);
    let fresh = run(&accounts(3, vec![0u8; PAGE_SIZE], r1, None, None), 3, 0).unwrap();
    assert_eq!(fresh.data, out.data);
    assert!(fresh.create_with.is_none());
}

#[test]
fn access_errors() {
    let r1 = record(1, 100);
    let mut acc = accounts(0, vec![], r1, None, None);
    acc.payer_is_signer = false;
    assert_eq!(run(&acc, 0, 0).unwrap_err(), IndexError::NotAuthenticated);
    let mut acc = accounts(0, vec![], r1, None, None);
    acc.store_owner = Address::new([1; 32]);
    assert_eq!(run(&acc, 0, 0).unwrap_err(), IndexError::NotOwnedByProgram);
    let mut acc = accounts(0, vec![], r1, None, None);
    acc.allocator = Address::new([1; 32]);
    assert_eq!(run(&acc, 0, 0).unwrap_err(), IndexError::InvalidAllocator);
    let mut acc = accounts(0, page_with(&[]), r1, None, None);
    acc.page.owner = Address::new([1; 32]);
    assert_eq!(run(&acc, 0, 0).unwrap_err(), IndexError::NotOwnedByProgram);
    let mut unowned = record(2, 50);
    unowned.owner = Address::new([1; 32]);
    let acc = accounts(0, page_with(&[]), r1, Some(unowned), None);
    assert_eq!(run(&acc, 0, 0).unwrap_err(), IndexError::NotOwnedByProgram);
}

#[test]
fn page_data_and_offset_errors() {
    let r1 = record(1, 100);
    let mut data = page_with(&[]);
    data[0] = 4;
    assert_eq!(run(&accounts(0, data, r1, None, None), 0, 0).unwrap_err(), IndexError::InvalidPageData);
    let short = vec![0u8; 40];
    assert_eq!(run(&accounts(0, short, r1, None, None), 0, 0).unwrap_err(), IndexError::InvalidPageData);
    let data = page_with(&[]);
    assert_eq!(run(&accounts(0, data, r1, None, None), 0, 1).unwrap_err(), IndexError::InvalidOffset);
}

#[test]
fn full_page_is_refused() {
    let last = record(1, 100);
    let mut keys: Vec<Address> = (0..PAGE_CAPACITY - 1).map(|i| Address::new([i as u8 + 10; 32])).collect();
    keys.push(last.key);
    let data = page_with(&keys);
    let n = record(2, 50);
    let out = run(&accounts(0, data, n, None, Some(last)), 0, PAGE_CAPACITY as u64);
    assert_eq!(out.unwrap_err(), IndexError::PageFull);
}

#[test]
fn insert_at_builds_new_sequence() {
    let a = Address::new([1; 32]);
    let b = Address::new([2; 32]);
    let k = Address::new([3; 32]);
    let caches = vec![a, b];
    let above = Some(Neighbor { key: b, timestamp: 5 });
    let below = Some(Neighbor { key: a, timestamp: 9 });
    assert_eq!(insert_at(&caches, 1, k, 7, above, below).unwrap(), vec![a, k, b]);
    assert_eq!(insert_at(&caches, 3, k, 7, above, below).unwrap_err(), IndexError::InvalidOffset);
    assert_eq!(caches, vec![a, b]);
}

#[test]
fn page_bytes_round_trip() {
    let keys = vec![Address::new([1; 32]), Address::new([2; 32])];
    let data = page_with(&keys);
    assert_eq!(data.len(), PAGE_SIZE);
    assert_eq!(&data[33..37], &[2, 0, 0, 0]);
    assert_eq!(&data[37..69], &[1u8; 32]);
    let p = decode_page(&data).unwrap();
    assert_eq!(p.tag, PAGE_TAG);
    assert_eq!(p.store, Address::new(STORE));
    assert_eq!(p.auction_caches, keys);
}

#[test]
fn decimal_text_digits() {
    assert_eq!(decimal_text(0), b"0".to_vec());
    assert_eq!(decimal_text(1234), b"1234".to_vec());
    assert_eq!(decimal_text(u64::MAX), u64::MAX.to_string().into_bytes());
}

#[test]
fn derivation_check_uses_program_address() {
    let auction = Address::new([4; 32]);
    let seeds = cache_seed_list(&program(), &Address::new(STORE), &auction);
    let (key, bump) = pda(&[b"metaplex", &PROGRAM, &STORE, &[4; 32], b"cache"]);
    assert_eq!(check_derivation(&program(), &key, &seeds), Ok(bump));
    assert_eq!(check_derivation(&program(), &auction, &seeds), Err(IndexError::InvalidDerivation));
    let index = index_seed_list(&program(), &Address::new(STORE), 42);
    assert_eq!(index[4], b"42".to_vec());
    assert!(is_system_program(&Address::new([0; 32])));
    assert!(!is_system_program(&Address::new([1; 32])));
}
