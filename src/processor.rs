use vstd::prelude::*;
use crate::address::{Address, address_of};
use crate::codec::{
    decode_page, entries, entry_start, page_decodes, page_image, read_le32, write_page, IndexPage, PAGE_SIZE,
    PAGE_TAG, lemma_flat_len, lemma_write_then_read,
};
use crate::derivation::{
    cache_seed_list, cache_seeds, check_derivation, derives, index_seed_list, index_seeds, is_system_program,
    program_address,
};
use crate::error::IndexError;
use crate::page::{insert_at, insert_outcome, Neighbor, PAGE_CAPACITY};

verus! {

/// A cache-record slot supplied to an insert: its address, the program that
/// owns it, and the record's auction and timestamp.
#[derive(Clone, Copy, Debug, PartialEq, Eq)]
pub struct CacheSlot {
    pub key: Address,
    pub owner: Address,
    pub auction: Address,
    pub timestamp: i64,
}

/// The index-page slot: its address, its owner, and its contents (empty
/// while the page has never been allocated).
#[derive(Clone, Debug)]
pub struct PageSlot {
    pub key: Address,
    pub owner: Address,
    pub data: Vec<u8>,
}

/// Everything an insert reads from the slots it is handed.
#[derive(Clone, Debug)]
pub struct InsertAccounts {
    pub page: PageSlot,
    pub payer_is_signer: bool,
    pub record: CacheSlot,
    pub store: Address,
    pub store_owner: Address,
    pub allocator: Address,
    /// The record stored at the offset, which the insert pushes back.
    pub above: Option<CacheSlot>,
    /// The record stored just before the offset.
    pub below: Option<CacheSlot>,
}

/// Which page to insert into, and where.
#[derive(Clone, Copy, Debug, PartialEq, Eq)]
pub struct SetStoreIndexArgs {
    pub offset: u64,
    pub page: u64,
}

/// The one change an accepted insert makes.
#[derive(Clone, Debug)]
pub struct PageCommit {
    /// Where the page slot was empty: the seeds, bump seed last, that sign
    /// its allocation with `PAGE_SIZE` bytes.
    pub create_with: Option<Vec<Vec<u8>>>,
    /// The new contents of the page slot.
    pub data: Vec<u8>,
}

/// What a commit holds.
pub open spec fn commit_view(c: PageCommit) -> (Option<Seq<Seq<u8>>>, Seq<u8>) {
    (
        match c.create_with {
            Some(s) => Some(s.deep_view()),
            None => None,
        },
        c.data@,
    )
}

/// The 32 zero bytes of the system program's address.
pub open spec fn system_address() -> Seq<u8> {
    Seq::new(32, |i: int| 0u8)
}

/// A freshly allocated page slot.
pub open spec fn zeroed_page() -> Seq<u8> {
    Seq::new(PAGE_SIZE as nat, |i: int| 0u8)
}

/// The error a supplied cache-record slot gives, if any: its address must be
/// derived from its own auction, and this program must own it.
pub open spec fn slot_error(program: Address, store: Address, s: CacheSlot) -> Option<IndexError> {
    if !derives(s.key@, cache_seeds(program@, store@, s.auction@), program@) {
        Some(IndexError::InvalidDerivation)
    } else if s.owner@ != program@ {
        Some(IndexError::NotOwnedByProgram)
    } else {
        None
    }
}

/// The error an optional neighbor slot gives, if any.
pub open spec fn neighbor_error(program: Address, store: Address, s: Option<CacheSlot>) -> Option<IndexError> {
    match s {
        Some(c) => slot_error(program, store, c),
        None => None,
    }
}

/// The neighbor that a supplied slot stands for.
pub open spec fn as_neighbor(s: Option<CacheSlot>) -> Option<Neighbor> {
    match s {
        Some(c) => Some(Neighbor { key: c.key, timestamp: c.timestamp }),
        None => None,
    }
}

/// What the page slot holds once it exists.
pub open spec fn page_contents(acc: InsertAccounts) -> Seq<u8> {
    if acc.page.data@.len() == 0 {
        zeroed_page()
    } else {
        acc.page.data@
    }
}

/// The outcome of inserting `acc.record` at `args.offset` of page `args.page`
/// of the index of `acc.store`: the first failed check decides the error;
/// otherwise the page slot is created where empty, and its new contents hold
/// the new sequence of references, tagged with the current format.
pub open spec fn set_store_index_outcome(program: Address, acc: InsertAccounts, args: SetStoreIndexArgs) -> Result<
    (Option<Seq<Seq<u8>>>, Seq<u8>),
    IndexError,
> {
    let seeds = index_seeds(program@, acc.store@, args.page as nat);
    let data = page_contents(acc);
    if !acc.payer_is_signer {
        Err(IndexError::NotAuthenticated)
    } else if acc.store_owner@ != program@ || acc.record.owner@ != program@ {
        Err(IndexError::NotOwnedByProgram)
    } else if acc.allocator@ != system_address() {
        Err(IndexError::InvalidAllocator)
    } else if !derives(acc.record.key@, cache_seeds(program@, acc.store@, acc.record.auction@), program@) {
        Err(IndexError::InvalidDerivation)
    } else if neighbor_error(program, acc.store, acc.below) is Some {
        Err(neighbor_error(program, acc.store, acc.below)->Some_0)
    } else if neighbor_error(program, acc.store, acc.above) is Some {
        Err(neighbor_error(program, acc.store, acc.above)->Some_0)
    } else if !derives(acc.page.key@, seeds, program@) {
        Err(IndexError::InvalidDerivation)
    } else if acc.page.data@.len() != 0 && acc.page.owner@ != program@ {
        Err(IndexError::NotOwnedByProgram)
    } else if !page_decodes(data) {
        Err(IndexError::InvalidPageData)
    } else {
        match insert_outcome(
            entries(data),
            args.offset as int,
            acc.record.key,
            acc.record.timestamp as int,
            as_neighbor(acc.above),
            as_neighbor(acc.below),
        ) {
            Err(e) => Err(e),
            Ok(caches) => Ok(
                (
                    if acc.page.data@.len() == 0 {
                        Some(seeds.push(seq![program_address(seeds, program@)->Some_0.1]))
                    } else {
                        None
                    },
                    page_image(PAGE_TAG, address_of(data.subrange(1, 33)), caches) + data.subrange(
                        entry_start(caches.len() as int),
                        data.len() as int,
                    ),
                ),
            ),
        }
    }
}

/// Checks a supplied cache-record slot.
fn check_slot(program: &Address, store: &Address, s: &CacheSlot) -> (r: Result<(), IndexError>)
    ensures
        r matches Err(e) ==> slot_error(*program, *store, *s) == Some(e),
        r is Ok ==> slot_error(*program, *store, *s) is None,
{
    let seeds = cache_seed_list(program, store, &s.auction);
    check_derivation(program, &s.key, &seeds)?;
    if !s.owner.same_as(program) {
        return Err(IndexError::NotOwnedByProgram);
    }
    Ok(())
}

/// Checks an optional neighbor slot.
fn check_neighbor(program: &Address, store: &Address, s: &Option<CacheSlot>) -> (r: Result<(), IndexError>)
    ensures
        r matches Err(e) ==> neighbor_error(*program, *store, *s) == Some(e),
        r is Ok ==> neighbor_error(*program, *store, *s) is None,
{
    match s {
        Some(c) => check_slot(program, store, c),
        None => Ok(()),
    }
}

/// The neighbor that a supplied slot stands for.
fn neighbor_of(s: &Option<CacheSlot>) -> (r: Option<Neighbor>)
    ensures
        r == as_neighbor(*s),
{
    match s {
        Some(c) => Some(Neighbor { key: c.key, timestamp: c.timestamp }),
        None => None,
    }
}

/// The contents of a newly allocated page slot.
fn zeroed_page_data() -> (r: Vec<u8>)
    ensures
        r@ == zeroed_page(),
{
    let mut v: Vec<u8> = Vec::new();
    let mut i: usize = 0;
    while i < PAGE_SIZE
        invariant
            i <= PAGE_SIZE,
            v@ == Seq::new(i as nat, |k: int| 0u8),
        decreases PAGE_SIZE - i,
    {
        v.push(0u8);
        i = i + 1;
        assert(v@ =~= Seq::new(i as nat, |k: int| 0u8));
    }
    v
}

/// Inserts a reference to a cache record into one page of a store's index,
/// after checking the caller, the ownership and derivation of every slot,
/// and the order of the records on both sides of the offset. Nothing is
/// written: an accepted insert returns the page slot's allocation, if it is
/// still empty, and its new contents.
pub fn process_set_store_index(program_id: &Address, accounts: &InsertAccounts, args: SetStoreIndexArgs) -> (r:
    Result<PageCommit, IndexError>)
    ensures
        match r {
            Ok(c) => set_store_index_outcome(*program_id, *accounts, args) == Ok::<
                (Option<Seq<Seq<u8>>>, Seq<u8>),
                IndexError,
            >(commit_view(c)),
            Err(e) => set_store_index_outcome(*program_id, *accounts, args) == Err::<
                (Option<Seq<Seq<u8>>>, Seq<u8>),
                IndexError,
            >(e),
        },
{
    let acc = accounts;
    if !acc.payer_is_signer {
        return Err(IndexError::NotAuthenticated);
    }
    if !acc.store_owner.same_as(program_id) || !acc.record.owner.same_as(program_id) {
        return Err(IndexError::NotOwnedByProgram);
    }
    if !is_system_program(&acc.allocator) {
        return Err(IndexError::InvalidAllocator);
    }
    let record_seeds = cache_seed_list(program_id, &acc.store, &acc.record.auction);
    check_derivation(program_id, &acc.record.key, &record_seeds)?;
    check_neighbor(program_id, &acc.store, &acc.below)?;
    check_neighbor(program_id, &acc.store, &acc.above)?;
    let seeds = index_seed_list(program_id, &acc.store, args.page);
    let bump = check_derivation(program_id, &acc.page.key, &seeds)?;
    let create = acc.page.data.len() == 0;
    if !create && !acc.page.owner.same_as(program_id) {
        return Err(IndexError::NotOwnedByProgram);
    }
    let data = if create {
        zeroed_page_data()
    } else {
        acc.page.data.clone()
    };
    assert(data@ == page_contents(*acc));
    let page = decode_page(&data)?;
    let caches = insert_at(
        &page.auction_caches,
        args.offset,
        acc.record.key,
        acc.record.timestamp,
        neighbor_of(&acc.above),
        neighbor_of(&acc.below),
    )?;
    let updated = IndexPage { tag: PAGE_TAG, store: page.store, auction_caches: caches };
    let new_data = write_page(&updated, &data);
    let create_with = if create {
        let mut signer = index_seed_list(program_id, &acc.store, args.page);
        let b = vec![bump];
        assert(b.deep_view() =~= seq![bump]);
        signer.push(b);
        assert(signer.deep_view() =~= seeds.deep_view().push(seq![bump]));
        Some(signer)
    } else {
        None
    };
    Ok(PageCommit { create_with, data: new_data })
}

/// Every supplied slot is at the address derived from its seeds.
pub open spec fn slots_derive(program: Address, acc: InsertAccounts, args: SetStoreIndexArgs) -> bool {
    &&& derives(acc.record.key@, cache_seeds(program@, acc.store@, acc.record.auction@), program@)
    &&& (acc.below matches Some(c) ==> derives(c.key@, cache_seeds(program@, acc.store@, c.auction@), program@))
    &&& (acc.above matches Some(c) ==> derives(c.key@, cache_seeds(program@, acc.store@, c.auction@), program@))
    &&& derives(acc.page.key@, index_seeds(program@, acc.store@, args.page as nat), program@)
}

/// The caller signed, the allocator is the system program, and this program
/// owns the store and every supplied record.
pub open spec fn access_ok(program: Address, acc: InsertAccounts) -> bool {
    &&& acc.payer_is_signer
    &&& acc.store_owner@ == program@
    &&& acc.record.owner@ == program@
    &&& acc.allocator@ == system_address()
    &&& (acc.below matches Some(c) ==> c.owner@ == program@)
    &&& (acc.above matches Some(c) ==> c.owner@ == program@)
}

/// A slot that is not at the address derived from its seeds makes the insert
/// fail, whatever it holds; once the caller, the allocator and the owners
/// have passed, the failure is `InvalidDerivation`.
pub proof fn lemma_derivation_rejection(program: Address, acc: InsertAccounts, args: SetStoreIndexArgs)
    ensures
        !slots_derive(program, acc, args) ==> set_store_index_outcome(program, acc, args) is Err,
        access_ok(program, acc) && !slots_derive(program, acc, args) ==> set_store_index_outcome(
            program,
            acc,
            args,
        ) == Err::<(Option<Seq<Seq<u8>>>, Seq<u8>), IndexError>(IndexError::InvalidDerivation),
{
}

/// An accepted insert leaves the page slot holding a page in the current
/// format whose references are the new sequence: the old ones before the
/// offset, the new record, then the old ones from the offset on; the page
/// stays within its capacity.
pub proof fn lemma_commit_holds_insert(program: Address, acc: InsertAccounts, args: SetStoreIndexArgs)
    requires
        set_store_index_outcome(program, acc, args) is Ok,
    ensures
        page_decodes(set_store_index_outcome(program, acc, args)->Ok_0.1),
        set_store_index_outcome(program, acc, args)->Ok_0.1[0] == PAGE_TAG,
        entries(set_store_index_outcome(program, acc, args)->Ok_0.1) == entries(page_contents(acc)).insert(
            args.offset as int,
            acc.record.key,
        ),
        entries(set_store_index_outcome(program, acc, args)->Ok_0.1).len() <= PAGE_CAPACITY,
{
    let data = page_contents(acc);
    let caches = entries(data).insert(args.offset as int, acc.record.key);
    let store = address_of(data.subrange(1, 33));
    lemma_write_then_read(PAGE_TAG, store, caches, data);
}

/// Inserting into a page that was never allocated allocates one slot of
/// `PAGE_SIZE` bytes and then goes exactly as an insert into an allocated,
/// empty page would.
pub proof fn lemma_lazy_creation(
    program: Address,
    acc: InsertAccounts,
    fresh: InsertAccounts,
    args: SetStoreIndexArgs,
)
    requires
        acc.page.data@.len() == 0,
        fresh.page.data@ == zeroed_page(),
        fresh.page.owner == program,
        fresh.page.key == acc.page.key,
        fresh.payer_is_signer == acc.payer_is_signer,
        fresh.record == acc.record,
        fresh.store == acc.store,
        fresh.store_owner == acc.store_owner,
        fresh.allocator == acc.allocator,
        fresh.above == acc.above,
        fresh.below == acc.below,
    ensures
        page_decodes(zeroed_page()),
        entries(zeroed_page()).len() == 0,
        match (set_store_index_outcome(program, acc, args), set_store_index_outcome(program, fresh, args)) {
            (Ok(a), Ok(b)) => a.1 == b.1 && a.1.len() == PAGE_SIZE && a.0 == Some(
                index_seeds(program@, acc.store@, args.page as nat).push(
                    seq![program_address(index_seeds(program@, acc.store@, args.page as nat), program@)->Some_0.1],
                ),
            ) && b.0 is None,
            (Err(x), Err(y)) => x == y,
            _ => false,
        },
{
    assert(read_le32(zeroed_page(), 33) == 0);
    assert(page_contents(acc) == page_contents(fresh));
    if set_store_index_outcome(program, acc, args) is Ok {
        lemma_commit_holds_insert(program, acc, args);
        let caches = entries(zeroed_page()).insert(args.offset as int, acc.record.key);
        lemma_flat_len(caches);
    }
}

} // verus!
