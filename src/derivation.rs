use vstd::prelude::*;
use crate::address::{Address, decimal, decimal_text};
use crate::error::IndexError;

verus! {

/// The address and bump seed that the program-address search yields for
/// `seeds` under `program`, or `None` where it yields none.
pub uninterp spec fn program_address(seeds: Seq<Seq<u8>>, program: Seq<u8>) -> Option<(Seq<u8>, u8)>;

/// Relies on solana_program's `Pubkey::try_find_program_address`: a hash of
/// the seeds and the program id, searched over bump seeds from the top; its
/// result depends on these arguments alone, and it returns `None` (it does not
/// panic) where no bump seed gives an address or the seeds are too many or too
/// long.
#[verifier::external_body]
fn find_program_address(seeds: &Vec<Vec<u8>>, program: &Address) -> (r: Option<(Address, u8)>)
    ensures
        r matches Some(p) ==> program_address(seeds.deep_view(), program@) == Some((p.0@, p.1)),
        r is None ==> program_address(seeds.deep_view(), program@) is None,
{
    let refs: Vec<&[u8]> = seeds.iter().map(|s| s.as_slice()).collect();
    let id = solana_program::pubkey::Pubkey::new_from_array(program.bytes);
    solana_program::pubkey::Pubkey::try_find_program_address(&refs, &id).map(
        |(key, bump)| (Address { bytes: key.to_bytes() }, bump),
    )
}

/// Relies on `solana_program::system_program::id`: the system program's
/// address, "11111111111111111111111111111111" in base 58, which is 32 zero
/// bytes.
#[verifier::external_body]
fn system_program_id() -> (r: Address)
    ensures
        r@ == Seq::new(32, |i: int| 0u8),
{
    Address { bytes: solana_program::system_program::id().to_bytes() }
}

/// The recognized storage allocator is the system program.
pub fn is_system_program(a: &Address) -> (r: bool)
    ensures
        r == (a@ == Seq::new(32, |i: int| 0u8)),
{
    let sys = system_program_id();
    a.same_as(&sys)
}

/// The first seed of every derivation: "metaplex".
pub open spec fn prefix_seed() -> Seq<u8> {
    seq![109u8, 101, 116, 97, 112, 108, 101, 120]
}

/// The last seed of a cache record's derivation: "cache".
pub open spec fn cache_seed() -> Seq<u8> {
    seq![99u8, 97, 99, 104, 101]
}

/// The fourth seed of an index page's derivation: "index".
pub open spec fn index_seed() -> Seq<u8> {
    seq![105u8, 110, 100, 101, 120]
}

/// The seeds that a cache record of `auction` in `store` is derived from.
pub open spec fn cache_seeds(program: Seq<u8>, store: Seq<u8>, auction: Seq<u8>) -> Seq<Seq<u8>> {
    seq![prefix_seed(), program, store, auction, cache_seed()]
}

/// The seeds that page `page` of the index of `store` is derived from.
pub open spec fn index_seeds(program: Seq<u8>, store: Seq<u8>, page: nat) -> Seq<Seq<u8>> {
    seq![prefix_seed(), program, store, index_seed(), decimal(page)]
}

/// `addr` is the address derived from `seeds` under `program`.
pub open spec fn derives(addr: Seq<u8>, seeds: Seq<Seq<u8>>, program: Seq<u8>) -> bool {
    program_address(seeds, program) matches Some(p) && p.0 == addr
}

/// A byte vector's deep view is its view.
proof fn lemma_bytes_deep_view(v: &Vec<u8>)
    ensures
        v.deep_view() == v@,
{
    assert(v.deep_view() =~= v@);
}

/// The seeds of a cache record.
pub fn cache_seed_list(program: &Address, store: &Address, auction: &Address) -> (r: Vec<Vec<u8>>)
    ensures
        r.deep_view() == cache_seeds(program@, store@, auction@),
{
    let s0 = vec![109u8, 101, 116, 97, 112, 108, 101, 120];
    let s1 = program.to_vec();
    let s2 = store.to_vec();
    let s3 = auction.to_vec();
    let s4 = vec![99u8, 97, 99, 104, 101];
    proof {
        lemma_bytes_deep_view(&s0);
        lemma_bytes_deep_view(&s1);
        lemma_bytes_deep_view(&s2);
        lemma_bytes_deep_view(&s3);
        lemma_bytes_deep_view(&s4);
        assert(s0@ =~= prefix_seed());
        assert(s4@ =~= cache_seed());
    }
    let r = vec![s0, s1, s2, s3, s4];
    assert(r.deep_view() =~= cache_seeds(program@, store@, auction@));
    r
}

/// The seeds of an index page.
pub fn index_seed_list(program: &Address, store: &Address, page: u64) -> (r: Vec<Vec<u8>>)
    ensures
        r.deep_view() == index_seeds(program@, store@, page as nat),
{
    let s0 = vec![109u8, 101, 116, 97, 112, 108, 101, 120];
    let s1 = program.to_vec();
    let s2 = store.to_vec();
    let s3 = vec![105u8, 110, 100, 101, 120];
    let s4 = decimal_text(page);
    proof {
        lemma_bytes_deep_view(&s0);
        lemma_bytes_deep_view(&s1);
        lemma_bytes_deep_view(&s2);
        lemma_bytes_deep_view(&s3);
        lemma_bytes_deep_view(&s4);
        assert(s0@ =~= prefix_seed());
        assert(s3@ =~= index_seed());
    }
    let r = vec![s0, s1, s2, s3, s4];
    assert(r.deep_view() =~= index_seeds(program@, store@, page as nat));
    r
}

/// Checks that `addr` is derived from `seeds` under `program`, and returns
/// the bump seed of the derivation.
pub fn check_derivation(program: &Address, addr: &Address, seeds: &Vec<Vec<u8>>) -> (r: Result<u8, IndexError>)
    ensures
        r is Ok <==> derives(addr@, seeds.deep_view(), program@),
        r matches Ok(b) ==> program_address(seeds.deep_view(), program@) == Some((addr@, b)),
        r matches Err(e) ==> e == IndexError::InvalidDerivation,
{
    match find_program_address(seeds, program) {
        Some((key, bump)) => {
            if key.same_as(addr) {
                Ok(bump)
            } else {
                Err(IndexError::InvalidDerivation)
            }
        },
        None => Err(IndexError::InvalidDerivation),
    }
}

} // verus!
