use vstd::prelude::*;
use crate::address::{Address, address_of, lemma_address_of};
use crate::error::IndexError;
use crate::page::PAGE_CAPACITY;

verus! {

/// The tag byte of a slot that has been allocated but never written.
pub const UNINITIALIZED_TAG: u8 = 0;

/// The tag byte of an index page in its current format.
pub const PAGE_TAG: u8 = 13;

/// Bytes before the first reference: tag, store address, reference count.
pub const HEADER_SIZE: usize = 37;

/// The size of a page slot, fixed when the slot is allocated.
pub const PAGE_SIZE: usize = HEADER_SIZE + 32 * PAGE_CAPACITY;

/// One page of the index: its format tag, the store that owns it, and the
/// addresses of the cache records it references, newest first.
#[derive(Clone, Debug)]
pub struct IndexPage {
    pub tag: u8,
    pub store: Address,
    pub auction_caches: Vec<Address>,
}

/// `n` as four little-endian bytes.
pub open spec fn le32(n: nat) -> Seq<u8> {
    seq![(n % 256) as u8, (n / 256 % 256) as u8, (n / 65536 % 256) as u8, (n / 16777216 % 256) as u8]
}

/// The little-endian number held in `b[at..at + 4]`.
pub open spec fn read_le32(b: Seq<u8>, at: int) -> nat {
    (b[at] + 256 * b[at + 1] + 65536 * b[at + 2] + 16777216 * b[at + 3]) as nat
}

/// The addresses of `s` laid end to end.
pub open spec fn flat(s: Seq<Address>) -> Seq<u8>
    decreases s.len(),
{
    if s.len() == 0 {
        Seq::empty()
    } else {
        flat(s.drop_last()) + s.last()@
    }
}

/// The bytes that a page is written as.
pub open spec fn page_image(tag: u8, store: Address, caches: Seq<Address>) -> Seq<u8> {
    seq![tag] + store@ + le32(caches.len()) + flat(caches)
}

/// Where the `i`-th reference starts in a page slot.
pub open spec fn entry_start(i: int) -> int {
    HEADER_SIZE + 32 * i
}

/// `data` is a page slot that holds an index page (or a zeroed one).
pub open spec fn page_decodes(data: Seq<u8>) -> bool {
    &&& data.len() == PAGE_SIZE
    &&& (data[0] == UNINITIALIZED_TAG || data[0] == PAGE_TAG)
    &&& entry_start(read_le32(data, 33) as int) <= data.len()
}

/// The references that a page slot holds, where `page_decodes(data)`.
pub open spec fn entries(data: Seq<u8>) -> Seq<Address> {
    Seq::new(
        read_le32(data, 33),
        |i: int| address_of(data.subrange(entry_start(i), entry_start(i) + 32)),
    )
}

/// `page` is the page that `data` holds, where `page_decodes(data)`.
pub open spec fn page_of(data: Seq<u8>, page: IndexPage) -> bool {
    &&& page.tag == data[0]
    &&& page.store == address_of(data.subrange(1, 33))
    &&& page.auction_caches@ == entries(data)
}

/// Reads the page held in a page slot.
pub fn decode_page(data: &Vec<u8>) -> (r: Result<IndexPage, IndexError>)
    ensures
        r is Ok <==> page_decodes(data@),
        r matches Ok(p) ==> page_of(data@, p),
        r matches Err(e) ==> e == IndexError::InvalidPageData,
{
    if data.len() != PAGE_SIZE {
        return Err(IndexError::InvalidPageData);
    }
    if data[0] != UNINITIALIZED_TAG && data[0] != PAGE_TAG {
        return Err(IndexError::InvalidPageData);
    }
    let n: u64 = data[33] as u64 + 256 * (data[34] as u64) + 65536 * (data[35] as u64) + 16777216 * (
    data[36] as u64);
    if HEADER_SIZE as u64 + 32 * n > PAGE_SIZE as u64 {
        return Err(IndexError::InvalidPageData);
    }
    let store = Address::read_at(data, 1);
    let mut caches: Vec<Address> = Vec::new();
    let mut i: u64 = 0;
    while i < n
        invariant
            data@.len() == PAGE_SIZE,
            HEADER_SIZE + 32 * n <= PAGE_SIZE,
            i <= n,
            caches@.len() == i,
            forall|k: int|
                0 <= k < i ==> #[trigger] caches@[k] == address_of(
                    data@.subrange(entry_start(k), entry_start(k) + 32),
                ),
        decreases n - i,
    {
        let at: usize = (HEADER_SIZE as u64 + 32 * i) as usize;
        let a = Address::read_at(data, at);
        proof {
            lemma_address_of(a);
        }
        caches.push(a);
        i = i + 1;
    }
    proof {
        lemma_address_of(store);
        assert(caches@ =~= entries(data@));
    }
    Ok(IndexPage { tag: data[0], store, auction_caches: caches })
}

/// Appends the bytes of `a` to `out`.
fn append_address(out: &mut Vec<u8>, a: &Address)
    ensures
        final(out)@ == old(out)@ + a@,
{
    let mut i: usize = 0;
    while i < 32
        invariant
            0 <= i <= 32,
            a@.len() == 32,
            out@ == old(out)@ + a@.subrange(0, i as int),
        decreases 32 - i,
    {
        out.push(a.bytes[i]);
        i = i + 1;
        assert(out@ =~= old(out)@ + a@.subrange(0, i as int));
    }
    assert(a@.subrange(0, 32) =~= a@);
}

/// Writes `page` over the front of the slot contents `data`; the bytes past
/// the page's image keep their old values.
pub fn write_page(page: &IndexPage, data: &Vec<u8>) -> (r: Vec<u8>)
    requires
        entry_start(page.auction_caches@.len() as int) <= data@.len(),
    ensures
        r@ == page_image(page.tag, page.store, page.auction_caches@) + data@.subrange(
            entry_start(page.auction_caches@.len() as int),
            data@.len() as int,
        ),
{
    let caches = &page.auction_caches;
    let n = caches.len();
    let mut out: Vec<u8> = Vec::new();
    out.push(page.tag);
    append_address(&mut out, &page.store);
    let n32 = n as u64;
    out.push((n32 % 256) as u8);
    out.push((n32 / 256 % 256) as u8);
    out.push((n32 / 65536 % 256) as u8);
    out.push((n32 / 16777216 % 256) as u8);
    let ghost head = out@;
    assert(head =~= seq![page.tag] + page.store@ + le32(n as nat));
    let mut k: usize = 0;
    while k < n
        invariant
            n == caches@.len(),
            k <= n,
            out@ == head + flat(caches@.subrange(0, k as int)),
        decreases n - k,
    {
        append_address(&mut out, &caches[k]);
        assert(caches@.subrange(0, k + 1).drop_last() =~= caches@.subrange(0, k as int));
        k = k + 1;
    }
    assert(caches@.subrange(0, n as int) =~= caches@);
    proof {
        lemma_flat_len(caches@);
    }
    let mut j: usize = out.len();
    let ghost image = out@;
    assert(image.len() == entry_start(n as int));
    while j < data.len()
        invariant
            image.len() <= j <= data@.len(),
            out@ == image + data@.subrange(image.len() as int, j as int),
        decreases data@.len() - j,
    {
        out.push(data[j]);
        j = j + 1;
        assert(out@ =~= image + data@.subrange(image.len() as int, j as int));
    }
    out
}

/// Laid end to end, addresses take 32 bytes each.
pub proof fn lemma_flat_len(s: Seq<Address>)
    ensures
        flat(s).len() == 32 * s.len(),
    decreases s.len(),
{
    if s.len() > 0 {
        lemma_flat_len(s.drop_last());
    }
}

/// The `i`-th address sits at bytes `32 * i` to `32 * i + 32` of the flat image.
pub proof fn lemma_flat_index(s: Seq<Address>, i: int)
    requires
        0 <= i < s.len(),
    ensures
        flat(s).subrange(32 * i, 32 * i + 32) == s[i]@,
    decreases s.len(),
{
    lemma_flat_len(s.drop_last());
    if i == s.len() - 1 {
        assert(flat(s).subrange(32 * i, 32 * i + 32) =~= s[i]@);
    } else {
        lemma_flat_index(s.drop_last(), i);
        lemma_flat_len(s.drop_last());
        assert(flat(s).subrange(32 * i, 32 * i + 32) =~= flat(s.drop_last()).subrange(32 * i, 32 * i + 32));
    }
}

/// A page written over a page slot reads back as the same page.
pub proof fn lemma_write_then_read(tag: u8, store: Address, caches: Seq<Address>, data: Seq<u8>)
    requires
        data.len() == PAGE_SIZE,
        tag == UNINITIALIZED_TAG || tag == PAGE_TAG,
        caches.len() <= PAGE_CAPACITY,
    ensures
        ({
            let w = page_image(tag, store, caches) + data.subrange(entry_start(caches.len() as int), data.len() as int);
            &&& page_decodes(w)
            &&& w[0] == tag
            &&& address_of(w.subrange(1, 33)) == store
            &&& entries(w) == caches
        }),
{
    let n = caches.len();
    let head = seq![tag] + store@ + le32(n);
    let w = page_image(tag, store, caches) + data.subrange(entry_start(n as int), data.len() as int);
    lemma_flat_len(caches);
    assert(head.len() == HEADER_SIZE);
    assert(w[0] == tag);
    assert(w.subrange(1, 33) =~= store@);
    lemma_address_of(store);
    assert(w[33] == n % 256 && w[34] == n / 256 % 256 && w[35] == n / 65536 % 256 && w[36] == n / 16777216 % 256);
    assert(read_le32(w, 33) == n);
    assert forall|i: int| 0 <= i < n implies #[trigger] entries(w)[i] == caches[i] by {
        lemma_flat_index(caches, i);
        assert(w.subrange(entry_start(i), entry_start(i) + 32) =~= flat(caches).subrange(32 * i, 32 * i + 32));
        lemma_address_of(caches[i]);
    }
    assert(entries(w) =~= caches);
}

} // verus!
