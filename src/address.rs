use vstd::prelude::*;

verus! {

/// A 32-byte storage address.
#[derive(Clone, Copy, Debug, PartialEq, Eq)]
pub struct Address {
    pub bytes: [u8; 32],
}

impl View for Address {
    type V = Seq<u8>;

    open spec fn view(&self) -> Seq<u8> {
        self.bytes@
    }
}

impl Address {
    pub fn new(bytes: [u8; 32]) -> (r: Address)
        ensures
            r@ == bytes@,
    {
        Address { bytes }
    }

    /// Byte-wise comparison of two addresses.
    pub fn same_as(&self, other: &Address) -> (r: bool)
        ensures
            r == (self@ == other@),
    {
        let mut i: usize = 0;
        while i < 32
            invariant
                0 <= i <= 32,
                self@.len() == 32,
                other@.len() == 32,
                forall|j: int| 0 <= j < i ==> self@[j] == other@[j],
            decreases 32 - i,
        {
            if self.bytes[i] != other.bytes[i] {
                return false;
            }
            i = i + 1;
        }
        assert(self@ =~= other@);
        true
    }

    /// The address held in `data[start..start + 32]`.
    pub fn read_at(data: &Vec<u8>, start: usize) -> (r: Address)
        requires
            start + 32 <= data@.len(),
        ensures
            r@ == data@.subrange(start as int, start + 32),
    {
        let mut b: [u8; 32] = [0u8; 32];
        let dl = data.len();
        let mut i: usize = 0;
        while i < 32
            invariant
                0 <= i <= 32,
                dl == data@.len(),
                start + 32 <= dl,
                b@.len() == 32,
                forall|j: int| 0 <= j < i ==> b@[j] == data@[start + j],
            decreases 32 - i,
        {
            b[i] = data[start + i];
            i = i + 1;
        }
        assert(b@ =~= data@.subrange(start as int, start + 32));
        Address { bytes: b }
    }

    /// The address as a byte vector, e.g. to serve as a derivation seed.
    pub fn to_vec(&self) -> (r: Vec<u8>)
        ensures
            r@ == self@,
    {
        let mut v: Vec<u8> = Vec::new();
        let mut i: usize = 0;
        while i < 32
            invariant
                0 <= i <= 32,
                self@.len() == 32,
                v@ == self@.subrange(0, i as int),
            decreases 32 - i,
        {
            v.push(self.bytes[i]);
            i = i + 1;
            assert(v@ =~= self@.subrange(0, i as int));
        }
        assert(self@.subrange(0, 32) =~= self@);
        v
    }
}

/// The address whose bytes are `s` (for `s` of 32 bytes).
pub open spec fn address_of(s: Seq<u8>) -> Address {
    choose|a: Address| a@ == s
}

/// An address is the one its bytes name.
pub proof fn lemma_address_of(a: Address)
    ensures
        address_of(a@) == a,
{
    assert(exists|x: Address| #[trigger] x@ == a@) by {
        assert(a@ == a@);
    }
    let c = address_of(a@);
    assert(c.bytes =~= a.bytes);
}

/// The decimal digits of `n`, most significant first, as ASCII bytes.
pub open spec fn decimal(n: nat) -> Seq<u8>
    decreases n,
{
    if n < 10 {
        seq![(48 + n) as u8]
    } else {
        decimal(n / 10).push((48 + n % 10) as u8)
    }
}

/// Renders `n` as decimal text.
pub fn decimal_text(n: u64) -> (r: Vec<u8>)
    ensures
        r@ == decimal(n as nat),
    decreases n,
{
    if n < 10 {
        let d: u8 = (48 + n) as u8;
        vec![d]
    } else {
        let mut v = decimal_text(n / 10);
        let d: u8 = (48 + n % 10) as u8;
        v.push(d);
        v
    }
}

} // verus!
