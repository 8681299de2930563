//! Plain-value forms of the ledger identifiers the registry works with.
use vstd::prelude::*;

verus! {

/// A 32-byte digest or identifier (nullifier, hash, Merkle root).
pub type Hash32 = [u8; 32];

/// A BN254 scalar-field element in its 32-byte big-endian encoding.
pub type Scalar = [u8; 32];

/// Byte-wise comparison of two byte strings.
pub fn bytes_equal(a: &[u8], b: &[u8]) -> (r: bool)
    ensures
        r == (a@ == b@),
{
    if a.len() != b.len() {
        return false;
    }
    let n = a.len();
    let mut i: usize = 0;
    while i < n
        invariant
            n == a@.len(),
            n == b@.len(),
            i <= n,
            forall|j: int| 0 <= j < i ==> a@[j] == b@[j],
        decreases n - i,
    {
        if a[i] != b[i] {
            return false;
        }
        i = i + 1;
    }
    assert(a@ =~= b@);
    true
}

/// A vector holding the elements of a slice.
pub fn copy_slice<T: Copy>(s: &[T]) -> (r: Vec<T>)
    ensures
        r@ == s@,
{
    let mut r: Vec<T> = Vec::with_capacity(s.len());
    let mut i: usize = 0;
    while i < s.len()
        invariant
            i <= s@.len(),
            r@ == s@.subrange(0, i as int),
        decreases s@.len() - i,
    {
        r.push(s[i]);
        i = i + 1;
        assert(r@ =~= s@.subrange(0, i as int));
    }
    assert(r@ =~= s@);
    r
}

/// A Soroban address (account or contract), held as the XDR encoding of its
/// `ScVal`. Two addresses are the same exactly when their encodings are.
#[derive(Clone, Debug, PartialEq, Eq)]
pub struct Address {
    pub xdr: Vec<u8>,
}

/// A Soroban symbol (such as an application id), held as the XDR encoding of
/// its `ScVal`.
#[derive(Clone, Debug, PartialEq, Eq)]
pub struct Symbol {
    pub xdr: Vec<u8>,
}

impl View for Address {
    type V = Seq<u8>;

    open spec fn view(&self) -> Seq<u8> {
        self.xdr@
    }
}

impl View for Symbol {
    type V = Seq<u8>;

    open spec fn view(&self) -> Seq<u8> {
        self.xdr@
    }
}

impl Address {
    pub fn same_as(&self, other: &Address) -> (r: bool)
        ensures
            r == (self@ == other@),
    {
        bytes_equal(self.xdr.as_slice(), other.xdr.as_slice())
    }

    pub fn duplicate(&self) -> (r: Address)
        ensures
            r@ == self@,
    {
        Address { xdr: copy_slice(self.xdr.as_slice()) }
    }
}

impl Symbol {
    pub fn same_as(&self, other: &Symbol) -> (r: bool)
        ensures
            r == (self@ == other@),
    {
        bytes_equal(self.xdr.as_slice(), other.xdr.as_slice())
    }

    pub fn duplicate(&self) -> (r: Symbol)
        ensures
            r@ == self@,
    {
        Symbol { xdr: copy_slice(self.xdr.as_slice()) }
    }
}

} // verus!
