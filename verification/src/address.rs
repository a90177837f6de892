use vstd::prelude::*;

verus! {

/// An account or contract address, held as its canonical XDR encoding
/// (the bytes that `ToXdr` produces for an `Address` value).
/// Two addresses are the same exactly when their encodings are equal.
#[derive(Debug)]
pub struct Address {
    bytes: Vec<u8>,
}

impl View for Address {
    type V = Seq<u8>;

    closed spec fn view(&self) -> Seq<u8> {
        self.bytes@
    }
}

impl Address {
    /// Wraps an encoded address.
    pub fn from_bytes(bytes: Vec<u8>) -> (a: Address)
        ensures
            a@ == bytes@,
    {
        Address { bytes }
    }

    /// The encoded address.
    pub fn as_bytes(&self) -> (b: &[u8])
        ensures
            b@ == self@,
    {
        self.bytes.as_slice()
    }

    /// Whether two addresses are the same.
    pub fn same(&self, other: &Address) -> (r: bool)
        ensures
            r == (self@ == other@),
    {
        let n = self.bytes.len();
        if n != other.bytes.len() {
            return false;
        }
        let mut i: usize = 0;
        while i < n
            invariant
                n == self.bytes@.len(),
                n == other.bytes@.len(),
                i <= n,
                forall|j: int| 0 <= j < i ==> self.bytes@[j] == other.bytes@[j],
            decreases n - i,
        {
            if self.bytes[i] != other.bytes[i] {
                return false;
            }
            i = i + 1;
        }
        assert(self.bytes@ =~= other.bytes@);
        true
    }

    /// A copy of this address.
    pub fn duplicate(&self) -> (r: Address)
        ensures
            r@ == self@,
    {
        let mut out: Vec<u8> = Vec::new();
        let n = self.bytes.len();
        let mut i: usize = 0;
        while i < n
            invariant
                n == self.bytes@.len(),
                i <= n,
                out@ =~= self.bytes@.take(i as int),
            decreases n - i,
        {
            out.push(self.bytes[i]);
            i = i + 1;
        }
        assert(out@ =~= self.bytes@);
        Address { bytes: out }
    }
}

} // verus!
