use vstd::prelude::*;

verus! {

/// Plaintext secret material: a password typed by the user, generated, or
/// returned by decryption. It is held only for the one operation that needs it
/// and is wiped as soon as that operation is done with it.
pub struct Secret {
    bytes: Vec<u8>,
}

impl View for Secret {
    type V = Seq<u8>;

    closed spec fn view(&self) -> Seq<u8> {
        self.bytes@
    }
}

impl Secret {
    /// Takes ownership of `bytes` as secret material.
    pub fn new(bytes: Vec<u8>) -> (s: Secret)
        ensures
            s@ == bytes@,
    {
        Secret { bytes }
    }

    /// The secret's bytes, for handing to the encryption engine or for display.
    pub fn expose(&self) -> (r: &[u8])
        ensures
            r@ == self@,
    {
        self.bytes.as_slice()
    }

    /// The number of bytes held.
    pub fn len(&self) -> (r: usize)
        ensures
            r == self@.len(),
    {
        self.bytes.len()
    }

    /// Whether two secrets hold the same bytes.
    pub fn same_as(&self, other: &Secret) -> (r: bool)
        ensures
            r == (self@ == other@),
    {
        let n = self.bytes.len();
        if n != other.bytes.len() {
            return false;
        }
        let mut i: usize = 0;
        while i < n
            invariant
                n == self.bytes@.len(),
                n == other.bytes@.len(),
                i <= n,
                forall|j: int| 0 <= j < i ==> self.bytes@[j] == other.bytes@[j],
            decreases n - i,
        {
            if self.bytes[i] != other.bytes[i] {
                return false;
            }
            i = i + 1;
        }
        assert(self.bytes@ =~= other.bytes@);
        true
    }

    /// Overwrites every byte with zero, then empties the secret.
    pub fn wipe(&mut self)
        ensures
            final(self)@ == Seq::<u8>::empty(),
    {
        let n = self.bytes.len();
        let mut i: usize = 0;
        while i < n
            invariant
                n == self.bytes@.len(),
                i <= n,
            decreases n - i,
        {
            self.bytes.set(i, 0);
            i = i + 1;
        }
        self.bytes.clear();
    }
}

} // verus!
