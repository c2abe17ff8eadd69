use vstd::prelude::*;

verus! {

/// Length in bytes of an account or mint identity.
pub const KEY_LEN: usize = 32;

/// The identity of an owner, an addressing salt, or an item: 32 raw bytes.
#[derive(Clone, Copy, Debug)]
pub struct Key {
    pub bytes: [u8; 32],
}

impl Key {
    /// Builds a key from its raw bytes.
    pub fn new(bytes: [u8; 32]) -> (k: Key)
        ensures
            k.bytes == bytes,
    {
        Key { bytes }
    }

    /// The raw bytes of the key.
    pub fn to_bytes(&self) -> (b: [u8; 32])
        ensures
            b == self.bytes,
    {
        self.bytes
    }
}

impl PartialEq for Key {
    fn eq(&self, other: &Key) -> (r: bool) {
        let mut i: usize = 0;
        while i < KEY_LEN
            invariant
                0 <= i <= KEY_LEN,
                forall|k: int| 0 <= k < i ==> self.bytes@[k] == other.bytes@[k],
            decreases KEY_LEN - i,
        {
            if self.bytes[i] != other.bytes[i] {
                return false;
            }
            i = i + 1;
        }
        proof {
            assert(self.bytes@ =~= other.bytes@);
        }
        true
    }
}

impl vstd::std_specs::cmp::PartialEqSpecImpl for Key {
    open spec fn obeys_eq_spec() -> bool {
        true
    }

    open spec fn eq_spec(&self, other: &Key) -> bool {
        self.bytes@ == other.bytes@
    }
}

impl Eq for Key {
}

/// Two keys hold the same bytes exactly when they are the same key.
pub proof fn lemma_key_eq(a: Key, b: Key)
    ensures
        (a.bytes@ == b.bytes@) <==> (a == b),
{
    if a.bytes@ == b.bytes@ {
        assert(a.bytes == b.bytes);
    }
}

} // verus!
