//! Keys, as the transaction logic handles them.
use vstd::prelude::*;
use vstd::std_specs::convert::FromSpecImpl;

verus! {

/// The key of a row, as raw bytes.
#[derive(Clone, Debug)]
pub struct Key(Vec<u8>);

impl View for Key {
    type V = Seq<u8>;

    /// The bytes of the key.
    closed spec fn view(&self) -> Seq<u8> {
        self.0@
    }
}

impl Key {
    /// The bytes of the key, taken out of it.
    pub fn into_bytes(self) -> (r: Vec<u8>)
        ensures
            r@ == self@,
    {
        self.0
    }
}

impl From<Vec<u8>> for Key {
    fn from(bytes: Vec<u8>) -> (r: Key) {
        Key(bytes)
    }
}

impl FromSpecImpl<Vec<u8>> for Key {
    open spec fn obeys_from_spec() -> bool {
        true
    }

    open spec fn from_spec(bytes: Vec<u8>) -> Key {
        Key::from_bytes_spec(bytes)
    }
}

impl Key {
    /// The key made of `bytes`.
    pub closed spec fn from_bytes_spec(bytes: Vec<u8>) -> Key {
        Key(bytes)
    }

    /// The key made of `bytes` has their view.
    pub broadcast proof fn lemma_from_bytes_view(bytes: Vec<u8>)
        ensures
            #[trigger] Key::from_bytes_spec(bytes)@ == bytes@,
    {
    }
}

} // verus!
