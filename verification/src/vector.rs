//! The record model: one test case of a vector file.

use vstd::prelude::*;
use crate::text::same_bytes;

verus! {

/// The algorithm family of a scheme under test.
#[derive(Clone, Copy, Debug, PartialEq, Eq, Structural)]
pub enum Family {
    Signature,
    KeyEncapsulation,
    AuthenticatedEncryption,
}

/// The keys that a block of a signature vector file may hold.
#[derive(Clone, Copy, Debug, PartialEq, Eq, Structural)]
pub enum Key {
    Count,
    Mlen,
    Msg,
    Smlen,
    Sm,
    Pk,
    Sk,
}

/// The fields of one signature test case.
#[derive(Clone, Debug, PartialEq, Eq)]
pub struct SigVector {
    /// Index of the test case within its file.
    pub count: u64,
    /// The message that was signed.
    pub msg: Vec<u8>,
    /// The signed message, which verification takes.
    pub sm: Vec<u8>,
    /// The public key.
    pub pk: Vec<u8>,
    /// The private key, where the block gives one.
    pub sk: Option<Vec<u8>>,
}

/// What a `SigVector` holds, as mathematical values.
pub ghost struct SigVectorView {
    pub count: u64,
    pub msg: Seq<u8>,
    pub sm: Seq<u8>,
    pub pk: Seq<u8>,
    pub sk: Option<Seq<u8>>,
}

/// The bytes of an optional field.
pub open spec fn opt_bytes(o: Option<Vec<u8>>) -> Option<Seq<u8>> {
    match o {
        Some(v) => Some(v@),
        None => None,
    }
}

impl View for SigVector {
    type V = SigVectorView;

    open spec fn view(&self) -> SigVectorView {
        SigVectorView {
            count: self.count,
            msg: self.msg@,
            sm: self.sm@,
            pk: self.pk@,
            sk: opt_bytes(self.sk),
        }
    }
}

/// One test case, tagged with the scheme it belongs to.
#[derive(Clone, Debug, PartialEq, Eq)]
pub struct TestVector {
    pub scheme_type: Family,
    pub scheme_id: u32,
    pub sig: SigVector,
}

/// What a `TestVector` holds, as mathematical values.
pub ghost struct TestVectorView {
    pub scheme_type: Family,
    pub scheme_id: u32,
    pub sig: SigVectorView,
}

impl View for TestVector {
    type V = TestVectorView;

    open spec fn view(&self) -> TestVectorView {
        TestVectorView {
            scheme_type: self.scheme_type,
            scheme_id: self.scheme_id,
            sig: self.sig@,
        }
    }
}

/// The name under which a key stands in a vector file.
pub open spec fn key_name(k: Key) -> Seq<u8> {
    match k {
        Key::Count => seq![99u8, 111u8, 117u8, 110u8, 116u8],
        Key::Mlen => seq![109u8, 108u8, 101u8, 110u8],
        Key::Msg => seq![109u8, 115u8, 103u8],
        Key::Smlen => seq![115u8, 109u8, 108u8, 101u8, 110u8],
        Key::Sm => seq![115u8, 109u8],
        Key::Pk => seq![112u8, 107u8],
        Key::Sk => seq![115u8, 107u8],
    }
}

/// The key that `name` is the name of.
pub open spec fn key_named(name: Seq<u8>) -> Option<Key> {
    if name == key_name(Key::Count) {
        Some(Key::Count)
    } else if name == key_name(Key::Mlen) {
        Some(Key::Mlen)
    } else if name == key_name(Key::Msg) {
        Some(Key::Msg)
    } else if name == key_name(Key::Smlen) {
        Some(Key::Smlen)
    } else if name == key_name(Key::Sm) {
        Some(Key::Sm)
    } else if name == key_name(Key::Pk) {
        Some(Key::Pk)
    } else if name == key_name(Key::Sk) {
        Some(Key::Sk)
    } else {
        None
    }
}

/// The key that a family recognises under `name`. Only the signature
/// family has a field set; for the others every key is unrecognised.
pub open spec fn recognized(family: Family, name: Seq<u8>) -> Option<Key> {
    if family == Family::Signature {
        key_named(name)
    } else {
        None
    }
}

/// Every key is found again under its own name.
pub proof fn lemma_key_named(k: Key)
    ensures
        key_named(key_name(k)) == Some(k),
{
    assert(key_name(Key::Count).len() == 5);
    assert(key_name(Key::Smlen).len() == 5);
    assert(key_name(Key::Mlen).len() == 4);
    assert(key_name(Key::Msg).len() == 3);
    assert(key_name(Key::Sm).len() == 2);
    assert(key_name(Key::Pk).len() == 2);
    assert(key_name(Key::Sk).len() == 2);
    assert(key_name(Key::Count)[0] == 99u8);
    assert(key_name(Key::Smlen)[0] == 115u8);
    assert(key_name(Key::Sm)[1] == 109u8);
    assert(key_name(Key::Pk)[0] == 112u8);
    assert(key_name(Key::Sk)[1] == 107u8);
    assert(key_name(Key::Sk)[0] == 115u8);
}

/// The name of a key, as bytes.
pub fn key_bytes(k: Key) -> (r: Vec<u8>)
    ensures
        r@ == key_name(k),
{
    let r = match k {
        Key::Count => vec![99u8, 111u8, 117u8, 110u8, 116u8],
        Key::Mlen => vec![109u8, 108u8, 101u8, 110u8],
        Key::Msg => vec![109u8, 115u8, 103u8],
        Key::Smlen => vec![115u8, 109u8, 108u8, 101u8, 110u8],
        Key::Sm => vec![115u8, 109u8],
        Key::Pk => vec![112u8, 107u8],
        Key::Sk => vec![115u8, 107u8],
    };
    assert(r@ =~= key_name(k));
    r
}

fn names(name: &[u8], k: Key) -> (r: bool)
    ensures
        r == (name@ == key_name(k)),
{
    let n = key_bytes(k);
    same_bytes(name, n.as_slice())
}

/// Finds the key that a family recognises under `name`.
pub fn recognize(family: Family, name: &[u8]) -> (r: Option<Key>)
    ensures
        r == recognized(family, name@),
{
    if family != Family::Signature {
        None
    } else if names(name, Key::Count) {
        Some(Key::Count)
    } else if names(name, Key::Mlen) {
        Some(Key::Mlen)
    } else if names(name, Key::Msg) {
        Some(Key::Msg)
    } else if names(name, Key::Smlen) {
        Some(Key::Smlen)
    } else if names(name, Key::Sm) {
        Some(Key::Sm)
    } else if names(name, Key::Pk) {
        Some(Key::Pk)
    } else if names(name, Key::Sk) {
        Some(Key::Sk)
    } else {
        None
    }
}

} // verus!
