//! The identity key: the address of a referenced value, kept as a number
//! and compared, hashed and printed as that number.

use crate::hex::{hex_literal, is_hex_literal, lemma_hex_literal_injective, to_hex_literal};
use std::collections::hash_map::DefaultHasher;
use std::hash::Hasher;
use vstd::bytes::{spec_u64_to_le_bytes, u64_to_le_bytes};
use vstd::prelude::*;
use vstd::std_specs::cmp::PartialEqSpec;
use vstd::std_specs::hash::DefaultHasherAdditionalSpecFns;

verus! {

/// The identity of a referenced value: the address of its storage at the
/// moment the key was made, and nothing else.
///
/// Two keys are equal exactly when they hold the same address. A key never
/// reads what lies at its address and does not keep it alive. If the
/// storage is freed and handed out again for another value, a key made
/// before and a key made after are equal although the values are not the
/// same: keeping a value in place for as long as its key is meant to stand
/// for it is the caller's part.
#[derive(Clone, Copy, Eq, Hash)]
pub struct PointerAddress(usize);

impl View for PointerAddress {
    type V = usize;

    /// The address that the key holds.
    closed spec fn view(&self) -> usize {
        self.0
    }
}

/// Reads the address that a reference holds: `std::ptr::from_ref` turns the
/// reference into a pointer, and the pointer is cast to a number. The
/// referenced value is not read. The contract claims what holds of every
/// reference: it is not null and it is aligned for its type. Where the
/// value lies is not stated, so two calls on one reference are not known to
/// agree.
#[verifier::external_body]
fn address_of<T>(ptr: &T) -> (address: usize)
    ensures
        address != 0,
        address as nat % vstd::layout::align_of::<T>() == 0,
{
    std::ptr::from_ref(ptr) as usize
}

/// What `hash_code` returns for a key that holds `address`: the digest of
/// the standard library's default hasher after one write of the address as
/// eight bytes, least significant first.
pub open spec fn address_hash(address: usize) -> u64 {
    DefaultHasher::spec_finish(seq![spec_u64_to_le_bytes(address as u64)])
}

impl PointerAddress {
    /// The key that holds `address`.
    ///
    /// This is for identities that are numbers to begin with, such as the
    /// index of a slot in an arena; `new` makes each of its keys with it.
    pub fn from_address(address: usize) -> (key: Self)
        ensures
            key@ == address,
    {
        PointerAddress(address)
    }

    /// The key of the storage that `ptr` refers to, taken now. The value
    /// behind `ptr` is not read.
    ///
    /// Which address comes back is up to where the value lies; it is never
    /// zero and always a multiple of the type's alignment.
    pub fn new<T>(ptr: &T) -> (key: Self)
        ensures
            key@ != 0,
            key@ as nat % vstd::layout::align_of::<T>() == 0,
    {
        Self::from_address(address_of(ptr))
    }

    /// A hash of the key that depends on its address and on nothing else.
    pub fn hash_code(&self) -> (code: u64)
        ensures
            code == address_hash(self@),
    {
        let bytes = u64_to_le_bytes(self.0 as u64);
        let mut hasher = DefaultHasher::new();
        hasher.write(bytes.as_slice());
        hasher.finish()
    }

    /// The address as a hexadecimal literal, for diagnostics: `0X`, then the
    /// digits of the address in upper case without padding.
    pub fn debug_format(&self) -> (text: String)
        ensures
            text@ == hex_literal(self@ as nat),
            is_hex_literal(text@),
    {
        to_hex_literal(self.0)
    }
}

impl PartialEq for PointerAddress {
    /// Whether both keys hold the same address.
    fn eq(&self, other: &Self) -> (same: bool) {
        self.0 == other.0
    }
}

impl vstd::std_specs::cmp::PartialEqSpecImpl for PointerAddress {
    open spec fn obeys_eq_spec() -> bool {
        true
    }

    open spec fn eq_spec(&self, other: &Self) -> bool {
        self@ == other@
    }
}

/// Two keys are equal exactly when they hold the same address, and then
/// they are the same value.
pub proof fn lemma_equal_iff_same_address(a: PointerAddress, b: PointerAddress)
    ensures
        a.eq_spec(&b) <==> a@ == b@,
        a.eq_spec(&b) <==> a == b,
{
}

/// Equality of keys is reflexive, symmetric and transitive.
pub proof fn lemma_equality_is_equivalence(a: PointerAddress, b: PointerAddress, c: PointerAddress)
    ensures
        a.eq_spec(&a),
        a.eq_spec(&b) ==> b.eq_spec(&a),
        a.eq_spec(&b) && b.eq_spec(&c) ==> a.eq_spec(&c),
{
}

/// Equal keys have equal hashes.
pub proof fn lemma_equal_keys_hash_equal(a: PointerAddress, b: PointerAddress)
    requires
        a.eq_spec(&b),
    ensures
        address_hash(a@) == address_hash(b@),
{
}

/// A copy of a key is equal to the key, hashes as the key does and prints
/// as the key does.
pub proof fn lemma_copy_is_same_key(a: PointerAddress, copy: PointerAddress)
    requires
        copy == a,
    ensures
        a.eq_spec(&copy),
        address_hash(copy@) == address_hash(a@),
        hex_literal(copy@ as nat) == hex_literal(a@ as nat),
{
}

/// Two keys print alike exactly when they are equal.
pub proof fn lemma_same_text_iff_equal(a: PointerAddress, b: PointerAddress)
    ensures
        hex_literal(a@ as nat) == hex_literal(b@ as nat) <==> a.eq_spec(&b),
{
    if hex_literal(a@ as nat) == hex_literal(b@ as nat) {
        lemma_hex_literal_injective(a@ as nat, b@ as nat);
    }
}

} // verus!
