//! Data protected by a parachute.
//!
//! Throwing an exception in Julia is implemented by jumping to the nearest enclosing catch block.
//! This can be problematic because jumping over a Rust function with pending drops can prevent
//! that data from being dropped. In order to ensure data is safely dropped even if Julia jumps,
//! a parachute can be attached to transfer ownership of the data from Rust to Julia.
use vstd::prelude::*;

use crate::data::text::{hex_chars, hex_string};

verus! {

/// The FNV-1a hash of `bytes`, continuing from the hash `h`: each byte is XORed into the hash,
/// which is then multiplied by the FNV prime `0x100000001b3`, wrapping around at 2^64.
pub open spec fn fnv_hash_from(h: u64, bytes: Seq<u8>) -> u64
    decreases bytes.len(),
{
    if bytes.len() == 0 {
        h
    } else {
        let mixed = (h ^ (bytes[0] as u64)) as int;
        fnv_hash_from(
            ((mixed * 0x100000001b3) % 0x1_0000_0000_0000_0000) as u64,
            bytes.drop_first(),
        )
    }
}

/// The FNV-1a hash of `bytes`: the hash starts at the offset basis `0xcbf29ce484222325`.
pub open spec fn fnv_hash(bytes: Seq<u8>) -> u64 {
    fnv_hash_from(0xcbf29ce484222325, bytes)
}

/// Hashes `bytes` with `fnv::FnvHasher`: a hasher made by `FnvHasher::default`, fed `bytes`
/// with `Hasher::write`, then read out with `Hasher::finish`. `default` starts the hash at the
/// offset basis, `write` XORs in each byte and multiplies by the FNV prime with wrapping, and
/// `finish` returns the hash: the result is [`fnv_hash`] of the bytes.
#[verifier::external_body]
fn fnv_hash_bytes(bytes: &[u8]) -> (r: u64)
    ensures
        r == fnv_hash(bytes@),
{
    let mut hasher = <fnv::FnvHasher as core::default::Default>::default();
    core::hash::Hasher::write(&mut hasher, bytes);
    core::hash::Hasher::finish(&hasher)
}

/// The name of the Julia type that holds data with a parachute, for a Rust type whose
/// `TypeId` feeds `type_id_bytes` to a hasher.
pub open spec fn parachute_name(type_id_bytes: Seq<u8>) -> Seq<char> {
    "__Parachute_"@ + hex_chars(fnv_hash(type_id_bytes) as nat) + "__"@
}

/// Returns the name of the Julia type that holds data of a Rust type with a parachute:
/// `__Parachute_`, the FNV hash of the bytes that the type's `TypeId` feeds to a hasher in
/// lowercase hexadecimal, and `__`.
pub fn parachute_type_name(type_id_bytes: &[u8]) -> (r: String)
    ensures
        r@ == parachute_name(type_id_bytes@),
{
    let hash = fnv_hash_bytes(type_id_bytes);
    let mut name = "__Parachute_".to_owned();
    let hex = hex_string(hash);
    name.append(hex.as_str());
    name.append("__");
    name
}

/// The object that Julia owns when a parachute is attached: it holds the protected data. The
/// Julia type of such objects is named after the `TypeId` of `Parachute<T>` (see
/// [`parachute_type_name`]).
pub struct Parachute<T> {
    data: T,
}

/// Data that has been protected with a parachute.
///
/// `WithParachute` behaves like a mutable reference to the protected data. The parachute can
/// be removed by calling `WithParachute::remove_parachute` to regain ownership.
pub struct WithParachute<'scope, T> {
    parachute: Parachute<T>,
    _scope: core::marker::PhantomData<&'scope ()>,
}

impl<'scope, T> WithParachute<'scope, T> {
    /// The protected data.
    pub closed spec fn protected(&self) -> T {
        self.parachute.data
    }

    /// Remove the parachute.
    ///
    /// Returns ownership of the data.
    pub fn remove_parachute(self) -> (r: T)
        ensures
            r == self.protected(),
    {
        self.parachute.data
    }

    /// Returns a reference to the protected data.
    pub fn as_ref(&self) -> (r: &T)
        ensures
            *r == self.protected(),
    {
        &self.parachute.data
    }

    /// Returns a mutable reference to the protected data: what is written through it is the
    /// protected data from then on.
    pub fn as_mut(&mut self) -> (r: &mut T)
        ensures
            *r == old(self).protected(),
            final(self).protected() == *final(r),
    {
        &mut self.parachute.data
    }
}

/// Attach a parachute to this data to ensure it's safely dropped if Julia jumps.
pub trait AttachParachute: Sized {
    /// Attach a parachute to this data, moving its ownership.
    fn attach_parachute<'scope>(self) -> (r: WithParachute<'scope, Self>)
        ensures
            r.protected() == self,
    {
        WithParachute {
            parachute: Parachute { data: self },
            _scope: core::marker::PhantomData,
        }
    }
}

impl<T: 'static + Sized + Send + Sync> AttachParachute for T {}

} // verus!
