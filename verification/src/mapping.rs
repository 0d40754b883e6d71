//! The memory maps of `memmap2`, seen as sequences of bytes.
//!
//! Nothing in this module is proved: each item states what the crate's
//! `Deref`, `DerefMut` and `flush` are taken to do.
use vstd::prelude::*;
use memmap2::{Mmap, MmapMut};
use std::ops::{Deref, DerefMut};

verus! {

/// `memmap2::Mmap`, a read-only memory map; its inside is not looked at.
#[verifier::external_type_specification]
#[verifier::external_body]
pub struct ExMmap(Mmap);

/// `memmap2::MmapMut`, a writable memory map; its inside is not looked at.
#[verifier::external_type_specification]
#[verifier::external_body]
pub struct ExMmapMut(MmapMut);

/// `std::io::Error`, which a failed synchronisation returns; its inside is
/// not looked at.
#[verifier::external_type_specification]
#[verifier::external_body]
pub struct ExIoError(std::io::Error);

/// The bytes that a read-only map shows. A map is taken to show the same
/// bytes for as long as nothing writes to it through the handle: whoever maps
/// a file answers for that when mapping it.
pub uninterp spec fn mmap_bytes(map: &Mmap) -> Seq<u8>;

/// The bytes that a writable map shows, under the same understanding.
pub uninterp spec fn mmap_mut_bytes(map: &MmapMut) -> Seq<u8>;

/// `<memmap2::Mmap as Deref>::deref`: the whole mapped region as a slice.
#[verifier::external_body]
pub(crate) fn mmap_slice<'a>(map: &'a Mmap) -> (bytes: &'a [u8])
    ensures
        bytes@ == mmap_bytes(map),
{
    map.deref()
}

/// `<memmap2::MmapMut as Deref>::deref`: the whole mapped region as a slice.
#[verifier::external_body]
pub(crate) fn mmap_mut_slice<'a>(map: &'a MmapMut) -> (bytes: &'a [u8])
    ensures
        bytes@ == mmap_mut_bytes(map),
{
    map.deref()
}

/// `<memmap2::MmapMut as DerefMut>::deref_mut`: the whole mapped region as a
/// mutable slice. The slice starts out as the map's bytes, and what is left in
/// it when the borrow ends is what the map then shows; the map is as long
/// after the borrow as before it. The call does not unwind.
#[verifier::external_body]
pub(crate) fn mmap_mut_slice_mut<'a>(map: &'a mut MmapMut) -> (bytes: &'a mut [u8])
    ensures
        bytes@ == mmap_mut_bytes(old(map)),
        mmap_mut_bytes(final(map)) == final(bytes)@,
        mmap_mut_bytes(final(map)).len() == mmap_mut_bytes(old(map)).len(),
    no_unwind
{
    map.deref_mut()
}

/// `memmap2::MmapMut::flush`: asks the system to write the region back to the
/// file. Whether that succeeds is the system's matter; the bytes of the map
/// are not touched, so the call takes a shared reference.
#[verifier::external_body]
pub(crate) fn mmap_mut_flush(map: &MmapMut) -> (outcome: Result<(), std::io::Error>)
{
    map.flush()
}

} // verus!
