//! Scan records
use vstd::prelude::*;
use std::marker::PhantomData;
use crate::gap::advertise::{Error, TryFromRaw};

verus! {

/// The advertising data of a device found by a scan
pub struct ScanRecord {
    bytes: Vec<u8>,
}

impl View for ScanRecord {
    type V = Seq<u8>;

    closed spec fn view(&self) -> Seq<u8> {
        self.bytes@
    }
}

impl ScanRecord {
    /// A scan record of the raw advertising data
    pub fn new(bytes: Vec<u8>) -> (r: ScanRecord)
        ensures
            r@ == bytes@,
    {
        ScanRecord { bytes }
    }

    /// Iterate over the data structures of the record, read as `T`
    pub fn iter<'a, T: TryFromRaw>(&'a self) -> (r: ScanRecordIter<'a, T>)
        ensures
            r@ == self@,
    {
        ScanRecordIter { bytes: self.bytes.as_slice(), pd: PhantomData }
    }
}

/// An iterator over the data structures of a scan record
pub struct ScanRecordIter<'a, T> {
    bytes: &'a [u8],
    pd: PhantomData<T>,
}

impl<'a, T> View for ScanRecordIter<'a, T> {
    /// The bytes that remain
    type V = Seq<u8>;

    closed spec fn view(&self) -> Seq<u8> {
        self.bytes@
    }
}

impl<'a, T: TryFromRaw> ScanRecordIter<'a, T> {
    /// The next data structure
    ///
    /// Each data structure is its length byte followed by as many bytes, which are handed to
    /// `T::try_from_raw`. Where the length is larger than the bytes that remain, the iteration
    /// ends with an incorrect length error.
    pub fn next(&mut self) -> (r: Option<Result<T, Error>>)
        ensures
            old(self)@.len() == 0 ==> r is None && final(self)@ == old(self)@,
            old(self)@.len() > 0 && old(self)@.len() - 1 >= old(self)@[0] ==> {
                &&& r matches Some(x) && T::spec_from_raw(old(self)@.subrange(1, 1 + old(self)@[0]), x)
                &&& final(self)@ == old(self)@.skip(1 + old(self)@[0])
            },
            old(self)@.len() > 0 && old(self)@.len() - 1 < old(self)@[0] ==> {
                &&& r == Some(Err::<T, Error>(Error::IncorrectLength))
                &&& final(self)@ == Seq::<u8>::empty()
            },
    {
        if self.bytes.len() == 0 {
            return None;
        }
        let len = self.bytes[0] as usize;
        let rest = vstd::slice::slice_subrange(self.bytes, 1, self.bytes.len());
        if rest.len() >= len {
            let data = vstd::slice::slice_subrange(rest, 0, len);
            assert(data@ =~= old(self)@.subrange(1, 1 + old(self)@[0]));
            self.bytes = vstd::slice::slice_subrange(rest, len, rest.len());
            assert(self.bytes@ =~= old(self)@.skip(1 + old(self)@[0]));
            Some(T::try_from_raw(data))
        } else {
            self.bytes = vstd::slice::slice_subrange(rest, 0, 0);
            assert(self.bytes@ =~= Seq::<u8>::empty());
            Some(Err(Error::IncorrectLength))
        }
    }
}

} // verus!
