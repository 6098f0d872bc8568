//! The byte source that a machine reads from and the byte sink that it
//! writes to.
//!
//! The machine asks little of either end: one byte at a time, in or out.
//! Neither trait promises anything about what an implementation answers, so
//! what is proved of the machine holds with every source and every sink.
//! Each kind of source and of sink may say of itself what one call does to
//! it, in the relations `reads` and `writes`; the contracts of the machine
//! are stated over these. The source and the sinks of this module say it
//! exactly.

use vstd::prelude::*;

verus! {

/// `std::io::Error`, carried through as it is: nothing is claimed of what
/// it holds.
#[verifier::external_type_specification]
#[verifier::external_body]
pub struct ExIoError(std::io::Error);

/// Where a machine reads its input from.
pub trait ByteSource {
    /// What one read does to this kind of source: whether a read can take
    /// the source from `self` to `after` and answer `answer`. Each kind of
    /// source says this of itself; one that says nothing allows everything.
    open spec fn reads(
        &self,
        after: &Self,
        answer: Result<Option<u8>, std::io::Error>,
    ) -> bool {
        true
    }

    /// Tries to read one byte. `Ok(Some(byte))` is a byte that was read,
    /// `Ok(None)` says that the input is exhausted, which is no failure, and
    /// `Err` is a failure of the source.
    fn read_byte(&mut self) -> (r: Result<Option<u8>, std::io::Error>)
        ensures
            Self::reads(old(self), final(self), r),
    ;
}

/// Where a machine writes its output to.
pub trait ByteSink {
    /// What one write does to this kind of sink: whether writing `byte` can
    /// take the sink from `self` to `after` and answer `answer`. Each kind
    /// of sink says this of itself; one that says nothing allows
    /// everything.
    open spec fn writes(
        &self,
        byte: u8,
        after: &Self,
        answer: Result<(), std::io::Error>,
    ) -> bool {
        true
    }

    /// Writes exactly one byte, or fails.
    fn write_byte(&mut self, byte: u8) -> (r: Result<(), std::io::Error>)
        ensures
            Self::writes(old(self), byte, final(self), r),
    ;
}

impl ByteSource for &[u8] {
    open spec fn reads(
        &self,
        after: &Self,
        answer: Result<Option<u8>, std::io::Error>,
    ) -> bool {
        &&& answer is Ok
        &&& answer->Ok_0 == (if self@.len() > 0 {
            Some(self@[0])
        } else {
            None
        })
        &&& after@ == (if self@.len() > 0 {
            self@.subrange(1, self@.len() as int)
        } else {
            self@
        })
    }

    /// Takes the first byte off the slice. Never fails; an empty slice is
    /// exhausted input.
    fn read_byte(&mut self) -> (r: Result<Option<u8>, std::io::Error>)
        ensures
            r is Ok,
            r->Ok_0 == (if old(self)@.len() > 0 {
                Some(old(self)@[0])
            } else {
                None
            }),
            final(self)@ == (if old(self)@.len() > 0 {
                old(self)@.subrange(1, old(self)@.len() as int)
            } else {
                old(self)@
            }),
    {
        let bytes: &[u8] = *self;
        if bytes.len() == 0 {
            Ok(None)
        } else {
            let byte = bytes[0];
            *self = vstd::slice::slice_subrange(bytes, 1, bytes.len());
            Ok(Some(byte))
        }
    }
}

impl ByteSink for Vec<u8> {
    open spec fn writes(
        &self,
        byte: u8,
        after: &Self,
        answer: Result<(), std::io::Error>,
    ) -> bool {
        answer is Ok && after@ == self@.push(byte)
    }

    /// Appends the byte. Never fails.
    fn write_byte(&mut self, byte: u8) -> (r: Result<(), std::io::Error>)
        ensures
            r is Ok,
            final(self)@ == old(self)@.push(byte),
    {
        self.push(byte);
        Ok(())
    }
}

impl<W: ByteSink> ByteSink for &mut W {
    open spec fn writes(
        &self,
        byte: u8,
        after: &Self,
        answer: Result<(), std::io::Error>,
    ) -> bool {
        (**self).writes(byte, &**after, answer)
    }

    /// Writes to the sink behind the reference: the write is the one that
    /// the sink itself makes of `byte`, and so is the result.
    fn write_byte(&mut self, byte: u8) -> (r: Result<(), std::io::Error>)
        ensures
            *final(*final(self)) == *final(*old(self)),
    {
        (**self).write_byte(byte)
    }
}

} // verus!
