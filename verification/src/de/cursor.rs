//! A position in the input bytes.
use vstd::prelude::*;

use crate::de::error::{fails_with, Error, Kind, KindModel};
use crate::tag::{tag_of_byte, Tag};

verus! {

/// The input and the place of the next byte to read.
#[derive(Debug, Clone)]
pub(crate) struct Cursor<'de> {
    pub(crate) input: &'de [u8],
    pub(crate) position: usize,
}

impl<'de> Cursor<'de> {
    pub(crate) fn new(input: &'de [u8]) -> (c: Self)
        ensures
            c.input@ == input@,
            c.position == 0,
    {
        Cursor { input, position: 0 }
    }

    pub(crate) fn seek(&mut self, position: usize)
        ensures
            final(self).input == old(self).input,
            final(self).position == position,
    {
        self.position = position;
    }

    pub(crate) fn peek_byte(&self) -> (r: Result<u8, Error>)
        ensures
            self.position < self.input@.len() ==> r == Ok::<u8, Error>(
                self.input@[self.position as int],
            ),
            self.position >= self.input@.len() ==> fails_with(r, KindModel::Eof),
    {
        if self.position < self.input.len() {
            Ok(self.input[self.position])
        } else {
            Err(Error { kind: Kind::Eof })
        }
    }

    pub(crate) fn next_byte(&mut self) -> (r: Result<u8, Error>)
        ensures
            final(self).input == old(self).input,
            old(self).position < old(self).input@.len() ==> r == Ok::<u8, Error>(
                old(self).input@[old(self).position as int],
            ) && final(self).position == old(self).position + 1,
            old(self).position >= old(self).input@.len() ==> fails_with(r, KindModel::Eof) && final(self).position == old(self).position,
    {
        if self.position < self.input.len() {
            let byte = self.input[self.position];
            self.position = self.position + 1;
            Ok(byte)
        } else {
            Err(Error { kind: Kind::Eof })
        }
    }

    pub(crate) fn peek_tag(&self) -> (r: Result<Tag, Error>)
        ensures
            self.position < self.input@.len() ==> match tag_of_byte(
                self.input@[self.position as int],
            ) {
                Some(t) => r == Ok::<Tag, Error>(t),
                None => fails_with(r, KindModel::WrongTag(self.input@[self.position as int])),
            },
            self.position >= self.input@.len() ==> fails_with(r, KindModel::Eof),
    {
        let byte = self.peek_byte()?;
        match Tag::from_u8(byte) {
            Some(t) => Ok(t),
            None => Err(Error { kind: Kind::WrongTag(byte) }),
        }
    }

    pub(crate) fn next_tag(&mut self) -> (r: Result<Tag, Error>)
        ensures
            final(self).input == old(self).input,
            old(self).position < old(self).input@.len() ==> final(self).position == old(
                self,
            ).position + 1 && match tag_of_byte(old(self).input@[old(self).position as int]) {
                Some(t) => r == Ok::<Tag, Error>(t),
                None => fails_with(r, KindModel::WrongTag(old(self).input@[old(self).position as int])),
            },
            old(self).position >= old(self).input@.len() ==> fails_with(r, KindModel::Eof) && final(self).position == old(self).position,
    {
        let byte = self.next_byte()?;
        match Tag::from_u8(byte) {
            Some(t) => Ok(t),
            None => Err(Error { kind: Kind::WrongTag(byte) }),
        }
    }

    /// The next `length` bytes; the end of input when fewer are left.
    pub(crate) fn next_bytes_dyn(&mut self, length: usize) -> (r: Result<&'de [u8], Error>)
        requires
            old(self).position <= old(self).input@.len(),
        ensures
            final(self).input == old(self).input,
            length > old(self).input@.len() - old(self).position ==> fails_with(r, KindModel::Eof) && final(self).position == old(self).position,
            length <= old(self).input@.len() - old(self).position ==> (r matches Ok(b) && b@
                == old(self).input@.subrange(
                old(self).position as int,
                old(self).position + length,
            )) && final(self).position == old(self).position + length,
    {
        if length > self.input.len() - self.position {
            return Err(Error { kind: Kind::Eof });
        }
        let input: &'de [u8] = self.input;
        let ret = &input[self.position..self.position + length];
        self.position = self.position + length;
        Ok(ret)
    }
}

} // verus!
