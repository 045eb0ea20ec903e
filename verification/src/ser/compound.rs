//! Writing the entries of a hash, an array or a list of instance variables
//! one at a time, after their number was announced.
use vstd::prelude::*;

use crate::rb_types::sym::Sym;
use crate::ser::encoding::{enc_symbol, enc_value};
use crate::ser::error::{Error, Kind, SerKindModel};
use crate::ser::serializer::Serializer;
use crate::value::Value;

verus! {

/// The instance variables of an object, a struct or an instance, written
/// one at a time.
#[derive(Debug)]
pub struct SerializeIvars {
    len: usize,
    index: usize,
}

/// The entries of a hash, written one at a time.
#[derive(Debug)]
pub struct SerializeHash {
    len: usize,
    index: usize,
}

/// The elements of an array, written one at a time.
#[derive(Debug)]
pub struct SerializeArray {
    len: usize,
    index: usize,
}

/// The error for more entries than were announced.
pub open spec fn overshot(index: usize, len: usize) -> SerKindModel {
    SerKindModel::OvershotProvidedLen(index, len)
}

/// The error for fewer entries than were announced.
pub open spec fn undershot(index: usize, len: usize) -> SerKindModel {
    SerKindModel::UndershotProvidedLen(index, len)
}

impl SerializeIvars {
    /// The number of entries that was announced.
    pub closed spec fn announced(&self) -> usize {
        self.len
    }

    /// The number of entries begun so far.
    pub closed spec fn begun(&self) -> usize {
        self.index
    }

    pub(crate) fn new(len: usize) -> (s: Self)
        ensures
            s.announced() == len,
            s.begun() == 0,
    {
        SerializeIvars { len, index: 0 }
    }

    /// Begins the next entry with its name; fails, writing nothing, when all
    /// the announced entries were begun.
    ///
    /// # Errors
    /// `OvershotProvidedLen` when this entry is one more than announced.
    pub fn serialize_field(&mut self, serializer: &mut Serializer, k: &Sym) -> (r: Result<(), Error>)
        requires
            old(serializer).wf(),
            old(self).begun() < usize::MAX,
        ensures
            final(self).begun() == old(self).begun() + 1,
            final(self).announced() == old(self).announced(),
            old(self).begun() + 1 > old(self).announced() ==> (r matches Err(e) && e@ == overshot(
                final(self).begun(),
                old(self).announced(),
            ) && *final(serializer) == *old(serializer)),
            old(self).begun() + 1 <= old(self).announced() ==> r is Ok && Serializer::wrote(
                *old(serializer),
                *final(serializer),
                enc_symbol(old(serializer).symbols(), k@),
            ),
    {
        self.index = self.index + 1;
        if self.index > self.len {
            return Err(Error { kind: Kind::OvershotProvidedLen(self.index, self.len) });
        }
        serializer.serialize_symbol(k)
    }

    /// Writes the value of the entry whose name was written last.
    ///
    /// # Errors
    /// Writing a value never fails.
    pub fn serialize_value(&mut self, serializer: &mut Serializer, v: &Value) -> (r: Result<(), Error>)
        requires
            old(serializer).wf(),
        ensures
            *final(self) == *old(self),
            r is Ok,
            Serializer::wrote(
                *old(serializer),
                *final(serializer),
                enc_value(old(serializer).symbols(), v@),
            ),
    {
        serializer.serialize_value(v);
        Ok(())
    }

    /// Writes an entry: its name, then its value.
    ///
    /// # Errors
    /// `OvershotProvidedLen` when this entry is one more than announced;
    /// nothing is written then.
    pub fn serialize_entry(&mut self, serializer: &mut Serializer, k: &Sym, v: &Value) -> (r: Result<(), Error>)
        requires
            old(serializer).wf(),
            old(self).begun() < usize::MAX,
        ensures
            final(self).begun() == old(self).begun() + 1,
            final(self).announced() == old(self).announced(),
            old(self).begun() + 1 > old(self).announced() ==> (r matches Err(e) && e@ == overshot(
                final(self).begun(),
                old(self).announced(),
            ) && *final(serializer) == *old(serializer)),
            old(self).begun() + 1 <= old(self).announced() ==> r is Ok && ({
                let (kb, t1) = enc_symbol(old(serializer).symbols(), k@);
                let (vb, t2) = enc_value(t1, v@);
                &&& final(serializer).wf()
                &&& final(serializer).written() == old(serializer).written() + kb + vb
                &&& final(serializer).symbols() == t2
            }),
    {
        self.serialize_field(serializer, k)?;
        self.serialize_value(serializer, v)
    }

    /// Ends the entries; fails when fewer were begun than announced.
    ///
    /// # Errors
    /// `UndershotProvidedLen` when fewer entries were begun than announced.
    pub fn end(self) -> (r: Result<(), Error>)
        ensures
            r is Ok <==> self.begun() >= self.announced(),
            r matches Err(e) ==> e@ == undershot(self.begun(), self.announced()),
    {
        if self.index < self.len {
            Err(Error { kind: Kind::UndershotProvidedLen(self.index, self.len) })
        } else {
            Ok(())
        }
    }
}

impl SerializeHash {
    /// The number of entries that was announced.
    pub closed spec fn announced(&self) -> usize {
        self.len
    }

    /// The number of keys written so far.
    pub closed spec fn begun(&self) -> usize {
        self.index
    }

    pub(crate) fn new(len: usize) -> (s: Self)
        ensures
            s.announced() == len,
            s.begun() == 0,
    {
        SerializeHash { len, index: 0 }
    }

    /// Writes the key of the next entry; fails, writing nothing, when all
    /// the announced entries were begun.
    ///
    /// # Errors
    /// `OvershotProvidedLen` when this entry is one more than announced.
    pub fn serialize_key(&mut self, serializer: &mut Serializer, k: &Value) -> (r: Result<(), Error>)
        requires
            old(serializer).wf(),
            old(self).begun() < usize::MAX,
        ensures
            final(self).begun() == old(self).begun() + 1,
            final(self).announced() == old(self).announced(),
            old(self).begun() + 1 > old(self).announced() ==> (r matches Err(e) && e@ == overshot(
                final(self).begun(),
                old(self).announced(),
            ) && *final(serializer) == *old(serializer)),
            old(self).begun() + 1 <= old(self).announced() ==> r is Ok && Serializer::wrote(
                *old(serializer),
                *final(serializer),
                enc_value(old(serializer).symbols(), k@),
            ),
    {
        self.index = self.index + 1;
        if self.index > self.len {
            return Err(Error { kind: Kind::OvershotProvidedLen(self.index, self.len) });
        }
        serializer.serialize_value(k);
        Ok(())
    }

    /// Writes the value of the entry whose key was written last.
    ///
    /// # Errors
    /// Writing a value never fails.
    pub fn serialize_value(&mut self, serializer: &mut Serializer, v: &Value) -> (r: Result<(), Error>)
        requires
            old(serializer).wf(),
        ensures
            *final(self) == *old(self),
            r is Ok,
            Serializer::wrote(
                *old(serializer),
                *final(serializer),
                enc_value(old(serializer).symbols(), v@),
            ),
    {
        serializer.serialize_value(v);
        Ok(())
    }

    /// Writes an entry: its key, then its value.
    ///
    /// # Errors
    /// `OvershotProvidedLen` when this entry is one more than announced;
    /// nothing is written then.
    pub fn serialize_entry(&mut self, serializer: &mut Serializer, k: &Value, v: &Value) -> (r: Result<(), Error>)
        requires
            old(serializer).wf(),
            old(self).begun() < usize::MAX,
        ensures
            final(self).begun() == old(self).begun() + 1,
            final(self).announced() == old(self).announced(),
            old(self).begun() + 1 > old(self).announced() ==> (r matches Err(e) && e@ == overshot(
                final(self).begun(),
                old(self).announced(),
            ) && *final(serializer) == *old(serializer)),
            old(self).begun() + 1 <= old(self).announced() ==> r is Ok && ({
                let (kb, t1) = enc_value(old(serializer).symbols(), k@);
                let (vb, t2) = enc_value(t1, v@);
                &&& final(serializer).wf()
                &&& final(serializer).written() == old(serializer).written() + kb + vb
                &&& final(serializer).symbols() == t2
            }),
    {
        self.serialize_key(serializer, k)?;
        self.serialize_value(serializer, v)
    }

    /// Ends the entries; fails when fewer were begun than announced.
    ///
    /// # Errors
    /// `UndershotProvidedLen` when fewer entries were begun than announced.
    pub fn end(self) -> (r: Result<(), Error>)
        ensures
            r is Ok <==> self.begun() >= self.announced(),
            r matches Err(e) ==> e@ == undershot(self.begun(), self.announced()),
    {
        if self.index < self.len {
            Err(Error { kind: Kind::UndershotProvidedLen(self.index, self.len) })
        } else {
            Ok(())
        }
    }
}

impl SerializeArray {
    /// The number of elements that was announced.
    pub closed spec fn announced(&self) -> usize {
        self.len
    }

    /// The number of elements written so far.
    pub closed spec fn begun(&self) -> usize {
        self.index
    }

    pub(crate) fn new(len: usize) -> (s: Self)
        ensures
            s.announced() == len,
            s.begun() == 0,
    {
        SerializeArray { len, index: 0 }
    }

    /// Writes the next element. More elements than announced are written
    /// too, and the array's bytes then no longer match its announced length.
    ///
    /// # Errors
    /// Writing an element never fails.
    pub fn serialize_element(&mut self, serializer: &mut Serializer, v: &Value) -> (r: Result<(), Error>)
        requires
            old(serializer).wf(),
            old(self).begun() < usize::MAX,
        ensures
            final(self).begun() == old(self).begun() + 1,
            final(self).announced() == old(self).announced(),
            r is Ok,
            Serializer::wrote(
                *old(serializer),
                *final(serializer),
                enc_value(old(serializer).symbols(), v@),
            ),
    {
        self.index = self.index + 1;
        serializer.serialize_value(v);
        Ok(())
    }

    /// Ends the elements; fails when fewer were written than announced.
    ///
    /// # Errors
    /// `UndershotProvidedLen` when fewer elements were written than announced.
    pub fn end(self) -> (r: Result<(), Error>)
        ensures
            r is Ok <==> self.begun() >= self.announced(),
            r matches Err(e) ==> e@ == undershot(self.begun(), self.announced()),
    {
        if self.index < self.len {
            Err(Error { kind: Kind::UndershotProvidedLen(self.index, self.len) })
        } else {
            Ok(())
        }
    }
}

} // verus!
