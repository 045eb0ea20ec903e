//! Reading the entries of an array or a hash one at a time, straight from
//! the bytes.
use vstd::prelude::*;

use crate::de::decoding::{d_fields, d_pairs, d_usize, d_skip_pairs, d_symbol_either, d_value, d_values, DecodeState, Step};
use crate::rb_types::sym::Sym;
use crate::de::deserializer::Deserializer;
use crate::de::error::{agrees, fails_with, Error, Kind, KindModel};
use crate::value::Value;

verus! {

/// Which half of a hash entry was read last.
#[derive(Clone, Copy, Debug, PartialEq, Eq, Structural)]
pub enum MapState {
    /// A key was read; its value comes next.
    Key,
    /// A value was read, or nothing yet; a key comes next.
    Value,
}

/// `m` values in a row, read and dropped.
pub open spec fn skip_values(input: Seq<u8>, cur: DecodeState, m: nat) -> Step<()>
    decreases m,
{
    if m == 0 {
        (Ok(()), cur)
    } else {
        let (r, s1) = d_value(input, cur);
        match r {
            Err(e) => (Err(e), s1),
            Ok(_) => skip_values(input, s1, (m - 1) as nat),
        }
    }
}

/// `m` instance variables in a row, each a symbol and a value, read and
/// dropped.
pub open spec fn skip_fields(input: Seq<u8>, cur: DecodeState, m: nat) -> Step<()>
    decreases m,
{
    if m == 0 {
        (Ok(()), cur)
    } else {
        let (rs, s1) = d_symbol_either(input, cur);
        match rs {
            Err(e) => (Err(e), s1),
            Ok(_) => {
                let (r, s2) = d_value(input, s1);
                match r {
                    Err(e) => (Err(e), s2),
                    Ok(_) => skip_fields(input, s2, (m - 1) as nat),
                }
            },
        }
    }
}

/// Skipping `n` array elements ends where reading them ends, whenever they
/// can be read: an array read element by element and then ended leaves the
/// reader where reading it whole does.
pub proof fn lemma_skipped_values_end_where_read(input: Seq<u8>, cur: DecodeState, n: nat)
    requires
        d_values(input, cur, n).0 is Ok,
    ensures
        skip_values(input, cur, n) == (Ok::<(), KindModel>(()), d_values(input, cur, n).1),
    decreases n,
{
    if n > 0 {
        let (_, s1) = d_value(input, cur);
        lemma_skipped_values_end_where_read(input, s1, (n - 1) as nat);
    }
}

/// Skipping `n` hash entries ends where reading them ends, whenever they can
/// be read: a hash read entry by entry and then ended leaves the reader where
/// reading it whole does.
pub proof fn lemma_skipped_pairs_end_where_read(input: Seq<u8>, cur: DecodeState, n: nat)
    requires
        d_pairs(input, cur, n).0 is Ok,
    ensures
        d_skip_pairs(input, cur, n) == (Ok::<(), KindModel>(()), d_pairs(input, cur, n).1),
    decreases n,
{
    if n > 0 {
        let (_, s1) = d_value(input, cur);
        let (_, s2) = d_value(input, s1);
        lemma_skipped_pairs_end_where_read(input, s2, (n - 1) as nat);
    }
}

/// Skipping `n` instance variables ends where reading them ends, whenever
/// they can be read: an object read name by name and then ended leaves the
/// reader where reading it whole does.
pub proof fn lemma_skipped_fields_end_where_read(input: Seq<u8>, cur: DecodeState, n: nat)
    requires
        d_fields(input, cur, n).0 is Ok,
    ensures
        skip_fields(input, cur, n) == (Ok::<(), KindModel>(()), d_fields(input, cur, n).1),
    decreases n,
{
    if n > 0 {
        let (_, s1) = d_symbol_either(input, cur);
        let (_, s2) = d_value(input, s1);
        lemma_skipped_fields_end_where_read(input, s2, (n - 1) as nat);
    }
}

/// The elements of an array whose length was read, taken one at a time.
#[derive(Debug)]
pub struct ArrayAccess {
    pub(crate) len: usize,
    pub(crate) index: usize,
}

impl ArrayAccess {
    /// The number of elements the array holds.
    pub closed spec fn length(&self) -> usize {
        self.len
    }

    /// The number of elements taken so far.
    pub closed spec fn taken(&self) -> usize {
        self.index
    }

    pub(crate) fn new(len: usize) -> (a: Self)
        ensures
            a.length() == len,
            a.taken() == 0,
    {
        ArrayAccess { len, index: 0 }
    }

    /// The number of elements the array holds.
    pub fn len(&self) -> (n: usize)
        ensures
            n == self.length(),
    {
        self.len
    }

    /// The number of elements taken so far.
    pub fn index(&self) -> (n: usize)
        ensures
            n == self.taken(),
    {
        self.index
    }

    /// The number of elements not yet taken.
    pub closed spec fn left(&self) -> nat {
        if self.index < self.len {
            (self.len - self.index) as nat
        } else {
            0
        }
    }

    /// Reads the next element, or gives `None` once all have been taken.
    ///
    /// # Errors
    /// The errors of [`Deserializer::deserialize_value`].
    pub fn next_element<'de>(&mut self, de: &mut Deserializer<'de>) -> (r: Result<Option<Value>, Error>)
        requires
            old(de).wf(),
        ensures
            final(de).wf(),
            final(self).length() == old(self).length(),
            old(self).taken() >= old(self).length() ==> (r matches Ok(None)) && final(self).taken()
                == old(self).taken() && *final(de) == *old(de),
            old(self).taken() < old(self).length() ==> final(self).taken() == old(self).taken() + 1
                && match r {
                Ok(Some(v)) => Deserializer::value_step(*old(de), *final(de), Ok(v)),
                Err(e) => Deserializer::value_step(*old(de), *final(de), Err(e)),
                Ok(None) => false,
            },
    {
        if self.index >= self.len {
            return Ok(None);
        }
        self.index = self.index + 1;
        match de.deserialize_value() {
            Ok(v) => Ok(Some(v)),
            Err(e) => Err(e),
        }
    }

    /// Reads and drops the elements that were not taken.
    ///
    /// # Errors
    /// The errors of reading those elements.
    pub fn end<'de>(self, de: &mut Deserializer<'de>) -> (r: Result<(), Error>)
        requires
            old(de).wf(),
        ensures
            final(de).wf(),
            final(de).input() == old(de).input(),
            agrees(r, skip_values(old(de).input(), old(de).state(), self.left()).0),
            final(de).state() == skip_values(old(de).input(), old(de).state(), self.left()).1,
    {
        let ghost input = de.input();
        let mut left: usize = if self.index < self.len {
            self.len - self.index
        } else {
            0
        };
        while left > 0
            invariant
                de.wf(),
                de.input() == input,
                input == old(de).input(),
                skip_values(input, old(de).state(), self.left()) == skip_values(input, de.state(), left as nat),
            decreases left,
        {
            left = left - 1;
            de.deserialize_value()?;
        }
        Ok(())
    }
}

/// The entries of a hash whose length was read, taken one half at a time:
/// a key, then its value.
#[derive(Debug)]
pub struct HashAccess {
    pub(crate) len: usize,
    pub(crate) index: usize,
    pub(crate) state: MapState,
    pub(crate) default: bool,
}

impl HashAccess {
    /// The number of entries the hash holds.
    pub closed spec fn length(&self) -> usize {
        self.len
    }

    /// The number of keys taken so far.
    pub closed spec fn taken(&self) -> usize {
        self.index
    }

    /// Whether a key comes next (else the value of the last key).
    pub closed spec fn expects_key(&self) -> bool {
        self.state is Value
    }

    /// Whether a default value follows the entries.
    pub closed spec fn has_default(&self) -> bool {
        self.default
    }

    pub(crate) fn new(len: usize, default: bool) -> (a: Self)
        ensures
            a.length() == len,
            a.taken() == 0,
            a.expects_key(),
            a.has_default() == default,
    {
        HashAccess { len, index: 0, state: MapState::Value, default }
    }

    /// The number of entries the hash holds.
    pub fn len(&self) -> (n: usize)
        ensures
            n == self.length(),
    {
        self.len
    }

    /// The number of keys taken so far.
    pub fn index(&self) -> (n: usize)
        ensures
            n == self.taken(),
    {
        self.index
    }

    /// The number of entries whose keys were not yet taken.
    pub closed spec fn left(&self) -> nat {
        if self.index < self.len {
            (self.len - self.index) as nat
        } else {
            0
        }
    }

    /// Reads the next key, or gives `None` once all have been taken.
    ///
    /// # Errors
    /// `KeyAfterKey` when the value of the last key was not read; else the
    /// errors of [`Deserializer::deserialize_value`].
    pub fn next_key<'de>(&mut self, de: &mut Deserializer<'de>) -> (r: Result<Option<Value>, Error>)
        requires
            old(de).wf(),
        ensures
            final(de).wf(),
            final(self).length() == old(self).length(),
            old(self).taken() >= old(self).length() ==> (r matches Ok(None)) && *final(self)
                == *old(self) && *final(de) == *old(de),
            old(self).taken() < old(self).length() && !old(self).expects_key() ==> (r matches Err(
                e,
            ) && e@ == KindModel::KeyAfterKey) && *final(self) == *old(self) && *final(de) == *old(
                de,
            ),
            old(self).taken() < old(self).length() && old(self).expects_key() ==> final(self).taken()
                == old(self).taken() + 1 && !final(self).expects_key() && match r {
                Ok(Some(v)) => Deserializer::value_step(*old(de), *final(de), Ok(v)),
                Err(e) => Deserializer::value_step(*old(de), *final(de), Err(e)),
                Ok(None) => false,
            },
    {
        if self.index >= self.len {
            return Ok(None);
        }
        match self.state {
            MapState::Key => {
                return Err(Error { kind: Kind::KeyAfterKey });
            },
            MapState::Value => {
                self.state = MapState::Key;
            },
        }
        self.index = self.index + 1;
        match de.deserialize_value() {
            Ok(v) => Ok(Some(v)),
            Err(e) => Err(e),
        }
    }

    /// Reads the value of the last key.
    ///
    /// # Errors
    /// `ValueAfterValue` when no key was read since the last value; else the
    /// errors of [`Deserializer::deserialize_value`].
    pub fn next_value<'de>(&mut self, de: &mut Deserializer<'de>) -> (r: Result<Value, Error>)
        requires
            old(de).wf(),
        ensures
            final(de).wf(),
            final(self).length() == old(self).length(),
            final(self).taken() == old(self).taken(),
            old(self).expects_key() ==> (r matches Err(e) && e@ == KindModel::ValueAfterValue)
                && *final(self) == *old(self) && *final(de) == *old(de),
            !old(self).expects_key() ==> final(self).expects_key() && Deserializer::value_step(
                *old(de),
                *final(de),
                r,
            ),
    {
        match self.state {
            MapState::Value => {
                return Err(Error { kind: Kind::ValueAfterValue });
            },
            MapState::Key => {
                self.state = MapState::Value;
            },
        }
        de.deserialize_value()
    }

    /// Reads and drops the entries whose keys were not taken, then the
    /// default value when there is one.
    ///
    /// # Errors
    /// The errors of reading those entries and the default value.
    pub fn end<'de>(self, de: &mut Deserializer<'de>) -> (r: Result<(), Error>)
        requires
            old(de).wf(),
        ensures
            final(de).wf(),
            final(de).input() == old(de).input(),
            ({
                let (r1, s1) = d_skip_pairs(old(de).input(), old(de).state(), self.left());
                if !self.has_default() {
                    agrees(r, r1) && final(de).state() == s1
                } else {
                    match r1 {
                        Err(k) => fails_with(r, k) && final(de).state() == s1,
                        Ok(_) => {
                            let (r2, s2) = d_value(old(de).input(), s1);
                            final(de).state() == s2 && match r2 {
                                Ok(_) => r is Ok,
                                Err(k) => fails_with(r, k),
                            }
                        },
                    }
                }
            }),
    {
        let ghost input = de.input();
        let mut left: usize = if self.index < self.len {
            self.len - self.index
        } else {
            0
        };
        while left > 0
            invariant
                de.wf(),
                de.input() == input,
                input == old(de).input(),
                d_skip_pairs(input, old(de).state(), self.left()) == d_skip_pairs(input, de.state(), left as nat),
            decreases left,
        {
            left = left - 1;
            proof {
                de.lemma_sane();
            }
            de.deserialize_value()?;
            de.deserialize_value()?;
        }
        proof {
            de.lemma_sane();
        }
        if self.default {
            de.deserialize_value()?;
        }
        Ok(())
    }
}


/// The instance variables of an object whose class and count were read,
/// taken one half at a time: a name, then its value.
#[derive(Debug)]
pub struct IvarAccess {
    pub(crate) len: usize,
    pub(crate) index: usize,
    pub(crate) state: MapState,
}

impl IvarAccess {
    /// The number of instance variables the object holds.
    pub closed spec fn length(&self) -> usize {
        self.len
    }

    /// The number of names taken so far.
    pub closed spec fn taken(&self) -> usize {
        self.index
    }

    /// Whether a name comes next (else the value of the last name).
    pub closed spec fn expects_key(&self) -> bool {
        self.state is Value
    }

    /// The number of instance variables whose names were not yet taken.
    pub closed spec fn left(&self) -> nat {
        if self.index < self.len {
            (self.len - self.index) as nat
        } else {
            0
        }
    }

    pub(crate) fn new(len: usize) -> (a: Self)
        ensures
            a.length() == len,
            a.taken() == 0,
            a.expects_key(),
    {
        IvarAccess { len, index: 0, state: MapState::Value }
    }

    /// The number of instance variables the object holds.
    pub fn len(&self) -> (n: usize)
        ensures
            n == self.length(),
    {
        self.len
    }

    /// The number of names taken so far.
    pub fn index(&self) -> (n: usize)
        ensures
            n == self.taken(),
    {
        self.index
    }

    /// Reads the next name, or gives `None` once all have been taken.
    ///
    /// # Errors
    /// `KeyAfterKey` when the value of the last name was not read; else the
    /// errors of reading a symbol or a symbol link.
    pub fn next_ivar<'de>(&mut self, de: &mut Deserializer<'de>) -> (r: Result<Option<Sym<'de>>, Error>)
        requires
            old(de).wf(),
        ensures
            final(de).wf(),
            final(de).input() == old(de).input(),
            final(self).length() == old(self).length(),
            old(self).taken() >= old(self).length() ==> (r matches Ok(None)) && *final(self)
                == *old(self) && *final(de) == *old(de),
            old(self).taken() < old(self).length() && !old(self).expects_key() ==> (r matches Err(
                e,
            ) && e@ == KindModel::KeyAfterKey) && *final(self) == *old(self) && *final(de) == *old(
                de,
            ),
            old(self).taken() < old(self).length() && old(self).expects_key() ==> final(self).taken()
                == old(self).taken() + 1 && !final(self).expects_key() && final(de).state()
                == d_symbol_either(old(de).input(), old(de).state()).1 && match r {
                Ok(Some(s)) => d_symbol_either(old(de).input(), old(de).state()).0 == Ok::<
                    Seq<char>,
                    KindModel,
                >(s@),
                Err(e) => d_symbol_either(old(de).input(), old(de).state()).0 == Err::<
                    Seq<char>,
                    KindModel,
                >(e@),
                Ok(None) => false,
            },
    {
        if self.index >= self.len {
            return Ok(None);
        }
        match self.state {
            MapState::Key => {
                return Err(Error { kind: Kind::KeyAfterKey });
            },
            MapState::Value => {
                self.state = MapState::Key;
            },
        }
        self.index = self.index + 1;
        match de.read_symbol_either() {
            Ok(s) => Ok(Some(s)),
            Err(e) => Err(e),
        }
    }

    /// Reads the value of the last name.
    ///
    /// # Errors
    /// `ValueAfterValue` when no name was read since the last value; else the
    /// errors of [`Deserializer::deserialize_value`].
    pub fn next_value<'de>(&mut self, de: &mut Deserializer<'de>) -> (r: Result<Value, Error>)
        requires
            old(de).wf(),
        ensures
            final(de).wf(),
            final(self).length() == old(self).length(),
            final(self).taken() == old(self).taken(),
            old(self).expects_key() ==> (r matches Err(e) && e@ == KindModel::ValueAfterValue)
                && *final(self) == *old(self) && *final(de) == *old(de),
            !old(self).expects_key() ==> final(self).expects_key() && Deserializer::value_step(
                *old(de),
                *final(de),
                r,
            ),
    {
        match self.state {
            MapState::Value => {
                return Err(Error { kind: Kind::ValueAfterValue });
            },
            MapState::Key => {
                self.state = MapState::Value;
            },
        }
        de.deserialize_value()
    }

    /// Reads and drops the instance variables whose names were not taken.
    ///
    /// # Errors
    /// The errors of reading those instance variables.
    pub fn end<'de>(self, de: &mut Deserializer<'de>) -> (r: Result<(), Error>)
        requires
            old(de).wf(),
        ensures
            final(de).wf(),
            final(de).input() == old(de).input(),
            agrees(r, skip_fields(old(de).input(), old(de).state(), self.left()).0),
            final(de).state() == skip_fields(old(de).input(), old(de).state(), self.left()).1,
    {
        let ghost input = de.input();
        let mut left: usize = if self.index < self.len {
            self.len - self.index
        } else {
            0
        };
        while left > 0
            invariant
                de.wf(),
                de.input() == input,
                input == old(de).input(),
                skip_fields(input, old(de).state(), self.left()) == skip_fields(input, de.state(), left as nat),
            decreases left,
        {
            left = left - 1;
            de.read_symbol_either()?;
            de.deserialize_value()?;
        }
        Ok(())
    }
}


/// An instance whose tag was read: the wrapped value comes next, then its
/// instance variables.
#[derive(Debug)]
pub struct InstanceAccess {
    pub(crate) sealed: (),
}

impl InstanceAccess {
    /// Reads the wrapped value and the count of instance variables that
    /// follow it.
    ///
    /// # Errors
    /// The errors of reading the value and the count.
    pub fn value<'de>(self, de: &mut Deserializer<'de>) -> (r: Result<(Value, IvarAccess), Error>)
        requires
            old(de).wf(),
        ensures
            final(de).wf(),
            final(de).input() == old(de).input(),
            ({
                let input = old(de).input();
                let (r1, s1) = d_value(input, old(de).state());
                match r1 {
                    Err(k) => fails_with(r, k) && final(de).state() == s1,
                    Ok(v) => {
                        let (rl, s2) = d_usize(input, s1);
                        final(de).state() == s2 && match rl {
                            Ok(n) => r matches Ok((x, a)) && x@ == v && a.length() == n
                                && a.taken() == 0 && a.expects_key(),
                            Err(k) => fails_with(r, k),
                        }
                    },
                }
            }),
    {
        let v = de.deserialize_value()?;
        let len = de.read_usize()?;
        Ok((v, IvarAccess::new(len)))
    }
}

} // verus!
