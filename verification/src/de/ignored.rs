//! Reading a value only to step over it.
use vstd::prelude::*;

use crate::de::decoding::d_value;
use crate::de::deserializer::Deserializer;
use crate::de::error::Error;

verus! {

/// A value that was read and dropped.
#[derive(Clone, Copy, Debug, Default)]
pub struct Ignored;

impl Ignored {
    /// Reads the next value and drops it: the reader moves on exactly as it
    /// does when it reads the value, and fails where that read fails.
    ///
    /// # Errors
    /// The errors of [`Deserializer::deserialize_value`].
    pub fn deserialize<'de>(deserializer: &mut Deserializer<'de>) -> (r: Result<Ignored, Error>)
        requires
            old(deserializer).wf(),
        ensures
            final(deserializer).wf(),
            final(deserializer).input() == old(deserializer).input(),
            final(deserializer).state() == d_value(old(deserializer).input(), old(deserializer).state()).1,
            r is Ok <==> d_value(old(deserializer).input(), old(deserializer).state()).0 is Ok,
            r matches Err(e) ==> d_value(old(deserializer).input(), old(deserializer).state()).0
                == Err::<crate::value::ValueModel, crate::de::error::KindModel>(e@),
    {
        match deserializer.deserialize_value() {
            Ok(_) => Ok(Ignored),
            Err(e) => Err(e),
        }
    }
}

} // verus!
