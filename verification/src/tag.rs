//! The one-byte type tags that open every Marshal value.
use vstd::prelude::*;

verus! {

/// The type tag that precedes each value in a Marshal stream.
#[derive(Clone, Copy, Debug, PartialEq, Eq, Structural)]
pub enum Tag {
    Nil,
    True,
    False,
    Integer,
    Float,
    String,
    Array,
    Hash,
    HashDefault,
    Symbol,
    Symlink,
    Instance,
    RawRegexp,
    ClassRef,
    ModuleRef,
    Object,
    ObjectLink,
    UserDef,
    Struct,
    UserClass,
    Extended,
    UserMarshal,
    Data,
}

/// The byte that stands for a tag in the stream.
pub open spec fn tag_byte(t: Tag) -> u8 {
    match t {
        Tag::Nil => 0x30,          // '0'
        Tag::True => 0x54,         // 'T'
        Tag::False => 0x46,        // 'F'
        Tag::Integer => 0x69,      // 'i'
        Tag::Float => 0x66,        // 'f'
        Tag::String => 0x22,       // '"'
        Tag::Array => 0x5b,        // '['
        Tag::Hash => 0x7b,         // '{'
        Tag::HashDefault => 0x7d,  // '}'
        Tag::Symbol => 0x3a,       // ':'
        Tag::Symlink => 0x3b,      // ';'
        Tag::Instance => 0x49,     // 'I'
        Tag::RawRegexp => 0x2f,    // '/'
        Tag::ClassRef => 0x63,     // 'c'
        Tag::ModuleRef => 0x6d,    // 'm'
        Tag::Object => 0x6f,       // 'o'
        Tag::ObjectLink => 0x40,   // '@'
        Tag::UserDef => 0x75,      // 'u'
        Tag::Struct => 0x53,       // 'S'
        Tag::UserClass => 0x43,    // 'C'
        Tag::Extended => 0x65,     // 'e'
        Tag::UserMarshal => 0x55,  // 'U'
        Tag::Data => 0x64,         // 'd'
    }
}

/// The tag that a byte stands for, if it stands for one.
pub open spec fn tag_of_byte(b: u8) -> Option<Tag> {
    if b == 0x30 { Some(Tag::Nil) }
    else if b == 0x54 { Some(Tag::True) }
    else if b == 0x46 { Some(Tag::False) }
    else if b == 0x69 { Some(Tag::Integer) }
    else if b == 0x66 { Some(Tag::Float) }
    else if b == 0x22 { Some(Tag::String) }
    else if b == 0x5b { Some(Tag::Array) }
    else if b == 0x7b { Some(Tag::Hash) }
    else if b == 0x7d { Some(Tag::HashDefault) }
    else if b == 0x3a { Some(Tag::Symbol) }
    else if b == 0x3b { Some(Tag::Symlink) }
    else if b == 0x49 { Some(Tag::Instance) }
    else if b == 0x2f { Some(Tag::RawRegexp) }
    else if b == 0x63 { Some(Tag::ClassRef) }
    else if b == 0x6d { Some(Tag::ModuleRef) }
    else if b == 0x6f { Some(Tag::Object) }
    else if b == 0x40 { Some(Tag::ObjectLink) }
    else if b == 0x75 { Some(Tag::UserDef) }
    else if b == 0x53 { Some(Tag::Struct) }
    else if b == 0x43 { Some(Tag::UserClass) }
    else if b == 0x65 { Some(Tag::Extended) }
    else if b == 0x55 { Some(Tag::UserMarshal) }
    else if b == 0x64 { Some(Tag::Data) }
    else { None }
}

/// Whether a value that opens with this tag gets an entry in the object table.
pub open spec fn tag_is_referenceable(t: Tag) -> bool {
    !(t is Nil || t is True || t is False || t is Integer || t is Symbol || t is Symlink
        || t is ObjectLink)
}

impl Tag {
    /// The tag that the byte `value` stands for, or `None` for any other byte.
    pub fn from_u8(value: u8) -> (r: Option<Tag>)
        ensures
            r == tag_of_byte(value),
    {
        match value {
            0x30 => Some(Tag::Nil),
            0x54 => Some(Tag::True),
            0x46 => Some(Tag::False),
            0x69 => Some(Tag::Integer),
            0x66 => Some(Tag::Float),
            0x22 => Some(Tag::String),
            0x5b => Some(Tag::Array),
            0x7b => Some(Tag::Hash),
            0x7d => Some(Tag::HashDefault),
            0x3a => Some(Tag::Symbol),
            0x3b => Some(Tag::Symlink),
            0x49 => Some(Tag::Instance),
            0x2f => Some(Tag::RawRegexp),
            0x63 => Some(Tag::ClassRef),
            0x6d => Some(Tag::ModuleRef),
            0x6f => Some(Tag::Object),
            0x40 => Some(Tag::ObjectLink),
            0x75 => Some(Tag::UserDef),
            0x53 => Some(Tag::Struct),
            0x43 => Some(Tag::UserClass),
            0x65 => Some(Tag::Extended),
            0x55 => Some(Tag::UserMarshal),
            0x64 => Some(Tag::Data),
            _ => None,
        }
    }

    /// The byte that stands for this tag.
    pub fn to_u8(self) -> (b: u8)
        ensures
            b == tag_byte(self),
    {
        match self {
            Tag::Nil => 0x30,
            Tag::True => 0x54,
            Tag::False => 0x46,
            Tag::Integer => 0x69,
            Tag::Float => 0x66,
            Tag::String => 0x22,
            Tag::Array => 0x5b,
            Tag::Hash => 0x7b,
            Tag::HashDefault => 0x7d,
            Tag::Symbol => 0x3a,
            Tag::Symlink => 0x3b,
            Tag::Instance => 0x49,
            Tag::RawRegexp => 0x2f,
            Tag::ClassRef => 0x63,
            Tag::ModuleRef => 0x6d,
            Tag::Object => 0x6f,
            Tag::ObjectLink => 0x40,
            Tag::UserDef => 0x75,
            Tag::Struct => 0x53,
            Tag::UserClass => 0x43,
            Tag::Extended => 0x65,
            Tag::UserMarshal => 0x55,
            Tag::Data => 0x64,
        }
    }

    /// Whether a value with this tag is recorded in the object table, so that a
    /// later object link can point back at it. Immediate values, symbols and
    /// links themselves are not recorded.
    pub fn is_object_link_referenceable(&self) -> (r: bool)
        ensures
            r == tag_is_referenceable(*self),
    {
        !matches!(
            self,
            Tag::Nil | Tag::True | Tag::False | Tag::Integer | Tag::Symbol | Tag::Symlink
                | Tag::ObjectLink
        )
    }
}

impl From<Tag> for u8 {
    fn from(value: Tag) -> (b: u8) {
        value.to_u8()
    }
}

impl vstd::std_specs::convert::FromSpecImpl<Tag> for u8 {
    open spec fn obeys_from_spec() -> bool {
        true
    }

    open spec fn from_spec(v: Tag) -> u8 {
        tag_byte(v)
    }
}

/// Every tag is read back from its own byte.
pub proof fn lemma_tag_byte_roundtrip(t: Tag)
    ensures
        tag_of_byte(tag_byte(t)) == Some(t),
{
}

/// A byte that stands for a tag is that tag's byte, so no two tags share a byte.
pub proof fn lemma_byte_tag_roundtrip(b: u8)
    ensures
        tag_of_byte(b) matches Some(t) ==> tag_byte(t) == b,
{
}

} // verus!
