//! Values, handles and the allocation failure.

use vstd::prelude::*;

verus! {

/// An identifier names one live entry of the arena.
pub type DatumId = u32;

/// A runtime value. The arena looks at one thing only: whether the value is
/// [`Datum::Void`], the value that stands for "nothing".
#[derive(Clone, Debug, PartialEq)]
pub enum Datum {
    Void,
    Int(i32),
    String(String),
    List(Vec<DatumRef>),
}

impl Datum {
    /// Whether this is the empty value.
    pub fn is_void(&self) -> (b: bool)
        ensures
            b == (*self is Void),
    {
        match self {
            Datum::Void => true,
            _ => false,
        }
    }
}

/// A handle to a value: either the empty tag, or a reference that carries the
/// identifier of a live entry. Copying a handle does not touch any count.
#[derive(Clone, Copy, Debug, PartialEq, Eq, Structural, Hash)]
pub enum DatumRef {
    Void,
    Ref(DatumId),
}

/// The handle that every empty value shares.
pub const VOID_DATUM_REF: DatumRef = DatumRef::Void;

impl DatumRef {
    /// The reference handle for `id`.
    pub fn from_id(id: DatumId) -> (r: DatumRef)
        ensures
            r == DatumRef::Ref(id),
    {
        DatumRef::Ref(id)
    }

    /// The identifier that the handle carries, if it is a reference.
    pub fn id(&self) -> (r: Option<DatumId>)
        ensures
            r == self.spec_id(),
    {
        match self {
            DatumRef::Void => None,
            DatumRef::Ref(id) => Some(*id),
        }
    }

    pub open spec fn spec_id(&self) -> Option<DatumId> {
        match *self {
            DatumRef::Void => None,
            DatumRef::Ref(id) => Some(id),
        }
    }
}

/// A failure that a script can be aborted with.
#[derive(Clone, Debug, PartialEq, Eq)]
pub struct ScriptError {
    pub message: String,
}

impl ScriptError {
    pub fn new(message: String) -> (e: ScriptError)
        ensures
            e.message == message,
    {
        ScriptError { message }
    }
}

} // verus!
