//! Texture settings of an object.

use vstd::prelude::*;

verus! {

/// Where a texture is read from and which of the three texture modes
/// (clamp, repeat, mirrored repeat) is on.
pub struct Fields {
    pub file_location: String,
    pub mode: [bool; 3],
}

impl Fields {
    /// An empty location with the first mode switched on.
    pub fn init() -> (fields: Self)
        ensures
            fields.file_location@ == Seq::<char>::empty(),
            fields.mode@ == seq![true, false, false],
    {
        let fields = Self { file_location: String::new(), mode: [true, false, false] };
        assert(fields.mode@ =~= seq![true, false, false]);
        fields
    }
}

} // verus!
