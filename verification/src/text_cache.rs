//! Keys of the text layout cache.
//!
//! A laid-out text is found again by its characters and by the scale at
//! which it was laid out, in thousandths.

use vstd::prelude::*;

verus! {

/// Scale, in thousandths, of a text laid out at `scale_thousandths`: held
/// between zero and the largest `u32`.
pub open spec fn scale_key_of(scale_thousandths: i64) -> u32 {
    if scale_thousandths < 0 {
        0
    } else if scale_thousandths > u32::MAX {
        u32::MAX
    } else {
        scale_thousandths as u32
    }
}

/// Key of a laid-out text.
#[derive(Clone, Hash, PartialEq, Eq)]
pub struct TextCacheKey {
    text: String,
    scale_key: u32,
}

impl TextCacheKey {
    /// The characters of the text.
    pub closed spec fn spec_text(&self) -> Seq<char> {
        self.text@
    }

    /// The scale of the text in thousandths.
    pub closed spec fn spec_scale_key(&self) -> u32 {
        self.scale_key
    }

    /// The key of `text` laid out at a scale of `scale_thousandths`
    /// thousandths.
    pub fn new(text: &str, scale_thousandths: i64) -> (key: Self)
        ensures
            key.spec_text() == text@,
            key.spec_scale_key() == scale_key_of(scale_thousandths),
    {
        let scale_key: u32 = if scale_thousandths < 0 {
            0
        } else if scale_thousandths > u32::MAX as i64 {
            u32::MAX
        } else {
            scale_thousandths as u32
        };
        Self { text: text.to_string(), scale_key }
    }

    /// The characters of the text.
    pub fn text(&self) -> (text: &str)
        ensures
            text@ == self.spec_text(),
    {
        self.text.as_str()
    }

    /// The scale of the text in thousandths.
    pub fn scale_key(&self) -> (scale_key: u32)
        ensures
            scale_key == self.spec_scale_key(),
    {
        self.scale_key
    }
}

} // verus!
