//! Overlay text styles: one style per text kind, with four colour slots and
//! three size slots addressed by [`ColorType`].
use vstd::prelude::*;

verus! {

/// Kind of overlay text (name, original, translation).
#[derive(Clone, Copy, PartialEq, Eq, Debug, Structural)]
pub enum TextType {
    Name,
    Original,
    Translation,
}

/// Colour slot of a style (primary, outline 1, outline 2, shadow).
#[derive(Clone, Copy, PartialEq, Eq, Debug, Structural)]
pub enum ColorType {
    Primary,
    Outline1,
    Outline2,
    Shadow,
}

/// Horizontal alignment of the overlay text.
#[derive(Clone, Copy, PartialEq, Eq, Debug, Hash, Structural)]
pub enum TextAlign {
    Left,
    Center,
    Right,
}

/// Text style settings.
#[derive(Clone, Debug, PartialEq, Eq)]
pub struct TextStyle {
    /// Font family name.
    pub font_face: String,
    /// Font style bits (0 normal, 1 bold, 2 italic, 3 bold italic).
    pub font_style: u8,
    /// Text size.
    pub size: i32,
    /// First outline size.
    pub outline1_size: i32,
    /// Second outline size.
    pub outline2_size: i32,
    /// Whether the shadow is drawn.
    pub shadow_enabled: bool,
    /// Primary colour (ARGB).
    pub color_primary: u32,
    /// First outline colour (ARGB).
    pub color_outline1: u32,
    /// Second outline colour (ARGB).
    pub color_outline2: u32,
    /// Shadow colour (ARGB).
    pub color_shadow: u32,
}

impl TextStyle {
    /// The colour stored in slot `t`.
    pub open spec fn color_of(&self, t: ColorType) -> u32 {
        match t {
            ColorType::Primary => self.color_primary,
            ColorType::Outline1 => self.color_outline1,
            ColorType::Outline2 => self.color_outline2,
            ColorType::Shadow => self.color_shadow,
        }
    }

    /// The size stored in slot `t`; the shadow has no size slot and reads 0.
    pub open spec fn size_of(&self, t: ColorType) -> i32 {
        match t {
            ColorType::Primary => self.size,
            ColorType::Outline1 => self.outline1_size,
            ColorType::Outline2 => self.outline2_size,
            ColorType::Shadow => 0,
        }
    }

    /// Everything but the colours is equal in `self` and `other`.
    pub open spec fn same_except_colors(&self, other: &TextStyle) -> bool {
        &&& self.font_face == other.font_face
        &&& self.font_style == other.font_style
        &&& self.size == other.size
        &&& self.outline1_size == other.outline1_size
        &&& self.outline2_size == other.outline2_size
        &&& self.shadow_enabled == other.shadow_enabled
    }

    /// Everything but the three size slots is equal in `self` and `other`.
    pub open spec fn same_except_sizes(&self, other: &TextStyle) -> bool {
        &&& self.font_face == other.font_face
        &&& self.font_style == other.font_style
        &&& self.shadow_enabled == other.shadow_enabled
        &&& self.color_primary == other.color_primary
        &&& self.color_outline1 == other.color_outline1
        &&& self.color_outline2 == other.color_outline2
        &&& self.color_shadow == other.color_shadow
    }

    pub fn get_color(&self, color_type: ColorType) -> (r: u32)
        ensures
            r == self.color_of(color_type),
    {
        match color_type {
            ColorType::Primary => self.color_primary,
            ColorType::Outline1 => self.color_outline1,
            ColorType::Outline2 => self.color_outline2,
            ColorType::Shadow => self.color_shadow,
        }
    }

    /// Writes one colour slot; the other slots and all other fields keep their values.
    pub fn set_color(&mut self, color_type: ColorType, color: u32)
        ensures
            final(self).color_of(color_type) == color,
            forall|t: ColorType| t != color_type ==> final(self).color_of(t) == old(self).color_of(t),
            final(self).same_except_colors(&*old(self)),
    {
        match color_type {
            ColorType::Primary => self.color_primary = color,
            ColorType::Outline1 => self.color_outline1 = color,
            ColorType::Outline2 => self.color_outline2 = color,
            ColorType::Shadow => self.color_shadow = color,
        }
    }

    pub fn get_size(&self, color_type: ColorType) -> (r: i32)
        ensures
            r == self.size_of(color_type),
    {
        match color_type {
            ColorType::Primary => self.size,
            ColorType::Outline1 => self.outline1_size,
            ColorType::Outline2 => self.outline2_size,
            ColorType::Shadow => 0,
        }
    }

    /// Writes one size slot; writing the shadow slot changes nothing.
    pub fn set_size(&mut self, color_type: ColorType, size: i32)
        ensures
            color_type != ColorType::Shadow ==> final(self).size_of(color_type) == size,
            color_type == ColorType::Shadow ==> *final(self) == *old(self),
            forall|t: ColorType| t != color_type ==> final(self).size_of(t) == old(self).size_of(t),
            final(self).same_except_sizes(&*old(self)),
    {
        match color_type {
            ColorType::Primary => self.size = size,
            ColorType::Outline1 => self.outline1_size = size,
            ColorType::Outline2 => self.outline2_size = size,
            ColorType::Shadow => {},
        }
    }

    /// The default style: 22pt white text with a black and a dark grey outline
    /// and a half-transparent black shadow.
    pub open spec fn is_default_style(&self) -> bool {
        &&& self.font_style == 0
        &&& self.size == 22
        &&& self.outline1_size == 2
        &&& self.outline2_size == 4
        &&& self.shadow_enabled
        &&& self.color_primary == 0xFFFFFFFFu32
        &&& self.color_outline1 == 0xFF000000u32
        &&& self.color_outline2 == 0xFF404040u32
        &&& self.color_shadow == 0x80000000u32
    }
}

impl Default for TextStyle {
    fn default() -> (r: Self)
        ensures
            r.is_default_style(),
            r.font_face@ == "맑은 고딕"@,
    {
        TextStyle {
            font_face: "맑은 고딕".to_owned(),
            font_style: 0,
            size: 22,
            outline1_size: 2,
            outline2_size: 4,
            shadow_enabled: true,
            color_primary: 0xFFFFFFFF,
            color_outline1: 0xFF000000,
            color_outline2: 0xFF404040,
            color_shadow: 0x80000000,
        }
    }
}

} // verus!
