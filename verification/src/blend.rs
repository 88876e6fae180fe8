//! Blend modes of layers and groups.

use vstd::prelude::*;

verus! {

/// Blend mode of a layer or a group.
///
/// The serialized form is the variant name ("Normal", "Multiply", ...),
/// which is also the label shown in the interface.
#[derive(Debug, Clone, Copy, PartialEq, Eq, Hash)]
pub enum BlendMode {
    Normal,
    Multiply,
    Screen,
    Overlay,
    Darken,
    Lighten,
}

/// Numeric identifier of a blend mode, as used by the compositing kernels.
pub open spec fn blend_id(mode: BlendMode) -> u32 {
    match mode {
        BlendMode::Normal => 0,
        BlendMode::Multiply => 1,
        BlendMode::Screen => 2,
        BlendMode::Overlay => 3,
        BlendMode::Darken => 4,
        BlendMode::Lighten => 5,
    }
}

/// Human-readable label of a blend mode.
pub open spec fn blend_label(mode: BlendMode) -> Seq<char> {
    match mode {
        BlendMode::Normal => "Normal"@,
        BlendMode::Multiply => "Multiply"@,
        BlendMode::Screen => "Screen"@,
        BlendMode::Overlay => "Overlay"@,
        BlendMode::Darken => "Darken"@,
        BlendMode::Lighten => "Lighten"@,
    }
}

/// Display order of the blend modes in the interface.
pub open spec fn blend_display_order() -> Seq<BlendMode> {
    seq![
        BlendMode::Normal,
        BlendMode::Multiply,
        BlendMode::Screen,
        BlendMode::Overlay,
        BlendMode::Darken,
        BlendMode::Lighten,
    ]
}

impl BlendMode {
    /// All modes, in display order.
    pub fn all() -> (modes: Vec<BlendMode>)
        ensures
            modes@ == blend_display_order(),
    {
        let modes = vec![
            BlendMode::Normal,
            BlendMode::Multiply,
            BlendMode::Screen,
            BlendMode::Overlay,
            BlendMode::Darken,
            BlendMode::Lighten,
        ];
        assert(modes@ =~= blend_display_order());
        modes
    }

    /// Human-readable label for the interface.
    pub fn label(self) -> (label: &'static str)
        ensures
            label@ == blend_label(self),
    {
        match self {
            BlendMode::Normal => "Normal",
            BlendMode::Multiply => "Multiply",
            BlendMode::Screen => "Screen",
            BlendMode::Overlay => "Overlay",
            BlendMode::Darken => "Darken",
            BlendMode::Lighten => "Lighten",
        }
    }

    /// Numeric identifier (compositing kernels and golden tests).
    pub fn id(self) -> (id: u32)
        ensures
            id == blend_id(self),
    {
        match self {
            BlendMode::Normal => 0,
            BlendMode::Multiply => 1,
            BlendMode::Screen => 2,
            BlendMode::Overlay => 3,
            BlendMode::Darken => 4,
            BlendMode::Lighten => 5,
        }
    }

    /// Blend mode of a numeric identifier, `None` outside `0..=5`.
    pub fn from_id(id: u32) -> (mode: Option<BlendMode>)
        ensures
            match mode {
                Some(m) => blend_id(m) == id,
                None => id > 5,
            },
    {
        match id {
            0 => Some(BlendMode::Normal),
            1 => Some(BlendMode::Multiply),
            2 => Some(BlendMode::Screen),
            3 => Some(BlendMode::Overlay),
            4 => Some(BlendMode::Darken),
            5 => Some(BlendMode::Lighten),
            _ => None,
        }
    }

    /// Whether this is the `Normal` mode (plain alpha compositing).
    pub fn is_normal(self) -> (normal: bool)
        ensures
            normal == (self == BlendMode::Normal),
    {
        match self {
            BlendMode::Normal => true,
            _ => false,
        }
    }
}

/// The numeric identifiers of the blend modes are pairwise distinct,
/// so a mode can be recovered from its identifier.
pub proof fn blend_id_injective(a: BlendMode, b: BlendMode)
    ensures
        blend_id(a) == blend_id(b) ==> a == b,
{
}

} // verus!
