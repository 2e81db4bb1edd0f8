//! The green look of the program's buttons and slider, as plain values:
//! colours as 8-bit red, green and blue, sizes in whole pixels.
use vstd::prelude::*;

verus! {

#[derive(Clone, Copy, Debug, PartialEq, Eq, Structural)]
pub struct Rgb {
    pub r: u8,
    pub g: u8,
    pub b: u8,
}

/// An opaque drop shadow.
#[derive(Clone, Copy, Debug, PartialEq, Eq, Structural)]
pub struct ShadowLook {
    pub color: Rgb,
    pub offset_x: i32,
    pub offset_y: i32,
    pub blur_radius: u32,
}

#[derive(Clone, Copy, Debug, PartialEq, Eq, Structural)]
pub struct ButtonLook {
    pub background: Rgb,
    pub border_color: Rgb,
    pub border_width: u32,
    pub border_radius: u32,
    /// No shadow where absent.
    pub shadow: Option<ShadowLook>,
    pub text_color: Rgb,
}

#[derive(Clone, Copy, Debug, PartialEq, Eq, Structural)]
pub struct RailLook {
    /// The part of the rail before the handle.
    pub before: Rgb,
    /// The part after the handle.
    pub after: Rgb,
    pub width: u32,
    pub border_radius: u32,
}

/// A rectangular handle.
#[derive(Clone, Copy, Debug, PartialEq, Eq, Structural)]
pub struct HandleLook {
    pub width: u32,
    pub border_radius: u32,
    pub color: Rgb,
    pub border_color: Rgb,
    pub border_width: u32,
}

#[derive(Clone, Copy, Debug, PartialEq, Eq, Structural)]
pub struct SliderLook {
    pub rail: RailLook,
    pub handle: HandleLook,
}

pub open spec fn rgb(r: u8, g: u8, b: u8) -> Rgb {
    Rgb { r, g, b }
}

/// Creeper green.
pub open spec fn creeper_green() -> Rgb {
    rgb(0x3a, 0x7a, 0x3a)
}

/// The darker green of borders.
pub open spec fn border_green() -> Rgb {
    rgb(0x2e, 0x8b, 0x57)
}

pub open spec fn button_active_look() -> ButtonLook {
    ButtonLook {
        background: creeper_green(),
        border_color: border_green(),
        border_width: 1,
        border_radius: 3,
        shadow: Some(ShadowLook { color: rgb(0, 0, 0), offset_x: 0, offset_y: 1, blur_radius: 1 }),
        text_color: rgb(0xff, 0xff, 0xff),
    }
}

pub open spec fn slider_active_look() -> SliderLook {
    SliderLook {
        rail: RailLook { before: border_green(), after: creeper_green(), width: 2, border_radius: 2 },
        handle: HandleLook {
            width: 10,
            border_radius: 2,
            color: creeper_green(),
            border_color: border_green(),
            border_width: 1,
        },
    }
}

fn make_rgb(r: u8, g: u8, b: u8) -> (c: Rgb)
    ensures
        c == rgb(r, g, b),
{
    Rgb { r, g, b }
}

/// The style of the program's buttons.
pub struct MinecraftButton;

impl MinecraftButton {
    pub fn active(&self) -> (r: ButtonLook)
        ensures
            r == button_active_look(),
    {
        ButtonLook {
            background: make_rgb(0x3a, 0x7a, 0x3a),
            border_color: make_rgb(0x2e, 0x8b, 0x57),
            border_width: 1,
            border_radius: 3,
            shadow: Some(
                ShadowLook {
                    color: make_rgb(0, 0, 0),
                    offset_x: 0,
                    offset_y: 1,
                    blur_radius: 1,
                },
            ),
            text_color: make_rgb(0xff, 0xff, 0xff),
        }
    }

    /// Lighter green under the pointer.
    pub fn hovered(&self) -> (r: ButtonLook)
        ensures
            r == (ButtonLook { background: rgb(0x4a, 0x8b, 0x4a), ..button_active_look() }),
    {
        ButtonLook { background: make_rgb(0x4a, 0x8b, 0x4a), ..self.active() }
    }

    /// As under the pointer, without the shadow.
    pub fn pressed(&self) -> (r: ButtonLook)
        ensures
            r == (ButtonLook {
                background: rgb(0x4a, 0x8b, 0x4a),
                shadow: None,
                ..button_active_look()
            }),
    {
        ButtonLook { shadow: None, ..self.hovered() }
    }
}

/// The style of the interval slider.
pub struct MinecraftSlider;

impl MinecraftSlider {
    pub fn active(&self) -> (r: SliderLook)
        ensures
            r == slider_active_look(),
    {
        SliderLook {
            rail: RailLook {
                before: make_rgb(0x2e, 0x8b, 0x57),
                after: make_rgb(0x3a, 0x7a, 0x3a),
                width: 2,
                border_radius: 2,
            },
            handle: HandleLook {
                width: 10,
                border_radius: 2,
                color: make_rgb(0x3a, 0x7a, 0x3a),
                border_color: make_rgb(0x2e, 0x8b, 0x57),
                border_width: 1,
            },
        }
    }

    /// A lighter handle under the pointer.
    pub fn hovered(&self) -> (r: SliderLook)
        ensures
            r == (SliderLook {
                handle: HandleLook { color: rgb(0x6e, 0xc1, 0x6e), ..slider_active_look().handle },
                ..slider_active_look()
            }),
    {
        let active = self.active();
        SliderLook { handle: HandleLook { color: make_rgb(0x6e, 0xc1, 0x6e), ..active.handle }, ..active }
    }

    /// A slightly darker handle while dragged.
    pub fn dragging(&self) -> (r: SliderLook)
        ensures
            r == (SliderLook {
                handle: HandleLook { color: rgb(0x5e, 0xb1, 0x5e), ..slider_active_look().handle },
                ..slider_active_look()
            }),
    {
        let hovered = self.hovered();
        SliderLook {
            handle: HandleLook { color: make_rgb(0x5e, 0xb1, 0x5e), ..hovered.handle },
            ..hovered
        }
    }
}

} // verus!
