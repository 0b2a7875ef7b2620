//! Pixel colours and the two output modes.

use vstd::prelude::*;

verus! {

/// Number of hue steps a palette holds: one for every brightness value.
pub const PALETTE_LEN: usize = 256;

/// An opaque pixel colour with three 8-bit channels.
#[derive(Clone, Copy, PartialEq, Eq, Structural, Debug)]
pub struct Rgb {
    pub red: u8,
    pub green: u8,
    pub blue: u8,
}

impl Rgb {
    /// The colour as a triple of channels, red first.
    pub open spec fn channels(self) -> (u8, u8, u8) {
        (self.red, self.green, self.blue)
    }

    /// The colour whose channels are the given triple.
    pub open spec fn of_channels(c: (u8, u8, u8)) -> Rgb {
        Rgb { red: c.0, green: c.1, blue: c.2 }
    }

    /// Channel `k` of the colour: 0 is red, 1 is green, anything else blue.
    pub open spec fn channel(self, k: int) -> u8 {
        if k == 0 {
            self.red
        } else if k == 1 {
            self.green
        } else {
            self.blue
        }
    }

    /// The gray whose three channels all equal `level`.
    pub open spec fn spec_gray(level: u8) -> Rgb {
        Rgb { red: level, green: level, blue: level }
    }

    /// Builds the gray pixel of the given level.
    pub fn gray(level: u8) -> (out: Rgb)
        ensures
            out == Rgb::spec_gray(level),
    {
        Rgb { red: level, green: level, blue: level }
    }
}

/// The colours of colour mode, one for each brightness read as a hue in
/// degrees: entry `h` is the colour of hue `h`, for the saturation and
/// lightness the palette was computed with.
pub struct Palette {
    colors: Vec<Rgb>,
}

impl View for Palette {
    type V = Seq<Rgb>;

    closed spec fn view(&self) -> Seq<Rgb> {
        self.colors@
    }
}

impl Palette {
    #[verifier::type_invariant]
    spec fn complete(&self) -> bool {
        self.colors@.len() == PALETTE_LEN
    }

    /// Takes the colours of the hues 0 to 255 degrees, in that order, and
    /// refuses a list of any other length.
    pub fn from_colors(colors: Vec<Rgb>) -> (out: Option<Palette>)
        ensures
            out is Some <==> colors@.len() == PALETTE_LEN,
            out matches Some(p) ==> p@ == colors@,
    {
        if colors.len() == PALETTE_LEN {
            Some(Palette { colors })
        } else {
            None
        }
    }

    /// The colour of the given hue.
    pub fn color(&self, hue: u8) -> (out: Rgb)
        ensures
            self@.len() == PALETTE_LEN,
            out == self@[hue as int],
    {
        proof {
            use_type_invariant(self);
        }
        self.colors[hue as usize]
    }
}

/// The two output modes, each with what it needs to colour a pixel.
pub enum ColorMode {
    /// All three channels carry the brightness.
    Grayscale,
    /// The brightness is a hue in degrees, looked up in the palette.
    Colored(Palette),
}

impl ColorMode {
    /// The colour a brightness is shown in.
    pub open spec fn spec_shade(&self, level: u8) -> Rgb {
        match self {
            ColorMode::Grayscale => Rgb::spec_gray(level),
            ColorMode::Colored(palette) => palette@[level as int],
        }
    }

    /// Derives the colour of a pixel from its brightness: a gray of that
    /// level, or the palette's colour for that hue. The brightness is taken
    /// as degrees as it stands; it is not rescaled to the full circle.
    pub fn shade(&self, level: u8) -> (out: Rgb)
        ensures
            out == self.spec_shade(level),
            self is Grayscale ==> out.red == level && out.green == level && out.blue == level,
    {
        match self {
            ColorMode::Grayscale => Rgb::gray(level),
            ColorMode::Colored(palette) => palette.color(level),
        }
    }
}

} // verus!
