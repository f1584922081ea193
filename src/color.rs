use vstd::prelude::*;

verus! {

/// The colour of one tile of the ascii output.
#[derive(Clone, Copy, Debug, PartialEq, Eq, Structural)]
pub enum RasciiColor {
    RGB(u8, u8, u8),
    Grayscale(u8),
}

/// `f` is usable as the brightness of RGB triples: it accepts every triple
/// and gives each triple a single value.
pub open spec fn is_luminance<L: Fn(u8, u8, u8) -> u8>(f: L) -> bool {
    &&& forall|r: u8, g: u8, b: u8| #[trigger] call_requires(f, (r, g, b))
    &&& forall|c: (u8, u8, u8), v: u8, w: u8|
        #![trigger call_ensures(f, c, v), call_ensures(f, c, w)]
        call_ensures(f, c, v) && call_ensures(f, c, w) ==> v == w
}

/// The brightness that `f` gives to the RGB triple `c`.
pub open spec fn luma_of<L: Fn(u8, u8, u8) -> u8>(f: L, c: (u8, u8, u8)) -> u8 {
    choose|v: u8| call_ensures(f, c, v)
}

/// A value that `f` returned for `c` is the brightness of `c`.
pub proof fn lemma_luma_of<L: Fn(u8, u8, u8) -> u8>(f: L, c: (u8, u8, u8), v: u8)
    requires
        is_luminance(f),
        call_ensures(f, c, v),
    ensures
        luma_of(f, c) == v,
{
    let w = luma_of(f, c);
    assert(call_ensures(f, c, w));
}

impl RasciiColor {
    /// Brightness of the colour: a grey level is its own brightness, an RGB
    /// triple gets the brightness that `f` gives it.
    pub open spec fn brightness<L: Fn(u8, u8, u8) -> u8>(self, f: L) -> u8 {
        match self {
            RasciiColor::RGB(r, g, b) => luma_of(f, (r, g, b)),
            RasciiColor::Grayscale(l) => l,
        }
    }

    /// The colour as three channels; a grey level is given as black.
    pub open spec fn channels(self) -> (u8, u8, u8) {
        match self {
            RasciiColor::RGB(r, g, b) => (r, g, b),
            RasciiColor::Grayscale(_) => (0, 0, 0),
        }
    }

    /// The brightness of this colour, with `luminance` as the brightness of
    /// RGB triples.
    pub fn to_grayscale<L: Fn(u8, u8, u8) -> u8>(&self, luminance: &L) -> (y: u8)
        requires
            is_luminance(*luminance),
        ensures
            y == self.brightness(*luminance),
    {
        match self {
            RasciiColor::RGB(r, g, b) => {
                let y = luminance(*r, *g, *b);
                proof {
                    lemma_luma_of(*luminance, (*r, *g, *b), y);
                }
                y
            },
            RasciiColor::Grayscale(l) => *l,
        }
    }

    /// The colour as three channels, black for a grey level.
    pub fn rgb_channels(&self) -> (c: (u8, u8, u8))
        ensures
            c == self.channels(),
    {
        match self {
            RasciiColor::RGB(r, g, b) => (*r, *g, *b),
            RasciiColor::Grayscale(_) => (0, 0, 0),
        }
    }
}

} // verus!
