use vstd::prelude::*;

verus! {

/// An RGBA color: four 8-bit channels, compared channel by channel.
#[derive(Clone, Copy, Debug, PartialEq, Eq, Structural)]
pub struct Color {
    pub r: u8,
    pub g: u8,
    pub b: u8,
    pub a: u8,
}

/// Channel `k` (0: red, 1: green, 2: blue, 3: alpha) of `c`.
pub open spec fn channel(c: Color, k: int) -> u8 {
    if k == 0 {
        c.r
    } else if k == 1 {
        c.g
    } else if k == 2 {
        c.b
    } else {
        c.a
    }
}

/// The bytes of a run of colors: four per color, in the order r, g, b, a.
pub open spec fn colors_bytes(s: Seq<Color>) -> Seq<u8> {
    Seq::new(4 * s.len(), |i: int| channel(s[i / 4], i % 4))
}

/// The colors that a run of bytes encodes, four bytes per color.
pub open spec fn bytes_colors(b: Seq<u8>) -> Seq<Color> {
    Seq::new(
        b.len() / 4,
        |i: int| Color { r: b[4 * i], g: b[4 * i + 1], b: b[4 * i + 2], a: b[4 * i + 3] },
    )
}

/// Serialising colors to bytes, four per color.
pub trait ColorAsByteSlice: View<V = Seq<Color>> {
    /// The bytes of these colors, in the order r, g, b, a for each.
    fn as_byte_slice(&self) -> (r: Vec<u8>)
        ensures
            r@ == colors_bytes(self@),
    ;
}

impl ColorAsByteSlice for [Color] {
    fn as_byte_slice(&self) -> (r: Vec<u8>) {
        let mut out: Vec<u8> = Vec::new();
        let mut i: usize = 0;
        while i < self.len()
            invariant
                i <= self@.len(),
                out@ =~= colors_bytes(self@.subrange(0, i as int)),
            decreases self@.len() - i,
        {
            let c = self[i];
            out.push(c.r);
            out.push(c.g);
            out.push(c.b);
            out.push(c.a);
            i = i + 1;
            assert(out@ =~= colors_bytes(self@.subrange(0, i as int)));
        }
        assert(self@.subrange(0, i as int) =~= self@);
        out
    }
}

/// A channel scaled by a tint channel: `c * t / 255`, truncated.
pub open spec fn tint_channel(c: u8, t: u8) -> u8 {
    (c as int * t as int / 255) as u8
}

/// `c` with each of its four channels scaled by the matching channel of `t`.
pub open spec fn tinted(c: Color, t: Color) -> Color {
    Color {
        r: tint_channel(c.r, t.r),
        g: tint_channel(c.g, t.g),
        b: tint_channel(c.b, t.b),
        a: tint_channel(c.a, t.a),
    }
}

fn scale_channel(c: u8, t: u8) -> (r: u8)
    ensures
        r == tint_channel(c, t),
{
    assert(c as int * t as int <= 255 * 255) by (nonlinear_arith)
        requires
            c <= 255,
            t <= 255,
    ;
    assert(c as int * t as int / 255 <= 255) by (nonlinear_arith)
        requires
            c as int * t as int <= 255 * 255,
    ;
    ((c as u32 * t as u32) / 255) as u8
}

impl Color {
    /// Decodes colors from bytes, four per color in the order r, g, b, a.
    pub fn from_bytes(bytes: &[u8]) -> (r: Vec<Color>)
        requires
            bytes@.len() % 4 == 0,
        ensures
            r@ == bytes_colors(bytes@),
    {
        let len: usize = bytes.len();
        let n: usize = len / 4;
        let mut out: Vec<Color> = Vec::new();
        let mut i: usize = 0;
        while i < n
            invariant
                n == bytes@.len() / 4,
                len == bytes@.len(),
                4 * n == len,
                i <= n,
                out@ =~= bytes_colors(bytes@).subrange(0, i as int),
            decreases n - i,
        {
            out.push(
                Color {
                    r: bytes[4 * i],
                    g: bytes[4 * i + 1],
                    b: bytes[4 * i + 2],
                    a: bytes[4 * i + 3],
                },
            );
            i = i + 1;
            assert(out@ =~= bytes_colors(bytes@).subrange(0, i as int));
        }
        out
    }

    /// The four channels of this color, in the order r, g, b, a.
    pub fn as_bytes(&self) -> (r: [u8; 4])
        ensures
            r@ == seq![self.r, self.g, self.b, self.a],
    {
        let r = [self.r, self.g, self.b, self.a];
        assert(r@ =~= seq![self.r, self.g, self.b, self.a]);
        r
    }

    /// This color with each channel scaled by the matching channel of `tint`
    /// (a multiplicative tint, not an alpha blend).
    pub fn tint(&self, tint: &Color) -> (r: Color)
        ensures
            r == tinted(*self, *tint),
    {
        Color {
            r: scale_channel(self.r, tint.r),
            g: scale_channel(self.g, tint.g),
            b: scale_channel(self.b, tint.b),
            a: scale_channel(self.a, tint.a),
        }
    }

    /// Builds a color from its four channels.
    pub fn from_rgba(r: u8, g: u8, b: u8, a: u8) -> (c: Color)
        ensures
            c == (Color { r, g, b, a }),
    {
        Color { r, g, b, a }
    }

    /// Builds an opaque color (alpha 255) from its three color channels.
    pub fn from_rgb(r: u8, g: u8, b: u8) -> (c: Color)
        ensures
            c == (Color { r, g, b, a: 255 }),
    {
        Color { r, g, b, a: 255 }
    }
}

} // verus!
