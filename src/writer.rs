use vstd::prelude::*;

use vstd::string::StringSliceAdditionalSpecFns;

use crate::color::Color;

verus! {

/// One byte of output together with the colours it was written in.
#[derive(Clone, Copy, Debug, PartialEq, Eq, Structural)]
pub struct ColoredByte {
    pub byte: u8,
    pub fg: Color,
    pub bg: Color,
}

/// `bytes`, each in foreground `fg` on background `bg`.
pub open spec fn painted(bytes: Seq<u8>, fg: Color, bg: Color) -> Seq<ColoredByte> {
    Seq::new(bytes.len(), |i: int| ColoredByte { byte: bytes[i], fg, bg })
}

/// Painting a concatenation paints each part.
pub proof fn lemma_painted_concat(a: Seq<u8>, b: Seq<u8>, fg: Color, bg: Color)
    ensures
        painted(a + b, fg, bg) == painted(a, fg, bg) + painted(b, fg, bg),
{
    assert(painted(a + b, fg, bg) =~= painted(a, fg, bg) + painted(b, fg, bg));
}

/// Concatenation is associative.
pub proof fn lemma_concat_assoc(a: Seq<ColoredByte>, b: Seq<ColoredByte>, c: Seq<ColoredByte>)
    ensures
        (a + b) + c == a + (b + c),
{
    assert((a + b) + c =~= a + (b + c));
}

/// A text display: the stream of coloured bytes written so far and the
/// colour pair that the next write uses.
pub struct Writer {
    cells: Vec<ColoredByte>,
    fg: Color,
    bg: Color,
}

impl Writer {
    /// Everything written so far, in order.
    pub closed spec fn cells(&self) -> Seq<ColoredByte> {
        self.cells@
    }

    /// The foreground colour of the next write.
    pub closed spec fn fg(&self) -> Color {
        self.fg
    }

    /// The background colour of the next write.
    pub closed spec fn bg(&self) -> Color {
        self.bg
    }

    /// An empty display that writes in `fg` on `bg`.
    pub fn new(fg: Color, bg: Color) -> (w: Writer)
        ensures
            w.cells() == Seq::<ColoredByte>::empty(),
            w.fg() == fg,
            w.bg() == bg,
    {
        Writer { cells: Vec::new(), fg, bg }
    }

    /// Selects the colours of subsequent writes.
    pub fn set_color(&mut self, fg: Color, bg: Color)
        ensures
            final(self).cells() == old(self).cells(),
            final(self).fg() == fg,
            final(self).bg() == bg,
    {
        self.fg = fg;
        self.bg = bg;
    }

    /// Appends one byte in the current colours.
    pub fn write_byte(&mut self, b: u8)
        ensures
            final(self).cells() == old(self).cells().push(
                ColoredByte { byte: b, fg: old(self).fg(), bg: old(self).bg() },
            ),
            final(self).fg() == old(self).fg(),
            final(self).bg() == old(self).bg(),
    {
        let c = ColoredByte { byte: b, fg: self.fg, bg: self.bg };
        self.cells.push(c);
    }

    /// Appends `s` byte by byte in the current colours.
    pub fn write_bytes(&mut self, s: &[u8])
        ensures
            final(self).cells() == old(self).cells() + painted(s@, old(self).fg(), old(self).bg()),
            final(self).fg() == old(self).fg(),
            final(self).bg() == old(self).bg(),
    {
        let n = s.len();
        let mut i: usize = 0;
        while i < n
            invariant
                n == s@.len(),
                i <= n,
                self.fg == old(self).fg,
                self.bg == old(self).bg,
                self.cells@ == old(self).cells@ + painted(s@.take(i as int), self.fg, self.bg),
            decreases n - i,
        {
            self.write_byte(s[i]);
            assert(s@.take(i + 1) == s@.take(i as int).push(s@[i as int]));
            assert(painted(s@.take(i + 1), self.fg, self.bg) =~= painted(
                s@.take(i as int),
                self.fg,
                self.bg,
            ).push(ColoredByte { byte: s@[i as int], fg: self.fg, bg: self.bg }));
            i += 1;
        }
        assert(s@.take(n as int) == s@);
    }

    /// Appends the UTF-8 bytes of `s` in the current colours.
    pub fn write_str(&mut self, s: &str)
        ensures
            final(self).cells() == old(self).cells() + painted(
                s.spec_bytes(),
                old(self).fg(),
                old(self).bg(),
            ),
            final(self).fg() == old(self).fg(),
            final(self).bg() == old(self).bg(),
    {
        self.write_bytes(s.as_bytes());
    }

    /// The bytes written so far, without their colours.
    pub fn text(&self) -> (r: Vec<u8>)
        ensures
            r@ == self.cells().map_values(|c: ColoredByte| c.byte),
    {
        let mut r: Vec<u8> = Vec::new();
        let mut i: usize = 0;
        while i < self.cells.len()
            invariant
                i <= self.cells@.len(),
                r@ == self.cells@.take(i as int).map_values(|c: ColoredByte| c.byte),
            decreases self.cells@.len() - i,
        {
            r.push(self.cells[i].byte);
            assert(self.cells@.take(i + 1) == self.cells@.take(i as int).push(self.cells@[i as int]));
            assert(r@ =~= self.cells@.take(i + 1).map_values(|c: ColoredByte| c.byte));
            i += 1;
        }
        assert(self.cells@.take(i as int) == self.cells@);
        r
    }

    /// Everything written so far, with colours.
    pub fn cells_written(&self) -> (r: &Vec<ColoredByte>)
        ensures
            r@ == self.cells(),
    {
        &self.cells
    }

    /// The current colour pair.
    pub fn color(&self) -> (r: (Color, Color))
        ensures
            r == (self.fg(), self.bg()),
    {
        (self.fg, self.bg)
    }
}

} // verus!
