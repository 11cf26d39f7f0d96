//! A rectangle of pixels that can be written out as a portable pixmap.

pub mod color;

use vstd::prelude::*;
use vstd::std_specs::cmp::{PartialEqSpec, PartialEqSpecImpl};
use crate::ppm::{Ppm, PpmColor, layout, pixmap, texts};

verus! {

/// A canvas of `width` by `height` pixels.  The pixel `(x, y)` stands in
/// column `x` of line `y`; line 0 is the top line.
#[derive(Debug)]
pub struct Canvas<C> {
    pixels: Vec<Vec<C>>,
    width: usize,
}

/// The lines of `v` as sequences.
pub open spec fn lines<C>(v: Seq<Vec<C>>) -> Seq<Seq<C>> {
    Seq::new(v.len(), |y: int| v[y]@)
}

/// The pixels of the first `k` lines in reading order: line after line from
/// the top, each from left to right.
pub open spec fn reading_order<C>(grid: Seq<Seq<C>>, k: nat) -> Seq<C>
    decreases k,
{
    if k == 0 {
        Seq::empty()
    } else {
        reading_order(grid, (k - 1) as nat) + grid[k - 1]
    }
}

/// Whether `cells` are texts that the pixels wrote for themselves, one for
/// each pixel, in reading order.
pub open spec fn written<C: PpmColor>(pixels: Seq<C>, cells: Seq<String>) -> bool {
    &&& cells.len() == pixels.len()
    &&& forall|i: int| 0 <= i < pixels.len() ==> call_ensures(C::to_ppm_color, (&#[trigger] pixels[i],), cells[i])
}

impl<C> View for Canvas<C> {
    type V = Seq<Seq<C>>;

    /// The pixels, line by line from the top.
    closed spec fn view(&self) -> Seq<Seq<C>> {
        lines(self.pixels@)
    }
}

impl<C> Canvas<C> {
    #[verifier::type_invariant]
    spec fn shaped(&self) -> bool {
        forall|y: int| 0 <= y < self.pixels@.len() ==> (#[trigger] self.pixels@[y]).len() == self.width
    }

    /// The number of pixels in a line.
    pub closed spec fn spec_width(&self) -> usize {
        self.width
    }

    /// The number of lines.
    pub closed spec fn spec_height(&self) -> usize {
        self.pixels@.len() as usize
    }

    /// The number of pixels in a line, which is the length of every line of
    /// the view.
    #[verifier::when_used_as_spec(spec_width)]
    pub fn width(&self) -> (w: usize)
        ensures
            w == self.width(),
            forall|y: int| 0 <= y < self@.len() ==> (#[trigger] self@[y]).len() == w,
    {
        proof {
            use_type_invariant(self);
        }
        self.width
    }

    /// The number of lines, which is the number of lines of the view.
    #[verifier::when_used_as_spec(spec_height)]
    pub fn height(&self) -> (h: usize)
        ensures
            h == self.height(),
            self@.len() == h,
    {
        self.pixels.len()
    }

    /// Sets the pixel in column `width` of line `height`.
    pub fn write_pixel(&mut self, width: usize, height: usize, color: C)
        requires
            width < old(self).width(),
            height < old(self).height(),
        ensures
            final(self).width() == old(self).width(),
            final(self).height() == old(self).height(),
            final(self)@ == old(self)@.update(height as int, old(self)@[height as int].update(width as int, color)),
    {
        proof {
            use_type_invariant(&*self);
        }
        // The lines are taken out while one of them is changed, so that the
        // canvas is rectangular at every moment.
        let mut pixels: Vec<Vec<C>> = Vec::new();
        core::mem::swap(&mut self.pixels, &mut pixels);
        pixels[height][width] = color;
        core::mem::swap(&mut self.pixels, &mut pixels);
        assert(self@ =~= old(self)@.update(height as int, old(self)@[height as int].update(width as int, color)));
    }
}

impl<C: Copy> Canvas<C> {
    /// A canvas of the given size with every pixel set to `color`.
    pub fn new(width: usize, height: usize, color: C) -> (c: Self)
        ensures
            c.width() == width,
            c.height() == height,
            c@.len() == height,
            forall|y: int| 0 <= y < height ==> (#[trigger] c@[y]).len() == width,
            forall|x: int, y: int| 0 <= x < width && 0 <= y < height ==> #[trigger] c@[y][x] == color,
    {
        let mut pixels: Vec<Vec<C>> = Vec::new();
        let mut y: usize = 0;
        while y < height
            invariant
                y <= height,
                pixels@.len() == y,
                forall|a: int| 0 <= a < y ==> (#[trigger] pixels@[a]).len() == width,
                forall|a: int, b: int| 0 <= a < y && 0 <= b < width ==> #[trigger] pixels@[a]@[b] == color,
            decreases height - y,
        {
            let mut line: Vec<C> = Vec::new();
            let mut x: usize = 0;
            while x < width
                invariant
                    x <= width,
                    line@.len() == x,
                    forall|b: int| 0 <= b < x ==> #[trigger] line@[b] == color,
                decreases width - x,
            {
                line.push(color);
                x = x + 1;
            }
            pixels.push(line);
            y = y + 1;
        }
        Canvas { pixels, width }
    }

    /// The pixel in column `width` of line `height`.
    pub fn pixel_at(&self, width: usize, height: usize) -> (color: C)
        requires
            width < self.width(),
            height < self.height(),
        ensures
            color == self@[height as int][width as int],
    {
        proof {
            use_type_invariant(self);
        }
        self.pixels[height][width]
    }
}

impl<C: PartialEq> PartialEq for Canvas<C> {
    fn eq(&self, other: &Self) -> (r: bool) {
        proof {
            use_type_invariant(self);
            use_type_invariant(other);
        }
        if self.pixels.len() != other.pixels.len() {
            return false;
        }
        let mut y: usize = 0;
        while y < self.pixels.len()
            invariant
                y <= self.pixels@.len(),
                self.pixels@.len() == other.pixels@.len(),
                forall|a: int| 0 <= a < y ==> (#[trigger] self@[a]).len() == other@[a].len(),
                C::obeys_eq_spec() ==> forall|a: int, b: int| 0 <= a < y && 0 <= b < self@[a].len() ==> (#[trigger] self@[a][b]).eq_spec(&other@[a][b]),
            decreases self.pixels@.len() - y,
        {
            if self.pixels[y].len() != other.pixels[y].len() {
                assert(self@[y as int].len() != other@[y as int].len());
                return false;
            }
            let mut x: usize = 0;
            while x < self.pixels[y].len()
                invariant
                    y < self.pixels@.len(),
                    self.pixels@.len() == other.pixels@.len(),
                    x <= self.pixels@[y as int].len(),
                    self.pixels@[y as int].len() == other.pixels@[y as int].len(),
                    C::obeys_eq_spec() ==> forall|b: int| 0 <= b < x ==> (#[trigger] self@[y as int][b]).eq_spec(&other@[y as int][b]),
                decreases self.pixels@[y as int].len() - x,
            {
                if self.pixels[y][x] != other.pixels[y][x] {
                    assert(C::obeys_eq_spec() ==> !self@[y as int][x as int].eq_spec(&other@[y as int][x as int]));
                    return false;
                }
                x = x + 1;
            }
            y = y + 1;
        }
        true
    }
}

impl<C: PartialEq> PartialEqSpecImpl for Canvas<C> {
    open spec fn obeys_eq_spec() -> bool {
        C::obeys_eq_spec()
    }

    /// Canvases are equal if they have as many lines, line for line as many
    /// pixels, and pixel for pixel equal colors.
    open spec fn eq_spec(&self, other: &Canvas<C>) -> bool {
        &&& self@.len() == other@.len()
        &&& forall|y: int| 0 <= y < self@.len() ==> (#[trigger] self@[y]).len() == other@[y].len()
        &&& forall|x: int, y: int| 0 <= y < self@.len() && 0 <= x < self@[y].len() ==> (#[trigger] self@[y][x]).eq_spec(&other@[y][x])
    }
}

impl<C: PpmColor> Canvas<C> {
    /// The texts that the pixels write for themselves, in reading order.
    pub fn pixel_texts(&self) -> (cells: Vec<String>)
        ensures
            written(reading_order(self@, self@.len()), cells@),
    {
        proof {
            use_type_invariant(self);
        }
        let height = self.pixels.len();
        let mut cells: Vec<String> = Vec::new();
        let mut y: usize = 0;
        while y < height
            invariant
                y <= height,
                height == self.pixels@.len(),
                forall|a: int| 0 <= a < height ==> (#[trigger] self.pixels@[a]).len() == self.width,
                written(reading_order(self@, y as nat), cells@),
            decreases height - y,
        {
            let mut x: usize = 0;
            let ghost above = reading_order(self@, y as nat);
            while x < self.width
                invariant
                    x <= self.width,
                    y < height,
                    height == self.pixels@.len(),
                    self.pixels@[y as int].len() == self.width,
                    above == reading_order(self@, y as nat),
                    written(above + self@[y as int].take(x as int), cells@),
                decreases self.width - x,
            {
                let cell = self.pixels[y][x].to_ppm_color();
                cells.push(cell);
                proof {
                    assert(above + self@[y as int].take(x + 1) =~= (above + self@[y as int].take(x as int)).push(
                        self@[y as int][x as int],
                    ));
                }
                x = x + 1;
            }
            proof {
                assert(self@[y as int].take(self.width as int) =~= self@[y as int]);
            }
            y = y + 1;
        }
        cells
    }
}

impl<C: PpmColor> Ppm for Canvas<C> {
    /// Writes the canvas as a pixmap with the texts that the pixels write
    /// for themselves.
    fn to_ppm(&self) -> (s: String)
        ensures
            exists|cells: Seq<String>|
                written(reading_order(self@, self@.len()), cells) && s@ == pixmap(
                    self.width() as nat,
                    self.height() as nat,
                    #[trigger] texts(cells),
                ),
    {
        let cells = self.pixel_texts();
        layout(self.width, self.pixels.len(), &cells)
    }
}


} // verus!
