//! The frame of characters and depths, and the filling of triangles into it.
use vstd::prelude::*;
use crate::bounds::{boxed, span, ScreenPoint};
use crate::geometry::{Mesh, Triangle};
use crate::pixel::{Cell, Sample, Shading};
use crate::ramp::{glyph_of, glyph_tone, ramp_glyph, tone_of, Tone, BLANK};
use crate::scalar::{Scalar, INFINITY_BITS};

verus! {

/// A name for a pixel, by which the statements about all pixels are found.
spec fn pixel(x: int, y: int) -> bool {
    true
}

proof fn lemma_index(x: int, y: int, width: int, height: int)
    requires
        0 <= x < width,
        0 <= y < height,
    ensures
        0 <= y * width <= y * width + x < width * height,
{
    assert(y * width + x < width * height) by (nonlinear_arith)
        requires
            0 <= x < width,
            0 <= y < height,
    ;
    assert(0 <= y * width) by (nonlinear_arith)
        requires
            0 <= y,
            0 <= width,
    ;
}

proof fn lemma_index_distinct(x1: int, y1: int, x2: int, y2: int, width: int)
    requires
        0 <= x1 < width,
        0 <= x2 < width,
        x1 != x2 || y1 != y2,
    ensures
        y1 * width + x1 != y2 * width + x2,
{
    if y1 < y2 {
        assert(y1 * width + x1 < y2 * width + x2) by (nonlinear_arith)
            requires
                y1 + 1 <= y2,
                0 <= x1 < width,
                0 <= x2,
        ;
    } else if y2 < y1 {
        assert(y2 * width + x2 < y1 * width + x1) by (nonlinear_arith)
            requires
                y2 + 1 <= y1,
                0 <= x2 < width,
                0 <= x1,
        ;
    }
}

/// A frame of characters with the depth at which each was drawn.
pub struct AsciiRenderer {
    width: usize,
    height: usize,
    depth_buffer: Vec<Scalar>,
    char_buffer: Vec<char>,
}

impl AsciiRenderer {
    /// Both buffers hold one entry for each pixel. Every frame that
    /// [`AsciiRenderer::new`] makes is so, and every method keeps it so.
    pub closed spec fn well_formed(&self) -> bool {
        &&& self.depth_buffer@.len() == self.width * self.height
        &&& self.char_buffer@.len() == self.width * self.height
    }

    /// The number of pixels in a row.
    pub closed spec fn columns(&self) -> nat {
        self.width as nat
    }

    /// The number of rows.
    pub closed spec fn lines(&self) -> nat {
        self.height as nat
    }

    /// The depths, row after row from the top.
    pub closed spec fn depths(&self) -> Seq<Scalar> {
        self.depth_buffer@
    }

    /// The glyphs, row after row from the top.
    pub closed spec fn glyphs(&self) -> Seq<char> {
        self.char_buffer@
    }

    /// The pixel in column `x` of row `y`.
    pub open spec fn cell(&self, x: int, y: int) -> Cell {
        Cell {
            depth: self.depths()[y * self.columns() + x],
            glyph: self.glyphs()[y * self.columns() + x],
        }
    }

    /// Nothing covers any pixel.
    pub open spec fn cleared(&self) -> bool {
        &&& self.depths() == Seq::new(self.columns() * self.lines(), |i: int| Scalar::infinity())
        &&& self.glyphs() == Seq::new(self.columns() * self.lines(), |i: int| ' ')
    }

    /// The two frames are of one size.
    pub open spec fn sized_as(&self, other: &AsciiRenderer) -> bool {
        self.columns() == other.columns() && self.lines() == other.lines()
    }

    /// A cleared frame of `width` by `height` pixels.
    pub fn new(width: usize, height: usize) -> (r: AsciiRenderer)
        requires
            width * height <= usize::MAX,
        ensures
            r.well_formed(),
            r.columns() == width,
            r.lines() == height,
            r.cleared(),
    {
        let size: usize = width * height;
        let mut depth_buffer: Vec<Scalar> = Vec::with_capacity(size);
        let mut char_buffer: Vec<char> = Vec::with_capacity(size);
        let mut i: usize = 0;
        while i < size
            invariant
                i <= size,
                depth_buffer@ =~= Seq::new(i as nat, |k: int| Scalar::infinity()),
                char_buffer@ =~= Seq::new(i as nat, |k: int| ' '),
            decreases size - i,
        {
            depth_buffer.push(Scalar { bits: INFINITY_BITS });
            char_buffer.push(BLANK);
            i += 1;
        }
        AsciiRenderer { width, height, depth_buffer, char_buffer }
    }

    pub fn width(&self) -> (r: usize)
        ensures
            r == self.columns(),
    {
        self.width
    }

    pub fn height(&self) -> (r: usize)
        ensures
            r == self.lines(),
    {
        self.height
    }

    /// Empties every pixel: blank, at infinite depth.
    pub fn clear(&mut self)
        requires
            old(self).well_formed(),
        ensures
            final(self).well_formed(),
            final(self).sized_as(old(self)),
            final(self).cleared(),
    {
        let size: usize = self.depth_buffer.len();
        let mut i: usize = 0;
        while i < size
            invariant
                i <= size,
                self.width == old(self).width,
                self.height == old(self).height,
                size == self.width * self.height,
                self.depth_buffer@.len() == size,
                self.char_buffer@.len() == size,
                forall|k: int| 0 <= k < i ==> self.depth_buffer@[k] == Scalar::infinity(),
                forall|k: int| 0 <= k < i ==> self.char_buffer@[k] == ' ',
            decreases size - i,
        {
            self.depth_buffer.set(i, Scalar { bits: INFINITY_BITS });
            self.char_buffer.set(i, BLANK);
            i += 1;
        }
        assert(self.depth_buffer@ =~= Seq::new(
            self.columns() * self.lines(),
            |i: int| Scalar::infinity(),
        ));
        assert(self.char_buffer@ =~= Seq::new(self.columns() * self.lines(), |i: int| ' '));
    }

    /// The glyph in column `x` of row `y`.
    pub fn glyph_at(&self, x: usize, y: usize) -> (r: char)
        requires
            self.well_formed(),
            x < self.columns(),
            y < self.lines(),
        ensures
            r == self.cell(x as int, y as int).glyph,
    {
        let size: usize = self.char_buffer.len();
        proof {
            lemma_index(x as int, y as int, self.width as int, self.height as int);
        }
        self.char_buffer[y * self.width + x]
    }

    /// The depth of what was drawn in column `x` of row `y`.
    pub fn depth_at(&self, x: usize, y: usize) -> (r: Scalar)
        requires
            self.well_formed(),
            x < self.columns(),
            y < self.lines(),
        ensures
            r == self.cell(x as int, y as int).depth,
    {
        let size: usize = self.depth_buffer.len();
        proof {
            lemma_index(x as int, y as int, self.width as int, self.height as int);
        }
        self.depth_buffer[y * self.width + x]
    }

    /// The glyphs of row `y`, from the left.
    pub fn row(&self, y: usize) -> (r: Vec<char>)
        requires
            self.well_formed(),
            y < self.lines(),
        ensures
            r@.len() == self.columns(),
            forall|x: int| 0 <= x < self.columns() ==> r@[x] == self.cell(x, y as int).glyph,
    {
        let mut r: Vec<char> = Vec::with_capacity(self.width);
        let mut x: usize = 0;
        while x < self.width
            invariant
                self.well_formed(),
                y < self.height,
                x <= self.width,
                r@.len() == x,
                forall|k: int| 0 <= k < x ==> r@[k] == self.cell(k, y as int).glyph,
            decreases self.width - x,
        {
            r.push(self.glyph_at(x, y));
            x += 1;
        }
        r
    }

    /// The frame as a display shows it: the rows from the top, each from the
    /// left, every glyph with its tone.
    pub fn draw(&self) -> (r: Vec<Vec<(char, Tone)>>)
        requires
            self.well_formed(),
        ensures
            r@.len() == self.lines(),
            forall|y: int| 0 <= y < self.lines() ==> (#[trigger] r@[y])@.len() == self.columns(),
            forall|x: int, y: int|
                0 <= x < self.columns() && 0 <= y < self.lines() ==> (#[trigger] r@[y]@[x]) == (
                    self.cell(x, y).glyph,
                    tone_of(self.cell(x, y).glyph),
                ),
    {
        let mut r: Vec<Vec<(char, Tone)>> = Vec::with_capacity(self.height);
        let mut y: usize = 0;
        while y < self.height
            invariant
                self.well_formed(),
                y <= self.height,
                r@.len() == y,
                forall|k: int| 0 <= k < y ==> (#[trigger] r@[k])@.len() == self.columns(),
                forall|x: int, k: int|
                    0 <= x < self.columns() && 0 <= k < y ==> (#[trigger] r@[k]@[x]) == (
                        self.cell(x, k).glyph,
                        tone_of(self.cell(x, k).glyph),
                    ),
            decreases self.height - y,
        {
            let mut line: Vec<(char, Tone)> = Vec::with_capacity(self.width);
            let mut x: usize = 0;
            while x < self.width
                invariant
                    self.well_formed(),
                    y < self.height,
                    x <= self.width,
                    line@.len() == x,
                    forall|k: int|
                        0 <= k < x ==> (#[trigger] line@[k]) == (
                            self.cell(k, y as int).glyph,
                            tone_of(self.cell(k, y as int).glyph),
                        ),
                decreases self.width - x,
            {
                let glyph = self.glyph_at(x, y);
                line.push((glyph, glyph_tone(glyph)));
                x += 1;
            }
            r.push(line);
            y += 1;
        }
        r
    }

    /// Every pixel but `(x, y)` is in `self` what it is in `other`.
    pub open spec fn same_but_at(&self, other: &AsciiRenderer, x: int, y: int) -> bool {
        forall|cx: int, cy: int|
            0 <= cx < self.columns() && 0 <= cy < self.lines() && (cx != x || cy != y)
                ==> #[trigger] self.cell(cx, cy) == other.cell(cx, cy)
    }

    /// Draws `glyph` at depth `depth` onto pixel `(x, y)`, and tells whether
    /// the pixel took it: it does where `depth` is strictly less than the
    /// depth it holds.
    pub fn plot(&mut self, x: usize, y: usize, depth: Scalar, glyph: char) -> (taken: bool)
        requires
            old(self).well_formed(),
            x < old(self).columns(),
            y < old(self).lines(),
        ensures
            final(self).well_formed(),
            final(self).sized_as(old(self)),
            taken == depth.below(old(self).cell(x as int, y as int).depth),
            final(self).cell(x as int, y as int) == old(self).cell(x as int, y as int).under(
                depth,
                glyph,
            ),
            final(self).same_but_at(old(self), x as int, y as int),
    {
        let size: usize = self.depth_buffer.len();
        proof {
            lemma_index(x as int, y as int, self.width as int, self.height as int);
        }
        let index: usize = y * self.width + x;
        let taken = depth.lt(self.depth_buffer[index]);
        if taken {
            self.depth_buffer.set(index, depth);
            self.char_buffer.set(index, glyph);
        }
        assert forall|cx: int, cy: int|
            0 <= cx < self.columns() && 0 <= cy < self.lines() && (cx != x || cy != y)
                implies #[trigger] self.cell(cx, cy) == old(self).cell(cx, cy) by {
            lemma_index(cx, cy, self.width as int, self.height as int);
            lemma_index_distinct(cx, cy, x as int, y as int, self.width as int);
        }
        taken
    }

    /// Draws a sample of a triangle of glyph `glyph` onto pixel `(x, y)`:
    /// nothing where the sample does not cover the pixel.
    pub fn shade(&mut self, x: usize, y: usize, sample: Sample, glyph: char)
        requires
            old(self).well_formed(),
            x < old(self).columns(),
            y < old(self).lines(),
        ensures
            final(self).well_formed(),
            final(self).sized_as(old(self)),
            final(self).cell(x as int, y as int) == old(self).cell(x as int, y as int).shaded(
                sample,
                glyph,
            ),
            final(self).same_but_at(old(self), x as int, y as int),
    {
        if sample.is_covering() {
            self.plot(x, y, sample.depth, glyph);
        }
    }

    /// Pixel `(x, y)` is in `self` what a sample that `sampler` may give for
    /// it, of the triangle with these corners, makes of the pixel in `before`.
    pub open spec fn sampled<F: Fn([ScreenPoint; 3], usize, usize) -> Sample>(
        &self,
        before: &AsciiRenderer,
        corners: [ScreenPoint; 3],
        glyph: char,
        sampler: F,
        x: int,
        y: int,
    ) -> bool {
        exists|sample: Sample|
            call_ensures(sampler, (corners, x as usize, y as usize), sample) && self.cell(x, y)
                == before.cell(x, y).shaded(sample, glyph)
    }

    /// `self` is `before` with a triangle filled in: the frame is of the
    /// same size, every pixel of the bounding box of `corners` was sampled
    /// once and shaded, and every other pixel is untouched.
    pub open spec fn filled<F: Fn([ScreenPoint; 3], usize, usize) -> Sample>(
        &self,
        before: &AsciiRenderer,
        corners: [ScreenPoint; 3],
        glyph: char,
        sampler: F,
    ) -> bool {
        &&& self.sized_as(before)
        &&& forall|x: int, y: int|
            0 <= x < self.columns() && 0 <= y < self.lines() ==> if #[trigger] boxed(
                corners,
                self.columns(),
                self.lines(),
                x,
                y,
            ) {
                self.sampled(before, corners, glyph, sampler, x, y)
            } else {
                self.cell(x, y) == before.cell(x, y)
            }
    }

    /// The state of a fill that goes through the columns from `left` to
    /// `right` of the rows from `top` on and has come to pixel `(x, y)`: the
    /// pixels that it has passed are sampled and shaded, all others are as
    /// they were.
    spec fn filled_up_to<F: Fn([ScreenPoint; 3], usize, usize) -> Sample>(
        &self,
        before: &AsciiRenderer,
        corners: [ScreenPoint; 3],
        glyph: char,
        sampler: F,
        left: int,
        right: int,
        top: int,
        x: int,
        y: int,
    ) -> bool {
        forall|cx: int, cy: int|
            #![trigger pixel(cx, cy)]
            0 <= cx < self.columns() && 0 <= cy < self.lines() && pixel(cx, cy) ==> if left <= cx
                < right && (top <= cy < y || (cy == y && cx < x)) {
                self.sampled(before, corners, glyph, sampler, cx, cy)
            } else {
                self.cell(cx, cy) == before.cell(cx, cy)
            }
    }

    /// Fills a triangle, given by its corners on the screen, into the frame.
    ///
    /// For each pixel of the bounding box of the corners, row by row,
    /// `sampler` is asked once for the sample at the centre of the pixel, and
    /// the pixel takes `glyph` where the sample covers it and is nearer than
    /// what the pixel holds. The frame has no say in what the samples are:
    /// the contract holds of whatever `sampler` returns.
    pub fn rasterize_triangle<F: Fn([ScreenPoint; 3], usize, usize) -> Sample>(
        &mut self,
        corners: &[ScreenPoint; 3],
        glyph: char,
        sampler: &F,
    )
        requires
            old(self).well_formed(),
            forall|x: usize, y: usize|
                x < old(self).columns() && y < old(self).lines() ==> call_requires(
                    *sampler,
                    (*corners, x, y),
                ),
        ensures
            final(self).well_formed(),
            final(self).filled(old(self), *corners, glyph, *sampler),
    {
        let (left, right) = span(corners[0].x, corners[1].x, corners[2].x, self.width);
        let (top, bottom) = span(corners[0].y, corners[1].y, corners[2].y, self.height);
        let ghost before = *self;
        let mut y: usize = top;
        while y < bottom
            invariant
                top <= y <= bottom <= self.height,
                left <= right <= self.width,
                self.well_formed(),
                self.sized_as(&before),
                before.columns() == self.width,
                before.lines() == self.height,
                forall|x: usize, y: usize|
                    x < before.columns() && y < before.lines() ==> call_requires(
                        *sampler,
                        (*corners, x, y),
                    ),
                self.filled_up_to(
                    &before,
                    *corners,
                    glyph,
                    *sampler,
                    left as int,
                    right as int,
                    top as int,
                    left as int,
                    y as int,
                ),
            decreases bottom - y,
        {
            let mut x: usize = left;
            while x < right
                invariant
                    top <= y < bottom <= self.height,
                    left <= x <= right <= self.width,
                    self.well_formed(),
                    self.sized_as(&before),
                    before.columns() == self.width,
                    before.lines() == self.height,
                    forall|x: usize, y: usize|
                        x < before.columns() && y < before.lines() ==> call_requires(
                            *sampler,
                            (*corners, x, y),
                        ),
                    self.filled_up_to(
                        &before,
                        *corners,
                        glyph,
                        *sampler,
                        left as int,
                        right as int,
                        top as int,
                        x as int,
                        y as int,
                    ),
                decreases right - x,
            {
                let ghost earlier = *self;
                let sample = sampler(*corners, x, y);
                self.shade(x, y, sample, glyph);
                proof {
                    assert(pixel(x as int, y as int));
                    assert(self.sampled(&before, *corners, glyph, *sampler, x as int, y as int));
                    assert forall|cx: int, cy: int|
                        #![trigger pixel(cx, cy)]
                        0 <= cx < self.columns() && 0 <= cy < self.lines() && pixel(
                            cx,
                            cy,
                        ) implies if left <= cx < right && (top <= cy < y || (cy == y && cx < x
                            + 1)) {
                        self.sampled(&before, *corners, glyph, *sampler, cx, cy)
                    } else {
                        self.cell(cx, cy) == before.cell(cx, cy)
                    } by {
                        if cx != x || cy != y {
                            assert(self.cell(cx, cy) == earlier.cell(cx, cy));
                            if left <= cx < right && (top <= cy < y || (cy == y && cx < x)) {
                                assert(earlier.sampled(&before, *corners, glyph, *sampler, cx, cy));
                            }
                        }
                    }
                }
                x += 1;
            }
            y += 1;
        }
        proof {
            assert forall|x: int, y: int|
                0 <= x < self.columns() && 0 <= y < self.lines() implies if #[trigger] boxed(
                *corners,
                self.columns(),
                self.lines(),
                x,
                y,
            ) {
                self.sampled(&before, *corners, glyph, *sampler, x, y)
            } else {
                self.cell(x, y) == before.cell(x, y)
            } by {
                assert(pixel(x, y));
            }
        }
    }

    /// The two frames are of one size and hold the same pixels.
    pub open spec fn same_as(&self, before: &AsciiRenderer) -> bool {
        &&& self.sized_as(before)
        &&& self.depths() == before.depths()
        &&& self.glyphs() == before.glyphs()
    }

    /// `self` is `before` with one triangle of a mesh drawn: nothing unless
    /// all three corners reached the screen, and else the triangle filled in
    /// with the glyph of its brightness level.
    pub open spec fn triangle_drawn<F: Fn([ScreenPoint; 3], usize, usize) -> Sample>(
        &self,
        before: &AsciiRenderer,
        shading: Shading,
        sampler: F,
    ) -> bool {
        match (shading.corners[0], shading.corners[1], shading.corners[2]) {
            (Some(a), Some(b), Some(c)) => self.filled(
                before,
                [a, b, c],
                glyph_of(shading.level as int),
                sampler,
            ),
            _ => self.same_as(before),
        }
    }

    /// `self` is `before` with these triangles drawn, one after the other,
    /// each as `shader` may shade it.
    pub open spec fn mesh_drawn<
        P: Fn(Triangle) -> Shading,
        F: Fn([ScreenPoint; 3], usize, usize) -> Sample,
    >(&self, before: &AsciiRenderer, triangles: Seq<Triangle>, shader: P, sampler: F) -> bool
        decreases triangles.len(),
    {
        if triangles.len() == 0 {
            self.same_as(before)
        } else {
            exists|middle: AsciiRenderer, shading: Shading|
                {
                    &&& middle.well_formed()
                    &&& middle.mesh_drawn(
                        before,
                        triangles.drop_last(),
                        shader,
                        sampler,
                    )
                    &&& call_ensures(shader, (triangles.last(),), shading)
                    &&& #[trigger] self.triangle_drawn(&middle, shading, sampler)
                }
        }
    }

    /// Draws one triangle of a mesh, given what the projection made of its
    /// three corners and the level of its brightness.
    pub fn render_triangle<F: Fn([ScreenPoint; 3], usize, usize) -> Sample>(
        &mut self,
        shading: &Shading,
        sampler: &F,
    )
        requires
            old(self).well_formed(),
            forall|corners: [ScreenPoint; 3], x: usize, y: usize|
                x < old(self).columns() && y < old(self).lines() ==> call_requires(
                    *sampler,
                    (corners, x, y),
                ),
        ensures
            final(self).well_formed(),
            final(self).sized_as(old(self)),
            final(self).triangle_drawn(old(self), *shading, *sampler),
    {
        match (shading.corners[0], shading.corners[1], shading.corners[2]) {
            (Some(a), Some(b), Some(c)) => {
                let corners = [a, b, c];
                self.rasterize_triangle(&corners, ramp_glyph(shading.level), sampler);
            },
            _ => {},
        }
    }

    /// Draws a mesh, triangle after triangle in the order of the mesh.
    ///
    /// `shader` is asked once for each triangle what the projection makes of
    /// its corners and how bright it is; `sampler` is asked for each pixel
    /// that a triangle may cover. The contract holds of whatever they return.
    pub fn render_mesh<P: Fn(Triangle) -> Shading, F: Fn([ScreenPoint; 3], usize, usize) -> Sample>(
        &mut self,
        mesh: &Mesh,
        shader: P,
        sampler: F,
    )
        requires
            old(self).well_formed(),
            forall|triangle: Triangle| call_requires(shader, (triangle,)),
            forall|corners: [ScreenPoint; 3], x: usize, y: usize|
                x < old(self).columns() && y < old(self).lines() ==> call_requires(
                    sampler,
                    (corners, x, y),
                ),
        ensures
            final(self).well_formed(),
            final(self).sized_as(old(self)),
            final(self).mesh_drawn(old(self), mesh@, shader, sampler),
    {
        let ghost before = *self;
        let mut i: usize = 0;
        while i < mesh.triangles.len()
            invariant
                i <= mesh@.len(),
                self.well_formed(),
                self.sized_as(&before),
                forall|triangle: Triangle| call_requires(shader, (triangle,)),
                forall|corners: [ScreenPoint; 3], x: usize, y: usize|
                    x < before.columns() && y < before.lines() ==> call_requires(
                        sampler,
                        (corners, x, y),
                    ),
                self.mesh_drawn(&before, mesh@.take(i as int), shader, sampler),
            decreases mesh@.len() - i,
        {
            let ghost middle = *self;
            let triangle = mesh.triangles[i];
            let shading = shader(triangle);
            self.render_triangle(&shading, &sampler);
            proof {
                let done = mesh@.take(i + 1);
                assert(done.drop_last() =~= mesh@.take(i as int));
                assert(done.last() == triangle);
                assert(self.triangle_drawn(&middle, shading, sampler));
            }
            i += 1;
        }
        assert(mesh@.take(i as int) =~= mesh@);
    }
}

/// In a cleared frame every pixel is empty.
pub proof fn lemma_cleared_pixels(frame: AsciiRenderer, x: int, y: int)
    requires
        frame.well_formed(),
        frame.cleared(),
        0 <= x < frame.columns(),
        0 <= y < frame.lines(),
    ensures
        frame.cell(x, y) == Cell::empty(),
{
    lemma_index(x, y, frame.columns() as int, frame.lines() as int);
}

/// Where two triangles cover one pixel, the nearer one shows, whichever of
/// the two is filled in first.
///
/// `first` and `second` are the triangles in the order in which they are
/// filled into `start`, which gives `middle` and then `end`. At pixel
/// `(x, y)`, which lies in the bounding box of both, `sampler` gives
/// `first_sample` for the one and `second_sample` for the other, and both
/// cover the pixel. Then the pixel holds the glyph and the depth of the
/// sample that is strictly nearer than the other one and than what the pixel
/// held at the start.
pub proof fn lemma_nearer_triangle_shows<F: Fn([ScreenPoint; 3], usize, usize) -> Sample>(
    start: AsciiRenderer,
    middle: AsciiRenderer,
    end: AsciiRenderer,
    first: [ScreenPoint; 3],
    first_glyph: char,
    second: [ScreenPoint; 3],
    second_glyph: char,
    sampler: F,
    x: int,
    y: int,
    first_sample: Sample,
    second_sample: Sample,
)
    requires
        middle.filled(&start, first, first_glyph, sampler),
        end.filled(&middle, second, second_glyph, sampler),
        0 <= x < start.columns(),
        0 <= y < start.lines(),
        boxed(first, start.columns(), start.lines(), x, y),
        boxed(second, start.columns(), start.lines(), x, y),
        forall|s: Sample| #[trigger]
            call_ensures(sampler, (first, x as usize, y as usize), s) ==> s == first_sample,
        forall|s: Sample| #[trigger]
            call_ensures(sampler, (second, x as usize, y as usize), s) ==> s == second_sample,
        first_sample.covers(),
        second_sample.covers(),
    ensures
        first_sample.depth.below(second_sample.depth) && first_sample.depth.below(
            start.cell(x, y).depth,
        ) ==> end.cell(x, y) == (Cell { depth: first_sample.depth, glyph: first_glyph }),
        second_sample.depth.below(first_sample.depth) && second_sample.depth.below(
            start.cell(x, y).depth,
        ) ==> end.cell(x, y) == (Cell { depth: second_sample.depth, glyph: second_glyph }),
{
    assert(middle.sampled(&start, first, first_glyph, sampler, x, y));
    assert(end.sampled(&middle, second, second_glyph, sampler, x, y));
    assert(middle.cell(x, y) == start.cell(x, y).shaded(first_sample, first_glyph));
    assert(end.cell(x, y) == middle.cell(x, y).shaded(second_sample, second_glyph));
}

} // verus!
