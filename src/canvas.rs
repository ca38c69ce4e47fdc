use vstd::prelude::*;

verus! {

/// Position of cell `(x, y)` in the row-major storage of a grid `width` cells wide.
pub open spec fn cell_index(width: int, x: int, y: int) -> int {
    y * width + x
}

/// The abstract state of a canvas: its dimensions and its cells in row-major order.
pub struct CanvasModel<T> {
    pub width: nat,
    pub height: nat,
    pub cells: Seq<T>,
}

impl<T> CanvasModel<T> {
    /// Both dimensions are positive and there is exactly one cell per coordinate.
    pub open spec fn wf(self) -> bool {
        &&& self.width > 0
        &&& self.height > 0
        &&& self.cells.len() == self.width * self.height
    }

    /// `(x, y)` names a cell of the grid.
    pub open spec fn in_bounds(self, x: int, y: int) -> bool {
        0 <= x < self.width && 0 <= y < self.height
    }

    /// The color stored at `(x, y)`.
    pub open spec fn pixel(self, x: int, y: int) -> T {
        self.cells[cell_index(self.width as int, x, y)]
    }

    /// A `width` by `height` grid whose every cell holds `fill`.
    pub open spec fn filled(width: nat, height: nat, fill: T) -> Self {
        CanvasModel { width, height, cells: Seq::new(width * height, |_i: int| fill) }
    }

    /// The same grid with cell `(x, y)` replaced by `color`.
    pub open spec fn write(self, x: int, y: int, color: T) -> Self {
        CanvasModel {
            width: self.width,
            height: self.height,
            cells: self.cells.update(cell_index(self.width as int, x, y), color),
        }
    }
}

/// Every in-bounds coordinate maps to a position inside the storage.
pub proof fn lemma_cell_index_bounds(width: int, height: int, x: int, y: int)
    requires
        0 <= x < width,
        0 <= y < height,
    ensures
        0 <= cell_index(width, x, y) < width * height,
{
    assert(0 <= y * width) by (nonlinear_arith)
        requires
            0 <= y,
            0 < width,
    ;
    assert(y * width + x < width * height) by (nonlinear_arith)
        requires
            0 <= x < width,
            0 <= y < height,
    ;
}

/// Distinct in-bounds coordinates map to distinct storage positions.
pub proof fn lemma_cell_index_injective(width: int, x1: int, y1: int, x2: int, y2: int)
    requires
        0 <= x1 < width,
        0 <= x2 < width,
        0 <= y1,
        0 <= y2,
        cell_index(width, x1, y1) == cell_index(width, x2, y2),
    ensures
        x1 == x2,
        y1 == y2,
{
    assert(y1 == y2) by (nonlinear_arith)
        requires
            0 <= x1 < width,
            0 <= x2 < width,
            y1 * width + x1 == y2 * width + x2,
    ;
}

/// A freshly filled grid is well formed and every pixel of it holds the fill color.
pub proof fn lemma_filled_is_uniform<T>(width: nat, height: nat, fill: T, x: int, y: int)
    requires
        width > 0,
        height > 0,
        0 <= x < width,
        0 <= y < height,
    ensures
        CanvasModel::filled(width, height, fill).wf(),
        CanvasModel::filled(width, height, fill).pixel(x, y) == fill,
{
    lemma_cell_index_bounds(width as int, height as int, x, y);
}

/// Reading back a pixel after a write yields the written color at the written
/// coordinate and the previous color everywhere else; the dimensions are kept.
pub proof fn lemma_read_after_write<T>(m: CanvasModel<T>, x: int, y: int, color: T, i: int, j: int)
    requires
        m.wf(),
        m.in_bounds(x, y),
        m.in_bounds(i, j),
    ensures
        m.write(x, y, color).wf(),
        m.write(x, y, color).width == m.width,
        m.write(x, y, color).height == m.height,
        m.write(x, y, color).pixel(i, j) == (if i == x && j == y {
            color
        } else {
            m.pixel(i, j)
        }),
{
    let w = m.width as int;
    lemma_cell_index_bounds(w, m.height as int, x, y);
    lemma_cell_index_bounds(w, m.height as int, i, j);
    if cell_index(w, x, y) == cell_index(w, i, j) {
        lemma_cell_index_injective(w, x, y, i, j);
    }
}

/// Of two writes to the same pixel only the second is observable.
pub proof fn lemma_last_write_wins<T>(m: CanvasModel<T>, x: int, y: int, first: T, second: T)
    requires
        m.wf(),
        m.in_bounds(x, y),
    ensures
        m.write(x, y, first).write(x, y, second) == m.write(x, y, second),
{
    lemma_cell_index_bounds(m.width as int, m.height as int, x, y);
    assert(m.write(x, y, first).write(x, y, second).cells =~= m.write(x, y, second).cells);
}

/// Writing the same color twice to a pixel leaves the same state as writing it once.
pub proof fn lemma_write_idempotent<T>(m: CanvasModel<T>, x: int, y: int, color: T)
    requires
        m.wf(),
        m.in_bounds(x, y),
    ensures
        m.write(x, y, color).write(x, y, color) == m.write(x, y, color),
{
    lemma_last_write_wins(m, x, y, color, color);
}

/// Why a canvas could not be created.
#[derive(Debug, Clone, Copy, PartialEq, Eq, Structural)]
pub enum CanvasError {
    /// The width or the height is zero.
    ZeroDimension,
}

/// A fixed-size grid of pixels stored row by row: the cell `(x, y)` lives at
/// position `y * width + x`.
pub struct Canvas<T> {
    width: usize,
    height: usize,
    pixels: Vec<T>,
}

impl<T> View for Canvas<T> {
    type V = CanvasModel<T>;

    closed spec fn view(&self) -> CanvasModel<T> {
        CanvasModel { width: self.width as nat, height: self.height as nat, cells: self.pixels@ }
    }
}

impl<T> Canvas<T> {
    #[verifier::type_invariant]
    spec fn inv(self) -> bool {
        &&& self@.wf()
        &&& self.width * self.height <= usize::MAX
    }
}

impl<T: Copy> Canvas<T> {
    /// A `width` by `height` canvas with every pixel set to `background`.
    /// A zero dimension is refused.
    pub fn new(width: usize, height: usize, background: T) -> (r: Result<Self, CanvasError>)
        requires
            width * height <= usize::MAX,
        ensures
            width == 0 || height == 0 <==> r is Err,
            r is Err ==> r->Err_0 == CanvasError::ZeroDimension,
            r is Ok ==> r->Ok_0@ == CanvasModel::filled(width as nat, height as nat, background),
            r is Ok ==> r->Ok_0@.wf(),
    {
        if width == 0 || height == 0 {
            return Err(CanvasError::ZeroDimension);
        }
        let len: usize = width * height;
        let mut pixels: Vec<T> = Vec::with_capacity(len);
        let mut i: usize = 0;
        while i < len
            invariant
                i <= len,
                pixels@.len() == i,
                forall|k: int| 0 <= k < i ==> pixels@[k] == background,
            decreases len - i,
        {
            pixels.push(background);
            i = i + 1;
        }
        let ghost filled = CanvasModel::filled(width as nat, height as nat, background);
        assert(pixels@ =~= filled.cells);
        Ok(Canvas { width, height, pixels })
    }

    /// Number of columns.
    pub fn width(&self) -> (r: usize)
        ensures
            r == self@.width,
            self@.wf(),
    {
        proof {
            use_type_invariant(self);
        }
        self.width
    }

    /// Number of rows.
    pub fn height(&self) -> (r: usize)
        ensures
            r == self@.height,
            self@.wf(),
    {
        proof {
            use_type_invariant(self);
        }
        self.height
    }

    /// Position of pixel `(x, y)` in the row-major storage.
    pub fn get_pixel_index(&self, x: usize, y: usize) -> (r: usize)
        requires
            self@.in_bounds(x as int, y as int),
        ensures
            r == cell_index(self@.width as int, x as int, y as int),
            r < self@.cells.len(),
    {
        proof {
            use_type_invariant(self);
            lemma_cell_index_bounds(self.width as int, self.height as int, x as int, y as int);
        }
        y * self.width + x
    }

    /// The color at `(x, y)`.
    pub fn pixel_at(&self, x: usize, y: usize) -> (r: &T)
        requires
            self@.in_bounds(x as int, y as int),
        ensures
            *r == self@.pixel(x as int, y as int),
            self@.wf(),
    {
        proof {
            use_type_invariant(self);
        }
        let index: usize = self.get_pixel_index(x, y);
        &self.pixels[index]
    }

    /// Overwrite the pixel at `(x, y)` with `color`; every other pixel is kept.
    pub fn write_color(&mut self, x: usize, y: usize, color: T)
        requires
            old(self)@.in_bounds(x as int, y as int),
        ensures
            final(self)@ == old(self)@.write(x as int, y as int, color),
            final(self)@.wf(),
    {
        proof {
            use_type_invariant(&*self);
        }
        let index: usize = self.get_pixel_index(x, y);
        self.pixels[index] = color;
    }
}

} // verus!
