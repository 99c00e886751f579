use vstd::prelude::*;

verus! {

/// A `width` × `height` array of per-pixel counts, stored row-major.
#[derive(Clone, Debug)]
pub struct Grid {
    boxes: Vec<u64>,
    width: usize,
    height: usize,
}

/// The grid that a sampler fills: one count per pixel.
pub type CountGrid = Grid;

impl Grid {
    pub closed spec fn spec_width(&self) -> nat {
        self.width as nat
    }

    pub closed spec fn spec_height(&self) -> nat {
        self.height as nat
    }

    /// The cells, row after row.
    pub closed spec fn cells(&self) -> Seq<u64> {
        self.boxes@
    }

    /// The grid holds exactly one cell per pixel.
    pub open spec fn wf(&self) -> bool {
        &&& self.cells().len() == self.spec_width() * self.spec_height()
        &&& self.cells().len() <= usize::MAX
    }

    /// Row-major position of pixel `(x, y)`.
    pub open spec fn offset(&self, x: int, y: int) -> int {
        y * self.spec_width() + x
    }

    pub open spec fn in_bounds(&self, x: int, y: int) -> bool {
        0 <= x < self.spec_width() && 0 <= y < self.spec_height()
    }

    /// The count at pixel `(x, y)`.
    pub open spec fn at(&self, x: int, y: int) -> u64 {
        self.cells()[self.offset(x, y)]
    }

    /// A grid of the given size with every count zero.
    pub fn zero(width: usize, height: usize) -> (r: Grid)
        requires
            width * height <= usize::MAX,
        ensures
            r.wf(),
            r.spec_width() == width,
            r.spec_height() == height,
            forall|i: int| 0 <= i < r.cells().len() ==> r.cells()[i] == 0,
    {
        let n: usize = width * height;
        let mut boxes: Vec<u64> = Vec::with_capacity(n);
        let mut i: usize = 0;
        while i < n
            invariant
                i <= n,
                boxes@.len() == i,
                forall|j: int| 0 <= j < i ==> boxes@[j] == 0,
            decreases n - i,
        {
            boxes.push(0);
            i = i + 1;
        }
        Grid { boxes, width, height }
    }

    /// A grid made of the given row-major cells, or `None` when their number
    /// is not `width * height`.
    pub fn from_cells(width: usize, height: usize, cells: Vec<u64>) -> (r: Option<Grid>)
        ensures
            r is Some <==> cells@.len() == width * height,
            r matches Some(g) ==> g.wf() && g.spec_width() == width && g.spec_height() == height
                && g.cells() == cells@,
    {
        let len = cells.len();
        match width.checked_mul(height) {
            Some(n) => {
                if len == n {
                    Some(Grid { boxes: cells, width, height })
                } else {
                    None
                }
            },
            None => {
                assert(len < width * height);
                None
            },
        }
    }

    pub fn width(&self) -> (r: usize)
        ensures
            r == self.spec_width(),
    {
        self.width
    }

    pub fn height(&self) -> (r: usize)
        ensures
            r == self.spec_height(),
    {
        self.height
    }

    /// Adds one to the count at `(x, y)`.
    pub fn increment(&mut self, x: usize, y: usize)
        requires
            old(self).wf(),
            old(self).in_bounds(x as int, y as int),
            old(self).at(x as int, y as int) < u64::MAX,
        ensures
            final(self).wf(),
            final(self).spec_width() == old(self).spec_width(),
            final(self).spec_height() == old(self).spec_height(),
            final(self).cells() == old(self).cells().update(
                old(self).offset(x as int, y as int),
                (old(self).at(x as int, y as int) + 1) as u64,
            ),
    {
        proof {
            self.lemma_offset_in_range(x as int, y as int);
        }
        let i = y * self.width + x;
        let temp = self.boxes[i] + 1;
        self.boxes.set(i, temp);
    }

    /// Replaces the count at `(x, y)`.
    pub fn set_value(&mut self, value: u64, x: usize, y: usize)
        requires
            old(self).wf(),
            old(self).in_bounds(x as int, y as int),
        ensures
            final(self).wf(),
            final(self).spec_width() == old(self).spec_width(),
            final(self).spec_height() == old(self).spec_height(),
            final(self).cells() == old(self).cells().update(
                old(self).offset(x as int, y as int),
                value,
            ),
    {
        proof {
            self.lemma_offset_in_range(x as int, y as int);
        }
        let i = y * self.width + x;
        self.boxes.set(i, value);
    }

    /// The count at `(x, y)`.
    pub fn value(&self, x: usize, y: usize) -> (r: u64)
        requires
            self.wf(),
            self.in_bounds(x as int, y as int),
        ensures
            r == self.at(x as int, y as int),
    {
        proof {
            self.lemma_offset_in_range(x as int, y as int);
        }
        self.boxes[y * self.width + x]
    }

    /// All cells, row after row.
    pub fn data(&self) -> (r: &[u64])
        ensures
            r@ == self.cells(),
    {
        self.boxes.as_slice()
    }

    /// A pixel inside the grid has a row-major position inside the cells.
    pub proof fn lemma_offset_in_range(&self, x: int, y: int)
        requires
            self.wf(),
            self.in_bounds(x, y),
        ensures
            0 <= y * self.spec_width() <= self.offset(x, y) < self.cells().len(),
    {
        let w = self.spec_width() as int;
        let h = self.spec_height() as int;
        assert(0 <= y * w <= y * w + x < w * h) by (nonlinear_arith)
            requires
                0 <= x < w,
                0 <= y < h,
        ;
    }

    /// Adds one to the count at every pixel of `pixels` that lies inside the
    /// grid, and returns how many did. A count that has reached `u64::MAX`
    /// stays there.
    pub fn record_pixels(&mut self, pixels: &Vec<(usize, usize)>) -> (r: usize)
        requires
            old(self).wf(),
        ensures
            final(self).wf(),
            final(self).spec_width() == old(self).spec_width(),
            final(self).spec_height() == old(self).spec_height(),
            final(self).cells() == with_pixels(
                old(self).cells(),
                old(self).spec_width(),
                old(self).spec_height(),
                pixels@,
            ),
            r == in_view_count(pixels@, old(self).spec_width(), old(self).spec_height()),
    {
        let ghost start = self.cells();
        let n = pixels.len();
        let mut count: usize = 0;
        let mut k: usize = 0;
        while k < n
            invariant
                k <= n,
                n == pixels@.len(),
                self.wf(),
                self.spec_width() == old(self).spec_width(),
                self.spec_height() == old(self).spec_height(),
                start == old(self).cells(),
                self.cells() == with_pixels(
                    start,
                    self.spec_width(),
                    self.spec_height(),
                    pixels@.subrange(0, k as int),
                ),
                count == in_view_count(
                    pixels@.subrange(0, k as int),
                    self.spec_width(),
                    self.spec_height(),
                ),
                count <= k,
            decreases n - k,
        {
            assert(pixels@.subrange(0, k + 1).drop_last() =~= pixels@.subrange(0, k as int));
            let (x, y) = pixels[k];
            if x < self.width && y < self.height {
                proof {
                    self.lemma_offset_in_range(x as int, y as int);
                }
                let i = y * self.width + x;
                let v = self.boxes[i].saturating_add(1);
                self.boxes.set(i, v);
                count = count + 1;
            }
            k = k + 1;
        }
        assert(pixels@.subrange(0, n as int) =~= pixels@);
        count
    }

    /// Whether the grid is well formed and `width` × `height`.
    pub fn is_shaped(&self, width: usize, height: usize) -> (r: bool)
        ensures
            r == (self.wf() && self.spec_width() == width && self.spec_height() == height),
    {
        if self.width != width || self.height != height {
            return false;
        }
        match width.checked_mul(height) {
            Some(n) => self.boxes.len() == n,
            None => false,
        }
    }

    /// A grid with the same size and cells.
    pub fn copied(&self) -> (r: Grid)
        requires
            self.wf(),
        ensures
            r.wf(),
            r.spec_width() == self.spec_width(),
            r.spec_height() == self.spec_height(),
            r.cells() == self.cells(),
    {
        let n = self.boxes.len();
        let mut boxes: Vec<u64> = Vec::with_capacity(n);
        let mut i: usize = 0;
        while i < n
            invariant
                i <= n,
                n == self.boxes@.len(),
                boxes@ == self.boxes@.subrange(0, i as int),
            decreases n - i,
        {
            boxes.push(self.boxes[i]);
            i = i + 1;
        }
        assert(boxes@ =~= self.boxes@);
        Grid { boxes, width: self.width, height: self.height }
    }

    /// The largest count, or 0 for a grid without cells.
    pub fn max_value(&self) -> (r: u64)
        ensures
            r == max_count(self.cells()),
    {
        let n = self.boxes.len();
        let mut m: u64 = 0;
        let mut i: usize = 0;
        while i < n
            invariant
                i <= n,
                n == self.boxes@.len(),
                m == max_count(self.boxes@.subrange(0, i as int)),
            decreases n - i,
        {
            assert(self.boxes@.subrange(0, i + 1).drop_last() =~= self.boxes@.subrange(0, i as int));
            if self.boxes[i] > m {
                m = self.boxes[i];
            }
            i = i + 1;
        }
        assert(self.boxes@.subrange(0, n as int) =~= self.boxes@);
        m
    }

    /// The smallest count, or `None` for a grid without cells.
    pub fn min_value(&self) -> (r: Option<u64>)
        ensures
            r is None <==> self.cells().len() == 0,
            r matches Some(m) ==> (exists|i: int| 0 <= i < self.cells().len() && self.cells()[i] == m)
                && forall|i: int| 0 <= i < self.cells().len() ==> m <= #[trigger] self.cells()[i],
    {
        let n = self.boxes.len();
        if n == 0 {
            return None;
        }
        let mut m: u64 = self.boxes[0];
        let mut at: usize = 0;
        let mut i: usize = 1;
        while i < n
            invariant
                1 <= i <= n,
                n == self.boxes@.len(),
                at < i,
                self.boxes@[at as int] == m,
                forall|j: int| 0 <= j < i ==> m <= #[trigger] self.boxes@[j],
            decreases n - i,
        {
            if self.boxes[i] < m {
                m = self.boxes[i];
                at = i;
            }
            i = i + 1;
        }
        assert(self.cells()[at as int] == m);
        Some(m)
    }

    /// Divides every count by the largest one. The fractions are kept exact:
    /// the numerators are the counts and the common denominator is the largest
    /// count, or 1 where every count is zero, so that an empty histogram
    /// normalises to all zeros.
    pub fn to_normalized_grid(&self) -> (r: NormalizedGrid)
        requires
            self.wf(),
        ensures
            r.wf(),
            r.spec_width() == self.spec_width(),
            r.spec_height() == self.spec_height(),
            r.numerators() == self.cells(),
            r.spec_scale() == (if max_count(self.cells()) == 0 {
                1
            } else {
                max_count(self.cells())
            }),
            (forall|i: int| 0 <= i < self.cells().len() ==> self.cells()[i] == 0) ==> (forall|
                i: int,
            |
                0 <= i < r.numerators().len() ==> r.numerators()[i] == 0),
    {
        let max = self.max_value();
        let scale = if max == 0 {
            1
        } else {
            max
        };
        proof {
            lemma_max_count_bounds(self.cells());
        }
        NormalizedGrid { counts: self.copied(), scale }
    }
}

/// The largest element of `s`, or 0 when `s` is empty.
pub open spec fn max_count(s: Seq<u64>) -> u64
    decreases s.len(),
{
    if s.len() == 0 {
        0
    } else {
        let m = max_count(s.drop_last());
        if s.last() > m {
            s.last()
        } else {
            m
        }
    }
}

/// Every element is at most `max_count`.
pub proof fn lemma_max_count_bounds(s: Seq<u64>)
    ensures
        forall|i: int| 0 <= i < s.len() ==> s[i] <= max_count(s),
    decreases s.len(),
{
    if s.len() > 0 {
        lemma_max_count_bounds(s.drop_last());
        assert forall|i: int| 0 <= i < s.len() implies s[i] <= max_count(s) by {
            if i < s.len() - 1 {
                assert(s[i] == s.drop_last()[i]);
            }
        }
    }
}

/// One more, except at `u64::MAX`.
pub open spec fn saturating_inc(v: u64) -> u64 {
    if v == u64::MAX {
        v
    } else {
        (v + 1) as u64
    }
}

/// `cells` of a `width` × `height` grid after one saturating increment at
/// every pixel of `pixels` that lies inside it.
pub open spec fn with_pixels(cells: Seq<u64>, width: nat, height: nat, pixels: Seq<(usize, usize)>) -> Seq<
    u64,
>
    decreases pixels.len(),
{
    if pixels.len() == 0 {
        cells
    } else {
        let prev = with_pixels(cells, width, height, pixels.drop_last());
        let p = pixels.last();
        if p.0 < width && p.1 < height {
            let o = p.1 * width + p.0;
            prev.update(o, saturating_inc(prev[o]))
        } else {
            prev
        }
    }
}

/// Recording never lowers a count, and every recorded pixel inside the grid
/// holds a positive count afterwards; so a grid whose counts are all zero
/// has recorded no pixel inside it.
pub proof fn lemma_recording_marks_pixels(
    cells: Seq<u64>,
    width: nat,
    height: nat,
    pixels: Seq<(usize, usize)>,
)
    requires
        cells.len() == width * height,
    ensures
        with_pixels(cells, width, height, pixels).len() == cells.len(),
        forall|i: int|
            0 <= i < cells.len() ==> cells[i] <= #[trigger] with_pixels(cells, width, height, pixels)[i],
        forall|k: int|
            0 <= k < pixels.len() && pixels[k].0 < width && pixels[k].1 < height ==> #[trigger] with_pixels(
                cells,
                width,
                height,
                pixels,
            )[pixels[k].1 * width + pixels[k].0] > 0,
    decreases pixels.len(),
{
    if pixels.len() > 0 {
        let rest = pixels.drop_last();
        lemma_recording_marks_pixels(cells, width, height, rest);
        let prev = with_pixels(cells, width, height, rest);
        let now = with_pixels(cells, width, height, pixels);
        let p = pixels.last();
        if p.0 < width && p.1 < height {
            let o = p.1 * width + p.0;
            assert(0 <= o < width * height) by (nonlinear_arith)
                requires
                    o == p.1 * width + p.0,
                    p.0 < width,
                    p.1 < height,
            ;
            assert(now == prev.update(o, saturating_inc(prev[o])));
        }
        assert forall|k: int|
            0 <= k < pixels.len() && pixels[k].0 < width && pixels[k].1 < height implies #[trigger] now[pixels[k].1
                * width + pixels[k].0] > 0 by {
            let q = pixels[k].1 * width + pixels[k].0;
            let x = pixels[k].0;
            let y = pixels[k].1;
            assert(0 <= q < width * height) by (nonlinear_arith)
                requires
                    q == y * width + x,
                    x < width,
                    y < height,
            ;
            if k < pixels.len() - 1 {
                assert(rest[k] == pixels[k]);
                assert(prev[q] > 0);
                assert(cells[q] <= prev[q]);
            }
            assert(prev[q] <= now[q]);
        }
        assert forall|i: int| 0 <= i < cells.len() implies cells[i] <= #[trigger] now[i] by {
            assert(cells[i] <= prev[i]);
        }
    }
}

/// The sum of all counts.
pub open spec fn total(cells: Seq<u64>) -> int
    decreases cells.len(),
{
    if cells.len() == 0 {
        0
    } else {
        total(cells.drop_last()) + cells.last()
    }
}

/// Replacing one count changes the sum by the difference.
pub proof fn lemma_total_update(cells: Seq<u64>, i: int, v: u64)
    requires
        0 <= i < cells.len(),
    ensures
        total(cells.update(i, v)) == total(cells) - cells[i] + v,
    decreases cells.len(),
{
    let u = cells.update(i, v);
    if i < cells.len() - 1 {
        lemma_total_update(cells.drop_last(), i, v);
        assert(u.drop_last() =~= cells.drop_last().update(i, v));
    } else {
        assert(u.drop_last() =~= cells.drop_last());
    }
}

/// Recording adds one to the sum of the counts for every pixel inside the
/// grid, as long as no count can reach `u64::MAX`: so a recorded orbit with a
/// point in the view raises the total, and a total that did not change means
/// that no recorded point fell inside the view.
pub proof fn lemma_recording_total(cells: Seq<u64>, width: nat, height: nat, pixels: Seq<(usize, usize)>)
    requires
        cells.len() == width * height,
        forall|i: int| 0 <= i < cells.len() ==> cells[i] + pixels.len() < u64::MAX,
    ensures
        total(with_pixels(cells, width, height, pixels)) == total(cells) + in_view_count(
            pixels,
            width,
            height,
        ),
        forall|i: int|
            0 <= i < cells.len() ==> #[trigger] with_pixels(cells, width, height, pixels)[i]
                <= cells[i] + pixels.len(),
    decreases pixels.len(),
{
    lemma_recording_marks_pixels(cells, width, height, pixels);
    if pixels.len() > 0 {
        let rest = pixels.drop_last();
        assert forall|i: int| 0 <= i < cells.len() implies cells[i] + rest.len() < u64::MAX by {}
        lemma_recording_total(cells, width, height, rest);
        lemma_recording_marks_pixels(cells, width, height, rest);
        let prev = with_pixels(cells, width, height, rest);
        let now = with_pixels(cells, width, height, pixels);
        let p = pixels.last();
        if p.0 < width && p.1 < height {
            let o = p.1 * width + p.0;
            assert(0 <= o < width * height) by (nonlinear_arith)
                requires
                    o == p.1 * width + p.0,
                    p.0 < width,
                    p.1 < height,
            ;
            assert(prev[o] <= cells[o] + rest.len());
            assert(now == prev.update(o, saturating_inc(prev[o])));
            lemma_total_update(prev, o, saturating_inc(prev[o]));
            assert forall|i: int| 0 <= i < cells.len() implies #[trigger] now[i] <= cells[i]
                + pixels.len() by {
                assert(prev[i] <= cells[i] + rest.len());
            }
        } else {
            assert forall|i: int| 0 <= i < cells.len() implies #[trigger] now[i] <= cells[i]
                + pixels.len() by {
                assert(prev[i] <= cells[i] + rest.len());
            }
        }
    }
}

/// How many of `pixels` lie inside a `width` × `height` grid.
pub open spec fn in_view_count(pixels: Seq<(usize, usize)>, width: nat, height: nat) -> nat
    decreases pixels.len(),
{
    if pixels.len() == 0 {
        0
    } else {
        let p = pixels.last();
        in_view_count(pixels.drop_last(), width, height) + if p.0 < width && p.1 < height {
            1nat
        } else {
            0nat
        }
    }
}

/// How many of `pixels` lie inside a `width` × `height` grid.
pub fn count_in_view(pixels: &Vec<(usize, usize)>, width: usize, height: usize) -> (r: usize)
    ensures
        r == in_view_count(pixels@, width as nat, height as nat),
{
    let n = pixels.len();
    let mut count: usize = 0;
    let mut k: usize = 0;
    while k < n
        invariant
            k <= n,
            n == pixels@.len(),
            count == in_view_count(pixels@.subrange(0, k as int), width as nat, height as nat),
            count <= k,
        decreases n - k,
    {
        assert(pixels@.subrange(0, k + 1).drop_last() =~= pixels@.subrange(0, k as int));
        let (x, y) = pixels[k];
        if x < width && y < height {
            count = count + 1;
        }
        k = k + 1;
    }
    assert(pixels@.subrange(0, n as int) =~= pixels@);
    count
}

/// Intensities in [0, 1], each the exact fraction `numerator / scale` of a
/// normalised count grid.
#[derive(Clone, Debug)]
pub struct NormalizedGrid {
    counts: Grid,
    scale: u64,
}

impl NormalizedGrid {
    pub closed spec fn spec_width(&self) -> nat {
        self.counts.spec_width()
    }

    pub closed spec fn spec_height(&self) -> nat {
        self.counts.spec_height()
    }

    /// The numerators, row after row.
    pub closed spec fn numerators(&self) -> Seq<u64> {
        self.counts.cells()
    }

    /// The common denominator.
    pub closed spec fn spec_scale(&self) -> u64 {
        self.scale
    }

    /// One numerator per pixel, a positive denominator, and every fraction at
    /// most one.
    pub open spec fn wf(&self) -> bool {
        &&& self.numerators().len() == self.spec_width() * self.spec_height()
        &&& self.numerators().len() <= usize::MAX
        &&& self.spec_scale() > 0
        &&& forall|i: int|
            0 <= i < self.numerators().len() ==> #[trigger] self.numerators()[i]
                <= self.spec_scale()
    }

    pub fn width(&self) -> (r: usize)
        ensures
            r == self.spec_width(),
    {
        self.counts.width()
    }

    pub fn height(&self) -> (r: usize)
        ensures
            r == self.spec_height(),
    {
        self.counts.height()
    }

    /// The common denominator of every value.
    pub fn scale(&self) -> (r: u64)
        ensures
            r == self.spec_scale(),
    {
        self.scale
    }

    /// The value at `(x, y)` as `(numerator, denominator)`.
    pub fn value(&self, x: usize, y: usize) -> (r: (u64, u64))
        requires
            self.wf(),
            x < self.spec_width(),
            y < self.spec_height(),
    ensures
            r.0 == self.numerators()[y * self.spec_width() + x],
            r.1 == self.spec_scale(),
            r.0 <= r.1,
    {
        proof {
            self.counts.lemma_offset_in_range(x as int, y as int);
        }
        (self.counts.value(x, y), self.scale)
    }

    /// All numerators, row after row.
    pub fn numerator_data(&self) -> (r: &[u64])
        ensures
            r@ == self.numerators(),
    {
        self.counts.data()
    }
}

/// The sum, over all `grids`, of the count at row-major position `i`.
pub open spec fn column_sum(grids: Seq<Grid>, i: int) -> int
    decreases grids.len(),
{
    if grids.len() == 0 {
        0
    } else {
        column_sum(grids.drop_last(), i) + grids.last().cells()[i]
    }
}

/// Every grid is well formed and `width` × `height`.
pub open spec fn all_shaped(grids: Seq<Grid>, width: nat, height: nat) -> bool {
    forall|k: int|
        0 <= k < grids.len() ==> {
            &&& #[trigger] grids[k].wf()
            &&& grids[k].spec_width() == width
            &&& grids[k].spec_height() == height
        }
}

/// Every per-pixel sum of `grids` over the first `n` positions fits in a count.
pub open spec fn sums_fit(grids: Seq<Grid>, n: int) -> bool {
    forall|i: int| 0 <= i < n ==> #[trigger] column_sum(grids, i) <= u64::MAX
}

proof fn lemma_column_sum_nonneg_prefix(grids: Seq<Grid>, k: int, i: int)
    requires
        0 <= k <= grids.len(),
    ensures
        0 <= column_sum(grids.subrange(0, k), i) <= column_sum(grids, i),
    decreases grids.len(),
{
    if k == grids.len() {
        assert(grids.subrange(0, k) =~= grids);
        lemma_column_sum_nonneg(grids, i);
    } else {
        lemma_column_sum_nonneg_prefix(grids.drop_last(), k, i);
        assert(grids.drop_last().subrange(0, k) =~= grids.subrange(0, k));
    }
}

proof fn lemma_column_sum_nonneg(grids: Seq<Grid>, i: int)
    ensures
        0 <= column_sum(grids, i),
    decreases grids.len(),
{
    if grids.len() > 0 {
        lemma_column_sum_nonneg(grids.drop_last(), i);
    }
}

/// Sums `width` × `height` grids pixel by pixel. The result is `None` exactly
/// when some pixel's sum does not fit in a count.
pub fn merge_grids(width: usize, height: usize, grids: &Vec<Grid>) -> (r: Option<Grid>)
    requires
        width * height <= usize::MAX,
        all_shaped(grids@, width as nat, height as nat),
    ensures
        r is Some <==> sums_fit(grids@, width * height),
        r matches Some(g) ==> {
            &&& g.wf()
            &&& g.spec_width() == width
            &&& g.spec_height() == height
            &&& forall|i: int| 0 <= i < width * height ==> g.cells()[i] == column_sum(grids@, i)
        },
{
    let n: usize = width * height;
    let mut boxes: Vec<u64> = Vec::with_capacity(n);
    let mut i: usize = 0;
    while i < n
        invariant
            i <= n,
            n == width * height,
            all_shaped(grids@, width as nat, height as nat),
            boxes@.len() == i,
            forall|j: int| 0 <= j < i ==> boxes@[j] == column_sum(grids@, j),
            sums_fit(grids@, i as int),
        decreases n - i,
    {
        let mut sum: u64 = 0;
        let mut k: usize = 0;
        while k < grids.len()
            invariant
                i < n,
                n == width * height,
                k <= grids@.len(),
                all_shaped(grids@, width as nat, height as nat),
                sum == column_sum(grids@.subrange(0, k as int), i as int),
            decreases grids@.len() - k,
        {
            assert(grids@.subrange(0, k + 1).drop_last() =~= grids@.subrange(0, k as int));
            let g = &grids[k];
            assert(g.wf());
            match sum.checked_add(g.boxes[i]) {
                Some(s) => {
                    sum = s;
                },
                None => {
                    proof {
                        lemma_column_sum_nonneg_prefix(grids@, k + 1, i as int);
                    }
                    return None;
                },
            }
            k = k + 1;
        }
        assert(grids@.subrange(0, grids@.len() as int) =~= grids@);
        boxes.push(sum);
        i = i + 1;
    }
    Some(Grid { boxes, width, height })
}

/// Merging is additive over concatenation: merging `s1 + s2` gives, at every
/// pixel, the merge of `s1` plus the merge of `s2`; so grids may be merged in
/// any grouping.
pub proof fn lemma_merge_concat(s1: Seq<Grid>, s2: Seq<Grid>, i: int)
    ensures
        column_sum(s1 + s2, i) == column_sum(s1, i) + column_sum(s2, i),
    decreases s2.len(),
{
    if s2.len() == 0 {
        assert(s1 + s2 =~= s1);
    } else {
        lemma_merge_concat(s1, s2.drop_last(), i);
        assert((s1 + s2).drop_last() =~= s1 + s2.drop_last());
    }
}

/// Taking one grid out of a merge lowers every pixel by that grid's count.
pub proof fn lemma_merge_remove(s: Seq<Grid>, k: int, i: int)
    requires
        0 <= k < s.len(),
    ensures
        column_sum(s, i) == column_sum(s.remove(k), i) + s[k].cells()[i],
{
    let a = s.subrange(0, k);
    let b = s.subrange(k + 1, s.len() as int);
    assert(s =~= (a + seq![s[k]]) + b);
    assert(s.remove(k) =~= a + b);
    lemma_merge_concat(a + seq![s[k]], b, i);
    lemma_merge_concat(a, seq![s[k]], i);
    lemma_merge_concat(a, b, i);
    assert(seq![s[k]].drop_last() =~= Seq::<Grid>::empty());
    assert(column_sum(seq![s[k]], i) == column_sum(Seq::<Grid>::empty(), i) + s[k].cells()[i]);
}

/// Merging ignores order: two lists holding the same grids, in any order,
/// merge to the same count at every pixel.
pub proof fn lemma_merge_permutation(s1: Seq<Grid>, s2: Seq<Grid>, i: int)
    requires
        s1.to_multiset() == s2.to_multiset(),
    ensures
        column_sum(s1, i) == column_sum(s2, i),
    decreases s1.len(),
{
    broadcast use vstd::seq_lib::group_to_multiset_ensures;

    if s1.len() == 0 {
        assert(s2.to_multiset().len() == 0);
        assert(s2.len() == 0);
    } else {
        let x = s1.last();
        let rest = s1.drop_last();
        assert(rest.push(x) =~= s1);
        assert(s1.to_multiset() == rest.to_multiset().insert(x));
        assert(s2.to_multiset().count(x) > 0);
        assert(s2.contains(x));
        let k = choose|k: int| 0 <= k < s2.len() && s2[k] == x;
        assert(s2.remove(k).to_multiset() == s2.to_multiset().remove(x));
        assert(rest.to_multiset() =~= s2.to_multiset().remove(x));
        lemma_merge_permutation(rest, s2.remove(k), i);
        lemma_merge_remove(s2, k, i);
    }
}

/// Merging `[a, b, c]` and `[c, a, b]` gives the same count at every pixel.
pub proof fn lemma_merge_rotation(a: Grid, b: Grid, c: Grid, i: int)
    ensures
        column_sum(seq![a, b, c], i) == column_sum(seq![c, a, b], i),
{
    assert(seq![a, b, c].drop_last() =~= seq![a, b]);
    assert(seq![a, b].drop_last() =~= seq![a]);
    assert(seq![a].drop_last() =~= Seq::<Grid>::empty());
    assert(seq![c, a, b].drop_last() =~= seq![c, a]);
    assert(seq![c, a].drop_last() =~= seq![c]);
    assert(seq![c].drop_last() =~= Seq::<Grid>::empty());
    let e = Seq::<Grid>::empty();
    assert(column_sum(seq![a], i) == column_sum(e, i) + a.cells()[i]);
    assert(column_sum(seq![c], i) == column_sum(e, i) + c.cells()[i]);
    assert(column_sum(seq![a, b], i) == column_sum(seq![a], i) + b.cells()[i]);
    assert(column_sum(seq![c, a], i) == column_sum(seq![c], i) + a.cells()[i]);
    assert(column_sum(seq![a, b, c], i) == column_sum(seq![a, b], i) + c.cells()[i]);
    assert(column_sum(seq![c, a, b], i) == column_sum(seq![c, a], i) + b.cells()[i]);
}

} // verus!
