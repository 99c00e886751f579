use vstd::prelude::*;
use crate::config::SampleConfig;
use crate::error::EscapeError;
use crate::grid::{Grid, all_shaped, column_sum, merge_grids, sums_fit};

verus! {

/// Grid `c` of every list of per-cutoff grids.
pub open spec fn bucket_column(results: Seq<Seq<Grid>>, c: int) -> Seq<Grid> {
    Seq::new(results.len(), |k: int| results[k][c])
}

/// The grids of every list.
pub open spec fn lists_view(results: Seq<Vec<Grid>>) -> Seq<Seq<Grid>> {
    Seq::new(results.len(), |k: int| results[k]@)
}

/// Every list holds `n` grids, all `width` × `height`.
pub open spec fn results_shaped(results: Seq<Seq<Grid>>, n: nat, width: nat, height: nat) -> bool {
    forall|k: int|
        0 <= k < results.len() ==> {
            &&& #[trigger] results[k].len() == n
            &&& all_shaped(results[k], width, height)
        }
}

/// Every bucket's per-pixel sums fit in a count.
pub open spec fn all_sums_fit(results: Seq<Seq<Grid>>, n: nat, pixels: int) -> bool {
    forall|c: int| 0 <= c < n ==> #[trigger] sums_fit(bucket_column(results, c), pixels)
}

/// `merged` holds, for each of the `n` buckets, the pixel-wise sum of that
/// bucket over all `results`.
pub open spec fn is_merge_of(
    merged: Seq<Grid>,
    results: Seq<Seq<Grid>>,
    n: nat,
    width: nat,
    height: nat,
) -> bool {
    &&& merged.len() == n
    &&& all_shaped(merged, width, height)
    &&& forall|c: int, i: int|
        0 <= c < n && 0 <= i < width * height ==> #[trigger] merged[c].cells()[i] == column_sum(
            bucket_column(results, c),
            i,
        )
}

/// The view size fits in memory indices and every list holds one grid of
/// the view's size per cutoff of `config`.
pub open spec fn merge_shaped(config: &SampleConfig, results: Seq<Vec<Grid>>) -> bool {
    &&& config.view.width * config.view.height <= usize::MAX
    &&& results_shaped(
        lists_view(results),
        config.cutoffs@.len(),
        config.view.width as nat,
        config.view.height as nat,
    )
}

/// Grids with the same cells, in the same order, have the same sums.
pub proof fn lemma_column_sum_same_cells(a: Seq<Grid>, b: Seq<Grid>, i: int)
    requires
        a.len() == b.len(),
        forall|k: int| 0 <= k < a.len() ==> #[trigger] a[k].cells() == b[k].cells(),
    ensures
        column_sum(a, i) == column_sum(b, i),
    decreases a.len(),
{
    if a.len() > 0 {
        lemma_column_sum_same_cells(a.drop_last(), b.drop_last(), i);
    }
}

/// Copies grid `c` of every list.
fn copy_column(results: &Vec<Vec<Grid>>, n: usize, c: usize, width: usize, height: usize) -> (r: Vec<
    Grid,
>)
    requires
        c < n,
        results_shaped(lists_view(results@), n as nat, width as nat, height as nat),
    ensures
        r@.len() == results@.len(),
        forall|k: int|
            0 <= k < r@.len() ==> (#[trigger] r@[k]).cells() == results@[k]@[c as int].cells(),
        all_shaped(r@, width as nat, height as nat),
{
    let m = results.len();
    let mut out: Vec<Grid> = Vec::with_capacity(m);
    let mut k: usize = 0;
    while k < m
        invariant
            k <= m,
            m == results@.len(),
            c < n,
            results_shaped(lists_view(results@), n as nat, width as nat, height as nat),
            out@.len() == k,
            forall|j: int|
                0 <= j < k ==> (#[trigger] out@[j]).cells() == results@[j]@[c as int].cells(),
            all_shaped(out@, width as nat, height as nat),
        decreases m - k,
    {
        assert(lists_view(results@)[k as int] == results@[k as int]@);
        let g = &results[k][c];
        assert(g.wf());
        out.push(g.copied());
        k = k + 1;
    }
    out
}

/// Merges the per-cutoff grids of several workers, bucket by bucket. Fails
/// with `IncompatibleHistograms` when some list does not hold one grid of the
/// view's size per cutoff, and with `CountOverflow` when a sum does not fit in
/// a count.
pub fn merge_results(config: &SampleConfig, results: &Vec<Vec<Grid>>) -> (r: Result<
    Vec<Grid>,
    EscapeError,
>)
    ensures
        merge_shaped(config, results@) <==> !(r matches Err(EscapeError::IncompatibleHistograms)),
        merge_shaped(config, results@) ==> (!all_sums_fit(
            lists_view(results@),
            config.cutoffs@.len(),
            config.view.width * config.view.height,
        ) <==> (r matches Err(EscapeError::CountOverflow))),
        r is Err ==> (r matches Err(EscapeError::IncompatibleHistograms)) || (r matches Err(
            EscapeError::CountOverflow,
        )),
        r matches Ok(merged) ==> is_merge_of(
            merged@,
            lists_view(results@),
            config.cutoffs@.len(),
            config.view.width as nat,
            config.view.height as nat,
        ),
{
    let ghost rs = lists_view(results@);
    let n = config.cutoffs.len();
    let width = config.view.width;
    let height = config.view.height;
    if width.checked_mul(height).is_none() {
        assert(width * height > usize::MAX);
        assert(!merge_shaped(config, results@));
        return Err(EscapeError::IncompatibleHistograms);
    }
    let m = results.len();
    let mut k: usize = 0;
    while k < m
        invariant
            k <= m,
            m == results@.len(),
            n == config.cutoffs@.len(),
            width == config.view.width,
            height == config.view.height,
            width * height <= usize::MAX,
            rs == lists_view(results@),
            results_shaped(rs.subrange(0, k as int), n as nat, width as nat, height as nat),
        decreases m - k,
    {
        let list = &results[k];
        assert(rs[k as int] == list@);
        if list.len() != n {
            assert(!results_shaped(rs, n as nat, width as nat, height as nat)) by {
                assert(rs[k as int].len() != n);
            }
            return Err(EscapeError::IncompatibleHistograms);
        }
        let mut j: usize = 0;
        while j < n
            invariant
                j <= n,
                n == list@.len(),
                k < m,
                m == results@.len(),
                n == config.cutoffs@.len(),
                width == config.view.width,
                height == config.view.height,
                rs == lists_view(results@),
                rs[k as int] == list@,
                all_shaped(list@.subrange(0, j as int), width as nat, height as nat),
            decreases n - j,
        {
            let g = &list[j];
            if !g.is_shaped(width, height) {
                assert(!all_shaped(list@, width as nat, height as nat)) by {
                    assert(list@[j as int] == *g);
                }
                assert(!results_shaped(rs, n as nat, width as nat, height as nat)) by {
                    assert(rs[k as int].len() == n);
                }
                return Err(EscapeError::IncompatibleHistograms);
            }
            assert(list@.subrange(0, j + 1).drop_last() =~= list@.subrange(0, j as int));
            assert forall|q: int| 0 <= q < j + 1 implies #[trigger] list@.subrange(0, j + 1)[q].wf()
                && list@.subrange(0, j + 1)[q].spec_width() == width && list@.subrange(
                0,
                j + 1,
            )[q].spec_height() == height by {
                if q < j {
                    assert(list@.subrange(0, j + 1)[q] == list@.subrange(0, j as int)[q]);
                }
            }
            j = j + 1;
        }
        assert(list@.subrange(0, n as int) =~= list@);
        assert forall|q: int| 0 <= q < k + 1 implies #[trigger] rs.subrange(0, k + 1)[q].len() == n
            && all_shaped(rs.subrange(0, k + 1)[q], width as nat, height as nat) by {
            if q < k {
                assert(rs.subrange(0, k + 1)[q] == rs.subrange(0, k as int)[q]);
            }
        }
        k = k + 1;
    }
    assert(rs.subrange(0, m as int) =~= rs);
    let mut merged: Vec<Grid> = Vec::with_capacity(n);
    let mut c: usize = 0;
    while c < n
        invariant
            c <= n,
            n == config.cutoffs@.len(),
            width == config.view.width,
            height == config.view.height,
            width * height <= usize::MAX,
            rs == lists_view(results@),
            results_shaped(rs, n as nat, width as nat, height as nat),
            all_sums_fit(rs, c as nat, (width * height) as int),
            is_merge_of(merged@, rs, c as nat, width as nat, height as nat),
        decreases n - c,
    {
        let column = copy_column(results, n, c, width, height);
        assert forall|k: int| 0 <= k < column@.len() implies (#[trigger] column@[k]).cells()
            == bucket_column(rs, c as int)[k].cells() by {
            assert(rs[k] == results@[k]@);
        }
        match merge_grids(width, height, &column) {
            Some(g) => {
                proof {
                    assert forall|i: int| 0 <= i < width * height implies column_sum(
                        bucket_column(rs, c as int),
                        i,
                    ) == column_sum(column@, i) by {
                        lemma_column_sum_same_cells(column@, bucket_column(rs, c as int), i);
                    }
                }
                assert(sums_fit(bucket_column(rs, c as int), (width * height) as int)) by {
                    assert forall|i: int| 0 <= i < width * height implies #[trigger] column_sum(
                        bucket_column(rs, c as int),
                        i,
                    ) <= u64::MAX by {
                        assert(column_sum(column@, i) <= u64::MAX);
                    }
                }
                merged.push(g);
                proof {
                    assert forall|q: int, i: int|
                        0 <= q < c + 1 && 0 <= i < width * height implies #[trigger] merged@[q].cells()[i]
                        == column_sum(bucket_column(rs, q), i) by {
                    }
                }
                c = c + 1;
            },
            None => {
                proof {
                    let i = choose|i: int|
                        0 <= i < width * height && !(#[trigger] column_sum(column@, i) <= u64::MAX);
                    lemma_column_sum_same_cells(column@, bucket_column(rs, c as int), i);
                    assert(!sums_fit(bucket_column(rs, c as int), width * height));
                }
                return Err(EscapeError::CountOverflow);
            },
        }
    }
    Ok(merged)
}

/// The grids suit the configuration: one per cutoff, each of the view's size,
/// with a pixel count that fits in memory indices.
pub open spec fn parts_fit(config: SampleConfig, grids: Seq<Grid>) -> bool {
    &&& config.view.width * config.view.height <= usize::MAX
    &&& grids.len() == config.cutoffs@.len()
    &&& all_shaped(grids, config.view.width as nat, config.view.height as nat)
}

/// The grids of every histogram.
pub open spec fn grids_of(histograms: Seq<HistogramResult>) -> Seq<Seq<Grid>> {
    Seq::new(histograms.len(), |k: int| histograms[k].spec_grids())
}

/// The persisted outcome of a run: the configuration used and one merged
/// grid per cutoff, in cutoff order.
#[derive(Clone, Debug)]
pub struct HistogramResult {
    config: SampleConfig,
    grids: Vec<Grid>,
}

impl HistogramResult {
    pub closed spec fn spec_config(&self) -> SampleConfig {
        self.config
    }

    pub closed spec fn spec_grids(&self) -> Seq<Grid> {
        self.grids@
    }

    pub open spec fn wf(&self) -> bool {
        parts_fit(self.spec_config(), self.spec_grids())
    }

    /// A histogram made of `config` and `grids`, or `MalformedHistogram`
    /// when the grids do not suit the configuration.
    pub fn new(config: SampleConfig, grids: Vec<Grid>) -> (r: Result<HistogramResult, EscapeError>)
        ensures
            parts_fit(config, grids@) <==> r is Ok,
            !parts_fit(config, grids@) ==> (r matches Err(EscapeError::MalformedHistogram)),
            r matches Ok(h) ==> h.wf() && h.spec_config() == config && h.spec_grids() == grids@,
    {
        if fits(&config, &grids) {
            Ok(HistogramResult { config, grids })
        } else {
            Err(EscapeError::MalformedHistogram)
        }
    }

    /// Whether the grids suit the configuration.
    pub fn is_well_formed(&self) -> (r: bool)
        ensures
            r == self.wf(),
    {
        fits(&self.config, &self.grids)
    }

    pub fn config(&self) -> (r: &SampleConfig)
        ensures
            *r == self.spec_config(),
    {
        &self.config
    }

    pub fn grids(&self) -> (r: &Vec<Grid>)
        ensures
            r@ == self.spec_grids(),
    {
        &self.grids
    }

    /// The configuration and the grids.
    pub fn into_parts(self) -> (r: (SampleConfig, Vec<Grid>))
        ensures
            r.0 == self.spec_config(),
            r.1@ == self.spec_grids(),
    {
        (self.config, self.grids)
    }
}

fn fits(config: &SampleConfig, grids: &Vec<Grid>) -> (r: bool)
    ensures
        r == parts_fit(*config, grids@),
{
    let width = config.view.width;
    let height = config.view.height;
    if width.checked_mul(height).is_none() || grids.len() != config.cutoffs.len() {
        return false;
    }
    let n = grids.len();
    let mut j: usize = 0;
    while j < n
        invariant
            j <= n,
            n == grids@.len(),
            n == config.cutoffs@.len(),
            width == config.view.width,
            height == config.view.height,
            width * height <= usize::MAX,
            forall|q: int|
                0 <= q < j ==> {
                    &&& #[trigger] grids@[q].wf()
                    &&& grids@[q].spec_width() == width
                    &&& grids@[q].spec_height() == height
                },
        decreases n - j,
    {
        let g = &grids[j];
        if !g.is_shaped(width, height) {
            return false;
        }
        assert(g.wf() && g.spec_width() == width && g.spec_height() == height);
        assert(grids@[j as int] == *g);
        assert forall|q: int| 0 <= q < j + 1 implies {
            &&& #[trigger] grids@[q].wf()
            &&& grids@[q].spec_width() == width
            &&& grids@[q].spec_height() == height
        } by {
            if q == j {
                assert(grids@[q] == *g);
            }
        }
        j = j + 1;
    }
    assert(all_shaped(grids@, width as nat, height as nat));
    true
}

/// Copies every grid.
fn copy_grids(grids: &Vec<Grid>, width: usize, height: usize) -> (r: Vec<Grid>)
    requires
        all_shaped(grids@, width as nat, height as nat),
    ensures
        r@.len() == grids@.len(),
        all_shaped(r@, width as nat, height as nat),
        forall|k: int| 0 <= k < r@.len() ==> (#[trigger] r@[k]).cells() == grids@[k].cells(),
{
    let n = grids.len();
    let mut out: Vec<Grid> = Vec::with_capacity(n);
    let mut k: usize = 0;
    while k < n
        invariant
            k <= n,
            n == grids@.len(),
            all_shaped(grids@, width as nat, height as nat),
            out@.len() == k,
            all_shaped(out@, width as nat, height as nat),
            forall|j: int| 0 <= j < k ==> (#[trigger] out@[j]).cells() == grids@[j].cells(),
        decreases n - k,
    {
        assert(grids@[k as int].wf());
        out.push(grids[k].copied());
        k = k + 1;
    }
    out
}

/// Merges histograms of independent runs. Fails with `NoHistograms` when
/// there is none, with `IncompatibleHistograms` when some histogram's cutoff
/// count or view size differs from the first one's, with
/// `MalformedHistogram` when some histogram's grids do not suit its own
/// configuration, and with `CountOverflow` when a merged count does not fit.
/// Otherwise the result carries the first histogram's configuration and,
/// for each cutoff, the pixel-wise sum of that cutoff's grids.
pub fn merge_histograms(histograms: &Vec<HistogramResult>) -> (r: Result<HistogramResult, EscapeError>)
    ensures
        ({
            let hs = histograms@;
            let first = hs[0].spec_config();
            let compatible = forall|k: int|
                0 <= k < hs.len() ==> (#[trigger] hs[k].spec_config()).spec_compatible(&first);
            let formed = forall|k: int| 0 <= k < hs.len() ==> (#[trigger] hs[k]).wf();
            let n = first.cutoffs@.len();
            let w = first.view.width as nat;
            let h = first.view.height as nat;
            &&& hs.len() == 0 <==> (r matches Err(EscapeError::NoHistograms))
            &&& hs.len() > 0 ==> (!compatible <==> (r matches Err(
                EscapeError::IncompatibleHistograms,
            )))
            &&& hs.len() > 0 && compatible ==> (!formed <==> (r matches Err(
                EscapeError::MalformedHistogram,
            )))
            &&& hs.len() > 0 && compatible && formed ==> (!all_sums_fit(grids_of(hs), n, (w * h) as int)
                <==> (r matches Err(EscapeError::CountOverflow)))
            &&& hs.len() > 0 && compatible && formed && all_sums_fit(grids_of(hs), n, (w * h) as int)
                ==> r is Ok
            &&& r is Err ==> (r matches Err(EscapeError::NoHistograms)) || (r matches Err(
                EscapeError::IncompatibleHistograms,
            )) || (r matches Err(EscapeError::MalformedHistogram)) || (r matches Err(
                EscapeError::CountOverflow,
            ))
            &&& r matches Ok(merged) ==> {
                &&& merged.wf()
                &&& merged.spec_config().same_as(&first)
                &&& is_merge_of(merged.spec_grids(), grids_of(hs), n, w, h)
            }
        }),
{
    let m = histograms.len();
    if m == 0 {
        return Err(EscapeError::NoHistograms);
    }
    let first = &histograms[0];
    let mut k: usize = 0;
    while k < m
        invariant
            k <= m,
            m == histograms@.len(),
            *first == histograms@[0],
            forall|j: int|
                0 <= j < k ==> (#[trigger] histograms@[j].spec_config()).spec_compatible(
                    &first.spec_config(),
                ),
        decreases m - k,
    {
        if !histograms[k].config().compatible(first.config()) {
            return Err(EscapeError::IncompatibleHistograms);
        }
        k = k + 1;
    }
    let mut k: usize = 0;
    while k < m
        invariant
            k <= m,
            m == histograms@.len(),
            *first == histograms@[0],
            forall|j: int|
                0 <= j < m ==> (#[trigger] histograms@[j].spec_config()).spec_compatible(
                    &first.spec_config(),
                ),
            forall|j: int| 0 <= j < k ==> (#[trigger] histograms@[j]).wf(),
        decreases m - k,
    {
        if !histograms[k].is_well_formed() {
            return Err(EscapeError::MalformedHistogram);
        }
        k = k + 1;
    }
    let ghost hs = histograms@;
    let config = first.config();
    let width = config.view.width;
    let height = config.view.height;
    let mut lists: Vec<Vec<Grid>> = Vec::with_capacity(m);
    let mut k: usize = 0;
    while k < m
        invariant
            k <= m,
            m == hs.len(),
            hs == histograms@,
            *config == hs[0].spec_config(),
            width == config.view.width,
            height == config.view.height,
            forall|j: int| 0 <= j < m ==> (#[trigger] hs[j].spec_config()).spec_compatible(config),
            forall|j: int| 0 <= j < m ==> (#[trigger] hs[j]).wf(),
            lists@.len() == k,
            forall|j: int|
                0 <= j < k ==> {
                    &&& (#[trigger] lists@[j])@.len() == hs[j].spec_grids().len()
                    &&& all_shaped(lists@[j]@, width as nat, height as nat)
                    &&& forall|q: int|
                        0 <= q < lists@[j]@.len() ==> (#[trigger] lists@[j]@[q]).cells()
                            == hs[j].spec_grids()[q].cells()
                },
        decreases m - k,
    {
        let h = &histograms[k];
        assert(hs[k as int].wf());
        assert(hs[k as int].spec_config().spec_compatible(config));
        let copy = copy_grids(h.grids(), width, height);
        lists.push(copy);
        k = k + 1;
    }
    let ghost ls = lists_view(lists@);
    assert(merge_shaped(config, lists@)) by {
        assert forall|j: int| 0 <= j < ls.len() implies #[trigger] ls[j].len()
            == config.cutoffs@.len() && all_shaped(ls[j], width as nat, height as nat) by {
            assert(ls[j] == lists@[j]@);
            assert(hs[j].wf());
            assert(hs[j].spec_config().spec_compatible(config));
        }
    }
    proof {
        assert forall|c: int, i: int|
            0 <= c < config.cutoffs@.len() implies #[trigger] column_sum(bucket_column(ls, c), i)
            == column_sum(bucket_column(grids_of(hs), c), i) by {
            assert forall|j: int| 0 <= j < bucket_column(ls, c).len() implies (#[trigger] bucket_column(
                ls,
                c,
            )[j]).cells() == bucket_column(grids_of(hs), c)[j].cells() by {
                assert(ls[j] == lists@[j]@);
                assert(hs[j].wf());
                assert(hs[j].spec_config().spec_compatible(config));
            }
            lemma_column_sum_same_cells(bucket_column(ls, c), bucket_column(grids_of(hs), c), i);
        }
        let p = (width * height) as int;
        assert forall|c: int| 0 <= c < config.cutoffs@.len() implies #[trigger] sums_fit(
            bucket_column(ls, c),
            p,
        ) == sums_fit(bucket_column(grids_of(hs), c), p) by {
            let a = bucket_column(ls, c);
            let b = bucket_column(grids_of(hs), c);
            if sums_fit(a, p) {
                assert forall|i: int| 0 <= i < p implies #[trigger] column_sum(b, i) <= u64::MAX by {
                    assert(column_sum(a, i) <= u64::MAX);
                }
            }
            if sums_fit(b, p) {
                assert forall|i: int| 0 <= i < p implies #[trigger] column_sum(a, i) <= u64::MAX by {
                    assert(column_sum(b, i) <= u64::MAX);
                }
            }
        }
        let n = config.cutoffs@.len();
        if all_sums_fit(ls, n, p) {
            assert forall|c: int| 0 <= c < n implies #[trigger] sums_fit(
                bucket_column(grids_of(hs), c),
                p,
            ) by {
                assert(sums_fit(bucket_column(ls, c), p));
            }
        }
        if all_sums_fit(grids_of(hs), n, p) {
            assert forall|c: int| 0 <= c < n implies #[trigger] sums_fit(bucket_column(ls, c), p) by {
                assert(sums_fit(bucket_column(grids_of(hs), c), p));
            }
        }
    }
    match merge_results(config, &lists) {
        Ok(grids) => {
            let merged = HistogramResult { config: config.copied(), grids };
            Ok(merged)
        },
        Err(e) => {
            Err(e)
        },
    }
}

} // verus!
