//! Pearson's chi-squared tests: the test of independence on a rectangular
//! grid of observed counts, and the goodness-of-fit test of an observed
//! sequence against expected probabilities.
//!
//! Both compute the exact rational statistic
//! `sum((observed - expected)^2 / expected)` and take the p-value from the
//! upper tail of the provider's chi-squared CDF.

use vstd::prelude::*;
use crate::rational::{
    lemma_rat_add_congr, lemma_rat_add_nonneg, lemma_rat_div_congr, lemma_rat_div_signs,
    lemma_rat_div_wf, lemma_rat_eq_sym, lemma_rat_eq_trans, lemma_rat_mul_congr,
    lemma_rat_nonneg_congr, lemma_rat_norm_ok, lemma_rat_ops_wf, lemma_rat_pos_congr,
    lemma_rat_sq_nonneg, lemma_rat_sub_congr, rat_add, rat_div, rat_eq, rat_fits_i64, rat_inv,
    rat_le, rat_lt, rat_mul, rat_norm, rat_of_int, rat_one, rat_sub, rat_wf, rat_zero, Rat, Ratio,
};
use crate::utils::{
    all_wf, lemma_rat_sum_nonneg, lemma_rat_sum_unfold, lemma_rat_sum_wf, lemma_running_sum_props,
    rat_sum, rats_of, running_sum, seq_rat_wf, sum_fits, Conclusion, HyteError, Matrix,
};
use crate::dist::{chi_p_rat, chi_squared_cdf_q, P_SCALE};

verus! {

/// The result of a Pearson's chi-squared test: its label, its statistic, its
/// degrees of freedom and its p-value.
#[derive(Debug, PartialEq)]
pub struct ChiSquareResult {
    pub test_type: &'static str,
    pub statistic: Ratio,
    pub df: usize,
    pub p: Ratio,
}

/// The mathematical values of a grid of ratios.
pub open spec fn grid_rats(g: Seq<Vec<Ratio>>) -> Seq<Seq<Rat>> {
    g.map_values(|row: Vec<Ratio>| rats_of(row@))
}

/// Every entry of every row is a well formed rational.
pub open spec fn grid_wf(g: Seq<Seq<Rat>>) -> bool {
    forall|i: int| 0 <= i < g.len() ==> seq_rat_wf(#[trigger] g[i])
}

/// Every entry of every row is a well formed ratio.
pub open spec fn grid_all_wf(g: Seq<Vec<Ratio>>) -> bool {
    forall|i: int| 0 <= i < g.len() ==> all_wf((#[trigger] g[i])@)
}

/// Well formed ratios give well formed rationals, row by row.
pub proof fn lemma_grid_wf(g: Seq<Vec<Ratio>>)
    requires
        grid_all_wf(g),
    ensures
        grid_wf(grid_rats(g)),
{
    let gr = grid_rats(g);
    assert forall|i: int| 0 <= i < gr.len() implies seq_rat_wf(#[trigger] gr[i]) by {
        assert(all_wf(g[i]@));
        assert forall|j: int| 0 <= j < gr[i].len() implies rat_wf(#[trigger] gr[i][j]) by {
            assert(g[i]@[j].wf());
            assert(gr[i][j] == g[i]@[j]@);
        }
    }
}

/// Every row has exactly `cols` entries.
pub open spec fn grid_rect(g: Seq<Seq<Rat>>, cols: int) -> bool {
    forall|i: int| 0 <= i < g.len() ==> (#[trigger] g[i]).len() == cols
}

/// Some entry of the grid is negative.
pub open spec fn grid_has_negative(g: Seq<Seq<Rat>>) -> bool {
    exists|i: int, j: int|
        0 <= i < g.len() && 0 <= j < g[i].len() && rat_lt(#[trigger] g[i][j], rat_zero())
}

/// Some row differs in length from the first.
pub open spec fn grid_ragged(g: Seq<Seq<Rat>>) -> bool {
    exists|i: int| 0 <= i < g.len() && (#[trigger] g[i]).len() != g[0].len()
}

/// Some element of the sequence is negative.
pub open spec fn seq_has_negative(s: Seq<Rat>) -> bool {
    exists|i: int| 0 <= i < s.len() && rat_lt(#[trigger] s[i], rat_zero())
}

/// Some element of the sequence lies outside [0, 1].
pub open spec fn seq_out_of_unit(s: Seq<Rat>) -> bool {
    exists|i: int|
        0 <= i < s.len() && (rat_lt(#[trigger] s[i], rat_zero()) || rat_lt(rat_one(), s[i]))
}

/// The total of row `i`.
pub open spec fn row_total(g: Seq<Seq<Rat>>, i: int) -> Rat {
    rat_sum(g[i])
}

/// Column `j` as a sequence, over the first `upto` rows.
pub open spec fn col_prefix(g: Seq<Seq<Rat>>, j: int, upto: int) -> Seq<Rat> {
    Seq::new(upto as nat, |i: int| g[i][j])
}

/// The total of column `j`.
pub open spec fn col_total(g: Seq<Seq<Rat>>, j: int) -> Rat {
    rat_sum(col_prefix(g, j, g.len() as int))
}

/// The row totals of the first `upto` rows, as a sequence.
pub open spec fn row_totals_prefix(g: Seq<Seq<Rat>>, upto: int) -> Seq<Rat> {
    Seq::new(upto as nat, |i: int| row_total(g, i))
}

/// The grand total of the grid.
pub open spec fn grand_total(g: Seq<Seq<Rat>>) -> Rat {
    rat_sum(row_totals_prefix(g, g.len() as int))
}

/// The reduced row totals, as the totals pass produces them.
pub open spec fn row_reps(g: Seq<Seq<Rat>>, cols: int) -> Seq<Rat> {
    Seq::new(g.len(), |i: int| running_sum(g[i], cols))
}

/// Whether every step of the totals pass stays within a `Ratio`: every row
/// sum, every column sum and the grand total of the reduced row sums.
pub open spec fn totals_fits(g: Seq<Seq<Rat>>, cols: int) -> bool {
    &&& forall|i: int| 0 <= i < g.len() ==> sum_fits(#[trigger] g[i], cols)
    &&& forall|j: int|
        0 <= j < cols ==> sum_fits(#[trigger] col_prefix(g, j, g.len() as int), g.len() as int)
    &&& sum_fits(row_reps(g, cols), g.len() as int)
}

/// The expected frequency of cell `(i, j)` under independence:
/// `rowTotal(i) * colTotal(j) / grandTotal`.
pub open spec fn toi_expected(g: Seq<Seq<Rat>>, i: int, j: int) -> Rat {
    rat_div(rat_mul(row_total(g, i), col_total(g, j)), grand_total(g))
}

/// The contribution of cell `(i, j)` to the independence statistic:
/// `(observed - expected)^2 / expected`.
pub open spec fn toi_cell(g: Seq<Seq<Rat>>, i: int, j: int) -> Rat {
    rat_div(
        rat_mul(rat_sub(g[i][j], toi_expected(g, i, j)), rat_sub(g[i][j], toi_expected(g, i, j))),
        toi_expected(g, i, j),
    )
}

/// The first `upto` cell terms of row `i`.
pub open spec fn toi_row_prefix(g: Seq<Seq<Rat>>, i: int, upto: int) -> Seq<Rat> {
    Seq::new(upto as nat, |j: int| toi_cell(g, i, j))
}

/// The row sums of cell terms for the first `upto` rows.
pub open spec fn toi_row_sums_prefix(g: Seq<Seq<Rat>>, cols: int, upto: int) -> Seq<Rat> {
    Seq::new(upto as nat, |i: int| rat_sum(toi_row_prefix(g, i, cols)))
}

/// The chi-squared statistic of the test of independence.
pub open spec fn toi_stat(g: Seq<Seq<Rat>>, cols: int) -> Rat {
    rat_sum(toi_row_sums_prefix(g, cols, g.len() as int))
}

/// The reduced product of the reduced row and column totals of cell
/// `(i, j)`, as the independence engine computes it.
pub open spec fn toi_en_rep(g: Seq<Seq<Rat>>, cols: int, i: int, j: int) -> Rat {
    rat_norm(
        rat_mul(
            running_sum(g[i], cols),
            running_sum(col_prefix(g, j, g.len() as int), g.len() as int),
        ),
    )
}

/// The reduced expected frequency of cell `(i, j)`.
pub open spec fn toi_e_rep(g: Seq<Seq<Rat>>, cols: int, i: int, j: int) -> Rat {
    rat_norm(
        rat_div(toi_en_rep(g, cols, i, j), running_sum(row_reps(g, cols), g.len() as int)),
    )
}

/// The reduced deviation of cell `(i, j)` from its expected frequency.
pub open spec fn toi_dev_rep(g: Seq<Seq<Rat>>, cols: int, i: int, j: int) -> Rat {
    rat_norm(rat_sub(g[i][j], toi_e_rep(g, cols, i, j)))
}

/// The reduced squared deviation of cell `(i, j)`.
pub open spec fn toi_sq_rep(g: Seq<Seq<Rat>>, cols: int, i: int, j: int) -> Rat {
    rat_norm(rat_mul(toi_dev_rep(g, cols, i, j), toi_dev_rep(g, cols, i, j)))
}

/// The reduced statistic term of cell `(i, j)`.
pub open spec fn toi_term_rep(g: Seq<Seq<Rat>>, cols: int, i: int, j: int) -> Rat {
    rat_norm(rat_div(toi_sq_rep(g, cols, i, j), toi_e_rep(g, cols, i, j)))
}

/// The reduced running statistic of row `i` through its first `j` cells.
pub open spec fn toi_row_stat_rep(g: Seq<Seq<Rat>>, cols: int, i: int, j: int) -> Rat
    decreases j,
{
    if j <= 0 {
        rat_zero()
    } else {
        rat_norm(rat_add(toi_row_stat_rep(g, cols, i, j - 1), toi_term_rep(g, cols, i, j - 1)))
    }
}

/// The reduced running statistic through the first `i` full rows.
pub open spec fn toi_stat_acc_rep(g: Seq<Seq<Rat>>, cols: int, i: int) -> Rat
    decreases i,
{
    if i <= 0 {
        rat_zero()
    } else {
        rat_norm(
            rat_add(toi_stat_acc_rep(g, cols, i - 1), toi_row_stat_rep(g, cols, i - 1, cols)),
        )
    }
}

/// Whether every arithmetic step of the independence statistic loop stays
/// within a `Ratio`.
pub open spec fn toi_arith_fits(g: Seq<Seq<Rat>>, cols: int) -> bool {
    &&& forall|i: int, j: int|
        0 <= i < g.len() && 0 <= j < cols ==> {
            &&& rat_fits_i64(#[trigger] toi_en_rep(g, cols, i, j))
            &&& rat_fits_i64(toi_e_rep(g, cols, i, j))
            &&& rat_fits_i64(toi_dev_rep(g, cols, i, j))
            &&& rat_fits_i64(toi_sq_rep(g, cols, i, j))
            &&& rat_fits_i64(toi_term_rep(g, cols, i, j))
            &&& rat_fits_i64(
                rat_norm(
                    rat_add(toi_row_stat_rep(g, cols, i, j), toi_term_rep(g, cols, i, j)),
                ),
            )
        }
    &&& forall|i: int|
        0 <= i < g.len() ==> rat_fits_i64(
            #[trigger] rat_norm(
                rat_add(toi_stat_acc_rep(g, cols, i), toi_row_stat_rep(g, cols, i, cols)),
            ),
        )
}

/// A zero expected frequency arises exactly when the grand total, a row
/// total or a column total is zero.
pub open spec fn toi_zero_expected(g: Seq<Seq<Rat>>, cols: int) -> bool {
    ||| rat_eq(grand_total(g), rat_zero())
    ||| exists|i: int| 0 <= i < g.len() && rat_eq(#[trigger] row_total(g, i), rat_zero())
    ||| exists|j: int| 0 <= j < cols && rat_eq(#[trigger] col_total(g, j), rat_zero())
}

/// Exactly the validated rectangular grids on which the test of
/// independence returns a result.
pub open spec fn toi_succeeds(g: Seq<Seq<Rat>>, cols: int) -> bool {
    &&& g.len() <= 0x7fff
    &&& cols <= 0x7fff
    &&& totals_fits(g, cols)
    &&& !toi_zero_expected(g, cols)
    &&& toi_arith_fits(g, cols)
}

/// The expected frequency of entry `i` in the goodness-of-fit test:
/// `probability(i) * total`.
pub open spec fn gof_expected(s: Seq<Rat>, probs: Seq<Rat>, i: int) -> Rat {
    rat_mul(probs[i], rat_sum(s))
}

/// The contribution of entry `i` to the goodness-of-fit statistic.
pub open spec fn gof_cell(s: Seq<Rat>, probs: Seq<Rat>, i: int) -> Rat {
    rat_div(
        rat_mul(rat_sub(s[i], gof_expected(s, probs, i)), rat_sub(s[i], gof_expected(s, probs, i))),
        gof_expected(s, probs, i),
    )
}

/// The first `upto` cell terms of the goodness-of-fit statistic.
pub open spec fn gof_prefix(s: Seq<Rat>, probs: Seq<Rat>, upto: int) -> Seq<Rat> {
    Seq::new(upto as nat, |i: int| gof_cell(s, probs, i))
}

/// The chi-squared statistic of the goodness-of-fit test.
pub open spec fn gof_stat(s: Seq<Rat>, probs: Seq<Rat>) -> Rat {
    rat_sum(gof_prefix(s, probs, s.len() as int))
}

/// The reduced expected frequency of entry `k`, exactly as the
/// goodness-of-fit engine computes it from the reduced total.
pub open spec fn gof_e_rep(s: Seq<Rat>, ps: Seq<Rat>, k: int) -> Rat {
    rat_norm(rat_mul(ps[k], running_sum(s, s.len() as int)))
}

/// The reduced deviation of entry `k` from its expected frequency.
pub open spec fn gof_dev_rep(s: Seq<Rat>, ps: Seq<Rat>, k: int) -> Rat {
    rat_norm(rat_sub(s[k], gof_e_rep(s, ps, k)))
}

/// The reduced squared deviation of entry `k`.
pub open spec fn gof_sq_rep(s: Seq<Rat>, ps: Seq<Rat>, k: int) -> Rat {
    rat_norm(rat_mul(gof_dev_rep(s, ps, k), gof_dev_rep(s, ps, k)))
}

/// The reduced statistic term of entry `k`.
pub open spec fn gof_term_rep(s: Seq<Rat>, ps: Seq<Rat>, k: int) -> Rat {
    rat_norm(rat_div(gof_sq_rep(s, ps, k), gof_e_rep(s, ps, k)))
}

/// The reduced running statistic through the first `k` entries.
pub open spec fn gof_acc_rep(s: Seq<Rat>, ps: Seq<Rat>, k: int) -> Rat
    decreases k,
{
    if k <= 0 {
        rat_zero()
    } else {
        rat_norm(rat_add(gof_acc_rep(s, ps, k - 1), gof_term_rep(s, ps, k - 1)))
    }
}

/// Whether every arithmetic step of the goodness-of-fit statistic loop
/// stays within a `Ratio`.
pub open spec fn gof_arith_fits(s: Seq<Rat>, ps: Seq<Rat>) -> bool {
    forall|k: int|
        0 <= k < s.len() ==> {
            &&& rat_fits_i64(#[trigger] gof_e_rep(s, ps, k))
            &&& rat_fits_i64(gof_dev_rep(s, ps, k))
            &&& rat_fits_i64(gof_sq_rep(s, ps, k))
            &&& rat_fits_i64(gof_term_rep(s, ps, k))
            &&& rat_fits_i64(rat_norm(rat_add(gof_acc_rep(s, ps, k), gof_term_rep(s, ps, k))))
        }
}

/// A zero expected frequency arises exactly when the observed total or some
/// probability is zero.
pub open spec fn gof_zero_expected(s: Seq<Rat>, ps: Seq<Rat>) -> bool {
    rat_eq(rat_sum(s), rat_zero()) || (exists|k: int|
        0 <= k < ps.len() && (#[trigger] ps[k]).n == 0)
}

/// Exactly the validated inputs on which the goodness-of-fit test returns a
/// result.
pub open spec fn gof_succeeds(s: Seq<Rat>, ps: Seq<Rat>) -> bool {
    &&& s.len() <= 0x7fff_ffff_ffff_ffff
    &&& sum_fits(s, s.len() as int)
    &&& !gof_zero_expected(s, ps)
    &&& gof_arith_fits(s, ps)
}

/// Whether some entry of `matrix` is negative.
fn contains_negative(matrix: &Vec<Vec<Ratio>>) -> (r: bool)
    requires
        grid_wf(grid_rats(matrix@)),
    ensures
        r == grid_has_negative(grid_rats(matrix@)),
{
    let ghost g = grid_rats(matrix@);
    let mut i: usize = 0;
    while i < matrix.len()
        invariant
            0 <= i <= matrix@.len(),
            g == grid_rats(matrix@),
            forall|k: int, j: int|
                0 <= k < i && 0 <= j < g[k].len() ==> !rat_lt(#[trigger] g[k][j], rat_zero()),
        decreases matrix@.len() - i,
    {
        let row = &matrix[i];
        let mut j: usize = 0;
        while j < row.len()
            invariant
                0 <= i < matrix@.len(),
                0 <= j <= row@.len(),
                g == grid_rats(matrix@),
                row@ == matrix@[i as int]@,
                forall|k: int, jj: int|
                    0 <= k < i && 0 <= jj < g[k].len() ==> !rat_lt(#[trigger] g[k][jj], rat_zero()),
                forall|jj: int| 0 <= jj < j ==> !rat_lt(#[trigger] g[i as int][jj], rat_zero()),
            decreases row@.len() - j,
        {
            if row[j].num < 0 {
                assert(rat_lt(g[i as int][j as int], rat_zero()));
                return true;
            }
            j += 1;
        }
        i += 1;
    }
    false
}

/// Whether some row of `matrix` differs in length from the first.
fn has_different_rows(matrix: &Vec<Vec<Ratio>>) -> (r: bool)
    requires
        matrix@.len() >= 1,
    ensures
        r == grid_ragged(grid_rats(matrix@)),
{
    let ghost g = grid_rats(matrix@);
    let first_row_len = matrix[0].len();
    let mut i: usize = 1;
    while i < matrix.len()
        invariant
            1 <= i <= matrix@.len(),
            g == grid_rats(matrix@),
            first_row_len == g[0].len(),
            forall|k: int| 0 <= k < i ==> (#[trigger] g[k]).len() == g[0].len(),
        decreases matrix@.len() - i,
    {
        if matrix[i].len() != first_row_len {
            assert(g[i as int].len() != g[0].len());
            return true;
        }
        i += 1;
    }
    false
}

/// Row totals, column totals and grand total of a rectangular grid.
struct Totals {
    column_totals: Vec<Ratio>,
    row_totals: Vec<Ratio>,
    grand_total: Ratio,
}

/// Computes all totals of a well formed rectangular grid exactly.
/// Success is owed exactly when every step fits (`totals_fits`).
fn compute_totals(matrix: &Vec<Vec<Ratio>>) -> (r: Result<Totals, HyteError>)
    requires
        grid_all_wf(matrix@),
        matrix@.len() >= 1,
        matrix@[0]@.len() >= 1,
        grid_rect(grid_rats(matrix@), matrix@[0]@.len() as int),
    ensures
        r matches Ok(t) ==> {
            &&& t.row_totals@.len() == matrix@.len()
            &&& t.column_totals@.len() == matrix@[0]@.len()
            &&& forall|i: int|
                0 <= i < matrix@.len() ==> (#[trigger] t.row_totals@[i]).wf() && rat_eq(
                    t.row_totals@[i]@,
                    row_total(grid_rats(matrix@), i),
                ) && t.row_totals@[i]@ == running_sum(
                    grid_rats(matrix@)[i],
                    matrix@[0]@.len() as int,
                )
            &&& forall|j: int|
                0 <= j < matrix@[0]@.len() ==> (#[trigger] t.column_totals@[j]).wf() && rat_eq(
                    t.column_totals@[j]@,
                    col_total(grid_rats(matrix@), j),
                ) && t.column_totals@[j]@ == running_sum(
                    col_prefix(grid_rats(matrix@), j, matrix@.len() as int),
                    matrix@.len() as int,
                )
            &&& t.grand_total.wf()
            &&& rat_eq(t.grand_total@, grand_total(grid_rats(matrix@)))
            &&& t.grand_total@ == running_sum(
                row_reps(grid_rats(matrix@), matrix@[0]@.len() as int),
                matrix@.len() as int,
            )
        },
        r is Err <==> !totals_fits(grid_rats(matrix@), matrix@[0]@.len() as int),
        r matches Err(e) ==> e == HyteError::Overflow,
{
    let ghost g = grid_rats(matrix@);
    proof {
        lemma_grid_wf(matrix@);
    }
    let rows = matrix.len();
    let cols = matrix[0].len();
    let mut column_totals: Vec<Ratio> = Vec::new();
    let mut j: usize = 0;
    while j < cols
        invariant
            0 <= j <= cols,
            column_totals@.len() == j,
            forall|k: int| 0 <= k < j ==> (#[trigger] column_totals@[k]).wf()
                && column_totals@[k]@ == rat_zero(),
        decreases cols - j,
    {
        column_totals.push(Ratio { num: 0, den: 1 });
        j += 1;
    }
    let mut row_totals: Vec<Ratio> = Vec::new();
    let mut grand = Ratio { num: 0, den: 1 };
    let mut i: usize = 0;
    while i < rows
        invariant
            0 <= i <= rows,
            rows == matrix@.len(),
            cols == matrix@[0]@.len(),
            g == grid_rats(matrix@),
            grid_all_wf(matrix@),
            grid_wf(g),
            grid_rect(g, cols as int),
            column_totals@.len() == cols,
            row_totals@.len() == i,
            forall|k: int| 0 <= k < cols ==> (#[trigger] column_totals@[k]).wf() && rat_eq(
                column_totals@[k]@,
                rat_sum(col_prefix(g, k, i as int)),
            ) && column_totals@[k]@ == running_sum(col_prefix(g, k, rows as int), i as int),
            forall|k: int| 0 <= k < i ==> (#[trigger] row_totals@[k]).wf() && rat_eq(
                row_totals@[k]@,
                row_total(g, k),
            ) && row_totals@[k]@ == running_sum(g[k], cols as int),
            grand.wf(),
            rat_eq(grand@, rat_sum(row_totals_prefix(g, i as int))),
            grand@ == running_sum(row_reps(g, cols as int), i as int),
            forall|k: int| 0 <= k < i ==> sum_fits(#[trigger] g[k], cols as int),
            forall|k: int|
                0 <= k < cols ==> sum_fits(#[trigger] col_prefix(g, k, rows as int), i as int),
            sum_fits(row_reps(g, cols as int), i as int),
        decreases rows - i,
    {
        proof {
            assert(col_prefix(g, 0, 0) =~= Seq::<Rat>::empty());
        }
        let row = &matrix[i];
        let mut row_acc = Ratio { num: 0, den: 1 };
        let mut j2: usize = 0;
        while j2 < cols
            invariant
                0 <= j2 <= cols,
                0 <= i < rows,
                rows == matrix@.len(),
                cols == matrix@[0]@.len(),
                g == grid_rats(matrix@),
                grid_all_wf(matrix@),
                grid_wf(g),
                grid_rect(g, cols as int),
                row@ == matrix@[i as int]@,
                column_totals@.len() == cols,
                forall|k: int| 0 <= k < j2 ==> (#[trigger] column_totals@[k]).wf() && rat_eq(
                    column_totals@[k]@,
                    rat_sum(col_prefix(g, k, i as int + 1)),
                ) && column_totals@[k]@ == running_sum(col_prefix(g, k, rows as int), i as int + 1),
                forall|k: int| j2 <= k < cols ==> (#[trigger] column_totals@[k]).wf() && rat_eq(
                    column_totals@[k]@,
                    rat_sum(col_prefix(g, k, i as int)),
                ) && column_totals@[k]@ == running_sum(col_prefix(g, k, rows as int), i as int),
                row_acc.wf(),
                rat_eq(row_acc@, rat_sum(g[i as int].subrange(0, j2 as int))),
                row_acc@ == running_sum(g[i as int], j2 as int),
                sum_fits(g[i as int], j2 as int),
                forall|k: int| 0 <= k < i ==> sum_fits(#[trigger] g[k], cols as int),
                forall|k: int|
                    0 <= k < j2 ==> sum_fits(
                        #[trigger] col_prefix(g, k, rows as int),
                        i as int + 1,
                    ),
                forall|k: int|
                    j2 <= k < cols ==> sum_fits(#[trigger] col_prefix(g, k, rows as int), i as int),
                sum_fits(row_reps(g, cols as int), i as int),
            decreases cols - j2,
        {
            let x = row[j2];
            proof {
                assert(all_wf(matrix@[i as int]@));
                assert(x.wf());
                assert(x@ == g[i as int][j2 as int]);
                assert(col_prefix(g, j2 as int, rows as int)[i as int] == g[i as int][j2 as int]);
            }
            let next_row_acc = match row_acc.add(&x) {
                Some(v) => v,
                None => {
                    proof {
                        if sum_fits(g[i as int], cols as int) {
                            crate::utils::lemma_sum_fits_prefix(
                                g[i as int],
                                j2 as int + 1,
                                cols as int,
                            );
                        }
                        assert(!totals_fits(g, cols as int));
                    }
                    return Err(HyteError::Overflow);
                },
            };
            let next_col = match column_totals[j2].add(&x) {
                Some(v) => v,
                None => {
                    proof {
                        if sum_fits(col_prefix(g, j2 as int, rows as int), rows as int) {
                            crate::utils::lemma_sum_fits_prefix(
                                col_prefix(g, j2 as int, rows as int),
                                i as int + 1,
                                rows as int,
                            );
                        }
                        assert(!totals_fits(g, cols as int));
                    }
                    return Err(HyteError::Overflow);
                },
            };
            proof {
                let gi = g[i as int];
                assert(seq_rat_wf(gi));
                let pre = gi.subrange(0, j2 as int);
                let post = gi.subrange(0, j2 as int + 1);
                assert(post.drop_last() =~= pre);
                assert(post.last() == gi[j2 as int]);
                lemma_rat_sum_unfold(post);
                assert(seq_rat_wf(pre));
                lemma_rat_sum_wf(pre);
                lemma_rat_add_congr(row_acc@, x@, rat_sum(pre), gi[j2 as int]);
                lemma_rat_ops_wf(row_acc@, x@);
                lemma_rat_ops_wf(rat_sum(pre), gi[j2 as int]);
                lemma_rat_eq_trans(next_row_acc@, rat_add(row_acc@, x@), rat_sum(post));

                let cpre = col_prefix(g, j2 as int, i as int);
                let cpost = col_prefix(g, j2 as int, i as int + 1);
                assert(cpost.drop_last() =~= cpre);
                assert(cpost.last() == gi[j2 as int]);
                lemma_rat_sum_unfold(cpost);
                assert(seq_rat_wf(cpre)) by {
                    assert forall|k: int| 0 <= k < cpre.len() implies rat_wf(#[trigger] cpre[k]) by {
                        assert(cpre[k] == g[k][j2 as int]);
                        assert(seq_rat_wf(g[k]));
                    }
                }
                lemma_rat_sum_wf(cpre);
                lemma_rat_add_congr(
                    column_totals@[j2 as int]@,
                    x@,
                    rat_sum(cpre),
                    gi[j2 as int],
                );
                lemma_rat_ops_wf(column_totals@[j2 as int]@, x@);
                lemma_rat_ops_wf(rat_sum(cpre), gi[j2 as int]);
                lemma_rat_eq_trans(
                    next_col@,
                    rat_add(column_totals@[j2 as int]@, x@),
                    rat_sum(cpost),
                );
            }
            row_acc = next_row_acc;
            column_totals.set(j2, next_col);
            j2 += 1;
        }
        let next_grand = match grand.add(&row_acc) {
            Some(v) => v,
            None => {
                proof {
                    assert(row_reps(g, cols as int)[i as int] == running_sum(
                        g[i as int],
                        cols as int,
                    ));
                    if sum_fits(row_reps(g, cols as int), rows as int) {
                        crate::utils::lemma_sum_fits_prefix(
                            row_reps(g, cols as int),
                            i as int + 1,
                            rows as int,
                        );
                    }
                    assert(!totals_fits(g, cols as int));
                }
                return Err(HyteError::Overflow);
            },
        };
        proof {
            assert(g[i as int].subrange(0, cols as int) =~= g[i as int]);
            assert(row_reps(g, cols as int)[i as int] == running_sum(g[i as int], cols as int));
            let pre = row_totals_prefix(g, i as int);
            let post = row_totals_prefix(g, i as int + 1);
            assert(post.drop_last() =~= pre);
            assert(post.last() == row_total(g, i as int));
            lemma_rat_sum_unfold(post);
            assert(seq_rat_wf(pre)) by {
                assert forall|k: int| 0 <= k < pre.len() implies rat_wf(#[trigger] pre[k]) by {
                    assert(pre[k] == row_total(g, k));
                    assert(seq_rat_wf(g[k]));
                    lemma_rat_sum_wf(g[k]);
                }
            }
            lemma_rat_sum_wf(pre);
            assert(seq_rat_wf(g[i as int]));
            lemma_rat_sum_wf(g[i as int]);
            lemma_rat_add_congr(grand@, row_acc@, rat_sum(pre), row_total(g, i as int));
            lemma_rat_ops_wf(grand@, row_acc@);
            lemma_rat_ops_wf(rat_sum(pre), row_total(g, i as int));
            lemma_rat_eq_trans(next_grand@, rat_add(grand@, row_acc@), rat_sum(post));
            assert forall|k: int| 0 <= k < cols implies rat_eq(
                #[trigger] column_totals@[k]@,
                rat_sum(col_prefix(g, k, i as int + 1)),
            ) by {}
        }
        row_totals.push(row_acc);
        grand = next_grand;
        i += 1;
    }
    proof {
        assert forall|k: int| 0 <= k < cols implies rat_eq(
            #[trigger] column_totals@[k]@,
            col_total(g, k),
        ) by {
            assert(col_prefix(g, k, rows as int) =~= col_prefix(g, k, g.len() as int));
        }
        assert(row_totals_prefix(g, rows as int) =~= row_totals_prefix(g, g.len() as int));
        assert(totals_fits(g, cols as int));
    }
    Ok(Totals { column_totals, row_totals, grand_total: grand })
}

/// The expected frequency and the cell term of a live cell are well formed.
proof fn lemma_toi_cell_wf(g: Seq<Seq<Rat>>, cols: int, i: int, j: int)
    requires
        grid_wf(g),
        grid_rect(g, cols),
        0 <= i < g.len(),
        0 <= j < cols,
        rat_wf(grand_total(g)),
        grand_total(g).n != 0,
        toi_expected(g, i, j).n != 0,
    ensures
        rat_wf(toi_expected(g, i, j)),
        rat_wf(toi_cell(g, i, j)),
{
    assert(seq_rat_wf(g[i]));
    lemma_rat_sum_wf(g[i]);
    assert(seq_rat_wf(col_prefix(g, j, g.len() as int))) by {
        let cp = col_prefix(g, j, g.len() as int);
        assert forall|k: int| 0 <= k < cp.len() implies rat_wf(#[trigger] cp[k]) by {
            assert(cp[k] == g[k][j]);
            assert(seq_rat_wf(g[k]));
        }
    }
    lemma_rat_sum_wf(col_prefix(g, j, g.len() as int));
    lemma_rat_ops_wf(row_total(g, i), col_total(g, j));
    lemma_rat_div_wf(rat_mul(row_total(g, i), col_total(g, j)), grand_total(g));
    let e = toi_expected(g, i, j);
    lemma_rat_ops_wf(g[i][j], e);
    lemma_rat_ops_wf(rat_sub(g[i][j], e), rat_sub(g[i][j], e));
    lemma_rat_div_wf(rat_mul(rat_sub(g[i][j], e), rat_sub(g[i][j], e)), e);
}

/// The cell terms of the first `j_up` columns of row `i` are well formed, as
/// is their sum.
proof fn lemma_toi_row_prefix_wf(g: Seq<Seq<Rat>>, cols: int, i: int, j_up: int)
    requires
        grid_wf(g),
        grid_rect(g, cols),
        0 <= i < g.len(),
        0 <= j_up <= cols,
        rat_wf(grand_total(g)),
        grand_total(g).n != 0,
        forall|jj: int| 0 <= jj < j_up ==> toi_expected(g, i, jj).n != 0,
    ensures
        seq_rat_wf(toi_row_prefix(g, i, j_up)),
        rat_wf(rat_sum(toi_row_prefix(g, i, j_up))),
{
    let p = toi_row_prefix(g, i, j_up);
    assert forall|jj: int| 0 <= jj < p.len() implies rat_wf(#[trigger] p[jj]) by {
        lemma_toi_cell_wf(g, cols, i, jj);
        assert(p[jj] == toi_cell(g, i, jj));
    }
    lemma_rat_sum_wf(p);
}

/// The row sums of the first `i_up` rows are well formed, as is their sum.
proof fn lemma_toi_row_sums_prefix_wf(g: Seq<Seq<Rat>>, cols: int, i_up: int)
    requires
        grid_wf(g),
        grid_rect(g, cols),
        0 <= i_up <= g.len(),
        rat_wf(grand_total(g)),
        grand_total(g).n != 0,
        forall|k: int, jj: int|
            0 <= k < i_up && 0 <= jj < cols ==> toi_expected(g, k, jj).n != 0,
    ensures
        seq_rat_wf(toi_row_sums_prefix(g, cols, i_up)),
        rat_wf(rat_sum(toi_row_sums_prefix(g, cols, i_up))),
{
    let p = toi_row_sums_prefix(g, cols, i_up);
    assert forall|k: int| 0 <= k < p.len() implies rat_wf(#[trigger] p[k]) by {
        assert(forall|jj: int| 0 <= jj < cols ==> toi_expected(g, k, jj).n != 0);
        lemma_toi_row_prefix_wf(g, cols, k, cols);
        assert(p[k] == rat_sum(toi_row_prefix(g, k, cols)));
    }
    lemma_rat_sum_wf(p);
}

/// Row, column and grand totals of a nonnegative grid are well formed and
/// nonnegative.
proof fn lemma_totals_spec_props(g: Seq<Seq<Rat>>, cols: int)
    requires
        grid_wf(g),
        grid_rect(g, cols),
        g.len() >= 1,
        cols >= 1,
        !grid_has_negative(g),
    ensures
        forall|i: int|
            0 <= i < g.len() ==> rat_wf(#[trigger] row_total(g, i)) && rat_le(
                rat_zero(),
                row_total(g, i),
            ),
        forall|j: int|
            0 <= j < cols ==> rat_wf(#[trigger] col_total(g, j)) && rat_le(
                rat_zero(),
                col_total(g, j),
            ),
        rat_wf(grand_total(g)),
        rat_le(rat_zero(), grand_total(g)),
{
    assert forall|i: int|
        0 <= i < g.len() implies rat_wf(#[trigger] row_total(g, i)) && rat_le(
        rat_zero(),
        row_total(g, i),
    ) by {
        assert(seq_rat_wf(g[i]));
        lemma_rat_sum_wf(g[i]);
        assert(forall|jj: int| 0 <= jj < g[i].len() ==> rat_le(rat_zero(), #[trigger] g[i][jj]));
        lemma_rat_sum_nonneg(g[i]);
    }
    assert forall|j: int|
        0 <= j < cols implies rat_wf(#[trigger] col_total(g, j)) && rat_le(
        rat_zero(),
        col_total(g, j),
    ) by {
        let cp = col_prefix(g, j, g.len() as int);
        assert forall|k: int| 0 <= k < cp.len() implies rat_wf(#[trigger] cp[k]) && rat_le(
            rat_zero(),
            cp[k],
        ) by {
            assert(cp[k] == g[k][j]);
            assert(seq_rat_wf(g[k]));
        }
        lemma_rat_sum_wf(cp);
        lemma_rat_sum_nonneg(cp);
    }
    let rp = row_totals_prefix(g, g.len() as int);
    assert forall|k: int| 0 <= k < rp.len() implies rat_wf(#[trigger] rp[k]) && rat_le(
        rat_zero(),
        rp[k],
    ) by {
        assert(rp[k] == row_total(g, k));
    }
    lemma_rat_sum_wf(rp);
    lemma_rat_sum_nonneg(rp);
}

/// The reduced totals carry the exact row, column and grand totals, and all
/// are well formed.
proof fn lemma_totals_rep_values(g: Seq<Seq<Rat>>, cols: int)
    requires
        grid_wf(g),
        grid_rect(g, cols),
        g.len() >= 1,
        cols >= 1,
    ensures
        forall|i: int|
            0 <= i < g.len() ==> rat_wf(#[trigger] running_sum(g[i], cols)) && rat_wf(
                row_total(g, i),
            ) && rat_eq(running_sum(g[i], cols), row_total(g, i)),
        forall|j: int|
            0 <= j < cols ==> rat_wf(
                #[trigger] running_sum(col_prefix(g, j, g.len() as int), g.len() as int),
            ) && rat_wf(col_total(g, j)) && rat_eq(
                running_sum(col_prefix(g, j, g.len() as int), g.len() as int),
                col_total(g, j),
            ),
        rat_wf(running_sum(row_reps(g, cols), g.len() as int)),
        rat_wf(grand_total(g)),
        rat_eq(running_sum(row_reps(g, cols), g.len() as int), grand_total(g)),
{
    assert forall|i: int|
        0 <= i < g.len() implies rat_wf(#[trigger] running_sum(g[i], cols)) && rat_wf(
        row_total(g, i),
    ) && rat_eq(running_sum(g[i], cols), row_total(g, i)) by {
        assert(seq_rat_wf(g[i]));
        lemma_running_sum_props(g[i], cols);
        assert(g[i].subrange(0, cols) =~= g[i]);
        lemma_rat_sum_wf(g[i]);
    }
    assert forall|j: int|
        0 <= j < cols implies rat_wf(
        #[trigger] running_sum(col_prefix(g, j, g.len() as int), g.len() as int),
    ) && rat_wf(col_total(g, j)) && rat_eq(
        running_sum(col_prefix(g, j, g.len() as int), g.len() as int),
        col_total(g, j),
    ) by {
        let cp = col_prefix(g, j, g.len() as int);
        assert(seq_rat_wf(cp)) by {
            assert forall|k: int| 0 <= k < cp.len() implies rat_wf(#[trigger] cp[k]) by {
                assert(cp[k] == g[k][j]);
                assert(seq_rat_wf(g[k]));
            }
        }
        lemma_running_sum_props(cp, g.len() as int);
        assert(cp.subrange(0, g.len() as int) =~= cp);
        lemma_rat_sum_wf(cp);
    }
    let rr = row_reps(g, cols);
    let rtp = row_totals_prefix(g, g.len() as int);
    assert(seq_rat_wf(rr)) by {
        assert forall|k: int| 0 <= k < rr.len() implies rat_wf(#[trigger] rr[k]) by {
            assert(seq_rat_wf(g[k]));
            lemma_running_sum_props(g[k], cols);
            assert(rr[k] == running_sum(g[k], cols));
        }
    }
    assert(seq_rat_wf(rtp)) by {
        assert forall|k: int| 0 <= k < rtp.len() implies rat_wf(#[trigger] rtp[k]) by {
            assert(seq_rat_wf(g[k]));
            lemma_rat_sum_wf(g[k]);
            assert(rtp[k] == row_total(g, k));
        }
    }
    lemma_running_sum_props(rr, g.len() as int);
    assert(rr.subrange(0, g.len() as int) =~= rr);
    lemma_rat_sum_wf(rr);
    lemma_rat_sum_wf(rtp);
    assert(forall|k: int| 0 <= k < rr.len() ==> rat_eq(#[trigger] rr[k], rtp[k]));
    crate::utils::lemma_rat_sum_pointwise_congr(rr, rtp);
    lemma_rat_eq_trans(running_sum(rr, g.len() as int), rat_sum(rr), grand_total(g));
}

/// On a grid without zero totals, every expected frequency is well formed
/// with a nonzero numerator.
proof fn lemma_toi_expected_nonzero(g: Seq<Seq<Rat>>, cols: int, i: int, j: int)
    requires
        grid_wf(g),
        grid_rect(g, cols),
        g.len() >= 1,
        cols >= 1,
        0 <= i < g.len(),
        0 <= j < cols,
        !toi_zero_expected(g, cols),
    ensures
        rat_wf(toi_expected(g, i, j)),
        toi_expected(g, i, j).n != 0,
{
    assert(seq_rat_wf(g[i]));
    lemma_rat_sum_wf(g[i]);
    let cp = col_prefix(g, j, g.len() as int);
    assert(seq_rat_wf(cp)) by {
        assert forall|k: int| 0 <= k < cp.len() implies rat_wf(#[trigger] cp[k]) by {
            assert(cp[k] == g[k][j]);
            assert(seq_rat_wf(g[k]));
        }
    }
    lemma_rat_sum_wf(cp);
    let rtp = row_totals_prefix(g, g.len() as int);
    assert(seq_rat_wf(rtp)) by {
        assert forall|k: int| 0 <= k < rtp.len() implies rat_wf(#[trigger] rtp[k]) by {
            assert(seq_rat_wf(g[k]));
            lemma_rat_sum_wf(g[k]);
            assert(rtp[k] == row_total(g, k));
        }
    }
    lemma_rat_sum_wf(rtp);
    let rt = row_total(g, i);
    let ct = col_total(g, j);
    let gt = grand_total(g);
    assert(rt.n != 0);
    assert(ct.n != 0);
    assert(gt.n != 0);
    lemma_rat_ops_wf(rt, ct);
    lemma_rat_div_wf(rat_mul(rt, ct), gt);
    let inv_n = rat_inv(gt).n;
    assert(inv_n != 0);
    assert((rt.n * ct.n) * inv_n != 0) by (nonlinear_arith)
        requires
            rt.n != 0,
            ct.n != 0,
            inv_n != 0,
    ;
}

/// The reduced statistic term of a cell carries its exact value.
proof fn lemma_toi_term_rep_value(g: Seq<Seq<Rat>>, cols: int, i: int, j: int)
    requires
        grid_wf(g),
        grid_rect(g, cols),
        g.len() >= 1,
        cols >= 1,
        0 <= i < g.len(),
        0 <= j < cols,
        !toi_zero_expected(g, cols),
    ensures
        rat_wf(toi_term_rep(g, cols, i, j)),
        rat_eq(toi_term_rep(g, cols, i, j), toi_cell(g, i, j)),
{
    lemma_totals_rep_values(g, cols);
    lemma_toi_expected_nonzero(g, cols, i, j);
    let rtr = running_sum(g[i], cols);
    let ctr = running_sum(col_prefix(g, j, g.len() as int), g.len() as int);
    let gtr = running_sum(row_reps(g, cols), g.len() as int);
    let rt = row_total(g, i);
    let ct = col_total(g, j);
    let gt = grand_total(g);
    let e_spec = toi_expected(g, i, j);
    // The reduced cross product carries the exact one.
    let en_raw = rat_mul(rtr, ctr);
    lemma_rat_mul_congr(rtr, ctr, rt, ct);
    lemma_rat_ops_wf(rtr, ctr);
    lemma_rat_ops_wf(rt, ct);
    lemma_rat_norm_ok(en_raw);
    lemma_rat_eq_trans(toi_en_rep(g, cols, i, j), en_raw, rat_mul(rt, ct));
    // The reduced expected frequency carries the exact one, nonzero.
    assert(gt.n != 0);
    crate::rational::lemma_rat_eq_sign(gt, gtr);
    assert(gtr.n != 0) by {
        crate::rational::lemma_rat_eq_sign(gt, gtr);
        lemma_rat_eq_sym(gtr, gt);
    }
    let e_raw = rat_div(toi_en_rep(g, cols, i, j), gtr);
    lemma_rat_div_congr(toi_en_rep(g, cols, i, j), gtr, rat_mul(rt, ct), gt);
    lemma_rat_div_wf(toi_en_rep(g, cols, i, j), gtr);
    lemma_rat_norm_ok(e_raw);
    lemma_rat_eq_trans(toi_e_rep(g, cols, i, j), e_raw, e_spec);
    assert(toi_e_rep(g, cols, i, j).n != 0) by {
        crate::rational::lemma_rat_eq_sign(e_spec, toi_e_rep(g, cols, i, j));
        lemma_rat_eq_sym(toi_e_rep(g, cols, i, j), e_spec);
    }
    // Deviation, square and term carry the exact values.
    assert(seq_rat_wf(g[i]));
    let dev_spec = rat_sub(g[i][j], e_spec);
    let dev_raw = rat_sub(g[i][j], toi_e_rep(g, cols, i, j));
    lemma_rat_ops_wf(g[i][j], toi_e_rep(g, cols, i, j));
    lemma_rat_ops_wf(g[i][j], e_spec);
    lemma_rat_norm_ok(dev_raw);
    lemma_rat_sub_congr(g[i][j], toi_e_rep(g, cols, i, j), g[i][j], e_spec);
    lemma_rat_eq_trans(toi_dev_rep(g, cols, i, j), dev_raw, dev_spec);
    let sq_raw = rat_mul(toi_dev_rep(g, cols, i, j), toi_dev_rep(g, cols, i, j));
    lemma_rat_ops_wf(toi_dev_rep(g, cols, i, j), toi_dev_rep(g, cols, i, j));
    lemma_rat_norm_ok(sq_raw);
    lemma_rat_mul_congr(toi_dev_rep(g, cols, i, j), toi_dev_rep(g, cols, i, j), dev_spec, dev_spec);
    lemma_rat_ops_wf(dev_spec, dev_spec);
    lemma_rat_eq_trans(toi_sq_rep(g, cols, i, j), sq_raw, rat_mul(dev_spec, dev_spec));
    let term_raw = rat_div(toi_sq_rep(g, cols, i, j), toi_e_rep(g, cols, i, j));
    lemma_rat_div_wf(toi_sq_rep(g, cols, i, j), toi_e_rep(g, cols, i, j));
    lemma_rat_norm_ok(term_raw);
    lemma_rat_div_congr(
        toi_sq_rep(g, cols, i, j),
        toi_e_rep(g, cols, i, j),
        rat_mul(dev_spec, dev_spec),
        e_spec,
    );
    lemma_rat_div_wf(rat_mul(dev_spec, dev_spec), e_spec);
    lemma_rat_eq_trans(toi_term_rep(g, cols, i, j), term_raw, toi_cell(g, i, j));
}

/// The reduced running row statistic carries the exact prefix sum of cell
/// terms.
proof fn lemma_toi_row_stat_value(g: Seq<Seq<Rat>>, cols: int, i: int, j: int)
    requires
        grid_wf(g),
        grid_rect(g, cols),
        g.len() >= 1,
        cols >= 1,
        0 <= i < g.len(),
        0 <= j <= cols,
        !toi_zero_expected(g, cols),
    ensures
        rat_wf(toi_row_stat_rep(g, cols, i, j)),
        rat_eq(toi_row_stat_rep(g, cols, i, j), rat_sum(toi_row_prefix(g, i, j))),
    decreases j,
{
    lemma_totals_rep_values(g, cols);
    if j == 0 {
        assert(toi_row_prefix(g, i, 0) =~= Seq::<Rat>::empty());
        assert(rat_sum(toi_row_prefix(g, i, 0)) == rat_zero());
    } else {
        lemma_toi_row_stat_value(g, cols, i, j - 1);
        lemma_toi_term_rep_value(g, cols, i, j - 1);
        assert(forall|jj: int| 0 <= jj < j ==> (#[trigger] toi_expected(g, i, jj)).n != 0) by {
            assert forall|jj: int| 0 <= jj < j implies (#[trigger] toi_expected(g, i, jj)).n
                != 0 by {
                lemma_toi_expected_nonzero(g, cols, i, jj);
            }
        }
        assert(grand_total(g).n != 0);
        lemma_toi_row_prefix_wf(g, cols, i, j - 1);
        let acc_raw = rat_add(toi_row_stat_rep(g, cols, i, j - 1), toi_term_rep(g, cols, i, j - 1));
        lemma_rat_ops_wf(toi_row_stat_rep(g, cols, i, j - 1), toi_term_rep(g, cols, i, j - 1));
        lemma_rat_norm_ok(acc_raw);
        let pre = toi_row_prefix(g, i, j - 1);
        let post = toi_row_prefix(g, i, j);
        assert(post.drop_last() =~= pre);
        assert(post.last() == toi_cell(g, i, j - 1));
        lemma_rat_sum_unfold(post);
        lemma_toi_cell_wf(g, cols, i, j - 1);
        lemma_rat_add_congr(
            toi_row_stat_rep(g, cols, i, j - 1),
            toi_term_rep(g, cols, i, j - 1),
            rat_sum(pre),
            toi_cell(g, i, j - 1),
        );
        lemma_rat_ops_wf(rat_sum(pre), toi_cell(g, i, j - 1));
        lemma_rat_eq_trans(toi_row_stat_rep(g, cols, i, j), acc_raw, rat_sum(post));
    }
}

/// The reduced running statistic carries the exact sum of the row sums.
proof fn lemma_toi_stat_value(g: Seq<Seq<Rat>>, cols: int, i: int)
    requires
        grid_wf(g),
        grid_rect(g, cols),
        g.len() >= 1,
        cols >= 1,
        0 <= i <= g.len(),
        !toi_zero_expected(g, cols),
    ensures
        rat_wf(toi_stat_acc_rep(g, cols, i)),
        rat_eq(toi_stat_acc_rep(g, cols, i), rat_sum(toi_row_sums_prefix(g, cols, i))),
    decreases i,
{
    lemma_totals_rep_values(g, cols);
    if i == 0 {
        assert(toi_row_sums_prefix(g, cols, 0) =~= Seq::<Rat>::empty());
        assert(rat_sum(toi_row_sums_prefix(g, cols, 0)) == rat_zero());
    } else {
        lemma_toi_stat_value(g, cols, i - 1);
        lemma_toi_row_stat_value(g, cols, i - 1, cols);
        assert(forall|k: int, jj: int|
            0 <= k < i && 0 <= jj < cols ==> (#[trigger] toi_expected(g, k, jj)).n != 0) by {
            assert forall|k: int, jj: int|
                0 <= k < i && 0 <= jj < cols implies (#[trigger] toi_expected(g, k, jj)).n
                != 0 by {
                lemma_toi_expected_nonzero(g, cols, k, jj);
            }
        }
        assert(grand_total(g).n != 0);
        lemma_toi_row_sums_prefix_wf(g, cols, i - 1);
        lemma_toi_row_prefix_wf(g, cols, i - 1, cols);
        let acc_raw = rat_add(
            toi_stat_acc_rep(g, cols, i - 1),
            toi_row_stat_rep(g, cols, i - 1, cols),
        );
        lemma_rat_ops_wf(
            toi_stat_acc_rep(g, cols, i - 1),
            toi_row_stat_rep(g, cols, i - 1, cols),
        );
        lemma_rat_norm_ok(acc_raw);
        let pre = toi_row_sums_prefix(g, cols, i - 1);
        let post = toi_row_sums_prefix(g, cols, i);
        assert(post.drop_last() =~= pre);
        assert(post.last() == rat_sum(toi_row_prefix(g, i - 1, cols)));
        lemma_rat_sum_unfold(post);
        lemma_rat_add_congr(
            toi_stat_acc_rep(g, cols, i - 1),
            toi_row_stat_rep(g, cols, i - 1, cols),
            rat_sum(pre),
            rat_sum(toi_row_prefix(g, i - 1, cols)),
        );
        lemma_rat_ops_wf(rat_sum(pre), rat_sum(toi_row_prefix(g, i - 1, cols)));
        lemma_rat_eq_trans(toi_stat_acc_rep(g, cols, i), acc_raw, rat_sum(post));
    }
}

/// The index of the first ratio with a zero numerator, if any.
fn find_zero(values: &Vec<Ratio>) -> (r: Option<usize>)
    ensures
        r matches Some(ix) ==> ix < values@.len() && values@[ix as int].num == 0,
        r is None ==> forall|k: int| 0 <= k < values@.len() ==> (#[trigger] values@[k]).num != 0,
{
    let mut i: usize = 0;
    while i < values.len()
        invariant
            0 <= i <= values@.len(),
            forall|k: int| 0 <= k < i ==> (#[trigger] values@[k]).num != 0,
        decreases values@.len() - i,
    {
        if values[i].num == 0 {
            return Some(i);
        }
        i += 1;
    }
    None
}

/// The independence statistic over a grid whose totals are computed and all
/// positive.  Success is owed exactly when every arithmetic step fits.
#[verifier::rlimit(100)]
fn toi_statistic(matrix: &Vec<Vec<Ratio>>, totals: &Totals) -> (r: Result<Ratio, HyteError>)
    requires
        grid_all_wf(matrix@),
        2 <= matrix@.len() <= 0x7fff,
        2 <= matrix@[0]@.len() <= 0x7fff,
        grid_rect(grid_rats(matrix@), matrix@[0]@.len() as int),
        !grid_has_negative(grid_rats(matrix@)),
        !toi_zero_expected(grid_rats(matrix@), matrix@[0]@.len() as int),
        totals.row_totals@.len() == matrix@.len(),
        totals.column_totals@.len() == matrix@[0]@.len(),
        forall|k: int|
            0 <= k < matrix@.len() ==> (#[trigger] totals.row_totals@[k]).wf() && rat_eq(
                totals.row_totals@[k]@,
                row_total(grid_rats(matrix@), k),
            ) && totals.row_totals@[k]@ == running_sum(
                grid_rats(matrix@)[k],
                matrix@[0]@.len() as int,
            ),
        forall|k: int|
            0 <= k < matrix@[0]@.len() ==> (#[trigger] totals.column_totals@[k]).wf() && rat_eq(
                totals.column_totals@[k]@,
                col_total(grid_rats(matrix@), k),
            ) && totals.column_totals@[k]@ == running_sum(
                col_prefix(grid_rats(matrix@), k, matrix@.len() as int),
                matrix@.len() as int,
            ),
        totals.grand_total.wf(),
        rat_eq(totals.grand_total@, grand_total(grid_rats(matrix@))),
        totals.grand_total.num >= 1,
        totals.grand_total@ == running_sum(
            row_reps(grid_rats(matrix@), matrix@[0]@.len() as int),
            matrix@.len() as int,
        ),
        rat_wf(grand_total(grid_rats(matrix@))),
        grand_total(grid_rats(matrix@)).n >= 1,
        forall|k: int|
            0 <= k < matrix@.len() ==> rat_lt(
                rat_zero(),
                #[trigger] row_total(grid_rats(matrix@), k),
            ),
        forall|k: int|
            0 <= k < matrix@[0]@.len() ==> rat_lt(
                rat_zero(),
                #[trigger] col_total(grid_rats(matrix@), k),
            ),
    ensures
        r matches Ok(st) ==> st.wf() && st.num >= 0 && st@ == toi_stat_acc_rep(
            grid_rats(matrix@),
            matrix@[0]@.len() as int,
            matrix@.len() as int,
        ) && rat_eq(st@, toi_stat(grid_rats(matrix@), matrix@[0]@.len() as int)),
        r is Ok <==> toi_arith_fits(grid_rats(matrix@), matrix@[0]@.len() as int),
        r matches Err(e) ==> e == HyteError::Overflow,
{
    let ghost g = grid_rats(matrix@);
    proof {
        lemma_grid_wf(matrix@);
    }
    let rows = matrix.len();
    let cols = matrix[0].len();
    let grand = totals.grand_total;
    let mut acc = Ratio { num: 0, den: 1 };
    let mut i: usize = 0;
    while i < rows
        invariant
            0 <= i <= rows,
            2 <= rows <= 0x7fff,
            2 <= cols <= 0x7fff,
            rows == matrix@.len(),
            cols == matrix@[0]@.len(),
            g == grid_rats(matrix@),
            grid_all_wf(matrix@),
            grid_wf(g),
            grid_rect(g, cols as int),
            !grid_has_negative(g),
            !toi_zero_expected(g, cols as int),
            grand.wf(),
            rat_eq(grand@, grand_total(g)),
            grand.num >= 1,
            grand@ == running_sum(row_reps(g, cols as int), rows as int),
            rat_wf(grand_total(g)),
            grand_total(g).n >= 1,
            totals.row_totals@.len() == rows,
            totals.column_totals@.len() == cols,
            forall|k: int|
                0 <= k < rows ==> (#[trigger] totals.row_totals@[k]).wf() && rat_eq(
                    totals.row_totals@[k]@,
                    row_total(g, k),
                ) && totals.row_totals@[k]@ == running_sum(g[k], cols as int),
            forall|k: int|
                0 <= k < cols ==> (#[trigger] totals.column_totals@[k]).wf() && rat_eq(
                    totals.column_totals@[k]@,
                    col_total(g, k),
                ) && totals.column_totals@[k]@ == running_sum(
                    col_prefix(g, k, rows as int),
                    rows as int,
                ),
            forall|k: int| 0 <= k < rows ==> rat_lt(rat_zero(), #[trigger] row_total(g, k)),
            forall|k: int| 0 <= k < cols ==> rat_lt(rat_zero(), #[trigger] col_total(g, k)),
            acc.wf(),
            acc.num >= 0,
            acc@ == toi_stat_acc_rep(g, cols as int, i as int),
            rat_eq(acc@, rat_sum(toi_row_sums_prefix(g, cols as int, i as int))),
            forall|k: int, jj: int|
                0 <= k < i && 0 <= jj < cols ==> {
                    &&& rat_fits_i64(#[trigger] toi_en_rep(g, cols as int, k, jj))
                    &&& rat_fits_i64(toi_e_rep(g, cols as int, k, jj))
                    &&& rat_fits_i64(toi_dev_rep(g, cols as int, k, jj))
                    &&& rat_fits_i64(toi_sq_rep(g, cols as int, k, jj))
                    &&& rat_fits_i64(toi_term_rep(g, cols as int, k, jj))
                    &&& rat_fits_i64(
                        rat_norm(
                            rat_add(
                                toi_row_stat_rep(g, cols as int, k, jj),
                                toi_term_rep(g, cols as int, k, jj),
                            ),
                        ),
                    )
                },
            forall|k: int|
                0 <= k < i ==> rat_fits_i64(
                    #[trigger] rat_norm(
                        rat_add(
                            toi_stat_acc_rep(g, cols as int, k),
                            toi_row_stat_rep(g, cols as int, k, cols as int),
                        ),
                    ),
                ),
        decreases rows - i,
    {
        let row = &matrix[i];
        let mut j: usize = 0;
        let mut row_acc = Ratio { num: 0, den: 1 };
        while j < cols
            invariant
                0 <= j <= cols,
                0 <= i < rows,
                2 <= rows <= 0x7fff,
                2 <= cols <= 0x7fff,
                rows == matrix@.len(),
                cols == matrix@[0]@.len(),
                g == grid_rats(matrix@),
                grid_all_wf(matrix@),
                grid_wf(g),
                grid_rect(g, cols as int),
                !grid_has_negative(g),
                !toi_zero_expected(g, cols as int),
                row@ == matrix@[i as int]@,
                grand.wf(),
                rat_eq(grand@, grand_total(g)),
                grand.num >= 1,
                grand@ == running_sum(row_reps(g, cols as int), rows as int),
                rat_wf(grand_total(g)),
                grand_total(g).n >= 1,
                totals.row_totals@.len() == rows,
                totals.column_totals@.len() == cols,
                forall|k: int|
                    0 <= k < rows ==> (#[trigger] totals.row_totals@[k]).wf() && rat_eq(
                        totals.row_totals@[k]@,
                        row_total(g, k),
                    ) && totals.row_totals@[k]@ == running_sum(g[k], cols as int),
                forall|k: int|
                    0 <= k < cols ==> (#[trigger] totals.column_totals@[k]).wf() && rat_eq(
                        totals.column_totals@[k]@,
                        col_total(g, k),
                    ) && totals.column_totals@[k]@ == running_sum(
                        col_prefix(g, k, rows as int),
                        rows as int,
                    ),
                forall|k: int| 0 <= k < rows ==> rat_lt(rat_zero(), #[trigger] row_total(g, k)),
                forall|k: int| 0 <= k < cols ==> rat_lt(rat_zero(), #[trigger] col_total(g, k)),
                row_acc.wf(),
                row_acc.num >= 0,
                row_acc@ == toi_row_stat_rep(g, cols as int, i as int, j as int),
                rat_eq(row_acc@, rat_sum(toi_row_prefix(g, i as int, j as int))),
                forall|k: int, jj: int|
                    0 <= k < i && 0 <= jj < cols ==> {
                        &&& rat_fits_i64(#[trigger] toi_en_rep(g, cols as int, k, jj))
                        &&& rat_fits_i64(toi_e_rep(g, cols as int, k, jj))
                        &&& rat_fits_i64(toi_dev_rep(g, cols as int, k, jj))
                        &&& rat_fits_i64(toi_sq_rep(g, cols as int, k, jj))
                        &&& rat_fits_i64(toi_term_rep(g, cols as int, k, jj))
                        &&& rat_fits_i64(
                            rat_norm(
                                rat_add(
                                    toi_row_stat_rep(g, cols as int, k, jj),
                                    toi_term_rep(g, cols as int, k, jj),
                                ),
                            ),
                        )
                    },
                forall|jj: int|
                    0 <= jj < j ==> {
                        &&& rat_fits_i64(#[trigger] toi_en_rep(g, cols as int, i as int, jj))
                        &&& rat_fits_i64(toi_e_rep(g, cols as int, i as int, jj))
                        &&& rat_fits_i64(toi_dev_rep(g, cols as int, i as int, jj))
                        &&& rat_fits_i64(toi_sq_rep(g, cols as int, i as int, jj))
                        &&& rat_fits_i64(toi_term_rep(g, cols as int, i as int, jj))
                        &&& rat_fits_i64(
                            rat_norm(
                                rat_add(
                                    toi_row_stat_rep(g, cols as int, i as int, jj),
                                    toi_term_rep(g, cols as int, i as int, jj),
                                ),
                            ),
                        )
                    },
                forall|k: int|
                    0 <= k < i ==> rat_fits_i64(
                        #[trigger] rat_norm(
                            rat_add(
                                toi_stat_acc_rep(g, cols as int, k),
                                toi_row_stat_rep(g, cols as int, k, cols as int),
                            ),
                        ),
                    ),
            decreases cols - j,
        {
            let ghost e_spec = toi_expected(g, i as int, j as int);
            let rt = totals.row_totals[i];
            let ct = totals.column_totals[j];
            let en = match rt.mul(&ct) {
                Some(v) => v,
                None => {
                    proof {
                        assert(!rat_fits_i64(toi_en_rep(g, cols as int, i as int, j as int)));
                    }
                    return Err(HyteError::Overflow);
                },
            };
            proof {
                assert(en@ == toi_en_rep(g, cols as int, i as int, j as int));
            }
            let e = match en.div(&grand) {
                Some(v) => v,
                None => {
                    proof {
                        assert(!rat_fits_i64(toi_e_rep(g, cols as int, i as int, j as int)));
                    }
                    return Err(HyteError::Overflow);
                },
            };
            proof {
                assert(e@ == toi_e_rep(g, cols as int, i as int, j as int));
                lemma_totals_spec_props(g, cols as int);
                lemma_rat_mul_congr(rt@, ct@, row_total(g, i as int), col_total(g, j as int));
                lemma_rat_ops_wf(rt@, ct@);
                lemma_rat_ops_wf(row_total(g, i as int), col_total(g, j as int));
                lemma_rat_norm_ok(rat_mul(rt@, ct@));
                lemma_rat_eq_trans(
                    en@,
                    rat_mul(rt@, ct@),
                    rat_mul(row_total(g, i as int), col_total(g, j as int)),
                );
                lemma_rat_div_congr(
                    en@,
                    grand@,
                    rat_mul(row_total(g, i as int), col_total(g, j as int)),
                    grand_total(g),
                );
                lemma_rat_div_wf(en@, grand@);
                lemma_rat_div_wf(
                    rat_mul(row_total(g, i as int), col_total(g, j as int)),
                    grand_total(g),
                );
                lemma_rat_norm_ok(rat_div(en@, grand@));
                lemma_rat_eq_trans(e@, rat_div(en@, grand@), e_spec);
                // The expected frequency is positive: all totals are.
                crate::rational::lemma_rat_mul_signs(
                    row_total(g, i as int),
                    col_total(g, j as int),
                );
                lemma_rat_div_signs(
                    rat_mul(row_total(g, i as int), col_total(g, j as int)),
                    grand_total(g),
                );
                lemma_rat_nonneg_congr(e_spec, e@);
                lemma_rat_pos_congr(e_spec, e@);
            }
            if e.num == 0 {
                proof {
                    assert(false);
                }
                return Err(HyteError::ZeroExpectedFrequency);
            }
            let x = row[j];
            proof {
                assert(all_wf(matrix@[i as int]@));
                assert(x.wf());
                assert(x@ == g[i as int][j as int]);
            }
            let dev = match x.sub(&e) {
                Some(v) => v,
                None => {
                    proof {
                        assert(!rat_fits_i64(toi_dev_rep(g, cols as int, i as int, j as int)));
                    }
                    return Err(HyteError::Overflow);
                },
            };
            let sq = match dev.mul(&dev) {
                Some(v) => v,
                None => {
                    proof {
                        assert(dev@ == toi_dev_rep(g, cols as int, i as int, j as int));
                        assert(!rat_fits_i64(toi_sq_rep(g, cols as int, i as int, j as int)));
                    }
                    return Err(HyteError::Overflow);
                },
            };
            let term = match sq.div(&e) {
                Some(v) => v,
                None => {
                    proof {
                        assert(sq@ == toi_sq_rep(g, cols as int, i as int, j as int));
                        assert(!rat_fits_i64(toi_term_rep(g, cols as int, i as int, j as int)));
                    }
                    return Err(HyteError::Overflow);
                },
            };
            let next = match row_acc.add(&term) {
                Some(v) => v,
                None => {
                    proof {
                        assert(term@ == toi_term_rep(g, cols as int, i as int, j as int));
                        assert(!rat_fits_i64(
                            rat_norm(
                                rat_add(
                                    toi_row_stat_rep(g, cols as int, i as int, j as int),
                                    toi_term_rep(g, cols as int, i as int, j as int),
                                ),
                            ),
                        ));
                    }
                    return Err(HyteError::Overflow);
                },
            };
            proof {
                assert(dev@ == toi_dev_rep(g, cols as int, i as int, j as int));
                assert(sq@ == toi_sq_rep(g, cols as int, i as int, j as int));
                assert(term@ == toi_term_rep(g, cols as int, i as int, j as int));
                assert(next@ == toi_row_stat_rep(g, cols as int, i as int, j as int + 1));
                // The term carries the exact cell value and is nonnegative.
                let o = g[i as int][j as int];
                let dev_spec = rat_sub(o, e_spec);
                lemma_rat_sub_congr(x@, e@, o, e_spec);
                lemma_rat_ops_wf(x@, e@);
                lemma_rat_ops_wf(o, e_spec);
                lemma_rat_norm_ok(rat_sub(x@, e@));
                lemma_rat_eq_trans(dev@, rat_sub(x@, e@), dev_spec);
                lemma_rat_mul_congr(dev@, dev@, dev_spec, dev_spec);
                lemma_rat_ops_wf(dev@, dev@);
                lemma_rat_ops_wf(dev_spec, dev_spec);
                lemma_rat_norm_ok(rat_mul(dev@, dev@));
                lemma_rat_eq_trans(sq@, rat_mul(dev@, dev@), rat_mul(dev_spec, dev_spec));
                lemma_rat_div_congr(sq@, e@, rat_mul(dev_spec, dev_spec), e_spec);
                lemma_rat_div_wf(sq@, e@);
                lemma_rat_div_wf(rat_mul(dev_spec, dev_spec), e_spec);
                lemma_rat_norm_ok(rat_div(sq@, e@));
                lemma_rat_eq_trans(term@, rat_div(sq@, e@), toi_cell(g, i as int, j as int));
                lemma_rat_sq_nonneg(dev@);
                lemma_rat_nonneg_congr(rat_mul(dev@, dev@), sq@);
                lemma_rat_div_signs(sq@, e@);
                lemma_rat_nonneg_congr(rat_div(sq@, e@), term@);
                lemma_rat_add_nonneg(row_acc@, term@);
                lemma_rat_ops_wf(row_acc@, term@);
                lemma_rat_norm_ok(rat_add(row_acc@, term@));
                lemma_rat_nonneg_congr(rat_add(row_acc@, term@), next@);
                // The row accumulator carries the exact row prefix value.
                let pre = toi_row_prefix(g, i as int, j as int);
                let post = toi_row_prefix(g, i as int, j as int + 1);
                assert(post.drop_last() =~= pre);
                assert(post.last() == toi_cell(g, i as int, j as int));
                lemma_rat_sum_unfold(post);
                assert(forall|jj: int|
                    0 <= jj < j as int + 1 ==> (#[trigger] toi_expected(g, i as int, jj)).n
                        != 0) by {
                    assert forall|jj: int|
                        0 <= jj < j as int + 1 implies (#[trigger] toi_expected(
                        g,
                        i as int,
                        jj,
                    )).n != 0 by {
                        lemma_toi_expected_nonzero(g, cols as int, i as int, jj);
                    }
                }
                assert(grand_total(g).n != 0);
                lemma_toi_row_prefix_wf(g, cols as int, i as int, j as int);
                lemma_rat_add_congr(
                    row_acc@,
                    term@,
                    rat_sum(pre),
                    toi_cell(g, i as int, j as int),
                );
                lemma_rat_ops_wf(rat_sum(pre), toi_cell(g, i as int, j as int));
                lemma_rat_eq_trans(next@, rat_add(row_acc@, term@), rat_sum(post));
            }
            row_acc = next;
            j += 1;
        }
        let next_acc = match acc.add(&row_acc) {
            Some(v) => v,
            None => {
                proof {
                    assert(row_acc@ == toi_row_stat_rep(g, cols as int, i as int, cols as int));
                    assert(!rat_fits_i64(
                        rat_norm(
                            rat_add(
                                toi_stat_acc_rep(g, cols as int, i as int),
                                toi_row_stat_rep(g, cols as int, i as int, cols as int),
                            ),
                        ),
                    ));
                }
                return Err(HyteError::Overflow);
            },
        };
        proof {
            assert(next_acc@ == toi_stat_acc_rep(g, cols as int, i as int + 1));
            let pre = toi_row_sums_prefix(g, cols as int, i as int);
            let post = toi_row_sums_prefix(g, cols as int, i as int + 1);
            assert(post.drop_last() =~= pre);
            assert(post.last() == rat_sum(toi_row_prefix(g, i as int, cols as int)));
            lemma_rat_sum_unfold(post);
            assert(forall|k: int, jj: int|
                0 <= k < i as int + 1 && 0 <= jj < cols ==> (#[trigger] toi_expected(
                    g,
                    k,
                    jj,
                )).n != 0) by {
                assert forall|k: int, jj: int|
                    0 <= k < i as int + 1 && 0 <= jj < cols implies (#[trigger] toi_expected(
                    g,
                    k,
                    jj,
                )).n != 0 by {
                    lemma_toi_expected_nonzero(g, cols as int, k, jj);
                }
            }
            assert(grand_total(g).n != 0);
            lemma_toi_row_sums_prefix_wf(g, cols as int, i as int);
            lemma_toi_row_prefix_wf(g, cols as int, i as int, cols as int);
            lemma_rat_add_congr(
                acc@,
                row_acc@,
                rat_sum(pre),
                rat_sum(toi_row_prefix(g, i as int, cols as int)),
            );
            lemma_rat_ops_wf(acc@, row_acc@);
            lemma_rat_ops_wf(rat_sum(pre), rat_sum(toi_row_prefix(g, i as int, cols as int)));
            lemma_rat_eq_trans(next_acc@, rat_add(acc@, row_acc@), rat_sum(post));
            lemma_rat_add_nonneg(acc@, row_acc@);
            lemma_rat_norm_ok(rat_add(acc@, row_acc@));
            lemma_rat_nonneg_congr(rat_add(acc@, row_acc@), next_acc@);
        }
        acc = next_acc;
        i += 1;
    }
    proof {
        assert(toi_arith_fits(g, cols as int));
        assert(toi_row_sums_prefix(g, cols as int, rows as int) =~= toi_row_sums_prefix(
            g,
            cols as int,
            g.len() as int,
        ));
    }
    Ok(acc)
}

/// The test of independence on a validated rectangular grid.
/// Success is owed exactly on the grids `toi_succeeds` describes.
#[verifier::rlimit(100)]
fn toi(matrix: &Vec<Vec<Ratio>>) -> (r: Result<ChiSquareResult, HyteError>)
    requires
        grid_all_wf(matrix@),
        matrix@.len() >= 1,
        matrix@[0]@.len() >= 1,
        grid_rect(grid_rats(matrix@), matrix@[0]@.len() as int),
        !grid_has_negative(grid_rats(matrix@)),
    ensures
        (r matches Err(e) && e == HyteError::NonPositiveDegreesOfFreedom) <==> (matrix@.len() == 1
            || matrix@[0]@.len() == 1),
        (r matches Err(e) && e == HyteError::ZeroExpectedFrequency) <==> (matrix@.len() >= 2
            && matrix@[0]@.len() >= 2 && matrix@.len() <= 0x7fff && matrix@[0]@.len() <= 0x7fff
            && totals_fits(grid_rats(matrix@), matrix@[0]@.len() as int) && toi_zero_expected(
            grid_rats(matrix@),
            matrix@[0]@.len() as int,
        )),
        (r matches Err(e) && e == HyteError::ZeroExpectedFrequency) ==> (rat_eq(
            grand_total(grid_rats(matrix@)),
            rat_zero(),
        ) || (exists|i: int, j: int|
            0 <= i < matrix@.len() && 0 <= j < matrix@[0]@.len() && rat_eq(
                #[trigger] toi_expected(grid_rats(matrix@), i, j),
                rat_zero(),
            ))),
        (r matches Err(e) && e == HyteError::Overflow) <==> (matrix@.len() >= 2
            && matrix@[0]@.len() >= 2 && (matrix@.len() > 0x7fff || matrix@[0]@.len() > 0x7fff
            || !totals_fits(grid_rats(matrix@), matrix@[0]@.len() as int) || (!toi_zero_expected(
            grid_rats(matrix@),
            matrix@[0]@.len() as int,
        ) && !toi_arith_fits(grid_rats(matrix@), matrix@[0]@.len() as int)))),
        r is Ok <==> (matrix@.len() >= 2 && matrix@[0]@.len() >= 2 && toi_succeeds(
            grid_rats(matrix@),
            matrix@[0]@.len() as int,
        )),
        r matches Ok(res) ==> {
            &&& matrix@.len() >= 2
            &&& matrix@[0]@.len() >= 2
            &&& res.statistic.wf()
            &&& res.statistic.num >= 0
            &&& res.p.wf()
            &&& res.statistic@ == toi_stat_acc_rep(
                grid_rats(matrix@),
                matrix@[0]@.len() as int,
                matrix@.len() as int,
            )
            &&& rat_eq(res.statistic@, toi_stat(grid_rats(matrix@), matrix@[0]@.len() as int))
            &&& res.df == (matrix@.len() - 1) * (matrix@[0]@.len() - 1)
            &&& res.p@ == chi_p_rat(res.df as int, res.statistic@)
            &&& res.test_type@ == "Pearson's Chi-squared Test of Independence"@
        },
        r matches Err(e) ==> (e == HyteError::NonPositiveDegreesOfFreedom || e
            == HyteError::ZeroExpectedFrequency || e == HyteError::Overflow),
{
    let ghost g = grid_rats(matrix@);
    proof {
        lemma_grid_wf(matrix@);
    }
    let rows = matrix.len();
    let cols = matrix[0].len();
    if rows == 1 || cols == 1 {
        return Err(HyteError::NonPositiveDegreesOfFreedom);
    }
    if rows > 0x7fff || cols > 0x7fff {
        return Err(HyteError::Overflow);
    }
    let totals = match compute_totals(matrix) {
        Ok(t) => t,
        Err(e) => {
            return Err(e);
        },
    };
    proof {
        lemma_totals_spec_props(g, cols as int);
        lemma_totals_rep_values(g, cols as int);
    }
    if totals.grand_total.num == 0 {
        proof {
            lemma_rat_eq_sym(totals.grand_total@, grand_total(g));
            lemma_rat_eq_trans(grand_total(g), totals.grand_total@, rat_zero());
        }
        return Err(HyteError::ZeroExpectedFrequency);
    }
    proof {
        crate::rational::lemma_rat_eq_sign(totals.grand_total@, grand_total(g));
        assert(!rat_eq(grand_total(g), rat_zero()));
        lemma_rat_nonneg_congr(grand_total(g), totals.grand_total@);
        lemma_rat_pos_congr(totals.grand_total@, grand_total(g));
    }
    if let Some(ix) = find_zero(&totals.row_totals) {
        proof {
            crate::rational::lemma_rat_eq_sign(
                totals.row_totals@[ix as int]@,
                row_total(g, ix as int),
            );
            assert(rat_eq(row_total(g, ix as int), rat_zero()));
            // A zero row total makes that row's expected frequencies zero.
            let e0 = toi_expected(g, ix as int, 0);
            assert(e0.n == 0) by (nonlinear_arith)
                requires
                    row_total(g, ix as int).n == 0,
                    e0.n == (row_total(g, ix as int).n * col_total(g, 0).n) * rat_inv(
                        grand_total(g),
                    ).n,
            ;
            assert(rat_eq(e0, rat_zero()));
        }
        return Err(HyteError::ZeroExpectedFrequency);
    }
    if let Some(ix) = find_zero(&totals.column_totals) {
        proof {
            crate::rational::lemma_rat_eq_sign(
                totals.column_totals@[ix as int]@,
                col_total(g, ix as int),
            );
            assert(rat_eq(col_total(g, ix as int), rat_zero()));
            // A zero column total makes that column's expected frequencies
            // zero.
            let e0 = toi_expected(g, 0, ix as int);
            assert(e0.n == 0) by (nonlinear_arith)
                requires
                    col_total(g, ix as int).n == 0,
                    e0.n == (row_total(g, 0).n * col_total(g, ix as int).n) * rat_inv(
                        grand_total(g),
                    ).n,
            ;
            assert(rat_eq(e0, rat_zero()));
        }
        return Err(HyteError::ZeroExpectedFrequency);
    }
    proof {
        lemma_totals_spec_props(g, cols as int);
        assert forall|k: int| 0 <= k < rows implies !rat_eq(
            #[trigger] row_total(g, k),
            rat_zero(),
        ) && rat_lt(rat_zero(), row_total(g, k)) by {
            crate::rational::lemma_rat_eq_sign(totals.row_totals@[k]@, row_total(g, k));
        }
        assert forall|k: int| 0 <= k < cols implies !rat_eq(
            #[trigger] col_total(g, k),
            rat_zero(),
        ) && rat_lt(rat_zero(), col_total(g, k)) by {
            crate::rational::lemma_rat_eq_sign(totals.column_totals@[k]@, col_total(g, k));
        }
        assert(!toi_zero_expected(g, cols as int));
    }
    let acc = match toi_statistic(matrix, &totals) {
        Ok(st) => st,
        Err(e) => {
            return Err(e);
        },
    };
    proof {
        assert(1 <= (rows - 1) * (cols - 1) < 0x4000_0000) by (nonlinear_arith)
            requires
                2 <= rows <= 0x7fff,
                2 <= cols <= 0x7fff,
        ;
    }
    let df = (rows - 1) * (cols - 1);
    let q = chi_squared_cdf_q(df, acc.num, acc.den);
    let p = Ratio { num: P_SCALE - q, den: P_SCALE };
    Ok(ChiSquareResult {
        test_type: "Pearson's Chi-squared Test of Independence",
        statistic: acc,
        df,
        p,
    })
}

/// The cell terms of the first `i_up` entries of a goodness-of-fit test are
/// well formed, as is their sum.
proof fn lemma_gof_prefix_wf(s: Seq<Rat>, ps: Seq<Rat>, i_up: int)
    requires
        seq_rat_wf(s),
        seq_rat_wf(ps),
        ps.len() == s.len(),
        0 <= i_up <= s.len(),
        forall|jj: int| 0 <= jj < i_up ==> gof_expected(s, ps, jj).n != 0,
    ensures
        seq_rat_wf(gof_prefix(s, ps, i_up)),
        rat_wf(rat_sum(gof_prefix(s, ps, i_up))),
{
    let p = gof_prefix(s, ps, i_up);
    assert forall|jj: int| 0 <= jj < p.len() implies rat_wf(#[trigger] p[jj]) by {
        lemma_rat_sum_wf(s);
        lemma_rat_ops_wf(ps[jj], rat_sum(s));
        let e = gof_expected(s, ps, jj);
        lemma_rat_ops_wf(s[jj], e);
        lemma_rat_ops_wf(rat_sub(s[jj], e), rat_sub(s[jj], e));
        lemma_rat_div_wf(rat_mul(rat_sub(s[jj], e), rat_sub(s[jj], e)), e);
        assert(p[jj] == gof_cell(s, ps, jj));
    }
    lemma_rat_sum_wf(p);
}

/// The reduced running goodness-of-fit statistic carries the exact value of
/// the prefix sum of cell terms.
proof fn lemma_gof_acc_value(s: Seq<Rat>, ps: Seq<Rat>, i: int)
    requires
        seq_rat_wf(s),
        seq_rat_wf(ps),
        ps.len() == s.len(),
        0 <= i <= s.len(),
        !gof_zero_expected(s, ps),
    ensures
        rat_wf(gof_acc_rep(s, ps, i)),
        rat_eq(gof_acc_rep(s, ps, i), rat_sum(gof_prefix(s, ps, i))),
    decreases i,
{
    lemma_rat_sum_wf(s);
    if i == 0 {
        assert(gof_prefix(s, ps, 0) =~= Seq::<Rat>::empty());
        assert(rat_sum(gof_prefix(s, ps, 0)) == rat_zero());
    } else {
        lemma_gof_acc_value(s, ps, i - 1);
        let k = i - 1;
        let e_spec = gof_expected(s, ps, k);
        lemma_rat_ops_wf(ps[k], rat_sum(s));
        assert(e_spec.n != 0) by (nonlinear_arith)
            requires
                e_spec.n == ps[k].n * rat_sum(s).n,
                ps[k].n != 0,
                rat_sum(s).n != 0,
        ;
        // The reduced expected frequency carries the exact expected value.
        lemma_running_sum_props(s, s.len() as int);
        assert(s.subrange(0, s.len() as int) =~= s);
        let e_raw = rat_mul(ps[k], running_sum(s, s.len() as int));
        lemma_rat_mul_congr(ps[k], running_sum(s, s.len() as int), ps[k], rat_sum(s));
        lemma_rat_ops_wf(ps[k], running_sum(s, s.len() as int));
        lemma_rat_norm_ok(e_raw);
        lemma_rat_eq_trans(gof_e_rep(s, ps, k), e_raw, e_spec);
        crate::rational::lemma_rat_eq_sign(gof_e_rep(s, ps, k), e_spec);
        assert(gof_e_rep(s, ps, k).n != 0) by {
            crate::rational::lemma_rat_eq_sign(e_spec, gof_e_rep(s, ps, k));
        }
        // The reduced deviation, square and term carry the exact values.
        let dev_spec = rat_sub(s[k], e_spec);
        let dev_raw = rat_sub(s[k], gof_e_rep(s, ps, k));
        lemma_rat_ops_wf(s[k], gof_e_rep(s, ps, k));
        lemma_rat_ops_wf(s[k], e_spec);
        lemma_rat_norm_ok(dev_raw);
        lemma_rat_sub_congr(s[k], gof_e_rep(s, ps, k), s[k], e_spec);
        lemma_rat_eq_trans(gof_dev_rep(s, ps, k), dev_raw, dev_spec);
        let sq_raw = rat_mul(gof_dev_rep(s, ps, k), gof_dev_rep(s, ps, k));
        lemma_rat_ops_wf(gof_dev_rep(s, ps, k), gof_dev_rep(s, ps, k));
        lemma_rat_norm_ok(sq_raw);
        lemma_rat_mul_congr(gof_dev_rep(s, ps, k), gof_dev_rep(s, ps, k), dev_spec, dev_spec);
        lemma_rat_ops_wf(dev_spec, dev_spec);
        lemma_rat_eq_trans(gof_sq_rep(s, ps, k), sq_raw, rat_mul(dev_spec, dev_spec));
        let term_raw = rat_div(gof_sq_rep(s, ps, k), gof_e_rep(s, ps, k));
        lemma_rat_div_wf(gof_sq_rep(s, ps, k), gof_e_rep(s, ps, k));
        lemma_rat_norm_ok(term_raw);
        lemma_rat_div_congr(
            gof_sq_rep(s, ps, k),
            gof_e_rep(s, ps, k),
            rat_mul(dev_spec, dev_spec),
            e_spec,
        );
        lemma_rat_div_wf(rat_mul(dev_spec, dev_spec), e_spec);
        lemma_rat_eq_trans(gof_term_rep(s, ps, k), term_raw, gof_cell(s, ps, k));
        // The accumulated step carries the exact prefix sum.
        assert(forall|jj: int| 0 <= jj < i ==> (#[trigger] gof_expected(s, ps, jj)).n != 0)
            by {
            assert forall|jj: int| 0 <= jj < i implies (#[trigger] gof_expected(s, ps, jj)).n
                != 0 by {
                assert(gof_expected(s, ps, jj).n == ps[jj].n * rat_sum(s).n);
                assert(ps[jj].n * rat_sum(s).n != 0) by (nonlinear_arith)
                    requires
                        ps[jj].n != 0,
                        rat_sum(s).n != 0,
                ;
            }
        }
        lemma_gof_prefix_wf(s, ps, i - 1);
        let acc_raw = rat_add(gof_acc_rep(s, ps, i - 1), gof_term_rep(s, ps, k));
        lemma_rat_ops_wf(gof_acc_rep(s, ps, i - 1), gof_term_rep(s, ps, k));
        lemma_rat_norm_ok(acc_raw);
        let pre = gof_prefix(s, ps, i - 1);
        let post = gof_prefix(s, ps, i);
        assert(post.drop_last() =~= pre);
        assert(post.last() == gof_cell(s, ps, k));
        lemma_rat_sum_unfold(post);
        lemma_rat_add_congr(
            gof_acc_rep(s, ps, i - 1),
            gof_term_rep(s, ps, k),
            rat_sum(pre),
            gof_cell(s, ps, k),
        );
        lemma_rat_ops_wf(rat_sum(pre), gof_cell(s, ps, k));
        lemma_rat_eq_trans(gof_acc_rep(s, ps, i), acc_raw, rat_sum(post));
    }
}

/// The goodness-of-fit test on validated observations and probabilities.
/// Success is owed exactly on the inputs `gof_succeeds` describes.
#[verifier::rlimit(80)]
fn gof(matrix: &Vec<Ratio>, probabilities: &Vec<Ratio>) -> (r: Result<ChiSquareResult, HyteError>)
    requires
        all_wf(matrix@),
        all_wf(probabilities@),
        matrix@.len() >= 1,
        probabilities@.len() == matrix@.len(),
        !seq_has_negative(rats_of(matrix@)),
        !seq_out_of_unit(rats_of(probabilities@)),
    ensures
        (r matches Err(e) && e == HyteError::NonPositiveDegreesOfFreedom) <==> matrix@.len() == 1,
        (r matches Err(e) && e == HyteError::ZeroExpectedFrequency) <==> (matrix@.len() >= 2
            && matrix@.len() <= 0x7fff_ffff_ffff_ffff && sum_fits(
            rats_of(matrix@),
            matrix@.len() as int,
        ) && gof_zero_expected(rats_of(matrix@), rats_of(probabilities@))),
        (r matches Err(e) && e == HyteError::ZeroExpectedFrequency) ==> (exists|i: int|
            0 <= i < matrix@.len() && rat_eq(
                #[trigger] gof_expected(rats_of(matrix@), rats_of(probabilities@), i),
                rat_zero(),
            )),
        (r matches Err(e) && e == HyteError::Overflow) <==> (matrix@.len() >= 2 && (matrix@.len()
            > 0x7fff_ffff_ffff_ffff || !sum_fits(rats_of(matrix@), matrix@.len() as int) || (
        !gof_zero_expected(rats_of(matrix@), rats_of(probabilities@)) && !gof_arith_fits(
            rats_of(matrix@),
            rats_of(probabilities@),
        )))),
        r is Ok <==> (matrix@.len() >= 2 && gof_succeeds(rats_of(matrix@), rats_of(probabilities@))),
        r matches Ok(res) ==> {
            &&& matrix@.len() >= 2
            &&& res.statistic.wf()
            &&& res.statistic.num >= 0
            &&& res.p.wf()
            &&& res.statistic@ == gof_acc_rep(
                rats_of(matrix@),
                rats_of(probabilities@),
                matrix@.len() as int,
            )
            &&& rat_eq(res.statistic@, gof_stat(rats_of(matrix@), rats_of(probabilities@)))
            &&& res.df == matrix@.len() - 1
            &&& res.p@ == chi_p_rat(res.df as int, res.statistic@)
            &&& res.test_type@ == "Pearson's Chi-squared Goodness Of Fit"@
        },
        r matches Err(e) ==> (e == HyteError::NonPositiveDegreesOfFreedom || e
            == HyteError::ZeroExpectedFrequency || e == HyteError::Overflow),
{
    let ghost s = rats_of(matrix@);
    let ghost ps = rats_of(probabilities@);
    proof {
        assert(seq_rat_wf(s));
        assert(seq_rat_wf(ps));
    }
    let n = matrix.len();
    if n == 1 {
        return Err(HyteError::NonPositiveDegreesOfFreedom);
    }
    if (n as u64) > 0x7fff_ffff_ffff_ffffu64 {
        return Err(HyteError::Overflow);
    }
    let mut total = Ratio { num: 0, den: 1 };
    let mut i: usize = 0;
    while i < n
        invariant
            0 <= i <= n,
            2 <= n,
            n == matrix@.len(),
            all_wf(matrix@),
            s == rats_of(matrix@),
            seq_rat_wf(s),
            total.wf(),
            total@ == running_sum(s, i as int),
            sum_fits(s, i as int),
        decreases n - i,
    {
        let x = matrix[i];
        let next = match total.add(&x) {
            Some(v) => v,
            None => {
                proof {
                    if sum_fits(s, s.len() as int) {
                        crate::utils::lemma_sum_fits_prefix(s, i as int + 1, s.len() as int);
                    }
                }
                return Err(HyteError::Overflow);
            },
        };
        proof {
            assert(x@ == s[i as int]);
            assert(running_sum(s, i as int + 1) == rat_norm(
                rat_add(running_sum(s, i as int), s[i as int]),
            ));
        }
        total = next;
        i += 1;
    }
    proof {
        lemma_running_sum_props(s, n as int);
        assert(s.subrange(0, n as int) =~= s);
        lemma_rat_sum_wf(s);
        assert(forall|k: int| 0 <= k < s.len() ==> rat_le(rat_zero(), #[trigger] s[k]));
        lemma_rat_sum_nonneg(s);
        lemma_rat_nonneg_congr(rat_sum(s), total@);
    }
    if total.num == 0 {
        proof {
            lemma_rat_eq_sym(total@, rat_sum(s));
            lemma_rat_eq_trans(rat_sum(s), total@, rat_zero());
            // A zero total makes the first expected frequency zero.
            assert(ps[0].n * rat_sum(s).n == 0 * (ps[0].d * rat_sum(s).d)) by (nonlinear_arith)
                requires
                    rat_sum(s).n == 0,
            ;
            assert(rat_eq(gof_expected(s, ps, 0), rat_zero()));
        }
        return Err(HyteError::ZeroExpectedFrequency);
    }
    proof {
        if rat_eq(rat_sum(s), rat_zero()) {
            lemma_rat_eq_sym(total@, rat_sum(s));
            lemma_rat_eq_trans(total@, rat_sum(s), rat_zero());
            assert(false);
        }
        lemma_rat_pos_congr(total@, rat_sum(s));
    }
    let mut z: usize = 0;
    while z < n
        invariant
            0 <= z <= n,
            2 <= n,
            n == matrix@.len(),
            n == probabilities@.len(),
            n as u64 <= 0x7fff_ffff_ffff_ffffu64,
            all_wf(probabilities@),
            ps == rats_of(probabilities@),
            s == rats_of(matrix@),
            seq_rat_wf(s),
            seq_rat_wf(ps),
            sum_fits(s, s.len() as int),
            total.wf(),
            total@ == running_sum(s, s.len() as int),
            total.num != 0,
            rat_eq(total@, rat_sum(s)),
            rat_wf(rat_sum(s)),
            forall|k: int| 0 <= k < z ==> (#[trigger] ps[k]).n != 0,
        decreases n - z,
    {
        if probabilities[z].num == 0 {
            proof {
                assert(ps[z as int].n == 0);
                // A zero probability makes its expected frequency zero.
                assert(ps[z as int].n * rat_sum(s).n == 0 * (ps[z as int].d * rat_sum(s).d))
                    by (nonlinear_arith)
                    requires
                        ps[z as int].n == 0,
                ;
                lemma_rat_sum_wf(s);
                assert(rat_eq(gof_expected(s, ps, z as int), rat_zero()));
            }
            return Err(HyteError::ZeroExpectedFrequency);
        }
        z += 1;
    }
    proof {
        if rat_eq(rat_sum(s), rat_zero()) {
            lemma_rat_sum_wf(s);
            lemma_rat_eq_sym(total@, rat_sum(s));
            lemma_rat_eq_trans(total@, rat_sum(s), rat_zero());
            assert(false);
        }
        assert(!gof_zero_expected(s, ps));
    }
    let mut acc = Ratio { num: 0, den: 1 };
    let mut k: usize = 0;
    while k < n
        invariant
            0 <= k <= n,
            2 <= n,
            n == matrix@.len(),
            n == probabilities@.len(),
            all_wf(matrix@),
            all_wf(probabilities@),
            s == rats_of(matrix@),
            ps == rats_of(probabilities@),
            seq_rat_wf(s),
            seq_rat_wf(ps),
            !seq_has_negative(s),
            !seq_out_of_unit(ps),
            !gof_zero_expected(s, ps),
            forall|kk: int| 0 <= kk < n ==> (#[trigger] ps[kk]).n != 0,
            total.wf(),
            total@ == running_sum(s, s.len() as int),
            rat_lt(rat_zero(), rat_sum(s)),
            sum_fits(s, s.len() as int),
            n as u64 <= 0x7fff_ffff_ffff_ffffu64,
            acc.wf(),
            acc.num >= 0,
            acc@ == gof_acc_rep(s, ps, k as int),
            forall|kk: int|
                0 <= kk < k ==> {
                    &&& rat_fits_i64(#[trigger] gof_e_rep(s, ps, kk))
                    &&& rat_fits_i64(gof_dev_rep(s, ps, kk))
                    &&& rat_fits_i64(gof_sq_rep(s, ps, kk))
                    &&& rat_fits_i64(gof_term_rep(s, ps, kk))
                    &&& rat_fits_i64(
                        rat_norm(rat_add(gof_acc_rep(s, ps, kk), gof_term_rep(s, ps, kk))),
                    )
                },
        decreases n - k,
    {
        let ghost e_spec = gof_expected(s, ps, k as int);
        let pk = probabilities[k];
        let e = match pk.mul(&total) {
            Some(v) => v,
            None => {
                proof {
                    assert(pk@ == ps[k as int]);
                    assert(!rat_fits_i64(gof_e_rep(s, ps, k as int)));
                }
                return Err(HyteError::Overflow);
            },
        };
        proof {
            assert(pk@ == ps[k as int]);
            assert(e@ == gof_e_rep(s, ps, k as int));
            // The expected frequency is exactly the probability times the
            // total, and is positive here.
            lemma_running_sum_props(s, s.len() as int);
            assert(s.subrange(0, s.len() as int) =~= s);
            lemma_rat_sum_wf(s);
            lemma_rat_mul_congr(pk@, total@, ps[k as int], rat_sum(s));
            lemma_rat_ops_wf(pk@, total@);
            lemma_rat_ops_wf(ps[k as int], rat_sum(s));
            lemma_rat_norm_ok(rat_mul(pk@, total@));
            lemma_rat_eq_trans(e@, rat_mul(pk@, total@), e_spec);
            assert(rat_le(rat_zero(), ps[k as int]));
            assert(rat_lt(rat_zero(), ps[k as int]));
            crate::rational::lemma_rat_mul_signs(ps[k as int], rat_sum(s));
            lemma_rat_nonneg_congr(e_spec, e@);
            lemma_rat_pos_congr(e_spec, e@);
        }
        if e.num == 0 {
            proof {
                assert(false);
            }
            return Err(HyteError::ZeroExpectedFrequency);
        }
        let x = matrix[k];
        proof {
            assert(x@ == s[k as int]);
        }
        let dev = match x.sub(&e) {
            Some(v) => v,
            None => {
                proof {
                    assert(!rat_fits_i64(gof_dev_rep(s, ps, k as int)));
                }
                return Err(HyteError::Overflow);
            },
        };
        let sq = match dev.mul(&dev) {
            Some(v) => v,
            None => {
                proof {
                    assert(dev@ == gof_dev_rep(s, ps, k as int));
                    assert(!rat_fits_i64(gof_sq_rep(s, ps, k as int)));
                }
                return Err(HyteError::Overflow);
            },
        };
        let term = match sq.div(&e) {
            Some(v) => v,
            None => {
                proof {
                    assert(sq@ == gof_sq_rep(s, ps, k as int));
                    assert(!rat_fits_i64(gof_term_rep(s, ps, k as int)));
                }
                return Err(HyteError::Overflow);
            },
        };
        let next = match acc.add(&term) {
            Some(v) => v,
            None => {
                proof {
                    assert(term@ == gof_term_rep(s, ps, k as int));
                    assert(!rat_fits_i64(
                        rat_norm(rat_add(gof_acc_rep(s, ps, k as int), gof_term_rep(s, ps, k as int))),
                    ));
                }
                return Err(HyteError::Overflow);
            },
        };
        proof {
            assert(dev@ == gof_dev_rep(s, ps, k as int));
            assert(sq@ == gof_sq_rep(s, ps, k as int));
            assert(term@ == gof_term_rep(s, ps, k as int));
            assert(next@ == gof_acc_rep(s, ps, k as int + 1));
            // The value of the term is the exact statistic contribution,
            // and it is nonnegative.
            let o = s[k as int];
            let dev_spec = rat_sub(o, e_spec);
            lemma_rat_sub_congr(x@, e@, o, e_spec);
            lemma_rat_ops_wf(x@, e@);
            lemma_rat_ops_wf(o, e_spec);
            lemma_rat_norm_ok(rat_sub(x@, e@));
            lemma_rat_eq_trans(dev@, rat_sub(x@, e@), dev_spec);
            lemma_rat_mul_congr(dev@, dev@, dev_spec, dev_spec);
            lemma_rat_ops_wf(dev@, dev@);
            lemma_rat_ops_wf(dev_spec, dev_spec);
            lemma_rat_norm_ok(rat_mul(dev@, dev@));
            lemma_rat_eq_trans(sq@, rat_mul(dev@, dev@), rat_mul(dev_spec, dev_spec));
            lemma_rat_div_congr(sq@, e@, rat_mul(dev_spec, dev_spec), e_spec);
            lemma_rat_div_wf(sq@, e@);
            lemma_rat_div_wf(rat_mul(dev_spec, dev_spec), e_spec);
            lemma_rat_norm_ok(rat_div(sq@, e@));
            lemma_rat_eq_trans(term@, rat_div(sq@, e@), gof_cell(s, ps, k as int));
            lemma_rat_sq_nonneg(dev@);
            lemma_rat_nonneg_congr(rat_mul(dev@, dev@), sq@);
            lemma_rat_div_signs(sq@, e@);
            lemma_rat_nonneg_congr(rat_div(sq@, e@), term@);
            lemma_rat_add_nonneg(acc@, term@);
            lemma_rat_ops_wf(acc@, term@);
            lemma_rat_norm_ok(rat_add(acc@, term@));
            lemma_rat_nonneg_congr(rat_add(acc@, term@), next@);
        }
        acc = next;
        k += 1;
    }
    proof {
        assert(gof_arith_fits(s, ps));
        lemma_gof_acc_value(s, ps, n as int);
    }
    let df = n - 1;
    let q = chi_squared_cdf_q(df, acc.num, acc.den);
    let p = Ratio { num: P_SCALE - q, den: P_SCALE };
    Ok(ChiSquareResult {
        test_type: "Pearson's Chi-squared Goodness Of Fit",
        statistic: acc,
        df,
        p,
    })
}

/// Whether some element of `values` is negative.
fn vec_has_negative(values: &Vec<Ratio>) -> (r: bool)
    requires
        all_wf(values@),
    ensures
        r == seq_has_negative(rats_of(values@)),
{
    let ghost s = rats_of(values@);
    let mut i: usize = 0;
    while i < values.len()
        invariant
            0 <= i <= values@.len(),
            s == rats_of(values@),
            forall|k: int| 0 <= k < i ==> !rat_lt(#[trigger] s[k], rat_zero()),
        decreases values@.len() - i,
    {
        if values[i].num < 0 {
            assert(rat_lt(s[i as int], rat_zero()));
            return true;
        }
        i += 1;
    }
    false
}

/// Whether some element of `values` lies outside [0, 1].
fn vec_out_of_unit(values: &Vec<Ratio>) -> (r: bool)
    requires
        all_wf(values@),
    ensures
        r == seq_out_of_unit(rats_of(values@)),
{
    let ghost s = rats_of(values@);
    let one = Ratio { num: 1, den: 1 };
    let mut i: usize = 0;
    while i < values.len()
        invariant
            0 <= i <= values@.len(),
            s == rats_of(values@),
            all_wf(values@),
            one.wf(),
            one@ == rat_one(),
            forall|k: int|
                0 <= k < i ==> !rat_lt(#[trigger] s[k], rat_zero()) && !rat_lt(rat_one(), s[k]),
        decreases values@.len() - i,
    {
        let x = values[i];
        if x.num < 0 {
            assert(rat_lt(s[i as int], rat_zero()));
            return true;
        }
        if one.lt(&x) {
            assert(rat_lt(rat_one(), s[i as int]));
            return true;
        }
        i += 1;
    }
    false
}

/// Whether two strings hold the same characters.
fn same_kind(kind: &str, target: &str) -> (r: bool)
    ensures
        r == (kind@ == target@),
{
    let a = kind.to_owned();
    let b = target.to_owned();
    a == b
}

/// Performs a Pearson's chi-squared test.  `test_type` selects the test of
/// independence (`"toi"`, on a rectangular two-dimensional grid, without
/// probabilities) or the goodness-of-fit test (`"gof"`, on a one-dimensional
/// sequence with expected probabilities); any mismatch between kind, matrix
/// shape and probability presence is fatal, as are an empty or ragged matrix,
/// negative entries, probabilities outside [0, 1], mismatched lengths,
/// degrees of freedom below one, and expected frequencies of zero.
pub fn test(
    test_type: &str,
    observed_matrix: Matrix,
    gof_probabilities: Option<Vec<Ratio>>,
) -> (r: Result<ChiSquareResult, HyteError>)
    requires
        observed_matrix matches Matrix::TwoDimensional(m) ==> grid_all_wf(m@),
        observed_matrix matches Matrix::OneDimensional(v) ==> all_wf(v@),
        gof_probabilities matches Some(p) ==> all_wf(p@),
    ensures
        (r matches Err(e) && e == HyteError::UnknownTestKind) <==> (test_type@ != "toi"@
            && test_type@ != "gof"@),
        (r matches Err(e) && e == HyteError::ShapeMismatch) <==> ((test_type@ == "toi"@
            && (observed_matrix matches Matrix::OneDimensional(_))) || (test_type@ == "gof"@
            && (observed_matrix matches Matrix::TwoDimensional(_)))),
        (r matches Err(e) && e == HyteError::UnexpectedProbabilities) <==> (test_type@ == "toi"@
            && (observed_matrix matches Matrix::TwoDimensional(_)) && gof_probabilities is Some),
        (r matches Err(e) && e == HyteError::MissingProbabilities) <==> (test_type@ == "gof"@
            && (observed_matrix matches Matrix::OneDimensional(_)) && gof_probabilities is None),
        (r matches Err(e) && e == HyteError::EmptyMatrix) <==> ((test_type@ == "toi"@
            && gof_probabilities is None && (observed_matrix matches Matrix::TwoDimensional(m)
            && (m@.len() == 0 || (!grid_has_negative(grid_rats(m@)) && !grid_ragged(grid_rats(m@))
            && m@.len() >= 1 && m@[0]@.len() == 0)))) || (test_type@ == "gof"@
            && gof_probabilities is Some && (observed_matrix matches Matrix::OneDimensional(v)
            && v@.len() == 0))),
        (r matches Err(e) && e == HyteError::NegativeEntry) <==> ((test_type@ == "toi"@
            && gof_probabilities is None && (observed_matrix matches Matrix::TwoDimensional(m)
            && m@.len() >= 1 && grid_has_negative(grid_rats(m@)))) || (test_type@ == "gof"@
            && gof_probabilities is Some && (observed_matrix matches Matrix::OneDimensional(v)
            && v@.len() >= 1 && seq_has_negative(rats_of(v@))))),
        (r matches Err(e) && e == HyteError::RaggedRows) <==> (test_type@ == "toi"@
            && gof_probabilities is None && (observed_matrix matches Matrix::TwoDimensional(m)
            && m@.len() >= 1 && !grid_has_negative(grid_rats(m@)) && grid_ragged(grid_rats(m@)))),
        (r matches Err(e) && e == HyteError::ProbabilityOutOfRange) <==> (test_type@ == "gof"@
            && (observed_matrix matches Matrix::OneDimensional(v) && v@.len() >= 1
            && !seq_has_negative(rats_of(v@))) && (gof_probabilities matches Some(p)
            && seq_out_of_unit(rats_of(p@)))),
        (r matches Err(e) && e == HyteError::LengthMismatch) <==> (test_type@ == "gof"@
            && (observed_matrix matches Matrix::OneDimensional(v) && v@.len() >= 1
            && !seq_has_negative(rats_of(v@)) && (gof_probabilities matches Some(p)
            && !seq_out_of_unit(rats_of(p@)) && p@.len() != v@.len()))),
        (r matches Err(e) && e == HyteError::NonPositiveDegreesOfFreedom) <==> ((test_type@
            == "toi"@ && gof_probabilities is None && (observed_matrix matches
            Matrix::TwoDimensional(m) && m@.len() >= 1 && !grid_has_negative(grid_rats(m@))
            && !grid_ragged(grid_rats(m@)) && m@[0]@.len() >= 1 && (m@.len() == 1
            || m@[0]@.len() == 1))) || (test_type@ == "gof"@ && (observed_matrix matches
            Matrix::OneDimensional(v) && v@.len() == 1 && !seq_has_negative(rats_of(v@))
            && (gof_probabilities matches Some(p) && !seq_out_of_unit(rats_of(p@))
            && p@.len() == v@.len())))),
        (r matches Err(e) && e == HyteError::ZeroExpectedFrequency) ==> ((observed_matrix matches
            Matrix::TwoDimensional(m) ==> (rat_eq(grand_total(grid_rats(m@)), rat_zero()) || (
            exists|i: int, j: int|
                0 <= i < m@.len() && 0 <= j < m@[0]@.len() && rat_eq(
                    #[trigger] toi_expected(grid_rats(m@), i, j),
                    rat_zero(),
                )))) && (observed_matrix matches Matrix::OneDimensional(v) ==> (
            gof_probabilities matches Some(p) && (exists|i: int|
                0 <= i < v@.len() && rat_eq(
                    #[trigger] gof_expected(rats_of(v@), rats_of(p@), i),
                    rat_zero(),
                ))))),
        r is Ok <==> ((test_type@ == "toi"@ && gof_probabilities is None && (observed_matrix
            matches Matrix::TwoDimensional(m) && m@.len() >= 2 && !grid_has_negative(
            grid_rats(m@),
        ) && !grid_ragged(grid_rats(m@)) && m@[0]@.len() >= 2 && toi_succeeds(
            grid_rats(m@),
            m@[0]@.len() as int,
        ))) || (test_type@ == "gof"@ && (observed_matrix matches Matrix::OneDimensional(v)
            && v@.len() >= 2 && !seq_has_negative(rats_of(v@)) && (gof_probabilities matches
            Some(p) && !seq_out_of_unit(rats_of(p@)) && p@.len() == v@.len() && gof_succeeds(
            rats_of(v@),
            rats_of(p@),
        ))))),
        (r matches Err(e) && e == HyteError::Overflow) <==> ((test_type@ == "toi"@
            && gof_probabilities is None && (observed_matrix matches Matrix::TwoDimensional(m)
            && m@.len() >= 2 && !grid_has_negative(grid_rats(m@)) && !grid_ragged(grid_rats(m@))
            && m@[0]@.len() >= 2 && (m@.len() > 0x7fff || m@[0]@.len() > 0x7fff || !totals_fits(
            grid_rats(m@),
            m@[0]@.len() as int,
        ) || (!toi_zero_expected(grid_rats(m@), m@[0]@.len() as int) && !toi_arith_fits(
            grid_rats(m@),
            m@[0]@.len() as int,
        ))))) || (test_type@ == "gof"@ && (observed_matrix matches Matrix::OneDimensional(v)
            && v@.len() >= 2 && !seq_has_negative(rats_of(v@)) && (gof_probabilities matches
            Some(p) && !seq_out_of_unit(rats_of(p@)) && p@.len() == v@.len() && (v@.len()
            > 0x7fff_ffff_ffff_ffff || !sum_fits(rats_of(v@), v@.len() as int) || (
        !gof_zero_expected(rats_of(v@), rats_of(p@)) && !gof_arith_fits(
            rats_of(v@),
            rats_of(p@),
        ))))))),
        r matches Ok(res) ==> ((observed_matrix matches Matrix::TwoDimensional(m) ==> {
            &&& test_type@ == "toi"@
            &&& m@.len() >= 2
            &&& m@[0]@.len() >= 2
            &&& res.statistic.wf()
            &&& res.statistic.num >= 0
            &&& res.p.wf()
            &&& res.statistic@ == toi_stat_acc_rep(grid_rats(m@), m@[0]@.len() as int, m@.len() as int)
            &&& rat_eq(res.statistic@, toi_stat(grid_rats(m@), m@[0]@.len() as int))
            &&& res.df == (m@.len() - 1) * (m@[0]@.len() - 1)
            &&& res.p@ == chi_p_rat(res.df as int, res.statistic@)
            &&& res.test_type@ == "Pearson's Chi-squared Test of Independence"@
        }) && (observed_matrix matches Matrix::OneDimensional(v) ==> {
            &&& test_type@ == "gof"@
            &&& v@.len() >= 2
            &&& res.statistic.wf()
            &&& res.statistic.num >= 0
            &&& res.p.wf()
            &&& gof_probabilities matches Some(p) && res.statistic@ == gof_acc_rep(
                rats_of(v@),
                rats_of(p@),
                v@.len() as int,
            ) && rat_eq(res.statistic@, gof_stat(rats_of(v@), rats_of(p@)))
            &&& res.df == v@.len() - 1
            &&& res.p@ == chi_p_rat(res.df as int, res.statistic@)
            &&& res.test_type@ == "Pearson's Chi-squared Goodness Of Fit"@
        })),
        r matches Err(e) ==> (e == HyteError::UnknownTestKind || e == HyteError::ShapeMismatch
            || e == HyteError::UnexpectedProbabilities || e == HyteError::MissingProbabilities
            || e == HyteError::EmptyMatrix || e == HyteError::NegativeEntry
            || e == HyteError::RaggedRows || e == HyteError::ProbabilityOutOfRange
            || e == HyteError::LengthMismatch || e == HyteError::NonPositiveDegreesOfFreedom
            || e == HyteError::ZeroExpectedFrequency || e == HyteError::Overflow),
{
    proof {
        reveal_strlit("toi");
        reveal_strlit("gof");
        assert(("toi"@)[0] == 't');
        assert(("gof"@)[0] == 'g');
        assert("toi"@ != "gof"@);
    }
    if same_kind(test_type, "toi") {
        match observed_matrix {
            Matrix::TwoDimensional(m) => {
                if gof_probabilities.is_some() {
                    return Err(HyteError::UnexpectedProbabilities);
                }
                if m.len() == 0 {
                    return Err(HyteError::EmptyMatrix);
                }
                proof {
                    lemma_grid_wf(m@);
                }
                if contains_negative(&m) {
                    return Err(HyteError::NegativeEntry);
                }
                if has_different_rows(&m) {
                    return Err(HyteError::RaggedRows);
                }
                if m[0].len() == 0 {
                    return Err(HyteError::EmptyMatrix);
                }
                proof {
                    let g = grid_rats(m@);
                    assert forall|i: int| 0 <= i < g.len() implies (#[trigger] g[i]).len()
                        == m@[0]@.len() by {
                        assert(!(g[i].len() != g[0].len()));
                    }
                }
                toi(&m)
            },
            Matrix::OneDimensional(_) => Err(HyteError::ShapeMismatch),
        }
    } else if same_kind(test_type, "gof") {
        match observed_matrix {
            Matrix::OneDimensional(v) => {
                match gof_probabilities {
                    None => Err(HyteError::MissingProbabilities),
                    Some(probs) => {
                        if v.len() == 0 {
                            return Err(HyteError::EmptyMatrix);
                        }
                        if vec_has_negative(&v) {
                            return Err(HyteError::NegativeEntry);
                        }
                        if vec_out_of_unit(&probs) {
                            return Err(HyteError::ProbabilityOutOfRange);
                        }
                        if probs.len() != v.len() {
                            return Err(HyteError::LengthMismatch);
                        }
                        gof(&v, &probs)
                    },
                }
            },
            Matrix::TwoDimensional(_) => Err(HyteError::ShapeMismatch),
        }
    } else {
        Err(HyteError::UnknownTestKind)
    }
}

impl ChiSquareResult {
    pub open spec fn wf(self) -> bool {
        self.statistic.wf() && self.p.wf()
    }

    /// Rejects the null hypothesis exactly when the p-value is below the
    /// given significance level.
    pub fn conclude(&self, significance_level: Ratio) -> (c: Conclusion)
        requires
            self.p.wf(),
            significance_level.wf(),
        ensures
            c == (if rat_lt(self.p@, significance_level@) {
                Conclusion::Reject
            } else {
                Conclusion::DoNotReject
            }),
    {
        if self.p.lt(&significance_level) {
            Conclusion::Reject
        } else {
            Conclusion::DoNotReject
        }
    }

    /// Rejects the null hypothesis exactly when the p-value is below the
    /// conventional significance level of one twentieth.
    pub fn conclude_by_convention(&self) -> (c: Conclusion)
        requires
            self.p.wf(),
        ensures
            c == (if rat_lt(self.p@, (Rat { n: 1, d: 20 })) {
                Conclusion::Reject
            } else {
                Conclusion::DoNotReject
            }),
    {
        self.conclude(Ratio { num: 1, den: 20 })
    }
}

} // verus!
