//! The seam search: a dynamic program over an energy map.
//!
//! A seam crosses the map along one axis.  Its *lines* are the rows it
//! passes through (for a vertical seam) or the columns (for a horizontal
//! one), and on each line it picks one *position*.  All definitions here
//! are written once, over lines and positions, and serve both axes.

use vstd::prelude::*;
use crate::axis::Axis;

verus! {

/// A rectangular map with at least one row and one column.
pub open spec fn is_grid(grid: Seq<Seq<i32>>) -> bool {
    &&& grid.len() >= 1
    &&& grid[0].len() >= 1
    &&& forall|y: int| 0 <= y < grid.len() ==> (#[trigger] grid[y]).len() == grid[0].len()
}

/// The number of lines a seam of this axis passes through.
pub open spec fn seam_length(grid: Seq<Seq<i32>>, axis: Axis) -> int {
    match axis {
        Axis::Vertical => grid.len() as int,
        Axis::Horizontal => grid[0].len() as int,
    }
}

/// The number of positions on each line.
pub open spec fn seam_span(grid: Seq<Seq<i32>>, axis: Axis) -> int {
    match axis {
        Axis::Vertical => grid[0].len() as int,
        Axis::Horizontal => grid.len() as int,
    }
}

/// The energy at position `pos` of line `line`.
pub open spec fn cell(grid: Seq<Seq<i32>>, axis: Axis, line: int, pos: int) -> int {
    match axis {
        Axis::Vertical => grid[line][pos] as int,
        Axis::Horizontal => grid[pos][line] as int,
    }
}

/// The neighbour of `pos` on the line `prev` that a seam through `pos`
/// comes from: the one with the least value among `pos - 1`, `pos` and
/// `pos + 1`, as far as they exist.  Among equal values the straight
/// neighbour `pos` wins, then the lower index.
pub open spec fn predecessor(prev: Seq<int>, pos: int) -> int {
    let low = if pos > 0 && prev[pos - 1] < prev[pos] {
        pos - 1
    } else {
        pos
    };
    if pos + 1 < prev.len() && prev[pos + 1] < prev[low] {
        pos + 1
    } else {
        low
    }
}

/// The cumulative energies of line `line`: at each position the least
/// total energy of a connected path that starts on line 0 and ends there.
pub open spec fn cumulative(grid: Seq<Seq<i32>>, axis: Axis, line: int) -> Seq<int>
    decreases line,
{
    if line <= 0 {
        Seq::new(seam_span(grid, axis) as nat, |pos: int| cell(grid, axis, 0, pos))
    } else {
        let prev = cumulative(grid, axis, line - 1);
        Seq::new(
            seam_span(grid, axis) as nat,
            |pos: int| cell(grid, axis, line, pos) + prev[predecessor(prev, pos)],
        )
    }
}

/// The index of the least value among the first `upto` of `values`; among
/// equal values, the lowest index.
pub open spec fn first_min_index(values: Seq<int>, upto: int) -> int
    decreases upto,
{
    if upto <= 1 {
        0
    } else {
        let best = first_min_index(values, upto - 1);
        if values[upto - 1] < values[best] {
            upto - 1
        } else {
            best
        }
    }
}

/// The position of the minimum-energy seam on line `line`: on the last
/// line the first least cumulative energy, on every other line the
/// predecessor of the position on the line after it.
pub open spec fn seam_position(grid: Seq<Seq<i32>>, axis: Axis, line: int) -> int
    decreases seam_length(grid, axis) - line,
{
    if line >= seam_length(grid, axis) - 1 {
        let last = cumulative(grid, axis, seam_length(grid, axis) - 1);
        first_min_index(last, last.len() as int)
    } else {
        predecessor(cumulative(grid, axis, line), seam_position(grid, axis, line + 1))
    }
}

/// The minimum-energy seam of `grid` along `axis`.
pub open spec fn min_seam(grid: Seq<Seq<i32>>, axis: Axis) -> Seq<int> {
    Seq::new(seam_length(grid, axis) as nat, |line: int| seam_position(grid, axis, line))
}

/// A path that picks one position on every line and moves by at most one
/// position from each line to the next.
pub open spec fn is_connected_path(grid: Seq<Seq<i32>>, axis: Axis, path: Seq<int>) -> bool {
    &&& path.len() == seam_length(grid, axis)
    &&& forall|line: int|
        0 <= line < path.len() ==> 0 <= #[trigger] path[line] < seam_span(grid, axis)
    &&& forall|line: int|
        0 <= line < path.len() - 1 ==> -1 <= #[trigger] path[line + 1] - path[line] <= 1
}

/// The total energy of the first `upto` lines of `path`.
pub open spec fn path_cost(grid: Seq<Seq<i32>>, axis: Axis, path: Seq<int>, upto: int) -> int
    decreases upto,
{
    if upto <= 0 {
        0
    } else {
        path_cost(grid, axis, path, upto - 1) + cell(grid, axis, upto - 1, path[upto - 1])
    }
}

/// The total energy of `path` over all its lines.
pub open spec fn total_cost(grid: Seq<Seq<i32>>, axis: Axis, path: Seq<int>) -> int {
    path_cost(grid, axis, path, seam_length(grid, axis))
}

/// The least cumulative energy on the last line: the value the dynamic
/// program ends on.
pub open spec fn endpoint_value(grid: Seq<Seq<i32>>, axis: Axis) -> int {
    let last = seam_length(grid, axis) - 1;
    cumulative(grid, axis, last)[seam_position(grid, axis, last)]
}

/// The values of a table row as integers.
pub open spec fn widen(row: Seq<i64>) -> Seq<int> {
    Seq::new(row.len(), |pos: int| row[pos] as int)
}

/// The entries of a seam as integers.
pub open spec fn seam_indices(seam: Seq<usize>) -> Seq<int> {
    Seq::new(seam.len(), |line: int| seam[line] as int)
}

/// Every line of cumulative energies has one entry per position.
pub proof fn lemma_cumulative_len(grid: Seq<Seq<i32>>, axis: Axis, line: int)
    requires
        is_grid(grid),
    ensures
        cumulative(grid, axis, line).len() == seam_span(grid, axis),
{
}

/// The predecessor of a position lies on the line and next to it, and no
/// neighbour of the position has a smaller value.
pub proof fn lemma_predecessor(prev: Seq<int>, pos: int)
    requires
        0 <= pos < prev.len(),
    ensures
        0 <= predecessor(prev, pos) < prev.len(),
        pos - 1 <= predecessor(prev, pos) <= pos + 1,
        forall|other: int|
            0 <= other < prev.len() && pos - 1 <= other <= pos + 1 ==> prev[predecessor(
                prev,
                pos,
            )] <= #[trigger] prev[other],
{
}

/// The first minimum lies among the values scanned, nothing scanned is
/// smaller, and everything before it is larger.
pub proof fn lemma_first_min_index(values: Seq<int>, upto: int)
    requires
        1 <= upto <= values.len(),
    ensures
        0 <= first_min_index(values, upto) < upto,
        forall|other: int|
            0 <= other < upto ==> values[first_min_index(values, upto)] <= #[trigger] values[other],
        forall|other: int|
            0 <= other < first_min_index(values, upto) ==> values[first_min_index(values, upto)]
                < #[trigger] values[other],
    decreases upto,
{
    if upto > 1 {
        lemma_first_min_index(values, upto - 1);
    }
}

/// A cumulative energy on line `line` is a sum of `line + 1` energies, each
/// of which fits in 32 bits.
pub proof fn lemma_cumulative_bounds(grid: Seq<Seq<i32>>, axis: Axis, line: int, pos: int)
    requires
        is_grid(grid),
        0 <= line < seam_length(grid, axis),
        0 <= pos < seam_span(grid, axis),
    ensures
        -(line + 1) * 0x8000_0000 <= cumulative(grid, axis, line)[pos] <= (line + 1) * 0x8000_0000,
    decreases line,
{
    if line > 0 {
        let prev = cumulative(grid, axis, line - 1);
        lemma_cumulative_len(grid, axis, line - 1);
        lemma_predecessor(prev, pos);
        lemma_cumulative_bounds(grid, axis, line - 1, predecessor(prev, pos));
    }
}

/// Every entry of the minimum-energy seam is a position of its line.
pub proof fn lemma_seam_position_in_span(grid: Seq<Seq<i32>>, axis: Axis, line: int)
    requires
        is_grid(grid),
        0 <= line < seam_length(grid, axis),
    ensures
        0 <= seam_position(grid, axis, line) < seam_span(grid, axis),
    decreases seam_length(grid, axis) - line,
{
    if line >= seam_length(grid, axis) - 1 {
        let last = cumulative(grid, axis, seam_length(grid, axis) - 1);
        lemma_cumulative_len(grid, axis, seam_length(grid, axis) - 1);
        lemma_first_min_index(last, last.len() as int);
    } else {
        lemma_seam_position_in_span(grid, axis, line + 1);
        lemma_cumulative_len(grid, axis, line);
        lemma_predecessor(cumulative(grid, axis, line), seam_position(grid, axis, line + 1));
    }
}

/// The minimum-energy seam is a connected path: it has one entry per line,
/// every entry is a position of its line, and neighbouring entries differ
/// by at most one.
pub proof fn lemma_min_seam_is_connected(grid: Seq<Seq<i32>>, axis: Axis)
    requires
        is_grid(grid),
    ensures
        is_connected_path(grid, axis, min_seam(grid, axis)),
{
    let seam = min_seam(grid, axis);
    assert forall|line: int| 0 <= line < seam.len() implies 0 <= #[trigger] seam[line] < seam_span(
        grid,
        axis,
    ) by {
        lemma_seam_position_in_span(grid, axis, line);
    }
    assert forall|line: int| 0 <= line < seam.len() - 1 implies -1 <= #[trigger] seam[line + 1]
        - seam[line] <= 1 by {
        lemma_seam_position_in_span(grid, axis, line + 1);
        lemma_cumulative_len(grid, axis, line);
        lemma_predecessor(cumulative(grid, axis, line), seam_position(grid, axis, line + 1));
    }
}

/// Along the minimum-energy seam the energies of the first `line + 1`
/// lines add up to the cumulative energy at the seam's position on line
/// `line`.
pub proof fn lemma_seam_prefix_cost(grid: Seq<Seq<i32>>, axis: Axis, line: int)
    requires
        is_grid(grid),
        0 <= line < seam_length(grid, axis),
    ensures
        path_cost(grid, axis, min_seam(grid, axis), line + 1) == cumulative(
            grid,
            axis,
            line,
        )[seam_position(grid, axis, line)],
    decreases line,
{
    let seam = min_seam(grid, axis);
    lemma_seam_position_in_span(grid, axis, line);
    assert(path_cost(grid, axis, seam, 0) == 0);
    if line > 0 {
        lemma_seam_prefix_cost(grid, axis, line - 1);
        lemma_cumulative_len(grid, axis, line - 1);
    }
}

/// No connected path reaches a position more cheaply than the cumulative
/// energy there.
pub proof fn lemma_cumulative_is_lower_bound(
    grid: Seq<Seq<i32>>,
    axis: Axis,
    path: Seq<int>,
    line: int,
)
    requires
        is_grid(grid),
        is_connected_path(grid, axis, path),
        0 <= line < seam_length(grid, axis),
    ensures
        cumulative(grid, axis, line)[path[line]] <= path_cost(grid, axis, path, line + 1),
    decreases line,
{
    assert(path_cost(grid, axis, path, 0) == 0);
    if line > 0 {
        let prev = cumulative(grid, axis, line - 1);
        lemma_cumulative_is_lower_bound(grid, axis, path, line - 1);
        lemma_cumulative_len(grid, axis, line - 1);
        lemma_predecessor(prev, path[line]);
    }
}

/// The energies along the minimum-energy seam add up to the value the
/// dynamic program ends on, and that value is the least on the last line.
pub proof fn lemma_min_seam_cost(grid: Seq<Seq<i32>>, axis: Axis)
    requires
        is_grid(grid),
    ensures
        total_cost(grid, axis, min_seam(grid, axis)) == endpoint_value(grid, axis),
        forall|pos: int|
            0 <= pos < seam_span(grid, axis) ==> endpoint_value(grid, axis) <= #[trigger] cumulative(
                grid,
                axis,
                seam_length(grid, axis) - 1,
            )[pos],
{
    let last = seam_length(grid, axis) - 1;
    lemma_seam_prefix_cost(grid, axis, last);
    lemma_cumulative_len(grid, axis, last);
    lemma_first_min_index(cumulative(grid, axis, last), seam_span(grid, axis));
}

/// The minimum-energy seam costs no more than any connected path across
/// the same map.
pub proof fn lemma_min_seam_is_optimal(grid: Seq<Seq<i32>>, axis: Axis, path: Seq<int>)
    requires
        is_grid(grid),
        is_connected_path(grid, axis, path),
    ensures
        total_cost(grid, axis, min_seam(grid, axis)) <= total_cost(grid, axis, path),
{
    let last = seam_length(grid, axis) - 1;
    lemma_min_seam_cost(grid, axis);
    lemma_cumulative_is_lower_bound(grid, axis, path, last);
}

/// The number of lines a seam along `axis` passes through.
fn line_count(energy_map: &Vec<Vec<i32>>, axis: Axis) -> (lines: usize)
    requires
        is_grid(energy_map.deep_view()),
    ensures
        lines == seam_length(energy_map.deep_view(), axis),
        lines >= 1,
{
    match axis {
        Axis::Vertical => energy_map.len(),
        Axis::Horizontal => energy_map[0].len(),
    }
}

/// The number of positions on each line of a seam along `axis`.
fn span_count(energy_map: &Vec<Vec<i32>>, axis: Axis) -> (span: usize)
    requires
        is_grid(energy_map.deep_view()),
    ensures
        span == seam_span(energy_map.deep_view(), axis),
        span >= 1,
{
    match axis {
        Axis::Vertical => energy_map[0].len(),
        Axis::Horizontal => energy_map.len(),
    }
}

/// Reads the energy at position `pos` of line `line`.
fn cell_at(energy_map: &Vec<Vec<i32>>, axis: Axis, line: usize, pos: usize) -> (energy: i32)
    requires
        is_grid(energy_map.deep_view()),
        line < seam_length(energy_map.deep_view(), axis),
        pos < seam_span(energy_map.deep_view(), axis),
    ensures
        energy == cell(energy_map.deep_view(), axis, line as int, pos as int),
{
    let ghost grid = energy_map.deep_view();
    match axis {
        Axis::Vertical => {
            assert(grid[line as int].len() == grid[0].len());
            energy_map[line][pos]
        },
        Axis::Horizontal => {
            assert(grid[pos as int].len() == grid[0].len());
            energy_map[pos][line]
        },
    }
}

/// Picks the neighbour of `pos` on the line `prev` that a seam through
/// `pos` comes from.
fn step_back(prev: &Vec<i64>, pos: usize) -> (from: usize)
    requires
        pos < prev.len(),
    ensures
        from == predecessor(widen(prev@), pos as int),
        from < prev.len(),
{
    let mut from: usize = pos;
    if pos > 0 && prev[pos - 1] < prev[from] {
        from = pos - 1;
    }
    if pos < prev.len() - 1 && prev[pos + 1] < prev[from] {
        from = pos + 1;
    }
    from
}

/// Finds the first least value of a line.
fn first_min(row: &Vec<i64>) -> (best: usize)
    requires
        row.len() >= 1,
    ensures
        best == first_min_index(widen(row@), row.len() as int),
        best < row.len(),
{
    let mut best: usize = 0;
    let mut pos: usize = 1;
    while pos < row.len()
        invariant
            1 <= pos <= row.len(),
            best < pos,
            best == first_min_index(widen(row@), pos as int),
        decreases row.len() - pos,
    {
        if row[pos] < row[best] {
            best = pos;
        }
        pos += 1;
    }
    best
}

/// Computes one line of the table of cumulative energies from the line
/// before it.
fn cumulative_line(energy_map: &Vec<Vec<i32>>, axis: Axis, table: &Vec<Vec<i64>>) -> (row: Vec<i64>)
    requires
        is_grid(energy_map.deep_view()),
        seam_length(energy_map.deep_view(), axis) <= u32::MAX,
        table.len() < seam_length(energy_map.deep_view(), axis),
        forall|done: int|
            0 <= done < table.len() ==> widen((#[trigger] table[done])@) == cumulative(
                energy_map.deep_view(),
                axis,
                done,
            ),
    ensures
        widen(row@) == cumulative(energy_map.deep_view(), axis, table.len() as int),
{
    let ghost grid = energy_map.deep_view();
    let line: usize = table.len();
    let span: usize = span_count(energy_map, axis);
    let mut row: Vec<i64> = Vec::new();
    let mut pos: usize = 0;
    proof {
        lemma_cumulative_len(grid, axis, line as int);
        if line > 0 {
            lemma_cumulative_len(grid, axis, line - 1);
        }
    }
    while pos < span
        invariant
            is_grid(grid),
            grid == energy_map.deep_view(),
            line == table.len(),
            line < seam_length(grid, axis) <= u32::MAX,
            span == seam_span(grid, axis),
            pos <= span,
            row.len() == pos,
            line > 0 ==> widen(table[line - 1]@) == cumulative(grid, axis, line - 1),
            line > 0 ==> table[line - 1]@.len() == span,
            forall|p: int| 0 <= p < pos ==> row[p] as int == cumulative(grid, axis, line as int)[p],
        decreases span - pos,
    {
        let energy: i64 = cell_at(energy_map, axis, line, pos) as i64;
        let value: i64 = if line == 0 {
            energy
        } else {
            let prev: &Vec<i64> = &table[line - 1];
            let from: usize = step_back(prev, pos);
            proof {
                lemma_cumulative_bounds(grid, axis, line - 1, from as int);
            }
            energy + prev[from]
        };
        row.push(value);
        pos += 1;
    }
    row
}

/// Computes the table of cumulative energies, line by line.
fn cumulative_table(energy_map: &Vec<Vec<i32>>, axis: Axis) -> (table: Vec<Vec<i64>>)
    requires
        is_grid(energy_map.deep_view()),
        seam_length(energy_map.deep_view(), axis) <= u32::MAX,
    ensures
        table.len() == seam_length(energy_map.deep_view(), axis),
        forall|line: int|
            0 <= line < table.len() ==> widen((#[trigger] table[line])@) == cumulative(
                energy_map.deep_view(),
                axis,
                line,
            ),
{
    let lines: usize = line_count(energy_map, axis);
    let mut table: Vec<Vec<i64>> = Vec::new();
    while table.len() < lines
        invariant
            is_grid(energy_map.deep_view()),
            lines == seam_length(energy_map.deep_view(), axis),
            lines <= u32::MAX,
            table.len() <= lines,
            forall|line: int|
                0 <= line < table.len() ==> widen((#[trigger] table[line])@) == cumulative(
                    energy_map.deep_view(),
                    axis,
                    line,
                ),
        decreases lines - table.len(),
    {
        let row: Vec<i64> = cumulative_line(energy_map, axis, &table);
        table.push(row);
    }
    table
}

/// Finds the minimum-energy seam of `energy_map` along `axis`.
///
/// The result holds one position per line.  It is the seam that the
/// dynamic program determines: it ends on the first least cumulative energy
/// of the last line and steps back from there, preferring the straight
/// neighbour and then the lower index among equally cheap ones.  The seam is
/// connected, its energies add up to the value the dynamic program ends on,
/// and no connected path across the map is cheaper.
///
/// Cumulative energies are held in 64 bits, which is why a seam may pass
/// through at most `u32::MAX` lines.
pub fn find_min_seam(energy_map: &Vec<Vec<i32>>, axis: Axis) -> (seam: Vec<usize>)
    requires
        is_grid(energy_map.deep_view()),
        seam_length(energy_map.deep_view(), axis) <= u32::MAX,
    ensures
        seam.len() == seam_length(energy_map.deep_view(), axis),
        seam_indices(seam@) == min_seam(energy_map.deep_view(), axis),
        is_connected_path(energy_map.deep_view(), axis, seam_indices(seam@)),
        total_cost(energy_map.deep_view(), axis, seam_indices(seam@)) == endpoint_value(
            energy_map.deep_view(),
            axis,
        ),
        forall|path: Seq<int>| #[trigger]
            is_connected_path(energy_map.deep_view(), axis, path) ==> total_cost(
                energy_map.deep_view(),
                axis,
                seam_indices(seam@),
            ) <= total_cost(energy_map.deep_view(), axis, path),
{
    let ghost grid = energy_map.deep_view();
    let lines: usize = line_count(energy_map, axis);
    let table: Vec<Vec<i64>> = cumulative_table(energy_map, axis);
    proof {
        lemma_cumulative_len(grid, axis, lines - 1);
    }
    let end: usize = first_min(&table[lines - 1]);
    let mut seam: Vec<usize> = Vec::new();
    while seam.len() < lines
        invariant
            seam.len() <= lines,
            forall|k: int| 0 <= k < seam.len() ==> seam[k] == end,
        decreases lines - seam.len(),
    {
        seam.push(end);
    }
    let mut line: usize = lines - 1;
    while line > 0
        invariant
            is_grid(grid),
            lines == seam_length(grid, axis),
            line < lines,
            seam.len() == lines,
            table.len() == lines,
            forall|k: int|
                0 <= k < table.len() ==> widen((#[trigger] table[k])@) == cumulative(grid, axis, k),
            forall|k: int| line <= k < lines ==> seam[k] as int == seam_position(grid, axis, k),
        decreases line,
    {
        proof {
            lemma_cumulative_len(grid, axis, line - 1);
            lemma_seam_position_in_span(grid, axis, line as int);
        }
        let from: usize = step_back(&table[line - 1], seam[line]);
        seam.set(line - 1, from);
        line -= 1;
    }
    proof {
        assert(seam_indices(seam@) =~= min_seam(grid, axis));
        lemma_min_seam_is_connected(grid, axis);
        lemma_min_seam_cost(grid, axis);
        assert forall|path: Seq<int>| #[trigger] is_connected_path(grid, axis, path) implies total_cost(
            grid,
            axis,
            min_seam(grid, axis),
        ) <= total_cost(grid, axis, path) by {
            lemma_min_seam_is_optimal(grid, axis, path);
        }
    }
    seam
}

/// Finds the minimum-energy vertical seam: for every row of `energy_map`
/// the column of the pixel to remove.
pub fn find_low_energy_seam_width(energy_map: &Vec<Vec<i32>>) -> (seam: Vec<usize>)
    requires
        is_grid(energy_map.deep_view()),
        energy_map.len() <= u32::MAX,
    ensures
        seam.len() == energy_map.len(),
        seam_indices(seam@) == min_seam(energy_map.deep_view(), Axis::Vertical),
        is_connected_path(energy_map.deep_view(), Axis::Vertical, seam_indices(seam@)),
        total_cost(energy_map.deep_view(), Axis::Vertical, seam_indices(seam@)) == endpoint_value(
            energy_map.deep_view(),
            Axis::Vertical,
        ),
        forall|path: Seq<int>| #[trigger]
            is_connected_path(energy_map.deep_view(), Axis::Vertical, path) ==> total_cost(
                energy_map.deep_view(),
                Axis::Vertical,
                seam_indices(seam@),
            ) <= total_cost(energy_map.deep_view(), Axis::Vertical, path),
{
    find_min_seam(energy_map, Axis::Vertical)
}

/// Finds the minimum-energy horizontal seam: for every column of
/// `energy_map` the row of the pixel to remove.
pub fn find_low_energy_seam_height(energy_map: &Vec<Vec<i32>>) -> (seam: Vec<usize>)
    requires
        is_grid(energy_map.deep_view()),
        energy_map[0].len() <= u32::MAX,
    ensures
        seam.len() == energy_map[0].len(),
        seam_indices(seam@) == min_seam(energy_map.deep_view(), Axis::Horizontal),
        is_connected_path(energy_map.deep_view(), Axis::Horizontal, seam_indices(seam@)),
        total_cost(energy_map.deep_view(), Axis::Horizontal, seam_indices(seam@)) == endpoint_value(
            energy_map.deep_view(),
            Axis::Horizontal,
        ),
        forall|path: Seq<int>| #[trigger]
            is_connected_path(energy_map.deep_view(), Axis::Horizontal, path) ==> total_cost(
                energy_map.deep_view(),
                Axis::Horizontal,
                seam_indices(seam@),
            ) <= total_cost(energy_map.deep_view(), Axis::Horizontal, path),
{
    find_min_seam(energy_map, Axis::Horizontal)
}

} // verus!
