//! Which windows a layout manages, and where a tile or stack layout places them.
use vstd::prelude::*;
use crate::platform::{move_resize_window, PlatformError};
use crate::models::{Bounds, LayoutMode, LayoutPreview, LayoutPreviewView, MonitorInfo, MonitorInfoView, SessionConfig,
    SessionConfigView, WindowInfo, WindowInfoView};

verus! {

broadcast use vstd::seq_lib::group_seq_properties;

/// The ids that a session manages: the primary window, then the targets, each id once, in
/// order of first appearance.
pub open spec fn managed_ids(config: SessionConfigView) -> Seq<Seq<char>> {
    (seq![config.primary_window_id] + config.target_window_ids).remove_duplicates(Seq::empty())
}

/// `s` without the elements equal to `x`, order kept.
pub open spec fn without(s: Seq<Seq<char>>, x: Seq<char>) -> Seq<Seq<char>>
    decreases s.len(),
{
    if s.len() == 0 {
        s
    } else if s.last() == x {
        without(s.drop_last(), x)
    } else {
        without(s.drop_last(), x).push(s.last())
    }
}

/// The order in which managed windows receive layout slots: as managed, except that a stack
/// of several windows places the primary window last, on top.
pub open spec fn layout_ids(config: SessionConfigView) -> Seq<Seq<char>> {
    let managed = managed_ids(config);
    if config.layout_mode != LayoutMode::Stack || managed.len() <= 1 {
        managed
    } else {
        without(managed, config.primary_window_id).push(config.primary_window_id)
    }
}

/// Whether `v` holds a string equal to `s`.
fn contains_string(v: &Vec<String>, s: &String) -> (b: bool)
    ensures
        b == v.deep_view().contains(s@),
{
    let mut i: usize = 0;
    while i < v.len()
        invariant
            i <= v@.len(),
            forall|j: int| 0 <= j < i ==> v@[j]@ != s@,
        decreases v@.len() - i,
    {
        if v[i] == *s {
            assert(v.deep_view()[i as int] == s@);
            return true;
        }
        i = i + 1;
    }
    assert forall|j: int| 0 <= j < v.deep_view().len() implies v.deep_view()[j] != s@ by {
        assert(v.deep_view()[j] == v@[j]@);
    }
    false
}

/// The ids that a session manages: the primary window, then the targets, each once.
pub fn managed_window_ids(config: &SessionConfig) -> (managed: Vec<String>)
    ensures
        managed.deep_view() == managed_ids(config@),
{
    let ghost all = seq![config@.primary_window_id] + config@.target_window_ids;
    let mut managed: Vec<String> = Vec::new();
    managed.push(config.primary_window_id.clone());
    proof {
        reveal_with_fuel(Seq::remove_duplicates, 2);
        assert(all.take(1) == seq![config@.primary_window_id]);
        assert(all.take(1).skip(1).remove_duplicates(seq![config@.primary_window_id])
            == seq![config@.primary_window_id]);
        assert(managed.deep_view() =~= seq![config@.primary_window_id]);
    }
    let mut i: usize = 0;
    while i < config.target_window_ids.len()
        invariant
            i <= config.target_window_ids@.len(),
            all == seq![config@.primary_window_id] + config@.target_window_ids,
            managed.deep_view() == all.take(i + 1).remove_duplicates(Seq::empty()),
        decreases config.target_window_ids@.len() - i,
    {
        let id = &config.target_window_ids[i];
        let ghost prefix = all.take(i + 1);
        assert(all.take(i + 2) == prefix + seq![id@]);
        proof {
            prefix.lemma_remove_duplicates_append(id@, Seq::empty());
            prefix.lemma_remove_duplicates_properties(Seq::empty());
            assert(prefix + Seq::<Seq<char>>::empty() == prefix);
        }
        if !contains_string(&managed, id) {
            managed.push(id.clone());
            assert(managed.deep_view() =~= all.take(i + 1).remove_duplicates(Seq::empty()) + seq![id@]);
        }
        i = i + 1;
    }
    assert(all.take(i + 1) == all);
    managed
}


/// The order in which managed windows receive layout slots.
pub fn layout_window_ids(config: &SessionConfig) -> (ids: Vec<String>)
    ensures
        ids.deep_view() == layout_ids(config@),
{
    let managed = managed_window_ids(config);
    if config.layout_mode != LayoutMode::Stack || managed.len() <= 1 {
        return managed;
    }
    let mut ids: Vec<String> = Vec::new();
    let mut i: usize = 0;
    while i < managed.len()
        invariant
            i <= managed@.len(),
            ids.deep_view() == without(managed.deep_view().take(i as int), config@.primary_window_id),
        decreases managed@.len() - i,
    {
        let ghost prefix = managed.deep_view().take(i + 1);
        assert(prefix.drop_last() == managed.deep_view().take(i as int));
        assert(prefix.last() == managed@[i as int]@);
        if managed[i] != config.primary_window_id {
            ids.push(managed[i].clone());
            assert(ids.deep_view() =~= without(managed.deep_view().take(i as int), config@.primary_window_id).push(managed@[i as int]@));
        }
        i = i + 1;
    }
    assert(managed.deep_view().take(i as int) == managed.deep_view());
    ids.push(config.primary_window_id.clone());
    assert(ids.deep_view() =~= without(managed.deep_view(), config@.primary_window_id).push(config@.primary_window_id));
    ids
}

/// The managed ids start with the primary window, hold no id twice, and hold exactly the
/// primary and target ids.
pub proof fn lemma_managed_ids(config: SessionConfigView)
    ensures
        managed_ids(config).len() >= 1,
        managed_ids(config)[0] == config.primary_window_id,
        managed_ids(config).no_duplicates(),
        forall|id: Seq<char>| #[trigger] managed_ids(config).contains(id) <==> (id
            == config.primary_window_id || config.target_window_ids.contains(id)),
        managed_ids(config).len() <= config.target_window_ids.len() + 1,
{
    let all = seq![config.primary_window_id] + config.target_window_ids;
    all.lemma_remove_duplicates_properties(Seq::empty());
    reveal_with_fuel(Seq::remove_duplicates, 2);
    assert(all.skip(1) == config.target_window_ids);
    lemma_remove_duplicates_prefix(config.target_window_ids, seq![config.primary_window_id]);
    lemma_remove_duplicates_distinct(config.target_window_ids, seq![config.primary_window_id]);
    assert(all + Seq::<Seq<char>>::empty() == all);
    assert forall|id: Seq<char>| #[trigger] managed_ids(config).contains(id) <==> (id
        == config.primary_window_id || config.target_window_ids.contains(id)) by {
        if all.contains(id) {
            let k = choose|k: int| 0 <= k < all.len() && all[k] == id;
            if k > 0 {
                assert(config.target_window_ids[k - 1] == id);
            }
        }
        if config.target_window_ids.contains(id) {
            let k = choose|k: int| 0 <= k < config.target_window_ids.len() && config.target_window_ids[k] == id;
            assert(all[k + 1] == id);
        }
        assert(all[0] == config.primary_window_id);
    }
}

/// What `without` keeps: the other elements, each once if they were once.
proof fn lemma_without(s: Seq<Seq<char>>, x: Seq<char>)
    ensures
        forall|y: Seq<char>| #[trigger] without(s, x).contains(y) <==> (s.contains(y) && y != x),
        s.no_duplicates() ==> without(s, x).no_duplicates(),
        s.no_duplicates() && s.contains(x) ==> without(s, x).len() + 1 == s.len(),
        !s.contains(x) ==> without(s, x) == s,
    decreases s.len(),
{
    if s.len() > 0 {
        let d = s.drop_last();
        lemma_without(d, x);
        assert(s =~= d.push(s.last()));
        if s.no_duplicates() {
            assert(d.no_duplicates());
            assert(!d.contains(s.last())) by {
                if d.contains(s.last()) {
                    let k = choose|k: int| 0 <= k < d.len() && d[k] == s.last();
                    assert(s[k] == s[s.len() - 1]);
                }
            }
        }
        assert forall|y: Seq<char>| #[trigger] without(s, x).contains(y) <==> (s.contains(y) && y != x) by {
            if s.last() != x {
                assert(without(s, x) == without(d, x).push(s.last()));
            }
        }
        if s.last() != x && s.no_duplicates() {
            let w = without(d, x);
            assert(!w.contains(s.last()));
            assert forall|i: int, j: int| 0 <= i < w.push(s.last()).len() && 0 <= j < w.push(
                s.last(),
            ).len() && i != j implies w.push(s.last())[i] != w.push(s.last())[j] by {
                if i == w.len() as int {
                    assert(w.contains(w[j]));
                } else if j == w.len() as int {
                    assert(w.contains(w[i]));
                }
            }
        }
        if !s.contains(x) {
            assert(!d.contains(x)) by {
                if d.contains(x) {
                    let k = choose|k: int| 0 <= k < d.len() && d[k] == x;
                    assert(s[k] == x);
                }
            }
            assert(s.last() != x);
        }
        if s.no_duplicates() && s.contains(x) && s.last() != x {
            assert(d.contains(x)) by {
                let k = choose|k: int| 0 <= k < s.len() && s[k] == x;
                assert(d[k] == x);
            }
        }
    }
}

/// A layout places exactly the managed windows, each once; a stack of several windows places
/// the primary window last, on top, and any other layout places it first.
pub proof fn lemma_layout_ids(config: SessionConfigView)
    ensures
        layout_ids(config).len() == managed_ids(config).len(),
        layout_ids(config).len() >= 1,
        layout_ids(config).no_duplicates(),
        forall|id: Seq<char>| #[trigger] layout_ids(config).contains(id) <==> managed_ids(config).contains(id),
        if config.layout_mode == LayoutMode::Stack && managed_ids(config).len() > 1 {
            layout_ids(config).last() == config.primary_window_id
        } else {
            layout_ids(config)[0] == config.primary_window_id
        },
{
    let managed = managed_ids(config);
    let p = config.primary_window_id;
    lemma_managed_ids(config);
    lemma_without(managed, p);
    assert(managed.contains(p)) by {
        assert(managed[0] == p);
    }
    if config.layout_mode == LayoutMode::Stack && managed.len() > 1 {
        let w = without(managed, p);
        assert(!w.contains(p));
        assert forall|i: int, j: int| 0 <= i < w.push(p).len() && 0 <= j < w.push(p).len() && i != j
            implies w.push(p)[i] != w.push(p)[j] by {
            if i == w.len() as int {
                assert(w.contains(w[j]));
            } else if j == w.len() as int {
                assert(w.contains(w[i]));
            }
        }
        assert forall|id: Seq<char>| #[trigger] layout_ids(config).contains(id) <==> managed.contains(id) by {
            assert(w.push(p).contains(id) <==> (w.contains(id) || id == p));
        }
    }
}

proof fn lemma_remove_duplicates_prefix(s: Seq<Seq<char>>, seen: Seq<Seq<char>>)
    ensures
        s.remove_duplicates(seen).len() >= seen.len(),
        s.remove_duplicates(seen).take(seen.len() as int) == seen,
    decreases s.len(),
{
    if s.len() > 0 {
        if seen.contains(s[0]) {
            lemma_remove_duplicates_prefix(s.skip(1), seen);
        } else {
            lemma_remove_duplicates_prefix(s.skip(1), seen + seq![s[0]]);
            assert((seen + seq![s[0]]).take(seen.len() as int) == seen);
            assert(s.skip(1).remove_duplicates(seen + seq![s[0]]).take(seen.len() as int)
                == (seen + seq![s[0]]).take(seen.len() as int));
        }
    } else {
        assert(seen.take(seen.len() as int) == seen);
    }
}

proof fn lemma_remove_duplicates_distinct(s: Seq<Seq<char>>, seen: Seq<Seq<char>>)
    requires
        seen.no_duplicates(),
    ensures
        s.remove_duplicates(seen).no_duplicates(),
    decreases s.len(),
{
    if s.len() > 0 {
        if seen.contains(s[0]) {
            lemma_remove_duplicates_distinct(s.skip(1), seen);
        } else {
            let seen2 = seen + seq![s[0]];
            assert forall|i: int, j: int| 0 <= i < seen2.len() && 0 <= j < seen2.len() && i != j
                implies seen2[i] != seen2[j] by {
                if i == seen.len() as int {
                    assert(seen2[j] == seen[j]);
                } else if j == seen.len() as int {
                    assert(seen2[i] == seen[i]);
                }
            }
            lemma_remove_duplicates_distinct(s.skip(1), seen2);
        }
    }
}


/// Integer division rounded toward zero, as Rust's `/` on signed integers (for `b > 0`).
pub open spec fn div_trunc(a: int, b: int) -> int {
    if a >= 0 {
        a / b
    } else {
        -((-a) / b)
    }
}

/// The smallest `c' >= c` with `c' * c' >= n` (or `c' >= n`).
pub open spec fn ceil_sqrt_from(n: nat, c: nat) -> nat
    decreases n - c,
{
    if c * c >= n || c >= n {
        c
    } else {
        ceil_sqrt_from(n, c + 1)
    }
}

/// Number of columns of a tile grid for `count` windows: the ceiling of the square root of
/// `count`, at least one.
pub open spec fn tile_cols(count: nat) -> nat {
    let c = ceil_sqrt_from(count, 0);
    if c < 1 {
        1
    } else {
        c
    }
}

/// Number of rows of a tile grid for `count` windows: enough rows of `tile_cols(count)`
/// columns, at least one.
pub open spec fn tile_rows(count: nat) -> nat {
    let cols = tile_cols(count);
    let r = (count + cols - 1) / cols as int;
    if r < 1 {
        1
    } else {
        r as nat
    }
}

/// `max(v, 1)`.
pub open spec fn at_least_one(v: int) -> int {
    if v < 1 {
        1
    } else {
        v
    }
}

/// The slot of window `index` in a `cols` by `rows` grid over `area`, filled row by row.
/// Each cell edge is the area edge plus the proportional share of its size, rounded toward
/// zero; a cell is at least one pixel wide and high.
pub open spec fn tile_slot(area: Bounds, cols: nat, rows: nat, index: nat) -> Bounds {
    let row = index / cols;
    let col = index % cols;
    let x = area.x + div_trunc(col * area.width, cols as int);
    let next_x = area.x + div_trunc((col + 1) * area.width, cols as int);
    let y = area.y + div_trunc(row * area.height, rows as int);
    let next_y = area.y + div_trunc((row + 1) * area.height, rows as int);
    Bounds {
        x: x as i32,
        y: y as i32,
        width: at_least_one(next_x - x) as i32,
        height: at_least_one(next_y - y) as i32,
    }
}

/// Whether a value fits in an `i32`.
pub open spec fn fits_i32(v: int) -> bool {
    i32::MIN <= v <= i32::MAX
}

/// What the tile arithmetic needs to stay within `i32`.
pub open spec fn tile_fits(area: Bounds, count: nat) -> bool {
    &&& count <= i32::MAX
    &&& fits_i32(tile_cols(count) * area.width)
    &&& fits_i32(tile_rows(count) * area.height)
    &&& fits_i32(area.x + area.width)
    &&& fits_i32(area.y + area.height)
}

proof fn lemma_ceil_sqrt_from(n: nat, c: nat)
    requires
        forall|k: nat| k < c ==> #[trigger] (k * k) < n,
    ensures
        ceil_sqrt_from(n, c) >= c,
        ceil_sqrt_from(n, c) * ceil_sqrt_from(n, c) >= n,
        forall|k: nat| k < ceil_sqrt_from(n, c) ==> #[trigger] (k * k) < n,
        ceil_sqrt_from(n, c) <= if n < c { c } else { n },
    decreases n - c,
{
    if c * c >= n || c >= n {
        if c >= n && c * c < n {
            assert(c * c >= c) by (nonlinear_arith)
                requires
                    c >= 1 || n == 0,
            ;
        }
    } else {
        assert forall|k: nat| k < c + 1 implies #[trigger] (k * k) < n by {
            if k == c {
            }
        }
        lemma_ceil_sqrt_from(n, c + 1);
    }
}

/// The number of tile columns is the least `c >= 1` with `c * c >= count`, and the grid has
/// room for every window.
pub proof fn lemma_tile_grid(count: nat)
    ensures
        tile_cols(count) >= 1,
        tile_cols(count) * tile_cols(count) >= count,
        forall|k: nat| 1 <= k < tile_cols(count) ==> #[trigger] (k * k) < count,
        tile_rows(count) >= 1,
        tile_rows(count) * tile_cols(count) >= count,
        count >= 1 ==> tile_cols(count) <= count,
{
    lemma_ceil_sqrt_from(count, 0);
    let cols = tile_cols(count);
    let q = (count + cols - 1) / cols as int;
    assert(q * cols >= count) by (nonlinear_arith)
        requires
            cols >= 1,
            q == (count + cols - 1) / cols as int,
    ;
    if q < 1 {
        assert(count == 0) by (nonlinear_arith)
            requires
                cols >= 1,
                q == (count + cols - 1) / cols as int,
                q < 1,
        ;
    }
}

/// With at least one pixel per cell, consecutive shares of `w` split into `n` cells differ by
/// at least one, and stay within `[0, w]`.
proof fn lemma_cell_edges(c: int, n: int, w: int)
    requires
        0 <= c < n,
        w >= n,
    ensures
        0 <= (c * w) / n,
        (c * w) / n + 1 <= ((c + 1) * w) / n,
        ((c + 1) * w) / n <= w,
{
    assert(0 <= c * w) by (nonlinear_arith)
        requires
            0 <= c,
            w >= 0,
    ;
    assert((c + 1) * w == c * w + w) by (nonlinear_arith);
    assert(0 <= (c * w) / n) by (nonlinear_arith)
        requires
            0 <= c * w,
            n > 0,
    ;
    let q1 = (c * w) / n;
    let q2 = w / n;
    assert(q1 * n <= c * w) by (nonlinear_arith)
        requires
            q1 == (c * w) / n,
            n > 0,
            c * w >= 0,
    ;
    assert(q2 * n <= w && q2 >= 1) by (nonlinear_arith)
        requires
            q2 == w / n,
            n > 0,
            w >= n,
    ;
    assert((q1 + q2) * n <= c * w + w) by (nonlinear_arith)
        requires
            q1 * n <= c * w,
            q2 * n <= w,
    ;
    assert(q1 + q2 <= (c * w + w) / n) by (nonlinear_arith)
        requires
            (q1 + q2) * n <= c * w + w,
            n > 0,
    ;
    assert(((c + 1) * w) <= n * w) by (nonlinear_arith)
        requires
            c + 1 <= n,
            w >= 0,
    ;
    assert(((c + 1) * w) / n <= (n * w) / n) by (nonlinear_arith)
        requires
            (c + 1) * w <= n * w,
            n > 0,
            (c + 1) * w >= 0,
    ;
    assert((n * w) / n == w) by (nonlinear_arith)
        requires
            n > 0,
    ;
}

/// When the work area has at least one pixel per column and per row, every tile lies within
/// it and is at least one pixel wide and high.
pub proof fn lemma_tile_slot_inside(area: Bounds, count: nat, index: nat)
    requires
        index < count,
        area.width >= tile_cols(count),
        area.height >= tile_rows(count),
        tile_fits(area, count),
    ensures
        ({
            let slot = tile_slot(area, tile_cols(count), tile_rows(count), index);
            &&& area.x <= slot.x
            &&& slot.x + slot.width <= area.x + area.width
            &&& area.y <= slot.y
            &&& slot.y + slot.height <= area.y + area.height
            &&& slot.width >= 1
            &&& slot.height >= 1
        }),
{
    lemma_tile_grid(count);
    let cols = tile_cols(count);
    let rows = tile_rows(count);
    let row = index / cols;
    let col = index % cols;
    assert(row < rows) by (nonlinear_arith)
        requires
            row == index / cols,
            index < count,
            rows * cols >= count,
            cols >= 1,
    ;
    assert(0 <= col < cols) by (nonlinear_arith)
        requires
            col == index % cols,
            cols >= 1,
    ;
    lemma_cell_edges(col as int, cols as int, area.width as int);
    lemma_cell_edges(row as int, rows as int, area.height as int);
    assert(col * area.width >= 0) by (nonlinear_arith)
        requires
            col >= 0,
            area.width >= 0,
    ;
    assert(row * area.height >= 0) by (nonlinear_arith)
        requires
            row >= 0,
            area.height >= 0,
    ;
    assert((col + 1) * area.width >= 0) by (nonlinear_arith)
        requires
            col >= 0,
            area.width >= 0,
    ;
    assert((row + 1) * area.height >= 0) by (nonlinear_arith)
        requires
            row >= 0,
            area.height >= 0,
    ;
    let x = area.x + div_trunc(col * area.width, cols as int);
    let next_x = area.x + div_trunc((col + 1) * area.width, cols as int);
    let y = area.y + div_trunc(row * area.height, rows as int);
    let next_y = area.y + div_trunc((row + 1) * area.height, rows as int);
    assert(area.x <= x && x + 1 <= next_x && next_x <= area.x + area.width);
    assert(area.y <= y && y + 1 <= next_y && next_y <= area.y + area.height);
}

/// Shares of a non-negative width grow with the cell index.
proof fn lemma_share_monotone(a: int, b: int, n: int, w: int)
    requires
        0 <= a <= b,
        n > 0,
        w >= 0,
    ensures
        (a * w) / n <= (b * w) / n,
{
    assert(0 <= a * w <= b * w) by (nonlinear_arith)
        requires
            0 <= a <= b,
            w >= 0,
    ;
    assert((a * w) / n <= (b * w) / n) by (nonlinear_arith)
        requires
            0 <= a * w <= b * w,
            n > 0,
    ;
}

/// When the work area has at least one pixel per column and per row, two different tiles do
/// not overlap: one lies wholly left of, right of, above or below the other.
pub proof fn lemma_tiles_disjoint(area: Bounds, count: nat, i: nat, j: nat)
    requires
        i < count,
        j < count,
        i != j,
        area.width >= tile_cols(count),
        area.height >= tile_rows(count),
        tile_fits(area, count),
    ensures
        ({
            let a = tile_slot(area, tile_cols(count), tile_rows(count), i);
            let b = tile_slot(area, tile_cols(count), tile_rows(count), j);
            ||| a.x + a.width <= b.x
            ||| b.x + b.width <= a.x
            ||| a.y + a.height <= b.y
            ||| b.y + b.height <= a.y
        }),
{
    lemma_tile_slot_inside(area, count, i);
    lemma_tile_slot_inside(area, count, j);
    lemma_tile_grid(count);
    let cols = tile_cols(count);
    let rows = tile_rows(count);
    let (ri, ci, rj, cj) = ((i / cols) as int, (i % cols) as int, (j / cols) as int, (j % cols) as int);
    assert(i == ri * cols + ci && j == rj * cols + cj) by (nonlinear_arith)
        requires
            cols >= 1,
            ri == i / cols,
            ci == i % cols,
            rj == j / cols,
            cj == j % cols,
    ;
    let w = area.width as int;
    let h = area.height as int;
    assert(0 <= ci < cols && 0 <= cj < cols) by (nonlinear_arith)
        requires
            cols >= 1,
            ci == i % cols,
            cj == j % cols,
    ;
    assert(ri >= 0 && rj >= 0);
    assert(ri < rows && rj < rows) by (nonlinear_arith)
        requires
            ri == i / cols,
            rj == j / cols,
            i < count,
            j < count,
            rows * cols >= count,
            cols >= 1,
    ;
    lemma_cell_edges(ci, cols as int, w);
    lemma_cell_edges(cj, cols as int, w);
    lemma_cell_edges(ri, rows as int, h);
    lemma_cell_edges(rj, rows as int, h);
    assert(ci * w >= 0 && cj * w >= 0 && (ci + 1) * w >= 0 && (cj + 1) * w >= 0) by (nonlinear_arith)
        requires
            ci >= 0,
            cj >= 0,
            w >= 0,
    ;
    assert(ri * h >= 0 && rj * h >= 0 && (ri + 1) * h >= 0 && (rj + 1) * h >= 0) by (nonlinear_arith)
        requires
            ri >= 0,
            rj >= 0,
            h >= 0,
    ;
    let a = tile_slot(area, cols, rows, i);
    let b = tile_slot(area, cols, rows, j);
    assert(a.x == area.x + (ci * w) / cols as int && a.x + a.width == area.x + ((ci + 1) * w) / cols as int);
    assert(b.x == area.x + (cj * w) / cols as int && b.x + b.width == area.x + ((cj + 1) * w) / cols as int);
    assert(a.y == area.y + (ri * h) / rows as int && a.y + a.height == area.y + ((ri + 1) * h) / rows as int);
    assert(b.y == area.y + (rj * h) / rows as int && b.y + b.height == area.y + ((rj + 1) * h) / rows as int);
    if ci < cj {
        lemma_share_monotone(ci + 1, cj, cols as int, w);
    } else if cj < ci {
        lemma_share_monotone(cj + 1, ci, cols as int, w);
    } else if ri < rj {
        lemma_share_monotone(ri + 1, rj, rows as int, h);
    } else {
        assert(rj < ri) by (nonlinear_arith)
            requires
                i == ri * cols + ci,
                j == rj * cols + cj,
                ci == cj,
                i != j,
                !(ri < rj),
        ;
        lemma_share_monotone(rj + 1, ri, rows as int, h);
    }
}

/// Bounds of the truncated share `div_trunc(k * w, n)` for `0 <= k <= n`, and its monotony in `k`.
proof fn lemma_share(k: int, n: int, w: int)
    requires
        0 <= k < n,
    ensures
        w >= 0 ==> 0 <= div_trunc(k * w, n) <= div_trunc((k + 1) * w, n) <= w,
        w < 0 ==> w <= div_trunc((k + 1) * w, n) <= div_trunc(k * w, n) <= 0,
{
    if w >= 0 {
        assert(0 <= k * w <= (k + 1) * w <= n * w) by (nonlinear_arith)
            requires
                0 <= k < n,
                w >= 0,
        ;
        assert((k * w) / n <= ((k + 1) * w) / n) by (nonlinear_arith)
            requires
                0 <= k * w <= (k + 1) * w,
                n > 0,
        ;
        assert(((k + 1) * w) / n <= (n * w) / n) by (nonlinear_arith)
            requires
                0 <= (k + 1) * w <= n * w,
                n > 0,
        ;
        assert((n * w) / n == w) by (nonlinear_arith)
            requires
                n > 0,
        ;
        assert(0 <= (k * w) / n) by (nonlinear_arith)
            requires
                0 <= k * w,
                n > 0,
        ;
    } else {
        let v = -w;
        assert(0 <= k * v <= (k + 1) * v <= n * v) by (nonlinear_arith)
            requires
                0 <= k < n,
                v > 0,
        ;
        assert((k * v) / n <= ((k + 1) * v) / n) by (nonlinear_arith)
            requires
                0 <= k * v <= (k + 1) * v,
                n > 0,
        ;
        assert(((k + 1) * v) / n <= (n * v) / n) by (nonlinear_arith)
            requires
                0 <= (k + 1) * v <= n * v,
                n > 0,
        ;
        assert((n * v) / n == v) by (nonlinear_arith)
            requires
                n > 0,
        ;
        assert(0 <= (k * v) / n) by (nonlinear_arith)
            requires
                0 <= k * v,
                n > 0,
        ;
        assert(k * w == -(k * v) && (k + 1) * w == -((k + 1) * v)) by (nonlinear_arith)
            requires
                v == -w,
        ;
        if k == 0 {
            assert(k * w == 0);
        }
    }
}

/// `div_trunc(a, b)` computed on machine integers.
fn div_trunc_i64(a: i64, b: i64) -> (q: i64)
    requires
        b > 0,
        a > i64::MIN,
    ensures
        q == div_trunc(a as int, b as int),
{
    if a >= 0 {
        ((a as u64) / (b as u64)) as i64
    } else {
        let na = (-a) as u64;
        -((na / (b as u64)) as i64)
    }
}

/// The number of tile columns for `count` windows.
fn compute_tile_cols(count: usize) -> (cols: usize)
    requires
        count <= i32::MAX,
    ensures
        cols == tile_cols(count as nat),
{
    let mut c: u64 = 0;
    let n = count as u64;
    while !(c >= n || c * c >= n)
        invariant
            ceil_sqrt_from(n as nat, c as nat) == ceil_sqrt_from(count as nat, 0),
            n == count,
            c <= n,
            n <= i32::MAX,
            c * c <= 0x4000_0000_0000_0000,
        decreases n - c,
    {
        c = c + 1;
        proof {
            assert(c * c <= 0x4000_0000_0000_0000) by (nonlinear_arith)
                requires
                    c <= 0x8000_0000,
            ;
        }
    }
    if c < 1 {
        1
    } else {
        c as usize
    }
}

/// The tile grid over `area` for `count` windows, in window order.
fn tile_slots(area: &Bounds, count: usize) -> (slots: Vec<Bounds>)
    requires
        tile_fits(*area, count as nat),
    ensures
        slots@.len() == count,
        forall|i: int| 0 <= i < count ==> #[trigger] slots@[i] == tile_slot(*area,
            tile_cols(count as nat), tile_rows(count as nat), i as nat),
{
    let mut slots: Vec<Bounds> = Vec::new();
    if count == 0 {
        return slots;
    }
    let cols = compute_tile_cols(count);
    proof { lemma_tile_grid(count as nat); }
    let r = (count + cols - 1) / cols;
    let rows = if r < 1 { 1 } else { r };
    let mut index: usize = 0;
    while index < count
        invariant
            tile_fits(*area, count as nat),
            cols == tile_cols(count as nat),
            rows == tile_rows(count as nat),
            1 <= cols <= count,
            rows >= 1,
            rows * cols >= count,
            index <= count,
            slots@.len() == index,
            forall|i: int| 0 <= i < index ==> #[trigger] slots@[i] == tile_slot(*area,
                cols as nat, rows as nat, i as nat),
        decreases count - index,
    {
        let row = index / cols;
        let col = index % cols;
        proof {
            assert(row < rows) by (nonlinear_arith)
                requires
                    row == index / cols,
                    index < count,
                    rows * cols >= count,
                    cols >= 1,
            ;
            lemma_share(col as int, cols as int, area.width as int);
            lemma_share(row as int, rows as int, area.height as int);
            assert(fits_i32((col + 1) * area.width) && fits_i32(col * area.width)) by (nonlinear_arith)
                requires
                    0 <= col < cols,
                    fits_i32(cols * area.width),
            ;
            assert(fits_i32((row + 1) * area.height) && fits_i32(row * area.height)) by (nonlinear_arith)
                requires
                    0 <= row < rows,
                    fits_i32(rows * area.height),
            ;
        }
        let w = area.width as i64;
        let h = area.height as i64;
        let x = area.x as i64 + div_trunc_i64(col as i64 * w, cols as i64);
        let next_x = area.x as i64 + div_trunc_i64((col as i64 + 1) * w, cols as i64);
        let y = area.y as i64 + div_trunc_i64(row as i64 * h, rows as i64);
        let next_y = area.y as i64 + div_trunc_i64((row as i64 + 1) * h, rows as i64);
        let dw = next_x - x;
        let dh = next_y - y;
        slots.push(Bounds {
            x: x as i32,
            y: y as i32,
            width: if dw < 1 { 1 } else { dw as i32 },
            height: if dh < 1 { 1 } else { dh as i32 },
        });
        index = index + 1;
    }
    slots
}


/// The proportions of a stack layout for a number of windows: how far the cascade may
/// spread (as a percentage of the area), the least window size (as a percentage), and the
/// least offset between two windows (in pixels).
#[derive(Clone, Copy, Debug, PartialEq, Eq, Structural)]
pub struct StackProfile {
    pub offset_x_percent: u32,
    pub offset_y_percent: u32,
    pub min_width_percent: u32,
    pub min_height_percent: u32,
    pub min_step_x: i32,
    pub min_step_y: i32,
}

/// The stack proportions for `count` windows; fewer windows spread further.
pub open spec fn stack_profile_of(count: nat) -> StackProfile {
    if 2 <= count <= 4 {
        StackProfile { offset_x_percent: 28, offset_y_percent: 24, min_width_percent: 72,
            min_height_percent: 74, min_step_x: 34, min_step_y: 28 }
    } else if 5 <= count <= 8 {
        StackProfile { offset_x_percent: 26, offset_y_percent: 22, min_width_percent: 68,
            min_height_percent: 70, min_step_x: 24, min_step_y: 20 }
    } else if 9 <= count <= 12 {
        StackProfile { offset_x_percent: 23, offset_y_percent: 20, min_width_percent: 63,
            min_height_percent: 66, min_step_x: 18, min_step_y: 15 }
    } else {
        StackProfile { offset_x_percent: 18, offset_y_percent: 16, min_width_percent: 58,
            min_height_percent: 60, min_step_x: 12, min_step_y: 10 }
    }
}

/// The stack proportions for `count` windows.
pub fn stack_profile(count: usize) -> (p: StackProfile)
    ensures
        p == stack_profile_of(count as nat),
{
    if 2 <= count && count <= 4 {
        StackProfile { offset_x_percent: 28, offset_y_percent: 24, min_width_percent: 72,
            min_height_percent: 74, min_step_x: 34, min_step_y: 28 }
    } else if 5 <= count && count <= 8 {
        StackProfile { offset_x_percent: 26, offset_y_percent: 22, min_width_percent: 68,
            min_height_percent: 70, min_step_x: 24, min_step_y: 20 }
    } else if 9 <= count && count <= 12 {
        StackProfile { offset_x_percent: 23, offset_y_percent: 20, min_width_percent: 63,
            min_height_percent: 66, min_step_x: 18, min_step_y: 15 }
    } else {
        StackProfile { offset_x_percent: 18, offset_y_percent: 16, min_width_percent: 58,
            min_height_percent: 60, min_step_x: 12, min_step_y: 10 }
    }
}

/// The area's size scaled by the percentages of a `StackProfile`, each rounded to the nearest
/// integer by the caller's floating-point arithmetic: the largest cascade offsets and the
/// least window size.
#[derive(Clone, Copy, Debug, PartialEq, Eq, Structural)]
pub struct StackScale {
    pub max_offset_x: i32,
    pub max_offset_y: i32,
    pub min_width: i32,
    pub min_height: i32,
}

/// `max(a, b)` on integers.
pub open spec fn imax(a: int, b: int) -> int {
    if a >= b {
        a
    } else {
        b
    }
}

/// `min(a, b)` on integers.
pub open spec fn imin(a: int, b: int) -> int {
    if a <= b {
        a
    } else {
        b
    }
}

/// Offset between two stacked windows along one axis: the largest offset shared among the
/// gaps, but no less than the profile's least step.
pub open spec fn stack_step(max_offset: int, count: nat, min_step: int) -> int {
    imax(div_trunc(max_offset, count - 1), min_step)
}

/// Horizontal step of a stack of `count >= 2` windows.
pub open spec fn stack_step_x(count: nat, scale: StackScale) -> int {
    stack_step(scale.max_offset_x as int, count, stack_profile_of(count).min_step_x as int)
}

/// Vertical step of a stack of `count >= 2` windows.
pub open spec fn stack_step_y(count: nat, scale: StackScale) -> int {
    stack_step(scale.max_offset_y as int, count, stack_profile_of(count).min_step_y as int)
}

/// Width of every window of a stack of `count >= 2`: what the cascade leaves of the area,
/// at least the scaled least width and 320 pixels, at most the area width, at least one pixel.
pub open spec fn stack_width(area: Bounds, count: nat, scale: StackScale) -> int {
    let w = imax(imax(area.width - stack_step_x(count, scale) * (count - 1), scale.min_width as int), 320);
    at_least_one(imin(w, area.width as int))
}

/// Height of every window of a stack of `count >= 2`, as `stack_width` with 220 pixels.
pub open spec fn stack_height(area: Bounds, count: nat, scale: StackScale) -> int {
    let h = imax(imax(area.height - stack_step_y(count, scale) * (count - 1), scale.min_height as int), 220);
    at_least_one(imin(h, area.height as int))
}

/// The slot of window `index` in a stack of `count` windows over `area`: one window takes the
/// whole area; otherwise each window is moved one step right and down from the previous one.
pub open spec fn stack_slot(area: Bounds, count: nat, scale: StackScale, index: nat) -> Bounds {
    if count == 1 {
        area
    } else {
        Bounds {
            x: (area.x + stack_step_x(count, scale) * index) as i32,
            y: (area.y + stack_step_y(count, scale) * index) as i32,
            width: stack_width(area, count, scale) as i32,
            height: stack_height(area, count, scale) as i32,
        }
    }
}

/// What the stack arithmetic needs to stay within `i32`.
pub open spec fn stack_fits(area: Bounds, count: nat, scale: StackScale) -> bool {
    count >= 2 ==> {
        &&& count <= i32::MAX
        &&& fits_i32(stack_step_x(count, scale) * (count - 1))
        &&& fits_i32(stack_step_y(count, scale) * (count - 1))
        &&& fits_i32(area.width - stack_step_x(count, scale) * (count - 1))
        &&& fits_i32(area.height - stack_step_y(count, scale) * (count - 1))
        &&& fits_i32(area.x + stack_step_x(count, scale) * (count - 1))
        &&& fits_i32(area.y + stack_step_y(count, scale) * (count - 1))
    }
}

/// `stack_step` computed on machine integers.
fn compute_stack_step(max_offset: i32, count: usize, min_step: i32) -> (step: i32)
    requires
        2 <= count <= i32::MAX,
    ensures
        step == stack_step(max_offset as int, count as nat, min_step as int),
{
    let q = div_trunc_i64(max_offset as i64, (count - 1) as i64);
    proof {
        let m = max_offset as int;
        let d = (count - 1) as int;
        if m >= 0 {
            assert(m / d <= m) by (nonlinear_arith)
                requires
                    d >= 1,
                    m >= 0,
            ;
        } else {
            assert((-m) / d <= -m) by (nonlinear_arith)
                requires
                    d >= 1,
                    m < 0,
            ;
        }
    }
    if q >= min_step as i64 {
        q as i32
    } else {
        min_step
    }
}

/// The stack cascade over `area` for `count` windows, in window order.
fn stack_slots(area: &Bounds, count: usize, scale: &StackScale) -> (slots: Vec<Bounds>)
    requires
        stack_fits(*area, count as nat, *scale),
    ensures
        slots@.len() == count,
        forall|i: int| 0 <= i < count ==> #[trigger] slots@[i] == stack_slot(*area, count as nat,
            *scale, i as nat),
{
    let mut slots: Vec<Bounds> = Vec::new();
    if count == 0 {
        return slots;
    }
    if count == 1 {
        slots.push(*area);
        return slots;
    }
    let profile = stack_profile(count);
    let step_x = compute_stack_step(scale.max_offset_x, count, profile.min_step_x);
    let step_y = compute_stack_step(scale.max_offset_y, count, profile.min_step_y);
    let gaps = (count - 1) as i32;
    let final_offset_x = step_x * gaps;
    let final_offset_y = step_y * gaps;
    let w0 = area.width - final_offset_x;
    let w1 = if w0 >= scale.min_width { w0 } else { scale.min_width };
    let w2 = if w1 >= 320 { w1 } else { 320 };
    let w3 = if w2 <= area.width { w2 } else { area.width };
    let width = if w3 < 1 { 1 } else { w3 };
    let h0 = area.height - final_offset_y;
    let h1 = if h0 >= scale.min_height { h0 } else { scale.min_height };
    let h2 = if h1 >= 220 { h1 } else { 220 };
    let h3 = if h2 <= area.height { h2 } else { area.height };
    let height = if h3 < 1 { 1 } else { h3 };
    let mut index: usize = 0;
    while index < count
        invariant
            stack_fits(*area, count as nat, *scale),
            2 <= count <= i32::MAX,
            step_x == stack_step_x(count as nat, *scale),
            step_y == stack_step_y(count as nat, *scale),
            step_x >= 1,
            step_y >= 1,
            width == stack_width(*area, count as nat, *scale),
            height == stack_height(*area, count as nat, *scale),
            index <= count,
            slots@.len() == index,
            forall|i: int| 0 <= i < index ==> #[trigger] slots@[i] == stack_slot(*area,
                count as nat, *scale, i as nat),
        decreases count - index,
    {
        proof {
            assert(0 <= step_x * index <= step_x * (count - 1)) by (nonlinear_arith)
                requires
                    step_x >= 1,
                    0 <= index < count,
            ;
            assert(0 <= step_y * index <= step_y * (count - 1)) by (nonlinear_arith)
                requires
                    step_y >= 1,
                    0 <= index < count,
            ;
        }
        let k = index as i32;
        slots.push(Bounds { x: area.x + step_x * k, y: area.y + step_y * k, width, height });
        index = index + 1;
    }
    slots
}

/// The slot of window `index` when `count` windows are laid out in `mode` over `area`.
pub open spec fn layout_slot(mode: LayoutMode, area: Bounds, count: nat, scale: StackScale,
    index: nat) -> Bounds {
    match mode {
        LayoutMode::Tile => tile_slot(area, tile_cols(count), tile_rows(count), index),
        LayoutMode::Stack => stack_slot(area, count, scale, index),
    }
}

/// What the layout arithmetic needs to stay within `i32`.
pub open spec fn layout_fits(mode: LayoutMode, area: Bounds, count: nat, scale: StackScale) -> bool {
    match mode {
        LayoutMode::Tile => tile_fits(area, count),
        LayoutMode::Stack => stack_fits(area, count, scale),
    }
}

/// Whether the layout arithmetic for `count` windows in `mode` over `area` stays within
/// `i32`, so that the slots can be computed.
pub fn layout_in_range(layout_mode: LayoutMode, area: &Bounds, count: usize, scale: &StackScale)
    -> (r: bool)
    ensures
        r == layout_fits(layout_mode, *area, count as nat, *scale),
{
    let x = area.x as i64;
    let y = area.y as i64;
    let w = area.width as i64;
    let h = area.height as i64;
    let lo = i32::MIN as i64;
    let hi = i32::MAX as i64;
    if count > i32::MAX as usize {
        return false;
    }
    match layout_mode {
        LayoutMode::Tile => {
            let cols = compute_tile_cols(count);
            proof { lemma_tile_grid(count as nat); }
            let r = if count == 0 { 0 } else { (count + cols - 1) / cols };
            let rows = if r < 1 { 1 } else { r };
            proof {
                if count >= 1 {
                    assert(rows <= count) by (nonlinear_arith)
                        requires
                            cols >= 1,
                            count >= 1,
                            r == (count + cols - 1) / cols as int,
                            rows == if r < 1 { 1 } else { r },
                    ;
                }
                assert(-0x8000_0000 * 0x8000_0000 <= cols * w <= 0x8000_0000 * 0x8000_0000)
                    by (nonlinear_arith)
                    requires
                        0 <= cols <= 0x8000_0000,
                        -0x8000_0000 <= w <= 0x8000_0000,
                ;
                assert(-0x8000_0000 * 0x8000_0000 <= rows * h <= 0x8000_0000 * 0x8000_0000)
                    by (nonlinear_arith)
                    requires
                        0 <= rows <= 0x8000_0000,
                        -0x8000_0000 <= h <= 0x8000_0000,
                ;
            }
            let tw = cols as i64 * w;
            let th = rows as i64 * h;
            lo <= tw && tw <= hi && lo <= th && th <= hi && lo <= x + w && x + w <= hi && lo <= y + h
                && y + h <= hi
        },
        LayoutMode::Stack => {
            if count < 2 {
                return true;
            }
            let profile = stack_profile(count);
            let step_x = compute_stack_step(scale.max_offset_x, count, profile.min_step_x) as i64;
            let step_y = compute_stack_step(scale.max_offset_y, count, profile.min_step_y) as i64;
            let gaps = (count - 1) as i64;
            proof {
                assert(-0x8000_0000 * 0x8000_0000 <= step_x * gaps <= 0x8000_0000 * 0x8000_0000)
                    by (nonlinear_arith)
                    requires
                        0 <= gaps <= 0x8000_0000,
                        -0x8000_0000 <= step_x <= 0x8000_0000,
                ;
                assert(-0x8000_0000 * 0x8000_0000 <= step_y * gaps <= 0x8000_0000 * 0x8000_0000)
                    by (nonlinear_arith)
                    requires
                        0 <= gaps <= 0x8000_0000,
                        -0x8000_0000 <= step_y <= 0x8000_0000,
                ;
            }
            let ox = step_x * gaps;
            let oy = step_y * gaps;
            lo <= ox && ox <= hi && lo <= oy && oy <= hi && lo <= w - ox && w - ox <= hi && lo <= h - oy
                && h - oy <= hi && lo <= x + ox && x + ox <= hi && lo <= y + oy && y + oy <= hi
        },
    }
}

/// The slots of `count` windows laid out in `mode` over `area`, in window order.
/// `scale` is read by the stack layout only.
pub fn compute_layout_slots(layout_mode: LayoutMode, area: &Bounds, count: usize,
    scale: &StackScale) -> (slots: Vec<Bounds>)
    requires
        layout_fits(layout_mode, *area, count as nat, *scale),
    ensures
        slots@.len() == count,
        forall|i: int| 0 <= i < count ==> #[trigger] slots@[i] == layout_slot(layout_mode, *area,
            count as nat, *scale, i as nat),
{
    match layout_mode {
        LayoutMode::Tile => tile_slots(area, count),
        LayoutMode::Stack => stack_slots(area, count, scale),
    }
}

/// The placement of each managed window of `config` on a monitor whose work area is `area`:
/// the windows in layout order, each with the slot of its position.
pub fn preview_layout(config: &SessionConfig, area: &Bounds, scale: &StackScale) -> (preview: Vec<
    LayoutPreview,
>)
    requires
        layout_fits(config@.layout_mode, *area, layout_ids(config@).len(), *scale),
    ensures
        preview@.len() == layout_ids(config@).len(),
        forall|i: int| 0 <= i < preview@.len() ==> (#[trigger] preview@[i])@.window_id == layout_ids(
            config@,
        )[i] && preview@[i]@.bounds == layout_slot(config@.layout_mode, *area,
            layout_ids(config@).len(), *scale, i as nat),
{
    let ids = layout_window_ids(config);
    let slots = compute_layout_slots(config.layout_mode, area, ids.len(), scale);
    let mut preview: Vec<LayoutPreview> = Vec::new();
    let mut i: usize = 0;
    while i < ids.len()
        invariant
            ids.deep_view() == layout_ids(config@),
            slots@.len() == ids@.len(),
            forall|j: int| 0 <= j < ids@.len() ==> #[trigger] slots@[j] == layout_slot(
                config@.layout_mode, *area, ids@.len() as nat, *scale, j as nat),
            i <= ids@.len(),
            preview@.len() == i,
            forall|j: int| 0 <= j < i ==> (#[trigger] preview@[j])@.window_id == ids@[j]@
                && preview@[j]@.bounds == slots@[j],
        decreases ids@.len() - i,
    {
        preview.push(LayoutPreview { window_id: ids[i].clone(), bounds: slots[i] });
        i = i + 1;
    }
    assert forall|j: int| 0 <= j < preview@.len() implies (#[trigger] preview@[j])@.window_id
        == layout_ids(config@)[j] by {
        assert(ids.deep_view()[j] == ids@[j]@);
    }
    preview
}


/// `moves` holds the platform's answer to moving the windows of a placement of `count`
/// windows, in placement order: every window in turn until the first move that fails.
pub open spec fn moves_in_order(count: nat, moves: Seq<Result<(), PlatformError>>) -> bool {
    &&& moves.len() <= count
    &&& forall|k: int| 0 <= k < moves.len() - 1 ==> #[trigger] moves[k] is Ok
    &&& moves.len() < count ==> moves.len() > 0 && moves.last() is Err
}

/// The outcome of laying out `preview` when the moves answered `moves`: the error of the move
/// that failed (the last one tried), or the placement when every window was moved.
pub open spec fn layout_outcome(preview: Seq<LayoutPreviewView>, moves: Seq<Result<(), PlatformError>>)
    -> Result<Seq<LayoutPreviewView>, PlatformError> {
    if moves.len() == 0 {
        Ok(preview)
    } else {
        match moves.last() {
            Err(e) => Err(e),
            Ok(_) => Ok(preview),
        }
    }
}

/// The result of a layout once the windows of `preview` were moved in order, `moves` holding
/// the answer to each move tried: the first failure's error (the windows before it were
/// moved, the ones after it were not tried), or the placement when every window was moved.
pub fn finish_layout(preview: Vec<LayoutPreview>, moves: &Vec<Result<(), PlatformError>>) -> (r: Result<
    Vec<LayoutPreview>,
    PlatformError,
>)
    requires
        moves_in_order(preview@.len(), moves@),
    ensures
        match layout_outcome(preview.deep_view(), moves@) {
            Ok(placed) => r matches Ok(v) && v.deep_view() == placed && moves@.len() == preview@.len(),
            Err(e) => r == Err::<Vec<LayoutPreview>, PlatformError>(e),
        },
{
    if moves.len() > 0 {
        match moves[moves.len() - 1] {
            Err(e) => return Err(e),
            Ok(()) => {},
        }
    }
    Ok(preview)
}

/// Moves each managed window of `config` to its slot on a monitor whose work area is `area`,
/// in layout order, and returns the placement; the first window that cannot be moved ends the
/// layout with the platform's error (see `finish_layout`). This platform moves no window, and
/// a session always manages its primary window, so the layout fails at the first move.
pub fn apply_layout(config: &SessionConfig, area: &Bounds, scale: &StackScale) -> (r: Result<
    Vec<LayoutPreview>,
    PlatformError,
>)
    requires
        layout_fits(config@.layout_mode, *area, layout_ids(config@).len(), *scale),
    ensures
        r == Err::<Vec<LayoutPreview>, PlatformError>(PlatformError::WindowsOnly),
{
    let preview = preview_layout(config, area, scale);
    proof {
        lemma_layout_ids(config@);
    }
    let mut moves: Vec<Result<(), PlatformError>> = Vec::new();
    let mut stopped = false;
    let mut i: usize = 0;
    while i < preview.len() && !stopped
        invariant
            preview@.len() >= 1,
            i <= preview@.len(),
            moves@.len() == i,
            stopped ==> i > 0 && moves@.last() is Err,
            forall|k: int| 0 <= k < i - 1 ==> #[trigger] moves@[k] is Ok,
            !stopped ==> forall|k: int| 0 <= k < i ==> #[trigger] moves@[k] is Ok,
            // every move fails on this platform
            forall|k: int| 0 <= k < i ==> #[trigger] moves@[k] == Err::<(), PlatformError>(
                PlatformError::WindowsOnly),
            stopped <==> i > 0,
        decreases preview@.len() - i,
    {
        let moved = move_resize_window(preview[i].window_id.as_str(), &preview[i].bounds);
        stopped = moved.is_err();
        moves.push(moved);
        i = i + 1;
    }
    finish_layout(preview, &moves)
}

/// Index of the first monitor with id `id`, searching from `k`.
pub open spec fn monitor_index_from(monitors: Seq<MonitorInfoView>, id: Seq<char>, k: int) -> Option<int>
    decreases monitors.len() - k,
{
    if k < 0 || k >= monitors.len() {
        None
    } else if monitors[k].id == id {
        Some(k)
    } else {
        monitor_index_from(monitors, id, k + 1)
    }
}

/// Index of the first window with id `id`, searching from `k`.
pub open spec fn window_index_from(windows: Seq<WindowInfoView>, id: Seq<char>, k: int) -> Option<int>
    decreases windows.len() - k,
{
    if k < 0 || k >= windows.len() {
        None
    } else if windows[k].id == id {
        Some(k)
    } else {
        window_index_from(windows, id, k + 1)
    }
}

/// Index of the first primary monitor, searching from `k`.
pub open spec fn primary_monitor_from(monitors: Seq<MonitorInfoView>, k: int) -> Option<int>
    decreases monitors.len() - k,
{
    if k < 0 || k >= monitors.len() {
        None
    } else if monitors[k].is_primary {
        Some(k)
    } else {
        primary_monitor_from(monitors, k + 1)
    }
}

/// The monitor of the primary window of `config`, when that window is listed and on a listed
/// monitor.
pub open spec fn primary_window_monitor(config: SessionConfigView, monitors: Seq<MonitorInfoView>,
    windows: Seq<WindowInfoView>) -> Option<int> {
    match window_index_from(windows, config.primary_window_id, 0) {
        Some(w) => match windows[w].monitor_id {
            Some(m) => monitor_index_from(monitors, m, 0),
            None => None,
        },
        None => None,
    }
}

/// The monitor a session is laid out on: the selected monitor if listed; else the monitor of
/// the primary window; else the first primary monitor; else the first monitor. `None` when no
/// monitor is listed.
pub open spec fn resolved_monitor(config: SessionConfigView, monitors: Seq<MonitorInfoView>,
    windows: Seq<WindowInfoView>) -> Option<int> {
    if monitors.len() == 0 {
        None
    } else if config.monitor_id is Some && monitor_index_from(monitors, config.monitor_id->0, 0) is Some {
        monitor_index_from(monitors, config.monitor_id->0, 0)
    } else if primary_window_monitor(config, monitors, windows) is Some {
        primary_window_monitor(config, monitors, windows)
    } else if primary_monitor_from(monitors, 0) is Some {
        primary_monitor_from(monitors, 0)
    } else {
        Some(0)
    }
}

proof fn lemma_index_from_bounds(monitors: Seq<MonitorInfoView>, id: Seq<char>, k: int)
    ensures
        monitor_index_from(monitors, id, k) matches Some(i) ==> k <= i < monitors.len()
            && monitors[i].id == id,
    decreases monitors.len() - k,
{
    if 0 <= k < monitors.len() && monitors[k].id != id {
        lemma_index_from_bounds(monitors, id, k + 1);
    }
}

proof fn lemma_primary_from_bounds(monitors: Seq<MonitorInfoView>, k: int)
    ensures
        primary_monitor_from(monitors, k) matches Some(i) ==> k <= i < monitors.len()
            && monitors[i].is_primary,
    decreases monitors.len() - k,
{
    if 0 <= k < monitors.len() && !monitors[k].is_primary {
        lemma_primary_from_bounds(monitors, k + 1);
    }
}

proof fn lemma_first_monitor(monitors: Seq<MonitorInfoView>, id: Seq<char>, i: int, k: int)
    requires
        0 <= k <= i < monitors.len(),
        monitors[i].id == id,
        forall|l: int| 0 <= l < i ==> #[trigger] monitors[l].id != id,
    ensures
        monitor_index_from(monitors, id, k) == Some(i),
    decreases i - k,
{
    if k < i {
        lemma_first_monitor(monitors, id, i, k + 1);
    }
}

proof fn lemma_no_monitor(monitors: Seq<MonitorInfoView>, id: Seq<char>, k: int)
    requires
        0 <= k,
        forall|l: int| 0 <= l < monitors.len() ==> #[trigger] monitors[l].id != id,
    ensures
        monitor_index_from(monitors, id, k) is None,
    decreases monitors.len() - k,
{
    if k < monitors.len() {
        lemma_no_monitor(monitors, id, k + 1);
    }
}

proof fn lemma_first_window(windows: Seq<WindowInfoView>, id: Seq<char>, w: int, k: int)
    requires
        0 <= k <= w < windows.len(),
        windows[w].id == id,
        forall|v: int| 0 <= v < w ==> #[trigger] windows[v].id != id,
    ensures
        window_index_from(windows, id, k) == Some(w),
    decreases w - k,
{
    if k < w {
        lemma_first_window(windows, id, w, k + 1);
    }
}

/// A selected monitor that is listed is the one laid out on: the first monitor listed with
/// the selected id, wherever the primary window is.
pub proof fn lemma_selected_monitor_wins(config: SessionConfigView, monitors: Seq<MonitorInfoView>,
    windows: Seq<WindowInfoView>, i: int)
    requires
        config.monitor_id is Some,
        0 <= i < monitors.len(),
        monitors[i].id == config.monitor_id->0,
        forall|l: int| 0 <= l < i ==> #[trigger] monitors[l].id != config.monitor_id->0,
    ensures
        resolved_monitor(config, monitors, windows) == Some(i),
{
    lemma_first_monitor(monitors, config.monitor_id->0, i, 0);
}

/// When no listed monitor is selected (none given, or the given one is not listed) and the
/// primary window is listed on a listed monitor, the session is laid out on the primary
/// window's monitor (the first listed with that id), not on the system's primary monitor.
pub proof fn lemma_primary_window_monitor_wins(config: SessionConfigView, monitors: Seq<MonitorInfoView>,
    windows: Seq<WindowInfoView>, w: int, i: int)
    requires
        config.monitor_id matches Some(sel) ==> forall|l: int| 0 <= l < monitors.len() ==> #[trigger] monitors[l].id
            != sel,
        0 <= w < windows.len(),
        windows[w].id == config.primary_window_id,
        forall|v: int| 0 <= v < w ==> #[trigger] windows[v].id != config.primary_window_id,
        windows[w].monitor_id is Some,
        0 <= i < monitors.len(),
        monitors[i].id == windows[w].monitor_id->0,
        forall|l: int| 0 <= l < i ==> #[trigger] monitors[l].id != windows[w].monitor_id->0,
    ensures
        resolved_monitor(config, monitors, windows) == Some(i),
{
    if config.monitor_id is Some {
        lemma_no_monitor(monitors, config.monitor_id->0, 0);
    }
    lemma_first_window(windows, config.primary_window_id, w, 0);
    lemma_first_monitor(monitors, windows[w].monitor_id->0, i, 0);
}

/// When no listed monitor is selected and the primary window is not listed, the session is
/// laid out on the first primary monitor, or on the first monitor when none is primary.
pub proof fn lemma_fallback_monitor(config: SessionConfigView, monitors: Seq<MonitorInfoView>,
    windows: Seq<WindowInfoView>)
    requires
        monitors.len() > 0,
        config.monitor_id matches Some(sel) ==> forall|l: int| 0 <= l < monitors.len() ==> #[trigger] monitors[l].id
            != sel,
        forall|v: int| 0 <= v < windows.len() ==> #[trigger] windows[v].id != config.primary_window_id,
    ensures
        resolved_monitor(config, monitors, windows) matches Some(i) && 0 <= i < monitors.len() && (
            monitors[i].is_primary || (i == 0 && forall|l: int| 0 <= l < monitors.len() ==> !#[trigger] monitors[l].is_primary))
            && forall|l: int| 0 <= l < i ==> !#[trigger] monitors[l].is_primary,
{
    if config.monitor_id is Some {
        lemma_no_monitor(monitors, config.monitor_id->0, 0);
    }
    lemma_no_window(windows, config.primary_window_id, 0);
    lemma_primary_scan(monitors, 0);
}

proof fn lemma_no_window(windows: Seq<WindowInfoView>, id: Seq<char>, k: int)
    requires
        0 <= k,
        forall|v: int| 0 <= v < windows.len() ==> #[trigger] windows[v].id != id,
    ensures
        window_index_from(windows, id, k) is None,
    decreases windows.len() - k,
{
    if k < windows.len() {
        lemma_no_window(windows, id, k + 1);
    }
}

proof fn lemma_primary_scan(monitors: Seq<MonitorInfoView>, k: int)
    requires
        0 <= k <= monitors.len(),
    ensures
        primary_monitor_from(monitors, k) matches Some(i) ==> k <= i < monitors.len() && monitors[i].is_primary
            && forall|l: int| k <= l < i ==> !#[trigger] monitors[l].is_primary,
        primary_monitor_from(monitors, k) is None ==> forall|l: int| k <= l < monitors.len()
            ==> !#[trigger] monitors[l].is_primary,
    decreases monitors.len() - k,
{
    if k < monitors.len() {
        lemma_primary_scan(monitors, k + 1);
    }
}

/// Position of the first monitor with the given id.
pub fn find_monitor(monitors: &Vec<MonitorInfo>, id: &String) -> (r: Option<usize>)
    ensures
        r matches Some(i) ==> monitor_index_from(monitors.deep_view(), id@, 0) == Some(i as int),
        r is None ==> monitor_index_from(monitors.deep_view(), id@, 0) is None,
{
    let ghost ms = monitors.deep_view();
    let mut i: usize = 0;
    while i < monitors.len()
        invariant
            ms == monitors.deep_view(),
            i <= monitors@.len(),
            monitor_index_from(ms, id@, 0) == monitor_index_from(ms, id@, i as int),
        decreases monitors@.len() - i,
    {
        assert(ms[i as int] == monitors@[i as int]@);
        if monitors[i].id == *id {
            return Some(i);
        }
        i = i + 1;
    }
    None
}

/// Position of the first window with the given id.
fn find_window(windows: &Vec<WindowInfo>, id: &String) -> (r: Option<usize>)
    ensures
        r matches Some(i) ==> window_index_from(windows.deep_view(), id@, 0) == Some(i as int)
            && i < windows@.len(),
        r is None ==> window_index_from(windows.deep_view(), id@, 0) is None,
{
    let ghost ws = windows.deep_view();
    let mut i: usize = 0;
    while i < windows.len()
        invariant
            ws == windows.deep_view(),
            i <= windows@.len(),
            window_index_from(ws, id@, 0) == window_index_from(ws, id@, i as int),
        decreases windows@.len() - i,
    {
        assert(ws[i as int] == windows@[i as int]@);
        if windows[i].id == *id {
            return Some(i);
        }
        i = i + 1;
    }
    None
}

/// Position of the first primary monitor.
fn find_primary_monitor(monitors: &Vec<MonitorInfo>) -> (r: Option<usize>)
    ensures
        r matches Some(i) ==> primary_monitor_from(monitors.deep_view(), 0) == Some(i as int),
        r is None ==> primary_monitor_from(monitors.deep_view(), 0) is None,
{
    let ghost ms = monitors.deep_view();
    let mut i: usize = 0;
    while i < monitors.len()
        invariant
            ms == monitors.deep_view(),
            i <= monitors@.len(),
            primary_monitor_from(ms, 0) == primary_monitor_from(ms, i as int),
        decreases monitors@.len() - i,
    {
        assert(ms[i as int] == monitors@[i as int]@);
        if monitors[i].is_primary {
            return Some(i);
        }
        i = i + 1;
    }
    None
}

/// Why no layout could be made.
#[derive(Clone, Copy, Debug, PartialEq, Eq, Structural)]
pub enum LayoutError {
    NoMonitors,
}

impl LayoutError {
    /// The text shown for this error.
    pub fn message(&self) -> (m: String)
        ensures
            m@ == "No monitors were detected on this system."@,
    {
        "No monitors were detected on this system.".to_owned()
    }
}

/// Whether the monitor selected in `config` is listed; when it is, the primary window's
/// monitor is not consulted.
pub fn selected_monitor(config: &SessionConfig, monitors: &Vec<MonitorInfo>) -> (r: Option<usize>)
    ensures
        r matches Some(i) ==> config@.monitor_id is Some && monitor_index_from(monitors.deep_view(),
            config@.monitor_id->0, 0) == Some(i as int),
        r is None ==> !(config@.monitor_id is Some && monitor_index_from(monitors.deep_view(),
            config@.monitor_id->0, 0) is Some),
{
    match &config.monitor_id {
        Some(id) => find_monitor(monitors, id),
        None => None,
    }
}

/// The monitor that a session is laid out on, among `monitors`, using `windows` to find the
/// monitor of the primary window.
pub fn resolve_monitor(config: &SessionConfig, monitors: &Vec<MonitorInfo>, windows: &Vec<WindowInfo>)
    -> (r: Result<MonitorInfo, LayoutError>)
    ensures
        match resolved_monitor(config@, monitors.deep_view(), windows.deep_view()) {
            Some(i) => r matches Ok(m) && 0 <= i < monitors@.len() && m@ == monitors@[i]@,
            None => r == Err::<MonitorInfo, LayoutError>(LayoutError::NoMonitors),
        },
{
    let ghost ms = monitors.deep_view();
    let ghost ws = windows.deep_view();
    if monitors.len() == 0 {
        return Err(LayoutError::NoMonitors);
    }
    if let Some(i) = selected_monitor(config, monitors) {
        proof { lemma_index_from_bounds(ms, config@.monitor_id->0, 0); }
        return Ok(monitors[i].clone());
    }
    if let Some(w) = find_window(windows, &config.primary_window_id) {
        assert(ws[w as int] == windows@[w as int]@);
        if let Some(mid) = &windows[w].monitor_id {
            if let Some(i) = find_monitor(monitors, mid) {
                proof { lemma_index_from_bounds(ms, mid@, 0); }
                return Ok(monitors[i].clone());
            }
        }
    }
    match find_primary_monitor(monitors) {
        Some(i) => {
            proof { lemma_primary_from_bounds(ms, 0); }
            Ok(monitors[i].clone())
        },
        None => Ok(monitors[0].clone()),
    }
}

} // verus!
