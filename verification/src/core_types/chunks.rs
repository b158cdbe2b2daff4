//! The world grid: chunks, rectangles of chunks, and their borders.
use vstd::prelude::*;

verus! {

/// One cell of the world grid.
#[derive(Debug, Clone, Copy, Default, PartialEq, Eq, Hash, Structural)]
pub struct GameChunk {
    pub x: i16,
    pub y: i16,
}

/// A rectangle of chunks, bounds included on both ends.
#[derive(Debug, Clone, Copy, Default, PartialEq, Eq, Hash, Structural)]
pub struct GameChunkAera {
    pub x_min: i16,
    pub x_max: i16,
    pub y_min: i16,
    pub y_max: i16,
}

/// Whether `c` lies in the area, bounds included.
pub open spec fn area_contains(a: GameChunkAera, c: GameChunk) -> bool {
    a.x_min <= c.x <= a.x_max && a.y_min <= c.y <= a.y_max
}

/// The chunks of row `y` that an area's iteration visits: the whole row from
/// `x_min` to `x_max`, or only `x_min` when `x_min > x_max`.
pub open spec fn area_row(a: GameChunkAera, y: int) -> Seq<GameChunk> {
    if a.x_min <= a.x_max {
        Seq::new((a.x_max - a.x_min + 1) as nat, |i: int| GameChunk { x: (a.x_min + i) as i16, y: y as i16 })
    } else {
        seq![GameChunk { x: a.x_min, y: y as i16 }]
    }
}

/// The rows `y..=y_max` of an area, one after the other.
pub open spec fn area_rows_from(a: GameChunkAera, y: int) -> Seq<GameChunk>
    decreases a.y_max - y + 1,
{
    if y > a.y_max {
        Seq::empty()
    } else {
        area_row(a, y) + area_rows_from(a, y + 1)
    }
}

/// The rest of row `cy` after column `cx`.
pub open spec fn area_row_tail(a: GameChunkAera, cx: int, cy: int) -> Seq<GameChunk> {
    if cy <= a.y_max && cx < a.x_max {
        Seq::new((a.x_max - cx) as nat, |i: int| GameChunk { x: (cx + 1 + i) as i16, y: cy as i16 })
    } else {
        Seq::empty()
    }
}

/// The chunks an area's iteration yields, in order: row by row from `y_min`,
/// each row from `x_min` to `x_max`.  (When `x_min > x_max` it yields
/// `(x_min, y)` for `y` from `y_min + 1` to `y_max`.)
pub open spec fn area_chunks(a: GameChunkAera) -> Seq<GameChunk> {
    if a.x_min <= a.x_max {
        area_rows_from(a, a.y_min as int)
    } else {
        area_rows_from(a, a.y_min + 1)
    }
}

/// The four strips around an area at distance `margin`: the row below and the
/// row above (widened by `margin` on both sides), then the column left and
/// the column right (as tall as the area).
pub open spec fn border_areas(a: GameChunkAera, margin: int) -> Seq<GameChunkAera> {
    seq![
        GameChunkAera {
            x_min: (a.x_min - margin) as i16,
            x_max: (a.x_max + margin) as i16,
            y_min: (a.y_min - margin) as i16,
            y_max: (a.y_min - margin) as i16,
        },
        GameChunkAera {
            x_min: (a.x_min - margin) as i16,
            x_max: (a.x_max + margin) as i16,
            y_min: (a.y_max + margin) as i16,
            y_max: (a.y_max + margin) as i16,
        },
        GameChunkAera {
            x_min: (a.x_min - margin) as i16,
            x_max: (a.x_min - margin) as i16,
            y_min: a.y_min,
            y_max: a.y_max,
        },
        GameChunkAera {
            x_min: (a.x_max + margin) as i16,
            x_max: (a.x_max + margin) as i16,
            y_min: a.y_min,
            y_max: a.y_max,
        },
    ]
}

/// The chunks of the ring of width one around an area: the row below, the
/// row above, the column left and the column right, in that order.
pub open spec fn ring_chunks(a: GameChunkAera) -> Seq<GameChunk> {
    let b = border_areas(a, 1);
    area_chunks(b[0]) + area_chunks(b[1]) + area_chunks(b[2]) + area_chunks(b[3])
}

/// The ring around an area can be computed within sixteen bits.
pub open spec fn ring_defined(a: GameChunkAera) -> bool {
    &&& i16::MIN <= a.x_min - 1
    &&& a.x_max + 1 <= i16::MAX
    &&& i16::MIN <= a.y_min - 1
    &&& a.y_max + 1 <= i16::MAX
    &&& i16::MIN <= a.x_max - a.x_min <= i16::MAX
    &&& i16::MIN <= (a.x_max - a.x_min) * 2 <= i16::MAX
    &&& i16::MIN <= a.y_max - a.y_min <= i16::MAX
    &&& i16::MIN <= (a.y_max - a.y_min) * 2 <= i16::MAX
    &&& i16::MIN <= (a.x_max - a.x_min) * 2 + (a.y_max - a.y_min) * 2 <= i16::MAX
    &&& 0 <= (a.x_max - a.x_min) * 2 + (a.y_max - a.y_min) * 2 + 8 <= i16::MAX
    &&& forall|i: int| 0 <= i < 4 ==> area_iterable(#[trigger] border_areas(a, 1)[i])
}

/// Whether an area can be iterated to its end without overflow: the cursor
/// starts one column left of `x_min` and, when the area has rows or when
/// `x_min > x_max`, moves one row past the last row it visits.
pub open spec fn area_iterable(a: GameChunkAera) -> bool {
    &&& a.x_min > i16::MIN
    &&& a.y_min <= a.y_max ==> a.y_max < i16::MAX
    &&& (a.y_min > a.y_max && a.x_min > a.x_max) ==> a.y_min < i16::MAX
}

/// The rows of an area from row `y` on hold exactly its chunks at or above `y`.
proof fn lemma_rows_from_contents(a: GameChunkAera, y: int, c: GameChunk)
    requires
        a.x_min <= a.x_max,
        y >= a.y_min,
    ensures
        area_rows_from(a, y).contains(c) <==> (area_contains(a, c) && y <= c.y),
    decreases a.y_max - y + 1,
{
    if y <= a.y_max {
        lemma_rows_from_contents(a, y + 1, c);
        let row = area_row(a, y);
        assert(y as i16 == y);
        assert(forall|i: int| 0 <= i < row.len() ==> #[trigger] row[i].x == a.x_min + i);
        if row.contains(c) {
            let i = choose|i: int| 0 <= i < row.len() && row[i] == c;
            assert(c.x == a.x_min + i);
        }
        if c.y == y && a.x_min <= c.x <= a.x_max {
            assert(row[c.x - a.x_min] == c);
            assert(row.contains(c));
        }
        if row.contains(c) {
            let i = choose|i: int| 0 <= i < row.len() && row[i] == c;
            assert(c.y == y && a.x_min <= c.x <= a.x_max);
        }
        vstd::seq_lib::lemma_seq_concat_contains_all_elements(row, area_rows_from(a, y + 1), c);
        assert(area_rows_from(a, y) == row + area_rows_from(a, y + 1));
        assert(area_rows_from(a, y).contains(c) <==> (row.contains(c) || area_rows_from(a, y + 1).contains(c)));
        assert(row.contains(c) <==> (c.y == y && a.x_min <= c.x <= a.x_max));
    } else {
        assert(area_rows_from(a, y) =~= Seq::<GameChunk>::empty());
        assert(!Seq::<GameChunk>::empty().contains(c));
    }
}

/// Iterating an area whose x bounds are in order visits exactly the chunks the
/// area contains.
pub proof fn lemma_area_chunks_are_area(a: GameChunkAera, c: GameChunk)
    requires
        a.x_min <= a.x_max,
    ensures
        area_chunks(a).contains(c) <==> area_contains(a, c),
{
    lemma_rows_from_contents(a, a.y_min as int, c);
}

impl GameChunk {
    /// The smallest area holding every chunk; for no chunk, the empty area
    /// `x_min = y_min = i16::MAX`, `x_max = y_max = i16::MIN`.
    pub fn get_bounding_area(chunks: &[GameChunk]) -> (r: GameChunkAera)
        ensures
            forall|i: int| 0 <= i < chunks@.len() ==> area_contains(r, #[trigger] chunks@[i]),
            chunks@.len() == 0 ==> r == (GameChunkAera {
                x_min: i16::MAX,
                x_max: i16::MIN,
                y_min: i16::MAX,
                y_max: i16::MIN,
            }),
            chunks@.len() > 0 ==> {
                &&& exists|i: int| 0 <= i < chunks@.len() && #[trigger] chunks@[i].x == r.x_min
                &&& exists|i: int| 0 <= i < chunks@.len() && #[trigger] chunks@[i].x == r.x_max
                &&& exists|i: int| 0 <= i < chunks@.len() && #[trigger] chunks@[i].y == r.y_min
                &&& exists|i: int| 0 <= i < chunks@.len() && #[trigger] chunks@[i].y == r.y_max
            },
    {
        let mut bounding_aera = GameChunkAera {
            x_min: i16::MAX,
            x_max: i16::MIN,
            y_min: i16::MAX,
            y_max: i16::MIN,
        };
        let n = chunks.len();
        let mut k: usize = 0;
        while k < n
            invariant
                n == chunks@.len(),
                0 <= k <= n,
                forall|i: int| 0 <= i < k ==> area_contains(bounding_aera, #[trigger] chunks@[i]),
                k == 0 ==> bounding_aera == (GameChunkAera {
                    x_min: i16::MAX,
                    x_max: i16::MIN,
                    y_min: i16::MAX,
                    y_max: i16::MIN,
                }),
                k > 0 ==> {
                    &&& exists|i: int| 0 <= i < k && #[trigger] chunks@[i].x == bounding_aera.x_min
                    &&& exists|i: int| 0 <= i < k && #[trigger] chunks@[i].x == bounding_aera.x_max
                    &&& exists|i: int| 0 <= i < k && #[trigger] chunks@[i].y == bounding_aera.y_min
                    &&& exists|i: int| 0 <= i < k && #[trigger] chunks@[i].y == bounding_aera.y_max
                },
            decreases n - k,
        {
            let c = chunks[k];
            let ghost prev = bounding_aera;
            if c.x < bounding_aera.x_min {
                bounding_aera.x_min = c.x;
            }
            if c.x > bounding_aera.x_max {
                bounding_aera.x_max = c.x;
            }
            if c.y < bounding_aera.y_min {
                bounding_aera.y_min = c.y;
            }
            if c.y > bounding_aera.y_max {
                bounding_aera.y_max = c.y;
            }
            proof {
                assert(chunks@[k as int] == c);
                if k == 0 {
                    assert(bounding_aera.x_min == c.x && bounding_aera.x_max == c.x);
                    assert(bounding_aera.y_min == c.y && bounding_aera.y_max == c.y);
                } else {
                    if bounding_aera.x_min == prev.x_min {
                        let i = choose|i: int| 0 <= i < k && #[trigger] chunks@[i].x == prev.x_min;
                        assert(0 <= i < k + 1 && chunks@[i].x == bounding_aera.x_min);
                    }
                    if bounding_aera.x_max == prev.x_max {
                        let i = choose|i: int| 0 <= i < k && #[trigger] chunks@[i].x == prev.x_max;
                        assert(0 <= i < k + 1 && chunks@[i].x == bounding_aera.x_max);
                    }
                    if bounding_aera.y_min == prev.y_min {
                        let i = choose|i: int| 0 <= i < k && #[trigger] chunks@[i].y == prev.y_min;
                        assert(0 <= i < k + 1 && chunks@[i].y == bounding_aera.y_min);
                    }
                    if bounding_aera.y_max == prev.y_max {
                        let i = choose|i: int| 0 <= i < k && #[trigger] chunks@[i].y == prev.y_max;
                        assert(0 <= i < k + 1 && chunks@[i].y == bounding_aera.y_max);
                    }
                }
            }
            k = k + 1;
        }
        bounding_aera
    }
}

/// The eight neighbour offsets, in the order they are visited: x from -1 to
/// 1, and for each x, y from -1 to 1, the chunk itself left out.
pub open spec fn neighbor_offsets() -> Seq<(int, int)> {
    seq![(-1, -1), (-1, 0), (-1, 1), (0, -1), (0, 1), (1, -1), (1, 0), (1, 1)]
}

/// The `k`-th neighbour of `c`.
pub open spec fn neighbor(c: GameChunk, k: int) -> GameChunk {
    GameChunk {
        x: (c.x + neighbor_offsets()[k].0) as i16,
        y: (c.y + neighbor_offsets()[k].1) as i16,
    }
}

/// `acc` after visiting the neighbours `k..8` of `c`: each one that is not a
/// chunk and not yet in `acc` is appended.
pub open spec fn visit_neighbors(chunks: Seq<GameChunk>, acc: Seq<GameChunk>, c: GameChunk, k: int) -> Seq<GameChunk>
    decreases 8 - k,
{
    if k < 0 || k >= 8 {
        acc
    } else {
        let n = neighbor(c, k);
        let acc2 = if !chunks.contains(n) && !acc.contains(n) {
            acc.push(n)
        } else {
            acc
        };
        visit_neighbors(chunks, acc2, c, k + 1)
    }
}

/// The border found after visiting the neighbours of the first `i` chunks.
pub open spec fn borders_after(chunks: Seq<GameChunk>, i: int) -> Seq<GameChunk>
    decreases i,
{
    if i <= 0 {
        Seq::empty()
    } else {
        visit_neighbors(chunks, borders_after(chunks, i - 1), chunks[i - 1], 0)
    }
}

/// The inputs on which the border is computed without overflow or panic:
/// no chunk, or a margin of 0, or a margin of 1 with the chunks' bounding box
/// at least one chunk away from the smallest coordinate, two from the
/// largest, and less than 32765 chunks wide and tall.  (Larger margins reach
/// outside the grid the computation works on.)
pub open spec fn borders_defined(chunks: Seq<GameChunk>, margin: u8) -> bool {
    ||| chunks.len() == 0
    ||| margin == 0
    ||| {
        &&& margin == 1
        &&& forall|i: int|
            0 <= i < chunks.len() ==> i16::MIN < #[trigger] chunks[i].x <= 32765 && i16::MIN
                < chunks[i].y <= 32765
        &&& forall|i: int, j: int|
            0 <= i < chunks.len() && 0 <= j < chunks.len() ==> #[trigger] chunks[i].x
                - #[trigger] chunks[j].x <= 32764 && chunks[i].y - chunks[j].y <= 32764
    }
}

/// Whether `n` touches `c`, corners included.
pub open spec fn touches(n: GameChunk, c: GameChunk) -> bool {
    -1 <= n.x - c.x <= 1 && -1 <= n.y - c.y <= 1
}

/// The cell at grid position `(gx, gy)` of a grid whose origin is one chunk
/// below `(min_x, min_y)`.
spec fn grid_cell(gx: int, gy: int, min_x: int, min_y: int) -> GameChunk {
    GameChunk { x: (gx + min_x - 1) as i16, y: (gy + min_y - 1) as i16 }
}

/// The position of `(gx, gy)` in a grid stored row after row.
spec fn grid_index(gx: int, gy: int, w: int) -> int {
    gy * w + gx
}

proof fn lemma_grid_index(gx: int, gy: int, gx2: int, gy2: int, w: int, h: int)
    requires
        0 <= gx < w,
        0 <= gy < h,
        0 <= gx2 < w,
        0 <= gy2 < h,
    ensures
        0 <= grid_index(gx, gy, w) < w * h,
        grid_index(gx, gy, w) == grid_index(gx2, gy2, w) ==> gx == gx2 && gy == gy2,
{
    assert(0 <= gy * w + gx < w * h) by (nonlinear_arith)
        requires
            0 <= gx < w,
            0 <= gy < h,
    ;
    assert(gy * w + gx == gy2 * w + gx2 ==> gx == gx2 && gy == gy2) by (nonlinear_arith)
        requires
            0 <= gx < w,
            0 <= gy < h,
            0 <= gx2 < w,
            0 <= gy2 < h,
    ;
}

/// A grid of `w * h` flags, false everywhere.
fn false_grid(size: usize) -> (r: Vec<bool>)
    ensures
        r@.len() == size,
        forall|i: int| 0 <= i < size ==> !#[trigger] r@[i],
{
    let mut r: Vec<bool> = Vec::new();
    let mut i: usize = 0;
    while i < size
        invariant
            0 <= i <= size,
            r@.len() == i,
            forall|j: int| 0 <= j < i ==> !#[trigger] r@[j],
        decreases size - i,
    {
        r.push(false);
        i = i + 1;
    }
    r
}

impl GameChunk {
    /// The chunks around `chunks` that are not among them: with a margin of
    /// 1, every chunk touching one of them, corners included, once each, in
    /// the order they are met (chunk after chunk, neighbours x first then y);
    /// with a margin of 0 or no chunk, none.
    pub fn get_borders_of(chunks: &[GameChunk], margin: u8) -> (r: Vec<GameChunk>)
        requires
            borders_defined(chunks@, margin),
        ensures
            r@ == (if chunks@.len() == 0 || margin == 0 {
                Seq::<GameChunk>::empty()
            } else {
                borders_after(chunks@, chunks@.len() as int)
            }),
            r@.no_duplicates(),
            forall|n: GameChunk|
                r@.contains(n) <==> (margin != 0 && !chunks@.contains(n) && exists|i: int|
                    0 <= i < chunks@.len() && touches(n, #[trigger] chunks@[i])),
    {
        if chunks.len() == 0 || margin == 0 {
            return Vec::new();
        }
        let bounds = GameChunk::get_bounding_area(chunks);
        let min_x = bounds.x_min;
        let max_x = bounds.x_max;
        let min_y = bounds.y_min;
        let max_y = bounds.y_max;
        proof {
            let a = choose|i: int| 0 <= i < chunks@.len() && chunks@[i].x == min_x;
            let b = choose|i: int| 0 <= i < chunks@.len() && chunks@[i].x == max_x;
            let c = choose|i: int| 0 <= i < chunks@.len() && chunks@[i].y == min_y;
            let d = choose|i: int| 0 <= i < chunks@.len() && chunks@[i].y == max_y;
            assert(chunks@[b].x - chunks@[a].x <= 32764);
            assert(chunks@[d].y - chunks@[c].y <= 32764);
        }
        let width = (max_x - min_x + 3) as usize;
        let height = (max_y - min_y + 3) as usize;
        assert(width * height <= 32767 * 32767) by (nonlinear_arith)
            requires
                width <= 32767,
                height <= 32767,
        ;
        let size = width * height;
        let mut is_chunk = false_grid(size);
        let mut is_border = false_grid(size);
        let ghost w = width as int;
        let ghost h = height as int;
        let ghost mx = min_x as int;
        let ghost my = min_y as int;
        assert forall|gx: int, gy: int| 0 <= gx < w && 0 <= gy < h implies #[trigger] is_chunk@[grid_index(gx, gy, w)]
            == chunks@.take(0).contains(grid_cell(gx, gy, mx, my))
            && !is_border@[grid_index(gx, gy, w)] by {
            lemma_grid_index(gx, gy, gx, gy, w, h);
        }
        let n = chunks.len();
        let mut i: usize = 0;
        while i < n
            invariant
                n == chunks@.len(),
                0 <= i <= n,
                w == width,
                h == height,
                size == w * h,
                mx == min_x,
                my == min_y,
                width == max_x - min_x + 3,
                height == max_y - min_y + 3,
                width <= 32767,
                height <= 32767,
                i16::MIN < min_x,
                i16::MIN < min_y,
                max_x <= 32765,
                max_y <= 32765,
                forall|j: int| 0 <= j < n ==> area_contains(bounds, #[trigger] chunks@[j]),
                bounds.x_min == min_x && bounds.x_max == max_x && bounds.y_min == min_y
                    && bounds.y_max == max_y,
                is_chunk@.len() == size,
                forall|gx: int, gy: int|
                    0 <= gx < w && 0 <= gy < h ==> #[trigger] is_chunk@[grid_index(gx, gy, w)]
                        == chunks@.take(i as int).contains(grid_cell(gx, gy, mx, my)),
            decreases n - i,
        {
            let c = chunks[i];
            let gx = (c.x - min_x + 1) as usize;
            let gy = (c.y - min_y + 1) as usize;
            proof {
                lemma_grid_index(gx as int, gy as int, gx as int, gy as int, w, h);
            }
            let idx = gy * width + gx;
            let ghost before_chunk = is_chunk@;
            is_chunk.set(idx, true);
            proof {
                assert forall|gx2: int, gy2: int|
                    0 <= gx2 < w && 0 <= gy2 < h implies #[trigger] is_chunk@[grid_index(
                    gx2,
                    gy2,
                    w,
                )] == chunks@.take(i + 1).contains(grid_cell(gx2, gy2, mx, my)) by {
                    lemma_grid_index(gx as int, gy as int, gx2, gy2, w, h);
                    lemma_grid_index(gx2, gy2, gx2, gy2, w, h);
                    let cell = grid_cell(gx2, gy2, mx, my);
                    let t0 = chunks@.take(i as int);
                    assert(is_chunk@ == before_chunk.update(idx as int, true));
                    assert(idx as int == grid_index(gx as int, gy as int, w));
                    let t1 = chunks@.take(i + 1);
                    assert(t1 =~= t0.push(c));
                    if gx2 == gx && gy2 == gy {
                        assert(cell == c);
                        assert(t1[i as int] == c);
                    } else {
                        assert(cell != c);
                        if t0.contains(cell) {
                            let k = choose|k: int| 0 <= k < t0.len() && t0[k] == cell;
                            assert(t1[k] == cell);
                        }
                        if t1.contains(cell) {
                            let k = choose|k: int| 0 <= k < t1.len() && t1[k] == cell;
                            assert(t0[k] == cell);
                        }
                        assert(grid_index(gx2, gy2, w) != idx as int);
                    }
                }
            }
            i = i + 1;
        }
        assert(chunks@.take(n as int) =~= chunks@);
        let dxs: [usize; 8] = [0, 0, 0, 1, 1, 2, 2, 2];
        let dys: [usize; 8] = [0, 1, 2, 0, 2, 0, 1, 2];
        let mut borders: Vec<GameChunk> = Vec::new();
        assert forall|gx: int, gy: int| 0 <= gx < w && 0 <= gy < h implies #[trigger] is_border@[grid_index(gx, gy, w)]
            == borders@.contains(grid_cell(gx, gy, mx, my)) by {
            lemma_grid_index(gx, gy, gx, gy, w, h);
        }
        let mut i: usize = 0;
        while i < n
            invariant
                n == chunks@.len(),
                0 <= i <= n,
                w == width,
                h == height,
                size == w * h,
                mx == min_x,
                my == min_y,
                width == max_x - min_x + 3,
                height == max_y - min_y + 3,
                width <= 32767,
                height <= 32767,
                i16::MIN < min_x,
                i16::MIN < min_y,
                max_x <= 32765,
                max_y <= 32765,
                forall|j: int| 0 <= j < n ==> area_contains(bounds, #[trigger] chunks@[j]),
                bounds.x_min == min_x && bounds.x_max == max_x && bounds.y_min == min_y
                    && bounds.y_max == max_y,
                dxs@ == seq![0usize, 0, 0, 1, 1, 2, 2, 2],
                dys@ == seq![0usize, 1, 2, 0, 2, 0, 1, 2],
                is_chunk@.len() == size,
                is_border@.len() == size,
                forall|gx: int, gy: int|
                    0 <= gx < w && 0 <= gy < h ==> #[trigger] is_chunk@[grid_index(gx, gy, w)]
                        == chunks@.contains(grid_cell(gx, gy, mx, my)),
                forall|gx: int, gy: int|
                    0 <= gx < w && 0 <= gy < h ==> #[trigger] is_border@[grid_index(gx, gy, w)]
                        == borders@.contains(grid_cell(gx, gy, mx, my)),
                borders@ == borders_after(chunks@, i as int),
            decreases n - i,
        {
            let c = chunks[i];
            let gx = (c.x - min_x + 1) as usize;
            let gy = (c.y - min_y + 1) as usize;
            let ghost target = visit_neighbors(chunks@, borders@, c, 0);
            let mut k: usize = 0;
            while k < 8
                invariant
                    n == chunks@.len(),
                    0 <= i < n,
                    0 <= k <= 8,
                    c == chunks@[i as int],
                    w == width,
                    h == height,
                    size == w * h,
                    mx == min_x,
                    my == min_y,
                    1 <= gx <= w - 2,
                    1 <= gy <= h - 2,
                    gx == c.x - min_x + 1,
                    gy == c.y - min_y + 1,
                    width <= 32767,
                    height <= 32767,
                    i16::MIN < min_x,
                    i16::MIN < min_y,
                    max_x <= 32765,
                    max_y <= 32765,
                    width == max_x - min_x + 3,
                    height == max_y - min_y + 3,
                    dxs@ == seq![0usize, 0, 0, 1, 1, 2, 2, 2],
                    dys@ == seq![0usize, 1, 2, 0, 2, 0, 1, 2],
                    is_chunk@.len() == size,
                    is_border@.len() == size,
                    forall|gx2: int, gy2: int|
                        0 <= gx2 < w && 0 <= gy2 < h ==> #[trigger] is_chunk@[grid_index(
                            gx2,
                            gy2,
                            w,
                        )] == chunks@.contains(grid_cell(gx2, gy2, mx, my)),
                    forall|gx2: int, gy2: int|
                        0 <= gx2 < w && 0 <= gy2 < h ==> #[trigger] is_border@[grid_index(
                            gx2,
                            gy2,
                            w,
                        )] == borders@.contains(grid_cell(gx2, gy2, mx, my)),
                    visit_neighbors(chunks@, borders@, c, k as int) == target,
                decreases 8 - k,
            {
                let nx = gx + dxs[k] - 1;
                let ny = gy + dys[k] - 1;
                proof {
                    lemma_grid_index(nx as int, ny as int, nx as int, ny as int, w, h);
                    assert(grid_cell(nx as int, ny as int, mx, my) == neighbor(c, k as int));
                }
                let idx = ny * width + nx;
                if !is_chunk[idx] && !is_border[idx] {
                    let ghost before = borders@;
                    let ghost before_border = is_border@;
                    is_border.set(idx, true);
                    let cell = GameChunk { x: nx as i16 + min_x - 1, y: ny as i16 + min_y - 1 };
                    borders.push(cell);
                    proof {
                        assert forall|gx2: int, gy2: int|
                            0 <= gx2 < w && 0 <= gy2 < h implies #[trigger] is_border@[grid_index(
                            gx2,
                            gy2,
                            w,
                        )] == borders@.contains(grid_cell(gx2, gy2, mx, my)) by {
                            lemma_grid_index(nx as int, ny as int, gx2, gy2, w, h);
                            lemma_grid_index(gx2, gy2, gx2, gy2, w, h);
                            let cell2 = grid_cell(gx2, gy2, mx, my);
                            assert(before_border[grid_index(gx2, gy2, w)] == before.contains(cell2));
                            if gx2 == nx && gy2 == ny {
                                assert(borders@[before.len() as int] == cell2);
                            } else {
                                assert(cell2 != cell);
                                if before.contains(cell2) {
                                    let j = choose|j: int| 0 <= j < before.len() && before[j] == cell2;
                                    assert(borders@[j] == cell2);
                                }
                                if borders@.contains(cell2) {
                                    let j = choose|j: int| 0 <= j < borders@.len() && borders@[j] == cell2;
                                    assert(before[j] == cell2);
                                }
                            }
                        }
                    }
                }
                k = k + 1;
            }
            i = i + 1;
        }
        proof {
            lemma_borders_after(chunks@, n as int);
            assert forall|p: GameChunk| borders@.contains(p) <==> (margin != 0 && !chunks@.contains(p)
                && exists|j: int| 0 <= j < chunks@.len() && touches(p, #[trigger] chunks@[j])) by {
                assert(borders@.contains(p) <==> (!chunks@.contains(p) && exists|j: int|
                    0 <= j < n as int && touches(p, #[trigger] chunks@[j])));
            }
        }
        borders
    }
}

/// The neighbours of `c` are exactly the other chunks touching it.
proof fn lemma_neighbors_touch(c: GameChunk, n: GameChunk)
    requires
        i16::MIN < c.x < i16::MAX,
        i16::MIN < c.y < i16::MAX,
    ensures
        (exists|m: int| 0 <= m < 8 && #[trigger] neighbor(c, m) == n) <==> (touches(n, c) && n
            != c),
{
    if touches(n, c) && n != c {
        let dx = n.x - c.x;
        let dy = n.y - c.y;
        let m = if dx == -1 {
            dy + 1
        } else if dx == 0 {
            if dy == -1 {
                3
            } else {
                4
            }
        } else {
            dy + 6
        };
        assert(neighbor(c, m) == n);
    }
    if exists|m: int| 0 <= m < 8 && #[trigger] neighbor(c, m) == n {
        let m = choose|m: int| 0 <= m < 8 && #[trigger] neighbor(c, m) == n;
        assert(touches(n, c) && n != c);
    }
}

/// What the border holds after the first `i` chunks: no chunk twice, and
/// exactly the non-chunks touching one of those chunks.
proof fn lemma_borders_after(chunks: Seq<GameChunk>, i: int)
    requires
        0 <= i <= chunks.len(),
        forall|j: int|
            0 <= j < chunks.len() ==> i16::MIN < #[trigger] chunks[j].x < i16::MAX && i16::MIN
                < chunks[j].y < i16::MAX,
    ensures
        borders_after(chunks, i).no_duplicates(),
        forall|n: GameChunk|
            borders_after(chunks, i).contains(n) <==> (!chunks.contains(n) && exists|j: int|
                0 <= j < i && touches(n, #[trigger] chunks[j])),
    decreases i,
{
    if i > 0 {
        lemma_borders_after(chunks, i - 1);
        let c = chunks[i - 1];
        lemma_visit_neighbors(chunks, borders_after(chunks, i - 1), c, 0);
        let r = borders_after(chunks, i);
        assert forall|n: GameChunk| r.contains(n) <==> (!chunks.contains(n) && exists|j: int|
            0 <= j < i && touches(n, #[trigger] chunks[j])) by {
            lemma_neighbors_touch(c, n);
            if chunks.contains(n) && touches(n, c) {
            }
            if !chunks.contains(n) && touches(n, c) && n != c {
                assert(exists|j: int| 0 <= j < i && touches(n, #[trigger] chunks[j]));
            }
            if !chunks.contains(n) && (exists|j: int| 0 <= j < i && touches(n, #[trigger] chunks[j])) {
                let j = choose|j: int| 0 <= j < i && touches(n, #[trigger] chunks[j]);
                if j < i - 1 {
                } else {
                    assert(chunks[j] == c);
                    assert(n != c);
                }
            }
        }
    }
}

/// Visiting the neighbours `k..8` of `c` adds exactly the non-chunks among
/// them that are not already there, and keeps the border free of doubles.
proof fn lemma_visit_neighbors(chunks: Seq<GameChunk>, acc: Seq<GameChunk>, c: GameChunk, k: int)
    requires
        0 <= k <= 8,
        acc.no_duplicates(),
        forall|n: GameChunk| acc.contains(n) ==> !chunks.contains(n),
        i16::MIN < c.x < i16::MAX,
        i16::MIN < c.y < i16::MAX,
    ensures
        visit_neighbors(chunks, acc, c, k).no_duplicates(),
        forall|n: GameChunk|
            visit_neighbors(chunks, acc, c, k).contains(n) <==> (acc.contains(n) || (
            !chunks.contains(n) && exists|m: int| k <= m < 8 && #[trigger] neighbor(c, m) == n)),
    decreases 8 - k,
{
    if k < 8 {
        let n0 = neighbor(c, k);
        let acc2 = if !chunks.contains(n0) && !acc.contains(n0) {
            acc.push(n0)
        } else {
            acc
        };
        assert forall|n: GameChunk| acc2.contains(n) <==> (acc.contains(n) || (!chunks.contains(n)
            && n == n0)) by {
            if acc2.contains(n) && !acc.contains(n) {
                let j = choose|j: int| 0 <= j < acc2.len() && acc2[j] == n;
                assert(j == acc.len());
            }
            if acc.contains(n) && acc2 != acc {
                let j = choose|j: int| 0 <= j < acc.len() && acc[j] == n;
                assert(acc2[j] == n);
            }
            if !chunks.contains(n) && n == n0 && !acc.contains(n) {
                assert(acc2[acc.len() as int] == n);
            }
        }
        assert(acc2.no_duplicates()) by {
            if acc2 != acc {
                assert forall|a: int, b: int| 0 <= a < acc2.len() && 0 <= b < acc2.len() && a != b
                    implies acc2[a] != acc2[b] by {
                    if a == acc.len() {
                        assert(acc.contains(acc2[b]) || acc2[b] == n0);
                    }
                    if b == acc.len() {
                        assert(acc.contains(acc2[a]) || acc2[a] == n0);
                    }
                }
            }
        }
        lemma_visit_neighbors(chunks, acc2, c, k + 1);
        assert forall|n: GameChunk| visit_neighbors(chunks, acc, c, k).contains(n) <==> (acc.contains(n) || (
            !chunks.contains(n) && exists|m: int| k <= m < 8 && #[trigger] neighbor(c, m) == n)) by {
            if !chunks.contains(n) && exists|m: int| k <= m < 8 && #[trigger] neighbor(c, m) == n {
                let m = choose|m: int| k <= m < 8 && #[trigger] neighbor(c, m) == n;
                if m > k {
                    assert(exists|m2: int| k + 1 <= m2 < 8 && #[trigger] neighbor(c, m2) == n);
                }
            }
        }
    }
}

impl GameChunkAera {
    /// Whether `chunk` lies in the area, bounds included.
    pub fn contains(&self, chunk: GameChunk) -> (r: bool)
        ensures
            r == area_contains(*self, chunk),
    {
        chunk.x >= self.x_min && chunk.x <= self.x_max && chunk.y >= self.y_min && chunk.y
            <= self.y_max
    }

    /// An iteration over the area's chunks, row by row (see `area_chunks`).
    pub fn iter(&self) -> (r: GameChunkAeraIterator<'_>)
        requires
            self.x_min > i16::MIN,
        ensures
            r.area() == *self,
            r.remaining() == area_chunks(*self),
            area_iterable(*self) ==> r.can_finish(),
    {
        let r = GameChunkAeraIterator { area: self, c_x: self.x_min - 1, c_y: self.y_min };
        proof {
            if self.x_min <= self.x_max && self.y_min <= self.y_max {
                assert(area_row_tail(*self, self.x_min - 1, self.y_min as int) =~= area_row(
                    *self,
                    self.y_min as int,
                ));
            }
        }
        r
    }

    /// The four strips around the area at distance `margin` (see
    /// `border_areas`).
    pub fn get_borders_as_aera(&self, margin: i8) -> (r: Vec<GameChunkAera>)
        requires
            i16::MIN <= self.x_min - margin <= i16::MAX,
            i16::MIN <= self.x_max + margin <= i16::MAX,
            i16::MIN <= self.y_min - margin <= i16::MAX,
            i16::MIN <= self.y_max + margin <= i16::MAX,
        ensures
            r@ == border_areas(*self, margin as int),
    {
        let m = margin as i16;
        let left = self.x_min - m;
        let right = self.x_max + m;
        let bottom = self.y_min - m;
        let top = self.y_max + m;
        let mut aeras: Vec<GameChunkAera> = Vec::new();
        aeras.push(GameChunkAera { x_min: left, x_max: right, y_min: bottom, y_max: bottom });
        aeras.push(GameChunkAera { x_min: left, x_max: right, y_min: top, y_max: top });
        aeras.push(GameChunkAera { x_min: left, x_max: left, y_min: self.y_min, y_max: self.y_max });
        aeras.push(GameChunkAera { x_min: right, x_max: right, y_min: self.y_min, y_max: self.y_max });
        assert(aeras@ =~= border_areas(*self, margin as int));
        aeras
    }

    /// The chunks of the four strips around the area, strip after strip (see
    /// `border_areas` and `area_chunks`).
    pub fn get_borders(&self, margin: i8) -> (r: Vec<GameChunk>)
        requires
            i16::MIN <= self.x_min - margin <= i16::MAX,
            i16::MIN <= self.x_max + margin <= i16::MAX,
            i16::MIN <= self.y_min - margin <= i16::MAX,
            i16::MIN <= self.y_max + margin <= i16::MAX,
            i16::MIN <= self.x_max - self.x_min <= i16::MAX,
            i16::MIN <= (self.x_max - self.x_min) * 2 <= i16::MAX,
            i16::MIN <= self.y_max - self.y_min <= i16::MAX,
            i16::MIN <= (self.y_max - self.y_min) * 2 <= i16::MAX,
            i16::MIN <= (self.x_max - self.x_min) * 2 + (self.y_max - self.y_min) * 2 <= i16::MAX,
            0 <= (self.x_max - self.x_min) * 2 + (self.y_max - self.y_min) * 2 + 8 <= i16::MAX,
            forall|i: int|
                0 <= i < 4 ==> area_iterable(#[trigger] border_areas(*self, margin as int)[i]),
        ensures
            r@ == area_chunks(border_areas(*self, margin as int)[0]) + area_chunks(
                border_areas(*self, margin as int)[1],
            ) + area_chunks(border_areas(*self, margin as int)[2]) + area_chunks(
                border_areas(*self, margin as int)[3],
            ),
    {
        let _capacity: i16 = (self.x_max - self.x_min) * 2 + (self.y_max - self.y_min) * 2 + 8;
        let mut chunks: Vec<GameChunk> = Vec::new();
        let aeras = self.get_borders_as_aera(margin);
        let ghost b = border_areas(*self, margin as int);
        let mut k: usize = 0;
        while k < 4
            invariant
                0 <= k <= 4,
                aeras@ == b,
                b == border_areas(*self, margin as int),
                forall|i: int| 0 <= i < 4 ==> area_iterable(#[trigger] b[i]),
                chunks@ == (if k == 0 {
                    Seq::empty()
                } else if k == 1 {
                    area_chunks(b[0])
                } else if k == 2 {
                    area_chunks(b[0]) + area_chunks(b[1])
                } else if k == 3 {
                    area_chunks(b[0]) + area_chunks(b[1]) + area_chunks(b[2])
                } else {
                    area_chunks(b[0]) + area_chunks(b[1]) + area_chunks(b[2]) + area_chunks(b[3])
                }),
            decreases 4 - k,
        {
            let aera = aeras[k];
            assert(area_iterable(b[k as int]));
            let ghost before = chunks@;
            let mut it = aera.iter();
            loop
                invariant_except_break
                    it.can_finish(),
                invariant
                    it.area() == aera,
                    chunks@ + it.remaining() == before + area_chunks(aera),
                ensures
                    chunks@ == before + area_chunks(aera),
                decreases it.remaining().len(),
            {
                proof {
                    it.lemma_can_finish();
                }
                match it.next() {
                    Some(chunk) => {
                        chunks.push(chunk);
                    },
                    None => {
                        assert(chunks@ =~= before + area_chunks(aera));
                        break;
                    },
                }
            }
            assert(chunks@ =~= before + area_chunks(aera));
            k = k + 1;
        }
        chunks
    }
}

/// A converted chunk is the area of that chunk alone.
pub open spec fn area_of_chunk(chunk: GameChunk) -> GameChunkAera {
    GameChunkAera { x_min: chunk.x, x_max: chunk.x, y_min: chunk.y, y_max: chunk.y }
}

impl From<GameChunk> for GameChunkAera {
    fn from(chunk: GameChunk) -> (r: Self)
        ensures
            r == area_of_chunk(chunk),
    {
        GameChunkAera { x_min: chunk.x, x_max: chunk.x, y_min: chunk.y, y_max: chunk.y }
    }
}

impl vstd::std_specs::convert::FromSpecImpl<GameChunk> for GameChunkAera {
    open spec fn obeys_from_spec() -> bool {
        true
    }

    open spec fn from_spec(chunk: GameChunk) -> Self {
        area_of_chunk(chunk)
    }
}

/// The iteration over an area's chunks.  Its cursor starts one column left of
/// the area's first row and moves right, then to the start of the next row.
pub struct GameChunkAeraIterator<'a> {
    area: &'a GameChunkAera,
    c_x: i16,
    c_y: i16,
}

impl<'a> GameChunkAeraIterator<'a> {
    /// The area iterated over.
    pub closed spec fn area(&self) -> GameChunkAera {
        *self.area
    }

    /// The chunks still to come, in order.
    pub closed spec fn remaining(&self) -> Seq<GameChunk> {
        area_row_tail(*self.area, self.c_x as int, self.c_y as int) + area_rows_from(
            *self.area,
            self.c_y + 1,
        )
    }

    /// Whether the next step can move the cursor without overflow.
    pub closed spec fn can_advance(&self) -> bool {
        self.c_x < self.area.x_max || self.c_y < i16::MAX
    }

    /// Whether every step until the iteration's end can move the cursor: while
    /// the cursor is in the area's rows, the row past the last one exists.
    pub closed spec fn can_finish(&self) -> bool {
        &&& self.c_y <= self.area.y_max ==> self.area.y_max < i16::MAX
        &&& self.c_y > self.area.y_max ==> self.can_advance()
    }

    /// An iteration that can finish can take its next step.
    pub proof fn lemma_can_finish(&self)
        ensures
            self.can_finish() ==> self.can_advance(),
    {
    }

    /// The next chunk, if any.
    pub fn next(&mut self) -> (r: Option<GameChunk>)
        requires
            old(self).can_advance(),
        ensures
            final(self).area() == old(self).area(),
            old(self).remaining().len() == 0 ==> r is None && final(self).remaining().len() == 0,
            old(self).remaining().len() > 0 ==> r == Some(old(self).remaining()[0])
                && final(self).remaining() == old(self).remaining().drop_first(),
            old(self).can_finish() && r is Some ==> final(self).can_finish(),
    {
        let ghost a = *self.area;
        let ghost cx = self.c_x as int;
        let ghost cy = self.c_y as int;
        if self.c_x < self.area.x_max {
            self.c_x = self.c_x + 1;
        } else {
            self.c_x = self.area.x_min;
            self.c_y = self.c_y + 1;
        }
        let r = if self.c_y > self.area.y_max {
            None
        } else {
            Some(GameChunk { x: self.c_x, y: self.c_y })
        };
        proof {
            if cx < a.x_max {
                if cy <= a.y_max {
                    assert(area_row_tail(a, cx + 1, cy) =~= area_row_tail(a, cx, cy).drop_first());
                } else {
                    assert(area_rows_from(a, cy + 1) =~= Seq::<GameChunk>::empty());
                }
            } else {
                if cy + 1 > a.y_max {
                    assert(area_rows_from(a, cy + 1) =~= Seq::<GameChunk>::empty());
                    assert(area_rows_from(a, cy + 2) =~= Seq::<GameChunk>::empty());
                } else {
                    assert(area_row_tail(a, a.x_min as int, cy + 1) =~= area_row(a, cy + 1).drop_first());
                }
            }
            assert(self.remaining() =~= if old(self).remaining().len() == 0 {
                old(self).remaining()
            } else {
                old(self).remaining().drop_first()
            });
        }
        r
    }
}

} // verus!
