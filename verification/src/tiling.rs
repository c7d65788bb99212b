//! The master-stack tiling engine.
//!
//! The records that take a tile are the tiled ones that are neither
//! minimised nor covering the screen, in store order. A single one fills
//! the screen. Otherwise the first, the master, gets the left half and the
//! others share the right half in equal slices from top to bottom; pixels
//! that do not divide evenly are left unused.

use vstd::prelude::*;
use crate::store::FullscreenWindow;
use crate::types::{Geometry, PrevOrNext, Screen};

verus! {

/// How many of the first `upto` records of `ws` take a tile.
pub open spec fn tiles_before(ws: Seq<FullscreenWindow>, upto: int) -> nat
    decreases upto,
{
    if upto <= 0 {
        0
    } else {
        tiles_before(ws, upto - 1) + if ws[upto - 1].takes_tile() {
            1nat
        } else {
            0nat
        }
    }
}

/// How many records of `ws` take a tile.
pub open spec fn tile_count(ws: Seq<FullscreenWindow>) -> nat {
    tiles_before(ws, ws.len() as int)
}

/// The height of one slice of the right half when `n` records take a tile.
pub open spec fn slice_height(screen: Screen, n: nat) -> int {
    if n >= 2 {
        screen.height as int / (n - 1)
    } else {
        screen.height as int
    }
}

/// The tile of the record of the given rank among `n` that take a tile.
pub open spec fn tile_rect(screen: Screen, rank: nat, n: nat) -> Geometry {
    if n <= 1 {
        screen.rect()
    } else if rank == 0 {
        Geometry { x: 0, y: 0, width: screen.width / 2, height: screen.height }
    } else {
        Geometry {
            x: (screen.width / 2) as i32,
            y: ((rank - 1) * slice_height(screen, n)) as i32,
            width: screen.width / 2,
            height: slice_height(screen, n) as u32,
        }
    }
}

/// Where the record at `i` is drawn: over the whole screen if it covers it,
/// at its saved geometry if it floats, in its tile if it takes one; a
/// minimised tiled record keeps the geometry it had.
pub open spec fn drawn_at(ws: Seq<FullscreenWindow>, screen: Screen, i: int) -> Geometry {
    let r = ws[i];
    if r.fullscreen {
        screen.rect()
    } else if r.floating() {
        r.saved_geometry
    } else if r.minimised {
        r.geometry
    } else {
        tile_rect(screen, tiles_before(ws, i), tile_count(ws))
    }
}

/// `ws` with every record drawn where `drawn_at` puts it.
pub open spec fn retiled(ws: Seq<FullscreenWindow>, screen: Screen) -> Seq<FullscreenWindow> {
    Seq::new(ws.len(), |i: int| ws[i].with_geometry(drawn_at(ws, screen, i)))
}

/// The position of the first record at or after `from` that takes a tile,
/// or the length of `ws` if there is none.
pub open spec fn first_tile_from(ws: Seq<FullscreenWindow>, from: int) -> int
    decreases ws.len() - from,
{
    if from >= ws.len() {
        ws.len() as int
    } else if ws[from].takes_tile() {
        from
    } else {
        first_tile_from(ws, from + 1)
    }
}

/// The position of the master, the first record that takes a tile, or the
/// length of `ws` if none does.
pub open spec fn first_tile(ws: Seq<FullscreenWindow>) -> int {
    first_tile_from(ws, 0)
}

/// The position next to `i` in the given direction, in a store of `len`
/// records whose two ends are joined.
pub open spec fn step(len: int, i: int, dir: PrevOrNext) -> int {
    match dir {
        PrevOrNext::Next => if i + 1 < len {
            i + 1
        } else {
            0
        },
        PrevOrNext::Prev => if i > 0 {
            i - 1
        } else {
            len - 1
        },
    }
}

/// How many steps in the given direction lead from `i` to `stop`; a full
/// round when the two are equal.
pub open spec fn steps_to(len: int, i: int, stop: int, dir: PrevOrNext) -> int {
    match dir {
        PrevOrNext::Next => if i < stop {
            stop - i
        } else {
            stop + len - i
        },
        PrevOrNext::Prev => if i > stop {
            i - stop
        } else {
            i + len - stop
        },
    }
}

/// The position of the nearest visible tiled record that a walk from `i` in
/// the given direction meets before it arrives at `stop`; `None` if it
/// arrives at `stop` first. Floating and minimised records are passed over.
pub open spec fn tile_neighbour(
    ws: Seq<FullscreenWindow>,
    i: int,
    stop: int,
    dir: PrevOrNext,
) -> Option<int>
    decreases steps_to(ws.len() as int, i, stop, dir),
{
    if 0 <= i < ws.len() && 0 <= stop < ws.len() {
        let j = step(ws.len() as int, i, dir);
        if j == stop {
            None
        } else if ws[j].shows_tile() {
            Some(j)
        } else {
            tile_neighbour(ws, j, stop, dir)
        }
    } else {
        None
    }
}

/// The position `k` lies on the way from `a` to `b` in the given direction,
/// both ends left out; with `a` equal to `b` the way leads once round the
/// store.
pub open spec fn on_the_way(len: int, a: int, b: int, k: int, dir: PrevOrNext) -> bool {
    match dir {
        PrevOrNext::Next => if a < b {
            a < k < b
        } else {
            a < k < len || 0 <= k < b
        },
        PrevOrNext::Prev => if a > b {
            b < k < a
        } else {
            0 <= k < a || b < k < len
        },
    }
}

/// What `tile_neighbour` finds is the nearest visible tiled record on the
/// way to `stop`: no record before it on the way is one. When it finds
/// nothing, no record on the way to `stop` is one.
pub proof fn lemma_tile_neighbour(ws: Seq<FullscreenWindow>, i: int, stop: int, dir: PrevOrNext)
    requires
        0 <= i < ws.len(),
        0 <= stop < ws.len(),
    ensures
        match tile_neighbour(ws, i, stop, dir) {
            Some(j) => {
                &&& 0 <= j < ws.len()
                &&& j != stop
                &&& ws[j].shows_tile()
                &&& on_the_way(ws.len() as int, i, stop, j, dir)
                &&& forall|k: int|
                    on_the_way(ws.len() as int, i, j, k, dir) ==> !(#[trigger] ws[k]).shows_tile()
            },
            None => forall|k: int|
                on_the_way(ws.len() as int, i, stop, k, dir) ==> !(#[trigger] ws[k]).shows_tile(),
        },
    decreases steps_to(ws.len() as int, i, stop, dir),
{
    let j = step(ws.len() as int, i, dir);
    if j != stop && !ws[j].shows_tile() {
        lemma_tile_neighbour(ws, j, stop, dir);
    }
}

/// Two stores whose records agree, position by position, on whether they
/// take a tile have the same number of tiles in every prefix.
pub proof fn lemma_tiles_before_agree(a: Seq<FullscreenWindow>, b: Seq<FullscreenWindow>, upto: int)
    requires
        upto <= a.len(),
        upto <= b.len(),
        forall|k: int| 0 <= k < upto ==> a[k].takes_tile() == b[k].takes_tile(),
    ensures
        tiles_before(a, upto) == tiles_before(b, upto),
    decreases upto,
{
    if upto > 0 {
        lemma_tiles_before_agree(a, b, upto - 1);
    }
}

/// The number of tiles in a prefix grows with the prefix, by at most one
/// per record.
pub proof fn lemma_tiles_before_grows(ws: Seq<FullscreenWindow>, i: int, j: int)
    requires
        0 <= i <= j,
    ensures
        tiles_before(ws, i) <= tiles_before(ws, j) <= tiles_before(ws, i) + (j - i),
    decreases j - i,
{
    if i < j {
        lemma_tiles_before_grows(ws, i, j - 1);
    }
}

/// A record that takes a tile has a rank below the number of tiles.
pub proof fn lemma_rank_below_count(ws: Seq<FullscreenWindow>, i: int)
    requires
        0 <= i < ws.len(),
        ws[i].takes_tile(),
    ensures
        tiles_before(ws, i) < tile_count(ws),
{
    lemma_tiles_before_grows(ws, i + 1, ws.len() as int);
}

/// The slices of the right half fit on the screen: the slice of rank
/// `rank` ends at or above the bottom edge.
pub proof fn lemma_slices_fit(screen: Screen, rank: nat, n: nat)
    requires
        1 <= rank < n,
    ensures
        0 <= slice_height(screen, n) <= screen.height,
        0 <= (rank - 1) * slice_height(screen, n),
        (rank - 1) * slice_height(screen, n) + slice_height(screen, n) <= screen.height,
{
    let h = screen.height as int;
    let d = (n - 1) as int;
    let s = h / d;
    assert(0 <= s <= h && d * s <= h) by (nonlinear_arith)
        requires
            s == h / d,
            d >= 1,
            h >= 0,
    ;
    assert(0 <= (rank - 1) * s && (rank - 1) * s + s <= d * s) by (nonlinear_arith)
        requires
            1 <= rank <= d,
            0 <= s,
    ;
}

/// Retiling a second time changes nothing.
pub proof fn lemma_retiled_twice(ws: Seq<FullscreenWindow>, screen: Screen)
    ensures
        retiled(retiled(ws, screen), screen) == retiled(ws, screen),
{
    let once = retiled(ws, screen);
    let twice = retiled(once, screen);
    assert forall|i: int| 0 <= i < ws.len() implies #[trigger] twice[i] == once[i] by {
        lemma_tiles_before_agree(once, ws, i);
        lemma_tiles_before_agree(once, ws, ws.len() as int);
    }
    assert(twice =~= once);
}

/// What `first_tile_from` finds: no record between `from` and the result
/// takes a tile, and the result does unless it is the length.
pub proof fn lemma_first_tile_from(ws: Seq<FullscreenWindow>, from: int)
    requires
        0 <= from <= ws.len(),
    ensures
        from <= first_tile_from(ws, from) <= ws.len(),
        first_tile_from(ws, from) < ws.len() ==> ws[first_tile_from(ws, from)].takes_tile(),
        forall|k: int| from <= k < first_tile_from(ws, from) ==> !(#[trigger] ws[k]).takes_tile(),
    decreases ws.len() - from,
{
    if from < ws.len() && !ws[from].takes_tile() {
        lemma_first_tile_from(ws, from + 1);
    }
}

/// The master has rank zero, and exists as soon as any record takes a tile.
pub proof fn lemma_first_tile(ws: Seq<FullscreenWindow>)
    ensures
        0 <= first_tile(ws) <= ws.len(),
        first_tile(ws) < ws.len() ==> ws[first_tile(ws)].takes_tile(),
        forall|k: int| 0 <= k < first_tile(ws) ==> !(#[trigger] ws[k]).takes_tile(),
        tiles_before(ws, first_tile(ws)) == 0,
        forall|k: int| 0 <= k < ws.len() && (#[trigger] ws[k]).takes_tile() ==> first_tile(ws) <= k,
{
    lemma_first_tile_from(ws, 0);
    lemma_no_tiles_before(ws, first_tile(ws));
}

/// A prefix without a record that takes a tile has no tiles.
pub proof fn lemma_no_tiles_before(ws: Seq<FullscreenWindow>, upto: int)
    requires
        forall|k: int| 0 <= k < upto ==> !(#[trigger] ws[k]).takes_tile(),
    ensures
        tiles_before(ws, upto) == 0,
    decreases upto,
{
    if upto > 0 {
        lemma_no_tiles_before(ws, upto - 1);
    }
}

/// Counts the records that take a tile.
pub fn count_tiles(ws: &Vec<FullscreenWindow>) -> (n: usize)
    ensures
        n == tile_count(ws@),
{
    let mut n: usize = 0;
    let mut i: usize = 0;
    while i < ws.len()
        invariant
            i <= ws.len(),
            n <= i,
            n == tiles_before(ws@, i as int),
        decreases ws.len() - i,
    {
        if ws[i].is_tile() {
            n += 1;
        }
        i += 1;
    }
    n
}

/// Computes the tile of the record of the given rank among `n` that take a
/// tile.
pub fn tile_geometry(screen: Screen, rank: usize, n: usize) -> (g: Geometry)
    requires
        rank < n,
        screen.height <= i32::MAX,
    ensures
        g == tile_rect(screen, rank as nat, n as nat),
{
    if n <= 1 {
        screen.to_geometry()
    } else if rank == 0 {
        Geometry { x: 0, y: 0, width: screen.width / 2, height: screen.height }
    } else {
        let slices: usize = n - 1;
        proof {
            lemma_slices_fit(screen, rank as nat, n as nat);
        }
        let height: u32 = if slices > u32::MAX as usize {
            assert(screen.height as int / (slices as int) == 0) by (nonlinear_arith)
                requires
                    0 <= screen.height < slices,
            ;
            0
        } else {
            screen.height / (slices as u32)
        };
        assert(height == slice_height(screen, n as nat));
        let above: u64 = (rank - 1) as u64;
        assert(above * height <= screen.height) by (nonlinear_arith)
            requires
                (rank - 1) * slice_height(screen, n as nat) + slice_height(screen, n as nat)
                    <= screen.height,
                above == rank - 1,
                height == slice_height(screen, n as nat),
                0 <= height,
        ;
        let y: u64 = above * (height as u64);
        Geometry { x: (screen.width / 2) as i32, y: y as i32, width: screen.width / 2, height }
    }
}

/// Draws every record where the tiling puts it.
pub fn retile(ws: &mut Vec<FullscreenWindow>, screen: Screen)
    requires
        screen.height <= i32::MAX,
    ensures
        final(ws)@ == retiled(old(ws)@, screen),
{
    let ghost before = ws@;
    let n = count_tiles(ws);
    let mut rank: usize = 0;
    let mut i: usize = 0;
    while i < ws.len()
        invariant
            i <= ws.len(),
            ws.len() == before.len(),
            screen.height <= i32::MAX,
            n == tile_count(before),
            rank == tiles_before(before, i as int),
            forall|k: int| 0 <= k < i ==> #[trigger] ws@[k] == retiled(before, screen)[k],
            forall|k: int| i <= k < ws.len() ==> #[trigger] ws@[k] == before[k],
        decreases ws.len() - i,
    {
        let r = ws[i];
        let geometry = if r.fullscreen {
            screen.to_geometry()
        } else if r.is_float() {
            r.saved_geometry
        } else if r.minimised {
            r.geometry
        } else {
            proof {
                lemma_rank_below_count(before, i as int);
            }
            let tile = tile_geometry(screen, rank, n);
            rank += 1;
            tile
        };
        ws.set(i, FullscreenWindow { geometry, ..r });
        i += 1;
    }
    assert(ws@ =~= retiled(before, screen));
}

/// Finds the master: the first record that takes a tile.
pub fn master_index(ws: &Vec<FullscreenWindow>) -> (found: Option<usize>)
    ensures
        match found {
            Some(m) => m < ws.len() && m == first_tile(ws@),
            None => first_tile(ws@) == ws.len(),
        },
{
    let mut i: usize = 0;
    while i < ws.len() && !ws[i].is_tile()
        invariant
            i <= ws.len(),
            first_tile_from(ws@, i as int) == first_tile(ws@),
        decreases ws.len() - i,
    {
        i += 1;
    }
    if i < ws.len() {
        Some(i)
    } else {
        None
    }
}

/// Walks from `index` in the given direction, the two ends of the store
/// being joined, to the nearest visible tiled record; gives up on arriving
/// at `stop`.
pub fn neighbour(ws: &Vec<FullscreenWindow>, index: usize, stop: usize, dir: PrevOrNext) -> (found:
    Option<usize>)
    requires
        index < ws.len(),
        stop < ws.len(),
    ensures
        match found {
            Some(j) => tile_neighbour(ws@, index as int, stop as int, dir) == Some(j as int),
            None => tile_neighbour(ws@, index as int, stop as int, dir) is None,
        },
{
    let mut i: usize = index;
    loop
        invariant
            i < ws.len(),
            stop < ws.len(),
            tile_neighbour(ws@, i as int, stop as int, dir) == tile_neighbour(
                ws@,
                index as int,
                stop as int,
                dir,
            ),
        decreases steps_to(ws.len() as int, i as int, stop as int, dir),
    {
        let j: usize = match dir {
            PrevOrNext::Next => if i + 1 < ws.len() {
                i + 1
            } else {
                0
            },
            PrevOrNext::Prev => if i > 0 {
                i - 1
            } else {
                ws.len() - 1
            },
        };
        assert(j == step(ws.len() as int, i as int, dir));
        if j == stop {
            return None;
        }
        if ws[j].is_visible_tile() {
            return Some(j);
        }
        i = j;
    }
}

} // verus!
