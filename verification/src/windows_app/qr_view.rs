//! The QR code as it is painted.

use crate::quark::login::QrCodeData;
use vstd::prelude::*;

verus! {

/// A rectangle of the window, its right and bottom edges left out.
#[derive(Clone, Copy, Debug, PartialEq, Eq, Structural)]
pub struct Rectangle {
    pub left: i32,
    pub top: i32,
    pub right: i32,
    pub bottom: i32,
}

/// The part of the window that the code is painted to.
pub const AREA_LEFT: i32 = 44;

pub const AREA_TOP: i32 = 82;

pub const AREA_WIDTH: i32 = 610;

pub const AREA_HEIGHT: i32 = 620;

/// How many light modules surround the code on each side.
pub const QUIET_ZONE: i32 = 4;

/// How many modules the code takes in a row, with those around it.
pub open spec fn modules_across(width: int) -> int {
    width + 8
}

/// The side of a module: as large as the area permits, and at least one.
pub open spec fn module_size(width: int) -> int {
    let size = 610int / modules_across(width);
    if size < 1 {
        1
    } else {
        size
    }
}

/// Half of `n`, towards zero.
pub open spec fn half(n: int) -> int {
    if n >= 0 {
        n / 2
    } else {
        -((-n) / 2)
    }
}

/// Where the code starts, with what surrounds it, so that it is in the middle.
pub open spec fn code_left(width: int) -> int {
    44 + half(610 - modules_across(width) * module_size(width))
}

pub open spec fn code_top(width: int) -> int {
    82 + half(620 - modules_across(width) * module_size(width))
}

/// The place of the module in column `x` and row `y`.
pub open spec fn module_place(width: int, x: int, y: int) -> Rectangle {
    let size = module_size(width);
    Rectangle {
        left: (code_left(width) + (x + 4) * size) as i32,
        top: (code_top(width) + (y + 4) * size) as i32,
        right: (code_left(width) + (x + 5) * size) as i32,
        bottom: (code_top(width) + (y + 5) * size) as i32,
    }
}

/// The places of the dark modules among the first `count`, row by row.
pub open spec fn dark_places(width: int, modules: Seq<bool>, count: nat) -> Seq<Rectangle>
    decreases count,
{
    if count == 0 {
        Seq::empty()
    } else {
        let last = count - 1;
        let before = dark_places(width, modules, last as nat);
        if modules[last] {
            before.push(module_place(width, last % width, last / width))
        } else {
            before
        }
    }
}

proof fn lemma_total(width: int)
    requires
        0 <= width,
    ensures
        module_size(width) >= 1,
        modules_across(width) >= 8,
        modules_across(width) * module_size(width) >= modules_across(width),
        modules_across(width) * module_size(width) <= 610 || (module_size(width) == 1
            && modules_across(width) * module_size(width) == modules_across(width)),
{
    let across = modules_across(width);
    let size = module_size(width);
    assert(across * (610int / across) <= 610) by (nonlinear_arith)
        requires
            across >= 8,
    ;
    assert(across * size >= across) by (nonlinear_arith)
        requires
            across >= 8,
            size >= 1,
    ;
    if 610int / across < 1 {
        assert(across * 1 == across);
    }
}

pub(crate) proof fn lemma_edges(width: int, k: int)
    requires
        0 <= width <= 0x7fff_0000,
        0 <= k <= modules_across(width),
    ensures
        0 <= k * module_size(width) <= modules_across(width) * module_size(width) <= 0x7fff_0008,
        -0x4000_0000 <= code_left(width) <= 349,
        -0x4000_0000 <= code_top(width) <= 392,
        code_left(width) + k * module_size(width) <= 0x4000_0400,
        code_top(width) + k * module_size(width) <= 0x4000_0400,
{
    lemma_total(width);
    let across = modules_across(width);
    let size = module_size(width);
    assert(0 <= k * size <= across * size) by (nonlinear_arith)
        requires
            0 <= k <= across,
            size >= 1,
    ;
}

fn place_of(width: i32, x: i32, y: i32) -> (r: Rectangle)
    requires
        0 < width <= 0x7fff_0000,
        0 <= x < width,
        0 <= y < width,
    ensures
        r == module_place(width as int, x as int, y as int),
{
    let across: i32 = width + 8;
    let fitting: i32 = AREA_WIDTH / across;
    let size: i32 = if fitting < 1 {
        1
    } else {
        fitting
    };
    proof {
        lemma_edges(width as int, across as int);
        lemma_edges(width as int, x + 4);
        lemma_edges(width as int, x + 5);
        lemma_edges(width as int, y + 4);
        lemma_edges(width as int, y + 5);
    }
    let total: i32 = across * size;
    let left: i32 = AREA_LEFT + if total <= AREA_WIDTH {
        (AREA_WIDTH - total) / 2
    } else {
        -((total - AREA_WIDTH) / 2)
    };
    let top: i32 = AREA_TOP + if total <= AREA_HEIGHT {
        (AREA_HEIGHT - total) / 2
    } else {
        -((total - AREA_HEIGHT) / 2)
    };
    Rectangle {
        left: left + (x + QUIET_ZONE) * size,
        top: top + (y + QUIET_ZONE) * size,
        right: left + (x + QUIET_ZONE + 1) * size,
        bottom: top + (y + QUIET_ZONE + 1) * size,
    }
}

/// The rectangles that are to be filled for a QR code: one for each dark module,
/// row by row.
pub fn paint_qr(qr: &QrCodeData) -> (r: Vec<Rectangle>)
    requires
        qr.width <= 0x7fff_0000,
        qr.modules@.len() >= qr.width * qr.width,
    ensures
        r@ == dark_places(qr.width as int, qr.modules@, (qr.width * qr.width) as nat),
{
    let width: usize = qr.width;
    let count: usize = qr.modules.len();
    let mut places: Vec<Rectangle> = Vec::new();
    let mut y: usize = 0;
    let mut at: usize = 0;
    assert(0 * width == 0) by (nonlinear_arith);
    while y < width
        invariant
            y <= width,
            width == qr.width,
            width <= 0x7fff_0000,
            count == qr.modules@.len(),
            at == y * width,
            width * width <= count,
            places@ == dark_places(width as int, qr.modules@, at as nat),
        decreases width - y,
    {
        let ghost row = at;
        proof {
            assert((y + 1) * width <= width * width && (y + 1) * width == y * width + width)
                by (nonlinear_arith)
                requires
                    y + 1 <= width,
            ;
        }
        let mut x: usize = 0;
        while x < width
            invariant
                x <= width,
                y < width,
                width == qr.width,
                width <= 0x7fff_0000,
                count == qr.modules@.len(),
                row == y * width,
                at == row + x,
                row + width <= count,
                places@ == dark_places(width as int, qr.modules@, at as nat),
            decreases width - x,
        {
            proof {
                assert(at as int / width as int == y && at as int % width as int == x) by {
                    assert(at == width * y + x) by (nonlinear_arith)
                        requires
                            at == y * width + x,
                    ;
                    vstd::arithmetic::div_mod::lemma_fundamental_div_mod_converse(
                        at as int,
                        width as int,
                        y as int,
                        x as int,
                    );
                }
            }
            if qr.modules[at] {
                places.push(place_of(width as i32, x as i32, y as i32));
            }
            x += 1;
            at += 1;
        }
        y += 1;
    }
    places
}

// ---------------------------------------------------------------------------
// What is painted
// ---------------------------------------------------------------------------

/// Every module of a code that can be made lies within the area, is a square of
/// the same size, and is at least three pixels wide.
pub proof fn law_modules_stay_in_the_area(width: int, x: int, y: int)
    requires
        21 <= width <= 177,
        0 <= x < width,
        0 <= y < width,
    ensures
        ({
            let place = module_place(width, x, y);
            &&& 44 <= place.left < place.right <= 44 + 610
            &&& 82 <= place.top < place.bottom <= 82 + 620
            &&& place.right - place.left == module_size(width)
            &&& place.bottom - place.top == module_size(width)
            &&& module_size(width) >= 3
        }),
{
    let across = modules_across(width);
    let size = module_size(width);
    lemma_total(width);
    assert(610int / across >= 3) by (nonlinear_arith)
        requires
            29 <= across <= 185,
    ;
    assert(across * size <= 610);
    assert((x + 4) * size >= 0 && (x + 5) * size == (x + 4) * size + size && (x + 5) * size <= across
        * size) by (nonlinear_arith)
        requires
            0 <= x,
            x + 5 <= across,
            size >= 1,
    ;
    assert((y + 4) * size >= 0 && (y + 5) * size == (y + 4) * size + size && (y + 5) * size <= across
        * size) by (nonlinear_arith)
        requires
            0 <= y,
            y + 5 <= across,
            size >= 1,
    ;
}

/// No two modules of a code overlap.
pub proof fn law_modules_do_not_overlap(width: int, x1: int, y1: int, x2: int, y2: int)
    requires
        21 <= width <= 177,
        0 <= x1 < width,
        0 <= y1 < width,
        0 <= x2 < width,
        0 <= y2 < width,
        x1 != x2 || y1 != y2,
    ensures
        ({
            let a = module_place(width, x1, y1);
            let b = module_place(width, x2, y2);
            a.right <= b.left || b.right <= a.left || a.bottom <= b.top || b.bottom <= a.top
        }),
{
    law_modules_stay_in_the_area(width, x1, y1);
    law_modules_stay_in_the_area(width, x2, y2);
    let size = module_size(width);
    assert(x1 < x2 ==> (x1 + 5) * size <= (x2 + 4) * size) by (nonlinear_arith)
        requires
            size >= 1,
    ;
    assert(x2 < x1 ==> (x2 + 5) * size <= (x1 + 4) * size) by (nonlinear_arith)
        requires
            size >= 1,
    ;
    assert(y1 < y2 ==> (y1 + 5) * size <= (y2 + 4) * size) by (nonlinear_arith)
        requires
            size >= 1,
    ;
    assert(y2 < y1 ==> (y2 + 5) * size <= (y1 + 4) * size) by (nonlinear_arith)
        requires
            size >= 1,
    ;
    lemma_edges(width, x1 + 4);
    lemma_edges(width, x1 + 5);
    lemma_edges(width, x2 + 4);
    lemma_edges(width, x2 + 5);
    lemma_edges(width, y1 + 4);
    lemma_edges(width, y1 + 5);
    lemma_edges(width, y2 + 4);
    lemma_edges(width, y2 + 5);
}

} // verus!
