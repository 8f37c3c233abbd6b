//! Stitching rendered pages into one composite canvas: the canvas is as wide
//! as the widest page and as tall as all pages together; each page sits
//! left-aligned in its own band of rows, in page order, and the space right
//! of a narrow page keeps the background value.

use vstd::prelude::*;

use crate::error::{IntelError, RenderFault};

verus! {

/// One rendered page: a greyscale raster, one byte per pixel, row-major.
#[derive(Debug)]
pub struct Page {
    pub width: usize,
    pub height: usize,
    pub pixels: Vec<u8>,
}

impl Page {
    /// A page holds exactly one byte per pixel.
    pub open spec fn wf(&self) -> bool {
        self.pixels@.len() == self.height * self.width
    }
}

/// The stitched composite: a greyscale raster, one byte per pixel,
/// row-major.
#[derive(Debug)]
pub struct Canvas {
    pub width: usize,
    pub height: usize,
    pub pixels: Vec<u8>,
}

/// The widest page width.
pub open spec fn sp_max_width(pages: Seq<Page>) -> int
    decreases pages.len(),
{
    if pages.len() == 0 {
        0
    } else {
        let m = sp_max_width(pages.drop_last());
        if pages.last().width > m {
            pages.last().width as int
        } else {
            m
        }
    }
}

/// The heights of all pages together.
pub open spec fn sp_total_height(pages: Seq<Page>) -> int
    decreases pages.len(),
{
    if pages.len() == 0 {
        0
    } else {
        sp_total_height(pages.drop_last()) + pages.last().height
    }
}

/// The first canvas row of page `k`: the heights of the pages before it.
pub open spec fn sp_row_offset(pages: Seq<Page>, k: int) -> int {
    sp_total_height(pages.take(k))
}

/// The canvas index of column `cc` in row `rr` of page `k`'s band.
pub open spec fn sp_cell_pos(pages: Seq<Page>, width: int, k: int, rr: int, cc: int) -> int {
    (sp_row_offset(pages, k) + rr) * width + cc
}

/// What the canvas holds at that cell: the page's own pixel left of its
/// width, the background right of it.
pub open spec fn sp_cell_value(pages: Seq<Page>, background: u8, k: int, rr: int, cc: int) -> u8 {
    if cc < pages[k].width {
        pages[k].pixels@[rr * pages[k].width + cc]
    } else {
        background
    }
}

/// The canvas bytes hold page `k`'s cell at row `rr`, column `cc`.
pub open spec fn pixels_hold(
    pixels: Seq<u8>,
    pages: Seq<Page>,
    background: u8,
    width: int,
    k: int,
    rr: int,
    cc: int,
) -> bool {
    pixels[sp_cell_pos(pages, width, k, rr, cc)] == sp_cell_value(pages, background, k, rr, cc)
}

proof fn lemma_total_height_nonneg(pages: Seq<Page>)
    ensures
        sp_total_height(pages) >= 0,
    decreases pages.len(),
{
    if pages.len() > 0 {
        lemma_total_height_nonneg(pages.drop_last());
    }
}

/// One page more adds exactly its height.
proof fn lemma_row_offset_step(pages: Seq<Page>, k: int)
    requires
        0 <= k < pages.len(),
    ensures
        sp_row_offset(pages, k + 1) == sp_row_offset(pages, k) + pages[k].height,
{
    assert(pages.take(k + 1).drop_last() =~= pages.take(k));
    assert(pages.take(k + 1).last() == pages[k]);
}

/// A prefix of the pages never exceeds the whole height.
proof fn lemma_total_height_prefix(pages: Seq<Page>, j: int)
    requires
        0 <= j <= pages.len(),
    ensures
        sp_total_height(pages.take(j)) <= sp_total_height(pages),
    decreases pages.len() - j,
{
    if j < pages.len() {
        lemma_row_offset_step(pages, j);
        lemma_total_height_prefix(pages, j + 1);
    } else {
        assert(pages.take(j) =~= pages);
    }
}

/// Row offsets grow with the page index.
proof fn lemma_row_offset_mono(pages: Seq<Page>, a: int, b: int)
    requires
        0 <= a <= b <= pages.len(),
    ensures
        sp_row_offset(pages, a) <= sp_row_offset(pages, b),
    decreases b - a,
{
    if a < b {
        lemma_row_offset_step(pages, a);
        lemma_row_offset_mono(pages, a + 1, b);
    }
}

/// A cell left of column `w` in a row before row `b` lies before row `b`'s
/// first cell.
proof fn lemma_cell_lt(a: int, b: int, ca: int, w: int)
    requires
        a < b,
        0 <= ca < w,
    ensures
        a * w + ca < b * w,
{
    assert(a * w + ca < b * w) by (nonlinear_arith)
        requires
            a < b,
            0 <= ca < w,
    ;
}

/// Stitches the pages into one composite canvas: `width` is the largest page
/// width, `height` the sum of the page heights, page `k` occupies the rows
/// from the heights of the pages before it, left-aligned, and every cell
/// right of a page's own width keeps the background value. An empty page
/// list, a degenerate canvas, and a canvas beyond the address space are the
/// rendering faults.
#[verifier::rlimit(50)]
pub fn stitch(pages: &Vec<Page>, background: u8) -> (r: Result<Canvas, IntelError>)
    requires
        forall|k: int| 0 <= k < pages@.len() ==> (#[trigger] pages@[k]).wf(),
    ensures
        (match r {
            Ok(c) => {
                &&& pages@.len() > 0
                &&& c.width as int == sp_max_width(pages@)
                &&& c.height as int == sp_total_height(pages@)
                &&& c.width > 0
                &&& c.height > 0
                &&& c.pixels@.len() == c.height * c.width
                &&& forall|k: int, rr: int, cc: int|
                    0 <= k < pages@.len() && 0 <= rr < pages@[k].height && 0 <= cc < c.width
                        ==> pixels_hold(c.pixels@, pages@, background, c.width as int, k, rr, cc)
            },
            Err(e) => (match e {
                IntelError::Render { fault } => (match fault {
                    RenderFault::NoPages => pages@.len() == 0,
                    RenderFault::ZeroDimension => pages@.len() > 0 && (sp_max_width(pages@) == 0
                        || sp_total_height(pages@) == 0),
                    RenderFault::TooLarge => pages@.len() > 0 && sp_max_width(pages@) > 0
                        && sp_total_height(pages@) > 0 && (sp_total_height(pages@) > usize::MAX
                        || sp_total_height(pages@) * sp_max_width(pages@) > usize::MAX),
                }),
                _ => false,
            }),
        }),
{
    let n = pages.len();
    if n == 0 {
        return Err(IntelError::Render { fault: RenderFault::NoPages });
    }
    // The canvas width: the widest page.
    let mut w: usize = 0;
    let mut k: usize = 0;
    proof {
        assert(pages@.take(0) =~= Seq::<Page>::empty());
    }
    while k < n
        invariant
            k <= n,
            n == pages@.len(),
            w as int == sp_max_width(pages@.take(k as int)),
        decreases n - k,
    {
        proof {
            assert(pages@.take((k + 1) as int).drop_last() =~= pages@.take(k as int));
            assert(pages@.take((k + 1) as int).last() == pages@[k as int]);
        }
        if pages[k].width > w {
            w = pages[k].width;
        }
        k += 1;
    }
    proof {
        assert(pages@.take(n as int) =~= pages@);
    }
    // The canvas height: all page heights together, if they fit.
    let mut h: usize = 0;
    let mut k: usize = 0;
    while k < n
        invariant
            k <= n,
            n == pages@.len(),
            n > 0,
            w as int == sp_max_width(pages@),
            h as int == sp_row_offset(pages@, k as int),
        decreases n - k,
    {
        proof {
            lemma_row_offset_step(pages@, k as int);
        }
        match h.checked_add(pages[k].height) {
            Some(nh) => {
                h = nh;
            },
            None => {
                proof {
                    lemma_row_offset_step(pages@, k as int);
                    lemma_total_height_prefix(pages@, k as int + 1);
                }
                if w == 0 {
                    return Err(IntelError::Render { fault: RenderFault::ZeroDimension });
                }
                return Err(IntelError::Render { fault: RenderFault::TooLarge });
            },
        }
        k += 1;
    }
    proof {
        assert(pages@.take(n as int) =~= pages@);
    }
    if w == 0 || h == 0 {
        return Err(IntelError::Render { fault: RenderFault::ZeroDimension });
    }
    let area = match h.checked_mul(w) {
        Some(a) => a,
        None => {
            return Err(IntelError::Render { fault: RenderFault::TooLarge });
        },
    };
    // The canvas starts as pure background.
    let mut pixels: Vec<u8> = Vec::new();
    let mut j: usize = 0;
    while j < area
        invariant
            j <= area,
            pixels@.len() == j,
            forall|idx: int| 0 <= idx < j ==> pixels@[idx] == background,
        decreases area - j,
    {
        pixels.push(background);
        j += 1;
    }
    // Copy each page into its band of rows.
    let mut off: usize = 0;
    let mut k: usize = 0;
    while k < n
        invariant
            k <= n,
            n == pages@.len(),
            forall|k2: int| 0 <= k2 < n ==> (#[trigger] pages@[k2]).wf(),
            w as int == sp_max_width(pages@),
            h as int == sp_total_height(pages@),
            w > 0,
            h > 0,
            area == h * w,
            pixels@.len() == area,
            off as int == sp_row_offset(pages@, k as int),
            forall|k2: int, r2: int, c2: int|
                0 <= k2 < k && 0 <= r2 < pages@[k2].height && 0 <= c2 < w ==> pixels_hold(
                    pixels@,
                    pages@,
                    background,
                    w as int,
                    k2,
                    r2,
                    c2,
                ),
            forall|idx: int| off * w <= idx < area ==> pixels@[idx] == background,
        decreases n - k,
    {
        let ph = pages[k].height;
        let pw = pages[k].width;
        proof {
            lemma_row_offset_step(pages@, k as int);
            lemma_row_offset_mono(pages@, k as int + 1, n as int);
            assert(sp_row_offset(pages@, n as int) == sp_total_height(pages@)) by {
                assert(pages@.take(n as int) =~= pages@);
            }
            lemma_total_height_nonneg(pages@.take(k as int));
        }
        let mut rr: usize = 0;
        while rr < ph
            invariant
                rr <= ph,
                k < n,
                n == pages@.len(),
                forall|k2: int| 0 <= k2 < n ==> (#[trigger] pages@[k2]).wf(),
                ph == pages@[k as int].height,
                pw == pages@[k as int].width,
                w as int == sp_max_width(pages@),
                h as int == sp_total_height(pages@),
                w > 0,
                h > 0,
                area == h * w,
                pixels@.len() == area,
                off as int == sp_row_offset(pages@, k as int),
                off + ph <= h,
                forall|k2: int, r2: int, c2: int|
                    0 <= k2 < k && 0 <= r2 < pages@[k2].height && 0 <= c2 < w ==> pixels_hold(
                        pixels@,
                        pages@,
                        background,
                        w as int,
                        k2,
                        r2,
                        c2,
                    ),
                forall|r2: int, c2: int|
                    0 <= r2 < rr && 0 <= c2 < w ==> pixels_hold(
                        pixels@,
                        pages@,
                        background,
                        w as int,
                        k as int,
                        r2,
                        c2,
                    ),
                forall|idx: int| (off + rr) * w <= idx < area ==> pixels@[idx] == background,
            decreases ph - rr,
        {
            let mut cc: usize = 0;
            while cc < w
                invariant
                    cc <= w,
                    rr < ph,
                    k < n,
                    n == pages@.len(),
                    forall|k2: int| 0 <= k2 < n ==> (#[trigger] pages@[k2]).wf(),
                    ph == pages@[k as int].height,
                    pw == pages@[k as int].width,
                    w as int == sp_max_width(pages@),
                    h as int == sp_total_height(pages@),
                    w > 0,
                    h > 0,
                    area == h * w,
                    pixels@.len() == area,
                    off as int == sp_row_offset(pages@, k as int),
                    off + ph <= h,
                    forall|k2: int, r2: int, c2: int|
                        0 <= k2 < k && 0 <= r2 < pages@[k2].height && 0 <= c2 < w ==> pixels_hold(
                            pixels@,
                            pages@,
                            background,
                            w as int,
                            k2,
                            r2,
                            c2,
                        ),
                    forall|r2: int, c2: int|
                        0 <= r2 < rr && 0 <= c2 < w ==> pixels_hold(
                            pixels@,
                            pages@,
                            background,
                            w as int,
                            k as int,
                            r2,
                            c2,
                        ),
                    forall|c2: int|
                        0 <= c2 < cc ==> pixels_hold(
                            pixels@,
                            pages@,
                            background,
                            w as int,
                            k as int,
                            rr as int,
                            c2,
                        ),
                    forall|idx: int|
                        (off + rr) * w + cc <= idx < area ==> pixels@[idx] == background,
                decreases w - cc,
            {
                proof {
                    lemma_cell_lt(off as int + rr, h as int, cc as int, w as int);
                }
                let v: u8 = if cc < pw {
                    let plen = pages[k].pixels.len();
                    proof {
                        lemma_cell_lt(rr as int, ph as int, cc as int, pw as int);
                        assert(plen == ph * pw);
                    }
                    pages[k].pixels[rr * pw + cc]
                } else {
                    background
                };
                let idx = (off + rr) * w + cc;
                let ghost before = pixels@;
                pixels.set(idx, v);
                proof {
                    assert(idx as int == sp_cell_pos(pages@, w as int, k as int, rr as int,
                        cc as int));
                    assert forall|c2: int| 0 <= c2 < cc implies pixels_hold(
                        pixels@,
                        pages@,
                        background,
                        w as int,
                        k as int,
                        rr as int,
                        c2,
                    ) by {
                        assert(pixels_hold(before, pages@, background, w as int, k as int,
                            rr as int, c2));
                        assert(sp_cell_pos(pages@, w as int, k as int, rr as int, c2) != idx);
                    }
                    assert forall|k2: int, r2: int, c2: int|
                        0 <= k2 < k && 0 <= r2 < pages@[k2].height && 0 <= c2 < w implies
                        pixels_hold(pixels@, pages@, background, w as int, k2, r2, c2) by {
                        lemma_row_offset_step(pages@, k2);
                        lemma_row_offset_mono(pages@, k2 + 1, k as int);
                        lemma_cell_lt(sp_row_offset(pages@, k2) + r2, off as int + rr, c2, w as int);
                        lemma_total_height_nonneg(pages@.take(k2));
                        assert(pixels_hold(before, pages@, background, w as int, k2, r2, c2));
                    }
                    assert forall|r2: int, c2: int| 0 <= r2 < rr && 0 <= c2 < w implies pixels_hold(
                        pixels@,
                        pages@,
                        background,
                        w as int,
                        k as int,
                        r2,
                        c2,
                    ) by {
                        lemma_cell_lt(off as int + r2, off as int + rr, c2, w as int);
                        assert(pixels_hold(before, pages@, background, w as int, k as int, r2, c2));
                    }
                    assert(pixels_hold(pixels@, pages@, background, w as int, k as int, rr as int,
                        cc as int));
                }
                cc += 1;
            }
            proof {
                assert((off as int + rr + 1) * w == (off as int + rr) * w + w) by (nonlinear_arith);
            }
            rr += 1;
        }
        off = off + ph;
        k += 1;
    }
    proof {
        assert(pixels@.len() == h * w);
    }
    Ok(Canvas { width: w, height: h, pixels })
}


} // verus!
