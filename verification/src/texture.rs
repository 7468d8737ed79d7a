//! CPU-side images and the texture atlas.
//!
//! An [`Image`] is a pixel buffer in CPU memory, four bytes per pixel. The
//! [`Atlas`] packs many small images into one shared texture area so that
//! geometry referencing them can share a single texture binding and therefore
//! batch into fewer draw calls. The atlas hands out pixel-space rectangles;
//! it grows downward and never relocates an entry, so a rectangle stays
//! valid for the lifetime of the atlas.

use vstd::prelude::*;
use vstd::pervasive::VecAdditionalExecFns;

use crate::color::Rgba8;

verus! {

/// The color stored at column `x`, row `y` of a row-major RGBA pixel buffer
/// that is `width` pixels wide.
pub open spec fn pixel_at(bytes: Seq<u8>, width: int, x: int, y: int) -> Rgba8 {
    let off = (y * width + x) * 4;
    Rgba8 {
        r: bytes[off],
        g: bytes[off + 1],
        b: bytes[off + 2],
        a: bytes[off + 3],
    }
}

/// An image held in CPU memory: `width * height` pixels, four bytes each,
/// rows top to bottom, channels in RGBA order.
pub struct Image {
    pub bytes: Vec<u8>,
    pub width: u16,
    pub height: u16,
}

impl Image {
    /// The buffer holds exactly four bytes per pixel.
    pub open spec fn wf(self) -> bool {
        self.bytes@.len() == self.width as int * self.height as int * 4
    }

    /// The color of the pixel at column `x`, row `y`.
    pub open spec fn spec_pixel(self, x: int, y: int) -> Rgba8 {
        pixel_at(self.bytes@, self.width as int, x, y)
    }

    /// Creates an `Image` filled with the provided color.
    pub fn gen_image_color(width: u16, height: u16, color: Rgba8) -> (img: Image)
        ensures
            img.wf(),
            img.width == width,
            img.height == height,
            forall|x: int, y: int| 0 <= x < width && 0 <= y < height
                ==> #[trigger] img.spec_pixel(x, y) == color,
    {
        let mut bytes: Vec<u8> = Vec::new();
        let mut py: usize = 0;
        while py < height as usize
            invariant
                py <= height as usize,
                bytes@.len() == 4 * (py * width as int),
                forall|q: int, r: int| 0 <= q < py && 0 <= r < width as int
                    ==> #[trigger] pixel_at(bytes@, width as int, r, q) == color,
            decreases height as int - py,
        {
            let mut px: usize = 0;
            while px < width as usize
                invariant
                    px <= width as usize,
                    py < height as usize,
                    bytes@.len() == 4 * (py * width as int + px),
                    forall|q: int, r: int| 0 <= q < py && 0 <= r < width as int
                        ==> #[trigger] pixel_at(bytes@, width as int, r, q) == color,
                    forall|r: int| 0 <= r < px
                        ==> #[trigger] pixel_at(bytes@, width as int, r, py as int) == color,
                decreases width as int - px,
            {
                let ghost bytes0 = bytes@;
                bytes.push(color.r);
                bytes.push(color.g);
                bytes.push(color.b);
                bytes.push(color.a);
                proof {
                    assert forall|q: int, r: int| 0 <= q < py && 0 <= r < width as int
                        implies #[trigger] pixel_at(bytes@, width as int, r, q) == color by {
                        lemma_pixel_offset_in_bounds(width as int, py as int, r, q);
                        assert(pixel_at(bytes0, width as int, r, q) == color);
                    }
                    assert forall|r: int| 0 <= r < px + 1
                        implies #[trigger] pixel_at(bytes@, width as int, r, py as int)
                            == color by {
                        if r < px {
                            assert(pixel_at(bytes0, width as int, r, py as int) == color);
                        }
                    }
                }
                px = px + 1;
            }
            proof {
                assert((py as int + 1) * width as int == py as int * width as int + width as int)
                    by (nonlinear_arith);
                assert forall|q: int, r: int| 0 <= q < py + 1 && 0 <= r < width as int
                    implies #[trigger] pixel_at(bytes@, width as int, r, q) == color by {
                    if q < py {
                        assert(pixel_at(bytes@, width as int, r, q) == color);
                    } else {
                        assert(pixel_at(bytes@, width as int, r, py as int) == color);
                    }
                }
            }
            py = py + 1;
        }
        let img = Image { bytes, width, height };
        proof {
            assert(img.bytes@.len() == 4 * (height as int * width as int));
            assert(img.wf()) by (nonlinear_arith)
                requires
                    img.bytes@.len() == 4 * (height as int * width as int),
                    img.width == width,
                    img.height == height,
            {}
        }
        img
    }

    /// Returns the pixel at `(x, y)`.
    pub fn get_pixel(&self, x: u32, y: u32) -> (c: Rgba8)
        requires
            self.wf(),
            x < self.width,
            y < self.height,
        ensures
            c == self.spec_pixel(x as int, y as int),
    {
        let buf_len = self.bytes.len();
        proof {
            lemma_pixel_offset_in_bounds(self.width as int, self.height as int, x as int, y as int);
            assert((y as int * self.width as int + x as int) * 4 + 4 <= buf_len);
        }
        let p: usize = y as usize * self.width as usize + x as usize;
        let off: usize = p * 4;
        Rgba8 {
            r: self.bytes[off],
            g: self.bytes[off + 1],
            b: self.bytes[off + 2],
            a: self.bytes[off + 3],
        }
    }

    /// Overwrites the pixel at `(x, y)`; every other pixel is untouched.
    pub fn set_pixel(&mut self, x: u32, y: u32, color: Rgba8)
        requires
            old(self).wf(),
            x < old(self).width,
            y < old(self).height,
        ensures
            final(self).wf(),
            final(self).width == old(self).width,
            final(self).height == old(self).height,
            final(self).spec_pixel(x as int, y as int) == color,
            forall|px: int, py: int|
                0 <= px < old(self).width && 0 <= py < old(self).height
                    && !(px == x as int && py == y as int)
                    ==> #[trigger] final(self).spec_pixel(px, py)
                        == old(self).spec_pixel(px, py),
    {
        let buf_len = self.bytes.len();
        proof {
            lemma_pixel_offset_in_bounds(self.width as int, self.height as int, x as int, y as int);
            assert((y as int * self.width as int + x as int) * 4 + 4 <= buf_len);
        }
        let p: usize = y as usize * self.width as usize + x as usize;
        let off: usize = p * 4;
        self.bytes.set(off, color.r);
        self.bytes.set(off + 1, color.g);
        self.bytes.set(off + 2, color.b);
        self.bytes.set(off + 3, color.a);
        proof {
            assert forall|px: int, py: int|
                0 <= px < old(self).width && 0 <= py < old(self).height
                    && !(px == x as int && py == y as int)
                    implies #[trigger] final(self).spec_pixel(px, py)
                        == old(self).spec_pixel(px, py) by {
                lemma_pixel_offset_in_bounds(self.width as int, self.height as int, px, py);
                lemma_pixel_index_injective(self.width as int, x as int, y as int, px, py);
            }
        }
    }

    /// Returns the `w` by `h` sub-image whose top-left corner sits at
    /// `(x, y)` in this image.
    pub fn sub_image(&self, x: u16, y: u16, w: u16, h: u16) -> (img: Image)
        requires
            self.wf(),
            x + w <= self.width,
            y + h <= self.height,
        ensures
            img.wf(),
            img.width == w,
            img.height == h,
            forall|px: int, py: int| 0 <= px < w && 0 <= py < h
                ==> #[trigger] img.spec_pixel(px, py)
                    == self.spec_pixel(x + px, y + py),
    {
        let mut bytes: Vec<u8> = Vec::new();
        let mut py: usize = 0;
        while py < h as usize
            invariant
                py <= h as usize,
                self.wf(),
                x + w <= self.width,
                y + h <= self.height,
                bytes@.len() == 4 * (py * w as int),
                forall|q: int, r: int| 0 <= q < py && 0 <= r < w as int
                    ==> #[trigger] pixel_at(bytes@, w as int, r, q)
                        == self.spec_pixel(x + r, y + q),
            decreases h as int - py,
        {
            let mut px: usize = 0;
            while px < w as usize
                invariant
                    px <= w as usize,
                    py < h as usize,
                    self.wf(),
                    x + w <= self.width,
                    y + h <= self.height,
                    bytes@.len() == 4 * (py * w as int + px),
                    forall|q: int, r: int| 0 <= q < py && 0 <= r < w as int
                        ==> #[trigger] pixel_at(bytes@, w as int, r, q)
                            == self.spec_pixel(x + r, y + q),
                    forall|r: int| 0 <= r < px
                        ==> #[trigger] pixel_at(bytes@, w as int, r, py as int)
                            == self.spec_pixel(x + r, y + py as int),
                decreases w as int - px,
            {
                let ghost bytes0 = bytes@;
                let c = self.get_pixel(x as u32 + px as u32, y as u32 + py as u32);
                bytes.push(c.r);
                bytes.push(c.g);
                bytes.push(c.b);
                bytes.push(c.a);
                proof {
                    assert forall|q: int, r: int| 0 <= q < py && 0 <= r < w as int
                        implies #[trigger] pixel_at(bytes@, w as int, r, q)
                            == self.spec_pixel(x + r, y + q) by {
                        lemma_pixel_offset_in_bounds(w as int, py as int, r, q);
                        assert(pixel_at(bytes0, w as int, r, q) == self.spec_pixel(x + r, y + q));
                    }
                    assert forall|r: int| 0 <= r < px + 1
                        implies #[trigger] pixel_at(bytes@, w as int, r, py as int)
                            == self.spec_pixel(x + r, y + py as int) by {
                        if r < px {
                            assert(pixel_at(bytes0, w as int, r, py as int)
                                == self.spec_pixel(x + r, y + py as int));
                        }
                    }
                }
                px = px + 1;
            }
            proof {
                assert((py as int + 1) * w as int == py as int * w as int + w as int)
                    by (nonlinear_arith);
                assert forall|q: int, r: int| 0 <= q < py + 1 && 0 <= r < w as int
                    implies #[trigger] pixel_at(bytes@, w as int, r, q)
                        == self.spec_pixel(x + r, y + q) by {
                    if q < py {
                        assert(pixel_at(bytes@, w as int, r, q) == self.spec_pixel(x + r, y + q));
                    } else {
                        assert(pixel_at(bytes@, w as int, r, py as int)
                            == self.spec_pixel(x + r, y + py as int));
                    }
                }
            }
            py = py + 1;
        }
        let img = Image { bytes, width: w, height: h };
        proof {
            assert(img.bytes@.len() == 4 * (h as int * w as int));
            assert(img.wf()) by (nonlinear_arith)
                requires
                    img.bytes@.len() == 4 * (h as int * w as int),
                    img.width == w,
                    img.height == h,
            {}
        }
        img
    }
}

/// For a pixel inside a `width` by `height` image, the four bytes starting
/// at its offset lie inside the buffer.
proof fn lemma_pixel_offset_in_bounds(width: int, height: int, x: int, y: int)
    requires
        0 <= x < width,
        0 <= y < height,
    ensures
        0 <= (y * width + x) * 4,
        (y * width + x) * 4 + 4 <= width * height * 4,
        (y * width + x) * 4 + 4 <= height * width * 4,
{
    assert((y * width + x) * 4 + 4 <= width * height * 4
        && (y * width + x) * 4 + 4 <= height * width * 4) by (nonlinear_arith)
        requires
            0 <= x < width,
            0 <= y < height,
    {}
    assert(0 <= (y * width + x) * 4) by (nonlinear_arith)
        requires
            0 <= x < width,
            0 <= y < height,
    {}
}

/// A packed rectangle inside the atlas, in atlas pixel coordinates.
/// Rectangles are stable: the atlas grows downward and never relocates an
/// entry, so a rectangle handed out once stays valid.
#[derive(Debug, Clone, Copy, PartialEq, Eq, Structural)]
pub struct SpriteRect {
    pub x: u32,
    pub y: u32,
    pub w: u32,
    pub h: u32,
}

/// Two rectangles share no pixel.
pub open spec fn rects_disjoint(a: SpriteRect, b: SpriteRect) -> bool {
    ||| a.x + a.w <= b.x
    ||| b.x + b.w <= a.x
    ||| a.y + a.h <= b.y
    ||| b.y + b.h <= a.y
}

/// Why the atlas refused to cache an image.
#[derive(Debug, Clone, Copy, PartialEq, Eq, Structural)]
pub enum AtlasError {
    /// The image is wider than the atlas, or taller than the atlas can ever
    /// grow: no packing could hold it.
    ImageTooLarge,
    /// The image would fit an empty atlas, but the remaining space is
    /// exhausted. Previously cached entries are untouched.
    AtlasFull,
    /// The identifier is already cached with different dimensions.
    SizeMismatch,
}

/// One cached image: its identifier, its packed place, and its pixels.
pub struct AtlasEntry {
    pub id: u64,
    pub rect: SpriteRect,
    pub image: Image,
}

/// The rectangle cached under `id`: that of the most recently pushed entry
/// carrying `id`. Entry identifiers are unique in a well-formed atlas, so
/// this is the only match.
pub open spec fn seq_lookup(entries: Seq<AtlasEntry>, id: u64) -> Option<SpriteRect>
    decreases entries.len(),
{
    if entries.len() == 0 {
        None
    } else if entries.last().id == id {
        Some(entries.last().rect)
    } else {
        seq_lookup(entries.drop_last(), id)
    }
}

/// If no entry from position `i` on matches `id`, the lookup is decided by
/// the prefix before `i`.
proof fn lemma_seq_lookup_prefix(entries: Seq<AtlasEntry>, id: u64, i: int)
    requires
        0 <= i <= entries.len(),
        forall|j: int| i <= j < entries.len() ==> entries[j].id != id,
    ensures
        seq_lookup(entries, id) == seq_lookup(entries.subrange(0, i), id),
    decreases entries.len() - i,
{
    if i == entries.len() {
        assert(entries.subrange(0, i) =~= entries);
    } else {
        assert(entries.last().id != id);
        lemma_seq_lookup_prefix(entries.drop_last(), id, i);
        assert(entries.drop_last().subrange(0, i) =~= entries.subrange(0, i));
    }
}

/// Appending an entry decides the lookup for its own identifier and leaves
/// every other identifier's lookup unchanged.
proof fn lemma_seq_lookup_push(entries: Seq<AtlasEntry>, e: AtlasEntry)
    ensures
        seq_lookup(entries.push(e), e.id) == Some(e.rect),
        forall|qid: u64| qid != e.id
            ==> #[trigger] seq_lookup(entries.push(e), qid) == seq_lookup(entries, qid),
{
    assert(entries.push(e).drop_last() =~= entries);
    assert(entries.push(e).last() == e);
}

/// Lookups see only identifiers and rectangles: replacing an entry's pixels
/// in place changes no lookup.
proof fn lemma_seq_lookup_same_shape(a: Seq<AtlasEntry>, b: Seq<AtlasEntry>)
    requires
        a.len() == b.len(),
        forall|i: int| 0 <= i < a.len()
            ==> (#[trigger] a[i]).id == b[i].id && a[i].rect == b[i].rect,
    ensures
        forall|qid: u64| #[trigger] seq_lookup(a, qid) == seq_lookup(b, qid),
    decreases a.len(),
{
    if a.len() > 0 {
        lemma_seq_lookup_same_shape(a.drop_last(), b.drop_last());
        assert(a.last().id == b.last().id && a.last().rect == b.last().rect);
        assert forall|qid: u64| #[trigger] seq_lookup(a, qid) == seq_lookup(b, qid) by {
            if a.last().id != qid {
                assert(seq_lookup(a.drop_last(), qid) == seq_lookup(b.drop_last(), qid));
            }
        }
    }
}

/// Where the shelf packer would place the next image of width `w`: at the
/// row cursor if the current row still has room, else at the start of a
/// fresh row below the current one.
pub open spec fn spec_placement(cursor_x: int, cursor_y: int, row_height: int, width: int, w: int)
    -> (int, int) {
    if cursor_x + w <= width {
        (cursor_x, cursor_y)
    } else {
        (0, cursor_y + row_height)
    }
}

/// A rectangle is consistent with the packing cursor: it lies either
/// entirely above the current row, or inside the current row left of the
/// cursor.
pub open spec fn placed_rect(r: SpriteRect, cursor_x: int, cursor_y: int, row_height: int)
    -> bool {
    ||| r.y + r.h <= cursor_y
    ||| (r.y == cursor_y && r.y + r.h <= cursor_y + row_height && r.x + r.w <= cursor_x)
}

/// A texture atlas packing images shelf by shelf into a `width` pixel wide
/// area that grows downward, up to `max_height` rows. It hands out pixel
/// rectangles that never move.
pub struct Atlas {
    entries: Vec<AtlasEntry>,
    width: u32,
    height: u32,
    max_height: u32,
    cursor_x: u32,
    cursor_y: u32,
    row_height: u32,
}

impl Atlas {
    /// The entries cached so far, in caching order.
    pub closed spec fn entries_view(self) -> Seq<AtlasEntry> {
        self.entries@
    }

    /// The rectangle cached under `id`, if any.
    pub open spec fn lookup_spec(self, id: u64) -> Option<SpriteRect> {
        seq_lookup(self.entries_view(), id)
    }

    /// The fixed width of the atlas area.
    pub closed spec fn atlas_width(self) -> int {
        self.width as int
    }

    /// The current height of the atlas area. Grows on demand, never past
    /// [`Atlas::atlas_max_height`], and entries never move when it does.
    pub closed spec fn atlas_height(self) -> int {
        self.height as int
    }

    /// The height the atlas may grow to.
    pub closed spec fn atlas_max_height(self) -> int {
        self.max_height as int
    }

    /// Horizontal position where the current row continues.
    pub closed spec fn spec_cursor_x(self) -> int {
        self.cursor_x as int
    }

    /// Top of the current row.
    pub closed spec fn spec_cursor_y(self) -> int {
        self.cursor_y as int
    }

    /// Height of the tallest image in the current row.
    pub closed spec fn spec_row_height(self) -> int {
        self.row_height as int
    }

    /// Atlas invariant: identifiers are unique, every entry matches its
    /// image's dimensions and lies within the atlas area, entries are
    /// pairwise disjoint, everything is consistent with the packing cursor,
    /// and the dimensions respect the configured bounds.
    pub closed spec fn wf(self) -> bool {
        &&& 1 <= self.width <= 65536
        &&& self.height <= self.max_height <= 65536
        &&& self.cursor_x <= self.width
        &&& self.cursor_y + self.row_height <= self.height
        &&& forall|i: int, j: int| 0 <= i < j < self.entries@.len()
            ==> (#[trigger] self.entries@[i]).id != (#[trigger] self.entries@[j]).id
        &&& forall|i: int| 0 <= i < self.entries@.len() ==> {
            let e = #[trigger] self.entries@[i];
            &&& e.image.wf()
            &&& e.rect.w == e.image.width
            &&& e.rect.h == e.image.height
            &&& e.rect.x + e.rect.w <= self.width
            &&& e.rect.y + e.rect.h <= self.height
            &&& placed_rect(e.rect, self.cursor_x as int, self.cursor_y as int,
                self.row_height as int)
        }
        &&& forall|i: int, j: int| 0 <= i < self.entries@.len() && 0 <= j < self.entries@.len()
            && i != j
            ==> rects_disjoint((#[trigger] self.entries@[i]).rect,
                    (#[trigger] self.entries@[j]).rect)
    }

    /// Creates an empty atlas of the given width that may grow downward
    /// from `initial_height` up to `max_height` rows.
    pub fn new(width: u32, initial_height: u32, max_height: u32) -> (a: Atlas)
        requires
            1 <= width <= 65536,
            initial_height <= max_height,
            max_height <= 65536,
        ensures
            a.wf(),
            a.entries_view() == Seq::<AtlasEntry>::empty(),
            a.atlas_width() == width,
            a.atlas_height() == initial_height,
            a.atlas_max_height() == max_height,
            a.spec_cursor_x() == 0,
            a.spec_cursor_y() == 0,
            a.spec_row_height() == 0,
            forall|id: u64| #[trigger] a.lookup_spec(id) is None,
    {
        let a = Atlas {
            entries: Vec::new(),
            width,
            height: initial_height,
            max_height,
            cursor_x: 0,
            cursor_y: 0,
            row_height: 0,
        };
        assert(a.entries_view() =~= Seq::<AtlasEntry>::empty());
        a
    }

    /// Finds the entry cached under `id`, scanning from the most recent.
    fn find(&self, id: u64) -> (r: Option<usize>)
        ensures
            match r {
                Some(ix) => {
                    &&& ix < self.entries_view().len()
                    &&& self.entries_view()[ix as int].id == id
                    &&& self.lookup_spec(id) == Some(self.entries_view()[ix as int].rect)
                },
                None => {
                    &&& self.lookup_spec(id) is None
                    &&& forall|j: int| 0 <= j < self.entries_view().len()
                        ==> (#[trigger] self.entries_view()[j]).id != id
                },
            },
    {
        let mut i: usize = self.entries.len();
        while i > 0
            invariant
                i <= self.entries@.len(),
                forall|j: int| i <= j < self.entries@.len()
                    ==> (#[trigger] self.entries@[j]).id != id,
            decreases i,
        {
            i = i - 1;
            if self.entries[i].id == id {
                proof {
                    lemma_seq_lookup_prefix(self.entries@, id, i + 1);
                    assert(self.entries@.subrange(0, i + 1).last() == self.entries@[i as int]);
                    assert(self.entries@.subrange(0, i + 1).drop_last()
                        =~= self.entries@.subrange(0, i as int));
                }
                return Some(i);
            }
        }
        proof {
            lemma_seq_lookup_prefix(self.entries@, id, 0);
            assert(self.entries@.subrange(0, 0) =~= Seq::<AtlasEntry>::empty());
        }
        None
    }

    /// The fixed width of the atlas area, in pixels.
    pub fn width(&self) -> (w: u32)
        ensures
            w == self.atlas_width(),
    {
        self.width
    }

    /// The current height of the atlas area, in pixels.
    pub fn height(&self) -> (h: u32)
        ensures
            h == self.atlas_height(),
    {
        self.height
    }

    /// Number of cached entries.
    pub fn entry_count(&self) -> (n: usize)
        ensures
            n == self.entries_view().len(),
    {
        self.entries.len()
    }

    /// Borrows the `i`-th cached entry, in caching order, for upload to the
    /// shared texture.
    pub fn entry_at(&self, i: usize) -> (e: &AtlasEntry)
        requires
            i < self.entries_view().len(),
        ensures
            *e == self.entries_view()[i as int],
    {
        &self.entries[i]
    }

    /// Returns the pixel rectangle cached under `id`, or `None` if `id` was
    /// never cached.
    pub fn lookup_uv(&self, id: u64) -> (r: Option<SpriteRect>)
        ensures
            r == self.lookup_spec(id),
    {
        match self.find(id) {
            Some(ix) => Some(self.entries[ix].rect),
            None => None,
        }
    }
}

/// Whether [`Atlas::cache`] accepts `image` under `id` in atlas `pre`:
/// either `id` is already cached with the same dimensions, or `id` is fresh,
/// the image fits the atlas width and maximum height, and the packer finds
/// room for it.
pub open spec fn cache_accepts(pre: Atlas, id: u64, image: Image) -> bool {
    let w = image.width as int;
    let h = image.height as int;
    match pre.lookup_spec(id) {
        Some(r0) => r0.w == image.width && r0.h == image.height,
        None => {
            let pos = spec_placement(pre.spec_cursor_x(), pre.spec_cursor_y(),
                pre.spec_row_height(), pre.atlas_width(), w);
            &&& w <= pre.atlas_width()
            &&& h <= pre.atlas_max_height()
            &&& pos.1 + h <= pre.atlas_max_height()
        },
    }
}

/// The full effect of one [`Atlas::cache`] call: the width and growth bound
/// never change, the height never shrinks, no identifier other than the one
/// cached changes its mapping, success happens exactly when
/// [`cache_accepts`] says so, a success hands back an in-bounds rectangle of
/// the image's dimensions — the previously issued one whenever the
/// identifier was already cached — and a failure leaves the atlas exactly
/// as it was, classified by which of the three refusals applies.
pub open spec fn cache_effect(
    pre: Atlas,
    post: Atlas,
    id: u64,
    image: Image,
    r: Result<SpriteRect, AtlasError>,
) -> bool {
    let w = image.width as int;
    let h = image.height as int;
    let pos = spec_placement(pre.spec_cursor_x(), pre.spec_cursor_y(), pre.spec_row_height(),
        pre.atlas_width(), w);
    &&& post.atlas_width() == pre.atlas_width()
    &&& post.atlas_max_height() == pre.atlas_max_height()
    &&& pre.atlas_height() <= post.atlas_height()
    &&& forall|other: u64| other != id
        ==> #[trigger] post.lookup_spec(other) == pre.lookup_spec(other)
    &&& (r is Ok <==> cache_accepts(pre, id, image))
    &&& match r {
        Ok(rect) => {
            &&& post.lookup_spec(id) == Some(rect)
            &&& rect.w == image.width
            &&& rect.h == image.height
            &&& rect.x + rect.w <= post.atlas_width()
            &&& rect.y + rect.h <= post.atlas_height()
            &&& (pre.lookup_spec(id) matches Some(r0) ==> rect == r0)
        },
        Err(e) => {
            &&& post == pre
            &&& (e == AtlasError::SizeMismatch <==> pre.lookup_spec(id) is Some)
            &&& (e == AtlasError::ImageTooLarge <==> pre.lookup_spec(id) is None
                && (w > pre.atlas_width() || h > pre.atlas_max_height()))
            &&& (e == AtlasError::AtlasFull <==> pre.lookup_spec(id) is None
                && w <= pre.atlas_width() && h <= pre.atlas_max_height()
                && pos.1 + h > pre.atlas_max_height())
        },
    }
}

impl Atlas {
    /// Caches `image` under `id`. A fresh identifier is packed into the
    /// atlas and receives a new rectangle; an identifier already cached
    /// with the same dimensions keeps its rectangle — re-caching unchanged
    /// content is a no-op apart from refreshing the stored pixels. No call
    /// ever moves or disturbs another identifier's rectangle.
    pub fn cache(&mut self, id: u64, image: Image) -> (r: Result<SpriteRect, AtlasError>)
        requires
            old(self).wf(),
            image.wf(),
        ensures
            final(self).wf(),
            cache_effect(*old(self), *final(self), id, image, r),
    {
        match self.find(id) {
            Some(ix) => {
                let same = self.entries[ix].image.width == image.width
                    && self.entries[ix].image.height == image.height;
                if !same {
                    return Err(AtlasError::SizeMismatch);
                }
                let rect = self.entries[ix].rect;
                let e = &mut self.entries[ix];
                e.image = image;
                proof {
                    lemma_seq_lookup_same_shape(old(self).entries@, self.entries@);
                    assert forall|i: int| 0 <= i < self.entries@.len() implies {
                        let en = #[trigger] self.entries@[i];
                        &&& en.image.wf()
                        &&& en.rect.w == en.image.width
                        &&& en.rect.h == en.image.height
                        &&& en.rect.x + en.rect.w <= self.width
                        &&& en.rect.y + en.rect.h <= self.height
                        &&& placed_rect(en.rect, self.cursor_x as int, self.cursor_y as int,
                                self.row_height as int)
                    } by {
                        if i != ix {
                            assert(self.entries@[i] == old(self).entries@[i]);
                        }
                    }
                }
                Ok(rect)
            },
            None => {
                let w = image.width as u32;
                let h = image.height as u32;
                if w > self.width || h > self.max_height {
                    return Err(AtlasError::ImageTooLarge);
                }
                let place_y = if self.cursor_x + w <= self.width {
                    self.cursor_y
                } else {
                    self.cursor_y + self.row_height
                };
                if place_y + h > self.max_height {
                    return Err(AtlasError::AtlasFull);
                }

                let ghost pre = *self;

                if self.cursor_x + w > self.width {
                    self.cursor_y = self.cursor_y + self.row_height;
                    self.cursor_x = 0;
                    self.row_height = 0;
                }
                if self.cursor_y + h > self.height {
                    self.height = self.cursor_y + h;
                }
                let rect = SpriteRect { x: self.cursor_x, y: self.cursor_y, w, h };
                self.cursor_x = self.cursor_x + w;
                if h > self.row_height {
                    self.row_height = h;
                }
                let entry = AtlasEntry { id, rect, image };
                self.entries.push(entry);

                proof {
                    lemma_seq_lookup_push(pre.entries@, entry);
                    let n = pre.entries@.len() as int;
                    let cx0 = pre.cursor_x as int;
                    let cy0 = pre.cursor_y as int;
                    let rh0 = pre.row_height as int;
                    let cx2 = self.cursor_x as int;
                    let cy2 = self.cursor_y as int;
                    let rh2 = self.row_height as int;

                    assert(rect.y as int == cy2);
                    assert(rect.x as int + rect.w <= self.width as int);
                    assert(rect.y as int + rect.h <= self.height as int);

                    assert forall|i: int| 0 <= i < n implies
                        (#[trigger] self.entries@[i]).rect.y + self.entries@[i].rect.h <= cy2
                        || (self.entries@[i].rect.y == cy2
                            && self.entries@[i].rect.y + self.entries@[i].rect.h <= cy2 + rh2
                            && self.entries@[i].rect.x + self.entries@[i].rect.w
                                <= rect.x as int) by {
                        let er = pre.entries@[i].rect;
                        assert(self.entries@[i] == pre.entries@[i]);
                        assert(placed_rect(er, cx0, cy0, rh0));
                    }

                    assert forall|i: int, j: int|
                        0 <= i < self.entries@.len() && 0 <= j < self.entries@.len() && i != j
                        implies rects_disjoint((#[trigger] self.entries@[i]).rect,
                            (#[trigger] self.entries@[j]).rect) by {
                        if i < n && j < n {
                            assert(self.entries@[i] == pre.entries@[i]);
                            assert(self.entries@[j] == pre.entries@[j]);
                        } else if i < n && j == n {
                            assert(self.entries@[i] == pre.entries@[i]);
                            assert(self.entries@[j].rect == rect);
                        } else {
                            assert(self.entries@[j] == pre.entries@[j]);
                            assert(self.entries@[i].rect == rect);
                        }
                    }

                    assert forall|i: int| 0 <= i < self.entries@.len() implies {
                        let en = #[trigger] self.entries@[i];
                        &&& en.image.wf()
                        &&& en.rect.w == en.image.width
                        &&& en.rect.h == en.image.height
                        &&& en.rect.x + en.rect.w <= self.width
                        &&& en.rect.y + en.rect.h <= self.height
                        &&& placed_rect(en.rect, cx2, cy2, rh2)
                    } by {
                        if i < n {
                            assert(self.entries@[i] == pre.entries@[i]);
                        }
                    }

                    assert forall|i: int, j: int| 0 <= i < j < self.entries@.len()
                        implies (#[trigger] self.entries@[i]).id
                            != (#[trigger] self.entries@[j]).id by {
                        if j < n {
                            assert(self.entries@[i] == pre.entries@[i]);
                            assert(self.entries@[j] == pre.entries@[j]);
                        } else {
                            assert(self.entries@[i] == pre.entries@[i]);
                            assert(pre.entries@[i].id != id);
                        }
                    }
                }
                Ok(rect)
            },
        }
    }
}

/// What the atlas invariant guarantees of every well-formed atlas: cached
/// identifiers are unique, every entry lies within the atlas area and
/// matches its image's dimensions, and no two entries overlap by even one
/// pixel.
pub proof fn lemma_atlas_entries_disjoint(a: Atlas)
    requires
        a.wf(),
    ensures
        forall|i: int, j: int| 0 <= i < j < a.entries_view().len()
            ==> (#[trigger] a.entries_view()[i]).id != (#[trigger] a.entries_view()[j]).id,
        forall|i: int| 0 <= i < a.entries_view().len() ==> {
            let e = #[trigger] a.entries_view()[i];
            &&& e.rect.w == e.image.width
            &&& e.rect.h == e.image.height
            &&& e.rect.x + e.rect.w <= a.atlas_width()
            &&& e.rect.y + e.rect.h <= a.atlas_height()
        },
        forall|i: int, j: int|
            0 <= i < a.entries_view().len() && 0 <= j < a.entries_view().len() && i != j
            ==> rects_disjoint((#[trigger] a.entries_view()[i]).rect,
                    (#[trigger] a.entries_view()[j]).rect),
{
}

/// Atlas stability: caching the same identifier twice with identical
/// content succeeds both times with the same rectangle — the second call
/// changes no mapping at all. Together with the failure clause of
/// [`cache_effect`], which leaves the atlas exactly as it was, no cache
/// call ever corrupts a previously issued rectangle.
pub proof fn lemma_cache_stability(
    pre: Atlas,
    mid: Atlas,
    post: Atlas,
    id: u64,
    image: Image,
    r1: Result<SpriteRect, AtlasError>,
    r2: Result<SpriteRect, AtlasError>,
)
    requires
        cache_effect(pre, mid, id, image, r1),
        cache_effect(mid, post, id, image, r2),
        r1 is Ok,
    ensures
        r2 == r1,
        forall|other: u64| #[trigger] post.lookup_spec(other) == mid.lookup_spec(other),
{
    let rect1 = r1->Ok_0;
    assert(mid.lookup_spec(id) == Some(rect1));
    assert(cache_accepts(mid, id, image));
    assert(r2 is Ok);
    assert(r2->Ok_0 == rect1);
    assert(post.lookup_spec(id) == mid.lookup_spec(id));
}

/// Distinct pixel coordinates map to distinct pixel indices.
proof fn lemma_pixel_index_injective(width: int, x1: int, y1: int, x2: int, y2: int)
    requires
        0 <= x1 < width,
        0 <= x2 < width,
        0 <= y1,
        0 <= y2,
        !(x1 == x2 && y1 == y2),
    ensures
        y1 * width + x1 != y2 * width + x2,
{
    assert(y1 * width + x1 != y2 * width + x2) by (nonlinear_arith)
        requires
            0 <= x1 < width,
            0 <= x2 < width,
            0 <= y1,
            0 <= y2,
            !(x1 == x2 && y1 == y2),
    {}
}

} // verus!
