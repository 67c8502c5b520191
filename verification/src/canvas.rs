//! The canvas store: sole owner of the pixel buffer. All access goes through
//! `read` and `write_pixel`; no reference to the buffer ever escapes.

use vstd::prelude::*;
use vstd::slice::slice_to_vec;
use crate::codec::{lemma_offset_disjoint, lemma_offset_in_range, offset_of, spec_offset_of};

verus! {

/// Coordinates outside `[0, width) x [0, height)`.
#[derive(Debug, PartialEq, Eq, Structural)]
pub struct OutOfBounds;

/// The buffer that results from overwriting the RGB triple of pixel
/// `(x, y)` in `s` with `rgb`.
pub open spec fn spec_write_pixel(
    s: Seq<u8>,
    width: int,
    x: int,
    y: int,
    rgb: (u8, u8, u8),
) -> Seq<u8> {
    let i = spec_offset_of(x, y, width);
    s.update(i, rgb.0).update(i + 1, rgb.1).update(i + 2, rgb.2)
}

/// A fixed-size `width` x `height` grid of RGB pixels, stored row-major as
/// `width * height * 3` bytes.
pub struct Canvas {
    width: usize,
    height: usize,
    buf: Vec<u8>,
}

impl View for Canvas {
    type V = Seq<u8>;

    closed spec fn view(&self) -> Seq<u8> {
        self.buf@
    }
}

impl Canvas {
    /// Pixel width of the canvas.
    pub closed spec fn spec_width(&self) -> int {
        self.width as int
    }

    /// Pixel height of the canvas.
    pub closed spec fn spec_height(&self) -> int {
        self.height as int
    }

    /// Well-formedness: the buffer holds exactly `width * height * 3` bytes,
    /// the grid is non-empty, and each dimension fits a PNG header field.
    pub open spec fn wf(&self) -> bool {
        &&& self@.len() == 3 * self.spec_width() * self.spec_height()
        &&& 3 * self.spec_width() * self.spec_height() <= usize::MAX
        &&& 1 <= self.spec_width() <= u32::MAX
        &&& 1 <= self.spec_height() <= u32::MAX
    }

    pub fn width(&self) -> (w: usize)
        ensures
            w == self.spec_width(),
    {
        self.width
    }

    pub fn height(&self) -> (h: usize)
        ensures
            h == self.spec_height(),
    {
        self.height
    }

    /// An all-zero (all-black) canvas of the given dimensions.
    pub fn new(width: usize, height: usize) -> (c: Canvas)
        requires
            1 <= width <= u32::MAX,
            1 <= height <= u32::MAX,
            3 * width * height <= usize::MAX,
        ensures
            c.wf(),
            c.spec_width() == width,
            c.spec_height() == height,
            c@.len() == 3 * width * height,
            forall|i: int| 0 <= i < c@.len() ==> c@[i] == 0u8,
    {
        proof {
            assert(3 * width <= 3 * width * height) by (nonlinear_arith)
                requires
                    1 <= height,
                    0 <= width,
            ;
        }
        let size: usize = 3 * width * height;
        let mut buf: Vec<u8> = Vec::new();
        let mut i: usize = 0;
        while i < size
            invariant
                i <= size,
                buf@.len() == i,
                forall|j: int| 0 <= j < i ==> buf@[j] == 0u8,
            decreases size - i,
        {
            buf.push(0u8);
            i = i + 1;
        }
        Canvas { width, height, buf }
    }

    /// A canvas built from previously persisted bytes. The bytes are used
    /// as-is if and only if their length matches the expected size;
    /// otherwise an all-zero canvas of the correct size takes their place.
    pub fn from_bytes(width: usize, height: usize, bytes: Vec<u8>) -> (c: Canvas)
        requires
            1 <= width <= u32::MAX,
            1 <= height <= u32::MAX,
            3 * width * height <= usize::MAX,
        ensures
            c.wf(),
            c.spec_width() == width,
            c.spec_height() == height,
            bytes@.len() == 3 * width * height ==> c@ == bytes@,
            bytes@.len() != 3 * width * height ==> forall|i: int| 0 <= i < c@.len() ==> c@[i] == 0u8,
    {
        proof {
            assert(3 * width <= 3 * width * height) by (nonlinear_arith)
                requires
                    1 <= height,
                    0 <= width,
            ;
        }
        let size: usize = 3 * width * height;
        if bytes.len() == size {
            Canvas { width, height, buf: bytes }
        } else {
            Canvas::new(width, height)
        }
    }

    /// A consistent copy of the full buffer.
    pub fn read(&self) -> (r: Vec<u8>)
        ensures
            r@ == self@,
    {
        slice_to_vec(self.buf.as_slice())
    }

    /// Overwrite the three bytes of pixel `(x, y)` with `rgb`. Succeeds if
    /// and only if the coordinates are in bounds; out-of-range coordinates
    /// are rejected and the buffer is left untouched.
    pub fn write_pixel(&mut self, x: usize, y: usize, rgb: (u8, u8, u8)) -> (r: Result<
        (),
        OutOfBounds,
    >)
        requires
            old(self).wf(),
        ensures
            final(self).wf(),
            final(self).spec_width() == old(self).spec_width(),
            final(self).spec_height() == old(self).spec_height(),
            r is Ok <==> x < old(self).spec_width() && y < old(self).spec_height(),
            r is Ok ==> final(self)@ == spec_write_pixel(
                old(self)@,
                old(self).spec_width(),
                x as int,
                y as int,
                rgb,
            ),
            r is Err ==> *final(self) == *old(self),
    {
        if x >= self.width || y >= self.height {
            return Err(OutOfBounds);
        }
        proof {
            lemma_offset_in_range(
                x as int,
                y as int,
                self.spec_width(),
                self.spec_height(),
            );
        }
        let i = offset_of(x, y, self.width, self.height);
        self.buf.set(i, rgb.0);
        self.buf.set(i + 1, rgb.1);
        self.buf.set(i + 2, rgb.2);
        Ok(())
    }
}

/// Writing pixel `(x, y)` changes exactly the three bytes at its offset —
/// they become the written RGB triple — and leaves every other byte, and the
/// buffer's length, unchanged.
pub proof fn lemma_write_pixel_effect(
    s: Seq<u8>,
    width: int,
    height: int,
    x: int,
    y: int,
    rgb: (u8, u8, u8),
)
    requires
        s.len() == 3 * width * height,
        0 <= x < width,
        0 <= y < height,
    ensures
        spec_write_pixel(s, width, x, y, rgb).len() == s.len(),
        spec_write_pixel(s, width, x, y, rgb)[spec_offset_of(x, y, width)] == rgb.0,
        spec_write_pixel(s, width, x, y, rgb)[spec_offset_of(x, y, width) + 1] == rgb.1,
        spec_write_pixel(s, width, x, y, rgb)[spec_offset_of(x, y, width) + 2] == rgb.2,
        forall|j: int|
            0 <= j < s.len() && !(spec_offset_of(x, y, width) <= j < spec_offset_of(x, y, width)
                + 3) ==> spec_write_pixel(s, width, x, y, rgb)[j] == s[j],
{
    lemma_offset_in_range(x, y, width, height);
}

/// Writes to two distinct pixels commute: applied in either order they
/// produce the same buffer. Hence a batch of writes to pairwise distinct
/// coordinates yields the same final buffer whatever order the writes
/// land in, with none lost and none torn.
pub proof fn lemma_distinct_writes_commute(
    s: Seq<u8>,
    width: int,
    height: int,
    x1: int,
    y1: int,
    rgb1: (u8, u8, u8),
    x2: int,
    y2: int,
    rgb2: (u8, u8, u8),
)
    requires
        s.len() == 3 * width * height,
        0 <= x1 < width,
        0 <= y1 < height,
        0 <= x2 < width,
        0 <= y2 < height,
        !(x1 == x2 && y1 == y2),
    ensures
        spec_write_pixel(spec_write_pixel(s, width, x1, y1, rgb1), width, x2, y2, rgb2)
            == spec_write_pixel(spec_write_pixel(s, width, x2, y2, rgb2), width, x1, y1, rgb1),
{
    lemma_offset_in_range(x1, y1, width, height);
    lemma_offset_in_range(x2, y2, width, height);
    lemma_offset_disjoint(x1, y1, x2, y2, width);
    assert(spec_write_pixel(spec_write_pixel(s, width, x1, y1, rgb1), width, x2, y2, rgb2)
        =~= spec_write_pixel(spec_write_pixel(s, width, x2, y2, rgb2), width, x1, y1, rgb1));
}

/// A recorded pixel write is an `(x, y, rgb)` triple; this is the byte
/// offset its RGB bytes land at.
pub open spec fn write_offset(w: (int, int, (u8, u8, u8)), width: int) -> int {
    spec_offset_of(w.0, w.1, width)
}

/// The buffer after a batch of writes, applied first to last.
pub open spec fn spec_apply_writes(
    s: Seq<u8>,
    width: int,
    writes: Seq<(int, int, (u8, u8, u8))>,
) -> Seq<u8>
    decreases writes.len(),
{
    if writes.len() == 0 {
        s
    } else {
        let w = writes.last();
        spec_write_pixel(spec_apply_writes(s, width, writes.drop_last()), width, w.0, w.1, w.2)
    }
}

/// Every write in the batch addresses an in-bounds pixel.
pub open spec fn writes_in_bounds(
    writes: Seq<(int, int, (u8, u8, u8))>,
    width: int,
    height: int,
) -> bool {
    forall|k: int|
        0 <= k < writes.len() ==> 0 <= (#[trigger] writes[k]).0 < width && 0 <= writes[k].1
            < height
}

/// No two writes in the batch address the same pixel.
pub open spec fn writes_distinct(writes: Seq<(int, int, (u8, u8, u8))>) -> bool {
    forall|k1: int, k2: int|
        0 <= k1 < k2 < writes.len() ==> !((#[trigger] writes[k1]).0 == (#[trigger] writes[k2]).0
            && writes[k1].1 == writes[k2].1)
}

/// Whether byte `j` belongs to the RGB bytes of some write in the batch.
pub open spec fn writes_cover(
    writes: Seq<(int, int, (u8, u8, u8))>,
    j: int,
    width: int,
) -> bool {
    exists|k: int|
        0 <= k < writes.len() && write_offset(#[trigger] writes[k], width) <= j < write_offset(
            writes[k],
            width,
        ) + 3
}

/// A batch of writes to pairwise distinct pixels determines the final
/// buffer pointwise: every write's three bytes hold exactly its RGB triple
/// — no update is lost — and every byte no write addresses is unchanged.
pub proof fn lemma_apply_writes_pointwise(
    s: Seq<u8>,
    width: int,
    height: int,
    writes: Seq<(int, int, (u8, u8, u8))>,
)
    requires
        s.len() == 3 * width * height,
        writes_in_bounds(writes, width, height),
        writes_distinct(writes),
    ensures
        spec_apply_writes(s, width, writes).len() == s.len(),
        forall|k: int|
            0 <= k < writes.len() ==> spec_apply_writes(s, width, writes)[write_offset(
                #[trigger] writes[k],
                width,
            )] == (writes[k].2).0 && spec_apply_writes(s, width, writes)[write_offset(
                writes[k],
                width,
            ) + 1] == (writes[k].2).1 && spec_apply_writes(s, width, writes)[write_offset(
                writes[k],
                width,
            ) + 2] == (writes[k].2).2,
        forall|j: int|
            0 <= j < s.len() && !writes_cover(writes, j, width) ==> spec_apply_writes(
                s,
                width,
                writes,
            )[j] == s[j],
    decreases writes.len(),
{
    if writes.len() > 0 {
        let prefix = writes.drop_last();
        let w = writes.last();
        let applied = spec_apply_writes(s, width, prefix);
        let result = spec_apply_writes(s, width, writes);
        assert(forall|k: int| 0 <= k < prefix.len() ==> prefix[k] == writes[k]);
        lemma_apply_writes_pointwise(s, width, height, prefix);
        lemma_offset_in_range(w.0, w.1, width, height);
        assert forall|k: int| 0 <= k < prefix.len() implies write_offset(
            #[trigger] writes[k],
            width,
        ) + 3 <= write_offset(w, width) || write_offset(w, width) + 3 <= write_offset(
            writes[k],
            width,
        ) by {
            lemma_offset_disjoint(writes[k].0, writes[k].1, w.0, w.1, width);
        }
        assert forall|k: int|
            0 <= k < writes.len() implies result[write_offset(#[trigger] writes[k], width)] == (
        writes[k].2).0 && result[write_offset(writes[k], width) + 1] == (writes[k].2).1
            && result[write_offset(writes[k], width) + 2] == (writes[k].2).2 by {
            if k < writes.len() - 1 {
                assert(prefix[k] == writes[k]);
                lemma_offset_in_range(writes[k].0, writes[k].1, width, height);
                assert(applied[write_offset(prefix[k], width)] == (prefix[k].2).0);
                assert(applied[write_offset(prefix[k], width) + 1] == (prefix[k].2).1);
                assert(applied[write_offset(prefix[k], width) + 2] == (prefix[k].2).2);
            } else {
                assert(writes[k] == w);
            }
        }
        assert forall|j: int|
            0 <= j < s.len() && !writes_cover(writes, j, width) implies result[j] == s[j] by {
            assert(!writes_cover(prefix, j, width)) by {
                if writes_cover(prefix, j, width) {
                    let k = choose|k: int|
                        0 <= k < prefix.len() && write_offset(#[trigger] prefix[k], width) <= j
                            < write_offset(prefix[k], width) + 3;
                    assert(writes[k] == prefix[k]);
                }
            }
            assert(!(write_offset(w, width) <= j < write_offset(w, width) + 3)) by {
                if write_offset(w, width) <= j < write_offset(w, width) + 3 {
                    assert(writes[writes.len() - 1] == w);
                }
            }
        }
    }
}

/// Order independence: two batches holding the same writes — each to
/// pairwise distinct pixels — produce the same final buffer, whatever
/// order the writes land in.
pub proof fn lemma_apply_writes_any_order(
    s: Seq<u8>,
    width: int,
    height: int,
    w1: Seq<(int, int, (u8, u8, u8))>,
    w2: Seq<(int, int, (u8, u8, u8))>,
)
    requires
        s.len() == 3 * width * height,
        writes_in_bounds(w1, width, height),
        writes_distinct(w1),
        writes_distinct(w2),
        w1.to_multiset() == w2.to_multiset(),
    ensures
        spec_apply_writes(s, width, w1) == spec_apply_writes(s, width, w2),
{
    broadcast use vstd::seq_lib::group_to_multiset_ensures;

    assert forall|k: int| 0 <= k < w2.len() implies 0 <= (#[trigger] w2[k]).0 < width && 0
        <= w2[k].1 < height by {
        assert(w2.contains(w2[k]));
        assert(w2.to_multiset().count(w2[k]) > 0);
        assert(w1.to_multiset().count(w2[k]) > 0);
        assert(w1.contains(w2[k]));
        let k1 = choose|k1: int| 0 <= k1 < w1.len() && w1[k1] == w2[k];
        assert(w1[k1] == w2[k]);
    }
    lemma_apply_writes_pointwise(s, width, height, w1);
    lemma_apply_writes_pointwise(s, width, height, w2);
    let r1 = spec_apply_writes(s, width, w1);
    let r2 = spec_apply_writes(s, width, w2);
    assert forall|j: int| 0 <= j < s.len() implies r1[j] == r2[j] by {
        if writes_cover(w1, j, width) {
            let k1 = choose|k1: int|
                0 <= k1 < w1.len() && write_offset(#[trigger] w1[k1], width) <= j < write_offset(
                    w1[k1],
                    width,
                ) + 3;
            let w = w1[k1];
            assert(w1.contains(w));
            assert(w1.to_multiset().count(w) > 0);
            assert(w2.to_multiset().count(w) > 0);
            assert(w2.contains(w));
            let k2 = choose|k2: int| 0 <= k2 < w2.len() && w2[k2] == w;
            assert(writes_cover(w2, j, width)) by {
                assert(write_offset(w2[k2], width) <= j < write_offset(w2[k2], width) + 3);
            }
            assert(j == write_offset(w, width) || j == write_offset(w, width) + 1 || j
                == write_offset(w, width) + 2);
            assert(w1[k1] == w && w2[k2] == w);
            assert(r1[write_offset(w, width)] == (w.2).0 && r1[write_offset(w, width) + 1] == (
            w.2).1 && r1[write_offset(w, width) + 2] == (w.2).2);
            assert(r2[write_offset(w, width)] == (w.2).0 && r2[write_offset(w, width) + 1] == (
            w.2).1 && r2[write_offset(w, width) + 2] == (w.2).2);
            assert(r1[j] == r2[j]);
        } else {
            assert(!writes_cover(w2, j, width)) by {
                if writes_cover(w2, j, width) {
                    let k2 = choose|k2: int|
                        0 <= k2 < w2.len() && write_offset(#[trigger] w2[k2], width) <= j
                            < write_offset(w2[k2], width) + 3;
                    let w = w2[k2];
                    assert(w2.contains(w));
                    assert(w2.to_multiset().count(w) > 0);
                    assert(w1.to_multiset().count(w) > 0);
                    assert(w1.contains(w));
                    let k1 = choose|k1: int| 0 <= k1 < w1.len() && w1[k1] == w;
                    assert(write_offset(w1[k1], width) <= j < write_offset(w1[k1], width) + 3);
                }
            }
            assert(r1[j] == s[j]);
            assert(r2[j] == s[j]);
        }
    }
    assert(r1 =~= r2);
}

} // verus!
