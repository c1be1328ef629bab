//! Planar YUV 4:2:0 frame buffers and the double-buffered frame hand-off
//! between the thread that decodes a video stream and the renderer.

use vstd::arithmetic::div_mod::{lemma_fundamental_div_mod, lemma_fundamental_div_mod_converse};
use vstd::prelude::*;

verus! {

/// Row alignment (in bytes) that the GPU upload path expects.
pub const GPU_ROW_ALIGNMENT: u32 = 256;

/// Fill value for newly allocated chroma bytes (neutral chroma).
pub const NEUTRAL_CHROMA: u8 = 128;

/// `value` rounded up to the next multiple of `alignment`.
pub open spec fn spec_align_to(value: int, alignment: int) -> int {
    (value + alignment - 1) / alignment * alignment
}

/// Aligns a value up to the given alignment.
pub fn align_to(value: u32, alignment: u32) -> (r: u32)
    requires
        alignment > 0,
        value + alignment - 1 <= u32::MAX,
    ensures
        r == spec_align_to(value as int, alignment as int),
        value <= r,
{
    let q = (value + (alignment - 1)) / alignment;
    proof {
        let ghost s: int = value + alignment - 1;
        assert((q as int) * (alignment as int) <= s) by (nonlinear_arith)
            requires
                q as int == s / (alignment as int),
                alignment > 0,
                s >= 0,
        ;
        assert(value <= (q as int) * (alignment as int)) by (nonlinear_arith)
            requires
                q as int == s / (alignment as int),
                alignment > 0,
                s == value + alignment - 1,
                s >= 0,
        ;
    }
    q * alignment
}

/// Number of chroma rows of a 4:2:0 frame with `height` luma rows.
pub open spec fn chroma_rows(height: int) -> int {
    (height + 1) / 2
}

/// The three planes of an I420 frame as delivered by the decoder, each with its
/// own row stride in bytes.
pub struct I420Planes {
    pub stride_y: u32,
    pub stride_u: u32,
    pub stride_v: u32,
    pub data_y: Vec<u8>,
    pub data_u: Vec<u8>,
    pub data_v: Vec<u8>,
}

/// A plane of `src_len` bytes holds `rows` rows of `row_width` bytes at stride `src_stride`.
pub open spec fn plane_fits(src_len: int, src_stride: int, row_width: int, rows: int) -> bool {
    rows == 0 || (rows - 1) * src_stride + row_width <= src_len
}

impl I420Planes {
    /// The planes hold a `width` x `height` frame.
    pub open spec fn holds_frame(&self, width: int, height: int) -> bool {
        &&& plane_fits(self.data_y.len() as int, self.stride_y as int, width, height)
        &&& plane_fits(self.data_u.len() as int, self.stride_u as int, width / 2, chroma_rows(height))
        &&& plane_fits(self.data_v.len() as int, self.stride_v as int, width / 2, chroma_rows(height))
    }
}

/// Byte `i` of a destination plane after the pixel rows of `src` were copied
/// into it: pixel bytes come from the source, padding bytes keep their value.
pub open spec fn copied_byte(
    dst: Seq<u8>,
    src: Seq<u8>,
    dst_stride: int,
    src_stride: int,
    row_width: int,
    rows: int,
    i: int,
) -> u8 {
    if dst_stride > 0 && i / dst_stride < rows && i % dst_stride < row_width {
        src[(i / dst_stride) * src_stride + i % dst_stride]
    } else {
        dst[i]
    }
}

/// A destination plane after the pixel rows of `src` were copied into it.
pub open spec fn plane_after_copy(
    dst: Seq<u8>,
    src: Seq<u8>,
    dst_stride: int,
    src_stride: int,
    row_width: int,
    rows: int,
) -> Seq<u8> {
    Seq::new(
        dst.len(),
        |i: int| copied_byte(dst, src, dst_stride, src_stride, row_width, rows, i),
    )
}

/// `s` resized to `len` bytes: existing bytes are kept, new ones are `fill`.
pub open spec fn resized(s: Seq<u8>, len: int, fill: u8) -> Seq<u8> {
    Seq::new(len as nat, |i: int| if i < s.len() { s[i] } else { fill })
}

proof fn lemma_row_bounds(row: int, rows: int, col: int, width: int, stride: int)
    requires
        0 <= row < rows,
        0 <= col < width,
        width <= stride,
    ensures
        row * stride + col < rows * stride,
        row * stride + col < stride * rows,
        row * stride + col >= 0,
{
    assert(rows * stride == stride * rows) by (nonlinear_arith);
    assert((row + 1) * stride <= rows * stride) by (nonlinear_arith)
        requires
            row + 1 <= rows,
            stride >= 0,
    ;
    assert(row * stride >= 0) by (nonlinear_arith)
        requires
            row >= 0,
            stride >= 0,
    ;
    assert((row + 1) * stride == row * stride + stride) by (nonlinear_arith);
}

proof fn lemma_src_row_bounds(row: int, rows: int, col: int, width: int, stride: int, len: int)
    requires
        0 <= row < rows,
        0 <= col < width,
        stride >= 0,
        plane_fits(len, stride, width, rows),
    ensures
        0 <= row * stride + col < len,
{
    assert(row * stride <= (rows - 1) * stride) by (nonlinear_arith)
        requires
            row <= rows - 1,
            stride >= 0,
    ;
    assert(row * stride >= 0) by (nonlinear_arith)
        requires
            row >= 0,
            stride >= 0,
    ;
}

/// Copies `rows` rows of `row_width` bytes from `src` (stride `src_stride`)
/// into `dst` (stride `dst_stride`), leaving the padding bytes of `dst` alone.
fn copy_plane(
    dst: &mut Vec<u8>,
    dst_stride: usize,
    src: &Vec<u8>,
    src_stride: usize,
    row_width: usize,
    rows: usize,
)
    requires
        row_width <= dst_stride,
        old(dst).len() == dst_stride * rows,
        plane_fits(src.len() as int, src_stride as int, row_width as int, rows as int),
    ensures
        final(dst)@ == plane_after_copy(
            old(dst)@,
            src@,
            dst_stride as int,
            src_stride as int,
            row_width as int,
            rows as int,
        ),
{
    let ghost orig = dst@;
    let ghost ds = dst_stride as int;
    let ghost ss = src_stride as int;
    let ghost w = row_width as int;
    let mut row: usize = 0;
    while row < rows
        invariant
            row <= rows,
            row_width <= dst_stride,
            orig.len() == dst_stride * rows,
            dst.len() == orig.len(),
            ds == dst_stride,
            ss == src_stride,
            w == row_width,
            plane_fits(src.len() as int, ss, w, rows as int),
            forall|i: int|
                0 <= i < dst.len() ==> #[trigger] dst@[i] == (if ds > 0 && i / ds < row && i % ds
                    < w {
                    src@[(i / ds) * ss + i % ds]
                } else {
                    orig[i]
                }),
        decreases rows - row,
    {
        let mut col: usize = 0;
        while col < row_width
            invariant
                row < rows,
                col <= row_width,
                row_width <= dst_stride,
                orig.len() == dst_stride * rows,
                dst.len() == orig.len(),
                ds == dst_stride,
                ss == src_stride,
                w == row_width,
                plane_fits(src.len() as int, ss, w, rows as int),
                forall|i: int|
                    0 <= i < dst.len() ==> #[trigger] dst@[i] == (if ds > 0 && ((i / ds < row && i
                        % ds < w) || (i / ds == row && i % ds < col)) {
                        src@[(i / ds) * ss + i % ds]
                    } else {
                        orig[i]
                    }),
            decreases row_width - col,
        {
            proof {
                lemma_row_bounds(row as int, rows as int, col as int, w, ds);
                lemma_src_row_bounds(row as int, rows as int, col as int, w, ss, src.len() as int);
                lemma_fundamental_div_mod_converse(row * ds + col, ds, row as int, col as int);
            }
            let d = row * dst_stride + col;
            let s = row * src_stride + col;
            let byte = src[s];
            let ghost before = dst@;
            dst.set(d, byte);
            proof {
                assert((row as int) * ds == ds * (row as int)) by (nonlinear_arith);
                assert forall|i: int| 0 <= i < dst.len() && i != d implies !(i / ds == row && i
                    % ds == col) && dst@[i] == before[i] by {
                    lemma_fundamental_div_mod(i, ds);
                }
            }
            col += 1;
        }
        row += 1;
    }
    assert(dst@ =~= plane_after_copy(orig, src@, ds, ss, w, rows as int));
}

/// A buffer holding YUV420 planar video data with GPU-aligned row strides.
#[derive(Debug)]
pub struct VideoBuffer {
    pub width: u32,
    pub height: u32,
    pub stride_y: u32,
    pub stride_u: u32,
    pub stride_v: u32,
    pub y: Vec<u8>,
    pub u: Vec<u8>,
    pub v: Vec<u8>,
    pub frame_id: u64,
}

impl Default for VideoBuffer {
    fn default() -> (r: Self)
        ensures
            r.width == 0 && r.height == 0,
            r.stride_y == 0 && r.stride_u == 0 && r.stride_v == 0,
            r.y@.len() == 0 && r.u@.len() == 0 && r.v@.len() == 0,
            r.frame_id == 0,
    {
        VideoBuffer {
            width: 0,
            height: 0,
            stride_y: 0,
            stride_u: 0,
            stride_v: 0,
            y: Vec::new(),
            u: Vec::new(),
            v: Vec::new(),
            frame_id: 0,
        }
    }
}

impl VideoBuffer {
    /// Strides cover a row of pixels and the planes are exactly as long as the
    /// strides and the frame height require.
    pub open spec fn wf(&self) -> bool {
        &&& self.width <= self.stride_y
        &&& self.width / 2 <= self.stride_u
        &&& self.stride_u == self.stride_v
        &&& self.y.len() == self.stride_y * self.height
        &&& self.u.len() == self.stride_u * chroma_rows(self.height as int)
        &&& self.v.len() == self.stride_v * chroma_rows(self.height as int)
    }

    /// The luma stride chosen for a frame of the given width.
    pub open spec fn luma_stride_for(width: u32) -> int {
        spec_align_to(width as int, GPU_ROW_ALIGNMENT as int)
    }

    /// The chroma stride chosen for a frame of the given width.
    pub open spec fn chroma_stride_for(width: u32) -> int {
        spec_align_to(width as int / 2, GPU_ROW_ALIGNMENT as int)
    }

    /// Copies an I420 frame into this buffer with GPU-aligned strides.
    ///
    /// Strides and plane sizes are recomputed only when the frame dimensions
    /// change; bytes outside the copied pixel rows keep their previous value
    /// (newly allocated bytes are 0 for luma and 128 for chroma).
    pub fn copy_from_i420(&mut self, i420: &I420Planes, width: u32, height: u32)
        requires
            width + GPU_ROW_ALIGNMENT - 1 <= u32::MAX,
            height < u32::MAX,
            Self::luma_stride_for(width) * height <= u32::MAX,
            Self::chroma_stride_for(width) * chroma_rows(height as int) <= u32::MAX,
            i420.holds_frame(width as int, height as int),
            (old(self).width == width && old(self).height == height) ==> old(self).wf(),
        ensures
            final(self).wf(),
            final(self).width == width,
            final(self).height == height,
            final(self).frame_id == old(self).frame_id,
            (old(self).width == width && old(self).height == height) ==> {
                &&& final(self).stride_y == old(self).stride_y
                &&& final(self).stride_u == old(self).stride_u
                &&& final(self).stride_v == old(self).stride_v
                &&& final(self).y@ == plane_after_copy(
                    old(self).y@,
                    i420.data_y@,
                    old(self).stride_y as int,
                    i420.stride_y as int,
                    width as int,
                    height as int,
                )
                &&& final(self).u@ == plane_after_copy(
                    old(self).u@,
                    i420.data_u@,
                    old(self).stride_u as int,
                    i420.stride_u as int,
                    width as int / 2,
                    chroma_rows(height as int),
                )
                &&& final(self).v@ == plane_after_copy(
                    old(self).v@,
                    i420.data_v@,
                    old(self).stride_v as int,
                    i420.stride_v as int,
                    width as int / 2,
                    chroma_rows(height as int),
                )
            },
            !(old(self).width == width && old(self).height == height) ==> {
                &&& final(self).stride_y == Self::luma_stride_for(width)
                &&& final(self).stride_u == Self::chroma_stride_for(width)
                &&& final(self).stride_v == Self::chroma_stride_for(width)
                &&& final(self).y@ == plane_after_copy(
                    resized(
                        old(self).y@,
                        Self::luma_stride_for(width) * height,
                        0,
                    ),
                    i420.data_y@,
                    Self::luma_stride_for(width),
                    i420.stride_y as int,
                    width as int,
                    height as int,
                )
                &&& final(self).u@ == plane_after_copy(
                    resized(
                        old(self).u@,
                        Self::chroma_stride_for(width) * chroma_rows(height as int),
                        NEUTRAL_CHROMA,
                    ),
                    i420.data_u@,
                    Self::chroma_stride_for(width),
                    i420.stride_u as int,
                    width as int / 2,
                    chroma_rows(height as int),
                )
                &&& final(self).v@ == plane_after_copy(
                    resized(
                        old(self).v@,
                        Self::chroma_stride_for(width) * chroma_rows(height as int),
                        NEUTRAL_CHROMA,
                    ),
                    i420.data_v@,
                    Self::chroma_stride_for(width),
                    i420.stride_v as int,
                    width as int / 2,
                    chroma_rows(height as int),
                )
            },
    {
        let dims_changed = self.width != width || self.height != height;
        if dims_changed {
            self.width = width;
            self.height = height;

            let y_stride = align_to(width, GPU_ROW_ALIGNMENT);
            let uv_stride = align_to(width / 2, GPU_ROW_ALIGNMENT);
            self.stride_y = y_stride;
            self.stride_u = uv_stride;
            self.stride_v = uv_stride;

            let ch = (height + 1) / 2;
            let y_size = (y_stride * height) as usize;
            let u_size = (uv_stride * ch) as usize;
            let v_size = (uv_stride * ch) as usize;

            let ghost y0 = self.y@;
            let ghost u0 = self.u@;
            let ghost v0 = self.v@;
            self.y.resize(y_size, 0);
            self.u.resize(u_size, NEUTRAL_CHROMA);
            self.v.resize(v_size, NEUTRAL_CHROMA);
            proof {
                assert(self.y@ =~= resized(y0, y_size as int, 0));
                assert(self.u@ =~= resized(u0, u_size as int, NEUTRAL_CHROMA));
                assert(self.v@ =~= resized(v0, v_size as int, NEUTRAL_CHROMA));
            }
        }

        let y_stride = self.stride_y;
        let uv_stride = self.stride_u;
        let chroma_height = (height + 1) / 2;
        let uv_w = width / 2;

        copy_plane(
            &mut self.y,
            y_stride as usize,
            &i420.data_y,
            i420.stride_y as usize,
            width as usize,
            height as usize,
        );
        copy_plane(
            &mut self.u,
            uv_stride as usize,
            &i420.data_u,
            i420.stride_u as usize,
            uv_w as usize,
            chroma_height as usize,
        );
        copy_plane(
            &mut self.v,
            uv_stride as usize,
            &i420.data_v,
            i420.stride_v as usize,
            uv_w as usize,
            chroma_height as usize,
        );
    }
}

/// Double-buffered video frame manager.
///
/// The writer fills the slot at the write index and then swaps the index; the
/// reader reads the other slot, which holds the last completed frame. Writer
/// and reader therefore never touch the same slot.
#[derive(Debug)]
pub struct VideoBufferManager {
    slot0: VideoBuffer,
    slot1: VideoBuffer,
    writing_slot1: bool,
    inactive: bool,
}

impl VideoBufferManager {
    /// The slot with the given index (0 or 1).
    pub closed spec fn slot(&self, index: int) -> VideoBuffer {
        if index == 0 {
            self.slot0
        } else {
            self.slot1
        }
    }

    /// Index of the slot the writer fills next.
    pub closed spec fn write_index(&self) -> int {
        if self.writing_slot1 {
            1
        } else {
            0
        }
    }

    /// Whether the stream is marked inactive.
    pub closed spec fn spec_inactive(&self) -> bool {
        self.inactive
    }

    /// The buffer the writer fills next.
    pub open spec fn writing(&self) -> VideoBuffer {
        self.slot(self.write_index())
    }

    /// The last completed frame, the one a reader sees.
    pub open spec fn latest(&self) -> VideoBuffer {
        self.slot(1 - self.write_index())
    }

    /// This manager with the write slot replaced by `buffer`.
    pub closed spec fn with_written(self, buffer: VideoBuffer) -> Self {
        if self.writing_slot1 {
            VideoBufferManager { slot1: buffer, ..self }
        } else {
            VideoBufferManager { slot0: buffer, ..self }
        }
    }

    /// This manager with the inactive flag set to `inactive`.
    pub closed spec fn with_inactive(self, inactive: bool) -> Self {
        VideoBufferManager { inactive, ..self }
    }

    /// This manager with the write index swapped.
    pub closed spec fn advanced(self) -> Self {
        VideoBufferManager { writing_slot1: !self.writing_slot1, ..self }
    }

    /// Creates a manager with two empty buffers, writing to slot 0 first, and
    /// marked inactive until the first frame is written.
    pub fn new() -> (r: Self)
        ensures
            r.write_index() == 0,
            r.spec_inactive(),
            r.slot(0).width == 0 && r.slot(0).height == 0,
            r.slot(0).stride_y == 0 && r.slot(0).stride_u == 0 && r.slot(0).stride_v == 0,
            r.slot(0).y@.len() == 0 && r.slot(0).u@.len() == 0 && r.slot(0).v@.len() == 0,
            r.slot(0).frame_id == 0,
            r.slot(1).width == 0 && r.slot(1).height == 0,
            r.slot(1).stride_y == 0 && r.slot(1).stride_u == 0 && r.slot(1).stride_v == 0,
            r.slot(1).y@.len() == 0 && r.slot(1).u@.len() == 0 && r.slot(1).v@.len() == 0,
            r.slot(1).frame_id == 0,
    {
        VideoBufferManager {
            slot0: VideoBuffer::default(),
            slot1: VideoBuffer::default(),
            writing_slot1: false,
            inactive: true,
        }
    }

    /// Returns the buffer to write into (the current write slot) and marks the
    /// stream active.
    pub fn write_buffer(&mut self) -> (r: &mut VideoBuffer)
        ensures
            *r == old(self).writing(),
            *final(self) == old(self).with_inactive(false).with_written(*final(r)),
    {
        self.inactive = false;
        if self.writing_slot1 {
            &mut self.slot1
        } else {
            &mut self.slot0
        }
    }

    /// Swaps the write index so the just-written buffer becomes the read buffer.
    pub fn advance_write(&mut self)
        ensures
            *final(self) == old(self).advanced(),
    {
        self.writing_slot1 = !self.writing_slot1;
    }

    /// Returns the latest completed frame (the slot the writer is not writing to).
    pub fn latest_frame(&self) -> (r: &VideoBuffer)
        ensures
            *r == self.latest(),
    {
        if self.writing_slot1 {
            &self.slot0
        } else {
            &self.slot1
        }
    }

    /// Returns true if the stream is inactive (no frames received recently).
    pub fn is_inactive(&self) -> (r: bool)
        ensures
            r == self.spec_inactive(),
    {
        self.inactive
    }

    /// Marks the stream as inactive or active.
    pub fn set_inactive(&mut self, inactive: bool)
        ensures
            *final(self) == old(self).with_inactive(inactive),
    {
        self.inactive = inactive;
    }
}

/// A frame written through `write_buffer` and published with `advance_write`
/// is the frame that `latest_frame` returns next.
pub proof fn law_written_frame_becomes_latest(m: VideoBufferManager, frame: VideoBuffer)
    ensures
        m.with_inactive(false).with_written(frame).advanced().latest() == frame,
{
}

/// While the writer fills its slot, the frame a reader sees does not change.
pub proof fn law_writing_leaves_latest_unchanged(m: VideoBufferManager, frame: VideoBuffer)
    ensures
        m.with_inactive(false).with_written(frame).latest() == m.latest(),
{
}

/// Publishing twice without writing restores the original write slot, and
/// publishing makes the previous latest frame the next one to be overwritten.
pub proof fn law_advance_swaps_slots(m: VideoBufferManager)
    ensures
        m.advanced().advanced() == m,
        m.advanced().writing() == m.latest(),
        m.advanced().latest() == m.writing(),
        m.advanced().spec_inactive() == m.spec_inactive(),
        m.advanced().write_index() == 1 - m.write_index(),
{
}

/// How the manager's parts move: a slot is 0 or 1; writing a buffer replaces
/// only the write slot; marking activity and publishing change nothing but
/// the flag and the write index respectively.
pub proof fn law_manager_parts(m: VideoBufferManager, buffer: VideoBuffer, inactive: bool)
    ensures
        m.write_index() == 0 || m.write_index() == 1,
        m.writing() == m.slot(m.write_index()),
        m.latest() == m.slot(1 - m.write_index()),
        m.with_written(buffer).writing() == buffer,
        m.with_written(buffer).latest() == m.latest(),
        m.with_written(buffer).write_index() == m.write_index(),
        m.with_written(buffer).spec_inactive() == m.spec_inactive(),
        m.with_inactive(inactive).write_index() == m.write_index(),
        m.with_inactive(inactive).slot(0) == m.slot(0),
        m.with_inactive(inactive).slot(1) == m.slot(1),
        m.advanced().slot(0) == m.slot(0),
        m.advanced().slot(1) == m.slot(1),
{
}

/// Writing a frame marks the stream active; marking it inactive changes no frame.
pub proof fn law_activity_flag(m: VideoBufferManager, frame: VideoBuffer, inactive: bool)
    ensures
        !m.with_inactive(false).with_written(frame).spec_inactive(),
        m.with_inactive(inactive).latest() == m.latest(),
        m.with_inactive(inactive).writing() == m.writing(),
        m.with_inactive(inactive).spec_inactive() == inactive,
{
}

/// What woke the loop that feeds a video stream into its buffers.
#[derive(Debug, Clone, Copy, PartialEq, Eq, Structural)]
pub enum StreamWake {
    /// A frame arrived; `skipped` older frames that were queued behind it
    /// were dropped.
    Frame { skipped: u64 },
    /// No frame came within the timeout.
    TimedOut,
    /// The track ended.
    Ended,
    /// The stream was asked to stop.
    Stopped,
}

/// What the feeding loop does next.
#[derive(Debug, Clone, Copy, PartialEq, Eq, Structural)]
pub enum StreamAction {
    /// Copy the frame into the write buffer under this frame number, then
    /// publish it.
    Store { frame_id: u64 },
    /// Mark the stream inactive and keep waiting.
    MarkInactive,
    /// Mark the stream inactive and stop.
    Finish,
}

/// One step of the loop that feeds a video stream: a frame is stored under
/// the current frame number, and the numbering moves past the frames that
/// were skipped; a timeout marks the stream inactive; the end of the track or
/// a stop request finishes it.
pub open spec fn spec_stream_step(counter: u64, wake: StreamWake) -> (StreamAction, u64) {
    match wake {
        StreamWake::Frame { skipped } => (
            StreamAction::Store { frame_id: counter },
            (counter + 1 + skipped) as u64,
        ),
        StreamWake::TimedOut => (StreamAction::MarkInactive, counter),
        StreamWake::Ended => (StreamAction::Finish, counter),
        StreamWake::Stopped => (StreamAction::Finish, counter),
    }
}

/// One step of the loop that feeds a video stream (see `spec_stream_step`).
/// Returns the action and the next frame number.
pub fn video_stream_step(counter: u64, wake: StreamWake) -> (r: (StreamAction, u64))
    requires
        wake matches StreamWake::Frame { skipped } ==> counter + 1 + skipped <= u64::MAX,
    ensures
        r == spec_stream_step(counter, wake),
{
    match wake {
        StreamWake::Frame { skipped } => (StreamAction::Store { frame_id: counter }, counter + 1
            + skipped),
        StreamWake::TimedOut => (StreamAction::MarkInactive, counter),
        StreamWake::Ended => (StreamAction::Finish, counter),
        StreamWake::Stopped => (StreamAction::Finish, counter),
    }
}

/// The frame numbers a run of wakes stores, in order, and the frame number
/// the run ends with, starting from `start`.
pub open spec fn stream_run(start: u64, wakes: Seq<StreamWake>) -> (Seq<u64>, u64)
    decreases wakes.len(),
{
    if wakes.len() == 0 {
        (Seq::empty(), start)
    } else {
        let (ids, counter) = stream_run(start, wakes.drop_last());
        let (action, next) = spec_stream_step(counter, wakes.last());
        (
            match action {
                StreamAction::Store { frame_id } => ids.push(frame_id),
                _ => ids,
            },
            next,
        )
    }
}

/// The number of skipped frames reported with each arrived frame of a run,
/// in order.
pub open spec fn frame_skips(wakes: Seq<StreamWake>) -> Seq<u64>
    decreases wakes.len(),
{
    if wakes.len() == 0 {
        Seq::empty()
    } else {
        match wakes.last() {
            StreamWake::Frame { skipped } => frame_skips(wakes.drop_last()).push(skipped),
            _ => frame_skips(wakes.drop_last()),
        }
    }
}

/// How many frame numbers a run uses up: each arrived frame takes its own
/// number and those of the frames skipped with it.
pub open spec fn frames_consumed(wakes: Seq<StreamWake>) -> int
    decreases wakes.len(),
{
    if wakes.len() == 0 {
        0
    } else {
        frames_consumed(wakes.drop_last()) + match wakes.last() {
            StreamWake::Frame { skipped } => 1 + skipped,
            _ => 0,
        }
    }
}

proof fn lemma_frames_consumed_grows(wakes: Seq<StreamWake>, k: int)
    requires
        0 <= k <= wakes.len(),
    ensures
        frames_consumed(wakes.subrange(0, k)) <= frames_consumed(wakes),
        frames_consumed(wakes) >= 0,
    decreases wakes.len(),
{
    if wakes.len() > 0 {
        if k == wakes.len() {
            assert(wakes.subrange(0, k) =~= wakes);
            lemma_frames_consumed_grows(wakes.drop_last(), k - 1);
        } else {
            lemma_frames_consumed_grows(wakes.drop_last(), k);
            assert(wakes.drop_last().subrange(0, k) =~= wakes.subrange(0, k));
        }
    } else {
        assert(wakes.subrange(0, k) =~= wakes);
    }
}

/// Over a run of the feeding loop whose frame numbers fit in a `u64`, the
/// frames are stored under increasing numbers: the first under the starting
/// number, and each later one under the previous number plus one plus the
/// frames skipped with the previous one. The run ends with the starting
/// number plus every number used up, so a run from 0 numbers its first frame
/// 0.
pub proof fn law_frame_numbers_increase(start: u64, wakes: Seq<StreamWake>)
    requires
        start + frames_consumed(wakes) <= u64::MAX,
    ensures
        stream_run(start, wakes).0.len() == frame_skips(wakes).len(),
        stream_run(start, wakes).1 == start + frames_consumed(wakes),
        stream_run(start, wakes).0.len() > 0 ==> stream_run(start, wakes).0[0] == start,
        stream_run(start, wakes).0.len() == 0 ==> stream_run(start, wakes).1 == start,
        forall|i: int|
            0 <= i < stream_run(start, wakes).0.len() - 1 ==> #[trigger] stream_run(start, wakes).0[i + 1]
                == stream_run(start, wakes).0[i] + 1 + frame_skips(wakes)[i],
        forall|i: int|
            0 <= i < stream_run(start, wakes).0.len() - 1 ==> stream_run(start, wakes).0[i]
                < #[trigger] stream_run(start, wakes).0[i + 1],
        stream_run(start, wakes).0.len() > 0 ==> stream_run(start, wakes).1 == stream_run(
            start,
            wakes,
        ).0.last() + 1 + frame_skips(wakes).last(),
    decreases wakes.len(),
{
    if wakes.len() > 0 {
        let prefix = wakes.drop_last();
        lemma_frames_consumed_grows(wakes, wakes.len() - 1);
        assert(wakes.subrange(0, wakes.len() - 1) =~= prefix);
        lemma_frames_consumed_grows(prefix, 0);
        law_frame_numbers_increase(start, prefix);
    }
}

/// Aligning rounds up to the nearest multiple: the result is a multiple of
/// the alignment, at least the value, and less than the value plus the
/// alignment.
pub proof fn law_align_rounds_up(value: int, alignment: int)
    requires
        value >= 0,
        alignment > 0,
    ensures
        spec_align_to(value, alignment) % alignment == 0,
        value <= spec_align_to(value, alignment) < value + alignment,
{
    let q = (value + alignment - 1) / alignment;
    assert(spec_align_to(value, alignment) == q * alignment);
    assert((q * alignment) % alignment == 0) by (nonlinear_arith)
        requires
            alignment > 0,
    ;
    assert(q * alignment <= value + alignment - 1 < q * alignment + alignment) by (nonlinear_arith)
        requires
            alignment > 0,
            q == (value + alignment - 1) / alignment,
            value >= 0,
    ;
}

/// What each wake does to the feeding loop: only an arrived frame is
/// stored, under the current number, and only it moves the number on, by
/// one plus the frames skipped with it; a timeout marks the stream inactive
/// and goes on waiting; the end of the track and a stop request finish it.
pub proof fn law_stream_wakes(counter: u64, wake: StreamWake)
    requires
        wake matches StreamWake::Frame { skipped } ==> counter + 1 + skipped <= u64::MAX,
    ensures
        (spec_stream_step(counter, wake).0 is Store) == (wake is Frame),
        wake matches StreamWake::Frame { skipped } ==> spec_stream_step(counter, wake).0
            == (StreamAction::Store { frame_id: counter }) && spec_stream_step(counter, wake).1 == counter + 1
            + skipped,
        !(wake is Frame) ==> spec_stream_step(counter, wake).1 == counter,
        (spec_stream_step(counter, wake).0 is MarkInactive) == (wake is TimedOut),
        (spec_stream_step(counter, wake).0 is Finish) == (wake is Ended || wake is Stopped),
{
}

} // verus!
