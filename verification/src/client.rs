//! Frame-rate bookkeeping and cube meshes for the game client.
use std::collections::VecDeque;
use std::time::{Duration, Instant};
use vstd::prelude::*;

verus! {

/// `std::time::Instant`, a reading of the monotonic clock; opaque here.
#[verifier::external_type_specification]
#[verifier::external_body]
pub struct ExInstant(Instant);

/// `Instant::now`: reads the clock. Nothing is claimed of the reading.
pub assume_specification[ Instant::now ]() -> (now: Instant);

/// `Instant::elapsed`: the time since `instant` (zero if the clock reads earlier).
/// Nothing is claimed of the duration.
pub assume_specification[ Instant::elapsed ](instant: &Instant) -> (elapsed: Duration);

/// `Duration::as_nanos`: the whole nanoseconds in `duration`. Nothing is claimed
/// of the count, as durations are opaque here.
pub assume_specification[ Duration::as_nanos ](duration: &Duration) -> (nanos: u128);

/// Length of the measuring window, in nanoseconds.
pub const NANOS_PER_SECOND: u128 = 1_000_000_000;

/// A frame recorded at `frame` is out of the window ending at `now` when it lies
/// strictly more than one second before `now`.
pub open spec fn is_stale(frame: u128, now: u128) -> bool {
    frame + NANOS_PER_SECOND < now
}

/// The frames left after dropping, from the front, every frame that is out of the
/// window ending at `now`; dropping stops at the first frame that is still inside.
pub open spec fn drop_stale(frames: Seq<u128>, now: u128) -> Seq<u128>
    decreases frames.len(),
{
    if frames.len() > 0 && is_stale(frames[0], now) {
        drop_stale(frames.drop_first(), now)
    } else {
        frames
    }
}

/// The frames that a counter holds after registering a frame at `now`.
pub open spec fn ticked(frames: Seq<u128>, now: u128) -> Seq<u128> {
    drop_stale(frames, now).push(now)
}

/// Frame times are recorded in non-decreasing order.
pub open spec fn is_chronological(frames: Seq<u128>) -> bool {
    forall|i: int, j: int| 0 <= i <= j < frames.len() ==> frames[i] <= frames[j]
}

/// Frames that are inside the window ending at `now`.
pub open spec fn in_window(now: u128) -> spec_fn(u128) -> bool {
    |frame: u128| !is_stale(frame, now)
}

/// The time at which a frame read from the clock at `reading` is recorded after
/// `frames`: the reading, unless the last recorded frame is later.
pub open spec fn frame_time(frames: Seq<u128>, reading: u128) -> u128 {
    if frames.len() > 0 && reading < frames.last() {
        frames.last()
    } else {
        reading
    }
}

/// Frame time law: a frame is recorded at the clock reading itself unless the
/// last recorded frame is later, and then at that frame's time; so the frame time
/// is the least time that is no earlier than the reading and no earlier than the
/// last recorded frame.
pub proof fn lemma_frame_time(frames: Seq<u128>, reading: u128)
    ensures
        frame_time(frames, reading) >= reading,
        frames.len() > 0 ==> frame_time(frames, reading) >= frames.last(),
        frames.len() == 0 ==> frame_time(frames, reading) == reading,
        frames.len() > 0 && reading >= frames.last() ==> frame_time(frames, reading) == reading,
        frame_time(frames, reading) == reading || frame_time(frames, reading) == frames.last(),
{
}

/// Measures Frames Per Second (FPS).
///
/// Each registered frame is kept as a timestamp: the nanoseconds since the counter
/// was created, or since any origin a caller of [`FPSCounter::tick_at`] chooses
/// (the same one for every call).
#[derive(Debug)]
pub struct FPSCounter {
    /// The last registered frames.
    last_second_frames: VecDeque<u128>,
    /// When the counter was created.
    created: Instant,
}

impl View for FPSCounter {
    type V = Seq<u128>;

    closed spec fn view(&self) -> Seq<u128> {
        self.last_second_frames@
    }
}

impl FPSCounter {
    /// Creates a new FPSCounter.
    pub fn new() -> (counter: FPSCounter)
        ensures
            counter@ == Seq::<u128>::empty(),
    {
        FPSCounter { last_second_frames: VecDeque::with_capacity(128), created: Instant::now() }
    }

    /// Updates the FPSCounter with a frame now and returns the number of frames
    /// it holds afterwards: the frames of the last second, this one included.
    /// The reading is the clock's time since the counter was created; see
    /// [`FPSCounter::tick_reading`].
    pub fn tick(&mut self) -> (frames: usize)
        ensures
            exists|reading: u128|
                final(self)@ == ticked(old(self)@, frame_time(old(self)@, reading)) && frames
                    == final(self)@.len(),
            exists|now: u128|
                final(self)@ == ticked(old(self)@, now) && frames == final(self)@.len() && (old(
                    self,
                )@.len() > 0 ==> old(self)@.last() <= now),
            is_chronological(old(self)@) ==> is_chronological(final(self)@),
    {
        let reading = self.created.elapsed().as_nanos();
        proof {
            lemma_frame_time(self@, reading);
        }
        self.tick_reading(reading)
    }

    /// Updates the FPSCounter with a frame for the clock reading `reading` and
    /// returns the number of frames it holds afterwards. The clock never goes back,
    /// so a reading is never taken as earlier than the last recorded frame: the
    /// frame is recorded at [`frame_time`], the later of the two. Frames recorded
    /// in order stay in order.
    pub fn tick_reading(&mut self, reading: u128) -> (frames: usize)
        ensures
            final(self)@ == ticked(old(self)@, frame_time(old(self)@, reading)),
            frames == final(self)@.len(),
            is_chronological(old(self)@) ==> is_chronological(final(self)@),
    {
        broadcast use vstd::std_specs::vecdeque::axiom_spec_len;
        let count = self.last_second_frames.len();
        let now = if count > 0 && reading < self.last_second_frames[count - 1] {
            self.last_second_frames[count - 1]
        } else {
            reading
        };
        proof {
            if is_chronological(self@) {
                assert forall|i: int| 0 <= i < self@.len() implies self@[i] <= now by {
                    assert(self@[i] <= self@[self@.len() - 1]);
                }
                lemma_tick_counts_last_second(self@, now);
            }
        }
        self.tick_at(now)
    }

    /// Updates the FPSCounter with a frame at `now` and returns the number of
    /// frames it holds afterwards.
    pub fn tick_at(&mut self, now: u128) -> (frames: usize)
        ensures
            final(self)@ == ticked(old(self)@, now),
            frames == final(self)@.len(),
    {
        broadcast use vstd::std_specs::vecdeque::axiom_spec_len;
        while self.last_second_frames.len() > 0 && now > NANOS_PER_SECOND
            && self.last_second_frames[0] < now - NANOS_PER_SECOND
            invariant
                drop_stale(self@, now) == drop_stale(old(self)@, now),
            decreases self@.len(),
        {
            let ghost before = self@;
            let _ = self.last_second_frames.pop_front();
            assert(self@ =~= before.drop_first());
        }
        self.last_second_frames.push_back(now);
        self.last_second_frames.len()
    }
}

/// What is left after dropping stale frames is a suffix of the frames.
proof fn lemma_drop_stale_is_suffix(frames: Seq<u128>, now: u128) -> (start: int)
    ensures
        0 <= start <= frames.len(),
        drop_stale(frames, now) == frames.subrange(start, frames.len() as int),
        start < frames.len() ==> !is_stale(frames[start], now),
    decreases frames.len(),
{
    if frames.len() > 0 && is_stale(frames[0], now) {
        let rest = lemma_drop_stale_is_suffix(frames.drop_first(), now);
        assert(frames.drop_first().subrange(rest, frames.len() - 1) =~= frames.subrange(
            rest + 1,
            frames.len() as int,
        ));
        rest + 1
    } else {
        assert(frames.subrange(0, frames.len() as int) =~= frames);
        0
    }
}

/// Filtering keeps a sequence whole when every element passes.
proof fn lemma_filter_keeps_all(frames: Seq<u128>, keep: spec_fn(u128) -> bool)
    requires
        forall|i: int| 0 <= i < frames.len() ==> keep(frames[i]),
    ensures
        frames.filter(keep) == frames,
    decreases frames.len(),
{
    reveal(Seq::filter);
    if frames.len() > 0 {
        lemma_filter_keeps_all(frames.drop_last(), keep);
        assert(frames.drop_last().push(frames.last()) =~= frames);
    }
}

/// On chronological frames, dropping the stale prefix is the same as keeping
/// exactly the frames inside the window.
proof fn lemma_drop_stale_is_filter(frames: Seq<u128>, now: u128)
    requires
        is_chronological(frames),
    ensures
        drop_stale(frames, now) == frames.filter(in_window(now)),
    decreases frames.len(),
{
    broadcast use vstd::seq_lib::group_seq_properties;

    if frames.len() == 0 {
        reveal(Seq::filter);
    } else {
        let rest = frames.drop_first();
        assert(seq![frames[0]] + rest =~= frames);
        rest.lemma_filter_prepend(frames[0], in_window(now));
        if is_stale(frames[0], now) {
            lemma_drop_stale_is_filter(rest, now);
            assert(Seq::<u128>::empty() + rest.filter(in_window(now)) =~= rest.filter(in_window(now)));
        } else {
            assert forall|i: int| 0 <= i < frames.len() implies #[trigger] in_window(now)(frames[i]) by {
                assert(frames[0] <= frames[i]);
            }
            lemma_filter_keeps_all(frames, in_window(now));
        }
    }
}

/// Counting law of the frame counter: when the recorded frames are chronological
/// and none lies after `now`, a tick at `now` keeps exactly the recorded frames
/// that lie within one second of `now`, followed by `now` itself; so the count it
/// returns is the number of frames in the last second, this one included, and the
/// frames stay chronological and inside the window.
pub proof fn lemma_tick_counts_last_second(frames: Seq<u128>, now: u128)
    requires
        is_chronological(frames),
        forall|i: int| 0 <= i < frames.len() ==> frames[i] <= now,
    ensures
        ticked(frames, now) == frames.filter(in_window(now)).push(now),
        is_chronological(ticked(frames, now)),
        forall|i: int|
            0 <= i < ticked(frames, now).len() ==> !is_stale(#[trigger] ticked(frames, now)[i], now)
                && ticked(frames, now)[i] <= now,
{
    lemma_drop_stale_is_filter(frames, now);
    let start = lemma_drop_stale_is_suffix(frames, now);
    let kept = drop_stale(frames, now);
    let after = ticked(frames, now);
    assert forall|i: int| 0 <= i < after.len() implies !is_stale(#[trigger] after[i], now)
        && after[i] <= now by {
        if i < kept.len() {
            assert(after[i] == frames[start + i]);
            if is_stale(after[i], now) {
                assert(frames[start] <= frames[start + i]);
            }
        }
    }
    assert forall|i: int, j: int| 0 <= i <= j < after.len() implies after[i] <= after[j] by {
        if j < kept.len() {
            assert(after[i] == frames[start + i]);
            assert(after[j] == frames[start + j]);
        } else if i < kept.len() {
            assert(after[i] == frames[start + i]);
        }
    }
}

impl Default for FPSCounter {
    fn default() -> (counter: Self)
        ensures
            counter@ == Seq::<u128>::empty(),
    {
        FPSCounter::new()
    }
}

/// The vertex indices of the six faces of a cube, two triangles per face, in the
/// order top, bottom, right, left, front, back.
pub open spec fn cube_index_table() -> Seq<u32> {
    seq![
        0, 1, 2, 2, 3, 0,  // top
        4, 6, 5, 6, 4, 7,  // bottom
        8, 9, 10, 10, 11, 8,  // right
        12, 14, 13, 14, 12, 15,  // left
        16, 18, 17, 18, 16, 19,  // front
        20, 21, 22, 22, 23, 20,  // back
    ]
}

/// The triangle list of a cube whose vertices are laid out as [`cube_corners`] lays
/// them out.
pub fn cube_indices() -> (index_data: Vec<u32>)
    ensures
        index_data@ == cube_index_table(),
{
    let index_data: Vec<u32> = vec![
        0, 1, 2, 2, 3, 0,  // top
        4, 6, 5, 6, 4, 7,  // bottom
        8, 9, 10, 10, 11, 8,  // right
        12, 14, 13, 14, 12, 15,  // left
        16, 18, 17, 18, 16, 19,  // front
        20, 21, 22, 22, 23, 20,  // back
    ];
    assert(index_data@ =~= cube_index_table());
    index_data
}


/// The indices of a mesh shifted past `base` vertices that come before it.
pub open spec fn shifted(indices: Seq<u32>, base: u32) -> Seq<u32> {
    indices.map_values(|index: u32| (base + index) as u32)
}

/// Index shifting law: without overflow, a shifted mesh has as many indices as
/// the mesh, and each is exactly the mesh's index plus `base`, as an integer.
pub proof fn lemma_shift_is_exact(indices: Seq<u32>, base: u32)
    requires
        forall|i: int| 0 <= i < indices.len() ==> base + #[trigger] indices[i] <= u32::MAX,
    ensures
        shifted(indices, base).len() == indices.len(),
        forall|i: int| 0 <= i < indices.len() ==> #[trigger] shifted(indices, base)[i] == base + indices[i],
{
}

/// Appends to `index_data` the triangle list of a mesh whose vertices are placed
/// after the `base` vertices already in the vertex buffer: every index is shifted
/// by `base`.
pub fn append_indices(index_data: &mut Vec<u32>, base: u32, indices: &Vec<u32>)
    requires
        forall|i: int| 0 <= i < indices@.len() ==> base + #[trigger] indices@[i] <= u32::MAX,
    ensures
        final(index_data)@ == old(index_data)@ + shifted(indices@, base),
        final(index_data)@.len() == old(index_data)@.len() + indices@.len(),
        forall|i: int| 0 <= i < old(index_data)@.len() ==> final(index_data)@[i] == old(index_data)@[i],
        forall|i: int|
            0 <= i < indices@.len() ==> final(index_data)@[old(index_data)@.len() + i] == base
                + indices@[i],
{
    proof {
        lemma_shift_is_exact(indices@, base);
    }
    let count = indices.len();
    for i in 0..count
        invariant
            count == indices@.len(),
            forall|j: int| 0 <= j < indices@.len() ==> base + #[trigger] indices@[j] <= u32::MAX,
            index_data@ == old(index_data)@ + shifted(indices@.take(i as int), base),
    {
        let ghost before = index_data@;
        index_data.push(base + indices[i]);
        assert(shifted(indices@.take(i + 1), base) =~= shifted(indices@.take(i as int), base).push(
            (base + indices@[i as int]) as u32,
        ));
        assert(index_data@ =~= old(index_data)@ + shifted(indices@.take(i + 1), base));
    }
    assert(indices@.take(count as int) =~= indices@);
}

/// A corner of a cube of edge 1 around a point: `offset` gives, per axis, the
/// direction (-1 or 1) in which the corner lies half an edge away from the point;
/// `tex_coord` is the corner's texture coordinate.
pub struct CubeCorner {
    pub offset: [i8; 3],
    pub tex_coord: [i8; 2],
}

/// The corners of a cube, four per face in the order top, bottom, right, left,
/// front, back; each face's corners go around the face.
pub open spec fn cube_corner_table() -> Seq<CubeCorner> {
    seq![
        CubeCorner { offset: [-1i8, -1i8, 1i8], tex_coord: [0i8, 0i8] },  // top
        CubeCorner { offset: [1i8, -1i8, 1i8], tex_coord: [1i8, 0i8] },
        CubeCorner { offset: [1i8, 1i8, 1i8], tex_coord: [1i8, 1i8] },
        CubeCorner { offset: [-1i8, 1i8, 1i8], tex_coord: [0i8, 1i8] },
        CubeCorner { offset: [1i8, 1i8, -1i8], tex_coord: [0i8, 0i8] },  // bottom
        CubeCorner { offset: [-1i8, 1i8, -1i8], tex_coord: [1i8, 0i8] },
        CubeCorner { offset: [-1i8, -1i8, -1i8], tex_coord: [1i8, 1i8] },
        CubeCorner { offset: [1i8, -1i8, -1i8], tex_coord: [0i8, 1i8] },
        CubeCorner { offset: [1i8, -1i8, -1i8], tex_coord: [0i8, 0i8] },  // right
        CubeCorner { offset: [1i8, 1i8, -1i8], tex_coord: [1i8, 0i8] },
        CubeCorner { offset: [1i8, 1i8, 1i8], tex_coord: [1i8, 1i8] },
        CubeCorner { offset: [1i8, -1i8, 1i8], tex_coord: [0i8, 1i8] },
        CubeCorner { offset: [-1i8, 1i8, 1i8], tex_coord: [0i8, 0i8] },  // left
        CubeCorner { offset: [-1i8, -1i8, 1i8], tex_coord: [1i8, 0i8] },
        CubeCorner { offset: [-1i8, -1i8, -1i8], tex_coord: [1i8, 1i8] },
        CubeCorner { offset: [-1i8, 1i8, -1i8], tex_coord: [0i8, 1i8] },
        CubeCorner { offset: [-1i8, 1i8, -1i8], tex_coord: [0i8, 0i8] },  // front
        CubeCorner { offset: [1i8, 1i8, -1i8], tex_coord: [1i8, 0i8] },
        CubeCorner { offset: [1i8, 1i8, 1i8], tex_coord: [1i8, 1i8] },
        CubeCorner { offset: [-1i8, 1i8, 1i8], tex_coord: [0i8, 1i8] },
        CubeCorner { offset: [1i8, -1i8, 1i8], tex_coord: [0i8, 0i8] },  // back
        CubeCorner { offset: [-1i8, -1i8, 1i8], tex_coord: [1i8, 0i8] },
        CubeCorner { offset: [-1i8, -1i8, -1i8], tex_coord: [1i8, 1i8] },
        CubeCorner { offset: [1i8, -1i8, -1i8], tex_coord: [0i8, 1i8] },
    ]
}

/// The corners of a cube around a point, as [`cube_corner_table`] lists them.
pub fn cube_corners() -> (vertex_data: Vec<CubeCorner>)
    ensures
        vertex_data@ == cube_corner_table(),
{
    let vertex_data: Vec<CubeCorner> = vec![
        CubeCorner { offset: [-1i8, -1i8, 1i8], tex_coord: [0i8, 0i8] },  // top
        CubeCorner { offset: [1i8, -1i8, 1i8], tex_coord: [1i8, 0i8] },
        CubeCorner { offset: [1i8, 1i8, 1i8], tex_coord: [1i8, 1i8] },
        CubeCorner { offset: [-1i8, 1i8, 1i8], tex_coord: [0i8, 1i8] },
        CubeCorner { offset: [1i8, 1i8, -1i8], tex_coord: [0i8, 0i8] },  // bottom
        CubeCorner { offset: [-1i8, 1i8, -1i8], tex_coord: [1i8, 0i8] },
        CubeCorner { offset: [-1i8, -1i8, -1i8], tex_coord: [1i8, 1i8] },
        CubeCorner { offset: [1i8, -1i8, -1i8], tex_coord: [0i8, 1i8] },
        CubeCorner { offset: [1i8, -1i8, -1i8], tex_coord: [0i8, 0i8] },  // right
        CubeCorner { offset: [1i8, 1i8, -1i8], tex_coord: [1i8, 0i8] },
        CubeCorner { offset: [1i8, 1i8, 1i8], tex_coord: [1i8, 1i8] },
        CubeCorner { offset: [1i8, -1i8, 1i8], tex_coord: [0i8, 1i8] },
        CubeCorner { offset: [-1i8, 1i8, 1i8], tex_coord: [0i8, 0i8] },  // left
        CubeCorner { offset: [-1i8, -1i8, 1i8], tex_coord: [1i8, 0i8] },
        CubeCorner { offset: [-1i8, -1i8, -1i8], tex_coord: [1i8, 1i8] },
        CubeCorner { offset: [-1i8, 1i8, -1i8], tex_coord: [0i8, 1i8] },
        CubeCorner { offset: [-1i8, 1i8, -1i8], tex_coord: [0i8, 0i8] },  // front
        CubeCorner { offset: [1i8, 1i8, -1i8], tex_coord: [1i8, 0i8] },
        CubeCorner { offset: [1i8, 1i8, 1i8], tex_coord: [1i8, 1i8] },
        CubeCorner { offset: [-1i8, 1i8, 1i8], tex_coord: [0i8, 1i8] },
        CubeCorner { offset: [1i8, -1i8, 1i8], tex_coord: [0i8, 0i8] },  // back
        CubeCorner { offset: [-1i8, -1i8, 1i8], tex_coord: [1i8, 0i8] },
        CubeCorner { offset: [-1i8, -1i8, -1i8], tex_coord: [1i8, 1i8] },
        CubeCorner { offset: [1i8, -1i8, -1i8], tex_coord: [0i8, 1i8] },
    ];
    assert(vertex_data@ =~= cube_corner_table());
    vertex_data
}

/// The axis (0 for x, 1 for y, 2 for z) that the `face`-th face of a cube is
/// perpendicular to.
pub open spec fn face_axis(face: int) -> int {
    if face < 2 { 2 } else if face < 4 { 0 } else { 1 }
}

/// The side (-1 or 1) of its axis on which the `face`-th face of a cube lies.
pub open spec fn face_side(face: int) -> i8 {
    if face % 2 == 0 { 1i8 } else { -1i8 }
}

/// The offset of the `k`-th corner of the `t`-th triangle of the cube.
pub open spec fn triangle_corner(t: int, k: int) -> [i8; 3] {
    cube_corner_table()[cube_index_table()[3 * t + k] as int].offset
}

/// The winding of a triangle with corners `a`, `b`, `c`, seen from outside a cube
/// centred at the origin: the dot product of `(b - a) x (c - a)` with `a`, which is
/// positive when the triangle winds counter-clockwise seen from outside.
pub open spec fn winding(ax: int, ay: int, az: int, bx: int, by: int, bz: int, cx: int, cy: int, cz: int) -> int {
    let (ux, uy, uz) = (bx - ax, by - ay, bz - az);
    let (vx, vy, vz) = (cx - ax, cy - ay, cz - az);
    (uy * vz - uz * vy) * ax + (uz * vx - ux * vz) * ay + (ux * vy - uy * vx) * az
}

/// The winding of the `t`-th triangle of the cube.
pub open spec fn triangle_winding(t: int) -> int {
    let a = triangle_corner(t, 0);
    let b = triangle_corner(t, 1);
    let c = triangle_corner(t, 2);
    winding(
        a@[0] as int, a@[1] as int, a@[2] as int,
        b@[0] as int, b@[1] as int, b@[2] as int,
        c@[0] as int, c@[1] as int, c@[2] as int,
    )
}

/// Cube winding law: every triangle of the cube winds counter-clockwise seen from
/// outside, so its front face looks out of the cube.
pub proof fn lemma_cube_winds_outward()
    ensures
        forall|t: int| 0 <= t < 12 ==> #[trigger] triangle_winding(t) > 0,
{
    assert forall|t: int| 0 <= t < 12 implies #[trigger] triangle_winding(t) > 0 by {
        if t == 0 {
            assert(cube_index_table()[0] == 0);
            assert(triangle_corner(0, 0)@[0] == -1);
            assert(triangle_corner(0, 0)@[1] == -1);
            assert(triangle_corner(0, 0)@[2] == 1);
            assert(cube_index_table()[1] == 1);
            assert(triangle_corner(0, 1)@[0] == 1);
            assert(triangle_corner(0, 1)@[1] == -1);
            assert(triangle_corner(0, 1)@[2] == 1);
            assert(cube_index_table()[2] == 2);
            assert(triangle_corner(0, 2)@[0] == 1);
            assert(triangle_corner(0, 2)@[1] == 1);
            assert(triangle_corner(0, 2)@[2] == 1);
            assert(triangle_winding(0) == winding(-1, -1, 1, 1, -1, 1, 1, 1, 1));
            assert(winding(-1, -1, 1, 1, -1, 1, 1, 1, 1) == 4) by (nonlinear_arith);
        } else if t == 1 {
            assert(cube_index_table()[3] == 2);
            assert(triangle_corner(1, 0)@[0] == 1);
            assert(triangle_corner(1, 0)@[1] == 1);
            assert(triangle_corner(1, 0)@[2] == 1);
            assert(cube_index_table()[4] == 3);
            assert(triangle_corner(1, 1)@[0] == -1);
            assert(triangle_corner(1, 1)@[1] == 1);
            assert(triangle_corner(1, 1)@[2] == 1);
            assert(cube_index_table()[5] == 0);
            assert(triangle_corner(1, 2)@[0] == -1);
            assert(triangle_corner(1, 2)@[1] == -1);
            assert(triangle_corner(1, 2)@[2] == 1);
            assert(triangle_winding(1) == winding(1, 1, 1, -1, 1, 1, -1, -1, 1));
            assert(winding(1, 1, 1, -1, 1, 1, -1, -1, 1) == 4) by (nonlinear_arith);
        } else if t == 2 {
            assert(cube_index_table()[6] == 4);
            assert(triangle_corner(2, 0)@[0] == 1);
            assert(triangle_corner(2, 0)@[1] == 1);
            assert(triangle_corner(2, 0)@[2] == -1);
            assert(cube_index_table()[7] == 6);
            assert(triangle_corner(2, 1)@[0] == -1);
            assert(triangle_corner(2, 1)@[1] == -1);
            assert(triangle_corner(2, 1)@[2] == -1);
            assert(cube_index_table()[8] == 5);
            assert(triangle_corner(2, 2)@[0] == -1);
            assert(triangle_corner(2, 2)@[1] == 1);
            assert(triangle_corner(2, 2)@[2] == -1);
            assert(triangle_winding(2) == winding(1, 1, -1, -1, -1, -1, -1, 1, -1));
            assert(winding(1, 1, -1, -1, -1, -1, -1, 1, -1) == 4) by (nonlinear_arith);
        } else if t == 3 {
            assert(cube_index_table()[9] == 6);
            assert(triangle_corner(3, 0)@[0] == -1);
            assert(triangle_corner(3, 0)@[1] == -1);
            assert(triangle_corner(3, 0)@[2] == -1);
            assert(cube_index_table()[10] == 4);
            assert(triangle_corner(3, 1)@[0] == 1);
            assert(triangle_corner(3, 1)@[1] == 1);
            assert(triangle_corner(3, 1)@[2] == -1);
            assert(cube_index_table()[11] == 7);
            assert(triangle_corner(3, 2)@[0] == 1);
            assert(triangle_corner(3, 2)@[1] == -1);
            assert(triangle_corner(3, 2)@[2] == -1);
            assert(triangle_winding(3) == winding(-1, -1, -1, 1, 1, -1, 1, -1, -1));
            assert(winding(-1, -1, -1, 1, 1, -1, 1, -1, -1) == 4) by (nonlinear_arith);
        } else if t == 4 {
            assert(cube_index_table()[12] == 8);
            assert(triangle_corner(4, 0)@[0] == 1);
            assert(triangle_corner(4, 0)@[1] == -1);
            assert(triangle_corner(4, 0)@[2] == -1);
            assert(cube_index_table()[13] == 9);
            assert(triangle_corner(4, 1)@[0] == 1);
            assert(triangle_corner(4, 1)@[1] == 1);
            assert(triangle_corner(4, 1)@[2] == -1);
            assert(cube_index_table()[14] == 10);
            assert(triangle_corner(4, 2)@[0] == 1);
            assert(triangle_corner(4, 2)@[1] == 1);
            assert(triangle_corner(4, 2)@[2] == 1);
            assert(triangle_winding(4) == winding(1, -1, -1, 1, 1, -1, 1, 1, 1));
            assert(winding(1, -1, -1, 1, 1, -1, 1, 1, 1) == 4) by (nonlinear_arith);
        } else if t == 5 {
            assert(cube_index_table()[15] == 10);
            assert(triangle_corner(5, 0)@[0] == 1);
            assert(triangle_corner(5, 0)@[1] == 1);
            assert(triangle_corner(5, 0)@[2] == 1);
            assert(cube_index_table()[16] == 11);
            assert(triangle_corner(5, 1)@[0] == 1);
            assert(triangle_corner(5, 1)@[1] == -1);
            assert(triangle_corner(5, 1)@[2] == 1);
            assert(cube_index_table()[17] == 8);
            assert(triangle_corner(5, 2)@[0] == 1);
            assert(triangle_corner(5, 2)@[1] == -1);
            assert(triangle_corner(5, 2)@[2] == -1);
            assert(triangle_winding(5) == winding(1, 1, 1, 1, -1, 1, 1, -1, -1));
            assert(winding(1, 1, 1, 1, -1, 1, 1, -1, -1) == 4) by (nonlinear_arith);
        } else if t == 6 {
            assert(cube_index_table()[18] == 12);
            assert(triangle_corner(6, 0)@[0] == -1);
            assert(triangle_corner(6, 0)@[1] == 1);
            assert(triangle_corner(6, 0)@[2] == 1);
            assert(cube_index_table()[19] == 14);
            assert(triangle_corner(6, 1)@[0] == -1);
            assert(triangle_corner(6, 1)@[1] == -1);
            assert(triangle_corner(6, 1)@[2] == -1);
            assert(cube_index_table()[20] == 13);
            assert(triangle_corner(6, 2)@[0] == -1);
            assert(triangle_corner(6, 2)@[1] == -1);
            assert(triangle_corner(6, 2)@[2] == 1);
            assert(triangle_winding(6) == winding(-1, 1, 1, -1, -1, -1, -1, -1, 1));
            assert(winding(-1, 1, 1, -1, -1, -1, -1, -1, 1) == 4) by (nonlinear_arith);
        } else if t == 7 {
            assert(cube_index_table()[21] == 14);
            assert(triangle_corner(7, 0)@[0] == -1);
            assert(triangle_corner(7, 0)@[1] == -1);
            assert(triangle_corner(7, 0)@[2] == -1);
            assert(cube_index_table()[22] == 12);
            assert(triangle_corner(7, 1)@[0] == -1);
            assert(triangle_corner(7, 1)@[1] == 1);
            assert(triangle_corner(7, 1)@[2] == 1);
            assert(cube_index_table()[23] == 15);
            assert(triangle_corner(7, 2)@[0] == -1);
            assert(triangle_corner(7, 2)@[1] == 1);
            assert(triangle_corner(7, 2)@[2] == -1);
            assert(triangle_winding(7) == winding(-1, -1, -1, -1, 1, 1, -1, 1, -1));
            assert(winding(-1, -1, -1, -1, 1, 1, -1, 1, -1) == 4) by (nonlinear_arith);
        } else if t == 8 {
            assert(cube_index_table()[24] == 16);
            assert(triangle_corner(8, 0)@[0] == -1);
            assert(triangle_corner(8, 0)@[1] == 1);
            assert(triangle_corner(8, 0)@[2] == -1);
            assert(cube_index_table()[25] == 18);
            assert(triangle_corner(8, 1)@[0] == 1);
            assert(triangle_corner(8, 1)@[1] == 1);
            assert(triangle_corner(8, 1)@[2] == 1);
            assert(cube_index_table()[26] == 17);
            assert(triangle_corner(8, 2)@[0] == 1);
            assert(triangle_corner(8, 2)@[1] == 1);
            assert(triangle_corner(8, 2)@[2] == -1);
            assert(triangle_winding(8) == winding(-1, 1, -1, 1, 1, 1, 1, 1, -1));
            assert(winding(-1, 1, -1, 1, 1, 1, 1, 1, -1) == 4) by (nonlinear_arith);
        } else if t == 9 {
            assert(cube_index_table()[27] == 18);
            assert(triangle_corner(9, 0)@[0] == 1);
            assert(triangle_corner(9, 0)@[1] == 1);
            assert(triangle_corner(9, 0)@[2] == 1);
            assert(cube_index_table()[28] == 16);
            assert(triangle_corner(9, 1)@[0] == -1);
            assert(triangle_corner(9, 1)@[1] == 1);
            assert(triangle_corner(9, 1)@[2] == -1);
            assert(cube_index_table()[29] == 19);
            assert(triangle_corner(9, 2)@[0] == -1);
            assert(triangle_corner(9, 2)@[1] == 1);
            assert(triangle_corner(9, 2)@[2] == 1);
            assert(triangle_winding(9) == winding(1, 1, 1, -1, 1, -1, -1, 1, 1));
            assert(winding(1, 1, 1, -1, 1, -1, -1, 1, 1) == 4) by (nonlinear_arith);
        } else if t == 10 {
            assert(cube_index_table()[30] == 20);
            assert(triangle_corner(10, 0)@[0] == 1);
            assert(triangle_corner(10, 0)@[1] == -1);
            assert(triangle_corner(10, 0)@[2] == 1);
            assert(cube_index_table()[31] == 21);
            assert(triangle_corner(10, 1)@[0] == -1);
            assert(triangle_corner(10, 1)@[1] == -1);
            assert(triangle_corner(10, 1)@[2] == 1);
            assert(cube_index_table()[32] == 22);
            assert(triangle_corner(10, 2)@[0] == -1);
            assert(triangle_corner(10, 2)@[1] == -1);
            assert(triangle_corner(10, 2)@[2] == -1);
            assert(triangle_winding(10) == winding(1, -1, 1, -1, -1, 1, -1, -1, -1));
            assert(winding(1, -1, 1, -1, -1, 1, -1, -1, -1) == 4) by (nonlinear_arith);
        } else if t == 11 {
            assert(cube_index_table()[33] == 22);
            assert(triangle_corner(11, 0)@[0] == -1);
            assert(triangle_corner(11, 0)@[1] == -1);
            assert(triangle_corner(11, 0)@[2] == -1);
            assert(cube_index_table()[34] == 23);
            assert(triangle_corner(11, 1)@[0] == 1);
            assert(triangle_corner(11, 1)@[1] == -1);
            assert(triangle_corner(11, 1)@[2] == -1);
            assert(cube_index_table()[35] == 20);
            assert(triangle_corner(11, 2)@[0] == 1);
            assert(triangle_corner(11, 2)@[1] == -1);
            assert(triangle_corner(11, 2)@[2] == 1);
            assert(triangle_winding(11) == winding(-1, -1, -1, 1, -1, -1, 1, -1, 1));
            assert(winding(-1, -1, -1, 1, -1, -1, 1, -1, 1) == 4) by (nonlinear_arith);
        }
    }
}

/// Whether some index of a triangle of the face that `corner` belongs to names
/// `corner`.
pub open spec fn used_by_own_face(corner: int) -> bool {
    exists|k: int| 0 <= k < 6 && #[trigger] cube_index_table()[6 * (corner / 4) + k] == corner
}

/// Cube covering law: every corner of the cube is used by a triangle of its own
/// face (the corners of the `f`-th face are `4 * f .. 4 * f + 4`, its triangles
/// the indices `6 * f .. 6 * f + 6`). So the two triangles of each face use all
/// four of its corners and cover the face whole, and they are different ones.
pub proof fn lemma_cube_faces_covered()
    ensures
        forall|corner: int| 0 <= corner < 24 ==> #[trigger] used_by_own_face(corner),
{
    assert forall|corner: int| 0 <= corner < 24 implies #[trigger] used_by_own_face(corner) by {
        if corner == 0 {
            assert(cube_index_table()[6 * (corner / 4) + 0] == corner);
        } else if corner == 1 {
            assert(cube_index_table()[6 * (corner / 4) + 1] == corner);
        } else if corner == 2 {
            assert(cube_index_table()[6 * (corner / 4) + 2] == corner);
        } else if corner == 3 {
            assert(cube_index_table()[6 * (corner / 4) + 4] == corner);
        } else if corner == 4 {
            assert(cube_index_table()[6 * (corner / 4) + 0] == corner);
        } else if corner == 5 {
            assert(cube_index_table()[6 * (corner / 4) + 2] == corner);
        } else if corner == 6 {
            assert(cube_index_table()[6 * (corner / 4) + 1] == corner);
        } else if corner == 7 {
            assert(cube_index_table()[6 * (corner / 4) + 5] == corner);
        } else if corner == 8 {
            assert(cube_index_table()[6 * (corner / 4) + 0] == corner);
        } else if corner == 9 {
            assert(cube_index_table()[6 * (corner / 4) + 1] == corner);
        } else if corner == 10 {
            assert(cube_index_table()[6 * (corner / 4) + 2] == corner);
        } else if corner == 11 {
            assert(cube_index_table()[6 * (corner / 4) + 4] == corner);
        } else if corner == 12 {
            assert(cube_index_table()[6 * (corner / 4) + 0] == corner);
        } else if corner == 13 {
            assert(cube_index_table()[6 * (corner / 4) + 2] == corner);
        } else if corner == 14 {
            assert(cube_index_table()[6 * (corner / 4) + 1] == corner);
        } else if corner == 15 {
            assert(cube_index_table()[6 * (corner / 4) + 5] == corner);
        } else if corner == 16 {
            assert(cube_index_table()[6 * (corner / 4) + 0] == corner);
        } else if corner == 17 {
            assert(cube_index_table()[6 * (corner / 4) + 2] == corner);
        } else if corner == 18 {
            assert(cube_index_table()[6 * (corner / 4) + 1] == corner);
        } else if corner == 19 {
            assert(cube_index_table()[6 * (corner / 4) + 5] == corner);
        } else if corner == 20 {
            assert(cube_index_table()[6 * (corner / 4) + 0] == corner);
        } else if corner == 21 {
            assert(cube_index_table()[6 * (corner / 4) + 1] == corner);
        } else if corner == 22 {
            assert(cube_index_table()[6 * (corner / 4) + 2] == corner);
        } else if corner == 23 {
            assert(cube_index_table()[6 * (corner / 4) + 4] == corner);
        }
    }
}

/// Cube layout law: the cube has 24 corners, four per face, and 36 indices, two
/// triangles per face. Every corner of a face lies on that face's side of the
/// cube; every index names a corner of the face its triangle belongs to; and the
/// three corners of each triangle are different ones.
pub proof fn lemma_cube_faces()
    ensures
        cube_corner_table().len() == 24,
        cube_index_table().len() == 36,
        forall|face: int, k: int|
            0 <= face < 6 && 0 <= k < 4 ==> #[trigger] cube_corner_table()[4 * face + k].offset@[face_axis(face)]
                == face_side(face),
        forall|t: int, k: int|
            0 <= t < 12 && 0 <= k < 3 ==> 4 * (t / 2) <= #[trigger] cube_index_table()[3 * t + k] < 4 * (t / 2) + 4,
        forall|t: int|
            0 <= t < 12 ==> #[trigger] cube_index_table()[3 * t] != cube_index_table()[3 * t + 1]
                && cube_index_table()[3 * t] != cube_index_table()[3 * t + 2]
                && cube_index_table()[3 * t + 1] != cube_index_table()[3 * t + 2],
{
}

} // verus!
