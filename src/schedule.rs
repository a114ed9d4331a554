use vstd::prelude::*;

verus! {

/// Points handled by one workgroup of the compute kernel.
pub const INVOCATIONS_PER_WORKGROUP: u32 = 64;

/// Largest number of workgroups in one dispatch call.
pub const MAX_WORKGROUPS_PER_DISPATCH: u32 = 65535;

/// Largest number of points that one dispatch call covers.
pub const FULL_POINT_CHUNK_LEN: u32 = INVOCATIONS_PER_WORKGROUP * MAX_WORKGROUPS_PER_DISPATCH;

pub open spec fn chunk() -> nat {
    FULL_POINT_CHUNK_LEN as nat
}

/// Number of full chunks in a buffer of `n` points.
pub open spec fn full_chunks(n: nat) -> nat {
    n / chunk()
}

/// Points left after the full chunks.
pub open spec fn remainder(n: nat) -> nat {
    n % chunk()
}

/// Number of dispatch calls per step: one per full chunk, and one for a nonempty remainder.
pub open spec fn dispatch_count(n: nat) -> nat {
    full_chunks(n) + if remainder(n) > 0 { 1nat } else { 0nat }
}

/// A configuration that the scheduler refuses.
#[derive(Debug, Clone, Copy, PartialEq, Eq, Structural)]
pub enum ScheduleError {
    /// The point buffer's size in bytes does not fit in 32 bits.
    BufferTooLarge,
}

/// Which of the two reusable views over the point buffer a dispatch binds.
#[derive(Debug, Clone, Copy, PartialEq, Eq, Structural)]
pub enum ChunkView {
    /// The view over one full chunk, moved by a dynamic offset.
    Full,
    /// The view over the points after the last full chunk.
    Rest,
}

/// A sub-range of the point buffer, in bytes.
#[derive(Debug, Clone, Copy, PartialEq, Eq, Structural)]
pub struct Region {
    pub offset: u64,
    pub size: u64,
}

/// One compute dispatch: the view it binds, the dynamic byte offset of that
/// view, the number of points it covers and the width of its grid.
#[derive(Debug, Clone, Copy, PartialEq, Eq, Structural)]
pub struct Dispatch {
    pub view: ChunkView,
    pub dynamic_offset: u32,
    pub n_points: u32,
    pub workgroups: u32,
}

/// The region of the buffer that `view` covers before its dynamic offset,
/// for `n` points of `ps` bytes each.
pub open spec fn view_region(n: nat, ps: nat, view: ChunkView) -> Region {
    match view {
        ChunkView::Full => Region { offset: 0, size: (chunk() * ps) as u64 },
        ChunkView::Rest => Region {
            offset: (full_chunks(n) * chunk() * ps) as u64,
            size: (remainder(n) * ps) as u64,
        },
    }
}

/// The `k`-th dispatch of a step over `n` points of `ps` bytes each.
pub open spec fn dispatch_at(n: nat, ps: nat, k: nat) -> Dispatch {
    if k < full_chunks(n) {
        Dispatch {
            view: ChunkView::Full,
            dynamic_offset: (k * chunk() * ps) as u32,
            n_points: FULL_POINT_CHUNK_LEN,
            workgroups: MAX_WORKGROUPS_PER_DISPATCH,
        }
    } else {
        Dispatch {
            view: ChunkView::Rest,
            dynamic_offset: 0,
            n_points: remainder(n) as u32,
            workgroups: (remainder(n) / (INVOCATIONS_PER_WORKGROUP as nat)) as u32,
        }
    }
}

/// The bytes `[start, end)` that dispatch `d` binds.
pub open spec fn byte_range(n: nat, ps: nat, d: Dispatch) -> (int, int) {
    let region = view_region(n, ps, d.view);
    (region.offset + d.dynamic_offset, region.offset + d.dynamic_offset + region.size)
}

/// Whether `n` points of `ps` bytes each can be addressed with 32 bits: the
/// count and the size in bytes both fit.
pub open spec fn fits_u32(n: nat, ps: nat) -> bool {
    n <= u32::MAX as nat && n * ps <= u32::MAX as nat
}

/// How a buffer of points is split into dispatch calls.
#[derive(Debug, Clone, Copy)]
pub struct ChunkPlan {
    n_points: u32,
    point_size: usize,
    n_full_dispatches: u32,
    n_rest_points: u32,
}

impl View for ChunkPlan {
    /// The number of points and the size of one point in bytes.
    type V = (nat, nat);

    closed spec fn view(&self) -> (nat, nat) {
        (self.n_points as nat, self.point_size as nat)
    }
}

proof fn lemma_split(n: nat)
    ensures
        full_chunks(n) * chunk() + remainder(n) == n,
        remainder(n) < chunk(),
{
    vstd::arithmetic::div_mod::lemma_fundamental_div_mod(n as int, chunk() as int);
}

proof fn lemma_full_chunks_fit(n: nat, ps: nat, k: nat)
    requires
        k <= full_chunks(n),
    ensures
        k * chunk() <= n,
        k * chunk() * ps <= n * ps,
{
    assert(full_chunks(n) * chunk() <= n) by (nonlinear_arith)
        requires
            chunk() > 0,
            full_chunks(n) == n / chunk(),
    ;
    assert(k * chunk() <= full_chunks(n) * chunk()) by (nonlinear_arith)
        requires
            k <= full_chunks(n),
    ;
    assert(k * chunk() * ps <= n * ps) by (nonlinear_arith)
        requires
            k * chunk() <= n,
    ;
}

impl ChunkPlan {
    /// Whether the fields agree with the view and the buffer fits in 32-bit addressing.
    pub closed spec fn wf(&self) -> bool {
        &&& fits_u32(self.n_points as nat, self.point_size as nat)
        &&& self.n_full_dispatches as nat == full_chunks(self.n_points as nat)
        &&& self.n_rest_points as nat == remainder(self.n_points as nat)
    }

    /// Plans the dispatches for `n_points` points of `point_size` bytes each;
    /// refuses a point count or a buffer size in bytes that does not fit in 32 bits.
    pub fn new(n_points: usize, point_size: usize) -> (r: Result<ChunkPlan, ScheduleError>)
        ensures
            fits_u32(n_points as nat, point_size as nat) ==> (r matches Ok(plan) && plan.wf()
                && plan@ == (n_points as nat, point_size as nat)),
            !fits_u32(n_points as nat, point_size as nat) ==> r == Err::<ChunkPlan, ScheduleError>(
                ScheduleError::BufferTooLarge,
            ),
    {
        if n_points > u32::MAX as usize {
            return Err(ScheduleError::BufferTooLarge);
        }
        let n = n_points as u32;
        if point_size > u32::MAX as usize && n > 0 {
            proof {
                assert(n_points as nat * point_size as nat > u32::MAX as nat) by (nonlinear_arith)
                    requires
                        point_size > u32::MAX,
                        n_points >= 1,
                ;
            }
            return Err(ScheduleError::BufferTooLarge);
        }
        if n > 0 {
            assert(n as nat * point_size as nat <= u64::MAX as nat) by (nonlinear_arith)
                requires
                    n <= u32::MAX,
                    point_size <= u32::MAX,
            ;
            let bytes: u64 = n as u64 * point_size as u64;
            if bytes > u32::MAX as u64 {
                return Err(ScheduleError::BufferTooLarge);
            }
        } else {
            assert(n_points as nat * point_size as nat == 0) by (nonlinear_arith)
                requires
                    n_points == 0,
            ;
        }
        Ok(
            ChunkPlan {
                n_points: n,
                point_size,
                n_full_dispatches: n / FULL_POINT_CHUNK_LEN,
                n_rest_points: n % FULL_POINT_CHUNK_LEN,
            },
        )
    }

    /// Number of dispatches over the full-chunk view in each step.
    pub fn n_full_dispatches(&self) -> (r: u32)
        requires
            self.wf(),
        ensures
            r as nat == full_chunks(self@.0),
    {
        self.n_full_dispatches
    }

    /// Number of points covered by the remainder view.
    pub fn n_rest_points(&self) -> (r: u32)
        requires
            self.wf(),
        ensures
            r as nat == remainder(self@.0),
    {
        self.n_rest_points
    }

    /// The reusable view over one full chunk, present when there is a full chunk.
    pub fn full_chunk_view(&self) -> (r: Option<Region>)
        requires
            self.wf(),
        ensures
            full_chunks(self@.0) > 0 ==> r == Some(view_region(self@.0, self@.1, ChunkView::Full)),
            full_chunks(self@.0) == 0 ==> r.is_none(),
    {
        if self.n_full_dispatches == 0 {
            return None;
        }
        proof {
            lemma_full_chunks_fit(self@.0, self@.1, 1);
        }
        Some(Region { offset: 0, size: FULL_POINT_CHUNK_LEN as u64 * self.point_size as u64 })
    }

    /// The reusable view over the points after the last full chunk, present when there are any.
    pub fn rest_chunk_view(&self) -> (r: Option<Region>)
        requires
            self.wf(),
        ensures
            remainder(self@.0) > 0 ==> r == Some(view_region(self@.0, self@.1, ChunkView::Rest)),
            remainder(self@.0) == 0 ==> r.is_none(),
    {
        if self.n_rest_points == 0 {
            return None;
        }
        let ghost n = self.n_points as nat;
        let ghost ps = self.point_size as nat;
        proof {
            lemma_full_chunks_fit(n, ps, full_chunks(n));
            lemma_split(n);
            assert(remainder(n) * ps <= n * ps) by (nonlinear_arith)
                requires
                    remainder(n) <= n,
            ;
        }
        let full: u64 = self.n_full_dispatches as u64 * FULL_POINT_CHUNK_LEN as u64;
        Some(
            Region {
                offset: full * self.point_size as u64,
                size: self.n_rest_points as u64 * self.point_size as u64,
            },
        )
    }

    /// The dispatch calls of one step, in order: one per full chunk, then one
    /// for the remainder if there is any.
    pub fn dispatches(&self) -> (r: Vec<Dispatch>)
        requires
            self.wf(),
        ensures
            r@.len() == dispatch_count(self@.0),
            forall|k: int| 0 <= k < r@.len() ==> r@[k] == dispatch_at(self@.0, self@.1, k as nat),
    {
        let ghost n = self.n_points as nat;
        let ghost ps = self.point_size as nat;
        let mut r: Vec<Dispatch> = Vec::new();
        let mut i: u32 = 0;
        while i < self.n_full_dispatches
            invariant
                self.wf(),
                n == self.n_points,
                ps == self.point_size,
                i <= self.n_full_dispatches,
                r@.len() == i,
                forall|k: int| 0 <= k < i ==> r@[k] == dispatch_at(n, ps, k as nat),
            decreases self.n_full_dispatches - i,
        {
            proof {
                lemma_full_chunks_fit(n, ps, i as nat);
            }
            let first: u64 = i as u64 * FULL_POINT_CHUNK_LEN as u64;
            let offset: u64 = first * self.point_size as u64;
            r.push(
                Dispatch {
                    view: ChunkView::Full,
                    dynamic_offset: offset as u32,
                    n_points: FULL_POINT_CHUNK_LEN,
                    workgroups: FULL_POINT_CHUNK_LEN / INVOCATIONS_PER_WORKGROUP,
                },
            );
            i = i + 1;
        }
        if self.n_rest_points > 0 {
            r.push(
                Dispatch {
                    view: ChunkView::Rest,
                    dynamic_offset: 0,
                    n_points: self.n_rest_points,
                    workgroups: self.n_rest_points / INVOCATIONS_PER_WORKGROUP,
                },
            );
        }
        r
    }
}

/// Points covered by the `k`-th dispatch of a step over `n` points.
pub open spec fn chunk_len(n: nat, k: nat) -> nat {
    if k < full_chunks(n) {
        chunk()
    } else {
        remainder(n)
    }
}

/// Whether byte `b` of the buffer lies in the range of some dispatch of a step.
pub open spec fn byte_dispatched(n: nat, ps: nat, b: int) -> bool {
    exists|k: nat|
        k < dispatch_count(n) && (#[trigger] byte_range(n, ps, dispatch_at(n, ps, k))).0 <= b
            < byte_range(n, ps, dispatch_at(n, ps, k)).1
}

proof fn lemma_range_at(n: nat, ps: nat, k: nat)
    requires
        fits_u32(n, ps),
        k < dispatch_count(n),
    ensures
        k * chunk() + chunk_len(n, k) <= n,
        byte_range(n, ps, dispatch_at(n, ps, k)).0 == k * chunk() * ps,
        byte_range(n, ps, dispatch_at(n, ps, k)).1 == k * chunk() * ps + chunk_len(n, k) * ps,
{
    lemma_split(n);
    if k < full_chunks(n) {
        lemma_full_chunks_fit(n, ps, k + 1);
        assert((k + 1) * chunk() == k * chunk() + chunk()) by (nonlinear_arith);
        assert(k * chunk() * ps <= (k + 1) * chunk() * ps) by (nonlinear_arith);
        assert(chunk() * ps <= (k + 1) * chunk() * ps) by (nonlinear_arith);
    } else {
        lemma_full_chunks_fit(n, ps, k);
        assert(chunk_len(n, k) * ps <= n * ps) by (nonlinear_arith)
            requires
                chunk_len(n, k) <= n,
        ;
    }
}

/// Every point is covered once: the full chunks and the remainder add up to
/// the buffer, the remainder is shorter than a chunk, and a step makes one
/// dispatch call per full chunk plus one for a nonempty remainder.
pub proof fn lemma_chunk_coverage(n: nat)
    ensures
        full_chunks(n) * chunk() + remainder(n) == n,
        0 <= remainder(n) < chunk(),
        dispatch_count(n) == full_chunks(n) + if remainder(n) > 0 { 1nat } else { 0nat },
{
    lemma_split(n);
}

/// The byte ranges of the dispatches of one step lie inside the buffer of
/// `n * ps` bytes, follow one another without overlap, and together cover
/// every byte of it.
pub proof fn lemma_dispatches_partition(n: nat, ps: nat)
    requires
        fits_u32(n, ps),
    ensures
        forall|k: nat|
            k < dispatch_count(n) ==> {
                let range = #[trigger] byte_range(n, ps, dispatch_at(n, ps, k));
                0 <= range.0 <= range.1 <= n * ps
            },
        forall|k1: nat, k2: nat|
            k1 < k2 < dispatch_count(n) ==> (#[trigger] byte_range(n, ps, dispatch_at(n, ps, k1))).1
                <= (#[trigger] byte_range(n, ps, dispatch_at(n, ps, k2))).0,
        forall|b: int| 0 <= b < n * ps ==> #[trigger] byte_dispatched(n, ps, b),
{
    lemma_split(n);
    let c = chunk();
    assert forall|k: nat| k < dispatch_count(n) implies {
        let range = #[trigger] byte_range(n, ps, dispatch_at(n, ps, k));
        0 <= range.0 <= range.1 <= n * ps
    } by {
        lemma_range_at(n, ps, k);
        assert(k * c * ps >= 0) by (nonlinear_arith);
        assert(chunk_len(n, k) * ps >= 0) by (nonlinear_arith);
        assert(k * c * ps + chunk_len(n, k) * ps <= n * ps) by (nonlinear_arith)
            requires
                k * c + chunk_len(n, k) <= n,
        ;
    }
    assert forall|k1: nat, k2: nat| k1 < k2 < dispatch_count(n) implies (#[trigger] byte_range(
        n,
        ps,
        dispatch_at(n, ps, k1),
    )).1 <= (#[trigger] byte_range(n, ps, dispatch_at(n, ps, k2))).0 by {
        lemma_range_at(n, ps, k1);
        lemma_range_at(n, ps, k2);
        assert(chunk_len(n, k1) == c);
        assert(k1 * c * ps + c * ps <= k2 * c * ps) by (nonlinear_arith)
            requires
                k1 < k2,
        ;
    }
    assert forall|b: int| 0 <= b < n * ps implies #[trigger] byte_dispatched(n, ps, b) by {
        assert(ps > 0) by (nonlinear_arith)
            requires
                0 <= b < n * ps,
        ;
        let p = b / (ps as int);
        vstd::arithmetic::div_mod::lemma_fundamental_div_mod(b, ps as int);
        assert(p * ps <= b < p * ps + ps);
        assert(p < n) by (nonlinear_arith)
            requires
                p * ps <= b < n * ps,
                ps > 0,
        ;
        assert(p >= 0) by (nonlinear_arith)
            requires
                p * ps <= b,
                b < p * ps + ps,
                b >= 0,
                ps > 0,
        ;
        let k: nat = (p / (c as int)) as nat;
        vstd::arithmetic::div_mod::lemma_fundamental_div_mod(p, c as int);
        assert(k * c <= p < k * c + c);
        assert(k <= full_chunks(n)) by (nonlinear_arith)
            requires
                k * c <= p < n,
                full_chunks(n) * c + remainder(n) == n,
                remainder(n) < c,
        ;
        if k == full_chunks(n) {
            assert(remainder(n) > 0);
        }
        assert(k < dispatch_count(n));
        lemma_range_at(n, ps, k);
        assert(p < k * c + chunk_len(n, k));
        assert(k * c * ps <= b < k * c * ps + chunk_len(n, k) * ps) by (nonlinear_arith)
            requires
                k * c <= p < k * c + chunk_len(n, k),
                p * ps <= b < p * ps + ps,
                ps > 0,
        ;
    }
}

} // verus!
