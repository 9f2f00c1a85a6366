//! What the pipeline asks of the compute device: the buffers to allocate and
//! the binding layouts to build, as plain descriptions.
//!
//! The pipeline decides sizes, usages and binding slots; whoever owns the
//! device turns each description into the device's own object.

use crate::frame::FrameData;
use vstd::prelude::*;

verus! {

/// How a buffer may be used.
#[derive(Debug, Clone, Copy, PartialEq, Eq, Structural)]
pub struct BufferUsage {
    /// Bound to shaders as storage.
    pub storage: bool,
    /// Source of buffer-to-buffer copies.
    pub copy_src: bool,
    /// Destination of buffer-to-buffer copies.
    pub copy_dst: bool,
    /// Mapped for reading by the host.
    pub map_read: bool,
}

/// The part a buffer plays.
#[derive(Debug, Clone, Copy, PartialEq, Eq, Structural)]
pub enum BufferKind {
    /// The shared frame buffer read by every shader.
    FrameData,
    /// A shader's result buffer, written on the device.
    Storage,
    /// A shader's read-back buffer.
    Staging,
    /// A shader's LED positions.
    Positions,
    /// The resident buffer of an auxiliary.
    Auxiliary,
    /// Zeros copied over a result buffer before a shader runs.
    Zeros,
    /// Data on its way to a resident buffer.
    Upload,
}

/// A buffer to allocate.
#[derive(Debug, Clone, Copy, PartialEq, Eq, Structural)]
pub struct BufferRequest {
    pub kind: BufferKind,
    /// Size in bytes.
    pub size: u64,
    pub usage: BufferUsage,
}

/// One slot of a bind-group layout: a storage buffer at `binding`.
#[derive(Debug, Clone, Copy, PartialEq, Eq, Structural)]
pub struct BindingLayout {
    pub binding: u32,
    pub read_only: bool,
    /// The least size a bound buffer must have, where one is demanded.
    pub min_binding_size: Option<u64>,
}

/// Size in bytes of the results of `num_leds` LEDs: three scalars each.
pub open spec fn spec_result_size(num_leds: u32) -> u64 {
    (3 * num_leds * 4) as u64
}

/// Size in bytes of the positions of `num_leds` LEDs: three scalars each.
pub open spec fn spec_positions_size(num_leds: u32) -> u64 {
    (3 * num_leds * 4) as u64
}

/// Number of workgroups that cover `num_leds` LEDs with
/// `leds_per_compute_group` LEDs each: the quotient rounded up. With groups
/// of no LEDs, nothing is dispatched for no LEDs and the largest count
/// otherwise.
pub open spec fn spec_work_group_count(num_leds: u32, leds_per_compute_group: u32) -> u32 {
    if leds_per_compute_group == 0 {
        if num_leds == 0 {
            0
        } else {
            u32::MAX
        }
    } else {
        ((num_leds + leds_per_compute_group - 1) / (leds_per_compute_group as int)) as u32
    }
}

/// The size as a least binding size: demanded only where it is not zero.
pub open spec fn spec_min_binding(size: u64) -> Option<u64> {
    if size == 0 {
        None
    } else {
        Some(size)
    }
}

/// Usage of a result buffer: storage, copied from and into.
pub open spec fn storage_usage() -> BufferUsage {
    BufferUsage { storage: true, copy_src: true, copy_dst: true, map_read: false }
}

/// Usage of a read-back buffer: copied into and mapped for reading.
pub open spec fn staging_usage() -> BufferUsage {
    BufferUsage { storage: false, copy_src: false, copy_dst: true, map_read: true }
}

/// Usage of a resident input buffer: storage, copied into.
pub open spec fn dest_usage() -> BufferUsage {
    BufferUsage { storage: true, copy_src: false, copy_dst: true, map_read: false }
}

/// Usage of a buffer created with its contents: storage, copied from.
pub open spec fn src_usage() -> BufferUsage {
    BufferUsage { storage: true, copy_src: true, copy_dst: false, map_read: false }
}

/// Size in bytes of the results of `num_leds` LEDs.
pub fn result_size(num_leds: u32) -> (size: u64)
    ensures
        size == spec_result_size(num_leds),
{
    3 * (num_leds as u64) * 4
}

/// Size in bytes of the positions of `num_leds` LEDs.
pub fn positions_size(num_leds: u32) -> (size: u64)
    ensures
        size == spec_positions_size(num_leds),
{
    3 * (num_leds as u64) * 4
}

/// Number of workgroups to dispatch for `num_leds` LEDs.
pub fn work_group_count(num_leds: u32, leds_per_compute_group: u32) -> (count: u32)
    ensures
        count == spec_work_group_count(num_leds, leds_per_compute_group),
        leds_per_compute_group > 0 ==> count as int * leds_per_compute_group >= num_leds
            && (count as int - 1) * leds_per_compute_group < num_leds,
        num_leds == 0 ==> count == 0,
{
    if leds_per_compute_group == 0 {
        if num_leds == 0 {
            0
        } else {
            u32::MAX
        }
    } else {
        let total: u64 = (num_leds as u64) + (leds_per_compute_group as u64) - 1;
        let count: u64 = total / (leds_per_compute_group as u64);
        proof {
            lemma_rounded_up_quotient(num_leds as int, leds_per_compute_group as int);
        }
        count as u32
    }
}

/// The quotient of `n` by `d` rounded up is the least count of groups of `d`
/// that covers `n`, and is no larger than `n`.
pub proof fn lemma_rounded_up_quotient(n: int, d: int)
    requires
        0 <= n,
        0 < d,
    ensures
        ((n + d - 1) / d) * d >= n,
        ((n + d - 1) / d - 1) * d < n,
        0 <= (n + d - 1) / d <= n,
        n == 0 ==> (n + d - 1) / d == 0,
{
    let q = (n + d - 1) / d;
    let r = (n + d - 1) % d;
    assert(n + d - 1 == d * q + r && 0 <= r < d) by {
        vstd::arithmetic::div_mod::lemma_fundamental_div_mod(n + d - 1, d);
        vstd::arithmetic::div_mod::lemma_mod_bound(n + d - 1, d);
    }
    assert(q * d == d * q) by (nonlinear_arith);
    assert((q - 1) * d == d * q - d) by (nonlinear_arith);
    assert(q >= 0) by (nonlinear_arith)
        requires
            n + d - 1 == d * q + r,
            0 <= r < d,
            n >= 0,
            d > 0,
    ;
    assert(q <= n) by (nonlinear_arith)
        requires
            n + d - 1 == d * q + r,
            0 <= r < d,
            n >= 0,
            d > 0,
            q >= 0,
    ;
    if n == 0 {
        assert(q == 0) by (nonlinear_arith)
            requires
                d - 1 == d * q + r,
                0 <= r < d,
                d > 0,
                q >= 0,
        ;
    }
}

/// The least binding size for a buffer of `size` bytes.
pub fn min_binding(size: u64) -> (min: Option<u64>)
    ensures
        min == spec_min_binding(size),
{
    if size == 0 {
        None
    } else {
        Some(size)
    }
}

/// The read-back buffer of a shader with results of `result_size` bytes.
pub fn create_staging_buffer(result_size: u64) -> (request: BufferRequest)
    ensures
        request == (BufferRequest {
            kind: BufferKind::Staging,
            size: result_size,
            usage: staging_usage(),
        }),
{
    BufferRequest {
        kind: BufferKind::Staging,
        size: result_size,
        usage: BufferUsage { storage: false, copy_src: false, copy_dst: true, map_read: true },
    }
}

/// The result buffer of a shader with results of `result_size` bytes.
pub fn create_storage_buffer(result_size: u64) -> (request: BufferRequest)
    ensures
        request == (BufferRequest {
            kind: BufferKind::Storage,
            size: result_size,
            usage: storage_usage(),
        }),
{
    BufferRequest {
        kind: BufferKind::Storage,
        size: result_size,
        usage: BufferUsage { storage: true, copy_src: true, copy_dst: true, map_read: false },
    }
}

/// The resident positions buffer of a shader over `num_leds` LEDs.
pub fn create_positions_buffer_dest(num_leds: u32) -> (request: BufferRequest)
    ensures
        request == (BufferRequest {
            kind: BufferKind::Positions,
            size: spec_positions_size(num_leds),
            usage: dest_usage(),
        }),
{
    BufferRequest {
        kind: BufferKind::Positions,
        size: positions_size(num_leds),
        usage: BufferUsage { storage: true, copy_src: false, copy_dst: true, map_read: false },
    }
}

/// The shared frame buffer: one scalar per field of a frame.
pub fn create_frame_data_buffer_dest() -> (request: BufferRequest)
    ensures
        request == (BufferRequest {
            kind: BufferKind::FrameData,
            size: (FrameData::spec_num_fields() * 4) as u64,
            usage: dest_usage(),
        }),
{
    BufferRequest {
        kind: BufferKind::FrameData,
        size: (FrameData::num_fields() as u64) * 4,
        usage: BufferUsage { storage: true, copy_src: false, copy_dst: true, map_read: false },
    }
}

/// The resident buffer of an auxiliary of `size` bytes.
pub fn create_auxiliary_data_buffer_dest(size: u64) -> (request: BufferRequest)
    ensures
        request == (BufferRequest { kind: BufferKind::Auxiliary, size, usage: dest_usage() }),
{
    BufferRequest {
        kind: BufferKind::Auxiliary,
        size,
        usage: BufferUsage { storage: true, copy_src: false, copy_dst: true, map_read: false },
    }
}

/// The zeros copied over the results of `num_leds` LEDs before a shader
/// runs: as large as the results.
pub fn create_zeros_buffer(num_leds: u32) -> (request: BufferRequest)
    ensures
        request == (BufferRequest {
            kind: BufferKind::Zeros,
            size: spec_result_size(num_leds),
            usage: storage_usage(),
        }),
{
    BufferRequest {
        kind: BufferKind::Zeros,
        size: result_size(num_leds),
        usage: BufferUsage { storage: true, copy_src: true, copy_dst: true, map_read: false },
    }
}

/// A buffer created with `len` bytes of contents, to be copied from.
pub fn create_upload_buffer(len: usize) -> (request: BufferRequest)
    ensures
        request == (BufferRequest { kind: BufferKind::Upload, size: len as u64, usage: src_usage() }),
{
    BufferRequest {
        kind: BufferKind::Upload,
        size: len as u64,
        usage: BufferUsage { storage: true, copy_src: true, copy_dst: false, map_read: false },
    }
}

} // verus!
