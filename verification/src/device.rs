use vstd::prelude::*;
use vstd::pervasive::VecAdditionalExecFns;

use crate::renderpass::RenderPassInfo;

verus! {

/// The error code the model reports when it can issue no further object
/// handles; the graphics API's code for exhausted host memory.
pub const ERROR_OUT_OF_HOST_MEMORY: i32 = -1;

/// One raw call issued across the device boundary, with its arguments.
///
/// The device keeps a log of every call, so that a contract can say
/// precisely which calls an operation performs -- including that it
/// performs none.
#[derive(Debug, Clone, Copy, PartialEq, Eq, Structural)]
pub enum DeviceCall {
    CreateCommandPool { queue_family_index: u32 },
    AllocateCommandBuffers { pool: u64, count: u32 },
    CreateFence { signaled: bool },
    CreateRenderPass { info: RenderPassInfo },
    CreateFramebuffer { render_pass: u64, width: u32, height: u32 },
    CreateBuffer { size: u64 },
    AllocateMemory { size: u64, memory_type: u32 },
    BeginCommandBuffer { buffer: u64 },
    EndCommandBuffer { buffer: u64 },
    BeginRenderPass { buffer: u64, render_pass: u64, framebuffer: u64, width: u32, height: u32 },
    EndRenderPass { buffer: u64 },
    CopyBuffer { buffer: u64, src: u64, size: u64 },
    ResetFence { fence: u64 },
    QueueSubmit { buffer: u64, fence: u64 },
    WaitForFence { fence: u64 },
    DestroyFence { fence: u64 },
    FreeCommandBuffers { pool: u64, primary: u64, staging: u64 },
    DestroyCommandPool { pool: u64 },
    DestroyRenderPass { render_pass: u64 },
    DestroyFramebuffer { framebuffer: u64 },
    DestroyBuffer { buffer: u64 },
    FreeMemory { memory: u64 },
}

/// The state of one fence: signaled means the CPU may pass a wait without
/// blocking; pending means a submission will signal it when the GPU
/// retires that work.
#[derive(Debug, Clone, Copy, PartialEq, Eq, Structural)]
pub struct FenceState {
    pub handle: u64,
    pub signaled: bool,
    pub pending: bool,
}

/// The recording state of one command buffer.
#[derive(Debug, Clone, Copy, PartialEq, Eq, Structural)]
pub struct CommandBufferState {
    pub handle: u64,
    pub recording: bool,
    pub pass_open: bool,
}

pub open spec fn seq_has_fence(s: Seq<FenceState>, h: u64) -> bool {
    exists|i: int| 0 <= i < s.len() && s[i].handle == h
}

pub open spec fn seq_fence_idx(s: Seq<FenceState>, h: u64) -> int {
    choose|i: int| 0 <= i < s.len() && s[i].handle == h
}

pub open spec fn seq_has_buffer(s: Seq<CommandBufferState>, h: u64) -> bool {
    exists|i: int| 0 <= i < s.len() && s[i].handle == h
}

pub open spec fn seq_buffer_idx(s: Seq<CommandBufferState>, h: u64) -> int {
    choose|i: int| 0 <= i < s.len() && s[i].handle == h
}

/// The device at its interface boundary, as the renderer sees it: an
/// already-validated logical device with its queue, enabled extensions,
/// reported limits and supported formats.
///
/// The model issues fresh nonzero handles, tracks fence and
/// command-buffer state, and logs every call. Validity rules of the
/// graphics API -- what must hold before a call may be made -- appear as
/// preconditions, so verified callers are shown to respect them. A fault
/// can be injected to exercise the error path of any fallible call.
#[derive(Debug)]
pub struct Device {
    enabled_extensions: Vec<String>,
    max_allocations: u64,
    queue_family_index: u32,
    supported_formats: Vec<u32>,
    host_visible_memory_type: u32,
    next_handle: u64,
    calls: Vec<DeviceCall>,
    fences: Vec<FenceState>,
    buffers: Vec<CommandBufferState>,
    fail_next: Option<i32>,
}

impl Device {
    pub closed spec fn extensions_spec(self) -> Seq<Seq<char>> {
        crate::instance::name_views(self.enabled_extensions@)
    }

    pub closed spec fn max_allocations_spec(self) -> u64 {
        self.max_allocations
    }

    pub closed spec fn queue_family_spec(self) -> u32 {
        self.queue_family_index
    }

    pub closed spec fn formats_spec(self) -> Seq<u32> {
        self.supported_formats@
    }

    /// The index of the memory type that is host-visible and
    /// host-coherent, from the device's reported memory properties.
    pub closed spec fn host_memory_spec(self) -> u32 {
        self.host_visible_memory_type
    }

    /// Every handle issued so far is nonzero and below this bound.
    pub closed spec fn next_spec(self) -> u64 {
        self.next_handle
    }

    /// The log of calls made so far, oldest first.
    pub closed spec fn calls_spec(self) -> Seq<DeviceCall> {
        self.calls@
    }

    pub closed spec fn fences_spec(self) -> Seq<FenceState> {
        self.fences@
    }

    pub closed spec fn buffers_spec(self) -> Seq<CommandBufferState> {
        self.buffers@
    }

    /// The injected fault the next fallible call will report, if any.
    pub closed spec fn fail_spec(self) -> Option<i32> {
        self.fail_next
    }

    pub open spec fn has_fence(self, h: u64) -> bool {
        seq_has_fence(self.fences_spec(), h)
    }

    pub open spec fn fence_signaled(self, h: u64) -> bool {
        self.fences_spec()[seq_fence_idx(self.fences_spec(), h)].signaled
    }

    pub open spec fn fence_pending(self, h: u64) -> bool {
        self.fences_spec()[seq_fence_idx(self.fences_spec(), h)].pending
    }

    pub open spec fn has_buffer(self, h: u64) -> bool {
        seq_has_buffer(self.buffers_spec(), h)
    }

    pub open spec fn buffer_recording(self, h: u64) -> bool {
        self.buffers_spec()[seq_buffer_idx(self.buffers_spec(), h)].recording
    }

    pub open spec fn buffer_pass_open(self, h: u64) -> bool {
        self.buffers_spec()[seq_buffer_idx(self.buffers_spec(), h)].pass_open
    }

    /// Whether `k` more handles can be issued without exhausting the
    /// handle space.
    pub open spec fn can_issue(self, k: u64) -> bool {
        self.next_spec() <= u64::MAX - k
    }

    pub closed spec fn wf(self) -> bool {
        &&& 1 <= self.next_handle
        &&& forall|i: int| 0 <= i < self.fences@.len() ==> {
            &&& 1 <= #[trigger] self.fences@[i].handle
            &&& self.fences@[i].handle < self.next_handle
        }
        &&& forall|i: int, j: int|
            0 <= i < self.fences@.len() && 0 <= j < self.fences@.len() && i != j
                ==> self.fences@[i].handle != self.fences@[j].handle
        &&& forall|i: int| 0 <= i < self.buffers@.len() ==> {
            &&& 1 <= #[trigger] self.buffers@[i].handle
            &&& self.buffers@[i].handle < self.next_handle
        }
        &&& forall|i: int, j: int|
            0 <= i < self.buffers@.len() && 0 <= j < self.buffers@.len() && i != j
                ==> self.buffers@[i].handle != self.buffers@[j].handle
    }

    /// A device with the given enabled extensions, reported allocation
    /// ceiling, queue family and supported formats; no calls made yet.
    pub fn new(
        enabled_extensions: Vec<String>,
        max_allocations: u64,
        queue_family_index: u32,
        supported_formats: Vec<u32>,
        host_visible_memory_type: u32,
    ) -> (d: Device)
        ensures
            d.wf(),
            d.extensions_spec() == crate::instance::name_views(enabled_extensions@),
            d.max_allocations_spec() == max_allocations,
            d.queue_family_spec() == queue_family_index,
            d.formats_spec() == supported_formats@,
            d.host_memory_spec() == host_visible_memory_type,
            d.calls_spec() == Seq::<DeviceCall>::empty(),
            d.fences_spec() == Seq::<FenceState>::empty(),
            d.buffers_spec() == Seq::<CommandBufferState>::empty(),
            d.next_spec() == 1u64,
            d.fail_spec() is None,
    {
        Device {
            enabled_extensions,
            max_allocations,
            queue_family_index,
            supported_formats,
            host_visible_memory_type,
            next_handle: 1,
            calls: Vec::new(),
            fences: Vec::new(),
            buffers: Vec::new(),
            fail_next: None,
        }
    }

    /// Makes the next fallible call report the given error code instead
    /// of taking effect.
    pub fn inject_failure(&mut self, code: i32)
        ensures
            final(self).fail_spec() == Some(code),
            same_config(*old(self), *final(self)),
            same_objects(*old(self), *final(self)),
            final(self).calls_spec() == old(self).calls_spec(),
            old(self).wf() ==> final(self).wf(),
    {
        self.fail_next = Some(code);
    }

    /// Whether the device was created with the named extension enabled.
    pub fn is_extension_enabled(&self, name: &String) -> (r: bool)
        ensures
            r == self.extensions_spec().contains(name@),
    {
        crate::instance::contains_entry(&self.enabled_extensions, name)
    }

    /// The reported maximum number of simultaneous device-memory
    /// allocations.
    pub fn max_memory_allocation_count(&self) -> (r: u64)
        ensures
            r == self.max_allocations_spec(),
    {
        self.max_allocations
    }

    /// The queue family the renderer submits on.
    pub fn queue_family_index(&self) -> (r: u32)
        ensures
            r == self.queue_family_spec(),
    {
        self.queue_family_index
    }

    /// The host-visible, host-coherent memory type staging buffers are
    /// allocated from.
    pub fn host_visible_memory_type(&self) -> (r: u32)
        ensures
            r == self.host_memory_spec(),
    {
        self.host_visible_memory_type
    }

    /// Whether the device supports rendering to the given pixel format.
    pub fn supports_format(&self, format: u32) -> (r: bool)
        ensures
            r == self.formats_spec().contains(format),
    {
        let n: usize = self.supported_formats.len();
        let mut i: usize = 0;
        while i < n
            invariant
                n == self.supported_formats@.len(),
                0 <= i <= n,
                forall|j: int| 0 <= j < i ==> self.supported_formats@[j] != format,
            decreases n - i,
        {
            if self.supported_formats[i] == format {
                return true;
            }
            i = i + 1;
        }
        false
    }

    /// The call log, for callers that audit what was issued.
    pub fn calls(&self) -> (r: &Vec<DeviceCall>)
        ensures
            r@ == self.calls_spec(),
    {
        &self.calls
    }

    /// How many calls were made so far.
    pub fn call_count(&self) -> (r: usize)
        ensures
            r == self.calls_spec().len(),
    {
        self.calls.len()
    }

    /// The signaled and pending state of a fence, if the handle names
    /// one.
    pub fn fence_state(&self, fence: u64) -> (r: Option<(bool, bool)>)
        requires
            self.wf(),
        ensures
            r is Some <==> self.has_fence(fence),
            r matches Some(sp) ==> sp.0 == self.fence_signaled(fence) && sp.1
                == self.fence_pending(fence),
    {
        let n: usize = self.fences.len();
        let mut i: usize = 0;
        while i < n
            invariant
                self.wf(),
                n == self.fences@.len(),
                0 <= i <= n,
                forall|j: int| 0 <= j < i ==> self.fences@[j].handle != fence,
            decreases n - i,
        {
            if self.fences[i].handle == fence {
                proof {
                    lemma_fence_lookup(self.fences@, fence, i as int);
                }
                return Some((self.fences[i].signaled, self.fences[i].pending));
            }
            i = i + 1;
        }
        None
    }

    fn find_fence(&self, fence: u64) -> (r: usize)
        requires
            self.wf(),
            self.has_fence(fence),
        ensures
            r < self.fences_spec().len(),
            self.fences_spec()[r as int].handle == fence,
            r as int == seq_fence_idx(self.fences_spec(), fence),
    {
        let n: usize = self.fences.len();
        let mut i: usize = 0;
        while i < n
            invariant
                self.wf(),
                n == self.fences@.len(),
                0 <= i <= n,
                seq_has_fence(self.fences@, fence),
                forall|j: int| 0 <= j < i ==> self.fences@[j].handle != fence,
            decreases n - i,
        {
            if self.fences[i].handle == fence {
                proof {
                    lemma_fence_lookup(self.fences@, fence, i as int);
                }
                return i;
            }
            i = i + 1;
        }
        proof {
            let w = seq_fence_idx(self.fences@, fence);
            assert(self.fences@[w].handle == fence);
            assert(false);
        }
        0
    }

    fn find_buffer(&self, buffer: u64) -> (r: usize)
        requires
            self.wf(),
            self.has_buffer(buffer),
        ensures
            r < self.buffers_spec().len(),
            self.buffers_spec()[r as int].handle == buffer,
            r as int == seq_buffer_idx(self.buffers_spec(), buffer),
    {
        let n: usize = self.buffers.len();
        let mut i: usize = 0;
        while i < n
            invariant
                self.wf(),
                n == self.buffers@.len(),
                0 <= i <= n,
                seq_has_buffer(self.buffers@, buffer),
                forall|j: int| 0 <= j < i ==> self.buffers@[j].handle != buffer,
            decreases n - i,
        {
            if self.buffers[i].handle == buffer {
                proof {
                    lemma_buffer_lookup(self.buffers@, buffer, i as int);
                }
                return i;
            }
            i = i + 1;
        }
        proof {
            let w = seq_buffer_idx(self.buffers@, buffer);
            assert(self.buffers@[w].handle == buffer);
            assert(false);
        }
        0
    }
}

/// With distinct fence handles, the index found by search is the index
/// the specification chooses.
pub proof fn lemma_fence_lookup(s: Seq<FenceState>, h: u64, i: int)
    requires
        0 <= i < s.len(),
        s[i].handle == h,
        forall|p: int, q: int| 0 <= p < s.len() && 0 <= q < s.len() && p != q ==> s[p].handle
            != s[q].handle,
    ensures
        seq_has_fence(s, h),
        seq_fence_idx(s, h) == i,
{
    assert(seq_has_fence(s, h));
    let c = seq_fence_idx(s, h);
    assert(0 <= c < s.len() && s[c].handle == h);
}

/// With distinct command-buffer handles, the index found by search is the
/// index the specification chooses.
pub proof fn lemma_buffer_lookup(s: Seq<CommandBufferState>, h: u64, i: int)
    requires
        0 <= i < s.len(),
        s[i].handle == h,
        forall|p: int, q: int| 0 <= p < s.len() && 0 <= q < s.len() && p != q ==> s[p].handle
            != s[q].handle,
    ensures
        seq_has_buffer(s, h),
        seq_buffer_idx(s, h) == i,
{
    assert(seq_has_buffer(s, h));
    let c = seq_buffer_idx(s, h);
    assert(0 <= c < s.len() && s[c].handle == h);
}

/// The device's identity and reported properties are unchanged.
pub open spec fn same_config(pre: Device, post: Device) -> bool {
    &&& post.extensions_spec() == pre.extensions_spec()
    &&& post.max_allocations_spec() == pre.max_allocations_spec()
    &&& post.queue_family_spec() == pre.queue_family_spec()
    &&& post.formats_spec() == pre.formats_spec()
    &&& post.host_memory_spec() == pre.host_memory_spec()
}

/// No object was created, destroyed, or changed state.
pub open spec fn same_objects(pre: Device, post: Device) -> bool {
    &&& post.fences_spec() == pre.fences_spec()
    &&& post.buffers_spec() == pre.buffers_spec()
    &&& post.next_spec() == pre.next_spec()
}


/// A call log whose entries all persist at their places in a longer log
/// is a prefix of it.
pub proof fn lemma_prefix_to(a: Seq<DeviceCall>, b: Seq<DeviceCall>)
    requires
        a.len() <= b.len(),
        forall|i: int| 0 <= i < a.len() ==> a[i] == b[i],
    ensures
        a.is_prefix_of(b),
{
    assert(a =~= b.subrange(0, a.len() as int));
}

/// Nothing about the device changed that any observer could see.
pub open spec fn device_unchanged(pre: Device, post: Device) -> bool {
    &&& same_config(pre, post)
    &&& same_objects(pre, post)
    &&& post.calls_spec() == pre.calls_spec()
    &&& post.fail_spec() == pre.fail_spec()
}

/// Exactly this one call was appended to the log.
pub open spec fn logged(pre: Device, post: Device, call: DeviceCall) -> bool {
    post.calls_spec() == pre.calls_spec().push(call)
}

/// The code a fallible call fails with: the injected one, or the model's
/// exhaustion code when the handle space is spent.
pub open spec fn err_code(injected: Option<i32>) -> i32 {
    match injected {
        Some(c) => c,
        None => ERROR_OUT_OF_HOST_MEMORY,
    }
}

/// The same command buffers exist, and all but the one named keep their
/// recording state.
pub open spec fn buffers_match_except(pre: Device, post: Device, h: u64) -> bool {
    &&& forall|g: u64| #[trigger] post.has_buffer(g) == pre.has_buffer(g)
    &&& forall|g: u64|
        g != h && pre.has_buffer(g) ==> {
            &&& #[trigger] post.buffer_recording(g) == pre.buffer_recording(g)
            &&& post.buffer_pass_open(g) == pre.buffer_pass_open(g)
        }
}

/// The same fences exist, and all but the one named keep their state.
pub open spec fn fences_match_except(pre: Device, post: Device, h: u64) -> bool {
    &&& forall|g: u64| #[trigger] post.has_fence(g) == pre.has_fence(g)
    &&& forall|g: u64|
        g != h && pre.has_fence(g) ==> {
            &&& #[trigger] post.fence_signaled(g) == pre.fence_signaled(g)
            &&& post.fence_pending(g) == pre.fence_pending(g)
        }
}

/// Updating one record without changing its handle leaves lookup of every
/// handle intact.
proof fn lemma_buffer_update(s: Seq<CommandBufferState>, i: int, v: CommandBufferState)
    requires
        0 <= i < s.len(),
        v.handle == s[i].handle,
        forall|p: int, q: int| 0 <= p < s.len() && 0 <= q < s.len() && p != q ==> s[p].handle
            != s[q].handle,
    ensures
        forall|p: int, q: int|
            0 <= p < s.update(i, v).len() && 0 <= q < s.update(i, v).len() && p != q ==> s.update(
                i,
                v,
            )[p].handle != s.update(i, v)[q].handle,
        forall|h: u64| #[trigger] seq_has_buffer(s.update(i, v), h) == seq_has_buffer(s, h),
        seq_has_buffer(s, v.handle) && seq_buffer_idx(s.update(i, v), v.handle) == i,
        forall|h: u64|
            h != v.handle && #[trigger] seq_has_buffer(s, h) ==> s.update(i, v)[seq_buffer_idx(
                s.update(i, v),
                h,
            )] == s[seq_buffer_idx(s, h)],
{
    let t = s.update(i, v);
    assert(forall|x: int| 0 <= x < t.len() ==> t[x].handle == s[x].handle);
    assert forall|h: u64| #[trigger] seq_has_buffer(t, h) == seq_has_buffer(s, h) by {
        if seq_has_buffer(s, h) {
            let j = choose|j: int| 0 <= j < s.len() && s[j].handle == h;
            assert(t[j].handle == h);
        }
        if seq_has_buffer(t, h) {
            let j = choose|j: int| 0 <= j < t.len() && t[j].handle == h;
            assert(s[j].handle == h);
        }
    }
    assert(t[i].handle == v.handle);
    lemma_buffer_lookup(t, v.handle, i);
    assert forall|h: u64| h != v.handle && #[trigger] seq_has_buffer(s, h) implies t[seq_buffer_idx(t, h)] == s[seq_buffer_idx(s, h)] by {
        let a = seq_buffer_idx(s, h);
        assert(0 <= a < s.len() && s[a].handle == h);
        assert(t[a].handle == h);
        lemma_buffer_lookup(t, h, a);
        assert(a != i);
    }
}

/// Updating one fence without changing its handle leaves lookup of every
/// handle intact.
proof fn lemma_fence_update(s: Seq<FenceState>, i: int, v: FenceState)
    requires
        0 <= i < s.len(),
        v.handle == s[i].handle,
        forall|p: int, q: int| 0 <= p < s.len() && 0 <= q < s.len() && p != q ==> s[p].handle
            != s[q].handle,
    ensures
        forall|p: int, q: int|
            0 <= p < s.update(i, v).len() && 0 <= q < s.update(i, v).len() && p != q ==> s.update(
                i,
                v,
            )[p].handle != s.update(i, v)[q].handle,
        forall|h: u64| #[trigger] seq_has_fence(s.update(i, v), h) == seq_has_fence(s, h),
        seq_has_fence(s, v.handle) && seq_fence_idx(s.update(i, v), v.handle) == i,
        forall|h: u64|
            h != v.handle && #[trigger] seq_has_fence(s, h) ==> s.update(i, v)[seq_fence_idx(
                s.update(i, v),
                h,
            )] == s[seq_fence_idx(s, h)],
{
    let t = s.update(i, v);
    assert(forall|x: int| 0 <= x < t.len() ==> t[x].handle == s[x].handle);
    assert forall|h: u64| #[trigger] seq_has_fence(t, h) == seq_has_fence(s, h) by {
        if seq_has_fence(s, h) {
            let j = choose|j: int| 0 <= j < s.len() && s[j].handle == h;
            assert(t[j].handle == h);
        }
        if seq_has_fence(t, h) {
            let j = choose|j: int| 0 <= j < t.len() && t[j].handle == h;
            assert(s[j].handle == h);
        }
    }
    assert(t[i].handle == v.handle);
    lemma_fence_lookup(t, v.handle, i);
    assert forall|h: u64| h != v.handle && #[trigger] seq_has_fence(s, h) implies t[seq_fence_idx(t, h)] == s[seq_fence_idx(s, h)] by {
        let a = seq_fence_idx(s, h);
        assert(0 <= a < s.len() && s[a].handle == h);
        assert(t[a].handle == h);
        lemma_fence_lookup(t, h, a);
        assert(a != i);
    }
}

/// Appending a record with a fresh handle keeps lookup of the old handles
/// intact and makes the new one found.
proof fn lemma_buffer_push(s: Seq<CommandBufferState>, v: CommandBufferState)
    requires
        forall|p: int, q: int| 0 <= p < s.len() && 0 <= q < s.len() && p != q ==> s[p].handle
            != s[q].handle,
        forall|p: int| 0 <= p < s.len() ==> s[p].handle != v.handle,
    ensures
        forall|p: int, q: int|
            0 <= p < s.push(v).len() && 0 <= q < s.push(v).len() && p != q ==> s.push(
                v,
            )[p].handle != s.push(v)[q].handle,
        seq_has_buffer(s.push(v), v.handle),
        s.push(v)[seq_buffer_idx(s.push(v), v.handle)] == v,
        forall|h: u64|
            h != v.handle ==> #[trigger] seq_has_buffer(s.push(v), h) == seq_has_buffer(s, h),
        forall|h: u64|
            h != v.handle && #[trigger] seq_has_buffer(s, h) ==> s.push(v)[seq_buffer_idx(
                s.push(v),
                h,
            )] == s[seq_buffer_idx(s, h)],
{
    let t = s.push(v);
    assert(t[s.len() as int] == v);
    lemma_buffer_lookup(t, v.handle, s.len() as int);
    assert forall|h: u64| h != v.handle implies #[trigger] seq_has_buffer(t, h)
        == seq_has_buffer(s, h) by {
        if seq_has_buffer(s, h) {
            let j = choose|j: int| 0 <= j < s.len() && s[j].handle == h;
            assert(t[j].handle == h);
        }
        if seq_has_buffer(t, h) {
            let j = choose|j: int| 0 <= j < t.len() && t[j].handle == h;
            assert(j != s.len());
            assert(s[j].handle == h);
        }
    }
    assert forall|h: u64| h != v.handle && #[trigger] seq_has_buffer(s, h) implies t[seq_buffer_idx(t, h)] == s[seq_buffer_idx(s, h)] by {
        let a = seq_buffer_idx(s, h);
        assert(0 <= a < s.len() && s[a].handle == h);
        assert(t[a].handle == h);
        lemma_buffer_lookup(t, h, a);
    }
}

/// Appending a fence with a fresh handle keeps lookup of the old handles
/// intact and makes the new one found.
proof fn lemma_fence_push(s: Seq<FenceState>, v: FenceState)
    requires
        forall|p: int, q: int| 0 <= p < s.len() && 0 <= q < s.len() && p != q ==> s[p].handle
            != s[q].handle,
        forall|p: int| 0 <= p < s.len() ==> s[p].handle != v.handle,
    ensures
        forall|p: int, q: int|
            0 <= p < s.push(v).len() && 0 <= q < s.push(v).len() && p != q ==> s.push(
                v,
            )[p].handle != s.push(v)[q].handle,
        seq_has_fence(s.push(v), v.handle),
        s.push(v)[seq_fence_idx(s.push(v), v.handle)] == v,
        forall|h: u64|
            h != v.handle ==> #[trigger] seq_has_fence(s.push(v), h) == seq_has_fence(s, h),
        forall|h: u64|
            h != v.handle && #[trigger] seq_has_fence(s, h) ==> s.push(v)[seq_fence_idx(
                s.push(v),
                h,
            )] == s[seq_fence_idx(s, h)],
{
    let t = s.push(v);
    assert(t[s.len() as int] == v);
    lemma_fence_lookup(t, v.handle, s.len() as int);
    assert forall|h: u64| h != v.handle implies #[trigger] seq_has_fence(t, h) == seq_has_fence(
        s,
        h,
    ) by {
        if seq_has_fence(s, h) {
            let j = choose|j: int| 0 <= j < s.len() && s[j].handle == h;
            assert(t[j].handle == h);
        }
        if seq_has_fence(t, h) {
            let j = choose|j: int| 0 <= j < t.len() && t[j].handle == h;
            assert(j != s.len());
            assert(s[j].handle == h);
        }
    }
    assert forall|h: u64| h != v.handle && #[trigger] seq_has_fence(s, h) implies t[seq_fence_idx(t, h)] == s[seq_fence_idx(s, h)] by {
        let a = seq_fence_idx(s, h);
        assert(0 <= a < s.len() && s[a].handle == h);
        assert(t[a].handle == h);
        lemma_fence_lookup(t, h, a);
    }
}

/// Removing one record removes exactly its handle from lookup.
proof fn lemma_fence_remove(s: Seq<FenceState>, i: int)
    requires
        0 <= i < s.len(),
        forall|p: int, q: int| 0 <= p < s.len() && 0 <= q < s.len() && p != q ==> s[p].handle
            != s[q].handle,
    ensures
        forall|p: int, q: int|
            0 <= p < s.remove(i).len() && 0 <= q < s.remove(i).len() && p != q ==> s.remove(
                i,
            )[p].handle != s.remove(i)[q].handle,
        !seq_has_fence(s.remove(i), s[i].handle),
        forall|h: u64|
            h != s[i].handle ==> #[trigger] seq_has_fence(s.remove(i), h) == seq_has_fence(s, h),
        forall|h: u64|
            h != s[i].handle && #[trigger] seq_has_fence(s, h) ==> s.remove(i)[seq_fence_idx(
                s.remove(i),
                h,
            )] == s[seq_fence_idx(s, h)],
{
    let t = s.remove(i);
    assert(forall|x: int| 0 <= x < i ==> t[x] == s[x]);
    assert(forall|x: int| i <= x < t.len() ==> t[x] == s[x + 1]);
    assert forall|p: int, q: int| 0 <= p < t.len() && 0 <= q < t.len() && p != q implies t[p].handle != t[q].handle by {
        let p0: int = if p < i { p } else { p + 1 };
        let q0: int = if q < i { q } else { q + 1 };
        assert(t[p] == s[p0] && t[q] == s[q0]);
    }
    assert forall|j: int| 0 <= j < t.len() implies t[j].handle != s[i].handle by {
        let j0: int = if j < i { j } else { j + 1 };
        assert(t[j] == s[j0] && j0 != i);
    }
    assert forall|h: u64| h != s[i].handle implies #[trigger] seq_has_fence(t, h)
        == seq_has_fence(s, h) by {
        if seq_has_fence(s, h) {
            let j = choose|j: int| 0 <= j < s.len() && s[j].handle == h;
            if j < i {
                assert(t[j].handle == h);
            } else {
                assert(t[j - 1].handle == h);
            }
        }
        if seq_has_fence(t, h) {
            let j = choose|j: int| 0 <= j < t.len() && t[j].handle == h;
            let j0: int = if j < i { j } else { j + 1 };
            assert(s[j0].handle == h);
        }
    }
    assert forall|h: u64| h != s[i].handle && #[trigger] seq_has_fence(s, h) implies t[seq_fence_idx(t, h)] == s[seq_fence_idx(s, h)] by {
        let a = seq_fence_idx(s, h);
        assert(0 <= a < s.len() && s[a].handle == h);
        if a < i {
            assert(t[a].handle == h);
            lemma_fence_lookup(t, h, a);
        } else {
            assert(t[a - 1].handle == h);
            lemma_fence_lookup(t, h, a - 1);
        }
    }
}

/// Removing one record removes exactly its handle from lookup.
proof fn lemma_buffer_remove(s: Seq<CommandBufferState>, i: int)
    requires
        0 <= i < s.len(),
        forall|p: int, q: int| 0 <= p < s.len() && 0 <= q < s.len() && p != q ==> s[p].handle
            != s[q].handle,
    ensures
        forall|p: int, q: int|
            0 <= p < s.remove(i).len() && 0 <= q < s.remove(i).len() && p != q ==> s.remove(
                i,
            )[p].handle != s.remove(i)[q].handle,
        !seq_has_buffer(s.remove(i), s[i].handle),
        forall|h: u64|
            h != s[i].handle ==> #[trigger] seq_has_buffer(s.remove(i), h) == seq_has_buffer(s, h),
        forall|h: u64|
            h != s[i].handle && #[trigger] seq_has_buffer(s, h) ==> s.remove(i)[seq_buffer_idx(
                s.remove(i),
                h,
            )] == s[seq_buffer_idx(s, h)],
{
    let t = s.remove(i);
    assert(forall|x: int| 0 <= x < i ==> t[x] == s[x]);
    assert(forall|x: int| i <= x < t.len() ==> t[x] == s[x + 1]);
    assert forall|p: int, q: int| 0 <= p < t.len() && 0 <= q < t.len() && p != q implies t[p].handle != t[q].handle by {
        let p0: int = if p < i { p } else { p + 1 };
        let q0: int = if q < i { q } else { q + 1 };
        assert(t[p] == s[p0] && t[q] == s[q0]);
    }
    assert forall|j: int| 0 <= j < t.len() implies t[j].handle != s[i].handle by {
        let j0: int = if j < i { j } else { j + 1 };
        assert(t[j] == s[j0] && j0 != i);
    }
    assert forall|h: u64| h != s[i].handle implies #[trigger] seq_has_buffer(t, h)
        == seq_has_buffer(s, h) by {
        if seq_has_buffer(s, h) {
            let j = choose|j: int| 0 <= j < s.len() && s[j].handle == h;
            if j < i {
                assert(t[j].handle == h);
            } else {
                assert(t[j - 1].handle == h);
            }
        }
        if seq_has_buffer(t, h) {
            let j = choose|j: int| 0 <= j < t.len() && t[j].handle == h;
            let j0: int = if j < i { j } else { j + 1 };
            assert(s[j0].handle == h);
        }
    }
    assert forall|h: u64| h != s[i].handle && #[trigger] seq_has_buffer(s, h) implies t[seq_buffer_idx(t, h)] == s[seq_buffer_idx(s, h)] by {
        let a = seq_buffer_idx(s, h);
        assert(0 <= a < s.len() && s[a].handle == h);
        if a < i {
            assert(t[a].handle == h);
            lemma_buffer_lookup(t, h, a);
        } else {
            assert(t[a - 1].handle == h);
            lemma_buffer_lookup(t, h, a - 1);
        }
    }
}

impl Device {
    /// Appends the call to the log and consumes any injected fault.
    fn begin_call(&mut self, call: DeviceCall) -> (r: Option<i32>)
        ensures
            same_config(*old(self), *final(self)),
            same_objects(*old(self), *final(self)),
            logged(*old(self), *final(self), call),
            final(self).fail_spec() is None,
            r == old(self).fail_spec(),
            old(self).wf() ==> final(self).wf(),
    {
        self.calls.push(call);
        let fail = self.fail_next;
        self.fail_next = None;
        fail
    }

    /// Creates the command pool the renderer's two command buffers are
    /// allocated from, on the device's queue family.
    pub fn create_command_pool(&mut self) -> (r: Result<u64, i32>)
        requires
            old(self).wf(),
        ensures
            final(self).wf(),
            same_config(*old(self), *final(self)),
            logged(*old(self), *final(self), DeviceCall::CreateCommandPool {
                queue_family_index: old(self).queue_family_spec(),
            }),
            final(self).fail_spec() is None,
            r is Err <==> (old(self).fail_spec() is Some || !old(self).can_issue(1)),
            r matches Err(c) ==> same_objects(*old(self), *final(self)) && c == err_code(
                old(self).fail_spec(),
            ),
            r matches Ok(h) ==> {
                &&& h == old(self).next_spec()
                &&& final(self).next_spec() == old(self).next_spec() + 1
                &&& final(self).fences_spec() == old(self).fences_spec()
                &&& final(self).buffers_spec() == old(self).buffers_spec()
            },
    {
        let call = DeviceCall::CreateCommandPool { queue_family_index: self.queue_family_index };
        if let Some(c) = self.begin_call(call) {
            return Err(c);
        }
        if self.next_handle > u64::MAX - 1 {
            return Err(ERROR_OUT_OF_HOST_MEMORY);
        }
        let h = self.next_handle;
        self.next_handle = self.next_handle + 1;
        Ok(h)
    }

    /// Allocates the pair of primary-level command buffers -- one for the
    /// frame's draw commands, one for staging uploads -- from the pool.
    pub fn allocate_command_buffers(&mut self, pool: u64) -> (r: Result<(u64, u64), i32>)
        requires
            old(self).wf(),
        ensures
            final(self).wf(),
            same_config(*old(self), *final(self)),
            logged(*old(self), *final(self), DeviceCall::AllocateCommandBuffers {
                pool,
                count: 2u32,
            }),
            final(self).fail_spec() is None,
            r is Err <==> (old(self).fail_spec() is Some || !old(self).can_issue(2)),
            r matches Err(c) ==> same_objects(*old(self), *final(self)) && c == err_code(
                old(self).fail_spec(),
            ),
            r matches Ok(hs) ==> {
                &&& hs.0 == old(self).next_spec()
                &&& hs.1 == old(self).next_spec() + 1
                &&& hs.0 != hs.1
                &&& final(self).next_spec() == old(self).next_spec() + 2
                &&& final(self).fences_spec() == old(self).fences_spec()
                &&& final(self).buffers_spec() == old(self).buffers_spec().push(
                    CommandBufferState { handle: hs.0, recording: false, pass_open: false },
                ).push(CommandBufferState { handle: hs.1, recording: false, pass_open: false })
                &&& final(self).has_buffer(hs.0) && final(self).has_buffer(hs.1)
                &&& !final(self).buffer_recording(hs.0) && !final(self).buffer_recording(hs.1)
                &&& !final(self).buffer_pass_open(hs.0) && !final(self).buffer_pass_open(hs.1)
                &&& forall|g: u64|
                    g != hs.0 && g != hs.1 ==> #[trigger] final(self).has_buffer(g) == old(
                        self,
                    ).has_buffer(g)
                &&& forall|g: u64|
                    g != hs.0 && g != hs.1 && old(self).has_buffer(g) ==> {
                        &&& #[trigger] final(self).buffer_recording(g) == old(
                            self,
                        ).buffer_recording(g)
                        &&& final(self).buffer_pass_open(g) == old(self).buffer_pass_open(g)
                    }
            },
    {
        let call = DeviceCall::AllocateCommandBuffers { pool, count: 2 };
        if let Some(c) = self.begin_call(call) {
            return Err(c);
        }
        if self.next_handle > u64::MAX - 2 {
            return Err(ERROR_OUT_OF_HOST_MEMORY);
        }
        let a = self.next_handle;
        let b = self.next_handle + 1;
        let ghost mid = self.buffers@;
        let va = CommandBufferState { handle: a, recording: false, pass_open: false };
        let vb = CommandBufferState { handle: b, recording: false, pass_open: false };
        proof {
            assert(forall|p: int| 0 <= p < mid.len() ==> #[trigger] mid[p].handle < a);
        }
        self.buffers.push(va);
        proof {
            lemma_buffer_push(mid, va);
        }
        let ghost mid2 = self.buffers@;
        self.buffers.push(vb);
        proof {
            assert(forall|p: int| 0 <= p < mid2.len() ==> #[trigger] mid2[p].handle != b);
            lemma_buffer_push(mid2, vb);
            lemma_buffer_lookup(self.buffers@, a, mid.len() as int);
            lemma_buffer_lookup(self.buffers@, b, mid2.len() as int);
            assert(self.buffers@[mid.len() as int] == va);
            assert(self.buffers@[mid2.len() as int] == vb);
            assert forall|g: u64| g != a && g != b implies #[trigger] seq_has_buffer(
                self.buffers@,
                g,
            ) == seq_has_buffer(mid, g) by {
                assert(seq_has_buffer(mid2.push(vb), g) == seq_has_buffer(mid2, g));
                assert(seq_has_buffer(mid.push(va), g) == seq_has_buffer(mid, g));
            }
            assert forall|g: u64| g != a && g != b && seq_has_buffer(mid, g) implies self.buffers@[
                seq_buffer_idx(self.buffers@, g)
            ] == mid[seq_buffer_idx(mid, g)] by {
                assert(seq_has_buffer(mid2, g));
                assert(mid2[seq_buffer_idx(mid2, g)] == mid[seq_buffer_idx(mid, g)]);
                assert(self.buffers@[seq_buffer_idx(self.buffers@, g)] == mid2[seq_buffer_idx(
                    mid2,
                    g,
                )]);
            }
        }
        self.next_handle = self.next_handle + 2;
        Ok((a, b))
    }

    /// Creates a fence, signaled or unsignaled as asked.
    pub fn create_fence(&mut self, signaled: bool) -> (r: Result<u64, i32>)
        requires
            old(self).wf(),
        ensures
            final(self).wf(),
            same_config(*old(self), *final(self)),
            logged(*old(self), *final(self), DeviceCall::CreateFence { signaled }),
            final(self).fail_spec() is None,
            r is Err <==> (old(self).fail_spec() is Some || !old(self).can_issue(1)),
            r matches Err(c) ==> same_objects(*old(self), *final(self)) && c == err_code(
                old(self).fail_spec(),
            ),
            r matches Ok(h) ==> {
                &&& h == old(self).next_spec()
                &&& final(self).next_spec() == old(self).next_spec() + 1
                &&& final(self).buffers_spec() == old(self).buffers_spec()
                &&& final(self).fences_spec() == old(self).fences_spec().push(
                    FenceState { handle: h, signaled, pending: false },
                )
                &&& final(self).has_fence(h)
                &&& final(self).fence_signaled(h) == signaled
                &&& !final(self).fence_pending(h)
                &&& forall|g: u64|
                    g != h ==> #[trigger] final(self).has_fence(g) == old(self).has_fence(g)
                &&& forall|g: u64|
                    g != h && old(self).has_fence(g) ==> {
                        &&& #[trigger] final(self).fence_signaled(g) == old(self).fence_signaled(g)
                        &&& final(self).fence_pending(g) == old(self).fence_pending(g)
                    }
            },
    {
        let call = DeviceCall::CreateFence { signaled };
        if let Some(c) = self.begin_call(call) {
            return Err(c);
        }
        if self.next_handle > u64::MAX - 1 {
            return Err(ERROR_OUT_OF_HOST_MEMORY);
        }
        let h = self.next_handle;
        let ghost pre = self.fences@;
        let v = FenceState { handle: h, signaled, pending: false };
        self.fences.push(v);
        proof {
            lemma_fence_push(pre, v);
        }
        self.next_handle = self.next_handle + 1;
        Ok(h)
    }

    /// Creates a render pass from the given creation record.
    pub fn create_render_pass(&mut self, info: RenderPassInfo) -> (r: Result<u64, i32>)
        requires
            old(self).wf(),
        ensures
            final(self).wf(),
            same_config(*old(self), *final(self)),
            logged(*old(self), *final(self), DeviceCall::CreateRenderPass { info }),
            final(self).fail_spec() is None,
            r is Err <==> (old(self).fail_spec() is Some || !old(self).can_issue(1)),
            r matches Err(c) ==> same_objects(*old(self), *final(self)) && c == err_code(
                old(self).fail_spec(),
            ),
            r matches Ok(h) ==> {
                &&& h == old(self).next_spec()
                &&& final(self).next_spec() == old(self).next_spec() + 1
                &&& final(self).fences_spec() == old(self).fences_spec()
                &&& final(self).buffers_spec() == old(self).buffers_spec()
            },
    {
        let call = DeviceCall::CreateRenderPass { info };
        if let Some(c) = self.begin_call(call) {
            return Err(c);
        }
        if self.next_handle > u64::MAX - 1 {
            return Err(ERROR_OUT_OF_HOST_MEMORY);
        }
        let h = self.next_handle;
        self.next_handle = self.next_handle + 1;
        Ok(h)
    }

    /// Creates a framebuffer over the given render pass and extent.
    pub fn create_framebuffer(&mut self, render_pass: u64, width: u32, height: u32) -> (r:
        Result<u64, i32>)
        requires
            old(self).wf(),
        ensures
            final(self).wf(),
            same_config(*old(self), *final(self)),
            logged(*old(self), *final(self), DeviceCall::CreateFramebuffer {
                render_pass,
                width,
                height,
            }),
            final(self).fail_spec() is None,
            r is Err <==> (old(self).fail_spec() is Some || !old(self).can_issue(1)),
            r matches Err(c) ==> same_objects(*old(self), *final(self)) && c == err_code(
                old(self).fail_spec(),
            ),
            r matches Ok(h) ==> {
                &&& h == old(self).next_spec()
                &&& final(self).next_spec() == old(self).next_spec() + 1
                &&& final(self).fences_spec() == old(self).fences_spec()
                &&& final(self).buffers_spec() == old(self).buffers_spec()
            },
    {
        let call = DeviceCall::CreateFramebuffer { render_pass, width, height };
        if let Some(c) = self.begin_call(call) {
            return Err(c);
        }
        if self.next_handle > u64::MAX - 1 {
            return Err(ERROR_OUT_OF_HOST_MEMORY);
        }
        let h = self.next_handle;
        self.next_handle = self.next_handle + 1;
        Ok(h)
    }

    /// Creates a host-visible buffer of the given byte size.
    pub fn create_buffer(&mut self, size: u64) -> (r: Result<u64, i32>)
        requires
            old(self).wf(),
        ensures
            final(self).wf(),
            same_config(*old(self), *final(self)),
            logged(*old(self), *final(self), DeviceCall::CreateBuffer { size }),
            final(self).fail_spec() is None,
            r is Err <==> (old(self).fail_spec() is Some || !old(self).can_issue(1)),
            r matches Err(c) ==> same_objects(*old(self), *final(self)) && c == err_code(
                old(self).fail_spec(),
            ),
            r matches Ok(h) ==> {
                &&& h == old(self).next_spec()
                &&& final(self).next_spec() == old(self).next_spec() + 1
                &&& final(self).fences_spec() == old(self).fences_spec()
                &&& final(self).buffers_spec() == old(self).buffers_spec()
            },
    {
        let call = DeviceCall::CreateBuffer { size };
        if let Some(c) = self.begin_call(call) {
            return Err(c);
        }
        if self.next_handle > u64::MAX - 1 {
            return Err(ERROR_OUT_OF_HOST_MEMORY);
        }
        let h = self.next_handle;
        self.next_handle = self.next_handle + 1;
        Ok(h)
    }

    /// Allocates device memory of the given size from the given memory
    /// type; one discrete allocation counted against the ceiling.
    pub fn allocate_memory(&mut self, size: u64, memory_type: u32) -> (r: Result<u64, i32>)
        requires
            old(self).wf(),
        ensures
            final(self).wf(),
            same_config(*old(self), *final(self)),
            logged(*old(self), *final(self), DeviceCall::AllocateMemory { size, memory_type }),
            final(self).fail_spec() is None,
            r is Err <==> (old(self).fail_spec() is Some || !old(self).can_issue(1)),
            r matches Err(c) ==> same_objects(*old(self), *final(self)) && c == err_code(
                old(self).fail_spec(),
            ),
            r matches Ok(h) ==> {
                &&& h == old(self).next_spec()
                &&& final(self).next_spec() == old(self).next_spec() + 1
                &&& final(self).fences_spec() == old(self).fences_spec()
                &&& final(self).buffers_spec() == old(self).buffers_spec()
            },
    {
        let call = DeviceCall::AllocateMemory { size, memory_type };
        if let Some(c) = self.begin_call(call) {
            return Err(c);
        }
        if self.next_handle > u64::MAX - 1 {
            return Err(ERROR_OUT_OF_HOST_MEMORY);
        }
        let h = self.next_handle;
        self.next_handle = self.next_handle + 1;
        Ok(h)
    }

    /// Opens a command buffer for recording, one-time-submit. The buffer
    /// must exist and must not already be recording.
    pub fn begin_command_buffer(&mut self, buffer: u64) -> (r: Result<(), i32>)
        requires
            old(self).wf(),
            old(self).has_buffer(buffer),
            !old(self).buffer_recording(buffer),
        ensures
            final(self).wf(),
            same_config(*old(self), *final(self)),
            logged(*old(self), *final(self), DeviceCall::BeginCommandBuffer { buffer }),
            final(self).fail_spec() is None,
            final(self).next_spec() == old(self).next_spec(),
            final(self).fences_spec() == old(self).fences_spec(),
            r is Err <==> old(self).fail_spec() is Some,
            r matches Err(c) ==> same_objects(*old(self), *final(self)) && c == err_code(
                old(self).fail_spec(),
            ),
            r is Ok ==> {
                &&& buffers_match_except(*old(self), *final(self), buffer)
                &&& final(self).buffer_recording(buffer)
                &&& !final(self).buffer_pass_open(buffer)
            },
    {
        let call = DeviceCall::BeginCommandBuffer { buffer };
        if let Some(c) = self.begin_call(call) {
            return Err(c);
        }
        let i = self.find_buffer(buffer);
        let ghost pre = self.buffers@;
        let v = CommandBufferState { handle: buffer, recording: true, pass_open: false };
        self.buffers.set(i, v);
        proof {
            lemma_buffer_update(pre, i as int, v);
        }
        Ok(())
    }

    /// Ends a command buffer's recording. Any render pass opened in it
    /// must have been closed first.
    pub fn end_command_buffer(&mut self, buffer: u64) -> (r: Result<(), i32>)
        requires
            old(self).wf(),
            old(self).has_buffer(buffer),
            old(self).buffer_recording(buffer),
            !old(self).buffer_pass_open(buffer),
        ensures
            final(self).wf(),
            same_config(*old(self), *final(self)),
            logged(*old(self), *final(self), DeviceCall::EndCommandBuffer { buffer }),
            final(self).fail_spec() is None,
            final(self).next_spec() == old(self).next_spec(),
            final(self).fences_spec() == old(self).fences_spec(),
            r is Err <==> old(self).fail_spec() is Some,
            r matches Err(c) ==> same_objects(*old(self), *final(self)) && c == err_code(
                old(self).fail_spec(),
            ),
            r is Ok ==> {
                &&& buffers_match_except(*old(self), *final(self), buffer)
                &&& !final(self).buffer_recording(buffer)
                &&& !final(self).buffer_pass_open(buffer)
            },
    {
        let call = DeviceCall::EndCommandBuffer { buffer };
        if let Some(c) = self.begin_call(call) {
            return Err(c);
        }
        let i = self.find_buffer(buffer);
        let ghost pre = self.buffers@;
        let v = CommandBufferState { handle: buffer, recording: false, pass_open: false };
        self.buffers.set(i, v);
        proof {
            lemma_buffer_update(pre, i as int, v);
        }
        Ok(())
    }

    /// Records the start of a render pass over the given framebuffer and
    /// render area into a recording command buffer. Recording commands
    /// returns nothing; errors surface at submission.
    pub fn cmd_begin_render_pass(
        &mut self,
        buffer: u64,
        render_pass: u64,
        framebuffer: u64,
        width: u32,
        height: u32,
    )
        requires
            old(self).wf(),
            old(self).has_buffer(buffer),
            old(self).buffer_recording(buffer),
            !old(self).buffer_pass_open(buffer),
        ensures
            final(self).wf(),
            same_config(*old(self), *final(self)),
            logged(*old(self), *final(self), DeviceCall::BeginRenderPass {
                buffer,
                render_pass,
                framebuffer,
                width,
                height,
            }),
            final(self).fail_spec() == old(self).fail_spec(),
            final(self).next_spec() == old(self).next_spec(),
            final(self).fences_spec() == old(self).fences_spec(),
            buffers_match_except(*old(self), *final(self), buffer),
            final(self).buffer_recording(buffer),
            final(self).buffer_pass_open(buffer),
    {
        self.calls.push(DeviceCall::BeginRenderPass {
            buffer,
            render_pass,
            framebuffer,
            width,
            height,
        });
        let i = self.find_buffer(buffer);
        let ghost pre = self.buffers@;
        let v = CommandBufferState { handle: buffer, recording: true, pass_open: true };
        self.buffers.set(i, v);
        proof {
            lemma_buffer_update(pre, i as int, v);
        }
    }

    /// Records the end of the open render pass of a recording command
    /// buffer.
    pub fn cmd_end_render_pass(&mut self, buffer: u64)
        requires
            old(self).wf(),
            old(self).has_buffer(buffer),
            old(self).buffer_recording(buffer),
            old(self).buffer_pass_open(buffer),
        ensures
            final(self).wf(),
            same_config(*old(self), *final(self)),
            logged(*old(self), *final(self), DeviceCall::EndRenderPass { buffer }),
            final(self).fail_spec() == old(self).fail_spec(),
            final(self).next_spec() == old(self).next_spec(),
            final(self).fences_spec() == old(self).fences_spec(),
            buffers_match_except(*old(self), *final(self), buffer),
            final(self).buffer_recording(buffer),
            !final(self).buffer_pass_open(buffer),
    {
        self.calls.push(DeviceCall::EndRenderPass { buffer });
        let i = self.find_buffer(buffer);
        let ghost pre = self.buffers@;
        let v = CommandBufferState { handle: buffer, recording: true, pass_open: false };
        self.buffers.set(i, v);
        proof {
            lemma_buffer_update(pre, i as int, v);
        }
    }

    /// Records a copy out of a staging buffer into a recording command
    /// buffer, outside any render pass.
    pub fn cmd_copy_buffer(&mut self, buffer: u64, src: u64, size: u64)
        requires
            old(self).wf(),
            old(self).has_buffer(buffer),
            old(self).buffer_recording(buffer),
            !old(self).buffer_pass_open(buffer),
        ensures
            final(self).wf(),
            same_config(*old(self), *final(self)),
            same_objects(*old(self), *final(self)),
            logged(*old(self), *final(self), DeviceCall::CopyBuffer { buffer, src, size }),
            final(self).fail_spec() == old(self).fail_spec(),
    {
        self.calls.push(DeviceCall::CopyBuffer { buffer, src, size });
    }

    /// Resets a fence to unsignaled before reuse. A submission that had
    /// been pending on it is treated as retired: at most one frame is
    /// ever in flight, so by the time the renderer legitimately resets
    /// the fence the prior frame's work has completed.
    pub fn reset_fence(&mut self, fence: u64) -> (r: Result<(), i32>)
        requires
            old(self).wf(),
            old(self).has_fence(fence),
        ensures
            final(self).wf(),
            same_config(*old(self), *final(self)),
            logged(*old(self), *final(self), DeviceCall::ResetFence { fence }),
            final(self).fail_spec() is None,
            final(self).next_spec() == old(self).next_spec(),
            final(self).buffers_spec() == old(self).buffers_spec(),
            r is Err <==> old(self).fail_spec() is Some,
            r matches Err(c) ==> same_objects(*old(self), *final(self)) && c == err_code(
                old(self).fail_spec(),
            ),
            r is Ok ==> {
                &&& fences_match_except(*old(self), *final(self), fence)
                &&& !final(self).fence_signaled(fence)
                &&& !final(self).fence_pending(fence)
            },
    {
        let call = DeviceCall::ResetFence { fence };
        if let Some(c) = self.begin_call(call) {
            return Err(c);
        }
        let i = self.find_fence(fence);
        let ghost pre = self.fences@;
        let v = FenceState { handle: fence, signaled: false, pending: false };
        self.fences.set(i, v);
        proof {
            lemma_fence_update(pre, i as int, v);
        }
        Ok(())
    }

    /// Submits a fully recorded command buffer to the device queue, with
    /// the fence as completion signal. The fence must be unsignaled and
    /// not already associated with pending work.
    pub fn queue_submit(&mut self, buffer: u64, fence: u64) -> (r: Result<(), i32>)
        requires
            old(self).wf(),
            old(self).has_buffer(buffer),
            !old(self).buffer_recording(buffer),
            old(self).has_fence(fence),
            !old(self).fence_signaled(fence),
            !old(self).fence_pending(fence),
        ensures
            final(self).wf(),
            same_config(*old(self), *final(self)),
            logged(*old(self), *final(self), DeviceCall::QueueSubmit { buffer, fence }),
            final(self).fail_spec() is None,
            final(self).next_spec() == old(self).next_spec(),
            final(self).buffers_spec() == old(self).buffers_spec(),
            r is Err <==> old(self).fail_spec() is Some,
            r matches Err(c) ==> same_objects(*old(self), *final(self)) && c == err_code(
                old(self).fail_spec(),
            ),
            r is Ok ==> {
                &&& fences_match_except(*old(self), *final(self), fence)
                &&& !final(self).fence_signaled(fence)
                &&& final(self).fence_pending(fence)
            },
    {
        let call = DeviceCall::QueueSubmit { buffer, fence };
        if let Some(c) = self.begin_call(call) {
            return Err(c);
        }
        let i = self.find_fence(fence);
        let ghost pre = self.fences@;
        let v = FenceState { handle: fence, signaled: false, pending: true };
        self.fences.set(i, v);
        proof {
            lemma_fence_update(pre, i as int, v);
        }
        Ok(())
    }

    /// Waits until a fence is signaled. The fence must be signaled
    /// already or have a pending submission that will signal it --
    /// waiting on any other fence would block forever, which the
    /// precondition rules out.
    pub fn wait_for_fence(&mut self, fence: u64)
        requires
            old(self).wf(),
            old(self).has_fence(fence),
            old(self).fence_signaled(fence) || old(self).fence_pending(fence),
        ensures
            final(self).wf(),
            same_config(*old(self), *final(self)),
            logged(*old(self), *final(self), DeviceCall::WaitForFence { fence }),
            final(self).fail_spec() == old(self).fail_spec(),
            final(self).next_spec() == old(self).next_spec(),
            final(self).buffers_spec() == old(self).buffers_spec(),
            fences_match_except(*old(self), *final(self), fence),
            final(self).fence_signaled(fence),
            !final(self).fence_pending(fence),
    {
        self.calls.push(DeviceCall::WaitForFence { fence });
        let i = self.find_fence(fence);
        let ghost pre = self.fences@;
        let v = FenceState { handle: fence, signaled: true, pending: false };
        self.fences.set(i, v);
        proof {
            lemma_fence_update(pre, i as int, v);
        }
    }

    /// Destroys a fence. No submission may still be pending on it: the
    /// caller must have waited first.
    pub fn destroy_fence(&mut self, fence: u64)
        requires
            old(self).wf(),
            old(self).has_fence(fence),
            !old(self).fence_pending(fence),
        ensures
            final(self).wf(),
            same_config(*old(self), *final(self)),
            logged(*old(self), *final(self), DeviceCall::DestroyFence { fence }),
            final(self).fail_spec() == old(self).fail_spec(),
            final(self).next_spec() == old(self).next_spec(),
            final(self).buffers_spec() == old(self).buffers_spec(),
            !final(self).has_fence(fence),
            forall|g: u64|
                g != fence ==> #[trigger] final(self).has_fence(g) == old(self).has_fence(g),
            forall|g: u64|
                g != fence && old(self).has_fence(g) ==> {
                    &&& #[trigger] final(self).fence_signaled(g) == old(self).fence_signaled(g)
                    &&& final(self).fence_pending(g) == old(self).fence_pending(g)
                },
    {
        self.calls.push(DeviceCall::DestroyFence { fence });
        let i = self.find_fence(fence);
        let ghost pre = self.fences@;
        self.fences.remove(i);
        proof {
            lemma_fence_remove(pre, i as int);
        }
    }

    /// Returns the two command buffers to their pool. Neither may be
    /// pending execution; the teardown fence wait establishes that.
    pub fn free_command_buffers(&mut self, pool: u64, primary: u64, staging: u64)
        requires
            old(self).wf(),
            old(self).has_buffer(primary),
            old(self).has_buffer(staging),
            primary != staging,
        ensures
            final(self).wf(),
            same_config(*old(self), *final(self)),
            logged(*old(self), *final(self), DeviceCall::FreeCommandBuffers {
                pool,
                primary,
                staging,
            }),
            final(self).fail_spec() == old(self).fail_spec(),
            final(self).next_spec() == old(self).next_spec(),
            final(self).fences_spec() == old(self).fences_spec(),
            !final(self).has_buffer(primary),
            !final(self).has_buffer(staging),
            forall|g: u64|
                g != primary && g != staging ==> #[trigger] final(self).has_buffer(g) == old(
                    self,
                ).has_buffer(g),
    {
        self.calls.push(DeviceCall::FreeCommandBuffers { pool, primary, staging });
        let i = self.find_buffer(primary);
        let ghost pre = self.buffers@;
        self.buffers.remove(i);
        proof {
            lemma_buffer_remove(pre, i as int);
        }
        let j = self.find_buffer(staging);
        let ghost mid = self.buffers@;
        self.buffers.remove(j);
        proof {
            lemma_buffer_remove(mid, j as int);
        }
    }

    /// Destroys the command pool. The command buffers allocated from it
    /// must already have been freed.
    pub fn destroy_command_pool(&mut self, pool: u64)
        requires
            old(self).wf(),
        ensures
            final(self).wf(),
            same_config(*old(self), *final(self)),
            same_objects(*old(self), *final(self)),
            logged(*old(self), *final(self), DeviceCall::DestroyCommandPool { pool }),
            final(self).fail_spec() == old(self).fail_spec(),
    {
        self.calls.push(DeviceCall::DestroyCommandPool { pool });
    }

    /// Destroys a render pass at renderer teardown.
    pub fn destroy_render_pass(&mut self, render_pass: u64)
        requires
            old(self).wf(),
        ensures
            final(self).wf(),
            same_config(*old(self), *final(self)),
            same_objects(*old(self), *final(self)),
            logged(*old(self), *final(self), DeviceCall::DestroyRenderPass { render_pass }),
            final(self).fail_spec() == old(self).fail_spec(),
    {
        self.calls.push(DeviceCall::DestroyRenderPass { render_pass });
    }

    /// Destroys a framebuffer.
    pub fn destroy_framebuffer(&mut self, framebuffer: u64)
        requires
            old(self).wf(),
        ensures
            final(self).wf(),
            same_config(*old(self), *final(self)),
            same_objects(*old(self), *final(self)),
            logged(*old(self), *final(self), DeviceCall::DestroyFramebuffer { framebuffer }),
            final(self).fail_spec() == old(self).fail_spec(),
    {
        self.calls.push(DeviceCall::DestroyFramebuffer { framebuffer });
    }

    /// Destroys a staging buffer whose commands have retired.
    pub fn destroy_buffer(&mut self, buffer: u64)
        requires
            old(self).wf(),
        ensures
            final(self).wf(),
            same_config(*old(self), *final(self)),
            same_objects(*old(self), *final(self)),
            logged(*old(self), *final(self), DeviceCall::DestroyBuffer { buffer }),
            final(self).fail_spec() == old(self).fail_spec(),
    {
        self.calls.push(DeviceCall::DestroyBuffer { buffer });
    }

    /// Frees one device-memory allocation whose commands have retired.
    pub fn free_memory(&mut self, memory: u64)
        requires
            old(self).wf(),
        ensures
            final(self).wf(),
            same_config(*old(self), *final(self)),
            same_objects(*old(self), *final(self)),
            logged(*old(self), *final(self), DeviceCall::FreeMemory { memory }),
            final(self).fail_spec() == old(self).fail_spec(),
    {
        self.calls.push(DeviceCall::FreeMemory { memory });
    }
}

} // verus!
