use vstd::prelude::*;

use crate::device::Device;
use crate::device::DeviceCall;
use crate::error::Error;
use crate::staging::StagingBuffer;
use crate::staging::StagingBufferPool;
use crate::tracker::AllocationTracker;

verus! {

/// How the composited output is transformed for the display. The
/// renderer records the render area; applying the transform to drawn
/// content is the drawing callback's concern, so rendering accepts and
/// carries the value without interpreting it.
#[derive(Debug, Clone, Copy, PartialEq, Eq, Structural)]
pub enum Transform {
    Normal,
    Rotate90,
    Rotate180,
    Rotate270,
    Flipped,
    Flipped90,
    Flipped180,
    Flipped270,
}

/// The currently bound render target: a framebuffer, the render pass it
/// was created against, and its dimensions.
#[derive(Debug, Clone, Copy, PartialEq, Eq, Structural)]
pub struct RenderTarget {
    pub framebuffer: u64,
    pub render_pass: u64,
    pub width: u32,
    pub height: u32,
}

/// The handle the drawing callback receives for the duration of one
/// frame: the primary command buffer with its render pass open, the
/// active target, and the staging machinery, moved out of the renderer
/// and moved back when the callback returns.
///
/// The callback may stage uploads; it must not open or close render
/// passes or command buffers itself -- the bounds a callback must respect
/// are [`frame_evolves`].
pub struct VulkanFrame {
    pub device: Device,
    pub tracker: AllocationTracker,
    pub staging: StagingBufferPool,
    pub command_buffer: u64,
    pub staging_command_buffer: u64,
    pub recording_staging: bool,
    pub target: RenderTarget,
}

/// A frame mid-recording: the primary command buffer is recording with
/// its render pass open, the staging command buffer is recording exactly
/// when the frame says so, and the bookkeeping components are coherent.
pub open spec fn frame_wf(f: VulkanFrame) -> bool {
    &&& f.device.wf()
    &&& f.tracker.wf()
    &&& f.staging.registered(f.tracker)
    &&& f.tracker.max_spec() == f.device.max_allocations_spec()
    &&& f.command_buffer != f.staging_command_buffer
    &&& f.device.has_buffer(f.command_buffer)
    &&& f.device.has_buffer(f.staging_command_buffer)
    &&& f.device.buffer_recording(f.command_buffer)
    &&& f.device.buffer_pass_open(f.command_buffer)
    &&& f.device.buffer_recording(f.staging_command_buffer) == f.recording_staging
    &&& !f.device.buffer_pass_open(f.staging_command_buffer)
}

/// What any drawing callback may do to the frame it is handed: the frame
/// stays well-formed, the command buffers, target and fences are left
/// alone, the call log only grows, and the staging scope is never closed.
/// Every operation [`VulkanFrame`] offers preserves this relation, and
/// `render` requires it of its callback.
pub open spec fn frame_evolves(pre: VulkanFrame, post: VulkanFrame) -> bool {
    &&& frame_wf(post)
    &&& post.command_buffer == pre.command_buffer
    &&& post.staging_command_buffer == pre.staging_command_buffer
    &&& post.target == pre.target
    &&& crate::device::same_config(pre.device, post.device)
    &&& post.device.fences_spec() == pre.device.fences_spec()
    &&& post.device.next_spec() >= pre.device.next_spec()
    &&& pre.device.calls_spec().is_prefix_of(post.device.calls_spec())
    &&& (pre.recording_staging ==> post.recording_staging)
    &&& post.tracker.max_spec() == pre.tracker.max_spec()
}

impl VulkanFrame {
    /// Stages a payload for upload within this frame, opening the staging
    /// command buffer's recording scope on first use. Fails with
    /// `AllocationLimitExceeded` -- before any device call -- when the
    /// allocation ceiling is reached.
    pub fn stage_upload(&mut self, size: u64) -> (r: Result<StagingBuffer, Error>)
        requires
            frame_wf(*old(self)),
        ensures
            frame_wf(*final(self)),
            frame_evolves(*old(self), *final(self)),
            r == Err::<StagingBuffer, Error>(Error::AllocationLimitExceeded(
                old(self).tracker.max_spec(),
            )) <==> !(old(self).tracker.live_ids().len() < old(self).tracker.max_spec() && old(self).tracker.id_bound() < u64::MAX),
            r is Err ==> {
                &&& final(self).tracker == old(self).tracker
                &&& final(self).staging.in_flight_spec() == old(self).staging.in_flight_spec()
                &&& final(self).recording_staging == old(self).recording_staging
            },
            r matches Ok(sb) ==> {
                &&& sb.size == size
                &&& !old(self).tracker.live_set().contains(sb.allocation@)
                &&& final(self).tracker.live_set() == old(self).tracker.live_set().insert(
                    sb.allocation@,
                )
                &&& final(self).tracker.live_ids().len() == old(self).tracker.live_ids().len()
                    + 1
                &&& final(self).staging.in_flight_spec() == old(self).staging.in_flight_spec().push(sb)
                &&& final(self).recording_staging
            },
    {
        let r = self.staging.stage(
            &mut self.device,
            &mut self.tracker,
            self.staging_command_buffer,
            &mut self.recording_staging,
            size,
        );
        proof {
            assert(self.device.has_buffer(self.command_buffer));
            assert(self.device.buffer_recording(self.command_buffer));
            assert(self.device.buffer_pass_open(self.command_buffer));
        }
        r
    }
}

/// The shm pixel-format code for 32-bit ARGB, one of the two baseline
/// formats every compositor must offer.
pub const SHM_FORMAT_ARGB8888: u32 = 0;

/// The shm pixel-format code for 32-bit XRGB, the other baseline format.
pub const SHM_FORMAT_XRGB8888: u32 = 1;

/// The renderer for one device: it owns the command pool with its two
/// command buffers, the completion fence, the allocation tracker, the
/// staging pool, the render-pass cache, and the currently bound target.
#[derive(Debug)]
pub struct VulkanRenderer {
    device: Device,
    tracker: AllocationTracker,
    staging: StagingBufferPool,
    renderpasses: crate::renderpass::RenderPassCache,
    command_pool: u64,
    command_buffer: u64,
    staging_command_buffer: u64,
    recording_staging: bool,
    submit_fence: u64,
    shm_formats: Vec<u32>,
    target: Option<RenderTarget>,
}

impl VulkanRenderer {
    pub closed spec fn device_spec(self) -> Device {
        self.device
    }

    pub closed spec fn tracker_spec(self) -> AllocationTracker {
        self.tracker
    }

    pub closed spec fn staging_spec(self) -> StagingBufferPool {
        self.staging
    }

    pub closed spec fn cache_spec(self) -> crate::renderpass::RenderPassCache {
        self.renderpasses
    }

    pub closed spec fn command_pool_spec(self) -> u64 {
        self.command_pool
    }

    pub closed spec fn command_buffer_spec(self) -> u64 {
        self.command_buffer
    }

    pub closed spec fn staging_command_buffer_spec(self) -> u64 {
        self.staging_command_buffer
    }

    pub closed spec fn recording_staging_spec(self) -> bool {
        self.recording_staging
    }

    pub closed spec fn fence_spec(self) -> u64 {
        self.submit_fence
    }

    pub closed spec fn shm_formats_spec(self) -> Seq<u32> {
        self.shm_formats@
    }

    pub closed spec fn target_spec(self) -> Option<RenderTarget> {
        self.target
    }

    /// The renderer's components exist on the device and cohere: the two
    /// command buffers are distinct and live, the fence is live, the
    /// staging flag mirrors the staging command buffer's recording state,
    /// the tracker is gated by the device's reported ceiling, every
    /// in-flight staging buffer is tracked, and the render-pass cache
    /// holds one pass per format, all below the device's handle bound.
    pub open spec fn wf(self) -> bool {
        &&& self.device_spec().wf()
        &&& self.tracker_spec().wf()
        &&& self.staging_spec().registered(self.tracker_spec())
        &&& self.cache_spec().wf()
        &&& self.cache_spec().bounded(self.device_spec().next_spec())
        &&& self.tracker_spec().max_spec() == self.device_spec().max_allocations_spec()
        &&& self.command_buffer_spec() != self.staging_command_buffer_spec()
        &&& self.device_spec().has_buffer(self.command_buffer_spec())
        &&& self.device_spec().has_buffer(self.staging_command_buffer_spec())
        &&& self.device_spec().has_fence(self.fence_spec())
        &&& self.device_spec().buffer_recording(self.staging_command_buffer_spec())
            == self.recording_staging_spec()
        &&& !self.device_spec().buffer_pass_open(self.staging_command_buffer_spec())
    }

    /// No frame is mid-recording: the renderer may begin a new frame.
    pub open spec fn idle(self) -> bool {
        &&& !self.device_spec().buffer_recording(self.command_buffer_spec())
        &&& !self.device_spec().buffer_pass_open(self.command_buffer_spec())
        &&& !self.recording_staging_spec()
    }

    /// The extensions a device must enable for the renderer to be built.
    pub fn required_device_extensions() -> (r: Vec<String>)
        ensures
            r@.len() == 2,
            r@[0]@ == "VK_EXT_image_drm_format_modifier"@,
            r@[1]@ == "VK_KHR_image_format_list"@,
    {
        let mut v: Vec<String> = Vec::new();
        v.push("VK_EXT_image_drm_format_modifier".to_owned());
        v.push("VK_KHR_image_format_list".to_owned());
        v
    }

    /// The extensions a device should enable to use the renderer most
    /// optimally, a superset of the required list that additionally
    /// allows buffer import and export through external memory.
    pub fn optimal_device_extensions() -> (r: Vec<String>)
        ensures
            r@.len() == 4,
            r@[0]@ == "VK_KHR_external_memory_fd"@,
            r@[1]@ == "VK_EXT_external_memory_dma_buf"@,
            r@[2]@ == "VK_EXT_image_drm_format_modifier"@,
            r@[3]@ == "VK_KHR_image_format_list"@,
    {
        let mut v: Vec<String> = Vec::new();
        v.push("VK_KHR_external_memory_fd".to_owned());
        v.push("VK_EXT_external_memory_dma_buf".to_owned());
        v.push("VK_EXT_image_drm_format_modifier".to_owned());
        v.push("VK_KHR_image_format_list".to_owned());
        v
    }

    /// Builds a renderer over an already-validated device.
    ///
    /// Checks that the two required extensions are enabled -- failing
    /// with `MissingRequiredExtensions` before any device call -- then
    /// creates the command pool, the two command buffers, the completion
    /// fence (pre-signaled, so the first frame and an immediate teardown
    /// never block), records which baseline shm formats the device
    /// supports (their absence is not fatal to construction), and
    /// pre-creates the render pass for the common 32-bit format. Any
    /// device-call failure aborts construction entirely: no
    /// partially-usable renderer is ever returned.
    pub fn new(device: Device) -> (r: Result<VulkanRenderer, Error>)
        requires
            device.wf(),
        ensures
            r is Ok <==> {
                &&& device.extensions_spec().contains("VK_EXT_image_drm_format_modifier"@)
                &&& device.extensions_spec().contains("VK_KHR_image_format_list"@)
                &&& device.fail_spec() is None
                &&& device.can_issue(5)
            },
            !(device.extensions_spec().contains("VK_EXT_image_drm_format_modifier"@)
                && device.extensions_spec().contains("VK_KHR_image_format_list"@)) ==> r
                == Err::<VulkanRenderer, Error>(Error::MissingRequiredExtensions),
            r is Err && device.extensions_spec().contains("VK_EXT_image_drm_format_modifier"@)
                && device.extensions_spec().contains("VK_KHR_image_format_list"@) ==> r
                == Err::<VulkanRenderer, Error>(Error::DeviceCallFailed(
                crate::device::err_code(device.fail_spec()),
            )),
            r matches Ok(v) ==> {
                &&& v.wf()
                &&& v.idle()
                &&& v.target_spec() is None
                &&& crate::device::same_config(device, v.device_spec())
                &&& v.device_spec().fence_signaled(v.fence_spec())
                &&& !v.device_spec().fence_pending(v.fence_spec())
                &&& v.tracker_spec().live_ids().len() == 0
                &&& v.tracker_spec().max_spec() == device.max_allocations_spec()
                &&& v.staging_spec().in_flight_spec().len() == 0
                &&& v.cache_spec().has_format(crate::renderpass::FORMAT_B8G8R8A8_SRGB)
                &&& v.device_spec().fail_spec() is None
                &&& (device.formats_spec().contains(crate::renderpass::FORMAT_B8G8R8A8_SRGB)
                    ==> v.shm_formats_spec() == seq![SHM_FORMAT_ARGB8888, SHM_FORMAT_XRGB8888])
                &&& (!device.formats_spec().contains(crate::renderpass::FORMAT_B8G8R8A8_SRGB)
                    ==> v.shm_formats_spec() == Seq::<u32>::empty())
                &&& v.device_spec().calls_spec() == device.calls_spec().push(
                    DeviceCall::CreateCommandPool {
                        queue_family_index: device.queue_family_spec(),
                    },
                ).push(DeviceCall::AllocateCommandBuffers {
                    pool: device.next_spec(),
                    count: 2u32,
                }).push(DeviceCall::CreateFence { signaled: true }).push(
                    DeviceCall::CreateRenderPass {
                        info: crate::renderpass::render_pass_info_for(
                            crate::renderpass::FORMAT_B8G8R8A8_SRGB,
                        ),
                    },
                )
            },
    {
        let mut device = device;
        let required = Self::required_device_extensions();
        if !(device.is_extension_enabled(&required[0]) && device.is_extension_enabled(
            &required[1],
        )) {
            return Err(Error::MissingRequiredExtensions);
        }
        let max_allocations = device.max_memory_allocation_count();
        let command_pool = match device.create_command_pool() {
            Ok(p) => p,
            Err(c) => {
                return Err(Error::DeviceCallFailed(c));
            },
        };
        let buffers = match device.allocate_command_buffers(command_pool) {
            Ok(bs) => bs,
            Err(c) => {
                return Err(Error::DeviceCallFailed(c));
            },
        };
        let staging_command_buffer = buffers.0;
        let command_buffer = buffers.1;
        let submit_fence = match device.create_fence(true) {
            Ok(f) => f,
            Err(c) => {
                return Err(Error::DeviceCallFailed(c));
            },
        };
        let mut shm_formats: Vec<u32> = Vec::new();
        if device.supports_format(crate::renderpass::FORMAT_B8G8R8A8_SRGB) {
            shm_formats.push(SHM_FORMAT_ARGB8888);
            shm_formats.push(SHM_FORMAT_XRGB8888);
        }
        let mut renderpasses = crate::renderpass::RenderPassCache::new();
        match renderpasses.get_or_create(&mut device, crate::renderpass::FORMAT_B8G8R8A8_SRGB) {
            Ok(_) => {},
            Err(e) => {
                match e {
                    Error::DeviceCallFailed(c) => {
                        return Err(Error::DeviceCallFailed(c));
                    },
                    _ => {
                        proof {
                            assert(false);
                        }
                        return vstd::pervasive::unreached();
                    },
                }
            },
        }
        let tracker = AllocationTracker::new(max_allocations);
        let renderer = VulkanRenderer {
            device,
            tracker,
            staging: StagingBufferPool::new(),
            renderpasses,
            command_pool,
            command_buffer,
            staging_command_buffer,
            recording_staging: false,
            submit_fence,
            shm_formats,
            target: None,
        };
        proof {
            if device.formats_spec().contains(crate::renderpass::FORMAT_B8G8R8A8_SRGB) {
                assert(renderer.shm_formats_spec() =~= seq![
                    SHM_FORMAT_ARGB8888,
                    SHM_FORMAT_XRGB8888,
                ]);
            } else {
                assert(renderer.shm_formats_spec() =~= Seq::<u32>::empty());
            }
        }
        Ok(renderer)
    }

    /// A read-only view of the device boundary: its configuration, call
    /// log and object states.
    pub fn device(&self) -> (r: &Device)
        ensures
            *r == self.device_spec(),
    {
        &self.device
    }

    /// How many allocations are outstanding.
    pub fn live_allocations(&self) -> (n: usize)
        ensures
            n == self.tracker_spec().live_ids().len(),
    {
        self.tracker.live_count()
    }

    /// How many staging buffers are in flight.
    pub fn staging_in_flight(&self) -> (n: usize)
        ensures
            n == self.staging_spec().in_flight_spec().len(),
    {
        self.staging.in_flight_count()
    }

    /// The shm format codes the renderer supports on this device.
    pub fn shm_formats(&self) -> (r: &Vec<u32>)
        ensures
            r@ == self.shm_formats_spec(),
    {
        &self.shm_formats
    }

    /// The pixel format that format-dependent features use, when the
    /// device supports the two baseline shm formats; otherwise the error
    /// that is fatal to those features (not to the renderer).
    pub fn mandatory_format(&self) -> (r: Result<u32, Error>)
        ensures
            self.shm_formats_spec().len() > 0 ==> r == Ok::<u32, Error>(
                crate::renderpass::FORMAT_B8G8R8A8_SRGB,
            ),
            self.shm_formats_spec().len() == 0 ==> r == Err::<u32, Error>(
                Error::MissingMandatoryFormats,
            ),
    {
        if self.shm_formats.len() > 0 {
            Ok(crate::renderpass::FORMAT_B8G8R8A8_SRGB)
        } else {
            Err(Error::MissingMandatoryFormats)
        }
    }

    /// Binds a render target, replacing any previously bound one. Binding
    /// does not validate that the dimensions match the framebuffer's;
    /// that is the caller's responsibility.
    pub fn bind(&mut self, framebuffer: u64, render_pass: u64, width: u32, height: u32)
        requires
            old(self).wf(),
        ensures
            final(self).wf(),
            final(self).target_spec() == Some(
                RenderTarget { framebuffer, render_pass, width, height },
            ),
            unchanged_but_target(*old(self), *final(self)),
    {
        self.target = Some(RenderTarget { framebuffer, render_pass, width, height });
    }

    /// Unbinds the current render target, if any.
    pub fn unbind(&mut self)
        requires
            old(self).wf(),
        ensures
            final(self).wf(),
            final(self).target_spec() is None,
            unchanged_but_target(*old(self), *final(self)),
    {
        self.target = None;
    }

    /// The currently bound render target, if any.
    pub fn current(&self) -> (r: Option<RenderTarget>)
        ensures
            r == self.target_spec(),
    {
        self.target
    }

    /// Returns the render pass for a pixel format, creating and caching
    /// it on first use; a hit performs no device call.
    pub fn get_or_create_renderpass(&mut self, format: u32) -> (r: Result<u64, Error>)
        requires
            old(self).wf(),
        ensures
            final(self).wf(),
            final(self).idle() == old(self).idle(),
            final(self).target_spec() == old(self).target_spec(),
            final(self).tracker_spec() == old(self).tracker_spec(),
            final(self).staging_spec() == old(self).staging_spec(),
            final(self).fence_spec() == old(self).fence_spec(),
            final(self).device_spec().fences_spec() == old(self).device_spec().fences_spec(),
            old(self).cache_spec().has_format(format) ==> {
                &&& r == Ok::<u64, Error>(old(self).cache_spec().pass_for(format))
                &&& crate::device::device_unchanged(
                    old(self).device_spec(),
                    final(self).device_spec(),
                )
            },
            !old(self).cache_spec().has_format(format) ==> crate::device::logged(
                old(self).device_spec(),
                final(self).device_spec(),
                DeviceCall::CreateRenderPass {
                    info: crate::renderpass::render_pass_info_for(format),
                },
            ),
            r matches Ok(h) ==> {
                &&& final(self).cache_spec().has_format(format)
                &&& final(self).cache_spec().pass_for(format) == h
            },
            forall|g: u32|
                g != format ==> #[trigger] final(self).cache_spec().has_format(g)
                    == old(self).cache_spec().has_format(g),
            forall|g: u32|
                g != format && old(self).cache_spec().has_format(g)
                    ==> #[trigger] final(self).cache_spec().pass_for(g)
                    == old(self).cache_spec().pass_for(g),
    {
        let r = self.renderpasses.get_or_create(&mut self.device, format);
        proof {
            assert(self.device.has_buffer(self.command_buffer));
            assert(self.device.has_buffer(self.staging_command_buffer));
        }
        r
    }

    /// Creates a framebuffer over a render pass, for the caller that
    /// binds targets.
    pub fn create_framebuffer(&mut self, render_pass: u64, width: u32, height: u32) -> (r:
        Result<u64, Error>)
        requires
            old(self).wf(),
        ensures
            final(self).wf(),
            final(self).idle() == old(self).idle(),
            final(self).target_spec() == old(self).target_spec(),
            final(self).tracker_spec() == old(self).tracker_spec(),
            final(self).staging_spec() == old(self).staging_spec(),
            final(self).fence_spec() == old(self).fence_spec(),
            final(self).cache_spec() == old(self).cache_spec(),
            crate::device::logged(
                old(self).device_spec(),
                final(self).device_spec(),
                DeviceCall::CreateFramebuffer { render_pass, width, height },
            ),
            r is Err <==> (old(self).device_spec().fail_spec() is Some || !old(self).device_spec().can_issue(1)),
            r matches Err(e) ==> e == Error::DeviceCallFailed(
                crate::device::err_code(old(self).device_spec().fail_spec()),
            ),
    {
        match self.device.create_framebuffer(render_pass, width, height) {
            Ok(h) => Ok(h),
            Err(c) => Err(Error::DeviceCallFailed(c)),
        }
    }
}

/// The frame handed to the drawing callback when `render` begins on this
/// renderer state: the renderer's own components moved in, the primary
/// command buffer opened one-time-submit and its render pass begun over
/// the render area, nothing else touched.
pub open spec fn frame_start(
    s: VulkanRenderer,
    width: u32,
    height: u32,
    f: VulkanFrame,
) -> bool {
    &&& s.target_spec() is Some
    &&& f.target == s.target_spec().unwrap()
    &&& f.command_buffer == s.command_buffer_spec()
    &&& f.staging_command_buffer == s.staging_command_buffer_spec()
    &&& !f.recording_staging
    &&& f.tracker == s.tracker_spec()
    &&& f.staging == s.staging_spec()
    &&& frame_wf(f)
    &&& crate::device::same_config(s.device_spec(), f.device)
    &&& f.device.fences_spec() == s.device_spec().fences_spec()
    &&& f.device.next_spec() == s.device_spec().next_spec()
    &&& f.device.fail_spec() is None
    &&& f.device.calls_spec() == s.device_spec().calls_spec().push(
        DeviceCall::BeginCommandBuffer { buffer: s.command_buffer_spec() },
    ).push(
        DeviceCall::BeginRenderPass {
            buffer: s.command_buffer_spec(),
            render_pass: s.target_spec().unwrap().render_pass,
            framebuffer: s.target_spec().unwrap().framebuffer,
            width,
            height,
        },
    )
}

/// The calls that close a frame whose callback left it in state `f`: the
/// render pass ends, the staging command buffer's recording ends exactly
/// when it was opened this frame, the primary command buffer ends, the
/// completion fence is reset, and the primary buffer is submitted with
/// that fence.
pub open spec fn closing_calls(f: VulkanFrame, fence: u64) -> Seq<DeviceCall> {
    let after_pass = f.device.calls_spec().push(
        DeviceCall::EndRenderPass { buffer: f.command_buffer },
    );
    let after_staging = if f.recording_staging {
        after_pass.push(DeviceCall::EndCommandBuffer { buffer: f.staging_command_buffer })
    } else {
        after_pass
    };
    after_staging.push(DeviceCall::EndCommandBuffer { buffer: f.command_buffer }).push(
        DeviceCall::ResetFence { fence },
    ).push(DeviceCall::QueueSubmit { buffer: f.command_buffer, fence })
}

/// What one frame's closing leaves behind, given the frame state `f2`
/// the drawing callback returned and its value `v`: when no fault is
/// pending, the frame was closed and submitted, its value is returned,
/// and the renderer is idle again with its fence pending; when the
/// callback injected a fault, the first closing call fails with it, the
/// fence is untouched, and the renderer is left mid-recording, with
/// teardown the only defined recovery.
pub open spec fn render_outcome<R>(
    pre: VulkanRenderer,
    post: VulkanRenderer,
    f2: VulkanFrame,
    v: R,
    r: Result<R, Error>,
) -> bool {
    &&& post.tracker_spec() == f2.tracker
    &&& post.staging_spec() == f2.staging
    &&& match f2.device.fail_spec() {
        None => {
            &&& r == Ok::<R, Error>(v)
            &&& post.idle()
            &&& post.device_spec().calls_spec() == closing_calls(f2, pre.fence_spec())
            &&& post.device_spec().fence_pending(pre.fence_spec())
            &&& !post.device_spec().fence_signaled(pre.fence_spec())
        },
        Some(c) => {
            &&& r == Err::<R, Error>(Error::DeviceCallFailed(c))
            &&& !post.idle()
            &&& post.device_spec().fences_spec() == pre.device_spec().fences_spec()
        },
    }
}

impl VulkanRenderer {
    /// Renders one frame: resolves the bound target (failing with
    /// `NoTarget` before any device call if none is bound), opens the
    /// primary command buffer and the render pass over the given render
    /// area, hands the frame to the drawing callback, then closes the
    /// render pass, ends any staging recording the callback opened, ends
    /// the primary buffer, resets the completion fence and submits.
    ///
    /// The callback's return value is propagated as the overall result.
    /// Submission is asynchronous: on success the renderer is idle and
    /// immediately callable again, without waiting on the fence. A
    /// failure before the render pass opened leaves the renderer idle; a
    /// failure after that point leaves it mid-recording, with teardown
    /// the only defined recovery.
    #[verifier::rlimit(60)]
    pub fn render<F, R>(
        &mut self,
        width: u32,
        height: u32,
        _transform: Transform,
        rendering: F,
    ) -> (r: Result<R, Error>) where F: FnOnce(VulkanFrame) -> (VulkanFrame, R)
        requires
            old(self).wf(),
            old(self).idle(),
            forall|f: VulkanFrame| #[trigger] frame_start(*old(self), width, height, f)
                ==> call_requires(rendering, (f,)),
            forall|f: VulkanFrame, g: VulkanFrame, v: R|
                frame_start(*old(self), width, height, f) && #[trigger] call_ensures(
                    rendering,
                    (f,),
                    (g, v),
                ) ==> frame_evolves(f, g),
        ensures
            final(self).wf(),
            final(self).target_spec() == old(self).target_spec(),
            final(self).cache_spec() == old(self).cache_spec(),
            final(self).fence_spec() == old(self).fence_spec(),
            final(self).command_buffer_spec() == old(self).command_buffer_spec(),
            final(self).staging_command_buffer_spec() == old(self).staging_command_buffer_spec(),
            final(self).command_pool_spec() == old(self).command_pool_spec(),
            final(self).shm_formats_spec() == old(self).shm_formats_spec(),
            old(self).target_spec() is None ==> r == Err::<R, Error>(Error::NoTarget) && *final(self) == *old(self),
            old(self).target_spec() is Some && old(self).device_spec().fail_spec() is Some ==> {
                &&& r == Err::<R, Error>(Error::DeviceCallFailed(
                    crate::device::err_code(old(self).device_spec().fail_spec()),
                ))
                &&& final(self).idle()
                &&& crate::device::logged(
                    old(self).device_spec(),
                    final(self).device_spec(),
                    DeviceCall::BeginCommandBuffer { buffer: old(self).command_buffer_spec() },
                )
                &&& final(self).device_spec().fences_spec() == old(self).device_spec().fences_spec()
                &&& final(self).tracker_spec() == old(self).tracker_spec()
                &&& final(self).staging_spec() == old(self).staging_spec()
            },
            old(self).target_spec() is Some && old(self).device_spec().fail_spec() is None
                ==> exists|f1: VulkanFrame, f2: VulkanFrame, v: R|
                #[trigger] call_ensures(rendering, (f1,), (f2, v)) && frame_start(
                    *old(self),
                    width,
                    height,
                    f1,
                ) && render_outcome(*old(self), *final(self), f2, v, r),
    {
        let target = match self.target {
            Some(t) => t,
            None => {
                return Err(Error::NoTarget);
            },
        };
        match self.device.begin_command_buffer(self.command_buffer) {
            Ok(_) => {},
            Err(c) => {
                proof {
                    assert(self.device.has_buffer(self.staging_command_buffer));
                    assert(self.device.has_fence(self.submit_fence));
                }
                return Err(Error::DeviceCallFailed(c));
            },
        }
        self.device.cmd_begin_render_pass(
            self.command_buffer,
            target.render_pass,
            target.framebuffer,
            width,
            height,
        );
        // The frame takes the renderer's components; the placeholders
        // built here swap back out when the callback returns.
        let mut frame = VulkanFrame {
            device: Device::new(Vec::new(), 0, 0, Vec::new(), 0),
            tracker: AllocationTracker::new(0),
            staging: StagingBufferPool::new(),
            command_buffer: self.command_buffer,
            staging_command_buffer: self.staging_command_buffer,
            recording_staging: false,
            target,
        };
        core::mem::swap(&mut frame.device, &mut self.device);
        core::mem::swap(&mut frame.tracker, &mut self.tracker);
        core::mem::swap(&mut frame.staging, &mut self.staging);
        let ghost f1 = frame;
        proof {
            assert(frame.device.has_buffer(frame.command_buffer));
            assert(frame.device.buffer_recording(frame.command_buffer));
            assert(frame.device.buffer_pass_open(frame.command_buffer));
            assert(frame.device.has_buffer(frame.staging_command_buffer));
            assert(frame.device.buffer_recording(frame.staging_command_buffer)
                == frame.recording_staging);
            assert(!frame.device.buffer_pass_open(frame.staging_command_buffer));
            assert(frame_wf(f1));
            assert(frame_start(*old(self), width, height, f1));
        }
        let (mut done, value) = rendering(frame);
        let ghost f2 = done;
        proof {
            assert(frame_evolves(f1, f2));
        }
        core::mem::swap(&mut done.device, &mut self.device);
        core::mem::swap(&mut done.tracker, &mut self.tracker);
        core::mem::swap(&mut done.staging, &mut self.staging);
        self.recording_staging = done.recording_staging;
        proof {
            assert(self.device == f2.device);
            assert forall|j: int| 0 <= j < self.renderpasses.entries_spec().len()
                implies #[trigger] self.renderpasses.entries_spec()[j].pass
                < self.device.next_spec() by {
                assert(old(self).cache_spec().entries_spec()[j].pass < old(self).device_spec().next_spec());
            }
            assert(self.device.has_fence(self.submit_fence));
            assert(self.device.has_buffer(self.command_buffer));
            assert(self.device.has_buffer(self.staging_command_buffer));
            assert(self.device.buffer_recording(self.command_buffer));
            assert(self.device.buffer_pass_open(self.command_buffer));
            assert(self.device.buffer_recording(self.staging_command_buffer)
                == self.recording_staging);
            assert(!self.device.buffer_pass_open(self.staging_command_buffer));
        }
        self.device.cmd_end_render_pass(self.command_buffer);
        proof {
            assert(self.device.has_buffer(self.command_buffer));
            assert(self.device.buffer_recording(self.command_buffer));
            assert(!self.device.buffer_pass_open(self.command_buffer));
            assert(self.device.has_buffer(self.staging_command_buffer));
            assert(self.device.buffer_recording(self.staging_command_buffer)
                == self.recording_staging);
            assert(!self.device.buffer_pass_open(self.staging_command_buffer));
            assert(self.device.has_fence(self.submit_fence));
        }
        if self.recording_staging {
            match self.device.end_command_buffer(self.staging_command_buffer) {
                Ok(_) => {
                    self.recording_staging = false;
                    proof {
                        assert(!self.device.buffer_recording(self.staging_command_buffer));
                        assert(!self.device.buffer_pass_open(self.staging_command_buffer));
                        assert(self.device.has_buffer(self.command_buffer));
                        assert(self.device.buffer_recording(self.command_buffer));
                        assert(!self.device.buffer_pass_open(self.command_buffer));
                        assert(self.device.has_fence(self.submit_fence));
                    }
                },
                Err(c) => {
                    proof {
                        assert(self.device.has_buffer(self.command_buffer));
                        assert(self.device.has_buffer(self.staging_command_buffer));
                        assert(self.device.has_fence(self.submit_fence));
                        assert(self.device.buffer_recording(self.command_buffer));
                        assert(self.device.buffer_recording(self.staging_command_buffer)
                            == self.recording_staging);
                        assert(!self.device.buffer_pass_open(self.staging_command_buffer));
                        assert(self.device.fences_spec() == f2.device.fences_spec());
                    }
                    return Err(Error::DeviceCallFailed(c));
                },
            }
        }
        match self.device.end_command_buffer(self.command_buffer) {
            Ok(_) => {
                proof {
                    assert(self.device.has_buffer(self.command_buffer));
                    assert(!self.device.buffer_recording(self.command_buffer));
                    assert(!self.device.buffer_pass_open(self.command_buffer));
                    assert(self.device.has_buffer(self.staging_command_buffer));
                    assert(self.device.buffer_recording(self.staging_command_buffer)
                        == self.recording_staging);
                    assert(!self.device.buffer_pass_open(self.staging_command_buffer));
                    assert(self.device.has_fence(self.submit_fence));
                }
            },
            Err(c) => {
                proof {
                    assert(self.device.has_buffer(self.command_buffer));
                    assert(self.device.has_buffer(self.staging_command_buffer));
                    assert(self.device.has_fence(self.submit_fence));
                    assert(self.device.buffer_recording(self.command_buffer));
                    assert(self.device.buffer_recording(self.staging_command_buffer)
                        == self.recording_staging);
                    assert(!self.device.buffer_pass_open(self.staging_command_buffer));
                    assert(self.device.fences_spec() == f2.device.fences_spec());
                }
                return Err(Error::DeviceCallFailed(c));
            },
        }
        match self.device.reset_fence(self.submit_fence) {
            Ok(_) => {
                proof {
                    assert(self.device.has_fence(self.submit_fence));
                    assert(!self.device.fence_signaled(self.submit_fence));
                    assert(!self.device.fence_pending(self.submit_fence));
                    assert(self.device.has_buffer(self.command_buffer));
                    assert(self.device.has_buffer(self.staging_command_buffer));
                    assert(!self.device.buffer_recording(self.command_buffer));
                    assert(self.device.buffer_recording(self.staging_command_buffer)
                        == self.recording_staging);
                    assert(!self.device.buffer_pass_open(self.staging_command_buffer));
                }
            },
            Err(c) => {
                proof {
                    assert(self.device.has_buffer(self.command_buffer));
                    assert(self.device.has_buffer(self.staging_command_buffer));
                    assert(self.device.has_fence(self.submit_fence));
                    assert(self.device.buffer_recording(self.staging_command_buffer)
                        == self.recording_staging);
                    assert(!self.device.buffer_pass_open(self.staging_command_buffer));
                    assert(self.device.fences_spec() == f2.device.fences_spec());
                }
                return Err(Error::DeviceCallFailed(c));
            },
        }
        match self.device.queue_submit(self.command_buffer, self.submit_fence) {
            Ok(_) => {
                proof {
                    assert(self.device.has_fence(self.submit_fence));
                    assert(self.device.fence_pending(self.submit_fence));
                    assert(!self.device.fence_signaled(self.submit_fence));
                    assert(self.device.has_buffer(self.command_buffer));
                    assert(self.device.has_buffer(self.staging_command_buffer));
                    assert(self.device.buffer_recording(self.staging_command_buffer)
                        == self.recording_staging);
                    assert(!self.device.buffer_pass_open(self.staging_command_buffer));
                    assert(!self.device.buffer_recording(self.command_buffer));
                    assert(!self.device.buffer_pass_open(self.command_buffer));
                    assert(self.device.calls_spec() == closing_calls(f2, old(self).fence_spec()));
                }
            },
            Err(c) => {
                proof {
                    assert(self.device.has_buffer(self.command_buffer));
                    assert(self.device.has_buffer(self.staging_command_buffer));
                    assert(self.device.has_fence(self.submit_fence));
                    assert(self.device.buffer_recording(self.staging_command_buffer)
                        == self.recording_staging);
                    assert(!self.device.buffer_pass_open(self.staging_command_buffer));
                }
                return Err(Error::DeviceCallFailed(c));
            },
        }
        Ok(value)
    }
}

/// The device calls that destroy a list of cached render passes, in
/// order.
pub open spec fn destroy_pass_calls(s: Seq<crate::renderpass::RenderPassEntry>) -> Seq<
    DeviceCall,
>
    decreases s.len(),
{
    if s.len() == 0 {
        Seq::empty()
    } else {
        destroy_pass_calls(s.drop_last()).push(
            DeviceCall::DestroyRenderPass { render_pass: s.last().pass },
        )
    }
}

impl VulkanRenderer {
    /// Reclaims every in-flight staging buffer: waits on the completion
    /// fence when a submission is pending -- proving no submitted command
    /// still reads the buffers -- then destroys them in one batch, frees
    /// their backing memory, and retires exactly one allocation
    /// identifier per buffer, returning the live count to its pre-staging
    /// value.
    pub fn reclaim_all(&mut self)
        requires
            old(self).wf(),
            old(self).idle(),
        ensures
            final(self).wf(),
            final(self).idle(),
            final(self).staging_spec().in_flight_spec() == Seq::<
                crate::staging::StagingBuffer,
            >::empty(),
            final(self).tracker_spec().live_set() == old(self).tracker_spec().live_set()
                .difference(old(self).staging_spec().ids().to_set()),
            final(self).tracker_spec().live_ids().len() == old(self).tracker_spec().live_ids().len() - old(self).staging_spec().in_flight_spec().len(),
            final(self).target_spec() == old(self).target_spec(),
            final(self).cache_spec() == old(self).cache_spec(),
            final(self).fence_spec() == old(self).fence_spec(),
            final(self).command_buffer_spec() == old(self).command_buffer_spec(),
            final(self).staging_command_buffer_spec() == old(self).staging_command_buffer_spec(),
            old(self).device_spec().fence_signaled(old(self).fence_spec()) || old(self).device_spec().fence_pending(old(self).fence_spec()) ==> {
                &&& final(self).device_spec().fence_signaled(final(self).fence_spec())
                &&& final(self).device_spec().calls_spec() == old(self).device_spec().calls_spec()
                    .push(DeviceCall::WaitForFence { fence: old(self).fence_spec() })
                    + crate::staging::reclaim_calls(old(self).staging_spec().in_flight_spec())
            },
            !(old(self).device_spec().fence_signaled(old(self).fence_spec()) || old(self).device_spec().fence_pending(old(self).fence_spec())) ==> final(self).device_spec().calls_spec() == old(self).device_spec().calls_spec()
                + crate::staging::reclaim_calls(old(self).staging_spec().in_flight_spec()),
    {
        let waitable = match self.device.fence_state(self.submit_fence) {
            Some(sp) => sp.0 || sp.1,
            None => {
                proof {
                    assert(false);
                }
                return ();
            },
        };
        if waitable {
            self.device.wait_for_fence(self.submit_fence);
            proof {
                assert(self.device.has_fence(self.submit_fence));
                assert(self.device.fence_signaled(self.submit_fence));
                assert(self.device.has_buffer(self.command_buffer));
                assert(self.device.has_buffer(self.staging_command_buffer));
                assert(self.device.buffer_recording(self.staging_command_buffer)
                    == self.recording_staging);
                assert(!self.device.buffer_pass_open(self.staging_command_buffer));
                assert(!self.device.buffer_recording(self.command_buffer));
                assert(!self.device.buffer_pass_open(self.command_buffer));
            }
        }
        proof {
            assert(self.device.has_fence(self.submit_fence));
        }
        self.staging.reclaim_all(&mut self.device, &mut self.tracker);
        proof {
            assert(self.device.has_fence(self.submit_fence));
            assert(self.device.has_buffer(self.command_buffer));
            assert(self.device.has_buffer(self.staging_command_buffer));
        }
    }

    /// Tears the renderer down, in the reverse order of acquisition:
    /// waits on the completion fence when it is signaled or has a pending
    /// submission (the fence starts pre-signaled, so a renderer that
    /// never rendered does not block; a failed submission leaves nothing
    /// in flight and the wait is skipped), frees both command buffers and
    /// destroys the command pool, destroys the fence, unbinds the target,
    /// destroys every cached render pass, and batch-frees the staging
    /// buffers -- safe now because the fence wait proved GPU completion.
    ///
    /// Returns the device handle model, which outlives the renderer.
    pub fn destroy(self) -> (d: Device)
        requires
            self.wf(),
        ensures
            d.wf(),
            crate::device::same_config(self.device_spec(), d),
            !d.has_fence(self.fence_spec()),
            !d.has_buffer(self.command_buffer_spec()),
            !d.has_buffer(self.staging_command_buffer_spec()),
            d.calls_spec() == self.device_spec().calls_spec() + (
            if self.device_spec().fence_signaled(self.fence_spec()) || self.device_spec()
                .fence_pending(self.fence_spec()) {
                seq![DeviceCall::WaitForFence { fence: self.fence_spec() }]
            } else {
                Seq::empty()
            }).push(
                DeviceCall::FreeCommandBuffers {
                    pool: self.command_pool_spec(),
                    primary: self.command_buffer_spec(),
                    staging: self.staging_command_buffer_spec(),
                },
            ).push(DeviceCall::DestroyCommandPool { pool: self.command_pool_spec() }).push(
                DeviceCall::DestroyFence { fence: self.fence_spec() },
            ) + destroy_pass_calls(self.cache_spec().entries_spec())
                + crate::staging::reclaim_calls(self.staging_spec().in_flight_spec()),
    {
        let VulkanRenderer {
            mut device,
            mut tracker,
            mut staging,
            renderpasses,
            command_pool,
            command_buffer,
            staging_command_buffer,
            recording_staging: _,
            submit_fence,
            shm_formats: _,
            target: _,
        } = self;
        let ghost d0 = device;
        let waitable = match device.fence_state(submit_fence) {
            Some(sp) => sp.0 || sp.1,
            None => {
                proof {
                    assert(false);
                }
                false
            },
        };
        if waitable {
            device.wait_for_fence(submit_fence);
            proof {
                assert(device.has_fence(submit_fence));
                assert(!device.fence_pending(submit_fence));
                assert(device.has_buffer(command_buffer));
                assert(device.has_buffer(staging_command_buffer));
            }
        }
        proof {
            assert(device.has_fence(submit_fence));
            assert(!device.fence_pending(submit_fence));
            assert(device.has_buffer(command_buffer));
            assert(device.has_buffer(staging_command_buffer));
        }
        device.free_command_buffers(command_pool, command_buffer, staging_command_buffer);
        proof {
            assert(device.has_fence(submit_fence));
            assert(!device.fence_pending(submit_fence));
        }
        device.destroy_command_pool(command_pool);
        device.destroy_fence(submit_fence);
        let ghost mid = device.calls_spec();
        proof {
            assert(mid =~= d0.calls_spec() + (
            if d0.fence_signaled(submit_fence) || d0.fence_pending(submit_fence) {
                seq![DeviceCall::WaitForFence { fence: submit_fence }]
            } else {
                Seq::<DeviceCall>::empty()
            }).push(
                DeviceCall::FreeCommandBuffers {
                    pool: command_pool,
                    primary: command_buffer,
                    staging: staging_command_buffer,
                },
            ).push(DeviceCall::DestroyCommandPool { pool: command_pool }).push(
                DeviceCall::DestroyFence { fence: submit_fence },
            ));
        }
        let entries = renderpasses.entries();
        let n: usize = entries.len();
        let mut i: usize = 0;
        proof {
            assert(destroy_pass_calls(renderpasses.entries_spec().take(0)) =~= Seq::<
                DeviceCall,
            >::empty());
            assert(device.calls_spec() =~= mid + destroy_pass_calls(
                renderpasses.entries_spec().take(0),
            ));
        }
        while i < n
            invariant
                device.wf(),
                tracker.wf(),
                staging.registered(tracker),
                n == renderpasses.entries_spec().len(),
                entries@ == renderpasses.entries_spec(),
                0 <= i <= n,
                crate::device::same_config(d0, device),
                !device.has_fence(submit_fence),
                !device.has_buffer(command_buffer),
                !device.has_buffer(staging_command_buffer),
                device.calls_spec() == mid + destroy_pass_calls(
                    renderpasses.entries_spec().take(i as int),
                ),
            decreases n - i,
        {
            let pass = entries[i].pass;
            device.destroy_render_pass(pass);
            proof {
                let taken = renderpasses.entries_spec().take(i as int + 1);
                assert(taken.drop_last() =~= renderpasses.entries_spec().take(i as int));
                assert(taken.last() == renderpasses.entries_spec()[i as int]);
                assert(device.calls_spec() =~= mid + destroy_pass_calls(taken));
            }
            i = i + 1;
        }
        proof {
            assert(renderpasses.entries_spec().take(n as int) =~= renderpasses.entries_spec());
        }
        staging.reclaim_all(&mut device, &mut tracker);
        proof {
            assert(device.calls_spec() =~= self.device_spec().calls_spec() + (
            if self.device_spec().fence_signaled(self.fence_spec()) || self.device_spec()
                .fence_pending(self.fence_spec()) {
                seq![DeviceCall::WaitForFence { fence: self.fence_spec() }]
            } else {
                Seq::<DeviceCall>::empty()
            }).push(
                DeviceCall::FreeCommandBuffers {
                    pool: self.command_pool_spec(),
                    primary: self.command_buffer_spec(),
                    staging: self.staging_command_buffer_spec(),
                },
            ).push(DeviceCall::DestroyCommandPool { pool: self.command_pool_spec() }).push(
                DeviceCall::DestroyFence { fence: self.fence_spec() },
            ) + destroy_pass_calls(self.cache_spec().entries_spec())
                + crate::staging::reclaim_calls(self.staging_spec().in_flight_spec()));
        }
        device
    }
}

impl VulkanRenderer {
    /// The primary command buffer's handle, for auditing the call log.
    pub fn command_buffer_handle(&self) -> (r: u64)
        ensures
            r == self.command_buffer_spec(),
    {
        self.command_buffer
    }

    /// The staging command buffer's handle, for auditing the call log.
    pub fn staging_command_buffer_handle(&self) -> (r: u64)
        ensures
            r == self.staging_command_buffer_spec(),
    {
        self.staging_command_buffer
    }

    /// The completion fence's handle, for auditing the call log.
    pub fn submit_fence_handle(&self) -> (r: u64)
        ensures
            r == self.fence_spec(),
    {
        self.submit_fence
    }
}

/// After a successful `render` the renderer is immediately callable
/// again, with no wait in between: a successful outcome leaves it idle
/// (and `render` always leaves it well-formed), which -- beside the next
/// callback's own conditions -- is all a new `render` requires.
/// Submission is asynchronous; only teardown and explicit reclaim paths
/// wait on the fence.
pub proof fn lemma_render_again<R>(
    pre: VulkanRenderer,
    post: VulkanRenderer,
    f2: VulkanFrame,
    v: R,
    r: Result<R, Error>,
)
    requires
        render_outcome(pre, post, f2, v, r),
        r is Ok,
    ensures
        post.idle(),
{
}

/// Only the bound target differs; every other component of the renderer
/// is unchanged.
pub open spec fn unchanged_but_target(pre: VulkanRenderer, post: VulkanRenderer) -> bool {
    &&& post.device_spec() == pre.device_spec()
    &&& post.tracker_spec() == pre.tracker_spec()
    &&& post.staging_spec() == pre.staging_spec()
    &&& post.cache_spec() == pre.cache_spec()
    &&& post.command_pool_spec() == pre.command_pool_spec()
    &&& post.command_buffer_spec() == pre.command_buffer_spec()
    &&& post.staging_command_buffer_spec() == pre.staging_command_buffer_spec()
    &&& post.recording_staging_spec() == pre.recording_staging_spec()
    &&& post.fence_spec() == pre.fence_spec()
    &&& post.shm_formats_spec() == pre.shm_formats_spec()
}

} // verus!
