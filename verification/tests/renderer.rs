use aerugo_render::device::Device;
use aerugo_render::device::DeviceCall;
use aerugo_render::renderpass::AttachmentDescription;
use aerugo_render::renderpass::RenderPassInfo;
use aerugo_render::renderpass::SubpassDependency;
use aerugo_render::error::Error;
use aerugo_render::renderer::Transform;
use aerugo_render::renderer::VulkanFrame;
use aerugo_render::renderer::VulkanRenderer;
use aerugo_render::renderpass::FORMAT_B8G8R8A8_SRGB;

fn test_device(max_allocations: u64) -> Device {
    Device::new(
        VulkanRenderer::required_device_extensions(),
        max_allocations,
        0,
        vec![FORMAT_B8G8R8A8_SRGB],
        2,
    )
}

fn bound_renderer(max_allocations: u64) -> VulkanRenderer {
    let mut renderer = VulkanRenderer::new(test_device(max_allocations)).unwrap();
    let pass = renderer.get_or_create_renderpass(FORMAT_B8G8R8A8_SRGB).unwrap();
    let framebuffer = renderer.create_framebuffer(pass, 256, 256).unwrap();
    renderer.bind(framebuffer, pass, 256, 256);
    renderer
}

#[test]
fn construction_requires_the_two_extensions() {
    let bare = Device::new(Vec::new(), 4096, 0, vec![FORMAT_B8G8R8A8_SRGB], 2);
    match VulkanRenderer::new(bare) {
        Err(Error::MissingRequiredExtensions) => {},
        other => panic!("expected MissingRequiredExtensions, got {:?}", other.is_ok()),
    }
}

#[test]
fn construction_failure_propagates_the_device_code() {
    let mut device = test_device(4096);
    device.inject_failure(-4);
    match VulkanRenderer::new(device) {
        Err(Error::DeviceCallFailed(code)) => assert_eq!(code, -4),
        other => panic!("expected DeviceCallFailed, got {:?}", other.is_ok()),
    }
}

#[test]
fn missing_baseline_formats_is_not_fatal_to_construction() {
    let device = Device::new(VulkanRenderer::required_device_extensions(), 4096, 0, vec![], 2);
    let renderer = VulkanRenderer::new(device).unwrap();
    assert!(renderer.shm_formats().is_empty());
    assert_eq!(renderer.mandatory_format(), Err(Error::MissingMandatoryFormats));
}

#[test]
fn supported_baseline_formats_are_reported() {
    let renderer = VulkanRenderer::new(test_device(4096)).unwrap();
    assert_eq!(renderer.shm_formats().as_slice(), [0u32, 1u32]);
    assert_eq!(renderer.mandatory_format(), Ok(FORMAT_B8G8R8A8_SRGB));
}

#[test]
fn renderpass_cache_is_identity_stable_per_format() {
    let mut renderer = VulkanRenderer::new(test_device(4096)).unwrap();
    let first = renderer.get_or_create_renderpass(FORMAT_B8G8R8A8_SRGB).unwrap();
    let calls_after_first = renderer.device().call_count();
    let second = renderer.get_or_create_renderpass(FORMAT_B8G8R8A8_SRGB).unwrap();
    // Same cached object, and the hit performed no device call.
    assert_eq!(first, second);
    assert_eq!(renderer.device().call_count(), calls_after_first);

    // A distinct format gets a distinct object, by exactly one creation.
    let other_format = 44u32;
    let third = renderer.get_or_create_renderpass(other_format).unwrap();
    assert_ne!(third, first);
    assert_eq!(renderer.device().call_count(), calls_after_first + 1);
    let fourth = renderer.get_or_create_renderpass(other_format).unwrap();
    assert_eq!(third, fourth);
    assert_eq!(renderer.device().call_count(), calls_after_first + 1);
}

#[test]
fn render_without_bind_fails_and_touches_nothing() {
    let mut renderer = VulkanRenderer::new(test_device(4096)).unwrap();
    let calls_before = renderer.device().call_count();
    let r: Result<u32, Error> = renderer.render(64, 64, Transform::Normal, |f: VulkanFrame| (
        f,
        7u32,
    ));
    assert_eq!(r, Err(Error::NoTarget));
    assert_eq!(renderer.device().call_count(), calls_before);
}

#[test]
fn render_is_immediately_callable_again() {
    let mut renderer = bound_renderer(4096);
    let first: Result<u32, Error> = renderer.render(256, 256, Transform::Normal, |f: VulkanFrame| (
        f,
        1u32,
    ));
    assert_eq!(first, Ok(1));
    // No wait in between: submission is asynchronous.
    let second: Result<u32, Error> = renderer.render(
        256,
        256,
        Transform::Normal,
        |f: VulkanFrame| (f, 2u32),
    );
    assert_eq!(second, Ok(2));
}

#[test]
fn destroying_a_renderer_that_never_rendered_does_not_block() {
    let renderer = VulkanRenderer::new(test_device(4096)).unwrap();
    let fence = renderer.submit_fence_handle();
    let device = renderer.destroy();
    let calls = device.calls();
    // The pre-signaled fence let the wait pass, and teardown ran to the end.
    assert!(calls.contains(&DeviceCall::WaitForFence { fence }));
    assert!(calls.contains(&DeviceCall::DestroyFence { fence }));
    assert!(matches!(calls.last(), Some(DeviceCall::DestroyRenderPass { .. })));
}

#[test]
fn staging_scenario_opens_and_closes_the_staging_buffer_once() {
    let mut renderer = bound_renderer(4096);
    let staging_cb = renderer.staging_command_buffer_handle();
    let before = renderer.live_allocations();

    let r = renderer.render(256, 256, Transform::Normal, |mut f: VulkanFrame| {
        let staged = f.stage_upload(64).unwrap();
        assert_eq!(staged.size, 64);
        (f, staged)
    });
    assert!(r.is_ok());

    // The staging command buffer was opened and closed exactly once.
    let calls = renderer.device().calls();
    let opens = calls
        .iter()
        .filter(|c| **c == DeviceCall::BeginCommandBuffer { buffer: staging_cb })
        .count();
    let closes = calls
        .iter()
        .filter(|c| **c == DeviceCall::EndCommandBuffer { buffer: staging_cb })
        .count();
    assert_eq!(opens, 1);
    assert_eq!(closes, 1);

    // Exactly one allocation is consumed until reclaim_all.
    assert_eq!(renderer.live_allocations(), before + 1);
    assert_eq!(renderer.staging_in_flight(), 1);
    renderer.reclaim_all();
    assert_eq!(renderer.live_allocations(), before);
    assert_eq!(renderer.staging_in_flight(), 0);
}

#[test]
fn reclaim_frees_one_allocation_per_staged_buffer() {
    let mut renderer = bound_renderer(4096);
    let before = renderer.live_allocations();
    let r: Result<u32, Error> = renderer.render(256, 256, Transform::Normal, |mut f:
        VulkanFrame| {
        f.stage_upload(16).unwrap();
        f.stage_upload(4096).unwrap();
        f.stage_upload(1).unwrap();
        (f, 0u32)
    });
    assert!(r.is_ok());
    assert_eq!(renderer.live_allocations(), before + 3);
    assert_eq!(renderer.staging_in_flight(), 3);
    renderer.reclaim_all();
    assert_eq!(renderer.live_allocations(), before);
    assert_eq!(renderer.staging_in_flight(), 0);
}

#[test]
fn the_allocation_ceiling_stops_staging() {
    let mut renderer = bound_renderer(0);
    let r = renderer.render(256, 256, Transform::Normal, |mut f: VulkanFrame| {
        let denied = f.stage_upload(64);
        (f, denied)
    });
    assert_eq!(r.unwrap(), Err(Error::AllocationLimitExceeded(0)));
    assert_eq!(renderer.live_allocations(), 0);
}

#[test]
fn a_fault_after_the_callback_aborts_the_frame() {
    let mut renderer = bound_renderer(4096);
    let r: Result<u32, Error> = renderer.render(256, 256, Transform::Normal, |mut f:
        VulkanFrame| {
        f.stage_upload(64).unwrap();
        f.device.inject_failure(-13);
        (f, 9u32)
    });
    assert_eq!(r, Err(Error::DeviceCallFailed(-13)));
    // Mid-recording failure has no defined recovery but teardown.
    let _ = renderer.destroy();
}

#[test]
fn bind_replaces_the_previous_target() {
    let mut renderer = VulkanRenderer::new(test_device(4096)).unwrap();
    assert!(renderer.current().is_none());
    let pass = renderer.get_or_create_renderpass(FORMAT_B8G8R8A8_SRGB).unwrap();
    let first = renderer.create_framebuffer(pass, 64, 64).unwrap();
    let second = renderer.create_framebuffer(pass, 256, 256).unwrap();
    renderer.bind(first, pass, 64, 64);
    let bound = renderer.current().unwrap();
    assert_eq!(bound.framebuffer, first);
    assert_eq!((bound.width, bound.height), (64, 64));
    renderer.bind(second, pass, 256, 256);
    assert_eq!(renderer.current().unwrap().framebuffer, second);
    renderer.unbind();
    assert!(renderer.current().is_none());
}

#[test]
fn construction_precreates_the_common_render_pass() {
    let mut renderer = VulkanRenderer::new(test_device(4096)).unwrap();
    let creations = renderer
        .device()
        .calls()
        .iter()
        .filter(|c| matches!(c, DeviceCall::CreateRenderPass { .. }))
        .count();
    assert_eq!(creations, 1);
    // Asking for the common format afterwards is a cache hit.
    let count = renderer.device().call_count();
    let pass = renderer.get_or_create_renderpass(FORMAT_B8G8R8A8_SRGB).unwrap();
    assert!(pass != 0);
    assert_eq!(renderer.device().call_count(), count);
}

#[test]
fn render_pass_creation_record_is_exact() {
    let mut renderer = VulkanRenderer::new(test_device(4096)).unwrap();
    let format = 44u32;
    renderer.get_or_create_renderpass(format).unwrap();
    let created = renderer
        .device()
        .calls()
        .iter()
        .rev()
        .find_map(|c| match c {
            DeviceCall::CreateRenderPass { info } => Some(*info),
            _ => None,
        })
        .unwrap();
    let expected = RenderPassInfo {
        attachment: AttachmentDescription {
            format: 44,
            samples: 0x1,
            load_op: 0,
            store_op: 0,
            stencil_load_op: 2,
            stencil_store_op: 1,
            initial_layout: 1,
            final_layout: 1,
        },
        upload_dependency: SubpassDependency {
            src_subpass: 0xffff_ffff,
            dst_subpass: 0,
            src_stage_mask: 0x5401,
            dst_stage_mask: 0x8000,
            src_access_mask: 0x5100,
            dst_access_mask: 0,
        },
        readback_dependency: SubpassDependency {
            src_subpass: 0,
            dst_subpass: 0xffff_ffff,
            src_stage_mask: 0x400,
            dst_stage_mask: 0x7000,
            src_access_mask: 0x100,
            dst_access_mask: 0x8800,
        },
    };
    assert_eq!(created, expected);
}

#[test]
fn render_records_the_render_area_over_the_bound_target() {
    let mut renderer = VulkanRenderer::new(test_device(4096)).unwrap();
    let pass = renderer.get_or_create_renderpass(FORMAT_B8G8R8A8_SRGB).unwrap();
    let framebuffer = renderer.create_framebuffer(pass, 256, 256).unwrap();
    renderer.bind(framebuffer, pass, 256, 256);
    let primary = renderer.command_buffer_handle();
    let r: Result<u32, Error> = renderer.render(200, 100, Transform::Normal, |f: VulkanFrame| (
        f,
        0u32,
    ));
    assert!(r.is_ok());
    let begin = DeviceCall::BeginRenderPass {
        buffer: primary,
        render_pass: pass,
        framebuffer,
        width: 200,
        height: 100,
    };
    assert!(renderer.device().calls().contains(&begin));
    // The frame ended with a submission of the primary buffer on the fence.
    let fence = renderer.submit_fence_handle();
    let submit = DeviceCall::QueueSubmit { buffer: primary, fence };
    assert_eq!(renderer.device().calls().last(), Some(&submit));
}
