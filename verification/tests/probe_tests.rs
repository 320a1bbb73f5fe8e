use texture_array_probe::device::DriverBehavior;
use texture_array_probe::device::MockDevice;
use texture_array_probe::pixel::Rgba;
use texture_array_probe::probes::test_blit_array_only_specified_layer;
use texture_array_probe::probes::test_blit_to_texture_array;
use texture_array_probe::probes::test_pbo_to_texture_array_upload;

#[test]
fn pbo_upload_probe_passes_on_correct_device() {
    let mut dev = MockDevice::new(DriverBehavior::Correct);
    let out = test_pbo_to_texture_array_upload(&mut dev);
    assert_eq!(out.observed, Rgba::new(255, 0, 0, 255));
    assert!(out.passed);
}

#[test]
fn pbo_upload_probe_fails_on_buggy_device() {
    let mut dev = MockDevice::new(DriverBehavior::UploadHitsLayerZero);
    let out = test_pbo_to_texture_array_upload(&mut dev);
    assert_eq!(out.observed, Rgba::new(0, 0, 0, 255));
    assert!(!out.passed);
}

#[test]
fn blit_layer_probe_passes_on_correct_device() {
    let mut dev = MockDevice::new(DriverBehavior::Correct);
    let out = test_blit_array_only_specified_layer(&mut dev);
    assert_eq!(out.observed, Rgba::new(0, 0, 0, 255));
    assert!(out.passed);
}

#[test]
fn blit_layer_probe_fails_on_buggy_device() {
    let mut dev = MockDevice::new(DriverBehavior::BlitCopiesUpperLayers);
    let out = test_blit_array_only_specified_layer(&mut dev);
    assert_eq!(out.observed, Rgba::new(0, 255, 0, 255));
    assert!(!out.passed);
}

#[test]
fn blit_to_array_probe_passes_on_correct_device() {
    let mut dev = MockDevice::new(DriverBehavior::Correct);
    let out = test_blit_to_texture_array(&mut dev);
    assert_eq!(out.observed, Rgba::new(255, 0, 0, 255));
    assert!(out.passed);
}

#[test]
fn blit_to_array_probe_fails_on_buggy_device() {
    let mut dev = MockDevice::new(DriverBehavior::BlitHitsLayerZero);
    let out = test_blit_to_texture_array(&mut dev);
    assert_eq!(out.observed, Rgba::new(0, 0, 0, 255));
    assert!(!out.passed);
}

#[test]
fn probes_ignore_unrelated_bugs() {
    let mut dev = MockDevice::new(DriverBehavior::BlitHitsLayerZero);
    assert!(test_pbo_to_texture_array_upload(&mut dev).passed);
    assert!(test_blit_array_only_specified_layer(&mut dev).passed);

    let mut dev = MockDevice::new(DriverBehavior::UploadHitsLayerZero);
    assert!(test_blit_array_only_specified_layer(&mut dev).passed);
    assert!(test_blit_to_texture_array(&mut dev).passed);

    let mut dev = MockDevice::new(DriverBehavior::BlitCopiesUpperLayers);
    assert!(test_pbo_to_texture_array_upload(&mut dev).passed);
    assert!(test_blit_to_texture_array(&mut dev).passed);
}

#[test]
fn probes_release_every_resource_on_pass() {
    let mut dev = MockDevice::new(DriverBehavior::Correct);
    test_pbo_to_texture_array_upload(&mut dev);
    test_blit_array_only_specified_layer(&mut dev);
    test_blit_to_texture_array(&mut dev);
    assert_eq!(dev.live_textures(), 0);
    assert_eq!(dev.live_buffers(), 0);
    assert_eq!(dev.live_framebuffers(), 0);
}

#[test]
fn probes_release_every_resource_on_fail() {
    let mut dev = MockDevice::new(DriverBehavior::UploadHitsLayerZero);
    test_pbo_to_texture_array_upload(&mut dev);
    let mut dev2 = MockDevice::new(DriverBehavior::BlitCopiesUpperLayers);
    test_blit_array_only_specified_layer(&mut dev2);
    let mut dev3 = MockDevice::new(DriverBehavior::BlitHitsLayerZero);
    test_blit_to_texture_array(&mut dev3);
    assert_eq!(dev.live_textures(), 0);
    assert_eq!(dev.live_buffers(), 0);
    assert_eq!(dev.live_framebuffers(), 0);
    assert_eq!(dev2.live_textures(), 0);
    assert_eq!(dev2.live_framebuffers(), 0);
    assert_eq!(dev3.live_textures(), 0);
    assert_eq!(dev3.live_framebuffers(), 0);
}

#[test]
fn probes_leave_prior_resources_alone() {
    let mut dev = MockDevice::new(DriverBehavior::Correct);
    let tex = dev.create_texture(2, 2, 1);
    test_pbo_to_texture_array_upload(&mut dev);
    test_blit_array_only_specified_layer(&mut dev);
    test_blit_to_texture_array(&mut dev);
    assert_eq!(dev.live_textures(), 1);
    assert_eq!(dev.live_buffers(), 0);
    assert_eq!(dev.live_framebuffers(), 0);
    dev.delete_texture(tex);
    assert_eq!(dev.live_textures(), 0);
}
