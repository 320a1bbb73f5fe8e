use texture_array_probe::device::DriverBehavior;
use texture_array_probe::device::MockDevice;
use texture_array_probe::fixture::create_texture_data;
use texture_array_probe::pixel::Rgba;

#[test]
fn create_and_delete_balance_counts() {
    let mut dev = MockDevice::new(DriverBehavior::Correct);
    let tex = dev.create_texture(4, 4, 2);
    let data = create_texture_data(4, 4, &[1, 2, 3, 4]);
    let buf = dev.create_buffer(&data);
    let fbo = dev.create_framebuffer(tex, 0);
    assert_eq!(dev.live_textures(), 1);
    assert_eq!(dev.live_buffers(), 1);
    assert_eq!(dev.live_framebuffers(), 1);
    dev.delete_framebuffer(fbo);
    dev.delete_buffer(buf);
    dev.delete_texture(tex);
    assert_eq!(dev.live_textures(), 0);
    assert_eq!(dev.live_buffers(), 0);
    assert_eq!(dev.live_framebuffers(), 0);
}

#[test]
fn fresh_texture_reads_back_zero() {
    let mut dev = MockDevice::new(DriverBehavior::Correct);
    let tex = dev.create_texture(8, 8, 2);
    let fbo = dev.create_framebuffer(tex, 1);
    let p = dev.read_pixel(fbo, 3, 5);
    assert_eq!(p, Rgba::new(0, 0, 0, 0));
}

#[test]
fn direct_upload_reads_back_uploaded_color() {
    let mut dev = MockDevice::new(DriverBehavior::Correct);
    let tex = dev.create_texture(8, 8, 2);
    let data = create_texture_data(8, 8, &[10, 20, 30, 40]);
    dev.upload(tex, 1, &data);
    let fbo = dev.create_framebuffer(tex, 1);
    assert_eq!(dev.read_pixel(fbo, 7, 7), Rgba::new(10, 20, 30, 40));
}

#[test]
fn staged_upload_targets_requested_layer_on_correct_device() {
    let mut dev = MockDevice::new(DriverBehavior::Correct);
    let tex = dev.create_texture(4, 4, 2);
    let red = create_texture_data(4, 4, &[255, 0, 0, 255]);
    let buf = dev.create_buffer(&red);
    dev.upload_from_buffer(tex, 1, buf);
    let fbo1 = dev.create_framebuffer(tex, 1);
    assert_eq!(dev.read_pixel(fbo1, 0, 0), Rgba::new(255, 0, 0, 255));
    let fbo0 = dev.create_framebuffer(tex, 0);
    assert_eq!(dev.read_pixel(fbo0, 0, 0), Rgba::new(0, 0, 0, 0));
}

#[test]
fn staged_upload_lands_in_layer_zero_on_buggy_device() {
    let mut dev = MockDevice::new(DriverBehavior::UploadHitsLayerZero);
    let tex = dev.create_texture(4, 4, 2);
    let red = create_texture_data(4, 4, &[255, 0, 0, 255]);
    let buf = dev.create_buffer(&red);
    dev.upload_from_buffer(tex, 1, buf);
    let fbo1 = dev.create_framebuffer(tex, 1);
    assert_eq!(dev.read_pixel(fbo1, 0, 0), Rgba::new(0, 0, 0, 0));
    let fbo0 = dev.create_framebuffer(tex, 0);
    assert_eq!(dev.read_pixel(fbo0, 0, 0), Rgba::new(255, 0, 0, 255));
}

#[test]
fn blit_copies_only_requested_layer_on_correct_device() {
    let mut dev = MockDevice::new(DriverBehavior::Correct);
    let src = dev.create_texture(4, 4, 2);
    let dst = dev.create_texture(4, 4, 2);
    let red = create_texture_data(4, 4, &[255, 0, 0, 255]);
    let green = create_texture_data(4, 4, &[0, 255, 0, 255]);
    dev.upload(src, 0, &red);
    dev.upload(src, 1, &green);
    let sfbo = dev.create_framebuffer(src, 0);
    let dfbo = dev.create_framebuffer(dst, 0);
    dev.blit(sfbo, dfbo);
    let read0 = dev.create_framebuffer(dst, 0);
    let read1 = dev.create_framebuffer(dst, 1);
    assert_eq!(dev.read_pixel(read0, 0, 0), Rgba::new(255, 0, 0, 255));
    assert_eq!(dev.read_pixel(read1, 0, 0), Rgba::new(0, 0, 0, 0));
}

#[test]
fn blit_spills_into_upper_layers_on_buggy_device() {
    let mut dev = MockDevice::new(DriverBehavior::BlitCopiesUpperLayers);
    let src = dev.create_texture(4, 4, 2);
    let dst = dev.create_texture(4, 4, 2);
    let red = create_texture_data(4, 4, &[255, 0, 0, 255]);
    let green = create_texture_data(4, 4, &[0, 255, 0, 255]);
    dev.upload(src, 0, &red);
    dev.upload(src, 1, &green);
    let sfbo = dev.create_framebuffer(src, 0);
    let dfbo = dev.create_framebuffer(dst, 0);
    dev.blit(sfbo, dfbo);
    let read1 = dev.create_framebuffer(dst, 1);
    assert_eq!(dev.read_pixel(read1, 0, 0), Rgba::new(0, 255, 0, 255));
}

#[test]
fn blit_lands_in_layer_zero_on_buggy_device() {
    let mut dev = MockDevice::new(DriverBehavior::BlitHitsLayerZero);
    let src = dev.create_texture(4, 4, 1);
    let dst = dev.create_texture(4, 4, 2);
    let red = create_texture_data(4, 4, &[255, 0, 0, 255]);
    dev.upload(src, 0, &red);
    let sfbo = dev.create_framebuffer(src, 0);
    let dfbo = dev.create_framebuffer(dst, 1);
    dev.blit(sfbo, dfbo);
    let read0 = dev.create_framebuffer(dst, 0);
    let read1 = dev.create_framebuffer(dst, 1);
    assert_eq!(dev.read_pixel(read0, 0, 0), Rgba::new(255, 0, 0, 255));
    assert_eq!(dev.read_pixel(read1, 0, 0), Rgba::new(0, 0, 0, 0));
}
