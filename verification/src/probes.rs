//! The three layer-addressing probes.
//!
//! Each probe builds solid-color fixtures, allocates its textures, runs one
//! device operation under test, reads one pixel back, compares it to the
//! expected color, and releases everything it created — on the pass path
//! and on the fail path alike.  Each probe's contract pins down the pixel
//! it observes and the verdict it reports for every device behavior, so a
//! correct device is proved to pass and a buggy one to fail.

use crate::device::count_live;
use crate::device::lemma_resources_restored_counts;
use crate::device::resources_restored;
use crate::device::DriverBehavior;
use crate::device::MockDevice;
use crate::fixture::create_texture_data;
use crate::fixture::lemma_repeat_bytes_index;
use crate::pixel::black;
use crate::pixel::green;
use crate::pixel::red;
use crate::pixel::Rgba;
use vstd::prelude::*;

verus! {

/// What one probe run produced: the pixel read back, and the verdict from
/// comparing it to the expected color.
#[derive(Clone, Copy, PartialEq, Eq, Structural, Debug)]
pub struct ProbeOutcome {
    pub observed: Rgba,
    pub passed: bool,
}

/// Upload a staging buffer of red pixels to layer 1 of a two-layer array
/// texture whose layers were initialized to black, then read layer 1 back.
/// A correct device returns red; a device whose staged uploads hit layer 0
/// returns the untouched black and fails the probe.
pub fn test_pbo_to_texture_array_upload(dev: &mut MockDevice) -> (out: ProbeOutcome)
    requires
        old(dev).wf(),
    ensures
        final(dev).wf(),
        final(dev).behavior == old(dev).behavior,
        resources_restored(*old(dev), *final(dev)),
        count_live(final(dev).textures@) == count_live(old(dev).textures@),
        count_live(final(dev).buffers@) == count_live(old(dev).buffers@),
        count_live(final(dev).framebuffers@) == count_live(old(dev).framebuffers@),
        out.observed == (if old(dev).behavior == DriverBehavior::UploadHitsLayerZero {
            black()
        } else {
            red()
        }),
        out.passed == (out.observed == red()),
        out.passed == (old(dev).behavior != DriverBehavior::UploadHitsLayerZero),
{
    let black_px = Rgba::new(0, 0, 0, 255);
    let red_px = Rgba::new(255, 0, 0, 255);
    let bb = black_px.to_bytes();
    let rb = red_px.to_bytes();
    let black_data = create_texture_data(32, 32, bb.as_slice());
    let red_data = create_texture_data(32, 32, rb.as_slice());

    // A two-layer array texture, both layers initialized to black.
    let tex = dev.create_texture(32, 32, 2);
    dev.upload(tex, 0, &black_data);
    dev.upload(tex, 1, &black_data);

    // A staging buffer of red pixels, uploaded to layer 1.
    let pbo = dev.create_buffer(&red_data);
    proof {
        assert(dev.layer_bytes(tex as int, 1) == black_data@);
    }
    dev.upload_from_buffer(tex, 1, pbo);
    proof {
        if dev.behavior == DriverBehavior::UploadHitsLayerZero {
            assert(dev.layer_bytes(tex as int, 1) == black_data@);
        } else {
            assert(dev.layer_bytes(tex as int, 1) == red_data@);
        }
    }

    // Read back a pixel of layer 1.
    let fbo = dev.create_framebuffer(tex, 1);
    proof {
        if dev.behavior == DriverBehavior::UploadHitsLayerZero {
            assert(dev.layer_bytes(tex as int, 1) == black_data@);
        } else {
            assert(dev.layer_bytes(tex as int, 1) == red_data@);
        }
    }
    let pixel = dev.read_pixel(fbo, 0, 0);
    proof {
        lemma_repeat_bytes_index(red_px@, (32 * 32) as nat, 0);
        lemma_repeat_bytes_index(red_px@, (32 * 32) as nat, 1);
        lemma_repeat_bytes_index(red_px@, (32 * 32) as nat, 2);
        lemma_repeat_bytes_index(red_px@, (32 * 32) as nat, 3);
        lemma_repeat_bytes_index(black_px@, (32 * 32) as nat, 0);
        lemma_repeat_bytes_index(black_px@, (32 * 32) as nat, 1);
        lemma_repeat_bytes_index(black_px@, (32 * 32) as nat, 2);
        lemma_repeat_bytes_index(black_px@, (32 * 32) as nat, 3);
        if old(dev).behavior == DriverBehavior::UploadHitsLayerZero {
            assert(pixel == black());
        } else {
            assert(pixel == red());
        }
    }
    let passed = pixel == red_px;

    dev.delete_framebuffer(fbo);
    dev.delete_buffer(pbo);
    dev.delete_texture(tex);
    proof {
        lemma_resources_restored_counts(*old(dev), *dev);
    }
    ProbeOutcome { observed: pixel, passed }
}

/// Blit layer 0 of a red/green two-layer source array into layer 0 of a
/// two-layer destination array initialized to black, then read back layer 1
/// of the destination.  A correct device leaves it black; a device whose
/// blits also copy the layers above the requested one turns it green and
/// fails the probe.
pub fn test_blit_array_only_specified_layer(dev: &mut MockDevice) -> (out: ProbeOutcome)
    requires
        old(dev).wf(),
    ensures
        final(dev).wf(),
        final(dev).behavior == old(dev).behavior,
        resources_restored(*old(dev), *final(dev)),
        count_live(final(dev).textures@) == count_live(old(dev).textures@),
        count_live(final(dev).buffers@) == count_live(old(dev).buffers@),
        count_live(final(dev).framebuffers@) == count_live(old(dev).framebuffers@),
        out.observed == (if old(dev).behavior == DriverBehavior::BlitCopiesUpperLayers {
            green()
        } else {
            black()
        }),
        out.passed == (out.observed == black()),
        out.passed == (old(dev).behavior != DriverBehavior::BlitCopiesUpperLayers),
{
    let black_px = Rgba::new(0, 0, 0, 255);
    let red_px = Rgba::new(255, 0, 0, 255);
    let green_px = Rgba::new(0, 255, 0, 255);
    let bb = black_px.to_bytes();
    let rb = red_px.to_bytes();
    let gb = green_px.to_bytes();
    let black_data = create_texture_data(32, 32, bb.as_slice());
    let red_data = create_texture_data(32, 32, rb.as_slice());
    let green_data = create_texture_data(32, 32, gb.as_slice());

    // Source array: layer 0 red, layer 1 green.
    let src_tex = dev.create_texture(32, 32, 2);
    dev.upload(src_tex, 0, &red_data);
    dev.upload(src_tex, 1, &green_data);
    proof {
        assert(dev.layer_bytes(src_tex as int, 0) == red_data@);
    }

    // Destination array: both layers black.
    let dst_tex = dev.create_texture(32, 32, 2);
    dev.upload(dst_tex, 0, &black_data);
    dev.upload(dst_tex, 1, &black_data);
    proof {
        assert(dev.layer_bytes(src_tex as int, 0) == red_data@);
        assert(dev.layer_bytes(src_tex as int, 1) == green_data@);
        assert(dev.layer_bytes(dst_tex as int, 1) == black_data@);
    }

    // Blit layer 0 of the source into layer 0 of the destination.
    let src_fbo = dev.create_framebuffer(src_tex, 0);
    let dst_fbo = dev.create_framebuffer(dst_tex, 0);
    proof {
        assert(dev.layer_bytes(src_tex as int, 1) == green_data@);
        assert(dev.layer_bytes(dst_tex as int, 1) == black_data@);
    }
    dev.blit(src_fbo, dst_fbo);
    proof {
        if dev.behavior == DriverBehavior::BlitCopiesUpperLayers {
            assert(dev.layer_bytes(dst_tex as int, 1) == green_data@);
        } else {
            assert(dev.layer_bytes(dst_tex as int, 1) == black_data@);
        }
    }

    // Read back a pixel of layer 1 of the destination.
    let read_fbo = dev.create_framebuffer(dst_tex, 1);
    proof {
        if dev.behavior == DriverBehavior::BlitCopiesUpperLayers {
            assert(dev.layer_bytes(dst_tex as int, 1) == green_data@);
        } else {
            assert(dev.layer_bytes(dst_tex as int, 1) == black_data@);
        }
    }
    let pixel = dev.read_pixel(read_fbo, 0, 0);
    proof {
        lemma_repeat_bytes_index(green_px@, (32 * 32) as nat, 0);
        lemma_repeat_bytes_index(green_px@, (32 * 32) as nat, 1);
        lemma_repeat_bytes_index(green_px@, (32 * 32) as nat, 2);
        lemma_repeat_bytes_index(green_px@, (32 * 32) as nat, 3);
        lemma_repeat_bytes_index(black_px@, (32 * 32) as nat, 0);
        lemma_repeat_bytes_index(black_px@, (32 * 32) as nat, 1);
        lemma_repeat_bytes_index(black_px@, (32 * 32) as nat, 2);
        lemma_repeat_bytes_index(black_px@, (32 * 32) as nat, 3);
        if old(dev).behavior == DriverBehavior::BlitCopiesUpperLayers {
            assert(pixel == green());
        } else {
            assert(pixel == black());
        }
    }
    let passed = pixel == black_px;

    dev.delete_framebuffer(src_fbo);
    dev.delete_framebuffer(dst_fbo);
    dev.delete_framebuffer(read_fbo);
    dev.delete_texture(src_tex);
    dev.delete_texture(dst_tex);
    proof {
        lemma_resources_restored_counts(*old(dev), *dev);
    }
    ProbeOutcome { observed: pixel, passed }
}

/// Blit a plain red texture into layer 1 of a two-layer destination array
/// initialized to black, then read back layer 1 of the destination.  A
/// correct device returns red; a device whose blits land in layer 0
/// instead of the requested layer returns the untouched black and fails
/// the probe.
pub fn test_blit_to_texture_array(dev: &mut MockDevice) -> (out: ProbeOutcome)
    requires
        old(dev).wf(),
    ensures
        final(dev).wf(),
        final(dev).behavior == old(dev).behavior,
        resources_restored(*old(dev), *final(dev)),
        count_live(final(dev).textures@) == count_live(old(dev).textures@),
        count_live(final(dev).buffers@) == count_live(old(dev).buffers@),
        count_live(final(dev).framebuffers@) == count_live(old(dev).framebuffers@),
        out.observed == (if old(dev).behavior == DriverBehavior::BlitHitsLayerZero {
            black()
        } else {
            red()
        }),
        out.passed == (out.observed == red()),
        out.passed == (old(dev).behavior != DriverBehavior::BlitHitsLayerZero),
{
    let black_px = Rgba::new(0, 0, 0, 255);
    let red_px = Rgba::new(255, 0, 0, 255);
    let bb = black_px.to_bytes();
    let rb = red_px.to_bytes();
    let black_data = create_texture_data(32, 32, bb.as_slice());
    let red_data = create_texture_data(32, 32, rb.as_slice());

    // A plain (single-layer) source texture, filled with red.
    let src_tex = dev.create_texture(32, 32, 1);
    dev.upload(src_tex, 0, &red_data);

    // Destination array: both layers black.
    let dst_tex = dev.create_texture(32, 32, 2);
    dev.upload(dst_tex, 0, &black_data);
    dev.upload(dst_tex, 1, &black_data);

    // Blit the source into layer 1 of the destination.
    let src_fbo = dev.create_framebuffer(src_tex, 0);
    let dst_fbo = dev.create_framebuffer(dst_tex, 1);
    dev.blit(src_fbo, dst_fbo);

    // Read back a pixel of layer 1 of the destination, through the same
    // framebuffer the blit drew to.
    let pixel = dev.read_pixel(dst_fbo, 0, 0);
    proof {
        lemma_repeat_bytes_index(red_px@, (32 * 32) as nat, 0);
        lemma_repeat_bytes_index(red_px@, (32 * 32) as nat, 1);
        lemma_repeat_bytes_index(red_px@, (32 * 32) as nat, 2);
        lemma_repeat_bytes_index(red_px@, (32 * 32) as nat, 3);
        lemma_repeat_bytes_index(black_px@, (32 * 32) as nat, 0);
        lemma_repeat_bytes_index(black_px@, (32 * 32) as nat, 1);
        lemma_repeat_bytes_index(black_px@, (32 * 32) as nat, 2);
        lemma_repeat_bytes_index(black_px@, (32 * 32) as nat, 3);
        if old(dev).behavior == DriverBehavior::BlitHitsLayerZero {
            assert(pixel == black());
        } else {
            assert(pixel == red());
        }
    }
    let passed = pixel == red_px;

    dev.delete_framebuffer(src_fbo);
    dev.delete_framebuffer(dst_fbo);
    dev.delete_texture(src_tex);
    dev.delete_texture(dst_tex);
    proof {
        lemma_resources_restored_counts(*old(dev), *dev);
    }
    ProbeOutcome { observed: pixel, passed }
}

} // verus!
