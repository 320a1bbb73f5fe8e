//! A verified in-memory model of the GPU device surface the probes need:
//! textures (plain or array), staging buffers, framebuffer attachments,
//! layer uploads, blits, and single-pixel readback.
//!
//! The model's behavior is selectable: architecturally correct, or one of
//! the known driver bugs in texture-array layer addressing.  Handles are
//! slot indices; a deleted resource leaves an empty slot behind, so that
//! acquire/release balance is visible in the state itself.

use crate::pixel::Rgba;
use vstd::pervasive::unreached;
use vstd::prelude::*;

verus! {

/// How the modeled driver addresses texture-array layers.
#[derive(Clone, Copy, PartialEq, Eq, Structural, Debug)]
pub enum DriverBehavior {
    /// The architecturally correct addressing.
    Correct,
    /// A staged-buffer upload lands in layer 0, whatever layer was asked for.
    UploadHitsLayerZero,
    /// A blit into one layer also writes every layer above it.
    BlitCopiesUpperLayers,
    /// A blit into a non-zero layer lands in layer 0 instead.
    BlitHitsLayerZero,
}

/// One texture: fixed dimensions and one byte block per layer.  A plain
/// (non-array) texture is modeled as a texture with a single layer.
pub struct TextureState {
    pub width: usize,
    pub height: usize,
    pub layers: Vec<Vec<u8>>,
}

impl TextureState {
    /// Every layer holds exactly four bytes per pixel.
    pub open spec fn wf(self) -> bool {
        forall|l: int|
            0 <= l < self.layers@.len() ==> (#[trigger] self.layers@[l])@.len()
                == self.width * self.height * 4
    }
}

/// One framebuffer: an attachment of one layer of one texture.
#[derive(Clone, Copy, PartialEq, Eq, Structural, Debug)]
pub struct FramebufferState {
    pub tex: usize,
    pub layer: usize,
}

/// How many slots of a resource table are occupied.
pub open spec fn count_live<T>(slots: Seq<Option<T>>) -> nat
    decreases slots.len(),
{
    if slots.len() == 0 {
        0
    } else {
        count_live(slots.drop_last()) + if slots.last() is Some {
            1nat
        } else {
            0nat
        }
    }
}

pub proof fn lemma_count_live_le_len<T>(slots: Seq<Option<T>>)
    ensures
        count_live(slots) <= slots.len(),
    decreases slots.len(),
{
    if slots.len() > 0 {
        lemma_count_live_le_len(slots.drop_last());
    }
}

proof fn lemma_count_live_take_step<T>(slots: Seq<Option<T>>, i: int)
    requires
        0 <= i < slots.len(),
    ensures
        count_live(slots.take(i + 1)) == count_live(slots.take(i)) + if slots[i] is Some {
            1nat
        } else {
            0nat
        },
{
    assert(slots.take(i + 1).drop_last() =~= slots.take(i));
    assert(slots.take(i + 1).last() == slots[i]);
}

/// A table whose occupied slots are exactly those of `pre` has the same
/// live count, however many released slots follow them.
pub proof fn lemma_count_live_released<T>(pre: Seq<Option<T>>, post: Seq<Option<T>>)
    requires
        pre.len() <= post.len(),
        forall|i: int| 0 <= i < pre.len() ==> post[i] == pre[i],
        forall|i: int| pre.len() <= i < post.len() ==> post[i] is None,
    ensures
        count_live(post) == count_live(pre),
    decreases post.len(),
{
    if post.len() > pre.len() {
        lemma_count_live_released(pre, post.drop_last());
    } else {
        assert(post =~= pre);
    }
}

/// Acquire/release balance between two device states: every slot that was
/// occupied before is untouched, and every slot added since has been
/// released again.
pub open spec fn resources_restored(pre: MockDevice, post: MockDevice) -> bool {
    &&& pre.textures@.len() <= post.textures@.len()
    &&& forall|i: int| 0 <= i < pre.textures@.len() ==> post.textures@[i] == pre.textures@[i]
    &&& forall|i: int|
        pre.textures@.len() <= i < post.textures@.len() ==> post.textures@[i] is None
    &&& pre.buffers@.len() <= post.buffers@.len()
    &&& forall|i: int| 0 <= i < pre.buffers@.len() ==> post.buffers@[i] == pre.buffers@[i]
    &&& forall|i: int| pre.buffers@.len() <= i < post.buffers@.len() ==> post.buffers@[i] is None
    &&& pre.framebuffers@.len() <= post.framebuffers@.len()
    &&& forall|i: int|
        0 <= i < pre.framebuffers@.len() ==> post.framebuffers@[i] == pre.framebuffers@[i]
    &&& forall|i: int|
        pre.framebuffers@.len() <= i < post.framebuffers@.len() ==> post.framebuffers@[i] is None
}

/// Balanced acquire/release leaves every live-resource count unchanged:
/// for every create there was a matching delete.
pub proof fn lemma_resources_restored_counts(pre: MockDevice, post: MockDevice)
    requires
        resources_restored(pre, post),
    ensures
        count_live(post.textures@) == count_live(pre.textures@),
        count_live(post.buffers@) == count_live(pre.buffers@),
        count_live(post.framebuffers@) == count_live(pre.framebuffers@),
{
    lemma_count_live_released(pre.textures@, post.textures@);
    lemma_count_live_released(pre.buffers@, post.buffers@);
    lemma_count_live_released(pre.framebuffers@, post.framebuffers@);
}

/// The device model: one resource table per resource kind, plus the
/// addressing behavior under which it operates.
pub struct MockDevice {
    pub behavior: DriverBehavior,
    pub textures: Vec<Option<TextureState>>,
    pub buffers: Vec<Option<Vec<u8>>>,
    pub framebuffers: Vec<Option<FramebufferState>>,
}

/// The bytes of an all-zero layer of the given dimensions.
pub open spec fn zero_layer(width: nat, height: nat) -> Seq<u8> {
    Seq::new(width * height * 4, |i: int| 0u8)
}

/// Which layer a staged-buffer upload actually writes, given the layer it
/// was aimed at.
pub open spec fn staged_upload_target(behavior: DriverBehavior, layer: int) -> int {
    if behavior == DriverBehavior::UploadHitsLayerZero {
        0
    } else {
        layer
    }
}

/// The contents of layer `k` of the blit destination texture after a blit
/// from layer `sl` of texture `st` into layer `dl` of texture `dt`, under
/// the behavior of `pre`.
pub open spec fn blit_result_layer(
    pre: MockDevice,
    st: int,
    sl: int,
    dt: int,
    dl: int,
    k: int,
) -> Seq<u8> {
    if pre.behavior == DriverBehavior::BlitHitsLayerZero {
        if k == 0 {
            pre.layer_bytes(st, sl)
        } else {
            pre.layer_bytes(dt, k)
        }
    } else if pre.behavior == DriverBehavior::BlitCopiesUpperLayers {
        if dl <= k && sl + (k - dl) < pre.tex_at(st).layers@.len() {
            pre.layer_bytes(st, sl + (k - dl))
        } else {
            pre.layer_bytes(dt, k)
        }
    } else {
        if k == dl {
            pre.layer_bytes(st, sl)
        } else {
            pre.layer_bytes(dt, k)
        }
    }
}

impl MockDevice {
    pub open spec fn tex_live(self, t: int) -> bool {
        0 <= t < self.textures@.len() && self.textures@[t] is Some
    }

    pub open spec fn tex_at(self, t: int) -> TextureState {
        self.textures@[t]->Some_0
    }

    pub open spec fn layer_bytes(self, t: int, l: int) -> Seq<u8> {
        self.tex_at(t).layers@[l]@
    }

    pub open spec fn buf_live(self, b: int) -> bool {
        0 <= b < self.buffers@.len() && self.buffers@[b] is Some
    }

    pub open spec fn buf_at(self, b: int) -> Seq<u8> {
        (self.buffers@[b]->Some_0)@
    }

    pub open spec fn fbo_live(self, f: int) -> bool {
        0 <= f < self.framebuffers@.len() && self.framebuffers@[f] is Some
    }

    pub open spec fn fbo_at(self, f: int) -> FramebufferState {
        self.framebuffers@[f]->Some_0
    }

    /// Every live texture is well-formed.
    pub open spec fn wf(self) -> bool {
        forall|t: int| self.tex_live(t) ==> (#[trigger] self.tex_at(t)).wf()
    }

    pub fn new(behavior: DriverBehavior) -> (d: MockDevice)
        ensures
            d.behavior == behavior,
            d.textures@.len() == 0,
            d.buffers@.len() == 0,
            d.framebuffers@.len() == 0,
            d.wf(),
    {
        MockDevice {
            behavior,
            textures: Vec::new(),
            buffers: Vec::new(),
            framebuffers: Vec::new(),
        }
    }

    pub fn live_textures(&self) -> (n: usize)
        ensures
            n == count_live(self.textures@),
    {
        count_some_slots(&self.textures)
    }

    pub fn live_buffers(&self) -> (n: usize)
        ensures
            n == count_live(self.buffers@),
    {
        count_some_slots(&self.buffers)
    }

    pub fn live_framebuffers(&self) -> (n: usize)
        ensures
            n == count_live(self.framebuffers@),
    {
        count_some_slots(&self.framebuffers)
    }
}

fn count_some_slots<T>(slots: &Vec<Option<T>>) -> (n: usize)
    ensures
        n == count_live(slots@),
{
    let mut n: usize = 0;
    let mut i: usize = 0;
    while i < slots.len()
        invariant
            i <= slots@.len(),
            n == count_live(slots@.take(i as int)),
            n <= i,
        decreases slots@.len() - i,
    {
        proof {
            lemma_count_live_take_step(slots@, i as int);
        }
        if slots[i].is_some() {
            n = n + 1;
        }
        i = i + 1;
        proof {
            lemma_count_live_le_len(slots@.take(i as int));
        }
    }
    proof {
        assert(slots@.take(slots@.len() as int) =~= slots@);
    }
    n
}


/// `post` and `pre` agree on behavior, buffers, framebuffers, and on every
/// texture slot but `t`.
pub open spec fn same_but_texture(pre: MockDevice, post: MockDevice, t: int) -> bool {
    &&& post.behavior == pre.behavior
    &&& post.buffers == pre.buffers
    &&& post.framebuffers == pre.framebuffers
    &&& post.textures@.len() == pre.textures@.len()
    &&& forall|i: int|
        0 <= i < pre.textures@.len() && i != t ==> post.textures@[i] == pre.textures@[i]
}

/// Texture `t` is still live and keeps its dimensions and layer count.
pub open spec fn same_texture_shape(pre: MockDevice, post: MockDevice, t: int) -> bool {
    &&& post.tex_live(t)
    &&& post.tex_at(t).width == pre.tex_at(t).width
    &&& post.tex_at(t).height == pre.tex_at(t).height
    &&& post.tex_at(t).layers@.len() == pre.tex_at(t).layers@.len()
}

/// A fresh byte vector with the same contents.
fn copy_bytes(src: &Vec<u8>) -> (out: Vec<u8>)
    ensures
        out@ == src@,
{
    let mut out: Vec<u8> = Vec::new();
    let mut i: usize = 0;
    while i < src.len()
        invariant
            i <= src@.len(),
            out@ == src@.take(i as int),
        decreases src@.len() - i,
    {
        out.push(src[i]);
        proof {
            assert(src@.take(i + 1) =~= src@.take(i as int).push(src@[i as int]));
        }
        i = i + 1;
    }
    proof {
        assert(src@.take(src@.len() as int) =~= src@);
    }
    out
}

/// `len` zero bytes.
fn zero_bytes(len: usize) -> (v: Vec<u8>)
    ensures
        v@ == Seq::new(len as nat, |i: int| 0u8),
{
    let mut v: Vec<u8> = Vec::new();
    let mut i: usize = 0;
    while i < len
        invariant
            i <= len,
            v@ == Seq::new(i as nat, |j: int| 0u8),
        decreases len - i,
    {
        v.push(0u8);
        proof {
            assert(v@ =~= Seq::new((i + 1) as nat, |j: int| 0u8));
        }
        i = i + 1;
    }
    v
}

impl MockDevice {
    /// Allocate a texture with explicit storage: fixed dimensions, `layers`
    /// layers, every byte zero.
    pub fn create_texture(&mut self, width: usize, height: usize, layers: usize) -> (t: usize)
        requires
            old(self).wf(),
            width * height * 4 <= usize::MAX,
        ensures
            final(self).wf(),
            final(self).behavior == old(self).behavior,
            final(self).buffers == old(self).buffers,
            final(self).framebuffers == old(self).framebuffers,
            t == old(self).textures@.len(),
            final(self).textures@.len() == old(self).textures@.len() + 1,
            forall|i: int|
                0 <= i < old(self).textures@.len() ==> final(self).textures@[i] == old(self).textures@[i],
            final(self).tex_live(t as int),
            final(self).tex_at(t as int).width == width,
            final(self).tex_at(t as int).height == height,
            final(self).tex_at(t as int).layers@.len() == layers,
            forall|l: int|
                0 <= l < layers ==> #[trigger] final(self).layer_bytes(t as int, l) == zero_layer(
                    width as nat,
                    height as nat,
                ),
    {
        let t = self.textures.len();
        let layer_len = width * height * 4;
        let mut layer_list: Vec<Vec<u8>> = Vec::new();
        let mut l: usize = 0;
        while l < layers
            invariant
                l <= layers,
                layer_list@.len() == l,
                layer_len == width * height * 4,
                forall|j: int|
                    0 <= j < l ==> (#[trigger] layer_list@[j])@ == zero_layer(
                        width as nat,
                        height as nat,
                    ),
            decreases layers - l,
        {
            let zl = zero_bytes(layer_len);
            layer_list.push(zl);
            l = l + 1;
        }
        let tex = TextureState { width, height, layers: layer_list };
        self.textures.push(Some(tex));
        proof {
            assert forall|t2: int| self.tex_live(t2) implies (#[trigger] self.tex_at(t2)).wf() by {
                if t2 == t as int {
                    let newt = self.tex_at(t2);
                    assert forall|j: int| 0 <= j < newt.layers@.len() implies (
                    #[trigger] newt.layers@[j])@.len() == newt.width * newt.height * 4 by {
                        assert(newt.layers@[j]@ == zero_layer(width as nat, height as nat));
                    }
                } else {
                    assert(self.textures@[t2] == old(self).textures@[t2]);
                    assert(old(self).tex_live(t2));
                    assert(old(self).tex_at(t2).wf());
                    assert(self.tex_at(t2) == old(self).tex_at(t2));
                }
            }
        }
        t
    }

    /// Replace the whole contents of one layer of a live texture.
    fn write_layer(&mut self, tex: usize, layer: usize, bytes: Vec<u8>)
        requires
            old(self).wf(),
            old(self).tex_live(tex as int),
            layer < old(self).tex_at(tex as int).layers@.len(),
            bytes@.len() == old(self).tex_at(tex as int).width * old(self).tex_at(
                tex as int,
            ).height * 4,
        ensures
            final(self).wf(),
            same_but_texture(*old(self), *final(self), tex as int),
            same_texture_shape(*old(self), *final(self), tex as int),
            forall|l: int|
                0 <= l < old(self).tex_at(tex as int).layers@.len() && l != layer ==> #[trigger] final(self).layer_bytes(tex as int, l) == old(self).layer_bytes(tex as int, l),
            final(self).layer_bytes(tex as int, layer as int) == bytes@,
    {
        let mut slot: Option<TextureState> = None;
        self.textures.set_and_swap(tex, &mut slot);
        let mut t = slot.unwrap();
        t.layers.set(layer, bytes);
        self.textures.set(tex, Some(t));
        proof {
            assert forall|t2: int| self.tex_live(t2) implies (#[trigger] self.tex_at(t2)).wf() by {
                if t2 == tex as int {
                    let newt = self.tex_at(t2);
                    let oldt = old(self).tex_at(t2);
                    assert(oldt.wf());
                    assert forall|j: int| 0 <= j < newt.layers@.len() implies (
                    #[trigger] newt.layers@[j])@.len() == newt.width * newt.height * 4 by {
                        if j != layer as int {
                            assert(newt.layers@[j] == oldt.layers@[j]);
                        }
                    }
                } else {
                    assert(self.textures@[t2] == old(self).textures@[t2]);
                    assert(old(self).tex_live(t2));
                    assert(old(self).tex_at(t2).wf());
                    assert(self.tex_at(t2) == old(self).tex_at(t2));
                }
            }
        }
    }

    /// Direct (non-staged) upload of a full layer image.  Direct uploads
    /// address their layer correctly under every modeled behavior.
    pub fn upload(&mut self, tex: usize, layer: usize, data: &Vec<u8>)
        requires
            old(self).wf(),
            old(self).tex_live(tex as int),
            layer < old(self).tex_at(tex as int).layers@.len(),
            data@.len() == old(self).tex_at(tex as int).width * old(self).tex_at(
                tex as int,
            ).height * 4,
        ensures
            final(self).wf(),
            same_but_texture(*old(self), *final(self), tex as int),
            same_texture_shape(*old(self), *final(self), tex as int),
            forall|l: int|
                0 <= l < old(self).tex_at(tex as int).layers@.len() && l != layer ==> #[trigger] final(self).layer_bytes(tex as int, l) == old(self).layer_bytes(tex as int, l),
            final(self).layer_bytes(tex as int, layer as int) == data@,
    {
        let bytes = copy_bytes(data);
        self.write_layer(tex, layer, bytes);
    }

    /// Allocate a staging buffer holding a copy of `data`.
    pub fn create_buffer(&mut self, data: &Vec<u8>) -> (b: usize)
        requires
            old(self).wf(),
        ensures
            final(self).wf(),
            final(self).behavior == old(self).behavior,
            final(self).textures == old(self).textures,
            final(self).framebuffers == old(self).framebuffers,
            b == old(self).buffers@.len(),
            final(self).buffers@.len() == old(self).buffers@.len() + 1,
            forall|i: int|
                0 <= i < old(self).buffers@.len() ==> final(self).buffers@[i] == old(self).buffers@[i],
            final(self).buf_live(b as int),
            final(self).buf_at(b as int) == data@,
    {
        let b = self.buffers.len();
        let bytes = copy_bytes(data);
        self.buffers.push(Some(bytes));
        proof {
            assert forall|t2: int| self.tex_live(t2) implies (#[trigger] self.tex_at(t2)).wf() by {
                assert(old(self).tex_live(t2));
                assert(old(self).tex_at(t2).wf());
                assert(self.tex_at(t2) == old(self).tex_at(t2));
            }
        }
        b
    }

    /// Upload of a full layer image staged in a buffer.  Under
    /// `UploadHitsLayerZero` the write lands in layer 0, whatever layer was
    /// asked for; `staged_upload_target` says which layer is written.
    pub fn upload_from_buffer(&mut self, tex: usize, layer: usize, buf: usize)
        requires
            old(self).wf(),
            old(self).tex_live(tex as int),
            old(self).buf_live(buf as int),
            layer < old(self).tex_at(tex as int).layers@.len(),
            old(self).buf_at(buf as int).len() == old(self).tex_at(tex as int).width * old(self).tex_at(tex as int).height * 4,
        ensures
            final(self).wf(),
            same_but_texture(*old(self), *final(self), tex as int),
            same_texture_shape(*old(self), *final(self), tex as int),
            forall|l: int|
                0 <= l < old(self).tex_at(tex as int).layers@.len() && l != staged_upload_target(
                    old(self).behavior,
                    layer as int,
                ) ==> #[trigger] final(self).layer_bytes(tex as int, l) == old(self).layer_bytes(
                    tex as int,
                    l,
                ),
            final(self).layer_bytes(
                tex as int,
                staged_upload_target(old(self).behavior, layer as int),
            ) == old(self).buf_at(buf as int),
    {
        let bytes = self.buffer_copy(buf);
        let target: usize = if self.behavior == DriverBehavior::UploadHitsLayerZero {
            0
        } else {
            layer
        };
        self.write_layer(tex, target, bytes);
    }

    /// Create a framebuffer whose color attachment is layer `layer` of the
    /// live texture `tex`.
    pub fn create_framebuffer(&mut self, tex: usize, layer: usize) -> (f: usize)
        requires
            old(self).wf(),
            old(self).tex_live(tex as int),
            layer < old(self).tex_at(tex as int).layers@.len(),
        ensures
            final(self).wf(),
            final(self).behavior == old(self).behavior,
            final(self).textures == old(self).textures,
            final(self).buffers == old(self).buffers,
            f == old(self).framebuffers@.len(),
            final(self).framebuffers@.len() == old(self).framebuffers@.len() + 1,
            forall|i: int|
                0 <= i < old(self).framebuffers@.len() ==> final(self).framebuffers@[i] == old(self).framebuffers@[i],
            final(self).fbo_live(f as int),
            final(self).fbo_at(f as int) == (FramebufferState { tex, layer }),
    {
        let f = self.framebuffers.len();
        self.framebuffers.push(Some(FramebufferState { tex, layer }));
        proof {
            assert forall|t2: int| self.tex_live(t2) implies (#[trigger] self.tex_at(t2)).wf() by {
                assert(old(self).tex_live(t2));
                assert(old(self).tex_at(t2).wf());
                assert(self.tex_at(t2) == old(self).tex_at(t2));
            }
        }
        f
    }

    /// Release a texture; its slot stays empty.
    pub fn delete_texture(&mut self, tex: usize)
        requires
            old(self).wf(),
            old(self).tex_live(tex as int),
        ensures
            final(self).wf(),
            final(self).behavior == old(self).behavior,
            final(self).buffers == old(self).buffers,
            final(self).framebuffers == old(self).framebuffers,
            final(self).textures@ == old(self).textures@.update(
                tex as int,
                None::<TextureState>,
            ),
    {
        self.textures.set(tex, None);
        proof {
            assert forall|t2: int| self.tex_live(t2) implies (#[trigger] self.tex_at(t2)).wf() by {
                assert(self.textures@[t2] == old(self).textures@[t2]);
                assert(old(self).tex_live(t2));
                assert(old(self).tex_at(t2).wf());
                assert(self.tex_at(t2) == old(self).tex_at(t2));
            }
        }
    }

    /// Release a staging buffer; its slot stays empty.
    pub fn delete_buffer(&mut self, buf: usize)
        requires
            old(self).wf(),
            old(self).buf_live(buf as int),
        ensures
            final(self).wf(),
            final(self).behavior == old(self).behavior,
            final(self).textures == old(self).textures,
            final(self).framebuffers == old(self).framebuffers,
            final(self).buffers@ == old(self).buffers@.update(buf as int, None::<Vec<u8>>),
    {
        self.buffers.set(buf, None);
        proof {
            assert forall|t2: int| self.tex_live(t2) implies (#[trigger] self.tex_at(t2)).wf() by {
                assert(old(self).tex_live(t2));
                assert(old(self).tex_at(t2).wf());
                assert(self.tex_at(t2) == old(self).tex_at(t2));
            }
        }
    }

    /// Release a framebuffer; its slot stays empty.
    pub fn delete_framebuffer(&mut self, fbo: usize)
        requires
            old(self).wf(),
            old(self).fbo_live(fbo as int),
        ensures
            final(self).wf(),
            final(self).behavior == old(self).behavior,
            final(self).textures == old(self).textures,
            final(self).buffers == old(self).buffers,
            final(self).framebuffers@ == old(self).framebuffers@.update(
                fbo as int,
                None::<FramebufferState>,
            ),
    {
        self.framebuffers.set(fbo, None);
        proof {
            assert forall|t2: int| self.tex_live(t2) implies (#[trigger] self.tex_at(t2)).wf() by {
                assert(old(self).tex_live(t2));
                assert(old(self).tex_at(t2).wf());
                assert(self.tex_at(t2) == old(self).tex_at(t2));
            }
        }
    }

    /// The attachment of a live framebuffer.
    fn fbo_get(&self, f: usize) -> (fb: FramebufferState)
        requires
            self.fbo_live(f as int),
        ensures
            fb == self.fbo_at(f as int),
    {
        match &self.framebuffers[f] {
            Some(fb) => *fb,
            None => unreached(),
        }
    }

    /// A fresh copy of the bytes held in a live staging buffer.
    fn buffer_copy(&self, buf: usize) -> (out: Vec<u8>)
        requires
            self.buf_live(buf as int),
        ensures
            out@ == self.buf_at(buf as int),
    {
        match &self.buffers[buf] {
            Some(b) => copy_bytes(b),
            None => unreached(),
        }
    }

    /// A fresh copy of the bytes of one layer of a live texture.
    fn layer_copy(&self, tex: usize, layer: usize) -> (out: Vec<u8>)
        requires
            self.tex_live(tex as int),
            layer < self.tex_at(tex as int).layers@.len(),
        ensures
            out@ == self.layer_bytes(tex as int, layer as int),
    {
        match &self.textures[tex] {
            Some(t) => copy_bytes(&t.layers[layer]),
            None => unreached(),
        }
    }

    /// The number of layers of a live texture.
    pub fn layer_count(&self, tex: usize) -> (n: usize)
        requires
            self.tex_live(tex as int),
        ensures
            n == self.tex_at(tex as int).layers@.len(),
    {
        match &self.textures[tex] {
            Some(t) => t.layers.len(),
            None => unreached(),
        }
    }

    /// Read the four bytes of the pixel at `(x, y)` of the layer attached
    /// to a framebuffer.  The readback is the probes' sole oracle.
    pub fn read_pixel(&self, fbo: usize, x: usize, y: usize) -> (p: Rgba)
        requires
            self.wf(),
            self.fbo_live(fbo as int),
            self.tex_live(self.fbo_at(fbo as int).tex as int),
            self.fbo_at(fbo as int).layer < self.tex_at(
                self.fbo_at(fbo as int).tex as int,
            ).layers@.len(),
            x < self.tex_at(self.fbo_at(fbo as int).tex as int).width,
            y < self.tex_at(self.fbo_at(fbo as int).tex as int).height,
        ensures
            ({
                let t = self.fbo_at(fbo as int).tex as int;
                let l = self.fbo_at(fbo as int).layer as int;
                let off = 4 * (y * self.tex_at(t).width + x);
                &&& p.r == self.layer_bytes(t, l)[off]
                &&& p.g == self.layer_bytes(t, l)[off + 1]
                &&& p.b == self.layer_bytes(t, l)[off + 2]
                &&& p.a == self.layer_bytes(t, l)[off + 3]
            }),
    {
        let fb = self.fbo_get(fbo);
        match &self.textures[fb.tex] {
            Some(t) => {
                let w = t.width;
                let layer = &t.layers[fb.layer];
                let len = layer.len();
                proof {
                    assert(self.tex_at(fb.tex as int).wf());
                    assert(len == w * t.height * 4);
                    assert(y * w + x < w * t.height) by (nonlinear_arith)
                        requires
                            x < w,
                            y < t.height,
                    ;
                }
                let off = 4 * (y * w + x);
                Rgba::new(layer[off], layer[off + 1], layer[off + 2], layer[off + 3])
            },
            None => unreached(),
        }
    }

    /// A full-surface blit from the layer attached to `src_fbo` into the
    /// layer attached to `dst_fbo`, between two distinct textures of equal
    /// dimensions.  Which destination layers are actually written depends
    /// on the driver behavior; `blit_result_layer` says what each layer
    /// holds afterwards.
    pub fn blit(&mut self, src_fbo: usize, dst_fbo: usize)
        requires
            old(self).wf(),
            old(self).fbo_live(src_fbo as int),
            old(self).fbo_live(dst_fbo as int),
            old(self).tex_live(old(self).fbo_at(src_fbo as int).tex as int),
            old(self).tex_live(old(self).fbo_at(dst_fbo as int).tex as int),
            old(self).fbo_at(src_fbo as int).tex != old(self).fbo_at(dst_fbo as int).tex,
            old(self).fbo_at(src_fbo as int).layer < old(self).tex_at(
                old(self).fbo_at(src_fbo as int).tex as int,
            ).layers@.len(),
            old(self).fbo_at(dst_fbo as int).layer < old(self).tex_at(
                old(self).fbo_at(dst_fbo as int).tex as int,
            ).layers@.len(),
            old(self).tex_at(old(self).fbo_at(src_fbo as int).tex as int).width == old(self).tex_at(old(self).fbo_at(dst_fbo as int).tex as int).width,
            old(self).tex_at(old(self).fbo_at(src_fbo as int).tex as int).height == old(self).tex_at(old(self).fbo_at(dst_fbo as int).tex as int).height,
        ensures
            final(self).wf(),
            ({
                let st = old(self).fbo_at(src_fbo as int).tex as int;
                let sl = old(self).fbo_at(src_fbo as int).layer as int;
                let dt = old(self).fbo_at(dst_fbo as int).tex as int;
                let dl = old(self).fbo_at(dst_fbo as int).layer as int;
                &&& same_but_texture(*old(self), *final(self), dt)
                &&& same_texture_shape(*old(self), *final(self), dt)
                &&& forall|k: int|
                    0 <= k < old(self).tex_at(dt).layers@.len() ==> #[trigger] final(self).layer_bytes(dt, k) == blit_result_layer(*old(self), st, sl, dt, dl, k)
            }),
    {
        let sfb = self.fbo_get(src_fbo);
        let dfb = self.fbo_get(dst_fbo);
        let ghost st = sfb.tex as int;
        let ghost sl = sfb.layer as int;
        let ghost dt = dfb.tex as int;
        let ghost dl = dfb.layer as int;
        if self.behavior == DriverBehavior::BlitHitsLayerZero {
            let bytes = self.layer_copy(sfb.tex, sfb.layer);
            self.write_layer(dfb.tex, 0, bytes);
        } else if self.behavior == DriverBehavior::BlitCopiesUpperLayers {
            let scount = self.layer_count(sfb.tex);
            let dcount = self.layer_count(dfb.tex);
            let mut k: usize = dfb.layer;
            while k < dcount && k - dfb.layer < scount - sfb.layer
                invariant
                    st == sfb.tex as int,
                    sl == sfb.layer as int,
                    dt == dfb.tex as int,
                    dl == dfb.layer as int,
                    dfb.layer <= k <= dcount,
                    self.wf(),
                    old(self).wf(),
                    old(self).tex_live(st),
                    old(self).tex_live(dt),
                    st != dt,
                    sl < scount,
                    dl <= k,
                    scount == old(self).tex_at(st).layers@.len(),
                    dcount == old(self).tex_at(dt).layers@.len(),
                    old(self).tex_at(st).width == old(self).tex_at(dt).width,
                    old(self).tex_at(st).height == old(self).tex_at(dt).height,
                    same_but_texture(*old(self), *self, dt),
                    same_texture_shape(*old(self), *self, dt),
                    forall|j: int|
                        0 <= j < dcount ==> #[trigger] self.layer_bytes(dt, j) == (if dl <= j < k
                            && sl + (j - dl) < scount {
                            old(self).layer_bytes(st, sl + (j - dl))
                        } else {
                            old(self).layer_bytes(dt, j)
                        }),
                decreases dcount - k,
            {
                proof {
                    assert(self.textures@[st] == old(self).textures@[st]);
                    assert(self.tex_live(st));
                    assert(self.tex_at(st) == old(self).tex_at(st));
                    assert(self.tex_at(st).wf());
                }
                let bytes = self.layer_copy(sfb.tex, sfb.layer + (k - dfb.layer));
                proof {
                    assert(bytes@ == self.layer_bytes(st, sl + (k - dl)));
                    assert(bytes@.len() == self.tex_at(st).width * self.tex_at(st).height * 4);
                    assert(self.tex_at(dt).width == old(self).tex_at(dt).width);
                    assert(self.tex_at(dt).height == old(self).tex_at(dt).height);
                }
                self.write_layer(dfb.tex, k, bytes);
                k = k + 1;
            }
            proof {
                assert forall|k2: int| 0 <= k2 < old(self).tex_at(dt).layers@.len() implies #[trigger] self.layer_bytes(
                    dt,
                    k2,
                ) == blit_result_layer(*old(self), st, sl, dt, dl, k2) by {}
            }
        } else {
            let bytes = self.layer_copy(sfb.tex, sfb.layer);
            self.write_layer(dfb.tex, dfb.layer, bytes);
        }
    }
}

} // verus!
