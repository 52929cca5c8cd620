use vstd::prelude::*;

use crate::device::Device;
use crate::device::DeviceCall;
use crate::error::Error;

verus! {

// Values of the graphics API's enums and bit masks, as its C headers
// define them.
pub const SUBPASS_EXTERNAL: u32 = 0xffff_ffff;

pub const PIPELINE_STAGE_TOP_OF_PIPE: u32 = 0x1;

pub const PIPELINE_STAGE_COLOR_ATTACHMENT_OUTPUT: u32 = 0x400;

pub const PIPELINE_STAGE_TRANSFER: u32 = 0x1000;

pub const PIPELINE_STAGE_BOTTOM_OF_PIPE: u32 = 0x2000;

pub const PIPELINE_STAGE_HOST: u32 = 0x4000;

pub const PIPELINE_STAGE_ALL_GRAPHICS: u32 = 0x8000;

pub const ACCESS_COLOR_ATTACHMENT_WRITE: u32 = 0x100;

pub const ACCESS_TRANSFER_READ: u32 = 0x800;

pub const ACCESS_TRANSFER_WRITE: u32 = 0x1000;

pub const ACCESS_HOST_WRITE: u32 = 0x4000;

pub const ACCESS_MEMORY_READ: u32 = 0x8000;

pub const LOAD_OP_LOAD: u32 = 0;

pub const LOAD_OP_DONT_CARE: u32 = 2;

pub const STORE_OP_STORE: u32 = 0;

pub const STORE_OP_DONT_CARE: u32 = 1;

pub const IMAGE_LAYOUT_GENERAL: u32 = 1;

pub const SAMPLE_COUNT_1: u32 = 1;

/// The 32-bit pixel format the renderer pre-creates a render pass for,
/// since it is by far the most common.
pub const FORMAT_B8G8R8A8_SRGB: u32 = 50;

/// An ordering constraint between a subpass and what runs before or after
/// the render pass.
#[derive(Debug, Clone, Copy, PartialEq, Eq, Structural)]
pub struct SubpassDependency {
    pub src_subpass: u32,
    pub dst_subpass: u32,
    pub src_stage_mask: u32,
    pub dst_stage_mask: u32,
    pub src_access_mask: u32,
    pub dst_access_mask: u32,
}

/// How the single color attachment of a render pass is loaded, stored and
/// laid out.
#[derive(Debug, Clone, Copy, PartialEq, Eq, Structural)]
pub struct AttachmentDescription {
    pub format: u32,
    pub samples: u32,
    pub load_op: u32,
    pub store_op: u32,
    pub stencil_load_op: u32,
    pub stencil_store_op: u32,
    pub initial_layout: u32,
    pub final_layout: u32,
}

/// Everything a render pass of this renderer is created with: one color
/// attachment, one subpass, and exactly two subpass dependencies.
#[derive(Debug, Clone, Copy, PartialEq, Eq, Structural)]
pub struct RenderPassInfo {
    pub attachment: AttachmentDescription,
    /// The external-to-subpass dependency: prior host, transfer and
    /// color-attachment writes must be visible before the subpass draws,
    /// so staging uploads and the previous frame's output are seen.
    pub upload_dependency: SubpassDependency,
    /// The subpass-to-external dependency: the subpass's color-attachment
    /// writes are made visible to later transfer and host reads, so
    /// export or read-back after rendering observes a complete image.
    pub readback_dependency: SubpassDependency,
}

/// The exact render pass the renderer creates for a pixel format: load
/// (never clear) semantics and one general layout throughout, so partial
/// redraws keep existing framebuffer contents and reuse needs no layout
/// transition; and the two dependencies described on [`RenderPassInfo`].
pub open spec fn render_pass_info_for(format: u32) -> RenderPassInfo {
    RenderPassInfo {
        attachment: AttachmentDescription {
            format: format,
            samples: SAMPLE_COUNT_1,
            load_op: LOAD_OP_LOAD,
            store_op: STORE_OP_STORE,
            stencil_load_op: LOAD_OP_DONT_CARE,
            stencil_store_op: STORE_OP_DONT_CARE,
            initial_layout: IMAGE_LAYOUT_GENERAL,
            final_layout: IMAGE_LAYOUT_GENERAL,
        },
        upload_dependency: SubpassDependency {
            src_subpass: SUBPASS_EXTERNAL,
            dst_subpass: 0,
            src_stage_mask: PIPELINE_STAGE_HOST | PIPELINE_STAGE_TRANSFER
                | PIPELINE_STAGE_TOP_OF_PIPE | PIPELINE_STAGE_COLOR_ATTACHMENT_OUTPUT,
            dst_stage_mask: PIPELINE_STAGE_ALL_GRAPHICS,
            src_access_mask: ACCESS_HOST_WRITE | ACCESS_TRANSFER_WRITE
                | ACCESS_COLOR_ATTACHMENT_WRITE,
            dst_access_mask: 0,
        },
        readback_dependency: SubpassDependency {
            src_subpass: 0,
            dst_subpass: SUBPASS_EXTERNAL,
            src_stage_mask: PIPELINE_STAGE_COLOR_ATTACHMENT_OUTPUT,
            dst_stage_mask: PIPELINE_STAGE_TRANSFER | PIPELINE_STAGE_HOST
                | PIPELINE_STAGE_BOTTOM_OF_PIPE,
            src_access_mask: ACCESS_COLOR_ATTACHMENT_WRITE,
            dst_access_mask: ACCESS_TRANSFER_READ | ACCESS_MEMORY_READ,
        },
    }
}

/// Builds the creation record for the render pass of the given format.
pub fn build_render_pass_info(format: u32) -> (info: RenderPassInfo)
    ensures
        info == render_pass_info_for(format),
{
    RenderPassInfo {
        attachment: AttachmentDescription {
            format: format,
            samples: SAMPLE_COUNT_1,
            load_op: LOAD_OP_LOAD,
            store_op: STORE_OP_STORE,
            stencil_load_op: LOAD_OP_DONT_CARE,
            stencil_store_op: STORE_OP_DONT_CARE,
            initial_layout: IMAGE_LAYOUT_GENERAL,
            final_layout: IMAGE_LAYOUT_GENERAL,
        },
        upload_dependency: SubpassDependency {
            src_subpass: SUBPASS_EXTERNAL,
            dst_subpass: 0,
            src_stage_mask: PIPELINE_STAGE_HOST | PIPELINE_STAGE_TRANSFER
                | PIPELINE_STAGE_TOP_OF_PIPE | PIPELINE_STAGE_COLOR_ATTACHMENT_OUTPUT,
            dst_stage_mask: PIPELINE_STAGE_ALL_GRAPHICS,
            src_access_mask: ACCESS_HOST_WRITE | ACCESS_TRANSFER_WRITE
                | ACCESS_COLOR_ATTACHMENT_WRITE,
            dst_access_mask: 0,
        },
        readback_dependency: SubpassDependency {
            src_subpass: 0,
            dst_subpass: SUBPASS_EXTERNAL,
            src_stage_mask: PIPELINE_STAGE_COLOR_ATTACHMENT_OUTPUT,
            dst_stage_mask: PIPELINE_STAGE_TRANSFER | PIPELINE_STAGE_HOST
                | PIPELINE_STAGE_BOTTOM_OF_PIPE,
            src_access_mask: ACCESS_COLOR_ATTACHMENT_WRITE,
            dst_access_mask: ACCESS_TRANSFER_READ | ACCESS_MEMORY_READ,
        },
    }
}

/// One cached render pass: the pixel format it was created for and the
/// handle the device issued.
#[derive(Debug, Clone, Copy, PartialEq, Eq, Structural)]
pub struct RenderPassEntry {
    pub format: u32,
    pub pass: u64,
}

pub open spec fn seq_has_entry(s: Seq<RenderPassEntry>, format: u32) -> bool {
    exists|i: int| 0 <= i < s.len() && s[i].format == format
}

pub open spec fn seq_entry_idx(s: Seq<RenderPassEntry>, format: u32) -> int {
    choose|i: int| 0 <= i < s.len() && s[i].format == format
}

/// Lazily creates and memoizes one render pass per pixel format.
///
/// Entries are immutable once created and keyed solely by format; they
/// are never invalidated before renderer teardown. The cache never holds
/// two entries for one format, and passes of distinct formats are
/// distinct objects.
#[derive(Debug)]
pub struct RenderPassCache {
    entries: Vec<RenderPassEntry>,
}

impl RenderPassCache {
    pub closed spec fn entries_spec(self) -> Seq<RenderPassEntry> {
        self.entries@
    }

    /// Whether a pass was already created for the format.
    pub open spec fn has_format(self, format: u32) -> bool {
        seq_has_entry(self.entries_spec(), format)
    }

    /// The cached pass of a format.
    pub open spec fn pass_for(self, format: u32) -> u64 {
        self.entries_spec()[seq_entry_idx(self.entries_spec(), format)].pass
    }

    /// At most one entry per format, and no two entries share a pass.
    pub open spec fn wf(self) -> bool {
        forall|i: int, j: int|
            0 <= i < self.entries_spec().len() && 0 <= j < self.entries_spec().len() && i != j
                ==> {
                &&& self.entries_spec()[i].format != self.entries_spec()[j].format
                &&& self.entries_spec()[i].pass != self.entries_spec()[j].pass
            }
    }

    /// Every cached pass handle lies below the bound; with the bound the
    /// device's next fresh handle, a newly created pass can collide with
    /// no cached one.
    pub open spec fn bounded(self, bound: u64) -> bool {
        forall|i: int| 0 <= i < self.entries_spec().len()
            ==> #[trigger] self.entries_spec()[i].pass < bound
    }

    /// An empty cache.
    pub fn new() -> (c: RenderPassCache)
        ensures
            c.wf(),
            c.entries_spec() == Seq::<RenderPassEntry>::empty(),
            forall|b: u64| c.bounded(b),
    {
        RenderPassCache { entries: Vec::new() }
    }

    /// How many distinct formats have a pass so far.
    pub fn len(&self) -> (n: usize)
        ensures
            n == self.entries_spec().len(),
    {
        self.entries.len()
    }

    /// The cached entries, for teardown and audit.
    pub fn entries(&self) -> (r: &Vec<RenderPassEntry>)
        ensures
            r@ == self.entries_spec(),
    {
        &self.entries
    }

    /// Returns the render pass for the format, creating and caching it on
    /// first use. A hit returns the cached handle and performs no device
    /// call; a miss performs exactly one creation, with the exact
    /// load-preserving, two-dependency record of [`render_pass_info_for`].
    pub fn get_or_create(&mut self, device: &mut Device, format: u32) -> (r: Result<u64, Error>)
        requires
            old(self).wf(),
            old(self).bounded(old(device).next_spec()),
            old(device).wf(),
        ensures
            final(self).wf(),
            final(device).wf(),
            final(self).bounded(final(device).next_spec()),
            crate::device::same_config(*old(device), *final(device)),
            final(device).fences_spec() == old(device).fences_spec(),
            final(device).buffers_spec() == old(device).buffers_spec(),
            old(self).has_format(format) ==> {
                &&& r == Ok::<u64, Error>(old(self).pass_for(format))
                &&& crate::device::device_unchanged(*old(device), *final(device))
                &&& final(self).entries_spec() == old(self).entries_spec()
            },
            !old(self).has_format(format) ==> {
                &&& crate::device::logged(*old(device), *final(device),
                    DeviceCall::CreateRenderPass { info: render_pass_info_for(format) })
                &&& final(device).fail_spec() is None
                &&& (r is Err <==> (old(device).fail_spec() is Some || !old(device).can_issue(
                    1,
                )))
                &&& (r matches Err(e) ==> {
                    &&& e == Error::DeviceCallFailed(crate::device::err_code(
                        old(device).fail_spec(),
                    ))
                    &&& final(self).entries_spec() == old(self).entries_spec()
                    &&& final(device).next_spec() == old(device).next_spec()
                })
                &&& (r matches Ok(h) ==> {
                    &&& h == old(device).next_spec()
                    &&& final(device).next_spec() == old(device).next_spec() + 1
                    &&& final(self).entries_spec() == old(self).entries_spec().push(
                        RenderPassEntry { format, pass: h },
                    )
                })
            },
            r matches Ok(h) ==> {
                &&& final(self).has_format(format)
                &&& final(self).pass_for(format) == h
            },
            forall|g: u32|
                g != format ==> #[trigger] final(self).has_format(g) == old(self).has_format(g),
            forall|g: u32|
                g != format && old(self).has_format(g) ==> #[trigger] final(self).pass_for(g)
                    == old(self).pass_for(g),
    {
        let n: usize = self.entries.len();
        let mut i: usize = 0;
        while i < n
            invariant
                self.entries@ == old(self).entries@,
                *device == *old(device),
                old(self).wf(),
                old(device).wf(),
                old(self).bounded(old(device).next_spec()),
                n == self.entries@.len(),
                0 <= i <= n,
                forall|j: int| 0 <= j < i ==> self.entries@[j].format != format,
            decreases n - i,
        {
            if self.entries[i].format == format {
                proof {
                    assert forall|p: int, q: int|
                        0 <= p < self.entries@.len() && 0 <= q < self.entries@.len() && p != q
                        implies self.entries@[p].format != self.entries@[q].format by {
                        assert(old(self).entries_spec()[p].format != old(
                            self,
                        ).entries_spec()[q].format);
                    }
                    lemma_entry_lookup(self.entries@, format, i as int);
                    assert forall|j: int| 0 <= j < self.entries_spec().len()
                        implies #[trigger] self.entries_spec()[j].pass < device.next_spec() by {
                        assert(old(self).entries_spec()[j].pass < old(device).next_spec());
                    }
                }
                return Ok(self.entries[i].pass);
            }
            i = i + 1;
        }
        let info = build_render_pass_info(format);
        match device.create_render_pass(info) {
            Ok(h) => {
                let ghost pre = self.entries@;
                let entry = RenderPassEntry { format, pass: h };
                proof {
                    assert(pre == old(self).entries_spec());
                    assert forall|p: int, q: int|
                        0 <= p < pre.len() && 0 <= q < pre.len() && p != q implies pre[p].format
                        != pre[q].format by {
                        assert(old(self).entries_spec()[p].format != old(
                            self,
                        ).entries_spec()[q].format);
                    }
                    assert forall|j: int| 0 <= j < pre.len() implies #[trigger] pre[j].pass
                        < h by {
                        assert(old(self).entries_spec()[j].pass < old(device).next_spec());
                    }
                }
                self.entries.push(entry);
                proof {
                    lemma_entry_push(pre, entry);
                }
                Ok(h)
            },
            Err(c) => Err(Error::DeviceCallFailed(c)),
        }
    }
}

/// With distinct formats, the index found by search is the index the
/// specification chooses.
proof fn lemma_entry_lookup(s: Seq<RenderPassEntry>, format: u32, i: int)
    requires
        0 <= i < s.len(),
        s[i].format == format,
        forall|p: int, q: int| 0 <= p < s.len() && 0 <= q < s.len() && p != q ==> s[p].format
            != s[q].format,
    ensures
        seq_has_entry(s, format),
        seq_entry_idx(s, format) == i,
{
    assert(seq_has_entry(s, format));
    let c = seq_entry_idx(s, format);
    assert(0 <= c < s.len() && s[c].format == format);
}

/// Appending an entry for a new format keeps every other format's lookup
/// intact and makes the new one found.
proof fn lemma_entry_push(s: Seq<RenderPassEntry>, v: RenderPassEntry)
    requires
        forall|p: int, q: int| 0 <= p < s.len() && 0 <= q < s.len() && p != q ==> s[p].format
            != s[q].format,
        forall|p: int| 0 <= p < s.len() ==> s[p].format != v.format,
    ensures
        seq_has_entry(s.push(v), v.format),
        seq_entry_idx(s.push(v), v.format) == s.len(),
        s.push(v)[seq_entry_idx(s.push(v), v.format)] == v,
        forall|g: u32|
            g != v.format ==> #[trigger] seq_has_entry(s.push(v), g) == seq_has_entry(s, g),
        forall|g: u32|
            g != v.format && #[trigger] seq_has_entry(s, g) ==> s.push(v)[seq_entry_idx(
                s.push(v),
                g,
            )] == s[seq_entry_idx(s, g)],
{
    let t = s.push(v);
    assert(t[s.len() as int] == v);
    assert forall|p: int, q: int| 0 <= p < t.len() && 0 <= q < t.len() && p != q implies t[p].format
        != t[q].format by {
        if p < s.len() && q < s.len() {
        } else if p == s.len() {
            assert(t[q] == s[q]);
        } else {
            assert(t[p] == s[p]);
        }
    }
    lemma_entry_lookup(t, v.format, s.len() as int);
    assert forall|g: u32| g != v.format implies #[trigger] seq_has_entry(t, g) == seq_has_entry(
        s,
        g,
    ) by {
        if seq_has_entry(s, g) {
            let j = choose|j: int| 0 <= j < s.len() && s[j].format == g;
            assert(t[j].format == g);
        }
        if seq_has_entry(t, g) {
            let j = choose|j: int| 0 <= j < t.len() && t[j].format == g;
            assert(j != s.len());
            assert(s[j].format == g);
        }
    }
    assert forall|g: u32| g != v.format && #[trigger] seq_has_entry(s, g) implies t[seq_entry_idx(
        t,
        g,
    )] == s[seq_entry_idx(s, g)] by {
        let a = seq_entry_idx(s, g);
        assert(0 <= a < s.len() && s[a].format == g);
        assert(t[a].format == g);
        lemma_entry_lookup(t, g, a);
    }
}

/// The cache never creates more than one pass per distinct format: any
/// two entries of one format are the same entry.
pub proof fn lemma_one_pass_per_format(c: RenderPassCache, i: int, j: int)
    requires
        c.wf(),
        0 <= i < c.entries_spec().len(),
        0 <= j < c.entries_spec().len(),
        c.entries_spec()[i].format == c.entries_spec()[j].format,
    ensures
        i == j,
{
}

/// Passes cached for two distinct formats are two distinct objects.
pub proof fn lemma_distinct_formats_distinct_passes(c: RenderPassCache, f: u32, g: u32)
    requires
        c.wf(),
        c.has_format(f),
        c.has_format(g),
        f != g,
    ensures
        c.pass_for(f) != c.pass_for(g),
{
    let i = seq_entry_idx(c.entries_spec(), f);
    let j = seq_entry_idx(c.entries_spec(), g);
    assert(0 <= i < c.entries_spec().len() && c.entries_spec()[i].format == f);
    assert(0 <= j < c.entries_spec().len() && c.entries_spec()[j].format == g);
}

} // verus!
