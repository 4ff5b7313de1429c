//! Kernel mode-setting: the objects that the kernel reports and the atomic
//! commits that the compositor sends. The structures hold as plain values
//! what the kernel hands back; the calls themselves are made elsewhere.
use vstd::prelude::*;
use vstd::string::StringSliceAdditionalSpecFns;

verus! {

/// The resources of a card: the ids of its framebuffers, CRTCs, connectors
/// and encoders, and the size limits.
pub struct Card {
    pub fb_ids: Vec<u32>,
    pub crtc_ids: Vec<u32>,
    pub connector_ids: Vec<u32>,
    pub encoder_ids: Vec<u32>,
    pub min_width: u32,
    pub max_width: u32,
    pub min_height: u32,
    pub max_height: u32,
}

impl Card {
    pub fn fb_ids(&self) -> (r: &[u32])
        ensures
            r@ == self.fb_ids@,
    {
        self.fb_ids.as_slice()
    }

    pub fn crtc_ids(&self) -> (r: &[u32])
        ensures
            r@ == self.crtc_ids@,
    {
        self.crtc_ids.as_slice()
    }

    pub fn connector_ids(&self) -> (r: &[u32])
        ensures
            r@ == self.connector_ids@,
    {
        self.connector_ids.as_slice()
    }

    pub fn encoder_ids(&self) -> (r: &[u32])
        ensures
            r@ == self.encoder_ids@,
    {
        self.encoder_ids.as_slice()
    }
}

/// A display mode.
#[derive(Clone, Copy, Debug)]
pub struct ModeInfo {
    pub clock: u32,
    pub hdisplay: u16,
    pub hsync_start: u16,
    pub hsync_end: u16,
    pub htotal: u16,
    pub hskew: u16,
    pub vdisplay: u16,
    pub vsync_start: u16,
    pub vsync_end: u16,
    pub vtotal: u16,
    pub vscan: u16,
    pub vrefresh: u32,
    pub flags: u32,
    pub typee: u32,
    pub name: [u8; 32],
}

/// The bytes of a mode as the kernel lays it out, in the given byte order:
/// the clock, the ten 16-bit timings, the refresh rate, flags and type, then
/// the name.
#[verifier::opaque]
pub open spec fn mode_bytes(m: ModeInfo, le: bool) -> Seq<u8> {
    crate::elp::bytes::u32_bytes(m.clock, le) + crate::elp::bytes::u16_bytes(m.hdisplay, le)
        + crate::elp::bytes::u16_bytes(m.hsync_start, le) + crate::elp::bytes::u16_bytes(
        m.hsync_end,
        le,
    ) + crate::elp::bytes::u16_bytes(m.htotal, le) + crate::elp::bytes::u16_bytes(m.hskew, le)
        + crate::elp::bytes::u16_bytes(m.vdisplay, le) + crate::elp::bytes::u16_bytes(
        m.vsync_start,
        le,
    ) + crate::elp::bytes::u16_bytes(m.vsync_end, le) + crate::elp::bytes::u16_bytes(m.vtotal, le)
        + crate::elp::bytes::u16_bytes(m.vscan, le) + crate::elp::bytes::u32_bytes(m.vrefresh, le)
        + crate::elp::bytes::u32_bytes(m.flags, le) + crate::elp::bytes::u32_bytes(m.typee, le)
        + m.name@
}

impl ModeInfo {
    /// The mode as the bytes of a property blob.
    pub fn to_bytes(&self, little_endian: bool) -> (r: Vec<u8>)
        ensures
            r@ == mode_bytes(*self, little_endian),
            r@.len() == 68,
    {
        let mut out: Vec<u8> = Vec::new();
        crate::elp::bytes::push_u32(&mut out, self.clock, little_endian);
        crate::elp::bytes::push_u16(&mut out, self.hdisplay, little_endian);
        crate::elp::bytes::push_u16(&mut out, self.hsync_start, little_endian);
        crate::elp::bytes::push_u16(&mut out, self.hsync_end, little_endian);
        crate::elp::bytes::push_u16(&mut out, self.htotal, little_endian);
        crate::elp::bytes::push_u16(&mut out, self.hskew, little_endian);
        crate::elp::bytes::push_u16(&mut out, self.vdisplay, little_endian);
        crate::elp::bytes::push_u16(&mut out, self.vsync_start, little_endian);
        crate::elp::bytes::push_u16(&mut out, self.vsync_end, little_endian);
        crate::elp::bytes::push_u16(&mut out, self.vtotal, little_endian);
        crate::elp::bytes::push_u16(&mut out, self.vscan, little_endian);
        crate::elp::bytes::push_u32(&mut out, self.vrefresh, little_endian);
        crate::elp::bytes::push_u32(&mut out, self.flags, little_endian);
        crate::elp::bytes::push_u32(&mut out, self.typee, little_endian);
        let ghost before = out@;
        let mut i: usize = 0;
        while i < 32
            invariant
                i <= 32,
                self.name@.len() == 32,
                out@ == before + self.name@.take(i as int),
            decreases 32 - i,
        {
            out.push(self.name[i]);
            proof {
                assert(self.name@.take(i + 1) =~= self.name@.take(i as int).push(self.name@[i as int]));
            }
            i = i + 1;
        }
        proof {
            reveal(mode_bytes);
            assert(self.name@.take(32) =~= self.name@);
            assert(out@ =~= mode_bytes(*self, little_endian));
        }
        out
    }
}

/// The bytes of a mode give back its clock, its visible size and its
/// refresh rate at their offsets.
pub proof fn lemma_mode_bytes_round_trip(m: ModeInfo, le: bool)
    ensures
        crate::elp::bytes::u32_at(mode_bytes(m, le), 0, le) == m.clock,
        crate::elp::bytes::u16_at(mode_bytes(m, le), 4, le) == m.hdisplay,
        crate::elp::bytes::u16_at(mode_bytes(m, le), 14, le) == m.vdisplay,
        crate::elp::bytes::u32_at(mode_bytes(m, le), 24, le) == m.vrefresh,
{
    let clock = crate::elp::bytes::u32_bytes(m.clock, le);
    let h = crate::elp::bytes::u16_bytes(m.hdisplay, le);
    let t1 = crate::elp::bytes::u16_bytes(m.hsync_start, le) + crate::elp::bytes::u16_bytes(m.hsync_end, le) + crate::elp::bytes::u16_bytes(m.htotal, le)
        + crate::elp::bytes::u16_bytes(m.hskew, le);
    let v = crate::elp::bytes::u16_bytes(m.vdisplay, le);
    let t2 = crate::elp::bytes::u16_bytes(m.vsync_start, le) + crate::elp::bytes::u16_bytes(m.vsync_end, le) + crate::elp::bytes::u16_bytes(m.vtotal, le)
        + crate::elp::bytes::u16_bytes(m.vscan, le);
    let r = crate::elp::bytes::u32_bytes(m.vrefresh, le);
    let tail = crate::elp::bytes::u32_bytes(m.flags, le) + crate::elp::bytes::u32_bytes(m.typee, le) + m.name@;
    lemma_mode_bytes_split(m, le);
    lemma_field_at(clock, h, t1, v, t2, r, tail, le);
    assert(clock.len() == 4 && h.len() == 2 && t1.len() == 8 && v.len() == 2 && t2.len() == 8);
    crate::elp::bytes::lemma_u32_round_trip(m.clock, le, Seq::empty(), h + t1 + v + t2 + r + tail);
    crate::elp::bytes::lemma_u16_round_trip(m.hdisplay, le, clock, t1 + v + t2 + r + tail);
    crate::elp::bytes::lemma_u16_round_trip(m.vdisplay, le, clock + h + t1, t2 + r + tail);
    crate::elp::bytes::lemma_u32_round_trip(m.vrefresh, le, clock + h + t1 + v + t2, tail);
}

/// The bytes of a mode, grouped around the fields that are read back.
proof fn lemma_mode_bytes_split(m: ModeInfo, le: bool)
    ensures
        mode_bytes(m, le) == crate::elp::bytes::u32_bytes(m.clock, le) + crate::elp::bytes::u16_bytes(m.hdisplay, le) + (crate::elp::bytes::u16_bytes(
            m.hsync_start,
            le,
        ) + crate::elp::bytes::u16_bytes(m.hsync_end, le) + crate::elp::bytes::u16_bytes(m.htotal, le) + crate::elp::bytes::u16_bytes(m.hskew, le))
            + crate::elp::bytes::u16_bytes(m.vdisplay, le) + (crate::elp::bytes::u16_bytes(m.vsync_start, le) + crate::elp::bytes::u16_bytes(
            m.vsync_end,
            le,
        ) + crate::elp::bytes::u16_bytes(m.vtotal, le) + crate::elp::bytes::u16_bytes(m.vscan, le)) + crate::elp::bytes::u32_bytes(m.vrefresh, le)
            + (crate::elp::bytes::u32_bytes(m.flags, le) + crate::elp::bytes::u32_bytes(m.typee, le) + m.name@),
{
    reveal(mode_bytes);
    assert(mode_bytes(m, le) =~= crate::elp::bytes::u32_bytes(m.clock, le) + crate::elp::bytes::u16_bytes(m.hdisplay, le) + (crate::elp::bytes::u16_bytes(
            m.hsync_start,
            le,
        ) + crate::elp::bytes::u16_bytes(m.hsync_end, le) + crate::elp::bytes::u16_bytes(m.htotal, le) + crate::elp::bytes::u16_bytes(m.hskew, le))
            + crate::elp::bytes::u16_bytes(m.vdisplay, le) + (crate::elp::bytes::u16_bytes(m.vsync_start, le) + crate::elp::bytes::u16_bytes(
            m.vsync_end,
            le,
        ) + crate::elp::bytes::u16_bytes(m.vtotal, le) + crate::elp::bytes::u16_bytes(m.vscan, le)) + crate::elp::bytes::u32_bytes(m.vrefresh, le)
            + (crate::elp::bytes::u32_bytes(m.flags, le) + crate::elp::bytes::u32_bytes(m.typee, le) + m.name@));
}

/// Regrouping a concatenation around each of the fields that are read back.
proof fn lemma_field_at(
    clock: Seq<u8>,
    h: Seq<u8>,
    t1: Seq<u8>,
    v: Seq<u8>,
    t2: Seq<u8>,
    r: Seq<u8>,
    tail: Seq<u8>,
    le: bool,
)
    ensures
        clock + h + t1 + v + t2 + r + tail == Seq::<u8>::empty() + clock + (h + t1 + v + t2 + r + tail),
        clock + h + t1 + v + t2 + r + tail == clock + h + (t1 + v + t2 + r + tail),
        clock + h + t1 + v + t2 + r + tail == (clock + h + t1) + v + (t2 + r + tail),
        clock + h + t1 + v + t2 + r + tail == (clock + h + t1 + v + t2) + r + tail,
{
    assert(clock + h + t1 + v + t2 + r + tail =~= Seq::<u8>::empty() + clock + (h + t1 + v + t2 + r + tail));
    assert(clock + h + t1 + v + t2 + r + tail =~= clock + h + (t1 + v + t2 + r + tail));
    assert(clock + h + t1 + v + t2 + r + tail =~= (clock + h + t1) + v + (t2 + r + tail));
    assert(clock + h + t1 + v + t2 + r + tail =~= (clock + h + t1 + v + t2) + r + tail);
}

/// A connector with its encoders, modes and properties.
pub struct Connector {
    pub encoders: Vec<u32>,
    pub modes: Vec<ModeInfo>,
    pub props: Vec<u32>,
    pub prop_values: Vec<u64>,
    pub encoder_id: u32,
    pub connector_id: u32,
    pub connector_type: u32,
    pub connector_type_id: u32,
    pub connection: u32,
    pub mm_width: u32,
    pub mm_height: u32,
    pub subpixel: u32,
    pub pad: u32,
}

impl Connector {
    pub fn modes(&self) -> (r: &[ModeInfo])
        ensures
            r@ == self.modes@,
    {
        self.modes.as_slice()
    }
}

/// An encoder.
#[derive(Clone, Copy, PartialEq, Eq, Structural, Debug)]
pub struct Encoder {
    pub encoder_id: u32,
    pub encoder_type: u32,
    pub crtc_id: u32,
    pub possible_crtcs: u32,
    pub possible_clones: u32,
}

/// A request to add a framebuffer.
#[derive(Clone, Copy, PartialEq, Eq, Structural, Debug)]
pub struct FbCmd {
    pub fb_id: u32,
    pub width: u32,
    pub height: u32,
    pub pitch: u32,
    pub bpp: u32,
    pub depth: u32,
    pub handle: u32,
}

/// A request to add a framebuffer with a format and up to four planes.
#[derive(Clone, Copy, Debug)]
pub struct FbCmd2 {
    pub fb_id: u32,
    pub width: u32,
    pub height: u32,
    pub pixel_format: u32,
    pub flags: u32,
    pub handles: [u32; 4],
    pub pitches: [u32; 4],
    pub offsets: [u32; 4],
    pub modifier: [u64; 4],
}

/// A CRTC and the mode it drives.
pub struct Crtc {
    pub set_connectors: Vec<u32>,
    pub crtc_id: u32,
    pub fb_id: u32,
    pub x: u32,
    pub y: u32,
    pub gamma_size: u32,
    pub mode_valid: u32,
    pub mode: ModeInfo,
}

/// A page flip request.
#[derive(Clone, Copy, PartialEq, Eq, Structural, Debug)]
pub struct CrtcPageFlip {
    pub crtc_id: u32,
    pub fb_id: u32,
    pub flags: u32,
    pub reserved: u32,
    pub user_data: u64,
}

/// The planes of a card.
pub struct PlaneResources {
    pub plane_ids: Vec<u32>,
}

impl PlaneResources {
    pub fn plane_ids(&self) -> (r: &[u32])
        ensures
            r@ == self.plane_ids@,
    {
        self.plane_ids.as_slice()
    }
}

/// A plane and the formats it takes.
pub struct Plane {
    pub plane_id: u32,
    pub crtc_id: u32,
    pub fb_id: u32,
    pub possible_crtcs: u32,
    pub gamma_size: u32,
    pub format_types: Vec<u32>,
}

/// The properties of an object: ids and current values, in the same order.
pub struct Props {
    pub prop_ids: Vec<u32>,
    pub prop_values: Vec<u64>,
    pub obj_id: u32,
    pub obj_type: u32,
}

impl Props {
    pub fn prop_ids(&self) -> (r: &[u32])
        ensures
            r@ == self.prop_ids@,
    {
        self.prop_ids.as_slice()
    }

    pub fn prop_values(&self) -> (r: &[u64])
        ensures
            r@ == self.prop_values@,
    {
        self.prop_values.as_slice()
    }
}

/// The description of a property: its name is NUL-terminated.
pub struct Prop {
    pub values: Vec<u64>,
    pub prop_id: u32,
    pub flags: u32,
    pub name: [u8; 32],
    pub count_enum_blobs: u32,
}

/// A property blob.
pub struct Blob {
    pub data: Vec<u8>,
    pub blob_id: u32,
}

/// A client capability to set.
#[derive(Clone, Copy, PartialEq, Eq, Structural, Debug)]
pub struct ClientCapability {
    pub capability: u64,
    pub value: u64,
}

/// A mode-setting object with an id.
pub trait Object {
    spec fn id_spec(&self) -> u32;

    fn get_id(&self) -> (r: u32)
        ensures
            r == self.id_spec(),
    ;
}

impl Object for Connector {
    open spec fn id_spec(&self) -> u32 {
        self.connector_id
    }

    fn get_id(&self) -> (r: u32) {
        self.connector_id
    }
}

impl Object for Crtc {
    open spec fn id_spec(&self) -> u32 {
        self.crtc_id
    }

    fn get_id(&self) -> (r: u32) {
        self.crtc_id
    }
}

impl Object for Plane {
    open spec fn id_spec(&self) -> u32 {
        self.plane_id
    }

    fn get_id(&self) -> (r: u32) {
        self.plane_id
    }
}

/// The property changes of an atomic commit being built: object id,
/// property id and value, in the order they were added.
pub struct AtomicHelper {
    pub props: Vec<(u32, u32, u64)>,
}

impl AtomicHelper {
    /// An empty commit.
    pub fn new() -> (r: Self)
        ensures
            r.props@ == Seq::<(u32, u32, u64)>::empty(),
    {
        AtomicHelper { props: Vec::new() }
    }

    /// Adds the change of one property of `object`.
    pub fn add_property<O: Object>(&mut self, object: &O, property_id: u32, value: u64)
        ensures
            final(self).props@ == old(self).props@.push((object.id_spec(), property_id, value)),
    {
        self.props.push((object.get_id(), property_id, value));
    }

    /// Forgets all changes.
    pub fn clear(&mut self)
        ensures
            final(self).props@ == Seq::<(u32, u32, u64)>::empty(),
    {
        self.props.clear();
    }
}

/// The object ids of a list of property changes, one per run of changes to
/// the same object, and the length of each run. A run starts wherever the
/// object differs from the one before; the first change starts a run unless
/// its object id is `u32::MAX`.
pub open spec fn group_runs(props: Seq<(u32, u32, u64)>) -> (Seq<u32>, Seq<u32>)
    decreases props.len(),
{
    if props.len() == 0 {
        (Seq::empty(), Seq::empty())
    } else {
        let (objs, counts) = group_runs(props.drop_last());
        let prev = if props.len() == 1 {
            u32::MAX
        } else {
            props[props.len() - 2].0
        };
        if props.last().0 != prev {
            (objs.push(props.last().0), counts.push(1u32))
        } else {
            (objs, counts.update(counts.len() - 1, (counts.last() + 1) as u32))
        }
    }
}

/// The sum of a list of counts.
pub open spec fn total(counts: Seq<u32>) -> int
    decreases counts.len(),
{
    if counts.len() == 0 {
        0
    } else {
        total(counts.drop_last()) + counts.last()
    }
}

/// An atomic commit as the kernel takes it: the objects, the number of
/// properties of each, and all property ids and values in order.
pub struct AtomicCommit {
    pub flags: u32,
    pub objs: Vec<u32>,
    pub count_props: Vec<u32>,
    pub props: Vec<u32>,
    pub prop_values: Vec<u64>,
    pub reserved: u64,
    pub user_data: u64,
}

/// The runs of a list of property changes whose first object id is not
/// `u32::MAX`: as many counts as objects, every count at least 1 and at most
/// the number of changes, the counts add up to the number of changes,
/// neighbouring objects differ, and the last object is that of the last
/// change.
pub proof fn lemma_group_runs(props: Seq<(u32, u32, u64)>)
    requires
        props.len() > 0 ==> props[0].0 != u32::MAX,
        props.len() <= i32::MAX,
    ensures
        group_runs(props).0.len() == group_runs(props).1.len(),
        total(group_runs(props).1) == props.len(),
        forall|i: int|
            0 <= i < group_runs(props).1.len() ==> 1 <= #[trigger] group_runs(props).1[i]
                <= props.len(),
        forall|i: int|
            0 <= i < group_runs(props).0.len() - 1 ==> #[trigger] group_runs(props).0[i]
                != group_runs(props).0[i + 1],
        props.len() > 0 ==> group_runs(props).0.len() > 0 && group_runs(props).0.last()
            == props.last().0,
        props.len() == 0 ==> group_runs(props).0.len() == 0,
    decreases props.len(),
{
    if props.len() > 0 {
        let rest = props.drop_last();
        if rest.len() > 0 {
            assert(rest[0] == props[0]);
        }
        lemma_group_runs(rest);
        let (objs, counts) = group_runs(rest);
        if props.len() >= 2 {
            assert(rest.last() == props[props.len() - 2]);
        }
        let (o2, c2) = group_runs(props);
        let prev = if props.len() == 1 {
            u32::MAX
        } else {
            props[props.len() - 2].0
        };
        if props.last().0 != prev {
            assert(c2.drop_last() =~= counts);
            assert(o2.drop_last() =~= objs);
            assert(total(c2) == total(counts) + 1);
            assert forall|i: int| 0 <= i < c2.len() implies 1 <= #[trigger] c2[i] <= props.len() by {
                if i < c2.len() - 1 {
                    assert(c2[i] == counts[i]);
                }
            }
            assert forall|i: int| 0 <= i < o2.len() - 1 implies #[trigger] o2[i] != o2[i + 1] by {
                if i < o2.len() - 2 {
                    assert(o2[i] == objs[i]);
                    assert(o2[i + 1] == objs[i + 1]);
                }
            }
        } else {
            assert(props.len() >= 2);
            assert(counts.len() > 0);
            assert(c2.drop_last() =~= counts.drop_last());
            assert(total(counts) == total(counts.drop_last()) + counts.last());
            assert(total(c2) == total(c2.drop_last()) + c2.last());
            assert forall|i: int| 0 <= i < c2.len() implies 1 <= #[trigger] c2[i] <= props.len() by {
                if i < c2.len() - 1 {
                    assert(c2[i] == counts[i]);
                }
            }
        }
    }
}

impl AtomicCommit {
    /// The commit that sends the changes of `ctx`, grouped by object.
    pub fn new(ctx: &AtomicHelper, flags: u32, user_data: u64) -> (r: AtomicCommit)
        requires
            ctx.props.len() > 0 ==> ctx.props@[0].0 != u32::MAX,
            ctx.props.len() <= i32::MAX,
        ensures
            r.flags == flags,
            r.user_data == user_data,
            r.reserved == 0,
            r.objs@ == group_runs(ctx.props@).0,
            r.count_props@ == group_runs(ctx.props@).1,
            r.props@.len() == ctx.props@.len(),
            r.prop_values@.len() == ctx.props@.len(),
            forall|i: int| 0 <= i < ctx.props@.len() ==> #[trigger] r.props@[i] == ctx.props@[i].1,
            forall|i: int|
                0 <= i < ctx.props@.len() ==> #[trigger] r.prop_values@[i] == ctx.props@[i].2,
    {
        let mut objs: Vec<u32> = Vec::new();
        let mut prop_counts: Vec<u32> = Vec::new();
        let mut props: Vec<u32> = Vec::new();
        let mut prop_values: Vec<u64> = Vec::new();
        let mut old: u32 = u32::MAX;
        let mut i: usize = 0;
        while i < ctx.props.len()
            invariant
                i <= ctx.props.len(),
                ctx.props.len() > 0 ==> ctx.props@[0].0 != u32::MAX,
                ctx.props.len() <= i32::MAX,
                (objs@, prop_counts@) == group_runs(ctx.props@.take(i as int)),
                old == if i == 0 {
                    u32::MAX
                } else {
                    ctx.props@[i - 1].0
                },
                props@.len() == i,
                prop_values@.len() == i,
                forall|k: int| 0 <= k < i ==> #[trigger] props@[k] == ctx.props@[k].1,
                forall|k: int| 0 <= k < i ==> #[trigger] prop_values@[k] == ctx.props@[k].2,
            decreases ctx.props.len() - i,
        {
            let (obj, prop, value) = ctx.props[i];
            let ghost pre = ctx.props@.take(i as int);
            let ghost next = ctx.props@.take(i + 1);
            proof {
                assert(next.drop_last() =~= pre);
                assert(next.last() == ctx.props@[i as int]);
                if i > 0 {
                    assert(next[i - 1] == ctx.props@[i - 1]);
                    assert(pre[0] == ctx.props@[0]);
                }
                lemma_group_runs(pre);
            }
            if obj != old {
                objs.push(obj);
                prop_counts.push(0);
                old = obj;
            }
            let last = prop_counts.len() - 1;
            let c = prop_counts[last];
            prop_counts.set(last, c + 1);
            props.push(prop);
            prop_values.push(value);
            i = i + 1;
        }
        proof {
            assert(ctx.props@.take(ctx.props.len() as int) =~= ctx.props@);
        }
        AtomicCommit {
            flags,
            objs,
            count_props: prop_counts,
            props,
            prop_values,
            reserved: 0,
            user_data,
        }
    }
}

/// The bytes of a NUL-terminated name before the terminator.
pub open spec fn c_name(name: Seq<u8>) -> Seq<u8> {
    match name.index_of_first(0u8) {
        Some(n) => name.take(n),
        None => name,
    }
}

/// The name is NUL-terminated and its text is valid UTF-8.
pub open spec fn name_wf(name: Seq<u8>) -> bool {
    name.contains(0u8) && vstd::utf8::valid_utf8(c_name(name))
}

/// The position of the first NUL of a name.
fn nul_position(name: &[u8; 32]) -> (r: Option<usize>)
    ensures
        match r {
            Some(n) => name@.index_of_first(0u8) == Some(n as int),
            None => name@.index_of_first(0u8) is None,
        },
{
    let mut i: usize = 0;
    while i < 32
        invariant
            i <= 32,
            name@.len() == 32,
            forall|k: int| 0 <= k < i ==> name@[k] != 0u8,
        decreases 32 - i,
    {
        if name[i] == 0u8 {
            proof {
                assert(name@[i as int] == 0u8);
                name@.index_of_first_ensures(0u8);
                let j = name@.index_of_first(0u8)->0;
                if j < i {
                    assert(name@[j] != 0u8);
                }
                if j > i {
                    assert(name@[i as int] != 0u8);
                }
            }
            return Some(i);
        }
        i = i + 1;
    }
    proof {
        name@.index_of_first_ensures(0u8);
    }
    None
}

/// Whether the NUL-terminated `name` equals `text`.
fn name_is(name: &[u8; 32], text: &[u8]) -> (r: bool)
    requires
        name@.contains(0u8),
    ensures
        r == (c_name(name@) == text@),
{
    proof {
        name@.index_of_first_ensures(0u8);
    }
    let n = match nul_position(name) {
        Some(n) => n,
        None => {
            return false;
        },
    };
    if n != text.len() {
        proof {
            assert(c_name(name@).len() == n);
        }
        return false;
    }
    let mut i: usize = 0;
    while i < n
        invariant
            i <= n,
            n == text@.len(),
            n <= 32,
            name@.len() == 32,
            c_name(name@) == name@.take(n as int),
            forall|k: int| 0 <= k < i ==> name@[k] == text@[k],
        decreases n - i,
    {
        if name[i] != text[i] {
            proof {
                assert(c_name(name@)[i as int] == name@[i as int]);
            }
            return false;
        }
        i = i + 1;
    }
    proof {
        assert(c_name(name@) =~= text@);
    }
    true
}

/// An object with its properties and their descriptions:
/// `prop_info[i]` describes `props.prop_ids[i]`.
pub struct PropWrapper<T: Object> {
    pub props: Props,
    pub prop_info: Vec<Prop>,
    pub object: T,
}

/// The property at `k` has the name `property`.
pub open spec fn prop_named<T: Object>(w: &PropWrapper<T>, k: int, property: Seq<u8>) -> bool {
    c_name(w.prop_info@[k].name@) == property
}

/// Looking up `property` reads the names in order until one matches; each
/// name read is NUL-terminated text.
pub open spec fn lookup_defined<T: Object>(w: &PropWrapper<T>, property: Seq<u8>) -> bool {
    forall|k: int|
        #![trigger w.prop_info@[k]]
        0 <= k < w.prop_info@.len() && (forall|j: int|
            0 <= j < k ==> !prop_named(w, j, property)) ==> name_wf(w.prop_info@[k].name@)
}

impl<T: Object> PropWrapper<T> {
    /// Joins an object with its properties and their descriptions.
    pub fn new(object: T, props: Props, prop_info: Vec<Prop>) -> (r: Self)
        requires
            prop_info@.len() == props.prop_ids@.len(),
        ensures
            r.object == object,
            r.props == props,
            r.prop_info == prop_info,
            r.wf(),
    {
        PropWrapper { props, prop_info, object }
    }

    /// Each property has its description.
    pub open spec fn wf(&self) -> bool {
        self.prop_info@.len() == self.props.prop_ids@.len()
    }

    /// The object.
    pub fn object(&self) -> (r: &T)
        ensures
            *r == self.object,
    {
        &self.object
    }

    /// The id of the first property named `property`, if there is one.
    pub fn find_property(&self, property: &str) -> (r: Option<u32>)
        requires
            self.wf(),
            lookup_defined(self, property.spec_bytes()),
        ensures
            match r {
                Some(id) => exists|k: int|
                    0 <= k < self.props.prop_ids@.len() && self.props.prop_ids@[k] == id
                        && prop_named(self, k, property.spec_bytes()) && forall|j: int|
                        0 <= j < k ==> !prop_named(self, j, property.spec_bytes()),
                None => forall|k: int|
                    0 <= k < self.props.prop_ids@.len() ==> !prop_named(
                        self,
                        k,
                        property.spec_bytes(),
                    ),
            },
    {
        let text = property.as_bytes();
        let mut k: usize = 0;
        while k < self.props.prop_ids.len()
            invariant
                k <= self.props.prop_ids.len(),
                self.wf(),
                text@ == property.spec_bytes(),
                lookup_defined(self, property.spec_bytes()),
                forall|j: int| 0 <= j < k ==> !prop_named(self, j, property.spec_bytes()),
            decreases self.props.prop_ids.len() - k,
        {
            let info = &self.prop_info[k];
            proof {
                assert(self.prop_info@[k as int] == *info);
            }
            if name_is(&info.name, text) {
                return Some(self.props.prop_ids[k]);
            }
            k = k + 1;
        }
        None
    }
}

/// The first mode that the connector prefers (type bit 3).
pub fn preferred_mode(modes: &[ModeInfo]) -> (r: Option<usize>)
    ensures
        match r {
            Some(i) => i < modes@.len() && modes@[i as int].typee & 8 != 0 && forall|j: int|
                0 <= j < i ==> #[trigger] modes@[j].typee & 8 == 0,
            None => forall|j: int| 0 <= j < modes@.len() ==> #[trigger] modes@[j].typee & 8 == 0,
        },
{
    let mut i: usize = 0;
    while i < modes.len()
        invariant
            i <= modes@.len(),
            forall|j: int| 0 <= j < i ==> #[trigger] modes@[j].typee & 8 == 0,
        decreases modes@.len() - i,
    {
        if (modes[i].typee & 8) != 0 {
            return Some(i);
        }
        i = i + 1;
    }
    None
}

/// The position of `id` among `ids`, if it occurs.
pub fn position_of(ids: &[u32], id: u32) -> (r: Option<usize>)
    ensures
        match r {
            Some(i) => i < ids@.len() && ids@[i as int] == id && forall|j: int|
                0 <= j < i ==> ids@[j] != id,
            None => !ids@.contains(id),
        },
{
    let mut i: usize = 0;
    while i < ids.len()
        invariant
            i <= ids@.len(),
            forall|j: int| 0 <= j < i ==> ids@[j] != id,
        decreases ids@.len() - i,
    {
        if ids[i] == id {
            return Some(i);
        }
        i = i + 1;
    }
    None
}

/// The first connector that is connected (`connection == 1`).
pub fn first_connected(connectors: &Vec<Connector>) -> (r: Option<usize>)
    ensures
        match r {
            Some(i) => i < connectors@.len() && connectors@[i as int].connection == 1 && forall|
                j: int,
            |
                0 <= j < i ==> #[trigger] connectors@[j].connection != 1,
            None => forall|j: int|
                0 <= j < connectors@.len() ==> #[trigger] connectors@[j].connection != 1,
        },
{
    let mut i: usize = 0;
    while i < connectors.len()
        invariant
            i <= connectors@.len(),
            forall|j: int| 0 <= j < i ==> #[trigger] connectors@[j].connection != 1,
        decreases connectors@.len() - i,
    {
        if connectors[i].connection == 1 {
            return Some(i);
        }
        i = i + 1;
    }
    None
}

/// The name starts with the four bytes of `type`.
pub open spec fn is_type_name(name: Seq<u8>) -> bool {
    name[0] == 116u8 && name[1] == 121u8 && name[2] == 112u8 && name[3] == 101u8
}

/// A plane can be the primary plane of the CRTC at `crtc_index`: it can drive
/// that CRTC and one of its properties named `type` has the value 1.
pub open spec fn primary_candidate(possible_crtcs: u32, crtc_index: u32, props: Seq<([u8; 32], u64)>) -> bool {
    &&& possible_crtcs & (1u32 << crtc_index) != 0
    &&& exists|k: int| 0 <= k < props.len() && is_type_name(props[k].0@) && props[k].1 == 1
}

/// Whether a plane can be the primary plane of the CRTC at `crtc_index`;
/// `props` holds the name and value of each of the plane's properties.
pub fn is_primary_candidate(plane: &Plane, crtc_index: u32, props: &Vec<([u8; 32], u64)>) -> (r: bool)
    requires
        crtc_index < 32,
    ensures
        r == primary_candidate(plane.possible_crtcs, crtc_index, props@),
{
    if (plane.possible_crtcs & (1u32 << crtc_index)) == 0 {
        return false;
    }
    let mut k: usize = 0;
    while k < props.len()
        invariant
            k <= props@.len(),
            plane.possible_crtcs & (1u32 << crtc_index) != 0,
            forall|j: int| 0 <= j < k ==> !(is_type_name(#[trigger] props@[j].0@) && props@[j].1 == 1),
        decreases props@.len() - k,
    {
        let (name, value) = &props[k];
        proof {
            assert(props@[k as int].0 == *name);
        }
        if name[0] == 116u8 && name[1] == 121u8 && name[2] == 112u8 && name[3] == 101u8 && *value
            == 1 {
            proof {
                assert(is_type_name(props@[k as int].0@));
                assert(props@[k as int].1 == 1);
            }
            return true;
        }
        k = k + 1;
    }
    false
}

/// The first plane that can be the primary plane of the CRTC at
/// `crtc_index`; `props[i]` lists the properties of `planes[i]`.
pub fn select_primary_plane(planes: &Vec<Plane>, props: &Vec<Vec<([u8; 32], u64)>>, crtc_index: u32) -> (r: Option<usize>)
    requires
        crtc_index < 32,
        props@.len() == planes@.len(),
    ensures
        match r {
            Some(i) => i < planes@.len() && primary_candidate(
                planes@[i as int].possible_crtcs,
                crtc_index,
                props@[i as int]@,
            ) && forall|j: int|
                0 <= j < i ==> !primary_candidate(
                    #[trigger] planes@[j].possible_crtcs,
                    crtc_index,
                    props@[j]@,
                ),
            None => forall|j: int|
                0 <= j < planes@.len() ==> !primary_candidate(
                    #[trigger] planes@[j].possible_crtcs,
                    crtc_index,
                    props@[j]@,
                ),
        },
{
    let mut i: usize = 0;
    while i < planes.len()
        invariant
            i <= planes@.len(),
            crtc_index < 32,
            props@.len() == planes@.len(),
            forall|j: int|
                0 <= j < i ==> !primary_candidate(
                    #[trigger] planes@[j].possible_crtcs,
                    crtc_index,
                    props@[j]@,
                ),
        decreases planes@.len() - i,
    {
        if is_primary_candidate(&planes[i], crtc_index, &props[i]) {
            return Some(i);
        }
        i = i + 1;
    }
    None
}

} // verus!
