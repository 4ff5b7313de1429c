//! The choices that setting up the Vulkan renderer makes: which physical
//! device drives the card, which queue family draws, and which memory type
//! backs a buffer or an image.
use vstd::prelude::*;

verus! {

/// The Linux device number of a major and a minor number.
pub open spec fn makedev_spec(major: u64, minor: u64) -> u64 {
    ((major & 0xffff_f000u64) << 32u64) | ((major & 0x0000_0fffu64) << 8u64) | ((minor
        & 0xffff_ff00u64) << 12u64) | (minor & 0x0000_00ffu64)
}

/// `nix::sys::stat::makedev`: the device number of a major and a minor
/// number, packed as the Linux C library packs it (the contract restates the
/// four-term formula of nix's source).
#[verifier::external_body]
fn makedev(major: u64, minor: u64) -> (r: u64)
    ensures
        r == makedev_spec(major, minor),
{
    nix::sys::stat::makedev(major, minor)
}

/// The first physical device whose primary node has the device number `dev`;
/// `nodes[i]` holds the major and minor number of device `i`.
pub fn find_physical_device(nodes: &[(i64, i64)], dev: u64) -> (r: Option<usize>)
    ensures
        match r {
            Some(i) => i < nodes@.len() && makedev_spec(
                nodes@[i as int].0 as u64,
                nodes@[i as int].1 as u64,
            ) == dev && forall|j: int|
                0 <= j < i ==> makedev_spec(
                    #[trigger] nodes@[j].0 as u64,
                    nodes@[j].1 as u64,
                ) != dev,
            None => forall|j: int|
                0 <= j < nodes@.len() ==> makedev_spec(
                    #[trigger] nodes@[j].0 as u64,
                    nodes@[j].1 as u64,
                ) != dev,
        },
{
    let mut i: usize = 0;
    while i < nodes.len()
        invariant
            i <= nodes@.len(),
            forall|j: int|
                0 <= j < i ==> makedev_spec(#[trigger] nodes@[j].0 as u64, nodes@[j].1 as u64)
                    != dev,
        decreases nodes@.len() - i,
    {
        let (major, minor) = nodes[i];
        if makedev(major as u64, minor as u64) == dev {
            return Some(i);
        }
        i = i + 1;
    }
    None
}

/// The flags `flags` include every flag of `required`.
pub open spec fn contains_flags(flags: u32, required: u32) -> bool {
    flags & required == required
}

/// The first queue family that can draw (graphics flag, bit 0).
pub fn graphics_queue_family(queue_flags: &[u32]) -> (r: Option<u32>)
    requires
        queue_flags@.len() <= u32::MAX,
    ensures
        match r {
            Some(i) => i < queue_flags@.len() && contains_flags(queue_flags@[i as int], 1)
                && forall|j: int| 0 <= j < i ==> !contains_flags(#[trigger] queue_flags@[j], 1),
            None => forall|j: int|
                0 <= j < queue_flags@.len() ==> !contains_flags(#[trigger] queue_flags@[j], 1),
        },
{
    let mut i: usize = 0;
    while i < queue_flags.len()
        invariant
            i <= queue_flags@.len(),
            queue_flags@.len() <= u32::MAX,
            forall|j: int| 0 <= j < i ==> !contains_flags(#[trigger] queue_flags@[j], 1),
        decreases queue_flags@.len() - i,
    {
        if queue_flags[i] & 1 == 1 {
            return Some(i as u32);
        }
        i = i + 1;
    }
    None
}

/// Memory type `index` is allowed by the requirement bits and has every
/// required property.
pub open spec fn memory_type_fits(type_bits: u32, index: int, flags: u32, required: u32) -> bool {
    type_bits & (1u32 << index as u32) != 0 && contains_flags(flags, required)
}

/// The first memory type that the resource allows (its bit is set in
/// `type_bits`) and that has all `required` properties; `property_flags[i]`
/// holds the properties of memory type `i`.
pub fn memory_type_index(type_bits: u32, property_flags: &[u32], required: u32) -> (r: Option<u32>)
    requires
        property_flags@.len() <= 32,
    ensures
        match r {
            Some(i) => i < property_flags@.len() && memory_type_fits(
                type_bits,
                i as int,
                property_flags@[i as int],
                required,
            ) && forall|j: int|
                0 <= j < i ==> !memory_type_fits(type_bits, j, #[trigger] property_flags@[j], required),
            None => forall|j: int|
                0 <= j < property_flags@.len() ==> !memory_type_fits(
                    type_bits,
                    j,
                    #[trigger] property_flags@[j],
                    required,
                ),
        },
{
    let mut i: usize = 0;
    while i < property_flags.len()
        invariant
            i <= property_flags@.len(),
            property_flags@.len() <= 32,
            forall|j: int|
                0 <= j < i ==> !memory_type_fits(type_bits, j, #[trigger] property_flags@[j], required),
        decreases property_flags@.len() - i,
    {
        if (type_bits & (1u32 << i as u32)) != 0 && property_flags[i] & required == required {
            return Some(i as u32);
        }
        i = i + 1;
    }
    None
}

/// The planes of a dma-buf are disjoint when there is more than one and they
/// do not all live in one file: some plane's file has another inode than the
/// first plane's. `inodes[i]` is the inode of the file of plane `i`.
pub open spec fn disjoint_spec(inodes: Seq<u64>) -> bool {
    inodes.len() > 1 && exists|i: int| 0 < i < inodes.len() && #[trigger] inodes[i] != inodes[0]
}

/// Whether the planes of a dma-buf are disjoint; see [`disjoint_spec`].
pub fn planes_disjoint(inodes: &[u64]) -> (r: bool)
    ensures
        r == disjoint_spec(inodes@),
{
    if inodes.len() <= 1 {
        return false;
    }
    let first = inodes[0];
    let mut i: usize = 1;
    while i < inodes.len()
        invariant
            1 <= i <= inodes@.len(),
            first == inodes@[0],
            forall|j: int| 0 < j < i ==> inodes@[j] == first,
        decreases inodes@.len() - i,
    {
        if inodes[i] != first {
            return true;
        }
        i = i + 1;
    }
    false
}

/// The number of planes that get memory bound to an image made from a
/// dma-buf with `plane_count` planes: every plane when they are disjoint,
/// else the first alone; never more than four.
pub fn bound_plane_count(plane_count: usize, disjoint: bool) -> (r: usize)
    requires
        plane_count > 0,
    ensures
        r == if disjoint {
            if plane_count < 4 {
                plane_count
            } else {
                4
            }
        } else {
            1
        },
{
    let planes = if disjoint {
        plane_count
    } else {
        1
    };
    if planes < 4 {
        planes
    } else {
        4
    }
}

} // verus!
