//! The hardware description that launch settings are derived from, and how
//! it is put together from what the system and the GPU drivers report.
use crate::text::{string_from_utf8_lossy, utf8_lossy};
use vstd::prelude::*;
use vstd::string::*;

verus! {

/// A graphics adapter and its dedicated memory.
#[derive(Debug, Clone)]
pub struct GpuInfo {
    pub name: String,
    pub vram_mb: u64,
}

/// The machine: processor, memory and graphics adapters.
#[derive(Debug, Clone)]
pub struct HardwareInfo {
    pub cpu_name: String,
    pub physical_cores: usize,
    pub logical_cores: usize,
    pub total_ram_mb: u64,
    pub available_ram_mb: u64,
    pub gpus: Vec<GpuInfo>,
    pub has_nvidia: bool,
}

/// Dedicated memory of the first adapter, 0 when there is none.
pub open spec fn first_vram(hw: HardwareInfo) -> u64 {
    if hw.gpus@.len() > 0 {
        hw.gpus@[0].vram_mb
    } else {
        0
    }
}

/// Dedicated memory of the first adapter, 0 when there is none.
pub fn first_gpu_vram(hw: &HardwareInfo) -> (r: u64)
    ensures
        r == first_vram(*hw),
{
    if hw.gpus.len() > 0 {
        hw.gpus[0].vram_mb
    } else {
        0
    }
}

/// Bytes in a MiB.
pub const BYTES_PER_MIB: u64 = 1048576;

/// An NVIDIA adapter as the driver reports it.
pub struct NvidiaDevice {
    pub name: String,
    /// Total memory in bytes; 0 when the driver does not report it.
    pub vram_bytes: u64,
}

/// A memory heap of a Vulkan device.
#[derive(Debug, Clone, Copy)]
pub struct MemoryHeap {
    pub size: u64,
    pub device_local: bool,
}

/// A Vulkan physical device as the loader reports it.
pub struct VulkanDevice {
    /// The device name field: bytes up to a terminating 0.
    pub name_raw: Vec<u8>,
    /// Whether the device is a discrete or an integrated GPU.
    pub is_gpu: bool,
    pub heaps: Vec<MemoryHeap>,
}

/// The bytes of `raw` before the first 0.
pub open spec fn before_nul(raw: Seq<u8>) -> Seq<u8>
    decreases raw.len(),
{
    if raw.len() == 0 || raw[0] == 0 {
        Seq::empty()
    } else {
        seq![raw[0]] + before_nul(raw.drop_first())
    }
}

/// The name a Vulkan device reports.
pub open spec fn vulkan_name(raw: Seq<u8>) -> Seq<char> {
    utf8_lossy(before_nul(raw))
}

/// The largest device-local heap, 0 without one.
pub open spec fn largest_local_heap(heaps: Seq<MemoryHeap>) -> u64
    decreases heaps.len(),
{
    if heaps.len() == 0 {
        0
    } else {
        let rest = largest_local_heap(heaps.drop_last());
        let h = heaps.last();
        if h.device_local && h.size > rest {
            h.size
        } else {
            rest
        }
    }
}

/// The adapters as (name, MiB of memory) pairs.
pub open spec fn gpu_list(g: Seq<GpuInfo>) -> Seq<(Seq<char>, u64)> {
    g.map_values(|x: GpuInfo| (x.name@, x.vram_mb))
}

/// The adapters the driver of NVIDIA reports, memory in MiB.
pub open spec fn nvidia_list(d: Seq<NvidiaDevice>) -> Seq<(Seq<char>, u64)> {
    d.map_values(|x: NvidiaDevice| (x.name@, x.vram_bytes / BYTES_PER_MIB))
}

/// The adapter list after the Vulkan devices: each GPU whose name has not
/// been seen is added with its largest device-local heap in MiB.
pub open spec fn with_vulkan(
    gpus: Seq<(Seq<char>, u64)>,
    seen: Set<Seq<char>>,
    devices: Seq<VulkanDevice>,
) -> (Seq<(Seq<char>, u64)>, Set<Seq<char>>)
    decreases devices.len(),
{
    if devices.len() == 0 {
        (gpus, seen)
    } else {
        let (g, s) = with_vulkan(gpus, seen, devices.drop_last());
        let d = devices.last();
        let name = vulkan_name(d.name_raw@);
        if !d.is_gpu || s.contains(name) {
            (g, s)
        } else {
            (g.push((name, largest_local_heap(d.heaps@) / BYTES_PER_MIB)), s.insert(name))
        }
    }
}

/// The names in a list of adapters.
pub open spec fn names_of(g: Seq<(Seq<char>, u64)>) -> Set<Seq<char>> {
    g.map_values(|p: (Seq<char>, u64)| p.0).to_set()
}

/// The characters of each string.
pub open spec fn string_views(v: Seq<String>) -> Seq<Seq<char>> {
    v.map_values(|s: String| s@)
}

/// The adapters found: the NVIDIA ones, then the new Vulkan GPUs, or a
/// placeholder without memory when there is none.
pub open spec fn detected_gpus(nvidia: Seq<NvidiaDevice>, vulkan: Seq<VulkanDevice>) -> Seq<
    (Seq<char>, u64),
> {
    let n = nvidia_list(nvidia);
    let all = with_vulkan(n, names_of(n), vulkan).0;
    if all.len() == 0 {
        seq![("No GPU detected"@, 0u64)]
    } else {
        all
    }
}

fn device_name(raw: &Vec<u8>) -> (r: String)
    ensures
        r@ == vulkan_name(raw@),
{
    let mut bytes: Vec<u8> = Vec::new();
    let mut i: usize = 0;
    assert(raw@.skip(0) =~= raw@);
    while i < raw.len() && raw[i] != 0
        invariant
            i <= raw@.len(),
            before_nul(raw@) == bytes@ + before_nul(raw@.skip(i as int)),
        decreases raw.len() - i,
    {
        assert(raw@.skip(i as int).drop_first() =~= raw@.skip(i + 1));
        let ghost old_bytes = bytes@;
        bytes.push(raw[i]);
        assert(bytes@ + before_nul(raw@.skip(i + 1)) =~= old_bytes + (seq![raw@[i as int]]
            + before_nul(raw@.skip(i + 1))));
        i = i + 1;
    }
    assert(before_nul(raw@.skip(i as int)) =~= Seq::<u8>::empty());
    assert(bytes@ =~= before_nul(raw@));
    string_from_utf8_lossy(bytes.as_slice())
}

fn largest_heap(heaps: &Vec<MemoryHeap>) -> (r: u64)
    ensures
        r == largest_local_heap(heaps@),
{
    let mut best: u64 = 0;
    let mut i: usize = 0;
    assert(heaps@.take(0) =~= Seq::<MemoryHeap>::empty());
    while i < heaps.len()
        invariant
            i <= heaps@.len(),
            best == largest_local_heap(heaps@.take(i as int)),
        decreases heaps.len() - i,
    {
        assert(heaps@.take(i + 1).drop_last() =~= heaps@.take(i as int));
        let h = heaps[i];
        if h.device_local && h.size > best {
            best = h.size;
        }
        i = i + 1;
    }
    assert(heaps@.take(i as int) =~= heaps@);
    best
}

fn seen_contains(seen: &Vec<String>, name: &String) -> (r: bool)
    ensures
        r == string_views(seen@).contains(name@),
{
    let mut i: usize = 0;
    while i < seen.len()
        invariant
            i <= seen@.len(),
            forall|k: int| 0 <= k < i ==> seen@[k]@ != name@,
        decreases seen.len() - i,
    {
        if seen[i] == *name {
            assert(string_views(seen@)[i as int] == name@);
            return true;
        }
        i = i + 1;
    }
    assert forall|k: int| 0 <= k < string_views(seen@).len() implies string_views(seen@)[k] != name@ by {
        assert(string_views(seen@)[k] == seen@[k]@);
    }
    false
}

/// The machine description from what the system and the drivers report:
/// the CPU brand (or `Unknown CPU`), core counts, memory in bytes, the
/// NVIDIA adapters and the Vulkan devices.
pub fn assemble_hardware(
    cpu_brand: Option<String>,
    physical_cores: usize,
    logical_cores: usize,
    total_ram_bytes: u64,
    available_ram_bytes: u64,
    nvidia: Vec<NvidiaDevice>,
    vulkan: Vec<VulkanDevice>,
) -> (r: HardwareInfo)
    requires
        nvidia@.len() + vulkan@.len() < usize::MAX,
    ensures
        r.cpu_name@ == match cpu_brand {
            Some(b) => b@,
            None => "Unknown CPU"@,
        },
        r.physical_cores == physical_cores,
        r.logical_cores == logical_cores,
        r.total_ram_mb == total_ram_bytes / BYTES_PER_MIB,
        r.available_ram_mb == available_ram_bytes / BYTES_PER_MIB,
        gpu_list(r.gpus@) == detected_gpus(nvidia@, vulkan@),
        r.has_nvidia == (nvidia@.len() > 0),
{
    let cpu_name = match cpu_brand {
        Some(b) => b,
        None => String::from_str("Unknown CPU"),
    };
    let has_nvidia = nvidia.len() > 0;
    let ghost nv = nvidia@;
    let ghost vk = vulkan@;
    let mut gpus: Vec<GpuInfo> = Vec::new();
    let mut seen: Vec<String> = Vec::new();
    let mut nvidia = nvidia;
    let mut done: usize = 0;
    let total_nv = nvidia.len();
    assert(nv.skip(0) =~= nv);
    while nvidia.len() > 0
        invariant
            nvidia@ == nv.skip(done as int),
            done + nvidia@.len() == nv.len(),
            nv.len() == total_nv,
            gpu_list(gpus@) == nvidia_list(nv.take(done as int)),
            string_views(seen@) == gpu_list(gpus@).map_values(|p: (Seq<char>, u64)| p.0),
        decreases nvidia.len(),
    {
        let d = nvidia.remove(0);
        assert(nv.take(done + 1) =~= nv.take(done as int).push(d));
        let ghost old_gpus = gpus@;
        let ghost old_seen = seen@;
        let ghost dn = d.name@;
        let ghost dv = d.vram_bytes / BYTES_PER_MIB;
        seen.push(d.name.clone());
        gpus.push(GpuInfo { name: d.name, vram_mb: d.vram_bytes / BYTES_PER_MIB });
        assert(gpu_list(gpus@) =~= gpu_list(old_gpus).push((dn, dv)));
        assert(nvidia_list(nv.take(done + 1)) =~= nvidia_list(nv.take(done as int)).push((dn, dv)));
        assert(string_views(seen@) =~= string_views(old_seen).push(dn));
        assert(gpu_list(gpus@) =~= nvidia_list(nv.take(done + 1)));
        assert(string_views(seen@) =~= gpu_list(gpus@).map_values(|p: (Seq<char>, u64)| p.0));
        assert(nvidia@ =~= nv.skip(done + 1));
        done = done + 1;
    }
    assert(nv.take(done as int) =~= nv);
    let ghost n_list = nvidia_list(nv);
    let mut vulkan = vulkan;
    let mut vdone: usize = 0;
    let total_vk = vulkan.len();
    assert(vk.skip(0) =~= vk);
    while vulkan.len() > 0
        invariant
            vulkan@ == vk.skip(vdone as int),
            vdone + vulkan@.len() == vk.len(),
            vk.len() == total_vk,
            total_nv + total_vk < usize::MAX,
            gpus@.len() <= total_nv + vdone,
            (gpu_list(gpus@), string_views(seen@).to_set()) == with_vulkan(
                n_list,
                names_of(n_list),
                vk.take(vdone as int),
            ),
        decreases vulkan.len(),
    {
        let d = vulkan.remove(0);
        assert(vk.take(vdone + 1).drop_last() =~= vk.take(vdone as int));
        assert(vk.take(vdone + 1).last() == d);
        assert(vulkan@ =~= vk.skip(vdone + 1));
        let ghost old_seen = seen@;
        let ghost old_gpus = gpus@;
        if d.is_gpu {
            let name = device_name(&d.name_raw);
            if !seen_contains(&seen, &name) {
                let vram_mb = largest_heap(&d.heaps) / BYTES_PER_MIB;
                seen.push(name.clone());
                gpus.push(GpuInfo { name, vram_mb });
                assert(gpu_list(gpus@) =~= gpu_list(old_gpus).push((name@, vram_mb)));
                assert(string_views(seen@) =~= string_views(old_seen).push(name@));
                assert(string_views(seen@).to_set() =~= string_views(old_seen).to_set().insert(
                    name@,
                )) by {
                    broadcast use vstd::seq_lib::group_seq_properties;

                }
            }
        }
        vdone = vdone + 1;
    }
    assert(vk.take(vdone as int) =~= vk);
    if gpus.len() == 0 {
        gpus.push(GpuInfo { name: String::from_str("No GPU detected"), vram_mb: 0 });
        assert(gpu_list(gpus@) =~= seq![("No GPU detected"@, 0u64)]);
    }
    HardwareInfo {
        cpu_name,
        physical_cores,
        logical_cores,
        total_ram_mb: total_ram_bytes / BYTES_PER_MIB,
        available_ram_mb: available_ram_bytes / BYTES_PER_MIB,
        gpus,
        has_nvidia,
    }
}

/// The adapter list is never empty: without any adapter found it holds the
/// placeholder.
pub proof fn law_some_gpu_listed(nvidia: Seq<NvidiaDevice>, vulkan: Seq<VulkanDevice>)
    ensures
        detected_gpus(nvidia, vulkan).len() > 0,
{
}

} // verus!
