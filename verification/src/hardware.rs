//! Hardware accelerators: the ones the library knows, their names and
//! descriptions, which one a platform prefers, and the list reported to
//! JavaScript given which of them the media framework can open.

use vstd::prelude::*;
use vstd::string::StringSliceAdditionalSpecFns;
use crate::text::bytes_equal;

verus! {

/// Hardware device types.
#[derive(Debug, Clone, Copy, PartialEq, Eq, Structural)]
pub enum AVHWDeviceType {
    Videotoolbox,
    Cuda,
    Vaapi,
    D3d11va,
    Qsv,
    Dxva2,
    Vdpau,
    Vulkan,
}

/// The operating systems with a platform-specific preference.
#[derive(Debug, Clone, Copy, PartialEq, Eq, Structural)]
pub enum TargetOs {
    MacOs,
    Linux,
    Windows,
    Other,
}

/// Hardware accelerator information.
pub struct HardwareAccelerator {
    /// Internal name (e.g. "videotoolbox", "cuda", "vaapi").
    pub name: String,
    /// Human-readable description.
    pub description: String,
    /// Whether this accelerator is available on this system.
    pub available: bool,
}

/// The known accelerators, in the order they are reported.
pub open spec fn known_devices() -> Seq<AVHWDeviceType> {
    seq![
        AVHWDeviceType::Videotoolbox,
        AVHWDeviceType::Cuda,
        AVHWDeviceType::Vaapi,
        AVHWDeviceType::D3d11va,
        AVHWDeviceType::Qsv,
        AVHWDeviceType::Dxva2,
        AVHWDeviceType::Vdpau,
        AVHWDeviceType::Vulkan,
    ]
}

/// An accelerator's name.
pub open spec fn device_name(t: AVHWDeviceType) -> Seq<char> {
    match t {
        AVHWDeviceType::Videotoolbox => "videotoolbox"@,
        AVHWDeviceType::Cuda => "cuda"@,
        AVHWDeviceType::Vaapi => "vaapi"@,
        AVHWDeviceType::D3d11va => "d3d11va"@,
        AVHWDeviceType::Qsv => "qsv"@,
        AVHWDeviceType::Dxva2 => "dxva2"@,
        AVHWDeviceType::Vdpau => "vdpau"@,
        AVHWDeviceType::Vulkan => "vulkan"@,
    }
}

/// An accelerator's description.
pub open spec fn device_description(t: AVHWDeviceType) -> Seq<char> {
    match t {
        AVHWDeviceType::Videotoolbox => "Apple VideoToolbox (macOS)"@,
        AVHWDeviceType::Cuda => "NVIDIA CUDA/NVENC"@,
        AVHWDeviceType::Vaapi => "Video Acceleration API (Linux)"@,
        AVHWDeviceType::D3d11va => "Direct3D 11 Video Acceleration (Windows)"@,
        AVHWDeviceType::Qsv => "Intel Quick Sync Video"@,
        AVHWDeviceType::Dxva2 => "DirectX Video Acceleration 2 (Windows)"@,
        AVHWDeviceType::Vdpau => "NVIDIA VDPAU (Linux)"@,
        AVHWDeviceType::Vulkan => "Vulkan Video"@,
    }
}

/// The known accelerators, in reporting order.
pub fn known_device_types() -> (r: Vec<AVHWDeviceType>)
    ensures
        r@ == known_devices(),
{
    let mut v: Vec<AVHWDeviceType> = Vec::new();
    v.push(AVHWDeviceType::Videotoolbox);
    v.push(AVHWDeviceType::Cuda);
    v.push(AVHWDeviceType::Vaapi);
    v.push(AVHWDeviceType::D3d11va);
    v.push(AVHWDeviceType::Qsv);
    v.push(AVHWDeviceType::Dxva2);
    v.push(AVHWDeviceType::Vdpau);
    v.push(AVHWDeviceType::Vulkan);
    assert(v@ =~= known_devices());
    v
}

/// The name of an accelerator.
pub fn accelerator_name(t: AVHWDeviceType) -> (s: &'static str)
    ensures
        s@ == device_name(t),
{
    match t {
        AVHWDeviceType::Videotoolbox => "videotoolbox",
        AVHWDeviceType::Cuda => "cuda",
        AVHWDeviceType::Vaapi => "vaapi",
        AVHWDeviceType::D3d11va => "d3d11va",
        AVHWDeviceType::Qsv => "qsv",
        AVHWDeviceType::Dxva2 => "dxva2",
        AVHWDeviceType::Vdpau => "vdpau",
        AVHWDeviceType::Vulkan => "vulkan",
    }
}

/// The description of an accelerator.
pub fn accelerator_description(t: AVHWDeviceType) -> (s: &'static str)
    ensures
        s@ == device_description(t),
{
    match t {
        AVHWDeviceType::Videotoolbox => "Apple VideoToolbox (macOS)",
        AVHWDeviceType::Cuda => "NVIDIA CUDA/NVENC",
        AVHWDeviceType::Vaapi => "Video Acceleration API (Linux)",
        AVHWDeviceType::D3d11va => "Direct3D 11 Video Acceleration (Windows)",
        AVHWDeviceType::Qsv => "Intel Quick Sync Video",
        AVHWDeviceType::Dxva2 => "DirectX Video Acceleration 2 (Windows)",
        AVHWDeviceType::Vdpau => "NVIDIA VDPAU (Linux)",
        AVHWDeviceType::Vulkan => "Vulkan Video",
    }
}

/// The known accelerators with their availability: `available[i]` tells
/// whether the `i`-th known accelerator can be opened.
pub fn hardware_accelerators(available: &[bool]) -> (r: Vec<HardwareAccelerator>)
    requires
        available@.len() == known_devices().len(),
    ensures
        r@.len() == known_devices().len(),
        forall|i: int|
            0 <= i < r@.len() ==> (#[trigger] r@[i]).name@ == device_name(known_devices()[i])
                && r@[i].description@ == device_description(known_devices()[i])
                && r@[i].available == available@[i],
{
    let types = known_device_types();
    let mut out: Vec<HardwareAccelerator> = Vec::new();
    let mut i: usize = 0;
    while i < types.len()
        invariant
            types@ == known_devices(),
            available@.len() == known_devices().len(),
            i <= types@.len(),
            out@.len() == i,
            forall|k: int|
                0 <= k < i ==> (#[trigger] out@[k]).name@ == device_name(known_devices()[k])
                    && out@[k].description@ == device_description(known_devices()[k])
                    && out@[k].available == available@[k],
        decreases types@.len() - i,
    {
        let t = types[i];
        out.push(
            HardwareAccelerator {
                name: String::from_str(accelerator_name(t)),
                description: String::from_str(accelerator_description(t)),
                available: available[i],
            },
        );
        i = i + 1;
    }
    out
}

/// The names of the available accelerators, in order.
pub open spec fn available_names(list: Seq<HardwareAccelerator>) -> Seq<Seq<char>>
    decreases list.len(),
{
    if list.len() == 0 {
        seq![]
    } else {
        available_names(list.drop_last()) + if list.last().available {
            seq![list.last().name@]
        } else {
            seq![]
        }
    }
}

/// The names of the accelerators that are available.
pub fn available_accelerator_names(list: &Vec<HardwareAccelerator>) -> (r: Vec<String>)
    ensures
        r@.map_values(|s: String| s@) == available_names(list@),
{
    let mut out: Vec<String> = Vec::new();
    let mut i: usize = 0;
    while i < list.len()
        invariant
            i <= list@.len(),
            out@.map_values(|s: String| s@) == available_names(list@.take(i as int)),
        decreases list@.len() - i,
    {
        proof {
            assert(list@.take(i + 1).drop_last() =~= list@.take(i as int));
            assert(list@.take(i + 1).last() == list@[i as int]);
        }
        let ghost before = out@;
        if list[i].available {
            out.push(list[i].name.clone());
            proof {
                assert(out@.map_values(|s: String| s@) =~= before.map_values(|s: String| s@).push(
                    list@[i as int].name@,
                ));
            }
        }
        proof {
            assert(out@.map_values(|s: String| s@) =~= available_names(list@.take(i + 1)));
        }
        i = i + 1;
    }
    proof {
        assert(list@.take(list@.len() as int) =~= list@);
    }
    out
}

/// The accelerator a name stands for ("nvenc" standing for CUDA).
pub open spec fn device_for_name(name: Seq<u8>) -> Option<AVHWDeviceType> {
    if name == seq!['v' as u8, 'i' as u8, 'd' as u8, 'e' as u8, 'o' as u8, 't' as u8, 'o' as u8, 'o' as u8, 'l' as u8, 'b' as u8, 'o' as u8, 'x' as u8] {
        Some(AVHWDeviceType::Videotoolbox)
    } else if name == seq!['c' as u8, 'u' as u8, 'd' as u8, 'a' as u8] || name == seq!['n' as u8, 'v' as u8, 'e' as u8, 'n' as u8, 'c' as u8] {
        Some(AVHWDeviceType::Cuda)
    } else if name == seq!['v' as u8, 'a' as u8, 'a' as u8, 'p' as u8, 'i' as u8] {
        Some(AVHWDeviceType::Vaapi)
    } else if name == seq!['d' as u8, '3' as u8, 'd' as u8, '1' as u8, '1' as u8, 'v' as u8, 'a' as u8] {
        Some(AVHWDeviceType::D3d11va)
    } else if name == seq!['q' as u8, 's' as u8, 'v' as u8] {
        Some(AVHWDeviceType::Qsv)
    } else if name == seq!['d' as u8, 'x' as u8, 'v' as u8, 'a' as u8, '2' as u8] {
        Some(AVHWDeviceType::Dxva2)
    } else if name == seq!['v' as u8, 'd' as u8, 'p' as u8, 'a' as u8, 'u' as u8] {
        Some(AVHWDeviceType::Vdpau)
    } else if name == seq!['v' as u8, 'u' as u8, 'l' as u8, 'k' as u8, 'a' as u8, 'n' as u8] {
        Some(AVHWDeviceType::Vulkan)
    } else {
        None
    }
}

/// The accelerator a name stands for, if any.
pub fn hw_device_type_for_name(name: &str) -> (r: Option<AVHWDeviceType>)
    ensures
        r == device_for_name(name.spec_bytes()),
{
    let b = name.as_bytes();
    if bytes_equal(b, &['v' as u8, 'i' as u8, 'd' as u8, 'e' as u8, 'o' as u8, 't' as u8, 'o' as u8, 'o' as u8, 'l' as u8, 'b' as u8, 'o' as u8, 'x' as u8]) {
        return Some(AVHWDeviceType::Videotoolbox);
    }
    if bytes_equal(b, &['c' as u8, 'u' as u8, 'd' as u8, 'a' as u8]) || bytes_equal(b, &['n' as u8, 'v' as u8, 'e' as u8, 'n' as u8, 'c' as u8]) {
        return Some(AVHWDeviceType::Cuda);
    }
    if bytes_equal(b, &['v' as u8, 'a' as u8, 'a' as u8, 'p' as u8, 'i' as u8]) {
        return Some(AVHWDeviceType::Vaapi);
    }
    if bytes_equal(b, &['d' as u8, '3' as u8, 'd' as u8, '1' as u8, '1' as u8, 'v' as u8, 'a' as u8]) {
        return Some(AVHWDeviceType::D3d11va);
    }
    if bytes_equal(b, &['q' as u8, 's' as u8, 'v' as u8]) {
        return Some(AVHWDeviceType::Qsv);
    }
    if bytes_equal(b, &['d' as u8, 'x' as u8, 'v' as u8, 'a' as u8, '2' as u8]) {
        return Some(AVHWDeviceType::Dxva2);
    }
    if bytes_equal(b, &['v' as u8, 'd' as u8, 'p' as u8, 'a' as u8, 'u' as u8]) {
        return Some(AVHWDeviceType::Vdpau);
    }
    if bytes_equal(b, &['v' as u8, 'u' as u8, 'l' as u8, 'k' as u8, 'a' as u8, 'n' as u8]) {
        return Some(AVHWDeviceType::Vulkan);
    }
    None
}

/// The accelerator a decoder asks for when hardware is preferred: the
/// platform's own, or CUDA where there is none.
pub open spec fn spec_platform_hw_type(os: TargetOs) -> AVHWDeviceType {
    match os {
        TargetOs::MacOs => AVHWDeviceType::Videotoolbox,
        TargetOs::Linux => AVHWDeviceType::Vaapi,
        TargetOs::Windows => AVHWDeviceType::D3d11va,
        TargetOs::Other => AVHWDeviceType::Cuda,
    }
}

/// The accelerator a decoder asks for when hardware is preferred.
pub fn platform_hw_type(os: TargetOs) -> (r: AVHWDeviceType)
    ensures
        r == spec_platform_hw_type(os),
{
    match os {
        TargetOs::MacOs => AVHWDeviceType::Videotoolbox,
        TargetOs::Linux => AVHWDeviceType::Vaapi,
        TargetOs::Windows => AVHWDeviceType::D3d11va,
        TargetOs::Other => AVHWDeviceType::Cuda,
    }
}

/// Hardware acceleration preference of a codec configuration.
#[derive(Debug, Clone, Copy, PartialEq, Eq, Structural)]
pub enum HardwareAcceleration {
    NoPreference,
    PreferHardware,
    PreferSoftware,
}

/// The accelerator a decoder is created with: only an explicit preference
/// for hardware asks for one (hardware decoding is not attempted otherwise).
pub open spec fn spec_decoder_hw_type(preference: Option<HardwareAcceleration>, os: TargetOs) -> Option<
    AVHWDeviceType,
> {
    match preference {
        Some(HardwareAcceleration::PreferHardware) => Some(spec_platform_hw_type(os)),
        _ => None,
    }
}

/// The accelerator a decoder is created with, given the configured
/// preference (no preference when absent).
pub fn decoder_hw_type(preference: Option<HardwareAcceleration>, os: TargetOs) -> (r: Option<
    AVHWDeviceType,
>)
    ensures
        r == spec_decoder_hw_type(preference, os),
{
    match preference {
        Some(HardwareAcceleration::PreferHardware) => Some(platform_hw_type(os)),
        _ => None,
    }
}

/// The accelerators tried, in order, when picking the preferred one: the
/// platform's own (both Direct3D 11 and DXVA2 on Windows), then CUDA, then
/// Quick Sync.
pub open spec fn preference_order(os: TargetOs) -> Seq<AVHWDeviceType> {
    match os {
        TargetOs::MacOs => seq![AVHWDeviceType::Videotoolbox, AVHWDeviceType::Cuda, AVHWDeviceType::Qsv],
        TargetOs::Linux => seq![AVHWDeviceType::Vaapi, AVHWDeviceType::Cuda, AVHWDeviceType::Qsv],
        TargetOs::Windows => seq![
            AVHWDeviceType::D3d11va,
            AVHWDeviceType::Dxva2,
            AVHWDeviceType::Cuda,
            AVHWDeviceType::Qsv,
        ],
        TargetOs::Other => seq![AVHWDeviceType::Cuda, AVHWDeviceType::Qsv],
    }
}

/// The accelerators to try, in order.
pub fn preferred_order(os: TargetOs) -> (r: Vec<AVHWDeviceType>)
    ensures
        r@ == preference_order(os),
{
    let mut v: Vec<AVHWDeviceType> = Vec::new();
    match os {
        TargetOs::MacOs => {
            v.push(AVHWDeviceType::Videotoolbox);
        },
        TargetOs::Linux => {
            v.push(AVHWDeviceType::Vaapi);
        },
        TargetOs::Windows => {
            v.push(AVHWDeviceType::D3d11va);
            v.push(AVHWDeviceType::Dxva2);
        },
        TargetOs::Other => {},
    }
    v.push(AVHWDeviceType::Cuda);
    v.push(AVHWDeviceType::Qsv);
    assert(v@ =~= preference_order(os));
    v
}

/// The first of `order` that `available` (indexed like `order`) marks
/// available.
pub open spec fn first_available(order: Seq<AVHWDeviceType>, available: Seq<bool>) -> Option<
    AVHWDeviceType,
>
    decreases order.len(),
{
    if order.len() == 0 || available.len() == 0 {
        None
    } else if available[0] {
        Some(order[0])
    } else {
        first_available(order.drop_first(), available.drop_first())
    }
}

/// The number of accelerators tried on a platform.
pub open spec fn accelerator_count(os: TargetOs) -> nat {
    match os {
        TargetOs::Windows => 4,
        TargetOs::Other => 2,
        _ => 3,
    }
}

/// The accelerator picked from availability flags: the platform's own comes
/// first (VideoToolbox on macOS, VAAPI on Linux, Direct3D 11 then DXVA2 on
/// Windows), then CUDA, then Quick Sync; none when nothing is available.
pub proof fn lemma_accelerator_preference(os: TargetOs, a: Seq<bool>)
    requires
        a.len() == accelerator_count(os),
    ensures
        preference_order(os).len() == accelerator_count(os),
        preference_order(os)[0] == spec_platform_hw_type(os),
        first_available(preference_order(os), a) == match os {
            TargetOs::MacOs => if a[0] {
                Some(AVHWDeviceType::Videotoolbox)
            } else if a[1] {
                Some(AVHWDeviceType::Cuda)
            } else if a[2] {
                Some(AVHWDeviceType::Qsv)
            } else {
                None
            },
            TargetOs::Linux => if a[0] {
                Some(AVHWDeviceType::Vaapi)
            } else if a[1] {
                Some(AVHWDeviceType::Cuda)
            } else if a[2] {
                Some(AVHWDeviceType::Qsv)
            } else {
                None
            },
            TargetOs::Windows => if a[0] {
                Some(AVHWDeviceType::D3d11va)
            } else if a[1] {
                Some(AVHWDeviceType::Dxva2)
            } else if a[2] {
                Some(AVHWDeviceType::Cuda)
            } else if a[3] {
                Some(AVHWDeviceType::Qsv)
            } else {
                None
            },
            TargetOs::Other => if a[0] {
                Some(AVHWDeviceType::Cuda)
            } else if a[1] {
                Some(AVHWDeviceType::Qsv)
            } else {
                None
            },
        },
{
    reveal_with_fuel(first_available, 5);
    let o = preference_order(os);
    assert(o.drop_first()[0] == o[1]);
    assert(a.drop_first()[0] == a[1]);
    if o.len() > 2 {
        assert(o.drop_first().drop_first()[0] == o[2]);
        assert(a.drop_first().drop_first()[0] == a[2]);
    }
    if o.len() > 3 {
        assert(o.drop_first().drop_first().drop_first()[0] == o[3]);
        assert(a.drop_first().drop_first().drop_first()[0] == a[3]);
    }
}

/// The preferred accelerator's name: the first of the platform's preference
/// order that is available (`available[i]` for the `i`-th of that order).
pub fn preferred_hardware_accelerator(os: TargetOs, available: &[bool]) -> (r: Option<String>)
    requires
        available@.len() == preference_order(os).len(),
    ensures
        match first_available(preference_order(os), available@) {
            Some(t) => r matches Some(s) && s@ == device_name(t),
            None => r is None,
        },
        available@.len() > 0 && available@[0] ==> (r matches Some(s) && s@ == device_name(
            spec_platform_hw_type(os),
        )),
{
    proof {
        lemma_accelerator_preference(os, available@);
    }
    let order = preferred_order(os);
    assert(order@.skip(0) =~= order@);
    assert(available@.skip(0) =~= available@);
    let mut i: usize = 0;
    while i < order.len()
        invariant
            order@ == preference_order(os),
            available@.len() == order@.len(),
            i <= order@.len(),
            first_available(order@, available@) == first_available(
                order@.skip(i as int),
                available@.skip(i as int),
            ),
        decreases order@.len() - i,
    {
        proof {
            assert(order@.skip(i as int).drop_first() =~= order@.skip(i + 1));
            assert(available@.skip(i as int).drop_first() =~= available@.skip(i + 1));
        }
        if available[i] {
            return Some(String::from_str(accelerator_name(order[i])));
        }
        i = i + 1;
    }
    None
}

} // verus!
