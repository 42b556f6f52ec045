//! Which entries of sysfs belong to the GPU, and where its readings are.

use crate::decimal::{append_decimal, decimal};
use crate::text::{
    chars_of, ends_with, first_line, first_line_len, leading_whitespace_len,
    lemma_suffix_ignores_leading_whitespace, trim, trim_end, trimmed_len,
};
use vstd::prelude::*;
use vstd::slice::slice_subrange;
use vstd::string::StringExecFns;

verus! {

/// The name under which the kernel's driver for AMD GPUs registers.
pub open spec fn driver_name() -> Seq<char> {
    "amdgpu"@
}

/// Whether `name`, the content of a hardware monitor's `name` file, is the
/// driver's name once the whitespace at both ends is removed.
pub open spec fn names_driver(name: Seq<char>) -> bool {
    trim(name) == driver_name()
}

/// Whether `uevent`, the content of a PCI device's `uevent` file, says that
/// the driver is bound to the device: its first line, the whitespace at both
/// ends removed, ends with the driver's name.
pub open spec fn bound_to_driver(uevent: Seq<char>) -> bool {
    driver_name().is_suffix_of(trim(first_line(uevent)))
}

/// The directory of the hardware monitor with the given number.
pub open spec fn hwmon_dir(index: nat) -> Seq<char> {
    "/sys/class/hwmon/hwmon"@ + decimal(index)
}

/// The file that names the driver of a hardware monitor.
pub open spec fn hwmon_name_path(index: nat) -> Seq<char> {
    hwmon_dir(index) + "/name"@
}

/// The file with the first temperature of a hardware monitor.
pub open spec fn hwmon_temp_path(index: nat) -> Seq<char> {
    hwmon_dir(index) + "/temp1_input"@
}

/// The file that describes the PCI device in directory `dir`.
pub open spec fn pci_uevent_path(dir: Seq<char>) -> Seq<char> {
    dir + "/uevent"@
}

/// The file with the load, in percent, of the GPU in directory `dir`.
pub open spec fn pci_usage_path(dir: Seq<char>) -> Seq<char> {
    dir + "/gpu_busy_percent"@
}

/// A PCI device as sysfs shows it: its directory, and the content of the
/// `uevent` file in it where that file could be read.
#[derive(Clone, Debug)]
pub struct PciDevice {
    pub path: String,
    pub uevent: Option<String>,
}

/// What a `PciDevice` stands for.
pub struct PciDeviceView {
    pub path: Seq<char>,
    pub uevent: Option<Seq<char>>,
}

impl View for PciDevice {
    type V = PciDeviceView;

    open spec fn view(&self) -> PciDeviceView {
        PciDeviceView {
            path: self.path@,
            uevent: match self.uevent {
                Some(text) => Some(text@),
                None => None,
            },
        }
    }
}

impl DeepView for PciDevice {
    type V = PciDeviceView;

    open spec fn deep_view(&self) -> PciDeviceView {
        self@
    }
}

impl PciDeviceView {
    /// Whether the device's `uevent` file was read and shows the driver
    /// bound to it.
    pub open spec fn is_gpu(self) -> bool {
        match self.uevent {
            Some(text) => bound_to_driver(text),
            None => false,
        }
    }
}

/// Whether `index` is the first place in `names` that holds the driver's
/// name.
pub open spec fn is_first_sensor(names: Seq<Seq<char>>, index: int) -> bool {
    &&& 0 <= index < names.len()
    &&& names_driver(names[index])
    &&& forall|j: int| 0 <= j < index ==> !names_driver(#[trigger] names[j])
}

/// Whether no place in `names` holds the driver's name.
pub open spec fn no_sensor(names: Seq<Seq<char>>) -> bool {
    forall|j: int| 0 <= j < names.len() ==> !names_driver(#[trigger] names[j])
}

/// Whether `index` is the first place in `devices` that holds a GPU.
pub open spec fn is_first_card(devices: Seq<PciDeviceView>, index: int) -> bool {
    &&& 0 <= index < devices.len()
    &&& devices[index].is_gpu()
    &&& forall|j: int| 0 <= j < index ==> !(#[trigger] devices[j]).is_gpu()
}

/// Whether no place in `devices` holds a GPU.
pub open spec fn no_card(devices: Seq<PciDeviceView>) -> bool {
    forall|j: int| 0 <= j < devices.len() ==> !(#[trigger] devices[j]).is_gpu()
}

/// At most one place in `names` is the first that holds the driver's name.
pub proof fn lemma_first_sensor_is_unique(names: Seq<Seq<char>>, i: int, j: int)
    requires
        is_first_sensor(names, i),
        is_first_sensor(names, j),
    ensures
        i == j,
{
    if i < j {
        assert(!names_driver(names[i]));
    } else if j < i {
        assert(!names_driver(names[j]));
    }
}

/// At most one place in `devices` is the first that holds a GPU.
pub proof fn lemma_first_card_is_unique(devices: Seq<PciDeviceView>, i: int, k: int)
    requires
        is_first_card(devices, i),
        is_first_card(devices, k),
    ensures
        i == k,
{
    if i < k {
        assert(!devices[i].is_gpu());
    } else if k < i {
        assert(!devices[k].is_gpu());
    }
}

/// Whether a device is bound to the driver does not depend on whitespace in
/// front of the first line of its `uevent` file: removing the whitespace at
/// the end of that line alone decides as removing it at both ends does.
pub proof fn lemma_bound_to_driver_ignores_leading_whitespace(uevent: Seq<char>)
    ensures
        bound_to_driver(uevent) == driver_name().is_suffix_of(trim_end(first_line(uevent))),
{
    reveal_strlit("amdgpu");
    lemma_suffix_ignores_leading_whitespace(trim_end(first_line(uevent)), driver_name());
}

/// Decides whether the content of a `name` file is the driver's name.
pub fn is_driver_name(name: &str) -> (r: bool)
    ensures
        r == names_driver(name@),
{
    let chars = chars_of(name);
    let end = trimmed_len(chars.as_slice());
    let front = slice_subrange(chars.as_slice(), 0, end);
    let start = leading_whitespace_len(front);
    let trimmed = slice_subrange(front, start, end);
    assert(trimmed@ == trim(name@));
    let driver = chars_of("amdgpu");
    let same = trimmed.len() == driver.len() && ends_with(trimmed, driver.as_slice());
    proof {
        if trimmed@.len() == driver@.len() {
            assert(trimmed@.subrange(0, trimmed@.len() as int) == trimmed@);
        }
    }
    same
}

/// Decides whether the content of a `uevent` file shows the driver bound.
pub fn is_driver_event(uevent: &str) -> (r: bool)
    ensures
        r == bound_to_driver(uevent@),
{
    let chars = chars_of(uevent);
    let end = first_line_len(chars.as_slice());
    let line = slice_subrange(chars.as_slice(), 0, end);
    let n = trimmed_len(line);
    let trimmed = slice_subrange(line, 0, n);
    let driver = chars_of("amdgpu");
    proof {
        lemma_bound_to_driver_ignores_leading_whitespace(uevent@);
    }
    ends_with(trimmed, driver.as_slice())
}

/// The directory that lists the PCI devices.
pub fn pci_devices_dir() -> (dir: &'static str)
    ensures
        dir@ == "/sys/bus/pci/devices"@,
{
    "/sys/bus/pci/devices"
}

/// The path of the `name` file of the hardware monitor numbered `index`.
pub fn hwmon_name_file(index: usize) -> (path: String)
    ensures
        path@ == hwmon_name_path(index as nat),
{
    let mut path = String::from_str("/sys/class/hwmon/hwmon");
    append_decimal(&mut path, index as u64);
    path.append("/name");
    path
}

/// The path of the temperature file of the hardware monitor numbered
/// `index`.
pub fn hwmon_temp_file(index: usize) -> (path: String)
    ensures
        path@ == hwmon_temp_path(index as nat),
{
    let mut path = String::from_str("/sys/class/hwmon/hwmon");
    append_decimal(&mut path, index as u64);
    path.append("/temp1_input");
    path
}

/// The path of the `uevent` file of the PCI device in directory `dir`.
pub fn pci_uevent_file(dir: &str) -> (path: String)
    ensures
        path@ == pci_uevent_path(dir@),
{
    let mut path = String::from_str(dir);
    path.append("/uevent");
    path
}

/// The path of the load file of the PCI device in directory `dir`.
pub fn pci_usage_file(dir: &str) -> (path: String)
    ensures
        path@ == pci_usage_path(dir@),
{
    let mut path = String::from_str(dir);
    path.append("/gpu_busy_percent");
    path
}

/// Looks for the GPU's temperature sensor among the hardware monitors.
///
/// `names[i]` is the content of the `name` file of the monitor numbered
/// `i`. The result is the temperature file of the first monitor that the
/// driver registered, and `None` where there is no such monitor.
pub fn find_temp_sensor(names: &Vec<String>) -> (found: Option<String>)
    ensures
        match found {
            Some(path) => exists|i: int|
                is_first_sensor(names.deep_view(), i) && path@ == hwmon_temp_path(i as nat),
            None => no_sensor(names.deep_view()),
        },
        found is None <==> no_sensor(names.deep_view()),
{
    let mut i: usize = 0;
    while i < names.len()
        invariant
            i <= names.len(),
            forall|j: int| 0 <= j < i ==> !names_driver(#[trigger] names.deep_view()[j]),
        decreases names.len() - i,
    {
        if is_driver_name(names[i].as_str()) {
            let path = hwmon_temp_file(i);
            assert(is_first_sensor(names.deep_view(), i as int));
            return Some(path);
        }
        i = i + 1;
    }
    None
}

/// Looks for the GPU among the PCI devices.
///
/// The result is the load file of the first device in `devices` that the
/// driver is bound to, and `None` where there is no such device. A device
/// whose `uevent` file could not be read is passed over.
pub fn find_card(devices: &Vec<PciDevice>) -> (found: Option<String>)
    ensures
        match found {
            Some(path) => exists|i: int|
                is_first_card(devices.deep_view(), i) && path@ == pci_usage_path(
                    devices.deep_view()[i].path,
                ),
            None => no_card(devices.deep_view()),
        },
        found is None <==> no_card(devices.deep_view()),
{
    let mut i: usize = 0;
    while i < devices.len()
        invariant
            i <= devices.len(),
            forall|j: int| 0 <= j < i ==> !(#[trigger] devices.deep_view()[j]).is_gpu(),
        decreases devices.len() - i,
    {
        let bound = match &devices[i].uevent {
            Some(text) => is_driver_event(text.as_str()),
            None => false,
        };
        if bound {
            let path = pci_usage_file(devices[i].path.as_str());
            assert(is_first_card(devices.deep_view(), i as int));
            return Some(path);
        }
        i = i + 1;
    }
    None
}

} // verus!
