//! The GPU's two sensor files, and the numbers read from them.

use crate::decimal::{
    decimal, lemma_decimal_round_trip, parse_bounded, parse_unsigned, ParseError,
};
use crate::discovery::{
    find_card, find_temp_sensor, hwmon_temp_path, is_first_card, is_first_sensor, no_card,
    no_sensor, pci_usage_path, PciDevice,
};
use crate::temperature::{shown_degrees, to_degrees};
use crate::text::{chars_of, is_whitespace, trim_end, trimmed_len};
use vstd::prelude::*;
use vstd::slice::slice_subrange;

verus! {

/// Why no GPU was found.
#[derive(Clone, Copy, Debug, PartialEq, Eq, Structural)]
pub enum DiscoveryError {
    /// No hardware monitor carries the driver's name.
    TempSensorNotFound,
    /// No PCI device is bound to the driver.
    PciDataNotFound,
}

impl DiscoveryError {
    /// The line to show to the user.
    pub fn message(&self) -> (text: &'static str)
        ensures
            text@ == match *self {
                DiscoveryError::TempSensorNotFound => "AMD GPU temperature sensor not found!"@,
                DiscoveryError::PciDataNotFound => "AMD PCI data not found!"@,
            },
    {
        match self {
            DiscoveryError::TempSensorNotFound => "AMD GPU temperature sensor not found!",
            DiscoveryError::PciDataNotFound => "AMD PCI data not found!",
        }
    }
}

/// The number that the content of a sensor file denotes: what is left of
/// `data` without its trailing whitespace, read as an unsigned number no
/// larger than `max`.
pub open spec fn reading(data: Seq<char>, max: nat) -> Result<nat, ParseError> {
    parse_unsigned(trim_end(data), max)
}

/// A file that holds a number as the kernel writes it, in base ten and
/// followed by a line feed, is read as that number.
pub proof fn lemma_reading_of_written_number(n: nat, max: nat)
    requires
        n <= max,
    ensures
        reading(decimal(n).push('\n'), max) == Ok::<nat, ParseError>(n),
        reading(decimal(n), max) == Ok::<nat, ParseError>(n),
{
    lemma_decimal_round_trip(n, max);
    let text = decimal(n);
    assert(!is_whitespace(text.last()));
    assert(text.push('\n').drop_last() == text);
    assert(trim_end(text.push('\n')) == trim_end(text));
}

/// Reads the content of a sensor file as a number no larger than `max`.
pub fn parse_reading(data: &str, max: u32) -> (r: Result<u32, ParseError>)
    ensures
        match reading(data@, max as nat) {
            Ok(v) => r == Ok::<u32, ParseError>(v as u32),
            Err(e) => r == Err::<u32, ParseError>(e),
        },
{
    let chars = chars_of(data);
    let n = trimmed_len(chars.as_slice());
    parse_bounded(slice_subrange(chars.as_slice(), 0, n), max)
}

/// The files from which the GPU's temperature and load are read.
#[derive(Clone, Debug)]
pub struct Gpu {
    temp_sensor: String,
    usage_file: String,
}

/// What a `Gpu` stands for: the paths of its two files.
pub struct GpuView {
    pub temp_sensor: Seq<char>,
    pub usage_file: Seq<char>,
}

impl View for Gpu {
    type V = GpuView;

    closed spec fn view(&self) -> GpuView {
        GpuView { temp_sensor: self.temp_sensor@, usage_file: self.usage_file@ }
    }
}

impl Gpu {
    /// Finds the GPU's files among what sysfs shows.
    ///
    /// `hwmon_names[i]` is the content of the `name` file of the hardware
    /// monitor numbered `i`; `devices` are the PCI devices in the order in
    /// which their directory lists them. The temperature sensor is looked
    /// for first.
    pub fn new(hwmon_names: &Vec<String>, devices: &Vec<PciDevice>) -> (r: Result<
        Gpu,
        DiscoveryError,
    >)
        ensures
            match r {
                Ok(gpu) => exists|i: int, k: int|
                    {
                        &&& is_first_sensor(hwmon_names.deep_view(), i)
                        &&& is_first_card(devices.deep_view(), k)
                        &&& gpu@.temp_sensor == hwmon_temp_path(i as nat)
                        &&& gpu@.usage_file == pci_usage_path(devices.deep_view()[k].path)
                    },
                Err(DiscoveryError::TempSensorNotFound) => no_sensor(hwmon_names.deep_view()),
                Err(DiscoveryError::PciDataNotFound) => {
                    &&& !no_sensor(hwmon_names.deep_view())
                    &&& no_card(devices.deep_view())
                },
            },
            r is Err <==> no_sensor(hwmon_names.deep_view()) || no_card(devices.deep_view()),
    {
        let temp_sensor = match find_temp_sensor(hwmon_names) {
            Some(path) => path,
            None => {
                return Err(DiscoveryError::TempSensorNotFound);
            },
        };
        let usage_file = match find_card(devices) {
            Some(path) => path,
            None => {
                return Err(DiscoveryError::PciDataNotFound);
            },
        };
        Ok(Gpu { temp_sensor, usage_file })
    }

    /// The path of the file that holds the temperature.
    pub fn temp_sensor(&self) -> (path: &str)
        ensures
            path@ == self@.temp_sensor,
    {
        self.temp_sensor.as_str()
    }

    /// The path of the file that holds the load.
    pub fn usage_file(&self) -> (path: &str)
        ensures
            path@ == self@.usage_file,
    {
        self.usage_file.as_str()
    }

    /// The temperature in whole degrees, Fahrenheit or Celsius, from the
    /// content of the temperature file: thousandths of a degree Celsius.
    pub fn get_temp(&self, data: &str, fahrenheit: bool) -> (r: Result<u8, ParseError>)
        ensures
            match reading(data@, u32::MAX as nat) {
                Ok(milli) => r == Ok::<u8, ParseError>(shown_degrees(milli, fahrenheit) as u8),
                Err(e) => r == Err::<u8, ParseError>(e),
            },
    {
        match parse_reading(data, u32::MAX) {
            Ok(milli) => Ok(to_degrees(milli, fahrenheit)),
            Err(e) => Err(e),
        }
    }

    /// The load in percent from the content of the load file. The number is
    /// not held to be at most 100.
    pub fn get_usage(&self, data: &str) -> (r: Result<u8, ParseError>)
        ensures
            match reading(data@, u8::MAX as nat) {
                Ok(percent) => r == Ok::<u8, ParseError>(percent as u8),
                Err(e) => r == Err::<u8, ParseError>(e),
            },
    {
        match parse_reading(data, 255) {
            Ok(percent) => Ok(percent as u8),
            Err(e) => Err(e),
        }
    }
}

} // verus!
