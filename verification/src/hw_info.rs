//! What the client tells of the machine that it runs on.

use vstd::prelude::*;

use crate::number::{decimal, digits};
use crate::text::{glue, glue3};

verus! {

/// The machine, as the server is told of it.
#[derive(Debug, Clone)]
pub struct HwInfo {
    pub hwId: String,
    pub vendor: String,
    pub cpuName: String,
    pub familyId: u8,
    pub modelId: u8,
    pub steppingId: u8,
    pub frequency: Option<u64>,
    pub cores: u16,
    pub osName: String,
    pub hostName: String,
    pub totalSystemMemory: u64,
}

/// Which processor it is, by the numbers of its maker.
#[derive(Debug, Clone, Copy)]
pub struct CpuFeatures {
    pub familyId: u8,
    pub modelId: u8,
    pub steppingId: u8,
}

/// What could be read off the machine.
#[derive(Debug)]
pub struct MachineReading {
    pub features: Option<CpuFeatures>,
    pub vendor: Option<String>,
    pub brand: Option<String>,
    /// The highest frequency that the processor states, in megahertz.
    pub maxFrequency: Option<u16>,
    /// The physical threads that the processor states.
    pub physThreads: Option<usize>,
    pub hwId: Option<String>,
    /// The frequency that the system reports, in megahertz.
    pub cpuFrequency: Option<u64>,
    /// The memory that the system reports, in bytes.
    pub totalMemory: u64,
    /// The processors that the system counts.
    pub cpuCount: usize,
    pub osName: Option<String>,
    pub osVersion: Option<String>,
    pub hostName: Option<String>,
}

/// The cores of the machine: as the processor states them, else as the system counts them.
pub open spec fn core_count(m: MachineReading) -> Option<u16> {
    match m.physThreads {
        Some(n) => Some(n as u16),
        None => if m.cpuCount as u16 > 0 {
            Some(m.cpuCount as u16)
        } else {
            None
        },
    }
}

/// The frequency of the processor in hertz: as it states it, else as the system reports it.
pub open spec fn frequency_of(m: MachineReading) -> Option<nat> {
    match m.maxFrequency {
        Some(f) => Some(f as nat * 1000000),
        None => match m.cpuFrequency {
            Some(f) => Some(f as nat * 1000000),
            None => None,
        },
    }
}

/// Why the machine cannot be described, if it cannot.
pub open spec fn reading_refusal(m: MachineReading) -> Option<Seq<char>> {
    if m.features is None {
        Some("Failed to get CPU info"@)
    } else if m.vendor is None {
        Some("Failed to get CPU Vendor info"@)
    } else if m.hwId is None {
        Some("Failed to create HW-ID"@)
    } else if m.cpuFrequency matches Some(f) && f * 1000000 > u64::MAX {
        Some("Failed to execute CPU info"@)
    } else if m.totalMemory / 1024 == 0 {
        Some("Could not get total system memory"@)
    } else if core_count(m) is None {
        Some("Failed to get core count!"@)
    } else {
        None
    }
}

/// What an optional text holds, nothing where there is none.
pub open spec fn text_or_empty(s: Option<String>) -> Seq<char> {
    match s {
        Some(s) => s@,
        None => Seq::empty(),
    }
}

fn textOrEmpty(s: Option<String>) -> (r: String)
    ensures
        r@ == text_or_empty(s),
{
    match s {
        Some(s) => s,
        None => String::new(),
    }
}

/// Whether a result describes the machine by what could be read off it.
pub open spec fn described(m: MachineReading, result: Result<HwInfo, String>) -> bool {
    match result {
        Ok(info) => {
            &&& reading_refusal(m) is None
            &&& Some(info.hwId) == m.hwId
            &&& Some(info.vendor) == m.vendor
            &&& info.cpuName@ == text_or_empty(m.brand)
            &&& info.familyId == m.features->0.familyId
            &&& info.modelId == m.features->0.modelId
            &&& info.steppingId == m.features->0.steppingId
            &&& match info.frequency {
                Some(f) => frequency_of(m) == Some(f as nat),
                None => frequency_of(m) is None,
            }
            &&& Some(info.cores) == core_count(m)
            &&& info.osName@ == text_or_empty(m.osName) + " "@ + text_or_empty(m.osVersion)
            &&& info.hostName@ == text_or_empty(m.hostName)
            &&& info.totalSystemMemory == m.totalMemory / 1024
        },
        Err(e) => reading_refusal(m) == Some(e@),
    }
}

/// Describes the machine by what could be read off it.
pub fn collectInfo(m: MachineReading) -> (r: Result<HwInfo, String>)
    ensures
        described(m, r),
{
    let features = match m.features {
        Some(features) => features,
        None => return Err("Failed to get CPU info".to_owned()),
    };
    let vendor = match m.vendor {
        Some(vendor) => vendor,
        None => return Err("Failed to get CPU Vendor info".to_owned()),
    };
    let hwId = match m.hwId {
        Some(hwId) => hwId,
        None => return Err("Failed to create HW-ID".to_owned()),
    };
    let systemFrequency: Option<u64> = match m.cpuFrequency {
        Some(f) => match f.checked_mul(1000000) {
            Some(f) => Some(f),
            None => return Err("Failed to execute CPU info".to_owned()),
        },
        None => None,
    };
    let totalSystemMemory: u64 = m.totalMemory / 1024;
    if totalSystemMemory == 0 {
        return Err("Could not get total system memory".to_owned());
    }
    let frequency: Option<u64> = match m.maxFrequency {
        Some(f) => Some(f as u64 * 1000000),
        None => systemFrequency,
    };
    let cores: u16 = match m.physThreads {
        Some(n) => #[verifier::truncate] (n as u16),
        None => {
            let count: u16 = #[verifier::truncate] (m.cpuCount as u16);
            if count > 0 {
                count
            } else {
                return Err("Failed to get core count!".to_owned());
            }
        },
    };
    Ok(
        HwInfo {
            hwId,
            vendor,
            cpuName: textOrEmpty(m.brand),
            familyId: features.familyId,
            modelId: features.modelId,
            steppingId: features.steppingId,
            frequency,
            cores,
            osName: glue3(
                textOrEmpty(m.osName).as_str(),
                " ",
                textOrEmpty(m.osVersion).as_str(),
            ),
            hostName: textOrEmpty(m.hostName),
            totalSystemMemory,
        },
    )
}

/// By what a machine can be told from others.
#[derive(Debug, Clone, Copy, PartialEq, Eq, Structural)]
pub enum HwIdComponent {
    SystemID,
    MacAddress,
    Username,
    MachineName,
    OSName,
}

/// What the machine's identifier is made of, at each attempt to make one.
pub open spec fn hw_id_components(attempt: nat) -> Option<Seq<HwIdComponent>> {
    if attempt == 0 {
        Some(seq![HwIdComponent::SystemID])
    } else if attempt == 1 {
        Some(seq![HwIdComponent::MacAddress])
    } else if attempt == 2 {
        Some(seq![HwIdComponent::Username, HwIdComponent::MachineName, HwIdComponent::OSName])
    } else {
        None
    }
}

/// What the machine's identifier is to be made of when so many attempts have failed.
pub fn hwIdComponents(failed: u32) -> (r: Option<Vec<HwIdComponent>>)
    ensures
        match r {
            Some(list) => hw_id_components(failed as nat) == Some(list@),
            None => hw_id_components(failed as nat) is None,
        },
{
    let mut list: Vec<HwIdComponent> = Vec::new();
    match failed {
        0 => {
            list.push(HwIdComponent::SystemID);
            assert(list@ == seq![HwIdComponent::SystemID]);
        },
        1 => {
            list.push(HwIdComponent::MacAddress);
            assert(list@ == seq![HwIdComponent::MacAddress]);
        },
        2 => {
            list.push(HwIdComponent::Username);
            list.push(HwIdComponent::MachineName);
            list.push(HwIdComponent::OSName);
            assert(list@ == seq![
                HwIdComponent::Username,
                HwIdComponent::MachineName,
                HwIdComponent::OSName,
            ]);
        },
        _ => return None,
    }
    Some(list)
}

/// The whole kibibytes in so many bytes.
pub open spec fn kibibytes(bytes: u64) -> u64 {
    bytes / 1024
}

/// The free memory in kibibytes, by that in bytes.
pub fn getSystemFreeMemory(freeBytes: u64) -> (r: u64)
    ensures
        r == kibibytes(freeBytes),
{
    freeBytes / 1024
}

/// Whether a result is the memory of a process in kibibytes, by that in bytes.
pub open spec fn working_set(pid: u32, memory: Option<u64>, result: Result<u64, String>) -> bool {
    match result {
        Ok(kib) => memory matches Some(m) && m != 0 && kib == kibibytes(m),
        Err(e) => match memory {
            None => e@ == "Could not find process "@ + digits(pid as nat),
            Some(m) => m == 0 && e@ == "Could not retieve process memory: "@ + digits(pid as nat),
        },
    }
}

/// The memory of a process in kibibytes, by that in bytes; there is none where the process was
/// not found.
pub fn getProcessWorkingSet(pid: u32, memory: Option<u64>) -> (r: Result<u64, String>)
    ensures
        working_set(pid, memory, r),
{
    match memory {
        None => Err(glue("Could not find process ", decimal(pid as u64).as_str())),
        Some(m) => if m == 0 {
            Err(glue("Could not retieve process memory: ", decimal(pid as u64).as_str()))
        } else {
            Ok(m / 1024)
        },
    }
}

// What describing the machine is for

/// So many bytes hold that many kibibytes, and not one more.
pub proof fn law_kibibytes(bytes: u64)
    ensures
        kibibytes(bytes) * 1024 <= bytes < (kibibytes(bytes) + 1) * 1024,
{
}

/// The machine is described exactly if its processor, the maker and an identifier are known, the
/// system reports a frequency that can be counted or none, and there are memory and cores.
pub proof fn law_described(m: MachineReading, result: Result<HwInfo, String>)
    requires
        described(m, result),
    ensures
        result is Ok <==> m.features is Some && m.vendor is Some && m.hwId is Some && (
        m.cpuFrequency matches Some(f) ==> f * 1000000 <= u64::MAX) && m.totalMemory >= 1024
            && core_count(m) is Some,
        result matches Ok(info) ==> {
            &&& info.hwId@ == m.hwId->0@
            &&& info.vendor@ == m.vendor->0@
            &&& m.brand matches Some(brand) ==> info.cpuName@ == brand@
            &&& m.brand is None ==> info.cpuName@.len() == 0
            &&& info.familyId == m.features->0.familyId
            &&& info.modelId == m.features->0.modelId
            &&& info.steppingId == m.features->0.steppingId
            &&& m.hostName matches Some(name) ==> info.hostName@ == name@
            &&& m.hostName is None ==> info.hostName@.len() == 0
            &&& info.totalSystemMemory * 1024 <= m.totalMemory
            &&& m.totalMemory < (info.totalSystemMemory + 1) * 1024
        },
{
}

/// The name of the system is followed by its version, with a space between; either may be missing.
pub proof fn law_system_named(m: MachineReading, info: HwInfo)
    requires
        described(m, Ok(info)),
    ensures
        ({
            let name = if m.osName is Some {
                m.osName->0@
            } else {
                Seq::empty()
            };
            let version = if m.osVersion is Some {
                m.osVersion->0@
            } else {
                Seq::empty()
            };
            &&& info.osName@.len() == name.len() + 1 + version.len()
            &&& info.osName@.take(name.len() as int) == name
            &&& info.osName@[name.len() as int] == ' '
            &&& info.osName@.skip(name.len() as int + 1) == version
        }),
{
    reveal_strlit(" ");
    let name = text_or_empty(m.osName);
    let version = text_or_empty(m.osVersion);
    assert(info.osName@.take(name.len() as int) == name);
    assert(info.osName@.skip(name.len() as int + 1) == version);
}

/// What the processor states of itself counts before what the system reports: its cores and its
/// frequency, which is given in millions of hertz. Where neither knows the frequency there is none.
pub proof fn law_processor_first(m: MachineReading, info: HwInfo)
    requires
        described(m, Ok(info)),
    ensures
        m.physThreads matches Some(n) ==> n <= u16::MAX ==> info.cores == n,
        m.physThreads is None && m.cpuCount <= u16::MAX ==> info.cores == m.cpuCount && info.cores
            > 0,
        m.maxFrequency matches Some(f) ==> (info.frequency matches Some(hertz) && hertz == f
            * 1000000),
        m.maxFrequency is None ==> match m.cpuFrequency {
            Some(f) => info.frequency matches Some(hertz) && hertz == f * 1000000,
            None => info.frequency is None,
        },
{
}

/// A process that uses memory is found with it; without any it is not, and it is named.
pub proof fn law_working_set(pid: u32, memory: Option<u64>, result: Result<u64, String>)
    requires
        working_set(pid, memory, result),
    ensures
        result is Ok <==> (memory matches Some(m) && m > 0),
        result matches Ok(kib) ==> kib * 1024 <= memory->0 < (kib + 1) * 1024,
        result matches Err(e) ==> exists|head: Seq<char>| e@ == #[trigger] (head + digits(
            pid as nat,
        )),
{
    if let Err(e) = result {
        if memory is None {
            assert(e@ == "Could not find process "@ + digits(pid as nat));
        } else {
            assert(e@ == "Could not retieve process memory: "@ + digits(pid as nat));
        }
    }
}

/// An identifier is tried by the system's own first, then by the address of the network card, and at
/// last by the names of the user, the machine and the system together; after three attempts there is
/// nothing left, and nothing is tried twice.
pub proof fn law_hw_id_attempts(attempt: nat, later: nat)
    ensures
        hw_id_components(attempt) is Some <==> attempt < 3,
        hw_id_components(attempt) matches Some(list) ==> list.len() > 0,
        attempt == 0 ==> hw_id_components(attempt)->0 == seq![HwIdComponent::SystemID],
        attempt == 1 ==> hw_id_components(attempt)->0 == seq![HwIdComponent::MacAddress],
        attempt == 2 ==> hw_id_components(attempt)->0.len() == 3 && hw_id_components(
            attempt,
        )->0.contains(HwIdComponent::Username) && hw_id_components(attempt)->0.contains(
            HwIdComponent::MachineName,
        ) && hw_id_components(attempt)->0.contains(HwIdComponent::OSName),
        attempt < later < 3 ==> forall|i: int, j: int|
            0 <= i < hw_id_components(attempt)->0.len() && 0 <= j < hw_id_components(
                later,
            )->0.len() ==> #[trigger] hw_id_components(attempt)->0[i]
                != #[trigger] hw_id_components(later)->0[j],
{
    let last = hw_id_components(2)->0;
    assert(last[0] == HwIdComponent::Username);
    assert(last[1] == HwIdComponent::MachineName);
    assert(last[2] == HwIdComponent::OSName);
}

} // verus!
