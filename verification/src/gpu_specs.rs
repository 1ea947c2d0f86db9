//! What is said of the GPU in use.

use crate::devices::{adapter_name, flagged_software, is_software};
use crate::text::{
    decimal, digit_value, lemma_written_numbers_read_back, numeral, push_decimal, push_hex,
    read_number, utf16_text, Trimming,
};
use vstd::arithmetic::div_mod::lemma_fundamental_div_mod_converse;
use vstd::prelude::*;
use vstd::string::StringExecFns;

verus! {

/// The vendor number of NVIDIA.
pub const VENDOR_NVIDIA: u32 = 0x10DE;

/// The vendor number of AMD.
pub const VENDOR_AMD: u32 = 0x1002;

/// The vendor number of Intel.
pub const VENDOR_INTEL: u32 = 0x8086;

/// Who knows the version of a driver.
#[derive(Clone, Copy, Debug, PartialEq, Eq, Structural)]
pub enum DriverSource {
    /// NVIDIA's library.
    Nvidia,
    /// AMD's library.
    Amd,
    /// The system.
    Dxgi,
}

/// What is said of a GPU.
#[derive(Debug)]
pub struct GpuSpecs {
    pub is_software_emulated: bool,
    pub device_name: String,
    pub driver_name: String,
    pub driver_info: String,
}

/// What is said of a vendor.
pub open spec fn vendor_name(vendor_id: u32) -> Seq<char> {
    if vendor_id == VENDOR_NVIDIA {
        "NVIDIA Corporation"@
    } else if vendor_id == VENDOR_AMD {
        "AMD Corporation"@
    } else if vendor_id == VENDOR_INTEL {
        "Intel Corporation"@
    } else {
        "Unknown Vendor (ID: "@ + "0x"@ + numeral(vendor_id as nat, 16) + ")"@
    }
}

/// What is said of a vendor.
pub fn driver_name(vendor_id: u32) -> (result: String)
    ensures
        result@ == vendor_name(vendor_id),
{
    if vendor_id == VENDOR_NVIDIA {
        String::from_str("NVIDIA Corporation")
    } else if vendor_id == VENDOR_AMD {
        String::from_str("AMD Corporation")
    } else if vendor_id == VENDOR_INTEL {
        String::from_str("Intel Corporation")
    } else {
        let mut text = String::from_str("Unknown Vendor (ID: ");
        push_hex(&mut text, vendor_id as u64);
        text.append(")");
        text
    }
}

/// Who knows the version of a vendor's driver.
pub fn driver_source(vendor_id: u32) -> (result: DriverSource)
    ensures
        result == (if vendor_id == VENDOR_NVIDIA {
            DriverSource::Nvidia
        } else if vendor_id == VENDOR_AMD {
            DriverSource::Amd
        } else {
            DriverSource::Dxgi
        }),
{
    if vendor_id == VENDOR_NVIDIA {
        DriverSource::Nvidia
    } else if vendor_id == VENDOR_AMD {
        DriverSource::Amd
    } else {
        DriverSource::Dxgi
    }
}

/// The version of an NVIDIA driver: its number, the last two digits of which
/// are the minor version, and its branch.
pub fn nvidia_driver_version(driver_version: u32, branch: &str) -> (result: String)
    ensures
        result@ == decimal((driver_version / 100) as nat) + "."@ + decimal(
            (driver_version % 100) as nat,
        ) + " "@ + branch@,
{
    let mut text = String::new();
    push_decimal(&mut text, (driver_version / 100) as u64);
    text.append(".");
    push_decimal(&mut text, (driver_version % 100) as u64);
    text.append(" ");
    text.append(branch);
    assert(text@ =~= decimal((driver_version / 100) as nat) + "."@ + decimal(
        (driver_version % 100) as nat,
    ) + " "@ + branch@);
    text
}

/// A text, or another where there is none.
pub open spec fn text_or(text: Option<&str>, other: Seq<char>) -> Seq<char> {
    match text {
        Some(text) => text@,
        None => other,
    }
}

/// The version of an AMD driver: that of the software around it, and its own
/// in round brackets.
pub fn amd_driver_version(software_version: Option<&str>, driver_version: Option<&str>) -> (result:
    String)
    ensures
        result@ == text_or(software_version, "Unknown Radeon Software Version"@) + " ("@ + text_or(
            driver_version,
            "Unknown Radeon Driver Version"@,
        ) + ")"@,
{
    let mut text = match software_version {
        Some(version) => String::from_str(version),
        None => String::from_str("Unknown Radeon Software Version"),
    };
    text.append(" (");
    match driver_version {
        Some(version) => text.append(version),
        None => text.append("Unknown Radeon Driver Version"),
    }
    text.append(")");
    text
}

/// A whole number in base ten, after a minus sign if it is negative.
pub open spec fn signed_decimal(n: int) -> Seq<char> {
    if n < 0 {
        "-"@ + decimal((-n) as nat)
    } else {
        decimal(n as nat)
    }
}

/// The version of a driver, as the system gives it: four parts of sixteen bits
/// each, the first of which has the number's sign.
pub open spec fn dxgi_version(number: i64) -> Seq<char> {
    signed_decimal(number as int / 0x1_0000_0000_0000) + "."@ + decimal(
        ((number as int / 0x1_0000_0000) % 0x1_0000) as nat,
    ) + "."@ + decimal(((number as int / 0x1_0000) % 0x1_0000) as nat) + "."@ + decimal(
        (number as int % 0x1_0000) as nat,
    )
}

/// The version of a driver, as the system gives it.
pub fn dxgi_driver_version(number: i64) -> (result: String)
    ensures
        result@ == dxgi_version(number),
{
    // The parts from the last to the first, each without the ones after it.
    let mut rest: i64 = number;
    let fourth: u64 = last_part(rest);
    rest = without_last_part(rest);
    let third: u64 = last_part(rest);
    rest = without_last_part(rest);
    let second: u64 = last_part(rest);
    rest = without_last_part(rest);
    assert(rest == number as int / 0x1_0000_0000_0000);
    let mut text = String::new();
    if rest < 0 {
        text.append("-");
        push_decimal(&mut text, (-rest) as u64);
    } else {
        push_decimal(&mut text, rest as u64);
    }
    assert(text@ =~= signed_decimal(rest as int));
    text.append(".");
    push_decimal(&mut text, second);
    text.append(".");
    push_decimal(&mut text, third);
    text.append(".");
    push_decimal(&mut text, fourth);
    text
}

/// The last sixteen bits of a number.
fn last_part(number: i64) -> (result: u64)
    ensures
        result == number as int % 0x1_0000,
{
    if number >= 0 {
        (number as u64) % 0x1_0000
    } else {
        let mirrored: u64 = (-1 - number) as u64;
        0xFFFF - mirrored % 0x1_0000
    }
}

/// A number shifted right by sixteen bits.
fn without_last_part(number: i64) -> (result: i64)
    ensures
        result == number as int / 0x1_0000,
{
    if number >= 0 {
        ((number as u64) / 0x1_0000) as i64
    } else {
        let mirrored: u64 = (-1 - number) as u64;
        -1 - (mirrored / 0x1_0000) as i64
    }
}

/// What is said of a GPU. `driver_version` is what its driver's source says, if
/// that could be found out.
pub fn gpu_specs(
    description: &[u16],
    flags: u32,
    vendor_id: u32,
    driver_version: Option<&str>,
) -> (result: GpuSpecs)
    ensures
        result.is_software_emulated == flagged_software(flags),
        result.device_name@ == Trimming::Nul.rest(utf16_text(description@)),
        result.driver_name@ == vendor_name(vendor_id),
        result.driver_info@ == text_or(driver_version, "Unknown Driver"@),
{
    GpuSpecs {
        is_software_emulated: is_software(flags),
        device_name: adapter_name(description),
        driver_name: driver_name(vendor_id),
        driver_info: match driver_version {
            Some(version) => String::from_str(version),
            None => String::from_str("Unknown Driver"),
        },
    }
}

/// Law: a version that the system gives as one number is written as its four parts.
pub proof fn lemma_version_shows_its_parts(
    number: i64,
    first: i16,
    second: u16,
    third: u16,
    fourth: u16,
)
    requires
        number == first * 0x1_0000_0000_0000 + second * 0x1_0000_0000 + third * 0x1_0000 + fourth,
    ensures
        dxgi_version(number) == signed_decimal(first as int) + "."@ + decimal(second as nat) + "."@
            + decimal(third as nat) + "."@ + decimal(fourth as nat),
{
    let n = number as int;
    let low = second * 0x1_0000_0000 + third * 0x1_0000 + fourth;
    lemma_fundamental_div_mod_converse(n, 0x1_0000_0000_0000, first as int, low);
    lemma_fundamental_div_mod_converse(
        n,
        0x1_0000_0000,
        first * 0x1_0000 + second,
        third * 0x1_0000 + fourth,
    );
    lemma_fundamental_div_mod_converse(
        first * 0x1_0000 + second,
        0x1_0000,
        first as int,
        second as int,
    );
    let high = first * 0x1_0000_0000 + second * 0x1_0000 + third;
    lemma_fundamental_div_mod_converse(n, 0x1_0000, high, fourth as int);
    lemma_fundamental_div_mod_converse(
        high,
        0x1_0000,
        first * 0x1_0000 + second,
        third as int,
    );
}

/// Law: a whole number that was written can be read again, and has a sign in front
/// exactly if it is negative.
pub proof fn lemma_signed_numbers_read_back(n: int)
    ensures
        signed_decimal(n).len() > 0,
        n >= 0 ==> signed_decimal(n)[0] != '-' && read_number(signed_decimal(n), 10) == n,
        n < 0 ==> signed_decimal(n)[0] == '-' && read_number(signed_decimal(n).skip(1), 10) == -n,
{
    reveal_strlit("-");
    if n < 0 {
        lemma_written_numbers_read_back((-n) as nat, 10);
        assert(signed_decimal(n).skip(1) =~= decimal((-n) as nat));
    } else {
        lemma_written_numbers_read_back(n as nat, 10);
        assert(digit_value(decimal(n as nat)[0]) is Some);
    }
}

/// Law: different vendors are named differently, and one that has no name is named
/// by its number, which can be read again between the brackets.
pub proof fn lemma_vendors_are_told_apart(vendor_id: u32)
    ensures
        vendor_name(0x10DE) == "NVIDIA Corporation"@,
        vendor_name(0x1002) == "AMD Corporation"@,
        vendor_name(0x8086) == "Intel Corporation"@,
        vendor_id != 0x10DE && vendor_id != 0x1002 && vendor_id != 0x8086 ==> ({
            let name = vendor_name(vendor_id);
            &&& "Unknown Vendor (ID: 0x"@.is_prefix_of(name)
            &&& name.last() == ')'
            &&& read_number(name.subrange(22, name.len() - 1), 16) == vendor_id
        }),
{
    reveal_strlit("Unknown Vendor (ID: ");
    reveal_strlit("Unknown Vendor (ID: 0x");
    reveal_strlit("0x");
    reveal_strlit(")");
    lemma_written_numbers_read_back(vendor_id as nat, 16);
    if vendor_id != 0x10DE && vendor_id != 0x1002 && vendor_id != 0x8086 {
        let name = vendor_name(vendor_id);
        assert("Unknown Vendor (ID: 0x"@ =~= "Unknown Vendor (ID: "@ + "0x"@);
        assert(name.subrange(22, name.len() - 1) =~= numeral(vendor_id as nat, 16));
        assert("Unknown Vendor (ID: 0x"@ =~= name.subrange(0, 22));
    }
}

/// Law: what is known is said, and the other text only where nothing is known.
pub proof fn lemma_known_text_is_said(text: &str, other: Seq<char>)
    ensures
        text_or(Some(text), other) == text@,
        text_or(None, other) == other,
{
}

} // verus!
