//! The modes in which the device shows itself on USB.

use vstd::prelude::*;

verus! {

/// Whether `mode` is one of the three modes that can be set.
pub open spec fn is_usb_mode(mode: u8) -> bool {
    1 <= mode && mode <= 3
}

/// Whether `mode` is one of the three modes that can be set.
pub fn is_valid_usb_mode(mode: u8) -> (valid: bool)
    ensures
        valid == is_usb_mode(mode),
{
    1 <= mode && mode <= 3
}

/// The name of a mode; `Unknown` for no mode and for a number that stands for none.
pub open spec fn mode_name(mode: Option<u8>) -> Seq<char> {
    match mode {
        Some(m) => if m == 1 {
            "CDC-NCM"@
        } else if m == 2 {
            "CDC-ECM"@
        } else if m == 3 {
            "RNDIS"@
        } else {
            "Unknown"@
        },
        None => "Unknown"@,
    }
}

/// The name of a mode.
pub fn get_mode_name(mode: Option<u8>) -> (name: String)
    ensures
        name@ == mode_name(mode),
{
    match mode {
        Some(1) => "CDC-NCM".to_string(),
        Some(2) => "CDC-ECM".to_string(),
        Some(3) => "RNDIS".to_string(),
        _ => "Unknown".to_string(),
    }
}

} // verus!
