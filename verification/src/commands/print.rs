//! Printing commands.
use vstd::prelude::*;

verus! {

/// A USB device that looks like a receipt printer.
pub struct UsbPrinterInfo {
    pub vid: u16,
    pub pid: u16,
    pub manufacturer: Option<String>,
    pub product: Option<String>,
    pub serial_number: Option<String>,
}

} // verus!
