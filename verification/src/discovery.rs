//! Finding the board among the serial ports of the machine.

use vstd::prelude::*;
use vstd::string::StringExecFns;
use crate::device::DeviceOptions;
use crate::error::{DeviceError, Fault};
use crate::text::chars_of;

verus! {

/// The speed of the serial link, in baud. The link runs with eight data
/// bits, no parity and one stop bit.
pub const BAUD_RATE: u32 = 115200;

/// The time after which a read from the link gives up, in milliseconds. A
/// reply is complete when a read returns nothing or gives up.
pub const READ_TIMEOUT_MS: u64 = 100;

/// What is known of one serial port.
#[derive(Debug, Clone, PartialEq, Eq)]
pub struct PortInfo {
    /// The name under which the port is opened.
    pub port_name: String,
    /// The product string of the USB device behind the port, where there is
    /// one.
    pub product: Option<String>,
}

/// Whether a product string is that of the board: it starts with
/// `EiBotBoard`.
pub open spec fn is_board(product: Seq<char>) -> bool {
    product.len() >= 10 && product.subrange(0, 10) == "EiBotBoard"@
}

/// Whether a port has the board behind it.
pub open spec fn names_board(port: PortInfo) -> bool {
    port.product matches Some(product) && is_board(product@)
}

/// The names of the ports, each followed by a blank.
pub open spec fn port_names(ports: Seq<PortInfo>) -> Seq<char>
    decreases ports.len(),
{
    if ports.len() == 0 {
        Seq::<char>::empty()
    } else {
        port_names(ports.drop_last()) + ports.last().port_name@ + " "@
    }
}

/// Decides [`is_board`].
pub fn product_is_board(product: &str) -> (b: bool)
    ensures
        b == is_board(product@),
{
    let text = chars_of(product);
    let prefix = chars_of("EiBotBoard");
    proof {
        reveal_strlit("EiBotBoard");
    }
    if text.len() < 10 {
        return false;
    }
    let mut i: usize = 0;
    while i < 10
        invariant
            i <= 10,
            text.len() >= 10,
            text@ == product@,
            prefix@ == "EiBotBoard"@,
            prefix@.len() == 10,
            forall|k: int| 0 <= k < i ==> text@[k] == prefix@[k],
        decreases 10 - i,
    {
        if text[i] != prefix[i] {
            assert(text@.subrange(0, 10)[i as int] != prefix@[i as int]);
            return false;
        }
        i += 1;
    }
    assert(text@.subrange(0, 10) =~= prefix@);
    true
}

/// Picks the port to open: the one that the options name, where they name
/// one; else the first of `ports` that has the board behind it.
///
/// Where the options name no port and none of `ports` has the board, the
/// error is a connection error that says so and names the ports that were
/// looked at.
pub fn find_port(options: &DeviceOptions, ports: &Vec<PortInfo>) -> (r: Result<String, DeviceError>)
    ensures
        match options.port_name {
            Some(fixed) => r matches Ok(name) && name@ == fixed@,
            None => match r {
                Ok(name) => exists|i: int|
                    0 <= i < ports.len() && names_board(#[trigger] ports@[i]) && name@
                        == ports@[i].port_name@ && forall|j: int|
                        0 <= j < i ==> !names_board(#[trigger] ports@[j]),
                Err(e) => (forall|j: int|
                    0 <= j < ports.len() ==> !names_board(#[trigger] ports@[j])) && e@
                    == Fault::Connection(
                    "no device found among the ports: "@ + port_names(ports@),
                ),
            },
        },
{
    if let Some(fixed) = &options.port_name {
        return Ok(fixed.clone());
    }
    let mut seen = String::from_str("no device found among the ports: ");
    let mut i: usize = 0;
    assert(ports@.subrange(0, 0) =~= Seq::<PortInfo>::empty());
    while i < ports.len()
        invariant
            i <= ports.len(),
            options.port_name is None,
            forall|j: int| 0 <= j < i ==> !names_board(#[trigger] ports@[j]),
            seen@ == "no device found among the ports: "@ + port_names(
                ports@.subrange(0, i as int),
            ),
        decreases ports.len() - i,
    {
        let port = &ports[i];
        let found = match &port.product {
            Some(product) => product_is_board(product.as_str()),
            None => false,
        };
        if found {
            return Ok(port.port_name.clone());
        }
        proof {
            let upto = ports@.subrange(0, i as int + 1);
            assert(upto.drop_last() =~= ports@.subrange(0, i as int));
            assert(upto.last() == ports@[i as int]);
        }
        seen.append(port.port_name.as_str());
        seen.append(" ");
        i += 1;
    }
    assert(ports@.subrange(0, ports.len() as int) =~= ports@);
    Err(DeviceError::ConnectionError(seen))
}

} // verus!
