//! Requests to a device's control endpoint.

use vstd::prelude::*;

verus! {

/// Hub features.
pub const HUB_FEATURE_PORT_RESET: u8 = 4;

pub const HUB_FEATURE_PORT_POWER: u8 = 8;

pub const HUB_FEATURE_C_PORT_RESET: u8 = 20;

/// A request.
#[derive(Clone, Copy, Debug, PartialEq, Eq, Structural)]
pub enum Setup {
    /// The start of the device descriptor.
    DeviceDescriptor { len: u16 },
    /// The start of the configuration descriptor.
    ConfigDescriptor { len: u16 },
    /// The start of a hub's descriptor, of the type that its speed calls for.
    HubDescriptor { super_speed: bool },
    SetConfiguration { value: u8 },
    /// Puts a keyboard into its boot protocol.
    SetBootProtocol { interface: u8 },
    SetPortFeature { feature: u8, port: u8 },
    ClearPortFeature { feature: u8, port: u8 },
    PortStatus { port: u8 },
}

impl Setup {
    /// The request's eight bytes: recipient and direction, the request, its
    /// value, its index and the length of its data, each least significant byte
    /// first.
    pub open spec fn packet_of(self) -> Seq<u8> {
        match self {
            Setup::DeviceDescriptor { len } => seq![
                0x80u8,
                0x06,
                0x00,
                0x01,
                0x00,
                0x00,
                (len % 0x100) as u8,
                (len / 0x100) as u8,
            ],
            Setup::ConfigDescriptor { len } => seq![
                0x80u8,
                0x06,
                0x00,
                0x02,
                0x00,
                0x00,
                (len % 0x100) as u8,
                (len / 0x100) as u8,
            ],
            Setup::HubDescriptor { super_speed } => seq![
                0xa0u8,
                0x06,
                0x00,
                if super_speed {
                    0x2a
                } else {
                    0x29
                },
                0x00,
                0x00,
                16,
                0x00,
            ],
            Setup::SetConfiguration { value } => seq![0x00u8, 0x09, value, 0, 0, 0, 0, 0],
            Setup::SetBootProtocol { interface } => seq![0x21u8, 0x0b, 0, 0, interface, 0, 0, 0],
            Setup::SetPortFeature { feature, port } => seq![0x23u8, 0x03, feature, 0, port, 0, 0, 0],
            Setup::ClearPortFeature { feature, port } => seq![
                0x23u8,
                0x01,
                feature,
                0,
                port,
                0,
                0,
                0,
            ],
            Setup::PortStatus { port } => seq![0xa3u8, 0x00, 0, 0, port, 0, 4, 0],
        }
    }

    /// How many bytes the device returns at most.
    pub open spec fn data_len_of(self) -> u16 {
        match self {
            Setup::DeviceDescriptor { len } => len,
            Setup::ConfigDescriptor { len } => len,
            Setup::HubDescriptor { .. } => 16,
            Setup::PortStatus { .. } => 4,
            _ => 0,
        }
    }

    /// The request's bytes.
    pub fn packet(self) -> (p: [u8; 8])
        ensures
            p@ == self.packet_of(),
    {
        let p: [u8; 8] = match self {
            Setup::DeviceDescriptor { len } => [
                0x80,
                0x06,
                0x00,
                0x01,
                0x00,
                0x00,
                (len % 0x100) as u8,
                (len / 0x100) as u8,
            ],
            Setup::ConfigDescriptor { len } => [
                0x80,
                0x06,
                0x00,
                0x02,
                0x00,
                0x00,
                (len % 0x100) as u8,
                (len / 0x100) as u8,
            ],
            Setup::HubDescriptor { super_speed } => [
                0xa0,
                0x06,
                0x00,
                if super_speed {
                    0x2a
                } else {
                    0x29
                },
                0x00,
                0x00,
                16,
                0x00,
            ],
            Setup::SetConfiguration { value } => [0x00, 0x09, value, 0, 0, 0, 0, 0],
            Setup::SetBootProtocol { interface } => [0x21, 0x0b, 0, 0, interface, 0, 0, 0],
            Setup::SetPortFeature { feature, port } => [0x23, 0x03, feature, 0, port, 0, 0, 0],
            Setup::ClearPortFeature { feature, port } => [0x23, 0x01, feature, 0, port, 0, 0, 0],
            Setup::PortStatus { port } => [0xa3, 0x00, 0, 0, port, 0, 4, 0],
        };
        assert(p@ =~= self.packet_of());
        p
    }

    /// The length of the data stage; zero for a request without one.
    pub fn data_len(self) -> (n: u16)
        ensures
            n == self.data_len_of(),
    {
        match self {
            Setup::DeviceDescriptor { len } => len,
            Setup::ConfigDescriptor { len } => len,
            Setup::HubDescriptor { .. } => 16,
            Setup::PortStatus { .. } => 4,
            _ => 0,
        }
    }
}

/// A request's last two bytes say how much data its transfer moves.
pub proof fn packets_state_their_length(s: Setup)
    ensures
        s.packet_of().len() == 8,
        s.packet_of()[6] + s.packet_of()[7] * 0x100 == s.data_len_of(),
{
}

/// The packets of the requests: the standard request for a descriptor of type 1 or 2, the class request for a
/// hub's descriptor of 16 bytes, and the requests that set a configuration, a boot protocol and a port's
/// feature, that clear one, and that read a port's four status bytes.
pub proof fn packets_are_these_bytes(len: u16, value: u8, port: u8)
    ensures
        (Setup::DeviceDescriptor { len }).packet_of().subrange(0, 6) == seq![
            0x80u8,
            6u8,
            0u8,
            1u8,
            0u8,
            0u8,
        ],
        (Setup::ConfigDescriptor { len }).packet_of().subrange(0, 6) == seq![
            0x80u8,
            6u8,
            0u8,
            2u8,
            0u8,
            0u8,
        ],
        (Setup::DeviceDescriptor { len }).data_len_of() == len,
        (Setup::ConfigDescriptor { len }).data_len_of() == len,
        (Setup::HubDescriptor { super_speed: false }).packet_of() == seq![
            0xa0u8,
            6u8,
            0u8,
            0x29u8,
            0u8,
            0u8,
            16u8,
            0u8,
        ],
        (Setup::HubDescriptor { super_speed: true }).packet_of() == seq![
            0xa0u8,
            6u8,
            0u8,
            0x2au8,
            0u8,
            0u8,
            16u8,
            0u8,
        ],
        (Setup::SetConfiguration { value }).packet_of() == seq![
            0u8,
            9u8,
            value,
            0u8,
            0u8,
            0u8,
            0u8,
            0u8,
        ],
        (Setup::SetBootProtocol { interface: value }).packet_of() == seq![
            0x21u8,
            11u8,
            0u8,
            0u8,
            value,
            0u8,
            0u8,
            0u8,
        ],
        (Setup::SetPortFeature { feature: value, port }).packet_of() == seq![
            0x23u8,
            3u8,
            value,
            0u8,
            port,
            0u8,
            0u8,
            0u8,
        ],
        (Setup::ClearPortFeature { feature: value, port }).packet_of() == seq![
            0x23u8,
            1u8,
            value,
            0u8,
            port,
            0u8,
            0u8,
            0u8,
        ],
        (Setup::PortStatus { port }).packet_of() == seq![0xa3u8, 0u8, 0u8, 0u8, port, 0u8, 4u8, 0u8],
{
    assert((Setup::DeviceDescriptor { len }).packet_of().subrange(0, 6) =~= seq![
        0x80u8,
        6u8,
        0u8,
        1u8,
        0u8,
        0u8,
    ]);
    assert((Setup::ConfigDescriptor { len }).packet_of().subrange(0, 6) =~= seq![
        0x80u8,
        6u8,
        0u8,
        2u8,
        0u8,
        0u8,
    ]);
}

} // verus!
