//! Service access points of the P25 packet-data link layer.

use vstd::prelude::*;

verus! {

/// A P25 service access point, identified over the air by a 6-bit code.
#[derive(Clone, Copy, Debug, PartialEq, Eq, Structural)]
pub enum ServiceAccessPoint {
    UnencryptedUserData,
    EncryptedUserData,
    CircuitData,
    CircuitDataControl,
    PacketData,
    ARP,
    SNDCPControl,
    ExtendedAddressing,
    RegistrationAuth,
    ChannelReassignment,
    SystemConfiguration,
    Loopback,
    Statistics,
    OutOfService,
    Paging,
    Configuration,
    UnencryptedKeyManagement,
    EncryptedKeyManagement,
    TrunkingControl,
    EncryptedTrunkingControl,
}

/// The 6-bit code that identifies a service access point.
pub open spec fn sap_code(sap: ServiceAccessPoint) -> u8 {
    match sap {
        ServiceAccessPoint::UnencryptedUserData => 0x00,
        ServiceAccessPoint::EncryptedUserData => 0x01,
        ServiceAccessPoint::CircuitData => 0x02,
        ServiceAccessPoint::CircuitDataControl => 0x03,
        ServiceAccessPoint::PacketData => 0x04,
        ServiceAccessPoint::ARP => 0x05,
        ServiceAccessPoint::SNDCPControl => 0x06,
        ServiceAccessPoint::ExtendedAddressing => 0x1F,
        ServiceAccessPoint::RegistrationAuth => 0x20,
        ServiceAccessPoint::ChannelReassignment => 0x21,
        ServiceAccessPoint::SystemConfiguration => 0x22,
        ServiceAccessPoint::Loopback => 0x23,
        ServiceAccessPoint::Statistics => 0x24,
        ServiceAccessPoint::OutOfService => 0x25,
        ServiceAccessPoint::Paging => 0x26,
        ServiceAccessPoint::Configuration => 0x27,
        ServiceAccessPoint::UnencryptedKeyManagement => 0x28,
        ServiceAccessPoint::EncryptedKeyManagement => 0x29,
        ServiceAccessPoint::TrunkingControl => 0x3D,
        ServiceAccessPoint::EncryptedTrunkingControl => 0x3F,
    }
}

/// The service access point assigned to a 6-bit code, if any.
pub open spec fn sap_for_code(bits: u8) -> Option<ServiceAccessPoint> {
    if bits == 0x00 { Some(ServiceAccessPoint::UnencryptedUserData) }
    else if bits == 0x01 { Some(ServiceAccessPoint::EncryptedUserData) }
    else if bits == 0x02 { Some(ServiceAccessPoint::CircuitData) }
    else if bits == 0x03 { Some(ServiceAccessPoint::CircuitDataControl) }
    else if bits == 0x04 { Some(ServiceAccessPoint::PacketData) }
    else if bits == 0x05 { Some(ServiceAccessPoint::ARP) }
    else if bits == 0x06 { Some(ServiceAccessPoint::SNDCPControl) }
    else if bits == 0x1F { Some(ServiceAccessPoint::ExtendedAddressing) }
    else if bits == 0x20 { Some(ServiceAccessPoint::RegistrationAuth) }
    else if bits == 0x21 { Some(ServiceAccessPoint::ChannelReassignment) }
    else if bits == 0x22 { Some(ServiceAccessPoint::SystemConfiguration) }
    else if bits == 0x23 { Some(ServiceAccessPoint::Loopback) }
    else if bits == 0x24 { Some(ServiceAccessPoint::Statistics) }
    else if bits == 0x25 { Some(ServiceAccessPoint::OutOfService) }
    else if bits == 0x26 { Some(ServiceAccessPoint::Paging) }
    else if bits == 0x27 { Some(ServiceAccessPoint::Configuration) }
    else if bits == 0x28 { Some(ServiceAccessPoint::UnencryptedKeyManagement) }
    else if bits == 0x29 { Some(ServiceAccessPoint::EncryptedKeyManagement) }
    else if bits == 0x3D { Some(ServiceAccessPoint::TrunkingControl) }
    else if bits == 0x3F { Some(ServiceAccessPoint::EncryptedTrunkingControl) }
    else { None }
}

impl ServiceAccessPoint {
    /// Parse a 6-bit service access point code. Codes with no assigned
    /// service yield `None`; values with any of the two upper bits set are
    /// ruled out by the caller.
    pub fn from_bits(bits: u8) -> (r: Option<ServiceAccessPoint>)
        requires
            bits >> 6 == 0,
        ensures
            r == sap_for_code(bits),
    {
        match bits {
            0x00 => Some(ServiceAccessPoint::UnencryptedUserData),
            0x01 => Some(ServiceAccessPoint::EncryptedUserData),
            0x02 => Some(ServiceAccessPoint::CircuitData),
            0x03 => Some(ServiceAccessPoint::CircuitDataControl),
            0x04 => Some(ServiceAccessPoint::PacketData),
            0x05 => Some(ServiceAccessPoint::ARP),
            0x06 => Some(ServiceAccessPoint::SNDCPControl),
            0x1F => Some(ServiceAccessPoint::ExtendedAddressing),
            0x20 => Some(ServiceAccessPoint::RegistrationAuth),
            0x21 => Some(ServiceAccessPoint::ChannelReassignment),
            0x22 => Some(ServiceAccessPoint::SystemConfiguration),
            0x23 => Some(ServiceAccessPoint::Loopback),
            0x24 => Some(ServiceAccessPoint::Statistics),
            0x25 => Some(ServiceAccessPoint::OutOfService),
            0x26 => Some(ServiceAccessPoint::Paging),
            0x27 => Some(ServiceAccessPoint::Configuration),
            0x28 => Some(ServiceAccessPoint::UnencryptedKeyManagement),
            0x29 => Some(ServiceAccessPoint::EncryptedKeyManagement),
            0x3D => Some(ServiceAccessPoint::TrunkingControl),
            0x3F => Some(ServiceAccessPoint::EncryptedTrunkingControl),
            _ => None,
        }
    }

    /// The 6-bit code of this service access point.
    pub fn to_bits(&self) -> (r: u8)
        ensures
            r == sap_code(*self),
            r >> 6 == 0,
    {
        let r: u8 = match *self {
            ServiceAccessPoint::UnencryptedUserData => 0x00,
            ServiceAccessPoint::EncryptedUserData => 0x01,
            ServiceAccessPoint::CircuitData => 0x02,
            ServiceAccessPoint::CircuitDataControl => 0x03,
            ServiceAccessPoint::PacketData => 0x04,
            ServiceAccessPoint::ARP => 0x05,
            ServiceAccessPoint::SNDCPControl => 0x06,
            ServiceAccessPoint::ExtendedAddressing => 0x1F,
            ServiceAccessPoint::RegistrationAuth => 0x20,
            ServiceAccessPoint::ChannelReassignment => 0x21,
            ServiceAccessPoint::SystemConfiguration => 0x22,
            ServiceAccessPoint::Loopback => 0x23,
            ServiceAccessPoint::Statistics => 0x24,
            ServiceAccessPoint::OutOfService => 0x25,
            ServiceAccessPoint::Paging => 0x26,
            ServiceAccessPoint::Configuration => 0x27,
            ServiceAccessPoint::UnencryptedKeyManagement => 0x28,
            ServiceAccessPoint::EncryptedKeyManagement => 0x29,
            ServiceAccessPoint::TrunkingControl => 0x3D,
            ServiceAccessPoint::EncryptedTrunkingControl => 0x3F,
        };
        proof {
            assert(r >> 6 == 0) by (bit_vector)
                requires r < 64u8;
        }
        r
    }
}

/// Every service access point is recovered from its own code: parsing the
/// code of a service access point yields that same service access point.
pub proof fn lemma_sap_round_trip(sap: ServiceAccessPoint)
    ensures
        sap_for_code(sap_code(sap)) == Some(sap),
{
}

/// Distinct codes name distinct service access points: whenever a code is
/// assigned, reading the code back off the parsed value returns the code.
pub proof fn lemma_sap_code_round_trip(bits: u8)
    requires
        sap_for_code(bits) is Some,
    ensures
        sap_code(sap_for_code(bits)->0) == bits,
{
}

} // verus!
