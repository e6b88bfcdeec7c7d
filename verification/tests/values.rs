use p25::values::ServiceAccessPoint;

#[test]
fn test_sap_round_trip() {
    let saps = [
        ServiceAccessPoint::UnencryptedUserData,
        ServiceAccessPoint::EncryptedUserData,
        ServiceAccessPoint::CircuitData,
        ServiceAccessPoint::CircuitDataControl,
        ServiceAccessPoint::PacketData,
        ServiceAccessPoint::ARP,
        ServiceAccessPoint::SNDCPControl,
        ServiceAccessPoint::ExtendedAddressing,
        ServiceAccessPoint::RegistrationAuth,
        ServiceAccessPoint::ChannelReassignment,
        ServiceAccessPoint::SystemConfiguration,
        ServiceAccessPoint::Loopback,
        ServiceAccessPoint::Statistics,
        ServiceAccessPoint::OutOfService,
        ServiceAccessPoint::Paging,
        ServiceAccessPoint::Configuration,
        ServiceAccessPoint::UnencryptedKeyManagement,
        ServiceAccessPoint::EncryptedKeyManagement,
        ServiceAccessPoint::TrunkingControl,
        ServiceAccessPoint::EncryptedTrunkingControl,
    ];
    for sap in saps {
        let bits = sap.to_bits();
        assert!(bits >> 6 == 0);
        assert_eq!(ServiceAccessPoint::from_bits(bits), Some(sap));
    }
}

#[test]
fn test_sap_codes() {
    assert_eq!(ServiceAccessPoint::PacketData.to_bits(), 0x04);
    assert_eq!(ServiceAccessPoint::TrunkingControl.to_bits(), 0x3D);
    assert_eq!(ServiceAccessPoint::from_bits(0x3F),
               Some(ServiceAccessPoint::EncryptedTrunkingControl));
}

#[test]
fn test_sap_unassigned() {
    assert_eq!(ServiceAccessPoint::from_bits(0x07), None);
    assert_eq!(ServiceAccessPoint::from_bits(0x1E), None);
    assert_eq!(ServiceAccessPoint::from_bits(0x2A), None);
    assert_eq!(ServiceAccessPoint::from_bits(0x3E), None);
}
