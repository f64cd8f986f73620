use jnet::checksum::{compute_checksum, verify_checksum};
use jnet::icmp::{EchoReply, EchoRequest, Packet, Type, HEADER_SIZE};
use jnet::{Invalid, Unknown, Valid};

// ICMP part of a 42-byte Ethernet + IPv4 + ICMP echo request frame:
// type 8, code 0, checksum 0xf7f9, identifier 4, sequence number 2
const BYTES: [u8; 8] = [8, 0, 247, 249, 0, 4, 0, 2];

#[test]
fn construct() {
    // start from arbitrary bytes to make sure every field gets set
    let buffer = vec![0xa5, 0x3c, 0x91, 0x07, 0xee, 0x12, 0x6b, 0xd4];
    let mut icmp: Packet<EchoRequest, Invalid> = Packet::new(buffer);
    icmp.set_identifier(4);
    icmp.set_sequence_number(2);
    let icmp: Packet<EchoRequest, Valid> = icmp.update_checksum();
    assert_eq!(icmp.as_bytes(), &BYTES[..]);
}

#[test]
fn parse() {
    let icmp = Packet::parse(BYTES.to_vec())
        .ok()
        .unwrap()
        .downcast::<EchoRequest>()
        .ok()
        .unwrap();
    assert_eq!(icmp.get_identifier(), 4);
    assert_eq!(icmp.get_sequence_number(), 2);
    assert_eq!(icmp.get_type(), Type::EchoRequest);
    assert_eq!(icmp.get_code(), 0);
    assert_eq!(icmp.len(), HEADER_SIZE);
    assert!(icmp.payload().is_empty());
}

#[test]
fn parse_rejects_short_buffer() {
    let short = vec![8, 0, 247, 249, 0, 4, 0];
    match Packet::parse(short.clone()) {
        Ok(_) => panic!("a seven-byte buffer parsed"),
        Err(b) => assert_eq!(b, short),
    }
}

#[test]
fn parse_rejects_every_checksum_bit_flip() {
    for byte in 2..4 {
        for bit in 0..8 {
            let mut bytes = BYTES.to_vec();
            bytes[byte] ^= 1 << bit;
            match Packet::parse(bytes.clone()) {
                Ok(_) => panic!("corrupted checksum accepted"),
                Err(b) => assert_eq!(b, bytes),
            }
        }
    }
}

#[test]
fn checksum_of_fixture() {
    let zeroed = [8u8, 0, 0, 0, 0, 4, 0, 2];
    assert_eq!(compute_checksum(&zeroed, 2), 0xf7f9);
    // the field is taken as zero whatever it holds
    assert_eq!(compute_checksum(&BYTES, 2), 0xf7f9);
    assert!(verify_checksum(&BYTES));
    assert!(!verify_checksum(&zeroed));
}

#[test]
fn checksum_round_trip_with_odd_payload() {
    let mut bytes = vec![0u8, 0, 0, 0, 0x12, 0x34, 0x56, 0x78, 0x9a, 0xbc, 0xde];
    let c = compute_checksum(&bytes, 2);
    // words 0x0000 0x0000 0x1234 0x5678 0x9abc 0xde00 sum to 0x1_e168,
    // which folds to 0xe169
    assert_eq!(c, !0xe169u16);
    bytes[2] = (c >> 8) as u8;
    bytes[3] = c as u8;
    assert!(verify_checksum(&bytes));
}

#[test]
fn checksum_of_all_ones_words() {
    let bytes = [0xffu8, 0xff, 0, 0, 0xff, 0xff, 0xff, 0xff];
    assert_eq!(compute_checksum(&bytes, 2), 0);
    assert!(verify_checksum(&bytes));
}

#[test]
fn type_round_trip_for_every_byte() {
    for b in 0..=255u8 {
        assert_eq!(Type::from_byte(b).to_byte(), b);
    }
    assert_eq!(Type::from_byte(0), Type::EchoReply);
    assert_eq!(Type::from_byte(3), Type::DestinationUnreachable);
    assert_eq!(Type::from_byte(8), Type::EchoRequest);
    assert_eq!(Type::from_byte(11), Type::Other(11));
}

#[test]
fn downcast_to_echo_request() {
    let icmp = Packet::parse(BYTES.to_vec()).ok().unwrap();
    assert!(icmp.downcast::<EchoRequest>().is_ok());
}

#[test]
fn downcast_fails_on_other_type_or_code() {
    let icmp = Packet::parse(BYTES.to_vec()).ok().unwrap();
    let icmp = match icmp.downcast::<EchoReply>() {
        Ok(_) => panic!("echo request taken as echo reply"),
        Err(p) => p,
    };
    assert_eq!(icmp.as_bytes(), &BYTES[..]);

    let mut icmp: Packet<Unknown, Invalid> = icmp.set_code(1);
    icmp.set_type(Type::EchoRequest);
    let bytes = icmp.as_bytes().to_vec();
    match icmp.downcast::<EchoRequest>() {
        Ok(_) => panic!("nonzero code accepted"),
        Err(p) => assert_eq!(p.as_bytes(), &bytes[..]),
    }
}

#[test]
fn unknown_packet_reads_live_type_and_code() {
    let icmp = Packet::parse(BYTES.to_vec()).ok().unwrap();
    let mut icmp = icmp.set_type(Type::Other(42));
    icmp.set_code(7);
    assert_eq!(icmp.get_type(), Type::Other(42));
    assert_eq!(icmp.get_code(), 7);
    let icmp: Packet<Unknown, Valid> = icmp.update_checksum();
    assert_eq!(&icmp.as_bytes()[..2], &[42, 7]);
    assert!(verify_checksum(icmp.as_bytes()));
}

#[test]
fn mutation_demotes_then_update_restores() {
    let icmp = Packet::parse(BYTES.to_vec())
        .ok()
        .unwrap()
        .downcast::<EchoRequest>()
        .ok()
        .unwrap();
    let icmp: Packet<EchoRequest, Invalid> = icmp.set_identifier(5);
    assert_eq!(icmp.get_identifier(), 5);
    assert!(!verify_checksum(icmp.as_bytes()));
    let icmp: Packet<EchoRequest, Valid> = icmp.update_checksum();
    assert_eq!(icmp.as_bytes(), &[8, 0, 247, 248, 0, 5, 0, 2]);
    assert!(verify_checksum(icmp.as_bytes()));

    let icmp = icmp.set_sequence_number(0x0102);
    assert_eq!(icmp.get_sequence_number(), 0x0102);
    let icmp = icmp.update_checksum();
    assert!(verify_checksum(icmp.as_bytes()));
    assert_ne!(&icmp.as_bytes()[2..4], &[247, 248]);
}

#[test]
fn echo_reply_from_request() {
    let mut bytes = BYTES.to_vec();
    bytes.extend_from_slice(&[1, 2, 3]);
    let mut req: Packet<EchoRequest, Invalid> = Packet::new(bytes);
    req.set_identifier(0x1234);
    req.set_sequence_number(7);
    let req = req.update_checksum();
    let reply: Packet<EchoReply, Valid> = Packet::from(req);
    assert_eq!(reply.get_type(), Type::EchoReply);
    assert_eq!(reply.get_code(), 0);
    assert_eq!(reply.get_identifier(), 0x1234);
    assert_eq!(reply.get_sequence_number(), 7);
    assert_eq!(reply.payload(), &[1, 2, 3]);
    assert_eq!(reply.len(), 11);
    assert_eq!(reply.as_bytes()[0], 0);
    assert!(verify_checksum(reply.as_bytes()));
    let parsed = Packet::parse(reply.as_bytes().to_vec()).ok().unwrap();
    assert!(parsed.downcast::<EchoReply>().is_ok());
}

#[test]
fn payload_can_be_written_in_place() {
    let mut icmp: Packet<EchoRequest, Invalid> = Packet::new(vec![0; 12]);
    icmp.payload_mut().copy_from_slice(&[9, 8, 7, 6]);
    assert_eq!(icmp.payload(), &[9, 8, 7, 6]);
    assert_eq!(&icmp.as_bytes()[..2], &[8, 0]);
    let icmp = icmp.update_checksum();
    let copy = icmp.clone();
    assert_eq!(copy.as_bytes(), icmp.as_bytes());
    assert!(Packet::parse(copy.as_bytes().to_vec()).is_ok());
}

#[test]
fn identifier_zero_and_all_ones_give_same_checksum() {
    let mut icmp: Packet<EchoRequest, Invalid> = Packet::new(vec![0; 8]);
    icmp.set_identifier(0);
    let icmp = icmp.update_checksum();
    let before = icmp.get_checksum();
    let icmp = icmp.set_identifier(0xffff).update_checksum();
    assert_eq!(icmp.get_checksum(), before);
    assert!(verify_checksum(icmp.as_bytes()));
}

#[test]
fn type_change_moves_checksum() {
    let icmp = Packet::parse(BYTES.to_vec()).ok().unwrap();
    assert_eq!(icmp.get_checksum(), 0xf7f9);
    let icmp = icmp.set_type(Type::DestinationUnreachable).update_checksum();
    assert_eq!(icmp.get_type(), Type::DestinationUnreachable);
    // the type word drops from 0x0800 to 0x0300
    assert_eq!(icmp.get_checksum(), 0xf7f9 + 0x0500);
}
