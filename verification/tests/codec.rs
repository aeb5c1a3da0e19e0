use bitcoin::consensus::serialize;
use bitcoin::network::constants::ServiceFlags;
use bitcoin::network::message::{NetworkMessage, RawNetworkMessage};
use bitcoin::network::message_network;
use bitcoin::network::Address;
use tx_broadcast::chain::{Network, PeerAddress};
use tx_broadcast::codec::encode;
use tx_broadcast::messages::{version_msg, NetAddress, Outgoing, VersionMessage};
use tx_broadcast::transaction::Transaction;

const TX_HEX: &str = "0100000001a15d57094aa7a21a28cb20b59aab8fc7d1149a3bdbcddba9c622e4f5f6a99ece010000006c493046022100f93bb0e7d8db7bd46e40132d1f8242026e045f03a0efe71bbb8e3f475e970d790221009337cd7f1f929f00cc6ff01f03729b069a7c21b59b1736ddfee5db5946c5da8c0121033b9b137ee87d5a812d6f506efdd37f0affa7ffc310711c06c7f3e097c9447c52ffffffff0100e1f505000000001976a9140389035a9225b3839e2bbf32d826a1e222031fd888ac00000000";

fn unhex(text: &str) -> Vec<u8> {
    let digits: Vec<u32> = text.chars().map(|c| c.to_digit(16).unwrap()).collect();
    digits.chunks(2).map(|pair| (pair[0] * 16 + pair[1]) as u8).collect()
}

fn reference_version(receiver: Address) -> Vec<u8> {
    let payload = NetworkMessage::Version(message_network::VersionMessage {
        version: 70016,
        services: ServiceFlags::NONE,
        timestamp: 0,
        receiver,
        sender: Address::new(&([0u8, 0, 0, 0], 0).into(), ServiceFlags::NONE),
        nonce: 0,
        user_agent: "/Satoshi:23.0.0/".to_string(),
        start_height: 0,
        relay: true,
    });
    serialize(&RawNetworkMessage { magic: 0x0709110B, payload })
}

#[test]
fn an_acknowledgement_is_a_bare_header() {
    let frame = encode(Network::Test.magic(), &Outgoing::Verack);
    assert_eq!(
        frame,
        vec![
            0x0b, 0x11, 0x09, 0x07, 0x76, 0x65, 0x72, 0x61, 0x63, 0x6b, 0x00, 0x00, 0x00, 0x00,
            0x00, 0x00, 0x00, 0x00, 0x00, 0x00, 0x5d, 0xf6, 0xe0, 0xe2,
        ]
    );
}

#[test]
fn the_magic_opens_the_frame() {
    let main = encode(Network::Main.magic(), &Outgoing::Verack);
    assert_eq!(&main[..4], &[0xf9, 0xbe, 0xb4, 0xd9]);
    let test = encode(Network::Test.magic(), &Outgoing::Verack);
    assert_eq!(&test[..4], &[0x0b, 0x11, 0x09, 0x07]);
    assert_eq!(&main[4..], &test[4..]);
}

#[test]
fn an_advertisement_lists_the_id_as_a_transaction() {
    let tx = Transaction::from_hex(TX_HEX).unwrap();
    let frame = encode(Network::Test.magic(), &Outgoing::Inv(vec![tx.txid()]));
    let expected = unhex(
        "0b110907696e760000000000000000002500000096a770030101000000b78c546d7b9ad96c7b18bdfca9a3d7b6a4a15b5091baa5582a27b54ac1b3eaa6",
    );
    assert_eq!(frame, expected);
}

#[test]
fn a_transaction_frame_carries_the_transaction_bytes() {
    let tx = Transaction::from_hex(TX_HEX).unwrap();
    let raw = tx.as_bytes().to_vec();
    let frame = encode(Network::Test.magic(), &Outgoing::Tx(tx));
    assert_eq!(&frame[..4], &[0x0b, 0x11, 0x09, 0x07]);
    assert_eq!(&frame[4..16], b"tx\0\0\0\0\0\0\0\0\0\0");
    assert_eq!(&frame[16..20], &(raw.len() as u32).to_le_bytes());
    assert_eq!(&frame[24..], &raw[..]);
    assert_eq!(frame.len(), 24 + raw.len());
}

#[test]
fn the_handshake_for_an_ipv4_peer_is_encoded_as_the_codec_does() {
    let peer = PeerAddress { ip: 0xffff_0102_0304, port: 18333 };
    let frame = encode(Network::Test.magic(), &Outgoing::Version(version_msg(peer)));
    let receiver = Address::new(&([1u8, 2, 3, 4], 18333).into(), ServiceFlags::NONE);
    assert_eq!(frame, reference_version(receiver));
    assert_eq!(&frame[4..16], b"version\0\0\0\0\0");
    assert_eq!(&frame[24..28], &70016u32.to_le_bytes());
}

#[test]
fn the_handshake_for_an_ipv6_peer_is_encoded_as_the_codec_does() {
    let peer = PeerAddress { ip: 0x2001_0db8_0000_0000_0000_0000_0012_3456, port: 8333 };
    let frame = encode(0x0709110B, &Outgoing::Version(version_msg(peer)));
    let groups = [0x2001u16, 0xdb8, 0, 0, 0, 0, 0x12, 0x3456];
    let receiver = Address::new(&(groups, 8333).into(), ServiceFlags::NONE);
    assert_eq!(frame, reference_version(receiver));
}

#[test]
fn the_handshake_fields_are_the_fixed_ones() {
    let peer = PeerAddress { ip: 0xffff_0a00_0001, port: 18333 };
    let msg = version_msg(peer);
    assert_eq!(
        msg,
        VersionMessage {
            version: 70016,
            services: 0,
            timestamp: 0,
            receiver: NetAddress { services: 0, ip: 0xffff_0a00_0001, port: 18333 },
            sender: NetAddress { services: 0, ip: 0xffff_0000_0000, port: 0 },
            nonce: 0,
            user_agent: String::from("/Satoshi:23.0.0/"),
            start_height: 0,
            relay: true,
        }
    );
}

#[test]
fn other_handshake_fields_reach_the_wire() {
    let msg = VersionMessage {
        version: 70015,
        services: 9,
        timestamp: 1_600_000_000,
        receiver: NetAddress { services: 1, ip: 0xffff_7f00_0001, port: 8333 },
        sender: NetAddress { services: 9, ip: 1, port: 4000 },
        nonce: 0x0102_0304_0506_0708,
        user_agent: String::from("/x/"),
        start_height: 700_000,
        relay: false,
    };
    let frame = encode(0xD9B4BEF9, &Outgoing::Version(msg));
    let payload = &frame[24..];
    assert_eq!(&payload[..4], &70015u32.to_le_bytes());
    assert_eq!(&payload[4..12], &9u64.to_le_bytes());
    assert_eq!(&payload[12..20], &1_600_000_000i64.to_le_bytes());
    assert_eq!(&payload[20..28], &1u64.to_le_bytes());
    assert_eq!(&payload[28..44], &[0, 0, 0, 0, 0, 0, 0, 0, 0, 0, 0xff, 0xff, 127, 0, 0, 1]);
    assert_eq!(&payload[44..46], &8333u16.to_be_bytes());
    assert_eq!(&payload[46..54], &9u64.to_le_bytes());
    assert_eq!(&payload[54..70], &[0, 0, 0, 0, 0, 0, 0, 0, 0, 0, 0, 0, 0, 0, 0, 1]);
    assert_eq!(&payload[70..72], &4000u16.to_be_bytes());
    assert_eq!(&payload[72..80], &0x0102_0304_0506_0708u64.to_le_bytes());
    assert_eq!(&payload[80..84], &[3, b'/', b'x', b'/']);
    assert_eq!(&payload[84..88], &700_000i32.to_le_bytes());
    assert_eq!(payload[88], 0);
    assert_eq!(payload.len(), 89);
}
