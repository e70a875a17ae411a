use nostr_likes::codec::{
    check_npub, decode_payload, decode_public_key, Bech32Parts, PublicKey, Variant,
};
use nostr_likes::error::ErrorKind;
use nostr_sdk::prelude::{FromBech32, XOnlyPublicKey};

const NPUB: &str = "npub10elfcs4fr0l0r8af98jlmgdh9c8tcxjvz9qkw038js35mp4dma8qzvjptg";
const NPUB_UPPER: &str = "NPUB10ELFCS4FR0L0R8AF98JLMGDH9C8TCXJVZ9QKW038JS35MP4DMA8QZVJPTG";
const KEY: [u8; 32] = [
    0x7e, 0x7e, 0x9c, 0x42, 0xa9, 0x1b, 0xfe, 0xf1, 0x9f, 0xa9, 0x29, 0xe5, 0xfd, 0xa1, 0xb7, 0x2e,
    0x0e, 0xbc, 0x1a, 0x4c, 0x11, 0x41, 0x67, 0x3e, 0x27, 0x94, 0x23, 0x4d, 0x86, 0xad, 0xdf, 0x4e,
];

// The payload of `NPUB`: the 32 bytes of `KEY` in groups of five bits, the
// last group padded with zero bits.
fn payload_of_key() -> Vec<u8> {
    let mut groups = Vec::new();
    let mut acc: u32 = 0;
    let mut bits = 0;
    for byte in KEY {
        acc = (acc << 8) | byte as u32;
        bits += 8;
        while bits >= 5 {
            bits -= 5;
            groups.push(((acc >> bits) & 31) as u8);
        }
    }
    groups.push(((acc << (5 - bits)) & 31) as u8);
    groups
}

#[test]
fn decode_gives_the_key_of_a_public_key_text() {
    let key = decode_public_key(NPUB).unwrap();
    assert_eq!(key.as_bytes(), &KEY);
}

#[test]
fn decode_reads_a_second_key() {
    let key =
        decode_public_key("npub14f8usejl26twx0dhuxjh9cas7keav9vr0v8nvtwtrjqx3vycc76qqh9nsy")
            .unwrap();
    assert_eq!(
        nostr_likes::hex::to_hex(key.as_bytes()),
        "aa4fc8665f5696e33db7e1a572e3b0f5b3d615837b0f362dcb1c8068b098c7b4"
    );
}

#[test]
fn decode_reads_upper_case_as_lower_case() {
    assert_eq!(decode_public_key(NPUB_UPPER), decode_public_key(NPUB));
    assert_eq!(decode_public_key(NPUB_UPPER).unwrap().as_bytes(), &KEY);
}

#[test]
fn reencoding_a_decoded_key_gives_the_text_of_the_key() {
    let canonical = PublicKey::from_slice(&KEY).unwrap().to_bech32();
    assert_eq!(canonical, Some(NPUB.to_string()));
    assert_eq!(decode_public_key(NPUB).unwrap().to_bech32(), canonical);
    assert_eq!(decode_public_key(NPUB_UPPER).unwrap().to_bech32(), canonical);
}

#[test]
fn decode_refuses_what_is_not_bech32() {
    for text in [
        "",
        "npub",
        "hello world",
        "npub1",
        // no separator
        "npubqqqqqqqqqqqqqqqqqqqq",
        // a character beyond the alphabet
        "npub10elfcs4fr0l0r8af98jlmgdh9c8tcxjvz9qkw038js35mp4dma8qzvjptb",
        // the last character changed: the checksum is off
        "npub10elfcs4fr0l0r8af98jlmgdh9c8tcxjvz9qkw038js35mp4dma8qzvjptq",
        // both cases in one text
        "npub10elfcs4fr0l0r8af98jlmgdh9c8tcxjvz9qkw038js35mp4dma8qzvjptG",
        "Npub10elfcs4fr0l0r8af98jlmgdh9c8tcxjvz9qkw038js35mp4dma8qzvjptg",
        // the key in hexadecimal digits, not in bech32
        "7e7e9c42a91bfef19fa929e5fda1b72e0ebc1a4c1141673e2794234d86addf4e",
    ] {
        assert_eq!(decode_public_key(text), Err(ErrorKind::InvalidEncoding), "{}", text);
    }
}

#[test]
fn decode_refuses_another_prefix() {
    for text in [
        "nsec10elfcs4fr0l0r8af98jlmgdh9c8tcxjvz9qkw038js35mp4dma8qw6eqda",
        "note10elfcs4fr0l0r8af98jlmgdh9c8tcxjvz9qkw038js35mp4dma8qnx3ujq",
        "NOTE10ELFCS4FR0L0R8AF98JLMGDH9C8TCXJVZ9QKW038JS35MP4DMA8QNX3UJQ",
        // well-formed texts of the bech32 documents
        "a12uel5l",
        "abcdef1qpzry9x8gf2tvdw0s3jn54khce6mua7lmqqqxw",
    ] {
        assert_eq!(decode_public_key(text), Err(ErrorKind::WrongPrefix), "{}", text);
    }
}

#[test]
fn decode_refuses_another_prefix_before_it_looks_at_the_variant() {
    assert_eq!(
        decode_public_key("note10elfcs4fr0l0r8af98jlmgdh9c8tcxjvz9qkw038js35mp4dma8qx6pshz"),
        Err(ErrorKind::WrongPrefix)
    );
    assert_eq!(decode_public_key("a1lqfn3a"), Err(ErrorKind::WrongPrefix));
}

#[test]
fn decode_refuses_the_later_variant() {
    assert_eq!(
        decode_public_key("npub10elfcs4fr0l0r8af98jlmgdh9c8tcxjvz9qkw038js35mp4dma8qhszdw2"),
        Err(ErrorKind::WrongVariant)
    );
    assert_eq!(
        decode_public_key("NPUB10ELFCS4FR0L0R8AF98JLMGDH9C8TCXJVZ9QKW038JS35MP4DMA8QHSZDW2"),
        Err(ErrorKind::WrongVariant)
    );
}

#[test]
fn decode_refuses_a_payload_that_makes_no_whole_bytes() {
    // one group of five bits
    assert_eq!(decode_public_key("npub1pc3jnnt"), Err(ErrorKind::MalformedPayload));
    // padding bits that are not zero
    assert_eq!(
        decode_public_key("npub10elfcs4fr0l0r8af98jlmgdh9c8tcxjvz9qkw038js35mp4dma8pl6x5k6"),
        Err(ErrorKind::MalformedPayload)
    );
}

#[test]
fn decode_refuses_bytes_that_are_no_key() {
    // no byte at all
    assert_eq!(decode_public_key("npub106246s"), Err(ErrorKind::InvalidPublicKey));
    // 31 bytes
    assert_eq!(
        decode_public_key("npub10elfcs4fr0l0r8af98jlmgdh9c8tcxjvz9qkw038js35mp4dmup82t8f"),
        Err(ErrorKind::InvalidPublicKey)
    );
    // 32 bytes that are the x coordinate of no point
    assert_eq!(
        decode_public_key("npub1qqqqqqqqqqqqqqqqqqqqqqqqqqqqqqqqqqqqqqqqqqqqqqqqqqqqzqujme"),
        Err(ErrorKind::InvalidPublicKey)
    );
    assert_eq!(
        decode_public_key("npub1lllllllllllllllllllllllllllllllllllllllllllllllllllsq7lrjw"),
        Err(ErrorKind::InvalidPublicKey)
    );
}

#[test]
fn check_npub_hands_out_the_payload() {
    let parts =
        Bech32Parts { hrp: "npub".to_string(), data: vec![1, 2, 3], variant: Variant::Bech32 };
    assert_eq!(check_npub(parts), Ok(vec![1, 2, 3]));
    let parts = Bech32Parts { hrp: "npub".to_string(), data: vec![], variant: Variant::Bech32 };
    assert_eq!(check_npub(parts), Ok(vec![]));
}

#[test]
fn check_npub_refuses_another_prefix() {
    for hrp in ["nsec", "note", "", "npu", "npubx", "NPUB", "xnpub"] {
        let parts =
            Bech32Parts { hrp: hrp.to_string(), data: vec![1, 2, 3], variant: Variant::Bech32 };
        assert_eq!(check_npub(parts), Err(ErrorKind::WrongPrefix), "{}", hrp);
    }
}

#[test]
fn check_npub_refuses_the_later_variant() {
    let parts =
        Bech32Parts { hrp: "npub".to_string(), data: vec![1, 2, 3], variant: Variant::Bech32m };
    assert_eq!(check_npub(parts), Err(ErrorKind::WrongVariant));
}

#[test]
fn check_npub_names_the_prefix_first() {
    let parts =
        Bech32Parts { hrp: "nsec".to_string(), data: vec![1, 2, 3], variant: Variant::Bech32m };
    assert_eq!(check_npub(parts), Err(ErrorKind::WrongPrefix));
}

#[test]
fn decode_payload_regroups_five_bits_to_eight() {
    let payload = payload_of_key();
    assert_eq!(payload.len(), 52);
    let key = decode_payload(&payload).unwrap();
    assert_eq!(key.as_bytes(), &KEY);
}

#[test]
fn decode_payload_refuses_groups_above_31() {
    let mut payload = payload_of_key();
    payload[3] = 32;
    assert_eq!(decode_payload(&payload), Err(ErrorKind::MalformedPayload));
}

#[test]
fn decode_payload_refuses_bad_padding() {
    let mut payload = payload_of_key();
    payload[51] |= 1;
    assert_eq!(decode_payload(&payload), Err(ErrorKind::MalformedPayload));
    assert_eq!(decode_payload(&[1]), Err(ErrorKind::MalformedPayload));
}

#[test]
fn decode_payload_refuses_what_is_no_key() {
    assert_eq!(decode_payload(&[]), Err(ErrorKind::InvalidPublicKey));
    assert_eq!(decode_payload(&[0; 52]), Err(ErrorKind::InvalidPublicKey));
    let payload = payload_of_key();
    assert_eq!(decode_payload(&payload[..48]), Err(ErrorKind::InvalidPublicKey));
}

#[test]
fn from_slice_takes_the_bytes_of_a_key() {
    let key = PublicKey::from_slice(&KEY).unwrap();
    assert_eq!(key.as_bytes(), &KEY);
    assert_eq!(Ok(key), decode_public_key(NPUB));
}

#[test]
fn from_slice_refuses_what_is_no_key() {
    assert_eq!(PublicKey::from_slice(&[]), Err(ErrorKind::InvalidPublicKey));
    assert_eq!(PublicKey::from_slice(&KEY[..31]), Err(ErrorKind::InvalidPublicKey));
    assert_eq!(PublicKey::from_slice(&[0; 32]), Err(ErrorKind::InvalidPublicKey));
    assert_eq!(PublicKey::from_slice(&[0xff; 32]), Err(ErrorKind::InvalidPublicKey));
    assert_eq!(PublicKey::from_slice(&[0; 33]), Err(ErrorKind::InvalidPublicKey));
}

#[test]
fn to_bech32_writes_the_text_that_decodes_to_the_key() {
    let key = PublicKey::from_slice(&KEY).unwrap();
    let text = key.to_bech32().unwrap();
    assert_eq!(text, NPUB);
    assert_eq!(decode_public_key(&text), Ok(key));
}

#[test]
fn decode_agrees_with_the_protocol_library() {
    let theirs = XOnlyPublicKey::from_bech32(NPUB).unwrap();
    let ours = decode_public_key(NPUB).unwrap();
    assert_eq!(ours.as_bytes(), &theirs.serialize());
}

#[test]
fn every_error_has_its_message() {
    assert_eq!(ErrorKind::WrongPrefix.message(), "only npub... is allowed");
    assert_eq!(ErrorKind::WrongVariant.message(), "only bech32-(not-m) is allowed");
    let kinds = [
        ErrorKind::InvalidEncoding,
        ErrorKind::WrongPrefix,
        ErrorKind::WrongVariant,
        ErrorKind::MalformedPayload,
        ErrorKind::InvalidPublicKey,
        ErrorKind::RelayConnectFailure,
        ErrorKind::QueryTimeout,
        ErrorKind::RelayQueryFailure,
        ErrorKind::CacheCorrupt,
        ErrorKind::CachePersistFailure,
    ];
    for (i, a) in kinds.iter().enumerate() {
        assert!(!a.message().is_empty());
        for b in &kinds[i + 1..] {
            assert_ne!(a.message(), b.message());
        }
    }
}
