use tsom_api::encoder::{write_key, write_str, write_u32_le, write_u64_le, write_uuid, write_vec_str};
use tsom_api::game_connection_token::{
    open_private_token_data, GameConnectionToken, GameConnectionTokenAdditionalData,
    GameConnectionTokenPrivate, GameEncryptionKeys, GamePlayerData, GameServerAddress,
};
use tsom_api::player_data::PlayerData;
use tsom_api::token::Token;

fn sample_private_token() -> GameConnectionTokenPrivate {
    let player = GamePlayerData::generate([0xAB; 16], "nick".to_string());
    GameConnectionTokenPrivate::generate(
        "http://localhost".to_string(),
        "api-token".to_string(),
        player,
    )
}

fn sample_keys() -> GameEncryptionKeys {
    GameEncryptionKeys { client_to_server: [1; 32], server_to_client: [2; 32] }
}

fn header_bytes(expire: u64, keys: &GameEncryptionKeys) -> Vec<u8> {
    GameConnectionTokenAdditionalData {
        token_version: 1,
        expire_timestamp: expire,
        client_to_server_key: keys.client_to_server,
        server_to_client_key: keys.server_to_client,
    }
    .to_bytes()
}

#[test]
fn encoder_writes_little_endian_values() {
    let mut buf = Vec::new();
    write_u32_le(&mut buf, 0x0403_0201);
    assert_eq!(buf, vec![1, 2, 3, 4]);
    write_u64_le(&mut buf, 1);
    assert_eq!(buf[4..], [1, 0, 0, 0, 0, 0, 0, 0]);
}

#[test]
fn encoder_length_prefixes_strings() {
    let mut buf = Vec::new();
    write_str(&mut buf, "ab");
    assert_eq!(buf, vec![2, 0, 0, 0, b'a', b'b']);

    let mut buf = Vec::new();
    write_vec_str(&mut buf, &vec!["a".to_string(), "bc".to_string()]);
    assert_eq!(buf, vec![2, 0, 0, 0, 1, 0, 0, 0, b'a', 2, 0, 0, 0, b'b', b'c']);
}

#[test]
fn encoder_writes_keys_and_uuids_raw() {
    let mut buf = Vec::new();
    write_key(&mut buf, &[7; 32]);
    assert_eq!(buf, vec![7; 32]);

    let mut buf = Vec::new();
    let uuid: [u8; 16] = [0, 1, 2, 3, 4, 5, 6, 7, 8, 9, 10, 11, 12, 13, 14, 15];
    write_uuid(&mut buf, &uuid);
    assert_eq!(buf, uuid.to_vec());
}

#[test]
fn additional_data_has_fixed_layout() {
    let keys = sample_keys();
    let header = header_bytes(0x0102_0304_0506_0708, &keys);
    assert_eq!(header.len(), 4 + 8 + 32 + 32);
    assert_eq!(&header[0..4], &[1, 0, 0, 0]);
    assert_eq!(&header[4..12], &[8, 7, 6, 5, 4, 3, 2, 1]);
    assert_eq!(&header[12..44], &[1; 32]);
    assert_eq!(&header[44..76], &[2; 32]);
}

#[test]
fn private_token_encoding_is_length_prefixed_in_field_order() {
    let private = sample_private_token();
    let bytes = private.to_bytes();
    let mut expected = Vec::new();
    write_str(&mut expected, "api-token");
    write_str(&mut expected, "http://localhost");
    write_uuid(&mut expected, &[0xAB; 16]);
    write_str(&mut expected, "nick");
    assert_eq!(bytes, expected);
}

#[test]
fn player_record_layout_counts_permissions() {
    let player = PlayerData::new(
        [5; 16],
        "nick".to_string(),
        vec!["build".to_string(), "fly".to_string()],
    );
    let bytes = player.to_bytes();
    let mut expected = vec![5u8; 16];
    expected.extend_from_slice(&[4, 0, 0, 0]);
    expected.extend_from_slice(b"nick");
    expected.extend_from_slice(&[2, 0, 0, 0]);
    expected.extend_from_slice(&[5, 0, 0, 0]);
    expected.extend_from_slice(b"build");
    expected.extend_from_slice(&[3, 0, 0, 0]);
    expected.extend_from_slice(b"fly");
    assert_eq!(bytes, expected);
}

#[test]
fn token_round_trip_recovers_plaintext() {
    let token_key = [7; 32];
    let token = GameConnectionToken::build(
        &token_key,
        1_000,
        300,
        sample_keys(),
        [9; 24],
        GameServerAddress { address: "localhost".to_string(), port: 29536 },
        sample_private_token(),
    )
    .expect("token should build");

    assert_eq!(token.token_version, 1);
    assert_eq!(token.creation_timestamp, 1_000);
    assert_eq!(token.expire_timestamp, 1_300);
    assert_eq!(token.token_nonce, [9; 24]);
    assert_eq!(token.game_server.address, "localhost");
    assert_eq!(token.game_server.port, 29536);

    // ciphertext length is the padded plaintext plus the 16-byte tag
    let mut plaintext = sample_private_token().to_bytes();
    plaintext.resize(plaintext.len() + 16, 0);
    assert_eq!(token.private_token_data.len(), plaintext.len() + 16);

    let header = header_bytes(1_300, &sample_keys());
    let opened = open_private_token_data(
        &token_key,
        &token.token_nonce,
        &header,
        token.private_token_data.clone(),
    )
    .expect("authentic payload should decrypt");
    assert_eq!(opened, plaintext);
}

#[test]
fn token_with_tampered_header_fails_authentication() {
    let token_key = [7; 32];
    let token = GameConnectionToken::build(
        &token_key,
        1_000,
        300,
        sample_keys(),
        [9; 24],
        GameServerAddress { address: "localhost".to_string(), port: 29536 },
        sample_private_token(),
    )
    .expect("token should build");

    // altered expiry in the authenticated header
    let tampered = header_bytes(1_301, &sample_keys());
    let opened = open_private_token_data(
        &token_key,
        &token.token_nonce,
        &tampered,
        token.private_token_data.clone(),
    );
    assert!(opened.is_none());

    // wrong key
    let header = header_bytes(1_300, &sample_keys());
    let opened = open_private_token_data(
        &[8; 32],
        &token.token_nonce,
        &header,
        token.private_token_data.clone(),
    );
    assert!(opened.is_none());
}

#[test]
fn generate_issues_a_well_formed_token() {
    let token = GameConnectionToken::generate(
        &[7; 32],
        300,
        GameServerAddress { address: "localhost".to_string(), port: 29536 },
        sample_private_token(),
    )
    .expect("token generation should succeed");
    assert_eq!(token.token_version, 1);
    assert_eq!(token.expire_timestamp - token.creation_timestamp, 300);
    let plaintext_len = sample_private_token().to_bytes().len() + 16;
    assert_eq!(token.private_token_data.len(), plaintext_len + 16);
}

#[test]
fn fresh_session_keys_differ() {
    let a = GameEncryptionKeys::generate().expect("random source");
    let b = GameEncryptionKeys::generate().expect("random source");
    assert_ne!(a.client_to_server, b.client_to_server);
    assert_ne!(a.server_to_client, b.server_to_client);
    assert_ne!(a.client_to_server, a.server_to_client);
}

#[test]
fn bearer_token_is_the_base64_of_its_key() {
    let key: [u8; 32] = core::array::from_fn(|i| i as u8);
    let token = Token::from_key_bytes(&key);
    assert_eq!(token.as_str(), "AAECAwQFBgcICQoLDA0ODxAREhMUFRYXGBkaGxwdHh8=");
    assert_eq!(token.as_str().len(), 44);
}

#[test]
fn generated_bearer_tokens_fit_the_store_column() {
    let token = Token::generate().expect("random source");
    assert_eq!(token.as_str().len(), 44);
    let again = Token::generate().expect("random source");
    assert_ne!(token.as_str(), again.as_str());
}
