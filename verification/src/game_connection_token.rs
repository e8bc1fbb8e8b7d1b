//! Construction of the encrypted connection token a game client presents to
//! a game server.
//!
//! The token carries two fresh session keys and an expiry in the clear; both
//! are authenticated, together with the token version, as the associated
//! data of the cipher. The private part (API credentials and player
//! identity) is encoded with the binary encoder and encrypted in place.

use vstd::prelude::*;

use crate::crypto::{aead_decrypt, aead_encrypt, cipher_of, cipher_max_len, now_unix_secs,
    os_random_bytes};
use crate::encoder::{encoded_str, str_bytes, u32_le_bytes, u64_le_bytes, write_key, write_str,
    write_u32_le, write_u64_le, write_uuid};
use crate::errors::InternalError;

verus! {

/// Version of the connection-token wire format.
pub const TOKEN_VERSION: u32 = 1;

/// Bytes of the authentication tag the cipher appends.
pub const TAG_LEN: usize = 16;

/// The two fresh symmetric session keys handed to the client in the clear.
#[derive(Debug)]
pub struct GameEncryptionKeys {
    pub client_to_server: [u8; 32],
    pub server_to_client: [u8; 32],
}

impl GameEncryptionKeys {
    /// Two independent keys from the secure random source.
    pub fn generate() -> (r: Result<GameEncryptionKeys, InternalError>)
        ensures
            r matches Err(e) ==> e == InternalError::RandomSourceFailure,
    {
        let client_to_server = os_random_bytes::<32>()?;
        let server_to_client = os_random_bytes::<32>()?;
        Ok(GameEncryptionKeys { client_to_server, server_to_client })
    }
}

/// Address and port of the game server the token is valid for.
#[derive(Debug)]
pub struct GameServerAddress {
    pub address: String,
    pub port: u16,
}

/// The cleartext-but-authenticated header of a token.
#[derive(Debug)]
pub struct GameConnectionTokenAdditionalData {
    pub token_version: u32,
    pub expire_timestamp: u64,
    pub client_to_server_key: [u8; 32],
    pub server_to_client_key: [u8; 32],
}

/// Fixed little-endian layout of the additional-data header.
pub open spec fn additional_data_bytes(
    token_version: u32,
    expire_timestamp: u64,
    client_to_server_key: Seq<u8>,
    server_to_client_key: Seq<u8>,
) -> Seq<u8> {
    u32_le_bytes(token_version) + u64_le_bytes(expire_timestamp) + client_to_server_key
        + server_to_client_key
}

impl GameConnectionTokenAdditionalData {
    pub fn to_bytes(&self) -> (r: Vec<u8>)
        ensures
            r@ == additional_data_bytes(
                self.token_version,
                self.expire_timestamp,
                self.client_to_server_key@,
                self.server_to_client_key@,
            ),
    {
        let mut buf: Vec<u8> = Vec::new();
        write_u32_le(&mut buf, self.token_version);
        write_u64_le(&mut buf, self.expire_timestamp);
        write_key(&mut buf, &self.client_to_server_key);
        write_key(&mut buf, &self.server_to_client_key);
        proof {
            assert(buf@ =~= additional_data_bytes(
                self.token_version,
                self.expire_timestamp,
                self.client_to_server_key@,
                self.server_to_client_key@,
            ));
        }
        buf
    }
}

/// Identity of the player the token was issued for. The UUID is held as the
/// 16 bytes of its serialized little-endian byte order.
#[derive(Debug)]
pub struct GamePlayerData {
    pub uuid: [u8; 16],
    pub nickname: String,
}

/// Layout of the player identity: raw UUID bytes, then the length-prefixed
/// nickname.
pub open spec fn player_data_bytes(uuid: Seq<u8>, nickname: Seq<char>) -> Seq<u8> {
    uuid + encoded_str(str_bytes(nickname))
}

impl GamePlayerData {
    pub fn generate(uuid: [u8; 16], nickname: String) -> (r: GamePlayerData)
        ensures
            r.uuid@ == uuid@,
            r.nickname@ == nickname@,
    {
        GamePlayerData { uuid, nickname }
    }
}

/// The private part of a token, encrypted before it leaves the service.
#[derive(Debug)]
pub struct GameConnectionTokenPrivate {
    pub api_token: String,
    pub api_url: String,
    pub player_data: GamePlayerData,
}

/// Layout of the private part: length-prefixed API token and URL, then the
/// player identity.
pub open spec fn private_token_bytes(
    api_token: Seq<char>,
    api_url: Seq<char>,
    uuid: Seq<u8>,
    nickname: Seq<char>,
) -> Seq<u8> {
    encoded_str(str_bytes(api_token)) + encoded_str(str_bytes(api_url)) + player_data_bytes(
        uuid,
        nickname,
    )
}

/// Whether the strings of the private part fit the 4-byte length prefixes.
pub open spec fn private_token_encodable(p: &GameConnectionTokenPrivate) -> bool {
    str_bytes(p.api_token@).len() <= u32::MAX && str_bytes(p.api_url@).len() <= u32::MAX
        && str_bytes(p.player_data.nickname@).len() <= u32::MAX
}

impl GameConnectionTokenPrivate {
    /// The encoded private part, as `to_bytes` produces it.
    pub open spec fn to_bytes_spec(&self) -> Seq<u8> {
        private_token_bytes(
            self.api_token@,
            self.api_url@,
            self.player_data.uuid@,
            self.player_data.nickname@,
        )
    }

    pub fn generate(
        game_api_url: String,
        game_api_token: String,
        player_data: GamePlayerData,
    ) -> (r: GameConnectionTokenPrivate)
        ensures
            r.api_token@ == game_api_token@,
            r.api_url@ == game_api_url@,
            r.player_data == player_data,
    {
        GameConnectionTokenPrivate { api_token: game_api_token, api_url: game_api_url, player_data }
    }

    /// The encoded private part.
    pub fn to_bytes(&self) -> (r: Vec<u8>)
        requires
            private_token_encodable(self),
        ensures
            r@ == private_token_bytes(
                self.api_token@,
                self.api_url@,
                self.player_data.uuid@,
                self.player_data.nickname@,
            ),
    {
        let mut buf: Vec<u8> = Vec::new();
        write_str(&mut buf, self.api_token.as_str());
        write_str(&mut buf, self.api_url.as_str());
        write_uuid(&mut buf, &self.player_data.uuid);
        write_str(&mut buf, self.player_data.nickname.as_str());
        proof {
            assert(buf@ =~= private_token_bytes(
                self.api_token@,
                self.api_url@,
                self.player_data.uuid@,
                self.player_data.nickname@,
            ));
        }
        buf
    }
}

/// The private part followed by sixteen zero bytes of tag space, as handed
/// to the in-place cipher.
pub open spec fn padded_private_bytes(p: &GameConnectionTokenPrivate) -> Seq<u8> {
    private_token_bytes(p.api_token@, p.api_url@, p.player_data.uuid@, p.player_data.nickname@)
        + Seq::new(TAG_LEN as nat, |i: int| 0u8)
}

/// The client-facing token envelope.
#[derive(Debug)]
pub struct GameConnectionToken {
    pub token_version: u32,
    pub token_nonce: [u8; 24],
    pub creation_timestamp: u64,
    pub expire_timestamp: u64,
    pub encryption_keys: GameEncryptionKeys,
    pub game_server: GameServerAddress,
    pub private_token_data: Vec<u8>,
}

/// What holds of every token the service issues for `token_key`,
/// `duration_secs`, and private part `p`: the expiry lies `duration_secs`
/// after creation, and the payload is exactly the cipher's output for the
/// token's own nonce and header over the padded private part.
pub open spec fn token_well_formed(
    t: &GameConnectionToken,
    token_key: Seq<u8>,
    duration_secs: u64,
    p: &GameConnectionTokenPrivate,
) -> bool {
    &&& t.token_version == TOKEN_VERSION
    &&& t.expire_timestamp == t.creation_timestamp + duration_secs
    &&& t.private_token_data@ == cipher_of(
        token_key,
        t.token_nonce@,
        additional_data_bytes(
            TOKEN_VERSION,
            t.expire_timestamp,
            t.encryption_keys.client_to_server@,
            t.encryption_keys.server_to_client@,
        ),
        padded_private_bytes(p),
    )
    &&& t.private_token_data@.len() == padded_private_bytes(p).len() + TAG_LEN
}

impl GameConnectionToken {
    /// Deterministic core of token construction: assemble and encrypt a
    /// token for a given creation time, pair of session keys and nonce.
    pub fn build(
        token_key: &[u8; 32],
        now_secs: u64,
        duration_secs: u64,
        encryption_keys: GameEncryptionKeys,
        nonce: [u8; 24],
        server_address: GameServerAddress,
        private_token: GameConnectionTokenPrivate,
    ) -> (r: Result<GameConnectionToken, InternalError>)
        requires
            now_secs + duration_secs <= u64::MAX,
            private_token_encodable(&private_token),
        ensures
            r is Ok,
            r matches Ok(t) ==> {
                &&& token_well_formed(&t, token_key@, duration_secs, &private_token)
                &&& t.creation_timestamp == now_secs
                &&& t.token_nonce@ == nonce@
                &&& t.encryption_keys == encryption_keys
                &&& t.game_server == server_address
            },
    {
        let expire_timestamp = now_secs + duration_secs;
        let additional_data = GameConnectionTokenAdditionalData {
            token_version: TOKEN_VERSION,
            expire_timestamp,
            client_to_server_key: encryption_keys.client_to_server,
            server_to_client_key: encryption_keys.server_to_client,
        };
        let header_bytes = additional_data.to_bytes();
        let mut payload = private_token.to_bytes();
        let mut pad: usize = 0;
        while pad < TAG_LEN
            invariant
                0 <= pad <= TAG_LEN,
                payload@ == private_token.to_bytes_spec() + Seq::new(pad as nat, |i: int| 0u8),
            decreases TAG_LEN - pad,
        {
            payload.push(0u8);
            proof {
                assert(payload@ =~= private_token.to_bytes_spec() + Seq::new(
                    (pad + 1) as nat,
                    |i: int| 0u8,
                ));
            }
            pad += 1;
        }
        proof {
            assert(payload@ =~= padded_private_bytes(&private_token));
            assert(payload@.len() <= cipher_max_len());
        }
        match aead_encrypt(token_key, &nonce, header_bytes.as_slice(), &mut payload) {
            Ok(()) => Ok(GameConnectionToken {
                token_version: TOKEN_VERSION,
                token_nonce: nonce,
                creation_timestamp: now_secs,
                expire_timestamp,
                encryption_keys,
                game_server: server_address,
                private_token_data: payload,
            }),
            Err(e) => Err(e),
        }
    }

    /// Issue a token: capture the clock, draw two session keys and a nonce,
    /// then build. Every issued token is well formed for its own creation
    /// time, nonce and keys.
    pub fn generate(
        token_key: &[u8; 32],
        duration_secs: u64,
        server_address: GameServerAddress,
        private_token: GameConnectionTokenPrivate,
    ) -> (r: Result<GameConnectionToken, InternalError>)
        requires
            private_token_encodable(&private_token),
        ensures
            r matches Ok(t) ==> {
                &&& token_well_formed(&t, token_key@, duration_secs, &private_token)
                &&& t.game_server == server_address
            },
            r matches Err(e) ==> (e == InternalError::SystemTimeError || e
                == InternalError::RandomSourceFailure),
    {
        let now_secs = match now_unix_secs() {
            Some(t) => t,
            None => {
                return Err(InternalError::SystemTimeError);
            },
        };
        if now_secs > u64::MAX - duration_secs {
            // a wall clock this far in the future cannot be real
            return Err(InternalError::SystemTimeError);
        }
        let encryption_keys = GameEncryptionKeys::generate()?;
        let nonce = os_random_bytes::<24>()?;
        GameConnectionToken::build(
            token_key,
            now_secs,
            duration_secs,
            encryption_keys,
            nonce,
            server_address,
            private_token,
        )
    }
}


/// Decrypt the private payload of a token under the same key, nonce and
/// header: the counterpart a game server runs. Restores exactly the bytes
/// that were encrypted whenever the payload is the cipher's output for
/// these parameters and a plaintext the cipher can produce it from.
pub fn open_private_token_data(
    token_key: &[u8; 32],
    nonce: &[u8; 24],
    additional_data: &Vec<u8>,
    payload: Vec<u8>,
) -> (r: Option<Vec<u8>>)
    ensures
        forall|plaintext: Seq<u8>|
            plaintext.len() <= cipher_max_len() && payload@ == cipher_of(
                token_key@,
                nonce@,
                additional_data@,
                plaintext,
            ) ==> (r matches Some(p) && p@ == plaintext),
{
    let mut buffer = payload;
    match aead_decrypt(token_key, nonce, additional_data.as_slice(), &mut buffer) {
        Ok(()) => Some(buffer),
        Err(_) => None,
    }
}

} // verus!
