//! Player identity record with granted permissions, in the binary layout
//! the game server consumes: raw UUID bytes, length-prefixed nickname, then
//! a counted list of length-prefixed permission names.

use vstd::prelude::*;

use crate::encoder::{encoded_str, encoded_str_list, str_bytes, u32_le_bytes, write_str,
    write_uuid, write_vec_str};

verus! {

/// A player, with the permissions granted to the account. The UUID is held
/// as the 16 bytes of its serialized little-endian byte order.
#[derive(Debug)]
pub struct PlayerData {
    pub uuid: [u8; 16],
    pub nickname: String,
    pub permissions: Vec<String>,
}

/// The record's binary layout.
pub open spec fn player_record_bytes(p: &PlayerData) -> Seq<u8> {
    p.uuid@ + encoded_str(str_bytes(p.nickname@)) + u32_le_bytes(p.permissions@.len() as u32)
        + encoded_str_list(p.permissions@.map_values(|s: String| str_bytes(s@)))
}

impl PlayerData {
    pub fn new(uuid: [u8; 16], nickname: String, permissions: Vec<String>) -> (r: PlayerData)
        ensures
            r.uuid@ == uuid@,
            r.nickname@ == nickname@,
            r.permissions@ == permissions@,
    {
        PlayerData { uuid, nickname, permissions }
    }

    /// The encoded record.
    pub fn to_bytes(&self) -> (r: Vec<u8>)
        requires
            str_bytes(self.nickname@).len() <= u32::MAX,
            self.permissions@.len() <= u32::MAX,
            forall|i: int|
                0 <= i < self.permissions@.len() ==> str_bytes(
                    (#[trigger] self.permissions@[i])@,
                ).len() <= u32::MAX,
        ensures
            r@ == player_record_bytes(self),
    {
        let mut buf: Vec<u8> = Vec::new();
        write_uuid(&mut buf, &self.uuid);
        write_str(&mut buf, self.nickname.as_str());
        write_vec_str(&mut buf, &self.permissions);
        proof {
            assert(buf@ =~= player_record_bytes(self));
        }
        buf
    }
}

} // verus!
