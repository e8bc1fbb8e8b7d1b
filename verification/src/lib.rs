pub mod crypto;
pub mod encoder;
pub mod errors;
pub mod fetcher;
pub mod game_connection_token;
pub mod game_data;
pub mod metaprog;
pub mod player_data;
pub mod players;
pub mod release_cache;
pub mod text;
pub mod token;
pub mod version;
