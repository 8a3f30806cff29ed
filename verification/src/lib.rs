pub mod api;
pub mod ceremony;
pub mod codec;
pub mod data;
pub mod evidence;
pub mod exchanges;
pub mod hex;
pub mod httpc;
pub mod json;
pub mod judge;
pub mod laws;
pub mod model;
pub mod plans;
pub mod quorum;
pub mod records;
pub mod refusals;
pub mod roundtrip;
pub mod scenario;
pub mod seed;
pub mod statements;
pub mod store;
pub mod text;
pub mod time;
pub mod wire;
