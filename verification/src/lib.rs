//! Deterministic, bounded transport logic for a low-latency remote desktop.
//!
//! Packetization, reassembly, deadlines, congestion adaptation and the session
//! state machines are independent of sockets, clocks and TLS, so every rule
//! here is stated as a contract and proved. The surrounding application owns
//! the I/O and hands plain values in.

pub mod acl;
pub mod address;
pub mod assembly_laws;
pub mod bytes;
pub mod chars;
pub mod codec;
pub mod codec_laws;
pub mod congestion;
pub mod congestion_laws;
pub mod control;
pub mod counter;
pub mod delivery;
pub mod digest;
pub mod entropy;
pub mod error;
pub mod fragment;
pub mod ice;
pub mod ice_run;
pub mod identity;
pub mod key_laws;
pub mod lab;
pub mod lab_laws;
pub mod lane_laws;
pub mod link_laws;
pub mod media;
pub mod media_laws;
pub mod path_laws;
pub mod pool_laws;
pub mod probe;
pub mod product;
pub mod quic;
pub mod reassembly;
pub mod reassembly_laws;
pub mod replay;
pub mod route;
pub mod route_laws;
pub mod routes;
pub mod session;
pub mod session_laws;
pub mod simulator;
pub mod simulator_laws;
pub mod stun;
pub mod surface;
pub mod surface_laws;
pub mod tag_laws;
pub mod telemetry;
pub mod telemetry_laws;
pub mod text;
pub mod text_laws;
pub mod turn;
pub mod turn_laws;
pub mod view_laws;
pub mod wording;
