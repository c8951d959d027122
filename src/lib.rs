//! Core logic of a LAN screen-sharing tool: frame scaling, pixel conversion,
//! H.264 frame classification, wire framing, peer registries and the
//! streaming session state machines.

pub mod scaler;
pub mod wire;
pub mod media;
pub mod protocol;
pub mod codec;
pub mod encoder;
pub mod decoder;
pub mod lan;
pub mod discovery;
pub mod connections;
pub mod sharer;
pub mod viewer;
pub mod service;
pub mod streaming;
pub mod chat;
pub mod input;
pub mod renderer;
pub mod capture;
pub mod transfer;
pub mod handler;
pub mod links;
