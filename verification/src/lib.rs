//! A real-time, multi-room presence and message broadcast hub.
//!
//! Clients publish short text messages tagged with a room and receive a
//! server-pushed stream of all messages plus synthetic presence events.
//! The crate holds the in-memory core: the presence registry, the room
//! registry, the broadcast hub with its bounded ring buffer, and the
//! per-request service logic.  Transport, authentication and storage are
//! external collaborators handled by the surrounding program.

pub mod event;
pub mod hub;
pub mod presence;
pub mod rooms;
pub mod service;
pub mod token;
