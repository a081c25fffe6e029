//! The decisions behind the service's HTTP and WebSocket routes.
pub mod core_routes;
pub mod slug_laws;
pub mod route_laws;
pub mod webrtc_routes;
pub mod webrtc_laws;
