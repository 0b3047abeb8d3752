//! A verified model of a lazy-route resolution protocol for a client-side
//! router: routes defer both the code (view module) and the data needed to
//! render until navigation, while the two loads are issued together so they
//! never serialize into a waterfall.

pub mod comments;
pub mod deferred;
pub mod modules;
pub mod nav;
pub mod render;
pub mod routes;
pub mod views;
