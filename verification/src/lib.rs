//! A transient on-screen notification ("toast") engine for an immediate-mode
//! host UI.
//!
//! The crate computes *what* should appear *where* and *for how long*; it never
//! paints anything. The host drives it once per frame with the elapsed time,
//! lays every returned entry out on screen, and reports user events (such as a
//! click on a close button) back in. All geometry and timing is carried in
//! plain integer units — the host converts to and from its own coordinate and
//! clock types at the boundary — which keeps every rule in this crate a proved
//! statement about exact arithmetic.

pub mod anchor;
pub mod layout;
pub mod registry;
pub mod toast;
