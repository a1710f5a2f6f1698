//! Native, content-opaque control plane for the active composer.
pub mod commands;
pub mod control;
pub mod control_laws;
pub mod correction;
pub mod correction_laws;
pub mod diff;
pub mod direct_laws;
pub mod direct_send;
pub mod digest;
pub mod dispatch;
pub mod enqueue;
pub mod enqueue_laws;
pub mod events;
pub mod fence;
pub mod hunk_laws;
pub mod hunks;
pub mod ids;
pub mod interactive;
pub mod interactive_laws;
pub mod laws;
pub mod lease;
pub mod ledger;
pub mod lifecycle;
pub mod lifecycle_laws;
pub mod pending;
pub mod pending_laws;
pub mod rebase;
pub mod rebase_laws;
pub mod receipt;
pub mod replay;
pub mod replay_laws;
pub mod requests;
pub mod routing;
pub mod routing_laws;
pub mod send_laws;
pub mod settle;
pub mod submission;
pub mod submission_laws;
pub mod target;
pub mod text;
pub mod text_laws;
pub mod trace_laws;
pub mod turn;
pub mod turn_laws;
pub mod widget;
pub mod widget_laws;
pub mod wire;
pub mod wire_laws;
