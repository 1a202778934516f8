//! Builders of outgoing requests.

pub mod create_stage_instance;
pub mod create_attachment;
pub mod execute_webhook;
