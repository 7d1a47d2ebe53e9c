//! The rules behind the HTTP routes.

pub mod newsletter;
pub mod subscription_confirm;
pub mod subscriptions;
