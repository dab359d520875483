//! A URL shortener's link handling: validating and normalizing target URLs,
//! generating link identifiers, turning store replies into HTTP outcomes,
//! and aggregating click statistics over an in-memory store of links.

pub mod model;
pub mod errors;
pub mod urls;
pub mod ids;
pub mod store;
pub mod handlers;
pub mod service;
pub mod laws;

pub use model::{Link, LinkTarget, CountedLinkStatistic, ClickEvent};
pub use errors::{GatewayError, ApiError, internal_error};
pub use urls::validate_target;
pub use ids::{generate_id, id_from_number, decimal_text};
pub use store::LinkStore;
pub use handlers::{Redirect, redirect_from_lookup, link_from_reply, statistics_from_reply};
