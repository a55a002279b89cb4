//! Visitor access, presence admission and reservations for a coliving house.

pub mod api;
pub mod api_calls;
pub mod api_laws;
pub mod auth;
pub mod base64url;
pub mod cors;
pub mod identifier;
pub mod identity;
pub mod json;
pub mod moment;
pub mod observability;
pub mod presence;
pub mod presence_answers;
pub mod presence_calls;
pub mod presence_history;
pub mod presence_laws;
pub mod reply;
pub mod reservation;
pub mod reservation_calls;
pub mod reservation_laws;
pub mod seal;
pub mod settings_calls;
pub mod settings_laws;
pub mod startup;
pub mod table;
pub mod text;
pub mod text_calls;
pub mod text_laws;
pub mod token;
pub mod uri;
pub mod visitor;
pub mod visitor_answers;
pub mod visitor_calls;
pub mod visitor_history;
pub mod visitor_laws;
