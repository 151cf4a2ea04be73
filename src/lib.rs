//! A client library for a mod-hosting service's REST API: entity types that
//! mirror the API's records, a read-through cache protocol with conditional
//! refresh and a status-gated merge for mod records, and request-quota
//! bookkeeping fed by response headers.

pub mod cache;
pub mod changelogs;
pub mod decimal;
pub mod endorsement;
pub mod endpoints;
pub mod files;
pub mod game;
pub mod key;
pub mod modinfo;
pub mod ratelimit;
pub mod search;
pub mod selection;
pub mod sorting;
pub mod text;
pub mod tracking;
pub mod transport;
pub mod user;
