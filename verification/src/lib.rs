//! A read-only LDAP directory front end: a naming tree synthesized from a
//! naming context, a single organizational unit and a whitelist of users,
//! served through search and bind handlers whose behaviour is specified and
//! verified here.
#![verifier::loop_isolation(false)]

pub mod dbm;
pub mod entry;
pub mod filter;
pub mod msg;
pub mod session;
pub mod strutil;
