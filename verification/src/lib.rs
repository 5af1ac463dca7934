//! Parsing of power-supply `uevent` status text into a typed battery snapshot:
//! line and field extraction, numeric coercion, classification of the
//! enumerated fields, and the page model of the front end.

pub mod numbers;
pub mod page;
pub mod record;
pub mod text;
pub mod uevent;
