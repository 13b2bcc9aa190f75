//! Readings of 1-Wire digital thermometer devices.
//!
//! The library holds the validated core of a thermometer reader: deciding
//! which entries of the device registry name a thermometer, and parsing a
//! device's raw two-line status record into a temperature in milli-degrees
//! Celsius, with integrity-flag checking and malformed-data rejection. All
//! input reaches it as plain text lines; the surrounding program does the
//! reading and the reporting.

mod discover;
mod numeric;
mod record;
mod split;

pub use discover::filter_sensor_names;
pub use numeric::parse_int_text;
pub use record::check_crc_line;
pub use record::parse_record;
pub use record::parse_temp_line;
pub use record::Error;
pub use split::splitn;
