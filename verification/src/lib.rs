//! Parser for five-field crontab schedules.
//!
//! A schedule is five space-separated fields (minute, hour, day of month,
//! month, day of week). Each field is a comma-separated list of atoms: a
//! number, an inclusive range `lo-hi`, a wildcard `*`, or a stepped wildcard
//! `*/n`. Every number is checked against the bounds of the field it stands in.
//!
//! The grammar is written down as specification functions over sequences of
//! characters (module `grammar`); the executable parser (module `parser`) is
//! proved to compute exactly what they say.

pub mod error;
pub mod grammar;
pub mod laws;
pub mod parser;
pub mod part;
mod scan;
pub mod text;
pub mod value;

pub use error::{CrontabError, CrontabErrorKind};
pub use parser::{
    crontab_field, crontab_number, crontab_range, crontab_value, crontab_values, crontab_wildcard,
    nom_crontab_timer,
};
pub use part::CrontabPart;
pub use value::{CrontabTimer, CrontabValue};
