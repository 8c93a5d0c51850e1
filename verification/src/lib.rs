//! Financial tenors — the half-months, months, quarters, half-years and years
//! that commodity and financial contracts are quoted in — modelled as a type
//! plus an integer offset from a 1970 epoch.
pub mod calendar;
pub mod clock;
pub mod digits;
pub mod duration;
pub mod error;
pub mod format;
pub mod interpolation;
pub mod laws;
pub mod model;
pub mod notation;
pub mod order;
pub mod tenor;
pub mod tenor_type;
pub mod text;

pub use calendar::CalendarDate;
pub use duration::TenorDuration;
pub use error::TenorsError;
pub use clock::current_reference_year;
pub use text::{cme_tenor_parser, cme_tenor_parser_with_reference, futures_code_month0, month_from_futures_code_with_reference, FUTURESCODES};
pub use model::TENOR_EPOCH;
pub use tenor::Tenor;
pub use tenor_type::TenorType;
