//! Literal scanners: independent recognizers for single token grammars
//! (identifier, whitespace, decimal integer, multi-radix integer, float,
//! character escape, quoted string) at the front of a text buffer.
//!
//! Each scanner is a pure function from the remaining input to either the
//! remaining input after the match (always a suffix of what was passed in)
//! or a failure carrying the exact suffix at which scanning could not
//! proceed.

pub mod chars;
pub mod float;
pub mod laws;
pub mod radix;
pub mod scan;
pub mod text;
pub mod util;

pub use chars::digit_in;
pub use float::float;
pub use radix::classify_prefix;
pub use radix::integer;
pub use radix::RadixDecision;
pub use scan::decimal_integer;
pub use scan::identifier;
pub use scan::whitespace;
pub use scan::Error;
pub use text::char_escape;
pub use text::string;
pub use util::some_char;
