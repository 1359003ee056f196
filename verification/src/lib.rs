//! Parsing that always hands back a value.
//!
//! A field that fails to parse is replaced by a placeholder, a *forgery*, and the
//! error is handed back beside it, so that a parser can carry on and report every
//! error of a pass at once.
//!
//! - [`Forge`] says how a kind of syntax is forged. Identifiers, keywords,
//!   punctuation and delimiters can all be forged.
//! - [`ForgeRegistry`] numbers the forged identifiers, so that no two of them
//!   share a name.
//! - [`TokenCursor`] stands on a `syn` parse stream, and [`ParseOrForgeExt`]
//!   parses from it: `parse_or_forge` leaves a failure where it is, and
//!   `parse_or_forge_and_skip_tt` steps over the token tree that caused it.
//!
//! A parser takes one field after the other, keeps every value, and collects
//! the errors for later:
//!
//! ```text
//! let mut cursor = TokenCursor::new(input);
//! let (first, outcome) = cursor.parse_or_forge::<Ident>(&mut registry);
//! errors.extend(outcome.err());
//! let (comma, outcome) = cursor.parse_or_forge::<Comma>(&mut registry);
//! errors.extend(outcome.err());
//! let (second, outcome) = cursor.parse_or_forge::<Ident>(&mut registry);
//! errors.extend(outcome.err());
//! ```

pub mod cursor;
pub mod delimiters;
pub mod forge;
pub mod keywords;
pub mod name;
pub mod punctuation;
pub mod registry;
pub mod site;

pub use cursor::{ParseOrForgeExt, TokenCursor};
pub use forge::Forge;
pub use registry::ForgeRegistry;
pub use site::{placed_at, spread};
