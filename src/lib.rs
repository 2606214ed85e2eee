use vstd::prelude::*;

pub mod style;
pub mod pattern;
pub mod selector;
pub mod context;
pub mod stylesheet;
pub mod meta;
pub mod import;

pub use context::{Context, ContextNode};
pub use import::{Import, ImportError};
pub use meta::MetaStylesheet;
pub use pattern::{PatternError, RegexCache};
pub use selector::{check_segment, SelectorError, SelectorSegment};
pub use style::{Colour, StyleBuilder};
pub use stylesheet::Stylesheet;

verus! {

} // verus!
