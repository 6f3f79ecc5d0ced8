//! What holds of the library as a whole, proved from its specifications.
//!
//! Each `law_` states one rule in full: its doc comment says it in words,
//! its `requires` and `ensures` say it exactly.  The `lemma_`s are the steps
//! on the way.

pub mod parsing;
pub mod routing;
pub mod transfer;
