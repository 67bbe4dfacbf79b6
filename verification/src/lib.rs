//! Scope functions: call a closure on a value in the middle of an expression,
//! and go on with either the closure's result or the value itself.
//!
//! ```
//! use kust::ScopeFunctions;
//!
//! let report = vec![8, 4, 19, 30, 1, 0]
//!     .apply(|v| v.sort())
//!     .also(|v| assert_eq!(v.len(), 6))
//!     .using(|v| (v[0], v[v.len() - 1]));
//! assert_eq!(report, (0, 30));
//! ```

pub mod scope_functions;

pub use scope_functions::ScopeFunctions;
