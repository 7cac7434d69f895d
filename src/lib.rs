//! Permission index for role-based access control in a cluster: a model of
//! grants and the rule sets they point at (`grant`, `rules`), the parsing of
//! binding objects and the resolution of rule sets (`binding`), the index
//! itself with its read views and laws (`index`), and the decisions that turn
//! binding events into index updates (`reconcile`). Beside it stand the
//! grouping of pods by service account (`pods`) and a Fibonacci calculator
//! with a memo table (`fib`).
pub mod binding;
pub mod fib;
pub mod grant;
pub mod index;
pub mod pods;
pub mod reconcile;
pub mod rules;
