//! Lazy, composable adaptors for pull-based sequences of `Result`-shaped
//! elements.
//!
//! Every adaptor wraps an upstream [`source::Source`] together with a
//! caller-supplied callback, and is itself a [`source::Source`], so adaptors
//! compose by plain nesting. Elements of the branch an adaptor does not
//! target pass through unchanged; work happens only when `next` is called.

pub mod and_then;
pub mod and_then_filter;
pub mod and_then_x;
pub mod callback;
pub mod errors;
pub mod filter;
pub mod filter_map;
pub mod flat_map;
pub mod flatten;
pub mod map;
pub mod ok_or_else;
pub mod oks;
pub mod onerr;
pub mod onok;
pub mod sift;
pub mod source;
pub mod try_filter;
pub mod try_filter_map;
pub mod try_map;
pub mod unwrap;
pub mod util;
pub mod while_ok;

pub use and_then::AndThen;
pub use errors::GetErrors;
pub use filter::Filter;
pub use filter_map::FilterMap;
pub use flat_map::FlatMap;
pub use flatten::Flatten;
pub use map::MapExt;
pub use ok_or_else::IterInnerOkOrElse;
pub use ok_or_else::ResultOptionExt;
pub use oks::GetOks;
pub use onerr::OnErrDo;
pub use onok::OnOkDo;
pub use unwrap::UnwrapWithExt;
pub use util::GetErr;
pub use util::GetOk;
pub use util::Process;
pub use while_ok::WhileOk;
