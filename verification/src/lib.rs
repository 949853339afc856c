//! A call-site stubbing facility for tests.
//!
//! The crate has two cooperating parts. The name resolver
//! ([`resolve_implicit`], [`resolve_explicit`]) turns the textual descriptor
//! that the host's introspection facility yields for a callable into a
//! normalized, stable [`StubbyName`]. The registry ([`StubbyState`]) maps such
//! names to type-erased stub payloads: a stored value duplicated on each
//! retrieval, or a producer invoked afresh each time.
//!
//! This library is the full, test-build shape of the facility. Compiling the
//! facility down to a zero-size placeholder outside test builds is the
//! business of the call-site injection layer that wraps the library, as is
//! the injection syntax itself; both are conditional-compilation shells with
//! no logic of their own.

mod name;
mod registry;

pub use name::resolve_explicit;
pub use name::resolve_implicit;
pub use name::StubbyName;
pub use registry::StubbyState;
