//! Hardware-adaptive function dispatch: capability targets, a specialization
//! registry ranked by specificity, and a pure resolver that picks the most
//! specialized implementation the running hardware supports, with a baseline
//! fallback.

pub mod dispatch;
pub mod error;
pub mod front;
pub mod meta;
pub mod registry;
pub mod resolver;
pub mod target;

pub use dispatch::{choose_method, dispatch_direct, dispatch_indirect, selected_body,
    CapabilityCache, SelectionCache};
pub use error::{Error, ErrorKind};
pub use front::{make_multiversioned, Function, FunctionDecl, SpecializationDecl};
pub use meta::{Lit, Meta, MetaMap, MetaPath, NestedMeta};
pub use registry::{DispatchMethod, FinalizedRegistry, Registry, ReturnShape, Signature,
    Specialization};
pub use resolver::{resolve, Selection};
pub use target::{CapabilitySet, Target};
