//! Rewrites a function whose parameter types name the placeholder types
//! `AnyString`, `AnyPath`, `AnyArray<T>`, `AnyIter<T>` and `AnyNdArray<T>` into an
//! equivalent generic function.
//!
//! Every placeholder is replaced by a fresh type parameter with a bound that says
//! what the argument must support, and a parameter whose own type is a placeholder
//! gets a statement at the top of the body that turns it into its concrete form.
//!
//! The function is given and returned as a syntax tree ([`ItemFn`]). Reading source
//! text into such a tree is left to the caller; [`ItemFn::to_text`] gives the source
//! text of the result.

pub mod counter;
pub mod error;
pub mod fold;
pub mod item;
pub mod laws;
pub mod order;
pub mod render;
pub mod special;
pub mod suffix;
pub mod syntax;
pub mod transform;
pub mod uuid_generator;

pub use crate::error::{Error, ErrorKind};
pub use crate::fold::DeltaPatType;
pub use crate::item::{
    Block, Bound, Conversion, FnArg, GenericParam, Generics, ItemFn, Pat, PatIdent, PatType,
    Signature, Stmt, WhereClause, WherePredicate,
};
pub use crate::special::{first_and_only, Arity, Special};
pub use crate::suffix::{simple_suffix_iter_factory, SimpleSuffixIter, SuffixIter};
pub use crate::syntax::{PathArguments, PathSegment, Piece, Type, TypePath};
pub use crate::transform::{
    anyinput_core, anyinput_core_sample, input_special, transform_fn, transform_fn_sample,
    DeltaFnArg, ItemFnAcc,
};
pub use crate::uuid_generator::UuidGenerator;
