//! An object store over a distributed file system.
//!
//! Objects are files: the object `dir/name` is the file `/dir/name`. Every
//! operation of the store is a state machine that requests one call of the file
//! system at a time and takes its answer; who runs the operation makes the
//! calls. What an operation does as a whole is proved on a model of a disk, in
//! the modules whose names end in `laws`.

use vstd::prelude::*;

pub mod conditions;
pub mod copy;
pub mod copy_laws;
pub mod delete;
pub mod delete_laws;
pub mod disk_list_laws;
pub mod error;
pub mod error_laws;
pub mod get;
pub mod get_laws;
pub mod list;
pub mod list_laws;
pub mod meta;
pub mod meta_laws;
pub mod model;
pub mod multipart;
pub mod numeral;
pub mod path;
pub mod path_laws;
pub mod put;
pub mod put_laws;
pub mod race_laws;
pub mod range;
pub mod rename;
pub mod rename_laws;
pub mod request;
pub mod store;
pub mod text_laws;
pub mod tmp;
pub mod upload_laws;
pub mod view_laws;

pub use store::{HdfsObjectStore, HdfsObjectStoreBuilder};

verus! {

} // verus!
