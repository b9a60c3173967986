use vstd::prelude::*;

pub mod allocator;
pub mod asyncx;
pub mod axum_params;
pub mod bytes;
pub mod closure;
pub mod dropck;
pub mod eventbus;
pub mod gat;
pub mod grpc;
pub mod hrtb;
pub mod http;
pub mod io;
pub mod iter;
pub mod lifetime;
pub mod list;
pub mod macrox;
pub mod peculiar;
pub mod mem;
pub mod network;
pub mod password;
pub mod unique;

verus! {

} // verus!
