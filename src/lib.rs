//! A small single-threaded asynchronous execution engine and a stackful
//! fiber scheduler, with their decision logic verified.
pub mod future;
pub mod executor;
pub mod reactor;
pub mod http;
pub mod fiber;
pub mod coroutine;
pub mod poll;
pub mod runtime;
pub mod testing;
pub mod blog;
pub mod limit;
pub mod counter;
pub mod restaurant;
pub mod summary;
