//! The trigger core of an Ethereum indexing node: the triggers a block yields, the
//! order in which they are dispatched, the handlers they wake, and the records that
//! guest handlers read.
pub mod dispatch;
pub mod guest;
pub mod mapping;
pub mod matching;
pub mod order;
pub mod text;
pub mod trigger;
pub mod values;
