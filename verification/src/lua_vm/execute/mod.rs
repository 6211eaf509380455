pub mod call;
pub mod cold;
pub mod concat;
pub mod helper;
pub mod noinline;
