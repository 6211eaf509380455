pub mod func_state;
