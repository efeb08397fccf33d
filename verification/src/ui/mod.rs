pub mod app_state;
pub mod buffer_manager;
pub mod input_handler;
pub mod renderer;
pub mod widgets;
