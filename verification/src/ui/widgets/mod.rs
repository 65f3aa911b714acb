pub mod code_panel;
pub mod register_panel;
pub mod stack_panel;
pub mod status_bar;
