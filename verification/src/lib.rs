pub mod encoder;
pub mod input_capture;
pub mod loader;
pub mod native_enum;
pub mod output;
pub mod str_map;
pub mod string;
pub mod text;
