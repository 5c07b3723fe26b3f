pub mod errors;
pub mod generate;
pub mod issues;
pub mod literals;
pub mod model;
pub mod text;
pub mod utils;
pub mod validation;
pub mod version_info;
