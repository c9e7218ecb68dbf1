//! Turns a container launch command (`docker run ...`) into a compose document,
//! and converts documents between YAML and JSON.
pub mod bindings;
pub mod builder;
pub mod codec;
pub mod compose;
pub mod doc;
pub mod mappings;
pub mod numbers;
pub mod parser;
pub mod properties;
pub mod text;

pub use codec::{convert_text, json_to_yaml, yaml_to_json};
pub use compose::{collect_resources, composerize, composerize_to_json, get_service_name};
