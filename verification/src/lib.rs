//! A server-side markup renderer: it serializes a tree of UI element
//! descriptors into an HTML string, with verified attribute encoding,
//! style serialization, escaping, and a resumable pull-based traversal.

pub mod strutil;
pub mod escape;
pub mod number;
pub mod node;
pub mod validation;
pub mod css;
pub mod dom_property;
pub mod html_config;
pub mod svg_config;
pub mod dom_namespaces;
pub mod standard;
pub mod markup;
pub mod resolver;
pub mod tree_resolver;
pub mod render_model;
pub mod partial_renderer;
pub mod dom_string_renderer;
