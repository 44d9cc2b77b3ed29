//! Slide decks from Markdown: the document, the plan of the presentation
//! archive, and live authoring: which changes regenerate the outputs, what
//! a regeneration runs, what the preview server answers, and which previews
//! are told to reload.

pub mod config;
pub mod errors;
pub mod html;
pub mod hub;
pub mod paths;
pub mod pptx;
pub mod preview;
pub mod render;
pub mod resources;
pub mod text;
pub mod utils;
pub mod watch;

pub use config::Config;
pub use errors::{BigError, Result};
pub use html::{generate_html, generate_html_without_reload};
pub use pptx::{find_slide_images, generate_pptx, PptxConfig};
pub use render::RenderConfig;
pub use resources::ResourceFile;
pub use watch::WatchConfig;
