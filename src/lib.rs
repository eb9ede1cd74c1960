//! Terminal presentation of judge pages: whitespace policy, a document
//! tree walker with per-tag styling, inline image protocols and the
//! protocol resolver, together with the small configuration rules of the
//! command-line client.

pub mod config;
pub mod inline_image;
pub mod kitty;
pub mod normalize;
pub mod protocol;
pub mod render;
pub mod style;
pub mod text;
pub mod visible;

pub use config::{configure, ensure_last_problem, strip_slashes, AppConfig, ConfigError};
pub use inline_image::{get_image, DecodedImage, Fetched, ImageFailure};
pub use normalize::shrink_whitespace;
pub use protocol::{transform_protocol, use_sixel, GraphicsProtocol, ProtocolError};
pub use render::{
    get_printable_html_text, html_to_terminal_output_neo, image_sources, DocumentNode,
    RenderedImage, Tag,
};
