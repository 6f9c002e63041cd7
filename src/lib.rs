//! Resolves which program handles a file, URL or mimetype: regex rules over a
//! resource's text first, then the user's associations (exact, then wildcard),
//! then the system's, and groups resources by handler for launching.
pub mod assets;
pub mod dispatch;
pub mod error;
pub mod handler;
pub mod input;
pub mod launch;
pub mod mime;
pub mod mimeapps;
pub mod path;
pub mod regex_table;
pub mod resolver;
pub mod settings;
pub mod store;

pub use assets::assets_dir;
pub use dispatch::group_by_handler;
pub use error::Error;
pub use handler::Handler;
pub use input::{decide_ext_mime, MimeOrExtension};
pub use launch::{in_terminal, invocations_for};
pub use mime::{decide_file_mime, MimeType};
pub use mimeapps::{load_section, parse_line, render_line, render_section};
pub use path::{mime_table, UserPath};
pub use regex_table::{RegexRule, RegexTable};
pub use resolver::{select_from_output, Resolution, Resolver};
pub use settings::{load_rules, parse_pair, setting};
pub use store::AssocStore;
