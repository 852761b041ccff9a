//! HTML rendering.
//!
//! Every page is emitted whole, with the full program list in the initial
//! markup: the site must work without JavaScript and be crawlable. Filtering
//! is layered on afterwards by the client script.
pub mod guide;
pub mod home;
pub mod icon;
pub mod resources;
pub mod row;
pub mod shell;
pub mod text;
pub mod timeline;

pub use guide::start_here;
pub use home::home;
pub use resources::resources;
pub use shell::{shell, Page, REPO_URL, SITE_NAME, SITE_URL};
pub use text::{esc, esc_code, slugify};
pub use timeline::timeline;
