//! Installer logic for an iw1x Call of Duty dedicated server: reading the
//! distribution's release file, choosing helper scripts, laying out paths,
//! checking downloads against MD5 sums and rendering the server files.

pub mod text;
pub mod os_release;
pub mod digest;
pub mod paths;
pub mod fetch;
pub mod server;
pub mod install;
