//! Verified core of a local HTML-serving helper.
//!
//! The executable parts that touch the operating system (the HTTP server,
//! probing ports with `lsof`, spawning and killing processes, the terminal
//! menus) live outside this crate; this library holds the decision logic
//! they drive: port arbitration over a scanned range, mapping a working
//! directory under a site root to a URL path, parsing the output of the
//! process inspector, and the lifecycle state machine that decides whether
//! to reuse, replace, or start a server.

pub mod errors;
pub mod text;
pub mod html;
pub mod paths;
pub mod ports;
pub mod urls;
pub mod textparse;
pub mod procs;
pub mod lifecycle;
