//! Verified core of a minimal two-view web browser: the text that travels
//! between the navigation bar and the host, the wide strings handed to the
//! web view, the layout of the two views, and the browser's state machine.

pub mod json_text;
pub mod json_read;
pub mod wide;
pub mod layout;
pub mod message;
pub mod browser;
pub mod window;
