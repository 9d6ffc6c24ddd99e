//! Engine for inspecting append-only conversation-transcript logs:
//! parsing newline-delimited JSON records into display-ready messages,
//! paginating them, searching a whole corpus of them, and decoding the
//! directory names under which a corpus stores each project's logs.

pub mod json;
pub mod record;
pub mod text;
pub mod transcript;
pub mod path_codec;
pub mod order;
pub mod catalog;
pub mod search;
pub mod timefmt;
pub mod watch;
