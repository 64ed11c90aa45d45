//! Bridge between one HTTP request and one run of an external computation:
//! the request is checked and turned into the process argument, the process's
//! standard output is split into lines, and the last line that is a JSON
//! object holding both image paths becomes the response.

pub mod json;
pub mod lines;
pub mod extract;
pub mod request;
pub mod handler;
pub mod session;

