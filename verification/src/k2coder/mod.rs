//! The code generator of the second form of the language: it keeps the
//! processors of each library and the stream configurations of each
//! application, and writes their source text.
pub mod coder;
pub mod processor_coder;
pub mod streamer_coder;
pub mod library_coder;
pub mod application_coder;
