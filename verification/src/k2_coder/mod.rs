//! The code generator of the first form of the language: it keeps the
//! processors of each library and the streams of each application, and
//! turns the objects of a processor into the source text of the processor.
pub mod processor_coder;
pub mod application_coder;
pub mod library_coder;
pub mod coder;
