//! A processor that will talk to a TCP/IP server.
use vstd::prelude::*;
use crate::k2_stream::processors::{ProcessorHeader, StreamBlock};

verus! {

/// A TCP/IP client processor: its name, its header and its block, with no
/// ports yet.
pub struct TcpIpClient {
    pub name: String,
    pub header: ProcessorHeader,
    stream_block: StreamBlock<Vec<u8>>,
}

impl TcpIpClient {
    /// The client's name.
    pub closed spec fn label(&self) -> Seq<char> {
        self.name@
    }

    /// The client's header.
    pub closed spec fn head(&self) -> ProcessorHeader {
        self.header
    }

    /// A client named `name`, at version 0.1.0, with an empty header
    /// otherwise.
    pub fn new(name: String) -> (r: Result<Self, ()>)
        ensures
            r matches Ok(c) && c.label() == name@ && c.head().version@ == "0.1.0"@ && c.head().proc_name@
                == Seq::<char>::empty() && c.head().description@ == Seq::<char>::empty()
                && c.head().author@ == Seq::<char>::empty() && c.head().email@ == Seq::<char>::empty()
                && c.head().license@ == Seq::<char>::empty() && c.head().repository@ == Seq::<char>::empty(),
    {
        Ok(
            TcpIpClient {
                name,
                header: ProcessorHeader {
                    proc_name: String::new(),
                    description: String::new(),
                    version: "0.1.0".to_owned(),
                    author: String::new(),
                    email: String::new(),
                    license: String::new(),
                    repository: String::new(),
                },
                stream_block: StreamBlock::new(),
            },
        )
    }
}

} // verus!
