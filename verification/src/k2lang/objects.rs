//! The records of the second form of the command language.
use vstd::prelude::*;
use crate::k2_lang::objects::{K2Object, K2ObjectView, objects_view, duplicate_objects};
use crate::k2_stream::errors::K2Error;

verus! {

/// An object of the language; it has the same fields as in the first form.
pub type K2LangObject = K2Object;

/// A command as it passes between the stages.
pub struct K2LangStruct {
    pub command: String,
    pub message: String,
    pub tokens: Vec<String>,
    pub data: Vec<K2LangObject>,
}

/// The mathematical content of a `K2LangStruct`.
pub struct K2LangView {
    pub command: Seq<char>,
    pub message: Seq<char>,
    pub tokens: Seq<Seq<char>>,
    pub data: Seq<K2ObjectView>,
}

impl View for K2LangStruct {
    type V = K2LangView;

    open spec fn view(&self) -> K2LangView {
        K2LangView {
            command: self.command@,
            message: self.message@,
            tokens: self.tokens.deep_view(),
            data: objects_view(self.data@),
        }
    }
}

/// What a stage of the language hands on: the command or an error.
pub type K2LangReturn = Result<K2LangStruct, K2Error>;

impl K2LangStruct {
    /// A copy of the command.
    pub fn duplicate(&self) -> (r: Self)
        ensures
            r@ == self@,
    {
        K2LangStruct {
            command: self.command.clone(),
            message: self.message.clone(),
            tokens: crate::text::clone_strings(&self.tokens),
            data: duplicate_objects(&self.data),
        }
    }
}

} // verus!
