//! The parser stage: checks the shape of each command and answers with a
//! record that says whether it was accepted.
use vstd::prelude::*;
use crate::text::{
    all_nonempty, check_name_chars, all_pieces_nonempty, split_char, split_on, name_chars_ok,
    str_eq, command_tokens, command_token_lists, clone_strings,
};
use crate::k2_stream::processors::ProcessorHeader;
use crate::k2_lang::objects::{K2ReturnStruct, K2ObjectView, Token};

verus! {

/// What `check_name` answers: the dot-separated pieces of a valid name, or the
/// message that refuses it.
pub open spec fn check_name_spec(s: Seq<char>) -> Result<Seq<Seq<char>>, Seq<char>> {
    if !name_chars_ok(s) || !all_nonempty(split_on(s, '.')) {
        Err("Invalid object name"@)
    } else {
        Ok(split_on(s, '.'))
    }
}

/// Whether the `i`-th token exists and is empty.
pub open spec fn empty_at(c: Seq<Seq<char>>, i: int) -> bool {
    c[i].len() == 0
}

/// The verdict on a `new` command: `Ok` or the message of the first rule it breaks.
pub open spec fn new_verdict(c: Seq<Seq<char>>) -> Result<(), Seq<char>> {
    if c.len() < 3 {
        Err("Invalid command length"@)
    } else if check_name_spec(c[2]) is Err {
        Err("Invalid object name"@)
    } else {
        let t = c[1];
        let n = split_on(c[2], '.').len();
        if t == "input"@ || t == "output"@ {
            if c.len() != 4 {
                Err("Invalid command length for input/output"@)
            } else if n != 3 {
                Err("Invalid object name format for input/output"@)
            } else if empty_at(c, 3) {
                Err("Data type cannot be empty"@)
            } else {
                Ok(())
            }
        } else if t == "parameter"@ || t == "state"@ {
            if c.len() < 5 {
                Err("Invalid command length for parameter/state"@)
            } else if n != 3 {
                Err("Invalid object name format for parameter/state"@)
            } else if empty_at(c, 3) {
                Err("Data type cannot be empty"@)
            } else if empty_at(c, 4) {
                Err("Value cannot be empty"@)
            } else if t == "parameter"@ && c.len() != 6 {
                Err("Missing parameter type"@)
            } else {
                Ok(())
            }
        } else if t == "processor"@ {
            if c.len() != 3 {
                Err("Invalid command length for processor"@)
            } else if n != 2 {
                Err("Invalid object name format for processor"@)
            } else {
                Ok(())
            }
        } else if t == "library"@ || t == "application"@ {
            if c.len() != 4 {
                Err("Invalid command length for library/application"@)
            } else if n != 1 {
                Err("Invalid object name format"@)
            } else {
                Ok(())
            }
        } else if t == "chain"@ || t == "mode"@ {
            if c.len() != 3 {
                Err("Invalid command length for chain/mode"@)
            } else if n != 3 {
                Err("Invalid object name format for chain/mode"@)
            } else {
                Ok(())
            }
        } else if t == "block"@ {
            if c.len() != 4 {
                Err("Invalid command length for block"@)
            } else if n != 3 {
                Err("Invalid object name format for block"@)
            } else if empty_at(c, 3) {
                Err("Processor cannot be empty"@)
            } else if split_on(c[3], '.').len() != 2 {
                Err("Invalid object name format for processor"@)
            } else {
                Ok(())
            }
        } else if t == "stream"@ {
            if c.len() != 3 {
                Err("Invalid command length for stream"@)
            } else if n != 2 {
                Err("Invalid object name format for stream"@)
            } else {
                Ok(())
            }
        } else if t == "command"@ {
            if c.len() != 4 {
                Err("Invalid command length for command"@)
            } else if n != 3 {
                Err("Invalid object name format for command"@)
            } else {
                Ok(())
            }
        } else {
            Err("Invalid object type"@)
        }
    }
}

/// The verdict on an `add` command: the child must sit deeper than the parent.
pub open spec fn add_verdict(c: Seq<Seq<char>>) -> Result<(), Seq<char>> {
    if c.len() != 3 {
        Err("Invalid command length"@)
    } else if check_name_spec(c[1]) is Err || check_name_spec(c[2]) is Err {
        Err("Invalid object name"@)
    } else if split_on(c[2], '.').len() >= split_on(c[1], '.').len() {
        Err("Invalid gerarchy"@)
    } else {
        Ok(())
    }
}

/// The verdict on a `delete` command.
pub open spec fn delete_verdict(c: Seq<Seq<char>>) -> Result<(), Seq<char>> {
    if c.len() != 2 {
        Err("Invalid command length"@)
    } else if check_name_spec(c[1]) is Err {
        Err("Invalid object name"@)
    } else {
        Ok(())
    }
}

/// The verdict on a `set` command.
pub open spec fn set_verdict(c: Seq<Seq<char>>) -> Result<(), Seq<char>> {
    if c.len() != 3 {
        Err("Invalid command length"@)
    } else if check_name_spec(c[1]) is Err {
        Err("Invalid object name"@)
    } else if split_on(c[1], '.').len() != 3 {
        Err("Invalid object name format"@)
    } else {
        Ok(())
    }
}

/// The verdict on a `connect` or `disconnect` command: two connectors.
pub open spec fn link_verdict(c: Seq<Seq<char>>) -> Result<(), Seq<char>> {
    if c.len() != 3 {
        Err("Invalid command length"@)
    } else if check_name_spec(c[1]) is Err || check_name_spec(c[2]) is Err {
        Err("Invalid object name"@)
    } else if split_on(c[1], '.').len() != 3 || split_on(c[2], '.').len() != 3 {
        Err("Invalid object name format"@)
    } else {
        Ok(())
    }
}

/// The verdict on an `exec` command.
pub open spec fn exec_verdict(c: Seq<Seq<char>>) -> Result<(), Seq<char>> {
    if c.len() != 2 {
        Err("Invalid command length"@)
    } else if c[1].len() == 0 {
        Err("Message cannot be empty"@)
    } else if check_name_spec(c[1]) is Err {
        Err("Invalid object name"@)
    } else if !(split_on(c[1], '.').len() == 3 || split_on(c[1], '.').len() == 2) {
        Err("Invalid object name format"@)
    } else {
        Ok(())
    }
}

/// The verdict for a command, by its keyword; `None` for an unknown keyword.
pub open spec fn command_verdict(c: Seq<Seq<char>>) -> Option<Result<(), Seq<char>>> {
    let k = c[0];
    if k == "new"@ {
        Some(new_verdict(c))
    } else if k == "add"@ {
        Some(add_verdict(c))
    } else if k == "delete"@ {
        Some(delete_verdict(c))
    } else if k == "set"@ {
        Some(set_verdict(c))
    } else if k == "connect"@ || k == "disconnect"@ {
        Some(link_verdict(c))
    } else if k == "exec"@ {
        Some(exec_verdict(c))
    } else {
        None
    }
}

/// A parser's answer: the tokens back when the verdict is `Ok`, its message otherwise.
pub open spec fn verdict_result(
    v: Result<(), Seq<char>>,
    c: Seq<Seq<char>>,
    r: Result<Token, String>,
) -> bool {
    match v {
        Ok(()) => r matches Ok(t) && t.deep_view() == c,
        Err(m) => r matches Err(e) && e@ == m,
    }
}

/// The parser stage.
pub struct Parser {
    pub name: String,
    pub header: ProcessorHeader,
}

/// Result of a parser step: the accepted tokens or a message.
pub type ParserReturn = Result<Token, String>;

/// Checks that the characters and pieces of a name are valid.
fn checked_pieces(name: &str) -> (r: Result<Vec<String>, String>)
    ensures
        match check_name_spec(name@) {
            Ok(p) => r matches Ok(v) && v.deep_view() == p,
            Err(m) => r matches Err(e) && e@ == m,
        },
{
    if !check_name_chars(name) {
        return Err("Invalid object name".to_owned());
    }
    let split_name = split_char(name, '.');
    if !all_pieces_nonempty(&split_name) {
        return Err("Invalid object name".to_owned());
    }
    Ok(split_name)
}

impl Parser {
    /// A parser stage with the given name.
    pub fn new(name: String) -> (r: Self)
        ensures
            r.name@ == name@,
    {
        Parser {
            name,
            header: ProcessorHeader {
                proc_name: "Parser".to_owned(),
                description: "A processor that parses the commands and executes the corresponding actions".to_owned(),
                version: "0.1.0".to_owned(),
                author: "Sofia Silvestri".to_owned(),
                email: "ms.sofia.silvestri@gmail.com".to_owned(),
                license: "LGPLv2.0".to_owned(),
                repository: "".to_owned(),
            },
        }
    }

    /// The dot-separated pieces of a valid object name.
    pub fn check_name(name: &String) -> (r: Result<Token, String>)
        ensures
            match check_name_spec(name@) {
                Ok(p) => r matches Ok(v) && v.deep_view() == p,
                Err(m) => r matches Err(e) && e@ == m,
            },
    {
        checked_pieces(name.as_str())
    }

    /// The token lists of a command text.
    pub fn split_commands(command: &String) -> (r: Vec<Vec<String>>)
        ensures
            r.deep_view() == command_tokens(command@),
    {
        command_token_lists(command.as_str())
    }

    /// Checks a `new` command.
    pub fn parse_new(&mut self, command: &Vec<String>) -> (r: ParserReturn)
        ensures
            verdict_result(new_verdict(command.deep_view()), command.deep_view(), r),
            *final(self) == *old(self),
    {
        let ghost c = command.deep_view();
        if command.len() < 3 {
            return Err("Invalid command length".to_owned());
        }
        assert(c[1] == command@[1]@ && c[2] == command@[2]@);
        let object_type = command[1].as_str();
        let object_name = command[2].as_str();
        let split_name = checked_pieces(object_name)?;
        let n = split_name.len();
        assert(n == split_on(c[2], '.').len());
        if str_eq(object_type, "input") || str_eq(object_type, "output") {
            if command.len() != 4 {
                return Err("Invalid command length for input/output".to_owned());
            }
            if n != 3 {
                return Err("Invalid object name format for input/output".to_owned());
            }
            assert(c[3] == command@[3]@);
            if command[3].as_str().unicode_len() == 0 {
                return Err("Data type cannot be empty".to_owned());
            }
        } else if str_eq(object_type, "parameter") || str_eq(object_type, "state") {
            if command.len() < 5 {
                return Err("Invalid command length for parameter/state".to_owned());
            }
            if n != 3 {
                return Err("Invalid object name format for parameter/state".to_owned());
            }
            assert(c[3] == command@[3]@ && c[4] == command@[4]@);
            if command[3].as_str().unicode_len() == 0 {
                return Err("Data type cannot be empty".to_owned());
            }
            if command[4].as_str().unicode_len() == 0 {
                return Err("Value cannot be empty".to_owned());
            }
            if str_eq(object_type, "parameter") && command.len() != 6 {
                return Err("Missing parameter type".to_owned());
            }
        } else if str_eq(object_type, "processor") {
            if command.len() != 3 {
                return Err("Invalid command length for processor".to_owned());
            }
            if n != 2 {
                return Err("Invalid object name format for processor".to_owned());
            }
        } else if str_eq(object_type, "library") || str_eq(object_type, "application") {
            if command.len() != 4 {
                return Err("Invalid command length for library/application".to_owned());
            }
            if n != 1 {
                return Err("Invalid object name format".to_owned());
            }
        } else if str_eq(object_type, "chain") || str_eq(object_type, "mode") {
            if command.len() != 3 {
                return Err("Invalid command length for chain/mode".to_owned());
            }
            if n != 3 {
                return Err("Invalid object name format for chain/mode".to_owned());
            }
        } else if str_eq(object_type, "block") {
            if command.len() != 4 {
                return Err("Invalid command length for block".to_owned());
            }
            if n != 3 {
                return Err("Invalid object name format for block".to_owned());
            }
            assert(c[3] == command@[3]@);
            let processor_type = command[3].as_str();
            if processor_type.unicode_len() == 0 {
                return Err("Processor cannot be empty".to_owned());
            }
            let pieces = split_char(processor_type, '.');
            if pieces.len() != 2 {
                return Err("Invalid object name format for processor".to_owned());
            }
        } else if str_eq(object_type, "stream") {
            if command.len() != 3 {
                return Err("Invalid command length for stream".to_owned());
            }
            if n != 2 {
                return Err("Invalid object name format for stream".to_owned());
            }
        } else if str_eq(object_type, "command") {
            if command.len() != 4 {
                return Err("Invalid command length for command".to_owned());
            }
            if !check_name_chars(object_name) {
                return Err("Invalid object name".to_owned());
            }
            if split_name.len() != 3 {
                return Err("Invalid object name format for command".to_owned());
            }
            assert(split_name.deep_view()[2] == split_name@[2]@);
            if split_name[2].as_str().unicode_len() == 0 {
                return Err("Invalid object name format for command".to_owned());
            }
        } else {
            return Err("Invalid object type".to_owned());
        }
        Ok(clone_strings(command))
    }

    /// Checks an `add` command.
    pub fn parse_add(&mut self, command: &Vec<String>) -> (r: ParserReturn)
        ensures
            verdict_result(add_verdict(command.deep_view()), command.deep_view(), r),
            *final(self) == *old(self),
    {
        let ghost c = command.deep_view();
        if command.len() != 3 {
            return Err("Invalid command length".to_owned());
        }
        assert(c[1] == command@[1]@ && c[2] == command@[2]@);
        let parent = checked_pieces(command[1].as_str())?;
        let level_parent = parent.len();
        let child = checked_pieces(command[2].as_str())?;
        let level_children = child.len();
        if level_children >= level_parent {
            return Err("Invalid gerarchy".to_owned());
        }
        Ok(clone_strings(command))
    }

    /// Checks a `delete` command.
    pub fn parse_delete(&mut self, command: &Vec<String>) -> (r: ParserReturn)
        ensures
            verdict_result(delete_verdict(command.deep_view()), command.deep_view(), r),
            *final(self) == *old(self),
    {
        let ghost c = command.deep_view();
        if command.len() != 2 {
            return Err("Invalid command length".to_owned());
        }
        assert(c[1] == command@[1]@);
        checked_pieces(command[1].as_str())?;
        Ok(clone_strings(command))
    }

    /// Checks a `set` command.
    pub fn parse_set(&mut self, command: &Vec<String>) -> (r: ParserReturn)
        ensures
            verdict_result(set_verdict(command.deep_view()), command.deep_view(), r),
            *final(self) == *old(self),
    {
        let ghost c = command.deep_view();
        if command.len() != 3 {
            return Err("Invalid command length".to_owned());
        }
        assert(c[1] == command@[1]@);
        let split_name = checked_pieces(command[1].as_str())?;
        if split_name.len() != 3 {
            return Err("Invalid object name format".to_owned());
        }
        Ok(clone_strings(command))
    }

    /// Checks a `connect` command.
    pub fn parse_connect(&mut self, command: &Vec<String>) -> (r: ParserReturn)
        ensures
            verdict_result(link_verdict(command.deep_view()), command.deep_view(), r),
            *final(self) == *old(self),
    {
        Self::check_link(command)
    }

    /// Checks a `disconnect` command.
    pub fn parse_disconnect(&mut self, command: &Vec<String>) -> (r: ParserReturn)
        ensures
            verdict_result(link_verdict(command.deep_view()), command.deep_view(), r),
            *final(self) == *old(self),
    {
        Self::check_link(command)
    }

    /// The check that `connect` and `disconnect` share.
    fn check_link(command: &Vec<String>) -> (r: ParserReturn)
        ensures
            verdict_result(link_verdict(command.deep_view()), command.deep_view(), r),
    {
        let ghost c = command.deep_view();
        if command.len() != 3 {
            return Err("Invalid command length".to_owned());
        }
        assert(c[1] == command@[1]@ && c[2] == command@[2]@);
        let source = checked_pieces(command[1].as_str())?;
        let target = checked_pieces(command[2].as_str())?;
        if source.len() != 3 || target.len() != 3 {
            return Err("Invalid object name format".to_owned());
        }
        Ok(clone_strings(command))
    }

    /// Checks an `exec` command.
    pub fn parse_exec(&mut self, command: &Vec<String>) -> (r: ParserReturn)
        ensures
            verdict_result(exec_verdict(command.deep_view()), command.deep_view(), r),
            *final(self) == *old(self),
    {
        let ghost c = command.deep_view();
        if command.len() != 2 {
            return Err("Invalid command length".to_owned());
        }
        assert(c[1] == command@[1]@);
        let message = command[1].as_str();
        if message.unicode_len() == 0 {
            return Err("Message cannot be empty".to_owned());
        }
        let split_name = checked_pieces(message)?;
        if !(split_name.len() == 3 || split_name.len() == 2) {
            return Err("Invalid object name format".to_owned());
        }
        Ok(clone_strings(command))
    }

    /// Answers one command: the checker of its keyword decides; an unknown
    /// keyword is refused with the message `Unknown`.
    pub fn parse_command(&mut self, command: &String, tokenized_commands: Vec<String>) -> (r:
        K2ReturnStruct)
        requires
            tokenized_commands.len() > 0,
        ensures
            r@.command == command@,
            r@.data == Seq::<K2ObjectView>::empty(),
            *final(self) == *old(self),
            match command_verdict(tokenized_commands.deep_view()) {
                None => !r@.success && r@.message == "Unknown"@ && r@.tokens == Seq::<
                    Seq<char>,
                >::empty(),
                Some(Ok(())) => r@.success && r@.message == "Ok"@ && r@.tokens
                    == tokenized_commands.deep_view(),
                Some(Err(m)) => !r@.success && r@.message == m && r@.tokens == Seq::<
                    Seq<char>,
                >::empty(),
            },
    {
        let ghost c = tokenized_commands.deep_view();
        assert(c[0] == tokenized_commands@[0]@);
        let k = tokenized_commands[0].as_str();
        let result: ParserReturn;
        if str_eq(k, "new") {
            result = self.parse_new(&tokenized_commands);
        } else if str_eq(k, "add") {
            result = self.parse_add(&tokenized_commands);
        } else if str_eq(k, "delete") {
            result = self.parse_delete(&tokenized_commands);
        } else if str_eq(k, "set") {
            result = self.parse_set(&tokenized_commands);
        } else if str_eq(k, "connect") {
            result = self.parse_connect(&tokenized_commands);
        } else if str_eq(k, "disconnect") {
            result = self.parse_disconnect(&tokenized_commands);
        } else if str_eq(k, "exec") {
            result = self.parse_exec(&tokenized_commands);
        } else {
            let r = K2ReturnStruct {
                success: false,
                command: command.clone(),
                tokens: Vec::new(),
                message: "Unknown".to_owned(),
                data: Vec::new(),
            };
            assert(r.tokens.deep_view() =~= Seq::<Seq<char>>::empty());
            assert(crate::k2_lang::objects::objects_view(r.data@) =~= Seq::<K2ObjectView>::empty());
            return r;
        }
        let r = match result {
            Ok(res) => K2ReturnStruct {
                success: true,
                command: command.clone(),
                tokens: res,
                message: "Ok".to_owned(),
                data: Vec::new(),
            },
            Err(e) => K2ReturnStruct {
                success: false,
                command: command.clone(),
                tokens: Vec::new(),
                message: e,
                data: Vec::new(),
            },
        };
        assert(crate::k2_lang::objects::objects_view(r.data@) =~= Seq::<K2ObjectView>::empty());
        assert(!r.success ==> r.tokens.deep_view() =~= Seq::<Seq<char>>::empty());
        r
    }
}

} // verus!
