//! The parser of the second form of the language: checks each command and adds
//! to it the objects it names.
use vstd::prelude::*;
use crate::text::{
    all_pieces_nonempty, check_name_chars, split_char, split_on, str_eq, command_tokens,
    command_token_lists, clone_strings, concat3,
};
use crate::k2_lang::parser::check_name_spec;
use crate::k2_lang::objects::{K2Object, K2ObjectView, objects_view};
use crate::k2_stream::errors::{K2Error, K2ErrorCode};
use crate::k2_stream::processors::ProcessorHeader;
use crate::k2lang::objects::{K2LangStruct, K2LangView, K2LangReturn};

verus! {

/// An object with a name and a type and nothing else.
pub open spec fn bare_object(name: Seq<char>, object_type: Seq<char>) -> K2ObjectView {
    K2ObjectView {
        name,
        object_type,
        parent: Seq::empty(),
        children: Seq::empty(),
        properties: Map::empty(),
    }
}

/// The command with `objs` appended to its data.
pub open spec fn with_data(v: K2LangView, objs: Seq<K2ObjectView>) -> K2LangView {
    K2LangView { data: v.data + objs, ..v }
}

/// For each object type that `new` accepts: the number of tokens and of name pieces it needs.
pub open spec fn new_shape(t: Seq<char>) -> Option<(int, int)> {
    if t == "input"@ || t == "output"@ || t == "command"@ || t == "block"@ {
        Some((4, 3))
    } else if t == "state"@ {
        Some((5, 3))
    } else if t == "parameter"@ {
        Some((6, 3))
    } else if t == "processor"@ {
        Some((3, 2))
    } else if t == "library"@ || t == "application"@ {
        Some((4, 1))
    } else if t == "chain"@ || t == "mode"@ {
        Some((3, 3))
    } else if t == "stream"@ {
        Some((3, 2))
    } else {
        None
    }
}

/// An answer that fails with the given code and message.
pub open spec fn fails_as(r: K2LangReturn, code: K2ErrorCode, message: Seq<char>) -> bool {
    r matches Err(e) && e.code == code && e.message@ == message
}

/// An answer that succeeds with the given command.
pub open spec fn gives(r: K2LangReturn, v: K2LangView) -> bool {
    r matches Ok(s) && s@ == v
}

/// Whether an answer is the reference one: the same command, or the same
/// code and message.
pub open spec fn answers(r: K2LangReturn, reference: Result<K2LangView, (K2ErrorCode, Seq<char>)>) -> bool {
    match reference {
        Ok(v) => gives(r, v),
        Err((c, m)) => fails_as(r, c, m),
    }
}

/// The refusal of a name that breaks the naming rules.
pub open spec fn bad_name() -> (K2ErrorCode, Seq<char>) {
    (K2ErrorCode::BadFormat, "Invalid object name"@)
}

/// What the checker of a keyword answers for a command `v`: the command with
/// the objects it names appended, or the code and message of the first rule
/// it breaks.
pub open spec fn checked(k: ParseKind, v: K2LangView) -> Result<K2LangView, (K2ErrorCode, Seq<char>)> {
    let t = v.tokens;
    match k {
        ParseKind::New => match check_name_spec(t[2]) {
            Err(_) => Err(bad_name()),
            Ok(ps) => match new_shape(t[1]) {
                None => Err((K2ErrorCode::BadFormat, "Unknow type "@ + t[1])),
                Some((len, pieces)) => if t.len() != len {
                    Err((K2ErrorCode::BadFormat, "Wrong number of parameter for new "@ + t[1]))
                } else if ps.len() != pieces {
                    Err((K2ErrorCode::BadFormat, "Invalid name for "@ + t[1]))
                } else {
                    Ok(with_data(v, seq![bare_object(t[2], t[1])]))
                },
            },
        },
        ParseKind::Add => if t.len() != 3 {
            Err((K2ErrorCode::BadFormat, "Wrong number of parameter for add command"@))
        } else {
            Ok(with_data(v, seq![bare_object(t[1], ""@), bare_object(t[1], ""@)]))
        },
        ParseKind::Delete => if t.len() != 2 {
            Err((K2ErrorCode::BadFormat, "Wrong number of parameter for delete command"@))
        } else {
            Ok(with_data(v, seq![bare_object(t[1], ""@)]))
        },
        ParseKind::SetValue => if t.len() != 4 {
            Err((K2ErrorCode::BadFormat, "Wrong number of parameter for set command"@))
        } else {
            Ok(with_data(v, seq![bare_object(t[1], ""@)]))
        },
        ParseKind::Connect => if check_name_spec(t[1]) is Err || check_name_spec(t[2]) is Err {
            Err(bad_name())
        } else if t.len() != 3 {
            Err((K2ErrorCode::BadFormat, "Wrong number of parameter for connect/disconnect command"@))
        } else if split_on(t[1], '.').len() != 4 || split_on(t[2], '.').len() != 4 {
            Err((K2ErrorCode::InvalidOperation, "Object can not be connectted"@))
        } else {
            Ok(v)
        },
        ParseKind::Exec => if check_name_spec(t[1]) is Err {
            Err(bad_name())
        } else if t.len() != 2 {
            Err((K2ErrorCode::BadFormat, "Wrong number of parameter for exec command"@))
        } else if split_on(t[1], '.').len() != 4 {
            Err((K2ErrorCode::InvalidOperation, "Object can not be command"@))
        } else {
            Ok(with_data(v, seq![bare_object(t[1], ""@)]))
        },
        ParseKind::Code => if check_name_spec(t[1]) is Err {
            Err(bad_name())
        } else if t.len() != 4 {
            Err((K2ErrorCode::BadFormat, "Wrong number of parameter for exec command"@))
        } else if split_on(t[1], '.').len() != 2 {
            Err((K2ErrorCode::InvalidOperation, "Object can not be command"@))
        } else {
            Ok(with_data(v, seq![bare_object(t[1], ""@)]))
        },
    }
}

/// The parser stage.
pub struct Parser {
    pub name: String,
    pub header: ProcessorHeader,
}

/// Checks a name; a bad one is refused with `BadFormat`.
fn name_pieces(name: &str) -> (r: Result<Vec<String>, K2Error>)
    ensures
        match check_name_spec(name@) {
            Ok(p) => r matches Ok(v) && v.deep_view() == p,
            Err(_) => r matches Err(e) && e.code == K2ErrorCode::BadFormat && e.message@
                == "Invalid object name"@,
        },
{
    if !check_name_chars(name) {
        return Err(K2Error::new(K2ErrorCode::BadFormat, "Invalid object name"));
    }
    let split_name = split_char(name, '.');
    if !all_pieces_nonempty(&split_name) {
        return Err(K2Error::new(K2ErrorCode::BadFormat, "Invalid object name"));
    }
    Ok(split_name)
}

/// The shape that `new` needs for an object type.
fn new_shape_of(t: &str) -> (r: Option<(usize, usize)>)
    ensures
        match new_shape(t@) {
            Some((a, b)) => r == Some((a as usize, b as usize)),
            None => r is None,
        },
{
    if str_eq(t, "input") || str_eq(t, "output") || str_eq(t, "command") || str_eq(t, "block") {
        Some((4, 3))
    } else if str_eq(t, "state") {
        Some((5, 3))
    } else if str_eq(t, "parameter") {
        Some((6, 3))
    } else if str_eq(t, "processor") {
        Some((3, 2))
    } else if str_eq(t, "library") || str_eq(t, "application") {
        Some((4, 1))
    } else if str_eq(t, "chain") || str_eq(t, "mode") {
        Some((3, 3))
    } else if str_eq(t, "stream") {
        Some((3, 2))
    } else {
        None
    }
}

/// The command with one more bare object appended to its data.
fn push_bare(input: &K2LangStruct, name: &String, object_type: &str) -> (r: K2LangStruct)
    ensures
        r@ == with_data(input@, seq![bare_object(name@, object_type@)]),
{
    let mut output = input.duplicate();
    let o = K2Object::named(name.clone(), object_type.to_owned());
    let ghost before = objects_view(output.data@);
    output.data.push(o);
    assert(objects_view(output.data@) =~= before + seq![bare_object(name@, object_type@)]);
    output
}

impl Parser {
    /// A parser stage with the given name.
    pub fn new(name: String) -> (r: Self)
        ensures
            r.name@ == name@,
    {
        Parser {
            name,
            header: ProcessorHeader {
                proc_name: "Parser".to_owned(),
                description: "A processor that parses the commands and executes the corresponding actions".to_owned(),
                version: "0.1.0".to_owned(),
                author: "Sofia Silvestri".to_owned(),
                email: "ms.sofia.silvestri@gmail.com".to_owned(),
                license: "LGPLv2.0".to_owned(),
                repository: "".to_owned(),
            },
        }
    }

    /// Whether a token list has the tokens that its checker reads, as
    /// `command_arity_ok` says.
    pub fn accepts(token: &Vec<String>) -> (r: bool)
        requires
            token.len() > 0,
        ensures
            r == command_arity_ok(token.deep_view()),
    {
        proof {
            reveal_strlit("new");
            reveal_strlit("add");
            reveal_strlit("delete");
            reveal_strlit("set");
            reveal_strlit("connect");
            reveal_strlit("disconnect");
            reveal_strlit("exec");
            reveal_strlit("code");
        }
        assert(token.deep_view()[0] == token@[0]@);
        let k = token[0].as_str();
        if str_eq(k, "new") {
            token.len() >= 3
        } else if str_eq(k, "add") || str_eq(k, "delete") || str_eq(k, "set") {
            true
        } else if str_eq(k, "connect") || str_eq(k, "disconnect") {
            token.len() >= 3
        } else if str_eq(k, "exec") || str_eq(k, "code") {
            token.len() >= 2
        } else {
            true
        }
    }

    /// The dot-separated pieces of a valid object name; `BadFormat` otherwise.
    pub fn check_name(name: &String) -> (r: Result<Vec<String>, K2Error>)
        ensures
            match check_name_spec(name@) {
                Ok(p) => r matches Ok(v) && v.deep_view() == p,
                Err(_) => r matches Err(e) && e.code == K2ErrorCode::BadFormat && e.message@
                    == "Invalid object name"@,
            },
    {
        name_pieces(name.as_str())
    }

    /// The token lists of a command text.
    pub fn split_commands(command: &String) -> (r: Vec<Vec<String>>)
        ensures
            r.deep_view() == command_tokens(command@),
    {
        command_token_lists(command.as_str())
    }

    /// Checks a `new` command and adds the object it creates.
    pub fn parse_new(input: &K2LangStruct) -> (r: K2LangReturn)
        requires
            input.tokens.len() >= 3,
        ensures
            answers(r, checked(ParseKind::New, input@)),
    {
        let ghost t = input@.tokens;
        assert(t[1] == input.tokens@[1]@ && t[2] == input.tokens@[2]@);
        let token_name = name_pieces(input.tokens[2].as_str())?;
        let ty = input.tokens[1].as_str();
        match new_shape_of(ty) {
            Some((len, pieces)) => {
                if input.tokens.len() != len {
                    return Err(K2Error { code: K2ErrorCode::BadFormat, message: String::from_str("Wrong number of parameter for new ").concat(ty) });
                }
                if token_name.len() != pieces {
                    return Err(K2Error { code: K2ErrorCode::BadFormat, message: String::from_str("Invalid name for ").concat(ty) });
                }
            },
            None => {
                return Err(K2Error { code: K2ErrorCode::BadFormat, message: String::from_str("Unknow type ").concat(ty) });
            },
        }
        Ok(push_bare(input, &input.tokens[2], ty))
    }

    /// Checks an `add` command and adds the object named first, twice.
    pub fn parse_add(input: &K2LangStruct) -> (r: K2LangReturn)
        ensures
            answers(r, checked(ParseKind::Add, input@)),
    {
        if input.tokens.len() != 3 {
            return Err(
                K2Error::new(K2ErrorCode::BadFormat, "Wrong number of parameter for add command"),
            );
        }
        assert(input@.tokens[1] == input.tokens@[1]@);
        let once = push_bare(input, &input.tokens[1], "");
        let twice = push_bare(&once, &input.tokens[1], "");
        assert(twice@.data =~= input@.data + seq![
            bare_object(input@.tokens[1], ""@),
            bare_object(input@.tokens[1], ""@),
        ]);
        Ok(twice)
    }

    /// Checks a `delete` command and adds the object it names.
    pub fn parse_delete(input: &K2LangStruct) -> (r: K2LangReturn)
        ensures
            answers(r, checked(ParseKind::Delete, input@)),
    {
        if input.tokens.len() != 2 {
            return Err(
                K2Error::new(K2ErrorCode::BadFormat, "Wrong number of parameter for delete command"),
            );
        }
        assert(input@.tokens[1] == input.tokens@[1]@);
        Ok(push_bare(input, &input.tokens[1], ""))
    }

    /// Checks a `set` command and adds the object it names.
    pub fn parse_set(input: &K2LangStruct) -> (r: K2LangReturn)
        ensures
            answers(r, checked(ParseKind::SetValue, input@)),
    {
        if input.tokens.len() != 4 {
            return Err(
                K2Error::new(K2ErrorCode::BadFormat, "Wrong number of parameter for set command"),
            );
        }
        assert(input@.tokens[1] == input.tokens@[1]@);
        Ok(push_bare(input, &input.tokens[1], ""))
    }

    /// Checks a `connect` command; the command comes back unchanged.
    pub fn parse_connect(input: &K2LangStruct) -> (r: K2LangReturn)
        requires
            input.tokens.len() >= 3,
        ensures
            answers(r, checked(ParseKind::Connect, input@)),
    {
        assert(input@.tokens[1] == input.tokens@[1]@ && input@.tokens[2] == input.tokens@[2]@);
        let source = name_pieces(input.tokens[1].as_str())?;
        let dest = name_pieces(input.tokens[2].as_str())?;
        if input.tokens.len() != 3 {
            return Err(
                K2Error::new(
                    K2ErrorCode::BadFormat,
                    "Wrong number of parameter for connect/disconnect command",
                ),
            );
        }
        if source.len() != 4 {
            return Err(K2Error::new(K2ErrorCode::InvalidOperation, "Object can not be connectted"));
        }
        if dest.len() != 4 {
            return Err(K2Error::new(K2ErrorCode::InvalidOperation, "Object can not be connectted"));
        }
        Ok(input.duplicate())
    }

    /// Accepts a `disconnect` command unchanged.
    pub fn parse_disconnect(input: &K2LangStruct) -> (r: K2LangReturn)
        ensures
            gives(r, input@),
    {
        Ok(input.duplicate())
    }

    /// Checks an `exec` command and adds the command object it names.
    pub fn parse_exec(input: &K2LangStruct) -> (r: K2LangReturn)
        requires
            input.tokens.len() >= 2,
        ensures
            answers(r, checked(ParseKind::Exec, input@)),
    {
        assert(input@.tokens[1] == input.tokens@[1]@);
        let token_name_cmd = name_pieces(input.tokens[1].as_str())?;
        if input.tokens.len() != 2 {
            return Err(
                K2Error::new(K2ErrorCode::BadFormat, "Wrong number of parameter for exec command"),
            );
        }
        if token_name_cmd.len() != 4 {
            return Err(K2Error::new(K2ErrorCode::InvalidOperation, "Object can not be command"));
        }
        Ok(push_bare(input, &input.tokens[1], ""))
    }

    /// Checks a `code` command and adds the processor object it names.
    pub fn parse_code(input: &K2LangStruct) -> (r: K2LangReturn)
        requires
            input.tokens.len() >= 2,
        ensures
            answers(r, checked(ParseKind::Code, input@)),
    {
        assert(input@.tokens[1] == input.tokens@[1]@);
        let token_name_cmd = name_pieces(input.tokens[1].as_str())?;
        if input.tokens.len() != 4 {
            return Err(
                K2Error::new(K2ErrorCode::BadFormat, "Wrong number of parameter for exec command"),
            );
        }
        if token_name_cmd.len() != 2 {
            return Err(K2Error::new(K2ErrorCode::InvalidOperation, "Object can not be command"));
        }
        Ok(push_bare(input, &input.tokens[1], ""))
    }

    /// Answers one token list: the checker of its keyword decides (`disconnect`
    /// is checked as `connect` is); no tokens is `BadFormat`, an unknown
    /// keyword `InvalidValue`.
    pub fn parse_command(&self, command: &String, token: &Vec<String>) -> (r: K2LangReturn)
        requires
            token.len() > 0 ==> command_arity_ok(token.deep_view()),
        ensures
            token.len() == 0 ==> fails_as(r, K2ErrorCode::BadFormat, "Empty command"@),
            token.len() > 0 && keyword_of(token.deep_view()) is None ==> fails_as(
                r,
                K2ErrorCode::InvalidValue,
                "Keyword "@ + token.deep_view()[0] + " not valid"@,
            ),
            token.len() > 0 && keyword_of(token.deep_view()) is Some ==> answers(
                r,
                parse_reference(keyword_of(token.deep_view())->0, command@, token.deep_view()),
            ),
    {
        if token.len() < 1 {
            return Err(K2Error::new(K2ErrorCode::BadFormat, "Empty command"));
        }
        let ok_response = K2LangStruct {
            command: command.clone(),
            message: "".to_owned(),
            tokens: clone_strings(token),
            data: Vec::new(),
        };
        assert(objects_view(ok_response.data@) =~= Seq::<K2ObjectView>::empty());
        assert(token.deep_view()[0] == token@[0]@);
        let k = token[0].as_str();
        if str_eq(k, "new") {
            Self::parse_new(&ok_response)
        } else if str_eq(k, "add") {
            Self::parse_add(&ok_response)
        } else if str_eq(k, "delete") {
            Self::parse_delete(&ok_response)
        } else if str_eq(k, "set") {
            Self::parse_set(&ok_response)
        } else if str_eq(k, "connect") || str_eq(k, "disconnect") {
            Self::parse_connect(&ok_response)
        } else if str_eq(k, "exec") {
            Self::parse_exec(&ok_response)
        } else if str_eq(k, "code") {
            Self::parse_code(&ok_response)
        } else {
            Err(K2Error { code: K2ErrorCode::InvalidValue, message: concat3("Keyword ", k, " not valid") })
        }
    }
}

/// The keywords the parser knows, each with the checker it uses.
pub enum ParseKind {
    New,
    Add,
    Delete,
    SetValue,
    Connect,
    Exec,
    Code,
}

/// The checker that a keyword selects (`disconnect` uses the `connect` checker).
pub open spec fn keyword_of(t: Seq<Seq<char>>) -> Option<ParseKind> {
    let k = t[0];
    if k == "new"@ {
        Some(ParseKind::New)
    } else if k == "add"@ {
        Some(ParseKind::Add)
    } else if k == "delete"@ {
        Some(ParseKind::Delete)
    } else if k == "set"@ {
        Some(ParseKind::SetValue)
    } else if k == "connect"@ || k == "disconnect"@ {
        Some(ParseKind::Connect)
    } else if k == "exec"@ {
        Some(ParseKind::Exec)
    } else if k == "code"@ {
        Some(ParseKind::Code)
    } else {
        None
    }
}

/// Whether a token list has the tokens that its checker reads before it
/// looks at the length.
pub open spec fn command_arity_ok(t: Seq<Seq<char>>) -> bool {
    match keyword_of(t) {
        Some(ParseKind::New) => t.len() >= 3,
        Some(ParseKind::Connect) => t.len() >= 3,
        Some(ParseKind::Exec) => t.len() >= 2,
        Some(ParseKind::Code) => t.len() >= 2,
        _ => true,
    }
}

/// The answer of a checker for a command text and its tokens: the command
/// with the objects it names, or the code and message that refuse it.
pub open spec fn parse_reference(k: ParseKind, command: Seq<char>, t: Seq<Seq<char>>) -> Result<
    K2LangView,
    (K2ErrorCode, Seq<char>),
> {
    checked(k, K2LangView { command, message: ""@, tokens: t, data: Seq::empty() })
}

/// A `new` command for an object with a three-piece name is accepted exactly
/// when it has the tokens its type reads: six for a parameter (keyword, type,
/// name, data type, value, kind), one more than the five of a state (keyword,
/// type, name, data type, value), and four for an input, an output, a
/// command or a block.
pub proof fn law_new_token_counts(v: K2LangView)
    requires
        v.tokens.len() >= 3,
        check_name_spec(v.tokens[2]) is Ok,
        split_on(v.tokens[2], '.').len() == 3,
    ensures
        v.tokens[1] == "parameter"@ ==> (checked(ParseKind::New, v) is Ok <==> v.tokens.len() == 6),
        v.tokens[1] == "state"@ ==> (checked(ParseKind::New, v) is Ok <==> v.tokens.len() == 5),
        v.tokens[1] == "input"@ || v.tokens[1] == "output"@ || v.tokens[1] == "command"@ || v.tokens[1]
            == "block"@ ==> (checked(ParseKind::New, v) is Ok <==> v.tokens.len() == 4),
        checked(ParseKind::New, v) matches Ok(w) ==> w.data == v.data.push(
            bare_object(v.tokens[2], v.tokens[1]),
        ),
{
    reveal_strlit("input");
    reveal_strlit("output");
    reveal_strlit("command");
    reveal_strlit("block");
    reveal_strlit("state");
    reveal_strlit("parameter");
    let t = v.tokens[1];
    assert(check_name_spec(v.tokens[2])->Ok_0 == split_on(v.tokens[2], '.'));
    if t == "parameter"@ {
        assert(t != "input"@ && t != "output"@ && t != "command"@ && t != "block"@ && t != "state"@) by {
            assert(t[0] != "input"@[0] && t[0] != "output"@[0] && t[0] != "command"@[0] && t[0] != "block"@[0] && t[0] != "state"@[0]);
        }
    }
    if t == "state"@ {
        assert(t != "input"@ && t != "output"@ && t != "command"@ && t != "block"@) by {
            assert(t[0] != "input"@[0] && t[0] != "output"@[0] && t[0] != "command"@[0] && t[0] != "block"@[0]);
        }
    }
    if checked(ParseKind::New, v) is Ok {
        assert(with_data(v, seq![bare_object(v.tokens[2], v.tokens[1])]).data =~= v.data.push(
            bare_object(v.tokens[2], v.tokens[1]),
        ));
    }
}

/// The objects with shorter names take their own token counts: a processor
/// or a stream, named by two pieces, is accepted exactly with three tokens;
/// a library or an application, named by one piece, exactly with four; and
/// a chain or a mode, named by three pieces, exactly with three.
pub proof fn law_new_token_counts_of_containers(v: K2LangView)
    requires
        v.tokens.len() >= 3,
        check_name_spec(v.tokens[2]) is Ok,
    ensures
        (v.tokens[1] == "processor"@ || v.tokens[1] == "stream"@) && split_on(v.tokens[2], '.').len() == 2
            ==> (checked(ParseKind::New, v) is Ok <==> v.tokens.len() == 3),
        (v.tokens[1] == "library"@ || v.tokens[1] == "application"@) && split_on(v.tokens[2], '.').len() == 1
            ==> (checked(ParseKind::New, v) is Ok <==> v.tokens.len() == 4),
        (v.tokens[1] == "chain"@ || v.tokens[1] == "mode"@) && split_on(v.tokens[2], '.').len() == 3
            ==> (checked(ParseKind::New, v) is Ok <==> v.tokens.len() == 3),
{
    reveal_strlit("input");
    reveal_strlit("output");
    reveal_strlit("command");
    reveal_strlit("block");
    reveal_strlit("state");
    reveal_strlit("parameter");
    reveal_strlit("processor");
    reveal_strlit("stream");
    reveal_strlit("library");
    reveal_strlit("application");
    reveal_strlit("chain");
    reveal_strlit("mode");
    let t = v.tokens[1];
    assert(check_name_spec(v.tokens[2])->Ok_0 == split_on(v.tokens[2], '.'));
    if t == "processor"@ || t == "stream"@ || t == "library"@ || t == "application"@ || t == "chain"@ || t == "mode"@ {
        assert(t != "input"@ && t != "output"@ && t != "command"@ && t != "block"@ && t != "state"@ && t
            != "parameter"@) by {
            if t == "processor"@ { assert(t[1] != "parameter"@[1] && t[0] != "input"@[0] && t[0] != "output"@[0] && t[0] != "command"@[0] && t[0] != "block"@[0] && t[0] != "state"@[0]); }
            if t == "stream"@ { assert(t[2] != "state"@[2] && t[0] != "input"@[0] && t[0] != "output"@[0] && t[0] != "command"@[0] && t[0] != "block"@[0] && t[0] != "parameter"@[0]); }
            if t == "library"@ || t == "application"@ || t == "mode"@ { assert(t[0] != "state"@[0] && t[0] != "input"@[0] && t[0] != "output"@[0] && t[0] != "command"@[0] && t[0] != "block"@[0] && t[0] != "parameter"@[0]); }
            if t == "chain"@ { assert(t[1] != "command"@[1] && t[0] != "input"@[0] && t[0] != "output"@[0] && t[0] != "state"@[0] && t[0] != "block"@[0] && t[0] != "parameter"@[0]); }
        }
    }
    if t == "library"@ || t == "application"@ || t == "chain"@ || t == "mode"@ || t == "stream"@ {
        assert(t != "processor"@) by {
            if t == "stream"@ { assert(t[0] != "processor"@[0]); }
            if t == "library"@ || t == "application"@ || t == "chain"@ || t == "mode"@ { assert(t[0] != "processor"@[0]); }
        }
    }
    if t == "chain"@ || t == "mode"@ || t == "stream"@ {
        assert(t != "library"@ && t != "application"@) by {
            assert(t[0] != "library"@[0] && t[0] != "application"@[0]);
        }
    }
    if t == "stream"@ {
        assert(t != "chain"@ && t != "mode"@) by {
            assert(t[0] != "chain"@[0] && t[0] != "mode"@[0]);
        }
    }
}

} // verus!
