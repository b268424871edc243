//! The code of one processor: the parts of its source text, and the lines
//! that create its ports, parameters, states and commands.
use vstd::prelude::*;
use vstd::std_specs::convert::TryFromSpecImpl;
use crate::name_map::NameMap;
use crate::text::{str_eq, join_with, join_strings, concat3};
use crate::k2_lang::objects::{K2Object, K2ObjectView, K2ReturnStruct, Table, table_view, table_get, table_insert, table_has, table_remove, add_prop, with_prop, str_map};
use crate::k2_stream::errors::{K2Error, K2ErrorCode, error_with};
use crate::numbers::nat_text;

verus! {

/// What `str::to_uppercase` gives for a text (the Unicode upper-case
/// mapping).
pub uninterp spec fn uppercase(s: Seq<char>) -> Seq<char>;

/// Calls `str::to_uppercase`; the contract names its answer and claims
/// nothing else of the Unicode tables behind it.
#[verifier::external_body]
fn to_upper(s: &str) -> (r: String)
    ensures
        r@ == uppercase(s@),
{
    s.to_uppercase()
}

/// A part of a processor's source text, in the order the parts are written.
#[derive(Debug, Clone, Copy, PartialEq, Eq, Hash, Structural)]
pub enum ProcessorCodePart {
    K2Import,
    UserImport,
    UserStruct,
    K2InitCode,
    UserInitCode,
    K2MemberCreation,
    UserMemberCreation,
    InitializeCode,
    ProcessCode,
    FinalizeCode,
    UserCode,
}

/// The position of a part in the source text.
pub open spec fn part_index(p: ProcessorCodePart) -> int {
    match p {
        ProcessorCodePart::K2Import => 0,
        ProcessorCodePart::UserImport => 1,
        ProcessorCodePart::UserStruct => 2,
        ProcessorCodePart::K2InitCode => 3,
        ProcessorCodePart::UserInitCode => 4,
        ProcessorCodePart::K2MemberCreation => 5,
        ProcessorCodePart::UserMemberCreation => 6,
        ProcessorCodePart::InitializeCode => 7,
        ProcessorCodePart::ProcessCode => 8,
        ProcessorCodePart::FinalizeCode => 9,
        ProcessorCodePart::UserCode => 10,
    }
}

/// The name under which a part is written.
pub open spec fn part_name(p: ProcessorCodePart) -> Seq<char> {
    match p {
        ProcessorCodePart::K2Import => "k2_import"@,
        ProcessorCodePart::UserImport => "user_import"@,
        ProcessorCodePart::UserStruct => "user_struct"@,
        ProcessorCodePart::K2InitCode => "k2_init_code"@,
        ProcessorCodePart::UserInitCode => "user_init_code"@,
        ProcessorCodePart::K2MemberCreation => "k2_member_creation"@,
        ProcessorCodePart::UserMemberCreation => "user_member_creation"@,
        ProcessorCodePart::InitializeCode => "initialize_code"@,
        ProcessorCodePart::ProcessCode => "process_code"@,
        ProcessorCodePart::FinalizeCode => "finalize_code"@,
        ProcessorCodePart::UserCode => "user_code"@,
    }
}

/// The part at a position.
pub open spec fn part_at(v: u8) -> Option<ProcessorCodePart> {
    if v == 0 {
        Some(ProcessorCodePart::K2Import)
    } else if v == 1 {
        Some(ProcessorCodePart::UserImport)
    } else if v == 2 {
        Some(ProcessorCodePart::UserStruct)
    } else if v == 3 {
        Some(ProcessorCodePart::K2InitCode)
    } else if v == 4 {
        Some(ProcessorCodePart::UserInitCode)
    } else if v == 5 {
        Some(ProcessorCodePart::K2MemberCreation)
    } else if v == 6 {
        Some(ProcessorCodePart::UserMemberCreation)
    } else if v == 7 {
        Some(ProcessorCodePart::InitializeCode)
    } else if v == 8 {
        Some(ProcessorCodePart::ProcessCode)
    } else if v == 9 {
        Some(ProcessorCodePart::FinalizeCode)
    } else if v == 10 {
        Some(ProcessorCodePart::UserCode)
    } else {
        None
    }
}

/// The part a user may write that a name stands for: `NotAllowed` for the
/// framework's parts, `InvalidValue` for another text.
pub open spec fn writable_part_named(s: Seq<char>) -> Result<ProcessorCodePart, K2ErrorCode> {
    if s == "k2_import"@ || s == "k2_init_code"@ || s == "k2_member_creation"@ {
        Err(K2ErrorCode::NotAllowed)
    } else if s == "user_import"@ {
        Ok(ProcessorCodePart::UserImport)
    } else if s == "user_struct"@ {
        Ok(ProcessorCodePart::UserStruct)
    } else if s == "user_init_code"@ {
        Ok(ProcessorCodePart::UserInitCode)
    } else if s == "user_member_creation"@ {
        Ok(ProcessorCodePart::UserMemberCreation)
    } else if s == "initialize_code"@ {
        Ok(ProcessorCodePart::InitializeCode)
    } else if s == "process_code"@ {
        Ok(ProcessorCodePart::ProcessCode)
    } else if s == "finalize_code"@ {
        Ok(ProcessorCodePart::FinalizeCode)
    } else if s == "user_code"@ {
        Ok(ProcessorCodePart::UserCode)
    } else {
        Err(K2ErrorCode::InvalidValue)
    }
}

impl ProcessorCodePart {
    /// The name under which the part is written.
    pub fn to_string(&self) -> (r: String)
        ensures
            r@ == part_name(*self),
    {
        let s = match self {
            ProcessorCodePart::K2Import => "k2_import",
            ProcessorCodePart::UserImport => "user_import",
            ProcessorCodePart::UserStruct => "user_struct",
            ProcessorCodePart::K2InitCode => "k2_init_code",
            ProcessorCodePart::UserInitCode => "user_init_code",
            ProcessorCodePart::K2MemberCreation => "k2_member_creation",
            ProcessorCodePart::UserMemberCreation => "user_member_creation",
            ProcessorCodePart::InitializeCode => "initialize_code",
            ProcessorCodePart::ProcessCode => "process_code",
            ProcessorCodePart::FinalizeCode => "finalize_code",
            ProcessorCodePart::UserCode => "user_code",
        };
        s.to_owned()
    }

    /// The position of the part.
    pub fn position(&self) -> (r: usize)
        ensures
            r == part_index(*self),
            r < 11,
    {
        match self {
            ProcessorCodePart::K2Import => 0,
            ProcessorCodePart::UserImport => 1,
            ProcessorCodePart::UserStruct => 2,
            ProcessorCodePart::K2InitCode => 3,
            ProcessorCodePart::UserInitCode => 4,
            ProcessorCodePart::K2MemberCreation => 5,
            ProcessorCodePart::UserMemberCreation => 6,
            ProcessorCodePart::InitializeCode => 7,
            ProcessorCodePart::ProcessCode => 8,
            ProcessorCodePart::FinalizeCode => 9,
            ProcessorCodePart::UserCode => 10,
        }
    }

    /// The part at a position.
    pub fn at(value: u8) -> (r: Option<Self>)
        ensures
            r == part_at(value),
    {
        if value == 0 {
            Some(ProcessorCodePart::K2Import)
        } else if value == 1 {
            Some(ProcessorCodePart::UserImport)
        } else if value == 2 {
            Some(ProcessorCodePart::UserStruct)
        } else if value == 3 {
            Some(ProcessorCodePart::K2InitCode)
        } else if value == 4 {
            Some(ProcessorCodePart::UserInitCode)
        } else if value == 5 {
            Some(ProcessorCodePart::K2MemberCreation)
        } else if value == 6 {
            Some(ProcessorCodePart::UserMemberCreation)
        } else if value == 7 {
            Some(ProcessorCodePart::InitializeCode)
        } else if value == 8 {
            Some(ProcessorCodePart::ProcessCode)
        } else if value == 9 {
            Some(ProcessorCodePart::FinalizeCode)
        } else if value == 10 {
            Some(ProcessorCodePart::UserCode)
        } else {
            None
        }
    }

    /// The part a user may write that a name stands for.
    pub fn writable_named(value: &str) -> (r: Result<Self, K2ErrorCode>)
        ensures
            r == writable_part_named(value@),
    {
        if str_eq(value, "k2_import") || str_eq(value, "k2_init_code") || str_eq(
            value,
            "k2_member_creation",
        ) {
            Err(K2ErrorCode::NotAllowed)
        } else if str_eq(value, "user_import") {
            Ok(ProcessorCodePart::UserImport)
        } else if str_eq(value, "user_struct") {
            Ok(ProcessorCodePart::UserStruct)
        } else if str_eq(value, "user_init_code") {
            Ok(ProcessorCodePart::UserInitCode)
        } else if str_eq(value, "user_member_creation") {
            Ok(ProcessorCodePart::UserMemberCreation)
        } else if str_eq(value, "initialize_code") {
            Ok(ProcessorCodePart::InitializeCode)
        } else if str_eq(value, "process_code") {
            Ok(ProcessorCodePart::ProcessCode)
        } else if str_eq(value, "finalize_code") {
            Ok(ProcessorCodePart::FinalizeCode)
        } else if str_eq(value, "user_code") {
            Ok(ProcessorCodePart::UserCode)
        } else {
            Err(K2ErrorCode::InvalidValue)
        }
    }
}

impl TryFrom<u8> for ProcessorCodePart {
    type Error = K2Error;

    /// The part at a position; `InvalidValue` past the last part.
    fn try_from(value: u8) -> (r: Result<Self, K2Error>)
        ensures
            match part_at(value) {
                Some(p) => r == Ok::<ProcessorCodePart, K2Error>(p),
                None => r matches Err(e) && e.code == K2ErrorCode::InvalidValue && e.message@
                    == "Unknown code part value: "@ + nat_text(value as nat),
            },
    {
        match ProcessorCodePart::at(value) {
            Some(p) => Ok(p),
            None => Err(
                K2Error {
                    code: K2ErrorCode::InvalidValue,
                    message: String::from_str("Unknown code part value: ").concat(
                        crate::numbers::u32_text(value as u32).as_str(),
                    ),
                },
            ),
        }
    }
}

impl TryFromSpecImpl<u8> for ProcessorCodePart {
    open spec fn obeys_try_from_spec() -> bool {
        false
    }

    open spec fn try_from_spec(v: u8) -> Result<Self, K2Error> {
        match part_at(v) {
            Some(p) => Ok(p),
            None => Err(error_with(K2ErrorCode::InvalidValue, "Unknown code part value: "@ + nat_text(v as nat))),
        }
    }
}

/// The message with which a name is refused as a part a user may write.
pub open spec fn refusal_text(s: Seq<char>, c: K2ErrorCode) -> Seq<char> {
    if c == K2ErrorCode::InvalidValue {
        "Unknown code part: "@ + s
    } else if s == "k2_import"@ {
        "Read-only code part: "@ + s
    } else {
        "Read-only code part value: "@ + s
    }
}

impl TryFrom<String> for ProcessorCodePart {
    type Error = K2Error;

    /// The part a user may write that a name stands for: `NotAllowed` for the
    /// framework's parts, `InvalidValue` for another text.
    fn try_from(value: String) -> (r: Result<Self, K2Error>)
        ensures
            match writable_part_named(value@) {
                Ok(p) => r == Ok::<ProcessorCodePart, K2Error>(p),
                Err(c) => r matches Err(e) && e.code == c && e.message@ == refusal_text(value@, c),
            },
    {
        match ProcessorCodePart::writable_named(value.as_str()) {
            Ok(p) => Ok(p),
            Err(c) => {
                let head = if c == K2ErrorCode::InvalidValue {
                    "Unknown code part: "
                } else if str_eq(value.as_str(), "k2_import") {
                    "Read-only code part: "
                } else {
                    "Read-only code part value: "
                };
                Err(K2Error { code: c, message: String::from_str(head).concat(value.as_str()) })
            },
        }
    }
}

impl TryFromSpecImpl<String> for ProcessorCodePart {
    open spec fn obeys_try_from_spec() -> bool {
        false
    }

    open spec fn try_from_spec(v: String) -> Result<Self, K2Error> {
        match writable_part_named(v@) {
            Ok(p) => Ok(p),
            Err(c) => Err(error_with(c, refusal_text(v@, c))),
        }
    }
}

/// The lines that create a processor's members, by kind of member.
pub struct MemberLines {
    pub inputs: Seq<Seq<char>>,
    pub outputs: Seq<Seq<char>>,
    pub parameters: Seq<Seq<char>>,
    pub states: Seq<Seq<char>>,
    pub commands: Seq<Seq<char>>,
}

/// The line that quotes a member's name for `add_*`.
pub open spec fn quoted(n: Seq<char>) -> Seq<char> {
    "\""@ + n + "\".to_string()"@
}

/// The lines for one more member, or the property it lacks.
pub open spec fn add_member(m: MemberLines, n: Seq<char>, o: K2ObjectView) -> Result<MemberLines, Seq<char>> {
    let p = o.properties;
    let head = "self_instance.get_stream_block_mut()."@;
    let t = o.object_type;
    if t == "input"@ {
        if !p.contains_key("type"@) {
            Err("Missing type"@)
        } else {
            Ok(MemberLines { inputs: m.inputs.push(head + "add_input::<"@ + p["type"@] + ">("@ + quoted(n) + ")?;"@), ..m })
        }
    } else if t == "output"@ {
        if !p.contains_key("type"@) {
            Err("Missing type"@)
        } else {
            Ok(MemberLines { outputs: m.outputs.push(head + "add_output::<"@ + p["type"@] + ">("@ + quoted(n) + ")?;"@), ..m })
        }
    } else if t == "parameter"@ {
        if !p.contains_key("type"@) {
            Err("Missing type"@)
        } else if !p.contains_key("value"@) {
            Err("Missing value"@)
        } else if !p.contains_key("kind"@) {
            Err("Missing kind"@)
        } else {
            Ok(MemberLines {
                parameters: m.parameters.push(
                    head + "add_parameter::<"@ + p["type"@] + ">("@ + quoted(n) + ", ParameterType::"@
                        + uppercase(p["kind"@]) + ")?;"@,
                ).push(head + "set_param_value::<"@ + p["type"@] + ">(\""@ + n + "\", "@ + p["value"@]),
                ..m
            })
        }
    } else if t == "state"@ {
        if !p.contains_key("type"@) {
            Err("Missing type"@)
        } else if !p.contains_key("value"@) {
            Err("Missing value"@)
        } else {
            Ok(MemberLines {
                states: m.states.push(head + "add_state::<"@ + p["type"@] + ">("@ + quoted(n) + ")?;"@).push(
                    head + "set_state_value::<"@ + p["type"@] + ">(\""@ + n + "\", "@ + p["value"@],
                ),
                ..m
            })
        }
    } else if t == "command"@ {
        if !p.contains_key("callback"@) {
            Err("Missing callback"@)
        } else {
            Ok(MemberLines { commands: m.commands.push(head + "add_command("@ + quoted(n) + ", "@ + p["callback"@] + ");?"@), ..m })
        }
    } else {
        Ok(m)
    }
}

/// The lines for the members named, in order; the first lacking property
/// stops it.
pub open spec fn member_lines(names: Seq<Seq<char>>, t: Table) -> Result<MemberLines, Seq<char>>
    decreases names.len(),
{
    if names.len() == 0 {
        Ok(MemberLines {
            inputs: Seq::empty(),
            outputs: Seq::empty(),
            parameters: Seq::empty(),
            states: Seq::empty(),
            commands: Seq::empty(),
        })
    } else {
        match member_lines(names.drop_last(), t) {
            Err(e) => Err(e),
            Ok(m) => add_member(m, names.last(), t[names.last()]),
        }
    }
}

/// Once the members named up to a point lack a property, the members
/// named after it change nothing.
proof fn lemma_member_lines_stop(s: Seq<Seq<char>>, k: int, t: Table)
    requires
        0 <= k <= s.len(),
        member_lines(s.take(k), t) is Err,
    ensures
        member_lines(s, t) == member_lines(s.take(k), t),
    decreases s.len() - k,
{
    if k == s.len() {
        assert(s.take(k) =~= s);
    } else {
        assert(s.take(k + 1).drop_last() =~= s.take(k));
        lemma_member_lines_stop(s, k + 1, t);
    }
}

/// The member-creation part: the lines of each kind, the kinds one after
/// the other.
pub open spec fn member_code(m: MemberLines) -> Seq<char> {
    join_with(
        seq![
            join_with(m.inputs, "\n"@),
            join_with(m.outputs, "\n"@),
            join_with(m.parameters, "\n"@),
            join_with(m.states, "\n"@),
            join_with(m.commands, "\n"@),
        ],
        "\n"@,
    )
}

/// A member's name quoted for `add_*`.
fn quote_name(n: &str) -> (r: String)
    ensures
        r@ == quoted(n@),
{
    String::from_str("\"").concat(n).concat("\".to_string()")
}

/// A property of a member.
fn property(o: &K2Object, k: &str) -> (r: Option<String>)
    ensures
        match r {
            Some(v) => o@.properties.contains_key(k@) && v@ == o@.properties[k@],
            None => !o@.properties.contains_key(k@),
        },
{
    match o.properties.get(k) {
        Some(v) => Some(v.clone()),
        None => None,
    }
}

/// What a `new` command does to a processor's generator: `o` before, `f`
/// after, `r` the answer.
pub open spec fn member_added(o: ProcessCoder, k2: K2ReturnStruct, f: ProcessCoder, r: Result<String, String>) -> bool {
    let data = k2@.data;
    &&& data.len() == 0 ==> (r matches Err(m) && m@ == "Missing data"@) && f == o
    &&& data.len() > 0 && o.members().contains_key(data[0].name) ==> (r matches Err(m) && m@ == "Object "@
        + data[0].name + " already exists"@) && f == o
    &&& data.len() > 0 && !o.members().contains_key(data[0].name) ==> (r matches Ok(m) && m@ == "Object "@
        + data[0].name + " created"@) && f.members() == o.members().insert(data[0].name, data[0])
        && f.member_names() == o.member_names().push(data[0].name)
    &&& f.label() == o.label()
    &&& f.file() == o.file()
    &&& o.part_count() == 11 ==> f.part_count() == 11
    &&& forall|i: int| #[trigger] f.code(i) == o.code(i)
}

/// What a `delete` command does to a processor's generator: `o` before,
/// `f` after, `r` the answer.
pub open spec fn member_deleted(o: ProcessCoder, k2: K2ReturnStruct, f: ProcessCoder, r: Result<DeleteStep, String>) -> bool {
    let data = k2@.data;
    &&& data.len() == 0 ==> (r matches Err(m) && m@ == "Missing data"@) && f == o
    &&& data.len() > 0 && data[0].name == o.label() ==> f == o && match o.file() {
        None => r matches Err(m) && m@ == "Path not set"@,
        Some(p) => r matches Ok(DeleteStep::RemoveFile(x)) && x@ == p,
    }
    &&& data.len() > 0 && data[0].name != o.label() && o.members().contains_key(data[0].name) ==> (r matches Ok(
        DeleteStep::Done(m),
    ) && m@ == "Object "@ + data[0].name + " deleted with success"@) && f.members() == o.members().remove(
        data[0].name,
    ) && f.member_names() == o.member_names().remove(o.member_position(data[0].name))
    &&& data.len() > 0 && data[0].name != o.label() && !o.members().contains_key(data[0].name) ==> (r matches Err(
        m,
    ) && m@ == "Object "@ + data[0].name + " not found"@) && f == o
    &&& f.label() == o.label()
    &&& f.file() == o.file()
    &&& f.part_count() == o.part_count()
    &&& forall|i: int| #[trigger] f.code(i) == o.code(i)
}

/// What a `set` command does to a processor's generator: `o` before, `f`
/// after, `r` the answer. On the processor itself, the first property, in
/// order, that names a part users may write sets that part.
pub open spec fn value_set(o: ProcessCoder, k2: K2ReturnStruct, f: ProcessCoder, r: Result<String, String>) -> bool {
    &&& k2@.data.len() == 0 ==> (r matches Err(m) && m@ == "Missing data"@) && f == o
    &&& k2@.data.len() > 0 ==> {
        let d = k2@.data[0];
        let keys = k2.data@[0].properties.keys_seq();
        &&& d.name == o.label() ==> match first_part_key(keys, 0) {
            None => (r matches Err(m) && m@ == "Invalid set on processor "@ + o.label()) && f == o,
            Some(i) => {
                let part = part_index(writable_part_named(keys[i])->Ok_0);
                &&& r matches Ok(m) && m@ == "Set value for "@ + d.name
                &&& f.code(part) == d.properties[keys[i]]
                &&& forall|j: int| j != part ==> #[trigger] f.code(j) == o.code(j)
                &&& f.members() == o.members()
                &&& f.member_names() == o.member_names()
            },
        }
        &&& d.name != o.label() && !o.members().contains_key(d.name) ==> (r matches Err(m) && m@ == "Object "@
            + d.name + " does not exist"@) && f == o
        &&& d.name != o.label() && o.members().contains_key(d.name) && !d.properties.contains_key("value"@) ==> (
        r matches Err(m) && m@ == "Missing value"@) && f == o
        &&& d.name != o.label() && o.members().contains_key(d.name) && d.properties.contains_key("value"@) ==> {
            &&& r matches Ok(m) && m@ == "Set value for "@ + d.name
            &&& f.members() == o.members().insert(d.name, with_prop(o.members()[d.name], "value"@, d.properties["value"@]))
            &&& f.member_names() == o.member_names()
            &&& forall|j: int| #[trigger] f.code(j) == o.code(j)
        }
    }
    &&& f.label() == o.label()
    &&& f.file() == o.file()
    &&& o.part_count() == 11 ==> f.part_count() == 11
}

/// What generating does to a processor's generator: `o` before, `f` after,
/// `r` the source text or the error.
pub open spec fn source_generated(o: ProcessCoder, f: ProcessCoder, r: Result<String, String>) -> bool {
    &&& match member_lines(o.member_names(), o.members()) {
        Ok(m) => {
            &&& f.code(5) == member_code(m)
            &&& forall|i: int| i != 5 ==> #[trigger] f.code(i) == o.code(i)
            &&& f.part_count() == 11
            &&& r matches Ok(text) && text@ == join_with(generated_pieces(f.parts(), f.label(), 11), "\n"@)
        },
        Err(e) => (r matches Err(x) && x@ == e) && f == o,
    }
    &&& f.label() == o.label()
    &&& f.file() == o.file()
    &&& f.members() == o.members()
    &&& f.member_names() == o.member_names()
}

/// The code generator of one processor.
pub struct ProcessCoder {
    name: String,
    path: Option<String>,
    children: NameMap<K2Object>,
    code_parts: Vec<String>,
}

impl ProcessCoder {
    /// The processor's name.
    pub closed spec fn label(&self) -> Seq<char> {
        self.name@
    }

    /// The path of its source file, once its directory was set.
    pub closed spec fn file(&self) -> Option<Seq<char>> {
        match self.path {
            Some(p) => Some(p@),
            None => None,
        }
    }

    /// Its members, by name.
    pub closed spec fn members(&self) -> Table {
        table_view(self.children)
    }

    /// The names of its members, in the order they were created.
    pub closed spec fn member_names(&self) -> Seq<Seq<char>> {
        self.children.keys_seq()
    }

    /// The text of the part at a position.
    pub closed spec fn code(&self, i: int) -> Seq<char> {
        if 0 <= i < self.code_parts@.len() {
            self.code_parts@[i]@
        } else {
            Seq::empty()
        }
    }

    /// The number of parts it holds.
    pub closed spec fn part_count(&self) -> nat {
        self.code_parts@.len()
    }

    /// The texts of its parts, in order.
    pub closed spec fn parts(&self) -> Seq<Seq<char>> {
        self.code_parts.deep_view()
    }

    /// The position of a member among the names of the members.
    pub closed spec fn member_position(&self, n: Seq<char>) -> int {
        self.children.index_of(n)
    }

    /// The generator of the processor `object`, whose parts start as the
    /// given templates, in the order of the parts.
    pub fn new(name: String, object: &K2Object, templates: &Vec<String>) -> (r: Result<Self, String>)
        requires
            templates@.len() == 11,
        ensures
            object@.object_type != "processor"@ ==> (r matches Err(m) && m@ == "Object "@ + name@
                + " is not a processor"@),
            object@.object_type == "processor"@ ==> (r matches Ok(c) && c.label() == name@ && c.file()
                is None && c.members() == Table::empty() && c.member_names() == Seq::<Seq<char>>::empty()
                && c.part_count() == 11 && forall|i: int| 0 <= i < 11 ==> #[trigger] c.code(i) == templates@[i]@),
    {
        if !str_eq(object.object_type.as_str(), "processor") {
            return Err(concat3("Object ", name.as_str(), " is not a processor"));
        }
        let r = ProcessCoder {
            name,
            path: None,
            children: NameMap::new(),
            code_parts: crate::text::clone_strings(templates),
        };
        assert(table_view(r.children) =~= Table::empty());
        assert forall|i: int| 0 <= i < 11 implies #[trigger] r.code(i) == templates@[i]@ by {
            assert(r.code_parts.deep_view()[i] == r.code_parts@[i]@);
            assert(templates.deep_view()[i] == templates@[i]@);
        }
        Ok(r)
    }

    /// A generator with no name, file, members or parts; it stands in for
    /// one that is taken out of a table for a moment.
    pub(crate) fn placeholder() -> (r: Self)
        ensures
            r.label() == Seq::<char>::empty(),
            r.file() == None::<Seq<char>>,
            r.member_names() == Seq::<Seq<char>>::empty(),
            r.members() == Table::empty(),
            r.parts() == Seq::<Seq<char>>::empty(),
    {
        let r = ProcessCoder { name: String::new(), path: None, children: NameMap::new(), code_parts: Vec::new() };
        assert(table_view(r.children) =~= Table::empty());
        assert(r.code_parts.deep_view() =~= Seq::<Seq<char>>::empty());
        r
    }

    /// The processor's name.
    pub fn get_name(&self) -> (r: String)
        ensures
            r@ == self.label(),
    {
        self.name.clone()
    }

    /// The path of its source file; empty before its directory was set.
    pub fn get_path(&self) -> (r: String)
        ensures
            r@ == (match self.file() {
                Some(p) => p,
                None => Seq::<char>::empty(),
            }),
    {
        match &self.path {
            Some(p) => p.clone(),
            None => String::new(),
        }
    }

    /// Puts its source file in the directory `path`, named after it.
    pub fn set_parent_directory(&mut self, path: String)
        ensures
            final(self).file() == Some(path@ + "/"@ + old(self).label() + ".rs"@),
            final(self).label() == old(self).label(),
            final(self).members() == old(self).members(),
            final(self).member_names() == old(self).member_names(),
            final(self).part_count() == old(self).part_count(),
            forall|i: int| #[trigger] final(self).code(i) == old(self).code(i),
    {
        self.path = Some(concat3(path.as_str(), "/", self.name.as_str()).concat(".rs"));
    }

    /// Adds the member that a `new` command carries.
    pub fn proc_new(&mut self, k2_struct: &K2ReturnStruct) -> (r: Result<String, String>)
        ensures
            member_added(*old(self), *k2_struct, *final(self), r),
    {
        if k2_struct.data.len() == 0 {
            return Err("Missing data".to_owned());
        }
        assert(k2_struct@.data[0] == k2_struct.data@[0]@);
        let object = k2_struct.data[0].duplicate();
        let object_name = object.name.clone();
        if table_has(&self.children, object_name.as_str()) {
            return Err(concat3("Object ", object_name.as_str(), " already exists"));
        }
        let ghost n = object_name@;
        self.children.insert(object_name.clone(), object);
        assert(table_view(self.children) =~= table_view(old(self).children).insert(n, k2_struct@.data[0]));
        Ok(concat3("Object ", object_name.as_str(), " created"))
    }

    /// Refuses an `add` command.
    pub fn proc_add(&mut self, _k2_struct: &K2ReturnStruct) -> (r: Result<String, String>)
        ensures
            r matches Err(m) && m@ == "Add not applicable to processor"@,
            *final(self) == *old(self),
    {
        Err("Add not applicable to processor".to_owned())
    }

    /// Refuses a `connect` command.
    pub fn proc_connect(&mut self, _k2_struct: &K2ReturnStruct) -> (r: Result<String, String>)
        ensures
            r matches Err(m) && m@ == "Connect not applicable to processor"@,
            *final(self) == *old(self),
    {
        Err("Connect not applicable to processor".to_owned())
    }

    /// Refuses a `disconnect` command.
    pub fn proc_disconnect(&mut self, _k2_struct: &K2ReturnStruct) -> (r: Result<String, String>)
        ensures
            r matches Err(m) && m@ == "Disconnect not applicable to processor"@,
            *final(self) == *old(self),
    {
        Err("Disconnect not applicable to processor".to_owned())
    }

    /// Refuses an `exec` command.
    pub fn proc_exec(&mut self, _k2_struct: &K2ReturnStruct) -> (r: Result<String, String>)
        ensures
            r matches Err(m) && m@ == "Exec not applicable to processor"@,
            *final(self) == *old(self),
    {
        Err("Exec not applicable to processor".to_owned())
    }

    /// Writes the member-creation part from the members: the inputs, the
    /// outputs, the parameters, the states and the commands, each kind in the
    /// order the members were created. A member without a property it needs
    /// stops it, and nothing changes.
    pub fn generate_k2_member_creation(&mut self) -> (r: Result<(), String>)
        ensures
            match member_lines(old(self).member_names(), old(self).members()) {
                Ok(m) => r is Ok && final(self).code(5) == member_code(m) && forall|i: int|
                    i != 5 ==> #[trigger] final(self).code(i) == old(self).code(i),
                Err(e) => r matches Err(x) && x@ == e && *final(self) == *old(self),
            },
            final(self).label() == old(self).label(),
            final(self).file() == old(self).file(),
            old(self).part_count() == 11 ==> final(self).part_count() == 11,
            final(self).members() == old(self).members(),
            final(self).member_names() == old(self).member_names(),
    {
        let names = self.children.keys();
        let ghost t = self.members();
        let ghost all = names.deep_view();
        let mut inputs: Vec<String> = Vec::new();
        let mut outputs: Vec<String> = Vec::new();
        let mut parameters: Vec<String> = Vec::new();
        let mut states: Vec<String> = Vec::new();
        let mut commands: Vec<String> = Vec::new();
        let mut i: usize = 0;
        assert(all.take(0) =~= Seq::<Seq<char>>::empty());
        assert(inputs.deep_view() =~= Seq::<Seq<char>>::empty());
        assert(outputs.deep_view() =~= Seq::<Seq<char>>::empty());
        assert(parameters.deep_view() =~= Seq::<Seq<char>>::empty());
        assert(states.deep_view() =~= Seq::<Seq<char>>::empty());
        assert(commands.deep_view() =~= Seq::<Seq<char>>::empty());
        while i < names.len()
            invariant
                i <= names@.len(),
                all == names.deep_view(),
                all == self.children.keys_seq(),
                t == self.members(),
                *self == *old(self),
                member_lines(all.take(i as int), t) == Ok::<MemberLines, Seq<char>>(
                    MemberLines {
                        inputs: inputs.deep_view(),
                        outputs: outputs.deep_view(),
                        parameters: parameters.deep_view(),
                        states: states.deep_view(),
                        commands: commands.deep_view(),
                    },
                ),
            decreases names@.len() - i,
        {
            let ghost before = all.take(i as int);
            assert(all.take(i + 1).drop_last() =~= before);
            assert(all.take(i + 1).last() == names@[i as int]@);
            let n = &names[i];
            assert(self.children.has(n@));
            let object = match table_get(&self.children, n.as_str()) {
                Some(o) => o,
                None => {
                    return Err(String::new());
                },
            };
            proof {
                let m_prev = MemberLines {
                    inputs: inputs.deep_view(),
                    outputs: outputs.deep_view(),
                    parameters: parameters.deep_view(),
                    states: states.deep_view(),
                    commands: commands.deep_view(),
                };
                assert(member_lines(all.take(i + 1), t) == add_member(m_prev, n@, object@));
            }
            let ty = object.object_type.as_str();
            let head = "self_instance.get_stream_block_mut().";
            if str_eq(ty, "input") || str_eq(ty, "output") {
                let t_ = match property(&object, "type") {
                    Some(v) => v,
                    None => {
                        proof {
                            lemma_member_lines_stop(all, i as int + 1, t);
                        }
                        return Err("Missing type".to_owned());
                    },
                };
                let q = quote_name(n.as_str());
                if str_eq(ty, "input") {
                    let line = String::from_str(head).concat("add_input::<").concat(t_.as_str()).concat(">(").concat(q.as_str()).concat(")?;");
                    let ghost b = inputs.deep_view();
                    inputs.push(line);
                    assert(inputs.deep_view() =~= b.push(line@));
                } else {
                    let line = String::from_str(head).concat("add_output::<").concat(t_.as_str()).concat(">(").concat(q.as_str()).concat(")?;");
                    let ghost b = outputs.deep_view();
                    outputs.push(line);
                    assert(outputs.deep_view() =~= b.push(line@));
                }
            } else if str_eq(ty, "parameter") {
                let t_ = match property(&object, "type") {
                    Some(v) => v,
                    None => {
                        proof {
                            lemma_member_lines_stop(all, i as int + 1, t);
                        }
                        return Err("Missing type".to_owned());
                    },
                };
                let v_ = match property(&object, "value") {
                    Some(v) => v,
                    None => {
                        proof {
                            lemma_member_lines_stop(all, i as int + 1, t);
                        }
                        return Err("Missing value".to_owned());
                    },
                };
                let k_ = match property(&object, "kind") {
                    Some(v) => v,
                    None => {
                        proof {
                            lemma_member_lines_stop(all, i as int + 1, t);
                        }
                        return Err("Missing kind".to_owned());
                    },
                };
                let kind = to_upper(k_.as_str());
                let q = quote_name(n.as_str());
                let line1 = String::from_str(head).concat("add_parameter::<").concat(t_.as_str()).concat(">(").concat(q.as_str()).concat(", ParameterType::").concat(kind.as_str()).concat(")?;");
                let line2 = String::from_str(head).concat("set_param_value::<").concat(t_.as_str()).concat(">(\"").concat(n.as_str()).concat("\", ").concat(v_.as_str());
                let ghost b = parameters.deep_view();
                parameters.push(line1);
                parameters.push(line2);
                assert(parameters.deep_view() =~= b.push(line1@).push(line2@));
            } else if str_eq(ty, "state") {
                let t_ = match property(&object, "type") {
                    Some(v) => v,
                    None => {
                        proof {
                            lemma_member_lines_stop(all, i as int + 1, t);
                        }
                        return Err("Missing type".to_owned());
                    },
                };
                let v_ = match property(&object, "value") {
                    Some(v) => v,
                    None => {
                        proof {
                            lemma_member_lines_stop(all, i as int + 1, t);
                        }
                        return Err("Missing value".to_owned());
                    },
                };
                let q = quote_name(n.as_str());
                let line1 = String::from_str(head).concat("add_state::<").concat(t_.as_str()).concat(">(").concat(q.as_str()).concat(")?;");
                let line2 = String::from_str(head).concat("set_state_value::<").concat(t_.as_str()).concat(">(\"").concat(n.as_str()).concat("\", ").concat(v_.as_str());
                let ghost b = states.deep_view();
                states.push(line1);
                states.push(line2);
                assert(states.deep_view() =~= b.push(line1@).push(line2@));
            } else if str_eq(ty, "command") {
                let c_ = match property(&object, "callback") {
                    Some(v) => v,
                    None => {
                        proof {
                            lemma_member_lines_stop(all, i as int + 1, t);
                        }
                        return Err("Missing callback".to_owned());
                    },
                };
                let q = quote_name(n.as_str());
                let line = String::from_str(head).concat("add_command(").concat(q.as_str()).concat(", ").concat(c_.as_str()).concat(");?");
                let ghost b = commands.deep_view();
                commands.push(line);
                assert(commands.deep_view() =~= b.push(line@));
            }
            i = i + 1;
        }
        assert(all.take(i as int) =~= all);
        let mut blocks: Vec<String> = Vec::new();
        blocks.push(join_strings(&inputs, "\n"));
        blocks.push(join_strings(&outputs, "\n"));
        blocks.push(join_strings(&parameters, "\n"));
        blocks.push(join_strings(&states, "\n"));
        blocks.push(join_strings(&commands, "\n"));
        let code = join_strings(&blocks, "\n");
        assert(blocks.deep_view() =~= seq![
            join_with(inputs.deep_view(), "\n"@),
            join_with(outputs.deep_view(), "\n"@),
            join_with(parameters.deep_view(), "\n"@),
            join_with(states.deep_view(), "\n"@),
            join_with(commands.deep_view(), "\n"@),
        ]);
        self.set_part(5, code);
        Ok(())
    }

    /// Sets the text of the part at a position.
    fn set_part(&mut self, i: usize, text: String)
        requires
            i < 11,
        ensures
            final(self).code(i as int) == text@,
            forall|j: int| j != i ==> #[trigger] final(self).code(j) == old(self).code(j),
            final(self).label() == old(self).label(),
            final(self).file() == old(self).file(),
            old(self).part_count() == 11 ==> final(self).part_count() == 11,
            final(self).members() == old(self).members(),
            final(self).member_names() == old(self).member_names(),
    {
        while self.code_parts.len() <= i
            invariant
                i < 11,
                self.name == old(self).name,
                self.path == old(self).path,
                self.children == old(self).children,
                forall|j: int| #[trigger] self.code(j) == old(self).code(j),
                old(self).code_parts@.len() > i ==> self.code_parts@.len() == old(self).code_parts@.len(),
            decreases 11 - self.code_parts@.len(),
        {
            let ghost before = *self;
            self.code_parts.push(String::new());
            assert forall|j: int| #[trigger] self.code(j) == before.code(j) by {
                if j == before.code_parts@.len() {
                    assert(self.code_parts@[j]@ == Seq::<char>::empty());
                }
            }
        }
        let ghost before = *self;
        self.code_parts.set(i, text);
        assert forall|j: int| j != i implies #[trigger] self.code(j) == before.code(j) by {}
    }
    /// Deletes what a `delete` command names: the processor itself, whose
    /// source file is then to be removed (`Path not set` before its
    /// directory was set), or one of its members.
    pub fn proc_delete(&mut self, k2_struct: &K2ReturnStruct) -> (r: Result<DeleteStep, String>)
        ensures
            member_deleted(*old(self), *k2_struct, *final(self), r),
    {
        if k2_struct.data.len() == 0 {
            return Err("Missing data".to_owned());
        }
        assert(k2_struct@.data[0] == k2_struct.data@[0]@);
        let object = &k2_struct.data[0];
        if str_eq(object.name.as_str(), self.name.as_str()) {
            match &self.path {
                Some(p) => Ok(DeleteStep::RemoveFile(p.clone())),
                None => Err("Path not set".to_owned()),
            }
        } else if table_has(&self.children, object.name.as_str()) {
            let _ = self.children.remove(object.name.as_str());
            assert(table_view(self.children) =~= table_view(old(self).children).remove(object.name@));
            Ok(DeleteStep::Done(concat3("Object ", object.name.as_str(), " deleted with success")))
        } else {
            Err(concat3("Object ", object.name.as_str(), " not found"))
        }
    }

    /// Sets what a `set` command carries: on the processor itself, the first
    /// of its properties, in order, that names a part users may write sets
    /// that part (`Invalid set on processor` when none does); on a member,
    /// its `value` property.
    pub fn proc_set(&mut self, k2_struct: &K2ReturnStruct) -> (r: Result<String, String>)
        ensures
            value_set(*old(self), *k2_struct, *final(self), r),
    {
        if k2_struct.data.len() == 0 {
            return Err("Missing data".to_owned());
        }
        assert(k2_struct@.data[0] == k2_struct.data@[0]@);
        let object = &k2_struct.data[0];
        if str_eq(object.name.as_str(), self.name.as_str()) {
            let keys = object.properties.keys();
            let ghost ks = keys.deep_view();
            let mut i: usize = 0;
            while i < keys.len()
                invariant
                    i <= keys@.len(),
                    ks == keys.deep_view(),
                    ks == object.properties.keys_seq(),
                    first_part_key(ks, 0) == first_part_key(ks, i as int),
                    *self == *old(self),
                    k2_struct@.data.len() > 0,
                    *object == k2_struct.data@[0],
                    k2_struct@.data[0] == object@,
                    object@.name == self.label(),
                decreases keys@.len() - i,
            {
                assert(ks[i as int] == keys@[i as int]@);
                match ProcessorCodePart::writable_named(keys[i].as_str()) {
                    Ok(part) => {
                        assert(object.properties.has(ks[i as int]));
                        let value = object.properties.get(keys[i].as_str()).unwrap().clone();
                        assert(value@ == str_map(object.properties)[ks[i as int]]);
                        self.set_part(part.position(), value);
                        return Ok(String::from_str("Set value for ").concat(object.name.as_str()));
                    },
                    Err(_) => {},
                }
                i = i + 1;
            }
            Err(String::from_str("Invalid set on processor ").concat(self.name.as_str()))
        } else {
            if !table_has(&self.children, object.name.as_str()) {
                return Err(concat3("Object ", object.name.as_str(), " does not exist"));
            }
            let value = match object.properties.get("value") {
                Some(v) => v.clone(),
                None => {
                    return Err("Missing value".to_owned());
                },
            };
            let mut child = table_get(&self.children, object.name.as_str()).unwrap();
            add_prop(&mut child, "value", &value);
            let ghost cv = child@;
            self.children.insert(object.name.clone(), child);
            assert(table_view(self.children) =~= table_view(old(self).children).insert(object.name@, cv));
            Ok(String::from_str("Set value for ").concat(object.name.as_str()))
        }
    }

    /// The source text of the processor: the member-creation part is written
    /// first (its errors stop it), then the parts follow one another, each on
    /// its own lines, with the opening of the processor's `new` before the
    /// init code, its closing before the initialize code, and the end of the
    /// impl before the user code.
    pub fn generate(&mut self) -> (r: Result<String, String>)
        requires
            old(self).part_count() == 11,
        ensures
            source_generated(*old(self), *final(self), r),
    {
        match self.generate_k2_member_creation() {
            Ok(()) => {},
            Err(e) => {
                return Err(e);
            },
        }
        let mut lines: Vec<String> = Vec::new();
        let mut i: usize = 0;
        assert(lines.deep_view() =~= generated_pieces(self.parts(), self.label(), 0));
        while i < 11
            invariant
                i <= 11,
                self.code_parts@.len() == 11,
                lines.deep_view() == generated_pieces(self.parts(), self.label(), i as int),
            decreases 11 - i,
        {
            let ghost before = lines.deep_view();
            if i == 3 {
                lines.push(concat3("impl ProcessorTrait for ", self.name.as_str(), " {"));
                lines.push("    fn new(name: String) -> ProcessorNewReturn {".to_owned());
                lines.push("        let mut self_instance = Self {".to_owned());
            } else if i == 7 {
                lines.push("        };".to_owned());
                lines.push("        Ok(Box::new(self_instance))".to_owned());
                lines.push("    }".to_owned());
            } else if i == 10 {
                lines.push("}".to_owned());
            }
            assert(self.parts()[i as int] == self.code_parts@[i as int]@);
            lines.push(self.code_parts[i].clone());
            assert(lines.deep_view() =~= generated_pieces(self.parts(), self.label(), i + 1));
            i = i + 1;
        }
        Ok(join_strings(&lines, "\n"))
    }

    /// Building the library is left to its build tool; this step always
    /// succeeds with an empty message.
    pub fn build(&self) -> (r: Result<String, String>)
        ensures
            r matches Ok(m) && m@ == Seq::<char>::empty(),
    {
        Ok(String::new())
    }

}

/// Whether a part is one the framework writes.
pub open spec fn framework_part(p: ProcessorCodePart) -> bool {
    p == ProcessorCodePart::K2Import || p == ProcessorCodePart::K2InitCode || p
        == ProcessorCodePart::K2MemberCreation
}

/// A part's position gives the part back.
pub proof fn law_part_position_round_trip(p: ProcessorCodePart)
    ensures
        0 <= part_index(p) <= 10,
        part_at(part_index(p) as u8) == Some(p),
{
}

/// A part's name gives the part back when a user may write it, and is
/// refused with `NotAllowed` when the framework writes it.
pub proof fn law_part_name_round_trip(p: ProcessorCodePart)
    ensures
        !framework_part(p) ==> writable_part_named(part_name(p)) == Ok::<ProcessorCodePart, K2ErrorCode>(p),
        framework_part(p) ==> writable_part_named(part_name(p)) == Err::<ProcessorCodePart, K2ErrorCode>(K2ErrorCode::NotAllowed),
{
    reveal_strlit("k2_import");
    reveal_strlit("user_import");
    reveal_strlit("user_struct");
    reveal_strlit("k2_init_code");
    reveal_strlit("user_init_code");
    reveal_strlit("k2_member_creation");
    reveal_strlit("user_member_creation");
    reveal_strlit("initialize_code");
    reveal_strlit("process_code");
    reveal_strlit("finalize_code");
    reveal_strlit("user_code");
    match p {
        ProcessorCodePart::UserImport => {
            assert("user_import"@[0] != "k2_import"@[0]);
            assert("user_import"@ != "k2_import"@) by { assert("user_import"@.len() == 11); assert("k2_import"@.len() == 9); }
            assert("user_import"@ != "k2_init_code"@) by { assert("user_import"@.len() == 11); assert("k2_init_code"@.len() == 12); }
            assert("user_import"@ != "k2_member_creation"@) by { assert("user_import"@.len() == 11); assert("k2_member_creation"@.len() == 18); }
            assert(writable_part_named("user_import"@) == Ok::<ProcessorCodePart, K2ErrorCode>(p));
        },
        ProcessorCodePart::UserStruct => {
            assert("user_struct"@[0] != "k2_import"@[0]);
            assert("user_struct"@ != "k2_import"@) by { assert("user_struct"@.len() == 11); assert("k2_import"@.len() == 9); }
            assert("user_struct"@ != "k2_init_code"@) by { assert("user_struct"@.len() == 11); assert("k2_init_code"@.len() == 12); }
            assert("user_struct"@ != "k2_member_creation"@) by { assert("user_struct"@.len() == 11); assert("k2_member_creation"@.len() == 18); }
            assert("user_struct"@ != "user_import"@) by { assert("user_struct"@[5] != "user_import"@[5]); }
            assert(writable_part_named("user_struct"@) == Ok::<ProcessorCodePart, K2ErrorCode>(p));
        },
        ProcessorCodePart::UserInitCode => {
            assert("user_init_code"@[0] != "k2_import"@[0]);
            assert("user_init_code"@ != "k2_import"@) by { assert("user_init_code"@.len() == 14); assert("k2_import"@.len() == 9); }
            assert("user_init_code"@ != "k2_init_code"@) by { assert("user_init_code"@.len() == 14); assert("k2_init_code"@.len() == 12); }
            assert("user_init_code"@ != "k2_member_creation"@) by { assert("user_init_code"@.len() == 14); assert("k2_member_creation"@.len() == 18); }
            assert("user_init_code"@ != "user_import"@) by { assert("user_init_code"@.len() == 14); assert("user_import"@.len() == 11); }
            assert("user_init_code"@ != "user_struct"@) by { assert("user_init_code"@.len() == 14); assert("user_struct"@.len() == 11); }
            assert(writable_part_named("user_init_code"@) == Ok::<ProcessorCodePart, K2ErrorCode>(p));
        },
        ProcessorCodePart::UserMemberCreation => {
            assert("user_member_creation"@[0] != "k2_import"@[0]);
            assert("user_member_creation"@ != "k2_import"@) by { assert("user_member_creation"@.len() == 20); assert("k2_import"@.len() == 9); }
            assert("user_member_creation"@ != "k2_init_code"@) by { assert("user_member_creation"@.len() == 20); assert("k2_init_code"@.len() == 12); }
            assert("user_member_creation"@ != "k2_member_creation"@) by { assert("user_member_creation"@.len() == 20); assert("k2_member_creation"@.len() == 18); }
            assert("user_member_creation"@ != "user_import"@) by { assert("user_member_creation"@.len() == 20); assert("user_import"@.len() == 11); }
            assert("user_member_creation"@ != "user_struct"@) by { assert("user_member_creation"@.len() == 20); assert("user_struct"@.len() == 11); }
            assert("user_member_creation"@ != "user_init_code"@) by { assert("user_member_creation"@.len() == 20); assert("user_init_code"@.len() == 14); }
            assert(writable_part_named("user_member_creation"@) == Ok::<ProcessorCodePart, K2ErrorCode>(p));
        },
        ProcessorCodePart::InitializeCode => {
            assert("initialize_code"@[0] != "k2_import"@[0]);
            assert("initialize_code"@ != "k2_import"@) by { assert("initialize_code"@.len() == 15); assert("k2_import"@.len() == 9); }
            assert("initialize_code"@ != "k2_init_code"@) by { assert("initialize_code"@.len() == 15); assert("k2_init_code"@.len() == 12); }
            assert("initialize_code"@ != "k2_member_creation"@) by { assert("initialize_code"@.len() == 15); assert("k2_member_creation"@.len() == 18); }
            assert("initialize_code"@ != "user_import"@) by { assert("initialize_code"@.len() == 15); assert("user_import"@.len() == 11); }
            assert("initialize_code"@ != "user_struct"@) by { assert("initialize_code"@.len() == 15); assert("user_struct"@.len() == 11); }
            assert("initialize_code"@ != "user_init_code"@) by { assert("initialize_code"@.len() == 15); assert("user_init_code"@.len() == 14); }
            assert("initialize_code"@ != "user_member_creation"@) by { assert("initialize_code"@.len() == 15); assert("user_member_creation"@.len() == 20); }
            assert(writable_part_named("initialize_code"@) == Ok::<ProcessorCodePart, K2ErrorCode>(p));
        },
        ProcessorCodePart::ProcessCode => {
            assert("process_code"@[0] != "k2_import"@[0]);
            assert("process_code"@ != "k2_import"@) by { assert("process_code"@.len() == 12); assert("k2_import"@.len() == 9); }
            assert("process_code"@ != "k2_init_code"@) by { assert("process_code"@[0] != "k2_init_code"@[0]); }
            assert("process_code"@ != "k2_member_creation"@) by { assert("process_code"@.len() == 12); assert("k2_member_creation"@.len() == 18); }
            assert("process_code"@ != "user_import"@) by { assert("process_code"@.len() == 12); assert("user_import"@.len() == 11); }
            assert("process_code"@ != "user_struct"@) by { assert("process_code"@.len() == 12); assert("user_struct"@.len() == 11); }
            assert("process_code"@ != "user_init_code"@) by { assert("process_code"@.len() == 12); assert("user_init_code"@.len() == 14); }
            assert("process_code"@ != "user_member_creation"@) by { assert("process_code"@.len() == 12); assert("user_member_creation"@.len() == 20); }
            assert("process_code"@ != "initialize_code"@) by { assert("process_code"@.len() == 12); assert("initialize_code"@.len() == 15); }
            assert(writable_part_named("process_code"@) == Ok::<ProcessorCodePart, K2ErrorCode>(p));
        },
        ProcessorCodePart::FinalizeCode => {
            assert("finalize_code"@[0] != "k2_import"@[0]);
            assert("finalize_code"@ != "k2_import"@) by { assert("finalize_code"@.len() == 13); assert("k2_import"@.len() == 9); }
            assert("finalize_code"@ != "k2_init_code"@) by { assert("finalize_code"@.len() == 13); assert("k2_init_code"@.len() == 12); }
            assert("finalize_code"@ != "k2_member_creation"@) by { assert("finalize_code"@.len() == 13); assert("k2_member_creation"@.len() == 18); }
            assert("finalize_code"@ != "user_import"@) by { assert("finalize_code"@.len() == 13); assert("user_import"@.len() == 11); }
            assert("finalize_code"@ != "user_struct"@) by { assert("finalize_code"@.len() == 13); assert("user_struct"@.len() == 11); }
            assert("finalize_code"@ != "user_init_code"@) by { assert("finalize_code"@.len() == 13); assert("user_init_code"@.len() == 14); }
            assert("finalize_code"@ != "user_member_creation"@) by { assert("finalize_code"@.len() == 13); assert("user_member_creation"@.len() == 20); }
            assert("finalize_code"@ != "initialize_code"@) by { assert("finalize_code"@.len() == 13); assert("initialize_code"@.len() == 15); }
            assert("finalize_code"@ != "process_code"@) by { assert("finalize_code"@.len() == 13); assert("process_code"@.len() == 12); }
            assert(writable_part_named("finalize_code"@) == Ok::<ProcessorCodePart, K2ErrorCode>(p));
        },
        ProcessorCodePart::UserCode => {
            assert("user_code"@[0] != "k2_import"@[0]);
            assert("user_code"@ != "k2_import"@) by { assert("user_code"@[0] != "k2_import"@[0]); }
            assert("user_code"@ != "k2_init_code"@) by { assert("user_code"@.len() == 9); assert("k2_init_code"@.len() == 12); }
            assert("user_code"@ != "k2_member_creation"@) by { assert("user_code"@.len() == 9); assert("k2_member_creation"@.len() == 18); }
            assert("user_code"@ != "user_import"@) by { assert("user_code"@.len() == 9); assert("user_import"@.len() == 11); }
            assert("user_code"@ != "user_struct"@) by { assert("user_code"@.len() == 9); assert("user_struct"@.len() == 11); }
            assert("user_code"@ != "user_init_code"@) by { assert("user_code"@.len() == 9); assert("user_init_code"@.len() == 14); }
            assert("user_code"@ != "user_member_creation"@) by { assert("user_code"@.len() == 9); assert("user_member_creation"@.len() == 20); }
            assert("user_code"@ != "initialize_code"@) by { assert("user_code"@.len() == 9); assert("initialize_code"@.len() == 15); }
            assert("user_code"@ != "process_code"@) by { assert("user_code"@.len() == 9); assert("process_code"@.len() == 12); }
            assert("user_code"@ != "finalize_code"@) by { assert("user_code"@.len() == 9); assert("finalize_code"@.len() == 13); }
            assert(writable_part_named("user_code"@) == Ok::<ProcessorCodePart, K2ErrorCode>(p));
        },
        _ => {},
    }
}

/// What deleting asks for next: nothing but the message, or the removal of
/// the processor's source file.
pub enum DeleteStep {
    Done(String),
    RemoveFile(String),
}

/// The answer once the source file of the processor `name` was removed, or
/// could not be.
pub fn file_removed(name: &String, removed: bool) -> (r: Result<String, String>)
    ensures
        removed ==> (r matches Ok(m) && m@ == "Processor "@ + name@ + " deleted with success"@),
        !removed ==> (r matches Err(m) && m@ == "Error in deleting object file"@),
{
    if removed {
        Ok(concat3("Processor ", name.as_str(), " deleted with success"))
    } else {
        Err("Error in deleting object file".to_owned())
    }
}

/// The position, from `i` on, of the first name that stands for a part users
/// may write.
pub open spec fn first_part_key(keys: Seq<Seq<char>>, i: int) -> Option<int>
    decreases keys.len() - i,
{
    if i < 0 || i >= keys.len() {
        None
    } else if writable_part_named(keys[i]) is Ok {
        Some(i)
    } else {
        first_part_key(keys, i + 1)
    }
}

/// The lines that open and close the processor's `new` and its impl, put
/// before the part at a position.
pub open spec fn frame_lines(name: Seq<char>, i: int) -> Seq<Seq<char>> {
    if i == 3 {
        seq![
            "impl ProcessorTrait for "@ + name + " {"@,
            "    fn new(name: String) -> ProcessorNewReturn {"@,
            "        let mut self_instance = Self {"@,
        ]
    } else if i == 7 {
        seq!["        };"@, "        Ok(Box::new(self_instance))"@, "    }"@]
    } else if i == 10 {
        seq!["}"@]
    } else {
        Seq::empty()
    }
}

/// The pieces of the source text for the first `n` parts.
pub open spec fn generated_pieces(parts: Seq<Seq<char>>, name: Seq<char>, n: int) -> Seq<Seq<char>>
    decreases n,
{
    if n <= 0 {
        Seq::empty()
    } else {
        generated_pieces(parts, name, n - 1) + frame_lines(name, n - 1) + seq![parts[n - 1]]
    }
}

} // verus!
