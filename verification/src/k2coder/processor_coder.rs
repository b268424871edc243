//! The code of one processor of a library: its members, its properties and
//! the parts of its source text.
use vstd::prelude::*;
use vstd::std_specs::convert::TryFromSpecImpl;
use crate::name_map::NameMap;
use crate::text::{str_eq, join_with, join_strings, concat3};
use crate::k2_lang::objects::{K2Object, str_map};
use crate::k2lang::objects::{K2LangStruct, K2LangView};
use crate::k2_stream::errors::{K2Error, K2ErrorCode, error_with};
use crate::k2coder::coder::{to_snake_case, snake_case};

verus! {

/// A part of a processor's source text, in the order the parts are written.
#[derive(Debug, Clone, Copy, PartialEq, Eq, Hash, Structural)]
pub enum ProcessorCodePart {
    K2Import,
    UserImport,
    K2ProcessorStruct,
    UserStruct,
    K2InitCode,
    UserInitCode,
    K2MemberCreation,
    UserMemberCreation,
    Initialize,
    Process,
    Finalize,
    UserCode,
}

/// The position of a part in the source text.
pub open spec fn part_index(p: ProcessorCodePart) -> int {
    match p {
        ProcessorCodePart::K2Import => 0,
        ProcessorCodePart::UserImport => 1,
        ProcessorCodePart::K2ProcessorStruct => 2,
        ProcessorCodePart::UserStruct => 3,
        ProcessorCodePart::K2InitCode => 4,
        ProcessorCodePart::UserInitCode => 5,
        ProcessorCodePart::K2MemberCreation => 6,
        ProcessorCodePart::UserMemberCreation => 7,
        ProcessorCodePart::Initialize => 8,
        ProcessorCodePart::Process => 9,
        ProcessorCodePart::Finalize => 10,
        ProcessorCodePart::UserCode => 11,
    }
}

/// The part at a position.
pub open spec fn part_at(v: int) -> Option<ProcessorCodePart> {
    if v == 0 {
        Some(ProcessorCodePart::K2Import)
    } else if v == 1 {
        Some(ProcessorCodePart::UserImport)
    } else if v == 2 {
        Some(ProcessorCodePart::K2ProcessorStruct)
    } else if v == 3 {
        Some(ProcessorCodePart::UserStruct)
    } else if v == 4 {
        Some(ProcessorCodePart::K2InitCode)
    } else if v == 5 {
        Some(ProcessorCodePart::UserInitCode)
    } else if v == 6 {
        Some(ProcessorCodePart::K2MemberCreation)
    } else if v == 7 {
        Some(ProcessorCodePart::UserMemberCreation)
    } else if v == 8 {
        Some(ProcessorCodePart::Initialize)
    } else if v == 9 {
        Some(ProcessorCodePart::Process)
    } else if v == 10 {
        Some(ProcessorCodePart::Finalize)
    } else if v == 11 {
        Some(ProcessorCodePart::UserCode)
    } else {
        None
    }
}

/// The name under which a part is written.
pub open spec fn part_name(p: ProcessorCodePart) -> Seq<char> {
    match p {
        ProcessorCodePart::K2Import => "k2_import"@,
        ProcessorCodePart::UserImport => "user_import"@,
        ProcessorCodePart::K2ProcessorStruct => "k2_processor_struct"@,
        ProcessorCodePart::UserStruct => "user_struct"@,
        ProcessorCodePart::K2InitCode => "k2_init_code"@,
        ProcessorCodePart::UserInitCode => "user_init_code"@,
        ProcessorCodePart::K2MemberCreation => "k2_member_creation"@,
        ProcessorCodePart::UserMemberCreation => "user_member_creation"@,
        ProcessorCodePart::Initialize => "initialize"@,
        ProcessorCodePart::Process => "process"@,
        ProcessorCodePart::Finalize => "finalize"@,
        ProcessorCodePart::UserCode => "user_code"@,
    }
}

/// The part a name stands for.
pub open spec fn part_named(s: Seq<char>) -> Option<ProcessorCodePart> {
    if s == "k2_import"@ {
        Some(ProcessorCodePart::K2Import)
    } else if s == "user_import"@ {
        Some(ProcessorCodePart::UserImport)
    } else if s == "k2_processor_struct"@ {
        Some(ProcessorCodePart::K2ProcessorStruct)
    } else if s == "user_struct"@ {
        Some(ProcessorCodePart::UserStruct)
    } else if s == "k2_init_code"@ {
        Some(ProcessorCodePart::K2InitCode)
    } else if s == "user_init_code"@ {
        Some(ProcessorCodePart::UserInitCode)
    } else if s == "k2_member_creation"@ {
        Some(ProcessorCodePart::K2MemberCreation)
    } else if s == "user_member_creation"@ {
        Some(ProcessorCodePart::UserMemberCreation)
    } else if s == "initialize"@ {
        Some(ProcessorCodePart::Initialize)
    } else if s == "process"@ {
        Some(ProcessorCodePart::Process)
    } else if s == "finalize"@ {
        Some(ProcessorCodePart::Finalize)
    } else if s == "user_code"@ {
        Some(ProcessorCodePart::UserCode)
    } else {
        None
    }
}

/// Whether users may write a part: the framework writes the imports, the
/// processor's struct, its init code and its member creation.
pub open spec fn writable(p: ProcessorCodePart) -> bool {
    !(p == ProcessorCodePart::K2Import || p == ProcessorCodePart::K2ProcessorStruct || p
        == ProcessorCodePart::K2MemberCreation || p == ProcessorCodePart::K2InitCode)
}

impl ProcessorCodePart {
    /// Whether users may write the part.
    pub fn is_writable(&self) -> (r: bool)
        ensures
            r == writable(*self),
    {
        match self {
            ProcessorCodePart::K2Import => false,
            ProcessorCodePart::K2ProcessorStruct => false,
            ProcessorCodePart::K2MemberCreation => false,
            ProcessorCodePart::K2InitCode => false,
            _ => true,
        }
    }

    /// The name under which the part is written.
    pub fn to_string(&self) -> (r: String)
        ensures
            r@ == part_name(*self),
    {
        let s = match self {
            ProcessorCodePart::K2Import => "k2_import",
            ProcessorCodePart::UserImport => "user_import",
            ProcessorCodePart::K2ProcessorStruct => "k2_processor_struct",
            ProcessorCodePart::UserStruct => "user_struct",
            ProcessorCodePart::K2InitCode => "k2_init_code",
            ProcessorCodePart::UserInitCode => "user_init_code",
            ProcessorCodePart::K2MemberCreation => "k2_member_creation",
            ProcessorCodePart::UserMemberCreation => "user_member_creation",
            ProcessorCodePart::Initialize => "initialize",
            ProcessorCodePart::Process => "process",
            ProcessorCodePart::Finalize => "finalize",
            ProcessorCodePart::UserCode => "user_code",
        };
        s.to_owned()
    }

    /// The part a name stands for.
    pub fn named(value: &str) -> (r: Option<Self>)
        ensures
            r == part_named(value@),
    {
        if str_eq(value, "k2_import") {
            Some(ProcessorCodePart::K2Import)
        } else if str_eq(value, "user_import") {
            Some(ProcessorCodePart::UserImport)
        } else if str_eq(value, "k2_processor_struct") {
            Some(ProcessorCodePart::K2ProcessorStruct)
        } else if str_eq(value, "user_struct") {
            Some(ProcessorCodePart::UserStruct)
        } else if str_eq(value, "k2_init_code") {
            Some(ProcessorCodePart::K2InitCode)
        } else if str_eq(value, "user_init_code") {
            Some(ProcessorCodePart::UserInitCode)
        } else if str_eq(value, "k2_member_creation") {
            Some(ProcessorCodePart::K2MemberCreation)
        } else if str_eq(value, "user_member_creation") {
            Some(ProcessorCodePart::UserMemberCreation)
        } else if str_eq(value, "initialize") {
            Some(ProcessorCodePart::Initialize)
        } else if str_eq(value, "process") {
            Some(ProcessorCodePart::Process)
        } else if str_eq(value, "finalize") {
            Some(ProcessorCodePart::Finalize)
        } else if str_eq(value, "user_code") {
            Some(ProcessorCodePart::UserCode)
        } else {
            None
        }
    }
}

impl TryFrom<u8> for ProcessorCodePart {
    type Error = K2Error;

    /// The part at a position; `ErrorRange` past the last part.
    fn try_from(value: u8) -> (r: Result<Self, K2Error>)
        ensures
            match part_at(value as int) {
                Some(p) => r == Ok::<ProcessorCodePart, K2Error>(p),
                None => r matches Err(e) && e.code == K2ErrorCode::ErrorRange && e.message@
                    == "Value {} not valid code part"@,
            },
    {
        match value {
            0 => Ok(ProcessorCodePart::K2Import),
            1 => Ok(ProcessorCodePart::UserImport),
            2 => Ok(ProcessorCodePart::K2ProcessorStruct),
            3 => Ok(ProcessorCodePart::UserStruct),
            4 => Ok(ProcessorCodePart::K2InitCode),
            5 => Ok(ProcessorCodePart::UserInitCode),
            6 => Ok(ProcessorCodePart::K2MemberCreation),
            7 => Ok(ProcessorCodePart::UserMemberCreation),
            8 => Ok(ProcessorCodePart::Initialize),
            9 => Ok(ProcessorCodePart::Process),
            10 => Ok(ProcessorCodePart::Finalize),
            11 => Ok(ProcessorCodePart::UserCode),
            _ => Err(K2Error::new(K2ErrorCode::ErrorRange, "Value {} not valid code part")),
        }
    }
}

impl TryFromSpecImpl<u8> for ProcessorCodePart {
    open spec fn obeys_try_from_spec() -> bool {
        false
    }

    open spec fn try_from_spec(v: u8) -> Result<Self, K2Error> {
        match part_at(v as int) {
            Some(p) => Ok(p),
            None => Err(error_with(K2ErrorCode::ErrorRange, "Value {} not valid code part"@)),
        }
    }
}

impl TryFrom<String> for ProcessorCodePart {
    type Error = K2Error;

    /// The part a name stands for; `InvalidValue` for another text.
    fn try_from(value: String) -> (r: Result<Self, K2Error>)
        ensures
            match part_named(value@) {
                Some(p) => r == Ok::<ProcessorCodePart, K2Error>(p),
                None => r matches Err(e) && e.code == K2ErrorCode::InvalidValue && e.message@
                    == value@ + " not valid"@,
            },
    {
        match ProcessorCodePart::named(value.as_str()) {
            Some(p) => Ok(p),
            None => Err(
                K2Error { code: K2ErrorCode::InvalidValue, message: value.concat(" not valid") },
            ),
        }
    }
}

impl TryFromSpecImpl<String> for ProcessorCodePart {
    open spec fn obeys_try_from_spec() -> bool {
        false
    }

    open spec fn try_from_spec(v: String) -> Result<Self, K2Error> {
        match part_named(v@) {
            Some(p) => Ok(p),
            None => Err(error_with(K2ErrorCode::InvalidValue, v@ + " not valid"@)),
        }
    }
}

/// A part's position gives the part back, and so does its name.
pub proof fn law_code_part_round_trips(p: ProcessorCodePart)
    ensures
        0 <= part_index(p) <= 11,
        part_at(part_index(p)) == Some(p),
        part_named(part_name(p)) == Some(p),
{
    reveal_strlit("k2_import");
    reveal_strlit("user_import");
    reveal_strlit("k2_processor_struct");
    reveal_strlit("user_struct");
    reveal_strlit("k2_init_code");
    reveal_strlit("user_init_code");
    reveal_strlit("k2_member_creation");
    reveal_strlit("user_member_creation");
    reveal_strlit("initialize");
    reveal_strlit("process");
    reveal_strlit("finalize");
    reveal_strlit("user_code");
    match p {
        ProcessorCodePart::K2Import => {
        },
        ProcessorCodePart::UserImport => {
            assert("user_import"@ != "k2_import"@) by { assert("user_import"@.len() == 11); assert("k2_import"@.len() == 9); }
        },
        ProcessorCodePart::K2ProcessorStruct => {
            assert("k2_processor_struct"@ != "k2_import"@) by { assert("k2_processor_struct"@.len() == 19); assert("k2_import"@.len() == 9); }
            assert("k2_processor_struct"@ != "user_import"@) by { assert("k2_processor_struct"@.len() == 19); assert("user_import"@.len() == 11); }
        },
        ProcessorCodePart::UserStruct => {
            assert("user_struct"@ != "k2_import"@) by { assert("user_struct"@.len() == 11); assert("k2_import"@.len() == 9); }
            assert("user_struct"@ != "user_import"@) by { assert("user_struct"@[5] != "user_import"@[5]); }
            assert("user_struct"@ != "k2_processor_struct"@) by { assert("user_struct"@.len() == 11); assert("k2_processor_struct"@.len() == 19); }
        },
        ProcessorCodePart::K2InitCode => {
            assert("k2_init_code"@ != "k2_import"@) by { assert("k2_init_code"@.len() == 12); assert("k2_import"@.len() == 9); }
            assert("k2_init_code"@ != "user_import"@) by { assert("k2_init_code"@.len() == 12); assert("user_import"@.len() == 11); }
            assert("k2_init_code"@ != "k2_processor_struct"@) by { assert("k2_init_code"@.len() == 12); assert("k2_processor_struct"@.len() == 19); }
            assert("k2_init_code"@ != "user_struct"@) by { assert("k2_init_code"@.len() == 12); assert("user_struct"@.len() == 11); }
        },
        ProcessorCodePart::UserInitCode => {
            assert("user_init_code"@ != "k2_import"@) by { assert("user_init_code"@.len() == 14); assert("k2_import"@.len() == 9); }
            assert("user_init_code"@ != "user_import"@) by { assert("user_init_code"@.len() == 14); assert("user_import"@.len() == 11); }
            assert("user_init_code"@ != "k2_processor_struct"@) by { assert("user_init_code"@.len() == 14); assert("k2_processor_struct"@.len() == 19); }
            assert("user_init_code"@ != "user_struct"@) by { assert("user_init_code"@.len() == 14); assert("user_struct"@.len() == 11); }
            assert("user_init_code"@ != "k2_init_code"@) by { assert("user_init_code"@.len() == 14); assert("k2_init_code"@.len() == 12); }
        },
        ProcessorCodePart::K2MemberCreation => {
            assert("k2_member_creation"@ != "k2_import"@) by { assert("k2_member_creation"@.len() == 18); assert("k2_import"@.len() == 9); }
            assert("k2_member_creation"@ != "user_import"@) by { assert("k2_member_creation"@.len() == 18); assert("user_import"@.len() == 11); }
            assert("k2_member_creation"@ != "k2_processor_struct"@) by { assert("k2_member_creation"@.len() == 18); assert("k2_processor_struct"@.len() == 19); }
            assert("k2_member_creation"@ != "user_struct"@) by { assert("k2_member_creation"@.len() == 18); assert("user_struct"@.len() == 11); }
            assert("k2_member_creation"@ != "k2_init_code"@) by { assert("k2_member_creation"@.len() == 18); assert("k2_init_code"@.len() == 12); }
            assert("k2_member_creation"@ != "user_init_code"@) by { assert("k2_member_creation"@.len() == 18); assert("user_init_code"@.len() == 14); }
        },
        ProcessorCodePart::UserMemberCreation => {
            assert("user_member_creation"@ != "k2_import"@) by { assert("user_member_creation"@.len() == 20); assert("k2_import"@.len() == 9); }
            assert("user_member_creation"@ != "user_import"@) by { assert("user_member_creation"@.len() == 20); assert("user_import"@.len() == 11); }
            assert("user_member_creation"@ != "k2_processor_struct"@) by { assert("user_member_creation"@.len() == 20); assert("k2_processor_struct"@.len() == 19); }
            assert("user_member_creation"@ != "user_struct"@) by { assert("user_member_creation"@.len() == 20); assert("user_struct"@.len() == 11); }
            assert("user_member_creation"@ != "k2_init_code"@) by { assert("user_member_creation"@.len() == 20); assert("k2_init_code"@.len() == 12); }
            assert("user_member_creation"@ != "user_init_code"@) by { assert("user_member_creation"@.len() == 20); assert("user_init_code"@.len() == 14); }
            assert("user_member_creation"@ != "k2_member_creation"@) by { assert("user_member_creation"@.len() == 20); assert("k2_member_creation"@.len() == 18); }
        },
        ProcessorCodePart::Initialize => {
            assert("initialize"@ != "k2_import"@) by { assert("initialize"@.len() == 10); assert("k2_import"@.len() == 9); }
            assert("initialize"@ != "user_import"@) by { assert("initialize"@.len() == 10); assert("user_import"@.len() == 11); }
            assert("initialize"@ != "k2_processor_struct"@) by { assert("initialize"@.len() == 10); assert("k2_processor_struct"@.len() == 19); }
            assert("initialize"@ != "user_struct"@) by { assert("initialize"@.len() == 10); assert("user_struct"@.len() == 11); }
            assert("initialize"@ != "k2_init_code"@) by { assert("initialize"@.len() == 10); assert("k2_init_code"@.len() == 12); }
            assert("initialize"@ != "user_init_code"@) by { assert("initialize"@.len() == 10); assert("user_init_code"@.len() == 14); }
            assert("initialize"@ != "k2_member_creation"@) by { assert("initialize"@.len() == 10); assert("k2_member_creation"@.len() == 18); }
            assert("initialize"@ != "user_member_creation"@) by { assert("initialize"@.len() == 10); assert("user_member_creation"@.len() == 20); }
        },
        ProcessorCodePart::Process => {
            assert("process"@ != "k2_import"@) by { assert("process"@.len() == 7); assert("k2_import"@.len() == 9); }
            assert("process"@ != "user_import"@) by { assert("process"@.len() == 7); assert("user_import"@.len() == 11); }
            assert("process"@ != "k2_processor_struct"@) by { assert("process"@.len() == 7); assert("k2_processor_struct"@.len() == 19); }
            assert("process"@ != "user_struct"@) by { assert("process"@.len() == 7); assert("user_struct"@.len() == 11); }
            assert("process"@ != "k2_init_code"@) by { assert("process"@.len() == 7); assert("k2_init_code"@.len() == 12); }
            assert("process"@ != "user_init_code"@) by { assert("process"@.len() == 7); assert("user_init_code"@.len() == 14); }
            assert("process"@ != "k2_member_creation"@) by { assert("process"@.len() == 7); assert("k2_member_creation"@.len() == 18); }
            assert("process"@ != "user_member_creation"@) by { assert("process"@.len() == 7); assert("user_member_creation"@.len() == 20); }
            assert("process"@ != "initialize"@) by { assert("process"@.len() == 7); assert("initialize"@.len() == 10); }
        },
        ProcessorCodePart::Finalize => {
            assert("finalize"@ != "k2_import"@) by { assert("finalize"@.len() == 8); assert("k2_import"@.len() == 9); }
            assert("finalize"@ != "user_import"@) by { assert("finalize"@.len() == 8); assert("user_import"@.len() == 11); }
            assert("finalize"@ != "k2_processor_struct"@) by { assert("finalize"@.len() == 8); assert("k2_processor_struct"@.len() == 19); }
            assert("finalize"@ != "user_struct"@) by { assert("finalize"@.len() == 8); assert("user_struct"@.len() == 11); }
            assert("finalize"@ != "k2_init_code"@) by { assert("finalize"@.len() == 8); assert("k2_init_code"@.len() == 12); }
            assert("finalize"@ != "user_init_code"@) by { assert("finalize"@.len() == 8); assert("user_init_code"@.len() == 14); }
            assert("finalize"@ != "k2_member_creation"@) by { assert("finalize"@.len() == 8); assert("k2_member_creation"@.len() == 18); }
            assert("finalize"@ != "user_member_creation"@) by { assert("finalize"@.len() == 8); assert("user_member_creation"@.len() == 20); }
            assert("finalize"@ != "initialize"@) by { assert("finalize"@.len() == 8); assert("initialize"@.len() == 10); }
            assert("finalize"@ != "process"@) by { assert("finalize"@.len() == 8); assert("process"@.len() == 7); }
        },
        ProcessorCodePart::UserCode => {
            assert("user_code"@ != "k2_import"@) by { assert("user_code"@[0] != "k2_import"@[0]); }
            assert("user_code"@ != "user_import"@) by { assert("user_code"@.len() == 9); assert("user_import"@.len() == 11); }
            assert("user_code"@ != "k2_processor_struct"@) by { assert("user_code"@.len() == 9); assert("k2_processor_struct"@.len() == 19); }
            assert("user_code"@ != "user_struct"@) by { assert("user_code"@.len() == 9); assert("user_struct"@.len() == 11); }
            assert("user_code"@ != "k2_init_code"@) by { assert("user_code"@.len() == 9); assert("k2_init_code"@.len() == 12); }
            assert("user_code"@ != "user_init_code"@) by { assert("user_code"@.len() == 9); assert("user_init_code"@.len() == 14); }
            assert("user_code"@ != "k2_member_creation"@) by { assert("user_code"@.len() == 9); assert("k2_member_creation"@.len() == 18); }
            assert("user_code"@ != "user_member_creation"@) by { assert("user_code"@.len() == 9); assert("user_member_creation"@.len() == 20); }
            assert("user_code"@ != "initialize"@) by { assert("user_code"@.len() == 9); assert("initialize"@.len() == 10); }
            assert("user_code"@ != "process"@) by { assert("user_code"@.len() == 9); assert("process"@.len() == 7); }
            assert("user_code"@ != "finalize"@) by { assert("user_code"@.len() == 9); assert("finalize"@.len() == 8); }
        },
    }
}

/// A member of a processor: an input, an output, a state, a parameter or a
/// command, with the properties its code needs.
pub struct ProcessorChild {
    pub name: String,
    pub k2_type: String,
    pub properties: NameMap<String>,
}

/// The mathematical content of a `ProcessorChild`.
pub struct ChildView {
    pub name: Seq<char>,
    pub k2_type: Seq<char>,
    pub properties: Map<Seq<char>, Seq<char>>,
}

impl View for ProcessorChild {
    type V = ChildView;

    open spec fn view(&self) -> ChildView {
        ChildView { name: self.name@, k2_type: self.k2_type@, properties: str_map(self.properties) }
    }
}

impl ProcessorChild {
    /// A copy of the member.
    pub fn duplicate(&self) -> (r: Self)
        ensures
            r@ == self@,
    {
        let r = ProcessorChild {
            name: self.name.clone(),
            k2_type: self.k2_type.clone(),
            properties: self.properties.duplicate(),
        };
        assert(str_map(r.properties) =~= str_map(self.properties));
        r
    }
}

/// A text property of a table.
fn text_property(m: &NameMap<String>, k: &str) -> (r: Option<String>)
    ensures
        match r {
            Some(v) => str_map(*m).contains_key(k@) && v@ == str_map(*m)[k@],
            None => !str_map(*m).contains_key(k@),
        },
{
    match m.get(k) {
        Some(v) => Some(v.clone()),
        None => None,
    }
}

/// Puts a text property into a table.
fn put_property(m: &mut NameMap<String>, k: String, v: String)
    ensures
        str_map(*final(m)) == str_map(*old(m)).insert(k@, v@),
{
    let ghost kv = k@;
    let ghost vv = v@;
    m.insert(k, v);
    assert(str_map(*m) =~= str_map(*old(m)).insert(kv, vv));
}

/// The member that a `new` command describes, from the type and the
/// properties of the object it carries: the properties the type needs are
/// copied, and a missing one, or a type that has no members, is refused.
pub open spec fn new_child(o: ChildView) -> Result<ChildView, (K2ErrorCode, Seq<char>)> {
    let p = o.properties;
    let t = o.k2_type;
    let empty = Map::<Seq<char>, Seq<char>>::empty();
    let missing = (K2ErrorCode::NotFound, "Type field not found"@);
    if t == "input"@ || t == "output"@ {
        if !p.contains_key("type"@) {
            Err(missing)
        } else {
            Ok(ChildView { properties: empty.insert("type"@, p["type"@]), ..o })
        }
    } else if t == "state"@ {
        if !p.contains_key("type"@) || !p.contains_key("value"@) {
            Err(missing)
        } else {
            Ok(
                ChildView {
                    properties: empty.insert("type"@, p["type"@]).insert("value"@, p["value"@]),
                    ..o
                },
            )
        }
    } else if t == "parameter"@ {
        if !p.contains_key("type"@) || !p.contains_key("value"@) || !p.contains_key("kind"@) {
            Err(missing)
        } else {
            Ok(
                ChildView {
                    properties: empty.insert("type"@, p["type"@]).insert("value"@, p["value"@]).insert(
                        "kind"@,
                        p["kind"@],
                    ),
                    ..o
                },
            )
        }
    } else if t == "command"@ {
        if !p.contains_key("callback"@) {
            Err(missing)
        } else {
            Ok(ChildView { properties: empty.insert("callback"@, p["callback"@]), ..o })
        }
    } else {
        Err((K2ErrorCode::BadFormat, "Type "@ + t + " not exists"@))
    }
}

/// The lines that create one member, or the message of the property it
/// lacks.
pub open spec fn child_lines(c: ChildView) -> Result<Seq<Seq<char>>, Seq<char>> {
    let head = "    self_instance.get_stream_block_mut()"@;
    let p = c.properties;
    let t = c.k2_type;
    if t == "input"@ || t == "output"@ {
        if !p.contains_key("type"@) {
            Err("Type is mandatory for "@ + t)
        } else {
            Ok(seq![head + ".add_"@ + t + "::<"@ + p["type"@] + ">(\""@ + c.name + "\");"@])
        }
    } else if t == "state"@ {
        if !p.contains_key("type"@) {
            Err("Type is mandatory for "@ + t)
        } else if !p.contains_key("value"@) {
            Err("Value is mandatory for "@ + t)
        } else {
            Ok(
                seq![
                    head + ".add_"@ + t + "::<"@ + p["type"@] + ">(\""@ + c.name + "\");"@,
                    head + ".set_state_value::<T>(\""@ + p["value"@] + "\","@ + c.name + ")"@,
                ],
            )
        }
    } else if t == "parameter"@ {
        if !p.contains_key("type"@) {
            Err("Type is mandatory for "@ + t)
        } else if !p.contains_key("kind"@) {
            Err("Static/Dynamic properties is mandatory for "@ + t)
        } else if !p.contains_key("value"@) {
            Err("Value is mandatory for "@ + t)
        } else {
            Ok(
                seq![
                    head + ".add_"@ + t + "::<"@ + p["type"@] + ">(\""@ + c.name + ", ParameterType::"@
                        + p["kind"@] + "\");"@,
                    head + ".set_param_value::<T>(\""@ + p["value"@] + "\","@ + c.name + ")"@,
                ],
            )
        }
    } else if t == "command"@ {
        if !p.contains_key("callback"@) {
            Err("Static/Dynamic properties is mandatory for "@ + t)
        } else {
            Ok(
                seq![
                    head + ".add_"@ + t + "(\""@ + c.name + ", ParameterType::"@ + p["callback"@]
                        + "\");"@,
                ],
            )
        }
    } else {
        Ok(Seq::empty())
    }
}

/// Whether a text occurs in one of the lines.
pub open spec fn occurs_in(x: Seq<char>, lines: Seq<Seq<char>>) -> bool {
    exists|i: int, j: int|
        0 <= i < lines.len() && 0 <= j && j + x.len() <= lines[i].len() && #[trigger] lines[i].subrange(
            j,
            j + x.len(),
        ) == x
}

/// A text occurs in a line made of it with texts before and after.
proof fn lemma_occurs(lines: Seq<Seq<char>>, i: int, a: Seq<char>, x: Seq<char>, b: Seq<char>)
    requires
        0 <= i < lines.len(),
        lines[i] =~= a + x + b,
    ensures
        occurs_in(x, lines),
{
    assert(lines[i].subrange(a.len() as int, (a.len() + x.len()) as int) =~= x);
}

/// The types of the members of a processor.
pub open spec fn member_type(t: Seq<char>) -> bool {
    t == "input"@ || t == "output"@ || t == "parameter"@ || t == "state"@ || t == "command"@
}

/// The properties that a member of a type must have.
pub open spec fn needed_properties(t: Seq<char>) -> Seq<Seq<char>> {
    if t == "input"@ || t == "output"@ {
        seq!["type"@]
    } else if t == "state"@ {
        seq!["type"@, "value"@]
    } else if t == "parameter"@ {
        seq!["type"@, "value"@, "kind"@]
    } else {
        seq!["callback"@]
    }
}

/// The code that creates a member uses all that the member says: a member
/// that has the properties its type needs gets lines, and its name and the
/// value of each of those properties (for a state, its type and its initial
/// value) appear in them.
pub proof fn law_member_lines_use_properties(c: ChildView)
    requires
        member_type(c.k2_type),
        forall|i: int| 0 <= i < needed_properties(c.k2_type).len() ==> c.properties.contains_key(
            #[trigger] needed_properties(c.k2_type)[i],
        ),
    ensures
        child_lines(c) matches Ok(ls) && occurs_in(c.name, ls) && forall|i: int|
            0 <= i < needed_properties(c.k2_type).len() ==> occurs_in(
                c.properties[#[trigger] needed_properties(c.k2_type)[i]],
                ls,
            ),
{
    let t = c.k2_type;
    let p = c.properties;
    let head = "    self_instance.get_stream_block_mut()"@;
    reveal_strlit("input");
    reveal_strlit("output");
    reveal_strlit("parameter");
    reveal_strlit("state");
    reveal_strlit("command");
    let ns = needed_properties(t);
    if t == "input"@ || t == "output"@ {
        assert(p.contains_key(ns[0]));
        let ls = child_lines(c)->Ok_0;
        lemma_occurs(ls, 0, head + ".add_"@ + t + "::<"@, p["type"@], ">(\""@ + c.name + "\");"@);
        lemma_occurs(ls, 0, head + ".add_"@ + t + "::<"@ + p["type"@] + ">(\""@, c.name, "\");"@);
    } else if t == "state"@ {
        assert(t != "input"@ && t != "output"@) by {
            assert(t[0] != "input"@[0] && t[0] != "output"@[0]);
        }
        assert(p.contains_key(ns[0]) && p.contains_key(ns[1]));
        let ls = child_lines(c)->Ok_0;
        lemma_occurs(ls, 0, head + ".add_"@ + t + "::<"@, p["type"@], ">(\""@ + c.name + "\");"@);
        lemma_occurs(ls, 0, head + ".add_"@ + t + "::<"@ + p["type"@] + ">(\""@, c.name, "\");"@);
        lemma_occurs(ls, 1, head + ".set_state_value::<T>(\""@, p["value"@], "\","@ + c.name + ")"@);
    } else if t == "parameter"@ {
        assert(t != "input"@ && t != "output"@ && t != "state"@) by {
            assert(t[0] != "input"@[0] && t[0] != "output"@[0] && t[0] != "state"@[0]);
        }
        assert(p.contains_key(ns[0]) && p.contains_key(ns[1]) && p.contains_key(ns[2]));
        let ls = child_lines(c)->Ok_0;
        lemma_occurs(
            ls,
            0,
            head + ".add_"@ + t + "::<"@,
            p["type"@],
            ">(\""@ + c.name + ", ParameterType::"@ + p["kind"@] + "\");"@,
        );
        lemma_occurs(
            ls,
            0,
            head + ".add_"@ + t + "::<"@ + p["type"@] + ">(\""@,
            c.name,
            ", ParameterType::"@ + p["kind"@] + "\");"@,
        );
        lemma_occurs(
            ls,
            0,
            head + ".add_"@ + t + "::<"@ + p["type"@] + ">(\""@ + c.name + ", ParameterType::"@,
            p["kind"@],
            "\");"@,
        );
        lemma_occurs(ls, 1, head + ".set_param_value::<T>(\""@, p["value"@], "\","@ + c.name + ")"@);
    } else {
        assert(t == "command"@);
        assert(t != "input"@ && t != "output"@ && t != "state"@ && t != "parameter"@) by {
            assert(t[0] != "input"@[0] && t[0] != "output"@[0] && t[0] != "state"@[0] && t[0] != "parameter"@[0]);
        }
        assert(p.contains_key(ns[0]));
        let ls = child_lines(c)->Ok_0;
        lemma_occurs(ls, 0, head + ".add_"@ + t + "(\""@, c.name, ", ParameterType::"@ + p["callback"@] + "\");"@);
        lemma_occurs(ls, 0, head + ".add_"@ + t + "(\""@ + c.name + ", ParameterType::"@, p["callback"@], "\");"@);
    }
}

/// The lines that create the members named, in order; the first member that
/// lacks a property stops it.
pub open spec fn members_lines(names: Seq<Seq<char>>, m: Map<Seq<char>, ChildView>) -> Result<
    Seq<Seq<char>>,
    Seq<char>,
>
    decreases names.len(),
{
    if names.len() == 0 {
        Ok(Seq::empty())
    } else {
        match members_lines(names.drop_last(), m) {
            Err(e) => Err(e),
            Ok(lines) => match child_lines(m[names.last()]) {
                Err(e) => Err(e),
                Ok(more) => Ok(lines + more),
            },
        }
    }
}

/// Once the members named up to a point lack a property, the members named
/// after it change nothing.
proof fn lemma_members_lines_stop(s: Seq<Seq<char>>, k: int, m: Map<Seq<char>, ChildView>)
    requires
        0 <= k <= s.len(),
        members_lines(s.take(k), m) is Err,
    ensures
        members_lines(s, m) == members_lines(s.take(k), m),
    decreases s.len() - k,
{
    if k == s.len() {
        assert(s.take(k) =~= s);
    } else {
        assert(s.take(k + 1).drop_last() =~= s.take(k));
        lemma_members_lines_stop(s, k + 1, m);
    }
}

/// What `str::replace` gives for a text, a pattern and its replacement: the
/// occurrences of the pattern, found from the left without overlap, become
/// the replacement; an empty pattern matches before every character and at
/// the end.
pub open spec fn replaced(s: Seq<char>, from: Seq<char>, to: Seq<char>) -> Seq<char>
    decreases s.len(),
{
    if from.len() == 0 {
        if s.len() == 0 {
            to
        } else {
            to + seq![s[0]] + replaced(s.skip(1), from, to)
        }
    } else if s.len() < from.len() {
        s
    } else if s.take(from.len() as int) == from {
        to + replaced(s.skip(from.len() as int), from, to)
    } else {
        seq![s[0]] + replaced(s.skip(1), from, to)
    }
}

/// Calls `str::replace`: every occurrence of `from` in `s` becomes `to`, as
/// `replaced` states.
#[verifier::external_body]
fn replace_all(s: &str, from: &str, to: &str) -> (r: String)
    ensures
        r@ == replaced(s@, from@, to@),
{
    s.replace(from, to)
}

/// A property of the processor, or a default.
pub open spec fn property_or(p: Map<Seq<char>, Seq<char>>, k: Seq<char>, d: Seq<char>) -> Seq<char> {
    if p.contains_key(k) {
        p[k]
    } else {
        d
    }
}

/// The init code with the processor's name and properties put in place of
/// their placeholders.
pub open spec fn init_code(text: Seq<char>, name: Seq<char>, p: Map<Seq<char>, Seq<char>>) -> Seq<char> {
    let t1 = replaced(text, "@processor"@, name);
    let t2 = replaced(t1, "@description"@, property_or(p, "description"@, ""@));
    let t3 = replaced(t2, "@version"@, property_or(p, "version"@, ""@));
    let t4 = replaced(t3, "@author"@, property_or(p, "author"@, ""@));
    let t5 = replaced(t4, "@email"@, property_or(p, "email"@, ""@));
    let t6 = replaced(t5, "@licence"@, property_or(p, "licence"@, "LGPLv2.0"@));
    replaced(t6, "@repository"@, property_or(p, "repository"@, ""@))
}

/// The line that closes a part, if any: the struct, the init code, the
/// member creation and the finalize code each close a block.
pub open spec fn closing(i: int) -> Option<Seq<char>> {
    if i == 3 {
        Some("}"@)
    } else if i == 5 {
        Some("       }"@)
    } else if i == 7 {
        Some("   }"@)
    } else if i == 10 {
        Some("}"@)
    } else {
        None
    }
}

/// The pieces of the source text for the first `n` parts, each followed by
/// its closing line.
pub open spec fn source_pieces(parts: Seq<Seq<char>>, n: int) -> Seq<Seq<char>>
    decreases n,
{
    if n <= 0 {
        Seq::empty()
    } else {
        let before = source_pieces(parts, n - 1).push(parts[n - 1]);
        match closing(n - 1) {
            Some(c) => before.push(c),
            None => before,
        }
    }
}

/// The command words of the language are distinct.
proof fn lemma_command_words_differ()
    ensures
        "new"@ != "delete"@,
        "new"@ != "set"@,
        "new"@ != "code"@,
        "delete"@ != "set"@,
        "delete"@ != "code"@,
        "set"@ != "code"@,
{
    reveal_strlit("new");
    reveal_strlit("delete");
    reveal_strlit("set");
    reveal_strlit("code");
    assert("new"@[0] != "set"@[0]);
    assert("new"@.len() != "delete"@.len());
    assert("new"@.len() != "code"@.len());
    assert("delete"@.len() != "set"@.len());
    assert("delete"@.len() != "code"@.len());
    assert("set"@.len() != "code"@.len());
}

/// What one command of the language does to a processor's generator: `o`
/// before, `f` after, `r` the answer.
pub open spec fn processor_executed(o: ProcessorCoder, input: K2LangView, f: ProcessorCoder, r: Result<String, K2Error>) -> bool {
    let t0 = input.tokens[0];
    let d = input.data[0];
    let c = ChildView { name: d.name, k2_type: d.object_type, properties: d.properties };
    let same = f == o;
    let ok = r matches Ok(m) && m@ == "Ok"@;
    &&& t0 == "new"@ && d.object_type == "processor"@ ==> ok && same
    &&& t0 == "new"@ && d.object_type != "processor"@ && o.members().contains_key(d.name)
        ==> same && (r matches Err(e) && e.code == K2ErrorCode::AlreadyExists && e.message@
        == "Object "@ + d.name + " already exist"@)
    &&& t0 == "new"@ && d.object_type != "processor"@ && !o.members().contains_key(d.name)
        ==> match new_child(c) {
        Ok(n) => ok && f.members() == o.members().insert(d.name, n) && f.member_names()
            == o.member_names().push(d.name) && f.props() == o.props() && f.parts()
            == o.parts(),
        Err((code, msg)) => same && (r matches Err(e) && e.code == code && e.message@ == msg),
    }
    &&& t0 == "delete"@ ==> ok && f.members() == o.members().remove(d.name) && f.member_names()
        == (if o.members().contains_key(d.name) {
        o.member_names().remove(o.member_position(d.name))
    } else {
        o.member_names()
    }) && f.props() == o.props() && f.parts() == o.parts()
    &&& t0 == "set"@ && d.name == o.label() ==> ok && f.props() == o.props().insert(
        input.tokens[2],
        input.tokens[3],
    ) && f.members() == o.members() && f.member_names() == o.member_names() && f.parts()
        == o.parts()
    &&& t0 == "set"@ && d.name != o.label() && !o.members().contains_key(d.name) ==> same
        && (r matches Err(e) && e.code == K2ErrorCode::NotFound && e.message@ == "Object "@
        + d.name + " does not exist"@)
    &&& t0 == "set"@ && d.name != o.label() && o.members().contains_key(d.name) ==> ok
        && f.members() == o.members().insert(
        d.name,
        ChildView {
            properties: o.members()[d.name].properties.insert(input.tokens[2], input.tokens[3]),
            ..o.members()[d.name]
        },
    ) && f.member_names() == o.member_names() && f.props() == o.props() && f.parts()
        == o.parts()
    &&& t0 == "code"@ ==> match part_named(input.tokens[2]) {
        None => same && (r matches Err(e) && e.code == K2ErrorCode::InvalidValue && e.message@
            == input.tokens[2] + " not valid"@),
        Some(p) => if !writable(p) {
            same && (r matches Err(e) && e.code == K2ErrorCode::NotAllowed && e.message@
                == "Code part "@ + input.tokens[2] + " is read-only"@)
        } else {
            ok && f.code(part_index(p)) == input.tokens[3] && (forall|j: int|
                j != part_index(p) ==> #[trigger] f.code(j) == o.code(j)) && f.members()
                == o.members() && f.member_names() == o.member_names() && f.props()
                == o.props()
        },
    }
    &&& t0 != "new"@ && t0 != "delete"@ && t0 != "set"@ && t0 != "code"@ ==> same && (r matches Err(
        e,
    ) && e.code == K2ErrorCode::InvalidOperation && e.message@
        == "Command not supported for library"@)
}

/// The code generator of one processor of a library.
pub struct ProcessorCoder {
    name: String,
    file_path: String,
    object_map: NameMap<ProcessorChild>,
    code_map: Vec<String>,
    properties: NameMap<String>,
}

/// The members of a table, by name.
pub open spec fn children_view(m: NameMap<ProcessorChild>) -> Map<Seq<char>, ChildView> {
    Map::new(|k: Seq<char>| m.has(k), |k: Seq<char>| m.lookup(k)@)
}

impl ProcessorCoder {
    /// The processor's name.
    pub closed spec fn label(&self) -> Seq<char> {
        self.name@
    }

    /// The path of its source file.
    pub closed spec fn path(&self) -> Seq<char> {
        self.file_path@
    }

    /// Its members, by name.
    pub closed spec fn members(&self) -> Map<Seq<char>, ChildView> {
        children_view(self.object_map)
    }

    /// The names of its members, in the order they were created.
    pub closed spec fn member_names(&self) -> Seq<Seq<char>> {
        self.object_map.keys_seq()
    }

    /// Its own properties.
    pub closed spec fn props(&self) -> Map<Seq<char>, Seq<char>> {
        str_map(self.properties)
    }

    /// The number of parts it holds.
    pub closed spec fn part_count(&self) -> nat {
        self.code_map@.len()
    }

    /// The text of the part at a position.
    pub closed spec fn code(&self, i: int) -> Seq<char> {
        if 0 <= i < self.code_map@.len() {
            self.code_map@[i]@
        } else {
            Seq::empty()
        }
    }

    /// The texts of its parts, in order.
    pub closed spec fn parts(&self) -> Seq<Seq<char>> {
        self.code_map.deep_view()
    }

    /// The position of a member among the names of the members.
    pub closed spec fn member_position(&self, n: Seq<char>) -> int {
        self.object_map.index_of(n)
    }

    /// The generator of the processor `name` of the library at
    /// `library_path`: its source file is named after it in snake case, and
    /// its parts start as the templates, in the order of the parts.
    pub fn new(name: String, library_path: String, templates: &Vec<String>) -> (r: Result<Self, K2Error>)
        requires
            templates@.len() == 12,
        ensures
            r matches Ok(c) && c.label() == name@ && c.path() == library_path@ + "/src/"@
                + snake_case(name@) + ".rs"@ && c.members() == Map::<Seq<char>, ChildView>::empty()
                && c.member_names() == Seq::<Seq<char>>::empty() && c.props() == Map::<
                Seq<char>,
                Seq<char>,
            >::empty() && c.part_count() == 12 && forall|i: int|
                0 <= i < 12 ==> #[trigger] c.code(i) == templates@[i]@,
    {
        let file_name = to_snake_case(&name);
        let path = concat3(library_path.as_str(), "/src/", file_name.as_str()).concat(".rs");
        let r = ProcessorCoder {
            name,
            file_path: path,
            object_map: NameMap::new(),
            code_map: crate::text::clone_strings(templates),
            properties: NameMap::new(),
        };
        assert(children_view(r.object_map) =~= Map::<Seq<char>, ChildView>::empty());
        assert(str_map(r.properties) =~= Map::<Seq<char>, Seq<char>>::empty());
        assert forall|i: int| 0 <= i < 12 implies #[trigger] r.code(i) == templates@[i]@ by {
            assert(r.code_map.deep_view()[i] == r.code_map@[i]@);
            assert(templates.deep_view()[i] == templates@[i]@);
        }
        Ok(r)
    }

    /// A generator with no name, path, members or parts; it stands in for
    /// one that is taken out of a table for a moment.
    pub(crate) fn placeholder() -> (r: Self)
        ensures
            r.label() == Seq::<char>::empty(),
            r.path() == Seq::<char>::empty(),
            r.member_names() == Seq::<Seq<char>>::empty(),
            r.members() == Map::<Seq<char>, ChildView>::empty(),
            r.props() == Map::<Seq<char>, Seq<char>>::empty(),
            r.parts() == Seq::<Seq<char>>::empty(),
    {
        let r = ProcessorCoder {
            name: String::new(),
            file_path: String::new(),
            object_map: NameMap::new(),
            code_map: Vec::new(),
            properties: NameMap::new(),
        };
        assert(children_view(r.object_map) =~= Map::<Seq<char>, ChildView>::empty());
        assert(str_map(r.properties) =~= Map::<Seq<char>, Seq<char>>::empty());
        assert(r.code_map.deep_view() =~= Seq::<Seq<char>>::empty());
        r
    }

    /// The processor's name.
    pub fn get_name(&self) -> (r: &String)
        ensures
            r@ == self.label(),
    {
        &self.name
    }

    /// The path of its source file.
    pub fn get_path(&self) -> (r: &String)
        ensures
            r@ == self.path(),
    {
        &self.file_path
    }

    /// Sets the text of the part at a position.
    fn set_part(&mut self, i: usize, text: String)
        requires
            i < 12,
        ensures
            final(self).code(i as int) == text@,
            forall|j: int| j != i ==> #[trigger] final(self).code(j) == old(self).code(j),
            final(self).part_count() == if old(self).part_count() > i { old(self).part_count() as int } else { i + 1 },
            final(self).label() == old(self).label(),
            final(self).path() == old(self).path(),
            final(self).members() == old(self).members(),
            final(self).member_names() == old(self).member_names(),
            final(self).props() == old(self).props(),
    {
        while self.code_map.len() <= i
            invariant
                i < 12,
                self.name == old(self).name,
                self.file_path == old(self).file_path,
                self.object_map == old(self).object_map,
                self.properties == old(self).properties,
                self.code_map@.len() <= i + 1 || self.code_map@.len() == old(self).code_map@.len(),
                old(self).code_map@.len() > i ==> self.code_map@.len() == old(self).code_map@.len(),
                forall|j: int| #[trigger] self.code(j) == old(self).code(j),
            decreases 12 - self.code_map@.len(),
        {
            let ghost before = *self;
            self.code_map.push(String::new());
            assert forall|j: int| #[trigger] self.code(j) == before.code(j) by {
                if j == before.code_map@.len() {
                    assert(self.code_map@[j]@ == Seq::<char>::empty());
                }
            }
        }
        let ghost before = *self;
        self.code_map.set(i, text);
        assert forall|j: int| j != i implies #[trigger] self.code(j) == before.code(j) by {}
    }

    /// Writes the member-creation part: the lines of each member, in the
    /// order the members were created, one per line. A member without a
    /// property it needs stops it with `NotFound`, and nothing changes.
    pub fn generate_k2_member_creation(&mut self) -> (r: Result<(), K2Error>)
        ensures
            match members_lines(old(self).member_names(), old(self).members()) {
                Ok(lines) => r is Ok && final(self).code(6) == join_with(lines, "\n"@) && (forall|i: int|
                    i != 6 ==> #[trigger] final(self).code(i) == old(self).code(i)) && final(self).part_count()
                    == if old(self).part_count() > 6 { old(self).part_count() as int } else { 7 },
                Err(m) => r matches Err(e) && e.code == K2ErrorCode::NotFound && e.message@ == m
                    && *final(self) == *old(self),
            },
            final(self).label() == old(self).label(),
            final(self).path() == old(self).path(),
            final(self).members() == old(self).members(),
            final(self).member_names() == old(self).member_names(),
            final(self).props() == old(self).props(),
    {
        let names = self.object_map.keys();
        let ghost all = names.deep_view();
        let ghost m = self.members();
        let mut lines: Vec<String> = Vec::new();
        let mut i: usize = 0;
        assert(all.take(0) =~= Seq::<Seq<char>>::empty());
        assert(lines.deep_view() =~= Seq::<Seq<char>>::empty());
        while i < names.len()
            invariant
                i <= names@.len(),
                all == names.deep_view(),
                all == self.object_map.keys_seq(),
                m == self.members(),
                *self == *old(self),
                members_lines(all.take(i as int), m) == Ok::<Seq<Seq<char>>, Seq<char>>(lines.deep_view()),
            decreases names@.len() - i,
        {
            let ghost before = all.take(i as int);
            assert(all.take(i + 1).drop_last() =~= before);
            assert(all.take(i + 1).last() == names@[i as int]@);
            let n = &names[i];
            assert(self.object_map.has(n@));
            let child = match self.object_map.get(n.as_str()) {
                Some(c) => c,
                None => {
                    return Err(K2Error::new(K2ErrorCode::NotFound, ""));
                },
            };
            assert(child@ == m[n@]);
            match Self::child_lines_exec(child) {
                Ok(more) => {
                    let ghost prev = lines.deep_view();
                    let mut more = more;
                    let ghost mv = more.deep_view();
                    lines.append(&mut more);
                    assert(lines.deep_view() =~= prev + mv);
                },
                Err(msg) => {
                    proof {
                        lemma_members_lines_stop(all, i as int + 1, m);
                    }
                    return Err(K2Error { code: K2ErrorCode::NotFound, message: msg });
                },
            }
            i = i + 1;
        }
        assert(all.take(i as int) =~= all);
        let code = join_strings(&lines, "\n");
        self.set_part(6, code);
        Ok(())
    }

    /// The lines that create one member.
    fn child_lines_exec(c: &ProcessorChild) -> (r: Result<Vec<String>, String>)
        ensures
            match child_lines(c@) {
                Ok(l) => r matches Ok(v) && v.deep_view() == l,
                Err(e) => r matches Err(m) && m@ == e,
            },
    {
        let head = "    self_instance.get_stream_block_mut()";
        let t = c.k2_type.as_str();
        let n = c.name.as_str();
        let mut v: Vec<String> = Vec::new();
        if str_eq(t, "input") || str_eq(t, "output") {
            let ty = match text_property(&c.properties, "type") {
                Some(x) => x,
                None => {
                    return Err(String::from_str("Type is mandatory for ").concat(t));
                },
            };
            v.push(String::from_str(head).concat(".add_").concat(t).concat("::<").concat(ty.as_str()).concat(">(\"").concat(n).concat("\");"));
        } else if str_eq(t, "state") {
            let ty = match text_property(&c.properties, "type") {
                Some(x) => x,
                None => {
                    return Err(String::from_str("Type is mandatory for ").concat(t));
                },
            };
            let value = match text_property(&c.properties, "value") {
                Some(x) => x,
                None => {
                    return Err(String::from_str("Value is mandatory for ").concat(t));
                },
            };
            v.push(String::from_str(head).concat(".add_").concat(t).concat("::<").concat(ty.as_str()).concat(">(\"").concat(n).concat("\");"));
            v.push(String::from_str(head).concat(".set_state_value::<T>(\"").concat(value.as_str()).concat("\",").concat(n).concat(")"));
        } else if str_eq(t, "parameter") {
            let ty = match text_property(&c.properties, "type") {
                Some(x) => x,
                None => {
                    return Err(String::from_str("Type is mandatory for ").concat(t));
                },
            };
            let kind = match text_property(&c.properties, "kind") {
                Some(x) => x,
                None => {
                    return Err(String::from_str("Static/Dynamic properties is mandatory for ").concat(t));
                },
            };
            let value = match text_property(&c.properties, "value") {
                Some(x) => x,
                None => {
                    return Err(String::from_str("Value is mandatory for ").concat(t));
                },
            };
            v.push(String::from_str(head).concat(".add_").concat(t).concat("::<").concat(ty.as_str()).concat(">(\"").concat(n).concat(", ParameterType::").concat(kind.as_str()).concat("\");"));
            v.push(String::from_str(head).concat(".set_param_value::<T>(\"").concat(value.as_str()).concat("\",").concat(n).concat(")"));
        } else if str_eq(t, "command") {
            let cb = match text_property(&c.properties, "callback") {
                Some(x) => x,
                None => {
                    return Err(String::from_str("Static/Dynamic properties is mandatory for ").concat(t));
                },
            };
            v.push(String::from_str(head).concat(".add_").concat(t).concat("(\"").concat(n).concat(", ParameterType::").concat(cb.as_str()).concat("\");"));
        }
        proof {
            let l = child_lines(c@);
            if l is Ok {
                assert(v.deep_view() =~= l->Ok_0);
            }
        }
        Ok(v)
    }
    /// Carries out one command of the language on the processor's members,
    /// properties and code: `new` adds a member (a new processor is
    /// accepted as it is), `delete` forgets one, `set` sets a property of the
    /// processor or of a member, and `code` sets a part that users may write.
    pub fn execute(&mut self, input: &K2LangStruct) -> (r: Result<String, K2Error>)
        requires
            input@.tokens.len() >= 1,
            input@.tokens[0] == "new"@ || input@.tokens[0] == "delete"@ || input@.tokens[0] == "set"@
                ==> input@.data.len() >= 1,
            input@.tokens[0] == "set"@ || input@.tokens[0] == "code"@ ==> input@.tokens.len() >= 4,
        ensures
            processor_executed(*old(self), input@, *final(self), r),
            final(self).label() == old(self).label(),
            final(self).path() == old(self).path(),
            old(self).part_count() == 12 ==> final(self).part_count() == 12,
    {
        proof {
            lemma_command_words_differ();
        }
        let t0 = input.tokens[0].as_str();
        assert(input@.tokens[0] == input.tokens@[0]@);
        if str_eq(t0, "code") {
            assert(input@.tokens[2] == input.tokens@[2]@ && input@.tokens[3] == input.tokens@[3]@);
            let part = match ProcessorCodePart::try_from(input.tokens[2].clone()) {
                Ok(p) => p,
                Err(e) => {
                    return Err(e);
                },
            };
            if !part.is_writable() {
                return Err(K2Error { code: K2ErrorCode::NotAllowed, message: concat3("Code part ", input.tokens[2].as_str(), " is read-only") });
            }
            let i = Self::position(part);
            self.set_part(i, input.tokens[3].clone());
            return Ok("Ok".to_owned());
        }
        if !(str_eq(t0, "new") || str_eq(t0, "delete") || str_eq(t0, "set")) {
            return Err(K2Error::new(K2ErrorCode::InvalidOperation, "Command not supported for library"));
        }
        assert(input@.data[0] == input.data@[0]@);
        let d = &input.data[0];
        if str_eq(t0, "new") && str_eq(d.object_type.as_str(), "processor") {
            return Ok("Ok".to_owned());
        }
        if str_eq(t0, "new") {
            if self.object_map.contains_key(d.name.as_str()) {
                return Err(K2Error { code: K2ErrorCode::AlreadyExists, message: concat3("Object ", d.name.as_str(), " already exist") });
            }
            let child = match Self::new_child_exec(d) {
                Ok(c) => c,
                Err(e) => {
                    return Err(e);
                },
            };
            let ghost cv = child@;
            let ghost n = d.name@;
            self.object_map.insert(d.name.clone(), child);
            assert(children_view(self.object_map) =~= children_view(old(self).object_map).insert(n, cv));
        } else if str_eq(t0, "delete") {
            let _ = self.object_map.remove(d.name.as_str());
            assert(children_view(self.object_map) =~= children_view(old(self).object_map).remove(d.name@));
        } else if str_eq(t0, "set") {
            assert(input@.tokens[2] == input.tokens@[2]@ && input@.tokens[3] == input.tokens@[3]@);
            if str_eq(d.name.as_str(), self.name.as_str()) {
                put_property(&mut self.properties, input.tokens[2].clone(), input.tokens[3].clone());
            } else {
                let mut child = match self.object_map.get(d.name.as_str()) {
                    Some(c) => c.duplicate(),
                    None => {
                        return Err(K2Error { code: K2ErrorCode::NotFound, message: concat3("Object ", d.name.as_str(), " does not exist") });
                    },
                };
                put_property(&mut child.properties, input.tokens[2].clone(), input.tokens[3].clone());
                let ghost cv = child@;
                self.object_map.insert(d.name.clone(), child);
                assert(children_view(self.object_map) =~= children_view(old(self).object_map).insert(d.name@, cv));
            }
        }
        Ok("Ok".to_owned())
    }

    /// The position of a part.
    fn position(p: ProcessorCodePart) -> (r: usize)
        ensures
            r == part_index(p),
    {
        match p {
            ProcessorCodePart::K2Import => 0,
            ProcessorCodePart::UserImport => 1,
            ProcessorCodePart::K2ProcessorStruct => 2,
            ProcessorCodePart::UserStruct => 3,
            ProcessorCodePart::K2InitCode => 4,
            ProcessorCodePart::UserInitCode => 5,
            ProcessorCodePart::K2MemberCreation => 6,
            ProcessorCodePart::UserMemberCreation => 7,
            ProcessorCodePart::Initialize => 8,
            ProcessorCodePart::Process => 9,
            ProcessorCodePart::Finalize => 10,
            ProcessorCodePart::UserCode => 11,
        }
    }

    /// The member that a `new` command describes.
    fn new_child_exec(d: &K2Object) -> (r: Result<ProcessorChild, K2Error>)
        ensures
            match new_child(ChildView { name: d@.name, k2_type: d@.object_type, properties: d@.properties }) {
                Ok(c) => r matches Ok(x) && x@ == c,
                Err((code, msg)) => r matches Err(e) && e.code == code && e.message@ == msg,
            },
    {
        let t = d.object_type.as_str();
        let mut props: NameMap<String> = NameMap::new();
        assert(str_map(props) =~= Map::<Seq<char>, Seq<char>>::empty());
        let missing = "Type field not found";
        if str_eq(t, "input") || str_eq(t, "output") {
            match text_property(&d.properties, "type") {
                Some(v) => put_property(&mut props, "type".to_owned(), v),
                None => {
                    return Err(K2Error::new(K2ErrorCode::NotFound, missing));
                },
            }
        } else if str_eq(t, "state") {
            let ty = match text_property(&d.properties, "type") {
                Some(v) => v,
                None => {
                    return Err(K2Error::new(K2ErrorCode::NotFound, missing));
                },
            };
            let value = match text_property(&d.properties, "value") {
                Some(v) => v,
                None => {
                    return Err(K2Error::new(K2ErrorCode::NotFound, missing));
                },
            };
            put_property(&mut props, "type".to_owned(), ty);
            put_property(&mut props, "value".to_owned(), value);
        } else if str_eq(t, "parameter") {
            let ty = match text_property(&d.properties, "type") {
                Some(v) => v,
                None => {
                    return Err(K2Error::new(K2ErrorCode::NotFound, missing));
                },
            };
            let value = match text_property(&d.properties, "value") {
                Some(v) => v,
                None => {
                    return Err(K2Error::new(K2ErrorCode::NotFound, missing));
                },
            };
            let kind = match text_property(&d.properties, "kind") {
                Some(v) => v,
                None => {
                    return Err(K2Error::new(K2ErrorCode::NotFound, missing));
                },
            };
            put_property(&mut props, "type".to_owned(), ty);
            put_property(&mut props, "value".to_owned(), value);
            put_property(&mut props, "kind".to_owned(), kind);
        } else if str_eq(t, "command") {
            match text_property(&d.properties, "callback") {
                Some(v) => put_property(&mut props, "callback".to_owned(), v),
                None => {
                    return Err(K2Error::new(K2ErrorCode::NotFound, missing));
                },
            }
        } else {
            return Err(K2Error { code: K2ErrorCode::BadFormat, message: concat3("Type ", t, " not exists") });
        }
        Ok(ProcessorChild { name: d.name.clone(), k2_type: d.object_type.clone(), properties: props })
    }

    /// The source text of the processor: the member-creation part is written
    /// first (its errors stop it), then the parts follow one another, each on
    /// its own lines, with the name and the properties of the processor put
    /// into the init code and a closing line after the struct, the init
    /// code, the member creation and the finalize code.
    pub fn generate(&mut self) -> (r: Result<String, K2Error>)
        requires
            old(self).part_count() == 12,
        ensures
            match members_lines(old(self).member_names(), old(self).members()) {
                Ok(lines) => final(self).code(6) == join_with(lines, "\n"@) && (forall|i: int|
                    i != 6 ==> #[trigger] final(self).code(i) == old(self).code(i)) && final(self).part_count() == 12
                    && (r matches Ok(text) && text@ == join_with(
                    source_pieces(
                        final(self).parts().update(
                            4,
                            init_code(final(self).parts()[4], final(self).label(), final(self).props()),
                        ),
                        12,
                    ),
                    "\n"@,
                )),
                Err(m) => r matches Err(e) && e.code == K2ErrorCode::NotFound && e.message@ == m
                    && *final(self) == *old(self),
            },
            final(self).label() == old(self).label(),
            final(self).path() == old(self).path(),
            final(self).members() == old(self).members(),
            final(self).member_names() == old(self).member_names(),
            final(self).props() == old(self).props(),
    {
        match self.generate_k2_member_creation() {
            Ok(()) => {},
            Err(e) => {
                return Err(e);
            },
        }
        let ghost parts = self.parts().update(4, init_code(self.parts()[4], self.label(), self.props()));
        let mut pieces: Vec<String> = Vec::new();
        let mut i: usize = 0;
        assert(pieces.deep_view() =~= source_pieces(parts, 0));
        while i < 12
            invariant
                i <= 12,
                self.code_map@.len() == 12,
                parts == self.parts().update(4, init_code(self.parts()[4], self.label(), self.props())),
                pieces.deep_view() == source_pieces(parts, i as int),
            decreases 12 - i,
        {
            let text = if i == 4 {
                self.init_code_exec()
            } else {
                self.code_map[i].clone()
            };
            assert(self.parts()[i as int] == self.code_map@[i as int]@);
            assert(text@ == parts[i as int]);
            let ghost before = pieces.deep_view();
            pieces.push(text);
            if i == 3 || i == 10 {
                pieces.push("}".to_owned());
            } else if i == 5 {
                pieces.push("       }".to_owned());
            } else if i == 7 {
                pieces.push("   }".to_owned());
            }
            assert(pieces.deep_view() =~= source_pieces(parts, i + 1));
            i = i + 1;
        }
        Ok(join_strings(&pieces, "\n"))
    }

    /// The init code with the name and properties in place.
    fn init_code_exec(&self) -> (r: String)
        requires
            self.code_map@.len() > 4,
        ensures
            r@ == init_code(self.parts()[4], self.label(), self.props()),
    {
        assert(self.parts()[4] == self.code_map@[4]@);
        let t1 = replace_all(self.code_map[4].as_str(), "@processor", self.name.as_str());
        let t2 = replace_all(t1.as_str(), "@description", self.property_or_exec("description", "").as_str());
        let t3 = replace_all(t2.as_str(), "@version", self.property_or_exec("version", "").as_str());
        let t4 = replace_all(t3.as_str(), "@author", self.property_or_exec("author", "").as_str());
        let t5 = replace_all(t4.as_str(), "@email", self.property_or_exec("email", "").as_str());
        let t6 = replace_all(t5.as_str(), "@licence", self.property_or_exec("licence", "LGPLv2.0").as_str());
        replace_all(t6.as_str(), "@repository", self.property_or_exec("repository", "").as_str())
    }

    /// A property of the processor, or a default.
    fn property_or_exec(&self, k: &str, d: &str) -> (r: String)
        ensures
            r@ == property_or(self.props(), k@, d@),
    {
        match text_property(&self.properties, k) {
            Some(v) => v,
            None => d.to_owned(),
        }
    }

    /// Building the library is left to its build tool; this step always
    /// succeeds.
    pub fn build(&self) -> (r: Result<String, K2Error>)
        ensures
            r matches Ok(m) && m@ == "Ok"@,
    {
        Ok("Ok".to_owned())
    }

}

} // verus!
