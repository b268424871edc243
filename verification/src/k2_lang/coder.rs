//! The parts of a processor's source text that the code generator keeps, and
//! the objects it generates code for.
use vstd::prelude::*;
use vstd::std_specs::convert::TryFromSpecImpl;
use crate::name_map::NameMap;
use crate::text::{str_eq, split_on, split_char, concat3, join_dot};
use crate::k2_lang::objects::{K2Object, K2ReturnStruct, K2ReturnView, K2ObjectView, str_map, objects_view};
use crate::k2_stream::processors::ProcessorHeader;
use crate::numbers::{u32_text, nat_text};
use crate::k2_stream::errors::{K2Error, K2ErrorCode, error_with};

verus! {

/// A part of a processor's source text.
#[derive(Debug, Clone, Copy, PartialEq, Eq, Hash, Structural)]
pub enum ProcessorCodePart {
    K2Import,
    UserImport,
    UserStruct,
    K2InitCode,
    UserInitCode,
    K2MemberCreation,
    UserMemberCreation,
    InitializeCode,
    ProcessCode,
    FinalizeCode,
    UserCode,
}

/// The name under which a part is written.
pub open spec fn code_part_name(p: ProcessorCodePart) -> Seq<char> {
    match p {
        ProcessorCodePart::K2Import => "k2_import"@,
        ProcessorCodePart::UserImport => "user_import"@,
        ProcessorCodePart::UserStruct => "user_struct"@,
        ProcessorCodePart::K2InitCode => "k2_init_code"@,
        ProcessorCodePart::UserInitCode => "user_init_code"@,
        ProcessorCodePart::K2MemberCreation => "k2_member_creation"@,
        ProcessorCodePart::UserMemberCreation => "user_member_creation"@,
        ProcessorCodePart::InitializeCode => "initialize_code"@,
        ProcessorCodePart::ProcessCode => "process_code"@,
        ProcessorCodePart::FinalizeCode => "finalize_code"@,
        ProcessorCodePart::UserCode => "user_code"@,
    }
}

/// The part that a name stands for.
pub open spec fn code_part_of_name(s: Seq<char>) -> Option<ProcessorCodePart> {
    if s == "k2_import"@ {
        Some(ProcessorCodePart::K2Import)
    } else if s == "user_import"@ {
        Some(ProcessorCodePart::UserImport)
    } else if s == "user_struct"@ {
        Some(ProcessorCodePart::UserStruct)
    } else if s == "k2_init_code"@ {
        Some(ProcessorCodePart::K2InitCode)
    } else if s == "user_init_code"@ {
        Some(ProcessorCodePart::UserInitCode)
    } else if s == "k2_member_creation"@ {
        Some(ProcessorCodePart::K2MemberCreation)
    } else if s == "user_member_creation"@ {
        Some(ProcessorCodePart::UserMemberCreation)
    } else if s == "initialize_code"@ {
        Some(ProcessorCodePart::InitializeCode)
    } else if s == "process_code"@ {
        Some(ProcessorCodePart::ProcessCode)
    } else if s == "finalize_code"@ {
        Some(ProcessorCodePart::FinalizeCode)
    } else if s == "user_code"@ {
        Some(ProcessorCodePart::UserCode)
    } else {
        None
    }
}

/// The part that a number stands for, when a user may write it: parts 0, 3
/// and 5 belong to the framework.
pub open spec fn writable_part_of_number(v: u8) -> Result<ProcessorCodePart, K2ErrorCode> {
    if v == 0 || v == 3 || v == 5 {
        Err(K2ErrorCode::NotAllowed)
    } else if v == 1 {
        Ok(ProcessorCodePart::UserImport)
    } else if v == 2 {
        Ok(ProcessorCodePart::UserStruct)
    } else if v == 4 {
        Ok(ProcessorCodePart::UserInitCode)
    } else if v == 6 {
        Ok(ProcessorCodePart::UserMemberCreation)
    } else if v == 7 {
        Ok(ProcessorCodePart::InitializeCode)
    } else if v == 8 {
        Ok(ProcessorCodePart::ProcessCode)
    } else if v == 9 {
        Ok(ProcessorCodePart::FinalizeCode)
    } else if v == 10 {
        Ok(ProcessorCodePart::UserCode)
    } else {
        Err(K2ErrorCode::InvalidValue)
    }
}

impl ProcessorCodePart {
    /// The name under which the part is written.
    pub fn to_string(&self) -> (r: String)
        ensures
            r@ == code_part_name(*self),
    {
        let s = match self {
            ProcessorCodePart::K2Import => "k2_import",
            ProcessorCodePart::UserImport => "user_import",
            ProcessorCodePart::UserStruct => "user_struct",
            ProcessorCodePart::K2InitCode => "k2_init_code",
            ProcessorCodePart::UserInitCode => "user_init_code",
            ProcessorCodePart::K2MemberCreation => "k2_member_creation",
            ProcessorCodePart::UserMemberCreation => "user_member_creation",
            ProcessorCodePart::InitializeCode => "initialize_code",
            ProcessorCodePart::ProcessCode => "process_code",
            ProcessorCodePart::FinalizeCode => "finalize_code",
            ProcessorCodePart::UserCode => "user_code",
        };
        s.to_owned()
    }

    /// The part that a name stands for.
    pub fn from_name(value: &str) -> (r: Option<Self>)
        ensures
            r == code_part_of_name(value@),
    {
        if str_eq(value, "k2_import") {
            Some(ProcessorCodePart::K2Import)
        } else if str_eq(value, "user_import") {
            Some(ProcessorCodePart::UserImport)
        } else if str_eq(value, "user_struct") {
            Some(ProcessorCodePart::UserStruct)
        } else if str_eq(value, "k2_init_code") {
            Some(ProcessorCodePart::K2InitCode)
        } else if str_eq(value, "user_init_code") {
            Some(ProcessorCodePart::UserInitCode)
        } else if str_eq(value, "k2_member_creation") {
            Some(ProcessorCodePart::K2MemberCreation)
        } else if str_eq(value, "user_member_creation") {
            Some(ProcessorCodePart::UserMemberCreation)
        } else if str_eq(value, "initialize_code") {
            Some(ProcessorCodePart::InitializeCode)
        } else if str_eq(value, "process_code") {
            Some(ProcessorCodePart::ProcessCode)
        } else if str_eq(value, "finalize_code") {
            Some(ProcessorCodePart::FinalizeCode)
        } else if str_eq(value, "user_code") {
            Some(ProcessorCodePart::UserCode)
        } else {
            None
        }
    }
}

impl TryFrom<u8> for ProcessorCodePart {
    type Error = K2Error;

    /// The part a user may write that a number stands for: `NotAllowed` for
    /// the framework's parts, `InvalidValue` past the last part.
    fn try_from(value: u8) -> (r: Result<Self, K2Error>)
        ensures
            match writable_part_of_number(value) {
                Ok(p) => r == Ok::<ProcessorCodePart, K2Error>(p),
                Err(c) => r matches Err(e) && e.code == c && e.message@ == (if c
                    == K2ErrorCode::NotAllowed {
                    "Read-only code part value: "@
                } else {
                    "Unknown code part value: "@
                }) + nat_text(value as nat),
            },
    {
        if value == 0 || value == 3 || value == 5 {
            return Err(
                K2Error {
                    code: K2ErrorCode::NotAllowed,
                    message: String::from_str("Read-only code part value: ").concat(
                        u32_text(value as u32).as_str(),
                    ),
                },
            );
        }
        if value == 1 {
            Ok(ProcessorCodePart::UserImport)
        } else if value == 2 {
            Ok(ProcessorCodePart::UserStruct)
        } else if value == 4 {
            Ok(ProcessorCodePart::UserInitCode)
        } else if value == 6 {
            Ok(ProcessorCodePart::UserMemberCreation)
        } else if value == 7 {
            Ok(ProcessorCodePart::InitializeCode)
        } else if value == 8 {
            Ok(ProcessorCodePart::ProcessCode)
        } else if value == 9 {
            Ok(ProcessorCodePart::FinalizeCode)
        } else if value == 10 {
            Ok(ProcessorCodePart::UserCode)
        } else {
            Err(
                K2Error {
                    code: K2ErrorCode::InvalidValue,
                    message: String::from_str("Unknown code part value: ").concat(
                        u32_text(value as u32).as_str(),
                    ),
                },
            )
        }
    }
}

impl TryFromSpecImpl<u8> for ProcessorCodePart {
    open spec fn obeys_try_from_spec() -> bool {
        false
    }

    open spec fn try_from_spec(v: u8) -> Result<Self, K2Error> {
        match writable_part_of_number(v) {
            Ok(p) => Ok(p),
            Err(c) => Err(error_with(c, (if c == K2ErrorCode::NotAllowed {
                "Read-only code part value: "@
            } else {
                "Unknown code part value: "@
            }) + nat_text(v as nat))),
        }
    }
}

impl TryFrom<String> for ProcessorCodePart {
    type Error = K2Error;

    /// The part that a name stands for, `InvalidValue` for any other text.
    fn try_from(value: String) -> (r: Result<Self, K2Error>)
        ensures
            match code_part_of_name(value@) {
                Some(p) => r == Ok::<ProcessorCodePart, K2Error>(p),
                None => r matches Err(e) && e.code == K2ErrorCode::InvalidValue && e.message@
                    == "Unknown code part: "@ + value@,
            },
    {
        match ProcessorCodePart::from_name(value.as_str()) {
            Some(p) => Ok(p),
            None => Err(
                K2Error {
                    code: K2ErrorCode::InvalidValue,
                    message: String::from_str("Unknown code part: ").concat(value.as_str()),
                },
            ),
        }
    }
}

impl TryFromSpecImpl<String> for ProcessorCodePart {
    open spec fn obeys_try_from_spec() -> bool {
        false
    }

    open spec fn try_from_spec(v: String) -> Result<Self, K2Error> {
        match code_part_of_name(v@) {
            Some(p) => Ok(p),
            None => Err(error_with(K2ErrorCode::InvalidValue, "Unknown code part: "@ + v@)),
        }
    }
}

/// A part's name gives the part back.
pub proof fn law_code_part_name_round_trip(p: ProcessorCodePart)
    ensures
        code_part_of_name(code_part_name(p)) == Some(p),
{
    reveal_strlit("k2_import");
    reveal_strlit("user_import");
    reveal_strlit("user_struct");
    reveal_strlit("k2_init_code");
    reveal_strlit("user_init_code");
    reveal_strlit("k2_member_creation");
    reveal_strlit("user_member_creation");
    reveal_strlit("initialize_code");
    reveal_strlit("process_code");
    reveal_strlit("finalize_code");
    reveal_strlit("user_code");
    match p {
        ProcessorCodePart::K2Import => {
        },
        ProcessorCodePart::UserImport => {
            assert("user_import"@ != "k2_import"@) by { assert("user_import"@.len() == 11); assert("k2_import"@.len() == 9); }
        },
        ProcessorCodePart::UserStruct => {
            assert("user_struct"@ != "k2_import"@) by { assert("user_struct"@.len() == 11); assert("k2_import"@.len() == 9); }
            assert("user_struct"@ != "user_import"@) by { assert("user_struct"@[5] != "user_import"@[5]); }
        },
        ProcessorCodePart::K2InitCode => {
            assert("k2_init_code"@ != "k2_import"@) by { assert("k2_init_code"@.len() == 12); assert("k2_import"@.len() == 9); }
            assert("k2_init_code"@ != "user_import"@) by { assert("k2_init_code"@.len() == 12); assert("user_import"@.len() == 11); }
            assert("k2_init_code"@ != "user_struct"@) by { assert("k2_init_code"@.len() == 12); assert("user_struct"@.len() == 11); }
        },
        ProcessorCodePart::UserInitCode => {
            assert("user_init_code"@ != "k2_import"@) by { assert("user_init_code"@.len() == 14); assert("k2_import"@.len() == 9); }
            assert("user_init_code"@ != "user_import"@) by { assert("user_init_code"@.len() == 14); assert("user_import"@.len() == 11); }
            assert("user_init_code"@ != "user_struct"@) by { assert("user_init_code"@.len() == 14); assert("user_struct"@.len() == 11); }
            assert("user_init_code"@ != "k2_init_code"@) by { assert("user_init_code"@.len() == 14); assert("k2_init_code"@.len() == 12); }
        },
        ProcessorCodePart::K2MemberCreation => {
            assert("k2_member_creation"@ != "k2_import"@) by { assert("k2_member_creation"@.len() == 18); assert("k2_import"@.len() == 9); }
            assert("k2_member_creation"@ != "user_import"@) by { assert("k2_member_creation"@.len() == 18); assert("user_import"@.len() == 11); }
            assert("k2_member_creation"@ != "user_struct"@) by { assert("k2_member_creation"@.len() == 18); assert("user_struct"@.len() == 11); }
            assert("k2_member_creation"@ != "k2_init_code"@) by { assert("k2_member_creation"@.len() == 18); assert("k2_init_code"@.len() == 12); }
            assert("k2_member_creation"@ != "user_init_code"@) by { assert("k2_member_creation"@.len() == 18); assert("user_init_code"@.len() == 14); }
        },
        ProcessorCodePart::UserMemberCreation => {
            assert("user_member_creation"@ != "k2_import"@) by { assert("user_member_creation"@.len() == 20); assert("k2_import"@.len() == 9); }
            assert("user_member_creation"@ != "user_import"@) by { assert("user_member_creation"@.len() == 20); assert("user_import"@.len() == 11); }
            assert("user_member_creation"@ != "user_struct"@) by { assert("user_member_creation"@.len() == 20); assert("user_struct"@.len() == 11); }
            assert("user_member_creation"@ != "k2_init_code"@) by { assert("user_member_creation"@.len() == 20); assert("k2_init_code"@.len() == 12); }
            assert("user_member_creation"@ != "user_init_code"@) by { assert("user_member_creation"@.len() == 20); assert("user_init_code"@.len() == 14); }
            assert("user_member_creation"@ != "k2_member_creation"@) by { assert("user_member_creation"@.len() == 20); assert("k2_member_creation"@.len() == 18); }
        },
        ProcessorCodePart::InitializeCode => {
            assert("initialize_code"@ != "k2_import"@) by { assert("initialize_code"@.len() == 15); assert("k2_import"@.len() == 9); }
            assert("initialize_code"@ != "user_import"@) by { assert("initialize_code"@.len() == 15); assert("user_import"@.len() == 11); }
            assert("initialize_code"@ != "user_struct"@) by { assert("initialize_code"@.len() == 15); assert("user_struct"@.len() == 11); }
            assert("initialize_code"@ != "k2_init_code"@) by { assert("initialize_code"@.len() == 15); assert("k2_init_code"@.len() == 12); }
            assert("initialize_code"@ != "user_init_code"@) by { assert("initialize_code"@.len() == 15); assert("user_init_code"@.len() == 14); }
            assert("initialize_code"@ != "k2_member_creation"@) by { assert("initialize_code"@.len() == 15); assert("k2_member_creation"@.len() == 18); }
            assert("initialize_code"@ != "user_member_creation"@) by { assert("initialize_code"@.len() == 15); assert("user_member_creation"@.len() == 20); }
        },
        ProcessorCodePart::ProcessCode => {
            assert("process_code"@ != "k2_import"@) by { assert("process_code"@.len() == 12); assert("k2_import"@.len() == 9); }
            assert("process_code"@ != "user_import"@) by { assert("process_code"@.len() == 12); assert("user_import"@.len() == 11); }
            assert("process_code"@ != "user_struct"@) by { assert("process_code"@.len() == 12); assert("user_struct"@.len() == 11); }
            assert("process_code"@ != "k2_init_code"@) by { assert("process_code"@[0] != "k2_init_code"@[0]); }
            assert("process_code"@ != "user_init_code"@) by { assert("process_code"@.len() == 12); assert("user_init_code"@.len() == 14); }
            assert("process_code"@ != "k2_member_creation"@) by { assert("process_code"@.len() == 12); assert("k2_member_creation"@.len() == 18); }
            assert("process_code"@ != "user_member_creation"@) by { assert("process_code"@.len() == 12); assert("user_member_creation"@.len() == 20); }
            assert("process_code"@ != "initialize_code"@) by { assert("process_code"@.len() == 12); assert("initialize_code"@.len() == 15); }
        },
        ProcessorCodePart::FinalizeCode => {
            assert("finalize_code"@ != "k2_import"@) by { assert("finalize_code"@.len() == 13); assert("k2_import"@.len() == 9); }
            assert("finalize_code"@ != "user_import"@) by { assert("finalize_code"@.len() == 13); assert("user_import"@.len() == 11); }
            assert("finalize_code"@ != "user_struct"@) by { assert("finalize_code"@.len() == 13); assert("user_struct"@.len() == 11); }
            assert("finalize_code"@ != "k2_init_code"@) by { assert("finalize_code"@.len() == 13); assert("k2_init_code"@.len() == 12); }
            assert("finalize_code"@ != "user_init_code"@) by { assert("finalize_code"@.len() == 13); assert("user_init_code"@.len() == 14); }
            assert("finalize_code"@ != "k2_member_creation"@) by { assert("finalize_code"@.len() == 13); assert("k2_member_creation"@.len() == 18); }
            assert("finalize_code"@ != "user_member_creation"@) by { assert("finalize_code"@.len() == 13); assert("user_member_creation"@.len() == 20); }
            assert("finalize_code"@ != "initialize_code"@) by { assert("finalize_code"@.len() == 13); assert("initialize_code"@.len() == 15); }
            assert("finalize_code"@ != "process_code"@) by { assert("finalize_code"@.len() == 13); assert("process_code"@.len() == 12); }
        },
        ProcessorCodePart::UserCode => {
            assert("user_code"@ != "k2_import"@) by { assert("user_code"@[0] != "k2_import"@[0]); }
            assert("user_code"@ != "user_import"@) by { assert("user_code"@.len() == 9); assert("user_import"@.len() == 11); }
            assert("user_code"@ != "user_struct"@) by { assert("user_code"@.len() == 9); assert("user_struct"@.len() == 11); }
            assert("user_code"@ != "k2_init_code"@) by { assert("user_code"@.len() == 9); assert("k2_init_code"@.len() == 12); }
            assert("user_code"@ != "user_init_code"@) by { assert("user_code"@.len() == 9); assert("user_init_code"@.len() == 14); }
            assert("user_code"@ != "k2_member_creation"@) by { assert("user_code"@.len() == 9); assert("k2_member_creation"@.len() == 18); }
            assert("user_code"@ != "user_member_creation"@) by { assert("user_code"@.len() == 9); assert("user_member_creation"@.len() == 20); }
            assert("user_code"@ != "initialize_code"@) by { assert("user_code"@.len() == 9); assert("initialize_code"@.len() == 15); }
            assert("user_code"@ != "process_code"@) by { assert("user_code"@.len() == 9); assert("process_code"@.len() == 12); }
            assert("user_code"@ != "finalize_code"@) by { assert("user_code"@.len() == 9); assert("finalize_code"@.len() == 13); }
        },
    }
}

/// The object that the code generator keeps for a library, a processor or a
/// member of a processor.
pub struct CoderObject {
    pub name: String,
    pub kind_name: String,
    pub code_parts: Vec<(ProcessorCodePart, String)>,
    pub children: Vec<String>,
    pub parameters: NameMap<String>,
}

/// The mathematical content of a `CoderObject`.
pub struct CoderObjectView {
    pub name: Seq<char>,
    pub kind_name: Seq<char>,
    pub code_parts: Seq<(ProcessorCodePart, Seq<char>)>,
    pub children: Seq<Seq<char>>,
    pub parameters: Map<Seq<char>, Seq<char>>,
}

/// The parts of a list of code parts, with their texts.
pub open spec fn parts_view(v: Seq<(ProcessorCodePart, String)>) -> Seq<(ProcessorCodePart, Seq<char>)> {
    v.map_values(|e: (ProcessorCodePart, String)| (e.0, e.1@))
}

impl View for CoderObject {
    type V = CoderObjectView;

    open spec fn view(&self) -> CoderObjectView {
        CoderObjectView {
            name: self.name@,
            kind_name: self.kind_name@,
            code_parts: parts_view(self.code_parts@),
            children: self.children.deep_view(),
            parameters: str_map(self.parameters),
        }
    }
}

/// The part at a position, in the order of the parts.
pub open spec fn part_in_order(i: int) -> ProcessorCodePart {
    if i == 0 {
        ProcessorCodePart::K2Import
    } else if i == 1 {
        ProcessorCodePart::UserImport
    } else if i == 2 {
        ProcessorCodePart::UserStruct
    } else if i == 3 {
        ProcessorCodePart::K2InitCode
    } else if i == 4 {
        ProcessorCodePart::UserInitCode
    } else if i == 5 {
        ProcessorCodePart::K2MemberCreation
    } else if i == 6 {
        ProcessorCodePart::UserMemberCreation
    } else if i == 7 {
        ProcessorCodePart::InitializeCode
    } else if i == 8 {
        ProcessorCodePart::ProcessCode
    } else if i == 9 {
        ProcessorCodePart::FinalizeCode
    } else {
        ProcessorCodePart::UserCode
    }
}

/// Every part of a processor with its template, in the order of the parts.
pub open spec fn processor_parts(templates: Seq<Seq<char>>) -> Seq<(ProcessorCodePart, Seq<char>)> {
    Seq::new(11, |i: int| (part_in_order(i), templates[i]))
}

impl CoderObject {
    /// The part at a position.
    fn part_at_position(i: usize) -> (r: ProcessorCodePart)
        ensures
            r == part_in_order(i as int),
    {
        if i == 0 {
            ProcessorCodePart::K2Import
        } else if i == 1 {
            ProcessorCodePart::UserImport
        } else if i == 2 {
            ProcessorCodePart::UserStruct
        } else if i == 3 {
            ProcessorCodePart::K2InitCode
        } else if i == 4 {
            ProcessorCodePart::UserInitCode
        } else if i == 5 {
            ProcessorCodePart::K2MemberCreation
        } else if i == 6 {
            ProcessorCodePart::UserMemberCreation
        } else if i == 7 {
            ProcessorCodePart::InitializeCode
        } else if i == 8 {
            ProcessorCodePart::ProcessCode
        } else if i == 9 {
            ProcessorCodePart::FinalizeCode
        } else {
            ProcessorCodePart::UserCode
        }
    }

    /// Gives a new processor object every part, with its template.
    fn init_processor_code(&mut self, templates: &Vec<String>)
        requires
            old(self).code_parts@.len() == 0,
            templates@.len() == 11,
        ensures
            final(self)@ == (CoderObjectView { code_parts: processor_parts(templates.deep_view()), ..old(self)@ }),
    {
        let mut i: usize = 0;
        while i < 11
            invariant
                i <= 11,
                templates@.len() == 11,
                self.name == old(self).name,
                self.kind_name == old(self).kind_name,
                self.children == old(self).children,
                self.parameters == old(self).parameters,
                parts_view(self.code_parts@) == processor_parts(templates.deep_view()).take(i as int),
            decreases 11 - i,
        {
            let ghost before = parts_view(self.code_parts@);
            let part = Self::part_at_position(i);
            self.code_parts.push((part, templates[i].clone()));
            assert(templates.deep_view()[i as int] == templates@[i as int]@);
            assert(parts_view(self.code_parts@) =~= before.push((part, templates@[i as int]@)));
            assert(processor_parts(templates.deep_view()).take(i + 1) =~= processor_parts(templates.deep_view()).take(i as int).push(
                (part, templates@[i as int]@),
            ));
            i = i + 1;
        }
        assert(processor_parts(templates.deep_view()).take(11) =~= processor_parts(templates.deep_view()));
    }

    /// A copy of the object.
    pub fn duplicate(&self) -> (r: Self)
        ensures
            r@ == self@,
    {
        let mut parts: Vec<(ProcessorCodePart, String)> = Vec::new();
        let mut i: usize = 0;
        while i < self.code_parts.len()
            invariant
                i <= self.code_parts@.len(),
                parts_view(parts@) == parts_view(self.code_parts@).take(i as int),
            decreases self.code_parts@.len() - i,
        {
            let ghost before = parts_view(parts@);
            parts.push((self.code_parts[i].0, self.code_parts[i].1.clone()));
            assert(parts_view(parts@) =~= before.push(parts_view(self.code_parts@)[i as int]));
            assert(parts_view(self.code_parts@).take(i + 1) =~= parts_view(self.code_parts@).take(i as int).push(parts_view(self.code_parts@)[i as int]));
            i = i + 1;
        }
        assert(parts_view(self.code_parts@).take(i as int) =~= parts_view(self.code_parts@));
        let r = CoderObject {
            name: self.name.clone(),
            kind_name: self.kind_name.clone(),
            code_parts: parts,
            children: crate::text::clone_strings(&self.children),
            parameters: self.parameters.duplicate(),
        };
        assert(str_map(r.parameters) =~= str_map(self.parameters));
        r
    }
}

/// What a `new` command does to the generator's objects, once it passed
/// every check.
pub enum NewEffect {
    /// An object is kept under the command's name.
    Insert(CoderObjectView),
    /// Nothing is kept.
    Nothing,
    /// A processor of the library named first, whose source file is the
    /// path, once that file exists.
    ProcessorFile(Seq<char>, Seq<char>),
    /// A library at the path, once its directory and crate were created.
    Library(Seq<char>),
}

/// The line that creates a member in a processor's `new`.
pub open spec fn member_line(t: Seq<char>, dt: Seq<char>, n: Seq<char>) -> Seq<char> {
    "ret.get_stream_block_mut().add_"@ + t + "::<"@ + dt + ">(\""@ + n + "\");"@
}

/// The checks of a `new` command, in order, and what it does once they pass.
pub open spec fn new_effect(objs: Map<Seq<char>, CoderObjectView>, c: K2ReturnView) -> Result<NewEffect, Seq<char>> {
    let k = c.tokens;
    if k.len() < 3 {
        Err("New command requires at least 3 tokens: 'new', type, and name"@)
    } else if objs.contains_key(k[2]) {
        Err("An object with the name "@ + k[2] + " already exists"@)
    } else if c.data.len() == 0 {
        Err("Missing data for new command"@)
    } else if c.data.len() > 1 {
        Err("Data for new command must contain only one K2Object"@)
    } else {
        let t = k[1];
        let n = k[2];
        let d = c.data[0];
        let p = d.properties;
        let base = CoderObjectView {
            name: n,
            kind_name: t,
            code_parts: Seq::empty(),
            children: Seq::empty(),
            parameters: p,
        };
        let pieces = split_on(n, '.');
        if t == "input"@ || t == "output"@ || t == "parameter"@ || t == "state"@ || t == "command"@ {
            if pieces.len() != 3 {
                Err("Processor name must be in the format 'library_name.processor_name'"@)
            } else if !objs.contains_key(pieces[0] + seq!['.'] + pieces[1]) {
                Err("Processor "@ + pieces[0] + seq!['.'] + pieces[1] + " does not exist"@)
            } else if !p.contains_key("data_type"@) {
                Err("Missing data_type property for input/output creation"@)
            } else {
                let dt = p["data_type"@];
                if t == "input"@ || t == "output"@ {
                    Ok(NewEffect::Insert(CoderObjectView { code_parts: seq![(ProcessorCodePart::K2MemberCreation, member_line(t, dt, n))], ..base }))
                } else if t == "parameter"@ {
                    if !p.contains_key("value"@) {
                        Err("Missing value property for parameter creation"@)
                    } else if !p.contains_key("kind"@) {
                        Err("Missing kind property for parameter creation"@)
                    } else if p["kind"@] != "static"@ && p["kind"@] != "dynamic"@ {
                        Err("Parameter kind must be either static or dynamic"@)
                    } else {
                        Ok(NewEffect::Insert(CoderObjectView {
                            code_parts: seq![(ProcessorCodePart::K2MemberCreation,
                                "ret.get_stream_block_mut().add_parameter::<"@ + dt + ">(\""@ + n + "\", "@ + p["kind"@] + ");"@
                                + "\n"@ + "ret.get_stream_block_mut().set_parameter::<"@ + dt + ">(\""@ + n + "\", "@ + p["value"@] + ");"@)],
                            ..base
                        }))
                    }
                } else if t == "state"@ {
                    if !p.contains_key("value"@) {
                        Err("Missing value property for state creation"@)
                    } else {
                        Ok(NewEffect::Insert(CoderObjectView {
                            code_parts: seq![(ProcessorCodePart::K2MemberCreation,
                                "ret.get_stream_block_mut().add_state::<"@ + dt + ">(\""@ + n + "\");"@
                                + "\n"@ + "ret.get_stream_block_mut().set_state::<"@ + dt + ">(\""@ + n + "\", "@ + p["value"@] + ");"@)],
                            ..base
                        }))
                    }
                } else {
                    Ok(NewEffect::Insert(base))
                }
            }
        } else if t == "processor"@ {
            if pieces.len() != 2 {
                Err("Processor name must be in the format 'library_name.processor_name'"@)
            } else if !objs.contains_key(pieces[0]) {
                Err("Library "@ + pieces[0] + " does not exist"@)
            } else if !objs[pieces[0]].parameters.contains_key("path"@) {
                Err("Missing library Path"@)
            } else {
                Ok(NewEffect::ProcessorFile(pieces[0], objs[pieces[0]].parameters["path"@] + "/src/"@ + n + ".rs"@))
            }
        } else if t == "library"@ {
            if d.object_type != "library"@ {
                Err("The K2Object representing the library must have object_type 'library'"@)
            } else if !p.contains_key("path"@) {
                Err("The K2Object representing the library must have a 'path' property"@)
            } else {
                Ok(NewEffect::Library(p["path"@]))
            }
        } else if t == "stream"@ || t == "chain"@ || t == "mode"@ || t == "application"@ {
            Ok(NewEffect::Nothing)
        } else {
            Err("Unknown type "@ + n)
        }
    }
}

/// What the caller does next for a `new` command that passed its checks.
pub enum NewPlan {
    /// Nothing more: the command is answered as it came.
    Done,
    /// Make sure the processor's source file exists (an empty one when it
    /// does not), read the templates of the parts, and hand both to
    /// `processor_file_ready`.
    ProcessorFile(String),
    /// Create the library's directory and run `cargo new --lib` with the
    /// library's name, and hand the outcome to `library_created`.
    Library { path: String, name: String },
}

/// What `Coder::execute` leaves to its caller.
pub enum CoderStep {
    /// The answer to the command.
    Reply(K2ReturnStruct),
    /// The processor file to make sure of, as `NewPlan::ProcessorFile`.
    CreateProcessorFile { path: String },
    /// The library to create with the build tool at `cargo_path`, as
    /// `NewPlan::Library`.
    CreateLibrary { path: String, name: String, cargo_path: String },
}

/// The refusal of a command, with a message.
pub open spec fn refusal(c: K2ReturnView, m: Seq<char>) -> K2ReturnView {
    K2ReturnView { success: false, message: m, data: Seq::empty(), ..c }
}

/// The library with one more processor, once.
pub open spec fn with_child(o: CoderObjectView, n: Seq<char>) -> CoderObjectView {
    if o.children.contains(n) {
        o
    } else {
        CoderObjectView { children: o.children.push(n), ..o }
    }
}

/// The code generator of the first form of the language.
pub struct Coder {
    pub name: String,
    pub header: ProcessorHeader,
    cargo_path: String,
    coder_objects: NameMap<CoderObject>,
}

/// The objects of a table, by name.
pub open spec fn coder_view(m: NameMap<CoderObject>) -> Map<Seq<char>, CoderObjectView> {
    Map::new(|k: Seq<char>| m.has(k), |k: Seq<char>| m.lookup(k)@)
}

impl Coder {
    /// The objects it keeps, by name.
    pub closed spec fn objects(&self) -> Map<Seq<char>, CoderObjectView> {
        coder_view(self.coder_objects)
    }

    /// The generator's name.
    pub closed spec fn label(&self) -> Seq<char> {
        self.name@
    }

    /// The build tool it runs.
    pub closed spec fn cargo(&self) -> Seq<char> {
        self.cargo_path@
    }

    /// A generator named `name` that runs the build tool at `cargo_path`,
    /// with no objects.
    pub fn new(name: String, cargo_path: String) -> (r: Self)
        ensures
            r.label() == name@,
            r.cargo() == cargo_path@,
            r.objects() == Map::<Seq<char>, CoderObjectView>::empty(),
    {
        let r = Coder {
            name,
            header: ProcessorHeader {
                proc_name: "Coder".to_owned(),
                description: "A processor that parses the commands and executes the corresponding actions".to_owned(),
                version: "0.1.0".to_owned(),
                author: "Sofia Silvestri".to_owned(),
                email: "ms.sofia.silvestri@gmail.com".to_owned(),
                license: "LGPLv2.0".to_owned(),
                repository: "".to_owned(),
            },
            cargo_path,
            coder_objects: NameMap::new(),
        };
        assert(coder_view(r.coder_objects) =~= Map::<Seq<char>, CoderObjectView>::empty());
        r
    }

    /// A text property of an object.
    fn property(m: &NameMap<String>, k: &str) -> (r: Option<String>)
        ensures
            match r {
                Some(v) => str_map(*m).contains_key(k@) && v@ == str_map(*m)[k@],
                None => !str_map(*m).contains_key(k@),
            },
    {
        match m.get(k) {
            Some(v) => Some(v.clone()),
            None => None,
        }
    }

    /// The checks of a `new` command, and what it does once they pass.
    fn check_new(&self, command: &K2ReturnStruct) -> (r: Result<(NewPlan, Option<CoderObject>), String>)
        ensures
            match new_effect(self.objects(), command@) {
                Err(m) => r matches Err(e) && e@ == m,
                Ok(NewEffect::Insert(o)) => r matches Ok((NewPlan::Done, Some(x))) && x@ == o,
                Ok(NewEffect::Nothing) => r matches Ok((NewPlan::Done, None)),
                Ok(NewEffect::ProcessorFile(_, path)) => r matches Ok((NewPlan::ProcessorFile(f), None)) && f@ == path,
                Ok(NewEffect::Library(path)) => r matches Ok((NewPlan::Library { path: p, name: n }, None))
                    && p@ == path && n@ == command@.tokens[2],
            },
    {
        proof {
            lemma_object_types_differ();
        }
        if command.tokens.len() < 3 {
            return Err("New command requires at least 3 tokens: 'new', type, and name".to_owned());
        }
        assert(command@.tokens[1] == command.tokens@[1]@ && command@.tokens[2] == command.tokens@[2]@);
        let data_type = command.tokens[1].as_str();
        let data_name = command.tokens[2].as_str();
        if self.coder_objects.contains_key(data_name) {
            return Err(concat3("An object with the name ", data_name, " already exists"));
        }
        if command.data.len() == 0 {
            return Err("Missing data for new command".to_owned());
        }
        if command.data.len() > 1 {
            return Err("Data for new command must contain only one K2Object".to_owned());
        }
        assert(command@.data[0] == command.data@[0]@);
        let d = &command.data[0];
        let pieces = split_char(data_name, '.');
        let t = data_type;
        if str_eq(t, "input") || str_eq(t, "output") || str_eq(t, "parameter") || str_eq(t, "state") || str_eq(t, "command") {
            if pieces.len() != 3 {
                return Err("Processor name must be in the format 'library_name.processor_name'".to_owned());
            }
            assert(pieces.deep_view()[0] == pieces@[0]@ && pieces.deep_view()[1] == pieces@[1]@);
            let processor_name = join_dot(pieces[0].as_str(), pieces[1].as_str());
            if !self.coder_objects.contains_key(processor_name.as_str()) {
                return Err(concat3("Processor ", processor_name.as_str(), " does not exist"));
            }
            let dt = match Self::property(&d.properties, "data_type") {
                Some(v) => v,
                None => {
                    return Err("Missing data_type property for input/output creation".to_owned());
                },
            };
            let mut parts: Vec<(ProcessorCodePart, String)> = Vec::new();
            if str_eq(t, "input") || str_eq(t, "output") {
                let line = String::from_str("ret.get_stream_block_mut().add_").concat(t).concat("::<").concat(dt.as_str()).concat(">(\"").concat(data_name).concat("\");");
                assert(line@ =~= member_line(t@, dt@, data_name@));
                let ghost lv = line@;
                parts.push((ProcessorCodePart::K2MemberCreation, line));
                assert(parts_view(parts@) =~= seq![(ProcessorCodePart::K2MemberCreation, lv)]);
            } else if str_eq(t, "parameter") {
                let value = match Self::property(&d.properties, "value") {
                    Some(v) => v,
                    None => {
                        return Err("Missing value property for parameter creation".to_owned());
                    },
                };
                let kind = match Self::property(&d.properties, "kind") {
                    Some(v) => v,
                    None => {
                        return Err("Missing kind property for parameter creation".to_owned());
                    },
                };
                if !(str_eq(kind.as_str(), "static") || str_eq(kind.as_str(), "dynamic")) {
                    return Err("Parameter kind must be either static or dynamic".to_owned());
                }
                let declaration = String::from_str("ret.get_stream_block_mut().add_parameter::<").concat(dt.as_str()).concat(">(\"").concat(data_name).concat("\", ").concat(kind.as_str()).concat(");");
                let initialization = String::from_str("ret.get_stream_block_mut().set_parameter::<").concat(dt.as_str()).concat(">(\"").concat(data_name).concat("\", ").concat(value.as_str()).concat(");");
                let text = concat3(declaration.as_str(), "\n", initialization.as_str());
                assert(text@ =~= "ret.get_stream_block_mut().add_parameter::<"@ + dt@ + ">(\""@ + data_name@ + "\", "@ + kind@ + ");"@
                                + "\n"@ + "ret.get_stream_block_mut().set_parameter::<"@ + dt@ + ">(\""@ + data_name@ + "\", "@ + value@ + ");"@);
                let ghost tv = text@;
                parts.push((ProcessorCodePart::K2MemberCreation, text));
                assert(parts_view(parts@) =~= seq![(ProcessorCodePart::K2MemberCreation, tv)]);
            } else if str_eq(t, "state") {
                let value = match Self::property(&d.properties, "value") {
                    Some(v) => v,
                    None => {
                        return Err("Missing value property for state creation".to_owned());
                    },
                };
                let declaration = String::from_str("ret.get_stream_block_mut().add_state::<").concat(dt.as_str()).concat(">(\"").concat(data_name).concat("\");");
                let initialization = String::from_str("ret.get_stream_block_mut().set_state::<").concat(dt.as_str()).concat(">(\"").concat(data_name).concat("\", ").concat(value.as_str()).concat(");");
                let text = concat3(declaration.as_str(), "\n", initialization.as_str());
                assert(text@ =~= "ret.get_stream_block_mut().add_state::<"@ + dt@ + ">(\""@ + data_name@ + "\");"@
                                + "\n"@ + "ret.get_stream_block_mut().set_state::<"@ + dt@ + ">(\""@ + data_name@ + "\", "@ + value@ + ");"@);
                let ghost tv = text@;
                parts.push((ProcessorCodePart::K2MemberCreation, text));
                assert(parts_view(parts@) =~= seq![(ProcessorCodePart::K2MemberCreation, tv)]);
            }
            if !(str_eq(t, "input") || str_eq(t, "output") || str_eq(t, "parameter") || str_eq(t, "state")) {
                assert(parts_view(parts@) =~= Seq::<(ProcessorCodePart, Seq<char>)>::empty());
            }
            let object = CoderObject {
                name: command.tokens[2].clone(),
                kind_name: command.tokens[1].clone(),
                code_parts: parts,
                children: Vec::new(),
                parameters: d.properties.duplicate(),
            };
            assert(object.children.deep_view() =~= Seq::<Seq<char>>::empty());
            assert(str_map(object.parameters) =~= str_map(d.properties));
            Ok((NewPlan::Done, Some(object)))
        } else if str_eq(t, "processor") {
            if pieces.len() != 2 {
                return Err("Processor name must be in the format 'library_name.processor_name'".to_owned());
            }
            assert(pieces.deep_view()[0] == pieces@[0]@);
            let library_name = pieces[0].as_str();
            let library = match self.coder_objects.get(library_name) {
                Some(l) => l,
                None => {
                    return Err(concat3("Library ", library_name, " does not exist"));
                },
            };
            let library_path = match Self::property(&library.parameters, "path") {
                Some(v) => v,
                None => {
                    return Err("Missing library Path".to_owned());
                },
            };
            Ok((NewPlan::ProcessorFile(concat3(library_path.as_str(), "/src/", data_name).concat(".rs")), None))
        } else if str_eq(t, "library") {
            if !str_eq(d.object_type.as_str(), "library") {
                return Err("The K2Object representing the library must have object_type 'library'".to_owned());
            }
            let path = match Self::property(&d.properties, "path") {
                Some(v) => v,
                None => {
                    return Err("The K2Object representing the library must have a 'path' property".to_owned());
                },
            };
            Ok((NewPlan::Library { path, name: command.tokens[2].clone() }, None))
        } else if str_eq(t, "stream") || str_eq(t, "chain") || str_eq(t, "mode") || str_eq(t, "application") {
            Ok((NewPlan::Done, None))
        } else {
            Err(String::from_str("Unknown type ").concat(data_name))
        }
    }

    /// Checks a `new` command and does what needs no file: a member of a
    /// processor is kept at once; a processor or a library is left to the
    /// caller, as the plan says; a stream, chain, mode or application is
    /// accepted and not kept.
    pub fn proc_new(&mut self, command: &K2ReturnStruct) -> (r: Result<NewPlan, String>)
        ensures
            match new_effect(old(self).objects(), command@) {
                Err(m) => r matches Err(e) && e@ == m && final(self).objects() == old(self).objects(),
                Ok(NewEffect::Insert(o)) => r matches Ok(NewPlan::Done) && final(self).objects()
                    == old(self).objects().insert(command@.tokens[2], o),
                Ok(NewEffect::Nothing) => r matches Ok(NewPlan::Done) && final(self).objects() == old(self).objects(),
                Ok(NewEffect::ProcessorFile(_, path)) => r matches Ok(NewPlan::ProcessorFile(f)) && f@ == path
                    && final(self).objects() == old(self).objects(),
                Ok(NewEffect::Library(path)) => r matches Ok(NewPlan::Library { path: p, name: n })
                    && p@ == path && n@ == command@.tokens[2] && final(self).objects() == old(self).objects(),
            },
            final(self).cargo() == old(self).cargo(),
    {
        match self.check_new(command) {
            Err(e) => Err(e),
            Ok((plan, Some(object))) => {
                assert(command@.tokens[2] == command.tokens@[2]@);
                let ghost ov = object@;
                self.coder_objects.insert(command.tokens[2].clone(), object);
                assert(coder_view(self.coder_objects) =~= coder_view(old(self).coder_objects).insert(command@.tokens[2], ov));
                Ok(plan)
            },
            Ok((plan, None)) => Ok(plan),
        }
    }

    /// The refusal of a command.
    fn refuse(command: &K2ReturnStruct, message: &str) -> (r: K2ReturnStruct)
        ensures
            r@ == refusal(command@, message@),
    {
        let r = K2ReturnStruct {
            success: false,
            command: command.command.clone(),
            tokens: crate::text::clone_strings(&command.tokens),
            message: message.to_owned(),
            data: Vec::new(),
        };
        assert(objects_view(r.data@) =~= Seq::<K2ObjectView>::empty());
        r
    }

    /// Keeps the processor of a `new` command once its source file exists
    /// (`created`), with the templates of its parts, and lists it among the
    /// library's processors. When the file could not be made, or the command
    /// no longer passes its checks, the command is refused with `Error` and
    /// nothing changes.
    pub fn processor_file_ready(&mut self, command: &K2ReturnStruct, created: bool, templates: &Vec<String>) -> (r: K2ReturnStruct)
        requires
            templates@.len() == 11,
        ensures
            match new_effect(old(self).objects(), command@) {
                Ok(NewEffect::ProcessorFile(lib, _)) => if created {
                    r@ == command@ && final(self).objects() == old(self).objects().insert(
                        lib,
                        with_child(old(self).objects()[lib], command@.tokens[2]),
                    ).insert(
                        command@.tokens[2],
                        CoderObjectView {
                            name: command@.tokens[2],
                            kind_name: command@.tokens[1],
                            code_parts: processor_parts(templates.deep_view()),
                            children: Seq::empty(),
                            parameters: command@.data[0].properties,
                        },
                    )
                } else {
                    r@ == refusal(command@, "Error"@) && final(self).objects() == old(self).objects()
                },
                _ => r@ == refusal(command@, "Error"@) && final(self).objects() == old(self).objects(),
            },
            final(self).cargo() == old(self).cargo(),
    {
        let ghost before = self.objects();
        let plan = self.check_new(command);
        match plan {
            Ok((NewPlan::ProcessorFile(_), _)) => {},
            _ => {
                return Self::refuse(command, "Error");
            },
        }
        if !created {
            return Self::refuse(command, "Error");
        }
        assert(command@.tokens[1] == command.tokens@[1]@ && command@.tokens[2] == command.tokens@[2]@);
        assert(command@.data[0] == command.data@[0]@);
        let pieces = split_char(command.tokens[2].as_str(), '.');
        assert(pieces.deep_view()[0] == pieces@[0]@);
        let library_name = pieces[0].clone();
        let mut library = self.coder_objects.get(library_name.as_str()).unwrap().duplicate();
        if !crate::text::contains_name(&library.children, command.tokens[2].as_str()) {
            let ghost cv = library.children.deep_view();
            library.children.push(command.tokens[2].clone());
            assert(library.children.deep_view() =~= cv.push(command@.tokens[2]));
        }
        let ghost lv = library@;
        self.coder_objects.insert(library_name, library);
        let mut object = CoderObject {
            name: command.tokens[2].clone(),
            kind_name: command.tokens[1].clone(),
            code_parts: Vec::new(),
            children: Vec::new(),
            parameters: command.data[0].properties.duplicate(),
        };
        object.init_processor_code(templates);
        assert(object.children.deep_view() =~= Seq::<Seq<char>>::empty());
        assert(str_map(object.parameters) =~= str_map(command.data[0].properties));
        let ghost ov = object@;
        self.coder_objects.insert(command.tokens[2].clone(), object);
        assert(coder_view(self.coder_objects) =~= before.insert(pieces@[0]@, lv).insert(command@.tokens[2], ov));
        command.duplicate()
    }

    /// Keeps the library of a `new` command once its directory and crate
    /// were created: `outcome` holds whether the build tool succeeded and
    /// what it printed, which become the answer's success and message. The
    /// library's path is its directory joined with its name. When the
    /// creation failed (`None`), or the command no longer passes its checks,
    /// the command is refused with `Error` and nothing changes.
    pub fn library_created(&mut self, command: &K2ReturnStruct, outcome: Option<(bool, String)>) -> (r: K2ReturnStruct)
        ensures
            match (new_effect(old(self).objects(), command@), outcome) {
                (Ok(NewEffect::Library(path)), Some((ok, message))) => r@ == (K2ReturnView {
                    success: ok,
                    message: message@,
                    ..command@
                }) && final(self).objects() == old(self).objects().insert(
                    command@.tokens[2],
                    CoderObjectView {
                        name: command@.tokens[2],
                        kind_name: command@.tokens[1],
                        code_parts: Seq::empty(),
                        children: Seq::empty(),
                        parameters: Map::empty().insert("path"@, path + "/"@ + command@.tokens[2]),
                    },
                ),
                _ => r@ == refusal(command@, "Error"@) && final(self).objects() == old(self).objects(),
            },
            final(self).cargo() == old(self).cargo(),
    {
        let ghost before = self.objects();
        let path = match self.check_new(command) {
            Ok((NewPlan::Library { path, name: _ }, _)) => path,
            _ => {
                return Self::refuse(command, "Error");
            },
        };
        let (ok, message) = match outcome {
            Some(o) => o,
            None => {
                return Self::refuse(command, "Error");
            },
        };
        assert(command@.tokens[1] == command.tokens@[1]@ && command@.tokens[2] == command.tokens@[2]@);
        let mut parameters: NameMap<String> = NameMap::new();
        let full = concat3(path.as_str(), "/", command.tokens[2].as_str());
        let ghost fv = full@;
        parameters.insert("path".to_owned(), full);
        assert(str_map(parameters) =~= Map::<Seq<char>, Seq<char>>::empty().insert("path"@, fv));
        let object = CoderObject {
            name: command.tokens[2].clone(),
            kind_name: command.tokens[1].clone(),
            code_parts: Vec::new(),
            children: Vec::new(),
            parameters,
        };
        assert(parts_view(object.code_parts@) =~= Seq::<(ProcessorCodePart, Seq<char>)>::empty());
        assert(object.children.deep_view() =~= Seq::<Seq<char>>::empty());
        let ghost ov = object@;
        self.coder_objects.insert(command.tokens[2].clone(), object);
        assert(coder_view(self.coder_objects) =~= before.insert(command@.tokens[2], ov));
        let mut r = command.duplicate();
        r.success = ok;
        r.message = message;
        r
    }

    /// Code generation of the objects kept: nothing is written yet, and the
    /// answer always says it succeeded.
    fn generate(&self) -> (r: Result<K2ReturnStruct, String>)
        ensures
            r matches Ok(s) && s@.success && s@.command == "generate"@ && s@.message
                == "Code generated successfully"@,
    {
        let mut r = K2ReturnStruct::new();
        r.command = "generate".to_owned();
        r.message = "Code generated successfully".to_owned();
        Ok(r)
    }

    /// Answers one command. A refused command passes through. A `new`
    /// command is checked: a refusal is answered `Error`; a processor or a
    /// library is left to the caller as the step says; otherwise the command
    /// is answered as it came. The other command words are accepted as they
    /// came, and an unknown word is answered `Unknown`.
    pub fn execute(&mut self, command: &K2ReturnStruct) -> (r: CoderStep)
        requires
            command@.success ==> command@.tokens.len() > 0,
        ensures
            !command@.success ==> (r matches CoderStep::Reply(x) && x@ == command@ && final(self).objects()
                == old(self).objects()),
            command@.success && command@.tokens[0] == "new"@ ==> match new_effect(old(self).objects(), command@) {
                Err(_) => r matches CoderStep::Reply(x) && x@ == refusal(command@, "Error"@) && final(self).objects()
                    == old(self).objects(),
                Ok(NewEffect::Insert(o)) => r matches CoderStep::Reply(x) && x@ == command@ && final(self).objects()
                    == old(self).objects().insert(command@.tokens[2], o),
                Ok(NewEffect::Nothing) => r matches CoderStep::Reply(x) && x@ == command@ && final(self).objects()
                    == old(self).objects(),
                Ok(NewEffect::ProcessorFile(_, path)) => r matches CoderStep::CreateProcessorFile { path: f } && f@ == path
                    && final(self).objects() == old(self).objects(),
                Ok(NewEffect::Library(path)) => r matches CoderStep::CreateLibrary { path: p, name: n, cargo_path: c }
                    && p@ == path && n@ == command@.tokens[2] && c@ == old(self).cargo() && final(self).objects()
                    == old(self).objects(),
            },
            command@.success && command@.tokens[0] != "new"@ && known_word(command@.tokens[0]) ==> (r matches CoderStep::Reply(x)
                && x@ == command@ && final(self).objects() == old(self).objects()),
            command@.success && command@.tokens[0] != "new"@ && !known_word(command@.tokens[0]) ==> (r matches CoderStep::Reply(x)
                && x@ == refusal(command@, "Unknown"@) && final(self).objects() == old(self).objects()),
            final(self).cargo() == old(self).cargo(),
    {
        if !command.success {
            return CoderStep::Reply(command.duplicate());
        }
        assert(command@.tokens[0] == command.tokens@[0]@);
        let word = command.tokens[0].as_str();
        if str_eq(word, "new") {
            match self.proc_new(command) {
                Err(_) => CoderStep::Reply(Self::refuse(command, "Error")),
                Ok(NewPlan::Done) => {
                    let _ = self.generate();
                    CoderStep::Reply(command.duplicate())
                },
                Ok(NewPlan::ProcessorFile(path)) => CoderStep::CreateProcessorFile { path },
                Ok(NewPlan::Library { path, name }) => CoderStep::CreateLibrary { path, name, cargo_path: self.cargo_path.clone() },
            }
        } else if str_eq(word, "add") || str_eq(word, "delete") || str_eq(word, "set") || str_eq(word, "connect")
            || str_eq(word, "disconnect") || str_eq(word, "exec") {
            let _ = self.generate();
            CoderStep::Reply(command.duplicate())
        } else {
            CoderStep::Reply(Self::refuse(command, "Unknown"))
        }
    }
}

/// Whether a command word has a handler other than `new`.
pub open spec fn known_word(w: Seq<char>) -> bool {
    w == "add"@ || w == "delete"@ || w == "set"@ || w == "connect"@ || w == "disconnect"@ || w == "exec"@
}

/// The object types of the language are distinct.
proof fn lemma_object_types_differ()
    ensures
        "processor"@ != "input"@,
        "processor"@ != "output"@,
        "processor"@ != "parameter"@,
        "processor"@ != "state"@,
        "processor"@ != "command"@,
        "library"@ != "input"@,
        "library"@ != "output"@,
        "library"@ != "parameter"@,
        "library"@ != "state"@,
        "library"@ != "command"@,
        "library"@ != "processor"@,
        "input"@ != "output"@,
        "input"@ != "parameter"@,
        "input"@ != "state"@,
        "output"@ != "parameter"@,
        "output"@ != "state"@,
        "parameter"@ != "state"@,
        "command"@ != "input"@,
        "command"@ != "output"@,
        "command"@ != "parameter"@,
        "command"@ != "state"@,
        "static"@ != "dynamic"@,
{
    reveal_strlit("processor");
    reveal_strlit("library");
    reveal_strlit("input");
    reveal_strlit("output");
    reveal_strlit("parameter");
    reveal_strlit("state");
    reveal_strlit("command");
    reveal_strlit("static");
    reveal_strlit("dynamic");
    assert("processor"@.len() != "input"@.len());
    assert("processor"@[0] != "output"@[0]);
    assert("processor"@[1] != "parameter"@[1]);
    assert("processor"@.len() != "state"@.len());
    assert("processor"@.len() != "command"@.len());
    assert("library"@.len() != "input"@.len());
    assert("library"@.len() != "output"@.len());
    assert("library"@.len() != "parameter"@.len());
    assert("library"@.len() != "state"@.len());
    assert("library"@[0] != "command"@[0]);
    assert("library"@.len() != "processor"@.len());
    assert("input"@.len() != "output"@.len());
    assert("input"@.len() != "parameter"@.len());
    assert("input"@[0] != "state"@[0]);
    assert("output"@.len() != "parameter"@.len());
    assert("output"@.len() != "state"@.len());
    assert("parameter"@.len() != "state"@.len());
    assert("command"@.len() != "input"@.len());
    assert("command"@.len() != "output"@.len());
    assert("command"@.len() != "parameter"@.len());
    assert("command"@.len() != "state"@.len());
    assert("static"@.len() != "dynamic"@.len());
}

} // verus!
