//! The code generator of a library: it keeps one processor generator per
//! processor of the library and hands each command to the one it concerns.
use vstd::prelude::*;
use crate::name_map::NameMap;
use crate::text::{str_eq, join_with, join_strings, split_on, concat3};
use crate::k2lang::objects::{K2LangObject, K2LangStruct, K2LangView};
use crate::k2_stream::errors::{K2Error, K2ErrorCode};
use crate::k2coder::coder::{owner_of, owner_name, project_dir, project_path, snake_case};
use crate::k2coder::processor_coder::{ProcessorCoder, ChildView, processor_executed};

verus! {

/// A processor generator as it is made for the processor `n` of the
/// library at `lp`, from the templates `t`.
pub open spec fn fresh_processor(c: ProcessorCoder, n: Seq<char>, lp: Seq<char>, t: Seq<Seq<char>>) -> bool {
    &&& c.label() == n
    &&& c.path() == lp + "/src/"@ + snake_case(n) + ".rs"@
    &&& c.members() == Map::<Seq<char>, ChildView>::empty()
    &&& c.member_names() == Seq::<Seq<char>>::empty()
    &&& c.props() == Map::<Seq<char>, Seq<char>>::empty()
    &&& c.part_count() == 12
    &&& forall|i: int| 0 <= i < 12 ==> #[trigger] c.code(i) == t[i]
}

/// Whether a command goes to the processor that owns the object it names.
pub open spec fn goes_to_owner(input: K2LangView) -> bool {
    let t0 = input.tokens[0];
    let ty = input.data[0].object_type;
    ||| t0 == "new"@ && ty != "library"@ && ty != "processor"@
    ||| t0 == "delete"@ && ty != "processor"@
    ||| t0 == "set"@
}

/// The processor generator that a command is handed to, if any.
pub open spec fn library_route(input: K2LangView) -> Option<Seq<char>> {
    if goes_to_owner(input) {
        Some(owner_of(input.data[0].name))
    } else if input.tokens[0] == "code"@ {
        Some(input.data[0].name)
    } else {
        None
    }
}

/// The lines of the library's root module: one module per processor.
pub open spec fn module_lines(names: Seq<Seq<char>>) -> Seq<Seq<char>> {
    names.map_values(|n: Seq<char>| "pub mod "@ + n)
}

/// The code generator of a library.
pub struct LibraryCoder {
    library_path: String,
    file_path: String,
    templates: Vec<String>,
    processor_coder: NameMap<ProcessorCoder>,
}

/// What one command does to a library's generator: `o` before, `f` after,
/// `r` the answer.
pub open spec fn library_executed(o: LibraryCoder, input: K2LangView, f: LibraryCoder, r: Result<String, K2Error>) -> bool {
    let t0 = input.tokens[0];
    let d = input.data[0];
    let ok = r matches Ok(m) && m@ == "Ok"@;
    &&& f.path() == o.path()
    &&& f.file() == o.file()
    &&& f.templates() == o.templates()
    &&& if t0 == "new"@ && d.object_type == "library"@ {
        ok && f.keeps(o)
    } else if t0 == "new"@ && d.object_type == "processor"@ {
        if o.coders().contains_key(d.name) {
            (r matches Err(e) && e.code == K2ErrorCode::AlreadyExists && e.message@ == "Coder "@ + d.name
                + " already exists"@) && f.keeps(o)
        } else {
            ok && f.coders() == o.coders().insert(d.name, f.coders()[d.name]) && fresh_processor(
                f.coders()[d.name],
                d.name,
                o.path(),
                o.templates(),
            ) && f.coder_names() == o.coder_names().push(d.name)
        }
    } else if t0 == "delete"@ && d.object_type == "processor"@ {
        ok && f.coders() == o.coders().remove(d.name) && f.coder_names() == (if o.coders().contains_key(d.name) {
            o.coder_names().remove(o.coder_position(d.name))
        } else {
            o.coder_names()
        })
    } else {
        match library_route(input) {
            None => (r matches Err(e) && e.code == K2ErrorCode::InvalidOperation && e.message@
                == "Command not supported for library"@) && f.keeps(o),
            Some(k) => if !o.coders().contains_key(k) {
                (r matches Err(e) && e.code == K2ErrorCode::NotFound && e.message@ == "Coder "@ + k
                    + " not found"@) && f.keeps(o)
            } else {
                f.coders() == o.coders().insert(k, f.coders()[k]) && f.coder_names() == o.coder_names()
                    && processor_executed(o.coders()[k], input, f.coders()[k], r)
            },
        }
    }
}

impl LibraryCoder {
    /// Whether it holds what `o` holds: nothing that can be seen of it
    /// differs.
    pub open spec fn keeps(self, o: LibraryCoder) -> bool {
        &&& self.path() == o.path()
        &&& self.file() == o.file()
        &&& self.templates() == o.templates()
        &&& self.coders() == o.coders()
        &&& self.coder_names() == o.coder_names()
    }

    /// The library's directory.
    pub closed spec fn path(&self) -> Seq<char> {
        self.library_path@
    }

    /// The library's root module file.
    pub closed spec fn file(&self) -> Seq<char> {
        self.file_path@
    }

    /// The templates its processors start from.
    pub closed spec fn templates(&self) -> Seq<Seq<char>> {
        self.templates.deep_view()
    }

    /// Its processor generators, by processor name.
    pub closed spec fn coders(&self) -> Map<Seq<char>, ProcessorCoder> {
        self.processor_coder.as_map()
    }

    /// The names of its processors, in the order they were created.
    pub closed spec fn coder_names(&self) -> Seq<Seq<char>> {
        self.processor_coder.keys_seq()
    }

    /// The position of a processor among the names.
    pub closed spec fn coder_position(&self, n: Seq<char>) -> int {
        self.processor_coder.index_of(n)
    }

    /// There is a template for every part of a processor.
    #[verifier::type_invariant]
    spec fn templates_complete(&self) -> bool {
        self.templates@.len() == 12
    }

    /// The generator of the library that `object` describes, in the
    /// directory named by its `path` property and its name; its processors
    /// will start from `templates`. Without a `path` property it is
    /// `NotFound`.
    pub fn new(object: &K2LangObject, templates: Vec<String>) -> (r: Result<Self, K2Error>)
        requires
            templates@.len() == 12,
        ensures
            match project_dir(object@) {
                None => r matches Err(e) && e.code == K2ErrorCode::NotFound && e.message@
                    == "Path properties not found"@,
                Some(p) => r matches Ok(c) && c.path() == p && c.file() == p + "/src/lib.rs"@
                    && c.templates() == templates.deep_view() && c.coders() == Map::<
                    Seq<char>,
                    ProcessorCoder,
                >::empty() && c.coder_names() == Seq::<Seq<char>>::empty(),
            },
    {
        let library_path = match project_path(object) {
            Ok(p) => p,
            Err(e) => {
                return Err(e);
            },
        };
        let file_path = library_path.clone().concat("/src/lib.rs");
        Ok(LibraryCoder { library_path, file_path, templates, processor_coder: NameMap::new() })
    }

    /// Hands a command to the processor generator at position `i`.
    fn run_on(&mut self, i: usize, input: &K2LangStruct) -> (r: Result<String, K2Error>)
        requires
            i < old(self).processor_coder.size(),
            input@.tokens.len() >= 1,
            input@.data.len() >= 1,
            input@.tokens[0] == "set"@ || input@.tokens[0] == "code"@ ==> input@.tokens.len() >= 4,
        ensures
            ({
                let k = old(self).coder_names()[i as int];
                &&& final(self).coders() == old(self).coders().insert(k, final(self).coders()[k])
                &&& final(self).coder_names() == old(self).coder_names()
                &&& processor_executed(old(self).coders()[k], input@, final(self).coders()[k], r)
                &&& r is Err ==> final(self).keeps(*old(self))
            }),
            final(self).path() == old(self).path(),
            final(self).file() == old(self).file(),
            final(self).templates() == old(self).templates(),
    {
        proof {
            use_type_invariant(&*self);
        }
        let ghost k = self.coder_names()[i as int];
        let ghost before = self.processor_coder;
        let mut table = NameMap::new();
        std::mem::swap(&mut table, &mut self.processor_coder);
        let mut pc = table.swap_value(i, ProcessorCoder::placeholder());
        let r = pc.execute(input);
        let ghost pv = pc;
        let _ = table.swap_value(i, pc);
        self.processor_coder = table;
        proof {
            let m = self.processor_coder;
            assert(m.as_map() =~= before.as_map().insert(k, pv));
            if r is Err {
                assert(m.as_map() =~= before.as_map());
            }
        }
        match r {
            Ok(_) => Ok("Ok".to_owned()),
            Err(e) => Err(e),
        }
    }

    /// Carries out one command on the library. A `new` command for a
    /// library is accepted as it is; `new` and `delete` of a processor add
    /// or forget the processor's generator; every other `new`, `delete` and
    /// `set` goes to the generator of the processor that owns the named
    /// object, and `code` to the generator of the named processor. Another
    /// command word is refused.
    pub fn execute(&mut self, input: &K2LangStruct) -> (r: Result<String, K2Error>)
        requires
            input@.tokens.len() >= 1,
            input@.data.len() >= 1,
            input@.tokens[0] == "set"@ || input@.tokens[0] == "code"@ ==> input@.tokens.len() >= 4,
            goes_to_owner(input@) ==> split_on(input@.data[0].name, '.').len() >= 2,
        ensures
            library_executed(*old(self), input@, *final(self), r),
    {
        proof {
            lemma_library_words_differ();
            use_type_invariant(&*self);
        }
        assert(input@.tokens[0] == input.tokens@[0]@);
        assert(input@.data[0] == input.data@[0]@);
        let t0 = input.tokens[0].as_str();
        let d0 = &input.data[0];
        let ty = d0.object_type.as_str();
        if str_eq(t0, "new") && str_eq(ty, "library") {
            return Ok("Ok".to_owned());
        }
        if str_eq(t0, "new") && str_eq(ty, "processor") {
            if self.processor_coder.contains_key(d0.name.as_str()) {
                return Err(K2Error { code: K2ErrorCode::AlreadyExists, message: concat3("Coder ", d0.name.as_str(), " already exists") });
            }
            let pc = match ProcessorCoder::new(d0.name.clone(), self.library_path.clone(), &self.templates) {
                Ok(pc) => pc,
                Err(e) => {
                    return Err(e);
                },
            };
            let ghost before = self.processor_coder;
            let ghost pv = pc;
            let mut table = NameMap::new();
            std::mem::swap(&mut table, &mut self.processor_coder);
            table.insert(d0.name.clone(), pc);
            self.processor_coder = table;
            assert(self.processor_coder.as_map() =~= before.as_map().insert(d0.name@, pv));
            return Ok("Ok".to_owned());
        }
        if str_eq(t0, "delete") && str_eq(ty, "processor") {
            let ghost before = self.processor_coder;
            let mut table = NameMap::new();
            std::mem::swap(&mut table, &mut self.processor_coder);
            let _ = table.remove(d0.name.as_str());
            self.processor_coder = table;
            assert(self.processor_coder.as_map() =~= before.as_map().remove(d0.name@));
            return Ok("Ok".to_owned());
        }
        let key = if str_eq(t0, "new") || str_eq(t0, "delete") || str_eq(t0, "set") {
            owner_name(d0.name.as_str())
        } else if str_eq(t0, "code") {
            d0.name.clone()
        } else {
            return Err(K2Error::new(K2ErrorCode::InvalidOperation, "Command not supported for library"));
        };
        match self.processor_coder.find(key.as_str()) {
            None => Err(K2Error { code: K2ErrorCode::NotFound, message: concat3("Coder ", key.as_str(), " not found") }),
            Some(i) => self.run_on(i, input),
        }
    }

    /// The text of the library's root module: one `pub mod` line per
    /// processor, in the order the processors were created.
    pub fn generate(&self) -> (r: String)
        ensures
            r@ == join_with(module_lines(self.coder_names()), "\n"@),
    {
        let names = self.processor_coder.keys();
        let ghost ns = names.deep_view();
        let mut lines: Vec<String> = Vec::new();
        let mut i: usize = 0;
        while i < names.len()
            invariant
                i <= names@.len(),
                ns == names.deep_view(),
                ns == self.coder_names(),
                lines.deep_view() == module_lines(ns.take(i as int)),
            decreases names@.len() - i,
        {
            let line = String::from_str("pub mod ").concat(names[i].as_str());
            let ghost prev = lines.deep_view();
            let ghost lv = line@;
            lines.push(line);
            assert(ns[i as int] == names@[i as int]@);
            assert(lines.deep_view() =~= prev.push(lv));
            assert(ns.take(i + 1) =~= ns.take(i as int).push(ns[i as int]));
            assert(module_lines(ns.take(i + 1)) =~= module_lines(ns.take(i as int)).push("pub mod "@ + ns[i as int]));
            i = i + 1;
        }
        assert(ns.take(i as int) =~= ns);
        join_strings(&lines, "\n")
    }
}

/// Deleting a processor that a `new` command has just added gives back the
/// generators, and their order, that the library had before.
pub proof fn law_delete_undoes_new_processor(
    o: LibraryCoder,
    add: K2LangView,
    m: LibraryCoder,
    r1: Result<String, K2Error>,
    del: K2LangView,
    f: LibraryCoder,
    r2: Result<String, K2Error>,
)
    requires
        add.tokens.len() >= 1 && add.data.len() >= 1,
        add.tokens[0] == "new"@,
        add.data[0].object_type == "processor"@,
        !o.coders().contains_key(add.data[0].name),
        library_executed(o, add, m, r1),
        del.tokens.len() >= 1 && del.data.len() >= 1,
        del.tokens[0] == "delete"@,
        del.data[0].object_type == "processor"@,
        del.data[0].name == add.data[0].name,
        library_executed(m, del, f, r2),
    ensures
        f.coders() == o.coders(),
        f.coder_names() == o.coder_names(),
{
    lemma_library_words_differ();
    let n = add.data[0].name;
    assert(m.coders().contains_key(n));
    assert(f.coders() =~= o.coders());
    let keys = m.processor_coder.keys_seq();
    assert(keys == o.processor_coder.keys_seq().push(n));
    let last = o.processor_coder.keys_seq().len() as int;
    assert(keys[last] == n);
    let j = m.processor_coder.index_of(n);
    assert(0 <= j < keys.len() && keys[j] == n);
    if j != last {
        assert(o.processor_coder.keys_seq()[j] == n);
        assert(o.processor_coder.has(n));
    }
    assert(keys.remove(last) =~= o.processor_coder.keys_seq());
}

/// The command words and object types that the library's generator tells
/// apart are distinct.
proof fn lemma_library_words_differ()
    ensures
        "new"@ != "delete"@,
        "new"@ != "set"@,
        "new"@ != "code"@,
        "delete"@ != "set"@,
        "delete"@ != "code"@,
        "set"@ != "code"@,
        "library"@ != "processor"@,
{
    reveal_strlit("new");
    reveal_strlit("delete");
    reveal_strlit("set");
    reveal_strlit("code");
    reveal_strlit("library");
    reveal_strlit("processor");
    assert("new"@.len() != "delete"@.len());
    assert("new"@[0] != "set"@[0]);
    assert("new"@.len() != "code"@.len());
    assert("delete"@.len() != "set"@.len());
    assert("delete"@.len() != "code"@.len());
    assert("set"@.len() != "code"@.len());
    assert("library"@.len() != "processor"@.len());
}

} // verus!
