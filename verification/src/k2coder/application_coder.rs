//! The code generator of an application: it keeps one configuration
//! generator per stream of the application and hands each command to the
//! one it concerns.
use vstd::prelude::*;
use crate::name_map::NameMap;
use crate::text::{str_eq, split_on, concat3};
use crate::k2lang::objects::{K2LangObject, K2LangStruct, K2LangView};
use crate::k2_stream::errors::{K2Error, K2ErrorCode};
use crate::k2coder::coder::{owner_of, owner_name, project_dir, project_path};
use crate::k2coder::streamer_coder::{StreamerCoder, StreamChildView, streamer_executed};

verus! {

/// A configuration generator as it is made for the stream `n` of the
/// application at `ap`.
pub open spec fn fresh_stream(c: StreamerCoder, n: Seq<char>, ap: Seq<char>) -> bool {
    &&& c.label() == n
    &&& c.path() == ap + "/src/"@ + n + "_configuration.rs"@
    &&& c.members() == Map::<Seq<char>, StreamChildView>::empty()
    &&& c.member_names() == Seq::<Seq<char>>::empty()
    &&& c.well_formed()
}

/// Whether a command goes to the stream that owns the object it names.
pub open spec fn goes_to_stream(input: K2LangView) -> bool {
    let t0 = input.tokens[0];
    let ty = input.data[0].object_type;
    ||| t0 == "new"@ && ty != "application"@ && ty != "stream"@
    ||| t0 == "delete"@ && ty != "stream"@
    ||| t0 == "add"@ || t0 == "set"@ || t0 == "connect"@ || t0 == "disconnect"@
}

/// The code generator of an application.
pub struct ApplicationCoder {
    application_path: String,
    file_path: String,
    stream_coder: NameMap<StreamerCoder>,
}

/// What one command does to an application's generator: `o` before, `f`
/// after, `r` the answer.
pub open spec fn application_executed(o: ApplicationCoder, input: K2LangView, f: ApplicationCoder, r: Result<String, K2Error>) -> bool {
    let t0 = input.tokens[0];
    let d = input.data[0];
    let ok = r matches Ok(m) && m@ == "Ok"@;
    &&& f.path() == o.path()
    &&& f.file() == o.file()
    &&& if t0 == "new"@ && d.object_type == "application"@ {
        ok && f.keeps(o)
    } else if t0 == "new"@ && d.object_type == "stream"@ {
        if o.coders().contains_key(d.name) {
            (r matches Err(e) && e.code == K2ErrorCode::AlreadyExists && e.message@ == "Coder "@ + d.name
                + " already exists"@) && f.keeps(o)
        } else {
            ok && f.coders() == o.coders().insert(d.name, f.coders()[d.name]) && fresh_stream(
                f.coders()[d.name],
                d.name,
                o.path(),
            ) && f.coder_names() == o.coder_names().push(d.name)
        }
    } else if t0 == "delete"@ && d.object_type == "stream"@ {
        ok && f.coders() == o.coders().remove(d.name) && f.coder_names() == (if o.coders().contains_key(d.name) {
            o.coder_names().remove(o.coder_position(d.name))
        } else {
            o.coder_names()
        })
    } else if goes_to_stream(input) {
        let k = owner_of(d.name);
        if !o.coders().contains_key(k) {
            (r matches Err(e) && e.code == K2ErrorCode::NotFound && e.message@ == "Coder "@ + k
                + " not found"@) && f.keeps(o)
        } else {
            f.coders() == o.coders().insert(k, f.coders()[k]) && f.coder_names() == o.coder_names()
                && streamer_executed(o.coders()[k], input, f.coders()[k], r)
        }
    } else {
        (r matches Err(e) && e.code == K2ErrorCode::InvalidOperation && e.message@ == "Command "@ + t0
            + " not supported"@) && f.keeps(o)
    }
}

impl ApplicationCoder {
    /// Whether it holds what `o` holds: nothing that can be seen of it
    /// differs.
    pub open spec fn keeps(self, o: ApplicationCoder) -> bool {
        &&& self.path() == o.path()
        &&& self.file() == o.file()
        &&& self.coders() == o.coders()
        &&& self.coder_names() == o.coder_names()
    }

    /// The application's directory.
    pub closed spec fn path(&self) -> Seq<char> {
        self.application_path@
    }

    /// The application's main file.
    pub closed spec fn file(&self) -> Seq<char> {
        self.file_path@
    }

    /// Its configuration generators, by stream name.
    pub closed spec fn coders(&self) -> Map<Seq<char>, StreamerCoder> {
        self.stream_coder.as_map()
    }

    /// The names of its streams, in the order they were created.
    pub closed spec fn coder_names(&self) -> Seq<Seq<char>> {
        self.stream_coder.keys_seq()
    }

    /// The position of a stream among the names.
    pub closed spec fn coder_position(&self, n: Seq<char>) -> int {
        self.stream_coder.index_of(n)
    }

    /// Every configuration generator it keeps is well formed.
    #[verifier::type_invariant]
    spec fn streams_well_formed(&self) -> bool {
        forall|k: Seq<char>| #[trigger] self.stream_coder.as_map().contains_key(k) ==> self.stream_coder.as_map()[k].well_formed()
    }

    /// The generator of the application that `object` describes, in the
    /// directory named by its `path` property and its name. Without a
    /// `path` property it is `NotFound`.
    pub fn new(object: &K2LangObject) -> (r: Result<Self, K2Error>)
        ensures
            match project_dir(object@) {
                None => r matches Err(e) && e.code == K2ErrorCode::NotFound && e.message@
                    == "Path properties not found"@,
                Some(p) => r matches Ok(c) && c.path() == p && c.file() == p + "/src/main.rs"@
                    && c.coders() == Map::<Seq<char>, StreamerCoder>::empty() && c.coder_names()
                    == Seq::<Seq<char>>::empty(),
            },
    {
        let application_path = match project_path(object) {
            Ok(p) => p,
            Err(e) => {
                return Err(e);
            },
        };
        let file_path = application_path.clone().concat("/src/main.rs");
        let stream_coder: NameMap<StreamerCoder> = NameMap::new();
        Ok(ApplicationCoder { application_path, file_path, stream_coder })
    }

    /// A generator with no directory and no streams; it stands in for one
    /// that is taken out of a table for a moment.
    pub(crate) fn empty() -> (r: Self)
        ensures
            r.path() == Seq::<char>::empty(),
            r.file() == Seq::<char>::empty(),
            r.coder_names() == Seq::<Seq<char>>::empty(),
            r.coders() == Map::<Seq<char>, StreamerCoder>::empty(),
    {
        let stream_coder: NameMap<StreamerCoder> = NameMap::new();
        let r = ApplicationCoder { application_path: String::new(), file_path: String::new(), stream_coder };
        assert(r.stream_coder.as_map() =~= Map::<Seq<char>, StreamerCoder>::empty());
        r
    }

    /// Hands a command to the configuration generator at position `i`.
    fn run_on(&mut self, i: usize, input: &K2LangStruct) -> (r: Result<String, K2Error>)
        requires
            i < old(self).stream_coder.size(),
            input@.tokens.len() >= 1,
            input@.data.len() >= 1,
            input@.tokens[0] == "add"@ || input@.tokens[0] == "connect"@ || input@.tokens[0]
                == "disconnect"@ ==> input@.data.len() >= 2,
        ensures
            ({
                let k = old(self).coder_names()[i as int];
                &&& final(self).coders() == old(self).coders().insert(k, final(self).coders()[k])
                &&& final(self).coder_names() == old(self).coder_names()
                &&& streamer_executed(old(self).coders()[k], input@, final(self).coders()[k], r)
                &&& r is Err ==> final(self).keeps(*old(self))
            }),
            final(self).path() == old(self).path(),
            final(self).file() == old(self).file(),
    {
        proof {
            use_type_invariant(&*self);
        }
        let ghost k = self.coder_names()[i as int];
        let ghost before = self.stream_coder;
        let mut table = NameMap::new();
        std::mem::swap(&mut table, &mut self.stream_coder);
        let placeholder = StreamerCoder::new(String::new(), String::new());
        let mut sc = table.swap_value(i, placeholder);
        proof {
            assert(before.as_map().contains_key(k));
        }
        let r = sc.execute(input);
        let ghost sv = sc;
        let _ = table.swap_value(i, sc);
        proof {
            assert(table.as_map() =~= before.as_map().insert(k, sv));
            if r is Err {
                assert(table.as_map() =~= before.as_map());
            }
        }
        self.stream_coder = table;
        match r {
            Ok(_) => Ok("Ok".to_owned()),
            Err(e) => Err(e),
        }
    }

    /// Carries out one command on the application. A `new` command for an
    /// application is accepted as it is; `new` and `delete` of a stream add
    /// or forget the stream's configuration generator; every other `new` and
    /// `delete`, and every `add`, `set`, `connect` and `disconnect`, goes to
    /// the generator of the stream that owns the named object. Another
    /// command word is refused.
    pub fn execute(&mut self, input: &K2LangStruct) -> (r: Result<String, K2Error>)
        requires
            input@.tokens.len() >= 1,
            input@.data.len() >= 1,
            input@.tokens[0] == "add"@ || input@.tokens[0] == "connect"@ || input@.tokens[0]
                == "disconnect"@ ==> input@.data.len() >= 2,
            goes_to_stream(input@) ==> split_on(input@.data[0].name, '.').len() >= 2,
        ensures
            application_executed(*old(self), input@, *final(self), r),
    {
        proof {
            lemma_application_words_differ();
            use_type_invariant(&*self);
        }
        assert(input@.tokens[0] == input.tokens@[0]@);
        assert(input@.data[0] == input.data@[0]@);
        let t0 = input.tokens[0].as_str();
        let d0 = &input.data[0];
        let ty = d0.object_type.as_str();
        if str_eq(t0, "new") && str_eq(ty, "application") {
            return Ok("Ok".to_owned());
        }
        if str_eq(t0, "new") && str_eq(ty, "stream") {
            if self.stream_coder.contains_key(d0.name.as_str()) {
                return Err(K2Error { code: K2ErrorCode::AlreadyExists, message: concat3("Coder ", d0.name.as_str(), " already exists") });
            }
            let sc = StreamerCoder::new(d0.name.clone(), self.application_path.clone());
            let ghost before = self.stream_coder;
            let ghost sv = sc;
            let mut table = NameMap::new();
            std::mem::swap(&mut table, &mut self.stream_coder);
            table.insert(d0.name.clone(), sc);
            assert(table.as_map() =~= before.as_map().insert(d0.name@, sv));
            self.stream_coder = table;
            return Ok("Ok".to_owned());
        }
        if str_eq(t0, "delete") && str_eq(ty, "stream") {
            let ghost before = self.stream_coder;
            let mut table = NameMap::new();
            std::mem::swap(&mut table, &mut self.stream_coder);
            let _ = table.remove(d0.name.as_str());
            assert(table.as_map() =~= before.as_map().remove(d0.name@));
            self.stream_coder = table;
            return Ok("Ok".to_owned());
        }
        if str_eq(t0, "new") || str_eq(t0, "delete") || str_eq(t0, "add") || str_eq(t0, "set") || str_eq(t0, "connect")
            || str_eq(t0, "disconnect") {
            let key = owner_name(d0.name.as_str());
            match self.stream_coder.find(key.as_str()) {
                None => Err(K2Error { code: K2ErrorCode::NotFound, message: concat3("Coder ", key.as_str(), " not found") }),
                Some(i) => self.run_on(i, input),
            }
        } else {
            Err(K2Error { code: K2ErrorCode::InvalidOperation, message: concat3("Command ", t0, " not supported") })
        }
    }

    /// Code generation of the application itself writes nothing yet; it
    /// always succeeds.
    pub fn generate(&mut self) -> (r: Result<String, K2Error>)
        ensures
            r matches Ok(m) && m@ == "Ok"@,
            *final(self) == *old(self),
    {
        Ok("Ok".to_owned())
    }
}

/// Deleting a stream that a `new` command has just added gives back the
/// configuration generators, and their order, that the application had
/// before.
pub proof fn law_delete_undoes_new_stream(
    o: ApplicationCoder,
    add: K2LangView,
    m: ApplicationCoder,
    r1: Result<String, K2Error>,
    del: K2LangView,
    f: ApplicationCoder,
    r2: Result<String, K2Error>,
)
    requires
        add.tokens.len() >= 1 && add.data.len() >= 1,
        add.tokens[0] == "new"@,
        add.data[0].object_type == "stream"@,
        !o.coders().contains_key(add.data[0].name),
        application_executed(o, add, m, r1),
        del.tokens.len() >= 1 && del.data.len() >= 1,
        del.tokens[0] == "delete"@,
        del.data[0].object_type == "stream"@,
        del.data[0].name == add.data[0].name,
        application_executed(m, del, f, r2),
    ensures
        f.coders() == o.coders(),
        f.coder_names() == o.coder_names(),
{
    lemma_application_words_differ();
    let n = add.data[0].name;
    assert(m.coders().contains_key(n));
    assert(f.coders() =~= o.coders());
    let keys = m.stream_coder.keys_seq();
    assert(keys == o.stream_coder.keys_seq().push(n));
    let last = o.stream_coder.keys_seq().len() as int;
    assert(keys[last] == n);
    let j = m.stream_coder.index_of(n);
    assert(0 <= j < keys.len() && keys[j] == n);
    if j != last {
        assert(o.stream_coder.keys_seq()[j] == n);
        assert(o.stream_coder.has(n));
    }
    assert(keys.remove(last) =~= o.stream_coder.keys_seq());
}

/// The command words and object types that the application's generator
/// tells apart are distinct.
proof fn lemma_application_words_differ()
    ensures
        "new"@ != "delete"@,
        "new"@ != "add"@,
        "new"@ != "set"@,
        "new"@ != "connect"@,
        "new"@ != "disconnect"@,
        "delete"@ != "add"@,
        "delete"@ != "set"@,
        "delete"@ != "connect"@,
        "delete"@ != "disconnect"@,
        "application"@ != "stream"@,
{
    reveal_strlit("new");
    reveal_strlit("delete");
    reveal_strlit("add");
    reveal_strlit("set");
    reveal_strlit("connect");
    reveal_strlit("disconnect");
    reveal_strlit("application");
    reveal_strlit("stream");
    assert("new"@.len() != "delete"@.len());
    assert("new"@[0] != "add"@[0]);
    assert("new"@[0] != "set"@[0]);
    assert("new"@.len() != "connect"@.len());
    assert("new"@.len() != "disconnect"@.len());
    assert("delete"@.len() != "add"@.len());
    assert("delete"@.len() != "set"@.len());
    assert("delete"@.len() != "connect"@.len());
    assert("delete"@.len() != "disconnect"@.len());
    assert("application"@.len() != "stream"@.len());
}

} // verus!
