//! The code generator of the second form of the language as a processor of
//! the stream: it keeps a generator per library and per application and
//! hands each command to the one it concerns. It also holds what the
//! generators share: file names in snake case, the names of the objects
//! that a command goes to, and the directories of projects.
use vstd::prelude::*;
use crate::text::{chars_of, push_char, split_on, split_char, join_dot, concat3, str_eq, lemma_split_nonempty, lemma_first_index, first_index};
use crate::k2_lang::objects::{K2ObjectView, str_map};
use crate::k2lang::objects::{K2LangObject, K2LangStruct, K2LangView, K2LangReturn};
use crate::k2_stream::errors::{K2Error, K2ErrorCode};
use crate::k2_stream::processors::ProcessorHeader;
use crate::name_map::NameMap;
use crate::k2coder::library_coder::{LibraryCoder, library_executed, goes_to_owner};
use crate::k2coder::application_coder::{ApplicationCoder, application_executed, goes_to_stream, fresh_stream};
use crate::k2coder::processor_coder::ProcessorCoder;
use crate::k2coder::streamer_coder::StreamerCoder;

verus! {

/// Whether a character is an ASCII capital letter.
pub open spec fn ascii_upper(c: char) -> bool {
    'A' <= c && c <= 'Z'
}

/// Whether a character is an ASCII small letter.
pub open spec fn ascii_lower(c: char) -> bool {
    'a' <= c && c <= 'z'
}

/// The small letter of an ASCII capital letter.
pub open spec fn lower_of(c: char) -> char {
    ((c as u32) + 32) as char
}

/// The snake-case text after one more character of `s`, at position `i`:
/// a capital letter becomes small, with an underscore before it when it
/// starts a word (a small letter follows it, or the text so far ends in
/// neither a capital letter nor an underscore) and the text so far is not
/// empty.
pub open spec fn snake_step(s: Seq<char>, i: int, acc: Seq<char>) -> Seq<char> {
    let c = s[i];
    if ascii_upper(c) {
        let next_small = i + 1 < s.len() && ascii_lower(s[i + 1]);
        let sep = acc.len() > 0 && (next_small || (!ascii_upper(acc.last()) && acc.last() != '_'));
        (if sep {
            acc.push('_')
        } else {
            acc
        }).push(lower_of(c))
    } else {
        acc.push(c)
    }
}

/// The snake-case text of the first `n` characters of `s`.
pub open spec fn snake_prefix(s: Seq<char>, n: int) -> Seq<char>
    decreases n,
{
    if n <= 0 {
        Seq::empty()
    } else {
        snake_step(s, n - 1, snake_prefix(s, n - 1))
    }
}

/// The snake-case form of a name.
pub open spec fn snake_case(s: Seq<char>) -> Seq<char> {
    snake_prefix(s, s.len() as int)
}

/// The small letter of a capital letter.
fn small_letter(c: char) -> (r: char)
    requires
        ascii_upper(c),
    ensures
        r == lower_of(c),
{
    let v: u8 = c as u8;
    (v + 32) as char
}

/// The snake-case form of a name, as file names are written.
pub fn to_snake_case(s: &String) -> (r: String)
    ensures
        r@ == snake_case(s@),
{
    let chars = chars_of(s.as_str());
    let mut result = String::new();
    let mut last: char = ' ';
    let mut i: usize = 0;
    while i < chars.len()
        invariant
            chars@ == s@,
            i <= chars@.len(),
            result@ == snake_prefix(s@, i as int),
            result@.len() > 0 ==> last == result@.last(),
        decreases chars@.len() - i,
    {
        let c = chars[i];
        if 'A' <= c && c <= 'Z' {
            if result.unicode_len() > 0 {
                let next_small = i + 1 < chars.len() && 'a' <= chars[i + 1] && chars[i + 1] <= 'z';
                if next_small || (!('A' <= last && last <= 'Z') && last != '_') {
                    push_char(&mut result, '_');
                }
            }
            let small = small_letter(c);
            push_char(&mut result, small);
            last = small;
        } else {
            push_char(&mut result, c);
            last = c;
        }
        i = i + 1;
    }
    result
}

/// Whether a text holds no ASCII capital letter.
pub open spec fn no_capitals(s: Seq<char>) -> bool {
    forall|i: int| 0 <= i < s.len() ==> !ascii_upper(#[trigger] s[i])
}

/// The snake-case text of a prefix holds no capital letter.
proof fn lemma_snake_prefix_small(s: Seq<char>, n: int)
    ensures
        no_capitals(snake_prefix(s, n)),
    decreases n,
{
    if n > 0 {
        lemma_snake_prefix_small(s, n - 1);
        let acc = snake_prefix(s, n - 1);
        let c = s[n - 1];
        if ascii_upper(c) {
            assert(!ascii_upper(lower_of(c)));
        }
        let r = snake_prefix(s, n);
        assert forall|i: int| 0 <= i < r.len() implies !ascii_upper(#[trigger] r[i]) by {
            if i < acc.len() {
                assert(r[i] == acc[i]);
            }
        }
    }
}

/// A text without capital letters is its own snake-case prefix.
proof fn lemma_snake_prefix_keeps(s: Seq<char>, n: int)
    requires
        no_capitals(s),
        0 <= n <= s.len(),
    ensures
        snake_prefix(s, n) == s.take(n),
    decreases n,
{
    if n > 0 {
        lemma_snake_prefix_keeps(s, n - 1);
        assert(!ascii_upper(s[n - 1]));
        assert(s.take(n) =~= s.take(n - 1).push(s[n - 1]));
    } else {
        assert(s.take(0) =~= Seq::<char>::empty());
    }
}

/// The snake-case form holds no capital letter, so it is its own
/// snake-case form.
pub proof fn law_snake_case_idempotent(s: Seq<char>)
    ensures
        no_capitals(snake_case(s)),
        snake_case(snake_case(s)) == snake_case(s),
{
    let t = snake_case(s);
    lemma_snake_prefix_small(s, s.len() as int);
    lemma_snake_prefix_keeps(t, t.len() as int);
    assert(t.take(t.len() as int) =~= t);
}


/// A text with every ASCII capital letter made small.
pub open spec fn lower_all(s: Seq<char>) -> Seq<char> {
    s.map_values(|c: char| if ascii_upper(c) { lower_of(c) } else { c })
}

/// A text without its underscores.
pub open spec fn without_underscores(s: Seq<char>) -> Seq<char>
    decreases s.len(),
{
    if s.len() == 0 {
        Seq::empty()
    } else {
        let r = without_underscores(s.drop_last());
        if s.last() == '_' {
            r
        } else {
            r.push(s.last())
        }
    }
}

/// Without underscores, the snake-case text of a prefix is the prefix with
/// its capitals made small, without underscores.
proof fn lemma_snake_prefix_marks(s: Seq<char>, n: int)
    requires
        0 <= n <= s.len(),
    ensures
        without_underscores(snake_prefix(s, n)) == without_underscores(lower_all(s).take(n)),
        n > 0 ==> snake_prefix(s, n).len() > 0 && snake_prefix(s, n)[0] == lower_all(s)[0],
    decreases n,
{
    if n > 0 {
        lemma_snake_prefix_marks(s, n - 1);
        let acc = snake_prefix(s, n - 1);
        let c = s[n - 1];
        let l = lower_all(s);
        assert(l.take(n).drop_last() =~= l.take(n - 1));
        assert(l.take(n).last() == l[n - 1]);
        let r = snake_prefix(s, n);
        if ascii_upper(c) {
            let next_small = n < s.len() && ascii_lower(s[n]);
            let sep = acc.len() > 0 && (next_small || (!ascii_upper(acc.last()) && acc.last() != '_'));
            let mid = if sep { acc.push('_') } else { acc };
            assert(r == mid.push(lower_of(c)));
            assert(r.drop_last() =~= mid);
            assert(lower_of(c) != '_');
            if sep {
                assert(mid.drop_last() =~= acc);
            }
            assert(without_underscores(mid) == without_underscores(acc));
            if n == 1 {
                assert(acc.len() == 0);
                assert(r[0] == lower_of(c));
            } else {
                assert(r[0] == acc[0]);
            }
        } else {
            assert(r == acc.push(c));
            assert(r.drop_last() =~= acc);
            if n > 1 {
                assert(r[0] == acc[0]);
            }
        }
    } else {
        assert(lower_all(s).take(0) =~= Seq::<char>::empty());
    }
}

/// The snake-case form differs from the name only by capitals made small
/// and underscores put in: without underscores, both are the same text.
/// It starts with an underscore only where the name does.
pub proof fn law_snake_case_only_lowers_and_marks(s: Seq<char>)
    ensures
        without_underscores(snake_case(s)) == without_underscores(lower_all(s)),
        snake_case(s).len() > 0 && snake_case(s)[0] == '_' ==> s[0] == '_',
{
    lemma_snake_prefix_marks(s, s.len() as int);
    assert(lower_all(s).take(s.len() as int) =~= lower_all(s));
    if s.len() > 0 && ascii_upper(s[0]) {
        assert(lower_of(s[0]) != '_');
    }
}

/// The object that a dotted name belongs to: its first two pieces, joined
/// by a dot again.
pub open spec fn owner_of(n: Seq<char>) -> Seq<char> {
    let p = split_on(n, '.');
    p[0] + seq!['.'] + p[1]
}

/// The first two pieces of a dotted name, joined by a dot.
pub fn owner_name(n: &str) -> (r: String)
    requires
        split_on(n@, '.').len() >= 2,
    ensures
        r@ == owner_of(n@),
{
    let pieces = split_char(n, '.');
    assert(pieces.deep_view()[0] == pieces@[0]@);
    assert(pieces.deep_view()[1] == pieces@[1]@);
    join_dot(pieces[0].as_str(), pieces[1].as_str())
}

/// A name of two pieces is its own owner.
pub proof fn lemma_owner_of_pair(n: Seq<char>)
    requires
        split_on(n, '.').len() == 2,
    ensures
        owner_of(n) == n,
{
    lemma_first_index(n, '.');
    let i = first_index(n, '.');
    assert(i < n.len());
    let rest = n.skip(i + 1);
    assert(split_on(n, '.') == seq![n.take(i)] + split_on(rest, '.'));
    assert(split_on(rest, '.').len() == 1);
    lemma_first_index(rest, '.');
    let k = first_index(rest, '.');
    if k < rest.len() {
        lemma_split_nonempty(rest.skip(k + 1));
        assert(split_on(rest, '.') == seq![rest.take(k)] + split_on(rest.skip(k + 1), '.'));
    }
    assert(split_on(rest, '.') == seq![rest]);
    assert(split_on(n, '.')[0] == n.take(i));
    assert(split_on(n, '.')[1] == rest);
    assert(n.take(i) + seq!['.'] + rest =~= n);
}

/// The directory of the project that an object describes: its `path`
/// property joined with its name.
pub open spec fn project_dir(o: K2ObjectView) -> Option<Seq<char>> {
    if o.properties.contains_key("path"@) {
        Some(o.properties["path"@] + "/"@ + o.name)
    } else {
        None
    }
}

/// The directory of the project that an object describes, or `NotFound`
/// when it has no `path` property.
pub fn project_path(object: &K2LangObject) -> (r: Result<String, K2Error>)
    ensures
        match project_dir(object@) {
            Some(p) => r matches Ok(s) && s@ == p,
            None => r matches Err(e) && e.code == K2ErrorCode::NotFound && e.message@
                == "Path properties not found"@,
        },
{
    match object.properties.get("path") {
        Some(p) => {
            assert(str_map(object.properties).contains_key("path"@));
            Ok(concat3(p.as_str(), "/", object.name.as_str()))
        },
        None => Err(K2Error::new(K2ErrorCode::NotFound, "Path properties not found")),
    }
}

/// The generator of a project: a library's or an application's.
pub enum ProjectCoder {
    Library(LibraryCoder),
    Application(ApplicationCoder),
}

/// The kind of project that a command asks to create.
#[derive(Debug, Clone, Copy, PartialEq, Eq, Structural)]
pub enum ProjectKind {
    Library,
    Application,
}

/// What `Coder::process` leaves to its caller.
pub enum CoderStep {
    /// The answer to send on.
    Reply(Result<String, K2Error>),
    /// Create the project of this kind in the directory `path` with the
    /// build tool, add the framework's dependencies to it, and hand the
    /// outcome to `project_created`.
    CreateProject { kind: ProjectKind, path: String },
}

/// Whether a name has no dot: it names a project itself.
pub open spec fn top_level(n: Seq<char>) -> bool {
    split_on(n, '.')[0] == n
}

/// Whether a library's generator can carry out a command.
pub open spec fn library_fits(input: K2LangView) -> bool {
    &&& input.tokens[0] == "set"@ || input.tokens[0] == "code"@ ==> input.tokens.len() >= 4
    &&& goes_to_owner(input) ==> split_on(input.data[0].name, '.').len() >= 2
}

/// Whether an application's generator can carry out a command.
pub open spec fn application_fits(input: K2LangView) -> bool {
    &&& input.tokens[0] == "add"@ || input.tokens[0] == "connect"@ || input.tokens[0] == "disconnect"@
        ==> input.data.len() >= 2
    &&& goes_to_stream(input) ==> split_on(input.data[0].name, '.').len() >= 2
}

/// Whether a project's generator can carry out a command.
pub open spec fn project_fits(c: ProjectCoder, input: K2LangView) -> bool {
    match c {
        ProjectCoder::Library(_) => library_fits(input),
        ProjectCoder::Application(_) => application_fits(input),
    }
}

/// What one command does to a project's generator: `o` before, `f` after,
/// `r` the answer.
pub open spec fn project_executed(o: ProjectCoder, input: K2LangView, f: ProjectCoder, r: Result<String, K2Error>) -> bool {
    match (o, f) {
        (ProjectCoder::Library(a), ProjectCoder::Library(b)) => library_executed(a, input, b, r),
        (ProjectCoder::Application(a), ProjectCoder::Application(b)) => application_executed(a, input, b, r),
        _ => false,
    }
}

/// The kind of project that the object of a creating command describes.
pub open spec fn kind_of(ty: Seq<char>) -> ProjectKind {
    if ty == "library"@ {
        ProjectKind::Library
    } else {
        ProjectKind::Application
    }
}

/// What a new project's generator holds once it has carried out the command
/// that created it.
pub open spec fn created_project(c: ProjectCoder, input: K2LangView, p: Seq<char>, t: Seq<Seq<char>>) -> bool {
    let d = input.data[0];
    match c {
        ProjectCoder::Library(l) => d.object_type == "library"@ && l.path() == p && l.file() == p + "/src/lib.rs"@
            && l.templates() == t && l.coders() == Map::<Seq<char>, ProcessorCoder>::empty() && l.coder_names()
            == Seq::<Seq<char>>::empty(),
        ProjectCoder::Application(a) => d.object_type != "library"@ && a.path() == p && a.file() == p
            + "/src/main.rs"@ && if d.object_type == "stream"@ {
            a.coders().dom() == set![d.name] && fresh_stream(a.coders()[d.name], d.name, p) && a.coder_names()
                == seq![d.name]
        } else {
            a.coders() == Map::<Seq<char>, StreamerCoder>::empty() && a.coder_names() == Seq::<Seq<char>>::empty()
        },
    }
}

/// The code generator of the second form of the language: it keeps a
/// generator per library and per application, and hands each command to
/// the project it concerns.
pub struct Coder {
    pub name: String,
    pub header: ProcessorHeader,
    coder_map: NameMap<ProjectCoder>,
}

impl Coder {
    /// The generator's name.
    pub closed spec fn label(&self) -> Seq<char> {
        self.name@
    }

    /// Its project generators, by project name.
    pub closed spec fn projects(&self) -> Map<Seq<char>, ProjectCoder> {
        self.coder_map.as_map()
    }

    /// The names of its projects, in the order they were created.
    pub closed spec fn project_names(&self) -> Seq<Seq<char>> {
        self.coder_map.keys_seq()
    }

    /// Whether it can carry out a command: the command has a word and an
    /// object, and the project it goes to can carry it out.
    pub open spec fn fits(&self, input: K2LangView) -> bool {
        &&& input.tokens.len() >= 1
        &&& input.data.len() >= 1
        &&& {
            let n = input.data[0].name;
            let s0 = split_on(n, '.')[0];
            if top_level(n) && input.tokens[0] == "new"@ {
                !self.projects().contains_key(n) && input.data[0].object_type != "library"@ ==> application_fits(input)
            } else {
                self.projects().contains_key(s0) ==> project_fits(self.projects()[s0], input)
            }
        }
    }

    /// A generator named `name` with no projects.
    pub fn new(name: String) -> (r: Self)
        ensures
            r.label() == name@,
            r.projects() == Map::<Seq<char>, ProjectCoder>::empty(),
            r.project_names() == Seq::<Seq<char>>::empty(),
    {
        let coder_map: NameMap<ProjectCoder> = NameMap::new();
        Coder {
            name,
            header: ProcessorHeader {
                proc_name: "Coder".to_owned(),
                description: "A fake processor with no functionality".to_owned(),
                version: "0.1.0".to_owned(),
                author: "Sofia".to_owned(),
                email: "ms.sofia.silvestri@gmail.com".to_owned(),
                license: "LGPLv2.0".to_owned(),
                repository: "".to_owned(),
            },
            coder_map,
        }
    }
    /// Hands a command to the project generator at position `i`.
    fn run_project(&mut self, i: usize, input: &K2LangStruct) -> (r: Result<String, K2Error>)
        requires
            i < old(self).coder_map.size(),
            input@.tokens.len() >= 1,
            input@.data.len() >= 1,
            project_fits(old(self).coder_map.vals_seq()[i as int], input@),
        ensures
            ({
                let k = old(self).project_names()[i as int];
                &&& final(self).projects() == old(self).projects().insert(k, final(self).projects()[k])
                &&& final(self).project_names() == old(self).project_names()
                &&& project_executed(old(self).projects()[k], input@, final(self).projects()[k], r)
            }),
            final(self).label() == old(self).label(),
    {
        let ghost k = self.project_names()[i as int];
        let ghost before = self.coder_map;
        let placeholder = ProjectCoder::Application(ApplicationCoder::empty());
        let project = self.coder_map.swap_value(i, placeholder);
        let (project, r) = match project {
            ProjectCoder::Library(mut l) => {
                let r = l.execute(input);
                (ProjectCoder::Library(l), r)
            },
            ProjectCoder::Application(mut a) => {
                let r = a.execute(input);
                (ProjectCoder::Application(a), r)
            },
        };
        let ghost pv = project;
        let _ = self.coder_map.swap_value(i, project);
        assert(self.coder_map.as_map() =~= before.as_map().insert(k, pv));
        r
    }

    /// Takes one result of the language's stages. An error passes through
    /// as the answer. A command that creates a library or an application (a
    /// `new` whose object's name has no dot) is checked: a name already
    /// taken is `AlreadyExists`, an object without a `path` property is
    /// `NotFound`; otherwise the caller creates the project as the step
    /// says. Any other command goes to the project named by the first piece
    /// of its object's name (`NotFound` when there is none), and that
    /// project's answer is the reply. An error of this step is the
    /// processor's own: no answer goes out for it.
    pub fn process(&mut self, command_input: &K2LangReturn) -> (r: Result<CoderStep, K2Error>)
        requires
            command_input matches Ok(input) ==> old(self).fits(input@),
        ensures
            final(self).label() == old(self).label(),
            match *command_input {
                Err(e) => (r matches Ok(CoderStep::Reply(Err(x))) && x.code == e.code && x.message@ == e.message@)
                    && *final(self) == *old(self),
                Ok(input) => {
                    let n = input@.data[0].name;
                    let s0 = split_on(n, '.')[0];
                    if top_level(n) && input@.tokens[0] == "new"@ {
                        &&& *final(self) == *old(self)
                        &&& if old(self).projects().contains_key(n) {
                            r matches Err(e) && e.code == K2ErrorCode::AlreadyExists && e.message@ == "Coder "@ + n
                                + " already exists"@
                        } else {
                            match project_dir(input@.data[0]) {
                                None => r matches Err(e) && e.code == K2ErrorCode::NotFound && e.message@
                                    == "Path properties not found"@,
                                Some(p) => r matches Ok(CoderStep::CreateProject { kind, path }) && kind == kind_of(
                                    input@.data[0].object_type,
                                ) && path@ == p,
                            }
                        }
                    } else if !old(self).projects().contains_key(s0) {
                        (r matches Err(e) && e.code == K2ErrorCode::NotFound && e.message@ == "Coder "@ + s0
                            + " not found"@) && *final(self) == *old(self)
                    } else {
                        r matches Ok(CoderStep::Reply(a)) && final(self).projects() == old(self).projects().insert(
                            s0,
                            final(self).projects()[s0],
                        ) && final(self).project_names() == old(self).project_names() && project_executed(
                            old(self).projects()[s0],
                            input@,
                            final(self).projects()[s0],
                            a,
                        )
                    }
                },
            },
    {
        proof {
            reveal_strlit("library");
        }
        let input = match command_input {
            Err(e) => {
                return Ok(CoderStep::Reply(Err(K2Error { code: e.code, message: e.message.clone() })));
            },
            Ok(input) => input,
        };
        assert(input@.tokens[0] == input.tokens@[0]@);
        assert(input@.data[0] == input.data@[0]@);
        let d0 = &input.data[0];
        let pieces = split_char(d0.name.as_str(), '.');
        proof {
            lemma_split_nonempty(d0.name@);
        }
        assert(pieces.deep_view()[0] == pieces@[0]@);
        let s0 = pieces[0].as_str();
        if str_eq(s0, d0.name.as_str()) && str_eq(input.tokens[0].as_str(), "new") {
            if self.coder_map.contains_key(d0.name.as_str()) {
                return Err(K2Error { code: K2ErrorCode::AlreadyExists, message: concat3("Coder ", d0.name.as_str(), " already exists") });
            }
            let path = match project_path(d0) {
                Ok(p) => p,
                Err(e) => {
                    return Err(e);
                },
            };
            let kind = if str_eq(d0.object_type.as_str(), "library") {
                ProjectKind::Library
            } else {
                ProjectKind::Application
            };
            return Ok(CoderStep::CreateProject { kind, path });
        }
        match self.coder_map.find(s0) {
            None => Err(K2Error { code: K2ErrorCode::NotFound, message: concat3("Coder ", s0, " not found") }),
            Some(i) => {
                proof {
                    self.coder_map.lemma_lengths();
                }
                let a = self.run_project(i, input);
                Ok(CoderStep::Reply(a))
            },
        }
    }

    /// Keeps the generator of the project that a creating command asked
    /// for, once the project exists (`outcome` is `Ok`), and lets it carry
    /// out the command; a library's processors start from `templates`. A
    /// failed creation is the error of this step, and so are a name taken
    /// in the meantime and an object without a `path` property.
    pub fn project_created(&mut self, input: &K2LangStruct, outcome: Result<(), K2Error>, templates: Vec<String>) -> (r: Result<Result<String, K2Error>, K2Error>)
        requires
            templates@.len() == 12,
            old(self).fits(input@),
            top_level(input@.data[0].name),
            input@.tokens[0] == "new"@,
        ensures
            final(self).label() == old(self).label(),
            ({
                let d = input@.data[0];
                match outcome {
                    Err(e) => (r matches Err(x) && x.code == e.code && x.message@ == e.message@) && *final(self)
                        == *old(self),
                    Ok(_) => if old(self).projects().contains_key(d.name) {
                        (r matches Err(e) && e.code == K2ErrorCode::AlreadyExists && e.message@ == "Coder "@
                            + d.name + " already exists"@) && *final(self) == *old(self)
                    } else {
                        match project_dir(d) {
                            None => (r matches Err(e) && e.code == K2ErrorCode::NotFound && e.message@
                                == "Path properties not found"@) && *final(self) == *old(self),
                            Some(p) => (r matches Ok(Ok(m)) && m@ == "Ok"@) && final(self).projects()
                                == old(self).projects().insert(d.name, final(self).projects()[d.name])
                                && created_project(final(self).projects()[d.name], input@, p, templates.deep_view())
                                && final(self).project_names() == old(self).project_names().push(d.name),
                        }
                    },
                }
            }),
    {
        proof {
            reveal_strlit("library");
            reveal_strlit("application");
            reveal_strlit("stream");
            reveal_strlit("new");
            reveal_strlit("set");
            reveal_strlit("code");
            reveal_strlit("delete");
            assert("new"@.len() != "delete"@.len());
            assert("new"@[0] != "set"@[0]);
            assert("new"@.len() != "code"@.len());
            assert("library"@.len() != "application"@.len());
            assert("library"@.len() != "stream"@.len());
        }
        match outcome {
            Err(e) => {
                return Err(K2Error { code: e.code, message: e.message.clone() });
            },
            Ok(_) => {},
        }
        assert(input@.tokens[0] == input.tokens@[0]@);
        assert(input@.data[0] == input.data@[0]@);
        let d0 = &input.data[0];
        if self.coder_map.contains_key(d0.name.as_str()) {
            return Err(K2Error { code: K2ErrorCode::AlreadyExists, message: concat3("Coder ", d0.name.as_str(), " already exists") });
        }
        let ghost before = self.coder_map;
        let ghost tv = templates.deep_view();
        let project = if str_eq(d0.object_type.as_str(), "library") {
            let mut l = match LibraryCoder::new(d0, templates) {
                Ok(l) => l,
                Err(e) => {
                    return Err(e);
                },
            };
            let _ = l.execute(input);
            ProjectCoder::Library(l)
        } else {
            let mut a = match ApplicationCoder::new(d0) {
                Ok(a) => a,
                Err(e) => {
                    return Err(e);
                },
            };
            proof {
                if d0.object_type@ != "application"@ && d0.object_type@ != "stream"@ {
                    lemma_split_first_shorter(d0.name@);
                }
            }
            let _ = a.execute(input);
            proof {
                if d0.object_type@ == "stream"@ {
                    assert(a.coders().dom() =~= set![d0.name@]);
                }
            }
            ProjectCoder::Application(a)
        };
        let ghost pv = project;
        self.coder_map.insert(d0.name.clone(), project);
        assert(self.coder_map.as_map() =~= before.as_map().insert(d0.name@, pv));
        Ok(Ok("Ok".to_owned()))
    }

    /// Whether it can carry out a command, as `fits` says.
    pub fn accepts(&self, input: &K2LangStruct) -> (r: bool)
        ensures
            r == self.fits(input@),
    {
        if input.tokens.len() < 1 || input.data.len() < 1 {
            return false;
        }
        assert(input@.tokens[0] == input.tokens@[0]@);
        assert(input@.data[0] == input.data@[0]@);
        let d0 = &input.data[0];
        let pieces = split_char(d0.name.as_str(), '.');
        proof {
            lemma_split_nonempty(d0.name@);
        }
        assert(pieces.deep_view()[0] == pieces@[0]@);
        let s0 = pieces[0].as_str();
        let dotted = pieces.len() >= 2;
        if str_eq(s0, d0.name.as_str()) && str_eq(input.tokens[0].as_str(), "new") {
            if self.coder_map.contains_key(d0.name.as_str()) || str_eq(d0.object_type.as_str(), "library") {
                true
            } else {
                fits_application(input, dotted)
            }
        } else {
            match self.coder_map.get(s0) {
                None => true,
                Some(ProjectCoder::Library(_)) => fits_library(input, dotted),
                Some(ProjectCoder::Application(_)) => fits_application(input, dotted),
            }
        }
    }
}

/// Whether a library's generator can carry out a command, given whether the
/// name of its object has a dot.
fn fits_library(input: &K2LangStruct, dotted: bool) -> (r: bool)
    requires
        input@.tokens.len() >= 1,
        input@.data.len() >= 1,
        dotted == (split_on(input@.data[0].name, '.').len() >= 2),
    ensures
        r == library_fits(input@),
{
    assert(input@.tokens[0] == input.tokens@[0]@);
    assert(input@.data[0] == input.data@[0]@);
    let t0 = input.tokens[0].as_str();
    let ty = input.data[0].object_type.as_str();
    let long_enough = !(str_eq(t0, "set") || str_eq(t0, "code")) || input.tokens.len() >= 4;
    let owner = (str_eq(t0, "new") && !str_eq(ty, "library") && !str_eq(ty, "processor")) || (str_eq(t0, "delete")
        && !str_eq(ty, "processor")) || str_eq(t0, "set");
    long_enough && (!owner || dotted)
}

/// Whether an application's generator can carry out a command, given
/// whether the name of its object has a dot.
fn fits_application(input: &K2LangStruct, dotted: bool) -> (r: bool)
    requires
        input@.tokens.len() >= 1,
        input@.data.len() >= 1,
        dotted == (split_on(input@.data[0].name, '.').len() >= 2),
    ensures
        r == application_fits(input@),
{
    assert(input@.tokens[0] == input.tokens@[0]@);
    assert(input@.data[0] == input.data@[0]@);
    let t0 = input.tokens[0].as_str();
    let ty = input.data[0].object_type.as_str();
    let enough_data = !(str_eq(t0, "add") || str_eq(t0, "connect") || str_eq(t0, "disconnect")) || input.data.len()
        >= 2;
    let stream = (str_eq(t0, "new") && !str_eq(ty, "application") && !str_eq(ty, "stream")) || (str_eq(t0, "delete")
        && !str_eq(ty, "stream")) || str_eq(t0, "add") || str_eq(t0, "set") || str_eq(t0, "connect") || str_eq(
        t0,
        "disconnect",
    );
    enough_data && (!stream || dotted)
}

/// A dotted name is longer than its first piece.
proof fn lemma_split_first_shorter(n: Seq<char>)
    requires
        split_on(n, '.').len() >= 2,
    ensures
        split_on(n, '.')[0].len() < n.len(),
{
    lemma_first_index(n, '.');
}

} // verus!
