//! The code generator of the first form of the language as a processor of
//! the stream: it keeps a generator per library and per application and
//! hands each command to the one it concerns.
use vstd::prelude::*;
use crate::name_map::NameMap;
use crate::text::{str_eq, split_on, split_char, join_dot, lemma_split_nonempty};
use crate::k2_lang::objects::{K2Object, K2ReturnStruct, K2ReturnView};
use crate::k2_stream::processors::ProcessorHeader;
use crate::k2coder::coder::owner_of;
use crate::k2_coder::processor_coder::DeleteStep;
use crate::k2_coder::library_coder::{LibraryCoder, LibraryDelete, library_new_done, library_delete_done, library_set_done, library_file_removed};
use crate::k2_coder::application_coder::{ApplicationCoder, application_new_done, application_delete_done, application_set_done, application_connect_done, application_disconnect_done, main_file_removed};

verus! {

/// The generator of a project: a library's or an application's.
pub enum ProjectCoder {
    Library(LibraryCoder),
    Application(ApplicationCoder),
}

/// What `Coder::execute` leaves to its caller.
pub enum CoderStep {
    /// The answer to send on.
    Reply(Result<String, String>),
    /// Create a library project in the directory `path` with the build
    /// tool, and hand the outcome to `project_created`.
    CreateLibrary { path: String },
    /// Create an application project in the directory `path` with the build
    /// tool, and hand the outcome to `project_created`.
    CreateApplication { path: String },
    /// Remove the file at `path`, and hand whether it was removed to
    /// `file_removed`.
    RemoveFile { path: String },
    /// Remove the project in the directory `path` with the build tool, and
    /// hand the outcome to `project_deleted`.
    DeleteProject { path: String },
}

/// The project that a command naming `t1` goes to: the one named by its
/// first two pieces when there is one, else the one named by its first
/// piece.
pub open spec fn route_key(m: Map<Seq<char>, ProjectCoder>, t1: Seq<char>) -> Option<Seq<char>> {
    let s = split_on(t1, '.');
    if !m.contains_key(s[0]) {
        None
    } else if m.contains_key(owner_of(t1)) {
        Some(owner_of(t1))
    } else {
        Some(s[0])
    }
}

/// Whether a project's generator can carry out a command.
pub open spec fn project_fits(p: ProjectCoder, c: K2ReturnView) -> bool {
    let t0 = c.tokens[0];
    match p {
        ProjectCoder::Library(l) => {
            &&& t0 == "delete"@ && c.data.len() > 0 && split_on(c.data[0].name, '.').len() == 1 ==> split_on(
                c.data[0].name,
                '.',
            )[0] == l.label()
            &&& t0 == "set"@ && c.data.len() > 0 ==> split_on(c.data[0].name, '.').len() >= 2
        },
        ProjectCoder::Application(a) => t0 == "connect"@ ==> a.connections() < usize::MAX,
    }
}

/// What a `new` command does to the project it goes to: `o` before, `f`
/// after, `r` the step.
pub open spec fn project_new_answered(o: ProjectCoder, c: K2ReturnStruct, f: ProjectCoder, r: CoderStep) -> bool {
    match (o, f) {
        (ProjectCoder::Library(a), ProjectCoder::Library(b)) => r matches CoderStep::Reply(x) && library_new_done(a, c, b, x),
        (ProjectCoder::Application(a), ProjectCoder::Application(b)) => r matches CoderStep::Reply(x) && application_new_done(a, c, b, x),
        _ => false,
    }
}

/// What a command other than `new` does to the project it goes to: `o`
/// before, `f` after, `r` the step.
pub open spec fn project_answered(o: ProjectCoder, c: K2ReturnStruct, f: ProjectCoder, r: CoderStep) -> bool {
    let t0 = c@.tokens[0];
    match (o, f) {
        (ProjectCoder::Library(a), ProjectCoder::Library(b)) => if t0 == "add"@ {
            (r matches CoderStep::Reply(Err(m)) && m@ == "Add not applicable to library"@) && b == a
        } else if t0 == "delete"@ {
            match r {
                CoderStep::Reply(Ok(m)) => library_delete_done(a, c, b, Ok(LibraryDelete::Done(m))),
                CoderStep::Reply(Err(e)) => library_delete_done(a, c, b, Err(e)),
                CoderStep::RemoveFile { path } => library_delete_done(a, c, b, Ok(LibraryDelete::RemoveFile(path))),
                CoderStep::DeleteProject { path } => library_delete_done(a, c, b, Ok(LibraryDelete::DeleteProject(path))),
                _ => false,
            }
        } else if t0 == "set"@ {
            r matches CoderStep::Reply(x) && library_set_done(a, c, b, x)
        } else if t0 == "connect"@ {
            (r matches CoderStep::Reply(Err(m)) && m@ == "Connect not applicable to library"@) && b == a
        } else if t0 == "disconnect"@ {
            (r matches CoderStep::Reply(Err(m)) && m@ == "Disconnect not applicable to library"@) && b == a
        } else if t0 == "exec"@ {
            (r matches CoderStep::Reply(Err(m)) && m@ == "Exec not applicable to library"@) && b == a
        } else {
            (r matches CoderStep::Reply(Err(m)) && m@ == "Unknow command"@) && b == a
        },
        (ProjectCoder::Application(a), ProjectCoder::Application(b)) => if t0 == "add"@ {
            (r matches CoderStep::Reply(Ok(m)) && m@ == c@.message) && b == a
        } else if t0 == "delete"@ {
            match r {
                CoderStep::Reply(Ok(m)) => application_delete_done(a, c, b, Ok(DeleteStep::Done(m))),
                CoderStep::Reply(Err(e)) => application_delete_done(a, c, b, Err(e)),
                CoderStep::RemoveFile { path } => application_delete_done(a, c, b, Ok(DeleteStep::RemoveFile(path))),
                _ => false,
            }
        } else if t0 == "set"@ {
            r matches CoderStep::Reply(x) && application_set_done(a, c, b, x)
        } else if t0 == "connect"@ {
            r matches CoderStep::Reply(x) && application_connect_done(a, c, b, x)
        } else if t0 == "disconnect"@ {
            r matches CoderStep::Reply(x) && application_disconnect_done(a, c, b, x)
        } else if t0 == "exec"@ {
            (r matches CoderStep::Reply(Err(m)) && m@ == "Exec not supported by K2Coder"@) && b == a
        } else {
            (r matches CoderStep::Reply(Err(m)) && m@ == "Unknow command"@) && b == a
        },
        _ => false,
    }
}

/// What one command does to the generator: `o` before, `f` after, `r` the
/// step.
pub open spec fn command_executed(o: Coder, c: K2ReturnStruct, f: Coder, r: CoderStep) -> bool {
    &&& f.label() == o.label()
    &&& (({
            let t = c@.tokens;
            if t[0] == "new"@ {
                if t.len() < 3 {
                    (r matches CoderStep::Reply(Err(m)) && m@ == "Wrong argument number"@) && f == o
                } else if o.projects().contains_key(t[2]) {
                    (r matches CoderStep::Reply(Err(m)) && m@ == "Object already present"@) && f == o
                } else if c@.data.len() == 0 {
                    (r matches CoderStep::Reply(Err(m)) && m@ == "Missing objects to create"@) && f == o
                } else if c@.data.len() != 1 {
                    (r matches CoderStep::Reply(Err(m)) && m@ == "Can create one object at time"@) && f == o
                } else if t[1] == "library"@ || t[1] == "application"@ {
                    &&& f == o
                    &&& if !c@.data[0].properties.contains_key("path"@) {
                        r matches CoderStep::Reply(Err(m)) && m@ == "Path not present"@
                    } else if t[1] == "library"@ {
                        r matches CoderStep::CreateLibrary { path } && path@ == c@.data[0].properties["path"@]
                    } else {
                        r matches CoderStep::CreateApplication { path } && path@ == c@.data[0].properties["path"@]
                    }
                } else {
                    let s0 = split_on(t[2], '.')[0];
                    if !o.projects().contains_key(s0) {
                        (r matches CoderStep::Reply(Err(m)) && m@ == "Not valid object"@) && f == o
                    } else {
                        &&& f.projects() == o.projects().insert(s0, f.projects()[s0])
                        &&& f.project_names() == o.project_names()
                        &&& project_new_answered(o.projects()[s0], c, f.projects()[s0], r)
                    }
                }
            } else {
                match route_key(o.projects(), t[1]) {
                    None => (r matches CoderStep::Reply(Err(m)) && m@ == "Not valid object"@) && f == o,
                    Some(k) => {
                        &&& f.projects() == o.projects().insert(k, f.projects()[k])
                        &&& f.project_names() == o.project_names()
                        &&& project_answered(o.projects()[k], c, f.projects()[k], r)
                    },
                }
            }
        }))
}

/// The code generator of the first form of the language.
pub struct Coder {
    pub name: String,
    pub header: ProcessorHeader,
    coder_map: NameMap<ProjectCoder>,
}

impl Coder {
    /// The generator's name.
    pub closed spec fn label(&self) -> Seq<char> {
        self.name@
    }

    /// Its project generators, by project name.
    pub closed spec fn projects(&self) -> Map<Seq<char>, ProjectCoder> {
        self.coder_map.as_map()
    }

    /// The names of its projects, in the order they were created.
    pub closed spec fn project_names(&self) -> Seq<Seq<char>> {
        self.coder_map.keys_seq()
    }

    /// Whether it can carry out a command: the command has a word, a
    /// command other than `new` names an object, and the project it goes
    /// to can carry it out.
    pub open spec fn fits(&self, c: K2ReturnView) -> bool {
        &&& c.tokens.len() >= 1
        &&& c.tokens[0] != "new"@ ==> {
            &&& c.tokens.len() >= 2
            &&& self.projects().contains_key(split_on(c.tokens[1], '.')[0]) ==> {
                &&& split_on(c.tokens[1], '.').len() >= 2
                &&& project_fits(self.projects()[route_key(self.projects(), c.tokens[1])->Some_0], c)
            }
        }
    }

    /// A generator named `name` with no projects.
    pub fn new(name: String) -> (r: Self)
        ensures
            r.label() == name@,
            r.projects() == Map::<Seq<char>, ProjectCoder>::empty(),
            r.project_names() == Seq::<Seq<char>>::empty(),
    {
        let coder_map: NameMap<ProjectCoder> = NameMap::new();
        Coder {
            name,
            header: ProcessorHeader {
                proc_name: "Coder".to_owned(),
                description: "A fake processor with no functionality".to_owned(),
                version: "0.1.0".to_owned(),
                author: "Sofia".to_owned(),
                email: "ms.sofia.silvestri@gmail.com".to_owned(),
                license: "LGPLv2.0".to_owned(),
                repository: "".to_owned(),
            },
            coder_map,
        }
    }

    /// Carries out one command. A `new` command checks its tokens and its
    /// object; a library or an application is left to the caller to create,
    /// as the step says; any other object goes to the project named by the
    /// first piece of its name. Every other command goes to the project
    /// that `route_key` picks; a name that picks none is `Not valid object`.
    pub fn execute(&mut self, c: &K2ReturnStruct) -> (r: CoderStep)
        requires
            old(self).fits(c@),
        ensures
            command_executed(*old(self), *c, *final(self), r),
    {
        proof {
            lemma_coder_words_differ();
        }
        assert(c@.tokens[0] == c.tokens@[0]@);
        let word = c.tokens[0].as_str();
        if str_eq(word, "new") {
            if c.tokens.len() < 3 {
                return CoderStep::Reply(Err("Wrong argument number".to_owned()));
            }
            assert(c@.tokens[1] == c.tokens@[1]@ && c@.tokens[2] == c.tokens@[2]@);
            let object_type = c.tokens[1].as_str();
            let object_name = c.tokens[2].as_str();
            if self.coder_map.contains_key(object_name) {
                return CoderStep::Reply(Err("Object already present".to_owned()));
            }
            if c.data.len() == 0 {
                return CoderStep::Reply(Err("Missing objects to create".to_owned()));
            }
            if c.data.len() != 1 {
                return CoderStep::Reply(Err("Can create one object at time".to_owned()));
            }
            assert(c@.data[0] == c.data@[0]@);
            let object = &c.data[0];
            if str_eq(object_type, "library") || str_eq(object_type, "application") {
                let path = match object.properties.get("path") {
                    Some(p) => p.clone(),
                    None => {
                        return CoderStep::Reply(Err("Path not present".to_owned()));
                    },
                };
                if str_eq(object_type, "library") {
                    CoderStep::CreateLibrary { path }
                } else {
                    CoderStep::CreateApplication { path }
                }
            } else {
                let pieces = split_char(object_name, '.');
                proof {
                    lemma_split_nonempty(object_name@);
                }
                assert(pieces.deep_view()[0] == pieces@[0]@);
                match self.coder_map.find(pieces[0].as_str()) {
                    None => CoderStep::Reply(Err("Not valid object".to_owned())),
                    Some(i) => self.new_answer(i, c),
                }
            }
        } else {
            assert(c@.tokens[1] == c.tokens@[1]@);
            let pieces = split_char(c.tokens[1].as_str(), '.');
            proof {
                lemma_split_nonempty(c@.tokens[1]);
            }
            assert(pieces.deep_view()[0] == pieces@[0]@);
            if !self.coder_map.contains_key(pieces[0].as_str()) {
                return CoderStep::Reply(Err("Not valid object".to_owned()));
            }
            assert(pieces.deep_view()[1] == pieces@[1]@);
            let both = join_dot(pieces[0].as_str(), pieces[1].as_str());
            let key = if self.coder_map.contains_key(both.as_str()) {
                both
            } else {
                pieces[0].clone()
            };
            let i = self.coder_map.find(key.as_str()).unwrap();
            proof {
                self.coder_map.lemma_lengths();
            }
            self.answer(i, c)
        }
    }

    /// Keeps the generator of the library or application that a `new`
    /// command asked for, once its project was created (`outcome` is `Ok`);
    /// a library's processors start from `templates`. A failed creation is
    /// the answer, and so are the checks of the command.
    pub fn project_created(&mut self, c: &K2ReturnStruct, outcome: Result<(), String>, templates: Vec<String>) -> (r: Result<String, String>)
        requires
            templates@.len() == 11,
            c@.tokens.len() >= 3,
            c@.tokens[1] == "library"@ || c@.tokens[1] == "application"@,
        ensures
            final(self).label() == old(self).label(),
            ({
                let t = c@.tokens;
                match outcome {
                    Err(e) => (r matches Err(x) && x@ == e@) && *final(self) == *old(self),
                    Ok(_) => if old(self).projects().contains_key(t[2]) {
                        (r matches Err(m) && m@ == "Object already present"@) && *final(self) == *old(self)
                    } else if c@.data.len() == 0 {
                        (r matches Err(m) && m@ == "Missing objects to create"@) && *final(self) == *old(self)
                    } else if c@.data.len() != 1 {
                        (r matches Err(m) && m@ == "Can create one object at time"@) && *final(self) == *old(self)
                    } else if !c@.data[0].properties.contains_key("path"@) {
                        (r matches Err(m) && m@ == "Path not present"@) && *final(self) == *old(self)
                    } else {
                        let p = c@.data[0].properties["path"@];
                        &&& final(self).projects() == old(self).projects().insert(t[2], final(self).projects()[t[2]])
                        &&& final(self).project_names() == old(self).project_names().push(t[2])
                        &&& if t[1] == "library"@ {
                            &&& r matches Ok(m) && m@ == "Library "@ + t[2] + " successfull created"@
                            &&& final(self).projects()[t[2]] matches ProjectCoder::Library(l) && l.label() == t[2]
                                && l.directory() == p && l.file() == p + "/src/lib.rs"@ && l.templates()
                                == templates.deep_view() && l.processors() == Map::<Seq<char>, crate::k2_coder::processor_coder::ProcessCoder>::empty()
                                && l.processor_names() == Seq::<Seq<char>>::empty()
                        } else {
                            &&& r matches Ok(m) && m@ == "Application "@ + t[2] + " successfull created"@
                            &&& final(self).projects()[t[2]] matches ProjectCoder::Application(a) && a.label() == t[2]
                                && a.directory() == p && a.file() == p + "/src/main.rs"@ && a.streams()
                                == crate::k2_coder::application_coder::Streams::empty() && a.connections() == 0
                        }
                    },
                }
            }),
    {
        proof {
            lemma_coder_words_differ();
        }
        match outcome {
            Err(e) => {
                return Err(e);
            },
            Ok(_) => {},
        }
        assert(c@.tokens[1] == c.tokens@[1]@ && c@.tokens[2] == c.tokens@[2]@);
        let object_type = c.tokens[1].as_str();
        let object_name = c.tokens[2].as_str();
        if self.coder_map.contains_key(object_name) {
            return Err("Object already present".to_owned());
        }
        if c.data.len() == 0 {
            return Err("Missing objects to create".to_owned());
        }
        if c.data.len() != 1 {
            return Err("Can create one object at time".to_owned());
        }
        assert(c@.data[0] == c.data@[0]@);
        let object = &c.data[0];
        let ghost before = self.coder_map;
        if str_eq(object_type, "library") {
            let library = match LibraryCoder::new(c.tokens[2].clone(), object, templates) {
                Ok(l) => l,
                Err(e) => {
                    return Err(e);
                },
            };
            let ghost pv = ProjectCoder::Library(library);
            self.coder_map.insert(c.tokens[2].clone(), ProjectCoder::Library(library));
            assert(self.coder_map.as_map() =~= before.as_map().insert(object_name@, pv));
            Ok(String::from_str("Library ").concat(object_name).concat(" successfull created"))
        } else {
            let application = match ApplicationCoder::new(c.tokens[2].clone(), object) {
                Ok(a) => a,
                Err(e) => {
                    return Err(e);
                },
            };
            let ghost pv = ProjectCoder::Application(application);
            self.coder_map.insert(c.tokens[2].clone(), ProjectCoder::Application(application));
            assert(self.coder_map.as_map() =~= before.as_map().insert(object_name@, pv));
            Ok(String::from_str("Application ").concat(object_name).concat(" successfull created"))
        }
    }

    /// Finishes a `delete` whose step removed a file (`removed`) or failed
    /// to: a library forgets the processor whose source file it was; for an
    /// application it was its main file.
    pub fn file_removed(&mut self, c: &K2ReturnStruct, removed: bool) -> (r: Result<String, String>)
        requires
            c@.tokens.len() >= 2,
            c@.data.len() > 0,
            split_on(c@.tokens[1], '.').len() >= 2,
            route_key(old(self).projects(), c@.tokens[1]) is Some,
        ensures
            final(self).label() == old(self).label(),
            ({
                let k = route_key(old(self).projects(), c@.tokens[1])->Some_0;
                match old(self).projects()[k] {
                    ProjectCoder::Library(l) => final(self).projects()[k] matches ProjectCoder::Library(l2)
                        && library_file_removed(l, *c, removed, l2, r) && final(self).projects()
                        == old(self).projects().insert(k, final(self).projects()[k]) && final(self).project_names()
                        == old(self).project_names(),
                    ProjectCoder::Application(_) => *final(self) == *old(self) && if removed {
                        r matches Ok(m) && m@ == "Object "@ + c@.data[0].name + " created"@
                    } else {
                        r matches Err(m) && m@ == "Error in deleting object file"@
                    },
                }
            }),
    {
        assert(c@.tokens[1] == c.tokens@[1]@);
        assert(c@.data[0] == c.data@[0]@);
        let pieces = split_char(c.tokens[1].as_str(), '.');
        assert(pieces.deep_view()[0] == pieces@[0]@);
        assert(pieces.deep_view()[1] == pieces@[1]@);
        let both = join_dot(pieces[0].as_str(), pieces[1].as_str());
        let key = if self.coder_map.contains_key(both.as_str()) {
            both
        } else {
            pieces[0].clone()
        };
        let i = self.coder_map.find(key.as_str()).unwrap();
        proof {
            self.coder_map.lemma_lengths();
        }
        let is_library = match self.coder_map.value_at(i) {
            ProjectCoder::Library(_) => true,
            ProjectCoder::Application(_) => false,
        };
        if !is_library {
            return main_file_removed(&c.data[0].name, removed);
        }
        let ghost before = self.coder_map;
        let project = self.coder_map.swap_value(i, ProjectCoder::Application(ApplicationCoder::placeholder()));
        let (project, r) = match project {
            ProjectCoder::Library(mut l) => {
                let r = l.processor_file_removed(c, removed);
                (ProjectCoder::Library(l), r)
            },
            ProjectCoder::Application(a) => {
                assert(false);
                (ProjectCoder::Application(a), Err(String::new()))
            },
        };
        let ghost pv = project;
        let _ = self.coder_map.swap_value(i, project);
        assert(self.coder_map.as_map() =~= before.as_map().insert(key@, pv));
        r
    }

    /// Takes one outcome of the parser: a refused command is answered with
    /// its own message; an accepted one is carried out.
    pub fn process(&mut self, c: &K2ReturnStruct) -> (r: CoderStep)
        requires
            c@.success ==> old(self).fits(c@),
        ensures
            !c@.success ==> (r matches CoderStep::Reply(Ok(m)) && m@ == c@.message) && *final(self) == *old(self),
            c@.success ==> command_executed(*old(self), *c, *final(self), r),
    {
        if !c.success {
            return CoderStep::Reply(Ok(c.message.clone()));
        }
        self.execute(c)
    }

    /// Whether it can carry out a command, as `fits` says.
    pub fn accepts(&self, c: &K2ReturnStruct) -> (r: bool)
        ensures
            r == self.fits(c@),
    {
        proof {
            lemma_coder_words_differ();
        }
        if c.tokens.len() < 1 {
            return false;
        }
        assert(c@.tokens[0] == c.tokens@[0]@);
        let word = c.tokens[0].as_str();
        if str_eq(word, "new") {
            return true;
        }
        if c.tokens.len() < 2 {
            return false;
        }
        assert(c@.tokens[1] == c.tokens@[1]@);
        let pieces = split_char(c.tokens[1].as_str(), '.');
        proof {
            lemma_split_nonempty(c@.tokens[1]);
        }
        assert(pieces.deep_view()[0] == pieces@[0]@);
        if !self.coder_map.contains_key(pieces[0].as_str()) {
            return true;
        }
        if pieces.len() < 2 {
            return false;
        }
        assert(pieces.deep_view()[1] == pieces@[1]@);
        let both = join_dot(pieces[0].as_str(), pieces[1].as_str());
        let key = if self.coder_map.contains_key(both.as_str()) {
            both
        } else {
            pieces[0].clone()
        };
        let i = self.coder_map.find(key.as_str()).unwrap();
        proof {
            self.coder_map.lemma_lengths();
        }
        match self.coder_map.value_at(i) {
            ProjectCoder::Library(l) => {
                let deleting = str_eq(word, "delete");
                let setting = str_eq(word, "set");
                if c.data.len() == 0 {
                    return true;
                }
                assert(c@.data[0] == c.data@[0]@);
                let parts = split_char(c.data[0].name.as_str(), '.');
                proof {
                    lemma_split_nonempty(c@.data[0].name);
                }
                assert(parts.deep_view()[0] == parts@[0]@);
                let name = l.get_name();
                let delete_ok = !deleting || parts.len() != 1 || str_eq(parts[0].as_str(), name.as_str());
                let set_ok = !setting || parts.len() >= 2;
                delete_ok && set_ok
            },
            ProjectCoder::Application(a) => !str_eq(word, "connect") || a.connection_count() < usize::MAX,
        }
    }

    /// Hands a `new` command to the project at position `i`.
    fn new_answer(&mut self, i: usize, c: &K2ReturnStruct) -> (r: CoderStep)
        requires
            i < old(self).coder_map.size(),
        ensures
            ({
                let k = old(self).project_names()[i as int];
                &&& final(self).projects() == old(self).projects().insert(k, final(self).projects()[k])
                &&& final(self).project_names() == old(self).project_names()
                &&& project_new_answered(old(self).projects()[k], *c, final(self).projects()[k], r)
            }),
            final(self).label() == old(self).label(),
    {
        let ghost k = self.project_names()[i as int];
        let ghost before = self.coder_map;
        let project = self.coder_map.swap_value(i, ProjectCoder::Application(ApplicationCoder::placeholder()));
        let (project, r) = match project {
            ProjectCoder::Library(mut l) => {
                let r = l.proc_new(c);
                (ProjectCoder::Library(l), CoderStep::Reply(r))
            },
            ProjectCoder::Application(mut a) => {
                let r = a.proc_new(c);
                (ProjectCoder::Application(a), CoderStep::Reply(r))
            },
        };
        let ghost pv = project;
        let _ = self.coder_map.swap_value(i, project);
        assert(self.coder_map.as_map() =~= before.as_map().insert(k, pv));
        r
    }

    /// Hands a command other than `new` to the project at position `i`.
    fn answer(&mut self, i: usize, c: &K2ReturnStruct) -> (r: CoderStep)
        requires
            i < old(self).coder_map.size(),
            c@.tokens.len() >= 1,
            project_fits(old(self).coder_map.vals_seq()[i as int], c@),
        ensures
            ({
                let k = old(self).project_names()[i as int];
                &&& final(self).projects() == old(self).projects().insert(k, final(self).projects()[k])
                &&& final(self).project_names() == old(self).project_names()
                &&& project_answered(old(self).projects()[k], *c, final(self).projects()[k], r)
            }),
            final(self).label() == old(self).label(),
    {
        proof {
            lemma_coder_words_differ();
        }
        let ghost k = self.project_names()[i as int];
        let ghost before = self.coder_map;
        assert(c@.tokens[0] == c.tokens@[0]@);
        let word = c.tokens[0].as_str();
        let project = self.coder_map.swap_value(i, ProjectCoder::Application(ApplicationCoder::placeholder()));
        let (project, r) = match project {
            ProjectCoder::Library(mut l) => {
                let r = if str_eq(word, "add") {
                    CoderStep::Reply(l.proc_add(c))
                } else if str_eq(word, "delete") {
                    match l.proc_delete(c) {
                        Ok(LibraryDelete::Done(m)) => CoderStep::Reply(Ok(m)),
                        Ok(LibraryDelete::RemoveFile(path)) => CoderStep::RemoveFile { path },
                        Ok(LibraryDelete::DeleteProject(path)) => CoderStep::DeleteProject { path },
                        Err(e) => CoderStep::Reply(Err(e)),
                    }
                } else if str_eq(word, "set") {
                    CoderStep::Reply(l.proc_set(c))
                } else if str_eq(word, "connect") {
                    CoderStep::Reply(l.proc_connect(c))
                } else if str_eq(word, "disconnect") {
                    CoderStep::Reply(l.proc_disconnect(c))
                } else if str_eq(word, "exec") {
                    CoderStep::Reply(l.proc_exec(c))
                } else {
                    CoderStep::Reply(Err("Unknow command".to_owned()))
                };
                (ProjectCoder::Library(l), r)
            },
            ProjectCoder::Application(mut a) => {
                let r = if str_eq(word, "add") {
                    CoderStep::Reply(a.proc_add(c))
                } else if str_eq(word, "delete") {
                    match a.proc_delete(c) {
                        Ok(DeleteStep::Done(m)) => CoderStep::Reply(Ok(m)),
                        Ok(DeleteStep::RemoveFile(path)) => CoderStep::RemoveFile { path },
                        Err(e) => CoderStep::Reply(Err(e)),
                    }
                } else if str_eq(word, "set") {
                    CoderStep::Reply(a.proc_set(c))
                } else if str_eq(word, "connect") {
                    CoderStep::Reply(a.proc_connect(c))
                } else if str_eq(word, "disconnect") {
                    CoderStep::Reply(a.proc_disconnect(c))
                } else if str_eq(word, "exec") {
                    CoderStep::Reply(a.proc_exec(c))
                } else {
                    CoderStep::Reply(Err("Unknow command".to_owned()))
                };
                (ProjectCoder::Application(a), r)
            },
        };
        let ghost pv = project;
        let _ = self.coder_map.swap_value(i, project);
        assert(self.coder_map.as_map() =~= before.as_map().insert(k, pv));
        r
    }
}

/// The command words that the generator tells apart are distinct.
proof fn lemma_coder_words_differ()
    ensures
        "add"@ != "delete"@,
        "add"@ != "set"@,
        "add"@ != "connect"@,
        "add"@ != "disconnect"@,
        "add"@ != "exec"@,
        "delete"@ != "set"@,
        "delete"@ != "connect"@,
        "delete"@ != "disconnect"@,
        "delete"@ != "exec"@,
        "set"@ != "connect"@,
        "set"@ != "disconnect"@,
        "set"@ != "exec"@,
        "connect"@ != "disconnect"@,
        "connect"@ != "exec"@,
        "disconnect"@ != "exec"@,
        "new"@ != "add"@,
        "new"@ != "delete"@,
        "new"@ != "set"@,
        "new"@ != "connect"@,
        "new"@ != "disconnect"@,
        "new"@ != "exec"@,
        "library"@ != "application"@,
{
    reveal_strlit("add");
    reveal_strlit("delete");
    reveal_strlit("set");
    reveal_strlit("connect");
    reveal_strlit("disconnect");
    reveal_strlit("exec");
    reveal_strlit("new");
    reveal_strlit("library");
    reveal_strlit("application");
    assert("add"@.len() != "delete"@.len());
    assert("add"@[0] != "set"@[0]);
    assert("add"@.len() != "connect"@.len());
    assert("add"@.len() != "disconnect"@.len());
    assert("add"@.len() != "exec"@.len());
    assert("delete"@.len() != "set"@.len());
    assert("delete"@.len() != "connect"@.len());
    assert("delete"@.len() != "disconnect"@.len());
    assert("delete"@.len() != "exec"@.len());
    assert("set"@.len() != "connect"@.len());
    assert("set"@.len() != "disconnect"@.len());
    assert("set"@.len() != "exec"@.len());
    assert("connect"@.len() != "disconnect"@.len());
    assert("connect"@.len() != "exec"@.len());
    assert("disconnect"@.len() != "exec"@.len());
    assert("new"@[0] != "add"@[0]);
    assert("new"@.len() != "delete"@.len());
    assert("new"@[0] != "set"@[0]);
    assert("new"@.len() != "connect"@.len());
    assert("new"@.len() != "disconnect"@.len());
    assert("new"@.len() != "exec"@.len());
    assert("library"@.len() != "application"@.len());
}

} // verus!
