//! The code generator of a library in the first form of the language: it
//! keeps one processor generator per processor of the library and hands
//! each command to the one it concerns.
use vstd::prelude::*;
use crate::name_map::NameMap;
use crate::text::{str_eq, split_on, split_char, concat3, join_with, join_strings};
use crate::k2_lang::objects::{K2Object, K2ReturnStruct, Table};
use crate::k2coder::coder::{owner_of, owner_name};
use crate::k2coder::library_coder::module_lines;
use crate::k2_coder::processor_coder::{ProcessCoder, DeleteStep, member_added, member_deleted, value_set, source_generated, member_lines, member_code};

verus! {

/// What holds of a processor generator kept under the name `k`: it is the
/// generator of `k`, a name of two pieces, it has its eleven parts and its
/// source file, and each of its members has a name of three pieces.
pub open spec fn processor_fits(p: ProcessCoder, k: Seq<char>) -> bool {
    &&& p.label() == k
    &&& split_on(k, '.').len() == 2
    &&& p.part_count() == 11
    &&& p.file() is Some
    &&& forall|m: Seq<char>| #[trigger] p.members().contains_key(m) ==> split_on(m, '.').len() == 3
}

/// A processor generator as the library in `dir` makes it for the
/// processor `n`, from the templates `t`.
pub open spec fn fresh_process(c: ProcessCoder, n: Seq<char>, dir: Seq<char>, t: Seq<Seq<char>>) -> bool {
    &&& c.label() == n
    &&& c.file() == Some(dir + "/"@ + n + ".rs"@)
    &&& c.members() == Table::empty()
    &&& c.member_names() == Seq::<Seq<char>>::empty()
    &&& c.part_count() == 11
    &&& forall|i: int| 0 <= i < 11 ==> #[trigger] c.code(i) == t[i]
}

/// What deleting from a library asks for next: nothing but the message,
/// the removal of a processor's source file, or the removal of the whole
/// project.
pub enum LibraryDelete {
    Done(String),
    RemoveFile(String),
    DeleteProject(String),
}

/// What a `new` command does to a library's generator: `o` before, `f`
/// after, `r` the answer.
pub open spec fn library_new_done(o: LibraryCoder, c: K2ReturnStruct, f: LibraryCoder, r: Result<String, String>) -> bool {
    &&& f.label() == o.label()
    &&& f.directory() == o.directory()
    &&& f.file() == o.file()
    &&& f.templates() == o.templates()
    &&& c@.data.len() == 0 ==> (r matches Err(m) && m@ == "Missing data"@) && f.keeps(o)
    &&& (c@.data.len() > 0 ==> ({
            let d = c@.data[0];
            let n = d.name;
            let p = split_on(n, '.');
            if d.object_type == "processor"@ {
                if o.processors().contains_key(n) {
                    (r matches Err(m) && m@ == "Object already exist"@) && f.keeps(o)
                } else if p.len() != 2 {
                    (r matches Err(m) && m@ == "Invalid object name"@) && f.keeps(o)
                } else {
                    (r matches Ok(m) && m@ == "Processor "@ + n + " successfull created"@)
                        && f.processors() == o.processors().insert(n, f.processors()[n])
                        && fresh_process(f.processors()[n], n, o.directory(), o.templates())
                        && f.processor_names() == o.processor_names().push(n)
                }
            } else if p.len() != 3 {
                (r matches Err(m) && m@ == "Invalid object name"@) && f.keeps(o)
            } else if !o.processors().contains_key(owner_of(n)) {
                (r matches Err(m) && m@ == "Processor "@ + owner_of(n) + " not present"@) && f.keeps(o)
            } else {
                f.processors() == o.processors().insert(owner_of(n), f.processors()[owner_of(n)])
                    && f.processor_names() == o.processor_names() && member_added(
                    o.processors()[owner_of(n)],
                    c,
                    f.processors()[owner_of(n)],
                    r,
                )
            }
        }))
}

/// What a `delete` command does to a library's generator: `o` before, `f`
/// after, `r` the answer.
pub open spec fn library_delete_done(o: LibraryCoder, c: K2ReturnStruct, f: LibraryCoder, r: Result<LibraryDelete, String>) -> bool {
    &&& f.label() == o.label()
    &&& f.directory() == o.directory()
    &&& f.file() == o.file()
    &&& f.templates() == o.templates()
    &&& c@.data.len() == 0 ==> (r matches Err(m) && m@ == "Missing data"@) && f.keeps(o)
    &&& (c@.data.len() > 0 ==> ({
            let n = c@.data[0].name;
            let k = owner_of(n);
            if split_on(n, '.').len() == 1 {
                if o.processor_names().len() == 0 {
                    (r matches Ok(LibraryDelete::DeleteProject(x)) && x@ == o.directory()) && f.keeps(o)
                } else {
                    (r matches Err(m) && m@ == "Object "@ + n + " not found"@) && f.keeps(o)
                }
            } else if !o.processors().contains_key(k) {
                (r matches Err(m) && m@ == "Processor "@ + k + " not found"@) && f.keeps(o)
            } else if n == k {
                (r matches Ok(LibraryDelete::RemoveFile(x)) && Some(x@) == o.processors()[k].file())
                    && f.keeps(o)
            } else if !o.processors()[k].members().contains_key(n) {
                (r matches Err(m) && m@ == "Object "@ + n + " not found"@) && f.keeps(o)
            } else {
                let po = o.processors()[k];
                let pf = f.processors()[k];
                &&& r matches Ok(LibraryDelete::Done(m)) && m@ == "Object "@ + n + " deleted with success"@
                &&& f.processors() == o.processors().insert(k, pf).remove(n)
                &&& f.processor_names() == (if o.processors().contains_key(n) {
                    o.processor_names().remove(o.processor_position(n))
                } else {
                    o.processor_names()
                })
                &&& pf.members() == po.members().remove(n)
                &&& pf.member_names() == po.member_names().remove(po.member_position(n))
                &&& pf.label() == po.label() && pf.file() == po.file() && pf.part_count() == po.part_count()
                &&& forall|i: int| #[trigger] pf.code(i) == po.code(i)
            }
        }))
}

/// What a `set` command does to a library's generator: `o` before, `f`
/// after, `r` the answer.
pub open spec fn library_set_done(o: LibraryCoder, c: K2ReturnStruct, f: LibraryCoder, r: Result<String, String>) -> bool {
    &&& f.label() == o.label()
    &&& f.directory() == o.directory()
    &&& f.file() == o.file()
    &&& f.templates() == o.templates()
    &&& c@.data.len() == 0 ==> (r matches Err(m) && m@ == "Missing data"@) && f.keeps(o)
    &&& (c@.data.len() > 0 ==> ({
            let k = owner_of(c@.data[0].name);
            if !o.processors().contains_key(k) {
                (r matches Err(m) && m@ == "Processor "@ + k + " not found"@) && f.keeps(o)
            } else {
                f.processors() == o.processors().insert(k, f.processors()[k])
                    && f.processor_names() == o.processor_names() && value_set(
                    o.processors()[k],
                    c,
                    f.processors()[k],
                    r,
                )
            }
        }))
}

/// What the removal of a processor's source file, or its failure, does to
/// a library's generator: `o` before, `f` after, `r` the answer.
pub open spec fn library_file_removed(o: LibraryCoder, c: K2ReturnStruct, removed: bool, f: LibraryCoder, r: Result<String, String>) -> bool {
    &&& f.label() == o.label()
    &&& f.directory() == o.directory()
    &&& f.file() == o.file()
    &&& f.templates() == o.templates()
    &&& (removed ==> (r matches Ok(m) && m@ == "Object "@ + c@.data[0].name + " deleted with success"@)
            && f.processors() == o.processors().remove(c@.data[0].name)
            && f.processor_names() == (if o.processors().contains_key(c@.data[0].name) {
            o.processor_names().remove(o.processor_position(c@.data[0].name))
        } else {
            o.processor_names()
        }))
    &&& !removed ==> (r matches Err(m) && m@ == "Error in deleting object file"@) && f.keeps(o)
}

/// The code generator of a library.
pub struct LibraryCoder {
    name: String,
    library_path: String,
    path: String,
    templates: Vec<String>,
    processors: NameMap<ProcessCoder>,
}

impl LibraryCoder {
    /// Whether it holds what `o` holds: nothing that can be seen of it
    /// differs.
    pub open spec fn keeps(self, o: LibraryCoder) -> bool {
        &&& self.label() == o.label()
        &&& self.directory() == o.directory()
        &&& self.file() == o.file()
        &&& self.templates() == o.templates()
        &&& self.processors() == o.processors()
        &&& self.processor_names() == o.processor_names()
    }

    /// The library's name.
    pub closed spec fn label(&self) -> Seq<char> {
        self.name@
    }

    /// The library's directory.
    pub closed spec fn directory(&self) -> Seq<char> {
        self.library_path@
    }

    /// The library's root module file.
    pub closed spec fn file(&self) -> Seq<char> {
        self.path@
    }

    /// The templates its processors start from.
    pub closed spec fn templates(&self) -> Seq<Seq<char>> {
        self.templates.deep_view()
    }

    /// Its processor generators, by processor name.
    pub closed spec fn processors(&self) -> Map<Seq<char>, ProcessCoder> {
        self.processors.as_map()
    }

    /// The names of its processors, in the order they were created.
    pub closed spec fn processor_names(&self) -> Seq<Seq<char>> {
        self.processors.keys_seq()
    }

    /// The position of a processor among the names.
    pub closed spec fn processor_position(&self, n: Seq<char>) -> int {
        self.processors.index_of(n)
    }

    /// It has a template for each part, and each processor generator fits
    /// the name it is kept under.
    #[verifier::type_invariant]
    spec fn consistent(&self) -> bool {
        &&& self.templates@.len() == 11
        &&& forall|k: Seq<char>| #[trigger] self.processors.as_map().contains_key(k) ==> processor_fits(
            self.processors.as_map()[k],
            k,
        )
    }

    /// The generator of the library `name` that `object` describes, in the
    /// directory its `path` property names; its processors will start from
    /// `templates`.
    pub fn new(name: String, object: &K2Object, templates: Vec<String>) -> (r: Result<Self, String>)
        requires
            templates@.len() == 11,
        ensures
            !object@.properties.contains_key("path"@) ==> (r matches Err(m) && m@ == "Path not present"@),
            object@.properties.contains_key("path"@) ==> (r matches Ok(c) && c.label() == name@ && c.directory()
                == object@.properties["path"@] && c.file() == object@.properties["path"@] + "/src/lib.rs"@
                && c.templates() == templates.deep_view() && c.processors() == Map::<Seq<char>, ProcessCoder>::empty()
                && c.processor_names() == Seq::<Seq<char>>::empty()),
    {
        let path = match object.properties.get("path") {
            Some(p) => p.clone(),
            None => {
                return Err("Path not present".to_owned());
            },
        };
        let processors: NameMap<ProcessCoder> = NameMap::new();
        let mut instance = LibraryCoder { name, library_path: path.clone(), path: path.clone(), templates, processors };
        instance.set_parent_directory(path);
        Ok(instance)
    }

    /// The library's name.
    pub fn get_name(&self) -> (r: String)
        ensures
            r@ == self.label(),
    {
        self.name.clone()
    }

    /// The path of its root module file.
    pub fn get_path(&self) -> (r: String)
        ensures
            r@ == self.file(),
    {
        self.path.clone()
    }

    /// Puts its root module file under the directory `path`.
    pub fn set_parent_directory(&mut self, path: String)
        ensures
            final(self).file() == path@ + "/src/lib.rs"@,
            final(self).label() == old(self).label(),
            final(self).directory() == old(self).directory(),
            final(self).templates() == old(self).templates(),
            final(self).processors() == old(self).processors(),
            final(self).processor_names() == old(self).processor_names(),
    {
        proof {
            use_type_invariant(&*self);
        }
        self.path = path.concat("/src/lib.rs");
    }

    /// Adds the processor that a `new` command carries, or hands a `new`
    /// command for a member to the generator of the processor that owns it.
    pub fn proc_new(&mut self, k2_struct: &K2ReturnStruct) -> (r: Result<String, String>)
        ensures
            library_new_done(*old(self), *k2_struct, *final(self), r),
    {
        proof {
            use_type_invariant(&*self);
            lemma_processor_word();
        }
        if k2_struct.data.len() == 0 {
            return Err("Missing data".to_owned());
        }
        assert(k2_struct@.data[0] == k2_struct.data@[0]@);
        let object = &k2_struct.data[0];
        let object_name = object.name.as_str();
        let split_name = split_char(object_name, '.');
        let ghost before = self.processors;
        if str_eq(object.object_type.as_str(), "processor") {
            if self.processors.contains_key(object_name) {
                return Err("Object already exist".to_owned());
            }
            if split_name.len() != 2 {
                return Err("Invalid object name".to_owned());
            }
            let mut coder = match ProcessCoder::new(object.name.clone(), object, &self.templates) {
                Ok(c) => c,
                Err(e) => {
                    return Err(e);
                },
            };
            coder.set_parent_directory(self.library_path.clone());
            let ghost cv = coder;
            let mut table = NameMap::new();
            std::mem::swap(&mut table, &mut self.processors);
            table.insert(object.name.clone(), coder);
            assert(table.as_map() =~= before.as_map().insert(object.name@, cv));
            self.processors = table;
            return Ok(concat3("Processor ", object_name, " successfull created"));
        }
        if split_name.len() != 3 {
            return Err("Invalid object name".to_owned());
        }
        let processor_name = owner_name(object_name);
        let i = match self.processors.find(processor_name.as_str()) {
            Some(i) => i,
            None => {
                return Err(concat3("Processor ", processor_name.as_str(), " not present"));
            },
        };
        proof {
            before.lemma_lengths();
        }
        let mut table = NameMap::new();
        std::mem::swap(&mut table, &mut self.processors);
        let mut coder = table.swap_value(i, ProcessCoder::placeholder());
        let r = coder.proc_new(k2_struct);
        let ghost cv = coder;
        proof {
            let old_c = before.as_map()[processor_name@];
            assert(before.as_map().contains_key(processor_name@));
            assert(processor_fits(old_c, processor_name@));
            assert forall|m: Seq<char>| #[trigger] cv.members().contains_key(m) implies split_on(m, '.').len() == 3 by {
                if m != object.name@ {
                    assert(old_c.members().contains_key(m));
                }
            }
        }
        let _ = table.swap_value(i, coder);
        assert(table.as_map() =~= before.as_map().insert(processor_name@, cv));
        self.processors = table;
        r
    }

    /// Deletes what a `delete` command names: the library itself, whose
    /// project is then to be removed once no processor generator refuses
    /// it; a processor, whose source file is then to be removed; or a
    /// member of a processor.
    pub fn proc_delete(&mut self, k2_struct: &K2ReturnStruct) -> (r: Result<LibraryDelete, String>)
        requires
            k2_struct@.data.len() > 0 && split_on(k2_struct@.data[0].name, '.').len() == 1 ==> split_on(
                k2_struct@.data[0].name,
                '.',
            )[0] == old(self).label(),
        ensures
            library_delete_done(*old(self), *k2_struct, *final(self), r),
    {
        proof {
            use_type_invariant(&*self);
        }
        if k2_struct.data.len() == 0 {
            return Err("Missing data".to_owned());
        }
        assert(k2_struct@.data[0] == k2_struct.data@[0]@);
        let object = &k2_struct.data[0];
        let object_name = object.name.as_str();
        let split_name = split_char(object_name, '.');
        let ghost before = self.processors;
        proof {
            before.lemma_lengths();
        }
        if split_name.len() == 1 {
            if self.processors.len() == 0 {
                return Ok(LibraryDelete::DeleteProject(self.library_path.clone()));
            }
            let mut table = NameMap::new();
            std::mem::swap(&mut table, &mut self.processors);
            let mut coder = table.swap_value(0, ProcessCoder::placeholder());
            proof {
                let k0 = before.keys_seq()[0];
                assert(before.as_map().contains_key(k0));
                assert(processor_fits(coder, k0));
                if coder.members().contains_key(object.name@) {
                    assert(split_on(object.name@, '.').len() == 3);
                }
            }
            let r = coder.proc_delete(k2_struct);
            let ghost cv = coder;
            let _ = table.swap_value(0, coder);
            assert(table.as_map() =~= before.as_map());
            self.processors = table;
            return match r {
                Err(e) => Err(e),
                Ok(_) => {
                    assert(false);
                    Err(String::new())
                },
            };
        }
        let processor_name = owner_name(object_name);
        let i = match self.processors.find(processor_name.as_str()) {
            Some(i) => i,
            None => {
                return Err(concat3("Processor ", processor_name.as_str(), " not found"));
            },
        };
        let mut table = NameMap::new();
        std::mem::swap(&mut table, &mut self.processors);
        let mut coder = table.swap_value(i, ProcessCoder::placeholder());
        proof {
            assert(before.as_map().contains_key(processor_name@));
            assert(processor_fits(coder, processor_name@));
        }
        let r = coder.proc_delete(k2_struct);
        let ghost cv = coder;
        proof {
            assert forall|m: Seq<char>| #[trigger] cv.members().contains_key(m) implies split_on(m, '.').len() == 3 by {
                assert(before.as_map()[processor_name@].members().contains_key(m));
            }
        }
        let _ = table.swap_value(i, coder);
        assert(table.as_map() =~= before.as_map().insert(processor_name@, cv));
        match r {
            Ok(DeleteStep::RemoveFile(f)) => {
                assert(table.as_map() =~= before.as_map());
                self.processors = table;
                Ok(LibraryDelete::RemoveFile(f))
            },
            Ok(DeleteStep::Done(_)) => {
                let ghost mid = table;
                let _ = table.remove(object_name);
                assert(table.as_map() =~= mid.as_map().remove(object.name@));
                self.processors = table;
                Ok(LibraryDelete::Done(concat3("Object ", object_name, " deleted with success")))
            },
            Err(e) => {
                assert(table.as_map() =~= before.as_map());
                self.processors = table;
                Err(e)
            },
        }
    }

    /// Forgets the processor that a `delete` command named once its source
    /// file was removed (`removed`); otherwise nothing changes.
    pub fn processor_file_removed(&mut self, k2_struct: &K2ReturnStruct, removed: bool) -> (r: Result<String, String>)
        requires
            k2_struct@.data.len() > 0,
        ensures
            library_file_removed(*old(self), *k2_struct, removed, *final(self), r),
    {
        proof {
            use_type_invariant(&*self);
        }
        if !removed {
            return Err("Error in deleting object file".to_owned());
        }
        assert(k2_struct@.data[0] == k2_struct.data@[0]@);
        let object_name = k2_struct.data[0].name.as_str();
        let ghost before = self.processors;
        let mut table = NameMap::new();
        std::mem::swap(&mut table, &mut self.processors);
        let _ = table.remove(object_name);
        assert(table.as_map() =~= before.as_map().remove(object_name@));
        self.processors = table;
        Ok(concat3("Object ", object_name, " deleted with success"))
    }

    /// Hands a `set` command to the generator of the processor that owns
    /// the named object.
    pub fn proc_set(&mut self, k2_struct: &K2ReturnStruct) -> (r: Result<String, String>)
        requires
            k2_struct@.data.len() > 0 ==> split_on(k2_struct@.data[0].name, '.').len() >= 2,
        ensures
            library_set_done(*old(self), *k2_struct, *final(self), r),
    {
        proof {
            use_type_invariant(&*self);
        }
        if k2_struct.data.len() == 0 {
            return Err("Missing data".to_owned());
        }
        assert(k2_struct@.data[0] == k2_struct.data@[0]@);
        let object_name = k2_struct.data[0].name.as_str();
        let processor_name = owner_name(object_name);
        let i = match self.processors.find(processor_name.as_str()) {
            Some(i) => i,
            None => {
                return Err(concat3("Processor ", processor_name.as_str(), " not found"));
            },
        };
        let ghost before = self.processors;
        proof {
            before.lemma_lengths();
        }
        let mut table = NameMap::new();
        std::mem::swap(&mut table, &mut self.processors);
        let mut coder = table.swap_value(i, ProcessCoder::placeholder());
        let r = coder.proc_set(k2_struct);
        let ghost cv = coder;
        proof {
            let old_c = before.as_map()[processor_name@];
            assert(before.as_map().contains_key(processor_name@));
            assert(processor_fits(old_c, processor_name@));
            assert forall|m: Seq<char>| #[trigger] cv.members().contains_key(m) implies split_on(m, '.').len() == 3 by {
                assert(old_c.members().contains_key(m));
            }
        }
        let _ = table.swap_value(i, coder);
        assert(table.as_map() =~= before.as_map().insert(processor_name@, cv));
        self.processors = table;
        r
    }

    /// Generates the source of each processor, in the order they were
    /// created, and the library's root module with one `pub mod` line per
    /// processor. The first processor whose members cannot be written stops
    /// it with its error; the processors before it keep their regenerated
    /// member-creation part. On success the answer is the root module's
    /// text and, per processor, its source file and source text.
    pub fn generate(&mut self) -> (r: Result<(String, Vec<(String, String)>), String>)
        ensures
            final(self).label() == old(self).label(),
            final(self).directory() == old(self).directory(),
            final(self).file() == old(self).file(),
            final(self).templates() == old(self).templates(),
            final(self).processor_names() == old(self).processor_names(),
            final(self).processors().dom() == old(self).processors().dom(),
            ({
                let names = old(self).processor_names();
                let j = generation_stop(names, old(self).processors(), 0);
                &&& forall|i: int| 0 <= i < j ==> #[trigger] regenerated(old(self).processors()[names[i]], final(self).processors()[names[i]])
                &&& forall|i: int| j <= i < names.len() ==> #[trigger] final(self).processors()[names[i]] == old(self).processors()[names[i]]
                &&& if j < names.len() {
                    r matches Err(e) && e@ == member_lines(
                        old(self).processors()[names[j]].member_names(),
                        old(self).processors()[names[j]].members(),
                    )->Err_0
                } else {
                    &&& r matches Ok((text, files))
                    &&& text@ == join_with(module_lines(names), "\n"@)
                    &&& files@.len() == names.len()
                    &&& forall|i: int| 0 <= i < names.len() ==> Some((#[trigger] files@[i]).0@) == old(self).processors()[names[i]].file()
                        && source_generated(old(self).processors()[names[i]], final(self).processors()[names[i]], Ok(files@[i].1))
                }
            }),
    {
        proof {
            use_type_invariant(&*self);
        }
        let ghost before = self.processors;
        let ghost names = before.keys_seq();
        proof {
            before.lemma_lengths();
        }
        let mut table = NameMap::new();
        std::mem::swap(&mut table, &mut self.processors);
        let mut lib_code: Vec<String> = Vec::new();
        let mut files: Vec<(String, String)> = Vec::new();
        let n = table.len();
        let mut i: usize = 0;
        while i < n
            invariant
                i <= n,
                n == names.len(),
                table.keys_seq() == names,
                table.vals_seq().len() == n,
                before.keys_seq() == names,
                forall|k: Seq<char>| #[trigger] before.as_map().contains_key(k) ==> processor_fits(before.as_map()[k], k),
                generation_stop(names, before.as_map(), 0) == generation_stop(names, before.as_map(), i as int),
                table.as_map().dom() == before.as_map().dom(),
                forall|q: int| 0 <= q < i ==> #[trigger] source_generated(before.as_map()[names[q]], table.as_map()[names[q]], Ok(files@[q].1)),
                forall|q: int| 0 <= q < i ==> Some((#[trigger] files@[q]).0@) == before.as_map()[names[q]].file(),
                forall|q: int| i <= q < n ==> #[trigger] table.as_map()[names[q]] == before.as_map()[names[q]],
                forall|k: Seq<char>| #[trigger] table.as_map().contains_key(k) ==> processor_fits(table.as_map()[k], k),
                files@.len() == i,
                lib_code.deep_view() == module_lines(names.take(i as int)),
                before == old(self).processors,
                self.name == old(self).name,
                self.library_path == old(self).library_path,
                self.path == old(self).path,
                self.templates == old(self).templates,
                self.templates@.len() == 11,
            decreases n - i,
        {
            let ghost k = names[i as int];
            let ghost t0 = table;
            let ghost files0 = files@;
            assert(table.as_map().contains_key(k)) by {
                assert(before.as_map().contains_key(k));
            }
            let mut coder = table.swap_value(i, ProcessCoder::placeholder());
            assert(processor_fits(coder, k));
            let name = coder.get_name();
            let generated = coder.generate();
            let ghost cv = coder;
            let path = coder.get_path();
            proof {
                assert forall|m: Seq<char>| #[trigger] cv.members().contains_key(m) implies split_on(m, '.').len() == 3 by {
                    assert(before.as_map()[k].members().contains_key(m));
                }
            }
            let ghost mid = table;
            let _ = table.swap_value(i, coder);
            proof {
                assert(processor_fits(cv, k));
                assert forall|x: Seq<char>| #[trigger] table.as_map().contains_key(x) implies processor_fits(table.as_map()[x], x) by {
                    if x != k {
                        assert(mid.as_map().contains_key(x));
                    }
                }
            }
            match generated {
                Ok(text) => {
                    let ghost tv = text;
                    files.push((path, text));
                    proof {
                        assert forall|q: int| 0 <= q < i + 1 implies #[trigger] source_generated(before.as_map()[names[q]], table.as_map()[names[q]], Ok(files@[q].1)) by {
                            if q < i {
                                assert(names[q] != k);
                                assert(table.as_map()[names[q]] == t0.as_map()[names[q]]);
                                assert(files@[q] == files0[q]);
                                assert(source_generated(before.as_map()[names[q]], t0.as_map()[names[q]], Ok(files0[q].1)));
                            } else {
                                assert(files@[q].1 == tv);
                            }
                        }
                    }
                    let ghost prev = lib_code.deep_view();
                    let line = String::from_str("pub mod ").concat(name.as_str());
                    let ghost lv = line@;
                    lib_code.push(line);
                    assert(lib_code.deep_view() =~= prev.push(lv));
                    assert(names.take(i + 1) =~= names.take(i as int).push(k));
                    assert(module_lines(names.take(i + 1)) =~= module_lines(names.take(i as int)).push("pub mod "@ + k));
                    i = i + 1;
                },
                Err(e) => {
                    proof {
                        assert(member_lines(before.as_map()[k].member_names(), before.as_map()[k].members()) is Err);
                        assert(generation_stop(names, before.as_map(), i as int) == i);
                        assert forall|q: int| 0 <= q < i implies #[trigger] regenerated(before.as_map()[names[q]], table.as_map()[names[q]]) by {
                            assert(names[q] != k);
                            lemma_generated_is_regenerated(before.as_map()[names[q]], mid.as_map()[names[q]], files@[q].1);
                        }
                        assert forall|q: int| i <= q < n implies #[trigger] table.as_map()[names[q]] == before.as_map()[names[q]] by {
                            if q != i {
                                assert(names[q] != k);
                            }
                        }
                    }
                    self.processors = table;
                    return Err(e);
                },
            }
        }
        proof {
            assert forall|q: int| 0 <= q < n implies #[trigger] regenerated(before.as_map()[names[q]], table.as_map()[names[q]]) by {
                lemma_generated_is_regenerated(before.as_map()[names[q]], table.as_map()[names[q]], files@[q].1);
            }
        }
        self.processors = table;
        assert(names.take(n as int) =~= names);
        Ok((join_strings(&lib_code, "\n"), files))
    }

    /// Refuses an `add` command.
    pub fn proc_add(&mut self, _k2_struct: &K2ReturnStruct) -> (r: Result<String, String>)
        ensures
            r matches Err(m) && m@ == "Add not applicable to library"@,
            *final(self) == *old(self),
    {
        Err("Add not applicable to library".to_owned())
    }

    /// Refuses a `connect` command.
    pub fn proc_connect(&mut self, _k2_struct: &K2ReturnStruct) -> (r: Result<String, String>)
        ensures
            r matches Err(m) && m@ == "Connect not applicable to library"@,
            *final(self) == *old(self),
    {
        Err("Connect not applicable to library".to_owned())
    }

    /// Refuses a `disconnect` command.
    pub fn proc_disconnect(&mut self, _k2_struct: &K2ReturnStruct) -> (r: Result<String, String>)
        ensures
            r matches Err(m) && m@ == "Disconnect not applicable to library"@,
            *final(self) == *old(self),
    {
        Err("Disconnect not applicable to library".to_owned())
    }

    /// Refuses an `exec` command.
    pub fn proc_exec(&mut self, _k2_struct: &K2ReturnStruct) -> (r: Result<String, String>)
        ensures
            r matches Err(m) && m@ == "Exec not applicable to library"@,
            *final(self) == *old(self),
    {
        Err("Exec not applicable to library".to_owned())
    }
}

/// The answer once the library's project was removed with the build tool,
/// or the tool's error.
pub fn project_deleted(object_name: &String, outcome: Result<(), String>) -> (r: Result<String, String>)
    ensures
        match outcome {
            Ok(_) => r matches Ok(m) && m@ == "Object "@ + object_name@ + " deleted with success"@,
            Err(e) => r matches Err(x) && x@ == e@,
        },
{
    match outcome {
        Ok(_) => Ok(concat3("Object ", object_name.as_str(), " deleted with success")),
        Err(e) => Err(e),
    }
}

/// The position, from `i` on, of the first processor whose members cannot
/// be written; the number of processors when there is none.
pub open spec fn generation_stop(names: Seq<Seq<char>>, ps: Map<Seq<char>, ProcessCoder>, i: int) -> int
    decreases names.len() - i,
{
    if i < 0 || i >= names.len() {
        names.len() as int
    } else if member_lines(ps[names[i]].member_names(), ps[names[i]].members()) is Err {
        i
    } else {
        generation_stop(names, ps, i + 1)
    }
}

/// A processor generator whose member-creation part was written again from
/// its members, and nothing else changed.
pub open spec fn regenerated(o: ProcessCoder, f: ProcessCoder) -> bool {
    &&& member_lines(o.member_names(), o.members()) is Ok
    &&& f.code(5) == member_code(member_lines(o.member_names(), o.members())->Ok_0)
    &&& forall|i: int| i != 5 ==> #[trigger] f.code(i) == o.code(i)
    &&& f.part_count() == 11
    &&& f.label() == o.label()
    &&& f.file() == o.file()
    &&& f.members() == o.members()
    &&& f.member_names() == o.member_names()
}

/// A processor generator whose source was generated had its member-creation
/// part written again.
proof fn lemma_generated_is_regenerated(o: ProcessCoder, f: ProcessCoder, t: String)
    requires
        source_generated(o, f, Ok(t)),
    ensures
        regenerated(o, f),
{
}

/// Removing the source file of a processor that a `new` command has just
/// added, and forgetting it, gives back the processors, and their order,
/// that the library had before.
pub proof fn law_removal_undoes_new_processor(
    o: LibraryCoder,
    add: K2ReturnStruct,
    m: LibraryCoder,
    r1: Result<String, String>,
    del: K2ReturnStruct,
    f: LibraryCoder,
    r2: Result<String, String>,
)
    requires
        add@.data.len() >= 1,
        add@.data[0].object_type == "processor"@,
        split_on(add@.data[0].name, '.').len() == 2,
        !o.processors().contains_key(add@.data[0].name),
        library_new_done(o, add, m, r1),
        del@.data.len() >= 1,
        del@.data[0].name == add@.data[0].name,
        library_file_removed(m, del, true, f, r2),
    ensures
        f.processors() == o.processors(),
        f.processor_names() == o.processor_names(),
{
    lemma_processor_word();
    let n = add@.data[0].name;
    assert(m.processors().contains_key(n));
    assert(f.processors() =~= o.processors());
    let keys = m.processors.keys_seq();
    assert(keys == o.processors.keys_seq().push(n));
    let last = o.processors.keys_seq().len() as int;
    assert(keys[last] == n);
    let j = m.processors.index_of(n);
    assert(0 <= j < keys.len() && keys[j] == n);
    if j != last {
        assert(o.processors.keys_seq()[j] == n);
        assert(o.processors.has(n));
    }
    assert(keys.remove(last) =~= o.processors.keys_seq());
}

/// The word `processor` has a length of its own among the object types.
proof fn lemma_processor_word()
    ensures
        "processor"@.len() == 9,
{
    reveal_strlit("processor");
}

} // verus!
