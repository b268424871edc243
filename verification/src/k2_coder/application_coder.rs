//! The code generator of an application in the first form of the language:
//! it keeps the objects of each stream of the application and records the
//! connections between their ports.
use vstd::prelude::*;
use crate::name_map::NameMap;
use crate::text::{str_eq, split_on, split_char, concat3, rsplit_once, rsplit_once_spec};
use crate::k2_lang::objects::{K2Object, K2ObjectView, K2ReturnStruct, Table, table_view, table_insert, table_remove, table_get, table_has, str_map, with_prop, add_prop};
use crate::k2coder::coder::{owner_of, owner_name, lemma_owner_of_pair};
use crate::k2_coder::processor_coder::DeleteStep;
use crate::numbers::{nat_text, usize_text};

verus! {

/// The objects of each stream, by stream name.
pub type Streams = Map<Seq<char>, Table>;

/// The streams of a table of tables.
pub open spec fn streams_view(m: NameMap<NameMap<K2Object>>) -> Streams {
    Map::new(|k: Seq<char>| m.as_map().contains_key(k), |k: Seq<char>| table_view(m.as_map()[k]))
}

/// What a `new` command does to the streams: a name of two pieces is a
/// stream, one of three an object of the stream its first two pieces name.
pub open spec fn app_new_result(s: Streams, d: K2ObjectView) -> Result<Streams, Seq<char>> {
    let n = d.name;
    let p = split_on(n, '.');
    if p.len() == 2 {
        if s.contains_key(n) {
            Err("Object "@ + n + " already exists"@)
        } else {
            Ok(s.insert(n, Map::empty()))
        }
    } else if p.len() == 3 {
        let k = owner_of(n);
        if !s.contains_key(k) {
            Err("Stream "@ + k + " does not exists"@)
        } else if s[k].contains_key(n) {
            Err("Object "@ + n + " already exists"@)
        } else {
            Ok(s.insert(k, s[k].insert(n, d)))
        }
    } else {
        Err("Not valid name"@)
    }
}

/// What a `delete` command does to the streams (`None`: the application's
/// main file is to be removed).
pub open spec fn app_delete_result(s: Streams, label: Seq<char>, d: K2ObjectView) -> Result<Option<Streams>, Seq<char>> {
    let n = d.name;
    let p = split_on(n, '.');
    if p.len() == 1 {
        if n != label {
            Err(label + " can not delete "@ + n)
        } else {
            Ok(None)
        }
    } else if p.len() == 2 {
        Ok(Some(s.remove(owner_of(n))))
    } else if p.len() == 3 {
        let k = owner_of(n);
        if !s.contains_key(k) {
            Err("Stream "@ + k + " does not exists"@)
        } else {
            Ok(Some(s.insert(k, s[k].remove(n))))
        }
    } else {
        Err("Invalid name format"@)
    }
}

/// The stream and the processor that a `connect` command records its
/// connection in, or the message it is refused with.
pub open spec fn connect_target(s: Streams, tokens: Seq<Seq<char>>, data: Seq<K2ObjectView>) -> Result<(Seq<char>, Seq<char>), Seq<char>> {
    if tokens.len() != 3 {
        Err("Wrong parameter number"@)
    } else if data.len() == 0 {
        Err("Missing source"@)
    } else if data[0].object_type != "output"@ {
        Err(tokens[1] + " is not an output"@)
    } else if data.len() < 2 {
        Err("Missing destination"@)
    } else if data[1].object_type != "input"@ {
        Err(tokens[2] + " is not an input"@)
    } else {
        match (rsplit_once_spec(tokens[1], '.'), rsplit_once_spec(tokens[2], '.')) {
            (Some((pf, _)), Some((pt, _))) => match (rsplit_once_spec(pf, '.'), rsplit_once_spec(pt, '.')) {
                (Some((sf, _)), Some((st, _))) => if sf != st {
                    Err("Connection are allowed only inside same stream"@)
                } else if !s.contains_key(sf) {
                    Err("Stream "@ + sf + " not found"@)
                } else if !s[sf].contains_key(pf) {
                    Err("Processor "@ + pf + " not found"@)
                } else if !s[sf].contains_key(pt) {
                    Err("Processor "@ + pt + " not found"@)
                } else {
                    Ok((sf, pf))
                },
                _ => Err("Split err"@),
            },
            _ => Err("Split err"@),
        }
    }
}

/// The stream and the processor whose connections a `disconnect` command
/// changes, or the message it is refused with.
pub open spec fn disconnect_target(s: Streams, tokens: Seq<Seq<char>>) -> Result<(Seq<char>, Seq<char>), Seq<char>> {
    if tokens.len() != 3 {
        Err("Wrong parameter number"@)
    } else {
        match rsplit_once_spec(tokens[1], '.') {
            None => Err("Split err"@),
            Some((pf, _)) => match rsplit_once_spec(pf, '.') {
                None => Err("Split err"@),
                Some((sf, _)) => if !s.contains_key(sf) {
                    Err("Stream "@ + sf + " not found"@)
                } else if !s[sf].contains_key(pf) {
                    Err("Processor "@ + pf + " not found"@)
                } else {
                    Ok((sf, pf))
                },
            },
        }
    }
}

/// The properties whose value is `v`.
pub open spec fn only_value(m: Map<Seq<char>, Seq<char>>, v: Seq<char>) -> Map<Seq<char>, Seq<char>> {
    Map::new(|k: Seq<char>| m.contains_key(k) && m[k] == v, |k: Seq<char>| m[k])
}

/// The text of a connection between two ports.
pub open spec fn connection_text(from: Seq<char>, to: Seq<char>) -> Seq<char> {
    from + "-"@ + to
}

/// What a `new` command does to an application's generator: `o` before,
/// `f` after, `r` the answer.
pub open spec fn application_new_done(o: ApplicationCoder, c: K2ReturnStruct, f: ApplicationCoder, r: Result<String, String>) -> bool {
    &&& c@.data.len() == 0 ==> (r matches Err(m) && m@ == "Missing data"@) && f == o
    &&& (c@.data.len() > 0 ==> match app_new_result(o.streams(), c@.data[0]) {
            Err(m) => (r matches Err(x) && x@ == m) && f == o,
            Ok(s) => (r matches Ok(x) && x@ == "Object "@ + c@.data[0].name + " created"@)
                && f.streams() == s && f.label() == o.label()
                && f.directory() == o.directory() && f.file() == o.file()
                && f.connections() == o.connections(),
        })
}

/// What a `delete` command does to an application's generator: `o`
/// before, `f` after, `r` the answer.
pub open spec fn application_delete_done(o: ApplicationCoder, c: K2ReturnStruct, f: ApplicationCoder, r: Result<DeleteStep, String>) -> bool {
    &&& c@.data.len() == 0 ==> (r matches Err(m) && m@ == "Missing data"@) && f == o
    &&& (c@.data.len() > 0 ==> match app_delete_result(o.streams(), o.label(), c@.data[0]) {
            Err(m) => (r matches Err(x) && x@ == m) && f == o,
            Ok(None) => (r matches Ok(DeleteStep::RemoveFile(f)) && f@ == o.file()) && f
                == o,
            Ok(Some(s)) => (r matches Ok(DeleteStep::Done(x)) && x@ == "Object "@ + c@.data[0].name
                + " created"@) && f.streams() == s && f.label() == o.label()
                && f.directory() == o.directory() && f.file() == o.file()
                && f.connections() == o.connections(),
        })
}

/// What a `set` command does to an application's generator: `o` before,
/// `f` after, `r` the answer.
pub open spec fn application_set_done(o: ApplicationCoder, c: K2ReturnStruct, f: ApplicationCoder, r: Result<String, String>) -> bool {
    &&& c@.data.len() == 0 ==> (r matches Err(m) && m@ == "Missing data"@)
    &&& (c@.data.len() > 0 && split_on(c@.data[0].name, '.').len() != 4 ==> (r matches Err(m)
            && m@ == "Invalid name format"@))
    &&& (c@.data.len() > 0 && split_on(c@.data[0].name, '.').len() == 4 ==> (r matches Err(m)
            && m@ == "Object "@ + c@.data[0].name + " not settable"@))
    &&& f == o
}

/// What a `connect` command does to an application's generator: `o`
/// before, `f` after, `r` the answer.
pub open spec fn application_connect_done(o: ApplicationCoder, c: K2ReturnStruct, f: ApplicationCoder, r: Result<String, String>) -> bool {
    &&& (match connect_target(o.streams(), c@.tokens, c@.data) {
            Err(m) => (r matches Err(x) && x@ == m) && f == o,
            Ok((sf, pf)) => (r matches Ok(x) && x@ == c@.tokens[1] + " connected to "@
                + c@.tokens[2]) && f.streams() == o.streams().insert(
                sf,
                o.streams()[sf].insert(
                    pf,
                    with_prop(
                        o.streams()[sf][pf],
                        "connection_"@ + nat_text(o.connections()),
                        connection_text(c@.tokens[1], c@.tokens[2]),
                    ),
                ),
            ) && f.connections() == o.connections() + 1 && f.label()
                == o.label() && f.directory() == o.directory() && f.file()
                == o.file(),
        })
}

/// What a `disconnect` command does to an application's generator: `o`
/// before, `f` after, `r` the answer.
pub open spec fn application_disconnect_done(o: ApplicationCoder, c: K2ReturnStruct, f: ApplicationCoder, r: Result<String, String>) -> bool {
    &&& (match disconnect_target(o.streams(), c@.tokens) {
            Err(m) => (r matches Err(x) && x@ == m) && f == o,
            Ok((sf, pf)) => (r matches Ok(x) && x@ == "Connection removed"@) && f.streams()
                == o.streams().insert(
                sf,
                o.streams()[sf].insert(
                    pf,
                    K2ObjectView {
                        properties: only_value(
                            o.streams()[sf][pf].properties,
                            connection_text(c@.tokens[1], c@.tokens[2]),
                        ),
                        ..o.streams()[sf][pf]
                    },
                ),
            ) && f.connections() == o.connections() && f.label()
                == o.label() && f.directory() == o.directory() && f.file()
                == o.file(),
        })
}

/// The code generator of an application.
pub struct ApplicationCoder {
    name: String,
    application_path: String,
    path: String,
    streaming: NameMap<NameMap<K2Object>>,
    count_connection: usize,
}

impl ApplicationCoder {
    /// The application's name.
    pub closed spec fn label(&self) -> Seq<char> {
        self.name@
    }

    /// The application's directory.
    pub closed spec fn directory(&self) -> Seq<char> {
        self.application_path@
    }

    /// The path of its main file.
    pub closed spec fn file(&self) -> Seq<char> {
        self.path@
    }

    /// The objects of each stream.
    pub closed spec fn streams(&self) -> Streams {
        streams_view(self.streaming)
    }

    /// The number of connections recorded so far.
    pub closed spec fn connections(&self) -> nat {
        self.count_connection as nat
    }

    /// The generator of the application `name` that `object` describes, in
    /// the directory its `path` property names, with no streams.
    pub fn new(name: String, object: &K2Object) -> (r: Result<Self, String>)
        ensures
            !object@.properties.contains_key("path"@) ==> (r matches Err(m) && m@ == "Path not present"@),
            object@.properties.contains_key("path"@) ==> (r matches Ok(c) && c.label() == name@ && c.directory()
                == object@.properties["path"@] && c.file() == object@.properties["path"@] + "/src/main.rs"@
                && c.streams() == Streams::empty() && c.connections() == 0),
    {
        let application_path = match object.properties.get("path") {
            Some(p) => p.clone(),
            None => {
                return Err("Path not present".to_owned());
            },
        };
        let mut instance = ApplicationCoder {
            name,
            application_path: application_path.clone(),
            path: String::new(),
            streaming: NameMap::new(),
            count_connection: 0,
        };
        instance.set_parent_directory(application_path);
        assert(streams_view(instance.streaming) =~= Streams::empty());
        Ok(instance)
    }

    /// A generator with no name, directory or streams; it stands in for one
    /// that is taken out of a table for a moment.
    pub(crate) fn placeholder() -> (r: Self)
        ensures
            r.label() == Seq::<char>::empty(),
            r.directory() == Seq::<char>::empty(),
            r.file() == Seq::<char>::empty(),
            r.streams() == Streams::empty(),
            r.connections() == 0,
    {
        let r = ApplicationCoder {
            name: String::new(),
            application_path: String::new(),
            path: String::new(),
            streaming: NameMap::new(),
            count_connection: 0,
        };
        assert(streams_view(r.streaming) =~= Streams::empty());
        r
    }

    /// The application's name.
    pub fn get_name(&self) -> (r: String)
        ensures
            r@ == self.label(),
    {
        self.name.clone()
    }

    /// The number of connections recorded so far.
    pub fn connection_count(&self) -> (r: usize)
        ensures
            r == self.connections(),
    {
        self.count_connection
    }

    /// The path of its main file.
    pub fn get_path(&self) -> (r: String)
        ensures
            r@ == self.file(),
    {
        self.path.clone()
    }

    /// Puts its main file under the directory `path`.
    pub fn set_parent_directory(&mut self, path: String)
        ensures
            final(self).file() == path@ + "/src/main.rs"@,
            final(self).label() == old(self).label(),
            final(self).directory() == old(self).directory(),
            final(self).streams() == old(self).streams(),
            final(self).connections() == old(self).connections(),
    {
        self.path = path.concat("/src/main.rs");
    }

    /// Adds the stream, or the object of a stream, that a `new` command
    /// carries.
    pub fn proc_new(&mut self, k2_struct: &K2ReturnStruct) -> (r: Result<String, String>)
        ensures
            application_new_done(*old(self), *k2_struct, *final(self), r),
    {
        if k2_struct.data.len() == 0 {
            return Err("Missing data".to_owned());
        }
        assert(k2_struct@.data[0] == k2_struct.data@[0]@);
        let object = &k2_struct.data[0];
        let object_name = object.name.as_str();
        let split_name = split_char(object_name, '.');
        let ghost before = self.streaming;
        if split_name.len() == 2 {
            if self.streaming.contains_key(object_name) {
                return Err(concat3("Object ", object_name, " already exists"));
            }
            let table: NameMap<K2Object> = NameMap::new();
            assert(table_view(table) =~= Table::empty());
            self.streaming.insert(object.name.clone(), table);
            assert(streams_view(self.streaming) =~= streams_view(before).insert(object.name@, Table::empty()));
        } else if split_name.len() == 3 {
            let stream_name = owner_name(object_name);
            let i = match self.streaming.find(stream_name.as_str()) {
                Some(i) => i,
                None => {
                    return Err(concat3("Stream ", stream_name.as_str(), " does not exists"));
                },
            };
            proof {
                before.lemma_lengths();
            }
            if table_has(self.streaming.value_at(i), object_name) {
                return Err(concat3("Object ", object_name, " already exists"));
            }
            let mut table = self.streaming.swap_value(i, NameMap::new());
            let ghost tv = table_view(table);
            table_insert(&mut table, object.name.clone(), object.duplicate());
            let ghost tv2 = table_view(table);
            let _ = self.streaming.swap_value(i, table);
            assert(streams_view(self.streaming) =~= streams_view(before).insert(stream_name@, tv2));
        } else {
            return Err("Not valid name".to_owned());
        }
        Ok(concat3("Object ", object_name, " created"))
    }

    /// Accepts an `add` command with its own message.
    pub fn proc_add(&mut self, k2_struct: &K2ReturnStruct) -> (r: Result<String, String>)
        ensures
            r matches Ok(m) && m@ == k2_struct@.message,
            *final(self) == *old(self),
    {
        Ok(k2_struct.message.clone())
    }
    /// Deletes what a `delete` command names: the application itself, whose
    /// main file is then to be removed; a stream with its objects; or an
    /// object of a stream. The answer says `created`, as the framework has
    /// always said it.
    pub fn proc_delete(&mut self, k2_struct: &K2ReturnStruct) -> (r: Result<DeleteStep, String>)
        ensures
            application_delete_done(*old(self), *k2_struct, *final(self), r),
    {
        if k2_struct.data.len() == 0 {
            return Err("Missing data".to_owned());
        }
        assert(k2_struct@.data[0] == k2_struct.data@[0]@);
        let object = &k2_struct.data[0];
        let object_name = object.name.as_str();
        let split_name = split_char(object_name, '.');
        let ghost before = self.streaming;
        if split_name.len() == 1 {
            if !str_eq(object_name, self.name.as_str()) {
                return Err(concat3(self.name.as_str(), " can not delete ", object_name));
            }
            return Ok(DeleteStep::RemoveFile(self.path.clone()));
        } else if split_name.len() == 2 {
            let stream_name = owner_name(object_name);
            let _ = self.streaming.remove(stream_name.as_str());
            assert(self.streaming.as_map() =~= before.as_map().remove(stream_name@));
            assert(streams_view(self.streaming) =~= streams_view(before).remove(stream_name@));
        } else if split_name.len() == 3 {
            let stream_name = owner_name(object_name);
            let i = match self.streaming.find(stream_name.as_str()) {
                Some(i) => i,
                None => {
                    return Err(concat3("Stream ", stream_name.as_str(), " does not exists"));
                },
            };
            proof {
                before.lemma_lengths();
            }
            let mut table = self.streaming.swap_value(i, NameMap::new());
            table_remove(&mut table, object_name);
            let ghost tv = table_view(table);
            let _ = self.streaming.swap_value(i, table);
            assert(streams_view(self.streaming) =~= streams_view(before).insert(stream_name@, tv));
        } else {
            return Err("Invalid name format".to_owned());
        }
        Ok(DeleteStep::Done(concat3("Object ", object_name, " created")))
    }

    /// Refuses a `set` command: a settable object would have to be of type
    /// `parameter` and of type `state` at once, so no object passes that
    /// test.
    pub fn proc_set(&mut self, k2_struct: &K2ReturnStruct) -> (r: Result<String, String>)
        ensures
            application_set_done(*old(self), *k2_struct, *final(self), r),
    {
        if k2_struct.data.len() == 0 {
            return Err("Missing data".to_owned());
        }
        assert(k2_struct@.data[0] == k2_struct.data@[0]@);
        let object = &k2_struct.data[0];
        let split_name = split_char(object.name.as_str(), '.');
        if split_name.len() != 4 {
            return Err("Invalid name format".to_owned());
        }
        Err(concat3("Object ", object.name.as_str(), " not settable"))
    }

    /// Records the connection of a `connect` command, from an output to an
    /// input of the same stream, as a `connection_<n>` property of the
    /// source processor, `n` counting the connections made so far.
    pub fn proc_connect(&mut self, k2_struct: &K2ReturnStruct) -> (r: Result<String, String>)
        requires
            old(self).connections() < usize::MAX,
        ensures
            application_connect_done(*old(self), *k2_struct, *final(self), r),
    {
        if k2_struct.tokens.len() != 3 {
            return Err("Wrong parameter number".to_owned());
        }
        assert(k2_struct@.tokens[1] == k2_struct.tokens@[1]@);
        assert(k2_struct@.tokens[2] == k2_struct.tokens@[2]@);
        let connector_from = k2_struct.tokens[1].as_str();
        if k2_struct.data.len() == 0 {
            return Err("Missing source".to_owned());
        }
        assert(k2_struct@.data[0] == k2_struct.data@[0]@);
        if !str_eq(k2_struct.data[0].object_type.as_str(), "output") {
            return Err(String::from_str(connector_from).concat(" is not an output"));
        }
        let connector_to = k2_struct.tokens[2].as_str();
        if k2_struct.data.len() < 2 {
            return Err("Missing destination".to_owned());
        }
        assert(k2_struct@.data[1] == k2_struct.data@[1]@);
        if !str_eq(k2_struct.data[1].object_type.as_str(), "input") {
            return Err(String::from_str(connector_to).concat(" is not an input"));
        }
        let (processor_from, _) = match rsplit_once(connector_from, '.') {
            Some(p) => p,
            None => {
                return Err("Split err".to_owned());
            },
        };
        let (processor_to, _) = match rsplit_once(connector_to, '.') {
            Some(p) => p,
            None => {
                return Err("Split err".to_owned());
            },
        };
        let (streaming_from, _) = match rsplit_once(processor_from.as_str(), '.') {
            Some(p) => p,
            None => {
                return Err("Split err".to_owned());
            },
        };
        let (streaming_to, _) = match rsplit_once(processor_to.as_str(), '.') {
            Some(p) => p,
            None => {
                return Err("Split err".to_owned());
            },
        };
        if !str_eq(streaming_from.as_str(), streaming_to.as_str()) {
            return Err("Connection are allowed only inside same stream".to_owned());
        }
        let i = match self.streaming.find(streaming_from.as_str()) {
            Some(i) => i,
            None => {
                return Err(concat3("Stream ", streaming_from.as_str(), " not found"));
            },
        };
        let ghost before = self.streaming;
        proof {
            before.lemma_lengths();
        }
        if !table_has(self.streaming.value_at(i), processor_from.as_str()) {
            return Err(concat3("Processor ", processor_from.as_str(), " not found"));
        }
        if !table_has(self.streaming.value_at(i), processor_to.as_str()) {
            return Err(concat3("Processor ", processor_to.as_str(), " not found"));
        }
        let mut table = self.streaming.swap_value(i, NameMap::new());
        let mut processor = table_get(&table, processor_from.as_str()).unwrap();
        let key = String::from_str("connection_").concat(usize_text(self.count_connection).as_str());
        let value = concat3(connector_from, "-", connector_to);
        add_prop(&mut processor, key.as_str(), &value);
        table_insert(&mut table, processor_from.clone(), processor);
        let ghost tv = table_view(table);
        let _ = self.streaming.swap_value(i, table);
        assert(streams_view(self.streaming) =~= streams_view(before).insert(streaming_from@, tv));
        self.count_connection = self.count_connection + 1;
        Ok(concat3(connector_from, " connected to ", connector_to))
    }

    /// Handles a `disconnect` command: the source processor keeps only the
    /// properties whose value is the connection named.
    pub fn proc_disconnect(&mut self, k2_struct: &K2ReturnStruct) -> (r: Result<String, String>)
        ensures
            application_disconnect_done(*old(self), *k2_struct, *final(self), r),
    {
        if k2_struct.tokens.len() != 3 {
            return Err("Wrong parameter number".to_owned());
        }
        assert(k2_struct@.tokens[1] == k2_struct.tokens@[1]@);
        assert(k2_struct@.tokens[2] == k2_struct.tokens@[2]@);
        let connector_from = k2_struct.tokens[1].as_str();
        let connector_to = k2_struct.tokens[2].as_str();
        let (processor_from, _) = match rsplit_once(connector_from, '.') {
            Some(p) => p,
            None => {
                return Err("Split err".to_owned());
            },
        };
        let (streaming_from, _) = match rsplit_once(processor_from.as_str(), '.') {
            Some(p) => p,
            None => {
                return Err("Split err".to_owned());
            },
        };
        let i = match self.streaming.find(streaming_from.as_str()) {
            Some(i) => i,
            None => {
                return Err(concat3("Stream ", streaming_from.as_str(), " not found"));
            },
        };
        let ghost before = self.streaming;
        proof {
            before.lemma_lengths();
        }
        if !table_has(self.streaming.value_at(i), processor_from.as_str()) {
            return Err(concat3("Processor ", processor_from.as_str(), " not found"));
        }
        let connection = concat3(connector_from, "-", connector_to);
        let mut table = self.streaming.swap_value(i, NameMap::new());
        let mut processor = table_get(&table, processor_from.as_str()).unwrap();
        processor.properties = keep_only_value(&processor.properties, connection.as_str());
        let ghost pv = processor@;
        table_insert(&mut table, processor_from.clone(), processor);
        let ghost tv = table_view(table);
        let _ = self.streaming.swap_value(i, table);
        assert(streams_view(self.streaming) =~= streams_view(before).insert(streaming_from@, tv));
        Ok("Connection removed".to_owned())
    }

    /// Refuses an `exec` command.
    pub fn proc_exec(&mut self, _k2_struct: &K2ReturnStruct) -> (r: Result<String, String>)
        ensures
            r matches Err(m) && m@ == "Exec not supported by K2Coder"@,
            *final(self) == *old(self),
    {
        Err("Exec not supported by K2Coder".to_owned())
    }

    /// Code generation of the application writes nothing yet; it always
    /// succeeds.
    pub fn generate(&self) -> (r: Result<String, String>)
        ensures
            r matches Ok(m) && m@ == "Application "@ + self.label() + " code generate with success"@,
    {
        Ok(concat3("Application ", self.name.as_str(), " code generate with success"))
    }
}

/// The answer once the application's main file was removed, or could not
/// be.
pub fn main_file_removed(object_name: &String, removed: bool) -> (r: Result<String, String>)
    ensures
        removed ==> (r matches Ok(m) && m@ == "Object "@ + object_name@ + " created"@),
        !removed ==> (r matches Err(m) && m@ == "Error in deleting object file"@),
{
    if removed {
        Ok(concat3("Object ", object_name.as_str(), " created"))
    } else {
        Err("Error in deleting object file".to_owned())
    }
}

/// The properties whose value is `v`, in their order.
fn keep_only_value(props: &NameMap<String>, v: &str) -> (r: NameMap<String>)
    ensures
        str_map(r) == only_value(str_map(*props), v@),
{
    let keys = props.keys();
    let ghost ks = keys.deep_view();
    let mut r: NameMap<String> = NameMap::new();
    let mut i: usize = 0;
    while i < keys.len()
        invariant
            i <= keys@.len(),
            ks == keys.deep_view(),
            ks == props.keys_seq(),
            str_map(r) == Map::new(
                |k: Seq<char>| ks.take(i as int).contains(k) && str_map(*props)[k] == v@,
                |k: Seq<char>| str_map(*props)[k],
            ),
        decreases keys@.len() - i,
    {
        let ghost before = str_map(r);
        assert(ks[i as int] == keys@[i as int]@);
        assert(props.has(ks[i as int]));
        let value = props.get(keys[i].as_str()).unwrap();
        assert(value@ == str_map(*props)[ks[i as int]]);
        if str_eq(value.as_str(), v) {
            let ghost vv = value@;
            r.insert(keys[i].clone(), value.clone());
            assert(str_map(r) =~= before.insert(ks[i as int], vv));
        }
        assert(ks.take(i + 1) =~= ks.take(i as int).push(ks[i as int]));
        let ghost now = ks.take(i + 1);
        let ghost was = ks.take(i as int);
        assert forall|k: Seq<char>| #[trigger] now.contains(k) == (was.contains(k) || k == ks[i as int]) by {
            if now.contains(k) {
                let j = choose|j: int| 0 <= j < now.len() && #[trigger] now[j] == k;
                if j < i {
                    assert(was[j] == k);
                }
            }
            if was.contains(k) {
                let j = choose|j: int| 0 <= j < was.len() && #[trigger] was[j] == k;
                assert(now[j] == k);
            }
            if k == ks[i as int] {
                assert(now[i as int] == k);
            }
        }
        assert(str_map(r) =~= Map::new(
            |k: Seq<char>| ks.take(i + 1).contains(k) && str_map(*props)[k] == v@,
            |k: Seq<char>| str_map(*props)[k],
        ));
        i = i + 1;
    }
    assert(ks.take(i as int) =~= ks);
    assert(str_map(r) =~= only_value(str_map(*props), v@));
    r
}

/// Deleting a stream that a `new` command has just added gives back the
/// streams as they were.
pub proof fn law_delete_undoes_new_stream(s: Streams, label: Seq<char>, d: K2ObjectView, e: K2ObjectView)
    requires
        split_on(d.name, '.').len() == 2,
        !s.contains_key(d.name),
        e.name == d.name,
    ensures
        app_new_result(s, d) matches Ok(s2) && app_delete_result(s2, label, e) == Ok::<Option<Streams>, Seq<char>>(Some(s)),
{
    lemma_owner_of_pair(d.name);
    let s2 = s.insert(d.name, Map::empty());
    assert(s2.remove(d.name) =~= s);
}

/// Deleting an object that a `new` command has just added to a stream gives
/// back the streams as they were.
pub proof fn law_delete_undoes_new_object(s: Streams, label: Seq<char>, d: K2ObjectView, e: K2ObjectView)
    requires
        split_on(d.name, '.').len() == 3,
        s.contains_key(owner_of(d.name)),
        !s[owner_of(d.name)].contains_key(d.name),
        e.name == d.name,
    ensures
        app_new_result(s, d) matches Ok(s2) && app_delete_result(s2, label, e) == Ok::<Option<Streams>, Seq<char>>(Some(s)),
{
    let k = owner_of(d.name);
    let s2 = s.insert(k, s[k].insert(d.name, d));
    assert(s2[k].remove(d.name) =~= s[k]);
    assert(s2.insert(k, s2[k].remove(d.name)) =~= s);
}

} // verus!
