//! The configuration of a stream: its blocks, chains and modes, how they nest
//! and connect, and the source text that creates them.
use vstd::prelude::*;
use crate::name_map::NameMap;
use crate::text::{str_eq, concat3, rsplit_once, rsplit_once_spec};
use crate::k2_lang::objects::{K2Object, str_map};
use crate::k2lang::objects::{K2LangStruct, K2LangView};
use crate::k2_stream::errors::{K2Error, K2ErrorCode};

verus! {

/// A block, a chain or a mode of a stream configuration.
pub struct StreamChild {
    pub name: String,
    pub k2_type: String,
    pub block_type: Option<String>,
    pub connection: Vec<(String, String)>,
    pub children: Vec<String>,
    pub settings: NameMap<String>,
}

/// The mathematical content of a `StreamChild`.
pub struct StreamChildView {
    pub name: Seq<char>,
    pub k2_type: Seq<char>,
    pub block_type: Option<Seq<char>>,
    pub connection: Seq<(Seq<char>, Seq<char>)>,
    pub children: Seq<Seq<char>>,
    pub settings: Map<Seq<char>, Seq<char>>,
}

/// The pairs of names of a list of connections.
pub open spec fn pairs_view(v: Seq<(String, String)>) -> Seq<(Seq<char>, Seq<char>)> {
    v.map_values(|p: (String, String)| (p.0@, p.1@))
}

impl View for StreamChild {
    type V = StreamChildView;

    open spec fn view(&self) -> StreamChildView {
        StreamChildView {
            name: self.name@,
            k2_type: self.k2_type@,
            block_type: match self.block_type {
                Some(t) => Some(t@),
                None => None,
            },
            connection: pairs_view(self.connection@),
            children: self.children.deep_view(),
            settings: str_map(self.settings),
        }
    }
}

/// The connections without any copy of one of them, order kept.
pub open spec fn without_pair(s: Seq<(Seq<char>, Seq<char>)>, p: (Seq<char>, Seq<char>)) -> Seq<
    (Seq<char>, Seq<char>),
>
    decreases s.len(),
{
    if s.len() == 0 {
        s
    } else if s.last() == p {
        without_pair(s.drop_last(), p)
    } else {
        without_pair(s.drop_last(), p).push(s.last())
    }
}

impl StreamChild {
    /// A copy of the object.
    pub fn duplicate(&self) -> (r: Self)
        ensures
            r@ == self@,
    {
        let block_type = match &self.block_type {
            Some(t) => Some(t.clone()),
            None => None,
        };
        let mut connection: Vec<(String, String)> = Vec::new();
        let mut i: usize = 0;
        while i < self.connection.len()
            invariant
                i <= self.connection@.len(),
                pairs_view(connection@) == pairs_view(self.connection@).take(i as int),
            decreases self.connection@.len() - i,
        {
            let ghost before = pairs_view(connection@);
            connection.push((self.connection[i].0.clone(), self.connection[i].1.clone()));
            assert(pairs_view(connection@) =~= before.push((self.connection@[i as int].0@, self.connection@[i as int].1@)));
            assert(pairs_view(self.connection@).take(i + 1) =~= pairs_view(self.connection@).take(i as int).push(pairs_view(self.connection@)[i as int]));
            i = i + 1;
        }
        assert(pairs_view(self.connection@).take(i as int) =~= pairs_view(self.connection@));
        let r = StreamChild {
            name: self.name.clone(),
            k2_type: self.k2_type.clone(),
            block_type,
            connection,
            children: crate::text::clone_strings(&self.children),
            settings: self.settings.duplicate(),
        };
        assert(str_map(r.settings) =~= str_map(self.settings));
        r
    }

    /// Forgets every copy of a connection, order kept.
    fn drop_connection(&mut self, from: &str, to: &str)
        ensures
            final(self)@ == (StreamChildView {
                connection: without_pair(old(self)@.connection, (from@, to@)),
                ..old(self)@
            }),
    {
        let ghost all = pairs_view(self.connection@);
        let mut kept: Vec<(String, String)> = Vec::new();
        let mut i: usize = 0;
        assert(all.take(0) =~= Seq::<(Seq<char>, Seq<char>)>::empty());
        while i < self.connection.len()
            invariant
                i <= self.connection@.len(),
                all == pairs_view(self.connection@),
                pairs_view(kept@) == without_pair(all.take(i as int), (from@, to@)),
            decreases self.connection@.len() - i,
        {
            let ghost before = all.take(i as int);
            assert(all.take(i + 1).drop_last() =~= before);
            assert(all.take(i + 1).last() == all[i as int]);
            let same = str_eq(self.connection[i].0.as_str(), from) && str_eq(self.connection[i].1.as_str(), to);
            if !same {
                let ghost k = pairs_view(kept@);
                kept.push((self.connection[i].0.clone(), self.connection[i].1.clone()));
                assert(pairs_view(kept@) =~= k.push(all[i as int]));
            }
            i = i + 1;
        }
        assert(all.take(i as int) =~= all);
        self.connection = kept;
    }
}

/// The objects of a configuration, by name.
pub open spec fn stream_children_view(m: NameMap<StreamChild>) -> Map<Seq<char>, StreamChildView> {
    Map::new(|k: Seq<char>| m.has(k), |k: Seq<char>| m.lookup(k)@)
}

/// An `Err` of a code and a message.
pub open spec fn failure<T>(c: K2ErrorCode, m: Seq<char>) -> Result<T, (K2ErrorCode, Seq<char>)> {
    Err((c, m))
}

/// What one command does to the objects of a configuration, or the error it
/// is refused with.
pub open spec fn streamer_step(m: Map<Seq<char>, StreamChildView>, tokens: Seq<Seq<char>>, data: Seq<
    crate::k2_lang::objects::K2ObjectView,
>) -> Result<Map<Seq<char>, StreamChildView>, (K2ErrorCode, Seq<char>)> {
    let t0 = tokens[0];
    let d0 = data[0];
    if t0 == "new"@ {
        if m.contains_key(d0.name) {
            failure(K2ErrorCode::AlreadyExists, "Object "@ + d0.name + " already exist"@)
        } else {
            let fresh = StreamChildView {
                name: d0.name,
                k2_type: d0.object_type,
                block_type: None,
                connection: Seq::empty(),
                children: Seq::empty(),
                settings: Map::empty(),
            };
            if d0.object_type == "block"@ {
                if !d0.properties.contains_key("type"@) {
                    failure(K2ErrorCode::NotFound, "Type field not found"@)
                } else {
                    Ok(m.insert(d0.name, StreamChildView { block_type: Some(d0.properties["type"@]), ..fresh }))
                }
            } else if d0.object_type == "chain"@ || d0.object_type == "mode"@ {
                Ok(m.insert(d0.name, fresh))
            } else {
                failure(K2ErrorCode::BadFormat, "Type "@ + d0.object_type + " not exists"@)
            }
        }
    } else if t0 == "add"@ {
        let d1 = data[1];
        if !m.contains_key(d1.name) {
            failure(K2ErrorCode::NotFound, "Object "@ + d1.name + " not found"@)
        } else if !m.contains_key(d0.name) {
            failure(K2ErrorCode::NotFound, "Object "@ + d0.name + " not found"@)
        } else {
            let child = m[d1.name];
            let parent = m[d0.name];
            if (parent.k2_type == "mode"@ && child.k2_type == "chain"@) || (parent.k2_type == "chain"@
                && child.k2_type == "block"@) {
                Ok(m.insert(d0.name, StreamChildView { children: parent.children.push(child.name), ..parent }))
            } else {
                failure(
                    K2ErrorCode::InvalidOperation,
                    "Type "@ + parent.k2_type + " can not be added to type "@ + child.k2_type,
                )
            }
        }
    } else if t0 == "delete"@ {
        Ok(m.remove(d0.name))
    } else if t0 == "set"@ {
        if data.len() == 1 {
            match rsplit_once_spec(d0.name, '.') {
                None => failure(K2ErrorCode::BadFormat, "Invalid name "@ + d0.name),
                Some((b, _)) => if !m.contains_key(b) {
                    failure(K2ErrorCode::NotFound, "Block "@ + b + " not found"@)
                } else if !d0.properties.contains_key("value"@) {
                    failure(K2ErrorCode::NotFound, "Value field not found"@)
                } else {
                    Ok(m.insert(b, StreamChildView { settings: m[b].settings.insert(d0.name, d0.properties["value"@]), ..m[b] }))
                },
            }
        } else {
            let o = data[1].name;
            if !d0.properties.contains_key(o) {
                failure(K2ErrorCode::NotFound, "Key "@ + o + " not found in "@ + d0.name + " properties"@)
            } else if !m.contains_key(d0.name) {
                failure(K2ErrorCode::NotFound, "Mode "@ + d0.name + " not found"@)
            } else {
                Ok(m.insert(d0.name, StreamChildView { settings: m[d0.name].settings.insert(o, d0.properties[o]), ..m[d0.name] }))
            }
        }
    } else if t0 == "connect"@ || t0 == "disconnect"@ {
        match rsplit_once_spec(d0.name, '.') {
            None => failure(K2ErrorCode::BadFormat, "Invalid name "@ + d0.name),
            Some((b, _)) => if !m.contains_key(b) {
                failure(K2ErrorCode::NotFound, "Block "@ + b + " not found"@)
            } else if t0 == "connect"@ {
                Ok(m.insert(b, StreamChildView { connection: m[b].connection.push((d0.name, data[1].name)), ..m[b] }))
            } else {
                Ok(m.insert(b, StreamChildView { connection: without_pair(m[b].connection, (d0.name, data[1].name)), ..m[b] }))
            },
        }
    } else {
        failure(K2ErrorCode::InvalidOperation, "Command not supported for library"@)
    }
}

/// What one command of the language does to a configuration's generator:
/// `o` before, `f` after, `r` the answer.
pub open spec fn streamer_executed(o: StreamerCoder, input: K2LangView, f: StreamerCoder, r: Result<String, K2Error>) -> bool {
    &&& f.well_formed()
    &&& f.label() == o.label()
    &&& f.path() == o.path()
    &&& match streamer_step(o.members(), input.tokens, input.data) {
        Ok(m) => (r matches Ok(s) && s@ == "Ok"@) && f.members() == m && f.member_names() == (if input.tokens[0] == "new"@ {
            o.member_names().push(input.data[0].name)
        } else if input.tokens[0] == "delete"@ && o.members().contains_key(input.data[0].name) {
            o.member_names().remove(o.member_position(input.data[0].name))
        } else {
            o.member_names()
        }),
        Err((c, msg)) => (r matches Err(e) && e.code == c && e.message@ == msg) && f == o,
    }
}

/// The code generator of a stream configuration.
pub struct StreamerCoder {
    name: String,
    file_name: String,
    object_map: NameMap<StreamChild>,
}

/// The lines of one kind of object, in the order of `names`.
pub open spec fn kind_lines(names: Seq<Seq<char>>, m: Map<Seq<char>, StreamChildView>, kind: Seq<char>) -> Seq<Seq<char>>
    decreases names.len(),
{
    if names.len() == 0 {
        Seq::empty()
    } else {
        let o = m[names.last()];
        let more = if o.k2_type != kind {
            Seq::empty()
        } else if kind == "block"@ {
            seq![
                "        self.blocks.insert(\""@ + o.name + "\", "@ + o.block_type->Some_0 + "::new(\""@ + o.name
                    + "\")"@,
            ]
        } else if kind == "chain"@ {
            seq!["        self.chains.insert(\""@ + o.name + "\", Chain::new(\""@ + o.name + "\")"@]
        } else {
            seq![
                "        let mode = OperativeMode::new(\""@ + o.name + "\".to_string)"@,
                "        stream.add_mode(mode);"@,
            ]
        };
        kind_lines(names.drop_last(), m, kind) + more
    }
}

/// The configuration source lines: a function that creates the blocks, one
/// that creates the chains, and one that creates the modes in the stream.
pub open spec fn configuration_lines_spec(names: Seq<Seq<char>>, m: Map<Seq<char>, StreamChildView>) -> Seq<Seq<char>> {
    seq!["impl StreamConfiguration {"@, "    fn create_blocks(&mut self) {"@] + kind_lines(names, m, "block"@)
        + seq!["    }"@, "    fn create_chains(&mut self) {"@] + kind_lines(names, m, "chain"@) + seq![
        "    }"@,
        "    fn create_modes(&mut self) {"@,
        "        let stream = StreamController::get_stream_by_id(self.stream_id)?;"@,
        "        let mut stream = stream.lock().map_err(|_|k2err!(K2ErrorCode::LockError, \"\".to_string()))?;"@,
        "        let stream = stream.as_any_mut().downcast_mut::<StreamController>().unwrap();"@,
    ] + kind_lines(names, m, "mode"@) + seq!["    }"@, "    fn create_chains(&mut self) {"@]
}

impl StreamerCoder {
    /// The configuration's name.
    pub closed spec fn label(&self) -> Seq<char> {
        self.name@
    }

    /// The path of its source file.
    pub closed spec fn path(&self) -> Seq<char> {
        self.file_name@
    }

    /// Its objects, by name.
    pub closed spec fn members(&self) -> Map<Seq<char>, StreamChildView> {
        stream_children_view(self.object_map)
    }

    /// The names of its objects, in the order they were created.
    pub closed spec fn member_names(&self) -> Seq<Seq<char>> {
        self.object_map.keys_seq()
    }

    /// The position of an object among the names.
    pub closed spec fn member_position(&self, n: Seq<char>) -> int {
        self.object_map.index_of(n)
    }

    /// Every block names the processor it runs.
    pub open spec fn well_formed(&self) -> bool {
        forall|k: Seq<char>| #[trigger] self.members().contains_key(k) && self.members()[k].k2_type
            == "block"@ ==> self.members()[k].block_type is Some
    }

    /// The configuration `name` of the application at `app_path`, with no
    /// objects.
    pub fn new(name: String, app_path: String) -> (r: Self)
        ensures
            r.label() == name@,
            r.path() == app_path@ + "/src/"@ + name@ + "_configuration.rs"@,
            r.members() == Map::<Seq<char>, StreamChildView>::empty(),
            r.member_names() == Seq::<Seq<char>>::empty(),
            r.well_formed(),
    {
        let file_name = concat3(app_path.as_str(), "/src/", name.as_str()).concat("_configuration.rs");
        let r = StreamerCoder { name, file_name, object_map: NameMap::new() };
        assert(stream_children_view(r.object_map) =~= Map::<Seq<char>, StreamChildView>::empty());
        r
    }

    /// Carries out one command of the language: `new` creates a block, a
    /// chain or a mode, `add` puts a chain in a mode or a block in a chain,
    /// `delete` forgets an object, `set` keeps a setting of a block or of a
    /// mode, and `connect` and `disconnect` keep or forget a connection of a
    /// block. A refused command changes nothing.
    pub fn execute(&mut self, input: &K2LangStruct) -> (r: Result<String, K2Error>)
        requires
            old(self).well_formed(),
            input@.tokens.len() >= 1,
            input@.tokens[0] == "new"@ || input@.tokens[0] == "delete"@ || input@.tokens[0] == "set"@
                ==> input@.data.len() >= 1,
            input@.tokens[0] == "add"@ || input@.tokens[0] == "connect"@ || input@.tokens[0]
                == "disconnect"@ ==> input@.data.len() >= 2,
        ensures
            streamer_executed(*old(self), input@, *final(self), r),
    {
        proof {
            lemma_streamer_words_differ();
        }
        let t0 = input.tokens[0].as_str();
        assert(input@.tokens[0] == input.tokens@[0]@);
        if !(str_eq(t0, "new") || str_eq(t0, "add") || str_eq(t0, "delete") || str_eq(t0, "set") || str_eq(
            t0,
            "connect",
        ) || str_eq(t0, "disconnect")) {
            return Err(K2Error::new(K2ErrorCode::InvalidOperation, "Command not supported for library"));
        }
        assert(input@.data[0] == input.data@[0]@);
        let d0 = &input.data[0];
        let ghost before = self.members();
        if str_eq(t0, "new") {
            if self.object_map.contains_key(d0.name.as_str()) {
                return Err(K2Error { code: K2ErrorCode::AlreadyExists, message: concat3("Object ", d0.name.as_str(), " already exist") });
            }
            let t = d0.object_type.as_str();
            let mut block_type: Option<String> = None;
            if str_eq(t, "block") {
                match d0.properties.get("type") {
                    Some(v) => {
                        block_type = Some(v.clone());
                    },
                    None => {
                        return Err(K2Error::new(K2ErrorCode::NotFound, "Type field not found"));
                    },
                }
            } else if !(str_eq(t, "chain") || str_eq(t, "mode")) {
                return Err(K2Error { code: K2ErrorCode::BadFormat, message: concat3("Type ", t, " not exists") });
            }
            let settings: NameMap<String> = NameMap::new();
            assert(str_map(settings) =~= Map::<Seq<char>, Seq<char>>::empty());
            let child = StreamChild {
                name: d0.name.clone(),
                k2_type: d0.object_type.clone(),
                block_type,
                connection: Vec::new(),
                children: Vec::new(),
                settings,
            };
            assert(pairs_view(child.connection@) =~= Seq::<(Seq<char>, Seq<char>)>::empty());
            assert(child.children.deep_view() =~= Seq::<Seq<char>>::empty());
            let ghost cv = child@;
            self.object_map.insert(d0.name.clone(), child);
            assert(self.members() =~= before.insert(d0.name@, cv));
        } else if str_eq(t0, "add") {
            assert(input@.data[1] == input.data@[1]@);
            let d1 = &input.data[1];
            let child_name = match self.object_map.get(d1.name.as_str()) {
                Some(c) => c.name.clone(),
                None => {
                    return Err(K2Error { code: K2ErrorCode::NotFound, message: concat3("Object ", d1.name.as_str(), " not found") });
                },
            };
            let child_type = self.object_map.get(d1.name.as_str()).unwrap().k2_type.clone();
            let mut parent = match self.object_map.get(d0.name.as_str()) {
                Some(p) => p.duplicate(),
                None => {
                    return Err(K2Error { code: K2ErrorCode::NotFound, message: concat3("Object ", d0.name.as_str(), " not found") });
                },
            };
            let pt = parent.k2_type.as_str();
            let ct = child_type.as_str();
            if (str_eq(pt, "mode") && str_eq(ct, "chain")) || (str_eq(pt, "chain") && str_eq(ct, "block")) {
                let ghost pv = parent.children.deep_view();
                parent.children.push(child_name);
                assert(parent.children.deep_view() =~= pv.push(before[d1.name@].name));
                let ghost nv = parent@;
                self.object_map.insert(d0.name.clone(), parent);
                assert(self.members() =~= before.insert(d0.name@, nv));
            } else {
                return Err(K2Error { code: K2ErrorCode::InvalidOperation, message: concat3("Type ", pt, " can not be added to type ").concat(ct) });
            }
        } else if str_eq(t0, "delete") {
            let _ = self.object_map.remove(d0.name.as_str());
            assert(self.members() =~= before.remove(d0.name@));
        } else if str_eq(t0, "set") {
            if input.data.len() == 1 {
                let block_name = match rsplit_once(d0.name.as_str(), '.') {
                    Some((b, _)) => b,
                    None => {
                        return Err(K2Error { code: K2ErrorCode::BadFormat, message: String::from_str("Invalid name ").concat(d0.name.as_str()) });
                    },
                };
                let mut object = match self.object_map.get(block_name.as_str()) {
                    Some(o) => o.duplicate(),
                    None => {
                        return Err(K2Error { code: K2ErrorCode::NotFound, message: concat3("Block ", block_name.as_str(), " not found") });
                    },
                };
                let value = match d0.properties.get("value") {
                    Some(v) => v.clone(),
                    None => {
                        return Err(K2Error::new(K2ErrorCode::NotFound, "Value field not found"));
                    },
                };
                let ghost sv = str_map(object.settings);
                let ghost key = d0.name@;
                let ghost val = value@;
                object.settings.insert(d0.name.clone(), value);
                assert(str_map(object.settings) =~= sv.insert(key, val));
                let ghost ov = object@;
                self.object_map.insert(block_name.clone(), object);
                assert(self.members() =~= before.insert(block_name@, ov));
            } else {
                assert(input@.data[1] == input.data@[1]@);
                let object_name = &input.data[1].name;
                let value = match d0.properties.get(object_name.as_str()) {
                    Some(v) => v.clone(),
                    None => {
                        return Err(K2Error { code: K2ErrorCode::NotFound, message: concat3("Key ", object_name.as_str(), " not found in ").concat(d0.name.as_str()).concat(" properties") });
                    },
                };
                let mut mode_object = match self.object_map.get(d0.name.as_str()) {
                    Some(o) => o.duplicate(),
                    None => {
                        return Err(K2Error { code: K2ErrorCode::NotFound, message: concat3("Mode ", d0.name.as_str(), " not found") });
                    },
                };
                let ghost sv = str_map(mode_object.settings);
                let ghost key = object_name@;
                let ghost val = value@;
                mode_object.settings.insert(object_name.clone(), value);
                assert(str_map(mode_object.settings) =~= sv.insert(key, val));
                let ghost ov = mode_object@;
                self.object_map.insert(d0.name.clone(), mode_object);
                assert(self.members() =~= before.insert(d0.name@, ov));
            }
        } else if str_eq(t0, "connect") || str_eq(t0, "disconnect") {
            assert(input@.data[1] == input.data@[1]@);
            let d1 = &input.data[1];
            let block_name = match rsplit_once(d0.name.as_str(), '.') {
                Some((b, _)) => b,
                None => {
                    return Err(K2Error { code: K2ErrorCode::BadFormat, message: String::from_str("Invalid name ").concat(d0.name.as_str()) });
                },
            };
            let mut object = match self.object_map.get(block_name.as_str()) {
                Some(o) => o.duplicate(),
                None => {
                    return Err(K2Error { code: K2ErrorCode::NotFound, message: concat3("Block ", block_name.as_str(), " not found") });
                },
            };
            if str_eq(t0, "connect") {
                let ghost cv = object@.connection;
                object.connection.push((d0.name.clone(), d1.name.clone()));
                assert(object@.connection =~= cv.push((d0.name@, d1.name@)));
            } else {
                object.drop_connection(d0.name.as_str(), d1.name.as_str());
            }
            let ghost ov = object@;
            self.object_map.insert(block_name.clone(), object);
            assert(self.members() =~= before.insert(block_name@, ov));
        } else {
            return Err(K2Error::new(K2ErrorCode::InvalidOperation, "Command not supported for library"));
        }
        Ok("Ok".to_owned())
    }

    /// The lines of the objects of one kind.
    fn kind_lines_exec(&self, kind: &str) -> (r: Vec<String>)
        requires
            self.well_formed(),
            kind@ == "block"@ || kind@ == "chain"@ || kind@ == "mode"@,
        ensures
            r.deep_view() == kind_lines(self.member_names(), self.members(), kind@),
    {
        let names = self.object_map.keys();
        let ghost all = names.deep_view();
        let mut r: Vec<String> = Vec::new();
        let mut i: usize = 0;
        assert(all.take(0) =~= Seq::<Seq<char>>::empty());
        assert(r.deep_view() =~= Seq::<Seq<char>>::empty());
        while i < names.len()
            invariant
                i <= names@.len(),
                all == names.deep_view(),
                all == self.member_names(),
                self.well_formed(),
                kind@ == "block"@ || kind@ == "chain"@ || kind@ == "mode"@,
                r.deep_view() == kind_lines(all.take(i as int), self.members(), kind@),
            decreases names@.len() - i,
        {
            let ghost before = all.take(i as int);
            assert(all.take(i + 1).drop_last() =~= before);
            assert(all.take(i + 1).last() == names@[i as int]@);
            assert(self.object_map.has(names@[i as int]@));
            let o = self.object_map.get(names[i].as_str()).unwrap();
            assert(o@ == self.members()[names@[i as int]@]);
            let ghost prev = r.deep_view();
            let ghost ov = o@;
            assert(kind_lines(all.take(i + 1), self.members(), kind@) == prev + (if ov.k2_type != kind@ {
                Seq::<Seq<char>>::empty()
            } else if kind@ == "block"@ {
                seq![
                    "        self.blocks.insert(\""@ + ov.name + "\", "@ + ov.block_type->Some_0 + "::new(\""@ + ov.name
                        + "\")"@,
                ]
            } else if kind@ == "chain"@ {
                seq!["        self.chains.insert(\""@ + ov.name + "\", Chain::new(\""@ + ov.name + "\")"@]
            } else {
                seq![
                    "        let mode = OperativeMode::new(\""@ + ov.name + "\".to_string)"@,
                    "        stream.add_mode(mode);"@,
                ]
            }));
            if str_eq(o.k2_type.as_str(), kind) {
                if str_eq(kind, "block") {
                    assert(self.members().contains_key(names@[i as int]@) && self.members()[names@[i as int]@].k2_type == "block"@);
                    let bt = match &o.block_type {
                        Some(t) => t.as_str(),
                        None => "",
                    };
                    let line = String::from_str("        self.blocks.insert(\"").concat(o.name.as_str()).concat("\", ").concat(bt).concat("::new(\"").concat(o.name.as_str()).concat("\")");
                    r.push(line);
                    assert(r.deep_view() =~= prev.push(line@));
                } else if str_eq(kind, "chain") {
                    let line = String::from_str("        self.chains.insert(\"").concat(o.name.as_str()).concat("\", Chain::new(\"").concat(o.name.as_str()).concat("\")");
                    r.push(line);
                    assert(r.deep_view() =~= prev.push(line@));
                } else {
                    let line = String::from_str("        let mode = OperativeMode::new(\"").concat(o.name.as_str()).concat("\".to_string)");
                    r.push(line);
                    let line2 = "        stream.add_mode(mode);".to_owned();
                    r.push(line2);
                    assert(r.deep_view() =~= prev.push(line@).push(line2@));
                }
            } else {
                assert(r.deep_view() =~= prev + Seq::<Seq<char>>::empty());
            }
            assert(r.deep_view() =~= kind_lines(all.take(i + 1), self.members(), kind@));
            i = i + 1;
        }
        assert(all.take(i as int) =~= all);
        r
    }

    /// The configuration source lines: the blocks, the chains and the modes,
    /// each in the order they were created.
    pub fn configuration_lines(&self) -> (r: Vec<String>)
        requires
            self.well_formed(),
        ensures
            r.deep_view() == configuration_lines_spec(self.member_names(), self.members()),
    {
        proof {
            reveal_strlit("block");
            reveal_strlit("chain");
            reveal_strlit("mode");
        }
        let mut r: Vec<String> = Vec::new();
        r.push("impl StreamConfiguration {".to_owned());
        r.push("    fn create_blocks(&mut self) {".to_owned());
        let mut b = self.kind_lines_exec("block");
        r.append(&mut b);
        r.push("    }".to_owned());
        r.push("    fn create_chains(&mut self) {".to_owned());
        let mut c = self.kind_lines_exec("chain");
        r.append(&mut c);
        r.push("    }".to_owned());
        r.push("    fn create_modes(&mut self) {".to_owned());
        r.push("        let stream = StreamController::get_stream_by_id(self.stream_id)?;".to_owned());
        r.push("        let mut stream = stream.lock().map_err(|_|k2err!(K2ErrorCode::LockError, \"\".to_string()))?;".to_owned());
        r.push("        let stream = stream.as_any_mut().downcast_mut::<StreamController>().unwrap();".to_owned());
        let mut m = self.kind_lines_exec("mode");
        r.append(&mut m);
        r.push("    }".to_owned());
        r.push("    fn create_chains(&mut self) {".to_owned());
        assert(r.deep_view() =~= configuration_lines_spec(self.member_names(), self.members()));
        r
    }

    /// Works out the configuration lines; the configuration file itself is
    /// not written yet, so the answer is always `Ok`.
    pub fn generate(&mut self) -> (r: Result<String, K2Error>)
        requires
            old(self).well_formed(),
        ensures
            r matches Ok(m) && m@ == "Ok"@,
            *final(self) == *old(self),
    {
        let _lines = self.configuration_lines();
        Ok("Ok".to_owned())
    }

    /// Building is left to the build tool; this step always succeeds.
    pub fn build(&self) -> (r: Result<String, K2Error>)
        ensures
            r matches Ok(m) && m@ == "Ok"@,
    {
        Ok("Ok".to_owned())
    }
}

/// The command words that the configuration handles are distinct.
proof fn lemma_streamer_words_differ()
    ensures
        "new"@ != "add"@,
        "new"@ != "delete"@,
        "new"@ != "set"@,
        "new"@ != "connect"@,
        "new"@ != "disconnect"@,
        "add"@ != "delete"@,
        "add"@ != "set"@,
        "add"@ != "connect"@,
        "add"@ != "disconnect"@,
        "delete"@ != "set"@,
        "delete"@ != "connect"@,
        "delete"@ != "disconnect"@,
        "set"@ != "connect"@,
        "set"@ != "disconnect"@,
        "connect"@ != "disconnect"@,
{
    reveal_strlit("new");
    reveal_strlit("add");
    reveal_strlit("delete");
    reveal_strlit("set");
    reveal_strlit("connect");
    reveal_strlit("disconnect");
    assert("new"@[0] != "add"@[0]);
    assert("new"@[0] != "set"@[0]);
    assert("add"@[0] != "set"@[0]);
    assert("delete"@.len() != "new"@.len());
    assert("connect"@.len() != "new"@.len());
    assert("disconnect"@.len() != "new"@.len());
    assert("delete"@.len() != "add"@.len());
    assert("connect"@.len() != "add"@.len());
    assert("disconnect"@.len() != "add"@.len());
    assert("delete"@.len() != "set"@.len());
    assert("delete"@.len() != "connect"@.len());
    assert("delete"@.len() != "disconnect"@.len());
    assert("set"@.len() != "connect"@.len());
    assert("set"@.len() != "disconnect"@.len());
    assert("connect"@.len() != "disconnect"@.len());
}

/// Connections without a pair are left as they are by forgetting it.
proof fn lemma_without_absent(s: Seq<(Seq<char>, Seq<char>)>, p: (Seq<char>, Seq<char>))
    requires
        !s.contains(p),
    ensures
        without_pair(s, p) == s,
    decreases s.len(),
{
    if s.len() > 0 {
        assert(!s.drop_last().contains(p)) by {
            if s.drop_last().contains(p) {
                let k = choose|k: int| 0 <= k < s.drop_last().len() && s.drop_last()[k] == p;
                assert(s[k] == p);
            }
        }
        lemma_without_absent(s.drop_last(), p);
        assert(s.last() != p);
        assert(s.drop_last().push(s.last()) =~= s);
    }
}

/// Disconnecting a pair that a block did not hold before it was connected
/// gives back the block's connections as they were.
pub proof fn law_disconnect_undoes_connect(s: Seq<(Seq<char>, Seq<char>)>, p: (Seq<char>, Seq<char>))
    requires
        !s.contains(p),
    ensures
        without_pair(s.push(p), p) == s,
{
    assert(s.push(p).drop_last() =~= s);
    lemma_without_absent(s, p);
}

} // verus!
