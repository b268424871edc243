//! The analyzer stage of the first form of the language: it keeps a table of
//! the objects that commands create and links, and answers each command
//! with the objects it touched.
use vstd::prelude::*;
use crate::name_map::NameMap;
use crate::numbers::{
    parse_u32, parse_i32, u32_text, i32_text, nat_text, int_text, all_digits, is_digit,
    lemma_nat_text_digits, lemma_i32_text_round_trip, law_u32_text_round_trip,
};
use crate::text::{
    split_on, split_char, first_index, lemma_first_index, str_eq, join_dot, concat3, join_space, join_space_from,
    command_name_ok, check_command_chars,
};
use crate::k2_lang::objects::{
    K2Object, K2ObjectView, K2ReturnStruct, K2ReturnView, Table, table_view, table_insert,
    table_remove, table_get, table_has, without, remove_name, push_name, objects_view, with_prop,
    add_prop, drop_prop,
};
use crate::k2_lang::coder::{ProcessorCodePart, code_part_of_name};
use crate::k2_lang::syntax_tree::{
    reply, failed, one_reply, many_reply, connected, disconnected, records_link, counter_u32,
    counter_i32, link_text, outcome, make_reply, make_failed, single, clone_names, text,
    SyntaxTreeProcessor,
};
use crate::k2lang::parser::bare_object;
use crate::k2_stream::processors::ProcessorHeader;

verus! {

/// The table after the parent `pn`, which must have type `expected`, lists
/// `name` as a child; or why it refuses.
pub open spec fn attach_spec(
    t: Table,
    pn: Seq<char>,
    expected: Seq<char>,
    name: Seq<char>,
    wrong: Seq<char>,
) -> Result<Table, Seq<char>> {
    if !t.contains_key(pn) {
        Err("Parent object does not exist"@)
    } else if t[pn].object_type != expected {
        Err(wrong)
    } else {
        Ok(t.insert(pn, K2ObjectView { children: t[pn].children.push(name), ..t[pn] }))
    }
}

/// The object with one more parent.
pub open spec fn under(o: K2ObjectView, p: Seq<char>) -> K2ObjectView {
    K2ObjectView { parent: o.parent.push(p), ..o }
}

/// The name of the processor that holds a member: the first two pieces of
/// its name.
pub open spec fn holder_name(ps: Seq<Seq<char>>) -> Seq<char> {
    ps[0] + seq!['.'] + ps[1]
}

/// What `new` builds for a name that is not yet taken, with the table after
/// the parent listed it; or why it refuses. A refusal after the parent
/// listed the object keeps the parent's change.
pub open spec fn ast_build(t: Table, k: Seq<Seq<char>>) -> (Table, Result<K2ObjectView, Seq<char>>) {
    let ty = k[1];
    let name = k[2];
    let obj = bare_object(name, ty);
    let ps = split_on(name, '.');
    if ty == "input"@ || ty == "output"@ {
        if ps.len() != 3 {
            (t, Err("Invalid object name format for input/output"@))
        } else {
            let pn = holder_name(ps);
            match attach_spec(t, pn, "processor"@, name, "Parent object must be a processor"@) {
                Err(e) => (t, Err(e)),
                Ok(t1) => if k.len() < 4 {
                    (t1, Err("Invalid k2_parse_struct.tokens length for input/output"@))
                } else if k[3].len() == 0 {
                    (t1, Err("Data type cannot be empty"@))
                } else {
                    (t1, Ok(with_prop(under(obj, pn), "type"@, k[3])))
                },
            }
        }
    } else if ty == "parameter"@ || ty == "state"@ {
        if ps.len() != 3 {
            (t, Err("Invalid object name format for parameter/state"@))
        } else {
            let pn = holder_name(ps);
            match attach_spec(t, pn, "processor"@, name, "Parent object must be a processor"@) {
                Err(e) => (t, Err(e)),
                Ok(t1) => if k.len() < 5 {
                    (t1, Err("Invalid k2_parse_struct.tokens length for parameter/state"@))
                } else if k[3].len() == 0 {
                    (t1, Err("Data type cannot be empty"@))
                } else if k[4].len() == 0 {
                    (t1, Err("Value cannot be empty"@))
                } else {
                    let o = with_prop(with_prop(under(obj, pn), "type"@, k[3]), "value"@, k[4]);
                    if ty == "parameter"@ {
                        let kind = if k.len() == 6 {
                            k[5]
                        } else {
                            "dynamic"@
                        };
                        if kind != "static"@ && kind != "dynamic"@ {
                            (t1, Err("Parameter kind must be either static or dynamic"@))
                        } else {
                            (t1, Ok(with_prop(o, "kind"@, kind)))
                        }
                    } else {
                        (t1, Ok(o))
                    }
                },
            }
        }
    } else if ty == "processor"@ {
        if ps.len() != 2 {
            (t, Err("Invalid object name format for processor"@))
        } else {
            match attach_spec(t, ps[0], "library"@, name, "Parent object must be a library"@) {
                Err(e) => (t, Err(e)),
                Ok(t1) => (t1, Ok(under(obj, ps[0]))),
            }
        }
    } else if ty == "library"@ || ty == "application"@ {
        if k.len() < 3 {
            (t, Err("Invalid k2_parse_struct.tokens length for library/application"@))
        } else if ps.len() != 1 {
            (t, Err("Invalid object name format"@))
        } else if t.contains_key(ps[0]) {
            (t, Err("Object with the same name already exists"@))
        } else {
            (t, Ok(with_prop(obj, "path"@, k[2])))
        }
    } else if ty == "chain"@ || ty == "mode"@ {
        if ps.len() != 2 {
            (t, Err("Invalid object name format for chain/mode"@))
        } else {
            match attach_spec(t, ps[0], "application"@, name, "Parent object must be an application"@) {
                Err(e) => (t, Err(e)),
                Ok(t1) => (t1, Ok(under(obj, ps[0]))),
            }
        }
    } else if ty == "stream"@ {
        if ps.len() != 2 {
            (t, Err("Invalid object name format for stream"@))
        } else if k.len() < 4 {
            (t, Err("Invalid k2_parse_struct.tokens length for stream"@))
        } else {
            match attach_spec(t, ps[0], "application"@, name, "Parent object must be an application"@) {
                Err(e) => (t, Err(e)),
                Ok(t1) => if k[3].len() == 0 {
                    (t1, Err("Processor cannot be empty"@))
                } else {
                    (
                        t1,
                        Ok(with_prop(with_prop(under(obj, ps[0]), "type"@, k[3]), "connection"@, "0"@)),
                    )
                },
            }
        }
    } else if ty == "command"@ {
        if !command_name_ok(name) {
            (t, Err("Invalid object name"@))
        } else {
            (t, Ok(obj))
        }
    } else {
        (t, Err("Invalid object type"@))
    }
}

/// What `new` does: the object goes into the table under its name.
pub open spec fn ast_new(t: Table, k: Seq<Seq<char>>) -> (Table, Result<K2ObjectView, Seq<char>>) {
    if t.contains_key(k[2]) {
        (t, Err("Object with the same name already exists"@))
    } else {
        let (t1, r) = ast_build(t, k);
        match r {
            Err(e) => (t1, Err(e)),
            Ok(o) => (t1.insert(k[2], o), Ok(o)),
        }
    }
}

/// What `add` does: a chain joins a mode, or a stream a chain. The parent
/// is the first name, the child the second.
pub open spec fn ast_add(t: Table, k: Seq<Seq<char>>) -> (Table, Result<Seq<K2ObjectView>, Seq<char>>) {
    if k.len() < 3 {
        (t, Err("Invalid k2_parse_struct.tokens length"@))
    } else {
        let pn = k[1];
        let cn = k[2];
        if !t.contains_key(pn) {
            (t, Err("Parent object does not exist"@))
        } else if !t.contains_key(cn) {
            (t, Err("Child object does not exist"@))
        } else {
            let pt = t[pn].object_type;
            let ct = t[cn].object_type;
            let refusal: Option<Seq<char>> = if pt == "mode"@ {
                if ct != "chain"@ {
                    Some("Child object must be a chain"@)
                } else {
                    None
                }
            } else if pt == "chain"@ {
                if ct != "stream"@ {
                    Some("Child object must be a processor"@)
                } else {
                    None
                }
            } else {
                Some("Parent object must be a mode or a chain"@)
            };
            match refusal {
                Some(e) => (t, Err(e)),
                None => {
                    let p2 = K2ObjectView { children: t[pn].children.push(cn), ..t[pn] };
                    let c2 = under(t[cn], pn);
                    (t.insert(pn, p2).insert(cn, c2), Ok(seq![p2, c2]))
                },
            }
        }
    }
}

/// Every parent still in the table forgets the deleted object.
pub open spec fn forget_in_parents(t: Table, parents: Seq<Seq<char>>, name: Seq<char>) -> Table
    decreases parents.len(),
{
    if parents.len() == 0 {
        t
    } else {
        let p = parents[0];
        let t2 = if t.contains_key(p) {
            t.insert(p, K2ObjectView { children: without(t[p].children, name), ..t[p] })
        } else {
            t
        };
        forget_in_parents(t2, parents.drop_first(), name)
    }
}

/// Every child goes with the deleted object; those still in the table are
/// listed without it among their parents.
pub open spec fn remove_children(t: Table, children: Seq<Seq<char>>, name: Seq<char>) -> (
    Table,
    Seq<K2ObjectView>,
)
    decreases children.len(),
{
    if children.len() == 0 {
        (t, Seq::empty())
    } else {
        let c = children[0];
        if t.contains_key(c) {
            let o = K2ObjectView { parent: without(t[c].parent, name), ..t[c] };
            let (t2, d) = remove_children(t.remove(c), children.drop_first(), name);
            (t2, seq![o] + d)
        } else {
            remove_children(t.remove(c), children.drop_first(), name)
        }
    }
}

/// What `delete` does, and the objects it lists: the object, then its
/// children.
pub open spec fn ast_delete(t: Table, k: Seq<Seq<char>>) -> (Table, Result<Seq<K2ObjectView>, Seq<char>>) {
    if k.len() < 2 {
        (t, Err("Invalid k2_parse_struct.tokens length"@))
    } else {
        let name = k[1];
        if !t.contains_key(name) {
            (t, Err("Object does not exist"@))
        } else {
            let o = t[name];
            let t1 = forget_in_parents(t, o.parent, name);
            let (t2, d) = remove_children(t1, o.children, name);
            (t2.remove(name), Ok(seq![o] + d))
        }
    }
}

/// Whether `set` looks up an object that is not there: a missing member of
/// a processor named after a code part.
pub open spec fn ast_set_unsafe(t: Table, k: Seq<Seq<char>>) -> bool {
    let ps = split_on(k[1], '.');
    &&& k.len() >= 4
    &&& !t.contains_key(k[1])
    &&& ps.len() == 3
    &&& t.contains_key(holder_name(ps))
    &&& t[holder_name(ps)].object_type == "processor"@
    &&& code_part_of_name(ps[2]) is Some
}

/// What `set` does: an object records a property, whose value is the rest
/// of the tokens joined by spaces.
pub open spec fn ast_set(t: Table, k: Seq<Seq<char>>) -> (Table, Result<K2ObjectView, Seq<char>>) {
    if k.len() < 4 {
        (t, Err("Invalid k2_parse_struct.tokens length"@))
    } else {
        let name = k[1];
        if !t.contains_key(name) {
            let ps = split_on(name, '.');
            if ps.len() == 3 && t.contains_key(holder_name(ps)) && t[holder_name(ps)].object_type
                == "processor"@ {
                (t, Err("Invalid code part"@))
            } else {
                (t, Err("Object does not exist"@))
            }
        } else {
            let o = with_prop(t[name], k[2], join_space(k.skip(3)));
            (t.insert(name, o), Ok(o))
        }
    }
}

/// The checks that `connect` and `disconnect` share: the stream that holds
/// the source, or why they refuse.
pub open spec fn ast_link_check(t: Table, k: Seq<Seq<char>>) -> Result<Seq<char>, Seq<char>> {
    if k.len() < 3 {
        Err("Invalid k2_parse_struct.tokens length"@)
    } else {
        let ss = split_on(k[1], '.');
        let ts = split_on(k[2], '.');
        if ss.len() != 3 || ts.len() != 3 {
            Err("Invalid object name format"@)
        } else {
            let sp = holder_name(ss);
            let tp = holder_name(ts);
            if !t.contains_key(sp) || !t.contains_key(tp) {
                Err("Source or target parent object does not exist"@)
            } else if t[sp].object_type != "stream"@ || t[tp].object_type != "stream"@ {
                Err("Source and target parent objects must be streams"@)
            } else {
                Ok(sp)
            }
        }
    }
}

/// What `connect` does: the source's stream records the connection.
pub open spec fn ast_connect(t: Table, k: K2ReturnView) -> (Table, Result<K2ReturnView, Seq<char>>) {
    match ast_link_check(t, k.tokens) {
        Err(e) => (t, Err(e)),
        Ok(sp) => {
            let o = connected(t[sp], k.tokens);
            (t.insert(sp, o), Ok(reply(k, "Connect"@, seq![o])))
        },
    }
}

/// Whether `(t2, out)` is what `disconnect` may do: the source's stream
/// forgets one entry that records the connection.
pub open spec fn ast_disconnect_outcome(
    t: Table,
    k: K2ReturnView,
    t2: Table,
    out: Result<K2ReturnView, Seq<char>>,
) -> bool {
    match ast_link_check(t, k.tokens) {
        Err(e) => t2 == t && out == Err::<K2ReturnView, Seq<char>>(e),
        Ok(sp) => if exists|key: Seq<char>| records_link(t[sp], k.tokens, key) {
            exists|key: Seq<char>|
                records_link(t[sp], k.tokens, key) && t2 == t.insert(sp, disconnected(t[sp], key))
                    && out == Ok::<K2ReturnView, Seq<char>>(
                    reply(k, "Disconnect"@, seq![disconnected(t[sp], key)]),
                )
        } else {
            t2 == t && out == Err::<K2ReturnView, Seq<char>>("Connection does not exist"@)
        },
    }
}

/// The text that records a connection holds a dot, so it is no number.
proof fn lemma_link_text_not_number(k: Seq<Seq<char>>, m: nat)
    requires
        k.len() >= 3,
        split_on(k[1], '.').len() == 3,
    ensures
        link_text(k) != nat_text(m),
{
    lemma_first_index(k[1], '.');
    lemma_nat_text_digits(m);
    let fi = first_index(k[1], '.');
    assert(fi < k[1].len());
    assert(link_text(k)[fi] == '.');
    if link_text(k) == nat_text(m) {
        assert(is_digit(nat_text(m)[fi]));
    }
}

/// Disconnecting a connection just recorded gives back the table as it was:
/// on a stream whose counter is a number `n`, that records the connection
/// nowhere and has no entry under the next number, `connect` followed by
/// `disconnect` of the same two ports succeeds and changes nothing.
pub proof fn law_disconnect_undoes_connect(
    t: Table,
    k: K2ReturnView,
    n: u32,
    t2: Table,
    out: Result<K2ReturnView, Seq<char>>,
)
    requires
        ast_link_check(t, k.tokens) matches Ok(sp) && t[sp].properties.contains_key("connection"@)
            && t[sp].properties["connection"@] == nat_text(n as nat) && n < i32::MAX
            && !t[sp].properties.contains_key("connection_"@ + nat_text((n + 1) as nat))
            && forall|key: Seq<char>| !#[trigger] records_link(t[sp], k.tokens, key),
        ast_disconnect_outcome(ast_connect(t, k).0, k, t2, out),
    ensures
        t2 == t,
        out is Ok,
{
    let sp = ast_link_check(t, k.tokens)->Ok_0;
    let o = t[sp];
    let m: u32 = (n + 1) as u32;
    law_u32_text_round_trip(n);
    assert(counter_u32(o) == n);
    let cn = "connection_"@ + nat_text(m as nat);
    reveal_strlit("connection_");
    reveal_strlit("connection");
    assert(cn.len() > "connection"@.len());
    let o1 = connected(o, k.tokens);
    assert(o1.properties == o.properties.insert(cn, link_text(k.tokens)).insert("connection"@, nat_text(m as nat)));
    let t1 = ast_connect(t, k).0;
    assert(t1 == t.insert(sp, o1));
    assert(ast_link_check(t1, k.tokens) == ast_link_check(t, k.tokens));
    assert(records_link(o1, k.tokens, cn));
    lemma_link_text_not_number(k.tokens, m as nat);
    assert forall|key: Seq<char>| #[trigger] records_link(o1, k.tokens, key) implies key == cn by {
        if key != cn && key != "connection"@ {
            assert(records_link(o, k.tokens, key));
        }
    }
    let o1r = K2ObjectView { properties: o1.properties.remove(cn), ..o1 };
    assert(o1r.properties =~= o.properties.insert("connection"@, nat_text(m as nat)));
    lemma_i32_text_round_trip(m as nat);
    assert(counter_i32(o1r) == m);
    assert(int_text(n as int) == nat_text(n as nat));
    assert(disconnected(o1, cn).properties =~= o.properties);
    assert(disconnected(o1, cn) == o);
    assert(t1.insert(sp, disconnected(o1, cn)) =~= t);
}

/// What `exec` answers.
pub open spec fn ast_exec(k: K2ReturnView) -> Result<K2ReturnView, Seq<char>> {
    if k.tokens.len() < 2 {
        Err("Invalid k2_parse_struct.tokens length"@)
    } else {
        Ok(k)
    }
}

/// The answer for a handler's outcome: the reply, or a refusal that only
/// says that there was an error.
pub open spec fn ast_response(k: K2ReturnView, out: Result<K2ReturnView, Seq<char>>) -> K2ReturnView {
    match out {
        Ok(v) => v,
        Err(_) => failed(k, "Error"@),
    }
}

/// What the analyzer does with an accepted command other than
/// `disconnect`, by its keyword.
pub open spec fn ast_command(t: Table, k: K2ReturnView) -> (Table, K2ReturnView) {
    let w = k.tokens[0];
    if w == "new"@ {
        let (t2, r) = ast_new(t, k.tokens);
        (t2, ast_response(k, one_reply(k, "Parsed"@, r)))
    } else if w == "add"@ {
        let (t2, r) = ast_add(t, k.tokens);
        (t2, ast_response(k, many_reply(k, "Add"@, r)))
    } else if w == "delete"@ {
        let (t2, r) = ast_delete(t, k.tokens);
        (t2, ast_response(k, many_reply(k, "Delete"@, r)))
    } else if w == "set"@ {
        let (t2, r) = ast_set(t, k.tokens);
        (t2, ast_response(k, one_reply(k, "Set"@, r)))
    } else if w == "connect"@ {
        let (t2, r) = ast_connect(t, k);
        (t2, ast_response(k, r))
    } else if w == "exec"@ {
        (t, ast_response(k, ast_exec(k)))
    } else {
        (t, failed(k, "Unknown"@))
    }
}

/// What the handlers of the keywords need: `new` reads two tokens; `set`
/// finds the object it changes; `connect` and `disconnect` count the
/// connections without passing the counter's bounds.
pub open spec fn ast_command_safe(t: Table, k: Seq<Seq<char>>) -> bool {
    &&& k.len() >= 1
    &&& k[0] == "new"@ ==> k.len() >= 3
    &&& k[0] == "set"@ ==> !ast_set_unsafe(t, k)
    &&& k[0] == "connect"@ ==> (ast_link_check(t, k) matches Ok(sp) ==> counter_u32(t[sp]) < u32::MAX)
    &&& k[0] == "disconnect"@ ==> (ast_link_check(t, k) matches Ok(sp) ==> (forall|key: Seq<char>|
        #[trigger] records_link(t[sp], k, key) ==> counter_i32(
            K2ObjectView { properties: t[sp].properties.remove(key), ..t[sp] },
        ) > i32::MIN))
}

/// The analyzer stage.
pub struct AstProcessor {
    pub name: String,
    pub header: ProcessorHeader,
    objects: NameMap<K2Object>,
}

impl AstProcessor {
    /// The table of objects.
    pub closed spec fn table(&self) -> Table {
        table_view(self.objects)
    }

    /// The stage's name.
    pub closed spec fn label(&self) -> Seq<char> {
        self.name@
    }

    /// An analyzer with an empty table.
    pub fn new(name: String) -> (r: Self)
        ensures
            r.label() == name@,
            r.table() == Table::empty(),
    {
        let r = AstProcessor {
            name,
            header: ProcessorHeader {
                proc_name: text("AstProcessor"),
                description: text("The ast analyzer of K2Lang"),
                version: text("0.1.0"),
                author: text("Sofia Silvestri"),
                email: text("ms.sofia.silvestri@gmail.com"),
                license: text("LGPLv2.0"),
                repository: text(""),
            },
            objects: NameMap::new(),
        };
        assert(table_view(r.objects) =~= Table::empty());
        r
    }

    /// Lists `name` under the parent `pn`, which must have type `expected`.
    fn attach(&mut self, pn: &String, expected: &str, name: &String, wrong: &str) -> (r: Result<
        (),
        String,
    >)
        ensures
            match attach_spec(old(self).table(), pn@, expected@, name@, wrong@) {
                Ok(t1) => r is Ok && final(self).table() == t1,
                Err(e) => r matches Err(m) && m@ == e && final(self).table() == old(self).table(),
            },
            final(self).label() == old(self).label(),
    {
        let mut parent = match table_get(&self.objects, pn.as_str()) {
            Some(o) => o,
            None => {
                return Err(text("Parent object does not exist"));
            },
        };
        if !str_eq(parent.object_type.as_str(), expected) {
            return Err(text(wrong));
        }
        push_name(&mut parent.children, name.clone());
        table_insert(&mut self.objects, pn.clone(), parent);
        Ok(())
    }
    /// Creates an object, listed by its parent when it has one. The answer
    /// carries the new object.
    pub fn parse_new(&mut self, k2_parse_struct: &K2ReturnStruct) -> (r: Result<K2ReturnStruct, String>)
        requires
            k2_parse_struct@.tokens.len() >= 3,
        ensures
            final(self).table() == ast_new(old(self).table(), k2_parse_struct@.tokens).0,
            outcome(r) == one_reply(
                k2_parse_struct@,
                "Parsed"@,
                ast_new(old(self).table(), k2_parse_struct@.tokens).1,
            ),
            final(self).label() == old(self).label(),
    {
        let ghost kv = k2_parse_struct@.tokens;
        let k = &k2_parse_struct.tokens;
        assert(kv[1] == k@[1]@ && kv[2] == k@[2]@);
        let object_type = k[1].clone();
        let object_name = k[2].clone();
        if table_has(&self.objects, object_name.as_str()) {
            return Err(text("Object with the same name already exists"));
        }
        let mut obj = K2Object::named(object_name.clone(), object_type.clone());
        assert(obj@ == bare_object(object_name@, object_type@));
        let ty = object_type.as_str();
        let ps = split_char(object_name.as_str(), '.');
        let ghost psv = ps.deep_view();
        if str_eq(ty, "input") || str_eq(ty, "output") {
            if ps.len() != 3 {
                return Err(text("Invalid object name format for input/output"));
            }
            assert(psv[0] == ps@[0]@ && psv[1] == ps@[1]@);
            let parent_name = join_dot(ps[0].as_str(), ps[1].as_str());
            match self.attach(&parent_name, "processor", &object_name, "Parent object must be a processor") {
                Ok(()) => {},
                Err(e) => {
                    return Err(e);
                },
            }
            push_name(&mut obj.parent, parent_name);
            if k.len() < 4 {
                return Err(text("Invalid k2_parse_struct.tokens length for input/output"));
            }
            assert(kv[3] == k@[3]@);
            if k[3].as_str().unicode_len() == 0 {
                return Err(text("Data type cannot be empty"));
            }
            add_prop(&mut obj, "type", &k[3]);
        } else if str_eq(ty, "parameter") || str_eq(ty, "state") {
            if ps.len() != 3 {
                return Err(text("Invalid object name format for parameter/state"));
            }
            assert(psv[0] == ps@[0]@ && psv[1] == ps@[1]@);
            let parent_name = join_dot(ps[0].as_str(), ps[1].as_str());
            match self.attach(&parent_name, "processor", &object_name, "Parent object must be a processor") {
                Ok(()) => {},
                Err(e) => {
                    return Err(e);
                },
            }
            push_name(&mut obj.parent, parent_name);
            if k.len() < 5 {
                return Err(text("Invalid k2_parse_struct.tokens length for parameter/state"));
            }
            assert(kv[3] == k@[3]@ && kv[4] == k@[4]@);
            if k[3].as_str().unicode_len() == 0 {
                return Err(text("Data type cannot be empty"));
            }
            if k[4].as_str().unicode_len() == 0 {
                return Err(text("Value cannot be empty"));
            }
            add_prop(&mut obj, "type", &k[3]);
            add_prop(&mut obj, "value", &k[4]);
            if str_eq(ty, "parameter") {
                let kind = if k.len() == 6 {
                    assert(kv[5] == k@[5]@);
                    k[5].clone()
                } else {
                    text("dynamic")
                };
                if !str_eq(kind.as_str(), "static") && !str_eq(kind.as_str(), "dynamic") {
                    return Err(text("Parameter kind must be either static or dynamic"));
                }
                add_prop(&mut obj, "kind", &kind);
            }
        } else if str_eq(ty, "processor") {
            if ps.len() != 2 {
                return Err(text("Invalid object name format for processor"));
            }
            assert(psv[0] == ps@[0]@);
            match self.attach(&ps[0], "library", &object_name, "Parent object must be a library") {
                Ok(()) => {},
                Err(e) => {
                    return Err(e);
                },
            }
            push_name(&mut obj.parent, ps[0].clone());
        } else if str_eq(ty, "library") || str_eq(ty, "application") {
            if k.len() < 3 {
                return Err(text("Invalid k2_parse_struct.tokens length for library/application"));
            }
            if ps.len() != 1 {
                return Err(text("Invalid object name format"));
            }
            assert(psv[0] == ps@[0]@);
            if table_has(&self.objects, ps[0].as_str()) {
                return Err(text("Object with the same name already exists"));
            }
            add_prop(&mut obj, "path", &k[2]);
        } else if str_eq(ty, "chain") || str_eq(ty, "mode") {
            if ps.len() != 2 {
                return Err(text("Invalid object name format for chain/mode"));
            }
            assert(psv[0] == ps@[0]@);
            match self.attach(&ps[0], "application", &object_name, "Parent object must be an application") {
                Ok(()) => {},
                Err(e) => {
                    return Err(e);
                },
            }
            push_name(&mut obj.parent, ps[0].clone());
        } else if str_eq(ty, "stream") {
            if ps.len() != 2 {
                return Err(text("Invalid object name format for stream"));
            }
            if k.len() < 4 {
                return Err(text("Invalid k2_parse_struct.tokens length for stream"));
            }
            assert(psv[0] == ps@[0]@);
            match self.attach(&ps[0], "application", &object_name, "Parent object must be an application") {
                Ok(()) => {},
                Err(e) => {
                    return Err(e);
                },
            }
            push_name(&mut obj.parent, ps[0].clone());
            assert(kv[3] == k@[3]@);
            if k[3].as_str().unicode_len() == 0 {
                return Err(text("Processor cannot be empty"));
            }
            add_prop(&mut obj, "type", &k[3]);
            add_prop(&mut obj, "connection", &text("0"));
        } else if str_eq(ty, "command") {
            if !check_command_chars(object_name.as_str()) {
                return Err(text("Invalid object name"));
            }
        } else {
            return Err(text("Invalid object type"));
        }
        table_insert(&mut self.objects, object_name, obj.duplicate());
        Ok(make_reply(k2_parse_struct, "Parsed", single(obj)))
    }

    /// Adds a chain to a mode, or a stream to a chain.
    pub fn parse_add(&mut self, k2_parse_struct: &K2ReturnStruct) -> (r: Result<K2ReturnStruct, String>)
        ensures
            final(self).table() == ast_add(old(self).table(), k2_parse_struct@.tokens).0,
            outcome(r) == many_reply(
                k2_parse_struct@,
                "Add"@,
                ast_add(old(self).table(), k2_parse_struct@.tokens).1,
            ),
            final(self).label() == old(self).label(),
    {
        let ghost kv = k2_parse_struct@.tokens;
        let k = &k2_parse_struct.tokens;
        if k.len() < 3 {
            return Err(text("Invalid k2_parse_struct.tokens length"));
        }
        assert(kv[1] == k@[1]@ && kv[2] == k@[2]@);
        let mut parent = match table_get(&self.objects, k[1].as_str()) {
            Some(o) => o,
            None => {
                return Err(text("Parent object does not exist"));
            },
        };
        let mut child = match table_get(&self.objects, k[2].as_str()) {
            Some(o) => o,
            None => {
                return Err(text("Child object does not exist"));
            },
        };
        let pt = parent.object_type.as_str();
        let ct = child.object_type.as_str();
        if str_eq(pt, "mode") {
            if !str_eq(ct, "chain") {
                return Err(text("Child object must be a chain"));
            }
        } else if str_eq(pt, "chain") {
            if !str_eq(ct, "stream") {
                return Err(text("Child object must be a processor"));
            }
        } else {
            return Err(text("Parent object must be a mode or a chain"));
        }
        push_name(&mut parent.children, k[2].clone());
        push_name(&mut child.parent, k[1].clone());
        table_insert(&mut self.objects, k[1].clone(), parent.duplicate());
        table_insert(&mut self.objects, k[2].clone(), child.duplicate());
        let data = vec![parent, child];
        assert(objects_view(data@) =~= seq![data@[0]@, data@[1]@]);
        Ok(make_reply(k2_parse_struct, "Add", data))
    }

    /// Deletes an object and its children; its parents forget it.
    pub fn parse_delete(&mut self, k2_parse_struct: &K2ReturnStruct) -> (r: Result<K2ReturnStruct, String>)
        ensures
            final(self).table() == ast_delete(old(self).table(), k2_parse_struct@.tokens).0,
            outcome(r) == many_reply(
                k2_parse_struct@,
                "Delete"@,
                ast_delete(old(self).table(), k2_parse_struct@.tokens).1,
            ),
            final(self).label() == old(self).label(),
    {
        let ghost t0 = self.table();
        let ghost kv = k2_parse_struct@.tokens;
        if k2_parse_struct.tokens.len() < 2 {
            return Err(text("Invalid k2_parse_struct.tokens length"));
        }
        assert(kv[1] == k2_parse_struct.tokens@[1]@);
        let object_name = k2_parse_struct.tokens[1].clone();
        let ghost name = object_name@;
        let object = match table_get(&self.objects, object_name.as_str()) {
            Some(o) => o,
            None => {
                return Err(text("Object does not exist"));
            },
        };
        let ghost ov = object@;
        let parents = clone_names(&object.parent);
        let ghost pall = parents.deep_view();
        let mut i: usize = 0;
        assert(pall.skip(0) =~= pall);
        while i < parents.len()
            invariant
                i <= parents.len(),
                pall == parents.deep_view(),
                name == object_name@,
                forget_in_parents(self.table(), pall.skip(i as int), name) == forget_in_parents(
                    t0,
                    pall,
                    name,
                ),
                self.label() == old(self).label(),
            decreases parents.len() - i,
        {
            let ghost rest = pall.skip(i as int);
            assert(rest[0] == parents@[i as int]@);
            assert(rest.drop_first() =~= pall.skip(i + 1));
            match table_get(&self.objects, parents[i].as_str()) {
                Some(p) => {
                    let mut p = p;
                    remove_name(&mut p.children, object_name.as_str());
                    table_insert(&mut self.objects, parents[i].clone(), p);
                },
                None => {},
            }
            i = i + 1;
        }
        assert(pall.skip(i as int) =~= Seq::<Seq<char>>::empty());
        let ghost t1 = self.table();
        let ghost full = remove_children(t1, ov.children, name);
        let mut deleted = vec![object.duplicate()];
        assert(objects_view(deleted@) =~= seq![ov]);
        let children = clone_names(&object.children);
        let ghost call = children.deep_view();
        let mut j: usize = 0;
        assert(call.skip(0) =~= call);
        while j < children.len()
            invariant
                j <= children.len(),
                call == children.deep_view(),
                call == ov.children,
                name == object_name@,
                full == remove_children(t1, call, name),
                remove_children(self.table(), call.skip(j as int), name).0 == full.0,
                objects_view(deleted@) + remove_children(self.table(), call.skip(j as int), name).1
                    == seq![ov] + full.1,
                self.label() == old(self).label(),
            decreases children.len() - j,
        {
            let ghost rest = call.skip(j as int);
            assert(rest[0] == children@[j as int]@);
            assert(rest.drop_first() =~= call.skip(j + 1));
            match table_get(&self.objects, children[j].as_str()) {
                Some(c) => {
                    let mut c = c;
                    remove_name(&mut c.parent, object_name.as_str());
                    let ghost before = objects_view(deleted@);
                    deleted.push(c);
                    assert(objects_view(deleted@) =~= before.push(deleted@[deleted@.len() - 1]@));
                    table_remove(&mut self.objects, children[j].as_str());
                    let ghost d = remove_children(self.table(), rest.drop_first(), name).1;
                    assert(before.push(deleted@[deleted@.len() - 1]@) + d =~= before + (seq![
                        deleted@[deleted@.len() - 1]@,
                    ] + d));
                },
                None => {
                    table_remove(&mut self.objects, children[j].as_str());
                },
            }
            j = j + 1;
        }
        assert(call.skip(j as int) =~= Seq::<Seq<char>>::empty());
        assert(objects_view(deleted@) =~= seq![ov] + full.1);
        table_remove(&mut self.objects, object_name.as_str());
        Ok(make_reply(k2_parse_struct, "Delete", deleted))
    }

    /// Records a property of an object: the value is the rest of the
    /// tokens joined by spaces.
    pub fn parse_set(&mut self, k2_parse_struct: &K2ReturnStruct) -> (r: Result<K2ReturnStruct, String>)
        requires
            !ast_set_unsafe(old(self).table(), k2_parse_struct@.tokens),
        ensures
            final(self).table() == ast_set(old(self).table(), k2_parse_struct@.tokens).0,
            outcome(r) == one_reply(
                k2_parse_struct@,
                "Set"@,
                ast_set(old(self).table(), k2_parse_struct@.tokens).1,
            ),
            final(self).label() == old(self).label(),
    {
        let ghost kv = k2_parse_struct@.tokens;
        let k = &k2_parse_struct.tokens;
        if k.len() < 4 {
            return Err(text("Invalid k2_parse_struct.tokens length"));
        }
        assert(kv[1] == k@[1]@ && kv[2] == k@[2]@);
        let object_name = k[1].clone();
        if !table_has(&self.objects, object_name.as_str()) {
            let ps = split_char(object_name.as_str(), '.');
            let ghost psv = ps.deep_view();
            if ps.len() == 3 {
                assert(psv[0] == ps@[0]@ && psv[1] == ps@[1]@ && psv[2] == ps@[2]@);
                let parent_name = join_dot(ps[0].as_str(), ps[1].as_str());
                match table_get(&self.objects, parent_name.as_str()) {
                    Some(p) => {
                        if str_eq(p.object_type.as_str(), "processor") {
                            match ProcessorCodePart::from_name(ps[2].as_str()) {
                                None => {
                                    return Err(text("Invalid code part"));
                                },
                                Some(_) => {
                                    return Err(text("Invalid code part"));
                                },
                            }
                        } else {
                            return Err(text("Object does not exist"));
                        }
                    },
                    None => {
                        return Err(text("Object does not exist"));
                    },
                }
            } else {
                return Err(text("Object does not exist"));
            }
        }
        let mut object = match table_get(&self.objects, object_name.as_str()) {
            Some(o) => o,
            None => {
                return Err(text("Object does not exist"));
            },
        };
        let value = join_space_from(k, 3);
        add_prop(&mut object, k[2].as_str(), &value);
        table_insert(&mut self.objects, object_name, object.duplicate());
        Ok(make_reply(k2_parse_struct, "Set", single(object)))
    }

    /// The checks that `connect` and `disconnect` share: the name of the
    /// stream that holds the source.
    fn link_parent(&self, k2_parse_struct: &K2ReturnStruct) -> (r: Result<String, String>)
        ensures
            match ast_link_check(self.table(), k2_parse_struct@.tokens) {
                Ok(sp) => r matches Ok(s) && s@ == sp,
                Err(e) => r matches Err(m) && m@ == e,
            },
    {
        let ghost kv = k2_parse_struct@.tokens;
        let k = &k2_parse_struct.tokens;
        if k.len() < 3 {
            return Err(text("Invalid k2_parse_struct.tokens length"));
        }
        assert(kv[1] == k@[1]@ && kv[2] == k@[2]@);
        let ss = split_char(k[1].as_str(), '.');
        let ts = split_char(k[2].as_str(), '.');
        if ss.len() != 3 || ts.len() != 3 {
            return Err(text("Invalid object name format"));
        }
        assert(ss.deep_view()[0] == ss@[0]@ && ss.deep_view()[1] == ss@[1]@);
        assert(ts.deep_view()[0] == ts@[0]@ && ts.deep_view()[1] == ts@[1]@);
        let source_parent_name = join_dot(ss[0].as_str(), ss[1].as_str());
        let target_parent_name = join_dot(ts[0].as_str(), ts[1].as_str());
        let source_parent = table_get(&self.objects, source_parent_name.as_str());
        let target_parent = table_get(&self.objects, target_parent_name.as_str());
        match (source_parent, target_parent) {
            (Some(sp), Some(tp)) => {
                if !str_eq(sp.object_type.as_str(), "stream") || !str_eq(
                    tp.object_type.as_str(),
                    "stream",
                ) {
                    return Err(text("Source and target parent objects must be streams"));
                }
                Ok(source_parent_name)
            },
            _ => Err(text("Source or target parent object does not exist")),
        }
    }

    /// Records a connection in the source's stream.
    pub fn parse_connect(&mut self, k2_parse_struct: &K2ReturnStruct) -> (r: Result<K2ReturnStruct, String>)
        requires
            ast_link_check(old(self).table(), k2_parse_struct@.tokens) matches Ok(sp)
                ==> counter_u32(old(self).table()[sp]) < u32::MAX,
        ensures
            final(self).table() == ast_connect(old(self).table(), k2_parse_struct@).0,
            outcome(r) == ast_connect(old(self).table(), k2_parse_struct@).1,
            final(self).label() == old(self).label(),
    {
        let ghost kv = k2_parse_struct@.tokens;
        let source_parent_name = match self.link_parent(k2_parse_struct) {
            Ok(p) => p,
            Err(e) => {
                return Err(e);
            },
        };
        let mut source_parent = match table_get(&self.objects, source_parent_name.as_str()) {
            Some(o) => o,
            None => {
                return Err(text(""));
            },
        };
        let current = match parse_u32(SyntaxTreeProcessor::counter_text(&source_parent).as_str()) {
            Some(n) => n,
            None => 0,
        };
        let number = current + 1;
        let k = &k2_parse_struct.tokens;
        assert(kv[1] == k@[1]@ && kv[2] == k@[2]@);
        let key = String::from_str("connection_").concat(u32_text(number).as_str());
        let value = concat3(k[1].as_str(), "-", k[2].as_str());
        add_prop(&mut source_parent, key.as_str(), &value);
        add_prop(&mut source_parent, "connection", &u32_text(number));
        table_insert(&mut self.objects, source_parent_name, source_parent.duplicate());
        Ok(make_reply(k2_parse_struct, "Connect", single(source_parent)))
    }

    /// Removes a recorded connection from the source's stream.
    pub fn parse_disconnect(&mut self, k2_parse_struct: &K2ReturnStruct) -> (r: Result<
        K2ReturnStruct,
        String,
    >)
        requires
            ast_link_check(old(self).table(), k2_parse_struct@.tokens) matches Ok(sp) ==> (forall|
                key: Seq<char>,
            |
                #[trigger] records_link(old(self).table()[sp], k2_parse_struct@.tokens, key)
                    ==> counter_i32(
                    K2ObjectView {
                        properties: old(self).table()[sp].properties.remove(key),
                        ..old(self).table()[sp]
                    },
                ) > i32::MIN),
        ensures
            ast_disconnect_outcome(old(self).table(), k2_parse_struct@, final(self).table(), outcome(r)),
            final(self).label() == old(self).label(),
    {
        let ghost t = self.table();
        let ghost kv = k2_parse_struct@.tokens;
        let source_parent_name = match self.link_parent(k2_parse_struct) {
            Ok(p) => p,
            Err(e) => {
                return Err(e);
            },
        };
        let mut source_parent = match table_get(&self.objects, source_parent_name.as_str()) {
            Some(o) => o,
            None => {
                return Err(text(""));
            },
        };
        let ghost o = source_parent@;
        let k = &k2_parse_struct.tokens;
        assert(kv[1] == k@[1]@ && kv[2] == k@[2]@);
        let target = concat3(k[1].as_str(), "-", k[2].as_str());
        match source_parent.properties.key_of_value(target.as_str()) {
            None => {
                assert(!exists|key: Seq<char>| records_link(o, kv, key));
                Err(text("Connection does not exist"))
            },
            Some(key) => {
                assert(records_link(o, kv, key@));
                drop_prop(&mut source_parent, key.as_str());
                let current = match parse_i32(
                    SyntaxTreeProcessor::counter_text(&source_parent).as_str(),
                ) {
                    Some(n) => n,
                    None => 0,
                };
                let number = current - 1;
                if number >= 0 {
                    add_prop(&mut source_parent, "connection", &i32_text(number));
                }
                assert(source_parent@ == disconnected(o, key@));
                table_insert(&mut self.objects, source_parent_name, source_parent.duplicate());
                let r = make_reply(k2_parse_struct, "Disconnect", single(source_parent));
                assert(records_link(o, kv, key@) && self.table() == t.insert(
                    source_parent_name@,
                    disconnected(o, key@),
                ) && outcome(Ok::<K2ReturnStruct, String>(r)) == Ok::<K2ReturnView, Seq<char>>(
                    reply(k2_parse_struct@, "Disconnect"@, seq![disconnected(o, key@)]),
                ));
                Ok(r)
            },
        }
    }

    /// Passes an `exec` command on.
    fn parse_exec(&mut self, k2_parse_struct: &K2ReturnStruct) -> (r: Result<K2ReturnStruct, String>)
        ensures
            final(self).table() == old(self).table(),
            outcome(r) == ast_exec(k2_parse_struct@),
            final(self).label() == old(self).label(),
    {
        if k2_parse_struct.tokens.len() < 2 {
            return Err(text("Invalid k2_parse_struct.tokens length"));
        }
        Ok(k2_parse_struct.duplicate())
    }

    /// Runs the handler of an accepted command's keyword. A refused command
    /// passes through; a handler's refusal, or an unknown keyword, gives an
    /// answer that says so.
    pub fn parse_command(&mut self, k2_parse_struct: &K2ReturnStruct) -> (r: K2ReturnStruct)
        requires
            k2_parse_struct@.success ==> ast_command_safe(old(self).table(), k2_parse_struct@.tokens),
        ensures
            !k2_parse_struct@.success ==> final(self).table() == old(self).table() && r@
                == k2_parse_struct@,
            k2_parse_struct@.success && k2_parse_struct@.tokens[0] != "disconnect"@
                ==> final(self).table() == ast_command(old(self).table(), k2_parse_struct@).0,
            k2_parse_struct@.success && k2_parse_struct@.tokens[0] != "disconnect"@ ==> r@
                == ast_command(old(self).table(), k2_parse_struct@).1,
            k2_parse_struct@.success && k2_parse_struct@.tokens[0] == "disconnect"@ ==> exists|
                out: Result<K2ReturnView, Seq<char>>,
            |
                ast_disconnect_outcome(old(self).table(), k2_parse_struct@, final(self).table(), out)
                    && r@ == ast_response(k2_parse_struct@, out),
            final(self).label() == old(self).label(),
    {
        if !k2_parse_struct.success {
            return k2_parse_struct.duplicate();
        }
        assert(k2_parse_struct@.tokens[0] == k2_parse_struct.tokens@[0]@);
        let key_word = k2_parse_struct.tokens[0].as_str();
        if str_eq(key_word, "disconnect") {
            let ghost t = self.table();
            let result = self.parse_disconnect(k2_parse_struct);
            let ghost out = outcome(result);
            let answer = match result {
                Ok(res) => res,
                Err(_) => make_failed(k2_parse_struct, text("Error")),
            };
            assert(ast_disconnect_outcome(t, k2_parse_struct@, self.table(), out) && answer@
                == ast_response(k2_parse_struct@, out));
            return answer;
        }
        let result = if str_eq(key_word, "new") {
            self.parse_new(k2_parse_struct)
        } else if str_eq(key_word, "add") {
            self.parse_add(k2_parse_struct)
        } else if str_eq(key_word, "delete") {
            self.parse_delete(k2_parse_struct)
        } else if str_eq(key_word, "set") {
            self.parse_set(k2_parse_struct)
        } else if str_eq(key_word, "connect") {
            self.parse_connect(k2_parse_struct)
        } else if str_eq(key_word, "exec") {
            self.parse_exec(k2_parse_struct)
        } else {
            return make_failed(k2_parse_struct, text("Unknown"));
        };
        match result {
            Ok(res) => res,
            Err(_) => make_failed(k2_parse_struct, text("Error")),
        }
    }
}

} // verus!