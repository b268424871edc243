//! The syntax tree stage of the first form of the language: a table of named
//! objects that each accepted command changes, under the rules of which type
//! may sit inside which.
use vstd::prelude::*;
use crate::name_map::NameMap;
use crate::numbers::{parse_u32, parse_i32, u32_text, i32_text, u32_of_text, i32_of_text, nat_text, int_text, digits_value, digit_value};
use crate::text::{
    split_on, split_char, check_name_chars, all_pieces_nonempty, valid_object_name, str_eq,
    rsplit_once, rsplit_once_spec, join_dot, last_piece, last_piece_exec, concat3,
};
use crate::k2_lang::objects::{
    K2Object, K2ObjectView, K2ReturnStruct, K2ReturnView, Table, table_view, table_insert,
    table_remove, table_get, table_has, without, remove_name, push_name, objects_view, with_prop,
    add_prop, drop_prop, str_map,
};
use crate::k2lang::parser::bare_object;
use crate::k2_stream::processors::ProcessorHeader;

verus! {

/// The type that must hold an object of type `t`: `""` for the top-level
/// types, `None` for a type the tree does not know.
pub open spec fn parent_type_of(t: Seq<char>) -> Option<Seq<char>> {
    if t == "library"@ || t == "application"@ {
        Some(""@)
    } else if t == "processor"@ {
        Some("library"@)
    } else if t == "input"@ || t == "output"@ || t == "parameter"@ || t == "state"@ || t
        == "command"@ {
        Some("processor"@)
    } else if t == "streaming_control"@ {
        Some("application"@)
    } else if t == "block"@ || t == "mode"@ || t == "chain"@ {
        Some("streaming_control"@)
    } else {
        None
    }
}

/// The type that an object of type `t` may be added to.
pub open spec fn add_target_of(t: Seq<char>) -> Option<Seq<char>> {
    if t == "block"@ {
        Some("chain"@)
    } else if t == "chain"@ {
        Some("mode"@)
    } else {
        None
    }
}

/// Whether a name is well formed, and if so whether the table holds it.
pub open spec fn valid_object_spec(t: Table, name: Seq<char>) -> Result<bool, Seq<char>> {
    if !valid_object_name(name) {
        Err("Invalid object name"@)
    } else {
        Ok(t.contains_key(name))
    }
}

/// The parent under which an object of type `ty` named `name` may be
/// created, or why it may not.
pub open spec fn valid_parent_spec(t: Table, init: bool, name: Seq<char>, ty: Seq<char>) -> Result<
    Seq<char>,
    Seq<char>,
> {
    if ty == "library"@ || ty == "application"@ {
        Ok(""@)
    } else {
        match rsplit_once_spec(name, '.') {
            None => Err("Invalid parent name"@),
            Some((p, _)) => if !valid_object_name(p) {
                Err("Invalid object name"@)
            } else if !t.contains_key(p) {
                Err("Object "@ + p + " not found"@)
            } else if !init {
                Err("SyntaxTree not initialized"@)
            } else {
                match parent_type_of(ty) {
                    None => Err("Unkonw type "@ + ty),
                    Some(pt) => if pt == t[p].object_type {
                        Ok(p)
                    } else {
                        Err(ty + " type cannot be created inside "@ + t[p].object_type)
                    },
                }
            },
        }
    }
}

/// Links a child under a parent: the parent lists the child, then the child
/// lists the parent. A missing object stops it, keeping what was done.
pub open spec fn add_children_spec(t: Table, p: Seq<char>, c: Seq<char>) -> (
    Table,
    Result<(), Seq<char>>,
) {
    if !t.contains_key(p) {
        (t, Err("Object "@ + p + " not found"@))
    } else {
        let t1 = t.insert(p, K2ObjectView { children: t[p].children.push(c), ..t[p] });
        if !t1.contains_key(c) {
            (t1, Err("Object "@ + c + " not found"@))
        } else {
            (t1.insert(c, K2ObjectView { parent: t1[c].parent.push(p), ..t1[c] }), Ok(()))
        }
    }
}

/// The properties that `new` reads from the tokens for each type other than
/// `block`, given the number `n` of pieces of the name; or why it refuses.
pub open spec fn st_fill(obj: K2ObjectView, k: Seq<Seq<char>>, n: int) -> Result<
    K2ObjectView,
    Seq<char>,
> {
    let ty = obj.object_type;
    if ty == "input"@ || ty == "output"@ {
        if n != 3 {
            Err("Invalid object name format for input/output"@)
        } else if k.len() != 4 || k[3].len() == 0 {
            Err("Data type cannot be empty"@)
        } else {
            Ok(with_prop(obj, "type"@, k[3]))
        }
    } else if ty == "state"@ {
        if n != 3 {
            Err("Invalid object name format for state"@)
        } else if k.len() != 5 {
            Err("Data type and data value cannot be empty"@)
        } else {
            Ok(with_prop(with_prop(obj, "type"@, k[3]), "value"@, k[4]))
        }
    } else if ty == "parameter"@ {
        if n != 3 {
            Err("Invalid object name format for parameter"@)
        } else if k.len() != 6 {
            Err("Invalid argument"@)
        } else if k[5] != "static"@ && k[5] != "dynamic"@ {
            Err("Parameter can be static or dynamic"@)
        } else {
            Ok(with_prop(with_prop(with_prop(obj, "type"@, k[3]), "value"@, k[4]), "kind"@, k[5]))
        }
    } else if ty == "command"@ {
        if n != 3 {
            Err("Invalid object name format for command"@)
        } else if k.len() != 4 {
            Err("Invalid argument"@)
        } else {
            Ok(with_prop(obj, "callback"@, k[3]))
        }
    } else if ty == "processor"@ {
        if n != 2 {
            Err("Invalid object name format for processor"@)
        } else if k.len() != 3 {
            Err("Invalid argument"@)
        } else {
            Ok(obj)
        }
    } else if ty == "chain"@ || ty == "mode"@ {
        if n != 3 {
            Err("Invalid object name format for chain/mode"@)
        } else if k.len() != 3 {
            Err("Invalid argument"@)
        } else {
            Ok(obj)
        }
    } else if ty == "streaming_control"@ {
        if n != 2 {
            Err("Invalid object name format for streaming_control"@)
        } else if k.len() != 3 {
            Err("Invalid argument"@)
        } else {
            Ok(obj)
        }
    } else if ty == "application"@ || ty == "library"@ {
        if n != 1 {
            Err("Invalid object name format for library/application"@)
        } else if k.len() != 4 {
            Err("Invalid argument"@)
        } else {
            Ok(with_prop(obj, "path"@, k[3]))
        }
    } else {
        Err("Unknow type "@ + ty)
    }
}

/// Copies the members of a processor into the block `name`: each copy is
/// named after the block and the member's last piece, and has the block as
/// its only parent. Stops at a missing member or at a name already taken,
/// keeping the copies made.
pub open spec fn copy_members(
    t: Table,
    name: Seq<char>,
    obj: K2ObjectView,
    children: Seq<Seq<char>>,
) -> (Table, Result<K2ObjectView, Seq<char>>)
    decreases children.len(),
{
    if children.len() == 0 {
        (t, Ok(obj))
    } else {
        let child = children[0];
        if !t.contains_key(child) {
            (t, Err("Object "@ + child + " not found"@))
        } else {
            let new_name = name + seq!['.'] + last_piece(child);
            if t.contains_key(new_name) {
                (t, Err("Object "@ + new_name + " already exists"@))
            } else {
                let co = K2ObjectView { name: new_name, parent: seq![name], ..t[child] };
                let obj2 = K2ObjectView { children: obj.children.push(new_name), ..obj };
                copy_members(t.insert(new_name, co), name, obj2, children.drop_first())
            }
        }
    }
}

/// The object that `new` builds, with the table after a block's members
/// were copied; or why it refuses.
pub open spec fn st_build(t: Table, obj: K2ObjectView, k: Seq<Seq<char>>, n: int) -> (
    Table,
    Result<K2ObjectView, Seq<char>>,
) {
    if obj.object_type == "block"@ {
        if n != 3 {
            (t, Err("Invalid object name format for block"@))
        } else if k.len() != 4 {
            (t, Err("Invalid argument"@))
        } else {
            match valid_object_spec(t, k[3]) {
                Err(e) => (t, Err(e)),
                Ok(false) => (t, Err("Processor "@ + k[3] + " not found"@)),
                Ok(true) => {
                    let (t2, b) = copy_members(t, obj.name, obj, t[k[3]].children);
                    match b {
                        Err(e) => (t2, Err(e)),
                        Ok(o) => (t2, Ok(with_prop(with_prop(o, "type"@, k[3]), "connection"@, "0"@))),
                    }
                },
            }
        }
    } else {
        (t, st_fill(obj, k, n))
    }
}

/// What `new` does to the table and the object it answers with, or why it
/// refuses.
pub open spec fn st_new(t: Table, init: bool, k: Seq<Seq<char>>) -> (
    Table,
    Result<K2ObjectView, Seq<char>>,
) {
    let ty = k[1];
    let name = k[2];
    match valid_object_spec(t, name) {
        Err(e) => (t, Err(e)),
        Ok(true) => (t, Err("Object with same name already exists!"@)),
        Ok(false) => match valid_parent_spec(t, init, name, ty) {
            Err(e) => (t, Err(e)),
            Ok(p) => {
                let (t2, built) = st_build(t, bare_object(name, ty), k, split_on(name, '.').len() as int);
                match built {
                    Err(e) => (t2, Err(e)),
                    Ok(o) => {
                        let t3 = t2.insert(name, o);
                        if ty != "library"@ && ty != "application"@ {
                            let (t4, r) = add_children_spec(t3, p, name);
                            match r {
                                Err(e) => (t4, Err(e)),
                                Ok(_) => (t4, Ok(o)),
                            }
                        } else {
                            (t3, Ok(o))
                        }
                    },
                }
            },
        },
    }
}

/// The accepted answer to a command: its text and tokens, a message and
/// objects.
pub open spec fn reply(k: K2ReturnView, message: Seq<char>, data: Seq<K2ObjectView>) -> K2ReturnView {
    K2ReturnView { success: true, command: k.command, tokens: k.tokens, message, data }
}

/// Every parent forgets the deleted object; a parent that is a mode also
/// forgets the value it kept for it. Missing parents are skipped.
pub open spec fn drop_from_parents(t: Table, parents: Seq<Seq<char>>, name: Seq<char>) -> Table
    decreases parents.len(),
{
    if parents.len() == 0 {
        t
    } else {
        let p = parents[0];
        let t2 = if t.contains_key(p) {
            let o = K2ObjectView { children: without(t[p].children, name), ..t[p] };
            let o2 = if o.object_type == "mode"@ {
                K2ObjectView { properties: o.properties.remove(name), ..o }
            } else {
                o
            };
            t.insert(p, o2)
        } else {
            t
        };
        drop_from_parents(t2, parents.drop_first(), name)
    }
}

/// Every child forgets the deleted object; a child left without parents goes
/// too, and is listed. Missing children are skipped.
pub open spec fn drop_from_children(t: Table, children: Seq<Seq<char>>, name: Seq<char>) -> (
    Table,
    Seq<K2ObjectView>,
)
    decreases children.len(),
{
    if children.len() == 0 {
        (t, Seq::empty())
    } else {
        let c = children[0];
        if t.contains_key(c) {
            let o = K2ObjectView { parent: without(t[c].parent, name), ..t[c] };
            if o.parent.len() == 0 {
                let (t2, d) = drop_from_children(t.remove(c), children.drop_first(), name);
                (t2, seq![o] + d)
            } else {
                drop_from_children(t.insert(c, o), children.drop_first(), name)
            }
        } else {
            drop_from_children(t, children.drop_first(), name)
        }
    }
}

/// What `delete` does to the table and the objects it lists, or why it
/// refuses.
pub open spec fn st_delete(t: Table, k: Seq<Seq<char>>) -> (Table, Result<Seq<K2ObjectView>, Seq<char>>) {
    if k.len() < 2 {
        (t, Err("Invalid k2_parse_struct.tokens length"@))
    } else {
        let name = k[1];
        match valid_object_spec(t, name) {
            Err(e) => (t, Err(e)),
            Ok(false) => (t, Err("Object does not exist"@)),
            Ok(true) => {
                let o = t[name];
                let t1 = drop_from_parents(t, o.parent, name);
                let (t2, d) = drop_from_children(t1.remove(name), o.children, name);
                (t2, Ok(seq![o, o] + d))
            },
        }
    }
}

/// What `add` does: a block joins a chain, or a chain a mode. The answer
/// lists the two objects as they were before.
pub open spec fn st_add(t: Table, init: bool, k: Seq<Seq<char>>) -> (
    Table,
    Result<Seq<K2ObjectView>, Seq<char>>,
) {
    if k.len() != 3 {
        (t, Err("Invalid argument"@))
    } else {
        let on = k[1];
        let rn = k[2];
        match valid_object_spec(t, on) {
            Err(e) => (t, Err(e)),
            Ok(false) => (t, Err("Object "@ + on + " not present"@)),
            Ok(true) => match valid_object_spec(t, rn) {
                Err(e) => (t, Err(e)),
                Ok(false) => (t, Err("Object "@ + rn + " not present"@)),
                Ok(true) => {
                    let o = t[on];
                    let r = t[rn];
                    if !init {
                        (t, Err("SyntaxTree not initialized"@))
                    } else {
                        match add_target_of(o.object_type) {
                            None => (t, Err(o.object_type + " cannot be had to anything"@)),
                            Some(pt) => if r.object_type == pt {
                                let (t2, res) = add_children_spec(t, rn, on);
                                match res {
                                    Err(e) => (t2, Err(e)),
                                    Ok(_) => (t2, Ok(seq![r, o])),
                                }
                            } else {
                                (t, Err(r.object_type + " cannot be parent of "@ + o.object_type))
                            },
                        }
                    }
                },
            },
        }
    }
}

/// What `set` does: a parameter or a state takes a value, for all modes
/// (`set name value`, which changes only the answer) or for one mode (`set
/// name mode value`, which the mode records); a processor records a code
/// part, in the answer only.
pub open spec fn st_set(t: Table, k: Seq<Seq<char>>) -> (Table, Result<K2ObjectView, Seq<char>>) {
    if k.len() < 3 {
        (t, Err(""@))
    } else {
        let name = k[1];
        if !t.contains_key(name) {
            (t, Err("Object not found"@))
        } else {
            let o = t[name];
            let ty = o.object_type;
            if ty == "parameter"@ || ty == "state"@ {
                if k.len() == 3 {
                    (t, Ok(with_prop(o, "value"@, k[2])))
                } else if k.len() == 4 {
                    let m = k[2];
                    match valid_object_spec(t, m) {
                        Err(e) => (t, Err(e)),
                        Ok(false) => (t, Err("Mode "@ + m + " not exist"@)),
                        Ok(true) => if t[m].object_type != "mode"@ {
                            (t, Err(m + " is not a mode"@))
                        } else {
                            (
                                t.insert(m, with_prop(t[m], name, k[3])),
                                Ok(K2ObjectView { parent: o.parent.push(m), ..o }),
                            )
                        },
                    }
                } else {
                    (t, Err("Wrong command length"@))
                }
            } else if ty == "processor"@ {
                if k.len() != 4 {
                    (t, Err("Wrong command length"@))
                } else {
                    (t, Ok(with_prop(o, k[2], k[3])))
                }
            } else {
                (t, Err("Type "@ + ty + " is not settable"@))
            }
        }
    }
}

/// The checks that `connect` and `disconnect` share: the parent block of the
/// source, or why they refuse.
pub open spec fn st_link_check(t: Table, k: Seq<Seq<char>>) -> Result<Seq<char>, Seq<char>> {
    if k.len() != 3 {
        Err("Invalid command size"@)
    } else {
        match valid_object_spec(t, k[1]) {
            Err(e) => Err(e),
            Ok(false) => Err("Connector "@ + k[1] + " does not exists"@),
            Ok(true) => match valid_object_spec(t, k[2]) {
                Err(e) => Err(e),
                Ok(false) => Err("Connector "@ + k[2] + " does not exists"@),
                Ok(true) => if t[k[1]].object_type != "output"@ && t[k[2]].object_type
                    != "input"@ {
                    Err("Connection invalid type."@)
                } else {
                    match rsplit_once_spec(k[1], '.') {
                        None => Err("Split err"@),
                        Some((sp, _)) => if t[sp].object_type != "block"@ {
                            Err("Invalid parent type for connection"@)
                        } else {
                            match rsplit_once_spec(k[2], '.') {
                                None => Err("Split err"@),
                                Some((tp, _)) => if t[tp].object_type != "block"@ {
                                    Err("Invalid parent type for connection"@)
                                } else {
                                    Ok(sp)
                                },
                            }
                        },
                    }
                },
            },
        }
    }
}

/// Whether the parents that the shared checks look up are in the table
/// whenever the checks get that far.
pub open spec fn st_link_safe(t: Table, k: Seq<Seq<char>>) -> bool {
    k.len() == 3 && valid_object_spec(t, k[1]) == Ok::<bool, Seq<char>>(true) && valid_object_spec(
        t,
        k[2],
    ) == Ok::<bool, Seq<char>>(true) && !(t[k[1]].object_type != "output"@ && t[k[2]].object_type
        != "input"@) ==> match rsplit_once_spec(k[1], '.') {
        None => true,
        Some((sp, _)) => t.contains_key(sp) && (t[sp].object_type == "block"@ ==> match rsplit_once_spec(
            k[2],
            '.',
        ) {
            None => true,
            Some((tp, _)) => t.contains_key(tp),
        }),
    }
}

/// The connection counter of a block: its `connection` property read as a
/// number, zero when it is missing or no number.
pub open spec fn counter_u32(o: K2ObjectView) -> u32 {
    let text = if o.properties.contains_key("connection"@) {
        o.properties["connection"@]
    } else {
        "0"@
    };
    match u32_of_text(text) {
        Some(n) => n,
        None => 0,
    }
}

/// The counter read as a signed number, as `disconnect` reads it.
pub open spec fn counter_i32(o: K2ObjectView) -> i32 {
    let text = if o.properties.contains_key("connection"@) {
        o.properties["connection"@]
    } else {
        "0"@
    };
    match i32_of_text(text) {
        Some(n) => n,
        None => 0,
    }
}

/// The text by which a block records a connection.
pub open spec fn link_text(k: Seq<Seq<char>>) -> Seq<char> {
    k[1] + "-"@ + k[2]
}

/// The block after `connect` recorded one more connection under the next
/// number.
pub open spec fn connected(o: K2ObjectView, k: Seq<Seq<char>>) -> K2ObjectView {
    let n = counter_u32(o) + 1;
    with_prop(
        with_prop(o, "connection_"@ + nat_text(n as nat), link_text(k)),
        "connection"@,
        nat_text(n as nat),
    )
}

/// The block after `disconnect` removed the entry `key`: the counter goes
/// down by one, unless it would go below zero.
pub open spec fn disconnected(o: K2ObjectView, key: Seq<char>) -> K2ObjectView {
    let o1 = K2ObjectView { properties: o.properties.remove(key), ..o };
    let n = counter_i32(o1) - 1;
    if n >= 0 {
        with_prop(o1, "connection"@, int_text(n))
    } else {
        o1
    }
}

/// A refused command as the stage answers it: the command and its tokens,
/// the reason as message, and no objects.
pub open spec fn failed(k: K2ReturnView, message: Seq<char>) -> K2ReturnView {
    K2ReturnView {
        success: false,
        command: k.command,
        tokens: k.tokens,
        message,
        data: Seq::empty(),
    }
}

/// The answer for an outcome: the reply when accepted, the refusal otherwise.
pub open spec fn response_of(k: K2ReturnView, out: Result<K2ReturnView, Seq<char>>) -> K2ReturnView {
    match out {
        Ok(v) => v,
        Err(e) => failed(k, e),
    }
}

/// An outcome with one object as a reply with the given message.
pub open spec fn one_reply(
    k: K2ReturnView,
    message: Seq<char>,
    r: Result<K2ObjectView, Seq<char>>,
) -> Result<K2ReturnView, Seq<char>> {
    match r {
        Ok(o) => Ok(reply(k, message, seq![o])),
        Err(e) => Err(e),
    }
}

/// An outcome with objects as a reply with the given message.
pub open spec fn many_reply(
    k: K2ReturnView,
    message: Seq<char>,
    r: Result<Seq<K2ObjectView>, Seq<char>>,
) -> Result<K2ReturnView, Seq<char>> {
    match r {
        Ok(d) => Ok(reply(k, message, d)),
        Err(e) => Err(e),
    }
}

/// What `connect` does: the source's block records the connection.
pub open spec fn st_connect(t: Table, k: K2ReturnView) -> (Table, Result<K2ReturnView, Seq<char>>) {
    match st_link_check(t, k.tokens) {
        Err(e) => (t, Err(e)),
        Ok(sp) => {
            let o = connected(t[sp], k.tokens);
            (t.insert(sp, o), Ok(reply(k, "connect"@, seq![o])))
        },
    }
}

/// Whether `key` is an entry of the block that records the connection named
/// by the tokens.
pub open spec fn records_link(o: K2ObjectView, k: Seq<Seq<char>>, key: Seq<char>) -> bool {
    o.properties.contains_key(key) && o.properties[key] == link_text(k)
}

/// Whether `out` is an outcome that `disconnect` may give: the block,
/// without one entry that records the connection, in the answer only.
pub open spec fn disconnect_outcome(t: Table, k: K2ReturnView, out: Result<K2ReturnView, Seq<char>>) -> bool {
    match st_link_check(t, k.tokens) {
        Err(e) => out == Err::<K2ReturnView, Seq<char>>(e),
        Ok(sp) => if exists|key: Seq<char>| records_link(t[sp], k.tokens, key) {
            exists|key: Seq<char>|
                records_link(t[sp], k.tokens, key) && out == Ok::<K2ReturnView, Seq<char>>(
                    reply(k, "Disconnect"@, seq![disconnected(t[sp], key)]),
                )
        } else {
            out == Err::<K2ReturnView, Seq<char>>("Connection does not exist"@)
        },
    }
}

/// What `exec` answers: the command itself when it names an object.
pub open spec fn st_exec(t: Table, k: K2ReturnView) -> Result<K2ReturnView, Seq<char>> {
    if k.tokens.len() < 2 {
        Err("Invalid k2_parse_struct.tokens length"@)
    } else {
        match valid_object_spec(t, k.tokens[1]) {
            Err(e) => Err(e),
            Ok(false) => Err("Command does not exist"@),
            Ok(true) => Ok(k),
        }
    }
}

/// What the stage does with an accepted command other than `disconnect`,
/// by its keyword; an unknown keyword leaves the command as it is.
pub open spec fn st_command(t: Table, init: bool, k: K2ReturnView) -> (
    Table,
    Result<K2ReturnView, Seq<char>>,
) {
    let w = k.tokens[0];
    if w == "new"@ {
        let (t2, r) = st_new(t, init, k.tokens);
        (t2, one_reply(k, "New"@, r))
    } else if w == "add"@ {
        let (t2, r) = st_add(t, init, k.tokens);
        (t2, many_reply(k, "Add"@, r))
    } else if w == "delete"@ {
        let (t2, r) = st_delete(t, k.tokens);
        (t2, many_reply(k, "delete"@, r))
    } else if w == "set"@ {
        let (t2, r) = st_set(t, k.tokens);
        (t2, one_reply(k, "set"@, r))
    } else if w == "connect"@ {
        st_connect(t, k)
    } else if w == "exec"@ {
        (t, st_exec(t, k))
    } else {
        (t, Ok(k))
    }
}

/// What the handlers of the keywords need, beyond an initialized stage:
/// `new` reads two tokens; `connect` and `disconnect` look up the parents of
/// both ends and count the connections without passing the counter's bounds.
pub open spec fn command_safe(t: Table, k: Seq<Seq<char>>) -> bool {
    &&& k.len() >= 1
    &&& k[0] == "new"@ ==> k.len() >= 3
    &&& (k[0] == "connect"@ || k[0] == "disconnect"@) ==> st_link_safe(t, k)
    &&& k[0] == "connect"@ ==> (st_link_check(t, k) matches Ok(sp) ==> counter_u32(t[sp]) < u32::MAX)
    &&& k[0] == "disconnect"@ ==> (st_link_check(t, k) matches Ok(sp) ==> (forall|key: Seq<char>|
        #[trigger] records_link(t[sp], k, key) ==> counter_i32(
            K2ObjectView { properties: t[sp].properties.remove(key), ..t[sp] },
        ) > i32::MIN))
}

/// The syntax tree stage of the first form of the language.
pub struct SyntaxTreeProcessor {
    pub name: String,
    pub header: ProcessorHeader,
    objects: NameMap<K2Object>,
    initialized: bool,
}

/// A text as an owned string.
pub(crate) fn text(s: &str) -> (r: String)
    ensures
        r@ == s@,
{
    s.to_owned()
}

/// The accepted answer to a command.
pub(crate) fn make_reply(k: &K2ReturnStruct, message: &str, data: Vec<K2Object>) -> (r: K2ReturnStruct)
    ensures
        r@ == reply(k@, message@, objects_view(data@)),
{
    K2ReturnStruct {
        success: true,
        command: k.command.clone(),
        tokens: crate::text::clone_strings(&k.tokens),
        message: text(message),
        data,
    }
}

/// The refusal of a command.
pub(crate) fn make_failed(k: &K2ReturnStruct, message: String) -> (r: K2ReturnStruct)
    ensures
        r@ == failed(k@, message@),
{
    let r = K2ReturnStruct {
        success: false,
        command: k.command.clone(),
        tokens: crate::text::clone_strings(&k.tokens),
        message,
        data: Vec::new(),
    };
    assert(objects_view(r.data@) =~= Seq::<K2ObjectView>::empty());
    r
}

/// A copy of a list of names.
pub(crate) fn clone_names(v: &Vec<String>) -> (r: Vec<String>)
    ensures
        r.deep_view() == v.deep_view(),
{
    crate::text::clone_strings(v)
}

/// One object in a list.
pub(crate) fn single(o: K2Object) -> (r: Vec<K2Object>)
    ensures
        objects_view(r@) == seq![o@],
{
    let r = vec![o];
    assert(objects_view(r@) =~= seq![r@[0]@]);
    r
}

/// The outcome of a handler, seen as views.
pub open spec fn outcome(r: Result<K2ReturnStruct, String>) -> Result<K2ReturnView, Seq<char>> {
    match r {
        Ok(s) => Ok(s@),
        Err(m) => Err(m@),
    }
}

impl SyntaxTreeProcessor {
    /// The table of objects.
    pub closed spec fn table(&self) -> Table {
        table_view(self.objects)
    }

    /// Whether the type rules are in place.
    pub closed spec fn ready(&self) -> bool {
        self.initialized
    }

    /// The stage's name.
    pub closed spec fn label(&self) -> Seq<char> {
        self.name@
    }

    /// A stage with an empty table, whose type rules are not yet in place.
    pub fn new(name: String) -> (r: Self)
        ensures
            r.label() == name@,
            r.table() == Table::empty(),
            !r.ready(),
    {
        let r = SyntaxTreeProcessor {
            name,
            header: ProcessorHeader {
                proc_name: text("SyntaxTree"),
                description: text("The syntax tree processor"),
                version: text("0.1.0"),
                author: text("Sofia"),
                email: text("ms.sofia.silvestri@gmail.com"),
                license: text("LGPLv2.0"),
                repository: text(""),
            },
            objects: NameMap::new(),
            initialized: false,
        };
        assert(table_view(r.objects) =~= Table::empty());
        r
    }

    /// Puts the type rules in place.
    pub fn initialize(&mut self)
        ensures
            final(self).ready(),
            final(self).table() == old(self).table(),
            final(self).label() == old(self).label(),
    {
        self.initialized = true;
    }

    /// Whether a name is well formed, and if so whether the table holds it.
    fn valid_object(&self, object_name: &String) -> (r: Result<bool, String>)
        ensures
            match valid_object_spec(self.table(), object_name@) {
                Ok(b) => r == Ok::<bool, String>(b),
                Err(e) => r matches Err(m) && m@ == e,
            },
    {
        if !check_name_chars(object_name.as_str()) {
            return Err(text("Invalid object name"));
        }
        let pieces = split_char(object_name.as_str(), '.');
        if !all_pieces_nonempty(&pieces) {
            return Err(text("Invalid object name"));
        }
        Ok(table_has(&self.objects, object_name.as_str()))
    }

    /// The parent under which an object may be created.
    fn valid_parent(&self, object_name: &String, object_type: &String) -> (r: Result<String, String>)
        ensures
            match valid_parent_spec(self.table(), self.ready(), object_name@, object_type@) {
                Ok(p) => r matches Ok(s) && s@ == p,
                Err(e) => r matches Err(m) && m@ == e,
            },
    {
        let ty = object_type.as_str();
        if str_eq(ty, "library") || str_eq(ty, "application") {
            return Ok(text(""));
        }
        let parent_name = match rsplit_once(object_name.as_str(), '.') {
            Some((p, _)) => p,
            None => {
                return Err(text("Invalid parent name"));
            },
        };
        match self.valid_object(&parent_name) {
            Ok(_) => {},
            Err(e) => {
                return Err(e);
            },
        }
        let parent_object = match table_get(&self.objects, parent_name.as_str()) {
            Some(o) => o,
            None => {
                return Err(concat3("Object ", parent_name.as_str(), " not found"));
            },
        };
        if !self.initialized {
            return Err(text("SyntaxTree not initialized"));
        }
        let pt = parent_object.object_type.as_str();
        let allowed = if str_eq(ty, "processor") {
            str_eq(pt, "library")
        } else if str_eq(ty, "input") || str_eq(ty, "output") || str_eq(ty, "parameter")
            || str_eq(ty, "state") || str_eq(ty, "command") {
            str_eq(pt, "processor")
        } else if str_eq(ty, "streaming_control") {
            str_eq(pt, "application")
        } else if str_eq(ty, "block") || str_eq(ty, "mode") || str_eq(ty, "chain") {
            str_eq(pt, "streaming_control")
        } else {
            return Err(String::from_str("Unkonw type ").concat(ty));
        };
        if allowed {
            Ok(parent_name)
        } else {
            Err(concat3(ty, " type cannot be created inside ", pt))
        }
    }

    /// Lists `children_name` under `parent_name`, and the other way round.
    fn add_children(&mut self, parent_name: &String, children_name: &String) -> (r: Result<(), String>)
        ensures
            final(self).table() == add_children_spec(old(self).table(), parent_name@, children_name@).0,
            match add_children_spec(old(self).table(), parent_name@, children_name@).1 {
                Ok(_) => r is Ok,
                Err(e) => r matches Err(m) && m@ == e,
            },
            final(self).ready() == old(self).ready(),
            final(self).label() == old(self).label(),
    {
        let mut parent_object = match table_get(&self.objects, parent_name.as_str()) {
            Some(o) => o,
            None => {
                return Err(concat3("Object ", parent_name.as_str(), " not found"));
            },
        };
        push_name(&mut parent_object.children, children_name.clone());
        table_insert(&mut self.objects, parent_name.clone(), parent_object);
        let mut children_object = match table_get(&self.objects, children_name.as_str()) {
            Some(o) => o,
            None => {
                return Err(concat3("Object ", children_name.as_str(), " not found"));
            },
        };
        push_name(&mut children_object.parent, parent_name.clone());
        table_insert(&mut self.objects, children_name.clone(), children_object);
        Ok(())
    }

    /// The children of an object.
    fn get_children(&self, object_name: &String) -> (r: Result<Vec<String>, String>)
        ensures
            self.table().contains_key(object_name@) ==> (r matches Ok(v) && v.deep_view()
                == self.table()[object_name@].children),
            !self.table().contains_key(object_name@) ==> (r matches Err(m) && m@ == "Object "@
                + object_name@ + " not found"@),
    {
        match table_get(&self.objects, object_name.as_str()) {
            Some(o) => Ok(o.children),
            None => Err(concat3("Object ", object_name.as_str(), " not found")),
        }
    }
    /// Fills the properties that `new` reads for a type other than `block`.
    fn fill_object(obj: K2Object, k: &Vec<String>, n: usize) -> (r: Result<K2Object, String>)
        ensures
            match st_fill(obj@, k.deep_view(), n as int) {
                Ok(o) => r matches Ok(x) && x@ == o,
                Err(e) => r matches Err(m) && m@ == e,
            },
    {
        let mut obj = obj;
        let ghost kv = k.deep_view();
        let ty_owned = obj.object_type.clone();
        let ty = ty_owned.as_str();
        if str_eq(ty, "input") || str_eq(ty, "output") {
            if n != 3 {
                return Err(text("Invalid object name format for input/output"));
            }
            if k.len() != 4 || k[3].as_str().unicode_len() == 0 {
                return Err(text("Data type cannot be empty"));
            }
            assert(kv[3] == k@[3]@);
            add_prop(&mut obj, "type", &k[3]);
            Ok(obj)
        } else if str_eq(ty, "state") {
            if n != 3 {
                return Err(text("Invalid object name format for state"));
            }
            if k.len() != 5 {
                return Err(text("Data type and data value cannot be empty"));
            }
            assert(kv[3] == k@[3]@ && kv[4] == k@[4]@);
            add_prop(&mut obj, "type", &k[3]);
            add_prop(&mut obj, "value", &k[4]);
            Ok(obj)
        } else if str_eq(ty, "parameter") {
            if n != 3 {
                return Err(text("Invalid object name format for parameter"));
            }
            if k.len() != 6 {
                return Err(text("Invalid argument"));
            }
            assert(kv[3] == k@[3]@ && kv[4] == k@[4]@ && kv[5] == k@[5]@);
            if !str_eq(k[5].as_str(), "static") && !str_eq(k[5].as_str(), "dynamic") {
                return Err(text("Parameter can be static or dynamic"));
            }
            add_prop(&mut obj, "type", &k[3]);
            add_prop(&mut obj, "value", &k[4]);
            add_prop(&mut obj, "kind", &k[5]);
            Ok(obj)
        } else if str_eq(ty, "command") {
            if n != 3 {
                return Err(text("Invalid object name format for command"));
            }
            if k.len() != 4 {
                return Err(text("Invalid argument"));
            }
            assert(kv[3] == k@[3]@);
            add_prop(&mut obj, "callback", &k[3]);
            Ok(obj)
        } else if str_eq(ty, "processor") {
            if n != 2 {
                return Err(text("Invalid object name format for processor"));
            }
            if k.len() != 3 {
                return Err(text("Invalid argument"));
            }
            Ok(obj)
        } else if str_eq(ty, "chain") || str_eq(ty, "mode") {
            if n != 3 {
                return Err(text("Invalid object name format for chain/mode"));
            }
            if k.len() != 3 {
                return Err(text("Invalid argument"));
            }
            Ok(obj)
        } else if str_eq(ty, "streaming_control") {
            if n != 2 {
                return Err(text("Invalid object name format for streaming_control"));
            }
            if k.len() != 3 {
                return Err(text("Invalid argument"));
            }
            Ok(obj)
        } else if str_eq(ty, "application") || str_eq(ty, "library") {
            if n != 1 {
                return Err(text("Invalid object name format for library/application"));
            }
            if k.len() != 4 {
                return Err(text("Invalid argument"));
            }
            assert(kv[3] == k@[3]@);
            add_prop(&mut obj, "path", &k[3]);
            Ok(obj)
        } else {
            Err(String::from_str("Unknow type ").concat(ty))
        }
    }

    /// Copies the members of `processor` into the block `name`.
    fn copy_block(&mut self, name: &String, obj: K2Object, processor: &String) -> (r: Result<
        K2Object,
        String,
    >)
        requires
            old(self).table().contains_key(processor@),
        ensures
            final(self).table() == copy_members(
                old(self).table(),
                name@,
                obj@,
                old(self).table()[processor@].children,
            ).0,
            match copy_members(
                old(self).table(),
                name@,
                obj@,
                old(self).table()[processor@].children,
            ).1 {
                Ok(o) => r matches Ok(x) && x@ == o,
                Err(e) => r matches Err(m) && m@ == e,
            },
            final(self).ready() == old(self).ready(),
            final(self).label() == old(self).label(),
    {
        let children = match self.get_children(processor) {
            Ok(c) => c,
            Err(e) => {
                return Err(e);
            },
        };
        let ghost all = children.deep_view();
        let ghost start = obj@;
        let mut blk = obj.duplicate();
        let mut i: usize = 0;
        assert(all.skip(0) =~= all);
        while i < children.len()
            invariant
                i <= children.len(),
                all == children.deep_view(),
                old(self).table().contains_key(processor@),
                all == old(self).table()[processor@].children,
                copy_members(self.table(), name@, blk@, all.skip(i as int)) == copy_members(
                    old(self).table(),
                    name@,
                    start,
                    all,
                ),
                self.ready() == old(self).ready(),
                self.label() == old(self).label(),
                start == obj@,
            decreases children.len() - i,
        {
            let ghost rest = all.skip(i as int);
            assert(rest[0] == children@[i as int]@);
            assert(rest.drop_first() =~= all.skip(i + 1));
            let mut co = match table_get(&self.objects, children[i].as_str()) {
                Some(o) => o,
                None => {
                    let e = concat3("Object ", children[i].as_str(), " not found");
                    assert(copy_members(self.table(), name@, blk@, rest) == (
                        self.table(),
                        Err::<K2ObjectView, Seq<char>>(e@),
                    ));
                    return Err(e);
                },
            };
            let last = last_piece_exec(children[i].as_str());
            let new_name = join_dot(name.as_str(), last.as_str());
            if table_has(&self.objects, new_name.as_str()) {
                let e = concat3("Object ", new_name.as_str(), " already exists");
                assert(copy_members(self.table(), name@, blk@, rest) == (
                    self.table(),
                    Err::<K2ObjectView, Seq<char>>(e@),
                ));
                return Err(e);
            }
            co.name = new_name.clone();
            let parents = vec![name.clone()];
            assert(parents.deep_view() =~= seq![name@]);
            co.parent = parents;
            push_name(&mut blk.children, new_name.clone());
            table_insert(&mut self.objects, new_name, co);
            i = i + 1;
        }
        assert(all.skip(i as int) =~= Seq::<Seq<char>>::empty());
        Ok(blk)
    }

    /// Creates an object under its parent.
    fn parse_new(&mut self, k2_parse_struct: &K2ReturnStruct) -> (r: Result<K2ReturnStruct, String>)
        requires
            k2_parse_struct@.tokens.len() >= 3,
        ensures
            final(self).table() == st_new(old(self).table(), old(self).ready(), k2_parse_struct@.tokens).0,
            outcome(r) == one_reply(
                k2_parse_struct@,
                "New"@,
                st_new(old(self).table(), old(self).ready(), k2_parse_struct@.tokens).1,
            ),
            final(self).ready() == old(self).ready(),
            final(self).label() == old(self).label(),
    {
        let ghost kv = k2_parse_struct@.tokens;
        assert(kv[1] == k2_parse_struct.tokens@[1]@ && kv[2] == k2_parse_struct.tokens@[2]@);
        let object_type = k2_parse_struct.tokens[1].clone();
        let object_name = k2_parse_struct.tokens[2].clone();
        let obj = K2Object::named(object_name.clone(), object_type.clone());
        assert(obj@ == bare_object(object_name@, object_type@));
        match self.valid_object(&object_name) {
            Ok(present) => {
                if present {
                    return Err(text("Object with same name already exists!"));
                }
            },
            Err(e) => {
                return Err(e);
            },
        }
        let parent_name = match self.valid_parent(&object_name, &object_type) {
            Ok(p) => p,
            Err(e) => {
                return Err(e);
            },
        };
        let pieces = split_char(object_name.as_str(), '.');
        let n = pieces.len();
        let built = if str_eq(object_type.as_str(), "block") {
            if n != 3 {
                return Err(text("Invalid object name format for block"));
            }
            if k2_parse_struct.tokens.len() != 4 {
                return Err(text("Invalid argument"));
            }
            assert(kv[3] == k2_parse_struct.tokens@[3]@);
            let processor = &k2_parse_struct.tokens[3];
            match self.valid_object(processor) {
                Ok(found) => {
                    if !found {
                        return Err(concat3("Processor ", processor.as_str(), " not found"));
                    }
                },
                Err(e) => {
                    return Err(e);
                },
            }
            match self.copy_block(&object_name, obj, processor) {
                Ok(o) => {
                    let mut o = o;
                    add_prop(&mut o, "type", processor);
                    add_prop(&mut o, "connection", &text("0"));
                    o
                },
                Err(e) => {
                    return Err(e);
                },
            }
        } else {
            match Self::fill_object(obj, &k2_parse_struct.tokens, n) {
                Ok(o) => o,
                Err(e) => {
                    return Err(e);
                },
            }
        };
        table_insert(&mut self.objects, object_name.clone(), built.duplicate());
        if !str_eq(object_type.as_str(), "library") && !str_eq(object_type.as_str(), "application") {
            match self.add_children(&parent_name, &object_name) {
                Ok(()) => {},
                Err(e) => {
                    return Err(e);
                },
            }
        }
        Ok(make_reply(k2_parse_struct, "New", single(built)))
    }
    /// Adds a block to a chain, or a chain to a mode.
    fn parse_add(&mut self, k2_parse_struct: &K2ReturnStruct) -> (r: Result<K2ReturnStruct, String>)
        ensures
            final(self).table() == st_add(old(self).table(), old(self).ready(), k2_parse_struct@.tokens).0,
            outcome(r) == many_reply(
                k2_parse_struct@,
                "Add"@,
                st_add(old(self).table(), old(self).ready(), k2_parse_struct@.tokens).1,
            ),
            final(self).ready() == old(self).ready(),
            final(self).label() == old(self).label(),
    {
        let ghost kv = k2_parse_struct@.tokens;
        if k2_parse_struct.tokens.len() != 3 {
            return Err(text("Invalid argument"));
        }
        assert(kv[1] == k2_parse_struct.tokens@[1]@ && kv[2] == k2_parse_struct.tokens@[2]@);
        let object_name = k2_parse_struct.tokens[1].clone();
        let relation_name = k2_parse_struct.tokens[2].clone();
        match self.valid_object(&object_name) {
            Ok(found) => {
                if !found {
                    return Err(concat3("Object ", object_name.as_str(), " not present"));
                }
            },
            Err(e) => {
                return Err(e);
            },
        }
        match self.valid_object(&relation_name) {
            Ok(found) => {
                if !found {
                    return Err(concat3("Object ", relation_name.as_str(), " not present"));
                }
            },
            Err(e) => {
                return Err(e);
            },
        }
        let object = match table_get(&self.objects, object_name.as_str()) {
            Some(o) => o,
            None => {
                return Err(text(""));
            },
        };
        let relation_object = match table_get(&self.objects, relation_name.as_str()) {
            Some(o) => o,
            None => {
                return Err(text(""));
            },
        };
        if !self.initialized {
            return Err(text("SyntaxTree not initialized"));
        }
        let ot = object.object_type.as_str();
        let rt = relation_object.object_type.as_str();
        let fits = if str_eq(ot, "block") {
            str_eq(rt, "chain")
        } else if str_eq(ot, "chain") {
            str_eq(rt, "mode")
        } else {
            return Err(String::from_str(ot).concat(" cannot be had to anything"));
        };
        if !fits {
            return Err(concat3(rt, " cannot be parent of ", ot));
        }
        match self.add_children(&relation_name, &object_name) {
            Ok(()) => {},
            Err(e) => {
                return Err(e);
            },
        }
        let data = vec![relation_object, object];
        assert(objects_view(data@) =~= seq![data@[0]@, data@[1]@]);
        Ok(make_reply(k2_parse_struct, "Add", data))
    }

    /// Deletes an object: its parents forget it, its children forget it and
    /// those left without parents go too.
    fn parse_delete(&mut self, k2_parse_struct: &K2ReturnStruct) -> (r: Result<K2ReturnStruct, String>)
        ensures
            final(self).table() == st_delete(old(self).table(), k2_parse_struct@.tokens).0,
            outcome(r) == many_reply(
                k2_parse_struct@,
                "delete"@,
                st_delete(old(self).table(), k2_parse_struct@.tokens).1,
            ),
            final(self).ready() == old(self).ready(),
            final(self).label() == old(self).label(),
    {
        let ghost t0 = self.table();
        let ghost kv = k2_parse_struct@.tokens;
        if k2_parse_struct.tokens.len() < 2 {
            return Err(text("Invalid k2_parse_struct.tokens length"));
        }
        assert(kv[1] == k2_parse_struct.tokens@[1]@);
        let object_name = k2_parse_struct.tokens[1].clone();
        let ghost name = object_name@;
        match self.valid_object(&object_name) {
            Ok(found) => {
                if !found {
                    return Err(text("Object does not exist"));
                }
            },
            Err(e) => {
                return Err(e);
            },
        }
        let object = match table_get(&self.objects, object_name.as_str()) {
            Some(o) => o,
            None => {
                return Err(text(""));
            },
        };
        let ghost ov = object@;
        let parents = clone_names(&object.parent);
        let ghost pall = parents.deep_view();
        let mut i: usize = 0;
        assert(pall.skip(0) =~= pall);
        while i < parents.len()
            invariant
                i <= parents.len(),
                pall == parents.deep_view(),
                name == object_name@,
                drop_from_parents(self.table(), pall.skip(i as int), name) == drop_from_parents(
                    t0,
                    pall,
                    name,
                ),
                self.ready() == old(self).ready(),
                self.label() == old(self).label(),
            decreases parents.len() - i,
        {
            let ghost rest = pall.skip(i as int);
            assert(rest[0] == parents@[i as int]@);
            assert(rest.drop_first() =~= pall.skip(i + 1));
            match table_get(&self.objects, parents[i].as_str()) {
                Some(p) => {
                    let mut p = p;
                    remove_name(&mut p.children, object_name.as_str());
                    if str_eq(p.object_type.as_str(), "mode") {
                        drop_prop(&mut p, object_name.as_str());
                    }
                    table_insert(&mut self.objects, parents[i].clone(), p);
                },
                None => {},
            }
            i = i + 1;
        }
        assert(pall.skip(i as int) =~= Seq::<Seq<char>>::empty());
        let mut deleted = vec![object.duplicate(), object.duplicate()];
        assert(objects_view(deleted@) =~= seq![ov, ov]);
        table_remove(&mut self.objects, object_name.as_str());
        let ghost t2 = self.table();
        let ghost full = drop_from_children(t2, ov.children, name);
        let children = clone_names(&object.children);
        let ghost call = children.deep_view();
        let mut j: usize = 0;
        assert(call.skip(0) =~= call);
        while j < children.len()
            invariant
                j <= children.len(),
                call == children.deep_view(),
                call == ov.children,
                name == object_name@,
                full == drop_from_children(t2, call, name),
                drop_from_children(self.table(), call.skip(j as int), name).0 == full.0,
                objects_view(deleted@) + drop_from_children(self.table(), call.skip(j as int), name).1
                    == seq![ov, ov] + full.1,
                self.ready() == old(self).ready(),
                self.label() == old(self).label(),
            decreases children.len() - j,
        {
            let ghost rest = call.skip(j as int);
            assert(rest[0] == children@[j as int]@);
            assert(rest.drop_first() =~= call.skip(j + 1));
            match table_get(&self.objects, children[j].as_str()) {
                Some(c) => {
                    let mut c = c;
                    remove_name(&mut c.parent, object_name.as_str());
                    if c.parent.len() == 0 {
                        let ghost before = objects_view(deleted@);
                        deleted.push(c.duplicate());
                        assert(objects_view(deleted@) =~= before.push(c@));
                        table_remove(&mut self.objects, children[j].as_str());
                        let ghost d = drop_from_children(self.table(), rest.drop_first(), name).1;
                        assert(before.push(c@) + d =~= before + (seq![c@] + d));
                    } else {
                        table_insert(&mut self.objects, children[j].clone(), c);
                    }
                },
                None => {},
            }
            j = j + 1;
        }
        assert(call.skip(j as int) =~= Seq::<Seq<char>>::empty());
        assert(objects_view(deleted@) =~= seq![ov, ov] + full.1);
        Ok(make_reply(k2_parse_struct, "delete", deleted))
    }
    /// Sets the value of a parameter or a state, for all modes or for one
    /// mode, or records a code part of a processor.
    fn parse_set(&mut self, k2_parse_struct: &K2ReturnStruct) -> (r: Result<K2ReturnStruct, String>)
        ensures
            final(self).table() == st_set(old(self).table(), k2_parse_struct@.tokens).0,
            outcome(r) == one_reply(
                k2_parse_struct@,
                "set"@,
                st_set(old(self).table(), k2_parse_struct@.tokens).1,
            ),
            final(self).ready() == old(self).ready(),
            final(self).label() == old(self).label(),
    {
        let ghost kv = k2_parse_struct@.tokens;
        let k = &k2_parse_struct.tokens;
        if k.len() < 3 {
            return Err(text(""));
        }
        assert(kv[1] == k@[1]@ && kv[2] == k@[2]@);
        let object_name = k[1].clone();
        let mut object = match table_get(&self.objects, object_name.as_str()) {
            Some(o) => o,
            None => {
                return Err(text("Object not found"));
            },
        };
        let ty_owned = object.object_type.clone();
        let ty = ty_owned.as_str();
        if str_eq(ty, "parameter") || str_eq(ty, "state") {
            if k.len() == 3 {
                add_prop(&mut object, "value", &k[2]);
            } else if k.len() == 4 {
                assert(kv[3] == k@[3]@);
                let mode_selected = k[2].clone();
                match self.valid_object(&mode_selected) {
                    Ok(found) => {
                        if !found {
                            return Err(concat3("Mode ", mode_selected.as_str(), " not exist"));
                        }
                    },
                    Err(e) => {
                        return Err(e);
                    },
                }
                let mut mode_obj = match table_get(&self.objects, mode_selected.as_str()) {
                    Some(o) => o,
                    None => {
                        return Err(text("Object not found"));
                    },
                };
                if !str_eq(mode_obj.object_type.as_str(), "mode") {
                    return Err(String::from_str(mode_selected.as_str()).concat(" is not a mode"));
                }
                add_prop(&mut mode_obj, object_name.as_str(), &k[3]);
                table_insert(&mut self.objects, mode_selected.clone(), mode_obj);
                push_name(&mut object.parent, mode_selected);
            } else {
                return Err(text("Wrong command length"));
            }
        } else if str_eq(ty, "processor") {
            if k.len() != 4 {
                return Err(text("Wrong command length"));
            }
            assert(kv[3] == k@[3]@);
            add_prop(&mut object, k[2].as_str(), &k[3]);
        } else {
            return Err(concat3("Type ", ty, " is not settable"));
        }
        Ok(make_reply(k2_parse_struct, "set", single(object)))
    }

    /// The checks that `connect` and `disconnect` share: the name of the
    /// source's parent block.
    fn link_parent(&self, k2_parse_struct: &K2ReturnStruct) -> (r: Result<String, String>)
        requires
            st_link_safe(self.table(), k2_parse_struct@.tokens),
        ensures
            match st_link_check(self.table(), k2_parse_struct@.tokens) {
                Ok(sp) => r matches Ok(s) && s@ == sp,
                Err(e) => r matches Err(m) && m@ == e,
            },
    {
        let ghost kv = k2_parse_struct@.tokens;
        let k = &k2_parse_struct.tokens;
        if k.len() != 3 {
            return Err(text("Invalid command size"));
        }
        assert(kv[1] == k@[1]@ && kv[2] == k@[2]@);
        match self.valid_object(&k[1]) {
            Ok(found) => {
                if !found {
                    return Err(concat3("Connector ", k[1].as_str(), " does not exists"));
                }
            },
            Err(e) => {
                return Err(e);
            },
        }
        match self.valid_object(&k[2]) {
            Ok(found) => {
                if !found {
                    return Err(concat3("Connector ", k[2].as_str(), " does not exists"));
                }
            },
            Err(e) => {
                return Err(e);
            },
        }
        let source_obj = match table_get(&self.objects, k[1].as_str()) {
            Some(o) => o,
            None => {
                return Err(text(""));
            },
        };
        let target_obj = match table_get(&self.objects, k[2].as_str()) {
            Some(o) => o,
            None => {
                return Err(text(""));
            },
        };
        if !str_eq(source_obj.object_type.as_str(), "output") && !str_eq(
            target_obj.object_type.as_str(),
            "input",
        ) {
            return Err(text("Connection invalid type."));
        }
        let source_parent_name = match rsplit_once(k[1].as_str(), '.') {
            Some((p, _)) => p,
            None => {
                return Err(text("Split err"));
            },
        };
        let source_parent = match table_get(&self.objects, source_parent_name.as_str()) {
            Some(o) => o,
            None => {
                return Err(text(""));
            },
        };
        if !str_eq(source_parent.object_type.as_str(), "block") {
            return Err(text("Invalid parent type for connection"));
        }
        let target_parent_name = match rsplit_once(k[2].as_str(), '.') {
            Some((p, _)) => p,
            None => {
                return Err(text("Split err"));
            },
        };
        let target_parent = match table_get(&self.objects, target_parent_name.as_str()) {
            Some(o) => o,
            None => {
                return Err(text(""));
            },
        };
        if !str_eq(target_parent.object_type.as_str(), "block") {
            return Err(text("Invalid parent type for connection"));
        }
        Ok(source_parent_name)
    }

    /// Whether the table holds the blocks that a `connect` or `disconnect`
    /// command reads, as `st_link_safe` says.
    fn link_safe(&self, k: &Vec<String>) -> (r: bool)
        ensures
            r == st_link_safe(self.table(), k.deep_view()),
    {
        proof {
            reveal_strlit("output");
            reveal_strlit("input");
            reveal_strlit("block");
        }
        let ghost kv = k.deep_view();
        if k.len() != 3 {
            return true;
        }
        assert(kv[1] == k@[1]@ && kv[2] == k@[2]@);
        match self.valid_object(&k[1]) {
            Ok(true) => {},
            _ => {
                return true;
            },
        }
        match self.valid_object(&k[2]) {
            Ok(true) => {},
            _ => {
                return true;
            },
        }
        let source = table_get(&self.objects, k[1].as_str()).unwrap();
        let target = table_get(&self.objects, k[2].as_str()).unwrap();
        if !str_eq(source.object_type.as_str(), "output") && !str_eq(target.object_type.as_str(), "input") {
            return true;
        }
        let source_parent = match rsplit_once(k[1].as_str(), '.') {
            Some((p, _)) => p,
            None => {
                return true;
            },
        };
        let parent = match table_get(&self.objects, source_parent.as_str()) {
            Some(o) => o,
            None => {
                return false;
            },
        };
        if !str_eq(parent.object_type.as_str(), "block") {
            return true;
        }
        match rsplit_once(k[2].as_str(), '.') {
            Some((tp, _)) => table_has(&self.objects, tp.as_str()),
            None => true,
        }
    }

    /// Whether some property other than the counter records the connection
    /// of a command.
    fn other_record(o: &K2Object, link: &str) -> (r: bool)
        ensures
            r == exists|key: Seq<char>| key != "connection"@ && #[trigger] o@.properties.contains_key(key)
                && o@.properties[key] == link@,
    {
        proof {
            reveal_strlit("connection");
        }
        let keys = o.properties.keys();
        let ghost ks = keys.deep_view();
        let mut i: usize = 0;
        while i < keys.len()
            invariant
                i <= keys@.len(),
                ks == keys.deep_view(),
                ks == o.properties.keys_seq(),
                forall|j: int| 0 <= j < i ==> !(ks[j] != "connection"@ && str_map(o.properties)[ks[j]] == link@),
            decreases keys@.len() - i,
        {
            assert(ks[i as int] == keys@[i as int]@);
            assert(o.properties.has(ks[i as int]));
            let value = o.properties.get(keys[i].as_str()).unwrap();
            assert(value@ == str_map(o.properties)[ks[i as int]]);
            if !str_eq(keys[i].as_str(), "connection") && str_eq(value.as_str(), link) {
                assert(o@.properties.contains_key(ks[i as int]));
                return true;
            }
            i = i + 1;
        }
        assert forall|key: Seq<char>| key != "connection"@ && #[trigger] o@.properties.contains_key(key) implies o@.properties[key] != link@ by {
            assert(o.properties.has(key));
            let j = choose|j: int| 0 <= j < ks.len() && ks[j] == key;
            assert(ks[j] == key);
        }
        false
    }

    /// Whether it can take a command, as `parse_command` requires: a
    /// refused command, or any command before the type rules are in place,
    /// always; otherwise as `command_safe` says.
    pub fn accepts(&self, k2_parse_struct: &K2ReturnStruct) -> (r: bool)
        ensures
            r == (k2_parse_struct@.success && self.ready() ==> command_safe(self.table(), k2_parse_struct@.tokens)),
    {
        proof {
            reveal_strlit("new");
            reveal_strlit("connect");
            reveal_strlit("disconnect");
            reveal_strlit("connection");
            reveal_strlit("0");
            assert("new"@.len() != "connect"@.len() && "new"@.len() != "disconnect"@.len());
            assert("connect"@.len() != "disconnect"@.len());
        }
        if !k2_parse_struct.success || !self.initialized {
            return true;
        }
        let ghost t = self.table();
        let k = &k2_parse_struct.tokens;
        let ghost kv = k2_parse_struct@.tokens;
        if k.len() < 1 {
            return false;
        }
        assert(kv[0] == k@[0]@);
        let word = k[0].as_str();
        if str_eq(word, "new") {
            return k.len() >= 3;
        }
        if !str_eq(word, "connect") && !str_eq(word, "disconnect") {
            return true;
        }
        if !self.link_safe(k) {
            return false;
        }
        let source_parent = match self.link_parent(k2_parse_struct) {
            Ok(p) => p,
            Err(_) => {
                return true;
            },
        };
        let parent = table_get(&self.objects, source_parent.as_str()).unwrap();
        let counter = Self::counter_text(&parent);
        if str_eq(word, "connect") {
            match parse_u32(counter.as_str()) {
                Some(n) => n < u32::MAX,
                None => true,
            }
        } else {
            assert(kv[1] == k@[1]@ && kv[2] == k@[2]@);
            let link = concat3(k[1].as_str(), "-", k[2].as_str());
            let signed = match parse_i32(counter.as_str()) {
                Some(n) => n,
                None => 0,
            };
            let other = Self::other_record(&parent, link.as_str());
            proof {
                let o = t[source_parent@];
                assert forall|key: Seq<char>| #[trigger] records_link(o, kv, key) implies counter_i32(
                    K2ObjectView { properties: o.properties.remove(key), ..o },
                ) > i32::MIN <==> (key == "connection"@ || counter_i32(o) > i32::MIN) by {
                    let o2 = K2ObjectView { properties: o.properties.remove(key), ..o };
                    if key == "connection"@ {
                        assert(!o2.properties.contains_key("connection"@));
                        reveal_strlit("0");
                        assert("0"@ =~= seq!['0']);
                        assert(seq!['0'].drop_last() =~= Seq::<char>::empty());
                        assert(digits_value(Seq::<char>::empty()) == 0);
                        assert(seq!['0'].last() == '0');
                        assert(digits_value(seq!['0']) == digits_value(seq!['0'].drop_last()) * 10 + digit_value('0'));
                        assert(digits_value(seq!['0']) == 0);
                        assert(i32_of_text("0"@) == Some(0i32));
                    } else {
                        assert(o2.properties.contains_key("connection"@) == o.properties.contains_key("connection"@));
                        if o.properties.contains_key("connection"@) {
                            assert(o2.properties["connection"@] == o.properties["connection"@]);
                        }
                    }
                }
                assert(link@ == link_text(kv));
                assert(signed == counter_i32(o));
                if other && !(signed > i32::MIN) {
                    let key = choose|key: Seq<char>| key != "connection"@ && #[trigger] o.properties.contains_key(key)
                        && o.properties[key] == link@;
                    assert(records_link(o, kv, key));
                }
            }
            !other || signed > i32::MIN
        }
    }

    /// Reads the connection counter of a block.
    pub(crate) fn counter_text(o: &K2Object) -> (r: String)
        ensures
            r@ == (if o@.properties.contains_key("connection"@) {
                o@.properties["connection"@]
            } else {
                "0"@
            }),
    {
        match o.properties.get("connection") {
            Some(v) => v.clone(),
            None => text("0"),
        }
    }

    /// Records a connection from an output to an input in the source's block.
    fn parse_connect(&mut self, k2_parse_struct: &K2ReturnStruct) -> (r: Result<K2ReturnStruct, String>)
        requires
            st_link_safe(old(self).table(), k2_parse_struct@.tokens),
            st_link_check(old(self).table(), k2_parse_struct@.tokens) matches Ok(sp)
                ==> counter_u32(old(self).table()[sp]) < u32::MAX,
        ensures
            final(self).table() == st_connect(old(self).table(), k2_parse_struct@).0,
            outcome(r) == st_connect(old(self).table(), k2_parse_struct@).1,
            final(self).ready() == old(self).ready(),
            final(self).label() == old(self).label(),
    {
        let ghost kv = k2_parse_struct@.tokens;
        let source_parent_name = match self.link_parent(k2_parse_struct) {
            Ok(p) => p,
            Err(e) => {
                return Err(e);
            },
        };
        let mut source_parent = match table_get(&self.objects, source_parent_name.as_str()) {
            Some(o) => o,
            None => {
                return Err(text(""));
            },
        };
        let current = match parse_u32(Self::counter_text(&source_parent).as_str()) {
            Some(n) => n,
            None => 0,
        };
        let number = current + 1;
        let k = &k2_parse_struct.tokens;
        assert(kv[1] == k@[1]@ && kv[2] == k@[2]@);
        let key = String::from_str("connection_").concat(u32_text(number).as_str());
        let value = concat3(k[1].as_str(), "-", k[2].as_str());
        add_prop(&mut source_parent, key.as_str(), &value);
        add_prop(&mut source_parent, "connection", &u32_text(number));
        table_insert(&mut self.objects, source_parent_name, source_parent.duplicate());
        Ok(make_reply(k2_parse_struct, "connect", single(source_parent)))
    }

    /// Removes a recorded connection, in the answer only.
    fn parse_disconnect(&mut self, k2_parse_struct: &K2ReturnStruct) -> (r: Result<
        K2ReturnStruct,
        String,
    >)
        requires
            st_link_safe(old(self).table(), k2_parse_struct@.tokens),
            st_link_check(old(self).table(), k2_parse_struct@.tokens) matches Ok(sp) ==> (forall|
                key: Seq<char>,
            |
                #[trigger] records_link(old(self).table()[sp], k2_parse_struct@.tokens, key)
                    ==> counter_i32(
                    K2ObjectView {
                        properties: old(self).table()[sp].properties.remove(key),
                        ..old(self).table()[sp]
                    },
                ) > i32::MIN),
        ensures
            final(self).table() == old(self).table(),
            disconnect_outcome(old(self).table(), k2_parse_struct@, outcome(r)),
            final(self).ready() == old(self).ready(),
            final(self).label() == old(self).label(),
    {
        let ghost t = self.table();
        let ghost kv = k2_parse_struct@.tokens;
        let source_parent_name = match self.link_parent(k2_parse_struct) {
            Ok(p) => p,
            Err(e) => {
                return Err(e);
            },
        };
        let mut source_parent = match table_get(&self.objects, source_parent_name.as_str()) {
            Some(o) => o,
            None => {
                return Err(text(""));
            },
        };
        let ghost o = source_parent@;
        let k = &k2_parse_struct.tokens;
        assert(kv[1] == k@[1]@ && kv[2] == k@[2]@);
        let target = concat3(k[1].as_str(), "-", k[2].as_str());
        match source_parent.properties.key_of_value(target.as_str()) {
            None => {
                assert(!exists|key: Seq<char>| records_link(o, kv, key));
                Err(text("Connection does not exist"))
            },
            Some(key) => {
                assert(records_link(o, kv, key@));
                drop_prop(&mut source_parent, key.as_str());
                let current = match parse_i32(Self::counter_text(&source_parent).as_str()) {
                    Some(n) => n,
                    None => 0,
                };
                let number = current - 1;
                if number >= 0 {
                    add_prop(&mut source_parent, "connection", &i32_text(number));
                }
                assert(source_parent@ == disconnected(o, key@));
                let r = make_reply(k2_parse_struct, "Disconnect", single(source_parent));
                assert(records_link(o, kv, key@) && outcome(Ok::<K2ReturnStruct, String>(r)) == Ok::<
                    K2ReturnView,
                    Seq<char>,
                >(reply(k2_parse_struct@, "Disconnect"@, seq![disconnected(o, key@)])));
                Ok(r)
            },
        }
    }

    /// Checks that `exec` names an object.
    fn parse_exec(&mut self, k2_parse_struct: &K2ReturnStruct) -> (r: Result<K2ReturnStruct, String>)
        ensures
            final(self).table() == old(self).table(),
            outcome(r) == st_exec(old(self).table(), k2_parse_struct@),
            final(self).ready() == old(self).ready(),
            final(self).label() == old(self).label(),
    {
        if k2_parse_struct.tokens.len() < 2 {
            return Err(text("Invalid k2_parse_struct.tokens length"));
        }
        assert(k2_parse_struct@.tokens[1] == k2_parse_struct.tokens@[1]@);
        match self.valid_object(&k2_parse_struct.tokens[1]) {
            Ok(found) => {
                if !found {
                    return Err(text("Command does not exist"));
                }
            },
            Err(e) => {
                return Err(e);
            },
        }
        Ok(k2_parse_struct.duplicate())
    }

    /// Runs the handler of an accepted command's keyword. A refused command
    /// passes through; a handler's refusal becomes an answer that says so; an
    /// unknown keyword leaves the command as it is. Fails only when the type
    /// rules are not in place.
    pub fn parse_command(&mut self, k2_parse_struct: &K2ReturnStruct) -> (r: Result<
        K2ReturnStruct,
        String,
    >)
        requires
            k2_parse_struct@.success && old(self).ready() ==> command_safe(
                old(self).table(),
                k2_parse_struct@.tokens,
            ),
        ensures
            !k2_parse_struct@.success ==> final(self).table() == old(self).table(),
            !k2_parse_struct@.success ==> (r matches Ok(s) && s@ == k2_parse_struct@),
            k2_parse_struct@.success && !old(self).ready() ==> final(self).table() == old(
                self,
            ).table(),
            k2_parse_struct@.success && !old(self).ready() ==> (r matches Err(m) && m@
                == "Uninitialized map"@),
            k2_parse_struct@.success && old(self).ready() && k2_parse_struct@.tokens[0]
                != "disconnect"@ ==> final(self).table() == st_command(
                old(self).table(),
                true,
                k2_parse_struct@,
            ).0,
            k2_parse_struct@.success && old(self).ready() && k2_parse_struct@.tokens[0]
                != "disconnect"@ ==> (r matches Ok(s) && s@ == response_of(
                k2_parse_struct@,
                st_command(old(self).table(), true, k2_parse_struct@).1,
            )),
            k2_parse_struct@.success && old(self).ready() && k2_parse_struct@.tokens[0]
                == "disconnect"@ ==> final(self).table() == old(self).table(),
            k2_parse_struct@.success && old(self).ready() && k2_parse_struct@.tokens[0]
                == "disconnect"@ ==> (r matches Ok(s) && exists|out: Result<K2ReturnView, Seq<char>>|
                disconnect_outcome(old(self).table(), k2_parse_struct@, out) && s@ == response_of(
                    k2_parse_struct@,
                    out,
                )),
            final(self).ready() == old(self).ready(),
            final(self).label() == old(self).label(),
    {
        if !k2_parse_struct.success {
            return Ok(k2_parse_struct.duplicate());
        }
        if !self.initialized {
            return Err(text("Uninitialized map"));
        }
        assert(k2_parse_struct@.tokens[0] == k2_parse_struct.tokens@[0]@);
        let key_word = k2_parse_struct.tokens[0].as_str();
        if str_eq(key_word, "disconnect") {
            let ghost t = self.table();
            let result = self.parse_disconnect(k2_parse_struct);
            let ghost out = outcome(result);
            let answer = match result {
                Ok(res) => res,
                Err(e) => make_failed(k2_parse_struct, e),
            };
            assert(disconnect_outcome(t, k2_parse_struct@, out) && answer@ == response_of(
                k2_parse_struct@,
                out,
            ));
            return Ok(answer);
        }
        let result = if str_eq(key_word, "new") {
            self.parse_new(k2_parse_struct)
        } else if str_eq(key_word, "add") {
            self.parse_add(k2_parse_struct)
        } else if str_eq(key_word, "delete") {
            self.parse_delete(k2_parse_struct)
        } else if str_eq(key_word, "set") {
            self.parse_set(k2_parse_struct)
        } else if str_eq(key_word, "connect") {
            self.parse_connect(k2_parse_struct)
        } else if str_eq(key_word, "exec") {
            self.parse_exec(k2_parse_struct)
        } else {
            return Ok(k2_parse_struct.duplicate());
        };
        match result {
            Ok(res) => Ok(res),
            Err(e) => Ok(make_failed(k2_parse_struct, e)),
        }
    }
}

/// After an accepted `new` of an object that is not a library or an
/// application, the table holds the object and its parent, the parent lists
/// the object as its last child, and the object lists the parent as its last
/// parent.
pub proof fn law_new_links_parent(t: Table, k: Seq<Seq<char>>)
    requires
        k.len() >= 3,
        st_new(t, true, k).1 is Ok,
        k[1] != "library"@,
        k[1] != "application"@,
    ensures
        ({
            let after = st_new(t, true, k).0;
            let p = rsplit_once_spec(k[2], '.')->Some_0.0;
            &&& rsplit_once_spec(k[2], '.') is Some
            &&& after.contains_key(k[2])
            &&& after.contains_key(p)
            &&& after[p].children.last() == k[2]
            &&& after[k[2]].parent.last() == p
        }),
{
    crate::text::lemma_last_index(k[2], '.');
    let name = k[2];
    match rsplit_once_spec(name, '.') {
        Some((p, _)) => {
            assert(p.len() < name.len());
            assert(p != name);
        },
        None => {},
    }
}

/// Every type for which `new` builds an object has a type of parent it is
/// created in: what `new` can build, it can also place.
pub proof fn law_built_types_have_parents(obj: K2ObjectView, k: Seq<Seq<char>>, n: int)
    requires
        st_fill(obj, k, n) is Ok,
    ensures
        parent_type_of(obj.object_type) is Some,
{
}

/// Which objects each kind of object holds: a processor its members
/// (inputs, outputs, parameters, states, commands), a library its
/// processors, an application its streaming control, and the streaming
/// control its chains and modes.
pub open spec fn holds_child(parent: Seq<char>, child: Seq<char>) -> bool {
    ||| parent == "processor"@ && (child == "input"@ || child == "output"@ || child == "parameter"@
        || child == "state"@ || child == "command"@)
    ||| parent == "library"@ && child == "processor"@
    ||| parent == "application"@ && child == "streaming_control"@
    ||| parent == "streaming_control"@ && (child == "chain"@ || child == "mode"@)
}

/// Objects are created inside the objects that hold them: `new` of an
/// object under a name not taken whose parent holds objects of its type
/// (see `holds_child`), with the tokens its type reads, is accepted. The
/// object, built from its tokens, enters the table with that parent as its
/// parent, and the parent lists it last.
pub proof fn law_parents_take_their_children(t: Table, k: Seq<Seq<char>>, p: Seq<char>, x: Seq<char>)
    requires
        k.len() >= 3,
        valid_object_name(k[2]),
        !t.contains_key(k[2]),
        rsplit_once_spec(k[2], '.') == Some((p, x)),
        valid_object_name(p),
        t.contains_key(p),
        holds_child(t[p].object_type, k[1]),
        st_fill(bare_object(k[2], k[1]), k, split_on(k[2], '.').len() as int) is Ok,
    ensures
        st_new(t, true, k).1 == st_fill(bare_object(k[2], k[1]), k, split_on(k[2], '.').len() as int),
        st_new(t, true, k).0[k[2]] == (K2ObjectView {
            parent: seq![p],
            ..st_fill(bare_object(k[2], k[1]), k, split_on(k[2], '.').len() as int)->Ok_0
        }),
        st_new(t, true, k).0[p].children == t[p].children.push(k[2]),
{
    crate::text::lemma_last_index(k[2], '.');
    assert(p.len() < k[2].len());
    reveal_strlit("block");
    reveal_strlit("input");
    reveal_strlit("output");
    reveal_strlit("parameter");
    reveal_strlit("state");
    reveal_strlit("command");
    reveal_strlit("library");
    reveal_strlit("application");
    reveal_strlit("processor");
    reveal_strlit("streaming_control");
    reveal_strlit("chain");
    reveal_strlit("mode");
    let ty = k[1];
    let pt = t[p].object_type;
    assert(ty != "block"@ && ty != "library"@ && ty != "application"@) by {
        if ty == "input"@ || ty == "output"@ || ty == "parameter"@ || ty == "state"@ || ty == "command"@
            || ty == "processor"@ || ty == "streaming_control"@ || ty == "mode"@ {
            assert(ty[0] != "block"@[0] && ty[0] != "library"@[0] && ty[0] != "application"@[0]);
        }
        if ty == "chain"@ {
            assert(ty[0] != "block"@[0] && ty[0] != "library"@[0] && ty[0] != "application"@[0]);
        }
    }
    if pt == "processor"@ {
        assert(ty != "processor"@) by {
            if ty == "parameter"@ { assert(ty[1] != "processor"@[1]); }
            if ty == "input"@ || ty == "output"@ || ty == "state"@ || ty == "command"@ { assert(ty[0] != "processor"@[0]); }
        }
        assert(parent_type_of(ty) == Some("processor"@));
    } else if pt == "library"@ {
        assert(parent_type_of(ty) == Some("library"@));
    } else if pt == "application"@ {
        assert(ty != "processor"@ && ty != "input"@ && ty != "output"@ && ty != "parameter"@ && ty != "state"@
            && ty != "command"@) by {
            assert(ty.len() != "processor"@.len() && ty.len() != "input"@.len() && ty.len() != "output"@.len()
                && ty.len() != "parameter"@.len() && ty.len() != "state"@.len() && ty.len() != "command"@.len());
        }
        assert(parent_type_of(ty) == Some("application"@));
    } else {
        assert(ty != "processor"@ && ty != "input"@ && ty != "output"@ && ty != "parameter"@ && ty != "state"@
            && ty != "command"@ && ty != "streaming_control"@) by {
            if ty == "chain"@ {
                assert(ty[0] != "processor"@[0] && ty[0] != "input"@[0] && ty[0] != "output"@[0] && ty[0]
                    != "parameter"@[0] && ty[0] != "state"@[0] && ty[1] != "command"@[1] && ty[0] != "streaming_control"@[0]);
            }
            if ty == "mode"@ {
                assert(ty[0] != "processor"@[0] && ty[0] != "input"@[0] && ty[0] != "output"@[0] && ty[0]
                    != "parameter"@[0] && ty[0] != "state"@[0] && ty[0] != "command"@[0] && ty[0] != "streaming_control"@[0]);
            }
        }
        assert(parent_type_of(ty) == Some("streaming_control"@));
    }
}

} // verus!