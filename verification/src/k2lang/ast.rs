//! The abstract syntax tree of the second form of the language: a table of
//! objects that each command changes.
use vstd::prelude::*;
use crate::name_map::NameMap;
use crate::text::{split_on, rsplit_once, rsplit_once_spec, str_eq, join_dot, last_piece, last_piece_exec, concat3};
use crate::k2_lang::objects::{
    K2Object, K2ObjectView, table_view, table_insert, table_remove, table_get, table_has, without,
    remove_name, push_name, objects_view, Table, with_prop, add_prop, drop_prop,
};
use crate::k2_stream::errors::{K2Error, K2ErrorCode};
use crate::k2_stream::processors::ProcessorHeader;
use crate::k2lang::objects::{K2LangStruct, K2LangView, K2LangReturn, K2LangObject};
use crate::k2lang::parser::{answers, fails_as};

verus! {

/// Whether an object of type `parent` may hold one of type `child`.
pub open spec fn may_hold(parent: Seq<char>, child: Seq<char>) -> bool {
    if parent == "processor"@ {
        child == "input"@ || child == "output"@ || child == "parameter"@ || child == "state"@
            || child == "command"@
    } else if parent == "library"@ {
        child == "processor"@
    } else if parent == "stream"@ {
        child == "block"@ || child == "chain"@ || child == "mode"@
    } else if parent == "application"@ {
        child == "stream"@
    } else {
        false
    }
}

/// `b` as a member of `a`: the two names joined by a dot.
pub open spec fn member_name(a: Seq<char>, b: Seq<char>) -> Seq<char> {
    a + seq!['.'] + b
}

/// The types of the members of a processor.
pub open spec fn member_type(t: Seq<char>) -> bool {
    t == "input"@ || t == "output"@ || t == "parameter"@ || t == "state"@ || t == "command"@
}

/// The refusal of a name that is not in the table.
pub open spec fn not_found(name: Seq<char>) -> (K2ErrorCode, Seq<char>) {
    (K2ErrorCode::NotFound, "Object "@ + name + " not found"@)
}

/// The refusal of a child that a parent of type `parent` may not hold.
pub open spec fn parent_refusal(parent: Seq<char>, child: Seq<char>) -> (K2ErrorCode, Seq<char>) {
    (K2ErrorCode::InvalidOperation, if parent == "processor"@ {
        "Type processor can not have type "@ + child + " as children"@
    } else if parent == "library"@ {
        "Type application can have only processor children"@
    } else if parent == "stream"@ {
        "Type stream can not have type "@ + child + " as children"@
    } else if parent == "application"@ {
        "Type application can have only stream children"@
    } else {
        "Type "@ + parent + " can not have children"@
    })
}

/// Copies the members of a processor into a new block, one after the other:
/// the table after the copies made, and the block, or the name of a member
/// missing from the table.
pub open spec fn load_members(t: Table, block: K2ObjectView, members: Seq<Seq<char>>) -> (
    Table,
    Result<K2ObjectView, Seq<char>>,
)
    decreases members.len(),
{
    if members.len() == 0 {
        (t, Ok(block))
    } else {
        let child = members[0];
        let new_name = member_name(block.name, last_piece(child));
        let block2 = K2ObjectView { children: block.children.push(new_name), ..block };
        if !t.contains_key(child) {
            (t, Err(child))
        } else {
            load_members(t.insert(new_name, t[child]), block2, members.drop_first())
        }
    }
}

/// The properties that `new` copies from the tokens, by object type.
pub open spec fn fill_props(o: K2ObjectView, tokens: Seq<Seq<char>>) -> K2ObjectView {
    let t = o.object_type;
    if t == "input"@ || t == "output"@ {
        with_prop(o, "type"@, tokens[3])
    } else if t == "state"@ {
        with_prop(with_prop(o, "type"@, tokens[3]), "value"@, tokens[4])
    } else if t == "parameter"@ {
        with_prop(
            with_prop(with_prop(o, "type"@, tokens[3]), "value"@, tokens[4]),
            "kind"@,
            tokens[5],
        )
    } else if t == "command"@ {
        with_prop(o, "callback"@, tokens[3])
    } else if t == "library"@ || t == "application"@ {
        with_prop(o, "path"@, tokens[3])
    } else {
        o
    }
}

/// How many tokens `new` reads for an object type.
pub open spec fn tokens_needed(t: Seq<char>) -> int {
    if t == "state"@ {
        5
    } else if t == "parameter"@ {
        6
    } else if t == "input"@ || t == "output"@ || t == "command"@ || t == "block"@ || t
        == "library"@ || t == "application"@ {
        4
    } else {
        0
    }
}

/// The parent name of a new object, when `new` gets as far as reading its tokens.
pub open spec fn new_reaches_tokens(t: Table, input: K2LangView) -> bool {
    &&& input.data.len() == 1
    &&& !t.contains_key(input.data[0].name)
    &&& rsplit_once_spec(input.data[0].name, '.') matches Some((p, _))
    &&& t.contains_key(p)
    &&& may_hold(t[p].object_type, input.data[0].object_type)
}

/// The object that `new` builds from its tokens, with the table after the
/// members of a block were copied, or the error that stops it.
pub open spec fn new_loaded(t: Table, obj: K2ObjectView, tokens: Seq<Seq<char>>) -> (
    Table,
    Result<K2ObjectView, (K2ErrorCode, Seq<char>)>,
) {
    if obj.object_type == "block"@ {
        let bt = tokens[3];
        if !t.contains_key(bt) {
            (t, Err((K2ErrorCode::InvalidValue, "Unknow processor "@ + bt)))
        } else {
            let (t2, b) = load_members(t, obj, t[bt].children);
            match b {
                Ok(b) => (t2, Ok(with_prop(b, "type"@, bt))),
                Err(c) => (t2, Err(not_found(c))),
            }
        }
    } else {
        (t, Ok(fill_props(obj, tokens)))
    }
}

/// Copying members keeps every name the table had.
pub proof fn lemma_load_members_keeps(
    t: Table,
    block: K2ObjectView,
    members: Seq<Seq<char>>,
    k: Seq<char>,
)
    requires
        t.contains_key(k),
    ensures
        load_members(t, block, members).0.contains_key(k),
    decreases members.len(),
{
    if members.len() > 0 {
        let child = members[0];
        let new_name = member_name(block.name, last_piece(child));
        let block2 = K2ObjectView { children: block.children.push(new_name), ..block };
        if t.contains_key(child) {
            lemma_load_members_keeps(t.insert(new_name, t[child]), block2, members.drop_first(), k);
        }
    }
}

/// What `new` does to the table, and what it answers.
pub open spec fn ast_new(t: Table, input: K2LangView) -> (Table, Result<K2LangView, (K2ErrorCode, Seq<char>)>) {
    if input.data.len() != 1 {
        (t, Err((K2ErrorCode::InvalidOperation, "Can create an object at time"@)))
    } else {
        let obj = input.data[0];
        let name = obj.name;
        if t.contains_key(name) {
            (t, Err((K2ErrorCode::InvalidOperation, "Object "@ + name + " already exists"@)))
        } else {
            match rsplit_once_spec(name, '.') {
                None => (t, Err((K2ErrorCode::BadFormat, "Bad format name"@))),
                Some((p, _)) => if !t.contains_key(p) {
                    (t, Err((K2ErrorCode::InvalidOperation, "Parent "@ + p + " does not exist"@)))
                } else if !may_hold(t[p].object_type, obj.object_type) {
                    (t, Err(parent_refusal(t[p].object_type, obj.object_type)))
                } else {
                    let loaded = new_loaded(t, obj, input.tokens);
                    match loaded.1 {
                        Err(c) => (loaded.0, Err(c)),
                        Ok(o) => {
                            let t2 = loaded.0;
                            let parent = K2ObjectView {
                                children: t2[p].children.push(name),
                                ..t2[p]
                            };
                            let child = K2ObjectView { parent: o.parent.push(p), ..o };
                            (
                                t2.insert(p, parent).insert(name, child),
                                Ok(K2LangView { data: seq![parent, o], ..input }),
                            )
                        },
                    }
                },
            }
        }
    }
}

/// Which objects each kind of object takes as children: a processor its
/// members, a library its processors, an application its streams, and a
/// stream its chains and modes.
pub open spec fn takes_child(parent: Seq<char>, child: Seq<char>) -> bool {
    ||| parent == "processor"@ && member_type(child)
    ||| parent == "library"@ && child == "processor"@
    ||| parent == "application"@ && child == "stream"@
    ||| parent == "stream"@ && (child == "chain"@ || child == "mode"@)
}

/// `new` places objects where they belong: a processor takes members of
/// every member type (input, output, parameter, state, command), a library
/// processors, an application streams, and a stream chains and modes. Such a
/// `new`, under a name not taken and with the tokens its type reads, is
/// accepted; the object enters the table with its properties read from the
/// tokens and the parent as its last parent, and the parent lists it last.
pub proof fn law_parents_take_their_children(t: Table, input: K2LangView, p: Seq<char>, x: Seq<char>)
    requires
        input.data.len() == 1,
        !t.contains_key(input.data[0].name),
        rsplit_once_spec(input.data[0].name, '.') == Some((p, x)),
        t.contains_key(p),
        takes_child(t[p].object_type, input.data[0].object_type),
        input.tokens.len() >= tokens_needed(input.data[0].object_type),
    ensures
        ast_new(t, input).1 is Ok,
        ast_new(t, input).0.contains_key(input.data[0].name),
        ast_new(t, input).0[input.data[0].name] == (K2ObjectView {
            parent: fill_props(input.data[0], input.tokens).parent.push(p),
            ..fill_props(input.data[0], input.tokens)
        }),
        ast_new(t, input).0[p].children == t[p].children.push(input.data[0].name),
{
    reveal_strlit("block");
    reveal_strlit("input");
    reveal_strlit("output");
    reveal_strlit("parameter");
    reveal_strlit("state");
    reveal_strlit("command");
    reveal_strlit("processor");
    reveal_strlit("stream");
    reveal_strlit("chain");
    reveal_strlit("mode");
    reveal_strlit("library");
    reveal_strlit("application");
    let ty = input.data[0].object_type;
    let pt = t[p].object_type;
    assert(ty != "block"@) by {
        if ty == "input"@ || ty == "output"@ || ty == "state"@ || ty == "stream"@ || ty == "mode"@
            || ty == "parameter"@ || ty == "command"@ || ty == "processor"@ || ty == "chain"@ {
            assert(ty[0] != "block"@[0]);
        }
    }
    assert(may_hold(pt, ty)) by {
        if pt == "library"@ {
            assert(pt != "processor"@) by { assert(pt[0] != "processor"@[0]); }
        }
        if pt == "application"@ {
            assert(pt != "processor"@ && pt != "library"@ && pt != "stream"@) by {
                assert(pt[0] != "processor"@[0] && pt[0] != "library"@[0] && pt[0] != "stream"@[0]);
            }
        }
        if pt == "stream"@ {
            assert(pt != "processor"@ && pt != "library"@) by {
                assert(pt[0] != "processor"@[0] && pt[0] != "library"@[0]);
            }
        }
    }
    let name = input.data[0].name;
    assert(p != name) by {
        crate::text::lemma_last_index(name, '.');
    }
}

/// Unlinks a deleted object from its children: a child left without parents
/// goes too. Fails, keeping what was done, when a child is missing.
pub open spec fn unlink_children(t: Table, children: Seq<Seq<char>>, name: Seq<char>) -> (
    Table,
    Result<(), Seq<char>>,
)
    decreases children.len(),
{
    if children.len() == 0 {
        (t, Ok(()))
    } else {
        let c = children[0];
        if !t.contains_key(c) {
            (t, Err(c))
        } else {
            let o = K2ObjectView { parent: without(t[c].parent, name), ..t[c] };
            let t2 = if o.parent.len() == 0 {
                t.remove(c)
            } else {
                t.insert(c, o)
            };
            unlink_children(t2, children.drop_first(), name)
        }
    }
}

/// Unlinks a deleted object from its parents. Fails, keeping what was done,
/// when a parent is missing.
pub open spec fn unlink_parents(t: Table, parents: Seq<Seq<char>>, name: Seq<char>) -> (
    Table,
    Result<(), Seq<char>>,
)
    decreases parents.len(),
{
    if parents.len() == 0 {
        (t, Ok(()))
    } else {
        let p = parents[0];
        if !t.contains_key(p) {
            (t, Err(p))
        } else {
            let o = K2ObjectView { children: without(t[p].children, name), ..t[p] };
            unlink_parents(t.insert(p, o), parents.drop_first(), name)
        }
    }
}

/// What `delete` does to the table, and whether it succeeds.
pub open spec fn ast_delete(t: Table, name: Seq<char>) -> (Table, Result<(), (K2ErrorCode, Seq<char>)>) {
    if !t.contains_key(name) {
        (t, Err(not_found(name)))
    } else {
        let (t1, r1) = unlink_children(t, t[name].children, name);
        match r1 {
            Err(c) => (t1, Err(not_found(c))),
            Ok(_) => {
                let (t2, r2) = unlink_parents(t1, t[name].parent, name);
                match r2 {
                    Err(p) => (t2, Err(not_found(p))),
                    Ok(_) => (t2.remove(name), Ok(())),
                }
            },
        }
    }
}

/// The command with its data replaced.
pub open spec fn answer(input: K2LangView, data: Seq<K2ObjectView>) -> K2LangView {
    K2LangView { data, ..input }
}

/// What `add` does: a block joins a chain, or a chain a mode.
pub open spec fn ast_add(t: Table, input: K2LangView) -> (Table, Result<K2LangView, (K2ErrorCode, Seq<char>)>) {
    let c = input.tokens[1];
    let p = input.tokens[2];
    if !t.contains_key(c) {
        (t, Err(not_found(c)))
    } else if !t.contains_key(p) {
        (t, Err(not_found(p)))
    } else {
        let oc = t[c];
        let op = t[p];
        if (oc.object_type == "block"@ && op.object_type == "chain"@) || (oc.object_type
            == "chain"@ && op.object_type == "mode"@) {
            let op2 = K2ObjectView { children: op.children.push(c), ..op };
            let oc2 = K2ObjectView { parent: oc.parent.push(p), ..oc };
            (t.insert(p, op2).insert(c, oc2), Ok(answer(input, seq![op2, oc2])))
        } else {
            (t, Err((K2ErrorCode::InvalidOperation, "Cannot add "@ + oc.object_type + " to "@ + op.object_type)))
        }
    }
}

/// What `set` does: a parameter or a state takes a new value.
pub open spec fn ast_set(t: Table, input: K2LangView) -> (Table, Result<K2LangView, (K2ErrorCode, Seq<char>)>) {
    let name = input.data[0].name;
    if !t.contains_key(name) {
        (t, Err(not_found(name)))
    } else if t[name].object_type != "parameter"@ && t[name].object_type != "state"@ {
        (t, Err((K2ErrorCode::InvalidOperation, "Type "@ + t[name].object_type + " is not settable"@)))
    } else {
        let o = with_prop(t[name], "value"@, input.tokens[2]);
        (t.insert(name, o), Ok(answer(input, seq![o])))
    }
}

/// What `connect` (when `link`) or `disconnect` does: the output of the two
/// records, or forgets, the input as a connection.
pub open spec fn ast_link(t: Table, input: K2LangView, link: bool) -> (
    Table,
    Result<K2LangView, (K2ErrorCode, Seq<char>)>,
) {
    let n1 = input.data[0].name;
    let n2 = input.data[1].name;
    if !t.contains_key(n1) {
        (t, Err(not_found(n1)))
    } else if !t.contains_key(n2) {
        (t, Err(not_found(n2)))
    } else {
        let o1 = t[n1];
        let o2 = t[n2];
        if o1.object_type == "output"@ && o2.object_type == "input"@ {
            let o1b = K2ObjectView {
                properties: if link {
                    o1.properties.insert(n2, "connection"@)
                } else {
                    o1.properties.remove(n2)
                },
                ..o1
            };
            (t.insert(n1, o1b), Ok(answer(input, seq![o1b, o2])))
        } else if o2.object_type == "output"@ && o1.object_type == "input"@ {
            let o2b = K2ObjectView {
                properties: if link {
                    o2.properties.insert(n1, "connection"@)
                } else {
                    o2.properties.remove(n1)
                },
                ..o2
            };
            (t.insert(n2, o2b), Ok(answer(input, seq![o1, o2b])))
        } else {
            (t, Err((K2ErrorCode::InvalidOperation, n1 + " and "@ + n2 + " shall be input and output"@)))
        }
    }
}

/// Forgetting a connection that was just made gives back the table as it
/// was: a `connect` between an output and an input that were not connected,
/// followed by a `disconnect` of the same two objects, changes nothing.
pub proof fn law_disconnect_undoes_connect(t: Table, input: K2LangView)
    requires
        input.data.len() >= 2,
        t.contains_key(input.data[0].name),
        t.contains_key(input.data[1].name),
        ({
            let o1 = t[input.data[0].name];
            let o2 = t[input.data[1].name];
            ||| o1.object_type == "output"@ && o2.object_type == "input"@ && !o1.properties.contains_key(
                input.data[1].name,
            )
            ||| o2.object_type == "output"@ && o1.object_type == "input"@ && !o2.properties.contains_key(
                input.data[0].name,
            )
        }),
    ensures
        ast_link(t, input, true).1 is Ok,
        ast_link(ast_link(t, input, true).0, input, false).1 is Ok,
        ast_link(ast_link(t, input, true).0, input, false).0 == t,
{
    let n1 = input.data[0].name;
    let n2 = input.data[1].name;
    let o1 = t[n1];
    let o2 = t[n2];
    let t1 = ast_link(t, input, true).0;
    let t2 = ast_link(t1, input, false).0;
    reveal_strlit("output");
    reveal_strlit("input");
    assert("output"@.len() != "input"@.len());
    if o1.object_type == "output"@ && o2.object_type == "input"@ {
        assert(n1 != n2);
        assert(o1.properties.insert(n2, "connection"@).remove(n2) =~= o1.properties);
        assert(t1[n2] == o2);
        assert(t2 =~= t);
    } else {
        assert(n1 != n2);
        assert(o2.properties.insert(n1, "connection"@).remove(n1) =~= o2.properties);
        assert(t1[n1] == o1);
        assert(t2 =~= t);
    }
}

/// What `exec` answers: the command itself when it names a command object.
pub open spec fn ast_exec(t: Table, input: K2LangView) -> Result<K2LangView, (K2ErrorCode, Seq<char>)> {
    let name = input.tokens[2];
    if !t.contains_key(name) {
        Err(not_found(name))
    } else if t[name].object_type != "command"@ {
        Err((K2ErrorCode::InvalidOperation, "Object "@ + name + " is not a command"@))
    } else {
        Ok(input)
    }
}

/// What `code` does: an object records a piece of code under a key.
pub open spec fn ast_code(t: Table, input: K2LangView) -> (Table, Result<K2LangView, (K2ErrorCode, Seq<char>)>) {
    let name = input.tokens[1];
    if !t.contains_key(name) {
        (t, Err(not_found(name)))
    } else {
        let o = with_prop(t[name], input.tokens[2], input.tokens[3]);
        (t.insert(name, o), Ok(answer(input, seq![o])))
    }
}

/// The tokens and data that a keyword's handler reads, as the parser
/// stage leaves them.
pub open spec fn command_shape_ok(t: Table, input: K2LangView) -> bool {
    let k = input.tokens[0];
    &&& k == "new"@ ==> (input.data.len() == 1 && new_reaches_tokens(t, input)
        ==> input.tokens.len() >= tokens_needed(input.data[0].object_type))
    &&& k == "add"@ ==> input.tokens.len() >= 3
    &&& k == "delete"@ ==> input.data.len() >= 1
    &&& k == "set"@ ==> input.data.len() >= 1 && input.tokens.len() >= 3
    &&& (k == "connect"@ || k == "disconnect"@) ==> input.data.len() >= 2
    &&& k == "exec"@ ==> input.tokens.len() >= 3
}

/// What the syntax tree does with a command, by its keyword.
pub open spec fn ast_command(t: Table, input: K2LangView) -> (Table, Result<K2LangView, (K2ErrorCode, Seq<char>)>) {
    let k = input.tokens[0];
    if input.tokens.len() < 1 {
        (t, Err((K2ErrorCode::BadFormat, "Empty command"@)))
    } else if k == "new"@ {
        ast_new(t, input)
    } else if k == "add"@ {
        ast_add(t, input)
    } else if k == "delete"@ {
        let (t2, r) = ast_delete(t, input.data[0].name);
        (t2, match r {
            Ok(_) => Ok(input),
            Err(c) => Err(c),
        })
    } else if k == "set"@ {
        ast_set(t, input)
    } else if k == "connect"@ {
        ast_link(t, input, true)
    } else if k == "disconnect"@ {
        ast_link(t, input, false)
    } else if k == "exec"@ {
        (t, ast_exec(t, input))
    } else {
        (t, Err((K2ErrorCode::InvalidValue, "Keyword "@ + k + " not valid"@)))
    }
}

/// The syntax tree stage.
pub struct AbstractSyntaxTree {
    pub name: String,
    pub header: ProcessorHeader,
    object_table: NameMap<K2LangObject>,
}

/// An error with a code.
fn fail(code: K2ErrorCode, message: String) -> (r: K2LangReturn)
    ensures
        fails_as(r, code, message@),
{
    Err(K2Error { code, message })
}

/// The refusal of a name that is not in the table.
fn missing(name: &str) -> (r: K2LangReturn)
    ensures
        fails_as(r, not_found(name@).0, not_found(name@).1),
{
    fail(K2ErrorCode::NotFound, concat3("Object ", name, " not found"))
}

/// The refusal of a child that a parent may not hold.
fn parent_refusal_exec(parent: &str, child: &str) -> (r: String)
    ensures
        r@ == parent_refusal(parent@, child@).1,
{
    if str_eq(parent, "processor") {
        concat3("Type processor can not have type ", child, " as children")
    } else if str_eq(parent, "library") {
        "Type application can have only processor children".to_owned()
    } else if str_eq(parent, "stream") {
        concat3("Type stream can not have type ", child, " as children")
    } else if str_eq(parent, "application") {
        "Type application can have only stream children".to_owned()
    } else {
        concat3("Type ", parent, " can not have children")
    }
}

/// The number of tokens that `new` reads for an object type.
fn tokens_needed_exec(t: &str) -> (r: usize)
    ensures
        r == tokens_needed(t@),
{
    if str_eq(t, "state") {
        5
    } else if str_eq(t, "parameter") {
        6
    } else if str_eq(t, "input") || str_eq(t, "output") || str_eq(t, "command") || str_eq(t, "block") || str_eq(
        t,
        "library",
    ) || str_eq(t, "application") {
        4
    } else {
        0
    }
}

/// Whether an object type may hold another.
fn may_hold_exec(parent: &str, child: &str) -> (r: bool)
    ensures
        r == may_hold(parent@, child@),
{
    if str_eq(parent, "processor") {
        str_eq(child, "input") || str_eq(child, "output") || str_eq(child, "parameter")
            || str_eq(child, "state") || str_eq(child, "command")
    } else if str_eq(parent, "library") {
        str_eq(child, "processor")
    } else if str_eq(parent, "stream") {
        str_eq(child, "block") || str_eq(child, "chain") || str_eq(child, "mode")
    } else if str_eq(parent, "application") {
        str_eq(child, "stream")
    } else {
        false
    }
}

/// The command with its data replaced by the given objects.
fn answer_with(input: &K2LangStruct, data: Vec<K2LangObject>) -> (r: K2LangStruct)
    ensures
        r@ == answer(input@, objects_view(data@)),
{
    let mut output = input.duplicate();
    output.data = data;
    output
}

impl AbstractSyntaxTree {
    /// The table of objects.
    pub closed spec fn table(&self) -> Table {
        table_view(self.object_table)
    }

    /// The stage's name.
    pub closed spec fn label(&self) -> Seq<char> {
        self.name@
    }

    /// A syntax tree stage with an empty table.
    pub fn new(name: String) -> (r: Self)
        ensures
            r.label() == name@,
            r.table() == Table::empty(),
    {
        let r = AbstractSyntaxTree {
            name,
            header: ProcessorHeader {
                proc_name: "AST".to_owned(),
                description: "A processor that parses the commands and executes the corresponding actions".to_owned(),
                version: "0.1.0".to_owned(),
                author: "Sofia Silvestri".to_owned(),
                email: "ms.sofia.silvestri@gmail.com".to_owned(),
                license: "LGPLv2.0".to_owned(),
                repository: "".to_owned(),
            },
            object_table: NameMap::new(),
        };
        assert(table_view(r.object_table) =~= Table::empty());
        r
    }

    /// Puts an object into the table as it is.
    pub fn insert_object(&mut self, object: K2LangObject)
        ensures
            final(self).table() == old(self).table().insert(object@.name, object@),
    {
        let name = object.name.clone();
        table_insert(&mut self.object_table, name, object);
    }

    /// The name before the last dot.
    fn get_parent_name(child_name: String) -> (r: Result<String, K2Error>)
        ensures
            match rsplit_once_spec(child_name@, '.') {
                Some((p, _)) => r matches Ok(s) && s@ == p,
                None => r matches Err(e) && e.code == K2ErrorCode::BadFormat && e.message@ == "Bad format name"@,
            },
    {
        match rsplit_once(child_name.as_str(), '.') {
            Some((parent, _)) => Ok(parent),
            None => Err(K2Error::new(K2ErrorCode::BadFormat, "Bad format name")),
        }
    }

    /// Whether the parent named may hold the object: `NotFound` for a missing
    /// parent, `InvalidOperation` for a child it may not hold.
    fn check_parent_children(&self, parent_name: &String, object: &K2LangObject) -> (r: Result<
        (),
        K2Error,
    >)
        ensures
            !self.table().contains_key(parent_name@) ==> (r matches Err(e) && e.code
                == K2ErrorCode::NotFound && e.message@ == not_found(parent_name@).1),
            self.table().contains_key(parent_name@) && may_hold(
                self.table()[parent_name@].object_type,
                object@.object_type,
            ) ==> r is Ok,
            self.table().contains_key(parent_name@) && !may_hold(
                self.table()[parent_name@].object_type,
                object@.object_type,
            ) ==> (r matches Err(e) && e.code == K2ErrorCode::InvalidOperation && e.message@
                == parent_refusal(self.table()[parent_name@].object_type, object@.object_type).1),
    {
        match self.object_table.get(parent_name.as_str()) {
            None => Err(K2Error { code: K2ErrorCode::NotFound, message: concat3("Object ", parent_name.as_str(), " not found") }),
            Some(parent) => {
                if may_hold_exec(parent.object_type.as_str(), object.object_type.as_str()) {
                    Ok(())
                } else {
                    Err(K2Error { code: K2ErrorCode::InvalidOperation, message: parent_refusal_exec(parent.object_type.as_str(), object.object_type.as_str()) })
                }
            },
        }
    }

    /// Copies the members of the processor `block_type` into `block`.
    fn load_block(&mut self, block: &K2LangObject, block_type: &String) -> (r: Result<
        K2LangObject,
        K2Error,
    >)
        ensures
            !old(self).table().contains_key(block_type@) ==> (r matches Err(e) && e.code
                == K2ErrorCode::NotFound && e.message@ == "Type "@ + block_type@ + " not found"@
                && final(self).table() == old(self).table()),
            old(self).table().contains_key(block_type@) ==> ({
                let (t2, b) = load_members(
                    old(self).table(),
                    block@,
                    old(self).table()[block_type@].children,
                );
                &&& final(self).table() == t2
                &&& match b {
                    Ok(bv) => r matches Ok(o) && o@ == bv,
                    Err(c) => r matches Err(e) && e.code == K2ErrorCode::NotFound && e.message@
                        == not_found(c).1,
                }
            }),
    {
        let processor = match table_get(&self.object_table, block_type.as_str()) {
            Some(p) => p,
            None => {
                return Err(K2Error { code: K2ErrorCode::NotFound, message: concat3("Type ", block_type.as_str(), " not found") });
            },
        };
        let children = processor.children;
        let ghost all = children.deep_view();
        let mut blk = block.duplicate();
        let ghost start = blk@;
        let mut i: usize = 0;
        assert(all.skip(0) =~= all);
        while i < children.len()
            invariant
                i <= children.len(),
                all == children.deep_view(),
                all == old(self).table()[block_type@].children,
                old(self).table().contains_key(block_type@),
                load_members(table_view(self.object_table), blk@, all.skip(i as int))
                    == load_members(old(self).table(), start, all),
                blk@.name == start.name,
                start == block@,
            decreases children.len() - i,
        {
            let ghost rest = all.skip(i as int);
            assert(rest[0] == children@[i as int]@);
            assert(rest.drop_first() =~= all.skip(i + 1));
            let child_name = last_piece_exec(children[i].as_str());
            let new_name = join_dot(blk.name.as_str(), child_name.as_str());
            match table_get(&self.object_table, children[i].as_str()) {
                None => {
                    assert(load_members(table_view(self.object_table), blk@, rest) == (
                        table_view(self.object_table),
                        Err::<K2ObjectView, Seq<char>>(children@[i as int]@),
                    ));
                    return Err(K2Error { code: K2ErrorCode::NotFound, message: concat3("Object ", children[i].as_str(), " not found") });
                },
                Some(o) => {
                    push_name(&mut blk.children, new_name.clone());
                    table_insert(&mut self.object_table, new_name, o);
                },
            }
            i = i + 1;
        }
        assert(all.skip(i as int) =~= Seq::<Seq<char>>::empty());
        Ok(blk)
    }

    /// Adds the object that a `new` command carries under its parent.
    pub fn parse_new(&mut self, input: &K2LangStruct) -> (r: K2LangReturn)
        requires
            new_reaches_tokens(old(self).table(), input@) ==> input@.tokens.len()
                >= tokens_needed(input@.data[0].object_type),
        ensures
            final(self).table() == ast_new(old(self).table(), input@).0,
            answers(r, ast_new(old(self).table(), input@).1),
    {
        if input.data.len() != 1 {
            return fail(K2ErrorCode::InvalidOperation, "Can create an object at time".to_owned());
        }
        let ghost t0 = self.table();
        let mut object = input.data[0].duplicate();
        assert(object@ == input@.data[0]);
        let object_name = object.name.clone();
        if table_has(&self.object_table, object_name.as_str()) {
            return fail(K2ErrorCode::InvalidOperation, concat3("Object ", object_name.as_str(), " already exists"));
        }
        let parent_name = match Self::get_parent_name(object_name.clone()) {
            Ok(p) => p,
            Err(e) => {
                return Err(e);
            },
        };
        if !table_has(&self.object_table, parent_name.as_str()) {
            return fail(K2ErrorCode::InvalidOperation, concat3("Parent ", parent_name.as_str(), " does not exist"));
        }
        match self.check_parent_children(&parent_name, &object) {
            Ok(()) => {},
            Err(e) => {
                return Err(e);
            },
        }
        let ghost tk = input@.tokens;
        let ghost obj = input@.data[0];
        let ot = object.object_type.as_str();
        if str_eq(ot, "block") {
            assert(tk[3] == input.tokens@[3]@);
            let block_type = input.tokens[3].clone();
            if table_has(&self.object_table, block_type.as_str()) {
                let loaded = self.load_block(&object, &block_type);
                proof {
                    lemma_load_members_keeps(t0, obj, t0[tk[3]].children, parent_name@);
                }
                match loaded {
                    Ok(b) => {
                        object = b;
                        add_prop(&mut object, "type", &block_type);
                        assert(new_loaded(t0, obj, tk) == (self.table(), Ok::<K2ObjectView, (K2ErrorCode, Seq<char>)>(object@)));
                    },
                    Err(e) => {
                        return Err(e);
                    },
                }
            } else {
                return fail(K2ErrorCode::InvalidValue, String::from_str("Unknow processor ").concat(block_type.as_str()));
            }
        } else if str_eq(ot, "input") || str_eq(ot, "output") {
            assert(tk[3] == input.tokens@[3]@);
            add_prop(&mut object, "type", &input.tokens[3]);
            assert(object@ == fill_props(obj, tk));
        } else if str_eq(ot, "state") {
            assert(tk[3] == input.tokens@[3]@ && tk[4] == input.tokens@[4]@);
            add_prop(&mut object, "type", &input.tokens[3]);
            add_prop(&mut object, "value", &input.tokens[4]);
            assert(object@ == fill_props(obj, tk));
        } else if str_eq(ot, "parameter") {
            assert(tk[3] == input.tokens@[3]@ && tk[4] == input.tokens@[4]@ && tk[5]
                == input.tokens@[5]@);
            add_prop(&mut object, "type", &input.tokens[3]);
            add_prop(&mut object, "value", &input.tokens[4]);
            add_prop(&mut object, "kind", &input.tokens[5]);
            assert(object@ == fill_props(obj, tk));
        } else if str_eq(ot, "command") {
            assert(tk[3] == input.tokens@[3]@);
            add_prop(&mut object, "callback", &input.tokens[3]);
            assert(object@ == fill_props(obj, tk));
        } else if str_eq(ot, "library") || str_eq(ot, "application") {
            assert(tk[3] == input.tokens@[3]@);
            add_prop(&mut object, "path", &input.tokens[3]);
            assert(object@ == fill_props(obj, tk));
        } else {
            assert(object@ == fill_props(obj, tk));
        }
        assert(new_loaded(t0, obj, tk) == (self.table(), Ok::<K2ObjectView, (K2ErrorCode, Seq<char>)>(object@)));
        let mut parent_object = match table_get(&self.object_table, parent_name.as_str()) {
            Some(p) => p,
            None => {
                return missing(parent_name.as_str());
            },
        };
        push_name(&mut parent_object.children, object_name.clone());
        let mut output = input.duplicate();
        let data = vec![parent_object.duplicate(), object.duplicate()];
        assert(objects_view(data@) =~= seq![parent_object@, object@]);
        output.data = data;
        push_name(&mut object.parent, parent_name.clone());
        table_insert(&mut self.object_table, parent_name, parent_object);
        table_insert(&mut self.object_table, object_name, object);
        Ok(output)
    }

    /// Puts a block into a chain, or a chain into a mode.
    pub fn parse_add(&mut self, input: &K2LangStruct) -> (r: K2LangReturn)
        requires
            input@.tokens.len() >= 3,
        ensures
            final(self).table() == ast_add(old(self).table(), input@).0,
            answers(r, ast_add(old(self).table(), input@).1),
    {
        assert(input@.tokens[1] == input.tokens@[1]@ && input@.tokens[2] == input.tokens@[2]@);
        let children_name = input.tokens[1].clone();
        let parent_name = input.tokens[2].clone();
        let mut object_children = match table_get(&self.object_table, children_name.as_str()) {
            Some(o) => o,
            None => {
                return missing(children_name.as_str());
            },
        };
        let mut object_parent = match table_get(&self.object_table, parent_name.as_str()) {
            Some(o) => o,
            None => {
                return missing(parent_name.as_str());
            },
        };
        let ct = object_children.object_type.as_str();
        let pt = object_parent.object_type.as_str();
        if (str_eq(ct, "block") && str_eq(pt, "chain")) || (str_eq(ct, "chain") && str_eq(
            pt,
            "mode",
        )) {
            push_name(&mut object_parent.children, children_name.clone());
            push_name(&mut object_children.parent, parent_name.clone());
        } else {
            return fail(K2ErrorCode::InvalidOperation, concat3("Cannot add ", ct, " to ").concat(pt));
        }
        table_insert(&mut self.object_table, parent_name, object_parent.duplicate());
        table_insert(&mut self.object_table, children_name, object_children.duplicate());
        let data = vec![object_parent, object_children];
        assert(objects_view(data@) =~= seq![data@[0]@, data@[1]@]);
        Ok(answer_with(input, data))
    }

    /// Removes an object: its children forget it, and go when it was their
    /// last parent; its parents forget it.
    pub fn parse_delete(&mut self, input: &K2LangStruct) -> (r: K2LangReturn)
        requires
            input@.data.len() >= 1,
        ensures
            final(self).table() == ast_delete(old(self).table(), input@.data[0].name).0,
            match ast_delete(old(self).table(), input@.data[0].name).1 {
                Ok(_) => r matches Ok(s) && s@ == input@,
                Err((c, m)) => fails_as(r, c, m),
            },
    {
        let ghost t0 = self.table();
        assert(input@.data[0] == input.data@[0]@);
        let object_name = input.data[0].name.clone();
        let ghost name = object_name@;
        let object = match table_get(&self.object_table, object_name.as_str()) {
            Some(o) => o,
            None => {
                return missing(object_name.as_str());
            },
        };
        let children = object.children;
        let ghost all = children.deep_view();
        let mut i: usize = 0;
        assert(all.skip(0) =~= all);
        while i < children.len()
            invariant
                i <= children.len(),
                all == children.deep_view(),
                name == object_name@,
                unlink_children(table_view(self.object_table), all.skip(i as int), name)
                    == unlink_children(t0, all, name),
                t0 == old(self).table(),
                input@.data.len() >= 1,
                name == input@.data[0].name,
                t0.contains_key(name),
                all == t0[name].children,
            decreases children.len() - i,
        {
            let ghost rest = all.skip(i as int);
            assert(rest[0] == children@[i as int]@);
            assert(rest.drop_first() =~= all.skip(i + 1));
            match table_get(&self.object_table, children[i].as_str()) {
                None => {
                    assert(unlink_children(table_view(self.object_table), rest, name) == (
                        table_view(self.object_table),
                        Err::<(), Seq<char>>(children@[i as int]@),
                    ));
                    return missing(children[i].as_str());
                },
                Some(mut child) => {
                    remove_name(&mut child.parent, object_name.as_str());
                    if child.parent.len() == 0 {
                        proof {
                            assert(child@.parent.len() == 0);
                        }
                        table_remove(&mut self.object_table, children[i].as_str());
                    } else {
                        table_insert(&mut self.object_table, children[i].clone(), child);
                    }
                },
            }
            i = i + 1;
        }
        assert(all.skip(i as int) =~= Seq::<Seq<char>>::empty());
        let ghost t1 = self.table();
        let parents = object.parent;
        let ghost pall = parents.deep_view();
        let mut j: usize = 0;
        assert(pall.skip(0) =~= pall);
        while j < parents.len()
            invariant
                j <= parents.len(),
                pall == parents.deep_view(),
                name == object_name@,
                unlink_parents(table_view(self.object_table), pall.skip(j as int), name)
                    == unlink_parents(t1, pall, name),
                t0 == old(self).table(),
                input@.data.len() >= 1,
                name == input@.data[0].name,
                t0.contains_key(name),
                pall == t0[name].parent,
                unlink_children(t0, t0[name].children, name) == (t1, Ok::<(), Seq<char>>(())),
            decreases parents.len() - j,
        {
            let ghost rest = pall.skip(j as int);
            assert(rest[0] == parents@[j as int]@);
            assert(rest.drop_first() =~= pall.skip(j + 1));
            match table_get(&self.object_table, parents[j].as_str()) {
                None => {
                    assert(unlink_parents(table_view(self.object_table), rest, name) == (
                        table_view(self.object_table),
                        Err::<(), Seq<char>>(parents@[j as int]@),
                    ));
                    return missing(parents[j].as_str());
                },
                Some(mut parent) => {
                    remove_name(&mut parent.children, object_name.as_str());
                    table_insert(&mut self.object_table, parents[j].clone(), parent);
                },
            }
            j = j + 1;
        }
        assert(pall.skip(j as int) =~= Seq::<Seq<char>>::empty());
        table_remove(&mut self.object_table, object_name.as_str());
        Ok(input.duplicate())
    }

    /// Gives a parameter or a state a new value.
    pub fn parse_set(&mut self, input: &K2LangStruct) -> (r: K2LangReturn)
        requires
            input@.data.len() >= 1,
            old(self).table().contains_key(input@.data[0].name) ==> input@.tokens.len() >= 3,
        ensures
            final(self).table() == ast_set(old(self).table(), input@).0,
            answers(r, ast_set(old(self).table(), input@).1),
    {
        assert(input@.data[0] == input.data@[0]@);
        let object_name = input.data[0].name.clone();
        let mut object = match table_get(&self.object_table, object_name.as_str()) {
            Some(o) => o,
            None => {
                return missing(object_name.as_str());
            },
        };
        let ot = object.object_type.as_str();
        if !str_eq(ot, "parameter") && !str_eq(ot, "state") {
            return fail(K2ErrorCode::InvalidOperation, concat3("Type ", ot, " is not settable"));
        }
        assert(input@.tokens[2] == input.tokens@[2]@);
        add_prop(&mut object, "value", &input.tokens[2]);
        table_insert(&mut self.object_table, object_name, object.duplicate());
        let data = vec![object];
        assert(objects_view(data@) =~= seq![data@[0]@]);
        Ok(answer_with(input, data))
    }

    /// The work of `connect` and `disconnect`.
    fn link(&mut self, input: &K2LangStruct, link: bool) -> (r: K2LangReturn)
        requires
            input@.data.len() >= 2,
        ensures
            final(self).table() == ast_link(old(self).table(), input@, link).0,
            answers(r, ast_link(old(self).table(), input@, link).1),
    {
        assert(input@.data[0] == input.data@[0]@ && input@.data[1] == input.data@[1]@);
        let name_1 = input.data[0].name.clone();
        let name_2 = input.data[1].name.clone();
        let mut connector_1 = match table_get(&self.object_table, name_1.as_str()) {
            Some(o) => o,
            None => {
                return missing(name_1.as_str());
            },
        };
        let mut connector_2 = match table_get(&self.object_table, name_2.as_str()) {
            Some(o) => o,
            None => {
                return missing(name_2.as_str());
            },
        };
        let t1 = connector_1.object_type.as_str();
        let t2 = connector_2.object_type.as_str();
        if str_eq(t1, "output") && str_eq(t2, "input") {
            if link {
                add_prop(&mut connector_1, name_2.as_str(), &"connection".to_owned());
            } else {
                drop_prop(&mut connector_1, name_2.as_str());
            }
            table_insert(&mut self.object_table, name_1, connector_1.duplicate());
        } else if str_eq(t2, "output") && str_eq(t1, "input") {
            if link {
                add_prop(&mut connector_2, name_1.as_str(), &"connection".to_owned());
            } else {
                drop_prop(&mut connector_2, name_1.as_str());
            }
            table_insert(&mut self.object_table, name_2, connector_2.duplicate());
        } else {
            return fail(K2ErrorCode::InvalidOperation, concat3(name_1.as_str(), " and ", name_2.as_str()).concat(" shall be input and output"));
        }
        let data = vec![connector_1, connector_2];
        assert(objects_view(data@) =~= seq![data@[0]@, data@[1]@]);
        Ok(answer_with(input, data))
    }

    /// Records a connection from an output to an input.
    pub fn parse_connect(&mut self, input: &K2LangStruct) -> (r: K2LangReturn)
        requires
            input@.data.len() >= 2,
        ensures
            final(self).table() == ast_link(old(self).table(), input@, true).0,
            answers(r, ast_link(old(self).table(), input@, true).1),
    {
        self.link(input, true)
    }

    /// Forgets a connection from an output to an input.
    pub fn parse_disconnect(&mut self, input: &K2LangStruct) -> (r: K2LangReturn)
        requires
            input@.data.len() >= 2,
        ensures
            final(self).table() == ast_link(old(self).table(), input@, false).0,
            answers(r, ast_link(old(self).table(), input@, false).1),
    {
        self.link(input, false)
    }

    /// Checks that `exec` names a command object.
    pub fn parse_exec(&mut self, input: &K2LangStruct) -> (r: K2LangReturn)
        requires
            input@.tokens.len() >= 3,
        ensures
            final(self).table() == old(self).table(),
            answers(r, ast_exec(old(self).table(), input@)),
    {
        assert(input@.tokens[2] == input.tokens@[2]@);
        let object = match table_get(&self.object_table, input.tokens[2].as_str()) {
            Some(o) => o,
            None => {
                return missing(input.tokens[2].as_str());
            },
        };
        if !str_eq(object.object_type.as_str(), "command") {
            return fail(K2ErrorCode::InvalidOperation, concat3("Object ", input.tokens[2].as_str(), " is not a command"));
        }
        Ok(input.duplicate())
    }

    /// Records a piece of code in an object under a key.
    pub fn parse_code(&mut self, input: &K2LangStruct) -> (r: K2LangReturn)
        requires
            input@.tokens.len() >= 2,
            old(self).table().contains_key(input@.tokens[1]) ==> input@.tokens.len() >= 4,
        ensures
            final(self).table() == ast_code(old(self).table(), input@).0,
            answers(r, ast_code(old(self).table(), input@).1),
    {
        assert(input@.tokens[1] == input.tokens@[1]@);
        let name = input.tokens[1].clone();
        let mut object = match table_get(&self.object_table, name.as_str()) {
            Some(o) => o,
            None => {
                return missing(name.as_str());
            },
        };
        assert(input@.tokens[2] == input.tokens@[2]@ && input@.tokens[3] == input.tokens@[3]@);
        add_prop(&mut object, input.tokens[2].as_str(), &input.tokens[3]);
        table_insert(&mut self.object_table, name, object.duplicate());
        let data = vec![object];
        assert(objects_view(data@) =~= seq![data@[0]@]);
        Ok(answer_with(input, data))
    }

    /// Whether a command has the tokens and data that its keyword's handler
    /// reads, as `command_shape_ok` says.
    pub fn accepts(&self, input: &K2LangStruct) -> (r: bool)
        requires
            input@.tokens.len() > 0,
        ensures
            r == command_shape_ok(self.table(), input@),
    {
        proof {
            reveal_strlit("new");
            reveal_strlit("add");
            reveal_strlit("delete");
            reveal_strlit("set");
            reveal_strlit("connect");
            reveal_strlit("disconnect");
            reveal_strlit("exec");
            assert("new"@[0] != "add"@[0] && "new"@[0] != "set"@[0] && "new"@.len() != "delete"@.len());
            assert("new"@.len() != "connect"@.len() && "new"@.len() != "disconnect"@.len() && "new"@.len() != "exec"@.len());
        }
        assert(input@.tokens[0] == input.tokens@[0]@);
        let k = input.tokens[0].as_str();
        let nt = input.tokens.len();
        let nd = input.data.len();
        if str_eq(k, "new") {
            if nd != 1 {
                return true;
            }
            assert(input@.data[0] == input.data@[0]@);
            let object = &input.data[0];
            if table_has(&self.object_table, object.name.as_str()) {
                return true;
            }
            let parent = match rsplit_once(object.name.as_str(), '.') {
                Some((p, _)) => p,
                None => {
                    return true;
                },
            };
            let parent_type = match table_get(&self.object_table, parent.as_str()) {
                Some(o) => o.object_type,
                None => {
                    return true;
                },
            };
            if !may_hold_exec(parent_type.as_str(), object.object_type.as_str()) {
                return true;
            }
            nt >= tokens_needed_exec(object.object_type.as_str())
        } else if str_eq(k, "add") {
            nt >= 3
        } else if str_eq(k, "delete") {
            nd >= 1
        } else if str_eq(k, "set") {
            nd >= 1 && nt >= 3
        } else if str_eq(k, "connect") || str_eq(k, "disconnect") {
            nd >= 2
        } else if str_eq(k, "exec") {
            nt >= 3
        } else {
            true
        }
    }

    /// Runs the handler of a command's keyword; an error from an earlier
    /// stage passes through unchanged.
    pub fn parse_command(&mut self, input: K2LangReturn) -> (r: K2LangReturn)
        requires
            input matches Ok(s) ==> command_shape_ok(old(self).table(), s@),
        ensures
            input is Err ==> r == input && final(self).table() == old(self).table(),
            input matches Ok(s) ==> final(self).table() == ast_command(old(self).table(), s@).0
                && answers(r, ast_command(old(self).table(), s@).1),
    {
        let output = match input {
            Ok(s) => s,
            Err(e) => {
                return Err(e);
            },
        };
        if output.tokens.len() < 1 {
            return fail(K2ErrorCode::BadFormat, "Empty command".to_owned());
        }
        assert(output@.tokens[0] == output.tokens@[0]@);
        let key_word = output.tokens[0].as_str();
        if str_eq(key_word, "new") {
            self.parse_new(&output)
        } else if str_eq(key_word, "add") {
            self.parse_add(&output)
        } else if str_eq(key_word, "delete") {
            self.parse_delete(&output)
        } else if str_eq(key_word, "set") {
            self.parse_set(&output)
        } else if str_eq(key_word, "connect") {
            self.parse_connect(&output)
        } else if str_eq(key_word, "disconnect") {
            self.parse_disconnect(&output)
        } else if str_eq(key_word, "exec") {
            self.parse_exec(&output)
        } else {
            fail(K2ErrorCode::InvalidValue, concat3("Keyword ", key_word, " not valid"))
        }
    }
}

} // verus!
