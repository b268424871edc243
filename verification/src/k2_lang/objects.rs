//! The objects of the command language and the record that passes between its
//! stages.
use vstd::prelude::*;
use crate::name_map::NameMap;

verus! {

/// A list of tokens.
pub type Token = Vec<String>;

/// An object named in a command: its type, where it sits, and its properties.
pub struct K2Object {
    pub name: String,
    pub object_type: String,
    pub parent: Vec<String>,
    pub children: Vec<String>,
    pub properties: NameMap<String>,
}

/// The mathematical content of a `K2Object`.
pub struct K2ObjectView {
    pub name: Seq<char>,
    pub object_type: Seq<char>,
    pub parent: Seq<Seq<char>>,
    pub children: Seq<Seq<char>>,
    pub properties: Map<Seq<char>, Seq<char>>,
}

/// A string table as a map from names to texts.
pub open spec fn str_map(m: NameMap<String>) -> Map<Seq<char>, Seq<char>> {
    Map::new(|k: Seq<char>| m.has(k), |k: Seq<char>| m.lookup(k)@)
}

impl View for K2Object {
    type V = K2ObjectView;

    open spec fn view(&self) -> K2ObjectView {
        K2ObjectView {
            name: self.name@,
            object_type: self.object_type@,
            parent: self.parent.deep_view(),
            children: self.children.deep_view(),
            properties: str_map(self.properties),
        }
    }
}

/// The outcome of one stage on one command.
pub struct K2ReturnStruct {
    pub success: bool,
    pub command: String,
    pub tokens: Token,
    pub message: String,
    pub data: Vec<K2Object>,
}

/// The mathematical content of a `K2ReturnStruct`.
pub struct K2ReturnView {
    pub success: bool,
    pub command: Seq<char>,
    pub tokens: Seq<Seq<char>>,
    pub message: Seq<char>,
    pub data: Seq<K2ObjectView>,
}

/// The views of a list of objects.
pub open spec fn objects_view(v: Seq<K2Object>) -> Seq<K2ObjectView> {
    v.map_values(|o: K2Object| o@)
}

impl View for K2ReturnStruct {
    type V = K2ReturnView;

    open spec fn view(&self) -> K2ReturnView {
        K2ReturnView {
            success: self.success,
            command: self.command@,
            tokens: self.tokens.deep_view(),
            message: self.message@,
            data: objects_view(self.data@),
        }
    }
}

impl K2Object {
    /// An object with a name and a type, no relations and no properties.
    pub fn named(name: String, object_type: String) -> (r: Self)
        ensures
            r@.name == name@,
            r@.object_type == object_type@,
            r@.parent == Seq::<Seq<char>>::empty(),
            r@.children == Seq::<Seq<char>>::empty(),
            r@.properties == Map::<Seq<char>, Seq<char>>::empty(),
    {
        let r = K2Object {
            name,
            object_type,
            parent: Vec::new(),
            children: Vec::new(),
            properties: NameMap::new(),
        };
        assert(r.parent.deep_view() =~= Seq::<Seq<char>>::empty());
        assert(r.children.deep_view() =~= Seq::<Seq<char>>::empty());
        assert(str_map(r.properties) =~= Map::<Seq<char>, Seq<char>>::empty());
        r
    }

    /// A copy of the object.
    pub fn duplicate(&self) -> (r: Self)
        ensures
            r@ == self@,
    {
        let r = K2Object {
            name: self.name.clone(),
            object_type: self.object_type.clone(),
            parent: crate::text::clone_strings(&self.parent),
            children: crate::text::clone_strings(&self.children),
            properties: self.properties.duplicate(),
        };
        assert(str_map(r.properties) =~= str_map(self.properties));
        r
    }
}

/// A copy of a list of objects.
pub fn duplicate_objects(v: &Vec<K2Object>) -> (r: Vec<K2Object>)
    ensures
        objects_view(r@) == objects_view(v@),
{
    let mut r: Vec<K2Object> = Vec::new();
    let mut i: usize = 0;
    while i < v.len()
        invariant
            i <= v.len(),
            objects_view(r@) == objects_view(v@).take(i as int),
        decreases v.len() - i,
    {
        let o = v[i].duplicate();
        let ghost prev = objects_view(r@);
        r.push(o);
        assert(objects_view(r@) =~= prev.push(v@[i as int]@));
        assert(objects_view(r@) =~= objects_view(v@).take(i + 1));
        i = i + 1;
    }
    assert(objects_view(v@).take(i as int) =~= objects_view(v@));
    r
}

impl K2ReturnStruct {
    /// A successful, empty record.
    pub fn new() -> (r: Self)
        ensures
            r@.success,
            r@.command == Seq::<char>::empty(),
            r@.tokens == Seq::<Seq<char>>::empty(),
            r@.message == Seq::<char>::empty(),
            r@.data == Seq::<K2ObjectView>::empty(),
    {
        let r = K2ReturnStruct {
            success: true,
            command: String::new(),
            tokens: Vec::new(),
            message: String::new(),
            data: Vec::new(),
        };
        assert(r.tokens.deep_view() =~= Seq::<Seq<char>>::empty());
        assert(objects_view(r.data@) =~= Seq::<K2ObjectView>::empty());
        r
    }

    /// A copy of the record.
    pub fn duplicate(&self) -> (r: Self)
        ensures
            r@ == self@,
    {
        K2ReturnStruct {
            success: self.success,
            command: self.command.clone(),
            tokens: crate::text::clone_strings(&self.tokens),
            message: self.message.clone(),
            data: duplicate_objects(&self.data),
        }
    }
}

/// A table of objects as a map from names to object views.
pub open spec fn table_view(t: NameMap<K2Object>) -> Map<Seq<char>, K2ObjectView> {
    Map::new(|k: Seq<char>| t.has(k), |k: Seq<char>| t.lookup(k)@)
}

/// Puts an object into a table under a name.
pub fn table_insert(t: &mut NameMap<K2Object>, k: String, v: K2Object)
    ensures
        table_view(*final(t)) == table_view(*old(t)).insert(k@, v@),
{
    let ghost kv = k@;
    let ghost vv = v@;
    t.insert(k, v);
    assert(table_view(*t) =~= table_view(*old(t)).insert(kv, vv));
}

/// Takes a name out of a table.
pub fn table_remove(t: &mut NameMap<K2Object>, k: &str)
    ensures
        table_view(*final(t)) == table_view(*old(t)).remove(k@),
{
    t.remove(k);
    assert(table_view(*t) =~= table_view(*old(t)).remove(k@));
}

/// A copy of the object held under a name.
pub fn table_get(t: &NameMap<K2Object>, k: &str) -> (r: Option<K2Object>)
    ensures
        match r {
            Some(o) => table_view(*t).contains_key(k@) && o@ == table_view(*t)[k@],
            None => !table_view(*t).contains_key(k@),
        },
{
    match t.get(k) {
        Some(o) => Some(o.duplicate()),
        None => None,
    }
}

/// Whether a table holds a name.
pub fn table_has(t: &NameMap<K2Object>, k: &str) -> (r: bool)
    ensures
        r == table_view(*t).contains_key(k@),
{
    t.contains_key(k)
}

/// `s` without any occurrence of `x`, order kept.
pub open spec fn without(s: Seq<Seq<char>>, x: Seq<char>) -> Seq<Seq<char>>
    decreases s.len(),
{
    if s.len() == 0 {
        s
    } else if s.last() == x {
        without(s.drop_last(), x)
    } else {
        without(s.drop_last(), x).push(s.last())
    }
}

/// Drops every occurrence of `x` from a list of names.
pub fn remove_name(v: &mut Vec<String>, x: &str)
    ensures
        final(v).deep_view() == without(old(v).deep_view(), x@),
{
    let mut r: Vec<String> = Vec::new();
    let mut i: usize = 0;
    while i < v.len()
        invariant
            i <= v.len(),
            v.deep_view() == old(v).deep_view(),
            r.deep_view() == without(v.deep_view().take(i as int), x@),
        decreases v.len() - i,
    {
        let ghost pre = v.deep_view().take(i as int);
        assert(v.deep_view().take(i + 1).drop_last() =~= pre);
        assert(v.deep_view().take(i + 1).last() == v@[i as int]@);
        if !crate::text::str_eq(v[i].as_str(), x) {
            let s = v[i].clone();
            let ghost prev = r.deep_view();
            r.push(s);
            assert(r.deep_view() =~= prev.push(v@[i as int]@));
        }
        i = i + 1;
    }
    assert(v.deep_view().take(i as int) =~= v.deep_view());
    *v = r;
}

/// Appends a name to a list of names.
pub fn push_name(v: &mut Vec<String>, x: String)
    ensures
        final(v).deep_view() == old(v).deep_view().push(x@),
{
    v.push(x);
    assert(v.deep_view() =~= old(v).deep_view().push(x@));
}

/// A table of objects seen as a map from names to objects.
pub type Table = Map<Seq<char>, K2ObjectView>;

/// The object with one more property.
pub open spec fn with_prop(o: K2ObjectView, k: Seq<char>, v: Seq<char>) -> K2ObjectView {
    K2ObjectView { properties: o.properties.insert(k, v), ..o }
}

/// Sets one property of an object.
pub fn add_prop(o: &mut K2Object, k: &str, v: &String)
    ensures
        final(o)@ == with_prop(old(o)@, k@, v@),
{
    o.properties.insert(k.to_owned(), v.clone());
    assert(str_map(o.properties) =~= old(o)@.properties.insert(k@, v@));
}

/// Removes one property of an object.
pub fn drop_prop(o: &mut K2Object, k: &str)
    ensures
        final(o)@ == (K2ObjectView { properties: old(o)@.properties.remove(k@), ..old(o)@ }),
{
    o.properties.remove(k);
    assert(str_map(o.properties) =~= old(o)@.properties.remove(k@));
}

} // verus!
