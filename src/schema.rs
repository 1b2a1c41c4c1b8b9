use vstd::prelude::*;

use crate::field::{check_fields, fields_ok, Field, FieldType};
use crate::validate::SchemaError;

verus! {

/// A host function callable from the guest.
#[derive(Clone, Debug)]
pub struct Function {
    pub name: String,
    pub symbol: String,
    pub docs: String,
    pub params: Vec<Field>,
    pub results: Vec<Field>,
}

/// One value of an enumeration, with its wire discriminant.
#[derive(Clone, Debug)]
pub struct Variant {
    pub name: String,
    pub value: usize,
    pub docs: String,
}

/// A set of named integer constants.
#[derive(Clone, Debug)]
pub struct Enumeration {
    pub name: String,
    pub docs: String,
    pub variants: Vec<Variant>,
}

/// A group of items.
#[derive(Debug)]
pub struct Mod {
    pub name: String,
    pub docs: String,
    pub items: Vec<Item>,
}

/// A node of the schema tree.
#[derive(Debug)]
pub enum Item {
    Mod(Mod),
    Fn(Function),
    Enum(Enumeration),
}

/// The fields have these names, documentation and types, in this order.
pub open spec fn fields_are(fs: Seq<Field>, want: Seq<(Seq<char>, Seq<char>, FieldType)>) -> bool {
    &&& fs.len() == want.len()
    &&& forall|i: int|
        0 <= i < fs.len() ==> {
            &&& (#[trigger] fs[i]).name@ == want[i].0
            &&& fs[i].docs@ == want[i].1
            &&& fs[i].ty == want[i].2
        }
}

/// The item is a function with this name, symbol, documentation and fields.
pub open spec fn function_is(
    it: Item,
    name: Seq<char>,
    symbol: Seq<char>,
    docs: Seq<char>,
    params: Seq<(Seq<char>, Seq<char>, FieldType)>,
    results: Seq<(Seq<char>, Seq<char>, FieldType)>,
) -> bool {
    &&& it is Fn
    &&& it->Fn_0.name@ == name
    &&& it->Fn_0.symbol@ == symbol
    &&& it->Fn_0.docs@ == docs
    &&& fields_are(it->Fn_0.params@, params)
    &&& fields_are(it->Fn_0.results@, results)
}

/// The item is an enumeration with this name, documentation and variants,
/// each given as its name, discriminant and documentation.
pub open spec fn enumeration_is(
    it: Item,
    name: Seq<char>,
    docs: Seq<char>,
    variants: Seq<(Seq<char>, usize, Seq<char>)>,
) -> bool {
    &&& it is Enum
    &&& it->Enum_0.name@ == name
    &&& it->Enum_0.docs@ == docs
    &&& it->Enum_0.variants@.len() == variants.len()
    &&& forall|i: int|
        0 <= i < variants.len() ==> {
            &&& (#[trigger] it->Enum_0.variants@[i]).name@ == variants[i].0
            &&& it->Enum_0.variants@[i].value == variants[i].1
            &&& it->Enum_0.variants@[i].docs@ == variants[i].2
        }
}

impl Field {
    /// A field with this name, documentation and type.
    pub fn new(name: String, docs: String, ty: FieldType) -> (r: Field)
        ensures
            r.name == name,
            r.docs == docs,
            r.ty == ty,
    {
        Field { name, docs, ty }
    }
}

impl Function {
    /// A function, refused with `MalformedField` when a parameter or a result
    /// is not well formed.
    pub fn new(name: String, symbol: String, docs: String, params: Vec<Field>, results: Vec<Field>) -> (r:
        Result<Function, SchemaError>)
        ensures
            r is Ok <==> fields_ok(params@) && fields_ok(results@),
            r is Err ==> r == Err::<Function, SchemaError>(SchemaError::MalformedField),
            r matches Ok(f) ==> f.name == name && f.symbol == symbol && f.docs == docs && f.params
                == params && f.results == results,
    {
        if !(check_fields(&params) && check_fields(&results)) {
            return Err(SchemaError::MalformedField);
        }
        Ok(Function { name, symbol, docs, params, results })
    }
}

impl Variant {
    /// A variant with this name, discriminant and documentation.
    pub fn new(name: String, value: usize, docs: String) -> (r: Variant)
        ensures
            r.name == name,
            r.value == value,
            r.docs == docs,
    {
        Variant { name, value, docs }
    }
}

impl Enumeration {
    /// An enumeration with these variants, in order.
    pub fn new(name: String, docs: String, variants: Vec<Variant>) -> (r: Enumeration)
        ensures
            r.name == name,
            r.docs == docs,
            r.variants == variants,
    {
        Enumeration { name, docs, variants }
    }
}

impl Mod {
    /// A module that owns these items, in order.
    pub fn new(name: String, docs: String, items: Vec<Item>) -> (r: Mod)
        ensures
            r.name == name,
            r.docs == docs,
            r.items == items,
    {
        Mod { name, docs, items }
    }
}

/// Every node of the tree under `it`, in preorder.
pub open spec fn nodes(it: Item) -> Seq<Item>
    decreases it,
{
    match it {
        Item::Mod(m) => seq![it] + nodes_in(m.items@),
        _ => seq![it],
    }
}

/// Every node of the trees in `s`, in order.
pub open spec fn nodes_in(s: Seq<Item>) -> Seq<Item>
    decreases s,
{
    if s.len() == 0 {
        seq![]
    } else {
        nodes_in(s.subrange(0, s.len() - 1)) + nodes(s[s.len() - 1])
    }
}

/// A sequence of items that holds no module is its own list of nodes.
pub(crate) proof fn lemma_flat_nodes(s: Seq<Item>)
    requires
        forall|i: int| 0 <= i < s.len() ==> !(#[trigger] s[i] is Mod),
    ensures
        nodes_in(s) == s,
    decreases s.len(),
{
    if s.len() > 0 {
        let pre = s.subrange(0, s.len() - 1);
        assert forall|i: int| 0 <= i < pre.len() implies !(#[trigger] pre[i] is Mod) by {
            assert(pre[i] == s[i]);
        }
        lemma_flat_nodes(pre);
        let last = s[s.len() - 1];
        assert(!(last is Mod));
        assert(nodes(last) == seq![last]);
        assert(pre + seq![last] =~= s);
    }
}

} // verus!
