use vstd::prelude::*;

use crate::field::{check_fields, fields_ok};
use crate::schema::{nodes, nodes_in, Item, Variant};

verus! {

/// Why a schema is refused before anything is generated from it.
#[derive(Clone, Copy, Debug, PartialEq, Eq, Structural)]
pub enum SchemaError {
    /// Two functions share a linkage symbol.
    DuplicateSymbol,
    /// Two variants of one enumeration share a discriminant.
    DuplicateEventId,
    /// A field has an unsupported width or lacks its companion field.
    MalformedField,
    /// An item has empty documentation.
    MissingDocumentation,
}

/// The documentation of an item.
pub open spec fn item_docs(it: Item) -> Seq<char> {
    match it {
        Item::Mod(m) => m.docs@,
        Item::Fn(f) => f.docs@,
        Item::Enum(e) => e.docs@,
    }
}

/// Every item of `ns` carries documentation.
pub open spec fn documented(ns: Seq<Item>) -> bool {
    forall|k: int| 0 <= k < ns.len() ==> #[trigger] item_docs(ns[k]).len() > 0
}

/// The fields of the item, if it is a function, are well formed.
pub open spec fn item_fields_ok(it: Item) -> bool {
    match it {
        Item::Fn(f) => fields_ok(f.params@) && fields_ok(f.results@),
        _ => true,
    }
}

/// Every field of every function in `ns` is well formed.
pub open spec fn well_formed(ns: Seq<Item>) -> bool {
    forall|k: int| 0 <= k < ns.len() ==> #[trigger] item_fields_ok(ns[k])
}

/// No two variants share a discriminant.
pub open spec fn values_distinct(vs: Seq<Variant>) -> bool {
    forall|i: int, j: int| 0 <= i < j < vs.len() ==> vs[i].value != vs[j].value
}

/// The variants of the item, if it is an enumeration, have distinct values.
pub open spec fn item_events_ok(it: Item) -> bool {
    match it {
        Item::Enum(e) => values_distinct(e.variants@),
        _ => true,
    }
}

/// Every enumeration in `ns` has distinct discriminants.
pub open spec fn events_distinct(ns: Seq<Item>) -> bool {
    forall|k: int| 0 <= k < ns.len() ==> #[trigger] item_events_ok(ns[k])
}

/// The linkage symbols of the functions in `ns`, in order.
pub open spec fn symbols(ns: Seq<Item>) -> Seq<String>
    decreases ns.len(),
{
    if ns.len() == 0 {
        seq![]
    } else {
        symbols(ns.subrange(0, ns.len() - 1)) + match ns[ns.len() - 1] {
            Item::Fn(f) => seq![f.symbol],
            _ => seq![],
        }
    }
}

/// No two strings of `s` have the same text.
pub open spec fn views_distinct(s: Seq<String>) -> bool {
    forall|i: int, j: int| 0 <= i < j < s.len() ==> s[i]@ != s[j]@
}

/// The error that validation reports for the tree under `root`, if any. Each
/// kind of defect is looked for over the whole tree, in this order.
pub open spec fn first_error(root: Item) -> Option<SchemaError> {
    let ns = nodes(root);
    if !views_distinct(symbols(ns)) {
        Some(SchemaError::DuplicateSymbol)
    } else if !events_distinct(ns) {
        Some(SchemaError::DuplicateEventId)
    } else if !well_formed(ns) {
        Some(SchemaError::MalformedField)
    } else if !documented(ns) {
        Some(SchemaError::MissingDocumentation)
    } else {
        None
    }
}

/// The schema under `root` passes validation.
pub open spec fn valid(root: Item) -> bool {
    first_error(root) is None
}

proof fn lemma_symbols_concat(a: Seq<Item>, b: Seq<Item>)
    ensures
        symbols(a + b) == symbols(a) + symbols(b),
    decreases b.len(),
{
    if b.len() == 0 {
        assert(a + b =~= a);
        assert(symbols(b) =~= seq![]);
        assert(symbols(a) + symbols(b) =~= symbols(a));
    } else {
        let b0 = b.subrange(0, b.len() - 1);
        lemma_symbols_concat(a, b0);
        assert((a + b).subrange(0, (a + b).len() - 1) =~= a + b0);
        assert((a + b)[(a + b).len() - 1] == b[b.len() - 1]);
        assert(symbols(a + b) =~= symbols(a) + symbols(b));
    }
}

/// Where the symbol of the function at `k` of `ns` stands in `symbols(ns)`.
proof fn lemma_symbol_index(ns: Seq<Item>, k: int)
    requires
        0 <= k < ns.len(),
        ns[k] is Fn,
    ensures
        symbols(ns.subrange(0, k)).len() < symbols(ns).len(),
        symbols(ns)[symbols(ns.subrange(0, k)).len() as int] == ns[k]->Fn_0.symbol,
        forall|l: int|
            k < l <= ns.len() ==> symbols(ns.subrange(0, k)).len() < #[trigger] symbols(
                ns.subrange(0, l),
            ).len(),
{
    let pre = ns.subrange(0, k);
    let one = seq![ns[k]];
    assert(one.subrange(0, 0) =~= Seq::<Item>::empty());
    assert(symbols(Seq::<Item>::empty()) =~= seq![]);
    assert(symbols(one) =~= seq![ns[k]->Fn_0.symbol]);
    assert forall|l: int| k < l <= ns.len() implies symbols(pre).len() < #[trigger] symbols(
        ns.subrange(0, l),
    ).len() by {
        let mid = ns.subrange(k + 1, l);
        assert(ns.subrange(0, l) =~= pre + one + mid);
        lemma_symbols_concat(pre, one);
        lemma_symbols_concat(pre + one, mid);
    }
    let rest = ns.subrange(k + 1, ns.len() as int);
    assert(ns =~= pre + one + rest);
    lemma_symbols_concat(pre, one);
    lemma_symbols_concat(pre + one, rest);
}

/// In a schema that passes validation, no two functions share a linkage
/// symbol.
pub proof fn lemma_valid_symbols_distinct(root: Item)
    requires
        valid(root),
    ensures
        forall|i: int, j: int|
            0 <= i < j < nodes(root).len() && nodes(root)[i] is Fn && nodes(root)[j] is Fn
                ==> (#[trigger] nodes(root)[i])->Fn_0.symbol@ != (#[trigger] nodes(root)[j])->Fn_0.symbol@,
{
    let ns = nodes(root);
    assert forall|i: int, j: int|
        0 <= i < j < ns.len() && ns[i] is Fn && ns[j] is Fn implies (#[trigger] ns[i])->Fn_0.symbol@
        != (#[trigger] ns[j])->Fn_0.symbol@ by {
        lemma_symbol_index(ns, i);
        lemma_symbol_index(ns, j);
        assert(symbols(ns.subrange(0, i)).len() < symbols(ns.subrange(0, j)).len());
    }
}

/// Two functions that share a linkage symbol anywhere in the tree make
/// validation fail with `DuplicateSymbol`, whatever else the tree holds.
pub proof fn lemma_shared_symbol_refused(root: Item, i: int, j: int)
    requires
        0 <= i < j < nodes(root).len(),
        nodes(root)[i] is Fn,
        nodes(root)[j] is Fn,
        nodes(root)[i]->Fn_0.symbol@ == nodes(root)[j]->Fn_0.symbol@,
    ensures
        first_error(root) == Some(SchemaError::DuplicateSymbol),
{
    let ns = nodes(root);
    lemma_symbol_index(ns, i);
    lemma_symbol_index(ns, j);
    let a = symbols(ns.subrange(0, i)).len() as int;
    let b = symbols(ns.subrange(0, j)).len() as int;
    assert(a < b);
    assert(symbols(ns)[a]@ == symbols(ns)[b]@);
}

/// What a walk over part of the tree has found so far.
struct Walk {
    symbols: Vec<String>,
    events_ok: bool,
    fields_ok: bool,
    docs_ok: bool,
}

/// `w` is what walking the nodes `ns` from `w0` gives.
spec fn walked(w: Walk, w0: Walk, ns: Seq<Item>) -> bool {
    &&& w.symbols@ == w0.symbols@ + symbols(ns)
    &&& w.events_ok == (w0.events_ok && events_distinct(ns))
    &&& w.fields_ok == (w0.fields_ok && well_formed(ns))
    &&& w.docs_ok == (w0.docs_ok && documented(ns))
}

proof fn lemma_walked_concat(w0: Walk, w1: Walk, w2: Walk, a: Seq<Item>, b: Seq<Item>)
    requires
        walked(w1, w0, a),
        walked(w2, w1, b),
    ensures
        walked(w2, w0, a + b),
{
    lemma_symbols_concat(a, b);
    assert(w2.symbols@ =~= w0.symbols@ + symbols(a + b));
    assert forall|k: int| 0 <= k < (a + b).len() implies (#[trigger] (a + b)[k] == if k < a.len() {
        a[k]
    } else {
        b[k - a.len()]
    }) by {}
    if events_distinct(a) && events_distinct(b) {
        assert forall|k: int| 0 <= k < (a + b).len() implies #[trigger] item_events_ok((a + b)[k]) by {
            if k >= a.len() {
                assert(item_events_ok(b[k - a.len()]));
            }
        }
    }
    if events_distinct(a + b) {
        assert forall|k: int| 0 <= k < b.len() implies #[trigger] item_events_ok(b[k]) by {
            assert(item_events_ok((a + b)[k + a.len()]));
        }
        assert forall|k: int| 0 <= k < a.len() implies #[trigger] item_events_ok(a[k]) by {
            assert(item_events_ok((a + b)[k]));
        }
    }
    if well_formed(a) && well_formed(b) {
        assert forall|k: int| 0 <= k < (a + b).len() implies #[trigger] item_fields_ok((a + b)[k]) by {
            if k >= a.len() {
                assert(item_fields_ok(b[k - a.len()]));
            }
        }
    }
    if well_formed(a + b) {
        assert forall|k: int| 0 <= k < b.len() implies #[trigger] item_fields_ok(b[k]) by {
            assert(item_fields_ok((a + b)[k + a.len()]));
        }
        assert forall|k: int| 0 <= k < a.len() implies #[trigger] item_fields_ok(a[k]) by {
            assert(item_fields_ok((a + b)[k]));
        }
    }
    if documented(a) && documented(b) {
        assert forall|k: int| 0 <= k < (a + b).len() implies #[trigger] item_docs((a + b)[k]).len() > 0 by {
            if k >= a.len() {
                assert(item_docs(b[k - a.len()]).len() > 0);
            }
        }
    }
    if documented(a + b) {
        assert forall|k: int| 0 <= k < b.len() implies #[trigger] item_docs(b[k]).len() > 0 by {
            assert(item_docs((a + b)[k + a.len()]).len() > 0);
        }
        assert forall|k: int| 0 <= k < a.len() implies #[trigger] item_docs(a[k]).len() > 0 by {
            assert(item_docs((a + b)[k]).len() > 0);
        }
    }
}

/// Whether the variants have pairwise distinct discriminants.
pub fn distinct_values(vs: &Vec<Variant>) -> (r: bool)
    ensures
        r == values_distinct(vs@),
{
    let n = vs.len();
    let mut j: usize = 0;
    while j < n
        invariant
            n == vs@.len(),
            j <= n,
            forall|a: int, b: int| 0 <= a < b < j ==> vs@[a].value != vs@[b].value,
        decreases n - j,
    {
        let mut i: usize = 0;
        while i < j
            invariant
                n == vs@.len(),
                i <= j < n,
                forall|a: int| 0 <= a < i ==> vs@[a].value != vs@[j as int].value,
            decreases j - i,
        {
            if vs[i].value == vs[j].value {
                return false;
            }
            i = i + 1;
        }
        j = j + 1;
    }
    true
}

/// Whether the strings have pairwise distinct text.
pub fn distinct_symbols(s: &Vec<String>) -> (r: bool)
    ensures
        r == views_distinct(s@),
{
    let n = s.len();
    let mut j: usize = 0;
    while j < n
        invariant
            n == s@.len(),
            j <= n,
            forall|a: int, b: int| 0 <= a < b < j ==> s@[a]@ != s@[b]@,
        decreases n - j,
    {
        let mut i: usize = 0;
        while i < j
            invariant
                n == s@.len(),
                i <= j < n,
                forall|a: int| 0 <= a < i ==> s@[a]@ != s@[j as int]@,
            decreases j - i,
        {
            if s[i].eq(&s[j]) {
                return false;
            }
            i = i + 1;
        }
        j = j + 1;
    }
    true
}

/// Records what one node shows by itself.
fn visit(it: &Item, w: &mut Walk)
    ensures
        walked(*final(w), *old(w), seq![*it]),
{
    let ghost one = seq![*it];
    assert(one.subrange(0, 0) =~= Seq::<Item>::empty());
    assert(symbols(Seq::<Item>::empty()) =~= seq![]);
    match it {
        Item::Mod(m) => {
            if m.docs.as_str().is_empty() {
                w.docs_ok = false;
            }
        },
        Item::Fn(f) => {
            w.symbols.push(f.symbol.clone());
            if !(check_fields(&f.params) && check_fields(&f.results)) {
                w.fields_ok = false;
            }
            if f.docs.as_str().is_empty() {
                w.docs_ok = false;
            }
        },
        Item::Enum(e) => {
            if !distinct_values(&e.variants) {
                w.events_ok = false;
            }
            if e.docs.as_str().is_empty() {
                w.docs_ok = false;
            }
        },
    }
    assert(w.symbols@ =~= old(w).symbols@ + symbols(one));
    assert(one[0] == *it);
    assert(events_distinct(one) == item_events_ok(*it));
    assert(well_formed(one) == item_fields_ok(*it));
    assert(documented(one) == (item_docs(*it).len() > 0));
}

/// Records what the whole tree under `it` shows.
fn walk(it: &Item, w: &mut Walk)
    ensures
        walked(*final(w), *old(w), nodes(*it)),
    decreases it,
{
    let ghost w0 = *w;
    visit(it, w);
    match it {
        Item::Mod(m) => {
            let n = m.items.len();
            let mut i: usize = 0;
            while i < n
                invariant
                    *it == Item::Mod(*m),
                    n == m.items@.len(),
                    i <= n,
                    walked(*w, w0, seq![*it] + nodes_in(m.items@.subrange(0, i as int))),
                decreases n - i,
            {
                let ghost w1 = *w;
                let ghost pre = seq![*it] + nodes_in(m.items@.subrange(0, i as int));
                proof {
                    assert(decreases_to!(*it => (*it)->Mod_0));
                    assert(decreases_to!(m.items => m.items[i as int]));
                }
                walk(&m.items[i], w);
                proof {
                    lemma_walked_concat(w0, w1, *w, pre, nodes(m.items@[i as int]));
                    let s1 = m.items@.subrange(0, i + 1);
                    assert(s1.subrange(0, s1.len() - 1) =~= m.items@.subrange(0, i as int));
                    assert(pre + nodes(m.items@[i as int]) =~= seq![*it] + nodes_in(s1));
                }
                i = i + 1;
            }
            assert(m.items@.subrange(0, n as int) =~= m.items@);
        },
        _ => {},
    }
}

/// Checks the whole schema under `root` in one pass: `Ok` exactly when it has
/// no defect, else the first kind of defect in the order of `first_error`.
pub fn validate(root: &Item) -> (r: Result<(), SchemaError>)
    ensures
        r == match first_error(*root) {
            None => Ok(()),
            Some(e) => Err(e),
        },
{
    let mut w = Walk { symbols: Vec::new(), events_ok: true, fields_ok: true, docs_ok: true };
    let ghost w0 = w;
    walk(root, &mut w);
    assert(w.symbols@ =~= symbols(nodes(*root)));
    if !distinct_symbols(&w.symbols) {
        Err(SchemaError::DuplicateSymbol)
    } else if !w.events_ok {
        Err(SchemaError::DuplicateEventId)
    } else if !w.fields_ok {
        Err(SchemaError::MalformedField)
    } else if !w.docs_ok {
        Err(SchemaError::MissingDocumentation)
    } else {
        Ok(())
    }
}

/// A schema that passed validation: what generators take. It cannot be
/// changed once built.
pub struct Schema {
    root: Item,
}

impl Schema {
    #[verifier::type_invariant]
    spec fn inv(self) -> bool {
        valid(self.root)
    }

    /// The root of the tree.
    pub closed spec fn spec_root(&self) -> Item {
        self.root
    }

    /// Validates the tree under `root`; only a tree without defect becomes a
    /// `Schema`.
    pub fn new(root: Item) -> (r: Result<Schema, SchemaError>)
        ensures
            r is Ok <==> valid(root),
            r matches Ok(s) ==> s.spec_root() == root,
            r matches Err(e) ==> first_error(root) == Some(e),
    {
        match validate(&root) {
            Ok(()) => Ok(Schema { root }),
            Err(e) => Err(e),
        }
    }

    /// The root of the tree, which passes validation.
    pub fn root(&self) -> (r: &Item)
        ensures
            *r == self.spec_root(),
            valid(*r),
    {
        proof {
            use_type_invariant(self);
        }
        &self.root
    }
}

} // verus!
