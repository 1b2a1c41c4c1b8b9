use vstd::prelude::*;

use crate::field::{Field, FieldType};
use crate::schema::{lemma_flat_nodes, nodes, enumeration_is, function_is, Enumeration, Function, Item, Mod, Variant};
use crate::validate::{
    documented, events_distinct, item_docs, item_events_ok, item_fields_ok, symbols, valid,
    views_distinct, well_formed,
};

verus! {

fn field(name: &str, docs: &str, ty: FieldType) -> (r: Field)
    ensures
        r.name@ == name@,
        r.docs@ == docs@,
        r.ty == ty,
{
    Field { name: name.to_string(), docs: docs.to_string(), ty }
}

fn function(name: &str, symbol: &str, docs: &str, params: Vec<Field>, results: Vec<Field>) -> (r: Item)
    ensures
        r is Fn,
        r->Fn_0.name@ == name@,
        r->Fn_0.symbol@ == symbol@,
        r->Fn_0.docs@ == docs@,
        r->Fn_0.params == params,
        r->Fn_0.results == results,
{
    Item::Fn(
        Function {
            name: name.to_string(),
            symbol: symbol.to_string(),
            docs: docs.to_string(),
            params,
            results,
        },
    )
}

fn variant(name: &str, value: usize, docs: &str) -> (r: Variant)
    ensures
        r.name@ == name@,
        r.value == value,
        r.docs@ == docs@,
{
    Variant { name: name.to_string(), value, docs: docs.to_string() }
}

/// The schema of the USB serial module: reading and writing a buffer,
/// flushing, and registering a callback for the events of `Event`.
pub fn new() -> (r: Item)
    ensures
        r is Mod,
        r->Mod_0.name@ == "serial"@,
        r->Mod_0.docs@ == "USB serial."@,
        r->Mod_0.items@.len() == 6,
        function_is(
            r->Mod_0.items@[0],
            "read"@,
            "usr"@,
            "Reads from USB serial into a buffer."@,
            seq![
                ("ptr"@, "Address of the buffer."@, FieldType::Pointer { mutable: true }),
                ("len"@, "Length of the buffer in bytes."@, FieldType::Word { signed: false }),
            ],
            seq![
                (
                    "len"@,
                    "Number of bytes read (or negative value for errors).\n\nThis function does not block and may return zero."@,
                    FieldType::Word { signed: true },
                ),
            ],
        ),
        function_is(
            r->Mod_0.items@[1],
            "write"@,
            "usw"@,
            "Writes to USB serial from a buffer."@,
            seq![
                ("ptr"@, "Address of the buffer."@, FieldType::Pointer { mutable: false }),
                ("len"@, "Length of the buffer in bytes."@, FieldType::Word { signed: false }),
            ],
            seq![
                (
                    "len"@,
                    "Number of bytes written (or negative value for errors).\n\nThis function does not block and may return zero."@,
                    FieldType::Word { signed: true },
                ),
            ],
        ),
        enumeration_is(
            r->Mod_0.items@[2],
            "Event"@,
            "USB serial events."@,
            seq![("Read"@, 0usize, "Ready for read."@), ("Write"@, 1usize, "Ready for write."@)],
        ),
        function_is(
            r->Mod_0.items@[3],
            "register"@,
            "use"@,
            "Registers a callback when USB serial is ready.\n\nIt is possible that the callback is spuriously called."@,
            seq![
                ("event"@, ""@, FieldType::Word { signed: false }),
                ("handler_func"@, ""@, FieldType::Handler),
                ("handler_data"@, ""@, FieldType::Context),
            ],
            seq![],
        ),
        function_is(
            r->Mod_0.items@[4],
            "unregister"@,
            "usd"@,
            "Unregisters a callback."@,
            seq![("event"@, ""@, FieldType::Word { signed: false })],
            seq![],
        ),
        function_is(
            r->Mod_0.items@[5],
            "flush"@,
            "usf"@,
            "Flushs the USB serial."@,
            seq![],
            seq![("res"@, "Zero on success, -1 on error."@, FieldType::Word { signed: true })],
        ),
        valid(r),
{
    let read = function(
        "read",
        "usr",
        "Reads from USB serial into a buffer.",
        vec![
            field("ptr", "Address of the buffer.", FieldType::Pointer { mutable: true }),
            field("len", "Length of the buffer in bytes.", FieldType::Word { signed: false }),
        ],
        vec![
            field(
                "len",
                "Number of bytes read (or negative value for errors).\n\nThis function does not block and may return zero.",
                FieldType::Word { signed: true },
            ),
        ],
    );
    let write = function(
        "write",
        "usw",
        "Writes to USB serial from a buffer.",
        vec![
            field("ptr", "Address of the buffer.", FieldType::Pointer { mutable: false }),
            field("len", "Length of the buffer in bytes.", FieldType::Word { signed: false }),
        ],
        vec![
            field(
                "len",
                "Number of bytes written (or negative value for errors).\n\nThis function does not block and may return zero.",
                FieldType::Word { signed: true },
            ),
        ],
    );
    let event = Item::Enum(
        Enumeration {
            name: "Event".to_string(),
            docs: "USB serial events.".to_string(),
            variants: vec![variant("Read", 0, "Ready for read."), variant("Write", 1, "Ready for write.")],
        },
    );
    let register = function(
        "register",
        "use",
        "Registers a callback when USB serial is ready.\n\nIt is possible that the callback is spuriously called.",
        vec![
            field("event", "", FieldType::Word { signed: false }),
            field("handler_func", "", FieldType::Handler),
            field("handler_data", "", FieldType::Context),
        ],
        vec![],
    );
    let unregister = function(
        "unregister",
        "usd",
        "Unregisters a callback.",
        vec![field("event", "", FieldType::Word { signed: false })],
        vec![],
    );
    let flush = function(
        "flush",
        "usf",
        "Flushs the USB serial.",
        vec![],
        vec![field("res", "Zero on success, -1 on error.", FieldType::Word { signed: true })],
    );
    let items = vec![read, write, event, register, unregister, flush];
    let r = Item::Mod(Mod { name: "serial".to_string(), docs: "USB serial.".to_string(), items });
    proof {
        let s = items@;
        assert(forall|i: int| 0 <= i < s.len() ==> !(#[trigger] s[i] is Mod));
        lemma_flat_nodes(s);
        let ns = nodes(r);
        assert(ns =~= seq![r] + s);
        reveal_with_fuel(symbols, 8);
        reveal_strlit("usr");
        reveal_strlit("usw");
        reveal_strlit("use");
        reveal_strlit("usd");
        reveal_strlit("usf");
        assert(symbols(ns) =~= seq![
            s[0]->Fn_0.symbol,
            s[1]->Fn_0.symbol,
            s[3]->Fn_0.symbol,
            s[4]->Fn_0.symbol,
            s[5]->Fn_0.symbol,
        ]);
        let syms = symbols(ns);
        assert(syms[0]@[2] == 'r' && syms[1]@[2] == 'w' && syms[2]@[2] == 'e' && syms[3]@[2] == 'd'
            && syms[4]@[2] == 'f');
        assert(views_distinct(syms));
        assert(item_events_ok(s[2]));
        assert(events_distinct(ns));
        assert(item_fields_ok(s[0]));
        assert(item_fields_ok(s[1]));
        assert(item_fields_ok(s[3]));
        assert(item_fields_ok(s[4]));
        assert(item_fields_ok(s[5]));
        assert(well_formed(ns));
        reveal_strlit("USB serial.");
        reveal_strlit("Reads from USB serial into a buffer.");
        reveal_strlit("Writes to USB serial from a buffer.");
        reveal_strlit("USB serial events.");
        reveal_strlit(
            "Registers a callback when USB serial is ready.\n\nIt is possible that the callback is spuriously called.",
        );
        reveal_strlit("Unregisters a callback.");
        reveal_strlit("Flushs the USB serial.");
        assert(documented(ns));
    }
    r
}

} // verus!
