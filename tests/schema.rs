use api_desc::serial;
use api_desc::{
    check_fields, distinct_symbols, distinct_values, supported_width, validate, Enumeration, Field, FieldType, Function, Item, Mod,
    Schema, SchemaError, Variant,
};

fn field(name: &str, ty: FieldType) -> Field {
    Field::new(name.to_string(), String::new(), ty)
}

fn function(name: &str, symbol: &str, docs: &str, params: Vec<Field>, results: Vec<Field>) -> Item {
    Item::Fn(Function {
        name: name.to_string(),
        symbol: symbol.to_string(),
        docs: docs.to_string(),
        params,
        results,
    })
}

fn module(name: &str, items: Vec<Item>) -> Item {
    Item::Mod(Mod::new(name.to_string(), format!("The {name} module."), items))
}

fn flush(symbol: &str) -> Item {
    function("flush", symbol, "Flushes.", vec![], vec![field("res", FieldType::Word { signed: true })])
}

fn events(values: &[usize]) -> Item {
    let variants = values
        .iter()
        .map(|&v| Variant::new(format!("E{v}"), v, "An event.".to_string()))
        .collect();
    Item::Enum(Enumeration::new("Event".to_string(), "Events.".to_string(), variants))
}

fn parts(it: &Item) -> &Mod {
    match it {
        Item::Mod(m) => m,
        _ => panic!("not a module"),
    }
}

fn func(it: &Item) -> &Function {
    match it {
        Item::Fn(f) => f,
        _ => panic!("not a function"),
    }
}

fn shape(fields: &[Field]) -> Vec<(&str, &str, FieldType)> {
    fields.iter().map(|f| (f.name.as_str(), f.docs.as_str(), f.ty)).collect()
}

#[test]
fn serial_schema_is_valid() {
    assert_eq!(validate(&serial::new()), Ok(()));
}

#[test]
fn serial_symbols_are_distinct() {
    let schema = serial::new();
    let symbols: Vec<&str> = parts(&schema)
        .items
        .iter()
        .filter_map(|it| match it {
            Item::Fn(f) => Some(f.symbol.as_str()),
            _ => None,
        })
        .collect();
    assert_eq!(symbols, vec!["usr", "usw", "use", "usd", "usf"]);
    for i in 0..symbols.len() {
        for j in i + 1..symbols.len() {
            assert_ne!(symbols[i], symbols[j]);
        }
    }
}

#[test]
fn serial_schema_text() {
    let schema = serial::new();
    let m = parts(&schema);
    assert_eq!(m.name, "serial");
    assert_eq!(m.items.len(), 6);

    let read = func(&m.items[0]);
    assert_eq!((read.name.as_str(), read.symbol.as_str()), ("read", "usr"));
    assert_eq!(read.docs, "Reads from USB serial into a buffer.");
    assert_eq!(
        shape(&read.params),
        vec![
            ("ptr", "Address of the buffer.", FieldType::Pointer { mutable: true }),
            ("len", "Length of the buffer in bytes.", FieldType::Word { signed: false }),
        ]
    );
    assert_eq!(
        shape(&read.results),
        vec![(
            "len",
            "Number of bytes read (or negative value for errors).\n\nThis function does not block and may return zero.",
            FieldType::Word { signed: true },
        )]
    );

    let write = func(&m.items[1]);
    assert_eq!((write.name.as_str(), write.symbol.as_str()), ("write", "usw"));
    assert_eq!(write.docs, "Writes to USB serial from a buffer.");
    assert_eq!(
        shape(&write.params),
        vec![
            ("ptr", "Address of the buffer.", FieldType::Pointer { mutable: false }),
            ("len", "Length of the buffer in bytes.", FieldType::Word { signed: false }),
        ]
    );
    assert_eq!(
        shape(&write.results),
        vec![(
            "len",
            "Number of bytes written (or negative value for errors).\n\nThis function does not block and may return zero.",
            FieldType::Word { signed: true },
        )]
    );

    match &m.items[2] {
        Item::Enum(e) => {
            assert_eq!(e.name, "Event");
            assert_eq!(e.docs, "USB serial events.");
            let variants: Vec<(&str, usize, &str)> =
                e.variants.iter().map(|v| (v.name.as_str(), v.value, v.docs.as_str())).collect();
            assert_eq!(variants, vec![("Read", 0, "Ready for read."), ("Write", 1, "Ready for write.")]);
        }
        _ => panic!("not an enumeration"),
    }

    let register = func(&m.items[3]);
    assert_eq!((register.name.as_str(), register.symbol.as_str()), ("register", "use"));
    assert_eq!(
        register.docs,
        "Registers a callback when USB serial is ready.\n\nIt is possible that the callback is spuriously called."
    );
    assert_eq!(
        shape(&register.params),
        vec![
            ("event", "", FieldType::Word { signed: false }),
            ("handler_func", "", FieldType::Handler),
            ("handler_data", "", FieldType::Context),
        ]
    );
    assert!(register.results.is_empty());

    let unregister = func(&m.items[4]);
    assert_eq!((unregister.name.as_str(), unregister.symbol.as_str()), ("unregister", "usd"));
    assert_eq!(unregister.docs, "Unregisters a callback.");
    assert_eq!(shape(&unregister.params), vec![("event", "", FieldType::Word { signed: false })]);
    assert!(unregister.results.is_empty());

    let flush = func(&m.items[5]);
    assert_eq!((flush.name.as_str(), flush.symbol.as_str()), ("flush", "usf"));
    assert_eq!(flush.docs, "Flushs the USB serial.");
    assert!(flush.params.is_empty());
    assert_eq!(
        shape(&flush.results),
        vec![("res", "Zero on success, -1 on error.", FieldType::Word { signed: true })]
    );
}

#[test]
fn shared_symbol_is_refused() {
    let read = function(
        "read",
        "usr",
        "Reads.",
        vec![field("ptr", FieldType::Pointer { mutable: true }), field("len", FieldType::Word { signed: false })],
        vec![field("len", FieldType::Word { signed: true })],
    );
    let schema = module("serial", vec![read, flush("usr")]);
    assert_eq!(validate(&schema), Err(SchemaError::DuplicateSymbol));
}

#[test]
fn shared_symbol_across_modules_is_refused() {
    let a = module("a", vec![flush("usf")]);
    let b = module("b", vec![module("c", vec![flush("usf")])]);
    let schema = module("root", vec![a, b]);
    assert_eq!(validate(&schema), Err(SchemaError::DuplicateSymbol));
}

#[test]
fn distinct_symbols_across_modules_pass() {
    let a = module("a", vec![flush("af")]);
    let b = module("b", vec![module("c", vec![flush("cf")]), events(&[0, 1, 2])]);
    assert_eq!(validate(&module("root", vec![a, b])), Ok(()));
}

#[test]
fn shared_symbol_wins_over_other_defects() {
    let undocumented = function("flush", "usf", "", vec![], vec![]);
    let schema = module("m", vec![undocumented, flush("usf"), events(&[3, 3])]);
    assert_eq!(validate(&schema), Err(SchemaError::DuplicateSymbol));
}

#[test]
fn shared_discriminant_is_refused() {
    let schema = module("m", vec![flush("usf"), events(&[0, 1, 0])]);
    assert_eq!(validate(&schema), Err(SchemaError::DuplicateEventId));
}

#[test]
fn unsupported_width_is_refused() {
    let f = function("f", "usf", "Does.", vec![field("x", FieldType::Int { signed: false, bits: 12 })], vec![]);
    assert_eq!(validate(&module("m", vec![f])), Err(SchemaError::MalformedField));
}

#[test]
fn pointer_without_length_is_refused() {
    let f = function("f", "usf", "Does.", vec![field("ptr", FieldType::Pointer { mutable: false })], vec![]);
    assert_eq!(validate(&module("m", vec![f])), Err(SchemaError::MalformedField));
    let g = function(
        "g",
        "usg",
        "Does.",
        vec![field("ptr", FieldType::Pointer { mutable: false }), field("len", FieldType::Word { signed: true })],
        vec![],
    );
    assert_eq!(validate(&module("m", vec![g])), Err(SchemaError::MalformedField));
}

#[test]
fn missing_documentation_is_refused() {
    let f = function("f", "usf", "", vec![], vec![]);
    assert_eq!(validate(&module("m", vec![f])), Err(SchemaError::MissingDocumentation));
    let bare = Item::Mod(Mod::new("m".to_string(), String::new(), vec![flush("usf")]));
    assert_eq!(validate(&bare), Err(SchemaError::MissingDocumentation));
    let e = Item::Enum(Enumeration::new("Event".to_string(), String::new(), vec![]));
    assert_eq!(validate(&module("m", vec![e])), Err(SchemaError::MissingDocumentation));
}

#[test]
fn empty_module_is_valid() {
    assert_eq!(validate(&module("m", vec![])), Ok(()));
}

#[test]
fn widths() {
    for bits in [8, 16, 32, 64] {
        assert!(supported_width(bits));
    }
    for bits in [0, 1, 7, 12, 24, 128] {
        assert!(!supported_width(bits));
    }
}

#[test]
fn field_companions() {
    let buffer = vec![field("ptr", FieldType::Pointer { mutable: true }), field("len", FieldType::Word { signed: false })];
    assert!(check_fields(&buffer));
    let callback = vec![field("f", FieldType::Handler), field("d", FieldType::Context)];
    assert!(check_fields(&callback));
    assert!(check_fields(&vec![]));
    assert!(!check_fields(&vec![field("f", FieldType::Handler)]));
    assert!(!check_fields(&vec![field("d", FieldType::Context)]));
    assert!(!check_fields(&vec![field("d", FieldType::Context), field("f", FieldType::Handler)]));
    assert!(!check_fields(&vec![field("len", FieldType::Word { signed: false }), field("ptr", FieldType::Pointer { mutable: true })]));
    assert!(check_fields(&vec![field("x", FieldType::Int { signed: true, bits: 32 })]));
}

#[test]
fn function_constructor_checks_fields() {
    let ok = Function::new(
        "read".to_string(),
        "usr".to_string(),
        "Reads.".to_string(),
        vec![field("ptr", FieldType::Pointer { mutable: true }), field("len", FieldType::Word { signed: false })],
        vec![field("len", FieldType::Word { signed: true })],
    );
    let f = ok.expect("well formed");
    assert_eq!(f.symbol, "usr");
    assert_eq!(f.params.len(), 2);
    let bad = Function::new(
        "read".to_string(),
        "usr".to_string(),
        "Reads.".to_string(),
        vec![field("ptr", FieldType::Pointer { mutable: true })],
        vec![],
    );
    assert_eq!(bad.err(), Some(SchemaError::MalformedField));
    let bad_result = Function::new(
        "f".to_string(),
        "usf".to_string(),
        "Does.".to_string(),
        vec![],
        vec![field("x", FieldType::Int { signed: true, bits: 3 })],
    );
    assert_eq!(bad_result.err(), Some(SchemaError::MalformedField));
}

#[test]
fn only_valid_trees_become_schemas() {
    let schema = Schema::new(serial::new()).expect("valid");
    assert_eq!(func(&parts(schema.root()).items[0]).symbol, "usr");
    let clash = module("m", vec![flush("usr"), flush("usr")]);
    assert_eq!(Schema::new(clash).err(), Some(SchemaError::DuplicateSymbol));
    let undocumented = module("m", vec![function("f", "usf", "", vec![], vec![])]);
    assert_eq!(Schema::new(undocumented).err(), Some(SchemaError::MissingDocumentation));
}

#[test]
fn distinctness_checks() {
    assert!(distinct_symbols(&vec!["usr".to_string(), "usw".to_string()]));
    assert!(!distinct_symbols(&vec!["usr".to_string(), "usw".to_string(), "usr".to_string()]));
    assert!(distinct_symbols(&vec![]));
    let v = |x: usize| Variant::new("V".to_string(), x, "V.".to_string());
    assert!(distinct_values(&vec![v(0), v(1)]));
    assert!(!distinct_values(&vec![v(2), v(0), v(2)]));
}
