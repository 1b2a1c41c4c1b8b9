use vstd::prelude::*;

verus! {

/// The shape of one parameter or result at the call boundary.
#[derive(Clone, Copy, Debug, PartialEq, Eq, Structural)]
pub enum FieldType {
    /// An integer of a fixed width in bits.
    Int { signed: bool, bits: u32 },
    /// A pointer-sized integer (`isize` or `usize`).
    Word { signed: bool },
    /// The address of a byte buffer in guest memory, followed by its length.
    Pointer { mutable: bool },
    /// A guest function that the host calls back, followed by its context.
    Handler,
    /// The guest-owned opaque context handed back to a handler.
    Context,
}

/// One named parameter or result.
#[derive(Clone, Debug)]
pub struct Field {
    pub name: String,
    pub docs: String,
    pub ty: FieldType,
}

/// The integer widths that a field may declare.
pub open spec fn width_supported(bits: u32) -> bool {
    bits == 8 || bits == 16 || bits == 32 || bits == 64
}

/// The field at `i` of `s` is well formed: its width is supported, and a
/// pointer is followed by its length (an unsigned word) and a handler by its
/// context, while a context follows a handler.
pub open spec fn field_ok(s: Seq<Field>, i: int) -> bool {
    match s[i].ty {
        FieldType::Int { bits, .. } => width_supported(bits),
        FieldType::Word { .. } => true,
        FieldType::Pointer { .. } => i + 1 < s.len() && s[i + 1].ty == (FieldType::Word { signed: false }),
        FieldType::Handler => i + 1 < s.len() && s[i + 1].ty == FieldType::Context,
        FieldType::Context => i > 0 && s[i - 1].ty == FieldType::Handler,
    }
}

/// Every field of the sequence is well formed.
pub open spec fn fields_ok(s: Seq<Field>) -> bool {
    forall|i: int| 0 <= i < s.len() ==> #[trigger] field_ok(s, i)
}

/// Whether `bits` is a supported integer width.
pub fn supported_width(bits: u32) -> (r: bool)
    ensures
        r == width_supported(bits),
{
    bits == 8 || bits == 16 || bits == 32 || bits == 64
}

/// Whether every field of a parameter or result list is well formed.
pub fn check_fields(fields: &Vec<Field>) -> (r: bool)
    ensures
        r == fields_ok(fields@),
{
    let n = fields.len();
    let mut i: usize = 0;
    while i < n
        invariant
            n == fields@.len(),
            i <= n,
            forall|j: int| 0 <= j < i ==> #[trigger] field_ok(fields@, j),
        decreases n - i,
    {
        let ok = match fields[i].ty {
            FieldType::Int { bits, .. } => supported_width(bits),
            FieldType::Word { .. } => true,
            FieldType::Pointer { .. } => i + 1 < n && fields[i + 1].ty == (FieldType::Word { signed: false }),
            FieldType::Handler => i + 1 < n && fields[i + 1].ty == FieldType::Context,
            FieldType::Context => i > 0 && fields[i - 1].ty == FieldType::Handler,
        };
        if !ok {
            assert(!field_ok(fields@, i as int));
            return false;
        }
        i = i + 1;
    }
    true
}

} // verus!
