use vstd::prelude::*;
use vstd::string::StringExecFns;

use crate::fields::{dec_type_text, rep_base_text, DecType, DecTypeV};
use crate::text::push_char;

verus! {

/// Signed integer types.
#[derive(Debug, Clone, Copy, PartialEq, Eq, Structural)]
pub enum IntTy {
    Isize,
    I8,
    I16,
    I32,
    I64,
    I128,
}

/// Unsigned integer types.
#[derive(Debug, Clone, Copy, PartialEq, Eq, Structural)]
pub enum UintTy {
    Usize,
    U8,
    U16,
    U32,
    U64,
    U128,
}

/// Floating-point types (the type only; no value of it is ever held).
#[derive(Debug, Clone, Copy, PartialEq, Eq, Structural)]
pub enum FloatTy {
    F16,
    F32,
    F64,
    F128,
}

/// A named field of a struct.
#[derive(Debug)]
pub struct FieldShape {
    pub name: String,
    pub ty: TyShape,
}

/// A field of one variant of an enum.
#[derive(Debug)]
pub struct VariantField {
    pub variant: String,
    pub field: String,
    pub ty: TyShape,
}

/// The shape of a Rust type as far as the declaration generator looks into it:
/// primitives, references, arrays, slices, tuples, the crate's own structs and
/// enums (fields in declaration order, generics already substituted), and the
/// standard library types that get special treatment. Every type that is not a
/// primitive carries the text by which the compiler prints it.
///
/// Field types are only meaningful as deep as variables are expanded: a shape
/// may stop with `Other` where no declaration would look any further.
#[derive(Debug)]
pub enum TyShape {
    Bool,
    Char,
    Int(IntTy),
    Uint(UintTy),
    Float(FloatTy),
    Str,
    Ref { pointee: Box<TyShape>, text: String },
    Array { elem: Box<TyShape>, len: Option<u64>, text: String },
    Slice { elem: Box<TyShape>, text: String },
    Tuple { elems: Vec<TyShape>, text: String },
    /// A struct defined in the crate being described.
    Struct { fields: Vec<FieldShape>, text: String },
    /// An enum defined in the crate being described; the fields of all
    /// variants, variant by variant.
    Enum { fields: Vec<VariantField>, text: String },
    /// `std::string::String`.
    StdString,
    /// `std::vec::Vec<elem>`.
    StdVec { elem: Box<TyShape>, text: String },
    /// `std::boxed::Box<pointee>`.
    StdBox { pointee: Box<TyShape>, text: String },
    /// Any other type defined outside the crate (ranges among them).
    Foreign { text: String },
    /// Any other kind of type (function pointers, type parameters, raw pointers, ...).
    Other { text: String },
}

/// The declared type of a variable of type `ty`.
pub open spec fn dec_type_of(ty: TyShape) -> DecTypeV {
    match ty {
        TyShape::Bool => DecTypeV::Bool,
        TyShape::Char => DecTypeV::Char,
        TyShape::Str => DecTypeV::Str,
        TyShape::Int(i) => match i {
            IntTy::Isize => DecTypeV::Isize,
            IntTy::I8 => DecTypeV::I8,
            IntTy::I16 => DecTypeV::I16,
            IntTy::I32 => DecTypeV::I32,
            IntTy::I64 => DecTypeV::I64,
            IntTy::I128 => DecTypeV::I128,
        },
        TyShape::Uint(u) => match u {
            UintTy::Usize => DecTypeV::Usize,
            UintTy::U8 => DecTypeV::U8,
            UintTy::U16 => DecTypeV::U16,
            UintTy::U32 => DecTypeV::U32,
            UintTy::U64 => DecTypeV::U64,
            UintTy::U128 => DecTypeV::U128,
        },
        TyShape::Float(f) => match f {
            FloatTy::F16 => DecTypeV::F16,
            FloatTy::F32 => DecTypeV::F32,
            FloatTy::F64 => DecTypeV::F64,
            FloatTy::F128 => DecTypeV::F128,
        },
        TyShape::StdString => DecTypeV::String,
        TyShape::Ref { text, .. } => DecTypeV::Compound(text@),
        TyShape::Array { text, .. } => DecTypeV::Compound(text@),
        TyShape::Slice { text, .. } => DecTypeV::Compound(text@),
        TyShape::Tuple { text, .. } => DecTypeV::Compound(text@),
        TyShape::Struct { text, .. } => DecTypeV::Compound(text@),
        TyShape::Enum { text, .. } => DecTypeV::Compound(text@),
        TyShape::StdVec { text, .. } => DecTypeV::Compound(text@),
        TyShape::StdBox { text, .. } => DecTypeV::Compound(text@),
        TyShape::Foreign { text } => DecTypeV::Compound(text@),
        TyShape::Other { text } => DecTypeV::Compound(text@),
    }
}

/// Primitive scalar types: the leaves of the expansion.
pub open spec fn is_scalar_ty(ty: TyShape) -> bool {
    ty is Bool || ty is Char || ty is Int || ty is Uint || ty is Float
}

impl TyShape {
    /// The unit type `()`.
    pub open spec fn is_unit_spec(&self) -> bool {
        self matches TyShape::Tuple { elems, .. } && elems@.len() == 0
    }

    #[verifier::when_used_as_spec(is_unit_spec)]
    pub fn is_unit(&self) -> (b: bool)
        ensures
            b == self.is_unit_spec(),
    {
        match self {
            TyShape::Tuple { elems, .. } => elems.len() == 0,
            _ => false,
        }
    }
}

impl DecType {
    pub fn from_ty(ty: &TyShape) -> (d: DecType)
        ensures
            d@ == dec_type_of(*ty),
    {
        match ty {
            TyShape::Bool => DecType::Bool,
            TyShape::Char => DecType::Char,
            TyShape::Str => DecType::Str,
            TyShape::Int(int_ty) => match int_ty {
                IntTy::Isize => DecType::Isize,
                IntTy::I8 => DecType::I8,
                IntTy::I16 => DecType::I16,
                IntTy::I32 => DecType::I32,
                IntTy::I64 => DecType::I64,
                IntTy::I128 => DecType::I128,
            },
            TyShape::Uint(uint_ty) => match uint_ty {
                UintTy::Usize => DecType::Usize,
                UintTy::U8 => DecType::U8,
                UintTy::U16 => DecType::U16,
                UintTy::U32 => DecType::U32,
                UintTy::U64 => DecType::U64,
                UintTy::U128 => DecType::U128,
            },
            TyShape::Float(float_ty) => match float_ty {
                FloatTy::F16 => DecType::F16,
                FloatTy::F32 => DecType::F32,
                FloatTy::F64 => DecType::F64,
                FloatTy::F128 => DecType::F128,
            },
            // String has to be recognized as a DecType::String.
            TyShape::StdString => DecType::String,
            // Everything else is an aggregate and prints with hashcode rep-type.
            TyShape::Ref { text, .. }
            | TyShape::Array { text, .. }
            | TyShape::Slice { text, .. }
            | TyShape::Tuple { text, .. }
            | TyShape::Struct { text, .. }
            | TyShape::Enum { text, .. }
            | TyShape::StdVec { text, .. }
            | TyShape::StdBox { text, .. }
            | TyShape::Foreign { text }
            | TyShape::Other { text } => DecType::Compound(text.clone()),
        }
    }
}

/// What compile-time evaluation of a global yields, seen along its type: the
/// handle that the expansion of a global reads its constant values from.
#[derive(Debug)]
pub enum ConstValue {
    /// A primitive scalar value. `bits` holds its raw bits, or is `None` for a
    /// pointer; `text` is how the evaluator prints it.
    Scalar { bits: Option<u128>, text: String },
    /// A reference, with what it points at when that could be read.
    Ref(Option<Box<ConstValue>>),
    /// A struct, tuple or array, with what each field or element could be read as.
    Aggregate(Vec<Option<ConstValue>>),
    /// The elements of a slice (the slice's length is their number).
    Slice(Vec<Option<ConstValue>>),
    /// The contents of a `str`, or `None` when they are not UTF-8.
    Str(Option<String>),
}

/// A valid `char` value.
pub open spec fn is_char_value(u: u32) -> bool {
    u <= 0xd7ff || (0xe000 <= u && u <= 0x10ffff)
}

/// `char::from_u32`: trusted to give the character with code `u` exactly when
/// `u` is a Unicode scalar value (not a surrogate, at most `0x10FFFF`), and
/// `None` otherwise, as its documentation states.
#[verifier::external_body]
fn char_from_u32(u: u32) -> (r: Option<char>)
    ensures
        r is Some <==> is_char_value(u),
        r matches Some(c) ==> c == u as char,
{
    char::from_u32(u)
}

/// How a scalar read from a constant is written: booleans as `true`/`false`,
/// characters quoted with `'`, anything else (and anything unreadable) as the
/// evaluator prints it.
pub open spec fn format_scalar(bits: Option<u128>, text: Seq<char>, ty: TyShape) -> Seq<char> {
    match ty {
        TyShape::Bool => match bits {
            Some(b) => if b == 0 {
                "false"@
            } else {
                "true"@
            },
            None => text,
        },
        TyShape::Char => match bits {
            Some(b) => if is_char_value(b as u32) {
                seq!['\'', (b as u32) as char, '\'']
            } else {
                text
            },
            None => text,
        },
        _ => text,
    }
}

pub fn format_scalar_exec(bits: Option<u128>, text: &String, ty: &TyShape) -> (s: String)
    ensures
        s@ == format_scalar(bits, text@, *ty),
{
    match ty {
        TyShape::Bool => match bits {
            Some(0) => String::from_str("false"),
            Some(_) => String::from_str("true"),
            None => text.clone(),
        },
        TyShape::Char => match bits {
            Some(b) => match char_from_u32(b as u32) {
                Some(c) => {
                    let mut s = String::new();
                    push_char(&mut s, '\'');
                    push_char(&mut s, c);
                    push_char(&mut s, '\'');
                    assert(s@ =~= seq!['\'', (b as u32) as char, '\'']);
                    s
                },
                None => text.clone(),
            },
            None => text.clone(),
        },
        _ => text.clone(),
    }
}

/// How one character of a string constant is written between the quotes.
pub open spec fn quote_char(c: char) -> Seq<char> {
    if c == '\\' {
        seq!['\\', '\\']
    } else if c == '"' {
        seq!['\\', '"']
    } else {
        seq![c]
    }
}

pub open spec fn quote_body(s: Seq<char>) -> Seq<char>
    decreases s.len(),
{
    if s.len() == 0 {
        Seq::empty()
    } else {
        quote_body(s.drop_last()) + quote_char(s.last())
    }
}

/// A string constant as written: in double quotes, with backslashes and double
/// quotes escaped by a backslash.
pub open spec fn quoted(s: Seq<char>) -> Seq<char> {
    seq!['"'] + quote_body(s) + seq!['"']
}

pub fn quote_str(s: &String) -> (r: String)
    ensures
        r@ == quoted(s@),
{
    let v = crate::text::chars_of(s.as_str());
    let mut r = String::new();
    push_char(&mut r, '"');
    let mut i: usize = 0;
    assert(v@.take(0) =~= Seq::<char>::empty());
    while i < v.len()
        invariant
            i <= v@.len(),
            v@ == s@,
            r@ == seq!['"'] + quote_body(v@.take(i as int)),
        decreases v@.len() - i,
    {
        let c = v[i];
        if c == '\\' {
            push_char(&mut r, '\\');
            push_char(&mut r, '\\');
        } else if c == '"' {
            push_char(&mut r, '\\');
            push_char(&mut r, '"');
        } else {
            push_char(&mut r, c);
        }
        assert(v@.take(i + 1).drop_last() =~= v@.take(i as int));
        assert(r@ =~= seq!['"'] + quote_body(v@.take(i + 1)));
        i += 1;
    }
    assert(v@.take(i as int) =~= v@);
    push_char(&mut r, '"');
    assert(r@ =~= quoted(s@));
    r
}


/// A primitive type is declared under its own Rust name, of the same
/// signedness and width (`i64` as `i64`), `String` under its path; every
/// integer type is represented as `int` and every float type as `double`.
pub proof fn primitives_keep_their_names()
    ensures
        dec_type_text(dec_type_of(TyShape::Int(IntTy::Isize))) == "isize"@,
        dec_type_text(dec_type_of(TyShape::Int(IntTy::I8))) == "i8"@,
        dec_type_text(dec_type_of(TyShape::Int(IntTy::I16))) == "i16"@,
        dec_type_text(dec_type_of(TyShape::Int(IntTy::I32))) == "i32"@,
        dec_type_text(dec_type_of(TyShape::Int(IntTy::I64))) == "i64"@,
        dec_type_text(dec_type_of(TyShape::Int(IntTy::I128))) == "i128"@,
        dec_type_text(dec_type_of(TyShape::Uint(UintTy::Usize))) == "usize"@,
        dec_type_text(dec_type_of(TyShape::Uint(UintTy::U8))) == "u8"@,
        dec_type_text(dec_type_of(TyShape::Uint(UintTy::U16))) == "u16"@,
        dec_type_text(dec_type_of(TyShape::Uint(UintTy::U32))) == "u32"@,
        dec_type_text(dec_type_of(TyShape::Uint(UintTy::U64))) == "u64"@,
        dec_type_text(dec_type_of(TyShape::Uint(UintTy::U128))) == "u128"@,
        dec_type_text(dec_type_of(TyShape::Float(FloatTy::F16))) == "f16"@,
        dec_type_text(dec_type_of(TyShape::Float(FloatTy::F32))) == "f32"@,
        dec_type_text(dec_type_of(TyShape::Float(FloatTy::F64))) == "f64"@,
        dec_type_text(dec_type_of(TyShape::Float(FloatTy::F128))) == "f128"@,
        dec_type_text(dec_type_of(TyShape::Bool)) == "bool"@,
        dec_type_text(dec_type_of(TyShape::Char)) == "char"@,
        dec_type_text(dec_type_of(TyShape::Str)) == "str"@,
        dec_type_text(dec_type_of(TyShape::StdString)) == "std::string::String"@,
        forall|i: IntTy| #[trigger] rep_base_text(dec_type_of(TyShape::Int(i))) == "int"@,
        forall|u: UintTy| #[trigger] rep_base_text(dec_type_of(TyShape::Uint(u))) == "int"@,
        forall|f: FloatTy| #[trigger] rep_base_text(dec_type_of(TyShape::Float(f))) == "double"@,
{
    assert forall|i: IntTy| #[trigger] rep_base_text(dec_type_of(TyShape::Int(i))) == "int"@ by {
        match i {
            _ => {},
        }
    }
    assert forall|u: UintTy| #[trigger] rep_base_text(dec_type_of(TyShape::Uint(u))) == "int"@ by {
        match u {
            _ => {},
        }
    }
    assert forall|f: FloatTy| #[trigger] rep_base_text(dec_type_of(TyShape::Float(f))) == "double"@ by {
        match f {
            _ => {},
        }
    }
}

/// Quoting a string that holds no backslash and no double quote only puts it
/// between double quotes: every other character, the apostrophe included,
/// stays as it is.
pub proof fn quoting_keeps_plain_text(s: Seq<char>)
    requires
        forall|i: int| 0 <= i < s.len() ==> #[trigger] s[i] != '\\' && s[i] != '"',
    ensures
        quoted(s) == seq!['"'] + s + seq!['"'],
    decreases s.len(),
{
    lemma_quote_body_plain(s);
}

proof fn lemma_quote_body_plain(s: Seq<char>)
    requires
        forall|i: int| 0 <= i < s.len() ==> #[trigger] s[i] != '\\' && s[i] != '"',
    ensures
        quote_body(s) == s,
    decreases s.len(),
{
    if s.len() > 0 {
        let t = s.drop_last();
        assert forall|i: int| 0 <= i < t.len() implies #[trigger] t[i] != '\\' && t[i] != '"' by {
            assert(t[i] == s[i]);
        }
        lemma_quote_body_plain(t);
        assert(s[s.len() - 1] != '\\' && s[s.len() - 1] != '"');
        assert(t + seq![s.last()] =~= s);
    }
}

/// A backslash or a double quote in a string constant is preceded by a
/// backslash, so the quoted text has one character more for each of them.
pub proof fn quoting_escapes_backslash_and_quote()
    ensures
        quote_char('\\') == seq!['\\', '\\'],
        quote_char('"') == seq!['\\', '"'],
        forall|c: char| c != '\\' && c != '"' ==> #[trigger] quote_char(c) == seq![c],
{
}

} // verus!
