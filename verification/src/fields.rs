use vstd::prelude::*;
use vstd::string::StringExecFns;

use crate::order::compare_strs;
use crate::text::{chars_of, dec_digits, push_char, push_decimal};
use crate::vars::VarName;

verus! {

/// The kind of a program point.
#[derive(Debug, Clone, Copy, PartialEq, Eq, Structural)]
pub enum ProgramPointType {
    Enter,
    Exit,
    ExitNN(u64),
}

/// How a program point type is written after `ppt-type`.
pub open spec fn ppt_type_text(t: ProgramPointType) -> Seq<char> {
    match t {
        ProgramPointType::Enter => "enter"@,
        ProgramPointType::Exit => "exit"@,
        ProgramPointType::ExitNN(_) => "subexit"@,
    }
}

impl ProgramPointType {
    /// The text written after `ppt-type`.
    pub fn to_string(&self) -> (s: String)
        ensures
            s@ == ppt_type_text(*self),
    {
        match self {
            ProgramPointType::Enter => String::from_str("enter"),
            ProgramPointType::ExitNN(_) => String::from_str("subexit"),
            ProgramPointType::Exit => String::from_str("exit"),
        }
    }
}

} // verus!

verus! {

/// Equality of two strings by their characters.
pub fn str_eq(a: &str, b: &str) -> (r: bool)
    ensures
        r == (a@ == b@),
{
    compare_strs(a, b) == 0
}

/// The `var-kind <...>` line for a variable declaration
///
/// `Variable` is used for top-level variables (e.g. function parameters).
/// `Field(rel)` is used for any named sub-variable of a compound (struct field,
/// enum variant field, tuple field, `.length`). The string is the relative name
/// written after `var-kind field`.
/// `Array` is used for the `[..]` sequence of an array-like variable.
/// `Return` is used for return values.
/// `Function` is used for pure functions.
#[derive(Debug)]
pub enum VarKind {
    Variable,
    Field(String),
    Array,
    Return,
    Function(String),
}

/// The abstract value of a [`VarKind`].
pub enum VarKindV {
    Variable,
    Field(Seq<char>),
    Array,
    Return,
    Function(Seq<char>),
}

impl View for VarKind {
    type V = VarKindV;

    open spec fn view(&self) -> VarKindV {
        match self {
            VarKind::Variable => VarKindV::Variable,
            VarKind::Field(r) => VarKindV::Field(r@),
            VarKind::Array => VarKindV::Array,
            VarKind::Return => VarKindV::Return,
            VarKind::Function(r) => VarKindV::Function(r@),
        }
    }
}

/// How a variable kind is written after `var-kind`.
pub open spec fn var_kind_text(k: VarKindV) -> Seq<char> {
    match k {
        VarKindV::Variable => "variable"@,
        VarKindV::Field(r) => "field "@ + r,
        VarKindV::Array => "array"@,
        VarKindV::Return => "return"@,
        VarKindV::Function(r) => "function "@ + r,
    }
}

impl VarKind {
    /// The text written after `var-kind`.
    pub fn to_string(&self) -> (s: String)
        ensures
            s@ == var_kind_text(self@),
    {
        match self {
            VarKind::Variable => String::from_str("variable"),
            VarKind::Field(rel) => {
                let mut s = String::from_str("field ");
                s.append(rel.as_str());
                s
            },
            VarKind::Array => String::from_str("array"),
            VarKind::Return => String::from_str("return"),
            VarKind::Function(rel) => {
                let mut s = String::from_str("function ");
                s.append(rel.as_str());
                s
            },
        }
    }

}

/// The declared (Rust) type of a variable.
#[derive(Debug)]
pub enum DecType {
    Str,  // &str type
    String,  // std::string::String type
    U8,
    U16,
    U32,
    U64,
    U128,
    Usize,
    I8,
    I16,
    I32,
    I64,
    I128,
    Isize,
    F16,
    F32,
    F64,
    F128,
    Bool,
    Char,
    /// Any aggregate type (struct / enum / tuple / array / slice / reference).
    /// the stored string is the rust, user-facing, dec-type
    Compound(String),
}

/// The abstract value of a [`DecType`].
pub enum DecTypeV {
    Str,
    String,
    U8,
    U16,
    U32,
    U64,
    U128,
    Usize,
    I8,
    I16,
    I32,
    I64,
    I128,
    Isize,
    F16,
    F32,
    F64,
    F128,
    Bool,
    Char,
    Compound(Seq<char>),
}

impl View for DecType {
    type V = DecTypeV;

    open spec fn view(&self) -> DecTypeV {
        match self {
            DecType::Str => DecTypeV::Str,
            DecType::String => DecTypeV::String,
            DecType::U8 => DecTypeV::U8,
            DecType::U16 => DecTypeV::U16,
            DecType::U32 => DecTypeV::U32,
            DecType::U64 => DecTypeV::U64,
            DecType::U128 => DecTypeV::U128,
            DecType::Usize => DecTypeV::Usize,
            DecType::I8 => DecTypeV::I8,
            DecType::I16 => DecTypeV::I16,
            DecType::I32 => DecTypeV::I32,
            DecType::I64 => DecTypeV::I64,
            DecType::I128 => DecTypeV::I128,
            DecType::Isize => DecTypeV::Isize,
            DecType::F16 => DecTypeV::F16,
            DecType::F32 => DecTypeV::F32,
            DecType::F64 => DecTypeV::F64,
            DecType::F128 => DecTypeV::F128,
            DecType::Bool => DecTypeV::Bool,
            DecType::Char => DecTypeV::Char,
            DecType::Compound(s) => DecTypeV::Compound(s@),
        }
    }
}

/// How a declared type is written after `dec-type`.
pub open spec fn dec_type_text(d: DecTypeV) -> Seq<char> {
    match d {
        DecTypeV::U8 => "u8"@,
        DecTypeV::U16 => "u16"@,
        DecTypeV::U32 => "u32"@,
        DecTypeV::U64 => "u64"@,
        DecTypeV::U128 => "u128"@,
        DecTypeV::Usize => "usize"@,
        DecTypeV::I8 => "i8"@,
        DecTypeV::I16 => "i16"@,
        DecTypeV::I32 => "i32"@,
        DecTypeV::I64 => "i64"@,
        DecTypeV::I128 => "i128"@,
        DecTypeV::Isize => "isize"@,
        DecTypeV::F16 => "f16"@,
        DecTypeV::F32 => "f32"@,
        DecTypeV::F64 => "f64"@,
        DecTypeV::F128 => "f128"@,
        DecTypeV::Bool => "bool"@,
        DecTypeV::Char => "char"@,
        DecTypeV::Str => "str"@,
        DecTypeV::String => "std::string::String"@,
        DecTypeV::Compound(s) => s,
    }
}

/// The representation type Daikon uses for a declared type, before any `[]`.
pub open spec fn rep_base_text(d: DecTypeV) -> Seq<char> {
    match d {
        DecTypeV::U8 | DecTypeV::U16 | DecTypeV::U32 | DecTypeV::U64 | DecTypeV::U128
        | DecTypeV::Usize | DecTypeV::I8 | DecTypeV::I16 | DecTypeV::I32 | DecTypeV::I64
        | DecTypeV::I128 | DecTypeV::Isize => "int"@,
        DecTypeV::F16 | DecTypeV::F32 | DecTypeV::F64 | DecTypeV::F128 => "double"@,
        DecTypeV::Bool => "boolean"@,
        DecTypeV::Char | DecTypeV::Str | DecTypeV::String => "java.lang.String"@,
        DecTypeV::Compound(_) => "hashcode"@,
    }
}

/// The full representation type: the base, then `[]` for a positive array dimension.
pub open spec fn rep_type_text(d: DecTypeV, array: Option<u8>) -> Seq<char> {
    rep_base_text(d) + if array matches Some(a) && a > 0 {
        "[]"@
    } else {
        Seq::<char>::empty()
    }
}

/// The declared type named by `s` in a declaration file: the primitive of that
/// name, or else a compound type.
pub open spec fn dec_type_from(s: Seq<char>) -> DecTypeV {
    if s == "u8"@ {
        DecTypeV::U8
    } else if s == "u16"@ {
        DecTypeV::U16
    } else if s == "u32"@ {
        DecTypeV::U32
    } else if s == "u64"@ {
        DecTypeV::U64
    } else if s == "u128"@ {
        DecTypeV::U128
    } else if s == "usize"@ {
        DecTypeV::Usize
    } else if s == "i8"@ {
        DecTypeV::I8
    } else if s == "i16"@ {
        DecTypeV::I16
    } else if s == "i32"@ {
        DecTypeV::I32
    } else if s == "i64"@ {
        DecTypeV::I64
    } else if s == "i128"@ {
        DecTypeV::I128
    } else if s == "isize"@ {
        DecTypeV::Isize
    } else if s == "f16"@ {
        DecTypeV::F16
    } else if s == "f32"@ {
        DecTypeV::F32
    } else if s == "f64"@ {
        DecTypeV::F64
    } else if s == "f128"@ {
        DecTypeV::F128
    } else if s == "bool"@ {
        DecTypeV::Bool
    } else if s == "char"@ {
        DecTypeV::Char
    } else if s == "str"@ {
        DecTypeV::Str
    } else {
        DecTypeV::Compound(s)
    }
}

impl DecType {
    pub fn to_rep_type(&self, array: Option<u8>) -> (s: String)
        ensures
            s@ == rep_type_text(self@, array),
    {
        let base = match self {
            DecType::U8
            | DecType::U16
            | DecType::U32
            | DecType::U64
            | DecType::U128
            | DecType::Usize
            | DecType::I8
            | DecType::I16
            | DecType::I32
            | DecType::I64
            | DecType::I128
            | DecType::Isize => "int",
            DecType::F16 | DecType::F32 | DecType::F64 | DecType::F128 => "double",
            DecType::Bool => "boolean",
            // char is utf-8 in Rust and doesn't fit cleanly into int.
            // treat both it and str as Java strings
            DecType::Char | DecType::Str | DecType::String => "java.lang.String",
            DecType::Compound(_) => "hashcode",
        };
        let mut s = String::from_str(base);
        let suffixed = match array {
            Some(a) => a > 0,
            None => false,
        };
        if suffixed {
            s.append("[]");
        }
        assert(s@ =~= rep_type_text(self@, array));
        s
    }

    /// The text written after `dec-type`.
    pub fn to_string(&self) -> (r: String)
        ensures
            r@ == dec_type_text(self@),
    {
        let s: &str = match self {
            DecType::U8 => "u8",
            DecType::U16 => "u16",
            DecType::U32 => "u32",
            DecType::U64 => "u64",
            DecType::U128 => "u128",
            DecType::Usize => "usize",
            DecType::I8 => "i8",
            DecType::I16 => "i16",
            DecType::I32 => "i32",
            DecType::I64 => "i64",
            DecType::I128 => "i128",
            DecType::Isize => "isize",
            DecType::F16 => "f16",
            DecType::F32 => "f32",
            DecType::F64 => "f64",
            DecType::F128 => "f128",
            DecType::Bool => "bool",
            DecType::Char => "char",
            DecType::Str => "str",
            DecType::String => "std::string::String",
            DecType::Compound(s) => return s.clone(),
        };
        String::from_str(s)
    }

    /// The declared type named by `value` in a declaration file.
    pub fn from_name(value: &str) -> (d: Self)
        ensures
            d@ == dec_type_from(value@),
    {
        if str_eq(value, "u8") {
            DecType::U8
        } else if str_eq(value, "u16") {
            DecType::U16
        } else if str_eq(value, "u32") {
            DecType::U32
        } else if str_eq(value, "u64") {
            DecType::U64
        } else if str_eq(value, "u128") {
            DecType::U128
        } else if str_eq(value, "usize") {
            DecType::Usize
        } else if str_eq(value, "i8") {
            DecType::I8
        } else if str_eq(value, "i16") {
            DecType::I16
        } else if str_eq(value, "i32") {
            DecType::I32
        } else if str_eq(value, "i64") {
            DecType::I64
        } else if str_eq(value, "i128") {
            DecType::I128
        } else if str_eq(value, "isize") {
            DecType::Isize
        } else if str_eq(value, "f16") {
            DecType::F16
        } else if str_eq(value, "f32") {
            DecType::F32
        } else if str_eq(value, "f64") {
            DecType::F64
        } else if str_eq(value, "f128") {
            DecType::F128
        } else if str_eq(value, "bool") {
            DecType::Bool
        } else if str_eq(value, "char") {
            DecType::Char
        } else if str_eq(value, "str") {
            DecType::Str
        } else {
            // kinda dangerous to assume that all other strings are compound types...
            DecType::Compound(String::from_str(value))
        }
    }

}

} // verus!

verus! {

/// The `constant` tag attached to a variable declaration.
///
/// `Absent` means no `constant` line is emitted.
/// `Uninit` for values that have been dropped by the time execution reaches
///   this program point.
/// `Boolean(repr)` is `"true"` or `"false"`.
/// `String(repr)` is either a quoted string literal ("\"hello\"") or
///   a single-quoted char literal (e.g. "'c'")
/// `Numeric(repr)` covers integer/float scalar values and array/slice lengths.
#[derive(Debug)]
pub enum Constant {
    Absent,
    Uninit,
    Boolean(String),
    String(String),
    Numeric(String),
}

/// The abstract value of a [`Constant`].
pub enum ConstantV {
    Absent,
    Uninit,
    Boolean(Seq<char>),
    String(Seq<char>),
    Numeric(Seq<char>),
}

impl View for Constant {
    type V = ConstantV;

    open spec fn view(&self) -> ConstantV {
        match self {
            Constant::Absent => ConstantV::Absent,
            Constant::Uninit => ConstantV::Uninit,
            Constant::Boolean(s) => ConstantV::Boolean(s@),
            Constant::String(s) => ConstantV::String(s@),
            Constant::Numeric(s) => ConstantV::Numeric(s@),
        }
    }
}

/// How a constant is written after `constant`.
pub open spec fn constant_text(c: ConstantV) -> Seq<char> {
    match c {
        ConstantV::Absent => Seq::empty(),
        ConstantV::Uninit => "UNINITIALIZED"@,
        ConstantV::Boolean(s) => s,
        ConstantV::String(s) => s,
        ConstantV::Numeric(s) => s,
    }
}

/// The constant that the text `s` of a `constant` line stands for.
pub open spec fn constant_from(s: Seq<char>) -> ConstantV {
    if s == "UNINITIALIZED"@ {
        ConstantV::Uninit
    } else if s == "true"@ || s == "false"@ {
        ConstantV::Boolean(s)
    } else if s.len() > 0 && (s[0] == '"' || s[0] == '\'') {
        ConstantV::String(s)
    } else {
        ConstantV::Numeric(s)
    }
}

/// A constant is read back from the text it is written as: `UNINITIALIZED`,
/// `true` or `false`, a text starting with a quote, or any other text (a
/// number) that is none of those. An absent constant is written as no
/// `constant` line at all.
pub proof fn constant_reads_back(c: ConstantV)
    requires
        match c {
            ConstantV::Absent => false,
            ConstantV::Uninit => true,
            ConstantV::Boolean(s) => s == "true"@ || s == "false"@,
            ConstantV::String(s) => s.len() > 0 && (s[0] == '"' || s[0] == '\''),
            ConstantV::Numeric(s) => !(s.len() > 0 && (s[0] == '"' || s[0] == '\'')) && s
                != "true"@ && s != "false"@ && s != "UNINITIALIZED"@,
        },
    ensures
        constant_from(constant_text(c)) == c,
{
    reveal_strlit("UNINITIALIZED");
    reveal_strlit("true");
    reveal_strlit("false");
    if let ConstantV::String(s) = c {
        assert(s[0] != ("UNINITIALIZED"@)[0]);
        assert(s[0] != ("true"@)[0]);
        assert(s[0] != ("false"@)[0]);
    }
    if let ConstantV::Boolean(s) = c {
        assert(("true"@)[0] != ("UNINITIALIZED"@)[0]);
        assert(("false"@)[0] != ("UNINITIALIZED"@)[0]);
    }
}

impl Constant {
    pub fn is_some(&self) -> (b: bool)
        ensures
            b == !(self@ is Absent),
    {
        !matches!(self, Constant::Absent)
    }

    /// The text written after `constant`.
    pub fn to_string(&self) -> (r: String)
        ensures
            r@ == constant_text(self@),
    {
        match self {
            Constant::Absent => String::new(),
            Constant::Uninit => String::from_str("UNINITIALIZED"),
            Constant::Boolean(s) | Constant::String(s) | Constant::Numeric(s) => s.clone(),
        }
    }

    /// The constant that the text `value` of a `constant` line stands for.
    pub fn from_text(value: &str) -> (c: Self)
        ensures
            c@ == constant_from(value@),
    {
        if str_eq(value, "UNINITIALIZED") {
            Constant::Uninit
        } else if str_eq(value, "true") || str_eq(value, "false") {
            Constant::Boolean(String::from_str(value))
        } else {
            let v = chars_of(value);
            if v.len() > 0 && (v[0] == '"' || v[0] == '\'') {
                Constant::String(String::from_str(value))
            } else {
                Constant::Numeric(String::from_str(value))
            }
        }
    }

}

/// How a program point relates to one of its parents.
#[derive(Debug, Clone, Copy, PartialEq, Eq, Structural)]
pub enum ParentRelationType {
    Parent,
    EnterExit,
    ExitExitNN,
}

/// How a parent relation is written in a `parent` line.
pub open spec fn relation_text(r: ParentRelationType) -> Seq<char> {
    match r {
        ParentRelationType::Parent => "parent"@,
        ParentRelationType::EnterExit => "enter-exit"@,
        ParentRelationType::ExitExitNN => "exit-exitnn"@,
    }
}

impl ParentRelationType {
    /// The text written for this relation in a `parent` line.
    pub fn to_string(&self) -> (s: String)
        ensures
            s@ == relation_text(*self),
    {
        match self {
            ParentRelationType::Parent => String::from_str("parent"),
            ParentRelationType::EnterExit => String::from_str("enter-exit"),
            ParentRelationType::ExitExitNN => String::from_str("exit-exitnn"),
        }
    }
}

/// The text of lines, each followed by a newline.
pub open spec fn lines_text(ls: Seq<Seq<char>>) -> Seq<char>
    decreases ls.len(),
{
    if ls.len() == 0 {
        Seq::empty()
    } else {
        lines_text(ls.drop_last()) + ls.last() + seq!['\n']
    }
}

/// Appends one line and its newline.
pub(crate) fn push_line(out: &mut String, line: &String, Ghost(ls): Ghost<Seq<Seq<char>>>)
    requires
        old(out)@ == lines_text(ls),
    ensures
        final(out)@ == lines_text(ls.push(line@)),
{
    out.append(line.as_str());
    push_char(out, '\n');
    assert(ls.push(line@).drop_last() =~= ls);
    assert(final(out)@ =~= lines_text(ls.push(line@)));
}

/// A single variable declaration, as specified by section A.3.3 of the Daikon
/// Developer Documentation.
#[derive(Debug)]
pub struct VariableDecl {
    var_kind: VarKind,
    dec_type: DecType,
    enclosing_var: Option<VarName>,
    array: Option<u8>,
    constant: Constant,
    comparability: Option<u64>,
}

/// The abstract value of a [`VariableDecl`].
pub struct VarDeclV {
    pub var_kind: VarKindV,
    pub dec_type: DecTypeV,
    pub enclosing_var: Option<Seq<char>>,
    pub array: Option<u8>,
    pub constant: ConstantV,
    pub comparability: Option<u64>,
}

impl View for VariableDecl {
    type V = VarDeclV;

    closed spec fn view(&self) -> VarDeclV {
        VarDeclV {
            var_kind: self.var_kind@,
            dec_type: self.dec_type@,
            enclosing_var: match self.enclosing_var {
                Some(e) => Some(e@),
                None => None,
            },
            array: self.array,
            constant: self.constant@,
            comparability: self.comparability,
        }
    }
}

/// How a comparability is written: its number, or `-1` when absent.
pub open spec fn comparability_text(c: Option<u64>) -> Seq<char> {
    match c {
        Some(v) => dec_digits(v as nat),
        None => "-1"@,
    }
}

/// The lines that describe a variable declaration, after its `variable` line.
pub open spec fn decl_lines(d: VarDeclV) -> Seq<Seq<char>> {
    seq![
        "  var-kind "@ + var_kind_text(d.var_kind),
        "  dec-type "@ + dec_type_text(d.dec_type),
        "  rep-type "@ + rep_type_text(d.dec_type, d.array),
    ] + match d.enclosing_var {
        Some(e) => seq!["  enclosing-var "@ + e],
        None => Seq::empty(),
    } + match d.array {
        Some(a) => seq!["  array "@ + dec_digits(a as nat)],
        None => Seq::empty(),
    } + if d.constant is Absent {
        Seq::empty()
    } else {
        seq!["  constant "@ + constant_text(d.constant)]
    } + seq!["  comparability "@ + comparability_text(d.comparability)]
}

impl VariableDecl {
    pub fn new(var_kind: VarKind, dec_type: DecType) -> (d: Self)
        ensures
            d@ == (VarDeclV {
                var_kind: var_kind@,
                dec_type: dec_type@,
                enclosing_var: None,
                array: None,
                constant: ConstantV::Absent,
                comparability: None,
            }),
    {
        Self {
            var_kind,
            dec_type,
            enclosing_var: None,
            array: None,
            comparability: None,
            constant: Constant::Absent,
        }
    }

    pub fn with_array(self, dim: Option<u8>) -> (d: Self)
        ensures
            d@ == (VarDeclV { array: dim, ..self@ }),
    {
        let mut d = self;
        d.array = dim;
        d
    }

    pub fn with_enclosing_var(self, enclosing_var: Option<VarName>) -> (d: Self)
        ensures
            d@ == (VarDeclV {
                enclosing_var: match enclosing_var {
                    Some(e) => Some(e@),
                    None => None,
                },
                ..self@
            }),
    {
        let mut d = self;
        d.enclosing_var = enclosing_var;
        d
    }

    pub fn with_constant(self, constant: Constant) -> (d: Self)
        ensures
            d@ == (VarDeclV { constant: constant@, ..self@ }),
    {
        let mut d = self;
        d.constant = constant;
        d
    }

    pub fn set_constant(&mut self, constant: Constant)
        ensures
            final(self)@ == (VarDeclV { constant: constant@, ..old(self)@ }),
    {
        self.constant = constant;
    }

    pub fn with_comparability(self, comp: Option<u64>) -> (d: Self)
        ensures
            d@ == (VarDeclV { comparability: comp, ..self@ }),
    {
        let mut d = self;
        d.comparability = comp;
        d
    }

    pub fn set_comparability(&mut self, comp: Option<u64>)
        ensures
            final(self)@ == (VarDeclV { comparability: comp, ..old(self)@ }),
    {
        self.comparability = comp;
    }

    pub fn get_comparability(&self) -> (c: &Option<u64>)
        ensures
            *c == self@.comparability,
    {
        &self.comparability
    }

    pub fn get_dec_type(&self) -> (d: &DecType)
        ensures
            d@ == self@.dec_type,
    {
        &self.dec_type
    }

    /// Returns true iff this declaration carries a `constant` tag of any kind.
    pub fn is_constant(&self) -> (b: bool)
        ensures
            b == !(self@.constant is Absent),
    {
        self.constant.is_some()
    }

    /// Returns true iff this declaration's `constant` tag is the
    /// `UNINITIALIZED`, i.e. the value has been moved-out / dropped
    /// by the time execution reaches the enclosing program point.
    pub fn is_uninit(&self) -> (b: bool)
        ensures
            b == (self@.constant is Uninit),
    {
        matches!(self.constant, Constant::Uninit)
    }

    /// Get the constant tag associated with this variable.
    pub fn constant(&self) -> (c: &Constant)
        ensures
            c@ == self@.constant,
    {
        &self.constant
    }

    /// Appends the lines describing this declaration.
    pub(crate) fn write_lines(&self, out: &mut String, Ghost(ls): Ghost<Seq<Seq<char>>>)
        requires
            old(out)@ == lines_text(ls),
        ensures
            final(out)@ == lines_text(ls + decl_lines(self@)),
    {
        let ghost mut cur = ls;
        let mut line = String::from_str("  var-kind ");
        line.append(self.var_kind.to_string().as_str());
        push_line(out, &line, Ghost(cur));
        proof { cur = cur.push(line@); }
        let mut line = String::from_str("  dec-type ");
        line.append(self.dec_type.to_string().as_str());
        push_line(out, &line, Ghost(cur));
        proof { cur = cur.push(line@); }
        let mut line = String::from_str("  rep-type ");
        line.append(self.dec_type.to_rep_type(self.array).as_str());
        push_line(out, &line, Ghost(cur));
        proof { cur = cur.push(line@); }
        if let Some(enc) = &self.enclosing_var {
            let mut line = String::from_str("  enclosing-var ");
            line.append(enc.as_str());
            push_line(out, &line, Ghost(cur));
            proof { cur = cur.push(line@); }
        }
        if let Some(dim) = self.array {
            let mut line = String::from_str("  array ");
            push_decimal(&mut line, dim as u64);
            push_line(out, &line, Ghost(cur));
            proof { cur = cur.push(line@); }
        }
        if self.constant.is_some() {
            let mut line = String::from_str("  constant ");
            line.append(self.constant.to_string().as_str());
            push_line(out, &line, Ghost(cur));
            proof { cur = cur.push(line@); }
        }
        let mut line = String::from_str("  comparability ");
        match self.comparability {
            Some(comp) => push_decimal(&mut line, comp),
            None => line.append("-1"),
        }
        push_line(out, &line, Ghost(cur));
        proof { cur = cur.push(line@); }
        assert(cur =~= ls + decl_lines(self@));
    }

    /// The lines describing this declaration, as written in a declaration file.
    pub fn to_string(&self) -> (s: String)
        ensures
            s@ == lines_text(decl_lines(self@)),
    {
        let mut s = String::new();
        assert(s@ =~= lines_text(Seq::empty()));
        self.write_lines(&mut s, Ghost(Seq::empty()));
        assert(Seq::<Seq<char>>::empty() + decl_lines(self@) =~= decl_lines(self@));
        s
    }
}

} // verus!
