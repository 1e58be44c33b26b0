use vstd::prelude::*;
use vstd::string::StringExecFns;

use crate::ppt::{opt_src, project, slice_elem};
use crate::shape::{format_scalar, format_scalar_exec, quote_str, quoted, ConstValue, TyShape};

verus! {

/// Represents a global (a `const` or `static` item), defined somewhere in the
/// crate, with a unique name, its type, and what the compiler evaluated it to.
#[derive(Debug)]
pub struct Global {
    /// The fully qualified name, `<file>::<def path>`.
    pub name: String,
    /// The index of the item's local definition.
    pub ldid: u32,
    pub ty: TyShape,
    /// The evaluated value, for constants and immutable statics that could be
    /// evaluated; `None` otherwise.
    pub value: Option<ConstValue>,
    /// The functions (by definition index) from which the item is visible.
    pub visible_from: Vec<u32>,
}

/// The name under which a global is declared: `<file>::<def path>`.
pub open spec fn qualified_name(file: Seq<char>, def_path: Seq<char>) -> Seq<char> {
    file + "::"@ + def_path
}

impl Global {
    pub fn new(
        file: &str,
        def_path: &str,
        ldid: u32,
        ty: TyShape,
        value: Option<ConstValue>,
        visible_from: Vec<u32>,
    ) -> (g: Global)
        ensures
            g.name@ == qualified_name(file@, def_path@),
            g.ldid == ldid,
            g.ty == ty,
            g.value == value,
            g.visible_from == visible_from,
    {
        let mut name = String::from_str(file);
        name.append("::");
        name.append(def_path);
        Global { name, ldid, ty, value, visible_from }
    }

    pub fn did(&self) -> (d: u32)
        ensures
            d == self.ldid,
    {
        self.ldid
    }

    /// The compile-time value of this global, if it has one.
    pub fn const_source(&self) -> (v: Option<&ConstValue>)
        ensures
            v == match self.value {
                Some(c) => Some(&c),
                None => None::<&ConstValue>,
            },
    {
        match &self.value {
            Some(c) => Some(c),
            None => None,
        }
    }
}

impl ConstValue {
    /// Project into the `idx`-th field of a struct, tuple or array value.
    pub fn project_field(&self, idx: usize) -> (r: Option<&ConstValue>)
        ensures
            opt_src(r) == project(Some(*self), idx as int),
    {
        match self {
            ConstValue::Aggregate(v) => if idx < v.len() {
                match &v[idx] {
                    Some(c) => Some(c),
                    None => None,
                }
            } else {
                None
            },
            _ => None,
        }
    }

    /// Project into the `idx`-th element of a slice value. A slice value holds
    /// exactly its elements, so past its end there is nothing to read.
    pub fn project_slice_elem(&self, idx: u64) -> (r: Option<&ConstValue>)
        ensures
            opt_src(r) == slice_elem(Some(*self), idx as int),
    {
        match self {
            ConstValue::Slice(v) => if idx < v.len() as u64 {
                match &v[idx as usize] {
                    Some(c) => Some(c),
                    None => None,
                }
            } else {
                None
            },
            _ => None,
        }
    }

    /// The length of a slice value.
    pub fn slice_len(&self) -> (r: Option<u64>)
        ensures
            r == match *self {
                ConstValue::Slice(v) => Some(v@.len() as u64),
                _ => None,
            },
    {
        match self {
            ConstValue::Slice(v) => Some(v.len() as u64),
            _ => None,
        }
    }

    /// Follow a reference value to what it points at; `None` for anything that
    /// is not a reference, or a reference whose target could not be read.
    pub fn deref_ptr(&self) -> (r: Option<&ConstValue>)
        ensures
            opt_src(r) == match *self {
                ConstValue::Ref(Some(b)) => Some(*b),
                _ => None,
            },
    {
        match self {
            ConstValue::Ref(Some(b)) => Some(&**b),
            _ => None,
        }
    }

    /// Read a scalar value as a primitive of type `ty`.
    pub fn read_leaf(&self, ty: &TyShape) -> (r: Option<String>)
        ensures
            r matches Some(s) ==> self is Scalar && s@ == format_scalar(self->bits, self->text@, *ty),
            r is None <==> !(self is Scalar),
    {
        match self {
            ConstValue::Scalar { bits, text } => Some(format_scalar_exec(*bits, text, ty)),
            _ => None,
        }
    }

    /// A `str` value, quoted, with backslashes and double quotes escaped.
    pub fn read_str(&self) -> (r: Option<String>)
        ensures
            r matches Some(s) ==> (self matches ConstValue::Str(Some(t)) && s@ == quoted(t@)),
            r is None <==> !(self matches ConstValue::Str(Some(_))),
    {
        match self {
            ConstValue::Str(Some(t)) => Some(quote_str(t)),
            _ => None,
        }
    }
}

} // verus!
