use vstd::prelude::*;
use vstd::string::StringExecFns;

use crate::fields::{
    constant_from, decl_lines, lines_text, ppt_type_text, push_line, relation_text, Constant,
    ConstantV, DecType, DecTypeV, ParentRelationType, ProgramPointType, VarDeclV, VarKind, VarKindV,
    VariableDecl,
};
use crate::shape::{
    dec_type_of, format_scalar, format_scalar_exec, is_scalar_ty, quote_str, quoted, ConstValue,
    FieldShape, TyShape, VariantField,
};
use crate::globals::Global;
use crate::strmap::{keys_sorted, seq_get, seq_insert, StrMap};
use crate::text::{dec_digits, push_decimal};
use crate::vars::VarName;

verus! {

impl View for ParentRelationType {
    type V = ParentRelationType;

    open spec fn view(&self) -> ParentRelationType {
        *self
    }
}

/// Inserts the entries one after the other, as `BTreeMap::insert` does.
pub open spec fn insert_all<X>(m: Seq<(Seq<char>, X)>, es: Seq<(Seq<char>, X)>) -> Seq<
    (Seq<char>, X),
>
    decreases es.len(),
{
    if es.len() == 0 {
        m
    } else {
        insert_all(seq_insert(m, es[0].0, es[0].1), es.drop_first())
    }
}

pub proof fn lemma_insert_all_concat<X>(
    m: Seq<(Seq<char>, X)>,
    a: Seq<(Seq<char>, X)>,
    b: Seq<(Seq<char>, X)>,
)
    ensures
        insert_all(m, a + b) == insert_all(insert_all(m, a), b),
    decreases a.len(),
{
    if a.len() == 0 {
        assert(a + b =~= b);
    } else {
        assert((a + b).drop_first() =~= a.drop_first() + b);
        assert((a + b)[0] == a[0]);
        lemma_insert_all_concat(seq_insert(m, a[0].0, a[0].1), a.drop_first(), b);
    }
}

pub proof fn lemma_insert_all_one<X>(m: Seq<(Seq<char>, X)>, k: Seq<char>, v: X)
    ensures
        insert_all(m, seq![(k, v)]) == seq_insert(m, k, v),
{
    let s = seq![(k, v)];
    assert(s.drop_first() =~= Seq::<(Seq<char>, X)>::empty());
    assert(insert_all(seq_insert(m, k, v), Seq::<(Seq<char>, X)>::empty()) == seq_insert(m, k, v));
    assert(s[0] == (k, v));
}

pub proof fn lemma_insert_all_sorted<X>(m: Seq<(Seq<char>, X)>, es: Seq<(Seq<char>, X)>)
    requires
        crate::strmap::keys_sorted(m),
    ensures
        crate::strmap::keys_sorted(insert_all(m, es)),
    decreases es.len(),
{
    if es.len() > 0 {
        crate::strmap::lemma_sorted_insert(m, es[0].0, es[0].1);
        lemma_insert_all_sorted(seq_insert(m, es[0].0, es[0].1), es.drop_first());
    }
}

pub const RETURN_VAR_NAME: &'static str = "return";

pub const FIELD_LENGTH: &'static str = "length";

/// What a reference-typed constant yields once the reference is followed.
pub open spec fn src_through_ref(src: Option<ConstValue>) -> Option<ConstValue> {
    match src {
        Some(ConstValue::Ref(t)) => match t {
            Some(b) => Some(*b),
            None => None,
        },
        other => other,
    }
}

/// The `i`-th field or element of an aggregate constant.
pub open spec fn project(src: Option<ConstValue>, i: int) -> Option<ConstValue> {
    match src {
        Some(ConstValue::Aggregate(v)) => if 0 <= i < v@.len() {
            v@[i]
        } else {
            None
        },
        _ => None,
    }
}

/// The `i`-th element of a slice constant.
pub open spec fn slice_elem(src: Option<ConstValue>, i: int) -> Option<ConstValue> {
    match src {
        Some(ConstValue::Slice(v)) => if 0 <= i < v@.len() {
            v@[i]
        } else {
            None
        },
        _ => None,
    }
}

/// The text of the constant tag of a variable of (reference-free) type `ty`
/// whose value is read from `src`.
pub open spec fn node_constant(ty: TyShape, src: ConstValue) -> Option<Seq<char>> {
    if is_scalar_ty(ty) {
        match src {
            ConstValue::Scalar { bits, text } => Some(format_scalar(bits, text@, ty)),
            _ => None,
        }
    } else if ty is Str {
        match src {
            ConstValue::Str(Some(t)) => Some(quoted(t@)),
            _ => None,
        }
    } else if ty is StdString {
        // String::new() is the only const fn String constructor,
        // so any const-evaluatable String is the empty string.
        Some("\"\""@)
    } else {
        Some("TEMPORARY_PTR_PLACEHOLDER"@)
    }
}

/// The declaration of a variable of (reference-free) type `ty` itself.
pub open spec fn node_decl(
    ty: TyShape,
    src: Option<ConstValue>,
    parent: Option<Seq<char>>,
    kind: VarKindV,
    in_array: bool,
    uninit: bool,
) -> VarDeclV {
    VarDeclV {
        var_kind: kind,
        dec_type: dec_type_of(ty),
        enclosing_var: parent,
        array: if in_array {
            Some(1u8)
        } else {
            None
        },
        constant: if uninit {
            ConstantV::Uninit
        } else {
            match src {
                Some(s) => match node_constant(ty, s) {
                    Some(t) => constant_from(t),
                    None => ConstantV::Absent,
                },
                None => ConstantV::Absent,
            }
        },
        comparability: None,
    }
}

/// The declaration of the `length` field of the sequence `name`.
pub open spec fn length_decl(name: Seq<char>, constant: ConstantV) -> VarDeclV {
    VarDeclV {
        var_kind: VarKindV::Field("length"@),
        dec_type: DecTypeV::Usize,
        enclosing_var: Some(name),
        array: None,
        constant,
        comparability: None,
    }
}

pub open spec fn uninit_constant(uninit: bool) -> ConstantV {
    if uninit {
        ConstantV::Uninit
    } else {
        ConstantV::Absent
    }
}

/// One level less of remaining expansion depth.
pub open spec fn sub_depth(d: Option<usize>) -> Option<usize> {
    match d {
        Some(r) => Some((r - 1) as usize),
        None => None,
    }
}

pub open spec fn index_label(i: nat) -> Seq<char> {
    "["@ + dec_digits(i) + "]"@
}

/// The declarations, in the order they are recorded, for the variable `name` of
/// type `ty` and everything reachable inside it within `depth` levels.
///
/// `parent` is the enclosing variable, `kind` how `name` relates to it.
/// `in_array` marks variables inside a sequence (they get `array 1`, and
/// sequences inside them are not expanded again). `src`, when present, is the
/// constant value of the variable, read into `constant` tags; arrays and slices
/// with a known value are expanded element by element. `uninit` tags every
/// declaration `UNINITIALIZED`.
pub open spec fn var_entries(
    name: Seq<char>,
    ty: TyShape,
    parent: Option<Seq<char>>,
    kind: VarKindV,
    depth: Option<usize>,
    in_array: bool,
    src: Option<ConstValue>,
    uninit: bool,
) -> Seq<(Seq<char>, VarDeclV)>
    decreases ty, 1nat,
{
    if depth == Some(0usize) {
        Seq::empty()
    } else {
        match ty {
            TyShape::Ref { pointee, .. } => var_entries(
                name,
                *pointee,
                parent,
                kind,
                depth,
                in_array,
                src_through_ref(src),
                uninit,
            ),
            _ => {
                let ia = in_array || kind is Array;
                let d1 = sub_depth(depth);
                let len_name = name + "."@ + "length"@;
                seq![(name, node_decl(ty, src, parent, kind, ia, uninit))] + match ty {
                    TyShape::Array { elem, len, .. } => match (src, len) {
                        (Some(s), Some(n)) => indexed_entries(
                            name,
                            *elem,
                            n as nat,
                            d1,
                            ia,
                            Some(s),
                            false,
                            uninit,
                        ) + seq![(len_name, length_decl(name, constant_from(dec_digits(n as nat))))],
                        _ => if ia {
                            Seq::empty()
                        } else {
                            var_entries(
                                name + "[..]"@,
                                *elem,
                                Some(name),
                                VarKindV::Array,
                                d1,
                                ia,
                                None,
                                uninit,
                            ) + seq![(len_name, length_decl(name, uninit_constant(uninit)))]
                        },
                    },
                    TyShape::Slice { elem, .. } => match src {
                        Some(ConstValue::Slice(v)) => indexed_entries(
                            name,
                            *elem,
                            v@.len(),
                            d1,
                            ia,
                            src,
                            true,
                            uninit,
                        ) + seq![(len_name, length_decl(name, constant_from(dec_digits(v@.len()))))],
                        _ => if ia {
                            Seq::empty()
                        } else {
                            var_entries(
                                name + "[..]"@,
                                *elem,
                                Some(name),
                                VarKindV::Array,
                                d1,
                                ia,
                                None,
                                uninit,
                            ) + seq![(len_name, length_decl(name, uninit_constant(uninit)))]
                        },
                    },
                    TyShape::Tuple { elems, .. } => tuple_entries(
                        name,
                        elems,
                        elems@.len(),
                        d1,
                        ia,
                        src,
                        uninit,
                    ),
                    TyShape::Struct { fields, .. } => struct_entries(
                        name,
                        fields,
                        fields@.len(),
                        d1,
                        ia,
                        src,
                        uninit,
                    ),
                    TyShape::Enum { fields, .. } => enum_entries(
                        name,
                        fields,
                        fields@.len(),
                        d1,
                        ia,
                        uninit,
                    ),
                    TyShape::StdVec { .. } | TyShape::StdBox { .. } => foreign_entries(
                        name,
                        ty,
                        d1,
                        ia,
                        uninit,
                    ),
                    _ => Seq::empty(),
                }
            },
        }
    }
}

/// The declarations inside a standard library type: a `Vec` is a sequence
/// (`length`, then its elements as `[..]`), a `Box` is followed to `*name`.
/// Nothing is declared inside other types defined outside the crate.
pub open spec fn foreign_entries(
    name: Seq<char>,
    ty: TyShape,
    depth: Option<usize>,
    in_array: bool,
    uninit: bool,
) -> Seq<(Seq<char>, VarDeclV)>
    decreases ty, 0nat,
{
    match ty {
        TyShape::StdVec { elem, .. } => if in_array {
            Seq::empty()
        } else {
            seq![(name + "."@ + "length"@, length_decl(name, uninit_constant(uninit)))]
                + var_entries(
                name + "[..]"@,
                *elem,
                Some(name),
                VarKindV::Array,
                depth,
                in_array,
                None,
                uninit,
            )
        },
        TyShape::StdBox { pointee, .. } => var_entries(
            "*"@ + name,
            *pointee,
            Some(name),
            VarKindV::Variable,
            depth,
            in_array,
            None,
            uninit,
        ),
        _ => Seq::empty(),
    }
}

/// The elements `0..k` of an array or slice whose value is known.
pub open spec fn indexed_entries(
    name: Seq<char>,
    elem: TyShape,
    k: nat,
    depth: Option<usize>,
    in_array: bool,
    src: Option<ConstValue>,
    is_slice: bool,
    uninit: bool,
) -> Seq<(Seq<char>, VarDeclV)>
    decreases elem, k + 1,
{
    if k == 0 {
        Seq::empty()
    } else {
        let i = (k - 1) as nat;
        indexed_entries(name, elem, i, depth, in_array, src, is_slice, uninit) + var_entries(
            name + index_label(i),
            elem,
            Some(name),
            VarKindV::Field(index_label(i)),
            depth,
            in_array,
            if is_slice {
                slice_elem(src, i as int)
            } else {
                project(src, i as int)
            },
            uninit,
        )
    }
}

/// The fields `0..k` of a tuple.
pub open spec fn tuple_entries(
    name: Seq<char>,
    elems: Vec<TyShape>,
    k: nat,
    depth: Option<usize>,
    in_array: bool,
    src: Option<ConstValue>,
    uninit: bool,
) -> Seq<(Seq<char>, VarDeclV)>
    decreases elems, k,
{
    if k == 0 || k > elems@.len() {
        Seq::empty()
    } else {
        let i = (k - 1) as nat;
        tuple_entries(name, elems, i, depth, in_array, src, uninit) + var_entries(
            name + "."@ + dec_digits(i),
            elems@[i as int],
            Some(name),
            VarKindV::Field(dec_digits(i)),
            depth,
            in_array,
            project(src, i as int),
            uninit,
        )
    }
}

/// The fields `0..k` of a struct.
pub open spec fn struct_entries(
    name: Seq<char>,
    fields: Vec<crate::shape::FieldShape>,
    k: nat,
    depth: Option<usize>,
    in_array: bool,
    src: Option<ConstValue>,
    uninit: bool,
) -> Seq<(Seq<char>, VarDeclV)>
    decreases fields, k,
{
    if k == 0 || k > fields@.len() {
        Seq::empty()
    } else {
        let i = (k - 1) as nat;
        let f = fields@[i as int];
        struct_entries(name, fields, i, depth, in_array, src, uninit) + var_entries(
            name + "."@ + f.name@,
            f.ty,
            Some(name),
            VarKindV::Field(f.name@),
            depth,
            in_array,
            project(src, i as int),
            uninit,
        )
    }
}

/// The fields `0..k` of the variants of an enum.
pub open spec fn enum_entries(
    name: Seq<char>,
    fields: Vec<crate::shape::VariantField>,
    k: nat,
    depth: Option<usize>,
    in_array: bool,
    uninit: bool,
) -> Seq<(Seq<char>, VarDeclV)>
    decreases fields, k,
{
    if k == 0 || k > fields@.len() {
        Seq::empty()
    } else {
        let i = (k - 1) as nat;
        let f = fields@[i as int];
        enum_entries(name, fields, i, depth, in_array, uninit) + var_entries(
            name + "::"@ + f.variant@ + "."@ + f.field@,
            f.ty,
            Some(name),
            VarKindV::Field(f.variant@ + "."@ + f.field@),
            depth,
            in_array,
            None,
            uninit,
        )
    }
}

} // verus!

verus! {

pub open spec fn opt_name(p: Option<VarName>) -> Option<Seq<char>> {
    match p {
        Some(n) => Some(n@),
        None => None,
    }
}

pub open spec fn opt_src(o: Option<&ConstValue>) -> Option<ConstValue> {
    match o {
        Some(c) => Some(*c),
        None => None,
    }
}

/// The abstract value of a [`ProgramPoint`].
pub struct PptV {
    pub ppt_type: ProgramPointType,
    pub variables: Seq<(Seq<char>, VarDeclV)>,
    pub parents: Seq<(Seq<char>, (ParentRelationType, u64))>,
    /// The function the program point belongs to, when built from source (not
    /// written to a declaration file).
    pub def_id: Option<u32>,
}

/// One program point of a declaration file: its type, its variables and its
/// parents, each kept in name order.
#[derive(Debug)]
pub struct ProgramPoint {
    pub ppt_type: ProgramPointType,
    pub variables: StrMap<VariableDecl>,
    pub parents: StrMap<(ParentRelationType, u64)>,
    // Only useful during construction from source,
    // to add globals only to ppts that can access them.
    local_def_id: Option<u32>,
}

impl View for ProgramPoint {
    type V = PptV;

    closed spec fn view(&self) -> PptV {
        PptV {
            ppt_type: self.ppt_type,
            variables: self.variables@,
            parents: self.parents@,
            def_id: self.local_def_id,
        }
    }
}

/// The constant tag text read for a variable of type `ty` from `src`.
fn read_constant(ty: &TyShape, src: &ConstValue) -> (r: Option<String>)
    ensures
        match r {
            Some(s) => node_constant(*ty, *src) == Some(s@),
            None => node_constant(*ty, *src) is None,
        },
{
    match ty {
        TyShape::Bool | TyShape::Char | TyShape::Int(_) | TyShape::Uint(_) | TyShape::Float(_) => {
            src.read_leaf(ty)
        },
        TyShape::Str => src.read_str(),
        TyShape::StdString => Some(String::from_str("\"\"")),
        _ => Some(String::from_str("TEMPORARY_PTR_PLACEHOLDER")),
    }
}

/// The declaration of the `length` field of `name`.
fn new_length_decl(name: &VarName, uninit: bool) -> (d: VariableDecl)
    ensures
        d@ == length_decl(name@, uninit_constant(uninit)),
{
    let d = VariableDecl::new(VarKind::Field(String::from_str(FIELD_LENGTH)), DecType::Usize)
        .with_enclosing_var(Some(name.copy_name()));
    if uninit {
        d.with_constant(Constant::Uninit)
    } else {
        d
    }
}

impl ProgramPoint {
    /// The variables and parents are kept in name order.
    pub open spec fn wf(&self) -> bool {
        keys_sorted(self@.variables) && keys_sorted(self@.parents)
    }

    /// The function whose program point this is, when built from source.
    pub open spec fn def_id(&self) -> Option<u32> {
        self@.def_id
    }

    /// Emit a record for the variable name: ty. If the type is a
    /// compound type, recursively emit records for its contained variables.
    ///
    /// `name` is the fully-qualified variable name (e.g. "arr[..].field").
    /// `parent` is the enclosing variable's fully-qualified name (e.g. "arr[..]"),
    ///    or None (in which case the name` var is the root.)
    /// `var_kind` describes how this variable relates to its parent, described by the
    ///    .decls file format specification.
    /// `in_array` is sticky and stops reporting sequences of sequences.
    ///    It should always be initially set to false.
    /// `const_source`, when present, is the constant value of the variable.
    ///    each leaf is tagged with its constant value.
    ///    further, when Some, arrays/slices are expanded into per-element
    ///    var-decls (p[0], p[1], ...) instead of the collapsed [..] sequence.
    /// `is_uninit`, when true, tags every emitted var-decl (this one and every
    ///    recursively expanded sub-variable) with `constant UNINITIALIZED`. Used
    ///    for formals that have been dropped/moved-out by this program point.
    fn add_var(
        &mut self,
        name: VarName,
        ty: &TyShape,
        parent: Option<VarName>,
        var_kind: VarKind,
        remaining_recursive_depth: Option<usize>,
        in_array: bool,
        const_source: Option<&ConstValue>,
        is_uninit: bool,
    )
        requires
            old(self).variables.wf(),
        ensures
            final(self).variables.wf(),
            final(self).variables@ == insert_all(
                old(self).variables@,
                var_entries(
                    name@,
                    *ty,
                    opt_name(parent),
                    var_kind@,
                    remaining_recursive_depth,
                    in_array,
                    opt_src(const_source),
                    is_uninit,
                ),
            ),
            final(self).ppt_type == old(self).ppt_type,
            final(self).parents == old(self).parents,
            final(self).local_def_id == old(self).local_def_id,
        decreases ty, 1nat,
    {
        let ghost m0 = self.variables@;
        let ghost entries = var_entries(
            name@,
            *ty,
            opt_name(parent),
            var_kind@,
            remaining_recursive_depth,
            in_array,
            opt_src(const_source),
            is_uninit,
        );
        // stop expanding vars if we have hit the max depth.
        if let Some(remaining_depth) = remaining_recursive_depth {
            if remaining_depth == 0 {
                assert(entries =~= Seq::<(Seq<char>, VarDeclV)>::empty());
                return ;
            }
        }
        // Peel the reference: the constant behind it is what it points at.

        if let TyShape::Ref { pointee, .. } = ty {
            let src: Option<&ConstValue> = match const_source {
                Some(c) => match c {
                    ConstValue::Ref(_) => c.deref_ptr(),
                    _ => Some(c),
                },
                None => None,
            };
            assert(opt_src(src) == src_through_ref(opt_src(const_source)));
            self.add_var(
                name,
                &**pointee,
                parent,
                var_kind,
                remaining_recursive_depth,
                in_array,
                src,
                is_uninit,
            );
            return ;
        }
        // Any variable inside (or equal to) an array sequence has multiple
        // values, so it gets the <array 1> tag set, alongside any contained value.

        let in_array = in_array || matches!(var_kind, VarKind::Array);
        let ghost kind_v = var_kind@;
        let ghost parent_v = opt_name(parent);
        let mut var_decl = VariableDecl::new(var_kind, DecType::from_ty(ty)).with_enclosing_var(
            parent,
        );
        if in_array {
            var_decl = var_decl.with_array(Some(1));
        }
        // Uninit formals get a UNINITIALIZED tag on every emitted var-decl.

        if is_uninit {
            var_decl = var_decl.with_constant(Constant::Uninit);
        }
        // If a const source is available, attach a constant tag for this decl.

        if !is_uninit {
            if let Some(src) = const_source {
                if let Some(text) = read_constant(ty, src) {
                    var_decl = var_decl.with_constant(Constant::from_text(text.as_str()));
                }
            }
        }
        assert(var_decl@ == node_decl(
            *ty,
            opt_src(const_source),
            parent_v,
            kind_v,
            in_array,
            is_uninit,
        ));
        let ghost first = seq![(name@, var_decl@)];
        self.variables.insert(name.copy_name().into_string(), var_decl);
        proof {
            lemma_insert_all_one(m0, first[0].0, first[0].1);
        }
        let ghost m1 = self.variables@;
        assert(m1 == insert_all(m0, first));
        let depth = match remaining_recursive_depth {
            Some(r) => Some(r - 1),
            None => None,
        };
        let ghost rest = entries.skip(1);
        assert(entries =~= first + rest);
        match ty {
            // Arrays. With a const source, expand into per-element decls
            // name[0]..name[N-1]. Without a source, treat this as a var and
            // emit the [..] sequence.
            TyShape::Array { elem, len, .. } => {
                let ghost m1 = self.variables@;
                match (const_source, len) {
                    (Some(src), Some(n)) => {
                        let ghost a = indexed_entries(name@, **elem, *n as nat, depth, in_array, Some(*src), false, is_uninit);
                        self.add_indexed(&name, &**elem, *n, depth, in_array, Some(src), false, is_uninit);
                        let mut len_decl = new_length_decl(&name, is_uninit);
                        let mut count = String::new();
                        push_decimal(&mut count, *n);
                        len_decl.set_constant(Constant::from_text(count.as_str()));
                        let ghost b = seq![(name@ + "."@ + "length"@, len_decl@)];
                        self.add_length(&name, len_decl);
                        proof {
                            lemma_insert_all_one(insert_all(m1, a), b[0].0, b[0].1);
                            lemma_insert_all_concat(m1, a, b);
                            assert(rest == a + b);
                        }
                    },
                    _ => {
                        if !in_array {
                            let ghost a = var_entries(name@ + "[..]"@, **elem, Some(name@), VarKindV::Array, depth, in_array, None, is_uninit);
                            let ghost m1 = self.variables@;
                            self.add_var(
                                name.project_slice(),
                                &**elem,
                                Some(name.copy_name()),
                                VarKind::Array,
                                depth,
                                in_array,
                                None,
                                is_uninit,
                            );
                            let len_decl = new_length_decl(&name, is_uninit);
                            let ghost b = seq![(name@ + "."@ + "length"@, len_decl@)];
                            self.add_length(&name, len_decl);
                            proof {
                                lemma_insert_all_one(insert_all(m1, a), b[0].0, b[0].1);
                                lemma_insert_all_concat(m1, a, b);
                                assert(rest == a + b);
                            }
                        } else {
                            assert(rest =~= Seq::<(Seq<char>, VarDeclV)>::empty());
                        }
                    },
                }
            },
            // Slices. Handled very similarly to arrays, see above
            TyShape::Slice { elem, .. } => {
                match const_source {
                    Some(ConstValue::Slice(v)) => {
                        let n = v.len() as u64;
                        let ghost m1 = self.variables@;
                        let ghost a = indexed_entries(name@, **elem, n as nat, depth, in_array, opt_src(const_source), true, is_uninit);
                        self.add_indexed(&name, &**elem, n, depth, in_array, const_source, true, is_uninit);
                        let mut len_decl = new_length_decl(&name, is_uninit);
                        let mut count = String::new();
                        push_decimal(&mut count, n);
                        len_decl.set_constant(Constant::from_text(count.as_str()));
                        let ghost b = seq![(name@ + "."@ + "length"@, len_decl@)];
                        self.add_length(&name, len_decl);
                        proof {
                            lemma_insert_all_one(insert_all(m1, a), b[0].0, b[0].1);
                            lemma_insert_all_concat(m1, a, b);
                            assert(rest == a + b);
                        }
                    },
                    _ => {
                        if !in_array {
                            let ghost a = var_entries(name@ + "[..]"@, **elem, Some(name@), VarKindV::Array, depth, in_array, None, is_uninit);
                            let ghost m1 = self.variables@;
                            self.add_var(
                                name.project_slice(),
                                &**elem,
                                Some(name.copy_name()),
                                VarKind::Array,
                                depth,
                                in_array,
                                None,
                                is_uninit,
                            );
                            let len_decl = new_length_decl(&name, is_uninit);
                            let ghost b = seq![(name@ + "."@ + "length"@, len_decl@)];
                            self.add_length(&name, len_decl);
                            proof {
                                lemma_insert_all_one(insert_all(m1, a), b[0].0, b[0].1);
                                lemma_insert_all_concat(m1, a, b);
                                assert(rest == a + b);
                            }
                        } else {
                            assert(rest =~= Seq::<(Seq<char>, VarDeclV)>::empty());
                        }
                    },
                }
            },
            // Tuples emit a var decl per field.
            TyShape::Tuple { elems, .. } => {
                assert(rest =~= tuple_entries(name@, *elems, elems@.len(), depth, in_array, opt_src(const_source), is_uninit));
                self.add_tuple(&name, elems, depth, in_array, const_source, is_uninit);
                assert(self.variables@ == insert_all(m1, rest));
            },
            // the compound type is a struct!
            TyShape::Struct { fields, .. } => {
                assert(rest =~= struct_entries(name@, *fields, fields@.len(), depth, in_array, opt_src(const_source), is_uninit));
                self.add_struct(&name, fields, depth, in_array, const_source, is_uninit);
                assert(self.variables@ == insert_all(m1, rest));
            },
            // the compound type is an enum!
            TyShape::Enum { fields, .. } => {
                assert(rest =~= enum_entries(name@, *fields, fields@.len(), depth, in_array, is_uninit));
                self.add_enum(&name, fields, depth, in_array, is_uninit);
                assert(self.variables@ == insert_all(m1, rest));
            },
            // Some external types are special-cased, namely Vec and Box.
            TyShape::StdVec { .. } | TyShape::StdBox { .. } => {
                assert(rest =~= foreign_entries(name@, *ty, depth, in_array, is_uninit));
                self.maybe_foreign_special_case_ty(name, ty, depth, in_array, is_uninit);
                assert(self.variables@ == insert_all(m1, rest));
            },
            // Leaf types, the record we just inserted is all there is to say.
            _ => {
                assert(rest =~= Seq::<(Seq<char>, VarDeclV)>::empty());
            },
        }
        assert(self.variables@ == insert_all(m1, rest));
        proof {
            lemma_insert_all_concat(m0, first, rest);
        }
    }

    /// Records the `length` declaration of `name`.
    fn add_length(&mut self, name: &VarName, len_decl: VariableDecl)
        requires
            old(self).variables.wf(),
        ensures
            final(self).variables.wf(),
            final(self).variables@ == seq_insert(
                old(self).variables@,
                name@ + "."@ + "length"@,
                len_decl@,
            ),
            final(self).ppt_type == old(self).ppt_type,
            final(self).parents == old(self).parents,
            final(self).local_def_id == old(self).local_def_id,
    {
        let len_name = name.project_field(FIELD_LENGTH);
        self.variables.insert(len_name.into_string(), len_decl);
    }

    /// The elements `0..n` of an array or slice whose value is known.
    fn add_indexed(
        &mut self,
        name: &VarName,
        elem: &TyShape,
        n: u64,
        depth: Option<usize>,
        in_array: bool,
        const_source: Option<&ConstValue>,
        is_slice: bool,
        is_uninit: bool,
    )
        requires
            old(self).variables.wf(),
        ensures
            final(self).variables.wf(),
            final(self).variables@ == insert_all(
                old(self).variables@,
                indexed_entries(
                    name@,
                    *elem,
                    n as nat,
                    depth,
                    in_array,
                    opt_src(const_source),
                    is_slice,
                    is_uninit,
                ),
            ),
            final(self).ppt_type == old(self).ppt_type,
            final(self).parents == old(self).parents,
            final(self).local_def_id == old(self).local_def_id,
        decreases elem, 2nat,
    {
        let ghost m0 = self.variables@;
        let ghost src = opt_src(const_source);
        let mut i: u64 = 0;
        assert(insert_all(m0, Seq::empty()) == m0);
        while i < n
            invariant
                i <= n,
                src == opt_src(const_source),
                self.variables.wf(),
                self.variables@ == insert_all(
                    m0,
                    indexed_entries(name@, *elem, i as nat, depth, in_array, src, is_slice, is_uninit),
                ),
                self.ppt_type == old(self).ppt_type,
                self.parents == old(self).parents,
                self.local_def_id == old(self).local_def_id,
            decreases n - i,
        {
            let mut rel = String::from_str("[");
            push_decimal(&mut rel, i);
            rel.append("]");
            let child_name = name.project_index_u64(i);
            let child_src: Option<&ConstValue> = match const_source {
                Some(c) => if is_slice {
                    c.project_slice_elem(i)
                } else if i <= usize::MAX as u64 {
                    c.project_field(i as usize)
                } else {
                    proof {
                        if let ConstValue::Aggregate(v) = c {
                            assert(v@.len() == v.len());
                        }
                    }
                    None
                },
                None => None,
            };
            assert(opt_src(child_src) == if is_slice {
                slice_elem(src, i as int)
            } else {
                project(src, i as int)
            });
            let ghost before = indexed_entries(name@, *elem, i as nat, depth, in_array, src, is_slice, is_uninit);
            let ghost part = var_entries(
                child_name@,
                *elem,
                Some(name@),
                VarKindV::Field(rel@),
                depth,
                in_array,
                opt_src(child_src),
                is_uninit,
            );
            assert(rel@ == index_label(i as nat));
            assert(child_name@ =~= name@ + index_label(i as nat));
            self.add_var(
                child_name,
                elem,
                Some(name.copy_name()),
                VarKind::Field(rel),
                depth,
                in_array,
                child_src,
                is_uninit,
            );
            proof {
                lemma_insert_all_concat(m0, before, part);
            }
            i += 1;
            assert(indexed_entries(name@, *elem, i as nat, depth, in_array, src, is_slice, is_uninit)
                == before + part);
        }
    }

    /// Struct fields each get a var decl.
    fn add_struct(
        &mut self,
        name: &VarName,
        fields: &Vec<FieldShape>,
        depth: Option<usize>,
        in_array: bool,
        const_source: Option<&ConstValue>,
        is_uninit: bool,
    )
        requires
            old(self).variables.wf(),
        ensures
            final(self).variables.wf(),
            final(self).variables@ == insert_all(
                old(self).variables@,
                struct_entries(
                    name@,
                    *fields,
                    fields@.len(),
                    depth,
                    in_array,
                    opt_src(const_source),
                    is_uninit,
                ),
            ),
            final(self).ppt_type == old(self).ppt_type,
            final(self).parents == old(self).parents,
            final(self).local_def_id == old(self).local_def_id,
        decreases fields, 1nat,
    {
        let ghost m0 = self.variables@;
        let mut i: usize = 0;
        assert(insert_all(m0, Seq::empty()) == m0);
        while i < fields.len()
            invariant
                i <= fields@.len(),
                self.variables.wf(),
                self.variables@ == insert_all(
                    m0,
                    struct_entries(
                        name@,
                        *fields,
                        i as nat,
                        depth,
                        in_array,
                        opt_src(const_source),
                        is_uninit,
                    ),
                ),
                self.ppt_type == old(self).ppt_type,
                self.parents == old(self).parents,
                self.local_def_id == old(self).local_def_id,
            decreases fields@.len() - i,
        {
            let field = &fields[i];
            let child_name = name.project_field(field.name.as_str());
            let child_src: Option<&ConstValue> = match const_source {
                Some(c) => c.project_field(i),
                None => None,
            };
            assert(opt_src(child_src) == project(opt_src(const_source), i as int));
            let ghost before = struct_entries(
                name@,
                *fields,
                i as nat,
                depth,
                in_array,
                opt_src(const_source),
                is_uninit,
            );
            let ghost part = var_entries(
                child_name@,
                field.ty,
                Some(name@),
                VarKindV::Field(field.name@),
                depth,
                in_array,
                opt_src(child_src),
                is_uninit,
            );
            self.add_var(
                child_name,
                &field.ty,
                Some(name.copy_name()),
                VarKind::Field(field.name.clone()),
                depth,
                in_array,
                child_src,
                is_uninit,
            );
            proof {
                lemma_insert_all_concat(m0, before, part);
            }
            i += 1;
            assert(struct_entries(
                name@,
                *fields,
                i as nat,
                depth,
                in_array,
                opt_src(const_source),
                is_uninit,
            ) == before + part);
        }
    }

    /// Flatten all enum variants by prefixing each variant's fields
    /// with ::Variant. Const decomposition for enums (which depends
    /// on the discriminant, as in only one variant would make up the
    /// constant) isn't implemented.
    fn add_enum(
        &mut self,
        name: &VarName,
        fields: &Vec<VariantField>,
        depth: Option<usize>,
        in_array: bool,
        is_uninit: bool,
    )
        requires
            old(self).variables.wf(),
        ensures
            final(self).variables.wf(),
            final(self).variables@ == insert_all(
                old(self).variables@,
                enum_entries(name@, *fields, fields@.len(), depth, in_array, is_uninit),
            ),
            final(self).ppt_type == old(self).ppt_type,
            final(self).parents == old(self).parents,
            final(self).local_def_id == old(self).local_def_id,
        decreases fields, 1nat,
    {
        let ghost m0 = self.variables@;
        let mut i: usize = 0;
        assert(insert_all(m0, Seq::empty()) == m0);
        while i < fields.len()
            invariant
                i <= fields@.len(),
                self.variables.wf(),
                self.variables@ == insert_all(
                    m0,
                    enum_entries(name@, *fields, i as nat, depth, in_array, is_uninit),
                ),
                self.ppt_type == old(self).ppt_type,
                self.parents == old(self).parents,
                self.local_def_id == old(self).local_def_id,
            decreases fields@.len() - i,
        {
            let field = &fields[i];
            let mut rel = field.variant.clone();
            rel.append(".");
            rel.append(field.field.as_str());
            let child_name = name.project_variant(field.variant.as_str()).project_field(
                field.field.as_str(),
            );
            let ghost before = enum_entries(name@, *fields, i as nat, depth, in_array, is_uninit);
            let ghost part = var_entries(
                child_name@,
                field.ty,
                Some(name@),
                VarKindV::Field(rel@),
                depth,
                in_array,
                None,
                is_uninit,
            );
            self.add_var(
                child_name,
                &field.ty,
                Some(name.copy_name()),
                VarKind::Field(rel),
                depth,
                in_array,
                None,
                is_uninit,
            );
            proof {
                lemma_insert_all_concat(m0, before, part);
            }
            i += 1;
            assert(enum_entries(name@, *fields, i as nat, depth, in_array, is_uninit) == before
                + part);
        }
    }

    /// Vec and Box get special treatment: a Vec is a sequence (p.length, p[..]),
    /// a Box is followed to *p. Other types from outside the crate are skipped.
    fn maybe_foreign_special_case_ty(
        &mut self,
        name: VarName,
        ty: &TyShape,
        remaining_recursive_depth: Option<usize>,
        in_array: bool,
        is_uninit: bool,
    )
        requires
            old(self).variables.wf(),
        ensures
            final(self).variables.wf(),
            final(self).variables@ == insert_all(
                old(self).variables@,
                foreign_entries(name@, *ty, remaining_recursive_depth, in_array, is_uninit),
            ),
            final(self).ppt_type == old(self).ppt_type,
            final(self).parents == old(self).parents,
            final(self).local_def_id == old(self).local_def_id,
        decreases ty, 0nat,
    {
        let ghost m0 = self.variables@;
        match ty {
            TyShape::StdVec { elem, .. } => {
                // Vec type, treat similar to array. if P: Vec<u32> include var decls for:
                // p  <-- already included by add_var
                // p.length  <-- varkind field
                // p[..]  <-- varkind array
                if in_array {
                    // see array handling in self.add_var
                    assert(insert_all(m0, Seq::empty()) == m0);
                    return ;
                }
                let var_decl = new_length_decl(&name, is_uninit);
                let ghost first = seq![(name@ + "."@ + "length"@, var_decl@)];
                self.add_length(&name, var_decl);
                proof {
                    lemma_insert_all_one(m0, first[0].0, first[0].1);
                }
                let ghost part = var_entries(
                    name@ + "[..]"@,
                    **elem,
                    Some(name@),
                    VarKindV::Array,
                    remaining_recursive_depth,
                    in_array,
                    None,
                    is_uninit,
                );
                let elem_name = name.project_slice();
                self.add_var(
                    elem_name,
                    &**elem,
                    Some(name),
                    VarKind::Array,
                    remaining_recursive_depth,
                    in_array,
                    None,
                    is_uninit,
                );
                proof {
                    lemma_insert_all_concat(m0, first, part);
                }
            },
            TyShape::StdBox { pointee, .. } => {
                // Box type, if p: Box<T>, include var decls for
                // p: hashcode. <-- record included by add_var
                // *p: T (inline with the enclosing var, in other words
                //        a.b.c.*p could be the full path)
                let pointee_name = name.project_deref();
                self.add_var(
                    pointee_name,
                    &**pointee,
                    Some(name),
                    VarKind::Variable,
                    remaining_recursive_depth,
                    in_array,
                    None,
                    is_uninit,
                );
            },
            _ => {
                assert(insert_all(m0, Seq::empty()) == m0);
            },
        }
    }

    /// Tuples emit a var decl per field.
    fn add_tuple(
        &mut self,
        name: &VarName,
        elems: &Vec<TyShape>,
        depth: Option<usize>,
        in_array: bool,
        const_source: Option<&ConstValue>,
        is_uninit: bool,
    )
        requires
            old(self).variables.wf(),
        ensures
            final(self).variables.wf(),
            final(self).variables@ == insert_all(
                old(self).variables@,
                tuple_entries(
                    name@,
                    *elems,
                    elems@.len(),
                    depth,
                    in_array,
                    opt_src(const_source),
                    is_uninit,
                ),
            ),
            final(self).ppt_type == old(self).ppt_type,
            final(self).parents == old(self).parents,
            final(self).local_def_id == old(self).local_def_id,
        decreases elems, 2nat,
    {
        let ghost m0 = self.variables@;
        let mut i: usize = 0;
        assert(insert_all(m0, Seq::empty()) == m0);
        while i < elems.len()
            invariant
                i <= elems@.len(),
                self.variables.wf(),
                self.variables@ == insert_all(
                    m0,
                    tuple_entries(
                        name@,
                        *elems,
                        i as nat,
                        depth,
                        in_array,
                        opt_src(const_source),
                        is_uninit,
                    ),
                ),
                self.ppt_type == old(self).ppt_type,
                self.parents == old(self).parents,
                self.local_def_id == old(self).local_def_id,
            decreases elems@.len() - i,
        {
            let mut rel = String::new();
            push_decimal(&mut rel, i as u64);
            let child_name = name.project_field(rel.as_str());
            let child_src: Option<&ConstValue> = match const_source {
                Some(c) => c.project_field(i),
                None => None,
            };
            assert(opt_src(child_src) == project(opt_src(const_source), i as int));
            let ghost before = tuple_entries(
                name@,
                *elems,
                i as nat,
                depth,
                in_array,
                opt_src(const_source),
                is_uninit,
            );
            let ghost part = var_entries(
                child_name@,
                elems@[i as int],
                Some(name@),
                VarKindV::Field(rel@),
                depth,
                in_array,
                opt_src(child_src),
                is_uninit,
            );
            self.add_var(
                child_name,
                &elems[i],
                Some(name.copy_name()),
                VarKind::Field(rel),
                depth,
                in_array,
                child_src,
                is_uninit,
            );
            proof {
                lemma_insert_all_concat(m0, before, part);
            }
            i += 1;
            assert(tuple_entries(
                name@,
                *elems,
                i as nat,
                depth,
                in_array,
                opt_src(const_source),
                is_uninit,
            ) == before + part);
        }
    }
}

} // verus!

verus! {

/// The declarations for the formals `0..k`, named `names`, of types `tys`,
/// tagged `UNINITIALIZED` where `uninit` says so.
pub open spec fn inputs_entries(
    names: Seq<String>,
    tys: Seq<TyShape>,
    uninit: Seq<bool>,
    k: nat,
    depth: Option<usize>,
) -> Seq<(Seq<char>, VarDeclV)>
    decreases k,
{
    if k == 0 || k > names.len() || k > tys.len() || k > uninit.len() {
        Seq::empty()
    } else {
        let i = (k - 1) as int;
        inputs_entries(names, tys, uninit, (k - 1) as nat, depth) + var_entries(
            names[i]@,
            tys[i],
            None,
            VarKindV::Variable,
            depth,
            false,
            None,
            uninit[i],
        )
    }
}

/// The declarations for the globals `globals[0..k]` that are visible from the
/// function `def_id`, each with its constant value.
pub open spec fn globals_entries(
    globals: Seq<Global>,
    k: nat,
    def_id: u32,
    depth: Option<usize>,
) -> Seq<(Seq<char>, VarDeclV)>
    decreases k,
{
    if k == 0 || k > globals.len() {
        Seq::empty()
    } else {
        let i = (k - 1) as int;
        let g = globals[i];
        globals_entries(globals, (k - 1) as nat, def_id, depth) + if g.visible_from@.contains(
            def_id,
        ) {
            var_entries(
                g.name@,
                g.ty,
                None,
                VarKindV::Variable,
                depth,
                false,
                g.value,
                false,
            )
        } else {
            Seq::empty()
        }
    }
}

/// The name of a program point: the base name and its kind.
pub open spec fn enter_name(base: Seq<char>) -> Seq<char> {
    base + ":::ENTER"@
}

pub open spec fn exit_name(base: Seq<char>) -> Seq<char> {
    base + ":::EXIT"@
}

pub open spec fn subexit_name(base: Seq<char>, id: u64) -> Seq<char> {
    base + ":::EXIT"@ + dec_digits(id as nat)
}

pub open spec fn empty_ppt(t: ProgramPointType, def_id: u32) -> PptV {
    PptV { ppt_type: t, variables: Seq::empty(), parents: Seq::empty(), def_id: Some(def_id) }
}

impl ProgramPoint {
    /// Construct a new, empty program point of type ENTER
    pub fn enter(name: &str, ldid: u32) -> (r: (String, Self))
        ensures
            r.0@ == enter_name(name@),
            r.1@ == empty_ppt(ProgramPointType::Enter, ldid),
            r.1.wf(),
    {
        let mut n = String::from_str(name);
        n.append(":::ENTER");
        (
            n,
            Self {
                ppt_type: ProgramPointType::Enter,
                variables: StrMap::new(),
                parents: StrMap::new(),
                local_def_id: Some(ldid),
            },
        )
    }

    /// Construct a new, empty program point of type SUBEXIT
    pub fn subexit(name: &str, ldid: u32, id: u64) -> (r: (String, Self))
        ensures
            r.0@ == subexit_name(name@, id),
            r.1@ == empty_ppt(ProgramPointType::ExitNN(id), ldid),
            r.1.wf(),
    {
        let mut n = String::from_str(name);
        n.append(":::EXIT");
        push_decimal(&mut n, id);
        (
            n,
            Self {
                ppt_type: ProgramPointType::ExitNN(id),
                variables: StrMap::new(),
                parents: StrMap::new(),
                local_def_id: Some(ldid),
            },
        )
    }

    /// Construct a new, empty program point of type EXIT
    pub fn exit(name: &str, ldid: u32) -> (r: (String, Self))
        ensures
            r.0@ == exit_name(name@),
            r.1@ == empty_ppt(ProgramPointType::Exit, ldid),
            r.1.wf(),
    {
        let mut n = String::from_str(name);
        n.append(":::EXIT");
        (
            n,
            Self {
                ppt_type: ProgramPointType::Exit,
                variables: StrMap::new(),
                parents: StrMap::new(),
                local_def_id: Some(ldid),
            },
        )
    }

    /// Simple constructor
    pub fn new(
        ppt_type: ProgramPointType,
        variables: StrMap<VariableDecl>,
        parents: StrMap<(ParentRelationType, u64)>,
    ) -> (p: Self)
        requires
            variables.wf(),
            parents.wf(),
        ensures
            p@ == (PptV { ppt_type, variables: variables@, parents: parents@, def_id: None }),
            p.wf(),
    {
        Self { ppt_type, variables, parents, local_def_id: None }
    }

    pub fn get_var(&self, qualified_var_path: &str) -> (r: Option<&VariableDecl>)
        ensures
            match r {
                Some(d) => seq_get(self@.variables, qualified_var_path@) == Some(d@),
                None => seq_get(self@.variables, qualified_var_path@) is None,
            },
    {
        self.variables.get(qualified_var_path)
    }

    pub fn get_var_mut(&mut self, qualified_var_path: &str) -> (r: Option<&mut VariableDecl>)
        requires
            old(self).wf(),
        ensures
            r is Some <==> seq_get(old(self)@.variables, qualified_var_path@) is Some,
            r matches Some(d) ==> seq_get(old(self)@.variables, qualified_var_path@) == Some(
                (*d)@,
            ),
            r matches Some(d) ==> final(self)@ == (PptV {
                variables: seq_insert(
                    old(self)@.variables,
                    qualified_var_path@,
                    (*final(d))@,
                ),
                ..old(self)@
            }),
            r matches Some(d) ==> keys_sorted(
                seq_insert(old(self)@.variables, qualified_var_path@, (*final(d))@),
            ),
            r is None ==> final(self)@ == old(self)@,
            final(self).def_id() == old(self).def_id(),
    {
        self.variables.get_mut(qualified_var_path)
    }

    /// Register the program point with name `parent_ppt` as a parent of
    /// this program point, with the given relation type and id.
    pub fn with_parent(
        self,
        parent_ppt: String,
        relation_type: ParentRelationType,
        relation_id: &mut u64,
    ) -> (p: Self)
        requires
            self.wf(),
            seq_get(self@.parents, parent_ppt@) is None,
            *old(relation_id) < u64::MAX,
        ensures
            p.wf(),
            p@ == (PptV {
                parents: seq_insert(
                    self@.parents,
                    parent_ppt@,
                    (relation_type, *old(relation_id)),
                ),
                ..self@
            }),
            p.def_id() == self.def_id(),
            *final(relation_id) == *old(relation_id) + 1,
    {
        let mut p = self;
        p.parents.insert(parent_ppt, (relation_type, *relation_id));
        *relation_id = *relation_id + 1;
        p
    }

    /// Add the return value (and all recursive values inside the return)
    /// to this program point. If the return type is unit, does nothing.
    pub fn with_fn_return(self, ret_ty: &TyShape, max_recursive_depth: Option<usize>) -> (p: Self)
        requires
            self.wf(),
        ensures
            p.wf(),
            p@ == (PptV {
                variables: if ret_ty.is_unit_spec() {
                    self@.variables
                } else {
                    insert_all(
                        self@.variables,
                        var_entries(
                            "return"@,
                            *ret_ty,
                            None,
                            VarKindV::Return,
                            max_recursive_depth,
                            false,
                            None,
                            false,
                        ),
                    )
                },
                ..self@
            }),
            p.def_id() == self.def_id(),
    {
        if ret_ty.is_unit() {
            return self;
        }
        let mut p = self;
        p.add_var(
            VarName::new(String::from_str(RETURN_VAR_NAME)),
            ret_ty,
            None,
            VarKind::Return,
            max_recursive_depth,
            false,
            None,
            false,
        );
        p
    }

    /// Add all function inputs (formals) to this program point.
    ///
    /// The formal `param_names[i]` has type `input_tys[i]`. When `is_uninit[i]`
    /// is true, the formal (and every recursively-expanded sub-variable) is
    /// tagged with `constant UNINITIALIZED`, signaling that the value has
    /// been dropped/moved-out by this program point.
    pub fn with_fn_inputs(
        self,
        param_names: &[String],
        input_tys: &[TyShape],
        is_uninit: &[bool],
        max_recursive_depth: Option<usize>,
    ) -> (p: Self)
        requires
            self.wf(),
            param_names@.len() == input_tys@.len(),
            param_names@.len() == is_uninit@.len(),
        ensures
            p.wf(),
            p@ == (PptV {
                variables: insert_all(
                    self@.variables,
                    inputs_entries(
                        param_names@,
                        input_tys@,
                        is_uninit@,
                        param_names@.len(),
                        max_recursive_depth,
                    ),
                ),
                ..self@
            }),
    {
        let mut p = self;
        let ghost m0 = p.variables@;
        let mut i: usize = 0;
        assert(insert_all(m0, Seq::empty()) == m0);
        while i < param_names.len()
            invariant
                i <= param_names@.len(),
                param_names@.len() == input_tys@.len(),
                param_names@.len() == is_uninit@.len(),
                p.wf(),
                p.variables@ == insert_all(
                    m0,
                    inputs_entries(
                        param_names@,
                        input_tys@,
                        is_uninit@,
                        i as nat,
                        max_recursive_depth,
                    ),
                ),
                p.ppt_type == self.ppt_type,
                p.parents == self.parents,
                p.local_def_id == self.local_def_id,
            decreases param_names@.len() - i,
        {
            let ghost before = inputs_entries(
                param_names@,
                input_tys@,
                is_uninit@,
                i as nat,
                max_recursive_depth,
            );
            let ghost part = var_entries(
                param_names@[i as int]@,
                input_tys@[i as int],
                None,
                VarKindV::Variable,
                max_recursive_depth,
                false,
                None,
                is_uninit@[i as int],
            );
            p.add_var(
                VarName::new(param_names[i].clone()),
                &input_tys[i],
                None,
                VarKind::Variable,
                max_recursive_depth,
                false,
                None,
                is_uninit[i],
            );
            proof {
                lemma_insert_all_concat(m0, before, part);
            }
            i += 1;
            assert(inputs_entries(
                param_names@,
                input_tys@,
                is_uninit@,
                i as nat,
                max_recursive_depth,
            ) == before + part);
        }
        p
    }

    /// Add var-decls for every entry in `globals` that is visible to this
    /// program point, with their evaluated values.
    pub fn add_globals(&mut self, globals: &[Global], max_recursive_depth: Option<usize>)
        requires
            old(self).wf(),
            old(self).def_id() is Some,
        ensures
            final(self).wf(),
            final(self)@ == (PptV {
                variables: insert_all(
                    old(self)@.variables,
                    globals_entries(
                        globals@,
                        globals@.len(),
                        old(self).def_id()->0,
                        max_recursive_depth,
                    ),
                ),
                ..old(self)@
            }),
            final(self).def_id() == old(self).def_id(),
    {
        let ppt_def_id = match self.local_def_id {
            Some(d) => d,
            None => 0,
        };
        let ghost m0 = self.variables@;
        let mut i: usize = 0;
        assert(insert_all(m0, Seq::empty()) == m0);
        while i < globals.len()
            invariant
                i <= globals@.len(),
                self.wf(),
                self.local_def_id == Some(ppt_def_id),
                self.variables@ == insert_all(
                    m0,
                    globals_entries(globals@, i as nat, ppt_def_id, max_recursive_depth),
                ),
                self.ppt_type == old(self).ppt_type,
                self.parents == old(self).parents,
                self.local_def_id == old(self).local_def_id,
            decreases globals@.len() - i,
        {
            let global = &globals[i];
            let ghost before = globals_entries(globals@, i as nat, ppt_def_id, max_recursive_depth);
            let ghost part = if global.visible_from@.contains(ppt_def_id) {
                var_entries(
                    global.name@,
                    global.ty,
                    None,
                    VarKindV::Variable,
                    max_recursive_depth,
                    false,
                    global.value,
                    false,
                )
            } else {
                Seq::empty()
            };
            // actually check if this global is visible to this ppt
            if contains_id(&global.visible_from, ppt_def_id) {
                let src = global.const_source();
                assert(opt_src(src) == global.value);
                self.add_var(
                    VarName::new(global.name.clone()),
                    &global.ty,
                    None,
                    VarKind::Variable,
                    max_recursive_depth,
                    false,
                    src,
                    false,
                );
            } else {
                assert(insert_all(self.variables@, part) == self.variables@);
            }
            proof {
                lemma_insert_all_concat(m0, before, part);
            }
            i += 1;
            assert(globals_entries(globals@, i as nat, ppt_def_id, max_recursive_depth) == before
                + part);
        }
    }
}

/// Whether `id` is one of `ids`.
pub fn contains_id(ids: &Vec<u32>, id: u32) -> (b: bool)
    ensures
        b == ids@.contains(id),
{
    let mut i: usize = 0;
    while i < ids.len()
        invariant
            i <= ids@.len(),
            forall|j: int| 0 <= j < i ==> ids@[j] != id,
        decreases ids@.len() - i,
    {
        if ids[i] == id {
            return true;
        }
        i += 1;
    }
    false
}

} // verus!

verus! {

/// A `parent` line.
pub open spec fn parent_line(p: (Seq<char>, (ParentRelationType, u64))) -> Seq<char> {
    "parent "@ + relation_text(p.1.0) + " "@ + p.0 + " "@ + dec_digits(p.1.1 as nat)
}

pub open spec fn parent_lines(ps: Seq<(Seq<char>, (ParentRelationType, u64))>) -> Seq<Seq<char>>
    decreases ps.len(),
{
    if ps.len() == 0 {
        Seq::empty()
    } else {
        parent_lines(ps.drop_last()).push(parent_line(ps.last()))
    }
}

/// Each variable: its `variable` line, then the lines of its declaration.
pub open spec fn variable_lines(vs: Seq<(Seq<char>, VarDeclV)>) -> Seq<Seq<char>>
    decreases vs.len(),
{
    if vs.len() == 0 {
        Seq::empty()
    } else {
        variable_lines(vs.drop_last()) + seq!["variable "@ + vs.last().0] + decl_lines(vs.last().1)
    }
}

/// The lines describing the program point `name`, ending with an empty line.
pub open spec fn ppt_lines(name: Seq<char>, p: PptV) -> Seq<Seq<char>> {
    seq!["ppt "@ + name, "ppt-type "@ + ppt_type_text(p.ppt_type)] + parent_lines(p.parents)
        + variable_lines(p.variables) + seq![Seq::<char>::empty()]
}

impl ProgramPoint {
    /// Appends the lines describing this program point under the name `name`.
    pub(crate) fn write_lines(&self, name: &String, out: &mut String, Ghost(ls): Ghost<Seq<Seq<char>>>)
        requires
            old(out)@ == lines_text(ls),
        ensures
            final(out)@ == lines_text(ls + ppt_lines(name@, self@)),
    {
        let ghost mut cur = ls;
        let mut line = String::from_str("ppt ");
        line.append(name.as_str());
        push_line(out, &line, Ghost(cur));
        proof {
            cur = cur.push(line@);
        }
        let mut line = String::from_str("ppt-type ");
        line.append(self.ppt_type.to_string().as_str());
        push_line(out, &line, Ghost(cur));
        proof {
            cur = cur.push(line@);
        }
        let ghost c0 = cur;
        let mut i: usize = 0;
        assert(self.parents@.take(0) =~= Seq::<(Seq<char>, (ParentRelationType, u64))>::empty());
        assert(c0 + parent_lines(Seq::empty()) =~= c0);
        while i < self.parents.len()
            invariant
                i <= self.parents@.len(),
                cur == c0 + parent_lines(self.parents@.take(i as int)),
                out@ == lines_text(cur),
            decreases self.parents@.len() - i,
        {
            let (pname, rel) = self.parents.entry(i);
            let mut line = String::from_str("parent ");
            line.append(rel.0.to_string().as_str());
            line.append(" ");
            line.append(pname.as_str());
            line.append(" ");
            push_decimal(&mut line, rel.1);
            assert(line@ =~= parent_line(self.parents@[i as int]));
            push_line(out, &line, Ghost(cur));
            proof {
                cur = cur.push(line@);
                assert(self.parents@.take(i + 1).drop_last() =~= self.parents@.take(i as int));
            }
            i += 1;
        }
        assert(self.parents@.take(i as int) =~= self.parents@);
        let ghost c1 = cur;
        let mut i: usize = 0;
        assert(self.variables@.take(0) =~= Seq::<(Seq<char>, VarDeclV)>::empty());
        assert(c1 + variable_lines(Seq::empty()) =~= c1);
        while i < self.variables.len()
            invariant
                i <= self.variables@.len(),
                cur == c1 + variable_lines(self.variables@.take(i as int)),
                out@ == lines_text(cur),
            decreases self.variables@.len() - i,
        {
            let (vname, decl) = self.variables.entry(i);
            let mut line = String::from_str("variable ");
            line.append(vname.as_str());
            push_line(out, &line, Ghost(cur));
            proof {
                cur = cur.push(line@);
            }
            decl.write_lines(out, Ghost(cur));
            proof {
                cur = cur + decl_lines(decl@);
                let t = self.variables@.take(i + 1);
                assert(t.drop_last() =~= self.variables@.take(i as int));
                assert(cur =~= c1 + variable_lines(t));
            }
            i += 1;
        }
        assert(self.variables@.take(i as int) =~= self.variables@);
        let line = String::new();
        push_line(out, &line, Ghost(cur));
        proof {
            cur = cur.push(line@);
        }
        assert(cur =~= ls + ppt_lines(name@, self@));
    }
}

} // verus!

verus! {

/// Every declaration of `es` is tagged `UNINITIALIZED` when `uninit` holds and
/// has no constant tag otherwise, and is tagged `array 1` when `in_array` holds.
pub open spec fn entries_tagged(es: Seq<(Seq<char>, VarDeclV)>, in_array: bool, uninit: bool) -> bool {
    forall|i: int|
        #![trigger es[i]]
        0 <= i < es.len() ==> (uninit ==> es[i].1.constant is Uninit) && (!uninit
            ==> es[i].1.constant is Absent) && (in_array ==> es[i].1.array == Some(1u8))
}

proof fn lemma_tagged_concat(
    a: Seq<(Seq<char>, VarDeclV)>,
    b: Seq<(Seq<char>, VarDeclV)>,
    in_array: bool,
    uninit: bool,
)
    requires
        entries_tagged(a, in_array, uninit),
        entries_tagged(b, in_array, uninit),
    ensures
        entries_tagged(a + b, in_array, uninit),
{
    assert forall|i: int| #![trigger (a + b)[i]] 0 <= i < (a + b).len() implies (uninit ==> (a
        + b)[i].1.constant is Uninit) && (!uninit ==> (a + b)[i].1.constant is Absent) && (in_array
        ==> (a + b)[i].1.array == Some(1u8)) by {
        if i < a.len() {
            assert((a + b)[i] == a[i]);
        } else {
            assert((a + b)[i] == b[i - a.len()]);
        }
    }
}

/// A variable without a constant value (a formal, a return value): when it is
/// tagged `UNINITIALIZED`, so is every declaration expanded from it, when it is
/// not, none of them carries a constant tag, and inside a sequence every
/// declaration gets `array 1`.
pub proof fn expanded_declarations_inherit_tags(
    name: Seq<char>,
    ty: TyShape,
    parent: Option<Seq<char>>,
    kind: VarKindV,
    depth: Option<usize>,
    in_array: bool,
    uninit: bool,
)
    ensures
        entries_tagged(
            var_entries(name, ty, parent, kind, depth, in_array, None, uninit),
            in_array || kind is Array,
            uninit,
        ),
    decreases ty, 1nat,
{
    let es = var_entries(name, ty, parent, kind, depth, in_array, None, uninit);
    if depth == Some(0usize) {
    } else {
        match ty {
            TyShape::Ref { pointee, .. } => {
                expanded_declarations_inherit_tags(name, *pointee, parent, kind, depth, in_array, uninit);
            },
            _ => {
                let ia = in_array || kind is Array;
                let d1 = sub_depth(depth);
                let first = seq![(name, node_decl(ty, None, parent, kind, ia, uninit))];
                let len_name = name + "."@ + "length"@;
                let rest = match ty {
                    TyShape::Array { elem, .. } | TyShape::Slice { elem, .. } => if ia {
                        Seq::empty()
                    } else {
                        var_entries(
                            name + "[..]"@,
                            *elem,
                            Some(name),
                            VarKindV::Array,
                            d1,
                            ia,
                            None,
                            uninit,
                        ) + seq![(len_name, length_decl(name, uninit_constant(uninit)))]
                    },
                    TyShape::Tuple { elems, .. } => tuple_entries(name, elems, elems@.len(), d1, ia, None, uninit),
                    TyShape::Struct { fields, .. } => struct_entries(name, fields, fields@.len(), d1, ia, None, uninit),
                    TyShape::Enum { fields, .. } => enum_entries(name, fields, fields@.len(), d1, ia, uninit),
                    TyShape::StdVec { .. } | TyShape::StdBox { .. } => foreign_entries(name, ty, d1, ia, uninit),
                    _ => Seq::empty(),
                };
                assert(es == first + rest);
                assert(entries_tagged(first, ia, uninit));
                match ty {
                    TyShape::Array { elem, .. } | TyShape::Slice { elem, .. } => {
                        if !ia {
                            expanded_declarations_inherit_tags(
                                name + "[..]"@,
                                *elem,
                                Some(name),
                                VarKindV::Array,
                                d1,
                                ia,
                                uninit,
                            );
                            let l = seq![(len_name, length_decl(name, uninit_constant(uninit)))];
                            assert(entries_tagged(l, ia, uninit));
                            lemma_tagged_concat(
                                var_entries(name + "[..]"@, *elem, Some(name), VarKindV::Array, d1, ia, None, uninit),
                                l,
                                ia,
                                uninit,
                            );
                        }
                    },
                    TyShape::Tuple { elems, .. } => {
                        lemma_tuple_tagged(name, elems, elems@.len(), d1, ia, uninit);
                    },
                    TyShape::Struct { fields, .. } => {
                        lemma_struct_tagged(name, fields, fields@.len(), d1, ia, uninit);
                    },
                    TyShape::Enum { fields, .. } => {
                        lemma_enum_tagged(name, fields, fields@.len(), d1, ia, uninit);
                    },
                    TyShape::StdVec { .. } | TyShape::StdBox { .. } => {
                        lemma_foreign_tagged(name, ty, d1, ia, uninit);
                    },
                    _ => {},
                }
                lemma_tagged_concat(first, rest, ia, uninit);
            },
        }
    }
}

proof fn lemma_foreign_tagged(
    name: Seq<char>,
    ty: TyShape,
    depth: Option<usize>,
    in_array: bool,
    uninit: bool,
)
    ensures
        entries_tagged(foreign_entries(name, ty, depth, in_array, uninit), in_array, uninit),
    decreases ty, 0nat,
{
    match ty {
        TyShape::StdVec { elem, .. } => {
            if !in_array {
                let l = seq![(name + "."@ + "length"@, length_decl(name, uninit_constant(uninit)))];
                expanded_declarations_inherit_tags(
                    name + "[..]"@,
                    *elem,
                    Some(name),
                    VarKindV::Array,
                    depth,
                    in_array,
                    uninit,
                );
                lemma_tagged_concat(
                    l,
                    var_entries(name + "[..]"@, *elem, Some(name), VarKindV::Array, depth, in_array, None, uninit),
                    in_array,
                    uninit,
                );
            }
        },
        TyShape::StdBox { pointee, .. } => {
            expanded_declarations_inherit_tags(
                "*"@ + name,
                *pointee,
                Some(name),
                VarKindV::Variable,
                depth,
                in_array,
                uninit,
            );
        },
        _ => {},
    }
}

proof fn lemma_tuple_tagged(
    name: Seq<char>,
    elems: Vec<TyShape>,
    k: nat,
    depth: Option<usize>,
    in_array: bool,
    uninit: bool,
)
    ensures
        entries_tagged(tuple_entries(name, elems, k, depth, in_array, None, uninit), in_array, uninit),
    decreases elems, k,
{
    if k == 0 || k > elems@.len() {
    } else {
        let i = (k - 1) as nat;
        lemma_tuple_tagged(name, elems, i, depth, in_array, uninit);
        expanded_declarations_inherit_tags(
            name + "."@ + dec_digits(i),
            elems@[i as int],
            Some(name),
            VarKindV::Field(dec_digits(i)),
            depth,
            in_array,
            uninit,
        );
        assert(project(None, i as int) is None);
        lemma_tagged_concat(
            tuple_entries(name, elems, i, depth, in_array, None, uninit),
            var_entries(
                name + "."@ + dec_digits(i),
                elems@[i as int],
                Some(name),
                VarKindV::Field(dec_digits(i)),
                depth,
                in_array,
                None,
                uninit,
            ),
            in_array,
            uninit,
        );
    }
}

proof fn lemma_struct_tagged(
    name: Seq<char>,
    fields: Vec<FieldShape>,
    k: nat,
    depth: Option<usize>,
    in_array: bool,
    uninit: bool,
)
    ensures
        entries_tagged(struct_entries(name, fields, k, depth, in_array, None, uninit), in_array, uninit),
    decreases fields, k,
{
    if k == 0 || k > fields@.len() {
    } else {
        let i = (k - 1) as nat;
        let f = fields@[i as int];
        lemma_struct_tagged(name, fields, i, depth, in_array, uninit);
        expanded_declarations_inherit_tags(
            name + "."@ + f.name@,
            f.ty,
            Some(name),
            VarKindV::Field(f.name@),
            depth,
            in_array,
            uninit,
        );
        lemma_tagged_concat(
            struct_entries(name, fields, i, depth, in_array, None, uninit),
            var_entries(name + "."@ + f.name@, f.ty, Some(name), VarKindV::Field(f.name@), depth, in_array, None, uninit),
            in_array,
            uninit,
        );
    }
}

proof fn lemma_enum_tagged(
    name: Seq<char>,
    fields: Vec<VariantField>,
    k: nat,
    depth: Option<usize>,
    in_array: bool,
    uninit: bool,
)
    ensures
        entries_tagged(enum_entries(name, fields, k, depth, in_array, uninit), in_array, uninit),
    decreases fields, k,
{
    if k == 0 || k > fields@.len() {
    } else {
        let i = (k - 1) as nat;
        let f = fields@[i as int];
        lemma_enum_tagged(name, fields, i, depth, in_array, uninit);
        let n = name + "::"@ + f.variant@ + "."@ + f.field@;
        let kd = VarKindV::Field(f.variant@ + "."@ + f.field@);
        expanded_declarations_inherit_tags(n, f.ty, Some(name), kd, depth, in_array, uninit);
        lemma_tagged_concat(
            enum_entries(name, fields, i, depth, in_array, uninit),
            var_entries(n, f.ty, Some(name), kd, depth, in_array, None, uninit),
            in_array,
            uninit,
        );
    }
}

/// The type under all the references of `ty`.
pub open spec fn peel_refs(ty: TyShape) -> TyShape
    decreases ty,
{
    match ty {
        TyShape::Ref { pointee, .. } => peel_refs(*pointee),
        _ => ty,
    }
}

/// A variable without a constant value whose type is a reference (or a stack
/// of references) is declared exactly as a variable of the type referred to:
/// the same declarations, the first with that type's dec-type.
pub proof fn references_are_peeled(
    name: Seq<char>,
    ty: TyShape,
    parent: Option<Seq<char>>,
    kind: VarKindV,
    depth: Option<usize>,
    in_array: bool,
    uninit: bool,
)
    ensures
        !(peel_refs(ty) is Ref),
        var_entries(name, ty, parent, kind, depth, in_array, None, uninit) == var_entries(
            name,
            peel_refs(ty),
            parent,
            kind,
            depth,
            in_array,
            None,
            uninit,
        ),
        depth != Some(0usize) ==> var_entries(name, ty, parent, kind, depth, in_array, None, uninit).len() > 0
            && var_entries(name, ty, parent, kind, depth, in_array, None, uninit)[0] == (
            name,
            node_decl(peel_refs(ty), None, parent, kind, in_array || kind is Array, uninit),
        ),
        node_decl(peel_refs(ty), None, parent, kind, in_array || kind is Array, uninit).dec_type
            == dec_type_of(peel_refs(ty)),
    decreases ty,
{
    match ty {
        TyShape::Ref { pointee, .. } => {
            references_are_peeled(name, *pointee, parent, kind, depth, in_array, uninit);
        },
        _ => {},
    }
}

} // verus!
