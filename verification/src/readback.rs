use vstd::prelude::*;

use crate::decls::{decls_lines, header_lines, ppts_lines};
use crate::fields::{
    comparability_text, constant_from, constant_text, dec_type_from, dec_type_text, decl_lines,
    lines_text, ppt_type_text, relation_text, rep_base_text, rep_type_text, var_kind_text,
    ConstantV, DecTypeV, ParentRelationType, ProgramPointType, VarDeclV, VarKindV,
};
use crate::parse::{
    parse_decls_text, skip_header, after_last, clean_all, clean_lines, decl_of, ends_fields, find_space, finish, finish_ppt,
    lemma_split_nl_len, missing, no_fields, parent_of, parse_lines, ppt_type_of, read_field,
    relation_of, run, split3, split_nl, split_space, step, top_step, var_kind_of, vars_step,
    FieldsV, Outcome, St, Step,
};
use crate::ppt::{parent_line, parent_lines, variable_lines, PptV};
use crate::order::seq_lt;
use crate::strmap::{keys_sorted, lemma_insert_at, seq_insert};
use crate::text::{
    all_digits, dec_digits, digits_value, is_digit, is_ws, lemma_dec_digits, parse_i64,
    parse_unsigned, starts_with, strip_prefix, trim_end, trim_start,
};

verus! {

// ---------------------------------------------------------------------------
// From text back to lines
// ---------------------------------------------------------------------------

/// `s` holds no newline.
pub open spec fn one_line(s: Seq<char>) -> bool {
    forall|i: int| 0 <= i < s.len() ==> #[trigger] s[i] != '\n'
}

/// `s` is one nonempty line that trimming leaves as it is.
pub open spec fn kept(s: Seq<char>) -> bool {
    &&& one_line(s)
    &&& s.len() > 0
    &&& !is_ws(s.last())
}

pub proof fn lemma_one_line_concat(a: Seq<char>, b: Seq<char>)
    requires
        one_line(a),
        one_line(b),
    ensures
        one_line(a + b),
{
    assert forall|i: int| 0 <= i < (a + b).len() implies #[trigger] (a + b)[i] != '\n' by {
        if i < a.len() {
            assert((a + b)[i] == a[i]);
        } else {
            assert((a + b)[i] == b[i - a.len()]);
        }
    }
}

pub proof fn lemma_kept_concat(a: Seq<char>, b: Seq<char>)
    requires
        one_line(a),
        kept(b),
    ensures
        kept(a + b),
{
    lemma_one_line_concat(a, b);
    assert((a + b).last() == b.last());
}

proof fn lemma_split_append(s: Seq<char>, x: Seq<char>)
    requires
        one_line(x),
    ensures
        split_nl(s + x) == split_nl(s).update(
            split_nl(s).len() - 1,
            split_nl(s).last() + x,
        ),
    decreases x.len(),
{
    lemma_split_nl_len(s);
    let r = split_nl(s);
    if x.len() == 0 {
        assert(s + x =~= s);
        assert(r.last() + x =~= r.last());
        assert(r.update(r.len() - 1, r.last()) =~= r);
    } else {
        let x1 = x.drop_last();
        assert(one_line(x1)) by {
            assert forall|i: int| 0 <= i < x1.len() implies #[trigger] x1[i] != '\n' by {
                assert(x1[i] == x[i]);
            }
        }
        lemma_split_append(s, x1);
        assert((s + x).drop_last() =~= s + x1);
        assert((s + x).last() == x[x.len() - 1]);
        let r1 = split_nl(s + x1);
        lemma_split_nl_len(s + x1);
        assert(r1.last() == r.last() + x1);
        assert((r.last() + x1).push(x.last()) =~= r.last() + x);
        assert(r1.update(r1.len() - 1, r1.last().push(x.last())) =~= r.update(
            r.len() - 1,
            r.last() + x,
        ));
    }
}

/// Text made of lines splits back into those lines, and an empty piece after
/// the last newline.
pub proof fn lemma_split_lines_text(ls: Seq<Seq<char>>)
    requires
        forall|i: int| 0 <= i < ls.len() ==> one_line(#[trigger] ls[i]),
    ensures
        split_nl(lines_text(ls)) == ls.push(Seq::empty()),
    decreases ls.len(),
{
    if ls.len() == 0 {
        assert(split_nl(Seq::<char>::empty()) =~= seq![Seq::<char>::empty()]);
        assert(ls.push(Seq::empty()) =~= seq![Seq::<char>::empty()]);
    } else {
        let ls1 = ls.drop_last();
        assert forall|i: int| 0 <= i < ls1.len() implies one_line(#[trigger] ls1[i]) by {
            assert(ls1[i] == ls[i]);
        }
        lemma_split_lines_text(ls1);
        let t = lines_text(ls1);
        let x = ls.last();
        assert(one_line(ls[ls.len() - 1]));
        lemma_split_append(t, x);
        assert(ls1.push(Seq::empty()).update(ls1.len() as int, Seq::<char>::empty() + x) =~= ls1.push(
            x,
        ));
        assert(ls1.push(x) =~= ls);
        let tx = t + x;
        assert(lines_text(ls) == tx + seq!['\n']);
        assert((tx + seq!['\n']).drop_last() =~= tx);
        assert((tx + seq!['\n']).last() == '\n');
    }
}

pub proof fn lemma_clean_all_concat(a: Seq<Seq<char>>, b: Seq<Seq<char>>)
    ensures
        clean_all(a + b) == clean_all(a) + clean_all(b),
    decreases b.len(),
{
    if b.len() == 0 {
        assert(a + b =~= a);
        assert(clean_all(a) + clean_all(b) =~= clean_all(a));
    } else {
        lemma_clean_all_concat(a, b.drop_last());
        assert((a + b).drop_last() =~= a + b.drop_last());
        assert((a + b).last() == b.last());
        let t = trim_end(b.last());
        if t.len() > 0 {
            assert(clean_all(a) + clean_all(b.drop_last()).push(t) =~= (clean_all(a) + clean_all(
                b.drop_last(),
            )).push(t));
        }
    }
}

/// Lines that trimming leaves as they are come through cleaning unchanged.
pub proof fn lemma_clean_kept(ls: Seq<Seq<char>>)
    requires
        forall|i: int| 0 <= i < ls.len() ==> kept(#[trigger] ls[i]),
    ensures
        clean_all(ls) == ls,
    decreases ls.len(),
{
    if ls.len() > 0 {
        let ls1 = ls.drop_last();
        assert forall|i: int| 0 <= i < ls1.len() implies kept(#[trigger] ls1[i]) by {
            assert(ls1[i] == ls[i]);
        }
        lemma_clean_kept(ls1);
        assert(kept(ls[ls.len() - 1]));
        assert(trim_end(ls.last()) == ls.last());
        assert(ls1.push(ls.last()) =~= ls);
    }
}

pub proof fn lemma_clean_empty_line()
    ensures
        clean_all(seq![Seq::<char>::empty()]) == Seq::<Seq<char>>::empty(),
{
    let e = seq![Seq::<char>::empty()];
    assert(e.drop_last() =~= Seq::<Seq<char>>::empty());
    assert(clean_all(e.drop_last()) == Seq::<Seq<char>>::empty());
    assert(trim_end(e.last()) =~= Seq::<char>::empty());
    assert(trim_end(e.last()).len() == 0);
}

// ---------------------------------------------------------------------------
// What a declaration file must hold to be read back as written
// ---------------------------------------------------------------------------

/// A relative name in a variable kind is written at the end of its line.
pub open spec fn printable_kind(k: VarKindV) -> bool {
    match k {
        VarKindV::Field(r) => kept(r),
        VarKindV::Function(r) => kept(r),
        _ => true,
    }
}

/// A declared type reads back from its name: `String` is written as
/// `std::string::String`, which reads back as a compound type, and a compound
/// type must not bear the name of a primitive.
pub open spec fn printable_dec_type(d: DecTypeV) -> bool {
    &&& !(d is String)
    &&& (d matches DecTypeV::Compound(s) ==> kept(s) && dec_type_from(s) == d)
}

/// A constant reads back from its text.
pub open spec fn printable_constant(c: ConstantV) -> bool {
    ||| c is Absent
    ||| c is Uninit
    ||| kept(constant_text(c)) && constant_from(constant_text(c)) == c
}

pub open spec fn printable_decl(v: VarDeclV) -> bool {
    &&& printable_kind(v.var_kind)
    &&& printable_dec_type(v.dec_type)
    &&& (v.enclosing_var matches Some(e) ==> kept(e))
    &&& printable_constant(v.constant)
    &&& (v.comparability matches Some(c) ==> c <= i64::MAX)
}

/// A parent is named without blanks or newlines.
pub open spec fn printable_parent_name(n: Seq<char>) -> bool {
    &&& one_line(n)
    &&& forall|i: int| 0 <= i < n.len() ==> #[trigger] n[i] != ' '
}

/// A program point that is read back as written: its name is one line without
/// trailing blanks and, for a subexit, ends in `:::EXIT` and its number; its
/// parents and variables are in name order and printable.
pub open spec fn printable_ppt(name: Seq<char>, p: PptV) -> bool {
    &&& kept(name)
    &&& (p.ppt_type matches ProgramPointType::ExitNN(id) ==> (after_last(name, ":::EXIT"@) matches Some(
        sfx,
    ) && parse_unsigned(sfx, u64::MAX as nat) == Some(id as nat)))
    &&& keys_sorted(p.parents)
    &&& keys_sorted(p.variables)
    &&& forall|i: int| 0 <= i < p.parents.len() ==> printable_parent_name(#[trigger] p.parents[i].0)
    &&& forall|i: int|
        #![trigger p.variables[i]]
        0 <= i < p.variables.len() ==> kept(p.variables[i].0) && printable_decl(p.variables[i].1)
}

pub open spec fn printable(d: Seq<(Seq<char>, PptV)>) -> bool {
    &&& keys_sorted(d)
    &&& forall|i: int| 0 <= i < d.len() ==> printable_ppt(#[trigger] d[i].0, d[i].1)
}

/// The program points as read back: what was written, without the functions
/// they belong to, which the file does not record.
pub open spec fn without_owners(d: Seq<(Seq<char>, PptV)>) -> Seq<(Seq<char>, PptV)> {
    d.map_values(|e: (Seq<char>, PptV)| (e.0, PptV { def_id: None, ..e.1 }))
}

// ---------------------------------------------------------------------------
// The lines that reading sees
// ---------------------------------------------------------------------------

/// The lines of a program point that survive cleaning.
pub open spec fn block_lines(name: Seq<char>, p: PptV) -> Seq<Seq<char>> {
    seq!["ppt "@ + name, "ppt-type "@ + ppt_type_text(p.ppt_type)] + parent_lines(p.parents)
        + variable_lines(p.variables)
}

pub open spec fn blocks(d: Seq<(Seq<char>, PptV)>) -> Seq<Seq<char>>
    decreases d.len(),
{
    if d.len() == 0 {
        Seq::empty()
    } else {
        blocks(d.drop_last()) + block_lines(d.last().0, d.last().1)
    }
}

pub open spec fn header_read() -> Seq<Seq<char>> {
    seq!["decl-version 2.0"@, "input-language rust"@, "var-comparability implicit"@]
}

pub open spec fn all_kept(ls: Seq<Seq<char>>) -> bool {
    forall|i: int| 0 <= i < ls.len() ==> kept(#[trigger] ls[i])
}

proof fn lemma_all_kept_concat(a: Seq<Seq<char>>, b: Seq<Seq<char>>)
    requires
        all_kept(a),
        all_kept(b),
    ensures
        all_kept(a + b),
{
    assert forall|i: int| 0 <= i < (a + b).len() implies kept(#[trigger] (a + b)[i]) by {
        if i < a.len() {
            assert((a + b)[i] == a[i]);
        } else {
            assert((a + b)[i] == b[i - a.len()]);
        }
    }
}

proof fn lemma_digits_kept(n: nat)
    ensures
        kept(dec_digits(n)),
{
    lemma_dec_digits(n);
    let s = dec_digits(n);
    assert forall|i: int| 0 <= i < s.len() implies #[trigger] s[i] != '\n' by {
        assert(crate::text::is_digit(s[i]));
    }
}

proof fn lemma_decl_lines_kept(v: VarDeclV)
    requires
        printable_decl(v),
    ensures
        all_kept(decl_lines(v)),
{
    reveal_strlit("  var-kind ");
    reveal_strlit("variable");
    reveal_strlit("field ");
    reveal_strlit("array");
    reveal_strlit("return");
    reveal_strlit("function ");
    reveal_strlit("  dec-type ");
    reveal_strlit("  rep-type ");
    reveal_strlit("  enclosing-var ");
    reveal_strlit("  array ");
    reveal_strlit("  constant ");
    reveal_strlit("UNINITIALIZED");
    reveal_strlit("  comparability ");
    reveal_strlit("-1");
    reveal_strlit("[]");
    assert(kept(var_kind_text(v.var_kind))) by {
        match v.var_kind {
            VarKindV::Field(r) => lemma_kept_concat("field "@, r),
            VarKindV::Function(r) => lemma_kept_concat("function "@, r),
            _ => {},
        }
    }
    assert(kept(dec_type_text(v.dec_type))) by {
        lemma_dec_type_text_kept(v.dec_type);
    }
    assert(kept(rep_type_text(v.dec_type, v.array))) by {
        lemma_rep_base_kept(v.dec_type);
        if v.array matches Some(a) && a > 0 {
            lemma_kept_concat(rep_base_text(v.dec_type), "[]"@);
        } else {
            assert(rep_type_text(v.dec_type, v.array) =~= rep_base_text(v.dec_type));
        }
    }
    assert(kept(comparability_text(v.comparability))) by {
        if let Some(c) = v.comparability {
            lemma_digits_kept(c as nat);
        }
    }
    let l0 = "  var-kind "@ + var_kind_text(v.var_kind);
    let l1 = "  dec-type "@ + dec_type_text(v.dec_type);
    let l2 = "  rep-type "@ + rep_type_text(v.dec_type, v.array);
    lemma_kept_concat("  var-kind "@, var_kind_text(v.var_kind));
    lemma_kept_concat("  dec-type "@, dec_type_text(v.dec_type));
    lemma_kept_concat("  rep-type "@, rep_type_text(v.dec_type, v.array));
    let a = seq![l0, l1, l2];
    assert(all_kept(a));
    let b = match v.enclosing_var {
        Some(e) => seq!["  enclosing-var "@ + e],
        None => Seq::<Seq<char>>::empty(),
    };
    assert(all_kept(b)) by {
        if let Some(e) = v.enclosing_var {
            lemma_kept_concat("  enclosing-var "@, e);
        }
    }
    let c = match v.array {
        Some(x) => seq!["  array "@ + dec_digits(x as nat)],
        None => Seq::<Seq<char>>::empty(),
    };
    assert(all_kept(c)) by {
        if let Some(x) = v.array {
            lemma_digits_kept(x as nat);
            lemma_kept_concat("  array "@, dec_digits(x as nat));
        }
    }
    let e = if v.constant is Absent {
        Seq::<Seq<char>>::empty()
    } else {
        seq!["  constant "@ + constant_text(v.constant)]
    };
    assert(all_kept(e)) by {
        if !(v.constant is Absent) {
            lemma_kept_concat("  constant "@, constant_text(v.constant));
        }
    }
    let f = seq!["  comparability "@ + comparability_text(v.comparability)];
    assert(all_kept(f)) by {
        lemma_kept_concat("  comparability "@, comparability_text(v.comparability));
    }
    lemma_all_kept_concat(a, b);
    lemma_all_kept_concat(a + b, c);
    lemma_all_kept_concat(a + b + c, e);
    lemma_all_kept_concat(a + b + c + e, f);
    assert(decl_lines(v) == a + b + c + e + f);
}

proof fn lemma_dec_type_text_kept(d: DecTypeV)
    requires
        printable_dec_type(d),
    ensures
        kept(dec_type_text(d)),
{
    match d {
        DecTypeV::U8 => reveal_strlit("u8"),
        DecTypeV::U16 => reveal_strlit("u16"),
        DecTypeV::U32 => reveal_strlit("u32"),
        DecTypeV::U64 => reveal_strlit("u64"),
        DecTypeV::U128 => reveal_strlit("u128"),
        DecTypeV::Usize => reveal_strlit("usize"),
        DecTypeV::I8 => reveal_strlit("i8"),
        DecTypeV::I16 => reveal_strlit("i16"),
        DecTypeV::I32 => reveal_strlit("i32"),
        DecTypeV::I64 => reveal_strlit("i64"),
        DecTypeV::I128 => reveal_strlit("i128"),
        DecTypeV::Isize => reveal_strlit("isize"),
        DecTypeV::F16 => reveal_strlit("f16"),
        DecTypeV::F32 => reveal_strlit("f32"),
        DecTypeV::F64 => reveal_strlit("f64"),
        DecTypeV::F128 => reveal_strlit("f128"),
        DecTypeV::Bool => reveal_strlit("bool"),
        DecTypeV::Char => reveal_strlit("char"),
        DecTypeV::Str => reveal_strlit("str"),
        DecTypeV::String => {},
        DecTypeV::Compound(_) => {},
    }
}

proof fn lemma_rep_base_kept(d: DecTypeV)
    ensures
        kept(rep_base_text(d)),
{
    reveal_strlit("int");
    reveal_strlit("double");
    reveal_strlit("boolean");
    reveal_strlit("java.lang.String");
    reveal_strlit("hashcode");
}

proof fn lemma_parent_line_kept(p: (Seq<char>, (ParentRelationType, u64)))
    requires
        printable_parent_name(p.0),
    ensures
        kept(parent_line(p)),
{
    reveal_strlit("parent ");
    reveal_strlit(" ");
    reveal_strlit("parent");
    reveal_strlit("enter-exit");
    reveal_strlit("exit-exitnn");
    lemma_digits_kept(p.1.1 as nat);
    let a = "parent "@ + relation_text(p.1.0);
    lemma_one_line_concat("parent "@, relation_text(p.1.0));
    lemma_one_line_concat(a, " "@);
    lemma_one_line_concat(a + " "@, p.0);
    lemma_one_line_concat(a + " "@ + p.0, " "@);
    lemma_kept_concat(a + " "@ + p.0 + " "@, dec_digits(p.1.1 as nat));
}

proof fn lemma_parent_lines_kept(ps: Seq<(Seq<char>, (ParentRelationType, u64))>)
    requires
        forall|i: int| 0 <= i < ps.len() ==> printable_parent_name(#[trigger] ps[i].0),
    ensures
        all_kept(parent_lines(ps)),
    decreases ps.len(),
{
    if ps.len() > 0 {
        let ps1 = ps.drop_last();
        assert forall|i: int| 0 <= i < ps1.len() implies printable_parent_name(#[trigger] ps1[i].0) by {
            assert(ps1[i] == ps[i]);
        }
        lemma_parent_lines_kept(ps1);
        assert(printable_parent_name(ps[ps.len() - 1].0));
        lemma_parent_line_kept(ps.last());
        let l = parent_lines(ps);
        assert forall|i: int| 0 <= i < l.len() implies kept(#[trigger] l[i]) by {
            if i < l.len() - 1 {
                assert(l[i] == parent_lines(ps1)[i]);
            }
        }
    }
}

proof fn lemma_variable_lines_kept(vs: Seq<(Seq<char>, VarDeclV)>)
    requires
        forall|i: int|
            #![trigger vs[i]]
            0 <= i < vs.len() ==> kept(vs[i].0) && printable_decl(vs[i].1),
    ensures
        all_kept(variable_lines(vs)),
    decreases vs.len(),
{
    if vs.len() > 0 {
        let vs1 = vs.drop_last();
        assert forall|i: int| #![trigger vs1[i]] 0 <= i < vs1.len() implies kept(vs1[i].0) && printable_decl(
            vs1[i].1,
        ) by {
            assert(vs1[i] == vs[i]);
        }
        lemma_variable_lines_kept(vs1);
        assert(kept(vs[vs.len() - 1].0) && printable_decl(vs[vs.len() - 1].1));
        reveal_strlit("variable ");
        lemma_kept_concat("variable "@, vs.last().0);
        let v = seq!["variable "@ + vs.last().0];
        assert(all_kept(v));
        lemma_decl_lines_kept(vs.last().1);
        lemma_all_kept_concat(variable_lines(vs1), v);
        lemma_all_kept_concat(variable_lines(vs1) + v, decl_lines(vs.last().1));
    }
}

proof fn lemma_block_lines_kept(name: Seq<char>, p: PptV)
    requires
        printable_ppt(name, p),
    ensures
        all_kept(block_lines(name, p)),
{
    reveal_strlit("ppt ");
    reveal_strlit("ppt-type ");
    reveal_strlit("enter");
    reveal_strlit("exit");
    reveal_strlit("subexit");
    lemma_kept_concat("ppt "@, name);
    lemma_kept_concat("ppt-type "@, ppt_type_text(p.ppt_type));
    let a = seq!["ppt "@ + name, "ppt-type "@ + ppt_type_text(p.ppt_type)];
    assert(all_kept(a));
    lemma_parent_lines_kept(p.parents);
    lemma_variable_lines_kept(p.variables);
    lemma_all_kept_concat(a, parent_lines(p.parents));
    lemma_all_kept_concat(a + parent_lines(p.parents), variable_lines(p.variables));
}

/// The lines of a printable declaration file, once cleaned: its three header
/// lines, then each program point's lines without the empty separators.
proof fn lemma_clean_ppts_lines(d: Seq<(Seq<char>, PptV)>)
    requires
        forall|i: int| 0 <= i < d.len() ==> printable_ppt(#[trigger] d[i].0, d[i].1),
    ensures
        clean_all(ppts_lines(d)) == blocks(d),
        forall|i: int| 0 <= i < ppts_lines(d).len() ==> one_line(#[trigger] ppts_lines(d)[i]),
    decreases d.len(),
{
    if d.len() > 0 {
        let d1 = d.drop_last();
        assert forall|i: int| 0 <= i < d1.len() implies printable_ppt(#[trigger] d1[i].0, d1[i].1) by {
            assert(d1[i] == d[i]);
        }
        lemma_clean_ppts_lines(d1);
        assert(printable_ppt(d[d.len() - 1].0, d[d.len() - 1].1));
        let b = block_lines(d.last().0, d.last().1);
        lemma_block_lines_kept(d.last().0, d.last().1);
        let e = seq![Seq::<char>::empty()];
        assert(crate::ppt::ppt_lines(d.last().0, d.last().1) =~= b + e);
        lemma_clean_all_concat(ppts_lines(d1), b + e);
        lemma_clean_all_concat(b, e);
        lemma_clean_kept(b);
        lemma_clean_empty_line();
        assert(b + Seq::<Seq<char>>::empty() =~= b);
        let l = ppts_lines(d);
        assert(l == ppts_lines(d1) + (b + e));
        assert forall|i: int| 0 <= i < l.len() implies one_line(#[trigger] l[i]) by {
            if i < ppts_lines(d1).len() {
                assert(l[i] == ppts_lines(d1)[i]);
            } else if i < ppts_lines(d1).len() + b.len() {
                assert(l[i] == b[i - ppts_lines(d1).len()]);
            } else {
                assert(l[i] == e[0]);
            }
        }
    }
}

/// Reading a written declaration file sees its header, then the lines of each
/// program point.
pub proof fn lemma_clean_written(d: Seq<(Seq<char>, PptV)>)
    requires
        forall|i: int| 0 <= i < d.len() ==> printable_ppt(#[trigger] d[i].0, d[i].1),
    ensures
        clean_lines(lines_text(decls_lines(d))) == header_read() + blocks(d),
{
    lemma_clean_ppts_lines(d);
    reveal_strlit("decl-version 2.0");
    reveal_strlit("input-language rust");
    reveal_strlit("var-comparability implicit");
    let h = header_read();
    let e = seq![Seq::<char>::empty()];
    assert(header_lines() =~= h + e);
    assert(all_kept(h));
    let ls = decls_lines(d);
    assert forall|i: int| 0 <= i < ls.len() implies one_line(#[trigger] ls[i]) by {
        if i < 4 {
            assert(ls[i] == header_lines()[i]);
        } else {
            assert(ls[i] == ppts_lines(d)[i - 4]);
        }
    }
    lemma_split_lines_text(ls);
    assert(ls.push(Seq::empty()) =~= ls + e);
    lemma_clean_all_concat(ls, e);
    lemma_clean_empty_line();
    assert(clean_all(ls) + Seq::<Seq<char>>::empty() =~= clean_all(ls));
    lemma_clean_all_concat(h + e, ppts_lines(d));
    lemma_clean_all_concat(h, e);
    lemma_clean_kept(h);
    assert(h + Seq::<Seq<char>>::empty() =~= h);
}

// ---------------------------------------------------------------------------
// Reading lines back
// ---------------------------------------------------------------------------

proof fn lemma_strip_concat(a: Seq<char>, b: Seq<char>)
    ensures
        starts_with(a + b, a),
        strip_prefix(a + b, a) == Some(b),
{
    assert((a + b).take(a.len() as int) =~= a);
    assert((a + b).skip(a.len() as int) =~= b);
}

proof fn lemma_differs_at(s: Seq<char>, p: Seq<char>, j: int)
    requires
        0 <= j < p.len(),
        j < s.len(),
        s[j] != p[j],
    ensures
        !starts_with(s, p),
        strip_prefix(s, p) is None,
{
    if starts_with(s, p) {
        assert(s.take(p.len() as int)[j] == s[j]);
    }
}

/// A field line is indented by two blanks, which reading drops.
proof fn lemma_indented(full: Seq<char>, key: Seq<char>, x: Seq<char>)
    requires
        full == "  "@ + key,
        key.len() > 0,
        !is_ws(key[0]),
    ensures
        trim_start(full + x) == key + x,
{
    reveal_strlit("  ");
    let s = full + x;
    assert(s[0] == ' ' && s[1] == ' ');
    crate::text::lemma_trim_start_skip(s, 2);
    assert(s.skip(2) =~= key + x);
    assert((key + x)[0] == key[0]);
}

/// The decimal digits of `n` read back as `n`.
proof fn lemma_parse_digits(n: nat, max: nat)
    requires
        n <= max,
    ensures
        parse_unsigned(dec_digits(n), max) == Some(n),
{
    lemma_dec_digits(n);
}

/// The fields of a declaration, as reading its lines collects them.
pub open spec fn fields_of(d: VarDeclV) -> FieldsV {
    FieldsV {
        var_kind: Some(d.var_kind),
        dec_type: Some(d.dec_type),
        enclosing_var: d.enclosing_var,
        array: d.array,
        constant: if d.constant is Absent {
            None
        } else {
            Some(constant_text(d.constant))
        },
        comparability: d.comparability,
    }
}

proof fn lemma_var_kind_of_text(k: VarKindV)
    requires
        printable_kind(k),
    ensures
        var_kind_of(var_kind_text(k)) == Some(k),
{
    reveal_strlit("variable");
    reveal_strlit("array");
    reveal_strlit("return");
    reveal_strlit("field ");
    reveal_strlit("function ");
    match k {
        VarKindV::Variable => {},
        VarKindV::Array => {
            assert(("array"@)[0] != ("variable"@)[0]);
        },
        VarKindV::Return => {
            assert(("return"@)[0] != ("variable"@)[0]);
            assert(("return"@)[0] != ("array"@)[0]);
        },
        VarKindV::Field(r) => {
            let t = "field "@ + r;
            assert(t[0] == 'f');
            assert(t[0] != ("variable"@)[0]);
            assert(t[0] != ("array"@)[0]);
            assert(t[0] != ("return"@)[0]);
            lemma_strip_concat("field "@, r);
        },
        VarKindV::Function(r) => {
            let t = "function "@ + r;
            assert(t[0] == 'f');
            assert(t[0] != ("variable"@)[0]);
            assert(t[0] != ("array"@)[0]);
            assert(t[0] != ("return"@)[0]);
            assert(t[1] != ("field "@)[1]);
            lemma_differs_at(t, "field "@, 1);
            lemma_strip_concat("function "@, r);
        },
    }
}

proof fn lemma_dec_type_from_text(d: DecTypeV)
    requires
        printable_dec_type(d),
    ensures
        dec_type_from(dec_type_text(d)) == d,
{
    reveal_strlit("u8");
    reveal_strlit("u16");
    reveal_strlit("u32");
    reveal_strlit("u64");
    reveal_strlit("u128");
    reveal_strlit("usize");
    reveal_strlit("i8");
    reveal_strlit("i16");
    reveal_strlit("i32");
    reveal_strlit("i64");
    reveal_strlit("i128");
    reveal_strlit("isize");
    reveal_strlit("f16");
    reveal_strlit("f32");
    reveal_strlit("f64");
    reveal_strlit("f128");
    reveal_strlit("bool");
    reveal_strlit("char");
    reveal_strlit("str");
    assert(("u8"@)[0] == 'u' && ("u8"@)[1] == '8');
    assert(("u16"@)[0] == 'u' && ("u16"@)[1] == '1' && ("u16"@)[2] == '6');
    assert(("u32"@)[0] == 'u' && ("u32"@)[1] == '3' && ("u32"@)[2] == '2');
    assert(("u64"@)[0] == 'u' && ("u64"@)[1] == '6' && ("u64"@)[2] == '4');
    assert(("u128"@)[0] == 'u' && ("u128"@)[1] == '1' && ("u128"@)[2] == '2' && ("u128"@)[3] == '8');
    assert(("usize"@)[0] == 'u' && ("usize"@)[1] == 's' && ("usize"@)[2] == 'i' && ("usize"@)[3] == 'z' && ("usize"@)[4] == 'e');
    assert(("i8"@)[0] == 'i' && ("i8"@)[1] == '8');
    assert(("i16"@)[0] == 'i' && ("i16"@)[1] == '1' && ("i16"@)[2] == '6');
    assert(("i32"@)[0] == 'i' && ("i32"@)[1] == '3' && ("i32"@)[2] == '2');
    assert(("i64"@)[0] == 'i' && ("i64"@)[1] == '6' && ("i64"@)[2] == '4');
    assert(("i128"@)[0] == 'i' && ("i128"@)[1] == '1' && ("i128"@)[2] == '2' && ("i128"@)[3] == '8');
    assert(("isize"@)[0] == 'i' && ("isize"@)[1] == 's' && ("isize"@)[2] == 'i' && ("isize"@)[3] == 'z' && ("isize"@)[4] == 'e');
    assert(("f16"@)[0] == 'f' && ("f16"@)[1] == '1' && ("f16"@)[2] == '6');
    assert(("f32"@)[0] == 'f' && ("f32"@)[1] == '3' && ("f32"@)[2] == '2');
    assert(("f64"@)[0] == 'f' && ("f64"@)[1] == '6' && ("f64"@)[2] == '4');
    assert(("f128"@)[0] == 'f' && ("f128"@)[1] == '1' && ("f128"@)[2] == '2' && ("f128"@)[3] == '8');
    assert(("bool"@)[0] == 'b' && ("bool"@)[1] == 'o' && ("bool"@)[2] == 'o' && ("bool"@)[3] == 'l');
    assert(("char"@)[0] == 'c' && ("char"@)[1] == 'h' && ("char"@)[2] == 'a' && ("char"@)[3] == 'r');
    assert(("str"@)[0] == 's' && ("str"@)[1] == 't' && ("str"@)[2] == 'r');
}

/// Whether a field line is not taken for the start of the next block.
proof fn lemma_not_end(key: Seq<char>, x: Seq<char>, j1: int, j2: int, j3: int)
    requires
        0 <= j1 < 4 && j1 < key.len() && key[j1] != ("ppt "@)[j1],
        0 <= j2 < 9 && j2 < key.len() && key[j2] != ("variable "@)[j2],
        0 <= j3 < 7 && j3 < key.len() && key[j3] != ("parent "@)[j3],
    ensures
        !ends_fields(key + x),
{
    reveal_strlit("ppt ");
    reveal_strlit("variable ");
    reveal_strlit("parent ");
    let t = key + x;
    assert(t[j1] == key[j1] && t[j2] == key[j2] && t[j3] == key[j3]);
    lemma_differs_at(t, "ppt "@, j1);
    lemma_differs_at(t, "variable "@, j2);
    lemma_differs_at(t, "parent "@, j3);
}

/// The text of a field line of a declaration, without its indentation, is
/// read only by the test for its own key.
proof fn lemma_key_line(k: int, x: Seq<char>)
    requires
        0 <= k < 7,
    ensures
        !ends_fields(field_key(k) + x),
        trim_start(field_line_prefix(k) + x) == field_key(k) + x,
        strip_prefix(field_key(k) + x, field_key(k)) == Some(x),
        forall|j: int| 0 <= j < k ==> strip_prefix(field_key(k) + x, #[trigger] field_key(j)) is None,
{
    let t = field_key(k) + x;
    lemma_strip_concat(field_key(k), x);
    reveal_strlit("ppt ");
    reveal_strlit("variable ");
    reveal_strlit("parent ");
    if k == 0 {
        reveal_strlit("var-kind ");
        reveal_strlit("  var-kind ");
        reveal_strlit("  ");
        assert(field_line_prefix(k) =~= "  "@ + field_key(k));
        lemma_indented(field_line_prefix(k), field_key(k), x);
        lemma_not_end(field_key(k), x, 0, 3, 0);
    }
    if k == 1 {
        reveal_strlit("dec-type ");
        reveal_strlit("  dec-type ");
        reveal_strlit("  ");
        assert(field_line_prefix(k) =~= "  "@ + field_key(k));
        lemma_indented(field_line_prefix(k), field_key(k), x);
        lemma_not_end(field_key(k), x, 0, 0, 0);
        reveal_strlit("var-kind ");
        assert(t[0] == field_key(k)[0]);
        lemma_differs_at(t, field_key(0), 0);
    }
    if k == 2 {
        reveal_strlit("rep-type ");
        reveal_strlit("  rep-type ");
        reveal_strlit("  ");
        assert(field_line_prefix(k) =~= "  "@ + field_key(k));
        lemma_indented(field_line_prefix(k), field_key(k), x);
        lemma_not_end(field_key(k), x, 0, 0, 0);
        reveal_strlit("var-kind ");
        assert(t[0] == field_key(k)[0]);
        lemma_differs_at(t, field_key(0), 0);
        reveal_strlit("dec-type ");
        assert(t[0] == field_key(k)[0]);
        lemma_differs_at(t, field_key(1), 0);
    }
    if k == 3 {
        reveal_strlit("enclosing-var ");
        reveal_strlit("  enclosing-var ");
        reveal_strlit("  ");
        assert(field_line_prefix(k) =~= "  "@ + field_key(k));
        lemma_indented(field_line_prefix(k), field_key(k), x);
        lemma_not_end(field_key(k), x, 0, 0, 0);
        reveal_strlit("var-kind ");
        assert(t[0] == field_key(k)[0]);
        lemma_differs_at(t, field_key(0), 0);
        reveal_strlit("dec-type ");
        assert(t[0] == field_key(k)[0]);
        lemma_differs_at(t, field_key(1), 0);
        reveal_strlit("rep-type ");
        assert(t[0] == field_key(k)[0]);
        lemma_differs_at(t, field_key(2), 0);
    }
    if k == 4 {
        reveal_strlit("array ");
        reveal_strlit("  array ");
        reveal_strlit("  ");
        assert(field_line_prefix(k) =~= "  "@ + field_key(k));
        lemma_indented(field_line_prefix(k), field_key(k), x);
        lemma_not_end(field_key(k), x, 0, 0, 0);
        reveal_strlit("var-kind ");
        assert(t[0] == field_key(k)[0]);
        lemma_differs_at(t, field_key(0), 0);
        reveal_strlit("dec-type ");
        assert(t[0] == field_key(k)[0]);
        lemma_differs_at(t, field_key(1), 0);
        reveal_strlit("rep-type ");
        assert(t[0] == field_key(k)[0]);
        lemma_differs_at(t, field_key(2), 0);
        reveal_strlit("enclosing-var ");
        assert(t[0] == field_key(k)[0]);
        lemma_differs_at(t, field_key(3), 0);
    }
    if k == 5 {
        reveal_strlit("constant ");
        reveal_strlit("  constant ");
        reveal_strlit("  ");
        assert(field_line_prefix(k) =~= "  "@ + field_key(k));
        lemma_indented(field_line_prefix(k), field_key(k), x);
        lemma_not_end(field_key(k), x, 0, 0, 0);
        reveal_strlit("var-kind ");
        assert(t[0] == field_key(k)[0]);
        lemma_differs_at(t, field_key(0), 0);
        reveal_strlit("dec-type ");
        assert(t[0] == field_key(k)[0]);
        lemma_differs_at(t, field_key(1), 0);
        reveal_strlit("rep-type ");
        assert(t[0] == field_key(k)[0]);
        lemma_differs_at(t, field_key(2), 0);
        reveal_strlit("enclosing-var ");
        assert(t[0] == field_key(k)[0]);
        lemma_differs_at(t, field_key(3), 0);
        reveal_strlit("array ");
        assert(t[0] == field_key(k)[0]);
        lemma_differs_at(t, field_key(4), 0);
    }
    if k == 6 {
        reveal_strlit("comparability ");
        reveal_strlit("  comparability ");
        reveal_strlit("  ");
        assert(field_line_prefix(k) =~= "  "@ + field_key(k));
        lemma_indented(field_line_prefix(k), field_key(k), x);
        lemma_not_end(field_key(k), x, 0, 0, 0);
        reveal_strlit("var-kind ");
        assert(t[0] == field_key(k)[0]);
        lemma_differs_at(t, field_key(0), 0);
        reveal_strlit("dec-type ");
        assert(t[0] == field_key(k)[0]);
        lemma_differs_at(t, field_key(1), 0);
        reveal_strlit("rep-type ");
        assert(t[0] == field_key(k)[0]);
        lemma_differs_at(t, field_key(2), 0);
        reveal_strlit("enclosing-var ");
        assert(t[0] == field_key(k)[0]);
        lemma_differs_at(t, field_key(3), 0);
        reveal_strlit("array ");
        assert(t[0] == field_key(k)[0]);
        lemma_differs_at(t, field_key(4), 0);
        reveal_strlit("constant ");
        assert(t[2] == field_key(k)[2]);
        lemma_differs_at(t, field_key(5), 2);
    }
}

/// The key of the `k`-th kind of field line.
pub open spec fn field_key(k: int) -> Seq<char> {
    if k == 0 {
        "var-kind "@
    } else     if k == 1 {
        "dec-type "@
    } else     if k == 2 {
        "rep-type "@
    } else     if k == 3 {
        "enclosing-var "@
    } else     if k == 4 {
        "array "@
    } else     if k == 5 {
        "constant "@
    } else {
        "comparability "@
    }
}

/// The start of the `k`-th kind of field line, with its indentation.
pub open spec fn field_line_prefix(k: int) -> Seq<char> {
    if k == 0 {
        "  var-kind "@
    } else     if k == 1 {
        "  dec-type "@
    } else     if k == 2 {
        "  rep-type "@
    } else     if k == 3 {
        "  enclosing-var "@
    } else     if k == 4 {
        "  array "@
    } else     if k == 5 {
        "  constant "@
    } else {
        "  comparability "@
    }
}

proof fn lemma_read_field_line(f: FieldsV, k: int, x: Seq<char>)
    requires
        0 <= k < 7,
    ensures
        read_field(f, field_key(k) + x) == if k == 0 {
            match var_kind_of(x) {
                Some(kind) => Some(FieldsV { var_kind: Some(kind), ..f }),
                None => None,
            }
        } else if k == 1 {
            Some(FieldsV { dec_type: Some(dec_type_from(x)), ..f })
        } else if k == 2 {
            Some(f)
        } else if k == 3 {
            Some(FieldsV { enclosing_var: Some(x), ..f })
        } else if k == 4 {
            match parse_unsigned(x, 255) {
                Some(a) => Some(FieldsV { array: Some(a as u8), ..f }),
                None => None,
            }
        } else if k == 5 {
            Some(FieldsV { constant: Some(x), ..f })
        } else {
            match parse_i64(x) {
                Some(v) => Some(
                    FieldsV {
                        comparability: if v < 0 {
                            None
                        } else {
                            Some(v as u64)
                        },
                        ..f
                    },
                ),
                None => None,
            }
        },
{
    lemma_key_line(k, x);
    let t = field_key(k) + x;
    assert(field_key(0) == "var-kind "@);
    assert(field_key(1) == "dec-type "@);
    assert(field_key(2) == "rep-type "@);
    assert(field_key(3) == "enclosing-var "@);
    assert(field_key(4) == "array "@);
    assert(field_key(5) == "constant "@);
    assert(field_key(6) == "comparability "@);
    if k > 0 {
        assert(strip_prefix(t, field_key(0)) is None);
    }
    if k > 1 {
        assert(strip_prefix(t, field_key(1)) is None);
    }
    if k > 2 {
        assert(strip_prefix(t, field_key(2)) is None);
        assert(!starts_with(t, "rep-type "@));
    }
    if k > 3 {
        assert(strip_prefix(t, field_key(3)) is None);
    }
    if k > 4 {
        assert(strip_prefix(t, field_key(4)) is None);
    }
    if k > 5 {
        assert(strip_prefix(t, field_key(5)) is None);
    }
}

/// Reading one field line of a variable.
proof fn lemma_run_field(
    ls: Seq<Seq<char>>,
    i: int,
    acc: Seq<(Seq<char>, PptV)>,
    name: Seq<char>,
    ptype: ProgramPointType,
    ps: Seq<(Seq<char>, (ParentRelationType, u64))>,
    vars: Seq<(Seq<char>, VarDeclV)>,
    vname: Seq<char>,
    f: FieldsV,
    k: int,
    x: Seq<char>,
    f2: FieldsV,
)
    requires
        0 <= i < ls.len(),
        0 <= k < 7,
        ls[i] == field_line_prefix(k) + x,
        read_field(f, field_key(k) + x) == Some(f2),
    ensures
        run(ls, i, St::Fields { acc, name, ptype, parents: ps, vars, vname, fields: f }) == run(
            ls,
            i + 1,
            St::Fields { acc, name, ptype, parents: ps, vars, vname, fields: f2 },
        ),
{
    lemma_key_line(k, x);
}

/// A comparability reads back from its text.
proof fn lemma_parse_comparability(c: Option<u64>)
    requires
        c matches Some(v) ==> v <= i64::MAX,
    ensures
        parse_i64(comparability_text(c)) == match c {
            Some(v) => Some(v as int),
            None => Some(-1int),
        },
{
    reveal_strlit("-1");
    let xc = comparability_text(c);
    match c {
        Some(v) => {
            lemma_dec_digits(v as nat);
            lemma_parse_digits(v as nat, 0x7fff_ffff_ffff_ffff);
        },
        None => {
            let b = xc.drop_first();
            assert(b =~= seq!['1']);
            assert(digits_value(b.drop_last()) == 0) by {
                assert(b.drop_last() =~= Seq::<char>::empty());
            }
        },
    }
}

/// Reading the field lines of a declaration collects its fields.
#[verifier::spinoff_prover]
proof fn lemma_run_decl(
    ls: Seq<Seq<char>>,
    i: int,
    acc: Seq<(Seq<char>, PptV)>,
    name: Seq<char>,
    ptype: ProgramPointType,
    ps: Seq<(Seq<char>, (ParentRelationType, u64))>,
    vars: Seq<(Seq<char>, VarDeclV)>,
    vname: Seq<char>,
    d: VarDeclV,
)
    requires
        printable_decl(d),
        0 <= i,
        i + decl_lines(d).len() <= ls.len(),
        forall|j: int| 0 <= j < decl_lines(d).len() ==> ls[i + j] == #[trigger] decl_lines(d)[j],
    ensures
        run(ls, i, St::Fields { acc, name, ptype, parents: ps, vars, vname, fields: no_fields() })
            == run(
            ls,
            i + decl_lines(d).len(),
            St::Fields { acc, name, ptype, parents: ps, vars, vname, fields: fields_of(d) },
        ),
{
    let dl = decl_lines(d);
    let f0 = no_fields();
    // var-kind
    let x0 = var_kind_text(d.var_kind);
    lemma_var_kind_of_text(d.var_kind);
    lemma_read_field_line(f0, 0, x0);
    let f1 = FieldsV { var_kind: Some(d.var_kind), ..f0 };
    assert(ls[i] == dl[0]);
    lemma_run_field(ls, i, acc, name, ptype, ps, vars, vname, f0, 0, x0, f1);
    // dec-type
    let x1 = dec_type_text(d.dec_type);
    lemma_dec_type_from_text(d.dec_type);
    lemma_read_field_line(f1, 1, x1);
    let f2 = FieldsV { dec_type: Some(d.dec_type), ..f1 };
    assert(ls[i + 1] == dl[1]);
    lemma_run_field(ls, i + 1, acc, name, ptype, ps, vars, vname, f1, 1, x1, f2);
    // rep-type
    let x2 = rep_type_text(d.dec_type, d.array);
    lemma_read_field_line(f2, 2, x2);
    assert(ls[i + 2] == dl[2]);
    lemma_run_field(ls, i + 2, acc, name, ptype, ps, vars, vname, f2, 2, x2, f2);
    let mut pos = i + 3;
    let mut f = f2;
    // enclosing-var
    if let Some(e) = d.enclosing_var {
        lemma_read_field_line(f, 3, e);
        assert(ls[pos] == dl[pos - i]);
        lemma_run_field(ls, pos, acc, name, ptype, ps, vars, vname, f, 3, e, FieldsV { enclosing_var: Some(e), ..f });
        f = FieldsV { enclosing_var: Some(e), ..f };
        pos = pos + 1;
    }
    // array
    if let Some(a) = d.array {
        lemma_parse_digits(a as nat, 255);
        lemma_read_field_line(f, 4, dec_digits(a as nat));
        assert(ls[pos] == dl[pos - i]);
        lemma_run_field(ls, pos, acc, name, ptype, ps, vars, vname, f, 4, dec_digits(a as nat), FieldsV { array: Some(a), ..f });
        f = FieldsV { array: Some(a), ..f };
        pos = pos + 1;
    }
    // constant
    if !(d.constant is Absent) {
        let c = constant_text(d.constant);
        lemma_read_field_line(f, 5, c);
        assert(ls[pos] == dl[pos - i]);
        lemma_run_field(ls, pos, acc, name, ptype, ps, vars, vname, f, 5, c, FieldsV { constant: Some(c), ..f });
        f = FieldsV { constant: Some(c), ..f };
        pos = pos + 1;
    }
    // comparability
    let xc = comparability_text(d.comparability);
    lemma_read_field_line(f, 6, xc);
    lemma_parse_comparability(d.comparability);
    let fc = FieldsV { comparability: d.comparability, ..f };
    assert(ls[pos] == dl[pos - i]);
    lemma_run_field(ls, pos, acc, name, ptype, ps, vars, vname, f, 6, xc, fc);
    assert(fc == fields_of(d));
    assert(pos + 1 == i + dl.len());
}

/// Inserting the last entry of sorted entries after the others rebuilds them.
pub proof fn lemma_insert_last<X>(s: Seq<(Seq<char>, X)>)
    requires
        keys_sorted(s),
        s.len() > 0,
    ensures
        seq_insert(s.drop_last(), s.last().0, s.last().1) == s,
{
    let s1 = s.drop_last();
    assert forall|j: int| 0 <= j < s1.len() implies seq_lt(#[trigger] s1[j].0, s.last().0) by {
        assert(s1[j] == s[j]);
    }
    lemma_insert_at(s1, s.last().0, s.last().1, s1.len() as int);
    assert(s1.insert(s1.len() as int, (s.last().0, s.last().1)) =~= s);
}

proof fn lemma_sorted_drop_last<X>(s: Seq<(Seq<char>, X)>)
    requires
        keys_sorted(s),
        s.len() > 0,
    ensures
        keys_sorted(s.drop_last()),
{
    let s1 = s.drop_last();
    assert forall|a: int, b: int| 0 <= a < b < s1.len() implies seq_lt(
        #[trigger] s1[a].0,
        #[trigger] s1[b].0,
    ) by {
        assert(s1[a] == s[a] && s1[b] == s[b]);
    }
}

proof fn lemma_run_next(ls: Seq<Seq<char>>, i: int, st: St, st2: St)
    requires
        0 <= i < ls.len(),
        step(st, ls[i]) == Step::Next(st2),
    ensures
        run(ls, i, st) == run(ls, i + 1, st2),
{
}

proof fn lemma_run_same(ls: Seq<Seq<char>>, i: int, st1: St, st2: St)
    requires
        0 <= i <= ls.len(),
        i < ls.len() ==> step(st1, ls[i]) == step(st2, ls[i]),
        i == ls.len() ==> finish(st1) == finish(st2),
    ensures
        run(ls, i, st1) == run(ls, i, st2),
{
}

/// Where reading stands after the variables `vs` of a program point: among the
/// parents when there are none, else in the fields of the last one.
pub open spec fn vars_state(
    acc: Seq<(Seq<char>, PptV)>,
    name: Seq<char>,
    ptype: ProgramPointType,
    ps: Seq<(Seq<char>, (ParentRelationType, u64))>,
    vs: Seq<(Seq<char>, VarDeclV)>,
) -> St {
    if vs.len() == 0 {
        St::Parents { acc, name, ptype, parents: ps }
    } else {
        St::Fields {
            acc,
            name,
            ptype,
            parents: ps,
            vars: vs.drop_last(),
            vname: vs.last().0,
            fields: fields_of(vs.last().1),
        }
    }
}

/// The line that opens the next variable or program point.
pub open spec fn opens_block(l: Seq<char>) -> bool {
    ||| exists|v: Seq<char>| l == "variable "@ + v
    ||| exists|m: Seq<char>| l == "ppt "@ + m
}

proof fn lemma_opens_block(l: Seq<char>)
    requires
        opens_block(l),
    ensures
        trim_start(l) == l,
        ends_fields(l),
        strip_prefix(l, "parent "@) is None,
{
    reveal_strlit("variable ");
    reveal_strlit("ppt ");
    reveal_strlit("parent ");
    if exists|v: Seq<char>| l == "variable "@ + v {
        let v = choose|v: Seq<char>| l == "variable "@ + v;
        lemma_strip_concat("variable "@, v);
        assert(l[0] == 'v');
        lemma_differs_at(l, "parent "@, 0);
    } else {
        let m = choose|m: Seq<char>| l == "ppt "@ + m;
        lemma_strip_concat("ppt "@, m);
        assert(l[0] == 'p' && l[1] == 'p');
        lemma_differs_at(l, "parent "@, 1);
    }
}

/// The declarations of printable variables come back from their fields.
proof fn lemma_decl_of_fields(d: VarDeclV)
    requires
        printable_decl(d),
    ensures
        decl_of(fields_of(d)) == d,
        missing(fields_of(d)) is None,
{
}

/// Leaving the variables of a program point: the next block's opening line is
/// read as if the variables had all been recorded.
proof fn lemma_close_vars(
    acc: Seq<(Seq<char>, PptV)>,
    name: Seq<char>,
    ptype: ProgramPointType,
    ps: Seq<(Seq<char>, (ParentRelationType, u64))>,
    vs: Seq<(Seq<char>, VarDeclV)>,
    l: Seq<char>,
)
    requires
        keys_sorted(vs),
        forall|i: int| #![trigger vs[i]] 0 <= i < vs.len() ==> printable_decl(vs[i].1),
        opens_block(l),
    ensures
        step(vars_state(acc, name, ptype, ps, vs), l) == vars_step(acc, name, ptype, ps, vs, l),
        finish(vars_state(acc, name, ptype, ps, vs)) == Outcome::Parsed(
            finish_ppt(acc, name, ptype, ps, vs),
        ),
{
    lemma_opens_block(l);
    if vs.len() > 0 {
        assert(printable_decl(vs[vs.len() - 1].1));
        lemma_decl_of_fields(vs.last().1);
        lemma_insert_last(vs);
    } else {
        assert(vs =~= Seq::<(Seq<char>, VarDeclV)>::empty());
    }
}

/// Reading the lines of the variables `vs` after the parents.
proof fn lemma_run_vars(
    ls: Seq<Seq<char>>,
    i: int,
    acc: Seq<(Seq<char>, PptV)>,
    name: Seq<char>,
    ptype: ProgramPointType,
    ps: Seq<(Seq<char>, (ParentRelationType, u64))>,
    vs: Seq<(Seq<char>, VarDeclV)>,
)
    requires
        keys_sorted(vs),
        forall|k: int|
            #![trigger vs[k]]
            0 <= k < vs.len() ==> kept(vs[k].0) && printable_decl(vs[k].1),
        0 <= i,
        i + variable_lines(vs).len() <= ls.len(),
        forall|j: int|
            0 <= j < variable_lines(vs).len() ==> ls[i + j] == #[trigger] variable_lines(vs)[j],
    ensures
        run(ls, i, St::Parents { acc, name, ptype, parents: ps }) == run(
            ls,
            i + variable_lines(vs).len(),
            vars_state(acc, name, ptype, ps, vs),
        ),
    decreases vs.len(),
{
    if vs.len() > 0 {
        let vs1 = vs.drop_last();
        let l1 = variable_lines(vs1);
        let v = vs.last().0;
        let d = vs.last().1;
        let vl = seq!["variable "@ + v];
        let dl = decl_lines(d);
        assert(variable_lines(vs) == l1 + vl + dl);
        lemma_sorted_drop_last(vs);
        assert forall|k: int| #![trigger vs1[k]] 0 <= k < vs1.len() implies kept(vs1[k].0)
            && printable_decl(vs1[k].1) by {
            assert(vs1[k] == vs[k]);
        }
        assert forall|j: int| 0 <= j < l1.len() implies ls[i + j] == #[trigger] l1[j] by {
            assert(variable_lines(vs)[j] == l1[j]);
        }
        lemma_run_vars(ls, i, acc, name, ptype, ps, vs1);
        let p = i + l1.len();
        assert(ls[p] == variable_lines(vs)[l1.len() as int]);
        assert(ls[p] == "variable "@ + v);
        assert(opens_block(ls[p]));
        lemma_close_vars(acc, name, ptype, ps, vs1, ls[p]);
        lemma_strip_concat("variable "@, v);
        lemma_run_next(
            ls,
            p,
            vars_state(acc, name, ptype, ps, vs1),
            St::Fields { acc, name, ptype, parents: ps, vars: vs1, vname: v, fields: no_fields() },
        );
        assert(kept(vs[vs.len() - 1].0) && printable_decl(vs[vs.len() - 1].1));
        assert forall|j: int| 0 <= j < dl.len() implies ls[p + 1 + j] == #[trigger] dl[j] by {
            assert(variable_lines(vs)[l1.len() + 1 + j] == dl[j]);
        }
        lemma_run_decl(ls, p + 1, acc, name, ptype, ps, vs1, v, d);
    }
}

/// The first blank in `s` from `i` on is at `j`.
proof fn lemma_find_space(s: Seq<char>, i: int, j: int)
    requires
        0 <= i <= j < s.len(),
        s[j] == ' ',
        forall|m: int| i <= m < j ==> s[m] != ' ',
    ensures
        find_space(s, i) == Some(j),
    decreases j - i,
{
    if i < j {
        lemma_find_space(s, i + 1, j);
    }
}

proof fn lemma_parent_of_line(p: (Seq<char>, (ParentRelationType, u64)))
    requires
        printable_parent_name(p.0),
    ensures
        strip_prefix(parent_line(p), "parent "@) matches Some(rest) && parent_of(rest) == Some(p),
{
    reveal_strlit("parent ");
    reveal_strlit(" ");
    reveal_strlit("parent");
    reveal_strlit("enter-exit");
    reveal_strlit("exit-exitnn");
    let rel = relation_text(p.1.0);
    let n = p.0;
    let digits = dec_digits(p.1.1 as nat);
    let rest = rel + " "@ + n + " "@ + digits;
    assert(parent_line(p) =~= "parent "@ + rest);
    lemma_strip_concat("parent "@, rest);
    assert(forall|m: int| 0 <= m < rel.len() ==> rel[m] != ' ');
    assert(rest[rel.len() as int] == ' ');
    assert forall|m: int| 0 <= m < rel.len() implies rest[m] != ' ' by {
        assert(rest[m] == rel[m]);
    }
    lemma_find_space(rest, 0, rel.len() as int);
    assert(rest.take(rel.len() as int) =~= rel);
    let r1 = n + " "@ + digits;
    assert(rest.skip(rel.len() as int + 1) =~= r1);
    assert(r1[n.len() as int] == ' ');
    assert forall|m: int| 0 <= m < n.len() implies r1[m] != ' ' by {
        assert(r1[m] == n[m]);
    }
    lemma_find_space(r1, 0, n.len() as int);
    assert(r1.take(n.len() as int) =~= n);
    assert(r1.skip(n.len() as int + 1) =~= digits);
    lemma_parse_digits(p.1.1 as nat, u64::MAX as nat);
    assert(relation_of(rel) == Some(p.1.0)) by {
        assert(("parent"@).len() == 6 && ("enter-exit"@).len() == 10 && ("exit-exitnn"@).len() == 11);
    }
}

proof fn lemma_parent_lines_len(ps: Seq<(Seq<char>, (ParentRelationType, u64))>)
    ensures
        parent_lines(ps).len() == ps.len(),
    decreases ps.len(),
{
    if ps.len() > 0 {
        lemma_parent_lines_len(ps.drop_last());
    }
}

/// Reading the parent lines of a program point.
proof fn lemma_run_parents(
    ls: Seq<Seq<char>>,
    i: int,
    acc: Seq<(Seq<char>, PptV)>,
    name: Seq<char>,
    ptype: ProgramPointType,
    ps: Seq<(Seq<char>, (ParentRelationType, u64))>,
)
    requires
        keys_sorted(ps),
        forall|k: int| 0 <= k < ps.len() ==> printable_parent_name(#[trigger] ps[k].0),
        0 <= i,
        i + ps.len() <= ls.len(),
        forall|j: int| 0 <= j < ps.len() ==> ls[i + j] == #[trigger] parent_lines(ps)[j],
    ensures
        parent_lines(ps).len() == ps.len(),
        run(ls, i, St::Parents { acc, name, ptype, parents: Seq::empty() }) == run(
            ls,
            i + ps.len(),
            St::Parents { acc, name, ptype, parents: ps },
        ),
    decreases ps.len(),
{
    if ps.len() == 0 {
        assert(ps =~= Seq::<(Seq<char>, (ParentRelationType, u64))>::empty());
    } else {
        let ps1 = ps.drop_last();
        lemma_parent_lines_len(ps1);
        lemma_sorted_drop_last(ps);
        assert forall|k: int| 0 <= k < ps1.len() implies printable_parent_name(#[trigger] ps1[k].0) by {
            assert(ps1[k] == ps[k]);
        }
        assert forall|j: int| 0 <= j < ps1.len() implies ls[i + j] == #[trigger] parent_lines(ps1)[j] by {
            assert(parent_lines(ps)[j] == parent_lines(ps1)[j]);
        }
        lemma_run_parents(ls, i, acc, name, ptype, ps1);
        let p = i + ps1.len();
        assert(ls[p] == parent_lines(ps)[ps1.len() as int]);
        assert(printable_parent_name(ps[ps.len() - 1].0));
        lemma_parent_of_line(ps.last());
        lemma_insert_last(ps);
        lemma_run_next(
            ls,
            p,
            St::Parents { acc, name, ptype, parents: ps1 },
            St::Parents { acc, name, ptype, parents: ps },
        );
    }
}

proof fn lemma_ppt_type_read(name: Seq<char>, p: PptV)
    requires
        printable_ppt(name, p),
    ensures
        ppt_type_of(name, ppt_type_text(p.ppt_type)) == Some(p.ppt_type),
{
    reveal_strlit("enter");
    reveal_strlit("exit");
    reveal_strlit("subexit");
    assert(("enter"@).len() == 5 && ("exit"@).len() == 4 && ("subexit"@).len() == 7);
}

/// A line that opens a program point.
pub open spec fn opens_ppt(l: Seq<char>) -> bool {
    exists|m: Seq<char>| l == "ppt "@ + m
}

/// Reading the lines of one program point, up to the next program point or
/// the end, records it.
proof fn lemma_run_block(
    ls: Seq<Seq<char>>,
    i: int,
    acc: Seq<(Seq<char>, PptV)>,
    name: Seq<char>,
    p: PptV,
)
    requires
        printable_ppt(name, p),
        0 <= i,
        i + block_lines(name, p).len() <= ls.len(),
        forall|j: int|
            0 <= j < block_lines(name, p).len() ==> ls[i + j] == #[trigger] block_lines(name, p)[j],
        i + block_lines(name, p).len() < ls.len() ==> opens_ppt(
            ls[i + block_lines(name, p).len()],
        ),
    ensures
        run(ls, i, St::Top { acc }) == run(
            ls,
            i + block_lines(name, p).len(),
            St::Top { acc: finish_ppt(acc, name, p.ppt_type, p.parents, p.variables) },
        ),
{
    reveal_strlit("ppt ");
    reveal_strlit("ppt-type ");
    reveal_strlit("variable ");
    let b = block_lines(name, p);
    let t = p.ppt_type;
    let ps = p.parents;
    let vs = p.variables;
    lemma_parent_lines_len(ps);
    let head = seq!["ppt "@ + name, "ppt-type "@ + ppt_type_text(t)];
    assert(b == head + parent_lines(ps) + variable_lines(vs));
    // ppt <name>
    assert(ls[i] == b[0]);
    lemma_strip_concat("ppt "@, name);
    lemma_run_next(ls, i, St::Top { acc }, St::ExpectType { acc, name });
    // ppt-type <type>
    assert(ls[i + 1] == b[1]);
    lemma_strip_concat("ppt-type "@, ppt_type_text(t));
    lemma_ppt_type_read(name, p);
    lemma_run_next(
        ls,
        i + 1,
        St::ExpectType { acc, name },
        St::Parents { acc, name, ptype: t, parents: Seq::empty() },
    );
    // parents
    assert forall|j: int| 0 <= j < ps.len() implies ls[i + 2 + j] == #[trigger] parent_lines(ps)[j] by {
        assert(b[2 + j] == parent_lines(ps)[j]);
    }
    lemma_run_parents(ls, i + 2, acc, name, t, ps);
    // variables
    let q = i + 2 + ps.len();
    assert forall|j: int| 0 <= j < variable_lines(vs).len() implies ls[q + j]
        == #[trigger] variable_lines(vs)[j] by {
        assert(b[2 + ps.len() + j] == variable_lines(vs)[j]);
    }
    lemma_run_vars(ls, q, acc, name, t, ps, vs);
    // the next program point, or the end
    let e = i + b.len();
    assert(e == q + variable_lines(vs).len());
    let done = finish_ppt(acc, name, t, ps, vs);
    assert forall|k: int| #![trigger vs[k]] 0 <= k < vs.len() implies printable_decl(vs[k].1) by {
        assert(kept(vs[k].0) && printable_decl(vs[k].1));
    }
    if e < ls.len() {
        let l = ls[e];
        let m = choose|m: Seq<char>| l == "ppt "@ + m;
        assert(opens_block(l));
        lemma_close_vars(acc, name, t, ps, vs, l);
        assert(l[0] == 'p');
        lemma_differs_at(l, "variable "@, 0);
        assert(vars_step(acc, name, t, ps, vs, l) == top_step(done, l));
        lemma_run_same(ls, e, vars_state(acc, name, t, ps, vs), St::Top { acc: done });
    } else {
        assert(opens_block("ppt "@ + Seq::<char>::empty()));
        lemma_close_vars(acc, name, t, ps, vs, "ppt "@ + Seq::<char>::empty());
        lemma_run_same(ls, e, vars_state(acc, name, t, ps, vs), St::Top { acc: done });
    }
}

/// The entries of `d`, in their order, without functions: sorted like `d`.
proof fn lemma_without_owners(d: Seq<(Seq<char>, PptV)>)
    ensures
        without_owners(d).len() == d.len(),
        forall|i: int| 0 <= i < d.len() ==> (#[trigger] without_owners(d)[i]).0 == d[i].0,
        keys_sorted(d) ==> keys_sorted(without_owners(d)),
        d.len() > 0 ==> without_owners(d).drop_last() == without_owners(d.drop_last()),
{
    let w = without_owners(d);
    if d.len() > 0 {
        assert(w.drop_last() =~= without_owners(d.drop_last()));
    }
    if keys_sorted(d) {
        assert forall|a: int, b: int| 0 <= a < b < w.len() implies seq_lt(
            #[trigger] w[a].0,
            #[trigger] w[b].0,
        ) by {
            assert(w[a].0 == d[a].0 && w[b].0 == d[b].0);
        }
    }
}

proof fn lemma_blocks_len(d: Seq<(Seq<char>, PptV)>)
    requires
        d.len() > 0,
    ensures
        blocks(d).len() >= 2,
        blocks(d)[0] == "ppt "@ + d[0].0,
    decreases d.len(),
{
    let d1 = d.drop_last();
    if d1.len() > 0 {
        lemma_blocks_len(d1);
        assert(blocks(d)[0] == blocks(d1)[0]);
    } else {
        assert(blocks(d1) =~= Seq::<Seq<char>>::empty());
        assert(blocks(d) =~= block_lines(d.last().0, d.last().1));
    }
}

/// Reading the lines of the program points `d`, in order, records them all.
proof fn lemma_run_blocks(ls: Seq<Seq<char>>, i: int, d: Seq<(Seq<char>, PptV)>)
    requires
        printable(d),
        0 <= i,
        i + blocks(d).len() <= ls.len(),
        forall|j: int| 0 <= j < blocks(d).len() ==> ls[i + j] == #[trigger] blocks(d)[j],
        i + blocks(d).len() < ls.len() ==> opens_ppt(ls[i + blocks(d).len()]),
    ensures
        run(ls, i, St::Top { acc: Seq::empty() }) == run(
            ls,
            i + blocks(d).len(),
            St::Top { acc: without_owners(d) },
        ),
    decreases d.len(),
{
    if d.len() == 0 {
        assert(without_owners(d) =~= Seq::<(Seq<char>, PptV)>::empty());
    } else {
        let d1 = d.drop_last();
        let name = d.last().0;
        let p = d.last().1;
        let b = block_lines(name, p);
        let b1 = blocks(d1);
        lemma_sorted_drop_last(d);
        assert forall|k: int| 0 <= k < d1.len() implies printable_ppt(#[trigger] d1[k].0, d1[k].1) by {
            assert(d1[k] == d[k]);
        }
        assert forall|j: int| 0 <= j < b1.len() implies ls[i + j] == #[trigger] b1[j] by {
            assert(blocks(d)[j] == b1[j]);
        }
        assert(ls[i + b1.len()] == b[0]) by {
            assert(blocks(d)[b1.len() as int] == b[0]);
        }
        assert(opens_ppt(ls[i + b1.len()])) by {
            assert(ls[i + b1.len()] == "ppt "@ + name);
        }
        lemma_run_blocks(ls, i, d1);
        assert(printable_ppt(d[d.len() - 1].0, d[d.len() - 1].1));
        assert forall|j: int| 0 <= j < b.len() implies ls[i + b1.len() + j] == #[trigger] b[j] by {
            assert(blocks(d)[b1.len() + j] == b[j]);
        }
        lemma_run_block(ls, i + b1.len(), without_owners(d1), name, p);
        lemma_without_owners(d);
        let w = without_owners(d);
        lemma_insert_last(w);
        assert(w.last() == (name, PptV { def_id: None, ..p }));
        assert(finish_ppt(without_owners(d1), name, p.ppt_type, p.parents, p.variables) == w);
    }
}

/// Reading back the text of a declaration file gives its program points, as
/// they were written, without the functions they belong to: for every file
/// whose names and texts can be written on one line each and read back.
pub proof fn read_back_written(d: Seq<(Seq<char>, PptV)>)
    requires
        printable(d),
    ensures
        parse_decls_text(lines_text(decls_lines(d))) == Outcome::Parsed(without_owners(d)),
{
    lemma_clean_written(d);
    reveal_strlit("decl-version 2.0");
    reveal_strlit("input-language rust");
    reveal_strlit("var-comparability implicit");
    reveal_strlit("ppt");
    reveal_strlit("ppt ");
    let ls = header_read() + blocks(d);
    assert(ls[0] == "decl-version 2.0"@);
    assert(ls[1] == "input-language rust"@);
    assert(ls[2] == "var-comparability implicit"@);
    assert(!starts_with(ls[2], "ppt"@)) by {
        lemma_differs_at(ls[2], "ppt"@, 0);
    }
    if d.len() > 0 {
        lemma_blocks_len(d);
        assert(ls[3] == "ppt "@ + d[0].0);
        assert(starts_with(ls[3], "ppt"@)) by {
            assert(ls[3].take(3) =~= "ppt"@);
        }
    }
    assert(skip_header(ls, 3) == 3);
    assert(skip_header(ls, 2) == 3);
    assert forall|j: int| 0 <= j < blocks(d).len() implies ls[3 + j] == #[trigger] blocks(d)[j] by {
    }
    lemma_run_blocks(ls, 3, d);
}

} // verus!
