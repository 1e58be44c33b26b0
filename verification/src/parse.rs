use vstd::prelude::*;

use crate::fields::{
    constant_from, dec_type_from, ConstantV, DecTypeV, ParentRelationType, ProgramPointType,
    VarDeclV, VarKindV,
};
use crate::fields::{Constant, DecType, VarKind, VariableDecl};
use crate::vars::VarName;
use crate::ppt::{PptV, ProgramPoint};
use crate::strmap::{keys_sorted, lemma_insert_elements, seq_insert, StrMap};
use crate::text::{
    chars_of, eq_exec, parse_i64, parse_i64_exec, parse_unsigned, parse_unsigned_exec, skip_exec,
    slice_exec, starts_with, starts_with_exec, string_of, strip_prefix, strip_prefix_exec, trim_end,
    trim_end_exec, trim_start, trim_start_exec,
};

verus! {

// ---------------------------------------------------------------------------
// Lines
// ---------------------------------------------------------------------------

/// The pieces of `s` between newlines (the last piece may be empty).
pub open spec fn split_nl(s: Seq<char>) -> Seq<Seq<char>>
    decreases s.len(),
{
    if s.len() == 0 {
        seq![Seq::<char>::empty()]
    } else {
        let r = split_nl(s.drop_last());
        if s.last() == '\n' {
            r.push(Seq::empty())
        } else {
            r.update(r.len() - 1, r.last().push(s.last()))
        }
    }
}

/// The pieces with trailing whitespace trimmed, empty ones dropped.
pub open spec fn clean_all(ps: Seq<Seq<char>>) -> Seq<Seq<char>>
    decreases ps.len(),
{
    if ps.len() == 0 {
        Seq::empty()
    } else {
        let r = clean_all(ps.drop_last());
        let t = trim_end(ps.last());
        if t.len() > 0 {
            r.push(t)
        } else {
            r
        }
    }
}

/// The lines a declaration file is read as: `str::lines`, each trimmed at its
/// end, empty ones skipped.
pub open spec fn clean_lines(s: Seq<char>) -> Seq<Seq<char>> {
    clean_all(split_nl(s))
}

// ---------------------------------------------------------------------------
// Pieces of a line
// ---------------------------------------------------------------------------

/// The position of the last occurrence of `p` in `s` that starts at or before `i`.
pub open spec fn rfind_from(s: Seq<char>, p: Seq<char>, i: int) -> Option<int>
    decreases i + 1,
{
    if i < 0 {
        None
    } else if i + p.len() <= s.len() && s.subrange(i, i + p.len()) == p {
        Some(i)
    } else {
        rfind_from(s, p, i - 1)
    }
}

/// `str::rsplit_once(p)`: what follows the last occurrence of `p`.
pub open spec fn after_last(s: Seq<char>, p: Seq<char>) -> Option<Seq<char>> {
    match rfind_from(s, p, s.len() - p.len()) {
        Some(i) => Some(s.skip(i + p.len())),
        None => None,
    }
}

/// The position of the first blank in `s`.
pub open spec fn find_space(s: Seq<char>, i: int) -> Option<int>
    decreases s.len() - i,
{
    if i < 0 || i >= s.len() {
        None
    } else if s[i] == ' ' {
        Some(i)
    } else {
        find_space(s, i + 1)
    }
}

/// `s` split at its first blank: what comes before it, and what comes after it
/// when there is one.
pub open spec fn split_space(s: Seq<char>) -> (Seq<char>, Option<Seq<char>>) {
    match find_space(s, 0) {
        Some(i) => (s.take(i), Some(s.skip(i + 1))),
        None => (s, None),
    }
}

/// `splitn(3, ' ')`: the first two blank-separated words and the rest.
pub open spec fn split3(s: Seq<char>) -> (Seq<char>, Option<Seq<char>>, Option<Seq<char>>) {
    let (a, r) = split_space(s);
    match r {
        None => (a, None, None),
        Some(r1) => {
            let (b, r2) = split_space(r1);
            (a, Some(b), r2)
        },
    }
}

// ---------------------------------------------------------------------------
// The reader
// ---------------------------------------------------------------------------

/// Why a declaration file is refused.
pub enum ParseErr {
    FileError,
    BadHeader(Seq<char>),
    BadStructure(Seq<char>),
    MalformedPpt,
}

/// The result of reading a declaration file: its program points, a refusal,
/// or a variable without its `var-kind` or its `dec-type` line (on which the
/// reader stops the program).
pub enum Outcome {
    Parsed(Seq<(Seq<char>, PptV)>),
    Refused(ParseErr),
    MissingVarKind,
    MissingDecType,
}

/// The fields of a variable read so far.
pub struct FieldsV {
    pub var_kind: Option<VarKindV>,
    pub dec_type: Option<DecTypeV>,
    pub enclosing_var: Option<Seq<char>>,
    pub array: Option<u8>,
    pub constant: Option<Seq<char>>,
    pub comparability: Option<u64>,
}

pub open spec fn no_fields() -> FieldsV {
    FieldsV {
        var_kind: None,
        dec_type: None,
        enclosing_var: None,
        array: None,
        constant: None,
        comparability: None,
    }
}

/// Where the reader stands between two lines.
pub enum St {
    /// Expecting a `ppt` line, or the end.
    Top { acc: Seq<(Seq<char>, PptV)> },
    /// After a `ppt` line, expecting its `ppt-type` line.
    ExpectType { acc: Seq<(Seq<char>, PptV)>, name: Seq<char> },
    /// Reading the `parent` lines of a program point.
    Parents {
        acc: Seq<(Seq<char>, PptV)>,
        name: Seq<char>,
        ptype: ProgramPointType,
        parents: Seq<(Seq<char>, (ParentRelationType, u64))>,
    },
    /// Between the variables of a program point.
    Vars {
        acc: Seq<(Seq<char>, PptV)>,
        name: Seq<char>,
        ptype: ProgramPointType,
        parents: Seq<(Seq<char>, (ParentRelationType, u64))>,
        vars: Seq<(Seq<char>, VarDeclV)>,
    },
    /// Reading the field lines of the variable `vname`.
    Fields {
        acc: Seq<(Seq<char>, PptV)>,
        name: Seq<char>,
        ptype: ProgramPointType,
        parents: Seq<(Seq<char>, (ParentRelationType, u64))>,
        vars: Seq<(Seq<char>, VarDeclV)>,
        vname: Seq<char>,
        fields: FieldsV,
    },
}

/// The result of one step: the next state, or an outcome that ends reading.
pub enum Step {
    Next(St),
    Stop(Outcome),
}

/// The type of the program point `name` given by the text of its `ppt-type` line.
pub open spec fn ppt_type_of(name: Seq<char>, t: Seq<char>) -> Option<ProgramPointType> {
    if t == "enter"@ {
        Some(ProgramPointType::Enter)
    } else if t == "exit"@ {
        Some(ProgramPointType::Exit)
    } else if t == "subexit"@ {
        match after_last(name, ":::EXIT"@) {
            Some(suffix) => match parse_unsigned(suffix, u64::MAX as nat) {
                Some(id) => Some(ProgramPointType::ExitNN(id as u64)),
                None => None,
            },
            None => None,
        }
    } else {
        None
    }
}

pub open spec fn relation_of(s: Seq<char>) -> Option<ParentRelationType> {
    if s == "parent"@ {
        Some(ParentRelationType::Parent)
    } else if s == "enter-exit"@ {
        Some(ParentRelationType::EnterExit)
    } else if s == "exit-exitnn"@ {
        Some(ParentRelationType::ExitExitNN)
    } else {
        None
    }
}

/// The parent named by the text after `parent `.
pub open spec fn parent_of(rest: Seq<char>) -> Option<(Seq<char>, (ParentRelationType, u64))> {
    let (rel, pname, id) = split3(rest);
    match (pname, id) {
        (Some(n), Some(i)) => match (parse_unsigned(i, u64::MAX as nat), relation_of(rel)) {
            (Some(v), Some(r)) => Some((n, (r, v as u64))),
            _ => None,
        },
        _ => None,
    }
}

/// The variable kind named by the text after `var-kind `.
pub open spec fn var_kind_of(rest: Seq<char>) -> Option<VarKindV> {
    if rest == "variable"@ {
        Some(VarKindV::Variable)
    } else if rest == "array"@ {
        Some(VarKindV::Array)
    } else if rest == "return"@ {
        Some(VarKindV::Return)
    } else {
        match strip_prefix(rest, "field "@) {
            Some(rel) => Some(VarKindV::Field(rel)),
            None => match strip_prefix(rest, "function "@) {
                Some(rel) => Some(VarKindV::Function(rel)),
                None => None,
            },
        }
    }
}

/// The fields after reading the (left-trimmed) field line `t`, or `None` when
/// the line is malformed.
pub open spec fn read_field(f: FieldsV, t: Seq<char>) -> Option<FieldsV> {
    match strip_prefix(t, "var-kind "@) {
        Some(rest) => match var_kind_of(rest) {
            Some(k) => Some(FieldsV { var_kind: Some(k), ..f }),
            None => None,
        },
        None => match strip_prefix(t, "dec-type "@) {
            Some(rest) => Some(FieldsV { dec_type: Some(dec_type_from(rest)), ..f }),
            None => if starts_with(t, "rep-type "@) {
                // derived from dec-type, ignored
                Some(f)
            } else {
                match strip_prefix(t, "enclosing-var "@) {
                    Some(rest) => Some(FieldsV { enclosing_var: Some(rest), ..f }),
                    None => match strip_prefix(t, "array "@) {
                        Some(rest) => match parse_unsigned(rest, 255) {
                            Some(a) => Some(FieldsV { array: Some(a as u8), ..f }),
                            None => None,
                        },
                        None => match strip_prefix(t, "constant "@) {
                            Some(rest) => Some(FieldsV { constant: Some(rest), ..f }),
                            None => match strip_prefix(t, "comparability "@) {
                                Some(rest) => match parse_i64(rest) {
                                    Some(v) => Some(
                                        FieldsV {
                                            comparability: if v < 0 {
                                                None
                                            } else {
                                                Some(v as u64)
                                            },
                                            ..f
                                        },
                                    ),
                                    None => None,
                                },
                                None => None,
                            },
                        },
                    },
                }
            },
        },
    }
}

/// The declaration made of complete fields.
pub open spec fn decl_of(f: FieldsV) -> VarDeclV {
    VarDeclV {
        var_kind: f.var_kind->0,
        dec_type: f.dec_type->0,
        enclosing_var: f.enclosing_var,
        array: f.array,
        constant: match f.constant {
            Some(s) => constant_from(s),
            None => ConstantV::Absent,
        },
        comparability: f.comparability,
    }
}

/// Whether a (left-trimmed) line ends the fields of a variable.
pub open spec fn ends_fields(t: Seq<char>) -> bool {
    starts_with(t, "ppt "@) || starts_with(t, "variable "@) || starts_with(t, "parent "@)
}

/// The program points with the current one added.
pub open spec fn finish_ppt(
    acc: Seq<(Seq<char>, PptV)>,
    name: Seq<char>,
    ptype: ProgramPointType,
    parents: Seq<(Seq<char>, (ParentRelationType, u64))>,
    vars: Seq<(Seq<char>, VarDeclV)>,
) -> Seq<(Seq<char>, PptV)> {
    seq_insert(acc, name, PptV { ppt_type: ptype, variables: vars, parents, def_id: None })
}

/// The outcome when a variable is complete: missing fields stop the reader.
pub open spec fn missing(fields: FieldsV) -> Option<Outcome> {
    if fields.var_kind is None {
        Some(Outcome::MissingVarKind)
    } else if fields.dec_type is None {
        Some(Outcome::MissingDecType)
    } else {
        None
    }
}

/// Reading line `l` where a `ppt` line is expected.
pub open spec fn top_step(acc: Seq<(Seq<char>, PptV)>, l: Seq<char>) -> Step {
    match strip_prefix(l, "ppt "@) {
        Some(name) => Step::Next(St::ExpectType { acc, name }),
        None => Step::Stop(
            Outcome::Refused(ParseErr::BadStructure("did not find ppt tag where expected"@)),
        ),
    }
}

/// Reading line `l` between the variables of a program point.
pub open spec fn vars_step(
    acc: Seq<(Seq<char>, PptV)>,
    name: Seq<char>,
    ptype: ProgramPointType,
    parents: Seq<(Seq<char>, (ParentRelationType, u64))>,
    vars: Seq<(Seq<char>, VarDeclV)>,
    l: Seq<char>,
) -> Step {
    match strip_prefix(l, "variable "@) {
        Some(vname) => Step::Next(
            St::Fields { acc, name, ptype, parents, vars, vname, fields: no_fields() },
        ),
        None => top_step(finish_ppt(acc, name, ptype, parents, vars), l),
    }
}

/// Reading one line.
pub open spec fn step(st: St, l: Seq<char>) -> Step {
    match st {
        St::Top { acc } => top_step(acc, l),
        St::ExpectType { acc, name } => match strip_prefix(l, "ppt-type "@) {
            Some(t) => match ppt_type_of(name, t) {
                Some(ptype) => Step::Next(
                    St::Parents { acc, name, ptype, parents: Seq::empty() },
                ),
                None => Step::Stop(Outcome::Refused(ParseErr::MalformedPpt)),
            },
            None => Step::Stop(Outcome::Refused(ParseErr::MalformedPpt)),
        },
        St::Parents { acc, name, ptype, parents } => match strip_prefix(l, "parent "@) {
            Some(rest) => match parent_of(rest) {
                Some(p) => Step::Next(
                    St::Parents { acc, name, ptype, parents: seq_insert(parents, p.0, p.1) },
                ),
                None => Step::Stop(Outcome::Refused(ParseErr::MalformedPpt)),
            },
            None => vars_step(acc, name, ptype, parents, Seq::empty(), l),
        },
        St::Vars { acc, name, ptype, parents, vars } => vars_step(
            acc,
            name,
            ptype,
            parents,
            vars,
            l,
        ),
        St::Fields { acc, name, ptype, parents, vars, vname, fields } => {
            let t = trim_start(l);
            if ends_fields(t) {
                match missing(fields) {
                    Some(o) => Step::Stop(o),
                    None => vars_step(
                        acc,
                        name,
                        ptype,
                        parents,
                        seq_insert(vars, vname, decl_of(fields)),
                        l,
                    ),
                }
            } else {
                match read_field(fields, t) {
                    Some(f) => Step::Next(
                        St::Fields { acc, name, ptype, parents, vars, vname, fields: f },
                    ),
                    None => Step::Stop(Outcome::Refused(ParseErr::MalformedPpt)),
                }
            }
        },
    }
}

/// The outcome when the lines run out in state `st`.
pub open spec fn finish(st: St) -> Outcome {
    match st {
        St::Top { acc } => Outcome::Parsed(acc),
        St::ExpectType { .. } => Outcome::Refused(ParseErr::MalformedPpt),
        St::Parents { acc, name, ptype, parents } => Outcome::Parsed(
            finish_ppt(acc, name, ptype, parents, Seq::empty()),
        ),
        St::Vars { acc, name, ptype, parents, vars } => Outcome::Parsed(
            finish_ppt(acc, name, ptype, parents, vars),
        ),
        St::Fields { acc, name, ptype, parents, vars, vname, fields } => match missing(fields) {
            Some(o) => o,
            None => Outcome::Parsed(
                finish_ppt(acc, name, ptype, parents, seq_insert(vars, vname, decl_of(fields))),
            ),
        },
    }
}

/// Reading the lines `ls[i..]` from state `st`.
pub open spec fn run(ls: Seq<Seq<char>>, i: int, st: St) -> Outcome
    decreases ls.len() - i,
{
    if i < 0 || i >= ls.len() {
        finish(st)
    } else {
        match step(st, ls[i]) {
            Step::Next(s) => run(ls, i + 1, s),
            Step::Stop(o) => o,
        }
    }
}

/// The first line at or after `i` that starts with `ppt` (the header lines
/// before it are skipped).
pub open spec fn skip_header(ls: Seq<Seq<char>>, i: int) -> int
    decreases ls.len() - i,
{
    if 0 <= i < ls.len() && !starts_with(ls[i], "ppt"@) {
        skip_header(ls, i + 1)
    } else {
        i
    }
}

/// Reading a declaration file, given as its lines.
pub open spec fn parse_lines(ls: Seq<Seq<char>>) -> Outcome {
    if ls.len() < 1 || ls[0] != "decl-version 2.0"@ {
        Outcome::Refused(ParseErr::BadHeader("Input file is not of decls version 2.0"@))
    } else if ls.len() < 2 || ls[1] != "input-language rust"@ {
        Outcome::Refused(ParseErr::BadHeader("Non-rust decls file provided as input"@))
    } else {
        run(ls, skip_header(ls, 2), St::Top { acc: Seq::empty() })
    }
}

/// Reading the text of a declaration file.
pub open spec fn parse_decls_text(s: Seq<char>) -> Outcome {
    parse_lines(clean_lines(s))
}

} // verus!

verus! {

pub open spec fn lines_view(v: Seq<Vec<char>>) -> Seq<Seq<char>> {
    v.map_values(|x: Vec<char>| x@)
}

pub proof fn lemma_split_nl_len(s: Seq<char>)
    ensures
        split_nl(s).len() >= 1,
    decreases s.len(),
{
    if s.len() > 0 {
        lemma_split_nl_len(s.drop_last());
    }
}

/// The lines of `content` as the reader sees them.
pub fn clean_lines_exec(content: &str) -> (r: Vec<Vec<char>>)
    ensures
        lines_view(r@) == clean_lines(content@),
{
    let chars = chars_of(content);
    let mut out: Vec<Vec<char>> = Vec::new();
    let mut cur: Vec<char> = Vec::new();
    let mut i: usize = 0;
    assert(chars@.take(0) =~= Seq::<char>::empty());
    assert(lines_view(out@) =~= clean_all(split_nl(chars@.take(0)).drop_last()));
    while i < chars.len()
        invariant
            i <= chars@.len(),
            chars@ == content@,
            split_nl(chars@.take(i as int)).len() >= 1,
            lines_view(out@) == clean_all(split_nl(chars@.take(i as int)).drop_last()),
            cur@ == split_nl(chars@.take(i as int)).last(),
        decreases chars@.len() - i,
    {
        let c = chars[i];
        let ghost ps = split_nl(chars@.take(i as int));
        let ghost s1 = chars@.take(i + 1);
        assert(s1.drop_last() =~= chars@.take(i as int));
        assert(s1.last() == c);
        if c == '\n' {
            let t = trim_end_exec(&cur);
            assert(ps.drop_last().push(ps.last()) =~= ps);
            assert(clean_all(ps) == {
                let r = clean_all(ps.drop_last());
                let tt = trim_end(ps.last());
                if tt.len() > 0 {
                    r.push(tt)
                } else {
                    r
                }
            });
            if t.len() > 0 {
                out.push(t);
            }
            cur = Vec::new();
            assert(split_nl(s1) == ps.push(Seq::empty()));
            assert(split_nl(s1).drop_last() =~= ps);
            assert(lines_view(out@) =~= clean_all(ps));
            assert(cur@ =~= split_nl(s1).last());
        } else {
            cur.push(c);
            assert(split_nl(s1) == ps.update(ps.len() - 1, ps.last().push(c)));
            assert(split_nl(s1).drop_last() =~= ps.drop_last());
        }
        i += 1;
    }
    assert(chars@.take(i as int) =~= content@);
    let ghost ps = split_nl(content@);
    assert(ps.drop_last().push(ps.last()) =~= ps);
    let t = trim_end_exec(&cur);
    if t.len() > 0 {
        out.push(t);
    }
    assert(lines_view(out@) =~= clean_all(ps));
    out
}

/// Whether `p` occurs in `s` at position `i`.
fn occurs_at(s: &Vec<char>, i: usize, p: &Vec<char>) -> (b: bool)
    ensures
        b == (i + p@.len() <= s@.len() && s@.subrange(i as int, i + p@.len()) == p@),
{
    if i > s.len() || p.len() > s.len() - i {
        return false;
    }
    let mut j: usize = 0;
    let sl = s.len();
    while j < p.len()
        invariant
            sl == s@.len(),
            i + p@.len() <= s@.len(),
            j <= p@.len(),
            forall|k: int| 0 <= k < j ==> s@[i + k] == p@[k],
        decreases p@.len() - j,
    {
        if s[i + j] != p[j] {
            assert(s@.subrange(i as int, i + p@.len())[j as int] != p@[j as int]);
            return false;
        }
        j += 1;
    }
    assert(s@.subrange(i as int, i + p@.len()) =~= p@);
    true
}

/// `rsplit_once(p).map(|(_, after)| after)` on characters.
pub fn after_last_exec(s: &Vec<char>, p: &str) -> (r: Option<Vec<char>>)
    ensures
        match r {
            Some(v) => after_last(s@, p@) == Some(v@),
            None => after_last(s@, p@) is None,
        },
{
    let pv = chars_of(p);
    if pv.len() > s.len() {
        assert(rfind_from(s@, p@, s@.len() - p@.len()) is None);
        return None;
    }
    let mut i = s.len() - pv.len();
    let sl = s.len();
    loop
        invariant
            sl == s@.len(),
            pv@ == p@,
            i + pv@.len() <= s@.len(),
            rfind_from(s@, p@, s@.len() - p@.len()) == rfind_from(s@, p@, i as int),
        decreases i,
    {
        if occurs_at(s, i, &pv) {
            return Some(skip_exec(s, i + pv.len()));
        }
        if i == 0 {
            assert(rfind_from(s@, p@, -1) is None);
            return None;
        }
        i -= 1;
    }
}

/// `s` split at its first blank.
pub fn split_space_exec(s: &Vec<char>) -> (r: (Vec<char>, Option<Vec<char>>))
    ensures
        ({
            let (a, b) = split_space(s@);
            r.0@ == a && match r.1 {
                Some(v) => b == Some(v@),
                None => b is None,
            }
        }),
{
    let mut i: usize = 0;
    while i < s.len() && s[i] != ' '
        invariant
            i <= s@.len(),
            find_space(s@, 0) == find_space(s@, i as int),
        decreases s@.len() - i,
    {
        i += 1;
    }
    if i < s.len() {
        (slice_exec(s, 0, i), Some(skip_exec(s, i + 1)))
    } else {
        assert(s@.take(s@.len() as int) =~= s@);
        (slice_exec(s, 0, i), None)
    }
}

} // verus!

verus! {

/// `std::io::Error`, carried opaque: the error of a file that could not be read.
#[verifier::external_type_specification]
#[verifier::external_body]
pub struct ExIoError(std::io::Error);

/// Why a declaration file could not be read.
#[derive(Debug)]
pub enum DeclsFileParseError {
    FileError(std::io::Error),
    BadHeader(&'static str),
    BadStructure(&'static str),
    /// A program point whose lines do not follow the format.
    MalformedPpt,
}

pub open spec fn err_view(e: DeclsFileParseError) -> ParseErr {
    match e {
        DeclsFileParseError::FileError(_) => ParseErr::FileError,
        DeclsFileParseError::BadHeader(m) => ParseErr::BadHeader(m@),
        DeclsFileParseError::BadStructure(m) => ParseErr::BadStructure(m@),
        DeclsFileParseError::MalformedPpt => ParseErr::MalformedPpt,
    }
}

/// What reading a declaration file gives: its program points, a refusal, or
/// a variable lacking its `var-kind` or `dec-type` line.
pub enum ReadResult {
    Read(StrMap<ProgramPoint>),
    Refused(DeclsFileParseError),
    MissingVarKind,
    MissingDecType,
}

/// Whether `r` is what the outcome `o` describes.
pub open spec fn read_matches(r: ReadResult, o: Outcome) -> bool {
    match (r, o) {
        (ReadResult::Read(m), Outcome::Parsed(s)) => m@ == s,
        (ReadResult::Refused(e), Outcome::Refused(pe)) => err_view(e) == pe,
        (ReadResult::MissingVarKind, Outcome::MissingVarKind) => true,
        (ReadResult::MissingDecType, Outcome::MissingDecType) => true,
        _ => false,
    }
}

/// Every program point keeps its variables and parents in name order.
pub open spec fn ppts_wf(s: Seq<(Seq<char>, PptV)>) -> bool {
    forall|i: int|
        0 <= i < s.len() ==> keys_sorted(#[trigger] s[i].1.variables) && keys_sorted(
            s[i].1.parents,
        )
}

struct FieldsAcc {
    var_kind: Option<VarKind>,
    dec_type: Option<DecType>,
    enclosing_var: Option<String>,
    array: Option<u8>,
    constant: Option<String>,
    comparability: Option<u64>,
}

spec fn fields_view(f: FieldsAcc) -> FieldsV {
    FieldsV {
        var_kind: match f.var_kind {
            Some(k) => Some(k@),
            None => None,
        },
        dec_type: match f.dec_type {
            Some(d) => Some(d@),
            None => None,
        },
        enclosing_var: match f.enclosing_var {
            Some(e) => Some(e@),
            None => None,
        },
        array: f.array,
        constant: match f.constant {
            Some(c) => Some(c@),
            None => None,
        },
        comparability: f.comparability,
    }
}

enum PState {
    Top,
    ExpectType { name: Vec<char> },
    Parents { name: Vec<char>, ptype: ProgramPointType, parents: StrMap<(ParentRelationType, u64)> },
    Vars {
        name: Vec<char>,
        ptype: ProgramPointType,
        parents: StrMap<(ParentRelationType, u64)>,
        vars: StrMap<VariableDecl>,
    },
    Fields {
        name: Vec<char>,
        ptype: ProgramPointType,
        parents: StrMap<(ParentRelationType, u64)>,
        vars: StrMap<VariableDecl>,
        vname: Vec<char>,
        fields: FieldsAcc,
    },
}

spec fn st_of(acc: Seq<(Seq<char>, PptV)>, s: PState) -> St {
    match s {
        PState::Top => St::Top { acc },
        PState::ExpectType { name } => St::ExpectType { acc, name: name@ },
        PState::Parents { name, ptype, parents } => St::Parents {
            acc,
            name: name@,
            ptype,
            parents: parents@,
        },
        PState::Vars { name, ptype, parents, vars } => St::Vars {
            acc,
            name: name@,
            ptype,
            parents: parents@,
            vars: vars@,
        },
        PState::Fields { name, ptype, parents, vars, vname, fields } => St::Fields {
            acc,
            name: name@,
            ptype,
            parents: parents@,
            vars: vars@,
            vname: vname@,
            fields: fields_view(fields),
        },
    }
}

spec fn pstate_wf(s: PState) -> bool {
    match s {
        PState::Top => true,
        PState::ExpectType { .. } => true,
        PState::Parents { parents, .. } => parents.wf(),
        PState::Vars { parents, vars, .. } => parents.wf() && vars.wf(),
        PState::Fields { parents, vars, .. } => parents.wf() && vars.wf(),
    }
}

enum ExecStep {
    Next(StrMap<ProgramPoint>, PState),
    Stop(ReadResult),
}

spec fn exec_step_matches(r: ExecStep, s: Step) -> bool {
    match (r, s) {
        (ExecStep::Next(a, p), Step::Next(st)) => st_of(a@, p) == st && a.wf() && ppts_wf(a@)
            && pstate_wf(p),
        (ExecStep::Stop(rr), Step::Stop(o)) => read_matches(rr, o),
        _ => false,
    }
}

} // verus!

verus! {

pub(crate) proof fn lemma_ppts_wf_insert(s: Seq<(Seq<char>, PptV)>, k: Seq<char>, p: PptV)
    requires
        ppts_wf(s),
        keys_sorted(p.variables),
        keys_sorted(p.parents),
    ensures
        ppts_wf(seq_insert(s, k, p)),
{
    lemma_insert_elements(s, k, p);
    let r = seq_insert(s, k, p);
    assert forall|i: int| 0 <= i < r.len() implies keys_sorted(#[trigger] r[i].1.variables)
        && keys_sorted(r[i].1.parents) by {
        if r[i] != (k, p) {
            let j = choose|j: int| 0 <= j < s.len() && s[j] == r[i];
            assert(keys_sorted(s[j].1.variables));
        }
    }
}

fn finish_ppt_exec(
    acc: &mut StrMap<ProgramPoint>,
    name: &Vec<char>,
    ptype: ProgramPointType,
    parents: StrMap<(ParentRelationType, u64)>,
    vars: StrMap<VariableDecl>,
)
    requires
        old(acc).wf(),
        ppts_wf(old(acc)@),
        parents.wf(),
        vars.wf(),
    ensures
        final(acc).wf(),
        ppts_wf(final(acc)@),
        final(acc)@ == finish_ppt(old(acc)@, name@, ptype, parents@, vars@),
{
    let ppt = ProgramPoint::new(ptype, vars, parents);
    proof {
        lemma_ppts_wf_insert(acc@, name@, ppt@);
    }
    acc.insert(string_of(name, 0, name.len()), ppt);
    assert(name@.subrange(0, name@.len() as int) =~= name@);
}

fn top_step_exec(acc: StrMap<ProgramPoint>, l: &Vec<char>) -> (r: ExecStep)
    requires
        acc.wf(),
        ppts_wf(acc@),
    ensures
        exec_step_matches(r, top_step(acc@, l@)),
{
    match strip_prefix_exec(l, "ppt ") {
        Some(name) => ExecStep::Next(acc, PState::ExpectType { name }),
        None => ExecStep::Stop(
            ReadResult::Refused(
                DeclsFileParseError::BadStructure("did not find ppt tag where expected"),
            ),
        ),
    }
}

fn vars_step_exec(
    acc: StrMap<ProgramPoint>,
    name: Vec<char>,
    ptype: ProgramPointType,
    parents: StrMap<(ParentRelationType, u64)>,
    vars: StrMap<VariableDecl>,
    l: &Vec<char>,
) -> (r: ExecStep)
    requires
        acc.wf(),
        ppts_wf(acc@),
        parents.wf(),
        vars.wf(),
    ensures
        exec_step_matches(r, vars_step(acc@, name@, ptype, parents@, vars@, l@)),
{
    match strip_prefix_exec(l, "variable ") {
        Some(vname) => ExecStep::Next(
            acc,
            PState::Fields {
                name,
                ptype,
                parents,
                vars,
                vname,
                fields: FieldsAcc {
                    var_kind: None,
                    dec_type: None,
                    enclosing_var: None,
                    array: None,
                    constant: None,
                    comparability: None,
                },
            },
        ),
        None => {
            let mut acc = acc;
            finish_ppt_exec(&mut acc, &name, ptype, parents, vars);
            top_step_exec(acc, l)
        },
    }
}

fn ppt_type_of_exec(name: &Vec<char>, t: &Vec<char>) -> (r: Option<ProgramPointType>)
    ensures
        r == ppt_type_of(name@, t@),
{
    if eq_exec(t, "enter") {
        Some(ProgramPointType::Enter)
    } else if eq_exec(t, "exit") {
        Some(ProgramPointType::Exit)
    } else if eq_exec(t, "subexit") {
        match after_last_exec(name, ":::EXIT") {
            Some(suffix) => match parse_unsigned_exec(&suffix, 0, suffix.len(), u64::MAX) {
                Some(id) => {
                    assert(suffix@.subrange(0, suffix@.len() as int) =~= suffix@);
                    Some(ProgramPointType::ExitNN(id))
                },
                None => {
                    assert(suffix@.subrange(0, suffix@.len() as int) =~= suffix@);
                    None
                },
            },
            None => None,
        }
    } else {
        None
    }
}

fn relation_of_exec(s: &Vec<char>) -> (r: Option<ParentRelationType>)
    ensures
        r == relation_of(s@),
{
    if eq_exec(s, "parent") {
        Some(ParentRelationType::Parent)
    } else if eq_exec(s, "enter-exit") {
        Some(ParentRelationType::EnterExit)
    } else if eq_exec(s, "exit-exitnn") {
        Some(ParentRelationType::ExitExitNN)
    } else {
        None
    }
}

fn parent_of_exec(rest: &Vec<char>) -> (r: Option<(Vec<char>, (ParentRelationType, u64))>)
    ensures
        match r {
            Some(p) => parent_of(rest@) == Some((p.0@, p.1)),
            None => parent_of(rest@) is None,
        },
{
    let (rel, r1) = split_space_exec(rest);
    match r1 {
        None => None,
        Some(r1) => {
            let (pname, r2) = split_space_exec(&r1);
            match r2 {
                None => None,
                Some(idv) => {
                    assert(idv@.subrange(0, idv@.len() as int) =~= idv@);
                    match (parse_unsigned_exec(&idv, 0, idv.len(), u64::MAX), relation_of_exec(&rel)) {
                        (Some(v), Some(r)) => Some((pname, (r, v))),
                        _ => None,
                    }
                },
            }
        },
    }
}

fn var_kind_of_exec(rest: &Vec<char>) -> (r: Option<VarKind>)
    ensures
        match r {
            Some(k) => var_kind_of(rest@) == Some(k@),
            None => var_kind_of(rest@) is None,
        },
{
    if eq_exec(rest, "variable") {
        Some(VarKind::Variable)
    } else if eq_exec(rest, "array") {
        Some(VarKind::Array)
    } else if eq_exec(rest, "return") {
        Some(VarKind::Return)
    } else {
        match strip_prefix_exec(rest, "field ") {
            Some(rel) => Some(VarKind::Field(string_all(&rel))),
            None => match strip_prefix_exec(rest, "function ") {
                Some(rel) => Some(VarKind::Function(string_all(&rel))),
                None => None,
            },
        }
    }
}

/// The whole of `v` as a string.
fn string_all(v: &Vec<char>) -> (s: String)
    ensures
        s@ == v@,
{
    assert(v@.subrange(0, v@.len() as int) =~= v@);
    string_of(v, 0, v.len())
}

fn read_field_exec(f: FieldsAcc, t: &Vec<char>) -> (r: Option<FieldsAcc>)
    ensures
        match r {
            Some(g) => read_field(fields_view(f), t@) == Some(fields_view(g)),
            None => read_field(fields_view(f), t@) is None,
        },
{
    let mut f = f;
    if let Some(rest) = strip_prefix_exec(t, "var-kind ") {
        match var_kind_of_exec(&rest) {
            Some(k) => {
                f.var_kind = Some(k);
                Some(f)
            },
            None => None,
        }
    } else if let Some(rest) = strip_prefix_exec(t, "dec-type ") {
        let s = string_all(&rest);
        f.dec_type = Some(DecType::from_name(s.as_str()));
        Some(f)
    } else if starts_with_exec(t, "rep-type ") {
        Some(f)
    } else if let Some(rest) = strip_prefix_exec(t, "enclosing-var ") {
        f.enclosing_var = Some(string_all(&rest));
        Some(f)
    } else if let Some(rest) = strip_prefix_exec(t, "array ") {
        assert(rest@.subrange(0, rest@.len() as int) =~= rest@);
        match parse_unsigned_exec(&rest, 0, rest.len(), 255) {
            Some(a) => {
                f.array = Some(a as u8);
                Some(f)
            },
            None => None,
        }
    } else if let Some(rest) = strip_prefix_exec(t, "constant ") {
        f.constant = Some(string_all(&rest));
        Some(f)
    } else if let Some(rest) = strip_prefix_exec(t, "comparability ") {
        assert(rest@.subrange(0, rest@.len() as int) =~= rest@);
        match parse_i64_exec(&rest, 0, rest.len()) {
            Some(v) => {
                f.comparability = if v < 0 {
                    None
                } else {
                    Some(v as u64)
                };
                Some(f)
            },
            None => None,
        }
    } else {
        None
    }
}

fn decl_of_exec(f: FieldsAcc) -> (d: VariableDecl)
    requires
        f.var_kind is Some,
        f.dec_type is Some,
    ensures
        d@ == decl_of(fields_view(f)),
{
    let FieldsAcc { var_kind, dec_type, enclosing_var, array, constant, comparability } = f;
    let var_kind = match var_kind {
        Some(k) => k,
        None => VarKind::Variable,
    };
    let dec_type = match dec_type {
        Some(d) => d,
        None => DecType::Bool,
    };
    let enclosing = match enclosing_var {
        Some(e) => Some(VarName::new(e)),
        None => None,
    };
    let c = match constant {
        Some(s) => Constant::from_text(s.as_str()),
        None => Constant::Absent,
    };
    VariableDecl::new(var_kind, dec_type).with_enclosing_var(enclosing).with_array(
        array,
    ).with_constant(c).with_comparability(comparability)
}

fn missing_exec(f: &FieldsAcc) -> (r: Option<ReadResult>)
    ensures
        match r {
            Some(rr) => missing(fields_view(*f)) matches Some(o) && read_matches(rr, o),
            None => missing(fields_view(*f)) is None,
        },
{
    if f.var_kind.is_none() {
        Some(ReadResult::MissingVarKind)
    } else if f.dec_type.is_none() {
        Some(ReadResult::MissingDecType)
    } else {
        None
    }
}

fn step_exec(acc: StrMap<ProgramPoint>, st: PState, l: &Vec<char>) -> (r: ExecStep)
    requires
        acc.wf(),
        ppts_wf(acc@),
        pstate_wf(st),
    ensures
        exec_step_matches(r, step(st_of(acc@, st), l@)),
{
    match st {
        PState::Top => top_step_exec(acc, l),
        PState::ExpectType { name } => match strip_prefix_exec(l, "ppt-type ") {
            Some(t) => match ppt_type_of_exec(&name, &t) {
                Some(ptype) => {
                    let parents = StrMap::new();
                    ExecStep::Next(acc, PState::Parents { name, ptype, parents })
                },
                None => ExecStep::Stop(ReadResult::Refused(DeclsFileParseError::MalformedPpt)),
            },
            None => ExecStep::Stop(ReadResult::Refused(DeclsFileParseError::MalformedPpt)),
        },
        PState::Parents { name, ptype, parents } => match strip_prefix_exec(l, "parent ") {
            Some(rest) => match parent_of_exec(&rest) {
                Some((pname, rel)) => {
                    let mut parents = parents;
                    parents.insert(string_all(&pname), rel);
                    ExecStep::Next(acc, PState::Parents { name, ptype, parents })
                },
                None => ExecStep::Stop(ReadResult::Refused(DeclsFileParseError::MalformedPpt)),
            },
            None => {
                let vars = StrMap::new();
                vars_step_exec(acc, name, ptype, parents, vars, l)
            },
        },
        PState::Vars { name, ptype, parents, vars } => vars_step_exec(
            acc,
            name,
            ptype,
            parents,
            vars,
            l,
        ),
        PState::Fields { name, ptype, parents, vars, vname, fields } => {
            let t = trim_start_exec(l);
            if starts_with_exec(&t, "ppt ") || starts_with_exec(&t, "variable ")
                || starts_with_exec(&t, "parent ") {
                if let Some(rr) = missing_exec(&fields) {
                    return ExecStep::Stop(rr);
                }
                let decl = decl_of_exec(fields);
                let mut vars = vars;
                vars.insert(string_all(&vname), decl);
                vars_step_exec(acc, name, ptype, parents, vars, l)
            } else {
                match read_field_exec(fields, &t) {
                    Some(f) => ExecStep::Next(
                        acc,
                        PState::Fields { name, ptype, parents, vars, vname, fields: f },
                    ),
                    None => ExecStep::Stop(ReadResult::Refused(DeclsFileParseError::MalformedPpt)),
                }
            }
        },
    }
}

fn finish_exec(acc: StrMap<ProgramPoint>, st: PState) -> (r: ReadResult)
    requires
        acc.wf(),
        ppts_wf(acc@),
        pstate_wf(st),
    ensures
        read_matches(r, finish(st_of(acc@, st))),
        r matches ReadResult::Read(m) ==> m.wf() && ppts_wf(m@),
{
    let mut acc = acc;
    match st {
        PState::Top => ReadResult::Read(acc),
        PState::ExpectType { .. } => ReadResult::Refused(DeclsFileParseError::MalformedPpt),
        PState::Parents { name, ptype, parents } => {
            finish_ppt_exec(&mut acc, &name, ptype, parents, StrMap::new());
            ReadResult::Read(acc)
        },
        PState::Vars { name, ptype, parents, vars } => {
            finish_ppt_exec(&mut acc, &name, ptype, parents, vars);
            ReadResult::Read(acc)
        },
        PState::Fields { name, ptype, parents, vars, vname, fields } => {
            if let Some(rr) = missing_exec(&fields) {
                return rr;
            }
            let decl = decl_of_exec(fields);
            let mut vars = vars;
            vars.insert(string_all(&vname), decl);
            finish_ppt_exec(&mut acc, &name, ptype, parents, vars);
            ReadResult::Read(acc)
        },
    }
}

/// Reads the text of a declaration file.
pub fn read_decls(content: &str) -> (r: ReadResult)
    ensures
        read_matches(r, parse_decls_text(content@)),
        r matches ReadResult::Read(m) ==> m.wf() && ppts_wf(m@),
{
    let ls = clean_lines_exec(content);
    let ghost lv = lines_view(ls@);
    if ls.len() < 1 || !eq_exec(&ls[0], "decl-version 2.0") {
        return ReadResult::Refused(
            DeclsFileParseError::BadHeader("Input file is not of decls version 2.0"),
        );
    }
    if ls.len() < 2 || !eq_exec(&ls[1], "input-language rust") {
        return ReadResult::Refused(
            DeclsFileParseError::BadHeader("Non-rust decls file provided as input"),
        );
    }
    // not checking comparability; the rest of the header is skipped.
    let mut i: usize = 2;
    while i < ls.len() && !starts_with_exec(&ls[i], "ppt")
        invariant
            2 <= i <= ls@.len(),
            lv == lines_view(ls@),
            skip_header(lv, 2) == skip_header(lv, i as int),
        decreases ls@.len() - i,
    {
        i += 1;
    }
    let mut acc: StrMap<ProgramPoint> = StrMap::new();
    let mut st = PState::Top;
    assert(ppts_wf(acc@));
    while i < ls.len()
        invariant
            i <= ls@.len(),
            lv == lines_view(ls@),
            lv == clean_lines(content@),
            acc.wf(),
            ppts_wf(acc@),
            pstate_wf(st),
            run(lv, i as int, st_of(acc@, st)) == parse_decls_text(content@),
        decreases ls@.len() - i,
    {
        assert(lv[i as int] == ls@[i as int]@);
        match step_exec(acc, st, &ls[i]) {
            ExecStep::Next(a, s) => {
                acc = a;
                st = s;
            },
            ExecStep::Stop(r) => {
                return r;
            },
        }
        i += 1;
    }
    finish_exec(acc, st)
}

} // verus!
