use vstd::prelude::*;
use vstd::string::StringExecFns;

use crate::fields::{lines_text, push_line};
use crate::order::{compare_strs, seq_lt};
use crate::parse::{parse_decls_text, ppts_wf, read_decls, read_matches, DeclsFileParseError, Outcome, ReadResult, err_view};
use crate::globals::Global;
use crate::ppt::{
    enter_name, exit_name, globals_entries, insert_all, lemma_insert_all_sorted, ppt_lines,
    subexit_name, PptV, ProgramPoint, RETURN_VAR_NAME,
};
use crate::text::dec_digits;
use crate::strmap::{keys_sorted, seq_get, seq_insert, StrMap};

verus! {

/// A whole declaration file: its program points, by name.
#[derive(Debug)]
pub struct DeclsFile {
    ppts: StrMap<ProgramPoint>,
}

impl View for DeclsFile {
    type V = Seq<(Seq<char>, PptV)>;

    closed spec fn view(&self) -> Seq<(Seq<char>, PptV)> {
        self.ppts@
    }
}

/// The names and program points of a sequence of entries.
pub open spec fn entry_views(r: Seq<(&String, &ProgramPoint)>) -> Seq<(Seq<char>, PptV)> {
    r.map_values(|e: (&String, &ProgramPoint)| (e.0@, e.1@))
}

/// Every program point belongs to a function.
pub open spec fn all_owned(s: Seq<(Seq<char>, PptV)>) -> bool {
    forall|i: int| 0 <= i < s.len() ==> (#[trigger] s[i]).1.def_id is Some
}

/// A program point with the globals visible from its function added.
pub open spec fn with_globals(p: PptV, globals: Seq<Global>, depth: Option<usize>) -> PptV {
    PptV {
        variables: insert_all(
            p.variables,
            globals_entries(globals, globals.len(), p.def_id->0, depth),
        ),
        ..p
    }
}

/// The lines that open a declaration file.
pub open spec fn header_lines() -> Seq<Seq<char>> {
    seq![
        "decl-version 2.0"@,
        "input-language rust"@,
        "var-comparability implicit"@,
        Seq::<char>::empty(),
    ]
}

/// The lines of the program points, in name order.
pub open spec fn ppts_lines(s: Seq<(Seq<char>, PptV)>) -> Seq<Seq<char>>
    decreases s.len(),
{
    if s.len() == 0 {
        Seq::empty()
    } else {
        ppts_lines(s.drop_last()) + ppt_lines(s.last().0, s.last().1)
    }
}

/// The lines of a declaration file, in the .decls format.
pub open spec fn decls_lines(d: Seq<(Seq<char>, PptV)>) -> Seq<Seq<char>> {
    header_lines() + ppts_lines(d)
}

/// The program points of `s` whose names `k` lie in `lo <= k < hi`.
pub open spec fn range_values(s: Seq<(Seq<char>, PptV)>, lo: Seq<char>, hi: Seq<char>) -> Seq<
    PptV,
>
    decreases s.len(),
{
    if s.len() == 0 {
        Seq::empty()
    } else {
        let k = s.last().0;
        range_values(s.drop_last(), lo, hi) + if !seq_lt(k, lo) && seq_lt(k, hi) {
            seq![s.last().1]
        } else {
            Seq::empty()
        }
    }
}

/// The first name at or after every program point of `base`.
pub open spec fn ppts_lo(base: Seq<char>) -> Seq<char> {
    base + ":::"@
}

/// A name after every program point of `base`: `~` (0x7E) sorts after any digit or letter.
pub open spec fn ppts_hi(base: Seq<char>) -> Seq<char> {
    base + ":::~"@
}

/// Identifies a variable for [`DeclsFile::var_name`]. Use Global
/// for any const or static item (by the file it is defined in and its
/// definition path). Local for a formal parameter. Return for the return value.
pub enum VarIdent {
    Local(String),
    Return,
    Global { file: String, def_path: String },
}

/// The name under which a variable is declared.
pub open spec fn var_ident_name(v: VarIdent) -> Seq<char> {
    match v {
        VarIdent::Local(name) => name@,
        VarIdent::Return => "return"@,
        VarIdent::Global { file, def_path } => file@ + "::"@ + def_path@,
    }
}

/// What reading the text of a declaration file gives.
pub enum DeclsParse {
    Parsed(DeclsFile),
    Refused(DeclsFileParseError),
    /// A variable without a `var-kind` line.
    MissingVarKind,
    /// A variable without a `dec-type` line.
    MissingDecType,
}

impl DeclsFile {
    /// Program points are kept in name order, and so are their variables and parents.
    pub open spec fn wf(&self) -> bool {
        keys_sorted(self@) && ppts_wf(self@)
    }

    pub fn new() -> (d: Self)
        ensures
            d@ == Seq::<(Seq<char>, PptV)>::empty(),
            d.wf(),
    {
        DeclsFile { ppts: StrMap::new() }
    }

    /// Creates a string representation of the entire decls file, in the .decls format.
    pub fn to_string(&self) -> (s: String)
        ensures
            s@ == lines_text(decls_lines(self@)),
    {
        let mut out = String::new();
        let ghost mut cur = Seq::<Seq<char>>::empty();
        assert(out@ =~= lines_text(cur));
        let line = String::from_str("decl-version 2.0");
        push_line(&mut out, &line, Ghost(cur));
        proof {
            cur = cur.push(line@);
        }
        let line = String::from_str("input-language rust");
        push_line(&mut out, &line, Ghost(cur));
        proof {
            cur = cur.push(line@);
        }
        let line = String::from_str("var-comparability implicit");
        push_line(&mut out, &line, Ghost(cur));
        proof {
            cur = cur.push(line@);
        }
        let line = String::new();
        push_line(&mut out, &line, Ghost(cur));
        proof {
            cur = cur.push(line@);
        }
        assert(cur =~= header_lines());
        let mut i: usize = 0;
        assert(self@.take(0) =~= Seq::<(Seq<char>, PptV)>::empty());
        assert(cur + ppts_lines(Seq::empty()) =~= cur);
        while i < self.ppts.len()
            invariant
                i <= self@.len(),
                self@ == self.ppts@,
                cur == header_lines() + ppts_lines(self@.take(i as int)),
                out@ == lines_text(cur),
            decreases self@.len() - i,
        {
            let (name, ppt) = self.ppts.entry(i);
            ppt.write_lines(name, &mut out, Ghost(cur));
            proof {
                cur = cur + ppt_lines(name@, ppt@);
                let t = self@.take(i + 1);
                assert(t.drop_last() =~= self@.take(i as int));
                assert(cur =~= header_lines() + ppts_lines(t));
            }
            i += 1;
        }
        assert(self@.take(i as int) =~= self@);
        out
    }

    /// Reads the text of an existing decls file.
    pub fn parse_decls(content: &str) -> (r: DeclsParse)
        ensures
            match (r, parse_decls_text(content@)) {
                (DeclsParse::Parsed(d), Outcome::Parsed(s)) => d@ == s && d.wf(),
                (DeclsParse::Refused(e), Outcome::Refused(pe)) => err_view(e) == pe,
                (DeclsParse::MissingVarKind, Outcome::MissingVarKind) => true,
                (DeclsParse::MissingDecType, Outcome::MissingDecType) => true,
                _ => false,
            },
    {
        match read_decls(content) {
            ReadResult::Read(m) => DeclsParse::Parsed(DeclsFile { ppts: m }),
            ReadResult::Refused(e) => DeclsParse::Refused(e),
            ReadResult::MissingVarKind => DeclsParse::MissingVarKind,
            ReadResult::MissingDecType => DeclsParse::MissingDecType,
        }
    }

    pub fn add_program_point(&mut self, name: String, ppt: ProgramPoint)
        requires
            old(self).wf(),
            ppt.wf(),
        ensures
            final(self).wf(),
            final(self)@ == seq_insert(old(self)@, name@, ppt@),
    {
        proof {
            crate::parse::lemma_ppts_wf_insert(self@, name@, ppt@);
        }
        self.ppts.insert(name, ppt);
    }

    /// Compute the fully qualified base ppt name for a function or method
    /// defined in `file` at the definition path `def_path`,
    /// without any `:::ENTER` / `:::EXIT` / `:::EXIT{N}` suffix.
    /// Can be used to query for all ENTER/EXIT/EXITNN ppts that correspond
    /// to this base name, via DeclsFile::ppts_for().
    pub fn ppt_base_name(file: &str, def_path: &str) -> (s: String)
        ensures
            s@ == file@ + "::"@ + def_path@,
    {
        let mut s = String::from_str(file);
        s.append("::");
        s.append(def_path);
        s
    }

    /// Compute the variable key used to look up a VariableDecl inside a
    /// ProgramPoint. Globals get a fully qualified <file_path>::<def_path>.
    /// formals/return get their normal name.
    pub fn var_name(v: VarIdent) -> (s: String)
        ensures
            s@ == var_ident_name(v),
    {
        match v {
            VarIdent::Local(name) => name,
            VarIdent::Return => String::from_str(RETURN_VAR_NAME),
            VarIdent::Global { file, def_path } => Self::ppt_base_name(
                file.as_str(),
                def_path.as_str(),
            ),
        }
    }

    /// get all program points (ENTER, EXIT, every EXITNN) for the given base ppt
    /// name.
    pub fn ppts_for(&self, base_ppt_name: &str) -> (r: Vec<&ProgramPoint>)
        ensures
            r@.map_values(|p: &ProgramPoint| p@) == range_values(
                self@,
                ppts_lo(base_ppt_name@),
                ppts_hi(base_ppt_name@),
            ),
    {
        let mut lo = String::from_str(base_ppt_name);
        lo.append(":::");
        let mut hi = String::from_str(base_ppt_name);
        hi.append(":::~");
        let ghost l = ppts_lo(base_ppt_name@);
        let ghost h = ppts_hi(base_ppt_name@);
        let mut r: Vec<&ProgramPoint> = Vec::new();
        let mut i: usize = 0;
        assert(self@.take(0) =~= Seq::<(Seq<char>, PptV)>::empty());
        assert(r@.map_values(|p: &ProgramPoint| p@) =~= range_values(self@.take(0), l, h));
        while i < self.ppts.len()
            invariant
                i <= self@.len(),
                self@ == self.ppts@,
                lo@ == l,
                hi@ == h,
                r@.map_values(|p: &ProgramPoint| p@) == range_values(self@.take(i as int), l, h),
            decreases self@.len() - i,
        {
            let (name, ppt) = self.ppts.entry(i);
            let ghost t = self@.take(i + 1);
            assert(t.drop_last() =~= self@.take(i as int));
            if compare_strs(name.as_str(), lo.as_str()) >= 0 && compare_strs(
                name.as_str(),
                hi.as_str(),
            ) < 0 {
                r.push(ppt);
                assert(r@.map_values(|p: &ProgramPoint| p@) =~= range_values(t, l, h));
            } else {
                assert(r@.map_values(|p: &ProgramPoint| p@) =~= range_values(t, l, h));
            }
            i += 1;
        }
        assert(self@.take(i as int) =~= self@);
        r
    }

    /// The positions, in name order, of all program points (ENTER, EXIT, every
    /// EXITnn) for the given base ppt name: what `ppts_for` returns, by
    /// position, so that each can be changed with `ppt_at_mut`.
    pub fn ppt_positions_for(&self, base_ppt_name: &str) -> (r: Vec<usize>)
        ensures
            forall|k: int| 0 <= k < r@.len() ==> #[trigger] r@[k] < self@.len(),
            forall|k: int, l: int| 0 <= k < l < r@.len() ==> #[trigger] r@[k] < #[trigger] r@[l],
            forall|i: int|
                0 <= i < self@.len() ==> (r@.contains(i as usize) <==> (!seq_lt(
                    #[trigger] self@[i].0,
                    ppts_lo(base_ppt_name@),
                ) && seq_lt(self@[i].0, ppts_hi(base_ppt_name@)))),
    {
        let mut lo = String::from_str(base_ppt_name);
        lo.append(":::");
        let mut hi = String::from_str(base_ppt_name);
        hi.append(":::~");
        let ghost l = ppts_lo(base_ppt_name@);
        let ghost h = ppts_hi(base_ppt_name@);
        let mut r: Vec<usize> = Vec::new();
        let mut i: usize = 0;
        while i < self.ppts.len()
            invariant
                i <= self@.len(),
                self@ == self.ppts@,
                lo@ == l,
                hi@ == h,
                forall|k: int| 0 <= k < r@.len() ==> #[trigger] r@[k] < i,
                forall|k: int, m: int| 0 <= k < m < r@.len() ==> #[trigger] r@[k] < #[trigger] r@[m],
                forall|j: int|
                    0 <= j < i ==> (r@.contains(j as usize) <==> (!seq_lt(#[trigger] self@[j].0, l)
                        && seq_lt(self@[j].0, h))),
            decreases self@.len() - i,
        {
            let (name, _) = self.ppts.entry(i);
            let inside = compare_strs(name.as_str(), lo.as_str()) >= 0 && compare_strs(
                name.as_str(),
                hi.as_str(),
            ) < 0;
            let ghost r0 = r@;
            if inside {
                r.push(i);
            }
            proof {
                assert forall|j: int|
                    0 <= j < i + 1 implies (r@.contains(j as usize) <==> (!seq_lt(
                        #[trigger] self@[j].0,
                        l,
                    ) && seq_lt(self@[j].0, h))) by {
                    if j < i {
                        if r0.contains(j as usize) {
                            let k = choose|k: int| 0 <= k < r0.len() && r0[k] == j as usize;
                            assert(r@[k] == r0[k]);
                        }
                        if r@.contains(j as usize) {
                            let k = choose|k: int| 0 <= k < r@.len() && r@[k] == j as usize;
                            if k < r0.len() {
                                assert(r0[k] == r@[k]);
                            }
                        }
                    } else {
                        if inside {
                            assert(r@[r@.len() - 1] == i);
                        } else {
                            if r@.contains(j as usize) {
                                let k = choose|k: int| 0 <= k < r@.len() && r@[k] == j as usize;
                            }
                        }
                    }
                }
            }
            i += 1;
        }
        r
    }

    /// A mutable handle on the program point at position `i` in name order.
    pub fn ppt_at_mut(&mut self, i: usize) -> (r: &mut ProgramPoint)
        requires
            i < old(self)@.len(),
        ensures
            (*r)@ == old(self)@[i as int].1,
            final(self)@ == old(self)@.update(i as int, (old(self)@[i as int].0, (*final(r))@)),
            old(self).wf() && (*final(r)).wf() ==> final(self).wf(),
    {
        proof {
            if self.wf() {
                lemma_update_wf(self@, i as int);
            }
        }
        self.ppts.value_at_mut(i)
    }

    pub fn get_program_point_mut(&mut self, name: &str) -> (r: Option<&mut ProgramPoint>)
        requires
            old(self).wf(),
        ensures
            r is Some <==> seq_get(old(self)@, name@) is Some,
            r matches Some(p) ==> seq_get(old(self)@, name@) == Some((*p)@),
            r matches Some(p) ==> final(self)@ == seq_insert(old(self)@, name@, (*final(p))@),
            r is None ==> final(self)@ == old(self)@,
    {
        self.ppts.get_mut(name)
    }

    pub fn get_program_point(&self, name: &str) -> (r: Option<&ProgramPoint>)
        ensures
            match r {
                Some(p) => seq_get(self@, name@) == Some(p@),
                None => seq_get(self@, name@) is None,
            },
    {
        self.ppts.get(name)
    }

    /// The program points with their names, in name order.
    pub fn iter(&self) -> (r: Vec<(&String, &ProgramPoint)>)
        ensures
            entry_views(r@) == self@,
    {
        let mut r: Vec<(&String, &ProgramPoint)> = Vec::new();
        let mut i: usize = 0;
        while i < self.ppts.len()
            invariant
                i <= self@.len(),
                self@ == self.ppts@,
                entry_views(r@) == self@.take(i as int),
                r@.len() == i,
            decreases self@.len() - i,
        {
            let e = self.ppts.entry(i);
            let ghost prev = r@;
            r.push(e);
            assert(r@ == prev.push(e));
            assert forall|j: int| 0 <= j < i + 1 implies #[trigger] entry_views(r@)[j] == self@.take(
                i + 1,
            )[j] by {
                if j < i {
                    assert(r@[j] == prev[j]);
                    assert(entry_views(prev)[j] == self@.take(i as int)[j]);
                }
            }
            assert(entry_views(r@) =~= self@.take(
                i + 1,
            ));
            i += 1;
        }
        assert(self@.take(i as int) =~= self@);
        r
    }

    /// Adds to every program point the globals visible from it.
    pub fn add_globals_to_all(&mut self, globals: &[Global], max_recursive_depth: Option<usize>)
        requires
            old(self).wf(),
            all_owned(old(self)@),
        ensures
            final(self).wf(),
            all_owned(final(self)@),
            final(self)@ == old(self)@.map_values(
                |e: (Seq<char>, PptV)| (e.0, with_globals(e.1, globals@, max_recursive_depth)),
            ),
    {
        let ghost s0 = self@;
        let n = self.ppts.len();
        let mut i: usize = 0;
        while i < n
            invariant
                n == s0.len(),
                i <= n,
                self@.len() == n,
                self@ == self.ppts@,
                keys_sorted(self@),
                ppts_wf(self@),
                all_owned(self@),
                forall|j: int| 0 <= j < n ==> #[trigger] self@[j].0 == s0[j].0,
                forall|j: int|
                    0 <= j < i ==> #[trigger] self@[j].1 == with_globals(
                        s0[j].1,
                        globals@,
                        max_recursive_depth,
                    ),
                forall|j: int| i <= j < n ==> #[trigger] self@[j].1 == s0[j].1,
            decreases n - i,
        {
            let ghost before = self@;
            let p = self.ppts.value_at_mut(i);
            assert(keys_sorted(p@.variables) && keys_sorted(p@.parents)) by {
                assert(keys_sorted(before[i as int].1.variables));
            }
            p.add_globals(globals, max_recursive_depth);
            proof {
                let q = self@[i as int].1;
                lemma_insert_all_sorted(
                    before[i as int].1.variables,
                    globals_entries(
                        globals@,
                        globals@.len(),
                        before[i as int].1.def_id->0,
                        max_recursive_depth,
                    ),
                );
                assert forall|a: int, b: int| 0 <= a < b < self@.len() implies seq_lt(
                    #[trigger] self@[a].0,
                    #[trigger] self@[b].0,
                ) by {
                    assert(self@[a].0 == before[a].0 && self@[b].0 == before[b].0);
                }
                assert forall|j: int| 0 <= j < self@.len() implies keys_sorted(
                    #[trigger] self@[j].1.variables,
                ) && keys_sorted(self@[j].1.parents) by {
                    if j != i {
                        assert(self@[j] == before[j]);
                    }
                }
                assert forall|j: int| 0 <= j < self@.len() implies (#[trigger] self@[j]).1.def_id
                    is Some by {
                    if j != i {
                        assert(self@[j] == before[j]);
                    }
                }
            }
            i += 1;
        }
        let ghost target = s0.map_values(
            |e: (Seq<char>, PptV)| (e.0, with_globals(e.1, globals@, max_recursive_depth)),
        );
        assert forall|j: int| 0 <= j < n implies #[trigger] self@[j] == target[j] by {
            assert(self@[j].0 == target[j].0);
            assert(self@[j].1 == target[j].1);
        }
        assert(self@ =~= target);
    }

    /// The number of program points.
    pub fn len(&self) -> (n: usize)
        ensures
            n == self@.len(),
    {
        self.ppts.len()
    }
}

/// Comparing two names with a common beginning compares what follows it.
proof fn lemma_lt_common_prefix(a: Seq<char>, x: Seq<char>, y: Seq<char>)
    ensures
        seq_lt(a + x, a + y) == seq_lt(x, y),
    decreases a.len(),
{
    if a.len() > 0 {
        lemma_lt_common_prefix(a.drop_first(), x, y);
        assert((a + x).drop_first() =~= a.drop_first() + x);
        assert((a + y).drop_first() =~= a.drop_first() + y);
    } else {
        assert(a + x =~= x);
        assert(a + y =~= y);
    }
}

/// The name of a program point of `base` whose kind is written `kind`
/// (`ENTER`, `EXIT`, `EXIT` and a number) lies in the range that
/// `ppts_for(base)` reads.
proof fn lemma_in_range(base: Seq<char>, kind: Seq<char>)
    requires
        kind.len() > 0,
        kind[0] == 'E',
    ensures
        !seq_lt(ppts_lo(base) + kind, ppts_lo(base)),
        seq_lt(ppts_lo(base) + kind, ppts_hi(base)),
{
    reveal_strlit(":::~");
    reveal_strlit(":::");
    reveal_strlit("~");
    let lo = ppts_lo(base);
    assert(ppts_hi(base) =~= lo + "~"@);
    lemma_lt_common_prefix(lo, kind, "~"@);
    assert(lo + Seq::<char>::empty() =~= lo);
    lemma_lt_common_prefix(lo, kind, Seq::<char>::empty());
}

/// The program points of a function, in name order: the entries of `s` whose
/// names lie in `lo <= name < hi`, in their order in `s`.
proof fn lemma_range_values_has(s: Seq<(Seq<char>, PptV)>, lo: Seq<char>, hi: Seq<char>, i: int)
    requires
        0 <= i < s.len(),
        !seq_lt(s[i].0, lo),
        seq_lt(s[i].0, hi),
    ensures
        range_values(s, lo, hi).contains(s[i].1),
    decreases s.len(),
{
    let r = range_values(s, lo, hi);
    if i == s.len() - 1 {
        let r1 = range_values(s.drop_last(), lo, hi);
        assert(r == r1 + seq![s.last().1]);
        assert(r[r1.len() as int] == s[i].1);
    } else {
        let s1 = s.drop_last();
        assert(s1[i] == s[i]);
        lemma_range_values_has(s1, lo, hi, i);
        let r1 = range_values(s1, lo, hi);
        let j = choose|j: int| 0 <= j < r1.len() && r1[j] == s[i].1;
        assert(r[j] == r1[j]);
    }
}

/// What `ppts_for(base)` returns includes the ENTER, the EXIT and every EXITnn
/// program point of the function `base` that the file holds.
pub proof fn ppts_for_finds_function(s: Seq<(Seq<char>, PptV)>, base: Seq<char>, i: int)
    requires
        0 <= i < s.len(),
        s[i].0 == enter_name(base) || s[i].0 == exit_name(base) || exists|n: u64|
            s[i].0 == #[trigger] subexit_name(base, n),
    ensures
        range_values(s, ppts_lo(base), ppts_hi(base)).contains(s[i].1),
{
    reveal_strlit(":::");
    reveal_strlit(":::ENTER");
    reveal_strlit(":::EXIT");
    reveal_strlit("ENTER");
    reveal_strlit("EXIT");
    let lo = ppts_lo(base);
    if s[i].0 == enter_name(base) {
        assert(enter_name(base) =~= lo + "ENTER"@);
        lemma_in_range(base, "ENTER"@);
    } else if s[i].0 == exit_name(base) {
        assert(exit_name(base) =~= lo + "EXIT"@);
        lemma_in_range(base, "EXIT"@);
    } else {
        let n = choose|n: u64| s[i].0 == #[trigger] subexit_name(base, n);
        let kind = "EXIT"@ + dec_digits(n as nat);
        assert(subexit_name(base, n) =~= lo + kind);
        lemma_in_range(base, kind);
    }
    lemma_range_values_has(s, lo, ppts_hi(base), i);
}

/// Replacing one program point by a well-formed one under the same name keeps
/// a file well formed.
proof fn lemma_update_one_wf(s: Seq<(Seq<char>, PptV)>, i: int, p: PptV)
    requires
        0 <= i < s.len(),
        keys_sorted(s),
        ppts_wf(s),
        keys_sorted(p.variables),
        keys_sorted(p.parents),
    ensures
        keys_sorted(s.update(i, (s[i].0, p))),
        ppts_wf(s.update(i, (s[i].0, p))),
{
    let t = s.update(i, (s[i].0, p));
    assert forall|a: int, b: int| 0 <= a < b < t.len() implies seq_lt(
        #[trigger] t[a].0,
        #[trigger] t[b].0,
    ) by {
        assert(t[a].0 == s[a].0 && t[b].0 == s[b].0);
    }
    assert forall|j: int| 0 <= j < t.len() implies keys_sorted(#[trigger] t[j].1.variables)
        && keys_sorted(t[j].1.parents) by {
        if j != i {
            assert(t[j] == s[j]);
            assert(keys_sorted(s[j].1.variables));
        } else {
            assert(t[j].1 == p);
        }
    }
}

proof fn lemma_update_wf(s: Seq<(Seq<char>, PptV)>, i: int)
    requires
        0 <= i < s.len(),
        keys_sorted(s),
        ppts_wf(s),
    ensures
        forall|p: PptV|
            keys_sorted(p.variables) && keys_sorted(p.parents) ==> #[trigger] keys_sorted(
                s.update(i, (s[i].0, p)),
            ) && ppts_wf(s.update(i, (s[i].0, p))),
{
    assert forall|p: PptV| keys_sorted(p.variables) && keys_sorted(p.parents) implies #[trigger] keys_sorted(
        s.update(i, (s[i].0, p)),
    ) && ppts_wf(s.update(i, (s[i].0, p))) by {
        lemma_update_one_wf(s, i, p);
    }
}
} // verus!
