use vstd::prelude::*;

use crate::decls::{all_owned, with_globals, DeclsFile};
use crate::fields::{ParentRelationType, ProgramPointType, VarDeclV, VarKindV};
use crate::globals::Global;
use crate::parse::ppts_wf;
use crate::ppt::{
    enter_name, exit_name, expanded_declarations_inherit_tags, globals_entries, inputs_entries,
    insert_all, references_are_peeled, subexit_name, var_entries, PptV, ProgramPoint,
};
use crate::shape::TyShape;
use crate::strmap::{keys_sorted, lemma_insert_elements, seq_insert};

verus! {

/// `r` is the first line number from `l` on that is not taken yet.
pub open spec fn is_first_free(taken: Seq<u64>, l: u64, r: u64) -> bool {
    &&& l <= r
    &&& !taken.contains(r)
    &&& forall|x: u64| l <= x < r ==> taken.contains(x)
}

/// The first line number from `l` on that is not taken yet.
pub open spec fn first_free(taken: Seq<u64>, l: u64) -> u64 {
    choose|r: u64| is_first_free(taken, l, r)
}

/// The line numbers given to the return sites, in order: each the first one at
/// or after the site's own line that no earlier site got.
pub open spec fn assign_lines(ls: Seq<u64>) -> Seq<u64>
    decreases ls.len(),
{
    if ls.len() == 0 {
        Seq::empty()
    } else {
        let a = assign_lines(ls.drop_last());
        a.push(first_free(a, ls.last()))
    }
}

pub proof fn lemma_first_free_unique(taken: Seq<u64>, l: u64, r1: u64, r2: u64)
    requires
        is_first_free(taken, l, r1),
        is_first_free(taken, l, r2),
    ensures
        r1 == r2,
{
}

/// Distinct numbers covering `[lo, hi)` are at least `hi - lo` many.
proof fn lemma_cover(s: Seq<u64>, lo: int, hi: int)
    requires
        s.no_duplicates(),
        0 <= lo,
        hi <= u64::MAX + 1,
        forall|x: u64| lo <= x < hi ==> s.contains(x),
    ensures
        hi - lo <= s.len(),
    decreases hi - lo,
{
    if hi > lo {
        let v = (hi - 1) as u64;
        assert(v == hi - 1);
        assert(s.contains(v));
        let k = choose|k: int| 0 <= k < s.len() && s[k] == v;
        let t = s.remove(k);
        assert(t.no_duplicates()) by {
            assert forall|a: int, b: int| 0 <= a < t.len() && 0 <= b < t.len() && a != b implies t[a]
                != t[b] by {
                let a1 = if a < k {
                    a
                } else {
                    a + 1
                };
                let b1 = if b < k {
                    b
                } else {
                    b + 1
                };
                assert(t[a] == s[a1] && t[b] == s[b1]);
            }
        }
        assert forall|x: u64| lo <= x < hi - 1 implies t.contains(x) by {
            assert(s.contains(x));
            let j = choose|j: int| 0 <= j < s.len() && s[j] == x;
            assert(s[j] != s[k]);
            if j < k {
                assert(t[j] == s[j]);
            } else {
                assert(t[j - 1] == s[j]);
            }
        }
        lemma_cover(t, lo, hi - 1);
    }
}

/// A free line from `c` on, where everything from `l` up to `c` is taken.
proof fn lemma_find_free(taken: Seq<u64>, l: u64, c: u64) -> (r: u64)
    requires
        taken.no_duplicates(),
        l + taken.len() < u64::MAX,
        l <= c <= l + taken.len(),
        forall|x: u64| l <= x < c ==> taken.contains(x),
    ensures
        is_first_free(taken, l, r),
        r <= l + taken.len(),
    decreases l + taken.len() - c,
{
    if !taken.contains(c) {
        c
    } else if c == l + taken.len() {
        assert forall|x: u64| l <= x < c + 1 implies taken.contains(x) by {}
        lemma_cover(taken, l as int, c + 1);
        c
    } else {
        lemma_find_free(taken, l, (c + 1) as u64)
    }
}

/// The first free line from `l` on exists, and is at most `l + taken.len()`.
proof fn lemma_first_free_exists(taken: Seq<u64>, l: u64)
    requires
        taken.no_duplicates(),
        l + taken.len() < u64::MAX,
    ensures
        is_first_free(taken, l, first_free(taken, l)),
        first_free(taken, l) <= l + taken.len(),
{
    let c = lemma_find_free(taken, l, l);
    lemma_first_free_unique(taken, l, c, first_free(taken, l));
}

/// Each return site gets its own line number: the first one at or after its
/// own line that no earlier site got, so no two sites share an EXITnn.
pub proof fn return_sites_get_distinct_lines(ls: Seq<u64>)
    requires
        forall|i: int| 0 <= i < ls.len() ==> #[trigger] ls[i] + ls.len() < u64::MAX,
    ensures
        assign_lines(ls).len() == ls.len(),
        assign_lines(ls).no_duplicates(),
        forall|i: int| 0 <= i < ls.len() ==> ls[i] <= #[trigger] assign_lines(ls)[i] <= ls[i] + i,
    decreases ls.len(),
{
    if ls.len() > 0 {
        let ls1 = ls.drop_last();
        assert forall|i: int| 0 <= i < ls1.len() implies #[trigger] ls1[i] + ls1.len() < u64::MAX by {
            assert(ls1[i] == ls[i]);
        }
        return_sites_get_distinct_lines(ls1);
        let a = assign_lines(ls1);
        let l = ls.last();
        assert(ls[ls.len() - 1] + ls.len() < u64::MAX);
        lemma_first_free_exists(a, l);
        let r = first_free(a, l);
        let b = assign_lines(ls);
        assert(b == a.push(r));
        assert forall|i: int, j: int| 0 <= i < b.len() && 0 <= j < b.len() && i != j implies b[i]
            != b[j] by {
            if i == b.len() - 1 {
                assert(!a.contains(r));
                assert(b[j] == a[j]);
            } else if j == b.len() - 1 {
                assert(!a.contains(r));
                assert(b[i] == a[i]);
            } else {
                assert(b[i] == a[i] && b[j] == a[j]);
            }
        }
        assert forall|i: int| 0 <= i < ls.len() implies ls[i] <= #[trigger] b[i] <= ls[i] + i by {
            if i < ls.len() - 1 {
                assert(b[i] == a[i] && ls1[i] == ls[i]);
            }
        }
    }
}

/// Whether `x` is one of `v`.
fn contains_u64(v: &Vec<u64>, x: u64) -> (b: bool)
    ensures
        b == v@.contains(x),
{
    let mut i: usize = 0;
    while i < v.len()
        invariant
            i <= v@.len(),
            forall|j: int| 0 <= j < i ==> v@[j] != x,
        decreases v@.len() - i,
    {
        if v[i] == x {
            return true;
        }
        i += 1;
    }
    false
}

/// Gives the return site at `line` the first free line number from `line` on.
fn assign_next(taken: &mut Vec<u64>, line: u64) -> (r: u64)
    requires
        old(taken)@.no_duplicates(),
        line + old(taken)@.len() < u64::MAX,
    ensures
        r == first_free(old(taken)@, line),
        final(taken)@ == old(taken)@.push(r),
        final(taken)@.no_duplicates(),
{
    let mut candidate = line;
    while contains_u64(taken, candidate)
        invariant
            taken@.no_duplicates(),
            line + taken@.len() < u64::MAX,
            line <= candidate,
            candidate <= line + taken@.len(),
            forall|x: u64| line <= x < candidate ==> taken@.contains(x),
        decreases u64::MAX - candidate,
    {
        proof {
            lemma_cover(taken@, line as int, candidate + 1);
        }
        candidate += 1;
    }
    proof {
        assert(is_first_free(taken@, line, candidate));
        lemma_first_free_unique(taken@, line, candidate, first_free(taken@, line));
    }
    taken.push(candidate);
    candidate
}

/// The formals are all live at entry.
pub open spec fn all_live(n: nat) -> Seq<bool> {
    Seq::new(n, |i: int| false)
}

/// At exit, a formal is no longer observable to the caller iff the caller had
/// to give up ownership of it: it is neither a reference nor `Copy`.
pub open spec fn exit_uninit(tys: Seq<TyShape>, is_copy: Seq<bool>) -> Seq<bool> {
    Seq::new(tys.len(), |i: int| !(tys[i] is Ref) && !is_copy[i])
}

/// At an exit program point, every declaration expanded from a formal is
/// tagged `UNINITIALIZED` exactly when the caller gave the formal up: its type
/// is neither a reference (`&T`, `&mut T`) nor `Copy`. A formal passed by
/// reference, or a `Copy` one, carries no constant tag at all; at entry no
/// formal does. Unless the depth is `Some(0)`, each formal has declarations.
pub proof fn exit_tags_only_given_up_formals(
    names: Seq<String>,
    tys: Seq<TyShape>,
    is_copy: Seq<bool>,
    depth: Option<usize>,
    i: int,
)
    requires
        0 <= i < tys.len(),
        tys.len() == is_copy.len(),
        names.len() == tys.len(),
    ensures
        ({
            let es = var_entries(names[i]@, tys[i], None, VarKindV::Variable, depth, false, None, exit_uninit(tys, is_copy)[i]);
            &&& depth != Some(0usize) ==> es.len() > 0
            &&& forall|k: int|
                0 <= k < es.len() ==> ((#[trigger] es[k]).1.constant is Uninit <==> (!(tys[i] is Ref)
                    && !is_copy[i]))
            &&& forall|k: int|
                0 <= k < es.len() ==> ((#[trigger] es[k]).1.constant is Absent <==> (tys[i] is Ref
                    || is_copy[i]))
        }),
        forall|k: int|
            0 <= k < var_entries(names[i]@, tys[i], None, VarKindV::Variable, depth, false, None, all_live(names.len())[i]).len()
                ==> (#[trigger] var_entries(names[i]@, tys[i], None, VarKindV::Variable, depth, false, None, all_live(names.len())[i])[k]).1.constant is Absent,
{
    let u = exit_uninit(tys, is_copy)[i];
    expanded_declarations_inherit_tags(names[i]@, tys[i], None, VarKindV::Variable, depth, false, u);
    expanded_declarations_inherit_tags(names[i]@, tys[i], None, VarKindV::Variable, depth, false, false);
    references_are_peeled(names[i]@, tys[i], None, VarKindV::Variable, depth, false, u);
    assert(all_live(names.len())[i] == false);
}

/// The ENTER program point of a function.
pub open spec fn enter_view(names: Seq<String>, tys: Seq<TyShape>, ldid: u32, depth: Option<usize>) -> PptV {
    PptV {
        ppt_type: ProgramPointType::Enter,
        variables: insert_all(
            Seq::empty(),
            inputs_entries(names, tys, all_live(names.len()), names.len(), depth),
        ),
        parents: Seq::empty(),
        def_id: Some(ldid),
    }
}

/// The variables of the exit program points of a function: the formals, then
/// the return value unless it is `()`.
pub open spec fn exit_vars(
    names: Seq<String>,
    tys: Seq<TyShape>,
    is_copy: Seq<bool>,
    ret: TyShape,
    depth: Option<usize>,
) -> Seq<(Seq<char>, VarDeclV)> {
    let v = insert_all(
        Seq::empty(),
        inputs_entries(names, tys, exit_uninit(tys, is_copy), names.len(), depth),
    );
    if ret.is_unit_spec() {
        v
    } else {
        insert_all(
            v,
            var_entries("return"@, ret, None, VarKindV::Return, depth, false, None, false),
        )
    }
}

/// An exit program point with its single parent.
pub open spec fn exit_view(
    t: ProgramPointType,
    vars: Seq<(Seq<char>, VarDeclV)>,
    parent: Seq<char>,
    rel: ParentRelationType,
    id: u64,
    ldid: u32,
) -> PptV {
    PptV {
        ppt_type: t,
        variables: vars,
        parents: seq_insert(Seq::empty(), parent, (rel, id)),
        def_id: Some(ldid),
    }
}

/// The program points after adding one subexit for each line of `cs`, the
/// `k`-th with relation id `id0 + k + 1`.
pub open spec fn subexits_inserted(
    m: Seq<(Seq<char>, PptV)>,
    base: Seq<char>,
    cs: Seq<u64>,
    vars: Seq<(Seq<char>, VarDeclV)>,
    id0: u64,
    ldid: u32,
) -> Seq<(Seq<char>, PptV)>
    decreases cs.len(),
{
    if cs.len() == 0 {
        m
    } else {
        seq_insert(
            subexits_inserted(m, base, cs.drop_last(), vars, id0, ldid),
            subexit_name(base, cs.last()),
            exit_view(
                ProgramPointType::ExitNN(cs.last()),
                vars,
                exit_name(base),
                ParentRelationType::ExitExitNN,
                (id0 + cs.len()) as u64,
                ldid,
            ),
        )
    }
}

/// The program points of one function added to `m`: ENTER, the abstract EXIT
/// (child of ENTER with relation id `id0`), and one EXITnn per return site
/// (each a child of EXIT).
pub open spec fn fn_ppts_added(
    m: Seq<(Seq<char>, PptV)>,
    f: FnInfo,
    id0: u64,
    depth: Option<usize>,
) -> Seq<(Seq<char>, PptV)> {
    let base = f.file@ + "::"@ + f.def_path@;
    let vars = exit_vars(f.param_names@, f.input_tys@, f.is_copy@, f.return_ty, depth);
    let m1 = seq_insert(m, enter_name(base), enter_view(f.param_names@, f.input_tys@, f.ldid, depth));
    let m2 = seq_insert(
        m1,
        exit_name(base),
        exit_view(ProgramPointType::Exit, vars, enter_name(base), ParentRelationType::EnterExit, id0, f.ldid),
    );
    subexits_inserted(m2, base, assign_lines(f.return_lines@), vars, id0, f.ldid)
}

/// The limits under which a function's program points can be numbered: the
/// relation ids and the line numbers of its return sites stay below `u64::MAX`.
pub open spec fn fn_fits(f: FnInfo, id0: u64) -> bool {
    &&& f.param_names@.len() == f.input_tys@.len()
    &&& f.param_names@.len() == f.is_copy@.len()
    &&& id0 + 1 + f.return_lines@.len() <= u64::MAX
    &&& forall|i: int| 0 <= i < f.return_lines@.len() ==> #[trigger] f.return_lines@[i] + f.return_lines@.len() < u64::MAX
}

proof fn lemma_inputs_depth_zero(names: Seq<String>, tys: Seq<TyShape>, uninit: Seq<bool>, k: nat)
    ensures
        inputs_entries(names, tys, uninit, k, Some(0usize)) == Seq::<(Seq<char>, VarDeclV)>::empty(),
    decreases k,
{
    if k > 0 {
        lemma_inputs_depth_zero(names, tys, uninit, (k - 1) as nat);
    }
}

proof fn lemma_globals_depth_zero(globals: Seq<Global>, k: nat, def_id: u32)
    ensures
        globals_entries(globals, k, def_id, Some(0usize)) == Seq::<(Seq<char>, VarDeclV)>::empty(),
    decreases k,
{
    if k > 0 {
        lemma_globals_depth_zero(globals, (k - 1) as nat, def_id);
    }
}

proof fn lemma_subexits_no_vars(
    m: Seq<(Seq<char>, PptV)>,
    base: Seq<char>,
    cs: Seq<u64>,
    id0: u64,
    ldid: u32,
)
    requires
        forall|i: int| 0 <= i < m.len() ==> (#[trigger] m[i]).1.variables.len() == 0,
    ensures
        forall|i: int|
            0 <= i < subexits_inserted(m, base, cs, Seq::empty(), id0, ldid).len() ==> (
            #[trigger] subexits_inserted(m, base, cs, Seq::empty(), id0, ldid)[i]).1.variables.len()
                == 0,
    decreases cs.len(),
{
    if cs.len() > 0 {
        lemma_subexits_no_vars(m, base, cs.drop_last(), id0, ldid);
        let s = subexits_inserted(m, base, cs.drop_last(), Seq::empty(), id0, ldid);
        let k = subexit_name(base, cs.last());
        let v = exit_view(
            ProgramPointType::ExitNN(cs.last()),
            Seq::empty(),
            exit_name(base),
            ParentRelationType::ExitExitNN,
            (id0 + cs.len()) as u64,
            ldid,
        );
        lemma_insert_no_vars(s, k, v);
    }
}

proof fn lemma_insert_no_vars(s: Seq<(Seq<char>, PptV)>, k: Seq<char>, v: PptV)
    requires
        forall|i: int| 0 <= i < s.len() ==> (#[trigger] s[i]).1.variables.len() == 0,
        v.variables.len() == 0,
    ensures
        forall|i: int|
            0 <= i < seq_insert(s, k, v).len() ==> (#[trigger] seq_insert(s, k, v)[i]).1.variables.len()
                == 0,
{
    lemma_insert_elements(s, k, v);
    let r = seq_insert(s, k, v);
    assert forall|i: int| 0 <= i < r.len() implies (#[trigger] r[i]).1.variables.len() == 0 by {
        if r[i] != (k, v) {
            let j = choose|j: int| 0 <= j < s.len() && s[j] == r[i];
            assert(s[j].1.variables.len() == 0);
        }
    }
}

/// With the maximal expansion depth `Some(0)`, only the program points are
/// declared: no program point of a function gets a variable, neither a formal,
/// nor the return value, nor a global.
pub proof fn depth_zero_declares_no_variables(
    m: Seq<(Seq<char>, PptV)>,
    f: FnInfo,
    id0: u64,
    globals: Seq<Global>,
)
    requires
        forall|i: int| 0 <= i < m.len() ==> (#[trigger] m[i]).1.variables.len() == 0,
    ensures
        forall|i: int|
            0 <= i < fn_ppts_added(m, f, id0, Some(0usize)).len() ==> (#[trigger] fn_ppts_added(
                m,
                f,
                id0,
                Some(0usize),
            )[i]).1.variables.len() == 0,
        forall|i: int|
            0 <= i < m.len() ==> (#[trigger] with_globals(m[i].1, globals, Some(0usize)))
                == m[i].1,
{
    let base = f.file@ + "::"@ + f.def_path@;
    let depth = Some(0usize);
    lemma_inputs_depth_zero(f.param_names@, f.input_tys@, all_live(f.param_names@.len()), f.param_names@.len());
    lemma_inputs_depth_zero(
        f.param_names@,
        f.input_tys@,
        exit_uninit(f.input_tys@, f.is_copy@),
        f.param_names@.len(),
    );
    let e = enter_view(f.param_names@, f.input_tys@, f.ldid, depth);
    assert(insert_all(Seq::<(Seq<char>, VarDeclV)>::empty(), Seq::empty()) =~= Seq::<(Seq<char>, VarDeclV)>::empty());
    assert(e.variables.len() == 0);
    let vars = exit_vars(f.param_names@, f.input_tys@, f.is_copy@, f.return_ty, depth);
    assert(var_entries("return"@, f.return_ty, None, VarKindV::Return, depth, false, None, false)
        =~= Seq::<(Seq<char>, VarDeclV)>::empty());
    assert(vars =~= Seq::<(Seq<char>, VarDeclV)>::empty());
    let m1 = seq_insert(m, enter_name(base), e);
    lemma_insert_no_vars(m, enter_name(base), e);
    let x = exit_view(ProgramPointType::Exit, vars, enter_name(base), ParentRelationType::EnterExit, id0, f.ldid);
    let m2 = seq_insert(m1, exit_name(base), x);
    lemma_insert_no_vars(m1, exit_name(base), x);
    lemma_subexits_no_vars(m2, base, assign_lines(f.return_lines@), id0, f.ldid);
    assert forall|i: int| 0 <= i < m.len() implies (#[trigger] with_globals(m[i].1, globals, Some(0usize)))
        == m[i].1 by {
        lemma_globals_depth_zero(globals, globals.len(), m[i].1.def_id->0);
        assert(insert_all(m[i].1.variables, Seq::empty()) == m[i].1.variables) by {
            assert(insert_all(m[i].1.variables, Seq::<(Seq<char>, VarDeclV)>::empty()) =~= m[i].1.variables);
        }
    }
}

/// The parent relation ids of the program points: each below `n`, and no two
/// the same.
pub open spec fn relation_ids_fresh(s: Seq<(Seq<char>, PptV)>, n: u64) -> bool {
    &&& forall|i: int, a: int|
        0 <= i < s.len() && 0 <= a < s[i].1.parents.len() ==> #[trigger] s[i].1.parents[a].1.1 < n
    &&& forall|i: int, a: int, j: int, b: int|
        0 <= i < s.len() && 0 <= j < s.len() && 0 <= a < s[i].1.parents.len() && 0 <= b
            < s[j].1.parents.len() && (i != j || a != b) ==> #[trigger] s[i].1.parents[a].1.1
            != #[trigger] s[j].1.parents[b].1.1
}

/// The relation ids of `p`'s parents lie in `[m, n)`, no two the same.
pub open spec fn parent_ids_between(p: PptV, m: u64, n: u64) -> bool {
    &&& forall|a: int| 0 <= a < p.parents.len() ==> m <= #[trigger] p.parents[a].1.1 < n
    &&& forall|a: int, b: int|
        0 <= a < p.parents.len() && 0 <= b < p.parents.len() && a != b ==> #[trigger] p.parents[a].1.1
            != #[trigger] p.parents[b].1.1
}

/// Adding a program point whose relation ids are new keeps the ids apart.
proof fn lemma_ids_insert(s: Seq<(Seq<char>, PptV)>, k: Seq<char>, v: PptV, m: u64, n: u64)
    requires
        keys_sorted(s),
        relation_ids_fresh(s, m),
        m <= n,
        parent_ids_between(v, m, n),
    ensures
        relation_ids_fresh(seq_insert(s, k, v), n),
{
    lemma_insert_elements(s, k, v);
    crate::strmap::lemma_sorted_insert(s, k, v);
    let r = seq_insert(s, k, v);
    // where each entry of `r` comes from
    assert forall|i: int| 0 <= i < r.len() && r[i] != (k, v) implies exists|j: int|
        0 <= j < s.len() && s[j] == #[trigger] r[i] by {}
    assert forall|i: int, a: int| 0 <= i < r.len() && 0 <= a < r[i].1.parents.len() implies #[trigger] r[i].1.parents[a].1.1 < n by {
        if r[i] != (k, v) {
            let j = choose|j: int| 0 <= j < s.len() && s[j] == r[i];
            assert(s[j].1.parents[a].1.1 < m);
        }
    }
    assert forall|i: int, a: int, j: int, b: int|
        0 <= i < r.len() && 0 <= j < r.len() && 0 <= a < r[i].1.parents.len() && 0 <= b
            < r[j].1.parents.len() && (i != j || a != b) implies #[trigger] r[i].1.parents[a].1.1
            != #[trigger] r[j].1.parents[b].1.1 by {
        if i != j {
            crate::order::lemma_lt_irrefl(r[i].0);
            assert(r[i].0 != r[j].0) by {
                if i < j {
                    assert(crate::order::seq_lt(r[i].0, r[j].0));
                } else {
                    assert(crate::order::seq_lt(r[j].0, r[i].0));
                }
                crate::order::lemma_lt_irrefl(r[j].0);
            }
        }
        if r[i] == (k, v) && r[j] == (k, v) {
            assert(i == j);
        } else if r[i] == (k, v) {
            let j1 = choose|j1: int| 0 <= j1 < s.len() && s[j1] == r[j];
            assert(s[j1].1.parents[b].1.1 < m);
        } else if r[j] == (k, v) {
            let i1 = choose|i1: int| 0 <= i1 < s.len() && s[i1] == r[i];
            assert(s[i1].1.parents[a].1.1 < m);
        } else {
            let i1 = choose|i1: int| 0 <= i1 < s.len() && s[i1] == r[i];
            let j1 = choose|j1: int| 0 <= j1 < s.len() && s[j1] == r[j];
            if i != j {
                assert(i1 != j1);
            }
            assert(s[i1].1.parents[a].1.1 != s[j1].1.parents[b].1.1);
        }
    }
}

/// What the compiler knows of one function: where it is defined, its formals
/// (name, type, and whether the type is `Copy`), its return type, and the
/// source lines of its return sites.
pub struct FnInfo {
    pub ldid: u32,
    pub file: String,
    pub def_path: String,
    pub param_names: Vec<String>,
    pub input_tys: Vec<TyShape>,
    pub is_copy: Vec<bool>,
    pub return_ty: TyShape,
    pub return_lines: Vec<u64>,
}

/// Builds a declaration file function by function.
pub struct ConstructDecls {
    decls: DeclsFile,
    // parent relation ids are numbered over the entire file.
    next_parent_relation_id: u64,
    // governs how deeply compound types are expanded into variable decls.
    // if None, compound types are expanded until leaf types are found.
    max_recursive_depth: Option<usize>,
}

impl ConstructDecls {
    pub closed spec fn decls_view(&self) -> Seq<(Seq<char>, PptV)> {
        self.decls@
    }

    pub closed spec fn next_id(&self) -> u64 {
        self.next_parent_relation_id
    }

    pub closed spec fn max_depth(&self) -> Option<usize> {
        self.max_recursive_depth
    }

    /// The program points are in name order, each belongs to a function, and no
    /// two parent relations share an id.
    pub closed spec fn wf(&self) -> bool {
        &&& self.decls.wf()
        &&& all_owned(self.decls@)
        &&& relation_ids_fresh(self.decls@, self.next_parent_relation_id)
    }

    /// The program points are in name order, each belongs to a function, and
    /// the relation ids of their parents are all different and all below the
    /// next one to be given.
    pub proof fn relation_ids_are_unique(&self)
        requires
            self.wf(),
        ensures
            keys_sorted(self.decls_view()),
            all_owned(self.decls_view()),
            relation_ids_fresh(self.decls_view(), self.next_id()),
    {
    }

    pub fn with_max_recursive_depth(self, max_recursive_depth: Option<usize>) -> (c: Self)
        ensures
            c.decls_view() == self.decls_view(),
            c.next_id() == self.next_id(),
            c.max_depth() == max_recursive_depth,
            c.wf() == self.wf(),
    {
        let mut c = self;
        c.max_recursive_depth = max_recursive_depth;
        c
    }

    pub fn into_decls_file(self) -> (d: DeclsFile)
        ensures
            d@ == self.decls_view(),
            self.wf() ==> d.wf(),
    {
        self.decls
    }
}

impl ConstructDecls {
    /// Inserts a program point of some function.
    fn add_ppt(&mut self, name: String, ppt: ProgramPoint, Ghost(m): Ghost<u64>)
        requires
            old(self).wf(),
            ppt.wf(),
            ppt@.def_id is Some,
            relation_ids_fresh(old(self).decls_view(), m),
            m <= old(self).next_id(),
            parent_ids_between(ppt@, m, old(self).next_id()),
        ensures
            final(self).wf(),
            final(self).decls_view() == seq_insert(old(self).decls_view(), name@, ppt@),
            final(self).next_id() == old(self).next_id(),
            final(self).max_depth() == old(self).max_depth(),
    {
        proof {
            lemma_insert_elements(self.decls@, name@, ppt@);
            lemma_ids_insert(self.decls@, name@, ppt@, m, self.next_parent_relation_id);
        }
        self.decls.add_program_point(name, ppt);
        proof {
            let r = self.decls@;
            assert forall|i: int| 0 <= i < r.len() implies (#[trigger] r[i]).1.def_id is Some by {
                if r[i] != (name@, ppt@) {
                    let j = choose|j: int| 0 <= j < old(self).decls@.len() && old(self).decls@[j] == r[i];
                    assert(old(self).decls@[j].1.def_id is Some);
                }
            }
        }
    }

    /// Adds the enter program point, given the provided input, to the decls file.
    fn add_enter_ppt(
        &mut self,
        base_ppt_name: &str,
        local_def_id: u32,
        param_names: &[String],
        input_tys: &[TyShape],
    ) -> (n: String)
        requires
            old(self).wf(),
            param_names@.len() == input_tys@.len(),
        ensures
            n@ == enter_name(base_ppt_name@),
            final(self).wf(),
            final(self).decls_view() == seq_insert(
                old(self).decls_view(),
                enter_name(base_ppt_name@),
                enter_view(param_names@, input_tys@, local_def_id, old(self).max_depth()),
            ),
            final(self).next_id() == old(self).next_id(),
            final(self).max_depth() == old(self).max_depth(),
    {
        let mut live: Vec<bool> = Vec::new();
        let mut i: usize = 0;
        while i < param_names.len()
            invariant
                i <= param_names@.len(),
                live@ == all_live(i as nat),
            decreases param_names@.len() - i,
        {
            live.push(false);
            i += 1;
            assert(live@ =~= all_live(i as nat));
        }
        let (enter_name, enter_ppt) = ProgramPoint::enter(base_ppt_name, local_def_id);
        let enter_ppt = enter_ppt.with_fn_inputs(
            param_names,
            input_tys,
            live.as_slice(),
            self.max_recursive_depth,
        );
        assert(enter_ppt@ == enter_view(param_names@, input_tys@, local_def_id, self.max_recursive_depth));
        self.add_ppt(enter_name.clone(), enter_ppt, Ghost(self.next_parent_relation_id));
        enter_name
    }

    /// Adds all subexit and exit program points, given the provided input, to the
    /// decls file. Assumes a corresponding enter site, with `enter_name` already exists.
    fn add_exit_ppts(
        &mut self,
        local_def_id: u32,
        base_ppt_name: &str,
        enter_name: String,
        param_names: &[String],
        input_tys: &[TyShape],
        is_copy: &[bool],
        return_ty: &TyShape,
        return_lines: &[u64],
    )
        requires
            old(self).wf(),
            param_names@.len() == input_tys@.len(),
            param_names@.len() == is_copy@.len(),
            old(self).next_id() + 1 + return_lines@.len() <= u64::MAX,
            forall|i: int| 0 <= i < return_lines@.len() ==> #[trigger] return_lines@[i] + return_lines@.len() < u64::MAX,
        ensures
            final(self).wf(),
            final(self).decls_view() == subexits_inserted(
                seq_insert(
                    old(self).decls_view(),
                    exit_name(base_ppt_name@),
                    exit_view(
                        ProgramPointType::Exit,
                        exit_vars(param_names@, input_tys@, is_copy@, *return_ty, old(self).max_depth()),
                        enter_name@,
                        ParentRelationType::EnterExit,
                        old(self).next_id(),
                        local_def_id,
                    ),
                ),
                base_ppt_name@,
                assign_lines(return_lines@),
                exit_vars(param_names@, input_tys@, is_copy@, *return_ty, old(self).max_depth()),
                old(self).next_id(),
                local_def_id,
            ),
            final(self).next_id() == old(self).next_id() + 1 + return_lines@.len(),
            final(self).max_depth() == old(self).max_depth(),
    {
        let ghost depth = self.max_recursive_depth;
        let ghost id0 = self.next_parent_relation_id;
        let ghost vars = exit_vars(param_names@, input_tys@, is_copy@, *return_ty, depth);
        // Tag each formal as `constant UNINITIALIZED` at exit iff the caller
        // had to give up ownership to make the call: references and Copy
        // values stay observable to the caller; everything else is consumed.
        let mut uninit: Vec<bool> = Vec::new();
        let mut i: usize = 0;
        while i < input_tys.len()
            invariant
                i <= input_tys@.len(),
                input_tys@.len() == is_copy@.len(),
                uninit@ == exit_uninit(input_tys@.take(i as int), is_copy@.take(i as int)),
            decreases input_tys@.len() - i,
        {
            let is_ref = match &input_tys[i] {
                TyShape::Ref { .. } => true,
                _ => false,
            };
            uninit.push(!is_ref && !is_copy[i]);
            i += 1;
            assert(uninit@ =~= exit_uninit(input_tys@.take(i as int), is_copy@.take(i as int)));
        }
        assert(input_tys@.take(i as int) =~= input_tys@);
        assert(is_copy@.take(i as int) =~= is_copy@);

        // Abstract EXIT.
        let (exit_name, exit_ppt) = ProgramPoint::exit(base_ppt_name, local_def_id);
        let exit_ppt = exit_ppt.with_fn_inputs(
            param_names,
            input_tys,
            uninit.as_slice(),
            self.max_recursive_depth,
        );
        let exit_ppt = exit_ppt.with_fn_return(return_ty, self.max_recursive_depth);
        assert(exit_ppt@.variables == vars);
        let ghost m = self.next_parent_relation_id;
        let exit_ppt = exit_ppt.with_parent(
            enter_name,
            ParentRelationType::EnterExit,
            &mut self.next_parent_relation_id,
        );
        self.add_ppt(exit_name.clone(), exit_ppt, Ghost(m));
        let ghost m2 = self.decls@;
        assert(m2 == subexits_inserted(m2, base_ppt_name@, assign_lines(return_lines@.take(0)), vars, id0, local_def_id));

        // One subexit per return site, each on the first line number from the
        // site's own line on that no earlier site got.
        let mut assigned: Vec<u64> = Vec::new();
        let mut j: usize = 0;
        while j < return_lines.len()
            invariant
                j <= return_lines@.len(),
                self.wf(),
                self.max_recursive_depth == depth,
                self.next_parent_relation_id == id0 + 1 + j,
                id0 + 1 + return_lines@.len() <= u64::MAX,
                forall|k: int| 0 <= k < return_lines@.len() ==> #[trigger] return_lines@[k] + return_lines@.len() < u64::MAX,
                exit_name@ == crate::ppt::exit_name(base_ppt_name@),
                assigned@ == assign_lines(return_lines@.take(j as int)),
                assigned@.no_duplicates(),
                assigned@.len() == j,
                self.decls@ == subexits_inserted(m2, base_ppt_name@, assigned@, vars, id0, local_def_id),
                uninit@ == exit_uninit(input_tys@, is_copy@),
                param_names@.len() == input_tys@.len(),
                param_names@.len() == uninit@.len(),
                vars == exit_vars(param_names@, input_tys@, is_copy@, *return_ty, depth),
            decreases return_lines@.len() - j,
        {
            let line = return_lines[j];
            assert(line + assigned@.len() < u64::MAX);
            let candidate = assign_next(&mut assigned, line);
            assert(return_lines@.take(j + 1).drop_last() =~= return_lines@.take(j as int));
            j += 1;

            let (subexit_name, subexit_ppt) = ProgramPoint::subexit(base_ppt_name, local_def_id, candidate);
            let subexit_ppt = subexit_ppt.with_fn_inputs(
                param_names,
                input_tys,
                uninit.as_slice(),
                self.max_recursive_depth,
            );
            let subexit_ppt = subexit_ppt.with_fn_return(return_ty, self.max_recursive_depth);
            assert(subexit_ppt@.variables == vars);
            let ghost m = self.next_parent_relation_id;
            let subexit_ppt = subexit_ppt.with_parent(
                exit_name.clone(),
                ParentRelationType::ExitExitNN,
                &mut self.next_parent_relation_id,
            );
            self.add_ppt(subexit_name, subexit_ppt, Ghost(m));
            assert(assigned@.drop_last() =~= assign_lines(return_lines@.take(j as int - 1)));
        }
        assert(return_lines@.take(j as int) =~= return_lines@);
    }
}

impl ConstructDecls {
    /// Build all program points (ENTER, abstract EXIT, per-return-site EXITnn)
    /// for one function body.
    /// Used for both free fns and impl-method assoc fns; trait declarations
    /// are skipped by the caller.
    pub fn process_fn(&mut self, f: &FnInfo)
        requires
            old(self).wf(),
            fn_fits(*f, old(self).next_id()),
        ensures
            final(self).wf(),
            final(self).decls_view() == fn_ppts_added(
                old(self).decls_view(),
                *f,
                old(self).next_id(),
                old(self).max_depth(),
            ),
            final(self).next_id() == old(self).next_id() + 1 + f.return_lines@.len(),
            final(self).max_depth() == old(self).max_depth(),
    {
        let base_ppt_name = DeclsFile::ppt_base_name(f.file.as_str(), f.def_path.as_str());
        let enter_name = self.add_enter_ppt(
            base_ppt_name.as_str(),
            f.ldid,
            f.param_names.as_slice(),
            f.input_tys.as_slice(),
        );
        self.add_exit_ppts(
            f.ldid,
            base_ppt_name.as_str(),
            enter_name,
            f.param_names.as_slice(),
            f.input_tys.as_slice(),
            f.is_copy.as_slice(),
            &f.return_ty,
            f.return_lines.as_slice(),
        );
    }

    /// Adds a var-decl for each global to every program point that has
    /// access to it. Must be called after every ppt has been constructed.
    pub fn add_globals(&mut self, globals: &[Global])
        requires
            old(self).wf(),
        ensures
            final(self).wf(),
            final(self).decls_view() == old(self).decls_view().map_values(
                |e: (Seq<char>, PptV)| (e.0, with_globals(e.1, globals@, old(self).max_depth())),
            ),
            final(self).next_id() == old(self).next_id(),
            final(self).max_depth() == old(self).max_depth(),
    {
        self.decls.add_globals_to_all(globals, self.max_recursive_depth);
    }
}

impl Default for ConstructDecls {
    fn default() -> (c: Self)
        ensures
            c.decls_view() == Seq::<(Seq<char>, PptV)>::empty(),
            c.next_id() == 0,
            c.max_depth() is None,
            c.wf(),
    {
        ConstructDecls { decls: DeclsFile::new(), next_parent_relation_id: 0, max_recursive_depth: None }
    }
}

/// The relation ids that building the program points of `fns` uses up.
pub open spec fn ids_used(fns: Seq<FnInfo>) -> nat
    decreases fns.len(),
{
    if fns.len() == 0 {
        0
    } else {
        ids_used(fns.drop_last()) + 1 + fns.last().return_lines@.len()
    }
}

/// The program points of the functions `fns`, added one function after the
/// other, starting with relation id `id0`.
pub open spec fn fns_added(
    m: Seq<(Seq<char>, PptV)>,
    fns: Seq<FnInfo>,
    id0: u64,
    depth: Option<usize>,
) -> Seq<(Seq<char>, PptV)>
    decreases fns.len(),
{
    if fns.len() == 0 {
        m
    } else {
        fn_ppts_added(
            fns_added(m, fns.drop_last(), id0, depth),
            fns.last(),
            (id0 + ids_used(fns.drop_last())) as u64,
            depth,
        )
    }
}

/// Every function of `fns` fits, given the ids used before it.
pub open spec fn fns_fit(fns: Seq<FnInfo>, id0: u64) -> bool {
    &&& id0 + ids_used(fns) <= u64::MAX
    &&& forall|i: int|
        #![trigger fns[i]]
        0 <= i < fns.len() ==> fn_fits(fns[i], (id0 + ids_used(fns.take(i))) as u64)
}

proof fn lemma_ids_used_take(fns: Seq<FnInfo>, i: int)
    requires
        0 <= i < fns.len(),
    ensures
        ids_used(fns.take(i + 1)) == ids_used(fns.take(i)) + 1 + fns[i].return_lines@.len(),
        ids_used(fns.take(i + 1)) <= ids_used(fns),
    decreases fns.len(),
{
    assert(fns.take(i + 1).drop_last() =~= fns.take(i));
    if i + 1 < fns.len() {
        lemma_ids_used_take(fns.drop_last(), i);
        assert(fns.drop_last().take(i + 1) =~= fns.take(i + 1));
        assert(fns.drop_last().take(i) =~= fns.take(i));
    } else {
        assert(fns.take(i + 1) =~= fns);
    }
}

impl ConstructDecls {
    /// Builds the program points of every function of the crate, in order,
    /// then adds to each the globals visible from it.
    pub fn after_expansion(&mut self, fns: &[FnInfo], globals: &[Global])
        requires
            old(self).wf(),
            fns_fit(fns@, old(self).next_id()),
        ensures
            final(self).wf(),
            final(self).decls_view() == fns_added(
                old(self).decls_view(),
                fns@,
                old(self).next_id(),
                old(self).max_depth(),
            ).map_values(
                |e: (Seq<char>, PptV)| (e.0, with_globals(e.1, globals@, old(self).max_depth())),
            ),
            final(self).next_id() == old(self).next_id() + ids_used(fns@),
            final(self).max_depth() == old(self).max_depth(),
    {
        let ghost m0 = self.decls_view();
        let ghost id0 = self.next_id();
        let mut i: usize = 0;
        assert(fns@.take(0) =~= Seq::<FnInfo>::empty());
        while i < fns.len()
            invariant
                i <= fns@.len(),
                self.wf(),
                fns_fit(fns@, id0),
                self.max_depth() == old(self).max_depth(),
                self.next_id() == id0 + ids_used(fns@.take(i as int)),
                self.decls_view() == fns_added(m0, fns@.take(i as int), id0, self.max_depth()),
            decreases fns@.len() - i,
        {
            proof {
                lemma_ids_used_take(fns@, i as int);
                assert(fn_fits(fns@[i as int], (id0 + ids_used(fns@.take(i as int))) as u64));
            }
            self.process_fn(&fns[i]);
            proof {
                assert(fns@.take(i + 1).drop_last() =~= fns@.take(i as int));
                assert(fns@.take(i + 1).last() == fns@[i as int]);
            }
            i += 1;
        }
        assert(fns@.take(i as int) =~= fns@);
        self.add_globals(globals);
    }
}

} // verus!
