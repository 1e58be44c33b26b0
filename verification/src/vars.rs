use vstd::prelude::*;
use vstd::string::StringExecFns;

use crate::text::{chars_of, dec_digits, push_char, push_decimal};

verus! {

/// A fully-qualified Daikon variable name, usually built up by recursive descent
/// through a compound type.
///
/// This type is intentionally simple and public so it can also be used
/// from outside this crate when constructing variable names that must
/// match the ones produced by the decls generator
#[derive(Debug, Clone, PartialEq, Eq, Hash, PartialOrd, Ord)]
pub struct VarName(String);

impl View for VarName {
    type V = Seq<char>;

    closed spec fn view(&self) -> Seq<char> {
        self.0@
    }
}

impl VarName {
    /// Wrap an existing string as the root of a variable name
    pub fn new(name: String) -> (v: Self)
        ensures
            v@ == name@,
    {
        VarName(name)
    }

    /// Append a struct/tuple field access: `{self}.{field}`.
    pub fn project_field(&self, field: &str) -> (v: Self)
        ensures
            v@ == self@ + "."@ + field@,
    {
        let mut s = self.0.clone();
        s.append(".");
        s.append(field);
        VarName(s)
    }

    /// Append an enum variant resolution: `{self}::{variant}`.
    pub fn project_variant(&self, variant: &str) -> (v: Self)
        ensures
            v@ == self@ + "::"@ + variant@,
    {
        let mut s = self.0.clone();
        s.append("::");
        s.append(variant);
        VarName(s)
    }

    /// Append a concrete index into a sequence: `{self}[{i}]`.
    pub fn project_index(&self, i: usize) -> (v: Self)
        ensures
            v@ == self@ + "["@ + dec_digits(i as nat) + "]"@,
    {
        let mut s = self.0.clone();
        s.append("[");
        push_decimal(&mut s, i as u64);
        s.append("]");
        VarName(s)
    }

    /// Append a concrete index into a sequence whose length is a `u64`.
    pub(crate) fn project_index_u64(&self, i: u64) -> (v: Self)
        ensures
            v@ == self@ + "["@ + dec_digits(i as nat) + "]"@,
    {
        let mut s = self.0.clone();
        s.append("[");
        push_decimal(&mut s, i);
        s.append("]");
        VarName(s)
    }

    /// Append the collapsed-sequence marker: `{self}[..]`.
    pub fn project_slice(&self) -> (v: Self)
        ensures
            v@ == self@ + "[..]"@,
    {
        let mut s = self.0.clone();
        s.append("[..]");
        VarName(s)
    }

    /// Prefix with a pointer dereference: `*{self}`
    pub fn project_deref(&self) -> (v: Self)
        ensures
            v@ == "*"@ + self@,
    {
        let mut s = String::from_str("*");
        s.append(self.0.as_str());
        VarName(s)
    }

    pub fn as_str(&self) -> (s: &str)
        ensures
            s@ == self@,
    {
        self.0.as_str()
    }

    pub fn into_string(self) -> (s: String)
        ensures
            s@ == self@,
    {
        self.0
    }

    /// A second name equal to this one.
    pub fn copy_name(&self) -> (v: Self)
        ensures
            v@ == self@,
    {
        VarName(self.0.clone())
    }
}

impl VarName {
    /// The name as written.
    pub fn to_string(&self) -> (s: String)
        ensures
            s@ == self@,
    {
        self.0.clone()
    }
}

impl From<String> for VarName {
    fn from(s: String) -> (v: Self) {
        VarName(s)
    }
}

impl vstd::std_specs::convert::FromSpecImpl<String> for VarName {
    open spec fn obeys_from_spec() -> bool {
        true
    }

    closed spec fn from_spec(s: String) -> Self {
        VarName(s)
    }
}

impl From<VarName> for String {
    fn from(v: VarName) -> (s: String) {
        v.0
    }
}

impl vstd::std_specs::convert::FromSpecImpl<VarName> for String {
    open spec fn obeys_from_spec() -> bool {
        true
    }

    closed spec fn from_spec(v: VarName) -> String {
        v.0
    }
}

/// Turning a name into a `String` with `String::from` gives the name's text.
pub proof fn string_from_name_keeps_text(v: VarName)
    ensures
        <String as vstd::std_specs::convert::FromSpec<VarName>>::obeys_from_spec(),
        <String as vstd::std_specs::convert::FromSpec<VarName>>::from_spec(v)@ == v@,
{
}

/// Turning a `String` into a name with `VarName::from` keeps its text.
pub proof fn name_from_string_keeps_text(s: String)
    ensures
        <VarName as vstd::std_specs::convert::FromSpec<String>>::obeys_from_spec(),
        <VarName as vstd::std_specs::convert::FromSpec<String>>::from_spec(s)@ == s@,
{
}

/// How one character is written in a declaration file.
pub open spec fn escape_char(c: char) -> Seq<char> {
    if c == '\\' {
        seq!['\\', '\\']
    } else if c == ' ' {
        seq!['\\', '_']
    } else {
        seq![c]
    }
}

/// `s` with each backslash doubled and each blank written `\_`.
pub open spec fn escape(s: Seq<char>) -> Seq<char>
    decreases s.len(),
{
    if s.len() == 0 {
        Seq::empty()
    } else {
        escape(s.drop_last()) + escape_char(s.last())
    }
}

/// Replaces necessary chars in string with corresponding escape
/// sequences.
/// "In the declaration file, blanks must be replaced by \_,
/// and backslashes must be escaped as \\."
pub fn escape_str(s: String) -> (r: String)
    ensures
        r@ == escape(s@),
        !r@.contains(' '),
{
    let v = chars_of(s.as_str());
    let mut r = String::new();
    let mut i: usize = 0;
    assert(v@.take(0) =~= Seq::<char>::empty());
    while i < v.len()
        invariant
            i <= v@.len(),
            v@ == s@,
            r@ == escape(v@.take(i as int)),
        decreases v@.len() - i,
    {
        let c = v[i];
        if c == '\\' {
            push_char(&mut r, '\\');
            push_char(&mut r, '\\');
        } else if c == ' ' {
            push_char(&mut r, '\\');
            push_char(&mut r, '_');
        } else {
            push_char(&mut r, c);
        }
        assert(v@.take(i + 1).drop_last() =~= v@.take(i as int));
        assert(r@ =~= escape(v@.take(i + 1)));
        i += 1;
    }
    assert(v@.take(i as int) =~= v@);
    proof {
        lemma_escape_no_blank(s@);
    }
    r
}

/// Escaped text holds no blank.
pub proof fn lemma_escape_no_blank(s: Seq<char>)
    ensures
        !escape(s).contains(' '),
    decreases s.len(),
{
    if s.len() > 0 {
        lemma_escape_no_blank(s.drop_last());
        let a = escape(s.drop_last());
        let b = escape_char(s.last());
        assert forall|i: int| 0 <= i < (a + b).len() implies (a + b)[i] != ' ' by {
            if i < a.len() {
                assert((a + b)[i] == a[i]);
            } else {
                assert((a + b)[i] == b[i - a.len()]);
            }
        }
    }
}

/// Escaping changes only blanks and backslashes: a text with neither (with
/// underscores, say) is written as it is.
pub proof fn escaping_keeps_plain_text(s: Seq<char>)
    requires
        forall|i: int| 0 <= i < s.len() ==> #[trigger] s[i] != ' ' && s[i] != '\\',
    ensures
        escape(s) == s,
    decreases s.len(),
{
    if s.len() > 0 {
        let t = s.drop_last();
        assert forall|i: int| 0 <= i < t.len() implies #[trigger] t[i] != ' ' && t[i] != '\\' by {
            assert(t[i] == s[i]);
        }
        escaping_keeps_plain_text(t);
        assert(s[s.len() - 1] != ' ' && s[s.len() - 1] != '\\');
        assert(t + seq![s.last()] =~= s);
    }
}

/// A blank is written `\_` and a backslash `\\`; every other character as it is.
pub proof fn escaping_rewrites_blank_and_backslash()
    ensures
        escape_char(' ') == seq!['\\', '_'],
        escape_char('\\') == seq!['\\', '\\'],
        forall|c: char| c != ' ' && c != '\\' ==> #[trigger] escape_char(c) == seq![c],
{
}

} // verus!
