//! Route patterns: literal text with `{name}` placeholders.
//!
//! A pattern is compiled into the source of an anchored regular expression in
//! which every placeholder becomes a named group of one or more characters
//! other than `/`, and into the ordered list of its placeholder names.
use vstd::prelude::*;
use crate::text::{chars_of, push_all, string_of};

verus! {

/// The characters that have a meaning of their own in a regular expression and
/// are escaped when they stand literally in a pattern.
pub open spec fn is_special(c: char) -> bool {
    c == '.' || c == '+' || c == '*' || c == '?' || c == '^' || c == '$' || c == '('
        || c == ')' || c == '[' || c == ']' || c == '|' || c == '\\'
}

/// How a literal character of a pattern is written in the regular expression.
pub open spec fn escape_char(c: char) -> Seq<char> {
    if is_special(c) {
        seq!['\\', c]
    } else {
        seq![c]
    }
}

/// Every character of `lit`, escaped.
pub open spec fn escape_literal(lit: Seq<char>) -> Seq<char>
    decreases lit.len(),
{
    if lit.len() == 0 {
        Seq::empty()
    } else {
        escape_literal(lit.drop_last()) + escape_char(lit.last())
    }
}

/// The named group that a placeholder `{name}` becomes: `(?P<name>[^/]+)`.
pub open spec fn group_for(name: Seq<char>) -> Seq<char> {
    seq!['(', '?', 'P', '<'] + name + seq!['>', '[', '^', '/', ']', '+', ')']
}

/// State of the left-to-right scan that writes the regular expression: the
/// text written so far, whether the scan is inside braces, and the name read
/// since the last `{`.
pub type RegexScan = (Seq<char>, bool, Seq<char>);

/// One character of the scan that writes the regular expression.
pub open spec fn regex_step(s: RegexScan, c: char) -> RegexScan {
    if c == '{' {
        (s.0, true, Seq::empty())
    } else if c == '}' {
        (s.0 + group_for(s.2), false, s.2)
    } else if s.1 {
        (s.0, true, s.2.push(c))
    } else {
        (s.0 + escape_char(c), false, s.2)
    }
}

/// The scan that writes the regular expression, after the characters of `p`.
pub open spec fn regex_scan(p: Seq<char>) -> RegexScan
    decreases p.len(),
{
    if p.len() == 0 {
        (Seq::empty(), false, Seq::empty())
    } else {
        regex_step(regex_scan(p.drop_last()), p.last())
    }
}

/// The regular expression that pattern `p` compiles to, anchored at both ends.
pub open spec fn regex_source(p: Seq<char>) -> Seq<char> {
    seq!['^'] + regex_scan(p).0 + seq!['$']
}

/// State of the scan that collects placeholder names: the names closed so far,
/// whether the scan is inside braces, and the name read since the last `{`.
pub type NameScan = (Seq<Seq<char>>, bool, Seq<char>);

/// One character of the scan that collects placeholder names.
pub open spec fn name_step(s: NameScan, c: char) -> NameScan {
    if c == '{' {
        (s.0, true, Seq::empty())
    } else if c == '}' {
        (s.0.push(s.2), false, Seq::empty())
    } else if s.1 {
        (s.0, true, s.2.push(c))
    } else {
        s
    }
}

/// The scan that collects placeholder names, after the characters of `p`.
pub open spec fn name_scan(p: Seq<char>) -> NameScan
    decreases p.len(),
{
    if p.len() == 0 {
        (Seq::empty(), false, Seq::empty())
    } else {
        name_step(name_scan(p.drop_last()), p.last())
    }
}

/// The placeholder names of pattern `p`, in pattern order.
pub open spec fn param_names(p: Seq<char>) -> Seq<Seq<char>> {
    name_scan(p).0
}

/// Whether some placeholder of `p` has no name: `{}`, or a `}` that closes
/// no `{` (the scan of names records an empty name for both).
pub open spec fn has_missing_name(p: Seq<char>) -> bool {
    exists|i: int| 0 <= i < param_names(p).len() && (#[trigger] param_names(p)[i]).len() == 0
}

/// Whether two placeholders of `p` have the same name.
pub open spec fn has_repeated_name(p: Seq<char>) -> bool {
    exists|i: int, j: int|
        0 <= i < j < param_names(p).len() && #[trigger] param_names(p)[i] == #[trigger] param_names(
            p,
        )[j]
}

/// Whether `p` holds no brace at all, so that it stands only for itself.
pub open spec fn is_literal_pattern(p: Seq<char>) -> bool {
    forall|i: int| 0 <= i < p.len() ==> p[i] != '{' && p[i] != '}'
}

/// Scanning a pattern without braces writes its characters escaped, and
/// never enters a placeholder.
proof fn lemma_literal_scan(p: Seq<char>)
    requires
        is_literal_pattern(p),
    ensures
        regex_scan(p) == (escape_literal(p), false, Seq::<char>::empty()),
        name_scan(p) == (Seq::<Seq<char>>::empty(), false, Seq::<char>::empty()),
    decreases p.len(),
{
    if p.len() > 0 {
        let q = p.drop_last();
        assert(is_literal_pattern(q)) by {
            assert forall|i: int| 0 <= i < q.len() implies q[i] != '{' && q[i] != '}' by {
                assert(q[i] == p[i]);
            }
        }
        lemma_literal_scan(q);
        assert(p.last() == p[p.len() - 1]);
    }
}

/// A pattern without braces has no parameters, and its regular expression
/// is its own text with the special characters escaped, between the anchors:
/// so its matcher accepts that text and nothing else.
pub proof fn lemma_literal_pattern(p: Seq<char>)
    requires
        is_literal_pattern(p),
    ensures
        regex_source(p) == seq!['^'] + escape_literal(p) + seq!['$'],
        param_names(p) == Seq::<Seq<char>>::empty(),
{
    lemma_literal_scan(p);
}

/// The views of a list of strings.
pub open spec fn string_views(v: Seq<String>) -> Seq<Seq<char>> {
    v.map_values(|s: String| s@)
}

/// Whether `p` ends inside a placeholder: a `{` that no `}` closes.
pub open spec fn ends_open(p: Seq<char>) -> bool {
    regex_scan(p).1
}

/// Writes the source of the anchored regular expression that `pattern`
/// compiles to: literal characters escaped, each `{name}` a named group.
/// A pattern with a `{` that is never closed has none.
pub fn regex_source_of(pattern: &str) -> (r: Option<String>)
    ensures
        r is None <==> ends_open(pattern@),
        r matches Some(s) ==> s@ == regex_source(pattern@),
{
    let cs = chars_of(pattern);
    let mut out: Vec<char> = Vec::new();
    let mut in_param = false;
    let mut name: Vec<char> = Vec::new();
    let mut i: usize = 0;
    while i < cs.len()
        invariant
            cs@ == pattern@,
            i <= cs@.len(),
            (out@, in_param, name@) == regex_scan(cs@.take(i as int)),
        decreases cs@.len() - i,
    {
        let c = cs[i];
        proof {
            assert(cs@.take(i + 1).drop_last() =~= cs@.take(i as int));
        }
        if c == '{' {
            in_param = true;
            name = Vec::new();
        } else if c == '}' {
            push_all(&mut out, &['(', '?', 'P', '<']);
            push_all(&mut out, name.as_slice());
            push_all(&mut out, &['>', '[', '^', '/', ']', '+', ')']);
            proof {
                assert(out@ =~= regex_scan(cs@.take(i as int)).0 + group_for(name@));
            }
            in_param = false;
        } else if in_param {
            name.push(c);
        } else {
            if c == '.' || c == '+' || c == '*' || c == '?' || c == '^' || c == '$' || c == '('
                || c == ')' || c == '[' || c == ']' || c == '|' || c == '\\' {
                out.push('\\');
            }
            out.push(c);
            proof {
                assert(out@ =~= regex_scan(cs@.take(i as int)).0 + escape_char(c));
            }
        }
        i = i + 1;
    }
    proof {
        assert(cs@.take(i as int) =~= pattern@);
    }
    if in_param {
        return None;
    }
    let mut full: Vec<char> = Vec::new();
    full.push('^');
    push_all(&mut full, out.as_slice());
    full.push('$');
    proof {
        assert(full@ =~= regex_source(pattern@));
    }
    Some(string_of(&full))
}

/// Whether one of `names` is empty.
pub fn any_empty(names: &Vec<String>) -> (r: bool)
    ensures
        r == exists|i: int| 0 <= i < names@.len() && (#[trigger] names@[i])@.len() == 0,
{
    let mut i: usize = 0;
    while i < names.len()
        invariant
            i <= names@.len(),
            forall|k: int| 0 <= k < i ==> (#[trigger] names@[k])@.len() != 0,
        decreases names@.len() - i,
    {
        if names[i].as_str().is_empty() {
            return true;
        }
        i = i + 1;
    }
    false
}

/// Whether two of `names` are equal.
pub fn any_repeated(names: &Vec<String>) -> (r: bool)
    ensures
        r == exists|i: int, j: int|
            0 <= i < j < names@.len() && (#[trigger] names@[i])@ == (#[trigger] names@[j])@,
{
    let mut j: usize = 0;
    while j < names.len()
        invariant
            j <= names@.len(),
            forall|a: int, b: int|
                0 <= a < b < j ==> (#[trigger] names@[a])@ != (#[trigger] names@[b])@,
        decreases names@.len() - j,
    {
        let mut i: usize = 0;
        while i < j
            invariant
                j < names@.len(),
                i <= j,
                forall|a: int, b: int|
                    0 <= a < b < j ==> (#[trigger] names@[a])@ != (#[trigger] names@[b])@,
                forall|a: int| 0 <= a < i ==> (#[trigger] names@[a])@ != names@[j as int]@,
            decreases j - i,
        {
            if names[i] == names[j] {
                return true;
            }
            i = i + 1;
        }
        j = j + 1;
    }
    false
}

/// The placeholder names of `pattern`, in the order in which they stand.
pub fn extract_param_names(pattern: &str) -> (r: Vec<String>)
    ensures
        string_views(r@) == param_names(pattern@),
{
    let cs = chars_of(pattern);
    let mut names: Vec<String> = Vec::new();
    let mut in_braces = false;
    let mut buf: Vec<char> = Vec::new();
    let mut i: usize = 0;
    while i < cs.len()
        invariant
            cs@ == pattern@,
            i <= cs@.len(),
            (string_views(names@), in_braces, buf@) == name_scan(cs@.take(i as int)),
        decreases cs@.len() - i,
    {
        let c = cs[i];
        proof {
            assert(cs@.take(i + 1).drop_last() =~= cs@.take(i as int));
        }
        if c == '{' {
            in_braces = true;
            buf = Vec::new();
        } else if c == '}' {
            in_braces = false;
            let s = string_of(&buf);
            names.push(s);
            buf = Vec::new();
            proof {
                assert(string_views(names@) =~= name_scan(cs@.take(i as int)).0.push(s@));
            }
        } else if in_braces {
            buf.push(c);
        }
        i = i + 1;
    }
    proof {
        assert(cs@.take(i as int) =~= pattern@);
    }
    names
}

} // verus!
