//! URL patterns: text with `{bin}`, `{name}`, `{triple}` and `{version}`
//! placeholders, each replaced by its raw value with no escaping.
use vstd::prelude::*;
use crate::version::Version;

verus! {

/// The values of the four placeholders, as text.
pub struct TemplateValues {
    pub bin: Seq<char>,
    pub name: Seq<char>,
    pub triple: Seq<char>,
    pub version: Seq<char>,
}

/// Why a pattern could not be filled in.
pub enum TemplateFault {
    /// A `{` with no `}` after it.
    Unterminated,
    /// A placeholder whose name is not one of the four.
    Unknown(Seq<char>),
}

/// The value that placeholder `key` stands for, if it is one of the four.
pub open spec fn lookup(key: Seq<char>, c: TemplateValues) -> Option<Seq<char>> {
    if key == seq!['b', 'i', 'n'] {
        Some(c.bin)
    } else if key == seq!['n', 'a', 'm', 'e'] {
        Some(c.name)
    } else if key == seq!['t', 'r', 'i', 'p', 'l', 'e'] {
        Some(c.triple)
    } else if key == seq!['v', 'e', 'r', 's', 'i', 'o', 'n'] {
        Some(c.version)
    } else {
        None
    }
}

/// The index of the first `}` in `s`, or `s.len()` where there is none.
pub open spec fn close_at(s: Seq<char>) -> nat
    decreases s.len(),
{
    if s.len() == 0 {
        0
    } else if s[0] == '}' {
        0
    } else {
        1 + close_at(s.drop_first())
    }
}

/// `text` put in front of a successful rendering; a fault passes through.
pub open spec fn prepend(text: Seq<char>, r: Result<Seq<char>, TemplateFault>) -> Result<
    Seq<char>,
    TemplateFault,
> {
    match r {
        Ok(s) => Ok(text + s),
        Err(e) => Err(e),
    }
}

/// Pattern `p` with every placeholder replaced by its value, read from left
/// to right; the first malformed or unknown placeholder is the fault.
pub open spec fn render(p: Seq<char>, c: TemplateValues) -> Result<Seq<char>, TemplateFault>
    decreases p.len(),
{
    if p.len() == 0 {
        Ok(Seq::empty())
    } else if p[0] != '{' {
        prepend(seq![p[0]], render(p.drop_first(), c))
    } else {
        let rest = p.drop_first();
        let k = close_at(rest);
        if k >= rest.len() {
            Err(TemplateFault::Unterminated)
        } else {
            match lookup(rest.subrange(0, k as int), c) {
                None => Err(TemplateFault::Unknown(rest.subrange(0, k as int))),
                Some(v) => prepend(v, render(rest.subrange(k + 1 as int, rest.len() as int), c)),
            }
        }
    }
}

/// A pattern that could not be filled in.
#[derive(PartialEq, Eq, Debug, Clone)]
pub enum TemplateError {
    /// A `{` with no closing `}`.
    Unterminated,
    /// A placeholder other than `bin`, `name`, `triple` or `version`.
    UnknownPlaceholder(String),
}

impl View for TemplateError {
    type V = TemplateFault;

    open spec fn view(&self) -> TemplateFault {
        match self {
            TemplateError::Unterminated => TemplateFault::Unterminated,
            TemplateError::UnknownPlaceholder(k) => TemplateFault::Unknown(k@),
        }
    }
}

/// The outcome of a substitution, as text or fault.
pub open spec fn outcome_view(r: Result<String, TemplateError>) -> Result<Seq<char>, TemplateFault> {
    match r {
        Ok(s) => Ok(s@),
        Err(e) => Err(e@),
    }
}

/// The values that one binary's download URL is built from.
#[derive(PartialEq, Eq, Debug)]
pub struct UrlContext {
    pub bin: String,
    pub name: String,
    pub triple: String,
    pub version: Version,
}

impl View for UrlContext {
    type V = TemplateValues;

    open spec fn view(&self) -> TemplateValues {
        TemplateValues {
            bin: self.bin@,
            name: self.name@,
            triple: self.triple@,
            version: self.version@,
        }
    }
}

/// `close_at` is the first `}` at or after the start.
proof fn lemma_close_at(s: Seq<char>, m: int)
    requires
        0 <= m <= s.len(),
        forall|k: int| 0 <= k < m ==> s[k] != '}',
        m == s.len() || s[m] == '}',
    ensures
        close_at(s) == m,
    decreases m,
{
    if m > 0 {
        assert(s[0] != '}');
        lemma_close_at(s.drop_first(), m - 1);
    }
}

impl UrlContext {
    /// The value of placeholder `key`, if it is one of the four.
    fn value_of(&self, key: &str) -> (r: Option<&str>)
        ensures
            match r {
                Some(v) => lookup(key@, self@) == Some(v@),
                None => lookup(key@, self@) is None,
            },
    {
        let n = key.unicode_len();
        if n == 3 && key.get_char(0) == 'b' && key.get_char(1) == 'i' && key.get_char(2) == 'n' {
            assert(key@ =~= seq!['b', 'i', 'n']);
            Some(self.bin.as_str())
        } else if n == 4 && key.get_char(0) == 'n' && key.get_char(1) == 'a' && key.get_char(2)
            == 'm' && key.get_char(3) == 'e' {
            assert(key@ =~= seq!['n', 'a', 'm', 'e']);
            Some(self.name.as_str())
        } else if n == 6 && key.get_char(0) == 't' && key.get_char(1) == 'r' && key.get_char(2)
            == 'i' && key.get_char(3) == 'p' && key.get_char(4) == 'l' && key.get_char(5) == 'e' {
            assert(key@ =~= seq!['t', 'r', 'i', 'p', 'l', 'e']);
            Some(self.triple.as_str())
        } else if n == 7 && key.get_char(0) == 'v' && key.get_char(1) == 'e' && key.get_char(2)
            == 'r' && key.get_char(3) == 's' && key.get_char(4) == 'i' && key.get_char(5) == 'o'
            && key.get_char(6) == 'n' {
            assert(key@ =~= seq!['v', 'e', 'r', 's', 'i', 'o', 'n']);
            Some(self.version.as_str())
        } else {
            None
        }
    }

    /// Fills in `url_pattern`: each `{bin}`, `{name}`, `{triple}` or
    /// `{version}` becomes its raw value and all other text is kept.
    pub fn subsitute(&self, url_pattern: &str) -> (r: Result<String, TemplateError>)
        ensures
            outcome_view(r) == render(url_pattern@, self@),
    {
        let ghost p = url_pattern@;
        let n = url_pattern.unicode_len();
        let mut out = String::new();
        let mut i: usize = 0;
        proof {
            assert(p.subrange(0, n as int) =~= p);
            let r = render(p, self@);
            if r is Ok {
                assert(out@ + r->Ok_0 =~= r->Ok_0);
            }
        }
        while i < n
            invariant
                n == p.len(),
                p == url_pattern@,
                i <= n,
                render(p, self@) == prepend(out@, render(p.subrange(i as int, n as int), self@)),
            decreases n - i,
        {
            let ghost tail = p.subrange(i as int, n as int);
            let c = url_pattern.get_char(i);
            if c != '{' {
                assert(tail.drop_first() =~= p.subrange(i + 1, n as int));
                let piece = url_pattern.substring_char(i, i + 1);
                assert(piece@ =~= seq![c]);
                proof {
                    let r = render(p.subrange(i + 1, n as int), self@);
                    if r is Ok {
                        assert(out@ + (seq![c] + r->Ok_0) =~= (out@ + seq![c]) + r->Ok_0);
                    }
                }
                out.append(piece);
                i = i + 1;
            } else {
                let mut j: usize = i + 1;
                while j < n && url_pattern.get_char(j) != '}'
                    invariant
                        n == p.len(),
                        p == url_pattern@,
                        i < j <= n,
                        forall|k: int| i < k < j ==> p[k] != '}',
                    decreases n - j,
                {
                    j = j + 1;
                }
                let ghost rest = tail.drop_first();
                assert(rest =~= p.subrange(i + 1, n as int));
                proof {
                    lemma_close_at(rest, j - i - 1);
                }
                if j == n {
                    return Err(TemplateError::Unterminated);
                }
                let key = url_pattern.substring_char(i + 1, j);
                assert(key@ =~= rest.subrange(0, j - i - 1));
                match self.value_of(key) {
                    None => {
                        return Err(TemplateError::UnknownPlaceholder(String::from_str(key)));
                    },
                    Some(v) => {
                        assert(rest.subrange(j - i, rest.len() as int) =~= p.subrange(
                            j + 1,
                            n as int,
                        ));
                        proof {
                            let r = render(p.subrange(j + 1, n as int), self@);
                            if r is Ok {
                                assert(out@ + (v@ + r->Ok_0) =~= (out@ + v@) + r->Ok_0);
                            }
                        }
                        out.append(v);
                        i = j + 1;
                    },
                }
            }
        }
        assert(p.subrange(n as int, n as int) =~= Seq::<char>::empty());
        assert(out@ + Seq::<char>::empty() =~= out@);
        Ok(out)
    }
}

/// Text with no `{` passes through a rendering unchanged, in front of what
/// follows it.
proof fn lemma_render_plain_prefix(pre: Seq<char>, rest: Seq<char>, c: TemplateValues)
    requires
        forall|i: int| 0 <= i < pre.len() ==> pre[i] != '{',
    ensures
        render(pre + rest, c) == prepend(pre, render(rest, c)),
    decreases pre.len(),
{
    if pre.len() == 0 {
        assert(pre + rest =~= rest);
        if render(rest, c) is Ok {
            assert(pre + render(rest, c)->Ok_0 =~= render(rest, c)->Ok_0);
        }
    } else {
        let tail = pre.drop_first();
        assert((pre + rest).drop_first() =~= tail + rest);
        lemma_render_plain_prefix(tail, rest, c);
        if render(rest, c) is Ok {
            assert(seq![pre[0]] + (tail + render(rest, c)->Ok_0) =~= pre + render(rest, c)->Ok_0);
        }
    }
}

/// Filling in a pattern is a function of the pattern and the values alone:
/// the same pattern with the same values always gives the same text, or the
/// same fault.
pub proof fn substitution_is_deterministic(p: Seq<char>, c1: TemplateValues, c2: TemplateValues)
    requires
        c1 == c2,
    ensures
        render(p, c1) == render(p, c2),
{
}

/// Whether a pattern can be filled in depends on the pattern alone, never on
/// the values put into it.
pub proof fn substitution_success_ignores_values(p: Seq<char>, c1: TemplateValues, c2: TemplateValues)
    ensures
        render(p, c1) is Ok <==> render(p, c2) is Ok,
    decreases p.len(),
{
    if p.len() > 0 {
        if p[0] != '{' {
            substitution_success_ignores_values(p.drop_first(), c1, c2);
        } else {
            let rest = p.drop_first();
            let k = close_at(rest);
            if k < rest.len() {
                substitution_success_ignores_values(rest.subrange(k + 1 as int, rest.len() as int), c1, c2);
            }
        }
    }
}

/// A placeholder whose name is none of the four makes the pattern fail with
/// that name, whatever follows it, as long as no placeholder comes before it.
pub proof fn unknown_placeholder_fails(
    pre: Seq<char>,
    key: Seq<char>,
    post: Seq<char>,
    c: TemplateValues,
)
    requires
        forall|i: int| 0 <= i < pre.len() ==> pre[i] != '{',
        forall|i: int| 0 <= i < key.len() ==> key[i] != '}',
        lookup(key, c) is None,
    ensures
        render(pre + seq!['{'] + key + seq!['}'] + post, c) == Err::<Seq<char>, TemplateFault>(
            TemplateFault::Unknown(key),
        ),
{
    let rest = seq!['{'] + key + seq!['}'] + post;
    assert(pre + seq!['{'] + key + seq!['}'] + post =~= pre + rest);
    lemma_render_plain_prefix(pre, rest, c);
    let inner = rest.drop_first();
    assert(inner =~= key + seq!['}'] + post);
    lemma_close_at(inner, key.len() as int);
    assert(inner.subrange(0, key.len() as int) =~= key);
}

/// No `}` comes before `close_at`, and a `}` stands at it unless it is the
/// end.
proof fn lemma_close_at_facts(s: Seq<char>)
    ensures
        close_at(s) <= s.len(),
        forall|k: int| 0 <= k < close_at(s) ==> s[k] != '}',
        close_at(s) < s.len() ==> s[close_at(s) as int] == '}',
    decreases s.len(),
{
    if s.len() > 0 && s[0] != '}' {
        lemma_close_at_facts(s.drop_first());
        assert forall|k: int| 0 <= k < close_at(s) implies s[k] != '}' by {
            if k > 0 {
                assert(s[k] == s.drop_first()[k - 1]);
            }
        }
    }
}

/// A placeholder name that holds a `{` is none of the four.
proof fn lemma_braced_key_unknown(key: Seq<char>, i: int, c: TemplateValues)
    requires
        0 <= i < key.len(),
        key[i] == '{',
    ensures
        lookup(key, c) is None,
{
    let b = seq!['b', 'i', 'n'];
    let n = seq!['n', 'a', 'm', 'e'];
    let t = seq!['t', 'r', 'i', 'p', 'l', 'e'];
    let v = seq!['v', 'e', 'r', 's', 'i', 'o', 'n'];
    if key == b {
        assert(b[i] != '{');
    } else if key == n {
        assert(n[i] != '{');
    } else if key == t {
        assert(t[i] != '{');
    } else if key == v {
        assert(v[i] != '{');
    }
}

/// A placeholder whose name is none of the four makes the whole pattern
/// fail, whatever comes before it, known placeholders included, and
/// whatever follows it.
pub proof fn unknown_placeholder_always_fails(
    pre: Seq<char>,
    key: Seq<char>,
    post: Seq<char>,
    c: TemplateValues,
)
    requires
        forall|i: int| 0 <= i < key.len() ==> key[i] != '}',
        lookup(key, c) is None,
    ensures
        render(pre + seq!['{'] + key + seq!['}'] + post, c) is Err,
    decreases pre.len(),
{
    let seg = seq!['{'] + key + seq!['}'] + post;
    let p = pre + seq!['{'] + key + seq!['}'] + post;
    assert(p =~= pre + seg);
    if pre.len() == 0 {
        assert(p =~= seg);
        let rest = seg.drop_first();
        assert(rest =~= key + seq!['}'] + post);
        lemma_close_at(rest, key.len() as int);
        assert(rest.subrange(0, key.len() as int) =~= key);
    } else if pre[0] != '{' {
        let tail = pre.drop_first();
        assert(p.drop_first() =~= tail + seq!['{'] + key + seq!['}'] + post);
        unknown_placeholder_always_fails(tail, key, post, c);
    } else {
        let ptail = pre.drop_first();
        let rest = p.drop_first();
        assert(rest =~= ptail + seg);
        lemma_close_at_facts(ptail);
        let k = close_at(ptail);
        if k < ptail.len() {
            assert forall|j: int| 0 <= j < k implies rest[j] != '}' by {
                assert(rest[j] == ptail[j]);
            }
            assert(rest[k as int] == ptail[k as int]);
            lemma_close_at(rest, k as int);
            assert(rest.subrange(0, k as int) =~= ptail.subrange(0, k as int));
            let after = ptail.subrange(k + 1 as int, ptail.len() as int);
            assert(rest.subrange(k + 1 as int, rest.len() as int) =~= after + seq!['{'] + key
                + seq!['}'] + post);
            unknown_placeholder_always_fails(after, key, post, c);
        } else {
            let m: int = ptail.len() as int + 1 + key.len() as int;
            assert forall|j: int| 0 <= j < m implies rest[j] != '}' by {
                if j < ptail.len() {
                    assert(rest[j] == ptail[j]);
                } else if j > ptail.len() {
                    assert(rest[j] == key[j - ptail.len() - 1]);
                }
            }
            assert(rest[m] == '}');
            lemma_close_at(rest, m);
            let name = rest.subrange(0, m);
            assert(name[ptail.len() as int] == '{');
            lemma_braced_key_unknown(name, ptail.len() as int, c);
        }
    }
}

} // verus!
