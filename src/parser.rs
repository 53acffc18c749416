use vstd::prelude::*;

use vstd::std_specs::iter::IteratorSpec;

use crate::chars::{is_alnum, push_char};
use crate::grammar::{
    at, attr_list, attr_name_end, attribute_at, attrs_at, classes_at, content, doctype_decl,
    document, element, id_at, ident_end, lemma_prefixed, prefixed, quoted, skip_ws, string_body,
    word_at, ErrorKind,
};
use crate::syntax::{
    attrs_view, nodes_of, opt_attrs_view, opt_string_view, strings_view, Attribute, TextElement,
};

verus! {

/// Where and why parsing stopped; `pos` counts characters of the input.
#[derive(Debug, Clone, Copy, PartialEq, Eq, Structural)]
pub struct ParseError {
    pub kind: ErrorKind,
    pub pos: usize,
}

/// A parsed document: the rendered doctype line and the root element.
#[derive(Debug)]
pub struct Document {
    pub doctype: String,
    pub root: TextElement,
}

/// `r` is the error that the grammar gives.
pub open spec fn fails<T>(r: Result<T, ParseError>, x: (ErrorKind, int)) -> bool {
    r is Err && r->Err_0.kind == x.0 && r->Err_0.pos == x.1
}

fn err<T>(kind: ErrorKind, pos: usize) -> (r: Result<T, ParseError>)
    ensures
        fails(r, (kind, pos as int)),
{
    Err(ParseError { kind, pos })
}

fn is_blank(c: char) -> (r: bool)
    ensures
        r == crate::grammar::is_ws(c),
{
    c == ' ' || c == '\t' || c == '\n' || c == '\r'
}

fn skip_blanks(s: &Vec<char>, i: usize) -> (j: usize)
    requires
        i <= s@.len(),
    ensures
        j == skip_ws(s@, i as int),
        i <= j <= s@.len(),
{
    let mut j = i;
    while j < s.len() && is_blank(s[j])
        invariant
            i <= j <= s@.len(),
            skip_ws(s@, i as int) == skip_ws(s@, j as int),
        decreases s@.len() - j,
    {
        j = j + 1;
    }
    j
}

fn ident_end_at(s: &Vec<char>, i: usize) -> (j: usize)
    requires
        i <= s@.len(),
    ensures
        j == ident_end(s@, i as int),
        i <= j <= s@.len(),
{
    let mut j = i;
    while j < s.len() && (is_alnum(s[j]) || s[j] == '_')
        invariant
            i <= j <= s@.len(),
            ident_end(s@, i as int) == ident_end(s@, j as int),
        decreases s@.len() - j,
    {
        j = j + 1;
    }
    j
}

fn attr_name_end_at(s: &Vec<char>, i: usize) -> (j: usize)
    requires
        i <= s@.len(),
    ensures
        j == attr_name_end(s@, i as int),
        i <= j <= s@.len(),
{
    let mut j = i;
    while j < s.len() && (is_alnum(s[j]) || s[j] == '_' || s[j] == '-')
        invariant
            i <= j <= s@.len(),
            attr_name_end(s@, i as int) == attr_name_end(s@, j as int),
        decreases s@.len() - j,
    {
        j = j + 1;
    }
    j
}

fn text_of(s: &Vec<char>, a: usize, b: usize) -> (r: String)
    requires
        a <= b <= s@.len(),
    ensures
        r@ == s@.subrange(a as int, b as int),
{
    let mut out = String::new();
    let mut k = a;
    while k < b
        invariant
            a <= k <= b <= s@.len(),
            out@ == s@.subrange(a as int, k as int),
        decreases b - k,
    {
        push_char(&mut out, s[k]);
        assert(s@.subrange(a as int, k + 1) == s@.subrange(a as int, k as int).push(s@[k as int]));
        k = k + 1;
    }
    out
}

fn string_body_at(s: &Vec<char>, i: usize) -> (r: Result<(String, usize), ParseError>)
    requires
        i <= s@.len(),
    ensures
        match string_body(s@, i as int) {
            Ok((v, e)) => r is Ok && r->Ok_0.0@ == v && r->Ok_0.1 == e,
            Err(x) => fails(r, x),
        },
        r is Ok ==> i < r->Ok_0.1 <= s@.len(),
{
    let mut out = String::new();
    let mut j = i;
    proof {
        lemma_prefixed(out@, ' ', string_body(s@, i as int));
    }
    loop
        invariant
            i <= j <= s@.len(),
            string_body(s@, i as int) == prefixed(out@, string_body(s@, j as int)),
        decreases s@.len() - j,
    {
        if j >= s.len() {
            return err(ErrorKind::StringSyntax, j);
        }
        let c = s[j];
        if c == '"' {
            assert(out@ + Seq::<char>::empty() =~= out@);
            return Ok((out, j + 1));
        }
        if c == '\\' {
            if j + 1 >= s.len() {
                return err(ErrorKind::StringSyntax, j);
            }
            let e = s[j + 1];
            let d = if e == '\\' {
                '\\'
            } else if e == '"' {
                '"'
            } else if e == 'n' {
                '\n'
            } else {
                return err(ErrorKind::StringSyntax, j);
            };
            proof {
                lemma_prefixed(out@, d, string_body(s@, j + 2));
            }
            push_char(&mut out, d);
            j = j + 2;
        } else {
            proof {
                lemma_prefixed(out@, c, string_body(s@, j + 1));
            }
            push_char(&mut out, c);
            j = j + 1;
        }
    }
}

fn quoted_at(s: &Vec<char>, i: usize) -> (r: Result<(String, usize), ParseError>)
    requires
        i <= s@.len(),
    ensures
        match quoted(s@, i as int) {
            Ok((v, e)) => r is Ok && r->Ok_0.0@ == v && r->Ok_0.1 == e,
            Err(x) => fails(r, x),
        },
        r is Ok ==> i < r->Ok_0.1 <= s@.len(),
{
    if i < s.len() && s[i] == '"' {
        string_body_at(s, i + 1)
    } else {
        err(ErrorKind::StringSyntax, i)
    }
}

fn id_here(s: &Vec<char>, p: usize) -> (r: Result<(Option<String>, usize), ParseError>)
    requires
        p <= s@.len(),
    ensures
        match id_at(s@, p as int) {
            Ok((v, e)) => r is Ok && opt_string_view(r->Ok_0.0) == v && r->Ok_0.1 == e,
            Err(x) => fails(r, x),
        },
        r is Ok ==> p <= r->Ok_0.1 <= s@.len(),
{
    if p < s.len() && s[p] == '#' {
        let e = ident_end_at(s, p + 1);
        if e == p + 1 {
            return err(ErrorKind::ElementSyntax, e);
        }
        Ok((Some(text_of(s, p + 1, e)), e))
    } else {
        Ok((None, p))
    }
}

fn classes_here(s: &Vec<char>, p: usize) -> (r: Result<(Vec<String>, usize), ParseError>)
    requires
        p <= s@.len(),
    ensures
        match classes_at(s@, p as int) {
            Ok((v, e)) => r is Ok && strings_view(r->Ok_0.0@) == v && r->Ok_0.1 == e,
            Err(x) => fails(r, x),
        },
        r is Ok ==> p <= r->Ok_0.1 <= s@.len(),
{
    let mut acc: Vec<String> = Vec::new();
    let mut q = p;
    proof {
        assert(strings_view(acc@) =~= Seq::<Seq<char>>::empty());
        lemma_prefixed(strings_view(acc@), Seq::empty(), classes_at(s@, p as int));
    }
    loop
        invariant
            p <= q <= s@.len(),
            classes_at(s@, p as int) == prefixed(strings_view(acc@), classes_at(s@, q as int)),
        decreases s@.len() - q,
    {
        if !(q < s.len() && s[q] == '.') {
            assert(strings_view(acc@) + Seq::<Seq<char>>::empty() =~= strings_view(acc@));
            return Ok((acc, q));
        }
        let e = ident_end_at(s, q + 1);
        if e == q + 1 {
            return err(ErrorKind::ElementSyntax, e);
        }
        let name = text_of(s, q + 1, e);
        proof {
            lemma_prefixed(strings_view(acc@), name@, classes_at(s@, e as int));
            assert(strings_view(acc@.push(name)) =~= strings_view(acc@).push(name@));
        }
        acc.push(name);
        q = e;
    }
}

fn attribute_here(s: &Vec<char>, p: usize) -> (r: Result<(Attribute, usize), ParseError>)
    requires
        p <= s@.len(),
    ensures
        match attribute_at(s@, p as int) {
            Ok((v, e)) => r is Ok && r->Ok_0.0.pair() == v && r->Ok_0.1 == e,
            Err(x) => fails(r, x),
        },
        r is Ok ==> p < r->Ok_0.1 <= s@.len(),
{
    let e = attr_name_end_at(s, p);
    if e == p {
        return err(ErrorKind::ElementSyntax, p);
    }
    if !(e < s.len() && s[e] == '=') {
        return err(ErrorKind::ElementSyntax, e);
    }
    match quoted_at(s, e + 1) {
        Ok((v, q)) => Ok((Attribute(text_of(s, p, e), v), q)),
        Err(x) => Err(x),
    }
}

fn attr_list_here(s: &Vec<char>, p: usize) -> (r: Result<(Vec<Attribute>, usize), ParseError>)
    requires
        p <= s@.len(),
    ensures
        match attr_list(s@, p as int) {
            Ok((v, e)) => r is Ok && attrs_view(r->Ok_0.0@) == v && r->Ok_0.1 == e,
            Err(x) => fails(r, x),
        },
        r is Ok ==> p < r->Ok_0.1 <= s@.len(),
{
    let mut acc: Vec<Attribute> = Vec::new();
    let mut q = p;
    proof {
        assert(attrs_view(acc@) =~= Seq::<(Seq<char>, Seq<char>)>::empty());
        lemma_prefixed(attrs_view(acc@), (Seq::empty(), Seq::empty()), attr_list(s@, p as int));
    }
    loop
        invariant
            p <= q <= s@.len(),
            attr_list(s@, p as int) == prefixed(attrs_view(acc@), attr_list(s@, q as int)),
        decreases s@.len() - q,
    {
        if q < s.len() && s[q] == ']' {
            assert(attrs_view(acc@) + Seq::<(Seq<char>, Seq<char>)>::empty() =~= attrs_view(acc@));
            return Ok((acc, q + 1));
        }
        let (a, e) = match attribute_here(s, q) {
            Ok(v) => v,
            Err(x) => return Err(x),
        };
        let w = skip_blanks(s, e);
        if !(w < s.len() && s[w] == ']') && w == e {
            return err(ErrorKind::ElementSyntax, w);
        }
        proof {
            lemma_prefixed(attrs_view(acc@), a.pair(), attr_list(s@, w as int));
            assert(attrs_view(acc@.push(a)) =~= attrs_view(acc@).push(a.pair()));
        }
        acc.push(a);
        q = w;
    }
}

fn attrs_here(s: &Vec<char>, p: usize) -> (r: Result<(Option<Vec<Attribute>>, usize), ParseError>)
    requires
        p <= s@.len(),
    ensures
        match attrs_at(s@, p as int) {
            Ok((v, e)) => r is Ok && opt_attrs_view(r->Ok_0.0) == v && r->Ok_0.1 == e,
            Err(x) => fails(r, x),
        },
        r is Ok ==> p <= r->Ok_0.1 <= s@.len(),
{
    if p < s.len() && s[p] == '[' {
        let w = skip_blanks(s, p + 1);
        match attr_list_here(s, w) {
            Ok((v, q)) => Ok((Some(v), q)),
            Err(x) => Err(x),
        }
    } else {
        Ok((None, p))
    }
}

fn element_here(s: &Vec<char>, i: usize) -> (r: Result<(TextElement, usize), ParseError>)
    requires
        i <= s@.len(),
    ensures
        match element(s@, i as int) {
            Ok((n, e)) => r is Ok && r->Ok_0.0.node() == n && r->Ok_0.1 == e,
            Err(x) => fails(r, x),
        },
        r is Ok ==> i < r->Ok_0.1 <= s@.len(),
    decreases s@.len() - i, 0nat,
{
    let ne = ident_end_at(s, i);
    if ne == i {
        return err(ErrorKind::ElementSyntax, i);
    }
    let (id, p1) = match id_here(s, ne) {
        Ok(v) => v,
        Err(x) => return Err(x),
    };
    let (classes, p2) = match classes_here(s, p1) {
        Ok(v) => v,
        Err(x) => return Err(x),
    };
    let w = skip_blanks(s, p2);
    let (attributes, p3) = match attrs_here(s, w) {
        Ok(v) => v,
        Err(x) => return Err(x),
    };
    let b = skip_blanks(s, p3);
    if !(b < s.len() && s[b] == '{') {
        return err(ErrorKind::ElementSyntax, b);
    }
    let (items, c) = match content_here(s, b + 1) {
        Ok(v) => v,
        Err(x) => return Err(x),
    };
    let d = skip_blanks(s, c);
    if !(d < s.len() && s[d] == '}') {
        return err(ErrorKind::ElementSyntax, d);
    }
    let name = text_of(s, i, ne);
    Ok((TextElement::CustomTag { name, content: items, id, classes: Some(classes), attributes }, d + 1))
}

fn content_here(s: &Vec<char>, i: usize) -> (r: Result<(Vec<TextElement>, usize), ParseError>)
    requires
        i <= s@.len(),
    ensures
        match content(s@, i as int) {
            Ok((v, e)) => r is Ok && nodes_of(r->Ok_0.0@) == v && r->Ok_0.1 == e,
            Err(x) => fails(r, x),
        },
        r is Ok ==> i <= r->Ok_0.1 <= s@.len(),
    decreases s@.len() - i, 1nat,
{
    let mut acc: Vec<TextElement> = Vec::new();
    let mut p = i;
    proof {
        assert(nodes_of(acc@) =~= Seq::<crate::syntax::Node>::empty());
        lemma_prefixed(nodes_of(acc@), crate::syntax::Node::Text(Seq::empty()), content(s@, i as int));
    }
    loop
        invariant
            i <= p <= s@.len(),
            content(s@, i as int) == prefixed(nodes_of(acc@), content(s@, p as int)),
        decreases s@.len() - p,
    {
        let j = skip_blanks(s, p);
        if j >= s.len() {
            assert(nodes_of(acc@) + Seq::<crate::syntax::Node>::empty() =~= nodes_of(acc@));
            return Ok((acc, j));
        }
        let c = s[j];
        let item = if c == '"' {
            match quoted_at(s, j) {
                Ok((t, q)) => (TextElement::Plain(t), q),
                Err(x) => return Err(x),
            }
        } else if is_alnum(c) || c == '_' {
            match element_here(s, j) {
                Ok(v) => v,
                Err(x) => return Err(x),
            }
        } else {
            assert(nodes_of(acc@) + Seq::<crate::syntax::Node>::empty() =~= nodes_of(acc@));
            return Ok((acc, j));
        };
        let (e, q) = item;
        proof {
            lemma_prefixed(nodes_of(acc@), e.node(), content(s@, q as int));
            assert(acc@.push(e).subrange(0, acc@.len() as int) =~= acc@);
        }
        acc.push(e);
        p = q;
    }
}

fn word_here(s: &Vec<char>, i: usize, w: &str) -> (r: bool)
    requires
        i <= s@.len(),
    ensures
        r == word_at(s@, i as int, w@),
{
    let n = w.unicode_len();
    if n > s.len() - i {
        return false;
    }
    let len = s.len();
    let mut k: usize = 0;
    while k < n
        invariant
            len == s@.len(),
            n == w@.len(),
            i + n <= s@.len(),
            k <= n,
            s@.subrange(i as int, i + k) == w@.subrange(0, k as int),
        decreases n - k,
    {
        if s[i + k] != w.get_char(k) {
            assert(s@.subrange(i as int, i + n)[k as int] != w@[k as int]);
            return false;
        }
        assert(s@.subrange(i as int, i + k + 1) =~= s@.subrange(i as int, i + k).push(s@[i + k]));
        assert(w@.subrange(0, k + 1) =~= w@.subrange(0, k as int).push(w@[k as int]));
        k = k + 1;
    }
    assert(w@.subrange(0, n as int) =~= w@);
    true
}

fn doctype_here(s: &Vec<char>) -> (r: Result<(String, usize), ParseError>)
    ensures
        match doctype_decl(s@) {
            Ok((v, e)) => r is Ok && r->Ok_0.0@ == v && r->Ok_0.1 == e,
            Err(x) => fails(r, x),
        },
        r is Ok ==> r->Ok_0.1 <= s@.len(),
{
    if !word_here(s, 0, "!doctype") && !word_here(s, 0, "!DOCTYPE") {
        return err(ErrorKind::DoctypeSyntax, 0);
    }
    proof {
        reveal_strlit("!doctype");
        reveal_strlit("!DOCTYPE");
    }
    let k: usize = 8;
    let w = skip_blanks(s, k);
    if w == k {
        return err(ErrorKind::DoctypeSyntax, w);
    }
    if !(w < s.len() && s[w] == '{') {
        return err(ErrorKind::DoctypeSyntax, w);
    }
    let v = skip_blanks(s, w + 1);
    let (t, q) = match quoted_at(s, v) {
        Ok(x) => x,
        Err(x) => return err(ErrorKind::DoctypeSyntax, x.pos),
    };
    let c = skip_blanks(s, q);
    if !(c < s.len() && s[c] == '}') {
        return err(ErrorKind::DoctypeSyntax, c);
    }
    Ok((t, c + 1))
}

/// The characters of `text`, in order.
fn chars_of(text: &str) -> (v: Vec<char>)
    ensures
        v@ == text@,
{
    let mut it = text.chars();
    let mut v: Vec<char> = Vec::new();
    loop
        invariant
            v@ + it.remaining() == text@,
            it.decrease() is Some,
        decreases it.decrease()->0,
    {
        let ghost before = it.remaining();
        match it.next() {
            Some(c) => {
                assert(v@.push(c) + it.remaining() =~= v@ + before);
                v.push(c);
            },
            None => {
                assert(v@ + it.remaining() =~= v@);
                return v;
            },
        }
    }
}

/// Parses a whole document: the doctype declaration, then one root element.
/// Text after the root element is not read.
pub fn parse_document(input: &str) -> (r: Result<Document, ParseError>)
    ensures
        match document(input@) {
            Ok((t, n)) => r is Ok && r->Ok_0.doctype@ == t && r->Ok_0.root.node() == n,
            Err(x) => fails(r, x),
        },
{
    let s = chars_of(input);
    let (t, p) = match doctype_here(&s) {
        Ok(x) => x,
        Err(x) => return Err(x),
    };
    let j = skip_blanks(&s, p);
    if j >= s.len() || s[j] == '"' || !(is_alnum(s[j]) || s[j] == '_') {
        return err(ErrorKind::ElementSyntax, j);
    }
    let (root, _) = match element_here(&s, j) {
        Ok(x) => x,
        Err(x) => return Err(x),
    };
    let mut doctype = String::new();
    doctype.append("<!DOCTYPE ");
    doctype.append(t.as_str());
    doctype.append(">\n");
    Ok(Document { doctype, root })
}

} // verus!
