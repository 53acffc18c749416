use vstd::prelude::*;

use crate::syntax::Node;

verus! {

/// The three kinds of syntax error.
#[derive(Debug, Clone, Copy, PartialEq, Eq, Structural)]
pub enum ErrorKind {
    /// The leading doctype block is missing or malformed.
    DoctypeSyntax,
    /// An element breaks the grammar: a brace, a name, an attribute list.
    ElementSyntax,
    /// A quoted string is unterminated or holds an unknown escape.
    StringSyntax,
}

/// What a rule yields at a position: a value and the position after it,
/// or an error kind and the position where the rule failed.
pub type Parsed<T> = Result<(T, int), (ErrorKind, int)>;

/// Relies on `char::is_alphanumeric` (Unicode's Alphabetic or Numeric).
pub uninterp spec fn alnum(c: char) -> bool;

pub open spec fn is_ws(c: char) -> bool {
    c == ' ' || c == '\t' || c == '\n' || c == '\r'
}

pub open spec fn ident_char(c: char) -> bool {
    alnum(c) || c == '_'
}

pub open spec fn attr_char(c: char) -> bool {
    ident_char(c) || c == '-'
}

pub open spec fn at(s: Seq<char>, i: int, c: char) -> bool {
    0 <= i < s.len() && s[i] == c
}

/// The first position from `i` on that holds no whitespace.
pub open spec fn skip_ws(s: Seq<char>, i: int) -> int
    decreases s.len() - i,
{
    if 0 <= i < s.len() && is_ws(s[i]) {
        skip_ws(s, i + 1)
    } else {
        i
    }
}

/// The end of the run of identifier characters that starts at `i`.
pub open spec fn ident_end(s: Seq<char>, i: int) -> int
    decreases s.len() - i,
{
    if 0 <= i < s.len() && ident_char(s[i]) {
        ident_end(s, i + 1)
    } else {
        i
    }
}

/// The end of the run of attribute-name characters that starts at `i`.
pub open spec fn attr_name_end(s: Seq<char>, i: int) -> int
    decreases s.len() - i,
{
    if 0 <= i < s.len() && attr_char(s[i]) {
        attr_name_end(s, i + 1)
    } else {
        i
    }
}

/// `p` put in front of a successful result; an error passes unchanged.
pub open spec fn prefixed<T>(p: Seq<T>, r: Parsed<Seq<T>>) -> Parsed<Seq<T>> {
    match r {
        Ok((v, e)) => Ok((p + v, e)),
        Err(x) => Err(x),
    }
}

pub proof fn lemma_prefixed<T>(p: Seq<T>, x: T, r: Parsed<Seq<T>>)
    ensures
        prefixed(p, prefixed(seq![x], r)) == prefixed(p.push(x), r),
        prefixed(Seq::<T>::empty(), r) == r,
{
    if r is Ok {
        let v = r->Ok_0.0;
        assert(p + (seq![x] + v) =~= p.push(x) + v);
        assert(Seq::<T>::empty() + v =~= v);
    }
}

/// The character that an escape `\c` stands for.
pub open spec fn unescape(c: char) -> Option<char> {
    if c == '\\' {
        Some('\\')
    } else if c == '"' {
        Some('"')
    } else if c == 'n' {
        Some('\n')
    } else {
        None
    }
}

/// The decoded body of a quoted string from `i` on, through its closing quote.
pub open spec fn string_body(s: Seq<char>, i: int) -> Parsed<Seq<char>>
    decreases s.len() - i,
{
    if i < 0 || i >= s.len() {
        Err((ErrorKind::StringSyntax, i))
    } else if s[i] == '"' {
        Ok((Seq::empty(), i + 1))
    } else if s[i] == '\\' {
        if i + 1 >= s.len() {
            Err((ErrorKind::StringSyntax, i))
        } else {
            match unescape(s[i + 1]) {
                Some(c) => prefixed(seq![c], string_body(s, i + 2)),
                None => Err((ErrorKind::StringSyntax, i)),
            }
        }
    } else {
        prefixed(seq![s[i]], string_body(s, i + 1))
    }
}

/// A quoted string that starts at `i`.
pub open spec fn quoted(s: Seq<char>, i: int) -> Parsed<Seq<char>> {
    if at(s, i, '"') {
        string_body(s, i + 1)
    } else {
        Err((ErrorKind::StringSyntax, i))
    }
}

/// An optional `#id` at `p`.
pub open spec fn id_at(s: Seq<char>, p: int) -> Parsed<Option<Seq<char>>> {
    if at(s, p, '#') {
        let e = ident_end(s, p + 1);
        if e == p + 1 {
            Err((ErrorKind::ElementSyntax, e))
        } else {
            Ok((Some(s.subrange(p + 1, e)), e))
        }
    } else {
        Ok((None, p))
    }
}

/// Zero or more `.class` at `p`.
pub open spec fn classes_at(s: Seq<char>, p: int) -> Parsed<Seq<Seq<char>>>
    decreases s.len() - p,
{
    if at(s, p, '.') {
        let e = ident_end(s, p + 1);
        if e <= p + 1 || e > s.len() {
            Err((ErrorKind::ElementSyntax, e))
        } else {
            prefixed(seq![s.subrange(p + 1, e)], classes_at(s, e))
        }
    } else {
        Ok((Seq::empty(), p))
    }
}

/// One `name="value"` at `p`.
pub open spec fn attribute_at(s: Seq<char>, p: int) -> Parsed<(Seq<char>, Seq<char>)> {
    let e = attr_name_end(s, p);
    if e == p {
        Err((ErrorKind::ElementSyntax, p))
    } else if !at(s, e, '=') {
        Err((ErrorKind::ElementSyntax, e))
    } else {
        match quoted(s, e + 1) {
            Ok((v, q)) => Ok(((s.subrange(p, e), v), q)),
            Err(x) => Err(x),
        }
    }
}

/// The attributes after `[` and blanks, through the closing `]`.
pub open spec fn attr_list(s: Seq<char>, p: int) -> Parsed<Seq<(Seq<char>, Seq<char>)>>
    decreases s.len() - p,
{
    if at(s, p, ']') {
        Ok((Seq::empty(), p + 1))
    } else {
        match attribute_at(s, p) {
            Ok((a, q)) => {
                let r = skip_ws(s, q);
                if !at(s, r, ']') && r == q {
                    Err((ErrorKind::ElementSyntax, r))
                } else if p < r <= s.len() {
                    prefixed(seq![a], attr_list(s, r))
                } else {
                    Err((ErrorKind::ElementSyntax, r))
                }
            },
            Err(x) => Err(x),
        }
    }
}

/// An optional bracketed attribute list at `p`.
pub open spec fn attrs_at(s: Seq<char>, p: int) -> Parsed<Option<Seq<(Seq<char>, Seq<char>)>>> {
    if at(s, p, '[') {
        match attr_list(s, skip_ws(s, p + 1)) {
            Ok((v, q)) => Ok((Some(v), q)),
            Err(x) => Err(x),
        }
    } else {
        Ok((None, p))
    }
}

/// An element whose name starts at `i`.
pub open spec fn element(s: Seq<char>, i: int) -> Parsed<Node>
    decreases s.len() - i, 0nat,
{
    let ne = ident_end(s, i);
    if ne == i || i < 0 {
        Err((ErrorKind::ElementSyntax, i))
    } else {
        match id_at(s, ne) {
            Err(x) => Err(x),
            Ok((id, p1)) => match classes_at(s, p1) {
                Err(x) => Err(x),
                Ok((classes, p2)) => match attrs_at(s, skip_ws(s, p2)) {
                    Err(x) => Err(x),
                    Ok((attrs, p3)) => {
                        let b = skip_ws(s, p3);
                        if !at(s, b, '{') || b < i {
                            Err((ErrorKind::ElementSyntax, b))
                        } else {
                            match content(s, b + 1) {
                                Err(x) => Err(x),
                                Ok((items, c)) => {
                                    let d = skip_ws(s, c);
                                    if at(s, d, '}') {
                                        Ok(
                                            (
                                                Node::Elem {
                                                    name: s.subrange(i, ne),
                                                    id,
                                                    classes: Some(classes),
                                                    attrs,
                                                    content: items,
                                                },
                                                d + 1,
                                            ),
                                        )
                                    } else {
                                        Err((ErrorKind::ElementSyntax, d))
                                    }
                                },
                            }
                        }
                    },
                },
            },
        }
    }
}

/// The items of an element's body from `i` on, up to the first position
/// that starts neither an element nor a quoted string.
pub open spec fn content(s: Seq<char>, i: int) -> Parsed<Seq<Node>>
    decreases s.len() - i, 1nat,
{
    let j = skip_ws(s, i);
    if i < 0 || j < i || j >= s.len() {
        Ok((Seq::empty(), j))
    } else if s[j] == '"' {
        match quoted(s, j) {
            Ok((t, q)) => if j < q <= s.len() {
                prefixed(seq![Node::Text(t)], content(s, q))
            } else {
                Err((ErrorKind::StringSyntax, q))
            },
            Err(x) => Err(x),
        }
    } else if ident_char(s[j]) {
        match element(s, j) {
            Ok((n, q)) => if j < q <= s.len() {
                prefixed(seq![n], content(s, q))
            } else {
                Err((ErrorKind::ElementSyntax, q))
            },
            Err(x) => Err(x),
        }
    } else {
        Ok((Seq::empty(), j))
    }
}

/// Whether `w` stands in `s` at position `i`.
pub open spec fn word_at(s: Seq<char>, i: int, w: Seq<char>) -> bool {
    0 <= i && i + w.len() <= s.len() && s.subrange(i, i + w.len()) == w
}

/// The doctype declaration at the start of `s`: its quoted value, and
/// the position after its closing brace.
pub open spec fn doctype_decl(s: Seq<char>) -> Parsed<Seq<char>> {
    if !word_at(s, 0, "!doctype"@) && !word_at(s, 0, "!DOCTYPE"@) {
        Err((ErrorKind::DoctypeSyntax, 0))
    } else {
        let k = "!doctype"@.len() as int;
        let w = skip_ws(s, k);
        if w == k {
            Err((ErrorKind::DoctypeSyntax, w))
        } else if !at(s, w, '{') {
            Err((ErrorKind::DoctypeSyntax, w))
        } else {
            match quoted(s, skip_ws(s, w + 1)) {
                Err((_, e)) => Err((ErrorKind::DoctypeSyntax, e)),
                Ok((t, q)) => {
                    let c = skip_ws(s, q);
                    if at(s, c, '}') {
                        Ok((t, c + 1))
                    } else {
                        Err((ErrorKind::DoctypeSyntax, c))
                    }
                },
            }
        }
    }
}

/// The rendered doctype line of a declared value.
pub open spec fn doctype_line(t: Seq<char>) -> Seq<char> {
    "<!DOCTYPE "@ + t + ">\n"@
}

/// A whole document: the doctype line and the root element. Text after
/// the root element is not read.
pub open spec fn document(s: Seq<char>) -> Result<(Seq<char>, Node), (ErrorKind, int)> {
    match doctype_decl(s) {
        Err(x) => Err(x),
        Ok((t, p)) => {
            let j = skip_ws(s, p);
            if at(s, j, '"') || !(0 <= j < s.len() && ident_char(s[j])) {
                Err((ErrorKind::ElementSyntax, j))
            } else {
                match element(s, j) {
                    Ok((n, _)) => Ok((doctype_line(t), n)),
                    Err(x) => Err(x),
                }
            }
        },
    }
}

} // verus!
