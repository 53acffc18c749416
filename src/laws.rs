use vstd::prelude::*;

use crate::grammar::{
    at, content, is_ws, prefixed, quoted, skip_ws, string_body, unescape, ErrorKind,
};
use crate::html::{attrs_part, class_part, html_list, html_of, id_part, join, open_tag};
use crate::syntax::Node;

verus! {

/// Skipping whitespace never moves backwards, and stops on a non-blank
/// character or at the end.
pub proof fn lemma_skip_ws(s: Seq<char>, i: int)
    requires
        0 <= i <= s.len(),
    ensures
        i <= skip_ws(s, i) <= s.len(),
        skip_ws(s, i) < s.len() ==> !is_ws(s[skip_ws(s, i)]),
    decreases s.len() - i,
{
    if i < s.len() && is_ws(s[i]) {
        lemma_skip_ws(s, i + 1);
    }
}

/// An escape decodes to one character: `\\` to a backslash, `\"` to a
/// quote, `\n` to a newline. Any other escaped character is rejected as a
/// string error at the backslash.
pub proof fn lemma_escape(c: char)
    ensures
        unescape('\\') == Some('\\'),
        unescape('"') == Some('"'),
        unescape('n') == Some('\n'),
        c != '\\' && c != '"' && c != 'n' ==> unescape(c) is None,
        quoted(seq!['"', '\\', c, '"'], 0) == (match unescape(c) {
            Some(d) => Ok((seq![d], 4int)),
            None => Err((ErrorKind::StringSyntax, 1int)),
        }),
{
    let s = seq!['"', '\\', c, '"'];
    assert(string_body(s, 3) == Ok::<(Seq<char>, int), (ErrorKind, int)>((Seq::empty(), 4)));
    if let Some(d) = unescape(c) {
        assert(seq![d] + Seq::<char>::empty() =~= seq![d]);
    }
}

/// `""` is an empty string: as a body item it becomes an empty text node,
/// which adds no characters to the output.
pub proof fn lemma_empty_string(s: Seq<char>, i: int, items: Seq<Node>)
    requires
        0 <= i <= s.len(),
        at(s, skip_ws(s, i), '"'),
        at(s, skip_ws(s, i) + 1, '"'),
    ensures
        quoted(s, skip_ws(s, i)) == Ok::<(Seq<char>, int), (ErrorKind, int)>(
            (Seq::empty(), skip_ws(s, i) + 2),
        ),
        content(s, i) == prefixed(seq![Node::Text(Seq::empty())], content(s, skip_ws(s, i) + 2)),
        html_of(Node::Text(Seq::empty())) == Seq::<char>::empty(),
        html_list(items.push(Node::Text(Seq::empty()))) == html_list(items),
{
    lemma_skip_ws(s, i);
    let np = items.push(Node::Text(Seq::empty()));
    assert(np.subrange(0, np.len() - 1) =~= items);
    assert(html_list(items) + Seq::<char>::empty() =~= html_list(items));
}

/// A `br` element renders as the bare `<br>`, whatever its id, classes,
/// attributes and content.
pub proof fn lemma_br(
    id: Option<Seq<char>>,
    classes: Option<Seq<Seq<char>>>,
    attrs: Option<Seq<(Seq<char>, Seq<char>)>>,
    items: Seq<Node>,
)
    ensures
        html_of(Node::Elem { name: "br"@, id, classes, attrs, content: items }) == "<br>"@,
{
}

/// A `doctype` element renders as `<!DOCTYPE ...>` around its content;
/// with the single text `html` that is `<!DOCTYPE html>`.
pub proof fn lemma_doctype_element(
    t: Seq<char>,
    id: Option<Seq<char>>,
    classes: Option<Seq<Seq<char>>>,
    attrs: Option<Seq<(Seq<char>, Seq<char>)>>,
)
    ensures
        html_of(
            Node::Elem { name: "doctype"@, id, classes, attrs, content: seq![Node::Text(t)] },
        ) == "<!DOCTYPE "@ + t + ">"@,
        html_of(
            Node::Elem {
                name: "doctype"@,
                id,
                classes,
                attrs,
                content: seq![Node::Text("html"@)],
            },
        ) == "<!DOCTYPE html>"@,
{
    reveal_strlit("doctype");
    reveal_strlit("br");
    reveal_strlit("<!DOCTYPE ");
    reveal_strlit(">");
    reveal_strlit("html");
    reveal_strlit("<!DOCTYPE html>");
    assert("doctype"@[0] != "br"@[0]);
    let one = seq![Node::Text(t)];
    assert(html_list(one.subrange(0, 0)) == Seq::<char>::empty());
    assert(html_of(one[0]) == t);
    assert(html_list(one) =~= t);
    let h = seq![Node::Text("html"@)];
    assert(html_list(h.subrange(0, 0)) == Seq::<char>::empty());
    assert(html_of(h[0]) == "html"@);
    assert(html_list(h) =~= "html"@);
    assert("<!DOCTYPE "@ + "html"@ + ">"@ =~= "<!DOCTYPE html>"@);
    let n1 = Node::Elem { name: "doctype"@, id, classes, attrs, content: one };
    assert(html_of(n1) == "<!DOCTYPE "@ + html_list(one) + ">"@);
    let n2 = Node::Elem { name: "doctype"@, id, classes, attrs, content: h };
    assert(html_of(n2) == "<!DOCTYPE "@ + html_list(h) + ">"@);
}

/// Any other element renders its name, then its id, classes and attributes,
/// each value verbatim and in the tree's order, then its content, then the
/// closing tag with the same name.
pub proof fn lemma_element_shape(
    name: Seq<char>,
    id: Option<Seq<char>>,
    classes: Option<Seq<Seq<char>>>,
    attrs: Option<Seq<(Seq<char>, Seq<char>)>>,
    items: Seq<Node>,
)
    requires
        name != "br"@,
        name != "doctype"@,
    ensures
        html_of(Node::Elem { name, id, classes, attrs, content: items }) == "<"@ + name + " "@
            + id_part(id) + " "@ + class_part(classes) + " "@ + attrs_part(attrs) + ">"@
            + html_list(items) + "</"@ + name + ">"@,
        id matches Some(v) ==> id_part(id) == "id=\""@ + v + "\""@,
        classes is Some && classes->0.len() > 0 ==> class_part(classes) == "class=\""@ + join(
            classes->0,
            " "@,
        ) + "\""@,
{
    assert(open_tag(name, id, classes, attrs) == "<"@ + name + " "@ + id_part(id) + " "@
        + class_part(classes) + " "@ + attrs_part(attrs) + ">"@);
}

} // verus!
