use vstd::prelude::*;
use vstd::string::*;

use crate::syntax::{attrs_view, lemma_nodes_of, nodes_of, strings_view, Attribute, Node, TextElement};

verus! {

/// The parts joined, with `sep` between each two.
pub open spec fn join(parts: Seq<Seq<char>>, sep: Seq<char>) -> Seq<char>
    decreases parts.len(),
{
    if parts.len() == 0 {
        Seq::empty()
    } else {
        join(parts.subrange(0, parts.len() - 1), sep) + (if parts.len() > 1 {
            sep
        } else {
            Seq::empty()
        }) + parts[parts.len() - 1]
    }
}

pub open spec fn attr_html(a: (Seq<char>, Seq<char>)) -> Seq<char> {
    a.0 + "=\""@ + a.1 + "\""@
}

pub open spec fn id_part(id: Option<Seq<char>>) -> Seq<char> {
    match id {
        Some(i) => "id=\""@ + i + "\""@,
        None => Seq::empty(),
    }
}

pub open spec fn class_part(classes: Option<Seq<Seq<char>>>) -> Seq<char> {
    match classes {
        Some(c) => if c.len() > 0 {
            "class=\""@ + join(c, " "@) + "\""@
        } else {
            Seq::empty()
        },
        None => Seq::empty(),
    }
}

pub open spec fn attrs_part(attrs: Option<Seq<(Seq<char>, Seq<char>)>>) -> Seq<char> {
    match attrs {
        Some(a) => join(a.map_values(|p: (Seq<char>, Seq<char>)| attr_html(p)), " "@),
        None => Seq::empty(),
    }
}

/// The opening tag of an ordinary element.
pub open spec fn open_tag(
    name: Seq<char>,
    id: Option<Seq<char>>,
    classes: Option<Seq<Seq<char>>>,
    attrs: Option<Seq<(Seq<char>, Seq<char>)>>,
) -> Seq<char> {
    "<"@ + name + " "@ + id_part(id) + " "@ + class_part(classes) + " "@ + attrs_part(attrs) + ">"@
}

/// The HTML text of a node.
pub open spec fn html_of(n: Node) -> Seq<char>
    decreases n,
{
    match n {
        Node::Text(t) => t,
        Node::Elem { name, id, classes, attrs, content } => if name == "br"@ {
            "<br>"@
        } else if name == "doctype"@ {
            "<!DOCTYPE "@ + html_list(content) + ">"@
        } else {
            open_tag(name, id, classes, attrs) + html_list(content) + "</"@ + name + ">"@
        },
    }
}

/// The HTML text of a sequence of nodes, concatenated in order.
pub open spec fn html_list(items: Seq<Node>) -> Seq<char>
    decreases items,
{
    if items.len() == 0 {
        Seq::empty()
    } else {
        html_list(items.subrange(0, items.len() - 1)) + html_of(items[items.len() - 1])
    }
}

/// Whether two strings hold the same characters.
fn same_text(a: &str, b: &str) -> (r: bool)
    ensures
        r == (a@ == b@),
{
    let n = a.unicode_len();
    if n != b.unicode_len() {
        return false;
    }
    let mut k: usize = 0;
    while k < n
        invariant
            n == a@.len(),
            n == b@.len(),
            k <= n,
            a@.subrange(0, k as int) == b@.subrange(0, k as int),
        decreases n - k,
    {
        if a.get_char(k) != b.get_char(k) {
            return false;
        }
        assert(a@.subrange(0, k + 1) == a@.subrange(0, k as int).push(a@[k as int]));
        assert(b@.subrange(0, k + 1) == b@.subrange(0, k as int).push(b@[k as int]));
        k = k + 1;
    }
    assert(a@ == a@.subrange(0, n as int));
    assert(b@ == b@.subrange(0, n as int));
    true
}

fn push_joined(out: &mut String, parts: &Vec<String>, sep: &str)
    ensures
        final(out)@ == old(out)@ + join(strings_view(parts@), sep@),
{
    let ghost start = out@;
    let ghost pv = strings_view(parts@);
    let mut k: usize = 0;
    while k < parts.len()
        invariant
            pv == strings_view(parts@),
            k <= parts@.len(),
            out@ == start + join(pv.subrange(0, k as int), sep@),
        decreases parts@.len() - k,
    {
        if k > 0 {
            out.append(sep);
        }
        out.append(parts[k].as_str());
        proof {
            let nx = pv.subrange(0, k + 1);
            assert(nx.subrange(0, k as int) == pv.subrange(0, k as int));
            assert(nx[k as int] == parts@[k as int]@);
        }
        k = k + 1;
    }
    assert(pv.subrange(0, parts@.len() as int) == pv);
}

fn push_attributes(out: &mut String, attrs: &Vec<Attribute>)
    ensures
        final(out)@ == old(out)@ + attrs_part(Some(attrs_view(attrs@))),
{
    let ghost start = out@;
    let ghost pv = attrs_view(attrs@).map_values(|p: (Seq<char>, Seq<char>)| attr_html(p));
    let mut k: usize = 0;
    while k < attrs.len()
        invariant
            pv == attrs_view(attrs@).map_values(|p: (Seq<char>, Seq<char>)| attr_html(p)),
            k <= attrs@.len(),
            out@ == start + join(pv.subrange(0, k as int), " "@),
        decreases attrs@.len() - k,
    {
        if k > 0 {
            out.append(" ");
        }
        let a = &attrs[k];
        out.append(a.0.as_str());
        out.append("=\"");
        out.append(a.1.as_str());
        out.append("\"");
        proof {
            let nx = pv.subrange(0, k + 1);
            assert(nx.subrange(0, k as int) == pv.subrange(0, k as int));
            assert(nx[k as int] == attr_html(attrs@[k as int].pair()));
        }
        k = k + 1;
    }
    assert(pv.subrange(0, attrs@.len() as int) == pv);
}

fn push_content(out: &mut String, content: &Vec<TextElement>)
    ensures
        final(out)@ == old(out)@ + html_list(nodes_of(content@)),
    decreases content, 0nat,
{
    let ghost start = out@;
    let ghost ns = nodes_of(content@);
    proof {
        lemma_nodes_of(content@);
    }
    let mut k: usize = 0;
    while k < content.len()
        invariant
            ns == nodes_of(content@),
            ns.len() == content@.len(),
            forall|j: int| 0 <= j < content@.len() ==> #[trigger] ns[j] == content@[j].node(),
            k <= content@.len(),
            out@ == start + html_list(ns.subrange(0, k as int)),
        decreases content@.len() - k,
    {
        proof {
            assert(decreases_to!(content => content@));
            assert(decreases_to!(content@ => content@[k as int]));
        }
        let piece = to_html(&content[k]);
        out.append(piece.as_str());
        proof {
            let nx = ns.subrange(0, k + 1);
            assert(nx.subrange(0, k as int) == ns.subrange(0, k as int));
            assert(nx[k as int] == content@[k as int].node());
        }
        k = k + 1;
    }
    assert(ns.subrange(0, content@.len() as int) == ns);
}

/// Renders one element, and its children depth first, as HTML text.
pub fn to_html(text_element: &TextElement) -> (r: String)
    ensures
        r@ == html_of(text_element.node()),
    decreases text_element, 1nat,
{
    match text_element {
        TextElement::Plain(s) => s.clone(),
        TextElement::CustomTag { name, id, classes, attributes, content } => {
            let mut out = String::new();
            if same_text(name.as_str(), "br") {
                out.append("<br>");
                return out;
            }
            if same_text(name.as_str(), "doctype") {
                out.append("<!DOCTYPE ");
                push_content(&mut out, content);
                out.append(">");
                return out;
            }
            out.append("<");
            out.append(name.as_str());
            out.append(" ");
            match id {
                Some(i) => {
                    out.append("id=\"");
                    out.append(i.as_str());
                    out.append("\"");
                },
                None => {},
            }
            out.append(" ");
            match classes {
                Some(c) => {
                    if c.len() > 0 {
                        out.append("class=\"");
                        push_joined(&mut out, c, " ");
                        out.append("\"");
                    }
                },
                None => {},
            }
            out.append(" ");
            match attributes {
                Some(a) => push_attributes(&mut out, a),
                None => {},
            }
            out.append(">");
            push_content(&mut out, content);
            out.append("</");
            out.append(name.as_str());
            out.append(">");
            out
        },
    }
}

} // verus!
