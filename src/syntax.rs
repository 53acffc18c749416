use vstd::prelude::*;

verus! {

/// A `name="value"` pair of an element; duplicates are kept in order.
#[derive(Debug, Clone)]
pub struct Attribute(pub String, pub String);

/// A node of the document tree.
#[derive(Debug)]
pub enum TextElement {
    /// Character data, already escape-decoded.
    Plain(String),
    /// An element with its selector parts and its children.
    CustomTag {
        name: String,
        content: Vec<TextElement>,
        id: Option<String>,
        classes: Option<Vec<String>>,
        attributes: Option<Vec<Attribute>>,
    },
}

/// The mathematical model of a tree node.
pub enum Node {
    Text(Seq<char>),
    Elem {
        name: Seq<char>,
        id: Option<Seq<char>>,
        classes: Option<Seq<Seq<char>>>,
        attrs: Option<Seq<(Seq<char>, Seq<char>)>>,
        content: Seq<Node>,
    },
}

impl Attribute {
    pub open spec fn pair(&self) -> (Seq<char>, Seq<char>) {
        (self.0@, self.1@)
    }
}

pub open spec fn strings_view(v: Seq<String>) -> Seq<Seq<char>> {
    v.map_values(|s: String| s@)
}

pub open spec fn attrs_view(v: Seq<Attribute>) -> Seq<(Seq<char>, Seq<char>)> {
    v.map_values(|a: Attribute| a.pair())
}

pub open spec fn opt_string_view(o: Option<String>) -> Option<Seq<char>> {
    match o {
        Some(s) => Some(s@),
        None => None,
    }
}

pub open spec fn opt_strings_view(o: Option<Vec<String>>) -> Option<Seq<Seq<char>>> {
    match o {
        Some(v) => Some(strings_view(v@)),
        None => None,
    }
}

pub open spec fn opt_attrs_view(o: Option<Vec<Attribute>>) -> Option<Seq<(Seq<char>, Seq<char>)>> {
    match o {
        Some(v) => Some(attrs_view(v@)),
        None => None,
    }
}

impl TextElement {
    /// The node that this element stands for.
    pub open spec fn node(&self) -> Node
        decreases self,
    {
        match self {
            TextElement::Plain(s) => Node::Text(s@),
            TextElement::CustomTag { name, content, id, classes, attributes } => Node::Elem {
                name: name@,
                id: opt_string_view(*id),
                classes: opt_strings_view(*classes),
                attrs: opt_attrs_view(*attributes),
                content: nodes_of(content@),
            },
        }
    }
}

/// The nodes that a sequence of elements stands for, one for one.
pub open spec fn nodes_of(v: Seq<TextElement>) -> Seq<Node>
    decreases v,
{
    if v.len() == 0 {
        Seq::empty()
    } else {
        nodes_of(v.subrange(0, v.len() - 1)).push(v[v.len() - 1].node())
    }
}

pub proof fn lemma_nodes_of(v: Seq<TextElement>)
    ensures
        nodes_of(v).len() == v.len(),
        forall|k: int| 0 <= k < v.len() ==> #[trigger] nodes_of(v)[k] == v[k].node(),
    decreases v.len(),
{
    if v.len() > 0 {
        lemma_nodes_of(v.subrange(0, v.len() - 1));
    }
}

} // verus!
