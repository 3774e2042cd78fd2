use vstd::prelude::*;

verus! {

/// The kinds of user-interface component that the notation can describe.
#[derive(Debug, Clone, Copy, PartialEq, Eq, Structural)]
pub enum UIComponentType {
    Canvas,
    Panel,
    Layout,
    Button,
    Label,
}

/// A user-interface component: its kind, optional (width, height) and its
/// properties as (key, value) pairs in the order they were given.
#[derive(Debug, Clone)]
pub struct UIComponentNode {
    pub component_type: UIComponentType,
    pub dimensions: Option<(usize, usize)>,
    pub properties: Vec<(String, String)>,
}

/// The view of a list of string pairs.
pub open spec fn pairs_view(p: Seq<(String, String)>) -> Seq<(Seq<char>, Seq<char>)> {
    p.map_values(|e: (String, String)| (e.0@, e.1@))
}

/// Copies a list of string pairs.
pub fn copy_pairs(p: &Vec<(String, String)>) -> (r: Vec<(String, String)>)
    ensures
        pairs_view(r@) == pairs_view(p@),
{
    let mut r: Vec<(String, String)> = Vec::new();
    let mut i: usize = 0;
    while i < p.len()
        invariant
            i <= p.len(),
            r@.len() == i,
            forall|j: int| 0 <= j < i ==> r@[j].0@ == p@[j].0@ && r@[j].1@ == p@[j].1@,
        decreases p.len() - i,
    {
        let k = p[i].0.clone();
        let v = p[i].1.clone();
        r.push((k, v));
        i = i + 1;
    }
    assert(pairs_view(r@) =~= pairs_view(p@));
    r
}

/// An event handler: the event, its source and the handler body.
#[derive(Debug)]
pub struct EventHandlerNode {
    pub event_type: String,
    pub source: String,
    pub handler: Box<crate::ast::ASTNode>,
}

/// A binding from a data source to a target, one-way or both ways.
#[derive(Debug, Clone)]
pub struct DataBindingNode {
    pub target: String,
    pub source: String,
    pub bidirectional: bool,
}

} // verus!
