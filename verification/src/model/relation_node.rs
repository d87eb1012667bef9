//! A relation edge pointing at a node, rendered as `->relation->node`.

use vstd::prelude::*;

verus! {

/// A named relation together with the node it points at.
pub struct RelationNode<T> {
    pub relation_name: String,
    pub node: T,
}

impl<T> RelationNode<T> {
    pub fn new(relation_name: &str, node: T) -> (r: Self)
        ensures
            r.relation_name@ == relation_name@,
            r.node == node,
    {
        RelationNode { relation_name: relation_name.to_owned(), node }
    }
}

impl RelationNode<String> {
    /// Renders `->relation->node`.
    pub fn to_string(&self) -> (r: String)
        ensures
            r@ == "->"@ + self.relation_name@ + "->"@ + self.node@,
    {
        let out = String::from_str("->").concat(self.relation_name.as_str()).concat(
            "->",
        ).concat(self.node.as_str());
        proof {
            assert(out@ =~= "->"@ + self.relation_name@ + "->"@ + self.node@);
        }
        out
    }
}

} // verus!
