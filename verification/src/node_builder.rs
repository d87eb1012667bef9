//! String helpers for writing node and relation expressions by hand:
//! `a->b`, `Label:name`, `field = $field` and friends.

use vstd::prelude::*;

use crate::text::chars_to_string;
use crate::text::str_to_chars;

verus! {

/// Whether `c` is an ASCII letter or digit; such characters make up the last
/// path segment that [`ToNodeBuilder::filter`] wraps in parentheses.
pub open spec fn is_ascii_alnum(c: char) -> bool {
    (48 <= c as u32 && c as u32 <= 57) || (65 <= c as u32 && c as u32 <= 90) || (97 <= c as u32
        && c as u32 <= 122)
}

/// The length of the longest suffix of ASCII letters and digits.
pub open spec fn alnum_suffix_len(s: Seq<char>) -> int
    decreases s.len(),
{
    if s.len() > 0 && is_ascii_alnum(s.last()) {
        1 + alnum_suffix_len(s.drop_last())
    } else {
        0
    }
}

/// The filtered form of a path: the last alphanumeric segment wrapped in
/// parentheses together with a `WHERE` condition.
pub open spec fn spec_node_filter(path: Seq<char>, condition: Seq<char>) -> Seq<char> {
    let k = path.len() - alnum_suffix_len(path);
    path.take(k) + "("@ + path.skip(k) + " WHERE "@ + condition + ")"@
}

/// Node-expression helpers over any value that renders to a node string.
pub trait ToNodeBuilder {
    /// The text this value stands for in a query.
    spec fn node_view(&self) -> Seq<char>;

    /// Renders the value's node text.
    fn node_str(&self) -> (r: String)
        ensures
            r@ == self.node_view(),
    ;

    /// Draws the start of a relation: `self->relation_or_node`.
    fn with(&self, relation_or_node: &str) -> (r: String)
        ensures
            r@ == self.node_view() + "->"@ + relation_or_node@,
    {
        let out = self.node_str().concat("->").concat(relation_or_node);
        proof {
            assert(out@ =~= self.node_view() + "->"@ + relation_or_node@);
        }
        out
    }

    /// Draws the end of a relation: `self<-node`.
    fn from(&self, node: &str) -> (r: String)
        ensures
            r@ == self.node_view() + "<-"@ + node@,
    {
        let out = self.node_str().concat("<-").concat(node);
        proof {
            assert(out@ =~= self.node_view() + "<-"@ + node@);
        }
        out
    }

    /// Prefixes the given label: `label_name:self`.
    fn as_named_label(&self, label_name: &str) -> (r: String)
        ensures
            r@ == label_name@ + ":"@ + self.node_view(),
    {
        let rendered = self.node_str();
        let out = String::from_str(label_name).concat(":").concat(rendered.as_str());
        proof {
            assert(out@ =~= label_name@ + ":"@ + self.node_view());
        }
        out
    }

    /// Draws `self = value` with a verbatim right side (no quoting).
    fn equals(&self, value: &str) -> (r: String)
        ensures
            r@ == self.node_view() + " = "@ + value@,
    {
        let out = self.node_str().concat(" = ").concat(value);
        proof {
            assert(out@ =~= self.node_view() + " = "@ + value@);
        }
        out
    }

    /// Draws `self = $self`, binding the field to a parameter of its own
    /// name.
    fn equals_parameterized(&self) -> (r: String)
        ensures
            r@ == self.node_view() + " = $"@ + self.node_view(),
    {
        let rendered = self.node_str();
        let out = self.node_str().concat(" = $").concat(rendered.as_str());
        proof {
            assert(out@ =~= self.node_view() + " = $"@ + self.node_view());
        }
        out
    }

    /// Draws `self as alias`.
    fn as_alias(&self, alias: &str) -> (r: String)
        ensures
            r@ == self.node_view() + " as "@ + alias@,
    {
        let out = self.node_str().concat(" as ").concat(alias);
        proof {
            assert(out@ =~= self.node_view() + " as "@ + alias@);
        }
        out
    }

    /// Wraps the last alphanumeric path segment in parentheses with the
    /// given condition: `a->b->(c WHERE condition)`.
    fn filter(&self, condition: &str) -> (r: String)
        ensures
            r@ == spec_node_filter(self.node_view(), condition@),
    {
        let rendered = self.node_str();
        let chars = str_to_chars(rendered.as_str());
        let mut suffix: usize = 0;
        proof {
            assert(chars@.take(chars@.len() as int) =~= chars@);
        }
        loop
            invariant
                suffix <= chars@.len(),
                chars@ == self.node_view(),
                alnum_suffix_len(chars@) == suffix + alnum_suffix_len(
                    chars@.take(chars@.len() - suffix),
                ),
            ensures
                alnum_suffix_len(chars@) == suffix as int,
                suffix <= chars@.len(),
                chars@ == self.node_view(),
            decreases chars.len() - suffix,
        {
            if suffix >= chars.len() {
                proof {
                    let pre = chars@.take(chars@.len() - suffix);
                    assert(pre.len() == 0);
                    assert(alnum_suffix_len(pre) == 0);
                }
                break;
            }
            let c = chars[chars.len() - 1 - suffix];
            let alnum = (48 <= c as u32 && c as u32 <= 57) || (65 <= c as u32 && c as u32 <= 90)
                || (97 <= c as u32 && c as u32 <= 122);
            proof {
                let pre = chars@.take(chars@.len() - suffix);
                assert(pre.last() == chars@[chars@.len() - 1 - suffix]);
                assert(pre.drop_last() =~= chars@.take(chars@.len() - (suffix + 1)));
            }
            if !alnum {
                proof {
                    let pre = chars@.take(chars@.len() - suffix);
                    assert(alnum_suffix_len(pre) == 0);
                }
                break;
            }
            suffix = suffix + 1;
        }
        let split = chars.len() - suffix;
        let mut left: Vec<char> = Vec::new();
        let mut i: usize = 0;
        while i < split
            invariant
                split <= chars@.len(),
                i <= split,
                left@ == chars@.take(split as int).take(i as int),
            decreases split - i,
        {
            left.push(chars[i]);
            proof {
                assert(left@ =~= chars@.take(split as int).take(i as int + 1));
            }
            i = i + 1;
        }
        let mut right: Vec<char> = Vec::new();
        let mut j: usize = split;
        while j < chars.len()
            invariant
                split <= chars@.len(),
                split <= j <= chars@.len(),
                right@ == chars@.skip(split as int).take(j - split),
            decreases chars.len() - j,
        {
            right.push(chars[j]);
            proof {
                assert(right@ =~= chars@.skip(split as int).take(j - split + 1));
            }
            j = j + 1;
        }
        proof {
            assert(chars@.take(split as int).take(split as int) =~= chars@.take(split as int));
            assert(chars@.skip(split as int).take(chars@.len() - split) =~= chars@.skip(
                split as int,
            ));
        }
        let left_str = chars_to_string(&left);
        let right_str = chars_to_string(&right);
        let out = left_str.concat("(").concat(right_str.as_str()).concat(" WHERE ").concat(
            condition,
        ).concat(")");
        proof {
            assert(out@ =~= spec_node_filter(self.node_view(), condition@));
        }
        out
    }
}

impl ToNodeBuilder for str {
    open spec fn node_view(&self) -> Seq<char> {
        self@
    }

    fn node_str(&self) -> (r: String) {
        self.to_owned()
    }
}

/// By-value chaining of relation arrows on an owned string.
pub trait NodeBuilder: Sized {
    /// The accumulated text.
    spec fn nb_view(&self) -> Seq<char>;

    /// Appends `->node`.
    fn with(self, node: &str) -> (r: Self)
        ensures
            r.nb_view() == self.nb_view() + "->"@ + node@,
    ;

    /// Applies `action` when `condition` holds, and returns the string
    /// unchanged otherwise.
    fn if_then<F: Fn(Self) -> Self>(self, condition: bool, action: F) -> (r: Self)
        requires
            condition ==> action.requires((self,)),
        ensures
            !condition ==> r == self,
            condition ==> action.ensures((self,), r),
    ;
}

impl NodeBuilder for String {
    open spec fn nb_view(&self) -> Seq<char> {
        self@
    }

    fn with(self, node: &str) -> (r: Self) {
        let out = self.concat("->").concat(node);
        proof {
            assert(out@ =~= self.nb_view() + "->"@ + node@);
        }
        out
    }

    fn if_then<F: Fn(Self) -> Self>(self, condition: bool, action: F) -> (r: Self) {
        if !condition {
            return self;
        }
        action(self)
    }
}

} // verus!
