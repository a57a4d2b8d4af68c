//! The tree abstraction the decoder walks: an element with a tag name,
//! attributes, and child elements, all held as plain owned values.

use vstd::prelude::*;

verus! {

/// One attribute of an element: a name and a value.
#[derive(Clone, Debug, PartialEq)]
pub struct Attr {
    pub name: String,
    pub value: String,
}

/// One element of the source document: its tag name, its attributes in
/// document order, and its child elements in document order.
#[derive(Debug)]
pub struct XmlNode {
    pub tag: String,
    pub attrs: Vec<Attr>,
    pub children: Vec<XmlNode>,
}

/// The value of the first attribute named `name` in `attrs`, if any.
pub open spec fn attr_lookup(attrs: Seq<Attr>, name: Seq<char>) -> Option<Seq<char>>
    decreases attrs.len(),
{
    if attrs.len() == 0 {
        None
    } else if attrs[0].name@ == name {
        Some(attrs[0].value@)
    } else {
        attr_lookup(attrs.skip(1), name)
    }
}

/// The value of the attribute named `name` on `n`, if any.
pub open spec fn spec_attr(n: XmlNode, name: Seq<char>) -> Option<Seq<char>> {
    attr_lookup(n.attrs@, name)
}

impl XmlNode {
    /// Looks up one attribute by name, returning the first match.
    pub fn attribute(&self, name: &str) -> (r: Option<&String>)
        ensures
            match r {
                Some(v) => spec_attr(*self, name@) == Some(v@),
                None => spec_attr(*self, name@) is None,
            },
    {
        let mut i: usize = 0;
        proof {
            assert(self.attrs@.skip(0) =~= self.attrs@);
        }
        while i < self.attrs.len()
            invariant
                i <= self.attrs@.len(),
                attr_lookup(self.attrs@, name@) == attr_lookup(self.attrs@.skip(i as int), name@),
            decreases self.attrs@.len() - i,
        {
            proof {
                assert(self.attrs@.skip(i as int)[0] == self.attrs@[i as int]);
                assert(self.attrs@.skip(i as int).skip(1) =~= self.attrs@.skip(i as int + 1));
            }
            if str_eq(self.attrs[i].name.as_str(), name) {
                return Some(&self.attrs[i].value);
            }
            i = i + 1;
        }
        proof {
            assert(self.attrs@.skip(i as int) =~= Seq::<Attr>::empty());
        }
        None
    }
}

/// Character-for-character equality of two strings.
pub fn str_eq(a: &str, b: &str) -> (r: bool)
    ensures
        r == (a@ == b@),
{
    let na = a.unicode_len();
    let nb = b.unicode_len();
    if na != nb {
        return false;
    }
    let mut i: usize = 0;
    while i < na
        invariant
            i <= na,
            na == a@.len(),
            na == b@.len(),
            forall|j: int| 0 <= j < i ==> a@[j] == b@[j],
        decreases na - i,
    {
        if a.get_char(i) != b.get_char(i) {
            return false;
        }
        i = i + 1;
    }
    proof {
        assert(a@ =~= b@);
    }
    true
}

} // verus!
