//! The document tree: elements with attributes, and text.
use vstd::prelude::*;
use vstd::string::*;

use crate::dom::css::SimpleSelector;

verus! {

/// Attributes of an element, as (name, value) pairs; a name that occurs
/// twice takes its first value.
pub type AttrMap = Vec<(String, String)>;

#[derive(Debug)]
pub struct Node {
    pub children: Vec<Node>,
    pub node_type: NodeType,
}

#[derive(Debug)]
pub enum NodeType {
    Element(ElementData),
    Text(String),
}

#[derive(Debug)]
pub struct ElementData {
    pub tag_name: String,
    pub attributes: AttrMap,
}

/// The value of the first attribute named `name`.
pub open spec fn attr_value(attrs: Seq<(String, String)>, name: Seq<char>) -> Option<Seq<char>>
    decreases attrs.len(),
{
    if attrs.len() == 0 {
        None
    } else if attrs[0].0@ == name {
        Some(attrs[0].1@)
    } else {
        attr_value(attrs.subrange(1, attrs.len() as int), name)
    }
}

/// `s` cut at each space.
pub open spec fn split_spaces(s: Seq<char>) -> Seq<Seq<char>>
    decreases s.len(),
{
    if s.len() == 0 {
        seq![Seq::empty()]
    } else if s.last() == ' ' {
        split_spaces(s.drop_last()).push(Seq::empty())
    } else {
        let f = split_spaces(s.drop_last());
        f.update(f.len() - 1, f.last().push(s.last()))
    }
}

/// The classes an element belongs to: the pieces of its `class` attribute.
pub open spec fn class_set(e: ElementData) -> Set<Seq<char>> {
    match attr_value(e.attributes@, "class"@) {
        Some(v) => split_spaces(v).to_set(),
        None => Set::empty(),
    }
}

proof fn lemma_split_nonempty(s: Seq<char>)
    ensures
        split_spaces(s).len() >= 1,
    decreases s.len(),
{
    if s.len() > 0 {
        lemma_split_nonempty(s.drop_last());
    }
}

/// A text node.
pub fn text(data: String) -> (r: Node)
    ensures
        r.children@.len() == 0,
        r.node_type matches NodeType::Text(t) && t@ == data@,
{
    Node { children: Vec::new(), node_type: NodeType::Text(data) }
}

/// An element node.
pub fn elem(name: String, attrs: AttrMap, children: Vec<Node>) -> (r: Node)
    ensures
        r.children@ == children@,
        r.node_type matches NodeType::Element(e) && e.tag_name@ == name@ && e.attributes@
            == attrs@,
{
    Node {
        children: children,
        node_type: NodeType::Element(ElementData { tag_name: name, attributes: attrs }),
    }
}

impl ElementData {
    fn attr(&self, name: &str) -> (r: Option<&String>)
        ensures
            r matches Some(v) ==> attr_value(self.attributes@, name@) == Some(v@),
            r is None ==> attr_value(self.attributes@, name@) is None,
    {
        let key = String::from_str(name);
        let mut i: usize = 0;
        assert(self.attributes@.subrange(0, self.attributes@.len() as int) =~= self.attributes@);
        while i < self.attributes.len()
            invariant
                key@ == name@,
                i <= self.attributes@.len(),
                attr_value(self.attributes@, name@) == attr_value(
                    self.attributes@.subrange(i as int, self.attributes@.len() as int),
                    name@,
                ),
            decreases self.attributes@.len() - i,
        {
            let ghost rest = self.attributes@.subrange(i as int, self.attributes@.len() as int);
            if self.attributes[i].0 == key {
                return Some(&self.attributes[i].1);
            }
            proof {
                assert(rest.subrange(1, rest.len() as int) =~= self.attributes@.subrange(
                    i + 1,
                    self.attributes@.len() as int,
                ));
            }
            i = i + 1;
        }
        None
    }

    /// The element's `id` attribute.
    pub fn id(&self) -> (r: Option<&String>)
        ensures
            r matches Some(v) ==> attr_value(self.attributes@, "id"@) == Some(v@),
            r is None ==> attr_value(self.attributes@, "id"@) is None,
    {
        self.attr("id")
    }

    /// The pieces of the element's `class` attribute, in order.
    pub fn classes(&self) -> (r: Vec<String>)
        ensures
            r@.map_values(|c: String| c@).to_set() == class_set(*self),
    {
        match self.attr("class") {
            None => {
                assert(Seq::<String>::empty().map_values(|c: String| c@).to_set() =~= Set::<
                    Seq<char>,
                >::empty());
                Vec::new()
            },
            Some(list) => {
                let r = split_on_spaces(list.as_str());
                r
            },
        }
    }
}

/// `s` cut at each space.
fn split_on_spaces(s: &str) -> (r: Vec<String>)
    ensures
        r@.map_values(|c: String| c@) == split_spaces(s@),
{
    let n = s.unicode_len();
    let mut out: Vec<String> = Vec::new();
    let mut start: usize = 0;
    let mut i: usize = 0;
    proof {
        assert(s@.take(0) =~= Seq::<char>::empty());
        assert(s@.subrange(0, 0) =~= Seq::<char>::empty());
        assert(out@.map_values(|c: String| c@).push(s@.subrange(0, 0)) =~= seq![
            Seq::<char>::empty(),
        ]);
    }
    while i < n
        invariant
            n == s@.len(),
            start <= i <= n,
            split_spaces(s@.take(i as int)) == out@.map_values(|c: String| c@).push(
                s@.subrange(start as int, i as int),
            ),
        decreases n - i,
    {
        proof {
            assert(s@.take(i + 1).drop_last() =~= s@.take(i as int));
            lemma_split_nonempty(s@.take(i as int));
        }
        if s.get_char(i) == ' ' {
            let piece = s.substring_char(start, i);
            let ghost before = out@;
            out.push(String::from_str(piece));
            proof {
                assert(out@.map_values(|c: String| c@) =~= before.map_values(|c: String| c@).push(
                    s@.subrange(start as int, i as int),
                ));
                assert(s@.subrange(i + 1, i + 1) =~= Seq::<char>::empty());
            }
            start = i + 1;
        } else {
            proof {
                assert(s@.subrange(start as int, i + 1) =~= s@.subrange(start as int, i as int).push(
                    s@[i as int],
                ));
            }
        }
        i = i + 1;
    }
    let piece = s.substring_char(start, n);
    let ghost before = out@;
    out.push(String::from_str(piece));
    proof {
        assert(s@.take(n as int) =~= s@);
        assert(out@.map_values(|c: String| c@) =~= before.map_values(|c: String| c@).push(
            s@.subrange(start as int, n as int),
        ));
    }
    out
}

/// Whether `e` fits `sel`: same tag name and id where the selector names
/// them, and every class of the selector among the element's.
pub open spec fn simple_matches(e: ElementData, sel: SimpleSelector) -> bool {
    &&& (match sel.tag_name {
        Some(t) => e.tag_name@ == t@,
        None => true,
    })
    &&& (match sel.id {
        Some(i) => attr_value(e.attributes@, "id"@) == Some(i@),
        None => true,
    })
    &&& forall|k: int| 0 <= k < sel.class@.len() ==> class_set(e).contains(#[trigger] sel.class@[k]@)
}

fn contains_string(v: &Vec<String>, s: &String) -> (r: bool)
    ensures
        r == v@.map_values(|c: String| c@).contains(s@),
{
    let mut i: usize = 0;
    while i < v.len()
        invariant
            i <= v@.len(),
            forall|j: int| 0 <= j < i ==> v@[j]@ != s@,
        decreases v@.len() - i,
    {
        if v[i] == *s {
            proof {
                assert(v@.map_values(|c: String| c@)[i as int] == s@);
            }
            return true;
        }
        i = i + 1;
    }
    proof {
        if v@.map_values(|c: String| c@).contains(s@) {
            let m = v@.map_values(|c: String| c@);
            let j = choose|j: int| 0 <= j < m.len() && #[trigger] m[j] == s@;
            assert(v@[j]@ == s@);
        }
    }
    false
}

/// Whether `elem` fits the simple selector `selector`.
pub fn matches_simple_selector(elem: &ElementData, selector: &SimpleSelector) -> (r: bool)
    ensures
        r == simple_matches(*elem, *selector),
{
    match &selector.tag_name {
        Some(name) => {
            if !elem.tag_name.eq(name) {
                return false;
            }
        },
        None => {},
    }
    match &selector.id {
        Some(id) => match elem.id() {
            Some(own) => {
                if !own.eq(id) {
                    return false;
                }
            },
            None => {
                return false;
            },
        },
        None => {},
    }
    let elem_classes = elem.classes();
    let mut k: usize = 0;
    while k < selector.class.len()
        invariant
            k <= selector.class@.len(),
            elem_classes@.map_values(|c: String| c@).to_set() == class_set(*elem),
            forall|j: int| 0 <= j < k ==> class_set(*elem).contains(#[trigger] selector.class@[j]@),
        decreases selector.class@.len() - k,
    {
        let found = contains_string(&elem_classes, &selector.class[k]);
        if !found {
            proof {
                assert(!class_set(*elem).contains(selector.class@[k as int]@));
            }
            return false;
        }
        k = k + 1;
    }
    true
}

} // verus!
