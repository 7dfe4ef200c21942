//! The attribute model: a name/value pair and an ordered collection of such
//! pairs with lookup, insertion and replacement by name.
//!
//! A collection is modelled as a sequence of `(name, value)` pairs of
//! character sequences. Lookup returns the first entry whose name matches;
//! `set_attr` replaces the value of the first matching entry or appends a new
//! one, so it keeps at most one entry per name when it is the only mutation
//! path used.

use vstd::prelude::*;
use vstd::utf8::encode_utf8;
use crate::escape::escape_str;
use crate::escape::spec_escape;

verus! {

/// A single HTML attribute. Neither field is validated: the name is not
/// checked against the HTML grammar, and the value may hold any text.
#[derive(Clone, Debug, PartialEq, Eq)]
pub struct Attribute {
    pub name: String,
    pub value: String,
}

impl View for Attribute {
    type V = (Seq<char>, Seq<char>);

    open spec fn view(&self) -> (Seq<char>, Seq<char>) {
        (self.name@, self.value@)
    }
}

/// An ordered collection of attributes. Duplicate names are representable by
/// direct construction; lookup then returns the first match in order.
#[derive(Clone, Debug)]
pub struct AttributeSet(pub Vec<Attribute>);

impl View for AttributeSet {
    type V = Seq<(Seq<char>, Seq<char>)>;

    open spec fn view(&self) -> Seq<(Seq<char>, Seq<char>)> {
        self.0@.map_values(|a: Attribute| a@)
    }
}

/// The index of the first entry named `name`, if any.
pub open spec fn spec_find(attrs: Seq<(Seq<char>, Seq<char>)>, name: Seq<char>) -> Option<int>
    decreases attrs.len(),
{
    if attrs.len() == 0 {
        None
    } else if attrs[0].0 == name {
        Some(0int)
    } else {
        match spec_find(attrs.drop_first(), name) {
            Some(i) => Some(i + 1),
            None => None,
        }
    }
}

/// The first entry named `name`, if any.
pub open spec fn spec_lookup(attrs: Seq<(Seq<char>, Seq<char>)>, name: Seq<char>) -> Option<
    (Seq<char>, Seq<char>),
> {
    match spec_find(attrs, name) {
        Some(i) => Some(attrs[i]),
        None => None,
    }
}

/// The collection after `set`: the first entry named `name` replaced by
/// `(name, value)`, or `(name, value)` appended when no entry matches.
pub open spec fn spec_set(
    attrs: Seq<(Seq<char>, Seq<char>)>,
    name: Seq<char>,
    value: Seq<char>,
) -> Seq<(Seq<char>, Seq<char>)>
    decreases attrs.len(),
{
    if attrs.len() == 0 {
        seq![(name, value)]
    } else if attrs[0].0 == name {
        seq![(name, value)] + attrs.drop_first()
    } else {
        seq![attrs[0]] + spec_set(attrs.drop_first(), name, value)
    }
}

/// One attribute as it appears in rendered HTML: `name="value"` with the
/// value escaped and the name left as it is.
pub open spec fn spec_render_attr(attr: (Seq<char>, Seq<char>)) -> Seq<char> {
    attr.0 + "=\""@ + spec_escape(attr.1) + "\""@
}

/// A whole collection as it appears in rendered HTML: each attribute in
/// order, preceded by a single space.
pub open spec fn spec_render_attrs(attrs: Seq<(Seq<char>, Seq<char>)>) -> Seq<char>
    decreases attrs.len(),
{
    if attrs.len() == 0 {
        Seq::empty()
    } else {
        spec_render_attrs(attrs.drop_last()) + " "@ + spec_render_attr(attrs.last())
    }
}

/// Relies on str's PartialEq: two string slices are equal exactly when their
/// character sequences are.
#[verifier::external_body]
fn str_eq(a: &str, b: &str) -> (r: bool)
    ensures
        r == (a@ == b@),
{
    a == b
}

proof fn lemma_find_first(attrs: Seq<(Seq<char>, Seq<char>)>, name: Seq<char>)
    ensures
        (match spec_find(attrs, name) {
            Some(i) => 0 <= i < attrs.len() && attrs[i].0 == name && (forall|j: int|
                0 <= j < i ==> attrs[j].0 != name),
            None => forall|j: int| 0 <= j < attrs.len() ==> attrs[j].0 != name,
        }),
    decreases attrs.len(),
{
    if attrs.len() == 0 {
    } else if attrs[0].0 == name {
    } else {
        lemma_find_first(attrs.drop_first(), name);
        assert(forall|j: int|
            1 <= j < attrs.len() ==> attrs[j] == attrs.drop_first()[j - 1]);
    }
}

proof fn lemma_find_at(attrs: Seq<(Seq<char>, Seq<char>)>, name: Seq<char>, i: int)
    requires
        0 <= i < attrs.len(),
        attrs[i].0 == name,
        forall|j: int| 0 <= j < i ==> attrs[j].0 != name,
    ensures
        spec_find(attrs, name) == Some(i),
    decreases i,
{
    if attrs[0].0 == name {
    } else {
        lemma_find_at(attrs.drop_first(), name, i - 1);
    }
}

proof fn lemma_set_found(attrs: Seq<(Seq<char>, Seq<char>)>, name: Seq<char>, value: Seq<char>, i: int)
    requires
        spec_find(attrs, name) == Some(i),
    ensures
        spec_set(attrs, name, value) == attrs.update(i, (name, value)),
    decreases attrs.len(),
{
    lemma_find_first(attrs, name);
    if attrs[0].0 == name {
        assert(spec_set(attrs, name, value) =~= attrs.update(0, (name, value)));
    } else {
        lemma_set_found(attrs.drop_first(), name, value, i - 1);
        assert(spec_set(attrs, name, value) =~= attrs.update(i, (name, value)));
    }
}

proof fn lemma_set_absent(attrs: Seq<(Seq<char>, Seq<char>)>, name: Seq<char>, value: Seq<char>)
    requires
        spec_find(attrs, name) is None,
    ensures
        spec_set(attrs, name, value) == attrs.push((name, value)),
    decreases attrs.len(),
{
    if attrs.len() == 0 {
        assert(spec_set(attrs, name, value) =~= attrs.push((name, value)));
    } else {
        lemma_set_absent(attrs.drop_first(), name, value);
        assert(spec_set(attrs, name, value) =~= attrs.push((name, value)));
    }
}

/// Setting a name that is not present appends a new entry: looking the name
/// up afterwards finds exactly `(name, value)`, and the collection grows by
/// one entry.
pub proof fn lemma_set_fresh_name(c: Seq<(Seq<char>, Seq<char>)>, n: Seq<char>, v: Seq<char>)
    requires
        spec_lookup(c, n) is None,
    ensures
        spec_lookup(spec_set(c, n, v), n) == Some((n, v)),
        spec_set(c, n, v).len() == c.len() + 1,
{
    lemma_find_first(c, n);
    lemma_set_absent(c, n, v);
    lemma_find_at(c.push((n, v)), n, c.len() as int);
}

/// Setting a name that is present replaces the value of its first entry in
/// place: looking the name up afterwards finds exactly `(name, value)`, and
/// the collection keeps its length.
pub proof fn lemma_set_existing_name(c: Seq<(Seq<char>, Seq<char>)>, n: Seq<char>, v: Seq<char>)
    requires
        spec_lookup(c, n) is Some,
    ensures
        spec_lookup(spec_set(c, n, v), n) == Some((n, v)),
        spec_set(c, n, v).len() == c.len(),
{
    let i = spec_find(c, n)->Some_0;
    lemma_find_first(c, n);
    lemma_set_found(c, n, v, i);
    lemma_find_at(c.update(i, (n, v)), n, i);
}

impl Attribute {
    /// Constructs an attribute; no validation is performed.
    pub fn new(name: String, value: String) -> (r: Attribute)
        ensures
            r.name == name,
            r.value == value,
    {
        Attribute { name, value }
    }

    /// An empty attribute collection.
    pub fn none() -> (r: AttributeSet)
        ensures
            r@ == Seq::<(Seq<char>, Seq<char>)>::empty(),
    {
        let r = AttributeSet(Vec::new());
        proof {
            assert(r@ =~= Seq::<(Seq<char>, Seq<char>)>::empty());
        }
        r
    }

    /// The number of UTF-8 bytes this attribute contributes to a rendered
    /// tag before escaping: name, value, and the three bytes of `=""`.
    pub fn utf8_len(&self) -> (r: usize)
        requires
            encode_utf8(self.name@).len() + encode_utf8(self.value@).len() + 3 <= usize::MAX,
        ensures
            r == encode_utf8(self.name@).len() + encode_utf8(self.value@).len() + 3,
    {
        self.name.as_str().len() + self.value.as_str().len() + 3
    }

    /// Renders this attribute as `name="value"` with the value escaped.
    pub fn to_html(&self) -> (r: String)
        ensures
            r@ == spec_render_attr(self@),
    {
        let mut out = String::new();
        out.append(self.name.as_str());
        out.append("=\"");
        let escaped = escape_str(self.value.as_str());
        out.append(escaped.as_str());
        out.append("\"");
        proof {
            assert(out@ =~= spec_render_attr(self@));
        }
        out
    }
}

impl AttributeSet {
    fn search_name(&self, name: &str) -> (r: Option<usize>)
        ensures
            (match r {
                Some(i) => spec_find(self@, name@) == Some(i as int),
                None => spec_find(self@, name@) is None,
            }),
    {
        let mut i: usize = 0;
        while i < self.0.len()
            invariant
                i <= self.0.len(),
                forall|j: int| 0 <= j < i ==> self@[j].0 != name@,
            decreases self.0.len() - i,
        {
            if str_eq(self.0[i].name.as_str(), name) {
                proof {
                    lemma_find_at(self@, name@, i as int);
                }
                return Some(i);
            }
            i = i + 1;
        }
        proof {
            lemma_find_first(self@, name@);
            if spec_find(self@, name@) is Some {
                let k = spec_find(self@, name@)->Some_0;
                assert(self@[k].0 != name@);
            }
        }
        None
    }

    /// The first attribute named `name`, or `None` when no entry matches.
    pub fn get_attr(&self, name: &str) -> (r: Option<&Attribute>)
        ensures
            (match r {
                Some(a) => spec_lookup(self@, name@) == Some(a@),
                None => spec_lookup(self@, name@) is None,
            }),
    {
        match self.search_name(name) {
            Some(i) => {
                proof {
                    lemma_find_first(self@, name@);
                }
                Some(&self.0[i])
            },
            None => None,
        }
    }

    /// Mutable access to the first attribute named `name`, or `None` when no
    /// entry matches; the lookup itself changes nothing.
    pub fn get_attr_mut(&mut self, name: &str) -> (r: Option<&mut Attribute>)
        ensures
            (match r {
                Some(a) => ({
                    let i = spec_find(old(self)@, name@)->Some_0;
                    &&& spec_find(old(self)@, name@) is Some
                    &&& *a == old(self).0@[i]
                    &&& final(self).0@ == old(self).0@.update(i, *final(a))
                }),
                None => ({
                    &&& spec_find(old(self)@, name@) is None
                    &&& final(self).0@ == old(self).0@
                }),
            }),
    {
        let found = self.search_name(name);
        match found {
            Some(i) => {
                proof {
                    lemma_find_first(self@, name@);
                }
                Some(&mut self.0[i])
            },
            None => None,
        }
    }

    /// Replaces the value of the first attribute named `name`, or appends a
    /// new `(name, value)` entry when no entry matches.
    pub fn set_attr(&mut self, name: String, value: String)
        ensures
            final(self)@ == spec_set(old(self)@, name@, value@),
    {
        let found = self.search_name(name.as_str());
        match found {
            Some(i) => {
                proof {
                    lemma_find_first(self@, name@);
                    lemma_set_found(self@, name@, value@, i as int);
                }
                self.0.set(i, Attribute { name, value });
                proof {
                    assert(self@ =~= spec_set(old(self)@, name@, value@));
                }
            },
            None => {
                proof {
                    lemma_set_absent(self@, name@, value@);
                }
                self.0.push(Attribute { name, value });
                proof {
                    assert(self@ =~= spec_set(old(self)@, name@, value@));
                }
            },
        }
    }

    /// Renders every attribute in order, each preceded by a single space.
    pub fn to_html(&self) -> (r: String)
        ensures
            r@ == spec_render_attrs(self@),
    {
        let mut out = String::new();
        let mut i: usize = 0;
        proof {
            assert(self@.take(0) =~= Seq::<(Seq<char>, Seq<char>)>::empty());
        }
        while i < self.0.len()
            invariant
                i <= self.0.len(),
                out@ == spec_render_attrs(self@.take(i as int)),
            decreases self.0.len() - i,
        {
            out.append(" ");
            let rendered = self.0[i].to_html();
            out.append(rendered.as_str());
            proof {
                assert(self@.take(i + 1).drop_last() =~= self@.take(i as int));
                assert(self@.take(i + 1).last() == self@[i as int]);
            }
            i = i + 1;
        }
        proof {
            assert(self@.take(self.0.len() as int) =~= self@);
        }
        out
    }
}

} // verus!
