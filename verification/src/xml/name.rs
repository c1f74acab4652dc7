//! Qualified names and attributes shared by every reader and writer backend.
use vstd::prelude::*;
use vstd::std_specs::cmp::PartialEqSpecImpl;
use crate::text::IntoXmlString;

verus! {

/// The characters of an optional owned string.
pub open spec fn opt_view(s: Option<String>) -> Option<Seq<char>> {
    match s {
        Some(t) => Some(t@),
        None => None,
    }
}

/// Parser-neutral owned XML name.
#[derive(Debug, Hash)]
pub struct XmlName {
    pub local_name: String,
    pub namespace: Option<String>,
    pub prefix: Option<String>,
}

/// What an `XmlName` denotes: its three components as character sequences.
pub struct XmlNameView {
    pub local_name: Seq<char>,
    pub namespace: Option<Seq<char>>,
    pub prefix: Option<Seq<char>>,
}

impl View for XmlName {
    type V = XmlNameView;

    open spec fn view(&self) -> XmlNameView {
        XmlNameView {
            local_name: self.local_name@,
            namespace: opt_view(self.namespace),
            prefix: opt_view(self.prefix),
        }
    }
}

/// Copies an optional string, keeping its characters.
pub fn clone_opt_string(s: &Option<String>) -> (r: Option<String>)
    ensures
        opt_view(r) == opt_view(*s),
{
    match s {
        Some(t) => Some(t.clone()),
        None => None,
    }
}

/// Whether two optional strings hold the same characters.
pub fn opt_string_eq(a: &Option<String>, b: &Option<String>) -> (r: bool)
    ensures
        r == (opt_view(*a) == opt_view(*b)),
{
    match (a, b) {
        (Some(x), Some(y)) => x.eq(y),
        (None, None) => true,
        _ => false,
    }
}

impl Clone for XmlName {
    fn clone(&self) -> (r: Self)
        ensures
            r@ == self@,
    {
        XmlName {
            local_name: self.local_name.clone(),
            namespace: clone_opt_string(&self.namespace),
            prefix: clone_opt_string(&self.prefix),
        }
    }
}

impl PartialEq for XmlName {
    fn eq(&self, other: &Self) -> (r: bool) {
        self.local_name == other.local_name && opt_string_eq(&self.namespace, &other.namespace)
            && opt_string_eq(&self.prefix, &other.prefix)
    }
}

impl PartialEqSpecImpl for XmlName {
    open spec fn obeys_eq_spec() -> bool {
        true
    }

    open spec fn eq_spec(&self, other: &Self) -> bool {
        self@ == other@
    }
}

impl Eq for XmlName {}

/// The text of a name as XML writes it: `prefix:local`, or the local name
/// alone when it has no prefix.
pub open spec fn display_text(n: XmlNameView) -> Seq<char> {
    match n.prefix {
        Some(p) => p + ":"@ + n.local_name,
        None => n.local_name,
    }
}

impl XmlName {
    /// A name with no namespace and no prefix.
    pub fn local<S: IntoXmlString>(local_name: S) -> (name: Self)
        ensures
            name@ == (XmlNameView { local_name: local_name.text_view(), namespace: None, prefix: None }),
    {
        XmlName { local_name: local_name.into_xml_string(), namespace: None, prefix: None }
    }

    /// A name bound to `namespace`, with an optional prefix.
    pub fn qualified<S1: IntoXmlString, S2: IntoXmlString, S3: IntoXmlString>(
        local_name: S1,
        namespace: S2,
        prefix: Option<S3>,
    ) -> (name: Self)
        ensures
            name@ == (XmlNameView {
                local_name: local_name.text_view(),
                namespace: Some(namespace.text_view()),
                prefix: match prefix {
                    Some(p) => Some(p.text_view()),
                    None => None,
                },
            }),
    {
        let prefix = match prefix {
            Some(p) => Some(p.into_xml_string()),
            None => None,
        };
        XmlName {
            local_name: local_name.into_xml_string(),
            namespace: Some(namespace.into_xml_string()),
            prefix,
        }
    }

    /// The name as XML writes it: `prefix:local`, or the local name alone.
    pub fn to_string(&self) -> (s: String)
        ensures
            s@ == display_text(self@),
    {
        match &self.prefix {
            Some(prefix) => {
                let mut s = prefix.clone();
                s.append(":");
                s.append(self.local_name.as_str());
                s
            },
            None => self.local_name.clone(),
        }
    }

    pub fn prefix_ref(&self) -> (r: Option<&str>)
        ensures
            match r {
                Some(p) => self.prefix matches Some(q) && p@ == q@,
                None => self.prefix is None,
            },
    {
        match &self.prefix {
            Some(p) => Some(p.as_str()),
            None => None,
        }
    }

    pub fn namespace_ref(&self) -> (r: Option<&str>)
        ensures
            match r {
                Some(n) => self.namespace matches Some(m) && n@ == m@,
                None => self.namespace is None,
            },
    {
        match &self.namespace {
            Some(n) => Some(n.as_str()),
            None => None,
        }
    }
}

} // verus!

verus! {

/// Parser-neutral owned XML attribute.
#[derive(Debug, Hash)]
pub struct XmlAttribute {
    pub name: XmlName,
    pub value: String,
}

/// An attribute's name and the characters of its value.
pub struct XmlAttributeView {
    pub name: XmlNameView,
    pub value: Seq<char>,
}

impl View for XmlAttribute {
    type V = XmlAttributeView;

    open spec fn view(&self) -> XmlAttributeView {
        XmlAttributeView { name: self.name@, value: self.value@ }
    }
}

impl Clone for XmlAttribute {
    fn clone(&self) -> (r: Self)
        ensures
            r@ == self@,
    {
        XmlAttribute { name: self.name.clone(), value: self.value.clone() }
    }
}

impl PartialEq for XmlAttribute {
    fn eq(&self, other: &Self) -> (r: bool) {
        self.name == other.name && self.value == other.value
    }
}

impl PartialEqSpecImpl for XmlAttribute {
    open spec fn obeys_eq_spec() -> bool {
        true
    }

    open spec fn eq_spec(&self, other: &Self) -> bool {
        self@ == other@
    }
}

impl Eq for XmlAttribute {}

impl XmlAttribute {
    pub fn new<S: IntoXmlString>(name: XmlName, value: S) -> (a: Self)
        ensures
            a@ == (XmlAttributeView { name: name@, value: value.text_view() }),
    {
        XmlAttribute { name, value: value.into_xml_string() }
    }
}

/// The views of a sequence of attributes.
pub open spec fn attributes_view(attrs: Seq<XmlAttribute>) -> Seq<XmlAttributeView> {
    attrs.map_values(|a: XmlAttribute| a@)
}

/// Copies a list of attributes, keeping every name and value.
pub fn clone_attributes(attrs: &Vec<XmlAttribute>) -> (r: Vec<XmlAttribute>)
    ensures
        attributes_view(r@) == attributes_view(attrs@),
{
    let mut r: Vec<XmlAttribute> = Vec::new();
    let mut i: usize = 0;
    while i < attrs.len()
        invariant
            i <= attrs.len(),
            r@.len() == i,
            forall|j: int| 0 <= j < i ==> #[trigger] r@[j]@ == attrs@[j]@,
        decreases attrs.len() - i,
    {
        r.push(attrs[i].clone());
        i += 1;
    }
    assert(attributes_view(r@) =~= attributes_view(attrs@));
    r
}

} // verus!
