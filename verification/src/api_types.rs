//! The directory's view of a user: an identity record with open-ended
//! attributes, and its mapping to a resolved passwd record.

use vstd::prelude::*;

use crate::config::{Config, ConfigView};
use crate::passwd::{spec_home_directory, Passwd, PasswdView};

verus! {

/// One named attribute of an identity record, carrying a list of string
/// values. The numeric ID travels as such an attribute.
#[derive(Clone, Debug, PartialEq)]
pub struct Attribute {
    pub key: String,
    pub values: Vec<String>,
}

#[verifier::ext_equal]
pub struct AttributeView {
    pub key: Seq<char>,
    pub values: Seq<Seq<char>>,
}

impl View for Attribute {
    type V = AttributeView;

    open spec fn view(&self) -> AttributeView {
        AttributeView { key: self.key@, values: self.values.deep_view() }
    }
}

impl DeepView for Attribute {
    type V = AttributeView;

    open spec fn deep_view(&self) -> AttributeView {
        self.view()
    }
}

/// A field of the wire representation that this library does not interpret,
/// kept verbatim (key and raw encoded value) so that a write-back never
/// drops what it does not understand.
#[derive(Clone, Debug, PartialEq)]
pub struct RawField {
    pub key: String,
    pub value: String,
}

#[verifier::ext_equal]
pub struct RawFieldView {
    pub key: Seq<char>,
    pub value: Seq<char>,
}

impl View for RawField {
    type V = RawFieldView;

    open spec fn view(&self) -> RawFieldView {
        RawFieldView { key: self.key@, value: self.value@ }
    }
}

impl DeepView for RawField {
    type V = RawFieldView;

    open spec fn deep_view(&self) -> RawFieldView {
        self.view()
    }
}

/// A user entry as the remote directory returns it: a stable identifier,
/// names, the open attribute map, and the unrecognized remainder of the
/// wire record.
#[derive(Clone, Debug, PartialEq)]
pub struct UserRepresentation {
    pub id: String,
    pub username: String,
    pub first_name: String,
    pub last_name: String,
    pub attributes: Vec<Attribute>,
    pub rest: Vec<RawField>,
}

#[verifier::ext_equal]
pub struct UserRepresentationView {
    pub id: Seq<char>,
    pub username: Seq<char>,
    pub first_name: Seq<char>,
    pub last_name: Seq<char>,
    pub attributes: Seq<AttributeView>,
    pub rest: Seq<RawFieldView>,
}

impl View for UserRepresentation {
    type V = UserRepresentationView;

    open spec fn view(&self) -> UserRepresentationView {
        UserRepresentationView {
            id: self.id@,
            username: self.username@,
            first_name: self.first_name@,
            last_name: self.last_name@,
            attributes: self.attributes.deep_view(),
            rest: self.rest.deep_view(),
        }
    }
}

impl DeepView for UserRepresentation {
    type V = UserRepresentationView;

    open spec fn deep_view(&self) -> UserRepresentationView {
        self.view()
    }
}

/// Pushing onto a vector pushes the element's view onto the vector's
/// element-wise view.
pub proof fn lemma_push_deep_view<T: DeepView>(before: Vec<T>, after: Vec<T>, x: T)
    requires
        after@ == before@.push(x),
    ensures
        after.deep_view() =~= before.deep_view().push(x.deep_view()),
{
    assert forall|j: int| 0 <= j < after@.len() implies after.deep_view()[j]
        == before.deep_view().push(x.deep_view())[j] by {
        assert(after.deep_view()[j] == after@[j].deep_view());
        if j < before@.len() {
            assert(before.deep_view()[j] == before@[j].deep_view());
        }
    }
}

/// The values under the first attribute with the given key, if any.
pub open spec fn attr_lookup(attrs: Seq<AttributeView>, key: Seq<char>) -> Option<Seq<Seq<char>>>
    decreases attrs.len(),
{
    if attrs.len() == 0 {
        None
    } else if attrs[0].key == key {
        Some(attrs[0].values)
    } else {
        attr_lookup(attrs.drop_first(), key)
    }
}

/// The attribute map with `key` bound to `values`: the first attribute with
/// that key is replaced, or a new one is appended.
pub open spec fn attr_set(
    attrs: Seq<AttributeView>,
    key: Seq<char>,
    values: Seq<Seq<char>>,
) -> Seq<AttributeView>
    decreases attrs.len(),
{
    if attrs.len() == 0 {
        seq![AttributeView { key, values }]
    } else if attrs[0].key == key {
        seq![AttributeView { key, values }] + attrs.drop_first()
    } else {
        seq![attrs[0]] + attr_set(attrs.drop_first(), key, values)
    }
}

/// The passwd record derived from an identity record: the requested numeric
/// ID, the login name, a display name of "given family", the configured
/// group and shell, the derived home path, and the fixed password
/// placeholder.
pub open spec fn spec_to_passwd(u: UserRepresentationView, c: ConfigView, uid: u32) -> PasswdView {
    PasswdView {
        name: u.username,
        passwd: "x"@,
        uid: uid,
        gid: c.group_id,
        gecos: u.first_name + " "@ + u.last_name,
        dir: spec_home_directory(c.home_directory_parent, u.username),
        shell: c.shell,
    }
}

impl UserRepresentation {
    /// The values under the given attribute key, if the record carries it.
    pub fn attribute_values(&self, key: &String) -> (r: Option<&Vec<String>>)
        ensures
            match r {
                Some(v) => attr_lookup(self@.attributes, key@) == Some(v.deep_view()),
                None => attr_lookup(self@.attributes, key@) is None,
            },
    {
        let n = self.attributes.len();
        let mut i: usize = 0;
        proof {
            assert(self@.attributes.skip(0) =~= self@.attributes);
        }
        while i < n
            invariant
                0 <= i <= n == self.attributes.len(),
                attr_lookup(self@.attributes, key@) == attr_lookup(
                    self@.attributes.skip(i as int),
                    key@,
                ),
        decreases n - i,
        {
            proof {
                assert(self@.attributes.skip(i as int).drop_first() =~= self@.attributes.skip(
                    i + 1,
                ));
                assert(self@.attributes.skip(i as int)[0] == self@.attributes[i as int]);
            }
            if self.attributes[i].key == *key {
                return Some(&self.attributes[i].values);
            }
            i = i + 1;
        }
        proof {
            assert(self@.attributes.skip(n as int) =~= Seq::<AttributeView>::empty());
        }
        None
    }

    /// Whether the record carries the given attribute.
    pub fn has_attribute(&self, key: &String) -> (r: bool)
        ensures
            r == (attr_lookup(self@.attributes, key@) is Some),
    {
        self.attribute_values(key).is_some()
    }

    /// An identical record, with a contract (the derived `Clone` carries
    /// none).
    pub fn duplicate(&self) -> (u: UserRepresentation)
        ensures
            u@ =~~= self@,
    {
        let mut attributes: Vec<Attribute> = Vec::new();
        let mut i: usize = 0;
        while i < self.attributes.len()
            invariant
                0 <= i <= self.attributes.len(),
                attributes.deep_view() =~~= self@.attributes.take(i as int),
            decreases self.attributes.len() - i,
        {
            let a = Attribute {
                key: self.attributes[i].key.clone(),
                values: clone_strings(&self.attributes[i].values),
            };
            let ghost ag = a;
            let ghost prev = attributes;
            attributes.push(a);
            proof {
                lemma_push_deep_view(prev, attributes, ag);
                assert(ag.deep_view() =~~= self@.attributes[i as int]);
                assert(attributes.deep_view() =~~= self@.attributes.take(i + 1));
            }
            i = i + 1;
        }
        let mut rest: Vec<RawField> = Vec::new();
        let mut j: usize = 0;
        while j < self.rest.len()
            invariant
                0 <= j <= self.rest.len(),
                rest.deep_view() =~~= self@.rest.take(j as int),
            decreases self.rest.len() - j,
        {
            let f = RawField { key: self.rest[j].key.clone(), value: self.rest[j].value.clone() };
            let ghost fg = f;
            let ghost prev = rest;
            rest.push(f);
            proof {
                lemma_push_deep_view(prev, rest, fg);
                assert(rest.deep_view() =~~= self@.rest.take(j + 1));
            }
            j = j + 1;
        }
        proof {
            assert(self@.attributes.take(self.attributes.len() as int) =~= self@.attributes);
            assert(self@.rest.take(self.rest.len() as int) =~= self@.rest);
        }
        UserRepresentation {
            id: self.id.clone(),
            username: self.username.clone(),
            first_name: self.first_name.clone(),
            last_name: self.last_name.clone(),
            attributes,
            rest,
        }
    }

    /// The position of the first attribute with the given key, if any.
    pub fn attribute_index(&self, key: &String) -> (r: Option<usize>)
        ensures
            match r {
                Some(i) => i < self@.attributes.len() && self@.attributes[i as int].key == key@
                    && (forall|k: int|
                    0 <= k < i ==> #[trigger] self@.attributes[k].key != key@),
                None => forall|k: int|
                    0 <= k < self@.attributes.len() ==> #[trigger] self@.attributes[k].key
                        != key@,
            },
    {
        let n = self.attributes.len();
        let mut i: usize = 0;
        while i < n
            invariant
                0 <= i <= n == self.attributes.len(),
                forall|k: int| 0 <= k < i ==> #[trigger] self@.attributes[k].key != key@,
            decreases n - i,
        {
            if self.attributes[i].key == *key {
                return Some(i);
            }
            i = i + 1;
        }
        None
    }

    /// The record with `key` bound to `values` in its attribute map; every
    /// other field, attribute, and unrecognized wire field stays as it was,
    /// so a write-back built from the result clobbers nothing.
    pub fn with_attribute(&self, key: &String, values: Vec<String>) -> (u: UserRepresentation)
        ensures
            u@ =~~= (UserRepresentationView {
                attributes: attr_set(self@.attributes, key@, values.deep_view()),
                ..self@
            }),
    {
        let ghost target = attr_set(self@.attributes, key@, values.deep_view());
        let ghost fresh = AttributeView { key: key@, values: values.deep_view() };
        let idx = self.attribute_index(key);
        let n = self.attributes.len();
        let mut attrs: Vec<Attribute> = Vec::new();
        match idx {
            Some(i) => {
                proof {
                    lemma_attr_set_at_index(self@.attributes, key@, values.deep_view(), i as int);
                }
                let mut k: usize = 0;
                while k < i
                    invariant
                        0 <= k <= i < n == self.attributes.len(),
                        attrs.deep_view() =~~= self@.attributes.take(k as int),
                    decreases i - k,
                {
                    let a = Attribute {
                        key: self.attributes[k].key.clone(),
                        values: clone_strings(&self.attributes[k].values),
                    };
                    let ghost ag = a;
                    let ghost prev = attrs;
                    attrs.push(a);
                    proof {
                        lemma_push_deep_view(prev, attrs, ag);
                        assert(attrs.deep_view() =~~= self@.attributes.take(k + 1));
                    }
                    k = k + 1;
                }
                let a = Attribute { key: key.clone(), values };
                let ghost ag = a;
                let ghost prev = attrs;
                attrs.push(a);
                proof {
                    lemma_push_deep_view(prev, attrs, ag);
                    assert(ag.deep_view() =~~= fresh);
                    assert(attrs.deep_view() =~~= self@.attributes.take(i as int) + seq![fresh]);
                }
                let mut m: usize = i + 1;
                while m < n
                    invariant
                        i < m <= n == self.attributes.len(),
                        attrs.deep_view() =~~= self@.attributes.take(i as int) + seq![fresh]
                            + self@.attributes.subrange(i + 1, m as int),
                    decreases n - m,
                {
                    let a = Attribute {
                        key: self.attributes[m].key.clone(),
                        values: clone_strings(&self.attributes[m].values),
                    };
                    let ghost ag = a;
                    let ghost prev = attrs;
                    attrs.push(a);
                    proof {
                        lemma_push_deep_view(prev, attrs, ag);
                        assert(attrs.deep_view() =~~= self@.attributes.take(i as int) + seq![fresh]
                            + self@.attributes.subrange(i + 1, m + 1));
                    }
                    m = m + 1;
                }
                proof {
                    assert(attrs.deep_view() =~~= target);
                }
            },
            None => {
                proof {
                    lemma_attr_set_absent(self@.attributes, key@, values.deep_view());
                }
                let mut k: usize = 0;
                while k < n
                    invariant
                        0 <= k <= n == self.attributes.len(),
                        attrs.deep_view() =~~= self@.attributes.take(k as int),
                    decreases n - k,
                {
                    let a = Attribute {
                        key: self.attributes[k].key.clone(),
                        values: clone_strings(&self.attributes[k].values),
                    };
                    let ghost ag = a;
                    let ghost prev = attrs;
                    attrs.push(a);
                    proof {
                        lemma_push_deep_view(prev, attrs, ag);
                        assert(attrs.deep_view() =~~= self@.attributes.take(k + 1));
                    }
                    k = k + 1;
                }
                let a = Attribute { key: key.clone(), values };
                let ghost ag = a;
                let ghost prev = attrs;
                attrs.push(a);
                proof {
                    lemma_push_deep_view(prev, attrs, ag);
                    assert(ag.deep_view() =~~= fresh);
                    assert(self@.attributes.take(n as int) =~= self@.attributes);
                    assert(attrs.deep_view() =~~= target);
                }
            },
        }
        let mut out = self.duplicate();
        out.attributes = attrs;
        out
    }

    /// Maps this identity record to a resolved passwd record under the
    /// given configuration and numeric ID.
    pub fn to_passwd(&self, config: &Config, uid: u32) -> (p: Passwd)
        ensures
            p@ =~= spec_to_passwd(self@, config@, uid),
    {
        let mut gecos = self.first_name.clone();
        gecos.append(" ");
        gecos.append(self.last_name.as_str());
        Passwd {
            name: self.username.clone(),
            passwd: "x".to_owned(),
            uid,
            gid: config.group_id,
            gecos,
            dir: crate::passwd::home_directory(&config.home_directory_parent, &self.username),
            shell: config.shell.clone(),
        }
    }
}

/// Where the key already occurs, `attr_set` replaces its first occurrence
/// in place and touches nothing else.
proof fn lemma_attr_set_at_index(
    attrs: Seq<AttributeView>,
    key: Seq<char>,
    values: Seq<Seq<char>>,
    i: int,
)
    requires
        0 <= i < attrs.len(),
        attrs[i].key == key,
        forall|k: int| 0 <= k < i ==> #[trigger] attrs[k].key != key,
    ensures
        attr_set(attrs, key, values) =~~= attrs.take(i) + seq![AttributeView { key, values }]
            + attrs.subrange(i + 1, attrs.len() as int),
    decreases i,
{
    if i == 0 {
        assert(attrs.drop_first() =~= attrs.subrange(1, attrs.len() as int));
    } else {
        lemma_attr_set_at_index(attrs.drop_first(), key, values, i - 1);
        assert(attrs.drop_first().take(i - 1) =~= attrs.subrange(1, i));
        assert(attrs.drop_first().subrange(i, attrs.drop_first().len() as int) =~= attrs.subrange(
            i + 1,
            attrs.len() as int,
        ));
    }
}

/// Where the key does not occur, `attr_set` appends a new attribute.
proof fn lemma_attr_set_absent(attrs: Seq<AttributeView>, key: Seq<char>, values: Seq<Seq<char>>)
    requires
        forall|k: int| 0 <= k < attrs.len() ==> #[trigger] attrs[k].key != key,
    ensures
        attr_set(attrs, key, values) =~~= attrs + seq![AttributeView { key, values }],
    decreases attrs.len(),
{
    if attrs.len() > 0 {
        lemma_attr_set_absent(attrs.drop_first(), key, values);
    }
}

/// A copy of a vector of strings, with a contract.
pub fn clone_strings(v: &Vec<String>) -> (r: Vec<String>)
    ensures
        r.deep_view() =~= v.deep_view(),
{
    let mut r: Vec<String> = Vec::new();
    let mut i: usize = 0;
    while i < v.len()
        invariant
            0 <= i <= v.len(),
            r.deep_view() =~= v.deep_view().take(i as int),
        decreases v.len() - i,
    {
        let x = v[i].clone();
        let ghost xg = x;
        let ghost prev = r;
        r.push(x);
        proof {
            lemma_push_deep_view(prev, r, xg);
            assert(r.deep_view() =~= v.deep_view().take(i + 1));
        }
        i = i + 1;
    }
    proof {
        assert(v.deep_view().take(v.len() as int) =~= v.deep_view());
    }
    r
}

} // verus!
