//! User properties: the names and values that an application attaches to
//! a packet. They are the one kind of property that keeps its order and
//! may repeat.

use vstd::hash_map::StringHashMap;
use vstd::prelude::*;
use vstd::utf8::decode_utf8;
use vstd::utf8::encode_utf8;

use crate::properties::Property;
use crate::properties::PropertyValue;
use crate::properties::PropertyValueView;
use crate::properties::PropertyView;
use crate::property_id::PropertyId;
use crate::property_set::Properties;
use crate::strings::MqttString;

verus! {

/// A user property: a name and a value.
#[derive(Debug, Clone, PartialEq, Eq)]
pub struct UserProperty {
    pub key: MqttString,
    pub value: MqttString,
}

/// The user properties among `ps`, each as the bytes of its name and of
/// its value, in the order of `ps`.
pub open spec fn spec_user_properties(ps: Seq<PropertyView>) -> Seq<(Seq<u8>, Seq<u8>)>
    decreases ps.len(),
{
    if ps.len() == 0 {
        Seq::empty()
    } else {
        let before = spec_user_properties(ps.drop_last());
        match ps.last().value {
            PropertyValueView::Utf8StringPair(key, value) => if ps.last().id
                == PropertyId::UserProperty {
                before.push((key, value))
            } else {
                before
            },
            _ => before,
        }
    }
}

/// The place of the first property under `id` in `ps`.
pub open spec fn spec_index_of(ps: Seq<PropertyView>, id: PropertyId) -> Option<int>
    decreases ps.len(),
{
    if ps.len() == 0 {
        None
    } else {
        match spec_index_of(ps.drop_last(), id) {
            Some(i) => Some(i),
            None => if ps.last().id == id {
                Some(ps.len() - 1)
            } else {
                None
            },
        }
    }
}

/// The properties `ps` with `p` set: a property that may repeat is put at
/// the end; another one takes the place of the first property under its
/// identifier, and is put at the end where there is none.
pub open spec fn spec_set(ps: Seq<PropertyView>, p: PropertyView) -> Seq<PropertyView> {
    if p.id.spec_repeatable() {
        ps.push(p)
    } else {
        match spec_index_of(ps, p.id) {
            Some(i) => ps.update(i, p),
            None => ps.push(p),
        }
    }
}

/// The texts of names and values as a map: under each name stands the
/// value of the last pair with that name.
pub open spec fn spec_text_map(pairs: Seq<(Seq<u8>, Seq<u8>)>) -> Map<Seq<char>, Seq<char>>
    decreases pairs.len(),
{
    if pairs.len() == 0 {
        Map::empty()
    } else {
        spec_text_map(pairs.drop_last()).insert(
            decode_utf8(pairs.last().0),
            decode_utf8(pairs.last().1),
        )
    }
}

/// The first `i` properties hold none under `id`, and the next one is under `id`:
/// it is the first one under `id`.
proof fn lemma_index_of_found(ps: Seq<PropertyView>, id: PropertyId, i: int)
    requires
        0 <= i < ps.len(),
        ps[i].id == id,
        forall|j: int| 0 <= j < i ==> ps[j].id != id,
    ensures
        spec_index_of(ps, id) == Some(i),
    decreases ps.len(),
{
    if i < ps.len() - 1 {
        lemma_index_of_found(ps.drop_last(), id, i);
    } else {
        lemma_index_of_none(ps.drop_last(), id);
    }
}

/// Properties of which none is under `id` have no first one under `id`.
proof fn lemma_index_of_none(ps: Seq<PropertyView>, id: PropertyId)
    requires
        forall|j: int| 0 <= j < ps.len() ==> ps[j].id != id,
    ensures
        spec_index_of(ps, id) is None,
    decreases ps.len(),
{
    if ps.len() > 0 {
        lemma_index_of_none(ps.drop_last(), id);
    }
}

impl Properties {
    /// Puts a user property after the properties held so far.
    pub fn with_user_properties(&mut self, key_value: UserProperty) -> (r: &mut Properties)
        ensures
            r@ == old(self)@.push(
                PropertyView {
                    id: PropertyId::UserProperty,
                    value: PropertyValueView::Utf8StringPair(key_value.key@, key_value.value@),
                },
            ),
            final(self)@ == final(r)@,
    {
        self.push(
            Property {
                id: PropertyId::UserProperty,
                value: PropertyValue::Utf8StringPair(key_value.key, key_value.value),
            },
        );
        self
    }

    /// Sets the property under `id` to `value`. A property that may
    /// repeat is put at the end; another one takes the place of the first
    /// property under `id`, and is put at the end where there is none.
    pub fn set(&mut self, id: PropertyId, value: PropertyValue) -> (r: &mut Properties)
        ensures
            r@ == spec_set(old(self)@, PropertyView { id, value: value@ }),
            final(self)@ == final(r)@,
    {
        let ghost wanted = PropertyView { id, value: value@ };
        let property = Property { id, value };
        assert(property@ == wanted);
        if id.repeatable() {
            self.push(property);
            return self;
        }
        let mut i: usize = 0;
        while i < self.entries.len()
            invariant
                0 <= i <= self.entries@.len(),
                self.entries@ == old(self).entries@,
                property@ == wanted,
                wanted == (PropertyView { id, value: value@ }),
                !id.spec_repeatable(),
                forall|j: int| 0 <= j < i ==> self@[j].id != id,
            decreases self.entries@.len() - i,
        {
            if self.entries[i].id == id {
                proof {
                    lemma_index_of_found(self@, id, i as int);
                }
                self.entries[i] = property;
                proof {
                    assert(self@ =~= old(self)@.update(i as int, wanted));
                    assert(spec_index_of(old(self)@, id) == Some(i as int));
                    assert(self@ == spec_set(old(self)@, wanted));
                }
                return self;
            }
            i = i + 1;
        }
        proof {
            lemma_index_of_none(self@, id);
        }
        self.push(property);
        self
    }

    /// The user properties among the properties.
    pub fn user_properties(&self) -> (r: UserPropertiesView<'_>)
        ensures
            r@ == spec_user_properties(self@),
    {
        UserPropertiesView::from(self)
    }
}

/// A look at the user properties among the properties of a packet. The
/// view is the sequence of the user properties, each as the bytes of its
/// name and of its value.
pub struct UserPropertiesView<'a> {
    properties: &'a Properties,
}

impl<'a> View for UserPropertiesView<'a> {
    type V = Seq<(Seq<u8>, Seq<u8>)>;

    closed spec fn view(&self) -> Seq<(Seq<u8>, Seq<u8>)> {
        spec_user_properties(self.properties@)
    }
}

impl<'a> UserPropertiesView<'a> {
    /// The look at the user properties among `props`.
    pub fn from(props: &'a Properties) -> (r: UserPropertiesView<'a>)
        ensures
            r@ == spec_user_properties(props@),
    {
        UserPropertiesView { properties: props }
    }

    /// The user properties as text, each a name and a value, in their order.
    pub fn iter(&self) -> (r: Vec<(&str, &str)>)
        ensures
            r@.len() == self@.len(),
            forall|i: int|
                0 <= i < r@.len() ==> encode_utf8((#[trigger] r@[i]).0@) == self@[i].0
                    && encode_utf8(r@[i].1@) == self@[i].1,
    {
        let ghost ps = self.properties@;
        let mut pairs: Vec<(&str, &str)> = Vec::new();
        let mut i: usize = 0;
        assert(ps.take(0) =~= Seq::<PropertyView>::empty());
        while i < self.properties.entries.len()
            invariant
                ps == self.properties@,
                0 <= i <= self.properties.entries@.len(),
                pairs@.len() == spec_user_properties(ps.take(i as int)).len(),
                forall|j: int|
                    0 <= j < pairs@.len() ==> encode_utf8((#[trigger] pairs@[j]).0@)
                        == spec_user_properties(ps.take(i as int))[j].0 && encode_utf8(
                        pairs@[j].1@,
                    ) == spec_user_properties(ps.take(i as int))[j].1,
            decreases self.properties.entries@.len() - i,
        {
            proof {
                assert(ps.take(i + 1).drop_last() =~= ps.take(i as int));
                assert(ps.take(i + 1).last() == ps[i as int]);
            }
            match &self.properties.entries[i] {
                Property { id: PropertyId::UserProperty, value: PropertyValue::Utf8StringPair(k, v) } => {
                    pairs.push((k.as_str(), v.as_str()));
                },
                _ => {},
            }
            i = i + 1;
        }
        assert(ps.take(i as int) =~= ps);
        pairs
    }

    /// The names of the user properties as text, in their order.
    pub fn keys(&self) -> (r: Vec<&str>)
        ensures
            r@.len() == self@.len(),
            forall|i: int| 0 <= i < r@.len() ==> encode_utf8((#[trigger] r@[i])@) == self@[i].0,
    {
        let pairs = self.iter();
        let mut keys: Vec<&str> = Vec::new();
        let mut i: usize = 0;
        while i < pairs.len()
            invariant
                0 <= i <= pairs@.len(),
                keys@.len() == i,
                forall|j: int| 0 <= j < i ==> (#[trigger] keys@[j])@ == pairs@[j].0@,
            decreases pairs@.len() - i,
        {
            keys.push(pairs[i].0);
            i = i + 1;
        }
        keys
    }

    /// The values of the user properties as text, in their order.
    pub fn values(&self) -> (r: Vec<&str>)
        ensures
            r@.len() == self@.len(),
            forall|i: int| 0 <= i < r@.len() ==> encode_utf8((#[trigger] r@[i])@) == self@[i].1,
    {
        let pairs = self.iter();
        let mut values: Vec<&str> = Vec::new();
        let mut i: usize = 0;
        while i < pairs.len()
            invariant
                0 <= i <= pairs@.len(),
                values@.len() == i,
                forall|j: int| 0 <= j < i ==> (#[trigger] values@[j])@ == pairs@[j].1@,
            decreases pairs@.len() - i,
        {
            values.push(pairs[i].1);
            i = i + 1;
        }
        values
    }

    /// The user properties as a map from the text of each name to the
    /// text of its value. Where a name occurs more than once, its last
    /// value stands.
    pub fn to_hashmap(&self) -> (r: StringHashMap<String>)
        ensures
            r@.dom() == spec_text_map(self@).dom(),
            forall|k: Seq<char>| #[trigger]
                r@.contains_key(k) ==> r@[k]@ == spec_text_map(self@)[k],
    {
        let pairs = self.iter();
        let ghost all = self@;
        let mut map: StringHashMap<String> = StringHashMap::new();
        let mut i: usize = 0;
        assert(all.take(0) =~= Seq::<(Seq<u8>, Seq<u8>)>::empty());
        while i < pairs.len()
            invariant
                0 <= i <= pairs@.len(),
                pairs@.len() == all.len(),
                forall|j: int|
                    0 <= j < pairs@.len() ==> encode_utf8((#[trigger] pairs@[j]).0@) == all[j].0
                        && encode_utf8(pairs@[j].1@) == all[j].1,
                map@.dom() == spec_text_map(all.take(i as int)).dom(),
                forall|k: Seq<char>| #[trigger]
                    map@.contains_key(k) ==> map@[k]@ == spec_text_map(all.take(i as int))[k],
            decreases pairs@.len() - i,
        {
            let key = pairs[i].0;
            let value = pairs[i].1;
            proof {
                assert(all.take(i + 1).drop_last() =~= all.take(i as int));
                assert(all.take(i + 1).last() == all[i as int]);
                vstd::utf8::encode_utf8_decode_utf8(key@);
                vstd::utf8::encode_utf8_decode_utf8(value@);
            }
            map.insert(key.to_owned(), value.to_owned());
            proof {
                assert(map@.dom() =~= spec_text_map(all.take(i + 1)).dom());
            }
            i = i + 1;
        }
        assert(all.take(i as int) =~= all);
        map
    }
}

} // verus!
