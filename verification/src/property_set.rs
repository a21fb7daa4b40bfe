//! The set of properties of a packet: a list of properties in the order of
//! the wire, in a region that states its own length.

use vstd::prelude::*;
use vstd::slice::slice_subrange;

use crate::error::ParseError;
use crate::integers::VARIABLE_INTEGER_MAX;
use crate::integers::lemma_variable_u32_write_then_parse;
use crate::integers::parse_variable_u32;
use crate::integers::spec_parse_variable_u32;
use crate::integers::spec_variable_u32;
use crate::integers::variable_u32_binary_size;
use crate::integers::write_variable_u32;
use crate::properties::Property;
use crate::properties::PropertyValue;
use crate::properties::PropertyView;
use crate::properties::lemma_property_write_then_parse;
use crate::properties::spec_parse_property;
use crate::property_id::PropertyId;
use crate::property_id::PropertyScope;

verus! {

/// The wire forms of the properties `ps`, one after the other.
pub open spec fn spec_properties_body(ps: Seq<PropertyView>) -> Seq<u8>
    decreases ps.len(),
{
    if ps.len() == 0 {
        Seq::empty()
    } else {
        ps[0].wire() + spec_properties_body(ps.drop_first())
    }
}

/// Decoding of the whole of `s` as properties, one after the other.
pub open spec fn spec_parse_property_list(s: Seq<u8>) -> Option<Seq<PropertyView>>
    decreases s.len(),
{
    if s.len() == 0 {
        Some(Seq::empty())
    } else {
        match spec_parse_property(s) {
            Some((p, n)) => if 0 < n <= s.len() {
                match spec_parse_property_list(s.skip(n)) {
                    Some(rest) => Some(seq![p] + rest),
                    None => None,
                }
            } else {
                None
            },
            None => None,
        }
    }
}

/// No identifier occurs twice in `ps`, but for those that may.
pub open spec fn spec_properties_unique(ps: Seq<PropertyView>) -> bool {
    forall|i: int, j: int|
        0 <= i < j < ps.len() && ps[i].id == ps[j].id ==> ps[i].id.spec_repeatable()
}

/// `scope` may carry each property of `ps`.
pub open spec fn spec_properties_allowed(scope: PropertyScope, ps: Seq<PropertyView>) -> bool {
    forall|i: int| 0 <= i < ps.len() ==> (#[trigger] ps[i]).id.spec_allowed_in(scope)
}

/// Each property of `ps` can be encoded.
pub open spec fn spec_properties_each_wf(ps: Seq<PropertyView>) -> bool {
    forall|i: int| 0 <= i < ps.len() ==> (#[trigger] ps[i]).wf()
}

/// `ps` is a set of properties that `scope` can carry on the wire.
pub open spec fn spec_properties_wf(scope: PropertyScope, ps: Seq<PropertyView>) -> bool {
    &&& spec_properties_each_wf(ps)
    &&& spec_properties_unique(ps)
    &&& spec_properties_allowed(scope, ps)
    &&& spec_properties_body(ps).len() <= VARIABLE_INTEGER_MAX
}

/// The wire form of a set of properties: the length of the properties as a
/// variable-length integer, then the properties.
pub open spec fn spec_properties(ps: Seq<PropertyView>) -> Seq<u8> {
    spec_variable_u32(spec_properties_body(ps).len() as u32) + spec_properties_body(ps)
}

/// Decoding of a set of properties of `scope` at the start of `s`.
#[verifier::opaque]
pub open spec fn spec_parse_properties(scope: PropertyScope, s: Seq<u8>) -> Option<
    (Seq<PropertyView>, int),
> {
    match spec_parse_variable_u32(s) {
        Some((len, n)) => if s.len() < n + len {
            None
        } else {
            match spec_parse_property_list(s.subrange(n, n + len)) {
                Some(ps) => if spec_properties_unique(ps) && spec_properties_allowed(scope, ps) {
                    Some((ps, n + len))
                } else {
                    None
                },
                None => None,
            }
        },
        None => None,
    }
}

/// The first value under `id` in `ps`.
pub open spec fn spec_property_value(ps: Seq<PropertyView>, id: PropertyId) -> Option<
    crate::properties::PropertyValueView,
>
    decreases ps.len(),
{
    if ps.len() == 0 {
        None
    } else if ps[0].id == id {
        Some(ps[0].value)
    } else {
        spec_property_value(ps.drop_first(), id)
    }
}

/// The properties of one list after those of another encode to the one
/// encoding after the other.
pub proof fn lemma_properties_body_concat(a: Seq<PropertyView>, b: Seq<PropertyView>)
    ensures
        spec_properties_body(a + b) == spec_properties_body(a) + spec_properties_body(b),
    decreases a.len(),
{
    if a.len() == 0 {
        assert(a + b =~= b);
        assert(spec_properties_body(a) + spec_properties_body(b) =~= spec_properties_body(b));
    } else {
        assert((a + b).drop_first() =~= a.drop_first() + b);
        lemma_properties_body_concat(a.drop_first(), b);
        assert(spec_properties_body(a + b) =~= spec_properties_body(a) + spec_properties_body(b));
    }
}

/// One more property at the end adds its wire form at the end.
pub proof fn lemma_properties_body_push(ps: Seq<PropertyView>, p: PropertyView)
    ensures
        spec_properties_body(ps.push(p)) == spec_properties_body(ps) + p.wire(),
{
    let one = seq![p];
    assert(ps.push(p) =~= ps + one);
    lemma_properties_body_concat(ps, one);
    assert(one.drop_first() =~= Seq::<PropertyView>::empty());
    assert(spec_properties_body(one) =~= p.wire()) by {
        reveal_with_fuel(spec_properties_body, 2);
    }
}

/// The encoding of a list of properties decodes to that list.
pub proof fn lemma_property_list_write_then_parse(ps: Seq<PropertyView>)
    requires
        spec_properties_each_wf(ps),
    ensures
        spec_parse_property_list(spec_properties_body(ps)) == Some(ps),
    decreases ps.len(),
{
    let s = spec_properties_body(ps);
    if ps.len() == 0 {
        assert(ps =~= Seq::<PropertyView>::empty());
    } else {
        let rest = ps.drop_first();
        assert(ps[0].wf());
        assert(spec_properties_each_wf(rest)) by {
            assert forall|i: int| 0 <= i < rest.len() implies (#[trigger] rest[i]).wf() by {
                assert(rest[i] == ps[i + 1]);
            }
        }
        lemma_property_write_then_parse(ps[0], spec_properties_body(rest));
        lemma_property_list_write_then_parse(rest);
        assert(s.skip(ps[0].wire().len() as int) =~= spec_properties_body(rest));
        assert(seq![ps[0]] + rest =~= ps);
    }
}

/// The wire form of a set of properties, followed by anything, decodes to the set.
pub proof fn lemma_properties_write_then_parse(
    scope: PropertyScope,
    ps: Seq<PropertyView>,
    rest: Seq<u8>,
)
    requires
        spec_properties_wf(scope, ps),
    ensures
        spec_parse_properties(scope, spec_properties(ps) + rest) == Some(
            (ps, spec_properties(ps).len() as int),
        ),
{
    reveal(spec_parse_properties);
    let body = spec_properties_body(ps);
    let s = spec_properties(ps) + rest;
    let head = spec_variable_u32(body.len() as u32);
    assert(s =~= head + (body + rest));
    lemma_variable_u32_write_then_parse(body.len() as u32, body + rest);
    assert(s.subrange(head.len() as int, (head.len() + body.len()) as int) =~= body);
    lemma_property_list_write_then_parse(ps);
}

/// The properties of a packet, or of a will, in the order of the wire.
/// The view is the sequence of the properties' views.
#[derive(Debug, Clone, PartialEq, Eq)]
pub struct Properties {
    pub entries: Vec<Property>,
}

impl View for Properties {
    type V = Seq<PropertyView>;

    open spec fn view(&self) -> Seq<PropertyView> {
        self.entries@.map_values(|p: Property| p@)
    }
}

/// What decoding the rest gives, put after the properties decoded so far.
pub open spec fn spec_after(done: Seq<PropertyView>, rest: Option<Seq<PropertyView>>) -> Option<
    Seq<PropertyView>,
> {
    match rest {
        Some(t) => Some(done + t),
        None => None,
    }
}

impl Properties {
    /// No properties.
    pub fn new() -> (r: Properties)
        ensures
            r@ == Seq::<PropertyView>::empty(),
            forall|scope: PropertyScope| spec_properties_wf(scope, r@),
    {
        let r = Properties { entries: Vec::new() };
        assert(r@ =~= Seq::<PropertyView>::empty());
        r
    }

    /// Puts `property` after the properties held so far.
    pub fn push(&mut self, property: Property)
        ensures
            final(self)@ == old(self)@.push(property@),
    {
        self.entries.push(property);
        assert(self@ =~= old(self)@.push(property@));
    }

    /// Reads the whole of `region` as properties, one after the other.
    fn parse_list(region: &[u8]) -> (r: Result<Properties, ParseError>)
        ensures
            match r {
                Ok(ps) => {
                    &&& spec_parse_property_list(region@) == Some(ps@)
                    &&& spec_properties_each_wf(ps@)
                    &&& spec_properties_body(ps@).len() == region@.len()
                },
                Err(e) => spec_parse_property_list(region@) is None && e == ParseError::Malformed,
            },
    {
        let mut entries: Vec<Property> = Vec::new();
        let mut pos: usize = 0;
        assert(region@.skip(0) =~= region@);
        assert(entries@.map_values(|p: Property| p@) =~= Seq::<PropertyView>::empty());
        assert(forall|t: Seq<PropertyView>| Seq::<PropertyView>::empty() + t =~= t);
        while pos < region.len()
            invariant
                0 <= pos <= region@.len(),
                spec_properties_each_wf(entries@.map_values(|p: Property| p@)),
                spec_properties_body(entries@.map_values(|p: Property| p@)).len() == pos,
                spec_parse_property_list(region@) == spec_after(
                    entries@.map_values(|p: Property| p@),
                    spec_parse_property_list(region@.skip(pos as int)),
                ),
            decreases region@.len() - pos,
        {
            let ghost done = entries@.map_values(|p: Property| p@);
            let ghost tail = region@.skip(pos as int);
            let (p, n) = match Property::parse(slice_subrange(region, pos, region.len())) {
                Ok(x) => x,
                Err(_) => {
                    return Err(ParseError::Malformed);
                },
            };
            proof {
                assert(tail.skip(n as int) =~= region@.skip(pos + n));
                lemma_properties_body_push(done, p@);
                assert(entries@.push(p).map_values(|p: Property| p@) =~= done.push(p@));
                assert forall|t: Seq<PropertyView>| done + (seq![p@] + t) =~= done.push(p@) + t by {}
            }
            entries.push(p);
            pos = pos + n;
        }
        let r = Properties { entries };
        assert(region@.skip(pos as int).len() == 0);
        assert(r@ + Seq::<PropertyView>::empty() =~= r@);
        Ok(r)
    }

    /// Tells whether no identifier occurs twice, but for those that may.
    fn unique(&self) -> (r: bool)
        ensures
            r == spec_properties_unique(self@),
    {
        let mut j: usize = 0;
        while j < self.entries.len()
            invariant
                0 <= j <= self.entries@.len(),
                forall|a: int, b: int|
                    0 <= a < b < j && self@[a].id == self@[b].id ==> self@[a].id.spec_repeatable(),
            decreases self.entries@.len() - j,
        {
            if !self.entries[j].id.repeatable() {
                let mut i: usize = 0;
                while i < j
                    invariant
                        0 <= i <= j < self.entries@.len(),
                        !self@[j as int].id.spec_repeatable(),
                        forall|a: int| 0 <= a < i ==> self@[a].id != self@[j as int].id,
                    decreases j - i,
                {
                    if self.entries[i].id == self.entries[j].id {
                        assert(self@[i as int].id == self@[j as int].id);
                        return false;
                    }
                    i = i + 1;
                }
            }
            j = j + 1;
        }
        true
    }

    /// Tells whether `scope` may carry each of the properties.
    fn allowed_in(&self, scope: PropertyScope) -> (r: bool)
        ensures
            r == spec_properties_allowed(scope, self@),
    {
        let mut i: usize = 0;
        while i < self.entries.len()
            invariant
                0 <= i <= self.entries@.len(),
                forall|a: int| 0 <= a < i ==> (#[trigger] self@[a]).id.spec_allowed_in(scope),
            decreases self.entries@.len() - i,
        {
            if !self.entries[i].id.allowed_in(scope) {
                assert(!self@[i as int].id.spec_allowed_in(scope));
                return false;
            }
            i = i + 1;
        }
        true
    }

    /// Reads a set of properties of `scope` from the start of `input`.
    ///
    /// Fails where the length or a property is cut short or malformed,
    /// where an identifier that may not repeat occurs twice, and where
    /// `scope` may not carry one of the properties.
    pub fn parse(scope: PropertyScope, input: &[u8]) -> (r: Result<(Properties, usize), ParseError>)
        ensures
            match r {
                Ok((ps, n)) => {
                    &&& spec_parse_properties(scope, input@) == Some((ps@, n as int))
                    &&& spec_properties_wf(scope, ps@)
                    &&& n == spec_properties(ps@).len()
                    &&& 1 <= n <= input@.len()
                },
                Err(e) => spec_parse_properties(scope, input@) is None && e
                    == ParseError::Malformed,
            },
    {
        proof {
            reveal(spec_parse_properties);
        }
        let (len, n) = match parse_variable_u32(input) {
            Ok(x) => x,
            Err(_) => {
                return Err(ParseError::Malformed);
            },
        };
        let end: usize = n + len as usize;
        if input.len() < end {
            return Err(ParseError::Malformed);
        }
        let ps = Properties::parse_list(slice_subrange(input, n, end))?;
        if !ps.unique() || !ps.allowed_in(scope) {
            return Err(ParseError::Malformed);
        }
        proof {
            crate::integers::lemma_variable_u32_parse_then_write(input@);
        }
        Ok((ps, end))
    }

    /// The number of bytes of the properties, without their length in
    /// front; nothing where something is wrong with one of the properties
    /// or they are more bytes than a variable-length integer can state.
    fn body_size(&self) -> (r: Option<u32>)
        ensures
            match r {
                Some(n) => spec_properties_each_wf(self@) && n == spec_properties_body(self@).len()
                    && n <= VARIABLE_INTEGER_MAX,
                None => !spec_properties_each_wf(self@) || spec_properties_body(self@).len()
                    > VARIABLE_INTEGER_MAX,
            },
    {
        let mut total: u32 = 0;
        let mut i: usize = 0;
        assert(self@.take(0) =~= Seq::<PropertyView>::empty());
        while i < self.entries.len()
            invariant
                0 <= i <= self.entries@.len(),
                spec_properties_each_wf(self@.take(i as int)),
                total == spec_properties_body(self@.take(i as int)).len(),
                total <= VARIABLE_INTEGER_MAX,
            decreases self.entries@.len() - i,
        {
            if !self.entries[i].is_valid() {
                assert(!self@[i as int].wf());
                return None;
            }
            let size = self.entries[i].binary_size();
            proof {
                assert(self@.take(i + 1) =~= self@.take(i as int).push(self@[i as int]));
                lemma_properties_body_push(self@.take(i as int), self@[i as int]);
                assert(self@ =~= self@.take(i + 1) + self@.skip(i + 1));
                lemma_properties_body_concat(self@.take(i + 1), self@.skip(i + 1));
            }
            if size > VARIABLE_INTEGER_MAX - total {
                return None;
            }
            total = total + size;
            i = i + 1;
        }
        assert(self@.take(i as int) =~= self@);
        Some(total)
    }

    /// Tells whether the properties form a set that `scope` can carry on the wire.
    pub fn is_valid(&self, scope: PropertyScope) -> (r: bool)
        ensures
            r == spec_properties_wf(scope, self@),
    {
        self.body_size().is_some() && self.unique() && self.allowed_in(scope)
    }

    /// The number of bytes of the wire form of the properties, their
    /// length in front included.
    pub fn binary_size(&self, scope: PropertyScope) -> (n: u32)
        requires
            spec_properties_wf(scope, self@),
        ensures
            n == spec_properties(self@).len(),
            1 <= n <= VARIABLE_INTEGER_MAX + 4,
    {
        match self.body_size() {
            Some(body) => variable_u32_binary_size(body) + body,
            None => 1,
        }
    }

    /// Appends the wire form of the properties to `buffer`.
    pub fn write(&self, scope: PropertyScope, buffer: &mut Vec<u8>)
        requires
            spec_properties_wf(scope, self@),
        ensures
            final(buffer)@ == old(buffer)@ + spec_properties(self@),
    {
        let body = match self.body_size() {
            Some(body) => body,
            None => 0,
        };
        write_variable_u32(buffer, body);
        let ghost start = buffer@;
        let mut i: usize = 0;
        assert(self@.take(0) =~= Seq::<PropertyView>::empty());
        assert(buffer@ =~= start + spec_properties_body(self@.take(0)));
        while i < self.entries.len()
            invariant
                0 <= i <= self.entries@.len(),
                spec_properties_each_wf(self@),
                buffer@ == start + spec_properties_body(self@.take(i as int)),
            decreases self.entries@.len() - i,
        {
            assert(self@[i as int].wf());
            self.entries[i].write(buffer);
            proof {
                assert(self@.take(i + 1) =~= self@.take(i as int).push(self@[i as int]));
                lemma_properties_body_push(self@.take(i as int), self@[i as int]);
                assert(buffer@ =~= start + spec_properties_body(self@.take(i + 1)));
            }
            i = i + 1;
        }
        assert(self@.take(i as int) =~= self@);
        assert(buffer@ =~= old(buffer)@ + spec_properties(self@));
    }

    /// A copy of the properties.
    pub fn duplicate(&self) -> (r: Properties)
        ensures
            r@ == self@,
    {
        let mut entries: Vec<Property> = Vec::new();
        let mut i: usize = 0;
        while i < self.entries.len()
            invariant
                0 <= i <= self.entries@.len(),
                entries@.len() == i,
                forall|a: int| 0 <= a < i ==> entries@[a]@ == self.entries@[a]@,
            decreases self.entries@.len() - i,
        {
            entries.push(self.entries[i].duplicate());
            i = i + 1;
        }
        let r = Properties { entries };
        assert(r@ =~= self@);
        r
    }

    /// The first value under `id`, if there is one.
    pub fn get(&self, id: PropertyId) -> (r: Option<&PropertyValue>)
        ensures
            match r {
                Some(v) => spec_property_value(self@, id) == Some(v@),
                None => spec_property_value(self@, id) is None,
            },
    {
        let mut i: usize = 0;
        assert(self@.skip(0) =~= self@);
        while i < self.entries.len()
            invariant
                0 <= i <= self.entries@.len(),
                spec_property_value(self@, id) == spec_property_value(self@.skip(i as int), id),
            decreases self.entries@.len() - i,
        {
            assert(self@.skip(i as int).drop_first() =~= self@.skip(i + 1));
            if self.entries[i].id == id {
                return Some(&self.entries[i].value);
            }
            i = i + 1;
        }
        None
    }
}

} // verus!
