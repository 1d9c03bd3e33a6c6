use crate::identifier::{ident_span_mapped, Identifier};
use crate::names::{
    duplicate_error, first_duplicate_from, first_index_of, lemma_duplicate_error_distinct,
    lemma_first_index_of, lemma_first_index_of_spec, lemma_push_distinct, names_distinct,
};
use crate::spans::Span;
use vstd::prelude::*;

verus! {

/// The keys of a list of attributes, in order.
pub open spec fn attribute_keys<S: Span>(attributes: Seq<Attribute<S>>) -> Seq<Seq<char>> {
    attributes.map_values(|a: Attribute<S>| a.key.name@)
}

/// The attributes after adding `a` to `attributes` (see [`Attributes::add`]): unchanged if its
/// key is taken, else `a` appended.
pub open spec fn add_step<S: Span>(attributes: Seq<Attribute<S>>, a: Attribute<S>) -> Seq<Attribute<S>> {
    if first_index_of(attribute_keys(attributes), a.key.name@) is Some {
        attributes
    } else {
        attributes.push(a)
    }
}

/// The attributes after adding each of `items` in turn to an empty collection.
pub open spec fn after_adds<S: Span>(items: Seq<Attribute<S>>) -> Seq<Attribute<S>>
    decreases items.len(),
{
    if items.len() == 0 {
        Seq::empty()
    } else {
        add_step(after_adds(items.drop_last()), items.last())
    }
}

/// The number of the additions of `items` in turn, to an empty collection, that succeed.
pub open spec fn accepted_adds<S: Span>(items: Seq<Attribute<S>>) -> nat
    decreases items.len(),
{
    if items.len() == 0 {
        0
    } else {
        accepted_adds(items.drop_last()) + if first_index_of(
            attribute_keys(after_adds(items.drop_last())),
            items.last().key.name@,
        ) is Some {
            0nat
        } else {
            1nat
        }
    }
}

/// After a series of additions to an empty collection, it holds exactly as many attributes as
/// additions succeeded, each once: no two share a key, and looking up the key of each finds
/// that very attribute.
pub proof fn law_attributes_after_adds<S: Span>(items: Seq<Attribute<S>>)
    ensures
        after_adds(items).len() == accepted_adds(items),
        names_distinct(attribute_keys(after_adds(items))),
        forall|k: int|
            0 <= k < after_adds(items).len() ==> first_index_of(
                attribute_keys(after_adds(items)),
                (#[trigger] after_adds(items)[k]).key.name@,
            ) == Some(k),
    decreases items.len(),
{
    if items.len() > 0 {
        let prev = after_adds(items.drop_last());
        let a = items.last();
        law_attributes_after_adds(items.drop_last());
        lemma_first_index_of_spec(attribute_keys(prev), a.key.name@);
        if first_index_of(attribute_keys(prev), a.key.name@) is None {
            assert(attribute_keys(prev.push(a)) =~= attribute_keys(prev).push(a.key.name@));
            lemma_push_distinct(attribute_keys(prev), a.key.name@);
        }
        let cur = after_adds(items);
        assert forall|k: int| 0 <= k < cur.len() implies first_index_of(
            attribute_keys(cur),
            (#[trigger] cur[k]).key.name@,
        ) == Some(k) by {
            assert(attribute_keys(cur)[k] == cur[k].key.name@);
            assert forall|j: int| 0 <= j < k implies attribute_keys(cur)[j] != cur[k].key.name@ by {
                assert(attribute_keys(cur)[j] == cur[j].key.name@);
            }
            lemma_first_index_of(attribute_keys(cur), cur[k].key.name@, k);
        }
    }
}

/// A collection of attributes with distinct keys. Its view is the list of attributes, in the
/// order in which they were added.
#[derive(Debug, PartialEq)]
pub struct Attributes<S: Span> {
    attributes: Vec<Attribute<S>>,
}

impl<S: Span> View for Attributes<S> {
    type V = Seq<Attribute<S>>;

    closed spec fn view(&self) -> Seq<Attribute<S>> {
        self.attributes@
    }
}

impl<S: Span> Attributes<S> {
    /// No two attributes have the same key. Every function of this type that builds or changes a
    /// collection keeps this.
    pub open spec fn well_formed(&self) -> bool {
        names_distinct(attribute_keys(self@))
    }

    /// Constructs an empty collection of attributes.
    pub fn new() -> (r: Self)
        ensures
            r@.len() == 0,
            r.well_formed(),
    {
        Attributes { attributes: Vec::new() }
    }

    /// Constructs a collection from a list of attributes, adding them in order.
    ///
    /// Fails at the first attribute whose key is already taken, describing that attribute and
    /// the earlier one with the same key.
    pub fn with_attributes(attributes: Vec<Attribute<S>>) -> (r: Result<Self, AttributeExists<S>>)
        ensures
            r is Ok <==> names_distinct(attribute_keys(attributes@)),
            r matches Ok(a) ==> a@ == attributes@ && a.well_formed(),
            r matches Err(e) ==> {
                let keys = attribute_keys(attributes@);
                let k = first_duplicate_from(keys, 0)->0;
                let existing = attributes@[duplicate_error(keys)->0 as int];
                &&& e.existing_name == existing.key
                &&& e.existing_span == existing.span
                &&& e.new_name == attributes@[k].key
                &&& e.new_span == attributes@[k].span
            },
    {
        let ghost keys = attribute_keys(attributes@);
        let mut res = Self::new();
        let mut rest = attributes;
        let ghost orig = rest@;
        assert(orig.skip(0) =~= orig);
        proof {
            lemma_duplicate_error_distinct(keys, 0);
        }
        while rest.len() > 0
            invariant
                keys == attribute_keys(orig),
                keys == attribute_keys(attributes@),
                orig == attributes@,
                res@.len() <= orig.len(),
                res@ == orig.take(res@.len() as int),
                rest@ == orig.skip(res@.len() as int),
                first_duplicate_from(keys, 0) == first_duplicate_from(keys, res@.len() as int),
                names_distinct(keys.take(res@.len() as int)),
                first_duplicate_from(keys, 0) is None <==> names_distinct(keys),
            decreases rest.len(),
        {
            let ghost k = res@.len() as int;
            let x = rest.remove(0);
            proof {
                assert(orig.skip(k).drop_first() =~= orig.skip(k + 1));
                assert(attribute_keys(res@) =~= keys.take(k));
                assert(x == orig[k]);
                lemma_first_index_of_spec(keys.take(k), keys[k]);
            }
            match res.add(x) {
                Ok(_) => {
                    proof {
                        assert(res@ =~= orig.take(k + 1));
                        assert(keys.take(k + 1) =~= keys.take(k).push(keys[k]));
                        lemma_push_distinct(keys.take(k), keys[k]);
                    }
                },
                Err(e) => {
                    proof {
                        assert(first_duplicate_from(keys, k) == Some(k));
                        let i = first_index_of(keys.take(k), keys[k])->0;
                        assert(orig.take(k)[i] == orig[i]);
                    }
                    return Err(e);
                },
            }
        }
        proof {
            assert(orig.take(orig.len() as int) =~= orig);
            lemma_duplicate_error_distinct(keys, orig.len() as int);
        }
        Ok(res)
    }

    /// The index of the attribute with the given key, if there is one.
    fn index_of(&self, key: &str) -> (r: Option<usize>)
        ensures
            r == match first_index_of(attribute_keys(self@), key@) {
                Some(i) => Some(i as usize),
                None => None::<usize>,
            },
    {
        let ghost keys = attribute_keys(self@);
        let mut index: usize = 0;
        while index < self.attributes.len()
            invariant
                keys == attribute_keys(self@),
                index <= self@.len(),
                forall|j: int| 0 <= j < index ==> keys[j] != key@,
            decreases self.attributes.len() - index,
        {
            if crate::identifier::str_equal(self.attributes[index].key.name.as_str(), key) {
                proof {
                    lemma_first_index_of(keys, key@, index as int);
                }
                return Some(index);
            }
            index = index + 1;
        }
        proof {
            lemma_first_index_of(keys, key@, index as int);
        }
        None
    }

    /// Adds an attribute.
    ///
    /// If an attribute with the same key exists, returns [`AttributeExists`] describing both
    /// and leaves the collection unchanged; otherwise appends the attribute.
    pub fn add(&mut self, attribute: Attribute<S>) -> (r: Result<(), AttributeExists<S>>)
        ensures
            match first_index_of(attribute_keys(old(self)@), attribute.key.name@) {
                Some(i) => r matches Err(e) && e.existing_name == old(self)@[i].key && e.existing_span
                    == old(self)@[i].span && e.new_name == attribute.key && e.new_span == attribute.span
                    && final(self)@ == old(self)@,
                None => r is Ok && final(self)@ == old(self)@.push(attribute),
            },
            final(self)@ == add_step(old(self)@, attribute),
            old(self).well_formed() ==> final(self).well_formed(),
    {
        proof {
            lemma_first_index_of_spec(attribute_keys(self@), attribute.key.name@);
        }
        match self.index_of(attribute.key.name.as_str()) {
            Some(index) => {
                proof {
                    assert(attribute_keys(self@).len() == self@.len());
                    assert(self.attributes@.len() == self.attributes.len());
                    let i = first_index_of(attribute_keys(self@), attribute.key.name@)->0;
                    assert(index as int == i);
                }
                let existing = &self.attributes[index];
                Err(
                    AttributeExists {
                        existing_name: existing.key.duplicate(),
                        new_name: attribute.key.duplicate(),
                        existing_span: existing.span.duplicate(),
                        new_span: attribute.span,
                    },
                )
            },
            None => {
                proof {
                    if self.well_formed() {
                        lemma_push_distinct(attribute_keys(self@), attribute.key.name@);
                    }
                    assert(attribute_keys(self@.push(attribute)) =~= attribute_keys(self@).push(
                        attribute.key.name@,
                    ));
                }
                self.attributes.push(attribute);
                Ok(())
            },
        }
    }

    /// Returns the attribute with the given key, or `None`.
    pub fn get(&self, key: &str) -> (r: Option<&Attribute<S>>)
        ensures
            r == match first_index_of(attribute_keys(self@), key@) {
                Some(i) => Some(&self@[i]),
                None => None::<&Attribute<S>>,
            },
    {
        proof {
            lemma_first_index_of_spec(attribute_keys(self@), key@);
        }
        match self.index_of(key) {
            Some(index) => {
                proof {
                    assert(attribute_keys(self@).len() == self@.len());
                    assert(self.attributes@.len() == self.attributes.len());
                    let i = first_index_of(attribute_keys(self@), key@)->0;
                    assert(index as int == i);
                }
                Some(&self.attributes[index])
            },
            None => None,
        }
    }

    /// Returns the value of the attribute with the given key, or `None` if there is no such
    /// attribute or it is a flag.
    pub fn value(&self, key: &str) -> (r: Option<&AttributeValue<S>>)
        ensures
            r == match first_index_of(attribute_keys(self@), key@) {
                Some(i) => match self@[i].value {
                    Some(v) => Some(&v),
                    None => None::<&AttributeValue<S>>,
                },
                None => None::<&AttributeValue<S>>,
            },
    {
        match self.get(key) {
            Some(attribute) => match &attribute.value {
                Some(v) => Some(v),
                None => None,
            },
            None => None,
        }
    }

    /// Returns the value of the attribute with the given key for modification, or `None` if
    /// there is no such attribute or it is a flag.
    pub fn value_mut(&mut self, key: &str) -> (r: Option<&mut AttributeValue<S>>)
        ensures
            match first_index_of(attribute_keys(old(self)@), key@) {
                Some(i) => match old(self)@[i].value {
                    Some(v) => r matches Some(x) && *x == v && final(self)@ == old(self)@.update(
                        i,
                        Attribute { value: Some(*final(x)), ..old(self)@[i] },
                    ),
                    None => r is None && final(self)@ == old(self)@,
                },
                None => r is None && final(self)@ == old(self)@,
            },
            old(self).well_formed() ==> final(self).well_formed(),
    {
        proof {
            lemma_first_index_of_spec(attribute_keys(self@), key@);
        }
        match self.index_of(key) {
            Some(index) => {
                proof {
                    assert(attribute_keys(self@).len() == self@.len());
                    assert(self.attributes@.len() == self.attributes.len());
                    let i = index as int;
                    assert forall|a: Attribute<S>| a.key == self@[i].key implies attribute_keys(self@.update(i, a))
                        =~= attribute_keys(self@) by {}
                }
                match &mut self.attributes[index].value {
                    Some(v) => Some(v),
                    None => None,
                }
            },
            None => None,
        }
    }

    /// Whether the attribute with the given key exists and is a flag (has no value).
    pub fn is_flag_set(&self, key: &str) -> (r: bool)
        ensures
            r == match first_index_of(attribute_keys(self@), key@) {
                Some(i) => self@[i].value is None,
                None => false,
            },
    {
        match self.get(key) {
            Some(attribute) => attribute.value.is_none(),
            None => false,
        }
    }

    /// The attributes, in the order in which they were added.
    pub fn iter(&self) -> (r: &[Attribute<S>])
        ensures
            r@ == self@,
    {
        self.attributes.as_slice()
    }
}

/// `b` is `a` with every span mapped by `f`.
pub open spec fn attribute_span_mapped<S: Span, S2: Span, F: Fn(S) -> S2>(
    a: Attribute<S>,
    b: Attribute<S2>,
    f: F,
) -> bool {
    &&& ident_span_mapped(a.key, b.key, f)
    &&& call_ensures(f, (a.span,), b.span)
    &&& (a.value is None <==> b.value is None)
    &&& (a.value matches Some(v) ==> b.value->0.value == v.value && call_ensures(
        f,
        (v.span,),
        b.value->0.span,
    ))
}

impl<S: Span> Attributes<S> {
    /// Maps every span of every attribute with `map`.
    pub fn map_span<S2: Span, F: Fn(S) -> S2>(self, map: &F) -> (r: Attributes<S2>)
        requires
            forall|s: S| #[trigger] call_requires(*map, (s,)),
        ensures
            r@.len() == self@.len(),
            forall|i: int| 0 <= i < self@.len() ==> #[trigger] attribute_span_mapped(self@[i], r@[i], *map),
            self.well_formed() ==> r.well_formed(),
    {
        let ghost keys = attribute_keys(self@);
        let mut out: Vec<Attribute<S2>> = Vec::new();
        let mut rest = self.attributes;
        let ghost orig = rest@;
        assert(orig.skip(0) =~= orig);
        while rest.len() > 0
            invariant
                forall|s: S| #[trigger] call_requires(*map, (s,)),
                out@.len() <= orig.len(),
                rest@ == orig.skip(out@.len() as int),
                forall|j: int| 0 <= j < out@.len() ==> #[trigger] attribute_span_mapped(orig[j], out@[j], *map),
            decreases rest.len(),
        {
            let ghost k = out@.len() as int;
            proof {
                assert(orig.skip(k).drop_first() =~= orig.skip(k + 1));
            }
            let x = rest.remove(0);
            out.push(x.map_span(map));
        }
        proof {
            assert(attribute_keys(out@) =~= attribute_keys(orig)) by {
                assert forall|j: int| 0 <= j < out@.len() implies attribute_keys(out@)[j] == attribute_keys(orig)[j] by {
                    assert(attribute_span_mapped(orig[j], out@[j], *map));
                }
            }
        }
        Attributes { attributes: out }
    }
}

/// Error produced when adding an attribute whose key is already taken.
#[derive(Debug, PartialEq)]
pub struct AttributeExists<S: Span> {
    /// The key of the existing attribute.
    pub existing_name: Identifier<S>,
    /// The key of the new attribute.
    pub new_name: Identifier<S>,
    /// The span of the existing attribute.
    pub existing_span: S,
    /// The span of the new attribute.
    pub new_span: S,
}

/// An attribute: a flag (`key`) or a key with a value (`key=value`).
#[derive(Debug, PartialEq)]
pub struct Attribute<S: Span> {
    /// The key of the attribute.
    pub key: Identifier<S>,
    /// The span of the whole attribute.
    pub span: S,
    /// The value of the attribute, if it has one.
    pub value: Option<AttributeValue<S>>,
}

impl<S: Span> Attribute<S> {
    /// A flag with an empty span.
    pub fn flag(key: Identifier<S>) -> (r: Self)
        ensures
            r.key == key,
            r.span.spec_range() is None,
            r.value is None,
    {
        Self::flag_spanned(key, S::empty())
    }

    /// A flag with the given span.
    pub fn flag_spanned(key: Identifier<S>, span: S) -> (r: Self)
        ensures
            r == (Attribute { key, span, value: None }),
    {
        Attribute { key, span, value: None }
    }

    /// A key with a value, with empty spans.
    pub fn key_value(key: Identifier<S>, value: String) -> (r: Self)
        ensures
            r.key == key,
            r.span.spec_range() is None,
            r.value matches Some(v) && v.value == value && v.span.spec_range() is None,
    {
        Self::key_value_spanned(key, value, S::empty(), S::empty())
    }

    /// A key with a value, with the span of the attribute and that of the value.
    pub fn key_value_spanned(key: Identifier<S>, value: String, span: S, value_span: S) -> (r: Self)
        ensures
            r == (Attribute { key, span, value: Some(AttributeValue { value, span: value_span }) }),
    {
        Attribute { key, span, value: Some(AttributeValue { value, span: value_span }) }
    }

    /// Maps every span of the attribute with `map`.
    pub fn map_span<S2: Span, F: Fn(S) -> S2>(self, map: &F) -> (r: Attribute<S2>)
        requires
            forall|s: S| #[trigger] call_requires(*map, (s,)),
        ensures
            attribute_span_mapped(self, r, *map),
    {
        let value = match self.value {
            Some(v) => Some(v.map_span(map)),
            None => None,
        };
        Attribute { key: self.key.map_span(map), span: map(self.span), value }
    }
}

/// The value of an attribute.
#[derive(Debug, PartialEq)]
pub struct AttributeValue<S: Span> {
    /// The text of the value.
    pub value: String,
    /// The span of the value.
    pub span: S,
}

impl<S: Span> AttributeValue<S> {
    /// Maps the span of the value with `map`.
    pub fn map_span<S2: Span, F: Fn(S) -> S2>(self, map: &F) -> (r: AttributeValue<S2>)
        requires
            forall|s: S| #[trigger] call_requires(*map, (s,)),
        ensures
            r.value == self.value,
            call_ensures(*map, (self.span,), r.span),
    {
        AttributeValue { value: self.value, span: map(self.span) }
    }
}

} // verus!
