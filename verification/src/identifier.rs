use crate::module::{spec_renaming, RenameRules};
use crate::spans::Span;
use vstd::prelude::*;

verus! {

/// An identifier, i.e. a name with associated [`Span`].
///
/// Two identifiers are equal (`==`) when their names are equal; their spans are not compared.
#[derive(Debug)]
pub struct Identifier<S: Span> {
    /// The name of the identifier.
    pub name: String,
    /// The [`Span`] of the identifier.
    pub span: S,
}

/// An ASCII decimal digit.
pub open spec fn is_digit_char(c: char) -> bool {
    '0' <= c && c <= '9'
}

/// A character that may occur in an identifier: `A`-`Z`, `a`-`z`, `0`-`9` and `_`.
pub open spec fn is_identifier_char(c: char) -> bool {
    ||| 'a' <= c && c <= 'z'
    ||| 'A' <= c && c <= 'Z'
    ||| is_digit_char(c)
    ||| c == '_'
}

/// The reserved keywords of the PRISM language.
pub open spec fn reserved_names() -> Seq<Seq<char>> {
    seq![
        "A"@, "bool"@, "clock"@, "const"@, "ctmc"@, "C"@, "double"@, "dtmc"@, "E"@, "endinit"@,
        "endinvariant"@, "endmodule"@, "endobservables"@, "endrewards"@, "endsystem"@, "false"@,
        "formula"@, "filter"@, "func"@, "F"@, "global"@, "G"@, "init"@, "invariant"@, "I"@,
        "int"@, "label"@, "max"@, "mdp"@, "min"@, "module"@, "X"@, "nondeterministic"@,
        "observable"@, "observables"@, "of"@, "Pmax"@, "Pmin"@, "P"@, "pomdp"@, "popta"@,
        "probabilistic"@, "prob"@, "pta"@, "rate"@, "rewards"@, "Rmax"@, "Rmin"@, "R"@, "S"@,
        "stochastic"@, "system"@, "true"@, "U"@, "W"@,
    ]
}

/// The index of the first character of `name` that may not occur in an identifier.
pub open spec fn first_invalid_char(name: Seq<char>) -> int
    recommends
        exists|i: int| 0 <= i < name.len() && !is_identifier_char(name[i]),
{
    choose|i: int|
        0 <= i < name.len() && !is_identifier_char(name[i]) && forall|j: int|
            0 <= j < i ==> is_identifier_char(#[trigger] name[j])
}

/// Why `name` is not a legal identifier, or `None` if it is one. Reserved keywords are only
/// rejected when `allow_reserved` is `false`.
pub open spec fn name_error(name: Seq<char>, allow_reserved: bool) -> Option<InvalidName> {
    if name.len() == 0 {
        Some(InvalidName::Empty)
    } else if is_digit_char(name[0]) {
        Some(InvalidName::StartsWithNumber { character: name[0] })
    } else if exists|i: int| 0 <= i < name.len() && !is_identifier_char(#[trigger] name[i]) {
        let i = first_invalid_char(name);
        Some(InvalidName::InvalidCharacter { location: i as usize, character: name[i] })
    } else if !allow_reserved && reserved_names().contains(name) {
        Some(InvalidName::Reserved { name: arbitrary() })
    } else {
        None
    }
}

/// `err` is the error that `name_error` describes; for [`InvalidName::Reserved`] the stored
/// name is `name`.
pub open spec fn matches_name_error(err: InvalidName, name: Seq<char>, allow_reserved: bool) -> bool {
    &&& name_error(name, allow_reserved) is Some
    &&& match name_error(name, allow_reserved).unwrap() {
        InvalidName::Reserved { .. } => err matches InvalidName::Reserved { name: n } && n@ == name,
        e => err == e,
    }
}

/// Compares two strings character by character.
pub fn str_equal(a: &str, b: &str) -> (r: bool)
    ensures
        r == (a@ == b@),
{
    let n = a.unicode_len();
    let m = b.unicode_len();
    if n != m {
        return false;
    }
    let mut i: usize = 0;
    while i < n
        invariant
            n == a@.len(),
            m == b@.len(),
            n == m,
            i <= n,
            forall|j: int| 0 <= j < i ==> a@[j] == b@[j],
        decreases n - i,
    {
        if a.get_char(i) != b.get_char(i) {
            return false;
        }
        i = i + 1;
    }
    assert(a@ =~= b@);
    true
}

/// The reserved keywords, as string literals in the order of [`reserved_names`].
fn reserved_name_list() -> (r: Vec<&'static str>)
    ensures
        r@.len() == reserved_names().len(),
        forall|i: int| 0 <= i < r@.len() ==> #[trigger] r@[i]@ == reserved_names()[i],
{
    let v = vec![
        "A", "bool", "clock", "const", "ctmc", "C", "double", "dtmc", "E", "endinit",
        "endinvariant", "endmodule", "endobservables", "endrewards", "endsystem", "false",
        "formula", "filter", "func", "F", "global", "G", "init", "invariant", "I", "int", "label",
        "max", "mdp", "min", "module", "X", "nondeterministic", "observable", "observables", "of",
        "Pmax", "Pmin", "P", "pomdp", "popta", "probabilistic", "prob", "pta", "rate", "rewards",
        "Rmax", "Rmin", "R", "S", "stochastic", "system", "true", "U", "W",
    ];
    assert(v@.len() == reserved_names().len());
    v
}

/// Returns `true` if `name` is a reserved keyword of the PRISM language.
pub fn is_reserved_name(name: &str) -> (r: bool)
    ensures
        r == reserved_names().contains(name@),
{
    let list = reserved_name_list();
    let mut i: usize = 0;
    while i < list.len()
        invariant
            list@.len() == reserved_names().len(),
            forall|k: int| 0 <= k < list@.len() ==> #[trigger] list@[k]@ == reserved_names()[k],
            i <= list.len(),
            forall|k: int| 0 <= k < i ==> reserved_names()[k] != name@,
        decreases list.len() - i,
    {
        if str_equal(name, list[i]) {
            assert(reserved_names()[i as int] == name@);
            return true;
        }
        i = i + 1;
    }
    assert(!reserved_names().contains(name@)) by {
        if reserved_names().contains(name@) {
            let k = choose|k: int| 0 <= k < reserved_names().len() && reserved_names()[k] == name@;
            assert(reserved_names()[k] != name@);
        }
    }
    false
}

/// Returns `true` if `c` may occur in an identifier.
pub fn identifier_char(c: char) -> (r: bool)
    ensures
        r == is_identifier_char(c),
{
    ('a' <= c && c <= 'z') || ('A' <= c && c <= 'Z') || ('0' <= c && c <= '9') || c == '_'
}

impl<S: Span> Identifier<S> {
    /// Constructs an identifier with given name and empty span, rejecting illegal names and
    /// reserved keywords.
    pub fn new(name: &str) -> (r: Result<Self, InvalidName>)
        ensures
            r matches Ok(id) ==> name_error(name@, false) is None && id.name@ == name@
                && id.span.spec_range() is None,
            r matches Err(e) ==> matches_name_error(e, name@, false),
            r is Ok <==> name_error(name@, false) is None,
    {
        Self::new_with_reserved_option(name, false, S::empty())
    }

    /// Constructs an identifier with given name and span, rejecting illegal names and reserved
    /// keywords.
    pub fn new_spanned(name: &str, span: S) -> (r: Result<Self, InvalidName>)
        ensures
            r matches Ok(id) ==> name_error(name@, false) is None && id.name@ == name@ && id.span
                == span,
            r matches Err(e) ==> matches_name_error(e, name@, false),
            r is Ok <==> name_error(name@, false) is None,
    {
        Self::new_with_reserved_option(name, false, span)
    }

    /// Constructs an identifier with given name and empty span. The name may be a reserved
    /// keyword (useful for function names such as `min`).
    pub fn new_potentially_reserved(name: &str) -> (r: Result<Self, InvalidName>)
        ensures
            r matches Ok(id) ==> name_error(name@, true) is None && id.name@ == name@
                && id.span.spec_range() is None,
            r matches Err(e) ==> matches_name_error(e, name@, true),
            r is Ok <==> name_error(name@, true) is None,
    {
        Self::new_with_reserved_option(name, true, S::empty())
    }

    /// Constructs an identifier with given name and span. The name may be a reserved keyword.
    pub fn new_potentially_reserved_spanned(name: &str, span: S) -> (r: Result<Self, InvalidName>)
        ensures
            r matches Ok(id) ==> name_error(name@, true) is None && id.name@ == name@ && id.span
                == span,
            r matches Err(e) ==> matches_name_error(e, name@, true),
            r is Ok <==> name_error(name@, true) is None,
    {
        Self::new_with_reserved_option(name, true, span)
    }

    fn new_with_reserved_option(name: &str, allow_reserved: bool, span: S) -> (r: Result<
        Self,
        InvalidName,
    >)
        ensures
            r matches Ok(id) ==> name_error(name@, allow_reserved) is None && id.name@ == name@
                && id.span == span,
            r matches Err(e) ==> matches_name_error(e, name@, allow_reserved),
            r is Ok <==> name_error(name@, allow_reserved) is None,
    {
        let n = name.unicode_len();
        if n == 0 {
            return Err(InvalidName::Empty);
        }
        let first = name.get_char(0);
        if '0' <= first && first <= '9' {
            return Err(InvalidName::StartsWithNumber { character: first });
        }
        let mut location: usize = 0;
        while location < n
            invariant
                n == name@.len(),
                n > 0,
                !is_digit_char(name@[0]),
                location <= n,
                forall|j: int| 0 <= j < location ==> is_identifier_char(#[trigger] name@[j]),
            decreases n - location,
        {
            let character = name.get_char(location);
            if !identifier_char(character) {
                assert(first_invalid_char(name@) == location as int) by {
                    let l = location as int;
                    assert(0 <= l < name@.len() && !is_identifier_char(name@[l]) && forall|j: int|
                        0 <= j < l ==> is_identifier_char(#[trigger] name@[j]));
                    let w = first_invalid_char(name@);
                    if w < location {
                        assert(is_identifier_char(name@[w]));
                    } else if w > location {
                        assert(is_identifier_char(name@[location as int]));
                    }
                }
                assert(!is_digit_char(name@[0]));
                assert(exists|i: int| 0 <= i < name@.len() && !is_identifier_char(#[trigger] name@[i]));
                assert(name_error(name@, allow_reserved) == Some(
                    InvalidName::InvalidCharacter { location, character },
                ));
                return Err(InvalidName::InvalidCharacter { location, character });
            }
            location = location + 1;
        }
        if !allow_reserved {
            if is_reserved_name(name) {
                return Err(InvalidName::Reserved { name: name.to_owned() });
            }
        }
        Ok(Identifier { name: name.to_owned(), span })
    }

    /// Maps the span of this identifier with `map`; the name is kept.
    pub fn map_span<S2: Span, F: Fn(S) -> S2>(self, map: &F) -> (r: Identifier<S2>)
        requires
            forall|s: S| #[trigger] call_requires(*map, (s,)),
        ensures
            r.name == self.name,
            call_ensures(*map, (self.span,), r.span),
    {
        Identifier { name: self.name, span: map(self.span) }
    }

    /// Returns a copy of this identifier (name and span).
    pub fn duplicate(&self) -> (r: Self)
        ensures
            r == *self,
    {
        Identifier { name: self.name.clone(), span: self.span.duplicate() }
    }

    /// Constructs a new identifier by applying `rename_rules` to this one: the new name of the
    /// first rule whose old name equals this name, or a copy of this identifier if there is none.
    pub fn renamed(&self, rename_rules: &RenameRules<S>) -> (r: Self)
        ensures
            r == spec_renaming(rename_rules.rules@, *self),
    {
        match rename_rules.get_renaming(self) {
            Some(n) => n,
            None => self.duplicate(),
        }
    }
}

/// `b` is `a` with its span mapped by `f`: same name, and a span that `f` may return for the
/// span of `a`.
pub open spec fn ident_span_mapped<S: Span, S2: Span, F: Fn(S) -> S2>(
    a: Identifier<S>,
    b: Identifier<S2>,
    f: F,
) -> bool {
    b.name == a.name && call_ensures(f, (a.span,), b.span)
}

impl<S: Span> Clone for Identifier<S> {
    fn clone(&self) -> (r: Self)
        ensures
            r == *self,
    {
        self.duplicate()
    }
}

impl<S: Span> PartialEq for Identifier<S> {
    fn eq(&self, other: &Self) -> (r: bool) {
        self.name == other.name
    }
}

impl<S: Span> vstd::std_specs::cmp::PartialEqSpecImpl for Identifier<S> {
    open spec fn obeys_eq_spec() -> bool {
        true
    }

    open spec fn eq_spec(&self, other: &Self) -> bool {
        self.name@ == other.name@
    }
}

/// Error indicating that a string is not a valid PRISM identifier.
#[derive(Debug, PartialEq, Clone)]
pub enum InvalidName {
    /// The identifier is empty.
    Empty,
    /// The identifier starts with a digit.
    StartsWithNumber {
        /// The digit that the identifier starts with.
        character: char,
    },
    /// The identifier contains a character other than `A`-`Z`, `a`-`z`, `0`-`9` and `_`.
    InvalidCharacter {
        /// The location (in characters) of the first invalid character.
        location: usize,
        /// The invalid character.
        character: char,
    },
    /// The identifier is a reserved keyword.
    Reserved {
        /// The reserved keyword.
        name: String,
    },
}

} // verus!
