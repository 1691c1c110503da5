//! Bus names: the grammar a valid endpoint follows, and a type that only
//! holds valid ones.
use vstd::prelude::*;

verus! {

/// The registry that lists the live applications.
pub const REGISTRY_DEST: &'static str = "org.a11y.atspi.Registry";

pub open spec fn is_ascii_digit(c: char) -> bool {
    '0' <= c <= '9'
}

pub open spec fn is_element_char(c: char) -> bool {
    ||| 'a' <= c <= 'z'
    ||| 'A' <= c <= 'Z'
    ||| is_ascii_digit(c)
    ||| c == '_'
    ||| c == '-'
}

/// Two or more non-empty elements of `[A-Za-z0-9_-]`, separated by single dots.
pub open spec fn is_dotted(s: Seq<char>) -> bool {
    &&& s.len() > 0
    &&& s[0] != '.'
    &&& s.last() != '.'
    &&& exists|i: int| 0 <= i < s.len() && s[i] == '.'
    &&& forall|i: int| 0 <= i < s.len() ==> is_element_char(#[trigger] s[i]) || s[i] == '.'
    &&& forall|i: int| 0 <= i < s.len() - 1 && #[trigger] s[i] == '.' ==> s[i + 1] != '.'
}

/// A well-known name: dotted, and no element starts with a digit.
pub open spec fn is_well_known_name(s: Seq<char>) -> bool {
    &&& is_dotted(s)
    &&& !is_ascii_digit(s[0])
    &&& forall|i: int| 0 <= i < s.len() - 1 && #[trigger] s[i] == '.' ==> !is_ascii_digit(s[i + 1])
}

/// A unique name: a colon, then dotted elements that may start with a digit.
pub open spec fn is_unique_name(s: Seq<char>) -> bool {
    s.len() > 0 && s[0] == ':' && is_dotted(s.skip(1))
}

/// A bus name of at most 255 characters, unique or well-known.
pub open spec fn is_bus_name(s: Seq<char>) -> bool {
    s.len() <= 255 && (is_unique_name(s) || is_well_known_name(s))
}

/// Relies on `zbus::names::BusName::try_from(&str)`, which accepts exactly the
/// unique and well-known bus names of at most 255 bytes.
#[verifier::external_body]
fn bus_name_valid(s: &str) -> (r: bool)
    ensures
        r == is_bus_name(s@),
{
    zbus::names::BusName::try_from(s).is_ok()
}

/// A valid bus name.
#[derive(Debug, PartialEq, Eq)]
pub struct Endpoint {
    name: String,
}

impl Endpoint {
    #[verifier::type_invariant]
    spec fn valid(self) -> bool {
        is_bus_name(self.name@)
    }

    pub closed spec fn view(&self) -> Seq<char> {
        self.name@
    }

    /// The endpoint named `s`, if `s` is a valid bus name.
    pub fn parse(s: &str) -> (r: Option<Endpoint>)
        ensures
            r is Some <==> is_bus_name(s@),
            r matches Some(e) ==> e@ == s@,
    {
        if bus_name_valid(s) {
            Some(Endpoint { name: String::from_str(s) })
        } else {
            None
        }
    }

    /// The registry endpoint.
    pub fn registry() -> (r: Endpoint)
        ensures
            r@ == REGISTRY_DEST@,
    {
        proof {
            lemma_registry_valid();
        }
        Endpoint { name: String::from_str(REGISTRY_DEST) }
    }

    pub fn as_str(&self) -> (r: &str)
        ensures
            r@ == self@,
            is_bus_name(r@),
    {
        proof {
            use_type_invariant(self);
        }
        self.name.as_str()
    }
}

impl Clone for Endpoint {
    fn clone(&self) -> (r: Self)
        ensures
            r@ == self@,
    {
        proof {
            use_type_invariant(self);
        }
        Endpoint { name: self.name.clone() }
    }
}

/// The registry's name is a valid bus name.
pub proof fn lemma_registry_valid()
    ensures
        is_bus_name(REGISTRY_DEST@),
{
    reveal_strlit("org.a11y.atspi.Registry");
    let s = REGISTRY_DEST@;
    assert(s.len() == 23);
    assert(s[3] == '.');
    assert(is_well_known_name(s));
}

} // verus!
