use vstd::prelude::*;
use crate::Entity;
use vstd::std_specs::iter::IteratorSpec;

verus! {

/// An entity that carries a name.
pub struct Named {
    pub entity: Entity,
    pub name: String,
}

/// Whether two characters are equal once ASCII letters are folded to one
/// case.
pub open spec fn same_ignoring_ascii_case(c: char, d: char) -> bool {
    c == d || ('A' <= c <= 'Z' && d as u32 == c as u32 + 32) || ('a' <= c <= 'z' && c as u32
        == d as u32 + 32)
}

/// Whether two strings are equal once ASCII letters are folded to one case.
pub open spec fn eq_ignoring_ascii_case(a: Seq<char>, b: Seq<char>) -> bool {
    a.len() == b.len() && forall|i: int| 0 <= i < a.len() ==> same_ignoring_ascii_case(a[i], b[i])
}

/// Whether two characters are equal once ASCII letters are folded to one
/// case.
fn same_char_ignoring_ascii_case(c: char, d: char) -> (r: bool)
    ensures
        r == same_ignoring_ascii_case(c, d),
{
    c == d || ('A' <= c && c <= 'Z' && d as u32 == c as u32 + 32) || ('a' <= c && c <= 'z'
        && c as u32 == d as u32 + 32)
}

/// Whether two strings are equal once ASCII letters are folded to one
/// case, comparing them character by character.
fn eq_ignore_ascii_case(a: &str, b: &str) -> (r: bool)
    ensures
        r == eq_ignoring_ascii_case(a@, b@),
{
    broadcast use vstd::string::axiom_spec_iter, vstd::string::next_postcondition;

    let mut ia = a.chars();
    let mut ib = b.chars();
    let ghost mut i: int = 0;
    assert(a@.skip(0) =~= a@);
    assert(b@.skip(0) =~= b@);
    loop
        invariant
            0 <= i <= a@.len(),
            i <= b@.len(),
            ia.obeys_prophetic_iter_laws(),
            ib.obeys_prophetic_iter_laws(),
            ia.remaining() == a@.skip(i),
            ib.remaining() == b@.skip(i),
            forall|j: int| 0 <= j < i ==> same_ignoring_ascii_case(a@[j], b@[j]),
        decreases a@.len() - i,
    {
        let ca = ia.next();
        let cb = ib.next();
        match (ca, cb) {
            (Some(c), Some(d)) => {
                assert(c == a@[i] && d == b@[i]);
                if !same_char_ignoring_ascii_case(c, d) {
                    return false;
                }
                proof {
                    assert(a@.skip(i).drop_first() =~= a@.skip(i + 1));
                    assert(b@.skip(i).drop_first() =~= b@.skip(i + 1));
                    i = i + 1;
                }
            },
            (None, None) => {
                assert(i == a@.len() && i == b@.len());
                return true;
            },
            _ => {
                assert(a@.len() != b@.len());
                return false;
            },
        }
    }
}

/// The entity of the first name that matches `name` up to ASCII case.
pub open spec fn named_spec(named: Seq<Named>, name: Seq<char>) -> Option<Entity>
    decreases named.len(),
{
    if named.len() == 0 {
        None
    } else if eq_ignoring_ascii_case(name, named[0].name@) {
        Some(named[0].entity)
    } else {
        named_spec(named.drop_first(), name)
    }
}

/// The first entity whose name matches `name` up to ASCII case.
pub fn get_named_entity(named: &Vec<Named>, name: &str) -> (r: Option<Entity>)
    ensures
        r == named_spec(named@, name@),
{
    let mut i: usize = 0;
    assert(named@.subrange(0, named@.len() as int) =~= named@);
    while i < named.len()
        invariant
            0 <= i <= named@.len(),
            named_spec(named@, name@) == named_spec(
                named@.subrange(i as int, named@.len() as int),
                name@,
            ),
        decreases named@.len() - i,
    {
        assert(named@.subrange(i as int, named@.len() as int).drop_first() =~= named@.subrange(
            i + 1,
            named@.len() as int,
        ));
        if eq_ignore_ascii_case(name, named[i].name.as_str()) {
            return Some(named[i].entity);
        }
        i = i + 1;
    }
    None
}

} // verus!
