//! Identifier rendering and parsing. Identifiers travel outside the
//! library (in tokens and request paths) as their canonical 128-bit UUID
//! text; inside they are plain integers.

use vstd::prelude::*;

use crate::model::strs_view;

verus! {

/// The canonical hyphenated lower-case UUID text of an identifier.
pub uninterp spec fn uuid_text(id: u128) -> Seq<char>;

/// The identifier a text parses to, if it parses as a UUID at all: a
/// pure function of the text.
pub uninterp spec fn uuid_of(s: Seq<char>) -> Option<u128>;

/// Relies on uuid::Uuid::from_u128 and its Display rendering: the
/// canonical text of the identifier, a function of the identifier alone.
#[verifier::external_body]
pub fn uuid_to_string(id: u128) -> (r: String)
    ensures
        r@ == uuid_text(id),
{
    uuid::Uuid::from_u128(id).to_string()
}

/// Relies on uuid::Uuid::parse_str and Uuid::as_u128: what a text parses
/// to is a function of the text alone, and the canonical text of an
/// identifier parses back to that identifier.
#[verifier::external_body]
pub fn uuid_parse(s: &str) -> (r: Option<u128>)
    ensures
        r == uuid_of(s@),
        forall|id: u128| s@ == #[trigger] uuid_text(id) ==> r == Some(id),
{
    match uuid::Uuid::parse_str(s) {
        Ok(u) => Some(u.as_u128()),
        Err(_) => None,
    }
}

/// The identifiers a list of texts parses to, in order, with whatever
/// does not parse silently skipped.
pub open spec fn parsed_ids(texts: Seq<Seq<char>>) -> Seq<u128>
    decreases texts.len(),
{
    if texts.len() == 0 {
        Seq::empty()
    } else {
        let prev = parsed_ids(texts.drop_last());
        match uuid_of(texts.last()) {
            Some(id) => prev.push(id),
            None => prev,
        }
    }
}

/// Parses a list of role ids from their text form: exactly the parseable
/// entries, in order, the rest silently skipped. Every id whose
/// canonical text appears in the input comes out.
pub fn parse_role_ids(ids: &Vec<String>) -> (r: Vec<u128>)
    ensures
        r@ == parsed_ids(strs_view(ids@)),
        forall|id: u128|
            (exists|j: int| 0 <= j < ids@.len() && ids@[j]@ == #[trigger] uuid_text(id))
                ==> r@.contains(id),
{
    let ghost texts = strs_view(ids@);
    let n = ids.len();
    let mut out: Vec<u128> = Vec::new();
    let mut i: usize = 0;
    proof {
        assert(texts.take(0) =~= Seq::<Seq<char>>::empty());
    }
    while i < n
        invariant
            i <= n,
            n == ids.len(),
            texts == strs_view(ids@),
            texts.len() == n,
            out@ == parsed_ids(texts.take(i as int)),
            forall|id: u128|
                (exists|j: int| 0 <= j < i && ids@[j]@ == #[trigger] uuid_text(id))
                    ==> out@.contains(id),
        decreases n - i,
    {
        let ghost prev = out@;
        proof {
            assert(texts.take(i + 1).drop_last() =~= texts.take(i as int));
            assert(texts.take(i + 1).last() == texts[i as int]);
            assert(texts[i as int] == ids@[i as int]@);
        }
        match uuid_parse(ids[i].as_str()) {
            Some(id) => {
                out.push(id);
                proof {
                    assert(out@ == prev.push(id));
                    assert(out@ =~= parsed_ids(texts.take(i + 1)));
                    assert forall|x: u128|
                        (exists|j: int| 0 <= j < i + 1 && ids@[j]@ == #[trigger] uuid_text(x))
                            implies out@.contains(x) by {
                        let j = choose|j: int| 0 <= j < i + 1 && ids@[j]@ == uuid_text(x);
                        if j < i {
                            assert(prev.contains(x));
                            let k = choose|k: int| 0 <= k < prev.len() && prev[k] == x;
                            assert(out@[k] == x);
                        } else {
                            assert(ids@[i as int]@ == uuid_text(x));
                            assert(out@[out@.len() - 1] == x);
                        }
                    }
                }
            },
            None => {
                proof {
                    assert(out@ =~= parsed_ids(texts.take(i + 1)));
                    assert forall|x: u128|
                        (exists|j: int| 0 <= j < i + 1 && ids@[j]@ == #[trigger] uuid_text(x))
                            implies out@.contains(x) by {
                        let j = choose|j: int| 0 <= j < i + 1 && ids@[j]@ == uuid_text(x);
                        assert(j < i);
                    }
                }
            },
        }
        i = i + 1;
    }
    proof {
        assert(texts.take(n as int) =~= texts);
    }
    out
}

} // verus!
