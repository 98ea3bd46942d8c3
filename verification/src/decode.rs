//! Reading a request out of its untyped notation.
//!
//! The notation is checked front to back, and the first violation met
//! refuses the whole request.

use vstd::prelude::*;
use vstd::string::*;
use crate::decimal::{decimal, decimal_string};
use crate::error::{outcome, CompileError, Violation};
use crate::render::{compile, compiled, display_suffix, endpoint, url};
use crate::request::{families, pair_of, Family, FamilyRequest};
use crate::term::Term;
use crate::text::texts;

verus! {

/// The key of the attribute that lists weights.
pub open spec fn weights_key() -> Seq<char> {
    "weights"@
}

/// The key of the attribute that lists italic pairs.
pub open spec fn italics_key() -> Seq<char> {
    "italics"@
}

/// Whether `term` can stand in a list of weights: an integer or a string.
pub open spec fn is_weight(term: Term) -> bool {
    term is Int || term is Str
}

/// The token of a weight: an integer in decimal notation, a string as it is.
pub open spec fn weight_token(term: Term) -> Seq<char> {
    match term {
        Term::Int(n) => decimal(n as nat),
        Term::Str(s) => s@,
        _ => Seq::empty(),
    }
}

/// Whether `term` can stand in a list of italic pairs: a tuple of exactly
/// two integers.
pub open spec fn is_italic_pair(term: Term) -> bool {
    term matches Term::Tuple(elems) && elems@.len() == 2 && elems@[0] is Int && elems@[1] is Int
}

/// The integer that an integer term holds.
pub open spec fn int_value(term: Term) -> nat {
    match term {
        Term::Int(n) => n as nat,
        _ => 0,
    }
}

/// The flag and the weight of an italic pair.
pub open spec fn italic_pair(term: Term) -> (nat, nat) {
    match term {
        Term::Tuple(elems) => (int_value(elems@[0]), int_value(elems@[1])),
        _ => (0, 0),
    }
}

/// The list that `arg` binds to `key`. It is empty where `arg` is no
/// binding, binds another key, or binds the key to something that is no
/// list.
pub open spec fn bound_list(arg: Term, key: Seq<char>) -> Seq<Term> {
    match arg {
        Term::Assign(k, value) => if k@ == key {
            match *value {
                Term::Array(elems) => elems@,
                _ => Seq::empty(),
            }
        } else {
            Seq::empty()
        },
        _ => Seq::empty(),
    }
}

/// What is wrong with one argument of a family entry, if anything.
///
/// Only a binding can be wrong: by a key that is neither of the two known
/// ones, or by a list element of the wrong shape.
pub open spec fn attribute_violation(arg: Term) -> Option<Violation> {
    match arg {
        Term::Assign(k, _) => if k@ == weights_key() {
            if forall|i: int|
                0 <= i < bound_list(arg, weights_key()).len() ==> is_weight(
                    #[trigger] bound_list(arg, weights_key())[i],
                ) {
                None
            } else {
                Some(Violation::InvalidWeight)
            }
        } else if k@ == italics_key() {
            if forall|i: int|
                0 <= i < bound_list(arg, italics_key()).len() ==> is_italic_pair(
                    #[trigger] bound_list(arg, italics_key())[i],
                ) {
                None
            } else {
                Some(Violation::InvalidItalicPair)
            }
        } else {
            Some(Violation::UnknownAttribute(k@))
        },
        _ => None,
    }
}

/// The weight tokens that one argument contributes.
pub open spec fn attribute_weights(arg: Term) -> Seq<Seq<char>> {
    bound_list(arg, weights_key()).map_values(|t: Term| weight_token(t))
}

/// The italic pairs that one argument contributes.
pub open spec fn attribute_italics(arg: Term) -> Seq<(nat, nat)> {
    bound_list(arg, italics_key()).map_values(|t: Term| italic_pair(t))
}

/// The first violation that `check` finds in `items`, front to back.
pub open spec fn first_violation(
    items: Seq<Term>,
    check: spec_fn(Term) -> Option<Violation>,
) -> Option<Violation>
    decreases items.len(),
{
    if items.len() == 0 {
        None
    } else if check(items[0]) is Some {
        check(items[0])
    } else {
        first_violation(items.drop_first(), check)
    }
}

/// Whether an entry names its family: a tuple whose first element is a
/// string.
pub open spec fn has_name(entry: Term) -> bool {
    entry matches Term::Tuple(elems) && elems@.len() > 0 && elems@[0] is Str
}

/// The name of an entry's family.
pub open spec fn entry_name(entry: Term) -> Seq<char> {
    match entry {
        Term::Tuple(elems) => match elems@[0] {
            Term::Str(s) => s@,
            _ => Seq::empty(),
        },
        _ => Seq::empty(),
    }
}

/// What follows the name in an entry.
pub open spec fn entry_arguments(entry: Term) -> Seq<Term> {
    match entry {
        Term::Tuple(elems) => if elems@.len() > 0 {
            elems@.skip(1)
        } else {
            Seq::empty()
        },
        _ => Seq::empty(),
    }
}

/// What is wrong with one family entry, if anything: a missing name, or
/// else the first violation among its arguments.
pub open spec fn entry_violation(entry: Term) -> Option<Violation> {
    if !has_name(entry) {
        Some(Violation::InvalidName)
    } else {
        first_violation(entry_arguments(entry), |a: Term| attribute_violation(a))
    }
}

/// The family that an entry describes: its name, and what its arguments
/// contribute, in the arguments' order.
pub open spec fn entry_family(entry: Term) -> Family {
    Family {
        name: entry_name(entry),
        weights: entry_arguments(entry).map_values(|a: Term| attribute_weights(a)).flatten(),
        italics: entry_arguments(entry).map_values(|a: Term| attribute_italics(a)).flatten(),
    }
}

/// The request that a list of entries describes, or the first violation in
/// it.
pub open spec fn decoded(input: Seq<Term>) -> Result<Seq<Family>, Violation> {
    match first_violation(input, |e: Term| entry_violation(e)) {
        Some(violation) => Err(violation),
        None => Ok(input.map_values(|e: Term| entry_family(e))),
    }
}

/// What a list of entries compiles to: an empty list is refused, a
/// violation in an entry refuses the whole list, and every other list has
/// the URL of the request that it describes.
pub open spec fn resolved(input: Seq<Term>) -> Result<Seq<char>, Violation> {
    if input.len() == 0 {
        Err(Violation::EmptyInput)
    } else {
        match decoded(input) {
            Ok(request) => compiled(request),
            Err(violation) => Err(violation),
        }
    }
}

/// Where `check` passes everything before position `at` and finds a
/// violation there, that violation is the first.
pub proof fn lemma_first_violation_at(
    items: Seq<Term>,
    check: spec_fn(Term) -> Option<Violation>,
    at: int,
)
    requires
        0 <= at < items.len(),
        forall|j: int| 0 <= j < at ==> check(#[trigger] items[j]) is None,
        check(items[at]) is Some,
    ensures
        first_violation(items, check) == check(items[at]),
    decreases at,
{
    if at > 0 {
        lemma_first_violation_at(items.drop_first(), check, at - 1);
    }
}

/// Where `check` passes every item, there is no violation.
pub proof fn lemma_no_violation(items: Seq<Term>, check: spec_fn(Term) -> Option<Violation>)
    requires
        forall|j: int| 0 <= j < items.len() ==> check(#[trigger] items[j]) is None,
    ensures
        first_violation(items, check) is None,
    decreases items.len(),
{
    if items.len() > 0 {
        lemma_no_violation(items.drop_first(), check);
    }
}

/// The two known keys are different words.
pub proof fn lemma_keys_differ()
    ensures
        weights_key() != italics_key(),
{
    reveal_strlit("weights");
    reveal_strlit("italics");
    assert(weights_key()[0] == 'w');
    assert(italics_key()[0] == 'i');
}

/// Whether `text` reads exactly `word`.
fn reads(text: &String, word: &str) -> (same: bool)
    ensures
        same == (text@ == word@),
{
    let other = String::from_str(word);
    text.eq(&other)
}

/// Reads a list of weights.
///
/// The list is accepted where each element is an integer or a string, and
/// then the tokens come in the list's order; otherwise it is refused as
/// [`CompileError::InvalidWeight`].
pub fn decode_weights(list: &Vec<Term>) -> (result: Result<Vec<String>, CompileError>)
    ensures
        match result {
            Ok(tokens) => {
                &&& forall|i: int| 0 <= i < list@.len() ==> is_weight(#[trigger] list@[i])
                &&& texts(tokens@) == list@.map_values(|t: Term| weight_token(t))
            },
            Err(error) => {
                &&& exists|i: int| 0 <= i < list@.len() && !is_weight(#[trigger] list@[i])
                &&& error@ == Violation::InvalidWeight
            },
        },
{
    let mut tokens: Vec<String> = Vec::new();
    let n = list.len();
    let mut i: usize = 0;
    while i < n
        invariant
            n == list.len(),
            i <= n,
            forall|j: int| 0 <= j < i ==> is_weight(#[trigger] list@[j]),
            texts(tokens@) == list@.take(i as int).map_values(|t: Term| weight_token(t)),
        decreases n - i,
    {
        let token = match &list[i] {
            Term::Int(value) => decimal_string(*value),
            Term::Str(s) => s.clone(),
            _ => {
                return Err(CompileError::InvalidWeight);
            },
        };
        let ghost before = tokens@;
        tokens.push(token);
        assert(texts(tokens@) == texts(before).push(token@));
        i += 1;
    }
    Ok(tokens)
}

/// Reads a list of italic pairs.
///
/// The list is accepted where each element is a tuple of exactly two
/// integers, and then the pairs come in the list's order; otherwise it is
/// refused as [`CompileError::InvalidItalicPair`].
pub fn decode_italics(list: &Vec<Term>) -> (result: Result<Vec<(u64, u64)>, CompileError>)
    ensures
        match result {
            Ok(pairs) => {
                &&& forall|i: int| 0 <= i < list@.len() ==> is_italic_pair(#[trigger] list@[i])
                &&& pairs@.map_values(|p: (u64, u64)| pair_of(p)) == list@.map_values(
                    |t: Term| italic_pair(t),
                )
            },
            Err(error) => {
                &&& exists|i: int| 0 <= i < list@.len() && !is_italic_pair(#[trigger] list@[i])
                &&& error@ == Violation::InvalidItalicPair
            },
        },
{
    let mut pairs: Vec<(u64, u64)> = Vec::new();
    let n = list.len();
    let mut i: usize = 0;
    while i < n
        invariant
            n == list.len(),
            i <= n,
            forall|j: int| 0 <= j < i ==> is_italic_pair(#[trigger] list@[j]),
            pairs@.map_values(|p: (u64, u64)| pair_of(p)) == list@.take(i as int).map_values(
                |t: Term| italic_pair(t),
            ),
        decreases n - i,
    {
        let pair = match &list[i] {
            Term::Tuple(elems) => {
                if elems.len() != 2 {
                    return Err(CompileError::InvalidItalicPair);
                }
                match (&elems[0], &elems[1]) {
                    (Term::Int(flag), Term::Int(weight)) => (*flag, *weight),
                    _ => {
                        return Err(CompileError::InvalidItalicPair);
                    },
                }
            },
            _ => {
                return Err(CompileError::InvalidItalicPair);
            },
        };
        let ghost before = pairs@;
        pairs.push(pair);
        assert(pairs@.map_values(|p: (u64, u64)| pair_of(p)) == before.map_values(
            |p: (u64, u64)| pair_of(p),
        ).push(pair_of(pair)));
        i += 1;
    }
    Ok(pairs)
}

/// A family with what one more argument contributes added at the end.
pub open spec fn extended(family: Family, arg: Term) -> Family {
    Family {
        name: family.name,
        weights: family.weights + attribute_weights(arg),
        italics: family.italics + attribute_italics(arg),
    }
}

/// Reads one argument of a family entry into `family`.
///
/// An argument without a violation adds what it contributes; one with a
/// violation is refused with it and leaves `family` as it was.
pub fn decode_attribute(arg: &Term, family: &mut FamilyRequest) -> (result: Result<
    (),
    CompileError,
>)
    ensures
        match result {
            Ok(_) => {
                &&& attribute_violation(*arg) is None
                &&& final(family)@ == extended(old(family)@, *arg)
            },
            Err(error) => {
                &&& attribute_violation(*arg) == Some(error@)
                &&& *final(family) == *old(family)
            },
        },
{
    proof {
        lemma_keys_differ();
    }
    match arg {
        Term::Assign(key, value) => {
            if reads(key, "weights") {
                match &**value {
                    Term::Array(list) => {
                        match decode_weights(list) {
                            Ok(mut tokens) => {
                                family.weights.append(&mut tokens);
                            },
                            Err(error) => {
                                assert(bound_list(*arg, weights_key()) == list@);
                                return Err(error);
                            },
                        }
                    },
                    _ => {},
                }
            } else if reads(key, "italics") {
                match &**value {
                    Term::Array(list) => {
                        match decode_italics(list) {
                            Ok(mut pairs) => {
                                family.italics.append(&mut pairs);
                            },
                            Err(error) => {
                                assert(bound_list(*arg, italics_key()) == list@);
                                return Err(error);
                            },
                        }
                    },
                    _ => {},
                }
            } else {
                return Err(CompileError::UnknownAttribute(key.clone()));
            }
        },
        _ => {},
    }
    assert(family@.weights == old(family)@.weights + attribute_weights(*arg));
    assert(family@.italics == old(family)@.italics + attribute_italics(*arg));
    Ok(())
}

/// What the first `upto` arguments of an entry contribute to its family.
pub open spec fn partial_family(entry: Term, upto: int) -> Family {
    Family {
        name: entry_name(entry),
        weights: entry_arguments(entry).take(upto).map_values(
            |a: Term| attribute_weights(a),
        ).flatten(),
        italics: entry_arguments(entry).take(upto).map_values(
            |a: Term| attribute_italics(a),
        ).flatten(),
    }
}

/// One more argument extends what the arguments before it contribute.
pub proof fn lemma_partial_family_step(entry: Term, upto: int)
    requires
        0 <= upto < entry_arguments(entry).len(),
    ensures
        partial_family(entry, upto + 1) == extended(
            partial_family(entry, upto),
            entry_arguments(entry)[upto],
        ),
{
    let args = entry_arguments(entry);
    let weights = args.take(upto).map_values(|a: Term| attribute_weights(a));
    let italics = args.take(upto).map_values(|a: Term| attribute_italics(a));
    assert(args.take(upto + 1).map_values(|a: Term| attribute_weights(a)) == weights.push(
        attribute_weights(args[upto]),
    ));
    assert(args.take(upto + 1).map_values(|a: Term| attribute_italics(a)) == italics.push(
        attribute_italics(args[upto]),
    ));
    weights.lemma_flatten_push(attribute_weights(args[upto]));
    italics.lemma_flatten_push(attribute_italics(args[upto]));
}

/// Reads one family entry.
///
/// An entry without a violation gives the family that it describes; one
/// with a violation is refused with it.
pub fn decode_family(entry: &Term) -> (result: Result<FamilyRequest, CompileError>)
    ensures
        match result {
            Ok(family) => entry_violation(*entry) is None && family@ == entry_family(*entry),
            Err(error) => entry_violation(*entry) == Some(error@),
        },
{
    let elems = match entry {
        Term::Tuple(elems) => elems,
        _ => {
            return Err(CompileError::InvalidName);
        },
    };
    if elems.len() == 0 {
        return Err(CompileError::InvalidName);
    }
    let name = match &elems[0] {
        Term::Str(s) => s.clone(),
        _ => {
            return Err(CompileError::InvalidName);
        },
    };
    let ghost args = entry_arguments(*entry);
    let ghost check = |a: Term| attribute_violation(a);
    let mut family = FamilyRequest { name, weights: Vec::new(), italics: Vec::new() };
    assert(family@.weights =~= partial_family(*entry, 0).weights);
    assert(family@.italics =~= partial_family(*entry, 0).italics);
    let n = elems.len();
    let mut i: usize = 1;
    while i < n
        invariant
            n == elems.len(),
            1 <= i <= n,
            has_name(*entry),
            *entry == Term::Tuple(*elems),
            args == entry_arguments(*entry),
            check == |a: Term| attribute_violation(a),
            forall|j: int| 0 <= j < i - 1 ==> check(#[trigger] args[j]) is None,
            family@ == partial_family(*entry, i - 1),
        decreases n - i,
    {
        proof {
            lemma_partial_family_step(*entry, i - 1);
        }
        match decode_attribute(&elems[i], &mut family) {
            Ok(_) => {},
            Err(error) => {
                proof {
                    lemma_first_violation_at(args, check, i - 1);
                }
                return Err(error);
            },
        }
        i += 1;
    }
    proof {
        lemma_no_violation(args, check);
        assert(args.take(n - 1) == args);
    }
    Ok(family)
}

/// Reads every entry of a request.
///
/// Entries without a violation give the families that they describe, in
/// order; otherwise the first violation refuses the request.
pub fn decode(input: &Vec<Term>) -> (result: Result<Vec<FamilyRequest>, CompileError>)
    ensures
        match result {
            Ok(requests) => decoded(input@) == Ok::<Seq<Family>, Violation>(families(requests@)),
            Err(error) => decoded(input@) == Err::<Seq<Family>, Violation>(error@),
        },
{
    let ghost check = |e: Term| entry_violation(e);
    let mut requests: Vec<FamilyRequest> = Vec::new();
    let n = input.len();
    let mut i: usize = 0;
    while i < n
        invariant
            n == input.len(),
            i <= n,
            check == |e: Term| entry_violation(e),
            forall|j: int| 0 <= j < i ==> check(#[trigger] input@[j]) is None,
            families(requests@) == input@.take(i as int).map_values(|e: Term| entry_family(e)),
        decreases n - i,
    {
        match decode_family(&input[i]) {
            Ok(family) => {
                let ghost before = requests@;
                requests.push(family);
                assert(families(requests@) == families(before).push(family@));
            },
            Err(error) => {
                proof {
                    lemma_first_violation_at(input@, check, i as int);
                }
                return Err(error);
            },
        }
        i += 1;
    }
    proof {
        lemma_no_violation(input@, check);
        assert(input@.take(n as int) == input@);
    }
    Ok(requests)
}

/// Compiles a request in untyped notation into the URL of its stylesheet.
///
/// `input` holds the family entries in the caller's order. An empty list is
/// refused, and so is a list with a violation in an entry, with the first
/// violation met; nothing is rendered then. Every other list gives the URL
/// of the request that it describes.
pub fn google_fonts_url(input: &Vec<Term>) -> (result: Result<String, CompileError>)
    ensures
        outcome(result) == resolved(input@),
        result is Ok <==> input@.len() > 0 && decoded(input@) is Ok,
        result matches Ok(out) ==> endpoint().is_prefix_of(out@) && display_suffix().is_suffix_of(
            out@,
        ),
{
    if input.len() == 0 {
        return Err(CompileError::EmptyInput);
    }
    match decode(input) {
        Ok(requests) => compile(&requests),
        Err(error) => Err(error),
    }
}

/// A list that holds an entry, and no entry with a violation, compiles to
/// the URL of the families that its entries describe, in the entries'
/// order; the URL starts with the endpoint and ends with the display
/// parameter.
pub proof fn lemma_resolved_accepts(input: Seq<Term>)
    requires
        input.len() > 0,
        forall|i: int| 0 <= i < input.len() ==> entry_violation(#[trigger] input[i]) is None,
    ensures
        resolved(input) == Ok::<Seq<char>, Violation>(
            url(input.map_values(|e: Term| entry_family(e))),
        ),
        endpoint().is_prefix_of(url(input.map_values(|e: Term| entry_family(e)))),
        display_suffix().is_suffix_of(url(input.map_values(|e: Term| entry_family(e)))),
{
    lemma_no_violation(input, |e: Term| entry_violation(e));
}

/// A list is refused with the violation of its first entry that has one.
pub proof fn lemma_resolved_refuses(input: Seq<Term>, at: int)
    requires
        0 <= at < input.len(),
        forall|j: int| 0 <= j < at ==> entry_violation(#[trigger] input[j]) is None,
        entry_violation(input[at]) is Some,
    ensures
        resolved(input) == Err::<Seq<char>, Violation>(entry_violation(input[at]).unwrap()),
{
    lemma_first_violation_at(input, |e: Term| entry_violation(e), at);
}

} // verus!
