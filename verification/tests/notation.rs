use google_fonts_query::decode::{decode, decode_attribute, decode_family, decode_italics, decode_weights};
use google_fonts_query::{google_fonts_url, CompileError, FamilyRequest, Term};

fn text(value: &str) -> Term {
    Term::Str(value.to_string())
}

fn bind(key: &str, value: Term) -> Term {
    Term::Assign(key.to_string(), Box::new(value))
}

fn weights(values: Vec<Term>) -> Term {
    bind("weights", Term::Array(values))
}

fn italics(pairs: &[(u64, u64)]) -> Term {
    bind(
        "italics",
        Term::Array(
            pairs.iter().map(|p| Term::Tuple(vec![Term::Int(p.0), Term::Int(p.1)])).collect(),
        ),
    )
}

fn entry(name: &str, arguments: Vec<Term>) -> Term {
    let mut elems = vec![text(name)];
    elems.extend(arguments);
    Term::Tuple(elems)
}

#[test]
fn notation_open_sans_with_one_weight() {
    let input = vec![entry("Open Sans", vec![weights(vec![Term::Int(400)])])];
    assert_eq!(
        google_fonts_url(&input),
        Ok("https://fonts.googleapis.com/css2?family=Open+Sans:wght@400&display=swap".to_string())
    );
}

#[test]
fn notation_roboto_with_italic_pairs() {
    let input = vec![entry("Roboto", vec![italics(&[(0, 400), (1, 700)])])];
    assert_eq!(
        google_fonts_url(&input),
        Ok("https://fonts.googleapis.com/css2?family=Roboto:ital,wght@0,400;1,700&display=swap"
            .to_string())
    );
}

#[test]
fn notation_two_families() {
    let input = vec![
        entry("A", vec![weights(vec![Term::Int(400)])]),
        entry("B", vec![weights(vec![Term::Int(700)])]),
    ];
    assert_eq!(
        google_fonts_url(&input),
        Ok("https://fonts.googleapis.com/css2?family=A:wght@400&family=B:wght@700&display=swap"
            .to_string())
    );
}

#[test]
fn notation_empty_list_is_refused() {
    assert_eq!(google_fonts_url(&Vec::new()), Err(CompileError::EmptyInput));
}

#[test]
fn unknown_attribute_is_refused_with_its_key() {
    let input = vec![entry("Roboto", vec![bind("foo", Term::Array(vec![Term::Int(1)]))])];
    assert_eq!(google_fonts_url(&input), Err(CompileError::UnknownAttribute("foo".to_string())));
}

#[test]
fn unknown_attribute_is_refused_whatever_it_binds() {
    let input = vec![entry("Roboto", vec![bind("wght", Term::Int(400))])];
    assert_eq!(google_fonts_url(&input), Err(CompileError::UnknownAttribute("wght".to_string())));
    let input = vec![entry("Roboto", vec![bind("", Term::Other)])];
    assert_eq!(google_fonts_url(&input), Err(CompileError::UnknownAttribute(String::new())));
    let input = vec![entry("Roboto", vec![bind("Weights", Term::Array(Vec::new()))])];
    assert_eq!(google_fonts_url(&input), Err(CompileError::UnknownAttribute("Weights".to_string())));
}

#[test]
fn entry_without_a_name_is_refused() {
    assert_eq!(google_fonts_url(&vec![Term::Tuple(Vec::new())]), Err(CompileError::InvalidName));
}

#[test]
fn entry_whose_name_is_no_string_is_refused() {
    assert_eq!(
        google_fonts_url(&vec![Term::Tuple(vec![Term::Int(400)])]),
        Err(CompileError::InvalidName)
    );
    assert_eq!(
        google_fonts_url(&vec![Term::Tuple(vec![weights(vec![Term::Int(400)]), text("Roboto")])]),
        Err(CompileError::InvalidName)
    );
    assert_eq!(
        google_fonts_url(&vec![Term::Tuple(vec![Term::Other])]),
        Err(CompileError::InvalidName)
    );
}

#[test]
fn entry_that_is_no_tuple_is_refused() {
    assert_eq!(google_fonts_url(&vec![text("Roboto")]), Err(CompileError::InvalidName));
    assert_eq!(google_fonts_url(&vec![Term::Other]), Err(CompileError::InvalidName));
    assert_eq!(
        google_fonts_url(&vec![Term::Array(vec![text("Roboto")])]),
        Err(CompileError::InvalidName)
    );
}

#[test]
fn weight_that_is_neither_integer_nor_string_is_refused() {
    let input = vec![entry("Roboto", vec![weights(vec![Term::Int(400), Term::Other])])];
    assert_eq!(google_fonts_url(&input), Err(CompileError::InvalidWeight));
    let input = vec![entry("Roboto", vec![weights(vec![Term::Tuple(vec![Term::Int(400)])])])];
    assert_eq!(google_fonts_url(&input), Err(CompileError::InvalidWeight));
}

#[test]
fn italic_element_that_is_no_pair_of_integers_is_refused() {
    let cases = vec![
        Term::Int(400),
        Term::Tuple(vec![Term::Int(1)]),
        Term::Tuple(vec![Term::Int(1), Term::Int(400), Term::Int(700)]),
        Term::Tuple(vec![Term::Int(1), text("400")]),
        Term::Tuple(vec![text("1"), Term::Int(400)]),
        Term::Array(vec![Term::Int(1), Term::Int(400)]),
        Term::Tuple(Vec::new()),
    ];
    for case in cases {
        let list = Term::Array(vec![Term::Tuple(vec![Term::Int(0), Term::Int(400)]), case]);
        let input = vec![entry("Roboto", vec![bind("italics", list)])];
        assert_eq!(google_fonts_url(&input), Err(CompileError::InvalidItalicPair));
    }
}

#[test]
fn first_violation_wins() {
    let bad_weight = weights(vec![Term::Other]);
    let bad_pair = bind("italics", Term::Array(vec![Term::Int(1)]));
    let input = vec![entry("A", vec![bad_weight, bind("foo", Term::Other)])];
    assert_eq!(google_fonts_url(&input), Err(CompileError::InvalidWeight));
    let input = vec![entry("A", vec![bind("foo", Term::Other), weights(vec![Term::Other])])];
    assert_eq!(google_fonts_url(&input), Err(CompileError::UnknownAttribute("foo".to_string())));
    let input = vec![entry("A", vec![bad_pair]), Term::Tuple(Vec::new())];
    assert_eq!(google_fonts_url(&input), Err(CompileError::InvalidItalicPair));
    let input = vec![
        entry("A", vec![weights(vec![Term::Int(400)])]),
        Term::Tuple(Vec::new()),
        entry("C", vec![bind("bar", Term::Other)]),
    ];
    assert_eq!(google_fonts_url(&input), Err(CompileError::InvalidName));
}

#[test]
fn one_bad_entry_refuses_the_whole_request() {
    let input = vec![
        entry("A", vec![weights(vec![Term::Int(400)])]),
        entry("B", vec![weights(vec![Term::Int(700)])]),
        entry("C", vec![bind("stretch", Term::Array(Vec::new()))]),
    ];
    assert_eq!(google_fonts_url(&input), Err(CompileError::UnknownAttribute("stretch".to_string())));
}

#[test]
fn arguments_that_bind_nothing_are_passed_over() {
    let input = vec![entry(
        "Roboto",
        vec![Term::Int(7), text("bold"), Term::Other, weights(vec![Term::Int(400)]), Term::Array(Vec::new())],
    )];
    assert_eq!(
        google_fonts_url(&input),
        Ok("https://fonts.googleapis.com/css2?family=Roboto:wght@400&display=swap".to_string())
    );
}

#[test]
fn known_key_bound_to_no_list_contributes_nothing() {
    let input = vec![entry("Roboto", vec![bind("weights", Term::Int(400)), bind("italics", Term::Other)])];
    assert_eq!(
        google_fonts_url(&input),
        Ok("https://fonts.googleapis.com/css2?family=Roboto&display=swap".to_string())
    );
}

#[test]
fn repeated_attributes_add_up_in_order() {
    let input = vec![entry(
        "Inter",
        vec![
            weights(vec![Term::Int(700)]),
            weights(Vec::new()),
            weights(vec![text("100..300"), Term::Int(400)]),
        ],
    )];
    assert_eq!(
        google_fonts_url(&input),
        Ok("https://fonts.googleapis.com/css2?family=Inter:wght@700;100..300;400&display=swap"
            .to_string())
    );
    let input = vec![entry("Inter", vec![italics(&[(1, 700)]), italics(&[(0, 400)])])];
    assert_eq!(
        google_fonts_url(&input),
        Ok("https://fonts.googleapis.com/css2?family=Inter:ital,wght@1,700;0,400&display=swap"
            .to_string())
    );
}

#[test]
fn notation_italics_hide_weights() {
    let input = vec![entry(
        "Roboto",
        vec![weights(vec![Term::Int(100), Term::Int(900)]), italics(&[(0, 400), (1, 700)])],
    )];
    assert_eq!(
        google_fonts_url(&input),
        Ok("https://fonts.googleapis.com/css2?family=Roboto:ital,wght@0,400;1,700&display=swap"
            .to_string())
    );
}

#[test]
fn hidden_weights_are_still_checked() {
    let input = vec![entry("Roboto", vec![italics(&[(0, 400)]), weights(vec![Term::Other])])];
    assert_eq!(google_fonts_url(&input), Err(CompileError::InvalidWeight));
}

#[test]
fn empty_lists_leave_a_bare_family() {
    let input = vec![entry("Lato", vec![weights(Vec::new()), italics(&[])])];
    assert_eq!(
        google_fonts_url(&input),
        Ok("https://fonts.googleapis.com/css2?family=Lato&display=swap".to_string())
    );
    let input = vec![entry("Lato", Vec::new())];
    assert_eq!(
        google_fonts_url(&input),
        Ok("https://fonts.googleapis.com/css2?family=Lato&display=swap".to_string())
    );
}

#[test]
fn integers_are_rendered_in_decimal() {
    let input = vec![entry(
        "Roboto",
        vec![italics(&[(0, 0), (1, 18446744073709551615), (10, 1000)]), weights(vec![Term::Int(0)])],
    )];
    assert_eq!(
        google_fonts_url(&input),
        Ok("https://fonts.googleapis.com/css2?family=Roboto:ital,wght@0,0;1,18446744073709551615;10,1000&display=swap"
            .to_string())
    );
}

#[test]
fn decode_weights_gives_tokens() {
    let list = vec![Term::Int(400), text("100..900"), Term::Int(0), text("")];
    assert_eq!(
        decode_weights(&list),
        Ok(vec!["400".to_string(), "100..900".to_string(), "0".to_string(), String::new()])
    );
    assert_eq!(decode_weights(&Vec::new()), Ok(Vec::new()));
    assert_eq!(decode_weights(&vec![Term::Int(1), Term::Array(Vec::new())]), Err(CompileError::InvalidWeight));
}

#[test]
fn decode_italics_gives_pairs() {
    let list = vec![
        Term::Tuple(vec![Term::Int(0), Term::Int(400)]),
        Term::Tuple(vec![Term::Int(1), Term::Int(700)]),
    ];
    assert_eq!(decode_italics(&list), Ok(vec![(0, 400), (1, 700)]));
    assert_eq!(decode_italics(&Vec::new()), Ok(Vec::new()));
    assert_eq!(decode_italics(&vec![Term::Other]), Err(CompileError::InvalidItalicPair));
}

#[test]
fn decode_attribute_adds_to_the_family() {
    let mut family = FamilyRequest {
        name: "Inter".to_string(),
        weights: vec!["300".to_string()],
        italics: vec![(0, 300)],
    };
    assert_eq!(decode_attribute(&weights(vec![Term::Int(400)]), &mut family), Ok(()));
    assert_eq!(decode_attribute(&italics(&[(1, 400)]), &mut family), Ok(()));
    assert_eq!(decode_attribute(&Term::Int(5), &mut family), Ok(()));
    assert_eq!(
        family,
        FamilyRequest {
            name: "Inter".to_string(),
            weights: vec!["300".to_string(), "400".to_string()],
            italics: vec![(0, 300), (1, 400)],
        }
    );
}

#[test]
fn refused_attribute_leaves_the_family_as_it_was() {
    let before = FamilyRequest {
        name: "Inter".to_string(),
        weights: vec!["300".to_string()],
        italics: vec![(0, 300)],
    };
    let mut family = before.clone();
    assert_eq!(
        decode_attribute(&weights(vec![Term::Int(400), Term::Other]), &mut family),
        Err(CompileError::InvalidWeight)
    );
    assert_eq!(family, before);
    assert_eq!(
        decode_attribute(&bind("italics", Term::Array(vec![Term::Int(1)])), &mut family),
        Err(CompileError::InvalidItalicPair)
    );
    assert_eq!(family, before);
    assert_eq!(
        decode_attribute(&bind("slant", Term::Array(Vec::new())), &mut family),
        Err(CompileError::UnknownAttribute("slant".to_string()))
    );
    assert_eq!(family, before);
}

#[test]
fn decode_family_reads_name_and_attributes() {
    let term = entry("Open Sans", vec![weights(vec![Term::Int(400), text("600")]), italics(&[(1, 400)])]);
    assert_eq!(
        decode_family(&term),
        Ok(FamilyRequest {
            name: "Open Sans".to_string(),
            weights: vec!["400".to_string(), "600".to_string()],
            italics: vec![(1, 400)],
        })
    );
    assert_eq!(decode_family(&Term::Other), Err(CompileError::InvalidName));
}

#[test]
fn decode_reads_every_entry_in_order() {
    let input = vec![entry("B", Vec::new()), entry("A", vec![weights(vec![Term::Int(1)])])];
    assert_eq!(
        decode(&input),
        Ok(vec![
            FamilyRequest { name: "B".to_string(), weights: Vec::new(), italics: Vec::new() },
            FamilyRequest { name: "A".to_string(), weights: vec!["1".to_string()], italics: Vec::new() },
        ])
    );
    assert_eq!(decode(&Vec::new()), Ok(Vec::new()));
    assert_eq!(decode(&vec![entry("B", Vec::new()), Term::Other]), Err(CompileError::InvalidName));
}
