//! Rendering of typed requests into the query string of the stylesheet URL.

use vstd::prelude::*;
use vstd::string::*;
use crate::decimal::{decimal, is_digit, lemma_decimal_digits, push_decimal};
use crate::error::{outcome, CompileError, Violation};
use crate::request::{families, pair_of, Family, FamilyRequest};
use crate::text::{join, joined, lemma_joined_chars, lemma_joined_layout, start_of, texts};

verus! {

/// The endpoint of the stylesheet service, up to and including the `?`.
pub open spec fn endpoint() -> Seq<char> {
    "https://fonts.googleapis.com/css2?"@
}

/// The fixed last parameter of every URL.
pub open spec fn display_suffix() -> Seq<char> {
    "&display=swap"@
}

/// A family name as it stands in the URL: each space becomes `+`, every
/// other character stays as it is.
pub open spec fn normalized(name: Seq<char>) -> Seq<char> {
    name.map_values(|c: char| if c == ' ' { '+' } else { c })
}

/// One italic pair as it stands in the URL: flag, comma, weight.
pub open spec fn italic_token(pair: (nat, nat)) -> Seq<char> {
    decimal(pair.0) + ","@ + decimal(pair.1)
}

/// The tokens of all italic pairs, in order.
pub open spec fn italic_tokens(italics: Seq<(nat, nat)>) -> Seq<Seq<char>> {
    italics.map_values(|p: (nat, nat)| italic_token(p))
}

/// The part of a family's fragment that selects weights and italics.
/// Italic pairs take precedence: where there is one, the weights are left
/// out. Where there is neither, the style is empty.
pub open spec fn style_fragment(family: Family) -> Seq<char> {
    if family.italics.len() > 0 {
        "ital,wght@"@ + joined(italic_tokens(family.italics), ";"@)
    } else if family.weights.len() > 0 {
        "wght@"@ + joined(family.weights, ";"@)
    } else {
        Seq::empty()
    }
}

/// One family's parameter of the query string. The colon stands only
/// before a style that is not empty.
pub open spec fn family_fragment(family: Family) -> Seq<char> {
    if style_fragment(family).len() == 0 {
        "family="@ + normalized(family.name)
    } else {
        "family="@ + normalized(family.name) + ":"@ + style_fragment(family)
    }
}

/// The fragments of all families, in order.
pub open spec fn fragments(request: Seq<Family>) -> Seq<Seq<char>> {
    request.map_values(|f: Family| family_fragment(f))
}

/// The URL for a request: the endpoint, the families' fragments in the
/// request's order with `&` between them, and the display parameter.
pub open spec fn url(request: Seq<Family>) -> Seq<char> {
    endpoint() + joined(fragments(request), "&"@) + display_suffix()
}

/// What compiling a request gives: a request without any family is
/// refused, every other request has its URL.
pub open spec fn compiled(request: Seq<Family>) -> Result<Seq<char>, Violation> {
    if request.len() == 0 {
        Err(Violation::EmptyInput)
    } else {
        Ok(url(request))
    }
}

/// Replaces each space of `name` by `+`.
pub fn normalize_name(name: &str) -> (out: String)
    ensures
        out@ == normalized(name@),
{
    let mut out = String::new();
    let chars = name.chars();
    for c in it: chars
        invariant
            it.seq() == name@,
            out@ == normalized(name@.take(it.index())),
    {
        if c == ' ' {
            out.push('+');
        } else {
            out.push(c);
        }
    }
    out
}

/// Renders the italic pairs as tokens, in order.
pub fn render_italic_tokens(italics: &Vec<(u64, u64)>) -> (tokens: Vec<String>)
    ensures
        texts(tokens@) == italic_tokens(italics@.map_values(|p: (u64, u64)| pair_of(p))),
{
    let ghost pairs = italics@.map_values(|p: (u64, u64)| pair_of(p));
    let mut tokens: Vec<String> = Vec::new();
    let n = italics.len();
    let mut i: usize = 0;
    while i < n
        invariant
            n == italics.len(),
            i <= n,
            pairs == italics@.map_values(|p: (u64, u64)| pair_of(p)),
            texts(tokens@) == italic_tokens(pairs.take(i as int)),
        decreases n - i,
    {
        let pair = italics[i];
        let mut token = String::new();
        push_decimal(&mut token, pair.0);
        token.append(",");
        push_decimal(&mut token, pair.1);
        tokens.push(token);
        assert(italic_tokens(pairs.take(i + 1)) == italic_tokens(pairs.take(i as int)).push(
            italic_token(pairs[i as int]),
        ));
        i += 1;
    }
    tokens
}

/// Renders the style of one family.
pub fn render_style(family: &FamilyRequest) -> (out: String)
    ensures
        out@ == style_fragment(family@),
{
    if family.italics.len() > 0 {
        let tokens = render_italic_tokens(&family.italics);
        let body = join(&tokens, ";");
        let mut out = String::from_str("ital,wght@");
        out.append(body.as_str());
        out
    } else if family.weights.len() > 0 {
        let body = join(&family.weights, ";");
        let mut out = String::from_str("wght@");
        out.append(body.as_str());
        out
    } else {
        String::new()
    }
}

/// Renders the fragment of one family.
pub fn render_family(family: &FamilyRequest) -> (out: String)
    ensures
        out@ == family_fragment(family@),
{
    let name = normalize_name(family.name.as_str());
    let style = render_style(family);
    let mut out = String::from_str("family=");
    out.append(name.as_str());
    if !style.as_str().is_empty() {
        out.append(":");
        out.append(style.as_str());
    }
    out
}

/// Compiles a request into the URL of its stylesheet.
///
/// A request without any family is refused with
/// [`CompileError::EmptyInput`]; every other request is rendered.
pub fn compile(requests: &Vec<FamilyRequest>) -> (result: Result<String, CompileError>)
    ensures
        outcome(result) == compiled(families(requests@)),
        result is Ok <==> requests@.len() > 0,
        result matches Ok(out) ==> endpoint().is_prefix_of(out@) && display_suffix().is_suffix_of(
            out@,
        ),
{
    let n = requests.len();
    if n == 0 {
        return Err(CompileError::EmptyInput);
    }
    let mut parts: Vec<String> = Vec::new();
    let mut i: usize = 0;
    while i < n
        invariant
            n == requests.len(),
            i <= n,
            texts(parts@) == fragments(families(requests@.take(i as int))),
        decreases n - i,
    {
        let part = render_family(&requests[i]);
        parts.push(part);
        assert(fragments(families(requests@.take(i + 1))) == fragments(
            families(requests@.take(i as int)),
        ).push(family_fragment(requests@[i as int]@)));
        i += 1;
    }
    assert(requests@.take(n as int) == requests@);
    let body = join(&parts, "&");
    let mut out = String::from_str("https://fonts.googleapis.com/css2?");
    out.append(body.as_str());
    out.append("&display=swap");
    Ok(out)
}

/// Every URL starts with the endpoint and ends with the display
/// parameter, and a request that names a family always has its URL.
pub proof fn lemma_url_frame(request: Seq<Family>)
    ensures
        endpoint().is_prefix_of(url(request)),
        display_suffix().is_suffix_of(url(request)),
        request.len() > 0 ==> compiled(request) == Ok::<Seq<char>, Violation>(url(request)),
{
}

/// The fragments stand in the URL in the request's order: the fragment of
/// family `i` stands, whole, behind the endpoint, the fragments before it
/// and one `&` for each of them. Behind it comes exactly one `&` and the
/// next fragment, or, behind the last, the display parameter.
pub proof fn lemma_fragments_in_order(request: Seq<Family>, i: int)
    requires
        0 <= i < request.len(),
    ensures
        ({
            let fragment = family_fragment(request[i]);
            let at = endpoint().len() + start_of(fragments(request), "&"@, i);
            let next = endpoint().len() + start_of(fragments(request), "&"@, i + 1);
            &&& endpoint().len() <= at
            &&& at + fragment.len() <= url(request).len()
            &&& url(request).subrange(at, at + fragment.len()) == fragment
            &&& i + 1 < request.len() ==> next == at + fragment.len() + 1 && url(request).subrange(
                at + fragment.len(),
                next,
            ) == "&"@
            &&& i + 1 == request.len() ==> url(request).subrange(
                at + fragment.len(),
                url(request).len() as int,
            ) == display_suffix()
        }),
{
    reveal_strlit("&");
    let parts = fragments(request);
    lemma_joined_layout(parts, "&"@, i);
    if i + 1 < request.len() {
        lemma_joined_layout(parts, "&"@, i + 1);
    }
}

/// Whether `c` can stand in the rendering of italic pairs: a digit, the
/// comma inside a pair, or the semicolon between two pairs.
pub open spec fn is_pair_char(c: char) -> bool {
    is_digit(c) || c == ',' || c == ';'
}

/// The rendering of italic pairs holds nothing but digits, commas and
/// semicolons.
pub proof fn lemma_italic_tokens_chars(italics: Seq<(nat, nat)>)
    ensures
        forall|k: int|
            0 <= k < joined(italic_tokens(italics), ";"@).len() ==> is_pair_char(
                #[trigger] joined(italic_tokens(italics), ";"@)[k],
            ),
{
    reveal_strlit(",");
    reveal_strlit(";");
    let tokens = italic_tokens(italics);
    assert forall|i: int, k: int|
        0 <= i < tokens.len() && 0 <= k < tokens[i].len() implies is_pair_char(
        #[trigger] tokens[i][k],
    ) by {
        lemma_decimal_digits(italics[i].0);
        lemma_decimal_digits(italics[i].1);
        let flag = decimal(italics[i].0);
        if k < flag.len() {
            assert(tokens[i][k] == flag[k]);
        } else if k > flag.len() {
            assert(tokens[i][k] == decimal(italics[i].1)[k - flag.len() - 1]);
        }
    }
    lemma_joined_chars(tokens, ";"@, |c: char| is_pair_char(c));
}

/// With at least one italic pair, the style is `ital,wght@` and the pairs,
/// and `wght@` stands in it once only, directly behind `ital,`.
pub proof fn lemma_italic_style(family: Family)
    requires
        family.italics.len() > 0,
    ensures
        style_fragment(family) == "ital,wght@"@ + joined(italic_tokens(family.italics), ";"@),
        "ital,"@ + "wght@"@ == "ital,wght@"@,
        forall|i: int|
            0 <= i && i + 5 <= style_fragment(family).len() && #[trigger] style_fragment(
                family,
            ).subrange(i, i + 5) == "wght@"@ ==> i == 5,
{
    reveal_strlit("ital,wght@");
    reveal_strlit("ital,");
    reveal_strlit("wght@");
    let style = style_fragment(family);
    let body = joined(italic_tokens(family.italics), ";"@);
    lemma_italic_tokens_chars(family.italics);
    assert forall|i: int|
        0 <= i && i + 5 <= style.len() && #[trigger] style.subrange(i, i + 5) == "wght@"@ implies i
        == 5 by {
        assert(style.subrange(i, i + 5)[0] == 'w');
        if i >= 10 {
            assert(style[i] == body[i - 10]);
        }
    }
}

/// With at least one italic pair, the weights have no effect: two families
/// of one name and the same pairs have the same fragment.
pub proof fn lemma_italics_hide_weights(family: Family, other: Family)
    requires
        family.italics.len() > 0,
        other.name == family.name,
        other.italics == family.italics,
    ensures
        style_fragment(other) == style_fragment(family),
        family_fragment(other) == family_fragment(family),
{
}

/// The URL of a request does not change where a family with at least one
/// italic pair gets other weights.
pub proof fn lemma_url_hides_weights(request: Seq<Family>, i: int, other: Family)
    requires
        0 <= i < request.len(),
        request[i].italics.len() > 0,
        other.name == request[i].name,
        other.italics == request[i].italics,
    ensures
        url(request.update(i, other)) == url(request),
{
    assert(fragments(request.update(i, other)) =~= fragments(request));
}

/// Without italic pairs and with at least one weight, the style is `wght@`
/// and the weights in their order, with `;` between them.
pub proof fn lemma_weights_style(family: Family)
    requires
        family.italics.len() == 0,
        family.weights.len() > 0,
    ensures
        style_fragment(family) == "wght@"@ + joined(family.weights, ";"@),
        family_fragment(family) == "family="@ + normalized(family.name) + ":"@ + "wght@"@ + joined(
            family.weights,
            ";"@,
        ),
{
    reveal_strlit("wght@");
}

/// Without italic pairs and without weights, the fragment is `family=` and
/// the name, with nothing behind it.
pub proof fn lemma_bare_family(family: Family)
    requires
        family.italics.len() == 0,
        family.weights.len() == 0,
    ensures
        family_fragment(family) == "family="@ + normalized(family.name),
{
}

/// Normalizing keeps the length and every character but the spaces, and
/// leaves no space.
pub proof fn lemma_normalized(name: Seq<char>)
    ensures
        normalized(name).len() == name.len(),
        forall|i: int|
            0 <= i < name.len() ==> #[trigger] normalized(name)[i] == if name[i] == ' ' {
                '+'
            } else {
                name[i]
            },
        forall|i: int| 0 <= i < name.len() ==> #[trigger] normalized(name)[i] != ' ',
{
}

} // verus!
