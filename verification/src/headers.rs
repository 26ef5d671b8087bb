//! The headers of HTTP messages, held in the `rhymessage` crate's
//! collection, and comparisons of header text that ignore ASCII case.

use vstd::prelude::*;
use vstd::utf8::encode_utf8;
use rhymessage::MessageHeaders;

verus! {

/// The collection of headers of the `rhymessage` crate.
#[verifier::external_type_specification]
#[verifier::external_body]
pub struct ExMessageHeaders(rhymessage::MessageHeaders);

/// The headers held in `headers`, in order, each as its name and value.
pub uninterp spec fn header_list(headers: MessageHeaders) -> Seq<(Seq<char>, Seq<char>)>;

/// An octet lowered to ASCII lower case.
pub open spec fn ascii_lower_byte(b: u8) -> u8 {
    if 0x41 <= b <= 0x5a {
        (b + 0x20) as u8
    } else {
        b
    }
}

/// A character lowered to ASCII lower case.
pub open spec fn ascii_lower_char(c: char) -> char {
    if 'A' <= c <= 'Z' {
        ((c as u32) + 32) as char
    } else {
        c
    }
}

/// `text` with each ASCII capital lowered.
pub open spec fn ascii_lowercase(text: Seq<char>) -> Seq<char> {
    text.map_values(|c: char| ascii_lower_char(c))
}

/// The two texts are equal when ASCII letters are compared regardless of
/// case (octet by octet, as `str::eq_ignore_ascii_case` compares them).
pub open spec fn eq_ignoring_ascii_case(a: Seq<char>, b: Seq<char>) -> bool {
    let x = encode_utf8(a);
    let y = encode_utf8(b);
    &&& x.len() == y.len()
    &&& forall|i: int| 0 <= i < x.len() ==> ascii_lower_byte(x[i]) == ascii_lower_byte(y[i])
}

/// Compares two texts regardless of the case of ASCII letters.
pub fn eq_ignore_ascii_case(a: &str, b: &str) -> (equal: bool)
    ensures
        equal == eq_ignoring_ascii_case(a@, b@),
{
    let x = a.as_bytes();
    let y = b.as_bytes();
    if x.len() != y.len() {
        return false;
    }
    let mut i: usize = 0;
    while i < x.len()
        invariant
            x@ == encode_utf8(a@),
            y@ == encode_utf8(b@),
            x@.len() == y@.len(),
            i <= x@.len(),
            forall|j: int| 0 <= j < i ==> ascii_lower_byte(x@[j]) == ascii_lower_byte(y@[j]),
        decreases x@.len() - i,
    {
        let p = x[i];
        let q = y[i];
        let lp = if 0x41 <= p && p <= 0x5a {
            p + 0x20
        } else {
            p
        };
        let lq = if 0x41 <= q && q <= 0x5a {
            q + 0x20
        } else {
            q
        };
        if lp != lq {
            return false;
        }
        i = i + 1;
    }
    true
}

/// The list of headers after setting the header `name` to `value`, as
/// `MessageHeaders::set_header` does: the first header with that name (in
/// any ASCII case) takes the value and the later ones are dropped; with no
/// such header, one is appended.
pub open spec fn with_header_set(
    list: Seq<(Seq<char>, Seq<char>)>,
    name: Seq<char>,
    value: Seq<char>,
) -> Seq<(Seq<char>, Seq<char>)> {
    if exists|i: int| 0 <= i < list.len() && eq_ignoring_ascii_case(#[trigger] list[i].0, name) {
        replace_first_drop_rest(list, name, value)
    } else {
        list.push((name, value))
    }
}

/// `list` with the value of the first header named `name` replaced, and the
/// later headers of that name removed.
pub open spec fn replace_first_drop_rest(
    list: Seq<(Seq<char>, Seq<char>)>,
    name: Seq<char>,
    value: Seq<char>,
) -> Seq<(Seq<char>, Seq<char>)>
    decreases list.len(),
{
    if list.len() == 0 {
        seq![]
    } else if eq_ignoring_ascii_case(list[0].0, name) {
        seq![(list[0].0, value)] + list.drop_first().filter(
            |h: (Seq<char>, Seq<char>)| !eq_ignoring_ascii_case(h.0, name),
        )
    } else {
        seq![list[0]] + replace_first_drop_rest(list.drop_first(), name, value)
    }
}

/// The values of the headers named `name` after `list`, joined by commas
/// onto `joined`.
pub open spec fn join_values_from(
    list: Seq<(Seq<char>, Seq<char>)>,
    name: Seq<char>,
    joined: Option<Seq<char>>,
) -> Option<Seq<char>>
    decreases list.len(),
{
    if list.len() == 0 {
        joined
    } else {
        let next = if eq_ignoring_ascii_case(list[0].0, name) {
            match joined {
                None => Some(list[0].1),
                Some(j) => Some(j + seq![','] + list[0].1),
            }
        } else {
            joined
        };
        join_values_from(list.drop_first(), name, next)
    }
}

/// The value of the header `name`, as `MessageHeaders::header_value` gives
/// it: `None` without such a header, else the values of all the headers of
/// that name joined by commas.
pub open spec fn header_value_of(list: Seq<(Seq<char>, Seq<char>)>, name: Seq<char>) -> Option<
    Seq<char>,
> {
    join_values_from(list, name, None)
}

/// A character with the Unicode `White_Space` property, which `str::trim`
/// removes.
pub open spec fn is_unicode_whitespace(c: char) -> bool {
    ||| '\u{9}' <= c <= '\u{d}'
    ||| c == ' '
    ||| c == '\u{85}'
    ||| c == '\u{a0}'
    ||| c == '\u{1680}'
    ||| '\u{2000}' <= c <= '\u{200a}'
    ||| c == '\u{2028}'
    ||| c == '\u{2029}'
    ||| c == '\u{202f}'
    ||| c == '\u{205f}'
    ||| c == '\u{3000}'
}

/// `text` without its leading whitespace.
pub open spec fn trim_start(text: Seq<char>) -> Seq<char>
    decreases text.len(),
{
    if text.len() > 0 && is_unicode_whitespace(text[0]) {
        trim_start(text.drop_first())
    } else {
        text
    }
}

/// `text` without its trailing whitespace.
pub open spec fn trim_end(text: Seq<char>) -> Seq<char>
    decreases text.len(),
{
    if text.len() > 0 && is_unicode_whitespace(text.last()) {
        trim_end(text.drop_last())
    } else {
        text
    }
}

/// `text` without its leading and trailing whitespace, as `str::trim`
/// gives it.
pub open spec fn trim(text: Seq<char>) -> Seq<char> {
    trim_end(trim_start(text))
}

/// The pieces of `text` between commas, as `str::split(',')` gives them:
/// always at least one.
pub open spec fn split_commas(text: Seq<char>) -> Seq<Seq<char>>
    decreases text.len(),
{
    if text.len() == 0 {
        seq![seq![]]
    } else {
        let rest = split_commas(text.drop_first());
        if text[0] == ',' {
            seq![seq![]] + rest
        } else {
            rest.update(0, seq![text[0]] + rest[0])
        }
    }
}

/// The pieces of `text` between commas without an empty last piece, as
/// `str::split_terminator(',')` gives them.
pub open spec fn split_terminator_commas(text: Seq<char>) -> Seq<Seq<char>> {
    let pieces = split_commas(text);
    if pieces.last().len() == 0 {
        pieces.drop_last()
    } else {
        pieces
    }
}

/// The tokens of one header value: its comma-separated pieces, trimmed and
/// lowered to ASCII lower case.
pub open spec fn value_tokens(value: Seq<char>) -> Seq<Seq<char>> {
    split_terminator_commas(value).map_values(|piece: Seq<char>| ascii_lowercase(trim(piece)))
}

/// The tokens of all the headers named `name` in `list`, in order, as
/// `MessageHeaders::header_tokens` gives them.
pub open spec fn header_tokens_of(list: Seq<(Seq<char>, Seq<char>)>, name: Seq<char>) -> Seq<
    Seq<char>,
>
    decreases list.len(),
{
    if list.len() == 0 {
        seq![]
    } else {
        (if eq_ignoring_ascii_case(list[0].0, name) {
            value_tokens(list[0].1)
        } else {
            seq![]
        }) + header_tokens_of(list.drop_first(), name)
    }
}

/// Every character of `text` is ASCII.
pub open spec fn all_ascii(text: Seq<char>) -> bool {
    forall|i: int| 0 <= i < text.len() ==> (#[trigger] text[i] as u32) < 128
}

/// An ASCII text is encoded in UTF-8 with one octet per character.
pub proof fn lemma_ascii_utf8_len(text: Seq<char>)
    requires
        all_ascii(text),
    ensures
        encode_utf8(text).len() == text.len(),
    decreases text.len(),
{
    if text.len() > 0 {
        assert(all_ascii(text.drop_first())) by {
            assert forall|i: int| 0 <= i < text.drop_first().len() implies (
            #[trigger] text.drop_first()[i] as u32) < 128 by {
                assert(text.drop_first()[i] == text[i + 1]);
            }
        }
        lemma_ascii_utf8_len(text.drop_first());
        assert((text[0] as u32) < 128);
    }
}

/// Two ASCII names of different lengths never match.
pub proof fn lemma_names_differ(a: Seq<char>, b: Seq<char>)
    requires
        all_ascii(a),
        all_ascii(b),
        a.len() != b.len(),
    ensures
        !eq_ignoring_ascii_case(a, b),
        !eq_ignoring_ascii_case(b, a),
{
    lemma_ascii_utf8_len(a);
    lemma_ascii_utf8_len(b);
}

/// Setting a header that is not there yet appends it.
pub proof fn lemma_set_new_header(
    list: Seq<(Seq<char>, Seq<char>)>,
    name: Seq<char>,
    value: Seq<char>,
)
    requires
        forall|i: int| 0 <= i < list.len() ==> !eq_ignoring_ascii_case(#[trigger] list[i].0, name),
    ensures
        with_header_set(list, name, value) == list.push((name, value)),
{
}

/// The tokens after one more header are those before it, followed by the
/// new header's tokens when it has the name.
pub proof fn lemma_tokens_push(
    list: Seq<(Seq<char>, Seq<char>)>,
    header: (Seq<char>, Seq<char>),
    name: Seq<char>,
)
    ensures
        header_tokens_of(list.push(header), name) == header_tokens_of(list, name) + (
        if eq_ignoring_ascii_case(header.0, name) {
            value_tokens(header.1)
        } else {
            seq![]
        }),
    decreases list.len(),
{
    let extra = if eq_ignoring_ascii_case(header.0, name) {
        value_tokens(header.1)
    } else {
        Seq::<Seq<char>>::empty()
    };
    if list.len() == 0 {
        assert(list.push(header).drop_first() =~= Seq::<(Seq<char>, Seq<char>)>::empty());
        assert(header_tokens_of(Seq::<(Seq<char>, Seq<char>)>::empty(), name) =~= seq![]);
        assert(extra + Seq::<Seq<char>>::empty() =~= extra);
        assert(Seq::<Seq<char>>::empty() + extra =~= extra);
    } else {
        lemma_tokens_push(list.drop_first(), header, name);
        assert(list.push(header).drop_first() =~= list.drop_first().push(header));
        let first = if eq_ignoring_ascii_case(list[0].0, name) {
            value_tokens(list[0].1)
        } else {
            Seq::<Seq<char>>::empty()
        };
        assert(first + (header_tokens_of(list.drop_first(), name) + extra) =~= (first
            + header_tokens_of(list.drop_first(), name)) + extra);
    }
}

/// The joined value after one more header is the one before it, with the
/// new header's value joined on when it has the name.
pub proof fn lemma_join_push(
    list: Seq<(Seq<char>, Seq<char>)>,
    header: (Seq<char>, Seq<char>),
    name: Seq<char>,
    joined: Option<Seq<char>>,
)
    ensures
        join_values_from(list.push(header), name, joined) == (if eq_ignoring_ascii_case(
            header.0,
            name,
        ) {
            match join_values_from(list, name, joined) {
                None => Some(header.1),
                Some(j) => Some(j + seq![','] + header.1),
            }
        } else {
            join_values_from(list, name, joined)
        }),
    decreases list.len(),
{
    if list.len() == 0 {
        let next = if eq_ignoring_ascii_case(header.0, name) {
            match joined {
                None => Some(header.1),
                Some(j) => Some(j + seq![','] + header.1),
            }
        } else {
            joined
        };
        assert(list.push(header).drop_first() =~= Seq::<(Seq<char>, Seq<char>)>::empty());
        assert(list.push(header)[0] == header);
        assert(join_values_from(Seq::<(Seq<char>, Seq<char>)>::empty(), name, next) == next);
        assert(join_values_from(list, name, joined) == joined);
    } else {
        assert(list.push(header).drop_first() =~= list.drop_first().push(header));
        assert(list.push(header)[0] == list[0]);
        let next = if eq_ignoring_ascii_case(list[0].0, name) {
            match joined {
                None => Some(list[0].1),
                Some(j) => Some(j + seq![','] + list[0].1),
            }
        } else {
            joined
        };
        lemma_join_push(list.drop_first(), header, name, next);
    }
}

/// A text with no comma and no whitespace at either end is a single token:
/// itself, lowered to ASCII lower case.
pub proof fn lemma_single_token(value: Seq<char>)
    requires
        value.len() > 0,
        !value.contains(','),
        !is_unicode_whitespace(value[0]),
        !is_unicode_whitespace(value.last()),
    ensures
        value_tokens(value) == seq![ascii_lowercase(value)],
{
    lemma_split_without_comma(value);
    assert(trim_start(value) == value);
    assert(trim_end(value) == value);
    assert(split_terminator_commas(value) == seq![value]);
    assert(value_tokens(value) =~= seq![ascii_lowercase(value)]);
}

/// A text with no comma splits into itself alone.
proof fn lemma_split_without_comma(value: Seq<char>)
    requires
        !value.contains(','),
    ensures
        split_commas(value) == seq![value],
    decreases value.len(),
{
    if value.len() == 0 {
        assert(value =~= Seq::<char>::empty());
    } else {
        assert(!value.drop_first().contains(',')) by {
            if value.drop_first().contains(',') {
                let i = choose|i: int|
                    0 <= i < value.drop_first().len() && value.drop_first()[i] == ',';
                assert(value[i + 1] == ',');
            }
        }
        lemma_split_without_comma(value.drop_first());
        assert(value[0] != ',');
        assert(seq![value[0]] + value.drop_first() =~= value);
        assert(split_commas(value) =~= seq![value]);
    }
}

/// Calls `MessageHeaders::new`, which holds no headers.
#[verifier::external_body]
pub(crate) fn new_headers() -> (headers: MessageHeaders)
    ensures
        header_list(headers) == Seq::<(Seq<char>, Seq<char>)>::empty(),
{
    MessageHeaders::new()
}

/// Calls `MessageHeaders::set_header`, which (per its source) gives the
/// value to the first header of that name, drops the others, or appends the
/// header when there is none.
#[verifier::external_body]
pub(crate) fn set_header(headers: &mut MessageHeaders, name: &str, value: &str)
    ensures
        header_list(*final(headers)) == with_header_set(header_list(*old(headers)), name@, value@),
{
    headers.set_header(name, value)
}

/// Calls `MessageHeaders::header_value`, which (per its source) joins the
/// values of all the headers of that name with commas, or gives `None`.
#[verifier::external_body]
pub(crate) fn header_value(headers: &MessageHeaders, name: &str) -> (value: Option<String>)
    ensures
        match value {
            Some(v) => header_value_of(header_list(*headers), name@) == Some(v@),
            None => header_value_of(header_list(*headers), name@) is None,
        },
{
    headers.header_value(name)
}

/// Calls `MessageHeaders::header_tokens`, which (per its source) splits the
/// values of the headers of that name at commas (dropping an empty last
/// piece), trims each piece and lowers it to ASCII lower case.
#[verifier::external_body]
pub(crate) fn header_tokens(headers: &MessageHeaders, name: &str) -> (tokens: Vec<String>)
    ensures
        tokens@.map_values(|t: String| t@) == header_tokens_of(header_list(*headers), name@),
{
    headers.header_tokens(name)
}

/// Calls `MessageHeaders::has_header_token`, which (per its source) tells
/// whether the token, lowered to ASCII lower case, is among the header's
/// tokens.
#[verifier::external_body]
pub(crate) fn has_header_token(headers: &MessageHeaders, name: &str, token: &str) -> (found: bool)
    ensures
        found == header_tokens_of(header_list(*headers), name@).contains(ascii_lowercase(token@)),
{
    headers.has_header_token(name, token)
}

} // verus!
