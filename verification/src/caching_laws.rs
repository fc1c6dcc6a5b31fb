//! Laws of conditional requests: what a client that sends back an entity tag is answered.

use vstd::prelude::*;
use crate::caching::{cache_control_for, all_tags, tags_of, directives, disables_cache, hex_lower, hex_char, blake3_digest};
use crate::strings::{split_commas, trim, is_white_space, leading_ws, trailing_ws, trimmed};

verus! {

broadcast use vstd::seq::group_seq_axioms;

/// A text without commas is a single piece.
proof fn lemma_split_without_comma(s: Seq<char>)
    requires
        forall|k: int| 0 <= k < s.len() ==> #[trigger] s[k] != ',',
    ensures
        split_commas(s) == seq![s],
    decreases s.len(),
{
    if s.len() > 0 {
        let t = s.drop_last();
        assert forall|k: int| 0 <= k < t.len() implies #[trigger] t[k] != ',' by {
            assert(t[k] == s[k]);
        }
        lemma_split_without_comma(t);
        assert(s[s.len() - 1] != ',');
        assert(t.push(s.last()) =~= s);
        assert(split_commas(s) =~= seq![s]);
    } else {
        assert(s =~= Seq::<char>::empty());
    }
}

/// A text that neither starts nor ends with white space is its own trimmed form.
proof fn lemma_trim_without_outer_space(s: Seq<char>)
    requires
        s.len() > 0 ==> !is_white_space(s[0]) && !is_white_space(s.last()),
    ensures
        trim(s) == s,
{
    assert(leading_ws(s) == 0);
    assert(s.skip(0) =~= s);
    assert(trailing_ws(s) == 0);
    assert(s.take(s.len() as int) =~= s);
}

/// A tag among the values of one header is among the tags of all of them.
proof fn lemma_all_tags_has(values: Seq<Seq<char>>, i: int, x: Seq<char>)
    requires
        0 <= i < values.len(),
        tags_of(values[i]).contains(x),
    ensures
        all_tags(values).contains(x),
    decreases values.len(),
{
    if i < values.len() - 1 {
        assert(values.drop_last()[i] == values[i]);
        lemma_all_tags_has(values.drop_last(), i, x);
    }
}

/// Whether a character is a lowercase hexadecimal digit.
pub open spec fn is_lower_hex_digit(c: char) -> bool {
    ('0' <= c <= '9') || ('a' <= c <= 'f')
}

proof fn lemma_hex_char(n: int)
    requires
        0 <= n < 16,
    ensures
        is_lower_hex_digit(hex_char(n)),
{
}

/// The entity tag of a body is lowercase hexadecimal: two digits for each byte of the body's
/// BLAKE3 digest.
pub proof fn law_body_etag_is_hexadecimal(body: Seq<u8>)
    ensures
        hex_lower(blake3_digest(body)).len() == 2 * blake3_digest(body).len(),
        forall|k: int|
            0 <= k < hex_lower(blake3_digest(body)).len() ==> is_lower_hex_digit(
                #[trigger] hex_lower(blake3_digest(body))[k],
            ),
{
    lemma_hex_lower_digits(blake3_digest(body));
}

proof fn lemma_hex_lower_digits(b: Seq<u8>)
    ensures
        hex_lower(b).len() == 2 * b.len(),
        forall|k: int| 0 <= k < hex_lower(b).len() ==> is_lower_hex_digit(#[trigger] hex_lower(b)[k]),
    decreases b.len(),
{
    if b.len() > 0 {
        let p = b.drop_last();
        lemma_hex_lower_digits(p);
        lemma_hex_char(b.last() as int / 16);
        lemma_hex_char(b.last() as int % 16);
        let tail = seq![hex_char(b.last() as int / 16), hex_char(b.last() as int % 16)];
        assert forall|k: int| 0 <= k < hex_lower(b).len() implies is_lower_hex_digit(
            #[trigger] hex_lower(b)[k],
        ) by {
            if k < hex_lower(p).len() {
                assert(hex_lower(b)[k] == hex_lower(p)[k]);
            } else {
                assert(hex_lower(b)[k] == tail[k - hex_lower(p).len()]);
            }
        }
    }
}

/// A client that sends back, among its `If-None-Match` values, a tag it was given (a text
/// without commas that neither starts nor ends with white space) holds that tag for the cache,
/// unless one of its `Cache-Control` directives asks for a fresh response: a response with that
/// tag is then answered "not modified".
pub proof fn law_returned_tag_is_held(
    header: Option<Seq<char>>,
    values: Seq<Seq<char>>,
    i: int,
    tag: Seq<char>,
)
    requires
        0 <= i < values.len(),
        values[i] == tag,
        forall|k: int| 0 <= k < tag.len() ==> #[trigger] tag[k] != ',',
        tag.len() > 0 ==> !is_white_space(tag[0]) && !is_white_space(tag.last()),
        forall|k: int| 0 <= k < directives(header).len() ==> !disables_cache(#[trigger] directives(header)[k]),
    ensures
        cache_control_for(header, values) matches Some(tags) && tags.contains(tag),
{
    lemma_split_without_comma(tag);
    lemma_trim_without_outer_space(tag);
    assert(split_commas(tag)[0] == tag);
    assert(tags_of(tag).contains(tag));
    lemma_all_tags_has(values, i, tag);
}

/// A client that sends back the entity tag of a body in an `If-None-Match` value, without asking
/// for a fresh response, is answered "not modified" for a response with that body.
pub proof fn law_returned_body_etag_is_held(
    header: Option<Seq<char>>,
    values: Seq<Seq<char>>,
    i: int,
    body: Seq<u8>,
)
    requires
        0 <= i < values.len(),
        values[i] == hex_lower(blake3_digest(body)),
        forall|k: int| 0 <= k < directives(header).len() ==> !disables_cache(#[trigger] directives(header)[k]),
    ensures
        cache_control_for(header, values) matches Some(tags) && tags.contains(
            hex_lower(blake3_digest(body)),
        ),
{
    let tag = hex_lower(blake3_digest(body));
    law_body_etag_is_hexadecimal(body);
    assert forall|k: int| 0 <= k < tag.len() implies #[trigger] tag[k] != ',' by {
        assert(is_lower_hex_digit(tag[k]));
    }
    if tag.len() > 0 {
        assert(is_lower_hex_digit(tag[0]));
        assert(is_lower_hex_digit(tag[tag.len() - 1]));
    }
    law_returned_tag_is_held(header, values, i, tag);
}

} // verus!

verus! {

/// A request asks for a fresh response when any of the comma-separated directives of its
/// `Cache-Control` header, trimmed, is `no-cache` or `max-age=0`, wherever it stands among the
/// others: no entity tag it holds is then honoured.
pub proof fn law_any_no_cache_directive_disables_the_cache(
    header: Seq<char>,
    values: Seq<Seq<char>>,
    k: int,
)
    requires
        0 <= k < split_commas(header).len(),
        trim(split_commas(header)[k]) == "no-cache"@ || trim(split_commas(header)[k])
            == "max-age=0"@,
    ensures
        cache_control_for(Some(header), values) is None,
{
    assert(directives(Some(header))[k] == trim(split_commas(header)[k]));
    assert(disables_cache(directives(Some(header))[k]));
}

/// Without such a directive (or without a `Cache-Control` header), the client's tags, those of
/// all its `If-None-Match` values, count.
pub proof fn law_without_no_cache_directive_the_tags_count(header: Seq<char>, values: Seq<Seq<char>>)
    requires
        forall|k: int|
            0 <= k < split_commas(header).len() ==> trim(#[trigger] split_commas(header)[k])
                != "no-cache"@ && trim(split_commas(header)[k]) != "max-age=0"@,
    ensures
        cache_control_for(Some(header), values) == Some(all_tags(values)),
        cache_control_for(None, values) == Some(all_tags(values)),
{
    assert forall|k: int| 0 <= k < directives(Some(header)).len() implies !disables_cache(
        #[trigger] directives(Some(header))[k],
    ) by {
        assert(directives(Some(header))[k] == trim(split_commas(header)[k]));
    }
    assert(directives(None) == trimmed(split_commas(Seq::empty())));
    assert(split_commas(Seq::<char>::empty()) == seq![Seq::<char>::empty()]);
    assert(trim(Seq::<char>::empty()) =~= Seq::<char>::empty()) by {
        lemma_trim_empty();
    }
    assert forall|k: int| 0 <= k < directives(None).len() implies !disables_cache(
        #[trigger] directives(None)[k],
    ) by {
        reveal_strlit("no-cache");
        reveal_strlit("max-age=0");
        assert(directives(None)[k] == trim(Seq::<char>::empty()));
    }
}

proof fn lemma_trim_empty()
    ensures
        trim(Seq::<char>::empty()) =~= Seq::<char>::empty(),
{
    let s = Seq::<char>::empty();
    let t = s.skip(leading_ws(s) as int);
    assert(t.len() == 0);
}

} // verus!
