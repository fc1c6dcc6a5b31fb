//! Laws that relate several parts of the library.

use vstd::prelude::*;
use vstd::utf8::{encode_utf8, decode_utf8, valid_utf8, is_ascii_chars};
use crate::response::{response_header_list, lemma_grouped_keeps_pairs};
use crate::text::{decimal, digit_char};
use crate::path_arg::{
    percent_decode, decoded, decoding_is_identity, integer_text_value, digits_value, digits_part,
    all_digits, is_digit, is_negative_text,
};
use crate::field_roles::{RoleModel, first_duplicate, duplicate_error};

verus! {

broadcast use vstd::seq::group_seq_axioms;

proof fn lemma_percent_decode_no_escape(b: Seq<u8>)
    requires
        forall|i: int| 0 <= i < b.len() ==> #[trigger] b[i] != 0x25,
    ensures
        percent_decode(b) == b,
    decreases b.len(),
{
    if b.len() > 0 {
        assert forall|i: int| 0 <= i < b.skip(1).len() implies #[trigger] b.skip(1)[i] != 0x25 by {
            assert(b.skip(1)[i] == b[i + 1]);
        }
        lemma_percent_decode_no_escape(b.skip(1));
        assert(seq![b[0]] + b.skip(1) =~= b);
    }
}

proof fn lemma_decimal_digits(n: nat)
    ensures
        decimal(n).len() > 0,
        forall|i: int| 0 <= i < decimal(n).len() ==> is_digit(#[trigger] decimal(n)[i]),
        digits_value(decimal(n)) == n,
    decreases n,
{
    if n >= 10 {
        lemma_decimal_digits(n / 10);
        let d = decimal(n);
        assert(d.drop_last() =~= decimal(n / 10));
        let k = n % 10;
        assert(d.last() == digit_char(k));
        assert((digit_char(k) as u32) - ('0' as u32) == k);
        assert(digits_value(d) == digits_value(decimal(n / 10)) * 10 + k);
        assert((n / 10) * 10 + k == n);
        assert forall|i: int| 0 <= i < d.len() implies is_digit(#[trigger] d[i]) by {
            if i < d.len() - 1 {
                assert(d[i] == decimal(n / 10)[i]);
            }
        }
    } else {
        let d = decimal(n);
        assert(d.drop_last() =~= Seq::<char>::empty());
        assert(digits_value(Seq::<char>::empty()) == 0);
        assert((digit_char(n) as u32) - ('0' as u32) == n);
        assert(digits_value(d) == digits_value(d.drop_last()) * 10 + ((d.last() as u32) - ('0' as u32)));
    }
}

/// A text of ASCII characters other than `%` is left as it is by percent-decoding.
proof fn lemma_plain_ascii_decodes_to_itself(v: Seq<char>)
    requires
        is_ascii_chars(v),
        forall|i: int| 0 <= i < v.len() ==> #[trigger] v[i] != '%',
    ensures
        decoded(v) == Some(v),
        decoding_is_identity(v),
{
    vstd::utf8::is_ascii_chars_encode_utf8(v);
    let b = encode_utf8(v);
    assert forall|i: int| 0 <= i < b.len() implies #[trigger] b[i] != 0x25 by {
        assert(v[i] as u8 == b[i]);
        assert(v[i] != '%');
    }
    lemma_percent_decode_no_escape(b);
    vstd::utf8::encode_utf8_valid_utf8(v);
    vstd::utf8::encode_utf8_decode_utf8(v);
}

/// Writing a non-negative integer in decimal and reading the text back as a path argument gives
/// the integer; a minus sign in front gives its negation, for signed types.
pub proof fn law_integer_path_argument_round_trip(n: nat, signed: bool)
    ensures
        decoded(decimal(n)) == Some(decimal(n)),
        integer_text_value(decimal(n), signed) == Some(n as int),
        signed ==> integer_text_value(seq!['-'] + decimal(n), true) == Some(-(n as int)),
{
    lemma_decimal_digits(n);
    let d = decimal(n);
    assert forall|i: int| 0 <= i < d.len() implies '\0' <= #[trigger] d[i] <= '\u{7f}' && d[i] != '%' by {
        assert(is_digit(d[i]));
    }
    lemma_plain_ascii_decodes_to_itself(d);
    assert(is_digit(d[0]));
    assert(digits_part(d, signed) == d);
    assert(all_digits(d));
    if signed {
        let m = seq!['-'] + d;
        assert(is_negative_text(m, true));
        assert(m.skip(1) =~= d);
        assert(digits_part(m, true) == d);
    }
}

/// Whenever a path argument can be borrowed as it is (it needs no percent-decoding), it equals
/// its decoded text: reading it as `&str` or as `String` gives the same characters.
pub proof fn law_borrowed_argument_is_decoded_text(v: Seq<char>)
    ensures
        decoding_is_identity(v) ==> decoded(v) == Some(v),
{
    vstd::utf8::encode_utf8_valid_utf8(v);
    vstd::utf8::encode_utf8_decode_utf8(v);
}

/// Whether no two fields share a role that a variant may have only once.
pub open spec fn unique_roles(roles: Seq<RoleModel>) -> bool {
    forall|i: int, j: int|
        #![trigger roles[i], roles[j]]
        0 <= i < j < roles.len() && roles[i] == roles[j] ==> duplicate_error(roles[i]) is None
}

/// A variant's fields pass validation exactly when no two of them are both query fields, both
/// body fields or both subroutes.
pub proof fn law_fields_valid_iff_unique_roles(roles: Seq<RoleModel>)
    ensures
        first_duplicate(roles) is None <==> unique_roles(roles),
    decreases roles.len(),
{
    if roles.len() > 0 {
        let p = roles.drop_last();
        law_fields_valid_iff_unique_roles(p);
        if first_duplicate(roles) is None {
            assert forall|i: int, j: int|
                #![trigger roles[i], roles[j]]
                0 <= i < j < roles.len() && roles[i] == roles[j] implies duplicate_error(roles[i]) is None by {
                if j < roles.len() - 1 {
                    assert(p[i] == roles[i] && p[j] == roles[j]);
                } else {
                    assert(roles[i] == roles.last());
                }
            }
        } else {
            if first_duplicate(p) is None {
                let j = roles.len() - 1;
                let i = choose|i: int| 0 <= i < roles.len() - 1 && #[trigger] roles[i] == roles.last();
                assert(roles[i] == roles[j]);
                assert(duplicate_error(roles[i]) is Some);
            } else {
                let (i, j) = choose|i: int, j: int|
                    #![trigger p[i], p[j]]
                    0 <= i < j < p.len() && p[i] == p[j] && !(duplicate_error(p[i]) is None);
                assert(roles[i] == p[i] && roles[j] == p[j]);
            }
        }
    }
}

} // verus!

verus! {

use crate::route_url::{Seg, display, seg_text};
use crate::route_format::{
    Stmt, FormatStatement, FormatError, named_statements, unnamed_statements, fixed_stmt,
    unparameterized, stmts_view,
};
use crate::route_codegen::{url_format_outcome, path_param_bindings, path_param_idents, query_ident};
use crate::route_handlers::{display_match, DisplayModel, first_subroute};
use crate::route_attributes::RouteTypeModel;
use crate::params::param_map;
use crate::variant_config::{FieldAttributes, field_models, fields_outcome};
use crate::route_codegen::FieldsShape;
use crate::field_roles::RouteKind;

/// The text that format statements write when each path argument is written as `{name}`.
pub open spec fn render_placeholders(stmts: Seq<Stmt>) -> Seq<char>
    decreases stmts.len(),
{
    if stmts.len() == 0 {
        Seq::empty()
    } else {
        render_placeholders(stmts.drop_last()) + match stmts.last() {
            Stmt::Slash => seq!['/'],
            Stmt::Str(s) => s,
            Stmt::Arg(a) => seq!['{'] + a + seq!['}'],
            Stmt::Query(q) => seq!['?', '{'] + q + seq!['}'],
        }
    }
}

/// The names of the path parameters of a route URL, in order.
pub open spec fn param_names(u: Seq<Seg>) -> Seq<Seq<char>>
    decreases u.len(),
{
    if u.len() == 0 {
        Seq::empty()
    } else {
        match u.last() {
            Seg::Param(n) => param_names(u.drop_last()).push(n),
            _ => param_names(u.drop_last()),
        }
    }
}

/// Each name bound to itself.
pub open spec fn self_bindings(names: Seq<Seq<char>>) -> Map<Seq<char>, Seq<char>> {
    Map::new(|x: Seq<char>| names.contains(x), |x: Seq<char>| x)
}

proof fn lemma_param_names_take(u: Seq<Seg>, k: int)
    requires
        0 <= k < u.len(),
    ensures
        param_names(u.take(k + 1)) == match u[k] {
            Seg::Param(n) => param_names(u.take(k)).push(n),
            _ => param_names(u.take(k)),
        },
{
    assert(u.take(k + 1).drop_last() =~= u.take(k));
}

proof fn lemma_param_names_split(u: Seq<Seg>, k: int)
    requires
        0 <= k <= u.len(),
    ensures
        param_names(u) == param_names(u.take(k)) + param_names(u.skip(k)),
    decreases u.len() - k,
{
    if k == u.len() {
        assert(u.take(k) =~= u);
        assert(u.skip(k) =~= Seq::<Seg>::empty());
        assert(param_names(u.take(k)) + Seq::<Seq<char>>::empty() =~= param_names(u.take(k)));
    } else {
        lemma_param_names_split(u, k + 1);
        lemma_param_names_take(u, k);
        lemma_param_names_cons(u.skip(k));
        assert(u.skip(k).skip(1) =~= u.skip(k + 1));
        assert(u.skip(k)[0] == u[k]);
        match u[k] {
            Seg::Param(n) => {
                assert(param_names(u.take(k)).push(n) + param_names(u.skip(k + 1)) =~= param_names(
                    u.take(k),
                ) + (seq![n] + param_names(u.skip(k + 1))));
            },
            _ => {},
        }
    }
}

proof fn lemma_param_names_cons(u: Seq<Seg>)
    requires
        u.len() > 0,
    ensures
        param_names(u) == match u[0] {
            Seg::Param(n) => seq![n] + param_names(u.skip(1)),
            _ => param_names(u.skip(1)),
        },
    decreases u.len(),
{
    if u.len() == 1 {
        assert(u.skip(1) =~= Seq::<Seg>::empty());
        assert(u.drop_last() =~= Seq::<Seg>::empty());
        match u[0] {
            Seg::Param(n) => {
                assert(seq![n] + Seq::<Seq<char>>::empty() =~= seq![n]);
                assert(Seq::<Seq<char>>::empty().push(n) =~= seq![n]);
            },
            _ => {},
        }
    } else {
        let v = u.drop_last();
        lemma_param_names_cons(v);
        assert(v.skip(1) =~= u.skip(1).drop_last());
        assert(u.skip(1).last() == u.last());
        assert(v[0] == u[0]);
        match u.last() {
            Seg::Param(m) => {
                match u[0] {
                    Seg::Param(n) => {
                        assert((seq![n] + param_names(v.skip(1))).push(m) =~= seq![n] + param_names(
                            v.skip(1),
                        ).push(m));
                    },
                    _ => {},
                }
            },
            _ => {},
        }
    }
}

/// Binding each path parameter of a route URL to itself, the format statements write the URL
/// as its textual form shows it, a parameter `p` as `{p}`, and use every binding; the same holds
/// binding the parameters in order. So the `Display` of a route follows its route URL.
pub proof fn law_format_statements_write_the_route_url(u: Seq<Seg>)
    requires
        param_names(u).no_duplicates(),
    ensures
        named_statements(u, self_bindings(param_names(u))) matches Ok((st, rest)) && rest.dom().len()
            == 0 && render_placeholders(st) == display(u),
        unnamed_statements(u, param_names(u)) matches Some((st, k)) && k == param_names(u).len()
            && render_placeholders(st) == display(u),
{
    let names = param_names(u);
    let m = self_bindings(names);
    lemma_statements_prefix(u, u.len() as int);
    assert(u.take(u.len() as int) =~= u);
    assert(u.skip(u.len() as int) =~= Seq::<Seg>::empty());
    lemma_param_names_split(u, u.len() as int);
    let rest = named_statements(u, m)->Ok_0.1;
    assert(rest.dom() =~= Set::<Seq<char>>::empty());
}

proof fn lemma_statements_prefix(u: Seq<Seg>, k: int)
    requires
        param_names(u).no_duplicates(),
        0 <= k <= u.len(),
    ensures
        named_statements(u.take(k), self_bindings(param_names(u))) matches Ok((st, rest))
            && rest == self_bindings(param_names(u.skip(k))) && render_placeholders(st) == display(
            u.take(k),
        ),
        unnamed_statements(u.take(k), param_names(u)) matches Some((st, j)) && j == param_names(
            u.take(k),
        ).len() && render_placeholders(st) == display(u.take(k)),
    decreases k,
{
    let names = param_names(u);
    let m = self_bindings(names);
    if k == 0 {
        assert(u.take(0) =~= Seq::<Seg>::empty());
        assert(u.skip(0) =~= u);
    } else {
        lemma_statements_prefix(u, k - 1);
        let p = u.take(k - 1);
        let q = u.take(k);
        assert(q.drop_last() =~= p);
        assert(q.last() == u[k - 1]);
        lemma_param_names_split(u, k - 1);
        lemma_param_names_split(u, k);
        lemma_param_names_take(u, k - 1);
        assert(display(q) == display(p) + seg_text(u[k - 1]));
        let (st, rest) = named_statements(p, m)->Ok_0;
        let (ust, j) = unnamed_statements(p, names)->Some_0;
        lemma_param_names_cons(u.skip(k - 1));
        assert(u.skip(k - 1)[0] == u[k - 1]);
        assert(u.skip(k - 1).skip(1) =~= u.skip(k));
        match u[k - 1] {
            Seg::Param(n) => {
                assert(param_names(u.skip(k - 1)) == seq![n] + param_names(u.skip(k)));
                assert(param_names(u.skip(k - 1)).contains(n)) by {
                    assert(param_names(u.skip(k - 1))[0] == n);
                }
                assert(rest.dom().contains(n));
                assert(rest[n] == n);
                assert(!param_names(u.skip(k)).contains(n)) by {
                    if param_names(u.skip(k)).contains(n) {
                        let t = choose|t: int| 0 <= t < param_names(u.skip(k)).len() && param_names(
                            u.skip(k),
                        )[t] == n;
                        let a = param_names(u.take(k - 1)).len() as int;
                        assert(names[a] == n);
                        assert(names[a + 1 + t] == n);
                    }
                }
                let tail = param_names(u.skip(k));
                assert forall|x: Seq<char>| (seq![n] + tail).contains(x) <==> (x == n || tail.contains(x)) by {
                    if (seq![n] + tail).contains(x) && x != n {
                        let t = choose|t: int| 0 <= t < (seq![n] + tail).len() && (seq![n] + tail)[t] == x;
                        assert(tail[t - 1] == x);
                    }
                    if tail.contains(x) {
                        let t = choose|t: int| 0 <= t < tail.len() && tail[t] == x;
                        assert((seq![n] + tail)[t + 1] == x);
                    }
                    if x == n {
                        assert((seq![n] + tail)[0] == x);
                    }
                }
                assert(rest.remove(n) =~= self_bindings(tail));
                assert(j < names.len()) by {
                    assert(names.len() == param_names(u.take(k - 1)).len() + 1 + param_names(
                        u.skip(k),
                    ).len());
                }
                assert(names[j] == n) by {
                    assert(names == param_names(u.take(k - 1)) + (seq![n] + param_names(u.skip(k))));
                }
                let st2 = st.push(Stmt::Arg(n));
                assert(st2.drop_last() =~= st);
                let ust2 = ust.push(Stmt::Arg(n));
                assert(ust2.drop_last() =~= ust);
            },
            g => {
                assert(param_names(u.skip(k - 1)) == param_names(u.skip(k)));
                let st2 = st.push(fixed_stmt(g));
                assert(st2.drop_last() =~= st);
                let ust2 = ust.push(fixed_stmt(g));
                assert(ust2.drop_last() =~= ust);
            },
        }
    }
}

/// Each name paired with itself.
pub open spec fn self_pairs(names: Seq<Seq<char>>) -> Seq<(Seq<char>, Seq<char>)> {
    names.map_values(|n: Seq<char>| (n, n))
}

/// What a variant's query statement writes when the query is written as `{q}`: `?{q}`, or
/// nothing for a variant without a query field.
pub open spec fn query_placeholder(fields: Seq<(Seq<char>, RoleModel)>) -> Seq<char> {
    match query_ident(fields) {
        Some(q) => seq!['?', '{'] + q + seq!['}'],
        None => Seq::empty(),
    }
}

proof fn lemma_self_pairs_map(names: Seq<Seq<char>>)
    ensures
        param_map(self_pairs(names)) == self_bindings(names),
    decreases names.len(),
{
    if names.len() == 0 {
        assert(param_map(self_pairs(names)) =~= self_bindings(names));
    } else {
        let p = names.drop_last();
        lemma_self_pairs_map(p);
        assert(self_pairs(names).drop_last() =~= self_pairs(p));
        assert(self_pairs(names).last() == (names.last(), names.last()));
        assert forall|x: Seq<char>| #[trigger] names.contains(x) <==> (p.contains(x) || x == names.last()) by {
            if names.contains(x) && x != names.last() {
                let t = choose|t: int| 0 <= t < names.len() && names[t] == x;
                assert(p[t] == x);
            }
            if p.contains(x) {
                let t = choose|t: int| 0 <= t < p.len() && p[t] == x;
                assert(names[t] == x);
            }
            if x == names.last() {
                assert(names[names.len() - 1] == x);
            }
        }
        assert(param_map(self_pairs(names)) =~= self_bindings(names));
    }
}

proof fn lemma_render_push(st: Seq<Stmt>, x: Stmt)
    ensures
        render_placeholders(st.push(x)) == render_placeholders(st) + match x {
            Stmt::Slash => seq!['/'],
            Stmt::Str(s) => s,
            Stmt::Arg(a) => seq!['{'] + a + seq!['}'],
            Stmt::Query(q) => seq!['?', '{'] + q + seq!['}'],
        },
{
    assert(st.push(x).drop_last() =~= st);
}

proof fn lemma_unparameterized_writes_the_url(u: Seq<Seg>)
    requires
        param_names(u).len() == 0,
    ensures
        unparameterized(u) matches Ok(st) && render_placeholders(st) == display(u),
    decreases u.len(),
{
    if u.len() > 0 {
        let p = u.drop_last();
        match u.last() {
            Seg::Param(n) => {
                assert(param_names(u).len() == param_names(p).len() + 1);
            },
            g => {
                assert(param_names(u) == param_names(p));
                lemma_unparameterized_writes_the_url(p);
                let st = unparameterized(p)->Ok_0;
                lemma_render_push(st, fixed_stmt(g));
            },
        }
    }
}

/// A named variant whose path fields are the path parameters of its route URL, each named as
/// its parameter, formats without error, and its statements write the URL as its textual form
/// shows it (a parameter `p` as `{p}`), then `?{q}` for its query field `q`, if it has one.
/// With the contract of `generate_url_format`, the `Display` of such a route follows its URL.
pub proof fn law_named_variant_writes_its_route_url(
    u: Seq<Seg>,
    fields: Seq<(Seq<char>, RoleModel)>,
    res: Result<Vec<FormatStatement>, FormatError>,
)
    requires
        param_names(u).no_duplicates(),
        path_param_bindings(fields) == self_pairs(param_names(u)),
        path_param_idents(fields).len() == param_names(u).len(),
        url_format_outcome(u, true, fields, res),
    ensures
        res matches Ok(v) && render_placeholders(stmts_view(v@)) == display(u) + query_placeholder(
            fields,
        ),
{
    if param_names(u).len() == 0 {
        lemma_unparameterized_writes_the_url(u);
        let st = unparameterized(u)->Ok_0;
        match query_ident(fields) {
            Some(q) => lemma_render_push(st, Stmt::Query(q)),
            None => assert(display(u) + query_placeholder(fields) =~= display(u)),
        }
    } else {
        lemma_self_pairs_map(param_names(u));
        law_format_statements_write_the_route_url(u);
        let st = named_statements(u, self_bindings(param_names(u)))->Ok_0.0;
        match query_ident(fields) {
            Some(q) => lemma_render_push(st, Stmt::Query(q)),
            None => assert(display(u) + query_placeholder(fields) =~= display(u)),
        }
    }
}

/// The textual form of a route URL with its `k`-th path parameter written as `{args[k]}`.
pub open spec fn placeholders_of(u: Seq<Seg>, args: Seq<Seq<char>>) -> Seq<char>
    decreases u.len(),
{
    if u.len() == 0 {
        Seq::empty()
    } else {
        placeholders_of(u.drop_last(), args) + match u.last() {
            Seg::Param(_) => seq!['{'] + args[param_names(u.drop_last()).len() as int] + seq!['}'],
            g => seg_text(g),
        }
    }
}

proof fn lemma_unnamed_statements_in_order(u: Seq<Seg>, args: Seq<Seq<char>>)
    requires
        param_names(u).len() <= args.len(),
    ensures
        unnamed_statements(u, args) matches Some((st, k)) && k == param_names(u).len()
            && render_placeholders(st) == placeholders_of(u, args),
    decreases u.len(),
{
    if u.len() > 0 {
        let p = u.drop_last();
        match u.last() {
            Seg::Param(n) => {
                assert(param_names(u) == param_names(p).push(n));
            },
            _ => {
                assert(param_names(u) == param_names(p));
            },
        }
        lemma_unnamed_statements_in_order(p, args);
        let (st, k) = unnamed_statements(p, args)->Some_0;
        match u.last() {
            Seg::Param(_) => lemma_render_push(st, Stmt::Arg(args[k])),
            g => lemma_render_push(st, fixed_stmt(g)),
        }
    }
}

/// A tuple variant with as many path fields as its route URL has path parameters formats
/// without error, and its statements write the URL as its textual form shows it, the `k`-th
/// parameter as `{f}` for the `k`-th path field `f`, then `?{q}` for its query field `q`, if it
/// has one.
pub proof fn law_tuple_variant_writes_its_route_url(
    u: Seq<Seg>,
    fields: Seq<(Seq<char>, RoleModel)>,
    res: Result<Vec<FormatStatement>, FormatError>,
)
    requires
        path_param_idents(fields).len() == param_names(u).len(),
        path_param_idents(fields).len() > 0,
        url_format_outcome(u, false, fields, res),
    ensures
        res matches Ok(v) && render_placeholders(stmts_view(v@)) == placeholders_of(
            u,
            path_param_idents(fields),
        ) + query_placeholder(fields),
{
    lemma_unnamed_statements_in_order(u, path_param_idents(fields));
    let st = unnamed_statements(u, path_param_idents(fields))->Some_0.0;
    match query_ident(fields) {
        Some(q) => lemma_render_push(st, Stmt::Query(q)),
        None => assert(placeholders_of(u, path_param_idents(fields)) + query_placeholder(fields)
            =~= placeholders_of(u, path_param_idents(fields))),
    }
}

} // verus!

verus! {

/// A response sends every header it was given: its content type, its retarget if any, and
/// every value of every extra header, each once, a header added twice under one name included.
pub proof fn law_every_header_is_sent(
    content_type: Seq<char>,
    retarget: Option<Seq<char>>,
    extra: Seq<(Seq<char>, Seq<char>)>,
)
    ensures
        response_header_list(content_type, retarget, extra).len() == 1 + (if retarget is Some {
            1int
        } else {
            0
        }) + extra.len(),
        response_header_list(content_type, retarget, extra).contains(("content-type"@, content_type)),
        retarget matches Some(r) ==> response_header_list(content_type, retarget, extra).contains(
            ("hx-retarget"@, r),
        ),
        forall|i: int|
            0 <= i < extra.len() ==> response_header_list(content_type, retarget, extra).contains(
                #[trigger] extra[i],
            ),
{
    let base = seq![("content-type"@, content_type)] + (match retarget {
        Some(r) => seq![("hx-retarget"@, r)],
        None => Seq::empty(),
    });
    let all = base + extra;
    lemma_grouped_keeps_pairs(all);
    assert(all[0] == ("content-type"@, content_type));
    if let Some(r) = retarget {
        assert(all[1] == ("hx-retarget"@, r));
    }
    assert forall|i: int| 0 <= i < extra.len() implies response_header_list(
        content_type,
        retarget,
        extra,
    ).contains(#[trigger] extra[i]) by {
        assert(all[base.len() + i] == extra[i]);
    }
}

} // verus!

verus! {

/// A named subroute variant whose path fields are the path parameters of its prefix (its route
/// URL, kept without the final slash), each named as its parameter, displays as its prefix,
/// written as its textual form shows it (a parameter `p` as `{p}`), followed by what its
/// subroute field displays: `/api` then `/users` gives `/api/users`. No query is written.
pub proof fn law_named_subroute_variant_displays_prefix_then_subroute(
    u: Seq<Seg>,
    fields: Seq<(Seq<char>, RoleModel)>,
)
    requires
        param_names(u).no_duplicates(),
        path_param_bindings(fields) == self_pairs(param_names(u)),
        path_param_idents(fields).len() == param_names(u).len(),
        first_subroute(fields) is Some,
    ensures
        display_match(u, true, fields, RouteTypeModel::SubRoute) matches Some(
            DisplayModel::Subroute(st, sub),
        ) && render_placeholders(st) == display(u) && sub == fields[first_subroute(fields)->0].0,
{
    if param_names(u).len() == 0 {
        lemma_unparameterized_writes_the_url(u);
    } else {
        lemma_self_pairs_map(param_names(u));
        law_format_statements_write_the_route_url(u);
    }
}

/// A tuple subroute variant with as many path fields as its prefix has path parameters
/// displays as its prefix, the `k`-th parameter written as `{f}` for the `k`-th path field `f`,
/// followed by what its subroute field displays.
pub proof fn law_tuple_subroute_variant_displays_prefix_then_subroute(
    u: Seq<Seg>,
    fields: Seq<(Seq<char>, RoleModel)>,
)
    requires
        path_param_idents(fields).len() == param_names(u).len(),
        path_param_idents(fields).len() > 0,
        first_subroute(fields) is Some,
    ensures
        display_match(u, false, fields, RouteTypeModel::SubRoute) matches Some(
            DisplayModel::Subroute(st, sub),
        ) && render_placeholders(st) == placeholders_of(u, path_param_idents(fields)) && sub
            == fields[first_subroute(fields)->0].0,
{
    lemma_unnamed_statements_in_order(u, path_param_idents(fields));
}

/// A catch-all variant (whose route URL is empty, and whose field takes the whole route)
/// displays as its inner route does: its `Display` arm delegates to its field.
pub proof fn law_catch_all_variant_displays_its_inner_route(
    named: bool,
    fields: Seq<(Seq<char>, RoleModel)>,
)
    requires
        path_param_idents(fields).len() == 0,
    ensures
        display_match(Seq::empty(), named, fields, RouteTypeModel::CatchAll) == Some(
            DisplayModel::CatchAll,
        ),
{
    lemma_unparameterized_writes_the_url(Seq::empty());
}

} // verus!

verus! {

proof fn lemma_unparameterized_renders(u: Seq<Seg>)
    requires
        unparameterized(u) is Ok,
    ensures
        render_placeholders(unparameterized(u)->Ok_0) == display(u),
    decreases u.len(),
{
    if u.len() > 0 {
        let p = u.drop_last();
        lemma_unparameterized_renders(p);
        lemma_render_push(unparameterized(p)->Ok_0, fixed_stmt(u.last()));
    }
}

/// Whether a binding map binds each name to itself.
pub open spec fn binds_to_itself(m: Map<Seq<char>, Seq<char>>) -> bool {
    forall|k: Seq<char>| #[trigger] m.dom().contains(k) ==> m[k] == k
}

proof fn lemma_named_self_bound_renders(u: Seq<Seg>, m: Map<Seq<char>, Seq<char>>)
    requires
        binds_to_itself(m),
        named_statements(u, m) is Ok,
    ensures
        render_placeholders(named_statements(u, m)->Ok_0.0) == display(u),
        binds_to_itself(named_statements(u, m)->Ok_0.1),
    decreases u.len(),
{
    if u.len() > 0 {
        let p = u.drop_last();
        lemma_named_self_bound_renders(p, m);
        let (st, rest) = named_statements(p, m)->Ok_0;
        match u.last() {
            Seg::Param(n) => {
                lemma_render_push(st, Stmt::Arg(rest[n]));
                let r2 = rest.remove(n);
                assert forall|k: Seq<char>| #[trigger] r2.dom().contains(k) implies r2[k] == k by {
                    assert(rest.dom().contains(k));
                }
            },
            g => lemma_render_push(st, fixed_stmt(g)),
        }
    }
}

proof fn lemma_unnamed_renders(u: Seq<Seg>, args: Seq<Seq<char>>)
    requires
        unnamed_statements(u, args) is Some,
    ensures
        render_placeholders(unnamed_statements(u, args)->Some_0.0) == placeholders_of(u, args),
        unnamed_statements(u, args)->Some_0.1 == param_names(u).len(),
    decreases u.len(),
{
    if u.len() > 0 {
        let p = u.drop_last();
        lemma_unnamed_renders(p, args);
        let (st, k) = unnamed_statements(p, args)->Some_0;
        match u.last() {
            Seg::Param(n) => {
                assert(param_names(u) == param_names(p).push(n));
                lemma_render_push(st, Stmt::Arg(args[k]));
            },
            g => {
                assert(param_names(u) == param_names(p));
                lemma_render_push(st, fixed_stmt(g));
            },
        }
    }
}

/// Whether each named path field is the parameter of its own name, as the fields of a named
/// variant are.
pub open spec fn named_fields_self_bound(fields: Seq<(Seq<char>, RoleModel)>) -> bool {
    forall|i: int|
        0 <= i < fields.len() ==> ((#[trigger] fields[i]).1 matches RoleModel::PathParam(Some(n))
            ==> n == fields[i].0)
}

proof fn lemma_bindings_self_pairs(fields: Seq<(Seq<char>, RoleModel)>)
    requires
        named_fields_self_bound(fields),
    ensures
        binds_to_itself(param_map(path_param_bindings(fields))),
    decreases fields.len(),
{
    if fields.len() > 0 {
        let p = fields.drop_last();
        assert forall|i: int| 0 <= i < p.len() implies ((#[trigger] p[i]).1 matches RoleModel::PathParam(
            Some(n),
        ) ==> n == p[i].0) by {
            assert(p[i] == fields[i]);
        }
        lemma_bindings_self_pairs(p);
        assert(fields[fields.len() - 1] == fields.last());
        match fields.last().1 {
            RoleModel::PathParam(Some(name)) => {
                let b = path_param_bindings(p).push((name, fields.last().0));
                assert(path_param_bindings(fields) == b);
                assert(b.drop_last() =~= path_param_bindings(p));
                let m = param_map(b);
                assert(m == param_map(path_param_bindings(p)).insert(name, fields.last().0));
                assert forall|k: Seq<char>| #[trigger] m.dom().contains(k) implies m[k] == k by {
                    if k != name {
                        assert(param_map(path_param_bindings(p)).dom().contains(k));
                    }
                }
            },
            _ => {},
        }
    }
}

proof fn lemma_field_models_self_bound(fs: Seq<FieldAttributes>, kind: RouteKind)
    requires
        field_models(fs, true, kind) is Ok,
    ensures
        named_fields_self_bound(field_models(fs, true, kind)->Ok_0),
    decreases fs.len(),
{
    if fs.len() > 0 {
        lemma_field_models_self_bound(fs.drop_last(), kind);
        let ms = field_models(fs, true, kind)->Ok_0;
        let prev = field_models(fs.drop_last(), true, kind)->Ok_0;
        assert forall|i: int| 0 <= i < ms.len() implies ((#[trigger] ms[i]).1 matches RoleModel::PathParam(
            Some(n),
        ) ==> n == ms[i].0) by {
            if i < prev.len() {
                assert(ms[i] == prev[i]);
            }
        }
    }
}

proof fn lemma_catch_all_models_have_no_path_fields(fs: Seq<FieldAttributes>, named: bool)
    requires
        field_models(fs, named, RouteKind::CatchAll) is Ok,
    ensures
        path_param_idents(field_models(fs, named, RouteKind::CatchAll)->Ok_0).len() == 0,
    decreases fs.len(),
{
    if fs.len() > 0 {
        lemma_catch_all_models_have_no_path_fields(fs.drop_last(), named);
        let ms = field_models(fs, named, RouteKind::CatchAll)->Ok_0;
        assert(ms.drop_last() == field_models(fs.drop_last(), named, RouteKind::CatchAll)->Ok_0);
    }
}

/// Every subroute variant whose `Display` arm can be formed, named or tuple, displays as its
/// prefix followed by what its subroute field displays: a named variant writes each parameter
/// `p` of its prefix as the field `p` (`{p}`), a tuple variant writes its `k`-th parameter as
/// its `k`-th path field; no query is written. So `#[route("blog/{id}/")] Blog { id, sub }`
/// displays as `/blog/` and `id`, then `sub`.
pub proof fn law_every_subroute_variant_displays_prefix_then_subroute(
    u: Seq<Seg>,
    shape: FieldsShape,
    fs: Seq<FieldAttributes>,
)
    requires
        fields_outcome(shape, fs, RouteKind::SubRoute) is Ok,
        first_subroute(fields_outcome(shape, fs, RouteKind::SubRoute)->Ok_0) is Some,
        display_match(
            u,
            shape == FieldsShape::Named,
            fields_outcome(shape, fs, RouteKind::SubRoute)->Ok_0,
            RouteTypeModel::SubRoute,
        ) is Some,
    ensures
        ({
            let ms = fields_outcome(shape, fs, RouteKind::SubRoute)->Ok_0;
            display_match(u, shape == FieldsShape::Named, ms, RouteTypeModel::SubRoute) matches Some(
                DisplayModel::Subroute(st, sub),
            ) && sub == ms[first_subroute(ms)->0].0 && render_placeholders(st) == if shape
                == FieldsShape::Named || path_param_idents(ms).len() == 0 {
                display(u)
            } else {
                placeholders_of(u, path_param_idents(ms))
            }
        }),
{
    let ms = fields_outcome(shape, fs, RouteKind::SubRoute)->Ok_0;
    let named = shape == FieldsShape::Named;
    if path_param_idents(ms).len() == 0 {
        lemma_unparameterized_renders(u);
    } else if named {
        lemma_field_models_self_bound(fs, RouteKind::SubRoute);
        lemma_bindings_self_pairs(ms);
        lemma_named_self_bound_renders(u, param_map(path_param_bindings(ms)));
    } else {
        lemma_unnamed_renders(u, path_param_idents(ms));
    }
}

/// Every catch-all variant (whose route URL is empty) displays as its inner route does: its
/// `Display` arm delegates to its field, whatever its fields.
pub proof fn law_every_catch_all_variant_displays_its_inner_route(
    shape: FieldsShape,
    fs: Seq<FieldAttributes>,
)
    requires
        fields_outcome(shape, fs, RouteKind::CatchAll) is Ok,
    ensures
        display_match(
            Seq::empty(),
            shape == FieldsShape::Named,
            fields_outcome(shape, fs, RouteKind::CatchAll)->Ok_0,
            RouteTypeModel::CatchAll,
        ) == Some(DisplayModel::CatchAll),
{
    if shape != FieldsShape::Unit {
        lemma_catch_all_models_have_no_path_fields(fs, shape == FieldsShape::Named);
    }
    law_catch_all_variant_displays_its_inner_route(
        shape == FieldsShape::Named,
        fields_outcome(shape, fs, RouteKind::CatchAll)->Ok_0,
    );
}

} // verus!
