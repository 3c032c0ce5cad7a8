//! The manifest's textual form: a small JSON representation with a
//! pretty-printer and a parser.

use vstd::prelude::*;
use crate::expand::chars_to_string;
use crate::expand::str_to_chars;
use crate::platform::ManifestError;

verus! {

/// A JSON value.
///
/// Numbers keep their textual form: no manifest field is numeric, so the
/// library never computes with them.
#[derive(Debug)]
pub enum Json {
    Null,
    Bool(bool),
    Num(String),
    Str(String),
    Arr(Vec<Json>),
    Obj(Vec<(String, Json)>),
}

/// The mathematical value of a `Json` tree.
pub enum JsonV {
    Null,
    Bool(bool),
    Num(Seq<char>),
    Str(Seq<char>),
    Arr(Seq<JsonV>),
    Obj(Seq<(Seq<char>, JsonV)>),
}

/// The mathematical value of a `Json` tree.
pub open spec fn json_view(j: Json) -> JsonV
    decreases j,
{
    match j {
        Json::Null => JsonV::Null,
        Json::Bool(b) => JsonV::Bool(b),
        Json::Num(s) => JsonV::Num(s@),
        Json::Str(s) => JsonV::Str(s@),
        Json::Arr(items) => JsonV::Arr(json_views(items@)),
        Json::Obj(fields) => JsonV::Obj(json_field_views(fields@)),
    }
}

/// The mathematical values of a sequence of `Json` trees, in order.
pub open spec fn json_views(items: Seq<Json>) -> Seq<JsonV>
    decreases items,
{
    if items.len() == 0 {
        Seq::empty()
    } else {
        seq![json_view(items[0])] + json_views(items.drop_first())
    }
}

/// The mathematical values of a sequence of object members, in order.
pub open spec fn json_field_views(fields: Seq<(String, Json)>) -> Seq<(Seq<char>, JsonV)>
    decreases fields,
{
    if fields.len() == 0 {
        Seq::empty()
    } else {
        seq![(fields[0].0@, json_view(fields[0].1))] + json_field_views(fields.drop_first())
    }
}

/// `json_views` maps the sequence elementwise.
pub proof fn lemma_json_views_props(s: Seq<Json>)
    ensures
        json_views(s).len() == s.len(),
        forall|i: int| 0 <= i < s.len() ==> json_views(s)[i] == json_view(s[i]),
    decreases s.len(),
{
    if s.len() > 0 {
        lemma_json_views_props(s.drop_first());
        assert forall|i: int| 0 <= i < s.len() implies json_views(s)[i] == json_view(s[i]) by {
            if i > 0 {
                assert(s.drop_first()[i - 1] == s[i]);
            }
        }
    }
}

/// `json_field_views` maps the sequence elementwise.
pub proof fn lemma_json_field_views_props(s: Seq<(String, Json)>)
    ensures
        json_field_views(s).len() == s.len(),
        forall|i: int| 0 <= i < s.len() ==> json_field_views(s)[i] == (
            s[i].0@,
            json_view(s[i].1),
        ),
    decreases s.len(),
{
    if s.len() > 0 {
        lemma_json_field_views_props(s.drop_first());
        assert forall|i: int| 0 <= i < s.len() implies json_field_views(s)[i] == (
            s[i].0@,
            json_view(s[i].1),
        ) by {
            if i > 0 {
                assert(s.drop_first()[i - 1] == s[i]);
            }
        }
    }
}

impl View for Json {
    type V = JsonV;

    open spec fn view(&self) -> JsonV {
        json_view(*self)
    }
}

/// The hexadecimal digit for `n`, lower case.
pub open spec fn spec_hex_digit(n: int) -> char {
    if n == 0 { '0' } else if n == 1 { '1' } else if n == 2 { '2' } else if n == 3 { '3' }
    else if n == 4 { '4' } else if n == 5 { '5' } else if n == 6 { '6' } else if n == 7 { '7' }
    else if n == 8 { '8' } else if n == 9 { '9' } else if n == 10 { 'a' } else if n == 11 { 'b' }
    else if n == 12 { 'c' } else if n == 13 { 'd' } else if n == 14 { 'e' } else { 'f' }
}

/// How one character appears inside a JSON string literal: quotes and
/// backslashes are escaped, the common control characters by letter, the
/// remaining control characters as `\u00..`, and everything else stands as
/// itself.
pub open spec fn spec_escape_char(c: char) -> Seq<char> {
    if c == '"' { "\\\""@ }
    else if c == '\\' { "\\\\"@ }
    else if c == '\n' { "\\n"@ }
    else if c == '\r' { "\\r"@ }
    else if c == '\t' { "\\t"@ }
    else if c == '\u{8}' { "\\b"@ }
    else if c == '\u{c}' { "\\f"@ }
    else if (c as u32) < 0x20 {
        "\\u00"@ + seq![
            spec_hex_digit(((c as u32) >> 4) as int),
            spec_hex_digit(((c as u32) & 0xf) as int),
        ]
    } else {
        seq![c]
    }
}

/// A text with every character escaped as JSON string literals require.
pub open spec fn spec_escape(s: Seq<char>) -> Seq<char>
    decreases s.len(),
{
    if s.len() == 0 {
        Seq::empty()
    } else {
        spec_escape_char(s[0]) + spec_escape(s.drop_first())
    }
}

/// Escaping a text one character longer escapes the added character after
/// the rest.
pub proof fn lemma_escape_snoc(s: Seq<char>, c: char)
    ensures
        spec_escape(s.push(c)) == spec_escape(s) + spec_escape_char(c),
    decreases s.len(),
{
    if s.len() == 0 {
        assert(s.push(c)[0] == c);
        assert(s.push(c).drop_first() =~= Seq::<char>::empty());
        assert(spec_escape(Seq::<char>::empty()) == Seq::<char>::empty());
        assert(spec_escape(s.push(c)) == spec_escape_char(c) + Seq::<char>::empty());
        assert(spec_escape_char(c) + Seq::<char>::empty() =~= spec_escape_char(c));
        assert(spec_escape(s) == Seq::<char>::empty());
        assert(Seq::<char>::empty() + spec_escape_char(c) =~= spec_escape_char(c));
        assert(spec_escape(s.push(c)) == spec_escape(s) + spec_escape_char(c));
    } else {
        assert(s.push(c)[0] == s[0]);
        assert(s.push(c).drop_first() =~= s.drop_first().push(c));
        lemma_escape_snoc(s.drop_first(), c);
        assert(spec_escape_char(s[0]) + (spec_escape(s.drop_first()) + spec_escape_char(c)) =~= (
        spec_escape_char(s[0]) + spec_escape(s.drop_first())) + spec_escape_char(c));
        assert(spec_escape(s.push(c)) == spec_escape_char(s[0]) + spec_escape(
            s.push(c).drop_first(),
        ));
        assert(spec_escape(s.push(c)) == spec_escape(s) + spec_escape_char(c));
    }
}

/// The pretty-printed form of a value, with `pad` the indentation of the
/// line the value starts on.  The layout is the conventional two-space
/// pretty form: empty arrays and objects print as `[]` and `{}`, and each
/// element of a non-empty one stands on its own line, indented two spaces
/// beyond its parent.
pub open spec fn spec_print(j: JsonV, pad: Seq<char>) -> Seq<char>
    decreases j,
{
    match j {
        JsonV::Null => "null"@,
        JsonV::Bool(b) => if b { "true"@ } else { "false"@ },
        JsonV::Num(s) => s,
        JsonV::Str(s) => "\""@ + spec_escape(s) + "\""@,
        JsonV::Arr(items) => if items.len() == 0 {
            "[]"@
        } else {
            "["@ + spec_print_items(items, pad + "  "@) + "\n"@ + pad + "]"@
        },
        JsonV::Obj(fields) => if fields.len() == 0 {
            "{}"@
        } else {
            "{"@ + spec_print_fields(fields, pad + "  "@) + "\n"@ + pad + "}"@
        },
    }
}

/// The items of a non-empty array, each on its own line indented by `pad`,
/// separated by commas.
pub open spec fn spec_print_items(items: Seq<JsonV>, pad: Seq<char>) -> Seq<char>
    decreases items,
{
    if items.len() == 0 {
        Seq::empty()
    } else {
        "\n"@ + pad + spec_print(items[0], pad) + (if items.len() > 1 { ","@ } else { Seq::<char>::empty() })
            + spec_print_items(items.drop_first(), pad)
    }
}

/// The members of a non-empty object, each on its own line indented by
/// `pad`, as `"key": value`, separated by commas.
pub open spec fn spec_print_fields(fields: Seq<(Seq<char>, JsonV)>, pad: Seq<char>) -> Seq<char>
    decreases fields,
{
    if fields.len() == 0 {
        Seq::empty()
    } else {
        "\n"@ + pad + "\""@ + spec_escape(fields[0].0) + "\": "@ + spec_print(fields[0].1, pad) + (
        if fields.len() > 1 { ","@ } else { Seq::<char>::empty() }) + spec_print_fields(
            fields.drop_first(),
            pad,
        )
    }
}

/// Appends the characters of `s` to `out`.
fn push_str_chars(out: &mut Vec<char>, s: &str)
    ensures
        final(out)@ == old(out)@ + s@,
{
    let cs = str_to_chars(s);
    push_chars(out, &cs);
}

/// Appends the characters of `v` to `out`.
fn push_chars(out: &mut Vec<char>, v: &Vec<char>)
    ensures
        final(out)@ == old(out)@ + v@,
{
    let mut i: usize = 0;
    while i < v.len()
        invariant
            i <= v@.len(),
            out@ == old(out)@ + v@.subrange(0, i as int),
        decreases v@.len() - i,
    {
        out.push(v[i]);
        proof {
            assert((old(out)@ + v@.subrange(0, i as int)).push(v@[i as int]) =~= old(out)@
                + v@.subrange(0, i as int + 1));
        }
        i += 1;
    }
    proof {
        assert(v@.subrange(0, v@.len() as int) =~= v@);
    }
}

/// The hexadecimal digit character for `n`, lower case.
fn hex_digit_char(n: u32) -> (c: char)
    requires
        n < 16,
    ensures
        c == spec_hex_digit(n as int),
{
    if n == 0 { '0' } else if n == 1 { '1' } else if n == 2 { '2' } else if n == 3 { '3' }
    else if n == 4 { '4' } else if n == 5 { '5' } else if n == 6 { '6' } else if n == 7 { '7' }
    else if n == 8 { '8' } else if n == 9 { '9' } else if n == 10 { 'a' } else if n == 11 { 'b' }
    else if n == 12 { 'c' } else if n == 13 { 'd' } else if n == 14 { 'e' } else { 'f' }
}

/// Appends the escaped form of one character to `out`.
fn push_escaped_char(out: &mut Vec<char>, c: char)
    ensures
        final(out)@ == old(out)@ + spec_escape_char(c),
{
    if c == '"' {
        push_str_chars(out, "\\\"");
    } else if c == '\\' {
        push_str_chars(out, "\\\\");
    } else if c == '\n' {
        push_str_chars(out, "\\n");
    } else if c == '\r' {
        push_str_chars(out, "\\r");
    } else if c == '\t' {
        push_str_chars(out, "\\t");
    } else if c == '\u{8}' {
        push_str_chars(out, "\\b");
    } else if c == '\u{c}' {
        push_str_chars(out, "\\f");
    } else if (c as u32) < 0x20 {
        let u = c as u32;
        proof {
            assert((u >> 4) < 16 && (u & 0xf) < 16) by (bit_vector)
                requires
                    u < 0x20u32,
            ;
        }
        push_str_chars(out, "\\u00");
        let d1 = hex_digit_char(u >> 4);
        let d2 = hex_digit_char(u & 0xf);
        out.push(d1);
        out.push(d2);
        proof {
            assert(((old(out)@ + "\\u00"@).push(d1)).push(d2) =~= old(out)@ + spec_escape_char(c));
        }
    } else {
        out.push(c);
        proof {
            assert(old(out)@.push(c) =~= old(out)@ + seq![c]);
        }
    }
}

/// Appends the escaped form of `s` to `out`.
fn push_escaped(out: &mut Vec<char>, s: &str)
    ensures
        final(out)@ == old(out)@ + spec_escape(s@),
{
    let cs = str_to_chars(s);
    let mut i: usize = 0;
    while i < cs.len()
        invariant
            i <= cs@.len(),
            cs@ == s@,
            out@ == old(out)@ + spec_escape(s@.subrange(0, i as int)),
        decreases cs@.len() - i,
    {
        let c = cs[i];
        push_escaped_char(out, c);
        proof {
            lemma_escape_snoc(s@.subrange(0, i as int), c);
            assert(s@.subrange(0, i as int).push(c) =~= s@.subrange(0, i as int + 1));
            assert(old(out)@ + (spec_escape(s@.subrange(0, i as int)) + spec_escape_char(c)) =~= (
            old(out)@ + spec_escape(s@.subrange(0, i as int))) + spec_escape_char(c));
        }
        i += 1;
    }
    proof {
        assert(s@.subrange(0, s@.len() as int) =~= s@);
    }
}

/// Appends the elements of a non-empty array to `out`, each on its own line
/// indented by `pad`, separated by commas.
#[verifier::loop_isolation(false)]
fn print_items(items: &Vec<Json>, pad: &Vec<char>, out: &mut Vec<char>)
    ensures
        final(out)@ == old(out)@ + spec_print_items(json_views(items@), pad@),
    decreases *items,
{
    let ghost iv = json_views(items@);
    proof {
        lemma_json_views_props(items@);
        assert(iv.skip(0) =~= iv);
    }
    let mut i: usize = 0;
    while i < items.len()
        invariant
            i <= items@.len(),
            old(out)@ + spec_print_items(iv, pad@) == out@ + spec_print_items(
                iv.skip(i as int),
                pad@,
            ),
        decreases items@.len() - i,
    {
        proof {
            assert(iv.skip(i as int)[0] == iv[i as int]);
            assert(iv.skip(i as int).drop_first() =~= iv.skip(i as int + 1));
            assert(iv.skip(i as int).len() == iv.len() - i);
            assert(decreases_to!(*items => items@[i as int])) by {
                assert(decreases_to!(*items => items@));
                assert(decreases_to!(items@ => items@[i as int]));
            }
        }
        let ghost ob = out@;
        push_str_chars(out, "\n");
        push_chars(out, pad);
        items[i].print_into(pad, out);
        if i + 1 < items.len() {
            push_str_chars(out, ",");
            proof {
                assert(out@ =~= ob + ("\n"@ + pad@ + spec_print(iv[i as int], pad@) + ","@));
            }
        } else {
            proof {
                assert(out@ =~= ob + ("\n"@ + pad@ + spec_print(iv[i as int], pad@)
                    + Seq::<char>::empty()));
            }
        }
        i += 1;
    }
    proof {
        assert(iv.skip(iv.len() as int) =~= Seq::<JsonV>::empty());
        assert(out@ + Seq::<char>::empty() =~= out@);
    }
}

/// Appends the members of a non-empty object to `out`, each on its own line
/// indented by `pad`, as `"key": value`, separated by commas.
#[verifier::loop_isolation(false)]
fn print_fields(fields: &Vec<(String, Json)>, pad: &Vec<char>, out: &mut Vec<char>)
    ensures
        final(out)@ == old(out)@ + spec_print_fields(json_field_views(fields@), pad@),
    decreases *fields,
{
    let ghost fv = json_field_views(fields@);
    proof {
        lemma_json_field_views_props(fields@);
        assert(fv.skip(0) =~= fv);
    }
    let mut i: usize = 0;
    while i < fields.len()
        invariant
            i <= fields@.len(),
            old(out)@ + spec_print_fields(fv, pad@) == out@ + spec_print_fields(
                fv.skip(i as int),
                pad@,
            ),
        decreases fields@.len() - i,
    {
        proof {
            assert(fv.skip(i as int)[0] == fv[i as int]);
            assert(fv.skip(i as int).drop_first() =~= fv.skip(i as int + 1));
            assert(fv.skip(i as int).len() == fv.len() - i);
            assert(decreases_to!(*fields => fields@[i as int].1)) by {
                assert(decreases_to!(*fields => fields@));
                assert(decreases_to!(fields@ => fields@[i as int]));
                assert(decreases_to!(fields@[i as int] => fields@[i as int].1));
            }
        }
        let ghost ob = out@;
        push_str_chars(out, "\n");
        push_chars(out, pad);
        push_str_chars(out, "\"");
        push_escaped(out, fields[i].0.as_str());
        push_str_chars(out, "\": ");
        fields[i].1.print_into(pad, out);
        if i + 1 < fields.len() {
            push_str_chars(out, ",");
            proof {
                assert(out@ =~= ob + ("\n"@ + pad@ + "\""@ + spec_escape(fv[i as int].0) + "\": "@
                    + spec_print(fv[i as int].1, pad@) + ","@));
            }
        } else {
            proof {
                assert(out@ =~= ob + ("\n"@ + pad@ + "\""@ + spec_escape(fv[i as int].0) + "\": "@
                    + spec_print(fv[i as int].1, pad@) + Seq::<char>::empty()));
            }
        }
        i += 1;
    }
    proof {
        assert(fv.skip(fv.len() as int) =~= Seq::<(Seq<char>, JsonV)>::empty());
        assert(out@ + Seq::<char>::empty() =~= out@);
    }
}

impl Json {
    /// Appends the pretty-printed form of the value to `out`, `pad` being
    /// the indentation of the line the value starts on.
    pub fn print_into(&self, pad: &Vec<char>, out: &mut Vec<char>)
        ensures
            final(out)@ == old(out)@ + spec_print(self@, pad@),
        decreases *self,
    {
        match self {
            Json::Null => push_str_chars(out, "null"),
            Json::Bool(b) => {
                if *b {
                    push_str_chars(out, "true");
                } else {
                    push_str_chars(out, "false");
                }
            },
            Json::Num(s) => push_str_chars(out, s.as_str()),
            Json::Str(s) => {
                let ghost o0 = out@;
                push_str_chars(out, "\"");
                push_escaped(out, s.as_str());
                push_str_chars(out, "\"");
                proof {
                    assert(out@ =~= o0 + ("\""@ + spec_escape(s@) + "\""@));
                }
            },
            Json::Arr(items) => {
                if items.len() == 0 {
                    push_str_chars(out, "[]");
                } else {
                    let ghost o0 = out@;
                    push_str_chars(out, "[");
                    let mut pad2: Vec<char> = Vec::new();
                    push_chars(&mut pad2, pad);
                    push_str_chars(&mut pad2, "  ");
                    proof {
                        assert(pad2@ =~= pad@ + "  "@);
                        assert(decreases_to!(*self => *items)) by {
                            assert((*self)->Arr_0 == *items);
                            assert(decreases_to!(*self => (*self)->Arr_0));
                        }
                    }
                    print_items(items, &pad2, out);
                    push_str_chars(out, "\n");
                    push_chars(out, pad);
                    push_str_chars(out, "]");
                    proof {
                        lemma_json_views_props(items@);
                        assert(out@ =~= o0 + ("["@ + spec_print_items(
                            json_views(items@),
                            pad@ + "  "@,
                        ) + "\n"@ + pad@ + "]"@));
                    }
                }
            },
            Json::Obj(fields) => {
                if fields.len() == 0 {
                    push_str_chars(out, "{}");
                } else {
                    let ghost o0 = out@;
                    push_str_chars(out, "{");
                    let mut pad2: Vec<char> = Vec::new();
                    push_chars(&mut pad2, pad);
                    push_str_chars(&mut pad2, "  ");
                    proof {
                        assert(pad2@ =~= pad@ + "  "@);
                        assert(decreases_to!(*self => *fields)) by {
                            assert((*self)->Obj_0 == *fields);
                            assert(decreases_to!(*self => (*self)->Obj_0));
                        }
                    }
                    print_fields(fields, &pad2, out);
                    push_str_chars(out, "\n");
                    push_chars(out, pad);
                    push_str_chars(out, "}");
                    proof {
                        lemma_json_field_views_props(fields@);
                        assert(out@ =~= o0 + ("{"@ + spec_print_fields(
                            json_field_views(fields@),
                            pad@ + "  "@,
                        ) + "\n"@ + pad@ + "}"@));
                    }
                }
            },
        }
    }

    /// The pretty-printed text of the value, as a manifest file holds it.
    pub fn to_text(&self) -> (r: String)
        ensures
            r@ == spec_print(self@, Seq::<char>::empty()),
    {
        let pad: Vec<char> = Vec::new();
        let mut out: Vec<char> = Vec::new();
        self.print_into(&pad, &mut out);
        proof {
            assert(Seq::<char>::empty() + spec_print(self@, pad@) =~= spec_print(
                self@,
                Seq::<char>::empty(),
            ));
        }
        chars_to_string(&out)
    }
}

/// Appending one member extends the member views at the end.
pub proof fn lemma_field_views_snoc(s: Seq<(String, Json)>, kv: (String, Json))
    ensures
        json_field_views(s.push(kv)) == json_field_views(s) + seq![(kv.0@, json_view(kv.1))],
    decreases s.len(),
{
    if s.len() == 0 {
        assert(s.push(kv)[0] == kv);
        assert(s.push(kv).drop_first() =~= Seq::<(String, Json)>::empty());
        assert(json_field_views(Seq::<(String, Json)>::empty()) == Seq::<
            (Seq<char>, JsonV),
        >::empty());
        assert(json_field_views(s.push(kv)) == seq![(kv.0@, json_view(kv.1))] + Seq::<
            (Seq<char>, JsonV),
        >::empty());
        assert(seq![(kv.0@, json_view(kv.1))] + Seq::<(Seq<char>, JsonV)>::empty() =~= seq![
            (kv.0@, json_view(kv.1)),
        ]);
        assert(json_field_views(s) == Seq::<(Seq<char>, JsonV)>::empty());
        assert(Seq::<(Seq<char>, JsonV)>::empty() + seq![(kv.0@, json_view(kv.1))] =~= seq![
            (kv.0@, json_view(kv.1)),
        ]);
    } else {
        assert(s.push(kv)[0] == s[0]);
        assert(s.push(kv).drop_first() =~= s.drop_first().push(kv));
        lemma_field_views_snoc(s.drop_first(), kv);
        assert(json_field_views(s.push(kv)) == seq![(s[0].0@, json_view(s[0].1))]
            + json_field_views(s.drop_first().push(kv)));
        assert(seq![(s[0].0@, json_view(s[0].1))] + (json_field_views(s.drop_first()) + seq![
            (kv.0@, json_view(kv.1)),
        ]) =~= (seq![(s[0].0@, json_view(s[0].1))] + json_field_views(s.drop_first())) + seq![
            (kv.0@, json_view(kv.1)),
        ]);
        assert(json_field_views(s) == seq![(s[0].0@, json_view(s[0].1))] + json_field_views(
            s.drop_first(),
        ));
    }
}

/// Appending one element extends the element views at the end.
pub proof fn lemma_views_snoc(s: Seq<Json>, x: Json)
    ensures
        json_views(s.push(x)) == json_views(s) + seq![json_view(x)],
    decreases s.len(),
{
    if s.len() == 0 {
        assert(s.push(x)[0] == x);
        assert(s.push(x).drop_first() =~= Seq::<Json>::empty());
        assert(json_views(Seq::<Json>::empty()) == Seq::<JsonV>::empty());
        assert(json_views(s.push(x)) == seq![json_view(x)] + Seq::<JsonV>::empty());
        assert(seq![json_view(x)] + Seq::<JsonV>::empty() =~= seq![json_view(x)]);
        assert(json_views(s) == Seq::<JsonV>::empty());
        assert(Seq::<JsonV>::empty() + seq![json_view(x)] =~= seq![json_view(x)]);
    } else {
        assert(s.push(x)[0] == s[0]);
        assert(s.push(x).drop_first() =~= s.drop_first().push(x));
        lemma_views_snoc(s.drop_first(), x);
        assert(json_views(s.push(x)) == seq![json_view(s[0])] + json_views(
            s.drop_first().push(x),
        ));
        assert(seq![json_view(s[0])] + (json_views(s.drop_first()) + seq![json_view(x)]) =~= (seq![
            json_view(s[0]),
        ] + json_views(s.drop_first())) + seq![json_view(x)]);
        assert(json_views(s) == seq![json_view(s[0])] + json_views(s.drop_first()));
    }
}

/// JSON whitespace.
pub open spec fn is_ws(c: char) -> bool {
    c == ' ' || c == '\t' || c == '\n' || c == '\r'
}

/// A decimal digit.
pub open spec fn is_digit(c: char) -> bool {
    48 <= c as u32 && c as u32 <= 57
}

/// The first position at or after `pos` that does not hold whitespace.
pub open spec fn spec_skip_ws(v: Seq<char>, pos: int) -> int
    decreases v.len() - pos,
{
    if 0 <= pos < v.len() && is_ws(v[pos]) {
        spec_skip_ws(v, pos + 1)
    } else {
        pos
    }
}

/// The first position at or after `i` that does not hold a digit.
pub open spec fn spec_digits_end(v: Seq<char>, i: int) -> int
    decreases v.len() - i,
{
    if 0 <= i < v.len() && is_digit(v[i]) {
        spec_digits_end(v, i + 1)
    } else {
        i
    }
}

/// The value of a hexadecimal digit character, upper or lower case.
pub open spec fn spec_hex_val(c: char) -> Option<u32> {
    let u = c as u32;
    if 48 <= u && u <= 57 {
        Some((u - 48) as u32)
    } else if 97 <= u && u <= 102 {
        Some((u - 87) as u32)
    } else if 65 <= u && u <= 70 {
        Some((u - 55) as u32)
    } else {
        None
    }
}

/// The character with code point `u`.
pub open spec fn spec_char_of(u: u32) -> char {
    choose|c: char| (#[trigger] (c as u32)) == u
}

/// Reading the rest of a JSON string literal at position `i`, the unescaped
/// text before it being `acc`: ends at an unescaped quote; escape sequences
/// are decoded, a surrogate pair of `\u` escapes as one character; raw
/// control characters, lone surrogates and unknown escapes are violations.
pub open spec fn spec_parse_string_tail(v: Seq<char>, i: int, acc: Seq<char>) -> Result<
    (Seq<char>, int),
    ManifestError,
>
    decreases v.len() - i,
{
    if !(0 <= i < v.len()) {
        Err(ManifestError::ParseError)
    } else {
        let c = v[i];
        if c == '"' {
            Ok((acc, i + 1))
        } else if c == '\\' {
            if v.len() - i < 2 {
                Err(ManifestError::ParseError)
            } else {
                let e = v[i + 1];
                if e == '"' {
                    spec_parse_string_tail(v, i + 2, acc.push('"'))
                } else if e == '\\' {
                    spec_parse_string_tail(v, i + 2, acc.push('\\'))
                } else if e == '/' {
                    spec_parse_string_tail(v, i + 2, acc.push('/'))
                } else if e == 'n' {
                    spec_parse_string_tail(v, i + 2, acc.push('\n'))
                } else if e == 't' {
                    spec_parse_string_tail(v, i + 2, acc.push('\t'))
                } else if e == 'r' {
                    spec_parse_string_tail(v, i + 2, acc.push('\r'))
                } else if e == 'b' {
                    spec_parse_string_tail(v, i + 2, acc.push('\u{8}'))
                } else if e == 'f' {
                    spec_parse_string_tail(v, i + 2, acc.push('\u{c}'))
                } else if e == 'u' {
                    if v.len() - i < 6 {
                        Err(ManifestError::ParseError)
                    } else {
                        match (
                            spec_hex_val(v[i + 2]),
                            spec_hex_val(v[i + 3]),
                            spec_hex_val(v[i + 4]),
                            spec_hex_val(v[i + 5]),
                        ) {
                            (Some(a), Some(b), Some(g), Some(d)) => {
                                let u = a * 4096 + b * 256 + g * 16 + d;
                                if 0xD800 <= u && u < 0xDC00 {
                                    if v.len() - i < 12 || v[i + 6] != '\\' || v[i + 7] != 'u' {
                                        Err(ManifestError::ParseError)
                                    } else {
                                        match (
                                            spec_hex_val(v[i + 8]),
                                            spec_hex_val(v[i + 9]),
                                            spec_hex_val(v[i + 10]),
                                            spec_hex_val(v[i + 11]),
                                        ) {
                                            (Some(a2), Some(b2), Some(g2), Some(d2)) => {
                                                let u2 = a2 * 4096 + b2 * 256 + g2 * 16 + d2;
                                                if 0xDC00 <= u2 && u2 < 0xE000 {
                                                    let cp = 0x10000 + (u - 0xD800) * 0x400 + (u2
                                                        - 0xDC00);
                                                    spec_parse_string_tail(
                                                        v,
                                                        i + 12,
                                                        acc.push(spec_char_of(cp as u32)),
                                                    )
                                                } else {
                                                    Err(ManifestError::ParseError)
                                                }
                                            },
                                            _ => Err(ManifestError::ParseError),
                                        }
                                    }
                                } else if 0xDC00 <= u && u < 0xE000 {
                                    Err(ManifestError::ParseError)
                                } else {
                                    spec_parse_string_tail(v, i + 6, acc.push(spec_char_of(u as u32)))
                                }
                            },
                            _ => Err(ManifestError::ParseError),
                        }
                    }
                } else {
                    Err(ManifestError::ParseError)
                }
            }
        } else if (c as u32) < 0x20 {
            Err(ManifestError::ParseError)
        } else {
            spec_parse_string_tail(v, i + 1, acc.push(c))
        }
    }
}

/// A JSON string literal whose opening quote stands at `pos`: the unescaped
/// text and the position after the closing quote.
pub open spec fn spec_parse_string(v: Seq<char>, pos: int) -> Result<(Seq<char>, int), ManifestError> {
    if 0 <= pos < v.len() && v[pos] == '"' {
        spec_parse_string_tail(v, pos + 1, Seq::empty())
    } else {
        Err(ManifestError::ParseError)
    }
}

/// The exponent part of a number lexeme at `start`, the lexeme itself
/// having begun at `pos`.
pub open spec fn spec_num_exp(v: Seq<char>, pos: int, start: int) -> Result<
    (Seq<char>, int),
    ManifestError,
> {
    if 0 <= start < v.len() && (v[start] == 'e' || v[start] == 'E') {
        let s = if start + 1 < v.len() && (v[start + 1] == '+' || v[start + 1] == '-') {
            start + 2
        } else {
            start + 1
        };
        let e = spec_digits_end(v, s);
        if e == s {
            Err(ManifestError::ParseError)
        } else {
            Ok((v.subrange(pos, e), e))
        }
    } else {
        Ok((v.subrange(pos, start), start))
    }
}

/// The fraction part of a number lexeme at `start`, then its exponent part.
pub open spec fn spec_num_frac(v: Seq<char>, pos: int, start: int) -> Result<
    (Seq<char>, int),
    ManifestError,
> {
    if 0 <= start < v.len() && v[start] == '.' {
        let f = spec_digits_end(v, start + 1);
        if f == start + 1 {
            Err(ManifestError::ParseError)
        } else {
            spec_num_exp(v, pos, f)
        }
    } else {
        spec_num_exp(v, pos, start)
    }
}

/// A JSON number lexeme beginning at `pos`: an optional minus sign, an
/// integer part without leading zeroes, an optional fraction, an optional
/// exponent.  The lexeme's own text and the position after it.
pub open spec fn spec_parse_number(v: Seq<char>, pos: int) -> Result<
    (Seq<char>, int),
    ManifestError,
> {
    let i = if 0 <= pos < v.len() && v[pos] == '-' {
        pos + 1
    } else {
        pos
    };
    if !(0 <= i < v.len() && is_digit(v[i])) {
        Err(ManifestError::ParseError)
    } else {
        let d = if v[i] == '0' {
            i + 1
        } else {
            spec_digits_end(v, i)
        };
        spec_num_frac(v, pos, d)
    }
}

/// One JSON value at or after `pos`: leading whitespace skipped, then the
/// value itself; the result and the position after it.
pub open spec fn spec_parse_value(v: Seq<char>, pos: int) -> Result<(JsonV, int), ManifestError>
    decreases v.len() - pos, 0int,
{
    if !(0 <= pos <= v.len()) {
        Err(ManifestError::ParseError)
    } else {
        let i = spec_skip_ws(v, pos);
        if !(pos <= i && i < v.len()) {
            Err(ManifestError::ParseError)
        } else {
            let c = v[i];
            if c == 'n' {
                if v.len() - i >= 4 && v[i + 1] == 'u' && v[i + 2] == 'l' && v[i + 3] == 'l' {
                    Ok((JsonV::Null, i + 4))
                } else {
                    Err(ManifestError::ParseError)
                }
            } else if c == 't' {
                if v.len() - i >= 4 && v[i + 1] == 'r' && v[i + 2] == 'u' && v[i + 3] == 'e' {
                    Ok((JsonV::Bool(true), i + 4))
                } else {
                    Err(ManifestError::ParseError)
                }
            } else if c == 'f' {
                if v.len() - i >= 5 && v[i + 1] == 'a' && v[i + 2] == 'l' && v[i + 3] == 's' && v[i
                    + 4] == 'e' {
                    Ok((JsonV::Bool(false), i + 5))
                } else {
                    Err(ManifestError::ParseError)
                }
            } else if c == '"' {
                match spec_parse_string(v, i) {
                    Ok((s, p)) => Ok((JsonV::Str(s), p)),
                    Err(e) => Err(e),
                }
            } else if c == '[' {
                let i2 = spec_skip_ws(v, i + 1);
                if i2 < v.len() && v[i2] == ']' {
                    Ok((JsonV::Arr(Seq::empty()), i2 + 1))
                } else {
                    match spec_parse_items_tail(v, i + 1, Seq::empty()) {
                        Ok((items, p)) => Ok((JsonV::Arr(items), p)),
                        Err(e) => Err(e),
                    }
                }
            } else if c == '{' {
                let i2 = spec_skip_ws(v, i + 1);
                if i2 < v.len() && v[i2] == '}' {
                    Ok((JsonV::Obj(Seq::empty()), i2 + 1))
                } else {
                    match spec_parse_fields_tail(v, i + 1, Seq::empty()) {
                        Ok((fields, p)) => Ok((JsonV::Obj(fields), p)),
                        Err(e) => Err(e),
                    }
                }
            } else if c == '-' || is_digit(c) {
                match spec_parse_number(v, i) {
                    Ok((s, p)) => Ok((JsonV::Num(s), p)),
                    Err(e) => Err(e),
                }
            } else {
                Err(ManifestError::ParseError)
            }
        }
    }
}

/// The remaining elements of an array being read at `cur`, the elements
/// before that position already in `acc`.
pub open spec fn spec_parse_items_tail(v: Seq<char>, cur: int, acc: Seq<JsonV>) -> Result<
    (Seq<JsonV>, int),
    ManifestError,
>
    decreases v.len() - cur, 1int,
{
    match spec_parse_value(v, cur) {
        Ok((item, np)) => {
            if !(cur < np && np <= v.len()) {
                Err(ManifestError::ParseError)
            } else {
                let j = spec_skip_ws(v, np);
                if !(np <= j && j <= v.len()) {
                    Err(ManifestError::ParseError)
                } else if j < v.len() && v[j] == ',' {
                    spec_parse_items_tail(v, j + 1, acc.push(item))
                } else if j < v.len() && v[j] == ']' {
                    Ok((acc.push(item), j + 1))
                } else {
                    Err(ManifestError::ParseError)
                }
            }
        },
        Err(e) => Err(e),
    }
}

/// The remaining members of an object being read at `cur`, the members
/// before that position already in `acc`.
pub open spec fn spec_parse_fields_tail(
    v: Seq<char>,
    cur: int,
    acc: Seq<(Seq<char>, JsonV)>,
) -> Result<(Seq<(Seq<char>, JsonV)>, int), ManifestError>
    decreases v.len() - cur, 1int,
{
    if !(0 <= cur) {
        Err(ManifestError::ParseError)
    } else {
        let k = spec_skip_ws(v, cur);
        if !(cur <= k && k < v.len()) {
            Err(ManifestError::ParseError)
        } else {
            match spec_parse_string(v, k) {
                Ok((key, kp)) => {
                    if !(k < kp && kp <= v.len()) {
                        Err(ManifestError::ParseError)
                    } else {
                        let cl = spec_skip_ws(v, kp);
                        if !(kp <= cl && cl < v.len() && v[cl] == ':') {
                            Err(ManifestError::ParseError)
                        } else {
                            match spec_parse_value(v, cl + 1) {
                                Ok((val, np)) => {
                                    if !(cl + 1 < np && np <= v.len()) {
                                        Err(ManifestError::ParseError)
                                    } else {
                                        let j = spec_skip_ws(v, np);
                                        if !(np <= j && j <= v.len()) {
                                            Err(ManifestError::ParseError)
                                        } else if j < v.len() && v[j] == ',' {
                                            spec_parse_fields_tail(v, j + 1, acc.push((key, val)))
                                        } else if j < v.len() && v[j] == '}' {
                                            Ok((acc.push((key, val)), j + 1))
                                        } else {
                                            Err(ManifestError::ParseError)
                                        }
                                    }
                                },
                                Err(e) => Err(e),
                            }
                        }
                    }
                },
                Err(e) => Err(e),
            }
        }
    }
}

/// A complete JSON document: one value with only whitespace around it.
pub open spec fn spec_parse_text(s: Seq<char>) -> Result<JsonV, ManifestError> {
    match spec_parse_value(s, 0) {
        Ok((j, p)) => {
            if 0 <= p <= s.len() && spec_skip_ws(s, p) == s.len() {
                Ok(j)
            } else {
                Err(ManifestError::ParseError)
            }
        },
        Err(e) => Err(e),
    }
}

/// The first position at or after `pos` whose character is not whitespace.
fn skip_ws(v: &Vec<char>, pos: usize) -> (r: usize)
    requires
        pos <= v@.len(),
    ensures
        pos <= r <= v@.len(),
        r == spec_skip_ws(v@, pos as int),
{
    let mut i: usize = pos;
    while i < v.len()
        invariant
            pos <= i <= v@.len(),
            spec_skip_ws(v@, pos as int) == spec_skip_ws(v@, i as int),
        decreases v@.len() - i,
    {
        let c = v[i];
        if c == ' ' || c == '\t' || c == '\n' || c == '\r' {
            i = i + 1;
        } else {
            return i;
        }
    }
    i
}

/// The first position at or after `i` whose character is not a digit.
fn digits_end(v: &Vec<char>, i: usize) -> (r: usize)
    requires
        i <= v@.len(),
    ensures
        i <= r <= v@.len(),
        r == spec_digits_end(v@, i as int),
        i < v@.len() && is_digit(v@[i as int]) ==> i < r,
{
    let mut k: usize = i;
    while k < v.len()
        invariant
            i <= k <= v@.len(),
            spec_digits_end(v@, i as int) == spec_digits_end(v@, k as int),
            i < v@.len() && is_digit(v@[i as int]) && k == i ==> k < v@.len(),
        decreases v@.len() - k,
    {
        let u = v[k] as u32;
        if 48 <= u && u <= 57 {
            k += 1;
        } else {
            proof {
                if i < v@.len() && is_digit(v@[i as int]) && k == i {
                    assert(false);
                }
            }
            return k;
        }
    }
    k
}

/// The value of a hexadecimal digit character, upper or lower case.
fn hex_val(c: char) -> (r: Option<u32>)
    ensures
        r == spec_hex_val(c),
        r matches Some(x) ==> x < 16,
{
    let u = c as u32;
    if 48 <= u && u <= 57 {
        Some(u - 48)
    } else if 97 <= u && u <= 102 {
        Some(u - 87)
    } else if 65 <= u && u <= 70 {
        Some(u - 55)
    } else {
        None
    }
}

/// Relies on `char::from_u32`: `Some` exactly for code points that are
/// Unicode scalar values, and the returned character has the given code
/// point.
#[verifier::external_body]
fn char_from_u32(u: u32) -> (r: Option<char>)
    ensures
        r matches Some(c) ==> c as u32 == u,
        r is Some <==> (u < 0xD800 || (0xE000 <= u && u < 0x110000)),
{
    char::from_u32(u)
}

/// The character returned for a valid code point is the one the code point
/// names.
proof fn lemma_char_of(c: char, u: u32)
    requires
        c as u32 == u,
    ensures
        c == spec_char_of(u),
{
    assert(spec_char_of(u) as u32 == u) by {
        assert(exists|c2: char| (#[trigger] (c2 as u32)) == u) by {
            assert(c as u32 == u);
        }
    }
}

/// Parses a JSON string literal whose opening quote stands at `pos`;
/// returns the unescaped text and the position after the closing quote.
fn parse_string(v: &Vec<char>, pos: usize) -> (r: Result<(String, usize), ManifestError>)
    requires
        pos < v@.len(),
    ensures
        r matches Ok(t) ==> pos < t.1 <= v@.len(),
        r is Err ==> r == Err::<(String, usize), ManifestError>(ManifestError::ParseError),
        match spec_parse_string(v@, pos as int) {
            Ok(t) => r matches Ok(rt) && rt.0@ == t.0 && rt.1 == t.1,
            Err(e) => r == Err::<(String, usize), ManifestError>(e),
        },
{
    let n = v.len();
    if v[pos] != '"' {
        return Err(ManifestError::ParseError);
    }
    let mut acc: Vec<char> = Vec::new();
    let mut i: usize = pos + 1;
    while i < n
        invariant
            pos < i <= n,
            n == v@.len(),
            spec_parse_string(v@, pos as int) == spec_parse_string_tail(v@, i as int, acc@),
        decreases n - i,
    {
        let c = v[i];
        if c == '"' {
            return Ok((chars_to_string(&acc), i + 1));
        } else if c == '\\' {
            if n - i < 2 {
                return Err(ManifestError::ParseError);
            }
            let e = v[i + 1];
            if e == '"' {
                acc.push('"');
                i += 2;
            } else if e == '\\' {
                acc.push('\\');
                i += 2;
            } else if e == '/' {
                acc.push('/');
                i += 2;
            } else if e == 'n' {
                acc.push('\n');
                i += 2;
            } else if e == 't' {
                acc.push('\t');
                i += 2;
            } else if e == 'r' {
                acc.push('\r');
                i += 2;
            } else if e == 'b' {
                acc.push('\u{8}');
                i += 2;
            } else if e == 'f' {
                acc.push('\u{c}');
                i += 2;
            } else if e == 'u' {
                if n - i < 6 {
                    return Err(ManifestError::ParseError);
                }
                let h1 = hex_val(v[i + 2]);
                let h2 = hex_val(v[i + 3]);
                let h3 = hex_val(v[i + 4]);
                let h4 = hex_val(v[i + 5]);
                match (h1, h2, h3, h4) {
                    (Some(a), Some(b), Some(g), Some(d)) => {
                        let u = a * 4096 + b * 256 + g * 16 + d;
                        if 0xD800 <= u && u < 0xDC00 {
                            // A high surrogate: a paired low surrogate must follow.
                            if n - i < 12 || v[i + 6] != '\\' || v[i + 7] != 'u' {
                                return Err(ManifestError::ParseError);
                            }
                            let h5 = hex_val(v[i + 8]);
                            let h6 = hex_val(v[i + 9]);
                            let h7 = hex_val(v[i + 10]);
                            let h8 = hex_val(v[i + 11]);
                            match (h5, h6, h7, h8) {
                                (Some(a2), Some(b2), Some(g2), Some(d2)) => {
                                    let u2 = a2 * 4096 + b2 * 256 + g2 * 16 + d2;
                                    if 0xDC00 <= u2 && u2 < 0xE000 {
                                        let cp = 0x10000 + (u - 0xD800) * 0x400 + (u2 - 0xDC00);
                                        match char_from_u32(cp) {
                                            Some(ch) => {
                                                proof {
                                                    lemma_char_of(ch, cp);
                                                }
                                                acc.push(ch);
                                                i += 12;
                                            },
                                            None => {
                                                proof {
                                                    assert(false);
                                                }
                                                return Err(ManifestError::ParseError);
                                            },
                                        }
                                    } else {
                                        return Err(ManifestError::ParseError);
                                    }
                                },
                                _ => {
                                    return Err(ManifestError::ParseError);
                                },
                            }
                        } else if 0xDC00 <= u && u < 0xE000 {
                            return Err(ManifestError::ParseError);
                        } else {
                            match char_from_u32(u) {
                                Some(ch) => {
                                    proof {
                                        lemma_char_of(ch, u);
                                    }
                                    acc.push(ch);
                                    i += 6;
                                },
                                None => {
                                    proof {
                                        assert(false);
                                    }
                                    return Err(ManifestError::ParseError);
                                },
                            }
                        }
                    },
                    _ => {
                        return Err(ManifestError::ParseError);
                    },
                }
            } else {
                return Err(ManifestError::ParseError);
            }
        } else {
            let u = c as u32;
            if u < 0x20 {
                return Err(ManifestError::ParseError);
            }
            acc.push(c);
            i += 1;
        }
    }
    Err(ManifestError::ParseError)
}

/// Parses a number lexeme: the JSON number grammar, returning the lexeme's
/// own text and the position after it.
fn parse_number(v: &Vec<char>, pos: usize) -> (r: Result<(String, usize), ManifestError>)
    requires
        pos < v@.len(),
    ensures
        r matches Ok(t) ==> pos < t.1 <= v@.len(),
        r is Err ==> r == Err::<(String, usize), ManifestError>(ManifestError::ParseError),
        match spec_parse_number(v@, pos as int) {
            Ok(t) => r matches Ok(rt) && rt.0@ == t.0 && rt.1 == t.1,
            Err(e) => r == Err::<(String, usize), ManifestError>(e),
        },
{
    let n = v.len();
    let i = if v[pos] == '-' {
        pos + 1
    } else {
        pos
    };
    if i >= n {
        return Err(ManifestError::ParseError);
    }
    let u = v[i] as u32;
    if !(48 <= u && u <= 57) {
        return Err(ManifestError::ParseError);
    }
    let d = if v[i] == '0' {
        i + 1
    } else {
        digits_end(v, i)
    };
    let after_frac: usize;
    if d < n && v[d] == '.' {
        let f = digits_end(v, d + 1);
        if f == d + 1 {
            return Err(ManifestError::ParseError);
        }
        after_frac = f;
    } else {
        after_frac = d;
    }
    let end: usize;
    if after_frac < n && (v[after_frac] == 'e' || v[after_frac] == 'E') {
        let s = if after_frac + 1 < n && (v[after_frac + 1] == '+' || v[after_frac + 1] == '-') {
            after_frac + 2
        } else {
            after_frac + 1
        };
        let e2 = digits_end(v, s);
        if e2 == s {
            return Err(ManifestError::ParseError);
        }
        end = e2;
    } else {
        end = after_frac;
    }
    let mut acc: Vec<char> = Vec::new();
    let mut k: usize = pos;
    proof {
        assert(acc@ =~= v@.subrange(pos as int, pos as int));
    }
    while k < end
        invariant
            pos <= k <= end,
            end <= v@.len(),
            acc@ == v@.subrange(pos as int, k as int),
        decreases end - k,
    {
        acc.push(v[k]);
        proof {
            assert(v@.subrange(pos as int, k as int).push(v@[k as int]) =~= v@.subrange(
                pos as int,
                k as int + 1,
            ));
        }
        k += 1;
    }
    Ok((chars_to_string(&acc), end))
}

/// Parses one JSON value starting at `pos`, skipping leading whitespace;
/// returns the value and the position after it.
#[verifier::loop_isolation(false)]
#[verifier::rlimit(100)]
pub(crate) fn parse_value(v: &Vec<char>, pos: usize) -> (r: Result<(Json, usize), ManifestError>)
    requires
        pos <= v@.len(),
    ensures
        r matches Ok(t) ==> pos < t.1 <= v@.len(),
        r is Err ==> r == Err::<(Json, usize), ManifestError>(ManifestError::ParseError),
        match spec_parse_value(v@, pos as int) {
            Ok(t) => r matches Ok(rt) && rt.0@ == t.0 && rt.1 == t.1,
            Err(e) => r == Err::<(Json, usize), ManifestError>(e),
        },
    decreases v@.len() - pos,
{
    let n = v.len();
    let i = skip_ws(v, pos);
    if i >= n {
        return Err(ManifestError::ParseError);
    }
    let c = v[i];
    let cu = c as u32;
    if c == 'n' {
        if n - i >= 4 && v[i + 1] == 'u' && v[i + 2] == 'l' && v[i + 3] == 'l' {
            Ok((Json::Null, i + 4))
        } else {
            Err(ManifestError::ParseError)
        }
    } else if c == 't' {
        if n - i >= 4 && v[i + 1] == 'r' && v[i + 2] == 'u' && v[i + 3] == 'e' {
            Ok((Json::Bool(true), i + 4))
        } else {
            Err(ManifestError::ParseError)
        }
    } else if c == 'f' {
        if n - i >= 5 && v[i + 1] == 'a' && v[i + 2] == 'l' && v[i + 3] == 's' && v[i + 4] == 'e' {
            Ok((Json::Bool(false), i + 5))
        } else {
            Err(ManifestError::ParseError)
        }
    } else if c == '"' {
        match parse_string(v, i) {
            Ok((s, p)) => Ok((Json::Str(s), p)),
            Err(e) => Err(e),
        }
    } else if c == '[' {
        let i2 = skip_ws(v, i + 1);
        if i2 < n && v[i2] == ']' {
            let items: Vec<Json> = Vec::new();
            proof {
                assert(json_views(items@) == Seq::<JsonV>::empty());
            }
            return Ok((Json::Arr(items), i2 + 1));
        }
        let mut items: Vec<Json> = Vec::new();
        let mut cur: usize = i + 1;
        proof {
            assert(json_views(items@) == Seq::<JsonV>::empty());
        }
        loop
            invariant
                pos < cur <= n,
                match spec_parse_items_tail(v@, cur as int, json_views(items@)) {
                    Ok(t) => spec_parse_value(v@, pos as int) == Ok::<(JsonV, int), ManifestError>(
                        (JsonV::Arr(t.0), t.1),
                    ),
                    Err(e) => spec_parse_value(v@, pos as int) == Err::<
                        (JsonV, int),
                        ManifestError,
                    >(e),
                },
            decreases n - cur,
        {
            match parse_value(v, cur) {
                Ok((item, np)) => {
                    let ghost items_old = items@;
                    let ghost itemv = item@;
                    items.push(item);
                    proof {
                        lemma_views_snoc(items_old, items@[items_old.len() as int]);
                        assert(json_views(items@) =~= json_views(items_old).push(itemv)) by {
                            assert(json_views(items_old) + seq![itemv] =~= json_views(
                                items_old,
                            ).push(itemv));
                        }
                    }
                    let j = skip_ws(v, np);
                    if j < n && v[j] == ',' {
                        cur = j + 1;
                    } else if j < n && v[j] == ']' {
                        return Ok((Json::Arr(items), j + 1));
                    } else {
                        return Err(ManifestError::ParseError);
                    }
                },
                Err(e) => {
                    return Err(e);
                },
            }
        }
    } else if c == '{' {
        let i2 = skip_ws(v, i + 1);
        if i2 < n && v[i2] == '}' {
            let fields: Vec<(String, Json)> = Vec::new();
            proof {
                assert(json_field_views(fields@) == Seq::<(Seq<char>, JsonV)>::empty());
            }
            return Ok((Json::Obj(fields), i2 + 1));
        }
        let mut fields: Vec<(String, Json)> = Vec::new();
        let mut cur: usize = i + 1;
        proof {
            assert(json_field_views(fields@) == Seq::<(Seq<char>, JsonV)>::empty());
        }
        loop
            invariant
                pos < cur <= n,
                match spec_parse_fields_tail(v@, cur as int, json_field_views(fields@)) {
                    Ok(t) => spec_parse_value(v@, pos as int) == Ok::<(JsonV, int), ManifestError>(
                        (JsonV::Obj(t.0), t.1),
                    ),
                    Err(e) => spec_parse_value(v@, pos as int) == Err::<
                        (JsonV, int),
                        ManifestError,
                    >(e),
                },
            decreases n - cur,
        {
            let k = skip_ws(v, cur);
            if k >= n {
                return Err(ManifestError::ParseError);
            }
            match parse_string(v, k) {
                Ok((key, kp)) => {
                    let cl = skip_ws(v, kp);
                    if !(cl < n && v[cl] == ':') {
                        return Err(ManifestError::ParseError);
                    }
                    match parse_value(v, cl + 1) {
                        Ok((val, np)) => {
                            let ghost fields_old = fields@;
                            let ghost keyv = key@;
                            let ghost valv = val@;
                            fields.push((key, val));
                            proof {
                                lemma_field_views_snoc(
                                    fields_old,
                                    fields@[fields_old.len() as int],
                                );
                                assert(json_field_views(fields@) =~= json_field_views(
                                    fields_old,
                                ).push((keyv, valv))) by {
                                    assert(json_field_views(fields_old) + seq![(keyv, valv)]
                                        =~= json_field_views(fields_old).push((keyv, valv)));
                                }
                            }
                            let j = skip_ws(v, np);
                            if j < n && v[j] == ',' {
                                cur = j + 1;
                            } else if j < n && v[j] == '}' {
                                return Ok((Json::Obj(fields), j + 1));
                            } else {
                                return Err(ManifestError::ParseError);
                            }
                        },
                        Err(e) => {
                            return Err(e);
                        },
                    }
                },
                Err(e) => {
                    return Err(e);
                },
            }
        }
    } else if c == '-' || (48 <= cu && cu <= 57) {
        match parse_number(v, i) {
            Ok((s, p)) => Ok((Json::Num(s), p)),
            Err(e) => Err(e),
        }
    } else {
        Err(ManifestError::ParseError)
    }
}

/// Parses a complete JSON document: one value with only whitespace after it.
pub(crate) fn parse_text(s: &str) -> (r: Result<Json, ManifestError>)
    ensures
        r is Err ==> r == Err::<Json, ManifestError>(ManifestError::ParseError),
        match spec_parse_text(s@) {
            Ok(jv) => r matches Ok(j) && j@ == jv,
            Err(e) => r == Err::<Json, ManifestError>(e),
        },
{
    let v = str_to_chars(s);
    match parse_value(&v, 0) {
        Ok((j, p)) => {
            let q = skip_ws(&v, p);
            if q == v.len() {
                Ok(j)
            } else {
                Err(ManifestError::ParseError)
            }
        },
        Err(e) => Err(e),
    }
}

} // verus!
