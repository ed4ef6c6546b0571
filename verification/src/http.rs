//! What a handler answers: a status, a content type and a body; and the JSON
//! text that the JSON protocols answer with.
use vstd::prelude::*;
use crate::runtime::hex_digit;
use crate::table::Table;
use crate::text::{append, push_char};
use vstd::string::StringSliceAdditionalSpecFns;

verus! {

/// An HTTP answer.
#[derive(Debug)]
pub struct Reply {
    pub status: u16,
    pub content_type: String,
    pub body: String,
}

/// The content type of the XML answers.
pub const XML_TYPE: &'static str = "text/xml;charset=UTF-8";

/// The content type of the JSON 1.0 answers.
pub const JSON_TYPE: &'static str = "application/x-amz-json-1.0";

/// The content type of the JSON 1.1 answers.
pub const JSON11_TYPE: &'static str = "application/x-amz-json-1.1";

/// An answer with the given status, content type and body.
pub fn reply(status: u16, content_type: &str, body: String) -> (r: Reply)
    ensures
        r.status == status,
        r.content_type@ == content_type@,
        r.body@ == body@,
{
    Reply { status, content_type: content_type.to_owned(), body }
}

/// How `serde_json` writes one character inside a JSON string: `"` and `\`
/// and the control characters below U+0020 are escaped, the short forms
/// (`\b`, `\t`, `\n`, `\f`, `\r`) where there is one, else `\u00XX` in lower-case hex.
pub open spec fn json_escape_char(c: char) -> Seq<char> {
    if c == '"' {
        seq!['\\', '"']
    } else if c == '\\' {
        seq!['\\', '\\']
    } else if c == '\u{8}' {
        seq!['\\', 'b']
    } else if c == '\t' {
        seq!['\\', 't']
    } else if c == '\n' {
        seq!['\\', 'n']
    } else if c == '\u{c}' {
        seq!['\\', 'f']
    } else if c == '\r' {
        seq!['\\', 'r']
    } else if ' ' > c {
        seq!['\\', 'u', '0', '0', hex_digit(((c as u32) / 16) as u8), hex_digit(((c as u32) % 16) as u8)]
    } else {
        seq![c]
    }
}

/// The escaped characters of a JSON string.
pub open spec fn json_escaped(s: Seq<char>) -> Seq<char>
    decreases s.len(),
{
    if s.len() == 0 {
        Seq::empty()
    } else {
        json_escaped(s.drop_last()) + json_escape_char(s.last())
    }
}

/// A JSON string literal: the escaped text in double quotes.
pub open spec fn json_str(s: Seq<char>) -> Seq<char> {
    seq!['"'] + json_escaped(s) + seq!['"']
}

/// The hex digit of a value below 16.
fn hex_char(v: u32) -> (c: char)
    requires
        v < 16,
    ensures
        c == hex_digit(v as u8),
{
    if v < 10 {
        ((48 + v) as u8) as char
    } else {
        ((87 + v) as u8) as char
    }
}

/// Appends the escaped form of one character.
fn append_json_char(s: &mut String, c: char)
    ensures
        final(s)@ == old(s)@ + json_escape_char(c),
{
    if c == '"' {
        append(s, "\\\"");
        assert("\\\""@ =~= seq!['\\', '"']) by { reveal_strlit("\\\""); }
    } else if c == '\\' {
        append(s, "\\\\");
        assert("\\\\"@ =~= seq!['\\', '\\']) by { reveal_strlit("\\\\"); }
    } else if c == '\u{8}' {
        push_char(s, '\\');
        push_char(s, 'b');
    } else if c == '\t' {
        push_char(s, '\\');
        push_char(s, 't');
    } else if c == '\n' {
        push_char(s, '\\');
        push_char(s, 'n');
    } else if c == '\u{c}' {
        push_char(s, '\\');
        push_char(s, 'f');
    } else if c == '\r' {
        push_char(s, '\\');
        push_char(s, 'r');
    } else if ' ' > c {
        let v = c as u32;
        push_char(s, '\\');
        push_char(s, 'u');
        push_char(s, '0');
        push_char(s, '0');
        push_char(s, hex_char(v / 16));
        push_char(s, hex_char(v % 16));
    } else {
        push_char(s, c);
    }
    assert(s@ =~= old(s)@ + json_escape_char(c));
}

/// Appends `t` as a JSON string literal.
pub fn append_json_str(s: &mut String, t: &str)
    ensures
        final(s)@ == old(s)@ + json_str(t@),
{
    let v = crate::text::to_chars(t);
    push_char(s, '"');
    let ghost head = s@;
    let mut i: usize = 0;
    while i < v.len()
        invariant
            v@ == t@,
            i <= v@.len(),
            s@ == head + json_escaped(v@.subrange(0, i as int)),
        decreases v@.len() - i,
    {
        assert(v@.subrange(0, i + 1).drop_last() =~= v@.subrange(0, i as int));
        append_json_char(s, v[i]);
        i = i + 1;
        assert(s@ =~= head + json_escaped(v@.subrange(0, i as int)));
    }
    assert(v@.subrange(0, v@.len() as int) =~= v@);
    push_char(s, '"');
    assert(s@ =~= old(s)@ + json_str(t@));
}

/// A JSON array of strings: `[` the literals joined by `,` `]`.
pub open spec fn json_str_array(items: Seq<Seq<char>>) -> Seq<char> {
    seq!['['] + json_str_list(items) + seq![']']
}

/// The string literals of `items`, joined by `,`.
pub open spec fn json_str_list(items: Seq<Seq<char>>) -> Seq<char>
    decreases items.len(),
{
    if items.len() == 0 {
        Seq::empty()
    } else if items.len() == 1 {
        json_str(items[0])
    } else {
        json_str_list(items.drop_last()) + seq![','] + json_str(items.last())
    }
}

/// Appends a JSON array of strings.
pub fn append_json_str_array(s: &mut String, items: &Vec<String>)
    ensures
        final(s)@ == old(s)@ + json_str_array(crate::text::views(items@)),
{
    let ghost its = crate::text::views(items@);
    push_char(s, '[');
    let ghost head = s@;
    let mut i: usize = 0;
    while i < items.len()
        invariant
            its == crate::text::views(items@),
            i <= its.len(),
            s@ == head + json_str_list(its.subrange(0, i as int)),
        decreases its.len() - i,
    {
        assert(its.subrange(0, i + 1).drop_last() =~= its.subrange(0, i as int));
        if i > 0 {
            push_char(s, ',');
        }
        append_json_str(s, items[i].as_str());
        i = i + 1;
        assert(s@ =~= head + json_str_list(its.subrange(0, i as int)));
    }
    assert(its.subrange(0, its.len() as int) =~= its);
    push_char(s, ']');
    assert(s@ =~= old(s)@ + json_str_array(its));
}


/// The name/value pairs, decoded, that `form_urlencoded::parse` reads from a
/// byte string.
pub uninterp spec fn form_pairs(data: Seq<u8>) -> Seq<(Seq<char>, Seq<char>)>;

/// `form_urlencoded::parse`: the decoded name/value pairs of an
/// `application/x-www-form-urlencoded` byte string, in order.
#[verifier::external_body]
pub fn parse_form(data: &[u8]) -> (r: Vec<(String, String)>)
    ensures
        r@.map_values(|p: (String, String)| (p.0@, p.1@)) == form_pairs(data@),
{
    form_urlencoded::parse(data).map(|(k, v)| (k.into_owned(), v.into_owned())).collect()
}

/// `m` with the pairs `ps` set in order, a later pair winning over an earlier.
pub open spec fn with_pairs(m: Map<Seq<char>, Seq<char>>, ps: Seq<(Seq<char>, Seq<char>)>) -> Map<
    Seq<char>,
    Seq<char>,
>
    decreases ps.len(),
{
    if ps.len() == 0 {
        m
    } else {
        with_pairs(m, ps.drop_last()).insert(ps.last().0, ps.last().1)
    }
}

/// The parameters of a request: those of its query string, then those of its
/// form body, which win.
pub open spec fn request_param_map(query: Option<Seq<char>>, body: Seq<u8>) -> Map<Seq<char>, Seq<char>> {
    let m = match query {
        Some(q) => with_pairs(Map::empty(), form_pairs(vstd::utf8::encode_utf8(q))),
        None => Map::empty(),
    };
    if body.len() > 0 {
        with_pairs(m, form_pairs(body))
    } else {
        m
    }
}

/// Sets the pairs of `ps` in `t`, in order.
pub fn set_pairs(t: &mut Table<String>, ps: Vec<(String, String)>)
    requires
        old(t).wf(),
    ensures
        final(t).wf(),
        final(t)@.map_values(|v: String| v@) == with_pairs(
            old(t)@.map_values(|v: String| v@),
            ps@.map_values(|p: (String, String)| (p.0@, p.1@)),
        ),
{
    let ghost pv = ps@.map_values(|p: (String, String)| (p.0@, p.1@));
    let ghost m0 = old(t)@.map_values(|v: String| v@);
    let mut i: usize = 0;
    assert(pv.take(0) =~= Seq::<(Seq<char>, Seq<char>)>::empty());
    while i < ps.len()
        invariant
            t.wf(),
            i <= ps@.len(),
            pv == ps@.map_values(|p: (String, String)| (p.0@, p.1@)),
            t@.map_values(|v: String| v@) == with_pairs(m0, pv.take(i as int)),
        decreases ps@.len() - i,
    {
        let ghost before = t@;
        t.insert(ps[i].0.clone(), ps[i].1.clone());
        proof {
            assert(pv.take(i + 1).drop_last() =~= pv.take(i as int));
            assert(pv.take(i + 1).last() == pv[i as int]);
            crate::table::lemma_map_values_insert(before, ps@[i as int].0@, t@[ps@[i as int].0@], |v: String| v@);
        }
        i = i + 1;
    }
    assert(pv.take(ps@.len() as int) =~= pv);
}

/// The parameters of a request, read from its query string (if any) and then
/// from its form body (if not empty).
pub fn request_params(query: Option<&str>, body: &[u8]) -> (r: Table<String>)
    ensures
        r.wf(),
        r@.map_values(|v: String| v@) == request_param_map(
            match query {
                Some(q) => Some(q@),
                None => None,
            },
            body@,
        ),
{
    let mut t: Table<String> = Table::new();
    assert(t@.map_values(|v: String| v@) =~= Map::<Seq<char>, Seq<char>>::empty());
    match query {
        Some(q) => {
            let bytes = crate::runtime::utf8_bytes(q);
            let ps = parse_form(bytes.as_slice());
            set_pairs(&mut t, ps);
        },
        None => {},
    }
    if body.len() > 0 {
        let ps = parse_form(body);
        set_pairs(&mut t, ps);
    }
    t
}

} // verus!
