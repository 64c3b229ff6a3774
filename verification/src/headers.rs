//! HTTP header fields: what a header map holds, and which of its fields end
//! at the proxy.

use crate::error::ProxyHttpError;
use crate::text;
use axum::http::{HeaderMap, HeaderName, HeaderValue};
use vstd::prelude::*;
use vstd::string::StrSliceExecFns;

verus! {

/// The header map of the `http` crate.
#[verifier::external_type_specification]
#[verifier::external_body]
#[verifier::reject_recursive_types(T)]
pub struct ExHeaderMap<T>(HeaderMap<T>);

/// The header name of the `http` crate.
#[verifier::external_type_specification]
#[verifier::external_body]
pub struct ExHeaderName(HeaderName);

/// The header value of the `http` crate.
#[verifier::external_type_specification]
#[verifier::external_body]
pub struct ExHeaderValue(HeaderValue);

/// Header fields: for each name, the values of that field in order.
pub type Fields = Map<Seq<char>, Seq<Seq<u8>>>;

/// The text of a header name, in lower case. Names are equal where their texts
/// are. A name of more than 64 bytes that got into a map from a plain string may
/// hold zero bytes, in place of the characters that no name is made of.
pub uninterp spec fn name_text(name: HeaderName) -> Seq<char>;

/// What a header map holds: for the text of each field name, the values of that
/// field in the order in which they were added.
pub uninterp spec fn header_fields(headers: HeaderMap) -> Map<Seq<char>, Seq<Seq<u8>>>;

/// The byte strings that a list of byte vectors holds.
pub open spec fn byte_strings(values: Seq<Vec<u8>>) -> Seq<Seq<u8>> {
    Seq::new(values.len(), |i: int| values[i]@)
}

/// The texts of a list of header names.
pub open spec fn texts(names: Seq<HeaderName>) -> Seq<Seq<char>> {
    Seq::new(names.len(), |i: int| name_text(names[i]))
}

/// The values of the field `name`, none where the map has no such field.
pub open spec fn field_values(fields: Fields, name: Seq<char>) -> Seq<Seq<u8>> {
    if fields.contains_key(name) {
        fields[name]
    } else {
        Seq::empty()
    }
}

/// A byte that a header value may hold and still be read as text.
pub open spec fn is_visible_ascii(byte: u8) -> bool {
    32 <= byte < 127 || byte == 9
}

/// A header value read as text, where all its bytes are visible ASCII.
pub open spec fn header_text(value: Seq<u8>) -> Option<Seq<char>> {
    if forall|i: int| 0 <= i < value.len() ==> is_visible_ascii(#[trigger] value[i]) {
        Some(Seq::new(value.len(), |i: int| value[i] as char))
    } else {
        None
    }
}

/// A character that a header name may be made of.
pub open spec fn is_name_char(c: char) -> bool {
    ||| '0' <= c <= '9'
    ||| 'A' <= c <= 'Z'
    ||| 'a' <= c <= 'z'
    ||| c == '!' || c == '#' || c == '$' || c == '%' || c == '&' || c == '\'' || c == '*'
    ||| c == '+' || c == '-' || c == '.' || c == '^' || c == '_' || c == '`' || c == '|' || c == '~'
}

/// `c` in lower case, for the letters of ASCII.
pub open spec fn ascii_lower(c: char) -> char {
    if 'A' <= c <= 'Z' {
        (c as int + 32) as char
    } else {
        c
    }
}

/// `text` with its ASCII letters in lower case.
pub open spec fn lowercase(text: Seq<char>) -> Seq<char> {
    Seq::new(text.len(), |i: int| ascii_lower(text[i]))
}

/// The most characters that a header name may have.
pub const MAX_HEADER_NAME_LEN: usize = 65535;

/// The header name that `token` spells, in lower case.
pub open spec fn header_name(token: Seq<char>) -> Option<Seq<char>> {
    if 0 < token.len() <= MAX_HEADER_NAME_LEN && forall|i: int|
        0 <= i < token.len() ==> is_name_char(#[trigger] token[i]) {
        Some(lowercase(token))
    } else {
        None
    }
}

/// `HeaderName::as_str`: the text of the name.
pub assume_specification[ HeaderName::as_str ](name: &HeaderName) -> (spelled: &str)
    ensures
        spelled@ == name_text(*name),
;

/// `HeaderName::from_static`: the name that `src` spells, for a `src` that is a
/// name in lower case. It panics on any other.
pub assume_specification[ HeaderName::from_static ](src: &'static str) -> (name: HeaderName)
    requires
        header_name(src@) == Some(src@),
    ensures
        name_text(name) == src@,
;

/// `HeaderMap::get`: the first value of the field `name`, `None` where the map
/// has no such field. A field of the map has at least one value.
#[verifier::external_body]
fn first_header_value(headers: &HeaderMap, name: &HeaderName) -> (value: Option<Vec<u8>>)
    ensures
        match value {
            Some(value) => header_fields(*headers).contains_key(name_text(*name)) && header_fields(
                *headers,
            )[name_text(*name)].len() > 0 && value@ == header_fields(*headers)[name_text(*name)][0],
            None => !header_fields(*headers).contains_key(name_text(*name)),
        },
{
    headers.get(name).map(|value| value.as_bytes().to_vec())
}

/// `HeaderMap::get_all`: the values of the field `name` in the order in which
/// they were added, none where the map has no such field.
#[verifier::external_body]
fn header_values(headers: &HeaderMap, name: &HeaderName) -> (values: Vec<Vec<u8>>)
    ensures
        byte_strings(values@) == field_values(header_fields(*headers), name_text(*name)),
{
    headers.get_all(name).iter().map(|value| value.as_bytes().to_vec()).collect()
}

/// `HeaderMap::keys`: the name of each field once, in no promised order.
#[verifier::external_body]
fn header_names(headers: &HeaderMap) -> (names: Vec<HeaderName>)
    ensures
        texts(names@).no_duplicates(),
        texts(names@).to_set() == header_fields(*headers).dom(),
{
    headers.keys().cloned().collect()
}

/// `HeaderMap::remove`: the field `name` leaves with all its values, every
/// other field stays as it is.
#[verifier::external_body]
fn remove_header(headers: &mut HeaderMap, name: &HeaderName)
    ensures
        header_fields(*final(headers)) == header_fields(*old(headers)).remove(name_text(*name)),
{
    headers.remove(name);
}

/// `HeaderValue::to_str`: the text of a header value whose bytes are all
/// visible ASCII, `None` for any other bytes. Bytes that
/// `HeaderValue::from_bytes` does not take are not all visible ASCII.
#[verifier::external_body]
fn read_header_text(value: &[u8]) -> (text: Option<String>)
    ensures
        match text {
            Some(text) => header_text(value@) == Some(text@),
            None => header_text(value@) is None,
        },
{
    let value = HeaderValue::from_bytes(value).ok()?;
    value.to_str().ok().map(|text| text.to_owned())
}

/// `HeaderName::from_str`: the name that `token` spells, in lower case, `None`
/// where it spells none.
#[verifier::external_body]
fn parse_header_name(token: &str) -> (name: Option<HeaderName>)
    ensures
        match name {
            Some(name) => header_name(token@) == Some(name_text(name)),
            None => header_name(token@) is None,
        },
{
    token.parse::<HeaderName>().ok()
}

/// A blank that may stand round a name in a comma-separated list.
pub open spec fn is_blank(c: char) -> bool {
    c == ' ' || c == '\t'
}

/// `text` without the blanks at either end.
pub open spec fn trimmed(text: Seq<char>) -> Seq<char>
    decreases text.len(),
{
    if text.len() > 0 && is_blank(text[0]) {
        trimmed(text.skip(1))
    } else if text.len() > 0 && is_blank(text.last()) {
        trimmed(text.drop_last())
    } else {
        text
    }
}

/// The members of a comma-separated list: the parts of `text` between its
/// commas, in order.
pub open spec fn members(text: Seq<char>) -> Seq<Seq<char>>
    decreases text.len(),
{
    if text.len() == 0 {
        seq![Seq::empty()]
    } else {
        let before = members(text.drop_last());
        if text.last() == ',' {
            before.push(Seq::empty())
        } else {
            before.drop_last().push(before.last().push(text.last()))
        }
    }
}

/// The header names that the members of a list spell, in order. A member that
/// spells none is passed over.
pub open spec fn member_names(list: Seq<Seq<char>>) -> Seq<Seq<char>>
    decreases list.len(),
{
    if list.len() == 0 {
        Seq::empty()
    } else {
        match header_name(trimmed(list.last())) {
            Some(name) => member_names(list.drop_last()).push(name),
            None => member_names(list.drop_last()),
        }
    }
}

/// The header names that one value of a `connection` field nominates, in order.
/// A value that is no text nominates none.
pub open spec fn value_nominations(value: Seq<u8>) -> Seq<Seq<char>> {
    match header_text(value) {
        Some(text) => member_names(members(text)),
        None => Seq::empty(),
    }
}

/// The header names that the values of a `connection` field nominate, in order.
pub open spec fn nominations(values: Seq<Seq<u8>>) -> Seq<Seq<char>>
    decreases values.len(),
{
    if values.len() == 0 {
        Seq::empty()
    } else {
        nominations(values.drop_last()) + value_nominations(values.last())
    }
}

/// The fields that concern one connection whatever else a message holds.
pub open spec fn fixed_hop_by_hop() -> Seq<Seq<char>> {
    seq![
        "connection"@,
        "keep-alive"@,
        "te"@,
        "trailer"@,
        "transfer-encoding"@,
        "upgrade"@,
    ]
}

/// The fields that concern one connection: the fixed ones, then those that the
/// `connection` field nominates.
pub open spec fn hop_by_hop_list(fields: Fields) -> Seq<Seq<char>> {
    fixed_hop_by_hop() + nominations(field_values(fields, "connection"@))
}

/// `name` begins with `proxy-`, in upper or lower case.
pub open spec fn is_proxy_name(name: Seq<char>) -> bool {
    "proxy-"@.is_prefix_of(lowercase(name))
}

/// The field `name` of a message with these fields ends at the proxy.
pub open spec fn is_hop_by_hop(fields: Fields, name: Seq<char>) -> bool {
    hop_by_hop_list(fields).contains(name) || is_proxy_name(name)
}

/// The fields of a message that pass the proxy, each with all its values.
pub open spec fn end_to_end(fields: Fields) -> Fields {
    Map::new(
        |name: Seq<char>| fields.contains_key(name) && !is_hop_by_hop(fields, name),
        |name: Seq<char>| fields[name],
    )
}

/// A header text is ASCII.
proof fn lemma_header_text_is_ascii(value: Seq<u8>)
    ensures
        header_text(value) matches Some(text) ==> vstd::utf8::is_ascii_chars(text),
{
    if let Some(text) = header_text(value) {
        assert forall|i: int| 0 <= i < text.len() implies 0 <= #[trigger] text[i] < 128 by {
            assert(is_visible_ascii(value[i]));
        }
    }
}

/// Pushes the header name that `text[start..end]` spells, if it spells one.
fn push_member_name(names: &mut Vec<HeaderName>, text: &str, start: usize, end: usize)
    requires
        vstd::utf8::is_ascii_chars(text@),
        start <= end <= text@.len(),
    ensures
        texts(final(names)@) == (match header_name(trimmed(text@.subrange(start as int, end as int))) {
            Some(name) => texts(old(names)@).push(name),
            None => texts(old(names)@),
        }),
{
    let ghost member = text@.subrange(start as int, end as int);
    let mut first: usize = start;
    let mut last: usize = end;
    while first < last && (text.get_ascii(first) == 32 || text.get_ascii(first) == 9)
        invariant
            vstd::utf8::is_ascii_chars(text@),
            start <= first <= last <= text@.len(),
            trimmed(member) == trimmed(text@.subrange(first as int, last as int)),
        decreases last - first,
    {
        assert(text@.subrange(first as int, last as int).skip(1) =~= text@.subrange(first + 1, last as int));
        first = first + 1;
    }
    while first < last && (text.get_ascii(last - 1) == 32 || text.get_ascii(last - 1) == 9)
        invariant
            vstd::utf8::is_ascii_chars(text@),
            start <= first <= last <= text@.len(),
            first < last ==> !is_blank(text@[first as int]),
            trimmed(member) == trimmed(text@.subrange(first as int, last as int)),
        decreases last - first,
    {
        assert(text@.subrange(first as int, last as int).drop_last() =~= text@.subrange(first as int, last - 1));
        last = last - 1;
    }
    let token = text.substring_ascii(first, last);
    assert(trimmed(token@) == token@);
    if let Some(name) = parse_header_name(token) {
        names.push(name);
    }
    assert(texts(names@) =~= (match header_name(trimmed(member)) {
        Some(name) => texts(old(names)@).push(name),
        None => texts(old(names)@),
    }));
}

/// Pushes the header names that the comma-separated list `text` spells.
fn push_list_names(names: &mut Vec<HeaderName>, text: &str)
    requires
        vstd::utf8::is_ascii_chars(text@),
    ensures
        texts(final(names)@) == texts(old(names)@) + member_names(members(text@)),
{
    let length: usize = text.unicode_len();
    let mut start: usize = 0;
    let mut end: usize = 0;
    let ghost mut done: Seq<Seq<char>> = Seq::empty();
    assert(texts(names@) =~= texts(old(names)@) + member_names(done));
    assert(text@.take(0) =~= Seq::<char>::empty());
    assert(members(text@.take(0)) =~= done.push(text@.subrange(0, 0)));
    while end < length
        invariant
            vstd::utf8::is_ascii_chars(text@),
            length == text@.len(),
            start <= end <= length,
            members(text@.take(end as int)) == done.push(text@.subrange(start as int, end as int)),
            texts(names@) == texts(old(names)@) + member_names(done),
        decreases length - end,
    {
        let ghost current = text@.subrange(start as int, end as int);
        assert(text@.take(end + 1).drop_last() =~= text@.take(end as int));
        assert(done.push(current).drop_last() =~= done);
        if text.get_ascii(end) == 44 {
            push_member_name(names, text, start, end);
            proof {
                assert(texts(names@) =~= texts(old(names)@) + member_names(done.push(current)));
                done = done.push(current);
                assert(text@.subrange(end + 1, end + 1) =~= Seq::<char>::empty());
            }
            start = end + 1;
        } else {
            assert(text@.subrange(start as int, end + 1) =~= current.push(text@[end as int]));
        }
        end = end + 1;
    }
    let ghost current = text@.subrange(start as int, end as int);
    assert(text@.take(end as int) =~= text@);
    assert(done.push(current).drop_last() =~= done);
    push_member_name(names, text, start, end);
    assert(texts(names@) =~= texts(old(names)@) + member_names(members(text@)));
}

/// The names of the fixed connection fields are header names in lower case.
proof fn lemma_fixed_names_are_names()
    ensures
        forall|i: int|
            0 <= i < fixed_hop_by_hop().len() ==> header_name(#[trigger] fixed_hop_by_hop()[i]) == Some(
                fixed_hop_by_hop()[i],
            ),
{
    reveal_strlit("connection");
    reveal_strlit("keep-alive");
    reveal_strlit("te");
    reveal_strlit("trailer");
    reveal_strlit("transfer-encoding");
    reveal_strlit("upgrade");
    assert forall|i: int| 0 <= i < fixed_hop_by_hop().len() implies header_name(#[trigger] fixed_hop_by_hop()[i])
        == Some(fixed_hop_by_hop()[i]) by {
        assert(lowercase(fixed_hop_by_hop()[i]) =~= fixed_hop_by_hop()[i]);
    }
}

/// The names of the fields that concern one connection: the fixed ones, then
/// those that the `connection` field nominates.
pub fn hop_by_hop_names(headers: &HeaderMap) -> (names: Vec<HeaderName>)
    ensures
        texts(names@) == hop_by_hop_list(header_fields(*headers)),
{
    proof {
        lemma_fixed_names_are_names();
    }
    let mut names: Vec<HeaderName> = vec![
        HeaderName::from_static("connection"),
        HeaderName::from_static("keep-alive"),
        HeaderName::from_static("te"),
        HeaderName::from_static("trailer"),
        HeaderName::from_static("transfer-encoding"),
        HeaderName::from_static("upgrade"),
    ];
    let values = header_values(headers, &names[0]);
    let ghost all = byte_strings(values@);
    let mut next: usize = 0;
    assert(texts(names@) =~= fixed_hop_by_hop() + nominations(all.take(0)));
    while next < values.len()
        invariant
            next <= values@.len(),
            all == byte_strings(values@),
            texts(names@) == fixed_hop_by_hop() + nominations(all.take(next as int)),
        decreases values@.len() - next,
    {
        let ghost before = texts(names@);
        proof {
            lemma_header_text_is_ascii(all[next as int]);
            assert(all.take(next + 1).drop_last() =~= all.take(next as int));
        }
        if let Some(text) = read_header_text(values[next].as_slice()) {
            push_list_names(&mut names, text.as_str());
        }
        assert(texts(names@) =~= before + value_nominations(all[next as int]));
        assert(texts(names@) =~= fixed_hop_by_hop() + nominations(all.take(next + 1)));
        next = next + 1;
    }
    assert(all.take(next as int) =~= all);
    names
}

/// Tells whether `name` begins with `proxy-`, in upper or lower case.
fn has_proxy_prefix(name: &str) -> (found: bool)
    ensures
        found == is_proxy_name(name@),
{
    proof {
        reveal_strlit("proxy-");
    }
    let prefix = "proxy-";
    if name.unicode_len() < 6 {
        return false;
    }
    let mut next: usize = 0;
    while next < 6
        invariant
            next <= 6 <= name@.len(),
            prefix@.len() == 6,
            prefix@ == "proxy-"@,
            forall|i: int| 0 <= i < 6 ==> ascii_lower(#[trigger] prefix@[i]) == prefix@[i],
            forall|i: int| 0 <= i < next ==> #[trigger] lowercase(name@)[i] == prefix@[i],
        decreases 6 - next,
    {
        let found = name.get_char(next);
        let wanted = prefix.get_char(next);
        if found != wanted && !('A' <= found && found <= 'Z' && (found as u32) + 32 == wanted as u32) {
            assert(lowercase(name@)[next as int] != prefix@[next as int]);
            return false;
        }
        next = next + 1;
    }
    true
}

/// Those of the names that begin with `proxy-`.
spec fn proxy_names(names: Seq<Seq<char>>) -> Set<Seq<char>> {
    Set::new(|name: Seq<char>| names.contains(name) && is_proxy_name(name))
}

/// Takes out of `headers` the fields that end at the proxy. The other fields
/// keep all their values.
pub fn strip_hop_by_hop_headers(headers: &mut HeaderMap)
    ensures
        header_fields(*final(headers)) == end_to_end(header_fields(*old(headers))),
{
    let ghost fields = header_fields(*headers);
    let names = hop_by_hop_names(headers);
    let present = header_names(headers);
    let ghost listed = texts(names@);
    let ghost all = texts(present@);
    let mut gone: usize = 0;
    while gone < names.len()
        invariant
            gone <= names@.len(),
            listed == texts(names@),
            header_fields(*headers) == fields.remove_keys(listed.take(gone as int).to_set()),
        decreases names@.len() - gone,
    {
        let ghost removed = listed.take(gone as int);
        remove_header(headers, &names[gone]);
        proof {
            broadcast use vstd::seq_lib::lemma_seq_contains_after_push;
            assert(listed.take(gone + 1) =~= removed.push(listed[gone as int]));
            assert(header_fields(*headers) =~= fields.remove_keys(listed.take(gone + 1).to_set()));
        }
        gone = gone + 1;
    }
    assert(listed.take(gone as int) =~= listed);
    let ghost others = fields.remove_keys(listed.to_set());
    let mut next: usize = 0;
    assert(others =~= others.remove_keys(proxy_names(all.take(0))));
    while next < present.len()
        invariant
            next <= present@.len(),
            all == texts(present@),
            header_fields(*headers) == others.remove_keys(proxy_names(all.take(next as int))),
        decreases present@.len() - next,
    {
        let ghost seen = all.take(next as int);
        if has_proxy_prefix(present[next].as_str()) {
            remove_header(headers, &present[next]);
        }
        proof {
            broadcast use vstd::seq_lib::lemma_seq_contains_after_push;
            assert(all.take(next + 1) =~= seen.push(all[next as int]));
            assert(header_fields(*headers) =~= others.remove_keys(proxy_names(all.take(next + 1))));
        }
        next = next + 1;
    }
    proof {
        assert(all.take(next as int) =~= all);
        assert forall|name: Seq<char>| fields.contains_key(name) implies all.contains(name) by {
            assert(all.to_set().contains(name));
        }
        assert(header_fields(*headers) =~= end_to_end(fields));
    }
}

/// The length that a message declares for its body, as the `content-length`
/// field gives it: the first value, read as text and as a decimal number.
pub open spec fn declared_length(fields: Fields) -> Result<Option<u64>, ProxyHttpError> {
    if !fields.contains_key("content-length"@) {
        Ok(None)
    } else {
        match header_text(fields["content-length"@][0]) {
            Some(text) => match text::parsed_u64(text) {
                Some(length) => Ok(Some(length)),
                None => Err(ProxyHttpError::InvalidContentLength),
            },
            None => Err(ProxyHttpError::InvalidContentLength),
        }
    }
}

/// The length that a message declares for its body, `None` where it declares
/// none.
pub fn declared_content_length(headers: &HeaderMap) -> (length: Result<Option<u64>, ProxyHttpError>)
    ensures
        length == declared_length(header_fields(*headers)),
{
    proof {
        reveal_strlit("content-length");
        assert(lowercase("content-length"@) =~= "content-length"@);
    }
    let value = match first_header_value(headers, &HeaderName::from_static("content-length")) {
        Some(value) => value,
        None => return Ok(None),
    };
    let text = match read_header_text(value.as_slice()) {
        Some(text) => text,
        None => return Err(ProxyHttpError::InvalidContentLength),
    };
    match text::parse_u64(text.as_str()) {
        Some(length) => Ok(Some(length)),
        None => Err(ProxyHttpError::InvalidContentLength),
    }
}

/// A list has at least one member.
proof fn lemma_members_not_empty(list: Seq<char>)
    ensures
        members(list).len() > 0,
    decreases list.len(),
{
    if list.len() > 0 {
        lemma_members_not_empty(list.drop_last());
    }
}

/// Two lists joined by a comma have the members of the first, then those of
/// the second.
proof fn lemma_members_join(left: Seq<char>, right: Seq<char>)
    ensures
        members(left.push(',') + right) == members(left) + members(right),
    decreases right.len(),
{
    let whole = left.push(',') + right;
    lemma_members_not_empty(right);
    if right.len() == 0 {
        assert(whole.drop_last() =~= left);
        assert(members(whole) =~= members(left) + members(right));
    } else {
        lemma_members_join(left, right.drop_last());
        lemma_members_not_empty(right.drop_last());
        assert(whole.drop_last() =~= left.push(',') + right.drop_last());
        assert(members(whole) =~= members(left) + members(right));
    }
}

/// A list without a comma is its only member.
proof fn lemma_members_of_one(list: Seq<char>)
    requires
        forall|i: int| 0 <= i < list.len() ==> list[i] != ',',
    ensures
        members(list) == seq![list],
    decreases list.len(),
{
    if list.len() == 0 {
        assert(list =~= Seq::empty());
    } else {
        let shorter = list.drop_last();
        assert forall|i: int| 0 <= i < shorter.len() implies shorter[i] != ',' by {
            assert(shorter[i] == list[i]);
        }
        lemma_members_of_one(shorter);
        assert(shorter.push(list.last()) =~= list);
        assert(members(list) =~= seq![list]);
    }
}

/// The name that a member spells is among the names of the list.
proof fn lemma_member_name_listed(list: Seq<Seq<char>>, place: int)
    requires
        0 <= place < list.len(),
        header_name(trimmed(list[place])) is Some,
    ensures
        member_names(list).contains(header_name(trimmed(list[place]))->0),
    decreases list.len(),
{
    broadcast use vstd::seq_lib::lemma_seq_contains_after_push;

    if place < list.len() - 1 {
        lemma_member_name_listed(list.drop_last(), place);
        assert(list.drop_last()[place] == list[place]);
    }
}

/// What one value nominates is among what all the values nominate.
proof fn lemma_nomination_listed(values: Seq<Seq<u8>>, place: int, name: Seq<char>)
    requires
        0 <= place < values.len(),
        value_nominations(values[place]).contains(name),
    ensures
        nominations(values).contains(name),
    decreases values.len(),
{
    let before = nominations(values.drop_last());
    let after = value_nominations(values.last());
    if place < values.len() - 1 {
        lemma_nomination_listed(values.drop_last(), place, name);
        let i = choose|i: int| 0 <= i < before.len() && before[i] == name;
        assert((before + after)[i] == name);
    } else {
        let i = choose|i: int| 0 <= i < after.len() && after[i] == name;
        assert((before + after)[before.len() + i] == name);
    }
}

/// Between `start` and `end` there stands a member of the comma-separated list:
/// text without a comma, with a comma or an end of the list at either side.
pub open spec fn is_member(list: Seq<char>, start: int, end: int) -> bool {
    &&& 0 <= start <= end <= list.len()
    &&& start == 0 || list[start - 1] == ','
    &&& end == list.len() || list[end] == ','
    &&& forall|i: int| start <= i < end ==> list[i] != ','
}

/// A value of the `connection` field has a member that, but for blanks round
/// it, spells `name`, in whatever case.
pub open spec fn is_nominated(fields: Fields, name: Seq<char>) -> bool {
    exists|place: int, start: int, end: int| #[trigger] is_nominated_at(fields, name, place, start, end)
}

/// The value at `place` of the `connection` field has such a member between
/// `start` and `end`.
pub open spec fn is_nominated_at(fields: Fields, name: Seq<char>, place: int, start: int, end: int) -> bool {
    &&& fields.contains_key("connection"@)
    &&& 0 <= place < fields["connection"@].len()
    &&& header_text(fields["connection"@][place]) matches Some(list)
    &&& is_member(list, start, end)
    &&& header_name(trimmed(list.subrange(start, end))) == Some(name)
}

/// A field that the `connection` field nominates does not pass the proxy.
pub proof fn nominated_field_is_stripped(fields: Fields, name: Seq<char>)
    requires
        is_nominated(fields, name),
    ensures
        !end_to_end(fields).contains_key(name),
{
    let (place, start, end) = choose|place: int, start: int, end: int| #[trigger]
        is_nominated_at(fields, name, place, start, end);
    let list = header_text(fields["connection"@][place])->0;
    let member = list.subrange(start, end);
    lemma_members_of_one(member);
    // What stands from `start` on.
    let rest = list.skip(start);
    assert(members(rest).len() > 0 && members(rest)[0] == member) by {
        if end == list.len() {
            assert(rest =~= member);
        } else {
            let after = list.skip(end + 1);
            assert(rest =~= member.push(',') + after);
            lemma_members_join(member, after);
        }
    }
    // Its place in the whole list.
    let at = if start == 0 {
        0
    } else {
        members(list.take(start - 1)).len() as int
    };
    assert(at < members(list).len() && members(list)[at] == member) by {
        if start == 0 {
            assert(rest =~= list);
        } else {
            let before = list.take(start - 1);
            assert(list =~= before.push(',') + rest);
            lemma_members_join(before, rest);
        }
    }
    lemma_member_name_listed(members(list), at);
    lemma_nomination_listed(fields["connection"@], place, name);
    let nominated = nominations(fields["connection"@]);
    let i = choose|i: int| 0 <= i < nominated.len() && nominated[i] == name;
    assert(hop_by_hop_list(fields)[fixed_hop_by_hop().len() + i] == name);
}

/// Where the member at `at` stands in its list. The last member ends with the
/// list, every other one before it.
proof fn lemma_member_place(list: Seq<char>, at: int) -> (place: (int, int))
    requires
        0 <= at < members(list).len(),
    ensures
        is_member(list, place.0, place.1),
        members(list)[at] == list.subrange(place.0, place.1),
        at == members(list).len() - 1 <==> place.1 == list.len(),
    decreases list.len(),
{
    if list.len() == 0 {
        assert(list.subrange(0, 0) =~= Seq::empty());
        (0, 0)
    } else {
        let shorter = list.drop_last();
        let before = members(shorter);
        lemma_members_not_empty(shorter);
        if at == before.len() {
            assert(list.subrange(list.len() as int, list.len() as int) =~= Seq::empty());
            (list.len() as int, list.len() as int)
        } else {
            let (start, end) = lemma_member_place(shorter, at);
            assert(forall|i: int| 0 <= i < shorter.len() ==> shorter[i] == list[i]);
            if list.last() != ',' && at == before.len() - 1 {
                assert(list.subrange(start, list.len() as int) =~= shorter.subrange(start, end).push(list.last()));
                (start, list.len() as int)
            } else {
                assert(list.subrange(start, end) =~= shorter.subrange(start, end));
                (start, end)
            }
        }
    }
}

/// A name in the names of a list is spelled by one of its members.
proof fn lemma_listed_name_has_member(list: Seq<Seq<char>>, name: Seq<char>) -> (at: int)
    requires
        member_names(list).contains(name),
    ensures
        0 <= at < list.len(),
        header_name(trimmed(list[at])) == Some(name),
    decreases list.len(),
{
    let names = member_names(list);
    let shorter = member_names(list.drop_last());
    let i = choose|i: int| 0 <= i < names.len() && names[i] == name;
    if i < shorter.len() {
        assert(shorter[i] == name);
        let at = lemma_listed_name_has_member(list.drop_last(), name);
        assert(list.drop_last()[at] == list[at]);
        at
    } else {
        list.len() - 1
    }
}

/// What the values nominate, one of them does.
proof fn lemma_nomination_has_value(values: Seq<Seq<u8>>, name: Seq<char>) -> (place: int)
    requires
        nominations(values).contains(name),
    ensures
        0 <= place < values.len(),
        value_nominations(values[place]).contains(name),
    decreases values.len(),
{
    let all = nominations(values);
    let before = nominations(values.drop_last());
    let after = value_nominations(values.last());
    let i = choose|i: int| 0 <= i < all.len() && all[i] == name;
    if i < before.len() {
        assert(before[i] == name);
        let place = lemma_nomination_has_value(values.drop_last(), name);
        assert(values.drop_last()[place] == values[place]);
        place
    } else {
        assert(after[i - before.len()] == name);
        values.len() - 1
    }
}

/// The fixed connection fields, and every field whose name begins with
/// `proxy-`, do not pass the proxy.
pub proof fn connection_fields_are_stripped(fields: Fields, name: Seq<char>)
    requires
        fixed_hop_by_hop().contains(name) || is_proxy_name(name),
    ensures
        !end_to_end(fields).contains_key(name),
{
    if fixed_hop_by_hop().contains(name) {
        let i = choose|i: int| 0 <= i < fixed_hop_by_hop().len() && fixed_hop_by_hop()[i] == name;
        assert(hop_by_hop_list(fields)[i] == name);
    }
}

/// Exactly the fields of the message pass the proxy that are not one of the
/// fixed connection fields, do not begin with `proxy-` and are not nominated by
/// the `connection` field. They keep all their values in their order.
pub proof fn exactly_the_other_fields_pass(fields: Fields, name: Seq<char>)
    ensures
        end_to_end(fields).contains_key(name) <==> {
            &&& fields.contains_key(name)
            &&& !fixed_hop_by_hop().contains(name)
            &&& !is_proxy_name(name)
            &&& !is_nominated(fields, name)
        },
        end_to_end(fields).contains_key(name) ==> end_to_end(fields)[name] == fields[name],
{
    let values = field_values(fields, "connection"@);
    let nominated = nominations(values);
    let fixed = fixed_hop_by_hop();
    if fixed.contains(name) || is_proxy_name(name) {
        connection_fields_are_stripped(fields, name);
    } else if is_nominated(fields, name) {
        nominated_field_is_stripped(fields, name);
    } else if hop_by_hop_list(fields).contains(name) {
        let i = choose|i: int| 0 <= i < hop_by_hop_list(fields).len() && hop_by_hop_list(fields)[i] == name;
        if i < fixed.len() {
            assert(fixed[i] == name);
        } else {
            assert(nominated[i - fixed.len()] == name);
        }
        let place = lemma_nomination_has_value(values, name);
        let list = header_text(values[place])->0;
        let at = lemma_listed_name_has_member(members(list), name);
        let (start, end) = lemma_member_place(list, at);
        assert(is_nominated_at(fields, name, place, start, end));
    }
}

/// Stripping a second time changes nothing.
pub proof fn stripping_twice_is_stripping_once(fields: Fields)
    ensures
        end_to_end(end_to_end(fields)) == end_to_end(fields),
{
    let once = end_to_end(fields);
    assert(fixed_hop_by_hop()[0] == "connection"@);
    connection_fields_are_stripped(fields, "connection"@);
    assert forall|name: Seq<char>| once.contains_key(name) implies !is_hop_by_hop(once, name) by {
        if fixed_hop_by_hop().contains(name) {
            connection_fields_are_stripped(fields, name);
        }
        assert(hop_by_hop_list(once) =~= fixed_hop_by_hop());
    }
    assert(end_to_end(once) =~= once);
}

/// The bytes of an ASCII text.
pub open spec fn ascii_bytes(text: Seq<char>) -> Seq<u8> {
    Seq::new(text.len(), |i: int| text[i] as u8)
}

/// A length that a message gives in decimal is the length it declares.
pub proof fn length_in_decimal_is_declared(fields: Fields, length: u64)
    requires
        fields.contains_key("content-length"@),
        fields["content-length"@].len() > 0,
        fields["content-length"@][0] == ascii_bytes(text::decimal(length as nat)),
    ensures
        declared_length(fields) == Ok::<Option<u64>, ProxyHttpError>(Some(length)),
{
    let digits = text::decimal(length as nat);
    let value = ascii_bytes(digits);
    text::lemma_decimal_reads_back(length as nat);
    text::lemma_parse_of_decimal(length);
    assert forall|i: int| 0 <= i < value.len() implies is_visible_ascii(#[trigger] value[i]) && value[i] as char
        == digits[i] by {
        assert(text::is_digit(digits[i]));
    }
    assert(header_text(value)->0 =~= digits);
}

/// A byte of a header name, as it may be written in a message.
pub open spec fn is_token_byte(byte: u8) -> bool {
    ||| byte == 33 || 35 <= byte <= 39 || byte == 42 || byte == 43 || byte == 45 || byte == 46
    ||| 48 <= byte <= 57 || 65 <= byte <= 90 || 94 <= byte <= 122 || byte == 124 || byte == 126
}

/// The bytes from `start` to `end` spell `name`, in whatever case, and are all
/// that stands between the commas or ends of the list at `left` and `right`, but
/// for spaces and tabs. The whole value is visible ASCII.
pub open spec fn spells_between(
    value: Seq<u8>,
    name: Seq<char>,
    left: int,
    start: int,
    end: int,
    right: int,
) -> bool {
    &&& 0 <= left <= start < end <= right <= value.len()
    &&& left == 0 || value[left - 1] == 44
    &&& right == value.len() || value[right] == 44
    &&& forall|i: int| left <= i < start ==> #[trigger] value[i] == 32 || value[i] == 9
    &&& forall|i: int| end <= i < right ==> #[trigger] value[i] == 32 || value[i] == 9
    &&& forall|i: int| 0 <= i < value.len() ==> 32 <= #[trigger] value[i] <= 126 || value[i] == 9
    &&& name.len() == end - start <= 65535
    &&& forall|i: int| start <= i < end ==> is_token_byte(#[trigger] value[i])
    &&& forall|i: int|
        0 <= i < name.len() ==> #[trigger] name[i] as int == (if 65 <= value[start + i] <= 90 {
            value[start + i] + 32
        } else {
            value[start + i] as int
        })
}

/// One of the values lists `name`.
pub open spec fn is_listed(values: Seq<Seq<u8>>, name: Seq<char>) -> bool {
    exists|place: int, left: int, start: int, end: int, right: int|
        0 <= place < values.len() && #[trigger] spells_between(values[place], name, left, start, end, right)
}

/// `name` is `connection`, `keep-alive`, `te`, `trailer`, `transfer-encoding` or
/// `upgrade`.
pub open spec fn is_connection_field(name: Seq<char>) -> bool {
    ||| name == seq!['c', 'o', 'n', 'n', 'e', 'c', 't', 'i', 'o', 'n']
    ||| name == seq!['k', 'e', 'e', 'p', '-', 'a', 'l', 'i', 'v', 'e']
    ||| name == seq!['t', 'e']
    ||| name == seq!['t', 'r', 'a', 'i', 'l', 'e', 'r']
    ||| name == seq!['t', 'r', 'a', 'n', 's', 'f', 'e', 'r', '-', 'e', 'n', 'c', 'o', 'd', 'i', 'n', 'g']
    ||| name == seq!['u', 'p', 'g', 'r', 'a', 'd', 'e']
}

/// The first six characters of `name` are `proxy-`, each in either case.
pub open spec fn starts_with_proxy(name: Seq<char>) -> bool {
    &&& name.len() >= 6
    &&& name[0] == 'p' || name[0] == 'P'
    &&& name[1] == 'r' || name[1] == 'R'
    &&& name[2] == 'o' || name[2] == 'O'
    &&& name[3] == 'x' || name[3] == 'X'
    &&& name[4] == 'y' || name[4] == 'Y'
    &&& name[5] == '-'
}

/// A message has a `connection` field that lists `name`.
pub open spec fn lists_in_connection(fields: Fields, name: Seq<char>) -> bool {
    let connection = seq!['c', 'o', 'n', 'n', 'e', 'c', 't', 'i', 'o', 'n'];
    fields.contains_key(connection) && is_listed(fields[connection], name)
}

/// Trimming takes away blanks at both ends and nothing else.
proof fn lemma_trimmed_place(list: Seq<char>) -> (place: (int, int))
    ensures
        0 <= place.0 <= place.1 <= list.len(),
        trimmed(list) == list.subrange(place.0, place.1),
        forall|i: int| 0 <= i < place.0 || place.1 <= i < list.len() ==> is_blank(#[trigger] list[i]),
    decreases list.len(),
{
    if list.len() > 0 && is_blank(list[0]) {
        let shorter = list.skip(1);
        let (start, end) = lemma_trimmed_place(shorter);
        assert(shorter.subrange(start, end) =~= list.subrange(start + 1, end + 1));
        assert forall|i: int| 0 <= i < start + 1 || end + 1 <= i < list.len() implies is_blank(#[trigger] list[i]) by {
            if i > 0 {
                assert(shorter[i - 1] == list[i]);
            }
        }
        (start + 1, end + 1)
    } else if list.len() > 0 && is_blank(list.last()) {
        let shorter = list.drop_last();
        let (start, end) = lemma_trimmed_place(shorter);
        assert(shorter.subrange(start, end) =~= list.subrange(start, end));
        assert forall|i: int| 0 <= i < start || end <= i < list.len() implies is_blank(#[trigger] list[i]) by {
            if i < list.len() - 1 {
                assert(shorter[i] == list[i]);
            }
        }
        (start, end)
    } else {
        assert(list.subrange(0, list.len() as int) =~= list);
        (0, list.len() as int)
    }
}

/// Text with blanks round it and none at its own ends is what trimming leaves.
proof fn lemma_trimmed_leaves(list: Seq<char>, start: int, end: int)
    requires
        0 <= start < end <= list.len(),
        forall|i: int| 0 <= i < start || end <= i < list.len() ==> is_blank(#[trigger] list[i]),
        !is_blank(list[start]),
        !is_blank(list[end - 1]),
    ensures
        trimmed(list) == list.subrange(start, end),
    decreases list.len(),
{
    if start > 0 {
        let shorter = list.skip(1);
        assert forall|i: int| 0 <= i < start - 1 || end - 1 <= i < shorter.len() implies is_blank(
            #[trigger] shorter[i],
        ) by {
            assert(shorter[i] == list[i + 1]);
        }
        lemma_trimmed_leaves(shorter, start - 1, end - 1);
        assert(shorter.subrange(start - 1, end - 1) =~= list.subrange(start, end));
    } else if end < list.len() {
        let shorter = list.drop_last();
        assert forall|i: int| 0 <= i < start || end <= i < shorter.len() implies is_blank(#[trigger] shorter[i]) by {
            assert(shorter[i] == list[i]);
        }
        lemma_trimmed_leaves(shorter, start, end);
        assert(shorter.subrange(start, end) =~= list.subrange(start, end));
    } else {
        assert(list.subrange(start, end) =~= list);
    }
}

/// The names of the six connection fields, as characters.
proof fn lemma_fixed_names_spelled(name: Seq<char>)
    ensures
        fixed_hop_by_hop().contains(name) <==> is_connection_field(name),
        "connection"@ == seq!['c', 'o', 'n', 'n', 'e', 'c', 't', 'i', 'o', 'n'],
{
    reveal_strlit("connection");
    reveal_strlit("keep-alive");
    reveal_strlit("te");
    reveal_strlit("trailer");
    reveal_strlit("transfer-encoding");
    reveal_strlit("upgrade");
    let fixed = fixed_hop_by_hop();
    assert(fixed[0] =~= seq!['c', 'o', 'n', 'n', 'e', 'c', 't', 'i', 'o', 'n']);
    assert(fixed[1] =~= seq!['k', 'e', 'e', 'p', '-', 'a', 'l', 'i', 'v', 'e']);
    assert(fixed[2] =~= seq!['t', 'e']);
    assert(fixed[3] =~= seq!['t', 'r', 'a', 'i', 'l', 'e', 'r']);
    assert(fixed[4] =~= seq![
        't', 'r', 'a', 'n', 's', 'f', 'e', 'r', '-', 'e', 'n', 'c', 'o', 'd', 'i', 'n', 'g',
    ]);
    assert(fixed[5] =~= seq!['u', 'p', 'g', 'r', 'a', 'd', 'e']);
    if fixed.contains(name) {
        let i = choose|i: int| 0 <= i < fixed.len() && fixed[i] == name;
        assert(i == 0 || i == 1 || i == 2 || i == 3 || i == 4 || i == 5);
    }
}

/// The prefix `proxy-`, as characters.
proof fn lemma_proxy_prefix_spelled(name: Seq<char>)
    ensures
        is_proxy_name(name) <==> starts_with_proxy(name),
{
    reveal_strlit("proxy-");
    let lower = lowercase(name);
    let prefix = "proxy-"@;
    if starts_with_proxy(name) {
        assert(lower.subrange(0, 6) =~= prefix);
    }
    if is_proxy_name(name) {
        assert(lower.subrange(0, 6) == prefix);
        assert forall|i: int| 0 <= i < 6 implies #[trigger] ascii_lower(name[i]) == prefix[i] by {
            assert(lower.subrange(0, 6)[i] == lower[i]);
        }
        assert(ascii_lower(name[0]) == 'p' && ascii_lower(name[1]) == 'r' && ascii_lower(name[2]) == 'o');
        assert(ascii_lower(name[3]) == 'x' && ascii_lower(name[4]) == 'y' && ascii_lower(name[5]) == '-');
    }
}

/// A member of a list that spells a name does so between the ends of the member.
proof fn lemma_member_spells(value: Seq<u8>, name: Seq<char>, left: int, right: int) -> (place: (int, int))
    requires
        header_text(value) matches Some(list) && is_member(list, left, right) && header_name(
            trimmed(list.subrange(left, right)),
        ) == Some(name),
    ensures
        spells_between(value, name, left, place.0, place.1, right),
{
    let list = header_text(value)->0;
    let member = list.subrange(left, right);
    let (start, end) = lemma_trimmed_place(member);
    let token = member.subrange(start, end);
    assert forall|i: int| 0 <= i < value.len() implies list[i] as int == #[trigger] value[i] && is_visible_ascii(
        value[i],
    ) by {}
    assert(forall|i: int| 0 <= i < member.len() ==> #[trigger] member[i] == list[left + i]);
    assert forall|i: int| left <= i < left + start implies #[trigger] value[i] == 32 || value[i] == 9 by {
        assert(is_blank(member[i - left]));
    }
    assert forall|i: int| left + end <= i < right implies #[trigger] value[i] == 32 || value[i] == 9 by {
        assert(is_blank(member[i - left]));
    }
    assert forall|i: int| left + start <= i < left + end implies is_token_byte(#[trigger] value[i]) by {
        assert(token[i - left - start] == list[i]);
        assert(is_name_char(token[i - left - start]));
    }
    assert forall|i: int| 0 <= i < name.len() implies #[trigger] name[i] as int == (if 65 <= value[left + start + i]
        <= 90 {
        value[left + start + i] + 32
    } else {
        value[left + start + i] as int
    }) by {
        assert(token[i] == list[left + start + i]);
        assert(name[i] == ascii_lower(token[i]));
    }
    (left + start, left + end)
}

/// What stands between two commas and spells a name is a member that does.
proof fn lemma_spelled_member(value: Seq<u8>, name: Seq<char>, left: int, start: int, end: int, right: int)
    requires
        spells_between(value, name, left, start, end, right),
    ensures
        header_text(value) matches Some(list) && is_member(list, left, right) && header_name(
            trimmed(list.subrange(left, right)),
        ) == Some(name),
{
    assert(forall|i: int| 0 <= i < value.len() ==> is_visible_ascii(#[trigger] value[i]));
    let list = header_text(value)->0;
    let member = list.subrange(left, right);
    let token = list.subrange(start, end);
    assert(forall|i: int| 0 <= i < list.len() ==> #[trigger] list[i] as int == value[i]);
    assert forall|i: int| left <= i < right implies list[i] != ',' by {
        assert(list[i] as int == value[i]);
        if start <= i < end {
            assert(is_token_byte(value[i]));
        }
    }
    assert(is_token_byte(value[start]) && is_token_byte(value[end - 1]));
    assert forall|i: int| 0 <= i < start - left || end - left <= i < member.len() implies is_blank(
        #[trigger] member[i],
    ) by {
        assert(member[i] == list[left + i]);
        assert(value[left + i] == 32 || value[left + i] == 9);
    }
    lemma_trimmed_leaves(member, start - left, end - left);
    assert(member.subrange(start - left, end - left) =~= token);
    assert forall|i: int| 0 <= i < token.len() implies is_name_char(#[trigger] token[i]) && ascii_lower(token[i])
        == name[i] by {
        assert(is_token_byte(value[start + i]));
        assert(token[i] as int == value[start + i]);
        assert(ascii_lower(token[i]) as int == name[i] as int);
    }
    assert(lowercase(token) =~= name);
}

/// A field is nominated exactly where a value of `connection` lists it.
proof fn lemma_nominated_is_listed(fields: Fields, name: Seq<char>)
    ensures
        is_nominated(fields, name) <==> lists_in_connection(fields, name),
{
    lemma_fixed_names_spelled(name);
    if is_nominated(fields, name) {
        let (place, left, right) = choose|place: int, left: int, right: int| #[trigger]
            is_nominated_at(fields, name, place, left, right);
        let (start, end) = lemma_member_spells(fields["connection"@][place], name, left, right);
        assert(spells_between(fields["connection"@][place], name, left, start, end, right));
    }
    if lists_in_connection(fields, name) {
        let values = fields["connection"@];
        let (place, left, start, end, right) = choose|place: int, left: int, start: int, end: int, right: int|
            0 <= place < values.len() && #[trigger] spells_between(values[place], name, left, start, end, right);
        lemma_spelled_member(values[place], name, left, start, end, right);
        assert(is_nominated_at(fields, name, place, left, right));
    }
}

/// Which fields pass the proxy, letter by letter: every field of the message
/// passes with all its values in their order, except `connection`,
/// `keep-alive`, `te`, `trailer`, `transfer-encoding` and `upgrade`, those whose
/// first six characters are `proxy-` in whatever case, and those that a value of
/// `connection` lists.
pub proof fn every_other_field_passes_whole(fields: Fields, name: Seq<char>)
    ensures
        end_to_end(fields).contains_key(name) <==> {
            &&& fields.contains_key(name)
            &&& name != seq!['c', 'o', 'n', 'n', 'e', 'c', 't', 'i', 'o', 'n']
            &&& name != seq!['k', 'e', 'e', 'p', '-', 'a', 'l', 'i', 'v', 'e']
            &&& name != seq!['t', 'e']
            &&& name != seq!['t', 'r', 'a', 'i', 'l', 'e', 'r']
            &&& name != seq!['t', 'r', 'a', 'n', 's', 'f', 'e', 'r', '-', 'e', 'n', 'c', 'o', 'd', 'i', 'n', 'g']
            &&& name != seq!['u', 'p', 'g', 'r', 'a', 'd', 'e']
            &&& !({
                &&& name.len() >= 6
                &&& name[0] == 'p' || name[0] == 'P'
                &&& name[1] == 'r' || name[1] == 'R'
                &&& name[2] == 'o' || name[2] == 'O'
                &&& name[3] == 'x' || name[3] == 'X'
                &&& name[4] == 'y' || name[4] == 'Y'
                &&& name[5] == '-'
            })
            &&& !lists_in_connection(fields, name)
        },
        end_to_end(fields).contains_key(name) ==> end_to_end(fields)[name] == fields[name],
{
    exactly_the_other_fields_pass(fields, name);
    lemma_fixed_names_spelled(name);
    lemma_proxy_prefix_spelled(name);
    lemma_nominated_is_listed(fields, name);
}

/// The value as text, and the field name, of a declared length.
proof fn lemma_length_text(value: Seq<u8>, written: Seq<char>)
    requires
        value.len() == written.len(),
        forall|i: int| 0 <= i < value.len() ==> 32 <= #[trigger] value[i] <= 126 || value[i] == 9,
        forall|i: int| 0 <= i < value.len() ==> #[trigger] value[i] == written[i] as int,
    ensures
        header_text(value) == Some(written),
{
    assert(forall|i: int| 0 <= i < value.len() ==> is_visible_ascii(#[trigger] value[i]));
    assert forall|i: int| 0 <= i < value.len() implies #[trigger] value[i] as char == written[i] by {}
    assert(header_text(value)->0 =~= written);
}

/// A message without a `content-length` field declares no length.
pub proof fn length_is_declared_by_the_field_alone(fields: Fields)
    ensures
        !fields.contains_key(
            seq!['c', 'o', 'n', 't', 'e', 'n', 't', '-', 'l', 'e', 'n', 'g', 't', 'h'],
        ) <==> declared_length(fields) == Ok::<Option<u64>, ProxyHttpError>(None),
{
    reveal_strlit("content-length");
    assert("content-length"@ =~= seq!['c', 'o', 'n', 't', 'e', 'n', 't', '-', 'l', 'e', 'n', 'g', 't', 'h']);
}

/// The declared length is the number that the first value writes: digits, with
/// or without one plus sign in front, declare the number they write where it
/// fits in 64 bits, and are refused where it does not.
pub proof fn declared_length_is_what_the_digits_write(
    fields: Fields,
    digits: Seq<char>,
    sums: Seq<int>,
    signed: bool,
)
    requires
        digits.len() > 0,
        text::are_sums(sums, digits),
        ({
            let name = seq!['c', 'o', 'n', 't', 'e', 'n', 't', '-', 'l', 'e', 'n', 'g', 't', 'h'];
            let value = fields[name][0];
            let sign: int = if signed {
                1
            } else {
                0
            };
            &&& fields.contains_key(name)
            &&& value.len() == sign + digits.len()
            &&& signed ==> value[0] == 43
            &&& forall|i: int| 0 <= i < digits.len() ==> value[sign + i] == #[trigger] digits[i] as int
        }),
    ensures
        sums.last() <= 0xffff_ffff_ffff_ffff ==> declared_length(fields) == Ok::<Option<u64>, ProxyHttpError>(
            Some(sums.last() as u64),
        ),
        sums.last() > 0xffff_ffff_ffff_ffff ==> declared_length(fields) == Err::<Option<u64>, ProxyHttpError>(
            ProxyHttpError::InvalidContentLength,
        ),
{
    length_is_declared_by_the_field_alone(fields);
    reveal_strlit("content-length");
    assert("content-length"@ =~= seq!['c', 'o', 'n', 't', 'e', 'n', 't', '-', 'l', 'e', 'n', 'g', 't', 'h']);
    let value = fields["content-length"@][0];
    let written = if signed {
        seq!['+'] + digits
    } else {
        digits
    };
    assert forall|i: int| 0 <= i < value.len() implies #[trigger] value[i] == written[i] as int && 32 <= value[i]
        <= 126 by {
        if signed && i > 0 {
            assert(value[1 + (i - 1)] == digits[i - 1] as int);
            assert(written[i] == digits[i - 1]);
        } else if !signed {
            assert(value[0 + i] == digits[i] as int);
        }
    }
    lemma_length_text(value, written);
    text::number_is_read_digit_by_digit(digits, sums);
}

/// A first value that is anything else is refused: one without a digit, or with
/// another byte than a digit, but for a plus sign in front.
pub proof fn other_length_is_unreadable(fields: Fields, place: int)
    requires
        ({
            let name = seq!['c', 'o', 'n', 't', 'e', 'n', 't', '-', 'l', 'e', 'n', 'g', 't', 'h'];
            let value = fields[name][0];
            &&& fields.contains_key(name)
            &&& {
                ||| value.len() == 0
                ||| value.len() == 1 && value[0] == 43
                ||| 0 <= place < value.len() && !(48 <= value[place] <= 57) && !(place == 0 && value[0] == 43)
            }
        }),
    ensures
        declared_length(fields) == Err::<Option<u64>, ProxyHttpError>(ProxyHttpError::InvalidContentLength),
{
    reveal_strlit("content-length");
    assert("content-length"@ =~= seq!['c', 'o', 'n', 't', 'e', 'n', 't', '-', 'l', 'e', 'n', 'g', 't', 'h']);
    let value = fields["content-length"@][0];
    if let Some(written) = header_text(value) {
        assert(forall|i: int| 0 <= i < value.len() ==> #[trigger] written[i] as int == value[i]);
        if value.len() == 1 && value[0] == 43 {
            assert(written =~= seq!['+']);
        }
        text::other_text_is_no_number(written, place);
    }
}

/// What two runs of values nominate together is what the first nominates, then
/// what the second does.
proof fn lemma_nominations_join(left: Seq<Seq<u8>>, right: Seq<Seq<u8>>)
    ensures
        nominations(left + right) == nominations(left) + nominations(right),
    decreases right.len(),
{
    if right.len() == 0 {
        assert(left + right =~= left);
        assert(nominations(left) + nominations(right) =~= nominations(left));
    } else {
        lemma_nominations_join(left, right.drop_last());
        assert((left + right).drop_last() =~= left + right.drop_last());
        assert(nominations(left + right) =~= nominations(left) + nominations(right));
    }
}

/// The names of two lists of members together are those of the first, then
/// those of the second.
proof fn lemma_member_names_join(left: Seq<Seq<char>>, right: Seq<Seq<char>>)
    ensures
        member_names(left + right) == member_names(left) + member_names(right),
    decreases right.len(),
{
    if right.len() == 0 {
        assert(left + right =~= left);
        assert(member_names(left) + member_names(right) =~= member_names(left));
    } else {
        lemma_member_names_join(left, right.drop_last());
        assert((left + right).drop_last() =~= left + right.drop_last());
        assert(member_names(left + right) =~= member_names(left) + member_names(right));
    }
}

/// One value nominates what it nominates.
proof fn lemma_nominations_of_one(value: Seq<u8>)
    ensures
        nominations(seq![value]) == value_nominations(value),
{
    reveal_with_fuel(nominations, 2);
    assert(seq![value].drop_last() =~= Seq::empty());
    assert(nominations(seq![value]) =~= value_nominations(value));
}

/// The fields of a message whose `connection` field has these values.
pub open spec fn with_connection(fields: Fields, values: Seq<Seq<u8>>) -> Fields {
    fields.insert(seq!['c', 'o', 'n', 'n', 'e', 'c', 't', 'i', 'o', 'n'], values)
}

/// The list of a message whose `connection` field has these values.
proof fn lemma_list_with_connection(fields: Fields, values: Seq<Seq<u8>>)
    ensures
        hop_by_hop_list(with_connection(fields, values)) == fixed_hop_by_hop() + nominations(values),
        hop_by_hop_list(with_connection(fields, values)).skip(6) == nominations(values),
{
    lemma_fixed_names_spelled(seq![]);
    let list = hop_by_hop_list(with_connection(fields, values));
    assert(list =~= fixed_hop_by_hop() + nominations(values));
    assert(list.skip(6) =~= nominations(values));
}

/// The list of connection fields begins with `connection`, `keep-alive`, `te`,
/// `trailer`, `transfer-encoding` and `upgrade`, in this order, and ends there
/// where there is no `connection` field.
pub proof fn connection_fields_come_first(fields: Fields)
    ensures
        ({
            let connection = seq!['c', 'o', 'n', 'n', 'e', 'c', 't', 'i', 'o', 'n'];
            let list = hop_by_hop_list(fields);
            &&& list.len() >= 6
            &&& list[0] == connection
            &&& list[1] == seq!['k', 'e', 'e', 'p', '-', 'a', 'l', 'i', 'v', 'e']
            &&& list[2] == seq!['t', 'e']
            &&& list[3] == seq!['t', 'r', 'a', 'i', 'l', 'e', 'r']
            &&& list[4] == seq!['t', 'r', 'a', 'n', 's', 'f', 'e', 'r', '-', 'e', 'n', 'c', 'o', 'd', 'i', 'n', 'g']
            &&& list[5] == seq!['u', 'p', 'g', 'r', 'a', 'd', 'e']
            &&& !fields.contains_key(connection) ==> list.len() == 6
        }),
{
    reveal_strlit("connection");
    reveal_strlit("keep-alive");
    reveal_strlit("te");
    reveal_strlit("trailer");
    reveal_strlit("transfer-encoding");
    reveal_strlit("upgrade");
    let list = hop_by_hop_list(fields);
    assert(list[0] =~= seq!['c', 'o', 'n', 'n', 'e', 'c', 't', 'i', 'o', 'n']);
    assert(list[1] =~= seq!['k', 'e', 'e', 'p', '-', 'a', 'l', 'i', 'v', 'e']);
    assert(list[2] =~= seq!['t', 'e']);
    assert(list[3] =~= seq!['t', 'r', 'a', 'i', 'l', 'e', 'r']);
    assert(list[4] =~= seq!['t', 'r', 'a', 'n', 's', 'f', 'e', 'r', '-', 'e', 'n', 'c', 'o', 'd', 'i', 'n', 'g']);
    assert(list[5] =~= seq!['u', 'p', 'g', 'r', 'a', 'd', 'e']);
    assert("connection"@ == list[0]);
}

/// The nominated names follow in the order of the values: those of more values
/// come behind those of the values before them.
pub proof fn nominations_keep_the_order_of_values(fields: Fields, left: Seq<Seq<u8>>, right: Seq<Seq<u8>>)
    ensures
        hop_by_hop_list(with_connection(fields, left + right)) == hop_by_hop_list(with_connection(fields, left))
            + hop_by_hop_list(with_connection(fields, right)).skip(6),
{
    lemma_list_with_connection(fields, left);
    lemma_list_with_connection(fields, right);
    lemma_list_with_connection(fields, left + right);
    lemma_nominations_join(left, right);
    assert(fixed_hop_by_hop() + (nominations(left) + nominations(right)) =~= (fixed_hop_by_hop() + nominations(left))
        + nominations(right));
}

/// Within a value they follow in the order in which they are written: a value
/// with a comma in it nominates what its two sides do as values of their own.
pub proof fn nominations_keep_the_order_within_a_value(fields: Fields, left: Seq<u8>, right: Seq<u8>)
    requires
        forall|i: int| 0 <= i < left.len() ==> 32 <= #[trigger] left[i] <= 126 || left[i] == 9,
        forall|i: int| 0 <= i < right.len() ==> 32 <= #[trigger] right[i] <= 126 || right[i] == 9,
    ensures
        hop_by_hop_list(with_connection(fields, seq![left.push(44) + right])) == hop_by_hop_list(
            with_connection(fields, seq![left, right]),
        ),
{
    let whole = left.push(44) + right;
    assert(forall|i: int| 0 <= i < left.len() ==> is_visible_ascii(#[trigger] left[i]));
    assert(forall|i: int| 0 <= i < right.len() ==> is_visible_ascii(#[trigger] right[i]));
    assert(forall|i: int| 0 <= i < whole.len() ==> is_visible_ascii(#[trigger] whole[i]));
    let before = header_text(left)->0;
    let after = header_text(right)->0;
    assert(header_text(whole)->0 =~= before.push(',') + after);
    lemma_members_join(before, after);
    lemma_member_names_join(members(before), members(after));
    lemma_list_with_connection(fields, seq![whole]);
    lemma_list_with_connection(fields, seq![left, right]);
    lemma_nominations_join(seq![left], seq![right]);
    assert(seq![left] + seq![right] =~= seq![left, right]);
    lemma_nominations_of_one(whole);
    lemma_nominations_of_one(left);
    lemma_nominations_of_one(right);
}

/// A value without a comma nominates one name, where it spells one but for
/// spaces and tabs round it, and none otherwise.
pub proof fn value_without_a_comma_nominates_one_name(fields: Fields, value: Seq<u8>, name: Seq<char>)
    requires
        forall|i: int| 0 <= i < value.len() ==> value[i] != 44,
    ensures
        hop_by_hop_list(with_connection(fields, seq![value])).len() <= 7,
        hop_by_hop_list(with_connection(fields, seq![value])).skip(6) == seq![name] <==> is_listed(
            seq![value],
            name,
        ),
{
    reveal_with_fuel(member_names, 2);
    lemma_list_with_connection(fields, seq![value]);
    lemma_nominations_of_one(value);
    if let Some(list) = header_text(value) {
        assert forall|i: int| 0 <= i < list.len() implies list[i] != ',' by {
            assert(value[i] != 44);
        }
        lemma_members_of_one(list);
        let one = seq![list];
        assert(one.drop_last() =~= Seq::empty());
        assert(is_member(list, 0, list.len() as int));
        assert(list.subrange(0, list.len() as int) =~= list);
        match header_name(trimmed(list)) {
            Some(token) => {
                assert(member_names(one) =~= seq![token]);
                assert(seq![token][0] == token && seq![name][0] == name);
            },
            None => {
                assert(member_names(one) =~= Seq::empty());
            },
        }
        if header_name(trimmed(list)) == Some(name) {
            let (start, end) = lemma_member_spells(value, name, 0, list.len() as int);
            assert(spells_between(seq![value][0], name, 0, start, end, list.len() as int));
        }
    }
    if is_listed(seq![value], name) {
        let (place, left, start, end, right) = choose|place: int, left: int, start: int, end: int, right: int|
            0 <= place < seq![value].len() && #[trigger] spells_between(
                seq![value][place],
                name,
                left,
                start,
                end,
                right,
            );
        lemma_spelled_member(value, name, left, start, end, right);
        let list = header_text(value)->0;
        assert(list.subrange(0, list.len() as int) =~= list);
        assert(left == 0 && right == value.len());
    }
}

/// A value with a byte that is not visible ASCII nominates nothing.
pub proof fn value_that_is_no_text_nominates_nothing(fields: Fields, value: Seq<u8>, place: int)
    requires
        0 <= place < value.len(),
        !(32 <= value[place] <= 126 || value[place] == 9),
    ensures
        hop_by_hop_list(with_connection(fields, seq![value])).len() == 6,
{
    lemma_list_with_connection(fields, seq![value]);
    lemma_nominations_of_one(value);
    assert(!is_visible_ascii(value[place]));
}

} // verus!
