//! Headers as the dispatch callback sees them, and how they are read from
//! and written to the headers of the wire.

use vstd::prelude::*;
use vstd::utf8::encode_utf8;
use http::header::HeaderMap;
use http::header::HeaderName;
use http::header::HeaderValue;
use crate::text::lemma_lowercase_names;
use crate::text::names_match;
use crate::text::same_name;
use crate::wire::ascii_chars;
use crate::wire::is_field_name;
use crate::wire::is_field_value;
use crate::wire::is_text;
use crate::wire::lowercase;
use crate::wire::name_string;
use crate::wire::name_text;
use crate::wire::sure_room;
use crate::wire::parse_name;
use crate::wire::parse_value;
use crate::wire::value_bytes;
use crate::wire::value_text;
use crate::wire::values_of;
use crate::wire::wire_append;
use crate::wire::wire_count;
use crate::wire::wire_fields;
use crate::wire::wire_names;
use crate::wire::wire_remove;
use crate::wire::wire_values;

verus! {

/// The views of a sequence of strings.
pub open spec fn texts(v: Seq<String>) -> Seq<Seq<char>> {
    Seq::new(v.len(), |i: int| v[i]@)
}

/// One header: a name and its values, in order.
#[derive(Debug)]
pub struct HeaderField {
    pub name: String,
    pub values: Vec<String>,
}

impl View for HeaderField {
    type V = (Seq<char>, Seq<Seq<char>>);

    open spec fn view(&self) -> (Seq<char>, Seq<Seq<char>>) {
        (self.name@, texts(self.values@))
    }
}

/// Headers as the dispatch callback sees them: names with their values.
/// Names are looked up without regard to the case of ASCII letters.
#[derive(Debug)]
pub struct HeaderFields {
    pub fields: Vec<HeaderField>,
}

impl View for HeaderFields {
    type V = Seq<(Seq<char>, Seq<Seq<char>>)>;

    open spec fn view(&self) -> Seq<(Seq<char>, Seq<Seq<char>>)> {
        Seq::new(self.fields@.len(), |i: int| self.fields@[i]@)
    }
}

/// No two fields have names that match.
pub open spec fn distinct_names(s: Seq<(Seq<char>, Seq<Seq<char>>)>) -> bool {
    forall|i: int, j: int|
        0 <= i < j < s.len() ==> !names_match(#[trigger] s[i].0, #[trigger] s[j].0)
}

/// Every name is written in lower case.
pub open spec fn in_lower_case(s: Seq<(Seq<char>, Seq<Seq<char>>)>) -> bool {
    forall|i: int| 0 <= i < s.len() ==> lowercase(#[trigger] s[i].0) == s[i].0
}

/// The position of the first field whose name matches `name`, or the
/// number of fields if there is none.
pub open spec fn position(s: Seq<(Seq<char>, Seq<Seq<char>>)>, name: Seq<char>) -> int
    decreases s.len(),
{
    if s.len() == 0 {
        0
    } else if names_match(s.first().0, name) {
        0
    } else {
        1 + position(s.drop_first(), name)
    }
}

/// The fields as a map from the names as they are written to their values.
/// Where a name is written twice, the later field counts.
pub open spec fn fields_map(s: Seq<(Seq<char>, Seq<Seq<char>>)>) -> Map<Seq<char>, Seq<Seq<char>>>
    decreases s.len(),
{
    if s.len() == 0 {
        Map::empty()
    } else {
        fields_map(s.drop_last()).insert(s.last().0, s.last().1)
    }
}

/// The first field whose name matches is at `i` if the field there matches
/// and none before it does; if none matches at all, `i` is the number of
/// fields.
pub proof fn lemma_position_at(s: Seq<(Seq<char>, Seq<Seq<char>>)>, name: Seq<char>, i: int)
    requires
        0 <= i <= s.len(),
        forall|k: int| 0 <= k < i ==> !names_match(#[trigger] s[k].0, name),
        i < s.len() ==> names_match(s[i].0, name),
    ensures
        position(s, name) == i,
    decreases s.len(),
{
    if i > 0 {
        let t = s.drop_first();
        assert(!names_match(s[0].0, name));
        assert forall|k: int| 0 <= k < i - 1 implies !names_match(#[trigger] t[k].0, name) by {
            assert(t[k] == s[k + 1]);
        }
        if i < s.len() {
            assert(t[i - 1] == s[i]);
        }
        lemma_position_at(t, name, i - 1);
    }
}

impl HeaderFields {
    /// No headers.
    pub fn new() -> (r: Self)
        ensures
            r@.len() == 0,
    {
        HeaderFields { fields: Vec::new() }
    }

    /// The number of fields.
    pub fn len(&self) -> (n: usize)
        ensures
            n == self@.len(),
    {
        self.fields.len()
    }

    /// The values of the first field whose name matches `name`.
    pub fn get(&self, name: &str) -> (r: Option<&Vec<String>>)
        ensures
            r is Some <==> position(self@, name@) < self@.len(),
            r matches Some(values) ==> texts(values@) == self@[position(self@, name@)].1,
    {
        let mut i: usize = 0;
        while i < self.fields.len()
            invariant
                i <= self.fields.len(),
                forall|k: int| 0 <= k < i ==> !names_match(#[trigger] self@[k].0, name@),
            decreases self.fields.len() - i,
        {
            if same_name(self.fields[i].name.as_str(), name) {
                proof {
                    lemma_position_at(self@, name@, i as int);
                }
                return Some(&self.fields[i].values);
            }
            i = i + 1;
        }
        proof {
            lemma_position_at(self@, name@, i as int);
        }
        None
    }

    /// Sets the values of `name`: in the first field whose name matches, or
    /// else in a new field at the end. Says whether a field was replaced.
    pub fn insert(&mut self, name: String, values: Vec<String>) -> (replaced: bool)
        ensures
            replaced == (position(old(self)@, name@) < old(self)@.len()),
            replaced ==> final(self)@ == old(self)@.update(
                position(old(self)@, name@),
                (name@, texts(values@)),
            ),
            !replaced ==> final(self)@ == old(self)@.push((name@, texts(values@))),
            distinct_names(old(self)@) ==> distinct_names(final(self)@),
    {
        let ghost before = self@;
        let mut i: usize = 0;
        while i < self.fields.len()
            invariant
                self@ == before,
                before == old(self)@,
                i <= self.fields.len(),
                forall|k: int| 0 <= k < i ==> !names_match(#[trigger] self@[k].0, name@),
            decreases self.fields.len() - i,
        {
            if same_name(self.fields[i].name.as_str(), name.as_str()) {
                let ghost entry = (name@, texts(values@));
                proof {
                    lemma_position_at(before, name@, i as int);
                }
                self.fields.set(i, HeaderField { name, values });
                assert(self@ =~= before.update(i as int, entry));
                assert(distinct_names(before) ==> distinct_names(self@)) by {
                    if distinct_names(before) {
                        assert forall|a: int, b: int| 0 <= a < b < self@.len() implies !names_match(
                            #[trigger] self@[a].0,
                            #[trigger] self@[b].0,
                        ) by {
                            assert(!names_match(before[a].0, before[b].0));
                        }
                    }
                }
                return true;
            }
            i = i + 1;
        }
        let ghost entry = (name@, texts(values@));
        proof {
            lemma_position_at(before, name@, i as int);
        }
        self.fields.push(HeaderField { name, values });
        assert(self@ =~= before.push(entry));
        assert(distinct_names(before) ==> distinct_names(self@)) by {
            if distinct_names(before) {
                assert forall|a: int, b: int| 0 <= a < b < self@.len() implies !names_match(
                    #[trigger] self@[a].0,
                    #[trigger] self@[b].0,
                ) by {
                    if b < before.len() {
                        assert(!names_match(before[a].0, before[b].0));
                    } else {
                        assert(!names_match(before[a].0, name@));
                    }
                }
            }
        }
        false
    }
}

/// The values among `values` that can be read as text, in order, as text.
pub open spec fn readable(values: Seq<Seq<u8>>) -> Seq<Seq<char>>
    decreases values.len(),
{
    if values.len() == 0 {
        Seq::empty()
    } else if is_text(values.last()) {
        readable(values.drop_last()).push(ascii_chars(values.last()))
    } else {
        readable(values.drop_last())
    }
}

/// What the headers of the wire are to the dispatch callback: each name
/// with those of its values that can be read as text. A name with no such
/// value is left out.
pub open spec fn incoming(wire: Map<Seq<char>, Seq<Seq<u8>>>) -> Map<Seq<char>, Seq<Seq<char>>> {
    Map::new(
        |n: Seq<char>| wire.dom().contains(n) && readable(wire[n]).len() > 0,
        |n: Seq<char>| readable(wire[n]),
    )
}

/// A value that can be read as text is among the values that come out.
pub proof fn lemma_text_is_kept(values: Seq<Seq<u8>>, i: int)
    requires
        0 <= i < values.len(),
        is_text(values[i]),
    ensures
        readable(values).contains(ascii_chars(values[i])),
    decreases values.len(),
{
    let before = readable(values.drop_last());
    if i == values.len() - 1 {
        assert(readable(values)[before.len() as int] == ascii_chars(values[i]));
    } else {
        lemma_text_is_kept(values.drop_last(), i);
        let k = choose|k: int| 0 <= k < before.len() && before[k] == ascii_chars(values[i]);
        assert(readable(values)[k] == ascii_chars(values[i]));
    }
}

/// Values that can all be read as text come out as they are, one for one.
pub proof fn lemma_all_text_is_kept(values: Seq<Seq<u8>>)
    requires
        forall|i: int| 0 <= i < values.len() ==> is_text(#[trigger] values[i]),
    ensures
        readable(values) == Seq::new(values.len(), |i: int| ascii_chars(values[i])),
    decreases values.len(),
{
    if values.len() > 0 {
        let rest = values.drop_last();
        assert forall|i: int| 0 <= i < rest.len() implies is_text(#[trigger] rest[i]) by {
            assert(rest[i] == values[i]);
        }
        lemma_all_text_is_kept(rest);
        assert(is_text(values[values.len() - 1]));
    }
    assert(readable(values) =~= Seq::new(values.len(), |i: int| ascii_chars(values[i])));
}

/// A value that cannot be read as text is dropped, and the values around
/// it come out as if it had not been there.
pub proof fn lemma_other_values_stay(values: Seq<Seq<u8>>, i: int, bad: Seq<u8>)
    requires
        0 <= i <= values.len(),
        !is_text(bad),
    ensures
        readable(values.insert(i, bad)) == readable(values),
    decreases values.len(),
{
    let with = values.insert(i, bad);
    if i == values.len() {
        assert(with.drop_last() =~= values);
    } else {
        lemma_other_values_stay(values.drop_last(), i, bad);
        assert(with.drop_last() =~= values.drop_last().insert(i, bad));
        assert(with.last() == values.last());
    }
}

/// A header of the wire with a value that can be read as text reaches the
/// dispatch callback under its name, with that value.
pub proof fn lemma_text_reaches_callback(wire: Map<Seq<char>, Seq<Seq<u8>>>, name: Seq<char>, i: int)
    requires
        wire.dom().contains(name),
        0 <= i < wire[name].len(),
        is_text(wire[name][i]),
    ensures
        incoming(wire).dom().contains(name),
        incoming(wire)[name].contains(ascii_chars(wire[name][i])),
{
    lemma_text_is_kept(wire[name], i);
}

/// A value that cannot be read as text changes nothing in what reaches the
/// dispatch callback under the same name.
pub proof fn lemma_bad_value_changes_nothing(
    wire: Map<Seq<char>, Seq<Seq<u8>>>,
    name: Seq<char>,
    i: int,
    bad: Seq<u8>,
)
    requires
        wire.dom().contains(name),
        0 <= i <= wire[name].len(),
        !is_text(bad),
    ensures
        incoming(wire.insert(name, wire[name].insert(i, bad))) == incoming(wire),
{
    lemma_other_values_stay(wire[name], i, bad);
    assert(incoming(wire.insert(name, wire[name].insert(i, bad))) =~= incoming(wire));
}

spec fn seen(names: Seq<HeaderName>, k: int, n: Seq<char>) -> bool {
    exists|j: int| 0 <= j < k && name_text(#[trigger] names[j]) == n
}

spec fn incoming_of(wire: Map<Seq<char>, Seq<Seq<u8>>>, names: Seq<HeaderName>, k: int) -> Map<
    Seq<char>,
    Seq<Seq<char>>,
> {
    Map::new(
        |n: Seq<char>| seen(names, k, n) && readable(values_of(wire, n)).len() > 0,
        |n: Seq<char>| readable(values_of(wire, n)),
    )
}

/// The values of one name that can be read as text.
fn readable_values(values: &Vec<HeaderValue>, Ghost(bytes): Ghost<Seq<Seq<u8>>>) -> (kept: Vec<
    String,
>)
    requires
        values.len() == bytes.len(),
        forall|i: int| 0 <= i < values.len() ==> value_bytes(#[trigger] values[i]) == bytes[i],
    ensures
        texts(kept@) == readable(bytes),
{
    let mut kept: Vec<String> = Vec::new();
    let mut j: usize = 0;
    assert(texts(kept@) =~= readable(bytes.take(0)));
    while j < values.len()
        invariant
            j <= values.len(),
            values.len() == bytes.len(),
            forall|i: int| 0 <= i < values.len() ==> value_bytes(#[trigger] values[i]) == bytes[i],
            texts(kept@) == readable(bytes.take(j as int)),
        decreases values.len() - j,
    {
        let ghost so_far = texts(kept@);
        assert(bytes.take(j + 1).drop_last() =~= bytes.take(j as int));
        assert(bytes.take(j + 1).last() == bytes[j as int]);
        match value_text(&values[j]) {
            Some(s) => {
                kept.push(s);
                assert(texts(kept@) =~= so_far.push(s@));
            },
            None => {},
        }
        j = j + 1;
    }
    assert(bytes.take(j as int) =~= bytes);
    kept
}

/// Reads the headers of an incoming request for the dispatch callback.
///
/// Every name of the wire is kept with those of its values that are
/// visible ASCII text; the other values are dropped, and a name with no
/// value left is dropped with them. Names come out in lower case, each
/// once.
pub fn convert_request_headers(headers: &HeaderMap<HeaderValue>) -> (r: HeaderFields)
    ensures
        fields_map(r@) == incoming(wire_fields(*headers)),
        distinct_names(r@),
        in_lower_case(r@),
{
    let ghost wire = wire_fields(*headers);
    let names: Vec<HeaderName> = wire_names(headers);
    let mut out: HeaderFields = HeaderFields::new();
    let mut k: usize = 0;
    assert(fields_map(out@) =~= incoming_of(wire, names@, 0));
    while k < names.len()
        invariant
            k <= names.len(),
            wire == wire_fields(*headers),
            forall|i: int, j: int|
                0 <= i < j < names.len() ==> name_text(#[trigger] names[i]) != name_text(
                    #[trigger] names[j],
                ),
            forall|i: int| 0 <= i < out@.len() ==> lowercase(#[trigger] out@[i].0) == out@[i].0,
            forall|i: int| 0 <= i < out@.len() ==> seen(names@, k as int, #[trigger] out@[i].0),
            distinct_names(out@),
            fields_map(out@) == incoming_of(wire, names@, k as int),
        decreases names.len() - k,
    {
        let ghost before = out@;
        let ghost n = name_text(names[k as int]);
        let values: Vec<HeaderValue> = wire_values(headers, &names[k]);
        let kept: Vec<String> = readable_values(&values, Ghost(values_of(wire, n)));
        assert(seen(names@, k + 1, n));
        assert forall|m: Seq<char>| seen(names@, k + 1, m) <==> (seen(names@, k as int, m) || m
            == n) by {
            if seen(names@, k as int, m) {
                let j = choose|j: int| 0 <= j < k && name_text(#[trigger] names[j]) == m;
                assert(0 <= j < k + 1 && name_text(names[j]) == m);
            }
            if seen(names@, k + 1, m) && m != n {
                let j = choose|j: int| 0 <= j < k + 1 && name_text(#[trigger] names[j]) == m;
                assert(0 <= j < k && name_text(names[j]) == m);
            }
        }
        assert(!seen(names@, k as int, n)) by {
            if seen(names@, k as int, n) {
                let j = choose|j: int| 0 <= j < k && name_text(#[trigger] names[j]) == n;
                assert(name_text(names[j]) != name_text(names[k as int]));
            }
        }
        if kept.len() > 0 {
            let name: String = name_string(&names[k]);
            let ghost entry = (name@, texts(kept@));
            out.fields.push(HeaderField { name, values: kept });
            assert(out@ =~= before.push(entry));
            assert(out@.drop_last() =~= before);
            assert(fields_map(out@) =~= incoming_of(wire, names@, k + 1));
            assert forall|a: int, b: int| 0 <= a < b < out@.len() implies !names_match(
                #[trigger] out@[a].0,
                #[trigger] out@[b].0,
            ) by {
                if b < before.len() {
                    assert(!names_match(before[a].0, before[b].0));
                } else {
                    assert(seen(names@, k as int, before[a].0));
                    lemma_lowercase_names(before[a].0, n);
                }
            }
        } else {
            assert(fields_map(out@) =~= incoming_of(wire, names@, k + 1));
        }
        k = k + 1;
    }
    assert forall|m: Seq<char>| seen(names@, names.len() as int, m) <==> wire.dom().contains(
        m,
    ) by {
        if wire.dom().contains(m) {
            let j = choose|j: int| 0 <= j < names.len() && name_text(#[trigger] names[j]) == m;
            assert(seen(names@, names.len() as int, m));
        }
        if seen(names@, names.len() as int, m) {
            let j = choose|j: int| 0 <= j < names.len() && name_text(#[trigger] names[j]) == m;
            assert(wire.dom().contains(name_text(names[j])));
        }
    }
    assert(incoming_of(wire, names@, names.len() as int) =~= incoming(wire));
    out
}

/// The wire headers `wire` after the values `values` were added under
/// `name`, one header for each value that is a legal header value; the
/// others are left out.
pub open spec fn put_values(
    wire: Map<Seq<char>, Seq<Seq<u8>>>,
    name: Seq<char>,
    values: Seq<Seq<char>>,
) -> Map<Seq<char>, Seq<Seq<u8>>>
    decreases values.len(),
{
    if values.len() == 0 {
        wire
    } else {
        let before = put_values(wire, name, values.drop_last());
        let bytes = encode_utf8(values.last());
        if is_field_value(bytes) {
            before.insert(name, values_of(before, name).push(bytes))
        } else {
            before
        }
    }
}

/// The wire headers `wire` after one field was written to them: a field
/// whose name is no legal header name changes nothing; any other replaces
/// what the wire held under its name, in lower case.
pub open spec fn put_field(wire: Map<Seq<char>, Seq<Seq<u8>>>, field: (Seq<char>, Seq<Seq<char>>)) -> Map<
    Seq<char>,
    Seq<Seq<u8>>,
> {
    if is_field_name(field.0) {
        put_values(wire.remove(lowercase(field.0)), lowercase(field.0), field.1)
    } else {
        wire
    }
}

/// The wire headers `wire` after the fields were written to them, in order.
pub open spec fn outgoing(
    wire: Map<Seq<char>, Seq<Seq<u8>>>,
    fields: Seq<(Seq<char>, Seq<Seq<char>>)>,
) -> Map<Seq<char>, Seq<Seq<u8>>>
    decreases fields.len(),
{
    if fields.len() == 0 {
        wire
    } else {
        put_field(outgoing(wire, fields.drop_last()), fields.last())
    }
}

/// The values among `values` that are legal header values, in order, as
/// the bytes that are sent.
pub open spec fn sendable(values: Seq<Seq<char>>) -> Seq<Seq<u8>>
    decreases values.len(),
{
    if values.len() == 0 {
        Seq::empty()
    } else if is_field_value(encode_utf8(values.last())) {
        sendable(values.drop_last()).push(encode_utf8(values.last()))
    } else {
        sendable(values.drop_last())
    }
}

/// Adding values under a name puts each legal value after those that the
/// name had, as a header of its own, and leaves every other name alone.
pub proof fn lemma_put_values(
    wire: Map<Seq<char>, Seq<Seq<u8>>>,
    name: Seq<char>,
    values: Seq<Seq<char>>,
)
    ensures
        values_of(put_values(wire, name, values), name) == values_of(wire, name) + sendable(values),
        put_values(wire, name, values).dom().contains(name) <==> wire.dom().contains(name)
            || sendable(values).len() > 0,
        put_values(wire, name, values).remove(name) == wire.remove(name),
    decreases values.len(),
{
    if values.len() == 0 {
        assert(values_of(wire, name) + sendable(values) =~= values_of(wire, name));
    } else {
        let before = put_values(wire, name, values.drop_last());
        lemma_put_values(wire, name, values.drop_last());
        let bytes = encode_utf8(values.last());
        if is_field_value(bytes) {
            assert(values_of(before, name).push(bytes) =~= values_of(wire, name) + sendable(
                values,
            ));
            assert(before.insert(name, values_of(before, name).push(bytes)).remove(name)
                =~= before.remove(name));
        }
    }
}

/// Writing a field with a legal name leaves under that name, in lower
/// case, exactly the legal values of the field, one header for each, and
/// leaves every other name alone. With no legal value the name is absent.
pub proof fn lemma_put_field(wire: Map<Seq<char>, Seq<Seq<u8>>>, field: (Seq<char>, Seq<Seq<char>>))
    requires
        is_field_name(field.0),
    ensures
        values_of(put_field(wire, field), lowercase(field.0)) == sendable(field.1),
        put_field(wire, field).dom().contains(lowercase(field.0)) <==> sendable(field.1).len() > 0,
        put_field(wire, field).remove(lowercase(field.0)) == wire.remove(lowercase(field.0)),
{
    let name = lowercase(field.0);
    lemma_put_values(wire.remove(name), name, field.1);
    assert(values_of(wire.remove(name), name) + sendable(field.1) =~= sendable(field.1));
    assert(wire.remove(name).remove(name) =~= wire.remove(name));
}

/// Writing a field whose name is no legal header name changes nothing.
pub proof fn lemma_bad_name_changes_nothing(
    wire: Map<Seq<char>, Seq<Seq<u8>>>,
    field: (Seq<char>, Seq<Seq<char>>),
)
    requires
        !is_field_name(field.0),
    ensures
        put_field(wire, field) == wire,
{
}

/// A value that is no legal header value is skipped, and the values around
/// it are sent as if it had not been there.
pub proof fn lemma_bad_value_is_skipped(values: Seq<Seq<char>>, i: int, bad: Seq<char>)
    requires
        0 <= i <= values.len(),
        !is_field_value(encode_utf8(bad)),
    ensures
        sendable(values.insert(i, bad)) == sendable(values),
    decreases values.len(),
{
    let with = values.insert(i, bad);
    if i == values.len() {
        assert(with.drop_last() =~= values);
    } else {
        lemma_bad_value_is_skipped(values.drop_last(), i, bad);
        assert(with.drop_last() =~= values.drop_last().insert(i, bad));
        assert(with.last() == values.last());
    }
}

/// The number of values that writing the fields hands to the wire: the
/// legal values of the fields with a legal name.
pub open spec fn offered(fields: Seq<(Seq<char>, Seq<Seq<char>>)>) -> nat
    decreases fields.len(),
{
    if fields.len() == 0 {
        0
    } else if is_field_name(fields.last().0) {
        offered(fields.drop_last()) + sendable(fields.last().1).len()
    } else {
        offered(fields.drop_last())
    }
}

/// Some field has a legal name that is `name` when put in lower case: the
/// names that writing the fields can touch.
pub open spec fn named(fields: Seq<(Seq<char>, Seq<Seq<char>>)>, name: Seq<char>) -> bool {
    exists|i: int|
        0 <= i < fields.len() && is_field_name((#[trigger] fields[i]).0) && lowercase(fields[i].0)
            == name
}

/// The wire holds under `name` after what it held before.
pub open spec fn untouched(
    before: Map<Seq<char>, Seq<Seq<u8>>>,
    after: Map<Seq<char>, Seq<Seq<u8>>>,
    name: Seq<char>,
) -> bool {
    &&& after.dom().contains(name) == before.dom().contains(name)
    &&& values_of(after, name) == values_of(before, name)
}

/// The wire headers `wire` after the fields before the one at `i` were
/// written, what the wire held under the name of that field was removed,
/// and the values of that field before the one at `j` were added.
pub open spec fn written_until(
    wire: Map<Seq<char>, Seq<Seq<u8>>>,
    fields: Seq<(Seq<char>, Seq<Seq<char>>)>,
    i: int,
    j: int,
) -> Map<Seq<char>, Seq<Seq<u8>>> {
    put_values(
        outgoing(wire, fields.take(i)).remove(lowercase(fields[i].0)),
        lowercase(fields[i].0),
        fields[i].1.take(j),
    )
}

/// Writing the fields to `wire` stopped at the value at `j` of the field
/// at `i`, a legal value under a legal name, and left `end`.
pub open spec fn stopped_at(
    wire: Map<Seq<char>, Seq<Seq<u8>>>,
    fields: Seq<(Seq<char>, Seq<Seq<char>>)>,
    i: int,
    j: int,
    end: Map<Seq<char>, Seq<Seq<u8>>>,
) -> bool {
    &&& 0 <= i < fields.len()
    &&& is_field_name(fields[i].0)
    &&& 0 <= j < fields[i].1.len()
    &&& is_field_value(encode_utf8(fields[i].1[j]))
    &&& end == written_until(wire, fields, i, j)
}

/// Writing the fields to `wire` stopped somewhere and left `end`.
pub open spec fn stopped(
    wire: Map<Seq<char>, Seq<Seq<u8>>>,
    fields: Seq<(Seq<char>, Seq<Seq<char>>)>,
    end: Map<Seq<char>, Seq<Seq<u8>>>,
) -> bool {
    exists|i: int, j: int| #[trigger] stopped_at(wire, fields, i, j, end)
}

/// The legal values among the first values are no more than among all.
pub proof fn lemma_sendable_start(values: Seq<Seq<char>>, j: int)
    requires
        0 <= j <= values.len(),
    ensures
        sendable(values.take(j)).len() <= sendable(values).len(),
    decreases values.len(),
{
    if j == values.len() {
        assert(values.take(j) =~= values);
    } else {
        assert(values.drop_last().take(j) =~= values.take(j));
        lemma_sendable_start(values.drop_last(), j);
    }
}

/// The first fields offer no more values than all of them.
pub proof fn lemma_offered_start(fields: Seq<(Seq<char>, Seq<Seq<char>>)>, i: int)
    requires
        0 <= i <= fields.len(),
    ensures
        offered(fields.take(i)) <= offered(fields),
    decreases fields.len(),
{
    if i == fields.len() {
        assert(fields.take(i) =~= fields);
    } else {
        assert(fields.drop_last().take(i) =~= fields.take(i));
        lemma_offered_start(fields.drop_last(), i);
    }
}

/// A name that the first fields touch is one that the fields touch.
pub proof fn lemma_named_start(fields: Seq<(Seq<char>, Seq<Seq<char>>)>, i: int, name: Seq<char>)
    requires
        0 <= i <= fields.len(),
        named(fields.take(i), name),
    ensures
        named(fields, name),
{
    let t = fields.take(i);
    let k = choose|k: int|
        0 <= k < t.len() && is_field_name((#[trigger] t[k]).0) && lowercase(t[k].0) == name;
    assert(fields[k] == t[k]);
}

/// Adding values under a name leaves every other name as it was.
pub proof fn lemma_put_values_elsewhere(
    wire: Map<Seq<char>, Seq<Seq<u8>>>,
    name: Seq<char>,
    values: Seq<Seq<char>>,
    other: Seq<char>,
)
    requires
        other != name,
    ensures
        untouched(wire, put_values(wire, name, values), other),
{
    lemma_put_values(wire, name, values);
    let after = put_values(wire, name, values);
    assert(after.remove(name).dom().contains(other) == after.dom().contains(other));
    assert(wire.remove(name).dom().contains(other) == wire.dom().contains(other));
    if after.dom().contains(other) {
        assert(after.remove(name)[other] == after[other]);
        assert(wire.remove(name)[other] == wire[other]);
    }
}

/// Writing fields leaves every name as it was that none of them touches:
/// its values stay, in their order, and a name that was absent stays so.
pub proof fn lemma_outgoing_elsewhere(
    wire: Map<Seq<char>, Seq<Seq<u8>>>,
    fields: Seq<(Seq<char>, Seq<Seq<char>>)>,
    other: Seq<char>,
)
    requires
        !named(fields, other),
    ensures
        untouched(wire, outgoing(wire, fields), other),
    decreases fields.len(),
{
    if fields.len() > 0 {
        let rest = fields.drop_last();
        let last = fields.last();
        if named(rest, other) {
            assert(rest =~= fields.take(fields.len() - 1));
            lemma_named_start(fields, fields.len() - 1, other);
        }
        lemma_outgoing_elsewhere(wire, rest, other);
        let before = outgoing(wire, rest);
        if is_field_name(last.0) {
            let name = lowercase(last.0);
            assert(fields[fields.len() - 1] == last);
            assert(name != other);
            lemma_put_values_elsewhere(before.remove(name), name, last.1, other);
        }
    }
}

/// Where writing stopped, too, every name is as it was that no field
/// touches.
pub proof fn lemma_stopped_elsewhere(
    wire: Map<Seq<char>, Seq<Seq<u8>>>,
    fields: Seq<(Seq<char>, Seq<Seq<char>>)>,
    i: int,
    j: int,
    end: Map<Seq<char>, Seq<Seq<u8>>>,
    other: Seq<char>,
)
    requires
        stopped_at(wire, fields, i, j, end),
        !named(fields, other),
    ensures
        untouched(wire, end, other),
{
    let name = lowercase(fields[i].0);
    assert(name != other);
    if named(fields.take(i), other) {
        lemma_named_start(fields, i, other);
    }
    lemma_outgoing_elsewhere(wire, fields.take(i), other);
    lemma_put_values_elsewhere(outgoing(wire, fields.take(i)).remove(name), name, fields[i].1.take(j), other);
}

/// Where writing stopped, the name at which it stopped holds the legal
/// values of its field that came before, one header for each, and nothing
/// else.
pub proof fn lemma_stopped_name(
    wire: Map<Seq<char>, Seq<Seq<u8>>>,
    fields: Seq<(Seq<char>, Seq<Seq<char>>)>,
    i: int,
    j: int,
    end: Map<Seq<char>, Seq<Seq<u8>>>,
)
    requires
        stopped_at(wire, fields, i, j, end),
    ensures
        values_of(end, lowercase(fields[i].0)) == sendable(fields[i].1.take(j)),
        sendable(fields[i].1.take(j)).len() < sendable(fields[i].1).len(),
{
    let name = lowercase(fields[i].0);
    let removed = outgoing(wire, fields.take(i)).remove(name);
    lemma_put_values(removed, name, fields[i].1.take(j));
    assert(values_of(removed, name) + sendable(fields[i].1.take(j)) =~= sendable(
        fields[i].1.take(j),
    ));
    let next = fields[i].1.take(j + 1);
    assert(next.drop_last() =~= fields[i].1.take(j));
    assert(next.last() == fields[i].1[j]);
    lemma_sendable_start(fields[i].1, j + 1);
}

/// A name that exactly one field touches holds, once all fields are
/// written, the legal values of that field, one header for each, in their
/// order; what the wire held under the name before is gone.
pub proof fn lemma_outgoing_name(
    wire: Map<Seq<char>, Seq<Seq<u8>>>,
    fields: Seq<(Seq<char>, Seq<Seq<char>>)>,
    p: int,
)
    requires
        0 <= p < fields.len(),
        is_field_name(fields[p].0),
        forall|i: int|
            0 <= i < fields.len() && i != p && is_field_name((#[trigger] fields[i]).0)
                ==> lowercase(fields[i].0) != lowercase(fields[p].0),
    ensures
        values_of(outgoing(wire, fields), lowercase(fields[p].0)) == sendable(fields[p].1),
        outgoing(wire, fields).dom().contains(lowercase(fields[p].0)) <==> sendable(
            fields[p].1,
        ).len() > 0,
    decreases fields.len(),
{
    let name = lowercase(fields[p].0);
    let rest = fields.drop_last();
    let last = fields.last();
    let before = outgoing(wire, rest);
    if p == fields.len() - 1 {
        lemma_put_field(before, last);
    } else {
        assert(rest[p] == fields[p]);
        assert forall|i: int|
            0 <= i < rest.len() && i != p && is_field_name((#[trigger] rest[i]).0) implies lowercase(
            rest[i].0,
        ) != name by {
            assert(rest[i] == fields[i]);
        }
        lemma_outgoing_name(wire, rest, p);
        if is_field_name(last.0) {
            assert(fields[fields.len() - 1] == last);
            let other = lowercase(last.0);
            lemma_put_values_elsewhere(before.remove(other), other, last.1, name);
        }
    }
}

/// The places of the fields whose name is no legal header name, in order.
pub open spec fn skipped_names(fields: Seq<(Seq<char>, Seq<Seq<char>>)>) -> Seq<usize>
    decreases fields.len(),
{
    if fields.len() == 0 {
        Seq::empty()
    } else if is_field_name(fields.last().0) {
        skipped_names(fields.drop_last())
    } else {
        skipped_names(fields.drop_last()).push((fields.len() - 1) as usize)
    }
}

/// The places of the values that are no legal header values, in order, each
/// with the place `field` of its field.
pub open spec fn skipped_among(values: Seq<Seq<char>>, field: usize) -> Seq<(usize, usize)>
    decreases values.len(),
{
    if values.len() == 0 {
        Seq::empty()
    } else if is_field_value(encode_utf8(values.last())) {
        skipped_among(values.drop_last(), field)
    } else {
        skipped_among(values.drop_last(), field).push((field, (values.len() - 1) as usize))
    }
}

/// The places of the values that are no legal header values, under the
/// fields with a legal name, in order: the place of the field, then that of
/// the value among the values of the field.
pub open spec fn skipped_values(fields: Seq<(Seq<char>, Seq<Seq<char>>)>) -> Seq<(usize, usize)>
    decreases fields.len(),
{
    if fields.len() == 0 {
        Seq::empty()
    } else if is_field_name(fields.last().0) {
        skipped_values(fields.drop_last()) + skipped_among(
            fields.last().1,
            (fields.len() - 1) as usize,
        )
    } else {
        skipped_values(fields.drop_last())
    }
}

/// What writing the headers of a response leaves out, for the log.
#[derive(Debug)]
pub struct Skipped {
    /// The places of the fields whose name is no legal header name. None of
    /// their values is sent.
    pub names: Vec<usize>,
    /// The places of the values that are no legal header values, under the
    /// other fields: the place of the field, then that of the value.
    pub values: Vec<(usize, usize)>,
}

/// Finds what `convert_response_headers` leaves out of these headers: the
/// fields whose name is no legal header name, and under the other fields
/// the values that are no legal header values.
pub fn skipped_headers(header: &HeaderFields) -> (r: Skipped)
    ensures
        r.names@ == skipped_names(header@),
        r.values@ == skipped_values(header@),
{
    let mut names: Vec<usize> = Vec::new();
    let mut values: Vec<(usize, usize)> = Vec::new();
    let mut i: usize = 0;
    assert(header@.take(0) =~= Seq::<(Seq<char>, Seq<Seq<char>>)>::empty());
    while i < header.fields.len()
        invariant
            i <= header.fields.len(),
            names@ == skipped_names(header@.take(i as int)),
            values@ == skipped_values(header@.take(i as int)),
        decreases header.fields.len() - i,
    {
        assert(header@.take(i + 1).drop_last() =~= header@.take(i as int));
        assert(header@.take(i + 1).last() == header@[i as int]);
        let field: &HeaderField = &header.fields[i];
        match parse_name(field.name.as_str()) {
            Some(_) => {
                let ghost before = values@;
                let ghost all = texts(field.values@);
                let mut j: usize = 0;
                assert(all.take(0) =~= Seq::<Seq<char>>::empty());
                assert(values@ =~= before + skipped_among(all.take(0), i));
                while j < field.values.len()
                    invariant
                        j <= field.values.len(),
                        all == texts(field.values@),
                        values@ == before + skipped_among(all.take(j as int), i),
                    decreases field.values.len() - j,
                {
                    assert(all.take(j + 1).drop_last() =~= all.take(j as int));
                    assert(all.take(j + 1).last() == field.values[j as int]@);
                    match parse_value(field.values[j].clone()) {
                        Some(_) => {},
                        None => {
                            values.push((i, j));
                            assert(values@ =~= before + skipped_among(all.take(j + 1), i));
                        },
                    }
                    j = j + 1;
                }
                assert(all.take(j as int) =~= all);
            },
            None => {
                names.push(i);
            },
        }
        i = i + 1;
    }
    assert(header@.take(i as int) =~= header@);
    Skipped { names, values }
}

/// Adds the values of one field to the wire, one header for each legal
/// value, until the wire refuses one. Gives the place of the value that
/// was refused, or `None` if the wire took them all.
fn append_values(map: &mut HeaderMap<HeaderValue>, name: &HeaderName, values: &Vec<String>) -> (refused:
    Option<usize>)
    ensures
        refused is None ==> wire_fields(*final(map)) == put_values(
            wire_fields(*old(map)),
            name_text(*name),
            texts(values@),
        ),
        refused matches Some(j) ==> j < values.len() && is_field_value(
            encode_utf8(texts(values@)[j as int]),
        ) && wire_fields(*final(map)) == put_values(
            wire_fields(*old(map)),
            name_text(*name),
            texts(values@).take(j as int),
        ),
        wire_count(*final(map)) <= wire_count(*old(map)) + sendable(texts(values@)).len(),
        wire_count(*old(map)) + sendable(texts(values@)).len() <= sure_room() ==> refused is None,
{
    let ghost start = wire_fields(*map);
    let ghost held = wire_count(*map);
    let ghost n = name_text(*name);
    let ghost all = texts(values@);
    let mut j: usize = 0;
    assert(all.take(0) =~= Seq::<Seq<char>>::empty());
    while j < values.len()
        invariant
            j <= values.len(),
            all == texts(values@),
            n == name_text(*name),
            start == wire_fields(*old(map)),
            held == wire_count(*old(map)),
            wire_fields(*map) == put_values(start, n, all.take(j as int)),
            wire_count(*map) <= held + sendable(all.take(j as int)).len(),
        decreases values.len() - j,
    {
        proof {
            assert(all.take(j + 1).drop_last() =~= all.take(j as int));
            assert(all.take(j + 1).last() == values[j as int]@);
            lemma_sendable_start(all, j + 1);
            lemma_sendable_start(all, j as int);
        }
        match parse_value(values[j].clone()) {
            Some(value) => {
                let stored: bool = wire_append(map, name, value);
                if !stored {
                    return Some(j);
                }
            },
            None => {},
        }
        j = j + 1;
    }
    assert(all.take(j as int) =~= all);
    None
}

/// Writes the headers that the dispatch callback returned to the headers
/// of the wire.
///
/// A field whose name is no legal header name is skipped. For any other,
/// what the wire held under that name is removed, and each value that is a
/// legal header value becomes a header of its own; the other values are
/// skipped.
///
/// The wire may refuse a value for want of room. Writing stops there, and
/// the result is `false`; the wire then holds what was written up to that
/// value. A wire with room for all that is offered refuses nothing. Names
/// that no field touches keep what they held in either case.
pub fn convert_response_headers(header: HeaderFields, map: &mut HeaderMap<HeaderValue>) -> (complete:
    bool)
    ensures
        complete ==> wire_fields(*final(map)) == outgoing(wire_fields(*old(map)), header@),
        !complete ==> stopped(wire_fields(*old(map)), header@, wire_fields(*final(map))),
        wire_count(*old(map)) + offered(header@) <= sure_room() ==> complete,
        wire_count(*final(map)) <= wire_count(*old(map)) + offered(header@),
        forall|name: Seq<char>|
            !(#[trigger] named(header@, name)) ==> untouched(
                wire_fields(*old(map)),
                wire_fields(*final(map)),
                name,
            ),
{
    let ghost start = wire_fields(*map);
    let ghost held = wire_count(*map);
    let mut i: usize = 0;
    assert(header@.take(0) =~= Seq::<(Seq<char>, Seq<Seq<char>>)>::empty());
    while i < header.fields.len()
        invariant
            i <= header.fields.len(),
            start == wire_fields(*old(map)),
            held == wire_count(*old(map)),
            wire_fields(*map) == outgoing(start, header@.take(i as int)),
            wire_count(*map) <= held + offered(header@.take(i as int)),
        decreases header.fields.len() - i,
    {
        proof {
            assert(header@.take(i + 1).drop_last() =~= header@.take(i as int));
            assert(header@.take(i + 1).last() == header@[i as int]);
            lemma_offered_start(header@, i + 1);
        }
        let field: &HeaderField = &header.fields[i];
        match parse_name(field.name.as_str()) {
            Some(name) => {
                wire_remove(map, &name);
                match append_values(map, &name, &field.values) {
                    Some(j) => {
                        proof {
                            let end = wire_fields(*map);
                            assert(stopped_at(start, header@, i as int, j as int, end));
                            assert forall|other: Seq<char>|
                                !(#[trigger] named(header@, other)) implies untouched(
                                start,
                                end,
                                other,
                            ) by {
                                lemma_stopped_elsewhere(
                                    start,
                                    header@,
                                    i as int,
                                    j as int,
                                    end,
                                    other,
                                );
                            }
                        }
                        return false;
                    },
                    None => {},
                }
            },
            None => {},
        }
        i = i + 1;
    }
    proof {
        assert(header@.take(i as int) =~= header@);
        assert forall|other: Seq<char>| !(#[trigger] named(header@, other)) implies untouched(
            start,
            wire_fields(*map),
            other,
        ) by {
            lemma_outgoing_elsewhere(start, header@, other);
        }
    }
    true
}

} // verus!
