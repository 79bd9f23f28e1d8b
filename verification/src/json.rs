//! JSON trees, serialization and parsing.
//!
//! The wire format of the API is JSON text.  The library frames request
//! bodies and reads response bodies itself: a [`JsonValue`] tree is
//! serialized to text for sending, and response text is parsed back into a
//! tree before the typed decoding of each resource record.  Numbers are
//! integers: the records this client exchanges carry none other, and a
//! fractional number in a response is reported as a parse failure.
//!
//! The mathematical model is [`Json`]; [`spec_ser`] fixes the exact text a
//! tree serializes to.

use vstd::prelude::*;

use crate::text::{i64_to_string, spec_digit_char, spec_idec, spec_udec};

verus! {

use vstd::string::StrSliceExecFns;
use vstd::string::StringExecFns;

/// Mathematical value of a JSON document.
pub enum Json {
    Null,
    Bool(bool),
    Int(int),
    Str(Seq<char>),
    Arr(Seq<Json>),
    Obj(Seq<(Seq<char>, Json)>),
}

/// A JSON document: object members keep the order in which they were
/// written, and integer values are bounded by the machine integer that
/// carries them.
#[derive(Debug)]
pub enum JsonValue {
    Null,
    Bool(bool),
    Int(i64),
    Str(String),
    Arr(Vec<JsonValue>),
    Obj(Vec<(String, JsonValue)>),
}

/// Mathematical value of a [`JsonValue`] tree.
pub open spec fn spec_json_of(v: JsonValue) -> Json
    decreases v,
    via spec_json_of_dec
{
    match v {
        JsonValue::Null => Json::Null,
        JsonValue::Bool(b) => Json::Bool(b),
        JsonValue::Int(n) => Json::Int(n as int),
        JsonValue::Str(s) => Json::Str(s@),
        JsonValue::Arr(items) => Json::Arr(spec_jsons_of(items@)),
        JsonValue::Obj(members) => Json::Obj(spec_members_of(members@)),
    }
}

/// Mathematical values of a sequence of trees, in order.
pub open spec fn spec_jsons_of(items: Seq<JsonValue>) -> Seq<Json>
    decreases items,
{
    if items.len() == 0 {
        Seq::empty()
    } else {
        spec_jsons_of(items.drop_last()).push(spec_json_of(items.last()))
    }
}

/// Mathematical values of a sequence of object members, in order.
pub open spec fn spec_members_of(members: Seq<(String, JsonValue)>) -> Seq<(Seq<char>, Json)>
    decreases members,
    via spec_members_of_dec
{
    if members.len() == 0 {
        Seq::empty()
    } else {
        spec_members_of(members.drop_last()).push(
            (members.last().0@, spec_json_of(members.last().1)),
        )
    }
}

#[via_fn]
proof fn spec_json_of_dec(v: JsonValue) {
    match v {
        JsonValue::Arr(items) => {
            assert(decreases_to!(v => items));
            assert(decreases_to!(items => items@));
        },
        JsonValue::Obj(members) => {
            assert(decreases_to!(v => members));
            assert(decreases_to!(members => members@));
        },
        _ => {
        },
    }
}

#[via_fn]
proof fn spec_members_of_dec(members: Seq<(String, JsonValue)>) {
    if members.len() > 0 {
        assert(decreases_to!(members => members.last()));
        assert(decreases_to!(members.last() => members.last().1));
    }
}

impl View for JsonValue {
    type V = Json;

    open spec fn view(&self) -> Json {
        spec_json_of(*self)
    }
}

impl DeepView for JsonValue {
    type V = Json;

    open spec fn deep_view(&self) -> Json {
        self.view()
    }
}

/// The values of a tree sequence, item by item.
pub proof fn lemma_jsons_of(items: Seq<JsonValue>)
    ensures
        spec_jsons_of(items).len() == items.len(),
        forall|i: int| 0 <= i < items.len() ==> spec_jsons_of(items)[i] == spec_json_of(
            #[trigger] items[i],
        ),
    decreases items.len(),
{
    if items.len() > 0 {
        let t = items.drop_last();
        lemma_jsons_of(t);
        assert forall|i: int| 0 <= i < items.len() implies spec_jsons_of(items)[i]
            == spec_json_of(#[trigger] items[i]) by {
            if i < items.len() - 1 {
                assert(t[i] == items[i]);
                assert(spec_jsons_of(items)[i] == spec_jsons_of(t)[i]);
            } else {
                assert(items.last() == items[i]);
            }
        }
    }
}

/// The values of a member sequence, member by member.
pub proof fn lemma_members_of(members: Seq<(String, JsonValue)>)
    ensures
        spec_members_of(members).len() == members.len(),
        forall|i: int| 0 <= i < members.len() ==> spec_members_of(members)[i] == (
        (#[trigger] members[i]).0@,
            spec_json_of(members[i].1),
        ),
    decreases members.len(),
{
    if members.len() > 0 {
        let t = members.drop_last();
        lemma_members_of(t);
        assert forall|i: int| 0 <= i < members.len() implies spec_members_of(members)[i] == (
        (#[trigger] members[i]).0@,
            spec_json_of(members[i].1),
        ) by {
            if i < members.len() - 1 {
                assert(t[i] == members[i]);
                assert(spec_members_of(members)[i] == spec_members_of(t)[i]);
            } else {
                assert(members.last() == members[i]);
            }
        }
    }
}

// === Serialization ===

/// The character for a single hexadecimal digit, lower case.
pub open spec fn spec_hex_char(d: int) -> char {
    if d == 0 {
        '0'
    } else if d == 1 {
        '1'
    } else if d == 2 {
        '2'
    } else if d == 3 {
        '3'
    } else if d == 4 {
        '4'
    } else if d == 5 {
        '5'
    } else if d == 6 {
        '6'
    } else if d == 7 {
        '7'
    } else if d == 8 {
        '8'
    } else if d == 9 {
        '9'
    } else if d == 10 {
        'a'
    } else if d == 11 {
        'b'
    } else if d == 12 {
        'c'
    } else if d == 13 {
        'd'
    } else if d == 14 {
        'e'
    } else {
        'f'
    }
}

/// How one character of a string value is written: quotes, backslashes and
/// the named control characters get a two-character escape, the remaining
/// control characters a hexadecimal escape, everything else stands as it is.
pub open spec fn spec_escape_char(c: char) -> Seq<char> {
    if c == '"' {
        seq!['\\', '"']
    } else if c == '\\' {
        seq!['\\', '\\']
    } else if c == '\n' {
        seq!['\\', 'n']
    } else if c == '\r' {
        seq!['\\', 'r']
    } else if c == '\t' {
        seq!['\\', 't']
    } else if (c as u32) < 0x20 {
        seq!['\\', 'u', '0', '0', spec_hex_char((c as u32) as int / 16), spec_hex_char(
            (c as u32) as int % 16,
        )]
    } else {
        seq![c]
    }
}

/// The escaped text of a whole string value.
pub open spec fn spec_escape(s: Seq<char>) -> Seq<char>
    decreases s.len(),
{
    if s.len() == 0 {
        Seq::empty()
    } else {
        spec_escape(s.drop_last()) + spec_escape_char(s.last())
    }
}

/// The exact text a JSON tree serializes to: no whitespace, object members
/// in order, strings escaped as [`spec_escape`] says.
pub open spec fn spec_ser(j: Json) -> Seq<char>
    decreases j,
{
    match j {
        Json::Null => "null"@,
        Json::Bool(b) => if b {
            "true"@
        } else {
            "false"@
        },
        Json::Int(n) => spec_idec(n),
        Json::Str(s) => seq!['"'] + spec_escape(s) + seq!['"'],
        Json::Arr(items) => seq!['['] + spec_ser_items(items) + seq![']'],
        Json::Obj(members) => seq!['{'] + spec_ser_members(members) + seq!['}'],
    }
}

/// The comma-separated texts of an array's items.
pub open spec fn spec_ser_items(items: Seq<Json>) -> Seq<char>
    decreases items,
{
    if items.len() == 0 {
        Seq::empty()
    } else if items.len() == 1 {
        spec_ser(items[0])
    } else {
        spec_ser_items(items.drop_last()) + seq![','] + spec_ser(items.last())
    }
}

/// The comma-separated `"key":value` texts of an object's members.
pub open spec fn spec_ser_members(members: Seq<(Seq<char>, Json)>) -> Seq<char>
    decreases members,
{
    if members.len() == 0 {
        Seq::empty()
    } else if members.len() == 1 {
        spec_ser_member(members[0])
    } else {
        spec_ser_members(members.drop_last()) + seq![','] + spec_ser_member(members.last())
    }
}

/// The `"key":value` text of a single object member.
pub open spec fn spec_ser_member(member: (Seq<char>, Json)) -> Seq<char>
    decreases member,
{
    seq!['"'] + spec_escape(member.0) + seq!['"', ':'] + spec_ser(member.1)
}

fn hex_char(d: u32) -> (c: char)
    requires
        d < 16,
    ensures
        c == spec_hex_char(d as int),
{
    if d == 0 {
        '0'
    } else if d == 1 {
        '1'
    } else if d == 2 {
        '2'
    } else if d == 3 {
        '3'
    } else if d == 4 {
        '4'
    } else if d == 5 {
        '5'
    } else if d == 6 {
        '6'
    } else if d == 7 {
        '7'
    } else if d == 8 {
        '8'
    } else if d == 9 {
        '9'
    } else if d == 10 {
        'a'
    } else if d == 11 {
        'b'
    } else if d == 12 {
        'c'
    } else if d == 13 {
        'd'
    } else if d == 14 {
        'e'
    } else {
        'f'
    }
}

/// Append the escaped text of `s` to `out`.
fn escape_into(s: &str, out: &mut String)
    ensures
        final(out)@ == old(out)@ + spec_escape(s@),
{
    let n = s.unicode_len();
    let mut i: usize = 0;
    proof {
        assert(old(out)@ + spec_escape(s@.take(0)) =~= old(out)@);
    }
    while i < n
        invariant
            i <= n,
            n == s@.len(),
            out@ == old(out)@ + spec_escape(s@.take(i as int)),
        decreases n - i,
    {
        let c = s.get_char(i);
        let code: u32 = c as u32;
        if c == '"' {
            out.push('\\');
            out.push('"');
        } else if c == '\\' {
            out.push('\\');
            out.push('\\');
        } else if c == '\n' {
            out.push('\\');
            out.push('n');
        } else if c == '\r' {
            out.push('\\');
            out.push('r');
        } else if c == '\t' {
            out.push('\\');
            out.push('t');
        } else if code < 0x20 {
            out.push('\\');
            out.push('u');
            out.push('0');
            out.push('0');
            out.push(hex_char(code / 16));
            out.push(hex_char(code % 16));
        } else {
            out.push(c);
        }
        proof {
            let t = s@.take(i + 1);
            assert(t.drop_last() =~= s@.take(i as int));
            assert(t.last() == s@[i as int]);
            assert(out@ =~= old(out)@ + spec_escape(t));
        }
        i = i + 1;
    }
    proof {
        assert(s@.take(n as int) =~= s@);
    }
}

/// Append the serialized text of `j` to `out`.
#[verifier::loop_isolation(false)]
fn write_json(j: &JsonValue, out: &mut String)
    ensures
        final(out)@ == old(out)@ + spec_ser(j@),
    decreases j,
{
    match j {
        JsonValue::Null => {
            out.append("null");
        },
        JsonValue::Bool(b) => {
            if *b {
                out.append("true");
            } else {
                out.append("false");
            }
        },
        JsonValue::Int(n) => {
            let txt = i64_to_string(*n);
            out.append(txt.as_str());
        },
        JsonValue::Str(s) => {
            out.push('"');
            escape_into(s.as_str(), out);
            out.push('"');
            proof {
                assert(out@ =~= old(out)@ + spec_ser(j@));
            }
        },
        JsonValue::Arr(items) => {
            let ghost gitems = spec_jsons_of(items@);
            proof {
                lemma_jsons_of(items@);
                assert(j@ == Json::Arr(gitems));
            }
            out.push('[');
            let ghost opened = out@;
            let mut i: usize = 0;
            while i < items.len()
                invariant
                    i <= items@.len(),
                    gitems == spec_jsons_of(items@),
                    gitems.len() == items@.len(),
                    forall|k: int| 0 <= k < items@.len() ==> gitems[k] == spec_json_of(
                        #[trigger] items@[k],
                    ),
                    out@ == opened + spec_ser_items(gitems.take(i as int)),
                decreases items@.len() - i,
            {
                if i > 0 {
                    out.push(',');
                }
                proof {
                    assert(decreases_to!(*j => *items));
                    assert(decreases_to!(*items => items@));
                    assert(decreases_to!(items@ => items@[i as int]));
                }
                write_json(&items[i], out);
                proof {
                    let t = gitems.take(i + 1);
                    assert(t.drop_last() =~= gitems.take(i as int));
                    assert(t.last() == gitems[i as int]);
                    assert(out@ =~= opened + spec_ser_items(t));
                }
                i = i + 1;
            }
            out.push(']');
            proof {
                assert(gitems.take(items@.len() as int) =~= gitems);
                assert(out@ =~= old(out)@ + spec_ser(j@));
            }
        },
        JsonValue::Obj(members) => {
            let ghost gmembers = spec_members_of(members@);
            proof {
                lemma_members_of(members@);
                assert(j@ == Json::Obj(gmembers));
            }
            out.push('{');
            let ghost opened = out@;
            let mut i: usize = 0;
            while i < members.len()
                invariant
                    i <= members@.len(),
                    gmembers == spec_members_of(members@),
                    gmembers.len() == members@.len(),
                    forall|k: int| 0 <= k < members@.len() ==> gmembers[k] == (
                    (#[trigger] members@[k]).0@,
                        spec_json_of(members@[k].1),
                    ),
                    out@ == opened + spec_ser_members(gmembers.take(i as int)),
                decreases members@.len() - i,
            {
                if i > 0 {
                    out.push(',');
                }
                out.push('"');
                escape_into(members[i].0.as_str(), out);
                out.push('"');
                out.push(':');
                proof {
                    assert(decreases_to!(*j => *members));
                    assert(decreases_to!(*members => members@));
                    assert(decreases_to!(members@ => members@[i as int]));
                    assert(decreases_to!(members@[i as int] => members@[i as int].1));
                }
                write_json(&members[i].1, out);
                proof {
                    let t = gmembers.take(i + 1);
                    assert(t.drop_last() =~= gmembers.take(i as int));
                    assert(t.last() == gmembers[i as int]);
                    assert(spec_ser_member(gmembers[i as int]) =~= seq!['"'] + spec_escape(
                        members@[i as int].0@,
                    ) + seq!['"', ':'] + spec_ser(members@[i as int].1@));
                    assert(out@ =~= opened + spec_ser_members(t));
                }
                i = i + 1;
            }
            out.push('}');
            proof {
                assert(gmembers.take(members@.len() as int) =~= gmembers);
                assert(out@ =~= old(out)@ + spec_ser(j@));
            }
        },
    }
}

/// The serialized text of a JSON tree.
pub fn json_to_string(j: &JsonValue) -> (r: String)
    ensures
        r@ == spec_ser(j@),
{
    let mut out = String::new();
    write_json(j, &mut out);
    proof {
        assert(out@ =~= spec_ser(j@));
    }
    out
}

// === Object member lookup ===

/// The value under `key`: the first member that carries it.
pub open spec fn spec_obj_lookup(members: Seq<(Seq<char>, Json)>, key: Seq<char>) -> Option<Json>
    decreases members.len(),
{
    if members.len() == 0 {
        None
    } else if members[0].0 == key {
        Some(members[0].1)
    } else {
        spec_obj_lookup(members.drop_first(), key)
    }
}

/// When the first member named `key` stands at `i`, the lookup yields it.
pub proof fn lemma_obj_lookup_index(members: Seq<(Seq<char>, Json)>, key: Seq<char>, i: int)
    requires
        0 <= i < members.len(),
        members[i].0 == key,
        forall|k: int| 0 <= k < i ==> members[k].0 != key,
    ensures
        spec_obj_lookup(members, key) == Some(members[i].1),
    decreases i,
{
    if i > 0 {
        let t = members.drop_first();
        assert(forall|k: int| 0 <= k < t.len() ==> t[k] == members[k + 1]);
        lemma_obj_lookup_index(t, key, i - 1);
    }
}

/// When no member carries `key`, the lookup yields nothing.
pub proof fn lemma_obj_lookup_absent(members: Seq<(Seq<char>, Json)>, key: Seq<char>)
    requires
        forall|k: int| 0 <= k < members.len() ==> members[k].0 != key,
    ensures
        spec_obj_lookup(members, key) is None,
    decreases members.len(),
{
    if members.len() > 0 {
        let t = members.drop_first();
        assert(forall|k: int| 0 <= k < t.len() ==> t[k] == members[k + 1]);
        lemma_obj_lookup_absent(t, key);
    }
}

// === Parsing ===

/// Relies on `char::from_u32` of std: yields the character for the code
/// point, and nothing exactly when the value is a surrogate or larger than
/// the greatest code point.
pub assume_specification[ char::from_u32 ](u: u32) -> (r: Option<char>)
    ensures
        (r is Some) <==> !(0xD800 <= u < 0xE000 || u > 0x10FFFF),
        r matches Some(c) ==> c as u32 == u,
;

/// The whitespace JSON allows between tokens.
pub open spec fn spec_is_ws(c: char) -> bool {
    c == ' ' || c == '\n' || c == '\r' || c == '\t'
}

/// The first index at or after `i` that does not hold whitespace.
pub open spec fn spec_skip_ws(s: Seq<char>, i: int) -> int
    decreases s.len() - i,
{
    if i < 0 || i >= s.len() {
        i
    } else if spec_is_ws(s[i]) {
        spec_skip_ws(s, i + 1)
    } else {
        i
    }
}

/// The value of a hexadecimal digit character, either case.
pub open spec fn spec_hex_val(c: char) -> Option<int> {
    if 48 <= (c as u32) <= 57 {
        Some((c as u32) as int - 48)
    } else if 97 <= (c as u32) <= 102 {
        Some((c as u32) as int - 87)
    } else if 65 <= (c as u32) <= 70 {
        Some((c as u32) as int - 55)
    } else {
        None
    }
}

/// A decimal digit character.
pub open spec fn spec_is_digit(c: char) -> bool {
    48 <= (c as u32) <= 57
}

/// The value of a decimal digit character.
pub open spec fn spec_digit_val(c: char) -> int {
    (c as u32) as int - 48
}

/// The first index at or after `i` that does not hold a decimal digit.
pub open spec fn spec_digits_end(s: Seq<char>, i: int) -> int
    decreases s.len() - i,
{
    if i < 0 || i >= s.len() {
        i
    } else if spec_is_digit(s[i]) {
        spec_digits_end(s, i + 1)
    } else {
        i
    }
}

/// The value of the decimal digit run `s[i .. end)`.
pub open spec fn spec_digits_val(s: Seq<char>, i: int, end: int) -> int
    decreases end - i,
{
    if end <= i {
        0
    } else {
        spec_digits_val(s, i, end - 1) * 10 + spec_digit_val(s[end - 1])
    }
}

/// The character a two-character escape stands for.
pub open spec fn spec_unescape_char(c: char) -> Option<char> {
    if c == '"' {
        Some('"')
    } else if c == '\\' {
        Some('\\')
    } else if c == '/' {
        Some('/')
    } else if c == 'n' {
        Some('\n')
    } else if c == 't' {
        Some('\t')
    } else if c == 'r' {
        Some('\r')
    } else if c == 'b' {
        Some('\u{0008}')
    } else if c == 'f' {
        Some('\u{000C}')
    } else {
        None
    }
}

/// What the text from `i` parses to as the inside of a string value, up to
/// and including the closing quote: the characters read and the index after
/// the quote.  Escapes are decoded; hexadecimal escapes for surrogates and
/// raw control characters are refused.
pub open spec fn spec_parse_string(s: Seq<char>, i: int) -> Option<(Seq<char>, int)>
    decreases s.len() - i,
{
    if i < 0 || i >= s.len() {
        None
    } else {
        let c = s[i];
        if c == '"' {
            Some((Seq::empty(), i + 1))
        } else if c == '\\' {
            if i + 1 >= s.len() {
                None
            } else {
                let e = s[i + 1];
                if e == 'u' {
                    if i + 6 <= s.len() {
                        match spec_hex_val(s[i + 2]) {
                            None => None,
                            Some(h1) => match spec_hex_val(s[i + 3]) {
                                None => None,
                                Some(h2) => match spec_hex_val(s[i + 4]) {
                                    None => None,
                                    Some(h3) => match spec_hex_val(s[i + 5]) {
                                        None => None,
                                        Some(h4) => {
                                            let code = h1 * 4096 + h2 * 256 + h3 * 16 + h4;
                                            if 0xD800 <= code < 0xE000 {
                                                None
                                            } else {
                                                match spec_parse_string(s, i + 6) {
                                                    None => None,
                                                    Some((rest, k)) => Some(
                                                        (seq![((code as u32) as char)] + rest, k),
                                                    ),
                                                }
                                            }
                                        },
                                    },
                                },
                            },
                        }
                    } else {
                        None
                    }
                } else {
                    match spec_unescape_char(e) {
                        None => None,
                        Some(u) => match spec_parse_string(s, i + 2) {
                            None => None,
                            Some((rest, k)) => Some((seq![u] + rest, k)),
                        },
                    }
                }
            }
        } else if (c as u32) < 0x20 {
            None
        } else {
            match spec_parse_string(s, i + 1) {
                None => None,
                Some((rest, k)) => Some((seq![c] + rest, k)),
            }
        }
    }
}

/// What the text from `i` parses to as a number: an optional minus sign and
/// a run of at most eighteen decimal digits with no leading zero.  Anything
/// longer, and any fraction or exponent, is refused: the records this
/// client exchanges carry only small integers.
pub open spec fn spec_parse_number(s: Seq<char>, i: int) -> Option<(Json, int)> {
    if i < 0 || i >= s.len() {
        None
    } else {
        let neg = s[i] == '-';
        let d0 = if neg {
            i + 1
        } else {
            i
        };
        if d0 >= s.len() || !spec_is_digit(s[d0]) {
            None
        } else {
            let end = spec_digits_end(s, d0);
            let count = end - d0;
            if count > 18 {
                None
            } else if count > 1 && s[d0] == '0' {
                None
            } else {
                let mag = spec_digits_val(s, d0, end);
                Some(
                    (
                        Json::Int(
                            if neg {
                                -mag
                            } else {
                                mag
                            },
                        ),
                        end,
                    ),
                )
            }
        }
    }
}

/// What the text from `i` parses to as one JSON value: leading whitespace
/// is skipped, then the literals, strings, numbers, arrays and objects of
/// JSON are read; the result carries the index after the value.
pub open spec fn spec_parse_value(s: Seq<char>, i: int) -> Option<(Json, int)>
    decreases s.len() - i, 0int,
{
    if i < 0 || i > s.len() {
        None
    } else {
        let j = spec_skip_ws(s, i);
        if j < i || j >= s.len() {
            None
        } else {
            let c = s[j];
            if c == 'n' {
                if j + 4 <= s.len() && s.subrange(j, j + 4) == "null"@ {
                    Some((Json::Null, j + 4))
                } else {
                    None
                }
            } else if c == 't' {
                if j + 4 <= s.len() && s.subrange(j, j + 4) == "true"@ {
                    Some((Json::Bool(true), j + 4))
                } else {
                    None
                }
            } else if c == 'f' {
                if j + 5 <= s.len() && s.subrange(j, j + 5) == "false"@ {
                    Some((Json::Bool(false), j + 5))
                } else {
                    None
                }
            } else if c == '"' {
                match spec_parse_string(s, j + 1) {
                    None => None,
                    Some((t, k)) => Some((Json::Str(t), k)),
                }
            } else if c == '-' || spec_is_digit(c) {
                spec_parse_number(s, j)
            } else if c == '[' {
                let j2 = spec_skip_ws(s, j + 1);
                if j2 < j + 1 || j2 >= s.len() {
                    None
                } else if s[j2] == ']' {
                    Some((Json::Arr(Seq::empty()), j2 + 1))
                } else {
                    match spec_parse_elems(s, j + 1) {
                        None => None,
                        Some((items, k)) => Some((Json::Arr(items), k)),
                    }
                }
            } else if c == '{' {
                let j2 = spec_skip_ws(s, j + 1);
                if j2 < j + 1 || j2 >= s.len() {
                    None
                } else if s[j2] == '}' {
                    Some((Json::Obj(Seq::empty()), j2 + 1))
                } else {
                    match spec_parse_members(s, j + 1) {
                        None => None,
                        Some((members, k)) => Some((Json::Obj(members), k)),
                    }
                }
            } else {
                None
            }
        }
    }
}

/// What the text from `i` parses to as the items of a non-empty array, up
/// to and including the closing bracket.
pub open spec fn spec_parse_elems(s: Seq<char>, i: int) -> Option<(Seq<Json>, int)>
    decreases s.len() - i, 1int,
{
    if i < 0 || i > s.len() {
        None
    } else {
        match spec_parse_value(s, i) {
            None => None,
            Some((v, k)) => {
                if k <= i || k > s.len() {
                    None
                } else {
                    let m = spec_skip_ws(s, k);
                    if m < k || m >= s.len() {
                        None
                    } else if s[m] == ']' {
                        Some((seq![v], m + 1))
                    } else if s[m] == ',' {
                        match spec_parse_elems(s, m + 1) {
                            None => None,
                            Some((rest, end)) => Some((seq![v] + rest, end)),
                        }
                    } else {
                        None
                    }
                }
            },
        }
    }
}

/// What the text from `i` parses to as the members of a non-empty object,
/// up to and including the closing brace.
pub open spec fn spec_parse_members(s: Seq<char>, i: int) -> Option<
    (Seq<(Seq<char>, Json)>, int),
>
    decreases s.len() - i, 1int,
{
    if i < 0 || i > s.len() {
        None
    } else {
        let j = spec_skip_ws(s, i);
        if j < i || j >= s.len() {
            None
        } else if s[j] != '"' {
            None
        } else {
            match spec_parse_string(s, j + 1) {
                None => None,
                Some((key, k)) => {
                    if k <= j + 1 || k > s.len() {
                        None
                    } else {
                        let m = spec_skip_ws(s, k);
                        if m < k || m >= s.len() {
                            None
                        } else if s[m] != ':' {
                            None
                        } else {
                            match spec_parse_value(s, m + 1) {
                                None => None,
                                Some((v, k2)) => {
                                    if k2 <= m + 1 || k2 > s.len() {
                                        None
                                    } else {
                                        let m2 = spec_skip_ws(s, k2);
                                        if m2 < k2 || m2 >= s.len() {
                                            None
                                        } else if s[m2] == '}' {
                                            Some((seq![(key, v)], m2 + 1))
                                        } else if s[m2] == ',' {
                                            match spec_parse_members(s, m2 + 1) {
                                                None => None,
                                                Some((rest, end)) => Some(
                                                    (seq![(key, v)] + rest, end),
                                                ),
                                            }
                                        } else {
                                            None
                                        }
                                    }
                                },
                            }
                        }
                    }
                },
            }
        }
    }
}

/// What a whole response or request body parses to: one JSON value with
/// nothing but whitespace around it.
pub open spec fn spec_parse_json(s: Seq<char>) -> Option<Json> {
    match spec_parse_value(s, 0) {
        None => None,
        Some((v, k)) => if spec_skip_ws(s, k) == s.len() {
            Some(v)
        } else {
            None
        },
    }
}

/// Skip whitespace: the first index at or after `i` holding none.
#[verifier::loop_isolation(false)]
fn skip_ws(s: &str, i: usize, n: usize) -> (r: usize)
    requires
        i <= n,
        n == s@.len(),
    ensures
        i <= r <= n,
        r as int == spec_skip_ws(s@, i as int),
{
    let mut k = i;
    while k < n
        invariant
            i <= k <= n,
            spec_skip_ws(s@, i as int) == spec_skip_ws(s@, k as int),
        decreases n - k,
    {
        let c = s.get_char(k);
        if c == ' ' || c == '\n' || c == '\r' || c == '\t' {
            k = k + 1;
        } else {
            return k;
        }
    }
    k
}

/// The end of the digit run beginning at `i`.
#[verifier::loop_isolation(false)]
fn digits_end(s: &str, i: usize, n: usize) -> (r: usize)
    requires
        i <= n,
        n == s@.len(),
    ensures
        i <= r <= n,
        r as int == spec_digits_end(s@, i as int),
{
    let mut k = i;
    while k < n
        invariant
            i <= k <= n,
            spec_digits_end(s@, i as int) == spec_digits_end(s@, k as int),
        decreases n - k,
    {
        let u = s.get_char(k) as u32;
        if 48 <= u && u <= 57 {
            k = k + 1;
        } else {
            return k;
        }
    }
    k
}

fn hex_val(c: char) -> (r: Option<u32>)
    ensures
        match r {
            Some(h) => spec_hex_val(c) == Some(h as int) && h < 16,
            None => spec_hex_val(c) is None,
        },
{
    let u = c as u32;
    if 48 <= u && u <= 57 {
        Some(u - 48)
    } else if 97 <= u && u <= 102 {
        Some(u - 87)
    } else if 65 <= u && u <= 70 {
        Some(u - 55)
    } else {
        None
    }
}

fn unescape_char(c: char) -> (r: Option<char>)
    ensures
        r == spec_unescape_char(c),
{
    if c == '"' {
        Some('"')
    } else if c == '\\' {
        Some('\\')
    } else if c == '/' {
        Some('/')
    } else if c == 'n' {
        Some('\n')
    } else if c == 't' {
        Some('\t')
    } else if c == 'r' {
        Some('\r')
    } else if c == 'b' {
        Some('\u{0008}')
    } else if c == 'f' {
        Some('\u{000C}')
    } else {
        None
    }
}

/// Powers of ten.
pub open spec fn spec_pow10(n: nat) -> int
    decreases n,
{
    if n == 0 {
        1
    } else {
        10 * spec_pow10((n - 1) as nat)
    }
}

/// A digit run's value is non-negative and bounded by the power of ten of
/// its length.
proof fn lemma_digits_val_bound(s: Seq<char>, i: int, end: int)
    requires
        i <= end,
        forall|k: int| i <= k < end ==> spec_is_digit(#[trigger] s[k]),
    ensures
        0 <= spec_digits_val(s, i, end) < spec_pow10((end - i) as nat),
    decreases end - i,
{
    if end > i {
        lemma_digits_val_bound(s, i, end - 1);
        assert(spec_is_digit(s[end - 1]));
        assert(0 <= spec_digit_val(s[end - 1]) <= 9);
        assert(spec_pow10((end - i) as nat) == 10 * spec_pow10((end - 1 - i) as nat));
    }
}

/// Parse the inside of a string value beginning at `i`, after the opening
/// quote.
fn parse_string(s: &str, i: usize, n: usize) -> (r: Option<(String, usize)>)
    requires
        i <= n,
        n == s@.len(),
    ensures
        match r {
            Some(p) => spec_parse_string(s@, i as int) == Some((p.0@, p.1 as int)) && i < p.1
                <= n,
            None => spec_parse_string(s@, i as int) is None,
        },
    decreases n - i,
{
    if i >= n {
        return None;
    }
    let c = s.get_char(i);
    if c == '"' {
        return Some((String::new(), i + 1));
    }
    if c == '\\' {
        if n - i < 2 {
            return None;
        }
        let e = s.get_char(i + 1);
        if e == 'u' {
            if n - i < 6 {
                return None;
            }
            let h1 = match hex_val(s.get_char(i + 2)) {
                Some(h) => h,
                None => {
                    return None;
                },
            };
            let h2 = match hex_val(s.get_char(i + 3)) {
                Some(h) => h,
                None => {
                    return None;
                },
            };
            let h3 = match hex_val(s.get_char(i + 4)) {
                Some(h) => h,
                None => {
                    return None;
                },
            };
            let h4 = match hex_val(s.get_char(i + 5)) {
                Some(h) => h,
                None => {
                    return None;
                },
            };
            let code: u32 = h1 * 4096 + h2 * 256 + h3 * 16 + h4;
            if 0xD800 <= code && code < 0xE000 {
                return None;
            }
            let ch = match char::from_u32(code) {
                Some(ch) => ch,
                None => {
                    proof {
                        assert(false);
                    }
                    return None;
                },
            };
            match parse_string(s, i + 6, n) {
                None => None,
                Some((rest, k)) => {
                    let mut t = String::new();
                    t.push(ch);
                    t.append(rest.as_str());
                    proof {
                        vstd::utf8::char_u32_cast(ch, code);
                        assert(t@ =~= seq![(code as char)] + rest@);
                    }
                    Some((t, k))
                },
            }
        } else {
            match unescape_char(e) {
                None => None,
                Some(u) => match parse_string(s, i + 2, n) {
                    None => None,
                    Some((rest, k)) => {
                        let mut t = String::new();
                        t.push(u);
                        t.append(rest.as_str());
                        proof {
                            assert(t@ =~= seq![u] + rest@);
                        }
                        Some((t, k))
                    },
                },
            }
        }
    } else {
        let code = c as u32;
        if code < 0x20 {
            return None;
        }
        match parse_string(s, i + 1, n) {
            None => None,
            Some((rest, k)) => {
                let mut t = String::new();
                t.push(c);
                t.append(rest.as_str());
                proof {
                    assert(t@ =~= seq![c] + rest@);
                }
                Some((t, k))
            },
        }
    }
}

/// Parse a number beginning at `i`.
fn parse_number(s: &str, i: usize, n: usize) -> (r: Option<(JsonValue, usize)>)
    requires
        i <= n,
        n == s@.len(),
    ensures
        match r {
            Some(p) => spec_parse_number(s@, i as int) == Some((p.0@, p.1 as int)) && i < p.1
                <= n,
            None => spec_parse_number(s@, i as int) is None,
        },
{
    if i >= n {
        return None;
    }
    let neg = s.get_char(i) == '-';
    let d0 = if neg {
        i + 1
    } else {
        i
    };
    if d0 >= n {
        return None;
    }
    let u0 = s.get_char(d0) as u32;
    if !(48 <= u0 && u0 <= 57) {
        return None;
    }
    let end = digits_end(s, d0, n);
    proof {
        assert(spec_is_digit(s@[d0 as int]));
        lemma_digits_end_lb(s@, d0 + 1);
        assert(end > d0) by {
            assert(spec_digits_end(s@, d0 as int) == spec_digits_end(s@, d0 + 1));
        }
    }
    let count = end - d0;
    if count > 18 {
        return None;
    }
    if count > 1 && s.get_char(d0) == '0' {
        return None;
    }
    proof {
        lemma_digits_run(s@, d0 as int, end as int);
    }
    let mut val: u64 = 0;
    let mut k = d0;
    while k < end
        invariant
            d0 <= k <= end <= n,
            n == s@.len(),
            end - d0 <= 18,
            end as int == spec_digits_end(s@, d0 as int),
            forall|q: int| d0 <= q < end ==> spec_is_digit(#[trigger] s@[q]),
            val as int == spec_digits_val(s@, d0 as int, k as int),
            (val as int) < spec_pow10((k - d0) as nat),
        decreases end - k,
    {
        let d = s.get_char(k) as u32;
        proof {
            assert(spec_is_digit(s@[k as int]));
            lemma_pow10_le((k - d0) as nat, 17);
            assert(spec_pow10(17) == 100000000000000000) by {
                reveal_with_fuel(spec_pow10, 18);
            }
        }
        val = val * 10 + ((d - 48) as u64);
        proof {
            assert(val as int == spec_digits_val(s@, d0 as int, k + 1));
            lemma_digits_val_bound(s@, d0 as int, k + 1);
        }
        k = k + 1;
    }
    proof {
        assert(spec_pow10(18) == 1000000000000000000) by {
            reveal_with_fuel(spec_pow10, 19);
        }
        lemma_pow10_le((end - d0) as nat, 18);
    }
    let mag: i64 = val as i64;
    let result: i64 = if neg {
        -mag
    } else {
        mag
    };
    Some((JsonValue::Int(result), end))
}

/// The end of a digit run never lies before its start.
proof fn lemma_digits_end_lb(s: Seq<char>, i: int)
    requires
        0 <= i,
    ensures
        spec_digits_end(s, i) >= i,
    decreases s.len() - i,
{
    if i < s.len() && spec_is_digit(s[i]) {
        lemma_digits_end_lb(s, i + 1);
    }
}

/// Every index of a digit run holds a digit.
proof fn lemma_digits_run(s: Seq<char>, i: int, end: int)
    requires
        0 <= i,
        end == spec_digits_end(s, i),
    ensures
        i <= end <= s.len() || (i >= s.len() && end == i),
        forall|q: int| i <= q < end ==> spec_is_digit(#[trigger] s[q]),
    decreases s.len() - i,
{
    if 0 <= i < s.len() && spec_is_digit(s[i]) {
        lemma_digits_run(s, i + 1, end);
    }
}

/// Powers of ten are positive.
proof fn lemma_pow10_pos(a: nat)
    ensures
        spec_pow10(a) > 0,
    decreases a,
{
    if a > 0 {
        lemma_pow10_pos((a - 1) as nat);
    }
}

/// Powers of ten grow with the exponent.
proof fn lemma_pow10_le(a: nat, b: nat)
    requires
        a <= b,
    ensures
        0 < spec_pow10(a) <= spec_pow10(b),
    decreases b,
{
    lemma_pow10_pos(a);
    if a < b {
        lemma_pow10_le(a, (b - 1) as nat);
    }
}

/// Parse one JSON value beginning at `i`, whitespace allowed before it.
fn parse_value(s: &str, i: usize, n: usize) -> (r: Option<(JsonValue, usize)>)
    requires
        i <= n,
        n == s@.len(),
    ensures
        match r {
            Some(p) => spec_parse_value(s@, i as int) == Some((p.0@, p.1 as int)) && i < p.1
                <= n,
            None => spec_parse_value(s@, i as int) is None,
        },
    decreases n - i, 0int,
{
    let j = skip_ws(s, i, n);
    if j >= n {
        return None;
    }
    let c = s.get_char(j);
    if c == 'n' {
        proof {
            reveal_strlit("null");
        }
        if n - j >= 4 && s.get_char(j + 1) == 'u' && s.get_char(j + 2) == 'l' && s.get_char(j + 3)
            == 'l' {
            proof {
                assert(s@.subrange(j as int, j + 4) =~= "null"@);
            }
            Some((JsonValue::Null, j + 4))
        } else {
            proof {
                if j + 4 <= n && s@.subrange(j as int, j + 4) == "null"@ {
                    assert(s@[j + 1] == s@.subrange(j as int, j + 4)[1]);
                    assert(s@[j + 2] == s@.subrange(j as int, j + 4)[2]);
                    assert(s@[j + 3] == s@.subrange(j as int, j + 4)[3]);
                }
            }
            None
        }
    } else if c == 't' {
        proof {
            reveal_strlit("true");
        }
        if n - j >= 4 && s.get_char(j + 1) == 'r' && s.get_char(j + 2) == 'u' && s.get_char(j + 3)
            == 'e' {
            proof {
                assert(s@.subrange(j as int, j + 4) =~= "true"@);
            }
            Some((JsonValue::Bool(true), j + 4))
        } else {
            proof {
                if j + 4 <= n && s@.subrange(j as int, j + 4) == "true"@ {
                    assert(s@[j + 1] == s@.subrange(j as int, j + 4)[1]);
                    assert(s@[j + 2] == s@.subrange(j as int, j + 4)[2]);
                    assert(s@[j + 3] == s@.subrange(j as int, j + 4)[3]);
                }
            }
            None
        }
    } else if c == 'f' {
        proof {
            reveal_strlit("false");
        }
        if n - j >= 5 && s.get_char(j + 1) == 'a' && s.get_char(j + 2) == 'l' && s.get_char(j + 3)
            == 's' && s.get_char(j + 4) == 'e' {
            proof {
                assert(s@.subrange(j as int, j + 5) =~= "false"@);
            }
            Some((JsonValue::Bool(false), j + 5))
        } else {
            proof {
                if j + 5 <= n && s@.subrange(j as int, j + 5) == "false"@ {
                    assert(s@[j + 1] == s@.subrange(j as int, j + 5)[1]);
                    assert(s@[j + 2] == s@.subrange(j as int, j + 5)[2]);
                    assert(s@[j + 3] == s@.subrange(j as int, j + 5)[3]);
                    assert(s@[j + 4] == s@.subrange(j as int, j + 5)[4]);
                }
            }
            None
        }
    } else if c == '"' {
        match parse_string(s, j + 1, n) {
            None => None,
            Some((t, k)) => Some((JsonValue::Str(t), k)),
        }
    } else if c == '-' || (48 <= (c as u32) && (c as u32) <= 57) {
        match parse_number(s, j, n) {
            None => None,
            Some((v, k)) => Some((v, k)),
        }
    } else if c == '[' {
        let j2 = skip_ws(s, j + 1, n);
        if j2 >= n {
            return None;
        }
        if s.get_char(j2) == ']' {
            let items: Vec<JsonValue> = Vec::new();
            proof {
                assert(items@ =~= Seq::<JsonValue>::empty());
                assert(spec_jsons_of(items@) =~= Seq::<Json>::empty());
            }
            return Some((JsonValue::Arr(items), j2 + 1));
        }
        match parse_elems(s, j + 1, n) {
            None => None,
            Some((items, k)) => Some((JsonValue::Arr(items), k)),
        }
    } else if c == '{' {
        let j2 = skip_ws(s, j + 1, n);
        if j2 >= n {
            return None;
        }
        if s.get_char(j2) == '}' {
            let members: Vec<(String, JsonValue)> = Vec::new();
            proof {
                assert(members@ =~= Seq::<(String, JsonValue)>::empty());
                assert(spec_members_of(members@) =~= Seq::<(Seq<char>, Json)>::empty());
            }
            return Some((JsonValue::Obj(members), j2 + 1));
        }
        match parse_members(s, j + 1, n) {
            None => None,
            Some((members, k)) => Some((JsonValue::Obj(members), k)),
        }
    } else {
        None
    }
}

/// Parse the items of a non-empty array, through the closing bracket.
fn parse_elems(s: &str, i: usize, n: usize) -> (r: Option<(Vec<JsonValue>, usize)>)
    requires
        i <= n,
        n == s@.len(),
    ensures
        match r {
            Some(p) => spec_parse_elems(s@, i as int) == Some((spec_jsons_of(p.0@), p.1 as int))
                && i < p.1 <= n,
            None => spec_parse_elems(s@, i as int) is None,
        },
    decreases n - i, 1int,
{
    match parse_value(s, i, n) {
        None => None,
        Some((v, k)) => {
            let m = skip_ws(s, k, n);
            if m >= n {
                return None;
            }
            let c = s.get_char(m);
            if c == ']' {
                let mut items: Vec<JsonValue> = Vec::new();
                items.push(v);
                proof {
                    lemma_jsons_of(items@);
                    assert(items@[0] == v);
                    assert(spec_jsons_of(items@) =~= seq![v@]);
                }
                Some((items, m + 1))
            } else if c == ',' {
                match parse_elems(s, m + 1, n) {
                    None => None,
                    Some((rest, end)) => {
                        let mut items: Vec<JsonValue> = Vec::new();
                        items.push(v);
                        let mut tail = rest;
                        items.append(&mut tail);
                        proof {
                            lemma_jsons_of(items@);
                            lemma_jsons_of(rest@);
                            assert(items@.len() == 1 + rest@.len());
                            assert forall|q: int| 0 <= q < items@.len() implies spec_jsons_of(
                                items@,
                            )[q] == (seq![v@] + spec_jsons_of(rest@))[q] by {
                                if q == 0 {
                                    assert(items@[0] == v);
                                } else {
                                    assert(items@[q] == rest@[q - 1]);
                                    assert(spec_jsons_of(rest@)[q - 1] == spec_json_of(
                                        rest@[q - 1],
                                    ));
                                }
                            }
                            assert(spec_jsons_of(items@) =~= seq![v@] + spec_jsons_of(rest@));
                        }
                        Some((items, end))
                    },
                }
            } else {
                None
            }
        },
    }
}

/// Parse the members of a non-empty object, through the closing brace.
fn parse_members(s: &str, i: usize, n: usize) -> (r: Option<(Vec<(String, JsonValue)>, usize)>)
    requires
        i <= n,
        n == s@.len(),
    ensures
        match r {
            Some(p) => spec_parse_members(s@, i as int) == Some(
                (spec_members_of(p.0@), p.1 as int),
            ) && i < p.1 <= n,
            None => spec_parse_members(s@, i as int) is None,
        },
    decreases n - i, 1int,
{
    let j = skip_ws(s, i, n);
    if j >= n {
        return None;
    }
    if s.get_char(j) != '"' {
        return None;
    }
    match parse_string(s, j + 1, n) {
        None => None,
        Some((key, k)) => {
            let m = skip_ws(s, k, n);
            if m >= n {
                return None;
            }
            if s.get_char(m) != ':' {
                return None;
            }
            match parse_value(s, m + 1, n) {
                None => None,
                Some((v, k2)) => {
                    let m2 = skip_ws(s, k2, n);
                    if m2 >= n {
                        return None;
                    }
                    let c = s.get_char(m2);
                    if c == '}' {
                        let mut members: Vec<(String, JsonValue)> = Vec::new();
                        let ghost gkey = key@;
                        members.push((key, v));
                        proof {
                            lemma_members_of(members@);
                            assert(members@[0].0@ == gkey && members@[0].1 == v);
                            assert(spec_members_of(members@) =~= seq![(gkey, v@)]);
                        }
                        Some((members, m2 + 1))
                    } else if c == ',' {
                        match parse_members(s, m2 + 1, n) {
                            None => None,
                            Some((rest, end)) => {
                                let mut members: Vec<(String, JsonValue)> = Vec::new();
                                let ghost gkey = key@;
                                members.push((key, v));
                                let mut tail = rest;
                                members.append(&mut tail);
                                proof {
                                    lemma_members_of(members@);
                                    lemma_members_of(rest@);
                                    assert(members@.len() == 1 + rest@.len());
                                    assert forall|q: int|
                                        0 <= q < members@.len() implies spec_members_of(
                                        members@,
                                    )[q] == (seq![(gkey, v@)] + spec_members_of(rest@))[q] by {
                                        if q == 0 {
                                            assert(members@[0].0@ == gkey && members@[0].1 == v);
                                        } else {
                                            assert(members@[q] == rest@[q - 1]);
                                            assert(spec_members_of(rest@)[q - 1] == (
                                            rest@[q - 1].0@,
                                                spec_json_of(rest@[q - 1].1),
                                            ));
                                        }
                                    }
                                    assert(spec_members_of(members@) =~= seq![(gkey, v@)]
                                        + spec_members_of(rest@));
                                }
                                Some((members, end))
                            },
                        }
                    } else {
                        None
                    }
                },
            }
        },
    }
}

/// Parse a whole body: one JSON value with nothing but whitespace around
/// it.
pub fn parse_json(s: &str) -> (r: Option<JsonValue>)
    ensures
        match r {
            Some(v) => spec_parse_json(s@) == Some(v@),
            None => spec_parse_json(s@) is None,
        },
{
    let n = s.unicode_len();
    match parse_value(s, 0, n) {
        None => None,
        Some((v, k)) => {
            let m = skip_ws(s, k, n);
            if m == n {
                Some(v)
            } else {
                None
            }
        },
    }
}

// === The serializer and the parser agree ===

/// Trees whose integers the parser's eighteen-digit bound admits.
pub open spec fn spec_small_ints(j: Json) -> bool
    decreases j,
{
    match j {
        Json::Int(n) => -1000000000000000000 < n < 1000000000000000000,
        Json::Arr(items) => forall|i: int|
            0 <= i < items.len() ==> spec_small_ints(#[trigger] items[i]),
        Json::Obj(members) => forall|i: int|
            0 <= i < members.len() ==> spec_small_ints((#[trigger] members[i]).1),
        _ => true,
    }
}

/// Decimal renderings hold only digits, never lead with a zero (except
/// zero itself), and start with a digit.
proof fn lemma_udec_digits(n: int)
    requires
        0 <= n,
    ensures
        spec_udec(n).len() >= 1,
        forall|k: int| 0 <= k < spec_udec(n).len() ==> spec_is_digit(#[trigger] spec_udec(n)[k]),
        n >= 1 ==> spec_udec(n)[0] != '0',
        n == 0 ==> spec_udec(n) == seq!['0'],
    decreases n,
{
    if n >= 10 {
        lemma_udec_digits(n / 10);
        assert forall|k: int| 0 <= k < spec_udec(n).len() implies spec_is_digit(
            #[trigger] spec_udec(n)[k],
        ) by {
            if k < spec_udec(n).len() - 1 {
                assert(spec_udec(n)[k] == spec_udec(n / 10)[k]);
            } else {
                assert(spec_udec(n)[k] == spec_digit_char(n % 10));
            }
        }
        assert(spec_udec(n)[0] == spec_udec(n / 10)[0]);
    }
}

/// A value below the `k`-th power of ten renders in at most `k` digits.
proof fn lemma_udec_len(n: int, k: nat)
    requires
        0 <= n,
        1 <= k,
        n < spec_pow10(k),
    ensures
        spec_udec(n).len() <= k,
    decreases n,
{
    if n >= 10 {
        lemma_pow10_pos((k - 1) as nat);
        assert(spec_pow10(k) == 10 * spec_pow10((k - 1) as nat));
        lemma_udec_len(n / 10, (k - 1) as nat);
    }
}

/// Reading the digits of a decimal rendering gives the value back.
proof fn lemma_digits_val_of_udec(n: int, s: Seq<char>, i: int)
    requires
        0 <= n,
        0 <= i,
        i + spec_udec(n).len() <= s.len(),
        s.subrange(i, i + spec_udec(n).len()) == spec_udec(n),
    ensures
        spec_digits_val(s, i, i + spec_udec(n).len()) == n,
    decreases n,
{
    let len = spec_udec(n).len() as int;
    if n < 10 {
        assert(s[i] == spec_udec(n)[0]);
        assert(spec_digits_val(s, i, i + 1) == spec_digits_val(s, i, i) * 10 + spec_digit_val(
            s[i],
        ));
        assert(spec_digit_val(spec_digit_char(n)) == n);
    } else {
        let plen = spec_udec(n / 10).len() as int;
        assert(s.subrange(i, i + plen) =~= spec_udec(n / 10)) by {
            assert forall|k: int| 0 <= k < plen implies #[trigger] s.subrange(i, i + plen)[k]
                == spec_udec(n / 10)[k] by {
                assert(s[i + k] == s.subrange(i, i + len)[k]);
                assert(spec_udec(n)[k] == spec_udec(n / 10)[k]);
            }
        }
        lemma_digits_val_of_udec(n / 10, s, i);
        assert(s[i + len - 1] == spec_udec(n)[len - 1]);
        assert(spec_udec(n)[len - 1] == spec_digit_char(n % 10));
        assert(spec_digit_val(spec_digit_char(n % 10)) == n % 10);
        assert(spec_digits_val(s, i, i + len) == spec_digits_val(s, i, i + len - 1) * 10
            + spec_digit_val(s[i + len - 1]));
    }
}

/// A run of digits bounded on both sides ends exactly at the boundary.
proof fn lemma_digits_end_exact(s: Seq<char>, i: int, end: int)
    requires
        0 <= i <= end <= s.len(),
        forall|k: int| i <= k < end ==> spec_is_digit(#[trigger] s[k]),
        end == s.len() || !spec_is_digit(s[end]),
    ensures
        spec_digits_end(s, i) == end,
    decreases end - i,
{
    if i < end {
        assert(spec_is_digit(s[i]));
        lemma_digits_end_exact(s, i + 1, end);
    }
}

/// Parsing a number at the start of its decimal rendering yields the
/// value and stops at its end.
proof fn lemma_parse_number_of_idec(n: int, s: Seq<char>, i: int)
    requires
        -1000000000000000000 < n < 1000000000000000000,
        0 <= i,
        i + spec_idec(n).len() <= s.len(),
        s.subrange(i, i + spec_idec(n).len()) == spec_idec(n),
        i + spec_idec(n).len() == s.len() || !spec_is_digit(s[i + spec_idec(n).len()]),
    ensures
        spec_parse_number(s, i) == Some((Json::Int(n), i + spec_idec(n).len())),
{
    let len = spec_idec(n).len() as int;
    let mag = if n < 0 {
        -n
    } else {
        n
    };
    let d0 = if n < 0 {
        i + 1
    } else {
        i
    };
    lemma_udec_digits(mag);
    assert(spec_pow10(18) == 1000000000000000000) by {
        reveal_with_fuel(spec_pow10, 19);
    }
    lemma_udec_len(mag, 18);
    assert(s.subrange(d0, d0 + spec_udec(mag).len()) =~= spec_udec(mag)) by {
        assert forall|k: int| 0 <= k < spec_udec(mag).len() implies s.subrange(
            d0,
            d0 + spec_udec(mag).len(),
        )[k] == spec_udec(mag)[k] by {
            if n < 0 {
                assert(s[d0 + k] == s.subrange(i, i + len)[k + 1]);
                assert(spec_idec(n)[k + 1] == spec_udec(mag)[k]);
            } else {
                assert(s[d0 + k] == s.subrange(i, i + len)[k]);
            }
        }
    }
    assert(forall|k: int| d0 <= k < d0 + spec_udec(mag).len() ==> spec_is_digit(
        #[trigger] s[k],
    )) by {
        assert(forall|k: int| 0 <= k < spec_udec(mag).len() ==> s[d0 + k] == spec_udec(mag)[k]);
        assert forall|k: int| d0 <= k < d0 + spec_udec(mag).len() implies spec_is_digit(
            #[trigger] s[k],
        ) by {
            assert(s[k] == spec_udec(mag)[k - d0]);
        }
    }
    lemma_digits_end_exact(s, d0, d0 + spec_udec(mag).len() as int);
    lemma_digits_val_of_udec(mag, s, d0);
    if n < 0 {
        assert(s[i] == spec_idec(n)[0]);
        assert(s[i] == '-');
        assert(s[d0] == spec_udec(mag)[0]);
    } else {
        assert(s[i] == spec_udec(mag)[0]);
        assert(s[i] != '-') by {
            assert(spec_is_digit(spec_udec(mag)[0]));
        }
    }
    if spec_udec(mag).len() > 1 {
        assert(mag >= 1) by {
            if mag == 0 {
                assert(spec_udec(mag) == seq!['0']);
            }
        }
        assert(s[d0] != '0');
    }
}

/// Escaping distributes over concatenation.
proof fn lemma_escape_concat(a: Seq<char>, b: Seq<char>)
    ensures
        spec_escape(a + b) == spec_escape(a) + spec_escape(b),
    decreases b.len(),
{
    if b.len() == 0 {
        assert(a + b =~= a);
        assert(spec_escape(a) + spec_escape(b) =~= spec_escape(a));
    } else {
        assert((a + b).drop_last() =~= a + b.drop_last());
        assert((a + b).last() == b.last());
        lemma_escape_concat(a, b.drop_last());
        assert(spec_escape(a + b) =~= spec_escape(a) + spec_escape(b));
    }
}

/// The escaped text starts with the first character's escape.
proof fn lemma_escape_first(t: Seq<char>)
    requires
        t.len() >= 1,
    ensures
        spec_escape(t) == spec_escape_char(t[0]) + spec_escape(t.drop_first()),
{
    let head = seq![t[0]];
    assert(t =~= head + t.drop_first());
    assert(spec_escape(head) =~= spec_escape_char(t[0])) by {
        assert(head.drop_last() =~= Seq::<char>::empty());
        assert(head.last() == t[0]);
        assert(spec_escape(Seq::<char>::empty()) =~= Seq::<char>::empty());
        assert(Seq::<char>::empty() + spec_escape_char(t[0]) =~= spec_escape_char(t[0]));
    }
    lemma_escape_concat(head, t.drop_first());
}

/// Parsing the inside of a string value at the start of its escaped text,
/// with the closing quote right after, reads the characters back exactly.
proof fn lemma_parse_string_of_escape(t: Seq<char>, s: Seq<char>, i: int)
    requires
        0 <= i,
        i + spec_escape(t).len() + 1 <= s.len(),
        s.subrange(i, i + spec_escape(t).len()) == spec_escape(t),
        s[i + spec_escape(t).len()] == '"',
    ensures
        spec_parse_string(s, i) == Some((t, i + spec_escape(t).len() + 1)),
    decreases t.len(),
{
    let el = spec_escape(t).len() as int;
    if t.len() == 0 {
        assert(s[i] == '"');
    } else {
        lemma_escape_first(t);
        let c0 = t[0];
        let e0 = spec_escape_char(c0);
        let rest = t.drop_first();
        let rl = spec_escape(rest).len() as int;
        assert(el == e0.len() + rl);
        assert forall|k: int| 0 <= k < el implies s[i + k] == #[trigger] spec_escape(t)[k] by {
            assert(s.subrange(i, i + el)[k] == spec_escape(t)[k]);
            assert(s.subrange(i, i + el)[k] == s[i + k]);
        }
        assert forall|k: int| 0 <= k < e0.len() implies s[i + k] == #[trigger] e0[k] by {
            assert(s[i + k] == spec_escape(t)[k]);
        }
        let i2 = i + e0.len() as int;
        assert(s.subrange(i2, i2 + rl) =~= spec_escape(rest)) by {
            assert forall|k: int| 0 <= k < rl implies #[trigger] s.subrange(i2, i2 + rl)[k]
                == spec_escape(rest)[k] by {
                assert(s[i2 + k] == spec_escape(t)[e0.len() + k]);
                assert(spec_escape(t)[e0.len() + k] == spec_escape(rest)[k]);
            }
        }
        assert(s[i2 + rl] == '"');
        lemma_parse_string_of_escape(rest, s, i2);
        assert(seq![c0] + rest =~= t);
        if c0 == '"' || c0 == '\\' || c0 == '\n' || c0 == '\r' || c0 == '\t' {
            assert(s[i] == '\\');
            assert(i + 1 < s.len());
        } else if (c0 as u32) < 0x20 {
            let code = c0 as u32;
            assert(s[i] == '\\');
            assert(s[i + 1] == 'u');
            assert(s[i + 2] == '0');
            assert(s[i + 3] == '0');
            assert(s[i + 4] == spec_hex_char(code as int / 16));
            assert(s[i + 5] == spec_hex_char(code as int % 16));
            assert(spec_hex_val('0') == Some(0int));
            assert(spec_hex_val(spec_hex_char(code as int / 16)) == Some(code as int / 16));
            assert(spec_hex_val(spec_hex_char(code as int % 16)) == Some(code as int % 16));
            let parsed_code = 0 * 4096 + 0 * 256 + (code as int / 16) * 16 + (code as int % 16);
            assert(parsed_code == code as int);
            assert(!(0xD800 <= parsed_code < 0xE000));
            vstd::utf8::char_u32_cast(c0, code);
            assert(((parsed_code as u32) as char) == c0);
        } else {
            assert(s[i] == c0);
            assert(!((c0 as u32) < 0x20));
        }
    }
}

/// The first character of a serialized tree: never whitespace, never a
/// closing bracket or brace, and the text is never empty.
proof fn lemma_ser_first_char(j: Json)
    ensures
        spec_ser(j).len() >= 1,
        !spec_is_ws(spec_ser(j)[0]),
        spec_ser(j)[0] != ']',
        spec_ser(j)[0] != '}',
        spec_ser(j)[0] != ',',
{
    match j {
        Json::Null => {
            reveal_strlit("null");
        },
        Json::Bool(b) => {
            reveal_strlit("true");
            reveal_strlit("false");
        },
        Json::Int(n) => {
            let mag = if n < 0 {
                -n
            } else {
                n
            };
            lemma_udec_digits(mag);
            if n >= 0 {
                assert(spec_ser(j)[0] == spec_udec(n)[0]);
                assert(spec_is_digit(spec_udec(n)[0]));
            }
        },
        Json::Str(t) => {
            assert(spec_ser(j)[0] == '"');
        },
        Json::Arr(items) => {
            assert(spec_ser(j)[0] == '[');
        },
        Json::Obj(members) => {
            assert(spec_ser(j)[0] == '{');
        },
    }
}

/// The serialized items of a non-empty array start with the first item's
/// text, the rest following after a comma.
proof fn lemma_ser_items_first(items: Seq<Json>)
    requires
        items.len() >= 1,
    ensures
        items.len() == 1 ==> spec_ser_items(items) == spec_ser(items[0]),
        items.len() >= 2 ==> spec_ser_items(items) == spec_ser(items[0]) + seq![',']
            + spec_ser_items(items.drop_first()),
    decreases items.len(),
{
    if items.len() >= 2 {
        let front = items.drop_last();
        lemma_ser_items_first(front);
        if items.len() == 2 {
            assert(front[0] == items[0]);
            assert(items.drop_first().len() == 1);
            assert(items.drop_first()[0] == items[1]);
            assert(items.last() == items[1]);
            assert(spec_ser_items(items) =~= spec_ser(items[0]) + seq![','] + spec_ser_items(
                items.drop_first(),
            ));
        } else {
            assert(front[0] == items[0]);
            assert(front.drop_first() =~= items.drop_first().drop_last());
            assert(items.drop_first().len() >= 2);
            assert(items.drop_first().last() == items.last());
            assert(spec_ser_items(items) =~= spec_ser(items[0]) + seq![','] + spec_ser_items(
                items.drop_first(),
            ));
        }
    }
}

/// The serialized members of a non-empty object start with the first
/// member's text, the rest following after a comma.
proof fn lemma_ser_members_first(members: Seq<(Seq<char>, Json)>)
    requires
        members.len() >= 1,
    ensures
        members.len() == 1 ==> spec_ser_members(members) == spec_ser_member(members[0]),
        members.len() >= 2 ==> spec_ser_members(members) == spec_ser_member(members[0]) + seq![
            ',',
        ] + spec_ser_members(members.drop_first()),
    decreases members.len(),
{
    if members.len() >= 2 {
        let front = members.drop_last();
        lemma_ser_members_first(front);
        if members.len() == 2 {
            assert(front[0] == members[0]);
            assert(members.drop_first().len() == 1);
            assert(members.drop_first()[0] == members[1]);
            assert(members.last() == members[1]);
            assert(spec_ser_members(members) =~= spec_ser_member(members[0]) + seq![',']
                + spec_ser_members(members.drop_first()));
        } else {
            assert(front[0] == members[0]);
            assert(front.drop_first() =~= members.drop_first().drop_last());
            assert(members.drop_first().len() >= 2);
            assert(members.drop_first().last() == members.last());
            assert(spec_ser_members(members) =~= spec_ser_member(members[0]) + seq![',']
                + spec_ser_members(members.drop_first()));
        }
    }
}

/// Parsing at the start of a serialized tree yields the tree back and
/// stops exactly at its end, whenever no digit follows (a digit could
/// extend a serialized number).
proof fn lemma_parse_of_ser(j: Json, s: Seq<char>, i: int)
    requires
        spec_small_ints(j),
        0 <= i,
        i + spec_ser(j).len() <= s.len(),
        s.subrange(i, i + spec_ser(j).len()) == spec_ser(j),
        i + spec_ser(j).len() == s.len() || !spec_is_digit(s[i + spec_ser(j).len()]),
    ensures
        spec_parse_value(s, i) == Some((j, i + spec_ser(j).len())),
    decreases j, 0int,
{
    let ser_len = spec_ser(j).len() as int;
    lemma_ser_first_char(j);
    assert forall|k: int| 0 <= k < ser_len implies s[i + k] == #[trigger] spec_ser(j)[k] by {
        assert(s.subrange(i, i + ser_len)[k] == spec_ser(j)[k]);
    }
    assert(s[i] == spec_ser(j)[0]);
    assert(spec_skip_ws(s, i) == i);
    match j {
        Json::Null => {
            reveal_strlit("null");
            assert(s.subrange(i, i + 4) =~= "null"@);
        },
        Json::Bool(b) => {
            if b {
                reveal_strlit("true");
                assert(s.subrange(i, i + 4) =~= "true"@);
            } else {
                reveal_strlit("false");
                assert(s.subrange(i, i + 5) =~= "false"@);
            }
        },
        Json::Int(n) => {
            let mag = if n < 0 {
                -n
            } else {
                n
            };
            lemma_udec_digits(mag);
            if n >= 0 {
                assert(spec_is_digit(s[i]));
            } else {
                assert(s[i] == '-');
            }
            lemma_parse_number_of_idec(n, s, i);
        },
        Json::Str(t) => {
            assert(s[i] == '"');
            let esc_len = spec_escape(t).len() as int;
            assert(ser_len == esc_len + 2);
            assert(s.subrange(i + 1, i + 1 + esc_len) =~= spec_escape(t)) by {
                assert forall|k: int| 0 <= k < esc_len implies #[trigger] s.subrange(
                    i + 1,
                    i + 1 + esc_len,
                )[k] == spec_escape(t)[k] by {
                    assert(s[i + 1 + k] == spec_ser(j)[1 + k]);
                    assert(spec_ser(j)[1 + k] == spec_escape(t)[k]);
                }
            }
            assert(s[i + 1 + esc_len] == spec_ser(j)[ser_len - 1]);
            assert(spec_ser(j)[ser_len - 1] == '"');
            lemma_parse_string_of_escape(t, s, i + 1);
        },
        Json::Arr(items) => {
            assert(s[i] == '[');
            let items_len = spec_ser_items(items).len() as int;
            assert(ser_len == items_len + 2);
            assert(s[i + ser_len - 1] == spec_ser(j)[ser_len - 1]);
            assert(spec_ser(j)[ser_len - 1] == ']');
            if items.len() == 0 {
                assert(spec_ser_items(items) =~= Seq::<char>::empty());
                assert(items =~= Seq::<Json>::empty());
                assert(s[i + 1] == ']');
                assert(spec_skip_ws(s, i + 1) == i + 1);
                assert(spec_parse_value(s, i) == Some((j, i + ser_len)));
            } else {
                assert(s.subrange(i + 1, i + 1 + items_len) =~= spec_ser_items(items)) by {
                    assert forall|k: int| 0 <= k < items_len implies #[trigger] s.subrange(
                        i + 1,
                        i + 1 + items_len,
                    )[k] == spec_ser_items(items)[k] by {
                        assert(s[i + 1 + k] == spec_ser(j)[1 + k]);
                        assert(spec_ser(j)[1 + k] == spec_ser_items(items)[k]);
                    }
                }
                lemma_ser_items_first(items);
                lemma_ser_first_char(items[0]);
                assert(s[i + 1] == spec_ser_items(items)[0]);
                assert(spec_ser_items(items)[0] == spec_ser(items[0])[0]);
                assert(!spec_is_ws(s[i + 1]) && s[i + 1] != ']');
                assert(spec_skip_ws(s, i + 1) == i + 1);
                assert(decreases_to!(j => items));
                lemma_parse_elems_of_ser(items, s, i + 1);
                assert(spec_parse_value(s, i) == Some((j, i + ser_len)));
            }
        },
        Json::Obj(members) => {
            assert(s[i] == '{');
            let members_len = spec_ser_members(members).len() as int;
            assert(ser_len == members_len + 2);
            assert(s[i + ser_len - 1] == spec_ser(j)[ser_len - 1]);
            assert(spec_ser(j)[ser_len - 1] == '}');
            if members.len() == 0 {
                assert(spec_ser_members(members) =~= Seq::<char>::empty());
                assert(members =~= Seq::<(Seq<char>, Json)>::empty());
                assert(s[i + 1] == '}');
                assert(spec_skip_ws(s, i + 1) == i + 1);
                assert(spec_parse_value(s, i) == Some((j, i + ser_len)));
            } else {
                assert(s.subrange(i + 1, i + 1 + members_len) =~= spec_ser_members(members)) by {
                    assert forall|k: int| 0 <= k < members_len implies #[trigger] s.subrange(
                        i + 1,
                        i + 1 + members_len,
                    )[k] == spec_ser_members(members)[k] by {
                        assert(s[i + 1 + k] == spec_ser(j)[1 + k]);
                        assert(spec_ser(j)[1 + k] == spec_ser_members(members)[k]);
                    }
                }
                lemma_ser_members_first(members);
                assert(s[i + 1] == spec_ser_members(members)[0]);
                assert(spec_ser_members(members)[0] == spec_ser_member(members[0])[0]);
                assert(spec_ser_member(members[0])[0] == '"');
                assert(spec_skip_ws(s, i + 1) == i + 1);
                assert(decreases_to!(j => members));
                lemma_parse_members_of_ser(members, s, i + 1);
                assert(spec_parse_value(s, i) == Some((j, i + ser_len)));
            }
        },
    }
}

/// Parsing at the start of serialized array items, with the closing
/// bracket right after, yields the items back in order.
proof fn lemma_parse_elems_of_ser(items: Seq<Json>, s: Seq<char>, i: int)
    requires
        forall|k: int| 0 <= k < items.len() ==> spec_small_ints(#[trigger] items[k]),
        items.len() >= 1,
        0 <= i,
        i + spec_ser_items(items).len() + 1 <= s.len(),
        s.subrange(i, i + spec_ser_items(items).len()) == spec_ser_items(items),
        s[i + spec_ser_items(items).len()] == ']',
    ensures
        spec_parse_elems(s, i) == Some((items, i + spec_ser_items(items).len() + 1)),
    decreases items, 1int,
{
    let items_len = spec_ser_items(items).len() as int;
    assert forall|k: int| 0 <= k < items_len implies s[i + k] == #[trigger] spec_ser_items(
        items,
    )[k] by {
        assert(s.subrange(i, i + items_len)[k] == spec_ser_items(items)[k]);
    }
    lemma_ser_items_first(items);
    let first = items[0];
    let first_len = spec_ser(first).len() as int;
    lemma_ser_first_char(first);
    assert(s.subrange(i, i + first_len) =~= spec_ser(first)) by {
        assert forall|k: int| 0 <= k < first_len implies #[trigger] s.subrange(
            i,
            i + first_len,
        )[k] == spec_ser(first)[k] by {
            assert(s[i + k] == spec_ser_items(items)[k]);
        }
    }
    assert(decreases_to!(items => items[0]));
    if items.len() == 1 {
        assert(first_len == items_len);
        assert(s[i + first_len] == ']');
        lemma_parse_of_ser(first, s, i);
        assert(spec_skip_ws(s, i + first_len) == i + first_len);
        assert(seq![first] =~= items);
    } else {
        let rest = items.drop_first();
        let rest_len = spec_ser_items(rest).len() as int;
        assert(spec_ser_items(items) == spec_ser(first) + seq![','] + spec_ser_items(rest));
        assert(items_len == first_len + 1 + rest_len);
        assert(spec_ser_items(items)[first_len] == ',');
        assert(s[i + first_len] == ',');
        lemma_parse_of_ser(first, s, i);
        assert(spec_skip_ws(s, i + first_len) == i + first_len);
        let r0 = i + first_len + 1;
        assert(s.subrange(r0, r0 + rest_len) =~= spec_ser_items(rest)) by {
            assert forall|k: int| 0 <= k < rest_len implies #[trigger] s.subrange(
                r0,
                r0 + rest_len,
            )[k] == spec_ser_items(rest)[k] by {
                assert(s[r0 + k] == spec_ser_items(items)[first_len + 1 + k]);
                assert(spec_ser_items(items)[first_len + 1 + k] == spec_ser_items(rest)[k]);
            }
        }
        assert(s[r0 + rest_len] == ']');
        assert(forall|k: int| 0 <= k < rest.len() ==> rest[k] == items[k + 1]);
        assert(forall|k: int| 0 <= k < rest.len() ==> spec_small_ints(#[trigger] rest[k]));
        lemma_parse_elems_of_ser(rest, s, r0);
        assert(seq![first] + rest =~= items);
    }
}

/// Parsing at the start of serialized object members, with the closing
/// brace right after, yields the members back in order.
proof fn lemma_parse_members_of_ser(members: Seq<(Seq<char>, Json)>, s: Seq<char>, i: int)
    requires
        forall|k: int| 0 <= k < members.len() ==> spec_small_ints((#[trigger] members[k]).1),
        members.len() >= 1,
        0 <= i,
        i + spec_ser_members(members).len() + 1 <= s.len(),
        s.subrange(i, i + spec_ser_members(members).len()) == spec_ser_members(members),
        s[i + spec_ser_members(members).len()] == '}',
    ensures
        spec_parse_members(s, i) == Some((members, i + spec_ser_members(members).len() + 1)),
    decreases members, 1int,
{
    let members_len = spec_ser_members(members).len() as int;
    assert forall|k: int| 0 <= k < members_len implies s[i + k] == #[trigger] spec_ser_members(
        members,
    )[k] by {
        assert(s.subrange(i, i + members_len)[k] == spec_ser_members(members)[k]);
    }
    lemma_ser_members_first(members);
    let first = members[0];
    let key = first.0;
    let value = first.1;
    let esc_len = spec_escape(key).len() as int;
    let val_len = spec_ser(value).len() as int;
    let first_len = spec_ser_member(first).len() as int;
    assert(first_len == esc_len + 3 + val_len);
    let rest = members.drop_first();
    let rest_len = spec_ser_members(rest).len() as int;
    if members.len() == 1 {
        assert(members_len == first_len);
    } else {
        assert(spec_ser_members(members) == spec_ser_member(first) + seq![','] + spec_ser_members(
            rest,
        ));
        assert(members_len == first_len + 1 + rest_len);
    }
    assert forall|k: int| 0 <= k < first_len implies s[i + k] == #[trigger] spec_ser_member(
        first,
    )[k] by {
        assert(s[i + k] == spec_ser_members(members)[k]);
        assert(spec_ser_members(members)[k] == spec_ser_member(first)[k]);
    }
    assert(spec_ser_member(first)[0] == '"');
    assert(s[i + 0] == spec_ser_member(first)[0]);
    assert(s[i] == '"');
    assert(spec_skip_ws(s, i) == i);
    assert(s.subrange(i + 1, i + 1 + esc_len) =~= spec_escape(key)) by {
        assert forall|k: int| 0 <= k < esc_len implies #[trigger] s.subrange(
            i + 1,
            i + 1 + esc_len,
        )[k] == spec_escape(key)[k] by {
            assert(s[i + 1 + k] == spec_ser_member(first)[1 + k]);
            assert(spec_ser_member(first)[1 + k] == spec_escape(key)[k]);
        }
    }
    assert(s[i + 1 + esc_len] == spec_ser_member(first)[1 + esc_len]);
    assert(spec_ser_member(first)[1 + esc_len] == '"');
    lemma_parse_string_of_escape(key, s, i + 1);
    let after_key = i + esc_len + 2;
    assert(s[after_key] == spec_ser_member(first)[esc_len + 2]);
    assert(spec_ser_member(first)[esc_len + 2] == ':');
    assert(spec_skip_ws(s, after_key) == after_key);
    let v0 = after_key + 1;
    assert(s.subrange(v0, v0 + val_len) =~= spec_ser(value)) by {
        assert forall|k: int| 0 <= k < val_len implies #[trigger] s.subrange(
            v0,
            v0 + val_len,
        )[k] == spec_ser(value)[k] by {
            assert(s[v0 + k] == spec_ser_member(first)[esc_len + 3 + k]);
            assert(spec_ser_member(first)[esc_len + 3 + k] == spec_ser(value)[k]);
        }
    }
    if members.len() == 1 {
        assert(v0 + val_len == i + members_len);
        assert(s[v0 + val_len] == '}');
    } else {
        assert(spec_ser_members(members)[first_len] == ',');
        assert(s[i + first_len] == ',');
        assert(v0 + val_len == i + first_len);
    }
    assert(decreases_to!(members => members[0]));
    assert(decreases_to!(members[0] => members[0].1));
    lemma_parse_of_ser(value, s, v0);
    let k2 = v0 + val_len;
    assert(spec_skip_ws(s, k2) == k2);
    if members.len() == 1 {
        assert(seq![(key, value)] =~= members);
    } else {
        let r0 = k2 + 1;
        assert(s.subrange(r0, r0 + rest_len) =~= spec_ser_members(rest)) by {
            assert forall|k: int| 0 <= k < rest_len implies #[trigger] s.subrange(
                r0,
                r0 + rest_len,
            )[k] == spec_ser_members(rest)[k] by {
                assert(s[r0 + k] == spec_ser_members(members)[first_len + 1 + k]);
                assert(spec_ser_members(members)[first_len + 1 + k] == spec_ser_members(rest)[k]);
            }
        }
        assert(s[r0 + rest_len] == '}');
        assert(forall|k: int| 0 <= k < rest.len() ==> rest[k] == members[k + 1]);
        assert(forall|k: int| 0 <= k < rest.len() ==> spec_small_ints((#[trigger] rest[k]).1));
        lemma_parse_members_of_ser(rest, s, r0);
        assert(seq![(key, value)] + rest =~= members);
    }
}

/// The serializer and the parser agree: a whole body written by the
/// serializer parses back to exactly the tree it came from.
pub proof fn lemma_parse_round_trip(j: Json)
    requires
        spec_small_ints(j),
    ensures
        spec_parse_json(spec_ser(j)) == Some(j),
{
    let s = spec_ser(j);
    assert(s.subrange(0, s.len() as int) =~= s);
    lemma_parse_of_ser(j, s, 0);
    assert(spec_skip_ws(s, s.len() as int) == s.len());
}

impl JsonValue {
    /// The value under `key` when this tree is an object with such a
    /// member.
    #[verifier::loop_isolation(false)]
    pub fn get<'a>(&'a self, key: &str) -> (r: Option<&'a JsonValue>)
        ensures
            match self@ {
                Json::Obj(gm) => match r {
                    Some(v) => spec_obj_lookup(gm, key@) == Some(v@),
                    None => spec_obj_lookup(gm, key@) is None,
                },
                _ => r is None,
            },
    {
        match self {
            JsonValue::Obj(members) => {
                let ghost gm = spec_members_of(members@);
                proof {
                    lemma_members_of(members@);
                    assert(self@ == Json::Obj(gm));
                }
                let mut i: usize = 0;
                while i < members.len()
                    invariant
                        i <= members@.len(),
                        gm == spec_members_of(members@),
                        gm.len() == members@.len(),
                        forall|k: int| 0 <= k < members@.len() ==> gm[k] == (
                        (#[trigger] members@[k]).0@,
                            spec_json_of(members@[k].1),
                        ),
                        forall|k: int| 0 <= k < i ==> gm[k].0 != key@,
                    decreases members@.len() - i,
                {
                    if crate::text::str_eq(members[i].0.as_str(), key) {
                        proof {
                            lemma_obj_lookup_index(gm, key@, i as int);
                        }
                        return Some(&members[i].1);
                    }
                    i = i + 1;
                }
                proof {
                    lemma_obj_lookup_absent(gm, key@);
                }
                None
            },
            _ => None,
        }
    }
}

} // verus!
