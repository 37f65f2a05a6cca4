//! A plain model of JSON documents and the reading operations the transcript
//! parsers perform on them.
use vstd::prelude::*;

verus! {

/// A JSON number: its text as serde_json writes it, and its value when it is
/// a non-negative integer.
pub struct JsonNumber {
    pub text: String,
    pub unsigned: Option<u64>,
}

/// A JSON document. A parsed object's members come in key order, as serde_json's
/// map keeps them.
pub enum JsonValue {
    Null,
    Bool(bool),
    Number(JsonNumber),
    Str(String),
    Array(Vec<JsonValue>),
    Object(Vec<(String, JsonValue)>),
}

/// Mathematical model of a JSON number.
pub struct Num {
    pub text: Seq<char>,
    pub unsigned: Option<u64>,
}

/// Mathematical model of a JSON document.
pub enum Json {
    Null,
    Bool(bool),
    Number(Num),
    Str(Seq<char>),
    Array(Seq<Json>),
    Object(Seq<(Seq<char>, Json)>),
}

impl JsonNumber {
    pub open spec fn model(&self) -> Num {
        Num { text: self.text@, unsigned: self.unsigned }
    }
}

impl JsonValue {
    pub open spec fn model(&self) -> Json
        decreases self,
    {
        match self {
            JsonValue::Null => Json::Null,
            JsonValue::Bool(b) => Json::Bool(*b),
            JsonValue::Number(n) => Json::Number(n.model()),
            JsonValue::Str(s) => Json::Str(s@),
            JsonValue::Array(items) => Json::Array(models(items@)),
            JsonValue::Object(entries) => Json::Object(entry_models(entries@)),
        }
    }
}

pub open spec fn models(s: Seq<JsonValue>) -> Seq<Json>
    decreases s,
{
    if s.len() == 0 {
        Seq::empty()
    } else {
        models(s.drop_last()).push(s.last().model())
    }
}

pub open spec fn entry_models(s: Seq<(String, JsonValue)>) -> Seq<(Seq<char>, Json)>
    decreases s,
{
    if s.len() == 0 {
        Seq::empty()
    } else {
        entry_models(s.drop_last()).push((s.last().0@, s.last().1.model()))
    }
}

pub proof fn lemma_models_index(s: Seq<JsonValue>, i: int)
    requires
        0 <= i < s.len(),
    ensures
        models(s).len() == s.len(),
        models(s)[i] == s[i].model(),
    decreases s.len(),
{
    if i < s.len() - 1 {
        lemma_models_index(s.drop_last(), i);
    } else {
        lemma_models_len(s.drop_last());
    }
}

pub proof fn lemma_models_len(s: Seq<JsonValue>)
    ensures
        models(s).len() == s.len(),
    decreases s.len(),
{
    if s.len() > 0 {
        lemma_models_len(s.drop_last());
    }
}

pub proof fn lemma_entry_models_index(s: Seq<(String, JsonValue)>, i: int)
    requires
        0 <= i < s.len(),
    ensures
        entry_models(s).len() == s.len(),
        entry_models(s)[i] == (s[i].0@, s[i].1.model()),
    decreases s.len(),
{
    if i < s.len() - 1 {
        lemma_entry_models_index(s.drop_last(), i);
    } else {
        lemma_entry_models_len(s.drop_last());
    }
}

pub proof fn lemma_entry_models_len(s: Seq<(String, JsonValue)>)
    ensures
        entry_models(s).len() == s.len(),
    decreases s.len(),
{
    if s.len() > 0 {
        lemma_entry_models_len(s.drop_last());
    }
}

/// The value of the first member of `entries` named `key`.
pub open spec fn lookup(entries: Seq<(Seq<char>, Json)>, key: Seq<char>) -> Option<Json>
    decreases entries.len(),
{
    if entries.len() == 0 {
        None
    } else if entries[0].0 == key {
        Some(entries[0].1)
    } else {
        lookup(entries.drop_first(), key)
    }
}

/// The member `key` of an object; `None` for a missing member or a non-object.
pub open spec fn field(j: Json, key: Seq<char>) -> Option<Json> {
    match j {
        Json::Object(entries) => lookup(entries, key),
        _ => None,
    }
}

/// `field` on an optional value.
pub open spec fn field_opt(j: Option<Json>, key: Seq<char>) -> Option<Json> {
    match j {
        Some(v) => field(v, key),
        None => None,
    }
}

pub open spec fn as_str(j: Option<Json>) -> Option<Seq<char>> {
    match j {
        Some(Json::Str(s)) => Some(s),
        _ => None,
    }
}

pub open spec fn as_u64(j: Option<Json>) -> Option<u64> {
    match j {
        Some(Json::Number(n)) => n.unsigned,
        _ => None,
    }
}

pub open spec fn as_bool(j: Option<Json>) -> Option<bool> {
    match j {
        Some(Json::Bool(b)) => Some(b),
        _ => None,
    }
}

pub open spec fn as_array(j: Option<Json>) -> Option<Seq<Json>> {
    match j {
        Some(Json::Array(items)) => Some(items),
        _ => None,
    }
}

pub open spec fn as_number(j: Option<Json>) -> Option<Num> {
    match j {
        Some(Json::Number(n)) => Some(n),
        _ => None,
    }
}

/// The string member `key` of `j`.
pub open spec fn str_field(j: Json, key: Seq<char>) -> Option<Seq<char>> {
    as_str(field(j, key))
}

/// `Some(x)` of an optional default: the string itself or `default`.
pub open spec fn or_default(s: Option<Seq<char>>, default: Seq<char>) -> Seq<char> {
    match s {
        Some(x) => x,
        None => default,
    }
}

/// A borrowed value seen through its model.
pub open spec fn opt_model(r: Option<&JsonValue>) -> Option<Json> {
    match r {
        Some(v) => Some(v.model()),
        None => None,
    }
}

/// A borrowed string seen through its characters.
pub open spec fn opt_chars(r: Option<&String>) -> Option<Seq<char>> {
    match r {
        Some(s) => Some(s@),
        None => None,
    }
}

/// Equality of two string slices (`<str as PartialEq>::eq`).
#[verifier::external_body]
pub(crate) fn str_eq(a: &str, b: &str) -> (r: bool)
    ensures
        r == (a@ == b@),
{
    a == b
}

impl JsonValue {
    /// The member `key` of this object (`serde_json::Value::get` with a string index).
    pub fn get(&self, key: &str) -> (r: Option<&JsonValue>)
        ensures
            opt_model(r) == field(self.model(), key@),
    {
        match self {
            JsonValue::Object(entries) => {
                let ghost em = entry_models(entries@);
                proof {
                    lemma_entry_models_len(entries@);
                    assert(em.skip(0) =~= em);
                }
                let mut i: usize = 0;
                while i < entries.len()
                    invariant
                        0 <= i <= entries.len(),
                        em == entry_models(entries@),
                        em.len() == entries.len(),
                        self.model() == Json::Object(em),
                        lookup(em, key@) == lookup(em.skip(i as int), key@),
                    decreases entries.len() - i,
                {
                    proof {
                        lemma_entry_models_index(entries@, i as int);
                        assert(em.skip(i as int).drop_first() =~= em.skip(i + 1));
                        assert(em.skip(i as int)[0] == em[i as int]);
                    }
                    if str_eq(entries[i].0.as_str(), key) {
                        assert(em[i as int].0 == key@);
                        assert(lookup(em.skip(i as int), key@) == Some(em[i as int].1));
                        return Some(&entries[i].1);
                    }
                    i = i + 1;
                }
                assert(em.skip(i as int).len() == 0);
                None
            },
            _ => None,
        }
    }

    /// The string held by this value (`serde_json::Value::as_str`).
    pub fn as_string(&self) -> (r: Option<&String>)
        ensures
            opt_chars(r) == as_str(Some(self.model())),
    {
        match self {
            JsonValue::Str(s) => Some(s),
            _ => None,
        }
    }

    /// The non-negative integer held by this value (`serde_json::Value::as_u64`).
    pub fn as_u64(&self) -> (r: Option<u64>)
        ensures
            r == as_u64(Some(self.model())),
    {
        match self {
            JsonValue::Number(n) => n.unsigned,
            _ => None,
        }
    }

    /// The boolean held by this value (`serde_json::Value::as_bool`).
    pub fn as_bool(&self) -> (r: Option<bool>)
        ensures
            r == as_bool(Some(self.model())),
    {
        match self {
            JsonValue::Bool(b) => Some(*b),
            _ => None,
        }
    }

    /// The elements of this array (`serde_json::Value::as_array`).
    pub fn as_array(&self) -> (r: Option<&Vec<JsonValue>>)
        ensures
            match r {
                Some(items) => as_array(Some(self.model())) == Some(models(items@)),
                None => as_array(Some(self.model())) is None,
            },
    {
        match self {
            JsonValue::Array(items) => Some(items),
            _ => None,
        }
    }

    /// A copy of the string member `key`, or `default` when there is none.
    pub fn str_or(&self, key: &str, default: &str) -> (r: String)
        ensures
            r@ == or_default(str_field(self.model(), key@), default@),
    {
        match self.get_str(key) {
            Some(s) => s.clone(),
            None => default.to_owned(),
        }
    }

    /// A copy of the string member `key`.
    pub fn str_opt(&self, key: &str) -> (r: Option<String>)
        ensures
            match r {
                Some(s) => str_field(self.model(), key@) == Some(s@),
                None => str_field(self.model(), key@) is None,
            },
    {
        match self.get_str(key) {
            Some(s) => Some(s.clone()),
            None => None,
        }
    }

    /// The string member `key` of this object.
    pub fn get_str(&self, key: &str) -> (r: Option<&String>)
        ensures
            opt_chars(r) == str_field(self.model(), key@),
    {
        match self.get(key) {
            Some(v) => v.as_string(),
            None => None,
        }
    }
}

/// The lower-case hexadecimal digit of `n`.
pub open spec fn hex_digit(n: u32) -> char {
    if n < 10 {
        (n + 48) as char
    } else {
        (n + 87) as char
    }
}

/// How serde_json writes one character inside a string literal.
pub open spec fn escape_char(c: char) -> Seq<char> {
    if c == '"' {
        seq!['\\', '"']
    } else if c == '\\' {
        seq!['\\', '\\']
    } else if c == '\u{8}' {
        seq!['\\', 'b']
    } else if c == '\u{c}' {
        seq!['\\', 'f']
    } else if c == '\n' {
        seq!['\\', 'n']
    } else if c == '\r' {
        seq!['\\', 'r']
    } else if c == '\t' {
        seq!['\\', 't']
    } else if (c as u32) < 0x20 {
        seq!['\\', 'u', '0', '0', hex_digit((c as u32) / 16), hex_digit((c as u32) % 16)]
    } else {
        seq![c]
    }
}

pub open spec fn escaped(s: Seq<char>) -> Seq<char>
    decreases s.len(),
{
    if s.len() == 0 {
        Seq::empty()
    } else {
        escaped(s.drop_last()) + escape_char(s.last())
    }
}

/// A JSON string literal holding `s`.
pub open spec fn quoted(s: Seq<char>) -> Seq<char> {
    seq!['"'] + escaped(s) + seq!['"']
}

/// The compact JSON text of a document, as `serde_json::to_string` writes it.
pub open spec fn json_text(j: Json) -> Seq<char>
    decreases j,
{
    match j {
        Json::Null => seq!['n', 'u', 'l', 'l'],
        Json::Bool(b) => if b {
            seq!['t', 'r', 'u', 'e']
        } else {
            seq!['f', 'a', 'l', 's', 'e']
        },
        Json::Number(n) => n.text,
        Json::Str(s) => quoted(s),
        Json::Array(items) => seq!['['] + items_text(items) + seq![']'],
        Json::Object(entries) => seq!['{'] + members_text(entries) + seq!['}'],
    }
}

/// The elements of an array, separated by commas.
pub open spec fn items_text(s: Seq<Json>) -> Seq<char>
    decreases s,
{
    if s.len() == 0 {
        Seq::empty()
    } else if s.len() == 1 {
        json_text(s[0])
    } else {
        items_text(s.drop_last()) + seq![','] + json_text(s.last())
    }
}

/// The members of an object, separated by commas.
pub open spec fn members_text(s: Seq<(Seq<char>, Json)>) -> Seq<char>
    decreases s,
{
    if s.len() == 0 {
        Seq::empty()
    } else if s.len() == 1 {
        quoted(s[0].0) + seq![':'] + json_text(s[0].1)
    } else {
        members_text(s.drop_last()) + seq![','] + quoted(s.last().0) + seq![':'] + json_text(
            s.last().1,
        )
    }
}

fn hex_char(n: u32) -> (c: char)
    requires
        n < 16,
    ensures
        c == hex_digit(n),
{
    let digits: [char; 16] = [
        '0', '1', '2', '3', '4', '5', '6', '7', '8', '9', 'a', 'b', 'c', 'd', 'e', 'f',
    ];
    let c = digits[n as usize];
    assert(c == hex_digit(n)) by {
        assert(digits@ =~= seq![
            '0', '1', '2', '3', '4', '5', '6', '7', '8', '9', 'a', 'b', 'c', 'd', 'e', 'f',
        ]);
    }
    c
}

/// Appends the characters of `s` to `out`.
pub(crate) fn append_str(out: &mut String, s: &str)
    ensures
        final(out)@ == old(out)@ + s@,
{
    let cs = crate::text::chars_of(s);
    let mut i: usize = 0;
    while i < cs.len()
        invariant
            0 <= i <= cs.len(),
            cs@ == s@,
            out@ == old(out)@ + s@.take(i as int),
        decreases cs.len() - i,
    {
        crate::text::push_char(out, cs[i]);
        assert(s@.take(i + 1) =~= s@.take(i as int).push(cs@[i as int]));
        i = i + 1;
    }
    assert(s@.take(cs.len() as int) =~= s@);
}

fn write_escaped_char(out: &mut String, c: char)
    ensures
        final(out)@ == old(out)@ + escape_char(c),
{
    let code = c as u32;
    if c == '"' {
        crate::text::push_char(out, '\\');
        crate::text::push_char(out, '"');
    } else if c == '\\' {
        crate::text::push_char(out, '\\');
        crate::text::push_char(out, '\\');
    } else if c == '\u{8}' {
        crate::text::push_char(out, '\\');
        crate::text::push_char(out, 'b');
    } else if c == '\u{c}' {
        crate::text::push_char(out, '\\');
        crate::text::push_char(out, 'f');
    } else if c == '\n' {
        crate::text::push_char(out, '\\');
        crate::text::push_char(out, 'n');
    } else if c == '\r' {
        crate::text::push_char(out, '\\');
        crate::text::push_char(out, 'r');
    } else if c == '\t' {
        crate::text::push_char(out, '\\');
        crate::text::push_char(out, 't');
    } else if code < 0x20 {
        crate::text::push_char(out, '\\');
        crate::text::push_char(out, 'u');
        crate::text::push_char(out, '0');
        crate::text::push_char(out, '0');
        let hi = hex_char(code / 16);
        crate::text::push_char(out, hi);
        let lo = hex_char(code % 16);
        crate::text::push_char(out, lo);
    } else {
        crate::text::push_char(out, c);
    }
    assert(final(out)@ =~= old(out)@ + escape_char(c));
}

fn write_quoted(out: &mut String, s: &str)
    ensures
        final(out)@ == old(out)@ + quoted(s@),
{
    crate::text::push_char(out, '"');
    let cs = crate::text::chars_of(s);
    let ghost start = out@;
    let mut i: usize = 0;
    while i < cs.len()
        invariant
            0 <= i <= cs.len(),
            cs@ == s@,
            out@ == start + escaped(s@.take(i as int)),
        decreases cs.len() - i,
    {
        write_escaped_char(out, cs[i]);
        proof {
            let t = s@.take(i + 1);
            assert(t.drop_last() =~= s@.take(i as int));
            assert(t.last() == cs@[i as int]);
        }
        i = i + 1;
    }
    assert(s@.take(cs.len() as int) =~= s@);
    crate::text::push_char(out, '"');
    assert(final(out)@ =~= old(out)@ + quoted(s@));
}

impl JsonValue {
    /// Appends the compact JSON text of this value to `out`.
    pub fn write_text(&self, out: &mut String)
        ensures
            final(out)@ == old(out)@ + json_text(self.model()),
        decreases self,
    {
        match self {
            JsonValue::Null => {
                append_str(out, "null");
                proof { reveal_strlit("null"); }
                assert(final(out)@ =~= old(out)@ + json_text(self.model()));
            },
            JsonValue::Bool(b) => {
                if *b {
                    append_str(out, "true");
                    proof { reveal_strlit("true"); }
                } else {
                    append_str(out, "false");
                    proof { reveal_strlit("false"); }
                }
                assert(final(out)@ =~= old(out)@ + json_text(self.model()));
            },
            JsonValue::Number(n) => {
                append_str(out, n.text.as_str());
            },
            JsonValue::Str(s) => {
                write_quoted(out, s.as_str());
            },
            JsonValue::Array(items) => {
                crate::text::push_char(out, '[');
                let ghost start = out@;
                let ghost ms = models(items@);
                proof { lemma_models_len(items@); }
                let mut i: usize = 0;
                while i < items.len()
                    invariant
                        0 <= i <= items.len(),
                        ms == models(items@),
                        ms.len() == items.len(),
                        *self == JsonValue::Array(*items),
                        out@ == start + items_text(ms.take(i as int)),
                    decreases items.len() - i,
                {
                    if i > 0 {
                        crate::text::push_char(out, ',');
                    }
                    let ghost before = out@;
                    proof {
                        lemma_models_index(items@, i as int);
                        assert(decreases_to!(*self => (*self)->Array_0));
                        assert(decreases_to!(*items => items@));
                        assert(decreases_to!(items@ => items@[i as int]));
                        assert(decreases_to!(self => items@[i as int]));
                    }
                    items[i].write_text(out);
                    proof {
                        let t = ms.take(i + 1);
                        assert(t.drop_last() =~= ms.take(i as int));
                        assert(t.last() == items@[i as int].model());
                        if i == 0 {
                            assert(ms.take(0) =~= Seq::<Json>::empty());
                        }
                    }
                    assert(out@ =~= start + items_text(ms.take(i + 1)));
                    i = i + 1;
                }
                assert(ms.take(items.len() as int) =~= ms);
                crate::text::push_char(out, ']');
                assert(final(out)@ =~= old(out)@ + json_text(self.model()));
            },
            JsonValue::Object(entries) => {
                crate::text::push_char(out, '{');
                let ghost start = out@;
                let ghost em = entry_models(entries@);
                proof { lemma_entry_models_len(entries@); }
                let mut i: usize = 0;
                while i < entries.len()
                    invariant
                        0 <= i <= entries.len(),
                        em == entry_models(entries@),
                        em.len() == entries.len(),
                        *self == JsonValue::Object(*entries),
                        out@ == start + members_text(em.take(i as int)),
                    decreases entries.len() - i,
                {
                    if i > 0 {
                        crate::text::push_char(out, ',');
                    }
                    proof {
                        lemma_entry_models_index(entries@, i as int);
                        assert(decreases_to!(*self => (*self)->Object_0));
                        assert(decreases_to!(*entries => entries@));
                        assert(decreases_to!(entries@[i as int] => entries@[i as int].1));
                        assert(decreases_to!(entries@ => entries@[i as int]));
                        assert(decreases_to!(self => entries@[i as int].1));
                    }
                    write_quoted(out, entries[i].0.as_str());
                    crate::text::push_char(out, ':');
                    entries[i].1.write_text(out);
                    proof {
                        let t = em.take(i + 1);
                        assert(t.drop_last() =~= em.take(i as int));
                        assert(t.last() == em[i as int]);
                        if i == 0 {
                            assert(em.take(0) =~= Seq::<(Seq<char>, Json)>::empty());
                        }
                    }
                    assert(out@ =~= start + members_text(em.take(i + 1)));
                    i = i + 1;
                }
                assert(em.take(entries.len() as int) =~= em);
                crate::text::push_char(out, '}');
                assert(final(out)@ =~= old(out)@ + json_text(self.model()));
            },
        }
    }

    /// A copy of this value.
    pub fn duplicate(&self) -> (r: JsonValue)
        ensures
            r.model() == self.model(),
        decreases self,
    {
        match self {
            JsonValue::Null => JsonValue::Null,
            JsonValue::Bool(b) => JsonValue::Bool(*b),
            JsonValue::Number(n) => JsonValue::Number(
                JsonNumber { text: n.text.clone(), unsigned: n.unsigned },
            ),
            JsonValue::Str(s) => JsonValue::Str(s.clone()),
            JsonValue::Array(items) => {
                let ghost ms = models(items@);
                proof { lemma_models_len(items@); }
                let mut out: Vec<JsonValue> = Vec::new();
                let mut i: usize = 0;
                while i < items.len()
                    invariant
                        0 <= i <= items.len(),
                        ms == models(items@),
                        ms.len() == items.len(),
                        *self == JsonValue::Array(*items),
                        models(out@) == ms.take(i as int),
                    decreases items.len() - i,
                {
                    proof {
                        lemma_models_index(items@, i as int);
                        assert(decreases_to!(*self => (*self)->Array_0));
                        assert(decreases_to!(*items => items@));
                        assert(decreases_to!(items@ => items@[i as int]));
                    }
                    let c = items[i].duplicate();
                    let ghost prev = out@;
                    out.push(c);
                    proof {
                        assert(out@.drop_last() =~= prev);
                        assert(models(out@) =~= ms.take(i + 1));
                    }
                    i = i + 1;
                }
                assert(ms.take(items.len() as int) =~= ms);
                JsonValue::Array(out)
            },
            JsonValue::Object(entries) => {
                let ghost em = entry_models(entries@);
                proof { lemma_entry_models_len(entries@); }
                let mut out: Vec<(String, JsonValue)> = Vec::new();
                let mut i: usize = 0;
                while i < entries.len()
                    invariant
                        0 <= i <= entries.len(),
                        em == entry_models(entries@),
                        em.len() == entries.len(),
                        *self == JsonValue::Object(*entries),
                        entry_models(out@) == em.take(i as int),
                    decreases entries.len() - i,
                {
                    proof {
                        lemma_entry_models_index(entries@, i as int);
                        assert(decreases_to!(*self => (*self)->Object_0));
                        assert(decreases_to!(*entries => entries@));
                        assert(decreases_to!(entries@ => entries@[i as int]));
                        assert(decreases_to!(entries@[i as int] => entries@[i as int].1));
                    }
                    let c = entries[i].1.duplicate();
                    let k = entries[i].0.clone();
                    let ghost prev = out@;
                    out.push((k, c));
                    proof {
                        assert(out@.drop_last() =~= prev);
                        assert(entry_models(out@) =~= em.take(i + 1));
                    }
                    i = i + 1;
                }
                assert(em.take(entries.len() as int) =~= em);
                JsonValue::Object(out)
            },
        }
    }

    /// The compact JSON text of this value (`serde_json::to_string`).
    pub fn to_text(&self) -> (r: String)
        ensures
            r@ == json_text(self.model()),
    {
        let mut out = String::new();
        self.write_text(&mut out);
        assert(out@ =~= json_text(self.model()));
        out
    }
}

/// The indented JSON text of a document, as `serde_json::to_string_pretty` writes
/// it: each element and member on a line of its own, two more spaces in than its
/// container; empty arrays and objects as `[]` and `{}`.
pub open spec fn pretty_text(j: Json, indent: Seq<char>) -> Seq<char>
    decreases j,
{
    match j {
        Json::Array(items) => if items.len() == 0 {
            seq!['[', ']']
        } else {
            seq!['[', '\n'] + pretty_items(items, indent + seq![' ', ' ']) + seq!['\n'] + indent
                + seq![']']
        },
        Json::Object(entries) => if entries.len() == 0 {
            seq!['{', '}']
        } else {
            seq!['{', '\n'] + pretty_members(entries, indent + seq![' ', ' ']) + seq!['\n']
                + indent + seq!['}']
        },
        _ => json_text(j),
    }
}

/// The elements of an array, each indented, separated by a comma and a line break.
pub open spec fn pretty_items(s: Seq<Json>, indent: Seq<char>) -> Seq<char>
    decreases s,
{
    if s.len() == 0 {
        Seq::empty()
    } else if s.len() == 1 {
        indent + pretty_text(s[0], indent)
    } else {
        pretty_items(s.drop_last(), indent) + seq![',', '\n'] + indent + pretty_text(
            s.last(),
            indent,
        )
    }
}

/// The members of an object, each indented, separated by a comma and a line break.
pub open spec fn pretty_members(s: Seq<(Seq<char>, Json)>, indent: Seq<char>) -> Seq<char>
    decreases s,
{
    if s.len() == 0 {
        Seq::empty()
    } else if s.len() == 1 {
        indent + quoted(s[0].0) + seq![':', ' '] + pretty_text(s[0].1, indent)
    } else {
        pretty_members(s.drop_last(), indent) + seq![',', '\n'] + indent + quoted(s.last().0)
            + seq![':', ' '] + pretty_text(s.last().1, indent)
    }
}

fn deeper(indent: &String) -> (r: String)
    ensures
        r@ == indent@ + seq![' ', ' '],
{
    let mut d = indent.clone();
    crate::text::push_char(&mut d, ' ');
    crate::text::push_char(&mut d, ' ');
    assert(d@ =~= indent@ + seq![' ', ' ']);
    d
}

impl JsonValue {
    /// Appends the indented JSON text of this value to `out`, its lines after the
    /// first starting with `indent`.
    pub fn write_pretty(&self, out: &mut String, indent: &String)
        ensures
            final(out)@ == old(out)@ + pretty_text(self.model(), indent@),
        decreases self,
    {
        match self {
            JsonValue::Array(items) => {
                if items.len() == 0 {
                    crate::text::push_char(out, '[');
                    crate::text::push_char(out, ']');
                    proof { lemma_models_len(items@); }
                    assert(final(out)@ =~= old(out)@ + pretty_text(self.model(), indent@));
                    return;
                }
                let inner = deeper(indent);
                crate::text::push_char(out, '[');
                crate::text::push_char(out, '\n');
                let ghost start = out@;
                let ghost ms = models(items@);
                proof { lemma_models_len(items@); }
                let mut i: usize = 0;
                while i < items.len()
                    invariant
                        0 <= i <= items.len(),
                        ms == models(items@),
                        ms.len() == items.len(),
                        inner@ == indent@ + seq![' ', ' '],
                        *self == JsonValue::Array(*items),
                        out@ == start + pretty_items(ms.take(i as int), inner@),
                    decreases items.len() - i,
                {
                    if i > 0 {
                        crate::text::push_char(out, ',');
                        crate::text::push_char(out, '\n');
                    }
                    append_str(out, inner.as_str());
                    proof {
                        lemma_models_index(items@, i as int);
                        assert(decreases_to!(*self => (*self)->Array_0));
                        assert(decreases_to!(*items => items@));
                        assert(decreases_to!(items@ => items@[i as int]));
                        assert(decreases_to!(self => items@[i as int]));
                    }
                    items[i].write_pretty(out, &inner);
                    proof {
                        let t = ms.take(i + 1);
                        assert(t.drop_last() =~= ms.take(i as int));
                        assert(t.last() == items@[i as int].model());
                        if i == 0 {
                            assert(ms.take(0) =~= Seq::<Json>::empty());
                        }
                    }
                    assert(out@ =~= start + pretty_items(ms.take(i + 1), inner@));
                    i = i + 1;
                }
                assert(ms.take(items.len() as int) =~= ms);
                crate::text::push_char(out, '\n');
                append_str(out, indent.as_str());
                crate::text::push_char(out, ']');
                assert(final(out)@ =~= old(out)@ + pretty_text(self.model(), indent@));
            },
            JsonValue::Object(entries) => {
                if entries.len() == 0 {
                    crate::text::push_char(out, '{');
                    crate::text::push_char(out, '}');
                    proof { lemma_entry_models_len(entries@); }
                    assert(final(out)@ =~= old(out)@ + pretty_text(self.model(), indent@));
                    return;
                }
                let inner = deeper(indent);
                crate::text::push_char(out, '{');
                crate::text::push_char(out, '\n');
                let ghost start = out@;
                let ghost em = entry_models(entries@);
                proof { lemma_entry_models_len(entries@); }
                let mut i: usize = 0;
                while i < entries.len()
                    invariant
                        0 <= i <= entries.len(),
                        em == entry_models(entries@),
                        em.len() == entries.len(),
                        inner@ == indent@ + seq![' ', ' '],
                        *self == JsonValue::Object(*entries),
                        out@ == start + pretty_members(em.take(i as int), inner@),
                    decreases entries.len() - i,
                {
                    if i > 0 {
                        crate::text::push_char(out, ',');
                        crate::text::push_char(out, '\n');
                    }
                    proof {
                        lemma_entry_models_index(entries@, i as int);
                        assert(decreases_to!(*self => (*self)->Object_0));
                        assert(decreases_to!(*entries => entries@));
                        assert(decreases_to!(entries@[i as int] => entries@[i as int].1));
                        assert(decreases_to!(entries@ => entries@[i as int]));
                        assert(decreases_to!(self => entries@[i as int].1));
                    }
                    append_str(out, inner.as_str());
                    write_quoted(out, entries[i].0.as_str());
                    crate::text::push_char(out, ':');
                    crate::text::push_char(out, ' ');
                    entries[i].1.write_pretty(out, &inner);
                    proof {
                        let t = em.take(i + 1);
                        assert(t.drop_last() =~= em.take(i as int));
                        assert(t.last() == em[i as int]);
                        if i == 0 {
                            assert(em.take(0) =~= Seq::<(Seq<char>, Json)>::empty());
                        }
                    }
                    assert(out@ =~= start + pretty_members(em.take(i + 1), inner@));
                    i = i + 1;
                }
                assert(em.take(entries.len() as int) =~= em);
                crate::text::push_char(out, '\n');
                append_str(out, indent.as_str());
                crate::text::push_char(out, '}');
                assert(final(out)@ =~= old(out)@ + pretty_text(self.model(), indent@));
            },
            _ => {
                self.write_text(out);
            },
        }
    }

    /// The indented JSON text of this value (`serde_json::to_string_pretty`).
    pub fn to_pretty_text(&self) -> (r: String)
        ensures
            r@ == pretty_text(self.model(), Seq::empty()),
    {
        let mut out = String::new();
        let indent = String::new();
        self.write_pretty(&mut out, &indent);
        assert(out@ =~= pretty_text(self.model(), Seq::empty()));
        out
    }
}

#[verifier::external_type_specification]
#[verifier::external_body]
pub struct ExSerdeError(serde_json::Error);

/// Whether `serde_json::from_str` accepts `text` as a JSON document.
pub uninterp spec fn json_accepts(text: Seq<char>) -> bool;

/// The document that `serde_json::from_str::<serde_json::Value>` reads from a text it
/// accepts: object members in key order, a repeated key keeping its last value, a
/// number as its `Display` text and its `as_u64` value.
pub uninterp spec fn json_document(text: Seq<char>) -> Json;

/// The document serde_json reads from a text, if it accepts the text.
pub open spec fn read_doc(text: Seq<char>) -> Option<Json> {
    if json_accepts(text) {
        Some(json_document(text))
    } else {
        None
    }
}

/// The top level of a JSON document: a scalar's value, or which kind of container
/// it is.
pub enum JsonLevel {
    Null,
    Bool(bool),
    Number(JsonNumber),
    Str(String),
    Array,
    Object,
}

/// Whether `l` is the top level of the document `d`.
pub open spec fn level_of(l: JsonLevel, d: Json) -> bool {
    match l {
        JsonLevel::Null => d == Json::Null,
        JsonLevel::Bool(b) => d == Json::Bool(b),
        JsonLevel::Number(n) => d == Json::Number(n.model()),
        JsonLevel::Str(s) => d == Json::Str(s@),
        JsonLevel::Array => d is Array,
        JsonLevel::Object => d is Object,
    }
}

/// `serde_json::from_str::<serde_json::Value>`, its top level told apart: it succeeds
/// exactly on the texts serde_json accepts, and then gives the top level of the
/// document it read (a function of the text alone).
#[verifier::external_body]
fn serde_level(text: &str) -> (r: Result<JsonLevel, serde_json::Error>)
    ensures
        r is Ok == json_accepts(text@),
        r matches Ok(l) ==> level_of(l, json_document(text@)),
{
    let v: serde_json::Value = serde_json::from_str(text)?;
    Ok(match v {
        serde_json::Value::Null => JsonLevel::Null,
        serde_json::Value::Bool(b) => JsonLevel::Bool(b),
        serde_json::Value::Number(n) => JsonLevel::Number(JsonNumber { text: n.to_string(), unsigned: n.as_u64() }),
        serde_json::Value::String(s) => JsonLevel::Str(s),
        serde_json::Value::Array(_) => JsonLevel::Array,
        serde_json::Value::Object(_) => JsonLevel::Object,
    })
}

/// Whether `texts` are the raw texts of the items of the array read from `text`:
/// each is shorter than `text` and reads as the item.
pub open spec fn array_members(texts: Seq<String>, text: Seq<char>) -> bool {
    &&& json_document(text) matches Json::Array(items)
    &&& items.len() == texts.len()
    &&& forall|i: int|
        0 <= i < texts.len() ==> {
            &&& json_accepts(#[trigger] texts[i]@)
            &&& texts[i]@.len() < text.len()
            &&& json_document(texts[i]@) == items[i]
        }
}

/// `serde_json::from_str::<Vec<Box<RawValue>>>` on the text of an array: the raw
/// text of each item, in order. Each is a part of the array's text, and reads as
/// that item.
#[verifier::external_body]
fn serde_array_members(text: &str) -> (r: Vec<String>)
    requires
        json_accepts(text@),
        json_document(text@) is Array,
    ensures
        array_members(r@, text@),
{
    let raw: Vec<Box<serde_json::value::RawValue>> = serde_json::from_str(text).unwrap_or_default();
    raw.into_iter().map(|m| m.get().to_string()).collect()
}

/// Whether `members` are the keys and raw value texts of the object read from `text`,
/// in its order: each value text is shorter than `text` and reads as the value.
pub open spec fn object_members(members: Seq<(String, String)>, text: Seq<char>) -> bool {
    &&& json_document(text) matches Json::Object(entries)
    &&& entries.len() == members.len()
    &&& forall|i: int|
        0 <= i < members.len() ==> {
            &&& entries[i].0 == (#[trigger] members[i]).0@
            &&& json_accepts(members[i].1@)
            &&& members[i].1@.len() < text.len()
            &&& json_document(members[i].1@) == entries[i].1
        }
}

/// `serde_json::from_str::<BTreeMap<String, Box<RawValue>>>` on the text of an
/// object: its keys in order, each with the raw text of its value, a repeated key
/// keeping its last value, as `serde_json::Value`'s map does.
#[verifier::external_body]
fn serde_object_members(text: &str) -> (r: Vec<(String, String)>)
    requires
        json_accepts(text@),
        json_document(text@) is Object,
    ensures
        object_members(r@, text@),
{
    let raw: std::collections::BTreeMap<String, Box<serde_json::value::RawValue>> =
        serde_json::from_str(text).unwrap_or_default();
    raw.into_iter().map(|(k, m)| (k, m.get().to_string())).collect()
}

/// `Display` of `serde_json::Error`: the message; nothing is stated of it.
#[verifier::external_body]
fn serde_error_text(e: &serde_json::Error) -> String {
    e.to_string()
}

/// The document read from a text serde_json accepts, built level by level from the
/// raw texts of the members.
fn document_of(text: &str) -> (r: JsonValue)
    requires
        json_accepts(text@),
    ensures
        r.model() == json_document(text@),
    decreases text@.len(),
{
    match serde_level(text) {
        Err(_) => JsonValue::Null,
        Ok(JsonLevel::Null) => JsonValue::Null,
        Ok(JsonLevel::Bool(b)) => JsonValue::Bool(b),
        Ok(JsonLevel::Number(n)) => JsonValue::Number(n),
        Ok(JsonLevel::Str(s)) => JsonValue::Str(s),
        Ok(JsonLevel::Array) => {
            let members = serde_array_members(text);
            let ghost items = json_document(text@)->Array_0;
            let mut out: Vec<JsonValue> = Vec::new();
            let mut i: usize = 0;
            while i < members.len()
                invariant
                    i <= members@.len(),
                    array_members(members@, text@),
                    items == json_document(text@)->Array_0,
                    models(out@) == items.take(i as int),
                decreases members.len() - i,
            {
                assert(json_accepts(members@[i as int]@));
                let item = document_of(members[i].as_str());
                let ghost before = out@;
                out.push(item);
                proof {
                    assert(out@.drop_last() =~= before);
                    assert(items.take(i + 1) =~= items.take(i as int).push(items[i as int]));
                }
                i = i + 1;
            }
            assert(items.take(members@.len() as int) =~= items);
            JsonValue::Array(out)
        },
        Ok(JsonLevel::Object) => {
            let members = serde_object_members(text);
            let ghost entries = json_document(text@)->Object_0;
            let mut out: Vec<(String, JsonValue)> = Vec::new();
            let mut i: usize = 0;
            while i < members.len()
                invariant
                    i <= members@.len(),
                    object_members(members@, text@),
                    entries == json_document(text@)->Object_0,
                    entry_models(out@) == entries.take(i as int),
                decreases members.len() - i,
            {
                assert(json_accepts(members@[i as int].1@));
                let value = document_of(members[i].1.as_str());
                let key = members[i].0.clone();
                let ghost before = out@;
                out.push((key, value));
                proof {
                    assert(out@.drop_last() =~= before);
                    assert(entries.take(i + 1) =~= entries.take(i as int).push(entries[i as int]));
                }
                i = i + 1;
            }
            assert(entries.take(members@.len() as int) =~= entries);
            JsonValue::Object(out)
        },
    }
}

/// Parses a JSON document with serde_json. It succeeds exactly when serde_json
/// accepts the text, and gives the document serde_json reads; the error carries
/// serde_json's message.
pub fn parse_json(text: &str) -> (r: Result<JsonValue, String>)
    ensures
        r is Ok == json_accepts(text@),
        r matches Ok(v) ==> v.model() == json_document(text@),
{
    match serde_level(text) {
        Ok(_) => Ok(document_of(text)),
        Err(e) => Err(serde_error_text(&e)),
    }
}

} // verus!
