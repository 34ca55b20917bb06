//! Structured-value output of the projector.
//!
//! A projected record is an ordered list of key-value fields. This module
//! renders such a list as JSON text, merges caller-supplied metadata fields
//! into it (metadata wins on key collision) and orders fields by key, the
//! order a key-sorted JSON object serializer produces.

use vstd::prelude::*;
use vstd::seq_lib::lemma_multiset_commutative;
use vstd::string::StrSliceExecFns;
use vstd::string::StringExecFns;
use vstd::utf8::encode_utf8;

verus! {

/// Decimal digit `d` as a character; meaningful for `d <= 9`.
pub open spec fn digit_char(d: nat) -> char {
    if d == 0 { '0' }
    else if d == 1 { '1' }
    else if d == 2 { '2' }
    else if d == 3 { '3' }
    else if d == 4 { '4' }
    else if d == 5 { '5' }
    else if d == 6 { '6' }
    else if d == 7 { '7' }
    else if d == 8 { '8' }
    else { '9' }
}

/// Lower-case hexadecimal digit `d` as a character; meaningful for `d <= 15`.
pub open spec fn hex_char(d: nat) -> char {
    if d < 10 { digit_char(d) }
    else if d == 10 { 'a' }
    else if d == 11 { 'b' }
    else if d == 12 { 'c' }
    else if d == 13 { 'd' }
    else if d == 14 { 'e' }
    else { 'f' }
}

/// Decimal rendering of `n`: most significant digit first, no leading zeros.
pub open spec fn dec_digits(n: nat) -> Seq<char>
    decreases n,
{
    if n < 10 {
        seq![digit_char(n)]
    } else {
        dec_digits(n / 10) + seq![digit_char(n % 10)]
    }
}

/// JSON escape of one character: quotes, backslashes and control characters
/// take an escape sequence, every other character stands for itself.
pub open spec fn esc_char(c: char) -> Seq<char> {
    if c == '"' { seq!['\\', '"'] }
    else if c == '\\' { seq!['\\', '\\'] }
    else if c == '\u{08}' { seq!['\\', 'b'] }
    else if c == '\u{09}' { seq!['\\', 't'] }
    else if c == '\u{0A}' { seq!['\\', 'n'] }
    else if c == '\u{0C}' { seq!['\\', 'f'] }
    else if c == '\u{0D}' { seq!['\\', 'r'] }
    else if (c as u32) < 0x20 {
        seq!['\\', 'u', '0', '0', hex_char((c as u32 / 16) as nat), hex_char((c as u32 % 16) as nat)]
    } else {
        seq![c]
    }
}

/// JSON escape of the first `n` characters of `s`, in order.
pub open spec fn esc_up_to(s: Seq<char>, n: int) -> Seq<char>
    decreases n,
{
    if n <= 0 {
        Seq::empty()
    } else {
        esc_up_to(s, n - 1) + esc_char(s[n - 1])
    }
}

/// JSON escape of a whole string.
pub open spec fn json_escaped(s: Seq<char>) -> Seq<char> {
    esc_up_to(s, s.len() as int)
}

/// One value of a projected field.
pub enum FieldValue {
    /// Rendered as a JSON string.
    Text(String),
    /// Rendered as a JSON integer.
    Unsigned(u64),
    /// A 64-bit file reference, rendered as an object of its parts.
    Ref64 { entry: u64, sequence: u16 },
    /// A 128-bit file reference: the raw value as a decimal string beside the
    /// parts of its lossy 64-bit projection.
    Ref128 { value: u128, entry: u64, sequence: u16 },
}

/// One key-value field of a projected record.
pub struct JsonField {
    pub key: String,
    pub value: FieldValue,
}

/// JSON text of one field value. A 128-bit reference nests an object; with
/// `nested_sorted` its keys come alphabetically (as a key-sorted object
/// serializer emits them), otherwise the raw value leads.
pub open spec fn render_value(v: FieldValue, nested_sorted: bool) -> Seq<char> {
    match v {
        FieldValue::Text(s) => "\""@ + json_escaped(s@) + "\""@,
        FieldValue::Unsigned(n) => dec_digits(n as nat),
        FieldValue::Ref64 { entry, sequence } => "{\"entry\":"@ + dec_digits(entry as nat)
            + ",\"sequence\":"@ + dec_digits(sequence as nat) + "}"@,
        FieldValue::Ref128 { value, entry, sequence } => if nested_sorted {
            "{\"entry\":"@ + dec_digits(entry as nat) + ",\"sequence\":"@ + dec_digits(
                sequence as nat,
            ) + ",\"u128\":\""@ + dec_digits(value as nat) + "\"}"@
        } else {
            "{\"u128\":\""@ + dec_digits(value as nat) + "\",\"entry\":"@ + dec_digits(
                entry as nat,
            ) + ",\"sequence\":"@ + dec_digits(sequence as nat) + "}"@
        },
    }
}

/// JSON text of one field: quoted key, colon, value.
pub open spec fn render_field(f: JsonField, nested_sorted: bool) -> Seq<char> {
    "\""@ + json_escaped(f.key@) + "\":"@ + render_value(f.value, nested_sorted)
}

/// JSON text of the first `n` fields, joined by commas.
pub open spec fn fields_up_to(s: Seq<JsonField>, n: int, nested_sorted: bool) -> Seq<char>
    decreases n,
{
    if n <= 0 {
        Seq::empty()
    } else if n == 1 {
        render_field(s[0], nested_sorted)
    } else {
        fields_up_to(s, n - 1, nested_sorted) + ","@ + render_field(s[n - 1], nested_sorted)
    }
}

/// JSON text of a whole object.
pub open spec fn render_object(s: Seq<JsonField>, nested_sorted: bool) -> Seq<char> {
    "{"@ + fields_up_to(s, s.len() as int, nested_sorted) + "}"@
}

/// Byte-wise lexicographic "less or equal", compared from index `i` on.
pub open spec fn lex_le_from(a: Seq<u8>, b: Seq<u8>, i: int) -> bool
    decreases a.len() - i,
{
    if i >= a.len() {
        true
    } else if i >= b.len() {
        false
    } else if a[i] != b[i] {
        a[i] < b[i]
    } else {
        lex_le_from(a, b, i + 1)
    }
}

/// String order used for keys: lexicographic over the UTF-8 encodings, the
/// order in which a key-sorted JSON object serializer emits string keys.
pub open spec fn str_le(a: Seq<char>, b: Seq<char>) -> bool {
    lex_le_from(encode_utf8(a), encode_utf8(b), 0)
}

/// `base` with `x` replacing its first field of the same key, or appended
/// when no field has that key.
pub open spec fn spec_upsert(base: Seq<JsonField>, x: JsonField) -> Seq<JsonField>
    decreases base.len(),
{
    if base.len() == 0 {
        seq![x]
    } else if base[0].key@ == x.key@ {
        seq![x] + base.skip(1)
    } else {
        seq![base[0]] + spec_upsert(base.skip(1), x)
    }
}

/// `base` with every field of `add` upserted in order; a later field of
/// `add` wins over an earlier one of the same key.
pub open spec fn spec_merge(base: Seq<JsonField>, add: Seq<JsonField>) -> Seq<JsonField>
    decreases add.len(),
{
    if add.len() == 0 {
        base
    } else {
        spec_merge(spec_upsert(base, add[0]), add.skip(1))
    }
}

/// `s` with `x` inserted after every field whose key precedes or equals
/// `x`'s key.
pub open spec fn spec_insert_sorted(s: Seq<JsonField>, x: JsonField) -> Seq<JsonField>
    decreases s.len(),
{
    if s.len() == 0 {
        seq![x]
    } else if str_le(s[0].key@, x.key@) {
        seq![s[0]] + spec_insert_sorted(s.skip(1), x)
    } else {
        seq![x] + s
    }
}

/// Insertion sort of fields by key.
pub open spec fn spec_sorted_fields(s: Seq<JsonField>) -> Seq<JsonField>
    decreases s.len(),
{
    if s.len() == 0 {
        Seq::empty()
    } else {
        spec_insert_sorted(spec_sorted_fields(s.drop_last()), s.last())
    }
}

fn digit_str(d: u128) -> (r: &'static str)
    requires
        d < 10,
    ensures
        r@ == seq![digit_char(d as nat)],
{
    let s: &'static str = if d == 0 { "0" }
    else if d == 1 { "1" }
    else if d == 2 { "2" }
    else if d == 3 { "3" }
    else if d == 4 { "4" }
    else if d == 5 { "5" }
    else if d == 6 { "6" }
    else if d == 7 { "7" }
    else if d == 8 { "8" }
    else { "9" };
    proof {
        reveal_strlit("0");
        reveal_strlit("1");
        reveal_strlit("2");
        reveal_strlit("3");
        reveal_strlit("4");
        reveal_strlit("5");
        reveal_strlit("6");
        reveal_strlit("7");
        reveal_strlit("8");
        reveal_strlit("9");
        assert(s@ =~= seq![digit_char(d as nat)]);
    }
    s
}

fn hex_str(d: u32) -> (r: &'static str)
    requires
        d < 16,
    ensures
        r@ == seq![hex_char(d as nat)],
{
    if d < 10 {
        digit_str(d as u128)
    } else {
        let s: &'static str = if d == 10 { "a" }
        else if d == 11 { "b" }
        else if d == 12 { "c" }
        else if d == 13 { "d" }
        else if d == 14 { "e" }
        else { "f" };
        proof {
            reveal_strlit("a");
            reveal_strlit("b");
            reveal_strlit("c");
            reveal_strlit("d");
            reveal_strlit("e");
            reveal_strlit("f");
            assert(s@ =~= seq![hex_char(d as nat)]);
        }
        s
    }
}

/// Decimal rendering of an unsigned 128-bit value.
pub fn u128_to_decimal(n: u128) -> (r: String)
    ensures
        r@ == dec_digits(n as nat),
    decreases n,
{
    if n < 10 {
        String::from_str(digit_str(n))
    } else {
        let mut s = u128_to_decimal(n / 10);
        s.append(digit_str(n % 10));
        s
    }
}

/// Decimal rendering of an unsigned 64-bit value.
pub fn u64_to_decimal(n: u64) -> (r: String)
    ensures
        r@ == dec_digits(n as nat),
{
    u128_to_decimal(n as u128)
}

/// Relies on `String::push` of std: appends the given character to the end
/// of the string.
#[verifier::external_body]
fn push_char(s: &mut String, c: char)
    ensures
        final(s)@ == old(s)@.push(c),
{
    s.push(c);
}

fn append_escaped_char(out: &mut String, c: char)
    ensures
        final(out)@ == old(out)@ + esc_char(c),
{
    if c == '"' {
        out.append("\\\"");
        proof {
            reveal_strlit("\\\"");
            assert("\\\""@ =~= seq!['\\', '"']);
        }
    } else if c == '\\' {
        out.append("\\\\");
        proof {
            reveal_strlit("\\\\");
            assert("\\\\"@ =~= seq!['\\', '\\']);
        }
    } else if c == '\u{08}' {
        out.append("\\b");
        proof {
            reveal_strlit("\\b");
            assert("\\b"@ =~= seq!['\\', 'b']);
        }
    } else if c == '\u{09}' {
        out.append("\\t");
        proof {
            reveal_strlit("\\t");
            assert("\\t"@ =~= seq!['\\', 't']);
        }
    } else if c == '\u{0A}' {
        out.append("\\n");
        proof {
            reveal_strlit("\\n");
            assert("\\n"@ =~= seq!['\\', 'n']);
        }
    } else if c == '\u{0C}' {
        out.append("\\f");
        proof {
            reveal_strlit("\\f");
            assert("\\f"@ =~= seq!['\\', 'f']);
        }
    } else if c == '\u{0D}' {
        out.append("\\r");
        proof {
            reveal_strlit("\\r");
            assert("\\r"@ =~= seq!['\\', 'r']);
        }
    } else if (c as u32) < 0x20 {
        let code = c as u32;
        out.append("\\u00");
        out.append(hex_str(code / 16));
        out.append(hex_str(code % 16));
        proof {
            reveal_strlit("\\u00");
            assert(final(out)@ =~= old(out)@ + esc_char(c));
        }
    } else {
        push_char(out, c);
        proof {
            assert(final(out)@ =~= old(out)@ + esc_char(c));
        }
    }
}

/// JSON escape of a whole string, character by character.
pub fn json_escape(s: &str) -> (r: String)
    ensures
        r@ == json_escaped(s@),
{
    let n = s.unicode_len();
    let mut out = String::new();
    let mut i: usize = 0;
    while i < n
        invariant
            i <= n,
            n == s@.len(),
            out@ == esc_up_to(s@, i as int),
        decreases n - i,
    {
        let c = s.get_char(i);
        append_escaped_char(&mut out, c);
        i = i + 1;
    }
    out
}

fn render_value_exec(v: &FieldValue, nested_sorted: bool) -> (r: String)
    ensures
        r@ == render_value(*v, nested_sorted),
{
    match v {
        FieldValue::Text(s) => {
            let mut out = String::from_str("\"");
            let escaped = json_escape(s.as_str());
            out.append(escaped.as_str());
            out.append("\"");
            out
        },
        FieldValue::Unsigned(n) => u64_to_decimal(*n),
        FieldValue::Ref64 { entry, sequence } => {
            let mut out = String::from_str("{\"entry\":");
            let e = u64_to_decimal(*entry);
            out.append(e.as_str());
            out.append(",\"sequence\":");
            let q = u64_to_decimal(*sequence as u64);
            out.append(q.as_str());
            out.append("}");
            out
        },
        FieldValue::Ref128 { value, entry, sequence } => {
            if nested_sorted {
                let mut out = String::from_str("{\"entry\":");
                let e = u64_to_decimal(*entry);
                out.append(e.as_str());
                out.append(",\"sequence\":");
                let q = u64_to_decimal(*sequence as u64);
                out.append(q.as_str());
                out.append(",\"u128\":\"");
                let u = u128_to_decimal(*value);
                out.append(u.as_str());
                out.append("\"}");
                out
            } else {
                let mut out = String::from_str("{\"u128\":\"");
                let u = u128_to_decimal(*value);
                out.append(u.as_str());
                out.append("\",\"entry\":");
                let e = u64_to_decimal(*entry);
                out.append(e.as_str());
                out.append(",\"sequence\":");
                let q = u64_to_decimal(*sequence as u64);
                out.append(q.as_str());
                out.append("}");
                out
            }
        },
    }
}

fn render_field_exec(f: &JsonField, nested_sorted: bool) -> (r: String)
    ensures
        r@ == render_field(*f, nested_sorted),
{
    let mut out = String::from_str("\"");
    let escaped = json_escape(f.key.as_str());
    out.append(escaped.as_str());
    out.append("\":");
    let v = render_value_exec(&f.value, nested_sorted);
    out.append(v.as_str());
    out
}

/// Renders an ordered field list as one flat JSON object; `nested_sorted`
/// picks the key order inside nested reference objects.
pub fn render_json_object(fields: &Vec<JsonField>, nested_sorted: bool) -> (r: String)
    ensures
        r@ == render_object(fields@, nested_sorted),
{
    let mut out = String::from_str("{");
    let mut i: usize = 0;
    while i < fields.len()
        invariant
            i <= fields@.len(),
            out@ == "{"@ + fields_up_to(fields@, i as int, nested_sorted),
        decreases fields@.len() - i,
    {
        if i > 0 {
            out.append(",");
        }
        let fs = render_field_exec(&fields[i], nested_sorted);
        out.append(fs.as_str());
        i = i + 1;
    }
    out.append("}");
    out
}

fn str_le_exec(a: &str, b: &str) -> (r: bool)
    ensures
        r == str_le(a@, b@),
{
    let ab = a.as_bytes();
    let bb = b.as_bytes();
    let an = ab.len();
    let bn = bb.len();
    let mut i: usize = 0;
    while i < an && i < bn
        invariant
            i <= an,
            i <= bn,
            an == ab@.len(),
            bn == bb@.len(),
            ab@ == encode_utf8(a@),
            bb@ == encode_utf8(b@),
            lex_le_from(ab@, bb@, 0) == lex_le_from(ab@, bb@, i as int),
        decreases an - i,
    {
        let x = *vstd::slice::slice_index_get(ab, i);
        let y = *vstd::slice::slice_index_get(bb, i);
        if x != y {
            return x < y;
        }
        i = i + 1;
    }
    an <= bn
}

/// Replaces the first field of `fields` sharing `x`'s key with `x`, or
/// appends `x` when no field has that key.
pub fn upsert_field(fields: Vec<JsonField>, x: JsonField) -> (r: Vec<JsonField>)
    ensures
        r@ == spec_upsert(fields@, x),
    decreases fields@.len(),
{
    let ghost orig = fields@;
    let mut fields = fields;
    if fields.len() == 0 {
        fields.push(x);
        proof {
            assert(fields@ =~= spec_upsert(orig, x));
        }
        fields
    } else if fields[0].key == x.key {
        let _replaced = fields.remove(0);
        fields.insert(0, x);
        fields
    } else {
        let first = fields.remove(0);
        let mut rest = upsert_field(fields, x);
        rest.insert(0, first);
        rest
    }
}

/// Merges `add` into `base` in order; an added field wins over an existing
/// field of the same key.
pub fn merge_fields(base: Vec<JsonField>, add: Vec<JsonField>) -> (r: Vec<JsonField>)
    ensures
        r@ == spec_merge(base@, add@),
    decreases add@.len(),
{
    if add.len() == 0 {
        base
    } else {
        let mut add = add;
        let x = add.remove(0);
        merge_fields(upsert_field(base, x), add)
    }
}

fn insert_sorted(v: Vec<JsonField>, x: JsonField) -> (r: Vec<JsonField>)
    ensures
        r@ == spec_insert_sorted(v@, x),
    decreases v@.len(),
{
    let ghost orig = v@;
    let mut v = v;
    if v.len() == 0 {
        v.push(x);
        proof {
            assert(v@ =~= spec_insert_sorted(orig, x));
        }
        v
    } else if str_le_exec(v[0].key.as_str(), x.key.as_str()) {
        let first = v.remove(0);
        let mut rest = insert_sorted(v, x);
        rest.insert(0, first);
        rest
    } else {
        v.insert(0, x);
        v
    }
}

/// Insertion sort of fields by key.
pub fn sort_fields(v: Vec<JsonField>) -> (r: Vec<JsonField>)
    ensures
        r@ == spec_sorted_fields(v@),
    decreases v@.len(),
{
    let mut v = v;
    if v.len() == 0 {
        v
    } else {
        let last = v.pop().unwrap();
        insert_sorted(sort_fields(v), last)
    }
}

proof fn lemma_upsert_fresh(base: Seq<JsonField>, x: JsonField)
    requires
        forall|i: int| 0 <= i < base.len() ==> base[i].key@ != x.key@,
    ensures
        spec_upsert(base, x) == base + seq![x],
    decreases base.len(),
{
    if base.len() == 0 {
        assert(spec_upsert(base, x) =~= base + seq![x]);
    } else {
        lemma_upsert_fresh(base.skip(1), x);
        assert(spec_upsert(base, x) =~= base + seq![x]);
    }
}

/// Law: merging metadata whose keys are fresh — distinct among themselves and
/// absent from the record's own fields — appends exactly those fields, in
/// order, altering no existing key or value.
pub proof fn lemma_merge_disjoint_appends(base: Seq<JsonField>, add: Seq<JsonField>)
    requires
        forall|i: int, j: int|
            0 <= i < base.len() && 0 <= j < add.len() ==> base[i].key@ != add[j].key@,
        forall|i: int, j: int| 0 <= i < j < add.len() ==> add[i].key@ != add[j].key@,
    ensures
        spec_merge(base, add) == base + add,
    decreases add.len(),
{
    if add.len() == 0 {
        assert(spec_merge(base, add) =~= base + add);
    } else {
        lemma_upsert_fresh(base, add[0]);
        let base1 = base + seq![add[0]];
        lemma_merge_disjoint_appends(base1, add.skip(1));
        assert(base1 + add.skip(1) =~= base + add);
    }
}

/// Two field values that carry the same content: text compared by view,
/// anything else exactly.
pub open spec fn value_equiv(x: FieldValue, y: FieldValue) -> bool {
    match (x, y) {
        (FieldValue::Text(a), FieldValue::Text(b)) => a@ == b@,
        _ => x == y,
    }
}

/// Two field lists that agree in length, key text and value content; all
/// rendering, merging and sorting below is blind to anything else.
pub open spec fn fields_equiv(a: Seq<JsonField>, b: Seq<JsonField>) -> bool {
    &&& a.len() == b.len()
    &&& forall|i: int| 0 <= i < a.len() ==> (#[trigger] a[i]).key@ == b[i].key@
    &&& forall|i: int| 0 <= i < a.len() ==> value_equiv((#[trigger] a[i]).value, b[i].value)
}

proof fn lemma_fields_up_to_congruence(
    a: Seq<JsonField>,
    b: Seq<JsonField>,
    n: int,
    nested_sorted: bool,
)
    requires
        fields_equiv(a, b),
        n <= a.len(),
    ensures
        fields_up_to(a, n, nested_sorted) == fields_up_to(b, n, nested_sorted),
    decreases n,
{
    if n > 0 {
        lemma_fields_up_to_congruence(a, b, n - 1, nested_sorted);
        assert(render_field(a[n - 1], nested_sorted) == render_field(b[n - 1], nested_sorted));
    }
}

/// Law: the JSON text of an object depends only on the key text and value
/// content of each field, in order.
pub proof fn lemma_render_object_congruence(
    a: Seq<JsonField>,
    b: Seq<JsonField>,
    nested_sorted: bool,
)
    requires
        fields_equiv(a, b),
    ensures
        render_object(a, nested_sorted) == render_object(b, nested_sorted),
{
    lemma_fields_up_to_congruence(a, b, a.len() as int, nested_sorted);
}

proof fn lemma_upsert_equiv(a: Seq<JsonField>, b: Seq<JsonField>, x: JsonField, y: JsonField)
    requires
        fields_equiv(a, b),
        x.key@ == y.key@,
        value_equiv(x.value, y.value),
    ensures
        fields_equiv(spec_upsert(a, x), spec_upsert(b, y)),
    decreases a.len(),
{
    if a.len() == 0 {
    } else if a[0].key@ == x.key@ {
        assert(fields_equiv(a.skip(1), b.skip(1)));
    } else {
        assert(fields_equiv(a.skip(1), b.skip(1)));
        lemma_upsert_equiv(a.skip(1), b.skip(1), x, y);
    }
}

/// Law: merging equivalent metadata into equivalent field lists yields
/// equivalent field lists.
pub proof fn lemma_merge_equiv(
    a: Seq<JsonField>,
    b: Seq<JsonField>,
    c: Seq<JsonField>,
    d: Seq<JsonField>,
)
    requires
        fields_equiv(a, b),
        fields_equiv(c, d),
    ensures
        fields_equiv(spec_merge(a, c), spec_merge(b, d)),
    decreases c.len(),
{
    if c.len() > 0 {
        lemma_upsert_equiv(a, b, c[0], d[0]);
        assert(fields_equiv(c.skip(1), d.skip(1)));
        lemma_merge_equiv(spec_upsert(a, c[0]), spec_upsert(b, d[0]), c.skip(1), d.skip(1));
    }
}

proof fn lemma_insert_sorted_equiv(a: Seq<JsonField>, b: Seq<JsonField>, x: JsonField, y: JsonField)
    requires
        fields_equiv(a, b),
        x.key@ == y.key@,
        value_equiv(x.value, y.value),
    ensures
        fields_equiv(spec_insert_sorted(a, x), spec_insert_sorted(b, y)),
    decreases a.len(),
{
    if a.len() == 0 {
    } else if str_le(a[0].key@, x.key@) {
        assert(fields_equiv(a.skip(1), b.skip(1)));
        lemma_insert_sorted_equiv(a.skip(1), b.skip(1), x, y);
    }
}

/// Law: sorting by key sends equivalent field lists to equivalent field
/// lists.
pub proof fn lemma_sorted_equiv(a: Seq<JsonField>, b: Seq<JsonField>)
    requires
        fields_equiv(a, b),
    ensures
        fields_equiv(spec_sorted_fields(a), spec_sorted_fields(b)),
    decreases a.len(),
{
    if a.len() > 0 {
        assert(fields_equiv(a.drop_last(), b.drop_last()));
        lemma_sorted_equiv(a.drop_last(), b.drop_last());
        lemma_insert_sorted_equiv(
            spec_sorted_fields(a.drop_last()),
            spec_sorted_fields(b.drop_last()),
            a.last(),
            b.last(),
        );
    }
}

proof fn lemma_lex_le_total(a: Seq<u8>, b: Seq<u8>, i: int)
    ensures
        lex_le_from(a, b, i) || lex_le_from(b, a, i),
    decreases a.len() - i,
{
    if i < a.len() && i < b.len() && a[i] == b[i] {
        lemma_lex_le_total(a, b, i + 1);
    }
}

proof fn lemma_lex_le_trans(a: Seq<u8>, b: Seq<u8>, c: Seq<u8>, i: int)
    requires
        lex_le_from(a, b, i),
        lex_le_from(b, c, i),
    ensures
        lex_le_from(a, c, i),
    decreases a.len() - i,
{
    if i < a.len() && i < b.len() && i < c.len() && a[i] == b[i] && b[i] == c[i] {
        lemma_lex_le_trans(a, b, c, i + 1);
    }
}

/// The fields stand in key order: every earlier key precedes or equals every
/// later one.
pub open spec fn fields_sorted(s: Seq<JsonField>) -> bool {
    forall|i: int, j: int| 0 <= i < j < s.len() ==> str_le((#[trigger] s[i]).key@, (#[trigger] s[j]).key@)
}

proof fn lemma_insert_sorted_ordered(s: Seq<JsonField>, x: JsonField)
    requires
        fields_sorted(s),
    ensures
        fields_sorted(spec_insert_sorted(s, x)),
    decreases s.len(),
{
    broadcast use vstd::seq_lib::group_to_multiset_ensures;

    if s.len() == 0 {
    } else if str_le(s[0].key@, x.key@) {
        let rest = spec_insert_sorted(s.skip(1), x);
        assert(fields_sorted(s.skip(1)));
        lemma_insert_sorted_ordered(s.skip(1), x);
        lemma_insert_sorted_multiset(s.skip(1), x);
        let out = seq![s[0]] + rest;
        assert forall|i: int, j: int| 0 <= i < j < out.len() implies str_le(
            (#[trigger] out[i]).key@,
            (#[trigger] out[j]).key@,
        ) by {
            if i == 0 {
                // out[j] is x or an element of s.skip(1); the head precedes
                // either one.
                assert(rest.to_multiset().contains(rest[j - 1]));
                assert(rest[j - 1] == x || s.skip(1).contains(rest[j - 1]));
                if rest[j - 1] == x {
                } else {
                    let k = choose|k: int| 0 <= k < s.skip(1).len() && s.skip(1)[k] == rest[j - 1];
                    assert(s[k + 1] == rest[j - 1]);
                }
            }
        }
    } else {
        lemma_lex_le_total(encode_utf8(s[0].key@), encode_utf8(x.key@), 0);
        let out = seq![x] + s;
        assert forall|i: int, j: int| 0 <= i < j < out.len() implies str_le(
            (#[trigger] out[i]).key@,
            (#[trigger] out[j]).key@,
        ) by {
            if i == 0 {
                // x precedes the old head, which precedes everything after it.
                if j > 1 {
                    lemma_lex_le_trans(
                        encode_utf8(x.key@),
                        encode_utf8(s[0].key@),
                        encode_utf8(s[j - 1].key@),
                        0,
                    );
                }
            }
        }
    }
}

/// Law: the insertion sort leaves the fields in key order.
pub proof fn lemma_sorted_fields_ordered(s: Seq<JsonField>)
    ensures
        fields_sorted(spec_sorted_fields(s)),
    decreases s.len(),
{
    if s.len() > 0 {
        lemma_sorted_fields_ordered(s.drop_last());
        lemma_insert_sorted_ordered(spec_sorted_fields(s.drop_last()), s.last());
    }
}

proof fn lemma_lex_le_antisym(a: Seq<u8>, b: Seq<u8>, i: int)
    requires
        0 <= i <= a.len(),
        i <= b.len(),
        lex_le_from(a, b, i),
        lex_le_from(b, a, i),
    ensures
        a.len() == b.len(),
        forall|j: int| i <= j < a.len() ==> a[j] == b[j],
    decreases a.len() - i,
{
    if i == a.len() {
        if b.len() > i {
            assert(!lex_le_from(b, a, i));
        }
    } else {
        lemma_lex_le_antisym(a, b, i + 1);
    }
}

proof fn lemma_str_le_antisym(x: Seq<char>, y: Seq<char>)
    requires
        str_le(x, y),
        str_le(y, x),
    ensures
        x == y,
{
    lemma_lex_le_antisym(encode_utf8(x), encode_utf8(y), 0);
    assert(encode_utf8(x) =~= encode_utf8(y));
    vstd::utf8::encode_utf8_decode_utf8(x);
    vstd::utf8::encode_utf8_decode_utf8(y);
}

/// No two fields share a key.
pub open spec fn keys_distinct(s: Seq<JsonField>) -> bool {
    forall|i: int, j: int|
        0 <= i < j < s.len() ==> (#[trigger] s[i]).key@ != (#[trigger] s[j]).key@
}

proof fn lemma_keys_distinct_permutation(a: Seq<JsonField>, t: Seq<JsonField>)
    requires
        keys_distinct(a),
        a.to_multiset() == t.to_multiset(),
    ensures
        keys_distinct(t),
{
    broadcast use vstd::seq_lib::group_to_multiset_ensures;

    assert(a.no_duplicates());
    a.lemma_multiset_has_no_duplicates();
    assert forall|i: int, j: int| 0 <= i < j < t.len() implies (#[trigger] t[i]).key@ != (
    #[trigger] t[j]).key@ by {
        if t[i].key@ == t[j].key@ {
            if t[i] == t[j] {
                // The same value twice would give it multiset count two,
                // impossible in a permutation of a duplicate-free list.
                let s0 = t.subrange(0, j);
                let s1 = t.subrange(j, t.len() as int);
                assert(t =~= s0 + s1);
                lemma_multiset_commutative(s0, s1);
                assert(s0.contains(t[i]));
                assert(s1.contains(t[j]));
                assert(t.to_multiset().count(t[i]) >= 2);
            } else {
                // Two different values sharing a key both occur in `a`,
                // contradicting its key distinctness.
                assert(t.contains(t[i]) && t.contains(t[j]));
                assert(a.to_multiset().count(t[i]) > 0);
                assert(a.to_multiset().count(t[j]) > 0);
                assert(a.contains(t[i]) && a.contains(t[j]));
                let p = choose|p: int| 0 <= p < a.len() && a[p] == t[i];
                let q = choose|q: int| 0 <= q < a.len() && a[q] == t[j];
                assert(p != q);
                assert(false);
            }
        }
    }
}

proof fn lemma_sorted_unique(a: Seq<JsonField>, b: Seq<JsonField>)
    requires
        fields_sorted(a),
        fields_sorted(b),
        a.to_multiset() == b.to_multiset(),
        keys_distinct(a),
    ensures
        a == b,
    decreases a.len(),
{
    broadcast use vstd::seq_lib::group_to_multiset_ensures;

    assert(a.len() == a.to_multiset().len() && b.len() == b.to_multiset().len());
    if a.len() == 0 {
        assert(a =~= b);
    } else {
        assert(b.contains(b[0]) && a.contains(a[0]));
        assert(a.to_multiset().count(b[0]) > 0);
        assert(b.to_multiset().count(a[0]) > 0);
        assert(a.contains(b[0]) && b.contains(a[0]));
        let k = choose|k: int| 0 <= k < a.len() && a[k] == b[0];
        let m = choose|m: int| 0 <= m < b.len() && b[m] == a[0];
        if a[0] != b[0] {
            // Each head precedes the other, so their keys coincide; key
            // distinctness then forces the heads to be one and the same.
            assert(k != 0 && m != 0);
            assert(str_le(a[0].key@, a[k].key@));
            assert(str_le(b[0].key@, b[m].key@));
            lemma_str_le_antisym(a[0].key@, b[0].key@);
            assert(false);
        }
        let ta = a.remove(0);
        let tb = b.remove(0);
        assert(ta.to_multiset() =~= a.to_multiset().remove(a[0]));
        assert(tb.to_multiset() =~= b.to_multiset().remove(b[0]));
        assert(fields_sorted(ta) && keys_distinct(ta) && fields_sorted(tb)) by {
            assert(forall|i: int| 0 <= i < ta.len() ==> ta[i] == a[i + 1]);
            assert(forall|i: int| 0 <= i < tb.len() ==> tb[i] == b[i + 1]);
        }
        lemma_sorted_unique(ta, tb);
        assert(a =~= b) by {
            assert(forall|i: int| 1 <= i < a.len() ==> a[i] == ta[i - 1] && b[i] == tb[i - 1]);
        }
    }
}

/// Law: gathering the fields in another order changes nothing. Two
/// permutations of one field list whose keys are pairwise distinct sort to
/// the same sequence, so the key-ordered projection is insensitive to field
/// order; a key collision, by contrast, is resolved by the merge and not by
/// the sort.
pub proof fn lemma_sort_order_insensitive(a: Seq<JsonField>, b: Seq<JsonField>)
    requires
        a.to_multiset() == b.to_multiset(),
        keys_distinct(a),
    ensures
        spec_sorted_fields(a) == spec_sorted_fields(b),
{
    lemma_sorted_fields_permutes(a);
    lemma_sorted_fields_permutes(b);
    lemma_sorted_fields_ordered(a);
    lemma_sorted_fields_ordered(b);
    lemma_keys_distinct_permutation(a, spec_sorted_fields(a));
    lemma_sorted_unique(spec_sorted_fields(a), spec_sorted_fields(b));
}

proof fn lemma_insert_sorted_multiset(s: Seq<JsonField>, x: JsonField)
    ensures
        spec_insert_sorted(s, x).to_multiset() == s.to_multiset().insert(x),
    decreases s.len(),
{
    broadcast use vstd::seq_lib::group_to_multiset_ensures;

    if s.len() == 0 {
        assert(spec_insert_sorted(s, x) =~= Seq::empty().push(x));
    } else if str_le(s[0].key@, x.key@) {
        lemma_insert_sorted_multiset(s.skip(1), x);
        let rest = spec_insert_sorted(s.skip(1), x);
        assert(seq![s[0]] + rest =~= rest.insert(0, s[0]));
        assert(s =~= s.skip(1).insert(0, s[0]));
    } else {
        assert(seq![x] + s =~= s.insert(0, x));
    }
}

/// Law: sorting the fields reorders them and nothing else — the sorted
/// sequence holds exactly the fields of the input, as a multiset.
pub proof fn lemma_sorted_fields_permutes(s: Seq<JsonField>)
    ensures
        spec_sorted_fields(s).to_multiset() == s.to_multiset(),
    decreases s.len(),
{
    broadcast use vstd::seq_lib::group_to_multiset_ensures;

    if s.len() == 0 {
        assert(spec_sorted_fields(s) =~= Seq::<JsonField>::empty());
    } else {
        lemma_sorted_fields_permutes(s.drop_last());
        lemma_insert_sorted_multiset(spec_sorted_fields(s.drop_last()), s.last());
        assert(s =~= s.drop_last().push(s.last()));
    }
}

} // verus!
