use vstd::prelude::*;

verus! {

broadcast use vstd::seq::group_seq_axioms, vstd::std_specs::vec::group_vec_axioms;

use vstd::string::StrSliceExecFns;
use vstd::string::StringExecFns;

/// Mathematical model of a JSON document: the tree a body text denotes.
pub enum JsonSpec {
    Null,
    Bool(bool),
    Num(Seq<char>),
    Str(Seq<char>),
    Arr(Seq<JsonSpec>),
    Obj(Seq<(Seq<char>, JsonSpec)>),
}

/// A JSON document as executable data. A number is carried as its literal
/// text, so the tree represents exactly every document the wire can hold.
#[derive(Debug)]
pub enum Json {
    Null,
    Bool(bool),
    Num(String),
    Str(String),
    Arr(Vec<Json>),
    Obj(Vec<(String, Json)>),
}

pub open spec fn jview(j: Json) -> JsonSpec
    decreases j,
{
    match j {
        Json::Null => JsonSpec::Null,
        Json::Bool(b) => JsonSpec::Bool(b),
        Json::Num(s) => JsonSpec::Num(s@),
        Json::Str(s) => JsonSpec::Str(s@),
        Json::Arr(items) => JsonSpec::Arr(jview_list(items@)),
        Json::Obj(fields) => JsonSpec::Obj(jview_fields(fields@)),
    }
}

pub open spec fn jview_list(items: Seq<Json>) -> Seq<JsonSpec>
    decreases items,
{
    if items.len() == 0 {
        Seq::empty()
    } else {
        jview_list(items.drop_last()).push(jview(items.last()))
    }
}

pub open spec fn jview_fields(fields: Seq<(String, Json)>) -> Seq<(Seq<char>, JsonSpec)>
    decreases fields,
{
    if fields.len() == 0 {
        Seq::empty()
    } else {
        jview_fields(fields.drop_last()).push((fields.last().0@, jview(fields.last().1)))
    }
}

impl View for Json {
    type V = JsonSpec;

    open spec fn view(&self) -> JsonSpec {
        jview(*self)
    }
}

pub proof fn lemma_jview_list(items: Seq<Json>)
    ensures
        jview_list(items).len() == items.len(),
        forall|i: int| 0 <= i < items.len() ==> jview_list(items)[i] == jview(items[i]),
    decreases items.len(),
{
    if items.len() > 0 {
        lemma_jview_list(items.drop_last());
        assert forall|i: int| 0 <= i < items.len() implies jview_list(items)[i] == jview(
            items[i],
        ) by {
            if i < items.len() - 1 {
                assert(items.drop_last()[i] == items[i]);
            }
        }
    }
}

pub proof fn lemma_jview_fields(fields: Seq<(String, Json)>)
    ensures
        jview_fields(fields).len() == fields.len(),
        forall|i: int|
            0 <= i < fields.len() ==> jview_fields(fields)[i] == (
            fields[i].0@,
            jview(fields[i].1),
            ),
    decreases fields.len(),
{
    if fields.len() > 0 {
        lemma_jview_fields(fields.drop_last());
        assert forall|i: int|
            0 <= i < fields.len() implies jview_fields(fields)[i] == (
        fields[i].0@,
        jview(fields[i].1),
        ) by {
            if i < fields.len() - 1 {
                assert(fields.drop_last()[i] == fields[i]);
            }
        }
    }
}

// ---------- the text a document serializes to ----------

pub open spec fn hex_digit_char(d: int) -> char {
    if d == 0 { '0' } else if d == 1 { '1' } else if d == 2 { '2' } else if d == 3 { '3' }
    else if d == 4 { '4' } else if d == 5 { '5' } else if d == 6 { '6' } else if d == 7 { '7' }
    else if d == 8 { '8' } else if d == 9 { '9' } else if d == 10 { 'a' } else if d == 11 { 'b' }
    else if d == 12 { 'c' } else if d == 13 { 'd' } else if d == 14 { 'e' } else { 'f' }
}

/// How one character appears inside a JSON string literal: the quote and the
/// backslash are escaped, control characters by their short escape where one
/// exists and as a `\u00..` sequence otherwise, everything else stands as is.
pub open spec fn escape_char(c: char) -> Seq<char> {
    if c == '"' {
        seq!['\\', '"']
    } else if c == '\\' {
        seq!['\\', '\\']
    } else if c == '\u{8}' {
        seq!['\\', 'b']
    } else if c == '\u{9}' {
        seq!['\\', 't']
    } else if c == '\u{a}' {
        seq!['\\', 'n']
    } else if c == '\u{c}' {
        seq!['\\', 'f']
    } else if c == '\u{d}' {
        seq!['\\', 'r']
    } else if (c as u32) < 0x20 {
        seq!['\\', 'u', '0', '0', hex_digit_char(c as u32 as int / 16), hex_digit_char(c as u32 as int % 16)]
    } else {
        seq![c]
    }
}

pub open spec fn escape_string(s: Seq<char>) -> Seq<char>
    decreases s.len(),
{
    if s.len() == 0 {
        Seq::empty()
    } else {
        escape_string(s.drop_last()) + escape_char(s.last())
    }
}

/// The one text this library writes for a document: no blank space, members
/// in the order the tree holds them, strings escaped as `escape_char` says.
pub open spec fn json_text(j: JsonSpec) -> Seq<char>
    decreases j, 0int,
{
    match j {
        JsonSpec::Null => "null"@,
        JsonSpec::Bool(b) => if b { "true"@ } else { "false"@ },
        JsonSpec::Num(s) => s,
        JsonSpec::Str(s) => seq!['"'] + escape_string(s) + seq!['"'],
        JsonSpec::Arr(items) => seq!['['] + arr_text(items) + seq![']'],
        JsonSpec::Obj(fields) => seq!['{'] + obj_text(fields) + seq!['}'],
    }
}

pub open spec fn arr_text(items: Seq<JsonSpec>) -> Seq<char>
    decreases items, 0int,
{
    if items.len() == 0 {
        Seq::empty()
    } else if items.len() == 1 {
        json_text(items[0])
    } else {
        arr_text(items.drop_last()) + seq![','] + json_text(items.last())
    }
}

pub open spec fn member_text(key: Seq<char>, val: JsonSpec) -> Seq<char>
    decreases val, 1int,
{
    seq!['"'] + escape_string(key) + seq!['"', ':'] + json_text(val)
}

pub open spec fn obj_text(fields: Seq<(Seq<char>, JsonSpec)>) -> Seq<char>
    decreases fields, 2int,
{
    if fields.len() == 0 {
        Seq::empty()
    } else if fields.len() == 1 {
        member_text(fields[0].0, fields[0].1)
    } else {
        obj_text(fields.drop_last()) + seq![','] + member_text(fields.last().0, fields.last().1)
    }
}

proof fn lemma_escape_snoc(s: Seq<char>, i: int)
    requires
        0 <= i < s.len(),
    ensures
        escape_string(s.subrange(0, i + 1)) == escape_string(s.subrange(0, i)) + escape_char(s[i]),
{
    assert(s.subrange(0, i + 1).drop_last() =~= s.subrange(0, i));
    assert(s.subrange(0, i + 1).last() == s[i]);
}

proof fn lemma_arr_text_snoc(items: Seq<JsonSpec>, i: int)
    requires
        0 <= i < items.len(),
    ensures
        i == 0 ==> arr_text(items.subrange(0, 1)) == json_text(items[0]),
        i > 0 ==> arr_text(items.subrange(0, i + 1)) == arr_text(items.subrange(0, i)) + seq![',']
            + json_text(items[i]),
{
    assert(items.subrange(0, i + 1).drop_last() =~= items.subrange(0, i));
    assert(items.subrange(0, i + 1).last() == items[i]);
    if i == 0 {
        assert(items.subrange(0, 1)[0] == items[0]);
    }
}

proof fn lemma_obj_text_snoc(fields: Seq<(Seq<char>, JsonSpec)>, i: int)
    requires
        0 <= i < fields.len(),
    ensures
        i == 0 ==> obj_text(fields.subrange(0, 1)) == member_text(fields[0].0, fields[0].1),
        i > 0 ==> obj_text(fields.subrange(0, i + 1)) == obj_text(fields.subrange(0, i))
            + seq![','] + member_text(fields[i].0, fields[i].1),
{
    assert(fields.subrange(0, i + 1).drop_last() =~= fields.subrange(0, i));
    assert(fields.subrange(0, i + 1).last() == fields[i]);
    if i == 0 {
        assert(fields.subrange(0, 1)[0] == fields[0]);
    }
}

// ---------- writing the text ----------

fn hex_digit_str(d: u32) -> (r: &'static str)
    requires
        d < 16,
    ensures
        r@ == seq![hex_digit_char(d as int)],
{
    proof {
        reveal_strlit("0"); reveal_strlit("1"); reveal_strlit("2"); reveal_strlit("3");
        reveal_strlit("4"); reveal_strlit("5"); reveal_strlit("6"); reveal_strlit("7");
        reveal_strlit("8"); reveal_strlit("9"); reveal_strlit("a"); reveal_strlit("b");
        reveal_strlit("c"); reveal_strlit("d"); reveal_strlit("e"); reveal_strlit("f");
    }
    if d == 0 { "0" } else if d == 1 { "1" } else if d == 2 { "2" } else if d == 3 { "3" }
    else if d == 4 { "4" } else if d == 5 { "5" } else if d == 6 { "6" } else if d == 7 { "7" }
    else if d == 8 { "8" } else if d == 9 { "9" } else if d == 10 { "a" } else if d == 11 { "b" }
    else if d == 12 { "c" } else if d == 13 { "d" } else if d == 14 { "e" } else { "f" }
}

/// Appends one string, quoted and escaped, to `out`.
#[verifier::loop_isolation(false)]
fn append_json_string(s: &str, out: &mut String)
    ensures
        final(out)@ == old(out)@ + seq!['"'] + escape_string(s@) + seq!['"'],
{
    let ghost entry: Seq<char> = out@;
    out.append("\"");
    proof {
        reveal_strlit("\"");
        assert(out@ =~= entry + seq!['"']);
    }
    let n = s.unicode_len();
    let mut i: usize = 0;
    while i < n
        invariant
            n == s@.len(),
            0 <= i <= n,
            out@ == entry + seq!['"'] + escape_string(s@.subrange(0, i as int)),
        decreases n - i,
    {
        let ghost prefix: Seq<char> = s@.subrange(0, i as int);
        let c = s.get_char(i);
        let u = c as u32;
        if c == '"' {
            out.append("\\\"");
            proof { reveal_strlit("\\\""); }
        } else if c == '\\' {
            out.append("\\\\");
            proof { reveal_strlit("\\\\"); }
        } else if u == 0x8 {
            out.append("\\b");
            proof { reveal_strlit("\\b"); }
        } else if u == 0x9 {
            out.append("\\t");
            proof { reveal_strlit("\\t"); }
        } else if u == 0xa {
            out.append("\\n");
            proof { reveal_strlit("\\n"); }
        } else if u == 0xc {
            out.append("\\f");
            proof { reveal_strlit("\\f"); }
        } else if u == 0xd {
            out.append("\\r");
            proof { reveal_strlit("\\r"); }
        } else if u < 0x20 {
            out.append("\\u00");
            out.append(hex_digit_str(u / 16));
            out.append(hex_digit_str(u % 16));
            proof { reveal_strlit("\\u00"); }
        } else {
            let piece = s.substring_char(i, i + 1);
            out.append(piece);
            proof {
                assert(piece@ =~= seq![c]);
            }
        }
        proof {
            lemma_escape_snoc(s@, i as int);
            assert(out@ =~= entry + seq!['"'] + escape_string(s@.subrange(0, i + 1 as int)));
        }
        i = i + 1;
    }
    out.append("\"");
    proof {
        reveal_strlit("\"");
        assert(s@.subrange(0, n as int) =~= s@);
        assert(out@ =~= entry + seq!['"'] + escape_string(s@) + seq!['"']);
    }
}

/// Appends the text of `j` to `out`.
#[verifier::loop_isolation(false)]
pub fn append_json(j: &Json, out: &mut String)
    ensures
        final(out)@ == old(out)@ + json_text(j@),
    decreases *j,
{
    let ghost entry: Seq<char> = out@;
    match j {
        Json::Null => {
            out.append("null");
        },
        Json::Bool(b) => {
            if *b {
                out.append("true");
            } else {
                out.append("false");
            }
        },
        Json::Num(s) => {
            out.append(s.as_str());
        },
        Json::Str(s) => {
            append_json_string(s.as_str(), out);
        },
        Json::Arr(items) => {
            out.append("[");
            proof {
                reveal_strlit("[");
                lemma_jview_list(items@);
                assert(out@ =~= entry + seq!['[']);
                assert(jview_list(items@).subrange(0, 0) =~= Seq::<JsonSpec>::empty());
            }
            let ghost jitems: Seq<JsonSpec> = jview_list(items@);
            let n = items.len();
            let mut i: usize = 0;
            while i < n
                invariant
                    n == items@.len(),
                    0 <= i <= n,
                    jitems == jview_list(items@),
                    jitems.len() == n,
                    forall|k: int| 0 <= k < n ==> jitems[k] == jview(items@[k]),
                    out@ == entry + seq!['['] + arr_text(jitems.subrange(0, i as int)),
                decreases n - i,
            {
                if i > 0 {
                    out.append(",");
                    proof { reveal_strlit(","); }
                }
                proof {
                    assert(decreases_to!(*items => items[i as int]));
                }
                append_json(&items[i], out);
                proof {
                    lemma_arr_text_snoc(jitems, i as int);
                    assert(out@ =~= entry + seq!['['] + arr_text(jitems.subrange(0, i + 1 as int)));
                }
                i = i + 1;
            }
            out.append("]");
            proof {
                reveal_strlit("]");
                assert(jitems.subrange(0, n as int) =~= jitems);
                assert(out@ =~= entry + json_text(j@));
            }
        },
        Json::Obj(fields) => {
            out.append("{");
            proof {
                reveal_strlit("{");
                lemma_jview_fields(fields@);
                assert(out@ =~= entry + seq!['{']);
                assert(jview_fields(fields@).subrange(0, 0) =~= Seq::<(Seq<char>, JsonSpec)>::empty());
            }
            let ghost jfields: Seq<(Seq<char>, JsonSpec)> = jview_fields(fields@);
            let n = fields.len();
            let mut i: usize = 0;
            while i < n
                invariant
                    n == fields@.len(),
                    0 <= i <= n,
                    jfields == jview_fields(fields@),
                    jfields.len() == n,
                    forall|k: int|
                        0 <= k < n ==> jfields[k] == (fields@[k].0@, jview(fields@[k].1)),
                    out@ == entry + seq!['{'] + obj_text(jfields.subrange(0, i as int)),
                decreases n - i,
            {
                if i > 0 {
                    out.append(",");
                    proof { reveal_strlit(","); }
                }
                append_json_string(fields[i].0.as_str(), out);
                out.append(":");
                proof { reveal_strlit(":"); }
                proof {
                    assert(decreases_to!(*fields => fields[i as int]));
                }
                append_json(&fields[i].1, out);
                proof {
                    lemma_obj_text_snoc(jfields, i as int);
                    assert(out@ =~= entry + seq!['{'] + obj_text(jfields.subrange(0, i + 1 as int)));
                }
                i = i + 1;
            }
            out.append("}");
            proof {
                reveal_strlit("}");
                assert(jfields.subrange(0, n as int) =~= jfields);
                assert(out@ =~= entry + json_text(j@));
            }
        },
    }
}

/// The text of `j`, as the body of an outbound request.
pub fn json_to_string(j: &Json) -> (r: String)
    ensures
        r@ == json_text(j@),
{
    let mut out = String::new();
    append_json(j, &mut out);
    out
}

// ---------- numbers as text ----------

pub open spec fn is_digit(c: char) -> bool {
    48 <= c as int <= 57
}

pub open spec fn digit_val(c: char) -> nat {
    (c as int - 48) as nat
}

pub open spec fn digit_char(d: nat) -> char {
    if d == 0 { '0' } else if d == 1 { '1' } else if d == 2 { '2' } else if d == 3 { '3' }
    else if d == 4 { '4' } else if d == 5 { '5' } else if d == 6 { '6' } else if d == 7 { '7' }
    else if d == 8 { '8' } else { '9' }
}

pub open spec fn is_digits(s: Seq<char>) -> bool {
    s.len() > 0 && forall|i: int| 0 <= i < s.len() ==> is_digit(s[i])
}

pub open spec fn digits_val(s: Seq<char>) -> nat
    decreases s.len(),
{
    if s.len() == 0 {
        0
    } else {
        digits_val(s.drop_last()) * 10 + digit_val(s.last())
    }
}

/// The decimal digits of `n`, most significant first, no sign and no blanks.
pub open spec fn dec_digits(n: nat) -> Seq<char>
    decreases n,
{
    if n < 10 {
        seq![digit_char(n)]
    } else {
        dec_digits(n / 10) + seq![digit_char(n % 10)]
    }
}

/// The integer a number literal denotes, where the literal is a plain
/// decimal integer of at most eighteen digits; anything else - a fraction,
/// an exponent, or an overlong run of digits - is refused.
pub open spec fn int_text_val(s: Seq<char>) -> Option<int> {
    if is_digits(s) && s.len() <= 18 {
        Some(digits_val(s) as int)
    } else if s.len() >= 2 && s[0] == '-' && is_digits(s.skip(1)) && s.len() <= 19 {
        Some(-(digits_val(s.skip(1)) as int))
    } else {
        None
    }
}

pub open spec fn pow10(n: nat) -> nat
    decreases n,
{
    if n == 0 {
        1
    } else {
        10 * pow10((n - 1) as nat)
    }
}

proof fn lemma_pow10_mono(m: nat, n: nat)
    requires
        m <= n,
    ensures
        pow10(m) <= pow10(n),
    decreases n,
{
    if m < n {
        lemma_pow10_mono(m, (n - 1) as nat);
    }
}

fn digit_str(d: u64) -> (r: &'static str)
    requires
        d < 10,
    ensures
        r@ == seq![digit_char(d as nat)],
{
    proof {
        reveal_strlit("0"); reveal_strlit("1"); reveal_strlit("2"); reveal_strlit("3");
        reveal_strlit("4"); reveal_strlit("5"); reveal_strlit("6"); reveal_strlit("7");
        reveal_strlit("8"); reveal_strlit("9");
    }
    if d == 0 { "0" } else if d == 1 { "1" } else if d == 2 { "2" } else if d == 3 { "3" }
    else if d == 4 { "4" } else if d == 5 { "5" } else if d == 6 { "6" } else if d == 7 { "7" }
    else if d == 8 { "8" } else { "9" }
}

/// The decimal text of `n`.
pub fn u64_to_string(n: u64) -> (r: String)
    ensures
        r@ == dec_digits(n as nat),
    decreases n,
{
    if n < 10 {
        String::from_str(digit_str(n))
    } else {
        let mut r = u64_to_string(n / 10);
        r.append(digit_str(n % 10));
        r
    }
}

/// Reads a run of at most eighteen decimal digits.
#[verifier::loop_isolation(false)]
fn parse_digits_u64(s: &str) -> (r: Option<u64>)
    ensures
        (match r {
            Some(v) => is_digits(s@) && s@.len() <= 18 && v as nat == digits_val(s@),
            None => !(is_digits(s@) && s@.len() <= 18),
        }),
{
    let n = s.unicode_len();
    if n == 0 || n > 18 {
        return None;
    }
    let mut acc: u64 = 0;
    let mut i: usize = 0;
    proof {
        assert(s@.subrange(0, 0) =~= Seq::<char>::empty());
    }
    while i < n
        invariant
            0 <= i <= n,
            acc as nat == digits_val(s@.subrange(0, i as int)),
            acc < pow10(i as nat),
            forall|k: int| 0 <= k < i ==> is_digit(s@[k]),
        decreases n - i,
    {
        let c = s.get_char(i);
        let u = c as u32;
        if u < 48 || u > 57 {
            return None;
        }
        proof {
            lemma_pow10_mono(i as nat, 17);
            reveal_with_fuel(pow10, 19);
            assert(s@.subrange(0, i + 1 as int).drop_last() =~= s@.subrange(0, i as int));
            assert(s@.subrange(0, i + 1 as int).last() == s@[i as int]);
        }
        acc = acc * 10 + (u as u64 - 48);
        i = i + 1;
    }
    proof {
        assert(s@.subrange(0, n as int) =~= s@);
    }
    Some(acc)
}

/// Reads an optionally signed decimal integer literal, as `int_text_val` says.
fn parse_int_text(s: &str) -> (r: Option<i64>)
    ensures
        (match r {
            Some(v) => int_text_val(s@) == Some(v as int),
            None => int_text_val(s@) is None,
        }),
{
    let n = s.unicode_len();
    if n == 0 {
        return None;
    }
    if s.get_char(0) == '-' {
        if n < 2 {
            return None;
        }
        let digits = s.substring_char(1, n);
        proof {
            assert(digits@ =~= s@.skip(1));
            assert(!is_digits(s@));
        }
        match parse_digits_u64(digits) {
            Some(v) => {
                proof {
                    lemma_pow10_mono(digits@.len() as nat, 18);
                    reveal_with_fuel(pow10, 19);
                    lemma_digits_val_bound(digits@);
                }
                Some(-(v as i64))
            },
            None => None,
        }
    } else {
        proof {
            if s@.len() >= 2 && s@[0] == '-' {
                assert(false);
            }
        }
        match parse_digits_u64(s) {
            Some(v) => {
                proof {
                    lemma_pow10_mono(s@.len() as nat, 18);
                    reveal_with_fuel(pow10, 19);
                    lemma_digits_val_bound(s@);
                }
                Some(v as i64)
            },
            None => None,
        }
    }
}

proof fn lemma_digits_val_bound(s: Seq<char>)
    requires
        forall|i: int| 0 <= i < s.len() ==> is_digit(s[i]),
    ensures
        digits_val(s) < pow10(s.len() as nat),
    decreases s.len(),
{
    if s.len() > 0 {
        lemma_digits_val_bound(s.drop_last());
    }
}

// ---------- reading a document ----------

/// The first member of `fields` named `key`, if any.
pub open spec fn obj_lookup(fields: Seq<(Seq<char>, JsonSpec)>, key: Seq<char>) -> Option<JsonSpec>
    decreases fields.len(),
{
    if fields.len() == 0 {
        None
    } else if fields[0].0 == key {
        Some(fields[0].1)
    } else {
        obj_lookup(fields.drop_first(), key)
    }
}

/// The member named `key` of an object document; nothing on any other shape.
pub open spec fn spec_get(j: JsonSpec, key: Seq<char>) -> Option<JsonSpec> {
    match j {
        JsonSpec::Obj(fields) => obj_lookup(fields, key),
        _ => None,
    }
}

pub open spec fn spec_int_of(j: JsonSpec) -> Option<int> {
    match j {
        JsonSpec::Num(t) => int_text_val(t),
        _ => None,
    }
}

/// Whether two texts are the same sequence of characters.
#[verifier::loop_isolation(false)]
pub fn str_eq(a: &str, b: &str) -> (r: bool)
    ensures
        r == (a@ == b@),
{
    let alen = a.unicode_len();
    let blen = b.unicode_len();
    if alen != blen {
        proof {
            assert(a@ != b@);
        }
        return false;
    }
    let mut i: usize = 0;
    while i < alen
        invariant
            0 <= i <= alen,
            forall|k: int| 0 <= k < i ==> a@[k] == b@[k],
        decreases alen - i,
    {
        if a.get_char(i) != b.get_char(i) {
            proof {
                assert(a@[i as int] != b@[i as int]);
            }
            return false;
        }
        i = i + 1;
    }
    proof {
        assert(a@ =~= b@);
    }
    true
}

/// The first member of an object document named `key`.
#[verifier::loop_isolation(false)]
pub fn get_field<'a>(j: &'a Json, key: &str) -> (r: Option<&'a Json>)
    ensures
        (match r {
            Some(x) => spec_get(j@, key@) == Some(x@),
            None => spec_get(j@, key@) is None,
        }),
{
    match j {
        Json::Obj(fields) => {
            let ghost jfields: Seq<(Seq<char>, JsonSpec)> = jview_fields(fields@);
            proof {
                lemma_jview_fields(fields@);
                assert(jfields.skip(0) =~= jfields);
            }
            let n = fields.len();
            let mut i: usize = 0;
            while i < n
                invariant
                    0 <= i <= n,
                    obj_lookup(jfields, key@) == obj_lookup(jfields.skip(i as int), key@),
                decreases n - i,
            {
                if str_eq(fields[i].0.as_str(), key) {
                    proof {
                        assert(jfields.skip(i as int)[0] == jfields[i as int]);
                    }
                    return Some(&fields[i].1);
                }
                proof {
                    assert(jfields.skip(i as int)[0] == jfields[i as int]);
                    assert(jfields.skip(i as int).drop_first() =~= jfields.skip(i + 1 as int));
                }
                i = i + 1;
            }
            proof {
                assert(jfields.skip(n as int) =~= Seq::<(Seq<char>, JsonSpec)>::empty());
            }
            None
        },
        _ => None,
    }
}

/// The integer a number node carries, as `spec_int_of` says.
pub fn get_int(j: &Json) -> (r: Option<i64>)
    ensures
        (match r {
            Some(v) => spec_int_of(j@) == Some(v as int),
            None => spec_int_of(j@) is None,
        }),
{
    match j {
        Json::Num(t) => parse_int_text(t.as_str()),
        _ => None,
    }
}


// ---------- the parse boundary ----------

#[verifier::external_type_specification]
#[verifier::external_body]
pub struct ExValue(serde_json::Value);

/// The document a text denotes under serde_json's grammar, if any.
pub uninterp spec fn spec_parse_json(s: Seq<char>) -> Option<JsonSpec>;

/// What a parsed serde_json tree holds, in this library's document model.
pub uninterp spec fn value_tree(v: serde_json::Value) -> JsonSpec;

/// Relies on serde_json::from_str::<serde_json::Value>: whether a text is
/// valid JSON, and which document it denotes, depend on the text alone.
#[verifier::external_body]
fn parse_value(s: &str) -> (r: Option<serde_json::Value>)
    ensures
        (match r {
            Some(v) => spec_parse_json(s@) == Some(value_tree(v)),
            None => spec_parse_json(s@) is None,
        }),
{
    serde_json::from_str::<serde_json::Value>(s).ok()
}

/// Relies on serde_json::Value's public variants: each node moves to the
/// matching Json node, a number by its displayed literal.
#[verifier::external_body]
fn json_of_value(v: &serde_json::Value) -> (r: Json)
    ensures
        r@ == value_tree(*v),
{
    match v {
        serde_json::Value::Null => Json::Null,
        serde_json::Value::Bool(b) => Json::Bool(*b),
        serde_json::Value::Number(n) => Json::Num(n.to_string()),
        serde_json::Value::String(s) => Json::Str(s.clone()),
        serde_json::Value::Array(a) => Json::Arr(a.iter().map(json_of_value).collect()),
        serde_json::Value::Object(m) => Json::Obj(
            m.iter().map(|(k, w)| (k.clone(), json_of_value(w))).collect(),
        ),
    }
}

/// Parses a body text into a document, as `spec_parse_json` says.
pub fn parse_json(s: &str) -> (r: Option<Json>)
    ensures
        (match r {
            Some(j) => spec_parse_json(s@) == Some(j@),
            None => spec_parse_json(s@) is None,
        }),
{
    match parse_value(s) {
        Some(v) => Some(json_of_value(&v)),
        None => None,
    }
}

} // verus!
