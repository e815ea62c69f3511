//! Stable, lossless JSON serialization of intents.
//!
//! The wire format is a single JSON object with the intent's fields in a
//! fixed order and no whitespace. Strings escape `"` and `\` with a
//! backslash and carry every other character verbatim; numbers are plain
//! decimal integers. [`render_intent`] is the exact character sequence the
//! serializer emits, [`sp_intent`] the parser's meaning, and
//! [`lemma_round_trip`] proves that parsing a rendering yields the intent
//! back unchanged, field for field.

use crate::text::dec_digits;
use crate::text::digit_val;
use crate::text::digits_val;
use crate::text::int_digits;
use crate::text::is_digit_char;
use crate::text::push_i64_digits;
use crate::text::push_u64_digits;
use crate::text::string_from_chars;
use crate::types::Intent;
use crate::types::IntentModel;
use crate::types::ParamModel;
use crate::types::ParamValue;
use vstd::prelude::*;

verus! {

// --- rendering, as specification -----------------------------------------

/// The escape of one character: `"` and `\` get a backslash, everything
/// else stands for itself.
pub open spec fn esc_char(c: char) -> Seq<char> {
    if c == '"' {
        seq!['\\', '"']
    } else if c == '\\' {
        seq!['\\', '\\']
    } else {
        seq![c]
    }
}

/// The escaped body of a JSON string.
pub open spec fn esc(s: Seq<char>) -> Seq<char>
    decreases s.len(),
{
    if s.len() == 0 {
        Seq::empty()
    } else {
        esc_char(s[0]) + esc(s.drop_first())
    }
}

/// A JSON string: the escaped body between double quotes.
pub open spec fn quoted(s: Seq<char>) -> Seq<char> {
    seq!['"'] + esc(s) + seq!['"']
}

/// The rendering of one parameter value.
pub open spec fn pm_json(p: ParamModel) -> Seq<char> {
    match p {
        ParamModel::Null => "null"@,
        ParamModel::Bool(b) => if b {
            "true"@
        } else {
            "false"@
        },
        ParamModel::Int(n) => int_digits(n),
        ParamModel::Str(s) => quoted(s),
    }
}

/// The rendering of one `key:value` object entry.
pub open spec fn entry_json(p: (Seq<char>, ParamModel)) -> Seq<char> {
    quoted(p.0) + seq![':'] + pm_json(p.1)
}

/// The comma-separated entries of the parameter object.
pub open spec fn entries_json(ps: Seq<(Seq<char>, ParamModel)>) -> Seq<char>
    decreases ps.len(),
{
    if ps.len() == 0 {
        Seq::empty()
    } else if ps.len() == 1 {
        entry_json(ps[0])
    } else {
        entry_json(ps[0]) + seq![','] + entries_json(ps.drop_first())
    }
}

/// The parameter object.
pub open spec fn params_json(ps: Seq<(Seq<char>, ParamModel)>) -> Seq<char> {
    seq!['{'] + entries_json(ps) + seq!['}']
}

/// The rendering of the optional target module.
pub open spec fn module_json(m: Option<Seq<char>>) -> Seq<char> {
    match m {
        None => "null"@,
        Some(s) => quoted(s),
    }
}

/// The rendering of a boolean.
pub open spec fn bool_json(b: bool) -> Seq<char> {
    if b {
        "true"@
    } else {
        "false"@
    }
}

/// The exact character sequence of the serialized intent.
pub open spec fn render_intent(m: IntentModel) -> Seq<char> {
    "{\"id\":"@ + (quoted(m.id) + (",\"intent_type\":"@ + (quoted(m.intent_type) + (
    ",\"confidence\":"@ + (int_digits(m.confidence) + (",\"parameters\":"@ + (params_json(
        m.parameters,
    ) + (",\"reasoning\":"@ + (quoted(m.reasoning) + (",\"requires_permission\":"@ + (bool_json(
        m.requires_permission,
    ) + (",\"target_module\":"@ + (module_json(m.target_module) + (",\"created_at\":"@ + (
    int_digits(m.created_at) + seq!['}'])))))))))))))))
}

/// The models that an [`Intent`] value can carry: machine-representable
/// numeric fields.
pub open spec fn valid_model(m: IntentModel) -> bool {
    &&& 0 <= m.confidence <= u32::MAX
    &&& i64::MIN <= m.created_at <= i64::MAX
    &&& forall|k: int|
        0 <= k < m.parameters.len() ==> match (#[trigger] m.parameters[k]).1 {
            ParamModel::Int(n) => i64::MIN <= n <= i64::MAX,
            _ => true,
        }
}

/// Every intent value carries a valid model.
pub proof fn lemma_intent_model_valid(i: Intent)
    ensures
        valid_model(i@),
{
    assert forall|k: int| 0 <= k < i@.parameters.len() implies match (#[trigger] i@.parameters[k]).1 {
        ParamModel::Int(n) => i64::MIN <= n <= i64::MAX,
        _ => true,
    } by {
        assert(i@.parameters[k].1 == i.parameters@[k].1@);
    }
}

// --- the serializer -------------------------------------------------------

/// Escaping distributes over concatenation.
proof fn lemma_esc_concat(a: Seq<char>, b: Seq<char>)
    ensures
        esc(a + b) == esc(a) + esc(b),
    decreases a.len(),
{
    if a.len() == 0 {
        assert(a + b =~= b);
        assert(esc(a) + esc(b) =~= esc(b));
    } else {
        lemma_esc_concat(a.drop_first(), b);
        assert((a + b).drop_first() =~= a.drop_first() + b);
        assert((a + b)[0] == a[0]);
        assert(esc_char(a[0]) + (esc(a.drop_first()) + esc(b)) =~= (esc_char(a[0]) + esc(
            a.drop_first(),
        )) + esc(b));
    }
}

/// Appends the characters of `s` unchanged.
fn push_str_chars(out: &mut Vec<char>, s: &str)
    ensures
        final(out)@ == old(out)@ + s@,
{
    let n = s.unicode_len();
    let mut i: usize = 0;
    proof {
        assert(old(out)@ + s@.subrange(0, 0) =~= old(out)@);
    }
    while i < n
        invariant
            n == s@.len(),
            i <= n,
            out@ == old(out)@ + s@.subrange(0, i as int),
        decreases n - i,
    {
        out.push(s.get_char(i));
        i = i + 1;
        assert(out@ =~= old(out)@ + s@.subrange(0, i as int));
    }
    assert(out@ =~= old(out)@ + s@);
}

/// Appends the escaped body of `s`.
fn push_escaped(out: &mut Vec<char>, s: &str)
    ensures
        final(out)@ == old(out)@ + esc(s@),
{
    let n = s.unicode_len();
    let mut i: usize = 0;
    proof {
        assert(esc(s@.subrange(0, 0)) =~= Seq::<char>::empty());
        assert(old(out)@ + esc(s@.subrange(0, 0)) =~= old(out)@);
    }
    while i < n
        invariant
            n == s@.len(),
            i <= n,
            out@ == old(out)@ + esc(s@.subrange(0, i as int)),
        decreases n - i,
    {
        let c = s.get_char(i);
        if c == '"' {
            out.push('\\');
            out.push('"');
        } else if c == '\\' {
            out.push('\\');
            out.push('\\');
        } else {
            out.push(c);
        }
        proof {
            lemma_esc_concat(s@.subrange(0, i as int), seq![s@[i as int]]);
            assert(s@.subrange(0, i as int) + seq![s@[i as int]] =~= s@.subrange(0, i + 1));
            assert(seq![s@[i as int]].drop_first() =~= Seq::<char>::empty());
            assert(esc(Seq::<char>::empty()) =~= Seq::<char>::empty());
            assert(esc(seq![s@[i as int]]) =~= esc_char(s@[i as int]));
            assert(out@ =~= old(out)@ + esc(s@.subrange(0, i + 1)));
        }
        i = i + 1;
    }
    assert(s@.subrange(0, n as int) =~= s@);
}

/// Appends a JSON string holding `s`.
fn push_quoted(out: &mut Vec<char>, s: &str)
    ensures
        final(out)@ == old(out)@ + quoted(s@),
{
    out.push('"');
    push_escaped(out, s);
    out.push('"');
    assert(final(out)@ =~= old(out)@ + quoted(s@));
}

/// Appends the rendering of one parameter value.
fn push_param(out: &mut Vec<char>, p: &ParamValue)
    ensures
        final(out)@ == old(out)@ + pm_json(p@),
{
    match p {
        ParamValue::Null => push_str_chars(out, "null"),
        ParamValue::Bool(b) => {
            if *b {
                push_str_chars(out, "true")
            } else {
                push_str_chars(out, "false")
            }
        },
        ParamValue::Int(n) => push_i64_digits(out, *n),
        ParamValue::Str(s) => push_quoted(out, s.as_str()),
    }
}

/// Splitting one entry off the end of the object body.
proof fn lemma_entries_push(ps: Seq<(Seq<char>, ParamModel)>, p: (Seq<char>, ParamModel))
    ensures
        entries_json(ps.push(p)) == if ps.len() == 0 {
            entry_json(p)
        } else {
            entries_json(ps) + seq![','] + entry_json(p)
        },
    decreases ps.len(),
{
    let whole = ps.push(p);
    if ps.len() == 0 {
        assert(whole.len() == 1);
        assert(whole[0] == p);
        assert(entries_json(whole) =~= entry_json(p));
    } else {
        lemma_entries_push(ps.drop_first(), p);
        assert(whole.drop_first() =~= ps.drop_first().push(p));
        assert(whole[0] == ps[0]);
        if ps.len() == 1 {
            assert(ps.drop_first().len() == 0);
            assert(entries_json(whole) == entry_json(ps[0]) + seq![','] + entries_json(
                whole.drop_first(),
            ));
            assert(entries_json(whole.drop_first()) == entry_json(p));
            assert(entries_json(ps) =~= entry_json(ps[0]));
        } else {
            assert(entries_json(whole) == entry_json(ps[0]) + seq![','] + entries_json(
                whole.drop_first(),
            ));
            assert(entry_json(ps[0]) + seq![','] + (entries_json(ps.drop_first()) + seq![',']
                + entry_json(p)) =~= (entry_json(ps[0]) + seq![','] + entries_json(ps.drop_first()))
                + seq![','] + entry_json(p));
        }
    }
}

/// The parameters of `v`, as the intent model carries them.
pub open spec fn params_model(v: Seq<(String, ParamValue)>) -> Seq<(Seq<char>, ParamModel)> {
    v.map_values(|p: (String, ParamValue)| (p.0@, p.1@))
}

/// Appends the parameter object.
fn push_params(out: &mut Vec<char>, ps: &Vec<(String, ParamValue)>)
    ensures
        final(out)@ == old(out)@ + params_json(params_model(ps@)),
{
    out.push('{');
    let n = ps.len();
    let mut i: usize = 0;
    proof {
        assert(params_model(ps@.subrange(0, 0)) =~= Seq::<(Seq<char>, ParamModel)>::empty());
        assert(entries_json(params_model(ps@.subrange(0, 0))) =~= Seq::<char>::empty());
        assert(out@ =~= old(out)@ + seq!['{'] + entries_json(params_model(ps@.subrange(0, 0))));
    }
    while i < n
        invariant
            n == ps@.len(),
            i <= n,
            out@ == old(out)@ + seq!['{'] + entries_json(params_model(ps@.subrange(0, i as int))),
        decreases n - i,
    {
        if i > 0 {
            out.push(',');
        }
        push_quoted(out, ps[i].0.as_str());
        out.push(':');
        push_param(out, &ps[i].1);
        proof {
            let pre = params_model(ps@.subrange(0, i as int));
            let p = (ps@[i as int].0@, ps@[i as int].1@);
            lemma_entries_push(pre, p);
            assert(params_model(ps@.subrange(0, i + 1)) =~= pre.push(p));
            assert(pre.len() == i);
            if i > 0 {
                assert(out@ =~= old(out)@ + seq!['{'] + entries_json(
                    params_model(ps@.subrange(0, i + 1)),
                ));
            } else {
                assert(out@ =~= old(out)@ + seq!['{'] + entries_json(
                    params_model(ps@.subrange(0, i + 1)),
                ));
            }
        }
        i = i + 1;
    }
    out.push('}');
    proof {
        assert(ps@.subrange(0, n as int) =~= ps@);
        assert(final(out)@ =~= old(out)@ + params_json(params_model(ps@)));
    }
}

/// Serializes the intent to its stable JSON rendering.
#[verifier::rlimit(80)]
pub fn render_intent_string(intent: &Intent) -> (r: String)
    ensures
        r@ == render_intent(intent@),
{
    let mut out: Vec<char> = Vec::new();
    push_str_chars(&mut out, "{\"id\":");
    push_quoted(&mut out, intent.id.as_str());
    push_str_chars(&mut out, ",\"intent_type\":");
    push_quoted(&mut out, intent.intent_type.as_str());
    push_str_chars(&mut out, ",\"confidence\":");
    push_u64_digits(&mut out, intent.confidence as u64);
    push_str_chars(&mut out, ",\"parameters\":");
    push_params(&mut out, &intent.parameters);
    push_str_chars(&mut out, ",\"reasoning\":");
    push_quoted(&mut out, intent.reasoning.as_str());
    push_str_chars(
        &mut out,
        if intent.requires_permission {
            ",\"requires_permission\":true"
        } else {
            ",\"requires_permission\":false"
        },
    );
    push_str_chars(&mut out, ",\"target_module\":");
    match &intent.target_module {
        None => push_str_chars(&mut out, "null"),
        Some(m) => push_quoted(&mut out, m.as_str()),
    }
    push_str_chars(&mut out, ",\"created_at\":");
    push_i64_digits(&mut out, intent.created_at);
    out.push('}');
    proof {
        assert(",\"requires_permission\":true"@ =~= ",\"requires_permission\":"@ + "true"@) by {
            reveal_strlit(",\"requires_permission\":true");
            reveal_strlit(",\"requires_permission\":");
            reveal_strlit("true");
        }
        assert(",\"requires_permission\":false"@ =~= ",\"requires_permission\":"@ + "false"@) by {
            reveal_strlit(",\"requires_permission\":false");
            reveal_strlit(",\"requires_permission\":");
            reveal_strlit("false");
        }
        assert(int_digits(intent@.confidence) == dec_digits(intent.confidence as nat));
        assert(out@ =~= render_intent(intent@));
    }
    string_from_chars(&out)
}

// --- parsing, as specification -------------------------------------------

/// Consumes the exact literal `lit`, yielding the remainder.
pub open spec fn sp_lit(s: Seq<char>, lit: Seq<char>) -> Option<Seq<char>> {
    if lit.is_prefix_of(s) {
        Some(s.skip(lit.len() as int))
    } else {
        None
    }
}

/// Consumes a string body up to its closing quote, undoing the escapes;
/// only `\"` and `\\` are accepted escapes.
pub open spec fn sp_str_body(s: Seq<char>) -> Option<(Seq<char>, Seq<char>)>
    decreases s.len(),
{
    if s.len() == 0 {
        None
    } else if s[0] == '"' {
        Some((Seq::empty(), s.drop_first()))
    } else if s[0] == '\\' {
        if s.len() >= 2 && (s[1] == '"' || s[1] == '\\') {
            match sp_str_body(s.skip(2)) {
                Some(tr) => Some((seq![s[1]] + tr.0, tr.1)),
                None => None,
            }
        } else {
            None
        }
    } else {
        match sp_str_body(s.drop_first()) {
            Some(tr) => Some((seq![s[0]] + tr.0, tr.1)),
            None => None,
        }
    }
}

/// Consumes a quoted JSON string.
pub open spec fn sp_string(s: Seq<char>) -> Option<(Seq<char>, Seq<char>)> {
    if s.len() > 0 && s[0] == '"' {
        sp_str_body(s.drop_first())
    } else {
        None
    }
}

/// Splits off the maximal leading run of decimal digits.
pub open spec fn sp_digits(s: Seq<char>) -> (Seq<char>, Seq<char>)
    decreases s.len(),
{
    if s.len() > 0 && is_digit_char(s[0]) {
        let dr = sp_digits(s.drop_first());
        (seq![s[0]] + dr.0, dr.1)
    } else {
        (Seq::empty(), s)
    }
}

/// Consumes a canonical natural number: at least one digit, no leading
/// zero except for zero itself.
pub open spec fn sp_nat(s: Seq<char>) -> Option<(int, Seq<char>)> {
    let dr = sp_digits(s);
    if dr.0.len() == 0 {
        None
    } else if dr.0[0] == '0' && dr.0.len() > 1 {
        None
    } else {
        Some((digits_val(dr.0), dr.1))
    }
}

/// Consumes a canonical integer: an optional minus sign (never on zero)
/// before a canonical natural number.
pub open spec fn sp_int(s: Seq<char>) -> Option<(int, Seq<char>)> {
    if s.len() > 0 && s[0] == '-' {
        match sp_nat(s.drop_first()) {
            Some(vr) => if vr.0 == 0 {
                None
            } else {
                Some((-vr.0, vr.1))
            },
            None => None,
        }
    } else {
        sp_nat(s)
    }
}

/// A canonical natural number that fits the confidence field.
pub open spec fn sp_u32(s: Seq<char>) -> Option<(int, Seq<char>)> {
    match sp_nat(s) {
        Some(vr) => if vr.0 <= u32::MAX {
            Some(vr)
        } else {
            None
        },
        None => None,
    }
}

/// A canonical integer that fits a 64-bit signed value.
pub open spec fn sp_i64(s: Seq<char>) -> Option<(int, Seq<char>)> {
    match sp_int(s) {
        Some(vr) => if i64::MIN <= vr.0 <= i64::MAX {
            Some(vr)
        } else {
            None
        },
        None => None,
    }
}

/// Consumes `true` or `false`.
pub open spec fn sp_bool(s: Seq<char>) -> Option<(bool, Seq<char>)> {
    if "true"@.is_prefix_of(s) {
        Some((true, s.skip("true"@.len() as int)))
    } else if "false"@.is_prefix_of(s) {
        Some((false, s.skip("false"@.len() as int)))
    } else {
        None
    }
}

/// Consumes one parameter value, dispatching on its first character.
pub open spec fn sp_param(s: Seq<char>) -> Option<(ParamModel, Seq<char>)> {
    if s.len() == 0 {
        None
    } else if s[0] == '"' {
        match sp_string(s) {
            Some(xr) => Some((ParamModel::Str(xr.0), xr.1)),
            None => None,
        }
    } else if s[0] == 'n' {
        match sp_lit(s, "null"@) {
            Some(r) => Some((ParamModel::Null, r)),
            None => None,
        }
    } else if s[0] == 't' || s[0] == 'f' {
        match sp_bool(s) {
            Some(br) => Some((ParamModel::Bool(br.0), br.1)),
            None => None,
        }
    } else {
        match sp_i64(s) {
            Some(vr) => Some((ParamModel::Int(vr.0), vr.1)),
            None => None,
        }
    }
}

/// Consumes one or more `key:value` entries up to and including the
/// closing brace. `fuel` bounds the recursion; any fuel at least the
/// number of entries behaves alike.
pub open spec fn sp_entries(s: Seq<char>, fuel: nat) -> Option<
    (Seq<(Seq<char>, ParamModel)>, Seq<char>),
>
    decreases fuel,
{
    if fuel == 0 {
        None
    } else {
        match sp_string(s) {
            None => None,
            Some(kr) => {
                let k = kr.0;
                let r1 = kr.1;
                if r1.len() > 0 && r1[0] == ':' {
                    match sp_param(r1.drop_first()) {
                        None => None,
                        Some(vr) => {
                            let p = vr.0;
                            let r2 = vr.1;
                            if r2.len() > 0 && r2[0] == ',' {
                                match sp_entries(r2.drop_first(), (fuel - 1) as nat) {
                                    None => None,
                                    Some(pr) => Some((seq![(k, p)] + pr.0, pr.1)),
                                }
                            } else if r2.len() > 0 && r2[0] == '}' {
                                Some((seq![(k, p)], r2.drop_first()))
                            } else {
                                None
                            }
                        },
                    }
                } else {
                    None
                }
            },
        }
    }
}

/// Consumes the parameter object, brace to brace.
pub open spec fn sp_params(s: Seq<char>) -> Option<(Seq<(Seq<char>, ParamModel)>, Seq<char>)> {
    if s.len() >= 2 && s[0] == '{' && s[1] == '}' {
        Some((Seq::empty(), s.skip(2)))
    } else if s.len() > 0 && s[0] == '{' {
        sp_entries(s.drop_first(), s.len() as nat)
    } else {
        None
    }
}

/// Consumes the target module: `null` or a string.
pub open spec fn sp_module(s: Seq<char>) -> Option<(Option<Seq<char>>, Seq<char>)> {
    if s.len() > 0 && s[0] == 'n' {
        match sp_lit(s, "null"@) {
            Some(r) => Some((None, r)),
            None => None,
        }
    } else {
        match sp_string(s) {
            Some(xr) => Some((Some(xr.0), xr.1)),
            None => None,
        }
    }
}

// --- parsing a rendering yields the value back ---------------------------

proof fn lemma_sp_lit_of(lit: Seq<char>, rest: Seq<char>)
    ensures
        sp_lit(lit + rest, lit) == Some(rest),
{
    let s = lit + rest;
    assert(s.subrange(0, lit.len() as int) =~= lit);
    assert(lit.is_prefix_of(s));
    assert(s.skip(lit.len() as int) =~= rest);
}

proof fn lemma_sp_str_body_of(x: Seq<char>, rest: Seq<char>)
    ensures
        sp_str_body(esc(x) + seq!['"'] + rest) == Some((x, rest)),
    decreases x.len(),
{
    let s = esc(x) + seq!['"'] + rest;
    if x.len() == 0 {
        assert(esc(x) =~= Seq::<char>::empty());
        assert(s =~= seq!['"'] + rest);
        assert(s[0] == '"');
        assert(s.drop_first() =~= rest);
        assert(sp_str_body(s) == Some((Seq::<char>::empty(), rest)));
        assert(x =~= Seq::<char>::empty());
    } else {
        let x1 = x.drop_first();
        lemma_sp_str_body_of(x1, rest);
        assert(esc(x) == esc_char(x[0]) + esc(x1));
        if x[0] == '"' || x[0] == '\\' {
            assert(esc_char(x[0]) =~= seq!['\\', x[0]]);
            assert(s[0] == '\\');
            assert(s[1] == x[0]);
            assert(s.len() >= 2);
            assert(s.skip(2) =~= esc(x1) + seq!['"'] + rest);
            assert(sp_str_body(s) == Some((seq![x[0]] + x1, rest)));
            assert(seq![x[0]] + x1 =~= x);
        } else {
            assert(esc_char(x[0]) =~= seq![x[0]]);
            assert(s[0] == x[0]);
            assert(s.drop_first() =~= esc(x1) + seq!['"'] + rest);
            assert(sp_str_body(s) == Some((seq![x[0]] + x1, rest)));
            assert(seq![x[0]] + x1 =~= x);
        }
    }
}

proof fn lemma_sp_string_of(x: Seq<char>, rest: Seq<char>)
    ensures
        sp_string(quoted(x) + rest) == Some((x, rest)),
{
    let s = quoted(x) + rest;
    assert(s[0] == '"');
    assert(s.drop_first() =~= esc(x) + seq!['"'] + rest);
    lemma_sp_str_body_of(x, rest);
}

proof fn lemma_sp_digits_of(d: Seq<char>, rest: Seq<char>)
    requires
        forall|i: int| 0 <= i < d.len() ==> is_digit_char(#[trigger] d[i]),
        rest.len() > 0 ==> !is_digit_char(rest[0]),
    ensures
        sp_digits(d + rest) == (d, rest),
    decreases d.len(),
{
    let s = d + rest;
    if d.len() == 0 {
        assert(s =~= rest);
        if s.len() > 0 {
            assert(!is_digit_char(s[0]));
        }
        assert(sp_digits(s).0 =~= d);
    } else {
        lemma_sp_digits_of(d.drop_first(), rest);
        assert(s[0] == d[0]);
        assert(is_digit_char(s[0]));
        assert(s.drop_first() =~= d.drop_first() + rest);
        assert(seq![d[0]] + d.drop_first() =~= d);
    }
}

proof fn lemma_sp_nat_of(n: nat, rest: Seq<char>)
    requires
        rest.len() > 0 ==> !is_digit_char(rest[0]),
    ensures
        sp_nat(dec_digits(n) + rest) == Some((n as int, rest)),
{
    crate::text::lemma_dec_digits_shape(n);
    crate::text::lemma_digits_val_of_dec_digits(n);
    lemma_sp_digits_of(dec_digits(n), rest);
}

proof fn lemma_sp_int_of(v: int, rest: Seq<char>)
    requires
        rest.len() > 0 ==> !is_digit_char(rest[0]),
    ensures
        sp_int(int_digits(v) + rest) == Some((v, rest)),
{
    let s = int_digits(v) + rest;
    if v < 0 {
        lemma_sp_nat_of((-v) as nat, rest);
        assert(s[0] == '-');
        assert(s.drop_first() =~= dec_digits((-v) as nat) + rest);
    } else {
        crate::text::lemma_dec_digits_shape(v as nat);
        assert(s[0] == dec_digits(v as nat)[0]);
        assert(is_digit_char(s[0]));
        assert(s[0] != '-') by {
            assert('-' as int == 45 && '0' as int == 48 && '9' as int == 57);
        }
        lemma_sp_nat_of(v as nat, rest);
    }
}

proof fn lemma_sp_bool_of(b: bool, rest: Seq<char>)
    ensures
        sp_bool(bool_json(b) + rest) == Some((b, rest)),
{
    reveal_strlit("true");
    reveal_strlit("false");
    let s = bool_json(b) + rest;
    if b {
        assert("true"@.is_prefix_of(s)) by {
            assert(s.subrange(0, 4) =~= "true"@);
        }
        assert(s.skip(4) =~= rest);
    } else {
        assert(!"true"@.is_prefix_of(s)) by {
            assert(s[0] == 'f');
            assert("true"@[0] == 't');
        }
        assert("false"@.is_prefix_of(s)) by {
            assert(s.subrange(0, 5) =~= "false"@);
        }
        assert(s.skip(5) =~= rest);
    }
}

proof fn lemma_sp_param_of(p: ParamModel, rest: Seq<char>)
    requires
        rest.len() > 0,
        !is_digit_char(rest[0]),
        (match p {
            ParamModel::Int(n) => i64::MIN <= n <= i64::MAX,
            _ => true,
        }),
    ensures
        sp_param(pm_json(p) + rest) == Some((p, rest)),
{
    let s = pm_json(p) + rest;
    reveal_strlit("null");
    reveal_strlit("true");
    reveal_strlit("false");
    match p {
        ParamModel::Null => {
            assert(s[0] == 'n');
            assert(s[0] != '"');
            lemma_sp_lit_of("null"@, rest);
        },
        ParamModel::Bool(b) => {
            assert(s[0] == (if b {
                't'
            } else {
                'f'
            }));
            lemma_sp_bool_of(b, rest);
        },
        ParamModel::Int(n) => {
            crate::text::lemma_dec_digits_shape((if n < 0 {
                -n
            } else {
                n
            }) as nat);
            assert(s[0] == int_digits(n)[0]);
            if n < 0 {
                assert(s[0] == '-');
            } else {
                assert(is_digit_char(s[0]));
            }
            assert(s[0] != '"' && s[0] != 'n' && s[0] != 't' && s[0] != 'f') by {
                assert('-' as int == 45 && '"' as int == 34 && 'n' as int == 110 && 't' as int
                    == 116 && 'f' as int == 102 && '0' as int == 48 && '9' as int == 57);
            }
            lemma_sp_int_of(n, rest);
        },
        ParamModel::Str(x) => {
            assert(s[0] == '"');
            lemma_sp_string_of(x, rest);
        },
    }
}

proof fn lemma_entries_json_len(ps: Seq<(Seq<char>, ParamModel)>)
    ensures
        entries_json(ps).len() >= ps.len(),
    decreases ps.len(),
{
    if ps.len() > 1 {
        lemma_entries_json_len(ps.drop_first());
    }
}

#[verifier::rlimit(60)]
proof fn lemma_sp_entries_of(ps: Seq<(Seq<char>, ParamModel)>, rest: Seq<char>, fuel: nat)
    requires
        ps.len() >= 1,
        fuel >= ps.len(),
        forall|k: int|
            0 <= k < ps.len() ==> match (#[trigger] ps[k]).1 {
                ParamModel::Int(n) => i64::MIN <= n <= i64::MAX,
                _ => true,
            },
    ensures
        sp_entries(entries_json(ps) + seq!['}'] + rest, fuel) == Some((ps, rest)),
    decreases ps.len(),
{
    let s = entries_json(ps) + seq!['}'] + rest;
    let k = ps[0].0;
    let v = ps[0].1;
    if ps.len() == 1 {
        assert(entries_json(ps) == entry_json(ps[0]));
        assert(s =~= quoted(k) + (seq![':'] + (pm_json(v) + (seq!['}'] + rest))));
        lemma_sp_string_of(k, seq![':'] + (pm_json(v) + (seq!['}'] + rest)));
        let r1 = seq![':'] + (pm_json(v) + (seq!['}'] + rest));
        assert(r1[0] == ':');
        assert(r1.drop_first() =~= pm_json(v) + (seq!['}'] + rest));
        lemma_sp_param_of(v, seq!['}'] + rest);
        let r2 = seq!['}'] + rest;
        assert(r2[0] == '}');
        assert(r2[0] != ',');
        assert(r2.drop_first() =~= rest);
        assert(sp_entries(s, fuel) == Some((seq![(k, v)], rest)));
        assert(seq![(k, v)] =~= ps);
    } else {
        let tail = ps.drop_first();
        assert(entries_json(ps) == entry_json(ps[0]) + seq![','] + entries_json(tail));
        let after_comma = entries_json(tail) + seq!['}'] + rest;
        assert(s =~= quoted(k) + (seq![':'] + (pm_json(v) + (seq![','] + after_comma))));
        lemma_sp_string_of(k, seq![':'] + (pm_json(v) + (seq![','] + after_comma)));
        let r1 = seq![':'] + (pm_json(v) + (seq![','] + after_comma));
        assert(r1[0] == ':');
        assert(r1.drop_first() =~= pm_json(v) + (seq![','] + after_comma));
        lemma_sp_param_of(v, seq![','] + after_comma);
        let r2 = seq![','] + after_comma;
        assert(r2[0] == ',');
        assert(r2.drop_first() =~= after_comma);
        assert(forall|j: int|
            0 <= j < tail.len() ==> match (#[trigger] tail[j]).1 {
                ParamModel::Int(n) => i64::MIN <= n <= i64::MAX,
                _ => true,
            }) by {
            assert(forall|j: int| 0 <= j < tail.len() ==> tail[j] == ps[j + 1]);
        }
        lemma_sp_entries_of(tail, rest, (fuel - 1) as nat);
        assert(sp_entries(s, fuel) == Some((seq![(k, v)] + tail, rest)));
        assert(seq![(k, v)] + tail =~= ps);
    }
}

proof fn lemma_sp_params_of(ps: Seq<(Seq<char>, ParamModel)>, rest: Seq<char>)
    requires
        forall|k: int|
            0 <= k < ps.len() ==> match (#[trigger] ps[k]).1 {
                ParamModel::Int(n) => i64::MIN <= n <= i64::MAX,
                _ => true,
            },
    ensures
        sp_params(params_json(ps) + rest) == Some((ps, rest)),
{
    let s = params_json(ps) + rest;
    assert(s[0] == '{');
    if ps.len() == 0 {
        assert(entries_json(ps) =~= Seq::<char>::empty());
        assert(s =~= seq!['{', '}'] + rest);
        assert(s[1] == '}');
        assert(s.skip(2) =~= rest);
        assert(sp_params(s) == Some((Seq::<(Seq<char>, ParamModel)>::empty(), rest)));
        assert(ps =~= Seq::<(Seq<char>, ParamModel)>::empty());
    } else {
        assert(entries_json(ps)[0] == quoted(ps[0].0)[0]) by {
            if ps.len() == 1 {
                assert(entries_json(ps) == entry_json(ps[0]));
            }
        }
        assert(s[1] == '"');
        assert(s[1] != '}');
        assert(s.drop_first() =~= entries_json(ps) + seq!['}'] + rest);
        lemma_entries_json_len(ps);
        lemma_sp_entries_of(ps, rest, s.len() as nat);
    }
}

/// Parsing the rendering of any representable intent model yields exactly
/// that model: serialization is lossless, field for field.
#[verifier::rlimit(80)]
pub proof fn lemma_round_trip(m: IntentModel)
    requires
        valid_model(m),
    ensures
        sp_intent(render_intent(m)) == Some(m),
{
    let t16 = seq!['}'];
    let t15 = int_digits(m.created_at) + t16;
    let t14 = ",\"created_at\":"@ + t15;
    let t13 = module_json(m.target_module) + t14;
    let t12 = ",\"target_module\":"@ + t13;
    let t11 = bool_json(m.requires_permission) + t12;
    let t10 = ",\"requires_permission\":"@ + t11;
    let t9 = quoted(m.reasoning) + t10;
    let t8 = ",\"reasoning\":"@ + t9;
    let t7 = params_json(m.parameters) + t8;
    let t6 = ",\"parameters\":"@ + t7;
    let t5 = int_digits(m.confidence) + t6;
    let t4 = ",\"confidence\":"@ + t5;
    let t3 = quoted(m.intent_type) + t4;
    let t2 = ",\"intent_type\":"@ + t3;
    let t1 = quoted(m.id) + t2;
    let s = render_intent(m);
    assert(s == "{\"id\":"@ + t1);

    lemma_sp_lit_of("{\"id\":"@, t1);
    lemma_sp_string_of(m.id, t2);
    lemma_sp_lit_of(",\"intent_type\":"@, t3);
    lemma_sp_string_of(m.intent_type, t4);
    lemma_sp_lit_of(",\"confidence\":"@, t5);
    assert(t6.len() > 0 && !is_digit_char(t6[0])) by {
        reveal_strlit(",\"parameters\":");
        assert(t6[0] == ',');
        assert(',' as int == 44 && '0' as int == 48 && '9' as int == 57);
    }
    assert(int_digits(m.confidence) == dec_digits(m.confidence as nat));
    lemma_sp_nat_of(m.confidence as nat, t6);
    assert(sp_u32(t5) == Some((m.confidence, t6)));
    lemma_sp_lit_of(",\"parameters\":"@, t7);
    lemma_sp_params_of(m.parameters, t8);
    lemma_sp_lit_of(",\"reasoning\":"@, t9);
    lemma_sp_string_of(m.reasoning, t10);
    lemma_sp_lit_of(",\"requires_permission\":"@, t11);
    lemma_sp_bool_of(m.requires_permission, t12);
    lemma_sp_lit_of(",\"target_module\":"@, t13);
    assert(sp_module(t13) == Some((m.target_module, t14))) by {
        reveal_strlit("null");
        match m.target_module {
            None => {
                assert(t13 =~= "null"@ + t14);
                assert(t13[0] == 'n');
                lemma_sp_lit_of("null"@, t14);
            },
            Some(x) => {
                assert(t13[0] == '"');
                assert(t13[0] != 'n');
                lemma_sp_string_of(x, t14);
            },
        }
    }
    lemma_sp_lit_of(",\"created_at\":"@, t15);
    assert(t16.len() > 0 && !is_digit_char(t16[0])) by {
        assert('}' as int == 125);
    }
    lemma_sp_int_of(m.created_at, t16);
    assert(sp_i64(t15) == Some((m.created_at, t16)));
    assert(t16.len() == 1 && t16[0] == '}');
}

// --- the parser -----------------------------------------------------------

fn is_digit(c: char) -> (r: bool)
    ensures
        r == is_digit_char(c),
{
    let n = c as u32;
    48 <= n && n <= 57
}

fn digit_num(c: char) -> (r: u64)
    requires
        is_digit_char(c),
    ensures
        r == digit_val(c),
{
    (c as u32 - 48) as u64
}

/// Consumes the literal `lit` at `pos`, returning the position after it.
fn expect_lit(v: &Vec<char>, pos: usize, lit: &str) -> (r: Option<usize>)
    requires
        pos <= v@.len(),
    ensures
        ({
            let sp = sp_lit(v@.skip(pos as int), lit@);
            match r {
                Some(p) => sp is Some && sp->0 == v@.skip(p as int) && p == pos + lit@.len() && pos
                    <= p <= v@.len(),
                None => sp is None,
            }
        }),
{
    let ghost s = v@.skip(pos as int);
    let ln = lit.unicode_len();
    if v.len() - pos < ln {
        proof {
            assert(!lit@.is_prefix_of(s));
        }
        return None;
    }
    let mut j: usize = 0;
    while j < ln
        invariant
            pos <= v@.len(),
            s == v@.skip(pos as int),
            ln == lit@.len(),
            pos + ln <= v@.len(),
            v@.len() <= usize::MAX,
            j <= ln,
            forall|t: int| 0 <= t < j ==> s[t] == lit@[t],
        decreases ln - j,
    {
        if v[pos + j] != lit.get_char(j) {
            proof {
                assert(s[j as int] == v@[pos + j]);
                assert(s.subrange(0, ln as int)[j as int] != lit@[j as int]);
                assert(!lit@.is_prefix_of(s));
            }
            return None;
        }
        proof {
            assert(s[j as int] == v@[pos + j]);
        }
        j = j + 1;
    }
    proof {
        assert(s.subrange(0, ln as int) =~= lit@);
        assert(lit@.is_prefix_of(s));
        assert(s.skip(ln as int) =~= v@.skip(pos + ln));
    }
    Some(pos + ln)
}

/// Consumes a quoted string at `pos`, undoing escapes.
fn parse_string(v: &Vec<char>, pos: usize) -> (r: Option<(String, usize)>)
    requires
        pos <= v@.len(),
    ensures
        ({
            let sp = sp_string(v@.skip(pos as int));
            match r {
                Some(xp) => sp is Some && (sp->0).0 == xp.0@ && (sp->0).1 == v@.skip(xp.1 as int)
                    && pos < xp.1 <= v@.len(),
                None => sp is None,
            }
        }),
{
    let n = v.len();
    if pos >= n || v[pos] != '"' {
        proof {
            if pos < n {
                assert(v@.skip(pos as int)[0] == v@[pos as int]);
            }
        }
        return None;
    }
    proof {
        assert(v@.skip(pos as int)[0] == v@[pos as int]);
        assert(v@.skip(pos as int).drop_first() =~= v@.skip(pos + 1));
    }
    let mut out: Vec<char> = Vec::new();
    let mut cur: usize = pos + 1;
    loop
        invariant
            n == v@.len(),
            pos + 1 <= cur <= n,
            sp_string(v@.skip(pos as int)) == ({
                let inner = sp_str_body(v@.skip(cur as int));
                match inner {
                    Some(tr) => Some((out@ + tr.0, tr.1)),
                    None => None,
                }
            }),
        decreases n - cur,
    {
        if cur >= n {
            proof {
                assert(v@.skip(cur as int) =~= Seq::<char>::empty());
                assert(sp_str_body(v@.skip(cur as int)) is None);
            }
            return None;
        }
        let ghost scur = v@.skip(cur as int);
        proof {
            assert(scur[0] == v@[cur as int]);
            assert(scur.drop_first() =~= v@.skip(cur + 1));
        }
        let c = v[cur];
        if c == '"' {
            proof {
                assert(sp_str_body(scur) == Some((Seq::<char>::empty(), v@.skip(cur + 1))));
                assert(out@ + Seq::<char>::empty() =~= out@);
            }
            let x = crate::text::string_from_chars(&out);
            return Some((x, cur + 1));
        } else if c == '\\' {
            if cur + 1 >= n {
                proof {
                    assert(sp_str_body(scur) is None);
                }
                return None;
            }
            proof {
                assert(scur[1] == v@[cur + 1]);
                assert(scur.skip(2) =~= v@.skip(cur + 2));
            }
            let d = v[cur + 1];
            if d == '"' || d == '\\' {
                let ghost pre_out = out@;
                out.push(d);
                proof {
                    assert(forall|t: Seq<char>| #[trigger] (out@ + t) =~= pre_out + (seq![d] + t));
                }
                cur = cur + 2;
            } else {
                proof {
                    assert(sp_str_body(scur) is None);
                }
                return None;
            }
        } else {
            out.push(c);
            cur = cur + 1;
        }
    }
}

/// Consumes a canonical natural number at `pos`, accepting it only up to
/// `bound`.
fn parse_nat_bounded(v: &Vec<char>, pos: usize, bound: u64) -> (r: Option<(u64, usize)>)
    requires
        pos <= v@.len(),
    ensures
        ({
            let sp = sp_nat(v@.skip(pos as int));
            match r {
                Some(xp) => sp is Some && (sp->0).0 == xp.0 as int && xp.0 <= bound && (sp->0).1
                    == v@.skip(xp.1 as int) && pos < xp.1 <= v@.len(),
                None => sp is None || (sp->0).0 > bound,
            }
        }),
{
    let n = v.len();
    let mut end: usize = pos;
    loop
        invariant
            n == v@.len(),
            pos <= end <= n,
            forall|i: int| pos <= i < end ==> is_digit_char(#[trigger] v@[i]),
        ensures
            pos <= end <= n,
            forall|i: int| pos <= i < end ==> is_digit_char(#[trigger] v@[i]),
            end == n || !is_digit_char(v@[end as int]),
        decreases n - end,
    {
        if end >= n {
            break ;
        }
        if !is_digit(v[end]) {
            break ;
        }
        end = end + 1;
    }
    let ghost digits = v@.subrange(pos as int, end as int);
    let ghost tail = v@.skip(end as int);
    proof {
        assert(v@.skip(pos as int) =~= digits + tail);
        if tail.len() > 0 {
            assert(tail[0] == v@[end as int]);
        }
        lemma_sp_digits_of(digits, tail);
    }
    if end == pos {
        return None;
    }
    if v[pos] == '0' && end - pos > 1 {
        proof {
            assert(digits[0] == v@[pos as int]);
        }
        return None;
    }
    proof {
        assert(digits[0] == v@[pos as int]);
    }
    let mut j: usize = pos;
    let mut acc: u128 = 0;
    let mut over = false;
    proof {
        assert(v@.subrange(pos as int, pos as int) =~= Seq::<char>::empty());
        crate::text::lemma_digits_val_nonneg(v@.subrange(pos as int, pos as int));
    }
    while j < end
        invariant
            n == v@.len(),
            pos <= j <= end <= n,
            forall|i: int| pos <= i < end ==> is_digit_char(#[trigger] v@[i]),
            over == (digits_val(v@.subrange(pos as int, j as int)) > bound),
            !over ==> acc == digits_val(v@.subrange(pos as int, j as int)),
            over ==> digits_val(v@.subrange(pos as int, j as int)) > bound,
        decreases end - j,
    {
        let ghost pre = v@.subrange(pos as int, j as int);
        let ghost gval = digits_val(pre);
        proof {
            assert(v@.subrange(pos as int, j + 1).drop_last() =~= pre);
            assert(v@.subrange(pos as int, j + 1).last() == v@[j as int]);
            crate::text::lemma_digits_val_nonneg(pre);
        }
        let dv = digit_num(v[j]);
        if !over {
            let na = acc * 10 + dv as u128;
            if na > bound as u128 {
                over = true;
            } else {
                acc = na;
            }
        } else {
            proof {
                assert(gval * 10 >= gval) by (nonlinear_arith)
                    requires
                        gval >= 0,
                ;
            }
        }
        j = j + 1;
    }
    if over {
        return None;
    }
    proof {
        assert(v@.subrange(pos as int, end as int) == digits);
    }
    Some((acc as u64, end))
}

/// Consumes a canonical integer at `pos` that fits the confidence field.
fn parse_u32_field(v: &Vec<char>, pos: usize) -> (r: Option<(u32, usize)>)
    requires
        pos <= v@.len(),
    ensures
        ({
            let sp = sp_u32(v@.skip(pos as int));
            match r {
                Some(xp) => sp is Some && (sp->0).0 == xp.0 as int && (sp->0).1 == v@.skip(
                    xp.1 as int,
                ) && pos < xp.1 <= v@.len(),
                None => sp is None,
            }
        }),
{
    match parse_nat_bounded(v, pos, 4294967295u64) {
        Some((x, p)) => Some((x as u32, p)),
        None => None,
    }
}

/// Consumes a canonical integer at `pos` that fits a 64-bit signed value.
fn parse_i64_field(v: &Vec<char>, pos: usize) -> (r: Option<(i64, usize)>)
    requires
        pos <= v@.len(),
    ensures
        ({
            let sp = sp_i64(v@.skip(pos as int));
            match r {
                Some(xp) => sp is Some && (sp->0).0 == xp.0 as int && (sp->0).1 == v@.skip(
                    xp.1 as int,
                ) && pos < xp.1 <= v@.len(),
                None => sp is None,
            }
        }),
{
    let n = v.len();
    if pos < n && v[pos] == '-' {
        proof {
            assert(v@.skip(pos as int)[0] == v@[pos as int]);
            assert(v@.skip(pos as int).drop_first() =~= v@.skip(pos + 1));
        }
        match parse_nat_bounded(v, pos + 1, 9223372036854775808u64) {
            Some((mag, p)) => {
                if mag == 0 {
                    None
                } else if mag == 9223372036854775808u64 {
                    Some((i64::MIN, p))
                } else {
                    Some((-(mag as i64), p))
                }
            },
            None => None,
        }
    } else {
        proof {
            if pos < n {
                assert(v@.skip(pos as int)[0] == v@[pos as int]);
            } else {
                assert(v@.skip(pos as int) =~= Seq::<char>::empty());
            }
        }
        match parse_nat_bounded(v, pos, 9223372036854775807u64) {
            Some((x, p)) => Some((x as i64, p)),
            None => None,
        }
    }
}

/// Consumes `true` or `false` at `pos`.
fn parse_bool(v: &Vec<char>, pos: usize) -> (r: Option<(bool, usize)>)
    requires
        pos <= v@.len(),
    ensures
        ({
            let sp = sp_bool(v@.skip(pos as int));
            match r {
                Some(xp) => sp is Some && (sp->0).0 == xp.0 && (sp->0).1 == v@.skip(xp.1 as int) && pos
                    < xp.1 <= v@.len(),
                None => sp is None,
            }
        }),
{
    match expect_lit(v, pos, "true") {
        Some(p) => {
            proof {
                reveal_strlit("true");
            }
            return Some((true, p));
        },
        None => {},
    }
    match expect_lit(v, pos, "false") {
        Some(p) => {
            proof {
                reveal_strlit("true");
                reveal_strlit("false");
            }
            return Some((false, p));
        },
        None => {
            proof {
                reveal_strlit("true");
                reveal_strlit("false");
            }
            return None;
        },
    }
}

/// Consumes one parameter value at `pos`.
fn parse_param(v: &Vec<char>, pos: usize) -> (r: Option<(ParamValue, usize)>)
    requires
        pos <= v@.len(),
    ensures
        ({
            let sp = sp_param(v@.skip(pos as int));
            match r {
                Some(xp) => sp is Some && (sp->0).0 == xp.0@ && (sp->0).1 == v@.skip(xp.1 as int)
                    && pos < xp.1 <= v@.len(),
                None => sp is None,
            }
        }),
{
    let n = v.len();
    if pos >= n {
        proof {
            assert(v@.skip(pos as int) =~= Seq::<char>::empty());
        }
        return None;
    }
    proof {
        assert(v@.skip(pos as int)[0] == v@[pos as int]);
    }
    let c = v[pos];
    if c == '"' {
        match parse_string(v, pos) {
            Some((x, p)) => Some((ParamValue::Str(x), p)),
            None => None,
        }
    } else if c == 'n' {
        proof {
            reveal_strlit("null");
        }
        match expect_lit(v, pos, "null") {
            Some(p) => Some((ParamValue::Null, p)),
            None => None,
        }
    } else if c == 't' || c == 'f' {
        match parse_bool(v, pos) {
            Some((b, p)) => Some((ParamValue::Bool(b), p)),
            None => None,
        }
    } else {
        match parse_i64_field(v, pos) {
            Some((x, p)) => Some((ParamValue::Int(x), p)),
            None => None,
        }
    }
}

/// Consumes one or more `key:value` entries up to and including the
/// closing brace.
fn parse_entries(v: &Vec<char>, pos: usize, fuel: usize) -> (r: Option<
    (Vec<(String, ParamValue)>, usize),
>)
    requires
        pos <= v@.len(),
    ensures
        ({
            let sp = sp_entries(v@.skip(pos as int), fuel as nat);
            match r {
                Some(xp) => sp is Some && (sp->0).0 == params_model(xp.0@) && (sp->0).1 == v@.skip(
                    xp.1 as int,
                ) && pos < xp.1 <= v@.len(),
                None => sp is None,
            }
        }),
    decreases fuel,
{
    if fuel == 0 {
        return None;
    }
    let n = v.len();
    let (key, p1) = match parse_string(v, pos) {
        Some(kp) => kp,
        None => {
            return None;
        },
    };
    if p1 >= n || v[p1] != ':' {
        proof {
            if p1 < n {
                assert(v@.skip(p1 as int)[0] == v@[p1 as int]);
            }
        }
        return None;
    }
    proof {
        assert(v@.skip(p1 as int)[0] == v@[p1 as int]);
        assert(v@.skip(p1 as int).drop_first() =~= v@.skip(p1 + 1));
    }
    let (val, p2) = match parse_param(v, p1 + 1) {
        Some(vp) => vp,
        None => {
            return None;
        },
    };
    if p2 < n && v[p2] == ',' {
        proof {
            assert(v@.skip(p2 as int)[0] == v@[p2 as int]);
            assert(v@.skip(p2 as int).drop_first() =~= v@.skip(p2 + 1));
        }
        match parse_entries(v, p2 + 1, fuel - 1) {
            Some((mut ps, p3)) => {
                ps.insert(0, (key, val));
                proof {
                    let sp = sp_entries(v@.skip(pos as int), fuel as nat);
                    assert(params_model(ps@) =~= (sp->0).0);
                }
                Some((ps, p3))
            },
            None => None,
        }
    } else if p2 < n && v[p2] == '}' {
        proof {
            assert(v@.skip(p2 as int)[0] == v@[p2 as int]);
            assert(v@.skip(p2 as int).drop_first() =~= v@.skip(p2 + 1));
        }
        let mut ps: Vec<(String, ParamValue)> = Vec::new();
        ps.push((key, val));
        proof {
            let sp = sp_entries(v@.skip(pos as int), fuel as nat);
            assert(params_model(ps@) =~= (sp->0).0);
        }
        Some((ps, p2 + 1))
    } else {
        proof {
            if p2 < n {
                assert(v@.skip(p2 as int)[0] == v@[p2 as int]);
            }
        }
        None
    }
}

/// Consumes the parameter object at `pos`.
fn parse_params(v: &Vec<char>, pos: usize) -> (r: Option<(Vec<(String, ParamValue)>, usize)>)
    requires
        pos <= v@.len(),
    ensures
        ({
            let sp = sp_params(v@.skip(pos as int));
            match r {
                Some(xp) => sp is Some && (sp->0).0 == params_model(xp.0@) && (sp->0).1 == v@.skip(
                    xp.1 as int,
                ) && pos < xp.1 <= v@.len(),
                None => sp is None,
            }
        }),
{
    let n = v.len();
    if pos >= n || v[pos] != '{' {
        proof {
            if pos < n {
                assert(v@.skip(pos as int)[0] == v@[pos as int]);
            }
        }
        return None;
    }
    proof {
        assert(v@.skip(pos as int)[0] == v@[pos as int]);
        assert(v@.skip(pos as int).drop_first() =~= v@.skip(pos + 1));
    }
    if pos + 1 < n && v[pos + 1] == '}' {
        proof {
            assert(v@.skip(pos as int)[1] == v@[pos + 1]);
            assert(v@.skip(pos as int).skip(2) =~= v@.skip(pos + 2));
        }
        let ps: Vec<(String, ParamValue)> = Vec::new();
        proof {
            assert(params_model(ps@) =~= Seq::<(Seq<char>, ParamModel)>::empty());
        }
        return Some((ps, pos + 2));
    }
    proof {
        if pos + 1 < n {
            assert(v@.skip(pos as int)[1] == v@[pos + 1]);
        }
        assert(v@.skip(pos as int).len() == n - pos);
    }
    parse_entries(v, pos + 1, n - pos)
}

/// Consumes the target module at `pos`: `null` or a string.
fn parse_module(v: &Vec<char>, pos: usize) -> (r: Option<(Option<String>, usize)>)
    requires
        pos <= v@.len(),
    ensures
        ({
            let sp = sp_module(v@.skip(pos as int));
            match r {
                Some(xp) => sp is Some && (match xp.0 {
                    Some(x) => (sp->0).0 is Some && (sp->0).0->0 == x@,
                    None => (sp->0).0 is None,
                }) && (sp->0).1 == v@.skip(xp.1 as int) && pos < xp.1 <= v@.len(),
                None => sp is None,
            }
        }),
{
    let n = v.len();
    if pos < n && v[pos] == 'n' {
        proof {
            assert(v@.skip(pos as int)[0] == v@[pos as int]);
        }
        proof {
            reveal_strlit("null");
        }
        match expect_lit(v, pos, "null") {
            Some(p) => Some((None, p)),
            None => None,
        }
    } else {
        proof {
            if pos < n {
                assert(v@.skip(pos as int)[0] == v@[pos as int]);
            } else {
                assert(v@.skip(pos as int) =~= Seq::<char>::empty());
            }
        }
        match parse_string(v, pos) {
            Some((x, p)) => Some((Some(x), p)),
            None => None,
        }
    }
}

/// Parses the stable JSON rendering of an intent. Succeeds exactly on the
/// inputs that [`sp_intent`] gives a meaning, and returns the intent whose
/// model that meaning is.
#[verifier::rlimit(100)]
pub fn from_json(s: &str) -> (r: Option<Intent>)
    ensures
        r is Some <==> sp_intent(s@) is Some,
        r is Some ==> r->0@ == sp_intent(s@)->0,
{
    let v = crate::text::chars_of(s);
    proof {
        assert(v@.skip(0) =~= v@);
    }
    let p1 = match expect_lit(&v, 0, "{\"id\":") {
        Some(p) => p,
        None => {
            return None;
        },
    };
    let (id, p2) = match parse_string(&v, p1) {
        Some(x) => x,
        None => {
            return None;
        },
    };
    let p3 = match expect_lit(&v, p2, ",\"intent_type\":") {
        Some(p) => p,
        None => {
            return None;
        },
    };
    let (intent_type, p4) = match parse_string(&v, p3) {
        Some(x) => x,
        None => {
            return None;
        },
    };
    let p5 = match expect_lit(&v, p4, ",\"confidence\":") {
        Some(p) => p,
        None => {
            return None;
        },
    };
    let (confidence, p6) = match parse_u32_field(&v, p5) {
        Some(x) => x,
        None => {
            return None;
        },
    };
    let p7 = match expect_lit(&v, p6, ",\"parameters\":") {
        Some(p) => p,
        None => {
            return None;
        },
    };
    let (parameters, p8) = match parse_params(&v, p7) {
        Some(x) => x,
        None => {
            return None;
        },
    };
    let p9 = match expect_lit(&v, p8, ",\"reasoning\":") {
        Some(p) => p,
        None => {
            return None;
        },
    };
    let (reasoning, p10) = match parse_string(&v, p9) {
        Some(x) => x,
        None => {
            return None;
        },
    };
    let p11 = match expect_lit(&v, p10, ",\"requires_permission\":") {
        Some(p) => p,
        None => {
            return None;
        },
    };
    let (requires_permission, p12) = match parse_bool(&v, p11) {
        Some(x) => x,
        None => {
            return None;
        },
    };
    let p13 = match expect_lit(&v, p12, ",\"target_module\":") {
        Some(p) => p,
        None => {
            return None;
        },
    };
    let (target_module, p14) = match parse_module(&v, p13) {
        Some(x) => x,
        None => {
            return None;
        },
    };
    let p15 = match expect_lit(&v, p14, ",\"created_at\":") {
        Some(p) => p,
        None => {
            return None;
        },
    };
    let (created_at, p16) = match parse_i64_field(&v, p15) {
        Some(x) => x,
        None => {
            return None;
        },
    };
    if !(v.len() - p16 == 1 && v[p16] == '}') {
        proof {
            let s16 = v@.skip(p16 as int);
            if p16 < v@.len() {
                assert(s16[0] == v@[p16 as int]);
            }
            assert(!(s16.len() == 1 && s16[0] == '}'));
        }
        return None;
    }
    proof {
        let s16 = v@.skip(p16 as int);
        assert(s16.len() == 1);
        assert(s16[0] == v@[p16 as int]);
    }
    let intent = Intent {
        id,
        intent_type,
        confidence,
        parameters,
        reasoning,
        requires_permission,
        target_module,
        created_at,
    };
    proof {
        assert(intent@ =~~= sp_intent(s@)->0);
    }
    Some(intent)
}

/// The meaning of a serialized intent: the parse of the whole input, field
/// by field in the fixed order, with nothing left over.
pub open spec fn sp_intent(s: Seq<char>) -> Option<IntentModel> {
    match sp_lit(s, "{\"id\":"@) {
        None => None,
        Some(s1) => match sp_string(s1) {
            None => None,
            Some(idr) => match sp_lit(idr.1, ",\"intent_type\":"@) {
                None => None,
                Some(s3) => match sp_string(s3) {
                    None => None,
                    Some(tyr) => match sp_lit(tyr.1, ",\"confidence\":"@) {
                        None => None,
                        Some(s5) => match sp_u32(s5) {
                            None => None,
                            Some(cr) => match sp_lit(cr.1, ",\"parameters\":"@) {
                                None => None,
                                Some(s7) => match sp_params(s7) {
                                    None => None,
                                    Some(pr) => match sp_lit(pr.1, ",\"reasoning\":"@) {
                                        None => None,
                                        Some(s9) => match sp_string(s9) {
                                            None => None,
                                            Some(rer) => match sp_lit(
                                                rer.1,
                                                ",\"requires_permission\":"@,
                                            ) {
                                                None => None,
                                                Some(s11) => match sp_bool(s11) {
                                                    None => None,
                                                    Some(br) => match sp_lit(
                                                        br.1,
                                                        ",\"target_module\":"@,
                                                    ) {
                                                        None => None,
                                                        Some(s13) => match sp_module(s13) {
                                                            None => None,
                                                            Some(tmr) => match sp_lit(
                                                                tmr.1,
                                                                ",\"created_at\":"@,
                                                            ) {
                                                                None => None,
                                                                Some(s15) => match sp_i64(s15) {
                                                                    None => None,
                                                                    Some(car) => if car.1.len() == 1
                                                                        && car.1[0] == '}' {
                                                                        Some(
                                                                            IntentModel {
                                                                                id: idr.0,
                                                                                intent_type: tyr.0,
                                                                                confidence: cr.0,
                                                                                parameters: pr.0,
                                                                                reasoning: rer.0,
                                                                                requires_permission:
                                                                                    br.0,
                                                                                target_module:
                                                                                    tmr.0,
                                                                                created_at: car.0,
                                                                            },
                                                                        )
                                                                    } else {
                                                                        None
                                                                    },
                                                                },
                                                            },
                                                        },
                                                    },
                                                },
                                            },
                                        },
                                    },
                                },
                            },
                        },
                    },
                },
            },
        },
    }
}

} // verus!
