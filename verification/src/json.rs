//! The export format: a JSON rendering of a snapshot of artifacts, built
//! and proved character by character.
//!
//! The exported text is a JSON array with one object per artifact, holding
//! its identifier, name, description, material (tagged, with the free
//! label for the open-ended case), period, condition, site, optional
//! coordinate pair, the four-field measurement bundle, and the note list in
//! order. Strings are escaped as JSON demands: quote, backslash, and every
//! control character below space.

use crate::model::{
    condition_label, material_label, period_label, Artifact, ArtifactModel, Coordinates, Material,
    MaterialModel, Measurements,
};
use vstd::prelude::*;
use vstd::string::{StrSliceExecFns, StringExecFns};

verus! {

/// The decimal digit character of `d`, which must be below ten.
pub open spec fn digit_char(d: nat) -> char {
    if d == 0 {
        '0'
    } else if d == 1 {
        '1'
    } else if d == 2 {
        '2'
    } else if d == 3 {
        '3'
    } else if d == 4 {
        '4'
    } else if d == 5 {
        '5'
    } else if d == 6 {
        '6'
    } else if d == 7 {
        '7'
    } else if d == 8 {
        '8'
    } else {
        '9'
    }
}

/// The decimal digit sequence of `n`, without leading zeroes except for
/// zero itself.
pub open spec fn dec_digits(n: nat) -> Seq<char>
    decreases n,
{
    if n < 10 {
        seq![digit_char(n)]
    } else {
        dec_digits(n / 10).push(digit_char(n % 10))
    }
}

/// The decimal rendering of an integer, a minus sign ahead of a negative
/// one.
pub open spec fn dec_int(n: int) -> Seq<char> {
    if n < 0 {
        seq!['-'] + dec_digits((-n) as nat)
    } else {
        dec_digits(n as nat)
    }
}

/// The lowercase hexadecimal digit character of `d`, which must be below
/// sixteen.
pub open spec fn hex_char(d: nat) -> char {
    if d < 10 {
        digit_char(d)
    } else if d == 10 {
        'a'
    } else if d == 11 {
        'b'
    } else if d == 12 {
        'c'
    } else if d == 13 {
        'd'
    } else if d == 14 {
        'e'
    } else {
        'f'
    }
}

/// The JSON escape of one character: quote and backslash get a backslash,
/// the common control characters their short forms, every other control
/// character a `\\u00..` escape, and everything else stands as itself.
pub open spec fn escape_char(c: char) -> Seq<char> {
    if c == '"' {
        seq!['\\', '"']
    } else if c == '\\' {
        seq!['\\', '\\']
    } else if c == '\n' {
        seq!['\\', 'n']
    } else if c == '\r' {
        seq!['\\', 'r']
    } else if c == '\t' {
        seq!['\\', 't']
    } else if (c as u32) < 32 {
        seq!['\\', 'u', '0', '0', hex_char((c as u32 / 16) as nat), hex_char(
            (c as u32 % 16) as nat,
        )]
    } else {
        seq![c]
    }
}

/// The JSON escape of a whole character sequence.
pub open spec fn escape_seq(s: Seq<char>) -> Seq<char>
    decreases s.len(),
{
    if s.len() == 0 {
        Seq::empty()
    } else {
        escape_seq(s.drop_last()) + escape_char(s.last())
    }
}

/// The JSON string literal holding `s`.
pub open spec fn json_string(s: Seq<char>) -> Seq<char> {
    seq!['"'] + escape_seq(s) + seq!['"']
}

/// Appends one decimal digit character.
fn append_digit(out: &mut String, d: u64)
    requires
        d < 10,
    ensures
        final(out)@ == old(out)@ + seq![digit_char(d as nat)],
{
    proof {
        reveal_strlit("0");
        reveal_strlit("1");
        reveal_strlit("2");
        reveal_strlit("3");
        reveal_strlit("4");
        reveal_strlit("5");
        reveal_strlit("6");
        reveal_strlit("7");
        reveal_strlit("8");
        reveal_strlit("9");
    }
    match d {
        0 => out.append("0"),
        1 => out.append("1"),
        2 => out.append("2"),
        3 => out.append("3"),
        4 => out.append("4"),
        5 => out.append("5"),
        6 => out.append("6"),
        7 => out.append("7"),
        8 => out.append("8"),
        _ => out.append("9"),
    }
    proof {
        assert(final(out)@ =~= old(out)@ + seq![digit_char(d as nat)]);
    }
}

/// Appends one lowercase hexadecimal digit character.
fn append_hex_digit(out: &mut String, d: u32)
    requires
        d < 16,
    ensures
        final(out)@ == old(out)@ + seq![hex_char(d as nat)],
{
    if d < 10 {
        append_digit(out, d as u64);
    } else {
        proof {
            reveal_strlit("a");
            reveal_strlit("b");
            reveal_strlit("c");
            reveal_strlit("d");
            reveal_strlit("e");
            reveal_strlit("f");
        }
        match d {
            10 => out.append("a"),
            11 => out.append("b"),
            12 => out.append("c"),
            13 => out.append("d"),
            14 => out.append("e"),
            _ => out.append("f"),
        }
        proof {
            assert(final(out)@ =~= old(out)@ + seq![hex_char(d as nat)]);
        }
    }
}

/// Appends the decimal rendering of `n`.
fn append_u64(out: &mut String, n: u64)
    ensures
        final(out)@ == old(out)@ + dec_digits(n as nat),
    decreases n,
{
    if n < 10 {
        append_digit(out, n);
    } else {
        append_u64(out, n / 10);
        append_digit(out, n % 10);
        proof {
            assert(dec_digits(n as nat) == dec_digits(n as nat / 10).push(
                digit_char(n as nat % 10),
            ));
            assert((old(out)@ + dec_digits((n / 10) as nat)) + seq![digit_char((n % 10) as nat)]
                =~= old(out)@ + dec_digits(n as nat));
        }
    }
}

/// Appends the decimal rendering of a signed integer.
fn append_i64(out: &mut String, n: i64)
    ensures
        final(out)@ == old(out)@ + dec_int(n as int),
{
    if n < 0 {
        proof {
            reveal_strlit("-");
        }
        out.append("-");
        let mag: u64 = (-(n as i128)) as u64;
        proof {
            assert(-(n as i128) == -(n as int));
            assert(0 < -(n as int) <= 0x8000_0000_0000_0000);
            assert(mag == -(n as int));
        }
        append_u64(out, mag);
        proof {
            assert((old(out)@ + "-"@) + dec_digits(mag as nat) =~= old(out)@ + dec_int(n as int));
        }
    } else {
        append_u64(out, n as u64);
    }
}

/// One step of escaping: one more character contributes exactly its
/// escape.
proof fn lemma_escape_step(s: Seq<char>, i: int)
    requires
        0 <= i < s.len(),
    ensures
        escape_seq(s.take(i + 1)) == escape_seq(s.take(i)) + escape_char(s[i]),
{
    let t = s.take(i + 1);
    assert(t.drop_last() =~= s.take(i));
    assert(t.last() == s[i]);
    assert(escape_seq(t) == escape_seq(s.take(i)) + escape_char(s[i]));
}

/// Appends the JSON escape of every character of `s`.
fn append_escaped(out: &mut String, s: &str)
    ensures
        final(out)@ == old(out)@ + escape_seq(s@),
{
    let n = s.unicode_len();
    let mut i: usize = 0;
    proof {
        assert(s@.take(0) =~= Seq::<char>::empty());
        assert(out@ =~= out@ + escape_seq(s@.take(0)));
    }
    while i < n
        invariant
            n == s@.len(),
            i <= n,
            out@ == old(out)@ + escape_seq(s@.take(i as int)),
        decreases n - i,
    {
        let ghost sofar = out@;
        let c = s.get_char(i);
        proof {
            lemma_escape_step(s@, i as int);
        }
        if c == '"' {
            proof {
                reveal_strlit("\\\"");
            }
            out.append("\\\"");
        } else if c == '\\' {
            proof {
                reveal_strlit("\\\\");
            }
            out.append("\\\\");
        } else if c == '\n' {
            proof {
                reveal_strlit("\\n");
            }
            out.append("\\n");
        } else if c == '\r' {
            proof {
                reveal_strlit("\\r");
            }
            out.append("\\r");
        } else if c == '\t' {
            proof {
                reveal_strlit("\\t");
            }
            out.append("\\t");
        } else if (c as u32) < 32 {
            proof {
                reveal_strlit("\\u00");
            }
            out.append("\\u00");
            let code: u32 = c as u32;
            append_hex_digit(out, code / 16);
            append_hex_digit(out, code % 16);
            proof {
                assert((((sofar + "\\u00"@) + seq![hex_char((code / 16) as nat)]) + seq![
                    hex_char((code % 16) as nat),
                ]) =~= sofar + escape_char(c));
            }
        } else {
            let piece = s.substring_char(i, i + 1);
            proof {
                assert(piece@ =~= seq![c]);
            }
            out.append(piece);
        }
        proof {
            assert(out@ =~= old(out)@ + escape_seq(s@.take(i + 1)));
        }
        i = i + 1;
    }
    proof {
        assert(s@.take(n as int) =~= s@);
    }
}

/// Appends the JSON string literal holding `s`.
fn append_json_string(out: &mut String, s: &str)
    ensures
        final(out)@ == old(out)@ + json_string(s@),
{
    proof {
        reveal_strlit("\"");
    }
    out.append("\"");
    append_escaped(out, s);
    out.append("\"");
    proof {
        assert(((old(out)@ + "\""@) + escape_seq(s@)) + "\""@ =~= old(out)@ + json_string(s@));
    }
}


/// A present number stands as its digits, an absent one as `null`.
pub open spec fn json_opt_u32(v: Option<u32>) -> Seq<char> {
    match v {
        Some(x) => dec_digits(x as nat),
        None => "null"@,
    }
}

/// A material as JSON: tagged by its classification name, the open-ended
/// case with its free label beside the tag.
pub open spec fn json_material(m: MaterialModel) -> Seq<char> {
    match m {
        MaterialModel::Other(l) => "{\"tag\":\"Other\",\"label\":"@ + json_string(l) + "}"@,
        _ => "{\"tag\":"@ + json_string(material_label(m)) + "}"@,
    }
}

/// A coordinate pair as JSON, or `null` when absent.
pub open spec fn json_coordinates(c: Option<Coordinates>) -> Seq<char> {
    match c {
        Some(p) => "{\"lat_microdeg\":"@ + dec_int(p.lat_microdeg as int) + ",\"lon_microdeg\":"@
            + dec_int(p.lon_microdeg as int) + "}"@,
        None => "null"@,
    }
}

/// The measurement bundle as JSON: four independently optional fields.
pub open spec fn json_measurements(m: Measurements) -> Seq<char> {
    "{\"length_mm\":"@ + json_opt_u32(m.length_mm) + ",\"width_mm\":"@ + json_opt_u32(m.width_mm)
        + ",\"height_mm\":"@ + json_opt_u32(m.height_mm) + ",\"weight_g\":"@ + json_opt_u32(
        m.weight_g,
    ) + "}"@
}

/// The comma-separated JSON string literals of `s`, in order.
pub open spec fn json_string_items(s: Seq<Seq<char>>) -> Seq<char>
    decreases s.len(),
{
    if s.len() == 0 {
        Seq::empty()
    } else if s.len() == 1 {
        json_string(s[0])
    } else {
        json_string_items(s.drop_last()) + seq![','] + json_string(s.last())
    }
}

/// The note list as a JSON array of strings, in order.
pub open spec fn json_notes(notes: Seq<Seq<char>>) -> Seq<char> {
    seq!['['] + json_string_items(notes) + seq![']']
}

/// One artifact as a JSON object.
pub open spec fn json_artifact(a: ArtifactModel) -> Seq<char> {
    "{\"id\":"@ + dec_digits(a.id as nat) + ",\"name\":"@ + json_string(a.details.name)
        + ",\"description\":"@ + json_string(a.details.description) + ",\"material\":"@
        + json_material(a.details.material) + ",\"period\":"@ + json_string(
        period_label(a.details.period),
    ) + ",\"condition\":"@ + json_string(condition_label(a.details.condition)) + ",\"site\":"@
        + json_string(a.details.site) + ",\"coordinates\":"@ + json_coordinates(
        a.details.coordinates,
    ) + ",\"measurements\":"@ + json_measurements(a.details.measurements) + ",\"notes\":"@
        + json_notes(a.details.notes) + "}"@
}

/// The comma-separated JSON objects of `s`, in order.
pub open spec fn json_items(s: Seq<ArtifactModel>) -> Seq<char>
    decreases s.len(),
{
    if s.len() == 0 {
        Seq::empty()
    } else if s.len() == 1 {
        json_artifact(s[0])
    } else {
        json_items(s.drop_last()) + seq![','] + json_artifact(s.last())
    }
}

/// A whole snapshot as a JSON array of artifact objects, in order.
pub open spec fn json_catalog(s: Seq<ArtifactModel>) -> Seq<char> {
    seq!['['] + json_items(s) + seq![']']
}

/// Appends a present number as digits, an absent one as `null`.
fn append_opt_u32(out: &mut String, v: Option<u32>)
    ensures
        final(out)@ == old(out)@ + json_opt_u32(v),
{
    match v {
        Some(x) => append_u64(out, x as u64),
        None => out.append("null"),
    }
}

/// Appends a material as tagged JSON.
fn append_material(out: &mut String, m: &Material)
    ensures
        final(out)@ == old(out)@ + json_material(m@),
{
    match m {
        Material::Other(l) => {
            out.append("{\"tag\":\"Other\",\"label\":");
            append_json_string(out, l.as_str());
            proof {
                assert(out@ =~= old(out)@ + ("{\"tag\":\"Other\",\"label\":"@ + json_string(l@)));
            }
            out.append("}");
            proof {
                assert(final(out)@ =~= old(out)@ + json_material(m@));
            }
        },
        _ => {
            out.append("{\"tag\":");
            let lab = m.label();
            append_json_string(out, lab.as_str());
            proof {
                assert(out@ =~= old(out)@ + ("{\"tag\":"@ + json_string(material_label(m@))));
            }
            out.append("}");
            proof {
                assert(final(out)@ =~= old(out)@ + json_material(m@));
            }
        },
    }
}

/// Appends a coordinate pair as JSON, or `null`.
fn append_coordinates(out: &mut String, c: &Option<Coordinates>)
    ensures
        final(out)@ == old(out)@ + json_coordinates(*c),
{
    match c {
        Some(p) => {
            out.append("{\"lat_microdeg\":");
            append_i64(out, p.lat_microdeg);
            proof {
                assert(out@ =~= old(out)@ + ("{\"lat_microdeg\":"@ + dec_int(
                    p.lat_microdeg as int,
                )));
            }
            let ghost acc = "{\"lat_microdeg\":"@ + dec_int(p.lat_microdeg as int);
            out.append(",\"lon_microdeg\":");
            proof {
                assert(out@ =~= old(out)@ + (acc + ",\"lon_microdeg\":"@));
            }
            let ghost acc = acc + ",\"lon_microdeg\":"@;
            append_i64(out, p.lon_microdeg);
            proof {
                assert(out@ =~= old(out)@ + (acc + dec_int(p.lon_microdeg as int)));
            }
            let ghost acc = acc + dec_int(p.lon_microdeg as int);
            out.append("}");
            proof {
                assert(final(out)@ =~= old(out)@ + (acc + "}"@));
                assert(acc + "}"@ == json_coordinates(*c));
            }
        },
        None => {
            out.append("null");
        },
    }
}

/// Appends the measurement bundle as JSON.
fn append_measurements(out: &mut String, m: &Measurements)
    ensures
        final(out)@ == old(out)@ + json_measurements(*m),
{
    out.append("{\"length_mm\":");
    let ghost acc = "{\"length_mm\":"@;
    append_opt_u32(out, m.length_mm);
    proof {
        assert(out@ =~= old(out)@ + (acc + json_opt_u32(m.length_mm)));
    }
    let ghost acc = acc + json_opt_u32(m.length_mm);
    out.append(",\"width_mm\":");
    proof {
        assert(out@ =~= old(out)@ + (acc + ",\"width_mm\":"@));
    }
    let ghost acc = acc + ",\"width_mm\":"@;
    append_opt_u32(out, m.width_mm);
    proof {
        assert(out@ =~= old(out)@ + (acc + json_opt_u32(m.width_mm)));
    }
    let ghost acc = acc + json_opt_u32(m.width_mm);
    out.append(",\"height_mm\":");
    proof {
        assert(out@ =~= old(out)@ + (acc + ",\"height_mm\":"@));
    }
    let ghost acc = acc + ",\"height_mm\":"@;
    append_opt_u32(out, m.height_mm);
    proof {
        assert(out@ =~= old(out)@ + (acc + json_opt_u32(m.height_mm)));
    }
    let ghost acc = acc + json_opt_u32(m.height_mm);
    out.append(",\"weight_g\":");
    proof {
        assert(out@ =~= old(out)@ + (acc + ",\"weight_g\":"@));
    }
    let ghost acc = acc + ",\"weight_g\":"@;
    append_opt_u32(out, m.weight_g);
    proof {
        assert(out@ =~= old(out)@ + (acc + json_opt_u32(m.weight_g)));
    }
    let ghost acc = acc + json_opt_u32(m.weight_g);
    out.append("}");
    proof {
        assert(final(out)@ =~= old(out)@ + (acc + "}"@));
        assert(acc + "}"@ == json_measurements(*m));
    }
}

/// One step of a comma-separated string list: one more item contributes a
/// comma (except at the front) and its string literal.
proof fn lemma_string_items_step(s: Seq<Seq<char>>, i: int)
    requires
        0 <= i < s.len(),
    ensures
        json_string_items(s.take(i + 1)) == if i == 0 {
            json_string(s[0])
        } else {
            json_string_items(s.take(i)) + seq![','] + json_string(s[i])
        },
{
    let t = s.take(i + 1);
    assert(t.drop_last() =~= s.take(i));
    assert(t.last() == s[i]);
    if i == 0 {
        assert(json_string_items(t) == json_string(s[0]));
    } else {
        assert(json_string_items(t) == json_string_items(s.take(i)) + seq![','] + json_string(
            s[i],
        ));
    }
}

/// Appends the note list as a JSON array of strings.
fn append_notes(out: &mut String, notes: &Vec<String>)
    ensures
        final(out)@ == old(out)@ + json_notes(notes.deep_view()),
{
    let ghost dv = notes.deep_view();
    proof {
        reveal_strlit("[");
        reveal_strlit("]");
        reveal_strlit(",");
    }
    out.append("[");
    proof {
        assert(dv.take(0) =~= Seq::<Seq<char>>::empty());
        assert(out@ =~= old(out)@ + seq!['['] + json_string_items(dv.take(0)));
    }
    let mut i: usize = 0;
    while i < notes.len()
        invariant
            i <= notes@.len(),
            dv == notes.deep_view(),
            dv.len() == notes@.len(),
            out@ == old(out)@ + seq!['['] + json_string_items(dv.take(i as int)),
        decreases notes@.len() - i,
    {
        let ghost sofar = out@;
        proof {
            reveal_strlit(",");
            lemma_string_items_step(dv, i as int);
        }
        if i > 0 {
            out.append(",");
        }
        append_json_string(out, notes[i].as_str());
        proof {
            assert(notes@[i as int]@ == dv[i as int]);
            assert(out@ =~= old(out)@ + seq!['['] + json_string_items(dv.take(i + 1)));
        }
        i = i + 1;
    }
    proof {
        assert(dv.take(dv.len() as int) =~= dv);
    }
    out.append("]");
    proof {
        assert(final(out)@ =~= old(out)@ + json_notes(dv));
    }
}

/// Appends one artifact as a JSON object.
#[verifier::rlimit(80)]
fn append_artifact(out: &mut String, a: &Artifact)
    ensures
        final(out)@ == old(out)@ + json_artifact(a@),
{
    out.append("{\"id\":");
    let ghost acc = "{\"id\":"@;
    append_u64(out, a.id);
    proof {
        assert(out@ =~= old(out)@ + (acc + dec_digits(a.id as nat)));
    }
    let ghost acc = acc + dec_digits(a.id as nat);
    out.append(",\"name\":");
    proof {
        assert(out@ =~= old(out)@ + (acc + ",\"name\":"@));
    }
    let ghost acc = acc + ",\"name\":"@;
    append_json_string(out, a.details.name.as_str());
    proof {
        assert(out@ =~= old(out)@ + (acc + json_string(a.details.name@)));
    }
    let ghost acc = acc + json_string(a.details.name@);
    out.append(",\"description\":");
    proof {
        assert(out@ =~= old(out)@ + (acc + ",\"description\":"@));
    }
    let ghost acc = acc + ",\"description\":"@;
    append_json_string(out, a.details.description.as_str());
    proof {
        assert(out@ =~= old(out)@ + (acc + json_string(a.details.description@)));
    }
    let ghost acc = acc + json_string(a.details.description@);
    out.append(",\"material\":");
    proof {
        assert(out@ =~= old(out)@ + (acc + ",\"material\":"@));
    }
    let ghost acc = acc + ",\"material\":"@;
    append_material(out, &a.details.material);
    proof {
        assert(out@ =~= old(out)@ + (acc + json_material(a.details.material@)));
    }
    let ghost acc = acc + json_material(a.details.material@);
    out.append(",\"period\":");
    proof {
        assert(out@ =~= old(out)@ + (acc + ",\"period\":"@));
    }
    let ghost acc = acc + ",\"period\":"@;
    let period = a.details.period.label();
    append_json_string(out, period.as_str());
    proof {
        assert(out@ =~= old(out)@ + (acc + json_string(period_label(a.details.period))));
    }
    let ghost acc = acc + json_string(period_label(a.details.period));
    out.append(",\"condition\":");
    proof {
        assert(out@ =~= old(out)@ + (acc + ",\"condition\":"@));
    }
    let ghost acc = acc + ",\"condition\":"@;
    let condition = a.details.condition.label();
    append_json_string(out, condition.as_str());
    proof {
        assert(out@ =~= old(out)@ + (acc + json_string(condition_label(a.details.condition))));
    }
    let ghost acc = acc + json_string(condition_label(a.details.condition));
    out.append(",\"site\":");
    proof {
        assert(out@ =~= old(out)@ + (acc + ",\"site\":"@));
    }
    let ghost acc = acc + ",\"site\":"@;
    append_json_string(out, a.details.site.as_str());
    proof {
        assert(out@ =~= old(out)@ + (acc + json_string(a.details.site@)));
    }
    let ghost acc = acc + json_string(a.details.site@);
    out.append(",\"coordinates\":");
    proof {
        assert(out@ =~= old(out)@ + (acc + ",\"coordinates\":"@));
    }
    let ghost acc = acc + ",\"coordinates\":"@;
    append_coordinates(out, &a.details.coordinates);
    proof {
        assert(out@ =~= old(out)@ + (acc + json_coordinates(a.details.coordinates)));
    }
    let ghost acc = acc + json_coordinates(a.details.coordinates);
    out.append(",\"measurements\":");
    proof {
        assert(out@ =~= old(out)@ + (acc + ",\"measurements\":"@));
    }
    let ghost acc = acc + ",\"measurements\":"@;
    append_measurements(out, &a.details.measurements);
    proof {
        assert(out@ =~= old(out)@ + (acc + json_measurements(a.details.measurements)));
    }
    let ghost acc = acc + json_measurements(a.details.measurements);
    out.append(",\"notes\":");
    proof {
        assert(out@ =~= old(out)@ + (acc + ",\"notes\":"@));
    }
    let ghost acc = acc + ",\"notes\":"@;
    append_notes(out, &a.details.notes);
    proof {
        assert(out@ =~= old(out)@ + (acc + json_notes(a.details.notes.deep_view())));
    }
    let ghost acc = acc + json_notes(a.details.notes.deep_view());
    out.append("}");
    proof {
        assert(final(out)@ =~= old(out)@ + (acc + "}"@));
        assert(acc + "}"@ == json_artifact(a@));
    }
}

/// One step of the artifact list: one more artifact contributes a comma
/// (except at the front) and its object.
proof fn lemma_items_step(s: Seq<ArtifactModel>, i: int)
    requires
        0 <= i < s.len(),
    ensures
        json_items(s.take(i + 1)) == if i == 0 {
            json_artifact(s[0])
        } else {
            json_items(s.take(i)) + seq![','] + json_artifact(s[i])
        },
{
    let t = s.take(i + 1);
    assert(t.drop_last() =~= s.take(i));
    assert(t.last() == s[i]);
    if i == 0 {
        assert(json_items(t) == json_artifact(s[0]));
    } else {
        assert(json_items(t) == json_items(s.take(i)) + seq![','] + json_artifact(s[i]));
    }
}

/// Renders a snapshot of artifacts as the export text: a JSON array with
/// one object per artifact, in snapshot order.
pub fn render_catalog(artifacts: &Vec<Artifact>) -> (r: String)
    ensures
        r@ == json_catalog(crate::stats::models(artifacts@)),
{
    let ghost all = crate::stats::models(artifacts@);
    let mut out = String::new();
    proof {
        reveal_strlit("[");
        reveal_strlit("]");
        reveal_strlit(",");
    }
    out.append("[");
    proof {
        assert(all.take(0) =~= Seq::<ArtifactModel>::empty());
        assert(out@ =~= seq!['['] + json_items(all.take(0)));
    }
    let mut i: usize = 0;
    while i < artifacts.len()
        invariant
            i <= artifacts@.len(),
            all == crate::stats::models(artifacts@),
            all.len() == artifacts@.len(),
            out@ == seq!['['] + json_items(all.take(i as int)),
        decreases artifacts@.len() - i,
    {
        proof {
            reveal_strlit(",");
            lemma_items_step(all, i as int);
        }
        if i > 0 {
            out.append(",");
        }
        append_artifact(&mut out, &artifacts[i]);
        proof {
            assert(all[i as int] == artifacts@[i as int]@);
            assert(out@ =~= seq!['['] + json_items(all.take(i + 1)));
        }
        i = i + 1;
    }
    proof {
        assert(all.take(all.len() as int) =~= all);
    }
    out.append("]");
    proof {
        assert(out@ =~= json_catalog(all));
    }
    out
}

} // verus!
