//! `project.suiseiprj`, the file that says "this folder is a project": what
//! it holds, how it is written, and how a project's identity is made.
//!
//! The marker carries a format version, a stable identifier and a display
//! name, and nothing that grants anything.

use vstd::prelude::*;
use crate::text::{own, push_str, string_of};

verus! {

/// The marker's file name.
pub const MARKER: &'static str = "project.suiseiprj";

/// What the marker holds.
#[derive(Debug, Clone, PartialEq, Eq)]
pub struct Project {
    /// Format version.
    pub schema: u32,
    /// Stable identity, assigned once.
    pub project_id: String,
    /// Display name at creation.
    pub name: String,
}

/// How JSON writes one character inside a string: `"` and `\` escaped,
/// backspace, tab, line feed, form feed and carriage return by their
/// letters, the other control characters as `\u00XX` in lowercase hex,
/// everything else as it is.
pub open spec fn json_char(c: char) -> Seq<char> {
    if c == '"' {
        seq!['\\', '"']
    } else if c == '\\' {
        seq!['\\', '\\']
    } else if c == '\u{8}' {
        seq!['\\', 'b']
    } else if c == '\t' {
        seq!['\\', 't']
    } else if c == '\n' {
        seq!['\\', 'n']
    } else if c == '\u{c}' {
        seq!['\\', 'f']
    } else if c == '\r' {
        seq!['\\', 'r']
    } else if (c as u32) < 0x20 {
        seq!['\\', 'u', '0', '0', crate::media::hex_digit((c as u32 / 16) as nat), crate::media::hex_digit((c as u32 % 16) as nat)]
    } else {
        seq![c]
    }
}

pub open spec fn json_body(s: Seq<char>) -> Seq<char>
    decreases s.len(),
{
    if s.len() == 0 {
        Seq::empty()
    } else {
        json_body(s.drop_last()) + json_char(s.last())
    }
}

/// `s` as a JSON string literal.
pub open spec fn json_quoted(s: Seq<char>) -> Seq<char> {
    seq!['"'] + json_body(s) + seq!['"']
}

/// `s` as a JSON string, through `serde_json::to_string`.
///
/// serde_json writes a `str` as a quote, each character escaped as
/// `json_char` says (its `ESCAPE` table and `write_char_escape`), and a
/// quote; the writer is a `Vec`, which does not fail, and a `str` has no map
/// keys, so the empty string literal kept for an error is never reached.
#[verifier::external_body]
fn json_string(s: &str) -> (r: String)
    ensures
        r@ == json_quoted(s@),
{
    match serde_json::to_string(s) {
        Ok(v) => v,
        Err(_) => String::from("\"\""),
    }
}

/// The marker's text for a project with `schema`, `id` and `name`.
pub open spec fn marker_text(schema: u32, id: Seq<char>, name: Seq<char>) -> Seq<char> {
    "{\n  \"schema\": "@ + crate::text::decimal(schema as nat) + ",\n  \"project_id\": "@ + json_quoted(id)
        + ",\n  \"name\": "@ + json_quoted(name) + "\n}\n"@
}

impl Project {
    /// The marker's text: a small JSON object, one field to a line.
    pub fn to_json(&self) -> (s: String)
        ensures
            s@ == marker_text(self.schema, self.project_id@, self.name@),
    {
        let mut s = own("{\n  \"schema\": ");
        let n = crate::text::decimal_string(self.schema as usize);
        push_str(&mut s, n.as_str());
        push_str(&mut s, ",\n  \"project_id\": ");
        let id = json_string(self.project_id.as_str());
        push_str(&mut s, id.as_str());
        push_str(&mut s, ",\n  \"name\": ");
        let name = json_string(self.name.as_str());
        push_str(&mut s, name.as_str());
        push_str(&mut s, "\n}\n");
        s
    }
}

/// The characters a project id is spelt with: digits and lowercase letters
/// but `i`, `l`, `o` and `u`.
pub open spec fn id_alphabet() -> Seq<char> {
    seq![
        '0', '1', '2', '3', '4', '5', '6', '7', '8', '9', 'a', 'b', 'c', 'd', 'e', 'f',
        'g', 'h', 'j', 'k', 'm', 'n', 'p', 'q', 'r', 's', 't', 'v', 'w', 'x', 'y', 'z',
    ]
}

/// The low `n` five-bit digits of `v`, lowest first.
pub open spec fn base32_low(v: u64, n: nat) -> Seq<char>
    decreases n,
{
    if n == 0 {
        Seq::empty()
    } else {
        seq![id_alphabet()[(v % 32) as int]] + base32_low(v / 32, (n - 1) as nat)
    }
}

/// FNV-1a over `b`: from the offset basis, each byte XORed in and the
/// hash multiplied by the FNV prime, wrapping.
pub open spec fn fnv1a(b: Seq<u8>) -> u64
    decreases b.len(),
{
    if b.len() == 0 {
        0xcbf2_9ce4_8422_2325
    } else {
        (fnv1a(b.drop_last()) ^ (b.last() as u64)).wrapping_mul(0x0100_0000_01b3)
    }
}

/// A project id: `prj_`, then 13 digits of the clock and 13 of the path's
/// hash.
pub open spec fn project_id_spec(nanos: u64, path: Seq<u8>) -> Seq<char> {
    seq!['p', 'r', 'j', '_'] + base32_low(nanos, 13) + base32_low(fnv1a(path), 13)
}

fn push_base32(out: &mut Vec<char>, v: u64)
    ensures
        final(out)@ == old(out)@ + base32_low(v, 13),
{
    let alphabet: Vec<char> = vec![
        '0', '1', '2', '3', '4', '5', '6', '7', '8', '9', 'a', 'b', 'c', 'd', 'e', 'f',
        'g', 'h', 'j', 'k', 'm', 'n', 'p', 'q', 'r', 's', 't', 'v', 'w', 'x', 'y', 'z',
    ];
    assert(alphabet@ =~= id_alphabet());
    let mut w = v;
    let mut k: usize = 0;
    while k < 13
        invariant
            k <= 13,
            alphabet@ == id_alphabet(),
            old(out)@ + base32_low(v, 13) == out@ + base32_low(w, (13 - k) as nat),
        decreases 13 - k,
    {
        let ghost before = out@;
        out.push(alphabet[(w % 32) as usize]);
        assert(out@ + base32_low(w / 32, (13 - k - 1) as nat) =~= before + base32_low(w, (13 - k) as nat));
        w = w / 32;
        k += 1;
    }
    assert(out@ =~= out@ + base32_low(w, 0));
}

/// The id of a project created at `nanos` (since the epoch) in the folder
/// whose path is `path`: the path is mixed in so two projects created at
/// the same instant still differ.
pub fn project_id_for(nanos: u64, path: &[u8]) -> (id: String)
    ensures
        id@ == project_id_spec(nanos, path@),
        id@.len() == 30,
{
    let mut h: u64 = 0xcbf2_9ce4_8422_2325;
    let mut i: usize = 0;
    while i < path.len()
        invariant
            i <= path@.len(),
            h == fnv1a(path@.take(i as int)),
        decreases path@.len() - i,
    {
        assert(path@.take(i + 1).drop_last() =~= path@.take(i as int));
        h = (h ^ (path[i] as u64)).wrapping_mul(0x0100_0000_01b3);
        i += 1;
    }
    assert(path@.take(i as int) =~= path@);
    let mut out: Vec<char> = vec!['p', 'r', 'j', '_'];
    push_base32(&mut out, nanos);
    push_base32(&mut out, h);
    assert(out@ =~= project_id_spec(nanos, path@));
    proof {
        lemma_base32_len(nanos, 13);
        lemma_base32_len(h, 13);
    }
    string_of(out.as_slice())
}

proof fn lemma_base32_len(v: u64, n: nat)
    ensures
        base32_low(v, n).len() == n,
    decreases n,
{
    if n > 0 {
        lemma_base32_len(v / 32, (n - 1) as nat);
    }
}


// ── Reading the marker ─────────────────────────────────────────────────────

/// The fields a marker's JSON gives: `schema` when it is a number that fits
/// a `u64`, `project_id` and `name` when they are strings.
#[derive(Debug, Clone)]
pub struct MarkerFields {
    pub schema: Option<u64>,
    pub project_id: Option<String>,
    pub name: Option<String>,
}

/// A marker's fields as values.
pub open spec fn fields_view(f: MarkerFields) -> (Option<u64>, Option<Seq<char>>, Option<Seq<char>>) {
    (
        f.schema,
        match f.project_id {
            Some(s) => Some(s@),
            None => None,
        },
        match f.name {
            Some(s) => Some(s@),
            None => None,
        },
    )
}

/// The fields serde_json reads out of marker text: each is there when the
/// text parses as JSON with that key at its top and a value of the right
/// kind.
pub uninterp spec fn marker_fields_of(text: Seq<char>) -> (Option<u64>, Option<Seq<char>>, Option<Seq<char>>);

/// The fields of marker `text`, through `serde_json::from_str` into a
/// `Value`, then `Value::get` with `as_u64` or `as_str`; text that does not
/// parse gives none of them. The contract names the result: it depends on
/// the text alone.
#[verifier::external_body]
fn marker_fields(text: &str) -> (f: MarkerFields)
    ensures
        fields_view(f) == marker_fields_of(text@),
{
    let v: serde_json::Value = serde_json::from_str(text).unwrap_or(serde_json::Value::Null);
    MarkerFields {
        schema: v.get("schema").and_then(|x| x.as_u64()),
        project_id: v.get("project_id").and_then(|x| x.as_str()).map(|s| s.to_string()),
        name: v.get("name").and_then(|x| x.as_str()).map(|s| s.to_string()),
    }
}

/// The schema a marker's field gives: the number as a `u32` (its low 32
/// bits), 1 when there is none.
pub open spec fn schema_or_default(s: Option<u64>) -> u32 {
    match s {
        Some(n) => n as u32,
        None => 1,
    }
}

/// The project a marker's fields describe: a missing schema is 1, a missing
/// id is empty, and a missing name is the folder's name `dir_name`.
pub open spec fn project_of_fields(f: (Option<u64>, Option<Seq<char>>, Option<Seq<char>>), dir_name: Seq<char>) -> (u32, Seq<char>, Seq<char>) {
    (
        schema_or_default(f.0),
        match f.1 {
            Some(s) => s,
            None => Seq::empty(),
        },
        match f.2 {
            Some(s) => s,
            None => dir_name,
        },
    )
}

/// The project a marker's fields describe, with the defaults filled in.
pub fn project_from_fields(f: MarkerFields, dir_name: &str) -> (p: Project)
    ensures
        (p.schema, p.project_id@, p.name@) == project_of_fields(fields_view(f), dir_name@),
{
    let schema: u32 = match f.schema {
        Some(n) => {
            #[verifier::truncate]
            let s: u32 = n as u32;
            s
        },
        None => 1,
    };
    let project_id = match f.project_id {
        Some(s) => s,
        None => own(""),
    };
    let name = match f.name {
        Some(s) => s,
        None => own(dir_name),
    };
    proof {
        reveal_strlit("");
    }
    Project { schema, project_id, name }
}

/// The project marker `text` describes, for a folder named `dir_name`.
pub fn project_from_marker(text: &str, dir_name: &str) -> (p: Project)
    ensures
        (p.schema, p.project_id@, p.name@) == project_of_fields(marker_fields_of(text@), dir_name@),
{
    let f = marker_fields(text);
    project_from_fields(f, dir_name)
}

} // verus!
