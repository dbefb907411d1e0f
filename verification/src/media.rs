//! What kind of file a path names, by its extension and, when that does not
//! decide, by its first bytes; and the preview of an audio file.

use vstd::prelude::*;
use crate::text::{
    chars_of, own, push_str, push_char, lower_ascii_seq, chars_are, to_ascii_lower, string_of, split_lines, lines_of,
    views, append, slice_vec, trim_start_chars, lead_spaces, trimmed, parse_usize_spec, is_digit, decimal, signed_decimal,
};
use crate::logic::{find_from, occurs_at};
use crate::git::first_index;
use crate::preview::{PreviewLine, PreviewStyle, line_of, single_span};

verus! {

/// Lowercases `ext` (ASCII only) and compares with `name`.
fn ext_is(ext: &[char], name: &str) -> (b: bool)
    ensures
        b == (lower_ascii_seq(ext@) == name@),
{
    let l = to_ascii_lower(ext);
    chars_are(l.as_slice(), name)
}

pub open spec fn image_ext(e: Seq<char>) -> bool {
    let l = lower_ascii_seq(e);
    l == "png"@ || l == "jpg"@ || l == "jpeg"@ || l == "gif"@ || l == "webp"@ || l == "bmp"@ || l == "ico"@
}

pub open spec fn csv_ext(e: Seq<char>) -> bool {
    let l = lower_ascii_seq(e);
    l == "csv"@ || l == "tsv"@
}

pub open spec fn npy_ext(e: Seq<char>) -> bool {
    lower_ascii_seq(e) == "npy"@
}

pub open spec fn audio_ext(e: Seq<char>) -> bool {
    let l = lower_ascii_seq(e);
    l == "mp3"@ || l == "wav"@ || l == "flac"@ || l == "ogg"@ || l == "m4a"@ || l == "aac"@ || l == "aiff"@
        || l == "wma"@ || l == "opus"@
}

pub open spec fn pdf_ext(e: Seq<char>) -> bool {
    lower_ascii_seq(e) == "pdf"@
}

/// Image formats the system viewer draws that the editor's own decoder does
/// not.
pub open spec fn native_image_ext(e: Seq<char>) -> bool {
    let l = lower_ascii_seq(e);
    l == "tif"@ || l == "tiff"@ || l == "heic"@ || l == "heif"@ || l == "avif"@ || l == "jp2"@ || l == "psd"@
}

/// An image the editor can decode itself.
pub fn is_image_ext(ext: &str) -> (b: bool)
    ensures
        b == image_ext(ext@),
{
    let e = chars_of(ext);
    let e = e.as_slice();
    ext_is(e, "png") || ext_is(e, "jpg") || ext_is(e, "jpeg") || ext_is(e, "gif") || ext_is(e, "webp")
        || ext_is(e, "bmp") || ext_is(e, "ico")
}

pub fn is_csv_ext(ext: &str) -> (b: bool)
    ensures
        b == csv_ext(ext@),
{
    let e = chars_of(ext);
    ext_is(e.as_slice(), "csv") || ext_is(e.as_slice(), "tsv")
}

pub fn is_npy_ext(ext: &str) -> (b: bool)
    ensures
        b == npy_ext(ext@),
{
    let e = chars_of(ext);
    ext_is(e.as_slice(), "npy")
}

pub fn is_audio_ext(ext: &str) -> (b: bool)
    ensures
        b == audio_ext(ext@),
{
    let e = chars_of(ext);
    let e = e.as_slice();
    ext_is(e, "mp3") || ext_is(e, "wav") || ext_is(e, "flac") || ext_is(e, "ogg") || ext_is(e, "m4a")
        || ext_is(e, "aac") || ext_is(e, "aiff") || ext_is(e, "wma") || ext_is(e, "opus")
}

pub fn is_pdf_ext(ext: &str) -> (b: bool)
    ensures
        b == pdf_ext(ext@),
{
    let e = chars_of(ext);
    ext_is(e.as_slice(), "pdf")
}

fn is_native_image_ext(ext: &[char]) -> (b: bool)
    ensures
        b == native_image_ext(ext@),
{
    ext_is(ext, "tif") || ext_is(ext, "tiff") || ext_is(ext, "heic") || ext_is(ext, "heif") || ext_is(ext, "avif")
        || ext_is(ext, "jp2") || ext_is(ext, "psd")
}

// ── Paths ───────────────────────────────────────────────────────────────────

/// `p` without its trailing `/`s.
pub open spec fn strip_trailing_slashes(p: Seq<char>) -> Seq<char>
    decreases p.len(),
{
    if p.len() > 0 && p.last() == '/' {
        strip_trailing_slashes(p.drop_last())
    } else {
        p
    }
}

/// The index just after the last `/` among the first `n` characters, or 0.
pub open spec fn after_last_slash(p: Seq<char>, n: int) -> int
    decreases n,
{
    if n <= 0 {
        0
    } else if p[n - 1] == '/' {
        n
    } else {
        after_last_slash(p, n - 1)
    }
}

/// The path's last component.
pub open spec fn file_name_of(p: Seq<char>) -> Seq<char> {
    let q = strip_trailing_slashes(p);
    q.skip(after_last_slash(q, q.len() as int))
}

/// The index of the last `.` among the first `n` characters.
pub open spec fn last_dot(s: Seq<char>, n: int) -> Option<int>
    decreases n,
{
    if n <= 0 {
        None
    } else if s[n - 1] == '.' {
        Some(n - 1)
    } else {
        last_dot(s, n - 1)
    }
}

/// A path's extension: what follows the last `.` of its last component;
/// none when that component has no `.`, only a leading one, or is `.` or
/// `..`.
pub open spec fn extension_of(p: Seq<char>) -> Option<Seq<char>> {
    let name = file_name_of(p);
    if name.len() == 0 || name == "."@ || name == ".."@ {
        None
    } else {
        match last_dot(name, name.len() as int) {
            Some(i) => if i == 0 {
                None
            } else {
                Some(name.skip(i + 1))
            },
            None => None,
        }
    }
}

/// The extension of `path`.
pub fn extension(path: &str) -> (r: Option<Vec<char>>)
    ensures
        match r {
            Some(e) => extension_of(path@) == Some(e@),
            None => extension_of(path@) is None,
        },
{
    let p = chars_of(path);
    let mut n = p.len();
    assert(p@.take(n as int) =~= p@);
    while n > 0 && p[n - 1] == '/'
        invariant
            n <= p@.len(),
            p@ == path@,
            strip_trailing_slashes(p@.take(n as int)) == strip_trailing_slashes(path@),
        decreases n,
    {
        assert(p@.take(n as int).drop_last() =~= p@.take(n - 1));
        n -= 1;
    }
    let ghost q = p@.take(n as int);
    assert(strip_trailing_slashes(q) == q);
    let mut s = n;
    while s > 0 && p[s - 1] != '/'
        invariant
            s <= n <= p@.len(),
            q == p@.take(n as int),
            after_last_slash(q, s as int) == after_last_slash(q, n as int),
        decreases s,
    {
        s -= 1;
    }
    let name = crate::text::slice_vec(p.as_slice(), s, n);
    assert(name@ =~= file_name_of(path@));
    if name.len() == 0 || chars_are(name.as_slice(), ".") || chars_are(name.as_slice(), "..") {
        return None;
    }
    let mut d = name.len();
    while d > 0 && name[d - 1] != '.'
        invariant
            d <= name@.len(),
            last_dot(name@, d as int) == last_dot(name@, name@.len() as int),
        decreases d,
    {
        d -= 1;
    }
    if d <= 1 {
        return None;
    }
    let e = crate::text::slice_vec(name.as_slice(), d, name.len());
    assert(e@ =~= name@.skip(d as int));
    Some(e)
}

/// A file the preview can show: an image, a table, an array or audio.
pub fn is_media_path(path: &str) -> (b: bool)
    ensures
        b == match extension_of(path@) {
            Some(e) => image_ext(e) || csv_ext(e) || npy_ext(e) || audio_ext(e),
            None => false,
        },
{
    match extension(path) {
        Some(e) => {
            let s = crate::text::string_of(e.as_slice());
            let s = s.as_str();
            is_image_ext(s) || is_csv_ext(s) || is_npy_ext(s) || is_audio_ext(s)
        },
        None => false,
    }
}

// ── File kinds ──────────────────────────────────────────────────────────────

/// What a pane is showing.
#[derive(Debug, Clone, Copy, PartialEq, Eq, Structural, Default)]
pub enum FileKind {
    /// Editable text: the default whenever unsure.
    #[default]
    Text,
    Terminal,
    Image,
    Pdf,
    Audio,
    Binary,
}

impl FileKind {
    /// The number this kind travels as between the engine and the face.
    pub fn code(self) -> (c: u8)
        ensures
            c == match self {
                FileKind::Text => 0u8,
                FileKind::Terminal => 1u8,
                FileKind::Image => 2u8,
                FileKind::Pdf => 3u8,
                FileKind::Audio => 4u8,
                FileKind::Binary => 5u8,
            },
    {
        match self {
            FileKind::Text => 0,
            FileKind::Terminal => 1,
            FileKind::Image => 2,
            FileKind::Pdf => 3,
            FileKind::Audio => 4,
            FileKind::Binary => 5,
        }
    }

    /// Whether the pane goes to a viewer rather than the text editor.
    pub fn is_viewer(self) -> (b: bool)
        ensures
            b == !(self == FileKind::Text || self == FileKind::Terminal),
    {
        match self {
            FileKind::Text | FileKind::Terminal => false,
            _ => true,
        }
    }

    /// What to call this kind in a message.
    pub fn noun(self) -> (s: &'static str)
        ensures
            s == match self {
                FileKind::Text => "Text file",
                FileKind::Terminal => "Terminal",
                FileKind::Image => "Image",
                FileKind::Pdf => "PDF",
                FileKind::Audio => "Audio",
                FileKind::Binary => "Binary file",
            },
    {
        match self {
            FileKind::Text => "Text file",
            FileKind::Terminal => "Terminal",
            FileKind::Image => "Image",
            FileKind::Pdf => "PDF",
            FileKind::Audio => "Audio",
            FileKind::Binary => "Binary file",
        }
    }
}

/// What the extension alone decides.
pub open spec fn kind_by_ext(path: Seq<char>) -> Option<FileKind> {
    match extension_of(path) {
        Some(e) => if image_ext(e) || native_image_ext(e) {
            Some(FileKind::Image)
        } else if pdf_ext(e) {
            Some(FileKind::Pdf)
        } else if audio_ext(e) {
            Some(FileKind::Audio)
        } else {
            None
        },
        None => None,
    }
}

fn classify_ext(path: &str) -> (r: Option<FileKind>)
    ensures
        r == kind_by_ext(path@),
{
    let e = match extension(path) {
        Some(e) => e,
        None => {
            return None;
        },
    };
    let s = crate::text::string_of(e.as_slice());
    if is_image_ext(s.as_str()) || is_native_image_ext(e.as_slice()) {
        Some(FileKind::Image)
    } else if is_pdf_ext(s.as_str()) {
        Some(FileKind::Pdf)
    } else if is_audio_ext(s.as_str()) {
        Some(FileKind::Audio)
    } else {
        None
    }
}

/// The file's extension is `pdf` in any mix of ASCII case.
pub open spec fn pdf_named(path: Seq<char>) -> bool {
    extension_of(path) matches Some(e) && e.len() == 3 && (e[0] == 'p' || e[0] == 'P') && (e[1] == 'd' || e[1] == 'D')
        && (e[2] == 'f' || e[2] == 'F')
}

/// A file whose extension is `pdf`, in any ASCII case, is a PDF by its name
/// alone, whatever its bytes hold.
pub proof fn law_pdf_by_name(path: Seq<char>)
    requires
        pdf_named(path),
    ensures
        kind_by_ext(path) == Some(FileKind::Pdf),
{
    reveal_strlit("pdf");
    reveal_strlit("png");
    reveal_strlit("jpg");
    reveal_strlit("jpeg");
    reveal_strlit("gif");
    reveal_strlit("webp");
    reveal_strlit("bmp");
    reveal_strlit("ico");
    reveal_strlit("tif");
    reveal_strlit("tiff");
    reveal_strlit("heic");
    reveal_strlit("heif");
    reveal_strlit("avif");
    reveal_strlit("jp2");
    reveal_strlit("psd");
    let e = extension_of(path)->0;
    let l = lower_ascii_seq(e);
    assert(l =~= seq!['p', 'd', 'f']);
    assert("pdf"@ =~= seq!['p', 'd', 'f']);
    assert(l[1] == 'd');
    assert(!image_ext(e));
    assert(!native_image_ext(e));
    assert(pdf_ext(e));
}

/// How much of a file's start is examined for binary content.
pub const SNIFF_LEN: usize = 8192;

/// Bytes look binary when the first `SNIFF_LEN` of them hold a NUL.
pub open spec fn binary_bytes(b: Seq<u8>) -> bool {
    exists|i: int| 0 <= i < b.len() && i < SNIFF_LEN && b[i] == 0
}

/// Do these bytes look like a binary file?
pub fn looks_binary(b: &[u8]) -> (r: bool)
    ensures
        r == binary_bytes(b@),
{
    let mut i: usize = 0;
    while i < b.len() && i < SNIFF_LEN
        invariant
            i <= b@.len(),
            i <= SNIFF_LEN,
            forall|j: int| 0 <= j < i ==> b@[j] != 0,
        decreases b@.len() - i,
    {
        if b[i] == 0 {
            return true;
        }
        i += 1;
    }
    false
}

/// The kind of file at `path`, given the bytes read from it (`None` when the
/// read failed: an unreadable file is not a binary one).
pub fn classify_bytes(path: &str, bytes: Option<&[u8]>) -> (k: FileKind)
    ensures
        k == match kind_by_ext(path@) {
            Some(k) => k,
            None => match bytes {
                Some(b) => if binary_bytes(b@) {
                    FileKind::Binary
                } else {
                    FileKind::Text
                },
                None => FileKind::Text,
            },
        },
        pdf_named(path@) ==> k == FileKind::Pdf,
{
    proof {
        if pdf_named(path@) {
            law_pdf_by_name(path@);
        }
    }
    match classify_ext(path) {
        Some(k) => k,
        None => match bytes {
            Some(b) => if looks_binary(b) {
                FileKind::Binary
            } else {
                FileKind::Text
            },
            None => FileKind::Text,
        },
    }
}

// ── Audio ───────────────────────────────────────────────────────────────────

/// The lines the preview shows for an audio file.
pub open spec fn audio_lines_spec(name: Seq<char>, playing: bool) -> Seq<(Seq<char>, PreviewStyle)> {
    seq![
        ("  Audio"@, PreviewStyle::H2),
        ("  "@ + name, PreviewStyle::Normal),
        ("  "@ + (if playing { "▶ playing"@ } else { "■ stopped"@ }), PreviewStyle::Code),
        (""@, PreviewStyle::Normal),
        ("  Space  play / stop"@, PreviewStyle::Dim),
        ("  Esc    close preview"@, PreviewStyle::Dim),
        ("  (uses afplay / ffplay / mpv)"@, PreviewStyle::Dim),
    ]
}

/// The name shown for an audio file: its last path component, or `audio`.
pub open spec fn audio_name(path: Seq<char>) -> Seq<char> {
    if file_name_of(path).len() == 0 || file_name_of(path) == ".."@ {
        "audio"@
    } else {
        file_name_of(path)
    }
}

fn styled(text: &str, style: PreviewStyle) -> (l: PreviewLine)
    ensures
        single_span(l) == Some((text@, style)),
{
    line_of(own(text), style)
}

fn prefixed(text: &str, style: PreviewStyle) -> (l: PreviewLine)
    ensures
        single_span(l) == Some(("  "@ + text@, style)),
{
    let mut s = own("  ");
    push_str(&mut s, text);
    line_of(s, style)
}

/// The preview of an audio file: its name, whether it is playing, and the
/// keys.
pub fn audio_info_lines(path: &str, playing: bool) -> (v: Vec<PreviewLine>)
    ensures
        v@.len() == 7,
        forall|i: int| 0 <= i < 7 ==> single_span(#[trigger] v@[i]) == Some(audio_lines_spec(audio_name(path@), playing)[i]),
{
    let p = chars_of(path);
    let mut n = p.len();
    assert(p@.take(n as int) =~= p@);
    while n > 0 && p[n - 1] == '/'
        invariant
            n <= p@.len(),
            p@ == path@,
            strip_trailing_slashes(p@.take(n as int)) == strip_trailing_slashes(path@),
        decreases n,
    {
        assert(p@.take(n as int).drop_last() =~= p@.take(n - 1));
        n -= 1;
    }
    let ghost q = p@.take(n as int);
    let mut s = n;
    while s > 0 && p[s - 1] != '/'
        invariant
            s <= n <= p@.len(),
            q == p@.take(n as int),
            after_last_slash(q, s as int) == after_last_slash(q, n as int),
        decreases s,
    {
        s -= 1;
    }
    let name_v = crate::text::slice_vec(p.as_slice(), s, n);
    assert(name_v@ =~= file_name_of(path@));
    let name = if name_v.len() == 0 || chars_are(name_v.as_slice(), "..") {
        own("audio")
    } else {
        crate::text::string_of(name_v.as_slice())
    };
    let status = if playing { "▶ playing" } else { "■ stopped" };
    let mut v: Vec<PreviewLine> = Vec::new();
    v.push(styled("  Audio", PreviewStyle::H2));
    v.push(prefixed(name.as_str(), PreviewStyle::Normal));
    v.push(prefixed(status, PreviewStyle::Code));
    v.push(styled("", PreviewStyle::Normal));
    v.push(styled("  Space  play / stop", PreviewStyle::Dim));
    v.push(styled("  Esc    close preview", PreviewStyle::Dim));
    v.push(styled("  (uses afplay / ffplay / mpv)", PreviewStyle::Dim));
    v
}

// ── CSV ─────────────────────────────────────────────────────────────────────

/// What `UnicodeWidthChar::width` gives for `c`: the columns it takes on a
/// terminal, `None` for a control character.
pub uninterp spec fn char_width(c: char) -> Option<usize>;

/// `unicode_width::UnicodeWidthChar::width`. Claimed of it, as its lookup
/// code reads: C0 and C1 control characters have no width, printable ASCII
/// one column, and every character from U+00A0 on a width read from a table
/// of bytes. Which width that is, the name stands for.
#[verifier::external_body]
fn unicode_char_width(c: char) -> (r: Option<usize>)
    ensures
        r == char_width(c),
        (c as u32) < 0x20 ==> r is None,
        0x20 <= (c as u32) < 0x7F ==> r == Some(1usize),
        0x7F <= (c as u32) < 0xA0 ==> r is None,
        0xA0 <= (c as u32) ==> r is Some && r->0 <= 255,
{
    unicode_width::UnicodeWidthChar::width(c)
}

/// Columns a character takes in a table cell; a control character counts
/// as one.
pub open spec fn col_w(c: char) -> nat {
    match char_width(c) {
        Some(n) => n as nat,
        None => 1,
    }
}

/// Columns `s` takes.
pub open spec fn text_w(s: Seq<char>) -> nat
    decreases s.len(),
{
    if s.len() == 0 {
        0
    } else {
        text_w(s.drop_last()) + col_w(s.last())
    }
}

/// Columns at most a cell is given.
pub const MAX_CELL_W: usize = 24;

/// Columns at most a table shows.
pub const MAX_COLS: usize = 12;

/// Rows at most a table reads, header included.
pub const MAX_ROWS: usize = 200;

/// The fields of one CSV line from index `i`, inside quotes or not, `cur`
/// the field so far: `sep` splits outside quotes, a quote toggles quoting,
/// and a doubled quote inside quotes is a literal quote.
pub open spec fn csv_fields(l: Seq<char>, sep: char, i: int, in_q: bool, cur: Seq<char>) -> Seq<Seq<char>>
    decreases l.len() - i,
{
    if i < 0 || i >= l.len() {
        seq![cur]
    } else if l[i] == '"' {
        if in_q && i + 1 < l.len() && l[i + 1] == '"' {
            csv_fields(l, sep, i + 2, in_q, cur.push('"'))
        } else {
            csv_fields(l, sep, i + 1, !in_q, cur)
        }
    } else if l[i] == sep && !in_q {
        seq![cur] + csv_fields(l, sep, i + 1, in_q, Seq::empty())
    } else {
        csv_fields(l, sep, i + 1, in_q, cur.push(l[i]))
    }
}

/// The fields of one CSV line.
pub open spec fn csv_split(l: Seq<char>, sep: char) -> Seq<Seq<char>> {
    csv_fields(l, sep, 0, false, Seq::empty())
}

/// Split one CSV line at `sep`, honouring double quotes.
pub fn split_csv_line(line: &[char], sep: char) -> (r: Vec<Vec<char>>)
    ensures
        views(r@) == csv_split(line@, sep),
{
    let mut out: Vec<Vec<char>> = Vec::new();
    let mut cur: Vec<char> = Vec::new();
    let mut in_q = false;
    let mut i: usize = 0;
    while i < line.len()
        invariant
            i <= line@.len(),
            views(out@) + csv_fields(line@, sep, i as int, in_q, cur@) == csv_split(line@, sep),
        decreases line@.len() - i,
    {
        let c = line[i];
        if c == '"' {
            if in_q && i + 1 < line.len() && line[i + 1] == '"' {
                cur.push('"');
                i += 2;
            } else {
                in_q = !in_q;
                i += 1;
            }
        } else if c == sep && !in_q {
            let ghost before = views(out@);
            let ghost cv = cur@;
            out.push(cur);
            cur = Vec::new();
            assert(views(out@) =~= before + seq![cv]);
            assert(views(out@) + csv_fields(line@, sep, i + 1, in_q, cur@) =~= before + csv_fields(
                line@,
                sep,
                i as int,
                in_q,
                cv,
            ));
            i += 1;
        } else {
            cur.push(c);
            i += 1;
        }
    }
    let ghost before = views(out@);
    let ghost cv = cur@;
    out.push(cur);
    assert(views(out@) =~= before + seq![cv]);
    out
}

/// The table a CSV text holds: its first `MAX_ROWS` lines split into
/// fields, at most `MAX_COLS` of them each.
pub open spec fn csv_table(text: Seq<char>, sep: char) -> Seq<Seq<Seq<char>>> {
    let ls = lines_of(text);
    let n = if ls.len() <= MAX_ROWS { ls.len() as int } else { MAX_ROWS as int };
    Seq::new(n as nat, |i: int| {
        let f = csv_split(ls[i], sep);
        if f.len() <= MAX_COLS { f } else { f.take(MAX_COLS as int) }
    })
}

pub open spec fn max_nat(a: nat, b: nat) -> nat {
    if a >= b { a } else { b }
}

/// The most columns any of the first `n` rows has.
pub open spec fn max_cols(tab: Seq<Seq<Seq<char>>>, n: int) -> nat
    decreases n,
{
    if n <= 0 {
        0
    } else {
        max_nat(max_cols(tab, n - 1), tab[n - 1].len())
    }
}

/// The widest cell of column `c` among the first `n` rows, each cell
/// counted at most `MAX_CELL_W` wide.
pub open spec fn col_max(tab: Seq<Seq<Seq<char>>>, c: int, n: int) -> nat
    decreases n,
{
    if n <= 0 {
        0
    } else {
        let m = col_max(tab, c, n - 1);
        if c < tab[n - 1].len() {
            let w = text_w(tab[n - 1][c]);
            max_nat(m, if w <= MAX_CELL_W { w } else { MAX_CELL_W as nat })
        } else {
            m
        }
    }
}

/// The width of each column: its widest cell, and at least one.
pub open spec fn col_widths(tab: Seq<Seq<Seq<char>>>) -> Seq<nat> {
    Seq::new(max_cols(tab, tab.len() as int), |c: int| max_nat(1, col_max(tab, c, tab.len() as int)))
}

/// A cell clipped to `w` columns from its `i`-th character, `used` columns
/// already taken: what is kept, and the columns it takes. A cell that does
/// not fit ends in an ellipsis when there is room for one.
pub open spec fn clip_from(cell: Seq<char>, w: nat, i: int, used: nat) -> (Seq<char>, nat)
    decreases cell.len() - i,
{
    if i < 0 || i >= cell.len() {
        (Seq::empty(), used)
    } else if used + col_w(cell[i]) > w {
        if used < w {
            (seq!['…'], used + 1)
        } else {
            (Seq::empty(), used)
        }
    } else {
        let r = clip_from(cell, w, i + 1, used + col_w(cell[i]));
        (seq![cell[i]] + r.0, r.1)
    }
}

/// `n` spaces.
pub open spec fn spaces(n: nat) -> Seq<char> {
    Seq::new(n, |i: int| ' ')
}

/// A cell as drawn in a column `w` wide: clipped, then padded.
pub open spec fn cell_text(cell: Seq<char>, w: nat) -> Seq<char> {
    let r = clip_from(cell, w, 0, 0);
    r.0 + spaces(if r.1 <= w { (w - r.1) as nat } else { 0 })
}

/// The cell of `row` in column `c`, empty where the row is short.
pub open spec fn cell_at(row: Seq<Seq<char>>, c: int) -> Seq<char> {
    if 0 <= c < row.len() { row[c] } else { Seq::empty() }
}

/// The first `k` columns of a row, each followed by a divider but the last
/// of all.
pub open spec fn row_cells(row: Seq<Seq<char>>, widths: Seq<nat>, k: int) -> Seq<char>
    decreases k,
{
    if k <= 0 {
        Seq::empty()
    } else {
        row_cells(row, widths, k - 1) + cell_text(cell_at(row, k - 1), widths[k - 1]) + (if k < widths.len() {
            " │ "@
        } else {
            Seq::empty()
        })
    }
}

/// A table row as drawn.
pub open spec fn row_text(row: Seq<Seq<char>>, widths: Seq<nat>) -> Seq<char> {
    "  "@ + row_cells(row, widths, widths.len() as int)
}

/// `n` horizontal rules.
pub open spec fn rules(n: nat) -> Seq<char> {
    Seq::new(n, |i: int| '─')
}

pub open spec fn sum_nat(s: Seq<nat>, n: int) -> nat
    decreases n,
{
    if n <= 0 { 0 } else { sum_nat(s, n - 1) + s[n - 1] }
}

/// The rule under the header: as wide as the columns and dividers, kept
/// between 8 and 200.
pub open spec fn rule_len(widths: Seq<nat>) -> nat {
    let r = sum_nat(widths, widths.len() as int) + (if widths.len() > 0 { (widths.len() - 1) * 3 } else { 0int });
    if r < 8 { 8 } else if r > 200 { 200 } else { r as nat }
}

/// The title line of a CSV preview.
pub open spec fn csv_title(tsv: bool) -> Seq<char> {
    if tsv { "  CSV/TSV table  ·  sep='\\t'"@ } else { "  CSV/TSV table  ·  sep=','"@ }
}

/// The preview of a CSV (or, with `tsv`, TSV) text: a title and a blank
/// line; then, when there are lines, the header and a rule under it and
/// every further row, alternately plain and dim; a note when lines were
/// left out; and "(empty)" when there was nothing to show.
pub open spec fn csv_lines(text: Seq<char>, tsv: bool) -> Seq<(Seq<char>, PreviewStyle)> {
    let tab = csv_table(text, if tsv { '\t' } else { ',' });
    let widths = col_widths(tab);
    let head = seq![(csv_title(tsv), PreviewStyle::Dim), (Seq::<char>::empty(), PreviewStyle::Normal)];
    let top = if tab.len() > 0 {
        seq![(row_text(tab[0], widths), PreviewStyle::H3), ("  "@ + rules(rule_len(widths)), PreviewStyle::Hr)]
    } else {
        Seq::empty()
    };
    let body = Seq::new(
        (if tab.len() > 0 { tab.len() - 1 } else { 0int }) as nat,
        |i: int| (row_text(tab[i + 1], widths), if i % 2 == 0 { PreviewStyle::Normal } else { PreviewStyle::Dim }),
    );
    let more = if lines_of(text).len() > MAX_ROWS {
        seq![("  … truncated (200 rows)"@, PreviewStyle::Dim)]
    } else {
        Seq::empty()
    };
    let all = head + top + body + more;
    if all.len() <= 2 { all + seq![("(empty)"@, PreviewStyle::Dim)] } else { all }
}

proof fn lemma_text_w_step(s: Seq<char>, i: int)
    requires
        0 <= i < s.len(),
    ensures
        text_w(s.take(i + 1)) == text_w(s.take(i)) + col_w(s[i]),
{
    assert(s.take(i + 1).drop_last() =~= s.take(i));
}

proof fn lemma_text_w_prefix(s: Seq<char>, i: int, j: int)
    requires
        0 <= i <= j <= s.len(),
    ensures
        text_w(s.take(i)) <= text_w(s.take(j)),
    decreases j - i,
{
    if i < j {
        lemma_text_w_prefix(s, i, j - 1);
        lemma_text_w_step(s, j - 1);
    }
}

/// A cell's width, counted up to `MAX_CELL_W`.
fn capped_width(cell: &[char]) -> (w: usize)
    ensures
        w == (if text_w(cell@) <= MAX_CELL_W { text_w(cell@) } else { MAX_CELL_W as nat }),
{
    let mut acc: usize = 0;
    let mut i: usize = 0;
    while i < cell.len() && acc <= MAX_CELL_W
        invariant
            i <= cell@.len(),
            acc == text_w(cell@.take(i as int)),
            acc <= MAX_CELL_W + 255,
        decreases cell@.len() - i,
    {
        let cw = match unicode_char_width(cell[i]) {
            Some(n) => n,
            None => 1,
        };
        proof {
            lemma_text_w_step(cell@, i as int);
        }
        acc = acc + cw;
        i += 1;
    }
    proof {
        lemma_text_w_prefix(cell@, i as int, cell@.len() as int);
        assert(cell@.take(cell@.len() as int) =~= cell@);
    }
    if acc <= MAX_CELL_W { acc } else { MAX_CELL_W }
}

/// A cell clipped to `w` columns, and the columns it takes.
fn clip_cell(cell: &[char], w: usize) -> (r: (Vec<char>, usize))
    requires
        w <= MAX_CELL_W,
    ensures
        r.0@ == clip_from(cell@, w as nat, 0, 0).0,
        r.1 == clip_from(cell@, w as nat, 0, 0).1,
        r.1 <= w,
{
    let mut out: Vec<char> = Vec::new();
    let mut used: usize = 0;
    let mut i: usize = 0;
    let mut done = false;
    while i < cell.len() && !done
        invariant
            i <= cell@.len(),
            used <= w <= MAX_CELL_W,
            !done ==> ({
                let r = clip_from(cell@, w as nat, i as int, used as nat);
                let whole = clip_from(cell@, w as nat, 0, 0);
                &&& out@ + r.0 == whole.0
                &&& r.1 == whole.1
            }),
            done ==> out@ == clip_from(cell@, w as nat, 0, 0).0 && used == clip_from(cell@, w as nat, 0, 0).1,
        decreases cell@.len() - i + (if done { 0int } else { 1int }),
    {
        let c = cell[i];
        let cw = match unicode_char_width(c) {
            Some(n) => n,
            None => 1,
        };
        if used + cw > w {
            if used < w {
                out.push('…');
                used += 1;
            }
            done = true;
        } else {
            let ghost r2 = clip_from(cell@, w as nat, i + 1, (used + cw) as nat);
            assert(seq![c] + r2.0 == clip_from(cell@, w as nat, i as int, used as nat).0);
            out.push(c);
            assert(out@ + r2.0 =~= old_out_plus(out@, c, r2.0));
            used = used + cw;
            i += 1;
        }
    }
    (out, used)
}

spec fn old_out_plus(out: Seq<char>, c: char, rest: Seq<char>) -> Seq<char> {
    out.drop_last() + (seq![c] + rest)
}

/// The values of a vector of widths.
pub open spec fn nats(v: Seq<usize>) -> Seq<nat> {
    Seq::new(v.len(), |i: int| v[i] as nat)
}

/// The rows of a table as values.
pub open spec fn table_view(t: Seq<Vec<Vec<char>>>) -> Seq<Seq<Seq<char>>> {
    Seq::new(t.len(), |i: int| views(t[i]@))
}

/// `out` with `n` copies of `c` after it.
fn push_n(out: &mut Vec<char>, c: char, n: usize)
    ensures
        final(out)@ == old(out)@ + Seq::new(n as nat, |i: int| c),
{
    let mut k: usize = 0;
    while k < n
        invariant
            k <= n,
            out@ == old(out)@ + Seq::new(k as nat, |i: int| c),
        decreases n - k,
    {
        out.push(c);
        assert(out@ =~= old(out)@ + Seq::new((k + 1) as nat, |i: int| c));
        k += 1;
    }
}

/// A table row drawn in columns `widths` wide.
fn fmt_row(row: &Vec<Vec<char>>, widths: &Vec<usize>) -> (s: Vec<char>)
    requires
        forall|k: int| 0 <= k < widths@.len() ==> widths@[k] <= MAX_CELL_W,
    ensures
        s@ == row_text(views(row@), nats(widths@)),
{
    let ghost rv = views(row@);
    let ghost wv = nats(widths@);
    let mut out: Vec<char> = Vec::new();
    out.push(' ');
    out.push(' ');
    proof {
        reveal_strlit("  ");
        assert(out@ =~= "  "@ + row_cells(rv, wv, 0));
    }
    let empty: Vec<char> = Vec::new();
    let sep = chars_of(" │ ");
    let mut k: usize = 0;
    while k < widths.len()
        invariant
            k <= widths@.len(),
            rv == views(row@),
            wv == nats(widths@),
            sep@ == " │ "@,
            empty@.len() == 0,
            forall|j: int| 0 <= j < widths@.len() ==> widths@[j] <= MAX_CELL_W,
            out@ == "  "@ + row_cells(rv, wv, k as int),
        decreases widths@.len() - k,
    {
        let w = widths[k];
        let cell: &Vec<char> = if k < row.len() { &row[k] } else { &empty };
        assert(cell@ == crate::media::cell_at(rv, k as int)) by {
            if k >= row@.len() {
                assert(empty@ =~= Seq::<char>::empty());
            }
        }
        let (clipped, used) = clip_cell(cell.as_slice(), w);
        let ghost before = out@;
        append(&mut out, clipped.as_slice());
        push_n(&mut out, ' ', w - used);
        assert(Seq::new((w - used) as nat, |i: int| ' ') =~= spaces((w - used) as nat));
        if k + 1 < widths.len() {
            append(&mut out, sep.as_slice());
            assert(out@ =~= "  "@ + row_cells(rv, wv, k + 1));
        } else {
            assert(out@ =~= "  "@ + row_cells(rv, wv, k + 1));
        }
        k += 1;
    }
    out
}

/// A line of one span holding `v`.
fn chars_line(v: &[char], style: PreviewStyle) -> (l: PreviewLine)
    ensures
        single_span(l) == Some((v@, style)),
{
    line_of(string_of(v), style)
}

proof fn lemma_table_view_push(s: Seq<Vec<Vec<char>>>, x: Vec<Vec<char>>)
    ensures
        table_view(s.push(x)) == table_view(s).push(views(x@)),
{
    assert(table_view(s.push(x)) =~= table_view(s).push(views(x@)));
}

/// The first `MAX_ROWS` lines of `text` split into fields, `MAX_COLS` at
/// most each; and whether lines were left out.
fn csv_rows(text: &str, sep: char) -> (r: (Vec<Vec<Vec<char>>>, bool))
    ensures
        table_view(r.0@) == csv_table(text@, sep),
        r.1 == (lines_of(text@).len() > MAX_ROWS),
        forall|q: int| 0 <= q < r.0@.len() ==> #[trigger] r.0@[q]@.len() <= MAX_COLS,
{
    let cs = chars_of(text);
    let ls = split_lines(cs.as_slice());
    let n = if ls.len() <= MAX_ROWS { ls.len() } else { MAX_ROWS };
    let ghost tab = csv_table(text@, sep);
    let mut rows: Vec<Vec<Vec<char>>> = Vec::new();
    let mut i: usize = 0;
    while i < n
        invariant
            i <= n <= ls@.len(),
            n == tab.len(),
            views(ls@) == lines_of(text@),
            tab == csv_table(text@, sep),
            table_view(rows@) == tab.take(i as int),
            forall|q: int| 0 <= q < rows@.len() ==> #[trigger] rows@[q]@.len() <= MAX_COLS,
        decreases n - i,
    {
        let mut f = split_csv_line(ls[i].as_slice(), sep);
        assert(views(ls@)[i as int] == ls@[i as int]@);
        if f.len() > MAX_COLS {
            let ghost fv = views(f@);
            f.truncate(MAX_COLS);
            assert(views(f@) =~= fv.take(MAX_COLS as int));
        }
        assert(views(f@) == tab[i as int]);
        let ghost before = rows@;
        let ghost fv = f;
        rows.push(f);
        proof {
            lemma_table_view_push(before, fv);
            assert(tab.take(i + 1) =~= tab.take(i as int).push(tab[i as int]));
        }
        i += 1;
    }
    assert(table_view(rows@) =~= tab);
    (rows, ls.len() > MAX_ROWS)
}

/// The width of each column of a table (see `col_widths`).
fn table_widths(rows: &Vec<Vec<Vec<char>>>) -> (w: Vec<usize>)
    requires
        forall|q: int| 0 <= q < rows@.len() ==> #[trigger] rows@[q]@.len() <= MAX_COLS,
    ensures
        nats(w@) == col_widths(table_view(rows@)),
        w@.len() <= MAX_COLS,
        forall|k: int| 0 <= k < w@.len() ==> 1 <= #[trigger] w@[k] <= MAX_CELL_W,
{
    let ghost tab = table_view(rows@);
    let n = rows.len();
    let mut ncols: usize = 0;
    let mut r: usize = 0;
    while r < n
        invariant
            r <= n == rows@.len(),
            tab == table_view(rows@),
            ncols == max_cols(tab, r as int),
            ncols <= MAX_COLS,
            forall|q: int| 0 <= q < rows@.len() ==> #[trigger] rows@[q]@.len() <= MAX_COLS,
        decreases n - r,
    {
        assert(tab[r as int] == views(rows@[r as int]@));
        if rows[r].len() > ncols {
            ncols = rows[r].len();
        }
        r += 1;
    }
    let mut widths: Vec<usize> = Vec::new();
    let mut c: usize = 0;
    while c < ncols
        invariant
            c <= ncols <= MAX_COLS,
            n == rows@.len(),
            tab == table_view(rows@),
            ncols == max_cols(tab, tab.len() as int),
            nats(widths@) == col_widths(tab).take(c as int),
            widths@.len() == c,
            forall|k: int| 0 <= k < widths@.len() ==> 1 <= #[trigger] widths@[k] <= MAX_CELL_W,
        decreases ncols - c,
    {
        let mut m: usize = 0;
        let mut q: usize = 0;
        while q < n
            invariant
                q <= n == rows@.len(),
                tab == table_view(rows@),
                m == col_max(tab, c as int, q as int),
                m <= MAX_CELL_W,
            decreases n - q,
        {
            assert(tab[q as int] == views(rows@[q as int]@));
            if c < rows[q].len() {
                assert(views(rows@[q as int]@)[c as int] == rows@[q as int]@[c as int]@);
                let w = capped_width(rows[q][c].as_slice());
                if w > m {
                    m = w;
                }
            }
            q += 1;
        }
        let w = if m >= 1 { m } else { 1 };
        let ghost before = widths@;
        widths.push(w);
        assert(nats(widths@) =~= col_widths(tab).take(c + 1)) by {
            assert(col_widths(tab)[c as int] == max_nat(1, col_max(tab, c as int, tab.len() as int)));
            assert forall|k: int| 0 <= k <= c implies #[trigger] nats(widths@)[k] == col_widths(tab).take(
                c + 1,
            )[k] by {
                if k < c {
                    assert(nats(before)[k] == col_widths(tab).take(c as int)[k]);
                }
            }
        }
        c += 1;
    }
    assert(nats(widths@) =~= col_widths(tab));
    widths
}

/// The rule under the header.
fn rule_line(widths: &Vec<usize>) -> (line: Vec<char>)
    requires
        widths@.len() <= MAX_COLS,
        forall|k: int| 0 <= k < widths@.len() ==> 1 <= #[trigger] widths@[k] <= MAX_CELL_W,
    ensures
        line@ == "  "@ + rules(rule_len(nats(widths@))),
{
    let ghost wv = nats(widths@);
    let mut total: usize = 0;
    let mut k: usize = 0;
    while k < widths.len()
        invariant
            k <= widths@.len() <= MAX_COLS,
            wv == nats(widths@),
            forall|j: int| 0 <= j < widths@.len() ==> 1 <= #[trigger] widths@[j] <= MAX_CELL_W,
            total == sum_nat(wv, k as int),
            total <= k * MAX_CELL_W,
        decreases widths@.len() - k,
    {
        assert(wv[k as int] == widths@[k as int]);
        total = total + widths[k];
        k += 1;
    }
    let nw = widths.len();
    let rule_raw = if nw > 0 { total + (nw - 1) * 3 } else { total };
    let rule = if rule_raw < 8 { 8 } else if rule_raw > 200 { 200 } else { rule_raw };
    let mut line: Vec<char> = Vec::new();
    line.push(' ');
    line.push(' ');
    push_n(&mut line, '─', rule);
    proof {
        reveal_strlit("  ");
        assert(line@ =~= "  "@ + rules(rule_len(wv)));
    }
    line
}

/// The preview of a CSV text, or with `tsv` a TSV one: a title and a blank
/// line, the header with a rule under it, every further row alternately
/// plain and dim, sized so the columns line up (see `csv_lines`).
pub fn render_csv(text: &str, tsv: bool) -> (v: Vec<PreviewLine>)
    ensures
        v@.len() == csv_lines(text@, tsv).len(),
        forall|i: int| 0 <= i < v@.len() ==> single_span(#[trigger] v@[i]) == Some(csv_lines(text@, tsv)[i]),
{
    let sep = if tsv { '\t' } else { ',' };
    let (rows, more_lines) = csv_rows(text, sep);
    let ghost tab = csv_table(text@, sep);
    let widths = table_widths(&rows);
    let n = rows.len();
    let ghost wv = col_widths(tab);
    let ghost head = seq![(csv_title(tsv), PreviewStyle::Dim), (Seq::<char>::empty(), PreviewStyle::Normal)];
    let ghost top: Seq<(Seq<char>, PreviewStyle)> = if tab.len() > 0 {
        seq![(row_text(tab[0], wv), PreviewStyle::H3), ("  "@ + rules(rule_len(wv)), PreviewStyle::Hr)]
    } else {
        Seq::empty()
    };
    let ghost body = Seq::new(
        (if tab.len() > 0 { tab.len() - 1 } else { 0int }) as nat,
        |i: int| (row_text(tab[i + 1], wv), if i % 2 == 0 { PreviewStyle::Normal } else { PreviewStyle::Dim }),
    );
    let ghost exp = head + top + body;
    let mut out: Vec<PreviewLine> = Vec::new();
    let title = if tsv { own("  CSV/TSV table  ·  sep='\\t'") } else { own("  CSV/TSV table  ·  sep=','") };
    out.push(line_of(title, PreviewStyle::Dim));
    out.push(line_of(String::new(), PreviewStyle::Normal));
    if n > 0 {
        assert(table_view(rows@)[0] == views(rows@[0]@));
        let h = fmt_row(&rows[0], &widths);
        out.push(chars_line(h.as_slice(), PreviewStyle::H3));
        let line = rule_line(&widths);
        out.push(chars_line(line.as_slice(), PreviewStyle::Hr));
    }
    let mut ri: usize = 1;
    while ri < n
        invariant
            1 <= ri,
            ri <= n || (n == 0 && ri == 1),
            n == rows@.len() == tab.len(),
            table_view(rows@) == tab,
            nats(widths@) == wv,
            wv == col_widths(tab),
            exp == head + top + body,
            head.len() == 2,
            top.len() == (if tab.len() > 0 { 2int } else { 0int }),
            body == Seq::new(
                (if tab.len() > 0 { tab.len() - 1 } else { 0int }) as nat,
                |i: int| (row_text(tab[i + 1], wv), if i % 2 == 0 { PreviewStyle::Normal } else { PreviewStyle::Dim }),
            ),
            forall|j: int| 0 <= j < widths@.len() ==> 1 <= #[trigger] widths@[j] <= MAX_CELL_W,
            out@.len() == head.len() + top.len() + (ri - 1),
            forall|j: int| 0 <= j < out@.len() ==> single_span(#[trigger] out@[j]) == Some(exp[j]),
        decreases n - ri,
    {
        let style = if (ri - 1) % 2 == 0 { PreviewStyle::Normal } else { PreviewStyle::Dim };
        assert(table_view(rows@)[ri as int] == views(rows@[ri as int]@));
        let t = fmt_row(&rows[ri], &widths);
        let ghost j = out@.len() as int;
        out.push(chars_line(t.as_slice(), style));
        assert(exp[j] == body[ri - 1]);
        ri += 1;
    }
    assert(out@.len() == exp.len());
    let ghost more: Seq<(Seq<char>, PreviewStyle)> = if more_lines {
        seq![("  … truncated (200 rows)"@, PreviewStyle::Dim)]
    } else {
        Seq::empty()
    };
    if more_lines {
        out.push(line_of(own("  … truncated (200 rows)"), PreviewStyle::Dim));
    }
    let ghost all = exp + more;
    assert(out@.len() == all.len());
    assert(forall|j: int| 0 <= j < out@.len() ==> single_span(#[trigger] out@[j]) == Some(all[j]));
    if out.len() <= 2 {
        out.push(line_of(own("(empty)"), PreviewStyle::Dim));
    }
    out
}

// ── NPY ─────────────────────────────────────────────────────────────────────

/// What `String::from_utf8_lossy` makes of `b`: its UTF-8 text, with each
/// invalid sequence replaced by U+FFFD.
pub uninterp spec fn lossy_utf8(b: Seq<u8>) -> Seq<char>;

/// `String::from_utf8_lossy`, owned.
#[verifier::external_body]
fn utf8_lossy(b: &[u8]) -> (s: String)
    ensures
        s@ == lossy_utf8(b@),
{
    String::from_utf8_lossy(b).into_owned()
}

/// The first six bytes of every `.npy` file.
pub open spec fn npy_magic() -> Seq<u8> {
    seq![0x93u8, 0x4eu8, 0x55u8, 0x4du8, 0x50u8, 0x59u8]
}

/// Where the header of a `.npy` file lies: from its start to its end, after
/// the magic, the version and a little-endian length (two bytes in version
/// 1, four otherwise); or why the bytes are not one.
pub open spec fn npy_bounds(d: Seq<u8>) -> Result<(int, int), Seq<char>> {
    if d.len() < 10 || d.take(6) != npy_magic() {
        Err("not a .npy file"@)
    } else if d[6] == 1 {
        let end = 10 + d[8] + 256 * d[9];
        if d.len() < end { Err("truncated npy header"@) } else { Ok((10, end)) }
    } else if d.len() < 12 {
        Err("truncated npy"@)
    } else {
        let end = 12 + d[8] + 256 * d[9] + 65536 * d[10] + 16777216 * d[11];
        if d.len() < end { Err("truncated npy header"@) } else { Ok((12, end)) }
    }
}

/// The value of `key` in a `.npy` header, a Python dict literal such as
/// `{'descr': '<f8', 'fortran_order': False, 'shape': (2, 3), }`: after
/// `'key':` and any white space, a quoted string without its quotes, a
/// tuple through its closing parenthesis, or a bare word up to the next `,`
/// or `}`, trimmed.
pub open spec fn npy_field_spec(h: Seq<char>, key: Seq<char>) -> Option<Seq<char>> {
    let pat = seq!['\''] + key + seq!['\'', ':'];
    match find_from(h, pat, 0) {
        None => None,
        Some(i) => {
            let r0 = h.skip(i + pat.len());
            let rest = r0.skip(lead_spaces(r0) as int);
            if rest.len() > 0 && (rest[0] == '\'' || rest[0] == '"') {
                let body = rest.skip(1);
                match first_index(body, rest[0], 0) {
                    Some(e) => Some(body.take(e)),
                    None => None,
                }
            } else if rest.len() > 0 && rest[0] == '(' {
                match first_index(rest, ')', 0) {
                    Some(e) => Some(rest.take(e + 1)),
                    None => None,
                }
            } else {
                let end = match first_index(rest, ',', 0) {
                    Some(e) => e,
                    None => match first_index(rest, '}', 0) {
                        Some(e) => e,
                        None => rest.len() as int,
                    },
                };
                Some(trimmed(rest.take(end)))
            }
        },
    }
}

/// The first `c` in `s`.
fn find_char(s: &[char], c: char) -> (r: Option<usize>)
    ensures
        match r {
            Some(k) => first_index(s@, c, 0) == Some(k as int) && k < s@.len(),
            None => first_index(s@, c, 0) is None,
        },
{
    let mut k: usize = 0;
    while k < s.len()
        invariant
            k <= s@.len(),
            first_index(s@, c, k as int) == first_index(s@, c, 0),
        decreases s@.len() - k,
    {
        if s[k] == c {
            return Some(k);
        }
        k += 1;
    }
    None
}

/// The first occurrence of `w` in `t`.
fn find_seq(t: &[char], w: &[char]) -> (r: Option<usize>)
    ensures
        match r {
            Some(k) => find_from(t@, w@, 0) == Some(k as int) && k + w@.len() <= t@.len(),
            None => find_from(t@, w@, 0) is None,
        },
{
    let mut s: usize = 0;
    while s < t.len() && w.len() <= t.len() - s
        invariant
            s <= t@.len(),
            find_from(t@, w@, s as int) == find_from(t@, w@, 0),
        decreases t@.len() - s,
    {
        if crate::text::matches_at(t, s, w) {
            assert(occurs_at(t@, w@, s as int));
            return Some(s);
        }
        s += 1;
    }
    None
}

/// The value of `key` in a `.npy` header.
pub fn npy_field(header: &str, key: &str) -> (r: Option<String>)
    ensures
        opt_chars(r) == npy_field_spec(header@, key@),
{
    let h = chars_of(header);
    let mut pat: Vec<char> = Vec::new();
    pat.push('\'');
    append(&mut pat, chars_of(key).as_slice());
    pat.push('\'');
    pat.push(':');
    assert(pat@ =~= seq!['\''] + key@ + seq!['\'', ':']);
    let hs = h.as_slice();
    let ps = pat.as_slice();
    let found = find_seq(hs, ps);
    let i = match found {
        Some(i) => i,
        None => {
            return None;
        },
    };
    let pl = ps.len();
    let hl = hs.len();
    assert(i + pl <= hl);
    let r0 = slice_vec(hs, i + pl, hl);
    assert(r0@ =~= h@.skip(i + pat@.len()));
    let rest = trim_start_chars(r0.as_slice());
    if rest.len() > 0 && (rest[0] == '\'' || rest[0] == '"') {
        let q = rest[0];
        let body = slice_vec(rest.as_slice(), 1, rest.len());
        assert(body@ =~= rest@.skip(1));
        return match find_char(body.as_slice(), q) {
            Some(e) => {
                let v = slice_vec(body.as_slice(), 0, e);
                assert(v@ =~= body@.take(e as int));
                Some(string_of(v.as_slice()))
            },
            None => None,
        };
    }
    if rest.len() > 0 && rest[0] == '(' {
        return match find_char(rest.as_slice(), ')') {
            Some(e) => {
                let v = slice_vec(rest.as_slice(), 0, e + 1);
                assert(v@ =~= rest@.take(e + 1));
                Some(string_of(v.as_slice()))
            },
            None => None,
        };
    }
    let end = match find_char(rest.as_slice(), ',') {
        Some(e) => e,
        None => match find_char(rest.as_slice(), '}') {
            Some(e) => e,
            None => rest.len(),
        },
    };
    let v = slice_vec(rest.as_slice(), 0, end);
    assert(v@ =~= rest@.take(end as int));
    let t = crate::text::trim_chars(v.as_slice());
    Some(string_of(t.as_slice()))
}

pub open spec fn opt_chars(o: Option<String>) -> Option<Seq<char>> {
    match o {
        Some(s) => Some(s@),
        None => None,
    }
}

/// What a `.npy` header says: the dtype, the Fortran-order flag and the
/// shape as written, and where the payload starts.
#[derive(Debug, Clone)]
pub struct NpyFile {
    pub descr: String,
    pub fortran: String,
    pub shape: String,
    pub payload_start: usize,
}

/// A header field, or `dflt` when the header does not give it.
pub open spec fn field_or(h: Seq<char>, key: Seq<char>, dflt: Seq<char>) -> Seq<char> {
    match npy_field_spec(h, key) {
        Some(v) => v,
        None => dflt,
    }
}

/// Read the header of a `.npy` file: its fields (`descr` defaults to `?`,
/// `fortran_order` to `False`, `shape` to `()`) and where the payload
/// starts; or why the bytes are not a `.npy` file.
pub fn npy_header(data: &[u8]) -> (r: Result<NpyFile, String>)
    ensures
        match npy_bounds(data@) {
            Err(e) => r matches Err(m) && m@ == e,
            Ok((s, end)) => r matches Ok(f) && {
                let h = lossy_utf8(data@.subrange(s, end));
                &&& f.payload_start == end
                &&& f.descr@ == field_or(h, "descr"@, "?"@)
                &&& f.fortran@ == field_or(h, "fortran_order"@, "False"@)
                &&& f.shape@ == field_or(h, "shape"@, "()"@)
            },
        },
{
    if data.len() < 10 || data[0] != 0x93 || data[1] != 0x4e || data[2] != 0x55 || data[3] != 0x4d || data[4]
        != 0x50 || data[5] != 0x59 {
        proof {
            if data@.len() >= 10 && data@.take(6) == npy_magic() {
                assert(data@.take(6)[0] == data@[0]);
                assert(data@.take(6)[1] == data@[1]);
                assert(data@.take(6)[2] == data@[2]);
                assert(data@.take(6)[3] == data@[3]);
                assert(data@.take(6)[4] == data@[4]);
                assert(data@.take(6)[5] == data@[5]);
            }
        }
        return Err(own("not a .npy file"));
    }
    assert(data@.take(6) =~= npy_magic());
    let start: usize;
    let len: u64;
    if data[6] == 1 {
        start = 10;
        len = data[8] as u64 + 256 * data[9] as u64;
    } else {
        if data.len() < 12 {
            return Err(own("truncated npy"));
        }
        start = 12;
        len = data[8] as u64 + 256 * data[9] as u64 + 65536 * data[10] as u64 + 16777216 * data[11] as u64;
    }
    if (data.len() as u64) < start as u64 + len {
        return Err(own("truncated npy header"));
    }
    let end = start + len as usize;
    let hb = crate::text::slice_bytes(data, start, end);
    let header = utf8_lossy(hb.as_slice());
    let descr = match npy_field(header.as_str(), "descr") {
        Some(v) => v,
        None => own("?"),
    };
    let fortran = match npy_field(header.as_str(), "fortran_order") {
        Some(v) => v,
        None => own("False"),
    };
    let shape = match npy_field(header.as_str(), "shape") {
        Some(v) => v,
        None => own("()"),
    };
    Ok(NpyFile { descr, fortran, shape, payload_start: end })
}


/// A sampled value of a `.npy` payload: shown as text, or the bits of a
/// float for the caller to format.
#[derive(Debug, Clone, PartialEq, Eq)]
pub enum NpyValue {
    Shown(String),
    F32(u32),
    F64(u64),
}

/// A sampled value as plain values.
pub enum NpyShown {
    Text(Seq<char>),
    F32(u32),
    F64(u64),
}

pub open spec fn shown_of(v: NpyValue) -> NpyShown {
    match v {
        NpyValue::Shown(s) => NpyShown::Text(s@),
        NpyValue::F32(b) => NpyShown::F32(b),
        NpyValue::F64(b) => NpyShown::F64(b),
    }
}

pub open spec fn shown_all(v: Seq<NpyValue>) -> Seq<NpyShown> {
    v.map_values(|x: NpyValue| shown_of(x))
}

/// The payload is little-endian unless the dtype starts with `>`.
pub open spec fn dtype_le(d: Seq<char>) -> bool {
    let t = trimmed(d);
    !(t.len() > 0 && t[0] == '>')
}

pub open spec fn ascii_letter(c: char) -> bool {
    ('a' <= c <= 'z') || ('A' <= c <= 'Z')
}

/// The first ASCII letter of `s` from `i` on; `f` when there is none.
pub open spec fn first_letter(s: Seq<char>, i: int) -> char
    decreases s.len() - i,
{
    if i < 0 || i >= s.len() {
        'f'
    } else if ascii_letter(s[i]) {
        s[i]
    } else {
        first_letter(s, i + 1)
    }
}

/// The type letter of a dtype such as `<f8`.
pub open spec fn dtype_letter(d: Seq<char>) -> char {
    first_letter(trimmed(d), 0)
}

/// The item size of a dtype: its digits read as a number, else 4.
pub open spec fn dtype_size(d: Seq<char>) -> usize {
    match parse_usize_spec(trimmed(d).filter(|c: char| is_digit(c))) {
        Some(n) => n,
        None => 4,
    }
}

/// `b` read as a little-endian number.
pub open spec fn le_value(b: Seq<u8>) -> nat
    decreases b.len(),
{
    if b.len() == 0 {
        0
    } else {
        (b[0] + 256 * le_value(b.drop_first())) as nat
    }
}

pub open spec fn pow256(m: nat) -> nat
    decreases m,
{
    if m == 0 {
        1
    } else {
        256 * pow256((m - 1) as nat)
    }
}

/// Half the range of a signed integer of `size` bytes.
pub open spec fn half_range(size: nat) -> nat {
    if size == 1 {
        0x80
    } else if size == 2 {
        0x8000
    } else if size == 4 {
        0x8000_0000
    } else {
        0x8000_0000_0000_0000
    }
}

/// `v`, of `size` bytes, read as two's complement.
pub open spec fn signed_of(v: nat, size: nat) -> int {
    if v >= half_range(size) { v - 2 * half_range(size) } else { v as int }
}

pub open spec fn hex_digit(d: nat) -> char {
    seq!['0', '1', '2', '3', '4', '5', '6', '7', '8', '9', 'a', 'b', 'c', 'd', 'e', 'f'][d as int]
}

/// A byte as two lowercase hex digits.
pub open spec fn hex2(b: u8) -> Seq<char> {
    seq![hex_digit((b / 16) as nat), hex_digit((b % 16) as nat)]
}

pub open spec fn hex_items(b: Seq<u8>) -> Seq<char>
    decreases b.len(),
{
    if b.len() == 0 {
        Seq::empty()
    } else if b.len() == 1 {
        hex2(b[0])
    } else {
        hex_items(b.drop_last()) + seq![',', ' '] + hex2(b.last())
    }
}

/// Bytes as `{:02x?}` shows a slice: `[0a, ff]`.
pub open spec fn hex_list(b: Seq<u8>) -> Seq<char> {
    seq!['['] + hex_items(b) + seq![']']
}

/// One item of `size` bytes, by the dtype's letter: floats of 4 and 8
/// bytes as their bits, signed integers of 1, 2, 4 and 8 bytes and
/// unsigned bytes in decimal, anything else as the hex of its first four
/// bytes at most.
pub open spec fn npy_item(chunk: Seq<u8>, ty: char, size: nat, le: bool) -> NpyShown {
    let v = le_value(if le { chunk } else { chunk.reverse() });
    if ty == 'f' && size == 4 {
        NpyShown::F32(v as u32)
    } else if ty == 'f' && size == 8 {
        NpyShown::F64(v as u64)
    } else if ty == 'i' && size == 1 {
        NpyShown::Text(signed_decimal(signed_of(chunk[0] as nat, 1)))
    } else if ty == 'i' && (size == 2 || size == 4 || size == 8) {
        NpyShown::Text(signed_decimal(signed_of(v, size)))
    } else if ty == 'u' && size == 1 {
        NpyShown::Text(decimal(chunk[0] as nat))
    } else {
        NpyShown::Text(hex_list(chunk.take(if size < 4 { size as int } else { 4 })))
    }
}

/// At most `left` items of `size` bytes from offset `off` on, while whole
/// items remain.
pub open spec fn sample_from(p: Seq<u8>, ty: char, size: nat, le: bool, off: int, left: nat) -> Seq<NpyShown>
    decreases left,
{
    if left == 0 || off + size > p.len() {
        Seq::empty()
    } else {
        seq![npy_item(p.subrange(off, off + size), ty, size, le)] + sample_from(
            p,
            ty,
            size,
            le,
            off + size,
            (left - 1) as nat,
        )
    }
}

/// The first `n` items of a payload of dtype `descr`.
pub open spec fn npy_sample(p: Seq<u8>, descr: Seq<char>, n: nat) -> Seq<NpyShown> {
    sample_from(p, dtype_letter(descr), dtype_size(descr) as nat, dtype_le(descr), 0, n)
}

proof fn lemma_pow256_mono(a: nat, b: nat)
    requires
        a <= b,
    ensures
        pow256(a) <= pow256(b),
    decreases b - a,
{
    if a < b {
        lemma_pow256_mono(a, (b - 1) as nat);
    }
}

proof fn lemma_pow256_eight()
    ensures
        pow256(8) == 0x1_0000_0000_0000_0000,
        pow256(1) == 2 * half_range(1),
        pow256(2) == 2 * half_range(2),
        pow256(4) == 2 * half_range(4),
        pow256(8) == 2 * half_range(8),
{
    reveal_with_fuel(pow256, 9);
}

/// `b`, at most eight bytes, read as a little-endian number.
fn le_bytes(b: &[u8]) -> (v: u64)
    requires
        b@.len() <= 8,
    ensures
        v == le_value(b@),
        v < pow256(b@.len()),
{
    proof {
        lemma_pow256_eight();
    }
    let mut acc: u64 = 0;
    let mut k: usize = b.len();
    assert(b@.skip(k as int) =~= Seq::<u8>::empty());
    while k > 0
        invariant
            k <= b@.len() <= 8,
            acc == le_value(b@.skip(k as int)),
            acc < pow256((b@.len() - k) as nat),
            pow256(8) == 0x1_0000_0000_0000_0000,
        decreases k,
    {
        let ghost m: nat = (b@.len() - k) as nat;
        proof {
            lemma_pow256_mono(m + 1, 8);
            assert(pow256(m + 1) == 256 * pow256(m));
        }
        k -= 1;
        assert(b@.skip(k as int).drop_first() =~= b@.skip(k + 1));
        acc = acc * 256 + b[k] as u64;
    }
    assert(b@.skip(0) =~= b@);
    acc
}

/// `v`, of `size` bytes, read as two's complement.
fn signed_value(v: u64, size: usize) -> (r: i64)
    requires
        size == 1 || size == 2 || size == 4 || size == 8,
        v < pow256(size as nat),
    ensures
        r == signed_of(v as nat, size as nat),
{
    proof {
        lemma_pow256_eight();
    }
    let half: u64 = if size == 1 {
        0x80
    } else if size == 2 {
        0x8000
    } else if size == 4 {
        0x8000_0000
    } else {
        0x8000_0000_0000_0000
    };
    if v >= half {
        let d = v - half;
        let r: i128 = d as i128 - half as i128;
        r as i64
    } else {
        v as i64
    }
}

fn hex_digit_of(d: u8) -> (c: char)
    requires
        d < 16,
    ensures
        c == hex_digit(d as nat),
{
    let digits = vec!['0', '1', '2', '3', '4', '5', '6', '7', '8', '9', 'a', 'b', 'c', 'd', 'e', 'f'];
    assert(digits@ =~= seq!['0', '1', '2', '3', '4', '5', '6', '7', '8', '9', 'a', 'b', 'c', 'd', 'e', 'f']);
    digits[d as usize]
}

fn hex_list_of(b: &[u8]) -> (s: String)
    ensures
        s@ == hex_list(b@),
{
    let mut out: Vec<char> = Vec::new();
    out.push('[');
    let mut k: usize = 0;
    while k < b.len()
        invariant
            k <= b@.len(),
            out@ == seq!['['] + hex_items(b@.take(k as int)),
        decreases b@.len() - k,
    {
        let ghost before = out@;
        if k > 0 {
            out.push(',');
            out.push(' ');
        }
        out.push(hex_digit_of(b[k] / 16));
        out.push(hex_digit_of(b[k] % 16));
        proof {
            let t = b@.take(k + 1);
            assert(t.drop_last() =~= b@.take(k as int));
            assert(t.last() == b@[k as int]);
            if k == 0 {
                assert(hex_items(t) == hex2(b@[0]));
            }
            assert(out@ =~= seq!['['] + hex_items(t));
        }
        k += 1;
    }
    out.push(']');
    assert(b@.take(k as int) =~= b@);
    assert(out@ =~= hex_list(b@));
    string_of(out.as_slice())
}

/// One item of the payload.
fn npy_item_of(chunk: &[u8], ty: char, size: usize, le: bool) -> (v: NpyValue)
    requires
        chunk@.len() == size,
    ensures
        shown_of(v) == npy_item(chunk@, ty, size as nat, le),
{
    let numeric = (ty == 'f' && (size == 4 || size == 8)) || (ty == 'i' && (size == 2 || size == 4 || size == 8));
    if numeric {
        let ordered: Vec<u8> = if le {
            crate::text::slice_bytes(chunk, 0, size)
        } else {
            let mut r: Vec<u8> = Vec::new();
            let mut k: usize = size;
            while k > 0
                invariant
                    k <= size == chunk@.len(),
                    r@ == chunk@.skip(k as int).reverse(),
                decreases k,
            {
                k -= 1;
                assert(chunk@.skip(k as int).reverse() =~= chunk@.skip(k + 1).reverse().push(chunk@[k as int]));
                r.push(chunk[k]);
            }
            assert(chunk@.skip(0) =~= chunk@);
            r
        };
        assert(ordered@ =~= (if le { chunk@ } else { chunk@.reverse() }));
        let v = le_bytes(ordered.as_slice());
        if ty == 'f' && size == 4 {
            proof {
                lemma_pow256_eight();
                reveal_with_fuel(pow256, 5);
            }
            return NpyValue::F32(v as u32);
        }
        if ty == 'f' {
            return NpyValue::F64(v);
        }
        let s = signed_value(v, size);
        return NpyValue::Shown(crate::text::i64_string(s));
    }
    if ty == 'i' && size == 1 {
        proof {
            reveal_with_fuel(pow256, 2);
        }
        let s = signed_value(chunk[0] as u64, 1);
        return NpyValue::Shown(crate::text::i64_string(s));
    }
    if ty == 'u' && size == 1 {
        return NpyValue::Shown(crate::text::decimal_string(chunk[0] as usize));
    }
    let m = if size < 4 { size } else { 4 };
    let head = crate::text::slice_bytes(chunk, 0, m);
    assert(head@ =~= chunk@.take(m as int));
    NpyValue::Shown(hex_list_of(head.as_slice()))
}

/// The dtype's byte order, letter and item size.
fn dtype_parts(descr: &str) -> (r: (bool, char, usize))
    ensures
        r.0 == dtype_le(descr@),
        r.1 == dtype_letter(descr@),
        r.2 == dtype_size(descr@),
{
    let d = crate::text::trim_str(descr);
    let le = !(d.len() > 0 && d[0] == '>');
    let mut ty = 'f';
    let mut k: usize = 0;
    let mut found = false;
    while k < d.len() && !found
        invariant
            k <= d@.len(),
            !found ==> first_letter(d@, k as int) == first_letter(d@, 0) && ty == 'f',
            found ==> ty == first_letter(d@, 0),
        decreases d@.len() - k + (if found { 0int } else { 1int }),
    {
        let c = d[k];
        if ('a' <= c && c <= 'z') || ('A' <= c && c <= 'Z') {
            ty = c;
            found = true;
        } else {
            k += 1;
        }
    }
    let mut digits: Vec<char> = Vec::new();
    let mut j: usize = 0;
    while j < d.len()
        invariant
            j <= d@.len(),
            digits@ == d@.take(j as int).filter(|c: char| is_digit(c)),
        decreases d@.len() - j,
    {
        proof {
            d@.take(j as int).lemma_filter_push(d@[j as int], |c: char| is_digit(c));
            assert(d@.take(j + 1) =~= d@.take(j as int).push(d@[j as int]));
        }
        if '0' <= d[j] && d[j] <= '9' {
            digits.push(d[j]);
        }
        j += 1;
    }
    assert(d@.take(j as int) =~= d@);
    let size = match crate::text::parse_usize(digits.as_slice()) {
        Some(n) => n,
        None => 4,
    };
    (le, ty, size)
}

/// The first `n` values of a payload of dtype `descr`, while whole items
/// remain.
pub fn sample_npy_values(payload: &[u8], descr: &str, n: usize) -> (v: Vec<NpyValue>)
    ensures
        shown_all(v@) == npy_sample(payload@, descr@, n as nat),
{
    let (le, ty, size) = dtype_parts(descr);
    let mut out: Vec<NpyValue> = Vec::new();
    let mut off: usize = 0;
    let ghost full = npy_sample(payload@, descr@, n as nat);
    assert(shown_all(out@) =~= Seq::<NpyShown>::empty());
    while out.len() < n && size <= payload.len() - off
        invariant
            off <= payload@.len(),
            out@.len() <= n,
            le == dtype_le(descr@),
            ty == dtype_letter(descr@),
            size == dtype_size(descr@),
            full == npy_sample(payload@, descr@, n as nat),
            shown_all(out@) + sample_from(payload@, ty, size as nat, le, off as int, (n - out@.len()) as nat) == full,
        decreases n - out@.len(),
    {
        let chunk = crate::text::slice_bytes(payload, off, off + size);
        let item = npy_item_of(chunk.as_slice(), ty, size, le);
        let ghost before = out@;
        let ghost left = (n - out@.len()) as nat;
        out.push(item);
        proof {
            assert(shown_all(out@) =~= shown_all(before).push(shown_of(item)));
            let rest = sample_from(payload@, ty, size as nat, le, off + size, (left - 1) as nat);
            assert(sample_from(payload@, ty, size as nat, le, off as int, left) == seq![shown_of(item)] + rest);
            assert(shown_all(out@) + rest =~= shown_all(before) + (seq![shown_of(item)] + rest));
        }
        off = off + size;
    }
    proof {
        let left = (n - out@.len()) as nat;
        assert(sample_from(payload@, ty, size as nat, le, off as int, left) =~= Seq::<NpyShown>::empty());
        assert(shown_all(out@) =~= shown_all(out@) + Seq::<NpyShown>::empty());
    }
    out
}



/// The lines of a `.npy` preview: title, dtype, shape, the Fortran flag and
/// payload size, a blank line, then the sample six to a row, or a note
/// that there is none.
pub open spec fn npy_lines_spec(
    descr: Seq<char>,
    fortran: Seq<char>,
    shape: Seq<char>,
    plen: nat,
    sample: Seq<Seq<char>>,
) -> Seq<(Seq<char>, PreviewStyle)> {
    seq![
        ("  NumPy .npy"@, PreviewStyle::H2),
        ("  dtype   "@ + descr, PreviewStyle::Code),
        ("  shape   "@ + shape, PreviewStyle::Code),
        ("  fortran "@ + fortran + "  ·  payload "@ + decimal(plen) + " bytes"@, PreviewStyle::Dim),
        (Seq::<char>::empty(), PreviewStyle::Normal),
    ] + if sample.len() == 0 {
        seq![("  (binary payload — no numeric sample)"@, PreviewStyle::Dim)]
    } else {
        seq![("  values (sample)"@, PreviewStyle::H4)] + value_rows(sample)
    }
}

/// Values joined by two spaces.
pub open spec fn joined2(s: Seq<Seq<char>>) -> Seq<char>
    decreases s.len(),
{
    if s.len() == 0 {
        Seq::empty()
    } else if s.len() == 1 {
        s[0]
    } else {
        joined2(s.drop_last()) + seq![' ', ' '] + s.last()
    }
}

/// The sample, six values to a row.
pub open spec fn value_rows(s: Seq<Seq<char>>) -> Seq<(Seq<char>, PreviewStyle)>
    decreases s.len(),
{
    if s.len() == 0 {
        Seq::empty()
    } else {
        let k = if s.len() < 6 { s.len() as int } else { 6 };
        seq![(seq![' ', ' '] + joined2(s.take(k)), PreviewStyle::JsonNumber)] + value_rows(s.skip(k))
    }
}

pub open spec fn strings(v: Seq<String>) -> Seq<Seq<char>> {
    v.map_values(|s: String| s@)
}

fn joined_row(s: &[String], from: usize, to: usize) -> (r: Vec<char>)
    requires
        from < to <= s@.len(),
    ensures
        r@ == seq![' ', ' '] + joined2(strings(s@).subrange(from as int, to as int)),
{
    let mut out: Vec<char> = Vec::new();
    out.push(' ');
    out.push(' ');
    let mut k = from;
    while k < to
        invariant
            from <= k <= to <= s@.len(),
            out@ == seq![' ', ' '] + joined2(strings(s@).subrange(from as int, k as int)),
        decreases to - k,
    {
        let ghost part = strings(s@).subrange(from as int, k + 1);
        assert(part.drop_last() =~= strings(s@).subrange(from as int, k as int));
        if k > from {
            out.push(' ');
            out.push(' ');
        }
        append(&mut out, chars_of(s[k].as_str()).as_slice());
        assert(out@ =~= seq![' ', ' '] + joined2(part));
        k += 1;
    }
    out
}

/// The preview of a `.npy` file from its header, its payload's size and
/// the sample as shown.
pub fn npy_lines(f: &NpyFile, payload_len: usize, sample: &[String]) -> (v: Vec<PreviewLine>)
    ensures
        v@.len() == npy_lines_spec(f.descr@, f.fortran@, f.shape@, payload_len as nat, strings(sample@)).len(),
        forall|i: int| 0 <= i < v@.len() ==> single_span(#[trigger] v@[i]) == Some(
            npy_lines_spec(f.descr@, f.fortran@, f.shape@, payload_len as nat, strings(sample@))[i],
        ),
{
    let ghost exp = npy_lines_spec(f.descr@, f.fortran@, f.shape@, payload_len as nat, strings(sample@));
    let mut out: Vec<PreviewLine> = Vec::new();
    out.push(styled("  NumPy .npy", PreviewStyle::H2));
    let mut d = own("  dtype   ");
    push_str(&mut d, f.descr.as_str());
    out.push(line_of(d, PreviewStyle::Code));
    let mut s = own("  shape   ");
    push_str(&mut s, f.shape.as_str());
    out.push(line_of(s, PreviewStyle::Code));
    let mut fl = own("  fortran ");
    push_str(&mut fl, f.fortran.as_str());
    push_str(&mut fl, "  ·  payload ");
    let n = crate::text::decimal_string(payload_len);
    push_str(&mut fl, n.as_str());
    push_str(&mut fl, " bytes");
    out.push(line_of(fl, PreviewStyle::Dim));
    out.push(line_of(String::new(), PreviewStyle::Normal));
    if sample.len() == 0 {
        out.push(styled("  (binary payload — no numeric sample)", PreviewStyle::Dim));
        assert(forall|i: int| 0 <= i < out@.len() ==> single_span(#[trigger] out@[i]) == Some(exp[i]));
        return out;
    }
    out.push(styled("  values (sample)", PreviewStyle::H4));
    let ghost all = strings(sample@);
    let mut i: usize = 0;
    assert(all.skip(0) =~= all);
    while i < sample.len()
        invariant
            i <= sample@.len(),
            all == strings(sample@),
            all.len() > 0,
            exp == npy_lines_spec(f.descr@, f.fortran@, f.shape@, payload_len as nat, all),
            exp == seq![
                ("  NumPy .npy"@, PreviewStyle::H2),
                ("  dtype   "@ + f.descr@, PreviewStyle::Code),
                ("  shape   "@ + f.shape@, PreviewStyle::Code),
                ("  fortran "@ + f.fortran@ + "  ·  payload "@ + decimal(payload_len as nat) + " bytes"@, PreviewStyle::Dim),
                (Seq::<char>::empty(), PreviewStyle::Normal),
                ("  values (sample)"@, PreviewStyle::H4),
            ] + value_rows(all),
            out@.len() + value_rows(all.skip(i as int)).len() == exp.len(),
            forall|j: int| 0 <= j < out@.len() ==> single_span(#[trigger] out@[j]) == Some(exp[j]),
            forall|j: int| 0 <= j < value_rows(all.skip(i as int)).len() ==> #[trigger] value_rows(all.skip(i as int))[j] == exp[out@.len() + j],
        decreases sample@.len() - i,
    {
        let k = if sample.len() - i < 6 { sample.len() - i } else { 6 };
        let row = joined_row(sample, i, i + k);
        let ghost rest = all.skip(i as int);
        assert(rest.take(k as int) =~= all.subrange(i as int, i + k));
        assert(rest.skip(k as int) =~= all.skip(i + k));
        assert(value_rows(rest) == seq![(seq![' ', ' '] + joined2(rest.take(k as int)), PreviewStyle::JsonNumber)] + value_rows(rest.skip(k as int)));
        let ghost at = out@.len();
        out.push(chars_line(row.as_slice(), PreviewStyle::JsonNumber));
        assert(value_rows(rest)[0] == exp[at as int]);
        assert forall|j: int| 0 <= j < value_rows(all.skip(i + k)).len() implies #[trigger] value_rows(all.skip(i + k))[j] == exp[out@.len() + j] by {
            assert(value_rows(rest)[j + 1] == value_rows(all.skip(i + k))[j]);
        }
        i = i + k;
    }
    assert(all.skip(i as int) =~= Seq::<Seq<char>>::empty());
    out
}

// ── Base64 ──────────────────────────────────────────────────────────────────

pub open spec fn b64_table() -> Seq<char> {
    seq!['A', 'B', 'C', 'D', 'E', 'F', 'G', 'H', 'I', 'J', 'K', 'L', 'M', 'N', 'O', 'P', 'Q', 'R', 'S', 'T', 'U', 'V', 'W', 'X', 'Y', 'Z', 'a', 'b', 'c', 'd', 'e', 'f', 'g', 'h', 'i', 'j', 'k', 'l', 'm', 'n', 'o', 'p', 'q', 'r', 's', 't', 'u', 'v', 'w', 'x', 'y', 'z', '0', '1', '2', '3', '4', '5', '6', '7', '8', '9', '+', '/']
}

/// Standard base64 with `=` padding.
pub open spec fn b64(d: Seq<u8>) -> Seq<char>
    decreases d.len(),
{
    let t = b64_table();
    if d.len() >= 3 {
        seq![
            t[(d[0] / 4) as int],
            t[((d[0] % 4) * 16 + d[1] / 16) as int],
            t[((d[1] % 16) * 4 + d[2] / 64) as int],
            t[(d[2] % 64) as int],
        ] + b64(d.skip(3))
    } else if d.len() == 2 {
        seq![t[(d[0] / 4) as int], t[((d[0] % 4) * 16 + d[1] / 16) as int], t[((d[1] % 16) * 4) as int], '=']
    } else if d.len() == 1 {
        seq![t[(d[0] / 4) as int], t[((d[0] % 4) * 16) as int], '=', '=']
    } else {
        Seq::empty()
    }
}

/// Base64, for the terminal graphics payload.
pub fn encode_b64(data: &[u8]) -> (s: String)
    ensures
        s@ == b64(data@),
{
    let t: Vec<char> = vec!['A', 'B', 'C', 'D', 'E', 'F', 'G', 'H', 'I', 'J', 'K', 'L', 'M', 'N', 'O', 'P', 'Q', 'R', 'S', 'T', 'U', 'V', 'W', 'X', 'Y', 'Z', 'a', 'b', 'c', 'd', 'e', 'f', 'g', 'h', 'i', 'j', 'k', 'l', 'm', 'n', 'o', 'p', 'q', 'r', 's', 't', 'u', 'v', 'w', 'x', 'y', 'z', '0', '1', '2', '3', '4', '5', '6', '7', '8', '9', '+', '/'];
    assert(t@ =~= b64_table());
    let mut out: Vec<char> = Vec::new();
    let mut i: usize = 0;
    assert(data@.skip(0) =~= data@);
    while i < data.len()
        invariant
            i <= data@.len(),
            t@ == b64_table(),
            out@ + b64(data@.skip(i as int)) == b64(data@),
        decreases data@.len() - i,
    {
        let rest = data.len() - i;
        let a = data[i] as usize;
        let ghost before = out@;
        let ghost d = data@.skip(i as int);
        if rest >= 3 {
            let b = data[i + 1] as usize;
            let c = data[i + 2] as usize;
            out.push(t[a / 4]);
            out.push(t[(a % 4) * 16 + b / 16]);
            out.push(t[(b % 16) * 4 + c / 64]);
            out.push(t[c % 64]);
            assert(d.skip(3) =~= data@.skip(i + 3));
            assert(out@ + b64(data@.skip(i + 3)) =~= before + b64(d));
            i = i + 3;
        } else if rest == 2 {
            let b = data[i + 1] as usize;
            out.push(t[a / 4]);
            out.push(t[(a % 4) * 16 + b / 16]);
            out.push(t[(b % 16) * 4]);
            out.push('=');
            assert(data@.skip(i + 2) =~= Seq::<u8>::empty());
            assert(out@ + b64(data@.skip(i + 2)) =~= before + b64(d));
            i = i + 2;
        } else {
            out.push(t[a / 4]);
            out.push(t[(a % 4) * 16]);
            out.push('=');
            out.push('=');
            assert(data@.skip(i + 1) =~= Seq::<u8>::empty());
            assert(out@ + b64(data@.skip(i + 1)) =~= before + b64(d));
            i = i + 1;
        }
    }
    assert(data@.skip(i as int) =~= Seq::<u8>::empty());
    assert(out@ =~= out@ + b64(data@.skip(i as int)));
    string_of(out.as_slice())
}

/// Base64 takes four characters for every three bytes, the last group
/// padded to four.
pub proof fn law_b64_length(d: Seq<u8>)
    ensures
        b64(d).len() == 4 * ((d.len() + 2) / 3),
    decreases d.len(),
{
    if d.len() >= 3 {
        law_b64_length(d.skip(3));
    }
}


// ── Image ───────────────────────────────────────────────────────────────────

/// A decoded image shown in the terminal preview, with the scaled copy and
/// its base64 payload cached for the width it is shown at.
#[derive(Debug, Clone)]
pub struct ImageAsset {
    pub path: String,
    pub src_w: u32,
    pub src_h: u32,
    pub rgba: Vec<u8>,
    /// Display width in terminal cells.
    pub width_cells: u16,
    pub cached_w: u32,
    pub cached_h: u32,
    pub cached_rgba: Vec<u8>,
    pub cached_b64: String,
    pub kitty_id: u32,
}

pub open spec fn max_u32(a: u32, b: u32) -> u32 {
    if a >= b { a } else { b }
}

/// The size the cached copy is scaled to: the display width in cells times
/// the cell width (at least 8 pixels, saturating), at least 8 pixels; the
/// height keeps the aspect ratio, at least 1 (the width again for an image
/// of no width).
pub open spec fn cache_size_spec(width_cells: u16, cell_px: u32, src_w: u32, src_h: u32) -> (u32, u32) {
    let px = max_u32(cell_px, 8);
    let prod = width_cells * px;
    let tw = max_u32(if prod > u32::MAX { u32::MAX } else { prod as u32 }, 8);
    let th = if src_w == 0 {
        tw
    } else {
        let q = (tw * src_h) / (src_w as int);
        (if q >= 1 { q } else { 1 }) as u32
    };
    (tw, th)
}

/// The display width after moving it by `delta`, kept within 8 to 120
/// cells.
pub open spec fn adjusted_width(w: u16, delta: i16) -> u16 {
    let x = w + delta;
    (if x < 8 { 8 } else if x > 120 { 120 } else { x }) as u16
}

impl ImageAsset {
    /// A decoded image, shown 48 cells wide, with nothing cached yet.
    pub fn new(path: String, src_w: u32, src_h: u32, rgba: Vec<u8>) -> (a: ImageAsset)
        ensures
            a.path@ == path@,
            a.src_w == src_w,
            a.src_h == src_h,
            a.rgba@ == rgba@,
            a.width_cells == 48,
            a.cached_w == 0,
            a.cached_h == 0,
            a.cached_rgba@.len() == 0,
            a.cached_b64@.len() == 0,
            a.kitty_id == 88,
    {
        ImageAsset {
            path,
            src_w,
            src_h,
            rgba,
            width_cells: 48,
            cached_w: 0,
            cached_h: 0,
            cached_rgba: Vec::new(),
            cached_b64: String::new(),
            kitty_id: 88,
        }
    }

    /// The size to scale the image to for cells of `cell_px` pixels.
    pub fn cache_size(&self, cell_px: u32) -> (r: (u32, u32))
        ensures
            r == cache_size_spec(self.width_cells, cell_px, self.src_w, self.src_h),
    {
        let px = if cell_px >= 8 { cell_px } else { 8 };
        let w = self.width_cells as u64;
        let p = px as u64;
        assert(w * p <= 0xffff * 0xffff_ffff) by (nonlinear_arith)
            requires
                w <= 0xffff,
                p <= 0xffff_ffff,
        ;
        let wide = w * p;
        let tw0: u32 = if wide > 0xffff_ffff { 0xffff_ffff } else { wide as u32 };
        let tw = if tw0 >= 8 { tw0 } else { 8 };
        let th = if self.src_w == 0 {
            tw
        } else {
            let a = tw as u64;
            let b = self.src_h as u64;
            assert(a * b <= 0xffff_ffff * 0xffff_ffff) by (nonlinear_arith)
                requires
                    a <= 0xffff_ffff,
                    b <= 0xffff_ffff,
            ;
            let prod = a * b;
            let q = prod / self.src_w as u64;
            #[verifier::truncate]
            let t = (if q >= 1 { q } else { 1 }) as u32;
            t
        };
        (tw, th)
    }

    /// Widen or narrow the display by `delta` cells, within 8 to 120; the
    /// cache is then rebuilt for the new width.
    pub fn adjust_width(&mut self, delta: i16)
        requires
            old(self).width_cells + delta <= i16::MAX,
            old(self).width_cells <= i16::MAX,
        ensures
            final(self).width_cells == adjusted_width(old(self).width_cells, delta),
            final(self).path == old(self).path,
            final(self).src_w == old(self).src_w,
            final(self).src_h == old(self).src_h,
            final(self).rgba == old(self).rgba,
            final(self).cached_w == old(self).cached_w,
            final(self).cached_h == old(self).cached_h,
            final(self).cached_rgba == old(self).cached_rgba,
            final(self).cached_b64 == old(self).cached_b64,
            final(self).kitty_id == old(self).kitty_id,
    {
        let w = self.width_cells as i16 + delta;
        let c = if w < 8 { 8 } else if w > 120 { 120 } else { w };
        self.width_cells = c as u16;
    }

    /// Keep `scaled`, the image scaled to `cache_size(cell_px)`, and its
    /// base64.
    pub fn rebuild_cache(&mut self, cell_px: u32, scaled: Vec<u8>)
        ensures
            (final(self).cached_w, final(self).cached_h) == cache_size_spec(
                old(self).width_cells,
                cell_px,
                old(self).src_w,
                old(self).src_h,
            ),
            final(self).cached_rgba@ == scaled@,
            final(self).cached_b64@ == b64(scaled@),
            final(self).width_cells == old(self).width_cells,
            final(self).path == old(self).path,
            final(self).src_w == old(self).src_w,
            final(self).src_h == old(self).src_h,
            final(self).rgba == old(self).rgba,
            final(self).kitty_id == old(self).kitty_id,
    {
        let (tw, th) = self.cache_size(cell_px);
        self.cached_b64 = encode_b64(scaled.as_slice());
        self.cached_rgba = scaled;
        self.cached_w = tw;
        self.cached_h = th;
    }
}


/// What the `image` crate decodes `bytes` to: width, height and RGBA pixels,
/// or the text of its error.
pub uninterp spec fn decoded(bytes: Seq<u8>) -> Result<(u32, u32, Seq<u8>), Seq<char>>;

/// `image::load_from_memory`, then `to_rgba8`, `dimensions` and `into_raw`;
/// an error as its `Display` text. The contract names the result: decoding
/// depends on the bytes alone.
#[verifier::external_body]
fn decode_image(bytes: &[u8]) -> (r: Result<(u32, u32, Vec<u8>), String>)
    ensures
        match r {
            Ok((w, h, px)) => decoded(bytes@) == Ok::<(u32, u32, Seq<u8>), Seq<char>>((w, h, px@)),
            Err(e) => decoded(bytes@) == Err::<(u32, u32, Seq<u8>), Seq<char>>(e@),
        },
{
    match image::load_from_memory(bytes) {
        Ok(img) => {
            let rgba = img.to_rgba8();
            let (w, h) = rgba.dimensions();
            Ok((w, h, rgba.into_raw()))
        },
        Err(e) => Err(e.to_string()),
    }
}

/// The image the file at `path` holds, from its bytes: shown 48 cells wide
/// with nothing cached yet; the decoder's error text when the bytes do not
/// decode.
pub fn image_from_bytes(path: String, bytes: &[u8]) -> (r: Result<ImageAsset, String>)
    ensures
        match decoded(bytes@) {
            Ok((w, h, px)) => r matches Ok(a) && {
                &&& a.path@ == path@
                &&& a.src_w == w
                &&& a.src_h == h
                &&& a.rgba@ == px
                &&& a.width_cells == 48
                &&& a.cached_w == 0
                &&& a.cached_h == 0
                &&& a.cached_rgba@.len() == 0
                &&& a.cached_b64@.len() == 0
                &&& a.kitty_id == 88
            },
            Err(e) => r matches Err(m) && m@ == e,
        },
{
    match decode_image(bytes) {
        Ok((w, h, px)) => Ok(ImageAsset::new(path, w, h, px)),
        Err(e) => Err(e),
    }
}

} // verus!
