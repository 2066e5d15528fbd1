//! Graphs kept on the workshop server: their records, titles and kinds, the
//! checks on exported files, and the stored (uncompressed) ZIP of the exports.
use vstd::prelude::*;
use vstd::utf8::{decode_utf8, valid_utf8};
use crate::graph_integration::{safe_token, is_safe_token};
use crate::text::{chars_of, contains, contains_str, find, find_first, has_prefix, push_all, push_str, slice_of, starts_with_str, string_of, trim, trim_of, trim_start, trim_start_of};

verus! {

/// A graph as listed.
#[derive(Clone, Debug, Default)]
pub struct GraphSummary {
    pub id: String,
    pub title: String,
    pub graph_type: String,
    pub source_type: String,
    pub warnings: Vec<String>,
    pub thumbnail_path: String,
    pub created_at: String,
    pub updated_at: String,
    pub version: i64,
    pub usage_count: i64,
    pub saved_formats: Vec<String>,
    pub exports_current: bool,
}

/// A graph with its editor document.
#[derive(Clone, Debug, Default)]
pub struct GraphFull {
    pub summary: GraphSummary,
    pub graph_json: String,
}

/// A request to create a graph.
#[derive(Clone, Debug, Default)]
pub struct CreateGraphPayload {
    pub title: String,
    pub graph_json: String,
    pub graph_type: Option<String>,
    pub source_type: Option<String>,
    pub warnings: Option<Vec<String>>,
}

/// A request to save an edited graph.
#[derive(Clone, Debug, Default)]
pub struct SaveGraphPayload {
    pub id: String,
    pub title: String,
    pub graph_json: String,
    pub graph_type: Option<String>,
    pub source_type: Option<String>,
    pub warnings: Option<Vec<String>>,
    pub expected_version: Option<i64>,
}

/// A graph frozen for a document, and the LaTeX that places it.
#[derive(Clone, Debug, Default)]
pub struct GraphSnapshotResult {
    pub asset_id: String,
    pub inserted_latex: String,
}

/// A graph id that can name a folder: 1 to 80 ASCII letters, digits, `-` or `_`.
pub fn safe_graph_id(id: &str) -> (b: bool)
    ensures
        b == safe_token(id@),
{
    is_safe_token(id)
}

/// A graph title as stored: trimmed, a fixed title where blank; refused over 200 characters.
pub open spec fn title_result(value: Seq<char>) -> Result<Seq<char>, Seq<char>> {
    let v = trim(value);
    if v.len() > 200 {
        Err("タイトルは200文字以内にしてください"@)
    } else if v.len() == 0 {
        Ok("無題のグラフ"@)
    } else {
        Ok(v)
    }
}

pub fn clean_title(value: &str) -> (r: Result<String, String>)
    ensures
        match title_result(value@) {
            Ok(t) => r matches Ok(x) && x@ == t,
            Err(e) => r matches Err(x) && x@ == e,
        },
{
    let v = trim_of(&chars_of(value));
    if v.len() > 200 {
        Err(string_of(&chars_of("タイトルは200文字以内にしてください")))
    } else if v.len() == 0 {
        Ok(string_of(&chars_of("無題のグラフ")))
    } else {
        Ok(string_of(&v))
    }
}

/// The kinds of graph.
pub open spec fn graph_types() -> Seq<Seq<char>> {
    seq!["function_graph"@, "geometry"@, "mixed"@, "spatial_geometry"@]
}

/// Where a graph came from.
pub open spec fn graph_sources() -> Seq<Seq<char>> {
    seq!["manual"@, "ai_text"@, "ai_image"@, "ai_problem"@, "import"@]
}

/// The given value where it is one of `allowed`, else the fallback.
pub open spec fn enum_value(value: Option<Seq<char>>, allowed: Seq<Seq<char>>, fallback: Seq<char>) -> Seq<char> {
    match value {
        Some(v) => if allowed.contains(v) { v } else { fallback },
        None => fallback,
    }
}

pub open spec fn opt_view(v: Option<String>) -> Option<Seq<char>> {
    match v {
        Some(x) => Some(x@),
        None => None,
    }
}

/// A graph kind as stored: the given one where known, else the fallback.
pub fn graph_type_or(value: Option<String>, fallback: &str) -> (r: String)
    ensures
        r@ == enum_value(opt_view(value), graph_types(), fallback@),
{
    match value {
        Some(v) => {
            let c = chars_of(v.as_str());
            let known = crate::text::is_str(&c, "function_graph") || crate::text::is_str(&c, "geometry")
                || crate::text::is_str(&c, "mixed") || crate::text::is_str(&c, "spatial_geometry");
            proof {
                let g = graph_types();
                if g.contains(v@) {
                    let k = choose|k: int| 0 <= k < g.len() && g[k] == v@;
                    assert(g[0] == "function_graph"@ && g[1] == "geometry"@ && g[2] == "mixed"@ && g[3] == "spatial_geometry"@);
                }
            }
            if known {
                v
            } else {
                string_of(&chars_of(fallback))
            }
        },
        None => string_of(&chars_of(fallback)),
    }
}

/// A graph source as stored: the given one where known, else the fallback.
pub fn graph_source_or(value: Option<String>, fallback: &str) -> (r: String)
    ensures
        r@ == enum_value(opt_view(value), graph_sources(), fallback@),
{
    match value {
        Some(v) => {
            let c = chars_of(v.as_str());
            let known = crate::text::is_str(&c, "manual") || crate::text::is_str(&c, "ai_text") || crate::text::is_str(
                &c,
                "ai_image",
            ) || crate::text::is_str(&c, "ai_problem") || crate::text::is_str(&c, "import");
            proof {
                let g = graph_sources();
                if g.contains(v@) {
                    let k = choose|k: int| 0 <= k < g.len() && g[k] == v@;
                    assert(g[0] == "manual"@ && g[1] == "ai_text"@ && g[2] == "ai_image"@ && g[3] == "ai_problem"@ && g[4] == "import"@);
                }
            }
            if known {
                v
            } else {
                string_of(&chars_of(fallback))
            }
        },
        None => string_of(&chars_of(fallback)),
    }
}

/// The creation request that copies a graph: the title marked as a copy, the
/// same document, kind and warnings, and a manual source.
pub fn duplicate_graph(graph: &GraphFull) -> (r: CreateGraphPayload)
    ensures
        r.title@ == graph.summary.title@ + " (コピー)"@,
        r.graph_json == graph.graph_json,
        r.graph_type == Some(graph.summary.graph_type),
        r.source_type matches Some(s) && s@ == "manual"@,
        r.warnings matches Some(w) && w@ == graph.summary.warnings@,
{
    let mut title = chars_of(graph.summary.title.as_str());
    push_str(&mut title, " (コピー)");
    CreateGraphPayload {
        title: string_of(&title),
        graph_json: graph.graph_json.clone(),
        graph_type: Some(graph.summary.graph_type.clone()),
        source_type: Some(string_of(&chars_of("manual"))),
        warnings: Some(crate::models::clone_strings(&graph.summary.warnings)),
    }
}

/// The LaTeX that places a frozen graph, centred, at the given width.
pub open spec fn snapshot_latex(asset_id: Seq<char>, width: Seq<char>) -> Seq<char> {
    "\\begin{center}\n  \\includegraphics[width="@ + width
        + ",height=0.72\\textheight,keepaspectratio]{assets/graphs/snapshots/"@ + asset_id
        + "/graph.pdf}\n\\end{center}"@
}

pub fn graph_snapshot_result(asset_id: String, insert_width: &str) -> (r: GraphSnapshotResult)
    ensures
        r.asset_id == asset_id,
        r.inserted_latex@ == snapshot_latex(asset_id@, insert_width@),
{
    let mut l = chars_of("\\begin{center}\n  \\includegraphics[width=");
    push_str(&mut l, insert_width);
    push_str(&mut l, ",height=0.72\\textheight,keepaspectratio]{assets/graphs/snapshots/");
    push_str(&mut l, asset_id.as_str());
    push_str(&mut l, "/graph.pdf}\n\\end{center}");
    GraphSnapshotResult { asset_id, inserted_latex: string_of(&l) }
}

// ---------------------------------------------------------------------------
// Checking exported files
// ---------------------------------------------------------------------------

/// Calls `std::str::from_utf8`. Trusted: it succeeds exactly on valid UTF-8,
/// and the text it gives back is what the bytes encode.
#[verifier::external_body]
fn utf8_text(bytes: &[u8]) -> (r: Option<String>)
    ensures
        r is Some <==> valid_utf8(bytes@),
        r matches Some(t) ==> t@ == decode_utf8(bytes@),
{
    match std::str::from_utf8(bytes) {
        Ok(t) => Some(t.to_string()),
        Err(_) => None,
    }
}

/// ASCII letters lower-cased, everything else kept.
pub open spec fn ascii_lower(s: Seq<char>) -> Seq<char> {
    s.map_values(|c: char| if 'A' <= c && c <= 'Z' { ((c as u32) + 32) as char } else { c })
}

pub(crate) fn ascii_lower_vec(v: &Vec<char>) -> (r: Vec<char>)
    ensures
        r@ == ascii_lower(v@),
{
    ascii_lower_exec(v)
}

fn ascii_lower_exec(v: &Vec<char>) -> (r: Vec<char>)
    ensures
        r@ == ascii_lower(v@),
{
    let mut out: Vec<char> = Vec::new();
    let mut i: usize = 0;
    while i < v.len()
        invariant
            i <= v.len(),
            out@ == ascii_lower(v@.take(i as int)),
        decreases v.len() - i,
    {
        let c = v[i];
        let d = if 'A' <= c && c <= 'Z' { ((c as u8) + 32) as char } else { c };
        out.push(d);
        assert(out@ =~= ascii_lower(v@.take(i + 1)));
        i += 1;
    }
    assert(v@.take(v@.len() as int) =~= v@);
    out
}

pub open spec fn svg_pad(c: char) -> bool {
    c == '\u{feff}' || c == ' ' || c == '\t' || c == '\r' || c == '\n'
}

/// `s` without its leading byte-order marks, spaces, tabs and line breaks.
pub open spec fn skip_svg_pad(s: Seq<char>) -> Seq<char>
    decreases s.len(),
{
    if s.len() > 0 && svg_pad(s[0]) {
        skip_svg_pad(s.drop_first())
    } else {
        s
    }
}

fn skip_svg_pad_exec(v: &Vec<char>) -> (r: Vec<char>)
    ensures
        r@ == skip_svg_pad(v@),
{
    let mut i: usize = 0;
    assert(v@.skip(0) =~= v@);
    while i < v.len() && (v[i] == '\u{feff}' || v[i] == ' ' || v[i] == '\t' || v[i] == '\r' || v[i] == '\n')
        invariant
            i <= v.len(),
            skip_svg_pad(v@) == skip_svg_pad(v@.skip(i as int)),
        decreases v.len() - i,
    {
        assert(v@.skip(i as int).drop_first() =~= v@.skip(i + 1));
        i += 1;
    }
    let r = slice_of(v, i, v.len());
    assert(r@ =~= v@.skip(i as int));
    r
}

/// Markup that makes an SVG unsafe to show.
pub open spec fn svg_bad() -> Seq<Seq<char>> {
    seq!["<script"@, "javascript:"@, "<foreignobject"@, "onload="@, "onerror="@]
}

/// Commands that make a TikZ file unsafe to compile.
pub open spec fn tex_bad() -> Seq<Seq<char>> {
    seq!["\\write18"@, "\\input|"@, "\\immediate\\write"@, "\\openout"@, "\\includegraphics{/"@, "\\includegraphics{\\\\"@]
}

pub open spec fn holds_any(s: Seq<char>, bad: Seq<Seq<char>>) -> bool {
    exists|k: int| 0 <= k < bad.len() && contains(s, #[trigger] bad[k])
}

fn holds_any_exec(s: &Vec<char>, bad: &Vec<Vec<char>>) -> (b: bool)
    ensures
        b == holds_any(s@, crate::text::views(bad@)),
{
    let mut k: usize = 0;
    while k < bad.len()
        invariant
            k <= bad.len(),
            forall|j: int| 0 <= j < k ==> !contains(s@, #[trigger] crate::text::views(bad@)[j]),
        decreases bad.len() - k,
    {
        if crate::text::contains_chars(s, &bad[k]) {
            assert(contains(s@, crate::text::views(bad@)[k as int]));
            return true;
        }
        k += 1;
    }
    false
}

fn svg_bad_exec() -> (r: Vec<Vec<char>>)
    ensures
        crate::text::views(r@) == svg_bad(),
{
    let mut r: Vec<Vec<char>> = Vec::new();
    r.push(chars_of("<script"));
    r.push(chars_of("javascript:"));
    r.push(chars_of("<foreignobject"));
    r.push(chars_of("onload="));
    r.push(chars_of("onerror="));
    assert(crate::text::views(r@) =~= svg_bad());
    r
}

fn tex_bad_exec() -> (r: Vec<Vec<char>>)
    ensures
        crate::text::views(r@) == tex_bad(),
{
    let mut r: Vec<Vec<char>> = Vec::new();
    r.push(chars_of("\\write18"));
    r.push(chars_of("\\input|"));
    r.push(chars_of("\\immediate\\write"));
    r.push(chars_of("\\openout"));
    r.push(chars_of("\\includegraphics{/"));
    r.push(chars_of("\\includegraphics{\\\\"));
    assert(crate::text::views(r@) =~= tex_bad());
    r
}

/// The SVG root check: an `<svg` element first and nothing unsafe anywhere.
pub open spec fn svg_root_refusal(root: Seq<char>, lower: Seq<char>) -> Option<Seq<char>> {
    if !has_prefix(root, "<svg"@) || holds_any(lower, svg_bad()) {
        Some("SVGに危険または不正な要素があります"@)
    } else {
        None
    }
}

pub open spec fn svg_refusal(text: Seq<char>) -> Option<Seq<char>> {
    let lower = ascii_lower(text);
    let root = skip_svg_pad(lower);
    if has_prefix(root, "<?xml"@) {
        match find(root, "?>"@) {
            None => Some("SVGのXML宣言が不正です"@),
            Some(e) => svg_root_refusal(trim_start(root.skip(e + 2)), lower),
        }
    } else {
        svg_root_refusal(root, lower)
    }
}

pub open spec fn starts_with_bytes(bytes: Seq<u8>, p: Seq<u8>) -> bool {
    p.len() <= bytes.len() && bytes.take(p.len() as int) == p
}

pub open spec fn pdf_magic() -> Seq<u8> {
    seq![0x25u8, 0x50u8, 0x44u8, 0x46u8, 0x2du8]
}

pub open spec fn png_magic() -> Seq<u8> {
    seq![0x89u8, 0x50u8, 0x4eu8, 0x47u8, 0x0du8, 0x0au8, 0x1au8, 0x0au8]
}

/// Why an exported file of the given format is refused, if it is: PDF and PNG
/// by their signatures, SVG and TikZ as UTF-8 text without unsafe content.
pub open spec fn export_refusal(name: Seq<char>, bytes: Seq<u8>) -> Option<Seq<char>> {
    if name == "pdf"@ && starts_with_bytes(bytes, pdf_magic()) {
        None
    } else if name == "png"@ && starts_with_bytes(bytes, png_magic()) {
        None
    } else if name == "svg"@ {
        if !valid_utf8(bytes) {
            Some("SVGはUTF-8である必要があります"@)
        } else {
            svg_refusal(decode_utf8(bytes))
        }
    } else if name == "tex"@ {
        if !valid_utf8(bytes) {
            Some("TikZはUTF-8である必要があります"@)
        } else if holds_any(ascii_lower(decode_utf8(bytes)), tex_bad()) {
            Some("TikZに危険な命令があります"@)
        } else {
            None
        }
    } else {
        Some(name + " の実ファイル形式が一致しません"@)
    }
}

fn starts_with_bytes_exec(bytes: &[u8], p: &Vec<u8>) -> (b: bool)
    ensures
        b == starts_with_bytes(bytes@, p@),
{
    if p.len() > bytes.len() {
        return false;
    }
    let mut k: usize = 0;
    while k < p.len()
        invariant
            k <= p.len(),
            p.len() <= bytes.len(),
            forall|j: int| 0 <= j < k ==> bytes@[j] == p@[j],
        decreases p.len() - k,
    {
        if bytes[k] != p[k] {
            assert(bytes@.take(p@.len() as int)[k as int] != p@[k as int]);
            return false;
        }
        k += 1;
    }
    assert(bytes@.take(p@.len() as int) =~= p@);
    true
}

fn fail(msg: &str) -> (r: Result<(), String>)
    ensures
        r matches Err(e) && e@ == msg@,
{
    Err(string_of(&chars_of(msg)))
}

fn svg_root_check(root: &Vec<char>, lower: &Vec<char>) -> (r: Result<(), String>)
    ensures
        match svg_root_refusal(root@, lower@) {
            Some(m) => r matches Err(e) && e@ == m,
            None => r is Ok,
        },
{
    let bad = svg_bad_exec();
    if !starts_with_str(root, "<svg") || holds_any_exec(lower, &bad) {
        return fail("SVGに危険または不正な要素があります");
    }
    Ok(())
}

/// Checks that an exported file really is of the format it is stored as, and
/// that an SVG or TikZ file holds nothing unsafe.
pub fn validate_export(name: &str, bytes: &[u8]) -> (r: Result<(), String>)
    ensures
        match export_refusal(name@, bytes@) {
            Some(m) => r matches Err(e) && e@ == m,
            None => r is Ok,
        },
{
    let n = chars_of(name);
    let mut pdf: Vec<u8> = Vec::new();
    pdf.push(0x25);
    pdf.push(0x50);
    pdf.push(0x44);
    pdf.push(0x46);
    pdf.push(0x2d);
    assert(pdf@ =~= pdf_magic());
    let mut png: Vec<u8> = Vec::new();
    png.push(0x89);
    png.push(0x50);
    png.push(0x4e);
    png.push(0x47);
    png.push(0x0d);
    png.push(0x0a);
    png.push(0x1a);
    png.push(0x0a);
    assert(png@ =~= png_magic());
    if crate::text::is_str(&n, "pdf") && starts_with_bytes_exec(bytes, &pdf) {
        return Ok(());
    }
    if crate::text::is_str(&n, "png") && starts_with_bytes_exec(bytes, &png) {
        return Ok(());
    }
    if crate::text::is_str(&n, "svg") {
        let text = match utf8_text(bytes) {
            Some(t) => t,
            None => {
                return fail("SVGはUTF-8である必要があります");
            },
        };
        let lower = ascii_lower_exec(&chars_of(text.as_str()));
        let root = skip_svg_pad_exec(&lower);
        if starts_with_str(&root, "<?xml") {
            let close = chars_of("?>");
            proof {
                reveal_strlit("?>");
            }
            let found = find_first(&root, &close);
            let cl = close.len();
            assert(cl == 2);
            match found {
                None => {
                    return fail("SVGのXML宣言が不正です");
                },
                Some(e) => {
                    assert(e + cl <= root.len());
                    let rest = slice_of(&root, e + 2, root.len());
                    assert(rest@ =~= root@.skip(e + 2));
                    let rest = trim_start_of(&rest);
                    return svg_root_check(&rest, &lower);
                },
            }
        }
        return svg_root_check(&root, &lower);
    }
    if crate::text::is_str(&n, "tex") {
        let text = match utf8_text(bytes) {
            Some(t) => t,
            None => {
                return fail("TikZはUTF-8である必要があります");
            },
        };
        let lower = ascii_lower_exec(&chars_of(text.as_str()));
        let bad = tex_bad_exec();
        if holds_any_exec(&lower, &bad) {
            return fail("TikZに危険な命令があります");
        }
        return Ok(());
    }
    let mut m = n.clone();
    push_str(&mut m, " の実ファイル形式が一致しません");
    Err(string_of(&m))
}

// ---------------------------------------------------------------------------
// CRC-32 and stored ZIP archives
// ---------------------------------------------------------------------------

/// One bit step of the reflected CRC-32 (polynomial 0xEDB88320).
pub open spec fn crc_bit(c: u32) -> u32 {
    if c & 1 == 1 {
        (c >> 1) ^ 0xedb8_8320u32
    } else {
        c >> 1
    }
}

pub open spec fn crc_bits(c: u32, n: nat) -> u32
    decreases n,
{
    if n == 0 {
        c
    } else {
        crc_bits(crc_bit(c), (n - 1) as nat)
    }
}

/// The CRC register after one more byte.
pub open spec fn crc_update(c: u32, b: u8) -> u32 {
    crc_bits(c ^ (b as u32), 8)
}

/// The CRC register after all of `bytes`, starting from all ones.
pub open spec fn crc_register(bytes: Seq<u8>) -> u32
    decreases bytes.len(),
{
    if bytes.len() == 0 {
        0xffff_ffffu32
    } else {
        crc_update(crc_register(bytes.drop_last()), bytes.last())
    }
}

/// The CRC-32 of `bytes`, as ZIP archives record it.
pub open spec fn crc32_spec(bytes: Seq<u8>) -> u32 {
    crc_register(bytes) ^ 0xffff_ffffu32
}

pub fn crc32(bytes: &[u8]) -> (r: u32)
    ensures
        r == crc32_spec(bytes@),
{
    let mut crc: u32 = 0xffff_ffff;
    let mut i: usize = 0;
    while i < bytes.len()
        invariant
            i <= bytes.len(),
            crc == crc_register(bytes@.take(i as int)),
        decreases bytes.len() - i,
    {
        proof {
            assert(bytes@.take(i + 1).drop_last() =~= bytes@.take(i as int));
        }
        let mut c = crc ^ (bytes[i] as u32);
        let ghost start = c;
        let mut k: u32 = 0;
        while k < 8
            invariant
                k <= 8,
                crc_bits(start, 8) == crc_bits(c, (8 - k) as nat),
            decreases 8 - k,
        {
            c = if c & 1 == 1 { (c >> 1) ^ 0xedb8_8320u32 } else { c >> 1 };
            k += 1;
        }
        crc = c;
        i += 1;
    }
    assert(bytes@.take(bytes@.len() as int) =~= bytes@);
    crc ^ 0xffff_ffff
}

pub open spec fn le16(x: u16) -> Seq<u8> {
    vstd::bytes::spec_u16_to_le_bytes(x)
}

pub open spec fn le32(x: u32) -> Seq<u8> {
    vstd::bytes::spec_u32_to_le_bytes(x)
}

/// A local file header followed by the file name and the stored data.
pub open spec fn local_record(name: Seq<u8>, data: Seq<u8>, crc: u32) -> Seq<u8> {
    le32(0x0403_4b50) + le16(20) + le16(0) + le16(0) + le16(0) + le16(0) + le32(crc) + le32(data.len() as u32)
        + le32(data.len() as u32) + le16(name.len() as u16) + le16(0) + name + data
}

/// A central directory entry pointing at a local record at `offset`.
pub open spec fn central_record(name: Seq<u8>, data: Seq<u8>, crc: u32, offset: u32) -> Seq<u8> {
    le32(0x0201_4b50) + le16(20) + le16(20) + le16(0) + le16(0) + le16(0) + le16(0) + le32(crc) + le32(
        data.len() as u32,
    ) + le32(data.len() as u32) + le16(name.len() as u16) + le16(0) + le16(0) + le16(0) + le16(0) + le32(0) + le32(
        offset,
    ) + name
}

pub open spec fn name_bytes(f: (String, Vec<u8>)) -> Seq<u8> {
    vstd::utf8::encode_utf8(f.0@)
}

/// The local records and the central directory of the files so far, or why they cannot be stored.
pub open spec fn zip_entries(files: Seq<(String, Vec<u8>)>) -> Result<(Seq<u8>, Seq<u8>), Seq<char>>
    decreases files.len(),
{
    if files.len() == 0 {
        Ok((seq![], seq![]))
    } else {
        match zip_entries(files.drop_last()) {
            Err(e) => Err(e),
            Ok((local, central)) => {
                let name = name_bytes(files.last());
                let data = files.last().1@;
                if name.len() > 0xffff {
                    Err("ZIP内ファイル名が長すぎます"@)
                } else if data.len() > 0xffff_ffff {
                    Err("ZIP内ファイルが大きすぎます"@)
                } else if local.len() > 0xffff_ffff {
                    Err("ZIPが大きすぎます"@)
                } else {
                    let crc = crc32_spec(data);
                    Ok((local + local_record(name, data, crc), central + central_record(name, data, crc, local.len() as u32)))
                }
            },
        }
    }
}

/// A ZIP archive that stores the files uncompressed, or why it cannot be built.
pub open spec fn store_zip(files: Seq<(String, Vec<u8>)>) -> Result<Seq<u8>, Seq<char>> {
    if files.len() == 0 || files.len() > 0xffff {
        Err("ZIPへまとめるファイル数が不正です"@)
    } else {
        match zip_entries(files) {
            Err(e) => Err(e),
            Ok((local, central)) => if local.len() > 0xffff_ffff || central.len() > 0xffff_ffff {
                Err("ZIPが大きすぎます"@)
            } else {
                let count = files.len() as u16;
                Ok(local + central + le32(0x0605_4b50) + le16(0) + le16(0) + le16(count) + le16(count) + le32(
                    central.len() as u32,
                ) + le32(local.len() as u32) + le16(0))
            },
        }
    }
}

/// How long the local record of a file is: a 30-byte header, its name and its data.
pub open spec fn local_len(f: (String, Vec<u8>)) -> int {
    (30 + name_bytes(f).len() + f.1@.len()) as int
}

/// How long the central directory entry of a file is: 46 bytes and its name.
pub open spec fn central_len(f: (String, Vec<u8>)) -> int {
    (46 + name_bytes(f).len()) as int
}

/// Where the local record of file `i` begins: after the records of the files before it.
pub open spec fn locals_before(files: Seq<(String, Vec<u8>)>, i: int) -> int
    decreases i,
{
    if i <= 0 { 0 } else { locals_before(files, i - 1) + local_len(files[i - 1]) }
}

/// Where the central directory entry of file `i` begins within the directory.
pub open spec fn centrals_before(files: Seq<(String, Vec<u8>)>, i: int) -> int
    decreases i,
{
    if i <= 0 { 0 } else { centrals_before(files, i - 1) + central_len(files[i - 1]) }
}

proof fn lemma_before_monotone(files: Seq<(String, Vec<u8>)>, i: int, j: int)
    requires
        0 <= i <= j,
    ensures
        locals_before(files, i) + (if i < j { local_len(files[i]) } else { 0 }) <= locals_before(files, j),
        centrals_before(files, i) + (if i < j { central_len(files[i]) } else { 0 }) <= centrals_before(files, j),
    decreases j - i,
{
    if i < j {
        lemma_before_monotone(files, i, j - 1);
    }
}

proof fn lemma_before_take(files: Seq<(String, Vec<u8>)>, k: int, i: int)
    requires
        0 <= i <= k <= files.len(),
    ensures
        locals_before(files.take(k), i) == locals_before(files, i),
        centrals_before(files.take(k), i) == centrals_before(files, i),
    decreases i,
{
    if i > 0 {
        lemma_before_take(files, k, i - 1);
    }
}

/// The 30-byte head of a local record.
pub open spec fn local_head(name: Seq<u8>, data: Seq<u8>, crc: u32) -> Seq<u8> {
    le32(0x0403_4b50) + le16(20) + le16(0) + le16(0) + le16(0) + le16(0) + le32(crc) + le32(data.len() as u32)
        + le32(data.len() as u32) + le16(name.len() as u16) + le16(0)
}

/// The first 42 bytes of a central directory entry, before its offset field.
pub open spec fn central_head(name: Seq<u8>, data: Seq<u8>, crc: u32) -> Seq<u8> {
    le32(0x0201_4b50) + le16(20) + le16(20) + le16(0) + le16(0) + le16(0) + le16(0) + le32(crc) + le32(
        data.len() as u32,
    ) + le32(data.len() as u32) + le16(name.len() as u16) + le16(0) + le16(0) + le16(0) + le16(0) + le32(0)
}

proof fn lemma_record_shapes(name: Seq<u8>, data: Seq<u8>, crc: u32, offset: u32)
    ensures
        local_head(name, data, crc).len() == 30,
        local_record(name, data, crc) == local_head(name, data, crc) + name + data,
        local_record(name, data, crc).subrange(0, 4) == le32(0x0403_4b50),
        central_head(name, data, crc).len() == 42,
        central_record(name, data, crc, offset) == central_head(name, data, crc) + le32(offset) + name,
        central_record(name, data, crc, offset).subrange(0, 4) == le32(0x0201_4b50),
        central_record(name, data, crc, offset).subrange(42, 46) == le32(offset),
        local_record(name, data, crc).len() == 30 + name.len() + data.len(),
        central_record(name, data, crc, offset).len() == 46 + name.len(),
{
    vstd::bytes::lemma_auto_spec_u16_to_from_le_bytes();
    vstd::bytes::lemma_auto_spec_u32_to_from_le_bytes();
    let lh = local_head(name, data, crc);
    let ch = central_head(name, data, crc);
    assert(local_record(name, data, crc) =~= lh + name + data);
    assert(central_record(name, data, crc, offset) =~= ch + le32(offset) + name);
    assert((lh + name + data).subrange(0, 4) =~= le32(0x0403_4b50));
    assert((ch + le32(offset) + name).subrange(0, 4) =~= le32(0x0201_4b50));
    assert((ch + le32(offset) + name).subrange(42, 46) =~= le32(offset));
}

/// What the records of the first `k` files hold: each local record begins with
/// the local header signature where `locals_before` says, and each directory
/// entry begins with its signature and records that position.
pub open spec fn records_placed(files: Seq<(String, Vec<u8>)>, k: int, local: Seq<u8>, central: Seq<u8>) -> bool {
    &&& local.len() == locals_before(files, k)
    &&& central.len() == centrals_before(files, k)
    &&& forall|i: int| 0 <= i < k ==> {
        let off = #[trigger] locals_before(files, i);
        let c = centrals_before(files, i);
        &&& off <= 0xffff_ffff
        &&& local.subrange(off, off + 4) == le32(0x0403_4b50)
        &&& central.subrange(c, c + 4) == le32(0x0201_4b50)
        &&& central.subrange(c + 42, c + 46) == le32(off as u32)
    }
}

proof fn lemma_entries_placed(files: Seq<(String, Vec<u8>)>, k: int)
    requires
        0 <= k <= files.len(),
        zip_entries(files.take(k)) is Ok,
    ensures
        records_placed(files, k, zip_entries(files.take(k))->Ok_0.0, zip_entries(files.take(k))->Ok_0.1),
    decreases k,
{
    if k == 0 {
        assert(files.take(0) =~= Seq::<(String, Vec<u8>)>::empty());
    } else {
        let t = files.take(k);
        assert(t.drop_last() =~= files.take(k - 1));
        assert(t.last() == files[k - 1]);
        lemma_entries_placed(files, k - 1);
        let (local, central) = zip_entries(files.take(k - 1))->Ok_0;
        let f = files[k - 1];
        let name = name_bytes(f);
        let data = f.1@;
        let crc = crc32_spec(data);
        lemma_record_shapes(name, data, crc, local.len() as u32);
        let nl = local + local_record(name, data, crc);
        let nc = central + central_record(name, data, crc, local.len() as u32);
        assert(zip_entries(t)->Ok_0 == (nl, nc));
        assert forall|i: int| 0 <= i < k implies {
            let off = #[trigger] locals_before(files, i);
            let c = centrals_before(files, i);
            &&& off <= 0xffff_ffff
            &&& nl.subrange(off, off + 4) == le32(0x0403_4b50)
            &&& nc.subrange(c, c + 4) == le32(0x0201_4b50)
            &&& nc.subrange(c + 42, c + 46) == le32(off as u32)
        } by {
            let off = locals_before(files, i);
            let c = centrals_before(files, i);
            if i < k - 1 {
                lemma_before_monotone(files, i, k - 1);
                lemma_before_monotone(files, 0, i);
                assert(local_len(files[i]) >= 30);
                assert(central_len(files[i]) >= 46);
                assert(records_placed(files, k - 1, local, central));
                assert(off + 4 <= local.len());
                assert(c + 46 <= central.len());
                assert(nl.subrange(off, off + 4) =~= local.subrange(off, off + 4));
                assert(nc.subrange(c, c + 4) =~= central.subrange(c, c + 4));
                assert(nc.subrange(c + 42, c + 46) =~= central.subrange(c + 42, c + 46));
            } else {
                assert(nl.subrange(off, off + 4) =~= local_record(name, data, crc).subrange(0, 4));
                assert(nc.subrange(c, c + 4) =~= central_record(name, data, crc, local.len() as u32).subrange(0, 4));
                assert(nc.subrange(c + 42, c + 46) =~= central_record(name, data, crc, local.len() as u32).subrange(42, 46));
            }
        }
    }
}

/// Law: in a stored archive, the directory entry of each file begins with the
/// directory signature, and its offset field, read as a little-endian number,
/// is where that file's local record begins: after the local records of the
/// files before it, at a local header signature. A reader that follows the
/// directory finds each file's own record.
pub proof fn lemma_directory_points_at_each_local_record(files: Seq<(String, Vec<u8>)>)
    requires
        store_zip(files) is Ok,
    ensures
        forall|i: int| 0 <= i < files.len() ==> {
            let z = store_zip(files)->Ok_0;
            let off = #[trigger] locals_before(files, i);
            let c = locals_before(files, files.len() as int) + centrals_before(files, i);
            &&& 0 <= off && off + 4 <= c
            &&& z.subrange(off, off + 4) == le32(0x0403_4b50)
            &&& z.subrange(c, c + 4) == le32(0x0201_4b50)
            &&& vstd::bytes::spec_u32_from_le_bytes(z.subrange(c + 42, c + 46)) == off
        },
{
    vstd::bytes::lemma_auto_spec_u32_to_from_le_bytes();
    let n = files.len() as int;
    assert(files.take(n) =~= files);
    lemma_entries_placed(files, n);
    let (local, central) = zip_entries(files)->Ok_0;
    let z = store_zip(files)->Ok_0;
    let tail = z.skip((local.len() + central.len()) as int);
    assert(z =~= local + central + tail);
    assert forall|i: int| 0 <= i < files.len() implies {
        let off = #[trigger] locals_before(files, i);
        let c = locals_before(files, files.len() as int) + centrals_before(files, i);
        &&& 0 <= off && off + 4 <= c
        &&& z.subrange(off, off + 4) == le32(0x0403_4b50)
        &&& z.subrange(c, c + 4) == le32(0x0201_4b50)
        &&& vstd::bytes::spec_u32_from_le_bytes(z.subrange(c + 42, c + 46)) == off
    } by {
        let off = locals_before(files, i);
        let cb = centrals_before(files, i);
        let c = local.len() + cb;
        lemma_before_monotone(files, i, n);
        lemma_before_monotone(files, 0, i);
        assert(z.subrange(off, off + 4) =~= local.subrange(off, off + 4));
        assert(z.subrange(c, c + 4) =~= central.subrange(cb, cb + 4));
        assert(z.subrange(c + 42, c + 46) =~= central.subrange(cb + 42, cb + 46));
    }
}

/// Once the files so far cannot be stored, the whole archive cannot, for the same reason.
pub proof fn lemma_zip_error_persists(files: Seq<(String, Vec<u8>)>, j: int)
    requires
        0 <= j <= files.len(),
        zip_entries(files.take(j)) is Err,
    ensures
        zip_entries(files) == zip_entries(files.take(j)),
    decreases files.len() - j,
{
    if j == files.len() {
        assert(files.take(j) =~= files);
    } else {
        assert(files.take(j + 1).drop_last() =~= files.take(j));
        lemma_zip_error_persists(files, j + 1);
    }
}

fn append_bytes(out: &mut Vec<u8>, b: &[u8])
    ensures
        final(out)@ == old(out)@ + b@,
{
    let mut k: usize = 0;
    let ghost start = out@;
    while k < b.len()
        invariant
            k <= b.len(),
            out@ == start + b@.take(k as int),
        decreases b.len() - k,
    {
        out.push(b[k]);
        assert(out@ =~= start + b@.take(k + 1));
        k += 1;
    }
    assert(b@.take(b@.len() as int) =~= b@);
}

fn push_u16(out: &mut Vec<u8>, x: u16)
    ensures
        final(out)@ == old(out)@ + le16(x),
{
    let b = vstd::bytes::u16_to_le_bytes(x);
    append_bytes(out, b.as_slice());
}

fn push_u32(out: &mut Vec<u8>, x: u32)
    ensures
        final(out)@ == old(out)@ + le32(x),
{
    let b = vstd::bytes::u32_to_le_bytes(x);
    append_bytes(out, b.as_slice());
}

fn write_local(local: &mut Vec<u8>, name: &[u8], data: &[u8], checksum: u32)
    requires
        name@.len() <= 0xffff,
        data@.len() <= 0xffff_ffff,
    ensures
        final(local)@ == old(local)@ + local_record(name@, data@, checksum),
{
    let ghost l0 = local@;
    let name_len = name.len() as u16;
    let size = data.len() as u32;
    push_u32(local, 0x0403_4b50);
    push_u16(local, 20);
    push_u16(local, 0);
    push_u16(local, 0);
    push_u16(local, 0);
    push_u16(local, 0);
    push_u32(local, checksum);
    push_u32(local, size);
    push_u32(local, size);
    push_u16(local, name_len);
    push_u16(local, 0);
    append_bytes(local, name);
    append_bytes(local, data);
    assert(local@ =~= l0 + local_record(name@, data@, checksum));
}

fn write_central(central: &mut Vec<u8>, name: &[u8], data: &[u8], checksum: u32, offset: u32)
    requires
        name@.len() <= 0xffff,
        data@.len() <= 0xffff_ffff,
    ensures
        final(central)@ == old(central)@ + central_record(name@, data@, checksum, offset),
{
    let ghost c0 = central@;
    let name_len = name.len() as u16;
    let size = data.len() as u32;
    push_u32(central, 0x0201_4b50);
    push_u16(central, 20);
    push_u16(central, 20);
    push_u16(central, 0);
    push_u16(central, 0);
    push_u16(central, 0);
    push_u16(central, 0);
    push_u32(central, checksum);
    push_u32(central, size);
    push_u32(central, size);
    push_u16(central, name_len);
    push_u16(central, 0);
    push_u16(central, 0);
    push_u16(central, 0);
    push_u16(central, 0);
    push_u32(central, 0);
    push_u32(central, offset);
    append_bytes(central, name);
    assert(central@ =~= c0 + central_record(name@, data@, checksum, offset));
}

fn zip_fail(msg: &str) -> (r: Result<Vec<u8>, String>)
    ensures
        r matches Err(e) && e@ == msg@,
{
    Err(string_of(&chars_of(msg)))
}

/// Builds an uncompressed ZIP archive of the named files, without any outside library.
pub fn build_store_zip(files: &[(String, Vec<u8>)]) -> (r: Result<Vec<u8>, String>)
    ensures
        match store_zip(files@) {
            Ok(z) => r matches Ok(v) && v@ == z,
            Err(e) => r matches Err(x) && x@ == e,
        },
{
    if files.len() == 0 || files.len() > 0xffff {
        return zip_fail("ZIPへまとめるファイル数が不正です");
    }
    let mut local: Vec<u8> = Vec::new();
    let mut central: Vec<u8> = Vec::new();
    let mut i: usize = 0;
    while i < files.len()
        invariant
            i <= files.len(),
            0 < files@.len() <= 0xffff,
            zip_entries(files@.take(i as int)) == Ok::<(Seq<u8>, Seq<u8>), Seq<char>>((local@, central@)),
        decreases files.len() - i,
    {
        proof {
            assert(files@.take(i + 1).drop_last() =~= files@.take(i as int));
            assert(files@.take(i + 1).last() == files@[i as int]);
        }
        let name = files[i].0.as_str().as_bytes();
        let data = files[i].1.as_slice();
        assert(name@ == name_bytes(files@[i as int]));
        if name.len() > 0xffff {
            proof {
                lemma_zip_error_persists(files@, i + 1);
            }
            return zip_fail("ZIP内ファイル名が長すぎます");
        }
        if data.len() > 0xffff_ffff {
            proof {
                lemma_zip_error_persists(files@, i + 1);
            }
            return zip_fail("ZIP内ファイルが大きすぎます");
        }
        if local.len() > 0xffff_ffff {
            proof {
                lemma_zip_error_persists(files@, i + 1);
            }
            return zip_fail("ZIPが大きすぎます");
        }
        let ghost l0 = local@;
        let ghost c0 = central@;
        let offset = local.len() as u32;
        let checksum = crc32(data);
        write_local(&mut local, name, data, checksum);
        write_central(&mut central, name, data, checksum, offset);
        assert(local@ =~= l0 + local_record(name@, data@, checksum));
        assert(central@ =~= c0 + central_record(name@, data@, checksum, l0.len() as u32));
        i += 1;
    }
    assert(files@.take(files@.len() as int) =~= files@);
    if local.len() > 0xffff_ffff || central.len() > 0xffff_ffff {
        return zip_fail("ZIPが大きすぎます");
    }
    let central_offset = local.len() as u32;
    let central_size = central.len() as u32;
    let count = files.len() as u16;
    let ghost l0 = local@;
    let ghost c0 = central@;
    append_bytes(&mut local, central.as_slice());
    push_u32(&mut local, 0x0605_4b50);
    push_u16(&mut local, 0);
    push_u16(&mut local, 0);
    push_u16(&mut local, count);
    push_u16(&mut local, count);
    push_u32(&mut local, central_size);
    push_u32(&mut local, central_offset);
    push_u16(&mut local, 0);
    assert(local@ =~= l0 + c0 + le32(0x0605_4b50) + le16(0) + le16(0) + le16(count) + le16(count) + le32(central_size)
        + le32(central_offset) + le16(0));
    Ok(local)
}


pub const GRAPH_LIST_SELECT: &'static str = "SELECT g.id, g.title, g.graph_type, g.source_type, g.warnings_json, g.thumbnail_path, g.created_at, g.updated_at, g.version, (SELECT COUNT(*) FROM graph_assets a WHERE a.graph_id=g.id) FROM graphs g ";
pub const LIVE_GRAPHS_ONLY: &'static str = "WHERE g.deleted_at=''";
pub const GRAPH_LIST_ORDER: &'static str = " ORDER BY g.updated_at DESC";

/// The listing of graphs, newest first: deleted graphs only where asked for.
pub open spec fn graph_listing(include_deleted: Option<bool>) -> Seq<char> {
    GRAPH_LIST_SELECT@ + (if include_deleted.unwrap_or(false) { Seq::empty() } else { LIVE_GRAPHS_ONLY@ })
        + GRAPH_LIST_ORDER@
}

/// The statement that lists the graphs.
pub fn list_graphs(include_deleted: Option<bool>) -> (r: String)
    ensures
        r@ == graph_listing(include_deleted),
{
    let mut sql = chars_of(GRAPH_LIST_SELECT);
    let all = match include_deleted {
        Some(b) => b,
        None => false,
    };
    if !all {
        push_str(&mut sql, LIVE_GRAPHS_ONLY);
    } else {
        assert(sql@ + Seq::<char>::empty() =~= sql@);
    }
    push_str(&mut sql, GRAPH_LIST_ORDER);
    string_of(&sql)
}


/// The warnings kept with a graph: the first 100, each cut to 500 characters.
pub open spec fn cleaned_warnings(ws: Seq<Seq<char>>) -> Seq<Seq<char>> {
    let kept = if ws.len() > 100 { ws.take(100) } else { ws };
    kept.map_values(|w: Seq<char>| if w.len() > 500 { w.take(500) } else { w })
}

pub open spec fn warning_views(ws: Option<Vec<String>>) -> Seq<Seq<char>> {
    match ws {
        Some(v) => v@.map_values(|w: String| w@),
        None => Seq::empty(),
    }
}

pub fn clean_warnings(warnings: Option<Vec<String>>) -> (r: Vec<String>)
    ensures
        r@.map_values(|w: String| w@) == cleaned_warnings(warning_views(warnings)),
{
    let ghost ws = warning_views(warnings);
    let all = match warnings {
        Some(v) => v,
        None => Vec::new(),
    };
    assert(all@.map_values(|w: String| w@) =~= ws);
    let n = if all.len() > 100 { 100 } else { all.len() };
    let mut out: Vec<String> = Vec::new();
    let mut i: usize = 0;
    while i < n
        invariant
            n <= all.len(),
            n == (if ws.len() > 100 { 100 } else { ws.len() }),
            i <= n,
            ws == all@.map_values(|w: String| w@),
            out@.map_values(|w: String| w@) == ws.take(i as int).map_values(
                |w: Seq<char>| if w.len() > 500 { w.take(500) } else { w },
            ),
        decreases n - i,
    {
        let c = chars_of(all[i].as_str());
        let cut = if c.len() > 500 { slice_of(&c, 0, 500) } else { c };
        let ghost before = out@;
        out.push(string_of(&cut));
        proof {
            let f = |w: Seq<char>| if w.len() > 500 { w.take(500) } else { w };
            assert(cut@ == f(ws[i as int])) by {
                if ws[i as int].len() > 500 {
                    assert(cut@ =~= ws[i as int].take(500));
                }
            }
            assert(ws.take(i + 1) =~= ws.take(i as int).push(ws[i as int]));
            assert(out@.map_values(|w: String| w@) =~= before.map_values(|w: String| w@).push(cut@));
            assert(ws.take(i + 1).map_values(f) =~= ws.take(i as int).map_values(f).push(f(ws[i as int])));
        }
        i += 1;
    }
    proof {
        if ws.len() <= 100 {
            assert(ws.take(n as int) =~= ws);
        }
    }
    out
}

} // verus!
