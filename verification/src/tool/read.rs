//! The read tool: a page of a text file with numbered lines, an image as a
//! data URL, a refusal for a binary file, and suggestions for a file that is
//! not there.

use crate::error::AgentError;
use crate::id::{ascending, supplied, IdGenerator, Prefix};
use crate::json::{member, members_view, Json, JsonValue, Member};
use crate::text::{
    append, contains, decimal, decimal_text, find_from, from_chars, join, join_range, lines,
    occurs_at, padded_decimal, padded_decimal_text, same, slice, split_lines, strings_view, texts,
    to_chars,
};
use crate::tool::context::ToolContext;
use crate::tool::{make_property, make_schema, property, schema, strings, FileAttachment, ToolResult};
use crate::util::binary::{
    image_format_of_path, is_binary, is_binary_file, is_image_extension, names, valid_image,
    validate_image_format,
};
use crate::util::path::{
    file_name, join as join_path, parent, path_file_name, path_join, path_parent,
};
use base64::Engine;
use vstd::prelude::*;

verus! {

/// What the read tool says of itself.
pub const DESCRIPTION: &'static str = "Reads a file from the local filesystem.\n\nUsage:\n- The filePath parameter must be an absolute path\n- By default, reads up to 2000 lines from the beginning\n- Optionally specify offset and limit for pagination\n- Returns content with line numbers\n- Can read image files (returns base64 encoded data)\n- Detects and rejects binary files";

/// The number of lines that a call reads where it names none.
pub const DEFAULT_READ_LIMIT: usize = 2000;

/// The number of characters of a line beyond which the rest is left out.
pub const MAX_LINE_LENGTH: usize = 2000;

/// What the read tool is asked to do.
#[derive(Debug)]
pub struct ReadParams {
    /// The file to read.
    pub file_path: String,
    /// The line to start at, counted from zero.
    pub offset: Option<usize>,
    /// The number of lines to read.
    pub limit: Option<usize>,
}

/// The read tool.
pub struct ReadTool;

/// The text that `String::from_utf8_lossy` makes of the bytes `bytes`:
/// what they spell in UTF-8, with the replacement character for what spells
/// nothing.
pub uninterp spec fn utf8_lossy(bytes: Seq<u8>) -> Seq<char>;

/// The text that `str::to_lowercase` makes of `s`: `s` in small letters,
/// as Unicode defines them.
pub uninterp spec fn unicode_lowercase(s: Seq<char>) -> Seq<char>;

/// The text that the standard base64 alphabet with padding gives for the
/// bytes `bytes`.
pub uninterp spec fn base64_standard(bytes: Seq<u8>) -> Seq<char>;

/// `String::from_utf8_lossy`: the result is the text that the bytes spell,
/// with the replacement character where they spell none.
#[verifier::external_body]
fn decode_lossy(bytes: &[u8]) -> (r: String)
    ensures
        r@ == utf8_lossy(bytes@),
{
    String::from_utf8_lossy(bytes).into_owned()
}

/// `str::to_lowercase`: the result is the text in small letters.
#[verifier::external_body]
fn to_lowercase(s: &str) -> (r: String)
    ensures
        r@ == unicode_lowercase(s@),
{
    s.to_lowercase()
}

/// `base64::Engine::encode` of the engine `general_purpose::STANDARD`: the
/// result is the base64 text of the bytes. The input is short enough for the
/// length of the text to be a `usize`.
#[verifier::external_body]
fn encode_base64(bytes: &[u8]) -> (r: String)
    requires
        bytes@.len() <= usize::MAX / 2,
    ensures
        r@ == base64_standard(bytes@),
{
    base64::engine::general_purpose::STANDARD.encode(bytes)
}

/// What the read tool has decided before it looks at the file.
#[derive(Debug)]
pub struct ReadPlan {
    /// The file to read, resolved against the working directory.
    pub path: String,
    /// The file as the result of the call shows it.
    pub title: String,
    /// The image format that the extension of the file stands for, where it
    /// is that of an image.
    pub image: Option<&'static str>,
}

/// The directory in which a file that is not there is looked for under
/// another name: the one above the path, or the current one where the path
/// has none above it.
pub open spec fn suggestion_directory(path: Seq<char>) -> Seq<char> {
    match path_parent(path) {
        Some(dir) => dir,
        None => "."@,
    }
}

/// The name that suggestions are measured against: the file name of the
/// path in small letters, or nothing where the path ends in no name.
pub open spec fn wanted_name(path: Seq<char>) -> Seq<char> {
    match path_file_name(path) {
        Some(name) => unicode_lowercase(name),
        None => Seq::empty(),
    }
}

/// Whether two names in small letters are alike: one of them holds the
/// other.
pub open spec fn alike(name: Seq<char>, base: Seq<char>) -> bool {
    contains(name, base) || contains(base, name)
}

/// The positions among the first `upto` of `names` that hold a name like
/// `base`, from the first on, and no more than three of them.
pub open spec fn similar_positions(base: Seq<char>, names: Seq<Seq<char>>, upto: int) -> Seq<int>
    decreases upto,
{
    if upto <= 0 {
        Seq::empty()
    } else {
        let before = similar_positions(base, names, upto - 1);
        if before.len() < 3 && alike(names[upto - 1], base) {
            before.push(upto - 1)
        } else {
            before
        }
    }
}

/// The names `names` in small letters.
pub open spec fn lowered(names: Seq<Seq<char>>) -> Seq<Seq<char>> {
    names.map_values(|name: Seq<char>| unicode_lowercase(name))
}

/// The suggestions for the missing file `path`, given the names of the
/// entries of its directory where that exists: the first three entries
/// whose names are like the wanted name, adjoined to the directory.
pub open spec fn suggestions_for(path: Seq<char>, entries: Option<Seq<Seq<char>>>) -> Seq<
    Seq<char>,
> {
    match entries {
        Some(names) => similar_positions(
            wanted_name(path),
            lowered(names),
            names.len() as int,
        ).map_values(|i: int| path_join(suggestion_directory(path), names[i])),
        None => Seq::empty(),
    }
}

fn holds(text: &Vec<char>, part: &Vec<char>) -> (b: bool)
    ensures
        b == contains(text@, part@),
{
    match find_from(text, part, 0) {
        Some(i) => {
            assert(occurs_at(text@, part@, i as int));
            true
        },
        None => false,
    }
}

/// The positions of the first three of the names `names` that are like
/// `base`. Names and `base` are compared as they stand.
pub fn similar_names(base: &str, names: &Vec<String>) -> (r: Vec<usize>)
    ensures
        r@.map_values(|i: usize| i as int) == similar_positions(
            base@,
            strings_view(names@),
            names@.len() as int,
        ),
        forall|k: int| 0 <= k < r@.len() ==> #[trigger] r@[k] < names@.len(),
{
    let wanted = to_chars(base);
    let mut r: Vec<usize> = Vec::new();
    let mut i: usize = 0;
    assert(r@.map_values(|i: usize| i as int) =~= Seq::<int>::empty());
    while i < names.len()
        invariant
            i <= names.len(),
            wanted@ == base@,
            r@.map_values(|i: usize| i as int) == similar_positions(
                base@,
                strings_view(names@),
                i as int,
            ),
            forall|k: int| 0 <= k < r@.len() ==> #[trigger] r@[k] < i,
        decreases names.len() - i,
    {
        let ghost before = r@.map_values(|i: usize| i as int);
        assert(before.len() == r@.len());
        if r.len() < 3 {
            let name = to_chars(names[i].as_str());
            if holds(&name, &wanted) || holds(&wanted, &name) {
                r.push(i);
                assert(r@.map_values(|i: usize| i as int) =~= before.push(i as int));
            }
        }
        i += 1;
    }
    r
}

/// The directory whose entries may serve as suggestions for `path`.
pub fn suggestion_dir(path: &str) -> (dir: String)
    ensures
        dir@ == suggestion_directory(path@),
{
    match parent(path) {
        Some(dir) => dir,
        None => ".".to_owned(),
    }
}

/// The suggestions for the missing file `path`. `entries` holds the names
/// of the entries of its directory, where that directory exists.
pub fn find_suggestions(path: &str, entries: Option<&Vec<String>>) -> (r: Vec<String>)
    ensures
        strings_view(r@) == suggestions_for(
            path@,
            match entries {
                Some(names) => Some(strings_view(names@)),
                None => None,
            },
        ),
{
    let mut r: Vec<String> = Vec::new();
    assert(strings_view(r@) =~= Seq::<Seq<char>>::empty());
    let names = match entries {
        Some(names) => names,
        None => {
            return r;
        },
    };
    let dir = suggestion_dir(path);
    let base = match file_name(path) {
        Some(name) => to_lowercase(name.as_str()),
        None => String::new(),
    };
    assert(base@ =~= wanted_name(path@));
    let mut small: Vec<String> = Vec::new();
    let mut i: usize = 0;
    while i < names.len()
        invariant
            i <= names.len(),
            strings_view(small@) == lowered(strings_view(names@)).take(i as int),
        decreases names.len() - i,
    {
        let ghost before = strings_view(small@);
        let name = to_lowercase(names[i].as_str());
        small.push(name);
        assert(strings_view(small@) =~= before.push(unicode_lowercase(names@[i as int]@)));
        assert(before.push(unicode_lowercase(names@[i as int]@)) =~= lowered(
            strings_view(names@),
        ).take(i + 1));
        i += 1;
    }
    assert(strings_view(small@) =~= lowered(strings_view(names@)));
    let picks = similar_names(base.as_str(), &small);
    let ghost positions = picks@.map_values(|i: usize| i as int);
    let ghost wanted = suggestions_for(path@, Some(strings_view(names@)));
    assert(positions.len() == picks@.len());
    let mut k: usize = 0;
    while k < picks.len()
        invariant
            k <= picks.len(),
            dir@ == suggestion_directory(path@),
            positions == picks@.map_values(|i: usize| i as int),
            forall|j: int| 0 <= j < picks@.len() ==> #[trigger] picks@[j] < names@.len(),
            wanted == positions.map_values(
                |i: int| path_join(suggestion_directory(path@), strings_view(names@)[i]),
            ),
            strings_view(r@) == wanted.take(k as int),
        decreases picks.len() - k,
    {
        let ghost before = strings_view(r@);
        assert(positions[k as int] == picks@[k as int]);
        let place = join_path(dir.as_str(), names[picks[k]].as_str());
        r.push(place);
        assert(strings_view(r@) =~= before.push(place@));
        assert(before.push(place@) =~= wanted.take(k + 1));
        k += 1;
    }
    assert(wanted.take(picks@.len() as int) =~= wanted);
    r
}

/// `line`, cut off after 2000 characters, with three dots that say so.
pub open spec fn capped_line(line: Seq<char>) -> Seq<char> {
    if line.len() > 2000 {
        line.take(2000) + "..."@
    } else {
        line
    }
}

/// One line of a page: its number in five digits or more, a bar, and the
/// line.
pub open spec fn numbered_line(number: nat, line: Seq<char>) -> Seq<char> {
    padded_decimal(number, 5) + "| "@ + capped_line(line)
}

/// The first line of the page, as a position among `count` lines.
pub open spec fn page_start(offset: int, count: int) -> int {
    if offset <= count {
        offset
    } else {
        count
    }
}

/// The position after the last line of the page.
pub open spec fn page_end(offset: int, limit: int, count: int) -> int {
    if offset + limit <= count {
        offset + limit
    } else {
        count
    }
}

/// The lines of `ls` from line `from` up to, not including, line `to`, each
/// with its number.
pub open spec fn numbered_lines(ls: Seq<Seq<char>>, from: int, to: int) -> Seq<Seq<char>>
    decreases to - from,
{
    if to <= from {
        Seq::empty()
    } else {
        numbered_lines(ls, from, to - 1).push(numbered_line(to as nat, ls[to - 1]))
    }
}

/// The note at the foot of a page: that more lines follow, and after which
/// line, or that the file ends, and with how many lines.
pub open spec fn page_note(offset: int, shown: int, count: int) -> Seq<char> {
    if count > offset + shown {
        "\n\n(File has more lines. Use 'offset' parameter to read beyond line "@ + decimal(
            (offset + shown) as nat,
        ) + ")"@
    } else {
        "\n\n(End of file - total "@ + decimal(count as nat) + " lines)"@
    }
}

/// The page of the lines `ls` that starts at line `offset` and has up to
/// `limit` lines.
pub open spec fn page_text(ls: Seq<Seq<char>>, offset: int, limit: int) -> Seq<char> {
    let count = ls.len() as int;
    let from = page_start(offset, count);
    let to = page_end(offset, limit, count);
    let shown = if to >= from {
        to - from
    } else {
        0
    };
    "<file>\n"@ + join(numbered_lines(ls, from, to), "\n"@) + page_note(offset, shown, count)
        + "\n</file>"@
}

/// The first lines of the page, up to twenty, as they stand.
pub open spec fn page_preview(ls: Seq<Seq<char>>, offset: int, limit: int) -> Seq<char> {
    let count = ls.len() as int;
    let from = page_start(offset, count);
    let to = page_end(offset, limit, count);
    let stop = if to - from > 20 {
        from + 20
    } else {
        to
    };
    if stop <= from {
        Seq::empty()
    } else {
        join(ls.subrange(from, stop), "\n"@)
    }
}

/// What the read tool tells beside the text: how the page begins.
pub open spec fn preview_metadata(preview: Seq<char>) -> JsonValue {
    JsonValue::Object(seq![("preview"@, JsonValue::Text(preview))])
}

fn make_preview_metadata(preview: &str) -> (j: Json)
    ensures
        j@ == preview_metadata(preview@),
{
    let mut top: Vec<Member> = Vec::new();
    top.push(member("preview", Json::text(preview)));
    assert(members_view(top@) =~= seq![("preview"@, JsonValue::Text(preview@))]);
    Json::object(top)
}

fn number_line(number: usize, line: &Vec<char>) -> (r: Vec<char>)
    ensures
        r@ == numbered_line(number as nat, line@),
{
    let mut r = padded_decimal_text(number as u128, 5);
    append(&mut r, &to_chars("| "));
    if line.len() > MAX_LINE_LENGTH {
        append(&mut r, &slice(line, 0, MAX_LINE_LENGTH));
        append(&mut r, &to_chars("..."));
    } else {
        append(&mut r, line);
    }
    assert(r@ =~= numbered_line(number as nat, line@));
    r
}

/// Writes the page of the lines `ls` that starts at line `offset` and has
/// up to `limit` lines, and its preview.
pub fn format_page(ls: &Vec<Vec<char>>, offset: usize, limit: usize) -> (r: (String, String))
    ensures
        r.0@ == page_text(texts(ls@), offset as int, limit as int),
        r.1@ == page_preview(texts(ls@), offset as int, limit as int),
{
    let count: usize = ls.len();
    let from: usize = if offset <= count {
        offset
    } else {
        count
    };
    let to: usize = if offset <= count && limit <= count - offset {
        offset + limit
    } else {
        count
    };
    let mut shown: Vec<Vec<char>> = Vec::new();
    let mut i: usize = from;
    assert(texts(shown@) =~= numbered_lines(texts(ls@), from as int, from as int));
    while i < to
        invariant
            from <= i <= to <= count,
            count == ls.len(),
            texts(shown@) == numbered_lines(texts(ls@), from as int, i as int),
            shown.len() == i - from,
        decreases to - i,
    {
        let ghost before = texts(shown@);
        let line = number_line(i + 1, &ls[i]);
        shown.push(line);
        assert(texts(shown@) =~= before.push(line@));
        i += 1;
    }
    let mut out = to_chars("<file>\n");
    let body = join_range(&shown, 0, shown.len(), &to_chars("\n"));
    assert(texts(shown@).subrange(0, shown@.len() as int) =~= texts(shown@));
    append(&mut out, &body);
    let last: usize = if to >= from {
        offset + (to - from)
    } else {
        offset
    };
    if count > last {
        append(
            &mut out,
            &to_chars("\n\n(File has more lines. Use 'offset' parameter to read beyond line "),
        );
        append(&mut out, &decimal_text(last as u128));
        append(&mut out, &to_chars(")"));
    } else {
        append(&mut out, &to_chars("\n\n(End of file - total "));
        append(&mut out, &decimal_text(count as u128));
        append(&mut out, &to_chars(" lines)"));
    }
    append(&mut out, &to_chars("\n</file>"));
    assert(out@ =~= page_text(texts(ls@), offset as int, limit as int));
    let stop: usize = if to - from > 20 {
        from + 20
    } else {
        to
    };
    let preview = if stop <= from {
        Vec::new()
    } else {
        join_range(ls, from, stop, &to_chars("\n"))
    };
    (from_chars(&out), from_chars(&preview))
}

/// The MIME type of the image format named `format`.
pub open spec fn mime_type(format: Seq<char>) -> Seq<char> {
    if format == "JPEG"@ {
        "image/jpeg"@
    } else if format == "PNG"@ {
        "image/png"@
    } else if format == "GIF"@ {
        "image/gif"@
    } else if format == "BMP"@ {
        "image/bmp"@
    } else if format == "WebP"@ {
        "image/webp"@
    } else if format == "TIFF"@ {
        "image/tiff"@
    } else if format == "SVG"@ {
        "image/svg+xml"@
    } else if format == "ICO"@ {
        "image/x-icon"@
    } else if format == "AVIF"@ {
        "image/avif"@
    } else {
        "application/octet-stream"@
    }
}

/// The MIME type of the image format named `format`.
pub fn mime_of(format: &str) -> (m: &'static str)
    ensures
        m@ == mime_type(format@),
{
    let f = to_chars(format);
    if same(&f, &to_chars("JPEG")) {
        "image/jpeg"
    } else if same(&f, &to_chars("PNG")) {
        "image/png"
    } else if same(&f, &to_chars("GIF")) {
        "image/gif"
    } else if same(&f, &to_chars("BMP")) {
        "image/bmp"
    } else if same(&f, &to_chars("WebP")) {
        "image/webp"
    } else if same(&f, &to_chars("TIFF")) {
        "image/tiff"
    } else if same(&f, &to_chars("SVG")) {
        "image/svg+xml"
    } else if same(&f, &to_chars("ICO")) {
        "image/x-icon"
    } else if same(&f, &to_chars("AVIF")) {
        "image/avif"
    } else {
        "application/octet-stream"
    }
}

/// The data URL that carries the bytes `content` as an image of the format
/// named `format`.
pub open spec fn data_url(format: Seq<char>, content: Seq<u8>) -> Seq<char> {
    "data:"@ + mime_type(format) + ";base64,"@ + base64_standard(content)
}

/// The message for a file whose extension says image and whose content
/// does not.
pub open spec fn invalid_image_message(path: Seq<char>, format: Seq<char>) -> Seq<char> {
    "Image validation failed: "@ + path + " has image extension but does not contain valid "@
        + format + " data"@
}

/// Whether `r` is the result of reading an image: the content as a data
/// URL in one attachment that belongs to the session and message of `ctx`.
pub open spec fn image_result(
    r: ToolResult,
    title: Seq<char>,
    format: Seq<char>,
    content: Seq<u8>,
    ctx: &ToolContext,
) -> bool {
    &&& r.title@ == title
    &&& r.output@ == "Image read successfully"@
    &&& r.metadata@ == preview_metadata("Image read successfully"@)
    &&& r.attachments matches Some(list) && list@.len() == 1 && {
        let a = list@[0];
        &&& a.session_id@ == ctx.session_id@
        &&& a.message_id@ == ctx.message_id@
        &&& a.attachment_type@ == "file"@
        &&& a.mime@ == mime_type(format)
        &&& a.url@ == data_url(format, content)
    }
}

/// The identifier of the attachment of `r`.
pub open spec fn attachment_id(r: ToolResult) -> Seq<char> {
    r.attachments->0@[0].id@
}

impl ReadTool {
    /// The name by which the tool is called.
    pub fn id(&self) -> (s: &'static str)
        ensures
            s@ == "read"@,
    {
        "read"
    }

    /// What the tool says of itself.
    pub fn description(&self) -> (s: &'static str)
        ensures
            s@ == DESCRIPTION@,
    {
        DESCRIPTION
    }

    /// The parameters of the read tool.
    pub open spec fn parameters() -> JsonValue {
        schema(
            seq![
                property("filePath"@, "string"@, "The path to the file to read"@),
                property(
                    "offset"@,
                    "number"@,
                    "The line number to start reading from (0-based)"@,
                ),
                property(
                    "limit"@,
                    "number"@,
                    "The number of lines to read (defaults to 2000)"@,
                ),
            ],
            seq!["filePath"@],
        )
    }

    /// The description of the tool's parameters as a JSON Schema.
    pub fn parameters_schema(&self) -> (j: Json)
        ensures
            j@ == Self::parameters(),
    {
        let mut properties: Vec<Member> = Vec::new();
        properties.push(make_property("filePath", "string", "The path to the file to read"));
        properties.push(
            make_property("offset", "number", "The line number to start reading from (0-based)"),
        );
        properties.push(
            make_property("limit", "number", "The number of lines to read (defaults to 2000)"),
        );
        let required = strings(&vec!["filePath"]);
        assert(members_view(properties@) =~= seq![
            property("filePath"@, "string"@, "The path to the file to read"@),
            property("offset"@, "number"@, "The line number to start reading from (0-based)"@),
            property("limit"@, "number"@, "The number of lines to read (defaults to 2000)"@),
        ]);
        assert(strings_view(required@) =~= seq!["filePath"@]);
        make_schema(properties, &required)
    }

    /// Finds the file to read, and whether its extension is that of an
    /// image.
    pub fn plan(&self, params: &ReadParams, ctx: &ToolContext) -> (p: ReadPlan)
        ensures
            p.path@ == ctx.resolved(params.file_path@),
            p.title@ == ctx.shown(p.path@),
            names(p.image, image_format_of_path(p.path@)),
    {
        let path = ctx.resolve_path(params.file_path.as_str());
        let title = ctx.relative_path(path.as_str());
        let image = is_image_extension(path.as_str());
        ReadPlan { path, title, image }
    }

    /// The failure of a call whose file is not there. `entries` holds the
    /// names of the entries of the directory in which the file was looked
    /// for, where that directory exists.
    pub fn missing(&self, plan: &ReadPlan, entries: Option<&Vec<String>>) -> (e: AgentError)
        ensures
            e matches AgentError::FileNotFound { path, suggestions } && path@ == plan.path@
                && strings_view(suggestions@) == suggestions_for(
                plan.path@,
                match entries {
                    Some(names) => Some(strings_view(names@)),
                    None => None,
                },
            ),
    {
        let suggestions = find_suggestions(plan.path.as_str(), entries);
        AgentError::file_not_found(plan.path.as_str(), suggestions)
    }

    /// What the call returns for a file with the content `content` that is
    /// read as text: a refusal where the file is binary, else the page that
    /// the call asks for, of the lines that the content spells.
    pub fn read_text(&self, params: &ReadParams, plan: &ReadPlan, content: &[u8]) -> (r: Result<
        ToolResult,
        AgentError,
    >)
        ensures
            if is_binary(plan.path@, content@) {
                r matches Err(AgentError::BinaryFile { path }) && path@ == plan.path@
            } else {
                let ls = lines(utf8_lossy(content@));
                let offset = match params.offset {
                    Some(n) => n as int,
                    None => 0,
                };
                let limit = match params.limit {
                    Some(n) => n as int,
                    None => 2000,
                };
                r matches Ok(result) && result.title@ == plan.title@ && result.output@
                    == page_text(ls, offset, limit) && result.metadata@ == preview_metadata(
                    page_preview(ls, offset, limit),
                ) && result.attachments is None
            },
    {
        if is_binary_file(plan.path.as_str(), content) {
            return Err(AgentError::BinaryFile { path: plan.path.clone() });
        }
        let text = decode_lossy(content);
        let ls = split_lines(&to_chars(text.as_str()));
        let offset: usize = match params.offset {
            Some(n) => n,
            None => 0,
        };
        let limit: usize = match params.limit {
            Some(n) => n,
            None => DEFAULT_READ_LIMIT,
        };
        let (output, preview) = format_page(&ls, offset, limit);
        Ok(
            ToolResult {
                title: plan.title.clone(),
                output,
                metadata: make_preview_metadata(preview.as_str()),
                attachments: None,
            },
        )
    }

    /// What the call returns for a file with the content `content` whose
    /// extension is that of an image of the format named `format`: a
    /// failure where the content is no image of that format, or too long
    /// to be encoded, else the content as an attachment with a new
    /// identifier.
    pub fn read_image(
        &self,
        plan: &ReadPlan,
        format: &str,
        ctx: &ToolContext,
        content: &[u8],
        generator: &mut IdGenerator,
    ) -> (r: Result<ToolResult, AgentError>)
        ensures
            if !valid_image(content@, format@) {
                r matches Err(e) && e.is_tool_execution(
                    "read"@,
                    invalid_image_message(plan.path@, format@),
                ) && final(generator)@ == old(generator)@
            } else if content@.len() > usize::MAX / 2 {
                r matches Err(e) && e.is_tool_execution("read"@, "Image is too large to encode"@)
                    && final(generator)@ == old(generator)@
            } else {
                r matches Ok(result) && image_result(result, plan.title@, format@, content@, ctx)
                    && supplied(
                    old(generator)@,
                    final(generator)@,
                    Prefix::Part,
                    false,
                    None,
                    attachment_id(result),
                )
            },
    {
        if !validate_image_format(content, format) {
            let mut message = to_chars("Image validation failed: ");
            append(&mut message, &to_chars(plan.path.as_str()));
            append(&mut message, &to_chars(" has image extension but does not contain valid "));
            append(&mut message, &to_chars(format));
            append(&mut message, &to_chars(" data"));
            assert(message@ =~= invalid_image_message(plan.path@, format@));
            return Err(AgentError::tool_execution("read", from_chars(&message).as_str()));
        }
        if content.len() > usize::MAX / 2 {
            return Err(AgentError::tool_execution("read", "Image is too large to encode"));
        }
        let mime = mime_of(format);
        let mut url = to_chars("data:");
        append(&mut url, &to_chars(mime));
        append(&mut url, &to_chars(";base64,"));
        append(&mut url, &to_chars(encode_base64(content).as_str()));
        assert(url@ =~= data_url(format@, content@));
        let attachment = FileAttachment {
            id: ascending(generator, Prefix::Part, None),
            session_id: ctx.session_id.clone(),
            message_id: ctx.message_id.clone(),
            attachment_type: "file".to_owned(),
            mime: mime.to_owned(),
            url: from_chars(&url),
        };
        let mut list: Vec<FileAttachment> = Vec::new();
        list.push(attachment);
        Ok(
            ToolResult {
                title: plan.title.clone(),
                output: "Image read successfully".to_owned(),
                metadata: make_preview_metadata("Image read successfully"),
                attachments: Some(list),
            },
        )
    }
}

} // verus!
