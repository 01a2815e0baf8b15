//! How an exported report is named and where it is written.
use vstd::prelude::*;
use crate::config::{expand_home, expand_home_path, join_path, path_join};
use crate::model::opt_view;
use crate::text::{alnum_test, chars_of, copy_str, is_alnum, push_char, trim, trim_string};
use crate::ui::state::{ReportSource, source_label};

verus! {

#[derive(Clone, Copy, Debug, PartialEq, Eq, Structural)]
pub enum ExportFormat {
    Pdf,
    Markdown,
}

pub open spec fn extension_of(f: ExportFormat) -> Seq<char> {
    match f {
        ExportFormat::Pdf => "pdf"@,
        ExportFormat::Markdown => "md"@,
    }
}

impl ExportFormat {
    pub fn extension(self) -> (r: &'static str)
        ensures
            r@ == extension_of(self),
    {
        match self {
            ExportFormat::Pdf => "pdf",
            ExportFormat::Markdown => "md",
        }
    }

    pub fn label(self) -> (r: &'static str)
        ensures
            r@ == match self {
                ExportFormat::Pdf => "PDF"@,
                ExportFormat::Markdown => "Markdown"@,
            },
    {
        match self {
            ExportFormat::Pdf => "PDF",
            ExportFormat::Markdown => "Markdown",
        }
    }
}

/// The subtitle of an exported PDF.
pub open spec fn export_subtitle_spec(source: ReportSource, flake: Seq<char>) -> Seq<char> {
    if source == ReportSource::Demo {
        "Showing #"@ + flake + " sample"@
    } else {
        source_label(source) + " #"@ + flake + " flake"@
    }
}

pub fn export_subtitle(source: ReportSource, flake: &str) -> (r: String)
    ensures
        r@ == export_subtitle_spec(source, flake@),
{
    match source {
        ReportSource::Demo => {
            let mut s = copy_str("Showing #");
            s.append(flake);
            s.append(" sample");
            s
        },
        _ => {
            let mut s = copy_str(source.label());
            s.append(" #");
            s.append(flake);
            s.append(" flake");
            s
        },
    }
}

pub open spec fn file_char(c: char) -> char {
    if is_alnum(c) || c == '-' || c == '_' {
        c
    } else {
        '-'
    }
}

/// A flake name made safe for a file name: anything but ASCII letters,
/// digits, `-` and `_` becomes `-`; nothing at all becomes `report`.
pub open spec fn sanitize_spec(s: Seq<char>) -> Seq<char> {
    if s.len() == 0 {
        "report"@
    } else {
        s.map_values(|c: char| file_char(c))
    }
}

pub fn sanitize_file_part(value: &str) -> (r: String)
    ensures
        r@ == sanitize_spec(value@),
{
    let v = chars_of(value);
    if v.len() == 0 {
        return copy_str("report");
    }
    let mut out = String::new();
    let mut i: usize = 0;
    while i < v.len()
        invariant
            i <= v.len(),
            v@ == value@,
            out@ == v@.take(i as int).map_values(|c: char| file_char(c)),
        decreases v.len() - i,
    {
        let c = v[i];
        let kept = if alnum_test(c) || c == '-' || c == '_' {
            c
        } else {
            '-'
        };
        push_char(&mut out, kept);
        assert(v@.take(i + 1).map_values(|c: char| file_char(c)) =~= v@.take(i as int).map_values(
            |c: char| file_char(c),
        ).push(file_char(c)));
        i = i + 1;
    }
    assert(v@.take(v.len() as int) =~= v@);
    out
}

pub open spec fn default_file_name_spec(flake: Seq<char>, format: ExportFormat) -> Seq<char> {
    "sunix-report-"@ + sanitize_spec(flake) + "."@ + extension_of(format)
}

/// `sunix-report-<flake>.<extension>`.
pub fn default_file_name(flake: &str, format: ExportFormat) -> (r: String)
    ensures
        r@ == default_file_name_spec(flake@, format),
{
    let mut s = copy_str("sunix-report-");
    let part = sanitize_file_part(flake);
    s.append(part.as_str());
    s.append(".");
    s.append(format.extension());
    s
}

/// What `Path::extension` gives for a path.
pub uninterp spec fn std_extension(path: Seq<char>) -> Option<Seq<char>>;

/// What `PathBuf::set_extension` makes of a path.
pub uninterp spec fn std_set_extension(path: Seq<char>, ext: Seq<char>) -> Seq<char>;

/// `Path::extension` of a path given as text. Its result is named
/// `std_extension`; how the file name and its extension are found is left
/// to the standard library.
#[verifier::external_body]
fn path_extension(path: &str) -> (r: Option<String>)
    ensures
        opt_view(r) == std_extension(path@),
{
    match std::path::Path::new(path).extension() {
        Some(e) => Some(e.to_string_lossy().into_owned()),
        None => None,
    }
}

/// `PathBuf::set_extension` on a path given as text. Its result is named
/// `std_set_extension`; how the old extension is replaced is left to the
/// standard library. It panics on an extension holding a path separator,
/// so such an extension is ruled out.
#[verifier::external_body]
fn path_set_extension(path: &str, ext: &str) -> (r: String)
    requires
        forall|i: int| 0 <= i < ext@.len() ==> ext@[i] != '/',
    ensures
        r@ == std_set_extension(path@, ext@),
{
    let mut p = std::path::PathBuf::from(path);
    p.set_extension(ext);
    p.to_string_lossy().into_owned()
}

pub open spec fn lower_char(c: char) -> u32 {
    if 'A' <= c && c <= 'Z' {
        (c as u32 + 32) as u32
    } else {
        c as u32
    }
}

/// `str::eq_ignore_ascii_case`.
pub open spec fn same_ignoring_case(a: Seq<char>, b: Seq<char>) -> bool {
    a.len() == b.len() && forall|i: int| 0 <= i < a.len() ==> lower_char(#[trigger] a[i]) == lower_char(b[i])
}

fn same_ignoring_case_exec(a: &str, b: &str) -> (r: bool)
    ensures
        r == same_ignoring_case(a@, b@),
{
    let x = chars_of(a);
    let y = chars_of(b);
    if x.len() != y.len() {
        return false;
    }
    let mut i: usize = 0;
    while i < x.len()
        invariant
            x.len() == y.len(),
            x@ == a@,
            y@ == b@,
            i <= x.len(),
            forall|k: int| 0 <= k < i ==> lower_char(#[trigger] x@[k]) == lower_char(y@[k]),
        decreases x.len() - i,
    {
        let cx = if 'A' <= x[i] && x[i] <= 'Z' {
            (x[i] as u32) + 32
        } else {
            x[i] as u32
        };
        let cy = if 'A' <= y[i] && y[i] <= 'Z' {
            (y[i] as u32) + 32
        } else {
            y[i] as u32
        };
        if cx != cy {
            return false;
        }
        i = i + 1;
    }
    true
}

/// The path with the format's extension: kept when it already has it (in
/// any case), replaced or added otherwise.
pub open spec fn with_extension_spec(path: Seq<char>, format: ExportFormat) -> Seq<char> {
    match std_extension(path) {
        Some(e) => if same_ignoring_case(e, extension_of(format)) {
            path
        } else {
            std_set_extension(path, extension_of(format))
        },
        None => std_set_extension(path, extension_of(format)),
    }
}

pub fn with_extension(path: &str, format: ExportFormat) -> (r: String)
    ensures
        r@ == with_extension_spec(path@, format),
{
    let expected = format.extension();
    proof {
        reveal_strlit("pdf");
        reveal_strlit("md");
    }
    let has_expected = match path_extension(path) {
        Some(e) => same_ignoring_case_exec(e.as_str(), expected),
        None => false,
    };
    if has_expected {
        copy_str(path)
    } else {
        path_set_extension(path, expected)
    }
}

/// The path typed into the export box: trimmed and home-expanded, or an
/// error when it is blank.
pub open spec fn export_target_spec(text: Seq<char>, home: Option<Seq<char>>) -> Result<Seq<char>, Seq<char>> {
    let t = trim(text);
    if t.len() == 0 {
        Err("Enter an export path"@)
    } else {
        Ok(expand_home(t, home))
    }
}

pub fn export_target(text: &str, home: &Option<String>) -> (r: Result<String, String>)
    ensures
        match r {
            Ok(p) => export_target_spec(text@, opt_view(*home)) == Ok::<Seq<char>, Seq<char>>(p@),
            Err(e) => export_target_spec(text@, opt_view(*home)) == Err::<Seq<char>, Seq<char>>(e@),
        },
{
    let t = trim_string(text);
    if t.as_str().is_empty() {
        return Err(copy_str("Enter an export path"));
    }
    Ok(expand_home_path(t.as_str(), home))
}

/// Where an export goes: into a directory under the default file name,
/// otherwise at the path with the format's extension.
pub open spec fn export_path_spec(
    target: Seq<char>,
    target_is_dir: bool,
    flake: Seq<char>,
    format: ExportFormat,
) -> Seq<char> {
    if target_is_dir {
        path_join(target, default_file_name_spec(flake, format))
    } else {
        with_extension_spec(target, format)
    }
}

pub fn export_path_for(target: &str, target_is_dir: bool, flake: &str, format: ExportFormat) -> (r: String)
    ensures
        r@ == export_path_spec(target@, target_is_dir, flake@, format),
{
    if target_is_dir {
        let name = default_file_name(flake, format);
        join_path(target, name.as_str())
    } else {
        with_extension(target, format)
    }
}

/// A sanitized name keeps its length and holds only file-safe characters.
pub proof fn lemma_sanitized_is_safe(s: Seq<char>)
    ensures
        s.len() > 0 ==> sanitize_spec(s).len() == s.len(),
        forall|i: int|
            0 <= i < sanitize_spec(s).len() ==> is_alnum(#[trigger] sanitize_spec(s)[i])
                || sanitize_spec(s)[i] == '-' || sanitize_spec(s)[i] == '_',
        sanitize_spec(s).len() > 0,
{
    reveal_strlit("report");
}

} // verus!
