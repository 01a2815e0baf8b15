//! Command-line options: the popup (optionally with the demo report) or a
//! report written to standard output in Markdown or PDF.
use vstd::prelude::*;
use crate::text::{copy_str, starts_with, trim, trim_string, str_equal};

verus! {

#[derive(Debug, Clone, Eq, PartialEq)]
pub struct CliOptions {
    pub demo: bool,
    pub help: bool,
    pub report: Option<CliReport>,
}

#[derive(Debug, Clone, Eq, PartialEq)]
pub struct CliReport {
    pub format: CliReportFormat,
    pub title: String,
}

#[derive(Debug, Clone, Copy, Eq, PartialEq, Structural)]
pub enum CliReportFormat {
    Markdown,
    Pdf,
}

pub struct CliOptionsView {
    pub demo: bool,
    pub help: bool,
    pub report: Option<(CliReportFormat, Seq<char>)>,
}

impl View for CliOptions {
    type V = CliOptionsView;

    open spec fn view(&self) -> CliOptionsView {
        CliOptionsView {
            demo: self.demo,
            help: self.help,
            report: match self.report {
                Some(r) => Some((r.format, r.title@)),
                None => None,
            },
        }
    }
}

pub open spec fn no_options() -> CliOptionsView {
    CliOptionsView { demo: false, help: false, report: None }
}

pub open spec fn missing_title_error(flag: Seq<char>) -> Seq<char> {
    "sunix: "@ + flag + " requires a report title argument"@
}

/// What a report flag followed by `title` does to the options.
pub open spec fn set_report_spec(
    st: CliOptionsView,
    format: CliReportFormat,
    flag: Seq<char>,
    title: Option<Seq<char>>,
) -> Result<CliOptionsView, Seq<char>> {
    if st.report is Some {
        Err("sunix: only one report output flag can be used"@)
    } else {
        match title {
            None => Err(missing_title_error(flag)),
            Some(t) => if starts_with(t, "-"@) {
                Err(missing_title_error(flag))
            } else if trim(t).len() == 0 {
                Err("sunix: "@ + flag + " requires a non-empty report title"@)
            } else {
                Ok(CliOptionsView { report: Some((format, t)), ..st })
            },
        }
    }
}

/// Reading the arguments from position `i` on, with options `st` so far.
pub open spec fn parse_from(args: Seq<Seq<char>>, i: int, st: CliOptionsView) -> Result<
    CliOptionsView,
    Seq<char>,
>
    decreases args.len() - i,
{
    if i < 0 || i >= args.len() {
        if st.report is Some && st.demo {
            Err("sunix: --demo cannot be used with report output flags"@)
        } else {
            Ok(st)
        }
    } else {
        let a = args[i];
        if a == "--demo"@ {
            parse_from(args, i + 1, CliOptionsView { demo: true, ..st })
        } else if a == "-h"@ || a == "--help"@ {
            parse_from(args, i + 1, CliOptionsView { help: true, ..st })
        } else if a == "--markdown-report"@ || a == "--pdf-report"@ {
            let format = if a == "--markdown-report"@ {
                CliReportFormat::Markdown
            } else {
                CliReportFormat::Pdf
            };
            let title = if i + 1 < args.len() {
                Some(args[i + 1])
            } else {
                None
            };
            match set_report_spec(st, format, a, title) {
                Err(e) => Err(e),
                Ok(next) => parse_from(args, i + 2, next),
            }
        } else {
            Err("sunix: unsupported argument `"@ + a + "`"@)
        }
    }
}

pub open spec fn args_view(args: Seq<String>) -> Seq<Seq<char>> {
    args.map_values(|a: String| a@)
}

/// The options the arguments ask for, or why they are refused.
pub open spec fn parse_spec(args: Seq<Seq<char>>) -> Result<CliOptionsView, Seq<char>> {
    parse_from(args, 0, no_options())
}

pub open spec fn usage_text() -> Seq<char> {
    "Usage: sunix [--demo]\n       sunix --markdown-report <title>\n       sunix --pdf-report <title>\n\nOptions:\n  --demo                     Show the Demo button regardless of show_demo config\n  --markdown-report <title>  Read dix JSON from stdin and write a Markdown report to stdout\n  --pdf-report <title>       Read dix JSON from stdin and write a PDF report to stdout\n  -h, --help                 Show this help"@
}

fn blank(s: &str) -> (r: bool)
    ensures
        r == (trim(s@).len() == 0),
{
    let t = trim_string(s);
    t.as_str().is_empty()
}

fn starts_with_dash(s: &str) -> (r: bool)
    ensures
        r == starts_with(s@, "-"@),
{
    proof {
        reveal_strlit("-");
    }
    let v = crate::text::chars_of(s);
    if v.len() == 0 {
        false
    } else {
        assert(v@.len() > 0 ==> (v@.subrange(0, 1) == "-"@ <==> v@[0] == '-')) by {
            assert("-"@.len() == 1);
            assert("-"@[0] == '-');
            if v@.len() > 0 {
                assert(v@.subrange(0, 1)[0] == v@[0]);
                if v@[0] == '-' {
                    assert(v@.subrange(0, 1) =~= "-"@);
                }
            }
        }
        v[0] == '-'
    }
}

fn flag_error(flag: &str, tail: &str) -> (r: String)
    ensures
        r@ == "sunix: "@ + flag@ + tail@,
{
    let mut e = String::new();
    e.append("sunix: ");
    e.append(flag);
    e.append(tail);
    e
}

impl CliOptions {
    /// Reads the command-line arguments (without the program name).
    pub fn parse(args: Vec<String>) -> (r: Result<Self, String>)
        ensures
            match r {
                Ok(o) => parse_spec(args_view(args@)) == Ok::<CliOptionsView, Seq<char>>(o@),
                Err(e) => parse_spec(args_view(args@)) == Err::<CliOptionsView, Seq<char>>(e@),
            },
    {
        let ghost av = args_view(args@);
        let mut options = CliOptions { demo: false, help: false, report: None };
        let mut i: usize = 0;
        while i < args.len()
            invariant
                i <= args@.len(),
                av == args_view(args@),
                parse_spec(av) == parse_from(av, i as int, options@),
            decreases args.len() - i,
        {
            let arg = args[i].as_str();
            assert(av[i as int] == arg@);
            if str_equal(arg, "--demo") {
                options.demo = true;
                i = i + 1;
            } else if str_equal(arg, "-h") || str_equal(arg, "--help") {
                options.help = true;
                i = i + 1;
            } else if str_equal(arg, "--markdown-report") || str_equal(arg, "--pdf-report") {
                let format = if str_equal(arg, "--markdown-report") {
                    CliReportFormat::Markdown
                } else {
                    CliReportFormat::Pdf
                };
                let title = if i + 1 < args.len() {
                    Some(args[i + 1].clone())
                } else {
                    None
                };
                match options.set_report(format, arg, title) {
                    Ok(()) => {},
                    Err(e) => {
                        return Err(e);
                    },
                }
                i = if i + 1 < args.len() {
                    i + 2
                } else {
                    args.len()
                };
            } else {
                let mut e = String::new();
                e.append("sunix: unsupported argument `");
                e.append(arg);
                e.append("`");
                return Err(e);
            }
        }
        if options.report.is_some() && options.demo {
            return Err(copy_str("sunix: --demo cannot be used with report output flags"));
        }
        Ok(options)
    }

    fn set_report(&mut self, format: CliReportFormat, flag: &str, title: Option<String>) -> (r: Result<(), String>)
        ensures
            match r {
                Ok(()) => set_report_spec(
                    old(self)@,
                    format,
                    flag@,
                    crate::model::opt_view(title),
                ) == Ok::<CliOptionsView, Seq<char>>(final(self)@),
                Err(e) => set_report_spec(
                    old(self)@,
                    format,
                    flag@,
                    crate::model::opt_view(title),
                ) == Err::<CliOptionsView, Seq<char>>(e@),
            },
    {
        if self.report.is_some() {
            return Err(copy_str("sunix: only one report output flag can be used"));
        }
        let title = match title {
            Some(t) => t,
            None => {
                return Err(flag_error(flag, " requires a report title argument"));
            },
        };
        if starts_with_dash(title.as_str()) {
            return Err(flag_error(flag, " requires a report title argument"));
        }
        if blank(title.as_str()) {
            return Err(flag_error(flag, " requires a non-empty report title"));
        }
        self.report = Some(CliReport { format, title });
        Ok(())
    }
}

/// The usage text.
pub fn usage() -> (r: &'static str)
    ensures
        r@ == usage_text(),
{
    "Usage: sunix [--demo]\n       sunix --markdown-report <title>\n       sunix --pdf-report <title>\n\nOptions:\n  --demo                     Show the Demo button regardless of show_demo config\n  --markdown-report <title>  Read dix JSON from stdin and write a Markdown report to stdout\n  --pdf-report <title>       Read dix JSON from stdin and write a PDF report to stdout\n  -h, --help                 Show this help"
}

proof fn lemma_parse_from_sound(args: Seq<Seq<char>>, i: int, st: CliOptionsView)
    requires
        st.report matches Some((_, t)) ==> !starts_with(t, "-"@) && trim(t).len() > 0,
    ensures
        parse_from(args, i, st) matches Ok(o) ==> !(o.report is Some && o.demo) && (
        o.report matches Some((_, t)) ==> !starts_with(t, "-"@) && trim(t).len() > 0),
    decreases args.len() - i,
{
    if !(i < 0 || i >= args.len()) {
        let a = args[i];
        if a == "--demo"@ {
            lemma_parse_from_sound(args, i + 1, CliOptionsView { demo: true, ..st });
        } else if a == "-h"@ || a == "--help"@ {
            lemma_parse_from_sound(args, i + 1, CliOptionsView { help: true, ..st });
        } else if a == "--markdown-report"@ || a == "--pdf-report"@ {
            let format = if a == "--markdown-report"@ {
                CliReportFormat::Markdown
            } else {
                CliReportFormat::Pdf
            };
            let title = if i + 1 < args.len() {
                Some(args[i + 1])
            } else {
                None
            };
            if let Ok(next) = set_report_spec(st, format, a, title) {
                lemma_parse_from_sound(args, i + 2, next);
            }
        }
    }
}

/// Accepted options never ask for the demo and a report together, and a
/// report title is never blank nor starts with `-`.
pub proof fn lemma_parsed_options_consistent(args: Seq<Seq<char>>)
    ensures
        parse_spec(args) matches Ok(o) ==> !(o.report is Some && o.demo) && (
        o.report matches Some((_, t)) ==> !starts_with(t, "-"@) && trim(t).len() > 0),
{
    lemma_parse_from_sound(args, 0, no_options());
}

} // verus!
