//! What is kept of a command's output: the log lines streamed while it
//! runs, and the output quoted in a failure message.
use vstd::prelude::*;
use vstd::utf8::{decode_utf8, valid_utf8};
use crate::text::{chars_of, range_string, string_of, trim, trim_vec};

verus! {

/// The most characters of a command's output quoted in a failure message.
pub const MAX_COMMAND_OUTPUT_CHARS: usize = 4000;

/// The most characters of one streamed log line.
pub const MAX_LOG_LINE_CHARS: usize = 240;

/// What `String::from_utf8_lossy` makes of `bytes`.
pub uninterp spec fn utf8_lossy(bytes: Seq<u8>) -> Seq<char>;

/// `String::from_utf8_lossy`, owned. Its result is named `utf8_lossy`; the
/// contract also states what its documentation promises: valid UTF-8 is
/// decoded unchanged. How invalid sequences are replaced is left unsaid.
#[verifier::external_body]
fn decode_lossy(bytes: &[u8]) -> (r: String)
    ensures
        r@ == utf8_lossy(bytes@),
        valid_utf8(bytes@) ==> r@ == decode_utf8(bytes@),
{
    String::from_utf8_lossy(bytes).into_owned()
}

/// A log line cut to `max_chars` characters, the cut marked by `...`.
pub open spec fn truncate_log_line_spec(text: Seq<char>, max_chars: nat) -> Seq<char> {
    if text.len() <= max_chars {
        text
    } else {
        text.take(if max_chars >= 3 {
            max_chars - 3
        } else {
            0
        }) + "..."@
    }
}

/// Output cut to `max_chars` characters, the cut marked on a line of its own.
pub open spec fn truncate_spec(text: Seq<char>, max_chars: nat) -> Seq<char> {
    if text.len() <= max_chars {
        text
    } else {
        text.take(max_chars as int) + "\n..."@
    }
}

pub fn truncate_log_line(text: &str, max_chars: usize) -> (r: String)
    ensures
        r@ == truncate_log_line_spec(text@, max_chars as nat),
{
    let v = chars_of(text);
    if v.len() <= max_chars {
        return string_of(&v);
    }
    let keep = if max_chars >= 3 {
        max_chars - 3
    } else {
        0
    };
    let mut out = range_string(&v, 0, keep);
    out.append("...");
    out
}

pub fn truncate(text: &str, max_chars: usize) -> (r: String)
    ensures
        r@ == truncate_spec(text@, max_chars as nat),
{
    let v = chars_of(text);
    if v.len() <= max_chars {
        return string_of(&v);
    }
    let mut out = range_string(&v, 0, max_chars);
    out.append("\n...");
    out
}

/// The text a failure message quotes for one output stream, if any.
pub open spec fn output_section(label: Seq<char>, output: Seq<u8>) -> Seq<char> {
    let text = trim(utf8_lossy(output));
    if text.len() == 0 {
        Seq::<char>::empty()
    } else {
        "\n\n"@ + label + ":\n"@ + truncate_spec(text, MAX_COMMAND_OUTPUT_CHARS as nat)
    }
}

/// Appends the trimmed output of a stream to a failure message, unless it is empty.
pub fn append_output(message: &mut String, label: &str, output: &[u8])
    ensures
        final(message)@ == old(message)@ + output_section(label@, output@),
{
    let raw = decode_lossy(output);
    let v = chars_of(raw.as_str());
    let t = trim_vec(&v);
    if t.len() == 0 {
        assert(old(message)@ + output_section(label@, output@) =~= old(message)@);
        return;
    }
    message.append("\n\n");
    message.append(label);
    message.append(":\n");
    let text = string_of(&t);
    let cut = truncate(text.as_str(), MAX_COMMAND_OUTPUT_CHARS);
    message.append(cut.as_str());
}

/// Splits at every `\n` and every `\r`.
pub open spec fn split_breaks(s: Seq<char>) -> Seq<Seq<char>>
    decreases s.len(),
{
    if s.len() == 0 {
        seq![Seq::<char>::empty()]
    } else {
        let rest = split_breaks(s.drop_last());
        if s.last() == '\n' || s.last() == '\r' {
            rest.push(Seq::<char>::empty())
        } else {
            rest.update(rest.len() - 1, rest.last().push(s.last()))
        }
    }
}

proof fn lemma_split_breaks_nonempty(s: Seq<char>)
    ensures
        split_breaks(s).len() >= 1,
    decreases s.len(),
{
    if s.len() > 0 {
        lemma_split_breaks_nonempty(s.drop_last());
    }
}

/// The lines logged for pieces `parts`: trimmed, blank ones skipped, each cut to the log limit.
pub open spec fn log_lines_of(parts: Seq<Seq<char>>) -> Seq<Seq<char>>
    decreases parts.len(),
{
    if parts.len() == 0 {
        Seq::<Seq<char>>::empty()
    } else {
        let t = trim(parts.last());
        log_lines_of(parts.drop_last()) + if t.len() == 0 {
            Seq::<Seq<char>>::empty()
        } else {
            seq![truncate_log_line_spec(t, MAX_LOG_LINE_CHARS as nat)]
        }
    }
}

/// The log lines a chunk of a command's error output yields.
pub open spec fn chunk_log_lines(chunk: Seq<u8>) -> Seq<Seq<char>> {
    log_lines_of(split_breaks(utf8_lossy(chunk)))
}

fn split_breaks_exec(s: &Vec<char>) -> (r: Vec<Vec<char>>)
    ensures
        r@.len() == split_breaks(s@).len(),
        forall|i: int| 0 <= i < r@.len() ==> #[trigger] r@[i]@ == split_breaks(s@)[i],
{
    let mut parts: Vec<Vec<char>> = Vec::new();
    let mut cur: Vec<char> = Vec::new();
    let mut i: usize = 0;
    assert(s@.subrange(0, 0) =~= Seq::<char>::empty());
    while i < s.len()
        invariant
            i <= s.len(),
            parts@.len() + 1 == split_breaks(s@.subrange(0, i as int)).len(),
            forall|k: int|
                0 <= k < parts@.len() ==> #[trigger] parts@[k]@ == split_breaks(
                    s@.subrange(0, i as int),
                )[k],
            cur@ == split_breaks(s@.subrange(0, i as int)).last(),
        decreases s.len() - i,
    {
        let ghost pre = s@.subrange(0, i as int);
        assert(s@.subrange(0, i + 1).drop_last() =~= pre);
        proof {
            lemma_split_breaks_nonempty(pre);
        }
        if s[i] == '\n' || s[i] == '\r' {
            let done = cur;
            parts.push(done);
            cur = Vec::new();
            assert(cur@ =~= Seq::<char>::empty());
        } else {
            cur.push(s[i]);
        }
        i = i + 1;
    }
    assert(s@.subrange(0, s.len() as int) =~= s@);
    proof {
        lemma_split_breaks_nonempty(s@);
    }
    parts.push(cur);
    parts
}

/// The log lines of a chunk of output, in order.
pub fn log_lines(chunk: &[u8]) -> (r: Vec<String>)
    ensures
        r@.map_values(|l: String| l@) == chunk_log_lines(chunk@),
{
    let text = decode_lossy(chunk);
    let chars = chars_of(text.as_str());
    let parts = split_breaks_exec(&chars);
    let ghost sp = split_breaks(text@);
    let mut out: Vec<String> = Vec::new();
    let mut i: usize = 0;
    assert(sp.take(0) =~= Seq::<Seq<char>>::empty());
    while i < parts.len()
        invariant
            i <= parts@.len(),
            parts@.len() == sp.len(),
            sp == split_breaks(text@),
            forall|k: int| 0 <= k < parts@.len() ==> #[trigger] parts@[k]@ == sp[k],
            out@.map_values(|l: String| l@) == log_lines_of(sp.take(i as int)),
        decreases parts.len() - i,
    {
        assert(sp.take(i + 1).drop_last() =~= sp.take(i as int));
        assert(parts@[i as int]@ == sp[i as int]);
        let t = trim_vec(&parts[i]);
        if t.len() > 0 {
            let line = string_of(&t);
            let cut = truncate_log_line(line.as_str(), MAX_LOG_LINE_CHARS);
            let ghost before = out@;
            out.push(cut);
            assert(out@.map_values(|l: String| l@) =~= before.map_values(|l: String| l@).push(
                cut@,
            ));
        }
        assert(out@.map_values(|l: String| l@) =~= log_lines_of(sp.take(i + 1)));
        i = i + 1;
    }
    assert(sp.take(parts@.len() as int) =~= sp);
    out
}

/// A truncated log line never holds more characters than allowed (when at
/// least the marker fits), and never gains a line break.
pub proof fn lemma_truncated_log_line_bounds(text: Seq<char>, max_chars: nat)
    ensures
        max_chars >= 3 ==> truncate_log_line_spec(text, max_chars).len() <= max_chars,
        !text.contains('\n') ==> !truncate_log_line_spec(text, max_chars).contains('\n'),
{
    reveal_strlit("...");
    let r = truncate_log_line_spec(text, max_chars);
    if !text.contains('\n') && text.len() > max_chars {
        let k: int = if max_chars >= 3 {
            max_chars - 3
        } else {
            0
        };
        assert forall|i: int| 0 <= i < r.len() implies r[i] != '\n' by {
            if i < k {
                assert(r[i] == text[i]);
            } else {
                assert(r[i] == "..."@[i - k]);
            }
        }
    }
}

} // verus!
