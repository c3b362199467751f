//! Records of the text clean-up pipeline: each step's input and output.

use vstd::prelude::*;
use vstd::string::{StrSliceExecFns, StringExecFns};
use crate::cleanup::push_char;

verus! {

/// One step of the pipeline.
#[derive(Debug, Clone)]
pub struct PipelineStepRecord {
    pub name: String,
    pub before: String,
    pub after: String,
    /// Whether the step changed the text.
    pub applied: bool,
    pub change_count: Option<usize>,
}

impl PipelineStepRecord {
    pub fn new(name: String, before: String, after: String, change_count: Option<usize>) -> (r: Self)
        ensures
            r.name@ == name@,
            r.before@ == before@,
            r.after@ == after@,
            r.applied == (before@ != after@),
            r.change_count == change_count,
    {
        let applied = !(before == after);
        PipelineStepRecord { name, before, after, applied, change_count }
    }
}

/// Number of applied steps among `steps`.
pub open spec fn applied_count(steps: Seq<PipelineStepRecord>) -> nat
    decreases steps.len(),
{
    if steps.len() == 0 {
        0
    } else {
        applied_count(steps.drop_last()) + if steps.last().applied { 1nat } else { 0nat }
    }
}

/// The whole pipeline run on one text.
#[derive(Debug, Clone)]
pub struct TextPipelineRecord {
    pub input: String,
    pub output: String,
    pub steps: Vec<PipelineStepRecord>,
}

impl TextPipelineRecord {
    pub fn new(input: String, output: String, steps: Vec<PipelineStepRecord>) -> (r: Self)
        ensures
            r.input@ == input@,
            r.output@ == output@,
            r.steps@ == steps@,
    {
        TextPipelineRecord { input, output, steps }
    }

    /// How many steps changed the text.
    pub fn changed_steps(&self) -> (r: usize)
        ensures
            r as nat == applied_count(self.steps@),
    {
        let mut count: usize = 0;
        let mut i: usize = 0;
        while i < self.steps.len()
            invariant
                i <= self.steps@.len(),
                count <= i,
                count as nat == applied_count(self.steps@.take(i as int)),
            decreases self.steps@.len() - i,
        {
            assert(self.steps@.take(i + 1).drop_last() =~= self.steps@.take(i as int));
            if self.steps[i].applied {
                count = count + 1;
            }
            i = i + 1;
        }
        assert(self.steps@.take(self.steps@.len() as int) =~= self.steps@);
        count
    }
}


// ---------------------------------------------------------------------------
// Rendering a record for the log
// ---------------------------------------------------------------------------

/// Longest text, in UTF-8 bytes of before and after together, that is
/// shown as a word diff.
pub const MAX_DIFF_BYTES: u128 = 2048;

/// Characters of a value shown before it is cut short.
pub const PREVIEW_CHAR_LIMIT: usize = 160;

pub open spec fn red(t: Seq<char>) -> Seq<char> {
    "\u{1b}[31m"@ + t + "\u{1b}[39m"@
}

pub open spec fn green(t: Seq<char>) -> Seq<char> {
    "\u{1b}[32m"@ + t + "\u{1b}[39m"@
}

pub open spec fn cyan(t: Seq<char>) -> Seq<char> {
    "\u{1b}[36m"@ + t + "\u{1b}[39m"@
}

pub open spec fn dimmed(t: Seq<char>) -> Seq<char> {
    "\u{1b}[2m"@ + t + "\u{1b}[0m"@
}

/// Relies on owo-colors' `red`: the text between the red and the default
/// foreground ANSI codes.
#[verifier::external_body]
fn paint_red(text: &str) -> (r: String)
    ensures
        r@ == red(text@),
{
    owo_colors::OwoColorize::red(&text).to_string()
}

/// Relies on owo-colors' `green`: the text between the green and the
/// default foreground ANSI codes.
#[verifier::external_body]
fn paint_green(text: &str) -> (r: String)
    ensures
        r@ == green(text@),
{
    owo_colors::OwoColorize::green(&text).to_string()
}

/// Relies on owo-colors' `cyan`: the text between the cyan and the default
/// foreground ANSI codes.
#[verifier::external_body]
fn paint_cyan(text: &str) -> (r: String)
    ensures
        r@ == cyan(text@),
{
    owo_colors::OwoColorize::cyan(&text).to_string()
}

/// Relies on owo-colors' `dimmed`: the text between the dim and the reset
/// ANSI codes.
#[verifier::external_body]
fn paint_dimmed(text: &str) -> (r: String)
    ensures
        r@ == dimmed(text@),
{
    owo_colors::OwoColorize::dimmed(&text).to_string()
}

/// The changes of similar's word diff of `before` into `after`, in order:
/// tag 0 for removed text, 1 for inserted text, 2 for text both share.
pub uninterp spec fn word_changes(before: Seq<char>, after: Seq<char>) -> Seq<(u8, Seq<char>)>;

/// Relies on similar's `TextDiff::from_words` and `iter_all_changes`.
#[verifier::external_body]
fn diff_words(before: &str, after: &str) -> (r: Vec<(u8, String)>)
    ensures
        r.deep_view() == word_changes(before@, after@),
{
    similar::TextDiff::from_words(before, after)
        .iter_all_changes()
        .map(|c| {
            let tag = match c.tag() {
                similar::ChangeTag::Delete => 0u8,
                similar::ChangeTag::Insert => 1u8,
                similar::ChangeTag::Equal => 2u8,
            };
            (tag, c.value().to_string())
        })
        .collect()
}

/// Bytes of `c` in UTF-8.
pub open spec fn utf8_width(c: char) -> nat {
    if (c as u32) < 0x80 {
        1
    } else if (c as u32) < 0x800 {
        2
    } else if (c as u32) < 0x10000 {
        3
    } else {
        4
    }
}

pub open spec fn utf8_len(s: Seq<char>) -> nat
    decreases s.len(),
{
    if s.len() == 0 {
        0
    } else {
        utf8_len(s.drop_last()) + utf8_width(s.last())
    }
}

fn utf8_bytes(s: &str) -> (r: u128)
    ensures
        r as nat == utf8_len(s@),
        r <= 4 * (usize::MAX as u128),
{
    let n = s.unicode_len();
    let mut total: u128 = 0;
    let mut i: usize = 0;
    while i < n
        invariant
            n == s@.len(),
            i <= n,
            total as nat == utf8_len(s@.take(i as int)),
            total <= 4 * i,
        decreases n - i,
    {
        let c = s.get_char(i);
        assert(s@.take(i + 1).drop_last() =~= s@.take(i as int));
        let w: u128 = if (c as u32) < 0x80 {
            1
        } else if (c as u32) < 0x800 {
            2
        } else if (c as u32) < 0x10000 {
            3
        } else {
            4
        };
        total = total + w;
        i = i + 1;
    }
    assert(s@.take(n as int) =~= s@);
    assert(total <= 4 * (usize::MAX as u128));
    total
}

/// The decimal digits of `n`.
pub open spec fn decimal(n: nat) -> Seq<char>
    decreases n,
{
    if n < 10 {
        seq![(48 + n) as char]
    } else {
        decimal(n / 10).push((48 + n % 10) as char)
    }
}

fn push_decimal(out: &mut String, n: usize)
    ensures
        final(out)@ == old(out)@ + decimal(n as nat),
    decreases n,
{
    let ghost start = out@;
    if n >= 10 {
        push_decimal(out, n / 10);
    }
    let d = (n % 10) as u8 + 48;
    push_char(out, d as char);
    assert(out@ =~= start + decimal(n as nat));
}

/// Control characters (Unicode category Cc), as `char::is_control` tests.
pub open spec fn is_control_char(c: char) -> bool {
    (c as u32) <= 0x1f || (0x7f <= (c as u32) && (c as u32) <= 0x9f)
}

pub open spec fn hex_digit(v: nat) -> char {
    if v < 10 { (48 + v) as char } else { (55 + v) as char }
}

/// How one character is shown in the log: line breaks, tabs and other
/// control characters made visible.
pub open spec fn shown_char(c: char) -> Seq<char> {
    if c == '\n' {
        seq!['⏎']
    } else if c == '\t' {
        seq!['⇥']
    } else if c == '\r' {
        seq!['␍']
    } else if is_control_char(c) {
        let v = c as u32 as nat;
        "\\u{"@ + seq![
            hex_digit(v / 4096 % 16),
            hex_digit(v / 256 % 16),
            hex_digit(v / 16 % 16),
            hex_digit(v % 16),
        ] + "}"@
    } else {
        seq![c]
    }
}

pub open spec fn shown(s: Seq<char>) -> Seq<char>
    decreases s.len(),
{
    if s.len() == 0 {
        seq![]
    } else {
        shown(s.drop_last()) + shown_char(s.last())
    }
}

fn hex_char(v: u32) -> (r: char)
    requires
        v < 16,
    ensures
        r == hex_digit(v as nat),
{
    if v < 10 {
        ((v + 48) as u8) as char
    } else {
        ((v + 55) as u8) as char
    }
}

/// Makes line breaks, tabs and control characters visible.
pub fn escape_fragment(value: &str) -> (r: String)
    ensures
        r@ == shown(value@),
{
    let n = value.unicode_len();
    let mut out = String::new();
    let mut i: usize = 0;
    while i < n
        invariant
            n == value@.len(),
            i <= n,
            out@ == shown(value@.take(i as int)),
        decreases n - i,
    {
        let c = value.get_char(i);
        assert(value@.take(i + 1).drop_last() =~= value@.take(i as int));
        let ghost before = out@;
        if c == '\n' {
            push_char(&mut out, '⏎');
        } else if c == '\t' {
            push_char(&mut out, '⇥');
        } else if c == '\r' {
            push_char(&mut out, '␍');
        } else if (c as u32) <= 0x1f || (0x7f <= (c as u32) && (c as u32) <= 0x9f) {
            let v = c as u32;
            out.append("\\u{");
            push_char(&mut out, hex_char(v / 4096 % 16));
            push_char(&mut out, hex_char(v / 256 % 16));
            push_char(&mut out, hex_char(v / 16 % 16));
            push_char(&mut out, hex_char(v % 16));
            out.append("}");
        } else {
            push_char(&mut out, c);
        }
        assert(out@ =~= before + shown_char(c));
        i = i + 1;
    }
    assert(value@.take(n as int) =~= value@);
    out
}

/// A value as previewed in the log: at most `PREVIEW_CHAR_LIMIT`
/// characters (then `...`), made visible, cyan when colouring.
pub open spec fn preview(v: Seq<char>, use_color: bool) -> Seq<char> {
    let cut = if v.len() > PREVIEW_CHAR_LIMIT {
        v.take(PREVIEW_CHAR_LIMIT as int) + "..."@
    } else {
        v
    };
    if use_color {
        cyan(shown(cut))
    } else {
        shown(cut)
    }
}

pub fn preview_value(value: &str, use_color: bool) -> (r: String)
    ensures
        r@ == preview(value@, use_color),
{
    let n = value.unicode_len();
    let mut cut = String::new();
    let limit = if n > PREVIEW_CHAR_LIMIT { PREVIEW_CHAR_LIMIT } else { n };
    let mut i: usize = 0;
    while i < limit
        invariant
            limit <= n == value@.len(),
            i <= limit,
            cut@ == value@.take(i as int),
        decreases limit - i,
    {
        push_char(&mut cut, value.get_char(i));
        assert(cut@ =~= value@.take(i + 1));
        i = i + 1;
    }
    if n > PREVIEW_CHAR_LIMIT {
        cut.append("...");
    } else {
        assert(value@.take(n as int) =~= value@);
    }
    let escaped = escape_fragment(cut.as_str());
    if use_color {
        paint_cyan(escaped.as_str())
    } else {
        escaped
    }
}


/// How a diff fragment is coloured.
#[derive(Debug, Clone, Copy, PartialEq, Eq, Structural)]
pub enum DiffStyle {
    Delete,
    Insert,
    Context,
}

pub open spec fn styled(t: Seq<char>, use_color: bool, style: DiffStyle) -> Seq<char> {
    if !use_color {
        t
    } else {
        match style {
            DiffStyle::Delete => red(t),
            DiffStyle::Insert => green(t),
            DiffStyle::Context => dimmed(t),
        }
    }
}

pub fn stylize(fragment: &str, use_color: bool, style: DiffStyle) -> (r: String)
    ensures
        r@ == styled(fragment@, use_color, style),
{
    if !use_color {
        return fragment.to_owned();
    }
    match style {
        DiffStyle::Delete => paint_red(fragment),
        DiffStyle::Insert => paint_green(fragment),
        DiffStyle::Context => paint_dimmed(fragment),
    }
}

/// The removed side, the added side, and whether anything was removed or
/// added, built from the word changes in order.
pub open spec fn diff_parts(changes: Seq<(u8, Seq<char>)>, use_color: bool) -> (Seq<char>, Seq<char>, bool, bool)
    decreases changes.len(),
{
    if changes.len() == 0 {
        (seq![], seq![], false, false)
    } else {
        let p = diff_parts(changes.drop_last(), use_color);
        let tag = changes.last().0;
        let e = shown(changes.last().1);
        if tag == 0 {
            (p.0 + styled(e, use_color, DiffStyle::Delete), p.1, true, p.3)
        } else if tag == 1 {
            (p.0, p.1 + styled(e, use_color, DiffStyle::Insert), p.2, true)
        } else {
            (p.0 + styled(e, use_color, DiffStyle::Context), p.1 + styled(e, use_color, DiffStyle::Context), p.2, p.3)
        }
    }
}

/// The word-diff lines of a step, when it changed the text, the text is
/// short enough and the diff finds a change.
pub open spec fn inline_diff_lines(step: PipelineStepRecord, use_color: bool) -> Option<Seq<Seq<char>>> {
    if !step.applied || utf8_len(step.before@) + utf8_len(step.after@) > MAX_DIFF_BYTES {
        None
    } else {
        let p = diff_parts(word_changes(step.before@, step.after@), use_color);
        if !p.2 && !p.3 {
            None
        } else {
            Some(
                (if p.2 { seq!["- "@ + p.0] } else { seq![] }) + (if p.3 { seq!["+ "@ + p.1] } else { seq![] }),
            )
        }
    }
}

/// The log lines of one step: a summary, then its diff (or its before and
/// after values); none when the step changed nothing.
pub open spec fn step_lines(step: PipelineStepRecord, use_color: bool) -> Seq<Seq<char>> {
    if !step.applied {
        seq![]
    } else {
        let summary = match step.change_count {
            Some(n) => if n > 0 {
                "• "@ + step.name@ + " (applied ×"@ + decimal(n as nat) + ")"@
            } else {
                "• "@ + step.name@ + " (applied)"@
            },
            None => "• "@ + step.name@ + " (applied)"@,
        };
        seq![summary] + match inline_diff_lines(step, use_color) {
            Some(ls) => ls.map_values(|l: Seq<char>| "  "@ + l),
            None => seq!["  - "@ + preview(step.before@, use_color), "  + "@ + preview(step.after@, use_color)],
        }
    }
}

/// All steps' lines, step after step.
pub open spec fn all_step_lines(steps: Seq<PipelineStepRecord>, use_color: bool) -> Seq<Seq<char>>
    decreases steps.len(),
{
    if steps.len() == 0 {
        seq![]
    } else {
        all_step_lines(steps.drop_last(), use_color) + step_lines(steps.last(), use_color)
    }
}

pub open spec fn body(line: Seq<char>) -> Seq<char> {
    "│ "@ + line
}

/// The lines of a rendered record: a header with the step counts, the
/// input, every step's lines, the output and a closing rule.
pub open spec fn record_lines(rec: TextPipelineRecord, use_color: bool) -> Seq<Seq<char>> {
    let header = "┌─ Text Pipeline (steps: "@ + decimal(rec.steps@.len()) + ", changed: "@ + decimal(
        applied_count(rec.steps@),
    ) + ")"@;
    seq![header, body("IN  : "@ + preview(rec.input@, use_color))]
        + all_step_lines(rec.steps@, use_color).map_values(|l: Seq<char>| body(l))
        + seq![body("OUT : "@ + preview(rec.output@, use_color)), "└─"@]
}

/// Lines joined by newlines.
pub open spec fn joined(lines: Seq<Seq<char>>) -> Seq<char>
    decreases lines.len(),
{
    if lines.len() == 0 {
        seq![]
    } else if lines.len() == 1 {
        lines[0]
    } else {
        joined(lines.drop_last()) + "\n"@ + lines.last()
    }
}

fn prefixed(prefix: &str, text: &str) -> (r: String)
    ensures
        r@ == prefix@ + text@,
{
    let mut out = prefix.to_owned();
    out.append(text);
    out
}

fn push_line(lines: &mut Vec<String>, line: String)
    ensures
        final(lines).deep_view() == old(lines).deep_view().push(line@),
{
    let ghost before = lines.deep_view();
    lines.push(line);
    assert(lines.deep_view() =~= before.push(line@));
}

impl PipelineStepRecord {
    /// The step's word diff as log lines, when there is one to show.
    pub fn inline_diff(&self, use_color: bool) -> (r: Option<Vec<String>>)
        ensures
            r.deep_view() == inline_diff_lines(*self, use_color),
    {
        if !self.applied {
            return None;
        }
        let b = utf8_bytes(self.before.as_str());
        let a = utf8_bytes(self.after.as_str());
        if b + a > MAX_DIFF_BYTES {
            return None;
        }
        let changes = diff_words(self.before.as_str(), self.after.as_str());
        let ghost cs = changes.deep_view();
        let mut removed = String::new();
        let mut added = String::new();
        let mut has_delete = false;
        let mut has_insert = false;
        let mut i: usize = 0;
        while i < changes.len()
            invariant
                i <= changes@.len(),
                cs == changes.deep_view(),
                (removed@, added@, has_delete, has_insert) == diff_parts(cs.take(i as int), use_color),
            decreases changes@.len() - i,
        {
            assert(cs.take(i + 1).drop_last() =~= cs.take(i as int));
            assert(cs[i as int] == (changes@[i as int].0, changes@[i as int].1@));
            let escaped = escape_fragment(changes[i].1.as_str());
            let tag = changes[i].0;
            if tag == 0 {
                has_delete = true;
                removed.append(stylize(escaped.as_str(), use_color, DiffStyle::Delete).as_str());
            } else if tag == 1 {
                has_insert = true;
                added.append(stylize(escaped.as_str(), use_color, DiffStyle::Insert).as_str());
            } else {
                removed.append(stylize(escaped.as_str(), use_color, DiffStyle::Context).as_str());
                added.append(stylize(escaped.as_str(), use_color, DiffStyle::Context).as_str());
            }
            i = i + 1;
        }
        assert(cs.take(changes@.len() as int) =~= cs);
        if !has_delete && !has_insert {
            return None;
        }
        let mut lines: Vec<String> = Vec::new();
        if has_delete {
            push_line(&mut lines, prefixed("- ", removed.as_str()));
        }
        if has_insert {
            push_line(&mut lines, prefixed("+ ", added.as_str()));
        }
        proof {
            let p = diff_parts(cs, use_color);
            assert(lines.deep_view() =~= (if p.2 { seq!["- "@ + p.0] } else { seq![] }) + (if p.3 {
                seq!["+ "@ + p.1]
            } else {
                seq![]
            }));
        }
        Some(lines)
    }

    /// The step's lines in a rendered record.
    pub fn render_lines(&self, use_color: bool) -> (r: Vec<String>)
        ensures
            r.deep_view() == step_lines(*self, use_color),
    {
        let mut lines: Vec<String> = Vec::new();
        if !self.applied {
            assert(lines.deep_view() =~= Seq::<Seq<char>>::empty());
            return lines;
        }
        let mut summary = "• ".to_owned();
        summary.append(self.name.as_str());
        match self.change_count {
            Some(count) => {
                if count > 0 {
                    summary.append(" (applied ×");
                    push_decimal(&mut summary, count);
                    summary.append(")");
                } else {
                    summary.append(" (applied)");
                }
            },
            None => {
                summary.append(" (applied)");
            },
        }
        push_line(&mut lines, summary);
        let ghost head = lines.deep_view();
        match self.inline_diff(use_color) {
            Some(diff_lines) => {
                let ghost ds = diff_lines.deep_view();
                let mut i: usize = 0;
                while i < diff_lines.len()
                    invariant
                        i <= diff_lines@.len(),
                        ds == diff_lines.deep_view(),
                        lines.deep_view() == head + ds.take(i as int).map_values(|l: Seq<char>| "  "@ + l),
                    decreases diff_lines@.len() - i,
                {
                    assert(ds[i as int] == diff_lines@[i as int]@);
                    push_line(&mut lines, prefixed("  ", diff_lines[i].as_str()));
                    assert(ds.take(i + 1).map_values(|l: Seq<char>| "  "@ + l) =~= ds.take(i as int).map_values(
                        |l: Seq<char>| "  "@ + l,
                    ).push("  "@ + ds[i as int]));
                    i = i + 1;
                }
                assert(ds.take(diff_lines@.len() as int) =~= ds);
            },
            None => {
                push_line(&mut lines, prefixed("  - ", preview_value(self.before.as_str(), use_color).as_str()));
                push_line(&mut lines, prefixed("  + ", preview_value(self.after.as_str(), use_color).as_str()));
            },
        }
        proof {
            assert(lines.deep_view() =~= step_lines(*self, use_color));
        }
        lines
    }
}

impl TextPipelineRecord {
    /// The record as a framed block of log lines.
    pub fn render_pretty(&self, use_color: bool) -> (r: String)
        ensures
            r@ == joined(record_lines(*self, use_color)),
    {
        let mut header = "┌─ Text Pipeline (steps: ".to_owned();
        push_decimal(&mut header, self.steps.len());
        header.append(", changed: ");
        push_decimal(&mut header, self.changed_steps());
        header.append(")");
        let mut lines: Vec<String> = Vec::new();
        push_line(&mut lines, header);
        let input = prefixed("IN  : ", preview_value(self.input.as_str(), use_color).as_str());
        push_line(&mut lines, prefixed("│ ", input.as_str()));
        let ghost head = lines.deep_view();
        let mut i: usize = 0;
        while i < self.steps.len()
            invariant
                i <= self.steps@.len(),
                lines.deep_view() == head + all_step_lines(self.steps@.take(i as int), use_color).map_values(
                    |l: Seq<char>| body(l),
                ),
            decreases self.steps@.len() - i,
        {
            assert(self.steps@.take(i + 1).drop_last() =~= self.steps@.take(i as int));
            let step_lines_now = self.steps[i].render_lines(use_color);
            let ghost sl = step_lines_now.deep_view();
            let ghost mid = lines.deep_view();
            let mut j: usize = 0;
            while j < step_lines_now.len()
                invariant
                    j <= step_lines_now@.len(),
                    sl == step_lines_now.deep_view(),
                    lines.deep_view() == mid + sl.take(j as int).map_values(|l: Seq<char>| body(l)),
                decreases step_lines_now@.len() - j,
            {
                assert(sl[j as int] == step_lines_now@[j as int]@);
                push_line(&mut lines, prefixed("│ ", step_lines_now[j].as_str()));
                assert(sl.take(j + 1).map_values(|l: Seq<char>| body(l)) =~= sl.take(j as int).map_values(
                    |l: Seq<char>| body(l),
                ).push(body(sl[j as int])));
                j = j + 1;
            }
            proof {
                assert(sl.take(sl.len() as int) =~= sl);
                let before_steps = all_step_lines(self.steps@.take(i as int), use_color);
                assert(all_step_lines(self.steps@.take(i + 1), use_color) == before_steps + sl);
                assert((before_steps + sl).map_values(|l: Seq<char>| body(l)) =~= before_steps.map_values(
                    |l: Seq<char>| body(l),
                ) + sl.map_values(|l: Seq<char>| body(l)));
                assert(lines.deep_view() =~= head + all_step_lines(self.steps@.take(i + 1), use_color).map_values(
                    |l: Seq<char>| body(l),
                ));
            }
            i = i + 1;
        }
        assert(self.steps@.take(self.steps@.len() as int) =~= self.steps@);
        let output = prefixed("OUT : ", preview_value(self.output.as_str(), use_color).as_str());
        push_line(&mut lines, prefixed("│ ", output.as_str()));
        push_line(&mut lines, "└─".to_owned());
        let ghost all = lines.deep_view();
        assert(all =~= record_lines(*self, use_color));
        let mut out = String::new();
        let mut k: usize = 0;
        while k < lines.len()
            invariant
                k <= lines@.len(),
                all == lines.deep_view(),
                all.len() >= 1,
                out@ == joined(all.take(k as int)),
            decreases lines@.len() - k,
        {
            assert(all[k as int] == lines@[k as int]@);
            assert(all.take(k + 1).drop_last() =~= all.take(k as int));
            if k > 0 {
                out.append("\n");
            }
            out.append(lines[k].as_str());
            proof {
                if k == 0 {
                    assert(out@ =~= joined(all.take(1)));
                } else {
                    assert(out@ =~= joined(all.take(k + 1)));
                }
            }
            k = k + 1;
        }
        assert(all.take(all.len() as int) =~= all);
        out
    }
}

} // verus!
