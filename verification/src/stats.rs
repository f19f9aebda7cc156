//! Reading the figures of a remote machine from the output of the command
//! that collects them.
//!
//! The output comes in sections, each under a heading between triple
//! dashes. What a section holds is taken out as numbers where it is a
//! whole number and as text where it is a fraction, so that the caller
//! can turn the fractions into the percentages of the panel.

use vstd::prelude::*;
use crate::monitor::ProcessInfo;
use crate::scan::chars_of;
use crate::scan::find_in;
use crate::scan::find_text;
use crate::scan::join_spans;
use crate::scan::joined;
use crate::scan::last_index_of;
use crate::scan::lines_of;
use crate::scan::occurs_at;
use crate::scan::parse_unsigned;
use crate::scan::parsed_unsigned;
use crate::scan::rfind_char;
use crate::scan::span_string;
use crate::scan::span_texts;
use crate::scan::spans_inside;
use crate::scan::split_span;
use crate::scan::split_text;
use crate::scan::trim_end_span;
use crate::scan::trim_span;
use crate::scan::trimmed;
use crate::scan::without_trailing;
use crate::scan::words_in;
use crate::scan::words_of;
use crate::scan::Span;

verus! {

/// A row of the process table as plain values.
pub struct ProcessInfoView {
    pub pid: Seq<char>,
    pub user: Seq<char>,
    pub cpu: Seq<char>,
    pub mem: Seq<char>,
    pub command: Seq<char>,
}

/// The plain values of a row of the process table.
pub open spec fn process_view(p: ProcessInfo) -> ProcessInfoView {
    ProcessInfoView { pid: p.pid@, user: p.user@, cpu: p.cpu@, mem: p.mem@, command: p.command@ }
}

/// The rows as plain values.
pub open spec fn process_views(rows: Seq<ProcessInfo>) -> Seq<ProcessInfoView> {
    Seq::new(rows.len(), |i: int| process_view(rows[i]))
}

/// How long a machine has been up.
#[derive(Debug, PartialEq, Eq)]
pub enum Uptime {
    /// So many seconds.
    Seconds(u64),
    /// The seconds as the machine wrote them, with a fraction.
    Text(String),
}

/// An uptime as plain values.
pub enum UptimeView {
    Seconds(u64),
    Text(Seq<char>),
}

impl View for Uptime {
    type V = UptimeView;

    open spec fn view(&self) -> UptimeView {
        match *self {
            Uptime::Seconds(secs) => UptimeView::Seconds(secs),
            Uptime::Text(text) => UptimeView::Text(text@),
        }
    }
}

/// The amounts of memory, in megabytes, from which the share in use is
/// computed.
#[derive(Debug, Clone, Copy, PartialEq, Eq, Structural)]
pub struct MemoryShare {
    pub used: u64,
    pub total: u64,
}

/// The figures of a machine as they were read.
#[derive(Debug, PartialEq, Eq)]
pub struct RemoteFigures {
    pub uptime: Uptime,
    /// Megabytes of memory.
    pub mem_total: u64,
    /// Megabytes of memory in use.
    pub mem_used: u64,
    /// The amounts for the share of memory in use, if the machine told
    /// them.
    pub mem_share: Option<MemoryShare>,
    pub disk_total: String,
    pub disk_used: String,
    /// The share of the disk in use, in percent, as the machine wrote it.
    pub disk_percent: Option<String>,
    /// The share of idle processor time, in percent, as the machine wrote
    /// it.
    pub cpu_idle: Option<String>,
    pub processes: Vec<ProcessInfo>,
    pub os_version: String,
    pub cpu_model: String,
    pub cpu_cores: u32,
}

/// The figures as plain values.
pub struct FiguresView {
    pub uptime: UptimeView,
    pub mem_total: u64,
    pub mem_used: u64,
    pub mem_share: Option<MemoryShare>,
    pub disk_total: Seq<char>,
    pub disk_used: Seq<char>,
    pub disk_percent: Option<Seq<char>>,
    pub cpu_idle: Option<Seq<char>>,
    pub processes: Seq<ProcessInfoView>,
    pub os_version: Seq<char>,
    pub cpu_model: Seq<char>,
    pub cpu_cores: u32,
}

/// The text of an optional text.
pub open spec fn opt_view(s: Option<String>) -> Option<Seq<char>> {
    match s {
        Some(t) => Some(t@),
        None => None,
    }
}

impl View for RemoteFigures {
    type V = FiguresView;

    open spec fn view(&self) -> FiguresView {
        FiguresView {
            uptime: self.uptime@,
            mem_total: self.mem_total,
            mem_used: self.mem_used,
            mem_share: self.mem_share,
            disk_total: self.disk_total@,
            disk_used: self.disk_used@,
            disk_percent: opt_view(self.disk_percent),
            cpu_idle: opt_view(self.cpu_idle),
            processes: process_views(self.processes@),
            os_version: self.os_version@,
            cpu_model: self.cpu_model@,
            cpu_cores: self.cpu_cores,
        }
    }
}

/// What the reading of the figures needs to know besides the output.
pub struct ReadingContext {
    /// Whether the machine is a Mac.
    pub mac: bool,
    /// What the machine answered when asked for the name of its system.
    pub system_name: Seq<char>,
    /// Seconds from the start of 1970 to now.
    pub now: u64,
}

impl FiguresView {
    /// The figures before anything was read.
    pub open spec fn empty() -> FiguresView {
        FiguresView {
            uptime: UptimeView::Seconds(0),
            mem_total: 0,
            mem_used: 0,
            mem_share: None,
            disk_total: "0G"@,
            disk_used: "0G"@,
            disk_percent: None,
            cpu_idle: None,
            processes: Seq::empty(),
            os_version: Seq::empty(),
            cpu_model: Seq::empty(),
            cpu_cores: 0,
        }
    }
}

/// The first of the words, or the text `0` where there is none.
pub open spec fn first_word_or_zero(words: Seq<Seq<char>>) -> Seq<char> {
    if words.len() > 0 {
        words[0]
    } else {
        "0"@
    }
}

/// The number that a text stands for, or zero where it stands for none
/// that fits 64 bits.
pub open spec fn number_or_zero(s: Seq<char>) -> u64 {
    match parsed_unsigned(s, u64::MAX as nat) {
        Some(v) => v as u64,
        None => 0,
    }
}

/// The second at which a Mac was started, as its uptime section tells it:
/// the number between `sec = ` and the next comma.
pub open spec fn mac_boot_second(content: Seq<char>) -> Option<u64> {
    match find_text(content, "sec = "@) {
        Some(start) => {
            let rest = content.subrange(start + 6, content.len() as int);
            match find_text(rest, ","@) {
                Some(end) => match parsed_unsigned(rest.subrange(0, end), u64::MAX as nat) {
                    Some(v) => Some(v as u64),
                    None => None,
                },
                None => None,
            }
        },
        None => None,
    }
}

/// The figures after the uptime section.
pub open spec fn after_uptime(fig: FiguresView, content: Seq<char>, ctx: ReadingContext) -> FiguresView {
    if ctx.mac {
        match mac_boot_second(content) {
            Some(boot) => if ctx.now > boot {
                FiguresView { uptime: UptimeView::Seconds((ctx.now - boot) as u64), ..fig }
            } else {
                fig
            },
            None => fig,
        }
    } else {
        FiguresView { uptime: UptimeView::Text(first_word_or_zero(words_of(content))), ..fig }
    }
}

/// The figures after the lines of a memory section of a Linux machine from
/// line `i` on: every line that begins with `Mem:` and has at least three
/// words gives the total and the amount in use.
pub open spec fn after_memory_lines(fig: FiguresView, lines: Seq<Seq<char>>, i: int) -> FiguresView
    decreases lines.len() - i,
{
    if i < 0 || i >= lines.len() {
        fig
    } else {
        let words = words_of(lines[i]);
        let next = if occurs_at(lines[i], "Mem:"@, 0) && words.len() >= 3 {
            let total = number_or_zero(words[1]);
            let used = number_or_zero(words[2]);
            FiguresView {
                mem_total: total,
                mem_used: used,
                mem_share: if total > 0 {
                    Some(MemoryShare { used, total })
                } else {
                    fig.mem_share
                },
                ..fig
            }
        } else {
            fig
        };
        after_memory_lines(next, lines, i + 1)
    }
}

/// The figures after the memory section.
pub open spec fn after_memory(fig: FiguresView, content: Seq<char>, ctx: ReadingContext) -> FiguresView {
    if ctx.mac {
        FiguresView { mem_total: number_or_zero(content) / 1024 / 1024, ..fig }
    } else {
        after_memory_lines(fig, lines_of(content), 0)
    }
}

/// Whether a line of the disk section is the one of the root file system:
/// at least five words, the last of which names the root.
pub open spec fn is_root_disk_row(words: Seq<Seq<char>>) -> bool {
    words.len() >= 5 && (words.last() == "/"@ || words.last() == "/System/Volumes/Data"@)
}

/// The index of the first line from `i` on that is the one of the root
/// file system.
pub open spec fn root_disk_row(lines: Seq<Seq<char>>, i: int) -> Option<int>
    decreases lines.len() - i,
{
    if i < 0 || i >= lines.len() {
        None
    } else if is_root_disk_row(words_of(lines[i])) {
        Some(i)
    } else {
        root_disk_row(lines, i + 1)
    }
}

/// The figures after the disk section: the first line behind the heading
/// line that is the one of the root file system gives the size, the amount
/// in use and the share in use.
pub open spec fn after_disk(fig: FiguresView, content: Seq<char>) -> FiguresView {
    let lines = lines_of(content);
    match root_disk_row(lines, 1) {
        Some(i) => {
            let words = words_of(lines[i]);
            FiguresView {
                disk_total: words[1],
                disk_used: words[2],
                disk_percent: Some(without_trailing(words[4], '%')),
                ..fig
            }
        },
        None => fig,
    }
}

/// The share of idle time in the processor section of a Mac: the word in
/// front of ` idle`, without its percent sign.
pub open spec fn mac_idle_text(content: Seq<char>) -> Option<Seq<char>> {
    match find_text(content, " idle"@) {
        Some(at) => {
            let head = content.subrange(0, at);
            match last_index_of(head, ' ') {
                Some(blank) => Some(
                    without_trailing(head.subrange(blank + 1, head.len() as int), '%'),
                ),
                None => None,
            }
        },
        None => None,
    }
}

/// The index of the first part from `i` on in which `id` stands.
pub open spec fn idle_part(parts: Seq<Seq<char>>, i: int) -> Option<int>
    decreases parts.len() - i,
{
    if i < 0 || i >= parts.len() {
        None
    } else if find_text(parts[i], "id"@) is Some {
        Some(i)
    } else {
        idle_part(parts, i + 1)
    }
}

/// The share of idle time in the processor section of a Linux machine: the
/// first word of the first part between commas in which `id` stands.
pub open spec fn linux_idle_text(content: Seq<char>) -> Option<Seq<char>> {
    let parts = split_text(content, ","@);
    match idle_part(parts, 0) {
        Some(i) => Some(first_word_or_zero(words_of(trimmed(parts[i])))),
        None => None,
    }
}

/// The figures after the processor section.
pub open spec fn after_cpu(fig: FiguresView, content: Seq<char>, ctx: ReadingContext) -> FiguresView {
    let idle = if ctx.mac {
        mac_idle_text(content)
    } else {
        linux_idle_text(content)
    };
    match idle {
        Some(text) => FiguresView { cpu_idle: Some(text), ..fig },
        None => fig,
    }
}

/// The row of the process table that the words of a line give.
pub open spec fn process_row(words: Seq<Seq<char>>) -> ProcessInfoView {
    ProcessInfoView {
        pid: words[1],
        user: words[0],
        cpu: words[2],
        mem: words[3],
        command: joined(words.subrange(10, words.len() as int)),
    }
}

/// The rows that the lines of a process section from line `i` on give: one
/// for every line of at least eleven words.
pub open spec fn process_rows(lines: Seq<Seq<char>>, i: int) -> Seq<ProcessInfoView>
    decreases lines.len() - i,
{
    if i < 0 || i >= lines.len() {
        Seq::empty()
    } else {
        let words = words_of(lines[i]);
        if words.len() >= 11 {
            seq![process_row(words)] + process_rows(lines, i + 1)
        } else {
            process_rows(lines, i + 1)
        }
    }
}

/// The figures after the process section.
pub open spec fn after_processes(fig: FiguresView, content: Seq<char>) -> FiguresView {
    FiguresView { processes: fig.processes + process_rows(lines_of(content), 0), ..fig }
}

/// The name of the system for the panel.
pub open spec fn os_version_text(content: Seq<char>, ctx: ReadingContext) -> Seq<char> {
    if ctx.mac {
        "macOS "@ + trimmed(content)
    } else if trimmed(content).len() == 0 {
        "Linux "@ + trimmed(ctx.system_name)
    } else {
        trimmed(content)
    }
}

/// The number of processor cores that a text stands for, or zero.
pub open spec fn cores_of(content: Seq<char>) -> u32 {
    match parsed_unsigned(trimmed(content), u32::MAX as nat) {
        Some(v) => v as u32,
        None => 0,
    }
}

/// The figures after the section with the heading `key`. A heading that
/// is not known changes nothing.
pub open spec fn after_section(
    fig: FiguresView,
    key: Seq<char>,
    content: Seq<char>,
    ctx: ReadingContext,
) -> FiguresView {
    if key == "UPTIME"@ {
        after_uptime(fig, content, ctx)
    } else if key == "MEM"@ {
        after_memory(fig, content, ctx)
    } else if key == "DISK"@ {
        after_disk(fig, content)
    } else if key == "CPU"@ {
        after_cpu(fig, content, ctx)
    } else if key == "PROC"@ {
        after_processes(fig, content)
    } else if key == "OS"@ {
        FiguresView { os_version: os_version_text(content, ctx), ..fig }
    } else if key == "MODEL"@ {
        FiguresView { cpu_model: trimmed(content), ..fig }
    } else if key == "CORES"@ {
        FiguresView { cpu_cores: cores_of(content), ..fig }
    } else {
        fig
    }
}

/// The figures after the sections from part `i` on: the parts between
/// triple dashes come in pairs of a heading and its content, both without
/// the white space around them, behind a first part that is ignored.
pub open spec fn after_sections(
    fig: FiguresView,
    parts: Seq<Seq<char>>,
    i: int,
    ctx: ReadingContext,
) -> FiguresView
    decreases parts.len() - i,
{
    if i < 0 || i + 1 >= parts.len() {
        fig
    } else {
        after_sections(
            after_section(fig, trimmed(parts[i]), trimmed(parts[i + 1]), ctx),
            parts,
            i + 2,
            ctx,
        )
    }
}

/// The figures that the output of the collecting command holds.
pub open spec fn figures_of(output: Seq<char>, ctx: ReadingContext) -> FiguresView {
    after_sections(FiguresView::empty(), split_text(output, "---"@), 1, ctx)
}

fn span_is(chars: &Vec<char>, span: Span, word: &str) -> (same: bool)
    requires
        span.within(chars@.len()),
    ensures
        same == (span.of(chars@) == word@),
{
    let other = chars_of(word);
    if other.len() != span.to - span.from {
        return false;
    }
    let n = other.len();
    let mut k: usize = 0;
    while k < n
        invariant
            k <= n,
            n == other@.len(),
            n == span.to - span.from,
            span.within(chars@.len()),
            other@ == word@,
            forall|i: int| 0 <= i < k ==> chars@[span.from + i] == other@[i],
        decreases n - k,
    {
        if chars[span.from + k] != other[k] {
            assert(span.of(chars@)[k as int] == chars@[span.from + k]);
            return false;
        }
        k += 1;
    }
    assert(span.of(chars@) =~= word@);
    true
}

fn number_in(chars: &Vec<char>, span: Span) -> (n: u64)
    requires
        span.within(chars@.len()),
    ensures
        n == number_or_zero(span.of(chars@)),
{
    match parse_unsigned(chars, span, u64::MAX) {
        Some(v) => v,
        None => 0,
    }
}

fn first_word_text(s: &str, chars: &Vec<char>, words: &Vec<Span>, outer: Span) -> (text: String)
    requires
        chars@ == s@,
        outer.within(chars@.len()),
        spans_inside(words@, outer),
    ensures
        text@ == first_word_or_zero(span_texts(chars@, words@)),
{
    if words.len() > 0 {
        assert(words@[0].inside(outer));
        span_string(s, words[0])
    } else {
        String::from_str("0")
    }
}

fn read_uptime(
    s: &str,
    chars: &Vec<char>,
    content: Span,
    mac: bool,
    now: u64,
    fig: &mut RemoteFigures,
    Ghost(ctx): Ghost<ReadingContext>,
)
    requires
        chars@ == s@,
        content.within(chars@.len()),
        ctx.mac == mac,
        ctx.now == now,
    ensures
        final(fig)@ == after_uptime(old(fig)@, content.of(chars@), ctx),
{
    let ghost text = content.of(chars@);
    if mac {
        proof {
            reveal_strlit("sec = ");
            reveal_strlit(",");
        }
        let marker = chars_of("sec = ");
        match find_in(chars, content, &marker, content.from) {
            Some(start) => {
                let rest = Span { from: start + 6, to: content.to };
                assert(rest.of(chars@) =~= text.subrange(
                    start - content.from + 6,
                    text.len() as int,
                ));
                let comma = chars_of(",");
                match find_in(chars, rest, &comma, rest.from) {
                    Some(end) => {
                        let number = Span { from: rest.from, to: end };
                        assert(number.of(chars@) =~= rest.of(chars@).subrange(0, end - rest.from));
                        match parse_unsigned(chars, number, u64::MAX) {
                            Some(boot) => {
                                if now > boot {
                                    fig.uptime = Uptime::Seconds(now - boot);
                                }
                            },
                            None => {},
                        }
                    },
                    None => {},
                }
            },
            None => {},
        }
    } else {
        let words = words_in(chars, content);
        fig.uptime = Uptime::Text(first_word_text(s, chars, &words, content));
    }
}

fn read_memory(
    chars: &Vec<char>,
    content: Span,
    mac: bool,
    fig: &mut RemoteFigures,
    Ghost(ctx): Ghost<ReadingContext>,
)
    requires
        content.within(chars@.len()),
        ctx.mac == mac,
    ensures
        final(fig)@ == after_memory(old(fig)@, content.of(chars@), ctx),
{
    if mac {
        fig.mem_total = number_in(chars, content) / 1024 / 1024;
    } else {
        proof {
            reveal_strlit("\n");
            reveal_strlit("Mem:");
        }
        let feed = chars_of("\n");
        assert(feed@ =~= seq!['\n']);
        let lines = split_span(chars, content, &feed);
        let marker = chars_of("Mem:");
        let ghost texts = lines_of(content.of(chars@));
        let mut i: usize = 0;
        while i < lines.len()
            invariant
                i <= lines.len(),
                content.within(chars@.len()),
                spans_inside(lines@, content),
                span_texts(chars@, lines@) == texts,
                marker@ == "Mem:"@,
                marker@.len() == 4,
                after_memory_lines(old(fig)@, texts, 0) == after_memory_lines(fig@, texts, i as int),
            decreases lines.len() - i,
        {
            let line = lines[i];
            assert(line.inside(content));
            assert(texts[i as int] == line.of(chars@));
            let words = words_in(chars, line);
            let begins = line.to - line.from >= 4 && match find_in(chars, line, &marker, line.from) {
                Some(at) => at == line.from,
                None => false,
            };
            proof {
                crate::scan::lemma_find_from(line.of(chars@), marker@, 0);
            }
            if begins && words.len() >= 3 {
                assert(words@[1].inside(line));
                assert(words@[2].inside(line));
                assert(span_texts(chars@, words@)[1] == words@[1].of(chars@));
                assert(span_texts(chars@, words@)[2] == words@[2].of(chars@));
                let total = number_in(chars, words[1]);
                let used = number_in(chars, words[2]);
                fig.mem_total = total;
                fig.mem_used = used;
                if total > 0 {
                    fig.mem_share = Some(MemoryShare { used, total });
                }
            }
            i += 1;
        }
    }
}

fn read_disk(s: &str, chars: &Vec<char>, content: Span, fig: &mut RemoteFigures)
    requires
        chars@ == s@,
        content.within(chars@.len()),
    ensures
        final(fig)@ == after_disk(old(fig)@, content.of(chars@)),
{
    proof {
        reveal_strlit("\n");
    }
    let feed = chars_of("\n");
    assert(feed@ =~= seq!['\n']);
    let lines = split_span(chars, content, &feed);
    let ghost texts = lines_of(content.of(chars@));
    let mut i: usize = 1;
    while i < lines.len()
        invariant
            1 <= i,
            chars@ == s@,
            content.within(chars@.len()),
            spans_inside(lines@, content),
            span_texts(chars@, lines@) == texts,
            fig@ == old(fig)@,
            texts == lines_of(content.of(chars@)),
            root_disk_row(texts, 1) == root_disk_row(texts, i as int),
        decreases lines.len() - i,
    {
        let line = lines[i];
        assert(line.inside(content));
        assert(texts[i as int] == line.of(chars@));
        let words = words_in(chars, line);
        let ghost word_texts = span_texts(chars@, words@);
        if words.len() >= 5 {
            let last = words[words.len() - 1];
            assert(last.inside(line));
            assert(word_texts.last() == last.of(chars@));
            if span_is(chars, last, "/") || span_is(chars, last, "/System/Volumes/Data") {
                assert(words@[1].inside(line));
                assert(words@[2].inside(line));
                assert(words@[4].inside(line));
                assert(word_texts[1] == words@[1].of(chars@));
                assert(word_texts[2] == words@[2].of(chars@));
                assert(word_texts[4] == words@[4].of(chars@));
                fig.disk_total = span_string(s, words[1]);
                fig.disk_used = span_string(s, words[2]);
                let percent = trim_end_span(chars, words[4], '%');
                fig.disk_percent = Some(span_string(s, percent));
                return;
            }
        }
        i += 1;
    }
}

fn mac_idle(s: &str, chars: &Vec<char>, content: Span) -> (idle: Option<String>)
    requires
        chars@ == s@,
        content.within(chars@.len()),
    ensures
        opt_view(idle) == mac_idle_text(content.of(chars@)),
{
    proof {
        reveal_strlit(" idle");
    }
    let ghost text = content.of(chars@);
    let marker = chars_of(" idle");
    match find_in(chars, content, &marker, content.from) {
        Some(at) => {
            let head = Span { from: content.from, to: at };
            assert(head.of(chars@) =~= text.subrange(0, at - content.from));
            match rfind_char(chars, head, ' ') {
                Some(blank) => {
                    let word = Span { from: blank + 1, to: at };
                    assert(word.of(chars@) =~= head.of(chars@).subrange(
                        blank - head.from + 1,
                        head.of(chars@).len() as int,
                    ));
                    let bare = trim_end_span(chars, word, '%');
                    Some(span_string(s, bare))
                },
                None => None,
            }
        },
        None => None,
    }
}

fn linux_idle(s: &str, chars: &Vec<char>, content: Span) -> (idle: Option<String>)
    requires
        chars@ == s@,
        content.within(chars@.len()),
    ensures
        opt_view(idle) == linux_idle_text(content.of(chars@)),
{
    proof {
        reveal_strlit(",");
        reveal_strlit("id");
    }
    let comma = chars_of(",");
    let marker = chars_of("id");
    let parts = split_span(chars, content, &comma);
    let ghost texts = split_text(content.of(chars@), ","@);
    let mut i: usize = 0;
    while i < parts.len()
        invariant
            chars@ == s@,
            content.within(chars@.len()),
            spans_inside(parts@, content),
            span_texts(chars@, parts@) == texts,
            marker@ == "id"@,
            texts == split_text(content.of(chars@), ","@),
            idle_part(texts, 0) == idle_part(texts, i as int),
        decreases parts.len() - i,
    {
        let part = parts[i];
        assert(part.inside(content));
        assert(texts[i as int] == part.of(chars@));
        if find_in(chars, part, &marker, part.from).is_some() {
            let inner = trim_span(chars, part);
            let words = words_in(chars, inner);
            return Some(first_word_text(s, chars, &words, inner));
        }
        i += 1;
    }
    None
}

fn read_processes(s: &str, chars: &Vec<char>, content: Span, fig: &mut RemoteFigures)
    requires
        chars@ == s@,
        content.within(chars@.len()),
    ensures
        final(fig)@ == after_processes(old(fig)@, content.of(chars@)),
{
    proof {
        reveal_strlit("\n");
    }
    let feed = chars_of("\n");
    assert(feed@ =~= seq!['\n']);
    let lines = split_span(chars, content, &feed);
    let ghost texts = lines_of(content.of(chars@));
    let ghost start = old(fig)@;
    let mut i: usize = 0;
    assert(fig@.processes + process_rows(texts, 0) =~= start.processes + process_rows(texts, 0));
    while i < lines.len()
        invariant
            i <= lines.len(),
            chars@ == s@,
            content.within(chars@.len()),
            spans_inside(lines@, content),
            span_texts(chars@, lines@) == texts,
            fig@ == (FiguresView { processes: fig@.processes, ..start }),
            fig@.processes + process_rows(texts, i as int) == start.processes + process_rows(
                texts,
                0,
            ),
        decreases lines.len() - i,
    {
        let line = lines[i];
        assert(line.inside(content));
        assert(texts[i as int] == line.of(chars@));
        let words = words_in(chars, line);
        let ghost word_texts = span_texts(chars@, words@);
        let ghost before = fig@.processes;
        if words.len() >= 11 {
            assert forall|k: int| 0 <= k < words@.len() implies (#[trigger] words@[k]).within(
                s@.len(),
            ) by {
                assert(words@[k].inside(line));
            }
            assert(word_texts[0] == words@[0].of(chars@));
            assert(word_texts[1] == words@[1].of(chars@));
            assert(word_texts[2] == words@[2].of(chars@));
            assert(word_texts[3] == words@[3].of(chars@));
            assert(span_texts(s@, words@.subrange(10, words@.len() as int)) =~= word_texts.subrange(
                10,
                word_texts.len() as int,
            ));
            let row = ProcessInfo {
                pid: span_string(s, words[1]),
                user: span_string(s, words[0]),
                cpu: span_string(s, words[2]),
                mem: span_string(s, words[3]),
                command: join_spans(s, &words, 10),
            };
            assert(process_view(row) == process_row(word_texts));
            fig.processes.push(row);
            assert(fig@.processes =~= before.push(process_view(row)));
            assert(fig@.processes + process_rows(texts, i + 1) =~= before + process_rows(
                texts,
                i as int,
            ));
        }
        i += 1;
    }
    assert(fig@.processes + Seq::<ProcessInfoView>::empty() =~= fig@.processes);
}

fn read_os_version(s: &str, chars: &Vec<char>, content: Span, mac: bool, system_name: &str, Ghost(ctx): Ghost<
    ReadingContext,
>) -> (text: String)
    requires
        chars@ == s@,
        content.within(chars@.len()),
        ctx.mac == mac,
        ctx.system_name == system_name@,
    ensures
        text@ == os_version_text(content.of(chars@), ctx),
{
    let inner = trim_span(chars, content);
    if mac {
        let mut text = String::from_str("macOS ");
        let name = span_string(s, inner);
        text.append(name.as_str());
        text
    } else if inner.from == inner.to {
        let mut text = String::from_str("Linux ");
        text.append(crate::scan::trim(system_name));
        text
    } else {
        span_string(s, inner)
    }
}

fn read_cores(chars: &Vec<char>, content: Span) -> (cores: u32)
    requires
        content.within(chars@.len()),
    ensures
        cores == cores_of(content.of(chars@)),
{
    let inner = trim_span(chars, content);
    match parse_unsigned(chars, inner, 0xffff_ffff) {
        Some(v) => v as u32,
        None => 0,
    }
}

fn read_section(
    s: &str,
    chars: &Vec<char>,
    key: Span,
    content: Span,
    mac: bool,
    system_name: &str,
    now: u64,
    fig: &mut RemoteFigures,
    Ghost(ctx): Ghost<ReadingContext>,
)
    requires
        chars@ == s@,
        key.within(chars@.len()),
        content.within(chars@.len()),
        ctx.mac == mac,
        ctx.system_name == system_name@,
        ctx.now == now,
    ensures
        final(fig)@ == after_section(old(fig)@, key.of(chars@), content.of(chars@), ctx),
{
    if span_is(chars, key, "UPTIME") {
        read_uptime(s, chars, content, mac, now, fig, Ghost(ctx));
    } else if span_is(chars, key, "MEM") {
        read_memory(chars, content, mac, fig, Ghost(ctx));
    } else if span_is(chars, key, "DISK") {
        read_disk(s, chars, content, fig);
    } else if span_is(chars, key, "CPU") {
        let idle = if mac {
            mac_idle(s, chars, content)
        } else {
            linux_idle(s, chars, content)
        };
        match idle {
            Some(text) => {
                fig.cpu_idle = Some(text);
            },
            None => {},
        }
    } else if span_is(chars, key, "PROC") {
        read_processes(s, chars, content, fig);
    } else if span_is(chars, key, "OS") {
        fig.os_version = read_os_version(s, chars, content, mac, system_name, Ghost(ctx));
    } else if span_is(chars, key, "MODEL") {
        let inner = trim_span(chars, content);
        fig.cpu_model = span_string(s, inner);
    } else if span_is(chars, key, "CORES") {
        fig.cpu_cores = read_cores(chars, content);
    }
}

impl RemoteFigures {
    /// The figures before anything was read.
    pub fn new() -> (fig: RemoteFigures)
        ensures
            fig@ == FiguresView::empty(),
    {
        let fig = RemoteFigures {
            uptime: Uptime::Seconds(0),
            mem_total: 0,
            mem_used: 0,
            mem_share: None,
            disk_total: String::from_str("0G"),
            disk_used: String::from_str("0G"),
            disk_percent: None,
            cpu_idle: None,
            processes: Vec::new(),
            os_version: String::new(),
            cpu_model: String::new(),
            cpu_cores: 0,
        };
        assert(fig@.processes =~= Seq::<ProcessInfoView>::empty());
        fig
    }
}

/// Reads the figures of a machine from the output of the collecting
/// command. `mac` tells whether the machine is a Mac, `system_name` is what
/// it answered when asked for the name of its system, and `now` is the
/// current time in seconds since the start of 1970.
pub fn read_figures(output: &str, mac: bool, system_name: &str, now: u64) -> (fig: RemoteFigures)
    ensures
        fig@ == figures_of(output@, ReadingContext { mac, system_name: system_name@, now }),
{
    let ghost ctx = ReadingContext { mac, system_name: system_name@, now };
    proof {
        reveal_strlit("---");
    }
    let chars = chars_of(output);
    let dashes = chars_of("---");
    let whole = Span { from: 0, to: chars.len() };
    assert(whole.of(chars@) =~= output@);
    let parts = split_span(&chars, whole, &dashes);
    let ghost texts = split_text(output@, "---"@);
    let mut fig = RemoteFigures::new();
    let mut i: usize = 1;
    while i < parts.len() && i + 1 < parts.len()
        invariant
            1 <= i,
            chars@ == output@,
            whole.within(chars@.len()),
            spans_inside(parts@, whole),
            span_texts(chars@, parts@) == texts,
            ctx == (ReadingContext { mac, system_name: system_name@, now }),
            figures_of(output@, ctx) == after_sections(fig@, texts, i as int, ctx),
        decreases parts.len() - i,
    {
        let key_part = parts[i];
        let content_part = parts[i + 1];
        assert(key_part.inside(whole));
        assert(content_part.inside(whole));
        assert(texts[i as int] == key_part.of(chars@));
        assert(texts[i + 1] == content_part.of(chars@));
        let key = trim_span(&chars, key_part);
        let content = trim_span(&chars, content_part);
        read_section(output, &chars, key, content, mac, system_name, now, &mut fig, Ghost(ctx));
        i += 2;
    }
    fig
}

/// An output without a section gives the figures that nothing was read
/// for: where the output holds no triple dash, or only one heading without
/// content behind it, every figure keeps its starting value.
pub proof fn lemma_output_without_sections(output: Seq<char>, ctx: ReadingContext)
    requires
        split_text(output, "---"@).len() <= 2,
    ensures
        figures_of(output, ctx) == FiguresView::empty(),
{
}

/// An output with one section gives the figures of that section: the part
/// in front of the first triple dash is ignored, the part behind it is the
/// heading and the next part is the content, both without the white space
/// around them.
pub proof fn lemma_output_with_one_section(output: Seq<char>, ctx: ReadingContext)
    requires
        3 <= split_text(output, "---"@).len() <= 4,
    ensures
        figures_of(output, ctx) == after_section(
            FiguresView::empty(),
            trimmed(split_text(output, "---"@)[1]),
            trimmed(split_text(output, "---"@)[2]),
            ctx,
        ),
{
    let parts = split_text(output, "---"@);
    let first = after_section(FiguresView::empty(), trimmed(parts[1]), trimmed(parts[2]), ctx);
    assert(after_sections(first, parts, 3, ctx) == first);
}

/// The sections are read one after the other, each on top of what the
/// sections before it gave; a section whose heading is not known changes
/// nothing, and a section changes nothing but its own figures.
pub proof fn lemma_sections_are_read_in_order(
    fig: FiguresView,
    parts: Seq<Seq<char>>,
    i: int,
    ctx: ReadingContext,
)
    requires
        0 <= i,
        i + 1 < parts.len(),
    ensures
        after_sections(fig, parts, i, ctx) == after_sections(
            after_section(fig, trimmed(parts[i]), trimmed(parts[i + 1]), ctx),
            parts,
            i + 2,
            ctx,
        ),
        ({
            let key = trimmed(parts[i]);
            let next = after_section(fig, key, trimmed(parts[i + 1]), ctx);
            &&& key != "CORES"@ ==> next.cpu_cores == fig.cpu_cores
            &&& key != "MODEL"@ ==> next.cpu_model == fig.cpu_model
            &&& key != "OS"@ ==> next.os_version == fig.os_version
            &&& key != "PROC"@ ==> next.processes == fig.processes
            &&& key != "CPU"@ ==> next.cpu_idle == fig.cpu_idle
            &&& key != "UPTIME"@ ==> next.uptime == fig.uptime
            &&& key != "DISK"@ ==> next.disk_total == fig.disk_total && next.disk_used
                == fig.disk_used && next.disk_percent == fig.disk_percent
        }),
{
    let key = trimmed(parts[i]);
    let content = trimmed(parts[i + 1]);
    if key == "MEM"@ && !ctx.mac {
        lemma_memory_lines_keep_the_rest(fig, lines_of(content), 0);
    }
    if key == "UPTIME"@ || key == "MEM"@ || key == "DISK"@ || key == "CPU"@ || key == "PROC"@ || key
        == "OS"@ || key == "MODEL"@ || key == "CORES"@ {
        reveal_strlit("UPTIME");
        reveal_strlit("MEM");
        reveal_strlit("DISK");
        reveal_strlit("CPU");
        reveal_strlit("PROC");
        reveal_strlit("OS");
        reveal_strlit("MODEL");
        reveal_strlit("CORES");
        assert("UPTIME"@.len() == 6 && "MEM"@.len() == 3 && "DISK"@.len() == 4 && "CPU"@.len()
            == 3 && "PROC"@.len() == 4 && "OS"@.len() == 2 && "MODEL"@.len() == 5 && "CORES"@.len()
            == 5);
        assert("MEM"@[0] != "CPU"@[0]);
        assert("DISK"@[0] != "PROC"@[0]);
        assert("MODEL"@[0] != "CORES"@[0]);
    }
}

proof fn lemma_memory_lines_keep_the_rest(fig: FiguresView, lines: Seq<Seq<char>>, i: int)
    ensures
        after_memory_lines(fig, lines, i) == (FiguresView {
            mem_total: after_memory_lines(fig, lines, i).mem_total,
            mem_used: after_memory_lines(fig, lines, i).mem_used,
            mem_share: after_memory_lines(fig, lines, i).mem_share,
            ..fig
        }),
    decreases lines.len() - i,
{
    if 0 <= i < lines.len() {
        let words = words_of(lines[i]);
        let next = if occurs_at(lines[i], "Mem:"@, 0) && words.len() >= 3 {
            let total = number_or_zero(words[1]);
            let used = number_or_zero(words[2]);
            FiguresView {
                mem_total: total,
                mem_used: used,
                mem_share: if total > 0 {
                    Some(MemoryShare { used, total })
                } else {
                    fig.mem_share
                },
                ..fig
            }
        } else {
            fig
        };
        lemma_memory_lines_keep_the_rest(next, lines, i + 1);
    }
}

} // verus!
