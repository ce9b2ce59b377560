//! The output panel as text: the selected file's output settings, the
//! queue, the latest results and the progress of a run.
use vstd::prelude::*;
use crate::human::{bytes_to_human, human_bytes};
use crate::models::{lower_extension, truncate_str, truncated, ImageFile};
use crate::state::{sel_file, App, AppModel, CompressionResult};
use crate::text::{decimal, push_all, push_char, push_decimal, to_uppercase, unicode_uppercase, utf8_len};

verus! {

/// One line of the output panel.
#[derive(Debug)]
pub enum OutputLine {
    Blank,
    /// A section title.
    Heading(String),
    /// A line of detail text.
    Detail(String),
    /// A queued file: its name and `(EXT)`.
    QueuedFile { name: String, ext: String },
    /// A file that could not be written, with the start of the error.
    Failed { name: String, reason: String },
    /// A written file with its sizes; `smaller` when it shrank.
    Saved { name: String, sizes: String, smaller: bool },
    /// The title shown while compressing.
    Busy,
    /// The current stage of the run.
    Status(String),
    /// The progress bar with percentage and file count.
    Progress(String),
}

/// An output line as values.
pub ghost enum OutView {
    Blank,
    Heading(Seq<char>),
    Detail(Seq<char>),
    QueuedFile(Seq<char>, Seq<char>),
    Failed(Seq<char>, Seq<char>),
    Saved(Seq<char>, Seq<char>, bool),
    Busy,
    Status(Seq<char>),
    Progress(Seq<char>),
}

impl OutputLine {
    pub open spec fn view(&self) -> OutView {
        match self {
            OutputLine::Blank => OutView::Blank,
            OutputLine::Heading(s) => OutView::Heading(s@),
            OutputLine::Detail(s) => OutView::Detail(s@),
            OutputLine::QueuedFile { name, ext } => OutView::QueuedFile(name@, ext@),
            OutputLine::Failed { name, reason } => OutView::Failed(name@, reason@),
            OutputLine::Saved { name, sizes, smaller } => OutView::Saved(name@, sizes@, *smaller),
            OutputLine::Busy => OutView::Busy,
            OutputLine::Status(s) => OutView::Status(s@),
            OutputLine::Progress(s) => OutView::Progress(s@),
        }
    }
}

pub open spec fn out_views(lines: Seq<OutputLine>) -> Seq<OutView> {
    lines.map_values(|l: OutputLine| l.view())
}

fn push_out(lines: &mut Vec<OutputLine>, l: OutputLine)
    ensures
        out_views(final(lines)@) == out_views(old(lines)@).push(l.view()),
{
    let ghost before = lines@;
    lines.push(l);
    proof {
        assert(out_views(lines@) =~= out_views(before).push(l.view()));
    }
}

/// The files marked as queued, in list order.
pub open spec fn queued_files(files: Seq<ImageFile>) -> Seq<ImageFile>
    decreases files.len(),
{
    if files.len() == 0 {
        Seq::empty()
    } else {
        let r = queued_files(files.drop_last());
        if files.last().queued {
            r.push(files.last())
        } else {
            r
        }
    }
}

/// The total size of the files marked as queued.
pub open spec fn queued_total(files: Seq<ImageFile>) -> nat
    decreases files.len(),
{
    if files.len() == 0 {
        0
    } else {
        queued_total(files.drop_last()) + if files.last().queued {
            files.last().size as nat
        } else {
            0
        }
    }
}

/// `(EXT)` for a file.
pub open spec fn ext_label(f: ImageFile) -> Seq<char> {
    "("@ + match lower_extension(f.path@) {
        Some(e) => unicode_uppercase(e),
        None => Seq::empty(),
    } + ")"@
}

pub open spec fn queued_line(f: ImageFile) -> OutView {
    OutView::QueuedFile(f.name@, ext_label(f))
}

/// The queue section: a count and total, and the files (the first five
/// and a remainder count for more than ten).
pub open spec fn queue_section(q: Seq<ImageFile>, total: nat) -> Seq<OutView> {
    let head = seq![OutView::Blank, OutView::Heading("Queue"@)];
    if q.len() == 0 {
        head + seq![OutView::Detail("  No files selected"@)]
    } else {
        let count = seq![OutView::Detail("  "@ + decimal(q.len()) + " files • "@ + human_bytes(total))];
        if q.len() <= 10 {
            head + count + q.map_values(|f: ImageFile| queued_line(f))
        } else {
            head + count + q.take(5).map_values(|f: ImageFile| queued_line(f)) + seq![
                OutView::Detail("  ..."@),
                OutView::Detail("  +"@ + decimal((q.len() - 5) as nat) + " more files"@),
            ]
        }
    }
}

/// The settings section shown for the selected file.
pub open spec fn settings_section(m: AppModel) -> Seq<OutView> {
    match sel_file(m) {
        Some(f) => seq![
            OutView::Blank,
            OutView::Heading("Output Settings"@),
            OutView::Detail("  Format: "@ + match m.global_output_format {
                Some(g) => g.label(),
                None => "Same"@,
            }),
            OutView::Detail("  Color: "@ + f.settings.color_space.label()),
            OutView::Detail("  Quality: "@ + decimal(f.settings.quality as nat) + "%"@),
        ] + match f.settings.max_width {
            Some(w) => seq![OutView::Detail("  Max Width: "@ + decimal(w as nat) + "px"@)],
            None => Seq::empty(),
        } + match f.settings.max_height {
            Some(h) => seq![OutView::Detail("  Max Height: "@ + decimal(h as nat) + "px"@)],
            None => Seq::empty(),
        },
        None => Seq::empty(),
    }
}

/// The line for one result.
pub open spec fn result_line(r: CompressionResult, files: Seq<ImageFile>) -> OutView {
    let name = files[r.file_index as int].name@;
    match r.error {
        Some(e) => OutView::Failed(name, truncated(e@, utf8_len(e@), 30)),
        None => OutView::Saved(
            name,
            human_bytes(r.original_size as nat) + " → "@ + human_bytes(r.new_size as nat) + " ("@ + (if r.original_size
                > r.new_size {
                "-"@ + human_bytes((r.original_size - r.new_size) as nat)
            } else {
                "+"@
            }) + ")"@,
            r.original_size > r.new_size,
        ),
    }
}

/// The last five results, newest first, once a run is over.
pub open spec fn results_section(m: AppModel) -> Seq<OutView> {
    let rs = m.compression_results;
    if rs.len() > 0 && !m.compressing {
        let n: nat = if rs.len() < 5 {
            rs.len()
        } else {
            5
        };
        seq![OutView::Blank, OutView::Heading("Results:"@)] + Seq::new(
            n,
            |k: int| result_line(rs[rs.len() - 1 - k], m.files),
        )
    } else {
        Seq::empty()
    }
}

/// The progress bar: `percent` of twenty cells filled (`percent` at most
/// 104, so that at most twenty cells are filled).
pub open spec fn progress_bar(percent: nat) -> Seq<char> {
    let filled = percent * 20 / 100;
    Seq::new(filled, |i: int| '█') + Seq::new((20 - filled) as nat, |i: int| '░')
}

/// The progress section while a run is under way.
pub open spec fn progress_section(m: AppModel, percent: u8) -> Seq<OutView> {
    if m.compressing {
        match m.progress {
            Some((current, total, _, status)) => seq![
                OutView::Blank,
                OutView::Busy,
                OutView::Status(status),
                OutView::Blank,
                OutView::Progress(
                    "["@ + progress_bar(percent as nat) + "] "@ + decimal(percent as nat) + "% ("@ + decimal(
                        current as nat,
                    ) + "/"@ + decimal(total as nat) + ")"@,
                ),
            ],
            None => Seq::empty(),
        }
    } else {
        Seq::empty()
    }
}

/// All lines of the output panel; `percent` is the overall progress of a run.
pub open spec fn output_panel(m: AppModel, percent: u8) -> Seq<OutView> {
    settings_section(m) + queue_section(queued_files(m.files), queued_total(m.files)) + results_section(m)
        + progress_section(m, percent)
}

/// The results point into the file list.
pub open spec fn results_fit(m: AppModel) -> bool {
    forall|k: int| 0 <= k < m.compression_results.len() ==> (#[trigger] m.compression_results[k]).file_index
        < m.files.len()
}

fn ext_text(f: &ImageFile) -> (s: String)
    ensures
        s@ == ext_label(*f),
{
    let mut s = "(".to_string();
    match f.extension() {
        Some(e) => {
            let u = to_uppercase(&e);
            push_all(&mut s, &u);
        },
        None => {},
    }
    push_all(&mut s, ")");
    proof {
        assert(s@ =~= ext_label(*f));
    }
    s
}

fn progress_bar_text(percent: u8) -> (s: String)
    requires
        percent <= 104,
    ensures
        s@ == progress_bar(percent as nat),
{
    let filled: usize = (percent as usize) * 20 / 100;
    let mut s = String::new();
    let mut k: usize = 0;
    while k < 20
        invariant
            k <= 20,
            filled <= 20,
            filled == (percent as nat) * 20 / 100,
            s@ == Seq::new(if k < filled { k as nat } else { filled as nat }, |i: int| '█') + Seq::new(
                if k < filled { 0nat } else { (k - filled) as nat },
                |i: int| '░',
            ),
        decreases 20 - k,
    {
        let ghost before = s@;
        if k < filled {
            push_char(&mut s, '█');
        } else {
            push_char(&mut s, '░');
        }
        k = k + 1;
        proof {
            assert(s@ =~= Seq::new(if k < filled { k as nat } else { filled as nat }, |i: int| '█') + Seq::new(
                if k < filled { 0nat } else { (k - filled) as nat },
                |i: int| '░',
            ));
        }
    }
    s
}

impl App {
    fn output_settings_lines(&self, lines: &mut Vec<OutputLine>)
        requires
            self.wf(),
        ensures
            out_views(final(lines)@) == out_views(old(lines)@) + settings_section(self.model()),
    {
        let ghost start = out_views(lines@);
        match self.selected_file() {
            Some(f) => {
                push_out(lines, OutputLine::Blank);
                push_out(lines, OutputLine::Heading("Output Settings".to_string()));
                let mut a = "  Format: ".to_string();
                match self.global_output_format {
                    Some(g) => push_all(&mut a, g.as_str()),
                    None => push_all(&mut a, "Same"),
                }
                push_out(lines, OutputLine::Detail(a));
                let mut b = "  Color: ".to_string();
                push_all(&mut b, f.settings.color_space.as_str());
                push_out(lines, OutputLine::Detail(b));
                let mut c = "  Quality: ".to_string();
                push_decimal(&mut c, f.settings.quality as u64);
                push_all(&mut c, "%");
                push_out(lines, OutputLine::Detail(c));
                let ghost mid = out_views(lines@);
                match f.settings.max_width {
                    Some(w) => {
                        let mut d = "  Max Width: ".to_string();
                        push_decimal(&mut d, w as u64);
                        push_all(&mut d, "px");
                        push_out(lines, OutputLine::Detail(d));
                    },
                    None => {},
                }
                let ghost mid2 = out_views(lines@);
                match f.settings.max_height {
                    Some(h) => {
                        let mut d = "  Max Height: ".to_string();
                        push_decimal(&mut d, h as u64);
                        push_all(&mut d, "px");
                        push_out(lines, OutputLine::Detail(d));
                    },
                    None => {},
                }
                proof {
                    assert(out_views(lines@) =~= start + settings_section(self.model()));
                }
            },
            None => {
                proof {
                    assert(out_views(lines@) =~= start + settings_section(self.model()));
                }
            },
        }
    }

    fn queue_lines(&self, lines: &mut Vec<OutputLine>)
        requires
            self.wf(),
            queued_total(self.files@) <= u64::MAX,
        ensures
            out_views(final(lines)@) == out_views(old(lines)@) + queue_section(
                queued_files(self.files@),
                queued_total(self.files@),
            ),
    {
        let ghost start = out_views(lines@);
        let mut queued: Vec<usize> = Vec::new();
        let mut total: u64 = 0;
        let mut i: usize = 0;
        while i < self.files.len()
            invariant
                i <= self.files.len(),
                queued_total(self.files@) <= u64::MAX,
                queued@.len() == queued_files(self.files@.take(i as int)).len(),
                forall|k: int| 0 <= k < queued@.len() ==> #[trigger] queued@[k] < i && self.files@[queued@[k] as int]
                    == queued_files(self.files@.take(i as int))[k],
                total == queued_total(self.files@.take(i as int)),
            decreases self.files.len() - i,
        {
            proof {
                assert(self.files@.take(i + 1).drop_last() =~= self.files@.take(i as int));
                lemma_queued_total_prefix(self.files@, i + 1);
            }
            if self.files[i].queued {
                total = total + self.files[i].size;
                queued.push(i);
            }
            i = i + 1;
        }
        proof {
            assert(self.files@.take(self.files@.len() as int) =~= self.files@);
        }
        let ghost q = queued_files(self.files@);
        push_out(lines, OutputLine::Blank);
        push_out(lines, OutputLine::Heading("Queue".to_string()));
        if queued.len() == 0 {
            push_out(lines, OutputLine::Detail("  No files selected".to_string()));
            proof {
                assert(out_views(lines@) =~= start + queue_section(q, queued_total(self.files@)));
            }
            return;
        }
        let mut c = "  ".to_string();
        push_decimal(&mut c, queued.len() as u64);
        push_all(&mut c, " files • ");
        let h = bytes_to_human(total);
        push_all(&mut c, &h);
        push_out(lines, OutputLine::Detail(c));
        let ghost after_count = out_views(lines@);
        let shown: usize = if queued.len() <= 10 {
            queued.len()
        } else {
            5
        };
        let mut k: usize = 0;
        while k < shown
            invariant
                k <= shown <= queued@.len(),
                queued@.len() == q.len(),
                forall|j: int| 0 <= j < queued@.len() ==> #[trigger] queued@[j] < self.files@.len() && self.files@[queued@[j] as int]
                    == q[j],
                out_views(lines@) == after_count + q.take(k as int).map_values(|f: ImageFile| queued_line(f)),
            decreases shown - k,
        {
            let f = &self.files[queued[k]];
            let e = ext_text(f);
            let ghost before = out_views(lines@);
            push_out(lines, OutputLine::QueuedFile { name: f.name.clone(), ext: e });
            k = k + 1;
            proof {
                assert(q.take(k as int).map_values(|f: ImageFile| queued_line(f)) =~= q.take(k - 1).map_values(
                    |f: ImageFile| queued_line(f),
                ).push(queued_line(q[k - 1])));
            }
        }
        if queued.len() > 10 {
            push_out(lines, OutputLine::Detail("  ...".to_string()));
            let mut r = "  +".to_string();
            push_decimal(&mut r, (queued.len() - 5) as u64);
            push_all(&mut r, " more files");
            push_out(lines, OutputLine::Detail(r));
        }
        proof {
            if q.len() <= 10 {
                assert(q.take(q.len() as int) =~= q);
            }
            assert(out_views(lines@) =~= start + queue_section(q, queued_total(self.files@)));
        }
    }
}

proof fn lemma_queued_total_prefix(files: Seq<ImageFile>, k: int)
    requires
        0 <= k <= files.len(),
    ensures
        queued_total(files.take(k)) <= queued_total(files),
    decreases files.len(),
{
    if k < files.len() {
        assert(files.drop_last().take(k) =~= files.take(k));
        lemma_queued_total_prefix(files.drop_last(), k);
    } else {
        assert(files.take(k) =~= files);
    }
}

fn size_change_text(original: u64, new: u64) -> (s: String)
    ensures
        s@ == human_bytes(original as nat) + " → "@ + human_bytes(new as nat) + " ("@ + (if original > new {
            "-"@ + human_bytes((original - new) as nat)
        } else {
            "+"@
        }) + ")"@,
{
    let mut s = bytes_to_human(original);
    push_all(&mut s, " → ");
    let n = bytes_to_human(new);
    push_all(&mut s, &n);
    push_all(&mut s, " (");
    if original > new {
        push_all(&mut s, "-");
        let d = bytes_to_human(original - new);
        push_all(&mut s, &d);
    } else {
        push_all(&mut s, "+");
    }
    push_all(&mut s, ")");
    s
}

impl App {
    fn results_lines(&self, lines: &mut Vec<OutputLine>)
        requires
            self.wf(),
            results_fit(self.model()),
        ensures
            out_views(final(lines)@) == out_views(old(lines)@) + results_section(self.model()),
    {
        let ghost start = out_views(lines@);
        let ghost m = self.model();
        let n = self.compression_results.len();
        if n == 0 || self.compressing {
            proof {
                assert(out_views(lines@) =~= start + results_section(m));
            }
            return;
        }
        push_out(lines, OutputLine::Blank);
        push_out(lines, OutputLine::Heading("Results:".to_string()));
        let ghost head = out_views(lines@);
        let shown: usize = if n < 5 {
            n
        } else {
            5
        };
        let mut k: usize = 0;
        while k < shown
            invariant
                k <= shown <= n,
                n == self.compression_results@.len(),
                m == self.model(),
                results_fit(m),
                out_views(lines@) == head + Seq::new(
                    k as nat,
                    |j: int| result_line(m.compression_results[m.compression_results.len() - 1 - j], m.files),
                ),
            decreases shown - k,
        {
            let r = &self.compression_results[n - 1 - k];
            proof {
                assert(m.compression_results[n - 1 - k] == *r);
                assert(r.file_index < m.files.len());
            }
            let name = self.files[r.file_index].name.clone();
            let line = match &r.error {
                Some(e) => OutputLine::Failed { name, reason: truncate_str(e, 30) },
                None => OutputLine::Saved {
                    name,
                    sizes: size_change_text(r.original_size, r.new_size),
                    smaller: r.original_size > r.new_size,
                },
            };
            push_out(lines, line);
            k = k + 1;
            proof {
                assert(out_views(lines@) =~= head + Seq::new(
                    k as nat,
                    |j: int| result_line(m.compression_results[m.compression_results.len() - 1 - j], m.files),
                ));
            }
        }
        proof {
            assert(out_views(lines@) =~= start + results_section(m));
        }
    }

    fn progress_lines(&self, percent: u8, lines: &mut Vec<OutputLine>)
        requires
            percent <= 104,
        ensures
            out_views(final(lines)@) == out_views(old(lines)@) + progress_section(self.model(), percent),
    {
        let ghost start = out_views(lines@);
        if self.compressing {
            match &self.progress {
                Some((current, total, _, status)) => {
                    push_out(lines, OutputLine::Blank);
                    push_out(lines, OutputLine::Busy);
                    push_out(lines, OutputLine::Status(status.clone()));
                    push_out(lines, OutputLine::Blank);
                    let mut p = "[".to_string();
                    let bar = progress_bar_text(percent);
                    push_all(&mut p, &bar);
                    push_all(&mut p, "] ");
                    push_decimal(&mut p, percent as u64);
                    push_all(&mut p, "% (");
                    push_decimal(&mut p, *current as u64);
                    push_all(&mut p, "/");
                    push_decimal(&mut p, *total as u64);
                    push_all(&mut p, ")");
                    push_out(lines, OutputLine::Progress(p));
                },
                None => {},
            }
        }
        proof {
            assert(out_views(lines@) =~= start + progress_section(self.model(), percent));
        }
    }

    /// The lines of the output panel: the selected file's output settings,
    /// the queue, the latest results and, during a run, its progress
    /// (`percent`, worked out by the caller from the progress counts; past
    /// 104 the twenty-cell bar would overflow).
    pub fn output_panel_lines(&self, percent: u8) -> (lines: Vec<OutputLine>)
        requires
            self.wf(),
            results_fit(self.model()),
            queued_total(self.files@) <= u64::MAX,
            percent <= 104,
        ensures
            out_views(lines@) == output_panel(self.model(), percent),
    {
        let mut lines: Vec<OutputLine> = Vec::new();
        proof {
            assert(out_views(lines@) =~= Seq::<OutView>::empty());
        }
        self.output_settings_lines(&mut lines);
        self.queue_lines(&mut lines);
        self.results_lines(&mut lines);
        self.progress_lines(percent, &mut lines);
        proof {
            assert(out_views(lines@) =~= output_panel(self.model(), percent));
        }
        lines
    }
}

} // verus!
