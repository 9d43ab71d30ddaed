//! The render pipeline: turns a success flag and the captured stderr text
//! into the stream of output lines, in original order.
//!
//! On success exactly one celebratory line is produced and the stderr text is
//! ignored. On failure an alert header is produced, then each stderr line is
//! classified: an Error line yields its translated message and a freshly
//! chosen decorative suffix, adjacently; a Note or Help line is passed
//! through under a hint or advice marker; an Ignored line yields nothing.

use vstd::prelude::*;
use vstd::string::*;
use crate::classifier::{classify, spec_classify, DiagnosticKind};
use crate::dictionary::{spec_translate, translate};
use crate::suffix::{in_pool, next_suffix};
use crate::text::{spec_lines, split_lines};

verus! {

/// The display style of one rendered output line: a presentation concern
/// only, which a non-interactive caller may ignore.
#[derive(Clone, Copy, Debug, PartialEq, Eq, Structural)]
pub enum LineStyle {
    Celebration,
    Alert,
    Translated,
    Suffix,
    Hint,
    Advice,
}

/// One rendered output line: its display style and its text.
#[derive(Clone, Debug)]
pub struct RenderedLine {
    pub style: LineStyle,
    pub text: String,
}

impl View for RenderedLine {
    type V = (LineStyle, Seq<char>);

    open spec fn view(&self) -> (LineStyle, Seq<char>) {
        (self.style, self.text@)
    }
}

/// The celebratory line emitted when the compiler succeeded.
pub open spec fn success_message() -> Seq<char> {
    "/// べ、別に成功して嬉しいわけじゃないんだからね！"@
}

/// The alert header emitted once when the compiler failed.
pub open spec fn failure_header() -> Seq<char> {
    "💢 コンパイルエラー発生！"@
}

/// The marker prefixed to every translated error message.
pub open spec fn error_marker() -> Seq<char> {
    "🦀 "@
}

/// The marker prefixed to a passed-through note line.
pub open spec fn hint_marker() -> Seq<char> {
    "💬 ヒント: "@
}

/// The marker prefixed to a passed-through help line.
pub open spec fn advice_marker() -> Seq<char> {
    "💡 助言: "@
}

/// How many of the given lines classify as Error.
pub open spec fn error_count(lines: Seq<Seq<char>>) -> int
    decreases lines.len(),
{
    if lines.len() == 0 {
        0
    } else {
        (if spec_classify(lines[0]) is Error {
            1int
        } else {
            0int
        }) + error_count(lines.drop_first())
    }
}

/// The output block of one classified line: two adjacent lines (translated
/// message, then the suffix `suf`) for an Error, one marked passthrough line
/// for a Note or Help, nothing for an Ignored line.
pub open spec fn rendered_line(line: Seq<char>, suf: Seq<char>) -> Seq<(LineStyle, Seq<char>)> {
    match spec_classify(line) {
        DiagnosticKind::Error => seq![
            (LineStyle::Translated, error_marker() + spec_translate(line)),
            (LineStyle::Suffix, suf),
        ],
        DiagnosticKind::Note => seq![(LineStyle::Hint, hint_marker() + line)],
        DiagnosticKind::Help => seq![(LineStyle::Advice, advice_marker() + line)],
        DiagnosticKind::Ignored => Seq::empty(),
    }
}

/// The output of the failure path over `lines`, where `sufs` lists the
/// suffix chosen for each Error line, in order.
pub open spec fn rendered_failure(lines: Seq<Seq<char>>, sufs: Seq<Seq<char>>) -> Seq<
    (LineStyle, Seq<char>),
>
    decreases lines.len(),
{
    if lines.len() == 0 {
        Seq::empty()
    } else if spec_classify(lines[0]) is Error {
        rendered_line(lines[0], sufs[0]) + rendered_failure(lines.drop_first(), sufs.drop_first())
    } else {
        rendered_line(lines[0], Seq::empty()) + rendered_failure(lines.drop_first(), sufs)
    }
}

/// What `render` returns, given the suffixes `sufs` that were drawn for the
/// Error lines: one celebratory line on success, whatever the stderr text
/// held; the alert header followed by each line's output block, in original
/// order, on failure.
pub open spec fn spec_render(success: bool, text: Seq<char>, sufs: Seq<Seq<char>>) -> Seq<
    (LineStyle, Seq<char>),
> {
    if success {
        seq![(LineStyle::Celebration, success_message())]
    } else {
        seq![(LineStyle::Alert, failure_header())] + rendered_failure(spec_lines(text), sufs)
    }
}

proof fn lemma_error_count_nonneg(lines: Seq<Seq<char>>)
    ensures
        error_count(lines) >= 0,
    decreases lines.len(),
{
    if lines.len() > 0 {
        lemma_error_count_nonneg(lines.drop_first());
    }
}

proof fn lemma_error_count_snoc(lines: Seq<Seq<char>>, l: Seq<char>)
    ensures
        error_count(lines.push(l)) == error_count(lines) + (if spec_classify(l) is Error {
            1int
        } else {
            0int
        }),
    decreases lines.len(),
{
    if lines.len() == 0 {
        assert(lines.push(l)[0] == l);
        assert(lines.push(l).drop_first() =~= Seq::<Seq<char>>::empty());
        assert(error_count(lines) == 0);
        assert(error_count(lines.push(l).drop_first()) == 0);
        assert(error_count(lines.push(l)) == (if spec_classify(l) is Error {
            1int
        } else {
            0int
        }) + error_count(lines.push(l).drop_first()));
    } else {
        assert(lines.push(l)[0] == lines[0]);
        assert(lines.push(l).drop_first() =~= lines.drop_first().push(l));
        lemma_error_count_snoc(lines.drop_first(), l);
    }
}

/// Appending one more input line appends exactly that line's output block.
proof fn lemma_rendered_failure_snoc(
    lines: Seq<Seq<char>>,
    sufs: Seq<Seq<char>>,
    l: Seq<char>,
    extra: Seq<Seq<char>>,
)
    requires
        sufs.len() == error_count(lines),
        extra.len() == (if spec_classify(l) is Error {
            1int
        } else {
            0int
        }),
    ensures
        rendered_failure(lines.push(l), sufs + extra) == rendered_failure(lines, sufs)
            + rendered_line(
            l,
            if extra.len() > 0 {
                extra[0]
            } else {
                Seq::empty()
            },
        ),
    decreases lines.len(),
{
    let tail = if extra.len() > 0 {
        extra[0]
    } else {
        Seq::<char>::empty()
    };
    if lines.len() == 0 {
        assert(sufs + extra =~= extra);
        assert(lines.push(l)[0] == l);
        assert(lines.push(l).drop_first() =~= Seq::<Seq<char>>::empty());
        assert(rendered_failure(lines.push(l).drop_first(), (sufs + extra).drop_first()) =~= Seq::<
            (LineStyle, Seq<char>),
        >::empty());
        assert(rendered_failure(lines.push(l).drop_first(), sufs + extra) =~= Seq::<
            (LineStyle, Seq<char>),
        >::empty());
        if spec_classify(l) is Error {
            assert((sufs + extra)[0] == extra[0]);
            assert(rendered_failure(lines.push(l), sufs + extra) =~= rendered_line(l, tail));
        } else {
            assert(rendered_failure(lines.push(l), sufs + extra) =~= rendered_line(l, tail));
        }
    } else {
        assert(lines.push(l)[0] == lines[0]);
        assert(lines.push(l).drop_first() =~= lines.drop_first().push(l));
        lemma_error_count_nonneg(lines.drop_first());
        if spec_classify(lines[0]) is Error {
            assert(sufs.len() >= 1);
            assert((sufs + extra)[0] == sufs[0]);
            assert((sufs + extra).drop_first() =~= sufs.drop_first() + extra);
            lemma_rendered_failure_snoc(lines.drop_first(), sufs.drop_first(), l, extra);
            assert(rendered_failure(lines.push(l), sufs + extra) =~= rendered_failure(lines, sufs)
                + rendered_line(l, tail));
        } else {
            lemma_rendered_failure_snoc(lines.drop_first(), sufs, l, extra);
            assert(rendered_failure(lines.push(l), sufs + extra) =~= rendered_failure(lines, sufs)
                + rendered_line(l, tail));
        }
    }
}

/// Renders the whole captured stream: one celebratory line on success; on
/// failure the alert header, then per stderr line the output block of its
/// kind, in original order, each Error line's translated message and its
/// suffix adjacent, every drawn suffix a member of the fixed pool.
pub fn render(success: bool, stderr: &str) -> (out: Vec<RenderedLine>)
    ensures
        success ==> out@.map_values(|l: RenderedLine| l@) == spec_render(
            true,
            stderr@,
            Seq::empty(),
        ),
        !success ==> exists|sufs: Seq<Seq<char>>|
            {
                &&& sufs.len() == error_count(spec_lines(stderr@))
                &&& (forall|i: int| 0 <= i < sufs.len() ==> in_pool(sufs[i]))
                &&& out@.map_values(|l: RenderedLine| l@) == spec_render(false, stderr@, sufs)
            },
{
    let mut out: Vec<RenderedLine> = Vec::new();
    if success {
        out.push(
            RenderedLine {
                style: LineStyle::Celebration,
                text: String::from_str("/// べ、別に成功して嬉しいわけじゃないんだからね！"),
            },
        );
        proof {
            assert(out@.map_values(|l: RenderedLine| l@) =~= spec_render(
                true,
                stderr@,
                Seq::empty(),
            ));
        }
        return out;
    }
    let lines = split_lines(stderr);
    let ghost lviews = lines@.map_values(|s: String| s@);
    out.push(
        RenderedLine { style: LineStyle::Alert, text: String::from_str("💢 コンパイルエラー発生！") },
    );
    let ghost mut sufs: Seq<Seq<char>> = Seq::empty();
    proof {
        assert(lviews.take(0) =~= Seq::<Seq<char>>::empty());
        assert(out@.map_values(|l: RenderedLine| l@) =~= seq![(LineStyle::Alert, failure_header())]
            + rendered_failure(lviews.take(0), sufs));
    }
    let mut k: usize = 0;
    while k < lines.len()
        invariant
            lviews == lines@.map_values(|s: String| s@),
            lviews == spec_lines(stderr@),
            k <= lines.len(),
            sufs.len() == error_count(lviews.take(k as int)),
            forall|i: int| 0 <= i < sufs.len() ==> in_pool(sufs[i]),
            out@.map_values(|l: RenderedLine| l@) == seq![(LineStyle::Alert, failure_header())]
                + rendered_failure(lviews.take(k as int), sufs),
        decreases lines.len() - k,
    {
        let ghost prev_out = out@.map_values(|l: RenderedLine| l@);
        let ghost prev_sufs = sufs;
        let kind = classify(lines[k].as_str());
        match kind {
            DiagnosticKind::Error => {
                let t = translate(lines[k].as_str());
                let msg = String::from_str("🦀 ").concat(t.as_str());
                let suf = next_suffix();
                out.push(RenderedLine { style: LineStyle::Translated, text: msg });
                out.push(RenderedLine { style: LineStyle::Suffix, text: String::from_str(suf) });
                proof {
                    sufs = sufs.push(suf@);
                }
            },
            DiagnosticKind::Note => {
                let msg = String::from_str("💬 ヒント: ").concat(lines[k].as_str());
                out.push(RenderedLine { style: LineStyle::Hint, text: msg });
            },
            DiagnosticKind::Help => {
                let msg = String::from_str("💡 助言: ").concat(lines[k].as_str());
                out.push(RenderedLine { style: LineStyle::Advice, text: msg });
            },
            DiagnosticKind::Ignored => {},
        }
        proof {
            let ghost l = lviews[k as int];
            let ghost extra: Seq<Seq<char>> = if spec_classify(l) is Error {
                seq![sufs.last()]
            } else {
                Seq::empty()
            };
            assert(lviews.take(k as int + 1) =~= lviews.take(k as int).push(l));
            lemma_error_count_snoc(lviews.take(k as int), l);
            assert(sufs =~= prev_sufs + extra);
            lemma_rendered_failure_snoc(lviews.take(k as int), prev_sufs, l, extra);
            assert(out@.map_values(|x: RenderedLine| x@) =~= prev_out + rendered_line(
                l,
                if extra.len() > 0 {
                    extra[0]
                } else {
                    Seq::empty()
                },
            ));
            assert(out@.map_values(|x: RenderedLine| x@) =~= seq![
                (LineStyle::Alert, failure_header()),
            ] + rendered_failure(lviews.take(k as int + 1), sufs));
        }
        k = k + 1;
    }
    proof {
        assert(lviews.take(lines.len() as int) =~= lviews);
        assert(out@.map_values(|l: RenderedLine| l@) == spec_render(false, stderr@, sufs));
    }
    out
}

} // verus!
