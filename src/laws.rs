use vstd::prelude::*;
use crate::config::{Config, InputSource};
use crate::processing::{
    count_selected, line_texts, normal_mode, rendered_lines, run_output, run_total, scan_output, selected,
    selected_in, source_count, source_output, summary_output,
};
use crate::render::{decimal, joined};

verus! {

/// Inverting the selection selects exactly the lines that are not selected
/// otherwise: line by line, and so in count.
pub proof fn lemma_invert_complement(pat: Seq<char>, lines: Seq<Seq<char>>)
    ensures
        forall|i: int| 0 <= i < lines.len() ==>
            (selected(pat, true, #[trigger] lines[i]) <==> !selected(pat, false, lines[i])),
        count_selected(pat, true, lines) + count_selected(pat, false, lines) == lines.len(),
    decreases lines.len(),
{
    if lines.len() > 0 {
        lemma_invert_complement(pat, lines.drop_last());
    }
}

/// In normal mode one text is written per selected line.
pub proof fn lemma_rendered_len(
    pat: Seq<char>,
    invert: bool,
    name: Seq<char>,
    lines: Seq<Seq<char>>,
    multi_source: bool,
    line_number: bool,
)
    ensures
        rendered_lines(pat, invert, name, lines, multi_source, line_number).len()
            == count_selected(pat, invert, lines),
    decreases lines.len(),
{
    if lines.len() > 0 {
        lemma_rendered_len(pat, invert, name, lines.drop_last(), multi_source, line_number);
    }
}

/// The text a count-only run writes for `src`.
pub open spec fn count_text(cfg: Config, pat: Seq<char>, src: InputSource, multi_source: bool) -> Seq<char> {
    if multi_source {
        joined(src.name@, decimal(selected_in(cfg, pat, src)))
    } else {
        decimal(selected_in(cfg, pat, src))
    }
}

/// A count-only run writes one count per source, each the number of lines that
/// a normal run with the same selection writes for that source; its total is the
/// number of lines a normal run writes.
pub proof fn lemma_count_mode_totals(
    counting: Config,
    normal: Config,
    pat: Seq<char>,
    srcs: Seq<InputSource>,
    multi_source: bool,
)
    requires
        counting.count_only,
        !counting.quiet,
        !counting.filename_only,
        normal_mode(normal),
        counting.invert_match == normal.invert_match,
    ensures
        run_output(counting, pat, srcs, multi_source).len() == srcs.len(),
        forall|i: int| 0 <= i < srcs.len() ==>
            #[trigger] run_output(counting, pat, srcs, multi_source)[i]
                == count_text(counting, pat, srcs[i], multi_source),
        forall|i: int| 0 <= i < srcs.len() ==>
            selected_in(counting, pat, #[trigger] srcs[i])
                == source_output(normal, pat, srcs[i], multi_source).len(),
        run_total(counting, pat, srcs) == run_total(normal, pat, srcs),
        run_total(counting, pat, srcs) == run_output(normal, pat, srcs, multi_source).len(),
    decreases srcs.len(),
{
    if srcs.len() > 0 {
        let prev = srcs.drop_last();
        let last = srcs.last();
        lemma_count_mode_totals(counting, normal, pat, prev, multi_source);
        lemma_rendered_len(pat, normal.invert_match, last.name@, line_texts(last), multi_source, normal.line_number);
        assert(source_output(counting, pat, last, multi_source) =~= seq![count_text(counting, pat, last, multi_source)]);
        assert(source_output(normal, pat, last, multi_source) =~= scan_output(normal, pat, last, multi_source));
        assert forall|i: int| 0 <= i < srcs.len() implies
            selected_in(counting, pat, #[trigger] srcs[i])
                == source_output(normal, pat, srcs[i], multi_source).len() by {
            if i < prev.len() {
                assert(srcs[i] == prev[i]);
            } else {
                assert(srcs[i] == last);
            }
        }
        assert forall|i: int| 0 <= i < srcs.len() implies
            #[trigger] run_output(counting, pat, srcs, multi_source)[i]
                == count_text(counting, pat, srcs[i], multi_source) by {
            if i < prev.len() {
                assert(srcs[i] == prev[i]);
            } else {
                assert(srcs[i] == last);
            }
        }
    }
}

/// A filenames-only run writes at most one text per source; unless quiet, it
/// writes the name of each source that holds a selected line.
pub proof fn lemma_filenames_only_once(cfg: Config, pat: Seq<char>, srcs: Seq<InputSource>, multi_source: bool)
    requires
        cfg.filename_only,
    ensures
        forall|i: int| 0 <= i < srcs.len() ==>
            (#[trigger] source_output(cfg, pat, srcs[i], multi_source)).len() <= 1,
        forall|i: int| 0 <= i < srcs.len() ==>
            scan_output(cfg, pat, #[trigger] srcs[i], multi_source).len() == 0,
        forall|i: int| 0 <= i < srcs.len() && !cfg.quiet && selected_in(cfg, pat, srcs[i]) > 0 ==>
            #[trigger] source_output(cfg, pat, srcs[i], multi_source) == seq![srcs[i].name@],
        run_output(cfg, pat, srcs, multi_source).len() <= srcs.len(),
    decreases srcs.len(),
{
    assert forall|i: int| 0 <= i < srcs.len() implies
        (#[trigger] source_output(cfg, pat, srcs[i], multi_source)).len() <= 1
        && (!cfg.quiet && selected_in(cfg, pat, srcs[i]) > 0 ==> source_output(cfg, pat, srcs[i], multi_source) == seq![srcs[i].name@]) by {
        assert(source_output(cfg, pat, srcs[i], multi_source) =~= summary_output(cfg, pat, srcs[i], multi_source));
        if !cfg.quiet && selected_in(cfg, pat, srcs[i]) > 0 {
            assert(source_output(cfg, pat, srcs[i], multi_source) =~= seq![srcs[i].name@]);
        }
    }
    if srcs.len() > 0 {
        lemma_filenames_only_once(cfg, pat, srcs.drop_last(), multi_source);
        assert(source_output(cfg, pat, srcs[srcs.len() - 1], multi_source).len() <= 1);
    }
}

/// A quiet run writes nothing, and its total is positive exactly when some
/// source holds a selected line.
pub proof fn lemma_quiet_silent(cfg: Config, pat: Seq<char>, srcs: Seq<InputSource>, multi_source: bool)
    requires
        cfg.quiet,
    ensures
        run_output(cfg, pat, srcs, multi_source).len() == 0,
        forall|i: int| 0 <= i < srcs.len() ==>
            scan_output(cfg, pat, #[trigger] srcs[i], multi_source).len() == 0,
        (run_total(cfg, pat, srcs) > 0)
            == (exists|i: int| 0 <= i < srcs.len() && selected_in(cfg, pat, #[trigger] srcs[i]) > 0),
    decreases srcs.len(),
{
    if srcs.len() > 0 {
        let prev = srcs.drop_last();
        let last = srcs.last();
        lemma_quiet_silent(cfg, pat, prev, multi_source);
        assert(source_output(cfg, pat, last, multi_source).len() == 0);
        if selected_in(cfg, pat, last) > 0 {
            assert(srcs[srcs.len() - 1] == last);
        }
        if exists|i: int| 0 <= i < srcs.len() && selected_in(cfg, pat, #[trigger] srcs[i]) > 0 {
            let i = choose|i: int| 0 <= i < srcs.len() && selected_in(cfg, pat, #[trigger] srcs[i]) > 0;
            if i < prev.len() {
                assert(prev[i] == srcs[i]);
            }
        }
        if exists|i: int| 0 <= i < prev.len() && selected_in(cfg, pat, #[trigger] prev[i]) > 0 {
            let i = choose|i: int| 0 <= i < prev.len() && selected_in(cfg, pat, #[trigger] prev[i]) > 0;
            assert(prev[i] == srcs[i]);
        }
        assert(source_count(cfg, pat, last) == if selected_in(cfg, pat, last) > 0 { 1nat } else { 0nat });
    }
}

} // verus!
