//! Scanning sources and rendering what they select.
//!
//! Policies of the engine:
//! - `quiet` has priority over every other output flag, then `filename_only`,
//!   then `count_only`; without any of them each selected line is written.
//! - With `quiet` or `filename_only` the scan of a source stops at its first
//!   selected line, which it counts as 1.
//! - With `count_only` a count is written for every source, 0 included.
//! - Names prefix written lines and counts when the run has more than one source.
//! - A read failure inside a source aborts the whole run, once the lines read
//!   before it have been handled.

use vstd::prelude::*;
use crate::config::{texts, Config, InputSource, OutputTarget};
use crate::pattern::{regex_accepts, regex_finds, GrepError, Pattern};
use crate::render::{decimal, decimal_string, join_colon, joined};

verus! {

/// Whether `line` is selected: it matches `pat`, or, under `invert`, it does not.
pub open spec fn selected(pat: Seq<char>, invert: bool, line: Seq<char>) -> bool {
    regex_finds(pat, line) != invert
}

/// How many of `lines` are selected.
pub open spec fn count_selected(pat: Seq<char>, invert: bool, lines: Seq<Seq<char>>) -> nat
    decreases lines.len(),
{
    if lines.len() == 0 {
        0
    } else {
        count_selected(pat, invert, lines.drop_last())
            + if selected(pat, invert, lines.last()) { 1nat } else { 0nat }
    }
}

/// The text written for selected line number `n` (counted from 1) in normal mode.
pub open spec fn render_line(
    name: Seq<char>,
    n: nat,
    content: Seq<char>,
    multi_source: bool,
    line_number: bool,
) -> Seq<char> {
    if multi_source && line_number {
        joined(joined(name, decimal(n)), content)
    } else if multi_source {
        joined(name, content)
    } else if line_number {
        joined(decimal(n), content)
    } else {
        content
    }
}

/// The texts written in normal mode for the selected lines among `lines`, in order.
pub open spec fn rendered_lines(
    pat: Seq<char>,
    invert: bool,
    name: Seq<char>,
    lines: Seq<Seq<char>>,
    multi_source: bool,
    line_number: bool,
) -> Seq<Seq<char>>
    decreases lines.len(),
{
    if lines.len() == 0 {
        seq![]
    } else {
        let prev = rendered_lines(pat, invert, name, lines.drop_last(), multi_source, line_number);
        if selected(pat, invert, lines.last()) {
            prev.push(render_line(name, lines.len(), lines.last(), multi_source, line_number))
        } else {
            prev
        }
    }
}

/// Renders selected line number `n` of source `name` in normal mode:
/// `name:n:content`, `name:content`, `n:content` or `content`.
pub fn render_match(name: &str, n: usize, content: &str, multi_source: bool, line_number: bool) -> (r: String)
    ensures
        r@ == render_line(name@, n as nat, content@, multi_source, line_number),
{
    let number = decimal_string(n as u128);
    if multi_source {
        if line_number {
            let head = join_colon(name, number.as_str());
            join_colon(head.as_str(), content)
        } else {
            join_colon(name, content)
        }
    } else {
        if line_number {
            join_colon(number.as_str(), content)
        } else {
            String::from_str(content)
        }
    }
}

/// Whether a scan in this configuration stops at the first selected line.
pub open spec fn stops_at_first(cfg: Config) -> bool {
    cfg.quiet || cfg.filename_only
}

/// Whether selected lines are written one by one.
pub open spec fn normal_mode(cfg: Config) -> bool {
    !cfg.quiet && !cfg.filename_only && !cfg.count_only
}

/// The lines of a source, as text.
pub open spec fn line_texts(src: InputSource) -> Seq<Seq<char>> {
    texts(src.lines@)
}

/// How many lines of `src` are selected.
pub open spec fn selected_in(cfg: Config, pat: Seq<char>, src: InputSource) -> nat {
    count_selected(pat, cfg.invert_match, line_texts(src))
}

/// The count a scan of `src` reports: the number of selected lines, or, when
/// the scan stops at the first one, whether there is one.
pub open spec fn source_count(cfg: Config, pat: Seq<char>, src: InputSource) -> nat {
    if stops_at_first(cfg) {
        if selected_in(cfg, pat, src) > 0 { 1 } else { 0 }
    } else {
        selected_in(cfg, pat, src)
    }
}

/// Whether the scan of `src` ends in its read failure: it reaches the end of
/// the lines that were read, and a failure came after them.
pub open spec fn source_fails(cfg: Config, pat: Seq<char>, src: InputSource) -> bool {
    src.read_error.is_some() && !(stops_at_first(cfg) && selected_in(cfg, pat, src) > 0)
}

/// The texts a scan of `src` writes line by line.
pub open spec fn scan_output(cfg: Config, pat: Seq<char>, src: InputSource, multi_source: bool) -> Seq<Seq<char>> {
    if normal_mode(cfg) {
        rendered_lines(pat, cfg.invert_match, src.name@, line_texts(src), multi_source, cfg.line_number)
    } else {
        seq![]
    }
}

/// The texts written once a scan of `src` has finished.
pub open spec fn summary_output(cfg: Config, pat: Seq<char>, src: InputSource, multi_source: bool) -> Seq<Seq<char>> {
    if cfg.quiet {
        seq![]
    } else if cfg.filename_only {
        if selected_in(cfg, pat, src) > 0 { seq![src.name@] } else { seq![] }
    } else if cfg.count_only {
        let c = decimal(selected_in(cfg, pat, src));
        if multi_source { seq![joined(src.name@, c)] } else { seq![c] }
    } else {
        seq![]
    }
}

/// Everything written for `src` when its scan succeeds.
pub open spec fn source_output(cfg: Config, pat: Seq<char>, src: InputSource, multi_source: bool) -> Seq<Seq<char>> {
    scan_output(cfg, pat, src, multi_source) + summary_output(cfg, pat, src, multi_source)
}

/// Selecting more lines never lowers the count.
pub proof fn lemma_count_prefix(pat: Seq<char>, invert: bool, lines: Seq<Seq<char>>, i: int)
    requires
        0 <= i <= lines.len(),
    ensures
        count_selected(pat, invert, lines.subrange(0, i)) <= count_selected(pat, invert, lines),
        count_selected(pat, invert, lines) <= lines.len(),
    decreases lines.len(),
{
    if lines.len() > 0 {
        if i == lines.len() {
            assert(lines.subrange(0, i) =~= lines);
            lemma_count_prefix(pat, invert, lines.drop_last(), i - 1);
        } else {
            assert(lines.drop_last().subrange(0, i) =~= lines.subrange(0, i));
            lemma_count_prefix(pat, invert, lines.drop_last(), i);
        }
    }
}

/// Scans the lines of `source`, writing each selected line in normal mode.
///
/// Returns the count of selected lines; when `quiet` or `filename_only` is set the
/// scan stops at the first selected line and returns 1. A scan that reaches the
/// end of the lines that were read, after which reading failed, fails with that
/// read error (the whole run is then aborted). `multi_source` says whether the
/// run has more than one source, so that written lines carry the source's name.
pub fn process_lines(
    source: &InputSource,
    output: &mut OutputTarget,
    config: &Config,
    pattern: &Pattern,
    multi_source: bool,
) -> (r: Result<u128, GrepError>)
    ensures
        texts(final(output).messages@) == texts(old(output).messages@)
            + scan_output(*config, pattern@, *source, multi_source),
        r.is_err() == source_fails(*config, pattern@, *source),
        r matches Ok(n) ==> n == source_count(*config, pattern@, *source) && n <= source.lines@.len(),
        r matches Err(e) ==> e == GrepError::LineRead(source.read_error->0),
{
    let ghost pat = pattern@;
    let ghost all = line_texts(*source);
    let ghost start = texts(output.messages@);
    let mut match_count: u128 = 0;
    let mut i: usize = 0;
    while i < source.lines.len()
        invariant
            0 <= i <= source.lines@.len(),
            all == line_texts(*source),
            pat == pattern@,
            start == texts(old(output).messages@),
            match_count == count_selected(pat, config.invert_match, all.subrange(0, i as int)),
            match_count <= i,
            stops_at_first(*config) ==> match_count == 0,
            texts(output.messages@) == start + if normal_mode(*config) {
                rendered_lines(pat, config.invert_match, source.name@, all.subrange(0, i as int), multi_source, config.line_number)
            } else {
                seq![]
            },
        decreases source.lines@.len() - i,
    {
        let content = &source.lines[i];
        let line_number = i + 1;
        let matched = pattern.is_match(content.as_str()) != config.invert_match;
        let ghost prefix = all.subrange(0, i + 1);
        assert(prefix.drop_last() =~= all.subrange(0, i as int));
        assert(prefix.last() == content@);
        if matched {
            match_count = match_count + 1;
            if config.quiet || config.filename_only {
                proof {
                    lemma_count_prefix(pat, config.invert_match, all, i + 1);
                    assert(texts(output.messages@) =~= start + scan_output(*config, pat, *source, multi_source));
                }
                return Ok(match_count);
            }
            if !config.count_only {
                let message = render_match(source.name.as_str(), line_number, content.as_str(), multi_source, config.line_number);
                output.write(message);
            }
        }
        i = i + 1;
        assert(all.subrange(0, i as int) == prefix);
    }
    assert(all.subrange(0, i as int) =~= all);
    match &source.read_error {
        Some(message) => Err(GrepError::LineRead(message.clone())),
        None => Ok(match_count),
    }
}

/// The pattern a run matches with: case-insensitive matching is the pattern
/// under the `(?i)` flag.
pub open spec fn effective_pattern(cfg: Config) -> Seq<char> {
    if cfg.insensitive {
        seq!['(', '?', 'i', ')'] + cfg.pattern@
    } else {
        cfg.pattern@
    }
}

/// Everything written by a run over `srcs` whose scans all succeed.
pub open spec fn run_output(cfg: Config, pat: Seq<char>, srcs: Seq<InputSource>, multi_source: bool) -> Seq<Seq<char>>
    decreases srcs.len(),
{
    if srcs.len() == 0 {
        seq![]
    } else {
        run_output(cfg, pat, srcs.drop_last(), multi_source) + source_output(cfg, pat, srcs.last(), multi_source)
    }
}

/// The sum of the counts of the scans of `srcs`.
pub open spec fn run_total(cfg: Config, pat: Seq<char>, srcs: Seq<InputSource>) -> nat
    decreases srcs.len(),
{
    if srcs.len() == 0 {
        0
    } else {
        run_total(cfg, pat, srcs.drop_last()) + source_count(cfg, pat, srcs.last())
    }
}

/// Writes what follows the scan of a source: its name in `filename_only` mode
/// when a line was selected, or its count in `count_only` mode.
fn write_summary(output: &mut OutputTarget, config: &Config, pattern: &Pattern, source: &InputSource, count: u128, multi_source: bool)
    requires
        !stops_at_first(*config) ==> count == selected_in(*config, pattern@, *source),
        stops_at_first(*config) ==> count == source_count(*config, pattern@, *source),
    ensures
        texts(final(output).messages@) == texts(old(output).messages@)
            + summary_output(*config, pattern@, *source, multi_source),
{
    let ghost start = texts(output.messages@);
    if config.quiet {
    } else if config.filename_only {
        if count > 0 {
            output.write(source.name.clone());
        }
    } else if config.count_only {
        let c = decimal_string(count);
        if multi_source {
            output.write(join_colon(source.name.as_str(), c.as_str()));
        } else {
            output.write(c);
        }
    }
    assert(texts(output.messages@) =~= start + summary_output(*config, pattern@, *source, multi_source));
}

/// Scans every source in order with `pattern`, writing what each scan selects.
///
/// Returns the sum of the scans' counts, or the read error of the first scan that
/// fails, after which no further source is scanned.
pub fn scan_sources(
    config: &Config,
    pattern: &Pattern,
    input_sources: &Vec<InputSource>,
    output: &mut OutputTarget,
) -> (r: Result<u128, GrepError>)
    ensures
        ({
            let pat = pattern@;
            let srcs = input_sources@;
            let multi = srcs.len() > 1;
            let before = texts(old(output).messages@);
            let after = texts(final(output).messages@);
            &&& r.is_ok() == (forall|i: int| 0 <= i < srcs.len() ==> !source_fails(*config, pat, #[trigger] srcs[i]))
            &&& r matches Ok(n) ==> n == run_total(*config, pat, srcs) && after == before + run_output(*config, pat, srcs, multi)
            &&& r matches Err(e) ==> exists|i: int|
                0 <= i < srcs.len() && source_fails(*config, pat, #[trigger] srcs[i])
                && (forall|j: int| 0 <= j < i ==> !source_fails(*config, pat, #[trigger] srcs[j]))
                && e == GrepError::LineRead(srcs[i].read_error->0)
                && after == before + run_output(*config, pat, srcs.subrange(0, i), multi)
                    + scan_output(*config, pat, srcs[i], multi)
        }),
{
    let ghost pat = pattern@;
    let ghost srcs = input_sources@;
    let ghost start = texts(output.messages@);
    let multi_source = input_sources.len() > 1;
    let mut total: u128 = 0;
    let mut i: usize = 0;
    while i < input_sources.len()
        invariant
            0 <= i <= srcs.len(),
            srcs == input_sources@,
            pat == pattern@,
            multi_source == (srcs.len() > 1),
            start == texts(old(output).messages@),
            forall|j: int| 0 <= j < i ==> !source_fails(*config, pat, #[trigger] srcs[j]),
            total == run_total(*config, pat, srcs.subrange(0, i as int)),
            total <= (i as int) * 18446744073709551616,
            texts(output.messages@) == start + run_output(*config, pat, srcs.subrange(0, i as int), multi_source),
        decreases srcs.len() - i,
    {
        let source = &input_sources[i];
        let n_lines = source.lines.len();
        let ghost done = srcs.subrange(0, i as int);
        let ghost next = srcs.subrange(0, i + 1);
        assert(next.drop_last() =~= done);
        assert(next.last() == srcs[i as int]);
        let count = match process_lines(source, output, config, pattern, multi_source) {
            Ok(n) => n,
            Err(e) => {
                assert(!(forall|j: int| 0 <= j < srcs.len() ==> !source_fails(*config, pat, #[trigger] srcs[j])));
                return Err(e);
            }
        };
        write_summary(output, config, pattern, source, count, multi_source);
        proof {
            assert((i as int) * 18446744073709551616 <= 18446744073709551615 * 18446744073709551616) by (nonlinear_arith)
                requires
                    i <= 18446744073709551615,
            ;
            assert(count <= n_lines);
            assert(texts(output.messages@) =~= start + run_output(*config, pat, next, multi_source));
        }
        total = total + count;
        i = i + 1;
    }
    assert(srcs.subrange(0, i as int) =~= srcs);
    Ok(total)
}

/// Runs a search: compiles the effective pattern (adding case-insensitivity
/// when asked) and scans every source in order.
///
/// Fails with `InvalidPattern` when case-insensitive matching is asked and the
/// regex engine rejects the flagged pattern; otherwise behaves as `scan_sources`.
pub fn process_input(config: Config, input_sources: Vec<InputSource>, output: &mut OutputTarget) -> (r: Result<u128, GrepError>)
    ensures
        ({
            let pat = effective_pattern(config);
            let srcs = input_sources@;
            let multi = srcs.len() > 1;
            let before = texts(old(output).messages@);
            let after = texts(final(output).messages@);
            &&& (r matches Err(GrepError::InvalidPattern(_))) == (config.insensitive && !regex_accepts(pat))
            &&& r matches Err(GrepError::InvalidPattern(_)) ==> after == before
            &&& !(config.insensitive && !regex_accepts(pat)) ==> {
                &&& r.is_ok() == (forall|i: int| 0 <= i < srcs.len() ==> !source_fails(config, pat, #[trigger] srcs[i]))
                &&& r matches Ok(n) ==> n == run_total(config, pat, srcs) && after == before + run_output(config, pat, srcs, multi)
                &&& r matches Err(e) ==> exists|i: int|
                    0 <= i < srcs.len() && source_fails(config, pat, #[trigger] srcs[i])
                    && (forall|j: int| 0 <= j < i ==> !source_fails(config, pat, #[trigger] srcs[j]))
                    && e == GrepError::LineRead(srcs[i].read_error->0)
                    && after == before + run_output(config, pat, srcs.subrange(0, i), multi)
                        + scan_output(config, pat, srcs[i], multi)
            }
        }),
{
    if config.insensitive {
        proof {
            reveal_strlit("(?i)");
        }
        let mut flagged = String::from_str("(?i)");
        flagged.append(config.pattern.as_str());
        assert(flagged@ =~= effective_pattern(config));
        match Pattern::new(flagged.as_str()) {
            Ok(pattern) => scan_sources(&config, &pattern, &input_sources, output),
            Err(e) => Err(e),
        }
    } else {
        scan_sources(&config, &config.pattern, &input_sources, output)
    }
}

/// The exit status of a run: 0 when a line was selected, 1 when none was, 2 on error.
pub open spec fn exit_status(r: Result<u128, GrepError>) -> i32 {
    match r {
        Ok(n) => if n > 0 { 0 } else { 1 },
        Err(_) => 2,
    }
}

/// The exit status for the result of `process_input`.
pub fn exit_code(result: &Result<u128, GrepError>) -> (c: i32)
    ensures
        c == exit_status(*result),
{
    match result {
        Ok(n) => if *n > 0 { 0 } else { 1 },
        Err(_) => 2,
    }
}

} // verus!
