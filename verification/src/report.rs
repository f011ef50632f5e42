//! The reporter: how statistics become the lines of a report.
//!
//! Times are printed in milliseconds with three decimals, rounded to the
//! nearest microsecond. Every line is described as a sequence of characters,
//! and each function returns exactly that sequence.

use vstd::prelude::*;
use vstd::string::StrSliceExecFns;
use crate::config::Config;
use crate::stats::{window, window_stats, WindowStats};
use crate::user::{IntervalReport, Metrics, Stage, TransportError};

verus! {

/// Width of the rule above and below an interval report.
pub const INTERVAL_RULE: usize = 142;

/// Width of the rule below a final report.
pub const REPORT_RULE: usize = 137;

/// The ten digits.
pub open spec fn digits() -> Seq<char> {
    seq!['0', '1', '2', '3', '4', '5', '6', '7', '8', '9']
}

/// The decimal form of a number, without leading zeros.
pub open spec fn decimal(n: nat) -> Seq<char>
    decreases n,
{
    if n < 10 {
        seq![digits()[n as int]]
    } else {
        decimal(n / 10).push(digits()[(n % 10) as int])
    }
}

/// `width` times the character `fill`.
pub open spec fn rule(fill: char, width: nat) -> Seq<char> {
    Seq::new(width, |k: int| fill)
}

/// The text with as many `fill` in front of it as it lacks to `width`.
pub open spec fn pad_left(text: Seq<char>, width: nat, fill: char) -> Seq<char> {
    if text.len() >= width {
        text
    } else {
        rule(fill, (width - text.len()) as nat) + text
    }
}

/// A number of thousandths as a number with three decimals.
pub open spec fn thousandths(n: nat) -> Seq<char> {
    decimal(n / 1000) + seq!['.'] + pad_left(decimal(n % 1000), 3, '0')
}

/// Nanoseconds in microseconds, rounded to the nearest, halves up.
pub open spec fn micros(nanos: nat) -> nat {
    if nanos % 1000 >= 500 {
        nanos / 1000 + 1
    } else {
        nanos / 1000
    }
}

/// A time in nanoseconds as milliseconds with three decimals.
pub open spec fn millis(nanos: nat) -> Seq<char> {
    thousandths(micros(nanos))
}

/// A ratio in thousandths of a percent as a percentage with three decimals.
pub open spec fn ratio_text(ratio: int) -> Seq<char> {
    if ratio < 0 {
        seq!['-'] + thousandths((-ratio) as nat)
    } else {
        thousandths(ratio as nat)
    }
}

/// Requests a second, rounded to the nearest whole number, halves up.
pub open spec fn rate(count: nat, nanos: nat) -> nat {
    (count * 1_000_000_000 + nanos / 2) / nanos
}

/// The requests a second that `count` requests in `nanos` nanoseconds make,
/// in four digits or more; `0inf` where no time has passed.
pub open spec fn rate_text(count: nat, nanos: nat) -> Seq<char> {
    if nanos == 0 {
        seq!['0', 'i', 'n', 'f']
    } else {
        pad_left(decimal(rate(count, nanos)), 4, '0')
    }
}

/// A percentile: its rank in percent with one decimal, and its value in
/// milliseconds.
pub open spec fn percentile_text(permille: nat, nanos: nat) -> Seq<char> {
    seq!['p'] + decimal(permille / 10) + seq!['.'] + decimal(permille % 10) + seq!['=']
        + millis(nanos) + "ms"@
}

/// One line of statistics.
pub open spec fn stat_line(title: Seq<char>, i: nat, stats: WindowStats, nanos: nat) -> Seq<char> {
    title + ": "@ + decimal(i) + " Mean="@ + millis(stats.mean as nat) + "ms Max="@ + millis(
        stats.max as nat,
    ) + "m Count="@ + pad_left(decimal(stats.count as nat), 7, ' ') + " Req/s="@ + rate_text(
        stats.count as nat,
        nanos,
    ) + " Timeouts="@ + pad_left(decimal(stats.timeouts as nat), 3, '0') + " Succ="@
        + ratio_text(stats.success as int) + "% "@ + percentile_text(950, stats.p95 as nat)
        + seq![' '] + percentile_text(990, stats.p99 as nat) + seq![' '] + percentile_text(
        999,
        stats.p999 as nat,
    )
}

/// The label of the user with number `k`: `User00`, `User01` and so on.
pub open spec fn user_label_text(k: nat) -> Seq<char> {
    "User"@ + pad_left(decimal(k), 2, '0')
}

/// The title of the line on the times reported by the service.
pub open spec fn model_title(label: Seq<char>) -> Seq<char> {
    label + " > Model"@
}

/// The title of the line on the round-trip times.
pub open spec fn total_title(label: Seq<char>) -> Seq<char> {
    label + " > Total"@
}

/// The first line of a final report.
pub open spec fn report_head() -> Seq<char> {
    "REPORT "@ + rule('=', (REPORT_RULE - 7) as nat)
}

/// `String::from_iter` of the standard library. Trusted: the string holds the
/// characters of the vector, in their order.
#[verifier::external_body]
fn string_of(chars: &Vec<char>) -> (text: String)
    ensures
        text@ == chars@,
{
    String::from_iter(chars)
}

/// Appends the characters of `text`.
fn push_text(out: &mut Vec<char>, text: &str)
    ensures
        final(out)@ == old(out)@ + text@,
{
    let len = text.unicode_len();
    let mut k: usize = 0;
    while k < len
        invariant
            k <= len,
            len == text@.len(),
            out@ == old(out)@ + text@.subrange(0, k as int),
        decreases len - k,
    {
        out.push(text.get_char(k));
        k += 1;
        assert(out@ =~= old(out)@ + text@.subrange(0, k as int));
    }
    assert(text@.subrange(0, len as int) == text@);
}

/// Appends `width` times the character `fill`.
fn push_rule(out: &mut Vec<char>, fill: char, width: usize)
    ensures
        final(out)@ == old(out)@ + rule(fill, width as nat),
{
    let mut k: usize = 0;
    while k < width
        invariant
            k <= width,
            out@ == old(out)@ + rule(fill, k as nat),
        decreases width - k,
    {
        out.push(fill);
        k += 1;
        assert(out@ =~= old(out)@ + rule(fill, k as nat));
    }
}

/// The digit for a number below ten.
fn digit(d: u128) -> (c: char)
    requires
        d < 10,
    ensures
        c == digits()[d as int],
{
    if d == 0 {
        '0'
    } else if d == 1 {
        '1'
    } else if d == 2 {
        '2'
    } else if d == 3 {
        '3'
    } else if d == 4 {
        '4'
    } else if d == 5 {
        '5'
    } else if d == 6 {
        '6'
    } else if d == 7 {
        '7'
    } else if d == 8 {
        '8'
    } else {
        '9'
    }
}

/// The sequence read from its end.
pub open spec fn mirrored(s: Seq<char>) -> Seq<char> {
    Seq::new(s.len(), |k: int| s[s.len() - 1 - k])
}

/// Appends the decimal form of `n`.
fn push_decimal(out: &mut Vec<char>, n: u128)
    ensures
        final(out)@ == old(out)@ + decimal(n as nat),
{
    let mut low: Vec<char> = Vec::new();
    let mut rest: u128 = n;
    while rest >= 10
        invariant
            decimal(n as nat) == decimal(rest as nat) + mirrored(low@),
        decreases rest,
    {
        let ghost before = low@;
        let c = digit(rest % 10);
        low.push(c);
        proof {
            assert(decimal(rest as nat) == decimal((rest / 10) as nat).push(c));
            assert(mirrored(low@) =~= seq![c] + mirrored(before));
            assert(decimal((rest / 10) as nat) + mirrored(low@) =~= decimal(rest as nat) + mirrored(
                before,
            ));
        }
        rest = rest / 10;
    }
    let ghost before = low@;
    let c = digit(rest);
    low.push(c);
    proof {
        assert(mirrored(low@) =~= seq![c] + mirrored(before));
        assert(decimal(n as nat) =~= mirrored(low@));
    }
    let mut k: usize = low.len();
    while k > 0
        invariant
            k <= low@.len(),
            out@ == old(out)@ + mirrored(low@).subrange(0, low@.len() - k),
        decreases k,
    {
        k -= 1;
        out.push(low[k]);
        assert(out@ =~= old(out)@ + mirrored(low@).subrange(0, low@.len() - k));
    }
    assert(mirrored(low@).subrange(0, low@.len() as int) == mirrored(low@));
}

/// Appends the decimal form of `n`, with `fill` in front of it up to `width`.
fn push_padded(out: &mut Vec<char>, n: u128, width: usize, fill: char)
    ensures
        final(out)@ == old(out)@ + pad_left(decimal(n as nat), width as nat, fill),
{
    let mut text: Vec<char> = Vec::new();
    push_decimal(&mut text, n);
    assert(text@ == decimal(n as nat));
    if text.len() < width {
        let ghost before = out@;
        push_rule(out, fill, width - text.len());
        out.append(&mut text);
        assert(out@ =~= before + pad_left(decimal(n as nat), width as nat, fill));
    } else {
        out.append(&mut text);
    }
}

/// Appends a number of thousandths as a number with three decimals.
fn push_thousandths(out: &mut Vec<char>, n: u128)
    ensures
        final(out)@ == old(out)@ + thousandths(n as nat),
{
    let ghost before = out@;
    push_decimal(out, n / 1000);
    out.push('.');
    push_padded(out, n % 1000, 3, '0');
    assert(out@ =~= before + thousandths(n as nat));
}

/// Appends a time in milliseconds with three decimals.
fn push_millis(out: &mut Vec<char>, nanos: u128)
    ensures
        final(out)@ == old(out)@ + millis(nanos as nat),
{
    let whole: u128 = nanos / 1000;
    let rounded: u128 = if nanos % 1000 >= 500 {
        whole + 1
    } else {
        whole
    };
    push_thousandths(out, rounded);
}

/// Appends a ratio as a percentage with three decimals.
fn push_ratio(out: &mut Vec<char>, ratio: i128)
    ensures
        final(out)@ == old(out)@ + ratio_text(ratio as int),
{
    if ratio < 0 {
        let ghost before = out@;
        let size: u128 = (-(ratio + 1)) as u128 + 1;
        out.push('-');
        push_thousandths(out, size);
        assert(out@ =~= before + ratio_text(ratio as int));
    } else {
        push_thousandths(out, ratio as u128);
    }
}

/// Appends the requests a second.
fn push_rate(out: &mut Vec<char>, count: usize, nanos: u128)
    ensures
        final(out)@ == old(out)@ + rate_text(count as nat, nanos as nat),
{
    if nanos == 0 {
        let ghost before = out@;
        out.push('0');
        out.push('i');
        out.push('n');
        out.push('f');
        assert(out@ =~= before + rate_text(count as nat, nanos as nat));
    } else {
        assert(count * 1_000_000_000 <= 0xffff_ffff_ffff_ffff * 1_000_000_000) by (nonlinear_arith)
            requires
                0 <= count <= 0xffff_ffff_ffff_ffff,
        ;
        let scaled: u128 = (count as u128) * 1_000_000_000;
        if nanos / 2 <= u128::MAX - scaled {
            push_padded(out, (scaled + nanos / 2) / nanos, 4, '0');
        } else {
            // the time is so long that not half a request a second was made
            proof {
                let x = (scaled + nanos / 2) as int;
                let d = nanos as int;
                assert(x < d) by (nonlinear_arith)
                    requires
                        x == scaled + d / 2,
                        d / 2 > 0xffff_ffff_ffff_ffff_ffff_ffff_ffff_ffff - scaled,
                        0 <= scaled <= 0xffff_ffff_ffff_ffff * 1_000_000_000,
                        d <= 0xffff_ffff_ffff_ffff_ffff_ffff_ffff_ffff,
                ;
                vstd::arithmetic::div_mod::lemma_basic_div(x, d);
            }
            push_padded(out, 0, 4, '0');
        }
    }
}

/// Appends a percentile.
fn push_percentile(out: &mut Vec<char>, permille: u32, nanos: u64)
    ensures
        final(out)@ == old(out)@ + percentile_text(permille as nat, nanos as nat),
{
    let ghost before = out@;
    let mut text: Vec<char> = Vec::new();
    text.push('p');
    push_decimal(&mut text, (permille / 10) as u128);
    text.push('.');
    push_decimal(&mut text, (permille % 10) as u128);
    text.push('=');
    push_millis(&mut text, nanos as u128);
    push_text(&mut text, "ms");
    assert(text@ =~= percentile_text(permille as nat, nanos as nat));
    out.append(&mut text);
}

/// The characters of one line of statistics.
fn stat_chars(title: &Vec<char>, i: usize, nanos: u128, stats: &WindowStats) -> (line: Vec<char>)
    ensures
        line@ == stat_line(title@, i as nat, *stats, nanos as nat),
{
    let mut out: Vec<char> = Vec::new();
    let mut k: usize = 0;
    while k < title.len()
        invariant
            k <= title@.len(),
            out@ == title@.subrange(0, k as int),
        decreases title@.len() - k,
    {
        out.push(title[k]);
        k += 1;
        assert(out@ =~= title@.subrange(0, k as int));
    }
    assert(out@ == title@) by {
        assert(title@.subrange(0, title@.len() as int) == title@);
    }
    push_text(&mut out, ": ");
    push_decimal(&mut out, i as u128);
    push_text(&mut out, " Mean=");
    push_millis(&mut out, stats.mean);
    push_text(&mut out, "ms Max=");
    push_millis(&mut out, stats.max as u128);
    push_text(&mut out, "m Count=");
    push_padded(&mut out, stats.count as u128, 7, ' ');
    push_text(&mut out, " Req/s=");
    push_rate(&mut out, stats.count, nanos);
    push_text(&mut out, " Timeouts=");
    push_padded(&mut out, stats.timeouts as u128, 3, '0');
    push_text(&mut out, " Succ=");
    push_ratio(&mut out, stats.success);
    push_text(&mut out, "% ");
    push_percentile(&mut out, 950, stats.p95);
    out.push(' ');
    push_percentile(&mut out, 990, stats.p99);
    out.push(' ');
    push_percentile(&mut out, 999, stats.p999);
    out
}

/// The characters of `text`.
fn chars_of(text: &str) -> (chars: Vec<char>)
    ensures
        chars@ == text@,
{
    let mut chars: Vec<char> = Vec::new();
    push_text(&mut chars, text);
    assert(chars@ =~= text@);
    chars
}

/// One line of statistics: the title, the iteration `i`, the mean and the
/// largest time in milliseconds, the number of samples, the requests a second
/// over `nanos` nanoseconds, the number of timeouts, the success ratio in
/// percent, and the three percentiles.
pub fn format_stats(title: &str, i: usize, nanos: u128, stats: &WindowStats) -> (line: String)
    ensures
        line@ == stat_line(title@, i as nat, *stats, nanos as nat),
{
    let title = chars_of(title);
    let chars = stat_chars(&title, i, nanos, stats);
    string_of(&chars)
}

/// The line of statistics on the window `skip`, `take` of `latencies`, at
/// iteration `i` of a run of `n` requests with a timeout of `timeout`
/// milliseconds, `nanos` nanoseconds after the last report.
pub fn log_stats(
    title: &str,
    i: usize,
    n: usize,
    nanos: u128,
    timeout: u64,
    latencies: &Vec<u64>,
    skip: usize,
    take: usize,
) -> (line: String)
    requires
        skip < i,
        n >= 1,
        window(latencies@, skip as nat, take as nat).len() > 0,
    ensures
        exists|stats: WindowStats|
            {
                &&& stats.describes(
                    window(latencies@, skip as nat, take as nat),
                    (i - skip) as nat,
                    n as nat,
                    timeout as nat,
                )
                &&& line@ == stat_line(title@, i as nat, stats, nanos as nat)
            },
{
    let stats = window_stats(i, n, timeout, latencies, skip, take);
    format_stats(title, i, nanos, &stats)
}

/// The line that tells what a run is made with.
pub open spec fn settings_text(config: Config) -> Seq<char> {
    "Host:"@ + config.addr@ + " Users:"@ + decimal(config.users as nat) + " BatchSize:"@
        + decimal(config.b as nat) + " Iterations:"@ + decimal(config.n as nat) + " Timeout:"@
        + decimal(config.timeout as nat)
}

/// The line that tells what a run is made with: the address, the number of
/// users, the batch size, the number of iterations and the timeout.
pub fn settings_line(config: &Config) -> (line: String)
    ensures
        line@ == settings_text(*config),
{
    let mut out: Vec<char> = Vec::new();
    push_text(&mut out, "Host:");
    push_text(&mut out, config.addr.as_str());
    push_text(&mut out, " Users:");
    push_decimal(&mut out, config.users as u128);
    push_text(&mut out, " BatchSize:");
    push_decimal(&mut out, config.b as u128);
    push_text(&mut out, " Iterations:");
    push_decimal(&mut out, config.n as u128);
    push_text(&mut out, " Timeout:");
    push_decimal(&mut out, config.timeout as u128);
    assert(out@ =~= settings_text(*config));
    string_of(&out)
}

/// The line that tells where the run of a user failed.
pub open spec fn failure_text(label: Seq<char>, error: TransportError) -> Seq<char> {
    match error.stage {
        Stage::Connect => label + ": connection failed"@,
        Stage::Warmup(k) => label + ": warm-up call "@ + decimal(k as nat) + " failed"@,
        Stage::Measure(i) => label + ": call of iteration "@ + decimal(i as nat) + " failed"@,
    }
}

/// The line that tells where the run of the user `label` failed.
pub fn failure_line(label: &str, error: &TransportError) -> (line: String)
    ensures
        line@ == failure_text(label@, *error),
{
    let mut out: Vec<char> = Vec::new();
    push_text(&mut out, label);
    match error.stage {
        Stage::Connect => {
            push_text(&mut out, ": connection failed");
        },
        Stage::Warmup(k) => {
            push_text(&mut out, ": warm-up call ");
            push_decimal(&mut out, k as u128);
            push_text(&mut out, " failed");
        },
        Stage::Measure(i) => {
            push_text(&mut out, ": call of iteration ");
            push_decimal(&mut out, i as u128);
            push_text(&mut out, " failed");
        },
    }
    assert(out@ =~= failure_text(label@, *error));
    string_of(&out)
}

/// The label of the report on the whole test.
pub fn test_label() -> (label: &'static str)
    ensures
        label@ == "TEST"@,
{
    "TEST"
}

/// The label of the user with number `k`.
pub fn user_label(k: usize) -> (label: String)
    ensures
        label@ == user_label_text(k as nat),
{
    let mut chars: Vec<char> = Vec::new();
    push_text(&mut chars, "User");
    push_padded(&mut chars, k as u128, 2, '0');
    assert(chars@ =~= user_label_text(k as nat));
    string_of(&chars)
}

/// A title made of a label and a tail.
fn title_chars(label: &str, tail: &str) -> (title: Vec<char>)
    ensures
        title@ == label@ + tail@,
{
    let mut title: Vec<char> = Vec::new();
    push_text(&mut title, label);
    push_text(&mut title, tail);
    assert(title@ =~= label@ + tail@);
    title
}

/// The lines of an interval report: a rule, the line on the times reported
/// by the service, the line on the round-trip times, and a rule.
pub fn interval_lines(label: &str, report: &IntervalReport) -> (lines: Vec<String>)
    ensures
        lines@.len() == 4,
        lines@[0]@ == rule('-', INTERVAL_RULE as nat),
        lines@[1]@ == stat_line(
            model_title(label@),
            report.at as nat,
            report.model,
            report.elapsed as nat,
        ),
        lines@[2]@ == stat_line(
            total_title(label@),
            report.at as nat,
            report.round_trip,
            report.elapsed as nat,
        ),
        lines@[3]@ == rule('-', INTERVAL_RULE as nat),
{
    let mut bar: Vec<char> = Vec::new();
    push_rule(&mut bar, '-', INTERVAL_RULE);
    assert(bar@ =~= rule('-', INTERVAL_RULE as nat));
    let model = stat_chars(
        &title_chars(label, " > Model"),
        report.at,
        report.elapsed as u128,
        &report.model,
    );
    let total = stat_chars(
        &title_chars(label, " > Total"),
        report.at,
        report.elapsed as u128,
        &report.round_trip,
    );
    let mut lines: Vec<String> = Vec::new();
    lines.push(string_of(&bar));
    lines.push(string_of(&model));
    lines.push(string_of(&total));
    lines.push(string_of(&bar));
    lines
}

/// The statistics over all the samples of a buffer, as a final report gives
/// them: the mean over the number of samples, the success ratio over the
/// number of samples.
pub open spec fn sums_up(stats: WindowStats, samples: Seq<u64>, timeout: nat) -> bool {
    stats.describes(window(samples, 0, samples.len()), samples.len(), samples.len(), timeout)
}

/// The statistics over all the samples of a buffer.
pub fn final_stats(timeout: u64, samples: &Vec<u64>) -> (stats: WindowStats)
    requires
        samples@.len() >= 1,
    ensures
        sums_up(stats, samples@, timeout as nat),
        stats.count == samples@.len(),
{
    let len = samples.len();
    window_stats(len, len, timeout, samples, 0, len)
}

/// The lines of a final report on the metrics of a user or of the whole
/// test: a head, the line on the times reported by the service, the line on
/// the round-trip times, and a rule. Both lines are on all the samples, and
/// their requests a second are taken over the time that the metrics give.
pub fn report(label: &str, config: &Config, metrics: &Metrics) -> (lines: Vec<String>)
    requires
        metrics.lat@.len() >= 1,
        metrics.model_lat@.len() >= 1,
    ensures
        lines@.len() == 4,
        lines@[0]@ == report_head(),
        exists|stats: WindowStats|
            {
                &&& sums_up(stats, metrics.model_lat@, config.timeout as nat)
                &&& lines@[1]@ == stat_line(
                    model_title(label@),
                    metrics.model_lat@.len(),
                    stats,
                    metrics.total_nanos as nat,
                )
            },
        exists|stats: WindowStats|
            {
                &&& sums_up(stats, metrics.lat@, config.timeout as nat)
                &&& lines@[2]@ == stat_line(
                    total_title(label@),
                    metrics.lat@.len(),
                    stats,
                    metrics.total_nanos as nat,
                )
            },
        lines@[3]@ == rule('=', REPORT_RULE as nat),
{
    let mut head: Vec<char> = Vec::new();
    push_text(&mut head, "REPORT ");
    push_rule(&mut head, '=', REPORT_RULE - 7);
    assert(head@ =~= report_head());
    let mut bar: Vec<char> = Vec::new();
    push_rule(&mut bar, '=', REPORT_RULE);
    assert(bar@ =~= rule('=', REPORT_RULE as nat));
    let model_stats = final_stats(config.timeout, &metrics.model_lat);
    let total_stats = final_stats(config.timeout, &metrics.lat);
    let model = stat_chars(
        &title_chars(label, " > Model"),
        metrics.model_lat.len(),
        metrics.total_nanos,
        &model_stats,
    );
    let total = stat_chars(
        &title_chars(label, " > Total"),
        metrics.lat.len(),
        metrics.total_nanos,
        &total_stats,
    );
    let mut lines: Vec<String> = Vec::new();
    lines.push(string_of(&head));
    lines.push(string_of(&model));
    lines.push(string_of(&total));
    lines.push(string_of(&bar));
    lines
}

} // verus!
