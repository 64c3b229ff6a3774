//! Owner-local counters.

use crate::text;
use vstd::prelude::*;
use vstd::string::StringExecFns;

verus! {

/// Owner-local counters exported by the admin server. They are counted through a
/// unique reference: whoever shares them between tasks holds them in a lock.
#[derive(Debug)]
pub struct Metrics {
    requests_total: u64,
    upstream_errors_total: u64,
}

/// A counter after one more event: it wraps round at the end of its range.
pub open spec fn counted(count: u64) -> u64 {
    if count == u64::MAX {
        0
    } else {
        (count + 1) as u64
    }
}

/// A counter after `times` more events.
pub open spec fn counted_times(count: u64, times: nat) -> u64
    decreases times,
{
    if times == 0 {
        count
    } else {
        counted(counted_times(count, (times - 1) as nat))
    }
}

/// The metrics page for the two counts.
pub open spec fn metrics_text(requests_total: u64, upstream_errors_total: u64) -> Seq<char> {
    "requests_total "@ + text::decimal(requests_total as nat) + "\nupstream_errors_total "@ + text::decimal(
        upstream_errors_total as nat,
    ) + "\n"@
}

impl Default for Metrics {
    /// Counters that have counted nothing yet.
    fn default() -> (metrics: Metrics)
        ensures
            metrics.requests() == 0,
            metrics.upstream_errors() == 0,
    {
        Metrics { requests_total: 0, upstream_errors_total: 0 }
    }
}

impl Metrics {
    /// The requests counted so far, modulo the counter's range.
    pub closed spec fn requests(&self) -> u64 {
        self.requests_total
    }

    /// The upstream errors counted so far, modulo the counter's range.
    pub closed spec fn upstream_errors(&self) -> u64 {
        self.upstream_errors_total
    }

    /// Increments the proxied request counter. The counter wraps round at the
    /// end of its range.
    pub fn increment_requests_total(&mut self)
        ensures
            final(self).requests() == counted(old(self).requests()),
            final(self).upstream_errors() == old(self).upstream_errors(),
    {
        self.requests_total = self.requests_total.wrapping_add(1);
    }

    /// Increments the upstream error counter. The counter wraps round at the
    /// end of its range.
    pub fn increment_upstream_errors_total(&mut self)
        ensures
            final(self).requests() == old(self).requests(),
            final(self).upstream_errors() == counted(old(self).upstream_errors()),
    {
        self.upstream_errors_total = self.upstream_errors_total.wrapping_add(1);
    }

    /// Renders the metrics endpoint body.
    pub fn render(&self) -> (page: String)
        ensures
            page@ == metrics_text(self.requests(), self.upstream_errors()),
    {
        let mut page = "requests_total ".to_owned();
        text::append_decimal(&mut page, self.requests_total);
        page.append("\nupstream_errors_total ");
        text::append_decimal(&mut page, self.upstream_errors_total);
        page.append("\n");
        page
    }
}

/// One more event counts one more, modulo the counter's range.
pub(crate) proof fn lemma_counted_is_one_more(count: u64, total: int)
    requires
        total >= 0,
        count == total % 0x1_0000_0000_0000_0000,
    ensures
        counted(count) == (total + 1) % 0x1_0000_0000_0000_0000,
{
}

/// Increments add up: any number of them, from any count, adds that number
/// modulo the counter's range. None is lost, and none stops at the end of the
/// range.
pub proof fn increments_add_up(count: u64, times: nat)
    ensures
        counted_times(count, times) == (count + times) % 0x1_0000_0000_0000_0000,
    decreases times,
{
    if times > 0 {
        increments_add_up(count, (times - 1) as nat);
        lemma_counted_is_one_more(counted_times(count, (times - 1) as nat), count + times - 1);
    }
}

/// Two numbers in decimal, each followed by a line end and more text, agree
/// only where the numbers and the texts do.
proof fn lemma_decimal_line_splits(a: nat, b: nat, after_a: Seq<char>, after_b: Seq<char>)
    requires
        text::decimal(a).push('\n') + after_a == text::decimal(b).push('\n') + after_b,
    ensures
        a == b,
        after_a == after_b,
{
    text::lemma_decimal_reads_back(a);
    text::lemma_decimal_reads_back(b);
    let left = text::decimal(a);
    let right = text::decimal(b);
    let whole_left = left.push('\n') + after_a;
    let whole_right = right.push('\n') + after_b;
    if left.len() < right.len() {
        assert(whole_left[left.len() as int] == '\n');
        assert(whole_right[left.len() as int] == right[left.len() as int]);
    } else if right.len() < left.len() {
        assert(whole_right[right.len() as int] == '\n');
        assert(whole_left[right.len() as int] == left[right.len() as int]);
    }
    assert(whole_left.take(left.len() as int) =~= left);
    assert(whole_right.take(right.len() as int) =~= right);
    assert(whole_left.skip(left.len() as int + 1) =~= after_a);
    assert(whole_right.skip(right.len() as int + 1) =~= after_b);
}

/// The metrics page tells both counts: pages that agree show the same counts.
pub proof fn page_determines_counts(requests: u64, errors: u64, other_requests: u64, other_errors: u64)
    requires
        metrics_text(requests, errors) == metrics_text(other_requests, other_errors),
    ensures
        requests == other_requests,
        errors == other_errors,
{
    reveal_strlit("requests_total ");
    reveal_strlit("\nupstream_errors_total ");
    reveal_strlit("\n");
    let head = "requests_total "@;
    let label = "\nupstream_errors_total "@.skip(1);
    let tail = label + text::decimal(errors as nat).push('\n');
    let other_tail = label + text::decimal(other_errors as nat).push('\n');
    let page = metrics_text(requests, errors);
    assert("\nupstream_errors_total "@ =~= seq!['\n'] + label);
    assert("\n"@ =~= seq!['\n']);
    assert(page.skip(head.len() as int) =~= text::decimal(requests as nat).push('\n') + tail);
    assert(page.skip(head.len() as int) =~= text::decimal(other_requests as nat).push('\n') + other_tail);
    lemma_decimal_line_splits(requests as nat, other_requests as nat, tail, other_tail);
    assert(tail.skip(label.len() as int) =~= text::decimal(errors as nat).push('\n') + Seq::empty());
    assert(tail.skip(label.len() as int) =~= text::decimal(other_errors as nat).push('\n') + Seq::empty());
    lemma_decimal_line_splits(errors as nat, other_errors as nat, Seq::empty(), Seq::empty());
}

/// The page, character by character: two lines, each the name of a counter, a
/// space, and the count in decimal digits without a zero in front.
pub proof fn page_shows_the_counts_in_decimal(
    requests: u64,
    errors: u64,
    request_digits: Seq<char>,
    request_sums: Seq<int>,
    error_digits: Seq<char>,
    error_sums: Seq<int>,
)
    requires
        request_digits.len() > 0,
        request_digits.len() > 1 ==> request_digits[0] != '0',
        text::are_sums(request_sums, request_digits),
        request_sums.last() == requests,
        error_digits.len() > 0,
        error_digits.len() > 1 ==> error_digits[0] != '0',
        text::are_sums(error_sums, error_digits),
        error_sums.last() == errors,
    ensures
        metrics_text(requests, errors) == seq![
            'r', 'e', 'q', 'u', 'e', 's', 't', 's', '_', 't', 'o', 't', 'a', 'l', ' ',
        ] + request_digits + seq![
            '\n', 'u', 'p', 's', 't', 'r', 'e', 'a', 'm', '_', 'e', 'r', 'r', 'o', 'r', 's', '_', 't', 'o', 't', 'a',
            'l', ' ',
        ] + error_digits + seq!['\n'],
{
    reveal_strlit("requests_total ");
    reveal_strlit("\nupstream_errors_total ");
    reveal_strlit("\n");
    text::number_is_written_in_one_way(requests as nat, request_digits, request_sums);
    text::number_is_written_in_one_way(errors as nat, error_digits, error_sums);
    assert("requests_total "@ =~= seq!['r', 'e', 'q', 'u', 'e', 's', 't', 's', '_', 't', 'o', 't', 'a', 'l', ' ']);
    assert("\nupstream_errors_total "@ =~= seq![
        '\n', 'u', 'p', 's', 't', 'r', 'e', 'a', 'm', '_', 'e', 'r', 'r', 'o', 'r', 's', '_', 't', 'o', 't', 'a', 'l',
        ' ',
    ]);
    assert("\n"@ =~= seq!['\n']);
}

} // verus!
