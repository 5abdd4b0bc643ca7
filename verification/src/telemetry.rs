use vstd::prelude::*;
use vstd::string::StringSliceAdditionalSpecFns;

use crate::decimal::{decimal_value, parse_u16, unsigned_parse};
use crate::text::{
    bytes_eq_ignore_ascii_case, copy_range, digit_run, digit_run_end, eq_ignore_ascii_case,
    find_bytes, first_occurrence,
    lemma_digit_run_end_bounds, lemma_first_occurrence_from, lemma_index_of_from_absent,
    lemma_index_of_from_at, lemma_number_run_end_bounds, number_run, number_run_end, occurs_at,
    split_bytes, split_on,
};

verus! {

/// `s` read as `str::parse::<u16>` reads it.
pub open spec fn std_u16(s: Seq<u8>) -> Option<u16> {
    match unsigned_parse(s, u16::MAX as int) {
        Some(v) => Some(v as u16),
        None => None,
    }
}

/// The integer written right after the first occurrence of `marker` in `line`:
/// the run of ASCII digits that starts there, when it is not empty and fits in
/// a `u16`.
pub open spec fn u16_after_marker(line: Seq<u8>, marker: Seq<u8>) -> Option<u16> {
    match first_occurrence(line, marker) {
        Some(i) => {
            let start = i + marker.len();
            std_u16(line.subrange(start, digit_run_end(line, start)))
        },
        None => None,
    }
}

/// Both values, when both are there.
pub open spec fn both(a: Option<u16>, b: Option<u16>) -> Option<(u16, u16)> {
    match (a, b) {
        (Some(x), Some(y)) => Some((x, y)),
        _ => None,
    }
}

/// Steering and throttle written as `steer_us:<n>` and `throttle_us:<n>`.
pub open spec fn key_value_pwm(line: Seq<u8>) -> Option<(u16, u16)> {
    both(
        u16_after_marker(line, "steer_us:".spec_bytes()),
        u16_after_marker(line, "throttle_us:".spec_bytes()),
    )
}

/// Steering and throttle written as `steer_pwm_us=<n>` and `throttle_pwm_us=<n>`.
pub open spec fn equals_pwm(line: Seq<u8>) -> Option<(u16, u16)> {
    both(
        u16_after_marker(line, "steer_pwm_us=".spec_bytes()),
        u16_after_marker(line, "throttle_pwm_us=".spec_bytes()),
    )
}

/// Steering and throttle in a CSV record `<time>,controller,<steer>,<throttle>[,...]`,
/// where the event name is matched without regard to ASCII case.
pub open spec fn csv_pwm(line: Seq<u8>) -> Option<(u16, u16)> {
    let columns = split_on(line, 44u8);
    if columns.len() >= 4 && eq_ignore_ascii_case(columns[1], "controller".spec_bytes()) {
        both(std_u16(columns[2]), std_u16(columns[3]))
    } else {
        None
    }
}

/// The steering and throttle pulse widths that a controller telemetry line
/// reports: the key-value form first, then the `=` form, then the CSV form.
pub open spec fn pwm_in_line(line: Seq<u8>) -> Option<(u16, u16)> {
    if key_value_pwm(line) is Some {
        key_value_pwm(line)
    } else if equals_pwm(line) is Some {
        equals_pwm(line)
    } else {
        csv_pwm(line)
    }
}

/// The text of the number written right after the first occurrence of
/// `marker`: the run of digits, `.` and `-` that starts there, when it is not
/// empty.
pub open spec fn number_after_marker(line: Seq<u8>, marker: Seq<u8>) -> Option<Seq<u8>> {
    match first_occurrence(line, marker) {
        Some(i) => {
            let start = i + marker.len();
            let end = number_run_end(line, start);
            if end == start {
                None
            } else {
                Some(line.subrange(start, end))
            }
        },
        None => None,
    }
}

/// The bytes held, when there are any.
pub open spec fn bytes_view(o: Option<Vec<u8>>) -> Option<Seq<u8>> {
    match o {
        Some(v) => Some(v@),
        None => None,
    }
}

/// The integer right after the first `marker` in `line`.
pub fn parse_u16_after_marker(line: &[u8], marker: &str) -> (r: Option<u16>)
    ensures
        r == u16_after_marker(line@, marker.spec_bytes()),
{
    let m = marker.as_bytes();
    let found = find_bytes(line, m);
    match found {
        None => None,
        Some(i) => {
            let start = i + m.len();
            let end = digit_run(line, start);
            proof {
                lemma_digit_run_end_bounds(line@, start as int);
            }
            if end == start {
                assert(line@.subrange(start as int, end as int).len() == 0);
                return None;
            }
            let digits = copy_range(line, start, end);
            parse_u16(digits.as_slice())
        },
    }
}

/// Steering and throttle written as `steer_us:<n>` and `throttle_us:<n>`.
pub fn parse_key_value_pwm(line: &[u8]) -> (r: Option<(u16, u16)>)
    ensures
        r == key_value_pwm(line@),
{
    let steer = parse_u16_after_marker(line, "steer_us:");
    match steer {
        None => None,
        Some(s) => match parse_u16_after_marker(line, "throttle_us:") {
            None => None,
            Some(t) => Some((s, t)),
        },
    }
}

/// Steering and throttle written as `steer_pwm_us=<n>` and `throttle_pwm_us=<n>`.
pub fn parse_equals_pwm(line: &[u8]) -> (r: Option<(u16, u16)>)
    ensures
        r == equals_pwm(line@),
{
    let steer = parse_u16_after_marker(line, "steer_pwm_us=");
    match steer {
        None => None,
        Some(s) => match parse_u16_after_marker(line, "throttle_pwm_us=") {
            None => None,
            Some(t) => Some((s, t)),
        },
    }
}

/// Steering and throttle in a CSV record `<time>,controller,<steer>,<throttle>`.
pub fn parse_csv_pwm(line: &[u8]) -> (r: Option<(u16, u16)>)
    ensures
        r == csv_pwm(line@),
{
    let columns = split_bytes(line, 44u8);
    if columns.len() < 2 {
        return None;
    }
    if !bytes_eq_ignore_ascii_case(columns[1].as_slice(), "controller".as_bytes()) {
        return None;
    }
    if columns.len() < 3 {
        return None;
    }
    let steer = match parse_u16(columns[2].as_slice()) {
        Some(v) => v,
        None => {
            return None;
        },
    };
    if columns.len() < 4 {
        return None;
    }
    let throttle = match parse_u16(columns[3].as_slice()) {
        Some(v) => v,
        None => {
            return None;
        },
    };
    Some((steer, throttle))
}

/// The steering and throttle pulse widths that a controller telemetry line
/// reports, in whichever of the three formats it uses.
pub fn parse_pwm_from_line(line: &[u8]) -> (r: Option<(u16, u16)>)
    ensures
        r == pwm_in_line(line@),
{
    if let Some(pair) = parse_key_value_pwm(line) {
        return Some(pair);
    }
    if let Some(pair) = parse_equals_pwm(line) {
        return Some(pair);
    }
    parse_csv_pwm(line)
}

/// The text of the number right after the first `marker` in `line`; the
/// caller reads it as a floating-point value.
pub fn number_token_after_marker(line: &[u8], marker: &str) -> (r: Option<Vec<u8>>)
    ensures
        bytes_view(r) == number_after_marker(line@, marker.spec_bytes()),
{
    let m = marker.as_bytes();
    match find_bytes(line, m) {
        None => None,
        Some(i) => {
            let start = i + m.len();
            proof {
                lemma_number_run_end_bounds(line@, start as int);
            }
            let end = number_run(line, start);
            if end == start {
                None
            } else {
                Some(copy_range(line, start, end))
            }
        },
    }
}

/// What one line of controller telemetry carries: the pulse widths it
/// reports, and the text of each of the controller's estimates.
pub struct RxLineReport {
    pub pwm: Option<(u16, u16)>,
    /// After `setpoint_mps:`: the angle setpoint.
    pub angle_setpoint: Option<Vec<u8>>,
    /// After `error:`: the steering PID error.
    pub pid_error: Option<Vec<u8>>,
    /// After `kalman0:`: the heading estimate.
    pub heading_estimate: Option<Vec<u8>>,
    /// After `kalman1:`: the heading observer's covariance.
    pub observer_covariance: Option<Vec<u8>>,
    /// After `kalman2:`: the PID proportional term.
    pub pid_p: Option<Vec<u8>>,
    /// After `kalman3:`: the PID derivative term.
    pub pid_d: Option<Vec<u8>>,
    /// After `wall_left_deg:`: the left-wall centering correction.
    pub wall_left_correction: Option<Vec<u8>>,
    /// After `wall_right_deg:`: the right-wall centering correction.
    pub wall_right_correction: Option<Vec<u8>>,
    /// After `wall_combined_deg:`: the combined wall-centering correction.
    pub wall_combined_correction: Option<Vec<u8>>,
}

/// Reads one line of controller telemetry.
pub fn interpret_rx_line(line: &[u8]) -> (r: RxLineReport)
    ensures
        r.pwm == pwm_in_line(line@),
        bytes_view(r.angle_setpoint) == number_after_marker(line@, "setpoint_mps:".spec_bytes()),
        bytes_view(r.pid_error) == number_after_marker(line@, "error:".spec_bytes()),
        bytes_view(r.heading_estimate) == number_after_marker(line@, "kalman0:".spec_bytes()),
        bytes_view(r.observer_covariance) == number_after_marker(line@, "kalman1:".spec_bytes()),
        bytes_view(r.pid_p) == number_after_marker(line@, "kalman2:".spec_bytes()),
        bytes_view(r.pid_d) == number_after_marker(line@, "kalman3:".spec_bytes()),
        bytes_view(r.wall_left_correction) == number_after_marker(
            line@,
            "wall_left_deg:".spec_bytes(),
        ),
        bytes_view(r.wall_right_correction) == number_after_marker(
            line@,
            "wall_right_deg:".spec_bytes(),
        ),
        bytes_view(r.wall_combined_correction) == number_after_marker(
            line@,
            "wall_combined_deg:".spec_bytes(),
        ),
{
    RxLineReport {
        pwm: parse_pwm_from_line(line),
        angle_setpoint: number_token_after_marker(line, "setpoint_mps:"),
        pid_error: number_token_after_marker(line, "error:"),
        heading_estimate: number_token_after_marker(line, "kalman0:"),
        observer_covariance: number_token_after_marker(line, "kalman1:"),
        pid_p: number_token_after_marker(line, "kalman2:"),
        pid_d: number_token_after_marker(line, "kalman3:"),
        wall_left_correction: number_token_after_marker(line, "wall_left_deg:"),
        wall_right_correction: number_token_after_marker(line, "wall_right_deg:"),
        wall_combined_correction: number_token_after_marker(line, "wall_combined_deg:"),
    }
}

/// `s` holds no comma.
pub open spec fn comma_free(s: Seq<u8>) -> bool {
    forall|i: int| 0 <= i < s.len() ==> s[i] != 44u8
}

/// A byte that may be part of the number text after a marker: an ASCII digit,
/// `.` or `-`.
pub open spec fn in_number_text(b: u8) -> bool {
    (48u8 <= b && b <= 57u8) || b == 46u8 || b == 45u8
}

proof fn lemma_split_comma_free(s: Seq<u8>)
    requires
        comma_free(s),
    ensures
        split_on(s, 44u8) == seq![s],
{
    lemma_index_of_from_absent(s, 44u8, 0);
}

proof fn lemma_split_first_column(t: Seq<u8>, rest: Seq<u8>)
    requires
        comma_free(t),
    ensures
        split_on(t + seq![44u8] + rest, 44u8) == seq![t] + split_on(rest, 44u8),
{
    let s = t + seq![44u8] + rest;
    assert forall|i: int| 0 <= i < t.len() implies s[i] != 44u8 by {
        assert(s[i] == t[i]);
    }
    lemma_index_of_from_at(s, 44u8, 0, t.len() as int);
    assert(s.take(t.len() as int) =~= t);
    assert(s.skip(t.len() as int + 1) =~= rest);
}

/// The CSV form never reads its first column, the time stamp: replacing that
/// column by any other text without a comma gives the same answer.
pub proof fn law_csv_ignores_time_column(t1: Seq<u8>, t2: Seq<u8>, rest: Seq<u8>)
    requires
        comma_free(t1),
        comma_free(t2),
    ensures
        csv_pwm(t1 + seq![44u8] + rest) == csv_pwm(t2 + seq![44u8] + rest),
{
    lemma_split_first_column(t1, rest);
    lemma_split_first_column(t2, rest);
    let c1 = split_on(t1 + seq![44u8] + rest, 44u8);
    let c2 = split_on(t2 + seq![44u8] + rest, 44u8);
    assert(c1.len() == c2.len());
    assert(forall|i: int| 1 <= i < c1.len() ==> c1[i] == c2[i]);
}

/// A CSV record `<time>,<event>,<steer>,<throttle>` whose event is
/// `controller` up to ASCII case, and whose two widths are runs of decimal
/// digits of value at most 65535, gives those two values, whatever its time
/// stamp.
pub proof fn law_csv_record_gives_its_widths(t: Seq<u8>, event: Seq<u8>, steer: Seq<u8>, throttle: Seq<u8>)
    requires
        comma_free(t),
        comma_free(event),
        eq_ignore_ascii_case(event, "controller".spec_bytes()),
        steer.len() > 0,
        throttle.len() > 0,
        forall|i: int| 0 <= i < steer.len() ==> 48u8 <= #[trigger] steer[i] <= 57u8,
        forall|i: int| 0 <= i < throttle.len() ==> 48u8 <= #[trigger] throttle[i] <= 57u8,
        decimal_value(steer) <= 65535,
        decimal_value(throttle) <= 65535,
    ensures
        csv_pwm(t + seq![44u8] + event + seq![44u8] + steer + seq![44u8] + throttle) == Some(
            (decimal_value(steer) as u16, decimal_value(throttle) as u16),
        ),
{
    assert(comma_free(steer));
    assert(comma_free(throttle));
    let r3 = throttle;
    let r2 = steer + seq![44u8] + r3;
    let r1 = event + seq![44u8] + r2;
    let line = t + seq![44u8] + r1;
    assert(line =~= t + seq![44u8] + event + seq![44u8] + steer + seq![44u8] + throttle);
    lemma_split_first_column(t, r1);
    lemma_split_first_column(event, r2);
    lemma_split_first_column(steer, r3);
    lemma_split_comma_free(throttle);
    let cols = split_on(line, 44u8);
    assert(cols =~= seq![t, event, steer, throttle]);
    crate::decimal::lemma_decimal_value_nonneg(steer);
    crate::decimal::lemma_decimal_value_nonneg(throttle);
    assert(unsigned_parse(steer, u16::MAX as int) == Some(decimal_value(steer)));
    assert(unsigned_parse(throttle, u16::MAX as int) == Some(decimal_value(throttle)));
}

proof fn lemma_number_run_end_at(s: Seq<u8>, k: int, e: int)
    requires
        0 <= k <= e < s.len(),
        forall|i: int| k <= i < e ==> in_number_text(s[i]),
        !in_number_text(s[e]),
    ensures
        number_run_end(s, k) == e,
    decreases e - k,
{
    if k < e {
        lemma_number_run_end_at(s, k + 1, e);
    }
}

/// A number right after a marker is read up to, and not including, the first
/// byte that is not a digit, `.` or `-`: a line that starts with the marker,
/// then a non-empty run `n` of such bytes, then any other byte, gives exactly
/// `n`.
pub proof fn law_number_text_stops_at_first_other_byte(m: Seq<u8>, n: Seq<u8>, b: u8, rest: Seq<u8>)
    requires
        n.len() > 0,
        forall|i: int| 0 <= i < n.len() ==> in_number_text(#[trigger] n[i]),
        !in_number_text(b),
    ensures
        number_after_marker(m + n + seq![b] + rest, m) == Some(n),
{
    let line = m + n + seq![b] + rest;
    assert(line.subrange(0, m.len() as int) =~= m);
    assert(occurs_at(line, m, 0));
    assert(first_occurrence(line, m) == Some(0int));
    let start = m.len() as int;
    let e = start + n.len();
    assert forall|i: int| start <= i < e implies in_number_text(line[i]) by {
        assert(line[i] == n[i - start]);
    }
    assert(line[e] == b);
    lemma_number_run_end_at(line, start, e);
    assert(line.subrange(start, e) =~= n);
}

/// Whatever the line, the number text after a marker is non-empty, follows an
/// occurrence of the marker, holds only digits, `.` and `-`, and is not
/// followed by another such byte.
pub proof fn law_number_text_is_a_maximal_run(line: Seq<u8>, m: Seq<u8>)
    ensures
        number_after_marker(line, m) matches Some(t) ==> {
            &&& t.len() > 0
            &&& exists|i: int|
                #![trigger occurs_at(line, m, i)]
                occurs_at(line, m, i) && t == line.subrange(i + m.len(), i + m.len() + t.len())
                    && (i + m.len() + t.len() == line.len() || !in_number_text(
                    line[i + m.len() + t.len()],
                ))
            &&& forall|k: int| 0 <= k < t.len() ==> in_number_text(#[trigger] t[k])
        },
{
    lemma_first_occurrence_from(line, m, 0);
    if let Some(i) = first_occurrence(line, m) {
        let start = i + m.len();
        lemma_number_run_end_bounds(line, start);
        lemma_number_run_end_facts(line, start);
        let end = number_run_end(line, start);
        if end != start {
            let t = line.subrange(start, end);
            assert(occurs_at(line, m, i));
            assert forall|k: int| 0 <= k < t.len() implies in_number_text(#[trigger] t[k]) by {
                assert(t[k] == line[start + k]);
            }
        }
    }
}

proof fn lemma_number_run_end_facts(s: Seq<u8>, k: int)
    requires
        0 <= k <= s.len(),
    ensures
        forall|i: int| k <= i < number_run_end(s, k) ==> in_number_text(#[trigger] s[i]),
        number_run_end(s, k) < s.len() ==> !in_number_text(s[number_run_end(s, k)]),
    decreases s.len() - k,
{
    if k < s.len() && crate::text::is_number_byte(s[k]) {
        lemma_number_run_end_facts(s, k + 1);
    }
}

} // verus!
