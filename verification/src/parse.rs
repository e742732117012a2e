//! Parsing the machine-readable progress stream of the external encoding
//! process.
//!
//! The process reports progress as text lines; a line of the form
//! `out_time_us=<integer>` carries the elapsed output time in
//! microseconds. A chunk of such text yields one elapsed-time sample in
//! milliseconds per well-formed progress line.

use vstd::prelude::*;

verus! {

/// Whether `c` is an ASCII decimal digit.
pub open spec fn is_digit_char(c: char) -> bool {
    48 <= c as u32 <= 57
}

/// The value of one ASCII decimal digit.
pub open spec fn digit_value(c: char) -> int
    recommends
        is_digit_char(c),
{
    c as u32 - 48
}

/// Whether every character of `s` is an ASCII decimal digit.
pub open spec fn all_digit_chars(s: Seq<char>) -> bool {
    forall|i: int| 0 <= i < s.len() ==> is_digit_char(#[trigger] s[i])
}

/// The unsigned value of a digit string.
pub open spec fn digits_value(s: Seq<char>) -> int
    decreases s.len(),
{
    if s.len() == 0 {
        0
    } else {
        digits_value(s.drop_last()) * 10 + digit_value(s.last())
    }
}

/// The value a string parses to as a signed 64-bit integer: an optional
/// sign followed by at least one digit, with the value in range; anything
/// else is rejected.
pub open spec fn parse_i64_spec(s: Seq<char>) -> Option<i64> {
    let negative = s.len() > 0 && s[0] == '-';
    let digits = if s.len() > 0 && (s[0] == '-' || s[0] == '+') {
        s.skip(1)
    } else {
        s
    };
    if digits.len() == 0 || !all_digit_chars(digits) {
        None
    } else {
        let value = if negative {
            -digits_value(digits)
        } else {
            digits_value(digits)
        };
        if i64::MIN <= value <= i64::MAX {
            Some(value as i64)
        } else {
            None
        }
    }
}

/// A digit string is worth at least as much as any of its prefixes.
proof fn lemma_digits_value_prefix_le(s: Seq<char>, i: int)
    requires
        0 <= i <= s.len(),
        all_digit_chars(s),
    ensures
        digits_value(s.take(i)) <= digits_value(s),
        digits_value(s) >= 0,
    decreases s.len(), s.len() - i,
{
    if i == s.len() {
        assert(s.take(i) =~= s);
        if s.len() > 0 {
            lemma_digits_value_prefix_le(s.drop_last(), s.len() - 1);
            assert(s.drop_last().take(s.len() - 1) =~= s.drop_last());
        }
    } else {
        lemma_digits_value_prefix_le(s, i + 1);
        let t = s.take(i + 1);
        assert(t.drop_last() =~= s.take(i));
        assert(digits_value(s.take(i + 1)) == digits_value(s.take(i)) * 10 + digit_value(s[i]));
        lemma_digits_value_prefix_le(s.take(i), i);
        assert(s.take(i).take(i) =~= s.take(i));
        assert(digits_value(s.take(i)) >= 0);
        assert(digits_value(s.take(i)) * 10 >= digits_value(s.take(i))) by (nonlinear_arith)
            requires
                digits_value(s.take(i)) >= 0,
        ;
    }
}

/// Parse a signed 64-bit integer, exactly as `parse_i64_spec` says.
pub fn parse_i64(s: &str) -> (r: Option<i64>)
    ensures
        r == parse_i64_spec(s@),
{
    let n = s.unicode_len();
    let mut start: usize = 0;
    let mut negative = false;
    if n > 0 {
        let first = s.get_char(0);
        if first == '-' {
            negative = true;
            start = 1;
        } else if first == '+' {
            start = 1;
        }
    }
    let ghost digits = if start == 1 {
        s@.skip(1)
    } else {
        s@
    };
    if start >= n {
        return None;
    }
    let mut acc: i128 = 0;
    let mut i: usize = start;
    while i < n
        invariant
            start <= i <= n,
            n == s@.len(),
            start <= 1,
            start == 1 <==> s@.len() > 0 && (s@[0] == '-' || s@[0] == '+'),
            negative <==> s@.len() > 0 && s@[0] == '-',
            digits == s@.skip(start as int),
            digits == (if s@.len() > 0 && (s@[0] == '-' || s@[0] == '+') {
                s@.skip(1)
            } else {
                s@
            }),
            all_digit_chars(s@.skip(start as int).take(i - start)),
            acc == digits_value(s@.skip(start as int).take(i - start)),
            0 <= acc <= 0x8000_0000_0000_0000i128,
        decreases n - i,
    {
        let c = s.get_char(i);
        let v = c as u32;
        if v < 48 || v > 57 {
            proof {
                assert(digits[i - start] == s@[i as int]);
                assert(!is_digit_char(digits[i - start]));
                assert(!all_digit_chars(digits));
            }
            return None;
        }
        proof {
            assert(s@.skip(start as int).take(i + 1 - start).drop_last() =~= s@.skip(
                start as int,
            ).take(i - start));
            assert(s@.skip(start as int).take(i + 1 - start).last() == s@[i as int]);
            assert(is_digit_char(s@[i as int]));
            assert(digit_value(s@[i as int]) == v - 48);
        }
        acc = acc * 10 + ((v - 48) as i128);
        proof {
            assert(acc == digits_value(s@.skip(start as int).take(i + 1 - start)));
        }
        if acc > 0x8000_0000_0000_0000i128 {
            proof {
                assert(s@.skip(start as int).take(i + 1 - start) =~= digits.take(i + 1 - start));
                if all_digit_chars(digits) {
                    lemma_digits_value_prefix_le(digits, i + 1 - start);
                    assert(digits_value(digits) >= acc);
                    assert(digits_value(digits) > 0x8000_0000_0000_0000);
                    assert(parse_i64_spec(s@) is None);
                } else {
                    assert(parse_i64_spec(s@) is None);
                }
            }
            return None;
        }
        i += 1;
    }
    proof {
        assert(s@.skip(start as int).take(n - start) =~= digits);
    }
    if negative {
        if acc == 0x8000_0000_0000_0000i128 {
            Some(i64::MIN)
        } else {
            Some(-(acc as i64))
        }
    } else {
        if acc == 0x8000_0000_0000_0000i128 {
            None
        } else {
            Some(acc as i64)
        }
    }
}

/// Whether the pattern `m` occurs in `h` starting at position `pos`.
pub open spec fn matches_at(h: Seq<char>, m: Seq<char>, pos: int) -> bool {
    0 <= pos && pos + m.len() <= h.len() && h.subrange(pos, pos + m.len()) =~= m
}

/// The first position at or after `i` where `m` occurs in `h`.
pub open spec fn first_match_from(h: Seq<char>, m: Seq<char>, i: int) -> Option<int>
    decreases h.len() - i,
{
    if i < 0 || i + m.len() > h.len() {
        None
    } else if matches_at(h, m, i) {
        Some(i)
    } else {
        first_match_from(h, m, i + 1)
    }
}

/// Find the first occurrence of `marker` in `s`, returning the position
/// just past it.
pub fn find_after_marker(s: &str, marker: &str) -> (r: Option<usize>)
    requires
        marker@.len() >= 1,
    ensures
        r matches Some(p) ==> {
            &&& first_match_from(s@, marker@, 0) == Some(p - marker@.len())
            &&& marker@.len() <= p <= s@.len()
        },
        r is None ==> first_match_from(s@, marker@, 0) is None,
{
    let n = s.unicode_len();
    let m = marker.unicode_len();
    if m > n {
        return None;
    }
    let mut i: usize = 0;
    while i <= n - m
        invariant
            n == s@.len(),
            m == marker@.len(),
            1 <= m <= n,
            0 <= i <= n - m + 1,
            first_match_from(s@, marker@, 0) == first_match_from(s@, marker@, i as int),
        decreases n - i,
    {
        let mut j: usize = 0;
        while j < m && s.get_char(i + j) == marker.get_char(j)
            invariant
                n == s@.len(),
                m == marker@.len(),
                i <= n - m,
                0 <= j <= m,
                forall|k: int| 0 <= k < j ==> s@[i + k] == marker@[k],
            decreases m - j,
        {
            j += 1;
        }
        if j == m {
            proof {
                assert(s@.subrange(i as int, i + m) =~= marker@);
                assert(matches_at(s@, marker@, i as int));
            }
            return Some(i + m);
        }
        proof {
            assert(s@[i + j] != marker@[j as int]);
            assert(!matches_at(s@, marker@, i as int)) by {
                if matches_at(s@, marker@, i as int) {
                    assert(s@.subrange(i as int, i + m)[j as int] == s@[i + j]);
                }
            }
            assert(first_match_from(s@, marker@, i as int) == first_match_from(
                s@,
                marker@,
                i + 1,
            ));
        }
        i += 1;
    }
    proof {
        assert(first_match_from(s@, marker@, i as int) is None);
    }
    None
}

/// A first match lies within bounds and matches the pattern.
proof fn lemma_first_match_bounds(h: Seq<char>, m: Seq<char>, i: int)
    ensures
        first_match_from(h, m, i) matches Some(p) ==> i <= p && 0 <= p && p + m.len() <= h.len()
            && matches_at(h, m, p),
    decreases h.len() - i,
{
    if !(i < 0 || i + m.len() > h.len()) && !matches_at(h, m, i) {
        lemma_first_match_bounds(h, m, i + 1);
    }
}

/// Where the first newline of `h` at or after `i` sits, from a scan that
/// found no newline before `j`.
proof fn lemma_first_newline_from(h: Seq<char>, i: int, j: int)
    requires
        0 <= i <= j <= h.len(),
        forall|k: int| i <= k < j ==> h[k] != '\n',
        j == h.len() || h[j] == '\n',
    ensures
        first_match_from(h, seq!['\n'], i) == if j == h.len() {
            Option::<int>::None
        } else {
            Option::<int>::Some(j)
        },
    decreases j - i,
{
    if i < h.len() {
        assert(h.subrange(i, i + 1) =~= seq![h[i]]);
        if i == j {
        } else {
            assert(!matches_at(h, seq!['\n'], i)) by {
                assert(h.subrange(i, i + 1)[0] == h[i]);
                assert(seq!['\n'][0] == '\n');
            }
            lemma_first_newline_from(h, i + 1, j);
        }
    }
}

/// Division by 1000 rounding toward zero, as machine division does.
pub open spec fn div_1000_toward_zero(us: int) -> int {
    if us >= 0 {
        us / 1000
    } else {
        -((-us) / 1000)
    }
}

/// The elapsed-time sample a progress line carries: the integer after the
/// first `out_time_us=` marker, converted from microseconds to whole
/// milliseconds. A line without the marker, or whose remainder is not an
/// integer, carries no sample.
pub open spec fn out_time_ms_of_line(line: Seq<char>) -> Option<i64> {
    match first_match_from(line, "out_time_us="@, 0) {
        None => None,
        Some(p) => match parse_i64_spec(line.skip(p + "out_time_us="@.len())) {
            None => None,
            Some(us) => Some(div_1000_toward_zero(us as int) as i64),
        },
    }
}

/// Extract the elapsed-time sample of one progress line, in milliseconds.
pub fn find_out_time(line: &str) -> (r: Option<i64>)
    ensures
        r == out_time_ms_of_line(line@),
{
    proof {
        reveal_strlit("out_time_us=");
    }
    let after = match find_after_marker(line, "out_time_us=") {
        None => {
            return None;
        },
        Some(p) => p,
    };
    let rest = line.substring_char(after, line.unicode_len());
    proof {
        assert(rest@ =~= line@.skip(
            first_match_from(line@, "out_time_us="@, 0)->Some_0 + "out_time_us="@.len(),
        ));
    }
    let us = match parse_i64(rest) {
        None => {
            return None;
        },
        Some(us) => us,
    };
    let negative = us < 0;
    let magnitude: u64 = if us == i64::MIN {
        0x8000_0000_0000_0000u64
    } else if negative {
        (-us) as u64
    } else {
        us as u64
    };
    let q = magnitude / 1000;
    proof {
        vstd::arithmetic::div_mod::lemma_div_is_ordered(
            q as int,
            0x8000_0000_0000_0000int,
            1000,
        );
        vstd::arithmetic::div_mod::lemma_div_is_ordered(
            magnitude as int,
            0x8000_0000_0000_0000int,
            1000,
        );
    }
    if negative {
        Some(-(q as i64))
    } else {
        Some(q as i64)
    }
}

/// The final `'\r'` of a line, if any, is not part of its content.
pub open spec fn strip_cr(line: Seq<char>) -> Seq<char> {
    if line.len() > 0 && line.last() == '\r' {
        line.drop_last()
    } else {
        line
    }
}

/// The elapsed-time samples carried by a chunk of progress text: one per
/// line that `out_time_ms_of_line` accepts, in order. Lines end at `'\n'`
/// (with a preceding `'\r'` stripped); the text after the last newline is
/// the final line.
pub open spec fn chunk_times(s: Seq<char>) -> Seq<i64>
    decreases s.len(),
    via chunk_times_decreases
{
    if s.len() == 0 {
        Seq::empty()
    } else {
        match first_match_from(s, seq!['\n'], 0) {
            None => opt_time_seq(out_time_ms_of_line(strip_cr(s))),
            Some(i) => opt_time_seq(out_time_ms_of_line(strip_cr(s.take(i)))) + chunk_times(
                s.skip(i + 1),
            ),
        }
    }
}

/// The zero- or one-element sequence a parse result contributes.
pub open spec fn opt_time_seq(o: Option<i64>) -> Seq<i64> {
    match o {
        None => Seq::empty(),
        Some(v) => seq![v],
    }
}

#[via_fn]
proof fn chunk_times_decreases(s: Seq<char>) {
    lemma_first_match_bounds(s, seq!['\n'], 0);
}

/// Collect the elapsed-time samples of one chunk of progress text.
pub fn progress_times_in_chunk(text: &str) -> (times: Vec<i64>)
    ensures
        times@ == chunk_times(text@),
{
    let n = text.unicode_len();
    let mut times: Vec<i64> = Vec::new();
    let mut pos: usize = 0;
    proof {
        assert(text@.skip(0) =~= text@);
        assert(Seq::<i64>::empty() + chunk_times(text@) =~= chunk_times(text@));
    }
    while pos < n
        invariant
            n == text@.len(),
            0 <= pos <= n,
            chunk_times(text@) == times@ + chunk_times(text@.skip(pos as int)),
        decreases n - pos,
    {
        let ghost suffix = text@.skip(pos as int);
        let mut line_break: usize = pos;
        while line_break < n && text.get_char(line_break) != '\n'
            invariant
                n == text@.len(),
                pos <= line_break <= n,
                forall|k: int| pos <= k < line_break ==> text@[k] != '\n',
            decreases n - line_break,
        {
            line_break += 1;
        }
        proof {
            assert forall|k: int| 0 <= k < line_break - pos implies suffix[k] != '\n' by {
                assert(suffix[k] == text@[pos + k]);
            }
            if line_break < n {
                assert(suffix[line_break - pos] == text@[line_break as int]);
            }
            lemma_first_newline_from(suffix, 0, line_break - pos);
        }
        let line_end = if line_break > pos && text.get_char(line_break - 1) == '\r' {
            line_break - 1
        } else {
            line_break
        };
        let line = text.substring_char(pos, line_end);
        proof {
            let raw = if line_break == n {
                suffix
            } else {
                suffix.take(line_break - pos)
            };
            assert(raw =~= text@.subrange(pos as int, line_break as int));
            if line_break > pos && text@[line_break - 1] == '\r' {
                assert(raw.last() == '\r');
                assert(line@ =~= strip_cr(raw));
            } else {
                assert(line@ =~= strip_cr(raw));
            }
        }
        let ghost times_before = times@;
        let parsed = find_out_time(line);
        match parsed {
            None => {
            },
            Some(t) => {
                times.push(t);
            },
        }
        proof {
            assert(times@ =~= times_before + opt_time_seq(parsed));
        }
        if line_break == n {
            proof {
                assert(chunk_times(suffix) == opt_time_seq(out_time_ms_of_line(strip_cr(suffix))));
                assert(text@.skip(n as int) =~= Seq::<char>::empty());
                assert(times@ + chunk_times(text@.skip(n as int)) =~= times@);
                assert(chunk_times(text@) =~= times@ + chunk_times(text@.skip(n as int)));
            }
            pos = n;
        } else {
            proof {
                let i = line_break - pos;
                assert(chunk_times(suffix) == opt_time_seq(
                    out_time_ms_of_line(strip_cr(suffix.take(i))),
                ) + chunk_times(suffix.skip(i + 1)));
                assert(suffix.skip(i + 1) =~= text@.skip(line_break + 1));
                assert(chunk_times(text@) =~= times@ + chunk_times(text@.skip(line_break + 1)));
            }
            pos = line_break + 1;
        }
    }
    proof {
        assert(text@.skip(pos as int) =~= Seq::<char>::empty());
        assert(chunk_times(text@) =~= times@);
    }
    times
}

} // verus!
