//! Configuration model: discovered service commands, parsed crontab
//! entries, and the resolved shell path.

use vstd::prelude::*;

use crate::error::{CronFieldError, CronParseError, WingmateInitError};
use vstd::arithmetic::div_mod::{lemma_fundamental_div_mod, lemma_mod_multiples_basic};
use crate::scan::{
    after_fields, all_digits, digits_value, field_at, first_token, is_u8_digits, is_ws_char,
    lemma_digits_value_nonneg, lemma_piece_len_spec, parse_u8_range, piece_end_at, piece_len,
    skip_token, skip_token_at, skip_ws, skip_ws_at, split_on, trim_end, trim_end_at,
};

verus! {

/// The grace period, in seconds, between TERM and KILL, both for a
/// single supervised child and for the broadcast shutdown pump.
pub const MAX_TERM_WAIT_TIME_SECS: u64 = 5;

/// How a discovered service file is to be executed: directly (the file is
/// executable) or as the single argument of the resolved shell.
#[derive(Debug, Clone)]
pub enum Command {
    ShellPrefixed(String),
    Direct(String),
}

/// The match predicate for one of the five crontab time fields.
#[derive(Debug, Clone)]
pub enum CronTimeFieldSpec {
    Any,
    Exact(u8),
    MultiOccurrence(Vec<u8>),
}

/// What a field spec accepts: `Any` accepts every value, `Exact(x)` only
/// `x`, and `MultiOccurrence(v)` any value listed in `v`.
pub open spec fn spec_field_matches(f: CronTimeFieldSpec, current: u8) -> bool {
    match f {
        CronTimeFieldSpec::Any => true,
        CronTimeFieldSpec::Exact(x) => x == current,
        CronTimeFieldSpec::MultiOccurrence(v) => v@.contains(current),
    }
}

/// The field text is exactly `*`.
pub open spec fn field_is_star(f: Seq<char>) -> bool {
    f.len() == 1 && f[0] == '*'
}

/// The field text starts with `*/`.
pub open spec fn field_is_step(f: Seq<char>) -> bool {
    f.len() >= 2 && f[0] == '*' && f[1] == '/'
}

/// The field text contains a comma.
pub open spec fn field_has_comma(f: Seq<char>) -> bool {
    exists|i: int| 0 <= i < f.len() && f[i] == ','
}

/// `v` lists every positive multiple of `k` below `max`, in order.
pub open spec fn is_multiples_upto(v: Seq<u8>, k: u8, max: u8) -> bool {
    &&& forall|i: int|
        0 <= i < v.len() ==> (#[trigger] v[i]) as int == (i + 1) * (k as int) && v[i] < max
    &&& (v.len() + 1) * (k as int) >= max as int
}

/// Values of a comma-separated list of pieces, or the error of the first
/// piece that is not a number below `max`.
pub open spec fn spec_parse_pieces(ps: Seq<Seq<char>>, max: u8) -> Result<Seq<u8>, CronFieldError>
    decreases ps.len(),
{
    if ps.len() == 0 {
        Ok(Seq::empty())
    } else if !is_u8_digits(ps[0]) {
        Err(CronFieldError::BadNumber)
    } else if digits_value(ps[0]) >= max as int {
        Err(CronFieldError::OutOfRange)
    } else {
        match spec_parse_pieces(ps.drop_first(), max) {
            Ok(rest) => Ok(seq![digits_value(ps[0]) as u8] + rest),
            Err(e) => Err(e),
        }
    }
}

/// Whether a field text parses against modulus `max`.
pub open spec fn field_parses(f: Seq<char>, max: u8) -> bool {
    if field_is_star(f) {
        true
    } else if field_is_step(f) {
        is_u8_digits(f.skip(2)) && 1 <= digits_value(f.skip(2)) < max as int
    } else if field_has_comma(f) {
        spec_parse_pieces(split_on(f, ','), max) is Ok
    } else {
        is_u8_digits(f) && digits_value(f) < max as int
    }
}

/// The error reported for a field text that does not parse.
pub open spec fn field_error(f: Seq<char>, max: u8) -> CronFieldError
    recommends
        !field_parses(f, max),
{
    if field_is_step(f) {
        if !is_u8_digits(f.skip(2)) {
            CronFieldError::BadNumber
        } else {
            CronFieldError::OutOfRange
        }
    } else if field_has_comma(f) {
        match spec_parse_pieces(split_on(f, ','), max) {
            Ok(_) => CronFieldError::BadNumber,
            Err(e) => e,
        }
    } else {
        if !is_u8_digits(f) {
            CronFieldError::BadNumber
        } else {
            CronFieldError::OutOfRange
        }
    }
}

/// The field spec that a successfully parsed field text denotes.
pub open spec fn is_parsed_field(f: Seq<char>, max: u8, sp: CronTimeFieldSpec) -> bool
    recommends
        field_parses(f, max),
{
    if field_is_star(f) {
        sp == CronTimeFieldSpec::Any
    } else if field_is_step(f) {
        sp matches CronTimeFieldSpec::MultiOccurrence(v) && is_multiples_upto(
            v@,
            digits_value(f.skip(2)) as u8,
            max,
        )
    } else if field_has_comma(f) {
        sp matches CronTimeFieldSpec::MultiOccurrence(v) && spec_parse_pieces(split_on(f, ','), max)
            == Ok::<Seq<u8>, CronFieldError>(v@)
    } else {
        sp == CronTimeFieldSpec::Exact(digits_value(f) as u8)
    }
}

/// Parse a comma-separated list of field values, each of which must be a
/// number below `max`; mirrors splitting on `,` and parsing each piece.
fn parse_piece_list(s: &str, max: u8) -> (r: Result<Vec<u8>, CronFieldError>)
    ensures
        (match spec_parse_pieces(split_on(s@, ','), max) {
            Ok(vals) => r matches Ok(v) && v@ == vals,
            Err(e) => r matches Err(e2) && e2 == e,
        }),
{
    let len = s.unicode_len();
    let mut acc: Vec<u8> = Vec::new();
    let mut i: usize = 0;
    proof {
        assert(s@.skip(0) =~= s@);
    }
    loop
        invariant
            i <= len,
            len == s@.len(),
            (match spec_parse_pieces(split_on(s@.skip(i as int), ','), max) {
                Ok(rest) => spec_parse_pieces(split_on(s@, ','), max) matches Ok(vals) && vals =~= acc@
                    + rest,
                Err(e) => spec_parse_pieces(split_on(s@, ','), max) == Err::<Seq<u8>,
                    CronFieldError,
                >(e),
            }),
        decreases len - i,
    {
        let e = piece_end_at(s, i, ',');
        let ghost tail = s@.skip(i as int);
        let ghost p = s@.subrange(i as int, e as int);
        proof {
            assert(piece_len(tail, ',') == e - i);
            if e < len {
                assert(tail.take(e - i) =~= p);
                assert(tail.skip(e - i + 1) =~= s@.skip(e + 1));
                assert(split_on(tail, ',') == seq![p] + split_on(s@.skip(e + 1), ','));
                assert((seq![p] + split_on(s@.skip(e + 1), ','))[0] == p);
                assert((seq![p] + split_on(s@.skip(e + 1), ',')).drop_first() =~= split_on(
                    s@.skip(e + 1),
                    ',',
                ));
            } else {
                assert(piece_len(tail, ',') >= tail.len());
                assert(split_on(tail, ',') == seq![tail]);
                assert(p =~= tail);
                assert((seq![tail]).drop_first() =~= Seq::<Seq<char>>::empty());
            }
        }
        match parse_u8_range(s, i, e) {
            None => {
                return Err(CronFieldError::BadNumber);
            },
            Some(n) => {
                if n >= max {
                    return Err(CronFieldError::OutOfRange);
                }
                acc.push(n);
                proof {
                    if e == len {
                        assert(spec_parse_pieces(Seq::<Seq<char>>::empty(), max) == Ok::<Seq<u8>,
                            CronFieldError,
                        >(Seq::<u8>::empty()));
                        assert(is_u8_digits(tail) && digits_value(tail) == n as int);
                        assert(spec_parse_pieces(split_on(tail, ','), max) == Ok::<Seq<u8>,
                            CronFieldError,
                        >(seq![n] + Seq::<u8>::empty()));
                        assert(seq![n] + Seq::<u8>::empty() =~= seq![n]);
                    }
                }
                if e == len {
                    return Ok(acc);
                }
                i = e + 1;
            },
        }
    }
}

/// Parse one crontab time field against its modulus `max`.
///
/// `*` accepts anything; `*/k` expands to the positive multiples of `k`
/// below `max` (a step of zero is rejected, as no finite expansion
/// exists for it); `a,b,c` lists values; a bare number must equal the
/// current value. Any numeric component at or above `max` is rejected.
pub fn parse_cron_field(field: &str, max: u8) -> (r: Result<CronTimeFieldSpec, CronFieldError>)
    ensures
        (match r {
            Ok(sp) => field_parses(field@, max) && is_parsed_field(field@, max, sp),
            Err(e) => !field_parses(field@, max) && e == field_error(field@, max),
        }),
{
    let len = field.unicode_len();
    if len == 1 && field.get_char(0) == '*' {
        return Ok(CronTimeFieldSpec::Any);
    }
    if len >= 2 && field.get_char(0) == '*' && field.get_char(1) == '/' {
        proof {
            assert(field@.subrange(2, len as int) =~= field@.skip(2));
        }
        match parse_u8_range(field, 2, len) {
            None => {
                return Err(CronFieldError::BadNumber);
            },
            Some(k) => {
                if k == 0 || k >= max {
                    return Err(CronFieldError::OutOfRange);
                }
                let mut v: Vec<u8> = Vec::new();
                let mut next: u16 = k as u16;
                proof {
                    assert(v@.len() == 0);
                    assert((0 + 1) * (k as int) == k as int) by (nonlinear_arith);
                }
                while next < max as u16
                    invariant
                        1 <= k < max,
                        v@.len() < max,
                        next as int == (v@.len() + 1) * (k as int),
                        forall|i: int|
                            0 <= i < v@.len() ==> (#[trigger] v@[i]) as int == (i + 1) * (
                            k as int) && v@[i] < max,
                    decreases max as int - v@.len(),
                {
                    proof {
                        assert((v@.len() + 1) * (k as int) >= v@.len() + 1) by (nonlinear_arith)
                            requires
                                k as int >= 1,
                                v@.len() >= 0,
                        ;
                        assert((v@.len() + 2) * (k as int) == (v@.len() + 1) * (k as int) + (
                        k as int)) by (nonlinear_arith);
                    }
                    v.push(next as u8);
                    next = next + k as u16;
                }
                return Ok(CronTimeFieldSpec::MultiOccurrence(v));
            },
        }
    }
    let e = piece_end_at(field, 0, ',');
    proof {
        assert(field@.skip(0) =~= field@);
        lemma_piece_len_spec(field@, ',');
        if e < len {
            assert(field_has_comma(field@));
        } else {
            assert(forall|i: int| 0 <= i < field@.len() ==> field@[i] != ',');
        }
    }
    if e < len {
        match parse_piece_list(field, max) {
            Ok(v) => Ok(CronTimeFieldSpec::MultiOccurrence(v)),
            Err(er) => Err(er),
        }
    } else {
        proof {
            assert(field@.subrange(0, len as int) =~= field@);
        }
        match parse_u8_range(field, 0, len) {
            None => Err(CronFieldError::BadNumber),
            Some(n) => {
                if n >= max {
                    Err(CronFieldError::OutOfRange)
                } else {
                    Ok(CronTimeFieldSpec::Exact(n))
                }
            },
        }
    }
}

/// One crontab entry: five time field specs and the command to run.
#[derive(Debug, Clone)]
pub struct Crontab {
    pub minute: CronTimeFieldSpec,
    pub hour: CronTimeFieldSpec,
    pub day_of_month: CronTimeFieldSpec,
    pub month: CronTimeFieldSpec,
    pub day_of_week: CronTimeFieldSpec,
    pub command: String,
}

/// The line holds only whitespace.
pub open spec fn line_is_blank(s: Seq<char>) -> bool {
    skip_ws(s).len() == 0
}

/// The line has five whitespace-separated fields followed by a command.
pub open spec fn line_shape_ok(s: Seq<char>) -> bool {
    &&& !line_is_blank(s)
    &&& (forall|j: nat| j < 5 ==> (#[trigger] field_at(s, j)).len() > 0)
    &&& after_fields(s, 5).len() > 0
}

/// The modulus of the `j`-th crontab time field.
pub open spec fn cron_modulus(j: int) -> u8 {
    if j == 0 {
        60
    } else if j == 1 {
        24
    } else if j == 2 {
        31
    } else if j == 3 {
        12
    } else {
        7
    }
}

/// The name under which the `j`-th time field is reported in errors.
pub open spec fn cron_field_name(j: int) -> Seq<char> {
    if j == 0 {
        "minute"@
    } else if j == 1 {
        "hour"@
    } else if j == 2 {
        "day of month"@
    } else if j == 3 {
        "month"@
    } else {
        "day of week"@
    }
}

/// The line is blank, or is shaped like an entry and every field parses.
pub open spec fn line_parses(s: Seq<char>) -> bool {
    line_is_blank(s) || (line_shape_ok(s) && (forall|j: nat|
        j < 5 ==> field_parses(#[trigger] field_at(s, j), cron_modulus(j as int))))
}

/// `c` is the entry that the line `s` denotes.
pub open spec fn is_parsed_entry(s: Seq<char>, c: Crontab) -> bool
    recommends
        line_parses(s),
        !line_is_blank(s),
{
    &&& is_parsed_field(field_at(s, 0), 60, c.minute)
    &&& is_parsed_field(field_at(s, 1), 24, c.hour)
    &&& is_parsed_field(field_at(s, 2), 31, c.day_of_month)
    &&& is_parsed_field(field_at(s, 3), 12, c.month)
    &&& is_parsed_field(field_at(s, 4), 7, c.day_of_week)
    &&& c.command@ == trim_end(after_fields(s, 5))
}

/// `e` is the error that parsing the line `s` reports: a syntax error
/// carrying the line when the shape is wrong, else the field error of
/// the first field that does not parse.
pub open spec fn is_line_error(s: Seq<char>, e: CronParseError) -> bool
    recommends
        !line_parses(s),
{
    match e {
        CronParseError::InvalidSyntax(l) => !line_shape_ok(s) && l@ == s,
        CronParseError::Parse { source, cron_line, matched, field_name } => {
            &&& line_shape_ok(s)
            &&& cron_line@ == s
            &&& exists|j: nat|
                #![trigger field_at(s, j)]
                j < 5 && !field_parses(field_at(s, j), cron_modulus(j as int)) && (forall|i: nat|
                    i < j ==> field_parses(#[trigger] field_at(s, i), cron_modulus(i as int)))
                    && source == field_error(field_at(s, j), cron_modulus(j as int)) && matched@
                    == field_at(s, j) && field_name@ == cron_field_name(j as int)
        },
        CronParseError::FieldMatch { .. } => false,
    }
}

/// Parse the field at `[a, b)` of the line, wrapping a failure in the
/// full parse-error context.
fn parse_field_at(line: &str, a: usize, b: usize, max: u8, name: &str) -> (r: Result<
    CronTimeFieldSpec,
    CronParseError,
>)
    requires
        a <= b <= line@.len(),
    ensures
        (match r {
            Ok(sp) => field_parses(line@.subrange(a as int, b as int), max) && is_parsed_field(
                line@.subrange(a as int, b as int),
                max,
                sp,
            ),
            Err(e) => !field_parses(line@.subrange(a as int, b as int), max) && (
            e matches CronParseError::Parse { source, cron_line, matched, field_name } && source
                == field_error(line@.subrange(a as int, b as int), max) && cron_line@ == line@
                && matched@ == line@.subrange(a as int, b as int) && field_name@ == name@),
        }),
{
    let f = line.substring_char(a, b);
    match parse_cron_field(f, max) {
        Ok(sp) => Ok(sp),
        Err(e) => Err(
            CronParseError::Parse {
                source: e,
                cron_line: line.to_owned(),
                matched: f.to_owned(),
                field_name: name.to_owned(),
            },
        ),
    }
}

/// Parse one line of the crontab file: `Ok(None)` for a blank line,
/// `Ok(Some(entry))` for a well-formed entry, and the error of the
/// offending part otherwise.
#[verifier::rlimit(100)]
pub fn parse_crontab_line(line: &str) -> (r: Result<Option<Crontab>, CronParseError>)
    ensures
        (match r {
            Ok(opt) => (match opt {
                None => line_is_blank(line@),
                Some(c) => !line_is_blank(line@) && line_parses(line@) && is_parsed_entry(
                    line@,
                    c,
                ),
            }),
            Err(e) => !line_is_blank(line@) && !line_parses(line@) && is_line_error(line@, e),
        }),
{
    let len = line.unicode_len();
    proof {
        assert(line@.skip(0) =~= line@);
        assert(after_fields(line@, 0) == skip_ws(line@));
    }
    let a0 = skip_ws_at(line, 0);
    if a0 == len {
        proof {
            assert(line@.skip(len as int) =~= Seq::<char>::empty());
        }
        return Ok(None);
    }
    let b0 = skip_token_at(line, a0);
    let a1 = skip_ws_at(line, b0);
    proof {
        assert(after_fields(line@, 1) == skip_ws(skip_token(after_fields(line@, 0))));
        assert(after_fields(line@, 1) == line@.skip(a1 as int));
        assert(field_at(line@, 0) == line@.subrange(a0 as int, b0 as int));
        assert(field_at(line@, 0).len() > 0);
    }
    if a1 == len {
        proof {
            assert(line@.skip(len as int) =~= Seq::<char>::empty());
            assert(field_at(line@, 1).len() == 0);
            assert(!line_shape_ok(line@));
            assert(!line_parses(line@));
        }
        return Err(CronParseError::InvalidSyntax(line.to_owned()));
    }
    let b1 = skip_token_at(line, a1);
    let a2 = skip_ws_at(line, b1);
    proof {
        assert(after_fields(line@, 2) == skip_ws(skip_token(after_fields(line@, 1))));
        assert(after_fields(line@, 2) == line@.skip(a2 as int));
        assert(field_at(line@, 1) == line@.subrange(a1 as int, b1 as int));
        assert(field_at(line@, 1).len() > 0);
    }
    if a2 == len {
        proof {
            assert(line@.skip(len as int) =~= Seq::<char>::empty());
            assert(field_at(line@, 2).len() == 0);
            assert(!line_shape_ok(line@));
            assert(!line_parses(line@));
        }
        return Err(CronParseError::InvalidSyntax(line.to_owned()));
    }
    let b2 = skip_token_at(line, a2);
    let a3 = skip_ws_at(line, b2);
    proof {
        assert(after_fields(line@, 3) == skip_ws(skip_token(after_fields(line@, 2))));
        assert(after_fields(line@, 3) == line@.skip(a3 as int));
        assert(field_at(line@, 2) == line@.subrange(a2 as int, b2 as int));
        assert(field_at(line@, 2).len() > 0);
    }
    if a3 == len {
        proof {
            assert(line@.skip(len as int) =~= Seq::<char>::empty());
            assert(field_at(line@, 3).len() == 0);
            assert(!line_shape_ok(line@));
            assert(!line_parses(line@));
        }
        return Err(CronParseError::InvalidSyntax(line.to_owned()));
    }
    let b3 = skip_token_at(line, a3);
    let a4 = skip_ws_at(line, b3);
    proof {
        assert(after_fields(line@, 4) == skip_ws(skip_token(after_fields(line@, 3))));
        assert(after_fields(line@, 4) == line@.skip(a4 as int));
        assert(field_at(line@, 3) == line@.subrange(a3 as int, b3 as int));
        assert(field_at(line@, 3).len() > 0);
    }
    if a4 == len {
        proof {
            assert(line@.skip(len as int) =~= Seq::<char>::empty());
            assert(field_at(line@, 4).len() == 0);
            assert(!line_shape_ok(line@));
            assert(!line_parses(line@));
        }
        return Err(CronParseError::InvalidSyntax(line.to_owned()));
    }
    let b4 = skip_token_at(line, a4);
    let a5 = skip_ws_at(line, b4);
    proof {
        assert(after_fields(line@, 5) == skip_ws(skip_token(after_fields(line@, 4))));
        assert(after_fields(line@, 5) == line@.skip(a5 as int));
        assert(field_at(line@, 4) == line@.subrange(a4 as int, b4 as int));
        assert(field_at(line@, 4).len() > 0);
    }
    if a5 == len {
        proof {
            assert(line@.skip(len as int) =~= Seq::<char>::empty());
            assert(after_fields(line@, 5).len() == 0);
            assert(!line_shape_ok(line@));
            assert(!line_parses(line@));
        }
        return Err(CronParseError::InvalidSyntax(line.to_owned()));
    }
    assert(line_shape_ok(line@));
    let minute = (match parse_field_at(line, a0, b0, 60, "minute") {
        Ok(sp) => sp,
        Err(e) => {
            proof {
                assert(field_at(line@, 0) == line@.subrange(a0 as int, b0 as int));
                assert(!field_parses(field_at(line@, 0), cron_modulus(0)));
                assert(!line_parses(line@));
                assert(is_line_error(line@, e));
            }
            return Err(e);
        },
    });
    let hour = (match parse_field_at(line, a1, b1, 24, "hour") {
        Ok(sp) => sp,
        Err(e) => {
            proof {
                assert(field_at(line@, 1) == line@.subrange(a1 as int, b1 as int));
                assert(!field_parses(field_at(line@, 1), cron_modulus(1)));
                assert(!line_parses(line@));
                assert(is_line_error(line@, e));
            }
            return Err(e);
        },
    });
    let dom = (match parse_field_at(line, a2, b2, 31, "day of month") {
        Ok(sp) => sp,
        Err(e) => {
            proof {
                assert(field_at(line@, 2) == line@.subrange(a2 as int, b2 as int));
                assert(!field_parses(field_at(line@, 2), cron_modulus(2)));
                assert(!line_parses(line@));
                assert(is_line_error(line@, e));
            }
            return Err(e);
        },
    });
    let month = (match parse_field_at(line, a3, b3, 12, "month") {
        Ok(sp) => sp,
        Err(e) => {
            proof {
                assert(field_at(line@, 3) == line@.subrange(a3 as int, b3 as int));
                assert(!field_parses(field_at(line@, 3), cron_modulus(3)));
                assert(!line_parses(line@));
                assert(is_line_error(line@, e));
            }
            return Err(e);
        },
    });
    let dow = (match parse_field_at(line, a4, b4, 7, "day of week") {
        Ok(sp) => sp,
        Err(e) => {
            proof {
                assert(field_at(line@, 4) == line@.subrange(a4 as int, b4 as int));
                assert(!field_parses(field_at(line@, 4), cron_modulus(4)));
                assert(!line_parses(line@));
                assert(is_line_error(line@, e));
            }
            return Err(e);
        },
    });
    let cmd_end = trim_end_at(line, a5);
    let command = line.substring_char(a5, cmd_end).to_owned();
    proof {
        assert(command@ == trim_end(after_fields(line@, 5)));
        assert(forall|j: nat|
            j < 5 ==> field_parses(#[trigger] field_at(line@, j), cron_modulus(j as int)));
    }
    Ok(
        Some(
            Crontab {
                minute,
                hour,
                day_of_month: dom,
                month,
                day_of_week: dow,
                command,
            },
        ),
    )
}

/// `e` is the error of the first line of `ls` that does not parse.
pub open spec fn is_crontab_error(ls: Seq<Seq<char>>, e: CronParseError) -> bool {
    exists|j: int|
        #![trigger ls[j]]
        0 <= j < ls.len() && !line_parses(ls[j]) && is_line_error(ls[j], e) && (forall|i: int|
            0 <= i < j ==> line_parses(#[trigger] ls[i]))
}

/// The views of a sequence of lines.
pub open spec fn views_of(lines: Seq<String>) -> Seq<Seq<char>> {
    lines.map_values(|l: String| l@)
}

/// How many of the first `upto` lines are non-blank, and hence entries.
pub open spec fn num_entries(ls: Seq<Seq<char>>, upto: int) -> nat
    decreases upto,
{
    if upto <= 0 {
        0
    } else {
        num_entries(ls, upto - 1) + (if line_is_blank(ls[upto - 1]) {
            0nat
        } else {
            1nat
        })
    }
}

pub proof fn lemma_num_entries_mono(ls: Seq<Seq<char>>, i: int, j: int)
    requires
        i <= j,
    ensures
        num_entries(ls, i) <= num_entries(ls, j),
    decreases j - i,
{
    if i < j {
        lemma_num_entries_mono(ls, i, j - 1);
    }
}

/// Parse a whole crontab file, given as its lines. Blank lines are
/// skipped; every other line must be a well-formed entry, and the error
/// of the first offending line is reported.
pub fn parse_crontab(lines: &Vec<String>) -> (r: Result<Vec<Crontab>, CronParseError>)
    ensures
        (match r {
            Ok(v) => {
                &&& forall|j: int|
                    0 <= j < lines@.len() ==> line_parses(#[trigger] views_of(lines@)[j])
                &&& v@.len() == num_entries(views_of(lines@), lines@.len() as int)
                &&& forall|j: int|
                    0 <= j < lines@.len() && !line_is_blank(#[trigger] views_of(lines@)[j])
                        ==> is_parsed_entry(
                        views_of(lines@)[j],
                        v@[num_entries(views_of(lines@), j) as int],
                    )
            },
            Err(e) => is_crontab_error(views_of(lines@), e),
        }),
{
    let ghost ls = views_of(lines@);
    let mut out: Vec<Crontab> = Vec::new();
    let mut j: usize = 0;
    while j < lines.len()
        invariant
            j <= lines@.len(),
            ls == views_of(lines@),
            forall|i: int| 0 <= i < j ==> line_parses(#[trigger] ls[i]),
            out@.len() == num_entries(ls, j as int),
            forall|i: int|
                0 <= i < j && !line_is_blank(#[trigger] ls[i]) ==> is_parsed_entry(
                    ls[i],
                    out@[num_entries(ls, i) as int],
                ),
        decreases lines@.len() - j,
    {
        proof {
            assert(ls[j as int] == lines@[j as int]@);
        }
        match parse_crontab_line(lines[j].as_str()) {
            Ok(None) => {
                proof {
                    assert(num_entries(ls, j + 1) == num_entries(ls, j as int));
                }
            },
            Ok(Some(c)) => {
                proof {
                    assert(num_entries(ls, j + 1) == num_entries(ls, j as int) + 1);
                }
                out.push(c);
                proof {
                    assert forall|i: int|
                        0 <= i < j && !line_is_blank(#[trigger] ls[i]) implies num_entries(ls, i)
                        < num_entries(ls, j as int) by {
                        lemma_num_entries_mono(ls, i + 1, j as int);
                    };
                }
            },
            Err(e) => {
                proof {
                    assert(!line_parses(ls[j as int]) && is_line_error(ls[j as int], e));
                }
                return Err(e);
            },
        }
        j = j + 1;
    }
    Ok(out)
}


/// What the loader found in one configuration directory: each file under
/// `services/` with its executability, and the lines of the `crontab`
/// file if one was present.
#[derive(Debug, Clone)]
pub struct DirListing {
    pub services: Vec<(String, bool)>,
    pub crontab_lines: Option<Vec<String>>,
}

/// `c` is the service command for a discovered file `path` whose
/// executable bit is `exec`: executable files run directly, the rest
/// through the shell.
pub open spec fn is_classified(path: Seq<char>, exec: bool, c: Command) -> bool {
    match c {
        Command::Direct(p) => exec && p@ == path,
        Command::ShellPrefixed(p) => !exec && p@ == path,
    }
}

/// The crontab lines of a listing; none counts as no lines.
pub open spec fn listing_lines(d: DirListing) -> Seq<Seq<char>> {
    match d.crontab_lines {
        Some(lines) => views_of(lines@),
        None => Seq::empty(),
    }
}

/// Every crontab line of the listing parses.
pub open spec fn listing_parses(d: DirListing) -> bool {
    forall|j: int| 0 <= j < listing_lines(d).len() ==> line_parses(#[trigger] listing_lines(d)[j])
}

/// The listing yields at least one service or one crontab entry.
pub open spec fn listing_has_content(d: DirListing) -> bool {
    d.services@.len() > 0 || num_entries(listing_lines(d), listing_lines(d).len() as int) > 0
}

/// `cfg` holds exactly the services and cron entries of listing `d`.
pub open spec fn is_assembled_from(cfg: Config, d: DirListing) -> bool {
    &&& cfg.spec_services().len() == d.services@.len()
    &&& (forall|k: int|
        0 <= k < cfg.spec_services().len() ==> is_classified(
            d.services@[k].0@,
            d.services@[k].1,
            #[trigger] cfg.spec_services()[k],
        ))
    &&& cfg.spec_cron().len() == num_entries(listing_lines(d), listing_lines(d).len() as int)
    &&& (forall|k: int|
        0 <= k < listing_lines(d).len() && !line_is_blank(#[trigger] listing_lines(d)[k])
            ==> is_parsed_entry(
            listing_lines(d)[k],
            cfg.spec_cron()[num_entries(listing_lines(d), k) as int],
        ))
}

/// The discovered configuration: services and cron entries of the first
/// search directory that yielded any, and the resolved shell, if one
/// was found.
#[derive(Debug, Clone)]
pub struct Config {
    pub services: Vec<Command>,
    pub cron: Vec<Crontab>,
    shell_path: Option<String>,
}

impl Config {
    /// The resolved shell path, as the contracts see it.
    pub closed spec fn spec_shell(&self) -> Option<String> {
        self.shell_path
    }

    /// The discovered service commands, as the contracts see them.
    pub closed spec fn spec_services(&self) -> Seq<Command> {
        self.services@
    }

    /// The parsed cron entries, as the contracts see them.
    pub closed spec fn spec_cron(&self) -> Seq<Crontab> {
        self.cron@
    }

    /// Build the configuration from what the loader found under each
    /// search directory, in search order, together with the shell path
    /// the loader resolved (if any). The first directory that yields a
    /// service or a cron entry wins; a crontab parse error in a
    /// directory examined along the way is fatal.
    pub fn assemble(listings: Vec<DirListing>, shell_path: Option<String>) -> (r: Result<
        Config,
        WingmateInitError,
    >)
        ensures
            (match r {
                Ok(cfg) => cfg.spec_shell() == shell_path && exists|j: int|
                    #![trigger listings@[j]]
                    0 <= j < listings@.len() && (forall|i: int|
                        0 <= i < j ==> listing_parses(#[trigger] listings@[i])
                            && !listing_has_content(listings@[i])) && listing_parses(listings@[j])
                        && listing_has_content(listings@[j]) && is_assembled_from(
                        cfg,
                        listings@[j],
                    ),
                Err(e) => (match e {
                    WingmateInitError::InvalidConfigSearchPath => listings@.len() == 0,
                    WingmateInitError::Cron { source } => exists|j: int|
                        #![trigger listings@[j]]
                        0 <= j < listings@.len() && (forall|i: int|
                            0 <= i < j ==> listing_parses(#[trigger] listings@[i])
                                && !listing_has_content(listings@[i])) && !listing_parses(
                            listings@[j],
                        ) && is_crontab_error(listing_lines(listings@[j]), source),
                    WingmateInitError::NoServiceOrCron => listings@.len() > 0 && (forall|i: int|
                        0 <= i < listings@.len() ==> listing_parses(#[trigger] listings@[i])
                            && !listing_has_content(listings@[i])),
                    _ => false,
                }),
            }),
    {
        if listings.len() == 0 {
            return Err(WingmateInitError::InvalidConfigSearchPath);
        }
        let mut j: usize = 0;
        while j < listings.len()
            invariant
                j <= listings@.len(),
                forall|i: int|
                    0 <= i < j ==> listing_parses(#[trigger] listings@[i]) && !listing_has_content(
                        listings@[i],
                    ),
            decreases listings@.len() - j,
        {
            let d = &listings[j];
            let mut svcs: Vec<Command> = Vec::new();
            let mut k: usize = 0;
            while k < d.services.len()
                invariant
                    k <= d.services@.len(),
                    svcs@.len() == k,
                    forall|i: int|
                        0 <= i < k ==> is_classified(
                            d.services@[i].0@,
                            d.services@[i].1,
                            #[trigger] svcs@[i],
                        ),
                decreases d.services@.len() - k,
            {
                let path = d.services[k].0.clone();
                if d.services[k].1 {
                    svcs.push(Command::Direct(path));
                } else {
                    svcs.push(Command::ShellPrefixed(path));
                }
                k = k + 1;
            }
            let cron: Vec<Crontab> = (match &d.crontab_lines {
                Some(lines) => {
                    match parse_crontab(lines) {
                        Ok(v) => v,
                        Err(e) => {
                            proof {
                                assert(listing_lines(listings@[j as int]) == views_of(lines@));
                                assert(!listing_parses(listings@[j as int]));
                            }
                            return Err(WingmateInitError::Cron { source: e });
                        },
                    }
                },
                None => Vec::new(),
            });
            proof {
                if d.crontab_lines is None {
                    assert(listing_lines(listings@[j as int]) =~= Seq::<Seq<char>>::empty());
                }
                assert(cron@.len() == num_entries(
                    listing_lines(listings@[j as int]),
                    listing_lines(listings@[j as int]).len() as int,
                ));
            }
            if svcs.len() > 0 || cron.len() > 0 {
                let cfg = Config { services: svcs, cron, shell_path };
                proof {
                    assert(listing_parses(listings@[j as int]) && listing_has_content(
                        listings@[j as int],
                    ));
                    assert(is_assembled_from(cfg, listings@[j as int]));
                }
                return Ok(cfg);
            }
            j = j + 1;
        }
        Err(WingmateInitError::NoServiceOrCron)
    }

    /// The discovered service commands, in discovery order.
    pub fn get_service_iter(&self) -> (r: &Vec<Command>)
        ensures
            r@ == self.spec_services(),
    {
        &self.services
    }

    /// The parsed crontab entries, in file order.
    pub fn get_cron_iter(&self) -> (r: &Vec<Crontab>)
        ensures
            r@ == self.spec_cron(),
    {
        &self.cron
    }

    /// The resolved shell path, if one was found.
    pub fn get_shell(&self) -> (r: Option<String>)
        ensures
            r == self.spec_shell(),
    {
        match &self.shell_path {
            Some(s) => Some(s.clone()),
            None => None,
        }
    }
}


/// Split a `:`-separated variable (a search path, the `PATH` variable)
/// into its pieces.
pub fn split_colon_list(s: &str) -> (r: Vec<String>)
    ensures
        r@.len() == split_on(s@, ':').len(),
        forall|i: int| 0 <= i < r@.len() ==> (#[trigger] r@[i])@ == split_on(s@, ':')[i],
{
    let len = s.unicode_len();
    let mut acc: Vec<String> = Vec::new();
    let mut i: usize = 0;
    proof {
        assert(s@.skip(0) =~= s@);
    }
    loop
        invariant
            i <= len,
            len == s@.len(),
            views_of(acc@) + split_on(s@.skip(i as int), ':') =~= split_on(s@, ':'),
        decreases len - i,
    {
        let e = piece_end_at(s, i, ':');
        let ghost tail = s@.skip(i as int);
        let piece = s.substring_char(i, e).to_owned();
        proof {
            assert(piece_len(tail, ':') == e - i);
            if e < len {
                assert(tail.take(e - i) =~= piece@);
                assert(tail.skip(e - i + 1) =~= s@.skip(e + 1));
                assert(split_on(tail, ':') == seq![piece@] + split_on(s@.skip(e + 1), ':'));
            } else {
                assert(piece_len(tail, ':') >= tail.len());
                assert(split_on(tail, ':') == seq![tail]);
                assert(piece@ =~= tail);
            }
        }
        let ghost old_acc = acc@;
        acc.push(piece);
        proof {
            assert(views_of(acc@) =~= views_of(old_acc) + seq![acc@[old_acc.len() as int]@]);
        }
        if e == len {
            proof {
                assert(views_of(acc@) =~= split_on(s@, ':'));
            }
            return acc;
        }
        proof {
            assert(views_of(acc@) + split_on(s@.skip(e + 1), ':') =~= split_on(s@, ':'));
        }
        i = e + 1;
    }
}

/// The ordered configuration search directories: the value of the
/// search-path variable split on `:`, or the single default directory
/// when the variable is absent.
pub fn search_paths_from_env(val: Option<&str>) -> (r: Vec<String>)
    ensures
        (match val {
            Some(v) => r@.len() == split_on(v@, ':').len() && (forall|i: int|
                0 <= i < r@.len() ==> (#[trigger] r@[i])@ == split_on(v@, ':')[i]),
            None => r@.len() == 1 && r@[0]@ == "/etc/wingmate"@,
        }),
{
    match val {
        Some(v) => split_colon_list(v),
        None => {
            let mut r: Vec<String> = Vec::new();
            r.push("/etc/wingmate".to_owned());
            r
        },
    }
}

/// The shell executable name: the value of the shell variable, or `sh`
/// when the variable is absent.
pub fn shell_name_from_env(val: Option<&str>) -> (r: String)
    ensures
        (match val {
            Some(v) => r@ == v@,
            None => r@ == "sh"@,
        }),
{
    match val {
        Some(v) => v.to_owned(),
        None => "sh".to_owned(),
    }
}

/// The candidate absolute paths at which the shell may live: each entry
/// of the `PATH` variable with `/` and the shell name appended, in
/// order. The first candidate that exists on disk wins.
pub fn shell_candidates(path_var: &str, shell: &str) -> (r: Vec<String>)
    ensures
        r@.len() == split_on(path_var@, ':').len(),
        forall|i: int|
            0 <= i < r@.len() ==> (#[trigger] r@[i])@ == split_on(path_var@, ':')[i] + seq!['/']
                + shell@,
{
    let pieces = split_colon_list(path_var);
    let mut out: Vec<String> = Vec::new();
    let mut i: usize = 0;
    proof {
        reveal_strlit("/");
        assert("/"@ =~= seq!['/']);
    }
    while i < pieces.len()
        invariant
            i <= pieces@.len(),
            out@.len() == i,
            pieces@.len() == split_on(path_var@, ':').len(),
            forall|k: int|
                0 <= k < pieces@.len() ==> (#[trigger] pieces@[k])@ == split_on(path_var@, ':')[k],
            "/"@ == seq!['/'],
            forall|k: int|
                0 <= k < i ==> (#[trigger] out@[k])@ == split_on(path_var@, ':')[k] + seq!['/']
                    + shell@,
        decreases pieces@.len() - i,
    {
        let mut c = pieces[i].clone();
        c.append("/");
        c.append(shell);
        out.push(c);
        i = i + 1;
    }
    out
}

/// Linear membership test on a list of field values.
fn contains_value(v: &Vec<u8>, current: u8) -> (r: bool)
    ensures
        r == v@.contains(current),
{
    let mut i: usize = 0;
    while i < v.len()
        invariant
            i <= v.len(),
            forall|j: int| 0 <= j < i ==> v@[j] != current,
        decreases v.len() - i,
    {
        if v[i] == current {
            assert(v@[i as int] == current);
            return true;
        }
        i = i + 1;
    }
    false
}

impl CronTimeFieldSpec {
    /// Whether the current value of a time field satisfies this spec.
    pub fn is_match(&self, current: u8) -> (r: bool)
        ensures
            r == spec_field_matches(*self, current),
    {
        match self {
            CronTimeFieldSpec::Any => true,
            CronTimeFieldSpec::Exact(x) => *x == current,
            CronTimeFieldSpec::MultiOccurrence(v) => contains_value(v, current),
        }
    }
}


/// Equality of field specs: by variant and value, with a value list
/// compared element by element in order.
pub open spec fn spec_field_eq(a: CronTimeFieldSpec, b: CronTimeFieldSpec) -> bool {
    match (a, b) {
        (CronTimeFieldSpec::Any, CronTimeFieldSpec::Any) => true,
        (CronTimeFieldSpec::Exact(x), CronTimeFieldSpec::Exact(y)) => x == y,
        (CronTimeFieldSpec::MultiOccurrence(u), CronTimeFieldSpec::MultiOccurrence(w)) => u@ == w@,
        _ => false,
    }
}

/// Element-wise equality of two value lists.
fn vec_u8_eq(u: &Vec<u8>, w: &Vec<u8>) -> (r: bool)
    ensures
        r == (u@ == w@),
{
    if u.len() != w.len() {
        return false;
    }
    let mut i: usize = 0;
    while i < u.len()
        invariant
            i <= u@.len(),
            u@.len() == w@.len(),
            forall|j: int| 0 <= j < i ==> u@[j] == w@[j],
        decreases u@.len() - i,
    {
        if u[i] != w[i] {
            return false;
        }
        i = i + 1;
    }
    proof {
        assert(u@ =~= w@);
    }
    true
}

impl PartialEq for CronTimeFieldSpec {
    fn eq(&self, other: &Self) -> (r: bool) {
        match (self, other) {
            (CronTimeFieldSpec::Any, CronTimeFieldSpec::Any) => true,
            (CronTimeFieldSpec::Exact(x), CronTimeFieldSpec::Exact(y)) => x == y,
            (CronTimeFieldSpec::MultiOccurrence(u), CronTimeFieldSpec::MultiOccurrence(w)) => {
                vec_u8_eq(u, w)
            },
            _ => false,
        }
    }
}

impl vstd::std_specs::cmp::PartialEqSpecImpl for CronTimeFieldSpec {
    open spec fn obeys_eq_spec() -> bool {
        true
    }

    open spec fn eq_spec(&self, other: &Self) -> bool {
        spec_field_eq(*self, *other)
    }
}


/// Helper for the parse law: a successful piece list holds exactly the
/// values of its pieces, each below the modulus.
pub proof fn lemma_pieces_values(ps: Seq<Seq<char>>, max: u8)
    ensures
        (match spec_parse_pieces(ps, max) {
            Ok(vals) => vals.len() == ps.len() && (forall|i: int|
                0 <= i < ps.len() ==> is_u8_digits(#[trigger] ps[i]) && digits_value(ps[i])
                    < max as int) && (forall|i: int|
                0 <= i < ps.len() ==> (#[trigger] vals[i]) as int == digits_value(ps[i])),
            Err(_) => true,
        }),
    decreases ps.len(),
{
    if ps.len() == 0 {
    } else if !is_u8_digits(ps[0]) || digits_value(ps[0]) >= max as int {
    } else {
        lemma_pieces_values(ps.drop_first(), max);
        match spec_parse_pieces(ps.drop_first(), max) {
            Ok(rest) => {
                let vals = seq![digits_value(ps[0]) as u8] + rest;
                assert(spec_parse_pieces(ps, max) == Ok::<Seq<u8>, CronFieldError>(vals));
                lemma_digits_value_nonneg(ps[0]);
                assert forall|i: int|
                    0 <= i < ps.len() implies is_u8_digits(#[trigger] ps[i]) && digits_value(ps[i])
                    < max as int by {
                    if i >= 1 {
                        assert(ps[i] == ps.drop_first()[i - 1]);
                        assert(is_u8_digits(ps.drop_first()[i - 1]) && digits_value(
                            ps.drop_first()[i - 1],
                        ) < max as int);
                    }
                };
                assert forall|i: int|
                    0 <= i < ps.len() implies (#[trigger] vals[i]) as int == digits_value(
                    ps[i],
                ) by {
                    if i >= 1 {
                        assert(vals[i] == rest[i - 1]);
                        assert(ps[i] == ps.drop_first()[i - 1]);
                        assert(rest[i - 1] as int == digits_value(ps.drop_first()[i - 1]));
                    }
                };
            },
            Err(_) => {},
        }
    }
}

/// Parse law for crontab time fields. A parsed spec matches exactly the
/// values its text denotes: everything for `*`; the positive multiples
/// of `k` below the modulus for `*/k`; the listed values for a comma
/// list; the single value for a bare number. A spec other than `Any`
/// never matches a value at or beyond the modulus.
pub proof fn lemma_parse_field_semantics(f: Seq<char>, max: u8, sp: CronTimeFieldSpec)
    requires
        field_parses(f, max),
        is_parsed_field(f, max, sp),
    ensures
        field_is_star(f) ==> sp is Any,
        field_is_step(f) && !field_is_star(f) ==> (forall|v: u8|
            spec_field_matches(sp, v) <==> (v as int % digits_value(f.skip(2)) == 0
                && digits_value(f.skip(2)) <= v as int && v < max)),
        !field_is_star(f) && !field_is_step(f) && field_has_comma(f) ==> (
        match spec_parse_pieces(split_on(f, ','), max) {
            Ok(vals) => forall|v: u8| spec_field_matches(sp, v) <==> vals.contains(v),
            Err(_) => false,
        }),
        !field_is_star(f) && !field_is_step(f) && !field_has_comma(f) ==> (forall|v: u8|
            spec_field_matches(sp, v) <==> v as int == digits_value(f)),
        !(sp is Any) ==> (forall|v: u8| v >= max ==> !spec_field_matches(sp, v)),
{
    if field_is_star(f) {
    } else if field_is_step(f) {
        let k = digits_value(f.skip(2));
        let v_list = sp->MultiOccurrence_0;
        assert(is_multiples_upto(v_list@, k as u8, max));
        assert forall|v: u8|
            spec_field_matches(sp, v) <==> (v as int % k == 0 && k <= v as int && v < max) by {
            if spec_field_matches(sp, v) {
                let i = choose|i: int| 0 <= i < v_list@.len() && v_list@[i] == v;
                assert(v as int == (i + 1) * k);
                lemma_mod_multiples_basic(i + 1, k);
                assert((i + 1) * k >= 1 * k) by (nonlinear_arith)
                    requires
                        i + 1 >= 1,
                        k >= 1,
                ;
                assert(v < max);
            }
            if v as int % k == 0 && k <= v as int && v < max {
                lemma_fundamental_div_mod(v as int, k);
                let m = v as int / k;
                assert(v as int == k * m);
                assert(m >= 1) by (nonlinear_arith)
                    requires
                        k * m == v as int,
                        v as int >= k,
                        k >= 1,
                ;
                assert((v_list@.len() + 1) * k >= max as int);
                assert(m < v_list@.len() + 1) by (nonlinear_arith)
                    requires
                        k * m == v as int,
                        (v as int) < max as int,
                        (v_list@.len() + 1) * k >= max as int,
                        k >= 1,
                ;
                assert(0 <= m - 1 < v_list@.len());
                assert(v_list@[m - 1] as int == ((m - 1) + 1) * k);
                assert(((m - 1) + 1) * k == k * m) by (nonlinear_arith);
                assert(v_list@[m - 1] == v);
                assert(v_list@.contains(v));
            }
        };
        assert forall|v: u8| v >= max implies !spec_field_matches(sp, v) by {
            if spec_field_matches(sp, v) {
                let i = choose|i: int| 0 <= i < v_list@.len() && v_list@[i] == v;
                assert(v_list@[i] < max);
            }
        };
    } else if field_has_comma(f) {
        lemma_pieces_values(split_on(f, ','), max);
        let vals = spec_parse_pieces(split_on(f, ','), max)->Ok_0;
        let v_list = sp->MultiOccurrence_0;
        assert(v_list@ == vals);
        assert forall|v: u8| v >= max implies !spec_field_matches(sp, v) by {
            if spec_field_matches(sp, v) {
                let i = choose|i: int| 0 <= i < v_list@.len() && v_list@[i] == v;
                assert(vals[i] as int == digits_value(split_on(f, ',')[i]));
                assert(digits_value(split_on(f, ',')[i]) < max as int);
            }
        };
    } else {
        lemma_digits_value_nonneg(f);
        assert(sp == CronTimeFieldSpec::Exact(digits_value(f) as u8));
        assert((digits_value(f) as u8) as int == digits_value(f));
    }
}

} // verus!
