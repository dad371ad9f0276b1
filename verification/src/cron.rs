//! Cron scheduling: matching an entry against the wall clock, the
//! per-tick firing decision with its one-minute guard, entry
//! validation, and splitting a command line into words.

use vstd::prelude::*;

use crate::clock::ClockTime;
use crate::config::{spec_field_matches, CronTimeFieldSpec, Crontab};
use crate::error::{CronConfigError, WingmateInitError};
use crate::scan::{piece_end_at, piece_len, split_on};

verus! {

/// An entry matches a clock reading when every one of its five field
/// specs accepts the corresponding field of the reading. The month
/// field participates like the others.
pub open spec fn spec_entry_matches(c: Crontab, t: ClockTime) -> bool {
    &&& spec_field_matches(c.minute, t.minute)
    &&& spec_field_matches(c.hour, t.hour)
    &&& spec_field_matches(c.day_of_month, t.day)
    &&& spec_field_matches(c.month, t.month)
    &&& spec_field_matches(c.day_of_week, t.weekday)
}

impl Crontab {
    /// Whether this entry is due at the clock reading `t`.
    pub fn matches_time(&self, t: &ClockTime) -> (r: bool)
        ensures
            r == spec_entry_matches(*self, *t),
    {
        self.minute.is_match(t.minute) && self.hour.is_match(t.hour) && self.day_of_month.is_match(
            t.day,
        ) && self.month.is_match(t.month) && self.day_of_week.is_match(t.weekday)
    }
}

/// Both day-of-month and day-of-week are constrained; their overlap is
/// not supported.
pub open spec fn spec_entry_clashes(c: Crontab) -> bool {
    !(c.day_of_month is Any) && !(c.day_of_week is Any)
}

/// Validation at cron-task entry: an entry that constrains both
/// day-of-month and day-of-week is rejected, every other entry is
/// accepted.
pub fn validate_entry(entry: &Crontab) -> (r: Result<(), CronConfigError>)
    ensures
        (match r {
            Ok(_) => !spec_entry_clashes(*entry),
            Err(e) => spec_entry_clashes(*entry) && e is ClashingConfig,
        }),
{
    if entry.day_of_month != CronTimeFieldSpec::Any && entry.day_of_week != CronTimeFieldSpec::Any {
        Err(CronConfigError::ClashingConfig)
    } else {
        Ok(())
    }
}

/// Cron task state across ticks: the epoch second at which the entry
/// last fired, if it has fired.
#[derive(Debug, Clone, Copy, PartialEq, Eq, Structural)]
pub struct CronState {
    pub last_run: Option<i64>,
}

/// The entry fires at a tick when a clock reading is available, the
/// entry matches it, and less than a minute has not passed since the
/// last firing: with a previous firing at `l`, the reading must lie at
/// least 60 seconds after `l`.
pub open spec fn spec_tick_fires(c: Crontab, st: CronState, now: Option<ClockTime>) -> bool {
    match now {
        None => false,
        Some(t) => (match st.last_run {
            Some(l) => t.epoch_seconds - l >= 60 && spec_entry_matches(c, t),
            None => spec_entry_matches(c, t),
        }),
    }
}

/// One evaluation of a cron entry at a tick: decide whether to fire,
/// and record the firing time when it does. Without a clock reading
/// the tick is skipped.
pub fn cron_tick(entry: &Crontab, st: &mut CronState, now: Option<ClockTime>) -> (fire: bool)
    ensures
        fire == spec_tick_fires(*entry, *old(st), now),
        fire ==> final(st).last_run == Some((now->Some_0).epoch_seconds),
        !fire ==> *final(st) == *old(st),
{
    match now {
        None => false,
        Some(t) => {
            let due = (match st.last_run {
                Some(l) => {
                    if (t.epoch_seconds as i128) - (l as i128) >= 60 {
                        entry.matches_time(&t)
                    } else {
                        false
                    }
                },
                None => entry.matches_time(&t),
            });
            if due {
                st.last_run = Some(t.epoch_seconds);
            }
            due
        },
    }
}

/// Law: within one entry, two consecutive firings lie at least 60
/// seconds of wall time apart. Firing at `t1` records `t1` as the last
/// run, a skipped tick leaves the state unchanged, so the state at the
/// next firing still holds `t1`; that firing, at `t2`, requires
/// `t2 - t1 >= 60`.
pub proof fn lemma_min_fire_interval(c: Crontab, st0: CronState, t1: ClockTime, t2: ClockTime)
    requires
        spec_tick_fires(c, st0, Some(t1)),
        spec_tick_fires(c, CronState { last_run: Some(t1.epoch_seconds) }, Some(t2)),
    ensures
        t2.epoch_seconds - t1.epoch_seconds >= 60,
{
}

/// The error a fired cron child's task reports when TERM fails on
/// cancellation: "no such process" means the child is gone and is
/// reported as a missing child; any other failure carries its error
/// code.
pub fn cron_term_failure(esrch: bool, errno: i32) -> (e: WingmateInitError)
    ensures
        esrch ==> e is ChildNotFound,
        !esrch ==> (e matches WingmateInitError::FromNix { errno: c } && c == errno),
{
    if esrch {
        WingmateInitError::ChildNotFound
    } else {
        WingmateInitError::FromNix { errno }
    }
}

/// The cron state after feeding a run of clock readings, one per tick,
/// to the firing decision.
pub open spec fn spec_cron_run(c: Crontab, st: CronState, tr: Seq<Option<ClockTime>>) -> CronState
    decreases tr.len(),
{
    if tr.len() == 0 {
        st
    } else {
        let st1 = if spec_tick_fires(c, st, tr[0]) {
            CronState { last_run: Some((tr[0]->Some_0).epoch_seconds) }
        } else {
            st
        };
        spec_cron_run(c, st1, tr.drop_first())
    }
}

/// The entry fires at tick `i` of a run.
pub open spec fn spec_run_fires_at(
    c: Crontab,
    st: CronState,
    tr: Seq<Option<ClockTime>>,
    i: int,
) -> bool
    recommends
        0 <= i < tr.len(),
{
    spec_tick_fires(c, spec_cron_run(c, st, tr.take(i)), tr[i])
}

/// A run over two traces in sequence is the run over the second from
/// where the first left off.
proof fn lemma_cron_run_compose(
    c: Crontab,
    st: CronState,
    a: Seq<Option<ClockTime>>,
    b: Seq<Option<ClockTime>>,
)
    ensures
        spec_cron_run(c, st, a + b) == spec_cron_run(c, spec_cron_run(c, st, a), b),
    decreases a.len(),
{
    if a.len() == 0 {
        assert(a + b =~= b);
    } else {
        assert((a + b)[0] == a[0]);
        assert((a + b).drop_first() =~= a.drop_first() + b);
        let st1 = if spec_tick_fires(c, st, a[0]) {
            CronState { last_run: Some((a[0]->Some_0).epoch_seconds) }
        } else {
            st
        };
        lemma_cron_run_compose(c, st1, a.drop_first(), b);
    }
}

/// Once a run has recorded a firing time, the recorded time never
/// moves backwards.
proof fn lemma_cron_run_last_monotone(c: Crontab, l: i64, tr: Seq<Option<ClockTime>>)
    ensures
        spec_cron_run(c, CronState { last_run: Some(l) }, tr).last_run matches Some(l2) && l2 >= l,
    decreases tr.len(),
{
    if tr.len() > 0 {
        let st = CronState { last_run: Some(l) };
        if spec_tick_fires(c, st, tr[0]) {
            lemma_cron_run_last_monotone(c, (tr[0]->Some_0).epoch_seconds, tr.drop_first());
        } else {
            lemma_cron_run_last_monotone(c, l, tr.drop_first());
        }
    }
}

/// Law: over any run of ticks from any starting state, two firing
/// ticks lie at least 60 seconds of wall time apart — however often
/// the entry is evaluated, no minute sees two firings.
pub proof fn lemma_run_min_fire_interval(
    c: Crontab,
    st: CronState,
    tr: Seq<Option<ClockTime>>,
    i: int,
    j: int,
)
    requires
        0 <= i < j < tr.len(),
        spec_run_fires_at(c, st, tr, i),
        spec_run_fires_at(c, st, tr, j),
    ensures
        (tr[j]->Some_0).epoch_seconds - (tr[i]->Some_0).epoch_seconds >= 60,
{
    let ti = (tr[i]->Some_0).epoch_seconds;
    let si = spec_cron_run(c, st, tr.take(i));
    assert(tr.take(i + 1) =~= tr.take(i) + seq![tr[i]]);
    lemma_cron_run_compose(c, st, tr.take(i), seq![tr[i]]);
    assert(spec_cron_run(c, si, seq![tr[i]]) == CronState { last_run: Some(ti) }) by {
        assert(seq![tr[i]][0] == tr[i]);
        assert(spec_tick_fires(c, si, seq![tr[i]][0]));
        assert(seq![tr[i]].drop_first() =~= Seq::<Option<ClockTime>>::empty());
        assert(spec_cron_run(c, CronState { last_run: Some(ti) }, Seq::<Option<ClockTime>>::empty())
            == CronState { last_run: Some(ti) });
    }
    assert(tr.take(j) =~= tr.take(i + 1) + tr.subrange(i + 1, j));
    lemma_cron_run_compose(c, st, tr.take(i + 1), tr.subrange(i + 1, j));
    lemma_cron_run_last_monotone(c, ti, tr.subrange(i + 1, j));
}

/// The non-empty words of a command line split on ASCII space.
pub open spec fn nonempty_words(ps: Seq<Seq<char>>) -> Seq<Seq<char>>
    decreases ps.len(),
{
    if ps.len() == 0 {
        Seq::empty()
    } else if ps[0].len() > 0 {
        seq![ps[0]] + nonempty_words(ps.drop_first())
    } else {
        nonempty_words(ps.drop_first())
    }
}

/// The words of a cron command: split on ASCII space, empty segments
/// dropped.
pub open spec fn spec_command_words(s: Seq<char>) -> Seq<Seq<char>> {
    nonempty_words(split_on(s, ' '))
}

/// Split a command line into its words.
pub fn split_command(command: &str) -> (r: Vec<String>)
    ensures
        r@.len() == spec_command_words(command@).len(),
        forall|i: int|
            0 <= i < r@.len() ==> (#[trigger] r@[i])@ == spec_command_words(command@)[i],
{
    let len = command.unicode_len();
    let mut out: Vec<String> = Vec::new();
    let mut i: usize = 0;
    proof {
        assert(command@.skip(0) =~= command@);
    }
    loop
        invariant
            i <= len,
            len == command@.len(),
            crate::config::views_of(out@) + nonempty_words(split_on(command@.skip(i as int), ' '))
                =~= spec_command_words(command@),
        decreases len - i,
    {
        let e = piece_end_at(command, i, ' ');
        let ghost tail = command@.skip(i as int);
        let ghost p = command@.subrange(i as int, e as int);
        proof {
            assert(piece_len(tail, ' ') == e - i);
            if e < len {
                assert(tail.take(e - i) =~= p);
                assert(tail.skip(e - i + 1) =~= command@.skip(e + 1));
                assert(split_on(tail, ' ') == seq![p] + split_on(command@.skip(e + 1), ' '));
                assert((seq![p] + split_on(command@.skip(e + 1), ' '))[0] == p);
                assert((seq![p] + split_on(command@.skip(e + 1), ' ')).drop_first() =~= split_on(
                    command@.skip(e + 1),
                    ' ',
                ));
            } else {
                assert(piece_len(tail, ' ') >= tail.len());
                assert(split_on(tail, ' ') == seq![tail]);
                assert(p =~= tail);
                assert((seq![tail]).drop_first() =~= Seq::<Seq<char>>::empty());
                assert(nonempty_words(Seq::<Seq<char>>::empty()) =~= Seq::<Seq<char>>::empty());
            }
        }
        if e > i {
            let word = command.substring_char(i, e).to_owned();
            let ghost old_out = out@;
            out.push(word);
            proof {
                assert(crate::config::views_of(out@) =~= crate::config::views_of(old_out)
                    + seq![p]);
            }
        }
        if e == len {
            return out;
        }
        i = e + 1;
    }
}

/// The spawn plan for one child process: the program and its arguments,
/// in order.
#[derive(Debug, Clone)]
pub struct SpawnPlan {
    pub program: String,
    pub args: Vec<String>,
}

/// The plan for a cron command line: the first word is the program and
/// the remaining words its arguments; a command with no words is
/// rejected, carrying the offending line.
pub fn cron_spawn_plan(command: &str) -> (r: Result<SpawnPlan, WingmateInitError>)
    ensures
        (match r {
            Ok(plan) => {
                let ws = spec_command_words(command@);
                &&& ws.len() > 0
                &&& plan.program@ == ws[0]
                &&& plan.args@.len() == ws.len() - 1
                &&& (forall|i: int| 0 <= i < plan.args@.len() ==> (#[trigger] plan.args@[i])@ == ws[i + 1])
            },
            Err(e) => spec_command_words(command@).len() == 0 && (
            e matches WingmateInitError::Other { message } && message@ == command@),
        }),
{
    let mut words = split_command(command);
    if words.len() == 0 {
        return Err(WingmateInitError::Other { message: command.to_owned() });
    }
    let program = words.remove(0);
    Ok(SpawnPlan { program, args: words })
}

/// One time field of an entry beside its position tag.
#[derive(Debug, Clone)]
pub struct CronField {
    pub field: CronTimeFieldSpec,
    pub tag: i8,
}

/// Lay the five field specs of an entry out as a list, tagged by
/// position: minute, hour, day-of-month, month, day-of-week.
pub fn convert_cron_spec_to_vec(cron: Crontab) -> (r: Vec<CronField>)
    ensures
        r@.len() == 5,
        r@[0].tag == 0 && r@[0].field == cron.minute,
        r@[1].tag == 1 && r@[1].field == cron.hour,
        r@[2].tag == 2 && r@[2].field == cron.day_of_month,
        r@[3].tag == 3 && r@[3].field == cron.month,
        r@[4].tag == 4 && r@[4].field == cron.day_of_week,
{
    let mut res: Vec<CronField> = Vec::new();
    res.push(CronField { field: cron.minute, tag: 0 });
    res.push(CronField { field: cron.hour, tag: 1 });
    res.push(CronField { field: cron.day_of_month, tag: 2 });
    res.push(CronField { field: cron.month, tag: 3 });
    res.push(CronField { field: cron.day_of_week, tag: 4 });
    res
}

} // verus!
