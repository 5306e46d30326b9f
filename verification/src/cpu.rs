//! CPU load reported with live search progress: parsing the aggregate CPU
//! line of `/proc/stat` and the load between two samples.

use vstd::prelude::*;
use crate::text::{chars_of, chars_eq_str, is_space, is_space_char};
use crate::numtext::{parse_u64_chars, parsed_value};

verus! {

/// Cumulative idle and total CPU time.
#[derive(Clone, Copy, Debug, PartialEq, Eq)]
pub struct CpuTimes {
    pub idle: u64,
    pub total: u64,
}

/// Windows `FILETIME`: a 64-bit count split in two halves.
#[derive(Clone, Copy, Debug, PartialEq, Eq)]
pub struct FileTime {
    pub low: u32,
    pub high: u32,
}

pub fn file_time_to_u64(file_time: FileTime) -> (r: u64)
    ensures
        r == file_time.high as nat * 0x1_0000_0000 + file_time.low as nat,
{
    let high = file_time.high as u64;
    let low = file_time.low as u64;
    let r = (high << 32u64) | low;
    assert(r == high * 0x1_0000_0000 + low) by (bit_vector)
        requires
            r == (high << 32u64) | low,
            high < 0x1_0000_0000,
            low < 0x1_0000_0000,
    ;
    r
}

/// The load between two samples, in percent rounded to nearest: busy time
/// over total time, with idle time capped by the total.
pub open spec fn spec_cpu_load(last: CpuTimes, current: CpuTimes) -> Option<u8> {
    let total: int = if current.total > last.total { current.total - last.total } else { 0 };
    let idle0: int = if current.idle > last.idle { current.idle - last.idle } else { 0 };
    let idle = if idle0 < total { idle0 } else { total };
    if total == 0 {
        None
    } else {
        let pct = ((total - idle) * 100 + total / 2) / total;
        Some((if pct > 100 { 100 } else { pct }) as u8)
    }
}

/// The load computation stays within `u64`.
pub open spec fn load_fits(last: Option<CpuTimes>, current: CpuTimes) -> bool {
    match last {
        Some(l) => {
            let total: int = if current.total > l.total { current.total - l.total } else { 0 };
            let idle0: int = if current.idle > l.idle { current.idle - l.idle } else { 0 };
            let idle = if idle0 < total { idle0 } else { total };
            (total - idle) * 100 + total / 2 <= u64::MAX
        },
        None => true,
    }
}

/// Whether the load between two readings can be computed within `u64`
/// (the condition `CpuLoadSampler::sample` needs).
pub fn load_computable(last: Option<CpuTimes>, current: CpuTimes) -> (r: bool)
    ensures
        r == load_fits(last, current),
{
    let l = match last {
        Some(l) => l,
        None => return true,
    };
    let total = current.total.saturating_sub(l.total);
    let idle0 = current.idle.saturating_sub(l.idle);
    let idle = if idle0 < total { idle0 } else { total };
    let busy = total - idle;
    (busy as u128) * 100 + (total as u128) / 2 <= u64::MAX as u128
}

/// Samples CPU load between successive readings.
pub struct CpuLoadSampler {
    pub last: Option<CpuTimes>,
}

impl CpuLoadSampler {
    /// A sampler whose first reading is `initial` (none where CPU times
    /// cannot be read).
    pub fn new(initial: Option<CpuTimes>) -> (r: Self)
        ensures
            r.last == initial,
    {
        CpuLoadSampler { last: initial }
    }

    /// Records the reading `current`; returns the load since the previous
    /// reading, if both exist and time has passed.
    pub fn sample(&mut self, current: Option<CpuTimes>) -> (r: Option<u8>)
        requires
            current matches Some(c) ==> load_fits(old(self).last, c),
        ensures
            current is None ==> final(self).last == old(self).last && r is None,
            current matches Some(c) ==> final(self).last == Some(c) && r == (match old(self).last {
                Some(l) => spec_cpu_load(l, c),
                None => None,
            }),
    {
        let current = match current {
            Some(c) => c,
            None => return None,
        };
        let last = match self.last {
            Some(l) => l,
            None => {
                self.last = Some(current);
                return None;
            },
        };
        self.last = Some(current);
        let total = current.total.saturating_sub(last.total);
        if total == 0 {
            return None;
        }
        let idle0 = current.idle.saturating_sub(last.idle);
        let idle = if idle0 < total { idle0 } else { total };
        let busy = total - idle;
        let pct = (busy * 100 + total / 2) / total;
        Some(if pct > 100 { 100 } else { pct as u8 })
    }
}

/// Splits on whitespace, dropping empty pieces, as `split_whitespace`.
pub open spec fn words(s: Seq<char>) -> Seq<Seq<char>>
    decreases s.len(),
{
    if s.len() == 0 {
        Seq::empty()
    } else {
        let prev = words(s.drop_last());
        if is_space_char(s.last()) {
            prev
        } else if s.len() == 1 || is_space_char(s[s.len() - 2]) {
            prev.push(seq![s.last()])
        } else {
            prev.update(prev.len() - 1, prev.last().push(s.last()))
        }
    }
}

pub fn split_words(v: &Vec<char>) -> (r: Vec<Vec<char>>)
    ensures
        crate::identity::char_vec_views(r@) == words(v@),
{
    let mut out: Vec<Vec<char>> = Vec::new();
    let mut cur: Vec<char> = Vec::new();
    let mut in_word = false;
    let mut i: usize = 0;
    while i < v.len()
        invariant
            i <= v.len(),
            in_word == (i > 0 && !is_space_char(v@[i - 1])),
            in_word ==> crate::identity::char_vec_views(out@).push(cur@) == words(
                v@.subrange(0, i as int),
            ),
            !in_word ==> crate::identity::char_vec_views(out@) == words(v@.subrange(0, i as int)),
        decreases v.len() - i,
    {
        let c = v[i];
        proof {
            let next = v@.subrange(0, i + 1);
            assert(next.drop_last() =~= v@.subrange(0, i as int));
            assert(next.last() == c);
            if i > 0 {
                assert(next[next.len() - 2] == v@[i - 1]);
            }
        }
        if is_space(c) {
            if in_word {
                let w = cur;
                out.push(w);
                cur = Vec::new();
                in_word = false;
            }
            assert(crate::identity::char_vec_views(out@) =~= words(v@.subrange(0, i + 1)));
        } else {
            if !in_word {
                cur = Vec::new();
                cur.push(c);
                in_word = true;
                assert(cur@ =~= seq![c]);
            } else {
                cur.push(c);
            }
            assert(crate::identity::char_vec_views(out@).push(cur@) =~= words(
                v@.subrange(0, i + 1),
            ));
        }
        i += 1;
    }
    assert(v@.subrange(0, v.len() as int) =~= v@);
    if in_word {
        out.push(cur);
    }
    assert(crate::identity::char_vec_views(out@) =~= words(v@));
    out
}

/// The first line of a text (all of it when it has no line break).
pub open spec fn first_line(s: Seq<char>) -> Seq<char> {
    crate::identity::split_on(s, '\n')[0]
}

/// The numbers of the aggregate `cpu` line that starts `/proc/stat`, when
/// the line starts with `cpu` and every further field is a `u64`.
pub open spec fn spec_cpu_stat_values(data: Seq<char>) -> Option<Seq<nat>> {
    let ws = words(first_line(data));
    if ws.len() == 0 || ws[0] != "cpu"@ {
        None
    } else if exists|i: int| 1 <= i < ws.len() && (#[trigger] parsed_value(ws[i], u64::MAX as nat)) is None {
        None
    } else {
        Some(Seq::new((ws.len() - 1) as nat, |i: int| parsed_value(ws[i + 1], u64::MAX as nat).unwrap()))
    }
}

pub open spec fn seq_sum(v: Seq<nat>) -> nat
    decreases v.len(),
{
    if v.len() == 0 {
        0
    } else {
        seq_sum(v.drop_last()) + v.last()
    }
}

/// Idle time (idle plus iowait) and total time of the `cpu` line, when it
/// has at least four fields.
pub open spec fn spec_cpu_times(data: Seq<char>) -> Option<(nat, nat)> {
    match spec_cpu_stat_values(data) {
        Some(v) => if v.len() < 4 {
            None
        } else {
            Some(((v[3] + if v.len() > 4 { v[4] } else { 0 }) as nat, seq_sum(v)))
        },
        None => None,
    }
}

/// The sums of the `cpu` line fit in `u64`.
pub open spec fn cpu_stat_fits(data: Seq<char>) -> bool {
    spec_cpu_times(data) matches Some((idle, total)) ==> idle <= u64::MAX && total <= u64::MAX
}

pub proof fn lemma_prefix_sum_le(v: Seq<nat>, k: int)
    requires
        0 <= k <= v.len(),
    ensures
        seq_sum(v.subrange(0, k)) <= seq_sum(v),
    decreases v.len() - k,
{
    if k < v.len() {
        lemma_prefix_sum_le(v, k + 1);
        assert(v.subrange(0, k + 1).drop_last() =~= v.subrange(0, k));
    } else {
        assert(v.subrange(0, k) =~= v);
    }
}

fn cpu_stat_values(data: &str) -> (r: Option<Vec<u64>>)
    ensures
        r matches Some(v) ==> spec_cpu_stat_values(data@) matches Some(w) && v@.len() == w.len()
            && forall|i: int| 0 <= i < w.len() ==> #[trigger] w[i] == v@[i] as nat,
        r is None ==> spec_cpu_stat_values(data@) is None,
{
    let chars = chars_of(data);
    let lines = crate::identity::split_chars(&chars, '\n');
    proof {
        crate::identity::lemma_split_nonempty(data@, '\n');
    }
    let ws = split_words(&lines[0]);
    let ghost wsv = words(first_line(data@));
    assert(crate::identity::char_vec_views(ws@) == wsv);
    if ws.len() == 0 || !chars_eq_str(&ws[0], "cpu") {
        assert(ws.len() > 0 ==> ws@[0]@ == wsv[0]);
        return None;
    }
    let mut values: Vec<u64> = Vec::new();
    let mut i: usize = 1;
    while i < ws.len()
        invariant
            1 <= i <= ws.len(),
            crate::identity::char_vec_views(ws@) == wsv,
            values@.len() == i - 1,
            forall|j: int|
                1 <= j < i ==> #[trigger] parsed_value(wsv[j], u64::MAX as nat) == Some(
                    values@[j - 1] as nat,
                ),
            wsv == words(first_line(data@)),
        decreases ws.len() - i,
    {
        assert(ws@[i as int]@ == wsv[i as int]);
        match parse_u64_chars(&ws[i]) {
            Some(x) => values.push(x),
            None => {
                return None;
            },
        }
        i += 1;
    }
    proof {
        let w = spec_cpu_stat_values(data@);
        assert(!exists|k: int|
            1 <= k < wsv.len() && (#[trigger] parsed_value(wsv[k], u64::MAX as nat)) is None);
        assert forall|k: int| 0 <= k < wsv.len() - 1 implies parsed_value(
            wsv[k + 1],
            u64::MAX as nat,
        ).unwrap() == values@[k] as nat by {
            assert(parsed_value(wsv[k + 1], u64::MAX as nat) == Some(values@[k] as nat));
        }
    }
    Some(values)
}

/// Whether the sums of the `cpu` line fit in `u64` (the condition
/// `parse_cpu_stat` needs).
pub fn cpu_stat_sums_fit(data: &str) -> (r: bool)
    ensures
        r == cpu_stat_fits(data@),
{
    let values = match cpu_stat_values(data) {
        Some(v) => v,
        None => return true,
    };
    let ghost w = spec_cpu_stat_values(data@).unwrap();
    if values.len() < 4 {
        return true;
    }
    let extra: u64 = if values.len() > 4 { values[4] } else { 0 };
    assert(w[3] == values@[3] as nat);
    assert(values.len() > 4 ==> w[4] == values@[4] as nat);
    if values[3] > u64::MAX - extra {
        return false;
    }
    let ghost idle: nat = (w[3] + if w.len() > 4 { w[4] } else { 0 }) as nat;
    assert(spec_cpu_times(data@) == Some((idle, seq_sum(w))));
    let mut total: u64 = 0;
    let mut i: usize = 0;
    while i < values.len()
        invariant
            spec_cpu_times(data@) == Some((idle, seq_sum(w))),
            idle <= u64::MAX,
            i <= values@.len(),
            values@.len() == w.len(),
            forall|k: int| 0 <= k < w.len() ==> #[trigger] w[k] == values@[k] as nat,
            total == seq_sum(w.subrange(0, i as int)),
        decreases values.len() - i,
    {
        assert(w.subrange(0, i + 1).drop_last() =~= w.subrange(0, i as int));
        if total > u64::MAX - values[i] {
            proof {
                lemma_prefix_sum_le(w, i + 1);
            }
            return false;
        }
        total = total + values[i];
        i += 1;
    }
    assert(w.subrange(0, values.len() as int) =~= w);
    true
}

/// Idle and total CPU time from the text of `/proc/stat`.
pub fn parse_cpu_stat(data: &str) -> (r: Option<CpuTimes>)
    requires
        cpu_stat_fits(data@),
    ensures
        r matches Some(t) ==> spec_cpu_times(data@) == Some((t.idle as nat, t.total as nat)),
        r is None ==> spec_cpu_times(data@) is None,
{
    let values = match cpu_stat_values(data) {
        Some(v) => v,
        None => return None,
    };
    let ghost w = spec_cpu_stat_values(data@).unwrap();
    if values.len() < 4 {
        return None;
    }
    let extra: u64 = if values.len() > 4 { values[4] } else { 0 };
    let idle = values[3] + extra;
    let mut total: u64 = 0;
    let mut i: usize = 0;
    while i < values.len()
        invariant
            i <= values@.len(),
            values@.len() == w.len(),
            forall|k: int| 0 <= k < w.len() ==> #[trigger] w[k] == values@[k] as nat,
            total == seq_sum(w.subrange(0, i as int)),
            seq_sum(w) <= u64::MAX,
        decreases values.len() - i,
    {
        assert(w.subrange(0, i + 1).drop_last() =~= w.subrange(0, i as int));
        proof {
            lemma_prefix_sum_le(w, i + 1);
        }
        total = total + values[i];
        i += 1;
    }
    assert(w.subrange(0, values.len() as int) =~= w);
    Some(CpuTimes { idle, total })
}

} // verus!
