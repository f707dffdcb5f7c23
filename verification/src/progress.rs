use vstd::prelude::*;

use std::collections::VecDeque;

verus! {

/// The max age, in milliseconds, of any sample in a throughput history.
pub const HISTORY_MAX_AGE_MILLIS: u64 = 5000;

/// `a + b`, stopping at the largest representable value.
pub open spec fn spec_sat_add(a: int, b: int) -> int {
    if a + b > u64::MAX {
        u64::MAX as int
    } else {
        a + b
    }
}

fn sat_add(a: u64, b: u64) -> (r: u64)
    ensures
        r == spec_sat_add(a as int, b as int),
{
    if u64::MAX - a < b {
        u64::MAX
    } else {
        a + b
    }
}

/// Every sample in `h` carries a timestamp no later than `now`.
pub open spec fn times_le(h: Seq<(u64, u64)>, now: int) -> bool {
    forall|i: int| 0 <= i < h.len() ==> #[trigger] h[i].0 <= now
}

/// Timestamps in `h` never decrease from one sample to the next.
pub open spec fn times_sorted(h: Seq<(u64, u64)>) -> bool {
    forall|i: int, j: int| 0 <= i <= j < h.len() ==> #[trigger] h[i].0 <= #[trigger] h[j].0
}

/// `h` with every leading sample older than the retention window removed.
pub open spec fn spec_evict(h: Seq<(u64, u64)>, now: int) -> Seq<(u64, u64)>
    decreases h.len(),
{
    if h.len() > 0 && h[0].0 + HISTORY_MAX_AGE_MILLIS <= now {
        spec_evict(h.drop_first(), now)
    } else {
        h
    }
}

/// The byte deltas of all samples in `h`, added up.
pub open spec fn spec_sum_bytes(h: Seq<(u64, u64)>) -> int
    decreases h.len(),
{
    if h.len() == 0 {
        0
    } else {
        h[0].1 + spec_sum_bytes(h.drop_first())
    }
}

/// The throughput, in bits per second, that the samples of `h` witness:
/// the retained byte deltas times eight, over the span between the oldest
/// and the newest sample.  Zero when the span is empty; stopped at the
/// largest representable value.
pub open spec fn spec_window_bitrate(h: Seq<(u64, u64)>) -> int {
    if h.len() == 0 {
        0
    } else {
        let span = h.last().0 - h[0].0;
        if span == 0 {
            0
        } else {
            let s = spec_sum_bytes(h);
            let capped = if s > u64::MAX {
                u64::MAX as int
            } else {
                s
            };
            let rate = 8 * capped * 1000 / span;
            if rate > u64::MAX {
                u64::MAX as int
            } else {
                rate
            }
        }
    }
}

/// A live byte-count and throughput tracker for one file being transferred.
pub struct ProgressFile {
    title: String,
    bytes_sent: u64,
    total_bytes: u64,
    finished: bool,
    history: VecDeque<(u64, u64)>,
}

impl ProgressFile {
    /// The title this meter was created with.
    pub closed spec fn spec_title(&self) -> Seq<char> {
        self.title@
    }

    /// How many bytes have been recorded so far.
    pub closed spec fn spec_bytes_sent(&self) -> u64 {
        self.bytes_sent
    }

    /// The size of the file being tracked.
    pub closed spec fn spec_total_bytes(&self) -> u64 {
        self.total_bytes
    }

    /// Whether the meter has been marked finished.
    pub closed spec fn spec_finished(&self) -> bool {
        self.finished
    }

    /// The retained samples, oldest first, as (timestamp, byte delta) pairs.
    pub closed spec fn spec_history(&self) -> Seq<(u64, u64)> {
        self.history@
    }

    /// The meter's samples are in timestamp order.
    pub open spec fn wf(&self) -> bool {
        times_sorted(self.spec_history())
    }

    /// Create a progress meter for a file of `total_bytes` bytes, with a
    /// `title`, at time `now`: history starts with one zero-byte sample.
    pub fn new(title: &str, total_bytes: u64, now: u64) -> (p: ProgressFile)
        ensures
            p.wf(),
            p.spec_title() == title@,
            p.spec_bytes_sent() == 0,
            p.spec_total_bytes() == total_bytes,
            !p.spec_finished(),
            p.spec_history() == seq![(now, 0u64)],
            times_le(p.spec_history(), now as int),
    {
        let mut history: VecDeque<(u64, u64)> = VecDeque::new();
        history.push_back((now, 0));
        assert(history@ =~= seq![(now, 0u64)]);
        ProgressFile { title: title.to_owned(), bytes_sent: 0, total_bytes, finished: false, history }
    }

    /// The title of this progress meter.
    pub fn get_title(&self) -> (r: &str)
        ensures
            r@ == self.spec_title(),
    {
        self.title.as_str()
    }

    /// Return `true` if this file has finished transferring.
    pub fn is_finished(&self) -> (r: bool)
        ensures
            r == self.spec_finished(),
    {
        self.finished
    }

    /// Record that `bytes` more bytes went through at time `now`: the
    /// sample is appended, samples older than the retention window are
    /// evicted, and the running total grows by `bytes` (stopping at the
    /// largest representable value).  `now` must not precede the
    /// timestamps already on record.
    pub fn inc(&mut self, now: u64, bytes: u64)
        requires
            old(self).wf(),
            times_le(old(self).spec_history(), now as int),
        ensures
            final(self).wf(),
            times_le(final(self).spec_history(), now as int),
            final(self).spec_title() == old(self).spec_title(),
            final(self).spec_total_bytes() == old(self).spec_total_bytes(),
            final(self).spec_finished() == old(self).spec_finished(),
            final(self).spec_bytes_sent() == spec_sat_add(
                old(self).spec_bytes_sent() as int,
                bytes as int,
            ),
            final(self).spec_history() == spec_evict(
                old(self).spec_history().push((now, bytes)),
                now as int,
            ),
    {
        self.history.push_back((now, bytes));
        let ghost pushed = self.history@;
        let ghost title0 = self.title@;
        let ghost sent0 = self.bytes_sent;
        let ghost total0 = self.total_bytes;
        let ghost fin0 = self.finished;
        assert(times_le(pushed, now as int));
        assert(times_sorted(pushed));
        if now >= HISTORY_MAX_AGE_MILLIS {
            let cutoff = now - HISTORY_MAX_AGE_MILLIS;
            while self.history.len() > 0 && self.history[0].0 <= cutoff
                invariant
                    times_sorted(self.history@),
                    times_le(self.history@, now as int),
                    spec_evict(pushed, now as int) == spec_evict(self.history@, now as int),
                    cutoff == now - HISTORY_MAX_AGE_MILLIS,
                    self.title@ == title0,
                    self.bytes_sent == sent0,
                    self.total_bytes == total0,
                    self.finished == fin0,
                decreases self.history@.len(),
            {
                let ghost before = self.history@;
                self.history.pop_front();
                assert(self.history@ =~= before.drop_first());
            }
            assert(spec_evict(self.history@, now as int) == self.history@);
        } else {
            assert(spec_evict(pushed, now as int) == pushed);
        }
        self.bytes_sent = sat_add(self.bytes_sent, bytes);
    }

    /// Finish this progress meter: the byte count jumps to the total, the
    /// history is cleared, and the finished flag is set.  Idempotent.
    pub fn finish(&mut self)
        ensures
            final(self).wf(),
            final(self).spec_title() == old(self).spec_title(),
            final(self).spec_total_bytes() == old(self).spec_total_bytes(),
            final(self).spec_bytes_sent() == old(self).spec_total_bytes(),
            final(self).spec_finished(),
            final(self).spec_history() == Seq::<(u64, u64)>::empty(),
    {
        self.bytes_sent = self.total_bytes;
        self.history.clear();
        self.finished = true;
    }

    /// The fraction completed, in thousandths: zero for an empty total,
    /// otherwise `bytes_sent / total_bytes` scaled to 0..=1000 and stopped
    /// at 1000.
    pub fn get_ratio_permille(&self) -> (r: u64)
        ensures
            r == (if self.spec_total_bytes() == 0 {
                0int
            } else if self.spec_bytes_sent() >= self.spec_total_bytes() {
                1000int
            } else {
                self.spec_bytes_sent() * 1000 / (self.spec_total_bytes() as int)
            }),
    {
        if self.total_bytes == 0 {
            0
        } else if self.bytes_sent >= self.total_bytes {
            1000
        } else {
            let r128 = (self.bytes_sent as u128) * 1000 / (self.total_bytes as u128);
            proof {
                vstd::arithmetic::div_mod::lemma_fundamental_div_mod(
                    (self.bytes_sent as int) * 1000,
                    self.total_bytes as int,
                );
                vstd::arithmetic::div_mod::lemma_mod_bound(
                    (self.bytes_sent as int) * 1000,
                    self.total_bytes as int,
                );
                assert(r128 <= 1000) by (nonlinear_arith)
                    requires
                        (self.total_bytes as int) * (r128 as int) <= (self.bytes_sent as int)
                            * 1000,
                        0 < self.total_bytes,
                        self.bytes_sent < self.total_bytes,
                        0 <= r128 as int,
                ;
            }
            r128 as u64
        }
    }

    /// The current estimated number of bits sent per second, computed over
    /// the retained sample window.
    pub fn get_current_bitrate(&self) -> (r: u64)
        requires
            self.wf(),
        ensures
            r == spec_window_bitrate(self.spec_history()),
    {
        let n = self.history.len();
        if n == 0 {
            return 0;
        }
        let first = self.history[0].0;
        let last = self.history[n - 1].0;
        assert(first <= last);
        let span = last - first;
        if span == 0 {
            return 0;
        }
        let mut sum: u128 = 0;
        let mut i: usize = 0;
        proof {
            assert(self.history@.skip(0) =~= self.history@);
        }
        while i < n
            invariant
                0 <= i <= n,
                n == self.history@.len(),
                sum == spec_sum_bytes(self.history@) - spec_sum_bytes(self.history@.skip(i as int)),
                sum <= i * (u64::MAX as int),
            decreases n - i,
        {
            let ghost pre = self.history@.skip(i as int);
            assert(pre[0] == self.history@[i as int]);
            assert(spec_sum_bytes(pre) == pre[0].1 + spec_sum_bytes(pre.drop_first()));
            assert(pre.drop_first() =~= self.history@.skip(i as int + 1));
            sum = sum + self.history[i].1 as u128;
            i = i + 1;
        }
        assert(self.history@.skip(n as int) =~= Seq::<(u64, u64)>::empty());
        assert(sum == spec_sum_bytes(self.history@));
        let capped: u128 = if sum > u64::MAX as u128 {
            u64::MAX as u128
        } else {
            sum
        };
        let rate: u128 = 8 * capped * 1000 / (span as u128);
        if rate > u64::MAX as u128 {
            u64::MAX
        } else {
            rate as u64
        }
    }

    /// The estimated seconds before this transfer completes, from the
    /// current window bitrate: zero once finished; nothing when the rate
    /// is zero or the byte count has passed the total.
    pub fn get_eta(&self) -> (r: Option<u64>)
        requires
            self.wf(),
        ensures
            r == spec_eta(
                self.spec_finished(),
                self.spec_bytes_sent() as int,
                self.spec_total_bytes() as int,
                spec_window_bitrate(self.spec_history()),
            ),
    {
        if self.finished {
            Some(0)
        } else {
            let bytes_per_second = self.get_current_bitrate() / 8;
            if bytes_per_second == 0 {
                None
            } else if self.bytes_sent <= self.total_bytes {
                Some((self.total_bytes - self.bytes_sent) / bytes_per_second)
            } else {
                None
            }
        }
    }
}

/// The estimated seconds left for a meter in the given state, where
/// `bitrate` is its current window bitrate in bits per second.
pub open spec fn spec_eta(finished: bool, bytes_sent: int, total_bytes: int, bitrate: int) -> Option<
    u64,
> {
    if finished {
        Some(0u64)
    } else {
        let bytes_per_second = bitrate / 8;
        if bytes_per_second == 0 {
            None
        } else if bytes_sent <= total_bytes {
            Some(((total_bytes - bytes_sent) / bytes_per_second) as u64)
        } else {
            None
        }
    }
}

/// A byte and file counter for one recursive directory transfer.
pub struct ProgressDirectory {
    title: String,
    bytes_sent: u64,
    files_sent: u64,
    finished: bool,
}

impl ProgressDirectory {
    /// The title this meter was created with.
    pub closed spec fn spec_title(&self) -> Seq<char> {
        self.title@
    }

    /// How many bytes the finished files added up to.
    pub closed spec fn spec_bytes_sent(&self) -> u64 {
        self.bytes_sent
    }

    /// How many files have been counted.
    pub closed spec fn spec_files_sent(&self) -> u64 {
        self.files_sent
    }

    /// Whether the whole directory job has been marked finished.
    pub closed spec fn spec_finished(&self) -> bool {
        self.finished
    }

    /// Create a directory meter with a `title` and zeroed counters.
    pub fn new(title: &str) -> (p: ProgressDirectory)
        ensures
            p.spec_title() == title@,
            p.spec_bytes_sent() == 0,
            p.spec_files_sent() == 0,
            !p.spec_finished(),
    {
        ProgressDirectory { title: title.to_owned(), bytes_sent: 0, files_sent: 0, finished: false }
    }

    /// The title of this progress meter.
    pub fn get_title(&self) -> (r: &str)
        ensures
            r@ == self.spec_title(),
    {
        self.title.as_str()
    }

    /// Mark the directory job finished.  The counters stay as they are.
    pub fn finish(&mut self)
        ensures
            final(self).spec_title() == old(self).spec_title(),
            final(self).spec_bytes_sent() == old(self).spec_bytes_sent(),
            final(self).spec_files_sent() == old(self).spec_files_sent(),
            final(self).spec_finished(),
    {
        self.finished = true;
    }

    /// Return `true` if the directory job has been marked finished.
    pub fn is_finished(&self) -> (r: bool)
        ensures
            r == self.spec_finished(),
    {
        self.finished
    }

    /// Count one more transferred file of `file_size` bytes.  Both
    /// counters stop at the largest representable value.
    pub fn inc(&mut self, file_size: u64)
        ensures
            final(self).spec_title() == old(self).spec_title(),
            final(self).spec_finished() == old(self).spec_finished(),
            final(self).spec_bytes_sent() == spec_sat_add(
                old(self).spec_bytes_sent() as int,
                file_size as int,
            ),
            final(self).spec_files_sent() == spec_sat_add(old(self).spec_files_sent() as int, 1),
    {
        self.bytes_sent = sat_add(self.bytes_sent, file_size);
        self.files_sent = sat_add(self.files_sent, 1);
    }

    /// How many bytes the finished files added up to.
    pub fn get_bytes_sent(&self) -> (r: u64)
        ensures
            r == self.spec_bytes_sent(),
    {
        self.bytes_sent
    }

    /// How many files have been counted.
    pub fn get_files_sent(&self) -> (r: u64)
        ensures
            r == self.spec_files_sent(),
    {
        self.files_sent
    }
}

/// `s` with every finished file meter removed, order kept.
pub open spec fn spec_unfinished_files(s: Seq<ProgressFile>) -> Seq<ProgressFile>
    decreases s.len(),
{
    if s.len() == 0 {
        Seq::empty()
    } else if s[0].spec_finished() {
        spec_unfinished_files(s.drop_first())
    } else {
        seq![s[0]] + spec_unfinished_files(s.drop_first())
    }
}

/// `s` with every finished directory meter removed, order kept.
pub open spec fn spec_unfinished_directories(s: Seq<ProgressDirectory>) -> Seq<ProgressDirectory>
    decreases s.len(),
{
    if s.len() == 0 {
        Seq::empty()
    } else if s[0].spec_finished() {
        spec_unfinished_directories(s.drop_first())
    } else {
        seq![s[0]] + spec_unfinished_directories(s.drop_first())
    }
}

/// The live collection of progress meters currently rendered.
pub struct ProgressBars {
    file_progress_bars: Vec<ProgressFile>,
    directory_progress_bars: Vec<ProgressDirectory>,
}

impl ProgressBars {
    /// The file meters, in insertion order.
    pub closed spec fn spec_files(&self) -> Seq<ProgressFile> {
        self.file_progress_bars@
    }

    /// The directory meters, in insertion order.
    pub closed spec fn spec_directories(&self) -> Seq<ProgressDirectory> {
        self.directory_progress_bars@
    }

    /// Create an empty collection.
    pub fn new() -> (r: ProgressBars)
        ensures
            r.spec_files() == Seq::<ProgressFile>::empty(),
            r.spec_directories() == Seq::<ProgressDirectory>::empty(),
    {
        ProgressBars { file_progress_bars: Vec::new(), directory_progress_bars: Vec::new() }
    }

    /// Add a directory meter at the end.
    pub fn push_directory_progress(&mut self, p: ProgressDirectory)
        ensures
            final(self).spec_files() == old(self).spec_files(),
            final(self).spec_directories() == old(self).spec_directories().push(p),
    {
        self.directory_progress_bars.push(p);
    }

    /// Add a file meter at the end.
    pub fn push_file_progress(&mut self, p: ProgressFile)
        ensures
            final(self).spec_files() == old(self).spec_files().push(p),
            final(self).spec_directories() == old(self).spec_directories(),
    {
        self.file_progress_bars.push(p);
    }

    /// Return `true` if no meter is held.
    pub fn is_empty(&self) -> (r: bool)
        ensures
            r == (self.spec_files().len() == 0 && self.spec_directories().len() == 0),
    {
        self.file_progress_bars.len() == 0 && self.directory_progress_bars.len() == 0
    }

    /// How many file meters are held.
    pub fn num_files(&self) -> (r: usize)
        ensures
            r == self.spec_files().len(),
    {
        self.file_progress_bars.len()
    }

    /// How many directory meters are held.
    pub fn num_directories(&self) -> (r: usize)
        ensures
            r == self.spec_directories().len(),
    {
        self.directory_progress_bars.len()
    }

    /// The file meter at position `i`.
    pub fn file_at(&self, i: usize) -> (r: &ProgressFile)
        requires
            i < self.spec_files().len(),
        ensures
            *r == self.spec_files()[i as int],
    {
        &self.file_progress_bars[i]
    }

    /// The directory meter at position `i`.
    pub fn directory_at(&self, i: usize) -> (r: &ProgressDirectory)
        requires
            i < self.spec_directories().len(),
        ensures
            *r == self.spec_directories()[i as int],
    {
        &self.directory_progress_bars[i]
    }

    /// Drop every meter whose finished flag is set; the others keep
    /// their order.
    pub fn retain_incomplete(&mut self)
        ensures
            final(self).spec_files() == spec_unfinished_files(old(self).spec_files()),
            final(self).spec_directories() == spec_unfinished_directories(
                old(self).spec_directories(),
            ),
    {
        let ghost orig_files = self.file_progress_bars@;
        let ghost orig_dirs0 = self.directory_progress_bars@;
        let mut i: usize = 0;
        let ghost mut k: int = 0;
        proof {
            assert(orig_files.skip(0) =~= orig_files);
            assert(self.file_progress_bars@.take(0) =~= Seq::<ProgressFile>::empty());
        }
        while i < self.file_progress_bars.len()
            invariant
                0 <= i <= self.file_progress_bars@.len(),
                0 <= k <= orig_files.len(),
                i == self.file_progress_bars@.len() - (orig_files.len() - k),
                self.file_progress_bars@ =~= self.file_progress_bars@.take(i as int)
                    + orig_files.skip(k),
                spec_unfinished_files(orig_files) =~= self.file_progress_bars@.take(i as int)
                    + spec_unfinished_files(orig_files.skip(k)),
                self.directory_progress_bars@ == orig_dirs0,
            decreases orig_files.len() - k,
        {
            let ghost pre = orig_files.skip(k);
            proof {
                assert(pre.len() > 0);
                assert(pre[0] == self.file_progress_bars@[i as int]);
                assert(pre.drop_first() =~= orig_files.skip(k + 1));
            }
            if self.file_progress_bars[i].is_finished() {
                self.file_progress_bars.remove(i);
                proof {
                    assert(self.file_progress_bars@.take(i as int) =~= self.file_progress_bars@.take(
                        i as int,
                    ));
                    assert(self.file_progress_bars@ =~= self.file_progress_bars@.take(i as int)
                        + orig_files.skip(k + 1));
                }
            } else {
                i = i + 1;
                proof {
                    assert(self.file_progress_bars@.take(i as int) =~= self.file_progress_bars@.take(
                        i - 1,
                    ).push(pre[0]));
                    assert(spec_unfinished_files(pre) =~= seq![pre[0]] + spec_unfinished_files(
                        pre.drop_first(),
                    ));
                    assert(spec_unfinished_files(orig_files) =~= self.file_progress_bars@.take(
                        i as int,
                    ) + spec_unfinished_files(orig_files.skip(k + 1)));
                }
            }
            proof {
                k = k + 1;
            }
        }
        proof {
            assert(k == orig_files.len());
            assert(orig_files.skip(orig_files.len() as int) =~= Seq::<ProgressFile>::empty());
            assert(self.file_progress_bars@.take(i as int) =~= self.file_progress_bars@);
            assert(self.file_progress_bars@ =~= spec_unfinished_files(orig_files));
        }
        let ghost orig_dirs = self.directory_progress_bars@;
        let mut j: usize = 0;
        let ghost mut m: int = 0;
        proof {
            assert(orig_dirs.skip(0) =~= orig_dirs);
        }
        while j < self.directory_progress_bars.len()
            invariant
                0 <= j <= self.directory_progress_bars@.len(),
                0 <= m <= orig_dirs.len(),
                j == self.directory_progress_bars@.len() - (orig_dirs.len() - m),
                self.directory_progress_bars@ =~= self.directory_progress_bars@.take(j as int)
                    + orig_dirs.skip(m),
                spec_unfinished_directories(orig_dirs) =~= self.directory_progress_bars@.take(
                    j as int,
                ) + spec_unfinished_directories(orig_dirs.skip(m)),
                self.file_progress_bars@ == spec_unfinished_files(orig_files),
            decreases orig_dirs.len() - m,
        {
            let ghost pre = orig_dirs.skip(m);
            proof {
                assert(pre.len() > 0);
                assert(pre[0] == self.directory_progress_bars@[j as int]);
                assert(pre.drop_first() =~= orig_dirs.skip(m + 1));
            }
            if self.directory_progress_bars[j].is_finished() {
                self.directory_progress_bars.remove(j);
                proof {
                    assert(self.directory_progress_bars@ =~= self.directory_progress_bars@.take(
                        j as int,
                    ) + orig_dirs.skip(m + 1));
                }
            } else {
                j = j + 1;
                proof {
                    assert(self.directory_progress_bars@.take(j as int)
                        =~= self.directory_progress_bars@.take(j - 1).push(pre[0]));
                    assert(spec_unfinished_directories(pre) =~= seq![pre[0]]
                        + spec_unfinished_directories(pre.drop_first()));
                    assert(spec_unfinished_directories(orig_dirs)
                        =~= self.directory_progress_bars@.take(j as int)
                        + spec_unfinished_directories(orig_dirs.skip(m + 1)));
                }
            }
            proof {
                m = m + 1;
            }
        }
        proof {
            assert(m == orig_dirs.len());
            assert(orig_dirs.skip(orig_dirs.len() as int) =~= Seq::<ProgressDirectory>::empty());
            assert(self.directory_progress_bars@.take(j as int) =~= self.directory_progress_bars@);
            assert(self.directory_progress_bars@ =~= spec_unfinished_directories(orig_dirs));
        }
    }
}

impl ProgressBars {
    /// The position of the first file meter with this title, if any.
    pub fn find_file(&self, title: &str) -> (r: Option<usize>)
        ensures
            r matches Some(i) ==> i < self.spec_files().len() && self.spec_files()[i as int].spec_title() == title@,
            r is None ==> forall|t: int|
                0 <= t < self.spec_files().len() ==> (#[trigger] self.spec_files()[t]).spec_title() != title@,
    {
        let n = self.file_progress_bars.len();
        let mut i: usize = 0;
        while i < n
            invariant
                0 <= i <= n,
                n == self.spec_files().len(),
                forall|t: int| 0 <= t < i ==> (#[trigger] self.spec_files()[t]).spec_title() != title@,
            decreases n - i,
        {
            if crate::file::str_eq(self.file_progress_bars[i].get_title(), title) {
                return Option::Some(i);
            }
            i = i + 1;
        }
        Option::None
    }

    /// The position of the first directory meter with this title, if
    /// any.
    pub fn find_directory(&self, title: &str) -> (r: Option<usize>)
        ensures
            r matches Some(i) ==> i < self.spec_directories().len() && self.spec_directories()[i as int].spec_title() == title@,
            r is None ==> forall|t: int|
                0 <= t < self.spec_directories().len() ==> (#[trigger] self.spec_directories()[t]).spec_title() != title@,
    {
        let n = self.directory_progress_bars.len();
        let mut i: usize = 0;
        while i < n
            invariant
                0 <= i <= n,
                n == self.spec_directories().len(),
                forall|t: int| 0 <= t < i ==> (#[trigger] self.spec_directories()[t]).spec_title() != title@,
            decreases n - i,
        {
            if crate::file::str_eq(self.directory_progress_bars[i].get_title(), title) {
                return Option::Some(i);
            }
            i = i + 1;
        }
        Option::None
    }

    /// Record `bytes` more bytes on the file meter at position `i`, at
    /// time `now`.  The other meters are untouched.
    pub fn inc_file_at(&mut self, i: usize, now: u64, bytes: u64)
        requires
            i < old(self).spec_files().len(),
            old(self).spec_files()[i as int].wf(),
            times_le(old(self).spec_files()[i as int].spec_history(), now as int),
        ensures
            final(self).spec_files().len() == old(self).spec_files().len(),
            final(self).spec_directories() == old(self).spec_directories(),
            forall|t: int|
                0 <= t < old(self).spec_files().len() && t != i ==> final(self).spec_files()[t]
                    == old(self).spec_files()[t],
            final(self).spec_files()[i as int].wf(),
            final(self).spec_files()[i as int].spec_title() == old(self).spec_files()[i as int].spec_title(),
            final(self).spec_files()[i as int].spec_bytes_sent() == spec_sat_add(
                old(self).spec_files()[i as int].spec_bytes_sent() as int,
                bytes as int,
            ),
            final(self).spec_files()[i as int].spec_finished() == old(self).spec_files()[i as int].spec_finished(),
    {
        self.file_progress_bars[i].inc(now, bytes);
    }

    /// Finish the file meter at position `i`.  The other meters are
    /// untouched.
    pub fn finish_file_at(&mut self, i: usize)
        requires
            i < old(self).spec_files().len(),
        ensures
            final(self).spec_files().len() == old(self).spec_files().len(),
            final(self).spec_directories() == old(self).spec_directories(),
            forall|t: int|
                0 <= t < old(self).spec_files().len() && t != i ==> final(self).spec_files()[t]
                    == old(self).spec_files()[t],
            final(self).spec_files()[i as int].spec_finished(),
            final(self).spec_files()[i as int].spec_title() == old(self).spec_files()[i as int].spec_title(),
    {
        self.file_progress_bars[i].finish();
    }

    /// Count one more transferred file on the directory meter at
    /// position `i`.  The other meters are untouched.
    pub fn inc_directory_at(&mut self, i: usize, file_size: u64)
        requires
            i < old(self).spec_directories().len(),
        ensures
            final(self).spec_directories().len() == old(self).spec_directories().len(),
            final(self).spec_files() == old(self).spec_files(),
            forall|t: int|
                0 <= t < old(self).spec_directories().len() && t != i ==> final(self).spec_directories()[t]
                    == old(self).spec_directories()[t],
            final(self).spec_directories()[i as int].spec_title() == old(self).spec_directories()[i as int].spec_title(),
            final(self).spec_directories()[i as int].spec_bytes_sent() == spec_sat_add(
                old(self).spec_directories()[i as int].spec_bytes_sent() as int,
                file_size as int,
            ),
            final(self).spec_directories()[i as int].spec_files_sent() == spec_sat_add(
                old(self).spec_directories()[i as int].spec_files_sent() as int,
                1,
            ),
    {
        self.directory_progress_bars[i].inc(file_size);
    }

    /// Finish the directory meter at position `i`.  The other meters
    /// are untouched.
    pub fn finish_directory_at(&mut self, i: usize)
        requires
            i < old(self).spec_directories().len(),
        ensures
            final(self).spec_directories().len() == old(self).spec_directories().len(),
            final(self).spec_files() == old(self).spec_files(),
            forall|t: int|
                0 <= t < old(self).spec_directories().len() && t != i ==> final(self).spec_directories()[t]
                    == old(self).spec_directories()[t],
            final(self).spec_directories()[i as int].spec_finished(),
            final(self).spec_directories()[i as int].spec_title() == old(self).spec_directories()[i as int].spec_title(),
    {
        self.directory_progress_bars[i].finish();
    }
}

impl ProgressFile {
    /// How many bytes have been recorded so far.
    pub fn get_bytes_sent(&self) -> (r: u64)
        ensures
            r == self.spec_bytes_sent(),
    {
        self.bytes_sent
    }

    /// The size of the file being tracked.
    pub fn get_total_bytes(&self) -> (r: u64)
        ensures
            r == self.spec_total_bytes(),
    {
        self.total_bytes
    }
}

} // verus!
