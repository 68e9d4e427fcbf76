//! The rolling history of recent bars that every window indicator reads.

use std::collections::VecDeque;
use vstd::prelude::*;
use crate::bar::Bar;
use crate::bar::Source;
use crate::fixed::all_in_range;
use crate::fixed::in_range;
use crate::fixed::VALUE_MAX;
use crate::series::lemma_sum_push;
use crate::series::sum;

verus! {

/// Largest capacity a history buffer may be built with. It keeps every window
/// sum of squares within the machine's widest integer.
pub const MAX_CAPACITY: usize = 4096;

/// What a bounded series holds after one more value has arrived: the value is
/// appended, and the oldest one leaves if the series was full.
pub open spec fn push_bounded<T>(s: Seq<T>, x: T, capacity: nat) -> Seq<T> {
    if s.len() >= capacity {
        s.skip(1).push(x)
    } else {
        s.push(x)
    }
}

/// The most recent `capacity` values of a series, in arrival order.
pub open spec fn recent<T>(all: Seq<T>, capacity: nat) -> Seq<T> {
    if all.len() > capacity {
        all.skip(all.len() - capacity)
    } else {
        all
    }
}

/// What a bounded series holds after the values of `xs` have arrived in order.
pub open spec fn push_all<T>(s: Seq<T>, xs: Seq<T>, capacity: nat) -> Seq<T>
    decreases xs.len(),
{
    if xs.len() == 0 {
        s
    } else {
        push_bounded(push_all(s, xs.drop_last(), capacity), xs.last(), capacity)
    }
}

/// The last `n` values of a series; empty if it holds fewer.
pub open spec fn last_n<T>(s: Seq<T>, n: nat) -> Seq<T> {
    if n <= s.len() {
        s.skip(s.len() - n)
    } else {
        Seq::empty()
    }
}

/// Appending to a series and keeping the most recent values is the same as
/// pushing into the kept values.
pub proof fn lemma_recent_push<T>(all: Seq<T>, x: T, capacity: nat)
    requires
        capacity >= 1,
    ensures
        recent(all.push(x), capacity) == push_bounded(recent(all, capacity), x, capacity),
{
    if all.len() >= capacity {
        assert(all.push(x).skip(all.len() + 1 - capacity) =~= recent(all, capacity).skip(1).push(
            x,
        ));
    } else {
        assert(recent(all.push(x), capacity) =~= all.push(x));
    }
}

/// After any number of pushes into a buffer that held the most recent values of
/// `before`, it holds the most recent values of everything that arrived: its
/// length is the smaller of the capacity and the number of arrivals, and its
/// content is the last that many values in arrival order.
pub proof fn lemma_push_all_is_recent<T>(before: Seq<T>, xs: Seq<T>, capacity: nat)
    requires
        capacity >= 1,
    ensures
        push_all(recent(before, capacity), xs, capacity) == recent(before + xs, capacity),
        push_all(recent(before, capacity), xs, capacity).len() == if before.len() + xs.len()
            > capacity {
            capacity
        } else {
            before.len() + xs.len()
        },
    decreases xs.len(),
{
    if xs.len() == 0 {
        assert(before + xs =~= before);
    } else {
        lemma_push_all_is_recent(before, xs.drop_last(), capacity);
        lemma_recent_push(before + xs.drop_last(), xs.last(), capacity);
        assert((before + xs.drop_last()).push(xs.last()) =~= before + xs);
    }
}

/// The window over a series with one more value drops the window's oldest
/// value and appends the new one.
pub proof fn lemma_last_n_push<T>(s: Seq<T>, x: T, n: nat)
    requires
        1 <= n <= s.len(),
    ensures
        last_n(s.push(x), n) == last_n(s, n).skip(1).push(x),
        last_n(s, n)[0] == s[s.len() - n],
{
    assert(last_n(s.push(x), n) =~= last_n(s, n).skip(1).push(x));
}

/// The window over a bounded series after a push is the window over the
/// unbounded series with the same value appended.
pub proof fn lemma_last_n_push_bounded<T>(s: Seq<T>, x: T, n: nat, capacity: nat)
    requires
        1 <= capacity,
        s.len() <= capacity,
        n <= capacity,
    ensures
        last_n(push_bounded(s, x, capacity), n) == last_n(s.push(x), n),
{
    assert(last_n(push_bounded(s, x, capacity), n) =~= last_n(s.push(x), n));
}

/// The smallest of four lengths.
pub open spec fn shortest(a: nat, b: nat, c: nat, d: nat) -> nat {
    let ab = if a <= b {
        a
    } else {
        b
    };
    let cd = if c <= d {
        c
    } else {
        d
    };
    if ab <= cd {
        ab
    } else {
        cd
    }
}

/// The smallest of four lengths.
pub fn shortest_of(a: usize, b: usize, c: usize, d: usize) -> (n: usize)
    ensures
        n == shortest(a as nat, b as nat, c as nat, d as nat),
{
    let ab: usize = if a <= b {
        a
    } else {
        b
    };
    let cd: usize = if c <= d {
        c
    } else {
        d
    };
    if ab <= cd {
        ab
    } else {
        cd
    }
}

/// Four parallel series of closes, highs, lows and volumes.
pub struct Series {
    pub closes: Seq<i64>,
    pub highs: Seq<i64>,
    pub lows: Seq<i64>,
    pub volumes: Seq<i64>,
}

impl Series {
    /// Number of bars.
    pub open spec fn len(self) -> nat {
        self.closes.len()
    }

    /// The four series have one length and hold admissible values only.
    pub open spec fn wf(self) -> bool {
        &&& self.highs.len() == self.closes.len()
        &&& self.lows.len() == self.closes.len()
        &&& self.volumes.len() == self.closes.len()
        &&& all_in_range(self.closes)
        &&& all_in_range(self.highs)
        &&& all_in_range(self.lows)
        &&& all_in_range(self.volumes)
    }

    /// No bars.
    pub open spec fn empty() -> Series {
        Series {
            closes: Seq::empty(),
            highs: Seq::empty(),
            lows: Seq::empty(),
            volumes: Seq::empty(),
        }
    }

    /// The bars that four columns hold together: as many as the shortest
    /// column holds values, each column's values from its start.
    pub open spec fn of_columns(
        closes: Seq<i64>,
        highs: Seq<i64>,
        lows: Seq<i64>,
        volumes: Seq<i64>,
    ) -> Series {
        let n = shortest(closes.len(), highs.len(), lows.len(), volumes.len()) as int;
        Series {
            closes: closes.subrange(0, n),
            highs: highs.subrange(0, n),
            lows: lows.subrange(0, n),
            volumes: volumes.subrange(0, n),
        }
    }

    /// The series with one more bar.
    pub open spec fn push(self, bar: Bar) -> Series {
        Series {
            closes: self.closes.push(bar.close),
            highs: self.highs.push(bar.high),
            lows: self.lows.push(bar.low),
            volumes: self.volumes.push(bar.volume),
        }
    }

    /// The most recent `capacity` bars.
    pub open spec fn recent(self, capacity: nat) -> Series {
        Series {
            closes: recent(self.closes, capacity),
            highs: recent(self.highs, capacity),
            lows: recent(self.lows, capacity),
            volumes: recent(self.volumes, capacity),
        }
    }

    /// The series after one more bar has been pushed into a buffer of the given
    /// capacity.
    pub open spec fn push_bounded(self, bar: Bar, capacity: nat) -> Series {
        Series {
            closes: push_bounded(self.closes, bar.close, capacity),
            highs: push_bounded(self.highs, bar.high, capacity),
            lows: push_bounded(self.lows, bar.low, capacity),
            volumes: push_bounded(self.volumes, bar.volume, capacity),
        }
    }

    /// One of the four series.
    pub open spec fn of(self, source: Source) -> Seq<i64> {
        match source {
            Source::Close => self.closes,
            Source::High => self.highs,
            Source::Low => self.lows,
            Source::Volume => self.volumes,
        }
    }
}

/// Keeping the most recent bars commutes with the arrival of a bar.
pub proof fn lemma_series_recent_push(all: Series, bar: Bar, capacity: nat)
    requires
        capacity >= 1,
        all.wf(),
    ensures
        all.push(bar).recent(capacity) == all.recent(capacity).push_bounded(bar, capacity),
{
    lemma_recent_push(all.closes, bar.close, capacity);
    lemma_recent_push(all.highs, bar.high, capacity);
    lemma_recent_push(all.lows, bar.low, capacity);
    lemma_recent_push(all.volumes, bar.volume, capacity);
}

/// Four parallel bounded series of recent closes, highs, lows and volumes.
pub struct HistoryBuffer {
    closes: VecDeque<i64>,
    highs: VecDeque<i64>,
    lows: VecDeque<i64>,
    volumes: VecDeque<i64>,
    capacity: usize,
}

impl HistoryBuffer {
    /// The closes held, oldest first.
    pub closed spec fn closes(&self) -> Seq<i64> {
        self.closes@
    }

    /// The highs held, oldest first.
    pub closed spec fn highs(&self) -> Seq<i64> {
        self.highs@
    }

    /// The lows held, oldest first.
    pub closed spec fn lows(&self) -> Seq<i64> {
        self.lows@
    }

    /// The volumes held, oldest first.
    pub closed spec fn volumes(&self) -> Seq<i64> {
        self.volumes@
    }

    /// The number of bars that the buffer can hold.
    pub closed spec fn spec_capacity(&self) -> nat {
        self.capacity as nat
    }

    /// The bars that the buffer keeps.
    pub open spec fn kept(&self) -> Series {
        Series {
            closes: self.closes(),
            highs: self.highs(),
            lows: self.lows(),
            volumes: self.volumes(),
        }
    }

    /// One of the four series.
    pub open spec fn series(&self, source: Source) -> Seq<i64> {
        match source {
            Source::Close => self.closes(),
            Source::High => self.highs(),
            Source::Low => self.lows(),
            Source::Volume => self.volumes(),
        }
    }

    /// The number of bars held.
    pub open spec fn spec_len(&self) -> nat {
        self.closes().len()
    }

    /// The four series have one length, which the capacity bounds, and hold
    /// admissible values only.
    pub open spec fn wf(&self) -> bool {
        &&& 1 <= self.spec_capacity() <= MAX_CAPACITY
        &&& self.closes().len() <= self.spec_capacity()
        &&& self.highs().len() == self.closes().len()
        &&& self.lows().len() == self.closes().len()
        &&& self.volumes().len() == self.closes().len()
        &&& all_in_range(self.closes())
        &&& all_in_range(self.highs())
        &&& all_in_range(self.lows())
        &&& all_in_range(self.volumes())
    }

    /// The buffer as it is after `bar` has been pushed into `self`.
    pub open spec fn is_pushed(&self, before: &HistoryBuffer, bar: Bar) -> bool {
        &&& self.spec_capacity() == before.spec_capacity()
        &&& self.closes() == push_bounded(before.closes(), bar.close, before.spec_capacity())
        &&& self.highs() == push_bounded(before.highs(), bar.high, before.spec_capacity())
        &&& self.lows() == push_bounded(before.lows(), bar.low, before.spec_capacity())
        &&& self.volumes() == push_bounded(before.volumes(), bar.volume, before.spec_capacity())
    }

    /// An empty buffer.
    pub fn new(capacity: usize) -> (buffer: HistoryBuffer)
        requires
            1 <= capacity <= MAX_CAPACITY,
        ensures
            buffer.wf(),
            buffer.spec_capacity() == capacity,
            buffer.closes() == Seq::<i64>::empty(),
            buffer.highs() == Seq::<i64>::empty(),
            buffer.lows() == Seq::<i64>::empty(),
            buffer.volumes() == Seq::<i64>::empty(),
    {
        HistoryBuffer {
            closes: VecDeque::new(),
            highs: VecDeque::new(),
            lows: VecDeque::new(),
            volumes: VecDeque::new(),
            capacity,
        }
    }

    /// The number of bars that the buffer can hold.
    pub fn capacity(&self) -> (c: usize)
        ensures
            c == self.spec_capacity(),
    {
        self.capacity
    }

    /// The number of bars held.
    pub fn len(&self) -> (n: usize)
        ensures
            n == self.spec_len(),
    {
        self.closes.len()
    }

    /// Appends one bar to the four series; if they were full, the oldest bar
    /// leaves all four.
    pub fn push(&mut self, bar: Bar)
        requires
            old(self).wf(),
            bar.in_range(),
        ensures
            final(self).wf(),
            final(self).is_pushed(old(self), bar),
    {
        if self.closes.len() >= self.capacity {
            self.closes.pop_front();
            self.highs.pop_front();
            self.lows.pop_front();
            self.volumes.pop_front();
        }
        self.closes.push_back(bar.close);
        self.highs.push_back(bar.high);
        self.lows.push_back(bar.low);
        self.volumes.push_back(bar.volume);
        proof {
            let cap = old(self).spec_capacity();
            assert(self.closes@ =~= push_bounded(old(self).closes@, bar.close, cap));
            assert(self.highs@ =~= push_bounded(old(self).highs@, bar.high, cap));
            assert(self.lows@ =~= push_bounded(old(self).lows@, bar.low, cap));
            assert(self.volumes@ =~= push_bounded(old(self).volumes@, bar.volume, cap));
        }
    }

    /// The close at position `i`, oldest first.
    pub fn close_at(&self, i: usize) -> (x: i64)
        requires
            self.wf(),
            i < self.spec_len(),
        ensures
            x == self.closes()[i as int],
            in_range(x as int),
    {
        self.closes[i]
    }

    /// The high at position `i`, oldest first.
    pub fn high_at(&self, i: usize) -> (x: i64)
        requires
            self.wf(),
            i < self.spec_len(),
        ensures
            x == self.highs()[i as int],
            in_range(x as int),
    {
        self.highs[i]
    }

    /// The low at position `i`, oldest first.
    pub fn low_at(&self, i: usize) -> (x: i64)
        requires
            self.wf(),
            i < self.spec_len(),
        ensures
            x == self.lows()[i as int],
            in_range(x as int),
    {
        self.lows[i]
    }

    /// The volume at position `i`, oldest first.
    pub fn volume_at(&self, i: usize) -> (x: i64)
        requires
            self.wf(),
            i < self.spec_len(),
        ensures
            x == self.volumes()[i as int],
            in_range(x as int),
    {
        self.volumes[i]
    }

    /// The value at position `i` of one of the four series, oldest first.
    pub fn at(&self, source: Source, i: usize) -> (x: i64)
        requires
            self.wf(),
            i < self.spec_len(),
        ensures
            x == self.series(source)[i as int],
            in_range(x as int),
    {
        match source {
            Source::Close => self.closes[i],
            Source::High => self.highs[i],
            Source::Low => self.lows[i],
            Source::Volume => self.volumes[i],
        }
    }

    /// Sum of the last `n` values of one of the four series.
    pub fn sum_last(&self, source: Source, n: usize) -> (total: i128)
        requires
            self.wf(),
            n <= self.spec_len(),
        ensures
            total == sum(last_n(self.series(source), n as nat)),
            -n * VALUE_MAX <= total <= n * VALUE_MAX,
    {
        let len: usize = self.len();
        let start: usize = len - n;
        let mut total: i128 = 0;
        let mut i: usize = start;
        let ghost s = self.series(source);
        assert(s.subrange(start as int, start as int) =~= Seq::<i64>::empty());
        while i < len
            invariant
                self.wf(),
                s == self.series(source),
                len == self.spec_len(),
                len <= MAX_CAPACITY,
                start <= i <= len,
                total == sum(s.subrange(start as int, i as int)),
                -(i - start) * VALUE_MAX <= total <= (i - start) * VALUE_MAX,
            decreases len - i,
        {
            proof {
                lemma_sum_push(s.subrange(start as int, i as int), s[i as int]);
                assert(s.subrange(start as int, i as int).push(s[i as int]) =~= s.subrange(
                    start as int,
                    i + 1,
                ));
                assert((i - start) * VALUE_MAX <= 4096 * VALUE_MAX) by (nonlinear_arith)
                    requires
                        0 <= i - start <= 4096,
                ;
            }
            total = total + self.at(source, i) as i128;
            i += 1;
        }
        assert(s.subrange(start as int, len as int) =~= last_n(s, n as nat));
        total
    }

    /// The last `n` values of one of the four series, oldest first; empty if
    /// fewer are held.
    pub fn window(&self, source: Source, n: usize) -> (w: Vec<i64>)
        requires
            self.wf(),
        ensures
            w@ == last_n(self.series(source), n as nat),
    {
        let mut w: Vec<i64> = Vec::new();
        let len: usize = self.len();
        if n > len {
            return w;
        }
        let start: usize = len - n;
        let mut i: usize = start;
        let ghost s = self.series(source);
        while i < len
            invariant
                self.wf(),
                s == self.series(source),
                len == self.spec_len(),
                start <= i <= len,
                start == len - n,
                w@ == s.subrange(start as int, i as int),
            decreases len - i,
        {
            w.push(self.at(source, i));
            i += 1;
            assert(w@ =~= s.subrange(start as int, i as int));
        }
        assert(w@ =~= last_n(s, n as nat));
        w
    }
}

} // verus!
