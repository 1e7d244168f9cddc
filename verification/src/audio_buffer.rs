use std::collections::VecDeque;
use vstd::prelude::*;

verus! {

/// Shortest window the analysis is meant for.
pub const MIN_RESOLUTION: usize = 32;

/// Longest window the analysis is meant for.
pub const MAX_RESOLUTION: usize = 1048576;

/// How the stream of samples is cut into analysis windows.
#[derive(Clone, Copy, Debug)]
pub struct BufferOptions {
    /// Number of samples in every window.
    pub resolution: usize,
    /// Drop the oldest samples when more than one window is waiting.
    pub discard: bool,
    /// Keep the samples of a window for the next one when little new input
    /// has arrived.
    pub overlap: bool,
}

impl Default for BufferOptions {
    fn default() -> (options: BufferOptions)
        ensures
            options.resolution == 0,
            !options.discard,
            !options.overlap,
    {
        BufferOptions { resolution: 0, discard: false, overlap: false }
    }
}

impl BufferOptions {
    /// Whether the window length is one the analysis is meant for. A length
    /// of zero in particular is not: it is to be turned down when the options
    /// are put together, before a buffer is made from them.
    pub fn in_range(&self) -> (ok: bool)
        ensures
            ok <==> MIN_RESOLUTION <= self.resolution <= MAX_RESOLUTION,
    {
        MIN_RESOLUTION <= self.resolution && self.resolution <= MAX_RESOLUTION
    }

    /// Whether `samples` hold enough for a window.
    pub open spec fn ready<T>(self, samples: Seq<T>) -> bool {
        samples.len() >= self.resolution
    }

    /// The samples that are looked at when a window is cut: all of them, or
    /// with `discard` only the most recent `resolution`.
    pub open spec fn trimmed<T>(self, samples: Seq<T>) -> Seq<T> {
        if self.discard && samples.len() > self.resolution {
            samples.skip(samples.len() - self.resolution)
        } else {
            samples
        }
    }

    /// The window cut from `samples`: the oldest `resolution` samples that the
    /// discard rule has left.
    pub open spec fn window<T>(self, samples: Seq<T>) -> Seq<T>
        recommends
            self.ready(samples),
    {
        self.trimmed(samples).take(self.resolution as int)
    }

    /// How many of the trimmed samples leave the buffer when a window is cut.
    /// Without `overlap` this is the window itself; with it only what lies
    /// beyond one window, and never more than a window's worth.
    pub open spec fn consumed<T>(self, samples: Seq<T>) -> int
        recommends
            self.ready(samples),
    {
        let surplus = self.trimmed(samples).len() - self.resolution;
        if self.overlap && surplus < self.resolution {
            surplus
        } else {
            self.resolution as int
        }
    }

    /// What stays buffered after a window has been cut from `samples`.
    pub open spec fn remainder<T>(self, samples: Seq<T>) -> Seq<T>
        recommends
            self.ready(samples),
    {
        self.trimmed(samples).skip(self.consumed(samples))
    }

    /// Result of one `take` on a buffer that holds `samples`.
    pub open spec fn taken<T>(self, samples: Seq<T>) -> Option<Seq<T>> {
        if self.ready(samples) {
            Some(self.window(samples))
        } else {
            None
        }
    }

    /// Contents of the buffer after one `take` on a buffer that holds
    /// `samples`.
    pub open spec fn after_take<T>(self, samples: Seq<T>) -> Seq<T> {
        if self.ready(samples) {
            self.remainder(samples)
        } else {
            samples
        }
    }

    /// Contents of the buffer after `count` takes in a row with no input in
    /// between.
    pub open spec fn after_takes<T>(self, samples: Seq<T>, count: nat) -> Seq<T>
        decreases count,
    {
        if count == 0 {
            samples
        } else {
            self.after_take(self.after_takes(samples, (count - 1) as nat))
        }
    }
}

/// Gathers packets of samples of any length and hands them out again as
/// windows of `resolution` samples.
///
/// The buffer never waits: `extend` stores a packet, `take` cuts a window when
/// enough is stored and reports `None` when not. Whoever owns the source of
/// the packets calls `extend` until `is_ready`, and treats `None` after the
/// source has closed as the end of the stream.
pub struct AudioBuffer<T> {
    options: BufferOptions,
    buffer: VecDeque<T>,
}

impl<T> View for AudioBuffer<T> {
    type V = Seq<T>;

    /// The buffered samples, oldest first.
    closed spec fn view(&self) -> Seq<T> {
        self.buffer@
    }
}

impl<T: Copy> AudioBuffer<T> {
    /// The options the buffer was made with.
    pub closed spec fn options(&self) -> BufferOptions {
        self.options
    }

    /// An empty buffer that cuts windows as `options` say.
    pub fn new(options: BufferOptions) -> (buffer: AudioBuffer<T>)
        ensures
            buffer@ == Seq::<T>::empty(),
            buffer.options() == options,
    {
        AudioBuffer { options, buffer: VecDeque::new() }
    }

    /// Number of samples waiting in the buffer.
    pub fn len(&self) -> (count: usize)
        ensures
            count == self@.len(),
    {
        self.buffer.len()
    }

    /// Whether the next `take` will hand out a window.
    pub fn is_ready(&self) -> (ready: bool)
        ensures
            ready == self.options().ready(self@),
    {
        self.buffer.len() >= self.options.resolution
    }

    /// Stores a packet behind the samples already buffered.
    pub fn extend(&mut self, packet: Vec<T>)
        ensures
            final(self)@ == old(self)@ + packet@,
            final(self).options() == old(self).options(),
    {
        let mut i: usize = 0;
        while i < packet.len()
            invariant
                i <= packet.len(),
                self.options == old(self).options,
                self.buffer@ == old(self).buffer@ + packet@.take(i as int),
            decreases packet.len() - i,
        {
            self.buffer.push_back(packet[i]);
            assert(packet@.take(i as int).push(packet@[i as int]) == packet@.take(i + 1));
            i += 1;
        }
        assert(packet@.take(packet.len() as int) == packet@);
    }

    /// Removes the oldest `count` samples.
    fn drop_oldest(&mut self, count: usize)
        requires
            count <= old(self)@.len(),
        ensures
            final(self)@ == old(self)@.skip(count as int),
            final(self).options() == old(self).options(),
    {
        let mut dropped: usize = 0;
        while dropped < count
            invariant
                dropped <= count <= old(self).buffer@.len(),
                self.options == old(self).options,
                self.buffer@ == old(self).buffer@.skip(dropped as int),
            decreases count - dropped,
        {
            self.buffer.pop_front();
            assert(old(self).buffer@.skip(dropped as int).skip(1) == old(self).buffer@.skip(
                dropped + 1,
            ));
            dropped += 1;
        }
    }

    /// Copies the oldest `count` samples without removing them.
    fn oldest(&self, count: usize) -> (samples: Vec<T>)
        requires
            count <= self@.len(),
        ensures
            samples@ == self@.take(count as int),
    {
        let mut samples: Vec<T> = Vec::new();
        let mut i: usize = 0;
        while i < count
            invariant
                i <= count <= self.buffer@.len(),
                samples@ == self.buffer@.take(i as int),
            decreases count - i,
        {
            samples.push(self.buffer[i]);
            assert(self.buffer@.take(i as int).push(self.buffer@[i as int]) == self.buffer@.take(
                i + 1,
            ));
            i += 1;
        }
        samples
    }

    /// Cuts the next window, or reports `None` and leaves the buffer as it is
    /// when fewer than `resolution` samples are stored.
    ///
    /// With `discard`, everything older than the most recent `resolution`
    /// samples is dropped first. The window is the oldest `resolution` samples
    /// of what is left. Without `overlap` the window leaves the buffer. With
    /// `overlap` only the samples beyond one window leave it, at most
    /// `resolution` of them, so the next window starts where this one still
    /// had samples.
    pub fn take(&mut self) -> (window: Option<Vec<T>>)
        ensures
            final(self).options() == old(self).options(),
            final(self)@ == old(self).options().after_take(old(self)@),
            match window {
                Some(samples) => old(self).options().taken(old(self)@) == Some(samples@),
                None => old(self).options().taken(old(self)@) is None,
            },
            window matches Some(samples) ==> samples@.len() == old(self).options().resolution,
            old(self).options().discard ==> final(self)@.len() <= old(self).options().resolution,
    {
        let n: usize = self.options.resolution;
        if self.buffer.len() < n {
            return None;
        }
        if self.options.discard && self.buffer.len() > n {
            let excess: usize = self.buffer.len() - n;
            self.drop_oldest(excess);
        }
        let samples = self.oldest(n);
        let surplus: usize = self.buffer.len() - n;
        if self.options.overlap && surplus < n {
            self.drop_oldest(surplus);
        } else {
            self.drop_oldest(n);
        }
        Some(samples)
    }
}

/// One step of a session with a buffer: a packet is stored, or a window is
/// asked for.
pub enum Feed<T> {
    Packet(Seq<T>),
    Take,
}

/// Contents of a buffer that started empty and went through `feeds`.
pub open spec fn session_buffer<T>(options: BufferOptions, feeds: Seq<Feed<T>>) -> Seq<T>
    decreases feeds.len(),
{
    if feeds.len() == 0 {
        Seq::empty()
    } else {
        let before = session_buffer(options, feeds.drop_last());
        match feeds.last() {
            Feed::Packet(packet) => before + packet,
            Feed::Take => options.after_take(before),
        }
    }
}

/// All windows that were handed out during `feeds`, one after the other.
pub open spec fn session_windows<T>(options: BufferOptions, feeds: Seq<Feed<T>>) -> Seq<T>
    decreases feeds.len(),
{
    if feeds.len() == 0 {
        Seq::empty()
    } else {
        let earlier = session_windows(options, feeds.drop_last());
        match feeds.last() {
            Feed::Packet(_) => earlier,
            Feed::Take => match options.taken(session_buffer(options, feeds.drop_last())) {
                Some(window) => earlier + window,
                None => earlier,
            },
        }
    }
}

/// All samples that were stored during `feeds`, one packet after the other.
pub open spec fn session_input<T>(feeds: Seq<Feed<T>>) -> Seq<T>
    decreases feeds.len(),
{
    if feeds.len() == 0 {
        Seq::empty()
    } else {
        let earlier = session_input(feeds.drop_last());
        match feeds.last() {
            Feed::Packet(packet) => earlier + packet,
            Feed::Take => earlier,
        }
    }
}

/// Whatever the options, a window that is handed out holds exactly
/// `resolution` samples.
pub proof fn lemma_window_is_full<T>(options: BufferOptions, samples: Seq<T>)
    ensures
        options.taken(samples) matches Some(window) ==> window.len() == options.resolution,
{
}

/// Once a take has found too few samples, every later take finds the same as
/// long as nothing is stored in between, and the buffer keeps what it holds.
pub proof fn lemma_starved_buffer_stays_starved<T>(
    options: BufferOptions,
    samples: Seq<T>,
    count: nat,
)
    requires
        options.taken(samples) is None,
    ensures
        options.after_takes(samples, count) == samples,
        options.taken(options.after_takes(samples, count)) is None,
    decreases count,
{
    if count > 0 {
        lemma_starved_buffer_stays_starved(options, samples, (count - 1) as nat);
    }
}

/// With `discard`, a take never leaves more than `resolution` samples behind.
pub proof fn lemma_discard_bounds_backlog<T>(options: BufferOptions, samples: Seq<T>)
    requires
        options.discard,
    ensures
        options.after_take(samples).len() <= options.resolution,
{
}

/// Without `overlap`, a take splits what it looks at into the window and the
/// rest: no sample is in both, none is lost, and the order is kept. Without
/// `discard` what it looks at is everything that was buffered.
pub proof fn lemma_window_and_rest_split<T>(options: BufferOptions, samples: Seq<T>)
    requires
        !options.overlap,
        options.ready(samples),
    ensures
        options.window(samples) + options.after_take(samples) == options.trimmed(samples),
        !options.discard ==> options.trimmed(samples) == samples,
{
    let kept = options.trimmed(samples);
    assert(kept.take(options.resolution as int) + kept.skip(options.resolution as int) == kept);
}

/// Without `overlap` and without `discard`, the windows handed out so far,
/// followed by what is still buffered, are exactly the samples stored so far:
/// consecutive windows are disjoint and cover the input once, in order.
pub proof fn lemma_partition_covers_input<T>(options: BufferOptions, feeds: Seq<Feed<T>>)
    requires
        !options.overlap,
        !options.discard,
    ensures
        session_windows(options, feeds) + session_buffer(options, feeds) == session_input(feeds),
    decreases feeds.len(),
{
    if feeds.len() > 0 {
        let before = feeds.drop_last();
        lemma_partition_covers_input(options, before);
        let windows = session_windows(options, before);
        let buffer = session_buffer(options, before);
        match feeds.last() {
            Feed::Packet(packet) => {
                assert(windows + (buffer + packet) == (windows + buffer) + packet);
            },
            Feed::Take => {
                if options.ready(buffer) {
                    lemma_window_and_rest_split(options, buffer);
                    assert((windows + options.window(buffer)) + options.after_take(buffer)
                        == windows + (options.window(buffer) + options.after_take(buffer)));
                }
            },
        }
    }
}

/// Number of samples that two consecutive windows have in common when
/// `samples` were buffered at the first take and `packet` arrived before the
/// second.
pub open spec fn shared_samples<T>(options: BufferOptions, samples: Seq<T>, packet: Seq<T>) -> int {
    if options.discard {
        options.resolution - packet.len()
    } else {
        2 * options.resolution - samples.len()
    }
}

/// With `overlap`, two consecutive windows share samples as long as input
/// comes in by less than a window at a time: the second window begins with
/// the end of the first.
///
/// "Less than a window at a time" means, without `discard`, that the first
/// take found less than two windows buffered, and with `discard`, that less
/// than one window arrived between the two takes.
pub proof fn lemma_overlapping_windows_share<T>(
    options: BufferOptions,
    samples: Seq<T>,
    packet: Seq<T>,
)
    requires
        options.overlap,
        options.resolution > 0,
        options.ready(samples),
        !options.discard ==> samples.len() < 2 * options.resolution,
        options.discard ==> packet.len() < options.resolution,
    ensures
        options.ready(options.after_take(samples) + packet),
        1 <= shared_samples(options, samples, packet) <= options.resolution,
        options.window(options.after_take(samples) + packet).take(
            shared_samples(options, samples, packet),
        ) == options.window(samples).skip(
            options.resolution - shared_samples(options, samples, packet),
        ),
{
    let n = options.resolution as int;
    let shared = shared_samples(options, samples, packet);
    let first = options.window(samples);
    let rest = options.after_take(samples);
    let second = options.window(rest + packet);
    assert(rest.len() == n);
    assert(second.take(shared) =~= first.skip(n - shared));
}

} // verus!
