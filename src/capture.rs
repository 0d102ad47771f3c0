//! Capture configuration and the decisions of a capture session: when to
//! read, what to do with each read's outcome, and when the session ends.
use vstd::prelude::*;

verus! {

/// Error code of a read that would block: retried at once.
pub const ERRNO_AGAIN: i32 = 11;

/// Error code of an interrupted system call: retried at once.
pub const ERRNO_INTERRUPTED: i32 = 4;

/// Bits per sample of the capture container.
pub const CONTAINER_BITS: u16 = 32;

/// Raw fixed-point sample formats a device may be asked for.
#[derive(Clone, Copy, Debug, PartialEq, Eq, Structural)]
pub enum SampleFormat {
    S16LE,
    S16BE,
    S24LE,
    S24BE,
    S32LE,
    S32BE,
    U32LE,
    U32BE,
}

/// Only signed 32-bit samples, of either byte order, can be consumed.
pub open spec fn format_supported(f: SampleFormat) -> bool {
    f == SampleFormat::S32LE || f == SampleFormat::S32BE
}

/// Why a capture configuration is refused.
#[derive(Clone, Copy, Debug, PartialEq, Eq, Structural)]
pub enum ConfigError {
    UnsupportedFormat,
    NoChannels,
    TooManyChannels,
    ZeroRate,
}

/// The configuration error, if any, for the given parameters; the format
/// is checked first, then the channel count, then the rate.
pub open spec fn config_error(channels: u32, samplerate: u32, format: SampleFormat) -> Option<
    ConfigError,
> {
    if !format_supported(format) {
        Some(ConfigError::UnsupportedFormat)
    } else if channels == 0 {
        Some(ConfigError::NoChannels)
    } else if channels > u16::MAX {
        Some(ConfigError::TooManyChannels)
    } else if samplerate == 0 {
        Some(ConfigError::ZeroRate)
    } else {
        None
    }
}

/// Header fields of the uncompressed integer PCM container a capture writes.
#[derive(Clone, Copy, Debug, PartialEq, Eq, Structural)]
pub struct ContainerSpec {
    pub channels: u16,
    pub sample_rate: u32,
    pub bits_per_sample: u16,
}

/// A validated capture configuration: device, channel count, rate and format.
pub struct CaptureDevice {
    device_name: String,
    channels: u32,
    samplerate: u32,
    format: SampleFormat,
}

impl CaptureDevice {
    pub closed spec fn spec_device_name(&self) -> Seq<char> {
        self.device_name@
    }

    pub closed spec fn spec_channels(&self) -> u32 {
        self.channels
    }

    pub closed spec fn spec_samplerate(&self) -> u32 {
        self.samplerate
    }

    pub closed spec fn spec_format(&self) -> SampleFormat {
        self.format
    }

    /// The configuration passed every check of `new`.
    pub open spec fn wf(&self) -> bool {
        config_error(self.spec_channels(), self.spec_samplerate(), self.spec_format()) is None
    }

    /// Checks a configuration before any device is opened; an unsupported
    /// format, a channel count of zero or above `u16::MAX`, or a zero rate is
    /// refused.
    pub fn new(device_name: &str, channels: u32, samplerate: u32, format: SampleFormat) -> (r:
        Result<Self, ConfigError>)
        ensures
            match config_error(channels, samplerate, format) {
                Some(e) => r == Err::<Self, ConfigError>(e),
                None => r matches Ok(d) && d.wf() && d.spec_device_name() == device_name@
                    && d.spec_channels() == channels && d.spec_samplerate() == samplerate
                    && d.spec_format() == format,
            },
    {
        let supported = match format {
            SampleFormat::S32LE | SampleFormat::S32BE => true,
            _ => false,
        };
        if !supported {
            Err(ConfigError::UnsupportedFormat)
        } else if channels == 0 {
            Err(ConfigError::NoChannels)
        } else if channels > u16::MAX as u32 {
            Err(ConfigError::TooManyChannels)
        } else if samplerate == 0 {
            Err(ConfigError::ZeroRate)
        } else {
            Ok(CaptureDevice { device_name: device_name.to_owned(), channels, samplerate, format })
        }
    }

    pub fn device_name(&self) -> (r: String)
        ensures
            r@ == self.spec_device_name(),
    {
        self.device_name.clone()
    }

    pub fn channels(&self) -> (r: u32)
        ensures
            r == self.spec_channels(),
    {
        self.channels
    }

    pub fn samplerate(&self) -> (r: u32)
        ensures
            r == self.spec_samplerate(),
    {
        self.samplerate
    }

    pub fn format(&self) -> (r: SampleFormat)
        ensures
            r == self.spec_format(),
    {
        self.format
    }

    /// The container header for a recording of this configuration.
    pub fn container_spec(&self) -> (r: ContainerSpec)
        requires
            self.wf(),
        ensures
            r.channels == self.spec_channels(),
            r.sample_rate == self.spec_samplerate(),
            r.bits_per_sample == CONTAINER_BITS,
    {
        ContainerSpec {
            channels: self.channels as u16,
            sample_rate: self.samplerate,
            bits_per_sample: CONTAINER_BITS,
        }
    }
}

/// What a blocking read handed back.
#[derive(Clone, Copy, Debug, PartialEq, Eq, Structural)]
pub enum ReadOutcome {
    /// This many frames were written into the buffer.
    Frames(usize),
    /// The read failed with this error code.
    Failed(i32),
}

/// What the capture loop does after a read.
#[derive(Clone, Copy, Debug, PartialEq, Eq, Structural)]
pub enum ReadAction {
    /// Hand this many samples from the front of the buffer to the pipeline.
    Deliver(usize),
    /// Nothing was read; read again.
    Retry,
    /// Run the device's recovery routine, then report its outcome.
    Recover,
    /// The device reported more frames than the buffer holds; the session ends.
    Fatal,
}

/// The error codes retried at once, without recovery.
pub open spec fn is_transient(errno: i32) -> bool {
    errno == ERRNO_AGAIN || errno == ERRNO_INTERRUPTED
}

/// The action for a read outcome, on a buffer of `capacity` samples holding
/// frames of `channels` samples.
pub open spec fn read_action(channels: nat, capacity: nat, outcome: ReadOutcome) -> ReadAction {
    match outcome {
        ReadOutcome::Frames(n) => if n * channels <= capacity {
            ReadAction::Deliver((n * channels) as usize)
        } else {
            ReadAction::Fatal
        },
        ReadOutcome::Failed(e) => if is_transient(e) {
            ReadAction::Retry
        } else {
            ReadAction::Recover
        },
    }
}

/// Whether a poll at the top of the loop starts a read.
pub open spec fn poll_reads(closed: bool, running: bool) -> bool {
    !closed && running
}

/// Which polls start a read, for the stop flag values seen at successive polls.
pub open spec fn reads_started(closed: bool, flags: Seq<bool>) -> Seq<bool>
    decreases flags.len(),
{
    if flags.len() == 0 {
        Seq::empty()
    } else {
        seq![poll_reads(closed, flags[0])] + reads_started(
            closed || !flags[0],
            flags.drop_first(),
        )
    }
}

/// Number of `true` entries.
pub open spec fn count_true(s: Seq<bool>) -> nat
    decreases s.len(),
{
    if s.len() == 0 {
        0
    } else {
        (if s[0] {
            1nat
        } else {
            0nat
        }) + count_true(s.drop_first())
    }
}

/// The decision state of one capture session.
pub struct CaptureSession {
    channels: usize,
    capacity: usize,
    closed: bool,
}

impl CaptureSession {
    pub closed spec fn spec_channels(&self) -> nat {
        self.channels as nat
    }

    /// Samples the read buffer holds.
    pub closed spec fn spec_capacity(&self) -> nat {
        self.capacity as nat
    }

    /// The session has ended: no further read is started.
    pub closed spec fn spec_closed(&self) -> bool {
        self.closed
    }

    /// A session for `device`, reading into a buffer of `capacity` samples.
    pub fn new(device: &CaptureDevice, capacity: usize) -> (r: Self)
        requires
            device.wf(),
        ensures
            r.spec_channels() == device.spec_channels(),
            r.spec_capacity() == capacity,
            !r.spec_closed(),
    {
        CaptureSession { channels: device.channels() as usize, capacity, closed: false }
    }

    pub fn is_closed(&self) -> (r: bool)
        ensures
            r == self.spec_closed(),
    {
        self.closed
    }

    /// Called at the top of each loop iteration with the current value of the
    /// shared running flag; returns whether to start a read. Once the flag is
    /// seen unset, the session is closed for good.
    pub fn poll(&mut self, running: bool) -> (r: bool)
        ensures
            r == poll_reads(old(self).spec_closed(), running),
            final(self).spec_closed() == (old(self).spec_closed() || !running),
            final(self).spec_channels() == old(self).spec_channels(),
            final(self).spec_capacity() == old(self).spec_capacity(),
    {
        if !running {
            self.closed = true;
        }
        !self.closed
    }

    /// Decides what to do with the outcome of a read.
    pub fn on_read(&mut self, outcome: ReadOutcome) -> (r: ReadAction)
        ensures
            r == read_action(old(self).spec_channels(), old(self).spec_capacity(), outcome),
            final(self).spec_closed() == (old(self).spec_closed() || r == ReadAction::Fatal),
            final(self).spec_channels() == old(self).spec_channels(),
            final(self).spec_capacity() == old(self).spec_capacity(),
    {
        match outcome {
            ReadOutcome::Frames(n) => match n.checked_mul(self.channels) {
                Some(k) => {
                    if k <= self.capacity {
                        ReadAction::Deliver(k)
                    } else {
                        self.closed = true;
                        ReadAction::Fatal
                    }
                },
                None => {
                    self.closed = true;
                    ReadAction::Fatal
                },
            },
            ReadOutcome::Failed(e) => {
                if e == ERRNO_AGAIN || e == ERRNO_INTERRUPTED {
                    ReadAction::Retry
                } else {
                    ReadAction::Recover
                }
            },
        }
    }

    /// Records the outcome of a recovery; a failed recovery ends the session.
    /// Returns whether capture continues.
    pub fn on_recover(&mut self, recovered: bool) -> (r: bool)
        ensures
            r == recovered,
            final(self).spec_closed() == (old(self).spec_closed() || !recovered),
            final(self).spec_channels() == old(self).spec_channels(),
            final(self).spec_capacity() == old(self).spec_capacity(),
    {
        if !recovered {
            self.closed = true;
        }
        recovered
    }
}

proof fn lemma_closed_reads_nothing(flags: Seq<bool>)
    ensures
        reads_started(true, flags).len() == flags.len(),
        forall|i: int| 0 <= i < flags.len() ==> !#[trigger] reads_started(true, flags)[i],
        count_true(reads_started(true, flags)) == 0,
    decreases flags.len(),
{
    if flags.len() > 0 {
        lemma_closed_reads_nothing(flags.drop_first());
        let rest = reads_started(true, flags.drop_first());
        assert(reads_started(true, flags).drop_first() =~= rest);
    }
}

/// Cancellation bound: if the stop flag is already set at poll `j` and stays
/// set (it is a one-shot transition), no read starts at poll `j` or later, so
/// at most one read, the one started at poll `j - 1`, runs after the flag was
/// set.
pub proof fn lemma_stop_bound(closed: bool, flags: Seq<bool>, j: int)
    requires
        1 <= j <= flags.len(),
        forall|i: int| j <= i < flags.len() ==> !#[trigger] flags[i],
    ensures
        reads_started(closed, flags).len() == flags.len(),
        forall|i: int| j <= i < flags.len() ==> !#[trigger] reads_started(closed, flags)[i],
        count_true(reads_started(closed, flags).subrange(j - 1, flags.len() as int)) <= 1,
    decreases flags.len(),
{
    let rest = flags.drop_first();
    let c2 = closed || !flags[0];
    let rs = reads_started(closed, flags);
    assert(rs.drop_first() =~= reads_started(c2, rest));
    if j == 1 {
        if flags.len() > 1 {
            assert(!rest[0]);
            assert(reads_started(c2, rest).drop_first() =~= reads_started(true, rest.drop_first()));
            lemma_closed_reads_nothing(rest.drop_first());
            lemma_len_all_polls(c2, rest);
        } else {
            lemma_len_all_polls(c2, rest);
        }
        let tail = rs.subrange(0, flags.len() as int);
        assert(tail =~= rs);
        assert(reads_started(c2, rest).len() == rest.len());
        assert forall|i: int| 0 <= i < rest.len() implies !#[trigger] reads_started(c2, rest)[i] by {
            if i > 0 {
                assert(reads_started(c2, rest)[i] == reads_started(true, rest.drop_first())[i - 1]);
            }
        }
        lemma_count_all_false(reads_started(c2, rest));
        assert(count_true(rs) <= 1);
    } else {
        lemma_stop_bound(c2, rest, j - 1);
        assert(rs.subrange(j - 1, flags.len() as int) =~= reads_started(c2, rest).subrange(
            j - 2,
            rest.len() as int,
        ));
    }
}

proof fn lemma_len_all_polls(closed: bool, flags: Seq<bool>)
    ensures
        reads_started(closed, flags).len() == flags.len(),
    decreases flags.len(),
{
    if flags.len() > 0 {
        lemma_len_all_polls(closed || !flags[0], flags.drop_first());
    }
}

proof fn lemma_count_all_false(s: Seq<bool>)
    requires
        forall|i: int| 0 <= i < s.len() ==> !#[trigger] s[i],
    ensures
        count_true(s) == 0,
    decreases s.len(),
{
    if s.len() > 0 {
        lemma_count_all_false(s.drop_first());
    }
}

} // verus!
