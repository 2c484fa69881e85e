//! Clipboard watching: which change notifications lead to a read, how read
//! failures are retried, and the length limits of a read.
use vstd::prelude::*;

verus! {

/// What a clipboard read found.
#[derive(Debug, Clone, PartialEq, Eq)]
pub enum TextRead {
    /// No text on the clipboard.
    NoText,
    Text(String),
    /// More text than the configured limit.
    TooLong,
}

/// The outcome of a clipboard change notification.
#[derive(Debug)]
pub enum ClipboardUpdate<E> {
    Unchanged,
    Text(String),
    /// Over the configured length, known before converting the text.
    TooLong,
    /// The read failed; the same change will be read again.
    Retry(E),
    /// The read failed too often; the change is given up.
    Failed(E),
}

/// Reads of one clipboard change that may fail before it is given up.
pub const MAX_READ_FAILURES: u8 = 3;

/// The bookkeeping of the clipboard listener.
#[derive(Debug, Clone, Copy, PartialEq, Eq, Structural)]
pub struct ClipboardWatcher {
    pub watching: bool,
    /// Sequence number of the last change handled.
    pub last_sequence: u32,
    /// Sequence number of the change being retried.
    pub pending_sequence: u32,
    /// Failed reads of the pending change.
    pub read_failures: u8,
}

/// The watcher state and result after the read `read` of change `sequence`.
pub open spec fn after_read<E>(
    w: ClipboardWatcher,
    sequence: u32,
    read: Result<TextRead, E>,
    w2: ClipboardWatcher,
    r: ClipboardUpdate<E>,
) -> bool {
    let failures = if sequence != w.pending_sequence {
        0
    } else {
        w.read_failures
    };
    let settled = ClipboardWatcher {
        last_sequence: sequence,
        pending_sequence: 0,
        read_failures: 0,
        ..w
    };
    match read {
        Ok(TextRead::NoText) => w2 == settled && r is Unchanged,
        Ok(TextRead::Text(t)) => w2 == settled && r == ClipboardUpdate::<E>::Text(t),
        Ok(TextRead::TooLong) => w2 == settled && r is TooLong,
        Err(e) => if failures + 1 < MAX_READ_FAILURES {
            w2 == (ClipboardWatcher {
                pending_sequence: sequence,
                read_failures: (failures + 1) as u8,
                ..w
            }) && r == ClipboardUpdate::Retry(e)
        } else {
            w2 == settled && r == ClipboardUpdate::Failed(e)
        },
    }
}

impl ClipboardWatcher {
    /// A watcher that is not listening.
    pub fn new() -> (r: Self)
        ensures
            r == (ClipboardWatcher {
                watching: false,
                last_sequence: 0,
                pending_sequence: 0,
                read_failures: 0,
            }),
    {
        ClipboardWatcher { watching: false, last_sequence: 0, pending_sequence: 0, read_failures: 0 }
    }

    /// Records that the listener was registered when the clipboard stood at
    /// `current_sequence`, so that only the registration's own notification
    /// is ignored. A watcher already listening is unchanged.
    pub fn start(&mut self, current_sequence: u32)
        ensures
            old(self).watching ==> *final(self) == *old(self),
            !old(self).watching ==> *final(self) == (ClipboardWatcher {
                watching: true,
                last_sequence: current_sequence,
                pending_sequence: 0,
                read_failures: 0,
            }),
    {
        if !self.watching {
            self.watching = true;
            self.last_sequence = current_sequence;
            self.pending_sequence = 0;
            self.read_failures = 0;
        }
    }

    /// Records that the listener was removed.
    pub fn stop(&mut self)
        ensures
            *final(self) == (ClipboardWatcher { watching: false, ..*old(self) }),
    {
        self.watching = false;
    }

    /// Records that the window is being destroyed: the listener ends with it,
    /// whatever its removal reported.
    pub fn stop_for_window_destroy(&mut self)
        ensures
            *final(self) == (ClipboardWatcher { watching: false, ..*old(self) }),
    {
        self.watching = false;
    }

    pub fn is_watching(&self) -> (r: bool)
        ensures
            r == self.watching,
    {
        self.watching
    }

    /// Whether change `sequence` must be read: everything but a repeat of
    /// the last handled change (0 means the sequence is unknown).
    pub fn should_read(&self, sequence: u32) -> (r: bool)
        ensures
            r == !(sequence != 0 && sequence == self.last_sequence),
    {
        !(sequence != 0 && sequence == self.last_sequence)
    }

    /// Handles the read of change `sequence`: a successful read settles the
    /// change; a failed one is retried until the third failure of the same
    /// change, which gives it up.
    pub fn on_clipboard_update<E>(&mut self, sequence: u32, read: Result<TextRead, E>) -> (r:
        ClipboardUpdate<E>)
        ensures
            after_read(*old(self), sequence, read, *final(self), r),
    {
        if sequence != self.pending_sequence {
            self.pending_sequence = sequence;
            self.read_failures = 0;
        }
        match read {
            Ok(TextRead::NoText) => {
                self.settle(sequence);
                ClipboardUpdate::Unchanged
            },
            Ok(TextRead::Text(text)) => {
                self.settle(sequence);
                ClipboardUpdate::Text(text)
            },
            Ok(TextRead::TooLong) => {
                self.settle(sequence);
                ClipboardUpdate::TooLong
            },
            Err(error) => {
                self.read_failures = if self.read_failures == u8::MAX {
                    u8::MAX
                } else {
                    self.read_failures + 1
                };
                if self.read_failures < MAX_READ_FAILURES {
                    ClipboardUpdate::Retry(error)
                } else {
                    self.settle(sequence);
                    ClipboardUpdate::Failed(error)
                }
            },
        }
    }

    fn settle(&mut self, sequence: u32)
        ensures
            *final(self) == (ClipboardWatcher {
                last_sequence: sequence,
                pending_sequence: 0,
                read_failures: 0,
                ..*old(self)
            }),
    {
        self.last_sequence = sequence;
        self.pending_sequence = 0;
        self.read_failures = 0;
    }
}

/// The number of UTF-16 units before the first NUL of `words`, or all of them.
pub fn nul_terminated_len(words: &[u16]) -> (r: usize)
    ensures
        r <= words@.len(),
        forall|k: int| 0 <= k < r ==> words@[k] != 0,
        r < words@.len() ==> words@[r as int] == 0,
{
    let mut len: usize = 0;
    while len < words.len() && words[len] != 0
        invariant
            len <= words@.len(),
            forall|k: int| 0 <= k < len ==> words@[k] != 0,
        decreases words@.len() - len,
    {
        len = len + 1;
    }
    len
}

/// Whether `units` UTF-16 units certainly exceed `max_len` characters: a
/// character takes one or two units, so more than twice the limit is too
/// long before any conversion. A limit of 0 means none.
pub fn exceeds_utf16_limit(units: usize, max_len: usize) -> (r: bool)
    ensures
        r == (max_len > 0 && units > if max_len * 2 > usize::MAX {
            usize::MAX as int
        } else {
            max_len * 2
        }),
{
    let cap = if max_len > usize::MAX / 2 {
        usize::MAX
    } else {
        max_len * 2
    };
    max_len > 0 && units > cap
}

/// Whatever a read gives, the failures counted for the pending change stay
/// below [`MAX_READ_FAILURES`]: a change is read at most that many times
/// before it is given up.
pub proof fn lemma_failures_stay_below<E>(
    w: ClipboardWatcher,
    sequence: u32,
    read: Result<TextRead, E>,
    w2: ClipboardWatcher,
    r: ClipboardUpdate<E>,
)
    requires
        after_read(w, sequence, read, w2, r),
    ensures
        w2.read_failures < MAX_READ_FAILURES,
        r is Failed ==> w2.last_sequence == sequence && w2.read_failures == 0,
{
}

} // verus!
