//! Communication log of the web console: entries, their time stamps and the
//! bounded log.
use vstd::prelude::*;

use crate::text::{decimal_text, hex_digits, hex_encode, push_decimal};
use vstd::string::StringExecFns;

verus! {

/// Maximum number of entries the log keeps.
pub const MAX_LOG_ENTRIES: usize = 500;

/// Log entry type
#[derive(Clone, Copy, Debug)]
pub enum LogEntryType {
    /// Sent
    Tx,
    /// Received
    Rx,
    /// Information
    Info,
    /// Error
    Error,
}

/// Log entry
pub struct LogEntry {
    /// Milliseconds since the epoch
    pub timestamp: u128,
    pub entry_type: LogEntryType,
    pub message: String,
    pub data: Option<Vec<u8>>,
}

/// `n` as decimal digits, left-padded with zeros to `width` digits.
pub open spec fn zero_padded(n: nat, width: nat) -> Seq<char> {
    let d = decimal_text(n);
    if d.len() < width {
        Seq::new((width - d.len()) as nat, |i: int| '0') + d
    } else {
        d
    }
}

/// The time of day of a time stamp as `HH:MM:SS.mmm`.
pub open spec fn time_text(timestamp: u128) -> Seq<char> {
    let secs = (timestamp / 1000) % 86400;
    zero_padded((secs / 3600) as nat, 2) + ":"@ + zero_padded(((secs % 3600) / 60) as nat, 2)
        + ":"@ + zero_padded((secs % 60) as nat, 2) + "."@ + zero_padded(
        (timestamp % 1000) as nat,
        3,
    )
}

proof fn lemma_decimal_len(n: nat)
    ensures
        decimal_text(n).len() >= 1,
        n < 10 ==> decimal_text(n).len() == 1,
        10 <= n < 100 ==> decimal_text(n).len() == 2,
        100 <= n < 1000 ==> decimal_text(n).len() == 3,
    decreases n,
{
    if n >= 10 {
        lemma_decimal_len(n / 10);
    }
}

/// Append `n` (below 1000) to `s`, zero padded to `width` (2 or 3) digits.
fn push_padded(s: &mut String, n: u128, width: usize)
    requires
        n < 1000,
        width == 2 || width == 3,
        width == 2 ==> n < 100,
    ensures
        final(s)@ == old(s)@ + zero_padded(n as nat, width as nat),
{
    proof {
        reveal_strlit("0");
        lemma_decimal_len(n as nat);
    }
    let digits: usize = if n < 10 {
        1
    } else if n < 100 {
        2
    } else {
        3
    };
    let mut k: usize = digits;
    while k < width
        invariant
            digits <= k <= width,
            digits == decimal_text(n as nat).len(),
            s@ == old(s)@ + Seq::new((k - digits) as nat, |i: int| '0'),
        decreases width - k,
    {
        s.append("0");
        proof {
            reveal_strlit("0");
        }
        k += 1;
        assert(s@ =~= old(s)@ + Seq::new((k - digits) as nat, |i: int| '0'));
    }
    push_decimal(s, n as usize);
    assert(final(s)@ =~= old(s)@ + zero_padded(n as nat, width as nat));
}

/// The message part of a log line: in hex-only mode the data in hexadecimal
/// (the message when there is no data); otherwise the message followed by
/// ` [hex]` when there is data.
pub open spec fn message_text(e: LogEntry, hex_only: bool) -> Seq<char> {
    if hex_only {
        match e.data {
            Some(d) => hex_digits(d@),
            None => e.message@,
        }
    } else {
        match e.data {
            Some(d) => e.message@ + seq![' ', '['] + hex_digits(d@) + seq![']'],
            None => e.message@,
        }
    }
}

/// A displayed log line: `[HH:MM:SS.mmm] ` then the message part.
pub open spec fn line_text(e: LogEntry, hex_only: bool) -> Seq<char> {
    seq!['['] + time_text(e.timestamp) + seq![']', ' '] + message_text(e, hex_only)
}

impl LogEntry {
    /// An entry stamped with `timestamp` (milliseconds since the epoch).
    pub fn new(
        timestamp: u128,
        entry_type: LogEntryType,
        message: String,
        data: Option<Vec<u8>>,
    ) -> (e: Self)
        ensures
            e.timestamp == timestamp,
            e.entry_type == entry_type,
            e.message == message,
            e.data == data,
    {
        LogEntry { timestamp, entry_type, message, data }
    }

    /// The time of day of the entry, `HH:MM:SS.mmm`
    pub fn format_time(&self) -> (t: String)
        ensures
            t@ == time_text(self.timestamp),
    {
        let secs = (self.timestamp / 1000) % 86400;
        let hours = secs / 3600;
        let minutes = (secs % 3600) / 60;
        let seconds = secs % 60;
        let ms = self.timestamp % 1000;
        let mut t = String::new();
        push_padded(&mut t, hours, 2);
        t.append(":");
        push_padded(&mut t, minutes, 2);
        t.append(":");
        push_padded(&mut t, seconds, 2);
        t.append(".");
        push_padded(&mut t, ms, 3);
        assert(t@ =~= time_text(self.timestamp));
        t
    }

    /// The line the log shows for this entry, in hex-only mode or not.
    pub fn line_text(&self, hex_only: bool) -> (t: String)
        ensures
            t@ == line_text(*self, hex_only),
    {
        proof {
            reveal_strlit("[");
            reveal_strlit("] ");
            reveal_strlit(" [");
            reveal_strlit("]");
        }
        let mut t = String::new();
        t.append("[");
        let time = self.format_time();
        t.append(time.as_str());
        t.append("] ");
        match &self.data {
            Some(d) => {
                let digits = hex_encode(d.as_slice());
                if hex_only {
                    t.append(digits.as_str());
                } else {
                    t.append(self.message.as_str());
                    t.append(" [");
                    t.append(digits.as_str());
                    t.append("]");
                }
            },
            None => {
                t.append(self.message.as_str());
            },
        }
        assert(t@ =~= line_text(*self, hex_only));
        t
    }

    /// The CSS class of the entry
    pub fn type_class(&self) -> (c: &'static str)
        ensures
            c@ == match self.entry_type {
                LogEntryType::Tx => "tx"@,
                LogEntryType::Rx => "rx"@,
                LogEntryType::Info => "info"@,
                LogEntryType::Error => "err"@,
            },
    {
        match self.entry_type {
            LogEntryType::Tx => "tx",
            LogEntryType::Rx => "rx",
            LogEntryType::Info => "info",
            LogEntryType::Error => "err",
        }
    }
}

/// Append an entry to the log; beyond 500 entries the oldest is dropped.
pub fn push_entry(logs: &mut Vec<LogEntry>, entry: LogEntry)
    ensures
        old(logs)@.len() < MAX_LOG_ENTRIES ==> final(logs)@ == old(logs)@.push(entry),
        old(logs)@.len() >= MAX_LOG_ENTRIES ==> final(logs)@ == old(logs)@.push(entry).drop_first(),
{
    logs.push(entry);
    if logs.len() > MAX_LOG_ENTRIES {
        logs.remove(0);
        assert(logs@ =~= old(logs)@.push(entry).drop_first());
    }
}

/// The log never holds more than 500 entries, and the newest entry is always last.
pub proof fn lemma_log_bounded(logs: Seq<LogEntry>, entry: LogEntry)
    requires
        logs.len() <= MAX_LOG_ENTRIES,
    ensures
        ({
            let next = if logs.len() < MAX_LOG_ENTRIES {
                logs.push(entry)
            } else {
                logs.push(entry).drop_first()
            };
            &&& next.len() <= MAX_LOG_ENTRIES
            &&& next.last() == entry
        }),
{
}

} // verus!
