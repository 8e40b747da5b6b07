use vstd::prelude::*;
use vstd::string::StringSliceAdditionalSpecFns;

use arrayvec::ArrayString;

verus! {

/// Bytes the console log holds at most.
pub const STATIC_LOG_MAX_CHARACTERS: usize = 65535;

#[verifier::external_type_specification]
#[verifier::external_body]
pub struct ExArrayString<const CAP: usize>(ArrayString<CAP>);

/// The bytes held by a log buffer.
pub uninterp spec fn log_text(b: ArrayString<65535>) -> Seq<u8>;

/// Relies on arrayvec::ArrayString::new: an empty string. The capacity is below
/// the crate's limit, so the call does not panic.
#[verifier::external_body]
fn buffer_new() -> (r: ArrayString<65535>)
    ensures
        log_text(r) == Seq::<u8>::empty(),
{
    ArrayString::<65535>::new()
}

/// Relies on arrayvec::ArrayString::len: the number of bytes held, never above the capacity.
#[verifier::external_body]
fn buffer_len(b: &ArrayString<65535>) -> (r: usize)
    ensures
        r == log_text(*b).len(),
        r <= STATIC_LOG_MAX_CHARACTERS,
{
    b.len()
}

/// Relies on arrayvec::ArrayString::push_str: appends the bytes of `s`; it panics
/// only where they do not fit, which `requires` rules out.
#[verifier::external_body]
fn buffer_push(b: &mut ArrayString<65535>, s: &str)
    requires
        log_text(*old(b)).len() + s.spec_bytes().len() <= STATIC_LOG_MAX_CHARACTERS,
    ensures
        log_text(*final(b)) == log_text(*old(b)) + s.spec_bytes(),
{
    b.push_str(s)
}

/// Relies on arrayvec::ArrayString::as_str: the bytes held, in order.
#[verifier::external_body]
fn buffer_bytes(b: &ArrayString<65535>) -> (r: Vec<u8>)
    ensures
        r@ == log_text(*b),
{
    b.as_str().as_bytes().to_vec()
}

/// The log refused a write: it would overflow the buffer.
#[derive(Debug, Clone, Copy, PartialEq, Eq, Structural)]
pub struct LogFull;

/// A bounded text buffer: it takes writes until the next one would not fit, and
/// then refuses that one and keeps what it has.
pub struct StaticLog {
    content: ArrayString<65535>,
}

impl StaticLog {
    /// What the log holds.
    pub closed spec fn text(&self) -> Seq<u8> {
        log_text(self.content)
    }

    pub fn new() -> (r: StaticLog)
        ensures
            r.text() == Seq::<u8>::empty(),
    {
        StaticLog { content: buffer_new() }
    }

    /// Appends `s` if it fits in what is left of the buffer; else refuses it and
    /// changes nothing. Text taken is to be mirrored to the raw output sink by the caller.
    pub fn write_str(&mut self, s: &str) -> (r: Result<(), LogFull>)
        ensures
            old(self).text().len() + s.spec_bytes().len() <= STATIC_LOG_MAX_CHARACTERS ==> r is Ok
                && final(self).text() == old(self).text() + s.spec_bytes(),
            old(self).text().len() + s.spec_bytes().len() > STATIC_LOG_MAX_CHARACTERS ==> r == Err::<
                (),
                LogFull,
            >(LogFull) && final(self).text() == old(self).text(),
    {
        let used = buffer_len(&self.content);
        if s.as_bytes().len() > STATIC_LOG_MAX_CHARACTERS - used {
            return Err(LogFull);
        }
        buffer_push(&mut self.content, s);
        Ok(())
    }

    /// A copy of what the log holds.
    pub fn contents(&self) -> (r: Vec<u8>)
        ensures
            r@ == self.text(),
    {
        buffer_bytes(&self.content)
    }
}

/// Writes `msg` to the console log `log`.
pub fn print(log: &mut StaticLog, msg: &str) -> (r: Result<(), LogFull>)
    ensures
        old(log).text().len() + msg.spec_bytes().len() <= STATIC_LOG_MAX_CHARACTERS ==> r is Ok
            && final(log).text() == old(log).text() + msg.spec_bytes(),
        old(log).text().len() + msg.spec_bytes().len() > STATIC_LOG_MAX_CHARACTERS ==> r == Err::<
            (),
            LogFull,
        >(LogFull) && final(log).text() == old(log).text(),
{
    log.write_str(msg)
}

} // verus!
