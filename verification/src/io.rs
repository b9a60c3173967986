use vstd::prelude::*;

verus! {

#[verifier::external_type_specification]
#[verifier::external_body]
pub struct ExIoError(std::io::Error);

/// A writer that accepts only half of every write.
pub struct PartialWrite;

impl std::io::Write for PartialWrite {
    /// Accepts the first half of `buf` (rounded down) and reports how many bytes that is.
    fn write(&mut self, buf: &[u8]) -> (r: std::io::Result<usize>)
        ensures
            r matches Ok(n) && n == buf@.len() / 2,
    {
        if buf.len() != 0 {
            Ok(buf.len() / 2)
        } else {
            Ok(0)
        }
    }

    /// Flushing always succeeds: nothing is buffered.
    fn flush(&mut self) -> (r: std::io::Result<()>)
        ensures
            r is Ok,
    {
        Ok(())
    }
}

} // verus!
