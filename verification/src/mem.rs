use vstd::prelude::*;

verus! {

/// A text buffer.
#[derive(Debug, PartialEq)]
pub struct Buffer {
    pub buffer: String,
}

/// Double buffering where the next buffer may be missing.
pub struct Render {
    pub current_buffer: Buffer,
    pub next_buffer: Option<Buffer>,
}

impl Render {
    /// Where a next buffer is waiting, it becomes the current one and `buf` becomes the next;
    /// otherwise nothing changes.
    pub fn update_buffer(&mut self, buf: String)
        ensures
            old(self).next_buffer is Some ==> final(self).current_buffer == old(
                self,
            ).next_buffer.unwrap() && final(self).next_buffer == Some(Buffer { buffer: buf }),
            old(self).next_buffer is None ==> *final(self) == *old(self),
    {
        if self.next_buffer.is_some() {
            self.current_buffer = self.next_buffer.take().unwrap();
            self.next_buffer = Some(Buffer { buffer: buf });
        }
    }
}

/// Double buffering where the next buffer is always there.
pub struct Render1 {
    pub current_buffer: Buffer,
    pub next_buffer: Buffer,
}

impl Render1 {
    /// The next buffer becomes the current one and `buf` becomes the next.
    pub fn update_buffer(&mut self, buf: String)
        ensures
            final(self).current_buffer == old(self).next_buffer,
            final(self).next_buffer == (Buffer { buffer: buf }),
    {
        let mut incoming = Buffer { buffer: buf };
        std::mem::swap(&mut self.next_buffer, &mut incoming);
        self.current_buffer = incoming;
    }
}

} // verus!
