//! The memory image: one byte buffer split into contiguous segments.

use crate::config::{
    Data, Word, APPENDED_SIZE, CODE_OFFSET, CODE_SIZE_OFFSET, EVENT_HANDLERS, EVENT_HANDLERS_SIZE,
    EVENT_QUEUE_SIZE, LOCALS_STACK_SIZE, MAX_EXECUTABLE_SIZE, REGISTERS_SIZE, RETURN_STACK_SIZE,
    WORD_SIZE,
};
use byteorder::{ByteOrder, LittleEndian};
use vstd::prelude::*;

verus! {

/// The little-endian word held by `s[i]` and `s[i + 1]`.
pub open spec fn word_at(s: Seq<u8>, i: int) -> int {
    s[i] as int + 256 * s[i + 1] as int
}

/// `s` with the word `w` written little-endian at `i`.
pub open spec fn with_word(s: Seq<u8>, i: int, w: Word) -> Seq<u8> {
    s.update(i, (w % 256) as u8).update(i + 1, (w / 256) as u8)
}

/// Byte `i` of an executable padded with zeros past its end.
pub open spec fn padded_byte(exe: Seq<u8>, i: int) -> int {
    if 0 <= i < exe.len() {
        exe[i] as int
    } else {
        0
    }
}

/// The code size an executable declares in its first word.
pub open spec fn declared_code_size(exe: Seq<u8>) -> int {
    padded_byte(exe, 0) + 256 * padded_byte(exe, 1)
}

/// An executable whose image, and whose code segment within it, are
/// addressable by a word.
pub open spec fn loadable(exe: Seq<u8>) -> bool {
    &&& exe.len() <= MAX_EXECUTABLE_SIZE
    &&& CODE_OFFSET + declared_code_size(exe) <= exe.len() + APPENDED_SIZE
}

/// The image built from an executable: its bytes, then zeroed regions.
pub open spec fn image_of(exe: Seq<u8>) -> Seq<u8> {
    exe + Seq::new(APPENDED_SIZE as nat, |i: int| 0u8)
}

/// The segment bounds of the image built from an executable.
pub open spec fn layout_of(exe: Seq<u8>) -> Layout {
    let size = exe.len() as Word;
    let code_end = (CODE_OFFSET + declared_code_size(exe)) as Word;
    let locals_stack_begin = (size + REGISTERS_SIZE) as Word;
    let locals_stack_end = (locals_stack_begin + LOCALS_STACK_SIZE) as Word;
    let return_stack_end = (locals_stack_end + RETURN_STACK_SIZE) as Word;
    let event_handlers_end = (return_stack_end + EVENT_HANDLERS_SIZE) as Word;
    Layout {
        executable_size: size,
        code_begin: CODE_OFFSET,
        code_end,
        data_begin: if code_end <= size {
            code_end
        } else {
            size
        },
        data_end: size,
        locals_stack_begin,
        locals_stack_end,
        return_stack_begin: locals_stack_end,
        return_stack_end,
        event_handlers_begin: return_stack_end,
        event_handlers_end,
        event_queue_begin: event_handlers_end,
        event_queue_end: (event_handlers_end + EVENT_QUEUE_SIZE) as Word,
    }
}

/// Relies on byteorder's `LittleEndian::read_u16`: the word made of the two
/// bytes at `index`, low byte first.
#[verifier::external_body]
fn le_read_u16(buf: &[u8], index: usize) -> (r: u16)
    requires
        index + 2 <= buf@.len(),
    ensures
        r as int == word_at(buf@, index as int),
{
    LittleEndian::read_u16(&buf[index..])
}

/// Relies on byteorder's `LittleEndian::write_u16`: the two bytes at `index`
/// become the word, low byte first; no other byte changes.
#[verifier::external_body]
fn le_write_u16(buf: &mut [u8], index: usize, n: u16)
    requires
        index + 2 <= old(buf)@.len(),
    ensures
        final(buf)@ == with_word(old(buf)@, index as int, n),
{
    LittleEndian::write_u16(&mut buf[index..], n)
}

/// The segment bounds of a memory image.
pub struct Layout {
    pub executable_size: Word,
    pub code_begin: Word,
    pub code_end: Word,
    pub data_begin: Word,
    pub data_end: Word,
    pub locals_stack_begin: Word,
    pub locals_stack_end: Word,
    pub return_stack_begin: Word,
    pub return_stack_end: Word,
    pub event_handlers_begin: Word,
    pub event_handlers_end: Word,
    pub event_queue_begin: Word,
    pub event_queue_end: Word,
}

impl Layout {
    /// The segments lie in order past the executable.
    pub open spec fn wf(&self) -> bool {
        &&& self.executable_size <= MAX_EXECUTABLE_SIZE
        &&& self.code_begin == CODE_OFFSET
        &&& self.code_begin <= self.code_end <= self.event_queue_end
        &&& self.data_begin == if self.code_end <= self.executable_size {
            self.code_end
        } else {
            self.executable_size
        }
        &&& self.data_end == self.executable_size
        &&& self.locals_stack_begin == self.executable_size + REGISTERS_SIZE
        &&& self.locals_stack_end == self.locals_stack_begin + LOCALS_STACK_SIZE
        &&& self.return_stack_begin == self.locals_stack_end
        &&& self.return_stack_end == self.return_stack_begin + RETURN_STACK_SIZE
        &&& self.event_handlers_begin == self.return_stack_end
        &&& self.event_handlers_end == self.event_handlers_begin + EVENT_HANDLERS_SIZE
        &&& self.event_queue_begin == self.event_handlers_end
        &&& self.event_queue_end == self.event_queue_begin + EVENT_QUEUE_SIZE
    }

    /// Address of the handler-table entry of `event`.
    pub open spec fn handler_slot(&self, event: u8) -> int {
        self.event_handlers_begin + event * WORD_SIZE
    }

    pub open spec fn in_code(&self, index: int) -> bool {
        self.code_begin <= index < self.code_end
    }

    pub open spec fn in_data(&self, index: int) -> bool {
        self.data_begin <= index < self.data_end
    }
}

pub struct Memory {
    pub raw: Data,
    pub executable_size: Word,
    pub code_begin: Word,
    pub code_end: Word,
    pub data_begin: Word,
    pub data_end: Word,
    pub locals_stack_begin: Word,
    pub locals_stack_end: Word,
    pub return_stack_begin: Word,
    pub return_stack_end: Word,
    pub event_handlers_begin: Word,
    pub event_handlers_end: Word,
    pub event_queue_begin: Word,
    pub event_queue_end: Word,
}

impl Memory {
    pub open spec fn layout(&self) -> Layout {
        Layout {
            executable_size: self.executable_size,
            code_begin: self.code_begin,
            code_end: self.code_end,
            data_begin: self.data_begin,
            data_end: self.data_end,
            locals_stack_begin: self.locals_stack_begin,
            locals_stack_end: self.locals_stack_end,
            return_stack_begin: self.return_stack_begin,
            return_stack_end: self.return_stack_end,
            event_handlers_begin: self.event_handlers_begin,
            event_handlers_end: self.event_handlers_end,
            event_queue_begin: self.event_queue_begin,
            event_queue_end: self.event_queue_end,
        }
    }

    /// The segments lie in order past the executable, and the buffer ends
    /// where the event queue ends.
    pub open spec fn wf(&self) -> bool {
        &&& self.layout().wf()
        &&& self.raw@.len() == self.event_queue_end
    }

    /// Both memories have the same segment bounds.
    pub open spec fn same_layout(&self, other: &Memory) -> bool {
        self.layout() == other.layout()
    }

    /// Whether an executable can be loaded: see `loadable`.
    pub fn is_loadable(executable: &[u8]) -> (r: bool)
        ensures
            r == loadable(executable@),
    {
        let len = executable.len();
        if len > MAX_EXECUTABLE_SIZE as usize {
            return false;
        }
        let lo: usize = if len > 0 { executable[0] as usize } else { 0 };
        let hi: usize = if len > 1 { executable[1] as usize } else { 0 };
        CODE_OFFSET as usize + lo + 256 * hi <= len + APPENDED_SIZE as usize
    }

    pub fn from_executable(executable: Data) -> (m: Memory)
        requires
            loadable(executable@),
        ensures
            m.wf(),
            m.raw@ == image_of(executable@),
            m.layout() == layout_of(executable@),
    {
        let mut executable = executable;
        let ghost given = executable@;
        let executable_size = executable.len() as Word;
        let new_size = executable_size + APPENDED_SIZE;
        executable.resize(new_size as usize, 0);
        proof {
            assert forall|i: int| 0 <= i < executable@.len() implies executable@[i] == image_of(
                given,
            )[i] by {
                if i >= given.len() {
                    assert(cloned::<u8>(0u8, executable@[i]));
                } else {
                    assert(executable@.subrange(0, given.len() as int)[i] == given[i]);
                }
            }
            assert(executable@ =~= image_of(given));
        }

        let code_size = Self::read_word(executable.as_slice(), CODE_SIZE_OFFSET);
        let code_begin = CODE_OFFSET;
        let code_end = CODE_OFFSET + code_size;

        let locals_stack_begin = executable_size + REGISTERS_SIZE;
        let locals_stack_end = locals_stack_begin + LOCALS_STACK_SIZE;

        let return_stack_begin = locals_stack_end;
        let return_stack_end = return_stack_begin + RETURN_STACK_SIZE;

        let data_begin = if code_end <= executable_size {
            code_end
        } else {
            executable_size
        };
        let data_end = executable_size;

        let event_handlers_begin = return_stack_end;
        let event_handlers_end = return_stack_end + EVENT_HANDLERS_SIZE;

        let event_queue_begin = event_handlers_end;
        let event_queue_end = event_handlers_end + EVENT_QUEUE_SIZE;

        Memory {
            raw: executable,
            executable_size,
            code_begin,
            code_end,
            data_begin,
            data_end,
            locals_stack_begin,
            locals_stack_end,
            return_stack_begin,
            return_stack_end,
            event_handlers_begin,
            event_handlers_end,
            event_queue_begin,
            event_queue_end,
        }
    }

    pub fn code(&self) -> (r: &[u8])
        requires
            self.wf(),
        ensures
            r@ == self.raw@.subrange(self.code_begin as int, self.code_end as int),
    {
        let begin = self.code_begin as usize;
        let end = self.code_end as usize;
        &self.raw[begin..end]
    }

    pub fn data(&self) -> (r: &[u8])
        requires
            self.wf(),
        ensures
            r@ == self.raw@.subrange(self.data_begin as int, self.data_end as int),
    {
        let begin = self.data_begin as usize;
        let end = self.data_end as usize;
        &self.raw[begin..end]
    }

    /// The live part of the locals stack, top first.
    pub fn locals_stack(&self, sp: Word) -> (r: &[u8])
        requires
            self.wf(),
            self.locals_stack_begin <= sp <= self.locals_stack_end,
        ensures
            r@ == self.raw@.subrange(sp as int, self.locals_stack_end as int),
    {
        let sp = sp as usize;
        let locals_stack_end = self.locals_stack_end as usize;
        &self.raw[sp..locals_stack_end]
    }

    /// The live part of the return stack, top first.
    pub fn return_stack(&self, rp: Word) -> (r: &[u8])
        requires
            self.wf(),
            self.return_stack_begin <= rp <= self.return_stack_end,
        ensures
            r@ == self.raw@.subrange(rp as int, self.return_stack_end as int),
    {
        let rp = rp as usize;
        let return_stack_end = self.return_stack_end as usize;
        &self.raw[rp..return_stack_end]
    }

    pub open spec fn handler_slot(&self, event: u8) -> int {
        self.layout().handler_slot(event)
    }

    pub fn get_event_handler(&self, event: u8) -> (r: Word)
        requires
            self.wf(),
            event < EVENT_HANDLERS,
        ensures
            r as int == word_at(self.raw@, self.handler_slot(event)),
    {
        let event = event as Word;
        let offset = self.event_handlers_begin + event * WORD_SIZE;
        self.get_word(offset)
    }

    pub fn set_event_handler(&mut self, event: u8, handler: Word)
        requires
            old(self).wf(),
            event < EVENT_HANDLERS,
            handler == 0 || old(self).is_in_code_spec(handler),
        ensures
            final(self).wf(),
            final(self).same_layout(old(self)),
            final(self).raw@ == with_word(old(self).raw@, old(self).handler_slot(event), handler),
    {
        let event = event as Word;
        let offset = self.event_handlers_begin + event * WORD_SIZE;
        self.put_word(offset, handler);
    }

    /// The pending events, newest first, as (event, argument) pairs.
    pub fn event_queue(&self, ep: Word, ee: Word) -> (r: &[u8])
        requires
            self.wf(),
            self.event_queue_begin <= ep <= ee <= self.event_queue_end,
        ensures
            r@ == self.raw@.subrange(ep as int, ee as int),
    {
        let ep = ep as usize;
        let ee = ee as usize;
        &self.raw[ep..ee]
    }

    pub open spec fn is_in_code_spec(&self, index: Word) -> bool {
        self.layout().in_code(index as int)
    }

    pub open spec fn is_in_data_spec(&self, index: Word) -> bool {
        self.layout().in_data(index as int)
    }

    pub fn is_in_code(&self, index: Word) -> (r: bool)
        ensures
            r == self.is_in_code_spec(index),
    {
        index >= self.code_begin && index < self.code_end
    }

    pub fn is_in_data(&self, index: Word) -> (r: bool)
        ensures
            r == self.is_in_data_spec(index),
    {
        index >= self.data_begin && index < self.data_end
    }

    pub fn get(&self, index: Word) -> (r: u8)
        requires
            index < self.raw@.len(),
        ensures
            r == self.raw@[index as int],
    {
        self.raw[index as usize]
    }

    pub fn put(&mut self, index: Word, value: u8)
        requires
            index < old(self).raw@.len(),
        ensures
            final(self).same_layout(old(self)),
            final(self).raw@ == old(self).raw@.update(index as int, value),
    {
        self.raw.set(index as usize, value);
    }

    pub fn get_word(&self, index: Word) -> (r: Word)
        requires
            index + WORD_SIZE <= self.raw@.len(),
        ensures
            r as int == word_at(self.raw@, index as int),
    {
        Self::read_word(self.raw.as_slice(), index)
    }

    pub fn put_word(&mut self, index: Word, value: Word)
        requires
            index + WORD_SIZE <= old(self).raw@.len(),
        ensures
            final(self).same_layout(old(self)),
            final(self).raw@ == with_word(old(self).raw@, index as int, value),
    {
        Self::write_word(self.raw.as_mut_slice(), index, value)
    }

    pub fn read_word(data: &[u8], index: Word) -> (r: Word)
        requires
            index + WORD_SIZE <= data@.len(),
        ensures
            r as int == word_at(data@, index as int),
    {
        le_read_u16(data, index as usize)
    }

    pub fn write_word(data: &mut [u8], index: Word, value: Word)
        requires
            index + WORD_SIZE <= old(data)@.len(),
        ensures
            final(data)@ == with_word(old(data)@, index as int, value),
    {
        le_write_u16(data, index as usize, value)
    }
}

} // verus!
