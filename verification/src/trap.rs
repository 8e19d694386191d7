//! The execution context record: the register image from which an
//! application is entered or resumed.

use vstd::prelude::*;
use vstd::bytes::{
    lemma_auto_spec_u64_to_from_le_bytes, spec_u64_from_le_bytes, spec_u64_to_le_bytes,
    u64_from_le_bytes, u64_to_le_bytes,
};
use vstd::slice::slice_subrange;

verus! {

/// Number of general-purpose registers.
pub const GENERAL_REGISTERS: usize = 32;

/// Index of the stack pointer among the general-purpose registers.
pub const STACK_POINTER: usize = 2;

/// Number of 64-bit words in a record.
pub const TRAP_CONTEXT_WORDS: usize = 34;

/// Size of a record in memory, in bytes.
pub const TRAP_CONTEXT_SIZE: usize = 34 * 8;

/// Saved register state.
///
/// In memory a record is 34 little-endian 64-bit words: the general-purpose
/// registers in order, the status word, and the program counter.
#[derive(Clone, Copy, Debug, PartialEq, Eq)]
pub struct TrapContext {
    /// General-purpose registers.
    pub x: [u64; 32],
    /// Status word. The privilege to return to is user mode when it is zero.
    pub sstatus: u64,
    /// Program counter at which execution continues.
    pub sepc: u64,
}

/// The `k`-th word of the record from which an application is first entered
/// at `entry` with its stack pointer at `sp`: the stack pointer and the
/// program counter are set, everything else is zero.
pub open spec fn app_init_word(entry: u64, sp: u64, k: int) -> u64 {
    if k == STACK_POINTER {
        sp
    } else if k == TRAP_CONTEXT_WORDS - 1 {
        entry
    } else {
        0
    }
}

/// That record as it lies in memory.
pub open spec fn app_init_image(entry: u64, sp: u64) -> Seq<u8> {
    Seq::new(
        TRAP_CONTEXT_SIZE as nat,
        |i: int| spec_u64_to_le_bytes(app_init_word(entry, sp, i / 8))[i % 8],
    )
}

impl TrapContext {
    /// The `k`-th word of the record in memory order.
    pub open spec fn word(&self, k: int) -> u64 {
        if 0 <= k < 32 {
            self.x@[k]
        } else if k == 32 {
            self.sstatus
        } else {
            self.sepc
        }
    }

    /// The record as it lies in memory.
    pub open spec fn bytes(&self) -> Seq<u8> {
        Seq::new(
            TRAP_CONTEXT_SIZE as nat,
            |i: int| spec_u64_to_le_bytes(self.word(i / 8))[i % 8],
        )
    }

    /// The context from which an application is entered for the first time:
    /// execution starts at `entry` with the stack pointer at `sp`, in user
    /// mode, and every other register is zero.
    pub fn app_init_context(entry: usize, sp: usize) -> (cx: Self)
        ensures
            forall|k: int|
                0 <= k < TRAP_CONTEXT_WORDS ==> #[trigger] cx.word(k) == app_init_word(
                    entry as u64,
                    sp as u64,
                    k,
                ),
            cx.bytes() == app_init_image(entry as u64, sp as u64),
    {
        let mut cx = TrapContext { x: [0u64; 32], sstatus: 0, sepc: entry as u64 };
        cx.set_sp(sp);
        assert(cx.bytes() =~= app_init_image(entry as u64, sp as u64));
        cx
    }

    /// Sets the stack pointer and nothing else.
    pub fn set_sp(&mut self, sp: usize)
        ensures
            final(self).x@ == old(self).x@.update(STACK_POINTER as int, sp as u64),
            final(self).sstatus == old(self).sstatus,
            final(self).sepc == old(self).sepc,
    {
        self.x[STACK_POINTER] = sp as u64;
    }

    /// The stack pointer held in the record.
    pub fn sp(&self) -> (sp: u64)
        ensures
            sp == self.x@[STACK_POINTER as int],
    {
        self.x[STACK_POINTER]
    }

    /// The `k`-th word of the record in memory order.
    pub fn get_word(&self, k: usize) -> (w: u64)
        requires
            k < TRAP_CONTEXT_WORDS,
        ensures
            w == self.word(k as int),
    {
        if k < GENERAL_REGISTERS {
            self.x[k]
        } else if k == GENERAL_REGISTERS {
            self.sstatus
        } else {
            self.sepc
        }
    }

    /// Lays the record out as bytes.
    pub fn to_bytes(&self) -> (out: Vec<u8>)
        ensures
            out@ == self.bytes(),
    {
        let mut out: Vec<u8> = Vec::new();
        let mut k: usize = 0;
        while k < TRAP_CONTEXT_WORDS
            invariant
                k <= TRAP_CONTEXT_WORDS,
                out@.len() == 8 * k,
                forall|i: int| 0 <= i < 8 * k ==> out@[i] == self.bytes()[i],
            decreases TRAP_CONTEXT_WORDS - k,
        {
            let word_bytes = u64_to_le_bytes(self.get_word(k));
            let mut j: usize = 0;
            while j < 8
                invariant
                    j <= 8,
                    k < TRAP_CONTEXT_WORDS,
                    word_bytes@ == spec_u64_to_le_bytes(self.word(k as int)),
                    word_bytes@.len() == 8,
                    out@.len() == 8 * k + j,
                    forall|i: int| 0 <= i < 8 * k + j ==> out@[i] == self.bytes()[i],
                decreases 8 - j,
            {
                out.push(word_bytes[j]);
                j += 1;
            }
            k += 1;
        }
        assert(out@ =~= self.bytes());
        out
    }

    /// Reads a record back from the bytes it was laid out as.
    ///
    /// Any 272 bytes are the layout of exactly one record.
    pub fn from_bytes(bytes: &[u8]) -> (cx: Option<Self>)
        ensures
            cx is Some <==> bytes@.len() == TRAP_CONTEXT_SIZE,
            cx matches Some(c) ==> c.bytes() == bytes@,
    {
        if bytes.len() != TRAP_CONTEXT_SIZE {
            return None;
        }
        let mut x: [u64; 32] = [0u64; 32];
        let mut k: usize = 0;
        while k < GENERAL_REGISTERS
            invariant
                k <= GENERAL_REGISTERS,
                bytes@.len() == TRAP_CONTEXT_SIZE,
                x@.len() == 32,
                forall|i: int| 0 <= i < k ==> x@[i] == spec_u64_from_le_bytes(
                    bytes@.subrange(8 * i, 8 * i + 8),
                ),
            decreases GENERAL_REGISTERS - k,
        {
            x[k] = u64_from_le_bytes(slice_subrange(bytes, 8 * k, 8 * k + 8));
            k += 1;
        }
        let sstatus = u64_from_le_bytes(slice_subrange(bytes, 256, 264));
        let sepc = u64_from_le_bytes(slice_subrange(bytes, 264, 272));
        let cx = TrapContext { x, sstatus, sepc };
        proof {
            lemma_auto_spec_u64_to_from_le_bytes();
            assert forall|i: int| 0 <= i < TRAP_CONTEXT_SIZE implies cx.bytes()[i] == bytes@[i] by {
                let w = i / 8;
                let part = bytes@.subrange(8 * w, 8 * w + 8);
                assert(cx.word(w) == spec_u64_from_le_bytes(part));
                assert(spec_u64_to_le_bytes(spec_u64_from_le_bytes(part)) == part);
                assert(part[i % 8] == bytes@[i]);
            }
            assert(cx.bytes() =~= bytes@);
        }
        Some(cx)
    }

    /// Two records with the same layout in memory are the same record.
    pub proof fn lemma_bytes_injective(a: TrapContext, b: TrapContext)
        requires
            a.bytes() == b.bytes(),
        ensures
            a == b,
    {
        lemma_auto_spec_u64_to_from_le_bytes();
        assert forall|k: int| 0 <= k < TRAP_CONTEXT_WORDS implies a.word(k) == b.word(k) by {
            assert forall|j: int| 0 <= j < 8 implies spec_u64_to_le_bytes(a.word(k))[j]
                == spec_u64_to_le_bytes(b.word(k))[j] by {
                let i = 8 * k + j;
                assert(i / 8 == k && i % 8 == j);
                assert(a.bytes()[i] == spec_u64_to_le_bytes(a.word(k))[j]);
                assert(b.bytes()[i] == spec_u64_to_le_bytes(b.word(k))[j]);
            }
            assert(spec_u64_to_le_bytes(a.word(k)) =~= spec_u64_to_le_bytes(b.word(k)));
            assert(spec_u64_from_le_bytes(spec_u64_to_le_bytes(a.word(k))) == a.word(k));
            assert(spec_u64_from_le_bytes(spec_u64_to_le_bytes(b.word(k))) == b.word(k));
        }
        assert(a.sstatus == a.word(32) && b.sstatus == b.word(32));
        assert(a.sepc == a.word(33) && b.sepc == b.word(33));
        assert forall|k: int| 0 <= k < 32 implies a.x@[k] == b.x@[k] by {
            assert(a.word(k) == b.word(k));
        }
        assert(a.x@ =~= b.x@);
        assert(a.x == b.x);
    }
}

} // verus!
