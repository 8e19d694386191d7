//! The two execution stacks and the staging of an execution context.
//!
//! Each stack is a page-aligned region of fixed size. The supervisor stack
//! also carries its content, because the context from which an application is
//! entered is written immediately below its top.

use vstd::prelude::*;
use vstd::slice::slice_subrange;
use crate::config::{
    APP_BASE_ADDRESS, APP_SIZE_LIMIT, KERNEL_STACK_SIZE, PAGE_SIZE, USER_STACK_SIZE,
};
use crate::trap::{app_init_image, TrapContext, TRAP_CONTEXT_SIZE};

verus! {

/// Whether the address ranges `[a_start, a_end)` and `[b_start, b_end)` share no address.
pub open spec fn disjoint(a_start: int, a_end: int, b_start: int, b_end: int) -> bool {
    a_end <= b_start || b_end <= a_start
}

/// Whether a region of `size` bytes can start at `base`: the address is
/// page-aligned and the region ends at or before the last address.
pub open spec fn region_fits(base: int, size: int) -> bool {
    0 <= base && base % (PAGE_SIZE as int) == 0 && base + size <= usize::MAX
}

/// The supervisor stack. The view is its content, lowest address first.
pub struct KernelStack {
    base: usize,
    data: Vec<u8>,
}

/// The application stack. Only its position matters here: nothing in this
/// crate reads or writes what an application keeps on it.
pub struct UserStack {
    base: usize,
}

impl View for KernelStack {
    type V = Seq<u8>;

    closed spec fn view(&self) -> Seq<u8> {
        self.data@
    }
}

impl KernelStack {
    /// Address of the lowest byte of the stack.
    pub closed spec fn base_addr(&self) -> int {
        self.base as int
    }

    /// Address one past the highest byte: the initial stack pointer.
    pub open spec fn top_addr(&self) -> int {
        self.base_addr() + KERNEL_STACK_SIZE
    }

    /// Address of the staged context: immediately below the top.
    pub open spec fn context_addr(&self) -> int {
        self.top_addr() - TRAP_CONTEXT_SIZE
    }

    /// The stack is page-aligned, `KERNEL_STACK_SIZE` bytes long, and its top is an address.
    pub open spec fn wf(&self) -> bool {
        region_fits(self.base_addr(), KERNEL_STACK_SIZE as int) && self@.len() == KERNEL_STACK_SIZE
    }

    /// Whether a whole record lies on the stack at `addr`.
    pub open spec fn holds_record_at(&self, addr: int) -> bool {
        self.base_addr() <= addr && addr + TRAP_CONTEXT_SIZE <= self.top_addr()
    }

    /// The bytes of the record at `addr`.
    pub open spec fn record_at(&self, addr: int) -> Seq<u8>
        recommends
            self.holds_record_at(addr),
    {
        self@.subrange(addr - self.base_addr(), addr - self.base_addr() + TRAP_CONTEXT_SIZE)
    }

    /// A zeroed stack at `base`, if a stack can start there.
    pub fn new(base: usize) -> (stack: Option<Self>)
        ensures
            stack is Some <==> region_fits(base as int, KERNEL_STACK_SIZE as int),
            stack matches Some(s) ==> {
                &&& s.wf()
                &&& s.base_addr() == base
                &&& forall|i: int| 0 <= i < KERNEL_STACK_SIZE ==> s@[i] == 0u8
            },
    {
        if base % PAGE_SIZE != 0 || base > usize::MAX - KERNEL_STACK_SIZE {
            None
        } else {
            Some(KernelStack { base, data: vec![0u8; KERNEL_STACK_SIZE] })
        }
    }

    /// The top of the stack.
    pub fn get_sp(&self) -> (sp: usize)
        requires
            self.wf(),
        ensures
            sp == self.top_addr(),
    {
        self.base + KERNEL_STACK_SIZE
    }

    /// The content of the stack, lowest address first.
    pub fn as_slice(&self) -> (bytes: &[u8])
        ensures
            bytes@ == self@,
    {
        self.data.as_slice()
    }

    /// The bytes of the staged record: the topmost `TRAP_CONTEXT_SIZE` bytes.
    pub fn staged_record(&self) -> (bytes: &[u8])
        requires
            self.wf(),
        ensures
            bytes@ == self.record_at(self.context_addr()),
    {
        slice_subrange(
            self.data.as_slice(),
            KERNEL_STACK_SIZE - TRAP_CONTEXT_SIZE,
            KERNEL_STACK_SIZE,
        )
    }

    /// Writes `cx` immediately below the top of the stack and returns the
    /// address at which it now lies.
    ///
    /// Whatever lay there before is overwritten; the rest of the stack is
    /// left as it was. There is room for one staged context only.
    pub fn push_context(&mut self, cx: TrapContext) -> (cx_addr: usize)
        requires
            old(self).wf(),
        ensures
            final(self).wf(),
            final(self).base_addr() == old(self).base_addr(),
            cx_addr == old(self).top_addr() - TRAP_CONTEXT_SIZE,
            final(self)@ == old(self)@.subrange(0, KERNEL_STACK_SIZE - TRAP_CONTEXT_SIZE)
                + cx.bytes(),
            final(self).record_at(cx_addr as int) == cx.bytes(),
    {
        let offset: usize = KERNEL_STACK_SIZE - TRAP_CONTEXT_SIZE;
        let record = cx.to_bytes();
        let mut i: usize = 0;
        while i < TRAP_CONTEXT_SIZE
            invariant
                i <= TRAP_CONTEXT_SIZE,
                offset == KERNEL_STACK_SIZE - TRAP_CONTEXT_SIZE,
                record@ == cx.bytes(),
                self.base == old(self).base,
                self.data@.len() == KERNEL_STACK_SIZE,
                forall|j: int| 0 <= j < offset ==> self.data@[j] == old(self).data@[j],
                forall|j: int| 0 <= j < i ==> self.data@[offset + j] == record@[j],
            decreases TRAP_CONTEXT_SIZE - i,
        {
            self.data[offset + i] = record[i];
            i += 1;
        }
        let cx_addr: usize = self.base + offset;
        proof {
            assert(self.data@ =~= old(self).data@.subrange(0, offset as int) + cx.bytes());
            assert(self.record_at(cx_addr as int) =~= cx.bytes());
        }
        cx_addr
    }

    /// The record that lies at `addr`, if a whole record lies on the stack there.
    pub fn context_at(&self, addr: usize) -> (cx: Option<TrapContext>)
        requires
            self.wf(),
        ensures
            cx is Some <==> self.holds_record_at(addr as int),
            cx matches Some(c) ==> c.bytes() == self.record_at(addr as int),
    {
        if addr < self.base || addr - self.base > KERNEL_STACK_SIZE - TRAP_CONTEXT_SIZE {
            return None;
        }
        let offset: usize = addr - self.base;
        TrapContext::from_bytes(
            slice_subrange(self.data.as_slice(), offset, offset + TRAP_CONTEXT_SIZE),
        )
    }
}

/// The record found at the address that `push_context` returned is the
/// record that was pushed.
pub proof fn lemma_pushed_context_reads_back(
    before: KernelStack,
    after: KernelStack,
    cx: TrapContext,
    found: TrapContext,
)
    requires
        before.wf(),
        after.base_addr() == before.base_addr(),
        after@ == before@.subrange(0, KERNEL_STACK_SIZE - TRAP_CONTEXT_SIZE) + cx.bytes(),
        found.bytes() == after.record_at(before.context_addr()),
    ensures
        after.holds_record_at(before.context_addr()),
        before.context_addr() == before.top_addr() - TRAP_CONTEXT_SIZE,
        found == cx,
{
    assert(after.record_at(before.context_addr()) =~= cx.bytes());
    TrapContext::lemma_bytes_injective(found, cx);
}

impl UserStack {
    /// Address of the lowest byte of the stack.
    pub closed spec fn base_addr(&self) -> int {
        self.base as int
    }

    /// Address one past the highest byte: the initial stack pointer.
    pub open spec fn top_addr(&self) -> int {
        self.base_addr() + USER_STACK_SIZE
    }

    /// The stack is page-aligned and its top is an address.
    pub open spec fn wf(&self) -> bool {
        region_fits(self.base_addr(), USER_STACK_SIZE as int)
    }

    /// A stack at `base`, if a stack can start there.
    pub fn new(base: usize) -> (stack: Option<Self>)
        ensures
            stack is Some <==> region_fits(base as int, USER_STACK_SIZE as int),
            stack matches Some(s) ==> s.wf() && s.base_addr() == base,
    {
        if base % PAGE_SIZE != 0 || base > usize::MAX - USER_STACK_SIZE {
            None
        } else {
            Some(UserStack { base })
        }
    }

    /// The top of the stack.
    pub fn get_sp(&self) -> (sp: usize)
        requires
            self.wf(),
        ensures
            sp == self.top_addr(),
    {
        self.base + USER_STACK_SIZE
    }
}

/// The supervisor stack and the application stack of one machine.
pub struct ExecutionStacks {
    kernel: KernelStack,
    user: UserStack,
}

impl ExecutionStacks {
    /// The supervisor stack.
    pub closed spec fn kernel_stack(&self) -> KernelStack {
        self.kernel
    }

    /// The application stack.
    pub closed spec fn user_stack(&self) -> UserStack {
        self.user
    }

    /// Both stacks are well-formed, and the two stacks and the execution
    /// window share no address.
    pub open spec fn wf(&self) -> bool {
        let k = self.kernel_stack();
        let u = self.user_stack();
        let window_start = APP_BASE_ADDRESS as int;
        let window_end = APP_BASE_ADDRESS + APP_SIZE_LIMIT;
        &&& k.wf()
        &&& u.wf()
        &&& disjoint(k.base_addr(), k.top_addr(), u.base_addr(), u.top_addr())
        &&& disjoint(k.base_addr(), k.top_addr(), window_start, window_end)
        &&& disjoint(u.base_addr(), u.top_addr(), window_start, window_end)
    }

    /// The record from which the application in the window is entered, as it
    /// lies in memory: execution starts at the base of the window, on top of
    /// the application stack.
    pub open spec fn entry_image(&self) -> Seq<u8> {
        app_init_image(APP_BASE_ADDRESS as u64, self.user_stack().top_addr() as u64)
    }

    /// Whether `self` is what `before` becomes when the entry context is
    /// staged: the record lies immediately below the top of the supervisor
    /// stack, and nothing else differs.
    pub open spec fn staged_from(&self, before: &Self) -> bool {
        &&& self.user_stack() == before.user_stack()
        &&& self.kernel_stack().base_addr() == before.kernel_stack().base_addr()
        &&& self.kernel_stack()@ == before.kernel_stack()@.subrange(
            0,
            KERNEL_STACK_SIZE - TRAP_CONTEXT_SIZE,
        ) + before.entry_image()
    }

    /// Two zeroed stacks at the given addresses, if each can start there and
    /// neither overlaps the other or the execution window.
    pub fn new(kernel_base: usize, user_base: usize) -> (stacks: Option<Self>)
        ensures
            stacks is Some <==> {
                &&& region_fits(kernel_base as int, KERNEL_STACK_SIZE as int)
                &&& region_fits(user_base as int, USER_STACK_SIZE as int)
                &&& disjoint(
                    kernel_base as int,
                    kernel_base + KERNEL_STACK_SIZE,
                    user_base as int,
                    user_base + USER_STACK_SIZE,
                )
                &&& disjoint(
                    kernel_base as int,
                    kernel_base + KERNEL_STACK_SIZE,
                    APP_BASE_ADDRESS as int,
                    APP_BASE_ADDRESS + APP_SIZE_LIMIT,
                )
                &&& disjoint(
                    user_base as int,
                    user_base + USER_STACK_SIZE,
                    APP_BASE_ADDRESS as int,
                    APP_BASE_ADDRESS + APP_SIZE_LIMIT,
                )
            },
            stacks matches Some(s) ==> {
                &&& s.wf()
                &&& s.kernel_stack().base_addr() == kernel_base
                &&& s.user_stack().base_addr() == user_base
                &&& forall|i: int| 0 <= i < KERNEL_STACK_SIZE ==> s.kernel_stack()@[i] == 0u8
            },
    {
        let kernel = match KernelStack::new(kernel_base) {
            Some(k) => k,
            None => { return None; },
        };
        let user = match UserStack::new(user_base) {
            Some(u) => u,
            None => { return None; },
        };
        let kernel_top = kernel.get_sp();
        let user_top = user.get_sp();
        let window_end: usize = APP_BASE_ADDRESS + APP_SIZE_LIMIT;
        if !(kernel_top <= user_base || user_top <= kernel_base) {
            return None;
        }
        if !(kernel_top <= APP_BASE_ADDRESS || window_end <= kernel_base) {
            return None;
        }
        if !(user_top <= APP_BASE_ADDRESS || window_end <= user_base) {
            return None;
        }
        Some(ExecutionStacks { kernel, user })
    }

    /// The supervisor stack.
    pub fn kernel(&self) -> (stack: &KernelStack)
        ensures
            *stack == self.kernel_stack(),
    {
        &self.kernel
    }

    /// The application stack.
    pub fn user(&self) -> (stack: &UserStack)
        ensures
            *stack == self.user_stack(),
    {
        &self.user
    }

    /// Stages the context from which the application in the window is
    /// entered, and returns the address to hand to the privilege switch.
    ///
    /// The record is written immediately below the top of the supervisor
    /// stack; nothing else changes.
    pub fn stage_entry_context(&mut self) -> (cx_addr: usize)
        requires
            old(self).wf(),
        ensures
            final(self).wf(),
            final(self).staged_from(old(self)),
            cx_addr == old(self).kernel_stack().context_addr(),
            final(self).kernel_stack().record_at(cx_addr as int) == old(self).entry_image(),
    {
        let cx = TrapContext::app_init_context(APP_BASE_ADDRESS, self.user.get_sp());
        self.kernel.push_context(cx)
    }
}

/// The staged record lies wholly on the supervisor stack, at an address
/// that suits its 64-bit words, and shares no address with the application
/// stack or with the execution window.
pub proof fn lemma_staged_record_is_apart(stacks: ExecutionStacks)
    requires
        stacks.wf(),
    ensures
        stacks.kernel_stack().holds_record_at(stacks.kernel_stack().context_addr()),
        stacks.kernel_stack().context_addr() % 8 == 0,
        disjoint(
            stacks.kernel_stack().context_addr(),
            stacks.kernel_stack().top_addr(),
            stacks.user_stack().base_addr(),
            stacks.user_stack().top_addr(),
        ),
        disjoint(
            stacks.kernel_stack().context_addr(),
            stacks.kernel_stack().top_addr(),
            APP_BASE_ADDRESS as int,
            APP_BASE_ADDRESS + APP_SIZE_LIMIT,
        ),
{
}

} // verus!
