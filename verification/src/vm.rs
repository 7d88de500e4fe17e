//! The cooperative virtual machine that runs compiled contract programs.
use vstd::prelude::*;
use crate::cscl::token::Opcode;
use crate::string_map::StringMap;

verus! {

/// A value on the machine's stack or in its memory.
#[derive(Debug, Clone, PartialEq)]
pub enum Value {
    Int(i64),
    /// A binary64 floating-point number, as its bit pattern.
    Float(u64),
    Bool(bool),
    String(String),
}

/// The machine: a stack, a named memory, a program and a program counter.
pub struct CoopVM {
    stack: Vec<Value>,
    memory: StringMap<Value>,
    program: Vec<Opcode>,
    pc: usize,
}

impl CoopVM {
    /// The values on the stack, bottom first.
    pub closed spec fn stack_seq(&self) -> Seq<Value> {
        self.stack@
    }

    /// The memory, by name.
    pub closed spec fn memory_map(&self) -> Map<Seq<char>, Value> {
        self.memory@
    }

    /// The program.
    pub closed spec fn program_seq(&self) -> Seq<Opcode> {
        self.program@
    }

    /// The position of the next instruction.
    pub closed spec fn counter(&self) -> usize {
        self.pc
    }

    /// A machine loaded with `program`, at its first instruction, with an
    /// empty stack and memory.
    pub fn new(program: Vec<Opcode>) -> (vm: Self)
        ensures
            vm.program_seq() == program@,
            vm.counter() == 0,
            vm.stack_seq() == Seq::<Value>::empty(),
            vm.memory_map() == Map::<Seq<char>, Value>::empty(),
    {
        CoopVM { stack: Vec::new(), memory: StringMap::new(), program, pc: 0 }
    }

    /// Carries out the instruction at the counter. No instruction changes
    /// the stack or the memory yet.
    fn execute_instruction(&mut self) -> (r: Result<(), String>)
        ensures
            r is Ok,
            *final(self) == *old(self),
    {
        Ok(())
    }

    /// Runs the program from the counter to its end.
    pub fn run(&mut self) -> (r: Result<(), String>)
        ensures
            r is Ok,
            final(self).counter() == if old(self).counter() < old(self).program_seq().len() {
                old(self).program_seq().len()
            } else {
                old(self).counter() as nat
            },
            final(self).program_seq() == old(self).program_seq(),
            final(self).stack_seq() == old(self).stack_seq(),
            final(self).memory_map() == old(self).memory_map(),
    {
        let n = self.program.len();
        while self.pc < n
            invariant
                n == self.program@.len(),
                self.program == old(self).program,
                self.stack == old(self).stack,
                self.memory == old(self).memory,
                old(self).pc < n ==> self.pc <= n,
                old(self).pc >= n ==> self.pc == old(self).pc,
            decreases n - self.pc,
        {
            self.execute_instruction()?;
            self.pc = self.pc + 1;
        }
        Ok(())
    }

    /// Loads `program` and moves the counter to its first instruction.
    pub fn load_program(&mut self, program: Vec<Opcode>)
        ensures
            final(self).program_seq() == program@,
            final(self).counter() == 0,
            final(self).stack_seq() == old(self).stack_seq(),
            final(self).memory_map() == old(self).memory_map(),
    {
        self.program = program;
        self.pc = 0;
    }

    /// The stack.
    pub fn get_stack(&self) -> (s: &Vec<Value>)
        ensures
            s@ == self.stack_seq(),
    {
        &self.stack
    }

    /// The memory.
    pub fn get_memory(&self) -> (m: &StringMap<Value>)
        ensures
            m@ == self.memory_map(),
    {
        &self.memory
    }
}

/// Running a program that has run to its end changes nothing: a second
/// run leaves the counter at the end.
pub proof fn lemma_run_twice(program_len: nat, start: nat, first: nat, second: nat)
    requires
        first == if start < program_len {
            program_len
        } else {
            start
        },
        second == if first < program_len {
            program_len
        } else {
            first
        },
    ensures
        second == first,
        first >= program_len,
{
}

} // verus!
