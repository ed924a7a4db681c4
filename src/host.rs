use vstd::prelude::*;

use vstd::utf8::encode_utf8;

use crate::error::LambdaError;

verus! {

/// The state of one invocation: the payload and trigger subject handed to
/// the guest, and the output the guest wrote last, if any.
pub struct HostState {
    pub input: Vec<u8>,
    pub output: Option<Vec<u8>>,
    pub trigger_subject: String,
    /// Set once a host operation refused an out-of-bounds access.
    pub violated: bool,
}

/// Guest memory after `src[..n]` has been copied to offset `ptr`.
pub open spec fn written(mem: Seq<u8>, ptr: int, src: Seq<u8>, n: int) -> Seq<u8> {
    mem.subrange(0, ptr) + src.subrange(0, n) + mem.subrange(ptr + n, mem.len() as int)
}

pub open spec fn min_len(len: u32, avail: int) -> int {
    if (len as int) < avail { len as int } else { avail }
}

/// Copies `min(len, src.len())` bytes of `src` into `memory` at `ptr` and
/// returns how many were copied; fails, leaving memory as it was, when the
/// destination range leaves the memory.
pub fn copy_to_guest(src: &[u8], memory: &mut [u8], ptr: u32, len: u32) -> (r: Result<u32, LambdaError>)
    ensures
        ({
            let n = min_len(len, src@.len() as int);
            if ptr as int + n <= old(memory)@.len() {
                r == Ok::<u32, LambdaError>(n as u32)
                    && final(memory)@ == written(old(memory)@, ptr as int, src@, n)
            } else {
                r is Err && r->Err_0 is MemoryAccessViolation && final(memory)@ == old(memory)@
            }
        }),
{
    let n: usize = if (len as usize) < src.len() { len as usize } else { src.len() };
    let p = ptr as usize;
    if p > memory.len() || n > memory.len() - p {
        return Err(LambdaError::MemoryAccessViolation);
    }
    let ghost mem0 = memory@;
    let mut k: usize = 0;
    while k < n
        invariant
            0 <= k <= n,
            n <= src@.len(),
            p + n <= mem0.len(),
            mem0.len() == old(memory)@.len(),
            mem0.len() <= usize::MAX,
            memory@.len() == mem0.len(),
            forall|i: int| 0 <= i < p ==> memory@[i] == mem0[i],
            forall|i: int| p <= i < p + k ==> memory@[i] == src@[i - p],
            forall|i: int| p + k <= i < mem0.len() ==> memory@[i] == mem0[i],
        decreases n - k,
    {
        memory[p + k] = src[k];
        k = k + 1;
    }
    assert(memory@ =~= written(mem0, p as int, src@, n as int));
    Ok(n as u32)
}

/// What `read_input` and `read_trigger` report to a guest that exports no
/// linear memory.
pub const NO_MEMORY: i32 = -1;

impl HostState {
    /// The bytes the guest wrote last, or `None` when it wrote nothing.
    pub open spec fn output_bytes(&self) -> Option<Seq<u8>> {
        match self.output {
            Some(v) => Some(v@),
            None => None,
        }
    }

    /// A fresh state for one invocation: nothing has been written yet.
    pub fn new(trigger_subject: &str, input: Vec<u8>) -> (r: Self)
        ensures
            r.input@ == input@,
            r.output_bytes() is None,
            r.trigger_subject@ == trigger_subject@,
            !r.violated,
    {
        HostState { input, output: None, trigger_subject: trigger_subject.to_owned(), violated: false }
    }

    /// Copies up to `len` bytes of the payload into guest memory at `ptr`.
    pub fn read_input(&mut self, memory: &mut [u8], ptr: u32, len: u32) -> (r: Result<u32, LambdaError>)
        ensures
            ({
                let n = min_len(len, old(self).input@.len() as int);
                if ptr as int + n <= old(memory)@.len() {
                    r == Ok::<u32, LambdaError>(n as u32)
                        && final(memory)@ == written(old(memory)@, ptr as int, old(self).input@, n)
                } else {
                    r is Err && r->Err_0 is MemoryAccessViolation && final(memory)@ == old(memory)@
                }
            }),
            final(self).input == old(self).input,
            final(self).output == old(self).output,
            final(self).trigger_subject == old(self).trigger_subject,
            final(self).violated == (old(self).violated || r is Err),
    {
        let r = copy_to_guest(self.input.as_slice(), memory, ptr, len);
        if r.is_err() {
            self.violated = true;
        }
        r
    }

    /// Copies up to `len` bytes of the trigger subject's UTF-8 encoding into
    /// guest memory at `ptr`.
    pub fn read_trigger(&mut self, memory: &mut [u8], ptr: u32, len: u32) -> (r: Result<u32, LambdaError>)
        ensures
            ({
                let src = encode_utf8(old(self).trigger_subject@);
                let n = min_len(len, src.len() as int);
                if ptr as int + n <= old(memory)@.len() {
                    r == Ok::<u32, LambdaError>(n as u32)
                        && final(memory)@ == written(old(memory)@, ptr as int, src, n)
                } else {
                    r is Err && r->Err_0 is MemoryAccessViolation && final(memory)@ == old(memory)@
                }
            }),
            final(self).input == old(self).input,
            final(self).output == old(self).output,
            final(self).trigger_subject == old(self).trigger_subject,
            final(self).violated == (old(self).violated || r is Err),
    {
        let r = copy_to_guest(self.trigger_subject.as_str().as_bytes(), memory, ptr, len);
        if r.is_err() {
            self.violated = true;
        }
        r
    }

    /// Replaces the output with the `len` bytes of guest memory at `ptr`.
    pub fn write_output(&mut self, memory: &[u8], ptr: u32, len: u32) -> (r: Result<(), LambdaError>)
        ensures
            if ptr as int + len as int <= memory@.len() {
                r is Ok
                    && final(self).output_bytes() == Some(memory@.subrange(ptr as int, ptr + len))
            } else {
                r is Err && r->Err_0 is MemoryAccessViolation
                    && final(self).output == old(self).output && final(self).violated
            },
            final(self).input == old(self).input,
            final(self).trigger_subject == old(self).trigger_subject,
            r is Ok ==> final(self).violated == old(self).violated,
    {
        let p = ptr as usize;
        let n = len as usize;
        let mlen = memory.len();
        if p > mlen || n > mlen - p {
            self.violated = true;
            return Err(LambdaError::MemoryAccessViolation);
        }
        let mut out: Vec<u8> = Vec::with_capacity(n);
        let mut k: usize = 0;
        while k < n
            invariant
                0 <= k <= n,
                p + n <= memory@.len(),
                memory@.len() <= usize::MAX,
                out@ == memory@.subrange(p as int, p + k),
            decreases n - k,
        {
            out.push(memory[p + k]);
            k = k + 1;
        }
        self.output = Some(out);
        Ok(())
    }
}

/// A copy of `v`.
fn copy_bytes(v: &Vec<u8>) -> (r: Vec<u8>)
    ensures
        r@ == v@,
{
    let mut r: Vec<u8> = Vec::with_capacity(v.len());
    let mut i: usize = 0;
    while i < v.len()
        invariant
            i <= v@.len(),
            r@ == v@.subrange(0, i as int),
        decreases v@.len() - i,
    {
        r.push(v[i]);
        i = i + 1;
    }
    r
}

/// The result of an invocation, from the state it left behind and from the
/// call of its entry point: `None` when the module exports no `handle`,
/// else what the call returned (an error as its message).
pub open spec fn finish_spec(state: HostState, call: Option<Result<(), String>>) -> Result<Option<Seq<u8>>, LambdaError> {
    match call {
        None => Err(LambdaError::MissingEntryPoint),
        Some(Ok(())) => Ok(state.output_bytes()),
        Some(Err(msg)) => if state.violated {
            Err(LambdaError::MemoryAccessViolation)
        } else {
            Err(LambdaError::GuestTrap(msg))
        },
    }
}

pub open spec fn result_bytes(r: Result<Option<Vec<u8>>, LambdaError>) -> Result<Option<Seq<u8>>, LambdaError> {
    match r {
        Ok(Some(v)) => Ok(Some(v@)),
        Ok(None) => Ok(None),
        Err(e) => Err(e),
    }
}

/// Concludes an invocation: the output the guest wrote last, nothing when it
/// wrote none, or the error that stopped it.
pub fn finish_invocation(state: &HostState, call: Option<Result<(), String>>) -> (r: Result<Option<Vec<u8>>, LambdaError>)
    ensures
        result_bytes(r) == finish_spec(*state, call),
{
    match call {
        None => Err(LambdaError::MissingEntryPoint),
        Some(Ok(())) => match &state.output {
            Some(v) => Ok(Some(copy_bytes(v))),
            None => Ok(None),
        },
        Some(Err(msg)) => if state.violated {
            Err(LambdaError::MemoryAccessViolation)
        } else {
            Err(LambdaError::GuestTrap(msg))
        },
    }
}

} // verus!
