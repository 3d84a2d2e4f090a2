use vstd::prelude::*;
use vstd::string::StringSliceAdditionalSpecFns;
use vstd::utf8::{decode_utf8, valid_utf8};
use crate::error::ToyArmsExternalError;
use crate::pattern::{compile_pattern, compile_spec};
use crate::scanner::{is_first_match, search};
use crate::utils::{read_null_terminated_string, until_nul};

verus! {

/// Addresses wrap around the address space.
pub open spec fn wrap_address(v: int) -> int {
    v % (usize::MAX as int + 1)
}

/// `r` is the result of scanning the bytes `memory`, which were copied from
/// the address `base` on, for the signature string with bytes `pattern`: the
/// absolute address of the first match, `None` when nothing matches, or
/// `MalformedPattern` when the string does not compile.
pub open spec fn scan_result(
    memory: Seq<u8>,
    pattern: Seq<u8>,
    base: int,
    r: Result<Option<usize>, ToyArmsExternalError>,
) -> bool {
    match compile_spec(pattern) {
        None => r == Err::<Option<usize>, ToyArmsExternalError>(ToyArmsExternalError::MalformedPattern),
        Some(tokens) => match r {
            Ok(Some(a)) => base <= a && is_first_match(memory, tokens, Some((a - base) as usize)),
            Ok(None) => is_first_match(memory, tokens, None),
            Err(_) => false,
        },
    }
}

/// Compiles `pattern` and searches `memory`, which holds the bytes found from
/// address `base` on, giving the absolute address of the first match.
pub fn scan_memory(memory: &[u8], pattern: &str, base: usize) -> (r: Result<
    Option<usize>,
    ToyArmsExternalError,
>)
    requires
        base + memory@.len() <= usize::MAX,
    ensures
        scan_result(memory@, pattern.spec_bytes(), base as int, r),
{
    let tokens = match compile_pattern(pattern) {
        Ok(t) => t,
        Err(e) => {
            return Err(e);
        },
    };
    match search(memory, tokens.as_slice()) {
        Some(k) => {
            assert((base + k - base) as usize == k);
            Ok(Some(base + k))
        },
        None => Ok(None),
    }
}

fn wrapping_add_address(a: usize, b: usize) -> (r: usize)
    ensures
        r as int == wrap_address(a + b),
{
    if b <= usize::MAX - a {
        assert(wrap_address(a + b) == a + b) by (nonlinear_arith)
            requires
                0 <= a + b <= usize::MAX,
        ;
        a + b
    } else {
        let r = b - (usize::MAX - a) - 1;
        assert(wrap_address(a + b) == r) by (nonlinear_arith)
            requires
                r == a + b - (usize::MAX + 1),
                0 <= r <= usize::MAX,
        ;
        r
    }
}

fn wrapping_sub_address(a: usize, b: usize) -> (r: usize)
    ensures
        r as int == wrap_address(a - b),
{
    if b <= a {
        assert(wrap_address(a - b) == a - b) by (nonlinear_arith)
            requires
                0 <= a - b <= usize::MAX,
        ;
        a - b
    } else {
        let r = usize::MAX - (b - a) + 1;
        assert(wrap_address(a - b) == r) by (nonlinear_arith)
            requires
                r == a - b + (usize::MAX + 1),
                0 <= r <= usize::MAX,
        ;
        r
    }
}

/// A module loaded in a target process: its memory extent
/// `[module_base_address, module_base_address + module_size)`, its name and
/// the path of its file.
#[derive(Debug)]
pub struct Module {
    pub process_handle: usize,
    pub module_size: u32,
    pub module_base_address: usize,
    pub module_handle: usize,
    pub module_name: String,
    pub module_file_path: String,
}

impl Module {
    /// Builds the descriptor of a module found in a snapshot of the process
    /// behind `process_handle`. `path_field` is the entry's zero-terminated
    /// path field; it must hold UTF-8.
    pub fn from_module_entry(
        process_handle: usize,
        module_base_address: usize,
        module_size: u32,
        module_handle: usize,
        module_name: &str,
        path_field: &[u8],
    ) -> (r: Result<Module, ToyArmsExternalError>)
        ensures
            match r {
                Ok(m) => {
                    &&& valid_utf8(until_nul(path_field@))
                    &&& m.process_handle == process_handle
                    &&& m.module_base_address == module_base_address
                    &&& m.module_size == module_size
                    &&& m.module_handle == module_handle
                    &&& m.module_name@ == module_name@
                    &&& m.module_file_path@ == decode_utf8(until_nul(path_field@))
                },
                Err(e) => !valid_utf8(until_nul(path_field@)) && e == ToyArmsExternalError::InvalidName,
            },
    {
        let module_file_path = match read_null_terminated_string(path_field) {
            Ok(p) => p,
            Err(e) => {
                return Err(e);
            },
        };
        Ok(
            Module {
                process_handle,
                module_size,
                module_base_address,
                module_handle,
                module_name: module_name.to_owned(),
                module_file_path,
            },
        )
    }

    /// Searches the module for the signature `pattern`. `memory` holds the
    /// module's `module_size` bytes, copied from its base address on; the
    /// result is the absolute address of the first match.
    pub fn find_pattern(&self, memory: &[u8], pattern: &str) -> (r: Result<
        Option<usize>,
        ToyArmsExternalError,
    >)
        requires
            memory@.len() == self.module_size,
            self.module_base_address + self.module_size <= usize::MAX,
        ensures
            scan_result(memory@, pattern.spec_bytes(), self.module_base_address as int, r),
    {
        scan_memory(memory, pattern, self.module_base_address)
    }

    /// The address of the pointer-sized operand that lies `offset` bytes
    /// after the first match of `pattern` in the module's `memory`: the
    /// address to read before calling `static_offset`.
    pub fn pattern_scan(&self, memory: &[u8], pattern: &str, offset: usize) -> (r: Result<
        Option<usize>,
        ToyArmsExternalError,
    >)
        requires
            memory@.len() == self.module_size,
            self.module_base_address + self.module_size <= usize::MAX,
        ensures
            match compile_spec(pattern.spec_bytes()) {
                None => r == Err::<Option<usize>, ToyArmsExternalError>(
                    ToyArmsExternalError::MalformedPattern,
                ),
                Some(tokens) => match r {
                    Ok(Some(p)) => exists|k: usize|
                        is_first_match(memory@, tokens, Some(k)) && p as int == wrap_address(
                            self.module_base_address + k + offset,
                        ),
                    Ok(None) => is_first_match(memory@, tokens, None),
                    Err(_) => false,
                },
            },
    {
        match scan_memory(memory, pattern, self.module_base_address) {
            Ok(Some(a)) => {
                assert(is_first_match(memory@, compile_spec(pattern.spec_bytes())->Some_0, Some((a - self.module_base_address) as usize)));
                Ok(Some(wrapping_add_address(a, offset)))
            },
            Ok(None) => Ok(None),
            Err(e) => Err(e),
        }
    }

    /// Turns the absolute address `pointer`, read from the module's code,
    /// into an offset from the module's base, plus `extra`.
    pub fn static_offset(&self, pointer: usize, extra: usize) -> (r: usize)
        ensures
            r as int == wrap_address(wrap_address(pointer - self.module_base_address) + extra),
    {
        let relative = wrapping_sub_address(pointer, self.module_base_address);
        wrapping_add_address(relative, extra)
    }

    /// Searches the region `[start, end)` of the module's process for the
    /// signature `pattern`. `memory` holds the region's bytes; the result is
    /// the absolute address of the first match.
    pub fn find_pattern_specific_range(
        &self,
        memory: &[u8],
        pattern: &str,
        start: usize,
        end: usize,
    ) -> (r: Result<Option<usize>, ToyArmsExternalError>)
        requires
            start <= end,
            memory@.len() == end - start,
        ensures
            scan_result(memory@, pattern.spec_bytes(), start as int, r),
    {
        scan_memory(memory, pattern, start)
    }
}

/// A process opened for reading and writing its memory.
#[derive(Debug)]
pub struct Process {
    pub process_name: String,
    pub process_id: u32,
    pub process_handle: usize,
}

} // verus!
