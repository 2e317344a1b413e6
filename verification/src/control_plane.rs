//! The registers of the control plane: cells of its parameter, statistics and
//! trigger tables, read and written by commands over the serial link.

use vstd::prelude::*;
use crate::cp_request::{CPCommand, CPResponse};

verus! {

/// The two bytes that open a command on the wire.
pub const CP_PROTOCOL_BEGIN: [u8; 2] = [0xca, 0xfe];

/// The byte that closes a command.
pub const CP_PROTOCOL_END: u8 = 0xed;

pub const CP_CTRL_READ: u8 = 0;

pub const CP_CTRL_WRITE: u8 = 1;

pub const CP_REG_CORE: u8 = 0;

pub const CP_REG_MEM: u8 = 1;

pub const CP_REG_CACHE: u8 = 2;

pub const CP_REG_IO: u8 = 3;

pub const CP_TAB_P: u8 = 0;

pub const CP_TAB_S: u8 = 1;

pub const CP_TAB_T: u8 = 2;

/// One column of one table of one control plane.
#[derive(Clone, Copy, Debug, PartialEq, Eq, Structural)]
pub struct CPRegister {
    pub cp: u8,
    pub tab: u8,
    pub col: u8,
}

/// What a response to a read says: the value, if the response is valid.
pub open spec fn spec_read_result(response: CPResponse) -> Result<u32, ()> {
    if response.valid == 1 {
        Ok(response.val)
    } else {
        Err(())
    }
}

/// What a response to a write says: whether the response is valid.
pub open spec fn spec_write_result(response: CPResponse) -> Result<(), ()> {
    if response.valid == 1 {
        Ok(())
    } else {
        Err(())
    }
}

/// What a response to a read says: the value, if the response is valid.
pub fn read_result(response: CPResponse) -> (r: Result<u32, ()>)
    ensures
        r == spec_read_result(response),
{
    if response.valid == 1 {
        Ok(response.val)
    } else {
        Err(())
    }
}

/// What a response to a write says: whether the response is valid.
pub fn write_result(response: CPResponse) -> (r: Result<(), ()>)
    ensures
        r == spec_write_result(response),
{
    if response.valid == 1 {
        Ok(())
    } else {
        Err(())
    }
}

impl CPRegister {
    pub fn new(cp: u8, tab: u8, col: u8) -> (register: Self)
        ensures
            register == (CPRegister { cp, tab, col }),
    {
        CPRegister { cp, tab, col }
    }

    /// The command that reads row `row` of the register.
    pub open spec fn spec_read_command(&self, row: u8) -> CPCommand {
        CPCommand {
            val: 0,
            rw: CP_CTRL_READ,
            cp: self.cp,
            tab: self.tab,
            col: self.col,
            row,
            end: CP_PROTOCOL_END,
        }
    }

    /// The command that writes `val` to row `row` of the register.
    pub open spec fn spec_write_command(&self, row: u8, val: u32) -> CPCommand {
        CPCommand {
            val,
            rw: CP_CTRL_WRITE,
            cp: self.cp,
            tab: self.tab,
            col: self.col,
            row,
            end: CP_PROTOCOL_END,
        }
    }

    pub fn read_command(&self, row: u8) -> (command: CPCommand)
        ensures
            command == self.spec_read_command(row),
    {
        CPCommand {
            val: 0,
            rw: CP_CTRL_READ,
            cp: self.cp,
            tab: self.tab,
            col: self.col,
            row,
            end: CP_PROTOCOL_END,
        }
    }

    pub fn write_command(&self, row: u8, val: u32) -> (command: CPCommand)
        ensures
            command == self.spec_write_command(row, val),
    {
        CPCommand {
            val,
            rw: CP_CTRL_WRITE,
            cp: self.cp,
            tab: self.tab,
            col: self.col,
            row,
            end: CP_PROTOCOL_END,
        }
    }

    /// Reads row `row`: hands the read command to `send` and gives the value
    /// of its response, or an error if the response is not valid.
    pub fn read<F: FnOnce(CPCommand) -> CPResponse>(&self, row: u8, send: F) -> (r: Result<u32, ()>)
        requires
            call_requires(send, (self.spec_read_command(row),)),
        ensures
            exists|response: CPResponse|
                call_ensures(send, (self.spec_read_command(row),), response) && r == spec_read_result(
                    response,
                ),
    {
        let response = send(self.read_command(row));
        read_result(response)
    }

    /// Writes `val` to row `row`: hands the write command to `send` and says
    /// whether its response is valid.
    pub fn write<F: FnOnce(CPCommand) -> CPResponse>(&self, row: u8, val: u32, send: F) -> (r: Result<
        (),
        (),
    >)
        requires
            call_requires(send, (self.spec_write_command(row, val),)),
        ensures
            exists|response: CPResponse|
                call_ensures(send, (self.spec_write_command(row, val),), response) && r
                    == spec_write_result(response),
    {
        let response = send(self.write_command(row, val));
        write_result(response)
    }
}


/// The domain id of a core.
pub fn cp_core_dsid() -> (register: CPRegister)
    ensures
        register == (CPRegister { cp: CP_REG_CORE, tab: CP_TAB_P, col: 0 }),
{
    CPRegister::new(CP_REG_CORE, CP_TAB_P, 0)
}

/// The base address of a core's memory.
pub fn cp_core_base() -> (register: CPRegister)
    ensures
        register == (CPRegister { cp: CP_REG_CORE, tab: CP_TAB_P, col: 1 }),
{
    CPRegister::new(CP_REG_CORE, CP_TAB_P, 1)
}

/// The size of a core's memory.
pub fn cp_core_size() -> (register: CPRegister)
    ensures
        register == (CPRegister { cp: CP_REG_CORE, tab: CP_TAB_P, col: 2 }),
{
    CPRegister::new(CP_REG_CORE, CP_TAB_P, 2)
}

/// The hart id of a core.
pub fn cp_core_hartid() -> (register: CPRegister)
    ensures
        register == (CPRegister { cp: CP_REG_CORE, tab: CP_TAB_P, col: 3 }),
{
    CPRegister::new(CP_REG_CORE, CP_TAB_P, 3)
}

/// The size of a memory bucket.
pub fn cp_mem_size() -> (register: CPRegister)
    ensures
        register == (CPRegister { cp: CP_REG_MEM, tab: CP_TAB_P, col: 0 }),
{
    CPRegister::new(CP_REG_MEM, CP_TAB_P, 0)
}

/// The refill frequency of a memory bucket.
pub fn cp_mem_freq() -> (register: CPRegister)
    ensures
        register == (CPRegister { cp: CP_REG_MEM, tab: CP_TAB_P, col: 1 }),
{
    CPRegister::new(CP_REG_MEM, CP_TAB_P, 1)
}

/// The refill increment of a memory bucket.
pub fn cp_mem_inc() -> (register: CPRegister)
    ensures
        register == (CPRegister { cp: CP_REG_MEM, tab: CP_TAB_P, col: 2 }),
{
    CPRegister::new(CP_REG_MEM, CP_TAB_P, 2)
}

/// The count of cached memory accesses.
pub fn cp_mem_cached() -> (register: CPRegister)
    ensures
        register == (CPRegister { cp: CP_REG_MEM, tab: CP_TAB_S, col: 0 }),
{
    CPRegister::new(CP_REG_MEM, CP_TAB_S, 0)
}

/// The count of uncached memory accesses.
pub fn cp_mem_uncached() -> (register: CPRegister)
    ensures
        register == (CPRegister { cp: CP_REG_MEM, tab: CP_TAB_S, col: 1 }),
{
    CPRegister::new(CP_REG_MEM, CP_TAB_S, 1)
}

/// The way mask of a cache partition.
pub fn cp_cache_mask() -> (register: CPRegister)
    ensures
        register == (CPRegister { cp: CP_REG_CACHE, tab: CP_TAB_P, col: 0 }),
{
    CPRegister::new(CP_REG_CACHE, CP_TAB_P, 0)
}

/// The count of cache accesses.
pub fn cp_cache_access() -> (register: CPRegister)
    ensures
        register == (CPRegister { cp: CP_REG_CACHE, tab: CP_TAB_S, col: 0 }),
{
    CPRegister::new(CP_REG_CACHE, CP_TAB_S, 0)
}

/// The count of cache misses.
pub fn cp_cache_miss() -> (register: CPRegister)
    ensures
        register == (CPRegister { cp: CP_REG_CACHE, tab: CP_TAB_S, col: 1 }),
{
    CPRegister::new(CP_REG_CACHE, CP_TAB_S, 1)
}

/// The cache usage.
pub fn cp_cache_usage() -> (register: CPRegister)
    ensures
        register == (CPRegister { cp: CP_REG_CACHE, tab: CP_TAB_S, col: 2 }),
{
    CPRegister::new(CP_REG_CACHE, CP_TAB_S, 2)
}

} // verus!
