//! Guest detail computations: the memory block size and hotplug-probe
//! answer, volume usage figures, and the argument list handed to the
//! module loader. The files, disks and processes behind them are read
//! outside; these functions turn what was read into answers.

use vstd::prelude::*;
use vstd::string::StringExecFns;
use crate::errors::ErrorKind;
use crate::hexnum::{parse_hex_spec, parse_hex_range};
use crate::text::{chars_of, trim_bounds, trimmed};

verus! {

/// What reading a text file yielded.
#[derive(Clone, Debug, PartialEq, Eq)]
pub enum ReadFileOutcome {
    Content(String),
    NotFound,
    OtherError,
}

/// What probing for a file yielded.
#[derive(Clone, Copy, Debug, PartialEq, Eq, Structural)]
pub enum StatOutcome {
    Found,
    NotFound,
    OtherError,
}

/// The memory block size encoded by the sysfs file: its content,
/// whitespace-trimmed, as a hexadecimal value; an empty or unparsable file
/// encodes nothing.
pub open spec fn block_size_of(content: Seq<char>) -> Option<u64> {
    if content.len() == 0 {
        None
    } else {
        parse_hex_spec(trimmed(content))
    }
}

/// What the memory information answer must be, given what block-size read
/// and hotplug probe yielded: a missing block-size file means size zero, a
/// malformed one is an invalid-block-size failure, and only a missing
/// probe file disables hotplug without failing.
pub open spec fn mem_info_spec(
    block_size: bool,
    hotplug: bool,
    br: ReadFileOutcome,
    ps: StatOutcome,
) -> Result<(u64, bool), ErrorKind> {
    let size_step: Result<u64, ErrorKind> = if block_size {
        match br {
            ReadFileOutcome::Content(v) => match block_size_of(v@) {
                Some(sz) => Ok(sz),
                None => Err(ErrorKind::Internal),
            },
            ReadFileOutcome::NotFound => Ok(0u64),
            ReadFileOutcome::OtherError => Err(ErrorKind::Internal),
        }
    } else {
        Ok(0u64)
    };
    match size_step {
        Err(e) => Err(e),
        Ok(size) => if hotplug {
            match ps {
                StatOutcome::Found => Ok((size, true)),
                StatOutcome::NotFound => Ok((size, false)),
                StatOutcome::OtherError => Err(ErrorKind::Internal),
            }
        } else {
            Ok((size, false))
        },
    }
}

/// Compute the memory block size and hotplug-probe support from what the
/// two sysfs paths yielded.
pub fn get_memory_info(block_size: bool, hotplug: bool, br: ReadFileOutcome, ps: StatOutcome) -> (r:
    Result<(u64, bool), ErrorKind>)
    ensures
        r == mem_info_spec(block_size, hotplug, br, ps),
{
    let mut size: u64 = 0;
    if block_size {
        match br {
            ReadFileOutcome::Content(v) => {
                let cs = chars_of(v.as_str());
                if cs.len() == 0 {
                    return Err(ErrorKind::Internal);
                }
                let (lo, hi) = trim_bounds(&cs);
                match parse_hex_range(&cs, lo, hi) {
                    Some(sz) => {
                        size = sz;
                    }
                    None => {
                        return Err(ErrorKind::Internal);
                    }
                }
            }
            ReadFileOutcome::NotFound => {}
            ReadFileOutcome::OtherError => {
                return Err(ErrorKind::Internal);
            }
        }
    }
    let mut plug = false;
    if hotplug {
        match ps {
            StatOutcome::Found => {
                plug = true;
            }
            StatOutcome::NotFound => {}
            StatOutcome::OtherError => {
                return Err(ErrorKind::Internal);
            }
        }
    }
    Ok((size, plug))
}

/// One disk as the volume statistics need it.
#[derive(Clone, Debug, PartialEq, Eq)]
pub struct DiskInfo {
    pub name: String,
    pub available: u64,
    pub total: u64,
}

/// The unit a usage figure is counted in.
#[derive(Clone, Copy, Debug, PartialEq, Eq, Structural)]
pub enum UsageUnit {
    Bytes,
    Inodes,
}

/// One usage figure of a volume.
#[derive(Clone, Copy, Debug, PartialEq, Eq, Structural)]
pub struct VolumeUsage {
    pub used: u64,
    pub total: u64,
    pub available: u64,
    pub unit: UsageUnit,
}

/// The index of the first disk named by the volume path.
pub open spec fn disk_index(disks: Seq<DiskInfo>, path: Seq<char>) -> Option<int>
    decreases disks.len(),
{
    if disks.len() == 0 {
        None
    } else if disks[0].name@ == path {
        Some(0int)
    } else {
        match disk_index(disks.drop_first(), path) {
            Some(i) => Some(i + 1),
            None => None,
        }
    }
}

/// The capacity figures of the disk a volume path names: its free and
/// total space, the difference used, counted in bytes; an unknown path
/// reports all zeroes, as an absent disk does.
pub fn capacity_usage(disks: &Vec<DiskInfo>, path: &String) -> (r: VolumeUsage)
    requires
        forall|i: int|
            0 <= i < disks@.len() ==> #[trigger] disks@[i].available <= disks@[i].total,
    ensures
        r.unit == UsageUnit::Bytes,
        match disk_index(disks@, path@) {
            Some(i) => {
                let d = disks@[i];
                r.available == d.available && r.total == d.total && r.used == d.total - d.available
            },
            None => r.available == 0 && r.total == 0 && r.used == 0,
        },
{
    proof {
        assert(disks@.skip(0) =~= disks@);
    }
    let mut i: usize = 0;
    while i < disks.len()
        invariant
            0 <= i <= disks@.len(),
            forall|k: int|
                0 <= k < disks@.len() ==> #[trigger] disks@[k].available <= disks@[k].total,
            disk_index(disks@, path@) == (match disk_index(disks@.skip(i as int), path@) {
                Some(k) => Some(k + i),
                None => None,
            }),
        decreases disks@.len() - i,
    {
        proof {
            assert(disks@.skip(i as int)[0] == disks@[i as int]);
            assert(disks@.skip(i as int).drop_first() =~= disks@.skip(i + 1));
        }
        if disks[i].name == *path {
            return VolumeUsage {
                used: disks[i].total - disks[i].available,
                total: disks[i].total,
                available: disks[i].available,
                unit: UsageUnit::Bytes,
            };
        }
        i += 1;
    }
    proof {
        assert(disks@.skip(disks@.len() as int) =~= Seq::<DiskInfo>::empty());
    }
    VolumeUsage { used: 0, total: 0, available: 0, unit: UsageUnit::Bytes }
}

/// The inode usage figure of a volume whose mount point holds the given
/// inode number.
pub fn inode_usage(ino: u64) -> (r: VolumeUsage)
    ensures
        r.used == ino,
        r.total == 0,
        r.available == 0,
        r.unit == UsageUnit::Inodes,
{
    VolumeUsage { used: ino, total: 0, available: 0, unit: UsageUnit::Inodes }
}

/// The argument list handed to the module loader: verbose, the module
/// name, then its parameters. An empty module name is rejected before
/// anything runs.
pub fn modprobe_args(name: &String, parameters: &Vec<String>) -> (r: Result<Vec<String>, ErrorKind>)
    ensures
        name@.len() == 0 ==> r == Err::<Vec<String>, ErrorKind>(ErrorKind::InvalidArgument),
        name@.len() > 0 ==> (r matches Ok(args) && {
            &&& args@.len() == 2 + parameters@.len()
            &&& args@[0]@ == "-v"@
            &&& args@[1]@ == name@
            &&& forall|i: int| 0 <= i < parameters@.len() ==> #[trigger] args@[2 + i]
                == parameters@[i]
        }),
{
    if name.as_str().is_empty() {
        return Err(ErrorKind::InvalidArgument);
    }
    let mut args: Vec<String> = Vec::new();
    args.push("-v".to_owned());
    args.push(name.clone());
    let mut i: usize = 0;
    while i < parameters.len()
        invariant
            0 <= i <= parameters@.len(),
            args@.len() == 2 + i,
            args@[0]@ == "-v"@,
            args@[1]@ == name@,
            forall|k: int| 0 <= k < i ==> #[trigger] args@[2 + k] == parameters@[k],
        decreases parameters@.len() - i,
    {
        let p = parameters[i].clone();
        args.push(p);
        i += 1;
    }
    Ok(args)
}

} // verus!
