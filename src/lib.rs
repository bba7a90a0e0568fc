//! Union-mount layer composition: policy validation, mirroring of lower
//! sources, and the decisions around mounting and unmounting.

pub mod config;
pub mod diagnostics;
pub mod paths;
pub mod rsync;
pub mod service;

use vstd::prelude::*;

use crate::config::{MountConfig, ValidatedMountConfig};
use crate::diagnostics::{log_tail, log_tail_of};
use crate::paths::seq_view;
use crate::rsync::SyncedConfig;

verus! {

/// Declares nix's `Errno` so that the error code of a failed mount or
/// unmount can be carried, unread, inside the library's errors.
#[verifier::external_type_specification]
#[verifier::external_body]
pub struct ExErrno(nix::errno::Errno);

/// Why mounting or unmounting failed.
#[derive(Debug)]
pub enum ManagerError {
    /// The mount failed with this error code; beside it the most recent
    /// lines of the kernel's log, or why they could not be read.
    MountError(nix::errno::Errno, Result<Vec<String>, std::io::Error>),
    /// The unmount failed with this error code.
    UmountError(nix::errno::Errno),
}

/// `paths` joined with `:` between each two.
pub open spec fn colon_list(paths: Seq<Seq<char>>) -> Seq<char>
    decreases paths.len(),
{
    if paths.len() == 0 {
        Seq::empty()
    } else if paths.len() == 1 {
        paths[0]
    } else {
        colon_list(paths.drop_last()) + ":"@ + paths.last()
    }
}

/// The paths that the mount reads the lower sources from, in precedence
/// order.
pub open spec fn lower_mount_paths(config: MountConfig) -> Seq<Seq<char>> {
    config.lower_dirs@.map_values(|d: crate::config::LowerDir| d@.mount_path())
}

/// The option string of the union mount of `config`.
pub open spec fn mount_options(config: MountConfig) -> Seq<char> {
    "lowerdir="@ + colon_list(lower_mount_paths(config)) + ",upperdir="@
        + config.upper_dir@.upper_path() + ",workdir="@ + config.upper_dir@.work_path()
}

/// Mounts and unmounts the union of a validated composition.
#[derive(Debug)]
pub struct OverlayManager {
    config: MountConfig,
}

impl OverlayManager {
    /// The composition this manager mounts.
    pub closed spec fn config(self) -> MountConfig {
        self.config
    }

    /// A manager of a composition that passed validation.
    pub fn new(config: ValidatedMountConfig) -> (r: Result<Self, ManagerError>)
        ensures
            r matches Ok(m) && m.config() == config.config(),
    {
        Ok(OverlayManager { config: config.into_config() })
    }

    /// A manager of a composition whose mirrors were made.
    pub fn from_synced(config: SyncedConfig) -> (r: Self)
        ensures
            r.config() == config.config(),
    {
        OverlayManager { config: config.into_config() }
    }

    /// The option string of the union mount: the lower sources' mount paths
    /// in precedence order, then the writable and the scratch directory.
    pub fn mount_options(&self) -> (r: String)
        ensures
            r@ == mount_options(self.config()),
    {
        let dirs = &self.config.lower_dirs;
        let ghost paths = lower_mount_paths(self.config);
        let mut lowers = String::new();
        let mut i: usize = 0;
        while i < dirs.len()
            invariant
                i <= dirs@.len(),
                paths == lower_mount_paths(self.config),
                dirs@ == self.config.lower_dirs@,
                lowers@ == colon_list(paths.take(i as int)),
            decreases dirs@.len() - i,
        {
            proof {
                assert(paths.take(i + 1).drop_last() =~= paths.take(i as int));
            }
            let path = dirs[i].mount_path();
            if i > 0 {
                lowers.append(":");
            }
            lowers.append(path.as_str());
            proof {
                if i == 0 {
                    assert(lowers@ =~= paths.take(1)[0]);
                }
            }
            i += 1;
        }
        proof {
            assert(paths.take(dirs@.len() as int) =~= paths);
        }
        let upper = self.config.upper_dir.upper_path();
        let work = self.config.upper_dir.work_path();
        String::from_str("lowerdir=").concat(lowers.as_str()).concat(",upperdir=").concat(
            upper.as_str(),
        ).concat(",workdir=").concat(work.as_str())
    }

    /// The mount point of the union.
    pub fn merged_path(&self) -> (r: String)
        ensures
            r@ == self.config().upper_dir@.merged_path(),
    {
        self.config.upper_dir.merged_path()
    }

    /// The error of a failed mount with code `errno`, carrying the most
    /// recent lines of the kernel's log `log`, or why it could not be read.
    pub fn mount_error(errno: nix::errno::Errno, log: Result<String, std::io::Error>) -> (r:
        ManagerError)
        ensures
            match log {
                Ok(output) => r matches ManagerError::MountError(e, Ok(lines)) && e == errno
                    && seq_view(lines@) == log_tail(output@),
                Err(io) => r == ManagerError::MountError(errno, Err(io)),
            },
    {
        match log {
            Ok(output) => ManagerError::MountError(errno, Ok(log_tail_of(output.as_str()))),
            Err(io) => ManagerError::MountError(errno, Err(io)),
        }
    }
}

} // verus!
