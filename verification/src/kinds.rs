use crate::version::{version_ge, KernelVersion};
use vstd::prelude::*;

verus! {

/// The namespace kinds a process's namespace directory may expose, one
/// entry per kind, each named after the kind.
#[derive(Clone, Copy, Debug, PartialEq, Eq, Structural)]
pub enum Kind {
    Cgroup,
    Ipc,
    Mnt,
    Net,
    Pid,
    User,
    Uts,
    PidForChildren,
    Time,
    TimeForChildren,
}

/// How many namespace kinds there are.
pub const KIND_COUNT: usize = 10;

/// The fixed order in which the kinds are processed.
pub open spec fn kind_at(i: int) -> Kind {
    if i == 0 {
        Kind::Cgroup
    } else if i == 1 {
        Kind::Ipc
    } else if i == 2 {
        Kind::Mnt
    } else if i == 3 {
        Kind::Net
    } else if i == 4 {
        Kind::Pid
    } else if i == 5 {
        Kind::User
    } else if i == 6 {
        Kind::Uts
    } else if i == 7 {
        Kind::PidForChildren
    } else if i == 8 {
        Kind::Time
    } else {
        Kind::TimeForChildren
    }
}

impl Kind {
    /// Position of the kind in the fixed processing order.
    pub open spec fn index_spec(self) -> int {
        match self {
            Kind::Cgroup => 0,
            Kind::Ipc => 1,
            Kind::Mnt => 2,
            Kind::Net => 3,
            Kind::Pid => 4,
            Kind::User => 5,
            Kind::Uts => 6,
            Kind::PidForChildren => 7,
            Kind::Time => 8,
            Kind::TimeForChildren => 9,
        }
    }

    /// Name of the kind's entry in the namespace directory.
    pub open spec fn file_name_spec(self) -> Seq<char> {
        match self {
            Kind::Cgroup => "cgroup"@,
            Kind::Ipc => "ipc"@,
            Kind::Mnt => "mnt"@,
            Kind::Net => "net"@,
            Kind::Pid => "pid"@,
            Kind::User => "user"@,
            Kind::Uts => "uts"@,
            Kind::PidForChildren => "pid_for_children"@,
            Kind::Time => "time"@,
            Kind::TimeForChildren => "time_for_children"@,
        }
    }

    /// Minimum kernel version from which the kind's entry is read.
    pub open spec fn min_version_spec(self) -> KernelVersion {
        match self {
            Kind::Cgroup => KernelVersion { major: 4, minor: 6, patch: 0 },
            Kind::Ipc => KernelVersion { major: 3, minor: 0, patch: 0 },
            Kind::Mnt => KernelVersion { major: 3, minor: 8, patch: 0 },
            Kind::Net => KernelVersion { major: 3, minor: 0, patch: 0 },
            Kind::Pid => KernelVersion { major: 3, minor: 8, patch: 0 },
            Kind::User => KernelVersion { major: 4, minor: 6, patch: 0 },
            Kind::Uts => KernelVersion { major: 4, minor: 6, patch: 0 },
            Kind::PidForChildren => KernelVersion { major: 4, minor: 12, patch: 0 },
            Kind::Time => KernelVersion { major: 5, minor: 6, patch: 0 },
            Kind::TimeForChildren => KernelVersion { major: 5, minor: 6, patch: 0 },
        }
    }

    /// The kind at the given position of the fixed processing order.
    pub fn from_index(i: usize) -> (k: Kind)
        requires
            i < KIND_COUNT,
        ensures
            k == kind_at(i as int),
    {
        if i == 0 {
            Kind::Cgroup
        } else if i == 1 {
            Kind::Ipc
        } else if i == 2 {
            Kind::Mnt
        } else if i == 3 {
            Kind::Net
        } else if i == 4 {
            Kind::Pid
        } else if i == 5 {
            Kind::User
        } else if i == 6 {
            Kind::Uts
        } else if i == 7 {
            Kind::PidForChildren
        } else if i == 8 {
            Kind::Time
        } else {
            Kind::TimeForChildren
        }
    }

    /// Name of the kind's entry in the namespace directory.
    pub fn file_name(&self) -> (s: &'static str)
        ensures
            s@ == self.file_name_spec(),
    {
        match self {
            Kind::Cgroup => "cgroup",
            Kind::Ipc => "ipc",
            Kind::Mnt => "mnt",
            Kind::Net => "net",
            Kind::Pid => "pid",
            Kind::User => "user",
            Kind::Uts => "uts",
            Kind::PidForChildren => "pid_for_children",
            Kind::Time => "time",
            Kind::TimeForChildren => "time_for_children",
        }
    }

    /// Minimum kernel version from which the kind's entry is read.
    pub fn min_version(&self) -> (v: KernelVersion)
        ensures
            v == self.min_version_spec(),
    {
        match self {
            Kind::Cgroup => KernelVersion::new(4, 6, 0),
            Kind::Ipc => KernelVersion::new(3, 0, 0),
            Kind::Mnt => KernelVersion::new(3, 8, 0),
            Kind::Net => KernelVersion::new(3, 0, 0),
            Kind::Pid => KernelVersion::new(3, 8, 0),
            Kind::User => KernelVersion::new(4, 6, 0),
            Kind::Uts => KernelVersion::new(4, 6, 0),
            Kind::PidForChildren => KernelVersion::new(4, 12, 0),
            Kind::Time => KernelVersion::new(5, 6, 0),
            Kind::TimeForChildren => KernelVersion::new(5, 6, 0),
        }
    }
}

/// The version gate: the running kernel is at least the kind's minimum.
pub open spec fn gate_met(v: KernelVersion, k: Kind) -> bool {
    version_ge(v, k.min_version_spec())
}

/// Every kind stands at exactly one position of the fixed order.
pub proof fn lemma_kind_at_index(k: Kind)
    ensures
        0 <= k.index_spec() < KIND_COUNT,
        kind_at(k.index_spec()) == k,
{
}

/// A kernel that sits right at a kind's minimum version already meets
/// that kind's gate.
pub proof fn lemma_gate_boundary_inclusive(v: KernelVersion, k: Kind)
    requires
        v == k.min_version_spec(),
    ensures
        gate_met(v, k),
{
}

} // verus!
