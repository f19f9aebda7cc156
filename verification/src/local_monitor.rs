//! Figures of the local machine as the monitor panel shows them.

use vstd::prelude::*;
use crate::units::render_size;
use crate::units::size_text;

verus! {

/// One row of the process table.
#[derive(Debug, PartialEq, Eq)]
pub struct ProcessInfo {
    pub pid: String,
    pub user: String,
    pub cpu: String,
    pub mem: String,
    pub command: String,
}

/// A disk size for the monitor panel: the number directly followed by the
/// unit.
pub fn format_bytes(bytes: u64) -> (s: String)
    ensures
        s@ == size_text(bytes as nat, Seq::<char>::empty()),
{
    proof {
        reveal_strlit("");
    }
    assert(""@ =~= Seq::<char>::empty());
    render_size(bytes, "")
}

/// The disk columns of the panel.
#[derive(Debug, PartialEq, Eq)]
pub struct DiskSummary {
    /// The size of the disk as text.
    pub disk_total: String,
    /// The space in use as text.
    pub disk_used: String,
    /// The bytes in use, for the share in use.
    pub used_bytes: u64,
    /// The bytes of the disk, for the share in use.
    pub total_bytes: u64,
}

/// The disk columns for the first disk of the machine, of which the total
/// and the available space are given; the columns of an empty disk where
/// the machine has none.
pub fn disk_summary(first: Option<(u64, u64)>) -> (summary: DiskSummary)
    requires
        first matches Some(disk) ==> disk.1 <= disk.0,
    ensures
        match first {
            Some(disk) => summary.disk_total@ == size_text(disk.0 as nat, Seq::<char>::empty())
                && summary.disk_used@ == size_text((disk.0 - disk.1) as nat, Seq::<char>::empty())
                && summary.used_bytes == disk.0 - disk.1 && summary.total_bytes == disk.0,
            None => summary.disk_total@ == "0B"@ && summary.disk_used@ == "0B"@
                && summary.used_bytes == 0 && summary.total_bytes == 0,
        },
{
    match first {
        Some((total, available)) => {
            let used: u64 = total - available;
            DiskSummary {
                disk_total: format_bytes(total),
                disk_used: format_bytes(used),
                used_bytes: used,
                total_bytes: total,
            }
        },
        None => DiskSummary {
            disk_total: String::from_str("0B"),
            disk_used: String::from_str("0B"),
            used_bytes: 0,
            total_bytes: 0,
        },
    }
}

/// The name of the system for the panel: its name and its version, with
/// `Unknown` for a missing name and nothing for a missing version.
pub open spec fn local_os_version(name: Option<Seq<char>>, version: Option<Seq<char>>) -> Seq<char> {
    (match name {
        Some(n) => n,
        None => "Unknown"@,
    }) + seq![' '] + (match version {
        Some(v) => v,
        None => Seq::empty(),
    })
}

/// Writes the name of the system for the panel.
pub fn os_version_text(name: Option<String>, version: Option<String>) -> (text: String)
    ensures
        text@ == local_os_version(
            crate::session::opt_text(name),
            crate::session::opt_text(version),
        ),
{
    proof {
        reveal_strlit(" ");
    }
    let mut text = match name {
        Some(n) => n,
        None => String::from_str("Unknown"),
    };
    text.append(" ");
    match version {
        Some(v) => {
            text.append(v.as_str());
        },
        None => {
            assert(text@ + Seq::<char>::empty() =~= text@);
        },
    }
    assert(text@ =~= local_os_version(
        crate::session::opt_text(name),
        crate::session::opt_text(version),
    ));
    text
}

/// The model of the processor for the panel: that of the first processor,
/// or `Unknown` where the machine tells of none.
pub fn cpu_model_text(first_brand: Option<&str>) -> (text: String)
    ensures
        text@ == match first_brand {
            Some(brand) => brand@,
            None => "Unknown"@,
        },
{
    match first_brand {
        Some(brand) => String::from_str(brand),
        None => String::from_str("Unknown"),
    }
}

/// The number of rows of the process table.
pub const PROCESS_ROWS: usize = 5;

} // verus!
