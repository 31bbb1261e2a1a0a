//! The mount table (`/proc/self/mounts`).

use vstd::prelude::*;
use crate::sysfs::{parse_entries, SysfsEntryIter, SysfsEntryParsable};
use crate::text::{chars_eq, chars_of, split_chars, split_on, string_of};

verus! {

/// What a line of the mount table says of a mount.
pub ghost struct MountInfo {
    pub fstype: Seq<char>,
    pub device: Seq<char>,
    pub point: Seq<char>,
    pub options: Seq<char>,
}

/// A mounted file system, as `/proc/self/mounts` lists it.
#[derive(Debug)]
pub struct MountEntry {
    pub fstype: String,
    pub device: String,
    pub point: String,
    pub options: String,
}

impl View for MountEntry {
    type V = MountInfo;

    open spec fn view(&self) -> MountInfo {
        MountInfo {
            fstype: self.fstype@,
            device: self.device@,
            point: self.point@,
            options: self.options@,
        }
    }
}

/// A line of the mount table ("device point fstype options dump pass")
/// describes a mount when it has at least four space-separated fields.
pub open spec fn mount_line(line: Seq<char>) -> Option<MountInfo> {
    let parts = split_on(line, ' ');
    if parts.len() < 4 {
        None
    } else {
        Some(MountInfo { device: parts[0], point: parts[1], fstype: parts[2], options: parts[3] })
    }
}

impl SysfsEntryParsable<MountEntry> for MountEntry {
    open spec fn spec_parse(line: Seq<char>) -> Option<MountInfo> {
        mount_line(line)
    }

    fn parse(line: &str) -> (r: Option<MountEntry>) {
        let chars = chars_of(line);
        let parts = split_chars(&chars, ' ');
        if parts.len() < 4 {
            return None;
        }
        assert(parts@[0]@ == split_on(line@, ' ')[0]);
        assert(parts@[1]@ == split_on(line@, ' ')[1]);
        assert(parts@[2]@ == split_on(line@, ' ')[2]);
        assert(parts@[3]@ == split_on(line@, ' ')[3]);
        Some(
            MountEntry {
                fstype: string_of(parts[2].as_slice()),
                device: string_of(parts[0].as_slice()),
                point: string_of(parts[1].as_slice()),
                options: string_of(parts[3].as_slice()),
            },
        )
    }
}

/// The mounts that the text of the mount table lists.
pub open spec fn mounts_in(data: Seq<char>) -> Seq<MountInfo> {
    parse_entries::<MountEntry, MountEntry>(data)
}

/// Iterates over the mounts that `data`, the text of the mount table, lists.
pub fn mounts_from_string(data: &str) -> (it: SysfsEntryIter<MountEntry>)
    ensures
        it.wf(),
        it.remaining() == mounts_in(data@),
{
    SysfsEntryIter::from_string(data)
}

/// Whether a mount is at `point`, and of `device` and `fstype` where those
/// are given.
pub open spec fn mount_matches(
    m: MountInfo,
    point: Seq<char>,
    device: Option<Seq<char>>,
    fstype: Option<Seq<char>>,
) -> bool {
    &&& m.point == point
    &&& device matches Some(d) ==> d == m.device
    &&& fstype matches Some(t) ==> t == m.fstype
}

/// A mount counts only when it is at the point asked for, is of the device
/// asked for when one is, and is of the file system type asked for when one
/// is: each of the three is checked on its own, whatever the others are.
pub proof fn lemma_mount_matches_checks_each(
    m: MountInfo,
    point: Seq<char>,
    device: Option<Seq<char>>,
    fstype: Option<Seq<char>>,
)
    ensures
        mount_matches(m, point, device, fstype) <==> (m.point == point && (device is None
            || device == Some(m.device)) && (fstype is None || fstype == Some(m.fstype))),
{
}

/// The characters of an optional string.
pub open spec fn opt_view(s: Option<&str>) -> Option<Seq<char>> {
    match s {
        Some(x) => Some(x@),
        None => None,
    }
}

fn opt_chars(s: Option<&str>) -> (r: Option<Vec<char>>)
    ensures
        match s {
            Some(x) => r matches Some(v) && v@ == x@,
            None => r is None,
        },
{
    match s {
        Some(x) => Some(chars_of(x)),
        None => None,
    }
}

/// Whether `mounts`, the text of the mount table, lists a mount at `point`
/// (of `device` and of type `fstype`, where those are given).
pub fn mounted(mounts: &str, point: &str, device: Option<&str>, fstype: Option<&str>) -> (r: bool)
    ensures
        r == exists|i: int|
            0 <= i < mounts_in(mounts@).len() && mount_matches(
                #[trigger] mounts_in(mounts@)[i],
                point@,
                opt_view(device),
                opt_view(fstype),
            ),
        r == exists|i: int|
            0 <= i < mounts_in(mounts@).len() && (#[trigger] mounts_in(mounts@)[i]).point == point@
                && (device is None || opt_view(device) == Some(mounts_in(mounts@)[i].device)) && (
            fstype is None || opt_view(fstype) == Some(mounts_in(mounts@)[i].fstype)),
{
    proof {
        let all = mounts_in(mounts@);
        assert forall|i: int| 0 <= i < all.len() implies mount_matches(
            #[trigger] all[i],
            point@,
            opt_view(device),
            opt_view(fstype),
        ) == (all[i].point == point@ && (device is None || opt_view(device) == Some(all[i].device))
            && (fstype is None || opt_view(fstype) == Some(all[i].fstype))) by {
            lemma_mount_matches_checks_each(all[i], point@, opt_view(device), opt_view(fstype));
        }
    }
    let ghost all = mounts_in(mounts@);
    let ghost dv = opt_view(device);
    let ghost tv = opt_view(fstype);
    let want_point = chars_of(point);
    let want_device = opt_chars(device);
    let want_fstype = opt_chars(fstype);
    let mut it = mounts_from_string(mounts);
    let ghost mut seen: int = 0;
    loop
        invariant
            it.wf(),
            0 <= seen <= all.len(),
            it.remaining() == all.skip(seen),
            all == mounts_in(mounts@),
            want_point@ == point@,
            dv == opt_view(device),
            tv == opt_view(fstype),
            match want_device {
                Some(v) => dv == Some(v@),
                None => dv is None,
            },
            match want_fstype {
                Some(v) => tv == Some(v@),
                None => tv is None,
            },
            forall|k: int| 0 <= k < seen ==> !mount_matches(#[trigger] all[k], point@, dv, tv),
        decreases it.remaining().len(),
    {
        match it.next() {
            None => {
                assert(all.skip(seen).len() == 0);
                return false;
            },
            Some(e) => {
                assert(all.skip(seen)[0] == all[seen]);
                let p = chars_of(e.point.as_str());
                let mut ok = chars_eq(p.as_slice(), want_point.as_slice());
                if ok {
                    if let Some(d) = &want_device {
                        let ed = chars_of(e.device.as_str());
                        ok = chars_eq(d.as_slice(), ed.as_slice());
                    }
                }
                if ok {
                    if let Some(t) = &want_fstype {
                        let et = chars_of(e.fstype.as_str());
                        ok = chars_eq(t.as_slice(), et.as_slice());
                    }
                }
                if ok {
                    return true;
                }
                proof {
                    assert(all.skip(seen).drop_first() =~= all.skip(seen + 1));
                    seen = seen + 1;
                }
            },
        }
    }
}

} // verus!
