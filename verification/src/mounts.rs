//! Mounted file systems, as `/proc/self/mounts` lists them, and disk
//! labels.
use vstd::prelude::*;

use crate::table::{
    copy_strings, keyed_map, lemma_keyed_map_absent, lemma_keyed_map_last, lemma_keyed_map_push,
    string_views,
};
use crate::text::{
    chars_of, eq_str, has_prefix, lowercase, parse_u32_or, split_char, split_on,
    split_whitespace, split_ws, starts_with, string_is, string_of, strings_of, to_lowercase,
    u32_or,
};

verus! {

/// A disk label and the device it names.
#[derive(Debug, Clone)]
pub struct LabeledDevice {
    pub mount_point: String,
    pub label: String,
}

/// A `LabeledDevice` as characters.
pub struct LabeledView {
    pub mount_point: Seq<char>,
    pub label: Seq<char>,
}

impl View for LabeledDevice {
    type V = LabeledView;

    open spec fn view(&self) -> LabeledView {
        LabeledView { mount_point: self.mount_point@, label: self.label@ }
    }
}

impl LabeledDevice {
    /// A label for a device path.
    pub fn new(mount_point: &str, label: &str) -> (r: LabeledDevice)
        ensures
            r@.mount_point == mount_point@,
            r@.label == label@,
    {
        let m = chars_of(mount_point);
        let l = chars_of(label);
        LabeledDevice { mount_point: string_of(&m), label: string_of(&l) }
    }

    fn duplicate(&self) -> (r: LabeledDevice)
        ensures
            r@ == self@,
    {
        LabeledDevice { mount_point: self.mount_point.clone(), label: self.label.clone() }
    }
}

/// The device paths of labels.
pub open spec fn label_keys(v: Seq<LabeledDevice>) -> Seq<Seq<char>> {
    Seq::new(v.len(), |i: int| v[i].mount_point@)
}

/// The views of labels.
pub open spec fn label_views(v: Seq<LabeledDevice>) -> Seq<LabeledView> {
    Seq::new(v.len(), |i: int| v[i]@)
}

/// Disk labels by device path; a later label for a path replaces an
/// earlier one.
#[derive(Debug, Clone)]
pub struct LabeledDevices {
    pub devices: Vec<LabeledDevice>,
}

impl View for LabeledDevices {
    type V = Map<Seq<char>, LabeledView>;

    open spec fn view(&self) -> Map<Seq<char>, LabeledView> {
        keyed_map(label_keys(self.devices@), label_views(self.devices@))
    }
}

impl LabeledDevices {
    /// The labels, by device path.
    pub fn new(devices: Vec<LabeledDevice>) -> (r: LabeledDevices)
        ensures
            r@ == keyed_map(label_keys(devices@), label_views(devices@)),
    {
        LabeledDevices { devices }
    }

    /// The label of a device path.
    pub fn get(&self, mount_point: &str) -> (r: Option<LabeledDevice>)
        ensures
            match r {
                Some(d) => self@.contains_key(mount_point@) && d@ == self@[mount_point@],
                None => !self@.contains_key(mount_point@),
            },
    {
        let k = chars_of(mount_point);
        let ghost keys = label_keys(self.devices@);
        let mut i = self.devices.len();
        while i > 0
            invariant
                i <= self.devices@.len(),
                keys == label_keys(self.devices@),
                k@ == mount_point@,
                forall|j: int| i <= j < keys.len() ==> keys[j] != k@,
            decreases i,
        {
            i = i - 1;
            let d = chars_of(self.devices[i].mount_point.as_str());
            if crate::text::chars_eq(&d, &k) {
                proof {
                    lemma_keyed_map_last(keys, label_views(self.devices@), i as int);
                }
                return Some(self.devices[i].duplicate());
            }
        }
        proof {
            lemma_keyed_map_absent(keys, label_views(self.devices@), mount_point@);
        }
        None
    }
}

/// A mounted file system.
#[derive(Debug, Clone)]
pub struct Device {
    pub label: Option<LabeledDevice>,
    pub device: String,
    pub mount_point: String,
    pub fs_type: String,
    pub flags: Vec<String>,
    pub dump: u32,
    pub pass: u32,
}

/// A `Device` as characters.
pub struct DeviceView {
    pub label: Option<LabeledView>,
    pub device: Seq<char>,
    pub mount_point: Seq<char>,
    pub fs_type: Seq<char>,
    pub flags: Seq<Seq<char>>,
    pub dump: u32,
    pub pass: u32,
}

impl View for Device {
    type V = DeviceView;

    open spec fn view(&self) -> DeviceView {
        DeviceView {
            label: match self.label {
                Some(l) => Some(l@),
                None => None,
            },
            device: self.device@,
            mount_point: self.mount_point@,
            fs_type: self.fs_type@,
            flags: string_views(self.flags@),
            dump: self.dump,
            pass: self.pass,
        }
    }
}

/// Device paths of physical disks start with one of these.
pub open spec fn physical_device(d: Seq<char>) -> bool {
    ||| has_prefix(d, "/dev/sd"@)
    ||| has_prefix(d, "/dev/vd"@)
    ||| has_prefix(d, "/dev/nvme"@)
    ||| has_prefix(d, "/dev/mmcblk"@)
    ||| has_prefix(d, "/dev/mapper/"@)
}

impl Device {
    fn duplicate(&self) -> (r: Device)
        ensures
            r@ == self@,
    {
        let label = match &self.label {
            Some(l) => Some(l.duplicate()),
            None => None,
        };
        let flags = copy_strings(&self.flags);
        assert(string_views(flags@) =~= string_views(self.flags@));
        Device {
            label,
            device: self.device.clone(),
            mount_point: self.mount_point.clone(),
            fs_type: self.fs_type.clone(),
            flags,
            dump: self.dump,
            pass: self.pass,
        }
    }

    /// The device path.
    pub fn get_device(&self) -> (r: &str)
        ensures
            r@ == self.device@,
    {
        self.device.as_str()
    }

    /// Whether the device is a physical disk: its path starts with
    /// `/dev/sd`, `/dev/vd`, `/dev/nvme`, `/dev/mmcblk` or `/dev/mapper/`.
    pub fn is_physical(&self) -> (r: bool)
        ensures
            r == physical_device(self.device@),
    {
        let d = chars_of(self.device.as_str());
        let p1 = chars_of("/dev/sd");
        let p2 = chars_of("/dev/vd");
        let p3 = chars_of("/dev/nvme");
        let p4 = chars_of("/dev/mmcblk");
        let p5 = chars_of("/dev/mapper/");
        starts_with(&d, &p1) || starts_with(&d, &p2) || starts_with(&d, &p3) || starts_with(
            &d,
            &p4,
        ) || starts_with(&d, &p5)
    }

    /// Whether the file system is mounted read-only: `ro` is among its
    /// flags.
    pub fn is_readonly(&self) -> (r: bool)
        ensures
            r == string_views(self.flags@).contains("ro"@),
    {
        let mut i: usize = 0;
        while i < self.flags.len()
            invariant
                0 <= i <= self.flags@.len(),
                forall|j: int| 0 <= j < i ==> self.flags@[j]@ != "ro"@,
            decreases self.flags@.len() - i,
        {
            if string_is(&self.flags[i], "ro") {
                assert(string_views(self.flags@)[i as int] == "ro"@);
                return true;
            }
            i = i + 1;
        }
        assert(!string_views(self.flags@).contains("ro"@)) by {
            if string_views(self.flags@).contains("ro"@) {
                let j = choose|j: int|
                    0 <= j < string_views(self.flags@).len() && string_views(self.flags@)[j]
                        == "ro"@;
                assert(self.flags@[j]@ == "ro"@);
            }
        }
        false
    }

    /// Whether the device is no physical disk.
    pub fn is_virtual(&self) -> (r: bool)
        ensures
            r == !physical_device(self.device@),
    {
        !self.is_physical()
    }

    /// Whether the file system type is `tmpfs`.
    pub fn is_tmpfs(&self) -> (r: bool)
        ensures
            r == (self.fs_type@ == "tmpfs"@),
    {
        string_is(&self.fs_type, "tmpfs")
    }

    /// Whether the file system type is `squashfs`.
    pub fn is_squashfs(&self) -> (r: bool)
        ensures
            r == (self.fs_type@ == "squashfs"@),
    {
        string_is(&self.fs_type, "squashfs")
    }

    /// Whether the file system type is `overlay`.
    pub fn is_overlay(&self) -> (r: bool)
        ensures
            r == (self.fs_type@ == "overlay"@),
    {
        string_is(&self.fs_type, "overlay")
    }

    /// Whether the file system type is `devtmpfs`.
    pub fn is_devtmpfs(&self) -> (r: bool)
        ensures
            r == (self.fs_type@ == "devtmpfs"@),
    {
        string_is(&self.fs_type, "devtmpfs")
    }

    /// Whether the file system type is `proc`.
    pub fn is_proc(&self) -> (r: bool)
        ensures
            r == (self.fs_type@ == "proc"@),
    {
        string_is(&self.fs_type, "proc")
    }

    /// Whether the file system type is `sysfs`.
    pub fn is_sysfs(&self) -> (r: bool)
        ensures
            r == (self.fs_type@ == "sysfs"@),
    {
        string_is(&self.fs_type, "sysfs")
    }

    /// Whether the file system type is `nfs`.
    pub fn is_nfs(&self) -> (r: bool)
        ensures
            r == (self.fs_type@ == "nfs"@),
    {
        string_is(&self.fs_type, "nfs")
    }

    /// Whether the file system type is `cifs`.
    pub fn is_cifs(&self) -> (r: bool)
        ensures
            r == (self.fs_type@ == "cifs"@),
    {
        string_is(&self.fs_type, "cifs")
    }

    /// Whether the file system type is `iso9660`.
    pub fn is_iso9660(&self) -> (r: bool)
        ensures
            r == (self.fs_type@ == "iso9660"@),
    {
        string_is(&self.fs_type, "iso9660")
    }

    /// Whether the file system type is `zfs`.
    pub fn is_zfs(&self) -> (r: bool)
        ensures
            r == (self.fs_type@ == "zfs"@),
    {
        string_is(&self.fs_type, "zfs")
    }

    /// Whether the file system type is `hfsplus`.
    pub fn is_hfsplus(&self) -> (r: bool)
        ensures
            r == (self.fs_type@ == "hfsplus"@),
    {
        string_is(&self.fs_type, "hfsplus")
    }

    /// Whether the file system type is `ext4`.
    pub fn is_ext4(&self) -> (r: bool)
        ensures
            r == (self.fs_type@ == "ext4"@),
    {
        string_is(&self.fs_type, "ext4")
    }

    /// Whether the file system type is `ext3`.
    pub fn is_ext3(&self) -> (r: bool)
        ensures
            r == (self.fs_type@ == "ext3"@),
    {
        string_is(&self.fs_type, "ext3")
    }

    /// Whether the file system type is `ext2`.
    pub fn is_ext2(&self) -> (r: bool)
        ensures
            r == (self.fs_type@ == "ext2"@),
    {
        string_is(&self.fs_type, "ext2")
    }

    /// Whether the file system type is `xfs`.
    pub fn is_xfs(&self) -> (r: bool)
        ensures
            r == (self.fs_type@ == "xfs"@),
    {
        string_is(&self.fs_type, "xfs")
    }

    /// Whether the file system type is `btrfs`.
    pub fn is_btrfs(&self) -> (r: bool)
        ensures
            r == (self.fs_type@ == "btrfs"@),
    {
        string_is(&self.fs_type, "btrfs")
    }
}

/// The device paths of devices.
pub open spec fn device_keys(v: Seq<Device>) -> Seq<Seq<char>> {
    Seq::new(v.len(), |i: int| v[i].device@)
}

/// The views of devices.
pub open spec fn device_views(v: Seq<Device>) -> Seq<DeviceView> {
    Seq::new(v.len(), |i: int| v[i]@)
}

/// Mounted file systems by device path; a later mount of a device
/// replaces an earlier one.
#[derive(Debug, Clone)]
pub struct Devices {
    pub devices: Vec<Device>,
}

impl View for Devices {
    type V = Map<Seq<char>, DeviceView>;

    open spec fn view(&self) -> Map<Seq<char>, DeviceView> {
        keyed_map(device_keys(self.devices@), device_views(self.devices@))
    }
}

impl Devices {
    /// The mounts, by device path.
    pub fn new(vec_points: Vec<Device>) -> (r: Devices)
        ensures
            r@ == keyed_map(device_keys(vec_points@), device_views(vec_points@)),
    {
        Devices { devices: vec_points }
    }

    /// The mount of a device path.
    pub fn get(&self, device: &str) -> (r: Option<Device>)
        ensures
            match r {
                Some(d) => self@.contains_key(device@) && d@ == self@[device@],
                None => !self@.contains_key(device@),
            },
    {
        let k = chars_of(device);
        let ghost keys = device_keys(self.devices@);
        let mut i = self.devices.len();
        while i > 0
            invariant
                i <= self.devices@.len(),
                keys == device_keys(self.devices@),
                k@ == device@,
                forall|j: int| i <= j < keys.len() ==> keys[j] != k@,
            decreases i,
        {
            i = i - 1;
            let d = chars_of(self.devices[i].device.as_str());
            if crate::text::chars_eq(&d, &k) {
                proof {
                    lemma_keyed_map_last(keys, device_views(self.devices@), i as int);
                }
                return Some(self.devices[i].duplicate());
            }
        }
        proof {
            lemma_keyed_map_absent(keys, device_views(self.devices@), device@);
        }
        None
    }
}

/// The mount that one line of a mounts file describes, when it has at
/// least six fields: device, mount point, type (in lowercase), the flags
/// cut at `,`, and the dump and pass numbers (zero when they are none);
/// the device's label is looked up among the labels.
pub open spec fn mount_of_line(line: Seq<char>, labels: Map<Seq<char>, LabeledView>) -> Option<
    DeviceView,
> {
    let p = split_ws(line);
    if p.len() >= 6 {
        Some(
            DeviceView {
                label: if labels.contains_key(p[0]) {
                    Some(labels[p[0]])
                } else {
                    None
                },
                device: p[0],
                mount_point: p[1],
                fs_type: lowercase(p[2]),
                flags: split_on(p[3], ','),
                dump: u32_or(p[4], 0),
                pass: u32_or(p[5], 0),
            },
        )
    } else {
        None
    }
}

/// The mounts that the lines describe, in order.
pub open spec fn mounts_of_lines(
    lines: Seq<Seq<char>>,
    labels: Map<Seq<char>, LabeledView>,
) -> Seq<DeviceView>
    decreases lines.len(),
{
    if lines.len() == 0 {
        Seq::empty()
    } else {
        let before = mounts_of_lines(lines.drop_last(), labels);
        match mount_of_line(lines.last(), labels) {
            Some(d) => before.push(d),
            None => before,
        }
    }
}

/// The device paths of mounts.
pub open spec fn mount_keys(v: Seq<DeviceView>) -> Seq<Seq<char>> {
    Seq::new(v.len(), |i: int| v[i].device)
}

/// Reading the mounted file systems.
pub struct Mounts;

impl Mounts {
    /// The mount that one line of a mounts file describes.
    pub fn parse_line(line: &str, labels: &LabeledDevices) -> (r: Option<Device>)
        ensures
            match r {
                Some(d) => mount_of_line(line@, labels@) == Some(d@),
                None => mount_of_line(line@, labels@) is None,
            },
    {
        let cs = chars_of(line);
        let p = split_whitespace(&cs);
        if p.len() < 6 {
            return None;
        }
        let device = string_of(&p[0]);
        let label = labels.get(device.as_str());
        let mount_point = string_of(&p[1]);
        let fs_type = string_of(&to_lowercase(&p[2]));
        let pieces = split_char(&p[3], ',');
        let flags = strings_of(&pieces);
        assert(string_views(flags@) =~= split_on(p@[3]@, ','));
        let dump = parse_u32_or(&p[4], 0);
        let pass = parse_u32_or(&p[5], 0);
        let d = Device { label, device, mount_point, fs_type, flags, dump, pass };
        Some(d)
    }

    /// The mounted file systems that the lines of a mounts file describe.
    pub fn parse_lines(lines: &Vec<String>, labels: &LabeledDevices) -> (r: Devices)
        ensures
            r@ == keyed_map(
                mount_keys(mounts_of_lines(string_views(lines@), labels@)),
                mounts_of_lines(string_views(lines@), labels@),
            ),
    {
        let mut points: Vec<Device> = Vec::new();
        let ghost ls = string_views(lines@);
        let mut i: usize = 0;
        while i < lines.len()
            invariant
                0 <= i <= lines@.len(),
                ls == string_views(lines@),
                device_views(points@) == mounts_of_lines(ls.take(i as int), labels@),
            decreases lines@.len() - i,
        {
            assert(ls.take(i + 1).drop_last() =~= ls.take(i as int));
            let ghost before = points@;
            match Self::parse_line(lines[i].as_str(), labels) {
                Some(d) => {
                    points.push(d);
                    assert(device_views(points@) =~= device_views(before).push(d@));
                },
                None => {},
            }
            i = i + 1;
        }
        assert(ls.take(lines@.len() as int) =~= ls);
        assert(device_keys(points@) =~= mount_keys(device_views(points@)));
        Devices::new(points)
    }
}

/// A device counts as a physical disk exactly when its path begins with
/// `/dev/sd`, `/dev/vd`, `/dev/nvme`, `/dev/mmcblk` or `/dev/mapper/`; every
/// other path is virtual.
pub proof fn lemma_physical_device_prefixes(d: Seq<char>)
    ensures
        physical_device(d) <==> {
            ||| "/dev/sd"@.is_prefix_of(d)
            ||| "/dev/vd"@.is_prefix_of(d)
            ||| "/dev/nvme"@.is_prefix_of(d)
            ||| "/dev/mmcblk"@.is_prefix_of(d)
            ||| "/dev/mapper/"@.is_prefix_of(d)
        },
        "/dev/nvme"@.is_prefix_of(d) ==> physical_device(d),
{
    assert forall|p: Seq<char>| has_prefix(d, p) <==> p.is_prefix_of(d) by {
        if p.len() <= d.len() {
            assert(d.take(p.len() as int) =~= d.subrange(0, p.len() as int));
        }
    }
}

} // verus!
