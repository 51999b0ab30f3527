//! A room: a name-keyed registry of devices with a deterministic report.

use vstd::prelude::*;
use vstd::string::StringExecFns;

use crate::registry::{as_map, pairs_view, sorted_by_key, Registry};
use crate::registry::lemma_sorted_canonical;
use crate::smart_devices::{device_info_str, Device, DeviceView};
use crate::text::{dec_str, u64_dec};

verus! {

/// What a room is: its name and its devices, keyed by name and listed in
/// ascending key order.
pub ghost struct RoomView {
    pub name: Seq<char>,
    pub devices: Seq<(Seq<char>, DeviceView)>,
}

impl RoomView {
    /// The device entries are strictly sorted by key.
    pub open spec fn wf(self) -> bool {
        sorted_by_key(self.devices)
    }

    /// The key-device map the room holds.
    pub open spec fn device_map(self) -> Map<Seq<char>, DeviceView> {
        as_map(self.devices)
    }
}

/// The message reported when a device lookup fails.
pub open spec fn device_not_found_msg(key: Seq<char>, room: Seq<char>) -> Seq<char> {
    "Device with the name '"@ + key + "' not found in the room '"@ + room + "'"@
}

/// The typed failure a device access returns when the key is absent.
#[derive(Debug, Clone, PartialEq)]
pub struct AccessError {
    pub message: String,
}

impl AccessError {
    /// The error as display text.
    pub fn text(&self) -> (r: String)
        ensures
            r@ == "AccessError: "@ + self.message@,
    {
        let mut s = String::from_str("AccessError: ");
        s.append(self.message.as_str());
        s
    }
}

/// The separator between device lines of a room report.
pub open spec fn device_sep() -> Seq<char> {
    "\n  --------------------------------------\n  "@
}

/// One indexed device line of a room report.
pub open spec fn room_item_str(i: int, d: DeviceView) -> Seq<char> {
    "["@ + dec_str(i as nat) + "]: "@ + device_info_str(d)
}

/// The first `n` device lines of a room report, joined by the separator.
pub open spec fn room_lines_upto(devices: Seq<(Seq<char>, DeviceView)>, n: int) -> Seq<char>
    decreases n,
{
    if n <= 0 {
        Seq::empty()
    } else if n == 1 {
        room_item_str(0, devices[0].1)
    } else {
        room_lines_upto(devices, n - 1) + device_sep() + room_item_str(n - 1, devices[n - 1].1)
    }
}

/// The report a room renders: its name, its device count, and one line per
/// device in ascending key order.
pub open spec fn room_info_str(v: RoomView) -> Seq<char> {
    "\nSmart Room: "@ + v.name + ":\n Total devices: "@ + dec_str(v.devices.len()) + "\n  "@
        + room_lines_upto(v.devices, v.devices.len() as int)
}

/// Law: the report depends only on the name and on which device is held
/// under which key, never on the order in which the devices were inserted.
pub proof fn lemma_room_report_insertion_order(r1: RoomView, r2: RoomView)
    requires
        r1.wf(),
        r2.wf(),
        r1.name == r2.name,
        r1.device_map() == r2.device_map(),
    ensures
        room_info_str(r1) == room_info_str(r2),
{
    lemma_sorted_canonical(r1.devices, r2.devices);
}

/// Law: after `add(key, device)`, looking `key` up finds exactly that
/// device, and removing `key` yields it back and leaves the room without
/// the key.
pub proof fn lemma_add_get_remove(m: Map<Seq<char>, DeviceView>, key: Seq<char>, d: DeviceView)
    ensures
        m.insert(key, d).contains_key(key),
        m.insert(key, d)[key] == d,
        !m.insert(key, d).remove(key).contains_key(key),
{
}

/// A room owning a name-keyed collection of devices.
#[derive(Debug, Clone)]
pub struct SmartRoom {
    name: String,
    devices: Registry<Device>,
}

impl View for SmartRoom {
    type V = RoomView;

    closed spec fn view(&self) -> RoomView {
        RoomView { name: self.name@, devices: self.devices@ }
    }
}

impl SmartRoom {
    /// The device entries are strictly sorted by key.
    pub open spec fn wf(&self) -> bool {
        self@.wf()
    }

    /// A room with the given name, holding the given devices; a later pair
    /// overrides an earlier one with the same key.
    pub fn new(name: String, devices: Vec<(String, Device)>) -> (r: Self)
        ensures
            r.wf(),
            r@.name == name@,
            r@.device_map() == as_map(pairs_view(devices@)),
    {
        SmartRoom { name, devices: Registry::from_pairs(devices) }
    }

    /// The room's own name.
    pub fn name(&self) -> (r: String)
        ensures
            r@ == self@.name,
    {
        self.name.clone()
    }

    /// How many devices the room holds.
    pub fn device_count(&self) -> (r: usize)
        ensures
            r == self@.devices.len(),
    {
        self.devices.len()
    }

    /// Looks a device up without granting mutation rights; absence is a
    /// plain not-found, not an error.
    pub fn view_device(&self, key: &str) -> (r: Option<&Device>)
        requires
            self.wf(),
        ensures
            match r {
                Some(d) => self@.device_map().contains_key(key@) && d@
                    == self@.device_map()[key@],
                None => !self@.device_map().contains_key(key@),
            },
    {
        self.devices.get(key)
    }

    /// Looks a device up, granting the caller mutation rights over it.
    pub fn get_device(&mut self, key: &str) -> (r: Option<&mut Device>)
        requires
            old(self).wf(),
        ensures
            match r {
                Some(d) => {
                    &&& old(self)@.device_map().contains_key(key@)
                    &&& (*d)@ == old(self)@.device_map()[key@]
                    &&& final(self).wf()
                    &&& final(self)@.name == old(self)@.name
                    &&& final(self)@.devices.len() == old(self)@.devices.len()
                    &&& final(self)@.device_map() == old(self)@.device_map().insert(
                        key@,
                        (*final(d))@,
                    )
                },
                None => {
                    &&& !old(self)@.device_map().contains_key(key@)
                    &&& *final(self) == *old(self)
                },
            },
    {
        self.devices.get_mut(key)
    }

    /// Inserts the device at `key`, replacing any device the key had.  The
    /// key is not checked against the device's own name.
    pub fn add_device(&mut self, key: String, device: Device)
        requires
            old(self).wf(),
        ensures
            final(self).wf(),
            final(self)@.name == old(self)@.name,
            final(self)@.device_map() == old(self)@.device_map().insert(key@, device@),
            old(self)@.device_map().contains_key(key@) ==> final(self)@.devices.len() == old(
                self,
            )@.devices.len(),
            !old(self)@.device_map().contains_key(key@) ==> final(self)@.devices.len() == old(
                self,
            )@.devices.len() + 1,
    {
        self.devices.insert(key, device);
    }

    /// Removes and returns the device at `key`, if the key is held.
    pub fn remove_device(&mut self, key: &str) -> (r: Option<Device>)
        requires
            old(self).wf(),
        ensures
            final(self).wf(),
            final(self)@.name == old(self)@.name,
            match r {
                Some(d) => {
                    &&& old(self)@.device_map().contains_key(key@)
                    &&& d@ == old(self)@.device_map()[key@]
                    &&& final(self)@.device_map() == old(self)@.device_map().remove(key@)
                    &&& final(self)@.devices.len() + 1 == old(self)@.devices.len()
                },
                None => {
                    &&& !old(self)@.device_map().contains_key(key@)
                    &&& *final(self) == *old(self)
                },
            },
    {
        self.devices.remove(key)
    }

    /// Renders the room's report: deterministic, device lines in ascending
    /// key order.
    pub fn info(&self) -> (r: String)
        ensures
            r@ == room_info_str(self@),
    {
        let n = self.devices.len();
        let mut s = String::from_str("\nSmart Room: ");
        s.append(self.name.as_str());
        s.append(":\n Total devices: ");
        s.append(u64_dec(n as u64).as_str());
        s.append("\n  ");
        let ghost head = "\nSmart Room: "@ + self@.name + ":\n Total devices: "@ + dec_str(
            self@.devices.len(),
        ) + "\n  "@;
        proof {
            assert(s@ =~= head + room_lines_upto(self@.devices, 0));
        }
        let mut i: usize = 0;
        while i < n
            invariant
                n == self@.devices.len(),
                i <= n,
                head == "\nSmart Room: "@ + self@.name + ":\n Total devices: "@ + dec_str(
                    self@.devices.len(),
                ) + "\n  "@,
                s@ == head + room_lines_upto(self@.devices, i as int),
            decreases n - i,
        {
            let ghost s_before = s@;
            if i > 0 {
                s.append("\n  --------------------------------------\n  ");
            }
            s.append("[");
            s.append(u64_dec(i as u64).as_str());
            s.append("]: ");
            let pair = self.devices.pair_at(i);
            s.append(pair.1.info().as_str());
            proof {
                if i == 0 {
                    assert(s@ =~= head + room_lines_upto(self@.devices, 1));
                } else {
                    assert(s@ =~= head + (room_lines_upto(self@.devices, i as int) + device_sep()
                        + room_item_str(i as int, self@.devices[i as int].1)));
                }
            }
            i += 1;
        }
        s
    }
}

/// Controlled access to devices by key, surfacing absence as a typed
/// failure rather than a plain not-found.
pub trait AccessDevice {
    /// The key-device map the container holds.
    spec fn devices_held(&self) -> Map<Seq<char>, DeviceView>;

    /// The container's name, as quoted in failure messages.
    spec fn holder_name(&self) -> Seq<char>;

    /// The container's well-formedness.
    spec fn access_wf(&self) -> bool;

    /// Looks the key up; absence yields a failure carrying the exact
    /// not-found message.
    fn access_device(&self, key: &str) -> (r: Result<&Device, AccessError>)
        requires
            self.access_wf(),
        ensures
            match r {
                Ok(d) => self.devices_held().contains_key(key@) && d@
                    == self.devices_held()[key@],
                Err(e) => !self.devices_held().contains_key(key@) && e.message@
                    == device_not_found_msg(key@, self.holder_name()),
            },
    ;
}

impl AccessDevice for SmartRoom {
    open spec fn devices_held(&self) -> Map<Seq<char>, DeviceView> {
        self@.device_map()
    }

    open spec fn holder_name(&self) -> Seq<char> {
        self@.name
    }

    open spec fn access_wf(&self) -> bool {
        self.wf()
    }

    fn access_device(&self, key: &str) -> (r: Result<&Device, AccessError>) {
        match self.devices.get(key) {
            Some(d) => Ok(d),
            None => {
                let mut m = String::from_str("Device with the name '");
                m.append(key);
                m.append("' not found in the room '");
                m.append(self.name.as_str());
                m.append("'");
                proof {
                    assert(m@ =~= device_not_found_msg(key@, self@.name));
                }
                Err(AccessError { message: m })
            },
        }
    }
}

} // verus!
