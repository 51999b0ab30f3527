//! A home: a name-keyed registry of rooms, with lookup through to devices
//! and a report aggregating the room reports.

use vstd::prelude::*;
use vstd::string::StringExecFns;

use crate::registry::{as_map, lemma_as_map_contains, pairs_view, sorted_by_key, Registry};
use crate::registry::lemma_sorted_canonical;
use crate::smart_devices::Device;
use crate::smart_room::{device_not_found_msg, room_info_str, AccessDevice, AccessError};
use crate::smart_room::{RoomView, SmartRoom};
use crate::text::{dec_str, u64_dec};

verus! {

/// What a home is: its name and its rooms, keyed by name and listed in
/// ascending key order.
pub ghost struct HomeView {
    pub name: Seq<char>,
    pub rooms: Seq<(Seq<char>, RoomView)>,
}

impl HomeView {
    /// The key-room map the home holds.
    pub open spec fn room_map(self) -> Map<Seq<char>, RoomView> {
        as_map(self.rooms)
    }

    /// The room entries are strictly sorted by key and every room held is
    /// itself well-formed.
    pub open spec fn wf(self) -> bool {
        &&& sorted_by_key(self.rooms)
        &&& forall|k: Seq<char>|
            self.room_map().contains_key(k) ==> (#[trigger] self.room_map()[k]).wf()
    }
}

/// The message reported when a room lookup fails.
pub open spec fn room_not_found_msg(key: Seq<char>, house: Seq<char>) -> Seq<char> {
    "Room with the name '"@ + key + "' not found in the house '"@ + house + "'"@
}

/// The typed failure a room access returns when the key is absent.
#[derive(Debug, Clone, PartialEq)]
pub struct RoomAccessError {
    pub message: String,
}

impl RoomAccessError {
    /// The error as display text.
    pub fn text(&self) -> (r: String)
        ensures
            r@ == "RoomAccessError: "@ + self.message@,
    {
        let mut s = String::from_str("RoomAccessError: ");
        s.append(self.message.as_str());
        s
    }
}

/// The failure of a device lookup through the home, tagging which level
/// failed: the room was missing, or the device was missing in a room that
/// exists.
#[derive(Debug, Clone, PartialEq)]
pub enum DeviceAccessError {
    DeviceAccess(AccessError),
    RoomAccess(RoomAccessError),
}

/// The display text of a device-lookup failure.
pub open spec fn device_access_error_str(e: DeviceAccessError) -> Seq<char> {
    match e {
        DeviceAccessError::DeviceAccess(a) => "Error: "@ + "AccessError: "@ + a.message@,
        DeviceAccessError::RoomAccess(a) => "Error: "@ + "RoomAccessError: "@ + a.message@,
    }
}

impl DeviceAccessError {
    /// The error as display text.
    pub fn text(&self) -> (r: String)
        ensures
            r@ == device_access_error_str(*self),
    {
        let mut s = String::from_str("Error: ");
        match self {
            DeviceAccessError::DeviceAccess(a) => s.append(a.text().as_str()),
            DeviceAccessError::RoomAccess(a) => s.append(a.text().as_str()),
        }
        proof {
            assert(s@ =~= device_access_error_str(*self));
        }
        s
    }
}

impl From<AccessError> for DeviceAccessError {
    fn from(error: AccessError) -> (r: Self) {
        DeviceAccessError::DeviceAccess(error)
    }
}

impl vstd::std_specs::convert::FromSpecImpl<AccessError> for DeviceAccessError {
    open spec fn obeys_from_spec() -> bool {
        true
    }

    open spec fn from_spec(error: AccessError) -> DeviceAccessError {
        DeviceAccessError::DeviceAccess(error)
    }
}

impl From<RoomAccessError> for DeviceAccessError {
    fn from(error: RoomAccessError) -> (r: Self) {
        DeviceAccessError::RoomAccess(error)
    }
}

impl vstd::std_specs::convert::FromSpecImpl<RoomAccessError> for DeviceAccessError {
    open spec fn obeys_from_spec() -> bool {
        true
    }

    open spec fn from_spec(error: RoomAccessError) -> DeviceAccessError {
        DeviceAccessError::RoomAccess(error)
    }
}

/// The separator between room blocks of a home report.
pub open spec fn room_sep() -> Seq<char> {
    "\n=====================================\n"@
}

/// One indexed room block of a home report.
pub open spec fn home_item_str(i: int, rv: RoomView) -> Seq<char> {
    "Room["@ + dec_str(i as nat) + "]:"@ + room_info_str(rv)
}

/// The first `n` room blocks of a home report, joined by the separator.
pub open spec fn home_lines_upto(rooms: Seq<(Seq<char>, RoomView)>, n: int) -> Seq<char>
    decreases n,
{
    if n <= 0 {
        Seq::empty()
    } else if n == 1 {
        home_item_str(0, rooms[0].1)
    } else {
        home_lines_upto(rooms, n - 1) + room_sep() + home_item_str(n - 1, rooms[n - 1].1)
    }
}

/// The report a home renders: its name, its room count, and one block per
/// room in ascending key order.
pub open spec fn home_info_str(v: HomeView) -> Seq<char> {
    "Smart Home: "@ + v.name + ":\n Total Rooms: "@ + dec_str(v.rooms.len()) + "\n\n"@
        + home_lines_upto(v.rooms, v.rooms.len() as int)
}

/// Law: the home report depends only on the name and on which room is held
/// under which key, never on the order in which the rooms were inserted.
pub proof fn lemma_home_report_insertion_order(h1: HomeView, h2: HomeView)
    requires
        sorted_by_key(h1.rooms),
        sorted_by_key(h2.rooms),
        h1.name == h2.name,
        h1.room_map() == h2.room_map(),
    ensures
        home_info_str(h1) == home_info_str(h2),
{
    lemma_sorted_canonical(h1.rooms, h2.rooms);
}

/// A home owning a name-keyed collection of rooms.
#[derive(Debug, Clone)]
pub struct SmartHome {
    name: String,
    rooms: Registry<SmartRoom>,
}

impl View for SmartHome {
    type V = HomeView;

    closed spec fn view(&self) -> HomeView {
        HomeView { name: self.name@, rooms: self.rooms@ }
    }
}

impl SmartHome {
    /// The room entries are strictly sorted by key and every room held is
    /// well-formed.
    pub open spec fn wf(&self) -> bool {
        self@.wf()
    }

    /// A home with the given name, holding the given rooms; a later pair
    /// overrides an earlier one with the same key.
    pub fn new(name: String, rooms: Vec<(String, SmartRoom)>) -> (r: Self)
        requires
            forall|i: int| 0 <= i < rooms@.len() ==> (#[trigger] rooms@[i]).1.wf(),
        ensures
            r.wf(),
            r@.name == name@,
            r@.room_map() == as_map(pairs_view(rooms@)),
    {
        let ghost rv0 = rooms@;
        let ghost pv = pairs_view(rooms@);
        let h = SmartHome { name, rooms: Registry::from_pairs(rooms) };
        proof {
            assert forall|k: Seq<char>| h@.room_map().contains_key(k) implies (
            #[trigger] h@.room_map()[k]).wf() by {
                lemma_as_map_contains(pv, k);
                let i = choose|i: int|
                    0 <= i < pv.len() && (#[trigger] pv[i]).0 == k && as_map(pv)[k] == pv[i].1;
                assert(pv[i].1 == rv0[i].1@);
                assert(rv0[i].1.wf());
            }
        }
        h
    }

    /// The home's own name.
    pub fn name(&self) -> (r: String)
        ensures
            r@ == self@.name,
    {
        self.name.clone()
    }

    /// How many rooms the home holds.
    pub fn room_count(&self) -> (r: usize)
        ensures
            r == self@.rooms.len(),
    {
        self.rooms.len()
    }

    /// Looks a room up without granting mutation rights; absence is a plain
    /// not-found, not an error.
    pub fn view_room(&self, key: &str) -> (r: Option<&SmartRoom>)
        requires
            self.wf(),
        ensures
            match r {
                Some(room) => {
                    &&& self@.room_map().contains_key(key@)
                    &&& room@ == self@.room_map()[key@]
                    &&& room.wf()
                },
                None => !self@.room_map().contains_key(key@),
            },
    {
        self.rooms.get(key)
    }

    /// Looks a room up, granting the caller mutation rights over it.  The
    /// home stays well-formed as long as the caller leaves the room
    /// well-formed.
    pub fn get_room(&mut self, key: &str) -> (r: Option<&mut SmartRoom>)
        requires
            old(self).wf(),
        ensures
            match r {
                Some(room) => {
                    &&& old(self)@.room_map().contains_key(key@)
                    &&& (*room)@ == old(self)@.room_map()[key@]
                    &&& (*room).wf()
                    &&& final(self)@.name == old(self)@.name
                    &&& final(self)@.rooms.len() == old(self)@.rooms.len()
                    &&& sorted_by_key(final(self)@.rooms)
                    &&& final(self)@.room_map() == old(self)@.room_map().insert(
                        key@,
                        (*final(room))@,
                    )
                    &&& ((*final(room))@.wf() ==> final(self).wf())
                },
                None => {
                    &&& !old(self)@.room_map().contains_key(key@)
                    &&& *final(self) == *old(self)
                },
            },
    {
        self.rooms.get_mut(key)
    }

    /// Resolves a room and then a device in it, short-circuiting on the
    /// first failure and tagging which level failed.
    pub fn device(&self, room_name: &str, device_name: &str) -> (r: Result<
        &Device,
        DeviceAccessError,
    >)
        requires
            self.wf(),
        ensures
            match r {
                Ok(d) => {
                    &&& self@.room_map().contains_key(room_name@)
                    &&& self@.room_map()[room_name@].device_map().contains_key(device_name@)
                    &&& d@ == self@.room_map()[room_name@].device_map()[device_name@]
                },
                Err(e) => match e {
                    DeviceAccessError::RoomAccess(re) => {
                        &&& !self@.room_map().contains_key(room_name@)
                        &&& re.message@ == room_not_found_msg(room_name@, self@.name)
                    },
                    DeviceAccessError::DeviceAccess(de) => {
                        &&& self@.room_map().contains_key(room_name@)
                        &&& !self@.room_map()[room_name@].device_map().contains_key(
                            device_name@,
                        )
                        &&& de.message@ == device_not_found_msg(
                            device_name@,
                            self@.room_map()[room_name@].name,
                        )
                    },
                },
            },
    {
        match self.access_room(room_name) {
            Ok(room) => match room.access_device(device_name) {
                Ok(d) => Ok(d),
                Err(e) => Err(DeviceAccessError::DeviceAccess(e)),
            },
            Err(e) => Err(DeviceAccessError::RoomAccess(e)),
        }
    }

    /// Inserts the room under its own name, replacing any room that name
    /// had.
    pub fn add_room(&mut self, room: SmartRoom)
        requires
            old(self).wf(),
            room.wf(),
        ensures
            final(self).wf(),
            final(self)@.name == old(self)@.name,
            final(self)@.room_map() == old(self)@.room_map().insert(room@.name, room@),
            old(self)@.room_map().contains_key(room@.name) ==> final(self)@.rooms.len() == old(
                self,
            )@.rooms.len(),
            !old(self)@.room_map().contains_key(room@.name) ==> final(self)@.rooms.len() == old(
                self,
            )@.rooms.len() + 1,
    {
        let ghost m0 = self@.room_map();
        let ghost rv = room@;
        let key = room.name();
        self.rooms.insert(key, room);
        proof {
            assert(sorted_by_key(self@.rooms));
            assert(self@.room_map() == m0.insert(rv.name, rv));
            assert forall|k: Seq<char>| self@.room_map().contains_key(k) implies (
            #[trigger] self@.room_map()[k]).wf() by {
                if k != rv.name {
                    assert(self@.room_map()[k] == m0[k]);
                }
            }
            assert(self.wf());
        }
    }

    /// Removes and returns the room at `key`, if the key is held.
    pub fn remove_room(&mut self, room: &str) -> (r: Option<SmartRoom>)
        requires
            old(self).wf(),
        ensures
            final(self).wf(),
            final(self)@.name == old(self)@.name,
            match r {
                Some(removed) => {
                    &&& old(self)@.room_map().contains_key(room@)
                    &&& removed@ == old(self)@.room_map()[room@]
                    &&& final(self)@.room_map() == old(self)@.room_map().remove(room@)
                    &&& final(self)@.rooms.len() + 1 == old(self)@.rooms.len()
                },
                None => {
                    &&& !old(self)@.room_map().contains_key(room@)
                    &&& *final(self) == *old(self)
                },
            },
    {
        let ghost m0 = self@.room_map();
        let r = self.rooms.remove(room);
        proof {
            assert forall|k: Seq<char>| self@.room_map().contains_key(k) implies (
            #[trigger] self@.room_map()[k]).wf() by {
                assert(self@.room_map()[k] == m0[k]);
            }
        }
        r
    }

    /// Renders the home's report: deterministic, one block per room in
    /// ascending key order, each holding that room's report.
    pub fn info(&self) -> (r: String)
        ensures
            r@ == home_info_str(self@),
    {
        let n = self.rooms.len();
        let mut s = String::from_str("Smart Home: ");
        s.append(self.name.as_str());
        s.append(":\n Total Rooms: ");
        s.append(u64_dec(n as u64).as_str());
        s.append("\n\n");
        let ghost head = "Smart Home: "@ + self@.name + ":\n Total Rooms: "@ + dec_str(
            self@.rooms.len(),
        ) + "\n\n"@;
        proof {
            assert(s@ =~= head + home_lines_upto(self@.rooms, 0));
        }
        let mut i: usize = 0;
        while i < n
            invariant
                n == self@.rooms.len(),
                i <= n,
                head == "Smart Home: "@ + self@.name + ":\n Total Rooms: "@ + dec_str(
                    self@.rooms.len(),
                ) + "\n\n"@,
                s@ == head + home_lines_upto(self@.rooms, i as int),
            decreases n - i,
        {
            if i > 0 {
                s.append("\n=====================================\n");
            }
            s.append("Room[");
            s.append(u64_dec(i as u64).as_str());
            s.append("]:");
            let pair = self.rooms.pair_at(i);
            s.append(pair.1.info().as_str());
            proof {
                if i == 0 {
                    assert(s@ =~= head + home_lines_upto(self@.rooms, 1));
                } else {
                    assert(s@ =~= head + (home_lines_upto(self@.rooms, i as int) + room_sep()
                        + home_item_str(i as int, self@.rooms[i as int].1)));
                }
            }
            i += 1;
        }
        s
    }
}

/// Controlled access to rooms by name, surfacing absence as a typed
/// failure rather than a plain not-found.
pub trait AccessRoom {
    /// The key-room map the container holds.
    spec fn rooms_held(&self) -> Map<Seq<char>, RoomView>;

    /// The house's name, as quoted in failure messages.
    spec fn house_name(&self) -> Seq<char>;

    /// The container's well-formedness.
    spec fn room_access_wf(&self) -> bool;

    /// Looks the key up; absence yields a failure carrying the exact
    /// not-found message.
    fn access_room(&self, key: &str) -> (r: Result<&SmartRoom, RoomAccessError>)
        requires
            self.room_access_wf(),
        ensures
            match r {
                Ok(room) => {
                    &&& self.rooms_held().contains_key(key@)
                    &&& room@ == self.rooms_held()[key@]
                    &&& room.wf()
                },
                Err(e) => {
                    &&& !self.rooms_held().contains_key(key@)
                    &&& e.message@ == room_not_found_msg(key@, self.house_name())
                },
            },
    ;
}

impl AccessRoom for SmartHome {
    open spec fn rooms_held(&self) -> Map<Seq<char>, RoomView> {
        self@.room_map()
    }

    open spec fn house_name(&self) -> Seq<char> {
        self@.name
    }

    open spec fn room_access_wf(&self) -> bool {
        self.wf()
    }

    fn access_room(&self, key: &str) -> (r: Result<&SmartRoom, RoomAccessError>) {
        match self.rooms.get(key) {
            Some(room) => Ok(room),
            None => {
                let mut m = String::from_str("Room with the name '");
                m.append(key);
                m.append("' not found in the house '");
                m.append(self.name.as_str());
                m.append("'");
                proof {
                    assert(m@ =~= room_not_found_msg(key@, self@.name));
                }
                Err(RoomAccessError { message: m })
            },
        }
    }
}

} // verus!
