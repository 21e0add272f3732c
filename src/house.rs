use vstd::prelude::*;

verus! {

/// A socket as the house registry records it. `_power` holds the bits of an
/// `f64` (`f64::to_bits`).
#[derive(Debug, Default, PartialEq)]
pub struct SmartSocket {
    pub _description: String,
    pub _is_enabled: bool,
    pub _power: u64,
}

impl SmartSocket {
    pub fn _enable(&mut self)
        ensures
            final(self)._is_enabled,
            final(self)._description == old(self)._description,
            final(self)._power == old(self)._power,
    {
        self._is_enabled = true
    }

    pub fn _disable(&mut self)
        ensures
            !final(self)._is_enabled,
            final(self)._description == old(self)._description,
            final(self)._power == old(self)._power,
    {
        self._is_enabled = false
    }

    pub fn _get_description(self) -> (d: String)
        ensures
            d == self._description,
    {
        self._description
    }

    pub fn _is_enabled(&self) -> (b: bool)
        ensures
            b == self._is_enabled,
    {
        self._is_enabled
    }

    /// The bits of the socket's `f64` power.
    pub fn _get_power(&self) -> (p: u64)
        ensures
            p == self._power,
    {
        self._power
    }
}

impl Clone for SmartSocket {
    fn clone(&self) -> (c: Self)
        ensures
            c == *self,
    {
        SmartSocket {
            _description: self._description.clone(),
            _is_enabled: self._is_enabled,
            _power: self._power,
        }
    }
}

/// A thermometer as the house registry records it. The temperature holds the
/// bits of an `f64`.
#[derive(Debug, Default, PartialEq)]
pub struct SmartThermometer {
    pub _current_temperature: u64,
}

impl SmartThermometer {
    /// The bits of the last recorded `f64` temperature.
    pub fn _get_current_temperature(&self) -> (t: u64)
        ensures
            t == self._current_temperature,
    {
        self._current_temperature
    }
}

impl Clone for SmartThermometer {
    fn clone(&self) -> (c: Self)
        ensures
            c == *self,
    {
        SmartThermometer { _current_temperature: self._current_temperature }
    }
}

/// A device of one of the kinds that a room can hold.
#[derive(Debug, PartialEq)]
pub enum Device {
    SmartSocket(SmartSocket),
    SmartThermometer(SmartThermometer),
}

impl Clone for Device {
    fn clone(&self) -> (c: Self)
        ensures
            c == *self,
    {
        match self {
            Device::SmartSocket(s) => Device::SmartSocket(s.clone()),
            Device::SmartThermometer(t) => Device::SmartThermometer(t.clone()),
        }
    }
}

/// Why a change to, or a lookup in, the registry was refused.
#[derive(Debug, PartialEq, Eq, Clone)]
pub enum SmartHouseError {
    DeviceNotFound { room: String, device: String },
    RoomNotFound(String),
    RoomAlreadyExists(String),
    DeviceAlreadyExists { room: String, device: String },
}

/// Some entry of `s` is named `k`.
pub open spec fn has_key<X>(s: Seq<(String, X)>, k: Seq<char>) -> bool {
    exists|i: int| 0 <= i < s.len() && (#[trigger] s[i]).0@ == k
}

/// The position of the entry named `k`; the only one where names are unique.
pub open spec fn key_pos<X>(s: Seq<(String, X)>, k: Seq<char>) -> int {
    choose|i: int| 0 <= i < s.len() && (#[trigger] s[i]).0@ == k
}

/// No two entries of `s` share a name.
pub open spec fn unique_keys<X>(s: Seq<(String, X)>) -> bool {
    forall|i: int, j: int| 0 <= i < s.len() && 0 <= j < s.len() && i != j ==> (#[trigger] s[i]).0@ != (#[trigger] s[j]).0@
}

/// The names of the entries of `s`, in order.
pub open spec fn key_list<X>(s: Seq<(String, X)>) -> Seq<String> {
    s.map_values(|p: (String, X)| p.0)
}

/// In a sequence with unique names, the entry found at `i` by name is the
/// one that `key_pos` designates.
proof fn lemma_key_pos<X>(s: Seq<(String, X)>, i: int)
    requires
        unique_keys(s),
        0 <= i < s.len(),
    ensures
        has_key(s, s[i].0@),
        key_pos(s, s[i].0@) == i,
{
    let k = s[i].0@;
    assert(has_key(s, k));
    let j = key_pos(s, k);
    assert(s[j].0@ == k);
}

/// Finds the entry named `key`.
fn position<X>(entries: &Vec<(String, X)>, key: &String) -> (r: Option<usize>)
    ensures
        r matches Some(i) ==> i < entries@.len() && entries@[i as int].0@ == key@,
        r is None ==> !has_key(entries@, key@),
{
    let mut i: usize = 0;
    while i < entries.len()
        invariant
            i <= entries@.len(),
            forall|j: int| 0 <= j < i ==> (#[trigger] entries@[j]).0@ != key@,
        decreases entries@.len() - i,
    {
        if entries[i].0 == *key {
            return Some(i);
        }
        i += 1;
    }
    None
}

/// The names of the entries of `entries`, in order.
fn names<X>(entries: &Vec<(String, X)>) -> (r: Vec<String>)
    ensures
        r@ == key_list(entries@),
{
    let mut r: Vec<String> = Vec::new();
    let mut i: usize = 0;
    while i < entries.len()
        invariant
            i <= entries@.len(),
            r@ == key_list(entries@.take(i as int)),
        decreases entries@.len() - i,
    {
        r.push(entries[i].0.clone());
        assert(entries@.take(i + 1) =~= entries@.take(i as int).push(entries@[i as int]));
        assert(key_list(entries@.take(i + 1)) =~= key_list(entries@.take(i as int)).push(
            entries@[i as int].0,
        ));
        i += 1;
    }
    assert(entries@.take(i as int) =~= entries@);
    r
}

/// The devices of one room, each under a name unique within the room.
pub struct Room {
    pub devices: Vec<(String, Device)>,
}

impl Room {
    /// A room without devices.
    pub fn new() -> (r: Room)
        ensures
            r.devices@ == Seq::<(String, Device)>::empty(),
    {
        Room { devices: Vec::new() }
    }

    /// Device names are unique within the room.
    pub open spec fn wf(&self) -> bool {
        unique_keys(self.devices@)
    }
}

impl Default for Room {
    fn default() -> (r: Room)
        ensures
            r.devices@ == Seq::<(String, Device)>::empty(),
    {
        Room::new()
    }
}

/// Every (room, device) name pair of a house, room by room in order and,
/// within a room, device by device in order.
pub open spec fn all_device_pairs(rooms: Seq<(String, Room)>) -> Seq<(String, String)>
    decreases rooms.len(),
{
    if rooms.len() == 0 {
        Seq::empty()
    } else {
        let last = rooms.last();
        all_device_pairs(rooms.drop_last()) + last.1.devices@.map_values(
            |d: (String, Device)| (last.0, d.0),
        )
    }
}

/// The name every house is created with.
pub open spec fn default_house_name() -> Seq<char> {
    "My house"@
}

/// A registry of named rooms, each holding named devices.
pub struct SmartHouse {
    name: String,
    rooms: Vec<(String, Room)>,
}

impl View for SmartHouse {
    type V = Seq<(String, Room)>;

    /// The rooms, in the order they were added.
    closed spec fn view(&self) -> Seq<(String, Room)> {
        self.rooms@
    }
}

impl Default for SmartHouse {
    fn default() -> (h: SmartHouse)
        ensures
            h.wf(),
            h@ == Seq::<(String, Room)>::empty(),
    {
        SmartHouse::new()
    }
}

/// Room names are unique in the house, and device names in each room.
pub open spec fn rooms_wf(rooms: Seq<(String, Room)>) -> bool {
    &&& unique_keys(rooms)
    &&& forall|i: int| 0 <= i < rooms.len() ==> (#[trigger] rooms[i]).1.wf()
}

/// The devices of the room named `room`.
pub open spec fn devices_in(rooms: Seq<(String, Room)>, room: Seq<char>) -> Seq<(String, Device)> {
    rooms[key_pos(rooms, room)].1.devices@
}

impl SmartHouse {
    pub closed spec fn wf(&self) -> bool {
        &&& rooms_wf(self.rooms@)
        &&& self.name@ == default_house_name()
    }

    /// An empty house.
    pub fn new() -> (h: SmartHouse)
        ensures
            h.wf(),
            h@ == Seq::<(String, Room)>::empty(),
    {
        SmartHouse { name: String::from_str("My house"), rooms: Vec::new() }
    }

    /// A house holding the given rooms.
    pub fn of(rooms: Vec<(String, Room)>) -> (h: SmartHouse)
        requires
            rooms_wf(rooms@),
        ensures
            h.wf(),
            h@ == rooms@,
    {
        SmartHouse { name: String::from_str("My house"), rooms }
    }

    /// The name of the house.
    pub fn name(&self) -> (n: &String)
        requires
            self.wf(),
        ensures
            n@ == default_house_name(),
    {
        &self.name
    }

    /// Adds an empty room, unless one of that name exists already.
    pub fn add_room(&mut self, room: String) -> (r: Result<(), SmartHouseError>)
        requires
            old(self).wf(),
        ensures
            final(self).wf(),
            has_key(old(self)@, room@) ==> r == Err::<(), _>(SmartHouseError::RoomAlreadyExists(room))
                && final(self)@ == old(self)@,
            !has_key(old(self)@, room@) ==> r is Ok && final(self)@.len() == old(self)@.len() + 1
                && final(self)@.drop_last() == old(self)@ && final(self)@.last().0 == room
                && final(self)@.last().1.devices@ == Seq::<(String, Device)>::empty(),
    {
        match position(&self.rooms, &room) {
            Some(_) => Err(SmartHouseError::RoomAlreadyExists(room)),
            None => {
                let ghost old_rooms = self.rooms@;
                let ghost key = room@;
                self.rooms.push((room, Room::new()));
                proof {
                    assert(self.rooms@.drop_last() =~= old_rooms);
                    assert forall|i: int, j: int|
                        0 <= i < self.rooms@.len() && 0 <= j < self.rooms@.len() && i != j
                            implies (#[trigger] self.rooms@[i]).0@ != (#[trigger] self.rooms@[j]).0@ by {
                        if i < old_rooms.len() && j < old_rooms.len() {
                            assert(old_rooms[i] == self.rooms@[i]);
                            assert(old_rooms[j] == self.rooms@[j]);
                        } else if i < old_rooms.len() {
                            assert(old_rooms[i] == self.rooms@[i]);
                        } else {
                            assert(old_rooms[j] == self.rooms@[j]);
                        }
                    }
                    assert forall|i: int| 0 <= i < self.rooms@.len() implies (
                    #[trigger] self.rooms@[i]).1.wf() by {
                        if i < old_rooms.len() {
                            assert(old_rooms[i] == self.rooms@[i]);
                        }
                    }
                }
                Ok(())
            },
        }
    }

    /// Removes the room of that name, with its devices, if there is one.
    pub fn remove_room(&mut self, room: String) -> (r: Result<(), SmartHouseError>)
        requires
            old(self).wf(),
        ensures
            final(self).wf(),
            has_key(old(self)@, room@) ==> r is Ok && final(self)@ == old(self)@.remove(
                key_pos(old(self)@, room@),
            ),
            !has_key(old(self)@, room@) ==> r == Err::<(), _>(SmartHouseError::RoomNotFound(room))
                && final(self)@ == old(self)@,
    {
        match position(&self.rooms, &room) {
            Some(i) => {
                proof {
                    lemma_key_pos(self.rooms@, i as int);
                }
                let ghost old_rooms = self.rooms@;
                self.rooms.remove(i);
                proof {
                    assert forall|a: int, b: int|
                        0 <= a < self.rooms@.len() && 0 <= b < self.rooms@.len() && a != b
                            implies (#[trigger] self.rooms@[a]).0@ != (#[trigger] self.rooms@[b]).0@ by {
                        let oa = if a < i { a } else { a + 1 };
                        let ob = if b < i { b } else { b + 1 };
                        assert(self.rooms@[a] == old_rooms[oa]);
                        assert(self.rooms@[b] == old_rooms[ob]);
                    }
                    assert forall|a: int| 0 <= a < self.rooms@.len() implies (
                    #[trigger] self.rooms@[a]).1.wf() by {
                        let oa = if a < i { a } else { a + 1 };
                        assert(self.rooms@[a] == old_rooms[oa]);
                    }
                }
                Ok(())
            },
            None => Err(SmartHouseError::RoomNotFound(room)),
        }
    }

    /// Adds a device under a name to an existing room, unless the room holds
    /// a device of that name already.
    pub fn add_device(&mut self, room: String, device_name: String, device: Device) -> (r: Result<
        (),
        SmartHouseError,
    >)
        requires
            old(self).wf(),
        ensures
            final(self).wf(),
            !has_key(old(self)@, room@) ==> r == Err::<(), _>(SmartHouseError::RoomNotFound(room))
                && final(self)@ == old(self)@,
            has_key(old(self)@, room@) && has_key(devices_in(old(self)@, room@), device_name@) ==> r
                == Err::<(), _>(SmartHouseError::DeviceAlreadyExists { room, device: device_name })
                && final(self)@ == old(self)@,
            has_key(old(self)@, room@) && !has_key(devices_in(old(self)@, room@), device_name@) ==> {
                let i = key_pos(old(self)@, room@);
                &&& r is Ok
                &&& final(self)@.len() == old(self)@.len()
                &&& forall|j: int| 0 <= j < old(self)@.len() && j != i ==> final(self)@[j] == old(
                    self,
                )@[j]
                &&& final(self)@[i].0 == old(self)@[i].0
                &&& final(self)@[i].1.devices@ == devices_in(old(self)@, room@).push(
                    (device_name, device),
                )
            },
    {
        match position(&self.rooms, &room) {
            None => Err(SmartHouseError::RoomNotFound(room)),
            Some(i) => {
                proof {
                    lemma_key_pos(self.rooms@, i as int);
                }
                match position(&self.rooms[i].1.devices, &device_name) {
                    Some(_) => Err(SmartHouseError::DeviceAlreadyExists { room, device: device_name }),
                    None => {
                        let ghost old_rooms = self.rooms@;
                        let mut entry = self.rooms.remove(i);
                        let ghost old_devices = entry.1.devices@;
                        let ghost key = device_name@;
                        entry.1.devices.push((device_name, device));
                        proof {
                            let devs = entry.1.devices@;
                            assert forall|a: int, b: int|
                                0 <= a < devs.len() && 0 <= b < devs.len() && a != b implies (
                            #[trigger] devs[a]).0@ != (#[trigger] devs[b]).0@ by {
                                if a < old_devices.len() {
                                    assert(devs[a] == old_devices[a]);
                                }
                                if b < old_devices.len() {
                                    assert(devs[b] == old_devices[b]);
                                }
                            }
                        }
                        self.rooms.insert(i, entry);
                        proof {
                            assert forall|a: int| 0 <= a < old_rooms.len() && a != i implies self.rooms@[a]
                                == old_rooms[a] by {}
                            assert forall|a: int, b: int|
                                0 <= a < self.rooms@.len() && 0 <= b < self.rooms@.len() && a != b
                                    implies (#[trigger] self.rooms@[a]).0@ != (
                            #[trigger] self.rooms@[b]).0@ by {
                                assert(self.rooms@[a].0 == old_rooms[a].0);
                                assert(self.rooms@[b].0 == old_rooms[b].0);
                            }
                            assert forall|a: int| 0 <= a < self.rooms@.len() implies (
                            #[trigger] self.rooms@[a]).1.wf() by {
                                if a != i {
                                    assert(self.rooms@[a] == old_rooms[a]);
                                }
                            }
                        }
                        Ok(())
                    },
                }
            },
        }
    }

    /// Removes the device of that name from an existing room, if the room
    /// holds one.
    pub fn remove_device(&mut self, room: String, device: String) -> (r: Result<(), SmartHouseError>)
        requires
            old(self).wf(),
        ensures
            final(self).wf(),
            !has_key(old(self)@, room@) ==> r == Err::<(), _>(SmartHouseError::RoomNotFound(room))
                && final(self)@ == old(self)@,
            has_key(old(self)@, room@) && !has_key(devices_in(old(self)@, room@), device@) ==> r
                == Err::<(), _>(SmartHouseError::DeviceNotFound { room, device })
                && final(self)@ == old(self)@,
            has_key(old(self)@, room@) && has_key(devices_in(old(self)@, room@), device@) ==> {
                let i = key_pos(old(self)@, room@);
                let devs = devices_in(old(self)@, room@);
                &&& r is Ok
                &&& final(self)@.len() == old(self)@.len()
                &&& forall|j: int| 0 <= j < old(self)@.len() && j != i ==> final(self)@[j] == old(
                    self,
                )@[j]
                &&& final(self)@[i].0 == old(self)@[i].0
                &&& final(self)@[i].1.devices@ == devs.remove(key_pos(devs, device@))
            },
    {
        match position(&self.rooms, &room) {
            None => Err(SmartHouseError::RoomNotFound(room)),
            Some(i) => {
                proof {
                    lemma_key_pos(self.rooms@, i as int);
                }
                match position(&self.rooms[i].1.devices, &device) {
                    None => Err(SmartHouseError::DeviceNotFound { room, device }),
                    Some(k) => {
                        let ghost old_rooms = self.rooms@;
                        let mut entry = self.rooms.remove(i);
                        let ghost old_devices = entry.1.devices@;
                        proof {
                            lemma_key_pos(old_devices, k as int);
                        }
                        entry.1.devices.remove(k);
                        proof {
                            let devs = entry.1.devices@;
                            assert forall|a: int, b: int|
                                0 <= a < devs.len() && 0 <= b < devs.len() && a != b implies (
                            #[trigger] devs[a]).0@ != (#[trigger] devs[b]).0@ by {
                                let oa = if a < k { a } else { a + 1 };
                                let ob = if b < k { b } else { b + 1 };
                                assert(devs[a] == old_devices[oa]);
                                assert(devs[b] == old_devices[ob]);
                            }
                        }
                        self.rooms.insert(i, entry);
                        proof {
                            assert forall|a: int| 0 <= a < old_rooms.len() && a != i implies self.rooms@[a]
                                == old_rooms[a] by {}
                            assert forall|a: int, b: int|
                                0 <= a < self.rooms@.len() && 0 <= b < self.rooms@.len() && a != b
                                    implies (#[trigger] self.rooms@[a]).0@ != (
                            #[trigger] self.rooms@[b]).0@ by {
                                assert(self.rooms@[a].0 == old_rooms[a].0);
                                assert(self.rooms@[b].0 == old_rooms[b].0);
                            }
                            assert forall|a: int| 0 <= a < self.rooms@.len() implies (
                            #[trigger] self.rooms@[a]).1.wf() by {
                                if a != i {
                                    assert(self.rooms@[a] == old_rooms[a]);
                                }
                            }
                        }
                        Ok(())
                    },
                }
            },
        }
    }

    /// The names of the rooms, in the order they were added.
    pub fn get_rooms(&self) -> (r: Vec<String>)
        ensures
            r@ == key_list(self@),
    {
        names(&self.rooms)
    }

    /// Every (room, device) name pair in the house, room by room.
    pub fn get_all_devices(&self) -> (r: Vec<(String, String)>)
        ensures
            r@ == all_device_pairs(self@),
    {
        let mut devices: Vec<(String, String)> = Vec::new();
        let mut i: usize = 0;
        while i < self.rooms.len()
            invariant
                i <= self.rooms@.len(),
                devices@ == all_device_pairs(self.rooms@.take(i as int)),
            decreases self.rooms@.len() - i,
        {
            let room = &self.rooms[i];
            let ghost before = devices@;
            let mut j: usize = 0;
            while j < room.1.devices.len()
                invariant
                    j <= room.1.devices@.len(),
                    devices@ == before + room.1.devices@.take(j as int).map_values(
                        |d: (String, Device)| (room.0, d.0),
                    ),
                decreases room.1.devices@.len() - j,
            {
                devices.push((room.0.clone(), room.1.devices[j].0.clone()));
                assert(room.1.devices@.take(j + 1) =~= room.1.devices@.take(j as int).push(
                    room.1.devices@[j as int],
                ));
                assert(devices@ =~= before + room.1.devices@.take(j + 1).map_values(
                    |d: (String, Device)| (room.0, d.0),
                ));
                j += 1;
            }
            assert(room.1.devices@.take(j as int) =~= room.1.devices@);
            assert(self.rooms@.take(i + 1).drop_last() =~= self.rooms@.take(i as int));
            i += 1;
        }
        assert(self.rooms@.take(i as int) =~= self.rooms@);
        devices
    }

    /// A copy of the device of that name in an existing room.
    pub fn get_device(&self, room: &str, device: &str) -> (d: Device)
        requires
            self.wf(),
            has_key(self@, room@),
            has_key(devices_in(self@, room@), device@),
        ensures
            d == devices_in(self@, room@)[key_pos(devices_in(self@, room@), device@)].1,
    {
        match self.find_device(room, device) {
            Ok(d) => d,
            Err(_) => Device::SmartThermometer(SmartThermometer { _current_temperature: 0 }),
        }
    }

    /// Looks up a device by room and name: a copy of it, or which of the two
    /// names is missing.
    pub fn find_device(&self, room_str: &str, device: &str) -> (r: Result<Device, SmartHouseError>)
        requires
            self.wf(),
        ensures
            !has_key(self@, room_str@) ==> (r matches Err(SmartHouseError::RoomNotFound(room))
                && room@ == room_str@),
            has_key(self@, room_str@) && !has_key(devices_in(self@, room_str@), device@) ==> (r matches Err(
                SmartHouseError::DeviceNotFound { room, device: d },
            ) && room@ == room_str@ && d@ == device@),
            has_key(self@, room_str@) && has_key(devices_in(self@, room_str@), device@) ==> r == Ok::<
                Device,
                SmartHouseError,
            >(devices_in(self@, room_str@)[key_pos(devices_in(self@, room_str@), device@)].1),
    {
        let room_key = room_str.to_owned();
        let device_key = device.to_owned();
        match position(&self.rooms, &room_key) {
            None => Err(SmartHouseError::RoomNotFound(room_key)),
            Some(i) => {
                proof {
                    lemma_key_pos(self.rooms@, i as int);
                }
                let devices = &self.rooms[i].1.devices;
                match position(devices, &device_key) {
                    None => Err(SmartHouseError::DeviceNotFound { room: room_key, device: device_key }),
                    Some(k) => {
                        proof {
                            assert(self.rooms@[i as int].1.wf());
                            lemma_key_pos(devices@, k as int);
                        }
                        Ok(devices[k].1.clone())
                    },
                }
            },
        }
    }

    /// The names of the devices in an existing room, in the order they were
    /// added.
    pub fn get_devices(&self, room: &str) -> (r: Vec<String>)
        requires
            self.wf(),
            has_key(self@, room@),
        ensures
            r@ == key_list(devices_in(self@, room@)),
    {
        let key = room.to_owned();
        match position(&self.rooms, &key) {
            Some(i) => {
                proof {
                    lemma_key_pos(self.rooms@, i as int);
                }
                names(&self.rooms[i].1.devices)
            },
            None => Vec::new(),
        }
    }
}

} // verus!
