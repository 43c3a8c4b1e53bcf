//! Devices on the bus and their parameters: discovery by ping, enumeration
//! of parameters (reassembling chunked entries), writes, and retries of
//! requests that time out.
use vstd::prelude::*;

use crate::fixed::{
    device_entries, device_map_clear, device_map_contains, device_map_get, device_map_get_mut,
    device_map_insert, device_map_keys, device_map_new, find_key, frames16, frames16_new, frames16_push,
    frames8, frames8_clear, frames8_new, frames8_pop, frames8_push, inserted, lemma_find_key,
    param_entries, param_map_contains, param_map_get, param_map_get_mut, param_map_insert, param_map_len,
    param_map_new, param_map_values, pending16, pending16_as_slice, pending16_clear, pending16_new,
    pending16_push, pending16_retain_others, pending16_set, pending16_swap_remove, bytes32, bytes64,
    bytes64_from_slice, text128, text128_new, text43, text43_from_str,
};
use crate::packets::address::{address_byte, address_of_byte, packet_type_byte, PacketAddress, PacketType};
use crate::packets::parameter_settings_entry::{
    copy_text128, idle_reassembler, push_step, reassembler_wf, ParameterChunk, ParameterChunkReassembler,
    ParameterChunkView, ParameterData, ParameterDataView, ParameterSettingsEntry,
    ParameterSettingsEntryView, ReassemblerView,
};
use crate::packets::device_information::DeviceInformationView;
use crate::packets::{
    frame_bytes, write_packet_to_buffer, DeviceInformation, DevicePing, Packet, PacketView,
    ParameterRead, ParameterWrite,
};
use crate::CrsfParsingError;

verus! {

/// The most devices tracked.
pub const MAX_DEVICES: usize = 8;

/// The most parameters tracked per device.
pub const MAX_PARAMETERS: usize = 64;

/// The most requests awaiting an answer.
pub const MAX_PENDING_REQUESTS: usize = 16;

/// The most frames queued for sending.
pub const MAX_PENDING_OUTPUT: usize = 8;

/// Default time to wait for an answer, in milliseconds.
pub const DEFAULT_TIMEOUT_MS: u32 = 500;

/// Default number of retries of a request.
pub const DEFAULT_RETRY_COUNT: u8 = 3;

/// Timeouts, retries and the ping interval of a [`DeviceManager`].
#[derive(Debug, Clone, Copy)]
pub struct DeviceManagerConfig {
    /// How long to wait for an answer to a request, in milliseconds.
    pub timeout_ms: u32,
    /// How often a request is sent again before it is dropped.
    pub retry_count: u8,
    /// Milliseconds between discovery pings; 0 turns pinging off.
    pub device_ping_interval_ms: u32,
}

impl Default for DeviceManagerConfig {
    fn default() -> (r: Self)
        ensures
            r == (DeviceManagerConfig {
                timeout_ms: DEFAULT_TIMEOUT_MS,
                retry_count: DEFAULT_RETRY_COUNT,
                device_ping_interval_ms: 1000,
            }),
    {
        Self {
            timeout_ms: DEFAULT_TIMEOUT_MS,
            retry_count: DEFAULT_RETRY_COUNT,
            device_ping_interval_ms: 1000,
        }
    }
}

/// A parameter of a device, as its entry described it.
#[derive(Debug, Clone, PartialEq, Eq)]
pub struct Parameter {
    /// The parameter's number.
    pub id: u8,
    /// The folder holding it (0 for the root).
    pub parent: u8,
    /// The parameter's name.
    pub name: heapless::String<128>,
    /// Whether the entry marked it hidden.
    pub hidden: bool,
    /// Its data, when the entry carried it.
    pub data: Option<ParameterData>,
}

/// A parameter as the contracts see it.
pub ghost struct ParameterView {
    pub id: u8,
    pub parent: u8,
    pub name: Seq<u8>,
    pub hidden: bool,
    pub data: Option<ParameterDataView>,
}

impl View for Parameter {
    type V = ParameterView;

    open spec fn view(&self) -> ParameterView {
        ParameterView {
            id: self.id,
            parent: self.parent,
            name: text128(self.name),
            hidden: self.hidden,
            data: match self.data {
                Some(d) => Some(d@),
                None => None,
            },
        }
    }
}

/// The parameter numbered `id` that entry `e` describes.
pub open spec fn parameter_of_entry(id: u8, e: ParameterSettingsEntryView) -> ParameterView {
    ParameterView { id, parent: e.parent, name: e.name, hidden: e.data_type >= 128, data: e.data }
}

/// The placeholder for parameter `id` whose entry could not be read.
pub open spec fn stub_parameter(id: u8) -> ParameterView {
    ParameterView { id, parent: 0, name: Seq::empty(), hidden: true, data: None }
}

impl Parameter {
    /// The parameter numbered `id` that `entry` describes.
    pub fn from_entry(id: u8, entry: &ParameterSettingsEntry) -> (r: Self)
        ensures
            r@ == parameter_of_entry(id, entry@),
            r.id == id,
            r.parent == entry.parent,
            r.hidden == (entry.data_type >= 128),
            r@.name == entry@.name,
            r@.data == entry@.data,
    {
        Self {
            id,
            parent: entry.parent,
            name: copy_text128(&entry.name),
            hidden: entry.is_hidden(),
            data: match &entry.data {
                Some(d) => Some(d.copy()),
                None => None,
            },
        }
    }

    /// Whether the parameter is a folder.
    pub fn is_folder(&self) -> (r: bool)
        ensures
            r == (self@.data matches Some(ParameterDataView::Folder { .. })),
    {
        matches!(self.data, Some(ParameterData::Folder { .. }))
    }

    /// Whether the parameter is a command.
    pub fn is_command(&self) -> (r: bool)
        ensures
            r == (self@.data matches Some(ParameterDataView::Command { .. })),
    {
        matches!(self.data, Some(ParameterData::Command { .. }))
    }

    /// The numbers of a folder's children; `None` for any other parameter.
    pub fn folder_children(&self) -> (r: Option<&heapless::Vec<u8, 32>>)
        ensures
            r is Some <==> (self@.data matches Some(ParameterDataView::Folder { .. })),
            r matches Some(c) ==> self@.data == Some(ParameterDataView::Folder { children: bytes32(*c) }),
    {
        match &self.data {
            Some(ParameterData::Folder { children }) => Some(children),
            _ => None,
        }
    }
}

/// Filtering a sequence with one more item at its end.
pub proof fn lemma_filter_push<A>(s: Seq<A>, pred: spec_fn(A) -> bool, x: A)
    ensures
        s.push(x).filter(pred) == (if pred(x) {
            s.filter(pred).push(x)
        } else {
            s.filter(pred)
        }),
{
    reveal(Seq::filter);
    assert(s.push(x).drop_last() =~= s);
}

/// Parameter entries with each parameter by its view.
pub open spec fn param_views(es: Seq<(u8, Parameter)>) -> Seq<(u8, ParameterView)> {
    es.map_values(|e: (u8, Parameter)| (e.0, e.1@))
}

/// Taking views keeps the keys, so the same key is found at the same index.
pub proof fn lemma_param_views_find_key(es: Seq<(u8, Parameter)>, k: u8)
    ensures
        find_key(param_views(es), k) == find_key(es, k),
    decreases es.len(),
{
    if es.len() > 0 {
        assert(param_views(es).drop_first() =~= param_views(es.drop_first()));
        lemma_param_views_find_key(es.drop_first(), k);
    }
}

/// Taking views commutes with inserting.
pub proof fn lemma_param_views_inserted(es: Seq<(u8, Parameter)>, k: u8, v: Parameter)
    ensures
        param_views(inserted(es, k, v)) == inserted(param_views(es), k, v@),
{
    lemma_param_views_find_key(es, k);
    lemma_find_key(es, k);
    match find_key(es, k) {
        Some(i) => {
            assert(param_views(es.update(i, (k, v))) =~= param_views(es).update(i, (k, v@)));
        },
        None => {
            assert(param_views(es.push((k, v))) =~= param_views(es).push((k, v@)));
        },
    }
}

/// Taking views commutes with replacing an entry.
pub proof fn lemma_param_views_update(es: Seq<(u8, Parameter)>, k: u8)
    ensures
        forall|i: int, x: Parameter|
            0 <= i < es.len() ==> #[trigger] param_views(es.update(i, (k, x))) == param_views(es).update(
                i,
                (k, x@),
            ),
{
    assert forall|i: int, x: Parameter| 0 <= i < es.len() implies #[trigger] param_views(es.update(i, (k, x)))
        == param_views(es).update(i, (k, x@)) by {
        assert(param_views(es.update(i, (k, x))) =~= param_views(es).update(i, (k, x@)));
    }
}

/// A discovered device and the parameters read from it.
#[derive(Debug, Clone)]
pub struct Device {
    /// The device's address.
    pub address: PacketAddress,
    /// The device's name.
    pub name: heapless::String<43>,
    /// The device's serial number.
    pub serial_number: u32,
    /// Vendor-specific hardware id.
    pub hardware_id: u32,
    /// Vendor-specific firmware id.
    pub firmware_id: u32,
    /// How many parameters the device exposes.
    pub parameters_total: u8,
    /// Version of the device's parameter layout.
    pub parameter_version: u8,
    /// The parameters read so far, by number, in the order they came.
    pub parameters: heapless::FnvIndexMap<u8, Parameter, 64>,
    /// Whether every parameter has been read.
    pub parameters_loaded: bool,
}

/// A device as the contracts see it.
pub ghost struct DeviceView {
    pub address: PacketAddress,
    pub name: Seq<u8>,
    pub serial_number: u32,
    pub hardware_id: u32,
    pub firmware_id: u32,
    pub parameters_total: u8,
    pub parameter_version: u8,
    pub parameters: Seq<(u8, ParameterView)>,
    pub parameters_loaded: bool,
}

impl View for Device {
    type V = DeviceView;

    open spec fn view(&self) -> DeviceView {
        DeviceView {
            address: self.address,
            name: text43(self.name),
            serial_number: self.serial_number,
            hardware_id: self.hardware_id,
            firmware_id: self.firmware_id,
            parameters_total: self.parameters_total,
            parameter_version: self.parameter_version,
            parameters: param_views(param_entries(self.parameters)),
            parameters_loaded: self.parameters_loaded,
        }
    }
}

/// The device at address `a` that device information `info` describes, with
/// no parameter read yet.
pub open spec fn device_of_info(a: PacketAddress, info: DeviceInformationView) -> DeviceView {
    DeviceView {
        address: a,
        name: info.device_name,
        serial_number: info.serial_number,
        hardware_id: info.hardware_id,
        firmware_id: info.firmware_id,
        parameters_total: info.parameters_total,
        parameter_version: info.parameter_version_number,
        parameters: Seq::empty(),
        parameters_loaded: false,
    }
}

/// The device after adding parameter `p`: stored under its number, in place
/// of an existing one or last; refused when 64 others are held.
pub open spec fn with_parameter(d: DeviceView, p: ParameterView) -> DeviceView {
    if find_key(d.parameters, p.id) is Some || d.parameters.len() < 64 {
        DeviceView { parameters: inserted(d.parameters, p.id, p), ..d }
    } else {
        d
    }
}

/// The serial number ExpressLRS transmitters report ("ELRS").
pub const ELRS_SERIAL_NUMBER: u32 = 0x454C5253;

impl Device {
    /// The device that `info` describes; `UnexpectedPacketType` when its
    /// origin byte is no device address.
    pub fn from_device_info(info: &DeviceInformation) -> (r: Result<Self, CrsfParsingError>)
        ensures
            match address_of_byte(info.src_addr) {
                None => r == Err::<Self, CrsfParsingError>(CrsfParsingError::UnexpectedPacketType(info.src_addr)),
                Some(a) => r matches Ok(d) && d@ == device_of_info(a, info@),
            },
            r matches Ok(d) ==> {
                &&& address_byte(d.address) == info.src_addr
                &&& d.serial_number == info.serial_number
                &&& d.hardware_id == info.hardware_id
                &&& d.firmware_id == info.firmware_id
                &&& d.parameters_total == info.parameters_total
                &&& d.parameter_version == info.parameter_version_number
                &&& !d.parameters_loaded
            },
    {
        let address = match PacketAddress::from_byte(info.src_addr) {
            Some(a) => a,
            None => return Err(CrsfParsingError::UnexpectedPacketType(info.src_addr)),
        };
        let name = match text43_from_str(info.device_name()) {
            Some(n) => n,
            None => return Err(CrsfParsingError::InvalidPayloadLength),
        };
        let parameters = param_map_new();
        assert(param_views(param_entries(parameters)) =~= Seq::<(u8, ParameterView)>::empty());
        Ok(
            Self {
                address,
                name,
                serial_number: info.serial_number,
                hardware_id: info.hardware_id,
                firmware_id: info.firmware_id,
                parameters_total: info.parameters_total,
                parameter_version: info.parameter_version_number,
                parameters,
                parameters_loaded: false,
            },
        )
    }

    /// Whether the device reports the ExpressLRS serial number.
    pub fn is_elrs_tx(&self) -> (r: bool)
        ensures
            r == (self.serial_number == ELRS_SERIAL_NUMBER),
    {
        self.serial_number == ELRS_SERIAL_NUMBER
    }

    /// Stores `param` under its number; `false` when 64 other parameters are
    /// held.
    pub fn add_parameter(&mut self, param: Parameter) -> (r: bool)
        ensures
            r == (find_key(old(self)@.parameters, param.id) is Some || old(self)@.parameters.len() < 64),
            final(self)@ == with_parameter(old(self)@, param@),
    {
        proof {
            lemma_param_views_find_key(param_entries(self.parameters), param.id);
            lemma_param_views_inserted(param_entries(self.parameters), param.id, param);
        }
        let ghost p = param;
        let id = param.id;
        param_map_insert(&mut self.parameters, id, param)
    }

    /// The parameter numbered `id`, if read.
    pub fn get_parameter(&self, id: u8) -> (r: Option<&Parameter>)
        ensures
            match find_key(self@.parameters, id) {
                Some(i) => r matches Some(p) && p@ == self@.parameters[i].1,
                None => r is None,
            },
    {
        proof {
            lemma_param_views_find_key(param_entries(self.parameters), id);
            lemma_find_key(param_entries(self.parameters), id);
        }
        param_map_get(&self.parameters, id)
    }

    /// The parameter numbered `id`, if read, to change in place.
    pub fn get_parameter_mut(&mut self, id: u8) -> (r: Option<&mut Parameter>)
        ensures
            match r {
                Some(p) => find_key(old(self)@.parameters, id) matches Some(i) && p@ == old(
                    self,
                )@.parameters[i].1 && final(self)@ == (DeviceView {
                    parameters: old(self)@.parameters.update(i, (id, final(p)@)),
                    ..old(self)@
                }),
                None => find_key(old(self)@.parameters, id) is None && final(self)@ == old(self)@,
            },
    {
        proof {
            lemma_param_views_find_key(param_entries(self.parameters), id);
            lemma_find_key(param_entries(self.parameters), id);
            lemma_param_views_update(param_entries(self.parameters), id);
        }
        param_map_get_mut(&mut self.parameters, id)
    }

    /// The parameters read, in the order they came.
    pub fn iter_parameters(&self) -> (r: std::vec::IntoIter<&Parameter>)
        ensures
            vstd::std_specs::iter::IteratorSpec::remaining(&r).len() == self@.parameters.len(),
            forall|i: int| 0 <= i < vstd::std_specs::iter::IteratorSpec::remaining(&r).len() ==> vstd::std_specs::iter::IteratorSpec::remaining(&r)[i]@ == self@.parameters[i].1,
    {
        let v = param_map_values(&self.parameters);
        v.into_iter()
    }

    /// The parameters read that sit in folder `parent_id`, in the order they
    /// came.
    pub fn parameters_in_folder(&self, parent_id: u8) -> (r: std::vec::IntoIter<&Parameter>)
        ensures
            vstd::std_specs::iter::IteratorSpec::remaining(&r).map_values(|p: &Parameter| p@) == self@.parameters.map_values(
                |e: (u8, ParameterView)| e.1,
            ).filter(|p: ParameterView| p.parent == parent_id),
    {
        let all = param_map_values(&self.parameters);
        let mut v: Vec<&Parameter> = Vec::new();
        let ghost views = self@.parameters.map_values(|e: (u8, ParameterView)| e.1);
        let mut i: usize = 0;
        while i < all.len()
            invariant
                0 <= i <= all@.len(),
                all@.len() == views.len(),
                forall|j: int| 0 <= j < all@.len() ==> (#[trigger] all@[j])@ == views[j],
                v@.map_values(|p: &Parameter| p@) == views.take(i as int).filter(
                    |p: ParameterView| p.parent == parent_id,
                ),
            decreases all@.len() - i,
        {
            let p = all[i];
            proof {
                assert(views.take(i + 1).drop_last() =~= views.take(i as int));
                lemma_filter_push(views.take(i as int), |p: ParameterView| p.parent == parent_id, views[i as int]);
                assert(views.take(i as int).push(views[i as int]) =~= views.take(i + 1));
            }
            if p.parent == parent_id {
                v.push(p);
                assert(v@.map_values(|p: &Parameter| p@) =~= views.take(i as int).filter(
                    |p: ParameterView| p.parent == parent_id,
                ).push(views[i as int]));
            }
            i += 1;
        }
        assert(views.take(all@.len() as int) =~= views);
        v.into_iter()
    }

    /// The root folder, parameter 0, if read.
    pub fn root_folder(&self) -> (r: Option<&Parameter>)
        ensures
            match find_key(self@.parameters, 0) {
                Some(i) => r matches Some(p) && p@ == self@.parameters[i].1,
                None => r is None,
            },
    {
        self.get_parameter(0)
    }
}

/// A request awaiting its answer.
#[derive(Debug, Clone, Copy, PartialEq, Eq, Structural)]
pub struct PendingRequest {
    /// The device asked.
    pub device_addr: PacketAddress,
    /// The parameter asked for.
    pub parameter_id: u8,
    /// The chunk asked for.
    pub chunk_number: u8,
    /// How many chunks the last answer announced, when known.
    pub expected_chunks_remaining: Option<u8>,
    /// How often the request was sent again.
    pub retries: u8,
    /// When the request was last sent.
    pub timestamp: u32,
}

impl PendingRequest {
    /// Whether the request asks device `addr` for parameter `id`.
    pub open spec fn is_for(self, addr: PacketAddress, id: u8) -> bool {
        self.device_addr == addr && self.parameter_id == id
    }

    /// Whether the request stays when the requests for parameter `id` of
    /// device `addr` are dropped.
    pub fn kept_apart_from(&self, addr: PacketAddress, id: u8) -> (r: bool)
        ensures
            r == !self.is_for(addr, id),
    {
        !(self.device_addr == addr && self.parameter_id == id)
    }
}

/// A fresh request for chunk `chunk` of parameter `id` of device `addr`,
/// sent at `time`.
pub open spec fn new_request(addr: PacketAddress, id: u8, chunk: u8, time: u32) -> PendingRequest {
    PendingRequest {
        device_addr: addr,
        parameter_id: id,
        chunk_number: chunk,
        expected_chunks_remaining: None,
        retries: 0,
        timestamp: time,
    }
}

/// Device entries with each device by its view.
pub open spec fn device_views(es: Seq<(u8, Device)>) -> Seq<(u8, DeviceView)> {
    es.map_values(|e: (u8, Device)| (e.0, e.1@))
}

/// Taking views keeps the keys, so the same key is found at the same index.
pub proof fn lemma_device_views_find_key(es: Seq<(u8, Device)>, k: u8)
    ensures
        find_key(device_views(es), k) == find_key(es, k),
    decreases es.len(),
{
    if es.len() > 0 {
        assert(device_views(es).drop_first() =~= device_views(es.drop_first()));
        lemma_device_views_find_key(es.drop_first(), k);
    }
}

/// Taking views commutes with inserting.
pub proof fn lemma_device_views_inserted(es: Seq<(u8, Device)>, k: u8, v: Device)
    ensures
        device_views(inserted(es, k, v)) == inserted(device_views(es), k, v@),
{
    lemma_device_views_find_key(es, k);
    lemma_find_key(es, k);
    match find_key(es, k) {
        Some(i) => {
            assert(device_views(es.update(i, (k, v))) =~= device_views(es).update(i, (k, v@)));
        },
        None => {
            assert(device_views(es.push((k, v))) =~= device_views(es).push((k, v@)));
        },
    }
}

/// Taking views commutes with replacing an entry.
pub proof fn lemma_device_views_update(es: Seq<(u8, Device)>, k: u8)
    ensures
        forall|i: int, x: Device|
            0 <= i < es.len() ==> #[trigger] device_views(es.update(i, (k, x))) == device_views(es).update(
                i,
                (k, x@),
            ),
{
    assert forall|i: int, x: Device| 0 <= i < es.len() implies #[trigger] device_views(es.update(i, (k, x)))
        == device_views(es).update(i, (k, x@)) by {
        assert(device_views(es.update(i, (k, x))) =~= device_views(es).update(i, (k, x@)));
    }
}

/// The manager of the devices on the bus.
pub struct DeviceManager {
    config: DeviceManagerConfig,
    /// This device's own address, the origin of the requests it sends.
    pub own_address: PacketAddress,
    devices: heapless::FnvIndexMap<u8, Device, 8>,
    pending_requests: heapless::Vec<PendingRequest, 16>,
    chunk_reassembler: ParameterChunkReassembler,
    pending_output: heapless::Vec<heapless::Vec<u8, 64>, 8>,
    current_time: u32,
    last_ping_time: u32,
}

/// A manager as the contracts see it: devices by address byte, in the order
/// they were discovered; requests awaiting answers; the chunk reassembler;
/// the frames queued for sending, by their bytes; the clock.
pub ghost struct DeviceManagerView {
    pub config: DeviceManagerConfig,
    pub own_address: PacketAddress,
    pub devices: Seq<(u8, DeviceView)>,
    pub pending: Seq<PendingRequest>,
    pub reassembler: ReassemblerView,
    pub output: Seq<Seq<u8>>,
    pub current_time: u32,
    pub last_ping_time: u32,
}

impl View for DeviceManager {
    type V = DeviceManagerView;

    closed spec fn view(&self) -> DeviceManagerView {
        DeviceManagerView {
            config: self.config,
            own_address: self.own_address,
            devices: device_views(device_entries(self.devices)),
            pending: pending16(self.pending_requests),
            reassembler: self.chunk_reassembler@,
            output: frames8(self.pending_output),
            current_time: self.current_time,
            last_ping_time: self.last_ping_time,
        }
    }
}

/// The manager's invariant on its view: the reassembler's own, and at most
/// 16 requests and 8 queued frames.
pub open spec fn manager_wf(m: DeviceManagerView) -> bool {
    &&& reassembler_wf(m.reassembler)
    &&& m.pending.len() <= 16
    &&& m.output.len() <= 8
}

/// No request was sent later than the clock shows.
pub open spec fn requests_not_later(m: DeviceManagerView) -> bool {
    forall|i: int| 0 <= i < m.pending.len() ==> (#[trigger] m.pending[i]).timestamp <= m.current_time
}

/// The frame that asks device `dst`, from `own`, for chunk `chunk` of
/// parameter `id`.
pub open spec fn read_request_frame(dst: PacketAddress, own: PacketAddress, id: u8, chunk: u8) -> Seq<u8> {
    frame_bytes(
        address_byte(dst),
        packet_type_byte(PacketType::ParameterRead),
        seq![address_byte(dst), address_byte(own), id, chunk],
    )
}

/// The frame that writes `data` to parameter `id` of device `dst`, from
/// `own`.
pub open spec fn write_request_frame(dst: PacketAddress, own: PacketAddress, id: u8, data: Seq<u8>) -> Seq<u8> {
    frame_bytes(
        address_byte(dst),
        packet_type_byte(PacketType::ParameterWrite),
        seq![address_byte(dst), address_byte(own), id] + data,
    )
}

/// The broadcast discovery ping from `own`.
pub open spec fn ping_frame(own: PacketAddress) -> Seq<u8> {
    frame_bytes(
        address_byte(PacketAddress::Broadcast),
        packet_type_byte(PacketType::DevicePing),
        seq![address_byte(PacketAddress::Broadcast), address_byte(own)],
    )
}

/// `out` with frame `f` queued, when fewer than 8 are queued.
pub open spec fn push_if_room(out: Seq<Seq<u8>>, f: Seq<u8>) -> Seq<Seq<u8>> {
    if out.len() < 8 {
        out.push(f)
    } else {
        out
    }
}

/// The manager without the requests for parameter `id` of device `addr`.
pub open spec fn without_requests(m: DeviceManagerView, addr: PacketAddress, id: u8) -> DeviceManagerView {
    DeviceManagerView { pending: m.pending.filter(|r: PendingRequest| !r.is_for(addr, id)), ..m }
}

/// Whether a request for parameter `id` of device `addr` awaits its answer.
pub open spec fn has_request(pending: Seq<PendingRequest>, addr: PacketAddress, id: u8) -> bool {
    exists|j: int| 0 <= j < pending.len() && (#[trigger] pending[j]).is_for(addr, id)
}

/// The least parameter number from `from` on, below `total`, that has not
/// been read; `total` when all have.
pub open spec fn first_unread(ps: Seq<(u8, ParameterView)>, total: u8, from: int) -> u8
    decreases total - from,
{
    if from >= total {
        total
    } else if find_key(ps, from as u8) is Some {
        first_unread(ps, total, from + 1)
    } else {
        from as u8
    }
}

/// The manager after asking device `addr` for its first unread parameter:
/// nothing when the device is unknown or fully read, when that request
/// already awaits its answer, or when 16 requests do; otherwise the request
/// is recorded and its frame queued.
pub open spec fn next_parameter_requested(m: DeviceManagerView, addr: PacketAddress) -> DeviceManagerView {
    match find_key(m.devices, address_byte(addr)) {
        None => m,
        Some(i) => {
            let d = m.devices[i].1;
            let next = first_unread(d.parameters, d.parameters_total, 0);
            if d.parameters_loaded || has_request(m.pending, addr, next) || m.pending.len() >= 16 {
                m
            } else {
                DeviceManagerView {
                    pending: m.pending.push(new_request(addr, next, 0, m.current_time)),
                    output: push_if_room(m.output, read_request_frame(addr, m.own_address, next, 0)),
                    ..m
                }
            }
        },
    }
}

/// The manager after asking device `addr` for the next chunk of parameter
/// `id`, the chunk numbered by the chunks received so far.
pub open spec fn next_chunk_requested(m: DeviceManagerView, addr: PacketAddress, id: u8) -> DeviceManagerView {
    let next = m.reassembler.chunks_received;
    if m.pending.len() >= 16 {
        m
    } else {
        DeviceManagerView {
            pending: m.pending.push(new_request(addr, id, next, m.current_time)),
            output: push_if_room(m.output, read_request_frame(addr, m.own_address, id, next)),
            ..m
        }
    }
}

/// The manager with device `i` replaced by `d`.
pub open spec fn with_device(m: DeviceManagerView, i: int, d: DeviceView) -> DeviceManagerView {
    DeviceManagerView { devices: m.devices.update(i, (m.devices[i].0, d)), ..m }
}

/// The manager after storing parameter `p` in device `i` (at `addr`): when
/// the device then holds all its parameters it is marked read, otherwise its
/// next parameter is asked for.
pub open spec fn parameter_added(m: DeviceManagerView, i: int, addr: PacketAddress, p: ParameterView) -> DeviceManagerView {
    let d1 = with_parameter(m.devices[i].1, p);
    if d1.parameters.len() >= d1.parameters_total {
        with_device(m, i, DeviceView { parameters_loaded: true, ..d1 })
    } else {
        next_parameter_requested(with_device(m, i, d1), addr)
    }
}

/// The manager after device information `info`: its device is added, or
/// replaces the one at its address; nothing when the origin byte is no
/// address, or when 8 other devices are known.
pub open spec fn info_handled(m: DeviceManagerView, info: DeviceInformationView) -> DeviceManagerView {
    match address_of_byte(info.src_addr) {
        None => m,
        Some(a) => if find_key(m.devices, info.src_addr) is Some || m.devices.len() < 8 {
            DeviceManagerView { devices: inserted(m.devices, info.src_addr, device_of_info(a, info)), ..m }
        } else {
            m
        },
    }
}

/// Device information from a device address, with room for its device,
/// records that device under its address: its serial number, hardware and
/// firmware ids, parameter count and version are those of the information,
/// its name that of the information, and no parameter is read yet.
pub proof fn lemma_info_handled_device(m: DeviceManagerView, info: DeviceInformationView)
    requires
        address_of_byte(info.src_addr) is Some,
        find_key(m.devices, info.src_addr) is Some || m.devices.len() < 8,
    ensures
        find_key(info_handled(m, info).devices, info.src_addr) matches Some(i) && ({
            let d = info_handled(m, info).devices[i].1;
            &&& info_handled(m, info).devices[i].0 == info.src_addr
            &&& address_byte(d.address) == info.src_addr
            &&& d.name == info.device_name
            &&& d.serial_number == info.serial_number
            &&& d.hardware_id == info.hardware_id
            &&& d.firmware_id == info.firmware_id
            &&& d.parameters_total == info.parameters_total
            &&& d.parameter_version == info.parameter_version_number
            &&& d.parameters.len() == 0
            &&& !d.parameters_loaded
        }),
{
    let a = address_of_byte(info.src_addr)->0;
    crate::packets::address::lemma_byte_address_round_trip(info.src_addr);
    lemma_find_inserted(m.devices, info.src_addr, device_of_info(a, info));
}

/// The manager after a complete entry `e` from a known device: the parameter
/// is stored and its requests dropped.
pub open spec fn entry_handled(m: DeviceManagerView, e: ParameterSettingsEntryView) -> DeviceManagerView {
    match address_of_byte(e.src_addr) {
        None => m,
        Some(addr) => match find_key(m.devices, e.src_addr) {
            None => m,
            Some(i) => without_requests(
                parameter_added(m, i, addr, parameter_of_entry(e.parameter_number, e)),
                addr,
                e.parameter_number,
            ),
        },
    }
}

proof fn lemma_find_inserted<V>(es: Seq<(u8, V)>, k: u8, v: V)
    ensures
        find_key(inserted(es, k, v), k) matches Some(j) && 0 <= j < inserted(es, k, v).len() && inserted(
            es,
            k,
            v,
        )[j] == (k, v),
{
    let es2 = inserted(es, k, v);
    lemma_find_key(es, k);
    lemma_find_key(es2, k);
    match find_key(es, k) {
        Some(i) => {
            assert(es2[i].0 == k);
        },
        None => {
            assert(es2[es.len() as int].0 == k);
        },
    }
}

/// A complete entry from a known device, with room for its parameter: the
/// parameter is stored under its number, no request for it remains, and
/// either the device, then holding all its parameters, is marked read with
/// nothing queued, or the request for its first unread parameter is
/// recorded and its frame queued (unless that request already awaits its
/// answer, 16 requests do, or the device was already marked read).
pub proof fn lemma_entry_handled(m: DeviceManagerView, e: ParameterSettingsEntryView)
    requires
        address_of_byte(e.src_addr) is Some,
        find_key(m.devices, e.src_addr) is Some,
        find_key(m.devices[find_key(m.devices, e.src_addr)->0].1.parameters, e.parameter_number) is Some
            || m.devices[find_key(m.devices, e.src_addr)->0].1.parameters.len() < 64,
    ensures
        ({
            let a = address_of_byte(e.src_addr)->0;
            let i = find_key(m.devices, e.src_addr)->0;
            let m2 = entry_handled(m, e);
            let p = parameter_of_entry(e.parameter_number, e);
            let d1 = with_parameter(m.devices[i].1, p);
            let next = first_unread(d1.parameters, d1.parameters_total, 0);
            &&& m2.devices.len() == m.devices.len()
            &&& m2.devices[i].0 == e.src_addr
            &&& find_key(m2.devices[i].1.parameters, e.parameter_number) matches Some(j)
                && m2.devices[i].1.parameters[j] == (e.parameter_number, p)
            &&& !has_request(m2.pending, a, e.parameter_number)
            &&& d1.parameters.len() >= d1.parameters_total ==> m2.devices[i].1.parameters_loaded && m2.output
                == m.output
            &&& d1.parameters.len() < d1.parameters_total ==> m2.output == (if !d1.parameters_loaded
                && !has_request(m.pending, a, next) && m.pending.len() < 16 {
                push_if_room(m.output, read_request_frame(a, m.own_address, next, 0))
            } else {
                m.output
            })
        }),
{
    let a = address_of_byte(e.src_addr)->0;
    let i = find_key(m.devices, e.src_addr)->0;
    let p = parameter_of_entry(e.parameter_number, e);
    lemma_find_key(m.devices, e.src_addr);
    lemma_find_inserted(m.devices[i].1.parameters, e.parameter_number, p);
    let m1 = parameter_added(m, i, a, p);
    lemma_without_requests(m1, a, e.parameter_number);
    let m2 = entry_handled(m, e);
    assert(m2 == without_requests(m1, a, e.parameter_number));
    if has_request(m2.pending, a, e.parameter_number) {
        let j = choose|j: int| 0 <= j < m2.pending.len() && (#[trigger] m2.pending[j]).is_for(a, e.parameter_number);
        assert(false);
    }
    let d1 = with_parameter(m.devices[i].1, p);
    assert(d1.parameters == inserted(m.devices[i].1.parameters, e.parameter_number, p));
    if d1.parameters.len() >= d1.parameters_total {
        assert(m1 == with_device(m, i, DeviceView { parameters_loaded: true, ..d1 }));
    } else {
        assert(m1 == next_parameter_requested(with_device(m, i, d1), a));
        assert(find_key(with_device(m, i, d1).devices, e.src_addr) == Some(i)) by {
            lemma_find_key(with_device(m, i, d1).devices, e.src_addr);
        }
    }
    assert(m2.devices.len() == m.devices.len());
    assert(m2.devices[i].0 == e.src_addr);
    assert(find_key(m2.devices[i].1.parameters, e.parameter_number) matches Some(j)
                && m2.devices[i].1.parameters[j] == (e.parameter_number, p));
}

/// The manager after chunk `c` from a known device. A chunk of a parameter
/// already read only drops its requests. Otherwise the requests of an
/// interrupted entry are dropped and the chunk pushed: a complete entry is
/// stored; an incomplete one asks for its next chunk; a failed one resets
/// the reassembler and stores a placeholder, so that enumeration moves on.
pub open spec fn chunk_handled(m: DeviceManagerView, c: ParameterChunkView) -> DeviceManagerView {
    match address_of_byte(c.src_addr) {
        None => m,
        Some(addr) => match find_key(m.devices, c.src_addr) {
            None => m,
            Some(i) => if find_key(m.devices[i].1.parameters, c.param_number) is Some {
                without_requests(m, addr, c.param_number)
            } else {
                let m1 = if m.reassembler.chunks_received != 0 && m.reassembler.param_number
                    != c.param_number {
                    without_requests(m, addr, m.reassembler.param_number)
                } else {
                    m
                };
                let (rs, res) = push_step(m1.reassembler, c);
                let m2 = DeviceManagerView { reassembler: rs, ..m1 };
                match res {
                    Ok(Some(entry)) => without_requests(
                        parameter_added(m2, i, addr, parameter_of_entry(entry.parameter_number, entry)),
                        addr,
                        c.param_number,
                    ),
                    Ok(None) => next_chunk_requested(m2, addr, c.param_number),
                    Err(_) => parameter_added(
                        without_requests(
                            DeviceManagerView { reassembler: idle_reassembler(), ..m2 },
                            addr,
                            c.param_number,
                        ),
                        i,
                        addr,
                        stub_parameter(c.param_number),
                    ),
                }
            },
        },
    }
}

/// The manager after packet `p`: device information, entries and chunks are
/// taken in; other packets change nothing.
pub open spec fn packet_handled(m: DeviceManagerView, p: PacketView) -> DeviceManagerView {
    match p {
        PacketView::DeviceInformation(info) => info_handled(m, info),
        PacketView::ParameterSettingsEntry(e) => entry_handled(m, e),
        PacketView::ParameterChunk(c) => chunk_handled(m, c),
        _ => m,
    }
}

/// A frame result by its bytes.
pub open spec fn frame_of(r: Option<heapless::Vec<u8, 64>>) -> Option<Seq<u8>> {
    match r {
        Some(v) => Some(bytes64(v)),
        None => None,
    }
}

/// The addresses of the device entries, in order.
pub open spec fn key_addresses(es: Seq<(u8, DeviceView)>) -> Seq<PacketAddress>
    decreases es.len(),
{
    if es.len() == 0 {
        Seq::empty()
    } else {
        let rest = key_addresses(es.drop_last());
        match address_of_byte(es.last().0) {
            Some(a) => rest.push(a),
            None => rest,
        }
    }
}

impl DeviceManager {
    /// The manager's invariant.
    pub closed spec fn wf(&self) -> bool {
        &&& self.chunk_reassembler.wf()
        &&& manager_wf(self@)
    }

    /// A manager with configuration `config`, addressed as the handset, with
    /// no device known.
    pub fn new(config: DeviceManagerConfig) -> (r: Self)
        ensures
            r.wf(),
            r@ == (DeviceManagerView {
                config,
                own_address: PacketAddress::Handset,
                devices: Seq::empty(),
                pending: Seq::empty(),
                reassembler: idle_reassembler(),
                output: Seq::empty(),
                current_time: 0,
                last_ping_time: 0,
            }),
    {
        let r = Self {
            config,
            own_address: PacketAddress::Handset,
            devices: device_map_new(),
            pending_requests: pending16_new(),
            chunk_reassembler: ParameterChunkReassembler::new(),
            pending_output: frames8_new(),
            current_time: 0,
            last_ping_time: 0,
        };
        assert(device_views(device_entries(r.devices)) =~= Seq::<(u8, DeviceView)>::empty());
        r
    }

    /// The manager with `addr` as its own address.
    pub fn with_address(self, addr: PacketAddress) -> (r: Self)
        requires
            self.wf(),
        ensures
            r.wf(),
            r@ == (DeviceManagerView { own_address: addr, ..self@ }),
    {
        let mut m = self;
        m.own_address = addr;
        m
    }

    /// Sets the clock to `time_ms`.
    pub fn update_time(&mut self, time_ms: u32)
        requires
            old(self).wf(),
        ensures
            final(self).wf(),
            final(self)@ == (DeviceManagerView { current_time: time_ms, ..old(self)@ }),
    {
        self.current_time = time_ms;
    }

    /// The addresses of the known devices, in the order they were found.
    pub fn devices(&self) -> (r: std::vec::IntoIter<PacketAddress>)
        ensures
            vstd::std_specs::iter::IteratorSpec::remaining(&r) == key_addresses(self@.devices),
    {
        let keys = device_map_keys(&self.devices);
        let ghost es = self@.devices;
        let mut v: Vec<PacketAddress> = Vec::new();
        let mut i: usize = 0;
        while i < keys.len()
            invariant
                0 <= i <= keys@.len(),
                keys@.len() == es.len(),
                forall|j: int| 0 <= j < keys@.len() ==> keys@[j] == (#[trigger] es[j]).0,
                v@ == key_addresses(es.take(i as int)),
            decreases keys@.len() - i,
        {
            assert(es.take(i + 1).drop_last() =~= es.take(i as int));
            match PacketAddress::from_byte(keys[i]) {
                Some(a) => v.push(a),
                None => {},
            }
            i += 1;
        }
        assert(es.take(keys@.len() as int) =~= es);
        v.into_iter()
    }

    /// The device at `addr`, if known.
    pub fn get_device(&self, addr: PacketAddress) -> (r: Option<&Device>)
        ensures
            match find_key(self@.devices, address_byte(addr)) {
                Some(i) => r matches Some(d) && d@ == self@.devices[i].1,
                None => r is None,
            },
    {
        proof {
            lemma_device_views_find_key(device_entries(self.devices), address_byte(addr));
            lemma_find_key(device_entries(self.devices), address_byte(addr));
        }
        device_map_get(&self.devices, addr.to_byte())
    }

    /// The device at `addr`, if known, to change in place.
    pub fn get_device_mut(&mut self, addr: PacketAddress) -> (r: Option<&mut Device>)
        requires
            old(self).wf(),
        ensures
            final(self).wf(),
            match r {
                Some(d) => find_key(old(self)@.devices, address_byte(addr)) matches Some(i) && d@ == old(
                    self,
                )@.devices[i].1 && final(self)@ == with_device(old(self)@, i, final(d)@),
                None => find_key(old(self)@.devices, address_byte(addr)) is None && final(self)@ == old(
                    self,
                )@,
            },
    {
        proof {
            lemma_device_views_find_key(device_entries(self.devices), address_byte(addr));
            lemma_find_key(device_entries(self.devices), address_byte(addr));
            lemma_device_views_update(device_entries(self.devices), address_byte(addr));
        }
        device_map_get_mut(&mut self.devices, addr.to_byte())
    }

    /// The frame asking `device_addr` for chunk `chunk_number` of parameter
    /// `param_id`.
    fn serialize_parameter_read(&self, device_addr: PacketAddress, param_id: u8, chunk_number: u8) -> (r:
        Option<heapless::Vec<u8, 64>>)
        ensures
            frame_of(r) == Some(read_request_frame(device_addr, self@.own_address, param_id, chunk_number)),
    {
        let read = match ParameterRead::new(device_addr.to_byte(), self.own_address.to_byte(), param_id, chunk_number) {
            Ok(r) => r,
            Err(_) => return None,
        };
        proof {
            crate::packets::parameter_read::lemma_parameter_read_constants();
        }
        let mut buffer = [0u8; 64];
        let len = match write_packet_to_buffer(&mut buffer, device_addr, &read) {
            Ok(n) => n,
            Err(_) => return None,
        };
        let frame = &buffer[0..len];
        assert(frame@ =~= read_request_frame(device_addr, self@.own_address, param_id, chunk_number));
        bytes64_from_slice(frame)
    }

    /// Drops every request for parameter `param_id` of `device_addr`.
    pub fn remove_pending_request(&mut self, device_addr: PacketAddress, param_id: u8)
        requires
            old(self).wf(),
        ensures
            final(self).wf(),
            final(self)@ == without_requests(old(self)@, device_addr, param_id),
    {
        pending16_retain_others(&mut self.pending_requests, device_addr, param_id);
    }
}

impl DeviceManager {
    /// Records a request for the next chunk of `chunk`'s parameter and
    /// queues its frame.
    fn enqueue_next_chunk(&mut self, device_addr: PacketAddress, chunk: &ParameterChunk)
        requires
            old(self).wf(),
        ensures
            final(self).wf(),
            final(self)@ == next_chunk_requested(old(self)@, device_addr, chunk.param_number),
    {
        let next_chunk = self.chunk_reassembler.chunks_received();
        let pending = PendingRequest {
            device_addr,
            parameter_id: chunk.param_number,
            chunk_number: next_chunk,
            expected_chunks_remaining: None,
            retries: 0,
            timestamp: self.current_time,
        };
        if !pending16_push(&mut self.pending_requests, pending) {
            return;
        }
        match self.serialize_parameter_read(device_addr, chunk.param_number, next_chunk) {
            Some(packet) => {
                let _ = frames8_push(&mut self.pending_output, packet);
            },
            None => {},
        }
    }

    /// Records a request for the first unread parameter of `device_addr` and
    /// queues its frame, unless the device is unknown or fully read, or the
    /// request already awaits its answer.
    fn enqueue_next_parameter(&mut self, device_addr: PacketAddress)
        requires
            old(self).wf(),
        ensures
            final(self).wf(),
            final(self)@ == next_parameter_requested(old(self)@, device_addr),
    {
        match self.request_all_parameters(device_addr) {
            Some(packet) => {
                let _ = frames8_push(&mut self.pending_output, packet);
            },
            None => {},
        }
    }

    /// Stores `param` in the known device at `device_addr`; marks the device
    /// read when it then holds all its parameters, else asks for the next.
    fn add_loaded_parameter(&mut self, device_addr: PacketAddress, param: Parameter)
        requires
            old(self).wf(),
            find_key(old(self)@.devices, address_byte(device_addr)) is Some,
        ensures
            final(self).wf(),
            final(self)@ == parameter_added(
                old(self)@,
                find_key(old(self)@.devices, address_byte(device_addr))->0,
                device_addr,
                param@,
            ),
    {
        let key = device_addr.to_byte();
        let ghost i = find_key(old(self)@.devices, key)->0;
        let ghost p = param@;
        proof {
            lemma_device_views_find_key(device_entries(self.devices), key);
            lemma_find_key(device_entries(self.devices), key);
            lemma_device_views_update(device_entries(self.devices), key);
        }
        let all_loaded = match device_map_get_mut(&mut self.devices, key) {
            Some(device) => {
                device.add_parameter(param);
                if param_map_len(&device.parameters) >= device.parameters_total as usize {
                    device.parameters_loaded = true;
                    true
                } else {
                    false
                }
            },
            None => true,
        };
        assert(self@.devices[i].0 == key);
        if !all_loaded {
            self.enqueue_next_parameter(device_addr);
        }
    }

    /// Takes in device information.
    pub fn handle_device_info(&mut self, info: &DeviceInformation)
        requires
            old(self).wf(),
        ensures
            final(self).wf(),
            final(self)@ == info_handled(old(self)@, info@),
    {
        match Device::from_device_info(info) {
            Ok(device) => {
                let key = device.address.to_byte();
                proof {
                    crate::packets::address::lemma_byte_address_round_trip(info.src_addr);
                    lemma_device_views_find_key(device_entries(self.devices), key);
                    lemma_device_views_inserted(device_entries(self.devices), key, device);
                }
                let _ = device_map_insert(&mut self.devices, key, device);
            },
            Err(_) => {},
        }
    }

    /// Takes in a complete parameter entry.
    pub fn handle_parameter_entry(&mut self, entry: &ParameterSettingsEntry)
        requires
            old(self).wf(),
        ensures
            final(self).wf(),
            final(self)@ == entry_handled(old(self)@, entry@),
    {
        let device_addr = match PacketAddress::from_byte(entry.src_addr) {
            Some(a) => a,
            None => return,
        };
        proof {
            crate::packets::address::lemma_byte_address_round_trip(entry.src_addr);
            lemma_device_views_find_key(device_entries(self.devices), entry.src_addr);
        }
        if !device_map_contains(&self.devices, entry.src_addr) {
            return;
        }
        let param = Parameter::from_entry(entry.parameter_number, entry);
        self.add_loaded_parameter(device_addr, param);
        self.remove_pending_request(device_addr, entry.parameter_number);
    }
}

/// What asking for the parameters of `addr` does: nothing for an unknown or
/// fully read device, when the request for its first unread parameter
/// already awaits its answer, or when 16 requests do; otherwise that request
/// is recorded and its frame given. The queued frames stay as they are.
pub open spec fn all_parameters_requested(m: DeviceManagerView, addr: PacketAddress) -> (DeviceManagerView, Option<Seq<u8>>) {
    match find_key(m.devices, address_byte(addr)) {
        None => (m, None),
        Some(i) => {
            let d = m.devices[i].1;
            let next = first_unread(d.parameters, d.parameters_total, 0);
            if d.parameters_loaded || has_request(m.pending, addr, next) || m.pending.len() >= 16 {
                (m, None)
            } else {
                (
                    DeviceManagerView { pending: m.pending.push(new_request(addr, next, 0, m.current_time)), ..m },
                    Some(read_request_frame(addr, m.own_address, next, 0)),
                )
            }
        },
    }
}

/// What asking `addr` for chunk `chunk` of parameter `id` does: nothing for
/// an unknown device or when 16 requests await; otherwise the request is
/// recorded and its frame given.
pub open spec fn parameter_requested(m: DeviceManagerView, addr: PacketAddress, id: u8, chunk: u8) -> (DeviceManagerView, Option<Seq<u8>>) {
    if find_key(m.devices, address_byte(addr)) is None || m.pending.len() >= 16 {
        (m, None)
    } else {
        (
            DeviceManagerView { pending: m.pending.push(new_request(addr, id, chunk, m.current_time)), ..m },
            Some(read_request_frame(addr, m.own_address, id, chunk)),
        )
    }
}

/// What a ping does: nothing when pinging is off or the interval has not
/// passed; otherwise the ping time is set and the ping frame given.
pub open spec fn ping_sent(m: DeviceManagerView) -> (DeviceManagerView, Option<Seq<u8>>) {
    if m.config.device_ping_interval_ms == 0 || m.current_time - m.last_ping_time
        < m.config.device_ping_interval_ms {
        (m, None)
    } else {
        (DeviceManagerView { last_ping_time: m.current_time, ..m }, Some(ping_frame(m.own_address)))
    }
}

impl DeviceManager {
    /// Takes in a chunk of a parameter entry.
    pub fn handle_parameter_chunk(&mut self, chunk: &ParameterChunk)
        requires
            old(self).wf(),
        ensures
            final(self).wf(),
            final(self)@ == chunk_handled(old(self)@, chunk@),
    {
        let device_addr = match PacketAddress::from_byte(chunk.src_addr) {
            Some(a) => a,
            None => return,
        };
        let key = chunk.src_addr;
        proof {
            crate::packets::address::lemma_byte_address_round_trip(chunk.src_addr);
            lemma_device_views_find_key(device_entries(self.devices), key);
            lemma_find_key(device_entries(self.devices), key);
        }
        let already_loaded = match device_map_get(&self.devices, key) {
            None => return,
            Some(device) => {
                proof {
                    lemma_param_views_find_key(param_entries(device.parameters), chunk.param_number);
                }
                param_map_contains(&device.parameters, chunk.param_number)
            },
        };
        if already_loaded {
            self.remove_pending_request(device_addr, chunk.param_number);
            return;
        }
        if !self.chunk_reassembler.is_idle() && self.chunk_reassembler.param_number() != chunk.param_number {
            let stale_id = self.chunk_reassembler.param_number();
            self.remove_pending_request(device_addr, stale_id);
        }
        let ghost m1 = self@;
        match self.chunk_reassembler.push(chunk.copy()) {
            Ok(Some(entry)) => {
                let param = Parameter::from_entry(entry.parameter_number, &entry);
                self.add_loaded_parameter(device_addr, param);
                self.remove_pending_request(device_addr, chunk.param_number);
            },
            Ok(None) => {
                self.enqueue_next_chunk(device_addr, chunk);
            },
            Err(_) => {
                self.chunk_reassembler.reset();
                self.remove_pending_request(device_addr, chunk.param_number);
                let stub = Parameter {
                    id: chunk.param_number,
                    parent: 0,
                    name: text128_new(),
                    hidden: true,
                    data: None,
                };
                self.add_loaded_parameter(device_addr, stub);
            },
        }
    }

    /// Takes in a packet: device information adds or updates a device,
    /// entries and chunks add parameters; other packets are ignored.
    pub fn handle_packet(&mut self, packet: &Packet)
        requires
            old(self).wf(),
        ensures
            final(self).wf(),
            final(self)@ == packet_handled(old(self)@, packet@),
    {
        match packet {
            Packet::DeviceInformation(info) => self.handle_device_info(info),
            Packet::ParameterSettingsEntry(entry) => self.handle_parameter_entry(entry),
            Packet::ParameterChunk(chunk) => self.handle_parameter_chunk(chunk),
            _ => {},
        }
    }

    /// The discovery ping to broadcast, when pinging is on and its interval
    /// has passed since the last one. The clock must not stand before the
    /// last ping.
    pub fn send_device_ping(&mut self) -> (r: Option<heapless::Vec<u8, 64>>)
        requires
            old(self).wf(),
            old(self)@.last_ping_time <= old(self)@.current_time,
        ensures
            final(self).wf(),
            (final(self)@, frame_of(r)) == ping_sent(old(self)@),
    {
        if self.config.device_ping_interval_ms == 0 {
            return None;
        }
        if self.current_time - self.last_ping_time < self.config.device_ping_interval_ms {
            return None;
        }
        self.last_ping_time = self.current_time;
        let ping = match DevicePing::new(PacketAddress::Broadcast.to_byte(), self.own_address.to_byte()) {
            Ok(p) => p,
            Err(_) => return None,
        };
        proof {
            crate::packets::device_ping::lemma_device_ping_constants();
        }
        let mut buffer = [0u8; 64];
        let len = match write_packet_to_buffer(&mut buffer, PacketAddress::Broadcast, &ping) {
            Ok(n) => n,
            Err(_) => return None,
        };
        let frame = &buffer[0..len];
        assert(frame@ =~= ping_frame(self@.own_address));
        bytes64_from_slice(frame)
    }

    /// Asks device `device_addr` for its first unread parameter and records
    /// the request; gives the frame to send, or `None` for an unknown or
    /// fully read device, when that request already awaits its answer, or
    /// when 16 requests do. The frames queued for sending are left in place.
    pub fn request_all_parameters(&mut self, device_addr: PacketAddress) -> (r: Option<heapless::Vec<u8, 64>>)
        requires
            old(self).wf(),
        ensures
            final(self).wf(),
            (final(self)@, frame_of(r)) == all_parameters_requested(old(self)@, device_addr),
    {
        let key = device_addr.to_byte();
        proof {
            lemma_device_views_find_key(device_entries(self.devices), key);
            lemma_find_key(device_entries(self.devices), key);
        }
        let next_param_id = match device_map_get(&self.devices, key) {
            None => return None,
            Some(device) => {
                if device.parameters_loaded {
                    return None;
                }
                let ghost ps = device@.parameters;
                let total = device.parameters_total;
                let mut id: u8 = 0;
                while id < total && param_map_contains(&device.parameters, id)
                    invariant
                        0 <= id <= total,
                        total == device@.parameters_total,
                        ps == device@.parameters,
                        first_unread(ps, total, 0) == first_unread(ps, total, id as int),
                    decreases total - id,
                {
                    proof {
                        lemma_param_views_find_key(param_entries(device.parameters), id);
                    }
                    id += 1;
                }
                proof {
                    if id < total {
                        lemma_param_views_find_key(param_entries(device.parameters), id);
                    }
                }
                id
            },
        };
        let pending = pending16_as_slice(&self.pending_requests);
        let mut j: usize = 0;
        while j < pending.len()
            invariant
                0 <= j <= pending@.len(),
                pending@ == self@.pending,
                self.wf(),
                self@ == old(self)@,
                find_key(old(self)@.devices, key) matches Some(i) && !old(self)@.devices[i].1.parameters_loaded
                    && next_param_id == first_unread(
                    old(self)@.devices[i].1.parameters,
                    old(self)@.devices[i].1.parameters_total,
                    0,
                ),
                key == address_byte(device_addr),
                forall|k: int| 0 <= k < j ==> !(#[trigger] pending@[k]).is_for(device_addr, next_param_id),
            decreases pending@.len() - j,
        {
            if pending[j].device_addr == device_addr && pending[j].parameter_id == next_param_id {
                assert(pending@[j as int].is_for(device_addr, next_param_id));
                return None;
            }
            j += 1;
        }
        let req = PendingRequest {
            device_addr,
            parameter_id: next_param_id,
            chunk_number: 0,
            expected_chunks_remaining: None,
            retries: 0,
            timestamp: self.current_time,
        };
        if !pending16_push(&mut self.pending_requests, req) {
            return None;
        }
        self.serialize_parameter_read(device_addr, next_param_id, 0)
    }

    /// Asks device `device_addr` for chunk `chunk_number` of parameter
    /// `parameter_id` and records the request; `None` for an unknown device
    /// or when 16 requests await their answers.
    pub fn request_parameter(&mut self, device_addr: PacketAddress, parameter_id: u8, chunk_number: u8) -> (r:
        Option<heapless::Vec<u8, 64>>)
        requires
            old(self).wf(),
        ensures
            final(self).wf(),
            (final(self)@, frame_of(r)) == parameter_requested(old(self)@, device_addr, parameter_id, chunk_number),
    {
        proof {
            lemma_device_views_find_key(device_entries(self.devices), address_byte(device_addr));
        }
        if !device_map_contains(&self.devices, device_addr.to_byte()) {
            return None;
        }
        let pending = PendingRequest {
            device_addr,
            parameter_id,
            chunk_number,
            expected_chunks_remaining: None,
            retries: 0,
            timestamp: self.current_time,
        };
        if !pending16_push(&mut self.pending_requests, pending) {
            return None;
        }
        self.serialize_parameter_read(device_addr, parameter_id, chunk_number)
    }

    /// The frame writing `data` to parameter `parameter_id` of device
    /// `device_addr`; `None` for an unknown device or more than 32 bytes.
    pub fn write_parameter(&mut self, device_addr: PacketAddress, parameter_id: u8, data: &[u8]) -> (r: Option<
        heapless::Vec<u8, 64>,
    >)
        requires
            old(self).wf(),
        ensures
            final(self).wf(),
            final(self)@ == old(self)@,
            frame_of(r) == if find_key(old(self)@.devices, address_byte(device_addr)) is None || data@.len()
                > 32 {
                None
            } else {
                Some(write_request_frame(device_addr, old(self)@.own_address, parameter_id, data@))
            },
    {
        proof {
            lemma_device_views_find_key(device_entries(self.devices), address_byte(device_addr));
        }
        if !device_map_contains(&self.devices, device_addr.to_byte()) {
            return None;
        }
        let write = match ParameterWrite::new(device_addr.to_byte(), self.own_address.to_byte(), parameter_id, data) {
            Ok(w) => w,
            Err(_) => return None,
        };
        proof {
            crate::packets::parameter_write::lemma_parameter_write_constants();
        }
        let mut buffer = [0u8; 64];
        let len = match write_packet_to_buffer(&mut buffer, device_addr, &write) {
            Ok(n) => n,
            Err(_) => return None,
        };
        let frame = &buffer[0..len];
        assert(frame@ =~= write_request_frame(device_addr, self@.own_address, parameter_id, data@));
        bytes64_from_slice(frame)
    }

    /// Takes the queued frames (such as requests for further chunks),
    /// leaving the queue empty.
    pub fn drain_output(&mut self) -> (r: heapless::Vec<heapless::Vec<u8, 64>, 8>)
        requires
            old(self).wf(),
        ensures
            final(self).wf(),
            frames8(r) == old(self)@.output,
            final(self)@ == (DeviceManagerView { output: Seq::empty(), ..old(self)@ }),
    {
        let mut out = frames8_new();
        core::mem::swap(&mut out, &mut self.pending_output);
        out
    }

    /// Forgets every device, request and queued frame, and any entry in
    /// progress.
    pub fn clear(&mut self)
        requires
            old(self).wf(),
        ensures
            final(self).wf(),
            final(self)@ == (DeviceManagerView {
                devices: Seq::empty(),
                pending: Seq::empty(),
                reassembler: idle_reassembler(),
                output: Seq::empty(),
                ..old(self)@
            }),
    {
        device_map_clear(&mut self.devices);
        pending16_clear(&mut self.pending_requests);
        self.chunk_reassembler.reset();
        frames8_clear(&mut self.pending_output);
        assert(device_views(device_entries(self.devices)) =~= Seq::<(u8, DeviceView)>::empty());
    }
}

impl Default for DeviceManager {
    fn default() -> (r: Self)
        ensures
            r.wf(),
            r@ == (DeviceManagerView {
                config: DeviceManagerConfig {
                    timeout_ms: DEFAULT_TIMEOUT_MS,
                    retry_count: DEFAULT_RETRY_COUNT,
                    device_ping_interval_ms: 1000,
                },
                own_address: PacketAddress::Handset,
                devices: Seq::empty(),
                pending: Seq::empty(),
                reassembler: idle_reassembler(),
                output: Seq::empty(),
                current_time: 0,
                last_ping_time: 0,
            }),
    {
        Self::new(DeviceManagerConfig::default())
    }
}

/// `out` with frame `f` added, when fewer than 16 are held.
pub open spec fn push_if_room16(out: Seq<Seq<u8>>, f: Seq<u8>) -> Seq<Seq<u8>> {
    if out.len() < 16 {
        out.push(f)
    } else {
        out
    }
}

/// One step of the timeout scan at request `i`, with the retry frames `out`
/// so far: a request that has waited `timeout_ms` and used up its retries is
/// dropped (the last request taking its place, the scan staying at `i`); one
/// with retries left, to a known device, is sent again, counting a retry and
/// restarting its clock; others stay.
pub open spec fn timeout_step(m: DeviceManagerView, i: int, out: Seq<Seq<u8>>) -> (DeviceManagerView, int, Seq<
    Seq<u8>,
>) {
    let req = m.pending[i];
    if m.current_time - req.timestamp >= m.config.timeout_ms {
        if req.retries >= m.config.retry_count {
            (DeviceManagerView { pending: m.pending.update(i, m.pending.last()).drop_last(), ..m }, i, out)
        } else if find_key(m.devices, address_byte(req.device_addr)) is Some {
            (
                DeviceManagerView {
                    pending: m.pending.update(
                        i,
                        PendingRequest { retries: (req.retries + 1) as u8, timestamp: m.current_time, ..req },
                    ),
                    ..m
                },
                i + 1,
                push_if_room16(
                    out,
                    read_request_frame(req.device_addr, m.own_address, req.parameter_id, req.chunk_number),
                ),
            )
        } else {
            (m, i + 1, out)
        }
    } else {
        (m, i + 1, out)
    }
}

/// Whether no request has been sent again more often than the configuration
/// allows.
pub open spec fn retries_within_limit(m: DeviceManagerView) -> bool {
    forall|j: int| 0 <= j < m.pending.len() ==> (#[trigger] m.pending[j]).retries <= m.config.retry_count
}

/// A step of the timeout scan sends at most one frame, and only by raising
/// the retry count of the request it looks at by one, never past
/// `retry_count`; it adds no request and changes no other. So no request is
/// sent again more than `retry_count` times before it is dropped.
pub proof fn lemma_timeout_step_retries(m: DeviceManagerView, i: int, out: Seq<Seq<u8>>)
    requires
        0 <= i < m.pending.len(),
        retries_within_limit(m),
    ensures
        ({
            let (m2, i2, out2) = timeout_step(m, i, out);
            &&& m2.pending.len() <= m.pending.len()
            &&& out2.len() <= out.len() + 1
            &&& retries_within_limit(m2)
            &&& m2.config == m.config
            &&& (out2.len() > out.len() ==> {
                &&& m2.pending.len() == m.pending.len()
                &&& m2.pending[i].retries == m.pending[i].retries + 1
                &&& forall|j: int| 0 <= j < m.pending.len() && j != i ==> m2.pending[j] == m.pending[j]
            })
        }),
{
}

/// The timeout scan from request `i` on: the manager after it and the retry
/// frames.
pub open spec fn timeouts_from(m: DeviceManagerView, i: int, out: Seq<Seq<u8>>) -> (DeviceManagerView, Seq<
    Seq<u8>,
>)
    decreases 2 * m.pending.len() + 48 - 3 * i,
    when 0 <= i <= m.pending.len() <= 16
{
    if i >= m.pending.len() {
        (m, out)
    } else {
        let (m1, i1, out1) = timeout_step(m, i, out);
        timeouts_from(m1, i1, out1)
    }
}

/// The retries the requests `pending` have left, at most `limit` each.
pub open spec fn retry_budget(pending: Seq<PendingRequest>, limit: u8) -> int
    decreases pending.len(),
{
    if pending.len() == 0 {
        0
    } else {
        retry_budget(pending.drop_last(), limit) + (limit - pending.last().retries)
    }
}

proof fn lemma_budget_update(s: Seq<PendingRequest>, limit: u8, i: int, x: PendingRequest)
    requires
        0 <= i < s.len(),
    ensures
        retry_budget(s.update(i, x), limit) == retry_budget(s, limit) - (limit - s[i].retries) + (limit
            - x.retries),
    decreases s.len(),
{
    if i == s.len() - 1 {
        assert(s.update(i, x).drop_last() =~= s.drop_last());
    } else {
        lemma_budget_update(s.drop_last(), limit, i, x);
        assert(s.update(i, x).drop_last() =~= s.drop_last().update(i, x));
    }
}

proof fn lemma_budget_nonneg(s: Seq<PendingRequest>, limit: u8)
    requires
        forall|j: int| 0 <= j < s.len() ==> (#[trigger] s[j]).retries <= limit,
    ensures
        retry_budget(s, limit) >= 0,
    decreases s.len(),
{
    if s.len() > 0 {
        lemma_budget_nonneg(s.drop_last(), limit);
    }
}

/// Over a timeout scan, no request is sent again beyond its retries: the
/// frames the scan adds number at most the retries the requests used up,
/// counted as the fall of [`retry_budget`] (a dropped request takes its
/// unused retries with it); no request's retries pass `retry_count`, and
/// the configuration stays. As `update_time` leaves the requests as they
/// are, the frames of any run of `process_timeouts` calls, without new
/// requests in between, number at most the retries the requests had left at
/// its start: `retry_count` for a single fresh request.
pub proof fn lemma_timeouts_retry_budget(m: DeviceManagerView, i: int, out: Seq<Seq<u8>>)
    requires
        0 <= i <= m.pending.len() <= 16,
        retries_within_limit(m),
    ensures
        ({
            let (m2, out2) = timeouts_from(m, i, out);
            &&& retries_within_limit(m2)
            &&& m2.config == m.config
            &&& out.len() <= out2.len()
            &&& out2.len() - out.len() <= retry_budget(m.pending, m.config.retry_count) - retry_budget(
                m2.pending,
                m.config.retry_count,
            )
            &&& 0 <= retry_budget(m2.pending, m.config.retry_count)
        }),
    decreases 2 * m.pending.len() + 48 - 3 * i,
{
    let limit = m.config.retry_count;
    if i < m.pending.len() {
        let (m1, i1, out1) = timeout_step(m, i, out);
        lemma_timeout_step_retries(m, i, out);
        let req = m.pending[i];
        if m.current_time - req.timestamp >= m.config.timeout_ms {
            if req.retries >= limit {
                let s = m.pending;
                lemma_budget_update(s, limit, i, s.last());
                assert(s.update(i, s.last()).drop_last().push(s.update(i, s.last()).last()) =~= s.update(
                    i,
                    s.last(),
                ));
                assert(retry_budget(s.update(i, s.last()).drop_last(), limit) == retry_budget(
                    s.update(i, s.last()),
                    limit,
                ) - (limit - s.last().retries));
            } else if find_key(m.devices, address_byte(req.device_addr)) is Some {
                lemma_budget_update(
                    m.pending,
                    limit,
                    i,
                    PendingRequest { retries: (req.retries + 1) as u8, timestamp: m.current_time, ..req },
                );
            }
        }
        lemma_timeouts_retry_budget(m1, i1, out1);
    } else {
        lemma_budget_nonneg(m.pending, limit);
    }
}

impl DeviceManager {
    /// Sends again the requests that have waited `timeout_ms`, while their
    /// retries last, and drops the others that have waited that long; gives
    /// the frames to send again. The clock must not stand before any
    /// request.
    pub fn process_timeouts(&mut self) -> (r: heapless::Vec<heapless::Vec<u8, 64>, 16>)
        requires
            old(self).wf(),
            requests_not_later(old(self)@),
        ensures
            final(self).wf(),
            (final(self)@, frames16(r)) == timeouts_from(old(self)@, 0, Seq::empty()),
    {
        let mut retry_packets = frames16_new();
        let timeout = self.config.timeout_ms;
        let current_time = self.current_time;
        let mut i: usize = 0;
        loop
            invariant
                self.wf(),
                requests_not_later(self@),
                0 <= i <= self@.pending.len(),
                timeout == self@.config.timeout_ms,
                current_time == self@.current_time,
                timeouts_from(self@, i as int, frames16(retry_packets)) == timeouts_from(
                    old(self)@,
                    0,
                    Seq::empty(),
                ),
            ensures
                self.wf(),
                i == self@.pending.len(),
                timeouts_from(self@, i as int, frames16(retry_packets)) == timeouts_from(
                    old(self)@,
                    0,
                    Seq::empty(),
                ),
            decreases 2 * self@.pending.len() + 48 - 3 * i,
        {
            let len = pending16_as_slice(&self.pending_requests).len();
            if i >= len {
                break;
            }
            let req = pending16_as_slice(&self.pending_requests)[i];
            if current_time - req.timestamp >= timeout {
                if req.retries >= self.config.retry_count {
                    let _ = pending16_swap_remove(&mut self.pending_requests, i);
                    continue;
                } else {
                    proof {
                        lemma_device_views_find_key(device_entries(self.devices), address_byte(req.device_addr));
                    }
                    if device_map_contains(&self.devices, req.device_addr.to_byte()) {
                        match self.serialize_parameter_read(req.device_addr, req.parameter_id, req.chunk_number) {
                            Some(packet) => {
                                let updated = PendingRequest {
                                    retries: req.retries + 1,
                                    timestamp: current_time,
                                    ..req
                                };
                                pending16_set(&mut self.pending_requests, i, updated);
                                let _ = frames16_push(&mut retry_packets, packet);
                            },
                            None => {},
                        }
                    }
                }
            }
            i += 1;
        }
        retry_packets
    }
}

impl DeviceManager {
    /// The manager's configuration.
    pub fn config(&self) -> (r: &DeviceManagerConfig)
        ensures
            *r == self@.config,
    {
        &self.config
    }

    /// The reassembler of chunked entries.
    pub fn chunk_reassembler(&self) -> (r: &ParameterChunkReassembler)
        ensures
            r@ == self@.reassembler,
    {
        &self.chunk_reassembler
    }

    /// The requests awaiting their answers, oldest first.
    pub fn pending_requests(&self) -> (r: &[PendingRequest])
        ensures
            r@ == self@.pending,
    {
        pending16_as_slice(&self.pending_requests)
    }
}

/// Dropping the requests for parameter `id` of device `addr` leaves none of
/// them and keeps every other request, in order.
pub proof fn lemma_without_requests(m: DeviceManagerView, addr: PacketAddress, id: u8)
    ensures
        forall|j: int|
            0 <= j < without_requests(m, addr, id).pending.len() ==> !(#[trigger] without_requests(
                m,
                addr,
                id,
            ).pending[j]).is_for(addr, id),
        forall|j: int|
            0 <= j < m.pending.len() && !m.pending[j].is_for(addr, id) ==> #[trigger] without_requests(
                m,
                addr,
                id,
            ).pending.contains(m.pending[j]),
        without_requests(m, addr, id).pending.len() <= m.pending.len(),
{
    let pred = |r: PendingRequest| !r.is_for(addr, id);
    assert forall|j: int| 0 <= j < m.pending.filter(pred).len() implies pred(
        #[trigger] m.pending.filter(pred)[j],
    ) by {
        m.pending.lemma_filter_pred(pred, j);
    }
    assert forall|j: int| 0 <= j < m.pending.len() && pred(m.pending[j]) implies #[trigger] m.pending.filter(
        pred,
    ).contains(m.pending[j]) by {
        m.pending.lemma_filter_contains(pred, j);
    }
    m.pending.lemma_filter_len(pred);
}

} // verus!
