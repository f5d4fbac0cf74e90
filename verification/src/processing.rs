//! The event processing thread: its requests, the API that sends them, and
//! the state that decides how each request is answered and how events are
//! batched for the histogrammer.
//!
//! The thread itself (opening files, reading ring items, looping on its
//! request channel) is run by the program around the library; it hands
//! each request and each event to `ProcessingThread` and carries out what
//! comes back.
use vstd::prelude::*;
use std::sync::mpsc::Sender;
use crate::messaging::{channel_recv, channel_send, clone_sender, new_channel};
use crate::messaging;
use crate::messaging::parameter_messages::{ListResult, create_parameter, list_parameters};
use crate::messaging::spectrum_messages::SpectrumMessageClient;
use crate::parameters::{
    Event,
    EventParameter,
    Parameter,
    ParameterIdMap,
    bare_parameter,
    has_id,
    has_name,
    ParameterView,
    event_views,
    mapped_event,
    mapping_of,
    maps_to_named,
};

verus! {

/// The number of events sent to the histogrammer at once, unless set.
pub const DEFAULT_EVENT_CHUNKSIZE: usize = 100;

/// The format version of the ring items of the data source.
#[derive(Clone, Copy, Debug, PartialEq, Eq)]
pub enum RingVersion {
    V11,
    V12,
}

/// The text of a ring version.
pub open spec fn ring_version_text(v: RingVersion) -> Seq<char> {
    match v {
        RingVersion::V11 => "11"@,
        RingVersion::V12 => "12"@,
    }
}

impl RingVersion {
    /// The text of the version: "11" or "12".
    pub fn to_text(&self) -> (r: String)
        ensures
            r@ == ring_version_text(*self),
    {
        proof {
            reveal_strlit("11");
            reveal_strlit("12");
        }
        match self {
            RingVersion::V11 => String::from_str("11"),
            RingVersion::V12 => String::from_str("12"),
        }
    }

    /// The version whose text is `s`; `Err` for any other text.
    pub fn parse(s: &str) -> (r: Result<RingVersion, String>)
        ensures
            r matches Ok(v) ==> ring_version_text(v) == s@,
            (s@ == "11"@ || s@ == "12"@) ==> r is Ok,
            r matches Err(e) ==> e@ == "Invalid ring version: "@ + s@,
    {
        proof {
            reveal_strlit("11");
            reveal_strlit("12");
            reveal_strlit("Invalid ring version: ");
        }
        let text = String::from_str(s);
        if text == String::from_str("11") {
            Ok(RingVersion::V11)
        } else if text == String::from_str("12") {
            Ok(RingVersion::V12)
        } else {
            Err(String::from_str("Invalid ring version: ").concat(s))
        }
    }
}

/// Decimal digits of a natural number.
pub open spec fn decimal(n: nat) -> Seq<char>
    decreases n,
{
    if n < 10 {
        seq![digit_char(n)]
    } else {
        decimal(n / 10).push(digit_char(n % 10))
    }
}

/// The character of a digit.
pub open spec fn digit_char(d: nat) -> char {
    if d == 0 {
        '0'
    } else if d == 1 {
        '1'
    } else if d == 2 {
        '2'
    } else if d == 3 {
        '3'
    } else if d == 4 {
        '4'
    } else if d == 5 {
        '5'
    } else if d == 6 {
        '6'
    } else if d == 7 {
        '7'
    } else if d == 8 {
        '8'
    } else {
        '9'
    }
}

/// Calls `usize::to_string`, which writes the number in decimal without
/// sign or leading zeros.
#[verifier::external_body]
pub(crate) fn usize_text(n: usize) -> (r: String)
    ensures
        r@ == decimal(n as nat),
{
    n.to_string()
}

/// Calls `str::parse::<usize>`.  The decimal text of a number parses to
/// that number (other accepted texts, such as ones with leading zeros, are
/// not described here).
#[verifier::external_body]
fn parse_usize(s: &str) -> (r: Option<usize>)
    ensures
        forall|n: usize| s@ == decimal(n as nat) ==> r == Some(n),
{
    s.parse::<usize>().ok()
}

/// A request of the processing thread.
pub enum RequestType {
    Attach(String),
    Detach,
    Start,
    Stop,
    ChunkSize(usize),
    GetChunkSize,
    Exit,
    List,
    Version(RingVersion),
    GetVersion,
}

/// The reply of the processing thread: a text on success, an error text.
pub type Reply = Result<String, String>;

/// A request and the channel to reply on.
pub struct Request {
    reply_chan: Sender<Reply>,
    request: RequestType,
}

impl Request {
    /// The request.
    pub closed spec fn spec_request(&self) -> RequestType {
        self.request
    }

    /// The channel to reply on.
    pub closed spec fn spec_reply_chan(&self) -> Sender<Reply> {
        self.reply_chan
    }

    /// The request `request`, to be answered on `reply_chan`.
    pub fn new(reply_chan: Sender<Reply>, request: RequestType) -> (r: Request)
        ensures
            r.spec_request() == request,
            r.spec_reply_chan() == reply_chan,
    {
        Request { reply_chan, request }
    }

    /// Splits the request into its reply channel and its request.
    pub fn into_parts(self) -> (r: (Sender<Reply>, RequestType))
        ensures
            r.0 == self.spec_reply_chan(),
            r.1 == self.spec_request(),
    {
        (self.reply_chan, self.request)
    }
}

/// The request that attaches the data source `source`.
pub fn attach_request(source: &str) -> (r: RequestType)
    ensures
        r matches RequestType::Attach(s) && s@ == source@,
{
    RequestType::Attach(String::from_str(source))
}

/// The API of the processing thread: it holds the channel on which the
/// thread takes requests.
pub struct ProcessingApi {
    req_chan: Sender<Request>,
}

impl ProcessingApi {
    /// The channel the requests are sent along.
    pub closed spec fn spec_chan(&self) -> Sender<Request> {
        self.req_chan
    }

    /// An API sending its requests along `req_chan` (the program starts the
    /// thread that reads the other end).
    pub fn new(req_chan: Sender<Request>) -> (r: ProcessingApi)
        ensures
            r.spec_chan() == req_chan,
    {
        ProcessingApi { req_chan }
    }

    fn transaction(&self, req: RequestType) -> Reply {
        let (rep_send, rep_recv) = new_channel::<Reply>();
        let request = Request::new(rep_send, req);
        if !channel_send(&self.req_chan, request) {
            proof {
                reveal_strlit("Send to processing thread failed");
            }
            Err(String::from_str("Send to processing thread failed"))
        } else {
            match channel_recv(&rep_recv) {
                Some(result) => result,
                None => {
                    proof {
                        reveal_strlit("Receive from processing thread failed");
                    }
                    Err(String::from_str("Receive from processing thread failed"))
                },
            }
        }
    }

    /// Asks the thread to exit.
    pub fn stop_thread(&self) -> Reply {
        self.transaction(RequestType::Exit)
    }

    /// Asks the thread to attach the data source `source` (a file name).
    pub fn attach(&self, source: &str) -> Reply {
        self.transaction(attach_request(source))
    }

    /// Asks the thread to detach its data source.
    pub fn detach(&self) -> Reply {
        self.transaction(RequestType::Detach)
    }

    /// Sets the number of events sent to the histogrammer at once.
    pub fn set_batching(&mut self, events: usize) -> Reply {
        self.transaction(RequestType::ChunkSize(events))
    }

    /// The number of events sent to the histogrammer at once.  `Err` when
    /// the thread cannot be reached or does not answer with a number.
    pub fn get_batching(&self) -> (r: Result<usize, String>)
        ensures
            exists|rep: Reply| #[trigger] batching_gives(rep, r),
    {
        batching_from_reply(self.transaction(RequestType::GetChunkSize))
    }

    /// Asks the thread to start analysing its data source.
    pub fn start_analysis(&self) -> Reply {
        self.transaction(RequestType::Start)
    }

    /// Asks the thread to stop analysing.
    pub fn stop_analysis(&self) -> Reply {
        self.transaction(RequestType::Stop)
    }

    /// Asks the thread which data source it is attached to.
    pub fn list(&self) -> Reply {
        self.transaction(RequestType::List)
    }

    /// Sets the ring item format version of the data source.
    pub fn set_ring_version(&self, version: RingVersion) -> Reply {
        self.transaction(RequestType::Version(version))
    }

    /// The ring item format version of the data source.
    pub fn get_ring_version(&self) -> (r: Result<RingVersion, String>)
        ensures
            exists|rep: Reply| #[trigger] version_gives(rep, r),
    {
        ring_version_from_reply(self.transaction(RequestType::GetVersion))
    }
}

/// What `batching_from_reply` makes of `reply`.
pub open spec fn batching_gives(reply: Reply, r: Result<usize, String>) -> bool {
    &&& reply matches Err(e) ==> (r matches Err(f) && f@ == e@)
    &&& forall|n: usize| #![trigger decimal(n as nat)]
        (reply matches Ok(s) && s@ == decimal(n as nat)) ==> r == Ok::<usize, String>(n)
    &&& (reply is Ok && r is Err) ==> r->Err_0@ == "Not a usize from get_batching"@
}

/// The batch size that a reply to `GetChunkSize` gives: the number its
/// text writes in decimal.  An error reply is passed on.
pub fn batching_from_reply(reply: Reply) -> (r: Result<usize, String>)
    ensures
        batching_gives(reply, r),
{
    match reply {
        Ok(s) => match parse_usize(s.as_str()) {
            Some(n) => Ok(n),
            None => {
                proof {
                    reveal_strlit("Not a usize from get_batching");
                }
                Err(String::from_str("Not a usize from get_batching"))
            },
        },
        Err(e) => Err(e),
    }
}

/// What `ring_version_from_reply` makes of `reply`.
pub open spec fn version_gives(reply: Reply, r: Result<RingVersion, String>) -> bool {
    &&& reply matches Err(e) ==> (r matches Err(f) && f@ == e@)
    &&& reply matches Ok(s) ==> ((s@ == "11"@ || s@ == "12"@) ==> r is Ok)
    &&& r matches Ok(v) ==> (reply matches Ok(s) && ring_version_text(v) == s@)
}

/// The ring version that a reply to `GetVersion` gives.  An error reply is
/// passed on.
pub fn ring_version_from_reply(reply: Reply) -> (r: Result<RingVersion, String>)
    ensures
        version_gives(reply, r),
{
    match reply {
        Ok(text) => RingVersion::parse(text.as_str()),
        Err(e) => Err(e),
    }
}

/// The parameters of `dict` past its first `n` (the stock) are each named
/// by one of the definitions `defs`, and by none of the stock.
pub open spec fn created_beyond(dict: Seq<ParameterView>, n: int, defs: Seq<ParameterDefinition>) -> bool {
    &&& 0 <= n <= dict.len()
    &&& forall|i: int|
        n <= i < dict.len() ==> (exists|k: int| 0 <= k < defs.len() && #[trigger] defs[k].name@ == dict[i].name) && !has_name(
            #[trigger] dict.take(n),
            dict[i].name,
        )
}

/// The state of the processing thread.
pub struct ProcessingThread {
    attach_name: Option<String>,
    chunk_size: usize,
    processing: bool,
    keep_running: bool,
    ring_version: RingVersion,
    parameter_mapping: ParameterIdMap,
    event_chunk: Vec<Event>,
    parameter_api: Sender<messaging::Request>,
    spectrum_api: SpectrumMessageClient,
}

/// A parameter definition of the data source: the name of a parameter and
/// the id the data source gives it.
pub struct ParameterDefinition {
    pub name: String,
    pub id: u32,
}

/// An item of the data source, as the thread sees it.
pub enum SourceItem {
    /// The names and ids the source gives its parameters.
    Definitions(Vec<ParameterDefinition>),
    /// One event, in the source's parameter ids.
    Data(Event),
    /// An item of any other kind; it is skipped.
    Other,
    /// The source could not be read any further.
    Unreadable,
}

/// The number that four bytes write, least significant byte first.
pub open spec fn little_endian(b0: u8, b1: u8, b2: u8, b3: u8) -> nat {
    (b0 + 256 * b1 + 65536 * b2 + 16777216 * b3) as nat
}

/// The length of the rest of a ring item whose header (its first eight
/// bytes) is `header`: the header starts with the item's size, header
/// included, as a little-endian 32-bit number.  `None` when that size is
/// smaller than the header itself.
pub fn item_body_length(header: &[u8; 8]) -> (r: Option<usize>)
    ensures
        ({
            let size = little_endian(header@[0], header@[1], header@[2], header@[3]);
            &&& size >= 8 ==> r == Some((size - 8) as usize)
            &&& size < 8 ==> r is None
        }),
{
    let size: u64 = header[0] as u64 + 256 * (header[1] as u64) + 65536 * (header[2] as u64) + 16777216 * (
    header[3] as u64);
    if size < 8 {
        None
    } else {
        Some((size - 8) as usize)
    }
}

/// `map` sends the id of each of the first `n` definitions to the id of a
/// parameter of `dict` with the definition's name.
pub open spec fn maps_definitions(
    dict: Seq<ParameterView>,
    map: Seq<Option<u32>>,
    defs: Seq<ParameterDefinition>,
    n: int,
) -> bool {
    forall|j: int| 0 <= j < n ==> maps_to_named(dict, map, #[trigger] defs[j].id, defs[j].name@)
}

/// Every id `map` maps is the id of one of the first `n` definitions.
pub open spec fn maps_only_definitions(map: Seq<Option<u32>>, defs: Seq<ParameterDefinition>, n: int) -> bool {
    forall|k: u32| #[trigger] mapping_of(map, k) is Some ==> exists|j: int| 0 <= j < n && defs[j].id == k
}

/// The map a rebuild starts from: no mapping, and a dictionary stocked with
/// the parameters the histogrammer lists (`known`), each with its name and
/// id (a listed parameter whose name or id is stocked already is left
/// out).  `Err` when a listed id is `u32::MAX`, which leaves no id for the
/// dictionary to hand out next.
pub fn stock_map(known: &Vec<Parameter>) -> (r: Result<ParameterIdMap, String>)
    ensures
        r is Err <==> exists|i: int| 0 <= i < known@.len() && #[trigger] known@[i]@.id == u32::MAX,
        r matches Err(e) ==> exists|i: int|
            0 <= i < known@.len() && #[trigger] known@[i]@.id == u32::MAX && e@ == "Parameter id out of range: "@
                + known@[i]@.name,
        r matches Ok(m) ==> {
            &&& m.spec_dict().wf()
            &&& m.spec_map() == Seq::<Option<u32>>::empty()
            &&& forall|i: int|
                0 <= i < known@.len() ==> has_name(m.spec_dict()@, #[trigger] known@[i]@.name) || has_id(
                    m.spec_dict()@,
                    known@[i]@.id,
                )
            &&& forall|j: int|
                0 <= j < m.spec_dict()@.len() ==> exists|i: int|
                    0 <= i < known@.len() && #[trigger] m.spec_dict()@[j] == bare_parameter(
                        known@[i]@.name,
                        known@[i]@.id,
                    )
        },
{
    proof {
        reveal_strlit("Parameter id out of range: ");
    }
    let mut m = ParameterIdMap::new();
    let mut i: usize = 0;
    while i < known.len()
        invariant
            i <= known@.len(),
            m.spec_dict().wf(),
            m.spec_map() == Seq::<Option<u32>>::empty(),
            forall|k: int| 0 <= k < i ==> #[trigger] known@[k]@.id != u32::MAX,
            forall|k: int|
                0 <= k < i ==> has_name(m.spec_dict()@, #[trigger] known@[k]@.name) || has_id(
                    m.spec_dict()@,
                    known@[k]@.id,
                ),
            forall|j: int|
                0 <= j < m.spec_dict()@.len() ==> exists|k: int|
                    0 <= k < i && #[trigger] m.spec_dict()@[j] == bare_parameter(known@[k]@.name, known@[k]@.id),
        decreases known@.len() - i,
    {
        let id = known[i].get_id();
        let name = known[i].get_name();
        if id == u32::MAX {
            return Err(String::from_str("Parameter id out of range: ").concat(name.as_str()));
        }
        let ghost before = m.spec_dict()@;
        let _ = m.get_dict_mut().add_with_id(name.as_str(), id);
        proof {
            let after = m.spec_dict()@;
            assert forall|k: int| 0 <= k < i + 1 implies has_name(after, #[trigger] known@[k]@.name) || has_id(
                after,
                known@[k]@.id,
            ) by {
                if k < i {
                    if has_name(before, known@[k]@.name) {
                        let w = choose|w: int| 0 <= w < before.len() && #[trigger] before[w].name == known@[k]@.name;
                        assert(after[w] == before[w]);
                    } else {
                        let w = choose|w: int| 0 <= w < before.len() && #[trigger] before[w].id == known@[k]@.id;
                        assert(after[w] == before[w]);
                    }
                } else if after.len() > before.len() {
                    assert(after[before.len() as int].name == known@[k]@.name);
                }
            }
            assert forall|j: int| 0 <= j < after.len() implies exists|k: int|
                0 <= k < i + 1 && #[trigger] after[j] == bare_parameter(known@[k]@.name, known@[k]@.id) by {
                if j < before.len() {
                    assert(after[j] == before[j]);
                    let k = choose|k: int| 0 <= k < i && #[trigger] before[j] == bare_parameter(known@[k]@.name, known@[k]@.id);
                    assert(0 <= k < i + 1 && after[j] == bare_parameter(known@[k]@.name, known@[k]@.id));
                } else {
                    assert(after[j] == bare_parameter(known@[i as int]@.name, known@[i as int]@.id));
                }
            }
        }
        i = i + 1;
    }
    assert(i == known@.len());
    assert forall|k: int| 0 <= k < known@.len() implies has_name(m.spec_dict()@, #[trigger] known@[k]@.name) || has_id(
        m.spec_dict()@,
        known@[k]@.id,
    ) by {}
    assert forall|j: int| 0 <= j < m.spec_dict()@.len() implies exists|k: int|
        0 <= k < known@.len() && #[trigger] m.spec_dict()@[j] == bare_parameter(known@[k]@.name, known@[k]@.id) by {
        let k = choose|k: int| 0 <= k < i && #[trigger] m.spec_dict()@[j] == bare_parameter(known@[k]@.name, known@[k]@.id);
        assert(0 <= k < known@.len() && m.spec_dict()@[j] == bare_parameter(known@[k]@.name, known@[k]@.id));
    }
    Ok(m)
}

/// Maps the id of the definition `def` onto the parameter of its name:
/// `Ok(true)` when done; `Ok(false)`, leaving the map as it is, when the
/// dictionary has no parameter of that name (or the id cannot index
/// memory), so the parameter is to be created; `Err` when the id is
/// already mapped onto another parameter.
pub fn map_definition(map: &mut ParameterIdMap, def: &ParameterDefinition) -> (r: Result<bool, String>)
    requires
        old(map).spec_dict().wf(),
    ensures
        final(map).spec_dict() == old(map).spec_dict(),
        (def.id >= usize::MAX || !has_name(old(map).spec_dict()@, def.name@)) ==> r == Ok::<bool, String>(false)
            && final(map).spec_map() == old(map).spec_map(),
        def.id < usize::MAX && has_name(old(map).spec_dict()@, def.name@) ==> exists|i: int|
            0 <= i < old(map).spec_dict()@.len() && old(map).spec_dict()@[i].name == def.name@ && {
                let id = old(map).spec_dict()@[i].id;
                let prior = mapping_of(old(map).spec_map(), def.id);
                let dup = prior is Some && prior->0 != id;
                &&& dup ==> {
                    &&& r matches Err(e) && e@ == "ProcessingThread failed to make a map due to duplication"@
                    &&& final(map).spec_map() == old(map).spec_map()
                }
                &&& !dup ==> {
                    &&& r == Ok::<bool, String>(true)
                    &&& forall|k: u32| #[trigger] mapping_of(final(map).spec_map(), k) == if k == def.id {
                        Some(id)
                    } else {
                        mapping_of(old(map).spec_map(), k)
                    }
                }
            },
        r is Ok && r->Ok_0 ==> maps_to_named(old(map).spec_dict()@, final(map).spec_map(), def.id, def.name@),
{
    proof {
        reveal_strlit("Duplicate Map");
        reveal_strlit("No Such parameter");
        reveal_strlit("Input id out of range");
        reveal_strlit("ProcessingThread failed to make a map due to duplication");
        assert("No Such parameter"@.len() != "Duplicate Map"@.len());
        assert("Input id out of range"@.len() != "Duplicate Map"@.len());
    }
    match map.map(def.id, def.name.as_str()) {
        Ok(_) => Ok(true),
        Err(reason) => {
            if reason == String::from_str("Duplicate Map") {
                Err(String::from_str("ProcessingThread failed to make a map due to duplication"))
            } else {
                Ok(false)
            }
        },
    }
}

/// The id the histogrammer gave the parameter `name` it has just created,
/// from its listing of `name` (`listed`): the id of the first parameter
/// listed.
pub fn created_id(name: &str, listed: ListResult) -> (r: Result<u32, String>)
    ensures
        listed matches Err(s) ==> (r matches Err(e) && e@ == "Just created parameter "@ + name@
            + " but failed to get its id: "@ + s@),
        listed matches Ok(v) ==> (v@.len() == 0 ==> (r matches Err(e) && e@ == "Just made parameter "@ + name@
            + " but got an empty list fetching it def"@)),
        listed matches Ok(v) ==> (v@.len() > 0 && v@[0]@.id == u32::MAX ==> (r matches Err(e) && e@
            == "Parameter id out of range: "@ + name@)),
        listed matches Ok(v) ==> (v@.len() > 0 && v@[0]@.id < u32::MAX ==> r == Ok::<u32, String>(v@[0]@.id)),
{
    proof {
        reveal_strlit("Just created parameter ");
        reveal_strlit(" but failed to get its id: ");
        reveal_strlit("Just made parameter ");
        reveal_strlit(" but got an empty list fetching it def");
        reveal_strlit("Parameter id out of range: ");
    }
    match listed {
        Err(s) => Err(
            String::from_str("Just created parameter ").concat(name).concat(" but failed to get its id: ").concat(
                s.as_str(),
            ),
        ),
        Ok(v) => {
            if v.len() == 0 {
                return Err(
                    String::from_str("Just made parameter ").concat(name).concat(
                        " but got an empty list fetching it def",
                    ),
                );
            }
            let id = v[0].get_id();
            if id == u32::MAX {
                Err(String::from_str("Parameter id out of range: ").concat(name))
            } else {
                Ok(id)
            }
        },
    }
}

/// Adds the parameter `name`, which the histogrammer has just created with
/// id `id`, to the dictionary (unless its name or id is there already) and
/// maps `input_id` onto it.  This succeeds unless `input_id` is mapped
/// already, or cannot index memory, or `id` belongs to another name; `Err`
/// then gives the reason.
pub fn add_created(map: &mut ParameterIdMap, input_id: u32, name: &str, id: u32) -> (r: Result<(), String>)
    requires
        old(map).spec_dict().wf(),
        id < u32::MAX,
    ensures
        final(map).spec_dict().wf(),
        final(map).spec_dict()@ == if has_name(old(map).spec_dict()@, name@) || has_id(old(map).spec_dict()@, id) {
            old(map).spec_dict()@
        } else {
            old(map).spec_dict()@.push(bare_parameter(name@, id))
        },
        r is Ok ==> {
            &&& maps_to_named(final(map).spec_dict()@, final(map).spec_map(), input_id, name@)
            &&& forall|k: u32| k != input_id ==> #[trigger] mapping_of(final(map).spec_map(), k) == mapping_of(
                old(map).spec_map(),
                k,
            )
            &&& mapping_of(old(map).spec_map(), input_id) is Some ==> mapping_of(final(map).spec_map(), input_id)
                == mapping_of(old(map).spec_map(), input_id)
        },
        r matches Err(e) ==> final(map).spec_map() == old(map).spec_map() && exists|reason: Seq<char>|
            e@ == "After creating parameter "@ + name@ + ", failed to make map entry "@ + reason,
        input_id < usize::MAX && mapping_of(old(map).spec_map(), input_id) is None && (has_name(
            old(map).spec_dict()@,
            name@,
        ) || !has_id(old(map).spec_dict()@, id)) ==> r is Ok,
{
    proof {
        reveal_strlit("After creating parameter ");
        reveal_strlit(", failed to make map entry ");
    }
    let ghost d0 = map.spec_dict()@;
    let _ = map.get_dict_mut().add_with_id(name, id);
    proof {
        if !(has_name(d0, name@) || has_id(d0, id)) {
            assert(map.spec_dict()@[d0.len() as int].name == name@);
        }
    }
    match map.map(input_id, name) {
        Ok(_) => Ok(()),
        Err(reason) => Err(
            String::from_str("After creating parameter ").concat(name).concat(", failed to make map entry ").concat(
                reason.as_str(),
            ),
        ),
    }
}

/// A mapping step that maps the id of definition `k` onto a parameter of
/// its name, in a dictionary that only grew, extends a map that sent the
/// first `k` definitions (and no other id) to parameters of their names to
/// one that does so for the first `k + 1`.
proof fn lemma_extend(
    d0: Seq<ParameterView>,
    m0: Seq<Option<u32>>,
    d1: Seq<ParameterView>,
    m1: Seq<Option<u32>>,
    defs: Seq<ParameterDefinition>,
    k: int,
)
    requires
        0 <= k < defs.len(),
        d0.len() <= d1.len(),
        forall|i: int| 0 <= i < d0.len() ==> #[trigger] d1[i] == d0[i],
        maps_definitions(d0, m0, defs, k),
        maps_only_definitions(m0, defs, k),
        maps_to_named(d1, m1, defs[k].id, defs[k].name@),
        forall|x: u32| x != defs[k].id ==> #[trigger] mapping_of(m1, x) == mapping_of(m0, x),
        mapping_of(m0, defs[k].id) is Some ==> mapping_of(m1, defs[k].id) == mapping_of(m0, defs[k].id),
    ensures
        maps_definitions(d1, m1, defs, k + 1),
        maps_only_definitions(m1, defs, k + 1),
{
    assert forall|j: int| 0 <= j < k + 1 implies maps_to_named(d1, m1, #[trigger] defs[j].id, defs[j].name@) by {
        if j < k {
            assert(maps_to_named(d0, m0, defs[j].id, defs[j].name@));
            let i = choose|i: int|
                0 <= i < d0.len() && #[trigger] d0[i].name == defs[j].name@ && mapping_of(m0, defs[j].id) == Some(
                    d0[i].id,
                );
            assert(d1[i] == d0[i]);
            assert(mapping_of(m1, defs[j].id) == mapping_of(m0, defs[j].id));
            assert(d1[i].name == defs[j].name@);
        }
    }
    assert forall|x: u32| #[trigger] mapping_of(m1, x) is Some implies exists|j: int| 0 <= j < k + 1 && defs[j].id == x by {
        if x == defs[k].id {
            assert(defs[k].id == x);
        } else {
            assert(mapping_of(m0, x) is Some);
            let j = choose|j: int| 0 <= j < k && defs[j].id == x;
            assert(0 <= j < k + 1 && defs[j].id == x);
        }
    }
}

/// The view of an optional string.
pub open spec fn opt_text(s: Option<String>) -> Option<Seq<char>> {
    match s {
        Some(v) => Some(v@),
        None => None,
    }
}

/// The view of a reply.
pub open spec fn reply_text(r: Reply) -> Result<Seq<char>, Seq<char>> {
    match r {
        Ok(s) => Ok(s@),
        Err(e) => Err(e@),
    }
}

/// `new` and `r` are what answering `request` makes of the thread `old`;
/// for `Attach`, `opened` is the outcome of opening the named source.
pub open spec fn request_served(
    old: ProcessingThread,
    request: RequestType,
    opened: Result<(), String>,
    new: ProcessingThread,
    r: Reply,
) -> bool {
    match request {
        RequestType::Attach(name) => match opened {
            Ok(_) => {
                &&& reply_text(r) == Ok::<Seq<char>, Seq<char>>(Seq::empty())
                &&& new.spec_attached() == Some(name@)
                &&& !new.spec_processing()
                &&& new.spec_chunk_size() == old.spec_chunk_size()
                &&& new.spec_keep_running() == old.spec_keep_running()
                &&& new.spec_ring_version() == old.spec_ring_version()
            },
            Err(e) => reply_text(r) == Err::<Seq<char>, Seq<char>>(e@) && new.spec_attached()
                == old.spec_attached() && new.spec_processing() == old.spec_processing() && new.spec_chunk_size() == old.spec_chunk_size()
                && new.spec_keep_running() == old.spec_keep_running()
                && new.spec_ring_version() == old.spec_ring_version(),
        },
        RequestType::Detach => {
            &&& new.spec_chunk_size() == old.spec_chunk_size()
            &&& new.spec_keep_running() == old.spec_keep_running()
            &&& new.spec_ring_version() == old.spec_ring_version()
            &&& old.spec_attached() is Some ==> reply_text(r) == Ok::<Seq<char>, Seq<char>>(
                Seq::empty(),
            ) && new.spec_attached() is None && !new.spec_processing()
            &&& old.spec_attached() is None ==> reply_text(r) == Err::<Seq<char>, Seq<char>>(
                "Not attached to a data source"@,
            ) && new.spec_attached() is None && new.spec_processing() == old.spec_processing()
        },
        RequestType::Start => {
            &&& new.spec_attached() == old.spec_attached()
            &&& new.spec_chunk_size() == old.spec_chunk_size()
            &&& new.spec_keep_running() == old.spec_keep_running()
            &&& new.spec_ring_version() == old.spec_ring_version()
            &&& old.spec_attached() is None ==> reply_text(r) == Err::<Seq<char>, Seq<char>>(
                "No file is attached"@,
            ) && new.spec_processing() == old.spec_processing()
            &&& old.spec_attached() is Some && old.spec_processing() ==> reply_text(r) == Err::<
                Seq<char>,
                Seq<char>,
            >("Already processing "@ + old.spec_attached()->0) && new.spec_processing()
            &&& old.spec_attached() is Some && !old.spec_processing() ==> reply_text(r) == Ok::<
                Seq<char>,
                Seq<char>,
            >("Processing begins"@) && new.spec_processing()
        },
        RequestType::Stop => {
            &&& new.spec_attached() == old.spec_attached()
            &&& new.spec_chunk_size() == old.spec_chunk_size()
            &&& new.spec_keep_running() == old.spec_keep_running()
            &&& new.spec_ring_version() == old.spec_ring_version()
            &&& !new.spec_processing()
            &&& old.spec_processing() ==> reply_text(r) == Ok::<Seq<char>, Seq<char>>(Seq::empty())
            &&& !old.spec_processing() ==> reply_text(r) == Err::<Seq<char>, Seq<char>>(
                "Not processing data"@,
            )
        },
        RequestType::ChunkSize(n) => {
            &&& reply_text(r) == Ok::<Seq<char>, Seq<char>>(Seq::empty())
            &&& new.spec_chunk_size() == n
            &&& new.spec_attached() == old.spec_attached()
            &&& new.spec_processing() == old.spec_processing()
            &&& new.spec_keep_running() == old.spec_keep_running()
            &&& new.spec_ring_version() == old.spec_ring_version()
        },
        RequestType::GetChunkSize => {
            &&& reply_text(r) == Ok::<Seq<char>, Seq<char>>(decimal(old.spec_chunk_size() as nat))
            &&& new == old
        },
        RequestType::Exit => {
            &&& reply_text(r) == Ok::<Seq<char>, Seq<char>>(Seq::empty())
            &&& !new.spec_keep_running()
            &&& new.spec_attached() == old.spec_attached()
            &&& new.spec_processing() == old.spec_processing()
            &&& new.spec_chunk_size() == old.spec_chunk_size()
            &&& new.spec_ring_version() == old.spec_ring_version()
        },
        RequestType::List => {
            &&& new == old
            &&& old.spec_attached() matches Some(n) ==> reply_text(r) == Ok::<Seq<char>, Seq<char>>(
                "file:"@ + n,
            )
            &&& old.spec_attached() is None ==> reply_text(r) == Ok::<Seq<char>, Seq<char>>(
                "Not Attached"@,
            )
        },
        RequestType::Version(v) => {
            &&& reply_text(r) == Ok::<Seq<char>, Seq<char>>(Seq::empty())
            &&& new.spec_ring_version() == v
            &&& new.spec_attached() == old.spec_attached()
            &&& new.spec_processing() == old.spec_processing()
            &&& new.spec_keep_running() == old.spec_keep_running()
            &&& new.spec_chunk_size() == old.spec_chunk_size()
        },
        RequestType::GetVersion => {
            &&& reply_text(r) == Ok::<Seq<char>, Seq<char>>(ring_version_text(old.spec_ring_version()))
            &&& new == old
        },
    }
}

impl ProcessingThread {
    /// The name of the attached data source.
    pub closed spec fn spec_attached(&self) -> Option<Seq<char>> {
        opt_text(self.attach_name)
    }

    /// The batch size.
    pub closed spec fn spec_chunk_size(&self) -> usize {
        self.chunk_size
    }

    /// Is data being analysed?
    pub closed spec fn spec_processing(&self) -> bool {
        self.processing
    }

    /// Should the thread go on running?
    pub closed spec fn spec_keep_running(&self) -> bool {
        self.keep_running
    }

    /// The ring item format version.
    pub closed spec fn spec_ring_version(&self) -> RingVersion {
        self.ring_version
    }

    /// The parameter id map.
    pub closed spec fn spec_mapping(&self) -> ParameterIdMap {
        self.parameter_mapping
    }

    /// The events waiting to be sent to the histogrammer.
    pub closed spec fn spec_chunk(&self) -> Seq<Seq<EventParameter>> {
        event_views(self.event_chunk@)
    }

    /// The dictionary of the map is well formed, and data is only ever
    /// analysed from an attached source.
    pub open spec fn wf(&self) -> bool {
        &&& self.spec_mapping().spec_dict().wf()
        &&& self.spec_processing() ==> self.spec_attached() is Some
    }

    /// A thread that is not attached, not processing, batches
    /// `DEFAULT_EVENT_CHUNKSIZE` events and reads version 11 ring items.
    pub fn new(api_chan: Sender<messaging::Request>) -> (r: ProcessingThread)
        ensures
            r.wf(),
            r.spec_attached() is None,
            r.spec_chunk_size() == DEFAULT_EVENT_CHUNKSIZE,
            !r.spec_processing(),
            r.spec_keep_running(),
            r.spec_ring_version() == RingVersion::V11,
            r.spec_chunk().len() == 0,
    {
        ProcessingThread {
            attach_name: None,
            chunk_size: DEFAULT_EVENT_CHUNKSIZE,
            processing: false,
            keep_running: true,
            ring_version: RingVersion::V11,
            parameter_mapping: ParameterIdMap::new(),
            event_chunk: Vec::new(),
            spectrum_api: SpectrumMessageClient::new(&api_chan),
            parameter_api: api_chan,
        }
    }

    /// Is data being analysed?
    pub fn is_processing(&self) -> (r: bool)
        ensures
            r == self.spec_processing(),
    {
        self.processing
    }

    /// Should the thread go on running?
    pub fn keep_running(&self) -> (r: bool)
        ensures
            r == self.spec_keep_running(),
    {
        self.keep_running
    }

    /// The ring item format version.
    pub fn ring_version(&self) -> (r: RingVersion)
        ensures
            r == self.spec_ring_version(),
    {
        self.ring_version
    }

    /// Answers a request.  For `Attach(name)`, `opened` is the outcome of
    /// opening `name` (done by the caller, which keeps the file): on
    /// success the source is attached and processing stops.  For the other
    /// requests `opened` is not looked at.
    pub fn process_request(&mut self, request: RequestType, opened: Result<(), String>) -> (r: Reply)
        requires
            old(self).wf(),
        ensures
            final(self).wf(),
            final(self).spec_mapping() == old(self).spec_mapping(),
            final(self).spec_chunk() == old(self).spec_chunk(),
            request_served(*old(self), request, opened, *final(self), r),
    {
        proof {
            reveal_strlit("Not attached to a data source");
            reveal_strlit("No file is attached");
            reveal_strlit("Already processing ");
            reveal_strlit("Processing begins");
            reveal_strlit("Not processing data");
            reveal_strlit("file:");
            reveal_strlit("Not Attached");
        }
        match request {
            RequestType::Attach(name) => match opened {
                Ok(_) => {
                    self.attach_name = Some(name);
                    self.processing = false;
                    Ok(String::new())
                },
                Err(e) => Err(e),
            },
            RequestType::Detach => {
                if self.attach_name.is_some() {
                    self.attach_name = None;
                    self.processing = false;
                    Ok(String::new())
                } else {
                    Err(String::from_str("Not attached to a data source"))
                }
            },
            RequestType::Start => {
                match &self.attach_name {
                    None => Err(String::from_str("No file is attached")),
                    Some(n) => {
                        if self.processing {
                            Err(String::from_str("Already processing ").concat(n.as_str()))
                        } else {
                            self.processing = true;
                            Ok(String::from_str("Processing begins"))
                        }
                    },
                }
            },
            RequestType::Stop => {
                if self.processing {
                    self.processing = false;
                    Ok(String::new())
                } else {
                    Err(String::from_str("Not processing data"))
                }
            },
            RequestType::ChunkSize(n) => {
                self.chunk_size = n;
                Ok(String::new())
            },
            RequestType::GetChunkSize => Ok(usize_text(self.chunk_size)),
            RequestType::Exit => {
                self.keep_running = false;
                Ok(String::new())
            },
            RequestType::List => {
                match &self.attach_name {
                    Some(s) => Ok(String::from_str("file:").concat(s.as_str())),
                    None => Ok(String::from_str("Not Attached")),
                }
            },
            RequestType::Version(v) => {
                self.ring_version = v;
                Ok(String::new())
            },
            RequestType::GetVersion => Ok(self.ring_version.to_text()),
        }
    }

    /// The state that requests and events see: everything but the
    /// parameter map.
    pub open spec fn same_run_state(&self, other: &ProcessingThread) -> bool {
        &&& self.spec_attached() == other.spec_attached()
        &&& self.spec_processing() == other.spec_processing()
        &&& self.spec_keep_running() == other.spec_keep_running()
        &&& self.spec_chunk_size() == other.spec_chunk_size()
        &&& self.spec_ring_version() == other.spec_ring_version()
        &&& self.spec_chunk() == other.spec_chunk()
    }

    /// Makes the parameter map anew for the parameter definitions `defs` of
    /// the data source.  The dictionary is stocked with the parameters the
    /// histogrammer lists; a definition whose name is not mapped yet is
    /// created in the histogrammer, and its new id is added.
    ///
    /// The steps are `stock_map` (on the histogrammer's listing of `*`),
    /// then, for each definition, `map_definition`, and for a name that is
    /// not stocked, the creation of the parameter in the histogrammer,
    /// `created_id` (on its listing of the name) and `add_created`.
    ///
    /// On success the id of each definition is mapped to the id of a
    /// parameter of the dictionary with the definition's name, and no other
    /// id is mapped; the dictionary is the stock followed by parameters
    /// named by definitions that the stock lacks (those created).  `Err` when the histogrammer fails or refuses a
    /// request, or when a definition's id is already mapped to another
    /// parameter.
    pub fn rebuild_parameter_map(&mut self, defs: &Vec<ParameterDefinition>) -> (r: Result<(), String>)
        requires
            old(self).wf(),
        ensures
            final(self).wf(),
            final(self).same_run_state(&*old(self)),
            r is Ok ==> {
                &&& maps_definitions(
                    final(self).spec_mapping().spec_dict()@,
                    final(self).spec_mapping().spec_map(),
                    defs@,
                    defs@.len() as int,
                )
                &&& maps_only_definitions(final(self).spec_mapping().spec_map(), defs@, defs@.len() as int)
                &&& exists|n: int| #[trigger] created_beyond(final(self).spec_mapping().spec_dict()@, n, defs@)
            },
    {
        self.parameter_mapping = ParameterIdMap::new();
        let (rep_send, rep_recv) = new_channel::<messaging::Reply>();
        let known = match list_parameters(clone_sender(&self.parameter_api), rep_send, rep_recv, "*") {
            Ok(v) => v,
            Err(e) => {
                return Err(String::from_str("Could not get parameter defs from histogram thread: ").concat(e.as_str()));
            },
        };
        match stock_map(&known) {
            Ok(m) => {
                self.parameter_mapping = m;
            },
            Err(e) => {
                return Err(e);
            },
        }
        let ghost stock = self.parameter_mapping.spec_dict()@;
        proof {
            assert(self.spec_mapping().spec_dict()@.take(stock.len() as int) =~= stock);
        }
        let mut k: usize = 0;
        while k < defs.len()
            invariant
                k <= defs@.len(),
                self.wf(),
                self.same_run_state(&*old(self)),
                maps_definitions(self.spec_mapping().spec_dict()@, self.spec_mapping().spec_map(), defs@, k as int),
                maps_only_definitions(self.spec_mapping().spec_map(), defs@, k as int),
                stock.len() <= self.spec_mapping().spec_dict()@.len(),
                self.spec_mapping().spec_dict()@.take(stock.len() as int) == stock,
                created_beyond(self.spec_mapping().spec_dict()@, stock.len() as int, defs@),
            decreases defs@.len() - k,
        {
            let def = &defs[k];
            let ghost before = self.parameter_mapping;
            match map_definition(&mut self.parameter_mapping, def) {
                Ok(true) => {
                    proof {
                        lemma_extend(
                            before.spec_dict()@,
                            before.spec_map(),
                            self.parameter_mapping.spec_dict()@,
                            self.parameter_mapping.spec_map(),
                            defs@,
                            k as int,
                        );
                    }
                },
                Ok(false) => {
                    let new_id = match self.create_remote_parameter(def.name.as_str()) {
                        Ok(n) => n,
                        Err(e) => {
                            return Err(e);
                        },
                    };
                    let ghost before2 = self.parameter_mapping;
                    match add_created(&mut self.parameter_mapping, def.id, def.name.as_str(), new_id) {
                        Ok(()) => {
                            proof {
                                let d0 = before2.spec_dict()@;
                                let d1 = self.parameter_mapping.spec_dict()@;
                                assert forall|i: int| 0 <= i < d0.len() implies #[trigger] d1[i] == d0[i] by {}
                                lemma_extend(d0, before2.spec_map(), d1, self.parameter_mapping.spec_map(), defs@, k as int);
                                assert(d1.take(stock.len() as int) =~= stock);
                                assert forall|i: int| stock.len() <= i < d1.len() implies (exists|j: int|
                                    0 <= j < defs@.len() && #[trigger] defs@[j].name@ == d1[i].name) && !has_name(
                                    #[trigger] d1.take(stock.len() as int),
                                    d1[i].name,
                                ) by {
                                    if i < d0.len() {
                                        assert(d1[i] == d0[i]);
                                        assert(d0.take(stock.len() as int) == stock);
                                    } else {
                                        assert(defs@[k as int].name@ == d1[i].name);
                                        if has_name(stock, d1[i].name) {
                                            let w = choose|w: int| 0 <= w < stock.len() && #[trigger] stock[w].name == d1[i].name;
                                            assert(d0[w] == stock[w]);
                                            assert(has_name(d0, d1[i].name));
                                        }
                                    }
                                }
                            }
                        },
                        Err(e) => {
                            return Err(e);
                        },
                    }
                },
                Err(e) => {
                    return Err(e);
                },
            }
            k = k + 1;
        }
        proof {
            assert(created_beyond(self.spec_mapping().spec_dict()@, stock.len() as int, defs@));
        }
        Ok(())
    }

    /// Creates the parameter `name` in the histogrammer and gives back the
    /// id it was given there.
    fn create_remote_parameter(&self, name: &str) -> (r: Result<u32, String>)
        ensures
            r matches Ok(id) ==> id < u32::MAX,
    {
        let (rep_send, rep_recv) = new_channel::<messaging::Reply>();
        if let Err(s) = create_parameter(clone_sender(&self.parameter_api), rep_send, rep_recv, name) {
            return Err(String::from_str("Failed to create new parameter ").concat(name).concat(" : ").concat(s.as_str()));
        }
        let (rep_send, rep_recv) = new_channel::<messaging::Reply>();
        let listed = list_parameters(clone_sender(&self.parameter_api), rep_send, rep_recv, name);
        created_id(name, listed)
    }

    /// Handles one item of the data source: definitions rebuild the
    /// parameter map, data is added to the batch (a full batch is sent to
    /// the histogrammer), other items are skipped, and an unreadable source
    /// stops processing.
    pub fn take_item(&mut self, item: SourceItem) -> (r: Result<(), String>)
        requires
            old(self).wf(),
        ensures
            final(self).wf(),
            match item {
                SourceItem::Definitions(defs) => {
                    &&& final(self).same_run_state(&*old(self))
                    &&& r is Ok ==> {
                        &&& maps_definitions(
                            final(self).spec_mapping().spec_dict()@,
                            final(self).spec_mapping().spec_map(),
                            defs@,
                            defs@.len() as int,
                        )
                        &&& maps_only_definitions(final(self).spec_mapping().spec_map(), defs@, defs@.len() as int)
                    }
                },
                SourceItem::Data(e) => {
                    let batch = old(self).spec_chunk().push(mapped_event(old(self).spec_mapping().spec_map(), e@));
                    &&& batch.len() >= old(self).spec_chunk_size() ==> final(self).spec_chunk().len() == 0
                    &&& batch.len() < old(self).spec_chunk_size() ==> r is Ok && final(self).spec_chunk() == batch
                    &&& final(self).spec_mapping() == old(self).spec_mapping()
                    &&& final(self).spec_attached() == old(self).spec_attached()
                    &&& final(self).spec_processing() == old(self).spec_processing()
                    &&& final(self).spec_keep_running() == old(self).spec_keep_running()
                    &&& final(self).spec_chunk_size() == old(self).spec_chunk_size()
                },
                SourceItem::Other => r is Ok && *final(self) == *old(self),
                SourceItem::Unreadable => {
                    &&& r is Ok
                    &&& !final(self).spec_processing()
                    &&& final(self).spec_mapping() == old(self).spec_mapping()
                    &&& final(self).spec_attached() == old(self).spec_attached()
                    &&& final(self).spec_keep_running() == old(self).spec_keep_running()
                    &&& final(self).spec_chunk_size() == old(self).spec_chunk_size()
                    &&& final(self).spec_chunk() == old(self).spec_chunk()
                },
            },
    {
        match item {
            SourceItem::Definitions(defs) => self.rebuild_parameter_map(&defs),
            SourceItem::Data(e) => self.process_event(&e),
            SourceItem::Other => Ok(()),
            SourceItem::Unreadable => {
                self.end_of_data();
                Ok(())
            },
        }
    }

    /// The data source ended or could not be read: processing stops.
    pub fn end_of_data(&mut self)
        requires
            old(self).wf(),
        ensures
            final(self).wf(),
            final(self).spec_ring_version() == old(self).spec_ring_version(),
            !final(self).spec_processing(),
            final(self).spec_attached() == old(self).spec_attached(),
            final(self).spec_keep_running() == old(self).spec_keep_running(),
            final(self).spec_chunk_size() == old(self).spec_chunk_size(),
            final(self).spec_mapping() == old(self).spec_mapping(),
            final(self).spec_chunk() == old(self).spec_chunk(),
    {
        self.processing = false;
    }

    /// Every client is gone: the thread stops and the source is closed.
    pub fn disconnected(&mut self)
        requires
            old(self).wf(),
        ensures
            final(self).wf(),
            final(self).spec_ring_version() == old(self).spec_ring_version(),
            !final(self).spec_processing(),
            !final(self).spec_keep_running(),
            final(self).spec_attached() is None,
            final(self).spec_chunk_size() == old(self).spec_chunk_size(),
            final(self).spec_mapping() == old(self).spec_mapping(),
            final(self).spec_chunk() == old(self).spec_chunk(),
    {
        self.processing = false;
        self.keep_running = false;
        self.attach_name = None;
    }

    /// Takes the events waiting to be sent to the histogrammer.
    pub fn take_batch(&mut self) -> (r: Vec<Event>)
        requires
            old(self).wf(),
        ensures
            final(self).wf(),
            final(self).spec_ring_version() == old(self).spec_ring_version(),
            event_views(r@) == old(self).spec_chunk(),
            final(self).spec_chunk().len() == 0,
            final(self).spec_attached() == old(self).spec_attached(),
            final(self).spec_processing() == old(self).spec_processing(),
            final(self).spec_keep_running() == old(self).spec_keep_running(),
            final(self).spec_chunk_size() == old(self).spec_chunk_size(),
            final(self).spec_mapping() == old(self).spec_mapping(),
    {
        let mut taken: Vec<Event> = Vec::new();
        std::mem::swap(&mut taken, &mut self.event_chunk);
        taken
    }

    /// Adds the event `raw` (ids of the data source) to the batch, mapped
    /// into the histogrammer's ids.  When the batch reaches the batch size
    /// it is taken and returned, to be sent to the histogrammer.
    pub fn add_event(&mut self, raw: &Event) -> (r: Option<Vec<Event>>)
        requires
            old(self).wf(),
        ensures
            final(self).wf(),
            final(self).spec_ring_version() == old(self).spec_ring_version(),
            ({
                let batch = old(self).spec_chunk().push(mapped_event(old(self).spec_mapping().spec_map(), raw@));
                &&& batch.len() >= old(self).spec_chunk_size() ==> (r matches Some(v) && event_views(v@) == batch
                    && final(self).spec_chunk().len() == 0)
                &&& batch.len() < old(self).spec_chunk_size() ==> r is None && final(self).spec_chunk() == batch
            }),
            final(self).spec_attached() == old(self).spec_attached(),
            final(self).spec_processing() == old(self).spec_processing(),
            final(self).spec_keep_running() == old(self).spec_keep_running(),
            final(self).spec_chunk_size() == old(self).spec_chunk_size(),
            final(self).spec_mapping() == old(self).spec_mapping(),
    {
        let event = self.parameter_mapping.map_event(raw);
        self.event_chunk.push(event);
        proof {
            assert(event_views(self.event_chunk@) =~= event_views(old(self).event_chunk@).push(event@));
        }
        if self.event_chunk.len() >= self.chunk_size {
            Some(self.take_batch())
        } else {
            None
        }
    }

    /// Sends the batch that `batch_to_send` gives (if any) to the
    /// histogrammer's spectra; the batch is emptied whatever the
    /// histogrammer answers.
    pub fn flush_events(&mut self) -> (r: Result<(), String>)
        requires
            old(self).wf(),
        ensures
            final(self).wf(),
            final(self).spec_chunk().len() == 0,
            old(self).spec_chunk().len() == 0 ==> r is Ok,
            final(self).spec_ring_version() == old(self).spec_ring_version(),
            final(self).spec_attached() == old(self).spec_attached(),
            final(self).spec_processing() == old(self).spec_processing(),
            final(self).spec_keep_running() == old(self).spec_keep_running(),
            final(self).spec_chunk_size() == old(self).spec_chunk_size(),
            final(self).spec_mapping() == old(self).spec_mapping(),
    {
        match self.batch_to_send() {
            Some(batch) => self.spectrum_api.process_events(batch.as_slice()),
            None => Ok(()),
        }
    }

    /// The batch that a flush sends to the histogrammer: the events waiting,
    /// all of them, in order; `None` (nothing is sent) when there are none.
    /// The batch is emptied.
    pub fn batch_to_send(&mut self) -> (r: Option<Vec<Event>>)
        requires
            old(self).wf(),
        ensures
            final(self).wf(),
            old(self).spec_chunk().len() == 0 ==> r is None,
            old(self).spec_chunk().len() > 0 ==> (r matches Some(v) && event_views(v@) == old(self).spec_chunk()),
            final(self).spec_chunk().len() == 0,
            final(self).spec_ring_version() == old(self).spec_ring_version(),
            final(self).spec_attached() == old(self).spec_attached(),
            final(self).spec_processing() == old(self).spec_processing(),
            final(self).spec_keep_running() == old(self).spec_keep_running(),
            final(self).spec_chunk_size() == old(self).spec_chunk_size(),
            final(self).spec_mapping() == old(self).spec_mapping(),
    {
        let batch = self.take_batch();
        if batch.len() == 0 {
            None
        } else {
            Some(batch)
        }
    }

    /// Adds the event `raw` (see `add_event`); a full batch is sent to the
    /// histogrammer's spectra.
    pub fn process_event(&mut self, raw: &Event) -> (r: Result<(), String>)
        requires
            old(self).wf(),
        ensures
            final(self).wf(),
            final(self).spec_ring_version() == old(self).spec_ring_version(),
            ({
                let batch = old(self).spec_chunk().push(mapped_event(old(self).spec_mapping().spec_map(), raw@));
                &&& batch.len() >= old(self).spec_chunk_size() ==> final(self).spec_chunk().len() == 0
                &&& batch.len() < old(self).spec_chunk_size() ==> r is Ok && final(self).spec_chunk() == batch
            }),
            final(self).spec_attached() == old(self).spec_attached(),
            final(self).spec_processing() == old(self).spec_processing(),
            final(self).spec_keep_running() == old(self).spec_keep_running(),
            final(self).spec_chunk_size() == old(self).spec_chunk_size(),
            final(self).spec_mapping() == old(self).spec_mapping(),
    {
        match self.add_event(raw) {
            Some(batch) => self.spectrum_api.process_events(batch.as_slice()),
            None => Ok(()),
        }
    }
}

/// Analysis begins only on a `Start` request, and only for a thread that
/// is attached to a data source; the request is then answered with success.
pub proof fn law_processing_begins_only_on_start(
    old: ProcessingThread,
    request: RequestType,
    opened: Result<(), String>,
    new: ProcessingThread,
    r: Reply,
)
    requires
        request_served(old, request, opened, new, r),
        !old.spec_processing(),
        new.spec_processing(),
    ensures
        request is Start,
        old.spec_attached() is Some,
        r is Ok,
{
}

/// A `Stop`, a `Detach`, or an `Attach` whose source could be opened leaves
/// the thread not analysing data.
pub proof fn law_source_change_stops_processing(
    old: ProcessingThread,
    request: RequestType,
    opened: Result<(), String>,
    new: ProcessingThread,
    r: Reply,
)
    requires
        old.wf(),
        request_served(old, request, opened, new, r),
        request is Stop || request is Detach || (request is Attach && opened is Ok),
    ensures
        !new.spec_processing(),
{
}

/// What a batch size is set to is what is then asked back: the reply
/// writes it in decimal (which `batching_from_reply` reads back).
pub proof fn law_batching_round_trip(
    t0: ProcessingThread,
    n: usize,
    o1: Result<(), String>,
    t1: ProcessingThread,
    r1: Reply,
    o2: Result<(), String>,
    t2: ProcessingThread,
    r2: Reply,
)
    requires
        request_served(t0, RequestType::ChunkSize(n), o1, t1, r1),
        request_served(t1, RequestType::GetChunkSize, o2, t2, r2),
    ensures
        r1 is Ok,
        reply_text(r2) == Ok::<Seq<char>, Seq<char>>(decimal(n as nat)),
{
}

/// The ring version that is set is the one then asked back.
pub proof fn law_ring_version_round_trip(
    t0: ProcessingThread,
    v: RingVersion,
    o1: Result<(), String>,
    t1: ProcessingThread,
    r1: Reply,
    o2: Result<(), String>,
    t2: ProcessingThread,
    r2: Reply,
)
    requires
        request_served(t0, RequestType::Version(v), o1, t1, r1),
        request_served(t1, RequestType::GetVersion, o2, t2, r2),
    ensures
        r1 is Ok,
        reply_text(r2) == Ok::<Seq<char>, Seq<char>>(ring_version_text(v)),
{
}

/// A source that was attached is the one listed; after a detach none is.
pub proof fn law_attach_detach_list(
    t0: ProcessingThread,
    name: String,
    o1: Result<(), String>,
    t1: ProcessingThread,
    r1: Reply,
    o2: Result<(), String>,
    t2: ProcessingThread,
    r2: Reply,
    o3: Result<(), String>,
    t3: ProcessingThread,
    r3: Reply,
    o4: Result<(), String>,
    t4: ProcessingThread,
    r4: Reply,
)
    requires
        o1 is Ok,
        request_served(t0, RequestType::Attach(name), o1, t1, r1),
        request_served(t1, RequestType::List, o2, t2, r2),
        request_served(t2, RequestType::Detach, o3, t3, r3),
        request_served(t3, RequestType::List, o4, t4, r4),
    ensures
        reply_text(r2) == Ok::<Seq<char>, Seq<char>>("file:"@ + name@),
        r3 is Ok,
        !t3.spec_processing(),
        reply_text(r4) == Ok::<Seq<char>, Seq<char>>("Not Attached"@),
{
}

/// Analysis of an attached source starts on `Start` and stops on `Stop`,
/// each answered with success.
pub proof fn law_start_then_stop(
    t0: ProcessingThread,
    o1: Result<(), String>,
    t1: ProcessingThread,
    r1: Reply,
    o2: Result<(), String>,
    t2: ProcessingThread,
    r2: Reply,
)
    requires
        t0.spec_attached() is Some,
        !t0.spec_processing(),
        request_served(t0, RequestType::Start, o1, t1, r1),
        request_served(t1, RequestType::Stop, o2, t2, r2),
    ensures
        t1.spec_processing(),
        reply_text(r1) == Ok::<Seq<char>, Seq<char>>("Processing begins"@),
        r2 is Ok,
        !t2.spec_processing(),
        t2.spec_attached() == t0.spec_attached(),
{
}

} // verus!
