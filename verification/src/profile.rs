//! Vehicle profiles: what to ask the car for and how to read its answers.
//!
//! A profile is a list of sources. A source is either a UDS request that the
//! car answers, or a spell of passive listening on the bus.

use crate::adapter::elm327::texts;
use crate::metrics::Single;
use crate::text::join;
use vstd::prelude::*;

verus! {

/// Where a metric stands in a payload and how it is scaled.
#[derive(Debug, Clone)]
pub struct FieldSpec {
    pub name: String,
    /// First byte of a byte-aligned field; negative counts from the end.
    pub byte_index: Option<i32>,
    /// Number of bytes of a byte-aligned field.
    pub length: Option<usize>,
    /// First bit of a packed field.
    pub bit_offset: Option<u32>,
    /// Number of bits of a packed field.
    pub bit_length: Option<u32>,
    pub multiplier: Single,
    pub offset: Single,
    pub signed: Option<bool>,
}

/// An active request and the fields of its answer.
#[derive(Debug, Clone)]
pub struct UdsPidSource {
    pub ecu_tx: String,
    pub ecu_rx: String,
    pub pid: String,
    pub pre_request: Option<String>,
    pub multiframe: bool,
    pub fields: Vec<FieldSpec>,
}

/// The fields of the frames with one bus identifier.
#[derive(Debug, Clone)]
pub struct BroadcastFrame {
    pub can_id: String,
    pub fields: Vec<FieldSpec>,
}

/// A spell of passive listening.
#[derive(Debug, Clone)]
pub struct BroadcastSource {
    pub init: Vec<String>,
    pub command: String,
    pub deadline_ms: u64,
    pub idle_timeout_ms: u64,
    pub stop_when: Vec<String>,
    pub frames: Vec<BroadcastFrame>,
}

#[derive(Debug, Clone)]
pub enum Source {
    UdsPid(UdsPidSource),
    Broadcast(BroadcastSource),
}

/// Initialisation commands that replace the default ones.
#[derive(Debug, Clone)]
pub struct Elm327Override {
    pub init: Option<Vec<String>>,
}

#[derive(Debug, Clone)]
pub struct VehicleProfile {
    pub name: String,
    pub elm327: Option<Elm327Override>,
    pub sources: Vec<Source>,
}

/// The multiplier of a field that names none: one.
pub fn default_multiplier() -> (r: Single)
    ensures
        r == (Single { bits: 0x3f80_0000 }),
{
    Single { bits: 0x3f80_0000 }
}

/// The commands before listening, where a source names none.
pub fn default_broadcast_init() -> (r: Vec<String>)
    ensures
        texts(r@) == seq!["ATCRA"@, "ATH1"@, "ATS1"@],
{
    let mut out: Vec<String> = Vec::new();
    out.push("ATCRA".to_owned());
    out.push("ATH1".to_owned());
    out.push("ATS1".to_owned());
    assert(texts(out@) =~= seq!["ATCRA"@, "ATH1"@, "ATS1"@]);
    out
}

/// The command that starts listening, where a source names none.
pub fn default_broadcast_command() -> (r: String)
    ensures
        r@ == "ATMA"@,
{
    "ATMA".to_owned()
}

/// How long to listen at most, where a source does not say.
pub fn default_deadline_ms() -> (r: u64)
    ensures
        r == 6000,
{
    6000
}

/// How long to wait for a frame, where a source does not say.
pub fn default_idle_timeout_ms() -> (r: u64)
    ensures
        r == 600,
{
    600
}

/// What `str::to_lowercase` makes of a text.
pub uninterp spec fn lowercase_of(text: Seq<char>) -> Seq<char>;

/// Calls `str::to_lowercase`, which gives the lowercase equivalent of a text.
#[verifier::external_body]
fn lowercase(text: &str) -> (r: String)
    ensures
        r@ == lowercase_of(text@),
{
    text.to_lowercase()
}

/// The file of a profile whose name is in lower case.
pub fn profile_file(name: &str) -> (r: String)
    ensures
        r@ == "/etc/aa-proxy-obd/"@ + name@ + ".json"@,
{
    let mut s = join("/etc/aa-proxy-obd/", name);
    s.append(".json");
    s
}

/// The file of a vehicle's profile: its name in lower case.
pub fn profile_path(car_name: &str) -> (r: String)
    ensures
        r@ == "/etc/aa-proxy-obd/"@ + lowercase_of(car_name@) + ".json"@,
{
    profile_file(lowercase(car_name).as_str())
}

} // verus!
