//! The provider: one object the host polls. It runs discovery, gives every
//! discovered radar a controller of its brand (chosen from the announced
//! model), polls every controller, and dispatches generic control requests.
use vstd::prelude::*;
use crate::capabilities::ControlError;
use crate::furuno::{command_text, flag, main_bang_value, CommandId, CommandMode};
use crate::furuno_controller::FurunoController;
use crate::io::IoProvider;
use crate::locator::{
    clone_text, ip_text, opt_text, Brand, Decoded, DiscoveredRadar, LocatorSocket,
    RadarDiscovery, RadarLocator,
};
use crate::navico::Model;
use crate::navico_controller::NavicoController;
use crate::raymarine::{RaymarineController, RaymarineVariant};
use crate::text::{contains_text, has_sub, same_text};

verus! {

/// The controller of one radar.
pub enum RadarController {
    Furuno(FurunoController),
    Navico(NavicoController),
    Raymarine(RaymarineController),
}

pub open spec fn controller_brand(c: RadarController) -> Brand {
    match c {
        RadarController::Furuno(_) => Brand::Furuno,
        RadarController::Navico(_) => Brand::Navico,
        RadarController::Raymarine(_) => Brand::Raymarine,
    }
}

pub open spec fn controller_wf(c: RadarController) -> bool {
    match c {
        RadarController::Furuno(f) => f.wf(),
        RadarController::Navico(n) => n.wf(),
        RadarController::Raymarine(r) => r.wf(),
    }
}

/// Navico model from an announced model name: HALO, 4G, 3G, BR24 when the
/// name contains it (in that order), else 4G.
pub open spec fn navico_model_for(name: Option<Seq<char>>) -> Model {
    match name {
        Some(m) => if has_sub(m, "HALO"@) {
            Model::HALO
        } else if has_sub(m, "4G"@) {
            Model::Gen4
        } else if has_sub(m, "3G"@) {
            Model::Gen3
        } else if has_sub(m, "BR24"@) {
            Model::BR24
        } else {
            Model::Gen4
        },
        None => Model::Gen4,
    }
}

/// Raymarine family and Doppler from an announced model name: "Quantum 2"
/// is a Doppler Quantum, "Quantum" a Quantum, anything else RD.
pub open spec fn raymarine_kind_for(name: Option<Seq<char>>) -> (RaymarineVariant, bool) {
    match name {
        Some(m) => if has_sub(m, "Quantum 2"@) {
            (RaymarineVariant::Quantum, true)
        } else if has_sub(m, "Quantum"@) {
            (RaymarineVariant::Quantum, false)
        } else {
            (RaymarineVariant::RD, false)
        },
        None => (RaymarineVariant::RD, false),
    }
}

/// Whether a controller was set up as the announced model asks.
pub open spec fn follows_model(c: RadarController, d: RadarDiscovery) -> bool {
    match c {
        RadarController::Furuno(_) => true,
        RadarController::Navico(n) => n.model_spec() == navico_model_for(opt_text(d.model)),
        RadarController::Raymarine(r) => r.variant_spec() == raymarine_kind_for(opt_text(d.model)).0
            && r.has_doppler_spec() == raymarine_kind_for(opt_text(d.model)).1,
    }
}

pub open spec fn brand_initial(b: Brand) -> char {
    match b {
        Brand::Furuno => 'F',
        Brand::Navico => 'N',
        Brand::Raymarine => 'R',
        Brand::Garmin => 'G',
    }
}

/// A radar's id starts with its brand's initial.
proof fn lemma_id_initial(d: RadarDiscovery)
    ensures
        crate::locator::radar_id(d).len() > 0,
        crate::locator::radar_id(d)[0] == brand_initial(d.brand),
{
    reveal_strlit("Furuno");
    reveal_strlit("Navico");
    reveal_strlit("Raymarine");
    reveal_strlit("Garmin");
    reveal_strlit("-");
    let b = crate::locator::brand_name(d.brand);
    assert((b + "-"@ + d.name@)[0] == b[0]);
}

/// A radar's controller, keyed by the radar's id.
pub struct ControllerEntry {
    pub id: String,
    pub controller: RadarController,
}

pub open spec fn entry_ids_unique(c: Seq<ControllerEntry>) -> bool {
    forall|a: int, b: int| 0 <= a < b < c.len() ==> c[a].id@ != c[b].id@
}

/// Each controller's id starts with the initial of the controller's brand.
pub open spec fn entry_initials(c: Seq<ControllerEntry>) -> bool {
    forall|j: int| 0 <= j < c.len() ==> (#[trigger] c[j]).id@.len() > 0 && c[j].id@[0] == brand_initial(controller_brand(c[j].controller))
}

/// Navico groups used when the beacon gives none.
pub const NAVICO_COMMAND_GROUP: &'static str = "236.6.7.8";
pub const NAVICO_REPORT_GROUP: &'static str = "236.6.7.9";
pub const NAVICO_REPORT_PORT: u16 = 6680;

fn navico_model_from(model: &Option<String>) -> (m: Model)
    ensures
        m == navico_model_for(opt_text(*model)),
{
    match model {
        Some(s) => {
            if contains_text(s.as_str(), "HALO") {
                Model::HALO
            } else if contains_text(s.as_str(), "4G") {
                Model::Gen4
            } else if contains_text(s.as_str(), "3G") {
                Model::Gen3
            } else if contains_text(s.as_str(), "BR24") {
                Model::BR24
            } else {
                Model::Gen4
            }
        },
        None => Model::Gen4,
    }
}

fn raymarine_kind_from(model: &Option<String>) -> (k: (RaymarineVariant, bool))
    ensures
        k == raymarine_kind_for(opt_text(*model)),
{
    match model {
        Some(s) => {
            if contains_text(s.as_str(), "Quantum 2") {
                (RaymarineVariant::Quantum, true)
            } else if contains_text(s.as_str(), "Quantum") {
                (RaymarineVariant::Quantum, false)
            } else {
                (RaymarineVariant::RD, false)
            }
        },
        None => (RaymarineVariant::RD, false),
    }
}

/// A new controller for a Furuno, Navico or Raymarine radar.
fn make_controller(r: &DiscoveredRadar) -> (c: RadarController)
    requires
        r.discovery.brand != Brand::Garmin,
    ensures
        controller_wf(c),
        controller_brand(c) == r.discovery.brand,
        follows_model(c, r.discovery),
{
    let ip = ip_text(r.discovery.address.as_str());
    match r.discovery.brand {
        Brand::Furuno => RadarController::Furuno(FurunoController::new(ip.as_str())),
        Brand::Navico => RadarController::Navico(NavicoController::new(
            NAVICO_COMMAND_GROUP,
            r.discovery.command_port,
            NAVICO_REPORT_GROUP,
            NAVICO_REPORT_PORT,
            navico_model_from(&r.discovery.model),
        )),
        _ => {
            let (variant, doppler) = raymarine_kind_from(&r.discovery.model);
            RadarController::Raymarine(RaymarineController::new(
                r.id.as_str(),
                ip.as_str(),
                r.discovery.command_port,
                ip.as_str(),
                r.discovery.data_port,
                variant,
                doppler,
            ))
        },
    }
}

fn has_controller(entries: &Vec<ControllerEntry>, id: &String) -> (r: bool)
    ensures
        r == exists|j: int| 0 <= j < entries@.len() && (#[trigger] entries@[j]).id@ == id@,
{
    let mut j: usize = 0;
    while j < entries.len()
        invariant
            j <= entries@.len(),
            forall|k: int| 0 <= k < j ==> (#[trigger] entries@[k]).id@ != id@,
        decreases entries@.len() - j,
    {
        if same_text(entries[j].id.as_str(), id.as_str()) {
            return true;
        }
        j = j + 1;
    }
    false
}

/// Polls one controller.
fn poll_controller<I: IoProvider>(c: &mut RadarController, io: &mut I)
    requires
        controller_wf(*old(c)),
    ensures
        controller_wf(*final(c)),
        controller_brand(*final(c)) == controller_brand(*old(c)),
        forall|d: RadarDiscovery| follows_model(*old(c), d) ==> follows_model(*final(c), d),
{
    match c {
        RadarController::Furuno(f) => {
            f.poll(io);
        },
        RadarController::Navico(n) => {
            n.poll(io);
        },
        RadarController::Raymarine(r) => {
            r.poll(io);
        },
    }
}

/// Controller ids are distinct, each starts with its brand's initial, and
/// every controller is well formed.
pub open spec fn entries_ok(c: Seq<ControllerEntry>) -> bool {
    &&& entry_ids_unique(c)
    &&& entry_initials(c)
    &&& forall|j: int| 0 <= j < c.len() ==> controller_wf(#[trigger] c[j].controller)
}

/// A Furuno, Navico or Raymarine radar has a controller of its brand under
/// its id (a Garmin radar needs none).
pub open spec fn covered(c: Seq<ControllerEntry>, r: DiscoveredRadar) -> bool {
    r.discovery.brand != Brand::Garmin ==> exists|j: int| 0 <= j < c.len() && (#[trigger] c[j]).id@ == r.id@
        && controller_brand(c[j].controller) == r.discovery.brand
}

/// A controller belongs to a known radar and was set up as its announced
/// model asks.
pub open spec fn explained(e: ControllerEntry, radars: Seq<DiscoveredRadar>) -> bool {
    exists|k: int| 0 <= k < radars.len() && (#[trigger] radars[k]).id@ == e.id@ && follows_model(e.controller, radars[k].discovery)
}

proof fn lemma_covered_grows(before: Seq<ControllerEntry>, after: Seq<ControllerEntry>, r: DiscoveredRadar)
    requires
        covered(before, r),
        after.len() >= before.len(),
        forall|j: int| 0 <= j < before.len() ==> #[trigger] after[j] == before[j],
    ensures
        covered(after, r),
{
    if r.discovery.brand != Brand::Garmin {
        let j0 = choose|j: int| 0 <= j < before.len() && (#[trigger] before[j]).id@ == r.id@ && controller_brand(before[j].controller) == r.discovery.brand;
        assert(after[j0] == before[j0]);
    }
}

proof fn lemma_covered_kept(before: Seq<ControllerEntry>, after: Seq<ControllerEntry>, r: DiscoveredRadar)
    requires
        covered(before, r),
        after.len() == before.len(),
        forall|j: int| 0 <= j < before.len() ==> (#[trigger] after[j]).id@ == before[j].id@
            && controller_brand(after[j].controller) == controller_brand(before[j].controller),
    ensures
        covered(after, r),
{
    if r.discovery.brand != Brand::Garmin {
        let j0 = choose|j: int| 0 <= j < before.len() && (#[trigger] before[j]).id@ == r.id@ && controller_brand(before[j].controller) == r.discovery.brand;
        assert(after[j0].id@ == before[j0].id@);
    }
}

/// Gives a known radar a controller when it needs one and has none.
fn ensure_controller(entries: &mut Vec<ControllerEntry>, radar: &DiscoveredRadar)
    requires
        entries_ok(old(entries)@),
        radar.id@ == crate::locator::radar_id(radar.discovery),
    ensures
        entries_ok(final(entries)@),
        final(entries)@.len() >= old(entries)@.len(),
        forall|j: int| 0 <= j < old(entries)@.len() ==> #[trigger] final(entries)@[j] == old(entries)@[j],
        covered(final(entries)@, *radar),
        forall|j: int| old(entries)@.len() <= j < final(entries)@.len() ==> (#[trigger] final(entries)@[j]).id@ == radar.id@
            && follows_model(final(entries)@[j].controller, radar.discovery),
{
    proof {
        lemma_id_initial(radar.discovery);
    }
    if radar.discovery.brand != Brand::Garmin && !has_controller(entries, &radar.id) {
        let c = make_controller(radar);
        let id = clone_text(&radar.id);
        let ghost before = entries@;
        entries.push(ControllerEntry { id, controller: c });
        proof {
            let last = before.len() as int;
            assert(entries@[last].id@ == radar.id@);
            assert forall|a: int, b: int| 0 <= a < b < entries@.len() implies entries@[a].id@ != entries@[b].id@ by {
                if b < last {
                    assert(before[a].id@ != before[b].id@);
                } else {
                    assert(entries@[a] == before[a]);
                }
            }
            assert forall|j: int| 0 <= j < entries@.len() implies (#[trigger] entries@[j]).id@.len() > 0
                && entries@[j].id@[0] == brand_initial(controller_brand(entries@[j].controller)) by {
                if j < last {
                    assert(entries@[j] == before[j]);
                }
            }
            assert forall|j: int| 0 <= j < entries@.len() implies controller_wf(#[trigger] entries@[j].controller) by {
                if j < last {
                    assert(entries@[j] == before[j]);
                }
            }
        }
    } else {
        proof {
            if radar.discovery.brand != Brand::Garmin {
                let j0 = choose|j: int| 0 <= j < entries@.len() && (#[trigger] entries@[j]).id@ == radar.id@;
                let b = controller_brand(entries@[j0].controller);
                assert(entries@[j0].id@[0] == brand_initial(b));
                assert(brand_initial(b) == brand_initial(radar.discovery.brand));
                assert(b == radar.discovery.brand);
            }
        }
    }
}

/// Polls every controller once.
fn poll_all<I: IoProvider>(entries: &mut Vec<ControllerEntry>, io: &mut I)
    requires
        entries_ok(old(entries)@),
    ensures
        entries_ok(final(entries)@),
        final(entries)@.len() == old(entries)@.len(),
        forall|k: int| 0 <= k < old(entries)@.len() ==> {
            &&& (#[trigger] final(entries)@[k]).id@ == old(entries)@[k].id@
            &&& controller_brand(final(entries)@[k].controller) == controller_brand(old(entries)@[k].controller)
            &&& forall|d: RadarDiscovery| follows_model(old(entries)@[k].controller, d) ==> follows_model(final(entries)@[k].controller, d)
        },
{
    let ghost snap = entries@;
    let mut j: usize = 0;
    while j < entries.len()
        invariant
            j <= entries@.len(),
            entries@.len() == snap.len(),
            entries_ok(snap),
            forall|k: int| 0 <= k < snap.len() ==> {
                &&& (#[trigger] entries@[k]).id@ == snap[k].id@
                &&& controller_brand(entries@[k].controller) == controller_brand(snap[k].controller)
                &&& controller_wf(entries@[k].controller)
                &&& forall|d: RadarDiscovery| follows_model(snap[k].controller, d) ==> follows_model(entries@[k].controller, d)
            },
        decreases entries@.len() - j,
    {
        let ghost before = entries@;
        let mut entry = entries.remove(j);
        poll_controller(&mut entry.controller, io);
        entries.insert(j, entry);
        proof {
            assert forall|k: int| 0 <= k < snap.len() && k != j implies #[trigger] entries@[k] == before[k] by {
            }
        }
        j = j + 1;
    }
    proof {
        assert forall|a: int, b: int| 0 <= a < b < entries@.len() implies entries@[a].id@ != entries@[b].id@ by {
            assert(snap[a].id@ != snap[b].id@);
        }
        assert forall|k: int| 0 <= k < entries@.len() implies (#[trigger] entries@[k]).id@.len() > 0
            && entries@[k].id@[0] == brand_initial(controller_brand(entries@[k].controller)) by {
            assert(snap[k].id@.len() > 0);
        }
    }
}

/// Discovery, controllers and their dispatch for every radar on the network.

pub struct Provider {
    locator: RadarLocator,
    controllers: Vec<ControllerEntry>,
}

impl Provider {
    pub closed spec fn locator_spec(&self) -> RadarLocator {
        self.locator
    }

    pub closed spec fn controllers_spec(&self) -> Seq<ControllerEntry> {
        self.controllers@
    }

    /// The locator is well formed, controller ids are distinct and every
    /// controller is well formed.
    pub closed spec fn wf(&self) -> bool {
        &&& self.locator.wf()
        &&& entries_ok(self.controllers@)
    }

    /// A provider around a locator (already started by the host), with no
    /// controllers yet.
    pub fn new(locator: RadarLocator) -> (p: Provider)
        requires
            locator.wf(),
        ensures
            p.wf(),
            p.locator_spec() == locator,
            p.controllers_spec().len() == 0,
    {
        Provider { locator, controllers: Vec::new() }
    }

    /// The controllers, one per radar id.
    pub fn controllers(&self) -> (r: &Vec<ControllerEntry>)
        ensures
            r@ == self.controllers_spec(),
    {
        &self.controllers
    }

    /// The locator.
    pub fn locator(&self) -> (l: &RadarLocator)
        ensures
            *l == self.locator_spec(),
    {
        &self.locator
    }

    /// One provider step: discovery (returning the radars seen for the first
    /// time), a controller for every known Furuno, Navico and Raymarine radar
    /// that has none yet, then one poll of every controller.
    pub fn poll<I: IoProvider, F: Fn(LocatorSocket, &[u8], &str) -> Decoded>(&mut self, io: &mut I, decode: &F) -> (r: Vec<RadarDiscovery>)
        requires
            old(self).wf(),
            forall|k: LocatorSocket, d: &[u8], a: &str| decode.requires((k, d, a)),
        ensures
            final(self).wf(),
            final(self).locator_spec().radars_spec().len() == old(self).locator_spec().radars_spec().len() + r@.len(),
            forall|i: int| 0 <= i < final(self).locator_spec().radars_spec().len()
                ==> covered(final(self).controllers_spec(), #[trigger] final(self).locator_spec().radars_spec()[i]),
            final(self).controllers_spec().len() >= old(self).controllers_spec().len(),
            forall|j: int| 0 <= j < old(self).controllers_spec().len() ==> {
                &&& (#[trigger] final(self).controllers_spec()[j]).id@ == old(self).controllers_spec()[j].id@
                &&& controller_brand(final(self).controllers_spec()[j].controller)
                    == controller_brand(old(self).controllers_spec()[j].controller)
            },
            forall|j: int| old(self).controllers_spec().len() <= j < final(self).controllers_spec().len()
                ==> explained(#[trigger] final(self).controllers_spec()[j], final(self).locator_spec().radars_spec()),
    {
        let found = self.locator.poll(io, decode);
        let count = self.locator.radar_count();
        let ghost old_n = self.controllers@.len();
        let ghost old_c = self.controllers@;
        let mut i: usize = 0;
        while i < count
            invariant
                self.locator.wf(),
                count == self.locator.radars_spec().len(),
                self.locator.radars_spec().len() == old(self).locator.radars_spec().len() + found@.len(),
                i <= count,
                entries_ok(self.controllers@),
                self.controllers@.len() >= old_n,
                old_c == old(self).controllers@,
                old_n == old_c.len(),
                forall|j: int| 0 <= j < old_n ==> #[trigger] self.controllers@[j] == old_c[j],
                forall|k: int| 0 <= k < i ==> covered(self.controllers@, #[trigger] self.locator.radars_spec()[k]),
                forall|j: int| old_n <= j < self.controllers@.len() ==> explained(#[trigger] self.controllers@[j], self.locator.radars_spec()),
            decreases count - i,
        {
            let radar = self.locator.radar(i);
            proof {
                self.locator.lemma_wf_ids();
            }
            let ghost before = self.controllers@;
            ensure_controller(&mut self.controllers, radar);
            proof {
                assert forall|k: int| 0 <= k <= i implies covered(self.controllers@, #[trigger] self.locator.radars_spec()[k]) by {
                    if k < i {
                        lemma_covered_grows(before, self.controllers@, self.locator.radars_spec()[k]);
                    }
                }
                assert forall|j: int| old_n <= j < self.controllers@.len() implies explained(#[trigger] self.controllers@[j], self.locator.radars_spec()) by {
                    if j < before.len() {
                        assert(self.controllers@[j] == before[j]);
                    } else {
                        assert(self.locator.radars_spec()[i as int] == *radar);
                    }
                }
            }
            i = i + 1;
        }
        let ghost snap = self.controllers@;
        poll_all(&mut self.controllers, io);
        proof {
            assert forall|k: int| 0 <= k < self.locator.radars_spec().len() implies covered(self.controllers@, #[trigger] self.locator.radars_spec()[k]) by {
                lemma_covered_kept(snap, self.controllers@, self.locator.radars_spec()[k]);
            }
            assert forall|j: int| old_n <= j < self.controllers@.len() implies explained(#[trigger] self.controllers@[j], self.locator.radars_spec()) by {
                let r = self.locator.radars_spec();
                let k0 = choose|k: int| 0 <= k < r.len() && (#[trigger] r[k]).id@ == snap[j].id@ && follows_model(snap[j].controller, r[k].discovery);
                assert(r[k0].id@ == self.controllers@[j].id@);
            }
        }
        found
    }
}

/// A control value as a request carries it.
#[derive(Debug, Clone, Copy, PartialEq, Eq, Structural)]
pub enum ControlRequest {
    Bool(bool),
    /// A whole number.
    Integer(i64),
    /// A number with a fraction, in tenths (truncated).
    Decimal { tenths: i64 },
    /// Doppler on or off, in target or rain mode.
    Doppler { enabled: bool, rain: bool },
    /// Two no-transmit zones: enabled, start and end degrees each.
    Zones { z1_enabled: bool, z1_start: i64, z1_end: i64, z2_enabled: bool, z2_start: i64, z2_end: i64 },
    /// Anything else.
    Other,
}

/// A whole number that fits `i32`.
pub open spec fn int_arg(v: ControlRequest) -> Option<i32> {
    match v {
        ControlRequest::Integer(n) => if i32::MIN <= n <= i32::MAX { Some(n as i32) } else { None },
        _ => None,
    }
}

/// A whole number in `lo..=hi`.
pub open spec fn bounded_arg(v: ControlRequest, lo: int, hi: int) -> Option<i32> {
    match int_arg(v) {
        Some(n) => if lo <= n <= hi { Some(n) } else { None },
        None => None,
    }
}

pub open spec fn bool_arg(v: ControlRequest) -> Option<bool> {
    match v {
        ControlRequest::Bool(b) => Some(b),
        _ => None,
    }
}

/// Tenths of a degree from a whole or decimal number of degrees.
pub open spec fn tenths_arg(v: ControlRequest) -> Option<int> {
    match v {
        ControlRequest::Integer(n) => if -1000000 <= n <= 1000000 { Some(n * 10) } else { None },
        ControlRequest::Decimal { tenths } => Some(tenths as int),
        _ => None,
    }
}

pub open spec fn angle_ok(a: i64) -> bool {
    0 <= a < 360
}

pub open spec fn width(enabled: bool, start: i64, end: i64) -> i32 {
    if enabled { ((end - start + 360) % 360) as i32 } else { 0 }
}

/// The frame a Furuno control request queues: `None` for an unknown control
/// id, `Some(None)` for a value the control does not take.
pub open spec fn furuno_request_frame(id: Seq<char>, v: ControlRequest) -> Option<Option<Seq<char>>> {
    let set = CommandMode::SetValue;
    if id == "beamSharpening"@ {
        Some(match bounded_arg(v, 0, i32::MAX as int) { Some(n) => Some(command_text(set, CommandId::RezBoost, seq![n, 0])), None => None })
    } else if id == "interferenceRejection"@ {
        let on = match v {
            ControlRequest::Bool(b) => Some(b),
            ControlRequest::Integer(n) => if n >= 0 { Some(n != 0) } else { None },
            _ => None,
        };
        Some(match on {
            Some(b) => Some(command_text(set, CommandId::SignalProcessing, seq![0, 0, if b { 2i32 } else { 0i32 }, 0])),
            None => None,
        })
    } else if id == "scanSpeed"@ {
        Some(match bounded_arg(v, 0, i32::MAX as int) { Some(n) => Some(command_text(set, CommandId::ScanSpeed, seq![n, 0])), None => None })
    } else if id == "birdMode"@ {
        Some(match bounded_arg(v, 0, i32::MAX as int) { Some(n) => Some(command_text(set, CommandId::BirdMode, seq![n, 0])), None => None })
    } else if id == "dopplerMode"@ {
        let (en, rain) = match v {
            ControlRequest::Doppler { enabled, rain } => (enabled, rain),
            _ => (false, false),
        };
        Some(Some(command_text(set, CommandId::TargetAnalyzer, seq![flag(en), if rain { 1i32 } else { 0i32 }, 0])))
    } else if id == "bearingAlignment"@ {
        Some(match tenths_arg(v) {
            Some(t) => if -1800 <= t <= 1800 { Some(command_text(set, CommandId::HeadingAlign, seq![t as i32, 0])) } else { None },
            None => None,
        })
    } else if id == "noiseReduction"@ {
        Some(match bool_arg(v) { Some(b) => Some(command_text(set, CommandId::SignalProcessing, seq![0, 3, flag(b), 0])), None => None })
    } else if id == "mainBangSuppression"@ {
        Some(match bounded_arg(v, 0, 100) { Some(n) => Some(command_text(set, CommandId::MainBangSize, seq![main_bang_value(n), 0])), None => None })
    } else if id == "txChannel"@ {
        Some(match bounded_arg(v, 0, i32::MAX as int) { Some(n) => Some(command_text(set, CommandId::TxChannel, seq![n])), None => None })
    } else if id == "autoAcquire"@ {
        Some(match bool_arg(v) { Some(b) => Some(command_text(set, CommandId::AutoAcquire, seq![flag(b)])), None => None })
    } else if id == "dopplerSpeed"@ {
        Some(match int_arg(v) { Some(n) => Some(command_text(set, CommandId::TargetAnalyzer, seq![1, n, 0])), None => None })
    } else if id == "antennaHeight"@ {
        Some(match bounded_arg(v, 0, 100) { Some(n) => Some(command_text(set, CommandId::AntennaHeight, seq![0, n, 0])), None => None })
    } else if id == "noTransmitZones"@ {
        Some(match v {
            ControlRequest::Zones { z1_enabled, z1_start, z1_end, z2_enabled, z2_start, z2_end } =>
                if angle_ok(z1_start) && angle_ok(z1_end) && angle_ok(z2_start) && angle_ok(z2_end) {
                    Some(command_text(set, CommandId::BlindSector, seq![
                        flag(z2_enabled), z1_start as i32, width(z1_enabled, z1_start, z1_end), z2_start as i32, width(z2_enabled, z2_start, z2_end),
                    ]))
                } else {
                    None
                },
            _ => None,
        })
    } else {
        None
    }
}

fn int_of(v: &ControlRequest) -> (r: Option<i32>)
    ensures
        r == int_arg(*v),
{
    match v {
        ControlRequest::Integer(n) => if i32::MIN as i64 <= *n && *n <= i32::MAX as i64 { Some(*n as i32) } else { None },
        _ => None,
    }
}

fn nonneg_of(v: &ControlRequest) -> (r: Option<i32>)
    ensures
        r == bounded_arg(*v, 0, i32::MAX as int),
{
    match int_of(v) {
        Some(n) => if n >= 0 { Some(n) } else { None },
        None => None,
    }
}

fn invalid(msg: &str) -> (e: ControlError)
    ensures
        e is InvalidValue,
{
    ControlError::InvalidValue(String::from_str(msg))
}

/// Dispatches a generic control request to a Furuno controller: the value is
/// checked against the control and the control's frame is queued. An unknown
/// id is `ControlNotFound`; a value the control does not take is
/// `InvalidValue` and queues nothing.
pub fn furuno_set_control(c: &mut FurunoController, control_id: &str, value: &ControlRequest) -> (r: Result<(), ControlError>)
    requires
        old(c).wf(),
    ensures
        final(c).wf(),
        final(c).state_spec() == old(c).state_spec(),
        match furuno_request_frame(control_id@, *value) {
            None => r is Err && (match r {
                Err(ControlError::ControlNotFound(s)) => s@ == control_id@,
                _ => false,
            }) && final(c).pending_spec() == old(c).pending_spec(),
            Some(None) => r is Err && r->Err_0 is InvalidValue && final(c).pending_spec() == old(c).pending_spec(),
            Some(Some(f)) => r is Ok && final(c).pending_spec() == old(c).pending_spec().push(f),
        },
{
    let ghost want = furuno_request_frame(control_id@, *value);
    if same_text(control_id, "beamSharpening") {
        match nonneg_of(value) {
            Some(n) => { c.set_rezboost(n); Ok(()) },
            None => Err(invalid("beamSharpening must be a number")),
        }
    } else if same_text(control_id, "interferenceRejection") {
        let on = match value {
            ControlRequest::Bool(b) => Some(*b),
            ControlRequest::Integer(n) => if *n >= 0 { Some(*n != 0) } else { None },
            _ => None,
        };
        match on {
            Some(b) => { c.set_interference_rejection(b); Ok(()) },
            None => Err(invalid("interferenceRejection must be a boolean")),
        }
    } else if same_text(control_id, "scanSpeed") {
        match nonneg_of(value) {
            Some(n) => { c.set_scan_speed(n); Ok(()) },
            None => Err(invalid("scanSpeed must be a number")),
        }
    } else if same_text(control_id, "birdMode") {
        match nonneg_of(value) {
            Some(n) => { c.set_bird_mode(n); Ok(()) },
            None => Err(invalid("birdMode must be a number (0-3)")),
        }
    } else if same_text(control_id, "dopplerMode") {
        let (en, rain) = match value {
            ControlRequest::Doppler { enabled, rain } => (*enabled, *rain),
            _ => (false, false),
        };
        c.set_target_analyzer(en, if rain { 1 } else { 0 });
        Ok(())
    } else if same_text(control_id, "bearingAlignment") {
        let t: Option<i64> = match value {
            ControlRequest::Integer(n) => if -1000000 <= *n && *n <= 1000000 { Some(*n * 10) } else { None },
            ControlRequest::Decimal { tenths } => Some(*tenths),
            _ => None,
        };
        match t {
            Some(t) => {
                if -1800 <= t && t <= 1800 {
                    let res = c.set_bearing_alignment(t as i32);
                    assert(res is Ok);
                    Ok(())
                } else {
                    Err(invalid("bearingAlignment must be -180..180 degrees"))
                }
            },
            None => Err(invalid("bearingAlignment must be a number")),
        }
    } else if same_text(control_id, "noiseReduction") {
        match value {
            ControlRequest::Bool(b) => { c.set_noise_reduction(*b); Ok(()) },
            _ => Err(invalid("noiseReduction must be a boolean")),
        }
    } else if same_text(control_id, "mainBangSuppression") {
        match nonneg_of(value) {
            Some(n) => {
                if n <= 100 {
                    let res = c.set_main_bang_suppression(n);
                    assert(res is Ok);
                    Ok(())
                } else {
                    Err(invalid("mainBangSuppression must be 0-100"))
                }
            },
            None => Err(invalid("mainBangSuppression must be a number")),
        }
    } else if same_text(control_id, "txChannel") {
        match nonneg_of(value) {
            Some(n) => { c.set_tx_channel(n); Ok(()) },
            None => Err(invalid("txChannel must be a number")),
        }
    } else if same_text(control_id, "autoAcquire") {
        match value {
            ControlRequest::Bool(b) => { c.set_auto_acquire(*b); Ok(()) },
            _ => Err(invalid("autoAcquire must be a boolean")),
        }
    } else if same_text(control_id, "dopplerSpeed") {
        match int_of(value) {
            Some(n) => { c.set_target_analyzer(true, n); Ok(()) },
            None => Err(invalid("dopplerSpeed must be a number")),
        }
    } else if same_text(control_id, "antennaHeight") {
        match nonneg_of(value) {
            Some(n) => {
                if n <= 100 {
                    let res = c.set_antenna_height(n);
                    assert(res is Ok);
                    Ok(())
                } else {
                    Err(invalid("antennaHeight must be 0-100 meters"))
                }
            },
            None => Err(invalid("antennaHeight must be a number (meters)")),
        }
    } else if same_text(control_id, "noTransmitZones") {
        match value {
            ControlRequest::Zones { z1_enabled, z1_start, z1_end, z2_enabled, z2_start, z2_end } => {
                if 0 <= *z1_start && *z1_start < 360 && 0 <= *z1_end && *z1_end < 360 && 0 <= *z2_start && *z2_start < 360
                    && 0 <= *z2_end && *z2_end < 360 {
                    let res = c.set_blind_sector(*z1_enabled, *z1_start as i32, *z1_end as i32, *z2_enabled, *z2_start as i32, *z2_end as i32);
                    assert(res is Ok);
                    Ok(())
                } else {
                    Err(invalid("no-transmit zone angles must be 0-359"))
                }
            },
            _ => Err(invalid("noTransmitZones must have a 'zones' array")),
        }
    } else {
        Err(ControlError::ControlNotFound(String::from_str(control_id)))
    }
}

} // verus!
