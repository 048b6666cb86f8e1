//! Typed model of `inventory.yaml` (schema v2) and its validation rules.
//!
//! Taxonomy: a [`Device`] is an actuator, a sensor or a battery; actuators
//! carry a protocol family (RobStride) and a per-family model.
use vstd::prelude::*;
use vstd::utf8::encode_utf8;

use crate::text::{chars_of, lower_seq, str_eq, string_from_chars, trim_chars, trim_seq, upper_chars, upper_seq};
use crate::types::F32Bits;

verus! {

/// Inventory schema version this daemon reads.
pub const INVENTORY_SCHEMA_V2: u32 = 2;

/// Default `schema_version` written into new files.
pub fn default_schema_v2() -> (r: Option<u32>)
    ensures
        r == Some(INVENTORY_SCHEMA_V2),
{
    Some(INVENTORY_SCHEMA_V2)
}

/// Structured failure modes for loading an inventory file.
#[derive(Debug)]
pub enum InventoryError {
    /// On-disk file is not schema v2 — run the migration tool once.
    SchemaVersionMismatch { found: u32, required: u32, migration_hint: String },
}

/// Schema version of a file whose top-level `schema_version` key held
/// `raw` (as an unsigned integer, if it did): missing means v1; the value
/// is narrowed to 32 bits.
pub fn schema_version_of(raw: Option<u64>) -> (v: u32)
    ensures
        v == match raw {
            Some(u) => (u % 0x1_0000_0000) as u32,
            None => 1u32,
        },
{
    match raw {
        Some(u) => {
            let v = (u % 0x1_0000_0000) as u32;
            v
        },
        None => 1,
    }
}

/// Refuse anything but schema v2.
pub fn check_schema_version(found: u32) -> (r: Result<(), InventoryError>)
    ensures
        r is Ok <==> found == INVENTORY_SCHEMA_V2,
        r matches Err(InventoryError::SchemaVersionMismatch { found: f, required, .. }) ==> f
            == found && required == INVENTORY_SCHEMA_V2,
{
    if found != INVENTORY_SCHEMA_V2 {
        return Err(
            InventoryError::SchemaVersionMismatch {
                found,
                required: INVENTORY_SCHEMA_V2,
                migration_hint: crate::text::copy_string(
                    "run `cargo run --bin migrate_inventory` (see docs/operator-guide/inventory-v2-migration.md)",
                ),
            },
        );
    }
    Ok(())
}

/// Top-level inventory.
#[derive(Debug)]
pub struct Inventory {
    /// Must be `2` for a successful load.
    pub schema_version: Option<u32>,
    pub devices: Vec<Device>,
}

/// Inventory row: actuator, sensor, or battery.
#[derive(Debug)]
pub enum Device {
    Actuator(Actuator),
    Sensor(Sensor),
    Battery(Battery),
}

/// Actuator with shared fields plus its protocol family.
#[derive(Debug)]
pub struct Actuator {
    pub common: ActuatorCommon,
    pub family: ActuatorFamily,
}

/// Fields shared by all actuators regardless of vendor family.
#[derive(Debug)]
pub struct ActuatorCommon {
    pub role: String,
    pub can_bus: String,
    pub can_id: u8,
    pub present: bool,
    pub verified: bool,
    pub commissioned_at: Option<String>,
    pub firmware_version: Option<String>,
    pub travel_limits: Option<TravelLimits>,
    pub commissioned_zero_offset: Option<F32Bits>,
    pub predefined_home_rad: Option<F32Bits>,
    pub limb: Option<String>,
    /// Position in the kinematic chain, by its snake_case name.
    pub joint_kind: Option<String>,
    /// YAML fragment preserving v1 `extra` map entries.
    pub notes_yaml: Option<String>,
}

/// Protocol family inside actuators.
#[derive(Debug, Clone, Copy, PartialEq, Eq, Structural)]
pub enum ActuatorFamily {
    Robstride { model: RobstrideModel },
}

/// Concrete RobStride SKU.
#[derive(Debug, Clone, Copy, PartialEq, Eq, Structural, Hash)]
pub enum RobstrideModel {
    Rs01,
    Rs02,
    Rs03,
    Rs04,
}

pub open spec fn model_label(m: RobstrideModel) -> Seq<char> {
    match m {
        RobstrideModel::Rs01 => "RS01"@,
        RobstrideModel::Rs02 => "RS02"@,
        RobstrideModel::Rs03 => "RS03"@,
        RobstrideModel::Rs04 => "RS04"@,
    }
}

pub open spec fn model_suffix(m: RobstrideModel) -> Seq<char> {
    match m {
        RobstrideModel::Rs01 => "rs01"@,
        RobstrideModel::Rs02 => "rs02"@,
        RobstrideModel::Rs03 => "rs03"@,
        RobstrideModel::Rs04 => "rs04"@,
    }
}

/// Model named by an already normalised (trimmed, upper-cased) label.
pub open spec fn model_of_upper(u: Seq<char>) -> Option<RobstrideModel> {
    if u == "RS01"@ {
        Some(RobstrideModel::Rs01)
    } else if u == "RS02"@ {
        Some(RobstrideModel::Rs02)
    } else if u == "RS03"@ {
        Some(RobstrideModel::Rs03)
    } else if u == "RS04"@ {
        Some(RobstrideModel::Rs04)
    } else {
        None
    }
}

/// A spec file names an `actuator_model` this daemon does not know.
#[derive(Debug)]
pub struct UnknownModel {
    pub label: String,
}

impl RobstrideModel {
    /// Value of YAML `actuator_model` for this SKU (e.g. `RS03`).
    pub fn as_spec_label(self) -> (r: &'static str)
        ensures
            r@ == model_label(self),
    {
        match self {
            RobstrideModel::Rs01 => "RS01",
            RobstrideModel::Rs02 => "RS02",
            RobstrideModel::Rs03 => "RS03",
            RobstrideModel::Rs04 => "RS04",
        }
    }

    /// Filename fragment after `robstride_` (e.g. `rs03`).
    pub fn robstride_yaml_suffix(self) -> (r: &'static str)
        ensures
            r@ == model_suffix(self),
    {
        match self {
            RobstrideModel::Rs01 => "rs01",
            RobstrideModel::Rs02 => "rs02",
            RobstrideModel::Rs03 => "rs03",
            RobstrideModel::Rs04 => "rs04",
        }
    }

    /// Parse `actuator_model` from a hardware spec (surrounding whitespace and
    /// ASCII case are ignored).
    pub fn from_spec_actuator_model(label: &str) -> (r: Result<RobstrideModel, UnknownModel>)
        ensures
            match model_of_upper(upper_seq(trim_seq(label@))) {
                Some(m) => r == Ok::<RobstrideModel, UnknownModel>(m),
                None => r matches Err(e) && e.label@ == label@,
            },
    {
        let chars = chars_of(label);
        let trimmed = trim_chars(chars.as_slice());
        let u = upper_chars(trimmed.as_slice());
        let s = u.as_slice();
        if crate::types::literal_eq(s, "RS01") {
            Ok(RobstrideModel::Rs01)
        } else if crate::types::literal_eq(s, "RS02") {
            Ok(RobstrideModel::Rs02)
        } else if crate::types::literal_eq(s, "RS03") {
            Ok(RobstrideModel::Rs03)
        } else if crate::types::literal_eq(s, "RS04") {
            Ok(RobstrideModel::Rs04)
        } else {
            Err(UnknownModel { label: crate::text::copy_string(label) })
        }
    }
}

/// The filename suffix of a model is its label in ASCII lowercase (and the
/// label is the suffix in uppercase), and the label parses back to the model.
pub proof fn law_model_label_round_trip(m: RobstrideModel)
    ensures
        model_of_upper(upper_seq(trim_seq(model_label(m)))) == Some(m),
        upper_seq(model_suffix(m)) == model_label(m),
        model_suffix(m) == crate::text::lower_seq(model_label(m)),
{
    reveal_strlit("RS01");
    reveal_strlit("RS02");
    reveal_strlit("RS03");
    reveal_strlit("RS04");
    reveal_strlit("rs01");
    reveal_strlit("rs02");
    reveal_strlit("rs03");
    reveal_strlit("rs04");
    let l = model_label(m);
    assert(crate::text::lead_ws(l) == 0);
    assert(crate::text::trail_ws(l) == 0);
    assert(trim_seq(l) =~= l);
    assert(upper_seq(l) =~= l);
    assert(upper_seq(model_suffix(m)) =~= l);
    assert(crate::text::lower_seq(l) =~= model_suffix(m));
}

#[derive(Debug)]
pub struct Sensor {
    pub common: SensorCommon,
    pub family: SensorFamily,
}

#[derive(Debug)]
pub struct SensorCommon {
    pub role: String,
    pub can_bus: String,
    pub can_id: u8,
    pub present: bool,
    pub verified: bool,
    pub commissioned_at: Option<String>,
    pub notes: Option<String>,
}

#[derive(Debug, Clone, Copy, PartialEq, Eq, Structural)]
pub enum SensorFamily {
    Motion { model: MotionSensorModel },
    Force { model: ForceSensorModel },
    Gyro { model: GyroSensorModel },
    Camera { model: CameraModel },
    Lidar { model: LidarModel },
}

#[derive(Debug, Clone, Copy, PartialEq, Eq, Structural)]
pub enum MotionSensorModel {
    Bno085,
}

#[derive(Debug, Clone, Copy, PartialEq, Eq, Structural)]
pub enum ForceSensorModel {
    Placeholder,
}

#[derive(Debug, Clone, Copy, PartialEq, Eq, Structural)]
pub enum GyroSensorModel {
    Placeholder,
}

#[derive(Debug, Clone, Copy, PartialEq, Eq, Structural)]
pub enum CameraModel {
    Placeholder,
}

#[derive(Debug, Clone, Copy, PartialEq, Eq, Structural)]
pub enum LidarModel {
    Placeholder,
}

#[derive(Debug)]
pub struct Battery {
    pub common: BatteryCommon,
    pub family: BatteryFamily,
}

#[derive(Debug)]
pub struct BatteryCommon {
    pub role: String,
    pub can_bus: String,
    pub can_id: u8,
    pub present: bool,
    pub notes: Option<String>,
}

#[derive(Debug, Clone, Copy, PartialEq, Eq, Structural)]
pub enum BatteryFamily {
    Placeholder,
}

/// Per-actuator soft travel-limits band (radians).
#[derive(Debug)]
pub struct TravelLimits {
    pub min_rad: F32Bits,
    pub max_rad: F32Bits,
    pub updated_at: Option<String>,
}

/// Default for `present` when a row omits it.
pub fn default_true() -> (r: bool)
    ensures
        r,
{
    true
}

pub open spec fn dev_role(d: Device) -> Seq<char> {
    match d {
        Device::Actuator(a) => a.common.role@,
        Device::Sensor(s) => s.common.role@,
        Device::Battery(b) => b.common.role@,
    }
}

pub open spec fn dev_bus(d: Device) -> Seq<char> {
    match d {
        Device::Actuator(a) => a.common.can_bus@,
        Device::Sensor(s) => s.common.can_bus@,
        Device::Battery(b) => b.common.can_bus@,
    }
}

pub open spec fn dev_id(d: Device) -> u8 {
    match d {
        Device::Actuator(a) => a.common.can_id,
        Device::Sensor(s) => s.common.can_id,
        Device::Battery(b) => b.common.can_id,
    }
}

/// `{limb}.{joint_kind}` when both are set.
pub open spec fn canonical_of(c: ActuatorCommon) -> Option<Seq<char>> {
    match (c.limb, c.joint_kind) {
        (Some(l), Some(j)) => Some(l@ + seq!['.'] + j@),
        _ => None,
    }
}

impl Actuator {
    /// RobStride model for this actuator.
    pub fn robstride_model(&self) -> (m: RobstrideModel)
        ensures
            self.family == (ActuatorFamily::Robstride { model: m }),
    {
        match self.family {
            ActuatorFamily::Robstride { model } => model,
        }
    }

    /// `{limb}.{joint_kind}` when both are set.
    pub fn canonical_role(&self) -> (r: Option<String>)
        ensures
            match canonical_of(self.common) {
                Some(c) => r matches Some(s) && s@ == c,
                None => r is None,
            },
    {
        match (&self.common.limb, &self.common.joint_kind) {
            (Some(l), Some(j)) => {
                let mut v = chars_of(l.as_str());
                v.push('.');
                let jv = chars_of(j.as_str());
                let mut i: usize = 0;
                let ghost base = v@;
                while i < jv.len()
                    invariant
                        i <= jv@.len(),
                        v@ == base + jv@.take(i as int),
                    decreases jv@.len() - i,
                {
                    v.push(jv[i]);
                    assert(jv@.take(i + 1) == jv@.take(i as int).push(jv@[i as int]));
                    i = i + 1;
                }
                assert(jv@.take(jv@.len() as int) =~= jv@);
                Some(string_from_chars(v.as_slice()))
            },
            _ => None,
        }
    }
}

impl Device {
    pub fn role(&self) -> (r: &str)
        ensures
            r@ == dev_role(*self),
    {
        match self {
            Device::Actuator(a) => a.common.role.as_str(),
            Device::Sensor(s) => s.common.role.as_str(),
            Device::Battery(b) => b.common.role.as_str(),
        }
    }

    pub fn can_bus(&self) -> (r: &str)
        ensures
            r@ == dev_bus(*self),
    {
        match self {
            Device::Actuator(a) => a.common.can_bus.as_str(),
            Device::Sensor(s) => s.common.can_bus.as_str(),
            Device::Battery(b) => b.common.can_bus.as_str(),
        }
    }

    pub fn can_id(&self) -> (r: u8)
        ensures
            r == dev_id(*self),
    {
        match self {
            Device::Actuator(a) => a.common.can_id,
            Device::Sensor(s) => s.common.can_id,
            Device::Battery(b) => b.common.can_id,
        }
    }
}

// --- Role validation ---------------------------------------------------------

/// Why a role string is malformed.
#[derive(Debug, Clone, Copy, PartialEq, Eq, Structural)]
pub enum RoleError {
    /// The role is empty.
    Empty,
    /// The first byte is not a lowercase ASCII letter.
    BadStart,
    /// The role contains more than one dot.
    MultipleDots,
    /// The role contains this byte, which is not `[a-z0-9_.]`.
    IllegalChar(u8),
}

/// Why a role is not in canonical `{limb}.{joint_kind}` form.
#[derive(Debug, Clone, Copy, PartialEq, Eq, Structural)]
pub enum CanonicalRoleError {
    Format(RoleError),
    /// The role has no dot.
    NotCanonical,
    /// One side of the dot is empty.
    EmptyPart,
}

pub open spec fn is_lower_byte(b: u8) -> bool {
    97 <= b <= 122
}

pub open spec fn is_role_byte(b: u8) -> bool {
    is_lower_byte(b) || b == 95 || b == 46 || (48 <= b <= 57)
}

/// Number of `.` bytes in `b`.
pub open spec fn dot_count(b: Seq<u8>) -> nat
    decreases b.len(),
{
    if b.len() == 0 {
        0
    } else {
        dot_count(b.drop_last()) + (if b.last() == 46u8 {
            1nat
        } else {
            0nat
        })
    }
}

/// First byte of `b` at or after `i` that may not appear in a role.
pub open spec fn first_illegal_from(b: Seq<u8>, i: int) -> Option<u8>
    decreases b.len() - i,
{
    if i < 0 || i >= b.len() {
        None
    } else if !is_role_byte(b[i]) {
        Some(b[i])
    } else {
        first_illegal_from(b, i + 1)
    }
}

/// Verdict of the role-format rules on the UTF-8 bytes of a role.
pub open spec fn role_format_error(b: Seq<u8>) -> Option<RoleError> {
    if b.len() == 0 {
        Some(RoleError::Empty)
    } else if !is_lower_byte(b[0]) {
        Some(RoleError::BadStart)
    } else if dot_count(b) > 1 {
        Some(RoleError::MultipleDots)
    } else {
        match first_illegal_from(b, 0) {
            Some(c) => Some(RoleError::IllegalChar(c)),
            None => None,
        }
    }
}

/// Verdict of the canonical-role rules on the UTF-8 bytes of a role.
pub open spec fn canonical_role_error(b: Seq<u8>) -> Option<CanonicalRoleError> {
    match role_format_error(b) {
        Some(e) => Some(CanonicalRoleError::Format(e)),
        None => if dot_count(b) == 0 {
            Some(CanonicalRoleError::NotCanonical)
        } else if b[0] == 46u8 || b.last() == 46u8 {
            Some(CanonicalRoleError::EmptyPart)
        } else {
            None
        },
    }
}

pub open spec fn role_bytes(s: Seq<char>) -> Seq<u8> {
    encode_utf8(s)
}

fn count_dots(b: &[u8]) -> (n: usize)
    ensures
        n == dot_count(b@),
{
    let mut n: usize = 0;
    let mut i: usize = 0;
    while i < b.len()
        invariant
            i <= b@.len(),
            n == dot_count(b@.take(i as int)),
            n <= i,
        decreases b@.len() - i,
    {
        assert(b@.take(i + 1).drop_last() == b@.take(i as int));
        if b[i] == 46u8 {
            n = n + 1;
        }
        i = i + 1;
    }
    assert(b@.take(b@.len() as int) =~= b@);
    n
}

/// Check a role against `[a-z][a-z0-9_.]*` with at most one dot.
pub fn validate_role_format(role: &str) -> (r: Result<(), RoleError>)
    ensures
        match role_format_error(role_bytes(role@)) {
            Some(e) => r == Err::<(), RoleError>(e),
            None => r is Ok,
        },
{
    let bytes = role.as_bytes();
    if bytes.len() == 0 {
        return Err(RoleError::Empty);
    }
    let b0 = bytes[0];
    if !(97u8 <= b0 && b0 <= 122u8) {
        return Err(RoleError::BadStart);
    }
    let dots = count_dots(bytes);
    if dots > 1 {
        return Err(RoleError::MultipleDots);
    }
    let mut i: usize = 0;
    while i < bytes.len()
        invariant
            i <= bytes@.len(),
            bytes@ == role_bytes(role@),
            bytes@.len() > 0 && is_lower_byte(bytes@[0]),
            dot_count(bytes@) <= 1,
            first_illegal_from(bytes@, 0) == first_illegal_from(bytes@, i as int),
        decreases bytes@.len() - i,
    {
        let b = bytes[i];
        let ok = (97u8 <= b && b <= 122u8) || b == 95u8 || b == 46u8 || (48u8 <= b && b <= 57u8);
        if !ok {
            assert(first_illegal_from(bytes@, i as int) == Some(b));
            return Err(RoleError::IllegalChar(b));
        }
        i = i + 1;
    }
    Ok(())
}

/// Check a role is a well-formed `{limb}.{joint_kind}`.
pub fn validate_canonical_role(role: &str) -> (r: Result<(), CanonicalRoleError>)
    ensures
        match canonical_role_error(role_bytes(role@)) {
            Some(e) => r == Err::<(), CanonicalRoleError>(e),
            None => r is Ok,
        },
{
    match validate_role_format(role) {
        Err(e) => return Err(CanonicalRoleError::Format(e)),
        Ok(()) => {},
    }
    let bytes = role.as_bytes();
    let dots = count_dots(bytes);
    if dots == 0 {
        return Err(CanonicalRoleError::NotCanonical);
    }
    if bytes[0] == 46u8 || bytes[bytes.len() - 1] == 46u8 {
        return Err(CanonicalRoleError::EmptyPart);
    }
    Ok(())
}

/// A role that passes the canonical check is also a well-formed role.
pub proof fn law_canonical_role_is_valid_role(b: Seq<u8>)
    requires
        canonical_role_error(b) is None,
    ensures
        role_format_error(b) is None,
        dot_count(b) == 1,
{
}


// --- Inventory-wide validation -------------------------------------------------

/// A rule of the inventory that a file breaks.
#[derive(Debug)]
pub enum InventoryViolation {
    /// A device's role is malformed.
    InvalidRole { role: String, error: RoleError },
    /// Two devices share a role.
    DuplicateRole { role: String },
    /// Two devices share a bus address.
    DuplicateAddress { can_bus: String, can_id: u8 },
    /// An actuator names a joint but no limb.
    JointKindWithoutLimb { role: String },
    /// An actuator has limb and joint but its role is not `{limb}.{joint_kind}`.
    NonCanonicalRole { role: String, canonical: String },
    /// Two actuators claim the same joint of the same limb.
    DuplicateJoint { limb: String, joint_kind: String, role: String },
}

/// [`InventoryViolation`] with text as character sequences.
pub enum ViolationView {
    InvalidRole { role: Seq<char>, error: RoleError },
    DuplicateRole { role: Seq<char> },
    DuplicateAddress { can_bus: Seq<char>, can_id: u8 },
    JointKindWithoutLimb { role: Seq<char> },
    NonCanonicalRole { role: Seq<char>, canonical: Seq<char> },
    DuplicateJoint { limb: Seq<char>, joint_kind: Seq<char>, role: Seq<char> },
}

impl View for InventoryViolation {
    type V = ViolationView;

    open spec fn view(&self) -> ViolationView {
        match self {
            InventoryViolation::InvalidRole { role, error } => ViolationView::InvalidRole {
                role: role@,
                error: *error,
            },
            InventoryViolation::DuplicateRole { role } => ViolationView::DuplicateRole {
                role: role@,
            },
            InventoryViolation::DuplicateAddress { can_bus, can_id } =>
                ViolationView::DuplicateAddress { can_bus: can_bus@, can_id: *can_id },
            InventoryViolation::JointKindWithoutLimb { role } =>
                ViolationView::JointKindWithoutLimb { role: role@ },
            InventoryViolation::NonCanonicalRole { role, canonical } =>
                ViolationView::NonCanonicalRole { role: role@, canonical: canonical@ },
            InventoryViolation::DuplicateJoint { limb, joint_kind, role } =>
                ViolationView::DuplicateJoint {
                limb: limb@,
                joint_kind: joint_kind@,
                role: role@,
            },
        }
    }
}

/// The first device (in file order) carrying `role`.
pub open spec fn first_with_role(devs: Seq<Device>, role: Seq<char>) -> Option<Device>
    decreases devs.len(),
{
    if devs.len() == 0 {
        None
    } else if dev_role(devs[0]) == role {
        Some(devs[0])
    } else {
        first_with_role(devs.drop_first(), role)
    }
}

pub proof fn lemma_first_with_role_step(devs: Seq<Device>, role: Seq<char>, i: int)
    requires
        0 <= i < devs.len(),
    ensures
        dev_role(devs[i]) == role ==> first_with_role(devs.skip(i), role) == Some(devs[i]),
        dev_role(devs[i]) != role ==> first_with_role(devs.skip(i), role) == first_with_role(
            devs.skip(i + 1),
            role,
        ),
{
    assert(devs.skip(i)[0] == devs[i]);
    assert(devs.skip(i).drop_first() =~= devs.skip(i + 1));
}

pub open spec fn role_used_before(devs: Seq<Device>, i: int) -> bool {
    exists|j: int| 0 <= j < i && #[trigger] dev_role(devs[j]) == dev_role(devs[i])
}

pub open spec fn address_used_before(devs: Seq<Device>, i: int) -> bool {
    exists|j: int|
        0 <= j < i && #[trigger] dev_bus(devs[j]) == dev_bus(devs[i]) && dev_id(devs[j]) == dev_id(
            devs[i],
        )
}

/// The per-device rule the `i`-th device breaks, given the devices before it.
pub open spec fn device_violation(devs: Seq<Device>, i: int) -> Option<ViolationView> {
    let d = devs[i];
    let role = dev_role(d);
    match role_format_error(role_bytes(role)) {
        Some(e) => Some(ViolationView::InvalidRole { role, error: e }),
        None => if role_used_before(devs, i) {
            Some(ViolationView::DuplicateRole { role })
        } else if address_used_before(devs, i) {
            Some(ViolationView::DuplicateAddress { can_bus: dev_bus(d), can_id: dev_id(d) })
        } else {
            match d {
                Device::Actuator(a) => if a.common.joint_kind is Some && a.common.limb is None {
                    Some(ViolationView::JointKindWithoutLimb { role })
                } else {
                    match canonical_of(a.common) {
                        Some(c) => if c != role {
                            Some(ViolationView::NonCanonicalRole { role, canonical: c })
                        } else {
                            None
                        },
                        None => None,
                    }
                },
                _ => None,
            }
        },
    }
}

/// `(limb, joint_kind)` claimed by an actuator that has both.
pub open spec fn joint_key(d: Device) -> Option<(Seq<char>, Seq<char>)> {
    match d {
        Device::Actuator(a) => match (a.common.limb, a.common.joint_kind) {
            (Some(l), Some(j)) => Some((l@, j@)),
            _ => None,
        },
        _ => None,
    }
}

pub open spec fn joint_violation(devs: Seq<Device>, i: int) -> Option<ViolationView> {
    match joint_key(devs[i]) {
        Some((l, j)) => if exists|k: int| 0 <= k < i && #[trigger] joint_key(devs[k]) == Some((l, j)) {
            Some(ViolationView::DuplicateJoint { limb: l, joint_kind: j, role: dev_role(devs[i]) })
        } else {
            None
        },
        None => None,
    }
}

/// First per-device violation among the first `n` devices.
pub open spec fn first_device_violation(devs: Seq<Device>, n: int) -> Option<ViolationView>
    decreases n,
{
    if n <= 0 {
        None
    } else {
        match first_device_violation(devs, n - 1) {
            Some(v) => Some(v),
            None => device_violation(devs, n - 1),
        }
    }
}

/// First duplicate-joint violation among the first `n` devices.
pub open spec fn first_joint_violation(devs: Seq<Device>, n: int) -> Option<ViolationView>
    decreases n,
{
    if n <= 0 {
        None
    } else {
        match first_joint_violation(devs, n - 1) {
            Some(v) => Some(v),
            None => joint_violation(devs, n - 1),
        }
    }
}

/// What `Inventory::validate` reports: the first per-device violation in
/// file order, else the first duplicated joint, else nothing.
pub open spec fn inventory_violation(devs: Seq<Device>) -> Option<ViolationView> {
    match first_device_violation(devs, devs.len() as int) {
        Some(v) => Some(v),
        None => first_joint_violation(devs, devs.len() as int),
    }
}

proof fn lemma_first_device_stable(devs: Seq<Device>, n: int, m: int)
    requires
        0 <= n <= m,
        first_device_violation(devs, n) is Some,
    ensures
        first_device_violation(devs, m) == first_device_violation(devs, n),
    decreases m - n,
{
    if m > n {
        lemma_first_device_stable(devs, n, m - 1);
    }
}

proof fn lemma_device_violation_reported(devs: Seq<Device>, i: int)
    requires
        0 <= i < devs.len(),
        first_device_violation(devs, i) is None,
        device_violation(devs, i) is Some,
    ensures
        inventory_violation(devs) == device_violation(devs, i),
{
    assert(first_device_violation(devs, i + 1) == device_violation(devs, i));
    lemma_first_device_stable(devs, i + 1, devs.len() as int);
}

proof fn lemma_joint_violation_reported(devs: Seq<Device>, i: int)
    requires
        0 <= i < devs.len(),
        first_device_violation(devs, devs.len() as int) is None,
        first_joint_violation(devs, i) is None,
        joint_violation(devs, i) is Some,
    ensures
        inventory_violation(devs) == joint_violation(devs, i),
{
    assert(first_joint_violation(devs, i + 1) == joint_violation(devs, i));
    lemma_first_joint_stable(devs, i + 1, devs.len() as int);
}

proof fn lemma_first_joint_stable(devs: Seq<Device>, n: int, m: int)
    requires
        0 <= n <= m,
        first_joint_violation(devs, n) is Some,
    ensures
        first_joint_violation(devs, m) == first_joint_violation(devs, n),
    decreases m - n,
{
    if m > n {
        lemma_first_joint_stable(devs, n, m - 1);
    }
}

fn role_used_before_exec(devs: &Vec<Device>, i: usize) -> (b: bool)
    requires
        i < devs@.len(),
    ensures
        b == role_used_before(devs@, i as int),
{
    let role = devs[i].role();
    let mut j: usize = 0;
    while j < i
        invariant
            i < devs@.len(),
            j <= i,
            role@ == dev_role(devs@[i as int]),
            forall|k: int| 0 <= k < j ==> dev_role(devs@[k]) != dev_role(devs@[i as int]),
        decreases i - j,
    {
        if str_eq(devs[j].role(), role) {
            return true;
        }
        j = j + 1;
    }
    false
}

fn address_used_before_exec(devs: &Vec<Device>, i: usize) -> (b: bool)
    requires
        i < devs@.len(),
    ensures
        b == address_used_before(devs@, i as int),
{
    let bus = devs[i].can_bus();
    let id = devs[i].can_id();
    let mut j: usize = 0;
    while j < i
        invariant
            i < devs@.len(),
            j <= i,
            bus@ == dev_bus(devs@[i as int]),
            id == dev_id(devs@[i as int]),
            forall|k: int|
                0 <= k < j ==> !(dev_bus(devs@[k]) == dev_bus(devs@[i as int]) && dev_id(devs@[k])
                    == dev_id(devs@[i as int])),
        decreases i - j,
    {
        if devs[j].can_id() == id && str_eq(devs[j].can_bus(), bus) {
            return true;
        }
        j = j + 1;
    }
    false
}

fn joint_of(d: &Device) -> (r: Option<(&String, &String)>)
    ensures
        match joint_key(*d) {
            Some((l, j)) => r matches Some((a, b)) && a@ == l && b@ == j,
            None => r is None,
        },
{
    match d {
        Device::Actuator(a) => match (&a.common.limb, &a.common.joint_kind) {
            (Some(l), Some(j)) => Some((l, j)),
            _ => None,
        },
        _ => None,
    }
}

fn joint_used_before_exec(devs: &Vec<Device>, i: usize) -> (b: bool)
    requires
        i < devs@.len(),
        joint_key(devs@[i as int]) is Some,
    ensures
        b == exists|k: int| 0 <= k < i && #[trigger] joint_key(devs@[k]) == joint_key(devs@[i as int]),
{
    let (l, jk) = match joint_of(&devs[i]) {
        Some(p) => p,
        None => { return false; },
    };
    let mut k: usize = 0;
    while k < i
        invariant
            i < devs@.len(),
            k <= i,
            joint_key(devs@[i as int]) == Some((l@, jk@)),
            forall|m: int| 0 <= m < k ==> joint_key(devs@[m]) != joint_key(devs@[i as int]),
        decreases i - k,
    {
        match joint_of(&devs[k]) {
            Some((l2, j2)) => {
                if str_eq(l2.as_str(), l.as_str()) && str_eq(j2.as_str(), jk.as_str()) {
                    return true;
                }
            },
            None => {},
        }
        k = k + 1;
    }
    false
}

impl Inventory {
    /// Check the inventory-wide rules: every role well-formed and unique,
    /// every bus address unique, actuator roles canonical when limb and joint
    /// are set (and no joint without a limb), and no joint claimed twice in
    /// a limb. Reports the first violation in file order.
    pub fn validate(&self) -> (r: Result<(), InventoryViolation>)
        ensures
            match inventory_violation(self.devices@) {
                Some(v) => r matches Err(e) && e@ == v,
                None => r is Ok,
            },
    {
        let devs = &self.devices;
        let mut i: usize = 0;
        while i < devs.len()
            invariant
                i <= devs@.len(),
                devs@ == self.devices@,
                first_device_violation(devs@, i as int) is None,
            decreases devs@.len() - i,
        {
            let d = &devs[i];
            let role = d.role();
            match validate_role_format(role) {
                Err(e) => {
                    proof {
                        lemma_device_violation_reported(devs@, i as int);
                    }
                    return Err(
                        InventoryViolation::InvalidRole { role: crate::text::copy_string(role), error: e },
                    );
                },
                Ok(()) => {},
            }
            if role_used_before_exec(devs, i) {
                proof {
                    lemma_device_violation_reported(devs@, i as int);
                }
                return Err(InventoryViolation::DuplicateRole { role: crate::text::copy_string(role) });
            }
            if address_used_before_exec(devs, i) {
                proof {
                    lemma_device_violation_reported(devs@, i as int);
                }
                return Err(
                    InventoryViolation::DuplicateAddress {
                        can_bus: crate::text::copy_string(d.can_bus()),
                        can_id: d.can_id(),
                    },
                );
            }
            match d {
                Device::Actuator(a) => {
                    if a.common.joint_kind.is_some() && a.common.limb.is_none() {
                        proof {
                            lemma_device_violation_reported(devs@, i as int);
                        }
                        return Err(
                            InventoryViolation::JointKindWithoutLimb {
                                role: crate::text::copy_string(role),
                            },
                        );
                    }
                    match a.canonical_role() {
                        Some(c) => {
                            if !str_eq(c.as_str(), role) {
                                proof {
                                    lemma_device_violation_reported(devs@, i as int);
                                }
                                return Err(
                                    InventoryViolation::NonCanonicalRole {
                                        role: crate::text::copy_string(role),
                                        canonical: c,
                                    },
                                );
                            }
                        },
                        None => {},
                    }
                },
                _ => {},
            }
            i = i + 1;
        }
        let mut i: usize = 0;
        while i < devs.len()
            invariant
                i <= devs@.len(),
                devs@ == self.devices@,
                first_device_violation(devs@, devs@.len() as int) is None,
                first_joint_violation(devs@, i as int) is None,
            decreases devs@.len() - i,
        {
            match joint_of(&devs[i]) {
                Some((l, jk)) => {
                    if joint_used_before_exec(devs, i) {
                        proof {
                            lemma_joint_violation_reported(devs@, i as int);
                        }
                        return Err(
                            InventoryViolation::DuplicateJoint {
                                limb: crate::text::copy_string(l.as_str()),
                                joint_kind: crate::text::copy_string(jk.as_str()),
                                role: crate::text::copy_string(devs[i].role()),
                            },
                        );
                    }
                },
                None => {},
            }
            i = i + 1;
        }
        Ok(())
    }

    /// Any device with this role (the first one in file order).
    pub fn by_role(&self, role: &str) -> (r: Option<&Device>)
        ensures
            match r {
                Some(d) => exists|i: int|
                    0 <= i < self.devices@.len() && *d == self.devices@[i] && dev_role(
                        self.devices@[i],
                    ) == role@ && forall|j: int|
                        0 <= j < i ==> dev_role(#[trigger] self.devices@[j]) != role@,
                None => forall|i: int|
                    0 <= i < self.devices@.len() ==> dev_role(#[trigger] self.devices@[i]) != role@,
            },
            match r {
                Some(d) => first_with_role(self.devices@, role@) == Some(*d),
                None => first_with_role(self.devices@, role@) is None,
            },
    {
        let mut i: usize = 0;
        assert(self.devices@.skip(0) =~= self.devices@);
        while i < self.devices.len()
            invariant
                i <= self.devices@.len(),
                forall|j: int| 0 <= j < i ==> dev_role(#[trigger] self.devices@[j]) != role@,
                first_with_role(self.devices@, role@) == first_with_role(
                    self.devices@.skip(i as int),
                    role@,
                ),
            decreases self.devices@.len() - i,
        {
            proof {
                lemma_first_with_role_step(self.devices@, role@, i as int);
            }
            if str_eq(self.devices[i].role(), role) {
                return Some(&self.devices[i]);
            }
            i = i + 1;
        }
        proof {
            assert(self.devices@.skip(i as int).len() == 0);
        }
        None
    }

    /// The first device with this role, if it is an actuator.
    pub fn actuator_by_role(&self, role: &str) -> (r: Option<&Actuator>)
        ensures
            match r {
                Some(a) => exists|i: int|
                    0 <= i < self.devices@.len() && self.devices@[i] == Device::Actuator(*a)
                        && dev_role(self.devices@[i]) == role@ && forall|j: int|
                        0 <= j < i ==> dev_role(#[trigger] self.devices@[j]) != role@,
                None => forall|i: int|
                    0 <= i < self.devices@.len() && dev_role(#[trigger] self.devices@[i]) == role@
                        ==> !(self.devices@[i] is Actuator) || exists|j: int|
                        0 <= j < i && dev_role(#[trigger] self.devices@[j]) == role@,
            },
            match r {
                Some(a) => first_with_role(self.devices@, role@) == Some(Device::Actuator(*a)),
                None => !(first_with_role(self.devices@, role@) matches Some(Device::Actuator(_))),
            },
    {
        match self.by_role(role) {
            Some(Device::Actuator(a)) => Some(a),
            _ => None,
        }
    }

    /// The first device at this bus address.
    pub fn by_can_id(&self, bus: &str, can_id: u8) -> (r: Option<&Device>)
        ensures
            match r {
                Some(d) => exists|i: int|
                    0 <= i < self.devices@.len() && *d == self.devices@[i] && dev_bus(self.devices@[i])
                        == bus@ && dev_id(self.devices@[i]) == can_id && forall|j: int|
                        0 <= j < i ==> !(dev_bus(#[trigger] self.devices@[j]) == bus@ && dev_id(
                            self.devices@[j],
                        ) == can_id),
                None => forall|i: int|
                    0 <= i < self.devices@.len() ==> !(dev_bus(#[trigger] self.devices@[i]) == bus@
                        && dev_id(self.devices@[i]) == can_id),
            },
    {
        let mut i: usize = 0;
        while i < self.devices.len()
            invariant
                i <= self.devices@.len(),
                forall|j: int|
                    0 <= j < i ==> !(dev_bus(#[trigger] self.devices@[j]) == bus@ && dev_id(
                        self.devices@[j],
                    ) == can_id),
            decreases self.devices@.len() - i,
        {
            if self.devices[i].can_id() == can_id && str_eq(self.devices[i].can_bus(), bus) {
                return Some(&self.devices[i]);
            }
            i = i + 1;
        }
        None
    }

    /// The actuators, in file order.
    pub fn actuators(&self) -> (r: Vec<&Actuator>)
        ensures
            r@.len() == actuators_of(self.devices@).len(),
            forall|k: int| 0 <= k < r@.len() ==> *r@[k] == actuators_of(self.devices@)[k],
    {
        let mut r: Vec<&Actuator> = Vec::new();
        let mut i: usize = 0;
        while i < self.devices.len()
            invariant
                i <= self.devices@.len(),
                r@.len() == actuators_of(self.devices@.take(i as int)).len(),
                forall|k: int| 0 <= k < r@.len() ==> *r@[k] == actuators_of(self.devices@.take(i as int))[k],
            decreases self.devices@.len() - i,
        {
            assert(self.devices@.take(i + 1).drop_last() == self.devices@.take(i as int));
            match &self.devices[i] {
                Device::Actuator(a) => {
                    r.push(a);
                },
                _ => {},
            }
            i = i + 1;
        }
        assert(self.devices@.take(self.devices@.len() as int) =~= self.devices@);
        r
    }

    /// The sensors, in file order.
    pub fn sensors(&self) -> (r: Vec<&Sensor>)
        ensures
            r@.len() == sensors_of(self.devices@).len(),
            forall|k: int| 0 <= k < r@.len() ==> *r@[k] == sensors_of(self.devices@)[k],
    {
        let mut r: Vec<&Sensor> = Vec::new();
        let mut i: usize = 0;
        while i < self.devices.len()
            invariant
                i <= self.devices@.len(),
                r@.len() == sensors_of(self.devices@.take(i as int)).len(),
                forall|k: int| 0 <= k < r@.len() ==> *r@[k] == sensors_of(self.devices@.take(i as int))[k],
            decreases self.devices@.len() - i,
        {
            assert(self.devices@.take(i + 1).drop_last() == self.devices@.take(i as int));
            match &self.devices[i] {
                Device::Sensor(s) => {
                    r.push(s);
                },
                _ => {},
            }
            i = i + 1;
        }
        assert(self.devices@.take(self.devices@.len() as int) =~= self.devices@);
        r
    }

    /// The batteries, in file order.
    pub fn batteries(&self) -> (r: Vec<&Battery>)
        ensures
            r@.len() == batteries_of(self.devices@).len(),
            forall|k: int| 0 <= k < r@.len() ==> *r@[k] == batteries_of(self.devices@)[k],
    {
        let mut r: Vec<&Battery> = Vec::new();
        let mut i: usize = 0;
        while i < self.devices.len()
            invariant
                i <= self.devices@.len(),
                r@.len() == batteries_of(self.devices@.take(i as int)).len(),
                forall|k: int| 0 <= k < r@.len() ==> *r@[k] == batteries_of(self.devices@.take(i as int))[k],
            decreases self.devices@.len() - i,
        {
            assert(self.devices@.take(i + 1).drop_last() == self.devices@.take(i as int));
            match &self.devices[i] {
                Device::Battery(b) => {
                    r.push(b);
                },
                _ => {},
            }
            i = i + 1;
        }
        assert(self.devices@.take(self.devices@.len() as int) =~= self.devices@);
        r
    }
}

/// The actuators among `devs`, in order.
pub open spec fn actuators_of(devs: Seq<Device>) -> Seq<Actuator>
    decreases devs.len(),
{
    if devs.len() == 0 {
        Seq::empty()
    } else {
        match devs.last() {
            Device::Actuator(a) => actuators_of(devs.drop_last()).push(a),
            _ => actuators_of(devs.drop_last()),
        }
    }
}

/// The sensors among `devs`, in order.
pub open spec fn sensors_of(devs: Seq<Device>) -> Seq<Sensor>
    decreases devs.len(),
{
    if devs.len() == 0 {
        Seq::empty()
    } else {
        match devs.last() {
            Device::Sensor(s) => sensors_of(devs.drop_last()).push(s),
            _ => sensors_of(devs.drop_last()),
        }
    }
}

/// The batteries among `devs`, in order.
pub open spec fn batteries_of(devs: Seq<Device>) -> Seq<Battery>
    decreases devs.len(),
{
    if devs.len() == 0 {
        Seq::empty()
    } else {
        match devs.last() {
            Device::Battery(b) => batteries_of(devs.drop_last()).push(b),
            _ => batteries_of(devs.drop_last()),
        }
    }
}

/// In a valid inventory no two devices share a role or a bus address, so
/// a lookup by role or by address names exactly one device.
pub proof fn law_valid_inventory_has_unique_keys(devs: Seq<Device>, i: int, j: int)
    requires
        inventory_violation(devs) is None,
        0 <= i < devs.len(),
        0 <= j < devs.len(),
        i != j,
    ensures
        dev_role(devs[i]) != dev_role(devs[j]),
        !(dev_bus(devs[i]) == dev_bus(devs[j]) && dev_id(devs[i]) == dev_id(devs[j])),
        role_format_error(role_bytes(dev_role(devs[i]))) is None,
{
    let (a, b) = if i < j { (i, j) } else { (j, i) };
    lemma_prefix_clean(devs, b + 1, devs.len() as int);
    lemma_prefix_clean(devs, a + 1, devs.len() as int);
    assert(first_device_violation(devs, b + 1) is None);
    assert(device_violation(devs, b) is None);
    assert(device_violation(devs, a) is None);
    if dev_role(devs[a]) == dev_role(devs[b]) {
        assert(role_used_before(devs, b));
    }
    if dev_bus(devs[a]) == dev_bus(devs[b]) && dev_id(devs[a]) == dev_id(devs[b]) {
        assert(address_used_before(devs, b));
    }
    lemma_prefix_clean(devs, i + 1, devs.len() as int);
    assert(device_violation(devs, i) is None);
}

/// In a valid inventory every actuator that names both a limb `l` and a
/// joint kind `j` has the role `l.j`; one that names a joint kind names a
/// limb too.
pub proof fn law_valid_inventory_roles_match_assignment(devs: Seq<Device>, i: int)
    requires
        inventory_violation(devs) is None,
        0 <= i < devs.len(),
    ensures
        devs[i] matches Device::Actuator(a) ==> (a.common.joint_kind is Some ==> a.common.limb is Some),
        devs[i] matches Device::Actuator(a) ==> (a.common.limb is Some && a.common.joint_kind is Some
            ==> a.common.role@ == a.common.limb->0@ + seq!['.'] + a.common.joint_kind->0@),
{
    lemma_prefix_clean(devs, i + 1, devs.len() as int);
    assert(first_device_violation(devs, i + 1) is None);
    assert(device_violation(devs, i) is None);
    match devs[i] {
        Device::Actuator(a) => {
            assert(role_format_error(role_bytes(dev_role(devs[i]))) is None);
            assert(!role_used_before(devs, i));
            assert(!address_used_before(devs, i));
            match (a.common.limb, a.common.joint_kind) {
                (Some(l), Some(j)) => {
                    assert(canonical_of(a.common) == Some(l@ + seq!['.'] + j@));
                    assert(a.common.role@ == l@ + seq!['.'] + j@);
                },
                _ => {},
            }
        },
        _ => {},
    }
}

proof fn lemma_prefix_clean(devs: Seq<Device>, n: int, m: int)
    requires
        0 <= n <= m,
        first_device_violation(devs, m) is None,
    ensures
        first_device_violation(devs, n) is None,
    decreases m - n,
{
    if first_device_violation(devs, n) is Some {
        lemma_first_device_stable(devs, n, m);
    }
}

} // verus!
