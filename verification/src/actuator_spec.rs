//! Rules of the RobStride actuator spec files (`robstride_<model>.yaml`):
//! which directory entries are spec files, and the agreement between a
//! file's name and the `actuator_model` it declares.
//!
//! Reading and YAML-parsing the files happens in the daemon.
use vstd::prelude::*;

use crate::inventory::RobstrideModel;
use crate::text::{
    chars_eq, chars_of, copy_string, ends_with_chars, has_prefix, has_suffix, lower_chars, lower_seq,
    starts_with_chars, string_from_chars, trim_chars, upper_chars, upper_seq,
};

verus! {

/// Inclusive bit ranges `[low, high]` within the 29-bit arbitration id.
#[derive(Debug, Clone, Copy)]
pub struct ProtocolIdLayout {
    pub comm_type_bits: [u8; 2],
    pub data_area_2_bits: [u8; 2],
    pub dest_addr_bits: [u8; 2],
}

impl Default for ProtocolIdLayout {
    fn default() -> (r: ProtocolIdLayout)
        ensures
            r.comm_type_bits@ == seq![0u8, 0u8],
            r.data_area_2_bits@ == seq![0u8, 0u8],
            r.dest_addr_bits@ == seq![0u8, 0u8],
    {
        let r = ProtocolIdLayout {
            comm_type_bits: [0, 0],
            data_area_2_bits: [0, 0],
            dest_addr_bits: [0, 0],
        };
        assert(r.comm_type_bits@ =~= seq![0u8, 0u8]);
        assert(r.data_area_2_bits@ =~= seq![0u8, 0u8]);
        assert(r.dest_addr_bits@ =~= seq![0u8, 0u8]);
        r
    }
}

/// Physical and id-layout sections under `protocol:`.
#[derive(Debug)]
pub struct ProtocolSpec {
    pub physical_layer: String,
    pub bitrate_bps: u32,
    pub frame_format: String,
    pub data_length: u8,
    pub id_layout: ProtocolIdLayout,
    /// Comm type ids by name, in name order.
    pub comm_types: Vec<(String, u32)>,
}

impl Default for ProtocolSpec {
    fn default() -> (r: ProtocolSpec)
        ensures
            r.physical_layer@.len() == 0,
            r.bitrate_bps == 0,
            r.frame_format@.len() == 0,
            r.data_length == 0,
            r.id_layout.comm_type_bits@ == seq![0u8, 0u8],
            r.id_layout.data_area_2_bits@ == seq![0u8, 0u8],
            r.id_layout.dest_addr_bits@ == seq![0u8, 0u8],
            r.comm_types@.len() == 0,
    {
        ProtocolSpec {
            physical_layer: String::new(),
            bitrate_bps: 0,
            frame_format: String::new(),
            data_length: 0,
            id_layout: ProtocolIdLayout::default(),
            comm_types: Vec::new(),
        }
    }
}

/// A spec file whose declared model disagrees with its file name.
#[derive(Debug)]
pub enum SpecFileError {
    ModelMismatch { found: String, expected: String },
}

/// The model a `robstride_<model>` file stem names, if it is one.
pub open spec fn model_from_stem(stem: Seq<char>) -> Option<Seq<char>> {
    if has_prefix(stem, "robstride_"@) {
        Some(stem.skip("robstride_"@.len() as int))
    } else {
        None
    }
}

/// Does `actuator_model` disagree (ASCII case-insensitively) with the
/// model named by the file stem? Files not named `robstride_*` are not
/// checked.
pub open spec fn model_mismatch(model: Seq<char>, stem: Option<Seq<char>>) -> bool {
    match stem {
        None => false,
        Some(st) => match model_from_stem(st) {
            None => false,
            Some(m) => upper_seq(model) != upper_seq(m),
        },
    }
}

/// What `std::path::Path::file_stem` returns for `p`.
pub uninterp spec fn path_file_stem(p: Seq<char>) -> Option<Seq<char>>;

/// `std::path::Path::file_stem`: the file name without its extension.
/// Nothing is claimed of the result beyond its name.
#[verifier::external_body]
fn file_stem_of(p: &str) -> (r: Option<String>)
    ensures
        match r {
            Some(s) => path_file_stem(p@) == Some(s@),
            None => path_file_stem(p@) is None,
        },
{
    std::path::Path::new(p).file_stem().map(|s| s.to_string_lossy().into_owned())
}

/// Check `actuator_model` against a file stem (see [`model_mismatch`]).
pub fn check_model_against_stem(actuator_model: &str, stem: Option<&str>) -> (r: Result<
    (),
    SpecFileError,
>)
    ensures
        r is Ok <==> !model_mismatch(actuator_model@, match stem {
            Some(s) => Some(s@),
            None => None,
        }),
        match r {
            Err(SpecFileError::ModelMismatch { found, expected }) => found@ == upper_seq(
                actuator_model@,
            ) && (stem matches Some(st) && (model_from_stem(st@) matches Some(m) && expected@
                == upper_seq(m))),
            Ok(_) => true,
        },
{
    let st = match stem {
        None => return Ok(()),
        Some(s) => s,
    };
    let cs = chars_of(st);
    let prefix = chars_of("robstride_");
    if !starts_with_chars(cs.as_slice(), prefix.as_slice()) {
        return Ok(());
    }
    let mut rest: Vec<char> = Vec::new();
    let mut i: usize = prefix.len();
    while i < cs.len()
        invariant
            prefix@.len() <= i <= cs@.len(),
            rest@ == cs@.subrange(prefix@.len() as int, i as int),
        decreases cs@.len() - i,
    {
        rest.push(cs[i]);
        assert(cs@.subrange(prefix@.len() as int, i + 1) =~= cs@.subrange(
            prefix@.len() as int,
            i as int,
        ).push(cs@[i as int]));
        i = i + 1;
    }
    assert(rest@ =~= cs@.skip(prefix@.len() as int));
    let expected = upper_chars(rest.as_slice());
    let found = upper_chars(chars_of(actuator_model).as_slice());
    if chars_eq(found.as_slice(), expected.as_slice()) {
        Ok(())
    } else {
        Err(
            SpecFileError::ModelMismatch {
                found: string_from_chars(found.as_slice()),
                expected: string_from_chars(expected.as_slice()),
            },
        )
    }
}

/// For `robstride_<suffix>.yaml`, `actuator_model` must match `<suffix>`
/// (ASCII case-insensitive); other file names are not checked.
pub fn validate_actuator_model_against_filename(actuator_model: &str, path: &str) -> (r: Result<
    (),
    SpecFileError,
>)
    ensures
        r is Ok <==> !model_mismatch(actuator_model@, path_file_stem(path@)),
{
    let stem = file_stem_of(path);
    match stem {
        Some(s) => check_model_against_stem(actuator_model, Some(s.as_str())),
        None => check_model_against_stem(actuator_model, None),
    }
}

/// Is a directory entry named `name` a RobStride spec file
/// (`robstride_*` with a `.yaml` / `.yml` extension, any case)?
pub open spec fn is_spec_file_name(name: Seq<char>) -> bool {
    has_prefix(name, "robstride_"@) && (has_suffix(lower_seq(name), ".yaml"@) || has_suffix(
        lower_seq(name),
        ".yml"@,
    ))
}

pub fn is_robstride_spec_file(name: &str) -> (b: bool)
    ensures
        b == is_spec_file_name(name@),
{
    let cs = chars_of(name);
    let prefix = chars_of("robstride_");
    if !starts_with_chars(cs.as_slice(), prefix.as_slice()) {
        return false;
    }
    let lower = lower_chars(cs.as_slice());
    let yaml = chars_of(".yaml");
    let yml = chars_of(".yml");
    ends_with_chars(lower.as_slice(), yaml.as_slice()) || ends_with_chars(
        lower.as_slice(),
        yml.as_slice(),
    )
}

/// Record that a spec for `model` was loaded; `false` when one already was
/// (two files for the same model are refused).
pub fn register_model(models: &mut Vec<RobstrideModel>, model: RobstrideModel) -> (added: bool)
    ensures
        added == !old(models)@.contains(model),
        added ==> final(models)@ == old(models)@.push(model),
        !added ==> final(models)@ == old(models)@,
{
    let mut i: usize = 0;
    while i < models.len()
        invariant
            i <= models@.len(),
            models@ == old(models)@,
            forall|j: int| 0 <= j < i ==> models@[j] != model,
        decreases models@.len() - i,
    {
        if models[i] == model {
            return false;
        }
        i = i + 1;
    }
    models.push(model);
    true
}

/// Value of a hexadecimal digit.
pub open spec fn hex_digit(c: char) -> Option<nat> {
    if '0' <= c && c <= '9' {
        Some((c as nat - '0' as nat) as nat)
    } else if 'a' <= c && c <= 'f' {
        Some((c as nat - 'a' as nat + 10) as nat)
    } else if 'A' <= c && c <= 'F' {
        Some((c as nat - 'A' as nat + 10) as nat)
    } else {
        None
    }
}

pub open spec fn all_hex(s: Seq<char>) -> bool {
    forall|i: int| 0 <= i < s.len() ==> (#[trigger] hex_digit(s[i])) is Some
}

/// Value of a string of hexadecimal digits.
pub open spec fn hex_value(s: Seq<char>) -> nat
    decreases s.len(),
{
    if s.len() == 0 {
        0
    } else {
        hex_value(s.drop_last()) * 16 + match hex_digit(s.last()) {
            Some(d) => d,
            None => 0,
        }
    }
}

/// The digits `u16::from_str_radix(_, 16)` reads: an optional leading `+`
/// is dropped (a lone sign has no digits).
pub open spec fn radix_digits(s: Seq<char>) -> Seq<char> {
    if s.len() > 1 && s[0] == '+' {
        s.skip(1)
    } else {
        s
    }
}

/// `u16::from_str_radix(s, 16)`.
pub open spec fn parse_u16_hex(s: Seq<char>) -> Option<u16> {
    let d = radix_digits(s);
    if d.len() == 0 || !all_hex(d) || hex_value(d) > 0xffff {
        None
    } else {
        Some(hex_value(d) as u16)
    }
}

/// A parameter index written as text in a spec file: surrounding
/// whitespace trimmed, an optional `0x` / `0X` prefix, then hexadecimal.
pub open spec fn index_text_value(s: Seq<char>) -> Option<u16> {
    let t = crate::text::trim_seq(s);
    let body = if has_prefix(t, "0x"@) || has_prefix(t, "0X"@) {
        t.skip(2)
    } else {
        t
    };
    parse_u16_hex(body)
}

proof fn lemma_hex_value_prefix(s: Seq<char>, k: int)
    requires
        0 <= k <= s.len(),
    ensures
        hex_value(s.take(k)) <= hex_value(s),
    decreases s.len(),
{
    if k < s.len() {
        assert(s.drop_last().take(k) =~= s.take(k));
        lemma_hex_value_prefix(s.drop_last(), k);
    } else {
        assert(s.take(k) =~= s);
    }
}

fn digit_value(c: char) -> (r: Option<u32>)
    ensures
        match r {
            Some(v) => hex_digit(c) == Some(v as nat) && v < 16,
            None => hex_digit(c) is None,
        },
{
    if '0' <= c && c <= '9' {
        Some((c as u32) - ('0' as u32))
    } else if 'a' <= c && c <= 'f' {
        Some((c as u32) - ('a' as u32) + 10)
    } else if 'A' <= c && c <= 'F' {
        Some((c as u32) - ('A' as u32) + 10)
    } else {
        None
    }
}

fn parse_hex_digits(d: &[char]) -> (r: Option<u16>)
    ensures
        r == (if d@.len() == 0 || !all_hex(d@) || hex_value(d@) > 0xffff {
            None::<u16>
        } else {
            Some(hex_value(d@) as u16)
        }),
{
    if d.len() == 0 {
        return None;
    }
    let mut v: u32 = 0;
    let mut i: usize = 0;
    while i < d.len()
        invariant
            i <= d@.len(),
            v == hex_value(d@.take(i as int)),
            v <= 0xffff,
            all_hex(d@.take(i as int)),
        decreases d@.len() - i,
    {
        assert(d@.take(i + 1).drop_last() =~= d@.take(i as int));
        assert(d@.take(i + 1).last() == d@[i as int]);
        match digit_value(d[i]) {
            None => {
                return None;
            },
            Some(x) => {
                let nv: u32 = v * 16 + x;
                if nv > 0xffff {
                    proof {
                        lemma_hex_value_prefix(d@, i + 1);
                    }
                    return None;
                }
                v = nv;
            },
        }
        proof {
            assert forall|j: int| 0 <= j < i + 1 implies (#[trigger] hex_digit(d@.take(i + 1)[j])) is Some by {
                if j < i {
                    assert(d@.take(i + 1)[j] == d@.take(i as int)[j]);
                }
            }
        }
        i = i + 1;
    }
    assert(d@.take(d@.len() as int) =~= d@);
    Some(v as u16)
}

/// Parse a parameter index from spec-file text (`0x700B`, `0X700b`,
/// `700B`); `None` when it is not a hexadecimal `u16`.
pub fn parse_index_text(s: &str) -> (r: Option<u16>)
    ensures
        r == index_text_value(s@),
{
    let t = trim_chars(chars_of(s).as_slice());
    let p1 = chars_of("0x");
    let p2 = chars_of("0X");
    proof {
        reveal_strlit("0x");
        reveal_strlit("0X");
        assert(p1@.len() == 2 && p2@.len() == 2);
    }
    let body: Vec<char> = if starts_with_chars(t.as_slice(), p1.as_slice()) || starts_with_chars(
        t.as_slice(),
        p2.as_slice(),
    ) {
        let mut b: Vec<char> = Vec::new();
        let mut i: usize = 2;
        while i < t.len()
            invariant
                2 <= i <= t@.len(),
                b@ == t@.subrange(2, i as int),
            decreases t@.len() - i,
        {
            b.push(t[i]);
            assert(t@.subrange(2, i + 1) =~= t@.subrange(2, i as int).push(t@[i as int]));
            i = i + 1;
        }
        assert(b@ =~= t@.skip(2));
        b
    } else {
        t
    };
    let digits: Vec<char> = if body.len() > 1 && body[0] == '+' {
        let mut b: Vec<char> = Vec::new();
        let mut i: usize = 1;
        while i < body.len()
            invariant
                1 <= i <= body@.len(),
                b@ == body@.subrange(1, i as int),
            decreases body@.len() - i,
        {
            b.push(body[i]);
            assert(body@.subrange(1, i + 1) =~= body@.subrange(1, i as int).push(body@[i as int]));
            i = i + 1;
        }
        assert(b@ =~= body@.skip(1));
        b
    } else {
        body
    };
    parse_hex_digits(digits.as_slice())
}

/// A parameter index written as a YAML number: it must fit in `u16`.
pub fn index_from_number(n: u64) -> (r: Option<u16>)
    ensures
        r == (if n <= 0xffff {
            Some(n as u16)
        } else {
            None::<u16>
        }),
{
    if n <= 0xffff {
        Some(n as u16)
    } else {
        None
    }
}

} // verus!
