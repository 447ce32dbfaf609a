//! Device mapping definitions: translating between a device's raw hardware
//! codes and the canonical button/axis vocabulary, in both directions, and
//! the database that resolves a device identity to its definition text.
//!
//! A definition is one comma-separated line, `<guid>,<name>,<key>:<value>,...`.
//! A `b<N>` value picks the N-th available raw button, `a<N>` the N-th
//! available raw axis, and `h0.<D>` a digital-pad direction on the hat axes.
//! A key whose value resolves inserts one raw-code-to-canonical-code entry;
//! raw codes without an entry pass through unchanged.

use crate::ev;
use crate::identity::parse_guid;
use crate::identity::spec_parse_guid;
use crate::text::{
    chars_eq_str,
    find_from,
    lemma_split_nosep,
    lemma_split_sep,
    parse_dec,
    split_chars,
    split_seq,
    spec_parse_dec,
    str_to_chars,
    sub_chars,
    tail_chars,
    DecParse,
};
use vstd::prelude::*;

verus! {

/// The first value of the first pair with key `k`, scanning left to right.
pub open spec fn alist_get<V>(s: Seq<(u16, V)>, k: u16) -> Option<V>
    decreases s.len(),
{
    if s.len() == 0 {
        None
    } else if s[0].0 == k {
        Some(s[0].1)
    } else {
        alist_get(s.drop_first(), k)
    }
}

/// The first key of a pair whose value is `code`, scanning left to right;
/// on a key-sorted list this is the least such key.
pub open spec fn alist_rev_get(s: Seq<(u16, u16)>, code: u16) -> Option<u16>
    decreases s.len(),
{
    if s.len() == 0 {
        None
    } else if s[0].1 == code {
        Some(s[0].0)
    } else {
        alist_rev_get(s.drop_first(), code)
    }
}

/// Strictly ascending keys: each key occurs once and scanning order is key
/// order.
pub open spec fn sorted_uniq(s: Seq<(u16, u16)>) -> bool {
    forall|i: int, j: int| 0 <= i < j < s.len() ==> s[i].0 < s[j].0
}

/// Key-sorted insertion, replacing the entry if the key is present.
pub open spec fn spec_insert(s: Seq<(u16, u16)>, k: u16, v: u16) -> Seq<(u16, u16)>
    decreases s.len(),
{
    if s.len() == 0 {
        seq![(k, v)]
    } else if s[0].0 < k {
        seq![s[0]] + spec_insert(s.drop_first(), k, v)
    } else if s[0].0 == k {
        seq![(k, v)] + s.drop_first()
    } else {
        seq![(k, v)] + s
    }
}

/// Raw-to-canonical translation with identity fallback: a raw code without
/// an entry maps to itself.
pub open spec fn spec_map_get(s: Seq<(u16, u16)>, code: u16) -> u16 {
    match alist_get(s, code) {
        Some(c) => c,
        None => code,
    }
}

/// Canonical-to-raw translation with identity fallback: the least raw code
/// declared for `code`, or `code` itself if none is.
pub open spec fn spec_map_rev_get(s: Seq<(u16, u16)>, code: u16) -> u16 {
    match alist_rev_get(s, code) {
        Some(k) => k,
        None => code,
    }
}

proof fn lemma_spec_insert_at(s: Seq<(u16, u16)>, k: u16, v: u16, i: int)
    requires
        0 <= i <= s.len(),
        forall|j: int| 0 <= j < i ==> s[j].0 < k,
        i < s.len() ==> s[i].0 >= k,
    ensures
        spec_insert(s, k, v) == if i < s.len() && s[i].0 == k {
            s.update(i, (k, v))
        } else {
            s.insert(i, (k, v))
        },
    decreases i,
{
    if i == 0 {
        if s.len() == 0 {
            assert(spec_insert(s, k, v) =~= s.insert(0, (k, v)));
        } else if s[0].0 == k {
            assert(seq![(k, v)] + s.drop_first() =~= s.update(0, (k, v)));
        } else {
            assert(seq![(k, v)] + s =~= s.insert(0, (k, v)));
        }
    } else {
        assert(s[0].0 < k);
        lemma_spec_insert_at(s.drop_first(), k, v, i - 1);
        if i < s.len() && s[i].0 == k {
            assert(s.drop_first()[i - 1].0 == k);
            assert(seq![s[0]] + s.drop_first().update(i - 1, (k, v)) =~= s.update(i, (k, v)));
        } else {
            assert(seq![s[0]] + s.drop_first().insert(i - 1, (k, v)) =~= s.insert(i, (k, v)));
        }
    }
}

/// Inserts `(k, val)` into a key-sorted list, replacing an existing entry
/// for `k`, and keeps the list key-sorted.
fn alist_insert(v: &mut Vec<(u16, u16)>, k: u16, val: u16)
    requires
        sorted_uniq(old(v)@),
    ensures
        final(v)@ == spec_insert(old(v)@, k, val),
        sorted_uniq(final(v)@),
{
    let mut i: usize = 0;
    while i < v.len() && v[i].0 < k
        invariant
            0 <= i <= v@.len(),
            forall|j: int| 0 <= j < i ==> v@[j].0 < k,
        decreases v@.len() - i,
    {
        i = i + 1;
    }
    proof {
        lemma_spec_insert_at(v@, k, val, i as int);
    }
    let ghost s0 = v@;
    if i < v.len() && v[i].0 == k {
        v.set(i, (k, val));
        proof {
            assert forall|p: int, q: int| 0 <= p < q < v@.len() implies v@[p].0 < v@[q].0 by {
                assert(s0[p].0 < s0[q].0);
            }
        }
    } else {
        v.insert(i, (k, val));
        proof {
            assert forall|p: int, q: int| 0 <= p < q < v@.len() implies v@[p].0 < v@[q].0 by {
                if p < i && q == i {
                } else if p == i && q > i {
                    assert(v@[q] == s0[q - 1]);
                    assert(s0[q - 1].0 >= k);
                    if q - 1 == i {
                        assert(s0[q - 1].0 != k);
                    } else {
                        assert(s0[i as int].0 < s0[q - 1].0);
                        assert(s0[i as int].0 >= k);
                    }
                } else if p < i && q > i {
                    assert(v@[p] == s0[p]);
                    assert(v@[q] == s0[q - 1]);
                } else if p > i && q > i {
                    assert(v@[p] == s0[p - 1]);
                    assert(v@[q] == s0[q - 1]);
                }
            }
        }
    }
}

/// Looks a key up in the list, first match in scanning order.
fn alist_find(v: &Vec<(u16, u16)>, k: u16) -> (r: Option<u16>)
    ensures
        r == alist_get(v@, k),
{
    let mut i: usize = 0;
    proof {
        assert(v@.subrange(0, v@.len() as int) =~= v@);
    }
    while i < v.len()
        invariant
            0 <= i <= v@.len(),
            alist_get(v@, k) == alist_get(v@.subrange(i as int, v@.len() as int), k),
        decreases v@.len() - i,
    {
        proof {
            let s = v@.subrange(i as int, v@.len() as int);
            assert(s[0] == v@[i as int]);
            assert(s.drop_first() =~= v@.subrange(i + 1, v@.len() as int));
        }
        if v[i].0 == k {
            return Some(v[i].1);
        }
        i = i + 1;
    }
    proof {
        assert(v@.subrange(i as int, v@.len() as int).len() == 0);
    }
    None
}

/// Finds the first entry whose value is `code`, in scanning order.
fn alist_rev_find(v: &Vec<(u16, u16)>, code: u16) -> (r: Option<u16>)
    ensures
        r == alist_rev_get(v@, code),
{
    let mut i: usize = 0;
    proof {
        assert(v@.subrange(0, v@.len() as int) =~= v@);
    }
    while i < v.len()
        invariant
            0 <= i <= v@.len(),
            alist_rev_get(v@, code) == alist_rev_get(v@.subrange(i as int, v@.len() as int), code),
        decreases v@.len() - i,
    {
        proof {
            let s = v@.subrange(i as int, v@.len() as int);
            assert(s[0] == v@[i as int]);
            assert(s.drop_first() =~= v@.subrange(i + 1, v@.len() as int));
        }
        if v[i].1 == code {
            return Some(v[i].0);
        }
        i = i + 1;
    }
    proof {
        assert(v@.subrange(i as int, v@.len() as int).len() == 0);
    }
    None
}

/// Why a mapping definition fails to parse.
#[derive(Clone, Copy, Debug, PartialEq, Eq, Structural)]
pub enum ParseSdlMappingError {
    MissingGuid,
    InvalidGuid,
    MissingName,
    InvalidPair,
    NotTargetPlatform,
    InvalidValue,
    InvalidBtn,
    InvalidAxis,
}

impl ParseSdlMappingError {
    /// A short description of the error.
    pub fn to_str(self) -> (r: &'static str)
        ensures
            r@ == self.spec_str(),
    {
        match self {
            ParseSdlMappingError::MissingGuid => "GUID is missing",
            ParseSdlMappingError::InvalidGuid => "GUID is invalid",
            ParseSdlMappingError::MissingName => "device name is missing",
            ParseSdlMappingError::InvalidPair => "key-value pair is invalid",
            ParseSdlMappingError::NotTargetPlatform => "mapping for different OS than target",
            ParseSdlMappingError::InvalidValue => "value is invalid",
            ParseSdlMappingError::InvalidBtn => "gamepad doesn't have requested button",
            ParseSdlMappingError::InvalidAxis => "gamepad doesn't have requested axis",
        }
    }

    pub open spec fn spec_str(self) -> Seq<char> {
        match self {
            ParseSdlMappingError::MissingGuid => "GUID is missing"@,
            ParseSdlMappingError::InvalidGuid => "GUID is invalid"@,
            ParseSdlMappingError::MissingName => "device name is missing"@,
            ParseSdlMappingError::InvalidPair => "key-value pair is invalid"@,
            ParseSdlMappingError::NotTargetPlatform => "mapping for different OS than target"@,
            ParseSdlMappingError::InvalidValue => "value is invalid"@,
            ParseSdlMappingError::InvalidBtn => "gamepad doesn't have requested button"@,
            ParseSdlMappingError::InvalidAxis => "gamepad doesn't have requested axis"@,
        }
    }
}

/// Which of the two translation tables a code belongs to.
#[derive(Clone, Copy, Debug, PartialEq, Eq, Structural)]
pub enum Kind {
    Button,
    Axis,
}

/// A device's raw-to-canonical translation: one sparse table for buttons,
/// one for axes, and the definition's display name. Codes without an entry
/// translate to themselves, so lookups never fail.
#[derive(Debug)]
pub struct Mapping {
    btns: Vec<(u16, u16)>,
    axes: Vec<(u16, u16)>,
    name: String,
}

impl Mapping {
    /// The button table, as a key-sorted association sequence.
    pub closed spec fn btns_seq(&self) -> Seq<(u16, u16)> {
        self.btns@
    }

    /// The axis table, as a key-sorted association sequence.
    pub closed spec fn axes_seq(&self) -> Seq<(u16, u16)> {
        self.axes@
    }

    /// The display name.
    pub closed spec fn name_seq(&self) -> Seq<char> {
        self.name@
    }

    /// Both tables are key-sorted, so scanning order is key order.
    pub closed spec fn wf(&self) -> bool {
        sorted_uniq(self.btns@) && sorted_uniq(self.axes@)
    }

    /// The empty mapping: every code passes through unchanged and the name
    /// is empty.
    pub fn new() -> (r: Mapping)
        ensures
            r.btns_seq() == Seq::<(u16, u16)>::empty(),
            r.axes_seq() == Seq::<(u16, u16)>::empty(),
            r.name_seq() == Seq::<char>::empty(),
            r.wf(),
    {
        Mapping { btns: Vec::new(), axes: Vec::new(), name: String::new() }
    }

    /// The definition's display name, empty if it carried none.
    pub fn name(&self) -> (r: &str)
        ensures
            r@ == self.name_seq(),
    {
        self.name.as_str()
    }

    /// Translates a raw code to its canonical code; a code without an
    /// entry is returned unchanged.
    pub fn map(&self, code: u16, kind: Kind) -> (r: u16)
        ensures
            r == match kind {
                Kind::Button => spec_map_get(self.btns_seq(), code),
                Kind::Axis => spec_map_get(self.axes_seq(), code),
            },
    {
        let t = match kind {
            Kind::Button => alist_find(&self.btns, code),
            Kind::Axis => alist_find(&self.axes, code),
        };
        match t {
            Some(c) => c,
            None => code,
        }
    }

    /// Translates a canonical code back to the least raw code declared for
    /// it; a code never declared is returned unchanged.
    pub fn map_rev(&self, code: u16, kind: Kind) -> (r: u16)
        ensures
            r == match kind {
                Kind::Button => spec_map_rev_get(self.btns_seq(), code),
                Kind::Axis => spec_map_rev_get(self.axes_seq(), code),
            },
    {
        let t = match kind {
            Kind::Button => alist_rev_find(&self.btns, code),
            Kind::Axis => alist_rev_find(&self.axes, code),
        };
        match t {
            Some(k) => k,
            None => code,
        }
    }
}

/// The canonical button code a button-only key declares, if the key is
/// one.
pub open spec fn spec_btn_key_code(key: Seq<char>) -> Option<u16> {
    if key == "x"@ {
        Some(ev::BTN_EAST)
    } else if key == "a"@ {
        Some(ev::BTN_SOUTH)
    } else if key == "b"@ {
        Some(ev::BTN_WEST)
    } else if key == "y"@ {
        Some(ev::BTN_NORTH)
    } else if key == "back"@ {
        Some(ev::BTN_SELECT)
    } else if key == "guide"@ {
        Some(ev::BTN_MODE)
    } else if key == "start"@ {
        Some(ev::BTN_START)
    } else if key == "leftstick"@ {
        Some(ev::BTN_THUMBL)
    } else if key == "rightstick"@ {
        Some(ev::BTN_THUMBR)
    } else {
        None
    }
}

/// The canonical axis code an axis-only key declares, if the key is one.
pub open spec fn spec_axis_key_code(key: Seq<char>) -> Option<u16> {
    if key == "leftx"@ {
        Some(ev::ABS_X)
    } else if key == "lefty"@ {
        Some(ev::ABS_Y)
    } else if key == "rightx"@ {
        Some(ev::ABS_RX)
    } else if key == "righty"@ {
        Some(ev::ABS_RY)
    } else {
        None
    }
}

/// The canonical (button, axis) code pair a key that accepts either kind
/// of value declares, if the key is one.
pub open spec fn spec_boa_key_codes(key: Seq<char>) -> Option<(u16, u16)> {
    if key == "leftshoulder"@ {
        Some((ev::BTN_TL, ev::ABS_HAT1Y))
    } else if key == "lefttrigger"@ {
        Some((ev::BTN_TL2, ev::ABS_HAT2Y))
    } else if key == "rightshoulder"@ {
        Some((ev::BTN_TR, ev::ABS_HAT1X))
    } else if key == "righttrigger"@ {
        Some((ev::BTN_TR2, ev::ABS_HAT2X))
    } else if key == "dpleft"@ {
        Some((ev::BTN_DPAD_LEFT, ev::ABS_HAT0X))
    } else if key == "dpright"@ {
        Some((ev::BTN_DPAD_RIGHT, ev::ABS_HAT0X))
    } else if key == "dpup"@ {
        Some((ev::BTN_DPAD_UP, ev::ABS_HAT0Y))
    } else if key == "dpdown"@ {
        Some((ev::BTN_DPAD_DOWN, ev::ABS_HAT0Y))
    } else {
        None
    }
}

/// What a `b<N>` value resolves to: the N-th available raw button code.
/// An ill-formed numeral is `InvalidValue`; a well-formed index the device
/// lacks is `InvalidBtn`.
pub open spec fn spec_get_btn(val: Seq<char>, buttons: Seq<u16>) -> Result<
    u16,
    ParseSdlMappingError,
> {
    if val.len() == 0 || val[0] != 'b' {
        Err(ParseSdlMappingError::InvalidValue)
    } else {
        match spec_parse_dec(val.subrange(1, val.len() as int)) {
            None => Err(ParseSdlMappingError::InvalidValue),
            Some(n) => if n > usize::MAX {
                Err(ParseSdlMappingError::InvalidValue)
            } else if n >= buttons.len() {
                Err(ParseSdlMappingError::InvalidBtn)
            } else {
                Ok(buttons[n as int])
            },
        }
    }
}

/// What an `a<N>` or `h0.<D>` value resolves to: the N-th available raw
/// axis code, or the hat axis for direction D (1 and 4 vertical, 2 and 8
/// horizontal).
pub open spec fn spec_get_axis(val: Seq<char>, axes: Seq<u16>) -> Result<
    u16,
    ParseSdlMappingError,
> {
    if val.len() == 0 {
        Err(ParseSdlMappingError::InvalidValue)
    } else if val[0] == 'a' {
        match spec_parse_dec(val.subrange(1, val.len() as int)) {
            None => Err(ParseSdlMappingError::InvalidValue),
            Some(n) => if n > usize::MAX {
                Err(ParseSdlMappingError::InvalidValue)
            } else if n >= axes.len() {
                Err(ParseSdlMappingError::InvalidAxis)
            } else {
                Ok(axes[n as int])
            },
        }
    } else if val[0] == 'h' {
        let parts = split_seq(val.subrange(1, val.len() as int), '.');
        if spec_parse_dec(parts[0]) != Some(0nat) {
            Err(ParseSdlMappingError::InvalidValue)
        } else if parts.len() < 2 {
            Err(ParseSdlMappingError::InvalidValue)
        } else {
            match spec_parse_dec(parts[1]) {
                None => Err(ParseSdlMappingError::InvalidValue),
                Some(d) => if d == 1 || d == 4 {
                    Ok(ev::ABS_HAT0Y)
                } else if d == 2 || d == 8 {
                    Ok(ev::ABS_HAT0X)
                } else {
                    Err(ParseSdlMappingError::InvalidValue)
                },
            }
        }
    } else {
        Err(ParseSdlMappingError::InvalidValue)
    }
}

/// How one `key:value` field transforms the two tables, or which error it
/// raises. An empty field and an empty value are skipped, as are unknown
/// keys and values that name a button or axis the device lacks; a
/// `platform` value for another platform aborts the parse.
pub open spec fn spec_apply_field(
    field: Seq<char>,
    bt: Seq<(u16, u16)>,
    ax: Seq<(u16, u16)>,
    buttons: Seq<u16>,
    axes: Seq<u16>,
) -> Result<(Seq<(u16, u16)>, Seq<(u16, u16)>), ParseSdlMappingError> {
    let parts = split_seq(field, ':');
    if field.len() == 0 {
        Ok((bt, ax))
    } else if parts.len() < 2 {
        Err(ParseSdlMappingError::InvalidPair)
    } else {
        let key = parts[0];
        let val = parts[1];
        if val.len() == 0 {
            Ok((bt, ax))
        } else if key == "platform"@ {
            if val == "Linux"@ {
                Ok((bt, ax))
            } else {
                Err(ParseSdlMappingError::NotTargetPlatform)
            }
        } else {
            match spec_btn_key_code(key) {
                Some(nc) => match spec_get_btn(val, buttons) {
                    Ok(code) => Ok((spec_insert(bt, code, nc), ax)),
                    Err(ParseSdlMappingError::InvalidBtn) => Ok((bt, ax)),
                    Err(e) => Err(e),
                },
                None => match spec_axis_key_code(key) {
                    Some(nc) => match spec_get_axis(val, axes) {
                        Ok(code) => Ok((bt, spec_insert(ax, code, nc))),
                        Err(ParseSdlMappingError::InvalidAxis) => Ok((bt, ax)),
                        Err(e) => Err(e),
                    },
                    None => match spec_boa_key_codes(key) {
                        Some(nc) => if val[0] == 'b' {
                            match spec_get_btn(val, buttons) {
                                Ok(code) => Ok((spec_insert(bt, code, nc.0), ax)),
                                Err(ParseSdlMappingError::InvalidBtn) => Ok((bt, ax)),
                                Err(e) => Err(e),
                            }
                        } else if val[0] == 'a' || val[0] == 'h' {
                            match spec_get_axis(val, axes) {
                                Ok(code) => Ok((bt, spec_insert(ax, code, nc.1))),
                                Err(ParseSdlMappingError::InvalidAxis) => Ok((bt, ax)),
                                Err(e) => Err(e),
                            }
                        } else {
                            Err(ParseSdlMappingError::InvalidValue)
                        },
                        None => Ok((bt, ax)),
                    },
                },
            }
        }
    }
}

/// The fold of `spec_apply_field` over the fields from index `i` on.
pub open spec fn spec_parse_fields(
    fields: Seq<Seq<char>>,
    i: int,
    bt: Seq<(u16, u16)>,
    ax: Seq<(u16, u16)>,
    buttons: Seq<u16>,
    axes: Seq<u16>,
) -> Result<(Seq<(u16, u16)>, Seq<(u16, u16)>), ParseSdlMappingError>
    decreases fields.len() - i,
{
    if i < 0 || i >= fields.len() {
        Ok((bt, ax))
    } else {
        match spec_apply_field(fields[i], bt, ax, buttons, axes) {
            Err(e) => Err(e),
            Ok(t) => spec_parse_fields(fields, i + 1, t.0, t.1, buttons, axes),
        }
    }
}

/// What parsing a whole definition line yields: the two tables built from
/// the `key:value` fields and the name field, or the first error. A line
/// without a second comma-field has no name.
pub open spec fn spec_parse(line: Seq<char>, buttons: Seq<u16>, axes: Seq<u16>) -> Result<
    (Seq<(u16, u16)>, Seq<(u16, u16)>, Seq<char>),
    ParseSdlMappingError,
> {
    let fields = split_seq(line, ',');
    if fields.len() < 2 {
        Err(ParseSdlMappingError::MissingName)
    } else {
        match spec_parse_fields(
            fields,
            2,
            Seq::<(u16, u16)>::empty(),
            Seq::<(u16, u16)>::empty(),
            buttons,
            axes,
        ) {
            Err(e) => Err(e),
            Ok(t) => Ok((t.0, t.1, fields[1])),
        }
    }
}

fn btn_key_code(key: &Vec<char>) -> (r: Option<u16>)
    ensures
        r == spec_btn_key_code(key@),
{
    if chars_eq_str(key, "x") {
        Some(ev::BTN_EAST)
    } else if chars_eq_str(key, "a") {
        Some(ev::BTN_SOUTH)
    } else if chars_eq_str(key, "b") {
        Some(ev::BTN_WEST)
    } else if chars_eq_str(key, "y") {
        Some(ev::BTN_NORTH)
    } else if chars_eq_str(key, "back") {
        Some(ev::BTN_SELECT)
    } else if chars_eq_str(key, "guide") {
        Some(ev::BTN_MODE)
    } else if chars_eq_str(key, "start") {
        Some(ev::BTN_START)
    } else if chars_eq_str(key, "leftstick") {
        Some(ev::BTN_THUMBL)
    } else if chars_eq_str(key, "rightstick") {
        Some(ev::BTN_THUMBR)
    } else {
        None
    }
}

fn axis_key_code(key: &Vec<char>) -> (r: Option<u16>)
    ensures
        r == spec_axis_key_code(key@),
{
    if chars_eq_str(key, "leftx") {
        Some(ev::ABS_X)
    } else if chars_eq_str(key, "lefty") {
        Some(ev::ABS_Y)
    } else if chars_eq_str(key, "rightx") {
        Some(ev::ABS_RX)
    } else if chars_eq_str(key, "righty") {
        Some(ev::ABS_RY)
    } else {
        None
    }
}

fn boa_key_codes(key: &Vec<char>) -> (r: Option<(u16, u16)>)
    ensures
        r == spec_boa_key_codes(key@),
{
    if chars_eq_str(key, "leftshoulder") {
        Some((ev::BTN_TL, ev::ABS_HAT1Y))
    } else if chars_eq_str(key, "lefttrigger") {
        Some((ev::BTN_TL2, ev::ABS_HAT2Y))
    } else if chars_eq_str(key, "rightshoulder") {
        Some((ev::BTN_TR, ev::ABS_HAT1X))
    } else if chars_eq_str(key, "righttrigger") {
        Some((ev::BTN_TR2, ev::ABS_HAT2X))
    } else if chars_eq_str(key, "dpleft") {
        Some((ev::BTN_DPAD_LEFT, ev::ABS_HAT0X))
    } else if chars_eq_str(key, "dpright") {
        Some((ev::BTN_DPAD_RIGHT, ev::ABS_HAT0X))
    } else if chars_eq_str(key, "dpup") {
        Some((ev::BTN_DPAD_UP, ev::ABS_HAT0Y))
    } else if chars_eq_str(key, "dpdown") {
        Some((ev::BTN_DPAD_DOWN, ev::ABS_HAT0Y))
    } else {
        None
    }
}

fn get_btn(val: &Vec<char>, buttons: &[u16]) -> (r: Result<u16, ParseSdlMappingError>)
    ensures
        r == spec_get_btn(val@, buttons@),
{
    if val.len() == 0 {
        return Err(ParseSdlMappingError::InvalidValue);
    }
    if val[0] != 'b' {
        return Err(ParseSdlMappingError::InvalidValue);
    }
    match parse_dec(val, 1) {
        DecParse::Invalid => Err(ParseSdlMappingError::InvalidValue),
        DecParse::TooBig => Err(ParseSdlMappingError::InvalidValue),
        DecParse::Val(n) => {
            if n < buttons.len() {
                Ok(buttons[n])
            } else {
                Err(ParseSdlMappingError::InvalidBtn)
            }
        },
    }
}

fn get_axis(val: &Vec<char>, axes: &[u16]) -> (r: Result<u16, ParseSdlMappingError>)
    ensures
        r == spec_get_axis(val@, axes@),
{
    if val.len() == 0 {
        return Err(ParseSdlMappingError::InvalidValue);
    }
    let c = val[0];
    if c == 'a' {
        match parse_dec(val, 1) {
            DecParse::Invalid => Err(ParseSdlMappingError::InvalidValue),
            DecParse::TooBig => Err(ParseSdlMappingError::InvalidValue),
            DecParse::Val(n) => {
                if n < axes.len() {
                    Ok(axes[n])
                } else {
                    Err(ParseSdlMappingError::InvalidAxis)
                }
            },
        }
    } else if c == 'h' {
        let rest = tail_chars(val, 1);
        let parts = split_chars(&rest, '.');
        proof {
            assert(parts.deep_view()[0] == parts@[0]@);
            assert(parts@[0]@ == split_seq(val@.subrange(1, val@.len() as int), '.')[0]);
        }
        let hat_ok = match parse_dec(&parts[0], 0) {
            DecParse::Val(h) => h == 0,
            _ => false,
        };
        proof {
            assert(parts@[0]@.subrange(0, parts@[0]@.len() as int) =~= parts@[0]@);
        }
        if !hat_ok {
            return Err(ParseSdlMappingError::InvalidValue);
        }
        if parts.len() < 2 {
            return Err(ParseSdlMappingError::InvalidValue);
        }
        proof {
            assert(parts.deep_view()[1] == parts@[1]@);
            assert(parts@[1]@ == split_seq(val@.subrange(1, val@.len() as int), '.')[1]);
            assert(parts@[1]@.subrange(0, parts@[1]@.len() as int) =~= parts@[1]@);
        }
        match parse_dec(&parts[1], 0) {
            DecParse::Val(d) => {
                if d == 1 || d == 4 {
                    Ok(ev::ABS_HAT0Y)
                } else if d == 2 || d == 8 {
                    Ok(ev::ABS_HAT0X)
                } else {
                    Err(ParseSdlMappingError::InvalidValue)
                }
            },
            DecParse::TooBig => Err(ParseSdlMappingError::InvalidValue),
            DecParse::Invalid => Err(ParseSdlMappingError::InvalidValue),
        }
    } else {
        Err(ParseSdlMappingError::InvalidValue)
    }
}

fn apply_field(
    field: &Vec<char>,
    bt: &mut Vec<(u16, u16)>,
    ax: &mut Vec<(u16, u16)>,
    buttons: &[u16],
    axes: &[u16],
) -> (r: Result<(), ParseSdlMappingError>)
    requires
        sorted_uniq(old(bt)@),
        sorted_uniq(old(ax)@),
    ensures
        sorted_uniq(final(bt)@),
        sorted_uniq(final(ax)@),
        match r {
            Ok(_) => spec_apply_field(field@, old(bt)@, old(ax)@, buttons@, axes@) == Ok::<
                _,
                ParseSdlMappingError,
            >((final(bt)@, final(ax)@)),
            Err(e) => spec_apply_field(field@, old(bt)@, old(ax)@, buttons@, axes@) == Err::<
                (Seq<(u16, u16)>, Seq<(u16, u16)>),
                _,
            >(e) && final(bt)@ == old(bt)@ && final(ax)@ == old(ax)@,
        },
{
    if field.len() == 0 {
        return Ok(());
    }
    let parts = split_chars(field, ':');
    if parts.len() < 2 {
        return Err(ParseSdlMappingError::InvalidPair);
    }
    proof {
        assert(parts.deep_view()[0] == parts@[0]@);
        assert(parts.deep_view()[1] == parts@[1]@);
    }
    let key = &parts[0];
    let val = &parts[1];
    if val.len() == 0 {
        return Ok(());
    }
    if chars_eq_str(key, "platform") {
        if chars_eq_str(val, "Linux") {
            return Ok(());
        } else {
            return Err(ParseSdlMappingError::NotTargetPlatform);
        }
    }
    match btn_key_code(key) {
        Some(nc) => {
            return match get_btn(val, buttons) {
                Ok(code) => {
                    alist_insert(bt, code, nc);
                    Ok(())
                },
                Err(ParseSdlMappingError::InvalidBtn) => Ok(()),
                Err(e) => Err(e),
            };
        },
        None => {},
    }
    match axis_key_code(key) {
        Some(nc) => {
            return match get_axis(val, axes) {
                Ok(code) => {
                    alist_insert(ax, code, nc);
                    Ok(())
                },
                Err(ParseSdlMappingError::InvalidAxis) => Ok(()),
                Err(e) => Err(e),
            };
        },
        None => {},
    }
    match boa_key_codes(key) {
        Some((ncb, nca)) => {
            let c0 = val[0];
            if c0 == 'b' {
                return match get_btn(val, buttons) {
                    Ok(code) => {
                        alist_insert(bt, code, ncb);
                        Ok(())
                    },
                    Err(ParseSdlMappingError::InvalidBtn) => Ok(()),
                    Err(e) => Err(e),
                };
            } else if c0 == 'a' || c0 == 'h' {
                return match get_axis(val, axes) {
                    Ok(code) => {
                        alist_insert(ax, code, nca);
                        Ok(())
                    },
                    Err(ParseSdlMappingError::InvalidAxis) => Ok(()),
                    Err(e) => Err(e),
                };
            } else {
                return Err(ParseSdlMappingError::InvalidValue);
            }
        },
        None => {},
    }
    Ok(())
}

impl Mapping {
    /// Parses one mapping definition line against the device's available
    /// raw button and axis code lists. The result is exactly what
    /// `spec_parse` says of the line: each resolvable `key:value` field
    /// contributes one table entry, skippable failures are skipped, and
    /// the first aborting error is returned.
    pub fn parse_sdl_mapping(line: &str, buttons: &[u16], axes: &[u16]) -> (r: Result<
        Mapping,
        ParseSdlMappingError,
    >)
        ensures
            match r {
                Ok(m) => {
                    &&& spec_parse(line@, buttons@, axes@) matches Ok(t)
                    &&& m.btns_seq() == t.0
                    &&& m.axes_seq() == t.1
                    &&& m.name_seq() == t.2
                    &&& m.wf()
                },
                Err(e) => spec_parse(line@, buttons@, axes@) == Err::<
                    (Seq<(u16, u16)>, Seq<(u16, u16)>, Seq<char>),
                    _,
                >(e),
            },
    {
        let chars = str_to_chars(line);
        let fields = split_chars(&chars, ',');
        if fields.len() < 2 {
            return Err(ParseSdlMappingError::MissingName);
        }
        let nlen = chars.len();
        let i1 = match find_from(&chars, ',', 0) {
            Some(p) => p,
            None => {
                // Unreachable: a line that splits into two or more fields
                // holds a separator.
                proof {
                    lemma_split_nosep(chars@, ',');
                    assert(false);
                }
                return Err(ParseSdlMappingError::MissingName);
            },
        };
        assert(i1 < nlen);
        let i2 = match find_from(&chars, ',', i1 + 1) {
            Some(p) => p,
            None => nlen,
        };
        proof {
            let pre = chars@.subrange(0, i1 as int);
            let rest = chars@.subrange(i1 + 1, chars@.len() as int);
            assert(chars@ =~= pre + seq![','] + rest);
            lemma_split_sep(pre, ',', rest);
            if i2 < chars@.len() {
                let pre2 = chars@.subrange(i1 + 1, i2 as int);
                let rest2 = chars@.subrange(i2 + 1, chars@.len() as int);
                assert(rest =~= pre2 + seq![','] + rest2);
                lemma_split_sep(pre2, ',', rest2);
                assert(split_seq(rest, ',')[0] == pre2);
            } else {
                lemma_split_nosep(rest, ',');
            }
            assert(fields.deep_view()[1] == chars@.subrange(i1 + 1, i2 as int));
        }
        let name_str = line.substring_char(i1 + 1, i2);
        let name = String::from_str(name_str);
        let mut btns_v: Vec<(u16, u16)> = Vec::new();
        let mut axes_v: Vec<(u16, u16)> = Vec::new();
        let mut k: usize = 2;
        let ghost fv = fields.deep_view();
        proof {
            assert(fv =~~= split_seq(line@, ','));
        }
        while k < fields.len()
            invariant
                2 <= k <= fields@.len(),
                fv == fields.deep_view(),
                fields@.len() == fv.len(),
                fv == split_seq(line@, ','),
                sorted_uniq(btns_v@),
                sorted_uniq(axes_v@),
                spec_parse_fields(
                    fv,
                    2,
                    Seq::<(u16, u16)>::empty(),
                    Seq::<(u16, u16)>::empty(),
                    buttons@,
                    axes@,
                ) == spec_parse_fields(fv, k as int, btns_v@, axes_v@, buttons@, axes@),
            decreases fields@.len() - k,
        {
            proof {
                assert(fv[k as int] == fields@[k as int]@);
            }
            let field = &fields[k];
            match apply_field(field, &mut btns_v, &mut axes_v, buttons, axes) {
                Ok(_) => {},
                Err(e) => {
                    return Err(e);
                },
            }
            k = k + 1;
        }
        Ok(Mapping { btns: btns_v, axes: axes_v, name })
    }
}

/// A line with its trailing carriage return removed, as line-oriented
/// ingestion sees it.
pub open spec fn spec_strip_cr(line: Seq<char>) -> Seq<char> {
    if line.len() > 0 && line.last() == '\r' {
        line.drop_last()
    } else {
        line
    }
}

/// The identity a dataset line is indexed under: its first comma-field
/// parsed as a GUID. `None` for malformed lines, which are skipped.
pub open spec fn spec_db_line_key(line: Seq<char>) -> Option<u128> {
    spec_parse_guid(split_seq(line, ',')[0])
}

/// First-match lookup among the database entries.
pub open spec fn db_get(s: Seq<(u128, Seq<char>)>, k: u128) -> Option<Seq<char>>
    decreases s.len(),
{
    if s.len() == 0 {
        None
    } else if s[0].0 == k {
        Some(s[0].1)
    } else {
        db_get(s.drop_first(), k)
    }
}

/// Replacing the entry for `k` in place, or appending one: a later
/// ingestion for the same identity overwrites the earlier one.
pub open spec fn spec_db_set(s: Seq<(u128, Seq<char>)>, k: u128, line: Seq<char>) -> Seq<
    (u128, Seq<char>),
>
    decreases s.len(),
{
    if s.len() == 0 {
        seq![(k, line)]
    } else if s[0].0 == k {
        seq![(k, line)] + s.drop_first()
    } else {
        seq![s[0]] + spec_db_set(s.drop_first(), k, line)
    }
}

/// The database after ingesting the lines from index `i` on, in order:
/// each line whose first comma-field parses as a GUID is indexed under it
/// (stripped of a trailing carriage return); other lines are skipped.
pub open spec fn spec_db_ingest(
    s: Seq<(u128, Seq<char>)>,
    lines: Seq<Seq<char>>,
    i: int,
) -> Seq<(u128, Seq<char>)>
    decreases lines.len() - i,
{
    if i < 0 || i >= lines.len() {
        s
    } else {
        let l = spec_strip_cr(lines[i]);
        let s2 = match spec_db_line_key(l) {
            Some(k) => spec_db_set(s, k, l),
            None => s,
        };
        spec_db_ingest(s2, lines, i + 1)
    }
}

proof fn lemma_ingest_shift(s: Seq<(u128, Seq<char>)>, l: Seq<char>, ls: Seq<Seq<char>>, i: int)
    requires
        0 <= i,
    ensures
        spec_db_ingest(s, seq![l] + ls, i + 1) == spec_db_ingest(s, ls, i),
    decreases ls.len() - i,
{
    if i < ls.len() {
        assert((seq![l] + ls)[i + 1] == ls[i]);
        let l2 = spec_strip_cr(ls[i]);
        let s2 = match spec_db_line_key(l2) {
            Some(k) => spec_db_set(s, k, l2),
            None => s,
        };
        lemma_ingest_shift(s2, l, ls, i + 1);
    }
}

proof fn lemma_db_set_at(s: Seq<(u128, Seq<char>)>, k: u128, l: Seq<char>, i: int)
    requires
        0 <= i <= s.len(),
        forall|j: int| 0 <= j < i ==> s[j].0 != k,
        i < s.len() ==> s[i].0 == k,
    ensures
        spec_db_set(s, k, l) == if i < s.len() {
            s.update(i, (k, l))
        } else {
            s.push((k, l))
        },
    decreases i,
{
    if i == 0 {
        if s.len() == 0 {
            assert(spec_db_set(s, k, l) =~= s.push((k, l)));
        } else {
            assert(seq![(k, l)] + s.drop_first() =~= s.update(0, (k, l)));
        }
    } else {
        lemma_db_set_at(s.drop_first(), k, l, i - 1);
        if i < s.len() {
            assert(seq![s[0]] + s.drop_first().update(i - 1, (k, l)) =~= s.update(i, (k, l)));
        } else {
            assert(seq![s[0]] + s.drop_first().push((k, l)) =~= s.push((k, l)));
        }
    }
}

/// A later ingestion for an identity overwrites the earlier entry and
/// leaves every other identity's resolution unchanged.
pub proof fn lemma_db_set_overrides(s: Seq<(u128, Seq<char>)>, k: u128, l: Seq<char>, q: u128)
    ensures
        db_get(spec_db_set(s, k, l), q) == if q == k {
            Some(l)
        } else {
            db_get(s, q)
        },
    decreases s.len(),
{
    let t = spec_db_set(s, k, l);
    if s.len() == 0 {
        assert(t =~= seq![(k, l)]);
        assert(t[0] == (k, l));
        assert(t.drop_first() =~= Seq::<(u128, Seq<char>)>::empty());
        if q != k {
            assert(db_get(t, q) == db_get(t.drop_first(), q));
        }
    } else if s[0].0 == k {
        assert(t[0] == (k, l));
        assert(t.drop_first() =~= s.drop_first());
        if q != k {
            assert(db_get(t, q) == db_get(t.drop_first(), q));
            assert(db_get(s, q) == db_get(s.drop_first(), q));
        }
    } else {
        lemma_db_set_overrides(s.drop_first(), k, l, q);
        assert(t[0] == s[0]);
        assert(t.drop_first() =~= spec_db_set(s.drop_first(), k, l));
        assert(t.len() > 0);
        if q == s[0].0 {
            assert(db_get(t, q) == Some(t[0].1));
            assert(db_get(s, q) == Some(s[0].1));
        } else {
            assert(db_get(t, q) == db_get(t.drop_first(), q));
            assert(db_get(s, q) == db_get(s.drop_first(), q));
        }
    }
}

/// The identity-to-definition-text index: built once by ingesting datasets
/// in precedence order (later ingestions overwrite), then read-only.
#[derive(Debug)]
pub struct MappingDb {
    mappings: Vec<(u128, String)>,
}

impl MappingDb {
    /// The entries, each an identity with its definition line.
    pub closed spec fn entries_seq(&self) -> Seq<(u128, Seq<char>)> {
        self.mappings.deep_view()
    }

    /// An empty database; ingestion fills it.
    pub fn new() -> (r: MappingDb)
        ensures
            r.entries_seq() == Seq::<(u128, Seq<char>)>::empty(),
    {
        let r = MappingDb { mappings: Vec::new() };
        proof {
            assert(r.mappings.deep_view() =~= Seq::<(u128, Seq<char>)>::empty());
        }
        r
    }

    /// Ingests one newline-delimited dataset: every line whose first
    /// comma-field parses as a GUID is indexed under that identity,
    /// overwriting an earlier entry for it; malformed lines are skipped,
    /// never fatal.
    pub fn insert_to(&mut self, s: &str)
        ensures
            final(self).entries_seq() == spec_db_ingest(
                old(self).entries_seq(),
                split_seq(s@, '\n'),
                0,
            ),
    {
        let chars = str_to_chars(s);
        let ghost e0 = self.entries_seq();
        let ghost all_lines = split_seq(s@, '\n');
        let n = chars.len();
        let mut pos: usize = 0;
        let mut done: bool = false;
        proof {
            assert(chars@.subrange(0, n as int) =~= s@);
        }
        while !done
            invariant
                0 <= pos <= n,
                n == chars@.len(),
                chars@ == s@,
                all_lines == split_seq(s@, '\n'),
                !done ==> spec_db_ingest(e0, all_lines, 0) == spec_db_ingest(
                    self.entries_seq(),
                    split_seq(chars@.subrange(pos as int, n as int), '\n'),
                    0,
                ),
                done ==> spec_db_ingest(e0, all_lines, 0) == self.entries_seq(),
            decreases n - pos + if done {
                0int
            } else {
                1int
            },
        {
            let ghost remaining = chars@.subrange(pos as int, n as int);
            let nl = find_from(&chars, '\n', pos);
            let (line_end, had_nl): (usize, bool) = match nl {
                Some(e) => (e, true),
                None => (n, false),
            };
            let text_end = if line_end > pos && chars[line_end - 1] == '\r' {
                line_end - 1
            } else {
                line_end
            };
            let c1 = match find_from(&chars, ',', pos) {
                Some(p) => if p < text_end {
                    p
                } else {
                    text_end
                },
                None => text_end,
            };
            let ghost pre = chars@.subrange(pos as int, line_end as int);
            let ghost l2 = chars@.subrange(pos as int, text_end as int);
            proof {
                assert(spec_strip_cr(pre) =~= l2);
                if c1 < text_end {
                    assert(l2 =~= chars@.subrange(pos as int, c1 as int) + seq![',']
                        + chars@.subrange(c1 + 1, text_end as int));
                    lemma_split_sep(
                        chars@.subrange(pos as int, c1 as int),
                        ',',
                        chars@.subrange(c1 + 1, text_end as int),
                    );
                } else {
                    lemma_split_nosep(l2, ',');
                    assert(l2 =~= chars@.subrange(pos as int, c1 as int));
                }
                assert(split_seq(l2, ',')[0] == chars@.subrange(pos as int, c1 as int));
            }
            let field0 = sub_chars(&chars, pos, c1);
            let ghost s_before = self.entries_seq();
            match parse_guid(&field0) {
                Some(u) => {
                    let line_str = s.substring_char(pos, text_end);
                    let owned = String::from_str(line_str);
                    db_set_entry(&mut self.mappings, u, owned);
                },
                None => {},
            }
            let ghost s_new = self.entries_seq();
            proof {
                assert(s_new == match spec_db_line_key(l2) {
                    Some(k) => spec_db_set(s_before, k, l2),
                    None => s_before,
                });
                if had_nl {
                    let rest = chars@.subrange(line_end + 1, n as int);
                    assert(remaining =~= pre + seq!['\n'] + rest);
                    lemma_split_sep(pre, '\n', rest);
                    let lines_r = split_seq(remaining, '\n');
                    assert(lines_r =~~= seq![pre] + split_seq(rest, '\n'));
                    assert(lines_r[0] == pre);
                    assert(spec_db_ingest(s_before, lines_r, 0) == spec_db_ingest(
                        s_new,
                        lines_r,
                        1,
                    ));
                    lemma_ingest_shift(s_new, pre, split_seq(rest, '\n'), 0);
                    assert(spec_db_ingest(s_new, lines_r, 1) == spec_db_ingest(
                        s_new,
                        split_seq(rest, '\n'),
                        0,
                    ));
                } else {
                    assert(remaining =~= pre);
                    lemma_split_nosep(pre, '\n');
                    let lines_r = split_seq(remaining, '\n');
                    assert(lines_r =~~= seq![pre]);
                    assert(lines_r[0] == pre);
                    assert(spec_db_ingest(s_before, lines_r, 0) == spec_db_ingest(
                        s_new,
                        lines_r,
                        1,
                    ));
                    assert(spec_db_ingest(s_new, lines_r, 1) == s_new);
                }
            }
            if had_nl {
                pos = line_end + 1;
            } else {
                done = true;
            }
        }
    }

    /// Resolves an identity to its definition line, if one was ingested.
    pub fn get(&self, uuid: u128) -> (r: Option<&String>)
        ensures
            match (r, db_get(self.entries_seq(), uuid)) {
                (Some(t), Some(l)) => t@ == l,
                (None, None) => true,
                _ => false,
            },
    {
        let mut i: usize = 0;
        proof {
            assert(self.entries_seq() =~= self.mappings.deep_view());
            assert(self.mappings.deep_view().subrange(0, self.mappings.deep_view().len() as int)
                =~= self.mappings.deep_view());
        }
        while i < self.mappings.len()
            invariant
                0 <= i <= self.mappings@.len(),
                self.mappings.deep_view().len() == self.mappings@.len(),
                db_get(self.entries_seq(), uuid) == db_get(
                    self.entries_seq().subrange(i as int, self.entries_seq().len() as int),
                    uuid,
                ),
            decreases self.mappings@.len() - i,
        {
            proof {
                let s = self.entries_seq().subrange(i as int, self.entries_seq().len() as int);
                assert(s[0] == self.entries_seq()[i as int]);
                assert(s.drop_first() =~= self.entries_seq().subrange(
                    i + 1,
                    self.entries_seq().len() as int,
                ));
                assert(self.entries_seq()[i as int] == (
                    self.mappings@[i as int].0,
                    self.mappings@[i as int].1@,
                ));
            }
            if self.mappings[i].0 == uuid {
                return Some(&self.mappings[i].1);
            }
            i = i + 1;
        }
        proof {
            assert(self.entries_seq().subrange(i as int, self.entries_seq().len() as int).len()
                == 0);
        }
        None
    }
}

fn db_set_entry(v: &mut Vec<(u128, String)>, k: u128, line: String)
    ensures
        final(v).deep_view() == spec_db_set(old(v).deep_view(), k, line@),
{
    let ghost s0 = v.deep_view();
    let mut i: usize = 0;
    while i < v.len()
        invariant
            0 <= i <= v@.len(),
            s0 == v.deep_view(),
            s0 == old(v).deep_view(),
            s0.len() == v@.len(),
            forall|j: int| 0 <= j < i ==> s0[j].0 != k,
        decreases v@.len() - i,
    {
        proof {
            assert(s0[i as int] == (v@[i as int].0, v@[i as int].1@));
        }
        if v[i].0 == k {
            proof {
                lemma_db_set_at(s0, k, line@, i as int);
            }
            v.set(i, (k, line));
            proof {
                assert(v.deep_view() =~~= s0.update(i as int, (k, line@)));
            }
            return ;
        }
        i = i + 1;
    }
    proof {
        lemma_db_set_at(s0, k, line@, i as int);
    }
    v.push((k, line));
    proof {
        assert(v.deep_view() =~~= s0.push((k, line@)));
    }
}

/// A raw code with no declared entry translates to itself: the tables are
/// total via the identity fallback.
pub proof fn lemma_identity_fallback(s: Seq<(u16, u16)>, code: u16)
    requires
        alist_get(s, code) is None,
    ensures
        spec_map_get(s, code) == code,
{
}

/// Declaring a pair binds exactly that raw code and disturbs no other:
/// a table lookup after an insertion answers the new value for the
/// inserted key and is unchanged elsewhere.
pub proof fn lemma_insert_lookup(s: Seq<(u16, u16)>, k: u16, v: u16, q: u16)
    ensures
        alist_get(spec_insert(s, k, v), q) == if q == k {
            Some(v)
        } else {
            alist_get(s, q)
        },
    decreases s.len(),
{
    let t = spec_insert(s, k, v);
    if s.len() == 0 {
        assert(t =~= seq![(k, v)]);
        assert(t[0] == (k, v));
        assert(t.drop_first() =~= Seq::<(u16, u16)>::empty());
        if q != k {
            assert(alist_get(t, q) == alist_get(t.drop_first(), q));
        }
    } else if s[0].0 < k {
        lemma_insert_lookup(s.drop_first(), k, v, q);
        assert(t[0] == s[0]);
        assert(t.drop_first() =~= spec_insert(s.drop_first(), k, v));
        assert(t.len() > 0);
        if q == s[0].0 {
            assert(alist_get(t, q) == Some(t[0].1));
            assert(alist_get(s, q) == Some(s[0].1));
        } else {
            assert(alist_get(t, q) == alist_get(t.drop_first(), q));
            assert(alist_get(s, q) == alist_get(s.drop_first(), q));
        }
    } else if s[0].0 == k {
        assert(t[0] == (k, v));
        assert(t.drop_first() =~= s.drop_first());
        if q != k {
            assert(alist_get(t, q) == alist_get(t.drop_first(), q));
            assert(alist_get(s, q) == alist_get(s.drop_first(), q));
        }
    } else {
        assert(t[0] == (k, v));
        assert(t.drop_first() =~= s);
        if q != k {
            assert(alist_get(t, q) == alist_get(t.drop_first(), q));
        }
    }
}

/// Whether a field declares the definition to belong to another platform:
/// a `platform:<value>` pair with a non-empty value other than this
/// platform's name.
pub open spec fn spec_is_foreign_platform(field: Seq<char>) -> bool {
    let parts = split_seq(field, ':');
    field.len() > 0 && parts.len() >= 2 && parts[0] == "platform"@ && parts[1].len() > 0
        && parts[1] != "Linux"@
}

/// Whether a field aborts the parse, judged from the empty state; by
/// `lemma_apply_field_err_independent` the state does not matter.
pub open spec fn spec_field_fails(field: Seq<char>, buttons: Seq<u16>, axes: Seq<u16>) -> bool {
    spec_apply_field(
        field,
        Seq::<(u16, u16)>::empty(),
        Seq::<(u16, u16)>::empty(),
        buttons,
        axes,
    ) is Err
}

/// Whether a field aborts the parse does not depend on the tables built so
/// far, and neither does the error it aborts with.
pub proof fn lemma_apply_field_err_independent(
    field: Seq<char>,
    bt: Seq<(u16, u16)>,
    ax: Seq<(u16, u16)>,
    buttons: Seq<u16>,
    axes: Seq<u16>,
)
    ensures
        (spec_apply_field(field, bt, ax, buttons, axes) is Err) == spec_field_fails(
            field,
            buttons,
            axes,
        ),
        spec_field_fails(field, buttons, axes) ==> spec_apply_field(field, bt, ax, buttons, axes)
            == spec_apply_field(
            field,
            Seq::<(u16, u16)>::empty(),
            Seq::<(u16, u16)>::empty(),
            buttons,
            axes,
        ),
{
}

proof fn lemma_fold_hits_platform(
    fields: Seq<Seq<char>>,
    k: int,
    bt: Seq<(u16, u16)>,
    ax: Seq<(u16, u16)>,
    buttons: Seq<u16>,
    axes: Seq<u16>,
    i: int,
)
    requires
        2 <= k <= i < fields.len(),
        spec_is_foreign_platform(fields[i]),
        forall|j: int| k <= j < i ==> !spec_field_fails(#[trigger] fields[j], buttons, axes),
    ensures
        spec_parse_fields(fields, k, bt, ax, buttons, axes) == Err::<
            (Seq<(u16, u16)>, Seq<(u16, u16)>),
            ParseSdlMappingError,
        >(ParseSdlMappingError::NotTargetPlatform),
    decreases i - k,
{
    if k == i {
        assert(spec_apply_field(fields[i], bt, ax, buttons, axes) == Err::<
            (Seq<(u16, u16)>, Seq<(u16, u16)>),
            ParseSdlMappingError,
        >(ParseSdlMappingError::NotTargetPlatform));
    } else {
        lemma_apply_field_err_independent(fields[k], bt, ax, buttons, axes);
        let stepped = spec_apply_field(fields[k], bt, ax, buttons, axes);
        assert(stepped is Ok);
        lemma_fold_hits_platform(fields, k + 1, stepped->Ok_0.0, stepped->Ok_0.1, buttons, axes, i);
    }
}

/// A `platform` field whose value names another platform aborts the whole
/// parse with `NotTargetPlatform`, provided no earlier field aborted
/// first; the parse then returns only the error, so no partial mapping is
/// observable.
pub proof fn lemma_foreign_platform_aborts(
    line: Seq<char>,
    buttons: Seq<u16>,
    axes: Seq<u16>,
    i: int,
)
    requires
        2 <= i < split_seq(line, ',').len(),
        spec_is_foreign_platform(split_seq(line, ',')[i]),
        forall|j: int|
            2 <= j < i ==> !spec_field_fails(#[trigger] split_seq(line, ',')[j], buttons, axes),
    ensures
        spec_parse(line, buttons, axes) == Err::<
            (Seq<(u16, u16)>, Seq<(u16, u16)>, Seq<char>),
            ParseSdlMappingError,
        >(ParseSdlMappingError::NotTargetPlatform),
{
    lemma_fold_hits_platform(
        split_seq(line, ','),
        2,
        Seq::<(u16, u16)>::empty(),
        Seq::<(u16, u16)>::empty(),
        buttons,
        axes,
        i,
    );
}

/// For a declared pair whose canonical code is declared by no other raw
/// code, translation round-trips: the raw code maps to the canonical code
/// and the canonical code maps back to the raw code.
pub proof fn lemma_map_round_trip(s: Seq<(u16, u16)>, raw: u16, canonical: u16)
    requires
        alist_get(s, raw) == Some(canonical),
        forall|i: int| 0 <= i < s.len() && s[i].1 == canonical ==> s[i].0 == raw,
    ensures
        spec_map_get(s, raw) == canonical,
        spec_map_rev_get(s, canonical) == raw,
    decreases s.len(),
{
    if s.len() > 0 {
        if s[0].1 == canonical {
            assert(s[0].0 == raw);
        } else {
            assert(s[0].0 != raw);
            assert forall|i: int|
                0 <= i < s.drop_first().len() && s.drop_first()[i].1
                    == canonical implies s.drop_first()[i].0 == raw by {
                assert(s.drop_first()[i] == s[i + 1]);
            }
            lemma_map_round_trip(s.drop_first(), raw, canonical);
        }
    }
}

} // verus!
