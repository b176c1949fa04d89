//! Global hotkeys: the text form, and the bookkeeping of what is registered.

use crate::text::{
    ascii_lower, ascii_upper, ascii_upper_char, chars_of, copy_of, decimal, is_blank, is_digit,
    joined_with, last_position, lemma_decimal_stands_for_its_number,
    lemma_joined_parts_are_split_again, lemma_trim_is_empty_iff_blank, lemma_trimmed_text_stays,
    lemma_what_is_white_space, lemma_written_numbers_are_read_back, parse_u32, parsed_u32,
    same_text, split_on, split_text, string_of, to_lower, to_upper, trim, trimmed, views,
};
use vstd::prelude::*;

verus! {

pub const TOGGLE_HOVER_ID: i32 = 0x7101;

pub const TOGGLE_POPUP_ID: i32 = 0x7102;

pub const CYCLE_PROFILES_ID: i32 = 0x7103;

pub const MOD_ALT: u32 = 1;

pub const MOD_CONTROL: u32 = 2;

pub const MOD_SHIFT: u32 = 4;

pub const MOD_WIN: u32 = 8;

/// Control and Alt, the modifiers of the fixed hotkeys.
pub const FIXED_MODIFIERS: u32 = 3;

pub const KEY_T: u32 = 0x54;

pub const KEY_H: u32 = 0x48;

#[derive(Clone, Copy, Debug, PartialEq, Eq, Structural)]
pub struct ParsedHotkey {
    pub modifiers: u32,
    pub virtual_key: u32,
}

#[derive(Clone, Copy, Debug, PartialEq, Eq, Structural)]
pub enum ParseHotkeyError {
    Empty,
    MissingModifier,
    DuplicateModifier,
    UnknownModifier,
    UnknownKey,
}

impl ParseHotkeyError {
    pub open spec fn text(self) -> Seq<char> {
        match self {
            ParseHotkeyError::Empty => "hotkey is empty"@,
            ParseHotkeyError::MissingModifier => "hotkey must contain a modifier"@,
            ParseHotkeyError::DuplicateModifier => "hotkey modifier is repeated"@,
            ParseHotkeyError::UnknownModifier => "hotkey modifier is unknown"@,
            ParseHotkeyError::UnknownKey => "hotkey key is unknown"@,
        }
    }

    /// The error in words.
    pub fn message(&self) -> (message: &'static str)
        ensures
            message@ == self.text(),
    {
        match self {
            ParseHotkeyError::Empty => "hotkey is empty",
            ParseHotkeyError::MissingModifier => "hotkey must contain a modifier",
            ParseHotkeyError::DuplicateModifier => "hotkey modifier is repeated",
            ParseHotkeyError::UnknownModifier => "hotkey modifier is unknown",
            ParseHotkeyError::UnknownKey => "hotkey key is unknown",
        }
    }
}

/// The bit of a modifier, whose name may be in either case.
pub open spec fn modifier_bit(name: Seq<char>) -> Option<u32> {
    let lower = ascii_lower(name);
    if lower == "ctrl"@ || lower == "control"@ {
        Some(MOD_CONTROL)
    } else if lower == "alt"@ {
        Some(MOD_ALT)
    } else if lower == "shift"@ {
        Some(MOD_SHIFT)
    } else if lower == "win"@ || lower == "windows"@ {
        Some(MOD_WIN)
    } else {
        None
    }
}

/// The bits of modifiers that are all known and all different; otherwise the
/// fault of the first that is not.
pub open spec fn modifier_bits(names: Seq<Seq<char>>) -> Result<u32, ParseHotkeyError>
    decreases names.len(),
{
    if names.len() == 0 {
        Ok(0)
    } else {
        match modifier_bits(names.drop_last()) {
            Err(error) => Err(error),
            Ok(bits) => match modifier_bit(names.last()) {
                None => Err(ParseHotkeyError::UnknownModifier),
                Some(bit) => if bits & bit != 0 {
                    Err(ParseHotkeyError::DuplicateModifier)
                } else {
                    Ok(bits | bit)
                },
            },
        }
    }
}

/// The code of a letter, a digit or one of the function keys F1 to F24.
pub open spec fn virtual_key(key: Seq<char>) -> Option<u32> {
    let name = ascii_upper(trim(key));
    if name.len() == 1 && ('A' <= name[0] <= 'Z' || '0' <= name[0] <= '9') {
        Some(name[0] as u32)
    } else if name.len() > 0 && name[0] == 'F' {
        match parsed_u32(name.drop_first()) {
            Some(number) => if 1 <= number <= 24 {
                Some((0x70 + number - 1) as u32)
            } else {
                None
            },
            None => None,
        }
    } else {
        None
    }
}

/// The trimmed parts of a hotkey between its plus signs.
pub open spec fn hotkey_parts(spec_text: Seq<char>) -> Seq<Seq<char>> {
    split_on(spec_text, '+').map_values(|part: Seq<char>| trim(part))
}

/// What a hotkey text stands for: modifiers, then one key, joined by plus
/// signs.
pub open spec fn parsed_hotkey(spec_text: Seq<char>) -> Result<ParsedHotkey, ParseHotkeyError> {
    let parts = hotkey_parts(spec_text);
    if exists|i: int| 0 <= i < parts.len() && (#[trigger] parts[i]).len() == 0 {
        Err(ParseHotkeyError::Empty)
    } else if parts.len() == 1 {
        Err(ParseHotkeyError::MissingModifier)
    } else {
        match modifier_bits(parts.drop_last()) {
            Err(error) => Err(error),
            Ok(bits) => match virtual_key(parts.last()) {
                Some(key) => Ok(ParsedHotkey { modifiers: bits, virtual_key: key }),
                None => Err(ParseHotkeyError::UnknownKey),
            },
        }
    }
}

fn modifier_of(name: &str) -> (bit: Option<u32>)
    ensures
        bit == modifier_bit(name@),
{
    let lower: String = to_lower(name);
    let lower: &str = lower.as_str();
    if same_text(lower, "ctrl") || same_text(lower, "control") {
        Some(MOD_CONTROL)
    } else if same_text(lower, "alt") {
        Some(MOD_ALT)
    } else if same_text(lower, "shift") {
        Some(MOD_SHIFT)
    } else if same_text(lower, "win") || same_text(lower, "windows") {
        Some(MOD_WIN)
    } else {
        None
    }
}

pub fn parse_virtual_key(key: &str) -> (code: Option<u32>)
    ensures
        code == virtual_key(key@),
{
    let trimmed_key: String = trimmed(key);
    let name: String = to_upper(trimmed_key.as_str());
    let chars: Vec<char> = chars_of(name.as_str());
    if chars.len() == 1 {
        let ch: char = chars[0];
        if ('A' <= ch && ch <= 'Z') || ('0' <= ch && ch <= '9') {
            return Some(ch as u32);
        }
    }
    if chars.len() == 0 || chars[0] != 'F' {
        return None;
    }
    let suffix: String = string_of(chars.as_slice(), 1, chars.len());
    proof {
        assert(suffix@ =~= name@.drop_first());
    }
    match parse_u32(suffix.as_str()) {
        Some(number) => if 1 <= number && number <= 24 {
            Some(0x70 + number - 1)
        } else {
            None
        },
        None => None,
    }
}

fn has_empty_part(parts: &Vec<String>) -> (found: bool)
    ensures
        found <==> exists|i: int| 0 <= i < parts@.len() && (#[trigger] parts@[i])@.len() == 0,
{
    let mut i: usize = 0;
    while i < parts.len()
        invariant
            i <= parts@.len(),
            forall|j: int| 0 <= j < i ==> (#[trigger] parts@[j])@.len() > 0,
        decreases parts@.len() - i,
    {
        if parts[i].as_str().is_empty() {
            return true;
        }
        i = i + 1;
    }
    false
}

fn trimmed_parts(spec_text: &str) -> (parts: Vec<String>)
    ensures
        views(parts@) == hotkey_parts(spec_text@),
        parts@.len() > 0,
{
    let pieces: Vec<String> = split_text(spec_text, '+');
    let mut parts: Vec<String> = Vec::new();
    let mut i: usize = 0;
    while i < pieces.len()
        invariant
            i <= pieces@.len(),
            parts@.len() == i,
            forall|j: int| 0 <= j < i ==> (#[trigger] parts@[j])@ == trim(pieces@[j]@),
        decreases pieces@.len() - i,
    {
        parts.push(trimmed(pieces[i].as_str()));
        i = i + 1;
    }
    proof {
        assert(views(parts@) =~= hotkey_parts(spec_text@)) by {
            assert forall|j: int| 0 <= j < parts@.len() implies views(parts@)[j] == hotkey_parts(
                spec_text@,
            )[j] by {
                assert(views(pieces@)[j] == pieces@[j]@);
                assert(parts@[j]@ == trim(pieces@[j]@));
            }
        }
    }
    parts
}

pub fn parse_cycle_hotkey(spec_text: &str) -> (parsed: Result<ParsedHotkey, ParseHotkeyError>)
    ensures
        parsed == parsed_hotkey(spec_text@),
{
    let parts: Vec<String> = trimmed_parts(spec_text);
    let ghost names = hotkey_parts(spec_text@);
    proof {
        assert forall|i: int| 0 <= i < parts@.len() implies #[trigger] names[i] == parts@[i]@ by {
            assert(views(parts@)[i] == parts@[i]@);
        }
    }
    if has_empty_part(&parts) {
        proof {
            let i = choose|i: int| 0 <= i < parts@.len() && (#[trigger] parts@[i])@.len() == 0;
            assert(names[i].len() == 0);
        }
        return Err(ParseHotkeyError::Empty);
    }
    proof {
        assert forall|i: int| 0 <= i < names.len() implies (#[trigger] names[i]).len() != 0 by {
            assert(parts@[i]@ == names[i]);
        }
    }
    if parts.len() == 1 {
        return Err(ParseHotkeyError::MissingModifier);
    }
    let last: usize = parts.len() - 1;
    let mut bits: u32 = 0;
    let mut i: usize = 0;
    proof {
        assert(names.take(0) =~= Seq::empty());
    }
    while i < last
        invariant
            i <= last,
            last == parts@.len() - 1,
            names.len() == parts@.len(),
            names == hotkey_parts(spec_text@),
            !(exists|i: int| 0 <= i < names.len() && (#[trigger] names[i]).len() == 0),
            forall|j: int| 0 <= j < parts@.len() ==> #[trigger] names[j] == parts@[j]@,
            modifier_bits(names.take(i as int)) == Ok::<u32, ParseHotkeyError>(bits),
        decreases last - i,
    {
        proof {
            assert(names.take(i as int + 1).drop_last() =~= names.take(i as int));
            assert(names.take(i as int + 1).last() == parts@[i as int]@);
        }
        match modifier_of(parts[i].as_str()) {
            None => {
                proof {
                    assert(names.drop_last().take(i as int + 1) =~= names.take(i as int + 1));
                    lemma_fault_spreads(names.drop_last(), i as int + 1);
                }
                return Err(ParseHotkeyError::UnknownModifier);
            },
            Some(bit) => {
                if bits & bit != 0 {
                    proof {
                        assert(names.drop_last().take(i as int + 1) =~= names.take(i as int + 1));
                        lemma_fault_spreads(names.drop_last(), i as int + 1);
                    }
                    return Err(ParseHotkeyError::DuplicateModifier);
                }
                bits = bits | bit;
            },
        }
        i = i + 1;
    }
    proof {
        assert(names.take(last as int) =~= names.drop_last());
        assert(names.last() == parts@[last as int]@);
    }
    match parse_virtual_key(parts[last].as_str()) {
        Some(key) => Ok(ParsedHotkey { modifiers: bits, virtual_key: key }),
        None => Err(ParseHotkeyError::UnknownKey),
    }
}

/// The first faulty modifier decides, whatever follows it.
proof fn lemma_fault_spreads(names: Seq<Seq<char>>, count: int)
    requires
        0 <= count <= names.len(),
        modifier_bits(names.take(count)) is Err,
    ensures
        modifier_bits(names) == modifier_bits(names.take(count)),
    decreases names.len(),
{
    if count == names.len() {
        assert(names.take(count) =~= names);
    } else {
        assert(names.drop_last().take(count) =~= names.take(count));
        lemma_fault_spreads(names.drop_last(), count);
    }
}

/// A parsed hotkey has at least one of the four modifiers, no other, and a key
/// that is a letter, a digit or a function key.
pub proof fn lemma_parsed_hotkey_is_complete(spec_text: Seq<char>)
    requires
        parsed_hotkey(spec_text) is Ok,
    ensures
        ({
            let hotkey = parsed_hotkey(spec_text)->Ok_0;
            let key = hotkey.virtual_key;
            &&& 0 < hotkey.modifiers < 16
            &&& 0x30 <= key <= 0x39 || 0x41 <= key <= 0x5a || 0x70 <= key <= 0x87
        }),
{
    let names = hotkey_parts(spec_text).drop_last();
    lemma_split_is_nonempty(spec_text);
    lemma_modifier_bits_bounded(names);
}

proof fn lemma_split_is_nonempty(text: Seq<char>)
    ensures
        split_on(text, '+').len() > 0,
    decreases text.len(),
{
    if text.len() > 0 {
        lemma_split_is_nonempty(text.drop_last());
    }
}

proof fn lemma_modifier_bits_bounded(names: Seq<Seq<char>>)
    requires
        modifier_bits(names) is Ok,
    ensures
        modifier_bits(names)->Ok_0 < 16,
        names.len() > 0 ==> modifier_bits(names)->Ok_0 > 0,
    decreases names.len(),
{
    if names.len() > 0 {
        lemma_modifier_bits_bounded(names.drop_last());
        let bits = modifier_bits(names.drop_last())->Ok_0;
        let bit = modifier_bit(names.last()).unwrap();
        assert(bit == 1 || bit == 2 || bit == 4 || bit == 8);
        assert(0 < (bits | bit) < 16) by (bit_vector)
            requires
                bits < 16,
                bit == 1u32 || bit == 2u32 || bit == 4u32 || bit == 8u32,
        ;
    }
}

/// Whether a requested cycle hotkey differs from the registered one.
#[derive(Clone, Copy, Debug, PartialEq, Eq, Structural)]
pub enum CycleTransition {
    Unchanged,
    Replace { previous: Option<ParsedHotkey>, next: ParsedHotkey },
}

pub fn plan_cycle_transition(previous: Option<ParsedHotkey>, requested: &str) -> (plan: Result<
    CycleTransition,
    ParseHotkeyError,
>)
    ensures
        plan == match parsed_hotkey(requested@) {
            Err(error) => Err(error),
            Ok(next) => if previous == Some(next) {
                Ok(CycleTransition::Unchanged)
            } else {
                Ok(CycleTransition::Replace { previous, next })
            },
        },
{
    match parse_cycle_hotkey(requested) {
        Err(error) => Err(error),
        Ok(next) => {
            let unchanged: bool = match previous {
                Some(hotkey) => hotkey == next,
                None => false,
            };
            if unchanged {
                Ok(CycleTransition::Unchanged)
            } else {
                Ok(CycleTransition::Replace { previous, next })
            }
        },
    }
}

/// What a `Registrations` holds.
pub struct RegistrationsModel {
    pub registered: Seq<i32>,
    pub conflicts: Seq<Seq<char>>,
    pub manual: bool,
    pub cycle: Option<ParsedHotkey>,
    pub cycle_spec: Option<Seq<char>>,
    pub cycle_conflicts: Seq<Seq<char>>,
}

impl RegistrationsModel {
    /// The conflicts of the fixed hotkeys.
    pub open spec fn fixed_conflicts(self) -> Seq<Seq<char>> {
        self.conflicts.take(self.conflicts.len() - self.cycle_conflicts.len())
    }

    /// The identifiers of the registered fixed hotkeys.
    pub open spec fn fixed_registered(self) -> Seq<i32> {
        if self.cycle is Some {
            self.registered.drop_last()
        } else {
            self.registered
        }
    }

    /// The conflicts end with those of the cycle hotkey, which are all
    /// different. The cycle hotkey is registered, last, exactly while it is
    /// known, and its text stands for it.
    pub open spec fn wf(self) -> bool {
        &&& self.cycle_conflicts.len() <= self.conflicts.len()
        &&& self.conflicts == self.fixed_conflicts() + self.cycle_conflicts
        &&& self.cycle_conflicts.no_duplicates()
        &&& self.cycle is Some <==> self.cycle_spec is Some
        &&& self.cycle is Some ==> self.registered.len() > 0 && self.registered.last()
            == CYCLE_PROFILES_ID && parsed_hotkey(self.cycle_spec.unwrap())
            == Ok::<ParsedHotkey, ParseHotkeyError>(self.cycle.unwrap())
        &&& !self.fixed_registered().contains(CYCLE_PROFILES_ID)
    }

    /// The model with `label` among the cycle hotkey's conflicts.
    pub open spec fn with_cycle_conflict(self, label: Seq<char>) -> RegistrationsModel {
        if self.cycle_conflicts.contains(label) {
            self
        } else {
            RegistrationsModel {
                conflicts: self.conflicts.push(label),
                cycle_conflicts: self.cycle_conflicts.push(label),
                ..self
            }
        }
    }

    /// The model without conflicts of the cycle hotkey.
    pub open spec fn without_cycle_conflicts(self) -> RegistrationsModel {
        RegistrationsModel {
            conflicts: self.fixed_conflicts(),
            cycle_conflicts: Seq::empty(),
            ..self
        }
    }

    /// The model with no cycle hotkey registered.
    pub open spec fn without_cycle(self) -> RegistrationsModel {
        RegistrationsModel {
            registered: self.fixed_registered(),
            cycle: None,
            cycle_spec: None,
            ..self
        }
    }

    /// The model with `hotkey`, written `text`, as the registered cycle hotkey.
    pub open spec fn with_cycle(self, hotkey: ParsedHotkey, text: Seq<char>) -> RegistrationsModel {
        RegistrationsModel {
            registered: self.fixed_registered().push(CYCLE_PROFILES_ID),
            cycle: Some(hotkey),
            cycle_spec: Some(text),
            ..self
        }
    }

    /// Once the cycle hotkey was to become `text`: a text that does not parse
    /// is a conflict and leaves the registered one alone. A hotkey that could
    /// not be registered is a conflict, and the previous one is put back, or is
    /// a conflict too.
    pub open spec fn after_reregister(
        self,
        text: Seq<char>,
        next_registered: bool,
        previous_restored: bool,
    ) -> RegistrationsModel {
        match parsed_hotkey(text) {
            Err(_) => self.with_cycle_conflict(text),
            Ok(next) => {
                let cleared = self.without_cycle_conflicts();
                if self.cycle == Some(next) {
                    cleared
                } else if next_registered {
                    cleared.with_cycle(next, text)
                } else if self.cycle is Some && previous_restored {
                    cleared.with_cycle_conflict(text)
                } else if self.cycle is Some {
                    cleared.without_cycle().with_cycle_conflict(text).with_cycle_conflict(
                        self.cycle_spec.unwrap(),
                    )
                } else {
                    cleared.with_cycle_conflict(text)
                }
            },
        }
    }
}

/// Which hotkeys are registered and which could not be.
#[derive(Debug)]
pub struct Registrations {
    registered: Vec<i32>,
    pub conflicts: Vec<String>,
    manual_registered: bool,
    cycle: Option<ParsedHotkey>,
    cycle_spec: Option<String>,
    cycle_conflicts: Vec<String>,
}

impl View for Registrations {
    type V = RegistrationsModel;

    closed spec fn view(&self) -> RegistrationsModel {
        RegistrationsModel {
            registered: self.registered@,
            conflicts: views(self.conflicts@),
            manual: self.manual_registered,
            cycle: self.cycle,
            cycle_spec: match self.cycle_spec {
                Some(text) => Some(text@),
                None => None,
            },
            cycle_conflicts: views(self.cycle_conflicts@),
        }
    }
}

/// The outside calls that put a cycle hotkey in place: release the current one
/// if `release`, register `register`, and where that fails register `fallback`.
#[derive(Clone, Copy, Debug, PartialEq, Eq, Structural)]
pub struct CycleCalls {
    pub release: bool,
    pub register: Option<ParsedHotkey>,
    pub fallback: Option<ParsedHotkey>,
}

impl Registrations {
    /// The registrations after the two fixed hotkeys, then the cycle hotkey,
    /// were tried; `cycle_ok` counts only where the cycle hotkey parses.
    pub fn register(
        manual_ok: bool,
        hover_ok: bool,
        cycle_profiles_hotkey: &str,
        cycle_ok: bool,
    ) -> (registrations: Registrations)
        ensures
            ({
                let fixed = RegistrationsModel {
                    registered: (if manual_ok { seq![TOGGLE_POPUP_ID] } else { seq![] }) + (
                    if hover_ok { seq![TOGGLE_HOVER_ID] } else { seq![] }),
                    conflicts: (if manual_ok { seq![] } else { seq!["Ctrl+Alt+T"@] }) + (
                    if hover_ok { seq![] } else { seq!["Ctrl+Alt+H"@] }),
                    manual: manual_ok,
                    cycle: None,
                    cycle_spec: None,
                    cycle_conflicts: seq![],
                };
                registrations@ == match parsed_hotkey(cycle_profiles_hotkey@) {
                    Ok(hotkey) if cycle_ok => fixed.with_cycle(hotkey, cycle_profiles_hotkey@),
                    _ => fixed.with_cycle_conflict(cycle_profiles_hotkey@),
                }
            }),
            registrations@.wf(),
    {
        let mut registrations = Registrations {
            registered: Vec::new(),
            conflicts: Vec::new(),
            manual_registered: manual_ok,
            cycle: None,
            cycle_spec: None,
            cycle_conflicts: Vec::new(),
        };
        if manual_ok {
            registrations.registered.push(TOGGLE_POPUP_ID);
        } else {
            registrations.conflicts.push(copy_of("Ctrl+Alt+T"));
        }
        if hover_ok {
            registrations.registered.push(TOGGLE_HOVER_ID);
        } else {
            registrations.conflicts.push(copy_of("Ctrl+Alt+H"));
        }
        let ghost fixed = RegistrationsModel {
            registered: (if manual_ok { seq![TOGGLE_POPUP_ID] } else { seq![] }) + (if hover_ok {
                seq![TOGGLE_HOVER_ID]
            } else {
                seq![]
            }),
            conflicts: (if manual_ok { seq![] } else { seq!["Ctrl+Alt+T"@] }) + (if hover_ok {
                seq![]
            } else {
                seq!["Ctrl+Alt+H"@]
            }),
            manual: manual_ok,
            cycle: None,
            cycle_spec: None,
            cycle_conflicts: seq![],
        };
        proof {
            assert(registrations@.registered =~= fixed.registered);
            assert(registrations@.conflicts =~= fixed.conflicts);
            assert(registrations@.cycle_conflicts =~= fixed.cycle_conflicts);
            assert(registrations@ == fixed);
            assert(fixed.conflicts =~= fixed.fixed_conflicts() + fixed.cycle_conflicts);
            assert(fixed.wf());
        }
        match parse_cycle_hotkey(cycle_profiles_hotkey) {
            Ok(hotkey) if cycle_ok => {
                registrations.set_cycle(hotkey, cycle_profiles_hotkey);
            },
            _ => {
                registrations.set_cycle_conflict(cycle_profiles_hotkey);
            },
        }
        registrations
    }

    /// The manual hotkey is registered.
    pub fn manual_available(&self) -> (available: bool)
        ensures
            available == self@.manual,
    {
        self.manual_registered
    }

    fn set_cycle(&mut self, hotkey: ParsedHotkey, text: &str)
        requires
            old(self)@.wf(),
            old(self)@.cycle is None,
            parsed_hotkey(text@) == Ok::<ParsedHotkey, ParseHotkeyError>(hotkey),
        ensures
            final(self)@ == old(self)@.with_cycle(hotkey, text@),
            final(self)@.wf(),
    {
        self.cycle = Some(hotkey);
        self.cycle_spec = Some(copy_of(text));
        self.registered.push(CYCLE_PROFILES_ID);
        proof {
            assert(self@.registered.drop_last() =~= old(self)@.registered);
            assert(self@.conflicts == old(self)@.conflicts);
        }
    }

    fn set_cycle_conflict(&mut self, label: &str)
        requires
            old(self)@.wf(),
        ensures
            final(self)@ == old(self)@.with_cycle_conflict(label@),
            final(self)@.wf(),
    {
        let ghost before = self@;
        match last_position(&self.cycle_conflicts, label) {
            Some(i) => {
                proof {
                    assert(before.cycle_conflicts[i as int] == label@);
                }
            },
            None => {
                proof {
                    assert forall|j: int| 0 <= j < before.cycle_conflicts.len() implies
                        before.cycle_conflicts[j] != label@ by {
                        assert(self.cycle_conflicts@[j]@ != label@);
                    }
                }
                self.cycle_conflicts.push(copy_of(label));
                self.conflicts.push(copy_of(label));
                proof {
                    assert(self@.cycle_conflicts =~= before.cycle_conflicts.push(label@));
                    assert(self@.conflicts =~= before.conflicts.push(label@));
                    assert(self@.fixed_conflicts() =~= before.fixed_conflicts());
                    assert(self@.conflicts =~= self@.fixed_conflicts() + self@.cycle_conflicts);
                }
            },
        }
    }

    fn clear_cycle_conflict(&mut self)
        requires
            old(self)@.wf(),
        ensures
            final(self)@ == old(self)@.without_cycle_conflicts(),
            final(self)@.wf(),
    {
        let ghost before = self@;
        let mut i: usize = 0;
        let count: usize = self.cycle_conflicts.len();
        proof {
            assert(before.cycle_conflicts.skip(0) =~= before.cycle_conflicts);
        }
        while i < count
            invariant
                i <= count,
                count == before.cycle_conflicts.len(),
                before.wf(),
                views(self.cycle_conflicts@) == before.cycle_conflicts,
                views(self.conflicts@) == before.fixed_conflicts() + before.cycle_conflicts.skip(
                    i as int,
                ),
                self.registered@ == before.registered,
                self.manual_registered == before.manual,
                self.cycle == before.cycle,
                self@.cycle_spec == before.cycle_spec,
            decreases count - i,
        {
            let ghost shown = views(self.conflicts@);
            let ghost fixed = before.fixed_conflicts().len() as int;
            let label: &String = &self.cycle_conflicts[i];
            proof {
                assert(views(self.cycle_conflicts@)[i as int] == label@);
                assert(before.cycle_conflicts.skip(i as int)[0] == label@);
                assert(shown.len() == self.conflicts@.len());
                assert(shown[fixed] == label@);
                assert(shown[fixed] == self.conflicts@[fixed]@);
            }
            let position: Option<usize> = last_position(&self.conflicts, label.as_str());
            if let Some(at) = position {
                proof {
                    assert(shown[at as int] == label@);
                    assert(at >= fixed);
                    assert(shown[at as int] == before.cycle_conflicts[at - fixed + i]);
                    assert(at == fixed);
                }
                let ghost listed = self.conflicts@;
                let _removed: String = self.conflicts.remove(at);
                proof {
                    assert(self.conflicts@ =~= listed.remove(at as int));
                    assert(views(self.conflicts@) =~= shown.remove(at as int));
                    assert(shown.remove(at as int) =~= before.fixed_conflicts()
                        + before.cycle_conflicts.skip(i as int + 1));
                }
            }
            i = i + 1;
        }
        self.cycle_conflicts.clear();
        proof {
            assert(self@.conflicts =~= before.fixed_conflicts());
            assert(self@.cycle_conflicts =~= Seq::<Seq<char>>::empty());
            assert(self@.fixed_conflicts() =~= before.fixed_conflicts());
            assert(self@.conflicts =~= self@.fixed_conflicts() + self@.cycle_conflicts);
        }
    }

    /// The calls that make `cycle_profiles_hotkey` the cycle hotkey.
    pub fn cycle_calls(&self, cycle_profiles_hotkey: &str) -> (calls: CycleCalls)
        requires
            self@.wf(),
        ensures
            calls == match parsed_hotkey(cycle_profiles_hotkey@) {
                Ok(next) if self@.cycle != Some(next) => CycleCalls {
                    release: self@.cycle is Some,
                    register: Some(next),
                    fallback: self@.cycle,
                },
                _ => CycleCalls { release: false, register: None, fallback: None },
            },
    {
        match plan_cycle_transition(self.cycle, cycle_profiles_hotkey) {
            Ok(CycleTransition::Replace { previous, next }) => CycleCalls {
                release: self.cycle.is_some(),
                register: Some(next),
                fallback: previous,
            },
            _ => CycleCalls { release: false, register: None, fallback: None },
        }
    }

    /// Records the outcome of the calls for `cycle_profiles_hotkey`.
    pub fn reregister(
        &mut self,
        cycle_profiles_hotkey: &str,
        next_registered: bool,
        previous_restored: bool,
    )
        requires
            old(self)@.wf(),
        ensures
            final(self)@ == old(self)@.after_reregister(
                cycle_profiles_hotkey@,
                next_registered,
                previous_restored,
            ),
            final(self)@.wf(),
    {
        let ghost before = self@;
        let plan = match plan_cycle_transition(self.cycle, cycle_profiles_hotkey) {
            Ok(plan) => plan,
            Err(_) => {
                self.set_cycle_conflict(cycle_profiles_hotkey);
                return;
            },
        };
        self.clear_cycle_conflict();
        let ghost cleared = self@;
        let (previous, next) = match plan {
            CycleTransition::Replace { previous, next } => (previous, next),
            CycleTransition::Unchanged => {
                return;
            },
        };
        let previous_spec: Option<String> = self.take_cycle();
        proof {
            assert(self@ == cleared.without_cycle());
        }
        if next_registered {
            self.set_cycle(next, cycle_profiles_hotkey);
            proof {
                assert(self@ == cleared.with_cycle(next, cycle_profiles_hotkey@));
            }
            return;
        }
        if let Some(hotkey) = previous {
            if let Some(text) = previous_spec {
                if previous_restored {
                    self.set_cycle(hotkey, text.as_str());
                    proof {
                        assert(cleared.registered.drop_last().push(CYCLE_PROFILES_ID)
                            =~= cleared.registered);
                        assert(self@ == cleared);
                    }
                    self.set_cycle_conflict(cycle_profiles_hotkey);
                    return;
                }
                self.set_cycle_conflict(cycle_profiles_hotkey);
                self.set_cycle_conflict(text.as_str());
                return;
            }
        }
        self.set_cycle_conflict(cycle_profiles_hotkey);
        proof {
            assert(cleared.without_cycle() == cleared);
        }
    }

    /// Forgets the cycle hotkey and returns its text.
    fn take_cycle(&mut self) -> (text: Option<String>)
        requires
            old(self)@.wf(),
        ensures
            final(self)@ == old(self)@.without_cycle(),
            final(self)@.wf(),
            match text {
                Some(text) => old(self)@.cycle_spec == Some(text@),
                None => old(self)@.cycle_spec is None,
            },
    {
        let ghost before = self@;
        if self.cycle.is_some() {
            let _last: Option<i32> = self.registered.pop();
            self.cycle = None;
        }
        let text: Option<String> = self.cycle_spec.take();
        proof {
            assert(self@.registered =~= before.fixed_registered());
            assert(self@.conflicts == before.conflicts);
            assert(self@ == before.without_cycle());
        }
        text
    }

    /// Forgets every registration and conflict; the identifiers returned are
    /// to be released.
    pub fn unregister(&mut self) -> (released: Vec<i32>)
        requires
            old(self)@.wf(),
        ensures
            released@ == old(self)@.registered,
            final(self)@ == (RegistrationsModel {
                registered: seq![],
                conflicts: seq![],
                manual: false,
                cycle: None,
                cycle_spec: None,
                cycle_conflicts: seq![],
            }),
            final(self)@.wf(),
    {
        let mut released: Vec<i32> = Vec::new();
        released.append(&mut self.registered);
        self.cycle = None;
        self.cycle_spec = None;
        self.cycle_conflicts.clear();
        self.conflicts.clear();
        self.manual_registered = false;
        proof {
            assert(released@ =~= old(self)@.registered);
            assert(self@.registered =~= seq![]);
            assert(self@.conflicts =~= Seq::<Seq<char>>::empty());
            assert(self@.cycle_conflicts =~= Seq::<Seq<char>>::empty());
            assert(self@.conflicts =~= self@.fixed_conflicts() + self@.cycle_conflicts);
        }
        released
    }
}

/// Changing the cycle hotkey never touches the fixed hotkeys: their
/// registrations and their conflicts stay.
pub proof fn lemma_reregister_keeps_the_fixed_hotkeys(
    state: RegistrationsModel,
    text: Seq<char>,
    next_registered: bool,
    previous_restored: bool,
)
    requires
        state.wf(),
    ensures
        ({
            let after = state.after_reregister(text, next_registered, previous_restored);
            &&& after.manual == state.manual
            &&& after.fixed_registered() == state.fixed_registered()
            &&& after.fixed_conflicts() == state.fixed_conflicts()
        }),
{
    let after = state.after_reregister(text, next_registered, previous_restored);
    let cleared = state.without_cycle_conflicts();
    assert(cleared.fixed_conflicts() =~= state.fixed_conflicts());
    assert(cleared.fixed_registered() == state.fixed_registered());
    lemma_conflict_keeps_fixed(state, text);
    lemma_conflict_keeps_fixed(cleared, text);
    lemma_conflict_keeps_fixed(cleared.without_cycle(), text);
    lemma_conflict_keeps_fixed(
        cleared.without_cycle().with_cycle_conflict(text),
        state.cycle_spec.unwrap(),
    );
    assert(state.fixed_registered().push(CYCLE_PROFILES_ID).drop_last()
        =~= state.fixed_registered());
    assert(after.fixed_conflicts() =~= state.fixed_conflicts());
}

proof fn lemma_conflict_keeps_fixed(state: RegistrationsModel, label: Seq<char>)
    requires
        state.cycle_conflicts.len() <= state.conflicts.len(),
    ensures
        state.with_cycle_conflict(label).fixed_conflicts() == state.fixed_conflicts(),
        state.with_cycle_conflict(label).fixed_registered() == state.fixed_registered(),
        state.with_cycle_conflict(label).cycle_conflicts.len() <= state.with_cycle_conflict(
            label,
        ).conflicts.len(),
{
    assert(state.with_cycle_conflict(label).fixed_conflicts() =~= state.fixed_conflicts());
}

/// A cycle hotkey that cannot be used is reported, and the registered one stays
/// in use wherever the new text does not parse or the old one could be put
/// back.
pub proof fn lemma_refused_cycle_hotkey_keeps_the_previous(
    state: RegistrationsModel,
    text: Seq<char>,
)
    requires
        state.wf(),
        state.cycle is Some,
        parsed_hotkey(text) != Ok::<ParsedHotkey, ParseHotkeyError>(state.cycle.unwrap()),
    ensures
        ({
            let after = state.after_reregister(text, false, true);
            &&& after.cycle == state.cycle
            &&& after.cycle_spec == state.cycle_spec
            &&& after.conflicts.contains(text)
        }),
{
    let cleared = state.without_cycle_conflicts();
    let after = state.after_reregister(text, false, true);
    if parsed_hotkey(text) is Err {
        if state.cycle_conflicts.contains(text) {
            let i = state.cycle_conflicts.index_of(text);
            let n = state.fixed_conflicts().len();
            assert(state.conflicts[n + i] == state.cycle_conflicts[i]);
        } else {
            assert(after.conflicts.last() == text);
        }
    } else {
        assert(!cleared.cycle_conflicts.contains(text));
        assert(after.conflicts.last() == text);
    }
}

// What the rules above are for.

/// The modifiers have the values of the system, by either of their names and
/// in any case.
pub proof fn lemma_modifiers_have_the_values_of_the_system(name: Seq<char>)
    ensures
        ascii_lower(name) == "alt"@ ==> modifier_bit(name) == Some(1u32),
        ascii_lower(name) == "ctrl"@ || ascii_lower(name) == "control"@ ==> modifier_bit(name)
            == Some(2u32),
        ascii_lower(name) == "shift"@ ==> modifier_bit(name) == Some(4u32),
        ascii_lower(name) == "win"@ || ascii_lower(name) == "windows"@ ==> modifier_bit(name)
            == Some(8u32),
        name.len() < 3 || name.len() == 6 || name.len() > 7 ==> modifier_bit(name) is None,
{
    reveal_strlit("alt");
    reveal_strlit("ctrl");
    reveal_strlit("control");
    reveal_strlit("shift");
    reveal_strlit("win");
    reveal_strlit("windows");
    assert("alt"@[0] == 'a' && "win"@[0] == 'w');
    assert("control"@[0] == 'c' && "windows"@[0] == 'w');
    assert(ascii_lower(name).len() == name.len());
}

/// A letter or a digit is its own key, the letter in capitals; F1 to F24 are
/// the keys from 0x70 on, and no F0 or F25 exists.
pub proof fn lemma_keys_have_the_codes_of_the_system(ch: char, n: nat)
    ensures
        'A' <= ch <= 'Z' || '0' <= ch <= '9' ==> virtual_key(seq![ch]) == Some(ch as u32),
        'a' <= ch <= 'z' ==> virtual_key(seq![ch]) == Some((ch as u32 - 32) as u32),
        1 <= n <= 24 ==> virtual_key(seq!['F'] + decimal(n)) == Some((0x6f + n) as u32),
        n == 0 || n > 24 ==> virtual_key(seq!['F'] + decimal(n)) is None,
        virtual_key(Seq::empty()) is None,
{
    let single = seq![ch];
    if 'A' <= ch <= 'Z' || '0' <= ch <= '9' || 'a' <= ch <= 'z' {
        lemma_what_is_white_space(ch);
        lemma_trimmed_text_stays(single);
        assert(ascii_upper(single).len() == 1);
        assert(ascii_upper(single)[0] == ascii_upper_char(ch));
    }
    let name = seq!['F'] + decimal(n);
    lemma_decimal_stands_for_its_number(n);
    assert forall|i: int| 0 <= i < decimal(n).len() implies is_digit(#[trigger] decimal(n)[i]) by {}
    lemma_what_is_white_space('F');
    assert(name.last() == decimal(n)[decimal(n).len() - 1]);
    lemma_what_is_white_space(name.last());
    lemma_trimmed_text_stays(name);
    assert(ascii_upper(name) =~= name) by {
        assert forall|i: int| 0 <= i < name.len() implies ascii_upper(name)[i] == name[i] by {
            if i > 0 {
                assert(name[i] == decimal(n)[i - 1]);
            }
        }
    }
    assert(name.drop_first() =~= decimal(n));
    assert(decimal(n).len() > 0);
    lemma_written_numbers_are_read_back(n, Seq::empty(), 0);
    lemma_trimmed_text_stays(Seq::empty());
    assert(ascii_upper(Seq::empty()).len() == 0);
}

/// A modifier and a key with a plus sign between them are that hotkey, and the
/// white space around either does not matter.
pub proof fn lemma_a_hotkey_is_its_modifier_and_its_key(
    name: Seq<char>,
    key: Seq<char>,
    bit: u32,
    code: u32,
)
    requires
        modifier_bit(trim(name)) == Some(bit),
        virtual_key(trim(key)) == Some(code),
        trim(key).len() > 0,
        !name.contains('+'),
        !key.contains('+'),
    ensures
        parsed_hotkey(name.push('+') + key) == Ok::<ParsedHotkey, ParseHotkeyError>(
            ParsedHotkey { modifiers: bit, virtual_key: code },
        ),
{
    let parts = seq![name, key];
    assert(parts.drop_last() =~= seq![name]);
    assert(joined_with(seq![name], '+') == name);
    assert(joined_with(parts, '+') == name.push('+') + key);
    lemma_joined_parts_are_split_again(parts, '+');
    let found = hotkey_parts(name.push('+') + key);
    assert(found =~= seq![trim(name), trim(key)]);
    lemma_modifiers_have_the_values_of_the_system(trim(name));
    if trim(name).len() == 0 {
        assert(modifier_bit(trim(name)) is None);
    }
    assert(found.drop_last() =~= seq![trim(name)]);
    assert(seq![trim(name)].drop_last() =~= Seq::<Seq<char>>::empty());
    assert(0u32 & bit == 0 && 0u32 | bit == bit) by (bit_vector);
    assert(modifier_bits(Seq::<Seq<char>>::empty()) == Ok::<u32, ParseHotkeyError>(0));
    assert(modifier_bits(found.drop_last()) == Ok::<u32, ParseHotkeyError>(bit));
}

/// A hotkey without a plus sign has no modifier, one with nothing between its
/// plus signs is empty, and its text says so.
pub proof fn lemma_a_hotkey_needs_a_modifier(text: Seq<char>)
    ensures
        !text.contains('+') && !is_blank(text) ==> parsed_hotkey(text) == Err::<ParsedHotkey, _>(
            ParseHotkeyError::MissingModifier,
        ),
        is_blank(text) && !text.contains('+') ==> parsed_hotkey(text) == Err::<ParsedHotkey, _>(
            ParseHotkeyError::Empty,
        ),
        !text.contains('+') ==> parsed_hotkey(text.push('+')) == Err::<ParsedHotkey, _>(
            ParseHotkeyError::Empty,
        ),
{
    lemma_trim_is_empty_iff_blank(text);
    if !text.contains('+') {
        let parts = seq![text];
        assert(joined_with(parts, '+') == text);
        lemma_joined_parts_are_split_again(parts, '+');
        let found = hotkey_parts(text);
        assert(found =~= seq![trim(text)]);
        let open = seq![text, Seq::<char>::empty()];
        assert(!Seq::<char>::empty().contains('+'));
        assert(open.drop_last() =~= parts);
        assert(joined_with(open, '+') =~= text.push('+'));
        lemma_joined_parts_are_split_again(open, '+');
        let ended = hotkey_parts(text.push('+'));
        lemma_trimmed_text_stays(Seq::empty());
        assert(ended[1] == trim(Seq::<char>::empty()));
        assert(ended[1].len() == 0);
    }
}

/// Every modifier that was named is in the result, each once: a name that
/// comes twice is refused, and so is a name that is none.
pub proof fn lemma_every_modifier_counts_once(names: Seq<Seq<char>>, i: int)
    requires
        0 <= i < names.len(),
    ensures
        modifier_bits(names) matches Ok(bits) ==> (modifier_bit(names[i]) matches Some(bit) && bits
            & bit == bit),
        modifier_bit(names[i]) is None ==> modifier_bits(names) is Err,
        modifier_bits(names) matches Ok(bits) ==> (forall|bit: u32|
            modifier_bit(names[i]) == Some(bit) ==> modifier_bits(#[trigger] names.push(names[i]))
                == Err::<u32, _>(ParseHotkeyError::DuplicateModifier) || bit == 0),
    decreases names.len(),
{
    let front = names.drop_last();
    if modifier_bits(names) is Ok {
        let before = modifier_bits(front)->Ok_0;
        let last = modifier_bit(names.last()).unwrap();
        let bits = modifier_bits(names)->Ok_0;
        assert((before | last) & last == last) by (bit_vector);
        if i < names.len() - 1 {
            lemma_every_modifier_counts_once(front, i);
            let bit = modifier_bit(front[i]).unwrap();
            assert((before | last) & bit == bit) by (bit_vector)
                requires
                    before & bit == bit,
            ;
        }
        assert(names.push(names[i]).drop_last() =~= names);
    } else if i < names.len() - 1 && modifier_bit(names[i]) is None {
        lemma_every_modifier_counts_once(front, i);
    }
}

/// A hotkey that could be registered replaces the previous one and leaves no
/// conflict; the same one again changes nothing; where neither could be
/// registered there is none, and both are conflicts.
pub proof fn lemma_how_a_hotkey_is_replaced(state: RegistrationsModel, text: Seq<char>)
    requires
        state.wf(),
    ensures
        parsed_hotkey(text) matches Ok(next) ==> {
            &&& state.cycle != Some(next) ==> {
                let after = state.after_reregister(text, true, false);
                &&& after.cycle == Some(next)
                &&& after.cycle_spec == Some(text)
                &&& after.registered.last() == 0x7103
                &&& after.cycle_conflicts.len() == 0
            }
            &&& state.cycle == Some(next) ==> state.after_reregister(text, false, false).cycle
                == state.cycle && state.after_reregister(text, false, false).registered
                == state.registered && state.after_reregister(
                text,
                false,
                false,
            ).cycle_conflicts.len() == 0
            &&& state.cycle is Some && state.cycle != Some(next) ==> {
                let after = state.after_reregister(text, false, false);
                &&& after.cycle is None
                &&& after.cycle_spec is None
                &&& after.cycle_conflicts.contains(text)
                &&& after.cycle_conflicts.contains(state.cycle_spec.unwrap())
                &&& !after.registered.contains(0x7103)
            }
            &&& state.cycle is None ==> state.after_reregister(text, false, false).cycle is None
                && state.after_reregister(text, false, false).cycle_conflicts.contains(text)
        },
        parsed_hotkey(text) is Err ==> state.after_reregister(text, true, true).cycle == state.cycle
            && state.after_reregister(text, true, true).cycle_conflicts.contains(text),
{
    let cleared = state.without_cycle_conflicts();
    let gone = cleared.without_cycle();
    lemma_a_conflict_is_listed(gone, text);
    lemma_a_conflict_is_listed(cleared, text);
    lemma_a_conflict_is_listed(state, text);
    if state.cycle is Some {
        let spec = state.cycle_spec.unwrap();
        let first = gone.with_cycle_conflict(text);
        lemma_a_conflict_is_listed(first, spec);
        let k = choose|k: int|
            0 <= k < first.cycle_conflicts.len() && first.cycle_conflicts[k] == text;
        assert(first.with_cycle_conflict(spec).cycle_conflicts[k] == text);
    }
    if let Ok(next) = parsed_hotkey(text) {
        let taken = cleared.with_cycle(next, text);
        assert(taken.registered.last() == CYCLE_PROFILES_ID);
    }
}

proof fn lemma_a_conflict_is_listed(state: RegistrationsModel, label: Seq<char>)
    ensures
        state.with_cycle_conflict(label).cycle_conflicts.contains(label),
{
    if !state.cycle_conflicts.contains(label) {
        let after = state.with_cycle_conflict(label).cycle_conflicts;
        assert(after[after.len() - 1] == label);
    }
}

/// The hotkeys that could be registered are held, under the numbers 0x7102,
/// 0x7101 and 0x7103; those that could not are named as conflicts.
pub proof fn lemma_what_is_registered(
    manual_ok: bool,
    hover_ok: bool,
    cycle: &str,
    cycle_ok: bool,
    registrations: Registrations,
    available: bool,
)
    requires
        call_ensures(Registrations::register, (manual_ok, hover_ok, cycle, cycle_ok), registrations),
        call_ensures(Registrations::manual_available, (&registrations,), available),
    ensures
        available == manual_ok,
        manual_ok <==> registrations@.registered.contains(0x7102),
        hover_ok <==> registrations@.registered.contains(0x7101),
        cycle_ok && parsed_hotkey(cycle@) is Ok <==> registrations@.registered.contains(0x7103),
        !manual_ok ==> registrations@.conflicts.contains("Ctrl+Alt+T"@),
        !hover_ok ==> registrations@.conflicts.contains("Ctrl+Alt+H"@),
        !(cycle_ok && parsed_hotkey(cycle@) is Ok) ==> registrations@.conflicts.contains(cycle@),
        manual_ok && hover_ok && cycle_ok && parsed_hotkey(cycle@) is Ok
            ==> registrations@.conflicts.len() == 0,
{
    let found = registrations@;
    let held = found.registered;
    if manual_ok {
        assert(held[0] == 0x7102);
    }
    if hover_ok {
        assert(held[if manual_ok {
            1int
        } else {
            0int
        }] == 0x7101);
    }
    if cycle_ok && parsed_hotkey(cycle@) is Ok {
        assert(held[held.len() - 1] == 0x7103);
    } else {
        assert(found.conflicts[found.conflicts.len() - 1] == cycle@);
    }
    if !manual_ok {
        assert(found.conflicts[0] == "Ctrl+Alt+T"@);
    }
    if !hover_ok {
        assert(found.conflicts[if manual_ok {
            0int
        } else {
            1int
        }] == "Ctrl+Alt+H"@);
    }
}

/// The system is asked to register a new hotkey, after the held one was
/// released, which is the one to fall back on; for the same hotkey, or one that
/// is none, it is not asked at all.
pub proof fn lemma_what_the_system_is_asked(
    registrations: Registrations,
    text: &str,
    calls: CycleCalls,
)
    requires
        call_ensures(Registrations::cycle_calls, (&registrations, text), calls),
    ensures
        calls.register matches Some(next) ==> parsed_hotkey(text@) == Ok::<
            ParsedHotkey,
            ParseHotkeyError,
        >(next) && registrations@.cycle != Some(next) && calls.fallback == registrations@.cycle && (
        calls.release <==> registrations@.cycle is Some),
        calls.register is None ==> !calls.release && calls.fallback is None,
        parsed_hotkey(text@) matches Ok(next) ==> (registrations@.cycle != Some(next)
            ==> calls.register == Some(next)),
{
}

/// Everything that is held is released, and nothing is left.
pub proof fn lemma_everything_is_released(registrations: &mut Registrations, released: Vec<i32>)
    requires
        call_ensures(Registrations::unregister, (registrations,), released),
    ensures
        released@ == old(registrations)@.registered,
        final(registrations)@.registered.len() == 0,
        final(registrations)@.conflicts.len() == 0,
        !final(registrations)@.manual,
        final(registrations)@.cycle is None,
{
}

/// A hotkey that the system registered is the one in force.
pub proof fn lemma_a_registered_hotkey_is_in_force(
    registrations: &mut Registrations,
    text: &str,
    next_registered: bool,
    previous_restored: bool,
    outcome: (),
    code: Option<u32>,
    parsed: Result<ParsedHotkey, ParseHotkeyError>,
)
    requires
        old(registrations)@.wf(),
        call_ensures(
            Registrations::reregister,
            (registrations, text, next_registered, previous_restored),
            outcome,
        ),
        call_ensures(parse_cycle_hotkey, (text,), parsed),
        call_ensures(parse_virtual_key, (text,), code),
    ensures
        parsed == parsed_hotkey(text@),
        code == virtual_key(text@),
        next_registered ==> (parsed matches Ok(next) ==> final(registrations)@.cycle == Some(next)),
        parsed is Err ==> final(registrations)@.cycle == old(registrations)@.cycle,
        final(registrations)@.manual == old(registrations)@.manual,
        final(registrations)@.fixed_registered() == old(registrations)@.fixed_registered(),
{
    lemma_reregister_keeps_the_fixed_hotkeys(
        old(registrations)@,
        text@,
        next_registered,
        previous_restored,
    );
}

} // verus!
