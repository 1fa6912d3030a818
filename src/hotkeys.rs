//! Emacs-like key bindings, and the hotkeys registered with them.
use vstd::prelude::*;
use crate::text::{chars_of, string_of};

verus! {

/// A modifier key.
#[derive(Debug, Clone, Copy, PartialEq, Eq, Structural)]
pub enum Modifier {
    Alt,
    Control,
    Shift,
    Super,
}

/// A key that a binding can end with.
#[derive(Debug, Clone, Copy, PartialEq, Eq, Structural)]
pub enum Key {
    A,
    B,
    C,
    D,
    E,
    F,
    G,
    H,
    I,
    J,
    K,
    L,
    M,
    N,
    O,
    P,
    Q,
    R,
    S,
    T,
    U,
    V,
    W,
    X,
    Y,
    Z,
    Backspace,
    Tab,
    Enter,
    CapsLock,
    Escape,
    Space,
    PageUp,
    PageDown,
    End,
    Home,
    Left,
    Right,
    Up,
    Down,
    PrintScreen,
    Insert,
    Delete,
}

/// A set of modifiers.
#[derive(Debug, Clone, Copy, PartialEq, Eq, Structural)]
pub struct Modifiers {
    pub alt: bool,
    pub control: bool,
    pub shift: bool,
    pub super_key: bool,
}

/// The set with `m` added.
pub open spec fn with_modifier(s: Modifiers, m: Modifier) -> Modifiers {
    match m {
        Modifier::Alt => Modifiers { alt: true, ..s },
        Modifier::Control => Modifiers { control: true, ..s },
        Modifier::Shift => Modifiers { shift: true, ..s },
        Modifier::Super => Modifiers { super_key: true, ..s },
    }
}

impl Modifiers {
    /// The empty set.
    pub fn empty() -> (r: Self)
        ensures
            r == (Modifiers { alt: false, control: false, shift: false, super_key: false }),
    {
        Modifiers { alt: false, control: false, shift: false, super_key: false }
    }

    /// The set with `m` added.
    pub fn with(self, m: Modifier) -> (r: Self)
        ensures
            r == with_modifier(self, m),
    {
        match m {
            Modifier::Alt => Modifiers { alt: true, ..self },
            Modifier::Control => Modifiers { control: true, ..self },
            Modifier::Shift => Modifiers { shift: true, ..self },
            Modifier::Super => Modifiers { super_key: true, ..self },
        }
    }

    /// Whether `m` is in the set.
    pub fn contains(&self, m: Modifier) -> (r: bool)
        ensures
            r == (with_modifier(*self, m) == *self),
    {
        match m {
            Modifier::Alt => self.alt,
            Modifier::Control => self.control,
            Modifier::Shift => self.shift,
            Modifier::Super => self.super_key,
        }
    }
}

/// A parsed binding: the modifiers to hold and the key to press.
#[derive(Debug, Clone, Copy, PartialEq, Eq, Structural)]
pub struct ParsedBinding {
    pub modifiers: Modifiers,
    pub key: Key,
}

/// Why a binding could not be parsed.
#[derive(Debug, Clone, PartialEq, Eq)]
pub enum ParseError {
    /// The part is not a valid modifier.
    InvalidModifier(String),
    /// The part is not a valid key.
    InvalidKey(String),
    /// The part is a valid modifier, but is used in place of a key.
    ModifierUsedAsKey(String),
    /// The binding is empty.
    Empty,
}

/// The parts of a text between dashes, in order.
pub open spec fn split_dashes(s: Seq<char>) -> Seq<Seq<char>>
    decreases s.len(),
{
    if s.len() == 0 {
        seq![Seq::empty()]
    } else {
        let rest = split_dashes(s.drop_last());
        if s.last() == '-' {
            rest.push(Seq::empty())
        } else {
            rest.update(rest.len() - 1, rest.last().push(s.last()))
        }
    }
}

pub proof fn lemma_split_dashes_nonempty(s: Seq<char>)
    ensures
        split_dashes(s).len() >= 1,
    decreases s.len(),
{
    if s.len() > 0 {
        lemma_split_dashes_nonempty(s.drop_last());
    }
}

/// The modifier that a part names: `A`, `C`, `S` or `M`.
pub open spec fn modifier_of(p: Seq<char>) -> Option<Modifier> {
    if p == seq!['A'] {
        Some(Modifier::Alt)
    } else if p == seq!['C'] {
        Some(Modifier::Control)
    } else if p == seq!['S'] {
        Some(Modifier::Shift)
    } else if p == seq!['M'] {
        Some(Modifier::Super)
    } else {
        None
    }
}

/// The key of a lower-case letter.
pub open spec fn letter_key(c: char) -> Option<Key> {
    if c == 'a' { Some(Key::A) }
    else if c == 'b' { Some(Key::B) }
    else if c == 'c' { Some(Key::C) }
    else if c == 'd' { Some(Key::D) }
    else if c == 'e' { Some(Key::E) }
    else if c == 'f' { Some(Key::F) }
    else if c == 'g' { Some(Key::G) }
    else if c == 'h' { Some(Key::H) }
    else if c == 'i' { Some(Key::I) }
    else if c == 'j' { Some(Key::J) }
    else if c == 'k' { Some(Key::K) }
    else if c == 'l' { Some(Key::L) }
    else if c == 'm' { Some(Key::M) }
    else if c == 'n' { Some(Key::N) }
    else if c == 'o' { Some(Key::O) }
    else if c == 'p' { Some(Key::P) }
    else if c == 'q' { Some(Key::Q) }
    else if c == 'r' { Some(Key::R) }
    else if c == 's' { Some(Key::S) }
    else if c == 't' { Some(Key::T) }
    else if c == 'u' { Some(Key::U) }
    else if c == 'v' { Some(Key::V) }
    else if c == 'w' { Some(Key::W) }
    else if c == 'x' { Some(Key::X) }
    else if c == 'y' { Some(Key::Y) }
    else if c == 'z' { Some(Key::Z) }
    else { None }
}

/// The key that a lower-cased name in angle brackets stands for.
pub open spec fn named_key_of(s: Seq<char>) -> Option<Key> {
    if s == "<backspace>"@ { Some(Key::Backspace) }
    else if s == "<tab>"@ { Some(Key::Tab) }
    else if s == "<enter>"@ { Some(Key::Enter) }
    else if s == "<caps_lock>"@ { Some(Key::CapsLock) }
    else if s == "<escape>"@ { Some(Key::Escape) }
    else if s == "<space>"@ { Some(Key::Space) }
    else if s == "<page_up>"@ { Some(Key::PageUp) }
    else if s == "<page_down>"@ { Some(Key::PageDown) }
    else if s == "<end>"@ { Some(Key::End) }
    else if s == "<home>"@ { Some(Key::Home) }
    else if s == "<left>"@ { Some(Key::Left) }
    else if s == "<right>"@ { Some(Key::Right) }
    else if s == "<up>"@ { Some(Key::Up) }
    else if s == "<down>"@ { Some(Key::Down) }
    else if s == "<print_screen>"@ { Some(Key::PrintScreen) }
    else if s == "<insert>"@ { Some(Key::Insert) }
    else if s == "<delete>"@ { Some(Key::Delete) }
    else { None }
}

/// The text in lower case, as `str::to_lowercase` gives it.
pub uninterp spec fn lower_of(s: Seq<char>) -> Seq<char>;

/// Relies on `str::to_lowercase`: the result depends on the characters alone.
#[verifier::external_body]
fn lowercase(s: &str) -> (r: String)
    ensures
        r@ == lower_of(s@),
{
    s.to_lowercase()
}

/// The key that a part names: a lower-case letter, or a name in angle
/// brackets in any case.
pub open spec fn key_of(p: Seq<char>) -> Option<Key> {
    if p.len() == 1 && letter_key(p[0]) is Some {
        letter_key(p[0])
    } else {
        named_key_of(lower_of(p))
    }
}

/// The modifiers that the parts name, if all of them name one; else the
/// first part that does not.
pub open spec fn modifiers_of(parts: Seq<Seq<char>>) -> Result<Modifiers, Seq<char>>
    decreases parts.len(),
{
    if parts.len() == 0 {
        Ok(Modifiers { alt: false, control: false, shift: false, super_key: false })
    } else {
        match modifiers_of(parts.drop_last()) {
            Err(p) => Err(p),
            Ok(s) => match modifier_of(parts.last()) {
                Some(m) => Ok(with_modifier(s, m)),
                None => Err(parts.last()),
            },
        }
    }
}

/// What parsing `b` gives: the key is the last part, every part before it a
/// modifier. The key is checked first.
pub open spec fn parse_outcome(b: Seq<char>, r: Result<ParsedBinding, ParseError>) -> bool {
    let parts = split_dashes(b);
    let key_part = parts.last();
    if b.len() == 0 {
        r matches Err(ParseError::Empty)
    } else if modifier_of(key_part) is Some {
        r matches Err(ParseError::ModifierUsedAsKey(s)) && s@ == key_part
    } else if key_of(key_part) is None {
        r matches Err(ParseError::InvalidKey(s)) && s@ == key_part
    } else {
        match modifiers_of(parts.drop_last()) {
            Err(p) => r matches Err(ParseError::InvalidModifier(s)) && s@ == p,
            Ok(m) => r == Ok::<ParsedBinding, ParseError>(
                ParsedBinding { modifiers: m, key: key_of(key_part)->Some_0 },
            ),
        }
    }
}

/// Whether the characters are those of the literal.
fn chars_are(v: &Vec<char>, lit: &str) -> (r: bool)
    ensures
        r == (v@ == lit@),
{
    let w = chars_of(lit);
    if v.len() != w.len() {
        return false;
    }
    let mut i: usize = 0;
    while i < v.len()
        invariant
            v@.len() == w@.len(),
            w@ == lit@,
            i <= v@.len(),
            forall|j: int| 0 <= j < i ==> v@[j] == w@[j],
        decreases v.len() - i,
    {
        if v[i] != w[i] {
            return false;
        }
        i = i + 1;
    }
    assert(v@ =~= w@);
    true
}

/// Splits the characters at each dash.
fn split_parts(v: &Vec<char>) -> (r: Vec<Vec<char>>)
    ensures
        r@.len() == split_dashes(v@).len(),
        forall|i: int| 0 <= i < r@.len() ==> (#[trigger] r@[i])@ == split_dashes(v@)[i],
{
    let mut parts: Vec<Vec<char>> = Vec::new();
    let mut cur: Vec<char> = Vec::new();
    let mut i: usize = 0;
    assert(v@.take(0) =~= Seq::<char>::empty());
    while i < v.len()
        invariant
            i <= v@.len(),
            parts@.len() + 1 == split_dashes(v@.take(i as int)).len(),
            forall|j: int| 0 <= j < parts@.len() ==> (#[trigger] parts@[j])@ == split_dashes(v@.take(i as int))[j],
            cur@ == split_dashes(v@.take(i as int)).last(),
        decreases v.len() - i,
    {
        let ghost before = split_dashes(v@.take(i as int));
        assert(v@.take(i + 1).drop_last() =~= v@.take(i as int));
        assert(v@.take(i + 1).last() == v@[i as int]);
        if v[i] == '-' {
            let mut done: Vec<char> = Vec::new();
            std::mem::swap(&mut done, &mut cur);
            parts.push(done);
        } else {
            cur.push(v[i]);
        }
        i = i + 1;
    }
    assert(v@.take(i as int) =~= v@);
    parts.push(cur);
    parts
}

/// The modifier that `value` names.
fn convert_modifier(value: &Vec<char>) -> (r: Result<Modifier, ParseError>)
    ensures
        r matches Ok(m) ==> modifier_of(value@) == Some(m),
        r matches Err(e) ==> modifier_of(value@) is None && (e matches ParseError::InvalidModifier(
            s,
        ) && s@ == value@),
{
    if value.len() == 1 {
        let c = value[0];
        assert(value@ =~= seq![c]);
        if c == 'A' {
            return Ok(Modifier::Alt);
        } else if c == 'C' {
            return Ok(Modifier::Control);
        } else if c == 'S' {
            return Ok(Modifier::Shift);
        } else if c == 'M' {
            return Ok(Modifier::Super);
        }
    }
    Err(ParseError::InvalidModifier(string_of(value.as_slice())))
}

/// The key of a lower-case letter.
fn convert_letter(c: char) -> (r: Option<Key>)
    ensures
        r == letter_key(c),
{
    if c == 'a' { Some(Key::A) }
    else if c == 'b' { Some(Key::B) }
    else if c == 'c' { Some(Key::C) }
    else if c == 'd' { Some(Key::D) }
    else if c == 'e' { Some(Key::E) }
    else if c == 'f' { Some(Key::F) }
    else if c == 'g' { Some(Key::G) }
    else if c == 'h' { Some(Key::H) }
    else if c == 'i' { Some(Key::I) }
    else if c == 'j' { Some(Key::J) }
    else if c == 'k' { Some(Key::K) }
    else if c == 'l' { Some(Key::L) }
    else if c == 'm' { Some(Key::M) }
    else if c == 'n' { Some(Key::N) }
    else if c == 'o' { Some(Key::O) }
    else if c == 'p' { Some(Key::P) }
    else if c == 'q' { Some(Key::Q) }
    else if c == 'r' { Some(Key::R) }
    else if c == 's' { Some(Key::S) }
    else if c == 't' { Some(Key::T) }
    else if c == 'u' { Some(Key::U) }
    else if c == 'v' { Some(Key::V) }
    else if c == 'w' { Some(Key::W) }
    else if c == 'x' { Some(Key::X) }
    else if c == 'y' { Some(Key::Y) }
    else if c == 'z' { Some(Key::Z) }
    else { None }
}

/// The key that a lower-cased name in angle brackets stands for.
pub fn named_key(lowered: &str) -> (r: Option<Key>)
    ensures
        r == named_key_of(lowered@),
{
    let v = chars_of(lowered);
    if chars_are(&v, "<backspace>") { Some(Key::Backspace) }
    else if chars_are(&v, "<tab>") { Some(Key::Tab) }
    else if chars_are(&v, "<enter>") { Some(Key::Enter) }
    else if chars_are(&v, "<caps_lock>") { Some(Key::CapsLock) }
    else if chars_are(&v, "<escape>") { Some(Key::Escape) }
    else if chars_are(&v, "<space>") { Some(Key::Space) }
    else if chars_are(&v, "<page_up>") { Some(Key::PageUp) }
    else if chars_are(&v, "<page_down>") { Some(Key::PageDown) }
    else if chars_are(&v, "<end>") { Some(Key::End) }
    else if chars_are(&v, "<home>") { Some(Key::Home) }
    else if chars_are(&v, "<left>") { Some(Key::Left) }
    else if chars_are(&v, "<right>") { Some(Key::Right) }
    else if chars_are(&v, "<up>") { Some(Key::Up) }
    else if chars_are(&v, "<down>") { Some(Key::Down) }
    else if chars_are(&v, "<print_screen>") { Some(Key::PrintScreen) }
    else if chars_are(&v, "<insert>") { Some(Key::Insert) }
    else if chars_are(&v, "<delete>") { Some(Key::Delete) }
    else { None }
}

/// The key that `value` names.
fn convert_key(value: &Vec<char>) -> (r: Result<Key, ParseError>)
    ensures
        modifier_of(value@) is Some ==> (r matches Err(ParseError::ModifierUsedAsKey(s)) && s@
            == value@),
        modifier_of(value@) is None && key_of(value@) is None ==> (r matches Err(
            ParseError::InvalidKey(s),
        ) && s@ == value@),
        modifier_of(value@) is None && key_of(value@) is Some ==> r == Ok::<Key, ParseError>(
            key_of(value@)->Some_0,
        ),
{
    if convert_modifier(value).is_ok() {
        return Err(ParseError::ModifierUsedAsKey(string_of(value.as_slice())));
    }
    if value.len() == 1 {
        match convert_letter(value[0]) {
            Some(k) => return Ok(k),
            None => {},
        }
    }
    let text = string_of(value.as_slice());
    let lowered = lowercase(text.as_str());
    match named_key(lowered.as_str()) {
        Some(k) => Ok(k),
        None => Err(ParseError::InvalidKey(text)),
    }
}

/// Parses an emacs-like key binding such as `C-M-s` or `A-<Space>`.
/// Chords are not supported.
pub fn parse_binding(binding: &str) -> (r: Result<ParsedBinding, ParseError>)
    ensures
        parse_outcome(binding@, r),
{
    let v = chars_of(binding);
    if v.len() == 0 {
        return Err(ParseError::Empty);
    }
    let parts = split_parts(&v);
    proof {
        lemma_split_dashes_nonempty(v@);
    }
    let last = parts.len() - 1;
    let key = match convert_key(&parts[last]) {
        Ok(k) => k,
        Err(e) => return Err(e),
    };
    let ghost mods = split_dashes(v@).drop_last();
    assert(split_dashes(v@).last() == parts@[last as int]@);
    let mut modifiers = Modifiers::empty();
    let mut i: usize = 0;
    while i < last
        invariant
            last == parts@.len() - 1,
            parts@.len() == split_dashes(v@).len(),
            forall|j: int| 0 <= j < parts@.len() ==> (#[trigger] parts@[j])@ == split_dashes(v@)[j],
            mods == split_dashes(v@).drop_last(),
            i <= last,
            v@ == binding@,
            v@.len() > 0,
            modifier_of(split_dashes(v@).last()) is None,
            key_of(split_dashes(v@).last()) == Some(key),
            modifiers_of(mods.take(i as int)) == Ok::<Modifiers, Seq<char>>(modifiers),
        decreases last - i,
    {
        assert(mods.take(i + 1).drop_last() =~= mods.take(i as int));
        assert(mods.take(i + 1).last() == parts@[i as int]@);
        match convert_modifier(&parts[i]) {
            Ok(m) => {
                modifiers = modifiers.with(m);
            },
            Err(e) => {
                proof {
                    assert(modifier_of(mods.take(i + 1).last()) is None);
                    assert(modifiers_of(mods.take(i + 1)) == Err::<Modifiers, Seq<char>>(
                        parts@[i as int]@,
                    ));
                    lemma_modifiers_err_prefix(mods, i + 1);
                    assert(split_dashes(v@).last() == parts@[last as int]@);
                }
                return Err(e);
            },
        }
        i = i + 1;
    }
    assert(mods.take(last as int) =~= mods);
    Ok(ParsedBinding { modifiers, key })
}

pub proof fn lemma_modifiers_err_prefix(parts: Seq<Seq<char>>, n: int)
    requires
        0 <= n <= parts.len(),
        modifiers_of(parts.take(n)) is Err,
    ensures
        modifiers_of(parts) == modifiers_of(parts.take(n)),
    decreases parts.len(),
{
    if n < parts.len() {
        assert(parts.drop_last().take(n) =~= parts.take(n));
        lemma_modifiers_err_prefix(parts.drop_last(), n);
    } else {
        assert(parts.take(n) =~= parts);
    }
}

/// A hotkey: the binding, and the value sent when it is pressed.
#[derive(Debug, Clone, Copy)]
pub struct Hotkey<T> {
    pub modifiers: Modifiers,
    pub key: Key,
    pub value: T,
}

/// Collects system-wide hotkeys and the values that they send.
pub struct Listener<T> {
    hotkeys: Vec<Hotkey<T>>,
}

impl<T> Listener<T> {
    pub closed spec fn spec_hotkeys(&self) -> Seq<Hotkey<T>> {
        self.hotkeys@
    }

    pub fn new() -> (r: Self)
        ensures
            r.spec_hotkeys().len() == 0,
    {
        Listener { hotkeys: Vec::new() }
    }

    /// Registers a hotkey given the modifiers and key.
    pub fn register(&mut self, modifiers: Modifiers, key: Key, value: T)
        ensures
            final(self).spec_hotkeys() == old(self).spec_hotkeys().push(
                Hotkey { modifiers, key, value },
            ),
    {
        let hotkey = Hotkey { modifiers, key, value };
        self.hotkeys.push(hotkey);
    }

    /// Registers a hotkey given an emacs-like binding (see `parse_binding`).
    /// An invalid binding registers nothing.
    pub fn register_emacs(&mut self, binding: &str, value: T) -> (r: Result<(), ParseError>)
        ensures
            exists|p: Result<ParsedBinding, ParseError>|
                #[trigger] parse_outcome(binding@, p) && match p {
                    Ok(b) => r is Ok && final(self).spec_hotkeys() == old(self).spec_hotkeys().push(
                        Hotkey { modifiers: b.modifiers, key: b.key, value },
                    ),
                    Err(e) => r == Err::<(), ParseError>(e) && final(self).spec_hotkeys() == old(
                        self,
                    ).spec_hotkeys(),
                },
    {
        let parsed = parse_binding(binding);
        match parsed {
            Ok(b) => {
                self.register(b.modifiers, b.key, value);
                Ok(())
            },
            Err(e) => Err(e),
        }
    }

    /// The registered hotkeys, in registration order.
    pub fn hotkeys(&self) -> (r: &Vec<Hotkey<T>>)
        ensures
            r@ == self.spec_hotkeys(),
    {
        &self.hotkeys
    }
}

} // verus!
